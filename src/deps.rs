//! The archive graph: the order in which a project's dependencies are
//! visited, and the content-addressed cache of remote dependencies. The
//! loading and fetching themselves are done by the caller, which hands the
//! results back step by step.
use vstd::prelude::*;
use sha2::Digest;

verus! {

/// A dependency whose own dependencies are being visited: its node (none
/// for the primary archive), the next of its declared dependencies to load,
/// and how many it declares.
#[derive(Clone, Copy, Debug, PartialEq, Eq, Structural)]
pub struct Frame {
    pub node: Option<usize>,
    pub next: usize,
    pub count: usize,
}

/// What the caller does next.
#[derive(Clone, Copy, Debug, PartialEq, Eq, Structural)]
pub enum WalkAction {
    /// Load dependency `index` of those declared by `parent` (none for the
    /// primary archive), then report it with [`DependencyWalk::loaded`].
    Load { parent: Option<usize>, index: usize },
    /// Every dependency of `node` is in the sequence: append `node` itself.
    Emit(usize),
    /// The sequence is complete.
    Done,
}

/// A depth-first walk of the dependency graph that visits a dependency's
/// own dependencies before the dependency itself, and each display name
/// once.
pub struct DependencyWalk {
    stack: Vec<Frame>,
    seen: Vec<String>,
    next_node: usize,
}

/// Whether `name` is among `seen`.
pub open spec fn seen_contains(seen: Seq<Seq<char>>, name: Seq<char>) -> bool {
    exists|i: int| 0 <= i < seen.len() && seen[i] == name
}

impl DependencyWalk {
    pub closed spec fn frames(&self) -> Seq<Frame> {
        self.stack@
    }

    pub closed spec fn seen_names(&self) -> Seq<Seq<char>> {
        self.seen@.map_values(|s: String| s@)
    }

    pub closed spec fn nodes(&self) -> nat {
        self.next_node as nat
    }

    /// Starts the walk at the primary archive, which declares `count`
    /// dependencies.
    pub fn new(count: usize) -> (r: DependencyWalk)
        ensures
            r.frames() == seq![Frame { node: None, next: 0, count }],
            r.seen_names() == Seq::<Seq<char>>::empty(),
            r.nodes() == 0,
    {
        let mut stack: Vec<Frame> = Vec::new();
        stack.push(Frame { node: None, next: 0, count });
        let r = DependencyWalk { stack, seen: Vec::new(), next_node: 0 };
        assert(r.seen_names() =~= Seq::<Seq<char>>::empty());
        assert(r.frames() =~= seq![Frame { node: None, next: 0, count }]);
        r
    }

    /// The next step: load the next declared dependency of the innermost
    /// open dependency; or, when it has none left, close it (emitting it,
    /// unless it is the primary archive); or finish.
    pub fn next_action(&mut self) -> (r: WalkAction)
        ensures
            final(self).seen_names() == old(self).seen_names(),
            final(self).nodes() == old(self).nodes(),
            old(self).frames().len() == 0 ==> r == WalkAction::Done && final(self).frames() == old(self).frames(),
            old(self).frames().len() > 0 ==> {
                let top = old(self).frames().last();
                if top.next < top.count {
                    r == (WalkAction::Load { parent: top.node, index: top.next }) && final(self).frames() == old(self).frames()
                } else {
                    final(self).frames() == old(self).frames().drop_last() && match top.node {
                        Some(n) => r == WalkAction::Emit(n),
                        None => r == WalkAction::Done,
                    }
                }
            },
    {
        let n = self.stack.len();
        if n == 0 {
            return WalkAction::Done;
        }
        let top = self.stack[n - 1];
        if top.next < top.count {
            return WalkAction::Load { parent: top.node, index: top.next };
        }
        self.stack.pop();
        match top.node {
            Some(node) => WalkAction::Emit(node),
            None => WalkAction::Done,
        }
    }

    /// Reports the dependency that the last `Load` asked for: its display
    /// name and how many dependencies it declares. A name already seen is
    /// skipped (`None`); a new one gets a node, whose own dependencies are
    /// visited next.
    pub fn loaded(&mut self, name: &String, count: usize) -> (r: Option<usize>)
        requires
            old(self).frames().len() > 0,
            old(self).frames().last().next < old(self).frames().last().count,
            old(self).nodes() < usize::MAX,
        ensures
            ({
                let top = old(self).frames().last();
                let advanced = old(self).frames().drop_last().push(Frame { next: (top.next + 1) as usize, ..top });
                if seen_contains(old(self).seen_names(), name@) {
                    &&& r is None
                    &&& final(self).frames() == advanced
                    &&& final(self).seen_names() == old(self).seen_names()
                    &&& final(self).nodes() == old(self).nodes()
                } else {
                    &&& r == Some(old(self).nodes() as usize)
                    &&& final(self).frames() == advanced.push(Frame { node: Some(old(self).nodes() as usize), next: 0, count })
                    &&& final(self).seen_names() == old(self).seen_names().push(name@)
                    &&& final(self).nodes() == old(self).nodes() + 1
                }
            }),
    {
        let ghost names0 = self.seen_names();
        let n = self.stack.len();
        let top = self.stack[n - 1];
        self.stack.set(n - 1, Frame { next: top.next + 1, ..top });
        let ghost adv = self.stack@;
        let ghost nn0 = self.next_node;
        let ghost top0 = old(self).frames().last();
        assert(adv =~= old(self).frames().drop_last().push(Frame { next: (top0.next + 1) as usize, ..top0 }));
        let mut i: usize = 0;
        while i < self.seen.len()
            invariant
                self.stack@ == adv,
                old(self).frames().len() > 0,
                top0 == old(self).frames().last(),
                adv == old(self).frames().drop_last().push(Frame { next: (top0.next + 1) as usize, ..top0 }),
                self.next_node == nn0,
                nn0 == old(self).nodes(),
                names0 == old(self).seen_names(),
                i <= self.seen@.len(),
                names0 == self.seen@.map_values(|s: String| s@),
                forall|j: int| 0 <= j < i ==> names0[j] != name@,
            decreases self.seen.len() - i,
        {
            if self.seen[i] == *name {
                assert(names0[i as int] == name@);
                assert(seen_contains(old(self).seen_names(), name@));
                assert(self.frames() == adv);
                assert(self.seen_names() == names0);
                return None;
            }
            i += 1;
        }
        let node = self.next_node;
        self.seen.push(name.clone());
        self.next_node = node + 1;
        self.stack.push(Frame { node: Some(node), next: 0, count });
        assert(self.seen_names() =~= names0.push(name@));
        Some(node)
    }
}

/// Where a remote dependency's checkout stands in the cache.
#[derive(Clone, Copy, Debug, PartialEq, Eq, Structural)]
pub enum CloneState {
    /// Nothing tried yet.
    Start,
    /// Updating an existing cache entry.
    Updating,
    /// Cloning into a fresh cache entry.
    Cloning,
    Finished,
}

/// What the caller reports back.
#[derive(Clone, Copy, Debug, PartialEq, Eq, Structural)]
pub enum CloneEvent {
    /// Whether the cache entry exists.
    Checked(bool),
    /// Whether the last fetch and checkout succeeded.
    Attempted(bool),
}

/// What the caller does next.
#[derive(Clone, Copy, Debug, PartialEq, Eq, Structural)]
pub enum CloneAction {
    /// Fetch into the existing entry and check out the revision.
    UpdateExisting,
    /// Delete the entry, then clone afresh and check out the revision.
    DeleteAndClone,
    /// Clone into a new entry and check out the revision.
    CloneFresh,
    /// The checkout is ready.
    Succeed,
    /// The dependency cannot be had.
    Fail,
}

/// The decisions of fetching a remote dependency: an existing cache entry
/// is updated; a failed update deletes the entry and clones once more; a
/// failed fresh clone is fatal.
pub fn clone_step(state: CloneState, event: CloneEvent) -> (r: (CloneState, CloneAction))
    ensures
        r == match (state, event) {
            (CloneState::Start, CloneEvent::Checked(true)) => (CloneState::Updating, CloneAction::UpdateExisting),
            (CloneState::Start, CloneEvent::Checked(false)) => (CloneState::Cloning, CloneAction::CloneFresh),
            (CloneState::Updating, CloneEvent::Attempted(true)) => (CloneState::Finished, CloneAction::Succeed),
            (CloneState::Updating, CloneEvent::Attempted(false)) => (CloneState::Cloning, CloneAction::DeleteAndClone),
            (CloneState::Cloning, CloneEvent::Attempted(true)) => (CloneState::Finished, CloneAction::Succeed),
            _ => (CloneState::Finished, CloneAction::Fail),
        },
{
    match (state, event) {
        (CloneState::Start, CloneEvent::Checked(true)) => (CloneState::Updating, CloneAction::UpdateExisting),
        (CloneState::Start, CloneEvent::Checked(false)) => (CloneState::Cloning, CloneAction::CloneFresh),
        (CloneState::Updating, CloneEvent::Attempted(true)) => (CloneState::Finished, CloneAction::Succeed),
        (CloneState::Updating, CloneEvent::Attempted(false)) => (CloneState::Cloning, CloneAction::DeleteAndClone),
        (CloneState::Cloning, CloneEvent::Attempted(true)) => (CloneState::Finished, CloneAction::Succeed),
        _ => (CloneState::Finished, CloneAction::Fail),
    }
}

/// The lower-case hexadecimal SHA-256 digest of the UTF-8 bytes of `s`.
pub uninterp spec fn sha256_hex(s: Seq<char>) -> Seq<char>;

/// Relies on sha2's `Sha256` (`Digest::update`, `Digest::finalize`) and the
/// lower-hex formatting of the digest: the result depends on the text alone.
#[verifier::external_body]
fn sha256_hex_of(s: &str) -> (r: String)
    ensures
        r@ == sha256_hex(s@),
{
    let mut hasher = sha2::Sha256::new();
    hasher.update(s.as_bytes());
    format!("{:x}", hasher.finalize())
}

/// The cache entry of a repository, relative to the cache directory: keyed
/// by the digest of the repository URL.
pub fn checkout_dir(url: &str) -> (r: String)
    ensures
        r@ == "checkouts/"@ + sha256_hex(url@),
{
    let mut r = "checkouts/".to_string();
    let h = sha256_hex_of(url);
    r.append(h.as_str());
    r
}

} // verus!
