//! The global symbol table: scope path to linkable descriptor, and the
//! resolver of dotted identifier chains with fallback through enclosing
//! scopes.
use vstd::prelude::*;
use crate::structures::{LinkedSection, LinkV};

verus! {

/// Whether two scope paths are equal.
pub fn same_path(a: &[u64], b: &[u64]) -> (r: bool)
    ensures
        r == (a@ == b@),
{
    if a.len() != b.len() {
        return false;
    }
    let mut i: usize = 0;
    while i < a.len()
        invariant
            a.len() == b.len(),
            i <= a.len(),
            a@.take(i as int) == b@.take(i as int),
        decreases a.len() - i,
    {
        if a[i] != b[i] {
            assert(a@[i as int] != b@[i as int]);
            return false;
        }
        assert(a@.take(i + 1) =~= a@.take(i as int).push(a@[i as int]));
        assert(b@.take(i + 1) =~= b@.take(i as int).push(b@[i as int]));
        i += 1;
    }
    assert(a@ =~= a@.take(a.len() as int));
    assert(b@ =~= b@.take(b.len() as int));
    true
}

/// `context` extended by one identifier.
pub fn context_with(context: &[u64], with: u64) -> (r: Vec<u64>)
    ensures
        r@ == context@.push(with),
{
    let mut v: Vec<u64> = Vec::new();
    let mut i: usize = 0;
    while i < context.len()
        invariant
            i <= context.len(),
            v@ == context@.take(i as int),
        decreases context.len() - i,
    {
        v.push(context[i]);
        i += 1;
        assert(v@ =~= context@.take(i as int));
    }
    assert(context@.take(context.len() as int) =~= context@);
    v.push(with);
    v
}

/// The first `n` identifiers of `context`.
pub fn path_prefix(context: &[u64], n: usize) -> (r: Vec<u64>)
    requires
        n <= context@.len(),
    ensures
        r@ == context@.take(n as int),
{
    let mut v: Vec<u64> = Vec::new();
    let mut i: usize = 0;
    while i < n
        invariant
            n <= context.len(),
            i <= n,
            v@ == context@.take(i as int),
        decreases n - i,
    {
        v.push(context[i]);
        i += 1;
        assert(v@ =~= context@.take(i as int));
    }
    v
}

/// Every segment of `chain`, appended one after the other to `start`, names an
/// item of `t`.
pub open spec fn chain_resolves(t: Map<Seq<u64>, LinkV>, start: Seq<u64>, chain: Seq<u64>) -> bool {
    forall|i: int| 0 <= i < chain.len() ==> #[trigger] t.contains_key(start + chain.take(i + 1))
}

/// The descriptors of the items that the segments of `chain` name below `start`.
pub open spec fn chain_links(t: Map<Seq<u64>, LinkV>, start: Seq<u64>, chain: Seq<u64>) -> Seq<LinkV> {
    Seq::new(chain.len(), |i: int| t[start + chain.take(i + 1)])
}

/// Resolution of `chain` from the scope `ctx`: the first segment is sought in
/// `ctx`, then in each enclosing scope out to the global one; from the scope
/// where it is found every later segment must be found too.
pub open spec fn resolve_spec(t: Map<Seq<u64>, LinkV>, ctx: Seq<u64>, chain: Seq<u64>) -> Option<Seq<LinkV>>
    decreases ctx.len(),
{
    if t.contains_key(ctx.push(chain[0])) {
        if chain_resolves(t, ctx, chain) {
            Some(chain_links(t, ctx, chain))
        } else {
            None
        }
    } else if ctx.len() == 0 {
        None
    } else {
        resolve_spec(t, ctx.drop_last(), chain)
    }
}

/// A resolved chain has one descriptor per segment.
pub proof fn lemma_resolve_len(t: Map<Seq<u64>, LinkV>, ctx: Seq<u64>, chain: Seq<u64>)
    requires
        chain.len() > 0,
    ensures
        match resolve_spec(t, ctx, chain) {
            Some(links) => links.len() == chain.len(),
            None => true,
        },
    decreases ctx.len(),
{
    if !t.contains_key(ctx.push(chain[0])) && ctx.len() > 0 {
        lemma_resolve_len(t, ctx.drop_last(), chain);
    }
}

/// The descriptors of a list of linked sections.
pub open spec fn links_view(v: Seq<LinkedSection>) -> Seq<LinkV> {
    v.map_values(|l: LinkedSection| l@)
}

/// Inserts `entries` one after the other; a later entry overwrites an earlier
/// one with the same key.
pub open spec fn insert_all(m: Map<Seq<u64>, LinkV>, entries: Seq<(Seq<u64>, LinkV)>) -> Map<Seq<u64>, LinkV>
    decreases entries.len(),
{
    if entries.len() == 0 {
        m
    } else {
        insert_all(m, entries.drop_last()).insert(entries.last().0, entries.last().1)
    }
}

pub proof fn lemma_insert_all_one(m: Map<Seq<u64>, LinkV>, e: (Seq<u64>, LinkV))
    ensures
        insert_all(m, seq![e]) == m.insert(e.0, e.1),
{
    assert(seq![e].drop_last() =~= Seq::<(Seq<u64>, LinkV)>::empty());
    assert(insert_all(m, Seq::<(Seq<u64>, LinkV)>::empty()) == m);
}

pub proof fn lemma_insert_all_append(
    m: Map<Seq<u64>, LinkV>,
    a: Seq<(Seq<u64>, LinkV)>,
    b: Seq<(Seq<u64>, LinkV)>,
)
    ensures
        insert_all(insert_all(m, a), b) == insert_all(m, a + b),
    decreases b.len(),
{
    if b.len() == 0 {
        assert(a + b =~= a);
    } else {
        lemma_insert_all_append(m, a, b.drop_last());
        assert((a + b).drop_last() =~= a + b.drop_last());
    }
}

/// The symbol table: every scope path maps to exactly one descriptor.
pub struct ItemProvider {
    entries: Vec<(Vec<u64>, LinkedSection)>,
    table: Ghost<Map<Seq<u64>, LinkV>>,
}

impl ItemProvider {
    pub closed spec fn view(&self) -> Map<Seq<u64>, LinkV> {
        self.table@
    }

    pub closed spec fn wf(&self) -> bool {
        &&& forall|i: int|
            #![trigger self.entries@[i]]
            0 <= i < self.entries@.len() ==> {
                &&& self.table@.contains_key(self.entries@[i].0@)
                &&& self.table@[self.entries@[i].0@] == self.entries@[i].1@
            }
        &&& forall|k: Seq<u64>|
            #[trigger] self.table@.contains_key(k) ==> exists|i: int|
                0 <= i < self.entries@.len() && self.entries@[i].0@ == k
        &&& forall|i: int, j: int|
            #![trigger self.entries@[i], self.entries@[j]]
            0 <= i < j < self.entries@.len() ==> self.entries@[i].0@ != self.entries@[j].0@
    }

    pub fn new() -> (r: ItemProvider)
        ensures
            r.wf(),
            r@ == Map::<Seq<u64>, LinkV>::empty(),
    {
        ItemProvider { entries: Vec::new(), table: Ghost(Map::empty()) }
    }

    /// Where the entry with key `key` stands, if there is one.
    fn position(&self, key: &[u64]) -> (r: Option<usize>)
        requires
            self.wf(),
        ensures
            match r {
                Some(i) => i < self.entries@.len() && self.entries@[i as int].0@ == key@,
                None => !self@.contains_key(key@),
            },
    {
        let mut i: usize = 0;
        while i < self.entries.len()
            invariant
                self.wf(),
                i <= self.entries@.len(),
                forall|j: int| 0 <= j < i ==> self.entries@[j].0@ != key@,
            decreases self.entries.len() - i,
        {
            if same_path(self.entries[i].0.as_slice(), key) {
                return Some(i);
            }
            i += 1;
        }
        None
    }

    /// The descriptor stored under `key`.
    pub fn get(&self, key: &[u64]) -> (r: Option<&LinkedSection>)
        requires
            self.wf(),
        ensures
            match r {
                Some(l) => self@.contains_key(key@) && self@[key@] == l@,
                None => !self@.contains_key(key@),
            },
    {
        match self.position(key) {
            Some(i) => Some(&self.entries[i].1),
            None => None,
        }
    }

    /// Stores `sec` under `key`, replacing what was stored there.
    pub fn insert(&mut self, key: Vec<u64>, sec: LinkedSection)
        requires
            old(self).wf(),
        ensures
            final(self).wf(),
            final(self)@ == old(self)@.insert(key@, sec@),
    {
        let ghost k = key@;
        let ghost v = sec@;
        let ghost t0 = self.table@;
        match self.position(key.as_slice()) {
            Some(i) => {
                let ghost e0 = self.entries@;
                self.entries.set(i, (key, sec));
                self.table = Ghost(t0.insert(k, v));
                assert forall|a: int| 0 <= a < self.entries@.len() implies #[trigger] self.entries@[a].0@ == e0[a].0@ by {}
                assert forall|a: int| #![trigger self.entries@[a]] 0 <= a < self.entries@.len() implies {
                    &&& self.table@.contains_key(self.entries@[a].0@)
                    &&& self.table@[self.entries@[a].0@] == self.entries@[a].1@
                } by {
                    if a != i {
                        assert(e0[a] == old(self).entries@[a]);
                        assert(e0[a].0@ != k);
                    }
                }
                assert forall|kk: Seq<u64>| #[trigger] self.table@.contains_key(kk) implies exists|j: int|
                    0 <= j < self.entries@.len() && self.entries@[j].0@ == kk by {
                    if kk != k {
                        let j = choose|j: int| 0 <= j < old(self).entries@.len() && old(self).entries@[j].0@ == kk;
                        assert(self.entries@[j].0@ == kk);
                    } else {
                        assert(self.entries@[i as int].0@ == kk);
                    }
                }
            },
            None => {
                assert forall|a: int| 0 <= a < old(self).entries@.len() implies #[trigger] old(self).entries@[a].0@ != k by {
                    assert(old(self).table@.contains_key(old(self).entries@[a].0@));
                }
                self.entries.push((key, sec));
                self.table = Ghost(t0.insert(k, v));
                let ghost n = self.entries@.len() - 1;
                assert(self.entries@[n].0@ == k);
                assert forall|kk: Seq<u64>| #[trigger] self.table@.contains_key(kk) implies exists|j: int|
                    0 <= j < self.entries@.len() && self.entries@[j].0@ == kk by {
                    if kk != k {
                        let j = choose|j: int| 0 <= j < old(self).entries@.len() && old(self).entries@[j].0@ == kk;
                        assert(self.entries@[j].0@ == kk);
                    } else {
                        assert(self.entries@[n].0@ == kk);
                    }
                }
            },
        }
    }

    /// Resolves `chain` starting at scope `context`, falling back through the
    /// enclosing scopes; gives one descriptor per segment, or nothing when the
    /// chain does not resolve.
    pub fn resolve(&self, context: &[u64], chain: &[u64]) -> (r: Option<Vec<LinkedSection>>)
        requires
            self.wf(),
            chain@.len() > 0,
        ensures
            match r {
                Some(v) => resolve_spec(self@, context@, chain@) == Some(links_view(v@)),
                None => resolve_spec(self@, context@, chain@) is None,
            },
    {
        let mut n: usize = context.len();
        assert(context@.take(n as int) =~= context@);
        loop
            invariant
                self.wf(),
                chain@.len() > 0,
                n <= context@.len(),
                resolve_spec(self@, context@, chain@) == resolve_spec(self@, context@.take(n as int), chain@),
            decreases n,
        {
            let ghost ctx = context@.take(n as int);
            let start = path_prefix(context, n);
            let first = context_with(start.as_slice(), chain[0]);
            if self.position(first.as_slice()).is_some() {
                return self.resolve_from(start.as_slice(), chain);
            }
            if n == 0 {
                return None;
            }
            assert(ctx.drop_last() =~= context@.take(n - 1));
            n -= 1;
        }
    }

    /// Resolves every segment of `chain` below the scope `start`, which must
    /// hold the first segment.
    fn resolve_from(&self, start: &[u64], chain: &[u64]) -> (r: Option<Vec<LinkedSection>>)
        requires
            self.wf(),
            chain@.len() > 0,
            self@.contains_key(start@.push(chain@[0])),
        ensures
            match r {
                Some(v) => resolve_spec(self@, start@, chain@) == Some(links_view(v@)),
                None => resolve_spec(self@, start@, chain@) is None,
            },
    {
        let mut out: Vec<LinkedSection> = Vec::new();
        let mut cur: Vec<u64> = path_prefix(start, start.len());
        assert(start@.take(start@.len() as int) =~= start@);
        let mut i: usize = 0;
        assert(links_view(out@) =~= chain_links(self@, start@, chain@.take(0)));
        while i < chain.len()
            invariant
                self.wf(),
                chain@.len() > 0,
                self@.contains_key(start@.push(chain@[0])),
                i <= chain@.len(),
                cur@ == start@ + chain@.take(i as int),
                chain_resolves(self@, start@, chain@.take(i as int)),
                links_view(out@) == chain_links(self@, start@, chain@.take(i as int)),
            decreases chain.len() - i,
        {
            cur.push(chain[i]);
            assert(cur@ =~= start@ + chain@.take(i + 1));
            match self.get(cur.as_slice()) {
                Some(l) => {
                    let ghost out0 = out@;
                    out.push(l.duplicate());
                    proof {
                        let c1 = chain@.take(i + 1);
                        assert forall|j: int| 0 <= j < c1.len() implies #[trigger] self@.contains_key(start@ + c1.take(j + 1)) by {
                            if j < i {
                                assert(c1.take(j + 1) =~= chain@.take(i as int).take(j + 1));
                            } else {
                                assert(c1.take(j + 1) =~= c1);
                            }
                        }
                        assert(c1.take(i + 1) =~= c1);
                        assert(links_view(out0).len() == out0.len());
                        assert(chain_links(self@, start@, chain@.take(i as int)).len() == i);
                        assert(out0.len() == i);
                        assert forall|j: int| 0 <= j < c1.len() implies #[trigger] links_view(out@)[j] == chain_links(self@, start@, c1)[j] by {
                            if j < i {
                                assert(c1.take(j + 1) =~= chain@.take(i as int).take(j + 1));
                                assert(out@[j] == out0[j]);
                                assert(links_view(out0)[j] == chain_links(self@, start@, chain@.take(i as int))[j]);
                            }
                        }
                        assert(links_view(out@) =~= chain_links(self@, start@, c1));
                    }
                    i += 1;
                },
                None => {
                    proof {
                        assert(!self@.contains_key(start@ + chain@.take(i + 1)));
                        assert(!chain_resolves(self@, start@, chain@));
                        assert(self@.contains_key(start@.push(chain@[0])));
                        assert(resolve_spec(self@, start@, chain@) is None);
                    }
                    return None;
                },
            }
        }
        assert(chain@.take(chain@.len() as int) =~= chain@);
        assert(start@.push(chain@[0]) =~= start@ + chain@.take(1));
        Some(out)
    }
}

} // verus!
