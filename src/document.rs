//! The documentation assembler: walks the primary archive's declarations and
//! builds the documentation tree, with linked declarations, visibility
//! buckets, override links and a deterministic order.
use vstd::prelude::*;
use crate::item::ItemProvider;
use crate::model::{
    has_flag, ClassDecl, ClassInner, ConstDecl, DeprecationInfo, EnumDecl, EnumVariantDecl, FlagDecl,
    FunctionDecl, Ident, MemberDecl, PropertyDecl, SourceSpan, StaticConstArrayDecl, StructDecl,
    StructInner, TopLevelDef, TopLevelKind, FN_OVERRIDE, FN_PRIVATE, FN_PROTECTED, FN_VIRTUAL,
    MEMBER_PRIVATE, MEMBER_PROTECTED,
};
use crate::ordering::{
    lemma_lex_total, lemma_lex_trans, lex_le, name_le, sort_items, sorted, span_le, span_le_exec,
    SortKey,
};
use crate::signature::{
    constant_tokens, enumerator_tokens, flagdef_tokens, function_sig_tokens, member_tokens,
    property_tokens, reconstruct_constant_declaration, reconstruct_enumerator_declaration,
    reconstruct_flagdef, reconstruct_function_signature, reconstruct_member_declaration,
    reconstruct_property, reconstruct_static_const_array_declaration, static_array_tokens,
};
use crate::structures::{
    emit_all, Class, Constant, Deprecated, Enum, Enumerator, Flag, Function, KindV, LinkV,
    LinkedSection, LinkedSectionKind, MemberVariable, Owner, OwnerV, Property, SectionV, Struct,
    VariablesAndFunctions,
};
use crate::text::{decimal, decimal_text, doc_string, doc_text, is_hidden, should_skip};

verus! {

/// The failures that stop assembly.
#[derive(Clone, Debug, PartialEq, Eq)]
pub enum DocError {
    /// The ancestor chain of the named class runs in a cycle.
    InheritanceCycle(String),
    /// A builtin uses the declarations of a struct that no archive declares.
    MissingStruct(String),
}

impl DocError {
    /// The error as a sentence.
    pub fn message(&self) -> (r: String)
        ensures
            r@ == match self {
                DocError::InheritanceCycle(n) => "the ancestor chain of class "@ + n@ + " runs in a cycle"@,
                DocError::MissingStruct(n) => "expected to get a top-level struct element "@ + n@ + " for a builtin"@,
            },
    {
        match self {
            DocError::InheritanceCycle(n) => {
                let mut r = "the ancestor chain of class ".to_string();
                r.append(n.as_str());
                r.append(" runs in a cycle");
                r
            },
            DocError::MissingStruct(n) => {
                let mut r = "expected to get a top-level struct element ".to_string();
                r.append(n.as_str());
                r.append(" for a builtin");
                r
            },
        }
    }
}

/// Deprecation as documented: the version as `major.minor.revision` and the
/// message, or an empty message.
pub open spec fn deprecation_text(d: DeprecationInfo) -> (Seq<char>, Seq<char>) {
    (
        decimal_text(d.major as nat) + "."@ + decimal_text(d.minor as nat) + "."@ + decimal_text(d.revision as nat),
        doc_text(d.message),
    )
}

pub open spec fn deprecation_view(d: Option<DeprecationInfo>) -> Option<(Seq<char>, Seq<char>)> {
    match d {
        Some(x) => Some(deprecation_text(x)),
        None => None,
    }
}

pub open spec fn deprecated_view(d: Option<Deprecated>) -> Option<(Seq<char>, Seq<char>)> {
    match d {
        Some(x) => Some((x.version@, x.reason@)),
        None => None,
    }
}

pub fn transform_deprecated(d: &DeprecationInfo) -> (r: Deprecated)
    ensures
        (r.version@, r.reason@) == deprecation_text(*d),
{
    let mut version = decimal(d.major);
    version.append(".");
    let minor = decimal(d.minor);
    version.append(minor.as_str());
    version.append(".");
    let revision = decimal(d.revision);
    version.append(revision.as_str());
    let reason = match &d.message {
        Some(m) => m.clone(),
        None => String::new(),
    };
    Deprecated { version, reason }
}

pub fn transform_deprecated_opt(d: &Option<DeprecationInfo>) -> (r: Option<Deprecated>)
    ensures
        deprecated_view(r) == deprecation_view(*d),
{
    match d {
        Some(x) => Some(transform_deprecated(x)),
        None => None,
    }
}

/// The first class of the semantic tree declared under `sym`.
pub open spec fn find_class(defs: Seq<TopLevelDef>, sym: u64) -> Option<ClassDecl>
    decreases defs.len(),
{
    if defs.len() == 0 {
        None
    } else {
        match defs[0].kind {
            TopLevelKind::Class(c) => if c.name.sym == sym {
                Some(c)
            } else {
                find_class(defs.drop_first(), sym)
            },
            _ => find_class(defs.drop_first(), sym),
        }
    }
}

/// The first function among `inners` declared under `sym`.
pub open spec fn find_function(inners: Seq<ClassInner>, sym: u64) -> Option<FunctionDecl>
    decreases inners.len(),
{
    if inners.len() == 0 {
        None
    } else {
        match inners[0] {
            ClassInner::Function(f) => if f.name.sym == sym {
                Some(f)
            } else {
                find_function(inners.drop_first(), sym)
            },
            _ => find_function(inners.drop_first(), sym),
        }
    }
}

fn find_class_exec<'a>(defs: &'a Vec<TopLevelDef>, sym: u64) -> (r: Option<&'a ClassDecl>)
    ensures
        match r {
            Some(c) => find_class(defs@, sym) == Some(*c),
            None => find_class(defs@, sym) is None,
        },
{
    let mut i: usize = 0;
    assert(defs@.skip(0) =~= defs@);
    while i < defs.len()
        invariant
            i <= defs@.len(),
            find_class(defs@, sym) == find_class(defs@.skip(i as int), sym),
        decreases defs.len() - i,
    {
        assert(defs@.skip(i as int).drop_first() =~= defs@.skip(i + 1));
        assert(defs@.skip(i as int)[0] == defs@[i as int]);
        match &defs[i].kind {
            TopLevelKind::Class(c) => {
                if c.name.sym == sym {
                    return Some(c);
                }
            },
            _ => {},
        }
        i += 1;
    }
    None
}

fn find_function_exec<'a>(inners: &'a Vec<ClassInner>, sym: u64) -> (r: Option<&'a FunctionDecl>)
    ensures
        match r {
            Some(f) => find_function(inners@, sym) == Some(*f),
            None => find_function(inners@, sym) is None,
        },
{
    let mut i: usize = 0;
    assert(inners@.skip(0) =~= inners@);
    while i < inners.len()
        invariant
            i <= inners@.len(),
            find_function(inners@, sym) == find_function(inners@.skip(i as int), sym),
        decreases inners.len() - i,
    {
        assert(inners@.skip(i as int).drop_first() =~= inners@.skip(i + 1));
        assert(inners@.skip(i as int)[0] == inners@[i as int]);
        match &inners[i] {
            ClassInner::Function(f) => {
                if f.name.sym == sym {
                    return Some(f);
                }
            },
            _ => {},
        }
        i += 1;
    }
    None
}

/// The link to `g`, declared in the class `anc`.
pub open spec fn override_link(anc: ClassDecl, g: FunctionDecl) -> LinkV {
    LinkV {
        prefix: None,
        text: anc.name.text@ + "."@ + g.name.text@,
        kind: KindV::Function(OwnerV::Class(seq![anc.name.text@]), g.name.text@),
    }
}

/// Walks the ancestors of `cur` (looked up by name in the semantic tree) for
/// the first one that declares a virtual function under `fsym`. `Some(None)`
/// when the chain ends without one; `None` when it takes more than `fuel`
/// steps, which can only happen on a cycle when `fuel` is at least the
/// number of declarations.
pub open spec fn override_walk(defs: Seq<TopLevelDef>, cur: ClassDecl, fsym: u64, fuel: nat) -> Option<Option<LinkV>>
    decreases fuel,
{
    match cur.ancestor {
        None => Some(None),
        Some(a) => match find_class(defs, a.sym) {
            None => Some(None),
            Some(anc) => if fuel == 0 {
                None
            } else {
                match find_function(anc.inners@, fsym) {
                    Some(g) => if has_flag(g.flags, FN_VIRTUAL) {
                        Some(Some(override_link(anc, g)))
                    } else {
                        override_walk(defs, anc, fsym, (fuel - 1) as nat)
                    },
                    None => override_walk(defs, anc, fsym, (fuel - 1) as nat),
                }
            },
        },
    }
}

/// The override target of function `f` declared in class `c`: `Some(None)`
/// when no ancestor declares it virtual, `None` when the ancestor chain is
/// cyclic.
pub open spec fn override_target(defs: Seq<TopLevelDef>, c: ClassDecl, f: FunctionDecl) -> Option<Option<LinkV>> {
    override_walk(defs, c, f.name.sym, (defs.len() + 1) as nat)
}

/// Finds the function that `f`, declared in `c`, overrides.
pub fn find_override(defs: &Vec<TopLevelDef>, c: &ClassDecl, f: &FunctionDecl) -> (r: Option<Option<LinkedSection>>)
    requires
        defs@.len() < usize::MAX,
    ensures
        match r {
            Some(Some(l)) => override_target(defs@, *c, *f) == Some(Some(l@)),
            Some(None) => override_target(defs@, *c, *f) == Some(None::<LinkV>),
            None => override_target(defs@, *c, *f) is None,
        },
{
    let mut cur = c;
    let mut fuel: usize = defs.len() + 1;
    loop
        invariant
            override_target(defs@, *c, *f) == override_walk(defs@, *cur, f.name.sym, fuel as nat),
        decreases fuel,
    {
        let a = match &cur.ancestor {
            Some(a) => a,
            None => return Some(None),
        };
        let anc = match find_class_exec(defs, a.sym) {
            Some(anc) => anc,
            None => return Some(None),
        };
        if fuel == 0 {
            return None;
        }
        match find_function_exec(&anc.inners, f.name.sym) {
            Some(g) => {
                if g.flags & FN_VIRTUAL != 0 {
                    let mut text = anc.name.text.clone();
                    text.append(".");
                    text.append(g.name.text.as_str());
                    let mut path: Vec<String> = Vec::new();
                    path.push(anc.name.text.clone());
                    let l = LinkedSection {
                        link_prefix: None,
                        text,
                        kind: LinkedSectionKind::Function {
                            owner: crate::structures::Owner::Class(path),
                            link: g.name.text.clone(),
                        },
                    };
                    proof {
                        assert(crate::structures::strs_view(path) =~= seq![anc.name.text@]);
                    }
                    return Some(Some(l));
                }
            },
            None => {},
        }
        cur = anc;
        fuel -= 1;
    }
}

/// Positions into a list paired with the source span found there, for
/// sorting positions by span.
pub struct SpanIndex {
    pub span: SourceSpan,
    pub index: usize,
}

impl SortKey for SpanIndex {
    open spec fn key_le(&self, other: &Self) -> bool {
        span_le(self.span, other.span)
    }

    proof fn lemma_key_total(a: &Self, b: &Self) {
    }

    proof fn lemma_key_trans(a: &Self, b: &Self, c: &Self) {
    }

    fn le(&self, other: &Self) -> (r: bool) {
        span_le_exec(self.span, other.span)
    }
}

/// `order` lists each position below `n` exactly once.
pub open spec fn index_permutation(order: Seq<usize>, n: nat) -> bool {
    &&& order.len() == n
    &&& forall|i: int| 0 <= i < order.len() ==> #[trigger] order[i] < n
    &&& forall|i: int, j: int| 0 <= i < j < order.len() ==> #[trigger] order[i] != #[trigger] order[j]
}

/// The positions of `spans` ordered by span.
pub fn span_order(spans: &Vec<SourceSpan>) -> (r: Vec<usize>)
    ensures
        index_permutation(r@, spans@.len()),
        forall|i: int, j: int| 0 <= i < j < r@.len() ==> span_le(#[trigger] spans@[r@[i] as int], #[trigger] spans@[r@[j] as int]),
{
    broadcast use vstd::seq_lib::group_to_multiset_ensures;

    let mut items: Vec<SpanIndex> = Vec::new();
    let mut i: usize = 0;
    while i < spans.len()
        invariant
            i <= spans@.len(),
            items@.len() == i,
            forall|k: int| 0 <= k < i ==> #[trigger] items@[k] == (SpanIndex { span: spans@[k], index: k as usize }),
        decreases spans.len() - i,
    {
        items.push(SpanIndex { span: spans[i], index: i });
        i += 1;
    }
    let ghost init = items@;
    let sorted_items = sort_items(items);
    let ghost s = sorted_items@;
    proof {
        assert(init.no_duplicates()) by {
            assert forall|a: int, b: int| 0 <= a < init.len() && 0 <= b < init.len() && a != b implies init[a] != init[b] by {
                assert(init[a].index != init[b].index);
            }
        }
        init.lemma_multiset_has_no_duplicates();
        assert forall|x: SpanIndex| s.to_multiset().count(x) <= 1 by {
            assert(s.to_multiset().count(x) == init.to_multiset().count(x));
            if init.to_multiset().count(x) > 0 {
                assert(init.contains(x));
            }
        }
        s.lemma_multiset_has_no_duplicates_conv();
        assert forall|k: int| 0 <= k < s.len() implies init.contains(#[trigger] s[k]) by {
            assert(s.contains(s[k]));
            assert(s.to_multiset().count(s[k]) > 0);
        }
    }
    let mut r: Vec<usize> = Vec::new();
    let mut k: usize = 0;
    while k < sorted_items.len()
        invariant
            s == sorted_items@,
            k <= s.len(),
            r@.len() == k,
            forall|j: int| 0 <= j < k ==> #[trigger] r@[j] == s[j].index,
        decreases sorted_items.len() - k,
    {
        r.push(sorted_items[k].index);
        k += 1;
    }
    proof {
        assert(s.len() == init.len()) by {
            assert(s.to_multiset().len() == init.to_multiset().len());
        }
        assert forall|a: int| 0 <= a < r@.len() implies #[trigger] r@[a] < spans@.len() && s[a].span == spans@[r@[a] as int] by {
            assert(init.contains(s[a]));
            let w = choose|w: int| 0 <= w < init.len() && init[w] == s[a];
            assert(init[w].index == w);
        }
        assert forall|a: int, b: int| 0 <= a < b < r@.len() implies #[trigger] r@[a] != #[trigger] r@[b] by {
            assert(s[a] != s[b]);
            assert(s[a].span == spans@[r@[a] as int]);
            assert(s[b].span == spans@[r@[b] as int]);
        }
        assert forall|a: int, b: int| 0 <= a < b < r@.len() implies span_le(#[trigger] spans@[r@[a] as int], #[trigger] spans@[r@[b] as int]) by {
            assert(s[a].key_le(&s[b]));
            assert(s[a].span == spans@[r@[a] as int]);
            assert(s[b].span == spans@[r@[b] as int]);
        }
    }
    r
}

} // verus!

verus! {

/// What the assembly of one container's members reads: the symbol table,
/// the semantic tree, the universal base class, the container's scope path,
/// its page and its qualified name.
pub struct Env {
    pub t: Map<Seq<u64>, LinkV>,
    pub defs: Seq<TopLevelDef>,
    pub base: Ident,
    pub ctx: Seq<u64>,
    pub owner: OwnerV,
    pub qname: Seq<char>,
}

/// Where a declaration inside a class or struct goes in its documentation.
pub enum Slot {
    Overrides,
    PublicFn,
    ProtectedFn,
    PrivateFn,
    PublicVar,
    ProtectedVar,
    PrivateVar,
    InnerStruct,
    InnerEnum,
    Constant,
    Property,
    Flag,
    Hidden,
}

/// A struct's declaration seen as the class declaration of the same kind.
pub open spec fn as_class_inner(i: StructInner) -> ClassInner {
    match i {
        StructInner::Function(f) => ClassInner::Function(f),
        StructInner::Member(m) => ClassInner::Member(m),
        StructInner::Enum(e) => ClassInner::Enum(e),
        StructInner::Const(c) => ClassInner::Const(c),
        StructInner::StaticConstArray(a) => ClassInner::StaticConstArray(a),
    }
}

/// Hidden declarations go nowhere; override functions (in classes only) go
/// to the overrides; other functions and members go to the bucket of their
/// visibility, public by default.
pub open spec fn slot_of(i: ClassInner, in_class: bool) -> Slot {
    if is_hidden(i.doc()) {
        Slot::Hidden
    } else {
        match i {
            ClassInner::Function(f) => if in_class && has_flag(f.flags, FN_OVERRIDE) {
                Slot::Overrides
            } else if has_flag(f.flags, FN_PRIVATE) {
                Slot::PrivateFn
            } else if has_flag(f.flags, FN_PROTECTED) {
                Slot::ProtectedFn
            } else {
                Slot::PublicFn
            },
            ClassInner::Member(m) => if has_flag(m.flags, MEMBER_PRIVATE) {
                Slot::PrivateVar
            } else if has_flag(m.flags, MEMBER_PROTECTED) {
                Slot::ProtectedVar
            } else {
                Slot::PublicVar
            },
            ClassInner::Struct(_) => Slot::InnerStruct,
            ClassInner::Enum(_) => Slot::InnerEnum,
            ClassInner::Const(_) => Slot::Constant,
            ClassInner::StaticConstArray(_) => Slot::Constant,
            ClassInner::Property(_) => Slot::Property,
            ClassInner::Flag(_) => Slot::Flag,
        }
    }
}

/// The declarations of `s` that go to slot `k`, in order.
pub open spec fn in_slot(s: Seq<ClassInner>, k: Slot, in_class: bool) -> Seq<ClassInner>
    decreases s.len(),
{
    if s.len() == 0 {
        Seq::empty()
    } else {
        in_slot(s.drop_last(), k, in_class) + if slot_of(s.last(), in_class) == k {
            seq![s.last()]
        } else {
            Seq::empty()
        }
    }
}

pub open spec fn link_opt(o: Option<LinkedSection>) -> Option<LinkV> {
    match o {
        Some(l) => Some(l@),
        None => None,
    }
}

pub open spec fn function_ok(it: Function, f: FunctionDecl, env: Env) -> bool {
    &&& it.context@ == env.ctx
    &&& it.name@ == f.name.text@
    &&& it.span == f.span
    &&& it.doc_comment@ == doc_text(f.doc)
    &&& it.signature@ == emit_all(Seq::empty(), function_sig_tokens(env.t, env.ctx, env.owner, f, env.base))
    &&& deprecated_view(it.deprecated) == deprecation_view(f.deprecated)
}

pub open spec fn member_ok(it: MemberVariable, m: MemberDecl, env: Env) -> bool {
    &&& it.context@ == env.ctx
    &&& it.name@ == m.name.text@
    &&& it.span == m.span
    &&& it.doc_comment@ == doc_text(m.doc)
    &&& it.def@ == emit_all(Seq::empty(), crate::signature::member_tokens(env.t, env.ctx, env.owner, m, env.base))
    &&& deprecated_view(it.deprecated) == deprecation_view(m.deprecated)
}

pub open spec fn constant_ok(it: Constant, i: ClassInner, env: Env) -> bool {
    &&& it.context@ == env.ctx
    &&& match i {
        ClassInner::Const(c) => {
            &&& it.name@ == c.name.text@
            &&& it.span == c.span
            &&& it.doc_comment@ == doc_text(c.doc)
            &&& it.def@ == emit_all(Seq::empty(), constant_tokens(env.owner, c))
        },
        ClassInner::StaticConstArray(a) => {
            &&& it.name@ == a.name.text@
            &&& it.span == a.span
            &&& it.doc_comment@ == doc_text(a.doc)
            &&& it.def@ == emit_all(Seq::empty(), static_array_tokens(env.t, env.ctx, env.owner, a, env.base))
        },
        _ => false,
    }
}

pub open spec fn property_ok(it: Property, p: PropertyDecl, env: Env) -> bool {
    &&& it.context@ == env.ctx
    &&& it.name@ == p.name.text@
    &&& it.span == p.span
    &&& it.doc_comment@ == doc_text(p.doc)
    &&& it.def@ == emit_all(Seq::empty(), property_tokens(env.owner, p))
}

pub open spec fn flag_ok(it: Flag, f: FlagDecl, env: Env) -> bool {
    &&& it.context@ == env.ctx
    &&& it.name@ == f.name.text@
    &&& it.span == f.span
    &&& it.doc_comment@ == doc_text(f.doc)
    &&& it.def@ == emit_all(Seq::empty(), flagdef_tokens(env.owner, f))
}

/// The enumerators of `vs` that are not hidden, in declaration order.
pub open spec fn visible_variants(vs: Seq<EnumVariantDecl>) -> Seq<EnumVariantDecl>
    decreases vs.len(),
{
    if vs.len() == 0 {
        Seq::empty()
    } else {
        visible_variants(vs.drop_last()) + if is_hidden(vs.last().doc) {
            Seq::<EnumVariantDecl>::empty()
        } else {
            seq![vs.last()]
        }
    }
}

pub open spec fn enumerator_ok(it: Enumerator, v: EnumVariantDecl, ctx: Seq<u64>, owner: OwnerV) -> bool {
    &&& it.context@ == ctx
    &&& it.name@ == v.name.text@
    &&& it.span == v.span
    &&& it.doc_comment@ == doc_text(v.doc)
    &&& it.decl@ == emit_all(Seq::empty(), enumerator_tokens(owner, v))
}

/// The page of enum `e`, named `name` (`no_ctx` without its enclosing
/// names), declared in the scope `ctx`.
pub open spec fn enum_ok(it: Enum, e: EnumDecl, name: Seq<char>, no_ctx: Seq<char>, ctx: Seq<u64>) -> bool {
    let vs = visible_variants(e.variants@);
    &&& it.context@ == ctx
    &&& it.name@ == name
    &&& it.no_context_name@ == no_ctx
    &&& it.span == e.span
    &&& it.doc_comment@ == doc_text(e.doc)
    &&& it.enumerators@.len() == vs.len()
    &&& forall|j: int| 0 <= j < vs.len() ==> #[trigger] enumerator_ok(it.enumerators@[j], vs[j], ctx, OwnerV::Enum(seq![name]))
}

/// Assembles the page of an enum; hidden enumerators are left out.
pub fn enum_doc(name: &String, no_context_name: &String, parent_context: &Vec<u64>, e: &EnumDecl) -> (r: Enum)
    ensures
        enum_ok(r, *e, name@, no_context_name@, parent_context@),
{
    let ghost vs_all = e.variants@;
    let mut enumerators: Vec<Enumerator> = Vec::new();
    let mut owner_path: Vec<String> = Vec::new();
    owner_path.push(name.clone());
    let owner = Owner::Enum(owner_path);
    assert(owner@ == OwnerV::Enum(seq![name@])) by {
        assert(crate::structures::strs_view(owner_path) =~= seq![name@]);
    }
    let mut i: usize = 0;
    assert(vs_all.take(0) =~= Seq::<EnumVariantDecl>::empty());
    while i < e.variants.len()
        invariant
            i <= vs_all.len(),
            vs_all == e.variants@,
            owner@ == OwnerV::Enum(seq![name@]),
            enumerators@.len() == visible_variants(vs_all.take(i as int)).len(),
            forall|j: int| 0 <= j < enumerators@.len() ==> #[trigger] enumerator_ok(
                enumerators@[j],
                visible_variants(vs_all.take(i as int))[j],
                parent_context@,
                OwnerV::Enum(seq![name@]),
            ),
        decreases e.variants.len() - i,
    {
        let v = &e.variants[i];
        assert(vs_all.take(i + 1).drop_last() =~= vs_all.take(i as int));
        if !should_skip(&v.doc) {
            let item = Enumerator {
                context: crate::item::path_prefix(parent_context.as_slice(), parent_context.len()),
                name: v.name.text.clone(),
                span: v.span,
                doc_comment: doc_string(&v.doc),
                decl: reconstruct_enumerator_declaration(owner.duplicate(), v),
            };
            assert(parent_context@.take(parent_context@.len() as int) =~= parent_context@);
            enumerators.push(item);
        }
        i += 1;
    }
    assert(vs_all.take(vs_all.len() as int) =~= vs_all);
    let context = crate::item::path_prefix(parent_context.as_slice(), parent_context.len());
    assert(parent_context@.take(parent_context@.len() as int) =~= parent_context@);
    Enum {
        context,
        name: name.clone(),
        no_context_name: no_context_name.clone(),
        span: e.span,
        doc_comment: doc_string(&e.doc),
        enumerators,
    }
}

} // verus!

verus! {

impl SortKey for Struct {
    open spec fn key_le(&self, other: &Self) -> bool {
        lex_le(self.name@, other.name@)
    }

    proof fn lemma_key_total(a: &Self, b: &Self) {
        lemma_lex_total(a.name@, b.name@);
    }

    proof fn lemma_key_trans(a: &Self, b: &Self, c: &Self) {
        lemma_lex_trans(a.name@, b.name@, c.name@);
    }

    fn le(&self, other: &Self) -> (r: bool) {
        name_le(&self.name, &other.name)
    }
}

impl SortKey for Enum {
    open spec fn key_le(&self, other: &Self) -> bool {
        lex_le(self.name@, other.name@)
    }

    proof fn lemma_key_total(a: &Self, b: &Self) {
        lemma_lex_total(a.name@, b.name@);
    }

    proof fn lemma_key_trans(a: &Self, b: &Self, c: &Self) {
        lemma_lex_trans(a.name@, b.name@, c.name@);
    }

    fn le(&self, other: &Self) -> (r: bool) {
        name_le(&self.name, &other.name)
    }
}

impl SortKey for Class {
    open spec fn key_le(&self, other: &Self) -> bool {
        lex_le(self.name@, other.name@)
    }

    proof fn lemma_key_total(a: &Self, b: &Self) {
        lemma_lex_total(a.name@, b.name@);
    }

    proof fn lemma_key_trans(a: &Self, b: &Self, c: &Self) {
        lemma_lex_trans(a.name@, b.name@, c.name@);
    }

    fn le(&self, other: &Self) -> (r: bool) {
        name_le(&self.name, &other.name)
    }
}

impl SortKey for Constant {
    open spec fn key_le(&self, other: &Self) -> bool {
        span_le(self.span, other.span)
    }

    proof fn lemma_key_total(a: &Self, b: &Self) {
    }

    proof fn lemma_key_trans(a: &Self, b: &Self, c: &Self) {
    }

    fn le(&self, other: &Self) -> (r: bool) {
        span_le_exec(self.span, other.span)
    }
}

/// The members of a class or struct sorted into their buckets.
pub struct Buckets {
    pub overrides: Vec<Function>,
    pub public: VariablesAndFunctions,
    pub protected: VariablesAndFunctions,
    pub private: VariablesAndFunctions,
    pub inner_structs: Vec<Struct>,
    pub inner_enums: Vec<Enum>,
    pub constants: Vec<Constant>,
    pub properties: Vec<Property>,
    pub flags: Vec<Flag>,
}

pub open spec fn fns_ok(items: Seq<Function>, decls: Seq<ClassInner>, env: Env) -> bool {
    &&& items.len() == decls.len()
    &&& forall|j: int| 0 <= j < items.len() ==> match #[trigger] decls[j] {
        ClassInner::Function(f) => function_ok(items[j], f, env) && items[j].overrides is None,
        _ => false,
    }
}

pub open spec fn overrides_ok(items: Seq<Function>, decls: Seq<ClassInner>, env: Env, c: ClassDecl) -> bool {
    &&& items.len() == decls.len()
    &&& forall|j: int| 0 <= j < items.len() ==> match #[trigger] decls[j] {
        ClassInner::Function(f) => function_ok(items[j], f, env) && override_target(env.defs, c, f) == Some(link_opt(items[j].overrides)),
        _ => false,
    }
}

pub open spec fn vars_ok(items: Seq<MemberVariable>, decls: Seq<ClassInner>, env: Env) -> bool {
    &&& items.len() == decls.len()
    &&& forall|j: int| 0 <= j < items.len() ==> match #[trigger] decls[j] {
        ClassInner::Member(m) => member_ok(items[j], m, env),
        _ => false,
    }
}

pub open spec fn consts_ok(items: Seq<Constant>, decls: Seq<ClassInner>, env: Env) -> bool {
    &&& items.len() == decls.len()
    &&& forall|j: int| 0 <= j < items.len() ==> #[trigger] constant_ok(items[j], decls[j], env)
}

pub open spec fn props_ok(items: Seq<Property>, decls: Seq<ClassInner>, env: Env) -> bool {
    &&& items.len() == decls.len()
    &&& forall|j: int| 0 <= j < items.len() ==> match #[trigger] decls[j] {
        ClassInner::Property(p) => property_ok(items[j], p, env),
        _ => false,
    }
}

pub open spec fn flags_ok(items: Seq<Flag>, decls: Seq<ClassInner>, env: Env) -> bool {
    &&& items.len() == decls.len()
    &&& forall|j: int| 0 <= j < items.len() ==> match #[trigger] decls[j] {
        ClassInner::Flag(f) => flag_ok(items[j], f, env),
        _ => false,
    }
}

/// `name` as a member of the container with qualified name `qname`.
pub open spec fn qualified(qname: Seq<char>, name: Seq<char>) -> Seq<char> {
    qname + "."@ + name
}

pub open spec fn enum_in_ok(it: Enum, d: ClassInner, env: Env) -> bool {
    match d {
        ClassInner::Enum(e) => enum_ok(it, e, qualified(env.qname, e.name.text@), e.name.text@, env.ctx),
        _ => false,
    }
}

pub open spec fn struct_in_ok(it: Struct, d: ClassInner, env: Env) -> bool {
    match d {
        ClassInner::Struct(s) => struct_ok(it, s, qualified(env.qname, s.name.text@), s.name.text@, env.ctx, env.t, env.base),
        _ => false,
    }
}

/// Each item corresponds to the declaration at its own position.
pub open spec fn enums_pointwise(items: Seq<Enum>, decls: Seq<ClassInner>, env: Env) -> bool {
    &&& items.len() == decls.len()
    &&& forall|j: int| 0 <= j < items.len() ==> #[trigger] enum_in_ok(items[j], decls[j], env)
}

pub open spec fn structs_pointwise(items: Seq<Struct>, decls: Seq<ClassInner>, env: Env) -> bool {
    &&& items.len() == decls.len()
    &&& forall|j: int| 0 <= j < items.len() ==> #[trigger] struct_in_ok(items[j], decls[j], env)
}

/// `it` is the page of one of the declarations.
pub open spec fn enum_has_decl(it: Enum, decls: Seq<ClassInner>, env: Env) -> bool {
    exists|j: int| 0 <= j < decls.len() && #[trigger] enum_in_ok(it, decls[j], env)
}

pub open spec fn struct_has_decl(it: Struct, decls: Seq<ClassInner>, env: Env) -> bool {
    exists|j: int| 0 <= j < decls.len() && #[trigger] struct_in_ok(it, decls[j], env)
}

/// The pages of the declarations, one each, in name order: a reordering of
/// a list that holds at each position the page of the declaration there.
pub open spec fn enums_by_name(items: Seq<Enum>, decls: Seq<ClassInner>, env: Env) -> bool {
    &&& items.len() == decls.len()
    &&& sorted(items)
    &&& exists|pre: Seq<Enum>| #[trigger] pre.to_multiset() == items.to_multiset() && enums_pointwise(pre, decls, env)
    &&& forall|k: int| 0 <= k < items.len() ==> #[trigger] enum_has_decl(items[k], decls, env)
}

pub open spec fn structs_by_name(items: Seq<Struct>, decls: Seq<ClassInner>, env: Env) -> bool {
    &&& items.len() == decls.len()
    &&& sorted(items)
    &&& exists|pre: Seq<Struct>| #[trigger] pre.to_multiset() == items.to_multiset() && structs_pointwise(pre, decls, env)
    &&& forall|k: int| 0 <= k < items.len() ==> #[trigger] struct_has_decl(items[k], decls, env)
}

/// Every bucket holds, in order, the items of the declarations of `d` that go there.
pub open spec fn buckets_ok(b: Buckets, d: Seq<ClassInner>, env: Env, in_class: bool, c: ClassDecl) -> bool {
    &&& overrides_ok(b.overrides@, in_slot(d, Slot::Overrides, in_class), env, c)
    &&& fns_ok(b.public.functions@, in_slot(d, Slot::PublicFn, in_class), env)
    &&& fns_ok(b.protected.functions@, in_slot(d, Slot::ProtectedFn, in_class), env)
    &&& fns_ok(b.private.functions@, in_slot(d, Slot::PrivateFn, in_class), env)
    &&& vars_ok(b.public.variables@, in_slot(d, Slot::PublicVar, in_class), env)
    &&& vars_ok(b.protected.variables@, in_slot(d, Slot::ProtectedVar, in_class), env)
    &&& vars_ok(b.private.variables@, in_slot(d, Slot::PrivateVar, in_class), env)
    &&& structs_pointwise(b.inner_structs@, in_slot(d, Slot::InnerStruct, in_class), env)
    &&& enums_pointwise(b.inner_enums@, in_slot(d, Slot::InnerEnum, in_class), env)
    &&& consts_ok(b.constants@, in_slot(d, Slot::Constant, in_class), env)
    &&& props_ok(b.properties@, in_slot(d, Slot::Property, in_class), env)
    &&& flags_ok(b.flags@, in_slot(d, Slot::Flag, in_class), env)
}

/// `order` lists the positions of `s` by source span.
pub open spec fn span_sorted_order(s: Seq<ClassInner>, order: Seq<usize>) -> bool {
    &&& index_permutation(order, s.len())
    &&& forall|i: int, j: int| 0 <= i < j < order.len() ==> span_le(#[trigger] s[order[i] as int].span(), #[trigger] s[order[j] as int].span())
}

pub open spec fn reorder(s: Seq<ClassInner>, order: Seq<usize>) -> Seq<ClassInner> {
    order.map_values(|k: usize| s[k as int])
}

/// The page of struct `s`, named `name` (`no_ctx` without its enclosing
/// names), declared in the scope `parent_ctx`: its members in buckets, each
/// in source order, its enums in name order.
pub open spec fn struct_ok(
    it: Struct,
    s: StructDecl,
    name: Seq<char>,
    no_ctx: Seq<char>,
    parent_ctx: Seq<u64>,
    t: Map<Seq<u64>, LinkV>,
    base: Ident,
) -> bool {
    let env = Env {
        t,
        defs: Seq::empty(),
        base,
        ctx: parent_ctx.push(s.name.sym),
        owner: OwnerV::Struct(seq![name]),
        qname: name,
    };
    let inners = s.inners@.map_values(|i: StructInner| as_class_inner(i));
    &&& it.context@ == env.ctx
    &&& it.name@ == name
    &&& it.no_context_name@ == no_ctx
    &&& it.span == s.span
    &&& it.doc_comment@ == doc_text(s.doc)
    &&& exists|order: Seq<usize>| {
        &&& #[trigger] span_sorted_order(inners, order)
        &&& fns_ok(it.public.functions@, in_slot(reorder(inners, order), Slot::PublicFn, false), env)
        &&& fns_ok(it.protected.functions@, in_slot(reorder(inners, order), Slot::ProtectedFn, false), env)
        &&& fns_ok(it.private.functions@, in_slot(reorder(inners, order), Slot::PrivateFn, false), env)
        &&& vars_ok(it.public.variables@, in_slot(reorder(inners, order), Slot::PublicVar, false), env)
        &&& vars_ok(it.protected.variables@, in_slot(reorder(inners, order), Slot::ProtectedVar, false), env)
        &&& vars_ok(it.private.variables@, in_slot(reorder(inners, order), Slot::PrivateVar, false), env)
        &&& enums_by_name(it.inner_enums@, in_slot(reorder(inners, order), Slot::InnerEnum, false), env)
        &&& consts_ok(it.constants@, in_slot(reorder(inners, order), Slot::Constant, false), env)
    }
}

pub proof fn lemma_in_slot_push(d: Seq<ClassInner>, x: ClassInner, k: Slot, in_class: bool)
    ensures
        in_slot(d.push(x), k, in_class) == in_slot(d, k, in_class) + if slot_of(x, in_class) == k {
            seq![x]
        } else {
            Seq::<ClassInner>::empty()
        },
{
    assert(d.push(x).drop_last() =~= d);
}

} // verus!

verus! {

pub proof fn lemma_in_slot_push_all(d: Seq<ClassInner>, x: ClassInner, in_class: bool)
    ensures
        forall|k: Slot| #[trigger] in_slot(d.push(x), k, in_class) == in_slot(d, k, in_class) + if slot_of(x, in_class) == k {
            seq![x]
        } else {
            Seq::<ClassInner>::empty()
        },
{
    assert forall|k: Slot| #[trigger] in_slot(d.push(x), k, in_class) == in_slot(d, k, in_class) + if slot_of(x, in_class) == k {
        seq![x]
    } else {
        Seq::<ClassInner>::empty()
    } by {
        lemma_in_slot_push(d, x, k, in_class);
    }
}

/// A copy of a scope path.
pub fn copy_path(v: &Vec<u64>) -> (r: Vec<u64>)
    ensures
        r@ == v@,
{
    let r = crate::item::path_prefix(v.as_slice(), v.len());
    assert(v@.take(v@.len() as int) =~= v@);
    r
}

/// The environment of the exec parameters.
pub open spec fn env_matches(env: Env, tbl: &ItemProvider, ctx: &Vec<u64>, owner: &Owner, base: &Ident, defs: &Vec<TopLevelDef>, qname: &String) -> bool {
    &&& tbl.wf()
    &&& defs@.len() < usize::MAX
    &&& env.t == tbl@
    &&& env.ctx == ctx@
    &&& env.owner == owner@
    &&& env.base == *base
    &&& env.defs == defs@
    &&& env.qname == qname@
}

pub open spec fn class_matches(cls: Option<&ClassDecl>, c: ClassDecl, in_class: bool) -> bool {
    &&& in_class == cls.is_some()
    &&& match cls {
        Some(x) => *x == c,
        None => true,
    }
}

fn place_function(
    b: &mut Buckets,
    f: &FunctionDecl,
    cls: Option<&ClassDecl>,
    tbl: &ItemProvider,
    ctx: &Vec<u64>,
    owner: &Owner,
    base: &Ident,
    defs: &Vec<TopLevelDef>,
    qname: &String,
    Ghost(d): Ghost<Seq<ClassInner>>,
    Ghost(env): Ghost<Env>,
    Ghost(c): Ghost<ClassDecl>,
    Ghost(in_class): Ghost<bool>,
) -> (r: Result<(), DocError>)
    requires
        env_matches(env, tbl, ctx, owner, base, defs, qname),
        class_matches(cls, c, in_class),
        buckets_ok(*old(b), d, env, in_class, c),
        !is_hidden(f.doc),
    ensures
        r is Ok ==> buckets_ok(*final(b), d.push(ClassInner::Function(*f)), env, in_class, c),
        r is Err ==> in_class && has_flag(f.flags, FN_OVERRIDE) && override_target(env.defs, c, *f) is None,
{
    let ghost x = ClassInner::Function(*f);
    proof {
        lemma_in_slot_push_all(d, x, in_class);
    }
    let mut item = Function {
        context: copy_path(ctx),
        name: f.name.text.clone(),
        span: f.span,
        doc_comment: doc_string(&f.doc),
        signature: reconstruct_function_signature(owner.duplicate(), f, tbl, ctx.as_slice(), base),
        overrides: None,
        deprecated: transform_deprecated_opt(&f.deprecated),
    };
    match cls {
        Some(cd) => {
            if f.flags & FN_OVERRIDE != 0 {
                match find_override(defs, cd, f) {
                    Some(o) => {
                        item.overrides = o;
                        b.overrides.push(item);
                        return Ok(());
                    },
                    None => {
                        return Err(DocError::InheritanceCycle(qname.clone()));
                    },
                }
            }
        },
        None => {},
    }
    if f.flags & FN_PRIVATE != 0 {
        b.private.functions.push(item);
    } else if f.flags & FN_PROTECTED != 0 {
        b.protected.functions.push(item);
    } else {
        b.public.functions.push(item);
    }
    Ok(())
}

fn place_member(
    b: &mut Buckets,
    m: &MemberDecl,
    tbl: &ItemProvider,
    ctx: &Vec<u64>,
    owner: &Owner,
    base: &Ident,
    defs: &Vec<TopLevelDef>,
    qname: &String,
    Ghost(d): Ghost<Seq<ClassInner>>,
    Ghost(env): Ghost<Env>,
    Ghost(c): Ghost<ClassDecl>,
    Ghost(in_class): Ghost<bool>,
)
    requires
        env_matches(env, tbl, ctx, owner, base, defs, qname),
        buckets_ok(*old(b), d, env, in_class, c),
        !is_hidden(m.doc),
    ensures
        buckets_ok(*final(b), d.push(ClassInner::Member(*m)), env, in_class, c),
{
    let ghost x = ClassInner::Member(*m);
    proof {
        lemma_in_slot_push_all(d, x, in_class);
    }
    let item = MemberVariable {
        context: copy_path(ctx),
        name: m.name.text.clone(),
        span: m.span,
        doc_comment: doc_string(&m.doc),
        def: reconstruct_member_declaration(owner.duplicate(), m, tbl, ctx.as_slice(), base),
        deprecated: transform_deprecated_opt(&m.deprecated),
    };
    if m.flags & MEMBER_PRIVATE != 0 {
        b.private.variables.push(item);
    } else if m.flags & MEMBER_PROTECTED != 0 {
        b.protected.variables.push(item);
    } else {
        b.public.variables.push(item);
    }
}

fn place_const(
    b: &mut Buckets,
    co: &ConstDecl,
    tbl: &ItemProvider,
    ctx: &Vec<u64>,
    owner: &Owner,
    base: &Ident,
    defs: &Vec<TopLevelDef>,
    qname: &String,
    Ghost(d): Ghost<Seq<ClassInner>>,
    Ghost(env): Ghost<Env>,
    Ghost(c): Ghost<ClassDecl>,
    Ghost(in_class): Ghost<bool>,
)
    requires
        env_matches(env, tbl, ctx, owner, base, defs, qname),
        buckets_ok(*old(b), d, env, in_class, c),
        !is_hidden(co.doc),
    ensures
        buckets_ok(*final(b), d.push(ClassInner::Const(*co)), env, in_class, c),
{
    let ghost x = ClassInner::Const(*co);
    proof {
        lemma_in_slot_push_all(d, x, in_class);
    }
    let item = Constant {
        context: copy_path(ctx),
        name: co.name.text.clone(),
        doc_comment: doc_string(&co.doc),
        span: co.span,
        def: reconstruct_constant_declaration(owner.duplicate(), co),
    };
    b.constants.push(item);
}

fn place_static(
    b: &mut Buckets,
    sca: &StaticConstArrayDecl,
    tbl: &ItemProvider,
    ctx: &Vec<u64>,
    owner: &Owner,
    base: &Ident,
    defs: &Vec<TopLevelDef>,
    qname: &String,
    Ghost(d): Ghost<Seq<ClassInner>>,
    Ghost(env): Ghost<Env>,
    Ghost(c): Ghost<ClassDecl>,
    Ghost(in_class): Ghost<bool>,
)
    requires
        env_matches(env, tbl, ctx, owner, base, defs, qname),
        buckets_ok(*old(b), d, env, in_class, c),
        !is_hidden(sca.doc),
    ensures
        buckets_ok(*final(b), d.push(ClassInner::StaticConstArray(*sca)), env, in_class, c),
{
    let ghost x = ClassInner::StaticConstArray(*sca);
    proof {
        lemma_in_slot_push_all(d, x, in_class);
    }
    let item = Constant {
        context: copy_path(ctx),
        name: sca.name.text.clone(),
        doc_comment: doc_string(&sca.doc),
        span: sca.span,
        def: reconstruct_static_const_array_declaration(owner.duplicate(), sca, tbl, ctx.as_slice(), base),
    };
    b.constants.push(item);
}

fn qualify(qname: &String, name: &String) -> (r: String)
    ensures
        r@ == qualified(qname@, name@),
{
    let mut r = qname.clone();
    r.append(".");
    r.append(name.as_str());
    r
}

fn place_enum(
    b: &mut Buckets,
    e: &EnumDecl,
    tbl: &ItemProvider,
    ctx: &Vec<u64>,
    owner: &Owner,
    base: &Ident,
    defs: &Vec<TopLevelDef>,
    qname: &String,
    Ghost(d): Ghost<Seq<ClassInner>>,
    Ghost(env): Ghost<Env>,
    Ghost(c): Ghost<ClassDecl>,
    Ghost(in_class): Ghost<bool>,
)
    requires
        env_matches(env, tbl, ctx, owner, base, defs, qname),
        buckets_ok(*old(b), d, env, in_class, c),
        !is_hidden(e.doc),
    ensures
        buckets_ok(*final(b), d.push(ClassInner::Enum(*e)), env, in_class, c),
{
    let ghost x = ClassInner::Enum(*e);
    proof {
        lemma_in_slot_push_all(d, x, in_class);
    }
    let item = enum_doc(&qualify(qname, &e.name.text), &e.name.text, ctx, e);
    b.inner_enums.push(item);
}

fn place_property(
    b: &mut Buckets,
    p: &PropertyDecl,
    tbl: &ItemProvider,
    ctx: &Vec<u64>,
    owner: &Owner,
    base: &Ident,
    defs: &Vec<TopLevelDef>,
    qname: &String,
    Ghost(d): Ghost<Seq<ClassInner>>,
    Ghost(env): Ghost<Env>,
    Ghost(c): Ghost<ClassDecl>,
    Ghost(in_class): Ghost<bool>,
)
    requires
        env_matches(env, tbl, ctx, owner, base, defs, qname),
        buckets_ok(*old(b), d, env, in_class, c),
        !is_hidden(p.doc),
    ensures
        buckets_ok(*final(b), d.push(ClassInner::Property(*p)), env, in_class, c),
{
    let ghost x = ClassInner::Property(*p);
    proof {
        lemma_in_slot_push_all(d, x, in_class);
    }
    let item = Property {
        context: copy_path(ctx),
        name: p.name.text.clone(),
        doc_comment: doc_string(&p.doc),
        span: p.span,
        def: reconstruct_property(owner.duplicate(), p),
    };
    b.properties.push(item);
}

fn place_flag(
    b: &mut Buckets,
    f: &FlagDecl,
    tbl: &ItemProvider,
    ctx: &Vec<u64>,
    owner: &Owner,
    base: &Ident,
    defs: &Vec<TopLevelDef>,
    qname: &String,
    Ghost(d): Ghost<Seq<ClassInner>>,
    Ghost(env): Ghost<Env>,
    Ghost(c): Ghost<ClassDecl>,
    Ghost(in_class): Ghost<bool>,
)
    requires
        env_matches(env, tbl, ctx, owner, base, defs, qname),
        buckets_ok(*old(b), d, env, in_class, c),
        !is_hidden(f.doc),
    ensures
        buckets_ok(*final(b), d.push(ClassInner::Flag(*f)), env, in_class, c),
{
    let ghost x = ClassInner::Flag(*f);
    proof {
        lemma_in_slot_push_all(d, x, in_class);
    }
    let item = Flag {
        context: copy_path(ctx),
        name: f.name.text.clone(),
        doc_comment: doc_string(&f.doc),
        span: f.span,
        def: reconstruct_flagdef(owner.duplicate(), f),
    };
    b.flags.push(item);
}

} // verus!

verus! {

pub proof fn lemma_hidden_push(d: Seq<ClassInner>, x: ClassInner, in_class: bool)
    requires
        slot_of(x, in_class) == Slot::Hidden,
    ensures
        forall|k: Slot| k != Slot::Hidden ==> #[trigger] in_slot(d.push(x), k, in_class) == in_slot(d, k, in_class),
{
    assert forall|k: Slot| k != Slot::Hidden implies #[trigger] in_slot(d.push(x), k, in_class) == in_slot(d, k, in_class) by {
        lemma_in_slot_push(d, x, k, in_class);
        assert(in_slot(d, k, in_class) + Seq::<ClassInner>::empty() =~= in_slot(d, k, in_class));
    }
}

pub proof fn lemma_enums_by_name(pre: Seq<Enum>, post: Seq<Enum>, decls: Seq<ClassInner>, env: Env)
    requires
        enums_pointwise(pre, decls, env),
        post.to_multiset() == pre.to_multiset(),
        sorted(post),
    ensures
        enums_by_name(post, decls, env),
{
    broadcast use vstd::seq_lib::group_to_multiset_ensures;

    assert(post.len() == pre.len()) by {
        vstd::seq_lib::to_multiset_len(post);
        vstd::seq_lib::to_multiset_len(pre);
    }
    assert forall|k: int| 0 <= k < post.len() implies #[trigger] enum_has_decl(post[k], decls, env) by {
        assert(post.contains(post[k]));
        assert(post.to_multiset().count(post[k]) > 0);
        assert(pre.contains(post[k]));
        let j = choose|j: int| 0 <= j < pre.len() && pre[j] == post[k];
        assert(enum_in_ok(pre[j], decls[j], env));
    }
}

pub proof fn lemma_structs_by_name(pre: Seq<Struct>, post: Seq<Struct>, decls: Seq<ClassInner>, env: Env)
    requires
        structs_pointwise(pre, decls, env),
        post.to_multiset() == pre.to_multiset(),
        sorted(post),
    ensures
        structs_by_name(post, decls, env),
{
    broadcast use vstd::seq_lib::group_to_multiset_ensures;

    assert(post.len() == pre.len()) by {
        vstd::seq_lib::to_multiset_len(post);
        vstd::seq_lib::to_multiset_len(pre);
    }
    assert forall|k: int| 0 <= k < post.len() implies #[trigger] struct_has_decl(post[k], decls, env) by {
        assert(post.contains(post[k]));
        assert(post.to_multiset().count(post[k]) > 0);
        assert(pre.contains(post[k]));
        let j = choose|j: int| 0 <= j < pre.len() && pre[j] == post[k];
        assert(struct_in_ok(pre[j], decls[j], env));
    }
}

fn empty_buckets() -> (b: Buckets)
    ensures
        forall|env: Env, in_class: bool, c: ClassDecl| buckets_ok(b, Seq::empty(), env, in_class, c),
{
    let b = Buckets {
        overrides: Vec::new(),
        public: VariablesAndFunctions { variables: Vec::new(), functions: Vec::new() },
        protected: VariablesAndFunctions { variables: Vec::new(), functions: Vec::new() },
        private: VariablesAndFunctions { variables: Vec::new(), functions: Vec::new() },
        inner_structs: Vec::new(),
        inner_enums: Vec::new(),
        constants: Vec::new(),
        properties: Vec::new(),
        flags: Vec::new(),
    };
    assert forall|env: Env, in_class: bool, c: ClassDecl| buckets_ok(b, Seq::empty(), env, in_class, c) by {
        assert forall|k: Slot| #[trigger] in_slot(Seq::<ClassInner>::empty(), k, in_class) == Seq::<ClassInner>::empty() by {}
    }
    b
}

fn struct_inner_doc(i: &StructInner) -> (r: &Option<String>)
    ensures
        *r == as_class_inner(*i).doc(),
{
    match i {
        StructInner::Function(d) => &d.doc,
        StructInner::Member(d) => &d.doc,
        StructInner::Enum(d) => &d.doc,
        StructInner::Const(d) => &d.doc,
        StructInner::StaticConstArray(d) => &d.doc,
    }
}

fn struct_inner_span(i: &StructInner) -> (r: SourceSpan)
    ensures
        r == as_class_inner(*i).span(),
{
    match i {
        StructInner::Function(d) => d.span,
        StructInner::Member(d) => d.span,
        StructInner::Enum(d) => d.span,
        StructInner::Const(d) => d.span,
        StructInner::StaticConstArray(d) => d.span,
    }
}

fn class_inner_doc(i: &ClassInner) -> (r: &Option<String>)
    ensures
        *r == i.doc(),
{
    match i {
        ClassInner::Function(d) => &d.doc,
        ClassInner::Member(d) => &d.doc,
        ClassInner::Enum(d) => &d.doc,
        ClassInner::Struct(d) => &d.doc,
        ClassInner::Const(d) => &d.doc,
        ClassInner::StaticConstArray(d) => &d.doc,
        ClassInner::Property(d) => &d.doc,
        ClassInner::Flag(d) => &d.doc,
    }
}

fn class_inner_span(i: &ClassInner) -> (r: SourceSpan)
    ensures
        r == i.span(),
{
    match i {
        ClassInner::Function(d) => d.span,
        ClassInner::Member(d) => d.span,
        ClassInner::Enum(d) => d.span,
        ClassInner::Struct(d) => d.span,
        ClassInner::Const(d) => d.span,
        ClassInner::StaticConstArray(d) => d.span,
        ClassInner::Property(d) => d.span,
        ClassInner::Flag(d) => d.span,
    }
}

fn place_struct_inner(
    b: &mut Buckets,
    i: &StructInner,
    tbl: &ItemProvider,
    ctx: &Vec<u64>,
    owner: &Owner,
    base: &Ident,
    defs: &Vec<TopLevelDef>,
    qname: &String,
    Ghost(d): Ghost<Seq<ClassInner>>,
    Ghost(env): Ghost<Env>,
    Ghost(c): Ghost<ClassDecl>,
)
    requires
        env_matches(env, tbl, ctx, owner, base, defs, qname),
        buckets_ok(*old(b), d, env, false, c),
    ensures
        buckets_ok(*final(b), d.push(as_class_inner(*i)), env, false, c),
{
    if should_skip(struct_inner_doc(i)) {
        proof {
            lemma_hidden_push(d, as_class_inner(*i), false);
        }
        return ;
    }
    match i {
        StructInner::Function(f) => {
            let r = place_function(b, f, None, tbl, ctx, owner, base, defs, qname, Ghost(d), Ghost(env), Ghost(c), Ghost(false));
            assert(r is Ok);
        },
        StructInner::Member(m) => place_member(b, m, tbl, ctx, owner, base, defs, qname, Ghost(d), Ghost(env), Ghost(c), Ghost(false)),
        StructInner::Enum(e) => place_enum(b, e, tbl, ctx, owner, base, defs, qname, Ghost(d), Ghost(env), Ghost(c), Ghost(false)),
        StructInner::Const(co) => place_const(b, co, tbl, ctx, owner, base, defs, qname, Ghost(d), Ghost(env), Ghost(c), Ghost(false)),
        StructInner::StaticConstArray(a) => place_static(b, a, tbl, ctx, owner, base, defs, qname, Ghost(d), Ghost(env), Ghost(c), Ghost(false)),
    }
}

/// Assembles the page of a struct named `name` (`no_context_name` without
/// its enclosing names) declared in the scope `context`.
pub fn struct_doc(
    name: &String,
    no_context_name: &String,
    context: &Vec<u64>,
    s: &StructDecl,
    item_provider: &ItemProvider,
    base: &Ident,
) -> (r: Struct)
    requires
        item_provider.wf(),
    ensures
        struct_ok(r, *s, name@, no_context_name@, context@, item_provider@, *base),
{
    let ctx = crate::item::context_with(context.as_slice(), s.name.sym);
    let mut path: Vec<String> = Vec::new();
    path.push(name.clone());
    let owner = Owner::Struct(path);
    assert(owner@ == OwnerV::Struct(seq![name@])) by {
        assert(crate::structures::strs_view(path) =~= seq![name@]);
    }
    let defs: Vec<TopLevelDef> = Vec::new();
    let ghost env = Env {
        t: item_provider@,
        defs: Seq::empty(),
        base: *base,
        ctx: ctx@,
        owner: OwnerV::Struct(seq![name@]),
        qname: name@,
    };
    assert(defs@ =~= Seq::<TopLevelDef>::empty());
    let ghost inners = s.inners@.map_values(|i: StructInner| as_class_inner(i));
    let mut spans: Vec<SourceSpan> = Vec::new();
    let mut i: usize = 0;
    while i < s.inners.len()
        invariant
            i <= s.inners@.len(),
            inners == s.inners@.map_values(|i: StructInner| as_class_inner(i)),
            spans@.len() == i,
            forall|k: int| 0 <= k < i ==> #[trigger] spans@[k] == inners[k].span(),
        decreases s.inners.len() - i,
    {
        spans.push(struct_inner_span(&s.inners[i]));
        i += 1;
    }
    let order = span_order(&spans);
    proof {
        assert(inners.len() == spans@.len());
        assert forall|a: int, b: int| 0 <= a < b < order@.len() implies span_le(#[trigger] inners[order@[a] as int].span(), #[trigger] inners[order@[b] as int].span()) by {
            assert(span_le(spans@[order@[a] as int], spans@[order@[b] as int]));
        }
    }
    assert(span_sorted_order(inners, order@));
    let ghost c: ClassDecl = vstd::pervasive::arbitrary();
    let ghost sorted_inners = reorder(inners, order@);
    let mut b = empty_buckets();
    let mut p: usize = 0;
    assert(sorted_inners.take(0) =~= Seq::<ClassInner>::empty());
    while p < order.len()
        invariant
            env_matches(env, item_provider, &ctx, &owner, base, &defs, name),
            p <= order@.len(),
            sorted_inners == reorder(inners, order@),
            inners == s.inners@.map_values(|i: StructInner| as_class_inner(i)),
            index_permutation(order@, s.inners@.len()),
            buckets_ok(b, sorted_inners.take(p as int), env, false, c),
        decreases order.len() - p,
    {
        let k = order[p];
        place_struct_inner(&mut b, &s.inners[k], item_provider, &ctx, &owner, base, &defs, name, Ghost(sorted_inners.take(p as int)), Ghost(env), Ghost(c));
        assert(sorted_inners.take(p + 1) =~= sorted_inners.take(p as int).push(as_class_inner(s.inners@[k as int])));
        p += 1;
    }
    assert(sorted_inners.take(order@.len() as int) =~= sorted_inners);
    let ghost pre_enums = b.inner_enums@;
    let inner_enums = sort_items(b.inner_enums);
    proof {
        lemma_enums_by_name(pre_enums, inner_enums@, in_slot(sorted_inners, Slot::InnerEnum, false), env);
    }
    let r = Struct {
        context: ctx,
        name: name.clone(),
        no_context_name: no_context_name.clone(),
        span: s.span,
        doc_comment: doc_string(&s.doc),
        public: b.public,
        protected: b.protected,
        private: b.private,
        inner_enums,
        constants: b.constants,
    };
    assert(span_sorted_order(inners, order@));
    r
}

} // verus!

verus! {

fn place_class_inner(
    b: &mut Buckets,
    i: &ClassInner,
    cls: &ClassDecl,
    tbl: &ItemProvider,
    ctx: &Vec<u64>,
    owner: &Owner,
    base: &Ident,
    defs: &Vec<TopLevelDef>,
    qname: &String,
    Ghost(d): Ghost<Seq<ClassInner>>,
    Ghost(env): Ghost<Env>,
) -> (r: Result<(), DocError>)
    requires
        env_matches(env, tbl, ctx, owner, base, defs, qname),
        buckets_ok(*old(b), d, env, true, *cls),
    ensures
        r is Ok ==> buckets_ok(*final(b), d.push(*i), env, true, *cls),
        r is Err ==> match *i {
            ClassInner::Function(f) => !is_hidden(f.doc) && has_flag(f.flags, FN_OVERRIDE) && override_target(env.defs, *cls, f) is None,
            _ => false,
        },
{
    if should_skip(class_inner_doc(i)) {
        proof {
            lemma_hidden_push(d, *i, true);
        }
        return Ok(());
    }
    match i {
        ClassInner::Function(f) => place_function(b, f, Some(cls), tbl, ctx, owner, base, defs, qname, Ghost(d), Ghost(env), Ghost(*cls), Ghost(true)),
        ClassInner::Member(m) => {
            place_member(b, m, tbl, ctx, owner, base, defs, qname, Ghost(d), Ghost(env), Ghost(*cls), Ghost(true));
            Ok(())
        },
        ClassInner::Enum(e) => {
            place_enum(b, e, tbl, ctx, owner, base, defs, qname, Ghost(d), Ghost(env), Ghost(*cls), Ghost(true));
            Ok(())
        },
        ClassInner::Struct(st) => {
            proof {
                lemma_in_slot_push_all(d, *i, true);
            }
            let item = struct_doc(&qualify(qname, &st.name.text), &st.name.text, ctx, st, tbl, base);
            b.inner_structs.push(item);
            Ok(())
        },
        ClassInner::Const(co) => {
            place_const(b, co, tbl, ctx, owner, base, defs, qname, Ghost(d), Ghost(env), Ghost(*cls), Ghost(true));
            Ok(())
        },
        ClassInner::StaticConstArray(a) => {
            place_static(b, a, tbl, ctx, owner, base, defs, qname, Ghost(d), Ghost(env), Ghost(*cls), Ghost(true));
            Ok(())
        },
        ClassInner::Property(p) => {
            place_property(b, p, tbl, ctx, owner, base, defs, qname, Ghost(d), Ghost(env), Ghost(*cls), Ghost(true));
            Ok(())
        },
        ClassInner::Flag(fl) => {
            place_flag(b, fl, tbl, ctx, owner, base, defs, qname, Ghost(d), Ghost(env), Ghost(*cls), Ghost(true));
            Ok(())
        },
    }
}

/// The environment of the members of class `c`, named `name`, declared in
/// the scope `ctx`.
pub open spec fn class_env(c: ClassDecl, name: Seq<char>, ctx: Seq<u64>, t: Map<Seq<u64>, LinkV>, base: Ident, defs: Seq<TopLevelDef>) -> Env {
    Env { t, defs, base, ctx: ctx.push(c.name.sym), owner: OwnerV::Class(seq![name]), qname: name }
}

/// The inheritance clause: the declared ancestor, or the universal base
/// class when none is declared, resolved from the class's own scope.
pub open spec fn inherits_tokens(t: Map<Seq<u64>, LinkV>, ctx: Seq<u64>, c: ClassDecl, base: Ident) -> Seq<SectionV> {
    match c.ancestor {
        Some(a) => crate::signature::chain_tokens(t, ctx, seq![a.sym], a.text@, false),
        None => crate::signature::chain_tokens(t, ctx, seq![base.sym], base.text@, false),
    }
}

/// Some visible override function of `c` has an ancestor chain that runs in
/// a cycle.
pub open spec fn cyclic_override(defs: Seq<TopLevelDef>, c: ClassDecl) -> bool {
    exists|j: int| 0 <= j < c.inners@.len() && match #[trigger] c.inners@[j] {
        ClassInner::Function(f) => !is_hidden(f.doc) && has_flag(f.flags, FN_OVERRIDE) && override_target(defs, c, f) is None,
        _ => false,
    }
}

/// The page of class `c`, named `name`, declared in the scope `ctx`: its
/// members in buckets (override functions apart, with their override
/// links), each in source order, its structs and enums in name order.
pub open spec fn class_ok(
    it: Class,
    c: ClassDecl,
    name: Seq<char>,
    ctx: Seq<u64>,
    t: Map<Seq<u64>, LinkV>,
    base: Ident,
    defs: Seq<TopLevelDef>,
) -> bool {
    let env = class_env(c, name, ctx, t, base, defs);
    &&& it.context@ == env.ctx
    &&& it.name@ == name
    &&& it.span == c.span
    &&& it.doc_comment@ == doc_text(c.doc)
    &&& if c.name.sym == base.sym {
        it.inherits is None
    } else {
        it.inherits is Some && it.inherits->Some_0@ == emit_all(Seq::empty(), inherits_tokens(t, ctx, c, base))
    }
    &&& exists|order: Seq<usize>| {
        &&& #[trigger] span_sorted_order(c.inners@, order)
        &&& overrides_ok(it.overrides@, in_slot(reorder(c.inners@, order), Slot::Overrides, true), env, c)
        &&& fns_ok(it.public.functions@, in_slot(reorder(c.inners@, order), Slot::PublicFn, true), env)
        &&& fns_ok(it.protected.functions@, in_slot(reorder(c.inners@, order), Slot::ProtectedFn, true), env)
        &&& fns_ok(it.private.functions@, in_slot(reorder(c.inners@, order), Slot::PrivateFn, true), env)
        &&& vars_ok(it.public.variables@, in_slot(reorder(c.inners@, order), Slot::PublicVar, true), env)
        &&& vars_ok(it.protected.variables@, in_slot(reorder(c.inners@, order), Slot::ProtectedVar, true), env)
        &&& vars_ok(it.private.variables@, in_slot(reorder(c.inners@, order), Slot::PrivateVar, true), env)
        &&& structs_by_name(it.inner_structs@, in_slot(reorder(c.inners@, order), Slot::InnerStruct, true), env)
        &&& enums_by_name(it.inner_enums@, in_slot(reorder(c.inners@, order), Slot::InnerEnum, true), env)
        &&& consts_ok(it.constants@, in_slot(reorder(c.inners@, order), Slot::Constant, true), env)
        &&& props_ok(it.properties@, in_slot(reorder(c.inners@, order), Slot::Property, true), env)
        &&& flags_ok(it.flags@, in_slot(reorder(c.inners@, order), Slot::Flag, true), env)
    }
}

/// Assembles the page of a class named `name` declared in the scope
/// `context`; fails only when the ancestor chain of one of its visible
/// override functions runs in a cycle.
pub fn class_doc(
    name: &String,
    context: &Vec<u64>,
    tree: &crate::model::SemanticTree,
    c: &ClassDecl,
    item_provider: &ItemProvider,
) -> (r: Result<Class, DocError>)
    requires
        item_provider.wf(),
        tree.defs@.len() < usize::MAX,
    ensures
        match r {
            Ok(it) => class_ok(it, *c, name@, context@, item_provider@, tree.base_class, tree.defs@),
            Err(e) => cyclic_override(tree.defs@, *c) && e == DocError::InheritanceCycle(*name),
        },
{
    let base = &tree.base_class;
    let defs = &tree.defs;
    let ctx = crate::item::context_with(context.as_slice(), c.name.sym);
    let mut path: Vec<String> = Vec::new();
    path.push(name.clone());
    let owner = Owner::Class(path);
    assert(owner@ == OwnerV::Class(seq![name@])) by {
        assert(crate::structures::strs_view(path) =~= seq![name@]);
    }
    let ghost env = class_env(*c, name@, context@, item_provider@, *base, defs@);
    let inherits = if c.name.sym == base.sym {
        None
    } else {
        let mut source = crate::structures::SourceCodeWithLinks::new();
        let mut chain: Vec<u64> = Vec::new();
        match &c.ancestor {
            Some(a) => {
                chain.push(a.sym);
                assert(chain@ =~= seq![a.sym]);
                crate::signature::add_type_if_possible(a.text.as_str(), chain.as_slice(), item_provider, context.as_slice(), false, &mut source);
            },
            None => {
                chain.push(base.sym);
                assert(chain@ =~= seq![base.sym]);
                crate::signature::add_type_if_possible(base.text.as_str(), chain.as_slice(), item_provider, context.as_slice(), false, &mut source);
            },
        }
        Some(source)
    };
    let mut spans: Vec<SourceSpan> = Vec::new();
    let mut i: usize = 0;
    while i < c.inners.len()
        invariant
            i <= c.inners@.len(),
            spans@.len() == i,
            forall|k: int| 0 <= k < i ==> #[trigger] spans@[k] == c.inners@[k].span(),
        decreases c.inners.len() - i,
    {
        spans.push(class_inner_span(&c.inners[i]));
        i += 1;
    }
    let order = span_order(&spans);
    proof {
        assert forall|a: int, b: int| 0 <= a < b < order@.len() implies span_le(#[trigger] c.inners@[order@[a] as int].span(), #[trigger] c.inners@[order@[b] as int].span()) by {
            assert(span_le(spans@[order@[a] as int], spans@[order@[b] as int]));
        }
    }
    assert(span_sorted_order(c.inners@, order@));
    let ghost sorted_inners = reorder(c.inners@, order@);
    let mut b = empty_buckets();
    let mut p: usize = 0;
    assert(sorted_inners.take(0) =~= Seq::<ClassInner>::empty());
    while p < order.len()
        invariant
            env_matches(env, item_provider, &ctx, &owner, base, defs, name),
            env == class_env(*c, name@, context@, item_provider@, *base, defs@),
            defs@ == tree.defs@,
            *base == tree.base_class,
            p <= order@.len(),
            sorted_inners == reorder(c.inners@, order@),
            index_permutation(order@, c.inners@.len()),
            buckets_ok(b, sorted_inners.take(p as int), env, true, *c),
        decreases order.len() - p,
    {
        let k = order[p];
        let res = place_class_inner(&mut b, &c.inners[k], c, item_provider, &ctx, &owner, base, defs, name, Ghost(sorted_inners.take(p as int)), Ghost(env));
        match res {
            Ok(()) => {},
            Err(_) => {
                assert(0 <= k < c.inners@.len());
                assert(cyclic_override(defs@, *c)) by {
                    let j = k as int;
                    assert(match c.inners@[j] {
                        ClassInner::Function(f) => !is_hidden(f.doc) && has_flag(f.flags, FN_OVERRIDE) && override_target(defs@, *c, f) is None,
                        _ => false,
                    });
                }
                return Err(DocError::InheritanceCycle(name.clone()));
            },
        }
        assert(sorted_inners.take(p + 1) =~= sorted_inners.take(p as int).push(c.inners@[k as int]));
        p += 1;
    }
    assert(sorted_inners.take(order@.len() as int) =~= sorted_inners);
    let ghost pre_enums = b.inner_enums@;
    let ghost pre_structs = b.inner_structs@;
    let inner_enums = sort_items(b.inner_enums);
    let inner_structs = sort_items(b.inner_structs);
    proof {
        lemma_enums_by_name(pre_enums, inner_enums@, in_slot(sorted_inners, Slot::InnerEnum, true), env);
        lemma_structs_by_name(pre_structs, inner_structs@, in_slot(sorted_inners, Slot::InnerStruct, true), env);
    }
    let r = Class {
        context: ctx,
        name: name.clone(),
        span: c.span,
        inherits,
        doc_comment: doc_string(&c.doc),
        overrides: b.overrides,
        public: b.public,
        protected: b.protected,
        private: b.private,
        inner_structs,
        inner_enums,
        constants: b.constants,
        properties: b.properties,
        flags: b.flags,
    };
    assert(span_sorted_order(c.inners@, order@));
    Ok(r)
}

} // verus!

verus! {

/// Where a top-level declaration of archive `a` goes in the documentation.
pub enum TopSlot {
    Class,
    Struct,
    Enum,
    Constant,
    Skip,
}

pub open spec fn top_slot(d: TopLevelDef, a: int) -> TopSlot {
    if d.archive != a || is_hidden(d.kind.doc()) {
        TopSlot::Skip
    } else {
        match d.kind {
            TopLevelKind::Class(_) => TopSlot::Class,
            TopLevelKind::Struct(_) => TopSlot::Struct,
            TopLevelKind::Enum(_) => TopSlot::Enum,
            TopLevelKind::Const(_) => TopSlot::Constant,
        }
    }
}

/// The declarations of `defs` that go to slot `k`, in order.
pub open spec fn top_in_slot(defs: Seq<TopLevelDef>, a: int, k: TopSlot) -> Seq<TopLevelKind>
    decreases defs.len(),
{
    if defs.len() == 0 {
        Seq::empty()
    } else {
        top_in_slot(defs.drop_last(), a, k) + if top_slot(defs.last(), a) == k {
            seq![defs.last().kind]
        } else {
            Seq::<TopLevelKind>::empty()
        }
    }
}

/// The environment of top-level declarations.
pub open spec fn global_env(t: Map<Seq<u64>, LinkV>, base: Ident, defs: Seq<TopLevelDef>) -> Env {
    Env { t, defs, base, ctx: Seq::empty(), owner: OwnerV::Global, qname: Seq::empty() }
}

pub open spec fn top_class_ok(it: Class, k: TopLevelKind, t: Map<Seq<u64>, LinkV>, base: Ident, defs: Seq<TopLevelDef>) -> bool {
    match k {
        TopLevelKind::Class(c) => class_ok(it, c, c.name.text@, Seq::empty(), t, base, defs),
        _ => false,
    }
}

pub open spec fn top_struct_ok(it: Struct, k: TopLevelKind, t: Map<Seq<u64>, LinkV>, base: Ident) -> bool {
    match k {
        TopLevelKind::Struct(s) => struct_ok(it, s, s.name.text@, s.name.text@, Seq::empty(), t, base),
        _ => false,
    }
}

pub open spec fn top_enum_ok(it: Enum, k: TopLevelKind) -> bool {
    match k {
        TopLevelKind::Enum(e) => enum_ok(it, e, e.name.text@, e.name.text@, Seq::empty()),
        _ => false,
    }
}

pub open spec fn top_const_ok(it: Constant, k: TopLevelKind, env: Env) -> bool {
    match k {
        TopLevelKind::Const(c) => constant_ok(it, ClassInner::Const(c), env),
        _ => false,
    }
}

/// As many items as declarations, each one's item at its own position.
pub open spec fn pointwise<T>(items: Seq<T>, decls: Seq<TopLevelKind>, ok: spec_fn(T, TopLevelKind) -> bool) -> bool {
    &&& items.len() == decls.len()
    &&& forall|j: int| 0 <= j < items.len() ==> #[trigger] ok(items[j], decls[j])
}

/// The items of the declarations, one each, in sort order: a reordering of a
/// list that holds at each position the item of the declaration there.
pub open spec fn sorted_items_of<T: SortKey>(items: Seq<T>, decls: Seq<TopLevelKind>, ok: spec_fn(T, TopLevelKind) -> bool) -> bool {
    &&& items.len() == decls.len()
    &&& sorted(items)
    &&& exists|pre: Seq<T>| #[trigger] pre.to_multiset() == items.to_multiset() && pointwise(pre, decls, ok)
    &&& forall|k: int| 0 <= k < items.len() ==> #[trigger] has_decl(items[k], decls, ok)
}

/// `it` is the item of one of the declarations.
pub open spec fn has_decl<T>(it: T, decls: Seq<TopLevelKind>, ok: spec_fn(T, TopLevelKind) -> bool) -> bool {
    exists|j: int| 0 <= j < decls.len() && #[trigger] ok(it, decls[j])
}

pub proof fn lemma_sorted_items_of<T: SortKey>(pre: Seq<T>, post: Seq<T>, decls: Seq<TopLevelKind>, ok: spec_fn(T, TopLevelKind) -> bool)
    requires
        pointwise(pre, decls, ok),
        post.to_multiset() == pre.to_multiset(),
        sorted(post),
    ensures
        sorted_items_of(post, decls, ok),
{
    broadcast use vstd::seq_lib::group_to_multiset_ensures;

    vstd::seq_lib::to_multiset_len(post);
    vstd::seq_lib::to_multiset_len(pre);
    assert forall|k: int| 0 <= k < post.len() implies #[trigger] has_decl(post[k], decls, ok) by {
        assert(post.contains(post[k]));
        assert(post.to_multiset().count(post[k]) > 0);
        assert(pre.contains(post[k]));
        let j = choose|j: int| 0 <= j < pre.len() && pre[j] == post[k];
        assert(ok(pre[j], decls[j]));
    }
}

/// Some visible class of archive `a` has a cyclic override chain.
pub open spec fn archive_has_cycle(defs: Seq<TopLevelDef>, a: int) -> bool {
    exists|j: int| 0 <= j < defs.len() && match #[trigger] defs[j].kind {
        TopLevelKind::Class(c) => top_slot(defs[j], a) == TopSlot::Class && cyclic_override(defs, c),
        _ => false,
    }
}

pub proof fn lemma_top_in_slot_push(defs: Seq<TopLevelDef>, d: TopLevelDef, a: int)
    ensures
        forall|k: TopSlot| #[trigger] top_in_slot(defs.push(d), a, k) == top_in_slot(defs, a, k) + if top_slot(d, a) == k {
            seq![d.kind]
        } else {
            Seq::<TopLevelKind>::empty()
        },
{
    assert(defs.push(d).drop_last() =~= defs);
}

/// Assembles the documentation tree of the primary archive: its visible
/// classes, structs and enums in name order, its constants in source order,
/// and the given builtins.
pub fn hir_to_doc_structures(
    summary_doc: String,
    nice_name: String,
    tree: &crate::model::SemanticTree,
    item_provider: &ItemProvider,
    dependencies: &crate::structures::Dependencies,
    builtins: Vec<crate::structures::Builtin>,
) -> (r: Result<crate::structures::Documentation, DocError>)
    requires
        item_provider.wf(),
        tree.defs@.len() < usize::MAX,
    ensures
        match r {
            Ok(docs) => {
                let t = item_provider@;
                let base = tree.base_class;
                let defs = tree.defs@;
                let a = dependencies.dependency_links@.len() as int;
                &&& docs.name == nice_name
                &&& docs.summary_doc == summary_doc
                &&& docs.builtins == builtins
                &&& sorted_items_of(docs.classes@, top_in_slot(defs, a, TopSlot::Class), |it: Class, k: TopLevelKind| top_class_ok(it, k, t, base, defs))
                &&& sorted_items_of(docs.structs@, top_in_slot(defs, a, TopSlot::Struct), |it: Struct, k: TopLevelKind| top_struct_ok(it, k, t, base))
                &&& sorted_items_of(docs.enums@, top_in_slot(defs, a, TopSlot::Enum), |it: Enum, k: TopLevelKind| top_enum_ok(it, k))
                &&& sorted_items_of(docs.constants@, top_in_slot(defs, a, TopSlot::Constant), |it: Constant, k: TopLevelKind| top_const_ok(it, k, global_env(t, base, defs)))
            },
            Err(_) => archive_has_cycle(tree.defs@, dependencies.dependency_links@.len() as int),
        },
{
    let final_archive = dependencies.get_final_archive_num();
    let ghost a = final_archive as int;
    let ghost t = item_provider@;
    let ghost base = tree.base_class;
    let ghost defs = tree.defs@;
    let ghost fc = |it: Class, k: TopLevelKind| top_class_ok(it, k, t, base, defs);
    let ghost fs = |it: Struct, k: TopLevelKind| top_struct_ok(it, k, t, base);
    let ghost fe = |it: Enum, k: TopLevelKind| top_enum_ok(it, k);
    let ghost fk = |it: Constant, k: TopLevelKind| top_const_ok(it, k, global_env(t, base, defs));
    let empty_ctx: Vec<u64> = Vec::new();
    let mut classes: Vec<Class> = Vec::new();
    let mut structs: Vec<Struct> = Vec::new();
    let mut enums: Vec<Enum> = Vec::new();
    let mut constants: Vec<Constant> = Vec::new();
    let mut i: usize = 0;
    assert(defs.take(0) =~= Seq::<TopLevelDef>::empty());
    assert(empty_ctx@ =~= Seq::<u64>::empty());
    while i < tree.defs.len()
        invariant
            item_provider.wf(),
            t == item_provider@,
            base == tree.base_class,
            defs == tree.defs@,
            defs.len() < usize::MAX,
            a == final_archive as int,
            final_archive == dependencies.dependency_links@.len(),
            empty_ctx@ == Seq::<u64>::empty(),
            i <= defs.len(),
            fc == (|it: Class, k: TopLevelKind| top_class_ok(it, k, t, base, defs)),
            fs == (|it: Struct, k: TopLevelKind| top_struct_ok(it, k, t, base)),
            fe == (|it: Enum, k: TopLevelKind| top_enum_ok(it, k)),
            fk == (|it: Constant, k: TopLevelKind| top_const_ok(it, k, global_env(t, base, defs))),
            pointwise(classes@, top_in_slot(defs.take(i as int), a, TopSlot::Class), fc),
            pointwise(structs@, top_in_slot(defs.take(i as int), a, TopSlot::Struct), fs),
            pointwise(enums@, top_in_slot(defs.take(i as int), a, TopSlot::Enum), fe),
            pointwise(constants@, top_in_slot(defs.take(i as int), a, TopSlot::Constant), fk),
        decreases tree.defs.len() - i,
    {
        let d = &tree.defs[i];
        proof {
            assert(defs.take(i + 1) =~= defs.take(i as int).push(*d));
            lemma_top_in_slot_push(defs.take(i as int), *d, a);
        }
        if d.archive == final_archive {
            match &d.kind {
                TopLevelKind::Class(c) => {
                    if !should_skip(&c.doc) {
                        match class_doc(&c.name.text, &empty_ctx, tree, c, item_provider) {
                            Ok(item) => classes.push(item),
                            Err(e) => {
                                assert(archive_has_cycle(defs, a)) by {
                                    let j = i as int;
                                    assert(match defs[j].kind {
                                        TopLevelKind::Class(c) => top_slot(defs[j], a) == TopSlot::Class && cyclic_override(defs, c),
                                        _ => false,
                                    });
                                }
                                return Err(e);
                            },
                        }
                    }
                },
                TopLevelKind::Struct(s) => {
                    if !should_skip(&s.doc) {
                        structs.push(struct_doc(&s.name.text, &s.name.text, &empty_ctx, s, item_provider, &tree.base_class));
                    }
                },
                TopLevelKind::Enum(e) => {
                    if !should_skip(&e.doc) {
                        enums.push(enum_doc(&e.name.text, &e.name.text, &empty_ctx, e));
                    }
                },
                TopLevelKind::Const(co) => {
                    if !should_skip(&co.doc) {
                        let item = Constant {
                            context: Vec::new(),
                            name: co.name.text.clone(),
                            doc_comment: doc_string(&co.doc),
                            span: co.span,
                            def: reconstruct_constant_declaration(Owner::Global, co),
                        };
                        assert(item.context@ =~= Seq::<u64>::empty());
                        constants.push(item);
                    }
                },
            }
        }
        i += 1;
    }
    assert(defs.take(defs.len() as int) =~= defs);
    let ghost pc = classes@;
    let ghost ps = structs@;
    let ghost pe = enums@;
    let ghost pk = constants@;
    let classes = sort_items(classes);
    let structs = sort_items(structs);
    let enums = sort_items(enums);
    let constants = sort_items(constants);
    proof {
        lemma_sorted_items_of(pc, classes@, top_in_slot(defs, a, TopSlot::Class), fc);
        lemma_sorted_items_of(ps, structs@, top_in_slot(defs, a, TopSlot::Struct), fs);
        lemma_sorted_items_of(pe, enums@, top_in_slot(defs, a, TopSlot::Enum), fe);
        lemma_sorted_items_of(pk, constants@, top_in_slot(defs, a, TopSlot::Constant), fk);
    }
    Ok(crate::structures::Documentation {
        name: nice_name,
        classes,
        structs,
        enums,
        builtins,
        constants,
        summary_doc,
    })
}

} // verus!
