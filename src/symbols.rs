//! Building the symbol table from the semantic trees of all archives.
use vstd::prelude::*;
use crate::item::{context_with, insert_all, lemma_insert_all_append, lemma_insert_all_one, ItemProvider};
use crate::model::{
    ClassDecl, ClassInner, EnumDecl, EnumVariantDecl, Ident, SemanticTree, StructDecl, StructInner,
    TopLevelDef, TopLevelKind,
};
use crate::structures::{
    clone_opt_string, clone_strings, link_prefix_of, opt_view, strs_view, Dependencies, Dependency,
    KindV, LinkV, LinkedSection, LinkedSectionKind, Owner, OwnerV,
};

verus! {

/// One entry of the symbol table: a scope path and its descriptor.
pub type Entry = (Seq<u64>, LinkV);

/// The link path of the page that `o` names.
pub open spec fn owner_path(o: OwnerV) -> Seq<Seq<char>> {
    match o {
        OwnerV::Class(v) => v,
        OwnerV::Struct(v) => v,
        OwnerV::Enum(v) => v,
        OwnerV::Builtin(s) => seq![s],
        OwnerV::Global => Seq::empty(),
    }
}

/// The link path of the page of `owner`, extended by `and`.
pub fn owner_and(owner: &Owner, and: String) -> (r: Vec<String>)
    ensures
        strs_view(r) == owner_path(owner@).push(and@),
{
    let mut base = match owner {
        Owner::Class(v) => clone_strings(v),
        Owner::Struct(v) => clone_strings(v),
        Owner::Enum(v) => clone_strings(v),
        Owner::Builtin(s) => {
            let mut b: Vec<String> = Vec::new();
            b.push(s.clone());
            b
        },
        Owner::Global => Vec::new(),
    };
    let ghost b0 = base@;
    base.push(and);
    assert(strs_view(base) =~= b0.map_values(|s: String| s@).push(base@.last()@));
    proof {
        match owner@ {
            OwnerV::Builtin(s) => {
                assert(b0.map_values(|s: String| s@) =~= seq![s]);
            },
            OwnerV::Global => {
                assert(b0.map_values(|s: String| s@) =~= Seq::<Seq<char>>::empty());
            },
            _ => {},
        }
    }
    base
}

/// The entry of a leaf item (function, member, constant) named `name`.
pub open spec fn leaf_entry(ctx: Seq<u64>, prefix: Option<Seq<char>>, name: Ident, kind: KindV) -> Entry {
    (ctx.push(name.sym), LinkV { prefix, text: name.text@, kind })
}

/// The entries of an enum: the enum itself, then each enumerator, keyed in
/// the scope that encloses the enum.
pub open spec fn enum_entries(ctx: Seq<u64>, owner: OwnerV, prefix: Option<Seq<char>>, e: EnumDecl) -> Seq<Entry> {
    let path = owner_path(owner).push(e.name.text@);
    seq![(ctx.push(e.name.sym), LinkV { prefix, text: e.name.text@, kind: KindV::Enum(path) })]
        + e.variants@.map_values(
        |v: EnumVariantDecl|
            leaf_entry(ctx, prefix, v.name, KindV::Enumerator(OwnerV::Enum(path), v.name.text@)),
    )
}

pub open spec fn struct_inner_entries(ctx: Seq<u64>, owner: OwnerV, prefix: Option<Seq<char>>, i: StructInner) -> Seq<Entry> {
    match i {
        StructInner::Function(f) => seq![leaf_entry(ctx, prefix, f.name, KindV::Function(owner, f.name.text@))],
        StructInner::Member(m) => seq![leaf_entry(ctx, prefix, m.name, KindV::Member(owner, m.name.text@))],
        StructInner::Enum(e) => enum_entries(ctx, owner, prefix, e),
        StructInner::Const(c) => seq![leaf_entry(ctx, prefix, c.name, KindV::Constant(owner, c.name.text@))],
        StructInner::StaticConstArray(a) => seq![leaf_entry(ctx, prefix, a.name, KindV::Constant(owner, a.name.text@))],
    }
}

pub open spec fn struct_inners_entries(ctx: Seq<u64>, owner: OwnerV, prefix: Option<Seq<char>>, inners: Seq<StructInner>) -> Seq<Entry>
    decreases inners.len(),
{
    if inners.len() == 0 {
        Seq::empty()
    } else {
        struct_inners_entries(ctx, owner, prefix, inners.drop_last())
            + struct_inner_entries(ctx, owner, prefix, inners.last())
    }
}

/// The entries of a struct: the struct itself, then those of its inner
/// declarations, keyed below the struct.
pub open spec fn struct_entries(ctx: Seq<u64>, owner: OwnerV, prefix: Option<Seq<char>>, s: StructDecl) -> Seq<Entry> {
    let path = owner_path(owner).push(s.name.text@);
    let inner_ctx = ctx.push(s.name.sym);
    seq![(inner_ctx, LinkV { prefix, text: s.name.text@, kind: KindV::Struct(path) })]
        + struct_inners_entries(inner_ctx, OwnerV::Struct(path), prefix, s.inners@)
}

pub open spec fn class_inner_entries(ctx: Seq<u64>, owner: OwnerV, prefix: Option<Seq<char>>, i: ClassInner) -> Seq<Entry> {
    match i {
        ClassInner::Function(f) => seq![leaf_entry(ctx, prefix, f.name, KindV::Function(owner, f.name.text@))],
        ClassInner::Member(m) => seq![leaf_entry(ctx, prefix, m.name, KindV::Member(owner, m.name.text@))],
        ClassInner::Enum(e) => enum_entries(ctx, owner, prefix, e),
        ClassInner::Struct(s) => struct_entries(ctx, owner, prefix, s),
        ClassInner::Const(c) => seq![leaf_entry(ctx, prefix, c.name, KindV::Constant(owner, c.name.text@))],
        ClassInner::StaticConstArray(a) => seq![leaf_entry(ctx, prefix, a.name, KindV::Constant(owner, a.name.text@))],
        ClassInner::Property(_) => Seq::empty(),
        ClassInner::Flag(_) => Seq::empty(),
    }
}

pub open spec fn class_inners_entries(ctx: Seq<u64>, owner: OwnerV, prefix: Option<Seq<char>>, inners: Seq<ClassInner>) -> Seq<Entry>
    decreases inners.len(),
{
    if inners.len() == 0 {
        Seq::empty()
    } else {
        class_inners_entries(ctx, owner, prefix, inners.drop_last())
            + class_inner_entries(ctx, owner, prefix, inners.last())
    }
}

/// The entries of a class: the class itself, then those of its inner
/// declarations, keyed below the class.
pub open spec fn class_entries(ctx: Seq<u64>, owner: OwnerV, prefix: Option<Seq<char>>, c: ClassDecl) -> Seq<Entry> {
    let path = owner_path(owner).push(c.name.text@);
    let inner_ctx = ctx.push(c.name.sym);
    seq![(inner_ctx, LinkV { prefix, text: c.name.text@, kind: KindV::Class(path) })]
        + class_inners_entries(inner_ctx, OwnerV::Class(path), prefix, c.inners@)
}

/// The entries of a top-level declaration, in the global scope.
pub open spec fn top_entries(prefix: Option<Seq<char>>, k: TopLevelKind) -> Seq<Entry> {
    let ctx = Seq::<u64>::empty();
    match k {
        TopLevelKind::Class(c) => class_entries(ctx, OwnerV::Global, prefix, c),
        TopLevelKind::Struct(s) => struct_entries(ctx, OwnerV::Global, prefix, s),
        TopLevelKind::Enum(e) => enum_entries(ctx, OwnerV::Global, prefix, e),
        TopLevelKind::Const(c) => seq![leaf_entry(ctx, prefix, c.name, KindV::Constant(OwnerV::Global, c.name.text@))],
    }
}

/// The entries of the declarations of archive `a`, in declaration order.
pub open spec fn archive_entries(defs: Seq<TopLevelDef>, a: int, prefix: Option<Seq<char>>) -> Seq<Entry>
    decreases defs.len(),
{
    if defs.len() == 0 {
        Seq::empty()
    } else {
        archive_entries(defs.drop_last(), a, prefix) + if defs.last().archive == a {
            top_entries(prefix, defs.last().kind)
        } else {
            Seq::empty()
        }
    }
}

/// The entries of archives `0` to `n - 1`, archive by archive.
pub open spec fn entries_upto(defs: Seq<TopLevelDef>, deps: Seq<Dependency>, n: nat) -> Seq<Entry>
    decreases n,
{
    if n == 0 {
        Seq::empty()
    } else {
        entries_upto(defs, deps, (n - 1) as nat) + archive_entries(
            defs,
            n - 1,
            link_prefix_of(deps, n - 1),
        )
    }
}

/// The entries of every archive: the dependencies first, the primary archive
/// last.
pub open spec fn tree_entries(defs: Seq<TopLevelDef>, deps: Seq<Dependency>) -> Seq<Entry> {
    entries_upto(defs, deps, deps.len() + 1)
}

fn leaf_link(prefix: &Option<String>, name: &Ident, kind: LinkedSectionKind) -> (r: LinkedSection)
    ensures
        r@ == (LinkV { prefix: opt_view(*prefix), text: name.text@, kind: kind@ }),
{
    LinkedSection { link_prefix: clone_opt_string(prefix), text: name.text.clone(), kind }
}

fn add_leaf(tbl: &mut ItemProvider, ctx: &[u64], prefix: &Option<String>, name: &Ident, kind: LinkedSectionKind)
    requires
        old(tbl).wf(),
    ensures
        final(tbl).wf(),
        final(tbl)@ == insert_all(old(tbl)@, seq![leaf_entry(ctx@, opt_view(*prefix), *name, kind@)]),
{
    let ghost m0 = tbl@;
    let ghost e = leaf_entry(ctx@, opt_view(*prefix), *name, kind@);
    let key = context_with(ctx, name.sym);
    let l = leaf_link(prefix, name, kind);
    tbl.insert(key, l);
    proof {
        lemma_insert_all_one(m0, e);
    }
}

/// Adds the entries of an enum.
pub fn add_enum(tbl: &mut ItemProvider, ctx: &[u64], owner: &Owner, prefix: &Option<String>, e: &EnumDecl)
    requires
        old(tbl).wf(),
    ensures
        final(tbl).wf(),
        final(tbl)@ == insert_all(old(tbl)@, enum_entries(ctx@, owner@, opt_view(*prefix), *e)),
{
    let ghost m0 = tbl@;
    let ghost pv = opt_view(*prefix);
    let link = owner_and(owner, e.name.text.clone());
    let ghost path = strs_view(link);
    let enum_owner = Owner::Enum(clone_strings(&link));
    let key = context_with(ctx, e.name.sym);
    tbl.insert(key, LinkedSection {
        link_prefix: clone_opt_string(prefix),
        text: e.name.text.clone(),
        kind: LinkedSectionKind::Enum { link },
    });
    let ghost head = seq![(ctx@.push(e.name.sym), LinkV { prefix: pv, text: e.name.text@, kind: KindV::Enum(path) })];
    let ghost f = |v: EnumVariantDecl| leaf_entry(ctx@, pv, v.name, KindV::Enumerator(OwnerV::Enum(path), v.name.text@));
    proof {
        lemma_insert_all_one(m0, head[0]);
        assert(head =~= seq![head[0]]);
        assert(head + e.variants@.take(0).map_values(f) =~= head);
    }
    let mut i: usize = 0;
    while i < e.variants.len()
        invariant
            tbl.wf(),
            i <= e.variants@.len(),
            enum_owner@ == OwnerV::Enum(path),
            pv == opt_view(*prefix),
            f == (|v: EnumVariantDecl| leaf_entry(ctx@, pv, v.name, KindV::Enumerator(OwnerV::Enum(path), v.name.text@))),
            tbl@ == insert_all(m0, head + e.variants@.take(i as int).map_values(f)),
        decreases e.variants.len() - i,
    {
        let v = &e.variants[i];
        add_leaf(&mut *tbl, ctx, prefix, &v.name, LinkedSectionKind::Enumerator {
            owner: enum_owner.duplicate(),
            link: v.name.text.clone(),
        });
        proof {
            let a = head + e.variants@.take(i as int).map_values(f);
            let b = seq![f(e.variants@[i as int])];
            lemma_insert_all_one(insert_all(m0, a), b[0]);
            assert(b =~= seq![b[0]]);
            lemma_insert_all_append(m0, a, b);
            assert(a + b =~= head + e.variants@.take(i + 1).map_values(f));
        }
        i += 1;
    }
    assert(e.variants@.take(e.variants@.len() as int) =~= e.variants@);
}

/// Adds the entries of one inner declaration of a struct.
fn add_struct_inner(tbl: &mut ItemProvider, ctx: &[u64], owner: &Owner, prefix: &Option<String>, i: &StructInner)
    requires
        old(tbl).wf(),
    ensures
        final(tbl).wf(),
        final(tbl)@ == insert_all(old(tbl)@, struct_inner_entries(ctx@, owner@, opt_view(*prefix), *i)),
{
    match i {
        StructInner::Function(f) => add_leaf(tbl, ctx, prefix, &f.name, LinkedSectionKind::Function {
            owner: owner.duplicate(),
            link: f.name.text.clone(),
        }),
        StructInner::Member(m) => add_leaf(tbl, ctx, prefix, &m.name, LinkedSectionKind::Member {
            owner: owner.duplicate(),
            link: m.name.text.clone(),
        }),
        StructInner::Enum(e) => add_enum(tbl, ctx, owner, prefix, e),
        StructInner::Const(c) => add_leaf(tbl, ctx, prefix, &c.name, LinkedSectionKind::Constant {
            owner: owner.duplicate(),
            link: c.name.text.clone(),
        }),
        StructInner::StaticConstArray(a) => add_leaf(tbl, ctx, prefix, &a.name, LinkedSectionKind::Constant {
            owner: owner.duplicate(),
            link: a.name.text.clone(),
        }),
    }
}

/// Adds the entries of a struct and of everything it declares.
pub fn add_struct(tbl: &mut ItemProvider, ctx: &[u64], owner: &Owner, prefix: &Option<String>, s: &StructDecl)
    requires
        old(tbl).wf(),
    ensures
        final(tbl).wf(),
        final(tbl)@ == insert_all(old(tbl)@, struct_entries(ctx@, owner@, opt_view(*prefix), *s)),
{
    let ghost m0 = tbl@;
    let ghost pv = opt_view(*prefix);
    let link = owner_and(owner, s.name.text.clone());
    let ghost path = strs_view(link);
    let inner_owner = Owner::Struct(clone_strings(&link));
    let inner_ctx = context_with(ctx, s.name.sym);
    tbl.insert(context_with(ctx, s.name.sym), LinkedSection {
        link_prefix: clone_opt_string(prefix),
        text: s.name.text.clone(),
        kind: LinkedSectionKind::Struct { link },
    });
    let ghost head = seq![(inner_ctx@, LinkV { prefix: pv, text: s.name.text@, kind: KindV::Struct(path) })];
    proof {
        lemma_insert_all_one(m0, head[0]);
        assert(head =~= seq![head[0]]);
        assert(s.inners@.take(0) =~= Seq::<StructInner>::empty());
        assert(head + struct_inners_entries(inner_ctx@, OwnerV::Struct(path), pv, s.inners@.take(0)) =~= head);
    }
    let mut i: usize = 0;
    while i < s.inners.len()
        invariant
            tbl.wf(),
            i <= s.inners@.len(),
            inner_owner@ == OwnerV::Struct(path),
            pv == opt_view(*prefix),
            tbl@ == insert_all(m0, head + struct_inners_entries(inner_ctx@, OwnerV::Struct(path), pv, s.inners@.take(i as int))),
        decreases s.inners.len() - i,
    {
        add_struct_inner(&mut *tbl, inner_ctx.as_slice(), &inner_owner, prefix, &s.inners[i]);
        proof {
            let a = head + struct_inners_entries(inner_ctx@, OwnerV::Struct(path), pv, s.inners@.take(i as int));
            let b = struct_inner_entries(inner_ctx@, OwnerV::Struct(path), pv, s.inners@[i as int]);
            lemma_insert_all_append(m0, a, b);
            assert(s.inners@.take(i + 1).drop_last() =~= s.inners@.take(i as int));
            assert(a + b =~= head + struct_inners_entries(inner_ctx@, OwnerV::Struct(path), pv, s.inners@.take(i + 1)));
        }
        i += 1;
    }
    assert(s.inners@.take(s.inners@.len() as int) =~= s.inners@);
}

/// Adds the entries of one inner declaration of a class.
fn add_class_inner(tbl: &mut ItemProvider, ctx: &[u64], owner: &Owner, prefix: &Option<String>, i: &ClassInner)
    requires
        old(tbl).wf(),
    ensures
        final(tbl).wf(),
        final(tbl)@ == insert_all(old(tbl)@, class_inner_entries(ctx@, owner@, opt_view(*prefix), *i)),
{
    match i {
        ClassInner::Function(f) => add_leaf(tbl, ctx, prefix, &f.name, LinkedSectionKind::Function {
            owner: owner.duplicate(),
            link: f.name.text.clone(),
        }),
        ClassInner::Member(m) => add_leaf(tbl, ctx, prefix, &m.name, LinkedSectionKind::Member {
            owner: owner.duplicate(),
            link: m.name.text.clone(),
        }),
        ClassInner::Enum(e) => add_enum(tbl, ctx, owner, prefix, e),
        ClassInner::Struct(s) => add_struct(tbl, ctx, owner, prefix, s),
        ClassInner::Const(c) => add_leaf(tbl, ctx, prefix, &c.name, LinkedSectionKind::Constant {
            owner: owner.duplicate(),
            link: c.name.text.clone(),
        }),
        ClassInner::StaticConstArray(a) => add_leaf(tbl, ctx, prefix, &a.name, LinkedSectionKind::Constant {
            owner: owner.duplicate(),
            link: a.name.text.clone(),
        }),
        ClassInner::Property(_) => {
            assert(insert_all(tbl@, Seq::<Entry>::empty()) == tbl@);
        },
        ClassInner::Flag(_) => {
            assert(insert_all(tbl@, Seq::<Entry>::empty()) == tbl@);
        },
    }
}

/// Adds the entries of a class and of everything it declares.
pub fn add_class(tbl: &mut ItemProvider, ctx: &[u64], owner: &Owner, prefix: &Option<String>, c: &ClassDecl)
    requires
        old(tbl).wf(),
    ensures
        final(tbl).wf(),
        final(tbl)@ == insert_all(old(tbl)@, class_entries(ctx@, owner@, opt_view(*prefix), *c)),
{
    let ghost m0 = tbl@;
    let ghost pv = opt_view(*prefix);
    let link = owner_and(owner, c.name.text.clone());
    let ghost path = strs_view(link);
    let inner_owner = Owner::Class(clone_strings(&link));
    let inner_ctx = context_with(ctx, c.name.sym);
    tbl.insert(context_with(ctx, c.name.sym), LinkedSection {
        link_prefix: clone_opt_string(prefix),
        text: c.name.text.clone(),
        kind: LinkedSectionKind::Class { link },
    });
    let ghost head = seq![(inner_ctx@, LinkV { prefix: pv, text: c.name.text@, kind: KindV::Class(path) })];
    proof {
        lemma_insert_all_one(m0, head[0]);
        assert(head =~= seq![head[0]]);
        assert(c.inners@.take(0) =~= Seq::<ClassInner>::empty());
        assert(head + class_inners_entries(inner_ctx@, OwnerV::Class(path), pv, c.inners@.take(0)) =~= head);
    }
    let mut i: usize = 0;
    while i < c.inners.len()
        invariant
            tbl.wf(),
            i <= c.inners@.len(),
            inner_owner@ == OwnerV::Class(path),
            pv == opt_view(*prefix),
            tbl@ == insert_all(m0, head + class_inners_entries(inner_ctx@, OwnerV::Class(path), pv, c.inners@.take(i as int))),
        decreases c.inners.len() - i,
    {
        add_class_inner(&mut *tbl, inner_ctx.as_slice(), &inner_owner, prefix, &c.inners[i]);
        proof {
            let a = head + class_inners_entries(inner_ctx@, OwnerV::Class(path), pv, c.inners@.take(i as int));
            let b = class_inner_entries(inner_ctx@, OwnerV::Class(path), pv, c.inners@[i as int]);
            lemma_insert_all_append(m0, a, b);
            assert(c.inners@.take(i + 1).drop_last() =~= c.inners@.take(i as int));
            assert(a + b =~= head + class_inners_entries(inner_ctx@, OwnerV::Class(path), pv, c.inners@.take(i + 1)));
        }
        i += 1;
    }
    assert(c.inners@.take(c.inners@.len() as int) =~= c.inners@);
}

/// Adds the entries of a top-level declaration.
pub fn add_top_level(tbl: &mut ItemProvider, prefix: &Option<String>, k: &TopLevelKind)
    requires
        old(tbl).wf(),
    ensures
        final(tbl).wf(),
        final(tbl)@ == insert_all(old(tbl)@, top_entries(opt_view(*prefix), *k)),
{
    let ctx: Vec<u64> = Vec::new();
    assert(ctx@ =~= Seq::<u64>::empty());
    let global = Owner::Global;
    match k {
        TopLevelKind::Class(c) => add_class(tbl, ctx.as_slice(), &global, prefix, c),
        TopLevelKind::Struct(s) => add_struct(tbl, ctx.as_slice(), &global, prefix, s),
        TopLevelKind::Enum(e) => add_enum(tbl, ctx.as_slice(), &global, prefix, e),
        TopLevelKind::Const(c) => add_leaf(tbl, ctx.as_slice(), prefix, &c.name, LinkedSectionKind::Constant {
            owner: Owner::Global,
            link: c.name.text.clone(),
        }),
    }
}

impl ItemProvider {
    /// Builds the symbol table of all archives: archive by archive in
    /// processing order, so that a later archive's declaration replaces an
    /// earlier one with the same scope path.
    pub fn from_tree(tree: &SemanticTree, deps: &Dependencies) -> (r: ItemProvider)
        requires
            deps.dependency_links@.len() < usize::MAX,
        ensures
            r.wf(),
            r@ == insert_all(Map::empty(), tree_entries(tree.defs@, deps.dependency_links@)),
    {
        let mut tbl = ItemProvider::new();
        let ghost defs = tree.defs@;
        let ghost dl = deps.dependency_links@;
        let n = deps.get_final_archive_num() + 1;
        let mut a: usize = 0;
        while a < n
            invariant
                tbl.wf(),
                defs == tree.defs@,
                dl == deps.dependency_links@,
                n == dl.len() + 1,
                a <= n,
                tbl@ == insert_all(Map::empty(), entries_upto(defs, dl, a as nat)),
            decreases n - a,
        {
            let prefix = deps.get_link_prefix(a);
            let ghost m_a = tbl@;
            let mut i: usize = 0;
            assert(defs.take(0) =~= Seq::<TopLevelDef>::empty());
            while i < tree.defs.len()
                invariant
                    tbl.wf(),
                    i <= defs.len(),
                    defs == tree.defs@,
                    opt_view(prefix) == link_prefix_of(dl, a as int),
                    tbl@ == insert_all(m_a, archive_entries(defs.take(i as int), a as int, opt_view(prefix))),
                decreases tree.defs.len() - i,
            {
                let d = &tree.defs[i];
                let ghost before = archive_entries(defs.take(i as int), a as int, opt_view(prefix));
                assert(defs.take(i + 1).drop_last() =~= defs.take(i as int));
                if d.archive == a {
                    add_top_level(&mut tbl, &prefix, &d.kind);
                    proof {
                        lemma_insert_all_append(m_a, before, top_entries(opt_view(prefix), d.kind));
                    }
                } else {
                    assert(before + Seq::<Entry>::empty() =~= before);
                }
                i += 1;
            }
            assert(defs.take(defs.len() as int) =~= defs);
            proof {
                lemma_insert_all_append(
                    Map::empty(),
                    entries_upto(defs, dl, a as nat),
                    archive_entries(defs, a as int, link_prefix_of(dl, a as int)),
                );
            }
            a += 1;
        }
        tbl
    }
}

} // verus!
