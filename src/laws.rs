//! Properties of resolution, symbol-table building and assembly, proved
//! over the specifications that the functions' contracts use.
use vstd::prelude::*;
use crate::builtin::{fn_defs, FunctionHir};
use crate::document::{
    find_class, find_function, in_slot, override_link, override_target, override_walk, slot_of, Slot,
};
use crate::item::{chain_links, chain_resolves, insert_all, lemma_insert_all_append, resolve_spec};
use crate::model::{
    has_flag, ClassDecl, ClassInner, FunctionDecl, Ident, TopLevelDef, TopLevelKind, TypeRef, FN_VIRTUAL,
};
use crate::ordering::{lemma_map_multiset, sorted, span_le, SortKey};
use crate::signature::{text, type_tokens};
use crate::structures::{link_prefix_of, Dependency, Function, LinkV};
use crate::symbols::{
    archive_entries, class_inner_entries, class_inners_entries, entries_upto,
    enum_entries, owner_path, struct_entries, struct_inner_entries, struct_inners_entries,
    top_entries, tree_entries, Entry,
};
use crate::text::{hidden_marker, is_hidden, is_white_space, trim_start};

verus! {

/// Resolution walks outwards: when the first segment of `chain` is absent
/// from every scope deeper than the first `k` components of `ctx` and
/// present there, the chain resolves exactly as it does from that scope.
pub proof fn lemma_resolve_from_enclosing(t: Map<Seq<u64>, LinkV>, ctx: Seq<u64>, chain: Seq<u64>, k: int)
    requires
        chain.len() > 0,
        0 <= k <= ctx.len(),
        forall|m: int| k < m <= ctx.len() ==> !#[trigger] t.contains_key(ctx.take(m).push(chain[0])),
    ensures
        resolve_spec(t, ctx, chain) == resolve_spec(t, ctx.take(k), chain),
    decreases ctx.len(),
{
    if k < ctx.len() {
        assert(ctx.take(ctx.len() as int) =~= ctx);
        assert(!t.contains_key(ctx.push(chain[0])));
        assert forall|m: int| k < m <= ctx.drop_last().len() implies !#[trigger] t.contains_key(ctx.drop_last().take(m).push(chain[0])) by {
            assert(ctx.drop_last().take(m) =~= ctx.take(m));
        }
        lemma_resolve_from_enclosing(t, ctx.drop_last(), chain, k);
        assert(ctx.drop_last().take(k) =~= ctx.take(k));
    } else {
        assert(ctx.take(k) =~= ctx);
    }
}

/// From scope `A.B.C`, a chain whose first segment is declared only directly
/// in `A` resolves to the items below `A`: an item of the same name under
/// `A.B` or `A.B.C` would have been found first, and there is none.
pub proof fn law_resolution_fallback(t: Map<Seq<u64>, LinkV>, a: u64, b: u64, c: u64, chain: Seq<u64>)
    requires
        chain.len() > 0,
        !t.contains_key(seq![a, b, c, chain[0]]),
        !t.contains_key(seq![a, b, chain[0]]),
        chain_resolves(t, seq![a], chain),
    ensures
        resolve_spec(t, seq![a, b, c], chain) == Some(chain_links(t, seq![a], chain)),
{
    let ctx = seq![a, b, c];
    assert forall|m: int| 1 < m <= ctx.len() implies !#[trigger] t.contains_key(ctx.take(m).push(chain[0])) by {
        if m == 2 {
            assert(ctx.take(2).push(chain[0]) =~= seq![a, b, chain[0]]);
        } else {
            assert(ctx.take(3).push(chain[0]) =~= seq![a, b, c, chain[0]]);
        }
    }
    lemma_resolve_from_enclosing(t, ctx, chain, 1);
    assert(ctx.take(1) =~= seq![a]);
    assert(seq![a].push(chain[0]) =~= seq![a] + chain.take(1));
}

/// Every entry of `es` carries the link prefix `p`.
pub open spec fn all_prefixed(es: Seq<Entry>, p: Option<Seq<char>>) -> bool {
    forall|i: int| 0 <= i < es.len() ==> (#[trigger] es[i]).1.prefix == p
}

/// Some entry of `es` is keyed `k`.
pub open spec fn has_key(es: Seq<Entry>, k: Seq<u64>) -> bool {
    exists|i: int| 0 <= i < es.len() && (#[trigger] es[i]).0 == k
}

/// After inserting `b`, a key that `b` holds maps to a descriptor with the
/// prefix that all of `b` carries.
pub proof fn lemma_insert_all_prefix(m: Map<Seq<u64>, LinkV>, b: Seq<Entry>, k: Seq<u64>, p: Option<Seq<char>>)
    requires
        all_prefixed(b, p),
        has_key(b, k),
    ensures
        insert_all(m, b).contains_key(k),
        insert_all(m, b)[k].prefix == p,
    decreases b.len(),
{
    if b.last().0 != k {
        let i = choose|i: int| 0 <= i < b.len() && (#[trigger] b[i]).0 == k;
        assert(i < b.len() - 1);
        assert(b.drop_last()[i] == b[i]);
        assert forall|j: int| 0 <= j < b.drop_last().len() implies (#[trigger] b.drop_last()[j]).1.prefix == p by {
            assert(b.drop_last()[j] == b[j]);
        }
        lemma_insert_all_prefix(m, b.drop_last(), k, p);
    } else {
        assert(b[b.len() - 1] == b.last());
    }
}

pub proof fn lemma_concat_prefixed(a: Seq<Entry>, b: Seq<Entry>, p: Option<Seq<char>>)
    requires
        all_prefixed(a, p),
        all_prefixed(b, p),
    ensures
        all_prefixed(a + b, p),
{
    assert forall|i: int| 0 <= i < (a + b).len() implies (#[trigger] (a + b)[i]).1.prefix == p by {
        if i < a.len() {
            assert((a + b)[i] == a[i]);
        } else {
            assert((a + b)[i] == b[i - a.len()]);
        }
    }
}

pub proof fn lemma_enum_prefixed(ctx: Seq<u64>, o: crate::structures::OwnerV, p: Option<Seq<char>>, e: crate::model::EnumDecl)
    ensures
        all_prefixed(enum_entries(ctx, o, p, e), p),
{
    let es = enum_entries(ctx, o, p, e);
    assert forall|i: int| 0 <= i < es.len() implies (#[trigger] es[i]).1.prefix == p by {
    }
}

pub proof fn lemma_struct_inners_prefixed(ctx: Seq<u64>, o: crate::structures::OwnerV, p: Option<Seq<char>>, inners: Seq<crate::model::StructInner>)
    ensures
        all_prefixed(struct_inners_entries(ctx, o, p, inners), p),
    decreases inners.len(),
{
    if inners.len() > 0 {
        lemma_struct_inners_prefixed(ctx, o, p, inners.drop_last());
        match inners.last() {
            crate::model::StructInner::Enum(e) => lemma_enum_prefixed(ctx, o, p, e),
            _ => {},
        }
        let last = struct_inner_entries(ctx, o, p, inners.last());
        assert(all_prefixed(last, p));
        lemma_concat_prefixed(struct_inners_entries(ctx, o, p, inners.drop_last()), last, p);
    }
}

pub proof fn lemma_struct_prefixed(ctx: Seq<u64>, o: crate::structures::OwnerV, p: Option<Seq<char>>, s: crate::model::StructDecl)
    ensures
        all_prefixed(struct_entries(ctx, o, p, s), p),
{
    let path = owner_path(o).push(s.name.text@);
    let head = seq![(ctx.push(s.name.sym), LinkV { prefix: p, text: s.name.text@, kind: crate::structures::KindV::Struct(path) })];
    lemma_struct_inners_prefixed(ctx.push(s.name.sym), crate::structures::OwnerV::Struct(path), p, s.inners@);
    assert(all_prefixed(head, p));
    lemma_concat_prefixed(head, struct_inners_entries(ctx.push(s.name.sym), crate::structures::OwnerV::Struct(path), p, s.inners@), p);
}

pub proof fn lemma_class_inners_prefixed(ctx: Seq<u64>, o: crate::structures::OwnerV, p: Option<Seq<char>>, inners: Seq<ClassInner>)
    ensures
        all_prefixed(class_inners_entries(ctx, o, p, inners), p),
    decreases inners.len(),
{
    if inners.len() > 0 {
        lemma_class_inners_prefixed(ctx, o, p, inners.drop_last());
        match inners.last() {
            ClassInner::Enum(e) => lemma_enum_prefixed(ctx, o, p, e),
            ClassInner::Struct(s) => lemma_struct_prefixed(ctx, o, p, s),
            _ => {},
        }
        let last = class_inner_entries(ctx, o, p, inners.last());
        assert(all_prefixed(last, p));
        lemma_concat_prefixed(class_inners_entries(ctx, o, p, inners.drop_last()), last, p);
    }
}

pub proof fn lemma_top_prefixed(p: Option<Seq<char>>, k: TopLevelKind)
    ensures
        all_prefixed(top_entries(p, k), p),
{
    let ctx = Seq::<u64>::empty();
    let o = crate::structures::OwnerV::Global;
    match k {
        TopLevelKind::Class(c) => {
            let path = owner_path(o).push(c.name.text@);
            let head = seq![(ctx.push(c.name.sym), LinkV { prefix: p, text: c.name.text@, kind: crate::structures::KindV::Class(path) })];
            lemma_class_inners_prefixed(ctx.push(c.name.sym), crate::structures::OwnerV::Class(path), p, c.inners@);
            assert(all_prefixed(head, p));
            lemma_concat_prefixed(head, class_inners_entries(ctx.push(c.name.sym), crate::structures::OwnerV::Class(path), p, c.inners@), p);
        },
        TopLevelKind::Struct(s) => lemma_struct_prefixed(ctx, o, p, s),
        TopLevelKind::Enum(e) => lemma_enum_prefixed(ctx, o, p, e),
        TopLevelKind::Const(_) => {},
    }
}

/// Every entry contributed by archive `a` carries the archive's prefix; and
/// a top-level class of that archive contributes the entry of its name.
pub proof fn lemma_archive_entries(defs: Seq<TopLevelDef>, a: int, p: Option<Seq<char>>, j: int)
    requires
        0 <= j < defs.len(),
        defs[j].archive == a,
        defs[j].kind is Class,
    ensures
        all_prefixed(archive_entries(defs, a, p), p),
        has_key(archive_entries(defs, a, p), seq![defs[j].kind->Class_0.name.sym]),
    decreases defs.len(),
{
    lemma_archive_prefixed(defs, a, p);
    let c = defs[j].kind->Class_0;
    if j == defs.len() - 1 {
        let before = archive_entries(defs.drop_last(), a, p);
        let mine = top_entries(p, defs.last().kind);
        assert(mine[0].0 == seq![c.name.sym]) by {
            assert(Seq::<u64>::empty().push(c.name.sym) =~= seq![c.name.sym]);
        }
        assert((before + mine)[before.len() as int] == mine[0]);
    } else {
        lemma_archive_entries(defs.drop_last(), a, p, j);
        assert(defs.drop_last()[j] == defs[j]);
        let before = archive_entries(defs.drop_last(), a, p);
        let rest = if defs.last().archive == a { top_entries(p, defs.last().kind) } else { Seq::<Entry>::empty() };
        let i = choose|i: int| 0 <= i < before.len() && (#[trigger] before[i]).0 == seq![c.name.sym];
        assert((before + rest)[i] == before[i]);
    }
}

pub proof fn lemma_archive_prefixed(defs: Seq<TopLevelDef>, a: int, p: Option<Seq<char>>)
    ensures
        all_prefixed(archive_entries(defs, a, p), p),
    decreases defs.len(),
{
    if defs.len() > 0 {
        lemma_archive_prefixed(defs.drop_last(), a, p);
        let rest = if defs.last().archive == a { top_entries(p, defs.last().kind) } else { Seq::<Entry>::empty() };
        lemma_top_prefixed(p, defs.last().kind);
        lemma_concat_prefixed(archive_entries(defs.drop_last(), a, p), rest, p);
    }
}

/// Shadowing: when the primary archive (processed after every dependency)
/// declares a top-level class `X`, the symbol table maps `X` to an item of
/// the primary archive, whatever the dependencies declare under that name;
/// an unqualified reference to `X` from the global scope resolves to it.
pub proof fn law_primary_shadows(defs: Seq<TopLevelDef>, deps: Seq<Dependency>, j: int)
    requires
        0 <= j < defs.len(),
        defs[j].archive == deps.len(),
        defs[j].kind is Class,
    ensures
        ({
            let t = insert_all(Map::empty(), tree_entries(defs, deps));
            let x = defs[j].kind->Class_0.name.sym;
            &&& t.contains_key(seq![x])
            &&& t[seq![x]].prefix == link_prefix_of(deps, deps.len() as int)
            &&& t[seq![x]].prefix is None
            &&& resolve_spec(t, Seq::empty(), seq![x]) == Some(seq![t[seq![x]]])
        }),
{
    let a = deps.len() as int;
    let p = link_prefix_of(deps, a);
    let x = defs[j].kind->Class_0.name.sym;
    lemma_archive_entries(defs, a, p, j);
    let before = entries_upto(defs, deps, deps.len());
    let mine = archive_entries(defs, a, p);
    assert(tree_entries(defs, deps) == before + mine);
    lemma_insert_all_append(Map::empty(), before, mine);
    lemma_insert_all_prefix(insert_all(Map::empty(), before), mine, seq![x], p);
    let t = insert_all(Map::empty(), tree_entries(defs, deps));
    assert(Seq::<u64>::empty().push(x) =~= seq![x]);
    assert(Seq::<u64>::empty() + seq![x].take(1) =~= seq![x]);
    assert(chain_resolves(t, Seq::empty(), seq![x]));
    assert(chain_links(t, Seq::empty(), seq![x]) =~= seq![t[seq![x]]]);
}

/// The hidden marker after any run of white space hides a declaration.
pub proof fn law_hidden_marker(ws: Seq<char>, rest: Seq<char>, doc: String)
    requires
        forall|i: int| 0 <= i < ws.len() ==> is_white_space(#[trigger] ws[i]),
        doc@ == ws + hidden_marker() + rest,
    ensures
        is_hidden(Some(doc)),
    decreases ws.len(),
{
    reveal_strlit("?doc: hidden");
    assert(hidden_marker()[0] == '?');
    assert(!is_white_space('?')) by {
        assert(('?' as u32) == 0x3f);
    }
    assert((hidden_marker() + rest)[0] == '?');
    lemma_trim_ws(ws, hidden_marker() + rest);
    assert(ws + hidden_marker() + rest =~= ws + (hidden_marker() + rest));
    assert((hidden_marker() + rest).take(hidden_marker().len() as int) =~= hidden_marker());
}

pub proof fn lemma_trim_ws(ws: Seq<char>, s: Seq<char>)
    requires
        forall|i: int| 0 <= i < ws.len() ==> is_white_space(#[trigger] ws[i]),
        s.len() > 0 ==> !is_white_space(s[0]),
    ensures
        trim_start(ws + s) == s,
    decreases ws.len(),
{
    if ws.len() > 0 {
        assert((ws + s)[0] == ws[0]);
        assert((ws + s).drop_first() =~= ws.drop_first() + s);
        assert forall|i: int| 0 <= i < ws.drop_first().len() implies is_white_space(#[trigger] ws.drop_first()[i]) by {
            assert(ws.drop_first()[i] == ws[i + 1]);
        }
        lemma_trim_ws(ws.drop_first(), s);
    } else {
        assert(ws + s =~= s);
    }
}

/// A hidden declaration goes to no bucket of its class or struct.
pub proof fn law_hidden_excluded(d: Seq<ClassInner>, x: ClassInner, k: Slot, in_class: bool)
    requires
        is_hidden(x.doc()),
        k != Slot::Hidden,
    ensures
        !in_slot(d, k, in_class).contains(x),
    decreases d.len(),
{
    if d.len() > 0 {
        law_hidden_excluded(d.drop_last(), x, k, in_class);
        let prev = in_slot(d.drop_last(), k, in_class);
        let last = if slot_of(d.last(), in_class) == k { seq![d.last()] } else { Seq::<ClassInner>::empty() };
        assert forall|i: int| 0 <= i < (prev + last).len() implies (prev + last)[i] != x by {
            if i < prev.len() {
                assert((prev + last)[i] == prev[i]);
            } else {
                assert((prev + last)[i] == d.last());
            }
        }
    }
}

/// A hidden enumerator is not listed.
pub proof fn law_hidden_enumerator_excluded(vs: Seq<crate::model::EnumVariantDecl>, x: crate::model::EnumVariantDecl)
    requires
        is_hidden(x.doc),
    ensures
        !crate::document::visible_variants(vs).contains(x),
    decreases vs.len(),
{
    if vs.len() > 0 {
        law_hidden_enumerator_excluded(vs.drop_last(), x);
        let prev = crate::document::visible_variants(vs.drop_last());
        let last = if is_hidden(vs.last().doc) { Seq::<crate::model::EnumVariantDecl>::empty() } else { seq![vs.last()] };
        assert forall|i: int| 0 <= i < (prev + last).len() implies (prev + last)[i] != x by {
            if i < prev.len() {
                assert((prev + last)[i] == prev[i]);
            }
        }
    }
}

/// Override chain: when `Derived` extends `Base`, the first class declared
/// under that name, and `Base` declares `f` virtual, an override `f` in
/// `Derived` links to `Base.f`.
pub proof fn law_override_virtual(defs: Seq<TopLevelDef>, derived: ClassDecl, base: ClassDecl, f: FunctionDecl, g: FunctionDecl)
    requires
        derived.ancestor is Some,
        find_class(defs, derived.ancestor->Some_0.sym) == Some(base),
        find_function(base.inners@, f.name.sym) == Some(g),
        has_flag(g.flags, FN_VIRTUAL),
    ensures
        override_target(defs, derived, f) == Some(Some(override_link(base, g))),
        override_link(base, g).text == base.name.text@ + "."@ + g.name.text@,
{
}

/// Override chain: when `Base` declares `f` without `virtual` and extends
/// nothing itself, an override `f` in `Derived` gets no link.
pub proof fn law_override_not_virtual(defs: Seq<TopLevelDef>, derived: ClassDecl, base: ClassDecl, f: FunctionDecl, g: FunctionDecl)
    requires
        derived.ancestor is Some,
        find_class(defs, derived.ancestor->Some_0.sym) == Some(base),
        find_function(base.inners@, f.name.sym) == Some(g),
        !has_flag(g.flags, FN_VIRTUAL),
        base.ancestor is None,
    ensures
        override_target(defs, derived, f) == Some(None::<LinkV>),
{
    let fuel = (defs.len() + 1) as nat;
    assert(override_walk(defs, base, f.name.sym, (fuel - 1) as nat) == Some(None::<LinkV>));
}

/// Builtin merge order: once a builtin that declares `h` has taken in the
/// declarations of a struct that declares `g` earlier in the source, its
/// function list is `g`, then `h`.
pub proof fn law_builtin_merge_order<'a>(fs: Seq<FunctionHir<'a>>, h: FunctionDecl, g: FunctionDecl)
    requires
        fn_defs(fs).to_multiset() == seq![h, g].to_multiset(),
        sorted(fs),
        span_le(g.span, h.span),
        g.span != h.span,
    ensures
        fn_defs(fs) == seq![g, h],
{
    broadcast use vstd::seq_lib::group_to_multiset_ensures;

    let d = fn_defs(fs);
    let hg = seq![h, g];
    vstd::seq_lib::to_multiset_len(d);
    vstd::seq_lib::to_multiset_len(hg);
    assert(d.len() == 2);
    assert(hg.contains(h) && hg.contains(g));
    assert(hg.to_multiset().count(h) > 0 && hg.to_multiset().count(g) > 0);
    assert(d.contains(h) && d.contains(g));
    assert(h != g);
    assert(d.contains(d[0]) && d.contains(d[1]));
    assert(d.to_multiset().count(d[0]) > 0 && d.to_multiset().count(d[1]) > 0);
    assert(hg.contains(d[0]) && hg.contains(d[1]));
    assert(fs[0].key_le(&fs[1]));
    assert(span_le(d[0].span, d[1].span));
    if d[0] == h {
        if d[1] == h {
            assert(!d.contains(g));
        }
        assert(d[1] == g);
        assert(false);
    }
    assert(d[0] == g);
    if d[1] == g {
        assert(!d.contains(h));
    }
    assert(d =~= seq![g, h]);
}

/// An unresolvable type name stays plain text in its source spelling.
pub proof fn law_unresolved_type_is_text(t: Map<Seq<u64>, LinkV>, ctx: Seq<u64>, u: Ident, base: Ident)
    requires
        forall|m: int| 0 <= m <= ctx.len() ==> !#[trigger] t.contains_key(ctx.take(m).push(u.sym)),
    ensures
        type_tokens(t, ctx, TypeRef::Single(u), base) == seq![text(u.text@)],
{
    lemma_resolve_from_enclosing(t, ctx, seq![u.sym], 0);
    assert(ctx.take(0) =~= Seq::<u64>::empty());
    assert(!t.contains_key(ctx.take(0).push(u.sym)));
}

} // verus!

verus! {

/// Spans in source order.
pub open spec fn spans_sorted(s: Seq<crate::model::SourceSpan>) -> bool {
    forall|i: int, j: int| 0 <= i < j < s.len() ==> span_le(#[trigger] s[i], #[trigger] s[j])
}

/// Determinism of the source order: two orderings of the same spans that
/// both follow source order are the same sequence, so the order of members,
/// functions and constants does not depend on the order in which the
/// declarations were handed in.
pub proof fn law_source_order_unique(a: Seq<crate::model::SourceSpan>, b: Seq<crate::model::SourceSpan>)
    requires
        spans_sorted(a),
        spans_sorted(b),
        a.to_multiset() == b.to_multiset(),
    ensures
        a == b,
    decreases a.len(),
{
    broadcast use vstd::seq_lib::group_to_multiset_ensures;

    vstd::seq_lib::to_multiset_len(a);
    vstd::seq_lib::to_multiset_len(b);
    if a.len() == 0 {
        assert(a =~= b);
    } else {
        assert(a.contains(a[0]));
        assert(b.contains(b[0]));
        assert(a.to_multiset().count(a[0]) > 0);
        assert(b.to_multiset().count(b[0]) > 0);
        assert(b.contains(a[0]));
        assert(a.contains(b[0]));
        let i = choose|i: int| 0 <= i < b.len() && b[i] == a[0];
        let j = choose|j: int| 0 <= j < a.len() && a[j] == b[0];
        if i > 0 {
            assert(span_le(b[0], b[i]));
        }
        if j > 0 {
            assert(span_le(a[0], a[j]));
        }
        assert(a[0] == b[0]);
        vstd::seq_lib::to_multiset_remove(a, 0);
        vstd::seq_lib::to_multiset_remove(b, 0);
        assert(a.remove(0) =~= a.drop_first());
        assert(b.remove(0) =~= b.drop_first());
        assert forall|x: int, y: int| 0 <= x < y < a.drop_first().len() implies span_le(#[trigger] a.drop_first()[x], #[trigger] a.drop_first()[y]) by {
            assert(span_le(a[x + 1], a[y + 1]));
        }
        assert forall|x: int, y: int| 0 <= x < y < b.drop_first().len() implies span_le(#[trigger] b.drop_first()[x], #[trigger] b.drop_first()[y]) by {
            assert(span_le(b[x + 1], b[y + 1]));
        }
        law_source_order_unique(a.drop_first(), b.drop_first());
        assert(a =~= seq![a[0]] + a.drop_first());
        assert(b =~= seq![b[0]] + b.drop_first());
    }
}

} // verus!

verus! {

/// Names in alphabetical order.
pub open spec fn names_sorted(s: Seq<Seq<char>>) -> bool {
    forall|i: int, j: int| 0 <= i < j < s.len() ==> crate::ordering::lex_le(#[trigger] s[i], #[trigger] s[j])
}

/// Determinism of the name order: two orderings of the same names that are
/// both alphabetical are the same sequence, so the order of classes, structs
/// and enums does not depend on the order in which they were handed in.
pub proof fn law_name_order_unique(a: Seq<Seq<char>>, b: Seq<Seq<char>>)
    requires
        names_sorted(a),
        names_sorted(b),
        a.to_multiset() == b.to_multiset(),
    ensures
        a == b,
    decreases a.len(),
{
    broadcast use vstd::seq_lib::group_to_multiset_ensures;

    vstd::seq_lib::to_multiset_len(a);
    vstd::seq_lib::to_multiset_len(b);
    if a.len() == 0 {
        assert(a =~= b);
    } else {
        assert(a.contains(a[0]));
        assert(b.contains(b[0]));
        assert(a.to_multiset().count(a[0]) > 0);
        assert(b.to_multiset().count(b[0]) > 0);
        assert(b.contains(a[0]));
        assert(a.contains(b[0]));
        let i = choose|i: int| 0 <= i < b.len() && b[i] == a[0];
        let j = choose|j: int| 0 <= j < a.len() && a[j] == b[0];
        if i > 0 {
            assert(crate::ordering::lex_le(b[0], b[i]));
        } else {
            crate::ordering::lemma_lex_total(b[0], b[0]);
        }
        if j > 0 {
            assert(crate::ordering::lex_le(a[0], a[j]));
        } else {
            crate::ordering::lemma_lex_total(a[0], a[0]);
        }
        crate::ordering::lemma_lex_antisymmetric(a[0], b[0]);
        vstd::seq_lib::to_multiset_remove(a, 0);
        vstd::seq_lib::to_multiset_remove(b, 0);
        assert(a.remove(0) =~= a.drop_first());
        assert(b.remove(0) =~= b.drop_first());
        assert forall|x: int, y: int| 0 <= x < y < a.drop_first().len() implies crate::ordering::lex_le(#[trigger] a.drop_first()[x], #[trigger] a.drop_first()[y]) by {
            assert(crate::ordering::lex_le(a[x + 1], a[y + 1]));
        }
        assert forall|x: int, y: int| 0 <= x < y < b.drop_first().len() implies crate::ordering::lex_le(#[trigger] b.drop_first()[x], #[trigger] b.drop_first()[y]) by {
            assert(crate::ordering::lex_le(b[x + 1], b[y + 1]));
        }
        law_name_order_unique(a.drop_first(), b.drop_first());
        assert(a =~= seq![a[0]] + a.drop_first());
        assert(b =~= seq![b[0]] + b.drop_first());
    }
}

} // verus!

verus! {

/// The names of a list of classes.
pub open spec fn class_names(s: Seq<crate::structures::Class>) -> Seq<Seq<char>> {
    s.map_values(|c: crate::structures::Class| c.name@)
}

pub open spec fn struct_names(s: Seq<crate::structures::Struct>) -> Seq<Seq<char>> {
    s.map_values(|c: crate::structures::Struct| c.name@)
}

pub open spec fn enum_names(s: Seq<crate::structures::Enum>) -> Seq<Seq<char>> {
    s.map_values(|c: crate::structures::Enum| c.name@)
}

pub open spec fn constant_spans(s: Seq<crate::structures::Constant>) -> Seq<crate::model::SourceSpan> {
    s.map_values(|c: crate::structures::Constant| c.span)
}

/// Two lists that both reorder item lists agreeing on `key` position by
/// position carry the same keys.
pub proof fn lemma_same_keys<T, K>(i1: Seq<T>, i2: Seq<T>, p1: Seq<T>, p2: Seq<T>, key: spec_fn(T) -> K)
    requires
        i1.to_multiset() == p1.to_multiset(),
        i2.to_multiset() == p2.to_multiset(),
        p1.map_values(key) == p2.map_values(key),
    ensures
        i1.map_values(key).to_multiset() == i2.map_values(key).to_multiset(),
{
    lemma_map_multiset(i1, p1, key);
    lemma_map_multiset(i2, p2, key);
}

/// Determinism of the top-level order: any two documentation trees that the
/// assembler may return for the same declarations list the same classes,
/// structs and enums by name and the same constants by position, in the
/// same order, whatever order the declarations came in.
pub proof fn law_documentation_order_deterministic(
    d1: crate::structures::Documentation,
    d2: crate::structures::Documentation,
    defs: Seq<TopLevelDef>,
    a: int,
    t: Map<Seq<u64>, LinkV>,
    base: Ident,
)
    requires
        crate::document::sorted_items_of(d1.classes@, crate::document::top_in_slot(defs, a, crate::document::TopSlot::Class), |it: crate::structures::Class, k: TopLevelKind| crate::document::top_class_ok(it, k, t, base, defs)),
        crate::document::sorted_items_of(d2.classes@, crate::document::top_in_slot(defs, a, crate::document::TopSlot::Class), |it: crate::structures::Class, k: TopLevelKind| crate::document::top_class_ok(it, k, t, base, defs)),
        crate::document::sorted_items_of(d1.structs@, crate::document::top_in_slot(defs, a, crate::document::TopSlot::Struct), |it: crate::structures::Struct, k: TopLevelKind| crate::document::top_struct_ok(it, k, t, base)),
        crate::document::sorted_items_of(d2.structs@, crate::document::top_in_slot(defs, a, crate::document::TopSlot::Struct), |it: crate::structures::Struct, k: TopLevelKind| crate::document::top_struct_ok(it, k, t, base)),
        crate::document::sorted_items_of(d1.enums@, crate::document::top_in_slot(defs, a, crate::document::TopSlot::Enum), |it: crate::structures::Enum, k: TopLevelKind| crate::document::top_enum_ok(it, k)),
        crate::document::sorted_items_of(d2.enums@, crate::document::top_in_slot(defs, a, crate::document::TopSlot::Enum), |it: crate::structures::Enum, k: TopLevelKind| crate::document::top_enum_ok(it, k)),
        crate::document::sorted_items_of(d1.constants@, crate::document::top_in_slot(defs, a, crate::document::TopSlot::Constant), |it: crate::structures::Constant, k: TopLevelKind| crate::document::top_const_ok(it, k, crate::document::global_env(t, base, defs))),
        crate::document::sorted_items_of(d2.constants@, crate::document::top_in_slot(defs, a, crate::document::TopSlot::Constant), |it: crate::structures::Constant, k: TopLevelKind| crate::document::top_const_ok(it, k, crate::document::global_env(t, base, defs))),
    ensures
        class_names(d1.classes@) == class_names(d2.classes@),
        struct_names(d1.structs@) == struct_names(d2.structs@),
        enum_names(d1.enums@) == enum_names(d2.enums@),
        constant_spans(d1.constants@) == constant_spans(d2.constants@),
{
    let dc = crate::document::top_in_slot(defs, a, crate::document::TopSlot::Class);
    let ds = crate::document::top_in_slot(defs, a, crate::document::TopSlot::Struct);
    let de = crate::document::top_in_slot(defs, a, crate::document::TopSlot::Enum);
    let dk = crate::document::top_in_slot(defs, a, crate::document::TopSlot::Constant);
    let fc = |it: crate::structures::Class, k: TopLevelKind| crate::document::top_class_ok(it, k, t, base, defs);
    let fs = |it: crate::structures::Struct, k: TopLevelKind| crate::document::top_struct_ok(it, k, t, base);
    let fe = |it: crate::structures::Enum, k: TopLevelKind| crate::document::top_enum_ok(it, k);
    let fk = |it: crate::structures::Constant, k: TopLevelKind| crate::document::top_const_ok(it, k, crate::document::global_env(t, base, defs));
    // classes
    let p1 = choose|pre: Seq<crate::structures::Class>| #[trigger] pre.to_multiset() == d1.classes@.to_multiset() && crate::document::pointwise(pre, dc, fc);
    let p2 = choose|pre: Seq<crate::structures::Class>| #[trigger] pre.to_multiset() == d2.classes@.to_multiset() && crate::document::pointwise(pre, dc, fc);
    assert(class_names(p1) =~= class_names(p2)) by {
        assert forall|j: int| 0 <= j < p1.len() implies #[trigger] p1[j].name@ == p2[j].name@ by {
            assert(fc(p1[j], dc[j]));
            assert(fc(p2[j], dc[j]));
        }
    }
    lemma_same_keys(d1.classes@, d2.classes@, p1, p2, |c: crate::structures::Class| c.name@);
    assert(names_sorted(class_names(d1.classes@))) by {
        assert forall|i: int, j: int| 0 <= i < j < class_names(d1.classes@).len() implies crate::ordering::lex_le(#[trigger] class_names(d1.classes@)[i], #[trigger] class_names(d1.classes@)[j]) by {
            assert(d1.classes@[i].key_le(&d1.classes@[j]));
        }
    }
    assert(names_sorted(class_names(d2.classes@))) by {
        assert forall|i: int, j: int| 0 <= i < j < class_names(d2.classes@).len() implies crate::ordering::lex_le(#[trigger] class_names(d2.classes@)[i], #[trigger] class_names(d2.classes@)[j]) by {
            assert(d2.classes@[i].key_le(&d2.classes@[j]));
        }
    }
    law_name_order_unique(class_names(d1.classes@), class_names(d2.classes@));
    // structs
    let q1 = choose|pre: Seq<crate::structures::Struct>| #[trigger] pre.to_multiset() == d1.structs@.to_multiset() && crate::document::pointwise(pre, ds, fs);
    let q2 = choose|pre: Seq<crate::structures::Struct>| #[trigger] pre.to_multiset() == d2.structs@.to_multiset() && crate::document::pointwise(pre, ds, fs);
    assert(struct_names(q1) =~= struct_names(q2)) by {
        assert forall|j: int| 0 <= j < q1.len() implies #[trigger] q1[j].name@ == q2[j].name@ by {
            assert(fs(q1[j], ds[j]));
            assert(fs(q2[j], ds[j]));
        }
    }
    lemma_same_keys(d1.structs@, d2.structs@, q1, q2, |c: crate::structures::Struct| c.name@);
    assert(names_sorted(struct_names(d1.structs@))) by {
        assert forall|i: int, j: int| 0 <= i < j < struct_names(d1.structs@).len() implies crate::ordering::lex_le(#[trigger] struct_names(d1.structs@)[i], #[trigger] struct_names(d1.structs@)[j]) by {
            assert(d1.structs@[i].key_le(&d1.structs@[j]));
        }
    }
    assert(names_sorted(struct_names(d2.structs@))) by {
        assert forall|i: int, j: int| 0 <= i < j < struct_names(d2.structs@).len() implies crate::ordering::lex_le(#[trigger] struct_names(d2.structs@)[i], #[trigger] struct_names(d2.structs@)[j]) by {
            assert(d2.structs@[i].key_le(&d2.structs@[j]));
        }
    }
    law_name_order_unique(struct_names(d1.structs@), struct_names(d2.structs@));
    // enums
    let e1 = choose|pre: Seq<crate::structures::Enum>| #[trigger] pre.to_multiset() == d1.enums@.to_multiset() && crate::document::pointwise(pre, de, fe);
    let e2 = choose|pre: Seq<crate::structures::Enum>| #[trigger] pre.to_multiset() == d2.enums@.to_multiset() && crate::document::pointwise(pre, de, fe);
    assert(enum_names(e1) =~= enum_names(e2)) by {
        assert forall|j: int| 0 <= j < e1.len() implies #[trigger] e1[j].name@ == e2[j].name@ by {
            assert(fe(e1[j], de[j]));
            assert(fe(e2[j], de[j]));
        }
    }
    lemma_same_keys(d1.enums@, d2.enums@, e1, e2, |c: crate::structures::Enum| c.name@);
    assert(names_sorted(enum_names(d1.enums@))) by {
        assert forall|i: int, j: int| 0 <= i < j < enum_names(d1.enums@).len() implies crate::ordering::lex_le(#[trigger] enum_names(d1.enums@)[i], #[trigger] enum_names(d1.enums@)[j]) by {
            assert(d1.enums@[i].key_le(&d1.enums@[j]));
        }
    }
    assert(names_sorted(enum_names(d2.enums@))) by {
        assert forall|i: int, j: int| 0 <= i < j < enum_names(d2.enums@).len() implies crate::ordering::lex_le(#[trigger] enum_names(d2.enums@)[i], #[trigger] enum_names(d2.enums@)[j]) by {
            assert(d2.enums@[i].key_le(&d2.enums@[j]));
        }
    }
    law_name_order_unique(enum_names(d1.enums@), enum_names(d2.enums@));
    // constants
    let k1 = choose|pre: Seq<crate::structures::Constant>| #[trigger] pre.to_multiset() == d1.constants@.to_multiset() && crate::document::pointwise(pre, dk, fk);
    let k2 = choose|pre: Seq<crate::structures::Constant>| #[trigger] pre.to_multiset() == d2.constants@.to_multiset() && crate::document::pointwise(pre, dk, fk);
    assert(constant_spans(k1) =~= constant_spans(k2)) by {
        assert forall|j: int| 0 <= j < k1.len() implies #[trigger] k1[j].span == k2[j].span by {
            assert(fk(k1[j], dk[j]));
            assert(fk(k2[j], dk[j]));
        }
    }
    lemma_same_keys(d1.constants@, d2.constants@, k1, k2, |c: crate::structures::Constant| c.span);
    assert(spans_sorted(constant_spans(d1.constants@))) by {
        assert forall|i: int, j: int| 0 <= i < j < constant_spans(d1.constants@).len() implies span_le(#[trigger] constant_spans(d1.constants@)[i], #[trigger] constant_spans(d1.constants@)[j]) by {
            assert(d1.constants@[i].key_le(&d1.constants@[j]));
        }
    }
    assert(spans_sorted(constant_spans(d2.constants@))) by {
        assert forall|i: int, j: int| 0 <= i < j < constant_spans(d2.constants@).len() implies span_le(#[trigger] constant_spans(d2.constants@)[i], #[trigger] constant_spans(d2.constants@)[j]) by {
            assert(d2.constants@[i].key_le(&d2.constants@[j]));
        }
    }
    law_source_order_unique(constant_spans(d1.constants@), constant_spans(d2.constants@));
}

} // verus!

verus! {

/// Every key of `es` is longer than `n`.
pub open spec fn keys_longer(es: Seq<Entry>, n: nat) -> bool {
    forall|i: int| 0 <= i < es.len() ==> (#[trigger] es[i]).0.len() > n
}

pub proof fn lemma_concat_longer(a: Seq<Entry>, b: Seq<Entry>, n: nat)
    requires
        keys_longer(a, n),
        keys_longer(b, n),
    ensures
        keys_longer(a + b, n),
{
    assert forall|i: int| 0 <= i < (a + b).len() implies (#[trigger] (a + b)[i]).0.len() > n by {
        if i < a.len() {
            assert((a + b)[i] == a[i]);
        } else {
            assert((a + b)[i] == b[i - a.len()]);
        }
    }
}

pub proof fn lemma_struct_inners_longer(ctx: Seq<u64>, o: crate::structures::OwnerV, p: Option<Seq<char>>, inners: Seq<crate::model::StructInner>)
    ensures
        keys_longer(struct_inners_entries(ctx, o, p, inners), ctx.len()),
    decreases inners.len(),
{
    if inners.len() > 0 {
        lemma_struct_inners_longer(ctx, o, p, inners.drop_last());
        let last = struct_inner_entries(ctx, o, p, inners.last());
        assert(keys_longer(last, ctx.len()));
        lemma_concat_longer(struct_inners_entries(ctx, o, p, inners.drop_last()), last, ctx.len());
    }
}

pub proof fn lemma_class_inners_longer(ctx: Seq<u64>, o: crate::structures::OwnerV, p: Option<Seq<char>>, inners: Seq<ClassInner>)
    ensures
        keys_longer(class_inners_entries(ctx, o, p, inners), ctx.len()),
    decreases inners.len(),
{
    if inners.len() > 0 {
        lemma_class_inners_longer(ctx, o, p, inners.drop_last());
        let last = class_inner_entries(ctx, o, p, inners.last());
        match inners.last() {
            ClassInner::Struct(s) => {
                let path = owner_path(o).push(s.name.text@);
                lemma_struct_inners_longer(ctx.push(s.name.sym), crate::structures::OwnerV::Struct(path), p, s.inners@);
                let head = seq![(ctx.push(s.name.sym), LinkV { prefix: p, text: s.name.text@, kind: crate::structures::KindV::Struct(path) })];
                lemma_concat_longer(head, struct_inners_entries(ctx.push(s.name.sym), crate::structures::OwnerV::Struct(path), p, s.inners@), ctx.len());
            },
            _ => {},
        }
        assert(keys_longer(last, ctx.len()));
        lemma_concat_longer(class_inners_entries(ctx, o, p, inners.drop_last()), last, ctx.len());
    }
}

/// The entry of class `c` in the global scope.
pub open spec fn class_head(c: ClassDecl, p: Option<Seq<char>>) -> LinkV {
    LinkV { prefix: p, text: c.name.text@, kind: crate::structures::KindV::Class(seq![c.name.text@]) }
}

/// Every entry keyed `k` carries `v`.
pub open spec fn key_maps_to(es: Seq<Entry>, k: Seq<u64>, v: LinkV) -> bool {
    forall|i: int| 0 <= i < es.len() && (#[trigger] es[i]).0 == k ==> es[i].1 == v
}

pub proof fn lemma_insert_all_value(m: Map<Seq<u64>, LinkV>, b: Seq<Entry>, k: Seq<u64>, v: LinkV)
    requires
        key_maps_to(b, k, v),
        has_key(b, k),
    ensures
        insert_all(m, b)[k] == v,
    decreases b.len(),
{
    if b.last().0 != k {
        let i = choose|i: int| 0 <= i < b.len() && (#[trigger] b[i]).0 == k;
        assert(b.drop_last()[i] == b[i]);
        assert forall|j: int| 0 <= j < b.drop_last().len() && (#[trigger] b.drop_last()[j]).0 == k implies b.drop_last()[j].1 == v by {
            assert(b.drop_last()[j] == b[j]);
        }
        lemma_insert_all_value(m, b.drop_last(), k, v);
    } else {
        assert(b[b.len() - 1] == b.last());
    }
}

pub proof fn lemma_concat_maps_to(a: Seq<Entry>, b: Seq<Entry>, k: Seq<u64>, v: LinkV)
    requires
        key_maps_to(a, k, v),
        key_maps_to(b, k, v),
    ensures
        key_maps_to(a + b, k, v),
{
    assert forall|i: int| 0 <= i < (a + b).len() && (#[trigger] (a + b)[i]).0 == k implies (a + b)[i].1 == v by {
        if i < a.len() {
            assert((a + b)[i] == a[i]);
        } else {
            assert((a + b)[i] == b[i - a.len()]);
        }
    }
}

/// In the entries of archive `a`, the key of class `defs[j]` maps to that
/// class when no other declaration of the archive contributes that key.
pub proof fn lemma_archive_class_entry(defs: Seq<TopLevelDef>, a: int, p: Option<Seq<char>>, j: int, c: ClassDecl)
    requires
        0 <= j < defs.len(),
        defs[j].archive == a,
        defs[j].kind == TopLevelKind::Class(c),
        forall|k: int| 0 <= k < defs.len() && k != j && defs[k].archive == a ==> !has_key(#[trigger] top_entries(p, defs[k].kind), seq![c.name.sym]),
    ensures
        key_maps_to(archive_entries(defs, a, p), seq![c.name.sym], class_head(c, p)),
    decreases defs.len(),
{
    let x = seq![c.name.sym];
    if defs.len() > 0 {
        let n = defs.len() - 1;
        let before = archive_entries(defs.drop_last(), a, p);
        let rest = if defs.last().archive == a { top_entries(p, defs.last().kind) } else { Seq::<Entry>::empty() };
        if j < n {
            assert forall|k: int| 0 <= k < defs.drop_last().len() && k != j && defs.drop_last()[k].archive == a implies !has_key(#[trigger] top_entries(p, defs.drop_last()[k].kind), x) by {
                assert(defs.drop_last()[k] == defs[k]);
            }
            assert(defs.drop_last()[j] == defs[j]);
            lemma_archive_class_entry(defs.drop_last(), a, p, j, c);
            if defs.last().archive == a {
                assert(!has_key(top_entries(p, defs[n].kind), x));
            }
            assert(key_maps_to(rest, x, class_head(c, p)));
        } else {
            lemma_before_no_key(defs.drop_last(), a, p, x);
            let ctx = Seq::<u64>::empty();
            let path = owner_path(crate::structures::OwnerV::Global).push(c.name.text@);
            lemma_class_inners_longer(ctx.push(c.name.sym), crate::structures::OwnerV::Class(path), p, c.inners@);
            assert(path =~= seq![c.name.text@]);
            assert(ctx.push(c.name.sym) =~= x);
            assert(key_maps_to(rest, x, class_head(c, p)));
        }
        lemma_concat_maps_to(before, rest, x, class_head(c, p));
    }
}

/// No declaration of archive `a` among `defs` contributes key `x`.
pub proof fn lemma_before_no_key(defs: Seq<TopLevelDef>, a: int, p: Option<Seq<char>>, x: Seq<u64>)
    requires
        forall|k: int| 0 <= k < defs.len() && defs[k].archive == a ==> !has_key(#[trigger] top_entries(p, defs[k].kind), x),
    ensures
        !has_key(archive_entries(defs, a, p), x),
    decreases defs.len(),
{
    if defs.len() > 0 {
        assert forall|k: int| 0 <= k < defs.drop_last().len() && defs.drop_last()[k].archive == a implies !has_key(#[trigger] top_entries(p, defs.drop_last()[k].kind), x) by {
            assert(defs.drop_last()[k] == defs[k]);
        }
        lemma_before_no_key(defs.drop_last(), a, p, x);
        let before = archive_entries(defs.drop_last(), a, p);
        let rest = if defs.last().archive == a { top_entries(p, defs.last().kind) } else { Seq::<Entry>::empty() };
        if defs.last().archive == a {
            assert(defs[defs.len() - 1] == defs.last());
        }
        assert forall|i: int| 0 <= i < (before + rest).len() implies (#[trigger] (before + rest)[i]).0 != x by {
            if i < before.len() {
                assert((before + rest)[i] == before[i]);
            } else {
                assert((before + rest)[i] == rest[i - before.len()]);
            }
        }
    }
}

/// Shadowing, as the table builder produces it: when the primary archive
/// declares top-level class `X`, and nothing else in the primary archive is
/// keyed `X`, then `X` maps to the primary archive's class `X` (its name,
/// its page, no link prefix), whatever the dependencies declare under that
/// name, and an unqualified reference to `X` resolves to it.
pub proof fn law_primary_class_shadows(defs: Seq<TopLevelDef>, deps: Seq<Dependency>, j: int, c: ClassDecl)
    requires
        0 <= j < defs.len(),
        defs[j].archive == deps.len(),
        defs[j].kind == TopLevelKind::Class(c),
        forall|k: int| 0 <= k < defs.len() && k != j && defs[k].archive == deps.len() ==> !has_key(#[trigger] top_entries(None, defs[k].kind), seq![c.name.sym]),
    ensures
        ({
            let t = insert_all(Map::empty(), tree_entries(defs, deps));
            let x = seq![c.name.sym];
            &&& t.contains_key(x)
            &&& t[x] == class_head(c, None)
            &&& resolve_spec(t, Seq::empty(), x) == Some(seq![class_head(c, None)])
        }),
{
    let a = deps.len() as int;
    let p = link_prefix_of(deps, a);
    assert(p is None);
    let x = seq![c.name.sym];
    law_primary_shadows(defs, deps, j);
    lemma_archive_entries(defs, a, p, j);
    lemma_archive_class_entry(defs, a, p, j, c);
    let before = entries_upto(defs, deps, deps.len());
    let mine = archive_entries(defs, a, p);
    assert(tree_entries(defs, deps) == before + mine);
    lemma_insert_all_append(Map::empty(), before, mine);
    lemma_insert_all_value(insert_all(Map::empty(), before), mine, x, class_head(c, p));
}

} // verus!

verus! {

/// A list of every position below `n` once names each of them.
pub proof fn lemma_permutation_onto(order: Seq<usize>, n: nat, m: int)
    requires
        crate::document::index_permutation(order, n),
        0 <= m < n,
    ensures
        exists|i: int| 0 <= i < order.len() && order[i] as int == m,
{
    let o = order.map_values(|k: usize| k as int);
    assert(o.no_duplicates()) by {
        assert forall|a: int, b: int| 0 <= a < o.len() && 0 <= b < o.len() && a != b implies o[a] != o[b] by {
            if a < b {
                assert(order[a] != order[b]);
            } else {
                assert(order[b] != order[a]);
            }
        }
    }
    o.unique_seq_to_set();
    let r = vstd::set_lib::set_int_range(0, n as int);
    vstd::set_lib::lemma_int_range(0, n as int);
    assert(o.to_set().subset_of(r)) by {
        assert forall|v: int| o.to_set().contains(v) implies r.contains(v) by {
            let i = choose|i: int| 0 <= i < o.len() && o[i] == v;
            assert(order[i] < n);
        }
    }
    vstd::set_lib::lemma_len_subset(o.to_set(), r);
    vstd::set_lib::lemma_subset_equality(o.to_set(), r);
    assert(r.contains(m));
    assert(o.to_set().contains(m));
    let i = choose|i: int| 0 <= i < o.len() && o[i] == m;
    assert(order[i] as int == m);
}

/// A declaration in slot `k` is among the declarations of that slot.
pub proof fn lemma_in_slot_contains(s: Seq<ClassInner>, i: int, k: Slot, in_class: bool)
    requires
        0 <= i < s.len(),
        slot_of(s[i], in_class) == k,
    ensures
        in_slot(s, k, in_class).contains(s[i]),
    decreases s.len(),
{
    let prev = in_slot(s.drop_last(), k, in_class);
    let last = if slot_of(s.last(), in_class) == k { seq![s.last()] } else { Seq::<ClassInner>::empty() };
    if i == s.len() - 1 {
        assert((prev + last)[prev.len() as int] == s[i]);
    } else {
        assert(s.drop_last()[i] == s[i]);
        lemma_in_slot_contains(s.drop_last(), i, k, in_class);
        let q = choose|q: int| 0 <= q < prev.len() && prev[q] == s[i];
        assert((prev + last)[q] == s[i]);
    }
}

/// Override chain, on the assembled page: every visible override function
/// of a class has its item among the page's overrides, carrying the link
/// that the ancestor walk gives (the virtual `Base.f`, or none).
pub proof fn law_class_override_item(
    it: crate::structures::Class,
    c: ClassDecl,
    name: Seq<char>,
    ctx: Seq<u64>,
    t: Map<Seq<u64>, LinkV>,
    base: Ident,
    defs: Seq<TopLevelDef>,
    m: int,
    f: FunctionDecl,
)
    requires
        crate::document::class_ok(it, c, name, ctx, t, base, defs),
        0 <= m < c.inners@.len(),
        c.inners@[m] == ClassInner::Function(f),
        !is_hidden(f.doc),
        has_flag(f.flags, crate::model::FN_OVERRIDE),
    ensures
        exists|j: int|
            0 <= j < it.overrides@.len() && crate::document::function_ok(
                #[trigger] it.overrides@[j],
                f,
                crate::document::class_env(c, name, ctx, t, base, defs),
            ) && override_target(defs, c, f) == Some(crate::document::link_opt(it.overrides@[j].overrides)),
{
    let env = crate::document::class_env(c, name, ctx, t, base, defs);
    let order = choose|order: Seq<usize>| {
        &&& #[trigger] crate::document::span_sorted_order(c.inners@, order)
        &&& crate::document::overrides_ok(it.overrides@, in_slot(crate::document::reorder(c.inners@, order), Slot::Overrides, true), env, c)
        &&& crate::document::fns_ok(it.public.functions@, in_slot(crate::document::reorder(c.inners@, order), Slot::PublicFn, true), env)
        &&& crate::document::fns_ok(it.protected.functions@, in_slot(crate::document::reorder(c.inners@, order), Slot::ProtectedFn, true), env)
        &&& crate::document::fns_ok(it.private.functions@, in_slot(crate::document::reorder(c.inners@, order), Slot::PrivateFn, true), env)
        &&& crate::document::vars_ok(it.public.variables@, in_slot(crate::document::reorder(c.inners@, order), Slot::PublicVar, true), env)
        &&& crate::document::vars_ok(it.protected.variables@, in_slot(crate::document::reorder(c.inners@, order), Slot::ProtectedVar, true), env)
        &&& crate::document::vars_ok(it.private.variables@, in_slot(crate::document::reorder(c.inners@, order), Slot::PrivateVar, true), env)
        &&& crate::document::structs_by_name(it.inner_structs@, in_slot(crate::document::reorder(c.inners@, order), Slot::InnerStruct, true), env)
        &&& crate::document::enums_by_name(it.inner_enums@, in_slot(crate::document::reorder(c.inners@, order), Slot::InnerEnum, true), env)
        &&& crate::document::consts_ok(it.constants@, in_slot(crate::document::reorder(c.inners@, order), Slot::Constant, true), env)
        &&& crate::document::props_ok(it.properties@, in_slot(crate::document::reorder(c.inners@, order), Slot::Property, true), env)
        &&& crate::document::flags_ok(it.flags@, in_slot(crate::document::reorder(c.inners@, order), Slot::Flag, true), env)
    };
    lemma_permutation_onto(order, c.inners@.len(), m);
    let i = choose|i: int| 0 <= i < order.len() && order[i] as int == m;
    let s = crate::document::reorder(c.inners@, order);
    assert(s[i] == c.inners@[m]);
    assert(slot_of(s[i], true) == Slot::Overrides);
    lemma_in_slot_contains(s, i, Slot::Overrides, true);
    let d = in_slot(s, Slot::Overrides, true);
    let q = choose|q: int| 0 <= q < d.len() && d[q] == s[i];
    assert(match d[q] {
        ClassInner::Function(g) => crate::document::function_ok(it.overrides@[q], g, env) && override_target(env.defs, c, g) == Some(crate::document::link_opt(it.overrides@[q].overrides)),
        _ => false,
    });
}

/// A hidden top-level declaration is in no list of the documentation.
pub proof fn law_top_hidden_excluded(defs: Seq<TopLevelDef>, a: int, k: crate::document::TopSlot, d: TopLevelKind)
    requires
        is_hidden(d.doc()),
        k != crate::document::TopSlot::Skip,
    ensures
        !crate::document::top_in_slot(defs, a, k).contains(d),
    decreases defs.len(),
{
    if defs.len() > 0 {
        law_top_hidden_excluded(defs.drop_last(), a, k, d);
        let prev = crate::document::top_in_slot(defs.drop_last(), a, k);
        let last = if crate::document::top_slot(defs.last(), a) == k { seq![defs.last().kind] } else { Seq::<TopLevelKind>::empty() };
        assert forall|i: int| 0 <= i < (prev + last).len() implies (prev + last)[i] != d by {
            if i < prev.len() {
                assert((prev + last)[i] == prev[i]);
            } else {
                assert((prev + last)[i] == defs.last().kind);
            }
        }
    }
}

} // verus!

verus! {

/// Override chain: when `Base`, the class `Derived` extends, declares `f`
/// without `virtual` (or not at all), the search goes on through `Base`'s
/// own ancestors.
pub proof fn law_override_continues(defs: Seq<TopLevelDef>, derived: ClassDecl, base: ClassDecl, f: FunctionDecl)
    requires
        derived.ancestor is Some,
        find_class(defs, derived.ancestor->Some_0.sym) == Some(base),
        match find_function(base.inners@, f.name.sym) {
            Some(g) => !has_flag(g.flags, FN_VIRTUAL),
            None => true,
        },
    ensures
        override_target(defs, derived, f) == override_walk(defs, base, f.name.sym, defs.len() as nat),
{
}

} // verus!

verus! {

/// Every visible class of the primary archive has its page in the
/// documentation tree.
pub proof fn law_class_page_present(
    classes: Seq<crate::structures::Class>,
    defs: Seq<TopLevelDef>,
    a: int,
    t: Map<Seq<u64>, LinkV>,
    base: Ident,
    q: int,
    c: ClassDecl,
)
    requires
        crate::document::sorted_items_of(classes, crate::document::top_in_slot(defs, a, crate::document::TopSlot::Class), |it: crate::structures::Class, k: TopLevelKind| crate::document::top_class_ok(it, k, t, base, defs)),
        0 <= q < crate::document::top_in_slot(defs, a, crate::document::TopSlot::Class).len(),
        crate::document::top_in_slot(defs, a, crate::document::TopSlot::Class)[q] == TopLevelKind::Class(c),
    ensures
        exists|k: int| 0 <= k < classes.len() && crate::document::class_ok(#[trigger] classes[k], c, c.name.text@, Seq::empty(), t, base, defs),
{
    broadcast use vstd::seq_lib::group_to_multiset_ensures;

    let dc = crate::document::top_in_slot(defs, a, crate::document::TopSlot::Class);
    let fc = |it: crate::structures::Class, k: TopLevelKind| crate::document::top_class_ok(it, k, t, base, defs);
    let pre = choose|pre: Seq<crate::structures::Class>| #[trigger] pre.to_multiset() == classes.to_multiset() && crate::document::pointwise(pre, dc, fc);
    assert(fc(pre[q], dc[q]));
    assert(pre.contains(pre[q]));
    assert(pre.to_multiset().count(pre[q]) > 0);
    assert(classes.contains(pre[q]));
    let k = choose|k: int| 0 <= k < classes.len() && classes[k] == pre[q];
    assert(crate::document::class_ok(classes[k], c, c.name.text@, Seq::empty(), t, base, defs));
}

/// Every visible member variable of a class has its item in the bucket of
/// its visibility on the class's page.
pub proof fn law_class_member_item(
    it: crate::structures::Class,
    c: ClassDecl,
    name: Seq<char>,
    ctx: Seq<u64>,
    t: Map<Seq<u64>, LinkV>,
    base: Ident,
    defs: Seq<TopLevelDef>,
    m: int,
    md: crate::model::MemberDecl,
)
    requires
        crate::document::class_ok(it, c, name, ctx, t, base, defs),
        0 <= m < c.inners@.len(),
        c.inners@[m] == ClassInner::Member(md),
        !is_hidden(md.doc),
    ensures
        has_flag(md.flags, crate::model::MEMBER_PRIVATE) ==> exists|j: int|
            0 <= j < it.private.variables@.len() && crate::document::member_ok(#[trigger] it.private.variables@[j], md, crate::document::class_env(c, name, ctx, t, base, defs)),
        !has_flag(md.flags, crate::model::MEMBER_PRIVATE) && has_flag(md.flags, crate::model::MEMBER_PROTECTED) ==> exists|j: int|
            0 <= j < it.protected.variables@.len() && crate::document::member_ok(#[trigger] it.protected.variables@[j], md, crate::document::class_env(c, name, ctx, t, base, defs)),
        !has_flag(md.flags, crate::model::MEMBER_PRIVATE) && !has_flag(md.flags, crate::model::MEMBER_PROTECTED) ==> exists|j: int|
            0 <= j < it.public.variables@.len() && crate::document::member_ok(#[trigger] it.public.variables@[j], md, crate::document::class_env(c, name, ctx, t, base, defs)),
{
    let env = crate::document::class_env(c, name, ctx, t, base, defs);
    let order = choose|order: Seq<usize>| {
        &&& #[trigger] crate::document::span_sorted_order(c.inners@, order)
        &&& crate::document::overrides_ok(it.overrides@, in_slot(crate::document::reorder(c.inners@, order), Slot::Overrides, true), env, c)
        &&& crate::document::fns_ok(it.public.functions@, in_slot(crate::document::reorder(c.inners@, order), Slot::PublicFn, true), env)
        &&& crate::document::fns_ok(it.protected.functions@, in_slot(crate::document::reorder(c.inners@, order), Slot::ProtectedFn, true), env)
        &&& crate::document::fns_ok(it.private.functions@, in_slot(crate::document::reorder(c.inners@, order), Slot::PrivateFn, true), env)
        &&& crate::document::vars_ok(it.public.variables@, in_slot(crate::document::reorder(c.inners@, order), Slot::PublicVar, true), env)
        &&& crate::document::vars_ok(it.protected.variables@, in_slot(crate::document::reorder(c.inners@, order), Slot::ProtectedVar, true), env)
        &&& crate::document::vars_ok(it.private.variables@, in_slot(crate::document::reorder(c.inners@, order), Slot::PrivateVar, true), env)
        &&& crate::document::structs_by_name(it.inner_structs@, in_slot(crate::document::reorder(c.inners@, order), Slot::InnerStruct, true), env)
        &&& crate::document::enums_by_name(it.inner_enums@, in_slot(crate::document::reorder(c.inners@, order), Slot::InnerEnum, true), env)
        &&& crate::document::consts_ok(it.constants@, in_slot(crate::document::reorder(c.inners@, order), Slot::Constant, true), env)
        &&& crate::document::props_ok(it.properties@, in_slot(crate::document::reorder(c.inners@, order), Slot::Property, true), env)
        &&& crate::document::flags_ok(it.flags@, in_slot(crate::document::reorder(c.inners@, order), Slot::Flag, true), env)
    };
    lemma_permutation_onto(order, c.inners@.len(), m);
    let i = choose|i: int| 0 <= i < order.len() && order[i] as int == m;
    let s = crate::document::reorder(c.inners@, order);
    assert(s[i] == c.inners@[m]);
    let k = slot_of(s[i], true);
    lemma_in_slot_contains(s, i, k, true);
    let d = in_slot(s, k, true);
    let q = choose|q: int| 0 <= q < d.len() && d[q] == s[i];
    if has_flag(md.flags, crate::model::MEMBER_PRIVATE) {
        assert(crate::document::member_ok(it.private.variables@[q], md, env));
    } else if has_flag(md.flags, crate::model::MEMBER_PROTECTED) {
        assert(crate::document::member_ok(it.protected.variables@[q], md, env));
    } else {
        assert(crate::document::member_ok(it.public.variables@[q], md, env));
    }
}

} // verus!

verus! {

/// An unresolvable type name on the assembled page: a visible public member
/// whose type is a name declared in no enclosing scope has its item on the
/// class's page, and that type is rendered as the name's plain spelling.
pub proof fn law_unresolved_member_on_page(
    it: crate::structures::Class,
    c: ClassDecl,
    name: Seq<char>,
    ctx: Seq<u64>,
    t: Map<Seq<u64>, LinkV>,
    base: Ident,
    defs: Seq<TopLevelDef>,
    m: int,
    md: crate::model::MemberDecl,
    u: Ident,
)
    requires
        crate::document::class_ok(it, c, name, ctx, t, base, defs),
        0 <= m < c.inners@.len(),
        c.inners@[m] == ClassInner::Member(md),
        !is_hidden(md.doc),
        !has_flag(md.flags, crate::model::MEMBER_PRIVATE),
        !has_flag(md.flags, crate::model::MEMBER_PROTECTED),
        md.ty == TypeRef::Single(u),
        forall|k: int| 0 <= k <= ctx.len() + 1 ==> !#[trigger] t.contains_key(ctx.push(c.name.sym).take(k).push(u.sym)),
    ensures
        exists|j: int| 0 <= j < it.public.variables@.len() && crate::document::member_ok(#[trigger] it.public.variables@[j], md, crate::document::class_env(c, name, ctx, t, base, defs)),
        type_tokens(t, ctx.push(c.name.sym), md.ty, base) == seq![text(u.text@)],
{
    law_class_member_item(it, c, name, ctx, t, base, defs, m, md);
    let cc = ctx.push(c.name.sym);
    assert forall|k: int| 0 <= k <= cc.len() implies !#[trigger] t.contains_key(cc.take(k).push(u.sym)) by {
        assert(!t.contains_key(ctx.push(c.name.sym).take(k).push(u.sym)));
    }
    law_unresolved_type_is_text(t, cc, u, base);
}

} // verus!

verus! {

/// The spans of a list of declarations.
pub open spec fn decl_spans(s: Seq<ClassInner>) -> Seq<crate::model::SourceSpan> {
    s.map_values(|x: ClassInner| x.span())
}

/// Picking out the declarations of one slot keeps source order.
pub proof fn lemma_in_slot_sorted(s: Seq<ClassInner>, k: Slot, in_class: bool)
    requires
        spans_sorted(decl_spans(s)),
    ensures
        spans_sorted(decl_spans(in_slot(s, k, in_class))),
        forall|q: int| 0 <= q < in_slot(s, k, in_class).len() ==> s.contains(#[trigger] in_slot(s, k, in_class)[q]),
    decreases s.len(),
{
    if s.len() > 0 {
        let s1 = s.drop_last();
        assert(spans_sorted(decl_spans(s1))) by {
            assert forall|i: int, j: int| 0 <= i < j < decl_spans(s1).len() implies span_le(#[trigger] decl_spans(s1)[i], #[trigger] decl_spans(s1)[j]) by {
                assert(decl_spans(s)[i] == decl_spans(s1)[i]);
                assert(decl_spans(s)[j] == decl_spans(s1)[j]);
            }
        }
        lemma_in_slot_sorted(s1, k, in_class);
        let prev = in_slot(s1, k, in_class);
        let last = if slot_of(s.last(), in_class) == k { seq![s.last()] } else { Seq::<ClassInner>::empty() };
        let all = prev + last;
        assert forall|q: int| 0 <= q < all.len() implies s.contains(#[trigger] all[q]) by {
            if q < prev.len() {
                assert(all[q] == prev[q]);
                let w = choose|w: int| 0 <= w < s1.len() && s1[w] == prev[q];
                assert(s[w] == s1[w]);
            } else {
                assert(all[q] == s[s.len() - 1]);
            }
        }
        assert forall|i: int, j: int| 0 <= i < j < decl_spans(all).len() implies span_le(#[trigger] decl_spans(all)[i], #[trigger] decl_spans(all)[j]) by {
            if j < prev.len() {
                assert(all[i] == prev[i]);
                assert(all[j] == prev[j]);
                assert(span_le(decl_spans(prev)[i], decl_spans(prev)[j]));
            } else {
                assert(all[i] == prev[i]);
                let w = choose|w: int| 0 <= w < s1.len() && s1[w] == prev[i];
                assert(span_le(decl_spans(s)[w], decl_spans(s)[s.len() - 1]));
                assert(all[j] == s[s.len() - 1]);
            }
        }
    }
}

/// The positions of a reordering that follows source order.
pub proof fn lemma_reorder_sorted(s: Seq<ClassInner>, order: Seq<usize>)
    requires
        crate::document::span_sorted_order(s, order),
    ensures
        spans_sorted(decl_spans(crate::document::reorder(s, order))),
{
    let r = crate::document::reorder(s, order);
    assert forall|i: int, j: int| 0 <= i < j < decl_spans(r).len() implies span_le(#[trigger] decl_spans(r)[i], #[trigger] decl_spans(r)[j]) by {
        assert(span_le(s[order[i] as int].span(), s[order[j] as int].span()));
    }
}

pub open spec fn fn_spans(v: Seq<Function>) -> Seq<crate::model::SourceSpan> {
    v.map_values(|x: Function| x.span)
}

pub open spec fn var_spans(v: Seq<crate::structures::MemberVariable>) -> Seq<crate::model::SourceSpan> {
    v.map_values(|x: crate::structures::MemberVariable| x.span)
}

pub proof fn lemma_fn_spans(items: Seq<Function>, decls: Seq<ClassInner>, env: crate::document::Env, c: ClassDecl, over: bool)
    requires
        over ==> crate::document::overrides_ok(items, decls, env, c),
        !over ==> crate::document::fns_ok(items, decls, env),
    ensures
        fn_spans(items) == decl_spans(decls),
{
    assert forall|j: int| 0 <= j < items.len() implies #[trigger] fn_spans(items)[j] == decl_spans(decls)[j] by {
        match decls[j] {
            ClassInner::Function(f) => {},
            _ => {},
        }
    }
    assert(fn_spans(items) =~= decl_spans(decls));
}

pub proof fn lemma_var_spans(items: Seq<crate::structures::MemberVariable>, decls: Seq<ClassInner>, env: crate::document::Env)
    requires
        crate::document::vars_ok(items, decls, env),
    ensures
        var_spans(items) == decl_spans(decls),
{
    assert forall|j: int| 0 <= j < items.len() implies #[trigger] var_spans(items)[j] == decl_spans(decls)[j] by {
        match decls[j] {
            ClassInner::Member(m) => {},
            _ => {},
        }
    }
    assert(var_spans(items) =~= decl_spans(decls));
}

pub proof fn lemma_const_spans(items: Seq<crate::structures::Constant>, decls: Seq<ClassInner>, env: crate::document::Env)
    requires
        crate::document::consts_ok(items, decls, env),
    ensures
        constant_spans(items) == decl_spans(decls),
{
    assert forall|j: int| 0 <= j < items.len() implies #[trigger] constant_spans(items)[j] == decl_spans(decls)[j] by {
        assert(crate::document::constant_ok(items[j], decls[j], env));
    }
    assert(constant_spans(items) =~= decl_spans(decls));
}

/// Source order on the assembled page: the overrides, the functions and
/// members of each visibility and the constants of a class each follow the
/// source positions of their declarations.
pub proof fn law_class_buckets_in_source_order(
    it: crate::structures::Class,
    c: ClassDecl,
    name: Seq<char>,
    ctx: Seq<u64>,
    t: Map<Seq<u64>, LinkV>,
    base: Ident,
    defs: Seq<TopLevelDef>,
)
    requires
        crate::document::class_ok(it, c, name, ctx, t, base, defs),
    ensures
        spans_sorted(fn_spans(it.overrides@)),
        spans_sorted(fn_spans(it.public.functions@)),
        spans_sorted(fn_spans(it.protected.functions@)),
        spans_sorted(fn_spans(it.private.functions@)),
        spans_sorted(var_spans(it.public.variables@)),
        spans_sorted(var_spans(it.protected.variables@)),
        spans_sorted(var_spans(it.private.variables@)),
        spans_sorted(constant_spans(it.constants@)),
{
    let env = crate::document::class_env(c, name, ctx, t, base, defs);
    let order = choose|order: Seq<usize>| {
        &&& #[trigger] crate::document::span_sorted_order(c.inners@, order)
        &&& crate::document::overrides_ok(it.overrides@, in_slot(crate::document::reorder(c.inners@, order), Slot::Overrides, true), env, c)
        &&& crate::document::fns_ok(it.public.functions@, in_slot(crate::document::reorder(c.inners@, order), Slot::PublicFn, true), env)
        &&& crate::document::fns_ok(it.protected.functions@, in_slot(crate::document::reorder(c.inners@, order), Slot::ProtectedFn, true), env)
        &&& crate::document::fns_ok(it.private.functions@, in_slot(crate::document::reorder(c.inners@, order), Slot::PrivateFn, true), env)
        &&& crate::document::vars_ok(it.public.variables@, in_slot(crate::document::reorder(c.inners@, order), Slot::PublicVar, true), env)
        &&& crate::document::vars_ok(it.protected.variables@, in_slot(crate::document::reorder(c.inners@, order), Slot::ProtectedVar, true), env)
        &&& crate::document::vars_ok(it.private.variables@, in_slot(crate::document::reorder(c.inners@, order), Slot::PrivateVar, true), env)
        &&& crate::document::structs_by_name(it.inner_structs@, in_slot(crate::document::reorder(c.inners@, order), Slot::InnerStruct, true), env)
        &&& crate::document::enums_by_name(it.inner_enums@, in_slot(crate::document::reorder(c.inners@, order), Slot::InnerEnum, true), env)
        &&& crate::document::consts_ok(it.constants@, in_slot(crate::document::reorder(c.inners@, order), Slot::Constant, true), env)
        &&& crate::document::props_ok(it.properties@, in_slot(crate::document::reorder(c.inners@, order), Slot::Property, true), env)
        &&& crate::document::flags_ok(it.flags@, in_slot(crate::document::reorder(c.inners@, order), Slot::Flag, true), env)
    };
    let s = crate::document::reorder(c.inners@, order);
    lemma_reorder_sorted(c.inners@, order);
    lemma_in_slot_sorted(s, Slot::Overrides, true);
    lemma_in_slot_sorted(s, Slot::PublicFn, true);
    lemma_in_slot_sorted(s, Slot::ProtectedFn, true);
    lemma_in_slot_sorted(s, Slot::PrivateFn, true);
    lemma_in_slot_sorted(s, Slot::PublicVar, true);
    lemma_in_slot_sorted(s, Slot::ProtectedVar, true);
    lemma_in_slot_sorted(s, Slot::PrivateVar, true);
    lemma_in_slot_sorted(s, Slot::Constant, true);
    lemma_fn_spans(it.overrides@, in_slot(s, Slot::Overrides, true), env, c, true);
    lemma_fn_spans(it.public.functions@, in_slot(s, Slot::PublicFn, true), env, c, false);
    lemma_fn_spans(it.protected.functions@, in_slot(s, Slot::ProtectedFn, true), env, c, false);
    lemma_fn_spans(it.private.functions@, in_slot(s, Slot::PrivateFn, true), env, c, false);
    lemma_var_spans(it.public.variables@, in_slot(s, Slot::PublicVar, true), env);
    lemma_var_spans(it.protected.variables@, in_slot(s, Slot::ProtectedVar, true), env);
    lemma_var_spans(it.private.variables@, in_slot(s, Slot::PrivateVar, true), env);
    lemma_const_spans(it.constants@, in_slot(s, Slot::Constant, true), env);
}

} // verus!

verus! {

/// `it` is the item of one of `decls` other than `d`.
pub open spec fn built_from_other<T>(it: T, decls: Seq<TopLevelKind>, ok: spec_fn(T, TopLevelKind) -> bool, d: TopLevelKind) -> bool {
    exists|j: int| 0 <= j < decls.len() && #[trigger] ok(it, decls[j]) && decls[j] != d
}

/// Hidden-doc suppression in the documentation tree: every item of a
/// top-level list (classes, structs, enums or constants) is built from a
/// declaration other than any hidden one.
pub proof fn law_tree_items_not_hidden<T: SortKey>(
    items: Seq<T>,
    defs: Seq<TopLevelDef>,
    a: int,
    k: crate::document::TopSlot,
    ok: spec_fn(T, TopLevelKind) -> bool,
    d: TopLevelKind,
)
    requires
        crate::document::sorted_items_of(items, crate::document::top_in_slot(defs, a, k), ok),
        is_hidden(d.doc()),
        k != crate::document::TopSlot::Skip,
    ensures
        forall|q: int| 0 <= q < items.len() ==> #[trigger] built_from_other(items[q], crate::document::top_in_slot(defs, a, k), ok, d),
{
    let decls = crate::document::top_in_slot(defs, a, k);
    law_top_hidden_excluded(defs, a, k, d);
    assert forall|q: int| 0 <= q < items.len() implies #[trigger] built_from_other(items[q], decls, ok, d) by {
        assert(crate::document::has_decl(items[q], decls, ok));
        let j = choose|j: int| 0 <= j < decls.len() && #[trigger] ok(items[q], decls[j]);
        assert(decls.contains(decls[j]));
    }
}

} // verus!
