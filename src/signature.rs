//! Reconstruction of declarations as lists of plain and linked fragments.
//! Type names are resolved through the symbol table; a name that does not
//! resolve stays plain text in its source spelling.
use vstd::prelude::*;
use crate::item::{links_view, resolve_spec, ItemProvider};
use crate::model::{
    has_flag, ConstDecl, EnumVariantDecl, FlagDecl, FunctionDecl, Ident, MemberDecl, ParamDecl,
    PropertyDecl, StaticConstArrayDecl, TypeRef, FN_ABSTRACT, FN_CLEAR_SCOPE, FN_FINAL, FN_NATIVE,
    FN_OVERRIDE, FN_PLAY, FN_PRIVATE, FN_PROTECTED, FN_STATIC, FN_TRANSIENT, FN_UI, FN_VAR_ARG,
    FN_VIRTUAL, FN_VIRTUAL_SCOPE, MEMBER_CLEAR_SCOPE, MEMBER_INTERNAL, MEMBER_META, MEMBER_NATIVE,
    MEMBER_PLAY, MEMBER_PRIVATE, MEMBER_PROTECTED, MEMBER_READ_ONLY, MEMBER_TRANSIENT, MEMBER_UI,
    MEMBER_VAR_ARG, PARAM_IN, PARAM_OPTIONAL, PARAM_OUT,
};
use crate::structures::{
    emit_all, lemma_emit_all_append, lemma_emit_all_one, KindV, LinkV, LinkedSection,
    LinkedSectionKind, Owner, OwnerV, SectionV, SourceCodeWithLinks,
};

verus! {

pub open spec fn text(s: Seq<char>) -> SectionV {
    SectionV::Text(s)
}

/// A keyword and a space when `bit` is set in `flags`, else nothing.
pub open spec fn keyword(flags: u32, bit: u32, word: Seq<char>) -> Seq<SectionV> {
    if has_flag(flags, bit) {
        seq![text(word), text(" "@)]
    } else {
        Seq::empty()
    }
}

fn add_text(src: &mut SourceCodeWithLinks, t: &str)
    ensures
        final(src)@ == emit_all(old(src)@, seq![text(t@)]),
{
    let ghost s0 = src@;
    src.add_no_link(t);
    proof {
        lemma_emit_all_one(s0, text(t@));
    }
}

fn add_string(src: &mut SourceCodeWithLinks, t: &String)
    ensures
        final(src)@ == emit_all(old(src)@, seq![text(t@)]),
{
    add_text(src, t.as_str());
}

fn add_one(src: &mut SourceCodeWithLinks, l: LinkedSection)
    ensures
        final(src)@ == emit_all(old(src)@, seq![SectionV::Link(l@)]),
{
    let ghost s0 = src@;
    let ghost lv = l@;
    src.add_link(l);
    proof {
        lemma_emit_all_one(s0, SectionV::Link(lv));
    }
}

fn add_indent(src: &mut SourceCodeWithLinks)
    ensures
        final(src)@ == emit_all(old(src)@, seq![SectionV::NewlineIndent]),
{
    let ghost s0 = src@;
    src.add_newline_indent();
    proof {
        lemma_emit_all_one(s0, SectionV::NewlineIndent);
    }
}

fn add_no_indent(src: &mut SourceCodeWithLinks)
    ensures
        final(src)@ == emit_all(old(src)@, seq![SectionV::NewlineOnly]),
{
    let ghost s0 = src@;
    src.add_newline_no_indent();
    proof {
        lemma_emit_all_one(s0, SectionV::NewlineOnly);
    }
}

/// The separator between two list elements that a wrapped rendering puts on
/// separate indented lines.
pub open spec fn break_sep() -> Seq<SectionV> {
    seq![text(","@), SectionV::NewlineIndent, SectionV::Spacing]
}

fn add_break_sep(src: &mut SourceCodeWithLinks)
    ensures
        final(src)@ == emit_all(old(src)@, break_sep()),
{
    let ghost s0 = src@;
    add_text(src, ",");
    let ghost s1 = src@;
    src.add_newline_indent_or_spacing();
    proof {
        lemma_emit_all_one(s1, SectionV::NewlineIndent);
        lemma_emit_all_one(emit_all(s1, seq![SectionV::NewlineIndent]), SectionV::Spacing);
        lemma_emit_all_append(s1, seq![SectionV::NewlineIndent], seq![SectionV::Spacing]);
        assert(seq![SectionV::NewlineIndent] + seq![SectionV::Spacing] =~= seq![SectionV::NewlineIndent, SectionV::Spacing]);
        lemma_emit_all_append(s0, seq![text(","@)], seq![SectionV::NewlineIndent, SectionV::Spacing]);
        assert(seq![text(","@)] + seq![SectionV::NewlineIndent, SectionV::Spacing] =~= break_sep());
    }
}

fn add_keyword(src: &mut SourceCodeWithLinks, flags: u32, bit: u32, word: &str)
    ensures
        final(src)@ == emit_all(old(src)@, keyword(flags, bit, word@)),
{
    let ghost s0 = src@;
    if flags & bit != 0 {
        add_text(src, word);
        add_text(src, " ");
        proof {
            lemma_emit_all_append(s0, seq![text(word@)], seq![text(" "@)]);
            assert(seq![text(word@)] + seq![text(" "@)] =~= keyword(flags, bit, word@));
        }
    } else {
        assert(emit_all(s0, Seq::<SectionV>::empty()) == s0);
    }
}

/// The links of a resolved chain, separated by dots.
pub open spec fn join_links(links: Seq<LinkV>) -> Seq<SectionV>
    decreases links.len(),
{
    if links.len() == 0 {
        Seq::empty()
    } else if links.len() == 1 {
        seq![SectionV::Link(links[0])]
    } else {
        join_links(links.drop_last()) + seq![text("."@), SectionV::Link(links.last())]
    }
}

/// The interned identities of a list of identifiers.
pub open spec fn syms(ids: Seq<Ident>) -> Seq<u64> {
    ids.map_values(|i: Ident| i.sym)
}

/// A chain as it is rendered: the links of its segments when it resolves
/// from `ctx` (after a leading dot, when asked for, if it has more than one
/// segment), else `fallback` as plain text.
pub open spec fn chain_tokens(
    t: Map<Seq<u64>, LinkV>,
    ctx: Seq<u64>,
    chain: Seq<u64>,
    fallback: Seq<char>,
    dot_prefix: bool,
) -> Seq<SectionV> {
    if chain.len() == 0 {
        seq![text(fallback)]
    } else {
        match resolve_spec(t, ctx, chain) {
            Some(links) => (if dot_prefix && links.len() > 1 {
                seq![text("."@)]
            } else {
                Seq::empty()
            }) + join_links(links),
            None => seq![text(fallback)],
        }
    }
}

fn syms_of(ids: &Vec<Ident>) -> (r: Vec<u64>)
    ensures
        r@ == syms(ids@),
{
    let mut r: Vec<u64> = Vec::new();
    let mut i: usize = 0;
    while i < ids.len()
        invariant
            i <= ids@.len(),
            r@ == syms(ids@.take(i as int)),
        decreases ids.len() - i,
    {
        r.push(ids[i].sym);
        i += 1;
        assert(r@ =~= syms(ids@.take(i as int)));
    }
    assert(ids@.take(ids@.len() as int) =~= ids@);
    r
}

fn add_links(src: &mut SourceCodeWithLinks, links: Vec<LinkedSection>)
    ensures
        final(src)@ == emit_all(old(src)@, join_links(links_view(links@))),
{
    let ghost s0 = src@;
    let ghost lv = links_view(links@);
    let mut i: usize = 0;
    assert(lv.take(0) =~= Seq::<LinkV>::empty());
    while i < links.len()
        invariant
            i <= links@.len(),
            lv == links_view(links@),
            src@ == emit_all(s0, join_links(lv.take(i as int))),
        decreases links.len() - i,
    {
        let ghost before = join_links(lv.take(i as int));
        assert(lv.take(i + 1).drop_last() =~= lv.take(i as int));
        if i == 0 {
            add_one(src, links[i].duplicate());
            proof {
                lemma_emit_all_append(s0, before, seq![SectionV::Link(lv[0])]);
                assert(before + seq![SectionV::Link(lv[0])] =~= join_links(lv.take(1)));
            }
        } else {
            let ghost mid = seq![text("."@)];
            add_text(src, ".");
            add_one(src, links[i].duplicate());
            proof {
                lemma_emit_all_append(s0, before, mid);
                lemma_emit_all_append(s0, before + mid, seq![SectionV::Link(lv[i as int])]);
                assert(before + mid + seq![SectionV::Link(lv[i as int])] =~= join_links(lv.take(i + 1)));
            }
        }
        i += 1;
    }
    assert(lv.take(lv.len() as int) =~= lv);
}

/// Appends the links of `chain` as resolved from `context`, or `fallback`
/// when it does not resolve.
pub fn add_type_if_possible(
    fallback: &str,
    chain: &[u64],
    item_provider: &ItemProvider,
    context: &[u64],
    prefix_dot_if_long_chain: bool,
    source: &mut SourceCodeWithLinks,
)
    requires
        item_provider.wf(),
    ensures
        final(source)@ == emit_all(
            old(source)@,
            chain_tokens(item_provider@, context@, chain@, fallback@, prefix_dot_if_long_chain),
        ),
{
    if chain.len() == 0 {
        add_text(source, fallback);
        return ;
    }
    match item_provider.resolve(context, chain) {
        Some(links) => {
            let ghost s0 = source@;
            let ghost lv = links_view(links@);
            if prefix_dot_if_long_chain && links.len() > 1 {
                add_text(source, ".");
                add_links(source, links);
                proof {
                    lemma_emit_all_append(s0, seq![text("."@)], join_links(lv));
                }
            } else {
                add_links(source, links);
                assert(Seq::<SectionV>::empty() + join_links(lv) =~= join_links(lv));
            }
        },
        None => {
            add_text(source, fallback);
        },
    }
}

/// The source spelling of an array size, in brackets.
pub open spec fn size_text(s: Option<String>) -> Seq<char> {
    "["@ + match s {
        Some(x) => x@,
        None => Seq::empty(),
    } + "]"@
}

/// A type annotation as fragments.
pub open spec fn type_tokens(t: Map<Seq<u64>, LinkV>, ctx: Seq<u64>, ty: TypeRef, base: Ident) -> Seq<SectionV>
    decreases ty, 0nat,
{
    match ty {
        TypeRef::Single(id) => chain_tokens(t, ctx, seq![id.sym], id.text@, true),
        TypeRef::Dotted(ids, s) => chain_tokens(t, ctx, syms(ids@), s@, true),
        TypeRef::Native(id) => seq![text("@"@)] + chain_tokens(t, ctx, seq![id.sym], id.text@, true),
        TypeRef::ReadOnly(id) => seq![text("ReadOnly< "@)] + chain_tokens(t, ctx, seq![id.sym], id.text@, true)
            + seq![text(" >"@)],
        TypeRef::ReadOnlyNative(id) => seq![text("ReadOnly< @"@)] + chain_tokens(t, ctx, seq![id.sym], id.text@, true)
            + seq![text(" >"@)],
        TypeRef::ClassOf(c) => seq![text("Class< "@)] + match c {
            Some(p) => chain_tokens(t, ctx, syms(p.0@), p.1@, false),
            None => chain_tokens(t, ctx, seq![base.sym], base.text@, false),
        } + seq![text(" >"@)],
        TypeRef::MapOf(k, v) => seq![text("Map< "@)] + type_tokens(t, ctx, *k, base) + seq![text(", "@)]
            + type_tokens(t, ctx, *v, base) + seq![text(" >"@)],
        TypeRef::Array(e, s) => array_tokens(t, ctx, *e, seq![size_text(s)], base),
        TypeRef::DynArray(d) => seq![text("Array< "@)] + type_tokens(t, ctx, *d, base) + seq![text(" >"@)],
        TypeRef::Let => seq![text("let"@)],
        TypeRef::Error => seq![text("{unknown}"@)],
    }
}

/// A fixed array in source order: the innermost element type, then each
/// size from the outermost array inwards.
pub open spec fn array_tokens(
    t: Map<Seq<u64>, LinkV>,
    ctx: Seq<u64>,
    elem: TypeRef,
    sizes: Seq<Seq<char>>,
    base: Ident,
) -> Seq<SectionV>
    decreases elem, 1nat,
{
    match elem {
        TypeRef::Array(e, s) => array_tokens(t, ctx, *e, sizes.push(size_text(s)), base),
        _ => type_tokens(t, ctx, elem, base) + sizes.map_values(|x: Seq<char>| text(x)),
    }
}

fn bracketed_size(s: &Option<String>) -> (r: String)
    ensures
        r@ == size_text(*s),
{
    let mut r = "[".to_string();
    match s {
        Some(x) => r.append(x.as_str()),
        None => {},
    }
    r.append("]");
    proof {
        match s {
            Some(x) => {},
            None => {
                assert("["@ + Seq::<char>::empty() =~= "["@);
            },
        }
    }
    r
}

fn add_single(id: &Ident, tbl: &ItemProvider, ctx: &[u64], src: &mut SourceCodeWithLinks)
    requires
        tbl.wf(),
    ensures
        final(src)@ == emit_all(old(src)@, chain_tokens(tbl@, ctx@, seq![id.sym], id.text@, true)),
{
    let mut chain: Vec<u64> = Vec::new();
    chain.push(id.sym);
    assert(chain@ =~= seq![id.sym]);
    add_type_if_possible(id.text.as_str(), chain.as_slice(), tbl, ctx, true, src);
}

/// Appends the fragments of a type annotation.
pub fn add_type_to_source(
    ty: &TypeRef,
    item_provider: &ItemProvider,
    context: &[u64],
    base: &Ident,
    source: &mut SourceCodeWithLinks,
)
    requires
        item_provider.wf(),
    ensures
        final(source)@ == emit_all(old(source)@, type_tokens(item_provider@, context@, *ty, *base)),
    decreases ty, 0nat,
{
    let ghost t = item_provider@;
    let ghost c = context@;
    let ghost s0 = source@;
    match ty {
        TypeRef::Single(id) => add_single(id, item_provider, context, source),
        TypeRef::Dotted(ids, s) => {
            let chain = syms_of(ids);
            add_type_if_possible(s.as_str(), chain.as_slice(), item_provider, context, true, source);
        },
        TypeRef::Native(id) => {
            add_text(source, "@");
            add_single(id, item_provider, context, source);
            proof {
                lemma_emit_all_append(s0, seq![text("@"@)], chain_tokens(t, c, seq![id.sym], id.text@, true));
            }
        },
        TypeRef::ReadOnly(id) => {
            add_text(source, "ReadOnly< ");
            add_single(id, item_provider, context, source);
            add_text(source, " >");
            proof {
                let a = seq![text("ReadOnly< "@)];
                let b = chain_tokens(t, c, seq![id.sym], id.text@, true);
                lemma_emit_all_append(s0, a, b);
                lemma_emit_all_append(s0, a + b, seq![text(" >"@)]);
            }
        },
        TypeRef::ReadOnlyNative(id) => {
            add_text(source, "ReadOnly< @");
            add_single(id, item_provider, context, source);
            add_text(source, " >");
            proof {
                let a = seq![text("ReadOnly< @"@)];
                let b = chain_tokens(t, c, seq![id.sym], id.text@, true);
                lemma_emit_all_append(s0, a, b);
                lemma_emit_all_append(s0, a + b, seq![text(" >"@)]);
            }
        },
        TypeRef::ClassOf(cl) => {
            add_text(source, "Class< ");
            let ghost b = match cl {
                Some(p) => chain_tokens(t, c, syms(p.0@), p.1@, false),
                None => chain_tokens(t, c, seq![base.sym], base.text@, false),
            };
            match cl {
                Some(p) => {
                    let chain = syms_of(&p.0);
                    add_type_if_possible(p.1.as_str(), chain.as_slice(), item_provider, context, false, source);
                },
                None => {
                    let mut chain: Vec<u64> = Vec::new();
                    chain.push(base.sym);
                    assert(chain@ =~= seq![base.sym]);
                    add_type_if_possible(base.text.as_str(), chain.as_slice(), item_provider, context, false, source);
                },
            }
            add_text(source, " >");
            proof {
                let a = seq![text("Class< "@)];
                lemma_emit_all_append(s0, a, b);
                lemma_emit_all_append(s0, a + b, seq![text(" >"@)]);
            }
        },
        TypeRef::MapOf(k, v) => {
            add_text(source, "Map< ");
            add_type_to_source(k, item_provider, context, base, source);
            add_text(source, ", ");
            add_type_to_source(v, item_provider, context, base, source);
            add_text(source, " >");
            proof {
                let a = seq![text("Map< "@)];
                let b = type_tokens(t, c, **k, *base);
                let d = seq![text(", "@)];
                let e = type_tokens(t, c, **v, *base);
                let f = seq![text(" >"@)];
                lemma_emit_all_append(s0, a, b);
                lemma_emit_all_append(s0, a + b, d);
                lemma_emit_all_append(s0, a + b + d, e);
                lemma_emit_all_append(s0, a + b + d + e, f);
            }
        },
        TypeRef::Array(e, s) => {
            let mut sizes: Vec<String> = Vec::new();
            sizes.push(bracketed_size(s));
            assert(sizes@.map_values(|x: String| x@) =~= seq![size_text(*s)]);
            add_array_type(e, sizes, item_provider, context, base, source);
        },
        TypeRef::DynArray(d) => {
            add_text(source, "Array< ");
            add_type_to_source(d, item_provider, context, base, source);
            add_text(source, " >");
            proof {
                let a = seq![text("Array< "@)];
                let b = type_tokens(t, c, **d, *base);
                lemma_emit_all_append(s0, a, b);
                lemma_emit_all_append(s0, a + b, seq![text(" >"@)]);
            }
        },
        TypeRef::Let => add_text(source, "let"),
        TypeRef::Error => add_text(source, "{unknown}"),
    }
}

fn add_array_type(
    elem: &TypeRef,
    sizes: Vec<String>,
    item_provider: &ItemProvider,
    context: &[u64],
    base: &Ident,
    source: &mut SourceCodeWithLinks,
)
    requires
        item_provider.wf(),
    ensures
        final(source)@ == emit_all(
            old(source)@,
            array_tokens(item_provider@, context@, *elem, sizes@.map_values(|x: String| x@), *base),
        ),
    decreases elem, 1nat,
{
    let ghost sv = sizes@.map_values(|x: String| x@);
    match elem {
        TypeRef::Array(e, s) => {
            let mut sizes = sizes;
            sizes.push(bracketed_size(s));
            assert(sizes@.map_values(|x: String| x@) =~= sv.push(size_text(*s)));
            add_array_type(e, sizes, item_provider, context, base, source);
        },
        _ => {
            let ghost s0 = source@;
            let ghost a = type_tokens(item_provider@, context@, *elem, *base);
            add_type_to_source(elem, item_provider, context, base, source);
            let mut i: usize = 0;
            assert(a + sv.take(0).map_values(|x: Seq<char>| text(x)) =~= a);
            while i < sizes.len()
                invariant
                    i <= sizes@.len(),
                    sv == sizes@.map_values(|x: String| x@),
                    source@ == emit_all(s0, a + sv.take(i as int).map_values(|x: Seq<char>| text(x))),
                decreases sizes.len() - i,
            {
                add_string(source, &sizes[i]);
                proof {
                    let done = a + sv.take(i as int).map_values(|x: Seq<char>| text(x));
                    lemma_emit_all_append(s0, done, seq![text(sv[i as int])]);
                    assert(done + seq![text(sv[i as int])] =~= a + sv.take(i + 1).map_values(|x: Seq<char>| text(x)));
                }
                i += 1;
            }
            assert(sv.take(sv.len() as int) =~= sv);
        },
    }
}

/// The keywords of a function's flags, in their fixed order.
pub open spec fn function_flag_tokens(flags: u32) -> Seq<SectionV> {
    keyword(flags, FN_PRIVATE, "private"@)
        + keyword(flags, FN_PROTECTED, "protected"@)
        + keyword(flags, FN_NATIVE, "native"@)
        + keyword(flags, FN_STATIC, "static"@)
        + keyword(flags, FN_VIRTUAL, "virtual"@)
        + keyword(flags, FN_ABSTRACT, "abstract"@)
        + keyword(flags, FN_OVERRIDE, "override"@)
        + keyword(flags, FN_FINAL, "final"@)
        + keyword(flags, FN_VAR_ARG, "vararg"@)
        + keyword(flags, FN_UI, "ui"@)
        + keyword(flags, FN_PLAY, "play"@)
        + keyword(flags, FN_CLEAR_SCOPE, "clearscope"@)
        + keyword(flags, FN_VIRTUAL_SCOPE, "virtualscope"@)
        + keyword(flags, FN_TRANSIENT, "transient"@)
}

/// The keywords of a member variable's flags, in their fixed order.
pub open spec fn member_flag_tokens(flags: u32) -> Seq<SectionV> {
    keyword(flags, MEMBER_NATIVE, "native"@)
        + keyword(flags, MEMBER_PRIVATE, "private"@)
        + keyword(flags, MEMBER_PROTECTED, "protected"@)
        + keyword(flags, MEMBER_TRANSIENT, "transient"@)
        + keyword(flags, MEMBER_READ_ONLY, "readonly"@)
        + keyword(flags, MEMBER_INTERNAL, "internal"@)
        + keyword(flags, MEMBER_VAR_ARG, "vararg"@)
        + keyword(flags, MEMBER_UI, "ui"@)
        + keyword(flags, MEMBER_PLAY, "play"@)
        + keyword(flags, MEMBER_CLEAR_SCOPE, "clearscope"@)
        + keyword(flags, MEMBER_META, "meta"@)
}

/// The keywords of a parameter's flags, in their fixed order.
pub open spec fn param_flag_tokens(flags: u32) -> Seq<SectionV> {
    keyword(flags, PARAM_IN, "in"@)
        + keyword(flags, PARAM_OUT, "out"@)
        + keyword(flags, PARAM_OPTIONAL, "optional"@)
}

/// Appends the keywords of a function's flags.
fn add_function_flags(src: &mut SourceCodeWithLinks, flags: u32)
    ensures
        final(src)@ == emit_all(old(src)@, function_flag_tokens(flags)),
{
    let ghost s0 = src@;
    let ghost mut toks = Seq::<SectionV>::empty();
    add_keyword(src, flags, FN_PRIVATE, "private");
    proof {
        lemma_emit_all_append(s0, toks, keyword(flags, FN_PRIVATE, "private"@));
        toks = toks + keyword(flags, FN_PRIVATE, "private"@);
    }
    add_keyword(src, flags, FN_PROTECTED, "protected");
    proof {
        lemma_emit_all_append(s0, toks, keyword(flags, FN_PROTECTED, "protected"@));
        toks = toks + keyword(flags, FN_PROTECTED, "protected"@);
    }
    add_keyword(src, flags, FN_NATIVE, "native");
    proof {
        lemma_emit_all_append(s0, toks, keyword(flags, FN_NATIVE, "native"@));
        toks = toks + keyword(flags, FN_NATIVE, "native"@);
    }
    add_keyword(src, flags, FN_STATIC, "static");
    proof {
        lemma_emit_all_append(s0, toks, keyword(flags, FN_STATIC, "static"@));
        toks = toks + keyword(flags, FN_STATIC, "static"@);
    }
    add_keyword(src, flags, FN_VIRTUAL, "virtual");
    proof {
        lemma_emit_all_append(s0, toks, keyword(flags, FN_VIRTUAL, "virtual"@));
        toks = toks + keyword(flags, FN_VIRTUAL, "virtual"@);
    }
    add_keyword(src, flags, FN_ABSTRACT, "abstract");
    proof {
        lemma_emit_all_append(s0, toks, keyword(flags, FN_ABSTRACT, "abstract"@));
        toks = toks + keyword(flags, FN_ABSTRACT, "abstract"@);
    }
    add_keyword(src, flags, FN_OVERRIDE, "override");
    proof {
        lemma_emit_all_append(s0, toks, keyword(flags, FN_OVERRIDE, "override"@));
        toks = toks + keyword(flags, FN_OVERRIDE, "override"@);
    }
    add_keyword(src, flags, FN_FINAL, "final");
    proof {
        lemma_emit_all_append(s0, toks, keyword(flags, FN_FINAL, "final"@));
        toks = toks + keyword(flags, FN_FINAL, "final"@);
    }
    add_keyword(src, flags, FN_VAR_ARG, "vararg");
    proof {
        lemma_emit_all_append(s0, toks, keyword(flags, FN_VAR_ARG, "vararg"@));
        toks = toks + keyword(flags, FN_VAR_ARG, "vararg"@);
    }
    add_keyword(src, flags, FN_UI, "ui");
    proof {
        lemma_emit_all_append(s0, toks, keyword(flags, FN_UI, "ui"@));
        toks = toks + keyword(flags, FN_UI, "ui"@);
    }
    add_keyword(src, flags, FN_PLAY, "play");
    proof {
        lemma_emit_all_append(s0, toks, keyword(flags, FN_PLAY, "play"@));
        toks = toks + keyword(flags, FN_PLAY, "play"@);
    }
    add_keyword(src, flags, FN_CLEAR_SCOPE, "clearscope");
    proof {
        lemma_emit_all_append(s0, toks, keyword(flags, FN_CLEAR_SCOPE, "clearscope"@));
        toks = toks + keyword(flags, FN_CLEAR_SCOPE, "clearscope"@);
    }
    add_keyword(src, flags, FN_VIRTUAL_SCOPE, "virtualscope");
    proof {
        lemma_emit_all_append(s0, toks, keyword(flags, FN_VIRTUAL_SCOPE, "virtualscope"@));
        toks = toks + keyword(flags, FN_VIRTUAL_SCOPE, "virtualscope"@);
    }
    add_keyword(src, flags, FN_TRANSIENT, "transient");
    proof {
        lemma_emit_all_append(s0, toks, keyword(flags, FN_TRANSIENT, "transient"@));
        toks = toks + keyword(flags, FN_TRANSIENT, "transient"@);
    }
    assert(toks =~= function_flag_tokens(flags));
}

/// Appends the keywords of a member variable's flags.
fn add_member_flags(src: &mut SourceCodeWithLinks, flags: u32)
    ensures
        final(src)@ == emit_all(old(src)@, member_flag_tokens(flags)),
{
    let ghost s0 = src@;
    let ghost mut toks = Seq::<SectionV>::empty();
    add_keyword(src, flags, MEMBER_NATIVE, "native");
    proof {
        lemma_emit_all_append(s0, toks, keyword(flags, MEMBER_NATIVE, "native"@));
        toks = toks + keyword(flags, MEMBER_NATIVE, "native"@);
    }
    add_keyword(src, flags, MEMBER_PRIVATE, "private");
    proof {
        lemma_emit_all_append(s0, toks, keyword(flags, MEMBER_PRIVATE, "private"@));
        toks = toks + keyword(flags, MEMBER_PRIVATE, "private"@);
    }
    add_keyword(src, flags, MEMBER_PROTECTED, "protected");
    proof {
        lemma_emit_all_append(s0, toks, keyword(flags, MEMBER_PROTECTED, "protected"@));
        toks = toks + keyword(flags, MEMBER_PROTECTED, "protected"@);
    }
    add_keyword(src, flags, MEMBER_TRANSIENT, "transient");
    proof {
        lemma_emit_all_append(s0, toks, keyword(flags, MEMBER_TRANSIENT, "transient"@));
        toks = toks + keyword(flags, MEMBER_TRANSIENT, "transient"@);
    }
    add_keyword(src, flags, MEMBER_READ_ONLY, "readonly");
    proof {
        lemma_emit_all_append(s0, toks, keyword(flags, MEMBER_READ_ONLY, "readonly"@));
        toks = toks + keyword(flags, MEMBER_READ_ONLY, "readonly"@);
    }
    add_keyword(src, flags, MEMBER_INTERNAL, "internal");
    proof {
        lemma_emit_all_append(s0, toks, keyword(flags, MEMBER_INTERNAL, "internal"@));
        toks = toks + keyword(flags, MEMBER_INTERNAL, "internal"@);
    }
    add_keyword(src, flags, MEMBER_VAR_ARG, "vararg");
    proof {
        lemma_emit_all_append(s0, toks, keyword(flags, MEMBER_VAR_ARG, "vararg"@));
        toks = toks + keyword(flags, MEMBER_VAR_ARG, "vararg"@);
    }
    add_keyword(src, flags, MEMBER_UI, "ui");
    proof {
        lemma_emit_all_append(s0, toks, keyword(flags, MEMBER_UI, "ui"@));
        toks = toks + keyword(flags, MEMBER_UI, "ui"@);
    }
    add_keyword(src, flags, MEMBER_PLAY, "play");
    proof {
        lemma_emit_all_append(s0, toks, keyword(flags, MEMBER_PLAY, "play"@));
        toks = toks + keyword(flags, MEMBER_PLAY, "play"@);
    }
    add_keyword(src, flags, MEMBER_CLEAR_SCOPE, "clearscope");
    proof {
        lemma_emit_all_append(s0, toks, keyword(flags, MEMBER_CLEAR_SCOPE, "clearscope"@));
        toks = toks + keyword(flags, MEMBER_CLEAR_SCOPE, "clearscope"@);
    }
    add_keyword(src, flags, MEMBER_META, "meta");
    proof {
        lemma_emit_all_append(s0, toks, keyword(flags, MEMBER_META, "meta"@));
        toks = toks + keyword(flags, MEMBER_META, "meta"@);
    }
    assert(toks =~= member_flag_tokens(flags));
}

/// Appends the keywords of a parameter's flags.
fn add_param_flags(src: &mut SourceCodeWithLinks, flags: u32)
    ensures
        final(src)@ == emit_all(old(src)@, param_flag_tokens(flags)),
{
    let ghost s0 = src@;
    let ghost mut toks = Seq::<SectionV>::empty();
    add_keyword(src, flags, PARAM_IN, "in");
    proof {
        lemma_emit_all_append(s0, toks, keyword(flags, PARAM_IN, "in"@));
        toks = toks + keyword(flags, PARAM_IN, "in"@);
    }
    add_keyword(src, flags, PARAM_OUT, "out");
    proof {
        lemma_emit_all_append(s0, toks, keyword(flags, PARAM_OUT, "out"@));
        toks = toks + keyword(flags, PARAM_OUT, "out"@);
    }
    add_keyword(src, flags, PARAM_OPTIONAL, "optional");
    proof {
        lemma_emit_all_append(s0, toks, keyword(flags, PARAM_OPTIONAL, "optional"@));
        toks = toks + keyword(flags, PARAM_OPTIONAL, "optional"@);
    }
    assert(toks =~= param_flag_tokens(flags));
}

/// A list of types separated by commas.
pub open spec fn type_list_tokens(t: Map<Seq<u64>, LinkV>, ctx: Seq<u64>, l: Seq<TypeRef>, base: Ident) -> Seq<SectionV>
    decreases l.len(),
{
    if l.len() == 0 {
        Seq::empty()
    } else {
        type_list_tokens(t, ctx, l.drop_last(), base) + (if l.len() > 1 {
            seq![text(", "@)]
        } else {
            Seq::empty()
        }) + type_tokens(t, ctx, l.last(), base)
    }
}

/// The return types of a function, or `void`, followed by a space.
pub open spec fn return_tokens(t: Map<Seq<u64>, LinkV>, ctx: Seq<u64>, rets: Option<Vec<TypeRef>>, base: Ident) -> Seq<SectionV> {
    match rets {
        Some(l) => type_list_tokens(t, ctx, l@, base) + seq![text(" "@)],
        None => seq![text("void "@)],
    }
}

/// One parameter: its flags, its type, its name and its default value.
pub open spec fn param_tokens(t: Map<Seq<u64>, LinkV>, ctx: Seq<u64>, p: ParamDecl, base: Ident) -> Seq<SectionV> {
    param_flag_tokens(p.flags) + type_tokens(t, ctx, p.ty, base) + seq![text(" "@), text(p.name@)]
        + match p.init {
        Some(e) => seq![text(" = "@), text(e@)],
        None => Seq::empty(),
    }
}

/// The parameters, each after a possible break to an indented line.
pub open spec fn params_tokens(t: Map<Seq<u64>, LinkV>, ctx: Seq<u64>, ps: Seq<ParamDecl>, base: Ident) -> Seq<SectionV>
    decreases ps.len(),
{
    if ps.len() == 0 {
        Seq::empty()
    } else {
        params_tokens(t, ctx, ps.drop_last(), base) + (if ps.len() > 1 {
            break_sep()
        } else {
            Seq::empty()
        }) + param_tokens(t, ctx, ps.last(), base)
    }
}

/// The signature of a function declared in the page of `owner`.
pub open spec fn function_sig_tokens(t: Map<Seq<u64>, LinkV>, ctx: Seq<u64>, owner: OwnerV, f: FunctionDecl, base: Ident) -> Seq<SectionV> {
    function_flag_tokens(f.flags) + return_tokens(t, ctx, f.return_types, base) + seq![
        SectionV::Link(LinkV { prefix: None, text: f.name.text@, kind: KindV::Function(owner, f.name.text@) }),
        text("("@),
        SectionV::NewlineIndent,
    ] + params_tokens(t, ctx, f.params@, base) + (if f.variadic {
        (if f.params@.len() > 0 {
            break_sep()
        } else {
            Seq::empty()
        }) + seq![text("..."@)]
    } else {
        Seq::empty()
    }) + seq![SectionV::NewlineOnly, text(")"@)] + (if f.constant {
        seq![text(" const"@)]
    } else {
        Seq::empty()
    })
}

fn add_type_list(l: &Vec<TypeRef>, tbl: &ItemProvider, ctx: &[u64], base: &Ident, src: &mut SourceCodeWithLinks)
    requires
        tbl.wf(),
    ensures
        final(src)@ == emit_all(old(src)@, type_list_tokens(tbl@, ctx@, l@, *base)),
{
    let ghost s0 = src@;
    let mut i: usize = 0;
    assert(l@.take(0) =~= Seq::<TypeRef>::empty());
    while i < l.len()
        invariant
            tbl.wf(),
            i <= l@.len(),
            src@ == emit_all(s0, type_list_tokens(tbl@, ctx@, l@.take(i as int), *base)),
        decreases l.len() - i,
    {
        let ghost done = type_list_tokens(tbl@, ctx@, l@.take(i as int), *base);
        let ghost ty = type_tokens(tbl@, ctx@, l@[i as int], *base);
        assert(l@.take(i + 1).drop_last() =~= l@.take(i as int));
        if i > 0 {
            add_text(src, ", ");
            add_type_to_source(&l[i], tbl, ctx, base, src);
            proof {
                lemma_emit_all_append(s0, done, seq![text(", "@)]);
                lemma_emit_all_append(s0, done + seq![text(", "@)], ty);
            }
        } else {
            add_type_to_source(&l[i], tbl, ctx, base, src);
            proof {
                lemma_emit_all_append(s0, done, ty);
                assert(done + Seq::<SectionV>::empty() =~= done);
            }
        }
        i += 1;
    }
    assert(l@.take(l@.len() as int) =~= l@);
}

fn add_param(p: &ParamDecl, tbl: &ItemProvider, ctx: &[u64], base: &Ident, src: &mut SourceCodeWithLinks)
    requires
        tbl.wf(),
    ensures
        final(src)@ == emit_all(old(src)@, param_tokens(tbl@, ctx@, *p, *base)),
{
    let ghost s0 = src@;
    let ghost a = param_flag_tokens(p.flags);
    let ghost b = type_tokens(tbl@, ctx@, p.ty, *base);
    let ghost d = seq![text(" "@), text(p.name@)];
    add_param_flags(src, p.flags);
    add_type_to_source(&p.ty, tbl, ctx, base, src);
    add_text(src, " ");
    add_string(src, &p.name);
    proof {
        lemma_emit_all_append(s0, a, b);
        lemma_emit_all_append(s0, a + b, seq![text(" "@)]);
        lemma_emit_all_append(s0, a + b + seq![text(" "@)], seq![text(p.name@)]);
        assert(a + b + seq![text(" "@)] + seq![text(p.name@)] =~= a + b + d);
    }
    match &p.init {
        Some(e) => {
            add_text(src, " = ");
            add_string(src, e);
            proof {
                lemma_emit_all_append(s0, a + b + d, seq![text(" = "@)]);
                lemma_emit_all_append(s0, a + b + d + seq![text(" = "@)], seq![text(e@)]);
                assert(a + b + d + seq![text(" = "@)] + seq![text(e@)] =~= param_tokens(tbl@, ctx@, *p, *base));
            }
        },
        None => {
            assert(a + b + d + Seq::<SectionV>::empty() =~= param_tokens(tbl@, ctx@, *p, *base));
        },
    }
}

/// Rebuilds a function's declaration: flags, return types, linked name and
/// parameters, with break markers around and between the parameters.
pub fn reconstruct_function_signature(
    owner: Owner,
    func: &FunctionDecl,
    item_provider: &ItemProvider,
    context: &[u64],
    base: &Ident,
) -> (r: SourceCodeWithLinks)
    requires
        item_provider.wf(),
    ensures
        r@ == emit_all(Seq::empty(), function_sig_tokens(item_provider@, context@, owner@, *func, *base)),
{
    let ghost t = item_provider@;
    let ghost c = context@;
    let ghost ov = owner@;
    let mut ret = SourceCodeWithLinks::new();
    let ghost s0 = ret@;
    let ghost mut toks = Seq::<SectionV>::empty();
    add_function_flags(&mut ret, func.flags);
    proof {
        toks = function_flag_tokens(func.flags);
    }
    match &func.return_types {
        Some(l) => {
            add_type_list(l, item_provider, context, base, &mut ret);
            add_text(&mut ret, " ");
            proof {
                lemma_emit_all_append(s0, toks, type_list_tokens(t, c, l@, *base));
                lemma_emit_all_append(s0, toks + type_list_tokens(t, c, l@, *base), seq![text(" "@)]);
                assert(toks + type_list_tokens(t, c, l@, *base) + seq![text(" "@)] =~= toks + return_tokens(t, c, func.return_types, *base));
            }
        },
        None => {
            add_text(&mut ret, "void ");
            proof {
                lemma_emit_all_append(s0, toks, seq![text("void "@)]);
            }
        },
    }
    proof {
        toks = toks + return_tokens(t, c, func.return_types, *base);
    }
    let name = func.name.text.clone();
    let link = LinkedSection {
        link_prefix: None,
        text: name.clone(),
        kind: LinkedSectionKind::Function { owner, link: name },
    };
    let ghost lv = link@;
    add_one(&mut ret, link);
    add_text(&mut ret, "(");
    add_indent(&mut ret);
    proof {
        lemma_emit_all_append(s0, toks, seq![SectionV::Link(lv)]);
        lemma_emit_all_append(s0, toks + seq![SectionV::Link(lv)], seq![text("("@)]);
        lemma_emit_all_append(s0, toks + seq![SectionV::Link(lv)] + seq![text("("@)], seq![SectionV::NewlineIndent]);
        assert(toks + seq![SectionV::Link(lv)] + seq![text("("@)] + seq![SectionV::NewlineIndent] =~= toks + seq![SectionV::Link(lv), text("("@), SectionV::NewlineIndent]);
        toks = toks + seq![SectionV::Link(lv), text("("@), SectionV::NewlineIndent];
    }
    let ghost head = toks;
    let mut i: usize = 0;
    assert(func.params@.take(0) =~= Seq::<ParamDecl>::empty());
    assert(head + params_tokens(t, c, func.params@.take(0), *base) =~= head);
    while i < func.params.len()
        invariant
            item_provider.wf(),
            t == item_provider@,
            c == context@,
            i <= func.params@.len(),
            ret@ == emit_all(s0, head + params_tokens(t, c, func.params@.take(i as int), *base)),
        decreases func.params.len() - i,
    {
        let ghost done = head + params_tokens(t, c, func.params@.take(i as int), *base);
        let ghost pt = param_tokens(t, c, func.params@[i as int], *base);
        assert(func.params@.take(i + 1).drop_last() =~= func.params@.take(i as int));
        if i > 0 {
            add_break_sep(&mut ret);
            add_param(&func.params[i], item_provider, context, base, &mut ret);
            proof {
                lemma_emit_all_append(s0, done, break_sep());
                lemma_emit_all_append(s0, done + break_sep(), pt);
                assert(done + break_sep() + pt =~= head + params_tokens(t, c, func.params@.take(i + 1), *base));
            }
        } else {
            add_param(&func.params[i], item_provider, context, base, &mut ret);
            proof {
                lemma_emit_all_append(s0, done, pt);
                assert(done + pt =~= head + params_tokens(t, c, func.params@.take(i + 1), *base));
            }
        }
        i += 1;
    }
    assert(func.params@.take(func.params@.len() as int) =~= func.params@);
    proof {
        toks = head + params_tokens(t, c, func.params@, *base);
    }
    let ghost var_toks = if func.variadic {
        (if func.params@.len() > 0 { break_sep() } else { Seq::empty() }) + seq![text("..."@)]
    } else {
        Seq::empty()
    };
    if func.variadic {
        if func.params.len() > 0 {
            add_break_sep(&mut ret);
            add_text(&mut ret, "...");
            proof {
                lemma_emit_all_append(s0, toks, break_sep());
                lemma_emit_all_append(s0, toks + break_sep(), seq![text("..."@)]);
                assert(toks + break_sep() + seq![text("..."@)] =~= toks + var_toks);
            }
        } else {
            add_text(&mut ret, "...");
            proof {
                lemma_emit_all_append(s0, toks, seq![text("..."@)]);
                assert(Seq::<SectionV>::empty() + seq![text("..."@)] =~= seq![text("..."@)]);
            }
        }
    } else {
        assert(toks + var_toks =~= toks);
    }
    proof {
        toks = toks + var_toks;
    }
    add_no_indent(&mut ret);
    add_text(&mut ret, ")");
    proof {
        lemma_emit_all_append(s0, toks, seq![SectionV::NewlineOnly]);
        lemma_emit_all_append(s0, toks + seq![SectionV::NewlineOnly], seq![text(")"@)]);
        assert(toks + seq![SectionV::NewlineOnly] + seq![text(")"@)] =~= toks + seq![SectionV::NewlineOnly, text(")"@)]);
        toks = toks + seq![SectionV::NewlineOnly, text(")"@)];
    }
    if func.constant {
        add_text(&mut ret, " const");
        proof {
            lemma_emit_all_append(s0, toks, seq![text(" const"@)]);
            toks = toks + seq![text(" const"@)];
        }
    } else {
        assert(toks + Seq::<SectionV>::empty() =~= toks);
    }
    assert(toks =~= function_sig_tokens(t, c, ov, *func, *base));
    ret
}

/// The declaration of a member variable.
pub open spec fn member_tokens(t: Map<Seq<u64>, LinkV>, ctx: Seq<u64>, owner: OwnerV, m: MemberDecl, base: Ident) -> Seq<SectionV> {
    member_flag_tokens(m.flags) + type_tokens(t, ctx, m.ty, base) + seq![
        text(" "@),
        SectionV::Link(LinkV { prefix: None, text: m.name.text@, kind: KindV::Member(owner, m.name.text@) }),
    ]
}

/// Rebuilds a member variable's declaration: flags, type and linked name.
pub fn reconstruct_member_declaration(
    owner: Owner,
    member: &MemberDecl,
    item_provider: &ItemProvider,
    context: &[u64],
    base: &Ident,
) -> (r: SourceCodeWithLinks)
    requires
        item_provider.wf(),
    ensures
        r@ == emit_all(Seq::empty(), member_tokens(item_provider@, context@, owner@, *member, *base)),
{
    let ghost ov = owner@;
    let mut ret = SourceCodeWithLinks::new();
    let ghost s0 = ret@;
    let ghost a = member_flag_tokens(member.flags);
    let ghost b = type_tokens(item_provider@, context@, member.ty, *base);
    add_member_flags(&mut ret, member.flags);
    add_type_to_source(&member.ty, item_provider, context, base, &mut ret);
    add_text(&mut ret, " ");
    let name = member.name.text.clone();
    let link = LinkedSection {
        link_prefix: None,
        text: name.clone(),
        kind: LinkedSectionKind::Member { owner, link: name },
    };
    let ghost lv = link@;
    add_one(&mut ret, link);
    proof {
        lemma_emit_all_append(s0, a, b);
        lemma_emit_all_append(s0, a + b, seq![text(" "@)]);
        lemma_emit_all_append(s0, a + b + seq![text(" "@)], seq![SectionV::Link(lv)]);
        assert(a + b + seq![text(" "@)] + seq![SectionV::Link(lv)] =~= member_tokens(item_provider@, context@, ov, *member, *base));
    }
    ret
}

/// The declaration of an enumerator: its linked name and its initializer as
/// written.
pub open spec fn enumerator_tokens(owner: OwnerV, v: EnumVariantDecl) -> Seq<SectionV> {
    seq![SectionV::Link(LinkV { prefix: None, text: v.name.text@, kind: KindV::Enumerator(owner, v.name.text@) })]
        + match v.init {
        Some(e) => seq![text(" = "@), text(e@)],
        None => Seq::empty(),
    }
}

pub fn reconstruct_enumerator_declaration(owner: Owner, variant: &EnumVariantDecl) -> (r: SourceCodeWithLinks)
    ensures
        r@ == emit_all(Seq::empty(), enumerator_tokens(owner@, *variant)),
{
    let ghost ov = owner@;
    let mut ret = SourceCodeWithLinks::new();
    let ghost s0 = ret@;
    let name = variant.name.text.clone();
    let link = LinkedSection {
        link_prefix: None,
        text: name.clone(),
        kind: LinkedSectionKind::Enumerator { owner, link: name },
    };
    let ghost a = seq![SectionV::Link(link@)];
    add_one(&mut ret, link);
    match &variant.init {
        Some(e) => {
            add_text(&mut ret, " = ");
            add_string(&mut ret, e);
            proof {
                lemma_emit_all_append(s0, a, seq![text(" = "@)]);
                lemma_emit_all_append(s0, a + seq![text(" = "@)], seq![text(e@)]);
                assert(a + seq![text(" = "@)] + seq![text(e@)] =~= enumerator_tokens(ov, *variant));
            }
        },
        None => {
            assert(a + Seq::<SectionV>::empty() =~= enumerator_tokens(ov, *variant));
        },
    }
    ret
}

/// The declaration of a constant: `const`, linked name and value as written.
pub open spec fn constant_tokens(owner: OwnerV, c: ConstDecl) -> Seq<SectionV> {
    seq![
        text("const "@),
        SectionV::Link(LinkV { prefix: None, text: c.name.text@, kind: KindV::Constant(owner, c.name.text@) }),
        text(" = "@),
        text(c.expr@),
    ]
}

pub fn reconstruct_constant_declaration(owner: Owner, constant: &ConstDecl) -> (r: SourceCodeWithLinks)
    ensures
        r@ == emit_all(Seq::empty(), constant_tokens(owner@, *constant)),
{
    let ghost ov = owner@;
    let mut ret = SourceCodeWithLinks::new();
    let ghost s0 = ret@;
    add_text(&mut ret, "const ");
    let name = constant.name.text.clone();
    let link = LinkedSection {
        link_prefix: None,
        text: name.clone(),
        kind: LinkedSectionKind::Constant { owner, link: name },
    };
    let ghost l = SectionV::Link(link@);
    add_one(&mut ret, link);
    add_text(&mut ret, " = ");
    add_string(&mut ret, &constant.expr);
    proof {
        lemma_emit_all_append(s0, seq![text("const "@)], seq![l]);
        lemma_emit_all_append(s0, seq![text("const "@)] + seq![l], seq![text(" = "@)]);
        lemma_emit_all_append(s0, seq![text("const "@)] + seq![l] + seq![text(" = "@)], seq![text(constant.expr@)]);
        assert(seq![text("const "@)] + seq![l] + seq![text(" = "@)] + seq![text(constant.expr@)] =~= constant_tokens(ov, *constant));
    }
    ret
}

/// Initializers separated by possible breaks to indented lines.
pub open spec fn exprs_tokens(exprs: Seq<String>) -> Seq<SectionV>
    decreases exprs.len(),
{
    if exprs.len() == 0 {
        Seq::empty()
    } else {
        exprs_tokens(exprs.drop_last()) + (if exprs.len() > 1 {
            break_sep()
        } else {
            Seq::empty()
        }) + seq![text(exprs.last()@)]
    }
}

/// The declaration of a static constant array.
pub open spec fn static_array_tokens(t: Map<Seq<u64>, LinkV>, ctx: Seq<u64>, owner: OwnerV, a: StaticConstArrayDecl, base: Ident) -> Seq<SectionV> {
    seq![text("static const "@)] + type_tokens(t, ctx, a.ty, base) + seq![
        text("[] "@),
        SectionV::Link(LinkV { prefix: None, text: a.name.text@, kind: KindV::Constant(owner, a.name.text@) }),
        text(" = {"@),
        SectionV::NewlineIndent,
    ] + exprs_tokens(a.exprs@) + seq![SectionV::NewlineOnly, text("}"@)]
}

pub fn reconstruct_static_const_array_declaration(
    owner: Owner,
    sca: &StaticConstArrayDecl,
    item_provider: &ItemProvider,
    context: &[u64],
    base: &Ident,
) -> (r: SourceCodeWithLinks)
    requires
        item_provider.wf(),
    ensures
        r@ == emit_all(Seq::empty(), static_array_tokens(item_provider@, context@, owner@, *sca, *base)),
{
    let ghost ov = owner@;
    let mut ret = SourceCodeWithLinks::new();
    let ghost s0 = ret@;
    let ghost a = seq![text("static const "@)];
    let ghost b = type_tokens(item_provider@, context@, sca.ty, *base);
    add_text(&mut ret, "static const ");
    add_type_to_source(&sca.ty, item_provider, context, base, &mut ret);
    add_text(&mut ret, "[] ");
    let name = sca.name.text.clone();
    let link = LinkedSection {
        link_prefix: None,
        text: name.clone(),
        kind: LinkedSectionKind::Constant { owner, link: name },
    };
    let ghost l = SectionV::Link(link@);
    add_one(&mut ret, link);
    add_text(&mut ret, " = {");
    add_indent(&mut ret);
    let ghost head = a + b + seq![text("[] "@), l, text(" = {"@), SectionV::NewlineIndent];
    proof {
        lemma_emit_all_append(s0, a, b);
        lemma_emit_all_append(s0, a + b, seq![text("[] "@)]);
        lemma_emit_all_append(s0, a + b + seq![text("[] "@)], seq![l]);
        lemma_emit_all_append(s0, a + b + seq![text("[] "@)] + seq![l], seq![text(" = {"@)]);
        lemma_emit_all_append(s0, a + b + seq![text("[] "@)] + seq![l] + seq![text(" = {"@)], seq![SectionV::NewlineIndent]);
        assert(a + b + seq![text("[] "@)] + seq![l] + seq![text(" = {"@)] + seq![SectionV::NewlineIndent] =~= head);
    }
    let mut i: usize = 0;
    assert(sca.exprs@.take(0) =~= Seq::<String>::empty());
    assert(head + exprs_tokens(sca.exprs@.take(0)) =~= head);
    while i < sca.exprs.len()
        invariant
            i <= sca.exprs@.len(),
            ret@ == emit_all(s0, head + exprs_tokens(sca.exprs@.take(i as int))),
        decreases sca.exprs.len() - i,
    {
        let ghost done = head + exprs_tokens(sca.exprs@.take(i as int));
        let ghost e = seq![text(sca.exprs@[i as int]@)];
        assert(sca.exprs@.take(i + 1).drop_last() =~= sca.exprs@.take(i as int));
        if i > 0 {
            add_break_sep(&mut ret);
            add_string(&mut ret, &sca.exprs[i]);
            proof {
                lemma_emit_all_append(s0, done, break_sep());
                lemma_emit_all_append(s0, done + break_sep(), e);
                assert(done + break_sep() + e =~= head + exprs_tokens(sca.exprs@.take(i + 1)));
            }
        } else {
            add_string(&mut ret, &sca.exprs[i]);
            proof {
                lemma_emit_all_append(s0, done, e);
                assert(done + e =~= head + exprs_tokens(sca.exprs@.take(i + 1)));
            }
        }
        i += 1;
    }
    assert(sca.exprs@.take(sca.exprs@.len() as int) =~= sca.exprs@);
    let ghost body = head + exprs_tokens(sca.exprs@);
    add_no_indent(&mut ret);
    add_text(&mut ret, "}");
    proof {
        lemma_emit_all_append(s0, body, seq![SectionV::NewlineOnly]);
        lemma_emit_all_append(s0, body + seq![SectionV::NewlineOnly], seq![text("}"@)]);
        assert(body + seq![SectionV::NewlineOnly] + seq![text("}"@)] =~= static_array_tokens(item_provider@, context@, ov, *sca, *base));
    }
    ret
}

/// Strings separated by `", "`.
pub open spec fn comma_list_tokens(v: Seq<String>) -> Seq<SectionV>
    decreases v.len(),
{
    if v.len() == 0 {
        Seq::empty()
    } else {
        comma_list_tokens(v.drop_last()) + (if v.len() > 1 {
            seq![text(", "@)]
        } else {
            Seq::empty()
        }) + seq![text(v.last()@)]
    }
}

/// The declaration of a property: its linked name and the variables it
/// stands for.
pub open spec fn property_tokens(owner: OwnerV, p: PropertyDecl) -> Seq<SectionV> {
    seq![
        text("property "@),
        SectionV::Link(LinkV { prefix: None, text: p.name.text@, kind: KindV::Property(owner, p.name.text@) }),
        text(": "@),
    ] + comma_list_tokens(p.vars@)
}

pub fn reconstruct_property(owner: Owner, prop: &PropertyDecl) -> (r: SourceCodeWithLinks)
    ensures
        r@ == emit_all(Seq::empty(), property_tokens(owner@, *prop)),
{
    let ghost ov = owner@;
    let mut ret = SourceCodeWithLinks::new();
    let ghost s0 = ret@;
    add_text(&mut ret, "property ");
    let name = prop.name.text.clone();
    let link = LinkedSection {
        link_prefix: None,
        text: name.clone(),
        kind: LinkedSectionKind::Property { owner, link: name },
    };
    let ghost l = SectionV::Link(link@);
    add_one(&mut ret, link);
    add_text(&mut ret, ": ");
    let ghost head = seq![text("property "@), l, text(": "@)];
    proof {
        lemma_emit_all_append(s0, seq![text("property "@)], seq![l]);
        lemma_emit_all_append(s0, seq![text("property "@)] + seq![l], seq![text(": "@)]);
        assert(seq![text("property "@)] + seq![l] + seq![text(": "@)] =~= head);
    }
    let mut i: usize = 0;
    assert(prop.vars@.take(0) =~= Seq::<String>::empty());
    assert(head + comma_list_tokens(prop.vars@.take(0)) =~= head);
    while i < prop.vars.len()
        invariant
            i <= prop.vars@.len(),
            ret@ == emit_all(s0, head + comma_list_tokens(prop.vars@.take(i as int))),
        decreases prop.vars.len() - i,
    {
        let ghost done = head + comma_list_tokens(prop.vars@.take(i as int));
        let ghost e = seq![text(prop.vars@[i as int]@)];
        assert(prop.vars@.take(i + 1).drop_last() =~= prop.vars@.take(i as int));
        if i > 0 {
            add_text(&mut ret, ", ");
            add_string(&mut ret, &prop.vars[i]);
            proof {
                lemma_emit_all_append(s0, done, seq![text(", "@)]);
                lemma_emit_all_append(s0, done + seq![text(", "@)], e);
                assert(done + seq![text(", "@)] + e =~= head + comma_list_tokens(prop.vars@.take(i + 1)));
            }
        } else {
            add_string(&mut ret, &prop.vars[i]);
            proof {
                lemma_emit_all_append(s0, done, e);
                assert(done + e =~= head + comma_list_tokens(prop.vars@.take(i + 1)));
            }
        }
        i += 1;
    }
    assert(prop.vars@.take(prop.vars@.len() as int) =~= prop.vars@);
    ret
}

/// The declaration of a flag: its linked name, the variable and the shift.
pub open spec fn flagdef_tokens(owner: OwnerV, f: FlagDecl) -> Seq<SectionV> {
    seq![
        text("flagdef "@),
        SectionV::Link(LinkV { prefix: None, text: f.name.text@, kind: KindV::Flag(owner, f.name.text@) }),
        text(": "@),
        text(f.var_name@),
        text(", "@),
        text(f.shift@),
    ]
}

pub fn reconstruct_flagdef(owner: Owner, flag: &FlagDecl) -> (r: SourceCodeWithLinks)
    ensures
        r@ == emit_all(Seq::empty(), flagdef_tokens(owner@, *flag)),
{
    let ghost ov = owner@;
    let mut ret = SourceCodeWithLinks::new();
    let ghost s0 = ret@;
    add_text(&mut ret, "flagdef ");
    let name = flag.name.text.clone();
    let link = LinkedSection {
        link_prefix: None,
        text: name.clone(),
        kind: LinkedSectionKind::Flag { owner, link: name },
    };
    let ghost l = SectionV::Link(link@);
    add_one(&mut ret, link);
    add_text(&mut ret, ": ");
    add_string(&mut ret, &flag.var_name);
    add_text(&mut ret, ", ");
    add_string(&mut ret, &flag.shift);
    proof {
        let a0 = seq![text("flagdef "@)];
        let a1 = a0 + seq![l];
        let a2 = a1 + seq![text(": "@)];
        let a3 = a2 + seq![text(flag.var_name@)];
        let a4 = a3 + seq![text(", "@)];
        lemma_emit_all_append(s0, a0, seq![l]);
        lemma_emit_all_append(s0, a1, seq![text(": "@)]);
        lemma_emit_all_append(s0, a2, seq![text(flag.var_name@)]);
        lemma_emit_all_append(s0, a3, seq![text(", "@)]);
        lemma_emit_all_append(s0, a4, seq![text(flag.shift@)]);
        assert(a4 + seq![text(flag.shift@)] =~= flagdef_tokens(ov, *flag));
    }
    ret
}

} // verus!
