//! What a renderer computes from a linked fragment alone: the page path and
//! in-page anchor, the style class, and how a declaration breaks into lines.
use vstd::prelude::*;
use crate::structures::{
    strs_view, KindV, LinkV, LinkedSection, LinkedSectionKind, Owner, OwnerV, SectionV,
    SourceCodeSection, SourceCodeWithLinks,
};

verus! {

/// Names joined with dots.
pub open spec fn join_dots(v: Seq<Seq<char>>) -> Seq<char>
    decreases v.len(),
{
    if v.len() == 0 {
        Seq::empty()
    } else if v.len() == 1 {
        v[0]
    } else {
        join_dots(v.drop_last()) + "."@ + v.last()
    }
}

pub fn join_with_dots(v: &Vec<String>) -> (r: String)
    ensures
        r@ == join_dots(strs_view(*v)),
{
    let ghost sv = strs_view(*v);
    let mut r = String::new();
    let mut i: usize = 0;
    assert(sv.take(0) =~= Seq::<Seq<char>>::empty());
    while i < v.len()
        invariant
            i <= v@.len(),
            sv == strs_view(*v),
            r@ == join_dots(sv.take(i as int)),
        decreases v.len() - i,
    {
        assert(sv.take(i + 1).drop_last() =~= sv.take(i as int));
        if i > 0 {
            r.append(".");
        } else {
            assert(r@ == Seq::<char>::empty());
        }
        r.append(v[i].as_str());
        proof {
            if i == 0 {
                assert(Seq::<char>::empty() + sv[0] =~= sv[0]);
            }
        }
        i += 1;
    }
    assert(sv.take(sv.len() as int) =~= sv);
    r
}

/// The page of an owner.
pub open spec fn href_prelude(o: OwnerV) -> Seq<char> {
    match o {
        OwnerV::Class(v) => "class."@ + join_dots(v) + ".html"@,
        OwnerV::Struct(v) => "struct."@ + join_dots(v) + ".html"@,
        OwnerV::Enum(v) => "enum."@ + join_dots(v) + ".html"@,
        OwnerV::Builtin(s) => "builtin."@ + s + ".html"@,
        OwnerV::Global => "index.html"@,
    }
}

fn wrap(before: &str, mid: &String, after: &str) -> (r: String)
    ensures
        r@ == before@ + mid@ + after@,
{
    let mut r = before.to_string();
    r.append(mid.as_str());
    r.append(after);
    r
}

impl Owner {
    pub fn get_href_prelude(&self) -> (r: String)
        ensures
            r@ == href_prelude(self@),
    {
        match self {
            Owner::Class(v) => wrap("class.", &join_with_dots(v), ".html"),
            Owner::Struct(v) => wrap("struct.", &join_with_dots(v), ".html"),
            Owner::Enum(v) => wrap("enum.", &join_with_dots(v), ".html"),
            Owner::Builtin(s) => wrap("builtin.", s, ".html"),
            Owner::Global => "index.html".to_string(),
        }
    }
}

/// The style class of a kind of item.
pub open spec fn style_of(k: KindV) -> Seq<char> {
    match k {
        KindV::Struct(_) => "struct"@,
        KindV::Class(_) => "class"@,
        KindV::Enum(_) => "enum"@,
        KindV::Builtin(_) => "builtin"@,
        KindV::Function(_, _) => "function"@,
        KindV::Member(_, _) => "member"@,
        KindV::Enumerator(_, _) => "constant"@,
        KindV::Constant(_, _) => "constant"@,
        KindV::Property(_, _) => "default"@,
        KindV::Flag(_, _) => "default"@,
    }
}

/// The site-relative path of an item's page, with its anchor.
pub open spec fn kind_href(k: KindV) -> Seq<char> {
    match k {
        KindV::Struct(v) => "/struct."@ + join_dots(v) + ".html"@,
        KindV::Class(v) => "/class."@ + join_dots(v) + ".html"@,
        KindV::Enum(v) => "/enum."@ + join_dots(v) + ".html"@,
        KindV::Builtin(s) => "/builtin."@ + s + ".html"@,
        KindV::Function(o, l) => "/"@ + href_prelude(o) + "#function."@ + l,
        KindV::Member(o, l) => "/"@ + href_prelude(o) + "#member."@ + l,
        KindV::Enumerator(o, l) => "/"@ + href_prelude(o) + "#enumerator."@ + l,
        KindV::Constant(o, l) => "/"@ + href_prelude(o) + "#constant."@ + l,
        KindV::Property(o, l) => "/"@ + href_prelude(o) + "#property."@ + l,
        KindV::Flag(o, l) => "/"@ + href_prelude(o) + "#flag."@ + l,
    }
}

/// The full link of an item: its archive's prefix, then its path.
pub open spec fn href(l: LinkV) -> Seq<char> {
    match l.prefix {
        Some(p) => p + kind_href(l.kind),
        None => kind_href(l.kind),
    }
}

fn anchored(owner: &Owner, anchor: &str, link: &String) -> (r: String)
    ensures
        r@ == "/"@ + href_prelude(owner@) + anchor@ + link@,
{
    let mut r = "/".to_string();
    let p = owner.get_href_prelude();
    r.append(p.as_str());
    r.append(anchor);
    r.append(link.as_str());
    r
}

impl LinkedSectionKind {
    pub fn get_style(&self) -> (r: &'static str)
        ensures
            r@ == style_of(self@),
    {
        match self {
            LinkedSectionKind::Struct { .. } => "struct",
            LinkedSectionKind::Class { .. } => "class",
            LinkedSectionKind::Enum { .. } => "enum",
            LinkedSectionKind::Builtin { .. } => "builtin",
            LinkedSectionKind::Function { .. } => "function",
            LinkedSectionKind::Member { .. } => "member",
            LinkedSectionKind::Enumerator { .. } => "constant",
            LinkedSectionKind::Constant { .. } => "constant",
            LinkedSectionKind::Property { .. } => "default",
            LinkedSectionKind::Flag { .. } => "default",
        }
    }

    pub fn get_kind_href(&self) -> (r: String)
        ensures
            r@ == kind_href(self@),
    {
        match self {
            LinkedSectionKind::Struct { link } => wrap("/struct.", &join_with_dots(link), ".html"),
            LinkedSectionKind::Class { link } => wrap("/class.", &join_with_dots(link), ".html"),
            LinkedSectionKind::Enum { link } => wrap("/enum.", &join_with_dots(link), ".html"),
            LinkedSectionKind::Builtin { link } => wrap("/builtin.", link, ".html"),
            LinkedSectionKind::Function { owner, link } => anchored(owner, "#function.", link),
            LinkedSectionKind::Member { owner, link } => anchored(owner, "#member.", link),
            LinkedSectionKind::Enumerator { owner, link } => anchored(owner, "#enumerator.", link),
            LinkedSectionKind::Constant { owner, link } => anchored(owner, "#constant.", link),
            LinkedSectionKind::Property { owner, link } => anchored(owner, "#property.", link),
            LinkedSectionKind::Flag { owner, link } => anchored(owner, "#flag.", link),
        }
    }
}

impl LinkedSection {
    pub fn get_style(&self) -> (r: &'static str)
        ensures
            r@ == style_of(self@.kind),
    {
        self.kind.get_style()
    }

    pub fn get_href(&self) -> (r: String)
        ensures
            r@ == href(self@),
    {
        let kind_href = self.kind.get_kind_href();
        match &self.link_prefix {
            Some(p) => {
                let mut r = p.clone();
                r.append(kind_href.as_str());
                r
            },
            None => kind_href,
        }
    }
}

/// The width of a fragment on a single line, in bytes of UTF-8 (as `str::len`
/// gives it).
pub open spec fn section_width(s: SectionV) -> nat {
    match s {
        SectionV::Text(t) => (vstd::utf8::encode_utf8(t).len() as usize) as nat,
        SectionV::Link(l) => (vstd::utf8::encode_utf8(l.text).len() as usize) as nat,
        SectionV::NewlineOnly => 0,
        SectionV::NewlineIndent => 0,
        SectionV::Spacing => 1,
    }
}

pub open spec fn total_width(s: Seq<SectionV>) -> nat
    decreases s.len(),
{
    if s.len() == 0 {
        0
    } else {
        total_width(s.drop_last()) + section_width(s.last())
    }
}

impl SourceCodeWithLinks {
    /// The width of the declaration on a single line, saturating at the
    /// largest `usize`.
    pub fn evaluate_length(&self) -> (r: usize)
        ensures
            r as nat == if total_width(self@) <= usize::MAX {
                total_width(self@)
            } else {
                usize::MAX as nat
            },
    {
        let ghost v = self@;
        let mut total: usize = 0;
        let mut i: usize = 0;
        assert(v.take(0) =~= Seq::<SectionV>::empty());
        while i < self.sections.len()
            invariant
                v == self@,
                i <= self.sections@.len(),
                total as nat == if total_width(v.take(i as int)) <= usize::MAX {
                    total_width(v.take(i as int))
                } else {
                    usize::MAX as nat
                },
            decreases self.sections.len() - i,
        {
            assert(v.take(i + 1).drop_last() =~= v.take(i as int));
            let w: usize = match &self.sections[i] {
                SourceCodeSection::NoLink(s) => s.as_str().len(),
                SourceCodeSection::Linked(l) => l.text.as_str().len(),
                SourceCodeSection::PotentialNewlineOnly => 0,
                SourceCodeSection::PotentialNewlineIndent => 0,
                SourceCodeSection::NoNewlineSpacing => 1,
            };
            assert(w as nat == section_width(v[i as int]));
            total = total.saturating_add(w);
            i += 1;
        }
        assert(v.take(v.len() as int) =~= v);
        total
    }
}

impl SourceCodeSection {
    pub fn duplicate(&self) -> (r: SourceCodeSection)
        ensures
            r@ == self@,
    {
        match self {
            SourceCodeSection::NoLink(s) => SourceCodeSection::NoLink(s.clone()),
            SourceCodeSection::Linked(l) => SourceCodeSection::Linked(l.duplicate()),
            SourceCodeSection::PotentialNewlineOnly => SourceCodeSection::PotentialNewlineOnly,
            SourceCodeSection::PotentialNewlineIndent => SourceCodeSection::PotentialNewlineIndent,
            SourceCodeSection::NoNewlineSpacing => SourceCodeSection::NoNewlineSpacing,
        }
    }
}

/// One line of a wrapped rendering: whether it is indented, and its
/// fragments.
#[derive(Clone, Debug, PartialEq, Eq)]
pub struct SourceLine {
    pub indented: bool,
    pub sections: Vec<SourceCodeSection>,
}

/// The lines so far, whether the current line is indented, and the
/// fragments of the current line, after reading `s`: a break ends the
/// current line and sets the indentation of the next; spacing is dropped.
pub open spec fn line_state(s: Seq<SectionV>) -> (Seq<(bool, Seq<SectionV>)>, bool, Seq<SectionV>)
    decreases s.len(),
{
    if s.len() == 0 {
        (Seq::empty(), false, Seq::empty())
    } else {
        let (done, ind, cur) = line_state(s.drop_last());
        match s.last() {
            SectionV::NewlineOnly => (done.push((ind, cur)), false, Seq::empty()),
            SectionV::NewlineIndent => (done.push((ind, cur)), true, Seq::empty()),
            SectionV::Spacing => (done, ind, cur),
            t => (done, ind, cur.push(t)),
        }
    }
}

/// The lines of a wrapped rendering of `s`.
pub open spec fn lines_of(s: Seq<SectionV>) -> Seq<(bool, Seq<SectionV>)> {
    let (done, ind, cur) = line_state(s);
    done.push((ind, cur))
}

pub open spec fn line_view(l: SourceLine) -> (bool, Seq<SectionV>) {
    (l.indented, l.sections@.map_values(|s: SourceCodeSection| s@))
}

impl SourceCodeWithLinks {
    /// Splits the declaration into the lines of a wrapped rendering.
    pub fn group_multiline_sections(&self) -> (r: Vec<SourceLine>)
        ensures
            r@.map_values(|l: SourceLine| line_view(l)) == lines_of(self@),
    {
        let ghost v = self@;
        let mut lines: Vec<SourceLine> = Vec::new();
        let mut cur: Vec<SourceCodeSection> = Vec::new();
        let mut indenting = false;
        let mut i: usize = 0;
        assert(v.take(0) =~= Seq::<SectionV>::empty());
        assert(lines@.map_values(|l: SourceLine| line_view(l)) =~= Seq::<(bool, Seq<SectionV>)>::empty());
        assert(cur@.map_values(|s: SourceCodeSection| s@) =~= Seq::<SectionV>::empty());
        while i < self.sections.len()
            invariant
                v == self@,
                i <= v.len(),
                line_state(v.take(i as int)) == (
                    lines@.map_values(|l: SourceLine| line_view(l)),
                    indenting,
                    cur@.map_values(|s: SourceCodeSection| s@),
                ),
            decreases self.sections.len() - i,
        {
            assert(v.take(i + 1).drop_last() =~= v.take(i as int));
            assert(v.take(i + 1).last() == self.sections@[i as int]@);
            let ghost l0 = lines@.map_values(|l: SourceLine| line_view(l));
            let ghost c0 = cur@.map_values(|s: SourceCodeSection| s@);
            match &self.sections[i] {
                SourceCodeSection::PotentialNewlineOnly => {
                    let line = SourceLine { indented: indenting, sections: cur };
                    lines.push(line);
                    cur = Vec::new();
                    indenting = false;
                    assert(lines@.map_values(|l: SourceLine| line_view(l)) =~= l0.push((line_view(line).0, c0)));
                    assert(cur@.map_values(|s: SourceCodeSection| s@) =~= Seq::<SectionV>::empty());
                },
                SourceCodeSection::PotentialNewlineIndent => {
                    let line = SourceLine { indented: indenting, sections: cur };
                    lines.push(line);
                    cur = Vec::new();
                    indenting = true;
                    assert(lines@.map_values(|l: SourceLine| line_view(l)) =~= l0.push((line_view(line).0, c0)));
                    assert(cur@.map_values(|s: SourceCodeSection| s@) =~= Seq::<SectionV>::empty());
                },
                SourceCodeSection::NoNewlineSpacing => {},
                s => {
                    cur.push(s.duplicate());
                    assert(cur@.map_values(|s: SourceCodeSection| s@) =~= c0.push(self.sections@[i as int]@));
                },
            }
            i += 1;
        }
        assert(v.take(v.len() as int) =~= v);
        let ghost l0 = lines@.map_values(|l: SourceLine| line_view(l));
        let ghost c0 = cur@.map_values(|s: SourceCodeSection| s@);
        let last = SourceLine { indented: indenting, sections: cur };
        lines.push(last);
        assert(lines@.map_values(|l: SourceLine| line_view(l)) =~= l0.push((indenting, c0)));
        lines
    }
}

} // verus!

verus! {

/// A reference written between backticks, without them.
pub open spec fn strip_backticks(s: Seq<char>) -> Seq<char> {
    if s.len() >= 2 && s[0] == '`' && s[s.len() - 1] == '`' {
        s.subrange(1, s.len() - 1)
    } else {
        s
    }
}

/// `s` without its trailing white space.
pub open spec fn trim_end(s: Seq<char>) -> Seq<char>
    decreases s.len(),
{
    if s.len() > 0 && crate::text::is_white_space(s.last()) {
        trim_end(s.drop_last())
    } else {
        s
    }
}

/// `s` without leading or trailing white space.
pub open spec fn trim(s: Seq<char>) -> Seq<char> {
    trim_end(crate::text::trim_start(s))
}

/// The segment names of a link reference in prose: backticks removed, split
/// at dots, each part trimmed.
pub open spec fn reference_parts(s: Seq<char>) -> Seq<Seq<char>> {
    crate::coverage::split_dots(strip_backticks(s)).map_values(|p: Seq<char>| trim(p))
}

fn trimmed(s: &str) -> (r: String)
    ensures
        r@ == trim(s@),
{
    let n = s.unicode_len();
    let mut a: usize = 0;
    assert(s@.skip(0) =~= s@);
    let mut stop = false;
    while a < n && !stop
        invariant
            n == s@.len(),
            a <= n,
            stop ==> a < n && !crate::text::is_white_space(s@[a as int]),
            crate::text::trim_start(s@) == crate::text::trim_start(s@.skip(a as int)),
        decreases n - a, if stop { 0int } else { 1int },
    {
        let c = s.get_char(a);
        if !crate::text::is_white_space_char(c) {
            stop = true;
        } else {
            assert(s@.skip(a as int)[0] == c);
            assert(s@.skip(a as int).drop_first() =~= s@.skip(a + 1));
            a += 1;
        }
    }
    let ghost t = s@.skip(a as int);
    assert(crate::text::trim_start(t) == t) by {
        if t.len() > 0 {
            assert(t[0] == s@[a as int]);
        }
    }
    let mut b: usize = n;
    assert(s@.subrange(a as int, b as int) =~= t);
    let mut stop = false;
    while b > a && !stop
        invariant
            n == s@.len(),
            a <= b <= n,
            stop ==> b > a && !crate::text::is_white_space(s@[b - 1]),
            t == s@.skip(a as int),
            crate::text::trim_start(s@) == t,
            trim_end(t) == trim_end(s@.subrange(a as int, b as int)),
        decreases b, if stop { 0int } else { 1int },
    {
        let c = s.get_char(b - 1);
        if !crate::text::is_white_space_char(c) {
            stop = true;
        } else {
            assert(s@.subrange(a as int, b as int).drop_last() =~= s@.subrange(a as int, b - 1));
            b -= 1;
        }
    }
    let ghost u = s@.subrange(a as int, b as int);
    assert(trim_end(u) == u) by {
        if u.len() > 0 {
            assert(u.last() == s@[b - 1]);
        }
    }
    s.substring_char(a, b).to_string()
}

fn strip_backticks_of(s: &str) -> (r: &str)
    ensures
        r@ == strip_backticks(s@),
{
    let n = s.unicode_len();
    if n >= 2 && s.get_char(0) == '`' && s.get_char(n - 1) == '`' {
        s.substring_char(1, n - 1)
    } else {
        s
    }
}

/// The segment names of a link reference written in prose.
pub fn link_reference_parts(reference: &String) -> (r: Vec<String>)
    ensures
        crate::structures::strs_view(r) == reference_parts(reference@),
{
    let stripped = strip_backticks_of(reference.as_str()).to_string();
    let parts = crate::coverage::split_at_dots(&stripped);
    let ghost pv = crate::structures::strs_view(parts);
    let mut out: Vec<String> = Vec::new();
    let mut i: usize = 0;
    while i < parts.len()
        invariant
            i <= parts@.len(),
            pv == crate::structures::strs_view(parts),
            out@.len() == i,
            forall|k: int| 0 <= k < i ==> #[trigger] out@[k]@ == trim(pv[k]),
        decreases parts.len() - i,
    {
        out.push(trimmed(parts[i].as_str()));
        i += 1;
    }
    assert(crate::structures::strs_view(out) =~= reference_parts(reference@));
    out
}

/// The link of a reference in prose whose segments are `chain`, resolved
/// from the scope `context` as any other chain: the href of its last
/// segment's item, or nothing when it does not resolve.
pub fn resolve_link_reference(
    item_provider: &crate::item::ItemProvider,
    context: &[u64],
    chain: &[u64],
) -> (r: Option<String>)
    requires
        item_provider.wf(),
        chain@.len() > 0,
    ensures
        match crate::item::resolve_spec(item_provider@, context@, chain@) {
            Some(links) => r is Some && r->Some_0@ == href(links.last()),
            None => r is None,
        },
{
    match item_provider.resolve(context, chain) {
        Some(links) => {
            proof {
                crate::item::lemma_resolve_len(item_provider@, context@, chain@);
            }
            assert(crate::item::links_view(links@).len() == chain@.len());
            let last = &links[links.len() - 1];
            Some(last.get_href())
        },
        None => None,
    }
}

} // verus!
