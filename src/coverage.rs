//! The coverage view: every documented item with whether it has
//! documentation text, the file it comes from and its qualified path.
use vstd::prelude::*;
use crate::structures::{
    clone_strings, strs_view, Builtin, Class, Constant, Documentation, Enum, Enumerator, Flag, Function,
    MemberVariable, Property, Struct,
};
use crate::model::SourceSpan;

verus! {

#[derive(Clone, Copy, Debug, PartialEq, Eq, Structural)]
pub enum CoverageKind {
    Summary,
    Struct,
    Class,
    Enum,
    Builtin,
    Function,
    Member,
    Enumerator,
    Constant,
    Property,
    Flag,
}

#[derive(Clone, Debug, PartialEq, Eq)]
pub struct CoverageItem {
    pub covered: bool,
    pub kind: CoverageKind,
    pub filename: String,
    pub path: Vec<String>,
}

/// The view of a coverage item.
pub open spec fn cov_view(c: CoverageItem) -> (bool, CoverageKind, Seq<char>, Seq<Seq<char>>) {
    (c.covered, c.kind, c.filename@, strs_view(c.path))
}

pub open spec fn covs_view(v: Seq<CoverageItem>) -> Seq<(bool, CoverageKind, Seq<char>, Seq<Seq<char>>)> {
    v.map_values(|c: CoverageItem| cov_view(c))
}

/// The name of file `i`, or nothing when there is no such file.
pub open spec fn file_name(files: Seq<String>, i: int) -> Seq<char> {
    if 0 <= i < files.len() {
        files[i]@
    } else {
        Seq::empty()
    }
}

fn file_of(files: &Vec<String>, span: SourceSpan) -> (r: String)
    ensures
        r@ == file_name(files@, span.file as int),
{
    if span.file < files.len() {
        files[span.file].clone()
    } else {
        String::new()
    }
}

/// `s` split at each dot.
pub open spec fn split_dots(s: Seq<char>) -> Seq<Seq<char>>
    decreases s.len(),
{
    if s.len() == 0 {
        seq![Seq::empty()]
    } else {
        let prev = split_dots(s.drop_last());
        if s.last() == '.' {
            prev.push(Seq::empty())
        } else {
            prev.drop_last().push(prev.last().push(s.last()))
        }
    }
}

pub fn split_at_dots(s: &String) -> (r: Vec<String>)
    ensures
        strs_view(r) == split_dots(s@),
{
    let ghost sv = s@;
    let st = s.as_str();
    let n = st.unicode_len();
    let mut parts: Vec<String> = Vec::new();
    let mut start: usize = 0;
    let mut i: usize = 0;
    assert(sv.take(0) =~= Seq::<char>::empty());
    assert(strs_view(parts).push(sv.subrange(0, 0)) =~= split_dots(sv.take(0)));
    while i < n
        invariant
            sv == s@,
            st@ == sv,
            n == sv.len(),
            start <= i <= n,
            strs_view(parts).push(sv.subrange(start as int, i as int)) == split_dots(sv.take(i as int)),
        decreases n - i,
    {
        let c = st.get_char(i);
        assert(sv.take(i + 1).drop_last() =~= sv.take(i as int));
        assert(sv.take(i + 1).last() == c);
        let ghost prev = split_dots(sv.take(i as int));
        let ghost p0 = strs_view(parts);
        if c == '.' {
            let ghost s0 = start;
            let seg = st.substring_char(start, i).to_string();
            parts.push(seg);
            start = i + 1;
            assert(strs_view(parts) =~= p0.push(sv.subrange(s0 as int, i as int)));
            assert(sv.subrange(start as int, i + 1) =~= Seq::<char>::empty());
            assert(strs_view(parts).push(sv.subrange(start as int, i + 1)) =~= prev.push(Seq::empty()));
        } else {
            assert(prev.drop_last() =~= p0);
            assert(sv.subrange(start as int, i + 1) =~= sv.subrange(start as int, i as int).push(c));
            assert(strs_view(parts).push(sv.subrange(start as int, i + 1)) =~= prev.drop_last().push(prev.last().push(c)));
        }
        i += 1;
    }
    assert(sv.take(n as int) =~= sv);
    let ghost p0 = strs_view(parts);
    let seg = st.substring_char(start, n).to_string();
    parts.push(seg);
    assert(strs_view(parts) =~= p0.push(sv.subrange(start as int, n as int)));
    parts
}

} // verus!

verus! {
pub type CovV = (bool, CoverageKind, Seq<char>, Seq<Seq<char>>);

fn leaf_item(doc: &String, kind: CoverageKind, files: &Vec<String>, span: SourceSpan, path: &Vec<String>, name: &String) -> (r: CoverageItem)
    ensures
        cov_view(r) == (doc@.len() > 0, kind, file_name(files@, span.file as int), strs_view(*path).push(name@)),
{
    let mut p = clone_strings(path);
    let ghost p0 = p@;
    p.push(name.clone());
    assert(strs_view(p) =~= strs_view(*path).push(name@));
    CoverageItem { covered: !doc.as_str().is_empty(), kind, filename: file_of(files, span), path: p }
}

pub open spec fn fns_cov(v: Seq<Function>, path: Seq<Seq<char>>, files: Seq<String>) -> Seq<CovV> {
    v.map_values(|x: Function| (x.doc_comment@.len() > 0, CoverageKind::Function, file_name(files, x.span.file as int), path.push(x.name@)))
}

fn add_fns(out: &mut Vec<CoverageItem>, v: &Vec<Function>, path: &Vec<String>, files: &Vec<String>)
    ensures
        covs_view(final(out)@) == covs_view(old(out)@) + fns_cov(v@, strs_view(*path), files@),
{
    let ghost o0 = covs_view(out@);
    let mut i: usize = 0;
    assert(o0 + fns_cov(v@.take(0), strs_view(*path), files@) =~= o0);
    while i < v.len()
        invariant
            i <= v@.len(),
            covs_view(out@) == o0 + fns_cov(v@.take(i as int), strs_view(*path), files@),
        decreases v.len() - i,
    {
        let x = &v[i];
        let ghost before = covs_view(out@);
        out.push(leaf_item(&x.doc_comment, CoverageKind::Function, files, x.span, path, &x.name));
        assert(covs_view(out@) =~= before.push(covs_view(out@).last()));
        assert(o0 + fns_cov(v@.take(i + 1), strs_view(*path), files@) =~= before.push(covs_view(out@).last()));
        i += 1;
    }
    assert(v@.take(v@.len() as int) =~= v@);
}

pub open spec fn vars_cov(v: Seq<MemberVariable>, path: Seq<Seq<char>>, files: Seq<String>) -> Seq<CovV> {
    v.map_values(|x: MemberVariable| (x.doc_comment@.len() > 0, CoverageKind::Member, file_name(files, x.span.file as int), path.push(x.name@)))
}

fn add_vars(out: &mut Vec<CoverageItem>, v: &Vec<MemberVariable>, path: &Vec<String>, files: &Vec<String>)
    ensures
        covs_view(final(out)@) == covs_view(old(out)@) + vars_cov(v@, strs_view(*path), files@),
{
    let ghost o0 = covs_view(out@);
    let mut i: usize = 0;
    assert(o0 + vars_cov(v@.take(0), strs_view(*path), files@) =~= o0);
    while i < v.len()
        invariant
            i <= v@.len(),
            covs_view(out@) == o0 + vars_cov(v@.take(i as int), strs_view(*path), files@),
        decreases v.len() - i,
    {
        let x = &v[i];
        let ghost before = covs_view(out@);
        out.push(leaf_item(&x.doc_comment, CoverageKind::Member, files, x.span, path, &x.name));
        assert(covs_view(out@) =~= before.push(covs_view(out@).last()));
        assert(o0 + vars_cov(v@.take(i + 1), strs_view(*path), files@) =~= before.push(covs_view(out@).last()));
        i += 1;
    }
    assert(v@.take(v@.len() as int) =~= v@);
}

pub open spec fn consts_cov(v: Seq<Constant>, path: Seq<Seq<char>>, files: Seq<String>) -> Seq<CovV> {
    v.map_values(|x: Constant| (x.doc_comment@.len() > 0, CoverageKind::Constant, file_name(files, x.span.file as int), path.push(x.name@)))
}

fn add_consts(out: &mut Vec<CoverageItem>, v: &Vec<Constant>, path: &Vec<String>, files: &Vec<String>)
    ensures
        covs_view(final(out)@) == covs_view(old(out)@) + consts_cov(v@, strs_view(*path), files@),
{
    let ghost o0 = covs_view(out@);
    let mut i: usize = 0;
    assert(o0 + consts_cov(v@.take(0), strs_view(*path), files@) =~= o0);
    while i < v.len()
        invariant
            i <= v@.len(),
            covs_view(out@) == o0 + consts_cov(v@.take(i as int), strs_view(*path), files@),
        decreases v.len() - i,
    {
        let x = &v[i];
        let ghost before = covs_view(out@);
        out.push(leaf_item(&x.doc_comment, CoverageKind::Constant, files, x.span, path, &x.name));
        assert(covs_view(out@) =~= before.push(covs_view(out@).last()));
        assert(o0 + consts_cov(v@.take(i + 1), strs_view(*path), files@) =~= before.push(covs_view(out@).last()));
        i += 1;
    }
    assert(v@.take(v@.len() as int) =~= v@);
}

pub open spec fn props_cov(v: Seq<Property>, path: Seq<Seq<char>>, files: Seq<String>) -> Seq<CovV> {
    v.map_values(|x: Property| (x.doc_comment@.len() > 0, CoverageKind::Property, file_name(files, x.span.file as int), path.push(x.name@)))
}

fn add_props(out: &mut Vec<CoverageItem>, v: &Vec<Property>, path: &Vec<String>, files: &Vec<String>)
    ensures
        covs_view(final(out)@) == covs_view(old(out)@) + props_cov(v@, strs_view(*path), files@),
{
    let ghost o0 = covs_view(out@);
    let mut i: usize = 0;
    assert(o0 + props_cov(v@.take(0), strs_view(*path), files@) =~= o0);
    while i < v.len()
        invariant
            i <= v@.len(),
            covs_view(out@) == o0 + props_cov(v@.take(i as int), strs_view(*path), files@),
        decreases v.len() - i,
    {
        let x = &v[i];
        let ghost before = covs_view(out@);
        out.push(leaf_item(&x.doc_comment, CoverageKind::Property, files, x.span, path, &x.name));
        assert(covs_view(out@) =~= before.push(covs_view(out@).last()));
        assert(o0 + props_cov(v@.take(i + 1), strs_view(*path), files@) =~= before.push(covs_view(out@).last()));
        i += 1;
    }
    assert(v@.take(v@.len() as int) =~= v@);
}

pub open spec fn flags_cov(v: Seq<Flag>, path: Seq<Seq<char>>, files: Seq<String>) -> Seq<CovV> {
    v.map_values(|x: Flag| (x.doc_comment@.len() > 0, CoverageKind::Flag, file_name(files, x.span.file as int), path.push(x.name@)))
}

fn add_flags(out: &mut Vec<CoverageItem>, v: &Vec<Flag>, path: &Vec<String>, files: &Vec<String>)
    ensures
        covs_view(final(out)@) == covs_view(old(out)@) + flags_cov(v@, strs_view(*path), files@),
{
    let ghost o0 = covs_view(out@);
    let mut i: usize = 0;
    assert(o0 + flags_cov(v@.take(0), strs_view(*path), files@) =~= o0);
    while i < v.len()
        invariant
            i <= v@.len(),
            covs_view(out@) == o0 + flags_cov(v@.take(i as int), strs_view(*path), files@),
        decreases v.len() - i,
    {
        let x = &v[i];
        let ghost before = covs_view(out@);
        out.push(leaf_item(&x.doc_comment, CoverageKind::Flag, files, x.span, path, &x.name));
        assert(covs_view(out@) =~= before.push(covs_view(out@).last()));
        assert(o0 + flags_cov(v@.take(i + 1), strs_view(*path), files@) =~= before.push(covs_view(out@).last()));
        i += 1;
    }
    assert(v@.take(v@.len() as int) =~= v@);
}

pub open spec fn enumerators_cov(v: Seq<Enumerator>, path: Seq<Seq<char>>, files: Seq<String>) -> Seq<CovV> {
    v.map_values(|x: Enumerator| (x.doc_comment@.len() > 0, CoverageKind::Enumerator, file_name(files, x.span.file as int), path.push(x.name@)))
}

fn add_enumerators(out: &mut Vec<CoverageItem>, v: &Vec<Enumerator>, path: &Vec<String>, files: &Vec<String>)
    ensures
        covs_view(final(out)@) == covs_view(old(out)@) + enumerators_cov(v@, strs_view(*path), files@),
{
    let ghost o0 = covs_view(out@);
    let mut i: usize = 0;
    assert(o0 + enumerators_cov(v@.take(0), strs_view(*path), files@) =~= o0);
    while i < v.len()
        invariant
            i <= v@.len(),
            covs_view(out@) == o0 + enumerators_cov(v@.take(i as int), strs_view(*path), files@),
        decreases v.len() - i,
    {
        let x = &v[i];
        let ghost before = covs_view(out@);
        out.push(leaf_item(&x.doc_comment, CoverageKind::Enumerator, files, x.span, path, &x.name));
        assert(covs_view(out@) =~= before.push(covs_view(out@).last()));
        assert(o0 + enumerators_cov(v@.take(i + 1), strs_view(*path), files@) =~= before.push(covs_view(out@).last()));
        i += 1;
    }
    assert(v@.take(v@.len() as int) =~= v@);
}

/// The coverage of an enum and of its enumerators.
pub open spec fn enum_cov(e: Enum, files: Seq<String>) -> Seq<CovV> {
    seq![(e.doc_comment@.len() > 0, CoverageKind::Enum, file_name(files, e.span.file as int), split_dots(e.name@))]
        + enumerators_cov(e.enumerators@, split_dots(e.name@), files)
}

pub open spec fn enums_cov(v: Seq<Enum>, files: Seq<String>) -> Seq<CovV>
    decreases v.len(),
{
    if v.len() == 0 {
        Seq::empty()
    } else {
        enums_cov(v.drop_last(), files) + enum_cov(v.last(), files)
    }
}

/// The coverage of a struct: itself, its public and protected members and
/// functions, its enums and its constants.
pub open spec fn struct_cov(s: Struct, files: Seq<String>) -> Seq<CovV> {
    let p = split_dots(s.name@);
    seq![(s.doc_comment@.len() > 0, CoverageKind::Struct, file_name(files, s.span.file as int), p)]
        + vars_cov(s.public.variables@, p, files) + fns_cov(s.public.functions@, p, files)
        + vars_cov(s.protected.variables@, p, files) + fns_cov(s.protected.functions@, p, files)
        + enums_cov(s.inner_enums@, files) + consts_cov(s.constants@, p, files)
}

pub open spec fn structs_cov(v: Seq<Struct>, files: Seq<String>) -> Seq<CovV>
    decreases v.len(),
{
    if v.len() == 0 {
        Seq::empty()
    } else {
        structs_cov(v.drop_last(), files) + struct_cov(v.last(), files)
    }
}

/// The coverage of a class: itself, its public and protected members and
/// functions, its structs, enums, constants, properties and flags.
pub open spec fn class_cov(c: Class, files: Seq<String>) -> Seq<CovV> {
    let p = split_dots(c.name@);
    seq![(c.doc_comment@.len() > 0, CoverageKind::Class, file_name(files, c.span.file as int), p)]
        + vars_cov(c.public.variables@, p, files) + fns_cov(c.public.functions@, p, files)
        + vars_cov(c.protected.variables@, p, files) + fns_cov(c.protected.functions@, p, files)
        + structs_cov(c.inner_structs@, files) + enums_cov(c.inner_enums@, files)
        + consts_cov(c.constants@, p, files) + props_cov(c.properties@, p, files) + flags_cov(c.flags@, p, files)
}

pub open spec fn classes_cov(v: Seq<Class>, files: Seq<String>) -> Seq<CovV>
    decreases v.len(),
{
    if v.len() == 0 {
        Seq::empty()
    } else {
        classes_cov(v.drop_last(), files) + class_cov(v.last(), files)
    }
}

/// The coverage of a builtin: itself, then its members, functions and
/// constants.
pub open spec fn builtin_cov(b: Builtin, files: Seq<String>) -> Seq<CovV> {
    let p = seq![b.name@];
    seq![(b.doc_comment@.len() > 0, CoverageKind::Builtin, b.filename@, p)]
        + vars_cov(b.variables@, p, files) + fns_cov(b.functions@, p, files) + consts_cov(b.constants@, p, files)
}

pub open spec fn builtins_cov(v: Seq<Builtin>, files: Seq<String>) -> Seq<CovV>
    decreases v.len(),
{
    if v.len() == 0 {
        Seq::empty()
    } else {
        builtins_cov(v.drop_last(), files) + builtin_cov(v.last(), files)
    }
}

fn header(doc: &String, kind: CoverageKind, filename: String, path: Vec<String>) -> (r: CoverageItem)
    ensures
        cov_view(r) == (doc@.len() > 0, kind, filename@, strs_view(path)),
{
    CoverageItem { covered: !doc.as_str().is_empty(), kind, filename, path }
}

impl Enum {
    pub fn coverage(&self, out: &mut Vec<CoverageItem>, files: &Vec<String>)
        ensures
            covs_view(final(out)@) == covs_view(old(out)@) + enum_cov(*self, files@),
    {
        let ghost o0 = covs_view(out@);
        let path = split_at_dots(&self.name);
        out.push(header(&self.doc_comment, CoverageKind::Enum, file_of(files, self.span), clone_strings(&path)));
        let ghost o1 = covs_view(out@);
        assert(o1 =~= o0 + seq![o1.last()]);
        add_enumerators(out, &self.enumerators, &path, files);
    }
}

fn add_enums(out: &mut Vec<CoverageItem>, v: &Vec<Enum>, files: &Vec<String>)
    ensures
        covs_view(final(out)@) == covs_view(old(out)@) + enums_cov(v@, files@),
{
    let ghost o0 = covs_view(out@);
    let mut i: usize = 0;
    assert(v@.take(0) =~= Seq::<Enum>::empty());
    assert(o0 + enums_cov(v@.take(0), files@) =~= o0);
    while i < v.len()
        invariant
            i <= v@.len(),
            covs_view(out@) == o0 + enums_cov(v@.take(i as int), files@),
        decreases v.len() - i,
    {
        assert(v@.take(i + 1).drop_last() =~= v@.take(i as int));
        v[i].coverage(out, files);
        i += 1;
    }
    assert(v@.take(v@.len() as int) =~= v@);
}

impl Struct {
    pub fn coverage(&self, out: &mut Vec<CoverageItem>, files: &Vec<String>)
        ensures
            covs_view(final(out)@) == covs_view(old(out)@) + struct_cov(*self, files@),
    {
        let ghost o0 = covs_view(out@);
        let path = split_at_dots(&self.name);
        out.push(header(&self.doc_comment, CoverageKind::Struct, file_of(files, self.span), clone_strings(&path)));
        let ghost o1 = covs_view(out@);
        assert(o1 =~= o0 + seq![o1.last()]);
        add_vars(out, &self.public.variables, &path, files);
        add_fns(out, &self.public.functions, &path, files);
        add_vars(out, &self.protected.variables, &path, files);
        add_fns(out, &self.protected.functions, &path, files);
        add_enums(out, &self.inner_enums, files);
        add_consts(out, &self.constants, &path, files);
    }
}

fn add_structs(out: &mut Vec<CoverageItem>, v: &Vec<Struct>, files: &Vec<String>)
    ensures
        covs_view(final(out)@) == covs_view(old(out)@) + structs_cov(v@, files@),
{
    let ghost o0 = covs_view(out@);
    let mut i: usize = 0;
    assert(v@.take(0) =~= Seq::<Struct>::empty());
    assert(o0 + structs_cov(v@.take(0), files@) =~= o0);
    while i < v.len()
        invariant
            i <= v@.len(),
            covs_view(out@) == o0 + structs_cov(v@.take(i as int), files@),
        decreases v.len() - i,
    {
        assert(v@.take(i + 1).drop_last() =~= v@.take(i as int));
        v[i].coverage(out, files);
        i += 1;
    }
    assert(v@.take(v@.len() as int) =~= v@);
}

impl Class {
    pub fn coverage(&self, out: &mut Vec<CoverageItem>, files: &Vec<String>)
        ensures
            covs_view(final(out)@) == covs_view(old(out)@) + class_cov(*self, files@),
    {
        let ghost o0 = covs_view(out@);
        let path = split_at_dots(&self.name);
        out.push(header(&self.doc_comment, CoverageKind::Class, file_of(files, self.span), clone_strings(&path)));
        let ghost o1 = covs_view(out@);
        assert(o1 =~= o0 + seq![o1.last()]);
        add_vars(out, &self.public.variables, &path, files);
        add_fns(out, &self.public.functions, &path, files);
        add_vars(out, &self.protected.variables, &path, files);
        add_fns(out, &self.protected.functions, &path, files);
        add_structs(out, &self.inner_structs, files);
        add_enums(out, &self.inner_enums, files);
        add_consts(out, &self.constants, &path, files);
        add_props(out, &self.properties, &path, files);
        add_flags(out, &self.flags, &path, files);
    }
}

impl Builtin {
    pub fn coverage(&self, out: &mut Vec<CoverageItem>, files: &Vec<String>)
        ensures
            covs_view(final(out)@) == covs_view(old(out)@) + builtin_cov(*self, files@),
    {
        let ghost o0 = covs_view(out@);
        let mut path: Vec<String> = Vec::new();
        path.push(self.name.clone());
        assert(strs_view(path) =~= seq![self.name@]);
        out.push(header(&self.doc_comment, CoverageKind::Builtin, self.filename.clone(), clone_strings(&path)));
        let ghost o1 = covs_view(out@);
        assert(o1 =~= o0 + seq![o1.last()]);
        add_vars(out, &self.variables, &path, files);
        add_fns(out, &self.functions, &path, files);
        add_consts(out, &self.constants, &path, files);
    }
}

/// The coverage of a documentation tree.
pub open spec fn documentation_cov(d: Documentation, base: Seq<char>, files: Seq<String>) -> Seq<CovV> {
    seq![(d.summary_doc@.len() > 0, CoverageKind::Summary, base + "/docs/summary.md"@, seq![d.name@])]
        + classes_cov(d.classes@, files) + structs_cov(d.structs@, files) + enums_cov(d.enums@, files)
        + builtins_cov(d.builtins@, files) + consts_cov(d.constants@, Seq::empty(), files)
}

impl Documentation {
    /// Every documented item, in page order, with whether it has
    /// documentation text, its file and its qualified path; `files` names the
    /// source files by index.
    pub fn coverage(&self, base: &String, files: &Vec<String>) -> (r: Vec<CoverageItem>)
        ensures
            covs_view(r@) == documentation_cov(*self, base@, files@),
    {
        let mut out: Vec<CoverageItem> = Vec::new();
        let mut path: Vec<String> = Vec::new();
        path.push(self.name.clone());
        assert(strs_view(path) =~= seq![self.name@]);
        let mut summary_file = base.clone();
        summary_file.append("/docs/summary.md");
        out.push(header(&self.summary_doc, CoverageKind::Summary, summary_file, path));
        let ghost o1 = covs_view(out@);
        assert(o1 =~= seq![o1.last()]);
        let mut i: usize = 0;
        assert(self.classes@.take(0) =~= Seq::<Class>::empty());
        assert(o1 + classes_cov(self.classes@.take(0), files@) =~= o1);
        while i < self.classes.len()
            invariant
                i <= self.classes@.len(),
                covs_view(out@) == o1 + classes_cov(self.classes@.take(i as int), files@),
            decreases self.classes.len() - i,
        {
            assert(self.classes@.take(i + 1).drop_last() =~= self.classes@.take(i as int));
            self.classes[i].coverage(&mut out, files);
            i += 1;
        }
        assert(self.classes@.take(self.classes@.len() as int) =~= self.classes@);
        add_structs(&mut out, &self.structs, files);
        add_enums(&mut out, &self.enums, files);
        let ghost o2 = covs_view(out@);
        let mut i: usize = 0;
        assert(self.builtins@.take(0) =~= Seq::<Builtin>::empty());
        assert(o2 + builtins_cov(self.builtins@.take(0), files@) =~= o2);
        while i < self.builtins.len()
            invariant
                i <= self.builtins@.len(),
                covs_view(out@) == o2 + builtins_cov(self.builtins@.take(i as int), files@),
            decreases self.builtins.len() - i,
        {
            assert(self.builtins@.take(i + 1).drop_last() =~= self.builtins@.take(i as int));
            self.builtins[i].coverage(&mut out, files);
            i += 1;
        }
        assert(self.builtins@.take(self.builtins@.len() as int) =~= self.builtins@);
        let empty: Vec<String> = Vec::new();
        assert(strs_view(empty) =~= Seq::<Seq<char>>::empty());
        add_consts(&mut out, &self.constants, &empty, files);
        out
    }
}

/// All coverage items, and those without documentation text.
#[derive(Clone, Debug, PartialEq, Eq)]
pub struct CoverageBreakdown {
    pub all: Vec<CoverageItem>,
    pub not_covered: Vec<CoverageItem>,
}

/// The items without documentation text, in order.
pub open spec fn uncovered(v: Seq<CovV>) -> Seq<CovV>
    decreases v.len(),
{
    if v.len() == 0 {
        Seq::empty()
    } else {
        uncovered(v.drop_last()) + if v.last().0 {
            Seq::empty()
        } else {
            seq![v.last()]
        }
    }
}

pub fn coverage_breakdown(all: Vec<CoverageItem>) -> (r: CoverageBreakdown)
    ensures
        covs_view(r.all@) == covs_view(all@),
        covs_view(r.not_covered@) == uncovered(covs_view(all@)),
{
    let ghost av = covs_view(all@);
    let mut not_covered: Vec<CoverageItem> = Vec::new();
    let mut i: usize = 0;
    assert(av.take(0) =~= Seq::<CovV>::empty());
    assert(covs_view(not_covered@) =~= Seq::<CovV>::empty());
    while i < all.len()
        invariant
            av == covs_view(all@),
            i <= all@.len(),
            covs_view(not_covered@) == uncovered(av.take(i as int)),
        decreases all.len() - i,
    {
        assert(av.take(i + 1).drop_last() =~= av.take(i as int));
        let ghost before = covs_view(not_covered@);
        if !all[i].covered {
            let c = &all[i];
            not_covered.push(CoverageItem {
                covered: c.covered,
                kind: c.kind,
                filename: c.filename.clone(),
                path: clone_strings(&c.path),
            });
            assert(covs_view(not_covered@) =~= before.push(av[i as int]));
        } else {
            assert(before + Seq::<CovV>::empty() =~= before);
        }
        i += 1;
    }
    assert(av.take(av.len() as int) =~= av);
    CoverageBreakdown { all, not_covered }
}

impl CoverageBreakdown {
    /// The number of items with documentation text.
    pub fn covered_count(&self) -> (r: usize)
        ensures
            self.not_covered@.len() <= self.all@.len() ==> r == self.all@.len() - self.not_covered@.len(),
    {
        if self.not_covered.len() > self.all.len() {
            0
        } else {
            self.all.len() - self.not_covered.len()
        }
    }
}

} // verus!

verus! {

/// How much of the coverage a report shows.
#[derive(Clone, Copy, Debug, PartialEq, Eq, Structural)]
pub enum CoverageLevel {
    /// The proportion of documented items only.
    Percentage,
    /// Also the documented count per file.
    Breakdown,
    /// Also every item without documentation.
    Verbose,
}

} // verus!
