//! The documentation model: linked fragments, documentation items and the
//! documentation tree the assembler produces.
use vstd::prelude::*;
use crate::model::SourceSpan;

verus! {

/// Clones a list of strings, keeping every element.
pub fn clone_strings(v: &Vec<String>) -> (r: Vec<String>)
    ensures
        r@ == v@,
{
    let mut r: Vec<String> = Vec::new();
    let mut i: usize = 0;
    while i < v.len()
        invariant
            i <= v.len(),
            r@ == v@.take(i as int),
        decreases v.len() - i,
    {
        r.push(v[i].clone());
        i += 1;
        assert(r@ =~= v@.take(i as int));
    }
    assert(v@.take(v.len() as int) =~= v@);
    r
}

/// Clones an optional string.
pub fn clone_opt_string(v: &Option<String>) -> (r: Option<String>)
    ensures
        r == *v,
{
    match v {
        Some(s) => Some(s.clone()),
        None => None,
    }
}

/// The page that owns a linked item.
#[derive(Clone, Debug, PartialEq, Eq)]
pub enum Owner {
    Class(Vec<String>),
    Struct(Vec<String>),
    Enum(Vec<String>),
    Builtin(String),
    Global,
}

/// The characters of each string of a list.
pub open spec fn strs_view(v: Vec<String>) -> Seq<Seq<char>> {
    v@.map_values(|s: String| s@)
}

/// The view of an [`Owner`].
pub enum OwnerV {
    Class(Seq<Seq<char>>),
    Struct(Seq<Seq<char>>),
    Enum(Seq<Seq<char>>),
    Builtin(Seq<char>),
    Global,
}

impl Owner {
    pub open spec fn view(&self) -> OwnerV {
        match self {
            Owner::Class(v) => OwnerV::Class(strs_view(*v)),
            Owner::Struct(v) => OwnerV::Struct(strs_view(*v)),
            Owner::Enum(v) => OwnerV::Enum(strs_view(*v)),
            Owner::Builtin(s) => OwnerV::Builtin(s@),
            Owner::Global => OwnerV::Global,
        }
    }

    pub fn duplicate(&self) -> (r: Owner)
        ensures
            r@ == self@,
    {
        match self {
            Owner::Class(v) => Owner::Class(clone_strings(v)),
            Owner::Struct(v) => Owner::Struct(clone_strings(v)),
            Owner::Enum(v) => Owner::Enum(clone_strings(v)),
            Owner::Builtin(s) => Owner::Builtin(s.clone()),
            Owner::Global => Owner::Global,
        }
    }
}

/// What a linked fragment points at, with what is needed to compute its page
/// and in-page anchor.
#[derive(Clone, Debug, PartialEq, Eq)]
pub enum LinkedSectionKind {
    Struct { link: Vec<String> },
    Class { link: Vec<String> },
    Enum { link: Vec<String> },
    Builtin { link: String },
    Function { owner: Owner, link: String },
    Member { owner: Owner, link: String },
    Enumerator { owner: Owner, link: String },
    Constant { owner: Owner, link: String },
    Property { owner: Owner, link: String },
    Flag { owner: Owner, link: String },
}

/// The view of a [`LinkedSectionKind`].
pub enum KindV {
    Struct(Seq<Seq<char>>),
    Class(Seq<Seq<char>>),
    Enum(Seq<Seq<char>>),
    Builtin(Seq<char>),
    Function(OwnerV, Seq<char>),
    Member(OwnerV, Seq<char>),
    Enumerator(OwnerV, Seq<char>),
    Constant(OwnerV, Seq<char>),
    Property(OwnerV, Seq<char>),
    Flag(OwnerV, Seq<char>),
}

impl LinkedSectionKind {
    pub open spec fn view(&self) -> KindV {
        match self {
            LinkedSectionKind::Struct { link } => KindV::Struct(strs_view(*link)),
            LinkedSectionKind::Class { link } => KindV::Class(strs_view(*link)),
            LinkedSectionKind::Enum { link } => KindV::Enum(strs_view(*link)),
            LinkedSectionKind::Builtin { link } => KindV::Builtin(link@),
            LinkedSectionKind::Function { owner, link } => KindV::Function(owner@, link@),
            LinkedSectionKind::Member { owner, link } => KindV::Member(owner@, link@),
            LinkedSectionKind::Enumerator { owner, link } => KindV::Enumerator(owner@, link@),
            LinkedSectionKind::Constant { owner, link } => KindV::Constant(owner@, link@),
            LinkedSectionKind::Property { owner, link } => KindV::Property(owner@, link@),
            LinkedSectionKind::Flag { owner, link } => KindV::Flag(owner@, link@),
        }
    }

    pub fn duplicate(&self) -> (r: LinkedSectionKind)
        ensures
            r@ == self@,
    {
        match self {
            LinkedSectionKind::Struct { link } => LinkedSectionKind::Struct { link: clone_strings(link) },
            LinkedSectionKind::Class { link } => LinkedSectionKind::Class { link: clone_strings(link) },
            LinkedSectionKind::Enum { link } => LinkedSectionKind::Enum { link: clone_strings(link) },
            LinkedSectionKind::Builtin { link } => LinkedSectionKind::Builtin { link: link.clone() },
            LinkedSectionKind::Function { owner, link } => LinkedSectionKind::Function {
                owner: owner.duplicate(),
                link: link.clone(),
            },
            LinkedSectionKind::Member { owner, link } => LinkedSectionKind::Member {
                owner: owner.duplicate(),
                link: link.clone(),
            },
            LinkedSectionKind::Enumerator { owner, link } => LinkedSectionKind::Enumerator {
                owner: owner.duplicate(),
                link: link.clone(),
            },
            LinkedSectionKind::Constant { owner, link } => LinkedSectionKind::Constant {
                owner: owner.duplicate(),
                link: link.clone(),
            },
            LinkedSectionKind::Property { owner, link } => LinkedSectionKind::Property {
                owner: owner.duplicate(),
                link: link.clone(),
            },
            LinkedSectionKind::Flag { owner, link } => LinkedSectionKind::Flag {
                owner: owner.duplicate(),
                link: link.clone(),
            },
        }
    }
}

/// A resolved, linkable item: its display text, the link prefix of the
/// archive that declares it, and its kind.
#[derive(Clone, Debug, PartialEq, Eq)]
pub struct LinkedSection {
    pub link_prefix: Option<String>,
    pub text: String,
    pub kind: LinkedSectionKind,
}

/// The characters of an optional string.
pub open spec fn opt_view(o: Option<String>) -> Option<Seq<char>> {
    match o {
        Some(s) => Some(s@),
        None => None,
    }
}

/// The view of a [`LinkedSection`].
pub struct LinkV {
    pub prefix: Option<Seq<char>>,
    pub text: Seq<char>,
    pub kind: KindV,
}

impl LinkedSection {
    pub open spec fn view(&self) -> LinkV {
        LinkV { prefix: opt_view(self.link_prefix), text: self.text@, kind: self.kind@ }
    }

    pub fn duplicate(&self) -> (r: LinkedSection)
        ensures
            r@ == self@,
    {
        LinkedSection {
            link_prefix: clone_opt_string(&self.link_prefix),
            text: self.text.clone(),
            kind: self.kind.duplicate(),
        }
    }
}

/// One fragment of a reconstructed declaration.
#[derive(Clone, Debug, PartialEq, Eq)]
pub enum SourceCodeSection {
    NoLink(String),
    Linked(LinkedSection),
    /// A place where a wrapped rendering may break to an unindented line.
    PotentialNewlineOnly,
    /// A place where a wrapped rendering may break to an indented line.
    PotentialNewlineIndent,
    /// A space that only a single-line rendering shows.
    NoNewlineSpacing,
}

/// The mathematical view of a fragment: text as a sequence of characters.
pub enum SectionV {
    Text(Seq<char>),
    Link(LinkV),
    NewlineOnly,
    NewlineIndent,
    Spacing,
}

impl SourceCodeSection {
    pub open spec fn view(&self) -> SectionV {
        match self {
            SourceCodeSection::NoLink(s) => SectionV::Text(s@),
            SourceCodeSection::Linked(l) => SectionV::Link(l@),
            SourceCodeSection::PotentialNewlineOnly => SectionV::NewlineOnly,
            SourceCodeSection::PotentialNewlineIndent => SectionV::NewlineIndent,
            SourceCodeSection::NoNewlineSpacing => SectionV::Spacing,
        }
    }
}

/// Appends one fragment: plain text joins a plain-text fragment that ends the
/// list; every other fragment is appended as it is.
pub open spec fn emit(s: Seq<SectionV>, t: SectionV) -> Seq<SectionV> {
    match t {
        SectionV::Text(x) => {
            if s.len() > 0 && s.last() is Text {
                s.drop_last().push(SectionV::Text(s.last()->Text_0 + x))
            } else {
                s.push(t)
            }
        },
        _ => s.push(t),
    }
}

/// Appends the fragments of `toks` one after the other.
pub open spec fn emit_all(s: Seq<SectionV>, toks: Seq<SectionV>) -> Seq<SectionV>
    decreases toks.len(),
{
    if toks.len() == 0 {
        s
    } else {
        emit(emit_all(s, toks.drop_last()), toks.last())
    }
}

/// Appending two runs of fragments is appending their concatenation.
pub proof fn lemma_emit_all_append(s: Seq<SectionV>, a: Seq<SectionV>, b: Seq<SectionV>)
    ensures
        emit_all(emit_all(s, a), b) == emit_all(s, a + b),
    decreases b.len(),
{
    if b.len() == 0 {
        assert(a + b =~= a);
    } else {
        lemma_emit_all_append(s, a, b.drop_last());
        assert((a + b).drop_last() =~= a + b.drop_last());
        assert((a + b).last() == b.last());
    }
}

/// A declaration rebuilt as an ordered list of fragments.
#[derive(Clone, Debug, PartialEq, Eq)]
pub struct SourceCodeWithLinks {
    pub sections: Vec<SourceCodeSection>,
}

impl SourceCodeWithLinks {
    pub open spec fn view(&self) -> Seq<SectionV> {
        self.sections@.map_values(|s: SourceCodeSection| s@)
    }

    pub fn new() -> (r: SourceCodeWithLinks)
        ensures
            r@ == Seq::<SectionV>::empty(),
    {
        let r = SourceCodeWithLinks { sections: Vec::new() };
        assert(r@ =~= Seq::<SectionV>::empty());
        r
    }

    /// Appends plain text, joining it to a plain-text fragment that ends the list.
    pub fn add_no_link(&mut self, text: &str)
        ensures
            final(self)@ == emit(old(self)@, SectionV::Text(text@)),
    {
        let ghost s0 = self@;
        let last = self.sections.pop();
        match last {
            Some(SourceCodeSection::NoLink(s)) => {
                let mut s = s;
                s.append(text);
                self.sections.push(SourceCodeSection::NoLink(s));
                assert(self@ =~= emit(s0, SectionV::Text(text@)));
            },
            Some(other) => {
                self.sections.push(other);
                self.sections.push(SourceCodeSection::NoLink(text.to_string()));
                assert(self@ =~= emit(s0, SectionV::Text(text@)));
            },
            None => {
                self.sections.push(SourceCodeSection::NoLink(text.to_string()));
                assert(self@ =~= emit(s0, SectionV::Text(text@)));
            },
        }
    }

    /// Appends a linked fragment.
    pub fn add_link(&mut self, sec: LinkedSection)
        ensures
            final(self)@ == emit(old(self)@, SectionV::Link(sec@)),
    {
        let ghost s0 = self@;
        self.sections.push(SourceCodeSection::Linked(sec));
        assert(self@ =~= emit(s0, SectionV::Link(sec@)));
    }

    /// Appends a break to an indented line, followed by the space that a
    /// single-line rendering shows in its place.
    pub fn add_newline_indent_or_spacing(&mut self)
        ensures
            final(self)@ == emit(emit(old(self)@, SectionV::NewlineIndent), SectionV::Spacing),
    {
        self.add_newline_indent();
        let ghost s1 = self@;
        self.sections.push(SourceCodeSection::NoNewlineSpacing);
        assert(self@ =~= emit(s1, SectionV::Spacing));
    }

    /// Appends a place where a wrapped rendering may break to an indented line.
    pub fn add_newline_indent(&mut self)
        ensures
            final(self)@ == emit(old(self)@, SectionV::NewlineIndent),
    {
        let ghost s0 = self@;
        self.sections.push(SourceCodeSection::PotentialNewlineIndent);
        assert(self@ =~= emit(s0, SectionV::NewlineIndent));
    }

    /// Appends a place where a wrapped rendering may break to an unindented line.
    pub fn add_newline_no_indent(&mut self)
        ensures
            final(self)@ == emit(old(self)@, SectionV::NewlineOnly),
    {
        let ghost s0 = self@;
        self.sections.push(SourceCodeSection::PotentialNewlineOnly);
        assert(self@ =~= emit(s0, SectionV::NewlineOnly));
    }
}

} // verus!

verus! {

/// The link target of one dependency archive.
#[derive(Clone, Debug, PartialEq, Eq)]
pub struct Dependency {
    pub link: String,
}

/// The dependency archives in processing order; the primary archive comes
/// after all of them.
#[derive(Clone, Debug, PartialEq, Eq)]
pub struct Dependencies {
    pub dependency_links: Vec<Dependency>,
}

/// The base link prefix of archive `archive_num`: the dependency's link, or
/// none for the primary archive.
pub open spec fn link_prefix_of(deps: Seq<Dependency>, archive_num: int) -> Option<Seq<char>> {
    if 0 <= archive_num < deps.len() {
        Some(deps[archive_num].link@)
    } else {
        None
    }
}

impl Dependencies {
    /// The index of the primary archive, which is processed last.
    pub fn get_final_archive_num(&self) -> (r: usize)
        ensures
            r == self.dependency_links@.len(),
    {
        self.dependency_links.len()
    }

    pub fn get_link_prefix(&self, archive_num: usize) -> (r: Option<String>)
        ensures
            opt_view(r) == link_prefix_of(self.dependency_links@, archive_num as int),
    {
        if archive_num < self.dependency_links.len() {
            Some(self.dependency_links[archive_num].link.clone())
        } else {
            None
        }
    }
}

} // verus!

verus! {

pub proof fn lemma_emit_all_one(s: Seq<SectionV>, t: SectionV)
    ensures
        emit_all(s, seq![t]) == emit(s, t),
{
    assert(seq![t].drop_last() =~= Seq::<SectionV>::empty());
    assert(emit_all(s, Seq::<SectionV>::empty()) == s);
}

} // verus!

verus! {

/// Deprecation as documented: `major.minor.revision` and the message.
#[derive(Clone, Debug, PartialEq, Eq)]
pub struct Deprecated {
    pub version: String,
    pub reason: String,
}

#[derive(Clone, Debug, PartialEq, Eq)]
pub struct MemberVariable {
    pub context: Vec<u64>,
    pub doc_comment: String,
    pub span: SourceSpan,
    pub name: String,
    pub def: SourceCodeWithLinks,
    pub deprecated: Option<Deprecated>,
}

#[derive(Clone, Debug, PartialEq, Eq)]
pub struct Function {
    pub context: Vec<u64>,
    pub name: String,
    pub span: SourceSpan,
    pub doc_comment: String,
    pub signature: SourceCodeWithLinks,
    /// The virtual function of an ancestor that this function overrides.
    pub overrides: Option<LinkedSection>,
    pub deprecated: Option<Deprecated>,
}

#[derive(Clone, Debug, PartialEq, Eq)]
pub struct Property {
    pub context: Vec<u64>,
    pub name: String,
    pub span: SourceSpan,
    pub doc_comment: String,
    pub def: SourceCodeWithLinks,
}

#[derive(Clone, Debug, PartialEq, Eq)]
pub struct Flag {
    pub context: Vec<u64>,
    pub name: String,
    pub span: SourceSpan,
    pub doc_comment: String,
    pub def: SourceCodeWithLinks,
}

#[derive(Clone, Debug, PartialEq, Eq)]
pub struct Constant {
    pub context: Vec<u64>,
    pub doc_comment: String,
    pub span: SourceSpan,
    pub name: String,
    pub def: SourceCodeWithLinks,
}

/// The member variables and functions of one visibility.
#[derive(Clone, Debug, PartialEq, Eq)]
pub struct VariablesAndFunctions {
    pub variables: Vec<MemberVariable>,
    pub functions: Vec<Function>,
}

#[derive(Clone, Debug, PartialEq, Eq)]
pub struct Class {
    pub context: Vec<u64>,
    pub name: String,
    pub span: SourceSpan,
    /// The linked ancestor; none for the universal base class itself.
    pub inherits: Option<SourceCodeWithLinks>,
    pub doc_comment: String,
    pub overrides: Vec<Function>,
    pub public: VariablesAndFunctions,
    pub protected: VariablesAndFunctions,
    pub private: VariablesAndFunctions,
    pub inner_structs: Vec<Struct>,
    pub inner_enums: Vec<Enum>,
    pub constants: Vec<Constant>,
    pub properties: Vec<Property>,
    pub flags: Vec<Flag>,
}

#[derive(Clone, Debug, PartialEq, Eq)]
pub struct Struct {
    pub context: Vec<u64>,
    pub name: String,
    pub no_context_name: String,
    pub span: SourceSpan,
    pub doc_comment: String,
    pub public: VariablesAndFunctions,
    pub protected: VariablesAndFunctions,
    pub private: VariablesAndFunctions,
    pub inner_enums: Vec<Enum>,
    pub constants: Vec<Constant>,
}

#[derive(Clone, Debug, PartialEq, Eq)]
pub struct Enumerator {
    pub context: Vec<u64>,
    pub name: String,
    pub span: SourceSpan,
    pub doc_comment: String,
    pub decl: SourceCodeWithLinks,
}

#[derive(Clone, Debug, PartialEq, Eq)]
pub struct Enum {
    pub context: Vec<u64>,
    pub name: String,
    pub no_context_name: String,
    pub span: SourceSpan,
    pub doc_comment: String,
    pub enumerators: Vec<Enumerator>,
}

#[derive(Clone, Debug, PartialEq, Eq)]
pub struct Builtin {
    pub context: Vec<u64>,
    pub name: String,
    pub filename: String,
    pub doc_comment: String,
    pub variables: Vec<MemberVariable>,
    pub functions: Vec<Function>,
    pub constants: Vec<Constant>,
}

/// The documentation tree of the primary archive.
#[derive(Clone, Debug, PartialEq, Eq)]
pub struct Documentation {
    pub name: String,
    pub classes: Vec<Class>,
    pub structs: Vec<Struct>,
    pub enums: Vec<Enum>,
    pub builtins: Vec<Builtin>,
    pub constants: Vec<Constant>,
    pub summary_doc: String,
}

} // verus!

verus! {

/// The list an optional list stands for: empty when absent.
pub fn option_vec_to_vec<T>(v: Option<Vec<T>>) -> (r: Vec<T>)
    ensures
        r@ == match v {
            Some(x) => x@,
            None => Seq::<T>::empty(),
        },
{
    match v {
        Some(x) => x,
        None => Vec::new(),
    }
}

/// The slice an optional slice stands for: empty when absent.
pub fn option_slice_to_slice<T>(v: Option<&[T]>) -> (r: &[T])
    ensures
        r@ == match v {
            Some(x) => x@,
            None => Seq::<T>::empty(),
        },
{
    match v {
        Some(x) => x,
        None => &[],
    }
}

/// The root file of an archive when its configuration names none.
pub fn base_file_default() -> (r: String)
    ensures
        r@ == "zscript"@,
{
    "zscript".to_string()
}

} // verus!
