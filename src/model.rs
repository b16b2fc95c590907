//! The semantic tree handed to the library: classes, structs, enums,
//! functions, members and constants of every archive, already lowered by the
//! front-end.
use vstd::prelude::*;

verus! {

/// Where a declaration stands in its source: file index, then start and end
/// offsets. Spans order lexicographically in that field order.
#[derive(Clone, Copy, Debug, PartialEq, Eq, Structural)]
pub struct SourceSpan {
    pub file: usize,
    pub start: usize,
    pub end: usize,
}

/// An identifier: its interned, case-insensitive identity and its spelling in
/// the source.
#[derive(Clone, Debug, PartialEq, Eq)]
pub struct Ident {
    pub sym: u64,
    pub text: String,
}

/// Deprecation metadata: the version triple and an optional message.
#[derive(Clone, Debug, PartialEq, Eq)]
pub struct DeprecationInfo {
    pub major: u64,
    pub minor: u64,
    pub revision: u64,
    pub message: Option<String>,
}

/// A type annotation as written in a declaration.
#[derive(Debug)]
pub enum TypeRef {
    /// A single user type name.
    Single(Ident),
    /// A dotted user type, with the source spelling of the whole chain.
    Dotted(Vec<Ident>, String),
    /// `@T`.
    Native(Ident),
    /// `ReadOnly< T >`.
    ReadOnly(Ident),
    /// `ReadOnly< @T >`.
    ReadOnlyNative(Ident),
    /// `Class< T >`; `None` stands for the universal base class.
    ClassOf(Option<(Vec<Ident>, String)>),
    /// `Map< K, V >`.
    MapOf(Box<TypeRef>, Box<TypeRef>),
    /// A fixed array `T[n]`, with the source spelling of its size, if any.
    Array(Box<TypeRef>, Option<String>),
    /// `Array< T >`.
    DynArray(Box<TypeRef>),
    /// The inferred `let` type.
    Let,
    /// A type the front-end could not lower.
    Error,
}

pub const FN_NATIVE: u32 = 0x1;
pub const FN_STATIC: u32 = 0x2;
pub const FN_PRIVATE: u32 = 0x4;
pub const FN_PROTECTED: u32 = 0x8;
pub const FN_FINAL: u32 = 0x10;
pub const FN_TRANSIENT: u32 = 0x20;
pub const FN_VIRTUAL: u32 = 0x40;
pub const FN_OVERRIDE: u32 = 0x80;
pub const FN_ABSTRACT: u32 = 0x100;
pub const FN_VAR_ARG: u32 = 0x200;
pub const FN_UI: u32 = 0x400;
pub const FN_PLAY: u32 = 0x800;
pub const FN_CLEAR_SCOPE: u32 = 0x1000;
pub const FN_VIRTUAL_SCOPE: u32 = 0x2000;

pub const MEMBER_NATIVE: u32 = 0x1;
pub const MEMBER_PRIVATE: u32 = 0x2;
pub const MEMBER_PROTECTED: u32 = 0x4;
pub const MEMBER_TRANSIENT: u32 = 0x8;
pub const MEMBER_READ_ONLY: u32 = 0x10;
pub const MEMBER_INTERNAL: u32 = 0x20;
pub const MEMBER_VAR_ARG: u32 = 0x40;
pub const MEMBER_UI: u32 = 0x80;
pub const MEMBER_PLAY: u32 = 0x100;
pub const MEMBER_CLEAR_SCOPE: u32 = 0x200;
pub const MEMBER_META: u32 = 0x400;

pub const PARAM_IN: u32 = 0x1;
pub const PARAM_OUT: u32 = 0x2;
pub const PARAM_OPTIONAL: u32 = 0x4;

/// Whether the bit `bit` is set in `flags`.
pub open spec fn has_flag(flags: u32, bit: u32) -> bool {
    flags & bit != 0
}

/// One parameter of a function declaration.
#[derive(Debug)]
pub struct ParamDecl {
    pub name: String,
    pub ty: TypeRef,
    pub flags: u32,
    /// Source spelling of the default value, if any.
    pub init: Option<String>,
}

#[derive(Debug)]
pub struct FunctionDecl {
    pub name: Ident,
    pub span: SourceSpan,
    pub doc: Option<String>,
    pub flags: u32,
    /// `None` for `void`.
    pub return_types: Option<Vec<TypeRef>>,
    pub params: Vec<ParamDecl>,
    pub variadic: bool,
    pub constant: bool,
    pub deprecated: Option<DeprecationInfo>,
}

#[derive(Debug)]
pub struct MemberDecl {
    pub name: Ident,
    pub span: SourceSpan,
    pub doc: Option<String>,
    pub flags: u32,
    pub ty: TypeRef,
    pub deprecated: Option<DeprecationInfo>,
}

#[derive(Clone, Debug, PartialEq, Eq)]
pub struct ConstDecl {
    pub name: Ident,
    pub span: SourceSpan,
    pub doc: Option<String>,
    /// Source spelling of the value.
    pub expr: String,
}

#[derive(Debug)]
pub struct StaticConstArrayDecl {
    pub name: Ident,
    pub span: SourceSpan,
    pub doc: Option<String>,
    pub ty: TypeRef,
    /// Source spelling of each initializer.
    pub exprs: Vec<String>,
}

#[derive(Clone, Debug, PartialEq, Eq)]
pub struct PropertyDecl {
    pub name: Ident,
    pub span: SourceSpan,
    pub doc: Option<String>,
    pub vars: Vec<String>,
}

#[derive(Clone, Debug, PartialEq, Eq)]
pub struct FlagDecl {
    pub name: Ident,
    pub span: SourceSpan,
    pub doc: Option<String>,
    pub var_name: String,
    pub shift: String,
}

#[derive(Clone, Debug, PartialEq, Eq)]
pub struct EnumVariantDecl {
    pub name: Ident,
    pub span: SourceSpan,
    pub doc: Option<String>,
    /// Source spelling of the initializer, if any.
    pub init: Option<String>,
}

#[derive(Clone, Debug, PartialEq, Eq)]
pub struct EnumDecl {
    pub name: Ident,
    pub span: SourceSpan,
    pub doc: Option<String>,
    pub variants: Vec<EnumVariantDecl>,
}

#[derive(Debug)]
pub enum StructInner {
    Function(FunctionDecl),
    Member(MemberDecl),
    Enum(EnumDecl),
    Const(ConstDecl),
    StaticConstArray(StaticConstArrayDecl),
}

#[derive(Debug)]
pub struct StructDecl {
    pub name: Ident,
    pub span: SourceSpan,
    pub doc: Option<String>,
    pub inners: Vec<StructInner>,
}

#[derive(Debug)]
pub enum ClassInner {
    Function(FunctionDecl),
    Member(MemberDecl),
    Enum(EnumDecl),
    Struct(StructDecl),
    Const(ConstDecl),
    StaticConstArray(StaticConstArrayDecl),
    Property(PropertyDecl),
    Flag(FlagDecl),
}

#[derive(Debug)]
pub struct ClassDecl {
    pub name: Ident,
    pub span: SourceSpan,
    pub doc: Option<String>,
    /// The declared ancestor; `None` means the universal base class.
    pub ancestor: Option<Ident>,
    pub inners: Vec<ClassInner>,
}

#[derive(Debug)]
pub enum TopLevelKind {
    Class(ClassDecl),
    Struct(StructDecl),
    Enum(EnumDecl),
    Const(ConstDecl),
}

/// A top-level declaration and the index of the archive that declares it.
#[derive(Debug)]
pub struct TopLevelDef {
    pub archive: usize,
    pub kind: TopLevelKind,
}

/// The semantic trees of all archives together.
#[derive(Debug)]
pub struct SemanticTree {
    pub defs: Vec<TopLevelDef>,
    /// The universal base class (`Object`).
    pub base_class: Ident,
}

impl TopLevelKind {
    pub open spec fn name(&self) -> Ident {
        match self {
            TopLevelKind::Class(c) => c.name,
            TopLevelKind::Struct(s) => s.name,
            TopLevelKind::Enum(e) => e.name,
            TopLevelKind::Const(c) => c.name,
        }
    }

    pub open spec fn doc(&self) -> Option<String> {
        match self {
            TopLevelKind::Class(c) => c.doc,
            TopLevelKind::Struct(s) => s.doc,
            TopLevelKind::Enum(e) => e.doc,
            TopLevelKind::Const(c) => c.doc,
        }
    }
}

impl ClassInner {
    pub open spec fn doc(&self) -> Option<String> {
        match self {
            ClassInner::Function(d) => d.doc,
            ClassInner::Member(d) => d.doc,
            ClassInner::Enum(d) => d.doc,
            ClassInner::Struct(d) => d.doc,
            ClassInner::Const(d) => d.doc,
            ClassInner::StaticConstArray(d) => d.doc,
            ClassInner::Property(d) => d.doc,
            ClassInner::Flag(d) => d.doc,
        }
    }

    pub open spec fn span(&self) -> SourceSpan {
        match self {
            ClassInner::Function(d) => d.span,
            ClassInner::Member(d) => d.span,
            ClassInner::Enum(d) => d.span,
            ClassInner::Struct(d) => d.span,
            ClassInner::Const(d) => d.span,
            ClassInner::StaticConstArray(d) => d.span,
            ClassInner::Property(d) => d.span,
            ClassInner::Flag(d) => d.span,
        }
    }
}

impl StructInner {
    pub open spec fn doc(&self) -> Option<String> {
        match self {
            StructInner::Function(d) => d.doc,
            StructInner::Member(d) => d.doc,
            StructInner::Enum(d) => d.doc,
            StructInner::Const(d) => d.doc,
            StructInner::StaticConstArray(d) => d.doc,
        }
    }

    pub open spec fn span(&self) -> SourceSpan {
        match self {
            StructInner::Function(d) => d.span,
            StructInner::Member(d) => d.span,
            StructInner::Enum(d) => d.span,
            StructInner::Const(d) => d.span,
            StructInner::StaticConstArray(d) => d.span,
        }
    }
}

} // verus!
