use zscdoc::builtin::{BuiltinTypeHir, FunctionHir, MemberVariableHir};
use zscdoc::document::{class_doc, hir_to_doc_structures, DocError};
use zscdoc::item::ItemProvider;
use zscdoc::model::{
    ClassDecl, ClassInner, ConstDecl, EnumDecl, EnumVariantDecl, FunctionDecl, Ident, MemberDecl,
    SemanticTree, SourceSpan, StructDecl, StructInner, TopLevelDef, TopLevelKind, TypeRef,
    FN_OVERRIDE, FN_PRIVATE, FN_PROTECTED, FN_VIRTUAL, MEMBER_PROTECTED,
};
use zscdoc::structures::{Dependencies, Dependency, LinkedSectionKind, Owner, SourceCodeSection};

fn ident(sym: u64, text: &str) -> Ident {
    Ident { sym, text: text.to_string() }
}

fn span(start: usize) -> SourceSpan {
    SourceSpan { file: 0, start, end: start + 1 }
}

fn func(sym: u64, name: &str, at: usize, flags: u32, doc: Option<&str>) -> FunctionDecl {
    FunctionDecl {
        name: ident(sym, name),
        span: span(at),
        doc: doc.map(|d| d.to_string()),
        flags,
        return_types: None,
        params: vec![],
        variadic: false,
        constant: false,
        deprecated: None,
    }
}

fn member(sym: u64, name: &str, at: usize, flags: u32, ty: TypeRef) -> MemberDecl {
    MemberDecl { name: ident(sym, name), span: span(at), doc: None, flags, ty, deprecated: None }
}

fn class(sym: u64, name: &str, at: usize, ancestor: Option<Ident>, inners: Vec<ClassInner>) -> ClassDecl {
    ClassDecl { name: ident(sym, name), span: span(at), doc: None, ancestor, inners }
}

fn object() -> Ident {
    ident(1, "Object")
}

fn tree(defs: Vec<TopLevelDef>) -> SemanticTree {
    SemanticTree { defs, base_class: object() }
}

fn primary(kind: TopLevelKind) -> TopLevelDef {
    TopLevelDef { archive: 0, kind }
}

fn no_deps() -> Dependencies {
    Dependencies { dependency_links: vec![] }
}

fn texts(secs: &[SourceCodeSection]) -> Vec<String> {
    secs.iter()
        .map(|s| match s {
            SourceCodeSection::NoLink(t) => format!("text:{}", t),
            SourceCodeSection::Linked(l) => format!("link:{}", l.text),
            SourceCodeSection::PotentialNewlineOnly => "nl".to_string(),
            SourceCodeSection::PotentialNewlineIndent => "nl-indent".to_string(),
            SourceCodeSection::NoNewlineSpacing => "space".to_string(),
        })
        .collect()
}

#[test]
fn shadowing_prefers_primary_archive() {
    let dep_x = TopLevelDef { archive: 0, kind: TopLevelKind::Class(class(10, "X", 1, None, vec![])) };
    let main_x = TopLevelDef { archive: 1, kind: TopLevelKind::Class(class(10, "X", 2, None, vec![])) };
    let deps = Dependencies { dependency_links: vec![Dependency { link: "https://dep.example".to_string() }] };
    // The primary archive's declaration comes first in the list: processing order decides.
    let t = ItemProvider::from_tree(&tree(vec![main_x, dep_x]), &deps);
    let found = t.resolve(&[], &[10]).unwrap();
    assert_eq!(found.len(), 1);
    assert_eq!(found[0].link_prefix, None);
    let dep_only = TopLevelDef { archive: 0, kind: TopLevelKind::Class(class(11, "Y", 3, None, vec![])) };
    let t2 = ItemProvider::from_tree(&tree(vec![dep_only]), &deps);
    assert_eq!(t2.get(&[11]).unwrap().link_prefix, Some("https://dep.example".to_string()));
}

#[test]
fn resolution_falls_back_to_enclosing_scope() {
    // class A { struct B { struct-level X member }, const X } ; lookup from A.B.C
    let b = StructDecl {
        name: ident(20, "B"),
        span: span(5),
        doc: None,
        inners: vec![StructInner::Member(member(31, "Other", 6, 0, TypeRef::Let))],
    };
    let a = class(
        10,
        "A",
        1,
        None,
        vec![ClassInner::Struct(b), ClassInner::Const(ConstDecl { name: ident(30, "X"), span: span(9), doc: None, expr: "1".to_string() })],
    );
    let tr = tree(vec![primary(TopLevelKind::Class(a))]);
    let t = ItemProvider::from_tree(&tr, &no_deps());
    let r = t.resolve(&[10, 20, 40], &[30]).unwrap();
    assert_eq!(r.len(), 1);
    assert_eq!(r[0].text, "X");
    match &r[0].kind {
        LinkedSectionKind::Constant { owner: Owner::Class(v), link } => {
            assert_eq!(v, &vec!["A".to_string()]);
            assert_eq!(link, "X");
        },
        other => panic!("unexpected kind {:?}", other),
    }
    // A sibling name under A.B does not answer for it.
    assert!(t.resolve(&[10, 20, 40], &[31]).is_some());
    assert!(t.resolve(&[], &[31]).is_none());
    // Chains do not partially resolve.
    assert!(t.resolve(&[10], &[20, 99]).is_none());
    let chain = t.resolve(&[], &[10, 20]).unwrap();
    assert_eq!(chain.len(), 2);
    assert_eq!(chain[1].text, "B");
}

#[test]
fn hidden_declarations_are_left_out() {
    let e = EnumDecl {
        name: ident(50, "Color"),
        span: span(30),
        doc: None,
        variants: vec![
            EnumVariantDecl { name: ident(51, "Red"), span: span(31), doc: None, init: Some("1".to_string()) },
            EnumVariantDecl { name: ident(52, "Secret"), span: span(32), doc: Some("  \n ?doc: hidden".to_string()), init: None },
        ],
    };
    let c = class(
        10,
        "Shown",
        1,
        None,
        vec![
            ClassInner::Function(func(11, "visible", 2, 0, Some("docs"))),
            ClassInner::Function(func(12, "invisible", 3, 0, Some("?doc: hidden and more"))),
            ClassInner::Enum(e),
        ],
    );
    let mut hidden_class = class(20, "Hidden", 5, None, vec![]);
    hidden_class.doc = Some("\t?doc: hidden".to_string());
    let tr = tree(vec![primary(TopLevelKind::Class(c)), primary(TopLevelKind::Class(hidden_class))]);
    let t = ItemProvider::from_tree(&tr, &no_deps());
    let docs = hir_to_doc_structures(String::new(), "Test".to_string(), &tr, &t, &no_deps(), vec![]).unwrap();
    assert_eq!(docs.classes.len(), 1);
    let cls = &docs.classes[0];
    assert_eq!(cls.name, "Shown");
    let names: Vec<&str> = cls.public.functions.iter().map(|f| f.name.as_str()).collect();
    assert_eq!(names, vec!["visible"]);
    assert_eq!(cls.inner_enums.len(), 1);
    assert_eq!(cls.inner_enums[0].name, "Shown.Color");
    let en: Vec<&str> = cls.inner_enums[0].enumerators.iter().map(|e| e.name.as_str()).collect();
    assert_eq!(en, vec!["Red"]);
    assert_eq!(texts(&cls.inner_enums[0].enumerators[0].decl.sections), vec!["link:Red", "text: = 1"]);
}

#[test]
fn override_links_to_virtual_ancestor() {
    let base = class(10, "Base", 1, None, vec![ClassInner::Function(func(30, "f", 2, FN_VIRTUAL, None))]);
    let derived = class(20, "Derived", 5, Some(ident(10, "Base")), vec![ClassInner::Function(func(30, "f", 6, FN_OVERRIDE, None))]);
    let tr = tree(vec![primary(TopLevelKind::Class(base)), primary(TopLevelKind::Class(derived))]);
    let t = ItemProvider::from_tree(&tr, &no_deps());
    let docs = hir_to_doc_structures(String::new(), "Test".to_string(), &tr, &t, &no_deps(), vec![]).unwrap();
    let names: Vec<&str> = docs.classes.iter().map(|c| c.name.as_str()).collect();
    assert_eq!(names, vec!["Base", "Derived"]);
    let d = &docs.classes[1];
    assert_eq!(d.overrides.len(), 1);
    let link = d.overrides[0].overrides.as_ref().unwrap();
    assert_eq!(link.text, "Base.f");
    match &link.kind {
        LinkedSectionKind::Function { owner: Owner::Class(v), link } => {
            assert_eq!(v, &vec!["Base".to_string()]);
            assert_eq!(link, "f");
        },
        other => panic!("unexpected kind {:?}", other),
    }
    assert!(d.public.functions.is_empty());
}

#[test]
fn override_without_virtual_has_no_link() {
    let base = class(10, "Base", 1, None, vec![ClassInner::Function(func(30, "f", 2, 0, None))]);
    let derived = class(20, "Derived", 5, Some(ident(10, "Base")), vec![ClassInner::Function(func(30, "f", 6, FN_OVERRIDE, None))]);
    let tr = tree(vec![primary(TopLevelKind::Class(base)), primary(TopLevelKind::Class(derived))]);
    let t = ItemProvider::from_tree(&tr, &no_deps());
    let docs = hir_to_doc_structures(String::new(), "Test".to_string(), &tr, &t, &no_deps(), vec![]).unwrap();
    let d = &docs.classes[1];
    assert_eq!(d.overrides.len(), 1);
    assert!(d.overrides[0].overrides.is_none());
}

#[test]
fn cyclic_inheritance_is_an_error() {
    let a = class(10, "A", 1, Some(ident(20, "B")), vec![ClassInner::Function(func(30, "f", 2, FN_OVERRIDE, None))]);
    let b = class(20, "B", 5, Some(ident(10, "A")), vec![]);
    let tr = tree(vec![primary(TopLevelKind::Class(a)), primary(TopLevelKind::Class(b))]);
    let t = ItemProvider::from_tree(&tr, &no_deps());
    let r = hir_to_doc_structures(String::new(), "Test".to_string(), &tr, &t, &no_deps(), vec![]);
    assert_eq!(r.err(), Some(DocError::InheritanceCycle("A".to_string())));
}

#[test]
fn unresolved_type_stays_plain_text() {
    let c = class(10, "Holder", 1, None, vec![ClassInner::Member(member(11, "thing", 2, 0, TypeRef::Single(ident(99, "Unknown"))))]);
    let tr = tree(vec![primary(TopLevelKind::Class(c))]);
    let t = ItemProvider::from_tree(&tr, &no_deps());
    let docs = hir_to_doc_structures(String::new(), "Test".to_string(), &tr, &t, &no_deps(), vec![]).unwrap();
    let m = &docs.classes[0].public.variables[0];
    assert_eq!(texts(&m.def.sections), vec!["text:Unknown ", "link:thing"]);
}

#[test]
fn buckets_follow_visibility_and_source_order() {
    let c = class(
        10,
        "Box",
        1,
        None,
        vec![
            ClassInner::Function(func(11, "late", 9, 0, None)),
            ClassInner::Function(func(12, "early", 3, 0, None)),
            ClassInner::Function(func(13, "secret", 4, FN_PRIVATE, None)),
            ClassInner::Function(func(14, "family", 5, FN_PROTECTED, None)),
            ClassInner::Member(member(15, "m", 6, MEMBER_PROTECTED, TypeRef::Let)),
        ],
    );
    let tr = tree(vec![primary(TopLevelKind::Class(c))]);
    let t = ItemProvider::from_tree(&tr, &no_deps());
    let cls = class_doc(&"Box".to_string(), &vec![], &tr, match &tr.defs[0].kind {
        TopLevelKind::Class(c) => c,
        _ => unreachable!(),
    }, &t).unwrap();
    let names: Vec<&str> = cls.public.functions.iter().map(|f| f.name.as_str()).collect();
    assert_eq!(names, vec!["early", "late"]);
    assert_eq!(cls.private.functions[0].name, "secret");
    assert_eq!(cls.protected.functions[0].name, "family");
    assert_eq!(cls.protected.variables[0].name, "m");
    assert_eq!(texts(&cls.protected.variables[0].def.sections), vec!["text:protected let ", "link:m"]);
    assert_eq!(cls.context, vec![10]);
    let inh = cls.inherits.as_ref().unwrap();
    assert_eq!(texts(&inh.sections), vec!["text:Object"]);
}

#[test]
fn assembly_order_is_deterministic() {
    let make = |flip: bool| {
        let mut defs = vec![
            primary(TopLevelKind::Class(class(10, "Zeta", 1, None, vec![]))),
            primary(TopLevelKind::Class(class(11, "Alpha", 2, None, vec![]))),
            primary(TopLevelKind::Const(ConstDecl { name: ident(12, "LATE"), span: span(50), doc: None, expr: "2".to_string() })),
            primary(TopLevelKind::Const(ConstDecl { name: ident(13, "EARLY"), span: span(40), doc: None, expr: "1".to_string() })),
        ];
        if flip {
            defs.reverse();
        }
        let tr = tree(defs);
        let t = ItemProvider::from_tree(&tr, &no_deps());
        let docs = hir_to_doc_structures(String::new(), "Test".to_string(), &tr, &t, &no_deps(), vec![]).unwrap();
        let classes: Vec<String> = docs.classes.iter().map(|c| c.name.clone()).collect();
        let consts: Vec<String> = docs.constants.iter().map(|c| c.name.clone()).collect();
        (classes, consts)
    };
    let a = make(false);
    let b = make(true);
    assert_eq!(a, b);
    assert_eq!(a.0, vec!["Alpha", "Zeta"]);
    assert_eq!(a.1, vec!["EARLY", "LATE"]);
}

#[test]
fn builtin_merges_struct_declarations_in_source_order() {
    let s = StructDecl {
        name: ident(40, "S"),
        span: span(1),
        doc: None,
        inners: vec![
            StructInner::Function(func(41, "g", 5, 0, None)),
            StructInner::Member(member(42, "field", 30, 0, TypeRef::Let)),
            StructInner::Const(ConstDecl { name: ident(43, "K"), span: span(2), doc: None, expr: "3".to_string() }),
        ],
    };
    let tr = tree(vec![primary(TopLevelKind::Struct(s))]);
    let h = func(61, "h", 20, 0, None);
    let own_member = member(62, "own", 10, 0, TypeRef::Let);
    let mut b = BuiltinTypeHir {
        filename: "docs/int.toml".to_string(),
        name: ident(60, "Int"),
        doc: "An integer.".to_string(),
        uses_things_from: Some(ident(40, "S")),
        members: vec![MemberVariableHir { def: &own_member }],
        functions: vec![FunctionHir { def: &h }],
        constants: vec![],
    };
    b.extend_with_uses_things_from(&tr).unwrap();
    let fnames: Vec<&str> = b.functions.iter().map(|f| f.def.name.text.as_str()).collect();
    assert_eq!(fnames, vec!["g", "h"]);
    let mnames: Vec<&str> = b.members.iter().map(|m| m.def.name.text.as_str()).collect();
    assert_eq!(mnames, vec!["own", "field"]);
    let cnames: Vec<&str> = b.constants.iter().map(|c| c.def.name.text.as_str()).collect();
    assert_eq!(cnames, vec!["K"]);
    // The struct keeps its own declarations.
    match &tr.defs[0].kind {
        TopLevelKind::Struct(s) => assert_eq!(s.inners.len(), 3),
        _ => unreachable!(),
    }
    let t = ItemProvider::from_tree(&tr, &no_deps());
    let out = b.produce(&tr, &t);
    let names: Vec<&str> = out.functions.iter().map(|f| f.name.as_str()).collect();
    assert_eq!(names, vec!["g", "h"]);
    assert_eq!(out.context, vec![60]);
    assert_eq!(out.variables.len(), 2);
    assert_eq!(out.constants[0].name, "K");
}

#[test]
fn builtin_without_struct_or_with_missing_struct_keeps_its_lists() {
    let tr = tree(vec![]);
    let h = func(61, "h", 20, 0, None);
    let mut plain = BuiltinTypeHir {
        filename: "docs/x.toml".to_string(),
        name: ident(70, "X"),
        doc: String::new(),
        uses_things_from: None,
        members: vec![],
        functions: vec![FunctionHir { def: &h }],
        constants: vec![],
    };
    assert_eq!(plain.extend_with_uses_things_from(&tr), Ok(()));
    assert_eq!(plain.functions.len(), 1);
    let mut missing = BuiltinTypeHir {
        filename: "docs/x.toml".to_string(),
        name: ident(70, "X"),
        doc: String::new(),
        uses_things_from: Some(ident(99, "Nowhere")),
        members: vec![],
        functions: vec![FunctionHir { def: &h }],
        constants: vec![],
    };
    assert_eq!(missing.extend_with_uses_things_from(&tr), Err(DocError::MissingStruct("Nowhere".to_string())));
    assert_eq!(missing.functions.len(), 1);
}

#[test]
fn inner_structs_and_enums_appear_once_each_by_name() {
    let s1 = StructDecl { name: ident(21, "Zed"), span: span(2), doc: None, inners: vec![] };
    let s2 = StructDecl { name: ident(22, "Amy"), span: span(3), doc: None, inners: vec![] };
    let e1 = EnumDecl { name: ident(23, "Mode"), span: span(4), doc: None, variants: vec![] };
    let c = class(10, "Outer", 1, None, vec![ClassInner::Struct(s1), ClassInner::Struct(s2), ClassInner::Enum(e1)]);
    let tr = tree(vec![primary(TopLevelKind::Class(c))]);
    let t = ItemProvider::from_tree(&tr, &no_deps());
    let docs = hir_to_doc_structures(String::new(), "Test".to_string(), &tr, &t, &no_deps(), vec![]).unwrap();
    let cls = &docs.classes[0];
    let names: Vec<&str> = cls.inner_structs.iter().map(|s| s.name.as_str()).collect();
    assert_eq!(names, vec!["Outer.Amy", "Outer.Zed"]);
    assert_eq!(cls.inner_structs[0].no_context_name, "Amy");
    assert_eq!(cls.inner_structs[0].context, vec![10, 22]);
    let enums: Vec<&str> = cls.inner_enums.iter().map(|e| e.name.as_str()).collect();
    assert_eq!(enums, vec!["Outer.Mode"]);
}
