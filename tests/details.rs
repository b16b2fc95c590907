use zscdoc::links::{link_reference_parts, resolve_link_reference};
use zscdoc::coverage::{coverage_breakdown, CoverageKind};
use zscdoc::deps::{checkout_dir, clone_step, CloneAction, CloneEvent, CloneState, DependencyWalk, WalkAction};
use zscdoc::document::{hir_to_doc_structures, transform_deprecated};
use zscdoc::item::{context_with, ItemProvider};
use zscdoc::model::{
    ClassDecl, ClassInner, DeprecationInfo, FunctionDecl, Ident, ParamDecl, SemanticTree, SourceSpan,
    TopLevelDef, TopLevelKind, TypeRef, FN_STATIC, FN_VIRTUAL, PARAM_OUT,
};
use zscdoc::signature::reconstruct_function_signature;
use zscdoc::structures::{
    base_file_default, option_slice_to_slice, option_vec_to_vec, Dependencies, Dependency,
    LinkedSection, LinkedSectionKind, Owner, SourceCodeSection, SourceCodeWithLinks,
};
use zscdoc::text::{decimal, should_skip};

fn ident(sym: u64, text: &str) -> Ident {
    Ident { sym, text: text.to_string() }
}

fn texts(secs: &[SourceCodeSection]) -> Vec<String> {
    secs.iter()
        .map(|s| match s {
            SourceCodeSection::NoLink(t) => format!("text:{}", t),
            SourceCodeSection::Linked(l) => format!("link:{}", l.text),
            SourceCodeSection::PotentialNewlineOnly => "nl".to_string(),
            SourceCodeSection::PotentialNewlineIndent => "nl-indent".to_string(),
            SourceCodeSection::NoNewlineSpacing => "space".to_string(),
        })
        .collect()
}

#[test]
fn plain_text_joins_previous_plain_text() {
    let mut s = SourceCodeWithLinks::new();
    s.add_no_link("a");
    s.add_no_link("b");
    s.add_newline_indent_or_spacing();
    s.add_no_link("c");
    s.add_newline_no_indent();
    assert_eq!(texts(&s.sections), vec!["text:ab", "nl-indent", "space", "text:c", "nl"]);
}

#[test]
fn function_signature_has_flags_types_and_break_markers() {
    let tr = SemanticTree {
        defs: vec![TopLevelDef {
            archive: 0,
            kind: TopLevelKind::Class(ClassDecl { name: ident(5, "Actor"), span: SourceSpan { file: 0, start: 0, end: 1 }, doc: None, ancestor: None, inners: vec![] }),
        }],
        base_class: ident(1, "Object"),
    };
    let t = ItemProvider::from_tree(&tr, &Dependencies { dependency_links: vec![] });
    let f = FunctionDecl {
        name: ident(9, "Spawn"),
        span: SourceSpan { file: 0, start: 3, end: 4 },
        doc: None,
        flags: FN_STATIC | FN_VIRTUAL,
        return_types: Some(vec![TypeRef::Single(ident(5, "Actor"))]),
        params: vec![
            ParamDecl { name: "count".to_string(), ty: TypeRef::Let, flags: 0, init: None },
            ParamDecl { name: "result".to_string(), ty: TypeRef::DynArray(Box::new(TypeRef::Error)), flags: PARAM_OUT, init: Some("null".to_string()) },
        ],
        variadic: true,
        constant: true,
        deprecated: None,
    };
    let sig = reconstruct_function_signature(Owner::Class(vec!["Actor".to_string()]), &f, &t, &[5], &ident(1, "Object"));
    assert_eq!(
        texts(&sig.sections),
        vec![
            "text:static virtual ",
            "link:Actor",
            "text: ",
            "link:Spawn",
            "text:(",
            "nl-indent",
            "text:let count,",
            "nl-indent",
            "space",
            "text:out Array< {unknown} > result = null,",
            "nl-indent",
            "space",
            "text:...",
            "nl",
            "text:) const",
        ]
    );
    assert_eq!(sig.evaluate_length(), 86);
    let lines = sig.group_multiline_sections();
    assert_eq!(lines.len(), 5);
    assert!(!lines[0].indented);
    assert!(lines[1].indented);
    assert_eq!(texts(&lines[2].sections), vec!["text:out Array< {unknown} > result = null,"]);
    assert!(!lines[4].indented);
}

#[test]
fn hrefs_come_from_kind_owner_key_and_prefix() {
    let l = LinkedSection {
        link_prefix: Some("https://docs.example".to_string()),
        text: "bar".to_string(),
        kind: LinkedSectionKind::Function { owner: Owner::Class(vec!["Foo".to_string(), "Inner".to_string()]), link: "bar".to_string() },
    };
    assert_eq!(l.get_href(), "https://docs.example/class.Foo.Inner.html#function.bar");
    assert_eq!(l.get_style(), "function");
    let e = LinkedSection { link_prefix: None, text: "Red".to_string(), kind: LinkedSectionKind::Enumerator { owner: Owner::Global, link: "Red".to_string() } };
    assert_eq!(e.get_href(), "/index.html#enumerator.Red");
    assert_eq!(e.get_style(), "constant");
    let b = LinkedSection { link_prefix: None, text: "Int".to_string(), kind: LinkedSectionKind::Builtin { link: "Int".to_string() } };
    assert_eq!(b.get_href(), "/builtin.Int.html");
    assert_eq!(Owner::Struct(vec!["A".to_string(), "B".to_string()]).get_href_prelude(), "struct.A.B.html");
}

#[test]
fn hidden_marker_detection() {
    assert!(should_skip(&Some("?doc: hidden".to_string())));
    assert!(should_skip(&Some(" \t\n\u{3000}?doc: hidden trailing".to_string())));
    assert!(!should_skip(&Some("x ?doc: hidden".to_string())));
    assert!(!should_skip(&Some("?doc: hid".to_string())));
    assert!(!should_skip(&None));
}

#[test]
fn deprecation_version_text() {
    assert_eq!(decimal(0), "0");
    assert_eq!(decimal(4107), "4107");
    let d = transform_deprecated(&DeprecationInfo { major: 4, minor: 10, revision: 0, message: Some("use Bar".to_string()) });
    assert_eq!(d.version, "4.10.0");
    assert_eq!(d.reason, "use Bar");
    let e = transform_deprecated(&DeprecationInfo { major: 1, minor: 2, revision: 3, message: None });
    assert_eq!(e.reason, "");
}

#[test]
fn coverage_lists_items_with_paths_and_files() {
    let c = ClassDecl {
        name: ident(10, "Thing"),
        span: SourceSpan { file: 1, start: 0, end: 1 },
        doc: Some("A thing.".to_string()),
        ancestor: None,
        inners: vec![ClassInner::Function(FunctionDecl {
            name: ident(11, "act"),
            span: SourceSpan { file: 1, start: 5, end: 6 },
            doc: None,
            flags: 0,
            return_types: None,
            params: vec![],
            variadic: false,
            constant: false,
            deprecated: None,
        })],
    };
    let tr = SemanticTree { defs: vec![TopLevelDef { archive: 0, kind: TopLevelKind::Class(c) }], base_class: ident(1, "Object") };
    let deps = Dependencies { dependency_links: vec![] };
    let t = ItemProvider::from_tree(&tr, &deps);
    let docs = hir_to_doc_structures("Summary".to_string(), "Mod".to_string(), &tr, &t, &deps, vec![]).unwrap();
    let files = vec!["a.zs".to_string(), "b.zs".to_string()];
    let items = docs.coverage(&"base".to_string(), &files);
    assert_eq!(items.len(), 3);
    assert_eq!(items[0].kind, CoverageKind::Summary);
    assert_eq!(items[0].filename, "base/docs/summary.md");
    assert!(items[0].covered);
    assert_eq!(items[1].path, vec!["Thing".to_string()]);
    assert_eq!(items[1].filename, "b.zs");
    assert_eq!(items[2].path, vec!["Thing".to_string(), "act".to_string()]);
    assert!(!items[2].covered);
    let b = coverage_breakdown(items);
    assert_eq!(b.not_covered.len(), 1);
    assert_eq!(b.covered_count(), 2);
}

#[test]
fn dependency_walk_is_dependency_first_and_skips_seen_names() {
    // primary -> [a, b]; a -> [b]; b -> []
    let mut w = DependencyWalk::new(2);
    assert_eq!(w.next_action(), WalkAction::Load { parent: None, index: 0 });
    assert_eq!(w.loaded(&"a".to_string(), 1), Some(0));
    assert_eq!(w.next_action(), WalkAction::Load { parent: Some(0), index: 0 });
    assert_eq!(w.loaded(&"b".to_string(), 0), Some(1));
    assert_eq!(w.next_action(), WalkAction::Emit(1));
    assert_eq!(w.next_action(), WalkAction::Emit(0));
    assert_eq!(w.next_action(), WalkAction::Load { parent: None, index: 1 });
    assert_eq!(w.loaded(&"b".to_string(), 0), None);
    assert_eq!(w.next_action(), WalkAction::Done);
    assert_eq!(w.next_action(), WalkAction::Done);
}

#[test]
fn clone_retries_once_after_a_failed_update() {
    assert_eq!(clone_step(CloneState::Start, CloneEvent::Checked(true)), (CloneState::Updating, CloneAction::UpdateExisting));
    assert_eq!(clone_step(CloneState::Updating, CloneEvent::Attempted(false)), (CloneState::Cloning, CloneAction::DeleteAndClone));
    assert_eq!(clone_step(CloneState::Cloning, CloneEvent::Attempted(false)), (CloneState::Finished, CloneAction::Fail));
    assert_eq!(clone_step(CloneState::Start, CloneEvent::Checked(false)), (CloneState::Cloning, CloneAction::CloneFresh));
    assert_eq!(clone_step(CloneState::Cloning, CloneEvent::Attempted(true)), (CloneState::Finished, CloneAction::Succeed));
}

#[test]
fn cache_entry_is_keyed_by_url_digest() {
    assert_eq!(checkout_dir("abc"), "checkouts/ba7816bf8f01cfea414140de5dae2223b00361a396177a9cb410ff61f20015ad");
}

#[test]
fn small_helpers() {
    assert_eq!(context_with(&[1, 2], 3), vec![1, 2, 3]);
    assert_eq!(option_vec_to_vec::<u8>(None), Vec::<u8>::new());
    assert_eq!(option_vec_to_vec(Some(vec![1])), vec![1]);
    assert_eq!(option_slice_to_slice::<u8>(None).len(), 0);
    assert_eq!(base_file_default(), "zscript");
    let deps = Dependencies { dependency_links: vec![Dependency { link: "https://x".to_string() }] };
    assert_eq!(deps.get_final_archive_num(), 1);
    assert_eq!(deps.get_link_prefix(0), Some("https://x".to_string()));
    assert_eq!(deps.get_link_prefix(1), None);
}

#[test]
fn prose_link_references_resolve_like_type_names() {
    assert_eq!(link_reference_parts(&"`Actor. Spawn `".to_string()), vec!["Actor".to_string(), "Spawn".to_string()]);
    assert_eq!(link_reference_parts(&"Plain".to_string()), vec!["Plain".to_string()]);
    assert_eq!(link_reference_parts(&"`".to_string()), vec!["`".to_string()]);
    let c = ClassDecl {
        name: ident(5, "Actor"),
        span: SourceSpan { file: 0, start: 0, end: 1 },
        doc: None,
        ancestor: None,
        inners: vec![ClassInner::Function(FunctionDecl {
            name: ident(6, "Spawn"),
            span: SourceSpan { file: 0, start: 2, end: 3 },
            doc: None,
            flags: 0,
            return_types: None,
            params: vec![],
            variadic: false,
            constant: false,
            deprecated: None,
        })],
    };
    let tr = SemanticTree { defs: vec![TopLevelDef { archive: 1, kind: TopLevelKind::Class(c) }], base_class: ident(1, "Object") };
    let deps = Dependencies { dependency_links: vec![Dependency { link: "https://base.example".to_string() }] };
    let dep_tree = SemanticTree {
        defs: vec![TopLevelDef {
            archive: 0,
            kind: TopLevelKind::Class(ClassDecl { name: ident(7, "Thinker"), span: SourceSpan { file: 0, start: 9, end: 10 }, doc: None, ancestor: None, inners: vec![] }),
        }],
        base_class: ident(1, "Object"),
    };
    let t = ItemProvider::from_tree(&tr, &deps);
    assert_eq!(resolve_link_reference(&t, &[], &[5, 6]), Some("/class.Actor.html#function.Spawn".to_string()));
    assert_eq!(resolve_link_reference(&t, &[5], &[6]), Some("/class.Actor.html#function.Spawn".to_string()));
    assert_eq!(resolve_link_reference(&t, &[], &[6]), None);
    let t2 = ItemProvider::from_tree(&dep_tree, &deps);
    assert_eq!(resolve_link_reference(&t2, &[], &[7]), Some("https://base.example/class.Thinker.html".to_string()));
}

#[test]
fn doc_errors_read_as_sentences() {
    use_error_messages();
}

fn use_error_messages() {
    let e = zscdoc::document::DocError::InheritanceCycle("A".to_string());
    assert_eq!(e.message(), "the ancestor chain of class A runs in a cycle");
    let m = zscdoc::document::DocError::MissingStruct("S".to_string());
    assert_eq!(m.message(), "expected to get a top-level struct element S for a builtin");
}
