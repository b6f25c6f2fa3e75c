use add_utoipa_annotations::annotate::{find_derive_insert_position, has_utoipa_derive};
use add_utoipa_annotations::{Attr, Data, Decl, TypeExpr, UtoipaAnnotator};

fn ty(text: &str) -> TypeExpr {
    TypeExpr { text: text.to_string(), args: Vec::new() }
}

fn generic(text: &str, args: Vec<TypeExpr>) -> TypeExpr {
    TypeExpr { text: text.to_string(), args }
}

fn derive(list: &str) -> Attr {
    Attr::Derive { list: Some(list.to_string()) }
}

fn record(name: &str, attrs: Vec<Attr>, fields: Vec<TypeExpr>) -> Decl {
    Decl { name: name.to_string(), attrs, data: Data::Struct(fields) }
}

fn union(name: &str, attrs: Vec<Attr>, variants: Vec<Vec<TypeExpr>>) -> Decl {
    Decl { name: name.to_string(), attrs, data: Data::Enum(variants) }
}

fn is_schema_attr(a: &Attr) -> bool {
    matches!(a, Attr::Derive { list: Some(t) } if t.as_str() == "utoipa :: ToSchema")
}

fn schema_count(d: &Decl) -> usize {
    d.attrs
        .iter()
        .filter(|a| match a {
            Attr::Derive { list: Some(t) } => t.contains("utoipa :: ToSchema") || t.contains("utoipa::ToSchema"),
            _ => false,
        })
        .count()
}

fn run(decls: &mut Vec<Decl>) -> (Vec<Option<usize>>, bool) {
    let mut annotator = UtoipaAnnotator::new();
    let edits = annotator.visit_file_mut(decls);
    (edits, annotator.modified)
}

#[test]
fn widget_gets_one_schema_derive_and_keeps_it() {
    let mut decls = vec![record("Widget", vec![], vec![ty("String"), ty("CustomEnum")])];
    let (edits, modified) = run(&mut decls);
    assert!(modified);
    assert_eq!(edits, vec![Some(0)]);
    assert_eq!(decls[0].attrs.len(), 1);
    assert!(is_schema_attr(&decls[0].attrs[0]));
    let (edits, modified) = run(&mut decls);
    assert!(!modified);
    assert_eq!(edits, vec![None]);
    assert_eq!(decls[0].attrs.len(), 1);
}

#[test]
fn blob_with_shared_bytes_is_never_annotated() {
    let payload = generic("Arc < Bytes >", vec![ty("Bytes")]);
    let mut decls = vec![record("Blob", vec![derive("Debug , Clone")], vec![payload])];
    for _ in 0..3 {
        let (edits, modified) = run(&mut decls);
        assert!(!modified);
        assert_eq!(edits, vec![None]);
        assert_eq!(decls[0].attrs.len(), 1);
    }
}

#[test]
fn nested_problematic_parameter_is_found() {
    let inner = generic("Option < PathBuf >", vec![ty("PathBuf")]);
    let field = generic("Vec < Option < PathBuf > >", vec![inner]);
    let mut decls = vec![record("Files", vec![], vec![ty("u32"), field])];
    let (_, modified) = run(&mut decls);
    assert!(!modified);
    assert!(decls[0].attrs.is_empty());
}

#[test]
fn fragment_matches_without_spaces() {
    let field = generic("Arc < String >", vec![ty("String")]);
    let mut decls = vec![record("Holder", vec![], vec![field])];
    let (_, modified) = run(&mut decls);
    assert!(!modified);
}

#[test]
fn skip_listed_name_is_never_annotated() {
    let mut decls = vec![
        record("Image", vec![], vec![ty("String")]),
        record("ImageResponse", vec![], vec![ty("u64")]),
        record("Images", vec![], vec![ty("String")]),
    ];
    let (edits, modified) = run(&mut decls);
    assert!(modified);
    assert_eq!(edits, vec![None, None, Some(0)]);
    assert!(decls[0].attrs.is_empty());
    assert!(decls[1].attrs.is_empty());
}

#[test]
fn enum_with_one_bad_variant_is_excluded_whole() {
    let variants = vec![vec![], vec![ty("String")], vec![ty("ApiError")]];
    let mut decls = vec![union("Event", vec![derive("Debug")], variants)];
    let (edits, modified) = run(&mut decls);
    assert!(!modified);
    assert_eq!(edits, vec![None]);
    assert_eq!(decls[0].attrs.len(), 1);
}

#[test]
fn clean_enum_is_annotated() {
    let variants = vec![vec![], vec![ty("String")], vec![ty("u8"), ty("bool")]];
    let mut decls = vec![union("Mode", vec![derive("Debug"), Attr::Other], variants)];
    let (edits, _) = run(&mut decls);
    assert_eq!(edits, vec![Some(1)]);
    assert!(is_schema_attr(&decls[0].attrs[1]));
    assert!(matches!(decls[0].attrs[2], Attr::Other));
}

#[test]
fn existing_derive_in_either_spelling_is_not_duplicated() {
    let mut decls = vec![
        record("A", vec![derive("Debug , utoipa :: ToSchema")], vec![ty("String")]),
        record("B", vec![derive("utoipa::ToSchema")], vec![ty("String")]),
        record("C", vec![derive("Debug , ToSchema")], vec![ty("String")]),
    ];
    let (edits, modified) = run(&mut decls);
    assert!(!modified);
    assert_eq!(edits, vec![None, None, None]);
    assert_eq!(schema_count(&decls[0]), 1);
    assert_eq!(schema_count(&decls[1]), 1);
    assert_eq!(decls[2].attrs.len(), 1);
}

#[test]
fn inserted_after_two_existing_groups() {
    let mut decls = vec![record(
        "Pair",
        vec![derive("Debug , Clone"), derive("Default")],
        vec![ty("String")],
    )];
    let (edits, _) = run(&mut decls);
    assert_eq!(edits, vec![Some(2)]);
    let attrs = &decls[0].attrs;
    assert_eq!(attrs.len(), 3);
    assert!(matches!(&attrs[0], Attr::Derive { list: Some(t) } if t.as_str() == "Debug , Clone"));
    assert!(matches!(&attrs[1], Attr::Derive { list: Some(t) } if t.as_str() == "Default"));
    assert!(is_schema_attr(&attrs[2]));
}

#[test]
fn inserted_after_last_derive_before_other_attributes() {
    let attrs = vec![Attr::Other, derive("Debug"), Attr::Other, derive("Clone"), Attr::Other];
    assert_eq!(find_derive_insert_position(&attrs), 4);
    assert_eq!(find_derive_insert_position(&vec![Attr::Other, Attr::Other]), 0);
    assert_eq!(find_derive_insert_position(&vec![]), 0);
    assert_eq!(find_derive_insert_position(&vec![Attr::Derive { list: None }]), 1);
}

#[test]
fn schema_derive_detection() {
    assert!(has_utoipa_derive(&vec![Attr::Other, derive("Clone , utoipa :: ToSchema")]));
    assert!(has_utoipa_derive(&vec![derive("utoipa::ToSchema")]));
    assert!(has_utoipa_derive(&vec![derive("ToSchema"), Attr::Other]));
    assert!(has_utoipa_derive(&vec![derive("Debug , ToSchema , Clone")]));
    assert!(has_utoipa_derive(&vec![derive("schema :: ToSchema")]));
    assert!(!has_utoipa_derive(&vec![derive("ToSchemaExt")]));
    assert!(!has_utoipa_derive(&vec![derive("Debug , MyToSchema")]));
    assert!(!has_utoipa_derive(&vec![derive("Debug"), Attr::Other]));
    assert!(!has_utoipa_derive(&vec![Attr::Derive { list: None }]));
    assert!(!has_utoipa_derive(&vec![]));
}

#[test]
fn one_eligible_among_ten_changes_one() {
    let mut decls = Vec::new();
    for i in 0..9 {
        decls.push(record(&format!("Raw{}", i), vec![derive("Debug")], vec![ty("Bytes")]));
    }
    decls.insert(4, record("Plain", vec![derive("Debug")], vec![ty("String")]));
    let (edits, modified) = run(&mut decls);
    assert!(modified);
    let changed: Vec<usize> = (0..10).filter(|k| edits[*k].is_some()).collect();
    assert_eq!(changed, vec![4]);
    for (k, d) in decls.iter().enumerate() {
        assert_eq!(d.attrs.len(), if k == 4 { 2 } else { 1 });
    }
}

#[test]
fn second_pass_changes_nothing() {
    let mut decls = vec![
        record("One", vec![], vec![ty("String")]),
        record("Two", vec![derive("Debug")], vec![ty("Bytes")]),
        union("Three", vec![Attr::Other], vec![vec![ty("i64")]]),
        record("CreateSpeechResponse", vec![], vec![ty("String")]),
    ];
    let (_, first) = run(&mut decls);
    assert!(first);
    let (edits, second) = run(&mut decls);
    assert!(!second);
    assert!(edits.iter().all(|e| e.is_none()));
}

#[test]
fn empty_file_is_unchanged() {
    let mut decls: Vec<Decl> = Vec::new();
    let (edits, modified) = run(&mut decls);
    assert!(!modified);
    assert!(edits.is_empty());
}

#[test]
fn should_add_reflects_eligibility() {
    let annotator = UtoipaAnnotator::new();
    assert!(annotator.should_add_utoipa(&record("Ok", vec![], vec![ty("String")])));
    assert!(!annotator.should_add_utoipa(&record("AssistantStreamEvent", vec![], vec![])));
    let mut annotator = UtoipaAnnotator::new();
    let mut d = record("Fresh", vec![Attr::Other], vec![]);
    assert_eq!(annotator.add_utoipa_derive(&mut d), Some(0));
    assert!(annotator.modified);
    assert!(is_schema_attr(&d.attrs[0]));
}
