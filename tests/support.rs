use add_utoipa_annotations::config::{get_problematic_types, get_skip_list};
use add_utoipa_annotations::text::{chars_of, contains_chars, strip_spaces_of};
use add_utoipa_annotations::{
    is_candidate_file, FieldTypeChecker, FileOutcome, ImageDetail, ReasoningEffort, Summary,
    TypeExpr,
};

#[test]
fn skip_list_holds_the_fixed_names() {
    let names = get_skip_list();
    assert_eq!(names, vec!["CreateSpeechResponse", "AssistantStreamEvent", "ImageResponse", "Image"]);
}

#[test]
fn problematic_types_hold_the_fixed_fragments() {
    let frags = get_problematic_types();
    assert_eq!(frags.len(), 12);
    assert_eq!(frags[0], "Bytes");
    assert_eq!(frags[2], "Arc<");
    assert_eq!(frags[11], "ResponseMetadata");
}

#[test]
fn spaces_are_stripped() {
    assert_eq!(strip_spaces_of("Arc < Vec < u8 > >"), "Arc<Vec<u8>>".chars().collect::<Vec<char>>());
    assert!(strip_spaces_of("   ").is_empty());
    assert_eq!(chars_of("ab"), vec!['a', 'b']);
}

#[test]
fn substring_search() {
    let hay = chars_of("Option<Bytes>");
    assert!(contains_chars(&hay, &chars_of("Bytes")));
    assert!(contains_chars(&hay, &chars_of("")));
    assert!(contains_chars(&hay, &chars_of("Option<Bytes>")));
    assert!(!contains_chars(&hay, &chars_of("Bytes>>")));
    assert!(!contains_chars(&chars_of(""), &chars_of("a")));
}

#[test]
fn field_checker_finds_fragments() {
    let bad = TypeExpr { text: "HashMap < String , ApiError >".to_string(), args: Vec::new() };
    let good = TypeExpr { text: "HashMap < String , u32 >".to_string(), args: Vec::new() };
    assert!(FieldTypeChecker::check_fields(&vec![good, bad]));
    let good = TypeExpr { text: "Option < u32 >".to_string(), args: Vec::new() };
    assert!(!FieldTypeChecker::check_fields(&vec![good]));
    assert!(!FieldTypeChecker::check_fields(&vec![]));
    let mut checker = FieldTypeChecker::new();
    assert!(!checker.has_problematic_type);
    checker.visit_type(&TypeExpr { text: "WebSearchPreview".to_string(), args: Vec::new() });
    assert!(checker.has_problematic_type);
}

#[test]
fn candidate_files() {
    assert!(is_candidate_file("chat.rs"));
    assert!(is_candidate_file("a.rs"));
    assert!(is_candidate_file("x..rs"));
    assert!(!is_candidate_file("mod.rs"));
    assert!(!is_candidate_file(".rs"));
    assert!(!is_candidate_file("chat.rs.bak"));
    assert!(!is_candidate_file("README.md"));
    assert!(!is_candidate_file("rs"));
    assert!(is_candidate_file("amod.rs"));
}

#[test]
fn summary_counts_three_buckets() {
    let mut s = Summary::new();
    s.record(FileOutcome::Modified);
    s.record(FileOutcome::Unchanged);
    s.record(FileOutcome::Failed);
    s.record(FileOutcome::Unchanged);
    assert_eq!(s.total, 4);
    assert_eq!(s.modified, 1);
    assert_eq!(s.failed, 1);
    assert_eq!(s.unchanged(), 2);
}

#[test]
fn enum_defaults() {
    assert_eq!(ImageDetail::default(), ImageDetail::Auto);
    assert_eq!(ReasoningEffort::default(), ReasoningEffort::Medium);
}
