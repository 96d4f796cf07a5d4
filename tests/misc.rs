use rustawssdk::infer::{infer_value, InferredValue};
use rustawssdk::lex::lex_less;
use rustawssdk::report::{
    describe_error_lines, describe_table_schema, is_not_found_error, list_s3_buckets, list_s3_objects,
    list_tables,
};
use rustawssdk::tally::Tally;
use rustawssdk::text::contains_str;

fn infer(s: &str) -> InferredValue {
    infer_value(s, s.parse::<f64>().is_ok())
}

#[test]
fn booleans_in_any_case() {
    assert!(matches!(infer("true"), InferredValue::Bool(true)));
    assert!(matches!(infer("TRUE"), InferredValue::Bool(true)));
    assert!(matches!(infer("False"), InferredValue::Bool(false)));
    assert!(matches!(infer("tRuE"), InferredValue::Bool(true)));
}

#[test]
fn numbers_keep_their_text() {
    assert!(matches!(infer("42"), InferredValue::Number(ref t) if t == "42"));
    assert!(matches!(infer("3.14"), InferredValue::Number(ref t) if t == "3.14"));
}

#[test]
fn other_text_is_a_string() {
    assert!(matches!(infer("hello"), InferredValue::Text(ref t) if t == "hello"));
    assert!(matches!(infer("42a"), InferredValue::Text(ref t) if t == "42a"));
    assert!(matches!(infer("truer"), InferredValue::Text(ref t) if t == "truer"));
}

#[test]
fn tally_sums_pages() {
    let mut t = Tally::new();
    assert!(t.add_page(2));
    assert!(t.add_page(0));
    assert!(t.add_page(3));
    assert_eq!(t.total(), 5);
}

#[test]
fn tally_refuses_overflow() {
    let mut t = Tally::new();
    assert!(t.add_page(usize::MAX));
    if usize::MAX as u128 >= u64::MAX as u128 {
        assert!(!t.add_page(1));
        assert_eq!(t.total(), usize::MAX as u64);
    }
}

#[test]
fn not_found_error_is_success() {
    let msg = "service error: ResourceNotFoundException: Requested resource not found";
    assert!(is_not_found_error(msg));
    assert_eq!(describe_error_lines("users", msg), Some(vec!["Table 'users' not found.".to_string()]));
}

#[test]
fn other_errors_propagate() {
    let msg = "AccessDeniedException: not authorized";
    assert!(!is_not_found_error(msg));
    assert_eq!(describe_error_lines("users", msg), None);
}

#[test]
fn description_lines() {
    let attrs = vec![("id".to_string(), "S".to_string())];
    let keys = vec![("id".to_string(), "Hash".to_string()), ("ts".to_string(), "Range".to_string())];
    let lines = describe_table_schema("users", &attrs, &keys);
    assert_eq!(
        lines,
        vec![
            "",
            "DynamoDB table: users",
            "AttributeDefinitions:",
            "  - name: id, type: S",
            "KeySchema:",
            "  - name: id, key_type: Hash",
            "  - name: ts, key_type: Range",
        ]
    );
    let bare = describe_table_schema("t", &Vec::new(), &Vec::new());
    assert_eq!(bare, vec!["", "DynamoDB table: t"]);
}

#[test]
fn table_listing() {
    assert_eq!(list_tables(&Vec::new()), vec!["No DynamoDB tables found."]);
    let names = vec!["a".to_string(), "b".to_string()];
    assert_eq!(list_tables(&names), vec!["DynamoDB tables:", "  a", "  b"]);
}

#[test]
fn bucket_and_object_listing() {
    let (lines, n) = list_s3_buckets(&Vec::new());
    assert_eq!((lines, n), (vec!["No S3 buckets found.".to_string()], 0));
    let (lines, n) = list_s3_buckets(&vec![Some("b1".to_string()), None]);
    assert_eq!(n, 2);
    assert_eq!(lines, vec!["b1", "(no name)"]);
    assert_eq!(list_s3_objects(&vec![None, Some("k/x".to_string())]), vec!["(no key)", "k/x"]);
}

#[test]
fn lexicographic_order_by_code_point() {
    let c = |s: &str| s.chars().collect::<Vec<char>>();
    assert!(lex_less(&c("Z"), &c("a")));
    assert!(lex_less(&c("ab"), &c("abc")));
    assert!(!lex_less(&c("abc"), &c("abc")));
    assert!(!lex_less(&c("b"), &c("abc")));
}

#[test]
fn substring_search() {
    assert!(contains_str("abcabd", "abd"));
    assert!(contains_str("abc", ""));
    assert!(!contains_str("ab", "abc"));
    assert!(!contains_str("aXbc", "abc"));
}
