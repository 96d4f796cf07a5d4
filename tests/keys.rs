use rustawssdk::keys::{key_for_item, parse_key_arg, parse_key_args, plan_deletes, projection_for_keys};

fn strings(v: &[&str]) -> Vec<String> {
    v.iter().map(|s| s.to_string()).collect()
}

#[test]
fn composite_key_ignores_other_attributes() {
    let keys = strings(&["pk", "sk"]);
    let names = strings(&["other", "sk", "pk", "more"]);
    assert_eq!(key_for_item(&names, &keys), Some(vec![2, 1]));
}

#[test]
fn item_missing_a_key_attribute_is_skipped() {
    let keys = strings(&["pk", "sk"]);
    let names = strings(&["pk", "other"]);
    assert_eq!(key_for_item(&names, &keys), None);
}

#[test]
fn every_fully_keyed_item_gets_one_delete() {
    let keys = strings(&["pk", "sk"]);
    let items = vec![
        strings(&["pk", "sk", "x"]),
        strings(&["sk", "pk"]),
        strings(&["y", "pk", "z", "sk"]),
    ];
    let plan = plan_deletes(&items, &keys);
    assert_eq!(plan.len(), 3);
    assert_eq!(plan.iter().filter(|p| p.is_some()).count(), 3);
    assert_eq!(plan[2], Some(vec![1, 3]));
}

#[test]
fn plan_skips_items_without_full_key() {
    let keys = strings(&["pk", "sk"]);
    let items = vec![strings(&["pk"]), strings(&["pk", "sk"])];
    let plan = plan_deletes(&items, &keys);
    assert_eq!(plan, vec![None, Some(vec![0, 1])]);
}

#[test]
fn projection_joins_key_names() {
    assert_eq!(projection_for_keys(&strings(&["pk", "sk"])), Some("pk,sk".to_string()));
    assert_eq!(projection_for_keys(&strings(&["id"])), Some("id".to_string()));
    assert_eq!(projection_for_keys(&Vec::new()), None);
}

#[test]
fn key_argument_splits_at_first_equals() {
    assert_eq!(parse_key_arg("id=42"), Some(("id".to_string(), "42".to_string())));
    assert_eq!(parse_key_arg("a=b=c"), Some(("a".to_string(), "b=c".to_string())));
    assert_eq!(parse_key_arg("k="), Some(("k".to_string(), "".to_string())));
    assert_eq!(parse_key_arg("abc"), None);
}

#[test]
fn key_arguments_all_or_nothing() {
    assert_eq!(
        parse_key_args(&strings(&["pk=1", "sk=x"])),
        Some(vec![("pk".to_string(), "1".to_string()), ("sk".to_string(), "x".to_string())])
    );
    assert_eq!(parse_key_args(&strings(&["pk=1", "sk"])), None);
}
