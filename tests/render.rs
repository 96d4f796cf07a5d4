use rustawssdk::render::{
    collect_headers, escape_csv, escape_tsv, lookup_value, render_header, render_row, scan_table_csv,
    scan_table_tsv, Dialect, Item,
};

fn item(pairs: &[(&str, &str)]) -> Item {
    pairs.iter().map(|(k, v)| (k.to_string(), v.to_string())).collect()
}

#[test]
fn csv_escape_doubles_quotes() {
    assert_eq!(escape_csv("\"a\",b"), "\"\"\"a\"\",b\"");
}

#[test]
fn csv_escape_writes_newline_as_backslash_n() {
    assert_eq!(escape_csv("x\ny"), "\"x\\ny\"");
}

#[test]
fn csv_escape_of_empty_is_two_quotes() {
    assert_eq!(escape_csv(""), "\"\"");
}

#[test]
fn tsv_escape_writes_tab_and_newline() {
    assert_eq!(escape_tsv("a\tb"), "a\\tb");
    assert_eq!(escape_tsv("a\nb"), "a\\nb");
    assert_eq!(escape_tsv("say \"hi\""), "say \"hi\"");
}

#[test]
fn headers_are_sorted_union_without_repeats() {
    let items = vec![
        item(&[("name", "S(\"x\")"), ("id", "N(\"1\")")]),
        item(&[("id", "N(\"2\")"), ("age", "N(\"3\")"), ("Zed", "S(\"z\")")]),
    ];
    let h = collect_headers(&items);
    assert_eq!(h, vec!["Zed", "age", "id", "name"]);
}

#[test]
fn headers_of_no_items_are_empty() {
    let items: Vec<Item> = Vec::new();
    assert!(collect_headers(&items).is_empty());
}

#[test]
fn lookup_missing_is_empty() {
    let it = item(&[("a", "1")]);
    assert_eq!(lookup_value(&it, &"a".to_string()), "1");
    assert_eq!(lookup_value(&it, &"b".to_string()), "");
}

#[test]
fn csv_rows_have_one_cell_per_header() {
    let items = vec![item(&[("b", "S(\"x\")"), ("a", "N(\"1\")")]), item(&[("a", "N(\"2\")")])];
    let r = scan_table_csv(&items);
    assert_eq!(r.count, 2);
    assert_eq!(r.headers, vec!["a", "b"]);
    assert_eq!(
        r.lines,
        vec![
            "\"a\",\"b\"".to_string(),
            "\"N(\"\"1\"\")\",\"S(\"\"x\"\")\"".to_string(),
            "\"N(\"\"2\"\")\",\"\"".to_string(),
        ]
    );
}

#[test]
fn tsv_rows_have_one_cell_per_header() {
    let items = vec![item(&[("b", "x\ty"), ("a", "1")]), item(&[("b", "l1\nl2")])];
    let r = scan_table_tsv(&items);
    assert_eq!(r.count, 2);
    assert_eq!(
        r.lines,
        vec!["a\tb".to_string(), "1\tx\\ty".to_string(), "\tl1\\nl2".to_string()]
    );
}

#[test]
fn empty_scan_renders_no_items() {
    let items: Vec<Item> = Vec::new();
    let r = scan_table_csv(&items);
    assert_eq!(r.count, 0);
    assert!(r.headers.is_empty());
    assert_eq!(r.lines, vec!["(no items)".to_string()]);
    let t = scan_table_tsv(&items);
    assert_eq!(t.lines, vec!["(no items)".to_string()]);
}

#[test]
fn header_and_row_lines() {
    let headers = vec!["k".to_string(), "v\"q".to_string()];
    assert_eq!(render_header(Dialect::Csv, &headers), "\"k\",\"v\"\"q\"");
    assert_eq!(render_header(Dialect::Tsv, &headers), "k\tv\"q");
    let it = item(&[("k", "1")]);
    assert_eq!(render_row(Dialect::Csv, &it, &headers), "\"1\",\"\"");
    assert_eq!(render_row(Dialect::Tsv, &it, &headers), "1\t");
    let none: Vec<String> = Vec::new();
    assert_eq!(render_row(Dialect::Csv, &it, &none), "");
}
