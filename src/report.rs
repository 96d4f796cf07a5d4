//! The lines printed for table descriptions and listings.
use vstd::prelude::*;
use crate::text::{contains_seq, contains_str};

verus! {

/// `a + b + c` as a string.
fn concat3(a: &str, b: &str, c: &str) -> (r: String)
    ensures
        r@ == a@ + b@ + c@,
{
    let mut r = String::from_str(a);
    r.append(b);
    r.append(c);
    r
}

/// `a + b` as a string.
fn concat2(a: &str, b: &str) -> (r: String)
    ensures
        r@ == a@ + b@,
{
    let mut r = String::from_str(a);
    r.append(b);
    r
}

/// `a + b + c + d` as a string.
fn concat4(a: &str, b: &str, c: &str, d: &str) -> (r: String)
    ensures
        r@ == a@ + b@ + c@ + d@,
{
    let mut r = concat3(a, b, c);
    r.append(d);
    r
}

/// The error text the table store gives for a table that does not exist.
pub open spec fn not_found_marker() -> Seq<char> {
    "ResourceNotFoundException"@
}

/// Whether an error's text says that the table does not exist.
pub fn is_not_found_error(message: &str) -> (r: bool)
    ensures
        r == contains_seq(message@, not_found_marker()),
{
    contains_str(message, "ResourceNotFoundException")
}

/// The line for a table that does not exist.
pub open spec fn not_found_line(table: Seq<char>) -> Seq<char> {
    "Table '"@ + table + "' not found."@
}

/// What describing a table prints when the request failed with `message`:
/// the not-found line where the table does not exist, which counts as
/// success; `None` where the error stands.
pub fn describe_error_lines(table: &str, message: &str) -> (r: Option<Vec<String>>)
    ensures
        r is Some <==> contains_seq(message@, not_found_marker()),
        r is Some ==> r->0@.len() == 1 && r->0@[0]@ == not_found_line(table@),
{
    if is_not_found_error(message) {
        let mut lines: Vec<String> = Vec::new();
        lines.push(concat3("Table '", table, "' not found."));
        Some(lines)
    } else {
        None
    }
}

/// The line for one declared attribute and its type.
pub open spec fn attribute_line(name: Seq<char>, kind: Seq<char>) -> Seq<char> {
    "  - name: "@ + name + ", type: "@ + kind
}

/// The line for one key attribute and its role.
pub open spec fn key_line(name: Seq<char>, role: Seq<char>) -> Seq<char> {
    "  - name: "@ + name + ", key_type: "@ + role
}

/// The lines of a table description: a blank line and the table's name; the
/// declared attributes, where there are any, under `AttributeDefinitions:`;
/// the key attributes, where there are any, under `KeySchema:`.
pub open spec fn is_description(
    lines: Seq<String>,
    table: Seq<char>,
    attrs: Seq<(String, String)>,
    keys: Seq<(String, String)>,
) -> bool {
    let a: int = if attrs.len() > 0 { attrs.len() + 1int } else { 0int };
    let k: int = if keys.len() > 0 { keys.len() + 1int } else { 0int };
    &&& lines.len() == 2 + a + k
    &&& lines[0]@ == Seq::<char>::empty()
    &&& lines[1]@ == "DynamoDB table: "@ + table
    &&& attrs.len() > 0 ==> lines[2]@ == "AttributeDefinitions:"@
    &&& forall|i: int| 0 <= i < attrs.len() ==> #[trigger] lines[3 + i]@ == attribute_line(attrs[i].0@, attrs[i].1@)
    &&& keys.len() > 0 ==> lines[2 + a]@ == "KeySchema:"@
    &&& forall|i: int| 0 <= i < keys.len() ==> #[trigger] lines[3 + a + i]@ == key_line(keys[i].0@, keys[i].1@)
}

/// The description of a table from its declared attributes (name and type)
/// and key attributes (name and role).
pub fn describe_table_schema(table: &str, attrs: &Vec<(String, String)>, keys: &Vec<(String, String)>) -> (r: Vec<String>)
    ensures
        is_description(r@, table@, attrs@, keys@),
{
    let mut lines: Vec<String> = Vec::new();
    lines.push(String::new());
    lines.push(concat2("DynamoDB table: ", table));
    if attrs.len() > 0 {
        lines.push(String::from_str("AttributeDefinitions:"));
    }
    let mut i: usize = 0;
    while i < attrs.len()
        invariant
            i <= attrs.len(),
            attrs.len() > 0 ==> lines@.len() == 3 + i,
            attrs.len() == 0 ==> lines@.len() == 2,
            lines@[0]@ == Seq::<char>::empty(),
            lines@[1]@ == "DynamoDB table: "@ + table@,
            attrs.len() > 0 ==> lines@[2]@ == "AttributeDefinitions:"@,
            forall|j: int| 0 <= j < i ==> #[trigger] lines@[3 + j]@ == attribute_line(attrs@[j].0@, attrs@[j].1@),
        decreases attrs.len() - i,
    {
        lines.push(concat4("  - name: ", attrs[i].0.as_str(), ", type: ", attrs[i].1.as_str()));
        i = i + 1;
    }
    let ghost a: int = if attrs.len() > 0 { attrs.len() + 1int } else { 0int };
    if keys.len() > 0 {
        lines.push(String::from_str("KeySchema:"));
    }
    let mut i: usize = 0;
    while i < keys.len()
        invariant
            i <= keys.len(),
            a == if attrs.len() > 0 { attrs.len() + 1 } else { 0 },
            keys.len() > 0 ==> lines@.len() == 3 + a + i,
            keys.len() == 0 ==> lines@.len() == 2 + a,
            lines@[0]@ == Seq::<char>::empty(),
            lines@[1]@ == "DynamoDB table: "@ + table@,
            attrs.len() > 0 ==> lines@[2]@ == "AttributeDefinitions:"@,
            forall|j: int| 0 <= j < attrs.len() ==> #[trigger] lines@[3 + j]@ == attribute_line(attrs@[j].0@, attrs@[j].1@),
            keys.len() > 0 ==> lines@[2 + a]@ == "KeySchema:"@,
            forall|j: int| 0 <= j < i ==> #[trigger] lines@[3 + a + j]@ == key_line(keys@[j].0@, keys@[j].1@),
        decreases keys.len() - i,
    {
        lines.push(concat4("  - name: ", keys[i].0.as_str(), ", key_type: ", keys[i].1.as_str()));
        i = i + 1;
    }
    lines
}

/// The text of a name that may be absent, with `absent` in its place.
pub open spec fn name_or(name: Option<String>, absent: Seq<char>) -> Seq<char> {
    match name {
        Some(n) => n@,
        None => absent,
    }
}

/// The listing of table names: a title and one indented line per table, or a
/// single line that says there are none.
pub fn list_tables(names: &Vec<String>) -> (r: Vec<String>)
    ensures
        names.len() == 0 ==> r@.len() == 1 && r@[0]@ == "No DynamoDB tables found."@,
        names.len() > 0 ==> r@.len() == names.len() + 1 && r@[0]@ == "DynamoDB tables:"@,
        names.len() > 0 ==> forall|i: int| 0 <= i < names.len() ==> #[trigger] r@[i + 1]@ == "  "@ + names@[i]@,
{
    let mut lines: Vec<String> = Vec::new();
    if names.len() == 0 {
        lines.push(String::from_str("No DynamoDB tables found."));
        return lines;
    }
    lines.push(String::from_str("DynamoDB tables:"));
    let mut i: usize = 0;
    while i < names.len()
        invariant
            i <= names.len(),
            lines@.len() == i + 1,
            lines@[0]@ == "DynamoDB tables:"@,
            forall|j: int| 0 <= j < i ==> #[trigger] lines@[j + 1]@ == "  "@ + names@[j]@,
        decreases names.len() - i,
    {
        lines.push(concat2("  ", names[i].as_str()));
        i = i + 1;
    }
    lines
}

/// One line per name, with `absent` for a missing one.
fn name_lines(names: &Vec<Option<String>>, absent: &str) -> (r: Vec<String>)
    ensures
        r@.len() == names.len(),
        forall|i: int| 0 <= i < names.len() ==> #[trigger] r@[i]@ == name_or(names@[i], absent@),
{
    let mut lines: Vec<String> = Vec::new();
    let mut i: usize = 0;
    while i < names.len()
        invariant
            i <= names.len(),
            lines@.len() == i,
            forall|j: int| 0 <= j < i ==> #[trigger] lines@[j]@ == name_or(names@[j], absent@),
        decreases names.len() - i,
    {
        match &names[i] {
            Some(n) => lines.push(n.clone()),
            None => lines.push(String::from_str(absent)),
        }
        i = i + 1;
    }
    lines
}

/// The listing of buckets, with their number: one line per bucket, its name
/// or `(no name)`; a single line that says there are none where that is so.
pub fn list_s3_buckets(names: &Vec<Option<String>>) -> (r: (Vec<String>, usize))
    ensures
        r.1 == names.len(),
        names.len() == 0 ==> r.0@.len() == 1 && r.0@[0]@ == "No S3 buckets found."@,
        names.len() > 0 ==> r.0@.len() == names.len() && forall|i: int|
            0 <= i < names.len() ==> #[trigger] r.0@[i]@ == name_or(names@[i], "(no name)"@),
{
    if names.len() == 0 {
        let mut lines: Vec<String> = Vec::new();
        lines.push(String::from_str("No S3 buckets found."));
        return (lines, 0);
    }
    (name_lines(names, "(no name)"), names.len())
}

/// The lines for one page of objects: each object's key, or `(no key)`.
pub fn list_s3_objects(keys: &Vec<Option<String>>) -> (r: Vec<String>)
    ensures
        r@.len() == keys.len(),
        forall|i: int| 0 <= i < keys.len() ==> #[trigger] r@[i]@ == name_or(keys@[i], "(no key)"@),
{
    name_lines(keys, "(no key)")
}

} // verus!
