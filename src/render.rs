//! Rendering of scanned items as comma- or tab-separated lines.
//!
//! An item is a list of attribute names, each with the text of its value.
//! Every line has one cell per header; an attribute that an item lacks gives
//! an empty cell.
use vstd::prelude::*;
use crate::lex::{lex_lt, lex_less, lemma_lex_total, lemma_lex_transitive};
use crate::text::{chars_of, string_of, push_all};

verus! {

/// One scanned item: attribute names, each with the text of its value.
pub type Item = Vec<(String, String)>;

/// The two line formats.
#[derive(Clone, Copy, PartialEq, Eq, Structural, Debug)]
pub enum Dialect {
    /// Quoted cells, separated by commas.
    Csv,
    /// Bare cells, separated by tabs.
    Tsv,
}

/// What one character of a value becomes inside a cell. A newline becomes the
/// two characters `\n` in both formats; a quote is doubled in CSV; a tab
/// becomes the two characters `\t` in TSV.
pub open spec fn escape_char(d: Dialect, c: char) -> Seq<char> {
    if c == '\n' {
        seq!['\\', 'n']
    } else if d == Dialect::Csv && c == '"' {
        seq!['"', '"']
    } else if d == Dialect::Tsv && c == '\t' {
        seq!['\\', 't']
    } else {
        seq![c]
    }
}

/// Every character of `s` escaped, in order.
pub open spec fn escaped(d: Dialect, s: Seq<char>) -> Seq<char>
    decreases s.len(),
{
    if s.len() == 0 {
        Seq::empty()
    } else {
        escaped(d, s.drop_last()) + escape_char(d, s.last())
    }
}

/// The cell for the text `s`: quoted in CSV, bare in TSV.
pub open spec fn cell(d: Dialect, s: Seq<char>) -> Seq<char> {
    match d {
        Dialect::Csv => seq!['"'] + escaped(d, s) + seq!['"'],
        Dialect::Tsv => escaped(d, s),
    }
}

/// The character between two cells.
pub open spec fn separator(d: Dialect) -> char {
    match d {
        Dialect::Csv => ',',
        Dialect::Tsv => '\t',
    }
}

/// The parts, with `sep` between each two of them.
pub open spec fn join(parts: Seq<Seq<char>>, sep: char) -> Seq<char>
    decreases parts.len(),
{
    if parts.len() == 0 {
        Seq::empty()
    } else if parts.len() == 1 {
        parts[0]
    } else {
        join(parts.drop_last(), sep).push(sep) + parts.last()
    }
}

/// The text of the first attribute of `item` named `name`; empty where there is none.
pub open spec fn lookup(item: Seq<(String, String)>, name: Seq<char>) -> Seq<char>
    decreases item.len(),
{
    if item.len() == 0 {
        Seq::empty()
    } else if item[0].0@ == name {
        item[0].1@
    } else {
        lookup(item.drop_first(), name)
    }
}

/// The cells of one item, one per header.
pub open spec fn row_cells(d: Dialect, item: Seq<(String, String)>, headers: Seq<String>) -> Seq<Seq<char>> {
    Seq::new(headers.len(), |c: int| cell(d, lookup(item, headers[c]@)))
}

/// The line of one item.
pub open spec fn row_line(d: Dialect, item: Seq<(String, String)>, headers: Seq<String>) -> Seq<char> {
    join(row_cells(d, item, headers), separator(d))
}

/// The cells of the header line: quoted in CSV, the names as they are in TSV.
pub open spec fn header_cells(d: Dialect, headers: Seq<String>) -> Seq<Seq<char>> {
    Seq::new(
        headers.len(),
        |c: int|
            match d {
                Dialect::Csv => cell(d, headers[c]@),
                Dialect::Tsv => headers[c]@,
            },
    )
}

/// The header line.
pub open spec fn header_line(d: Dialect, headers: Seq<String>) -> Seq<char> {
    join(header_cells(d, headers), separator(d))
}

/// `item` has an attribute named `name`.
pub open spec fn item_has(item: Seq<(String, String)>, name: Seq<char>) -> bool {
    exists|j: int| 0 <= j < item.len() && #[trigger] item[j].0@ == name
}

/// The join of one more part.
proof fn lemma_join_push(parts: Seq<Seq<char>>, sep: char, n: int)
    requires
        0 <= n < parts.len(),
    ensures
        join(parts.take(n + 1), sep) == if n == 0 {
            parts[0]
        } else {
            join(parts.take(n), sep).push(sep) + parts[n]
        },
{
    assert(parts.take(n + 1).drop_last() =~= parts.take(n));
}

/// A missing attribute gives an empty text.
pub proof fn lemma_lookup_missing(item: Seq<(String, String)>, name: Seq<char>)
    requires
        !item_has(item, name),
    ensures
        lookup(item, name) == Seq::<char>::empty(),
    decreases item.len(),
{
    if item.len() > 0 {
        assert(item[0].0@ != name);
        assert forall|j: int| 0 <= j < item.drop_first().len() implies #[trigger] item.drop_first()[j].0@ != name by {
            assert(item.drop_first()[j] == item[j + 1]);
        }
        lemma_lookup_missing(item.drop_first(), name);
    }
}

/// An attribute that an item lacks renders as an empty cell in its column.
pub proof fn lemma_missing_attribute_empty_cell(
    d: Dialect,
    item: Seq<(String, String)>,
    headers: Seq<String>,
    c: int,
)
    requires
        0 <= c < headers.len(),
        !item_has(item, headers[c]@),
    ensures
        row_cells(d, item, headers)[c] == cell(d, Seq::<char>::empty()),
{
    lemma_lookup_missing(item, headers[c]@);
}

/// No newline survives escaping, in either format; in TSV no tab does either.
pub proof fn lemma_escaped_has_no_line_break(d: Dialect, s: Seq<char>)
    ensures
        !escaped(d, s).contains('\n'),
        d == Dialect::Tsv ==> !escaped(d, s).contains('\t'),
    decreases s.len(),
{
    if s.len() > 0 {
        lemma_escaped_has_no_line_break(d, s.drop_last());
        let a = escaped(d, s.drop_last());
        let b = escape_char(d, s.last());
        assert forall|i: int| 0 <= i < (a + b).len() implies (a + b)[i] != '\n' && (d == Dialect::Tsv
            ==> (a + b)[i] != '\t') by {
            if i < a.len() {
                assert((a + b)[i] == a[i]);
            } else {
                assert((a + b)[i] == b[i - a.len()]);
            }
        }
    }
}

fn separator_char(d: Dialect) -> (c: char)
    ensures
        c == separator(d),
{
    match d {
        Dialect::Csv => ',',
        Dialect::Tsv => '\t',
    }
}

/// Appends the escaped characters of `s` to `out`.
fn push_escaped(d: Dialect, s: &str, out: &mut Vec<char>)
    ensures
        final(out)@ == old(out)@ + escaped(d, s@),
{
    let cs = chars_of(s);
    let mut i: usize = 0;
    while i < cs.len()
        invariant
            i <= cs.len(),
            cs@ == s@,
            out@ == old(out)@ + escaped(d, cs@.take(i as int)),
        decreases cs.len() - i,
    {
        let c = cs[i];
        let ghost before = out@;
        if c == '\n' {
            out.push('\\');
            out.push('n');
        } else if d == Dialect::Csv && c == '"' {
            out.push('"');
            out.push('"');
        } else if d == Dialect::Tsv && c == '\t' {
            out.push('\\');
            out.push('t');
        } else {
            out.push(c);
        }
        proof {
            assert(out@ =~= before + escape_char(d, c));
            assert(cs@.take(i + 1).drop_last() =~= cs@.take(i as int));
        }
        i = i + 1;
    }
    assert(cs@.take(i as int) =~= cs@);
}

/// Appends the cell for `s` to `out`.
fn push_cell(d: Dialect, s: &str, out: &mut Vec<char>)
    ensures
        final(out)@ == old(out)@ + cell(d, s@),
{
    match d {
        Dialect::Csv => {
            let ghost before = out@;
            out.push('"');
            push_escaped(d, s, out);
            out.push('"');
            assert(out@ =~= before + cell(d, s@));
        },
        Dialect::Tsv => {
            push_escaped(d, s, out);
        },
    }
}

/// A value as a CSV cell: quotes doubled, newlines written as `\n`, the whole in quotes.
pub fn escape_csv(s: &str) -> (r: String)
    ensures
        r@ == cell(Dialect::Csv, s@),
{
    let mut out: Vec<char> = Vec::new();
    push_cell(Dialect::Csv, s, &mut out);
    assert(out@ =~= cell(Dialect::Csv, s@));
    string_of(&out)
}

/// A value as a TSV cell: tabs written as `\t`, newlines as `\n`.
pub fn escape_tsv(s: &str) -> (r: String)
    ensures
        r@ == cell(Dialect::Tsv, s@),
{
    let mut out: Vec<char> = Vec::new();
    push_cell(Dialect::Tsv, s, &mut out);
    assert(out@ =~= cell(Dialect::Tsv, s@));
    string_of(&out)
}

/// The text of the first attribute of `item` named `name`, or an empty string.
pub fn lookup_value(item: &Item, name: &String) -> (r: String)
    ensures
        r@ == lookup(item@, name@),
{
    let mut i: usize = 0;
    assert(item@.skip(0) =~= item@);
    while i < item.len()
        invariant
            i <= item.len(),
            lookup(item@, name@) == lookup(item@.skip(i as int), name@),
        decreases item.len() - i,
    {
        if item[i].0 == *name {
            return item[i].1.clone();
        }
        assert(item@.skip(i as int).drop_first() =~= item@.skip(i + 1));
        i = i + 1;
    }
    String::new()
}

/// The line of one item: one cell per header, in the order of `headers`.
pub fn render_row(d: Dialect, item: &Item, headers: &Vec<String>) -> (r: String)
    ensures
        r@ == row_line(d, item@, headers@),
{
    let ghost cells = row_cells(d, item@, headers@);
    let mut out: Vec<char> = Vec::new();
    let mut c: usize = 0;
    while c < headers.len()
        invariant
            c <= headers.len(),
            cells == row_cells(d, item@, headers@),
            out@ == join(cells.take(c as int), separator(d)),
        decreases headers.len() - c,
    {
        proof {
            lemma_join_push(cells, separator(d), c as int);
        }
        if c > 0 {
            out.push(separator_char(d));
        }
        let v = lookup_value(item, &headers[c]);
        push_cell(d, v.as_str(), &mut out);
        c = c + 1;
    }
    assert(cells.take(c as int) =~= cells);
    string_of(&out)
}

/// The header line: the names, quoted in CSV, as they are in TSV.
pub fn render_header(d: Dialect, headers: &Vec<String>) -> (r: String)
    ensures
        r@ == header_line(d, headers@),
{
    let ghost cells = header_cells(d, headers@);
    let mut out: Vec<char> = Vec::new();
    let mut c: usize = 0;
    while c < headers.len()
        invariant
            c <= headers.len(),
            cells == header_cells(d, headers@),
            out@ == join(cells.take(c as int), separator(d)),
        decreases headers.len() - c,
    {
        proof {
            lemma_join_push(cells, separator(d), c as int);
        }
        if c > 0 {
            out.push(separator_char(d));
        }
        match d {
            Dialect::Csv => push_cell(d, headers[c].as_str(), &mut out),
            Dialect::Tsv => push_all(&mut out, headers[c].as_str()),
        }
        c = c + 1;
    }
    assert(cells.take(c as int) =~= cells);
    string_of(&out)
}

/// Each name comes strictly before every later one.
pub open spec fn strictly_sorted(h: Seq<String>) -> bool {
    forall|i: int, j: int| 0 <= i < j < h.len() ==> lex_lt(#[trigger] h[i]@, #[trigger] h[j]@)
}

/// `name` is among the names `h`.
pub open spec fn has_name(h: Seq<String>, name: Seq<char>) -> bool {
    exists|i: int| 0 <= i < h.len() && #[trigger] h[i]@ == name
}

/// Some item of `items` has an attribute named `name`.
pub open spec fn some_item_has(items: Seq<Item>, name: Seq<char>) -> bool {
    exists|k: int| 0 <= k < items.len() && item_has(#[trigger] items[k]@, name)
}

/// `h` is the header list of `items`: every attribute name that occurs in
/// them, once, in ascending order.
pub open spec fn is_header_list(h: Seq<String>, items: Seq<Item>) -> bool {
    &&& strictly_sorted(h)
    &&& forall|name: Seq<char>| #[trigger] has_name(h, name) <==> some_item_has(items, name)
}

proof fn lemma_item_has_step(item: Seq<(String, String)>, j: int)
    requires
        0 <= j < item.len(),
    ensures
        forall|name: Seq<char>|
            #[trigger] item_has(item.take(j + 1), name) <==> (item_has(item.take(j), name) || name
                == item[j].0@),
{
    assert forall|name: Seq<char>|
        #[trigger] item_has(item.take(j + 1), name) <==> (item_has(item.take(j), name) || name
            == item[j].0@) by {
        if item_has(item.take(j + 1), name) {
            let i = choose|i: int| 0 <= i < j + 1 && #[trigger] item.take(j + 1)[i].0@ == name;
            if i < j {
                assert(item.take(j)[i] == item[i]);
            }
        }
        if item_has(item.take(j), name) {
            let i = choose|i: int| 0 <= i < j && #[trigger] item.take(j)[i].0@ == name;
            assert(item.take(j + 1)[i] == item[i]);
        }
        if name == item[j].0@ {
            assert(item.take(j + 1)[j] == item[j]);
        }
    }
}

proof fn lemma_some_item_has_step(items: Seq<Item>, k: int)
    requires
        0 <= k < items.len(),
    ensures
        forall|name: Seq<char>|
            #[trigger] some_item_has(items.take(k + 1), name) <==> (some_item_has(items.take(k), name)
                || item_has(items[k]@, name)),
{
    assert forall|name: Seq<char>|
        #[trigger] some_item_has(items.take(k + 1), name) <==> (some_item_has(items.take(k), name)
            || item_has(items[k]@, name)) by {
        if some_item_has(items.take(k + 1), name) {
            let i = choose|i: int| 0 <= i < k + 1 && item_has(#[trigger] items.take(k + 1)[i]@, name);
            if i < k {
                assert(items.take(k)[i] == items[i]);
            }
        }
        if some_item_has(items.take(k), name) {
            let i = choose|i: int| 0 <= i < k && item_has(#[trigger] items.take(k)[i]@, name);
            assert(items.take(k + 1)[i] == items[i]);
        }
        if item_has(items[k]@, name) {
            assert(items.take(k + 1)[k] == items[k]);
        }
    }
}

/// Adds `name` to the sorted list `h`, where it is not there yet.
fn insert_name(h: &mut Vec<String>, name: &String)
    requires
        strictly_sorted(old(h)@),
    ensures
        strictly_sorted(final(h)@),
        forall|m: Seq<char>| #[trigger] has_name(final(h)@, m) <==> (has_name(old(h)@, m) || m == name@),
{
    let ghost o = h@;
    let nc = chars_of(name.as_str());
    let mut p: usize = 0;
    loop
        invariant
            p <= h.len(),
            h@ == o,
            nc@ == name@,
            strictly_sorted(o),
            forall|i: int| 0 <= i < p ==> lex_lt(#[trigger] o[i]@, name@),
        ensures
            p <= h.len(),
            h@ == o,
            forall|i: int| 0 <= i < p ==> lex_lt(#[trigger] o[i]@, name@),
            p < h.len() ==> !lex_lt(o[p as int]@, name@),
        decreases h.len() - p,
    {
        if p == h.len() {
            break;
        }
        let hc = chars_of(h[p].as_str());
        if !lex_less(&hc, &nc) {
            break;
        }
        p = p + 1;
    }
    if p < h.len() && h[p] == *name {
        assert forall|m: Seq<char>| #[trigger] has_name(h@, m) <==> (has_name(o, m) || m == name@) by {
            if m == name@ {
                assert(h@[p as int]@ == m);
            }
        }
        return;
    }
    h.insert(p, name.clone());
    proof {
        let n = h@;
        if p < o.len() {
            lemma_lex_total(o[p as int]@, name@);
        }
        assert forall|i: int, j: int| 0 <= i < j < n.len() implies lex_lt(#[trigger] n[i]@, #[trigger] n[j]@) by {
            if j < p {
                assert(n[i] == o[i] && n[j] == o[j]);
            } else if j == p {
                assert(n[i] == o[i]);
            } else if i < p {
                assert(n[i] == o[i] && n[j] == o[j - 1]);
            } else if i == p {
                assert(n[j] == o[j - 1]);
                if j - 1 > p {
                    lemma_lex_transitive(name@, o[p as int]@, o[j - 1]@);
                }
            } else {
                assert(n[i] == o[i - 1] && n[j] == o[j - 1]);
            }
        }
        assert forall|m: Seq<char>| #[trigger] has_name(n, m) <==> (has_name(o, m) || m == name@) by {
            if has_name(n, m) {
                let i = choose|i: int| 0 <= i < n.len() && #[trigger] n[i]@ == m;
                if i < p {
                    assert(o[i]@ == m);
                } else if i > p {
                    assert(o[i - 1]@ == m);
                }
            }
            if has_name(o, m) {
                let i = choose|i: int| 0 <= i < o.len() && #[trigger] o[i]@ == m;
                if i < p {
                    assert(n[i]@ == m);
                } else {
                    assert(n[i + 1]@ == m);
                }
            }
            if m == name@ {
                assert(n[p as int]@ == m);
            }
        }
    }
}

/// The header list of `items`: every attribute name that occurs in them,
/// once, in ascending order.
pub fn collect_headers(items: &Vec<Item>) -> (r: Vec<String>)
    ensures
        is_header_list(r@, items@),
{
    let mut h: Vec<String> = Vec::new();
    let mut k: usize = 0;
    while k < items.len()
        invariant
            k <= items.len(),
            strictly_sorted(h@),
            forall|m: Seq<char>| #[trigger] has_name(h@, m) <==> some_item_has(items@.take(k as int), m),
        decreases items.len() - k,
    {
        let item = &items[k];
        let mut j: usize = 0;
        assert forall|m: Seq<char>| #[trigger] has_name(h@, m) <==> (some_item_has(items@.take(k as int), m)
            || item_has(item@.take(0), m)) by {}
        while j < item.len()
            invariant
                k < items.len(),
                j <= item.len(),
                item == &items@[k as int],
                strictly_sorted(h@),
                forall|m: Seq<char>| #[trigger] has_name(h@, m) <==> (some_item_has(items@.take(k as int), m)
                    || item_has(item@.take(j as int), m)),
            decreases item.len() - j,
        {
            proof {
                lemma_item_has_step(item@, j as int);
            }
            insert_name(&mut h, &item[j].0);
            j = j + 1;
        }
        proof {
            assert(item@.take(j as int) =~= item@);
            lemma_some_item_has_step(items@, k as int);
        }
        k = k + 1;
    }
    assert(items@.take(k as int) =~= items@);
    h
}

/// A scan rendered as lines, with the headers it used and the number of items.
pub struct Rendered {
    pub headers: Vec<String>,
    pub lines: Vec<String>,
    pub count: u64,
}

/// What a scan of `items` renders as in format `d`. With no items there is
/// one line, `(no items)`, and no header. Otherwise the first line is the
/// header line of the header list, and each item gives one more line, in
/// order.
pub open spec fn is_rendering(r: Rendered, d: Dialect, items: Seq<Item>) -> bool {
    &&& r.count == items.len()
    &&& items.len() == 0 ==> r.headers@.len() == 0 && r.lines@.len() == 1 && r.lines@[0]@
        == "(no items)"@
    &&& items.len() > 0 ==> {
        &&& is_header_list(r.headers@, items)
        &&& r.lines@.len() == items.len() + 1
        &&& r.lines@[0]@ == header_line(d, r.headers@)
        &&& forall|k: int| 0 <= k < items.len() ==> #[trigger] r.lines@[k + 1]@ == row_line(d, items[k]@, r.headers@)
    }
}

/// Renders the items of a scan in format `d`.
pub fn render_scan(d: Dialect, items: &Vec<Item>) -> (r: Rendered)
    ensures
        is_rendering(r, d, items@),
{
    if items.len() == 0 {
        let mut lines: Vec<String> = Vec::new();
        lines.push(String::from_str("(no items)"));
        return Rendered { headers: Vec::new(), lines, count: 0 };
    }
    let headers = collect_headers(items);
    let mut lines: Vec<String> = Vec::new();
    lines.push(render_header(d, &headers));
    let mut k: usize = 0;
    while k < items.len()
        invariant
            k <= items.len(),
            lines@.len() == k + 1,
            lines@[0]@ == header_line(d, headers@),
            forall|i: int| 0 <= i < k ==> #[trigger] lines@[i + 1]@ == row_line(d, items@[i]@, headers@),
        decreases items.len() - k,
    {
        lines.push(render_row(d, &items[k], &headers));
        k = k + 1;
    }
    Rendered { headers, lines, count: items.len() as u64 }
}

/// Renders the items of a scan as CSV.
pub fn scan_table_csv(items: &Vec<Item>) -> (r: Rendered)
    ensures
        is_rendering(r, Dialect::Csv, items@),
{
    render_scan(Dialect::Csv, items)
}

/// Renders the items of a scan as TSV.
pub fn scan_table_tsv(items: &Vec<Item>) -> (r: Rendered)
    ensures
        is_rendering(r, Dialect::Tsv, items@),
{
    render_scan(Dialect::Tsv, items)
}

} // verus!
