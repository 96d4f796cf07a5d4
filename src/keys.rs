//! Keys of items: the projection used to scan only key attributes, which
//! attributes of a scanned item make up its key, and `name=value` arguments.
use vstd::prelude::*;
use crate::render::{has_name, join};
use crate::text::{chars_of, string_of};

verus! {

/// The item whose attribute names are `names` has every attribute of `keys`.
pub open spec fn has_full_key(names: Seq<String>, keys: Seq<String>) -> bool {
    forall|c: int| 0 <= c < keys.len() ==> has_name(names, #[trigger] keys[c]@)
}

/// `pos` picks out of `names`, for each key attribute in order, one attribute
/// of that name, and nothing else.
pub open spec fn picks_key(pos: Seq<usize>, names: Seq<String>, keys: Seq<String>) -> bool {
    &&& pos.len() == keys.len()
    &&& forall|c: int|
        0 <= c < keys.len() ==> #[trigger] pos[c] < names.len() && names[pos[c] as int]@ == keys[c]@
}

/// What to delete for one scanned item: the positions of its key attributes
/// where it has all of them, and nothing where one is missing.
pub open spec fn is_key_choice(r: Option<Vec<usize>>, names: Seq<String>, keys: Seq<String>) -> bool {
    &&& r is Some <==> has_full_key(names, keys)
    &&& r is Some ==> picks_key(r->0@, names, keys)
}

/// For each key attribute, the position of the first attribute of the item of
/// that name; `None` where the item lacks one of them.
pub fn key_for_item(names: &Vec<String>, keys: &Vec<String>) -> (r: Option<Vec<usize>>)
    ensures
        is_key_choice(r, names@, keys@),
{
    let mut pos: Vec<usize> = Vec::new();
    let mut c: usize = 0;
    while c < keys.len()
        invariant
            c <= keys.len(),
            pos@.len() == c,
            forall|i: int|
                0 <= i < c ==> #[trigger] pos@[i] < names@.len() && names@[pos@[i] as int]@ == keys@[i]@,
        decreases keys.len() - c,
    {
        let mut j: usize = 0;
        while j < names.len() && names[j] != keys[c]
            invariant
                c < keys.len(),
                j <= names.len(),
                forall|i: int| 0 <= i < j ==> #[trigger] names@[i]@ != keys@[c as int]@,
            decreases names.len() - j,
        {
            j = j + 1;
        }
        if j == names.len() {
            assert(!has_name(names@, keys@[c as int]@));
            return None;
        }
        pos.push(j);
        c = c + 1;
    }
    assert forall|i: int| 0 <= i < keys@.len() implies has_name(names@, #[trigger] keys@[i]@) by {
        assert(names@[pos@[i] as int]@ == keys@[i]@);
    }
    Some(pos)
}

/// The delete decisions for a page of scanned items, given by their attribute names.
pub open spec fn is_delete_plan(plan: Seq<Option<Vec<usize>>>, items: Seq<Vec<String>>, keys: Seq<String>) -> bool {
    &&& plan.len() == items.len()
    &&& forall|i: int| 0 <= i < items.len() ==> is_key_choice(#[trigger] plan[i], items[i]@, keys)
}

/// How many deletes a plan issues.
pub open spec fn planned_deletes(plan: Seq<Option<Vec<usize>>>) -> nat
    decreases plan.len(),
{
    if plan.len() == 0 {
        0
    } else {
        planned_deletes(plan.drop_last()) + if plan.last() is Some {
            1nat
        } else {
            0nat
        }
    }
}

/// Decides, for each scanned item of a page, which of its attributes key its delete.
pub fn plan_deletes(items: &Vec<Vec<String>>, keys: &Vec<String>) -> (r: Vec<Option<Vec<usize>>>)
    ensures
        is_delete_plan(r@, items@, keys@),
{
    let mut plan: Vec<Option<Vec<usize>>> = Vec::new();
    let mut i: usize = 0;
    while i < items.len()
        invariant
            i <= items.len(),
            plan@.len() == i,
            forall|k: int| 0 <= k < i ==> is_key_choice(#[trigger] plan@[k], items@[k]@, keys@),
        decreases items.len() - i,
    {
        plan.push(key_for_item(&items[i], keys));
        i = i + 1;
    }
    plan
}

/// Where every scanned item has the whole key, the plan deletes each of them
/// exactly once, keyed on the key attributes alone.
pub proof fn lemma_full_keys_delete_every_item(
    plan: Seq<Option<Vec<usize>>>,
    items: Seq<Vec<String>>,
    keys: Seq<String>,
)
    requires
        is_delete_plan(plan, items, keys),
        forall|i: int| 0 <= i < items.len() ==> has_full_key(#[trigger] items[i]@, keys),
    ensures
        planned_deletes(plan) == items.len(),
        forall|i: int| 0 <= i < items.len() ==> #[trigger] plan[i] is Some && picks_key(plan[i]->0@, items[i]@, keys),
    decreases plan.len(),
{
    if plan.len() > 0 {
        let n = plan.len() - 1;
        assert(is_key_choice(plan[n], items[n]@, keys));
        assert forall|i: int| 0 <= i < items.drop_last().len() implies is_key_choice(
            #[trigger] plan.drop_last()[i],
            items.drop_last()[i]@,
            keys,
        ) by {
            assert(is_key_choice(plan[i], items[i]@, keys));
        }
        assert forall|i: int| 0 <= i < items.drop_last().len() implies has_full_key(
            #[trigger] items.drop_last()[i]@,
            keys,
        ) by {
            assert(has_full_key(items[i]@, keys));
        }
        lemma_full_keys_delete_every_item(plan.drop_last(), items.drop_last(), keys);
    }
    assert forall|i: int| 0 <= i < items.len() implies #[trigger] plan[i] is Some && picks_key(
        plan[i]->0@,
        items[i]@,
        keys,
    ) by {
        assert(is_key_choice(plan[i], items[i]@, keys));
        assert(has_full_key(items[i]@, keys));
    }
}

/// The projection that scans only the key attributes: their names, separated by commas.
/// `None` where the table declares no key.
pub fn projection_for_keys(keys: &Vec<String>) -> (r: Option<String>)
    ensures
        keys.len() == 0 <==> r is None,
        r is Some ==> r->0@ == join(Seq::new(keys@.len(), |c: int| keys@[c]@), ','),
{
    if keys.len() == 0 {
        return None;
    }
    let ghost parts = Seq::new(keys@.len(), |c: int| keys@[c]@);
    let mut out: Vec<char> = Vec::new();
    let mut c: usize = 0;
    while c < keys.len()
        invariant
            c <= keys.len(),
            parts == Seq::new(keys@.len(), |c: int| keys@[c]@),
            out@ == join(parts.take(c as int), ','),
        decreases keys.len() - c,
    {
        assert(parts.take(c + 1).drop_last() =~= parts.take(c as int));
        if c > 0 {
            out.push(',');
        }
        let cs = chars_of(keys[c].as_str());
        let ghost before = out@;
        let mut i: usize = 0;
        while i < cs.len()
            invariant
                i <= cs.len(),
                out@ == before + cs@.take(i as int),
            decreases cs.len() - i,
        {
            out.push(cs[i]);
            assert(cs@.take(i + 1) =~= cs@.take(i as int).push(cs@[i as int]));
            i = i + 1;
        }
        assert(cs@.take(i as int) =~= cs@);
        assert(out@ =~= before + parts[c as int]);
        c = c + 1;
    }
    assert(parts.take(c as int) =~= parts);
    Some(string_of(&out))
}

/// Splits a `name=value` argument at its first `=`; `None` where it has none.
pub fn parse_key_arg(arg: &str) -> (r: Option<(String, String)>)
    ensures
        r is None <==> !arg@.contains('='),
        r is Some ==> arg@ == (r->0).0@ + seq!['='] + (r->0).1@ && !(r->0).0@.contains('='),
{
    let cs = chars_of(arg);
    let mut p: usize = 0;
    while p < cs.len() && cs[p] != '='
        invariant
            p <= cs.len(),
            cs@ == arg@,
            forall|i: int| 0 <= i < p ==> cs@[i] != '=',
        decreases cs.len() - p,
    {
        p = p + 1;
    }
    if p == cs.len() {
        return None;
    }
    let mut name: Vec<char> = Vec::new();
    let mut value: Vec<char> = Vec::new();
    let mut i: usize = 0;
    while i < cs.len()
        invariant
            p < cs.len(),
            i <= cs.len(),
            name@ == cs@.take(if i < p { i as int } else { p as int }),
            value@ == if i <= p + 1 { Seq::<char>::empty() } else { cs@.subrange(p + 1, i as int) },
        decreases cs.len() - i,
    {
        if i < p {
            name.push(cs[i]);
            assert(cs@.take(i + 1) =~= cs@.take(i as int).push(cs@[i as int]));
        } else if i > p {
            value.push(cs[i]);
            assert(cs@.subrange(p + 1, i + 1) =~= value@);
        }
        i = i + 1;
    }
    assert(cs@ =~= cs@.take(p as int) + seq!['='] + cs@.subrange(p + 1, cs.len() as int));
    assert(value@ =~= cs@.subrange(p + 1, cs.len() as int));
    assert(!name@.contains('=')) by {
        assert forall|k: int| 0 <= k < name@.len() implies name@[k] != '=' by {
            assert(name@[k] == cs@[k]);
        }
    }
    Some((string_of(&name), string_of(&value)))
}

/// Splits each `name=value` argument at its first `=`; `None` where one has no `=`.
pub fn parse_key_args(args: &Vec<String>) -> (r: Option<Vec<(String, String)>>)
    ensures
        r is Some <==> forall|i: int| 0 <= i < args.len() ==> (#[trigger] args@[i]@).contains('='),
        r is Some ==> r->0@.len() == args.len() && forall|i: int|
            0 <= i < args.len() ==> #[trigger] args@[i]@ == r->0@[i].0@ + seq!['='] + r->0@[i].1@
                && !r->0@[i].0@.contains('='),
{
    let mut pairs: Vec<(String, String)> = Vec::new();
    let mut i: usize = 0;
    while i < args.len()
        invariant
            i <= args.len(),
            pairs@.len() == i,
            forall|j: int| 0 <= j < i ==> (#[trigger] args@[j]@).contains('='),
            forall|j: int|
                0 <= j < i ==> #[trigger] args@[j]@ == pairs@[j].0@ + seq!['='] + pairs@[j].1@
                    && !pairs@[j].0@.contains('='),
        decreases args.len() - i,
    {
        match parse_key_arg(args[i].as_str()) {
            Some(pair) => pairs.push(pair),
            None => return None,
        }
        i = i + 1;
    }
    Some(pairs)
}

} // verus!
