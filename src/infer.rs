//! The type of an attribute value given as text on the command line.
use vstd::prelude::*;
use crate::text::chars_of;

verus! {

/// A value inferred from its text.
pub enum InferredValue {
    Bool(bool),
    /// A number, kept as the text it was given in.
    Number(String),
    Text(String),
}

/// `s` is the word whose lower-case letters are `lower` and upper-case letters
/// `upper`, each letter in either case.
pub open spec fn is_word_any_case(s: Seq<char>, lower: Seq<char>, upper: Seq<char>) -> bool {
    &&& s.len() == lower.len()
    &&& forall|i: int| 0 <= i < s.len() ==> #[trigger] s[i] == lower[i] || s[i] == upper[i]
}

/// `s` is `true` in any mix of cases.
pub open spec fn is_true_text(s: Seq<char>) -> bool {
    is_word_any_case(s, "true"@, "TRUE"@)
}

/// `s` is `false` in any mix of cases.
pub open spec fn is_false_text(s: Seq<char>) -> bool {
    is_word_any_case(s, "false"@, "FALSE"@)
}

fn word_any_case(s: &Vec<char>, lower: &str, upper: &str) -> (r: bool)
    requires
        lower@.len() == upper@.len(),
    ensures
        r == is_word_any_case(s@, lower@, upper@),
{
    let lc = chars_of(lower);
    let uc = chars_of(upper);
    if s.len() != lc.len() {
        return false;
    }
    let mut i: usize = 0;
    while i < s.len()
        invariant
            i <= s.len(),
            s.len() == lc.len(),
            lc.len() == uc.len(),
            lc@ == lower@,
            uc@ == upper@,
            forall|k: int| 0 <= k < i ==> #[trigger] s@[k] == lc@[k] || s@[k] == uc@[k],
        decreases s.len() - i,
    {
        if s[i] != lc[i] && s[i] != uc[i] {
            return false;
        }
        i = i + 1;
    }
    true
}

/// Infers the type of a value from its text: `true` or `false` in any case is
/// a boolean; otherwise text that reads as a number (`is_number`, as a 64-bit
/// floating-point parse decides) is a number; anything else is a string.
pub fn infer_value(text: &str, is_number: bool) -> (r: InferredValue)
    ensures
        is_true_text(text@) ==> r == InferredValue::Bool(true),
        !is_true_text(text@) && is_false_text(text@) ==> r == InferredValue::Bool(false),
        !is_true_text(text@) && !is_false_text(text@) && is_number ==> r is Number && r->Number_0@
            == text@,
        !is_true_text(text@) && !is_false_text(text@) && !is_number ==> r is Text && r->Text_0@
            == text@,
{
    proof {
        reveal_strlit("true");
        reveal_strlit("TRUE");
        reveal_strlit("false");
        reveal_strlit("FALSE");
    }
    let cs = chars_of(text);
    if word_any_case(&cs, "true", "TRUE") {
        InferredValue::Bool(true)
    } else if word_any_case(&cs, "false", "FALSE") {
        InferredValue::Bool(false)
    } else if is_number {
        InferredValue::Number(text.to_owned())
    } else {
        InferredValue::Text(text.to_owned())
    }
}

} // verus!
