//! Quote-insensitive comparison of DNS TXT record values.

use vstd::prelude::*;

verus! {

/// What a provided (expected) value looks like as a sequence of characters.
pub open spec fn opt_view(provided: Option<&str>) -> Option<Seq<char>> {
    match provided {
        Option::None => Option::None,
        Option::Some(p) => Option::Some(p@),
    }
}

/// Quote-insensitive TXT value comparison: a stored value matches a provided
/// one when they are equal outright, or when the stored value is the provided
/// one wrapped in literal quote characters. An absent provided value matches
/// every stored value (it means the value is not compared at all).
pub open spec fn txt_value_matches(current: Seq<char>, provided: Option<Seq<char>>) -> bool {
    match provided {
        Option::None => true,
        Option::Some(p) => current == p || current == seq!['"'] + p + seq!['"'],
    }
}

/// Character-for-character string equality.
pub fn str_eq(a: &str, b: &str) -> (r: bool)
    ensures
        r == (a@ == b@),
{
    let a_len = a.unicode_len();
    let b_len = b.unicode_len();
    if a_len != b_len {
        return false;
    }
    let mut i: usize = 0;
    while i < a_len
        invariant
            a_len == a@.len(),
            b_len == b@.len(),
            a_len == b_len,
            i <= a_len,
            forall|j: int| 0 <= j < i ==> a@[j] == b@[j],
        decreases a_len - i,
    {
        if a.get_char(i) != b.get_char(i) {
            return false;
        }
        i += 1;
    }
    proof {
        assert(a@ =~= b@);
    }
    true
}

/// DNS TXT records may or may not have quotes; quotes should not matter.
/// If `provided` is `None`, the value is not compared and anything matches.
pub fn compare_dns_txt_value(current: &str, provided: Option<&str>) -> (r: bool)
    ensures
        r == txt_value_matches(current@, opt_view(provided)),
{
    match provided {
        None => true,
        Some(p) => {
            if str_eq(current, p) {
                true
            } else {
                let mut quoted = String::new();
                quoted.append("\"");
                quoted.append(p);
                quoted.append("\"");
                proof {
                    reveal_strlit("\"");
                    assert(quoted@ =~= seq!['"'] + p@ + seq!['"']);
                }
                str_eq(current, quoted.as_str())
            }
        },
    }
}

/// A value always matches itself, its quoted form matches it as well, and an
/// absent provided value matches anything.
pub proof fn lemma_txt_value_matches_quote_insensitive(value: Seq<char>, current: Seq<char>)
    ensures
        txt_value_matches(value, Some(value)),
        txt_value_matches(seq!['"'] + value + seq!['"'], Some(value)),
        txt_value_matches(current, None),
{
}

} // verus!
