//! Account identifiers as the client sends them.
use crate::text::{
    all_digits, digits_value, is_digit, lemma_nat_text_value, nat_text, parse_i64, str_chars,
};
use vstd::prelude::*;

verus! {

/// The user id that `account_id` denotes: a non-empty run of ASCII decimal
/// digits (leading zeros allowed, no sign or prefix) whose value is positive
/// and fits in `i64`.
pub open spec fn user_id_of(account_id: Seq<char>) -> Option<i64> {
    if account_id.len() > 0 && all_digits(account_id) && 0 < digits_value(account_id)
        <= i64::MAX {
        Some(digits_value(account_id) as i64)
    } else {
        None
    }
}

/// Parse the account identifier shape observed in CN 3.8 SDK requests.
///
/// The client-provided value is a positive decimal user ID. Channel prefixes
/// are not accepted.
pub fn parse_user_id(account_id: &str) -> (r: Option<i64>)
    ensures
        r == user_id_of(account_id@),
{
    let chars = str_chars(account_id);
    let mut i: usize = 0;
    while i < chars.len()
        invariant
            chars@ == account_id@,
            i <= chars@.len(),
            forall|k: int| 0 <= k < i ==> is_digit(#[trigger] chars@[k]),
        decreases chars@.len() - i,
    {
        let c = chars[i];
        if !('0' <= c && c <= '9') {
            return None;
        }
        i = i + 1;
    }
    if chars.len() == 0 {
        return None;
    }
    assert(all_digits(chars@));
    assert(!(chars@[0] == '+' || chars@[0] == '-'));
    match parse_i64(chars.as_slice()) {
        Some(v) => {
            if v > 0 {
                Some(v)
            } else {
                None
            }
        },
        None => None,
    }
}

/// Every user id reads back from its decimal text: the account id a client
/// sends for user `n` denotes `n`.
pub proof fn user_id_text_round_trips(n: i64)
    requires
        n > 0,
    ensures
        user_id_of(nat_text(n as nat)) == Some(n),
{
    lemma_nat_text_value(n as nat);
}

} // verus!
