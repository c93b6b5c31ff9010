use vstd::prelude::*;
use rand::Rng;

verus! {

/// A character of the token alphabet: an ASCII letter or digit.
pub open spec fn is_alphanumeric_char(c: char) -> bool {
    (97 <= c as int && c as int <= 122)  // 'a' ..= 'z'
    || (65 <= c as int && c as int <= 90)  // 'A' ..= 'Z'
    || (48 <= c as int && c as int <= 57)  // '0' ..= '9'
}

/// Every character of `s` is an ASCII letter or digit.
pub open spec fn all_alphanumeric(s: Seq<char>) -> bool {
    forall|i: int| 0 <= i < s.len() ==> is_alphanumeric_char(#[trigger] s[i])
}

/// Relies on rand: `thread_rng` is a cryptographically secure generator and
/// `Alphanumeric` samples uniformly from the ASCII letters and digits
/// (a-z, A-Z, 0-9). The result is random, so nothing is promised of which
/// string comes back, only its length and alphabet.
#[verifier::external_body]
pub(crate) fn random_string(len: usize) -> (r: String)
    ensures
        r@.len() == len,
        all_alphanumeric(r@),
{
    rand::thread_rng().sample_iter(rand::distributions::Alphanumeric).take(len).map(
        char::from,
    ).collect()
}

} // verus!
