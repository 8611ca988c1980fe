//! Random choices and identifiers, from the `rand` and `uuid` crates.

use vstd::prelude::*;
use rand::Rng;
use crate::text::ascii_alnum;

verus! {

/// A uniformly chosen index below `n` (wraps `rand::thread_rng().gen_range(0..n)`).
/// Only the range is promised: the value is random.
#[verifier::external_body]
pub(crate) fn random_index(n: usize) -> (r: usize)
    requires
        n > 0,
    ensures
        r < n,
{
    rand::thread_rng().gen_range(0..n)
}

/// A random ASCII letter or digit (wraps sampling `rand::distributions::Alphanumeric`).
/// Only the alphabet is promised: the value is random.
#[verifier::external_body]
pub(crate) fn random_alphanumeric() -> (r: char)
    ensures
        ascii_alnum(r),
{
    rand::thread_rng().sample(rand::distributions::Alphanumeric) as char
}

/// A lowercase hexadecimal digit.
pub open spec fn is_lower_hex(c: char) -> bool {
    ('0' <= c && c <= '9') || ('a' <= c && c <= 'f')
}

/// The hyphenated lowercase text of a UUID: 8-4-4-4-12 hexadecimal digits.
pub open spec fn is_uuid_text(s: Seq<char>) -> bool {
    &&& s.len() == 36
    &&& forall|i: int| 0 <= i < 36 ==> if i == 8 || i == 13 || i == 18 || i == 23 {
        s[i] == '-'
    } else {
        is_lower_hex(#[trigger] s[i])
    }
}

/// A new random (version 4) UUID as hyphenated lowercase text (wraps
/// `uuid::Uuid::new_v4().to_string()`). Only the text format is promised: the value is random.
#[verifier::external_body]
pub(crate) fn new_uuid_v4() -> (r: String)
    ensures
        is_uuid_text(r@),
{
    uuid::Uuid::new_v4().to_string()
}

} // verus!
