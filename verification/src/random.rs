//! The sources of chance: uniform integers and random identifiers.
//!
//! Nothing here is proved. Each function states what its outside crate
//! documents of every outcome; the rest of the library is verified for every
//! value that these may return.

use rand::Rng;
use vstd::prelude::*;

verus! {

/// `rand::Rng::gen_range` on `rand::thread_rng()` with the inclusive range
/// `lo..=hi`: the value drawn lies in the range. The outside function panics
/// on an empty range, which `lo <= hi` rules out.
#[verifier::external_body]
pub(crate) fn random_in_range(lo: u64, hi: u64) -> (n: u64)
    requires
        lo <= hi,
    ensures
        lo <= n <= hi,
{
    rand::thread_rng().gen_range(lo..=hi)
}

/// Whether `c` is a hexadecimal digit in lower case.
pub open spec fn is_lower_hex(c: char) -> bool {
    ('0' <= c <= '9') || ('a' <= c <= 'f')
}

/// The hyphenated form of a version 4 UUID: 36 characters, hyphens at 8, 13,
/// 18 and 23, the version digit `4` at 14, lower-case hexadecimal digits
/// everywhere else.
pub open spec fn is_uuid_v4_text(s: Seq<char>) -> bool {
    &&& s.len() == 36
    &&& s[14] == '4'
    &&& forall|i: int|
        0 <= i < 36 ==> if i == 8 || i == 13 || i == 18 || i == 23 {
            #[trigger] s[i] == '-'
        } else {
            is_lower_hex(s[i])
        }
}

/// `uuid::Uuid::new_v4` rendered by the type's `Display`, which writes the
/// hyphenated lower-case form; `new_v4` sets the version to 4.
#[verifier::external_body]
pub(crate) fn random_uuid_text() -> (text: String)
    ensures
        is_uuid_v4_text(text@),
{
    uuid::Uuid::new_v4().to_string()
}

} // verus!
