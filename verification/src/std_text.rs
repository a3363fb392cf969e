//! The few `String` and `char` operations of std that vstd leaves without a
//! specification, each behind a wrapper whose contract restates std's
//! documentation.
use vstd::prelude::*;
use crate::utf8_text::{byte_offset, char_width, is_offset_of};

verus! {

/// Whether `c` belongs to the Unicode general category Cc ("control"):
/// U+0000 to U+001F and U+007F to U+009F.
pub open spec fn is_control_code(c: char) -> bool {
    (c as u32) <= 0x1f || (0x7f <= (c as u32) && (c as u32) <= 0x9f)
}

/// Calls `char::is_control`. std documents it as true exactly for the
/// characters of general category Cc, which Unicode fixes as the two ranges
/// of `is_control_code`.
#[verifier::external_body]
pub(crate) fn char_is_control(c: char) -> (b: bool)
    ensures
        b == is_control_code(c),
{
    c.is_control()
}

/// Calls `char::len_utf8`, which std documents as the number of bytes the
/// character needs when encoded in UTF-8.
#[verifier::external_body]
pub(crate) fn char_len_utf8(c: char) -> (n: usize)
    ensures
        n == char_width(c),
{
    c.len_utf8()
}

/// Calls `String::insert`. std documents that it inserts `ch` at byte
/// position `idx`, and panics unless `idx` lies on a character boundary (the
/// end of the string counts as one); the contract names that boundary by the
/// number `k` of characters before it.
#[verifier::external_body]
pub(crate) fn string_insert(s: &mut String, idx: usize, ch: char)
    requires
        is_offset_of(old(s)@, idx as int),
    ensures
        forall|k: int|
            0 <= k <= old(s)@.len() && #[trigger] byte_offset(old(s)@, k) == idx ==> final(s)@
                == old(s)@.insert(k, ch),
{
    s.insert(idx, ch)
}

/// Calls `String::remove`. std documents that it removes and returns the
/// character that starts at byte position `idx`, and panics unless `idx` lies
/// on a character boundary before the end of the string; the contract names
/// that character by its index `k`.
#[verifier::external_body]
pub(crate) fn string_remove(s: &mut String, idx: usize) -> (c: char)
    requires
        is_offset_of(old(s)@, idx as int),
        idx < byte_offset(old(s)@, old(s)@.len() as int),
    ensures
        forall|k: int|
            0 <= k < old(s)@.len() && #[trigger] byte_offset(old(s)@, k) == idx ==> c == old(
                s,
            )@[k] && final(s)@ == old(s)@.remove(k),
{
    s.remove(idx)
}

} // verus!
