//! Random ids for new objects.
use vstd::prelude::*;

verus! {

/// An id in the form of a random (version 4, RFC variant) UUID read as a
/// big-endian number: the version nibble is 4 and the two variant bits are
/// `10`; the other 122 bits are random.
pub open spec fn is_random_id(id: u128) -> bool {
    &&& (id >> 76u128) & 0xf == 4
    &&& (id >> 62u128) & 0x3 == 2
}

/// A new random 128-bit id.
///
/// Calls `uuid::Uuid::new_v4` and returns the id as a number
/// (`Uuid::as_u128`, big-endian). `new_v4` masks random bits so that the
/// version is 4 and the variant is RFC 4122; that is all that is stated of
/// the result, whose other bits are random.
#[verifier::external_body]
pub(crate) fn new_random_id() -> (r: u128)
    ensures
        is_random_id(r),
{
    uuid::Uuid::new_v4().as_u128()
}

} // verus!
