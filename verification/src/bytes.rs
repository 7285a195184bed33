//! Reading words from memory.

use vstd::prelude::*;
use byteorder::ByteOrder;

verus! {

/// Calls `byteorder::BigEndian::read_u16`, which reads the first two bytes
/// of `buf` as one number, the first byte being the more significant. It
/// panics on fewer than two bytes, which `requires` leaves out.
#[verifier::external_body]
pub(crate) fn read_u16_be(buf: &[u8]) -> (word: u16)
    requires
        buf@.len() >= 2,
    ensures
        word == buf@[0] * 256 + buf@[1],
{
    byteorder::BigEndian::read_u16(buf)
}

} // verus!
