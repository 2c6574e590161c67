use byteorder::{ByteOrder, LE};
use vstd::prelude::*;

verus! {

/// The number that the first four bytes of `bytes` stand for, least
/// significant byte first.
pub open spec fn le_u32(bytes: Seq<u8>) -> nat
    recommends
        bytes.len() >= 4,
{
    (bytes[0] as nat) + 256 * (bytes[1] as nat) + 65536 * (bytes[2] as nat) + 16777216 * (
    bytes[3] as nat)
}

/// The four bytes that stand for `value`, least significant byte first.
pub open spec fn le_bytes(value: u32) -> Seq<u8> {
    seq![
        (value as nat % 256) as u8,
        (value as nat / 256 % 256) as u8,
        (value as nat / 65536 % 256) as u8,
        (value as nat / 16777216) as u8,
    ]
}

/// Decoding what `le_bytes` wrote gives the number back, whatever follows
/// the four bytes.
pub proof fn lemma_le_round_trip(value: u32, rest: Seq<u8>)
    ensures
        le_bytes(value).len() == 4,
        le_u32(le_bytes(value) + rest) == value,
{
    let b = le_bytes(value) + rest;
    assert(b[0] == le_bytes(value)[0]);
    assert(b[1] == le_bytes(value)[1]);
    assert(b[2] == le_bytes(value)[2]);
    assert(b[3] == le_bytes(value)[3]);
}

/// `byteorder::LittleEndian::read_u32`: the little-endian value of the first
/// four bytes of `buf`. The outside function panics on a shorter slice, which
/// the precondition leaves out.
#[verifier::external_body]
pub(crate) fn read_u32_le(buf: &[u8]) -> (value: u32)
    requires
        buf@.len() >= 4,
    ensures
        value == le_u32(buf@),
{
    LE::read_u32(buf)
}

} // verus!
