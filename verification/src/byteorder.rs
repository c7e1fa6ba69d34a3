//! Big-endian integer fields of the block header.
//!
//! The conversions themselves are done by `zerocopy`'s byte-order aware
//! integer types; what they are assumed to compute is stated here over
//! plain sequences of bytes.

use vstd::prelude::*;

verus! {

/// The four bytes of `v`, most significant first.
pub open spec fn be_bytes_u32(v: u32) -> Seq<u8> {
    seq![
        (v / 0x100_0000) as u8,
        (v / 0x1_0000 % 0x100) as u8,
        (v / 0x100 % 0x100) as u8,
        (v % 0x100) as u8,
    ]
}

/// The two bytes of `v`, most significant first.
pub open spec fn be_bytes_u16(v: u16) -> Seq<u8> {
    seq![(v / 0x100) as u8, (v % 0x100) as u8]
}

/// The integer whose big-endian bytes are the first four of `b`.
pub open spec fn be_value_u32(b: Seq<u8>) -> u32
    recommends
        b.len() >= 4,
{
    (b[0] * 0x100_0000 + b[1] * 0x1_0000 + b[2] * 0x100 + b[3]) as u32
}

/// The integer whose big-endian bytes are the first two of `b`.
pub open spec fn be_value_u16(b: Seq<u8>) -> u16
    recommends
        b.len() >= 2,
{
    (b[0] * 0x100 + b[1]) as u16
}

/// Reading back the bytes written for a 32-bit value gives the value.
pub proof fn lemma_be_u32_roundtrip(v: u32)
    ensures
        be_bytes_u32(v).len() == 4,
        be_value_u32(be_bytes_u32(v)) == v,
{
}

/// Reading back the bytes written for a 16-bit value gives the value.
pub proof fn lemma_be_u16_roundtrip(v: u16)
    ensures
        be_bytes_u16(v).len() == 2,
        be_value_u16(be_bytes_u16(v)) == v,
{
}

/// Writing the value read from four bytes gives those bytes again.
pub proof fn lemma_be_u32_bytes_roundtrip(b: Seq<u8>)
    requires
        b.len() == 4,
    ensures
        be_bytes_u32(be_value_u32(b)) == b,
{
    assert(be_bytes_u32(be_value_u32(b)) =~= b);
}

/// Writing the value read from two bytes gives those bytes again.
pub proof fn lemma_be_u16_bytes_roundtrip(b: Seq<u8>)
    requires
        b.len() == 2,
    ensures
        be_bytes_u16(be_value_u16(b)) == b,
{
    assert(be_bytes_u16(be_value_u16(b)) =~= b);
}

/// `zerocopy::byteorder::U32::<BigEndian>::new`, read out with `to_bytes`.
/// Assumed: the stored bytes are those of `v` in big-endian order.
#[verifier::external_body]
pub(crate) fn u32_to_be(v: u32) -> (r: [u8; 4])
    ensures
        r@ == be_bytes_u32(v),
{
    zerocopy::byteorder::U32::<zerocopy::byteorder::BigEndian>::new(v).to_bytes()
}

/// `zerocopy::byteorder::U16::<BigEndian>::new`, read out with `to_bytes`.
/// Assumed: the stored bytes are those of `v` in big-endian order.
#[verifier::external_body]
pub(crate) fn u16_to_be(v: u16) -> (r: [u8; 2])
    ensures
        r@ == be_bytes_u16(v),
{
    zerocopy::byteorder::U16::<zerocopy::byteorder::BigEndian>::new(v).to_bytes()
}

/// `zerocopy::byteorder::U32::<BigEndian>::get` on a value made with
/// `from_bytes`. Assumed: the result is the integer that `b` spells in
/// big-endian order.
#[verifier::external_body]
pub(crate) fn u32_from_be(b: [u8; 4]) -> (r: u32)
    ensures
        r == be_value_u32(b@),
{
    zerocopy::byteorder::U32::<zerocopy::byteorder::BigEndian>::from_bytes(b).get()
}

/// `zerocopy::byteorder::U16::<BigEndian>::get` on a value made with
/// `from_bytes`. Assumed: the result is the integer that `b` spells in
/// big-endian order.
#[verifier::external_body]
pub(crate) fn u16_from_be(b: [u8; 2]) -> (r: u16)
    ensures
        r == be_value_u16(b@),
{
    zerocopy::byteorder::U16::<zerocopy::byteorder::BigEndian>::from_bytes(b).get()
}

} // verus!
