//! Integers as bytes in the byte order of the machine the program runs on,
//! which is the order in which the frame source writes its fields.
use vstd::endian::{endianness, Endian};
use vstd::prelude::*;

verus! {

/// The two bytes of `v`, least significant first.
pub open spec fn spec_u16_le_bytes(v: u16) -> Seq<u8> {
    seq![(v % 256) as u8, (v / 256) as u8]
}

/// The four bytes of `v`, least significant first.
pub open spec fn spec_u32_le_bytes(v: u32) -> Seq<u8> {
    seq![
        (v % 256) as u8,
        ((v / 256) % 256) as u8,
        ((v / 65536) % 256) as u8,
        (v / 16777216) as u8,
    ]
}

/// The value of two bytes, least significant first.
pub open spec fn spec_u16_from_le(b: Seq<u8>) -> u16 {
    (b[0] + 256 * b[1]) as u16
}

/// The value of four bytes, least significant first.
pub open spec fn spec_u32_from_le(b: Seq<u8>) -> u32 {
    (b[0] + 256 * b[1] + 65536 * b[2] + 16777216 * b[3]) as u32
}

/// Puts bytes written least significant first into the machine's order.
pub open spec fn spec_native_order(le: Seq<u8>) -> Seq<u8> {
    match endianness() {
        Endian::Little => le,
        Endian::Big => le.reverse(),
    }
}

/// The two bytes of `v` in the machine's byte order.
pub open spec fn spec_u16_ne_bytes(v: u16) -> Seq<u8> {
    spec_native_order(spec_u16_le_bytes(v))
}

/// The four bytes of `v` in the machine's byte order.
pub open spec fn spec_u32_ne_bytes(v: u32) -> Seq<u8> {
    spec_native_order(spec_u32_le_bytes(v))
}

/// The value of two bytes in the machine's byte order.
pub open spec fn spec_u16_from_ne(b: Seq<u8>) -> u16 {
    spec_u16_from_le(spec_native_order(b))
}

/// The value of four bytes in the machine's byte order.
pub open spec fn spec_u32_from_ne(b: Seq<u8>) -> u32 {
    spec_u32_from_le(spec_native_order(b))
}

/// `u16::from_ne_bytes`: the value of two bytes read in the machine's byte order.
#[verifier::external_body]
pub(crate) fn u16_from_ne(b0: u8, b1: u8) -> (r: u16)
    ensures
        r == spec_u16_from_ne(seq![b0, b1]),
{
    u16::from_ne_bytes([b0, b1])
}

/// `u32::from_ne_bytes`: the value of four bytes read in the machine's byte order.
#[verifier::external_body]
pub(crate) fn u32_from_ne(b0: u8, b1: u8, b2: u8, b3: u8) -> (r: u32)
    ensures
        r == spec_u32_from_ne(seq![b0, b1, b2, b3]),
{
    u32::from_ne_bytes([b0, b1, b2, b3])
}

/// `u16::to_ne_bytes`: the two bytes of `v` in the machine's byte order.
#[verifier::external_body]
pub(crate) fn u16_to_ne(v: u16) -> (r: (u8, u8))
    ensures
        seq![r.0, r.1] == spec_u16_ne_bytes(v),
{
    let b = v.to_ne_bytes();
    (b[0], b[1])
}

/// `u32::to_ne_bytes`: the four bytes of `v` in the machine's byte order.
#[verifier::external_body]
pub(crate) fn u32_to_ne(v: u32) -> (r: (u8, u8, u8, u8))
    ensures
        seq![r.0, r.1, r.2, r.3] == spec_u32_ne_bytes(v),
{
    let b = v.to_ne_bytes();
    (b[0], b[1], b[2], b[3])
}

/// Bytes read least significant first weigh 1, 256, 65536, 16777216; a
/// little-endian machine keeps that order and a big-endian one reverses it.
pub proof fn lemma_byte_weights(b0: u8, b1: u8, b2: u8, b3: u8)
    ensures
        spec_u16_from_le(seq![b0, b1]) == b0 + 256 * b1,
        spec_u32_from_le(seq![b0, b1, b2, b3]) == b0 + 256 * b1 + 65536 * b2 + 16777216 * b3,
        endianness() == Endian::Little ==> spec_u16_from_ne(seq![b0, b1]) == b0 + 256 * b1,
        endianness() == Endian::Big ==> spec_u16_from_ne(seq![b0, b1]) == b1 + 256 * b0,
        endianness() == Endian::Little ==> spec_u32_from_ne(seq![b0, b1, b2, b3]) == b0 + 256
            * b1 + 65536 * b2 + 16777216 * b3,
        endianness() == Endian::Big ==> spec_u32_from_ne(seq![b0, b1, b2, b3]) == b3 + 256 * b2
            + 65536 * b1 + 16777216 * b0,
{
    assert(seq![b0, b1].reverse() =~= seq![b1, b0]);
    assert(seq![b0, b1, b2, b3].reverse() =~= seq![b3, b2, b1, b0]);
}

/// Reading back the bytes of a `u16` gives the value; writing the value of
/// two bytes gives the bytes.
pub proof fn lemma_u16_round_trip(v: u16, b: Seq<u8>)
    ensures
        spec_u16_ne_bytes(v).len() == 2,
        spec_u16_from_ne(spec_u16_ne_bytes(v)) == v,
        b.len() == 2 ==> spec_u16_ne_bytes(spec_u16_from_ne(b)) == b,
{
    let le = spec_u16_le_bytes(v);
    assert(spec_native_order(spec_native_order(le)) =~= le);
    assert((v % 256) as u8 + 256 * ((v / 256) as u8) == v) by (nonlinear_arith);
    if b.len() == 2 {
        let c = spec_native_order(b);
        assert(c.len() == 2);
        let x = spec_u16_from_le(c);
        let c0 = c[0];
        let c1 = c[1];
        assert(x == c0 + 256 * c1);
        assert((x % 256) as u8 == c0 && (x / 256) as u8 == c1) by (nonlinear_arith)
            requires
                x == c0 + 256 * c1,
                0 <= c0 < 256,
                0 <= c1 < 256,
        ;
        assert(spec_u16_le_bytes(x) =~= c);
        assert(spec_native_order(c) =~= b);
    }
}

/// Reading back the bytes of a `u32` gives the value; writing the value of
/// four bytes gives the bytes.
pub proof fn lemma_u32_round_trip(v: u32, b: Seq<u8>)
    ensures
        spec_u32_ne_bytes(v).len() == 4,
        spec_u32_from_ne(spec_u32_ne_bytes(v)) == v,
        b.len() == 4 ==> spec_u32_ne_bytes(spec_u32_from_ne(b)) == b,
{
    let le = spec_u32_le_bytes(v);
    assert(spec_native_order(spec_native_order(le)) =~= le);
    assert((v % 256) + 256 * ((v / 256) % 256) + 65536 * ((v / 65536) % 256) + 16777216 * (v
        / 16777216) == v) by (nonlinear_arith);
    if b.len() == 4 {
        let c = spec_native_order(b);
        assert(c.len() == 4);
        let x = spec_u32_from_le(c);
        let c0 = c[0];
        let c1 = c[1];
        let c2 = c[2];
        let c3 = c[3];
        assert(x == c0 + 256 * c1 + 65536 * c2 + 16777216 * c3);
        assert(x % 256 == c0 && (x / 256) % 256 == c1 && (x / 65536) % 256 == c2 && x / 16777216
            == c3) by (nonlinear_arith)
            requires
                x == c0 + 256 * c1 + 65536 * c2 + 16777216 * c3,
                0 <= c0 < 256,
                0 <= c1 < 256,
                0 <= c2 < 256,
                0 <= c3 < 256,
        ;
        assert(spec_u32_le_bytes(x) =~= c);
        assert(spec_native_order(c) =~= b);
    }
}

} // verus!
