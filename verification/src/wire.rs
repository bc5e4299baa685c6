//! Big-endian 32-bit integers as they appear on the wire.

use byteorder::{BigEndian, ByteOrder};
use vstd::prelude::*;

verus! {

/// The unsigned integer that the first four bytes of `bytes` hold, most
/// significant byte first.
pub open spec fn be_u32(bytes: Seq<u8>) -> u32
    recommends
        bytes.len() >= 4,
{
    (bytes[0] as int * 0x100_0000 + bytes[1] as int * 0x1_0000 + bytes[2] as int * 0x100
        + bytes[3] as int) as u32
}

/// The four bytes that hold `n`, most significant byte first.
pub open spec fn be_bytes(n: u32) -> Seq<u8> {
    seq![
        (n as int / 0x100_0000) as u8,
        (n as int / 0x1_0000 % 0x100) as u8,
        (n as int / 0x100 % 0x100) as u8,
        (n as int % 0x100) as u8,
    ]
}

/// Reading back the four bytes written for `n` gives `n` again.
pub proof fn lemma_be_bytes_then_be_u32(n: u32)
    ensures
        be_bytes(n).len() == 4,
        be_u32(be_bytes(n)) == n,
{
}

/// Writing the integer read from four bytes gives those four bytes again.
pub proof fn lemma_be_u32_then_be_bytes(bytes: Seq<u8>)
    requires
        bytes.len() == 4,
    ensures
        be_bytes(be_u32(bytes)) == bytes,
{
    let a = bytes[0] as int;
    let b = bytes[1] as int;
    let c = bytes[2] as int;
    let d = bytes[3] as int;
    let n = a * 0x100_0000 + b * 0x1_0000 + c * 0x100 + d;
    assert(be_u32(bytes) as int == n);
    assert(n / 0x100_0000 == a);
    assert(n / 0x1_0000 == a * 0x100 + b);
    assert(n / 0x100 == a * 0x1_0000 + b * 0x100 + c);
    assert(n / 0x1_0000 % 0x100 == b);
    assert(n / 0x100 % 0x100 == c);
    assert(n % 0x100 == d);
    assert(be_bytes(be_u32(bytes)) =~= bytes);
}

/// Calls `byteorder::BigEndian::read_u32`, which panics on fewer than four
/// bytes and otherwise returns the big-endian value of the first four.
#[verifier::external_body]
pub(crate) fn read_u32_be(buf: &[u8]) -> (n: u32)
    requires
        buf@.len() >= 4,
    ensures
        n == be_u32(buf@),
{
    BigEndian::read_u32(buf)
}

/// Calls `byteorder::BigEndian::write_u32` on a fresh four-byte array, which
/// it fills with `n`, most significant byte first.
#[verifier::external_body]
pub(crate) fn write_u32_be(n: u32) -> (out: [u8; 4])
    ensures
        out@ == be_bytes(n),
{
    let mut out = [0u8; 4];
    BigEndian::write_u32(&mut out, n);
    out
}

} // verus!
