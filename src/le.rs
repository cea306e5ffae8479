use vstd::prelude::*;
use byteorder::{ByteOrder, LittleEndian};

verus! {

/// The unsigned 32-bit value of the four bytes at `off`, least significant first.
pub open spec fn le_u32_at(b: Seq<u8>, off: int) -> u32 {
    (b[off] + 0x100 * b[off + 1] + 0x1_0000 * b[off + 2] + 0x100_0000 * b[off + 3]) as u32
}

/// The four bytes of `v`, least significant first.
pub open spec fn le_bytes(v: u32) -> Seq<u8> {
    seq![
        (v % 0x100) as u8,
        (v / 0x100 % 0x100) as u8,
        (v / 0x1_0000 % 0x100) as u8,
        (v / 0x100_0000) as u8,
    ]
}

/// `b` with the four bytes at `off` replaced by those of `v`, least significant first.
pub open spec fn put_u32_le(b: Seq<u8>, off: int, v: u32) -> Seq<u8> {
    let w = le_bytes(v);
    b.update(off, w[0]).update(off + 1, w[1]).update(off + 2, w[2]).update(off + 3, w[3])
}

/// Relies on byteorder's `LittleEndian::read_u32`: the value of the first four
/// bytes, least significant first.
#[verifier::external_body]
pub(crate) fn read_u32_le(buf: &[u8]) -> (r: u32)
    requires
        buf@.len() >= 4,
    ensures
        r == le_u32_at(buf@, 0),
{
    LittleEndian::read_u32(buf)
}

/// Relies on byteorder's `LittleEndian::write_u32`: the four bytes of `v`,
/// least significant first, written at `off`; nothing else changes.
#[verifier::external_body]
pub(crate) fn write_u32_le(buf: &mut [u8], off: usize, v: u32)
    requires
        off + 4 <= old(buf)@.len(),
    ensures
        final(buf)@ == put_u32_le(old(buf)@, off as int, v),
{
    LittleEndian::write_u32(&mut buf[off..off + 4], v)
}

/// The value of the bytes of `v` is `v`.
pub proof fn lemma_value_of_bytes(v: u32)
    ensures
        le_u32_at(le_bytes(v), 0) == v,
{
    assert(((v % 0x100) as u8) + 0x100 * ((v / 0x100 % 0x100) as u8) + 0x1_0000 * ((v / 0x1_0000
        % 0x100) as u8) + 0x100_0000 * ((v / 0x100_0000) as u8) == v) by (bit_vector);
}

/// The bytes of the value read at `off` are the bytes found there.
pub proof fn lemma_bytes_of_value(b: Seq<u8>, off: int)
    requires
        0 <= off,
        off + 4 <= b.len(),
    ensures
        le_bytes(le_u32_at(b, off)) == b.subrange(off, off + 4),
{
    let (b0, b1, b2, b3) = (b[off], b[off + 1], b[off + 2], b[off + 3]);
    assert((b0 + 0x100 * b1 + 0x1_0000 * b2 + 0x100_0000 * b3) as u32 % 0x100 == b0 as u32)
        by (bit_vector);
    assert((b0 + 0x100 * b1 + 0x1_0000 * b2 + 0x100_0000 * b3) as u32 / 0x100 % 0x100 == b1 as u32)
        by (bit_vector);
    assert((b0 + 0x100 * b1 + 0x1_0000 * b2 + 0x100_0000 * b3) as u32 / 0x1_0000 % 0x100
        == b2 as u32) by (bit_vector);
    assert((b0 + 0x100 * b1 + 0x1_0000 * b2 + 0x100_0000 * b3) as u32 / 0x100_0000 == b3 as u32)
        by (bit_vector);
    assert(le_bytes(le_u32_at(b, off)) =~= b.subrange(off, off + 4));
}

} // verus!
