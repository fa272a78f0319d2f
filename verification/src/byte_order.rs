use vstd::prelude::*;
use byteorder::ByteOrder;

verus! {

/// The eight bytes of `n`, least significant first.
pub open spec fn le_bytes(n: u64) -> Seq<u8> {
    seq![
        n as u8,
        (n >> 8u64) as u8,
        (n >> 16u64) as u8,
        (n >> 24u64) as u8,
        (n >> 32u64) as u8,
        (n >> 40u64) as u8,
        (n >> 48u64) as u8,
        (n >> 56u64) as u8,
    ]
}

/// The number whose little-endian bytes are the first eight of `b`.
pub open spec fn le_value(b: Seq<u8>) -> u64
    recommends
        b.len() >= 8,
{
    (b[0] as u64) | ((b[1] as u64) << 8u64) | ((b[2] as u64) << 16u64) | ((b[3] as u64)
        << 24u64) | ((b[4] as u64) << 32u64) | ((b[5] as u64) << 40u64) | ((b[6] as u64)
        << 48u64) | ((b[7] as u64) << 56u64)
}

/// Reading back the little-endian bytes of a number gives the number.
pub proof fn lemma_le_roundtrip(n: u64)
    ensures
        le_value(le_bytes(n)) == n,
{
    let b = le_bytes(n);
    let b0 = b[0];
    let b1 = b[1];
    let b2 = b[2];
    let b3 = b[3];
    let b4 = b[4];
    let b5 = b[5];
    let b6 = b[6];
    let b7 = b[7];
    assert((b0 as u64) | ((b1 as u64) << 8u64) | ((b2 as u64) << 16u64) | ((b3 as u64) << 24u64)
        | ((b4 as u64) << 32u64) | ((b5 as u64) << 40u64) | ((b6 as u64) << 48u64) | ((b7 as u64)
        << 56u64) == n) by (bit_vector)
        requires
            b0 == n as u8,
            b1 == (n >> 8u64) as u8,
            b2 == (n >> 16u64) as u8,
            b3 == (n >> 24u64) as u8,
            b4 == (n >> 32u64) as u8,
            b5 == (n >> 40u64) as u8,
            b6 == (n >> 48u64) as u8,
            b7 == (n >> 56u64) as u8,
    ;
}

/// Calls `byteorder::LittleEndian::write_u64` on the eight bytes of `buf`
/// that start at `offset`. The crate's source writes `n.to_le_bytes()` there
/// and leaves the rest of the buffer untouched; the contract says exactly that.
#[verifier::external_body]
pub(crate) fn write_u64_le_at(buf: &mut Vec<u8>, offset: usize, n: u64)
    requires
        offset + 8 <= old(buf)@.len(),
    ensures
        final(buf)@ == old(buf)@.subrange(0, offset as int) + le_bytes(n) + old(buf)@.subrange(
            offset + 8,
            old(buf)@.len() as int,
        ),
{
    byteorder::LittleEndian::write_u64(&mut buf[offset..], n)
}

/// Calls `byteorder::LittleEndian::read_u64` on the eight bytes of `buf`
/// that start at `offset`. The crate's source returns
/// `u64::from_le_bytes` of those bytes; the contract says exactly that.
#[verifier::external_body]
pub(crate) fn read_u64_le_at(buf: &[u8], offset: usize) -> (n: u64)
    requires
        offset + 8 <= buf@.len(),
    ensures
        n == le_value(buf@.subrange(offset as int, offset + 8)),
{
    byteorder::LittleEndian::read_u64(&buf[offset..])
}

} // verus!
