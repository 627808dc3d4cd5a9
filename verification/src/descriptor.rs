//! The trailing record ("data descriptor") and its wire layout.
//!
//! When an entry's sizes and checksum were unknown at write time, a 16-byte
//! record follows the data: a 4-byte signature, then checksum, compressed
//! size and uncompressed size, each a little-endian unsigned 32-bit integer.
//! A record is captured only when the signature matches; the 12-byte form
//! written without a signature is not detected (a known compatibility gap).

use vstd::prelude::*;

verus! {

/// The trailing record's signature, in integer form.
pub const DATA_DESCRIPTOR: u32 = 0x08074B50;

/// The unsigned 32-bit integer the first four bytes of `s` spell in
/// little-endian order.
pub open spec fn le32(s: Seq<u8>) -> int
    recommends
        s.len() >= 4,
{
    s[0] + s[1] * 0x100 + s[2] * 0x10000 + s[3] * 0x1000000
}

/// The four little-endian bytes of `x`.
pub open spec fn le_bytes(x: u32) -> Seq<u8> {
    seq![
        (x as int % 0x100) as u8,
        (x as int / 0x100 % 0x100) as u8,
        (x as int / 0x10000 % 0x100) as u8,
        (x as int / 0x1000000 % 0x100) as u8,
    ]
}

/// Reading four little-endian bytes and serializing the value again gives
/// the same bytes back.
pub proof fn lemma_le32_roundtrip(s: Seq<u8>)
    requires
        s.len() == 4,
    ensures
        0 <= le32(s) <= u32::MAX,
        le_bytes(le32(s) as u32) == s,
    decreases 0int,
{
    let a = s[0] as int;
    let b = s[1] as int;
    let c = s[2] as int;
    let d = s[3] as int;
    let x = le32(s);
    assert(0 <= x <= u32::MAX) by (nonlinear_arith)
        requires
            x == a + b * 0x100 + c * 0x10000 + d * 0x1000000,
            0 <= a < 0x100,
            0 <= b < 0x100,
            0 <= c < 0x100,
            0 <= d < 0x100,
    ;
    assert(x % 0x100 == a && x / 0x100 % 0x100 == b && x / 0x10000 % 0x100 == c && x
        / 0x1000000 % 0x100 == d) by (nonlinear_arith)
        requires
            x == a + b * 0x100 + c * 0x10000 + d * 0x1000000,
            0 <= a < 0x100,
            0 <= b < 0x100,
            0 <= c < 0x100,
            0 <= d < 0x100,
    ;
    assert(le_bytes(x as u32) =~= s);
}

/// The unsigned 32-bit integer the four bytes at `off` spell, executable.
pub fn read_le32(b: &Vec<u8>, off: usize) -> (r: u32)
    requires
        off + 4 <= b@.len(),
    ensures
        r == le32(b@.subrange(off as int, off + 4)),
{
    proof {
        lemma_le32_roundtrip(b@.subrange(off as int, off + 4));
    }
    // bind the length as a machine word so the index arithmetic below is
    // known not to overflow
    let len = b.len();
    proof {
        assert(off + 4 <= len);
    }
    (b[off] as u32) + (b[off + 1] as u32) * 0x100 + (b[off + 2] as u32) * 0x10000 + (b[off
        + 3] as u32) * 0x1000000
}

/// A resolved trailing record: the three values after the signature.
#[derive(Clone, Copy, PartialEq, Eq, Structural, Debug)]
pub struct DataDescriptor {
    pub crc: u32,
    pub compressed_size: u32,
    pub uncompressed_size: u32,
}

/// The 16 bytes a resolved record occupied on the wire.
pub open spec fn descriptor_bytes(d: DataDescriptor) -> Seq<u8> {
    le_bytes(DATA_DESCRIPTOR) + le_bytes(d.crc) + le_bytes(d.compressed_size) + le_bytes(
        d.uncompressed_size,
    )
}

/// What a captured buffer resolves to: a record exactly when all 16 bytes
/// were captured and the first four spell the signature.
#[verifier::opaque]
pub open spec fn resolve(buf: Seq<u8>) -> Option<DataDescriptor> {
    if buf.len() == 16 && le32(buf.subrange(0, 4)) == DATA_DESCRIPTOR {
        Some(
            DataDescriptor {
                crc: le32(buf.subrange(4, 8)) as u32,
                compressed_size: le32(buf.subrange(8, 12)) as u32,
                uncompressed_size: le32(buf.subrange(12, 16)) as u32,
            },
        )
    } else {
        None
    }
}

/// A buffer that resolves to a record is exactly that record's wire bytes.
pub proof fn lemma_resolved_bytes(buf: Seq<u8>)
    requires
        resolve(buf) is Some,
    ensures
        buf.len() == 16,
        descriptor_bytes(resolve(buf).unwrap()) == buf,
{
    reveal(resolve);
    lemma_le32_roundtrip(buf.subrange(0, 4));
    lemma_le32_roundtrip(buf.subrange(4, 8));
    lemma_le32_roundtrip(buf.subrange(8, 12));
    lemma_le32_roundtrip(buf.subrange(12, 16));
    assert(descriptor_bytes(resolve(buf).unwrap()) =~= buf);
}

/// Resolve a fully or partially filled capture buffer, executable.
pub fn parse_descriptor(buf: &Vec<u8>) -> (r: Option<DataDescriptor>)
    ensures
        r == resolve(buf@),
        r is Some ==> buf@.len() == 16,
{
    proof {
        reveal(resolve);
    }
    if buf.len() == 16 {
        let delimiter = read_le32(buf, 0);
        if delimiter == DATA_DESCRIPTOR {
            let crc = read_le32(buf, 4);
            let compressed = read_le32(buf, 8);
            let uncompressed = read_le32(buf, 12);
            proof {
                lemma_le32_roundtrip(buf@.subrange(4, 8));
                lemma_le32_roundtrip(buf@.subrange(8, 12));
                lemma_le32_roundtrip(buf@.subrange(12, 16));
                lemma_le32_roundtrip(buf@.subrange(0, 4));
            }
            Some(DataDescriptor { crc, compressed_size: compressed, uncompressed_size: uncompressed })
        } else {
            None
        }
    } else {
        None
    }
}

} // verus!
