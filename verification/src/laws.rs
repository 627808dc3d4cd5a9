//! Laws the reader obeys, stated and proved over its mathematical model.

use vstd::prelude::*;
use crate::crc::crc32_of;
use crate::descriptor::{le32, resolve, DataDescriptor, DATA_DESCRIPTOR};
use crate::reader::ZipEntryReader;

verus! {

/// For an entry whose flag does not announce a trailing record, the
/// integrated check accepts whenever the bytes produced are exactly the
/// content whose CRC-32 the entry declares. (The converse — acceptance
/// implying byte-identical content — would need CRC-32 to be injective,
/// which it is not.)
pub proof fn lemma_crc_check_accepts_original(r: ZipEntryReader, content: Seq<u8>)
    requires
        !r.flag(),
        r.produced() == content,
        r.entry.crc32 == crc32_of(content),
    ensures
        crc32_of(r.produced()) == r.expected_crc(),
{
}

/// A trailing record with a valid signature resolves to exactly the three
/// little-endian values spelled by the 12 bytes after the signature; any
/// other first four bytes resolve to no record at all.
pub proof fn lemma_resolution_exact(t: Seq<u8>)
    requires
        t.len() >= 16,
    ensures
        le32(t.subrange(0, 4)) == DATA_DESCRIPTOR ==> ZipEntryReader::resolution_of(
            Seq::<u8>::empty(),
            t,
        ) == Some(
            DataDescriptor {
                crc: le32(t.subrange(4, 8)) as u32,
                compressed_size: le32(t.subrange(8, 12)) as u32,
                uncompressed_size: le32(t.subrange(12, 16)) as u32,
            },
        ),
        le32(t.subrange(0, 4)) != DATA_DESCRIPTOR ==> ZipEntryReader::resolution_of(
            Seq::<u8>::empty(),
            t,
        ) is None,
{
    reveal(resolve);
    let t2 = Seq::<u8>::empty() + t;
    assert(t2 =~= t);
    let h = t.take(16);
    assert(h.subrange(0, 4) =~= t.subrange(0, 4));
    assert(h.subrange(4, 8) =~= t.subrange(4, 8));
    assert(h.subrange(8, 12) =~= t.subrange(8, 12));
    assert(h.subrange(12, 16) =~= t.subrange(12, 16));
}

/// A fresh reader's account — the bytes already returned to the caller,
/// plus the record bytes held aside, plus the bytes still ahead of the
/// source — is exactly the byte range it was given. Every read call
/// preserves the account (the conservation clause in `poll_read`'s
/// contract), so after any sequence of calls those three parts still
/// reconstitute that range: no byte duplicated, no byte dropped, across the
/// give-back boundary included.
pub proof fn lemma_account_starts_as_given(r: ZipEntryReader)
    requires
        r.produced() == Seq::<u8>::empty(),
        r.state is ReadData,
        r.data_descriptor is None,
    ensures
        r.account() == r.stream(),
{
    assert(r.account() =~= r.stream());
}

/// Two readers agree on everything observable when they agree on the bytes:
/// what was produced, what is ahead, the bounded pass-through budget, the
/// state-machine position, and the entry. Their delivery schedules — how the
/// sources fragment and suspend — are deliberately left unconstrained.
pub open spec fn same_model(a: ZipEntryReader, b: ZipEntryReader) -> bool {
    &&& a.produced() == b.produced()
    &&& a.stream() == b.stream()
    &&& a.reader.limit_spec() == b.reader.limit_spec()
    &&& a.state == b.state
    &&& a.consumed == b.consumed
    &&& a.data_descriptor == b.data_descriptor
    &&& a.entry == b.entry
    &&& a.meta == b.meta
}

/// Draining an entry is deterministic in the bytes alone: two readers over
/// the same bytes yield byte-identical output, resolve the same trailing
/// record and reach the same final checksum verdict, however their sources
/// fragment delivery into chunks or suspend between them.
pub proof fn lemma_drain_schedule_independent(a: ZipEntryReader, b: ZipEntryReader)
    requires
        same_model(a, b),
    ensures
        a.remaining_output() == b.remaining_output(),
        a.final_resolution() == b.final_resolution(),
        a.final_expected_crc() == b.final_expected_crc(),
        (crc32_of(a.produced() + a.remaining_output()) == a.final_expected_crc()) == (crc32_of(
            b.produced() + b.remaining_output(),
        ) == b.final_expected_crc()),
{
    assert(a.reader.out_remaining() == b.reader.out_remaining());
}

} // verus!
