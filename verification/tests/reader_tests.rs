use zipread::buffered::BufferedSource;
use zipread::compression::CompressionReader;
use zipread::entry::{Compression, GeneralPurposeFlag, ZipEntry, ZipEntryMeta};
use zipread::error::ZipError;
use zipread::reader::ZipEntryReader;
use zipread::source::{ByteSource, ReadOutcome, ReadStep};

fn entry(name: &str, crc: u32, size: u64) -> ZipEntry {
    ZipEntry::new(name.to_string(), Compression::Stored, crc, size, size)
}

fn meta(descriptor: bool) -> ZipEntryMeta {
    ZipEntryMeta::new(GeneralPurposeFlag { encrypted: false, data_descriptor: descriptor }, None)
}

fn reader_over(
    data: Vec<u8>,
    schedule: Vec<ReadStep>,
    e: ZipEntry,
    m: ZipEntryMeta,
    take: Option<u64>,
) -> ZipEntryReader {
    let src = ByteSource::new(data, schedule);
    let buffered = BufferedSource::new(src);
    let pipeline = CompressionReader::from_reader(&Compression::Stored, buffered, take).unwrap();
    ZipEntryReader::from_raw(e, m, pipeline)
}

fn descriptor_record(crc: u32, compressed: u32, uncompressed: u32) -> Vec<u8> {
    let mut v = Vec::new();
    v.extend_from_slice(&0x08074B50u32.to_le_bytes());
    v.extend_from_slice(&crc.to_le_bytes());
    v.extend_from_slice(&compressed.to_le_bytes());
    v.extend_from_slice(&uncompressed.to_le_bytes());
    v
}

fn drain(reader: &mut ZipEntryReader, max: usize) -> Vec<u8> {
    let mut out = Vec::new();
    loop {
        match reader.poll_read(max) {
            ReadOutcome::Bytes(v) => {
                if v.is_empty() {
                    return out;
                }
                out.extend_from_slice(&v);
            }
            ReadOutcome::Suspend => {}
            ReadOutcome::Fail => panic!("unexpected upstream failure"),
        }
    }
}

#[test]
fn read_to_end_hello_matches() {
    let crc = crc32fast::hash(b"hello");
    let r = reader_over(b"hello".to_vec(), Vec::new(), entry("a.txt", crc, 5), meta(false), Some(5));
    let bytes = r.read_to_end_crc().unwrap();
    assert_eq!(bytes, b"hello".to_vec());
}

#[test]
fn read_to_end_wrong_crc_fails() {
    let crc = crc32fast::hash(b"hello") ^ 1;
    let r = reader_over(b"hello".to_vec(), Vec::new(), entry("a.txt", crc, 5), meta(false), Some(5));
    assert_eq!(r.read_to_end_crc(), Err(ZipError::CRC32CheckError));
}

#[test]
fn flagged_entry_descriptor_is_authoritative() {
    // declared checksum deliberately wrong: the trailing record decides
    let crc = crc32fast::hash(b"hello");
    let mut data = b"hello".to_vec();
    data.extend_from_slice(&descriptor_record(crc, 5, 5));
    let r = reader_over(data, Vec::new(), entry("a.txt", 0xDEAD_BEEF, 0), meta(true), Some(5));
    let bytes = r.read_to_end_crc().unwrap();
    assert_eq!(bytes, b"hello".to_vec());
}

#[test]
fn flagged_entry_without_declared_size() {
    // sizes unknown at write time: the stored payload is empty, everything
    // of interest is in the trailing record
    let crc = crc32fast::hash(b"");
    let data = descriptor_record(crc, 0, 0);
    let r = reader_over(data, Vec::new(), entry("a.txt", 0, 0), meta(true), Some(0));
    let bytes = r.read_to_end_crc().unwrap();
    assert!(bytes.is_empty());
}

#[test]
fn flagged_entry_unsigned_record_not_detected() {
    // A trailing record written without its signature (the 12-byte legal
    // form) is not detected: a documented compatibility gap. The 16 bytes
    // read while probing must all be given back.
    let crc = crc32fast::hash(b"hello");
    let mut data = b"hello".to_vec();
    let mut tail = Vec::new();
    tail.extend_from_slice(&crc.to_le_bytes());
    tail.extend_from_slice(&5u32.to_le_bytes());
    tail.extend_from_slice(&5u32.to_le_bytes());
    tail.extend_from_slice(b"next"); // whatever follows in the stream
    data.extend_from_slice(&tail);
    let mut r = reader_over(data, Vec::new(), entry("a.txt", crc, 0), meta(true), Some(5));
    let bytes = drain(&mut r, 64);
    assert_eq!(bytes, b"hello".to_vec());
    assert!(r.consumed());
    assert!(r.data_descriptor.is_none());
    let src = r.into_source();
    assert_eq!(src.data[src.pos..].to_vec(), tail);
}

#[test]
fn descriptor_fields_exact_under_fragmentation() {
    let mut data = b"abc".to_vec();
    data.extend_from_slice(&descriptor_record(0x11223344, 0x55667788, 0x99AABBCC));
    let mut schedule = Vec::new();
    for _ in 0..40 {
        schedule.push(ReadStep::Deliver(1));
        schedule.push(ReadStep::Suspend);
    }
    for whole in [true, false] {
        let sched = if whole { Vec::new() } else { schedule.clone() };
        let mut r = reader_over(data.clone(), sched, entry("a", 0, 0), meta(true), Some(3));
        let bytes = drain(&mut r, if whole { 64 } else { 1 });
        assert_eq!(bytes, b"abc".to_vec());
        let d = r.data_descriptor.unwrap();
        assert_eq!(d.crc, 0x11223344);
        assert_eq!(d.compressed_size, 0x55667788);
        assert_eq!(d.uncompressed_size, 0x99AABBCC);
    }
}

#[test]
fn chunked_reads_yield_identical_output() {
    let crc = crc32fast::hash(b"some longer content!");
    let data = b"some longer content!".to_vec();
    let mut schedule = Vec::new();
    for _ in 0..30 {
        schedule.push(ReadStep::Suspend);
        schedule.push(ReadStep::Deliver(1));
    }
    let mut large = reader_over(data.clone(), Vec::new(), entry("a", crc, 20), meta(false), Some(20));
    let mut tiny = reader_over(data, schedule, entry("a", crc, 20), meta(false), Some(20));
    let out_large = drain(&mut large, 4096);
    let out_tiny = drain(&mut tiny, 1);
    assert_eq!(out_large, out_tiny);
    assert_eq!(large.compare_crc(), tiny.compare_crc());
}

#[test]
fn giveback_reconstitutes_byte_range() {
    // The pipeline's buffering over-reads past the entry's five bytes; after
    // the state machine completes, produced bytes plus what the source still
    // holds must reconstitute the original range exactly.
    let crc = crc32fast::hash(b"hello");
    let mut data = b"hello".to_vec();
    data.extend_from_slice(b"WORLD!");
    let mut r = reader_over(data.clone(), Vec::new(), entry("a", crc, 5), meta(false), Some(5));
    let produced = drain(&mut r, 64);
    assert!(r.consumed());
    let src = r.into_source();
    let mut reconstituted = produced.clone();
    reconstituted.extend_from_slice(&src.data[src.pos..]);
    assert_eq!(reconstituted, data);
    assert_eq!(produced, b"hello".to_vec());
}

#[test]
fn two_sequential_entries_from_one_source() {
    let crc1 = crc32fast::hash(b"hello");
    let crc2 = crc32fast::hash(b"WORLD!");
    let mut data = b"hello".to_vec();
    data.extend_from_slice(&descriptor_record(crc1, 5, 5));
    data.extend_from_slice(b"WORLD!");
    let mut schedule = Vec::new();
    for _ in 0..60 {
        schedule.push(ReadStep::Deliver(2));
        schedule.push(ReadStep::Suspend);
    }
    let mut first = reader_over(data, schedule, entry("one", 0, 0), meta(true), Some(5));
    let out1 = drain(&mut first, 3);
    assert_eq!(out1, b"hello".to_vec());
    assert!(first.compare_crc());
    let src = first.into_source();
    let buffered = BufferedSource::new(src);
    let pipeline =
        CompressionReader::from_reader(&Compression::Stored, buffered, Some(6)).unwrap();
    let second = ZipEntryReader::from_raw(entry("two", crc2, 6), meta(false), pipeline);
    let out2 = second.read_to_end_crc().unwrap();
    assert_eq!(out2, b"WORLD!".to_vec());
}

#[test]
fn stored_without_size_is_rejected() {
    let src = ByteSource::new(b"hello".to_vec(), Vec::new());
    let buffered = BufferedSource::new(src);
    let r = CompressionReader::from_reader(&Compression::Stored, buffered, None);
    assert!(matches!(r, Err(ZipError::MissingCompressedSize)));
}

#[test]
fn compressed_methods_need_outside_decoder() {
    let src = ByteSource::new(b"hello".to_vec(), Vec::new());
    let buffered = BufferedSource::new(src);
    let r = CompressionReader::from_reader(&Compression::Deflate, buffered, Some(5));
    assert!(matches!(r, Err(ZipError::UnsupportedCompression)));
}

#[test]
fn upstream_failure_propagates() {
    let crc = crc32fast::hash(b"hello");
    let schedule = vec![ReadStep::Deliver(2), ReadStep::Fail];
    let r = reader_over(b"hello".to_vec(), schedule, entry("a", crc, 5), meta(false), Some(5));
    assert_eq!(r.read_to_end_crc(), Err(ZipError::UpstreamReadError));
}

#[test]
fn read_to_string_returns_text() {
    let crc = crc32fast::hash("grüße".as_bytes());
    let data = "grüße".as_bytes().to_vec();
    let n = data.len() as u64;
    let r = reader_over(data, Vec::new(), entry("a", crc, n), meta(false), Some(n));
    assert_eq!(r.read_to_string_crc().unwrap(), "grüße".to_string());
}

#[test]
fn read_to_string_rejects_invalid_utf8() {
    let bytes = vec![0xFFu8, 0xFE, 0x41];
    let crc = crc32fast::hash(&bytes);
    let r = reader_over(bytes, Vec::new(), entry("a", crc, 3), meta(false), Some(3));
    assert_eq!(r.read_to_string_crc(), Err(ZipError::StringNotUtf8));
}

#[test]
fn copy_to_end_streams_to_sink() {
    let crc = crc32fast::hash(b"hello");
    let r = reader_over(b"hello".to_vec(), Vec::new(), entry("a", crc, 5), meta(false), Some(5));
    let mut sink = b"pre-".to_vec();
    r.copy_to_end_crc(&mut sink, 2).unwrap();
    assert_eq!(sink, b"pre-hello".to_vec());
}

#[test]
fn copy_to_end_does_not_retract_on_mismatch() {
    let crc = crc32fast::hash(b"hello") ^ 1;
    let r = reader_over(b"hello".to_vec(), Vec::new(), entry("a", crc, 5), meta(false), Some(5));
    let mut sink = Vec::new();
    assert_eq!(r.copy_to_end_crc(&mut sink, 64), Err(ZipError::CRC32CheckError));
    // documented side effect: bytes already written stay written
    assert_eq!(sink, b"hello".to_vec());
}

#[test]
fn reader_exposes_entry_and_consumed() {
    let crc = crc32fast::hash(b"hello");
    let mut r = reader_over(b"hello".to_vec(), Vec::new(), entry("a.txt", crc, 5), meta(false), Some(5));
    assert_eq!(r.entry().filename().as_str(), "a.txt");
    assert_eq!(r.entry().crc32(), crc);
    assert_eq!(r.entry().compression(), Compression::Stored);
    assert_eq!(r.entry().compressed_size(), 5);
    assert_eq!(r.entry().uncompressed_size(), 5);
    assert!(!r.consumed());
    drain(&mut r, 64);
    assert!(r.consumed());
    assert!(r.compare_crc());
}

#[test]
fn short_source_ends_early() {
    // the source runs dry before the declared size: end-of-data, checksum of
    // what was actually produced
    let crc = crc32fast::hash(b"hel");
    let r = reader_over(b"hel".to_vec(), Vec::new(), entry("a", crc, 5), meta(false), Some(5));
    assert_eq!(r.read_to_end_crc().unwrap(), b"hel".to_vec());
}

#[test]
fn failure_mid_descriptor_can_be_retried() {
    // an upstream error leaves the reader in its partial state and does not
    // advance the source, so retrying the same call makes progress
    let mut data = b"ab".to_vec();
    data.extend_from_slice(&descriptor_record(0xAA, 2, 2));
    let schedule = vec![
        ReadStep::Deliver(2),
        ReadStep::Deliver(4),
        ReadStep::Fail,
        ReadStep::Deliver(3),
    ];
    let mut r = reader_over(data, schedule, entry("a", 0, 0), meta(true), Some(2));
    let mut out = Vec::new();
    let mut failures = 0;
    loop {
        match r.poll_read(8) {
            ReadOutcome::Bytes(v) => {
                if v.is_empty() {
                    break;
                }
                out.extend_from_slice(&v);
            }
            ReadOutcome::Suspend => {}
            ReadOutcome::Fail => failures += 1,
        }
    }
    assert_eq!(failures, 1);
    assert_eq!(out, b"ab".to_vec());
    assert_eq!(r.data_descriptor.unwrap().crc, 0xAA);
}

#[test]
fn prepended_bytes_are_read_first() {
    let mut src = ByteSource::new(vec![3u8, 4u8], Vec::new());
    src.prepend(&vec![1u8, 2u8]);
    match src.read(8) {
        ReadOutcome::Bytes(v) => assert_eq!(v, vec![1u8, 2u8, 3u8, 4u8]),
        _ => panic!("expected bytes"),
    }
}
