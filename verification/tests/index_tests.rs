use zipread::entry::{Compression, GeneralPurposeFlag, ZipEntry, ZipEntryMeta};
use zipread::index::ArchiveIndex;

fn entry(name: &str, crc: u32) -> (ZipEntry, ZipEntryMeta) {
    (
        ZipEntry::new(name.to_string(), Compression::Stored, crc, 0, 0),
        ZipEntryMeta::new(
            GeneralPurposeFlag { encrypted: false, data_descriptor: false },
            None,
        ),
    )
}

#[test]
fn entries_keep_parse_order() {
    let idx = ArchiveIndex::new(
        vec![entry("a", 1), entry("b", 2), entry("c", 3)],
        None,
    );
    let list = idx.entries();
    assert_eq!(list.len(), 3);
    assert_eq!(list[0].filename().as_str(), "a");
    assert_eq!(list[1].filename().as_str(), "b");
    assert_eq!(list[2].filename().as_str(), "c");
}

#[test]
fn lookup_finds_first_match() {
    // filenames are not required to be unique: the first match wins
    let idx = ArchiveIndex::new(
        vec![entry("a", 1), entry("dup", 2), entry("dup", 3)],
        None,
    );
    let (i, e) = idx.entry(&"dup".to_string()).unwrap();
    assert_eq!(i, 1);
    assert_eq!(e.crc32(), 2);
    assert!(idx.entry(&"missing".to_string()).is_none());
}

#[test]
fn comment_is_exposed_when_present() {
    let with = ArchiveIndex::new(vec![entry("a", 1)], Some("trailing words".to_string()));
    assert_eq!(with.comment(), Some("trailing words"));
    let without = ArchiveIndex::new(Vec::new(), None);
    assert!(without.comment().is_none());
}
