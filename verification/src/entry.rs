//! Entry metadata as supplied by the header-parsing collaborator.
//!
//! The reader core never mutates any of this; it only reads the declared
//! compression method, sizes, checksum and flag bits.

use vstd::prelude::*;

verus! {

/// The compression method an entry's payload was written with.
///
/// Only `Stored` is decoded by the verified core itself (a bounded
/// pass-through). The remaining methods are self-terminating decoders that
/// are driven by the asynchronous layer around this library.
#[derive(Clone, Copy, PartialEq, Eq, Structural, Debug)]
pub enum Compression {
    Stored,
    Deflate,
    Bz,
    Lzma,
    Zstd,
    Xz,
}

/// The general-purpose flag bits the core reads.
///
/// `data_descriptor` means: the entry's sizes and checksum were unknown when
/// writing began, and a trailing record after the data carries them instead.
#[derive(Clone, Copy, PartialEq, Eq, Structural, Debug)]
pub struct GeneralPurposeFlag {
    pub encrypted: bool,
    pub data_descriptor: bool,
}

/// One entry's declared metadata, owned by the header-parsing collaborator.
pub struct ZipEntry {
    pub filename: String,
    pub compression: Compression,
    pub crc32: u32,
    pub compressed_size: u64,
    pub uncompressed_size: u64,
}

impl ZipEntry {
    pub fn new(
        filename: String,
        compression: Compression,
        crc32: u32,
        compressed_size: u64,
        uncompressed_size: u64,
    ) -> (e: ZipEntry)
        ensures
            e.filename == filename,
            e.compression == compression,
            e.crc32 == crc32,
            e.compressed_size == compressed_size,
            e.uncompressed_size == uncompressed_size,
    {
        ZipEntry { filename, compression, crc32, compressed_size, uncompressed_size }
    }

    /// The entry's filename.
    pub fn filename(&self) -> (r: &String)
        ensures
            r == self.filename,
    {
        &self.filename
    }

    /// The entry's declared compression method.
    pub fn compression(&self) -> (r: Compression)
        ensures
            r == self.compression,
    {
        self.compression
    }

    /// The entry's declared CRC-32 checksum.
    pub fn crc32(&self) -> (r: u32)
        ensures
            r == self.crc32,
    {
        self.crc32
    }

    /// The entry's declared compressed size.
    pub fn compressed_size(&self) -> (r: u64)
        ensures
            r == self.compressed_size,
    {
        self.compressed_size
    }

    /// The entry's declared uncompressed size.
    pub fn uncompressed_size(&self) -> (r: u64)
        ensures
            r == self.uncompressed_size,
    {
        self.uncompressed_size
    }
}

/// Parse-time metadata that accompanies an entry but is not part of its
/// declared header fields.
pub struct ZipEntryMeta {
    pub general_purpose_flag: GeneralPurposeFlag,
    pub file_offset: Option<u32>,
}

impl ZipEntryMeta {
    pub fn new(general_purpose_flag: GeneralPurposeFlag, file_offset: Option<u32>) -> (m: ZipEntryMeta)
        ensures
            m.general_purpose_flag == general_purpose_flag,
            m.file_offset == file_offset,
    {
        ZipEntryMeta { general_purpose_flag, file_offset }
    }
}

} // verus!
