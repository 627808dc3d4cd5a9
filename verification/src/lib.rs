//! Streaming reader for ZIP archive entries.
//!
//! The core of this library is [`read::ZipEntryReader`]: a pull-based,
//! suspendable reader that decompresses one entry's payload, feeds every
//! produced byte to a running CRC-32 accumulator, and—when the entry was
//! written with sizes and checksum unknown (the data-descriptor flag)—detects
//! and parses the 16-byte trailing record after the data, giving every byte
//! that does not belong to this entry back to the underlying source so the
//! next entry starts at its true offset.

pub mod buffered;
pub mod compression;
pub mod crc;
pub mod descriptor;
pub mod entry;
pub mod error;
pub mod index;
pub mod laws;
pub mod reader;
pub mod source;

pub use crate::entry::{Compression, GeneralPurposeFlag, ZipEntry, ZipEntryMeta};
pub use crate::error::ZipError;
