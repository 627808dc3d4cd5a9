//! The decompression pipeline over a buffered source.
//!
//! A closed tagged-variant type with one dispatch operation: adding an
//! algorithm means adding one variant and one read case. The verified core
//! carries the stored (uncompressed) variant, a pass-through bounded by the
//! declared byte count — that method is not self-terminating, so the limit is
//! mandatory. The self-terminating decoders (deflate and friends) are driven
//! by the asynchronous layer around this library, which feeds their output
//! through the same entry reader.

use vstd::prelude::*;
use crate::buffered::BufferedSource;
use crate::entry::Compression;
use crate::error::ZipError;
use crate::source::ReadOutcome;

verus! {

/// A reader which may implement decompression over its buffered source.
pub enum CompressionReader {
    /// Pass-through of exactly `limit` more raw bytes.
    Stored { limit: u64, inner: BufferedSource },
}

impl CompressionReader {
    /// The buffered source under the decoder.
    pub open spec fn inner_spec(&self) -> BufferedSource {
        match self {
            CompressionReader::Stored { limit, inner } => *inner,
        }
    }

    /// How many more bytes the bounded pass-through may hand out.
    pub open spec fn limit_spec(&self) -> u64 {
        match self {
            CompressionReader::Stored { limit, inner } => *limit,
        }
    }

    /// Every raw byte still ahead of the underlying source, buffered or not.
    pub open spec fn raw_remaining(&self) -> Seq<u8> {
        self.inner_spec().remaining()
    }

    /// The decompressed bytes this pipeline has yet to produce.
    pub open spec fn out_remaining(&self) -> Seq<u8> {
        if self.limit_spec() <= self.raw_remaining().len() {
            self.raw_remaining().take(self.limit_spec() as int)
        } else {
            self.raw_remaining()
        }
    }

    pub open spec fn wf(&self) -> bool {
        self.inner_spec().wf()
    }

    pub open spec fn fail_free(&self) -> bool {
        self.inner_spec().fail_free()
    }

    /// A termination measure; see [`ByteSource::fuel`](crate::source::ByteSource::fuel).
    pub open spec fn fuel(&self) -> int {
        self.inner_spec().fuel()
    }

    /// Build the pipeline for an entry's declared method. The stored method
    /// needs the mandatory byte count; the compressed methods need the
    /// asynchronous decoders this library does not drive itself.
    pub fn from_reader(compression: &Compression, reader: BufferedSource, take: Option<u64>) -> (r:
        Result<CompressionReader, ZipError>)
        requires
            reader.wf(),
        ensures
            r is Ok <==> (compression is Stored && take is Some),
            match r {
                Ok(c) => {
                    &&& compression is Stored
                    &&& take is Some
                    &&& c.wf()
                    &&& c.inner_spec() == reader
                    &&& c.limit_spec() == take.unwrap()
                },
                Err(e) => {
                    &&& (e == ZipError::MissingCompressedSize <==> (compression is Stored
                        && take is None))
                    &&& (e == ZipError::UnsupportedCompression <==> !(compression is Stored))
                },
            },
    {
        match compression {
            Compression::Stored => {
                match take {
                    Some(limit) => Ok(CompressionReader::Stored { limit, inner: reader }),
                    None => Err(ZipError::MissingCompressedSize),
                }
            },
            _ => Err(ZipError::UnsupportedCompression),
        }
    }

    /// Produce up to `max` more decompressed bytes. An empty chunk means the
    /// decoder has reached its own end of data.
    pub fn read(&mut self, max: usize) -> (r: ReadOutcome)
        requires
            old(self).wf(),
            max >= 1,
        ensures
            final(self).wf(),
            old(self).fail_free() ==> final(self).fail_free() && !(r is Fail),
            match r {
                ReadOutcome::Bytes(v) => {
                    &&& v@.len() <= max
                    &&& v@.len() <= old(self).out_remaining().len()
                    &&& v@ == old(self).out_remaining().take(v@.len() as int)
                    &&& (v@.len() == 0 <==> old(self).out_remaining().len() == 0)
                    &&& final(self).limit_spec() == old(self).limit_spec() - v@.len()
                    &&& final(self).raw_remaining() == old(self).raw_remaining().skip(
                        v@.len() as int,
                    )
                    &&& final(self).fuel() <= old(self).fuel() - v@.len()
                },
                ReadOutcome::Suspend => {
                    &&& final(self).raw_remaining() == old(self).raw_remaining()
                    &&& final(self).inner_spec().buffered() == old(self).inner_spec().buffered()
                    &&& final(self).limit_spec() == old(self).limit_spec()
                    &&& final(self).fuel() < old(self).fuel()
                },
                ReadOutcome::Fail => {
                    &&& final(self).raw_remaining() == old(self).raw_remaining()
                    &&& final(self).inner_spec().buffered() == old(self).inner_spec().buffered()
                    &&& final(self).limit_spec() == old(self).limit_spec()
                    &&& final(self).fuel() < old(self).fuel()
                },
            },
    {
        match self {
            CompressionReader::Stored { limit, inner } => {
                if *limit == 0 {
                    return ReadOutcome::Bytes(Vec::new());
                }
                let n = if (max as u64) <= *limit {
                    max
                } else {
                    *limit as usize
                };
                match inner.read(n) {
                    ReadOutcome::Bytes(v) => {
                        *limit = *limit - v.len() as u64;
                        ReadOutcome::Bytes(v)
                    },
                    ReadOutcome::Suspend => ReadOutcome::Suspend,
                    ReadOutcome::Fail => ReadOutcome::Fail,
                }
            },
        }
    }

    /// Read raw bytes from the buffered source directly, bypassing the
    /// decoder. Used for the trailing record, whose bytes sit after the
    /// decoder's own end of data.
    pub fn bypass_read(&mut self, max: usize) -> (r: ReadOutcome)
        requires
            old(self).wf(),
            max >= 1,
        ensures
            final(self).wf(),
            final(self).limit_spec() == old(self).limit_spec(),
            old(self).fail_free() ==> final(self).fail_free() && !(r is Fail),
            match r {
                ReadOutcome::Bytes(v) => {
                    &&& v@.len() <= max
                    &&& v@.len() <= old(self).raw_remaining().len()
                    &&& v@ == old(self).raw_remaining().take(v@.len() as int)
                    &&& final(self).raw_remaining() == old(self).raw_remaining().skip(
                        v@.len() as int,
                    )
                    &&& (v@.len() == 0 <==> old(self).raw_remaining().len() == 0)
                    &&& final(self).fuel() <= old(self).fuel() - v@.len()
                },
                ReadOutcome::Suspend => {
                    &&& final(self).raw_remaining() == old(self).raw_remaining()
                    &&& final(self).inner_spec().buffered() == old(self).inner_spec().buffered()
                    &&& final(self).fuel() < old(self).fuel()
                },
                ReadOutcome::Fail => {
                    &&& final(self).raw_remaining() == old(self).raw_remaining()
                    &&& final(self).inner_spec().buffered() == old(self).inner_spec().buffered()
                    &&& final(self).fuel() < old(self).fuel()
                },
            },
    {
        match self {
            CompressionReader::Stored { limit, inner } => inner.read(max),
        }
    }

    /// Extract the bytes the buffering layer pre-fetched past the decoder's
    /// end: the over-read that give-back must reconcile.
    pub fn take_buffer(&mut self) -> (v: Vec<u8>)
        requires
            old(self).wf(),
        ensures
            final(self).wf(),
            v@ == old(self).inner_spec().buffered(),
            final(self).inner_spec().buffered() == Seq::<u8>::empty(),
            final(self).raw_remaining() == old(self).inner_spec().src.remaining(),
            old(self).raw_remaining() == v@ + final(self).raw_remaining(),
            final(self).limit_spec() == old(self).limit_spec(),
            final(self).fail_free() == old(self).fail_free(),
            final(self).fuel() == old(self).fuel() - v@.len(),
    {
        match self {
            CompressionReader::Stored { limit, inner } => {
                let v = inner.take_buffer();
                proof {
                    assert(old(self).raw_remaining() =~= v@ + inner.remaining());
                }
                v
            },
        }
    }

    /// Give reconciled bytes back to the underlying source.
    pub fn give_back(&mut self, bytes: &Vec<u8>)
        requires
            old(self).wf(),
        ensures
            final(self).wf(),
            final(self).raw_remaining() == old(self).inner_spec().buffered() + bytes@ + old(
                self,
            ).inner_spec().src.remaining(),
            final(self).inner_spec().buffered() == old(self).inner_spec().buffered(),
            final(self).limit_spec() == old(self).limit_spec(),
            final(self).fail_free() == old(self).fail_free(),
            final(self).fuel() == old(self).fuel() + bytes@.len(),
    {
        match self {
            CompressionReader::Stored { limit, inner } => inner.prepend_to_source(bytes),
        }
    }
}

} // verus!
