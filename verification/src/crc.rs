//! Running CRC-32 accumulation over the bytes an entry reader produces.

use vstd::prelude::*;

verus! {

/// The CRC-32 (IEEE) digest of a byte sequence. The digest is a pure function
/// of the bytes alone; its definition is the `crc32fast` crate's algorithm and
/// is not restated here.
pub uninterp spec fn crc32_of(bytes: Seq<u8>) -> u32;

/// Relies on `crc32fast::hash`: the digest depends on the input bytes alone.
#[verifier::external_body]
fn crc32_compute(bytes: &Vec<u8>) -> (r: u32)
    ensures
        r == crc32_of(bytes@),
{
    crc32fast::hash(bytes.as_slice())
}

/// A running CRC-32 accumulator. Bytes are buffered as they are fed and the
/// digest is taken once, destructively, by [`Hasher::finalize`].
pub struct Hasher {
    pub fed: Vec<u8>,
}

impl View for Hasher {
    type V = Seq<u8>;

    open spec fn view(&self) -> Seq<u8> {
        self.fed@
    }
}

impl Hasher {
    /// An accumulator that has seen no bytes yet.
    pub fn new() -> (h: Hasher)
        ensures
            h@ == Seq::<u8>::empty(),
    {
        Hasher { fed: Vec::new() }
    }

    /// Feed a chunk of produced bytes to the accumulator.
    pub fn update(&mut self, chunk: &Vec<u8>)
        ensures
            final(self)@ == old(self)@ + chunk@,
    {
        self.fed.extend_from_slice(chunk.as_slice());
    }

    /// Consume the accumulator and return the digest of every byte fed so far.
    pub fn finalize(self) -> (r: u32)
        ensures
            r == crc32_of(self@),
    {
        crc32_compute(&self.fed)
    }
}

} // verus!
