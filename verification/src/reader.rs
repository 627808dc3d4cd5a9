//! The per-entry streaming reader and its suspend/resume state machine.
//!
//! A [`ZipEntryReader`] composes the decompression pipeline, the running
//! checksum and the trailing-record state machine. Every read call either
//! produces decompressed bytes, suspends, fails, or reports end-of-data; the
//! first end-of-data observation triggers the record cycle
//! `ReadData -> ReadDescriptor -> PrepareNext -> ReadData`, which runs at
//! most once and ends with exactly one give-back of every byte that does not
//! belong to this entry.

use vstd::prelude::*;
use crate::compression::CompressionReader;
use crate::crc;
use crate::crc::crc32_of;
use crate::descriptor;
use crate::descriptor::{DataDescriptor, descriptor_bytes, resolve};
use crate::entry::{ZipEntry, ZipEntryMeta};
use crate::error::ZipError;
use crate::source::{ByteSource, ReadOutcome};

verus! {

/// Mid-read capture of the fixed-size trailing record, tolerant of partial
/// fills across suspensions. `filled` counts the bytes captured so far, out
/// of the record's 16.
pub struct DescriptorCapture {
    pub buf: Vec<u8>,
    pub filled: usize,
}

impl DescriptorCapture {
    pub open spec fn wf(&self) -> bool {
        &&& self.filled == self.buf@.len()
        &&& self.filled <= 16
    }

    /// The record bytes captured so far.
    pub open spec fn bytes(&self) -> Seq<u8> {
        self.buf@
    }

    /// An empty capture.
    pub fn new() -> (c: DescriptorCapture)
        ensures
            c.wf(),
            c.filled == 0,
            c.bytes() == Seq::<u8>::empty(),
    {
        DescriptorCapture { buf: Vec::new(), filled: 0 }
    }

    /// Append a freshly read chunk to the capture.
    pub fn fill_from(&mut self, v: &Vec<u8>)
        requires
            old(self).wf(),
            old(self).filled + v@.len() <= 16,
        ensures
            final(self).wf(),
            final(self).filled == old(self).filled + v@.len(),
            final(self).bytes() == old(self).bytes() + v@,
    {
        self.buf.extend_from_slice(v.as_slice());
        self.filled = self.filled + v.len();
    }
}

/// The state of the entry reader.
///
/// The state goes from `ReadData` to `ReadDescriptor` to `PrepareNext` and
/// back to `ReadData` at most once per reader. The capture travels as a
/// plain value: every update must be written back into the persisted state
/// before a suspension is reported, or a resumed read would restart from
/// byte zero.
pub enum State {
    ReadData,
    ReadDescriptor(DescriptorCapture),
    PrepareNext(DescriptorCapture),
}

/// What one state-machine advance reports.
#[derive(PartialEq, Eq, Structural, Debug)]
pub enum StatePoll {
    Done,
    Suspend,
    Fail,
}

/// A ZIP file entry reader which may implement decompression.
pub struct ZipEntryReader {
    pub entry: ZipEntry,
    pub meta: ZipEntryMeta,
    pub reader: CompressionReader,
    pub hasher: crc::Hasher,
    pub consumed: bool,
    pub state: State,
    pub data_descriptor: Option<DataDescriptor>,
}

/// Relies on `String::from_utf8`: it succeeds exactly on the inputs that are
/// valid UTF-8, and the returned string spells those very bytes.
#[verifier::external_body]
fn bytes_to_string(bytes: Vec<u8>) -> (r: Option<String>)
    ensures
        r is Some <==> vstd::utf8::valid_utf8(bytes@),
        r matches Some(s) ==> vstd::utf8::encode_utf8(s@) == bytes@,
{
    match String::from_utf8(bytes) {
        Ok(s) => Some(s),
        Err(_) => None,
    }
}

/// Concatenation of three byte sequences only depends on the first part and
/// on the concatenation of the last two.
proof fn lemma_concat_parts(p1: Seq<u8>, h1: Seq<u8>, s1: Seq<u8>, p2: Seq<u8>, h2: Seq<u8>, s2: Seq<u8>)
    requires
        p1 == p2,
        h1 + s1 == h2 + s2,
    ensures
        p1 + h1 + s1 == p2 + h2 + s2,
{
    assert(p1 + h1 + s1 =~= p1 + (h1 + s1));
    assert(p2 + h2 + s2 =~= p2 + (h2 + s2));
}

impl ZipEntryReader {
    /// Whether the entry announces a trailing record.
    pub open spec fn flag(&self) -> bool {
        self.meta.general_purpose_flag.data_descriptor
    }

    /// Every byte this reader has handed to its caller so far.
    pub open spec fn produced(&self) -> Seq<u8> {
        self.hasher@
    }

    /// Every raw byte still ahead of the underlying source.
    pub open spec fn stream(&self) -> Seq<u8> {
        self.reader.raw_remaining()
    }

    /// Raw bytes the reader holds aside: a partially captured record, or the
    /// 16 wire bytes of a resolved one.
    pub open spec fn held(&self) -> Seq<u8> {
        match self.state {
            State::ReadData => match self.data_descriptor {
                Some(d) => descriptor_bytes(d),
                None => Seq::<u8>::empty(),
            },
            State::ReadDescriptor(c) => c.bytes(),
            State::PrepareNext(c) => c.bytes(),
        }
    }

    /// Every byte the reader was given, wherever it now lives. Every
    /// operation preserves this sequence: no byte is duplicated or dropped.
    pub open spec fn account(&self) -> Seq<u8> {
        self.produced() + self.held() + self.stream()
    }

    pub open spec fn fail_free(&self) -> bool {
        self.reader.fail_free()
    }

    /// A termination measure; see [`ByteSource::fuel`].
    pub open spec fn fuel(&self) -> int {
        self.reader.fuel()
    }

    /// How much state-machine work may still run: zero once end-of-data has
    /// been observed and the record cycle has finished.
    pub open spec fn work_rank(&self) -> int {
        if self.consumed && self.state is ReadData {
            0
        } else {
            1
        }
    }

    pub open spec fn wf(&self) -> bool {
        &&& self.reader.wf()
        &&& match self.state {
            State::ReadData => true,
            State::ReadDescriptor(c) => {
                &&& c.wf()
                &&& self.consumed
                &&& self.data_descriptor is None
                &&& self.flag()
                &&& (c.filled > 0 ==> self.reader.limit_spec() == 0)
            },
            State::PrepareNext(c) => {
                &&& c.wf()
                &&& self.consumed
                &&& self.data_descriptor is None
                &&& (self.flag() || c.filled == 0)
                &&& (c.filled > 0 ==> self.reader.limit_spec() == 0)
            },
        }
        &&& (self.data_descriptor is Some ==> self.flag() && self.consumed)
        &&& (self.consumed ==> self.reader.limit_spec() == 0 || self.stream().len() == 0)
    }

    /// The checksum the produced bytes are held against: the resolved
    /// record's when the entry announces one, the declared one otherwise.
    pub open spec fn expected_crc(&self) -> u32 {
        if self.flag() {
            self.data_descriptor.unwrap().crc
        } else {
            self.entry.crc32
        }
    }

    /// What a record capture resolves to once `prior` captured bytes are
    /// extended with the raw bytes ahead.
    pub open spec fn resolution_of(prior: Seq<u8>, ahead: Seq<u8>) -> Option<DataDescriptor> {
        let t = prior + ahead;
        if t.len() >= 16 {
            resolve(t.take(16))
        } else {
            None
        }
    }

    /// The record this reader will end up with once fully drained,
    /// independent of how delivery is fragmented.
    pub open spec fn final_resolution(&self) -> Option<DataDescriptor> {
        if self.data_descriptor is Some {
            self.data_descriptor
        } else if !self.flag() {
            None
        } else {
            match self.state {
                State::ReadData => {
                    if self.consumed {
                        None
                    } else {
                        Self::resolution_of(
                            Seq::<u8>::empty(),
                            self.stream().skip(self.reader.out_remaining().len() as int),
                        )
                    }
                },
                State::ReadDescriptor(c) => Self::resolution_of(c.bytes(), self.stream()),
                State::PrepareNext(c) => Self::resolution_of(c.bytes(), Seq::<u8>::empty()),
            }
        }
    }

    /// The decompressed bytes this reader has yet to produce.
    pub open spec fn remaining_output(&self) -> Seq<u8> {
        if self.state is ReadData {
            self.reader.out_remaining()
        } else {
            Seq::<u8>::empty()
        }
    }

    /// The checksum a full drain will be held against.
    pub open spec fn final_expected_crc(&self) -> u32 {
        if self.flag() {
            self.final_resolution().unwrap().crc
        } else {
            self.entry.crc32
        }
    }

    /// Construct an entry reader from its raw parts.
    pub fn from_raw(entry: ZipEntry, meta: ZipEntryMeta, reader: CompressionReader) -> (r:
        ZipEntryReader)
        requires
            reader.wf(),
        ensures
            r.wf(),
            r.entry == entry,
            r.meta == meta,
            r.reader == reader,
            r.produced() == Seq::<u8>::empty(),
            !r.consumed,
            r.state is ReadData,
            r.data_descriptor is None,
    {
        ZipEntryReader {
            entry,
            meta,
            reader,
            hasher: crc::Hasher::new(),
            consumed: false,
            state: State::ReadData,
            data_descriptor: None,
        }
    }

    /// Returns a reference to the inner entry's data.
    pub fn entry(&self) -> (r: &ZipEntry)
        ensures
            r == self.entry,
    {
        &self.entry
    }

    /// Returns whether or not this reader has been fully consumed.
    pub fn consumed(&self) -> (r: bool)
        ensures
            r == self.consumed,
    {
        self.consumed
    }

    /// Returns true if the computed CRC-32 of all bytes read so far matches
    /// the expected value. Finalizing is destructive: the accumulator is
    /// empty afterwards, so the check runs once.
    pub fn compare_crc(&mut self) -> (r: bool)
        requires
            old(self).wf(),
            old(self).flag() ==> old(self).data_descriptor is Some,
        ensures
            final(self).wf(),
            r == (crc32_of(old(self).produced()) == old(self).expected_crc()),
            final(self).produced() == Seq::<u8>::empty(),
            final(self).entry == old(self).entry,
            final(self).meta == old(self).meta,
            final(self).reader == old(self).reader,
            final(self).consumed == old(self).consumed,
            final(self).state == old(self).state,
            final(self).data_descriptor == old(self).data_descriptor,
    {
        let mut hasher = crc::Hasher::new();
        core::mem::swap(&mut hasher, &mut self.hasher);
        let final_crc = hasher.finalize();
        if self.meta.general_purpose_flag.data_descriptor {
            match &self.data_descriptor {
                Some(d) => d.crc == final_crc,
                None => false,
            }
        } else {
            self.entry.crc32 == final_crc
        }
    }

    /// Advance the state machine: read the missing record bytes, then
    /// resolve the capture, reconcile the buffering layer's over-read and
    /// issue the single give-back. Resumable at any point; a no-op in
    /// `ReadData`.
    /// Read missing record bytes into the capture, from the buffered source
    /// directly (the decoder's own framing has already finished). Stops at a
    /// full capture, at end-of-data, or when the source suspends or fails.
    #[verifier::loop_isolation(false)]
    fn read_descriptor_bytes(&mut self, cap: &mut DescriptorCapture) -> (r: StatePoll)
        requires
            old(self).reader.wf(),
            old(cap).wf(),
            old(self).reader.limit_spec() == 0 || old(self).reader.raw_remaining().len() == 0,
            old(cap).filled > 0 ==> old(self).reader.limit_spec() == 0,
        ensures
            final(self).reader.wf(),
            final(cap).wf(),
            final(self).entry == old(self).entry,
            final(self).meta == old(self).meta,
            final(self).hasher == old(self).hasher,
            final(self).consumed == old(self).consumed,
            final(self).state == old(self).state,
            final(self).data_descriptor == old(self).data_descriptor,
            final(self).reader.limit_spec() == old(self).reader.limit_spec(),
            final(self).reader.limit_spec() == 0 || final(self).reader.raw_remaining().len() == 0,
            final(cap).filled > 0 ==> final(self).reader.limit_spec() == 0,
            old(self).reader.fail_free() ==> final(self).reader.fail_free() && r
                != StatePoll::Fail,
            final(cap).bytes() + final(self).reader.raw_remaining() == old(cap).bytes() + old(
                self,
            ).reader.raw_remaining(),
            final(self).reader.fuel() <= old(self).reader.fuel(),
            match r {
                StatePoll::Done => {
                    ||| final(cap).filled == 16
                    ||| final(self).reader.raw_remaining().len() == 0
                },
                StatePoll::Suspend => final(self).reader.fuel() < old(self).reader.fuel(),
                StatePoll::Fail => final(self).reader.fuel() < old(self).reader.fuel(),
            },
    {
        let ghost entry_cap = *old(cap);
        let ghost entry_reader = old(self).reader;
        loop
            invariant
                self.reader.wf(),
                cap.wf(),
                self.entry == old(self).entry,
                self.meta == old(self).meta,
                self.hasher == old(self).hasher,
                self.consumed == old(self).consumed,
                self.state == old(self).state,
                self.data_descriptor == old(self).data_descriptor,
                self.reader.limit_spec() == entry_reader.limit_spec(),
                entry_cap.wf(),
                entry_cap.filled <= cap.filled,
                cap.filled - entry_cap.filled <= entry_reader.raw_remaining().len(),
                cap.bytes() == entry_cap.bytes() + entry_reader.raw_remaining().take(
                    cap.filled - entry_cap.filled,
                ),
                self.reader.raw_remaining() == entry_reader.raw_remaining().skip(
                    cap.filled - entry_cap.filled,
                ),
                self.reader.fuel() <= entry_reader.fuel(),
                entry_reader.fail_free() ==> self.reader.fail_free(),
                entry_reader.limit_spec() == 0 || entry_reader.raw_remaining().len() == 0,
                entry_cap.filled > 0 ==> entry_reader.limit_spec() == 0,
            decreases 16 - cap.filled,
        {
            if cap.filled >= 16 {
                break;
            }
            let want = 16 - cap.filled;
            match self.reader.bypass_read(want) {
                ReadOutcome::Bytes(v) => {
                    if v.len() == 0 {
                        break;
                    }
                    cap.fill_from(&v);
                    proof {
                        assert(cap.bytes() =~= entry_cap.bytes()
                            + entry_reader.raw_remaining().take(cap.filled - entry_cap.filled));
                    }
                },
                ReadOutcome::Suspend => {
                    proof {
                        assert(cap.bytes() + self.reader.raw_remaining() =~= entry_cap.bytes()
                            + entry_reader.raw_remaining());
                    }
                    return StatePoll::Suspend;
                },
                ReadOutcome::Fail => {
                    proof {
                        assert(cap.bytes() + self.reader.raw_remaining() =~= entry_cap.bytes()
                            + entry_reader.raw_remaining());
                    }
                    return StatePoll::Fail;
                },
            }
        }
        proof {
            assert(cap.bytes() + self.reader.raw_remaining() =~= entry_cap.bytes()
                + entry_reader.raw_remaining());
        }
        StatePoll::Done
    }

    #[verifier::rlimit(100)]
    fn poll_data_descriptor(&mut self) -> (r: StatePoll)
        requires
            old(self).wf(),
        ensures
            final(self).wf(),
            final(self).entry == old(self).entry,
            final(self).meta == old(self).meta,
            final(self).produced() == old(self).produced(),
            final(self).consumed == old(self).consumed,
            final(self).account() == old(self).account(),
            final(self).reader.limit_spec() == old(self).reader.limit_spec(),
            old(self).fail_free() ==> final(self).fail_free() && r != StatePoll::Fail,
            old(self).state is ReadData ==> *final(self) == *old(self) && r == StatePoll::Done,
            match r {
                StatePoll::Done => {
                    &&& final(self).state is ReadData
                    &&& (!(old(self).state is ReadData) ==> {
                        &&& final(self).data_descriptor == old(self).final_resolution()
                        &&& (final(self).data_descriptor is Some ==> final(self).stream() == (old(
                            self,
                        ).held() + old(self).stream()).skip(16))
                        &&& (final(self).data_descriptor is None ==> final(self).stream() == old(
                            self,
                        ).held() + old(self).stream())
                    })
                },
                StatePoll::Suspend => {
                    &&& final(self).state is ReadDescriptor
                    &&& final(self).data_descriptor == old(self).data_descriptor
                    &&& final(self).final_resolution() == old(self).final_resolution()
                    &&& final(self).fuel() < old(self).fuel()
                },
                StatePoll::Fail => {
                    &&& final(self).data_descriptor == old(self).data_descriptor
                    &&& final(self).final_resolution() == old(self).final_resolution()
                    &&& final(self).fuel() < old(self).fuel()
                },
            },
    {
        let mut st = State::ReadData;
        core::mem::swap(&mut st, &mut self.state);
        match st {
            State::ReadData => StatePoll::Done,
            State::ReadDescriptor(mut cap) => {
                let ghost entry_cap = cap;
                proof {
                    assert(old(self).state == State::ReadDescriptor(entry_cap));
                    assert(old(self).held() == entry_cap.bytes());
                }
                match self.read_descriptor_bytes(&mut cap) {
                    StatePoll::Done => {
                        let ghost pre = *self;
                        let ghost pre_cap = cap;
                        self.prepare_next(cap);
                        proof {
                            let t = old(self).held() + old(self).stream();
                            let t2 = pre_cap.bytes() + Seq::<u8>::empty();
                            assert(t2 =~= pre_cap.bytes());
                            assert(pre_cap.bytes() + pre.stream() == t);
                            if self.data_descriptor is Some {
                                assert(pre_cap.filled == 16);
                                assert(pre_cap.bytes().len() == 16);
                                assert(pre_cap.bytes() =~= t.take(16));
                                assert(t2.take(16) == t.take(16));
                                assert(self.data_descriptor == Self::resolution_of(
                                    old(self).held(),
                                    old(self).stream(),
                                ));
                                assert(pre.stream() =~= t.skip(16));
                            } else {
                                if t.len() >= 16 {
                                    assert(pre_cap.filled == 16 || pre.stream().len() == 0);
                                    assert(pre_cap.filled == 16) by {
                                        if pre.stream().len() == 0 && pre_cap.filled < 16 {
                                            assert(t =~= pre_cap.bytes());
                                        }
                                    }
                                    assert(pre_cap.bytes() =~= t.take(16));
                                    assert(t2.take(16) == t.take(16));
                                }
                                assert(self.data_descriptor == Self::resolution_of(
                                    old(self).held(),
                                    old(self).stream(),
                                ));
                                assert(self.stream() =~= t);
                            }
                            lemma_concat_parts(
                                pre.produced(),
                                pre_cap.bytes(),
                                pre.stream(),
                                old(self).produced(),
                                old(self).held(),
                                old(self).stream(),
                            );
                            assert(self.account() == old(self).account());
                        }
                        StatePoll::Done
                    },
                    StatePoll::Suspend => {
                        self.state = State::ReadDescriptor(cap);
                        proof {
                            assert(self.held() == cap.bytes());
                            lemma_concat_parts(
                                self.produced(),
                                self.held(),
                                self.stream(),
                                old(self).produced(),
                                old(self).held(),
                                old(self).stream(),
                            );
                            assert(self.account() == old(self).account());
                        }
                        StatePoll::Suspend
                    },
                    StatePoll::Fail => {
                        self.state = State::ReadDescriptor(cap);
                        proof {
                            assert(self.held() == cap.bytes());
                            lemma_concat_parts(
                                self.produced(),
                                self.held(),
                                self.stream(),
                                old(self).produced(),
                                old(self).held(),
                                old(self).stream(),
                            );
                            assert(self.account() == old(self).account());
                        }
                        StatePoll::Fail
                    },
                }
            },
            State::PrepareNext(cap) => {
                let ghost entry_cap = cap;
                proof {
                    assert(old(self).state == State::PrepareNext(entry_cap));
                    assert(old(self).held() == entry_cap.bytes());
                }
                let ghost pre = *self;
                self.prepare_next(cap);
                proof {
                    let t = old(self).held() + old(self).stream();
                    let t2 = entry_cap.bytes() + Seq::<u8>::empty();
                    assert(t2 =~= entry_cap.bytes());
                    if !old(self).flag() {
                        assert(entry_cap.bytes().len() == 0);
                        assert(self.data_descriptor is None);
                    }
                    if self.data_descriptor is Some {
                        assert(entry_cap.bytes().len() == 16);
                        assert(t.skip(16) =~= old(self).stream());
                        assert(self.stream() == old(self).stream());
                    } else {
                        assert(self.stream() == entry_cap.bytes() + old(self).stream());
                    }
                    lemma_concat_parts(
                        pre.produced(),
                        entry_cap.bytes(),
                        pre.stream(),
                        old(self).produced(),
                        old(self).held(),
                        old(self).stream(),
                    );
                    assert(self.account() == old(self).account());
                }
                StatePoll::Done
            },
        }
    }

    /// The standard incremental read: produce up to `max` more decompressed
    /// bytes, feeding every produced byte to the checksum accumulator. An
    /// empty chunk means true end-of-data; the first such observation runs
    /// the trailing-record state machine, which may itself suspend and is
    /// resumed by later calls.
    #[verifier::rlimit(100)]
    pub fn poll_read(&mut self, max: usize) -> (r: ReadOutcome)
        requires
            old(self).wf(),
            max >= 1,
        ensures
            final(self).wf(),
            final(self).entry == old(self).entry,
            final(self).meta == old(self).meta,
            final(self).account() == old(self).account(),
            old(self).fail_free() ==> final(self).fail_free() && !(r is Fail),
            match r {
                ReadOutcome::Bytes(v) => {
                    &&& (v@.len() > 0 ==> {
                        &&& old(self).state is ReadData
                        &&& !old(self).consumed
                        &&& v@.len() <= max
                        &&& v@.len() <= old(self).remaining_output().len()
                        &&& v@ == old(self).remaining_output().take(v@.len() as int)
                        &&& final(self).produced() == old(self).produced() + v@
                        &&& final(self).state is ReadData
                        &&& !final(self).consumed
                        &&& final(self).data_descriptor == old(self).data_descriptor
                        &&& final(self).stream() == old(self).stream().skip(v@.len() as int)
                        &&& final(self).remaining_output() == old(self).remaining_output().skip(
                            v@.len() as int,
                        )
                        &&& final(self).final_resolution() == old(self).final_resolution()
                        &&& final(self).fuel() <= old(self).fuel() - v@.len()
                    })
                    &&& (v@.len() == 0 ==> {
                        &&& final(self).consumed
                        &&& final(self).state is ReadData
                        &&& final(self).produced() == old(self).produced()
                        &&& final(self).remaining_output().len() == 0
                        &&& (old(self).state is ReadData ==> old(self).remaining_output().len()
                            == 0)
                        &&& (old(self).consumed && old(self).state is ReadData ==> {
                            &&& final(self).stream() == old(self).stream()
                            &&& final(self).data_descriptor == old(self).data_descriptor
                        })
                        &&& (!(old(self).consumed && old(self).state is ReadData) ==> {
                            &&& final(self).data_descriptor == old(self).final_resolution()
                            &&& (final(self).data_descriptor is Some && old(
                                self,
                            ).data_descriptor is None ==> final(self).stream() == (old(self).held()
                                + old(self).stream()).skip(16))
                            &&& (final(self).data_descriptor is None ==> final(self).stream()
                                == old(self).held() + old(self).stream())
                        })
                    })
                },
                ReadOutcome::Suspend => {
                    &&& final(self).produced() == old(self).produced()
                    &&& final(self).data_descriptor == old(self).data_descriptor
                    &&& final(self).final_resolution() == old(self).final_resolution()
                    &&& final(self).remaining_output() == old(self).remaining_output()
                    &&& final(self).work_rank() <= old(self).work_rank()
                    &&& final(self).fuel() < old(self).fuel()
                },
                ReadOutcome::Fail => {
                    &&& final(self).produced() == old(self).produced()
                    &&& final(self).data_descriptor == old(self).data_descriptor
                    &&& final(self).fuel() < old(self).fuel()
                },
            },
    {
        match &self.state {
            State::ReadData => {},
            _ => {
                // a previous call suspended mid-state-machine-work: resume it
                // directly, bypassing the pipeline
                let r = self.poll_data_descriptor();
                return match r {
                    StatePoll::Done => {
                        proof {
                            assert(self.remaining_output().len() == 0);
                        }
                        ReadOutcome::Bytes(Vec::new())
                    },
                    StatePoll::Suspend => ReadOutcome::Suspend,
                    StatePoll::Fail => ReadOutcome::Fail,
                };
            },
        }
        let ghost pre = *self;
        match self.reader.read(max) {
            ReadOutcome::Suspend => ReadOutcome::Suspend,
            ReadOutcome::Fail => ReadOutcome::Fail,
            ReadOutcome::Bytes(v) => {
                if v.len() == 0 {
                    let was_consumed = self.consumed;
                    self.consumed = true;
                    if !was_consumed {
                        if self.data_descriptor.is_none()
                            && self.meta.general_purpose_flag.data_descriptor {
                            self.state = State::ReadDescriptor(DescriptorCapture::new());
                        } else {
                            self.state = State::PrepareNext(DescriptorCapture::new());
                        }
                        let ghost mid = *self;
                        proof {
                            assert(mid.held() =~= Seq::<u8>::empty());
                            assert(old(self).held() =~= Seq::<u8>::empty());
                            assert(mid.account() =~= old(self).account());
                            assert(old(self).stream().skip(0) =~= old(self).stream());
                        }
                        let r2 = self.poll_data_descriptor();
                        match r2 {
                            StatePoll::Done => {
                                proof {
                                    assert(self.remaining_output().len() == 0);
                                    assert(self.data_descriptor == mid.final_resolution());
                                    assert(self.data_descriptor == old(self).final_resolution());
                                    if self.data_descriptor is Some {
                                        assert((mid.held() + mid.stream()).skip(16) =~= (old(
                                            self,
                                        ).held() + old(self).stream()).skip(16));
                                    } else {
                                        assert(mid.held() + mid.stream() =~= old(self).held()
                                            + old(self).stream());
                                    }
                                }
                                ReadOutcome::Bytes(v)
                            },
                            StatePoll::Suspend => ReadOutcome::Suspend,
                            StatePoll::Fail => ReadOutcome::Fail,
                        }
                    } else {
                        ReadOutcome::Bytes(v)
                    }
                } else {
                    self.hasher.update(&v);
                    proof {
                        assert(v@ =~= old(self).stream().take(v@.len() as int));
                        assert(v@ =~= old(self).remaining_output().take(v@.len() as int));
                        assert(self.remaining_output() =~= old(self).remaining_output().skip(
                            v@.len() as int,
                        ));
                        assert(self.account() =~= old(self).account());
                        if self.flag() && self.data_descriptor is None {
                            assert(self.stream().skip(self.reader.out_remaining().len() as int)
                                =~= old(self).stream().skip(
                                old(self).reader.out_remaining().len() as int,
                            ));
                        }
                    }
                    ReadOutcome::Bytes(v)
                }
            },
        }
    }

    /// Drain the reader: append every remaining decompressed byte to `dest`,
    /// retrying across suspensions, until true end-of-data (state-machine
    /// work included) or an upstream failure.
    #[verifier::rlimit(100)]
    #[verifier::loop_isolation(false)]
    fn read_remaining(&mut self, dest: &mut Vec<u8>, chunk: usize) -> (r: Result<(), ZipError>)
        requires
            old(self).wf(),
            chunk >= 1,
        ensures
            final(self).wf(),
            final(self).entry == old(self).entry,
            final(self).meta == old(self).meta,
            match r {
                Ok(u) => {
                    &&& final(dest)@ == old(dest)@ + old(self).remaining_output()
                    &&& final(self).produced() == old(self).produced() + old(
                        self,
                    ).remaining_output()
                    &&& final(self).consumed
                    &&& final(self).state is ReadData
                    &&& final(self).data_descriptor == old(self).final_resolution()
                },
                Err(e) => {
                    &&& e == ZipError::UpstreamReadError
                    &&& !old(self).fail_free()
                    &&& final(self).produced() == old(self).produced() + final(dest)@.skip(
                        old(dest)@.len() as int,
                    )
                    &&& exists|n: int|
                        0 <= n <= old(self).remaining_output().len() && final(dest)@ == old(
                            dest,
                        )@ + old(self).remaining_output().take(n)
                },
            },
            old(self).fail_free() ==> r is Ok,
    {
        let ghost mut appended: Seq<u8> = Seq::<u8>::empty();
        loop
            invariant
                self.wf(),
                chunk >= 1,
                self.entry == old(self).entry,
                self.meta == old(self).meta,
                dest@ == old(dest)@ + appended,
                appended + self.remaining_output() == old(self).remaining_output(),
                appended.len() <= old(self).remaining_output().len(),
                self.produced() == old(self).produced() + appended,
                self.final_resolution() == old(self).final_resolution(),
                old(self).fail_free() ==> self.fail_free(),
            decreases self.work_rank(), self.fuel(),
        {
            let ghost pre = *self;
            match self.poll_read(chunk) {
                ReadOutcome::Bytes(v) => {
                    if v.len() == 0 {
                        proof {
                            assert(appended =~= old(self).remaining_output());
                            assert(dest@ =~= old(dest)@ + old(self).remaining_output());
                            if pre.consumed && pre.state is ReadData {
                                assert(self.data_descriptor == self.final_resolution());
                            }
                            assert(self.data_descriptor == old(self).final_resolution());
                        }
                        return Ok(());
                    }
                    dest.extend_from_slice(v.as_slice());
                    proof {
                        appended = appended + v@;
                        assert(dest@ =~= old(dest)@ + appended);
                        assert(appended + self.remaining_output() =~= old(
                            self,
                        ).remaining_output());
                        assert(self.produced() =~= old(self).produced() + appended);
                    }
                },
                ReadOutcome::Suspend => {
                },
                ReadOutcome::Fail => {
                    proof {
                        assert(appended =~= old(self).remaining_output().take(
                            appended.len() as int,
                        ));
                        assert(dest@.skip(old(dest)@.len() as int) =~= appended);
                    }
                    return Err(ZipError::UpstreamReadError);
                },
            }
        }
    }

    /// A convenience method that reads all remaining bytes with the final
    /// CRC-32 check integrated. Returns the bytes on success and the
    /// integrity error on a mismatch, never partial data.
    pub fn read_to_end_crc(self) -> (r: Result<Vec<u8>, ZipError>)
        requires
            self.wf(),
            self.flag() ==> self.final_resolution() is Some,
        ensures
            match r {
                Ok(v) => {
                    &&& v@ == self.remaining_output()
                    &&& crc32_of(self.produced() + self.remaining_output())
                        == self.final_expected_crc()
                },
                Err(e) => {
                    &&& (e == ZipError::CRC32CheckError ==> crc32_of(
                        self.produced() + self.remaining_output(),
                    ) != self.final_expected_crc())
                    &&& (e == ZipError::UpstreamReadError ==> !self.fail_free())
                    &&& (e == ZipError::CRC32CheckError || e == ZipError::UpstreamReadError)
                },
            },
            self.fail_free() ==> !(r == Err::<Vec<u8>, ZipError>(ZipError::UpstreamReadError)),
    {
        let mut this = self;
        let mut buffer: Vec<u8> = Vec::new();
        match this.read_remaining(&mut buffer, 8192) {
            Ok(u) => {},
            Err(e) => {
                return Err(e);
            },
        }
        if this.compare_crc() {
            Ok(buffer)
        } else {
            Err(ZipError::CRC32CheckError)
        }
    }

    /// A convenience method that reads all remaining bytes as text with the
    /// final CRC-32 check integrated. Invalid UTF-8 is reported before the
    /// checksum is even considered.
    pub fn read_to_string_crc(self) -> (r: Result<String, ZipError>)
        requires
            self.wf(),
            self.flag() ==> self.final_resolution() is Some,
        ensures
            match r {
                Ok(s) => {
                    &&& vstd::utf8::valid_utf8(self.remaining_output())
                    &&& vstd::utf8::encode_utf8(s@) == self.remaining_output()
                    &&& crc32_of(self.produced() + self.remaining_output())
                        == self.final_expected_crc()
                },
                Err(e) => {
                    &&& (e == ZipError::StringNotUtf8 ==> !vstd::utf8::valid_utf8(
                        self.remaining_output(),
                    ))
                    &&& (e == ZipError::CRC32CheckError ==> crc32_of(
                        self.produced() + self.remaining_output(),
                    ) != self.final_expected_crc())
                    &&& (e == ZipError::UpstreamReadError ==> !self.fail_free())
                    &&& (e == ZipError::StringNotUtf8 || e == ZipError::CRC32CheckError || e
                        == ZipError::UpstreamReadError)
                },
            },
            self.fail_free() ==> !(r == Err::<String, ZipError>(ZipError::UpstreamReadError)),
    {
        let mut this = self;
        let mut buffer: Vec<u8> = Vec::new();
        match this.read_remaining(&mut buffer, 8192) {
            Ok(u) => {},
            Err(e) => {
                return Err(e);
            },
        }
        let text = match bytes_to_string(buffer) {
            Some(s) => s,
            None => {
                return Err(ZipError::StringNotUtf8);
            },
        };
        if this.compare_crc() {
            Ok(text)
        } else {
            Err(ZipError::CRC32CheckError)
        }
    }

    /// A convenience method that streams all remaining bytes to a
    /// destination sink with the final CRC-32 check integrated, pulling at
    /// most `buffer` bytes per read call. Bytes already written to the sink
    /// are not retracted on a checksum failure: the caller must handle that
    /// side effect.
    pub fn copy_to_end_crc(self, writer: &mut Vec<u8>, buffer: usize) -> (r: Result<
        (),
        ZipError,
    >)
        requires
            self.wf(),
            self.flag() ==> self.final_resolution() is Some,
            buffer >= 1,
        ensures
            match r {
                Ok(u) => {
                    &&& final(writer)@ == old(writer)@ + self.remaining_output()
                    &&& crc32_of(self.produced() + self.remaining_output())
                        == self.final_expected_crc()
                },
                Err(e) => {
                    &&& (e == ZipError::CRC32CheckError ==> final(writer)@ == old(writer)@
                        + self.remaining_output() && crc32_of(
                        self.produced() + self.remaining_output(),
                    ) != self.final_expected_crc())
                    &&& (e == ZipError::UpstreamReadError ==> !self.fail_free() && exists|n: int|
                        0 <= n <= self.remaining_output().len() && final(writer)@ == old(writer)@
                            + self.remaining_output().take(n))
                    &&& (e == ZipError::CRC32CheckError || e == ZipError::UpstreamReadError)
                },
            },
            self.fail_free() ==> !(r == Err::<(), ZipError>(ZipError::UpstreamReadError)),
    {
        let mut this = self;
        match this.read_remaining(writer, buffer) {
            Ok(u) => {},
            Err(e) => {
                return Err(e);
            },
        }
        if this.compare_crc() {
            Ok(())
        } else {
            Err(ZipError::CRC32CheckError)
        }
    }

    /// Hand the underlying source back, with every buffered byte queued in
    /// front so nothing is lost: the next consumer starts where this entry's
    /// bytes truly end.
    pub fn into_source(self) -> (s: ByteSource)
        requires
            self.wf(),
        ensures
            s.wf(),
            s.remaining() == self.stream(),
    {
        let mut this = self;
        let ghost pre = this;
        let over = this.reader.take_buffer();
        this.reader.give_back(&over);
        proof {
            assert(this.reader.inner_spec().src.remaining() =~= pre.stream());
        }
        match this.reader {
            CompressionReader::Stored { limit, inner } => inner.src,
        }
    }

    /// Resolve a finished capture, reconcile the over-read and give every
    /// byte that is not this entry's back to the source, in original order,
    /// with exactly one give-back call.
    fn prepare_next(&mut self, cap: DescriptorCapture)
        requires
            old(self).wf(),
            old(self).state is ReadData,
            old(self).data_descriptor is None,
            old(self).consumed,
            cap.wf(),
            old(self).flag() || cap.filled == 0,
            cap.filled > 0 ==> old(self).reader.limit_spec() == 0,
        ensures
            final(self).wf(),
            final(self).entry == old(self).entry,
            final(self).meta == old(self).meta,
            final(self).produced() == old(self).produced(),
            final(self).consumed == old(self).consumed,
            final(self).state is ReadData,
            final(self).reader.limit_spec() == old(self).reader.limit_spec(),
            final(self).fail_free() == old(self).fail_free(),
            final(self).data_descriptor == Self::resolution_of(cap.bytes(), Seq::<u8>::empty()),
            final(self).data_descriptor is Some ==> final(self).stream() == old(self).stream()
                && cap.filled == 16,
            final(self).data_descriptor is None ==> final(self).stream() == cap.bytes() + old(
                self,
            ).stream(),
            final(self).produced() + final(self).held() + final(self).stream() == old(
                self,
            ).produced() + cap.bytes() + old(self).stream(),
    {
        let descriptor = descriptor::parse_descriptor(&cap.buf);
        let mut buffer: Vec<u8> = Vec::new();
        if descriptor.is_none() {
            // everything captured is unconsumed data and must go back
            buffer.extend_from_slice(cap.buf.as_slice());
        }
        // the buffering layer's over-read goes back in every case
        let over_read = self.reader.take_buffer();
        buffer.extend_from_slice(over_read.as_slice());
        self.reader.give_back(&buffer);
        if descriptor.is_some() {
            self.data_descriptor = descriptor;
        }
        self.state = State::ReadData;
        proof {
            let t2 = cap.bytes() + Seq::<u8>::empty();
            assert(t2 =~= cap.bytes());
            if descriptor is Some {
                descriptor::lemma_resolved_bytes(cap.buf@);
                assert(t2.take(16) =~= cap.buf@);
                assert(self.stream() =~= old(self).stream());
                assert(self.held() == cap.bytes());
            } else {
                reveal(crate::descriptor::resolve);
                if t2.len() >= 16 {
                    assert(t2.take(16) =~= cap.buf@);
                }
                assert(self.stream() =~= cap.bytes() + old(self).stream());
            }
            assert(self.produced() + self.held() + self.stream() =~= old(self).produced()
                + cap.bytes() + old(self).stream());
        }
    }
}

} // verus!
