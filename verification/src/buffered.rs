//! Input buffering over a [`ByteSource`].
//!
//! A [`BufferedSource`] pre-fetches raw bytes in chunks and hands them out on
//! demand. The bytes it has pre-fetched but not yet handed out are exactly
//! the over-read that the give-back mechanism must reconcile when an entry
//! ends: [`BufferedSource::take_buffer`] extracts them, and
//! [`BufferedSource::prepend_to_source`] queues reconciled bytes back in
//! front of the underlying source.

use vstd::prelude::*;
use crate::source::{ByteSource, ReadOutcome};

verus! {

/// How many raw bytes one refill asks the underlying source for.
pub const BUFFER_CHUNK: usize = 8192;

/// A byte source with an internal pre-fetch buffer.
pub struct BufferedSource {
    pub src: ByteSource,
    pub buf: Vec<u8>,
    pub bpos: usize,
}

impl BufferedSource {
    /// The pre-fetched bytes not yet handed out.
    pub open spec fn buffered(&self) -> Seq<u8> {
        self.buf@.skip(self.bpos as int)
    }

    /// Every byte still ahead of a consumer, buffered or not.
    pub open spec fn remaining(&self) -> Seq<u8> {
        self.buffered() + self.src.remaining()
    }

    pub open spec fn wf(&self) -> bool {
        &&& self.bpos <= self.buf@.len()
        &&& self.src.wf()
    }

    pub open spec fn fail_free(&self) -> bool {
        self.src.fail_free()
    }

    /// A termination measure; see [`ByteSource::fuel`].
    pub open spec fn fuel(&self) -> int {
        self.src.fuel() + self.buffered().len()
    }

    pub fn new(src: ByteSource) -> (s: BufferedSource)
        requires
            src.wf(),
        ensures
            s.wf(),
            s.remaining() == src.remaining(),
            s.buffered() == Seq::<u8>::empty(),
            s.src == src,
    {
        let s = BufferedSource { src, buf: Vec::new(), bpos: 0 };
        proof {
            assert(s.buffered() =~= Seq::<u8>::empty());
            assert(s.remaining() =~= s.src.remaining());
        }
        s
    }

    /// Hand out up to `max` of the next bytes, refilling the buffer from the
    /// underlying source when it is empty. An empty chunk means true
    /// end-of-data.
    pub fn read(&mut self, max: usize) -> (r: ReadOutcome)
        requires
            old(self).wf(),
            max >= 1,
        ensures
            final(self).wf(),
            old(self).fail_free() ==> final(self).fail_free() && !(r is Fail),
            match r {
                ReadOutcome::Bytes(v) => {
                    &&& v@.len() <= max
                    &&& v@.len() <= old(self).remaining().len()
                    &&& v@ == old(self).remaining().take(v@.len() as int)
                    &&& final(self).remaining() == old(self).remaining().skip(v@.len() as int)
                    &&& (v@.len() == 0 <==> old(self).remaining().len() == 0)
                    &&& final(self).fuel() <= old(self).fuel() - v@.len()
                },
                ReadOutcome::Suspend => {
                    &&& final(self).remaining() == old(self).remaining()
                    &&& final(self).buffered() == old(self).buffered()
                    &&& final(self).fuel() < old(self).fuel()
                },
                ReadOutcome::Fail => {
                    &&& final(self).remaining() == old(self).remaining()
                    &&& final(self).buffered() == old(self).buffered()
                    &&& final(self).fuel() < old(self).fuel()
                },
            },
    {
        if self.bpos >= self.buf.len() {
            match self.src.read(BUFFER_CHUNK) {
                ReadOutcome::Bytes(v) => {
                    proof {
                        assert(old(self).buffered() =~= Seq::<u8>::empty());
                        assert(old(self).remaining() =~= old(self).src.remaining());
                    }
                    self.buf = v;
                    self.bpos = 0;
                    proof {
                        assert(self.buffered() =~= self.buf@);
                        assert(self.buf@ == old(self).src.remaining().take(self.buf@.len() as int));
                        assert(self.src.remaining() == old(self).src.remaining().skip(
                            self.buf@.len() as int,
                        ));
                        assert(self.remaining() =~= old(self).remaining());
                    }
                },
                ReadOutcome::Suspend => {
                    return ReadOutcome::Suspend;
                },
                ReadOutcome::Fail => {
                    return ReadOutcome::Fail;
                },
            }
        }
        let ghost mid = *self;
        proof {
            assert(mid.remaining() =~= old(self).remaining());
            assert(mid.fuel() <= old(self).fuel());
        }
        let avail = self.buf.len() - self.bpos;
        let n = if max < avail { max } else { avail };
        let mut out: Vec<u8> = Vec::new();
        let end = self.bpos + n;
        let mut j: usize = self.bpos;
        while j < end
            invariant
                mid.bpos <= j <= end,
                end <= self.buf@.len(),
                *self == mid,
                out@ =~= self.buf@.subrange(mid.bpos as int, j as int),
            decreases end - j,
        {
            out.push(self.buf[j]);
            j = j + 1;
        }
        self.bpos = end;
        proof {
            assert(out@ =~= mid.remaining().take(out@.len() as int));
            assert(self.remaining() =~= mid.remaining().skip(out@.len() as int));
        }
        ReadOutcome::Bytes(out)
    }

    /// Extract every pre-fetched byte not yet handed out, emptying the
    /// buffer. The underlying source is untouched.
    pub fn take_buffer(&mut self) -> (v: Vec<u8>)
        requires
            old(self).wf(),
        ensures
            final(self).wf(),
            v@ == old(self).buffered(),
            final(self).buffered() == Seq::<u8>::empty(),
            final(self).src == old(self).src,
            final(self).remaining() == old(self).src.remaining(),
            final(self).fuel() == old(self).fuel() - v@.len(),
    {
        let mut v: Vec<u8> = Vec::new();
        let end = self.buf.len();
        let mut j: usize = self.bpos;
        while j < end
            invariant
                self.bpos <= j <= end,
                end == self.buf@.len(),
                v@ =~= self.buf@.subrange(self.bpos as int, j as int),
            decreases end - j,
        {
            v.push(self.buf[j]);
            j = j + 1;
        }
        self.buf = Vec::new();
        self.bpos = 0;
        proof {
            assert(v@ =~= old(self).buffered());
            assert(self.buffered() =~= Seq::<u8>::empty());
            assert(self.remaining() =~= old(self).src.remaining());
        }
        v
    }

    /// Give bytes back to the underlying source, in front of everything it
    /// has not yet delivered. Bytes still in the pre-fetch buffer stay ahead
    /// of them; the caller empties the buffer first when reconciling.
    pub fn prepend_to_source(&mut self, bytes: &Vec<u8>)
        requires
            old(self).wf(),
        ensures
            final(self).wf(),
            final(self).buffered() == old(self).buffered(),
            final(self).src.remaining() == bytes@ + old(self).src.remaining(),
            final(self).remaining() == old(self).buffered() + bytes@ + old(self).src.remaining(),
            final(self).fuel() == old(self).fuel() + bytes@.len(),
            final(self).src.fail_free() == old(self).src.fail_free(),
    {
        self.src.prepend(bytes);
        proof {
            assert(self.remaining() =~= old(self).buffered() + bytes@ + old(self).src.remaining());
        }
    }
}

} // verus!
