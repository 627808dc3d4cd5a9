//! The underlying byte source an entry reader pulls from.
//!
//! A [`ByteSource`] owns a byte range and delivers it strictly in order, but
//! under a *schedule* that models how a real transport fragments delivery: a
//! read call may hand out an arbitrarily small chunk, may suspend ("cannot
//! make progress yet, try again later"), or may fail. The one capability
//! beyond ordinary reading is *give-back* ([`ByteSource::prepend`]): bytes
//! already pulled out can be queued in front again, so a later read observes
//! them at the correct sequential offset.

use vstd::prelude::*;

verus! {

/// What one scheduled read call does before any bytes move.
#[derive(Clone, Copy, PartialEq, Eq, Structural, Debug)]
pub enum ReadStep {
    /// Deliver at most this many bytes (at least one while any remain).
    Deliver(usize),
    /// Make no progress this call; the caller must try again.
    Suspend,
    /// Report an I/O failure; the source itself does not advance.
    Fail,
}

/// The result of one read call against a source or a reader.
#[derive(PartialEq, Eq, Debug)]
pub enum ReadOutcome {
    /// The delivered chunk; an empty chunk means true end-of-data.
    Bytes(Vec<u8>),
    /// No progress could be made this call; try again later.
    Suspend,
    /// The underlying source failed.
    Fail,
}

/// An in-order byte source with a delivery schedule and give-back support.
pub struct ByteSource {
    pub data: Vec<u8>,
    pub pos: usize,
    pub schedule: Vec<ReadStep>,
    pub step: usize,
}

impl ByteSource {
    /// The bytes a reader has not yet pulled out, in delivery order.
    pub open spec fn remaining(&self) -> Seq<u8> {
        self.data@.skip(self.pos as int)
    }

    pub open spec fn wf(&self) -> bool {
        &&& self.pos <= self.data@.len()
        &&& self.step <= self.schedule@.len()
    }

    /// No `Fail` step is still ahead in the schedule.
    pub open spec fn fail_free(&self) -> bool {
        forall|i: int| self.step <= i < self.schedule@.len() ==> !(self.schedule@[i] is Fail)
    }

    /// A termination measure: every read call that suspends or moves bytes
    /// strictly shrinks it.
    pub open spec fn fuel(&self) -> int {
        (self.schedule@.len() - self.step) + self.remaining().len()
    }

    pub fn new(data: Vec<u8>, schedule: Vec<ReadStep>) -> (s: ByteSource)
        ensures
            s.wf(),
            s.remaining() == data@,
            s.schedule == schedule,
            s.step == 0,
    {
        let s = ByteSource { data, pos: 0, schedule, step: 0 };
        proof {
            assert(s.remaining() =~= s.data@);
        }
        s
    }

    /// Pull the next chunk. Delivers at most `max` bytes; an empty chunk
    /// means the source is exhausted, and is reported only then.
    pub fn read(&mut self, max: usize) -> (r: ReadOutcome)
        requires
            old(self).wf(),
            max >= 1,
        ensures
            final(self).wf(),
            final(self).schedule == old(self).schedule,
            final(self).data == old(self).data,
            old(self).fail_free() ==> final(self).fail_free() && !(r is Fail),
            match r {
                ReadOutcome::Bytes(v) => {
                    &&& v@.len() <= max
                    &&& v@.len() <= old(self).remaining().len()
                    &&& (old(self).step == old(self).schedule@.len() ==> v@.len() == (
                    if max <= old(self).remaining().len() {
                        max as int
                    } else {
                        old(self).remaining().len() as int
                    }))
                    &&& v@ == old(self).remaining().take(v@.len() as int)
                    &&& final(self).remaining() == old(self).remaining().skip(v@.len() as int)
                    &&& (v@.len() == 0 <==> old(self).remaining().len() == 0)
                    &&& final(self).fuel() <= old(self).fuel() - v@.len()
                },
                ReadOutcome::Suspend => {
                    &&& final(self).remaining() == old(self).remaining()
                    &&& final(self).pos == old(self).pos
                    &&& final(self).fuel() < old(self).fuel()
                },
                ReadOutcome::Fail => {
                    &&& final(self).remaining() == old(self).remaining()
                    &&& final(self).pos == old(self).pos
                    &&& final(self).fuel() < old(self).fuel()
                },
            },
    {
        let mut limit = max;
        if self.step < self.schedule.len() {
            let s = self.schedule[self.step];
            self.step = self.step + 1;
            match s {
                ReadStep::Suspend => {
                    return ReadOutcome::Suspend;
                },
                ReadStep::Fail => {
                    return ReadOutcome::Fail;
                },
                ReadStep::Deliver(k) => {
                    let k = if k == 0 { 1 } else { k };
                    if k < limit {
                        limit = k;
                    }
                },
            }
        }
        let avail = self.data.len() - self.pos;
        let n = if limit < avail { limit } else { avail };
        let mut out: Vec<u8> = Vec::new();
        let end = self.pos + n;
        let mut j: usize = self.pos;
        while j < end
            invariant
                self.pos <= j <= end,
                end <= self.data@.len(),
                out@ =~= self.data@.subrange(self.pos as int, j as int),
            decreases end - j,
        {
            out.push(self.data[j]);
            j = j + 1;
        }
        self.pos = end;
        proof {
            assert(out@ =~= old(self).remaining().take(n as int));
            assert(self.remaining() =~= old(self).remaining().skip(n as int));
        }
        ReadOutcome::Bytes(out)
    }

    /// Give back bytes: the next read observes `bytes` first, in their
    /// original order, before anything not yet delivered.
    pub fn prepend(&mut self, bytes: &Vec<u8>)
        requires
            old(self).wf(),
        ensures
            final(self).wf(),
            final(self).remaining() == bytes@ + old(self).remaining(),
            final(self).schedule == old(self).schedule,
            final(self).step == old(self).step,
            final(self).fuel() == old(self).fuel() + bytes@.len(),
    {
        let mut nd: Vec<u8> = Vec::new();
        nd.extend_from_slice(bytes.as_slice());
        let mut i: usize = self.pos;
        while i < self.data.len()
            invariant
                self.pos <= i <= self.data@.len(),
                self.pos <= self.data@.len(),
                nd@ =~= bytes@ + self.data@.subrange(self.pos as int, i as int),
                self.data == old(self).data,
                self.pos == old(self).pos,
            decreases self.data@.len() - i,
        {
            nd.push(self.data[i]);
            i = i + 1;
        }
        self.data = nd;
        self.pos = 0;
        proof {
            assert(self.remaining() =~= bytes@ + old(self).remaining());
        }
    }
}

} // verus!
