//! The consumption core of the lazy byte stream: a reader state machine
//! that turns a sequence of fallible byte chunks into sequential reads.
//!
//! Bytes are delivered in the order the chunk source produced them, with no
//! duplication: each read serves from an internal accumulator, refilling it
//! with the next chunk only when it is empty. An upstream error surfaces
//! exactly once; the reader is terminal afterwards. Once the source is
//! exhausted, every further read reports end-of-data again.

use vstd::prelude::*;

verus! {

/// An upstream chunk-source failure, carried to the reader's consumer.
#[derive(Debug)]
pub struct StreamError {
    pub message: String,
}

/// What one poll of the upstream chunk source produced.
pub enum UpstreamEvent {
    /// The source yielded a chunk of bytes.
    Data(Vec<u8>),
    /// The source failed; no further items follow.
    Fault(StreamError),
    /// The source is exhausted.
    Exhausted,
}

/// What one read step hands the consumer.
pub enum ReadOutcome {
    /// The bytes served; empty means end-of-data to the consumer.
    Bytes(Vec<u8>),
    /// The upstream failure, surfaced exactly once.
    Failed(StreamError),
}

/// The reader state machine: an accumulator of bytes not yet served, the
/// terminal flags, and the history of bytes delivered so far.
pub struct ReadAdapter {
    buffer: Vec<u8>,
    pending_fault: Option<StreamError>,
    ended: bool,
    consumed: Ghost<Seq<u8>>,
}

impl ReadAdapter {
    /// The bytes accumulated but not yet served.
    pub closed spec fn buffered(&self) -> Seq<u8> {
        self.buffer@
    }

    /// An upstream failure waits to be surfaced.
    pub closed spec fn has_fault(&self) -> bool {
        self.pending_fault is Some
    }

    /// The waiting failure's message.
    pub closed spec fn fault_message(&self) -> Seq<char> {
        self.pending_fault->0.message@
    }

    /// The reader has reported end-of-data (or surfaced its failure) and is
    /// terminal.
    pub closed spec fn at_end(&self) -> bool {
        self.ended
    }

    /// Every byte delivered so far, in order.
    pub closed spec fn consumed(&self) -> Seq<u8> {
        self.consumed@
    }

    /// A terminal reader holds nothing back; a waiting failure only arises
    /// with an empty accumulator.
    pub open spec fn wf(&self) -> bool {
        &&& (self.at_end() ==> self.buffered().len() == 0 && !self.has_fault())
        &&& (self.has_fault() ==> self.buffered().len() == 0)
    }

    /// A fresh adapter: nothing buffered, nothing delivered, not terminal.
    pub fn new() -> (r: ReadAdapter)
        ensures
            r.wf(),
            r.buffered().len() == 0,
            !r.has_fault(),
            !r.at_end(),
            r.consumed() == Seq::<u8>::empty(),
    {
        ReadAdapter {
            buffer: Vec::new(),
            pending_fault: None,
            ended: false,
            consumed: Ghost(Seq::empty()),
        }
    }

    /// The accumulator is empty and the upstream source must be polled
    /// before anything can be served.
    pub fn needs_fill(&self) -> (r: bool)
        ensures
            r == (self.buffered().len() == 0 && !self.at_end() && !self.has_fault()),
    {
        self.buffer.is_empty() && !self.ended && self.pending_fault.is_none()
    }

    /// Applies what the upstream source answered: a chunk refills the
    /// accumulator, exhaustion makes the reader terminal, a failure is held
    /// to be surfaced by the next read.
    pub fn fill(&mut self, ev: UpstreamEvent)
        requires
            old(self).wf(),
            old(self).buffered().len() == 0,
            !old(self).at_end(),
            !old(self).has_fault(),
        ensures
            final(self).wf(),
            final(self).consumed() == old(self).consumed(),
            match ev {
                UpstreamEvent::Data(d) => final(self).buffered() == d@ && !final(self).at_end()
                    && !final(self).has_fault(),
                UpstreamEvent::Fault(e) => final(self).has_fault() && final(self).fault_message()
                    == e.message@ && final(self).buffered().len() == 0 && !final(self).at_end(),
                UpstreamEvent::Exhausted => final(self).at_end() && final(self).buffered().len()
                    == 0 && !final(self).has_fault(),
            },
    {
        match ev {
            UpstreamEvent::Data(d) => {
                self.buffer = d;
            },
            UpstreamEvent::Fault(e) => {
                self.pending_fault = Some(e);
            },
            UpstreamEvent::Exhausted => {
                self.ended = true;
            },
        }
    }

    /// Serves one read of at most `cap` bytes: a waiting failure is surfaced
    /// (exactly once, making the reader terminal), otherwise as many
    /// buffered bytes as fit are handed out, the rest retained.
    pub fn read_ready(&mut self, cap: usize) -> (r: ReadOutcome)
        requires
            old(self).wf(),
        ensures
            final(self).wf(),
            old(self).has_fault() ==> match r {
                ReadOutcome::Failed(e) => e.message@ == old(self).fault_message()
                    && final(self).at_end() && !final(self).has_fault()
                    && final(self).buffered().len() == 0
                    && final(self).consumed() == old(self).consumed(),
                ReadOutcome::Bytes(_) => false,
            },
            !old(self).has_fault() ==> match r {
                ReadOutcome::Bytes(v) => {
                    let k = if cap < old(self).buffered().len() {
                        cap as int
                    } else {
                        old(self).buffered().len() as int
                    };
                    &&& v@ == old(self).buffered().take(k)
                    &&& final(self).buffered() == old(self).buffered().skip(k)
                    &&& final(self).consumed() == old(self).consumed() + v@
                    &&& final(self).at_end() == old(self).at_end()
                    &&& !final(self).has_fault()
                },
                ReadOutcome::Failed(_) => false,
            },
    {
        let pf = self.pending_fault.take();
        match pf {
            Some(e) => {
                self.ended = true;
                ReadOutcome::Failed(e)
            },
            None => {
                let k = if cap < self.buffer.len() {
                    cap
                } else {
                    self.buffer.len()
                };
                let tail = self.buffer.split_off(k);
                let mut out = tail;
                core::mem::swap(&mut self.buffer, &mut out);
                proof {
                    self.consumed@ = self.consumed@ + out@;
                }
                ReadOutcome::Bytes(out)
            },
        }
    }
}

/// A chunk item as the specifications see it: the chunk's bytes, or the
/// failure's message.
pub open spec fn item_view(it: Result<Vec<u8>, StreamError>) -> Result<Seq<u8>, Seq<char>> {
    match it {
        Ok(d) => Ok(d@),
        Err(e) => Err(e.message@),
    }
}

/// A chunk list as the specifications see it.
pub open spec fn items_view(items: Seq<Result<Vec<u8>, StreamError>>) -> Seq<
    Result<Seq<u8>, Seq<char>>,
> {
    items.map(|i: int, it: Result<Vec<u8>, StreamError>| item_view(it))
}

/// The bytes a chunk list holds: its chunks concatenated in order, failures
/// contributing nothing.
pub open spec fn datas_bytes(s: Seq<Result<Seq<u8>, Seq<char>>>) -> Seq<u8>
    decreases s.len(),
{
    if s.len() == 0 {
        Seq::empty()
    } else {
        (match s[0] {
            Ok(d) => d,
            Err(_) => Seq::<u8>::empty(),
        }) + datas_bytes(s.drop_first())
    }
}

/// A reader over an in-memory chunk source: the verified embodiment of a
/// byte stream consumed through sequential reads.
pub struct ByteReader {
    items: Vec<Result<Vec<u8>, StreamError>>,
    adapter: ReadAdapter,
}

impl ByteReader {
    /// The chunks not yet pulled from the source, in order.
    pub closed spec fn remaining(&self) -> Seq<Result<Seq<u8>, Seq<char>>> {
        items_view(self.items@)
    }

    /// The bytes accumulated but not yet served.
    pub closed spec fn buffered(&self) -> Seq<u8> {
        self.adapter.buffered()
    }

    /// Every byte delivered so far, in order.
    pub closed spec fn consumed(&self) -> Seq<u8> {
        self.adapter.consumed()
    }

    /// The reader has reported end-of-data (or surfaced a failure) and is
    /// terminal.
    pub closed spec fn at_end(&self) -> bool {
        self.adapter.at_end()
    }

    /// An upstream failure waits to be surfaced.
    pub closed spec fn has_fault(&self) -> bool {
        self.adapter.has_fault()
    }

    /// The bytes still to be served: the accumulator, then everything the
    /// source still holds.
    pub open spec fn pending_bytes(&self) -> Seq<u8> {
        self.buffered() + datas_bytes(self.remaining())
    }

    /// The representation invariant.
    pub closed spec fn wf(&self) -> bool {
        &&& self.adapter.wf()
        &&& (self.at_end() ==> self.buffered().len() == 0)
    }

    /// No failure anywhere: none waiting, none among the remaining chunks.
    pub open spec fn clean(&self) -> bool {
        !self.has_fault() && forall|i: int|
            0 <= i < self.remaining().len() ==> #[trigger] self.remaining()[i] is Ok
    }

    /// Every remaining chunk holds at least one byte.
    pub open spec fn chunks_nonempty(&self) -> bool {
        forall|i: int|
            0 <= i < self.remaining().len() ==> (match #[trigger] self.remaining()[i] {
                Ok(d) => d.len() > 0,
                Err(_) => true,
            })
    }

    /// A reader whose full drain is owed to reproduce its pending bytes: no
    /// failures, no empty chunk standing before data, and nothing pending
    /// once it is terminal.
    pub open spec fn drainable(&self) -> bool {
        &&& self.clean()
        &&& (self.chunks_nonempty() || self.pending_bytes().len() == 0)
        &&& (self.at_end() ==> self.pending_bytes().len() == 0)
    }

    /// A reader over the given chunk list.
    pub fn from_chunks(items: Vec<Result<Vec<u8>, StreamError>>) -> (r: ByteReader)
        ensures
            r.wf(),
            r.remaining() == items_view(items@),
            r.buffered().len() == 0,
            r.consumed() == Seq::<u8>::empty(),
            !r.at_end(),
            !r.has_fault(),
    {
        ByteReader { items, adapter: ReadAdapter::new() }
    }

    /// A reader over a single in-memory buffer.
    pub fn from_buffer(buf: Vec<u8>) -> (r: ByteReader)
        ensures
            r.wf(),
            r.drainable(),
            r.pending_bytes() == buf@,
            r.consumed() == Seq::<u8>::empty(),
            !r.at_end(),
    {
        let ghost bview = buf@;
        let mut items: Vec<Result<Vec<u8>, StreamError>> = Vec::new();
        items.push(Ok(buf));
        let r = ByteReader { items, adapter: ReadAdapter::new() };
        proof {
            assert(r.remaining() =~= seq![Ok::<Seq<u8>, Seq<char>>(bview)]);
            assert(r.remaining().drop_first() =~= Seq::<Result<Seq<u8>, Seq<char>>>::empty());
            assert(datas_bytes(Seq::<Result<Seq<u8>, Seq<char>>>::empty()) == Seq::<u8>::empty());
            assert(datas_bytes(r.remaining()) =~= bview);
            assert(r.pending_bytes() =~= bview);
        }
        r
    }

    /// Serves one read of at most `cap` bytes. Bytes come in source order
    /// with no duplication; an upstream failure surfaces exactly once, after
    /// which the reader is terminal; a terminal reader reports end-of-data
    /// (an empty read) forever and never resurrects old data.
    pub fn read(&mut self, cap: usize) -> (r: Result<Vec<u8>, StreamError>)
        requires
            old(self).wf(),
        ensures
            final(self).wf(),
            // delivered-byte accounting: served bytes extend the history
            match r {
                Ok(v) => final(self).consumed() == old(self).consumed() + v@,
                Err(_) => final(self).consumed() == old(self).consumed(),
            },
            // exhaustion is sticky: a terminal reader reports end-of-data
            // again and is left unchanged
            old(self).at_end() ==> match r {
                Ok(v) => v@.len() == 0 && final(self).at_end() && final(self).pending_bytes()
                    == old(self).pending_bytes() && final(self).consumed() == old(self).consumed(),
                Err(_) => false,
            },
            // served bytes always come off the front of what was pending
            match r {
                Ok(v) => final(self).pending_bytes().len() + v@.len() == old(
                    self,
                ).pending_bytes().len(),
                Err(_) => true,
            },
            // a clean reader reads without failure and stays clean
            old(self).clean() ==> r is Ok && final(self).clean(),
            // a failure only ever comes from a failed source
            r is Err ==> !old(self).clean(),
            // after a failure the reader is terminal
            r is Err ==> final(self).at_end() && !final(self).has_fault(),
            // the clean path: bytes are served in order, without loss or
            // duplication, and an empty read means nothing is left
            old(self).drainable() && cap >= 1 ==> match r {
                Ok(v) => {
                    &&& final(self).drainable()
                    &&& v@ == old(self).pending_bytes().take(v@.len() as int)
                    &&& final(self).pending_bytes() == old(self).pending_bytes().skip(
                        v@.len() as int,
                    )
                    &&& (old(self).pending_bytes().len() > 0 ==> v@.len() > 0)
                    &&& (v@.len() == 0 ==> final(self).pending_bytes().len() == 0)
                },
                Err(_) => false,
            },
    {
        let ghost pend0 = self.pending_bytes();
        if self.adapter.needs_fill() {
            if self.items.len() == 0 {
                self.adapter.fill(UpstreamEvent::Exhausted);
                proof {
                    assert(self.remaining().len() == 0);
                    assert(self.pending_bytes() =~= pend0);
                }
            } else {
                let ghost rem0 = self.remaining();
                let item = self.items.remove(0);
                proof {
                    assert(self.remaining() =~= rem0.drop_first());
                    assert(item_view(item) == rem0[0]);
                    assert forall|i: int| 0 <= i < self.remaining().len() implies #[trigger] self.remaining()[i] == rem0[i + 1] by {
                        assert(self.remaining()[i] == rem0.drop_first()[i]);
                    }
                }
                match item {
                    Ok(d) => {
                        let ghost dv = d@;
                        self.adapter.fill(UpstreamEvent::Data(d));
                        proof {
                            assert(datas_bytes(rem0) == dv + datas_bytes(rem0.drop_first()));
                            assert(self.pending_bytes() =~= pend0);
                        }
                    },
                    Err(e) => {
                        proof {
                            assert(rem0[0] is Err);
                            assert(old(self).remaining()[0] is Err);
                        }
                        self.adapter.fill(UpstreamEvent::Fault(e));
                    },
                }
            }
        }
        let ghost pend1 = self.pending_bytes();
        let ghost buf1 = self.buffered();
        let ghost rem1 = self.remaining();
        match self.adapter.read_ready(cap) {
            ReadOutcome::Bytes(v) => {
                proof {
                    let k = v@.len() as int;
                    assert(v@ == buf1.take(k));
                    assert(self.buffered() == buf1.skip(k));
                    assert(k <= buf1.len());
                    assert(pend1.take(k) =~= buf1.take(k));
                    assert(self.pending_bytes() =~= pend1.skip(k));
                }
                Ok(v)
            },
            ReadOutcome::Failed(e) => Err(e),
        }
    }

    /// Drains the reader through repeated reads of at most `cap` bytes,
    /// stopping at the first empty read. A drainable reader yields exactly
    /// its pending bytes, in order, with no gaps or duplicates — whatever
    /// `cap` is, so draining through small reads composes to the same bytes
    /// as one large read.
    pub fn read_to_end(&mut self, cap: usize) -> (r: Result<Vec<u8>, StreamError>)
        requires
            old(self).wf(),
            cap >= 1,
        ensures
            final(self).wf(),
            old(self).drainable() ==> match r {
                Ok(v) => v@ == old(self).pending_bytes() && final(self).pending_bytes().len() == 0
                    && final(self).consumed() == old(self).consumed() + v@,
                Err(_) => false,
            },
            r is Err ==> !old(self).clean(),
    {
        let mut acc: Vec<u8> = Vec::new();
        loop
            invariant
                cap >= 1,
                self.wf(),
                old(self).drainable() ==> {
                    &&& self.drainable()
                    &&& acc@ + self.pending_bytes() == old(self).pending_bytes()
                    &&& self.consumed() == old(self).consumed() + acc@
                },
                old(self).clean() ==> self.clean(),
            decreases self.pending_bytes().len(),
        {
            let ghost pend_before = self.pending_bytes();
            match self.read(cap) {
                Ok(v) => {
                    if v.len() == 0 {
                        proof {
                            if old(self).drainable() {
                                assert(self.pending_bytes().len() == 0);
                                assert(acc@ =~= old(self).pending_bytes());
                            }
                        }
                        return Ok(acc);
                    }
                    let mut v = v;
                    acc.append(&mut v);
                    proof {
                        if old(self).drainable() {
                            let k = pend_before.len() - self.pending_bytes().len();
                            assert(pend_before.take(k as int) + pend_before.skip(k as int)
                                =~= pend_before);
                            assert(acc@ + self.pending_bytes() =~= old(self).pending_bytes());
                        }
                        assert(self.pending_bytes().len() < pend_before.len());
                    }
                },
                Err(e) => {
                    return Err(e);
                },
            }
        }
    }
}

/// Partial-read composition: two full drains that are each owed the
/// reader's pending bytes deliver the very same bytes, however their read
/// sizes differed.
pub proof fn lemma_partial_read_composition(
    r1: ByteReader,
    r2: ByteReader,
    v1: Seq<u8>,
    v2: Seq<u8>,
)
    requires
        r1.pending_bytes() == r2.pending_bytes(),
        v1 == r1.pending_bytes(),
        v2 == r2.pending_bytes(),
    ensures
        v1 == v2,
{
}

/// Round trip: a reader built over an in-memory buffer and drained fully
/// reproduces that buffer exactly, in order, with no gaps or duplicates.
pub proof fn lemma_buffer_round_trip(r: ByteReader, b: Seq<u8>, v: Seq<u8>)
    requires
        r.pending_bytes() == b,
        v == r.pending_bytes(),
    ensures
        v == b,
{
}

} // verus!
