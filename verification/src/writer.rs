//! Ordered reassembly.
//!
//! Workers fetch chunks out of order and hand them over here. The writer keeps a
//! small `BTreeMap` of chunks that arrived early and releases them strictly in
//! index order, so the byte stream on the output is identical to the remote
//! file.
//!
//! Each chunk carries a permit that is dropped only once the chunk has been
//! written.

use crate::progress::Progress;
use bytes::Bytes;
use std::collections::BTreeMap;
use vstd::prelude::*;

verus! {

#[verifier::external_type_specification]
#[verifier::external_body]
pub struct ExBytes(Bytes);

/// The bytes that a `bytes::Bytes` holds.
pub uninterp spec fn contents(bytes: Bytes) -> Seq<u8>;

/// `Bytes::len` is the number of bytes held.
pub assume_specification[ Bytes::len ](bytes: &Bytes) -> (n: usize)
    ensures
        n == contents(*bytes).len(),
;

/// A downloaded chunk on its way to the output.
pub struct ChunkMsg<P> {
    pub index: u64,
    pub bytes: Bytes,
    /// Held until the chunk is written; dropping it (after the write) frees a
    /// buffer slot so a new chunk can be fetched. Held for its `Drop` effect.
    pub permit: P,
}

/// How the writer loop ended.
#[derive(Debug, Clone, Copy, PartialEq, Eq, Structural)]
pub enum WriterOutcome {
    /// All expected bytes were written (ranged: every chunk; single: stream end).
    Complete,
    /// The output pipe was closed by the consumer; a clean early stop.
    BrokenPipe,
    /// A bounded run's channel closed before all chunks arrived (upstream error).
    Incomplete,
}

/// What the writer has to do next.
pub enum Step<P> {
    /// Write these bytes to the output.
    Write(ChunkMsg<P>),
    /// Wait for the next chunk.
    Receive,
    /// Everything is written: flush the output.
    Flush,
}

/// Why a write or a flush failed.
#[derive(Debug)]
pub enum OutputError<E> {
    /// The consumer closed the pipe.
    BrokenPipe,
    Other(E),
}

/// The state of the writer.
#[verifier::ext_equal]
pub struct WriterState<P> {
    /// Number of chunks to write, where it is known.
    pub expected: Option<u64>,
    /// Index of the next chunk to write.
    pub next_write: u64,
    /// Chunks that arrived early, by index.
    pub pending: Map<u64, ChunkMsg<P>>,
    /// The bytes written so far.
    pub written: Seq<u8>,
}

impl<P> WriterState<P> {
    /// The start of a run.
    pub open spec fn fresh(expected: Option<u64>) -> Self {
        WriterState { expected, next_write: 0, pending: Map::empty(), written: Seq::empty() }
    }

    /// Every buffered chunk is filed under its own index.
    pub open spec fn wf(self) -> bool {
        forall|i: u64| #[trigger]
            self.pending.contains_key(i) ==> self.pending[i].index == i
    }

    /// Whether every expected chunk has been written.
    pub open spec fn done(self) -> bool {
        self.expected matches Some(n) && self.next_write >= n
    }

    /// Whether the chunk that comes next in order is at hand.
    pub open spec fn ready(self) -> bool {
        self.pending.contains_key(self.next_write)
    }

    /// Whether this is the step that the writer takes next, and the state it leads to.
    pub open spec fn leads_to(self, step: Step<P>, next: Self) -> bool {
        if self.done() {
            step is Flush && next == self
        } else if self.ready() {
            step == Step::Write(self.pending[self.next_write]) && next == self.taken()
        } else {
            step is Receive && next == self
        }
    }

    /// What the end of the channel means while the writer waits.
    pub open spec fn at_close(self) -> Option<WriterOutcome> {
        if self.expected is Some {
            Some(WriterOutcome::Incomplete)
        } else {
            None
        }
    }

    /// The state after a chunk arrived. A chunk that arrives twice replaces
    /// itself.
    pub open spec fn received(self, msg: ChunkMsg<P>) -> Self {
        WriterState { pending: self.pending.insert(msg.index, msg), ..self }
    }

    /// The state after the next chunk was taken out to be written.
    pub open spec fn taken(self) -> Self {
        WriterState { pending: self.pending.remove(self.next_write), ..self }
    }

    /// The state after `bytes` were written as the next chunk.
    pub open spec fn wrote(self, bytes: Seq<u8>) -> Self {
        WriterState {
            next_write: (self.next_write + 1) as u64,
            written: self.written + bytes,
            ..self
        }
    }
}

/// Puts chunks in order for the output.
///
/// * `expected = Some(n)` (ranged mode): releases the chunks `0..n` in order.
/// * `expected = None` (single-stream mode): releases frames in order until the
///   stream ends.
pub struct Writer<P> {
    expected: Option<u64>,
    next_write: u64,
    pending: BTreeMap<u64, ChunkMsg<P>>,
    written: Ghost<Seq<u8>>,
}

impl<P> View for Writer<P> {
    type V = WriterState<P>;

    closed spec fn view(&self) -> WriterState<P> {
        WriterState {
            expected: self.expected,
            next_write: self.next_write,
            pending: self.pending@,
            written: self.written@,
        }
    }
}

impl<P> Writer<P> {
    pub fn new(expected: Option<u64>) -> (writer: Self)
        ensures
            writer@ == WriterState::<P>::fresh(expected),
            writer@.wf(),
    {
        Writer { expected, next_write: 0, pending: BTreeMap::new(), written: Ghost(Seq::empty()) }
    }

    /// Index of the next chunk to write.
    pub fn next_write(&self) -> (index: u64)
        ensures
            index == self@.next_write,
    {
        self.next_write
    }

    /// Decide what comes next: flush once every expected chunk is written, write
    /// the next chunk in order as soon as it is at hand, and wait otherwise.
    pub fn next_step(&mut self) -> (step: Step<P>)
        requires
            old(self)@.wf(),
        ensures
            final(self)@.wf(),
            old(self)@.leads_to(step, final(self)@),
            step is Flush <==> old(self)@.done(),
            step is Write <==> !old(self)@.done() && old(self)@.ready(),
            match step {
                Step::Write(msg) => {
                    &&& msg == old(self)@.pending[old(self)@.next_write]
                    &&& msg.index == old(self)@.next_write
                    &&& final(self)@ == old(self)@.taken()
                },
                Step::Receive => final(self)@ == old(self)@,
                Step::Flush => final(self)@ == old(self)@,
            },
    {
        match self.expected {
            Some(n) if self.next_write >= n => {
                return Step::Flush;
            },
            _ => {},
        }
        let ghost before = self@;
        match self.pending.remove(&self.next_write) {
            Some(msg) => {
                assert(self@ =~= before.taken());
                Step::Write(msg)
            },
            None => {
                assert(self@ =~= before);
                Step::Receive
            },
        }
    }

    /// Take in a chunk.
    pub fn receive(&mut self, msg: ChunkMsg<P>)
        requires
            old(self)@.wf(),
        ensures
            final(self)@ == old(self)@.received(msg),
            final(self)@.wf(),
    {
        let ghost before = self@;
        self.pending.insert(msg.index, msg);
        assert(self@ =~= before.received(msg));
    }

    /// Note that a chunk was written: its bytes count as progress, the next chunk
    /// in order is due, and its permit is dropped.
    pub fn wrote(&mut self, msg: ChunkMsg<P>, progress: &mut Progress)
        requires
            old(self)@.wf(),
            msg.index == old(self)@.next_write,
            old(self)@.next_write < u64::MAX,
        ensures
            final(self)@ == old(self)@.wrote(contents(msg.bytes)),
            final(self)@.wf(),
            *final(progress) == old(progress).added(contents(msg.bytes).len() as u64),
            *final(progress) == (Progress {
                written: ((old(progress).written + contents(msg.bytes).len())
                    % 0x1_0000_0000_0000_0000) as u64,
                ..*old(progress)
            }),
    {
        let len: u64 = msg.bytes.len() as u64;
        progress.add(len);
        self.next_write = self.next_write + 1;
        self.written = Ghost(self.written@ + contents(msg.bytes));
    }

    /// What the end of the channel means while the writer waits: a bounded run
    /// ended early, and an unbounded one just ended (`None`: flush the output).
    pub fn channel_closed(&self) -> (outcome: Option<WriterOutcome>)
        ensures
            outcome == self@.at_close(),
            outcome == (if self@.expected is Some {
                Some(WriterOutcome::Incomplete)
            } else {
                None
            }),
    {
        match self.expected {
            Some(_) => Some(WriterOutcome::Incomplete),
            None => None,
        }
    }
}

/// How the writer ends after its last write or flush: completely, or early
/// because the consumer closed the pipe, or with the error.
pub open spec fn settled<E>(result: Result<(), OutputError<E>>) -> Result<WriterOutcome, E> {
    match result {
        Ok(_) => Ok(WriterOutcome::Complete),
        Err(OutputError::BrokenPipe) => Ok(WriterOutcome::BrokenPipe),
        Err(OutputError::Other(e)) => Err(e),
    }
}

/// How the writer ends after its last write or flush.
pub fn settle<E>(result: Result<(), OutputError<E>>) -> (r: Result<WriterOutcome, E>)
    ensures
        r == settled(result),
{
    match result {
        Ok(_) => Ok(WriterOutcome::Complete),
        Err(OutputError::BrokenPipe) => Ok(WriterOutcome::BrokenPipe),
        Err(OutputError::Other(e)) => Err(e),
    }
}

/// The state after frames arrived and were written one by one.
pub open spec fn after_frames<P>(state: WriterState<P>, frames: Seq<ChunkMsg<P>>) -> WriterState<P>
    decreases frames.len(),
{
    if frames.len() == 0 {
        state
    } else {
        after_frames(state, frames.drop_last()).received(frames.last()).taken().wrote(
            contents(frames.last().bytes),
        )
    }
}

/// The bytes of the frames, one after the other.
pub open spec fn joined_frames<P>(frames: Seq<ChunkMsg<P>>) -> Seq<u8>
    decreases frames.len(),
{
    if frames.len() == 0 {
        Seq::empty()
    } else {
        joined_frames(frames.drop_last()) + contents(frames.last().bytes)
    }
}

/// A single stream goes through unchanged: frames with consecutive indices are
/// written in arrival order, each as soon as it is there, and nothing is left
/// behind in the buffer.
pub proof fn law_frames_pass_through<P>(frames: Seq<ChunkMsg<P>>)
    requires
        frames.len() < u64::MAX,
        forall|i: int| 0 <= i < frames.len() ==> (#[trigger] frames[i]).index == i,
    ensures
        ({
            let end = after_frames(WriterState::<P>::fresh(None), frames);
            &&& end.written == joined_frames(frames)
            &&& end.pending == Map::<u64, ChunkMsg<P>>::empty()
            &&& end.next_write == frames.len()
            &&& end.expected is None
            &&& forall|msg: ChunkMsg<P>|
                msg.index == frames.len() ==> (#[trigger] end.received(msg)).ready()
        }),
    decreases frames.len(),
{
    if frames.len() > 0 {
        let front = frames.drop_last();
        assert forall|i: int| 0 <= i < front.len() implies (#[trigger] front[i]).index == i by {
            assert(front[i] == frames[i]);
        }
        law_frames_pass_through(front);
        assert(frames.last().index == frames.len() - 1);
        assert(after_frames(WriterState::<P>::fresh(None), frames).pending =~= Map::empty());
    }
}

/// What the writer does next: it flushes exactly when every expected chunk is written; else it
/// writes the chunk whose turn it is if that is at hand, and takes it out of the buffer; and
/// else it waits. Nothing but that chunk is ever written, and nothing else changes.
pub proof fn law_writer_writes_in_order<P>(
    state: WriterState<P>,
    step: Step<P>,
    next: WriterState<P>,
)
    requires
        state.leads_to(step, next),
    ensures
        step is Flush <==> (state.expected matches Some(n) && state.next_write >= n),
        step is Write <==> !(state.expected matches Some(n) && state.next_write >= n)
            && state.pending.contains_key(state.next_write),
        step matches Step::Write(msg) ==> msg == state.pending[state.next_write] && next.pending
            == state.pending.remove(state.next_write),
        step !is Write ==> next.pending == state.pending,
        next.expected == state.expected,
        next.next_write == state.next_write,
        next.written == state.written,
{
}

/// A chunk that arrives is buffered under its own index and touches no other; a chunk that was
/// written adds its bytes at the end of the output and makes the next index due.
pub proof fn law_chunks_are_buffered_and_written_once<P>(
    state: WriterState<P>,
    msg: ChunkMsg<P>,
    bytes: Seq<u8>,
    other: u64,
)
    ensures
        state.received(msg).pending.contains_key(msg.index),
        state.received(msg).pending[msg.index] == msg,
        other != msg.index ==> (state.received(msg).pending.contains_key(other)
            <==> state.pending.contains_key(other)),
        other != msg.index && state.pending.contains_key(other) ==> state.received(
            msg,
        ).pending[other] == state.pending[other],
        state.received(msg).written == state.written,
        state.received(msg).next_write == state.next_write,
        state.received(msg).expected == state.expected,
        state.wrote(bytes).written == state.written + bytes,
        state.next_write < u64::MAX ==> state.wrote(bytes).next_write == state.next_write + 1,
        state.wrote(bytes).pending == state.pending,
        state.wrote(bytes).expected == state.expected,
{
}

/// A run starts with nothing written and nothing buffered.
pub proof fn law_writer_starts_empty<P>(expected: Option<u64>)
    ensures
        WriterState::<P>::fresh(expected).expected == expected,
        WriterState::<P>::fresh(expected).next_write == 0,
        WriterState::<P>::fresh(expected).written.len() == 0,
        forall|i: u64| !(#[trigger] WriterState::<P>::fresh(expected).pending.contains_key(i)),
{
}

/// The end of the channel while the writer waits ends a bounded run early, and is the end of
/// any other.
pub proof fn law_early_end_is_incomplete<P>(state: WriterState<P>)
    ensures
        state.expected is Some ==> state.at_close() == Some(WriterOutcome::Incomplete),
        state.expected is None ==> state.at_close() is None,
{
}

/// An output that took everything is complete, a consumer that closed the pipe is a clean end,
/// and any other error of the output stays that error.
pub proof fn law_output_results_settle<E>(error: E)
    ensures
        settled(Ok::<(), OutputError<E>>(())) == Ok::<WriterOutcome, E>(WriterOutcome::Complete),
        settled(Err::<(), OutputError<E>>(OutputError::BrokenPipe)) == Ok::<WriterOutcome, E>(
            WriterOutcome::BrokenPipe,
        ),
        settled(Err::<(), OutputError<E>>(OutputError::Other(error))) == Err::<WriterOutcome, E>(
            error,
        ),
{
}

} // verus!
