//! A single-stream download as a whole, and what the buffer permits guarantee there.
//!
//! The reader takes a permit for each frame before it hands the frame over, and the
//! permit rides along until the frame is written. So the frames on their way to the
//! output never outnumber the permits, and the reader waits while the output is slower
//! than the network.

use crate::single::{SingleStream, StreamEvent, StreamPhase, StreamReader};
use crate::writer::{contents, ChunkMsg, WriterState};
use bytes::Bytes;
use vstd::prelude::*;

verus! {

/// The bytes of the pieces, one after the other.
pub open spec fn joined_pieces(pieces: Seq<Bytes>) -> Seq<u8>
    decreases pieces.len(),
{
    if pieces.len() == 0 {
        Seq::empty()
    } else {
        joined_pieces(pieces.drop_last()) + contents(pieces.last())
    }
}

/// A single-stream download: the reader, the frames that came so far, and the writer.
#[verifier::ext_equal]
pub struct StreamFlow<P> {
    /// Number of permits.
    pub limit: nat,
    pub reader: StreamReader,
    /// The pieces of the body that came so far and were not empty.
    pub frames: Seq<Bytes>,
    pub writer: WriterState<P>,
}

/// One step of a single-stream download.
pub enum StreamStep<P> {
    /// A piece of the body comes.
    Piece(Bytes),
    /// The reader takes a permit for the frame in hand.
    Acquire,
    /// The reader hands the frame to the writer, with this permit.
    Deliver(P),
    /// The writer writes the next frame and gives its permit back.
    Write,
}

impl<P> StreamFlow<P> {
    /// The start of a download, whose body was announced with this length, if any.
    pub open spec fn start(announced: Option<u64>, limit: nat) -> Self {
        StreamFlow {
            limit,
            reader: StreamReader {
                stream: SingleStream { index: 0, received: 0, expected: announced },
                phase: StreamPhase::Read,
            },
            frames: Seq::empty(),
            writer: WriterState::fresh(None),
        }
    }

    /// Permits that are taken: by the frame that is being handed over, and by the
    /// frames that the writer has.
    pub open spec fn permits_held(self) -> nat {
        self.writer.pending.dom().len() + (if self.reader.phase is Send {
            1nat
        } else {
            0
        })
    }

    /// How many frames were handed to the writer.
    pub open spec fn delivered(self) -> int {
        if self.reader.phase is Read {
            self.frames.len() as int
        } else {
            self.frames.len() - 1
        }
    }

    /// Whether a step can be taken.
    pub open spec fn enabled(self, step: StreamStep<P>) -> bool {
        match step {
            StreamStep::Piece(bytes) => {
                &&& contents(bytes).len() <= u64::MAX
                &&& self.reader.takes(StreamEvent::Piece { len: contents(bytes).len() as u64 })
            },
            StreamStep::Acquire => self.reader.takes(StreamEvent::Permitted) && self.permits_held()
                < self.limit,
            StreamStep::Deliver(_) => self.reader.takes(StreamEvent::Sent),
            StreamStep::Write => !self.writer.done() && self.writer.ready(),
        }
    }

    /// The state after a step.
    pub open spec fn after(self, step: StreamStep<P>) -> Self {
        match step {
            StreamStep::Piece(bytes) => StreamFlow {
                reader: self.reader.after(
                    StreamEvent::Piece { len: contents(bytes).len() as u64 },
                ),
                frames: if contents(bytes).len() == 0 {
                    self.frames
                } else {
                    self.frames.push(bytes)
                },
                ..self
            },
            StreamStep::Acquire => StreamFlow {
                reader: self.reader.after(StreamEvent::Permitted),
                ..self
            },
            StreamStep::Deliver(permit) => {
                let index = self.reader.phase->Send_0;
                StreamFlow {
                    reader: self.reader.after(StreamEvent::Sent),
                    writer: self.writer.received(
                        ChunkMsg { index, bytes: self.frames[index as int], permit },
                    ),
                    ..self
                }
            },
            StreamStep::Write => StreamFlow {
                writer: self.writer.taken().wrote(
                    contents(self.writer.pending[self.writer.next_write].bytes),
                ),
                ..self
            },
        }
    }

    /// Whether nobody can lead the download on but by more of the body: the reader hands
    /// nothing over and can take no permit for a frame in hand, and the writer has
    /// nothing to write.
    pub open spec fn at_rest(self) -> bool {
        &&& self.reader.phase !is Send
        &&& !self.enabled(StreamStep::Acquire)
        &&& !self.enabled(StreamStep::Write)
    }

    /// What every step keeps: the frames with the writer are those handed over and not
    /// yet written, each one once and with the bytes that came, each one holds a permit,
    /// and what was written is what came in front of them.
    pub open spec fn inv(self) -> bool {
        &&& self.reader.stream.wf()
        &&& self.reader.stream.index == self.frames.len()
        &&& self.reader.stream.received == joined_pieces(self.frames).len()
        &&& match self.reader.phase {
            StreamPhase::Read => true,
            StreamPhase::Permit(index) => index == self.frames.len() - 1,
            StreamPhase::Send(index) => index == self.frames.len() - 1,
            StreamPhase::Stopped => false,
        }
        &&& self.writer.wf()
        &&& self.writer.expected is None
        &&& self.writer.next_write <= self.delivered()
        &&& self.writer.pending.dom().finite()
        &&& self.writer.pending.dom().len() == self.delivered() - self.writer.next_write
        &&& forall|i: u64|
            #![trigger self.writer.pending.contains_key(i)]
            (self.writer.next_write <= i < self.delivered()
                <==> self.writer.pending.contains_key(i)) && (self.writer.pending.contains_key(i)
                ==> self.writer.pending[i].bytes == self.frames[i as int])
        &&& self.writer.written == joined_pieces(
            self.frames.take(self.writer.next_write as int),
        )
        &&& self.permits_held() <= self.limit
    }
}

/// A download starts with the invariant in place.
pub proof fn law_stream_starts<P>(announced: Option<u64>, limit: nat)
    ensures
        StreamFlow::<P>::start(announced, limit).inv(),
{
    let start = StreamFlow::<P>::start(announced, limit);
    assert(start.frames.take(0) =~= Seq::<Bytes>::empty());
}

/// Every step keeps the invariant.
pub proof fn law_stream_step_keeps_invariant<P>(flow: StreamFlow<P>, step: StreamStep<P>)
    requires
        flow.inv(),
        flow.enabled(step),
    ensures
        flow.after(step).inv(),
{
    let next = flow.after(step);
    let w = flow.writer.next_write;
    match step {
        StreamStep::Piece(bytes) => {
            if contents(bytes).len() > 0 {
                assert(next.frames.drop_last() =~= flow.frames);
                assert(next.frames.take(w as int) =~= flow.frames.take(w as int));
            }
        },
        StreamStep::Deliver(_) => {
            let index = flow.reader.phase->Send_0;
            assert(!flow.writer.pending.contains_key(index));
            assert(next.writer.pending.dom() =~= flow.writer.pending.dom().insert(index));
        },
        StreamStep::Write => {
            assert(flow.writer.pending.contains_key(w));
            assert(next.writer.pending.dom() =~= flow.writer.pending.dom().remove(w));
            let longer = flow.frames.take(w + 1);
            assert(longer.drop_last() =~= flow.frames.take(w as int));
            assert(longer.last() == flow.frames[w as int]);
            assert forall|i: u64|
                #![trigger next.writer.pending.contains_key(i)]
                (next.writer.next_write <= i < next.delivered()
                    <==> next.writer.pending.contains_key(i)) && (next.writer.pending.contains_key(
                    i,
                ) ==> next.writer.pending[i].bytes == next.frames[i as int]) by {
                assert(next.writer.pending.contains_key(i) == (flow.writer.pending.contains_key(i)
                    && i != w));
            }
        },
        _ => {},
    }
}

/// Memory is bounded: the frames that hold a permit, handed over and not yet written,
/// never outnumber the permits, and besides them there is at most the one piece for
/// which the reader waits to get a permit.
pub proof fn law_stream_memory_is_bounded<P>(flow: StreamFlow<P>)
    requires
        flow.inv(),
    ensures
        flow.permits_held() <= flow.limit,
        flow.frames.len() - flow.writer.next_write == flow.permits_held() + (
        if flow.reader.phase is Permit {
            1int
        } else {
            0
        }),
{
}

/// A stream never deadlocks: with at least one permit, the frame in hand gets a permit,
/// or the writer has a frame to write that gives one back.
pub proof fn law_stream_does_not_deadlock<P>(flow: StreamFlow<P>)
    requires
        flow.inv(),
        flow.limit >= 1,
        flow.reader.phase is Permit,
    ensures
        flow.enabled(StreamStep::Acquire) || flow.enabled(StreamStep::Write),
{
    if flow.writer.next_write < flow.delivered() {
        assert(flow.writer.pending.contains_key(flow.writer.next_write));
    }
}

/// A stream comes to rest only when everything that came is written, and then no frame
/// is left in the buffer.
pub proof fn law_stream_rest_is_the_end<P>(flow: StreamFlow<P>)
    requires
        flow.inv(),
        flow.limit >= 1,
        flow.at_rest(),
    ensures
        flow.reader.phase is Read,
        flow.writer.written == joined_pieces(flow.frames),
        flow.writer.pending == Map::<u64, ChunkMsg<P>>::empty(),
{
    if flow.reader.phase is Permit {
        law_stream_does_not_deadlock(flow);
    }
    if flow.writer.next_write < flow.delivered() {
        assert(flow.writer.pending.contains_key(flow.writer.next_write));
    }
    assert(flow.frames.take(flow.writer.next_write as int) =~= flow.frames);
    assert(flow.writer.pending =~= Map::empty());
}

/// The state after a run of steps.
pub open spec fn after_stream_steps<P>(flow: StreamFlow<P>, steps: Seq<StreamStep<P>>) -> StreamFlow<
    P,
>
    decreases steps.len(),
{
    if steps.len() == 0 {
        flow
    } else {
        after_stream_steps(flow, steps.drop_last()).after(steps.last())
    }
}

/// Whether each step of a run can be taken in its turn.
pub open spec fn can_stream<P>(flow: StreamFlow<P>, steps: Seq<StreamStep<P>>) -> bool
    decreases steps.len(),
{
    steps.len() == 0 || {
        &&& can_stream(flow, steps.drop_last())
        &&& after_stream_steps(flow, steps.drop_last()).enabled(steps.last())
    }
}

/// The bytes that come in a run of steps, one piece after the other.
pub open spec fn body_of<P>(steps: Seq<StreamStep<P>>) -> Seq<u8>
    decreases steps.len(),
{
    if steps.len() == 0 {
        Seq::empty()
    } else {
        match steps.last() {
            StreamStep::Piece(bytes) => body_of(steps.drop_last()) + contents(bytes),
            _ => body_of(steps.drop_last()),
        }
    }
}

/// Whatever the pieces in which a body comes, and whenever the writer gets to write, the
/// output is the front of the body, and all that came of it once the download rests; at
/// no time do more frames hold a permit than there are permits.
pub proof fn law_every_stream_is_byte_exact<P>(
    announced: Option<u64>,
    limit: nat,
    steps: Seq<StreamStep<P>>,
)
    requires
        can_stream(StreamFlow::<P>::start(announced, limit), steps),
    ensures
        ({
            let end = after_stream_steps(StreamFlow::<P>::start(announced, limit), steps);
            &&& end.inv()
            &&& end.limit == limit
            &&& end.reader.stream.expected == announced
            &&& end.reader.stream.received == body_of(steps).len()
            &&& joined_pieces(end.frames) == body_of(steps)
            &&& end.writer.written.is_prefix_of(body_of(steps))
            &&& limit >= 1 && end.at_rest() ==> end.writer.written == body_of(steps)
            &&& end.permits_held() <= limit
        }),
    decreases steps.len(),
{
    let start = StreamFlow::<P>::start(announced, limit);
    let end = after_stream_steps(start, steps);
    if steps.len() == 0 {
        law_stream_starts::<P>(announced, limit);
    } else {
        let before = after_stream_steps(start, steps.drop_last());
        law_every_stream_is_byte_exact(announced, limit, steps.drop_last());
        law_stream_step_keeps_invariant(before, steps.last());
        match steps.last() {
            StreamStep::Piece(bytes) => {
                if contents(bytes).len() == 0 {
                    assert(body_of(steps) =~= body_of(steps.drop_last()));
                } else {
                    assert(end.frames.drop_last() =~= before.frames);
                }
            },
            _ => {},
        }
    }
    lemma_joined_front(end.frames, end.writer.next_write as nat);
    if limit >= 1 && end.at_rest() {
        law_stream_rest_is_the_end(end);
    }
}

/// The first pieces joined are the front of all of them joined.
proof fn lemma_joined_front(pieces: Seq<Bytes>, count: nat)
    requires
        count <= pieces.len(),
    ensures
        joined_pieces(pieces.take(count as int)).is_prefix_of(joined_pieces(pieces)),
    decreases pieces.len(),
{
    if count == pieces.len() {
        assert(pieces.take(count as int) =~= pieces);
    } else {
        let front = pieces.drop_last();
        lemma_joined_front(front, count);
        assert(front.take(count as int) =~= pieces.take(count as int));
        let part = joined_pieces(front.take(count as int));
        assert(part.len() <= joined_pieces(front).len());
        assert(part =~= joined_pieces(pieces).take(part.len() as int)) by {
            assert(part =~= joined_pieces(front).take(part.len() as int));
        }
    }
}

} // verus!
