//! Handing out chunks to workers, and what the buffer permits guarantee.
//!
//! A worker takes a permit before it claims a chunk, and the permit rides along
//! with the chunk until it is written. That single rule bounds memory and,
//! because chunks are claimed in increasing order, guarantees that the next chunk
//! to write is always already in flight, so reassembly never deadlocks.

use crate::plan::{joined_slices, law_chunk_bounds, law_join_is_identity, law_joined_prefix, ChunkPlan};
use crate::writer::{contents, ChunkMsg, WriterState};
use vstd::prelude::*;

verus! {

/// A chunk that a worker has to fetch.
#[derive(Debug, Clone, Copy)]
pub struct Job {
    pub index: u64,
    /// First byte.
    pub start: u64,
    /// Last byte.
    pub end: u64,
    /// Number of bytes.
    pub len: u64,
}

/// Hands out the chunks of a plan in increasing order, each one once.
#[derive(Debug, Clone, Copy)]
pub struct Dispatcher {
    pub plan: ChunkPlan,
    /// Index of the next chunk to hand out.
    pub next: u64,
}

impl Dispatcher {
    pub open spec fn wf(self) -> bool {
        self.plan.wf() && self.next <= self.plan.num_chunks
    }

    /// The state after the next chunk was handed out.
    pub open spec fn claimed(self) -> Self {
        Dispatcher { next: (self.next + 1) as u64, ..self }
    }

    /// The chunk that is handed out next.
    pub open spec fn next_job(self) -> Job {
        let index = self.next as int;
        Job {
            index: self.next,
            start: self.plan.chunk_start(index) as u64,
            end: (self.plan.chunk_stop(index) - 1) as u64,
            len: (self.plan.chunk_stop(index) - self.plan.chunk_start(index)) as u64,
        }
    }

    pub fn new(plan: ChunkPlan) -> (dispatcher: Self)
        requires
            plan.wf(),
        ensures
            dispatcher == (Dispatcher { plan, next: 0 }),
            dispatcher.wf(),
    {
        Dispatcher { plan, next: 0 }
    }

    /// Hand out the next chunk, or nothing once every chunk is handed out.
    pub fn claim(&mut self) -> (job: Option<Job>)
        requires
            old(self).wf(),
        ensures
            final(self).wf(),
            old(self).next < old(self).plan.num_chunks ==> {
                &&& job == Some(old(self).next_job())
                &&& *final(self) == old(self).claimed()
            },
            old(self).next >= old(self).plan.num_chunks ==> job is None && *final(self)
                == *old(self),
    {
        if self.next >= self.plan.num_chunks {
            return None;
        }
        let index: u64 = self.next;
        let (start, end) = self.plan.range(index);
        let len: u64 = self.plan.len(index);
        self.next = index + 1;
        Some(Job { index, start, end, len })
    }
}

/// The chunk that is handed out next covers its part of the plan, which is at
/// least one byte and at most a whole chunk.
pub proof fn law_jobs_are_the_chunks(dispatcher: Dispatcher)
    requires
        dispatcher.wf(),
        dispatcher.next < dispatcher.plan.num_chunks,
    ensures
        ({
            let job = dispatcher.next_job();
            let index = dispatcher.next as int;
            &&& job.start == dispatcher.plan.chunk_start(index)
            &&& job.end + 1 == dispatcher.plan.chunk_stop(index)
            &&& job.len == job.end - job.start + 1
            &&& 1 <= job.len <= dispatcher.plan.chunk_size
        }),
{
    law_chunk_bounds(dispatcher.plan, dispatcher.next as int);
}

/// The failure that is kept when another result comes in.
pub open spec fn kept_failure<E>(first: Option<E>, result: Result<(), E>) -> Option<E> {
    match (first, result) {
        (Some(e), _) => Some(e),
        (None, Err(e)) => Some(e),
        (None, Ok(_)) => None,
    }
}

/// Whether the result of one worker cancels the others.
pub open spec fn cancels<E>(result: Result<(), E>) -> bool {
    result is Err
}

/// The result of all workers together, by the failure that was kept.
pub open spec fn reported<E>(first: Option<E>) -> Result<(), E> {
    match first {
        Some(e) => Err(e),
        None => Ok(()),
    }
}

/// The first failure among the results of the workers.
#[derive(Debug)]
pub struct FirstFailure<E> {
    pub first: Option<E>,
}

impl<E> FirstFailure<E> {
    pub fn new() -> (r: Self)
        ensures
            r.first is None,
    {
        FirstFailure { first: None }
    }

    /// Take in the result of one worker, and say whether the others are to be
    /// cancelled.
    pub fn record(&mut self, result: Result<(), E>) -> (cancel: bool)
        ensures
            cancel == cancels(result),
            cancel == (result is Err),
            final(self).first == kept_failure(old(self).first, result),
            final(self).first == (match (old(self).first, result) {
                (Some(e), _) => Some(e),
                (None, Err(e)) => Some(e),
                (None, Ok(_)) => None,
            }),
    {
        match result {
            Ok(_) => false,
            Err(e) => {
                if self.first.is_none() {
                    self.first = Some(e);
                }
                true
            },
        }
    }

    /// The result of all workers together.
    pub fn into_result(self) -> (r: Result<(), E>)
        ensures
            r == reported(self.first),
            r == (match self.first {
                Some(e) => Err::<(), E>(e),
                None => Ok(()),
            }),
    {
        match self.first {
            Some(e) => Err(e),
            None => Ok(()),
        }
    }
}

/// A ranged download as a whole: the permits, the chunks that workers are
/// fetching, and the writer.
#[verifier::ext_equal]
pub struct Flow<P> {
    /// Number of permits.
    pub limit: nat,
    /// Permits held by workers that have not claimed a chunk yet.
    pub idle: nat,
    pub dispatcher: Dispatcher,
    /// Chunks claimed and not yet handed to the writer.
    pub in_flight: Set<u64>,
    pub writer: WriterState<P>,
}

/// One step of a ranged download.
pub enum FlowStep<P> {
    /// A worker takes a permit.
    Acquire,
    /// A worker with a permit claims a chunk.
    Claim,
    /// A worker with a permit finds no chunk left and gives the permit back.
    Retire,
    /// A fetched chunk is handed to the writer, with its permit.
    Deliver(ChunkMsg<P>),
    /// The writer writes the next chunk and gives its permit back.
    Write,
}

impl<P> Flow<P> {
    /// The start of a download.
    pub open spec fn start(plan: ChunkPlan, limit: nat) -> Self {
        Flow {
            limit,
            idle: 0,
            dispatcher: Dispatcher { plan, next: 0 },
            in_flight: Set::empty(),
            writer: WriterState::fresh(Some(plan.num_chunks)),
        }
    }

    /// Permits that are taken.
    pub open spec fn permits_held(self) -> nat {
        self.idle + self.in_flight.len() + self.writer.pending.dom().len()
    }

    /// Whether a step can be taken.
    pub open spec fn enabled(self, step: FlowStep<P>) -> bool {
        match step {
            FlowStep::Acquire => self.permits_held() < self.limit,
            FlowStep::Claim => self.idle > 0 && self.dispatcher.next
                < self.dispatcher.plan.num_chunks,
            FlowStep::Retire => self.idle > 0 && self.dispatcher.next
                >= self.dispatcher.plan.num_chunks,
            FlowStep::Deliver(msg) => self.in_flight.contains(msg.index),
            FlowStep::Write => !self.writer.done() && self.writer.ready(),
        }
    }

    /// The state after a step.
    pub open spec fn after(self, step: FlowStep<P>) -> Self {
        match step {
            FlowStep::Acquire => Flow { idle: self.idle + 1, ..self },
            FlowStep::Claim => Flow {
                idle: (self.idle - 1) as nat,
                dispatcher: self.dispatcher.claimed(),
                in_flight: self.in_flight.insert(self.dispatcher.next),
                ..self
            },
            FlowStep::Retire => Flow { idle: (self.idle - 1) as nat, ..self },
            FlowStep::Deliver(msg) => Flow {
                in_flight: self.in_flight.remove(msg.index),
                writer: self.writer.received(msg),
                ..self
            },
            FlowStep::Write => Flow {
                writer: self.writer.taken().wrote(
                    contents(self.writer.pending[self.writer.next_write].bytes),
                ),
                ..self
            },
        }
    }

    /// Whether nobody can lead the download on: no chunk is being fetched, no worker
    /// has a permit for a chunk that is left or can take one, and the writer has
    /// nothing to write.
    pub open spec fn at_rest(self) -> bool {
        &&& self.in_flight.is_empty()
        &&& !self.enabled(FlowStep::Claim)
        &&& !self.enabled(FlowStep::Write)
        &&& self.dispatcher.next < self.dispatcher.plan.num_chunks ==> !self.enabled(
            FlowStep::Acquire,
        )
    }

    /// What every step keeps: the live chunks, in flight or buffered, are exactly
    /// those claimed and not yet written, each one once, and each one holds a
    /// permit.
    pub open spec fn inv(self) -> bool {
        &&& self.dispatcher.wf()
        &&& self.writer.wf()
        &&& self.writer.expected == Some(self.dispatcher.plan.num_chunks)
        &&& self.writer.next_write <= self.dispatcher.next
        &&& self.in_flight.finite()
        &&& self.writer.pending.dom().finite()
        &&& forall|i: u64|
            self.writer.next_write <= i < self.dispatcher.next <==> (#[trigger] self.in_flight.contains(
                i,
            ) || self.writer.pending.contains_key(i))
        &&& forall|i: u64|
            !(#[trigger] self.in_flight.contains(i) && self.writer.pending.contains_key(i))
        &&& self.in_flight.len() + self.writer.pending.dom().len() == self.dispatcher.next
            - self.writer.next_write
        &&& self.permits_held() <= self.limit
    }

    /// Every chunk that was handed to the writer holds its part of `file`, and
    /// what was written is the front of `file`.
    pub open spec fn carries(self, file: Seq<u8>) -> bool {
        let plan = self.dispatcher.plan;
        &&& file.len() == plan.total
        &&& forall|i: u64| #[trigger]
            self.writer.pending.contains_key(i) ==> contents(self.writer.pending[i].bytes)
                == plan.slice(file, i as int)
        &&& self.writer.written == joined_slices(plan, file, self.writer.next_write as nat)
    }
}

/// A download starts with the invariant in place.
pub proof fn law_flow_starts<P>(plan: ChunkPlan, limit: nat)
    requires
        plan.wf(),
    ensures
        Flow::<P>::start(plan, limit).inv(),
{
}

/// Every step keeps the invariant.
pub proof fn law_flow_step_keeps_invariant<P>(flow: Flow<P>, step: FlowStep<P>)
    requires
        flow.inv(),
        flow.enabled(step),
    ensures
        flow.after(step).inv(),
{
    let next = flow.after(step);
    match step {
        FlowStep::Claim => {
            assert(!flow.in_flight.contains(flow.dispatcher.next));
        },
        FlowStep::Deliver(msg) => {
            assert(!flow.writer.pending.contains_key(msg.index));
            assert(next.writer.pending.dom() =~= flow.writer.pending.dom().insert(msg.index));
        },
        FlowStep::Write => {
            let w = flow.writer.next_write;
            assert(!flow.in_flight.contains(w));
            assert(next.writer.pending.dom() =~= flow.writer.pending.dom().remove(w));
            assert forall|i: u64|
                next.writer.next_write <= i < next.dispatcher.next <==> (
                #[trigger] next.in_flight.contains(i) || next.writer.pending.contains_key(i)) by {
                assert(next.in_flight.contains(i) == flow.in_flight.contains(i));
            }
            assert forall|i: u64|
                !(#[trigger] next.in_flight.contains(i) && next.writer.pending.contains_key(i)) by {
                assert(next.in_flight.contains(i) == flow.in_flight.contains(i));
            }
        },
        _ => {},
    }
}

/// Memory is bounded: the live chunks never outnumber the permits, and together
/// they cover at most `limit * chunk_size` bytes of the file.
pub proof fn law_memory_is_bounded<P>(flow: Flow<P>)
    requires
        flow.inv(),
    ensures
        flow.in_flight.len() + flow.writer.pending.dom().len() <= flow.limit,
        flow.writer.next_write < flow.dispatcher.next ==> flow.dispatcher.plan.chunk_stop(
            flow.dispatcher.next - 1,
        ) - flow.dispatcher.plan.chunk_start(flow.writer.next_write as int) <= flow.limit
            * flow.dispatcher.plan.chunk_size,
{
    let plan = flow.dispatcher.plan;
    let lo = flow.writer.next_write as int;
    let hi = flow.dispatcher.next as int;
    let size = plan.chunk_size as int;
    if lo < hi {
        law_chunk_bounds(plan, hi - 1);
        vstd::arithmetic::mul::lemma_mul_is_distributive_sub_other_way(size, hi, lo);
        vstd::arithmetic::mul::lemma_mul_inequality(hi - lo, flow.limit as int, size);
    }
}

/// Reassembly never deadlocks. While anything is live, the next chunk to write
/// is in flight or at hand; and with at least one permit, as long as not
/// everything is written, some step that leads on can be taken.
pub proof fn law_no_deadlock<P>(flow: Flow<P>)
    requires
        flow.inv(),
        flow.limit >= 1,
        !flow.writer.done(),
    ensures
        flow.writer.next_write < flow.dispatcher.next ==> flow.in_flight.contains(
            flow.writer.next_write,
        ) || flow.enabled(FlowStep::Write),
        flow.in_flight.contains(flow.writer.next_write) || flow.enabled(FlowStep::Write)
            || flow.enabled(FlowStep::Claim) || flow.enabled(FlowStep::Acquire),
{
    let w = flow.writer.next_write;
    if w < flow.dispatcher.next {
        assert(flow.in_flight.contains(w) || flow.writer.pending.contains_key(w));
    }
}

/// How far a download has come: each chunk counts when it is claimed, when it is
/// handed to the writer, and when it is written.
pub open spec fn distance<P>(flow: Flow<P>) -> int {
    flow.dispatcher.next + (flow.dispatcher.next - flow.in_flight.len()) + flow.writer.next_write
}

/// Every claim, delivery and write brings the download on by one, nothing takes it
/// back, and after three steps for each chunk it has arrived.
pub proof fn law_download_comes_to_an_end<P>(flow: Flow<P>, step: FlowStep<P>)
    requires
        flow.inv(),
        flow.enabled(step),
    ensures
        distance(flow.after(step)) == distance(flow) + (match step {
            FlowStep::Acquire => 0int,
            FlowStep::Retire => 0,
            _ => 1,
        }),
        distance(flow.after(step)) <= 3 * flow.dispatcher.plan.num_chunks,
        distance(flow) == 3 * flow.dispatcher.plan.num_chunks ==> flow.writer.done(),
{
    law_flow_step_keeps_invariant(flow, step);
    if step is Claim {
        assert(!flow.in_flight.contains(flow.dispatcher.next));
    }
}

/// Once every chunk was claimed and handed to the writer, the writer can go on
/// to the end without waiting.
pub proof fn law_all_delivered_is_all_written<P>(flow: Flow<P>)
    requires
        flow.inv(),
        flow.dispatcher.next == flow.dispatcher.plan.num_chunks,
        flow.in_flight.is_empty(),
    ensures
        flow.writer.done() || flow.enabled(FlowStep::Write),
{
    let w = flow.writer.next_write;
    if w < flow.dispatcher.next {
        assert(flow.in_flight.contains(w) || flow.writer.pending.contains_key(w));
    }
}

/// A download comes to rest only when everything is written, and then no chunk is
/// left in the buffer.
pub proof fn law_rest_is_the_end<P>(flow: Flow<P>)
    requires
        flow.inv(),
        flow.limit >= 1,
        flow.at_rest(),
    ensures
        flow.writer.done(),
        flow.writer.pending == Map::<u64, ChunkMsg<P>>::empty(),
{
    if !flow.writer.done() {
        law_no_deadlock(flow);
        law_all_delivered_is_all_written(flow);
    }
    assert(flow.writer.pending =~= Map::empty()) by {
        assert forall|i: u64| !flow.writer.pending.contains_key(i) by {
            assert(!flow.in_flight.contains(i));
        }
    }
}

/// The output is the front of the file at every moment, in whatever order the
/// chunks arrive, as long as each one holds its own part of the file.
pub proof fn law_output_is_front_of_file<P>(flow: Flow<P>, step: FlowStep<P>, file: Seq<u8>)
    requires
        flow.inv(),
        flow.carries(file),
        flow.enabled(step),
        step matches FlowStep::Deliver(msg) ==> contents(msg.bytes)
            == flow.dispatcher.plan.slice(file, msg.index as int),
    ensures
        flow.after(step).carries(file),
        flow.after(step).writer.written.is_prefix_of(file),
{
    let next = flow.after(step);
    law_flow_step_keeps_invariant(flow, step);
    let plan = flow.dispatcher.plan;
    if step is Write {
        assert(next.writer.written =~= joined_slices(plan, file, next.writer.next_write as nat));
    }
    let n = next.writer.next_write as nat;
    law_joined_prefix(plan, file, n);
    if n > 0 {
        law_chunk_bounds(plan, n - 1);
    }
}

/// When the writer is done, the output is the file, byte for byte.
pub proof fn law_output_is_the_file<P>(flow: Flow<P>, file: Seq<u8>)
    requires
        flow.inv(),
        flow.carries(file),
        flow.writer.done(),
    ensures
        flow.writer.written == file,
{
    law_join_is_identity(flow.dispatcher.plan, file);
}

/// The state after a run of steps.
pub open spec fn after_steps<P>(flow: Flow<P>, steps: Seq<FlowStep<P>>) -> Flow<P>
    decreases steps.len(),
{
    if steps.len() == 0 {
        flow
    } else {
        after_steps(flow, steps.drop_last()).after(steps.last())
    }
}

/// Whether each step of a run can be taken in its turn, and each chunk handed to
/// the writer holds its own part of `file`.
pub open spec fn fetches<P>(flow: Flow<P>, steps: Seq<FlowStep<P>>, file: Seq<u8>) -> bool
    decreases steps.len(),
{
    steps.len() == 0 || {
        &&& fetches(flow, steps.drop_last(), file)
        &&& after_steps(flow, steps.drop_last()).enabled(steps.last())
        &&& steps.last() matches FlowStep::Deliver(msg) ==> contents(msg.bytes)
            == flow.dispatcher.plan.slice(file, msg.index as int)
    }
}

/// Whatever the steps of a download and the order in which its chunks arrive, the
/// output is the front of the file, and the whole file once the writer is done;
/// and at no time are there more live chunks than permits.
pub proof fn law_every_run_is_byte_exact<P>(
    plan: ChunkPlan,
    limit: nat,
    steps: Seq<FlowStep<P>>,
    file: Seq<u8>,
)
    requires
        plan.wf(),
        file.len() == plan.total,
        fetches(Flow::<P>::start(plan, limit), steps, file),
    ensures
        ({
            let end = after_steps(Flow::<P>::start(plan, limit), steps);
            &&& end.inv()
            &&& end.carries(file)
            &&& end.dispatcher.plan == plan
            &&& end.limit == limit
            &&& end.writer.written.is_prefix_of(file)
            &&& end.writer.done() ==> end.writer.written == file
            &&& end.in_flight.len() + end.writer.pending.dom().len() <= limit
        }),
    decreases steps.len(),
{
    let start = Flow::<P>::start(plan, limit);
    if steps.len() == 0 {
        law_flow_starts::<P>(plan, limit);
        assert(start.writer.written.is_prefix_of(file));
    } else {
        law_every_run_is_byte_exact(plan, limit, steps.drop_last(), file);
        let before = after_steps(start, steps.drop_last());
        law_flow_step_keeps_invariant(before, steps.last());
        law_output_is_front_of_file(before, steps.last(), file);
    }
    let end = after_steps(start, steps);
    if end.writer.done() {
        law_output_is_the_file(end, file);
    }
}

/// The chunk that is handed out next is the one whose turn it is, with its own bytes, and the
/// one after it comes then.
pub proof fn law_chunks_are_handed_out_in_order(dispatcher: Dispatcher)
    requires
        dispatcher.wf(),
        dispatcher.next < dispatcher.plan.num_chunks,
    ensures
        dispatcher.next_job().index == dispatcher.next,
        dispatcher.next_job().start == dispatcher.next * dispatcher.plan.chunk_size,
        dispatcher.next_job().end < dispatcher.plan.total,
        dispatcher.next_job().end + 1 == dispatcher.plan.total || dispatcher.next_job().end + 1
            == dispatcher.next_job().start + dispatcher.plan.chunk_size,
        dispatcher.claimed().next == dispatcher.next + 1,
        dispatcher.claimed().plan == dispatcher.plan,
        dispatcher.claimed().wf(),
{
    let plan = dispatcher.plan;
    law_chunk_bounds(plan, dispatcher.next as int);
    vstd::arithmetic::mul::lemma_mul_is_distributive_add_other_way(
        plan.chunk_size as int,
        dispatcher.next as int,
        1,
    );
}

/// The failure that is kept after results came in one by one.
pub open spec fn after_results<E>(first: Option<E>, results: Seq<Result<(), E>>) -> Option<E>
    decreases results.len(),
{
    if results.len() == 0 {
        first
    } else {
        kept_failure(after_results(first, results.drop_last()), results.last())
    }
}

/// Of all the workers the first failure is reported, whatever comes after it, and none where
/// every worker succeeded.
pub proof fn law_first_failure_is_kept<E>(results: Seq<Result<(), E>>, at: int)
    ensures
        (forall|i: int| 0 <= i < results.len() ==> (#[trigger] results[i]) is Ok) ==> after_results(
            None,
            results,
        ) is None,
        0 <= at < results.len() && (forall|i: int| 0 <= i < at ==> (#[trigger] results[i]) is Ok) ==> (
        results[at] matches Err(e) ==> after_results(None, results) == Some(e)),
    decreases results.len(),
{
    if results.len() > 0 {
        let front = results.drop_last();
        law_first_failure_is_kept(front, at);
        assert(forall|i: int| 0 <= i < front.len() ==> front[i] == #[trigger] results[i]);
        assert(results.last() == results[results.len() - 1]);
        if 0 <= at < results.len() && (forall|i: int| 0 <= i < at ==> (#[trigger] results[i]) is Ok) {
            if at < front.len() {
                assert(front[at] == results[at]);
                assert forall|i: int| 0 <= i < at implies (#[trigger] front[i]) is Ok by {
                    assert(front[i] == results[i]);
                }
            } else {
                assert forall|i: int| 0 <= i < front.len() implies (#[trigger] front[i]) is Ok by {
                    assert(front[i] == results[i]);
                }
            }
        }
        if forall|i: int| 0 <= i < results.len() ==> (#[trigger] results[i]) is Ok {
            assert forall|i: int| 0 <= i < front.len() implies (#[trigger] front[i]) is Ok by {
                assert(front[i] == results[i]);
            }
        }
    }
}

/// Any failure cancels the other workers, and success does not; what is reported is the
/// failure kept, or success where none is.
pub proof fn law_failures_cancel_and_are_reported<E>(e: E)
    ensures
        cancels(Err::<(), E>(e)),
        !cancels(Ok::<(), E>(())),
        reported(Some(e)) == Err::<(), E>(e),
        reported(None::<E>) == Ok::<(), E>(()),
{
}

} // verus!
