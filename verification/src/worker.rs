//! One worker of a ranged download, from permit to permit.

use crate::dispatch::{Dispatcher, Job};
use crate::text::{decimal, push_decimal};
use vstd::prelude::*;
use vstd::string::*;

verus! {

/// What a worker is waiting for.
#[derive(Debug, Clone, Copy)]
pub enum Phase {
    /// For a permit. It is taken before a chunk is claimed, so memory stays
    /// bounded.
    Permit,
    /// For the bytes of a chunk.
    Fetch(Job),
    /// For the writer to take the chunk over.
    Send(Job),
    /// For nothing any more.
    Stopped,
}

/// What happened to a worker.
#[derive(Debug)]
pub enum Event {
    /// The run was cancelled, by a broken output pipe or an error elsewhere.
    Cancelled,
    /// A permit was taken.
    Permitted,
    /// There will be no more permits.
    Closed,
    /// All bytes of the chunk came.
    Fetched,
    /// The chunk could not be had; `cancelled` says whether the run was cancelled
    /// meanwhile.
    Failed { cancelled: bool, cause: String },
    /// The writer took the chunk over.
    Sent,
    /// There is no writer any more.
    WriterGone,
}

/// What a worker does next.
#[derive(Debug)]
pub enum Action {
    /// Wait for a permit.
    Acquire,
    /// Fetch a chunk.
    Fetch(Job),
    /// Hand the fetched chunk to the writer, with its permit.
    Send(Job),
    /// Stop without an error.
    Stop,
    /// Cancel the run and stop with this error.
    Fail { message: String },
}

/// One worker.
#[derive(Debug, Clone, Copy)]
pub struct Worker {
    pub id: u32,
    pub phase: Phase,
}

/// The message for a chunk that could not be had.
pub open spec fn failure_text(id: u32, job: Job, cause: Seq<char>) -> Seq<char> {
    "worker "@ + decimal(id as nat) + ": chunk "@ + decimal(job.index as nat) + " (bytes "@
        + decimal(job.start as nat) + "-"@ + decimal(job.end as nat) + ") failed: "@ + cause
}

/// The message for a chunk that could not be had.
fn failure_message(id: u32, job: &Job, cause: &str) -> (r: String)
    ensures
        r@ == failure_text(id, *job, cause@),
{
    let mut out = String::new();
    out.append("worker ");
    push_decimal(&mut out, id as u64);
    out.append(": chunk ");
    push_decimal(&mut out, job.index);
    out.append(" (bytes ");
    push_decimal(&mut out, job.start);
    out.append("-");
    push_decimal(&mut out, job.end);
    out.append(") failed: ");
    out.append(cause);
    assert(out@ =~= failure_text(id, *job, cause@));
    out
}

impl Worker {
    /// Whether an event can happen in the phase that the worker is in.
    pub open spec fn takes(self, event: Event) -> bool {
        match self.phase {
            Phase::Permit => event is Cancelled || event is Permitted || event is Closed,
            Phase::Fetch(_) => event is Cancelled || event is Fetched || event is Failed,
            Phase::Send(_) => event is Sent || event is WriterGone,
            Phase::Stopped => false,
        }
    }

    /// The worker after an event, with the dispatcher as it was before.
    pub open spec fn after(self, event: Event, dispatcher: Dispatcher) -> Self {
        Worker {
            phase: match event {
                Event::Permitted => if dispatcher.next < dispatcher.plan.num_chunks {
                    Phase::Fetch(dispatcher.next_job())
                } else {
                    Phase::Stopped
                },
                Event::Fetched => Phase::Send(self.phase->Fetch_0),
                Event::Sent => Phase::Permit,
                _ => Phase::Stopped,
            },
            ..self
        }
    }

    /// Whether this is what the worker does next after an event.
    pub open spec fn acts(self, event: Event, dispatcher: Dispatcher, action: Action) -> bool {
        match event {
            Event::Permitted => if dispatcher.next < dispatcher.plan.num_chunks {
                action == Action::Fetch(dispatcher.next_job())
            } else {
                action is Stop
            },
            Event::Fetched => action == Action::Send(self.phase->Fetch_0),
            Event::Sent => action is Acquire,
            Event::Failed { cancelled, cause } => if cancelled {
                action is Stop
            } else {
                action matches Action::Fail { message } && message@ == failure_text(
                    self.id,
                    self.phase->Fetch_0,
                    cause@,
                )
            },
            _ => action is Stop,
        }
    }

    pub fn new(id: u32) -> (worker: Self)
        ensures
            worker == (Worker { id, phase: Phase::Permit }),
    {
        Worker { id, phase: Phase::Permit }
    }

    /// Whether an event can happen in the phase that the worker is in.
    pub fn can_take(&self, event: &Event) -> (r: bool)
        ensures
            r == self.takes(*event),
    {
        match (self.phase, event) {
            (Phase::Permit, Event::Cancelled) => true,
            (Phase::Permit, Event::Permitted) => true,
            (Phase::Permit, Event::Closed) => true,
            (Phase::Fetch(_), Event::Cancelled) => true,
            (Phase::Fetch(_), Event::Fetched) => true,
            (Phase::Fetch(_), Event::Failed { .. }) => true,
            (Phase::Send(_), Event::Sent) => true,
            (Phase::Send(_), Event::WriterGone) => true,
            _ => false,
        }
    }

    /// Go on after an event. A permit leads to the next chunk of the dispatcher,
    /// and to the end when there is none. A failure ends the worker with an error,
    /// unless the run was cancelled, which is what then caused it.
    pub fn step(&mut self, event: Event, dispatcher: &mut Dispatcher) -> (action: Action)
        requires
            old(self).takes(event),
            old(dispatcher).wf(),
        ensures
            final(dispatcher).wf(),
            final(self).id == old(self).id,
            *final(self) == old(self).after(event, *old(dispatcher)),
            old(self).acts(event, *old(dispatcher), action),
            // Only a permit claims a chunk.
            !(event is Permitted) ==> *final(dispatcher) == *old(dispatcher),
            match event {
                Event::Permitted => if old(dispatcher).next < old(dispatcher).plan.num_chunks {
                    &&& *final(dispatcher) == old(dispatcher).claimed()
                    &&& action == Action::Fetch(old(dispatcher).next_job())
                    &&& final(self).phase == Phase::Fetch(old(dispatcher).next_job())
                } else {
                    &&& *final(dispatcher) == *old(dispatcher)
                    &&& action is Stop
                    &&& final(self).phase is Stopped
                },
                Event::Fetched => {
                    &&& action == Action::Send(old(self).phase->Fetch_0)
                    &&& final(self).phase == Phase::Send(old(self).phase->Fetch_0)
                },
                Event::Sent => action is Acquire && final(self).phase is Permit,
                Event::Failed { cancelled, cause } => {
                    &&& final(self).phase is Stopped
                    &&& cancelled ==> action is Stop
                    &&& !cancelled ==> (action matches Action::Fail { message } && message@
                        == failure_text(old(self).id, old(self).phase->Fetch_0, cause@))
                },
                _ => action is Stop && final(self).phase is Stopped,
            },
    {
        match (self.phase, event) {
            (Phase::Permit, Event::Permitted) => match dispatcher.claim() {
                Some(job) => {
                    self.phase = Phase::Fetch(job);
                    Action::Fetch(job)
                },
                None => {
                    self.phase = Phase::Stopped;
                    Action::Stop
                },
            },
            (Phase::Fetch(job), Event::Fetched) => {
                self.phase = Phase::Send(job);
                Action::Send(job)
            },
            (Phase::Fetch(job), Event::Failed { cancelled, cause }) => {
                self.phase = Phase::Stopped;
                if cancelled {
                    Action::Stop
                } else {
                    Action::Fail { message: failure_message(self.id, &job, cause.as_str()) }
                }
            },
            (Phase::Send(_), Event::Sent) => {
                self.phase = Phase::Permit;
                Action::Acquire
            },
            _ => {
                self.phase = Phase::Stopped;
                Action::Stop
            },
        }
    }
}

/// What a worker can meet: while it waits for a permit, the permit, the end of permits and a
/// cancelled run; while it fetches, success, failure and a cancelled run; while it hands a
/// chunk over, success or a writer that is gone; and nothing once it stopped.
pub proof fn law_worker_takes_what_can_happen(worker: Worker, event: Event)
    ensures
        worker.phase is Permit ==> (worker.takes(event) <==> event is Permitted || event is Closed
            || event is Cancelled),
        worker.phase is Fetch ==> (worker.takes(event) <==> event is Fetched || event is Failed
            || event is Cancelled),
        worker.phase is Send ==> (worker.takes(event) <==> event is Sent || event is WriterGone),
        worker.phase is Stopped ==> !worker.takes(event),
{
}

/// The round of a worker: with a permit it claims the chunk whose turn it is, hands over just
/// that chunk once its bytes came, and waits for the next permit. Where no chunk is left, it
/// stops.
pub proof fn law_worker_goes_its_round(worker: Worker, dispatcher: Dispatcher)
    requires
        worker.phase is Permit,
    ensures
        ({
            let fetching = worker.after(Event::Permitted, dispatcher);
            let sending = fetching.after(Event::Fetched, dispatcher);
            let waiting = sending.after(Event::Sent, dispatcher);
            &&& dispatcher.next < dispatcher.plan.num_chunks ==> fetching.phase == Phase::Fetch(
                dispatcher.next_job(),
            ) && sending.phase == Phase::Send(dispatcher.next_job()) && waiting == worker
            &&& dispatcher.next >= dispatcher.plan.num_chunks ==> fetching.phase is Stopped
            &&& fetching.id == worker.id
        }),
{
}

/// Whatever else happens stops a worker: a cancelled run, the end of permits, a chunk that
/// cannot be had, a writer that is gone.
pub proof fn law_worker_stops_on_anything_else(
    worker: Worker,
    event: Event,
    dispatcher: Dispatcher,
)
    requires
        event is Cancelled || event is Closed || event is Failed || event is WriterGone,
    ensures
        worker.after(event, dispatcher).phase is Stopped,
        worker.after(event, dispatcher).id == worker.id,
{
}

/// A worker fails exactly where its chunk could not be had while nobody had cancelled the run,
/// and names itself, the chunk, its bytes and the cause. In all else it does what its next
/// phase asks for, and stops without an error.
pub proof fn law_worker_fails_only_on_a_lost_chunk(
    worker: Worker,
    event: Event,
    dispatcher: Dispatcher,
    action: Action,
)
    requires
        worker.takes(event),
        worker.acts(event, dispatcher, action),
    ensures
        action is Fail <==> (event matches Event::Failed { cancelled, .. } && !cancelled),
        action matches Action::Fail { message } ==> message@ == "worker "@ + decimal(
            worker.id as nat,
        ) + ": chunk "@ + decimal(worker.phase->Fetch_0.index as nat) + " (bytes "@ + decimal(
            worker.phase->Fetch_0.start as nat,
        ) + "-"@ + decimal(worker.phase->Fetch_0.end as nat) + ") failed: "@
            + event->Failed_cause@,
        action is Fetch <==> event is Permitted && dispatcher.next < dispatcher.plan.num_chunks,
        action matches Action::Fetch(job) ==> job == dispatcher.next_job(),
        action is Send <==> event is Fetched,
        action matches Action::Send(job) ==> worker.phase == Phase::Fetch(job),
        action is Acquire <==> event is Sent,
{
}

} // verus!
