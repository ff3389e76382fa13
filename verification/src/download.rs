//! A download as a whole, from its options and the answer to the probe to the bytes
//! on the output.

use crate::cli::{law_buffer_limit_is_positive, Cli, Mode};
use crate::dispatch::{
    after_steps, fetches, law_every_run_is_byte_exact, law_rest_is_the_end, Flow, FlowStep,
};
use crate::fetch::{
    after_all, all_retried, law_failures_within_the_budget_are_ridden_out, within_budget, Attempt,
    ChunkFetch, Verdict,
};
use crate::outcome::{combined, DownloadError};
use crate::plan::{lemma_chunk_count, ChunkPlan};
use crate::probe::{probe_result, total_in, Probe};
use crate::retry::RetryCfg;
use crate::status::{success_code, PARTIAL_CONTENT, RANGE_NOT_SATISFIABLE};
use crate::stream::{
    after_stream_steps, body_of, can_stream, law_every_stream_is_byte_exact,
    law_stream_rest_is_the_end, StreamFlow, StreamStep,
};
use crate::writer::{settled, ChunkMsg, OutputError, WriterOutcome, WriterState};
use vstd::prelude::*;

verus! {

/// The answer of a server to the probe.
pub struct Answer {
    pub code: u16,
    /// The bytes of its `Content-Range` value.
    pub content_range: Option<Seq<u8>>,
    pub content_length: Option<u64>,
}

impl Answer {
    /// Whether this answer tells of a resource with these bytes: the sizes that it
    /// gives are the size of the resource, and only a resource without bytes has no
    /// first byte to send.
    pub open spec fn tells_of(self, data: Seq<u8>) -> bool {
        if self.code == PARTIAL_CONTENT {
            self.content_range matches Some(value) ==> (total_in(value) matches Some(total) ==> total
                == data.len())
        } else if self.code == RANGE_NOT_SATISFIABLE {
            data.len() == 0
        } else {
            &&& success_code(self.code)
            &&& self.content_length matches Some(len) ==> len == data.len()
        }
    }

    /// What the probe learns from this answer.
    pub open spec fn probed(self) -> Option<Probe> {
        probe_result(self.code, self.content_range, self.content_length)
    }
}

/// How a download with these options goes on after this answer, if it does; a forced
/// single stream asks for none.
pub open spec fn planned(cli: Cli, answer: Answer) -> Option<Mode> {
    match cli.known_probe() {
        Some(probed) => Some(cli.chosen_mode(probed)),
        None => match answer.probed() {
            Some(probed) => Some(cli.chosen_mode(probed)),
            None => None,
        },
    }
}

/// What the network and the scheduler make of a download.
pub enum Run<P> {
    /// There was nothing to fetch.
    Nothing,
    /// The workers and the writer took these steps. Before a chunk came, given by its
    /// index, attempts at it failed: what each one came to, and how many milliseconds
    /// after the chunk was first asked for.
    Ranged { steps: Seq<FlowStep<P>>, failures: spec_fn(u64) -> Seq<(Attempt, u64)> },
    /// The reader and the writer made these moves, on a body that was announced with
    /// this length, if any.
    Stream { announced: Option<u64>, moves: Seq<StreamStep<P>> },
}

/// The start on a chunk of a plan.
pub open spec fn fetch_of(cfg: RetryCfg, plan: ChunkPlan, index: u64) -> ChunkFetch {
    let len = plan.chunk_stop(index as int) - plan.chunk_start(index as int);
    ChunkFetch { cfg, expected: len as u64, failures: 0, soft_failures: 0 }
}

/// Whether a chunk is asked for again after each of these failed attempts, and accepted
/// when all of its bytes come then.
pub open spec fn comes_through(fetch: ChunkFetch, history: Seq<(Attempt, u64)>) -> bool {
    &&& all_retried(fetch, history)
    &&& forall|elapsed_ms: u64, jitter: u64| #[trigger]
        after_all(fetch, history).verdict(
            Attempt::Body { len: fetch.expected },
            elapsed_ms,
            jitter,
        ) == Verdict::Accept
}

impl<P> Run<P> {
    /// Whether this is a whole run in this mode, with this retry policy and this many
    /// permits, against a server that sends the bytes of `data`: the attempts that fail
    /// before a chunk comes stay within its retry budget, a stream breaks off nowhere,
    /// and nobody can lead the run on.
    pub open spec fn downloads(self, mode: Mode, cfg: RetryCfg, limit: nat, data: Seq<u8>) -> bool {
        match (mode, self) {
            (Mode::Empty, Run::Nothing) => true,
            (Mode::Ranged { plan }, Run::Ranged { steps, failures }) => {
                let start = Flow::<P>::start(plan, limit);
                &&& fetches(start, steps, data)
                &&& after_steps(start, steps).at_rest()
                &&& forall|i: u64|
                    i < plan.num_chunks ==> within_budget(
                        cfg,
                        (#[trigger] fetch_of(cfg, plan, i)).expected,
                        failures(i),
                    )
            },
            (Mode::Single { .. }, Run::Stream { announced, moves }) => {
                let start = StreamFlow::<P>::start(announced, limit);
                &&& can_stream(start, moves)
                &&& body_of(moves) == data
                &&& announced matches Some(len) ==> len == data.len()
                &&& after_stream_steps(start, moves).at_rest()
            },
            _ => false,
        }
    }

    /// The writer at the end of this run.
    pub open spec fn writer(self, mode: Mode, limit: nat) -> WriterState<P> {
        match (mode, self) {
            (Mode::Ranged { plan }, Run::Ranged { steps, .. }) => after_steps(
                Flow::<P>::start(plan, limit),
                steps,
            ).writer,
            (Mode::Single { .. }, Run::Stream { announced, moves }) => after_stream_steps(
                StreamFlow::<P>::start(announced, limit),
                moves,
            ).writer,
            _ => WriterState::fresh(mode.to_write()),
        }
    }

    /// How the writer ends this run, over an output that takes every byte.
    pub open spec fn writer_result(self, mode: Mode, limit: nat) -> Result<WriterOutcome, String> {
        let end = self.writer(mode, limit);
        if end.expected is Some && !end.done() {
            Ok(WriterOutcome::Incomplete)
        } else {
            settled(Ok::<(), OutputError<String>>(()))
        }
    }

    /// Whether the producer of this run succeeds: no chunk is given up, and a stream
    /// comes to the length announced.
    pub open spec fn producer_succeeds(self, mode: Mode, cfg: RetryCfg, limit: nat) -> bool {
        match (mode, self) {
            (Mode::Ranged { plan }, Run::Ranged { failures, .. }) => forall|i: u64|
                i < plan.num_chunks ==> comes_through(
                    #[trigger] fetch_of(cfg, plan, i),
                    failures(i),
                ),
            (Mode::Single { .. }, Run::Stream { announced, moves }) => after_stream_steps(
                StreamFlow::<P>::start(announced, limit),
                moves,
            ).reader.stream.complete(),
            _ => true,
        }
    }
}

/// What the library is for: whatever the options, the order in which chunks and pieces
/// come, and the attempts that fail within the retry budget, a whole run against a server
/// that tells the truth puts exactly the bytes of the resource on the output, leaves
/// nothing behind, and ends in success.
pub proof fn law_output_is_the_resource<P>(cli: Cli, answer: Answer, run: Run<P>, data: Seq<u8>)
    requires
        cli.in_range(),
        cli.single || answer.tells_of(data),
        planned(cli, answer) matches Some(mode) && run.downloads(
            mode,
            cli.retry_policy(),
            cli.buffer_limit() as nat,
            data,
        ),
    ensures
        ({
            let mode = planned(cli, answer)->0;
            let end = run.writer(mode, cli.buffer_limit() as nat);
            &&& end.written == data
            &&& end.expected == mode.to_write()
            &&& end.pending == Map::<u64, ChunkMsg<P>>::empty()
            &&& run.producer_succeeds(mode, cli.retry_policy(), cli.buffer_limit() as nat)
            &&& run.writer_result(mode, cli.buffer_limit() as nat) == Ok::<WriterOutcome, String>(
                WriterOutcome::Complete,
            )
            &&& combined(
                Ok::<(), String>(()),
                run.writer_result(mode, cli.buffer_limit() as nat),
            ) == Ok::<(), DownloadError<String, String>>(())
        }),
{
    let mode = planned(cli, answer)->0;
    let cfg = cli.retry_policy();
    let limit = cli.buffer_limit() as nat;
    law_buffer_limit_is_positive(cli);
    match (mode, run) {
        (Mode::Ranged { plan }, Run::Ranged { steps, failures }) => {
            lemma_chunk_count(plan.total as int, plan.chunk_size as int);
            law_every_run_is_byte_exact(plan, limit, steps, data);
            law_rest_is_the_end(after_steps(Flow::<P>::start(plan, limit), steps));
            assert forall|i: u64| i < plan.num_chunks implies comes_through(
                #[trigger] fetch_of(cfg, plan, i),
                failures(i),
            ) by {
                let fetch = fetch_of(cfg, plan, i);
                law_failures_within_the_budget_are_ridden_out(
                    cfg,
                    fetch.expected,
                    failures(i),
                    0,
                    0,
                );
                assert forall|elapsed_ms: u64, jitter: u64| #[trigger]
                    after_all(fetch, failures(i)).verdict(
                        Attempt::Body { len: fetch.expected },
                        elapsed_ms,
                        jitter,
                    ) == Verdict::Accept by {
                    law_failures_within_the_budget_are_ridden_out(
                        cfg,
                        fetch.expected,
                        failures(i),
                        elapsed_ms,
                        jitter,
                    );
                }
            }
        },
        (Mode::Single { .. }, Run::Stream { announced, moves }) => {
            law_every_stream_is_byte_exact(announced, limit, moves);
            law_stream_rest_is_the_end(
                after_stream_steps(StreamFlow::<P>::start(announced, limit), moves),
            );
        },
        _ => {
            assert(data =~= Seq::empty());
        },
    }
}

/// The number of connections, the chunk size, the chunk budget, the HTTP version and
/// the choice between ranges and one stream only change how the bytes come: two whole
/// downloads of a resource put the same bytes on the output.
pub proof fn law_options_do_not_change_the_output<P>(
    cli: Cli,
    answer: Answer,
    run: Run<P>,
    other_cli: Cli,
    other_answer: Answer,
    other_run: Run<P>,
    data: Seq<u8>,
)
    requires
        cli.in_range(),
        other_cli.in_range(),
        cli.single || answer.tells_of(data),
        other_cli.single || other_answer.tells_of(data),
        planned(cli, answer) matches Some(mode) && run.downloads(
            mode,
            cli.retry_policy(),
            cli.buffer_limit() as nat,
            data,
        ),
        planned(other_cli, other_answer) matches Some(mode) && other_run.downloads(
            mode,
            other_cli.retry_policy(),
            other_cli.buffer_limit() as nat,
            data,
        ),
    ensures
        run.writer(planned(cli, answer)->0, cli.buffer_limit() as nat).written == other_run.writer(
            planned(other_cli, other_answer)->0,
            other_cli.buffer_limit() as nat,
        ).written,
{
    law_output_is_the_resource(cli, answer, run, data);
    law_output_is_the_resource(other_cli, other_answer, other_run, data);
}

} // verus!
