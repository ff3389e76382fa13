//! What to do after each attempt at a chunk: take it, try again, or give up.

use crate::headers::{header_text, law_visible_text_is_the_bytes, visible_text};
use crate::retry::{
    law_backoff_doubles, law_backoff_is_capped_exponential, law_jitter_is_light, min_int, RetryCfg,
};
use crate::status::{
    is_retryable_status, push_status, retryable_code, shown_status, OK, PARTIAL_CONTENT,
};
use crate::text::{
    decimal, is_digit, law_decimal_reads_back, lemma_decimal_text, parse_u64, push_decimal, trim,
    trimmed, u64_of,
};
use vstd::arithmetic::power2::pow2;
use vstd::prelude::*;
use vstd::string::*;

verus! {

/// What one attempt at a chunk came to.
#[derive(Debug)]
pub enum Attempt {
    /// The server answered with the range and its body was read to the end.
    Body { len: u64 },
    /// A transport, timeout, or body-read error.
    Transport { error: String },
    /// The body came in more slowly than the speed floor allows and was dropped.
    TooSlow,
    /// The server replied with an unexpected status code (body dropped unread),
    /// and asked for this many seconds of patience, if it did.
    Status { code: u16, retry_after: Option<u64> },
}

/// Why the last attempt at a chunk did not give it.
#[derive(Debug)]
pub enum Cause {
    ShortRead { got: u64, expected: u64 },
    Transport { error: String },
    TooSlow,
    Status { code: u16 },
}

/// Why a chunk is given up.
#[derive(Debug)]
pub enum FetchFailure {
    /// The retry budget is spent.
    GaveUp { attempts: u64, cause: Cause },
    /// The server keeps answering range requests with the full body.
    RangeIgnored,
    /// The server keeps answering with a status that is not worth retrying.
    NonRetryable { code: u16 },
}

/// What to do next about a chunk.
#[derive(Debug)]
pub enum Verdict {
    Accept,
    Retry { delay_ms: u64 },
    Fail(FetchFailure),
}

/// How often a status that no retry should turn into the range, such as a full
/// response, is taken for a flaky edge before it is believed.
pub const SOFT_STATUS_RETRIES: u32 = 3;

/// How an attempt bears on whether there will be another.
pub enum Nature {
    Done,
    /// Retried for as long as the budget lasts.
    Transient,
    /// Retried a few times, within the budget.
    Soft,
}

pub open spec fn nature(attempt: Attempt, expected: u64) -> Nature {
    match attempt {
        Attempt::Body { len } => if len == expected {
            Nature::Done
        } else {
            Nature::Transient
        },
        Attempt::Transport { .. } => Nature::Transient,
        Attempt::TooSlow => Nature::Transient,
        Attempt::Status { code, .. } => if retryable_code(code) {
            Nature::Transient
        } else {
            Nature::Soft
        },
    }
}

/// What a failed attempt is reported as.
pub open spec fn cause_of(attempt: Attempt, expected: u64) -> Cause {
    match attempt {
        Attempt::Body { len } => Cause::ShortRead { got: len, expected },
        Attempt::Transport { error } => Cause::Transport { error },
        Attempt::TooSlow => Cause::TooSlow,
        Attempt::Status { code, .. } => Cause::Status { code },
    }
}

/// What a status that is not worth more retries is reported as.
pub open spec fn refusal(code: u16) -> FetchFailure {
    if code == OK {
        FetchFailure::RangeIgnored
    } else {
        FetchFailure::NonRetryable { code }
    }
}

/// The patience that the server asked for, in milliseconds.
pub open spec fn asked_wait(attempt: Attempt) -> int {
    match attempt {
        Attempt::Status { code, retry_after: Some(secs) } => secs * 1000,
        _ => 0,
    }
}

/// One chunk on its way: how often it failed so far.
#[derive(Debug, Clone, Copy)]
pub struct ChunkFetch {
    pub cfg: RetryCfg,
    /// Number of bytes in the chunk.
    pub expected: u64,
    /// Failed attempts so far.
    pub failures: u32,
    /// Failed attempts so far that brought a status not worth retrying.
    pub soft_failures: u32,
}

impl ChunkFetch {
    /// Whether the retry budget is spent: the wall-clock budget where there is
    /// one, else the number of retries.
    pub open spec fn budget_spent(self, elapsed_ms: u64) -> bool {
        if self.cfg.retry_max_secs == 0 {
            self.failures >= self.cfg.retries
        } else {
            elapsed_ms >= self.cfg.retry_max_secs * 1000
        }
    }

    /// The wait before the next attempt: the backoff, or longer where the server
    /// asked for it, but not past the end of the wall-clock budget.
    pub open spec fn wait(self, attempt: Attempt, elapsed_ms: u64, jitter: u64) -> int {
        let backoff = self.cfg.delay(self.failures as nat, jitter as int);
        let asked = min_int(asked_wait(attempt), u64::MAX as int);
        let wanted = if backoff < asked {
            asked
        } else {
            backoff
        };
        if self.cfg.retry_max_secs == 0 {
            wanted
        } else {
            min_int(wanted, self.cfg.retry_max_secs * 1000 - elapsed_ms)
        }
    }

    /// Whether there will be another attempt after this one.
    pub open spec fn goes_on(self, attempt: Attempt, elapsed_ms: u64) -> bool {
        match nature(attempt, self.expected) {
            Nature::Done => false,
            Nature::Transient => !self.budget_spent(elapsed_ms),
            Nature::Soft => !self.budget_spent(elapsed_ms) && self.soft_failures
                < SOFT_STATUS_RETRIES,
        }
    }

    /// The state after a failed attempt that will be followed by another.
    pub open spec fn after(self, attempt: Attempt) -> ChunkFetch {
        ChunkFetch {
            failures: min_int(self.failures + 1, u32::MAX as int) as u32,
            soft_failures: if nature(attempt, self.expected) is Soft {
                min_int(self.soft_failures + 1, u32::MAX as int) as u32
            } else {
                self.soft_failures
            },
            ..self
        }
    }

    /// The verdict on an attempt that ended `elapsed_ms` after the chunk was
    /// first asked for.
    pub open spec fn verdict(self, attempt: Attempt, elapsed_ms: u64, jitter: u64) -> Verdict {
        if self.goes_on(attempt, elapsed_ms) {
            Verdict::Retry { delay_ms: self.wait(attempt, elapsed_ms, jitter) as u64 }
        } else {
            match nature(attempt, self.expected) {
                Nature::Done => Verdict::Accept,
                Nature::Transient => Verdict::Fail(
                    FetchFailure::GaveUp {
                        attempts: (self.failures + 1) as u64,
                        cause: cause_of(attempt, self.expected),
                    },
                ),
                Nature::Soft => Verdict::Fail(refusal(attempt->code)),
            }
        }
    }

    /// Start on a chunk of `expected` bytes.
    pub fn new(cfg: RetryCfg, expected: u64) -> (fetch: Self)
        ensures
            fetch == (ChunkFetch { cfg, expected, failures: 0, soft_failures: 0 }),
    {
        ChunkFetch { cfg, expected, failures: 0, soft_failures: 0 }
    }

    /// Whether bytes of the chunk are still missing when `got` of them have come, so
    /// that it matters how fast they come.
    pub fn lacks_bytes(&self, got: u64) -> (r: bool)
        ensures
            r == (got < self.expected),
    {
        got < self.expected
    }

    /// Whether the retry budget is spent.
    fn out_of_budget(&self, elapsed_ms: u64) -> (r: bool)
        ensures
            r == self.budget_spent(elapsed_ms),
    {
        if self.cfg.retry_max_secs == 0 {
            self.failures >= self.cfg.retries
        } else {
            elapsed_ms as u128 >= self.cfg.retry_max_secs as u128 * 1000
        }
    }

    /// The wait before the next attempt, in milliseconds.
    fn next_wait(&self, retry_after: Option<u64>, elapsed_ms: u64, jitter: u64) -> (ms: u64)
        requires
            !self.budget_spent(elapsed_ms),
        ensures
            forall|attempt: Attempt|
                #![trigger asked_wait(attempt)]
                asked_wait(attempt) == (match retry_after {
                    Some(secs) => secs * 1000,
                    None => 0,
                }) ==> ms == self.wait(attempt, elapsed_ms, jitter),
    {
        let backoff: u64 = self.cfg.backoff_with(self.failures, jitter);
        let asked: u64 = match retry_after {
            Some(secs) => if secs > u64::MAX / 1000 {
                u64::MAX
            } else {
                secs * 1000
            },
            None => 0,
        };
        let wanted: u64 = if backoff < asked { asked } else { backoff };
        if self.cfg.retry_max_secs == 0 {
            return wanted;
        }
        let left: u128 = self.cfg.retry_max_secs as u128 * 1000 - elapsed_ms as u128;
        if (wanted as u128) < left {
            wanted
        } else {
            left as u64
        }
    }

    /// Judge an attempt that ended `elapsed_ms` milliseconds after the chunk was
    /// first asked for; `jitter` picks the delay within its band.
    pub fn judge(&mut self, attempt: Attempt, elapsed_ms: u64, jitter: u64) -> (verdict: Verdict)
        ensures
            verdict == old(self).verdict(attempt, elapsed_ms, jitter),
            old(self).goes_on(attempt, elapsed_ms) ==> *final(self) == old(self).after(attempt),
            !old(self).goes_on(attempt, elapsed_ms) ==> *final(self) == *old(self),
    {
        let mut retry_after: Option<u64> = None;
        let mut soft: Option<u16> = None;
        match &attempt {
            Attempt::Body { len } => {
                if *len == self.expected {
                    return Verdict::Accept;
                }
            },
            Attempt::Transport { .. } => {},
            Attempt::TooSlow => {},
            Attempt::Status { code, retry_after: asked } => {
                retry_after = *asked;
                if !is_retryable_status(*code) {
                    soft = Some(*code);
                }
            },
        }
        let spent: bool = self.out_of_budget(elapsed_ms);
        match soft {
            Some(code) => {
                if spent || self.soft_failures >= SOFT_STATUS_RETRIES {
                    return Verdict::Fail(
                        if code == OK {
                            FetchFailure::RangeIgnored
                        } else {
                            FetchFailure::NonRetryable { code }
                        },
                    );
                }
            },
            None => {},
        }
        if spent {
            let cause = match attempt {
                Attempt::Body { len } => Cause::ShortRead { got: len, expected: self.expected },
                Attempt::Transport { error } => Cause::Transport { error },
                Attempt::TooSlow => Cause::TooSlow,
                Attempt::Status { code, .. } => Cause::Status { code },
            };
            return Verdict::Fail(
                FetchFailure::GaveUp { attempts: self.failures as u64 + 1, cause },
            );
        }
        let delay_ms: u64 = self.next_wait(retry_after, elapsed_ms, jitter);
        assert(delay_ms == self.wait(attempt, elapsed_ms, jitter)) by {
            assert(asked_wait(attempt) == (match retry_after {
                Some(secs) => secs * 1000,
                None => 0,
            }));
        }
        self.failures = self.failures.saturating_add(1);
        if soft.is_some() {
            self.soft_failures = self.soft_failures.saturating_add(1);
        }
        Verdict::Retry { delay_ms }
    }
}

impl Cause {
    /// The message that tells of this cause.
    pub open spec fn text(self) -> Seq<char> {
        match self {
            Cause::ShortRead { got, expected } => "short read: got "@ + decimal(got as nat)
                + " bytes, expected "@ + decimal(expected as nat),
            Cause::Transport { error } => error@,
            Cause::TooSlow => "throughput stayed below the minimum speed"@,
            Cause::Status { code } => "server returned "@ + shown_status(code),
        }
    }

    /// The message that tells of this cause.
    pub fn message(&self) -> (r: String)
        ensures
            r@ == self.text(),
    {
        let mut out = String::new();
        match self {
            Cause::ShortRead { got, expected } => {
                out.append("short read: got ");
                push_decimal(&mut out, *got);
                out.append(" bytes, expected ");
                push_decimal(&mut out, *expected);
            },
            Cause::Transport { error } => {
                out.append(error.as_str());
            },
            Cause::TooSlow => {
                out.append("throughput stayed below the minimum speed");
            },
            Cause::Status { code } => {
                out.append("server returned ");
                push_status(&mut out, *code);
            },
        }
        assert(out@ =~= self.text());
        out
    }
}

impl FetchFailure {
    /// The message that tells of this failure.
    pub open spec fn text(self) -> Seq<char> {
        match self {
            FetchFailure::GaveUp { attempts, cause } => "giving up after "@ + decimal(
                attempts as nat,
            ) + " attempts: "@ + cause.text(),
            FetchFailure::RangeIgnored =>
                "server ignored the byte range and returned 200 (full body); it does not support ranges here — re-run with --single"@,
            FetchFailure::NonRetryable { code } => "server returned non-retryable status "@
                + shown_status(code) + " for the range request"@,
        }
    }

    /// The message that tells of this failure.
    pub fn message(&self) -> (r: String)
        ensures
            r@ == self.text(),
    {
        let mut out = String::new();
        match self {
            FetchFailure::GaveUp { attempts, cause } => {
                out.append("giving up after ");
                push_decimal(&mut out, *attempts);
                out.append(" attempts: ");
                out.append(cause.message().as_str());
            },
            FetchFailure::RangeIgnored => {
                out.append(
                    "server ignored the byte range and returned 200 (full body); it does not support ranges here — re-run with --single",
                );
            },
            FetchFailure::NonRetryable { code } => {
                out.append("server returned non-retryable status ");
                push_status(&mut out, *code);
                out.append(" for the range request");
            },
        }
        assert(out@ =~= self.text());
        out
    }
}

/// The value of the `Range` header that asks for the bytes `start` to `end`.
pub open spec fn range_text(start: u64, end: u64) -> Seq<char> {
    "bytes="@ + decimal(start as nat) + "-"@ + decimal(end as nat)
}

/// The value of the `Range` header that asks for the bytes `start` to `end`,
/// both included.
pub fn range_header(start: u64, end: u64) -> (r: String)
    ensures
        r@ == range_text(start, end),
        r@ == "bytes="@ + decimal(start as nat) + "-"@ + decimal(end as nat),
{
    let mut out = String::new();
    out.append("bytes=");
    push_decimal(&mut out, start);
    out.append("-");
    push_decimal(&mut out, end);
    assert(out@ =~= "bytes="@ + decimal(start as nat) + "-"@ + decimal(end as nat));
    out
}

/// Whether a status announces the requested range.
pub open spec fn is_range(code: u16) -> bool {
    code == PARTIAL_CONTENT
}

/// Whether a response carries the requested range, so that its body is read.
pub fn carries_range(code: u16) -> (r: bool)
    ensures
        r == is_range(code),
        r == (code == PARTIAL_CONTENT),
{
    code == PARTIAL_CONTENT
}

/// The patience in seconds that a `Retry-After` value asks for. A date, the
/// other form that the header can have, asks for nothing beyond the backoff.
pub open spec fn patience(value: Option<Seq<u8>>) -> Option<u64> {
    match value {
        Some(bytes) => match visible_text(bytes) {
            Some(text) => u64_of(trimmed(text)),
            None => None,
        },
        None => None,
    }
}

/// Read the bytes of a `Retry-After` value, in seconds.
pub fn parse_retry_after(value: Option<&[u8]>) -> (r: Option<u64>)
    ensures
        r == patience(
            match value {
                Some(bytes) => Some(bytes@),
                None => None,
            },
        ),
{
    match value {
        Some(bytes) => match header_text(bytes) {
            Some(text) => parse_u64(trim(text.as_str())),
            None => None,
        },
        None => None,
    }
}

/// The state after a run of attempts, each given with the time at which it ended.
pub open spec fn after_all(fetch: ChunkFetch, history: Seq<(Attempt, u64)>) -> ChunkFetch
    decreases history.len(),
{
    if history.len() == 0 {
        fetch
    } else {
        after_all(fetch, history.drop_last()).after(history.last().0)
    }
}

/// Whether every attempt of a run is followed by another.
pub open spec fn all_retried(fetch: ChunkFetch, history: Seq<(Attempt, u64)>) -> bool
    decreases history.len(),
{
    history.len() == 0 || {
        &&& all_retried(fetch, history.drop_last())
        &&& after_all(fetch, history.drop_last()).goes_on(history.last().0, history.last().1)
    }
}

/// How many attempts of a run brought a status that is not worth retrying.
pub open spec fn soft_count(history: Seq<(Attempt, u64)>, expected: u64) -> nat
    decreases history.len(),
{
    if history.len() == 0 {
        0
    } else {
        soft_count(history.drop_last(), expected) + (if nature(history.last().0, expected) is Soft {
            1nat
        } else {
            0
        })
    }
}

proof fn lemma_history(cfg: RetryCfg, expected: u64, history: Seq<(Attempt, u64)>)
    requires
        all_retried((ChunkFetch { cfg, expected, failures: 0, soft_failures: 0 }), history),
    ensures
        ({
            let start = ChunkFetch { cfg, expected, failures: 0, soft_failures: 0 };
            let now = after_all(start, history);
            &&& now.cfg == cfg
            &&& now.expected == expected
            &&& now.failures == min_int(history.len() as int, u32::MAX as int)
            &&& now.soft_failures == soft_count(history, expected)
            &&& soft_count(history, expected) <= SOFT_STATUS_RETRIES
            &&& cfg.retry_max_secs == 0 ==> history.len() <= cfg.retries
        }),
    decreases history.len(),
{
    if history.len() > 0 {
        lemma_history(cfg, expected, history.drop_last());
    }
}

/// Whether none of these failed attempts at a chunk calls for giving it up: they are
/// as many as the retries allow, or each one ended before the wall-clock budget did, and
/// only a few of them were refusals.
pub open spec fn within_budget(
    cfg: RetryCfg,
    expected: u64,
    history: Seq<(Attempt, u64)>,
) -> bool {
    &&& forall|i: int|
        0 <= i < history.len() ==> nature((#[trigger] history[i]).0, expected) !is Done
    &&& soft_count(history, expected) <= SOFT_STATUS_RETRIES
    &&& if cfg.retry_max_secs == 0 {
        history.len() <= cfg.retries
    } else {
        forall|i: int|
            0 <= i < history.len() ==> (#[trigger] history[i]).1 < cfg.retry_max_secs * 1000
    }
}

/// Retrying goes on exactly until the budget is spent: a chunk is asked for again after
/// every failed attempt that the budget covers, and it is accepted when all of its bytes
/// come then.
pub proof fn law_failures_within_the_budget_are_ridden_out(
    cfg: RetryCfg,
    expected: u64,
    history: Seq<(Attempt, u64)>,
    later_ms: u64,
    jitter: u64,
)
    ensures
        ({
            let start = ChunkFetch { cfg, expected, failures: 0, soft_failures: 0 };
            &&& all_retried(start, history) <==> within_budget(cfg, expected, history)
            &&& after_all(start, history).verdict(
                Attempt::Body { len: expected },
                later_ms,
                jitter,
            ) == Verdict::Accept
        }),
    decreases history.len(),
{
    let start = ChunkFetch { cfg, expected, failures: 0, soft_failures: 0 };
    if history.len() > 0 {
        let front = history.drop_last();
        law_failures_within_the_budget_are_ridden_out(cfg, expected, front, later_ms, jitter);
        assert(history =~= front.push(history.last()));
        assert(forall|i: int| 0 <= i < front.len() ==> front[i] == #[trigger] history[i]);
        assert(history[history.len() - 1] == history.last());
        if within_budget(cfg, expected, history) {
            assert forall|i: int| 0 <= i < front.len() implies nature(
                (#[trigger] front[i]).0,
                expected,
            ) !is Done by {
                assert(front[i] == history[i]);
            }
            if cfg.retry_max_secs > 0 {
                assert forall|i: int| 0 <= i < front.len() implies (#[trigger] front[i]).1
                    < cfg.retry_max_secs * 1000 by {
                    assert(front[i] == history[i]);
                }
            }
        }
        if all_retried(start, front) {
            lemma_history(cfg, expected, front);
        }
    }
}

proof fn lemma_transient_is_not_soft(expected: u64, history: Seq<(Attempt, u64)>)
    requires
        forall|i: int|
            0 <= i < history.len() ==> nature((#[trigger] history[i]).0, expected) is Transient,
    ensures
        soft_count(history, expected) == 0,
    decreases history.len(),
{
    if history.len() > 0 {
        let front = history.drop_last();
        assert forall|i: int| 0 <= i < front.len() implies nature(
            (#[trigger] front[i]).0,
            expected,
        ) is Transient by {
            assert(front[i] == history[i]);
        }
        lemma_transient_is_not_soft(expected, front);
        assert(history.last() == history[history.len() - 1]);
    }
}

/// Transient failures alone never lose a chunk before the budget is spent: however many
/// there are, up to the number of retries or, with a wall-clock budget, until it has
/// elapsed, each one is followed by another attempt, and the chunk is accepted when all
/// of its bytes come then.
pub proof fn law_transient_failures_are_ridden_out(
    cfg: RetryCfg,
    expected: u64,
    history: Seq<(Attempt, u64)>,
    later_ms: u64,
    jitter: u64,
)
    requires
        forall|i: int|
            0 <= i < history.len() ==> nature((#[trigger] history[i]).0, expected) is Transient,
        if cfg.retry_max_secs == 0 {
            history.len() <= cfg.retries
        } else {
            forall|i: int|
                0 <= i < history.len() ==> (#[trigger] history[i]).1 < cfg.retry_max_secs * 1000
        },
    ensures
        ({
            let start = ChunkFetch { cfg, expected, failures: 0, soft_failures: 0 };
            &&& all_retried(start, history)
            &&& after_all(start, history).verdict(
                Attempt::Body { len: expected },
                later_ms,
                jitter,
            ) == Verdict::Accept
        }),
{
    lemma_transient_is_not_soft(expected, history);
    law_failures_within_the_budget_are_ridden_out(cfg, expected, history, later_ms, jitter);
}

/// Without a wall-clock budget a chunk is tried again at most `retries` times.
pub proof fn law_retries_bound_attempts(
    cfg: RetryCfg,
    expected: u64,
    history: Seq<(Attempt, u64)>,
)
    requires
        cfg.retry_max_secs == 0,
        all_retried((ChunkFetch { cfg, expected, failures: 0, soft_failures: 0 }), history),
    ensures
        history.len() <= cfg.retries,
{
    lemma_history(cfg, expected, history);
}

/// A server that refuses a range, or answers with its full body, is believed after
/// a fixed number of such answers, whatever the budget.
pub proof fn law_refused_range_fails_fast(
    cfg: RetryCfg,
    expected: u64,
    history: Seq<(Attempt, u64)>,
)
    requires
        all_retried((ChunkFetch { cfg, expected, failures: 0, soft_failures: 0 }), history),
    ensures
        soft_count(history, expected) <= SOFT_STATUS_RETRIES,
{
    lemma_history(cfg, expected, history);
}

/// One bad answer does not lose a chunk: whatever the first attempt came to, where the
/// budget allows one retry the chunk is asked for again, and it is accepted when all of
/// its bytes come then.
pub proof fn law_flaky_answer_recovers(
    cfg: RetryCfg,
    expected: u64,
    attempt: Attempt,
    elapsed_ms: u64,
    later_ms: u64,
    jitter: u64,
)
    requires
        nature(attempt, expected) !is Done,
        !(ChunkFetch { cfg, expected, failures: 0, soft_failures: 0 }).budget_spent(elapsed_ms),
    ensures
        ({
            let fetch = ChunkFetch { cfg, expected, failures: 0, soft_failures: 0 };
            &&& fetch.verdict(attempt, elapsed_ms, jitter) is Retry
            &&& fetch.after(attempt).verdict(Attempt::Body { len: expected }, later_ms, jitter)
                == Verdict::Accept
        }),
{
}

/// With a wall-clock budget, a transient failure is retried exactly until the
/// budget has elapsed, however often the chunk failed before, and the wait never
/// runs past the end of the budget.
pub proof fn law_budget_bounds_retrying(
    fetch: ChunkFetch,
    attempt: Attempt,
    elapsed_ms: u64,
    jitter: u64,
)
    requires
        fetch.cfg.retry_max_secs > 0,
        nature(attempt, fetch.expected) is Transient,
    ensures
        fetch.goes_on(attempt, elapsed_ms) <==> elapsed_ms < fetch.cfg.retry_max_secs * 1000,
        fetch.goes_on(attempt, elapsed_ms) ==> elapsed_ms + fetch.wait(attempt, elapsed_ms, jitter)
            <= fetch.cfg.retry_max_secs * 1000,
{
}

/// The wait is at least what the server asked for, unless the wall-clock budget
/// ends before.
pub proof fn law_retry_after_is_honoured(
    fetch: ChunkFetch,
    attempt: Attempt,
    elapsed_ms: u64,
    jitter: u64,
)
    requires
        asked_wait(attempt) <= u64::MAX,
    ensures
        fetch.cfg.retry_max_secs == 0 || elapsed_ms + asked_wait(attempt)
            <= fetch.cfg.retry_max_secs * 1000 ==> fetch.wait(attempt, elapsed_ms, jitter)
            >= asked_wait(attempt),
{
}

/// A chunk is accepted only when all of its bytes came, and then always.
pub proof fn law_only_whole_chunks_are_accepted(
    fetch: ChunkFetch,
    attempt: Attempt,
    elapsed_ms: u64,
    jitter: u64,
)
    ensures
        fetch.verdict(attempt, elapsed_ms, jitter) is Accept <==> attempt == (Attempt::Body {
            len: fetch.expected,
        }),
{
}

/// What becomes of an attempt. All bytes of the chunk are accepted. A short or long body, an
/// error of the transport, a body that comes too slowly and a status from 500 to 599, 429 or
/// 408 are retried until the budget is spent: the retries, or where there is one the
/// wall-clock budget. Any other status is retried three times at most.
pub proof fn law_what_is_retried(
    fetch: ChunkFetch,
    attempt: Attempt,
    elapsed_ms: u64,
    jitter: u64,
)
    ensures
        ({
            let verdict = fetch.verdict(attempt, elapsed_ms, jitter);
            let time_left = if fetch.cfg.retry_max_secs == 0 {
                fetch.failures < fetch.cfg.retries
            } else {
                elapsed_ms < 1000 * fetch.cfg.retry_max_secs
            };
            match attempt {
                Attempt::Body { len } => {
                    &&& verdict is Accept <==> len == fetch.expected
                    &&& len != fetch.expected ==> (verdict is Retry <==> time_left)
                },
                Attempt::Transport { .. } => verdict !is Accept && (verdict is Retry <==> time_left),
                Attempt::TooSlow => verdict !is Accept && (verdict is Retry <==> time_left),
                Attempt::Status { code, .. } => {
                    &&& verdict !is Accept
                    &&& 500 <= code <= 599 || code == 429 || code == 408 ==> (verdict is Retry
                        <==> time_left)
                    &&& !(500 <= code <= 599 || code == 429 || code == 408) ==> (verdict is Retry
                        <==> time_left && fetch.soft_failures < 3)
                },
            }
        }),
{
}

/// A chunk that is given up is reported with what its last attempt came to and the number of
/// attempts; a refusal is reported as such, and a full response as a range ignored.
pub proof fn law_failures_tell_their_cause(
    fetch: ChunkFetch,
    attempt: Attempt,
    elapsed_ms: u64,
    jitter: u64,
)
    ensures
        fetch.verdict(attempt, elapsed_ms, jitter) matches Verdict::Fail(failure) ==> (
        match attempt {
            Attempt::Body { len } => failure == (FetchFailure::GaveUp {
                attempts: (fetch.failures + 1) as u64,
                cause: Cause::ShortRead { got: len, expected: fetch.expected },
            }),
            Attempt::Transport { error } => failure == (FetchFailure::GaveUp {
                attempts: (fetch.failures + 1) as u64,
                cause: Cause::Transport { error },
            }),
            Attempt::TooSlow => failure == (FetchFailure::GaveUp {
                attempts: (fetch.failures + 1) as u64,
                cause: Cause::TooSlow,
            }),
            Attempt::Status { code, .. } => if 500 <= code <= 599 || code == 429 || code == 408 {
                failure == (FetchFailure::GaveUp {
                    attempts: (fetch.failures + 1) as u64,
                    cause: Cause::Status { code },
                })
            } else if code == 200 {
                failure is RangeIgnored
            } else {
                failure == (FetchFailure::NonRetryable { code })
            },
        }),
{
}

/// Every attempt that is followed by another counts as one failure, and as one refusal too
/// where it brought a status not worth retrying; nothing else changes.
pub proof fn law_failed_attempts_are_counted(fetch: ChunkFetch, attempt: Attempt)
    ensures
        ({
            let next = fetch.after(attempt);
            let refused = attempt matches Attempt::Status { code, .. } && !(500 <= code <= 599
                || code == 429 || code == 408);
            &&& next.cfg == fetch.cfg
            &&& next.expected == fetch.expected
            &&& fetch.failures < u32::MAX ==> next.failures == fetch.failures + 1
            &&& fetch.failures == u32::MAX ==> next.failures == u32::MAX
            &&& refused && fetch.soft_failures < u32::MAX ==> next.soft_failures
                == fetch.soft_failures + 1
            &&& !refused ==> next.soft_failures == fetch.soft_failures
        }),
{
}

/// The wait before the next attempt is the backoff for the failures so far, or the seconds
/// that the server asked for where those are more, cut off only by the end of the
/// wall-clock budget.
pub proof fn law_waits_back_off(fetch: ChunkFetch, attempt: Attempt, elapsed_ms: u64, jitter: u64)
    ensures
        fetch.verdict(attempt, elapsed_ms, jitter) matches Verdict::Retry { delay_ms } ==> {
            let backoff = fetch.cfg.delay(fetch.failures as nat, jitter as int);
            let asked = match attempt {
                Attempt::Status { code, retry_after: Some(secs) } => if 1000 * secs
                    <= 0xffff_ffff_ffff_ffff {
                    1000 * secs
                } else {
                    0xffff_ffff_ffff_ffff
                },
                _ => 0,
            };
            let cut = fetch.cfg.retry_max_secs > 0 && delay_ms == 1000 * fetch.cfg.retry_max_secs
                - elapsed_ms;
            &&& delay_ms >= backoff || cut
            &&& delay_ms >= asked || cut
            &&& delay_ms <= backoff || delay_ms <= asked
            &&& fetch.cfg.retry_max_secs > 0 ==> elapsed_ms + delay_ms <= 1000
                * fetch.cfg.retry_max_secs
        },
{
    law_jitter_is_light(fetch.cfg, fetch.failures as nat, jitter as int);
}

/// Where the server asks for no patience, the waits follow the capped exponential: the base
/// times two to the number of failures, within an eighth, unless the wall-clock budget ends
/// before; and from one failure to the next they double before jitter until the maximum.
pub proof fn law_waits_double(
    fetch: ChunkFetch,
    attempt: Attempt,
    elapsed_ms: u64,
    jitter: u64,
    next_attempt: Attempt,
)
    requires
        fetch.failures <= 20,
        attempt matches Attempt::Status { retry_after, .. } ==> retry_after is None,
    ensures
        fetch.verdict(attempt, elapsed_ms, jitter) matches Verdict::Retry { delay_ms } ==> {
            let grown = fetch.cfg.backoff_ms * pow2(fetch.failures as nat);
            let base = if grown < fetch.cfg.backoff_max_ms {
                grown
            } else {
                fetch.cfg.backoff_max_ms as int
            };
            let cut = fetch.cfg.retry_max_secs > 0 && delay_ms == 1000 * fetch.cfg.retry_max_secs
                - elapsed_ms;
            &&& 8 * delay_ms >= 7 * base - 4 || cut
            &&& 8 * delay_ms <= 9 * base + 4
            &&& delay_ms <= fetch.cfg.backoff_max_ms
        },
        fetch.failures < 20 ==> fetch.cfg.base_delay(fetch.after(attempt).failures as nat) == (
        if 2 * fetch.cfg.base_delay(fetch.failures as nat) < fetch.cfg.backoff_max_ms {
            2 * fetch.cfg.base_delay(fetch.failures as nat)
        } else {
            fetch.cfg.backoff_max_ms as int
        }),
{
    law_backoff_is_capped_exponential(fetch.cfg, fetch.failures as nat);
    law_backoff_doubles(fetch.cfg, fetch.failures as nat);
    law_jitter_is_light(fetch.cfg, fetch.failures as nat, jitter as int);
    law_waits_back_off(fetch, attempt, elapsed_ms, jitter);
}

/// A refusal is believed at the fourth answer of its kind in a row at the latest, and where
/// the budget allows it, not before.
pub proof fn law_refusals_are_retried_three_times(
    cfg: RetryCfg,
    expected: u64,
    history: Seq<(Attempt, u64)>,
    code: u16,
    retry_after: Option<u64>,
    elapsed_ms: u64,
    jitter: u64,
)
    requires
        cfg.retry_max_secs > 0,
        elapsed_ms < 1000 * cfg.retry_max_secs,
        !(500 <= code <= 599 || code == 429 || code == 408),
        forall|i: int|
            0 <= i < history.len() ==> ((#[trigger] history[i]).0 matches Attempt::Status {
                code,
                ..
            } && !(500 <= code <= 599 || code == 429 || code == 408)),
        all_retried((ChunkFetch { cfg, expected, failures: 0, soft_failures: 0 }), history),
    ensures
        ({
            let start = ChunkFetch { cfg, expected, failures: 0, soft_failures: 0 };
            let verdict = after_all(start, history).verdict(
                Attempt::Status { code, retry_after },
                elapsed_ms,
                jitter,
            );
            &&& verdict is Retry <==> history.len() < 3
            &&& verdict is Fail <==> history.len() >= 3
        }),
{
    lemma_history(cfg, expected, history);
    lemma_all_refused(expected, history);
}

proof fn lemma_all_refused(expected: u64, history: Seq<(Attempt, u64)>)
    requires
        forall|i: int|
            0 <= i < history.len() ==> ((#[trigger] history[i]).0 matches Attempt::Status {
                code,
                ..
            } && !(500 <= code <= 599 || code == 429 || code == 408)),
    ensures
        soft_count(history, expected) == history.len(),
    decreases history.len(),
{
    if history.len() > 0 {
        let front = history.drop_last();
        assert forall|i: int| 0 <= i < front.len() implies ((
        #[trigger] front[i]).0 matches Attempt::Status { code, .. } && !(500 <= code <= 599 || code
            == 429 || code == 408)) by {
            assert(front[i] == history[i]);
        }
        lemma_all_refused(expected, front);
        assert(history.last() == history[history.len() - 1]);
    }
}

/// A `Retry-After` value that is a number of seconds, in base ten with or without space
/// around it, asks for that many seconds, and nothing else asks for any.
pub proof fn law_patience_is_the_number_of_seconds(text: Seq<char>, value: Seq<u8>, secs: u64)
    requires
        text.len() == value.len(),
        forall|i: int| 0 <= i < text.len() ==> #[trigger] text[i] as int == value[i] as int,
    ensures
        patience(None) is None,
        (forall|i: int|
            0 <= i < value.len() ==> 32 <= #[trigger] value[i] <= 126 || value[i] == 9)
            ==> patience(Some(value)) == u64_of(trimmed(text)),
        (exists|i: int|
            0 <= i < value.len() && !(32 <= #[trigger] value[i] <= 126 || value[i] == 9))
            ==> patience(Some(value)) is None,
        text == decimal(secs as nat) ==> patience(Some(value)) == Some(secs),
{
    law_visible_text_is_the_bytes(text, value);
    if text == decimal(secs as nat) {
        lemma_decimal_text(secs as nat);
        law_decimal_reads_back(secs);
        assert forall|i: int| 0 <= i < value.len() implies 32 <= #[trigger] value[i] <= 126
            || value[i] == 9 by {
            assert(is_digit(text[i]));
        }
    }
}

/// The messages of the causes: how many bytes came of how many, the error as it is, and
/// the status as it is shown.
pub proof fn law_causes_are_told(cause: Cause)
    ensures
        match cause {
            Cause::ShortRead { got, expected } => cause.text() == "short read: got "@ + decimal(
                got as nat,
            ) + " bytes, expected "@ + decimal(expected as nat),
            Cause::Transport { error } => cause.text() == error@,
            Cause::TooSlow => cause.text() == "throughput stayed below the minimum speed"@,
            Cause::Status { code } => cause.text() == "server returned "@ + shown_status(code),
        },
{
}

/// The messages of the failures: the number of attempts with the last cause, the advice
/// against a server without ranges, and the status of a refusal.
pub proof fn law_failures_are_told(failure: FetchFailure)
    ensures
        match failure {
            FetchFailure::GaveUp { attempts, cause } => failure.text() == "giving up after "@
                + decimal(attempts as nat) + " attempts: "@ + cause.text(),
            FetchFailure::RangeIgnored => failure.text()
                == "server ignored the byte range and returned 200 (full body); it does not support ranges here — re-run with --single"@,
            FetchFailure::NonRetryable { code } => failure.text()
                == "server returned non-retryable status "@ + shown_status(code)
                + " for the range request"@,
        },
{
}

/// A range is asked for by its first and last byte in base ten, so that two requests agree
/// only where the ranges do.
pub proof fn law_range_is_asked_for_by_its_bounds(start: u64, end: u64)
    ensures
        range_text(start, end) == "bytes="@ + decimal(start as nat) + "-"@ + decimal(end as nat),
        range_text(start, end).len() == 7 + decimal(start as nat).len() + decimal(end as nat).len(),
        u64_of(range_text(start, end).subrange(6, 6 + decimal(start as nat).len() as int)) == Some(
            start,
        ),
        u64_of(range_text(start, end).skip(7 + decimal(start as nat).len() as int)) == Some(end),
{
    reveal_strlit("bytes=");
    reveal_strlit("-");
    law_decimal_reads_back(start);
    law_decimal_reads_back(end);
    let first = decimal(start as nat);
    assert(range_text(start, end).subrange(6, 6 + first.len() as int) =~= first);
    assert(range_text(start, end).skip(7 + first.len() as int) =~= decimal(end as nat));
}

/// A body is read for a partial response and for no other status.
pub proof fn law_only_a_partial_response_is_read(code: u16)
    ensures
        is_range(code) <==> code == 206,
{
}

} // verus!
