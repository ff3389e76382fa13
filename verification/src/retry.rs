//! How long a chunk waits between attempts.

use std::time::{Duration, SystemTime, SystemTimeError, UNIX_EPOCH};
use vstd::arithmetic::power2::{lemma2_to64, lemma_pow2_unfold, pow2};
use vstd::prelude::*;

verus! {

/// Retry / backoff policy for a single chunk.
#[derive(Debug, Clone, Copy)]
pub struct RetryCfg {
    /// Attempts after the first failure; counts only when there is no
    /// wall-clock budget.
    pub retries: u32,
    pub backoff_ms: u64,
    pub backoff_max_ms: u64,
    /// Wall-clock retry budget in seconds; zero means that `retries` counts
    /// instead.
    pub retry_max_secs: u64,
}

/// After this many doublings the backoff stops growing.
pub const MAX_DOUBLINGS: u32 = 20;

pub open spec fn min_int(a: int, b: int) -> int {
    if a < b {
        a
    } else {
        b
    }
}

impl RetryCfg {
    /// Backoff before jitter: it doubles with each attempt up to the maximum.
    pub open spec fn base_delay(self, attempt: nat) -> int {
        min_int(
            self.backoff_ms * pow2(min_int(attempt as int, MAX_DOUBLINGS as int) as nat),
            self.backoff_max_ms as int,
        )
    }

    /// Width of the band of delays around the base from which jitter picks.
    pub open spec fn jitter_span(self, attempt: nat) -> int {
        self.base_delay(attempt) / 4 + 1
    }

    /// The delay in milliseconds that a jitter value picks for an attempt; the
    /// maximum bounds it too.
    pub open spec fn delay(self, attempt: nat, jitter: int) -> int {
        min_int(
            self.base_delay(attempt) - self.jitter_span(attempt) / 2 + jitter % self.jitter_span(
                attempt,
            ),
            self.backoff_max_ms as int,
        )
    }

    /// Backoff before jitter for attempt `n` (0-based), in milliseconds.
    fn base_backoff(&self, attempt: u32) -> (base: u64)
        ensures
            base == self.base_delay(attempt as nat),
    {
        let doublings: u32 = if attempt < MAX_DOUBLINGS { attempt } else { MAX_DOUBLINGS };
        let mut base: u64 = if self.backoff_ms < self.backoff_max_ms {
            self.backoff_ms
        } else {
            self.backoff_max_ms
        };
        let mut i: u32 = 0;
        proof {
            lemma2_to64();
        }
        while i < doublings
            invariant
                i <= doublings <= MAX_DOUBLINGS,
                base == min_int(self.backoff_ms * pow2(i as nat), self.backoff_max_ms as int),
            decreases doublings - i,
        {
            proof {
                lemma_pow2_unfold((i + 1) as nat);
                assert(self.backoff_ms * (2 * pow2(i as nat)) == 2 * (self.backoff_ms * pow2(
                    i as nat,
                ))) by (nonlinear_arith);
            }
            base = if base < self.backoff_max_ms - base { base + base } else { self.backoff_max_ms };
            i = i + 1;
        }
        base
    }

    /// Capped exponential backoff for attempt `n` (0-based) with the jitter
    /// value given, in milliseconds.
    pub fn backoff_with(&self, attempt: u32, jitter: u64) -> (ms: u64)
        ensures
            ms == self.delay(attempt as nat, jitter as int),
            ms <= self.backoff_max_ms,
    {
        let base: u64 = self.base_backoff(attempt);
        let span: u64 = base / 4 + 1;
        let ms: u64 = (base - span / 2).saturating_add(jitter % span);
        if ms < self.backoff_max_ms {
            ms
        } else {
            self.backoff_max_ms
        }
    }

    /// Capped exponential backoff with light jitter for attempt `n` (0-based),
    /// in milliseconds.
    pub fn backoff(&self, attempt: u32) -> (ms: u64)
        ensures
            exists|now: SystemTime|
                ms == self.delay(attempt as nat, #[trigger] jitter_in(now)),
            ms <= self.backoff_max_ms,
    {
        let jitter: u64 = pseudo_jitter();
        self.backoff_with(attempt, jitter)
    }
}

#[verifier::external_type_specification]
#[verifier::external_body]
pub struct ExSystemTime(SystemTime);

#[verifier::external_type_specification]
#[verifier::external_body]
pub struct ExSystemTimeError(SystemTimeError);

/// The length of a duration in nanoseconds.
pub uninterp spec fn length_nanos(duration: Duration) -> nat;

/// How long after the Unix epoch a time lies, in nanoseconds; negative before it.
pub uninterp spec fn epoch_nanos(time: SystemTime) -> int;

/// `SystemTime::now` reads the system clock: nothing is claimed of what it shows.
pub assume_specification[ SystemTime::now ]() -> SystemTime;

/// `SystemTime::duration_since`, from the Unix epoch: how long after the epoch the
/// time lies, or an error when it lies before.
#[verifier::external_body]
fn since_epoch(time: &SystemTime) -> (r: Result<Duration, SystemTimeError>)
    ensures
        r is Ok <==> epoch_nanos(*time) >= 0,
        r matches Ok(duration) ==> length_nanos(duration) == epoch_nanos(*time),
{
    time.duration_since(UNIX_EPOCH)
}

/// `Duration::subsec_nanos` gives the part of a duration below one second, in
/// nanoseconds.
pub assume_specification[ Duration::subsec_nanos ](duration: &Duration) -> (nanos: u32)
    ensures
        nanos == length_nanos(*duration) % 1_000_000_000,
;

/// The jitter that a time gives: the part of it below one second, in nanoseconds,
/// and zero before the Unix epoch.
pub open spec fn jitter_in(time: SystemTime) -> int {
    if epoch_nanos(time) >= 0 {
        epoch_nanos(time) % 1_000_000_000
    } else {
        0
    }
}

/// The jitter that a time gives.
pub fn jitter_at(time: &SystemTime) -> (jitter: u64)
    ensures
        jitter == jitter_in(*time),
        jitter < 1_000_000_000,
{
    match since_epoch(time) {
        Ok(elapsed) => elapsed.subsec_nanos() as u64,
        Err(_) => 0,
    }
}

/// Cheap non-cryptographic jitter source (avoids a dependency on an RNG): what the
/// system clock gives at the time of the call.
pub fn pseudo_jitter() -> (jitter: u64)
    ensures
        exists|now: SystemTime| jitter == #[trigger] jitter_in(now),
        jitter < 1_000_000_000,
{
    let now = SystemTime::now();
    jitter_at(&now)
}

/// The backoff before jitter starts at the configured base, doubles from one
/// attempt to the next, and never passes the configured maximum.
pub proof fn law_backoff_doubles(cfg: RetryCfg, attempt: nat)
    ensures
        cfg.base_delay(0) == min_int(cfg.backoff_ms as int, cfg.backoff_max_ms as int),
        attempt < MAX_DOUBLINGS ==> cfg.base_delay(attempt + 1) == min_int(
            2 * cfg.base_delay(attempt),
            cfg.backoff_max_ms as int,
        ),
        attempt >= MAX_DOUBLINGS ==> cfg.base_delay(attempt + 1) == cfg.base_delay(attempt),
        0 <= cfg.base_delay(attempt) <= cfg.backoff_max_ms,
        cfg.base_delay(attempt) <= cfg.base_delay(attempt + 1),
{
    lemma2_to64();
    assert(cfg.backoff_ms * pow2(0) == cfg.backoff_ms) by (nonlinear_arith)
        requires
            pow2(0) == 1,
    ;
    let shift = min_int(attempt as int, MAX_DOUBLINGS as int) as nat;
    vstd::arithmetic::power2::lemma_pow2_pos(shift);
    lemma_pow2_unfold((shift + 1) as nat);
    assert(cfg.backoff_ms * (2 * pow2(shift)) == 2 * (cfg.backoff_ms * pow2(shift)))
        by (nonlinear_arith);
    assert(0 <= cfg.backoff_ms * pow2(shift)) by (nonlinear_arith)
        requires
            cfg.backoff_ms >= 0,
            pow2(shift) > 0,
    ;
}

/// Jitter is light: whatever its value, the delay stays within an eighth of the
/// base and half a millisecond, and it never passes the configured maximum.
pub proof fn law_jitter_is_light(cfg: RetryCfg, attempt: nat, jitter: int)
    ensures
        0 <= cfg.delay(attempt, jitter),
        8 * (cfg.base_delay(attempt) - cfg.delay(attempt, jitter)) <= cfg.base_delay(attempt) + 4,
        8 * (cfg.delay(attempt, jitter) - cfg.base_delay(attempt)) <= cfg.base_delay(attempt) + 4,
        cfg.delay(attempt, jitter) <= cfg.backoff_max_ms,
{
    law_backoff_doubles(cfg, attempt);
    vstd::arithmetic::div_mod::lemma_mod_bound(jitter, cfg.jitter_span(attempt));
}

/// The backoff before jitter is the configured base times two to the number of the attempt,
/// and times two to the twentieth at most, cut off at the configured maximum.
pub proof fn law_backoff_is_capped_exponential(cfg: RetryCfg, attempt: nat)
    ensures
        attempt <= 20 ==> cfg.base_delay(attempt) == (if cfg.backoff_ms * pow2(attempt)
            < cfg.backoff_max_ms {
            cfg.backoff_ms * pow2(attempt)
        } else {
            cfg.backoff_max_ms as int
        }),
        attempt >= 20 ==> cfg.base_delay(attempt) == cfg.base_delay(20),
{
}

/// Jitter spreads the delays over a band of a quarter of the base around it: it starts half
/// the band below the base, each step of jitter adds a millisecond up to the maximum, and
/// behind the band it starts over.
pub proof fn law_jitter_spreads_the_delays(cfg: RetryCfg, attempt: nat, jitter: int)
    ensures
        cfg.delay(attempt, 0) == cfg.base_delay(attempt) - (cfg.base_delay(attempt) / 4 + 1) / 2,
        0 < jitter <= cfg.base_delay(attempt) / 4 ==> cfg.delay(attempt, jitter) == (if cfg.delay(
            attempt,
            jitter - 1,
        ) < cfg.backoff_max_ms {
            cfg.delay(attempt, jitter - 1) + 1
        } else {
            cfg.backoff_max_ms as int
        }),
        cfg.delay(attempt, jitter + (cfg.base_delay(attempt) / 4 + 1)) == cfg.delay(
            attempt,
            jitter,
        ),
{
    law_backoff_doubles(cfg, attempt);
    let span = cfg.base_delay(attempt) / 4 + 1;
    vstd::arithmetic::div_mod::lemma_mod_add_multiples_vanish(jitter, span);
    vstd::arithmetic::div_mod::lemma_small_mod(0, span as nat);
    if 0 < jitter <= cfg.base_delay(attempt) / 4 {
        vstd::arithmetic::div_mod::lemma_small_mod(jitter as nat, span as nat);
        vstd::arithmetic::div_mod::lemma_small_mod((jitter - 1) as nat, span as nat);
    }
}

/// Jitter is the part of the time below a second: it is the same a second later, a nanosecond
/// adds one to it until the second is full, and it is zero before the epoch.
pub proof fn law_jitter_is_the_part_of_a_second(time: SystemTime, later: SystemTime)
    ensures
        epoch_nanos(time) < 0 ==> jitter_in(time) == 0,
        0 <= epoch_nanos(time) < 1_000_000_000 ==> jitter_in(time) == epoch_nanos(time),
        epoch_nanos(time) >= 0 && epoch_nanos(later) == epoch_nanos(time) + 1_000_000_000
            ==> jitter_in(later) == jitter_in(time),
        0 <= jitter_in(time) < 1_000_000_000,
{
}

} // verus!
