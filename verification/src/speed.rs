//! The throughput floor that drops a wedged chunk so that it is fetched again.

use vstd::prelude::*;

verus! {

/// Watches the throughput of one chunk over consecutive windows.
#[derive(Debug, Clone, Copy)]
pub struct SpeedFloor {
    /// Minimum sustained speed in bytes per second; zero disables the floor.
    pub min_speed: u64,
    /// Window in seconds over which the speed is averaged.
    pub window_secs: u64,
    /// When the current window began, in milliseconds since the chunk did.
    pub window_start_ms: u64,
    /// Bytes of the chunk that had come when the current window began.
    pub window_bytes: u64,
}

impl SpeedFloor {
    /// Whether the current window is over.
    pub open spec fn window_over(self, now_ms: u64) -> bool {
        now_ms - self.window_start_ms >= self.window_secs * 1000
    }

    /// Whether `bytes` at `now_ms` make an average below the floor since the
    /// current window began.
    pub open spec fn below_floor(self, now_ms: u64, bytes: u64) -> bool {
        (bytes - self.window_bytes) * 1000 < self.min_speed * (now_ms - self.window_start_ms)
    }

    /// Whether a chunk of which `bytes` bytes came in `now_ms` milliseconds is too
    /// slow: its window is over and its average was below the floor.
    pub open spec fn too_slow(self, now_ms: u64, bytes: u64) -> bool {
        self.min_speed > 0 && self.window_over(now_ms) && self.below_floor(now_ms, bytes)
    }

    /// The state after a look at the chunk: a new window begins where one was
    /// passed.
    pub open spec fn observed(self, now_ms: u64, bytes: u64) -> Self {
        if self.min_speed > 0 && self.window_over(now_ms) && !self.below_floor(now_ms, bytes) {
            SpeedFloor { window_start_ms: now_ms, window_bytes: bytes, ..self }
        } else {
            self
        }
    }

    pub fn new(min_speed: u64, window_secs: u64) -> (floor: Self)
        ensures
            floor == (SpeedFloor { min_speed, window_secs, window_start_ms: 0, window_bytes: 0 }),
    {
        SpeedFloor { min_speed, window_secs, window_start_ms: 0, window_bytes: 0 }
    }

    /// Look at the chunk `now_ms` milliseconds after it began, when `bytes` of its
    /// bytes have come: say whether it is too slow, and begin a new window where
    /// one was passed.
    pub fn observe(&mut self, now_ms: u64, bytes: u64) -> (slow: bool)
        ensures
            slow == old(self).too_slow(now_ms, bytes),
            *final(self) == old(self).observed(now_ms, bytes),
    {
        if self.min_speed == 0 {
            return false;
        }
        let elapsed: i128 = now_ms as i128 - self.window_start_ms as i128;
        if elapsed < self.window_secs as i128 * 1000 {
            return false;
        }
        let got: i128 = bytes as i128 - self.window_bytes as i128;
        proof {
            vstd::arithmetic::mul::lemma_mul_upper_bound(
                self.min_speed as int,
                u64::MAX as int,
                elapsed as int,
                u64::MAX as int,
            );
            vstd::arithmetic::mul::lemma_mul_nonnegative(self.min_speed as int, elapsed as int);
            assert(u64::MAX * u64::MAX == 0xffff_ffff_ffff_fffe_0000_0000_0000_0001) by (nonlinear_arith);
        }
        let needed: u128 = self.min_speed as u128 * elapsed as u128;
        if got < 0 || (got as u128) * 1000 < needed {
            return true;
        }
        self.window_start_ms = now_ms;
        self.window_bytes = bytes;
        false
    }

    /// When a look at the chunk is due: when the current window will be over.
    pub open spec fn due(self) -> Option<u64> {
        if self.min_speed == 0 {
            None
        } else if self.window_start_ms + self.window_secs * 1000 < u64::MAX {
            Some((self.window_start_ms + self.window_secs * 1000) as u64)
        } else {
            Some(u64::MAX)
        }
    }

    /// When the current window will be over, in milliseconds since the chunk
    /// began, or `None` when the floor is disabled.
    pub fn window_end_ms(&self) -> (ms: Option<u64>)
        ensures
            ms == self.due(),
            ms is Some <==> self.min_speed > 0,
            ms matches Some(ms) ==> ms == (if self.window_start_ms + self.window_secs * 1000
                < u64::MAX {
                self.window_start_ms + self.window_secs * 1000
            } else {
                u64::MAX as int
            }),
    {
        if self.min_speed == 0 {
            return None;
        }
        let end: u128 = self.window_start_ms as u128 + self.window_secs as u128 * 1000;
        if end < u64::MAX as u128 {
            Some(end as u64)
        } else {
            Some(u64::MAX)
        }
    }
}

/// A chunk that keeps at least the minimum speed is never dropped, and neither is
/// any chunk while the floor is disabled or the first window lasts.
pub proof fn law_fast_enough_is_kept(floor: SpeedFloor, now_ms: u64, bytes: u64)
    requires
        floor.min_speed == 0 || !floor.window_over(now_ms) || (bytes - floor.window_bytes) * 1000
            >= floor.min_speed * (now_ms - floor.window_start_ms),
    ensures
        !floor.too_slow(now_ms, bytes),
{
}

/// A connection that stalls is dropped: of two looks at it that lie a window
/// apart, with nothing come in between and the first at or after the end of a
/// window, one finds the chunk too slow.
pub proof fn law_stall_is_dropped(floor: SpeedFloor, first_ms: u64, second_ms: u64, bytes: u64)
    requires
        floor.min_speed > 0,
        floor.window_secs > 0,
        floor.window_over(first_ms),
        second_ms - first_ms >= floor.window_secs * 1000,
    ensures
        floor.too_slow(first_ms, bytes) || floor.observed(first_ms, bytes).too_slow(
            second_ms,
            bytes,
        ),
{
    vstd::arithmetic::mul::lemma_mul_strictly_positive(
        floor.min_speed as int,
        second_ms - first_ms,
    );
}

/// A chunk is dropped exactly when the floor is on, the current window is over, and fewer
/// bytes came since it began than the minimum speed asks for in that time, whatever came in
/// earlier windows.
pub proof fn law_slow_window_is_dropped(floor: SpeedFloor, now_ms: u64, bytes: u64)
    ensures
        floor.too_slow(now_ms, bytes) <==> {
            &&& floor.min_speed > 0
            &&& now_ms >= floor.window_start_ms + 1000 * floor.window_secs
            &&& 1000 * (bytes - floor.window_bytes) < floor.min_speed * (now_ms
                - floor.window_start_ms)
        },
{
}

/// A window that was passed is followed by one that begins where it ended, at the time and
/// the bytes of the look; until then the window stays as it is, and so does what is asked of
/// it.
pub proof fn law_windows_follow_each_other(floor: SpeedFloor, now_ms: u64, bytes: u64)
    ensures
        ({
            let next = floor.observed(now_ms, bytes);
            let passed = floor.min_speed > 0 && now_ms >= floor.window_start_ms + 1000
                * floor.window_secs && !floor.too_slow(now_ms, bytes);
            &&& next.min_speed == floor.min_speed
            &&& next.window_secs == floor.window_secs
            &&& passed ==> next.window_start_ms == now_ms && next.window_bytes == bytes
            &&& !passed ==> next.window_start_ms == floor.window_start_ms && next.window_bytes
                == floor.window_bytes
        }),
{
}

/// Each window is judged by its own bytes: where a first window was passed, a second look
/// finds the chunk too slow exactly when the second window is over and the bytes that came
/// in it are too few.
pub proof fn law_second_window_counts_alone(
    floor: SpeedFloor,
    first_ms: u64,
    first_bytes: u64,
    second_ms: u64,
    second_bytes: u64,
)
    requires
        floor.min_speed > 0,
        first_ms >= floor.window_start_ms + 1000 * floor.window_secs,
        !floor.too_slow(first_ms, first_bytes),
    ensures
        floor.observed(first_ms, first_bytes).too_slow(second_ms, second_bytes) <==> second_ms
            - first_ms >= 1000 * floor.window_secs && 1000 * (second_bytes - first_bytes)
            < floor.min_speed * (second_ms - first_ms),
{
}

/// The time at which a look is due is the first one at which a window can be over: before
/// it no chunk is dropped, and at it every chunk is judged.
pub proof fn law_look_is_due_when_the_window_ends(floor: SpeedFloor, now_ms: u64, bytes: u64)
    ensures
        floor.due() is Some <==> floor.min_speed > 0,
        floor.due() matches Some(ms) ==> (now_ms < ms ==> !floor.too_slow(now_ms, bytes)
            && floor.observed(now_ms, bytes) == floor),
        floor.due() matches Some(ms) ==> (ms < u64::MAX && now_ms >= ms ==> floor.too_slow(
            now_ms,
            bytes,
        ) || floor.observed(now_ms, bytes).window_start_ms == now_ms),
{
}

} // verus!
