//! Progress reporting: what has been written, and the text that says so.
//!
//! Progress never touches the output, so it cannot corrupt the piped data.

use crate::text::{
    decimal, law_numbers_are_written_in_base_ten, padded, push_decimal, push_padded, spaces,
};
use vstd::prelude::*;
use vstd::string::*;

verus! {

/// Download progress state.
#[derive(Debug, Clone, Copy)]
pub struct Progress {
    pub written: u64,
    pub total: Option<u64>,
    pub enabled: bool,
}

impl Progress {
    pub fn new(total: Option<u64>, enabled: bool) -> (progress: Self)
        ensures
            progress == (Progress { written: 0, total, enabled }),
    {
        Progress { written: 0, total, enabled }
    }

    /// The progress after `n` more bytes.
    pub open spec fn added(self, n: u64) -> Self {
        Progress {
            written: ((self.written + n) % 0x1_0000_0000_0000_0000) as u64,
            ..self
        }
    }

    /// The final summary line, where there is one.
    pub open spec fn closing(self, avg_rate: u64, elapsed: Seq<char>) -> Option<Seq<char>> {
        if self.enabled {
            Some(
                "\r"@ + human_text(self.written as nat) + " in "@ + elapsed + " ("@ + human_text(
                    avg_rate as nat,
                ) + "/s)"@ + spaces(10),
            )
        } else {
            None
        }
    }

    /// Record `n` more bytes delivered to the output. The counter wraps around
    /// at 64 bits.
    pub fn add(&mut self, n: u64)
        ensures
            *final(self) == old(self).added(n),
            *final(self) == (Progress {
                written: ((old(self).written + n) % 0x1_0000_0000_0000_0000) as u64,
                ..*old(self)
            }),
    {
        self.written = self.written.wrapping_add(n);
    }

    pub fn written(&self) -> (n: u64)
        ensures
            n == self.written,
    {
        self.written
    }

    /// The status line, which starts with a carriage return so that it replaces
    /// the one before. `percent` is the share of the total with one decimal, and
    /// `elapsed` the time since the start.
    pub open spec fn line(
        self,
        percent: Seq<char>,
        now_rate: u64,
        avg_rate: u64,
        elapsed: Seq<char>,
    ) -> Seq<char> {
        let rates = padded(human_text(now_rate as nat), 9) + "/s (avg "@ + padded(
            human_text(avg_rate as nat),
            9,
        ) + "/s)  "@ + padded(elapsed, 6);
        match self.total {
            Some(total) if total > 0 => "\r"@ + padded(human_text(self.written as nat), 7) + " / "@
                + padded(human_text(total as nat), 7) + "  "@ + padded(percent, 5) + "%  "@ + rates,
            _ => "\r"@ + padded(human_text(self.written as nat), 7) + "  "@ + rates,
        }
    }

    /// The status line. Rates are in bytes per second.
    pub fn render(&self, percent: &str, now_rate: u64, avg_rate: u64, elapsed: &str) -> (r: String)
        ensures
            r@ == self.line(percent@, now_rate, avg_rate, elapsed@),
    {
        let mut out = String::new();
        out.append("\r");
        push_padded(&mut out, human(self.written).as_str(), 7);
        match self.total {
            Some(total) if total > 0 => {
                out.append(" / ");
                push_padded(&mut out, human(total).as_str(), 7);
                out.append("  ");
                push_padded(&mut out, percent, 5);
                out.append("%  ");
            },
            _ => {
                out.append("  ");
            },
        }
        push_padded(&mut out, human(now_rate).as_str(), 9);
        out.append("/s (avg ");
        push_padded(&mut out, human(avg_rate).as_str(), 9);
        out.append("/s)  ");
        push_padded(&mut out, elapsed, 6);
        assert(out@ =~= self.line(percent@, now_rate, avg_rate, elapsed@));
        out
    }

    /// The final summary line, or nothing when progress is disabled. Its trailing
    /// spaces cover what is left of the last status line.
    pub fn summary(&self, avg_rate: u64, elapsed: &str) -> (r: Option<String>)
        ensures
            r is Some <==> self.closing(avg_rate, elapsed@) is Some,
            r matches Some(text) ==> Some(text@) == self.closing(avg_rate, elapsed@),
            r is Some <==> self.enabled,
            r matches Some(text) ==> text@ == "\r"@ + human_text(self.written as nat) + " in "@
                + elapsed@ + " ("@ + human_text(avg_rate as nat) + "/s)"@ + spaces(10),
    {
        if !self.enabled {
            return None;
        }
        let mut out = String::new();
        out.append("\r");
        out.append(human(self.written).as_str());
        out.append(" in ");
        out.append(elapsed);
        out.append(" (");
        out.append(human(avg_rate).as_str());
        out.append("/s)");
        push_padded(&mut out, "", 10);
        proof {
            reveal_strlit("");
            assert(padded(""@, 10) =~= spaces(10));
        }
        assert(out@ =~= "\r"@ + human_text(self.written as nat) + " in "@ + elapsed@ + " ("@
            + human_text(avg_rate as nat) + "/s)"@ + spaces(10));
        Some(out)
    }
}

/// `n / unit` rounded to the nearest integer, and to the even one of two that
/// are equally near.
pub open spec fn half_even(n: nat, unit: nat) -> nat {
    let q = n / unit;
    let r = n % unit;
    if 2 * r < unit || (2 * r == unit && q % 2 == 0) {
        q
    } else {
        q + 1
    }
}

/// The distance between neighbouring double-precision numbers around `n`.
pub open spec fn double_step(n: nat) -> nat
    decreases n,
{
    if n < 0x20_0000_0000_0000 {
        1
    } else {
        2 * double_step(n / 2)
    }
}

/// `n` in double precision: 53 significant bits.
pub open spec fn as_double(n: nat) -> nat {
    half_even(n, double_step(n)) * double_step(n)
}

/// The binary unit for a count of at least 1024 bytes: its size and its name.
pub open spec fn binary_unit(n: nat) -> (nat, Seq<char>) {
    if n < 0x10_0000 {
        (0x400, "KiB"@)
    } else if n < 0x4000_0000 {
        (0x10_0000, "MiB"@)
    } else if n < 0x100_0000_0000 {
        (0x4000_0000, "GiB"@)
    } else if n < 0x4_0000_0000_0000 {
        (0x100_0000_0000, "TiB"@)
    } else {
        (0x4_0000_0000_0000, "PiB"@)
    }
}

/// A byte count as people read it: whole bytes below one KiB, else one decimal
/// of the largest binary unit that is not larger than the count.
pub open spec fn human_text(bytes: nat) -> Seq<char> {
    if bytes < 1024 {
        decimal(bytes) + " B"@
    } else {
        let value = as_double(bytes);
        let unit = binary_unit(value);
        let tenths = half_even(10 * value, unit.0);
        decimal(tenths / 10) + "."@ + decimal(tenths % 10) + " "@ + unit.1
    }
}

fn round_half_even(n: u128, unit: u128) -> (r: u128)
    requires
        0 < unit < 0x1_0000_0000_0000_0000,
        n < 0x100_0000_0000_0000_0000,
    ensures
        r == half_even(n as nat, unit as nat),
{
    let q: u128 = n / unit;
    let rest: u128 = n % unit;
    proof {
        vstd::arithmetic::div_mod::lemma_div_is_ordered_by_denominator(n as int, 1, unit as int);
        vstd::arithmetic::div_mod::lemma_div_basics(n as int);
    }
    if 2 * rest < unit || (2 * rest == unit && q % 2 == 0) {
        q
    } else {
        q + 1
    }
}

/// The step of double precision is a power of two that leaves at least 53 bits.
proof fn lemma_double_step(n: nat)
    ensures
        1 <= double_step(n),
        double_step(n) == 1 || double_step(n) * 0x10_0000_0000_0000 <= n,
    decreases n,
{
    if n >= 0x20_0000_0000_0000 {
        lemma_double_step(n / 2);
    }
}

/// Counts of less than 53 bits are not rounded on the way to the unit.
pub proof fn law_small_counts_are_exact(n: nat)
    requires
        n < 0x20_0000_0000_0000,
    ensures
        as_double(n) == n,
{
    assert(double_step(n) == 1);
    assert(n / 1 == n && n % 1 == 0);
}

/// `n` in double precision.
fn to_double(n: u64) -> (r: u128)
    ensures
        r == as_double(n as nat),
        r <= 0x2_0000_0000_0000_0000,
{
    let mut step: u64 = 1;
    let mut m: u64 = n;
    proof {
        lemma_double_step(n as nat);
    }
    while m >= 0x20_0000_0000_0000
        invariant
            double_step(n as nat) == step * double_step(m as nat),
            1 <= step,
            double_step(n as nat) == 1 || double_step(n as nat) * 0x10_0000_0000_0000 <= n,
        decreases m,
    {
        proof {
            lemma_double_step((m / 2) as nat);
            assert(step * (2 * double_step((m / 2) as nat)) == (2 * step) * double_step(
                (m / 2) as nat,
            )) by (nonlinear_arith);
            assert(2 * step <= (2 * step) * double_step((m / 2) as nat)) by (nonlinear_arith)
                requires
                    double_step((m / 2) as nat) >= 1,
            ;
        }
        m = m / 2;
        step = step * 2;
    }
    let q: u128 = round_half_even(n as u128, step as u128);
    proof {
        vstd::arithmetic::div_mod::lemma_fundamental_div_mod(n as int, step as int);
        vstd::arithmetic::mul::lemma_mul_is_commutative(step as int, n as int / step as int);
        vstd::arithmetic::mul::lemma_mul_is_distributive_add_other_way(
            step as int,
            n as int / step as int,
            1,
        );
        assert(double_step(m as nat) == 1);
        assert(step * double_step(m as nat) == step) by (nonlinear_arith)
            requires
                double_step(m as nat) == 1,
        ;
        assert(q * step <= n + step);
    }
    q * step as u128
}

/// Format a byte count with a binary unit suffix.
pub fn human(bytes: u64) -> (r: String)
    ensures
        r@ == human_text(bytes as nat),
{
    let mut out = String::new();
    if bytes < 1024 {
        push_decimal(&mut out, bytes);
        out.append(" B");
        assert(out@ =~= human_text(bytes as nat));
        return out;
    }
    let value: u128 = to_double(bytes);
    let (size, name): (u128, &str) = if value < 0x10_0000 {
        (0x400, "KiB")
    } else if value < 0x4000_0000 {
        (0x10_0000, "MiB")
    } else if value < 0x100_0000_0000 {
        (0x4000_0000, "GiB")
    } else if value < 0x4_0000_0000_0000 {
        (0x100_0000_0000, "TiB")
    } else {
        (0x4_0000_0000_0000, "PiB")
    };
    let tenths: u128 = round_half_even(value * 10, size);
    proof {
        let unit = binary_unit(value as nat);
        assert(unit.0 == size && unit.1 == name@);
        assert(tenths == half_even(10 * (value as nat), unit.0));
    }
    push_decimal(&mut out, (tenths / 10) as u64);
    out.append(".");
    push_decimal(&mut out, (tenths % 10) as u64);
    out.append(" ");
    out.append(name);
    assert(out@ =~= human_text(bytes as nat));
    out
}

/// Two digits at least, with a leading zero where the number has only one.
pub open spec fn two_digits(n: nat) -> Seq<char> {
    if n < 10 {
        "0"@ + decimal(n)
    } else {
        decimal(n)
    }
}

fn push_two_digits(out: &mut String, n: u64)
    ensures
        final(out)@ == old(out)@ + two_digits(n as nat),
{
    let ghost before = out@;
    if n < 10 {
        out.append("0");
    }
    push_decimal(out, n);
    assert(out@ =~= before + two_digits(n as nat));
}

/// An elapsed time: hours and minutes from one hour on, minutes and seconds from
/// one minute on, else `seconds`, the seconds with one decimal.
pub open spec fn elapsed_text(whole: nat, seconds: Seq<char>) -> Seq<char> {
    if whole >= 3600 {
        decimal(whole / 3600) + "h"@ + two_digits((whole % 3600) / 60) + "m"@
    } else if whole >= 60 {
        decimal(whole / 60) + "m"@ + two_digits(whole % 60) + "s"@
    } else {
        seconds + "s"@
    }
}

/// Format an elapsed duration as `Hh`, `Mm`, or `Ss`, from its whole seconds and
/// its seconds written with one decimal.
pub fn elapsed_str(whole: u64, seconds: &str) -> (r: String)
    ensures
        r@ == elapsed_text(whole as nat, seconds@),
{
    let mut out = String::new();
    if whole >= 3600 {
        push_decimal(&mut out, whole / 3600);
        out.append("h");
        push_two_digits(&mut out, (whole % 3600) / 60);
        out.append("m");
    } else if whole >= 60 {
        push_decimal(&mut out, whole / 60);
        out.append("m");
        push_two_digits(&mut out, whole % 60);
        out.append("s");
    } else {
        out.append(seconds);
        out.append("s");
    }
    assert(out@ =~= elapsed_text(whole as nat, seconds@));
    out
}

/// What the reporter remembers between two status lines.
#[derive(Debug, Clone, Copy)]
pub struct Reporter {
    pub last_bytes: u64,
}

impl Reporter {
    pub fn new() -> (reporter: Self)
        ensures
            reporter.last_bytes == 0,
    {
        Reporter { last_bytes: 0 }
    }

    /// The bytes that came since the last status line.
    pub open spec fn delta(self, bytes: u64) -> u64 {
        if bytes >= self.last_bytes {
            (bytes - self.last_bytes) as u64
        } else {
            0
        }
    }

    /// The bytes written since the last call.
    pub fn tick(&mut self, bytes: u64) -> (delta: u64)
        ensures
            delta == old(self).delta(bytes),
            delta == (if bytes >= old(self).last_bytes {
                bytes - old(self).last_bytes
            } else {
                0
            }),
            final(self).last_bytes == bytes,
    {
        let delta: u64 = bytes.saturating_sub(self.last_bytes);
        self.last_bytes = bytes;
        delta
    }
}

/// Rounding is to the nearest: never off by more than half a unit, and where two are equally
/// near, to the even one.
pub proof fn law_rounding_is_to_the_nearest(n: nat, unit: nat)
    requires
        unit > 0,
    ensures
        -unit <= 2 * (n - half_even(n, unit) * unit) <= unit,
        2 * (n - half_even(n, unit) * unit) == unit || 2 * (n - half_even(n, unit) * unit) == -unit
            ==> half_even(n, unit) % 2 == 0,
{
    let q = n / unit;
    let r = n % unit;
    vstd::arithmetic::div_mod::lemma_fundamental_div_mod(n as int, unit as int);
    vstd::arithmetic::mul::lemma_mul_is_commutative(unit as int, q as int);
    vstd::arithmetic::mul::lemma_mul_is_distributive_add_other_way(unit as int, q as int, 1);
    vstd::arithmetic::div_mod::lemma_mod_bound(n as int, unit as int);
}

/// A count reads as tenths of a unit that lie nearest to it.
pub open spec fn reads_as_tenths(text: Seq<char>, bytes: nat, unit: nat, name: Seq<char>) -> bool {
    exists|tenths: nat|
        text == #[trigger] decimal(tenths / 10) + "."@ + decimal(tenths % 10) + " "@ + name && -unit
            <= 2 * (10 * bytes - tenths * unit) <= unit
}

/// A byte count is shown in whole bytes below 1024, and else in the largest of KiB, MiB, GiB,
/// TiB and PiB that is not larger than it, to the nearest tenth.
pub proof fn law_counts_are_shown_to_the_nearest_tenth(bytes: nat)
    requires
        bytes < 0x20_0000_0000_0000,
    ensures
        bytes < 1024 ==> human_text(bytes) == decimal(bytes) + " B"@,
        1024 <= bytes < 0x10_0000 ==> reads_as_tenths(human_text(bytes), bytes, 0x400, "KiB"@),
        0x10_0000 <= bytes < 0x4000_0000 ==> reads_as_tenths(
            human_text(bytes),
            bytes,
            0x10_0000,
            "MiB"@,
        ),
        0x4000_0000 <= bytes < 0x100_0000_0000 ==> reads_as_tenths(
            human_text(bytes),
            bytes,
            0x4000_0000,
            "GiB"@,
        ),
        0x100_0000_0000 <= bytes < 0x4_0000_0000_0000 ==> reads_as_tenths(
            human_text(bytes),
            bytes,
            0x100_0000_0000,
            "TiB"@,
        ),
        0x4_0000_0000_0000 <= bytes ==> reads_as_tenths(
            human_text(bytes),
            bytes,
            0x4_0000_0000_0000,
            "PiB"@,
        ),
{
    law_small_counts_are_exact(bytes);
    if bytes >= 1024 {
        let unit = binary_unit(bytes);
        let tenths = half_even(10 * bytes, unit.0);
        law_rounding_is_to_the_nearest(10 * bytes, unit.0);
        assert(human_text(bytes) == decimal(tenths / 10) + "."@ + decimal(tenths % 10) + " "@
            + unit.1);
        assert(reads_as_tenths(human_text(bytes), bytes, unit.0, unit.1));
    }
}

/// Larger counts pass through double precision: a count has at most 53 significant bits then,
/// and lies within half a step of those from what it was.
pub proof fn law_large_counts_keep_their_leading_bits(n: nat)
    ensures
        -double_step(n) <= 2 * (n - as_double(n)) <= double_step(n),
        n >= 0x20_0000_0000_0000 ==> double_step(n) * 0x10_0000_0000_0000 <= n < double_step(n)
            * 0x20_0000_0000_0000,
    decreases n,
{
    lemma_double_step(n);
    law_rounding_is_to_the_nearest(n, double_step(n));
    if n >= 0x20_0000_0000_0000 {
        lemma_double_step(n / 2);
        if n / 2 >= 0x20_0000_0000_0000 {
            law_large_counts_keep_their_leading_bits(n / 2);
        }
    }
}

/// A time reads as its hours and minutes, its minutes and seconds, or its seconds, by what it
/// is made of; minutes and seconds behind a larger unit have two digits.
pub proof fn law_times_read_by_their_parts(h: nat, m: nat, s: nat, seconds: Seq<char>)
    requires
        m < 60,
        s < 60,
    ensures
        h > 0 ==> elapsed_text(3600 * h + 60 * m + s, seconds) == decimal(h) + "h"@ + seq![
            (48 + m / 10) as char,
            (48 + m % 10) as char,
        ] + "m"@,
        m > 0 ==> elapsed_text(60 * m + s, seconds) == decimal(m) + "m"@ + seq![
            (48 + s / 10) as char,
            (48 + s % 10) as char,
        ] + "s"@,
        elapsed_text(s, seconds) == seconds + "s"@,
{
    let whole = 3600 * h + 60 * m + s;
    assert(whole / 3600 == h && whole % 3600 == 60 * m + s);
    assert((60 * m + s) / 60 == m && (60 * m + s) % 60 == s);
    lemma_two_digits(m);
    lemma_two_digits(s);
}

proof fn lemma_two_digits(n: nat)
    requires
        n < 60,
    ensures
        two_digits(n) == seq![(48 + n / 10) as char, (48 + n % 10) as char],
{
    reveal_strlit("0");
    law_numbers_are_written_in_base_ten(n / 10, n % 10);
    law_numbers_are_written_in_base_ten(0, n / 10);
    assert(n == 10 * (n / 10) + n % 10);
    assert(two_digits(n) =~= seq![(48 + n / 10) as char, (48 + n % 10) as char]);
}

/// The status line is made of the bytes written, the total with the share where it is known,
/// the rate now and on average, and the time, each in a column of its own; a total of zero
/// counts as none.
pub proof fn law_status_line_holds_its_columns(
    progress: Progress,
    percent: Seq<char>,
    now_rate: u64,
    avg_rate: u64,
    elapsed: Seq<char>,
)
    ensures
        ({
            let line = progress.line(percent, now_rate, avg_rate, elapsed);
            let written = padded(human_text(progress.written as nat), 7);
            let rates = padded(human_text(now_rate as nat), 9) + "/s (avg "@ + padded(
                human_text(avg_rate as nat),
                9,
            ) + "/s)  "@ + padded(elapsed, 6);
            &&& progress.total is None || progress.total == Some(0u64) ==> line == "\r"@ + written
                + "  "@ + rates
            &&& progress.total matches Some(total) ==> (total > 0 ==> line == "\r"@ + written
                + " / "@ + padded(human_text(total as nat), 7) + "  "@ + padded(percent, 5) + "%  "@
                + rates)
        }),
{
}

/// The summary is given exactly where progress is on, and tells the bytes written, the time
/// and the average rate.
pub proof fn law_summary_tells_the_whole(progress: Progress, avg_rate: u64, elapsed: Seq<char>)
    ensures
        !progress.enabled ==> progress.closing(avg_rate, elapsed) is None,
        progress.enabled ==> progress.closing(avg_rate, elapsed) == Some(
            "\r"@ + human_text(progress.written as nat) + " in "@ + elapsed + " ("@ + human_text(
                avg_rate as nat,
            ) + "/s)"@ + seq![' ', ' ', ' ', ' ', ' ', ' ', ' ', ' ', ' ', ' '],
        ),
{
    assert(spaces(10) =~= seq![' ', ' ', ' ', ' ', ' ', ' ', ' ', ' ', ' ', ' ']);
}

/// Bytes add up: recording two amounts is recording their sum, as long as 64 bits hold it, and
/// neither the total nor the switch changes.
pub proof fn law_written_bytes_add_up(progress: Progress, a: u64, b: u64)
    requires
        progress.written + a + b <= u64::MAX,
    ensures
        progress.added(a).written == progress.written + a,
        progress.added(a).added(b) == progress.added((a + b) as u64),
        progress.added(a).total == progress.total,
        progress.added(a).enabled == progress.enabled,
{
}

/// What came between status lines adds up: two looks in a row count every byte once, and one
/// at a smaller count counts none.
pub proof fn law_ticks_add_up(start: u64, middle: u64, end: u64)
    requires
        start <= middle <= end,
    ensures
        (Reporter { last_bytes: start }).delta(middle) + (Reporter { last_bytes: middle }).delta(end)
            == end - start,
        (Reporter { last_bytes: end }).delta(start) == 0,
{
}

/// The step of double precision is one below 2^53, and doubles whenever the count does from
/// there on; counts that large are shown in PiB, from what double precision keeps of them.
pub proof fn law_huge_counts_are_shown_in_pib(n: nat)
    requires
        n >= 0x20_0000_0000_0000,
    ensures
        double_step(n) == 2 * double_step(n / 2),
        reads_as_tenths(human_text(n), as_double(n), 0x4_0000_0000_0000, "PiB"@),
{
    law_large_counts_keep_their_leading_bits(n);
    let value = as_double(n);
    let tenths = half_even(10 * value, 0x4_0000_0000_0000);
    law_rounding_is_to_the_nearest(10 * value, 0x4_0000_0000_0000);
    assert(human_text(n) == decimal(tenths / 10) + "."@ + decimal(tenths % 10) + " "@ + "PiB"@);
}

} // verus!
