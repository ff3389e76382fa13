//! The options of the program, and what follows from them.

use crate::plan::{chunk_count, lemma_chunk_count, ChunkPlan};
use crate::probe::Probe;
use crate::retry::RetryCfg;
use crate::speed::SpeedFloor;
use crate::text::{
    decimal, is_digit, is_space, law_decimal_reads_back, lemma_decimal_text, lemma_nothing_to_trim,
    parse_u64, trim, trimmed, u64_of,
};
use std::path::PathBuf;
use vstd::prelude::*;
use vstd::string::*;

verus! {

/// A path in the file system, which only the program itself opens.
#[verifier::external_type_specification]
#[verifier::external_body]
pub struct ExPathBuf(PathBuf);

/// The options of a download.
#[derive(Debug)]
pub struct Cli {
    /// URL to download.
    pub url: String,
    /// Number of parallel connections (workers).
    pub connections: u32,
    /// Size of each range chunk.
    pub chunk_size: u64,
    /// Maximum number of chunks held in memory at once (downloading + buffered).
    ///
    /// Peak memory is roughly `max_buffered * chunk_size`. Defaults to twice the
    /// number of connections, giving each connection one chunk of read-ahead so a
    /// single slow chunk cannot stall the in-order writer and collapse throughput.
    pub max_buffered: Option<u32>,
    /// Per-chunk retry attempts after the first failure.
    pub retries: u32,
    /// Connect and idle (read) timeout in seconds (0 disables it).
    pub timeout: u64,
    /// Minimum sustained per-chunk download speed; 0 disables it.
    pub min_speed: u64,
    /// Window in seconds over which `min_speed` is averaged.
    pub min_speed_window: u64,
    /// Base backoff in milliseconds; doubles each retry up to `backoff_max_ms`.
    pub backoff_ms: u64,
    /// Maximum backoff in milliseconds.
    pub backoff_max_ms: u64,
    /// Per-chunk wall-clock retry budget in seconds (0 = use the `retries` count
    /// instead).
    pub retry_max_secs: u64,
    /// Write to this file instead of stdout.
    pub output: Option<PathBuf>,
    /// Force a single straight-through stream (no range parallelism).
    pub single: bool,
    /// Use HTTP/2 when the server offers it.
    pub http2: bool,
    /// HTTP headers to send, each in the form "Name: value".
    pub headers: Vec<String>,
    /// Suppress the progress line on stderr.
    pub quiet: bool,
    /// Force the progress line even when stderr is not a terminal.
    pub progress: bool,
    /// Log verbosity.
    pub verbose: u8,
    /// Also write structured logs to a rotating file in this directory.
    pub log_dir: Option<PathBuf>,
    /// Number of rotated log files to keep.
    pub log_keep: usize,
    /// User-Agent header value.
    pub user_agent: String,
}

pub const DEFAULT_CONNECTIONS: u32 = 8;

pub const DEFAULT_CHUNK_SIZE: u64 = 8388608;

pub const DEFAULT_RETRIES: u32 = 20;

pub const DEFAULT_TIMEOUT: u64 = 60;

pub const DEFAULT_MIN_SPEED: u64 = 8192;

pub const DEFAULT_MIN_SPEED_WINDOW: u64 = 15;

pub const DEFAULT_BACKOFF_MS: u64 = 200;

pub const DEFAULT_BACKOFF_MAX_MS: u64 = 10_000;

pub const DEFAULT_RETRY_MAX_SECS: u64 = 300;

pub const DEFAULT_LOG_KEEP: usize = 7;

pub const MAX_CONNECTIONS: u32 = 1024;

pub const MAX_BUFFERED: u32 = 65536;

/// Default read-ahead: hold this many chunks per connection so a single slow
/// chunk at the write head cannot starve the other connections of buffer slots.
pub const READAHEAD_FACTOR: u32 = 2;

/// How a resource is downloaded.
#[derive(Debug, Clone, Copy)]
pub enum Mode {
    /// There is nothing to download.
    Empty,
    /// Byte ranges in parallel.
    Ranged { plan: ChunkPlan },
    /// One stream, of this many bytes if the server said so.
    Single { len: Option<u64> },
}

impl Mode {
    /// Number of chunks that the writer has to write, where it is known.
    pub open spec fn to_write(self) -> Option<u64> {
        match self {
            Mode::Empty => Some(0),
            Mode::Ranged { plan } => Some(plan.num_chunks),
            Mode::Single { .. } => None,
        }
    }

    /// Number of chunks that the writer has to write, where it is known.
    pub fn expected(&self) -> (n: Option<u64>)
        ensures
            n == self.to_write(),
    {
        match self {
            Mode::Empty => Some(0),
            Mode::Ranged { plan } => Some(plan.num_chunks),
            Mode::Single { .. } => None,
        }
    }

    /// Number of bytes that progress is measured against, where it is known.
    pub open spec fn to_measure(self) -> Option<u64> {
        match self {
            Mode::Empty => Some(0),
            Mode::Ranged { plan } => Some(plan.total),
            Mode::Single { len } => len,
        }
    }

    /// Number of bytes that progress is measured against, where it is known.
    pub fn progress_total(&self) -> (n: Option<u64>)
        ensures
            n == self.to_measure(),
            n == (match self {
                Mode::Empty => Some(0u64),
                Mode::Ranged { plan } => Some(plan.total),
                Mode::Single { len } => *len,
            }),
    {
        match self {
            Mode::Empty => Some(0),
            Mode::Ranged { plan } => Some(plan.total),
            Mode::Single { len } => *len,
        }
    }
}

impl Cli {
    /// The options for a URL, all others at their defaults.
    pub fn new(url: String, user_agent: String) -> (cli: Self)
        ensures
            cli.url == url,
            cli.user_agent == user_agent,
            cli.connections == 8,
            cli.chunk_size == 8 * 1024 * 1024,
            cli.max_buffered is None,
            cli.retries == 20,
            cli.timeout == 60,
            cli.min_speed == 8 * 1024,
            cli.min_speed_window == 15,
            cli.backoff_ms == 200,
            cli.backoff_max_ms == 10_000,
            cli.retry_max_secs == 300,
            cli.output is None,
            !cli.single && !cli.http2 && !cli.quiet && !cli.progress,
            cli.headers@ == Seq::<String>::empty(),
            cli.verbose == 0,
            cli.log_dir is None,
            cli.log_keep == 7,
    {
        Cli {
            url,
            connections: DEFAULT_CONNECTIONS,
            chunk_size: DEFAULT_CHUNK_SIZE,
            max_buffered: None,
            retries: DEFAULT_RETRIES,
            timeout: DEFAULT_TIMEOUT,
            min_speed: DEFAULT_MIN_SPEED,
            min_speed_window: DEFAULT_MIN_SPEED_WINDOW,
            backoff_ms: DEFAULT_BACKOFF_MS,
            backoff_max_ms: DEFAULT_BACKOFF_MAX_MS,
            retry_max_secs: DEFAULT_RETRY_MAX_SECS,
            output: None,
            single: false,
            http2: false,
            headers: Vec::new(),
            quiet: false,
            progress: false,
            verbose: 0,
            log_dir: None,
            log_keep: DEFAULT_LOG_KEEP,
            user_agent,
        }
    }

    /// Whether the options that shape a download are in their ranges.
    pub open spec fn in_range(self) -> bool {
        &&& 1 <= self.connections <= MAX_CONNECTIONS
        &&& self.chunk_size > 0
        &&& self.max_buffered matches Some(n) ==> 1 <= n <= MAX_BUFFERED
    }

    /// The chunk budget: what the user asked for, else read-ahead for each
    /// connection within the limits of the option.
    pub open spec fn buffer_limit(self) -> int {
        match self.max_buffered {
            Some(n) => n as int,
            None => if self.connections == 0 {
                1
            } else if self.connections * READAHEAD_FACTOR > MAX_BUFFERED {
                MAX_BUFFERED as int
            } else {
                self.connections * READAHEAD_FACTOR
            },
        }
    }

    /// Effective in-memory chunk budget.
    pub fn max_buffered(&self) -> (n: u32)
        ensures
            n == self.buffer_limit(),
    {
        match self.max_buffered {
            Some(n) => n,
            None => if self.connections == 0 {
                1
            } else if self.connections > MAX_BUFFERED / READAHEAD_FACTOR {
                MAX_BUFFERED
            } else {
                self.connections * READAHEAD_FACTOR
            },
        }
    }

    /// Number of threads for the runtime.
    pub open spec fn threads(self) -> int {
        if self.connections < 2 {
            2
        } else if self.connections > 8 {
            8
        } else {
            self.connections as int
        }
    }

    /// Threads for the runtime. The work is network I/O bound, not CPU bound, so
    /// their number follows the connection count, within narrow limits.
    pub fn worker_threads(&self) -> (n: usize)
        ensures
            n == self.threads(),
            n == (if self.connections < 2 {
                2
            } else if self.connections > 8 {
                8
            } else {
                self.connections as int
            }),
    {
        if self.connections < 2 {
            2
        } else if self.connections > 8 {
            8
        } else {
            self.connections as usize
        }
    }

    /// Whether the progress line is shown.
    pub open spec fn shows_progress(self, terminal: bool) -> bool {
        !self.quiet && (self.progress || terminal)
    }

    /// Whether to show the progress line.
    pub fn show_progress(&self, stderr_is_terminal: bool) -> (r: bool)
        ensures
            r == self.shows_progress(stderr_is_terminal),
            r == (!self.quiet && (self.progress || stderr_is_terminal)),
    {
        !self.quiet && (self.progress || stderr_is_terminal)
    }

    /// The retry policy for a chunk.
    pub open spec fn retry_policy(self) -> RetryCfg {
        RetryCfg {
            retries: self.retries,
            backoff_ms: self.backoff_ms,
            backoff_max_ms: self.backoff_max_ms,
            retry_max_secs: self.retry_max_secs,
        }
    }

    /// The retry policy for a chunk.
    pub fn retry_cfg(&self) -> (cfg: RetryCfg)
        ensures
            cfg == self.retry_policy(),
    {
        RetryCfg {
            retries: self.retries,
            backoff_ms: self.backoff_ms,
            backoff_max_ms: self.backoff_max_ms,
            retry_max_secs: self.retry_max_secs,
        }
    }

    /// The throughput floor for a chunk.
    pub open spec fn floor(self) -> SpeedFloor {
        SpeedFloor {
            min_speed: self.min_speed,
            window_secs: self.min_speed_window,
            window_start_ms: 0,
            window_bytes: 0,
        }
    }

    /// The throughput floor for a chunk.
    pub fn speed_floor(&self) -> (floor: SpeedFloor)
        ensures
            floor == self.floor(),
            floor == (SpeedFloor {
                min_speed: self.min_speed,
                window_secs: self.min_speed_window,
                window_start_ms: 0,
                window_bytes: 0,
            }),
    {
        SpeedFloor::new(self.min_speed, self.min_speed_window)
    }

    /// What is known of the server without a probe: a forced single stream needs
    /// none.
    pub fn without_probe(&self) -> (probed: Option<Probe>)
        ensures
            probed == self.known_probe(),
    {
        if self.single {
            Some(Probe::Single { len: None })
        } else {
            None
        }
    }

    /// What is known of the server without a probe.
    pub open spec fn known_probe(self) -> Option<Probe> {
        if self.single {
            Some(Probe::Single { len: None })
        } else {
            None
        }
    }

    /// How to download the resource: nothing where there are no bytes, by the chunks
    /// of the plan where the server serves ranges, else as one stream.
    pub open spec fn chosen_mode(self, probed: Probe) -> Mode {
        match probed {
            Probe::Ranged { total } => if total == 0 {
                Mode::Empty
            } else {
                Mode::Ranged {
                    plan: ChunkPlan {
                        total,
                        chunk_size: self.chunk_size,
                        num_chunks: chunk_count(total as int, self.chunk_size as int) as u64,
                    },
                }
            },
            Probe::Single { len } => Mode::Single { len },
        }
    }

    /// Whether the client keeps to HTTP/1.1, so that each connection is a TCP flow of
    /// its own. Only `http2` lifts that.
    pub fn http1_only(&self) -> (r: bool)
        ensures
            r == !self.http2,
    {
        !self.http2
    }

    /// How many seconds a connection may stall, if that is limited.
    pub open spec fn stall_limit(self) -> Option<u64> {
        if self.timeout == 0 {
            None
        } else {
            Some(self.timeout)
        }
    }

    /// The timeout in seconds for connecting and for each single read, if there is
    /// one. No timeout bounds a transfer as a whole.
    pub fn idle_timeout(&self) -> (secs: Option<u64>)
        ensures
            secs == self.stall_limit(),
            secs == (if self.timeout == 0 {
                None
            } else {
                Some(self.timeout)
            }),
    {
        if self.timeout == 0 {
            None
        } else {
            Some(self.timeout)
        }
    }

    /// How to download the resource, given what the probe learned.
    pub fn mode(&self, probed: Probe) -> (mode: Mode)
        requires
            probed matches Probe::Ranged { total } && total > 0 ==> self.chunk_size > 0,
        ensures
            mode == self.chosen_mode(probed),
            mode matches Mode::Ranged { plan } ==> plan.wf(),
    {
        match probed {
            Probe::Ranged { total } => if total == 0 {
                Mode::Empty
            } else {
                Mode::Ranged { plan: ChunkPlan::new(total, self.chunk_size) }
            },
            Probe::Single { len } => Mode::Single { len },
        }
    }
}

/// The factor that the last character of a size stands for.
pub open spec fn size_factor(c: char) -> Option<nat> {
    if c == 'k' || c == 'K' {
        Some(1024)
    } else if c == 'm' || c == 'M' {
        Some(1048576)
    } else if c == 'g' || c == 'G' {
        Some(1073741824)
    } else if c == 'b' || c == 'B' || is_digit(c) {
        Some(1)
    } else {
        None
    }
}

/// The number of bytes that a size text stands for, or the message that says why
/// it stands for none.
pub open spec fn parsed_size(input: Seq<char>) -> Result<u64, Seq<char>> {
    let s = trimmed(input);
    if s.len() == 0 {
        Err("empty size"@)
    } else {
        match size_factor(s.last()) {
            None => Err("invalid size suffix '"@ + seq![s.last()] + "'"@),
            Some(factor) => {
                let number = if is_digit(s.last()) {
                    s
                } else {
                    s.drop_last()
                };
                match u64_of(trimmed(number)) {
                    None => Err("invalid number in size '"@ + input + "'"@),
                    Some(value) => if value * factor > u64::MAX {
                        Err("size '"@ + input + "' overflows u64"@)
                    } else if value * factor == 0 {
                        Err("size must be greater than zero"@)
                    } else {
                        Ok((value * factor) as u64)
                    },
                }
            },
        }
    }
}

/// The number of bytes per second that a minimum speed stands for: a size, or a
/// literal zero.
pub open spec fn parsed_min_speed(input: Seq<char>) -> Result<u64, Seq<char>> {
    if trimmed(input) == seq!['0'] {
        Ok(0)
    } else {
        parsed_size(input)
    }
}

/// Whether a result is the one that was stated.
pub open spec fn same_result(r: Result<u64, String>, stated: Result<u64, Seq<char>>) -> bool {
    match (r, stated) {
        (Ok(a), Ok(b)) => a == b,
        (Err(a), Err(b)) => a@ == b,
        _ => false,
    }
}

/// `before`, `middle` and `after` one behind the other.
fn join3(before: &str, middle: &str, after: &str) -> (r: String)
    ensures
        r@ == before@ + middle@ + after@,
{
    let mut out = String::new();
    out.append(before);
    out.append(middle);
    out.append(after);
    assert(out@ =~= before@ + middle@ + after@);
    out
}

/// Parse a human-friendly byte size such as `4M`, `512K`, `2G`, or a plain integer.
pub fn parse_size(input: &str) -> (r: Result<u64, String>)
    ensures
        same_result(r, parsed_size(input@)),
{
    let s = trim(input);
    let n: usize = s.unicode_len();
    if n == 0 {
        return Err("empty size".to_owned());
    }
    let last: char = s.get_char(n - 1);
    let factor: u64 = match last {
        'k' | 'K' => 1024,
        'm' | 'M' => 1048576,
        'g' | 'G' => 1073741824,
        'b' | 'B' => 1,
        c => if '0' <= c && c <= '9' {
            1
        } else {
            let suffix = s.substring_char(n - 1, n);
            assert(suffix@ =~= seq![last]);
            return Err(join3("invalid size suffix '", suffix, "'"));
        },
    };
    let digits_only: bool = '0' <= last && last <= '9';
    let number = if digits_only { s } else { s.substring_char(0, n - 1) };
    assert(digits_only || number@ =~= s@.drop_last());
    let value: u64 = match parse_u64(trim(number)) {
        Some(value) => value,
        None => {
            return Err(join3("invalid number in size '", input, "'"));
        },
    };
    let bytes: u64 = match value.checked_mul(factor) {
        Some(bytes) => bytes,
        None => {
            return Err(join3("size '", input, "' overflows u64"));
        },
    };
    if bytes == 0 {
        return Err("size must be greater than zero".to_owned());
    }
    Ok(bytes)
}

/// Parse a `--min-speed` value: a byte size like `parse_size`, plus a literal
/// `0` to disable the throughput floor.
pub fn parse_min_speed(input: &str) -> (r: Result<u64, String>)
    ensures
        same_result(r, parsed_min_speed(input@)),
{
    let s = trim(input);
    if s.unicode_len() == 1 && s.get_char(0) == '0' {
        assert(s@ =~= seq!['0']);
        return Ok(0);
    }
    parse_size(input)
}

/// With option values in their ranges, the chunk budget is positive and within the
/// range of the option.
pub proof fn law_buffer_limit_is_positive(cli: Cli)
    requires
        1 <= cli.connections <= MAX_CONNECTIONS,
        cli.max_buffered matches Some(n) ==> 1 <= n <= MAX_BUFFERED,
    ensures
        1 <= cli.buffer_limit() <= MAX_BUFFERED,
        cli.max_buffered is None ==> cli.buffer_limit() == 2 * cli.connections,
{
}

/// A size is never zero, so every size is good as a chunk size.
pub proof fn law_size_is_positive(input: Seq<char>)
    ensures
        parsed_size(input) matches Ok(size) ==> size > 0,
{
}

/// A number alone is a size in bytes, and a number with a suffix is that many times
/// what the suffix stands for.
pub proof fn law_sizes_read_back(n: u64, suffix: char)
    requires
        n > 0,
    ensures
        parsed_size(decimal(n as nat)) == Ok::<u64, Seq<char>>(n),
        !is_digit(suffix) ==> (size_factor(suffix) matches Some(factor) ==> n * factor <= u64::MAX
            ==> parsed_size(decimal(n as nat).push(suffix)) == Ok::<u64, Seq<char>>(
            (n * factor) as u64,
        )),
{
    let digits = decimal(n as nat);
    lemma_decimal_text(n as nat);
    law_decimal_reads_back(n);
    assert(is_digit(digits.last()));
    assert(size_factor(digits.last()) == Some(1nat));
    assert(n * 1nat == n);
    if !is_digit(suffix) && size_factor(suffix) is Some {
        let s = digits.push(suffix);
        assert(!is_space(suffix));
        assert(is_digit(s[0])) by {
            assert(s[0] == digits[0]);
        }
        lemma_nothing_to_trim(s);
        assert(s.drop_last() =~= digits);
        assert(n * size_factor(suffix)->0 > 0) by (nonlinear_arith)
            requires
                n > 0,
                size_factor(suffix)->0 > 0,
        ;
    }
}

/// Zero turns the speed floor off, and any other minimum speed is a size.
pub proof fn law_min_speed_is_zero_or_a_size(input: Seq<char>)
    ensures
        parsed_min_speed(seq!['0']) == Ok::<u64, Seq<char>>(0),
        trimmed(input) != seq!['0'] ==> parsed_min_speed(input) == parsed_size(input),
        parsed_min_speed(input) == Ok::<u64, Seq<char>>(0) ==> trimmed(input) == seq!['0'],
{
    lemma_nothing_to_trim(seq!['0']);
}

/// The chunk budget is exactly what the user gives, whatever the number of connections.
/// Without it, it is twice the connections, at least one and at most 65536.
pub proof fn law_buffer_limit_is_what_is_asked_for(cli: Cli)
    ensures
        cli.max_buffered matches Some(n) ==> cli.buffer_limit() == n,
        cli.max_buffered is None ==> cli.buffer_limit() == (if cli.connections == 0 {
            1
        } else if cli.connections > 32768 {
            65536
        } else {
            2 * cli.connections
        }),
{
}

/// Options that do not concern it leave the chunk budget as it is.
pub proof fn law_buffer_limit_follows_its_option(cli: Cli, other: Cli)
    requires
        cli.max_buffered == other.max_buffered,
        cli.connections == other.connections || cli.max_buffered is Some,
    ensures
        cli.buffer_limit() == other.buffer_limit(),
{
}

/// The number of bytes in a number and its unit: `k` is for 2^10 bytes, `m` for 2^20, `g` for
/// 2^30, each in either case, and `b` for single ones.
pub proof fn law_units_of_sizes(n: u64)
    requires
        n > 0,
    ensures
        ({
            let digits = decimal(n as nat);
            &&& parsed_size(digits) == Ok::<u64, Seq<char>>(n)
            &&& parsed_size(digits.push('b')) == Ok::<u64, Seq<char>>(n)
            &&& parsed_size(digits.push('B')) == Ok::<u64, Seq<char>>(n)
            &&& n * 1024 <= u64::MAX ==> parsed_size(digits.push('k')) == Ok::<u64, Seq<char>>(
                (n * 1024) as u64,
            ) && parsed_size(digits.push('K')) == Ok::<u64, Seq<char>>((n * 1024) as u64)
            &&& n * 1048576 <= u64::MAX ==> parsed_size(digits.push('m')) == Ok::<u64, Seq<char>>(
                (n * 1048576) as u64,
            ) && parsed_size(digits.push('M')) == Ok::<u64, Seq<char>>((n * 1048576) as u64)
            &&& n * 1073741824 <= u64::MAX ==> parsed_size(digits.push('g')) == Ok::<
                u64,
                Seq<char>,
            >((n * 1073741824) as u64) && parsed_size(digits.push('G')) == Ok::<u64, Seq<char>>(
                (n * 1073741824) as u64,
            )
        }),
{
    law_sizes_read_back(n, 'b');
    law_sizes_read_back(n, 'B');
    law_sizes_read_back(n, 'k');
    law_sizes_read_back(n, 'K');
    law_sizes_read_back(n, 'm');
    law_sizes_read_back(n, 'M');
    law_sizes_read_back(n, 'g');
    law_sizes_read_back(n, 'G');
}

/// How every size text is read: space around it and between number and unit does not count;
/// the number is any text that stands for one; and the size is the number times the unit. A
/// text without a unit is a number of bytes. No text, another unit, no number, a size that
/// 64 bits do not hold and a size of zero are refused, each with its message.
pub proof fn law_every_size_is_read_or_refused(input: Seq<char>)
    ensures
        ({
            let s = trimmed(input);
            let unit = s.last();
            let factor: int = if unit == 'k' || unit == 'K' {
                1024
            } else if unit == 'm' || unit == 'M' {
                1048576
            } else if unit == 'g' || unit == 'G' {
                1073741824
            } else {
                1
            };
            let plain = 48 <= unit as int <= 57;
            let known = plain || unit == 'k' || unit == 'K' || unit == 'm' || unit == 'M' || unit
                == 'g' || unit == 'G' || unit == 'b' || unit == 'B';
            let number = u64_of(
                trimmed(
                    if plain {
                        s
                    } else {
                        s.drop_last()
                    },
                ),
            );
            &&& s.len() == 0 ==> parsed_size(input) == Err::<u64, Seq<char>>("empty size"@)
            &&& s.len() > 0 && !known ==> parsed_size(input) == Err::<u64, Seq<char>>(
                "invalid size suffix '"@ + seq![unit] + "'"@,
            )
            &&& s.len() > 0 && known ==> (match number {
                None => parsed_size(input) == Err::<u64, Seq<char>>(
                    "invalid number in size '"@ + input + "'"@,
                ),
                Some(n) => if n * factor > 0xffff_ffff_ffff_ffff {
                    parsed_size(input) == Err::<u64, Seq<char>>(
                        "size '"@ + input + "' overflows u64"@,
                    )
                } else if n == 0 {
                    parsed_size(input) == Err::<u64, Seq<char>>("size must be greater than zero"@)
                } else {
                    parsed_size(input) == Ok::<u64, Seq<char>>((n * factor) as u64)
                },
            })
        }),
{
    let s = trimmed(input);
    if s.len() > 0 {
        if let Some(factor) = size_factor(s.last()) {
            let number = u64_of(
                trimmed(
                    if is_digit(s.last()) {
                        s
                    } else {
                        s.drop_last()
                    },
                ),
            );
            if let Some(n) = number {
                assert(n * factor == 0 <==> n == 0) by (nonlinear_arith)
                    requires
                        factor > 0,
                        n >= 0,
                ;
            }
        }
    }
}

/// A minimum speed is zero where the text is a single zero, with or without space around it,
/// and else what the text says as a size.
pub proof fn law_every_min_speed_is_read_or_refused(input: Seq<char>)
    ensures
        trimmed(input) == seq!['0'] ==> parsed_min_speed(input) == Ok::<u64, Seq<char>>(0),
        trimmed(input) != seq!['0'] ==> parsed_min_speed(input) == parsed_size(input),
{
}

/// How a resource is downloaded follows from what the probe learned and the chunk size: by
/// chunks of that size over the whole of it, as one stream of the length known, or not at
/// all where it has no bytes. A forced single stream asks for no probe.
pub proof fn law_mode_follows_the_probe(cli: Cli, total: u64, len: Option<u64>)
    requires
        cli.chunk_size > 0,
    ensures
        cli.single ==> cli.known_probe() == Some(Probe::Single { len: None }),
        !cli.single ==> cli.known_probe() is None,
        cli.chosen_mode(Probe::Single { len }) == (Mode::Single { len }),
        cli.chosen_mode(Probe::Ranged { total: 0 }) is Empty,
        total > 0 ==> (cli.chosen_mode(Probe::Ranged { total }) matches Mode::Ranged { plan }
            && plan.total == total && plan.chunk_size == cli.chunk_size && (plan.num_chunks - 1)
            * cli.chunk_size < total <= plan.num_chunks * cli.chunk_size),
{
    lemma_chunk_count(total as int, cli.chunk_size as int);
}

/// The writer waits for every chunk of the plan, for none where there are no bytes, and for
/// no fixed number in a stream; progress is measured against the size where it is known.
pub proof fn law_writer_waits_for_every_chunk(plan: ChunkPlan, len: Option<u64>)
    ensures
        (Mode::Ranged { plan }).to_write() == Some(plan.num_chunks),
        Mode::Empty.to_write() == Some(0u64),
        (Mode::Single { len }).to_write() is None,
        (Mode::Ranged { plan }).to_measure() == Some(plan.total),
        Mode::Empty.to_measure() == Some(0u64),
        (Mode::Single { len }).to_measure() == len,
{
}

/// The retry policy is made of the options, each one unchanged.
pub proof fn law_retry_policy_is_the_options(cli: Cli)
    ensures
        cli.retry_policy().retries == cli.retries,
        cli.retry_policy().backoff_ms == cli.backoff_ms,
        cli.retry_policy().backoff_max_ms == cli.backoff_max_ms,
        cli.retry_policy().retry_max_secs == cli.retry_max_secs,
{
}

/// There are from two to eight threads, one for each connection in between, and never fewer
/// for more connections.
pub proof fn law_threads_follow_the_connections(cli: Cli, other: Cli)
    ensures
        2 <= cli.threads() <= 8,
        2 <= cli.connections <= 8 ==> cli.threads() == cli.connections,
        cli.connections <= other.connections ==> cli.threads() <= other.threads(),
        cli.connections == other.connections ==> cli.threads() == other.threads(),
{
}

/// Quiet shows no progress, forced progress is shown wherever the messages go, and else it
/// is shown on a terminal.
pub proof fn law_progress_is_shown_where_it_is_wanted(cli: Cli, terminal: bool)
    ensures
        cli.quiet ==> !cli.shows_progress(terminal),
        !cli.quiet && cli.progress ==> cli.shows_progress(terminal),
        !cli.quiet && !cli.progress ==> cli.shows_progress(terminal) == terminal,
{
}

/// A timeout of zero seconds is none, and any other counts as it is.
pub proof fn law_timeout_is_the_option(cli: Cli)
    ensures
        cli.timeout == 0 ==> cli.stall_limit() is None,
        cli.timeout > 0 ==> cli.stall_limit() == Some(cli.timeout),
{
}

/// A result is the one stated only where both are the same size, or errors with the same
/// message.
pub proof fn law_same_results_agree(r: Result<u64, String>, stated: Result<u64, Seq<char>>)
    requires
        same_result(r, stated),
    ensures
        stated matches Ok(size) ==> r == Ok::<u64, String>(size),
        stated matches Err(message) ==> (r matches Err(text) && text@ == message),
{
}

/// The throughput floor is made of the options, each one unchanged, and starts at the
/// beginning of the chunk.
pub proof fn law_speed_floor_is_the_options(cli: Cli)
    ensures
        cli.floor().min_speed == cli.min_speed,
        cli.floor().window_secs == cli.min_speed_window,
        cli.floor().window_start_ms == 0,
        cli.floor().window_bytes == 0,
{
}

} // verus!
