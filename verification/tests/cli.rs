use pcurl::cli::{parse_min_speed, parse_size, Cli, Mode};
use pcurl::probe::Probe;

fn options(connections: u32) -> Cli {
    let mut cli = Cli::new("http://x".to_string(), "pcurl/0.1.0".to_string());
    cli.connections = connections;
    cli
}

#[test]
fn parses_plain_and_suffixed_sizes() {
    assert_eq!(parse_size("1024").unwrap(), 1024);
    assert_eq!(parse_size("1K").unwrap(), 1024);
    assert_eq!(parse_size("4M").unwrap(), 4 * 1024 * 1024);
    assert_eq!(parse_size("2g").unwrap(), 2 * 1024 * 1024 * 1024);
    assert_eq!(parse_size("512b").unwrap(), 512);
}

#[test]
fn rejects_bad_sizes() {
    assert!(parse_size("").is_err());
    assert!(parse_size("0").is_err());
    assert!(parse_size("abc").is_err());
    assert!(parse_size("12x").is_err());
}

#[test]
fn min_speed_allows_zero_and_suffixes() {
    assert_eq!(parse_min_speed("0").unwrap(), 0);
    assert_eq!(parse_min_speed("8K").unwrap(), 8 * 1024);
    assert_eq!(parse_min_speed("1M").unwrap(), 1024 * 1024);
    assert!(parse_min_speed("nope").is_err());
}

#[test]
fn max_buffered_defaults_to_twice_connections() {
    let cli = options(8);
    assert_eq!(cli.max_buffered(), 16);
    // An explicit value overrides the read-ahead default.
    let mut cli = options(8);
    cli.max_buffered = Some(5);
    assert_eq!(cli.max_buffered(), 5);
}

#[test]
fn max_buffered_stays_in_its_limits() {
    assert_eq!(options(0).max_buffered(), 1);
    assert_eq!(options(1).max_buffered(), 2);
    assert_eq!(options(1024).max_buffered(), 2048);
    assert_eq!(options(32768).max_buffered(), 65536);
    assert_eq!(options(32769).max_buffered(), 65536);
    assert_eq!(options(u32::MAX).max_buffered(), 65536);
}

#[test]
fn size_errors_say_what_is_wrong() {
    assert_eq!(parse_size("  ").unwrap_err(), "empty size");
    assert_eq!(parse_size("12x").unwrap_err(), "invalid size suffix 'x'");
    assert_eq!(parse_size("5é").unwrap_err(), "invalid size suffix 'é'");
    assert_eq!(
        parse_size(" 1.5M ").unwrap_err(),
        "invalid number in size ' 1.5M '"
    );
    assert_eq!(parse_size("K").unwrap_err(), "invalid number in size 'K'");
    assert_eq!(parse_size("-5").unwrap_err(), "invalid number in size '-5'");
    assert_eq!(
        parse_size("18446744073709551616").unwrap_err(),
        "invalid number in size '18446744073709551616'"
    );
    assert_eq!(
        parse_size("17179869184G").unwrap_err(),
        "size '17179869184G' overflows u64"
    );
    assert_eq!(parse_size("0K").unwrap_err(), "size must be greater than zero");
    assert_eq!(
        parse_min_speed("0K").unwrap_err(),
        "size must be greater than zero"
    );
}

#[test]
fn sizes_allow_space_and_a_plus_sign() {
    assert_eq!(parse_size("\t4 M\u{a0}").unwrap(), 4 * 1024 * 1024);
    assert_eq!(parse_size("+7").unwrap(), 7);
    assert_eq!(parse_size("18446744073709551615").unwrap(), u64::MAX);
    assert_eq!(parse_size("17179869183G").unwrap(), 17179869183 << 30);
    assert_eq!(parse_min_speed(" 0 ").unwrap(), 0);
}

#[test]
fn every_suffix_scales_its_number() {
    for (suffix, factor) in [("", 1u64), ("b", 1), ("k", 1 << 10), ("M", 1 << 20), ("G", 1 << 30)] {
        for n in [1u64, 7, 1000] {
            assert_eq!(parse_size(&format!("{n}{suffix}")).unwrap(), n * factor);
        }
    }
}

#[test]
fn defaults() {
    let cli = Cli::new("http://x".to_string(), "pcurl/0.1.0".to_string());
    assert_eq!(cli.chunk_size, parse_size("8M").unwrap());
    assert_eq!(cli.min_speed, parse_min_speed("8K").unwrap());
    assert_eq!(cli.retries, 20);
    assert_eq!(cli.retry_cfg().retry_max_secs, 300);
    assert_eq!(cli.retry_cfg().backoff_ms, 200);
    assert_eq!(cli.retry_cfg().backoff_max_ms, 10_000);
    assert_eq!(cli.speed_floor().window_secs, 15);
    assert_eq!(cli.log_keep, 7);
    assert!(cli.headers.is_empty());
}

#[test]
fn threads_follow_connections_within_limits() {
    assert_eq!(options(1).worker_threads(), 2);
    assert_eq!(options(5).worker_threads(), 5);
    assert_eq!(options(64).worker_threads(), 8);
}

#[test]
fn progress_is_shown_on_a_terminal_or_when_forced() {
    let mut cli = options(8);
    assert!(cli.show_progress(true));
    assert!(!cli.show_progress(false));
    cli.progress = true;
    assert!(cli.show_progress(false));
    cli.quiet = true;
    assert!(!cli.show_progress(true));
}

#[test]
fn mode_follows_the_probe() {
    let cli = options(8);
    assert!(matches!(cli.mode(Probe::Ranged { total: 0 }), Mode::Empty));
    let mode = cli.mode(Probe::Ranged { total: 20 << 20 });
    assert_eq!(mode.expected(), Some(3));
    assert_eq!(mode.progress_total(), Some(20 << 20));
    let mode = cli.mode(Probe::Single { len: Some(99) });
    assert_eq!(mode.expected(), None);
    assert_eq!(mode.progress_total(), Some(99));
}

#[test]
fn only_ranges_need_a_chunk_size() {
    let mut cli = options(8);
    cli.chunk_size = 0;
    assert!(matches!(cli.mode(Probe::Ranged { total: 0 }), Mode::Empty));
    assert!(matches!(
        cli.mode(Probe::Single { len: None }),
        Mode::Single { len: None }
    ));
}

#[test]
fn client_options() {
    let mut cli = options(8);
    assert!(cli.http1_only());
    assert_eq!(cli.idle_timeout(), Some(60));
    cli.http2 = true;
    cli.timeout = 0;
    assert!(!cli.http1_only());
    assert_eq!(cli.idle_timeout(), None);
}

#[test]
fn forced_single_stream_needs_no_probe() {
    let mut cli = options(8);
    assert_eq!(cli.without_probe(), None);
    cli.single = true;
    assert_eq!(cli.without_probe(), Some(Probe::Single { len: None }));
}
