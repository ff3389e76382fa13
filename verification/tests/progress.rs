use pcurl::progress::{elapsed_str, human, Progress, Reporter};

#[test]
fn human_units() {
    assert_eq!(human(512), "512 B");
    assert_eq!(human(1024), "1.0 KiB");
    assert_eq!(human(1536), "1.5 KiB");
    assert_eq!(human(1024 * 1024), "1.0 MiB");
}

/// The same text by way of double-precision arithmetic.
fn human_in_doubles(bytes: u64) -> String {
    let units = ["B", "KiB", "MiB", "GiB", "TiB", "PiB"];
    if bytes < 1024 {
        return format!("{bytes} B");
    }
    let mut value = bytes as f64;
    let mut unit = 0;
    while value >= 1024.0 && unit < units.len() - 1 {
        value /= 1024.0;
        unit += 1;
    }
    format!("{value:.1} {}", units[unit])
}

#[test]
fn human_agrees_with_double_precision() {
    for n in 0..200_000u64 {
        assert_eq!(human(n), human_in_doubles(n));
    }
    for shift in 10..64 {
        let base = 1u64 << shift;
        for offset in 0..600u64 {
            for n in [
                base.wrapping_add(offset),
                base.wrapping_sub(offset + 1),
                base.wrapping_add((base >> 5).wrapping_mul(offset)),
                base.wrapping_add((base / 20).wrapping_mul(offset)),
                base.wrapping_mul(2).wrapping_sub(offset + 1),
            ] {
                assert_eq!(human(n), human_in_doubles(n), "{n}");
            }
        }
    }
    let mut n = 1u64;
    for _ in 0..20_000 {
        n = n.wrapping_mul(6364136223846793005).wrapping_add(1442695040888963407);
        assert_eq!(human(n), human_in_doubles(n), "{n}");
        assert_eq!(human(n >> 9), human_in_doubles(n >> 9), "{n}");
    }
    assert_eq!(human(u64::MAX), "16384.0 PiB");
}

#[test]
fn progress_counts_written_bytes() {
    let mut progress = Progress::new(Some(10), true);
    assert_eq!(progress.written(), 0);
    progress.add(3);
    progress.add(4);
    assert_eq!(progress.written(), 7);
    progress.add(u64::MAX);
    assert_eq!(progress.written(), 6);
}

#[test]
fn status_line_with_a_total() {
    let mut progress = Progress::new(Some(4 * 1024 * 1024), true);
    progress.add(1024 * 1024);
    assert_eq!(
        progress.render("25.0", 2048, 512, "1.5s"),
        "\r1.0 MiB / 4.0 MiB   25.0%    2.0 KiB/s (avg     512 B/s)    1.5s"
    );
}

#[test]
fn status_line_without_a_total() {
    let mut progress = Progress::new(None, true);
    progress.add(100);
    let line = "\r  100 B       10 B/s (avg      20 B/s)   2m05s";
    assert_eq!(progress.render("", 10, 20, "2m05s"), line);
    let mut progress = Progress::new(Some(0), true);
    progress.add(100);
    assert_eq!(progress.render("", 10, 20, "2m05s"), line);
}

#[test]
fn summary_only_when_enabled() {
    let mut progress = Progress::new(None, true);
    progress.add(1536);
    assert_eq!(
        progress.summary(100, "1.5s").unwrap(),
        "\r1.5 KiB in 1.5s (100 B/s)          "
    );
    assert_eq!(Progress::new(None, false).summary(100, "1.5s"), None);
}

#[test]
fn elapsed_by_size() {
    assert_eq!(elapsed_str(0, "0.4"), "0.4s");
    assert_eq!(elapsed_str(59, "60.0"), "60.0s");
    assert_eq!(elapsed_str(60, "60.0"), "1m00s");
    assert_eq!(elapsed_str(3599, ""), "59m59s");
    assert_eq!(elapsed_str(3600, ""), "1h00m");
    assert_eq!(elapsed_str(90_061, ""), "25h01m");
}

#[test]
fn reporter_gives_the_difference() {
    let mut reporter = Reporter::new();
    assert_eq!(reporter.tick(10), 10);
    assert_eq!(reporter.tick(10), 0);
    assert_eq!(reporter.tick(25), 15);
}
