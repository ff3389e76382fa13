use pcurl::logging::{default_level, kept_files};
use pcurl::outcome::{exit_code, finalize, DownloadError, Ending};
use pcurl::writer::WriterOutcome;

type Error = DownloadError<&'static str, &'static str>;

fn combine(
    producer: Result<(), &'static str>,
    writer: Result<WriterOutcome, &'static str>,
) -> Result<(), Error> {
    finalize(producer, writer)
}

#[test]
fn complete_download_is_what_the_producer_says() {
    assert!(combine(Ok(()), Ok(WriterOutcome::Complete)).is_ok());
    assert!(matches!(
        combine(Err("p"), Ok(WriterOutcome::Complete)),
        Err(DownloadError::Producer("p"))
    ));
}

#[test]
fn broken_pipe_is_clean_but_masks_no_error() {
    assert!(combine(Ok(()), Ok(WriterOutcome::BrokenPipe)).is_ok());
    assert!(matches!(
        combine(Err("p"), Ok(WriterOutcome::BrokenPipe)),
        Err(DownloadError::Producer("p"))
    ));
}

#[test]
fn incomplete_download_is_an_error() {
    assert!(matches!(
        combine(Ok(()), Ok(WriterOutcome::Incomplete)),
        Err(DownloadError::Incomplete)
    ));
    assert!(matches!(
        combine(Err("p"), Ok(WriterOutcome::Incomplete)),
        Err(DownloadError::Producer("p"))
    ));
}

#[test]
fn output_error_comes_first() {
    assert!(matches!(
        combine(Ok(()), Err("w")),
        Err(DownloadError::Output("w"))
    ));
    assert!(matches!(
        combine(Err("p"), Err("w")),
        Err(DownloadError::Output("w"))
    ));
}

#[test]
fn failures_say_what_happened() {
    let message = |producer: Result<(), String>, writer: Result<WriterOutcome, String>| {
        finalize(producer, writer).unwrap_err().message()
    };
    assert_eq!(
        message(Err("chunk 3 failed".to_string()), Ok(WriterOutcome::Complete)),
        "chunk 3 failed"
    );
    assert_eq!(
        message(Ok(()), Ok(WriterOutcome::Incomplete)),
        "download ended before all bytes were written"
    );
    assert_eq!(
        message(Ok(()), Err("disk full".to_string())),
        "failed writing output: disk full"
    );
}

#[test]
fn exit_codes() {
    assert_eq!(exit_code(Ending::Done), 0);
    assert_eq!(exit_code(Ending::Failed), 1);
    assert_eq!(exit_code(Ending::Interrupted), 130);
}

#[test]
fn log_defaults() {
    assert_eq!(default_level(0), "warn");
    assert_eq!(default_level(1), "info,pcurl=debug");
    assert_eq!(default_level(2), "debug,pcurl=trace");
    assert_eq!(default_level(3), "trace");
    assert_eq!(default_level(255), "trace");
    assert_eq!(kept_files(0), 1);
    assert_eq!(kept_files(7), 7);
}
