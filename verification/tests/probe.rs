use pcurl::probe::{parse_content_range_total, Probe};

#[test]
fn parses_total() {
    assert_eq!(parse_content_range_total("bytes 0-0/12345"), Some(12345));
    assert_eq!(parse_content_range_total("bytes 0-1023/2048"), Some(2048));
}

#[test]
fn unknown_or_bad_total() {
    assert_eq!(parse_content_range_total("bytes 0-0/*"), None);
    assert_eq!(parse_content_range_total("garbage"), None);
}

#[test]
fn total_is_behind_the_last_slash() {
    assert_eq!(parse_content_range_total("a/b/ 17 "), Some(17));
    assert_eq!(parse_content_range_total("17"), Some(17));
    assert_eq!(parse_content_range_total("17/"), None);
    assert_eq!(parse_content_range_total(""), None);
    assert_eq!(
        parse_content_range_total("bytes 0-0/18446744073709551615"),
        Some(u64::MAX)
    );
    assert_eq!(
        parse_content_range_total("bytes 0-0/18446744073709551616"),
        None
    );
}

#[test]
fn partial_response_gives_the_total() {
    let range: &[u8] = b"bytes 0-0/12345";
    let probe = Probe::from_response(206, Some(range), Some(1)).unwrap();
    assert_eq!(probe, Probe::Ranged { total: 12345 });
}

#[test]
fn partial_response_without_a_total_is_one_stream() {
    let single = Probe::Single { len: None };
    assert_eq!(Probe::from_response(206, None, Some(1)).unwrap(), single);
    let unknown: &[u8] = b"bytes 0-0/*";
    assert_eq!(Probe::from_response(206, Some(unknown), Some(1)).unwrap(), single);
    // A value that is not visible ASCII has no text.
    let binary: &[u8] = b"bytes\xff 0-0/12";
    assert_eq!(Probe::from_response(206, Some(binary), Some(1)).unwrap(), single);
    let control: &[u8] = b"bytes 0-0/12\n";
    assert_eq!(Probe::from_response(206, Some(control), None).unwrap(), single);
    // A tab is text.
    let tab: &[u8] = b"bytes 0-0/\t12";
    assert_eq!(
        Probe::from_response(206, Some(tab), None).unwrap(),
        Probe::Ranged { total: 12 }
    );
}

#[test]
fn unsatisfiable_range_is_an_empty_resource() {
    let probe = Probe::from_response(416, None, Some(7)).unwrap();
    assert_eq!(probe, Probe::Ranged { total: 0 });
}

#[test]
fn other_success_is_one_stream_of_the_announced_length() {
    assert_eq!(
        Probe::from_response(200, None, Some(99)).unwrap(),
        Probe::Single { len: Some(99) }
    );
    assert_eq!(
        Probe::from_response(204, None, None).unwrap(),
        Probe::Single { len: None }
    );
}

#[test]
fn other_status_is_an_error() {
    let error = Probe::from_response(404, None, None).unwrap_err();
    assert_eq!(
        error.message("http://x/y"),
        "unexpected status 404 Not Found probing http://x/y"
    );
    let error = Probe::from_response(599, None, None).unwrap_err();
    assert_eq!(
        error.message("u"),
        "unexpected status 599 <unknown status code> probing u"
    );
    let error = Probe::from_response(1, None, None).unwrap_err();
    assert_eq!(error.message("u"), "unexpected status 1 probing u");
}
