use pcurl::headers::parse_headers;

fn list(raws: &[&str]) -> Vec<String> {
    raws.iter().map(|raw| raw.to_string()).collect()
}

#[test]
fn headers_are_trimmed_and_lowered() {
    let map = parse_headers(&list(&[" X-Token : a: b ", "Accept:\ttext/html"])).unwrap();
    assert_eq!(map.len(), 2);
    assert_eq!(map.get("x-token").unwrap(), "a: b");
    assert_eq!(map.get("accept").unwrap(), "text/html");
    assert!(parse_headers(&list(&[])).unwrap().is_empty());
}

#[test]
fn last_value_of_a_name_counts() {
    let map = parse_headers(&list(&["A: 1", "b: 2", "a: 3"])).unwrap();
    assert_eq!(map.len(), 2);
    assert_eq!(map.get("a").unwrap(), "3");
    assert_eq!(map.get("b").unwrap(), "2");
}

#[test]
fn bad_headers_are_told_apart() {
    let message = |raws: &[&str]| parse_headers(&list(raws)).unwrap_err().message();
    assert_eq!(
        message(&["A: 1", "no colon"]),
        "invalid header (expected 'Name: value'): no colon"
    );
    assert_eq!(
        message(&["b d: 1", "no colon"]),
        "invalid header name: b d: invalid HTTP header name"
    );
    assert_eq!(message(&[": 1"]), "invalid header name: : invalid HTTP header name");
    assert_eq!(message(&["é: 1"]), "invalid header name: é: invalid HTTP header name");
    assert_eq!(
        message(&["a: 1\u{7f}2"]),
        "invalid header value:  1\u{7f}2: failed to parse header value"
    );
    assert_eq!(
        message(&["a: x\ny"]),
        "invalid header value:  x\ny: failed to parse header value"
    );
}

#[test]
fn values_may_hold_any_text_without_controls() {
    let map = parse_headers(&list(&["a: é\tz", "b:"])).unwrap();
    assert_eq!(map.get("a").unwrap().as_bytes(), "é\tz".as_bytes());
    assert_eq!(map.get("b").unwrap(), "");
}

#[test]
fn name_characters() {
    for code in 0u8..128 {
        let c = code as char;
        if c.is_whitespace() || c == ':' {
            continue;
        }
        let token = c.is_ascii_alphanumeric() || "!#$%&'*+-.^_`|~".contains(c);
        assert_eq!(parse_headers(&list(&[&format!("{c}: 1")])).is_ok(), token, "{code}");
    }
    let long = "a".repeat(65535);
    assert!(parse_headers(&list(&[&format!("{long}: 1")])).is_ok());
    assert!(parse_headers(&list(&[&format!("{long}a: 1")])).is_err());
}

#[test]
fn repeated_names_need_no_room() {
    let raws: Vec<String> = (0..30000).map(|i| format!("name-{}: {i}", i % 2)).collect();
    let map = parse_headers(&raws).unwrap();
    assert_eq!(map.len(), 2);
    assert_eq!(map.get("name-1").unwrap(), "29999");
}

#[test]
fn thousands_of_headers_have_room() {
    let raws: Vec<String> = (0..6554).map(|i| format!("name-{i}: {i}")).collect();
    let map = parse_headers(&raws).unwrap();
    assert_eq!(map.len(), 6554);
    assert_eq!(map.get("name-6553").unwrap(), "6553");
    let raws: Vec<String> = (0..24577).map(|i| format!("name-{i}: {i}")).collect();
    assert_eq!(parse_headers(&raws).unwrap_err().message(), "too many headers");
}
