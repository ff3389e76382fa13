use pcurl::text::{parse_u64, push_decimal, push_padded, rest_after_last, split_once, trim};

#[test]
fn trim_agrees_with_the_standard_library() {
    for code in 0..=0x10ffffu32 {
        if let Some(c) = char::from_u32(code) {
            let text = format!("{c}");
            assert_eq!(trim(&text), text.trim(), "{code:x}");
        }
    }
    for text in ["", "  ", " a b ", "\u{3000}é\u{2028}", "x", "\r\n\t y"] {
        assert_eq!(trim(text), text.trim());
    }
}

#[test]
fn numbers_read_like_in_the_standard_library() {
    let texts = [
        "", "+", "-", "0", "+0", "-0", "00012", "+12", "++1", "1+", " 1", "1 ", "1_000", "१",
        "18446744073709551615", "18446744073709551616", "99999999999999999999999", "0x10", "1e3",
        "18446744073709551609", "18446744073709551620", "+18446744073709551615",
    ];
    for text in texts {
        assert_eq!(parse_u64(text), text.parse::<u64>().ok(), "{text}");
    }
}

#[test]
fn numbers_write_and_read_back() {
    for n in [0u64, 1, 9, 10, 11, 99, 100, 12345, u64::MAX - 1, u64::MAX] {
        let mut out = String::from("n=");
        push_decimal(&mut out, n);
        assert_eq!(out, format!("n={n}"));
        assert_eq!(parse_u64(&out[2..]), Some(n));
    }
}

#[test]
fn cuts_agree_with_the_standard_library() {
    for text in ["", ":", "a:b:c", "abc", "é:ü", "a:"] {
        assert_eq!(split_once(text, ':'), text.split_once(':'));
        assert_eq!(rest_after_last(text, ':'), text.rsplit(':').next().unwrap());
    }
}

#[test]
fn padding_counts_characters() {
    for text in ["", "é", "abc", "abcdefgh"] {
        let mut out = String::from("|");
        push_padded(&mut out, text, 5);
        assert_eq!(out, format!("|{text:>5}"));
    }
}
