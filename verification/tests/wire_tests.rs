use hls_bot::text::u64_to_string;
use hls_bot::wire::{decode_job, encode_job, Job};

fn job(url: &str, user_id: &str) -> Job {
    Job { url: String::from(url), user_id: String::from(user_id) }
}

#[test]
fn encodes_canonical_payload() {
    let p = encode_job(&job("https://www.youtube.com/watch?v=abc123", "42"));
    assert_eq!(
        p,
        "{\"url\":\"https://www.youtube.com/watch?v=abc123\",\"user_id\":\"42\"}"
    );
}

#[test]
fn escapes_quotes_backslashes_and_controls() {
    let p = encode_job(&job("a\"b", "x\\y\nz\t"));
    assert_eq!(
        p,
        "{\"url\":\"a\\\"b\",\"user_id\":\"x\\\\y\\u000az\\u0009\"}"
    );
}

#[test]
fn decodes_canonical_payload() {
    let d = decode_job("{\"url\":\"https://youtube.com/w\",\"user_id\":\"7\"}").unwrap();
    assert_eq!(d.url, "https://youtube.com/w");
    assert_eq!(d.user_id, "7");
}

#[test]
fn round_trips_awkward_field_values() {
    let cases = [
        ("https://www.youtube.com/watch?v=abc123", "42"),
        ("a\"b\\c", "line\nbreak"),
        ("", ""),
        ("tab\there", "bell\u{7}"),
        ("unicode \u{e9}\u{4e16}", "\u{1}\u{1f}"),
    ];
    for (url, user_id) in cases {
        let p = encode_job(&job(url, user_id));
        let d = decode_job(&p).unwrap();
        assert_eq!(d.url, url);
        assert_eq!(d.user_id, user_id);
    }
}

#[test]
fn rejects_non_canonical_payloads() {
    let bad = [
        "",
        "{}",
        "{\"url\": \"a\",\"user_id\":\"b\"}",
        "{\"user_id\":\"b\",\"url\":\"a\"}",
        "{\"url\":\"a\",\"user_id\":\"b\"} ",
        "{\"url\":\"a\",\"user_id\":\"b\"",
        "{\"url\":\"a\"}",
        "{\"url\":\"a\\x\",\"user_id\":\"b\"}",
        "{\"url\":\"a\\u00ZZ\",\"user_id\":\"b\"}",
        "{\"url\":\"a\nb\",\"user_id\":\"c\"}",
    ];
    for s in bad {
        assert!(decode_job(s).is_none(), "accepted: {:?}", s);
    }
}

#[test]
fn renders_decimals_exactly() {
    assert_eq!(u64_to_string(0), "0");
    assert_eq!(u64_to_string(7), "7");
    assert_eq!(u64_to_string(10), "10");
    assert_eq!(u64_to_string(12345), "12345");
    assert_eq!(u64_to_string(u64::MAX), "18446744073709551615");
}
