use tenken::journal::log_line;
use tenken::payload::{get_timestamp, with_received_time, with_received_time_at};
use tenken::text::{decimal_string, parse_u64, trim_end, trim_end_matches_char};

#[test]
fn trimming() {
    assert_eq!(trim_end("abc \t\n"), "abc");
    assert_eq!(trim_end("a\u{3000}\u{a0}"), "a");
    assert_eq!(trim_end("   "), "");
    assert_eq!(trim_end("x y"), "x y");
    assert_eq!(trim_end_matches_char("{a}}}", '}'), "{a");
    assert_eq!(trim_end_matches_char("{a} }", '}'), "{a} ");
    assert_eq!(trim_end_matches_char("", '}'), "");
}

#[test]
fn decimal_rendering() {
    assert_eq!(decimal_string(0), "0");
    assert_eq!(decimal_string(7), "7");
    assert_eq!(decimal_string(1_690_000_000_123), "1690000000123");
    assert_eq!(decimal_string(u128::MAX), u128::MAX.to_string());
}

#[test]
fn parsing_unsigned() {
    assert_eq!(parse_u64("42"), Some(42));
    assert_eq!(parse_u64("+7"), Some(7));
    assert_eq!(parse_u64("007"), Some(7));
    assert_eq!(parse_u64(""), None);
    assert_eq!(parse_u64("+"), None);
    assert_eq!(parse_u64("-1"), None);
    assert_eq!(parse_u64("12a"), None);
    assert_eq!(parse_u64("18446744073709551615"), Some(u64::MAX));
    assert_eq!(parse_u64("18446744073709551616"), None);
    assert_eq!(parse_u64("١٢"), None);
    for s in ["0", "+0", "99999999999999999999", "1 2", "+-3"] {
        assert_eq!(parse_u64(s), s.parse::<u64>().ok());
    }
}

#[test]
fn transmission_time_of_a_payload() {
    let payload = "{\"probeId\":\"p1\",\"eventTransmissionTime\":1690000000123,\"messageData\":[]}";
    assert_eq!(get_timestamp(&payload.to_string()), Some(1690000000123));
    assert_eq!(get_timestamp(&"{\"probeId\":\"p1\"}".to_string()), Some(0));
    assert_eq!(get_timestamp(&"{\"eventTransmissionTime\":\"42\"}".to_string()), Some(42));
    // under a key, a string that is never closed selects no value at all
    assert_eq!(get_timestamp(&"{\"eventTransmissionTime\":\"1".to_string()), Some(0));
}

#[test]
fn received_time_is_added() {
    let payload = "{\"probeId\":\"p1\",\"eventTransmissionTime\":5}  \n".to_string();
    assert_eq!(
        with_received_time_at(&payload, 1234),
        "{\"probeId\":\"p1\",\"eventTransmissionTime\":5,\"eventReceivedTime\":1234}"
    );
    assert_eq!(with_received_time_at(&"{}}".to_string(), 0), "{,\"eventReceivedTime\":0}");
    let now = with_received_time(&"{\"a\":1}".to_string()).unwrap();
    assert!(now.starts_with("{\"a\":1,\"eventReceivedTime\":"));
    assert!(now.ends_with('}'));
}

#[test]
fn journal_line() {
    assert_eq!(log_line(&"p1".to_string(), &"{\"x\":1}".to_string()), "p1:::{\"x\":1}\n");
}

#[test]
fn trimming_agrees_with_std() {
    let samples = [
        "", " ", "a", "a ", " a", "a\u{85}", "a\u{180e}", "a\u{200b}", "a\u{2009}\u{2028}",
        "{\"x\":1}\r\n", "}}}", "{\"x\":{}}} \t", "é\u{3000}",
    ];
    for s in samples {
        assert_eq!(trim_end(s), s.trim_end());
        assert_eq!(trim_end_matches_char(s, '}'), s.trim_end_matches("}"));
    }
    for n in [0u128, 9, 10, 99, 100, 12345678901234567890] {
        assert_eq!(decimal_string(n), n.to_string());
    }
}
