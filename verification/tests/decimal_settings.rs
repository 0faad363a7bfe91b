use dotless::decimal::{decimal_string, parse_u64};
use dotless::settings::{listen_port, refresh_secs, rpc_interval_ms, u64_setting};

#[test]
fn decimal_string_matches_to_string() {
    for n in [0u128, 1, 9, 10, 99, 100, 12345, 10_000_000_000, u64::MAX as u128, u128::MAX] {
        assert_eq!(decimal_string(n), n.to_string());
    }
    assert_eq!(decimal_string(u128::MAX), "340282366920938463463374607431768211455");
}

#[test]
fn parse_u64_accepts_what_std_accepts() {
    let cases = [
        "", "+", "-", "-1", "0", "007", "+7", "42", " 1", "1 ", "12a", "++1",
        "18446744073709551615", "18446744073709551616", "99999999999999999999999", "٣",
    ];
    for c in cases {
        assert_eq!(parse_u64(c), c.parse::<u64>().ok(), "text {:?}", c);
    }
    assert_eq!(parse_u64("+7"), Some(7));
    assert_eq!(parse_u64("18446744073709551615"), Some(u64::MAX));
    assert_eq!(parse_u64("18446744073709551616"), None);
}

#[test]
fn settings_fall_back_to_defaults() {
    assert_eq!(rpc_interval_ms(None), 50);
    assert_eq!(rpc_interval_ms(Some("abc")), 50);
    assert_eq!(rpc_interval_ms(Some("0")), 0);
    assert_eq!(rpc_interval_ms(Some("250")), 250);
    assert_eq!(refresh_secs(None), 600);
    assert_eq!(refresh_secs(Some("3600")), 3600);
    assert_eq!(u64_setting(Some("-5"), 9), 9);
}

#[test]
fn listen_port_parses_u16() {
    assert_eq!(listen_port(None), 8080);
    assert_eq!(listen_port(Some("3000")), 3000);
    assert_eq!(listen_port(Some("65535")), 65535);
    assert_eq!(listen_port(Some("65536")), 8080);
    assert_eq!(listen_port(Some("port")), 8080);
    for c in ["0", "80", "65536", "+443", "x"] {
        assert_eq!(listen_port(Some(c)), c.parse::<u16>().ok().unwrap_or(8080));
    }
}

#[test]
fn decimal_text_reads_back() {
    for n in [0u128, 7, 10, 4_096, 10_000_000_000, u64::MAX as u128, u128::MAX] {
        assert_eq!(decimal_string(n).parse::<u128>(), Ok(n));
    }
    for n in [0u64, 9, 1_234_567, u64::MAX] {
        assert_eq!(parse_u64(&decimal_string(n as u128)), Some(n));
    }
}
