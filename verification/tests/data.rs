use dotless::chart::{
    instant_millis, is_sampled_day, parse_event_timestamp, point_timestamp, projected_instant,
    uses_new_issuance_model, NEW_MODEL_START_MS,
};
use dotless::data::{ingest_cursor, last_event_timestamp, live_events, EraPaid};
use dotless::live::BlockInfo;

fn ev(ts: &str, block: Option<u64>) -> EraPaid {
    EraPaid {
        timestamp: ts.to_string(),
        amount_paid: "1".to_string(),
        total_issuance: "2".to_string(),
        block_number: block,
    }
}

#[test]
fn live_events_keeps_ingested_in_order() {
    let events = vec![ev("a", None), ev("b", Some(5)), ev("c", None), ev("d", Some(3))];
    let live = live_events(&events);
    let names: Vec<&str> = live.iter().map(|e| e.timestamp.as_str()).collect();
    assert_eq!(names, vec!["b", "d"]);
    assert!(live_events(&[]).is_empty());
}

#[test]
fn cursor_is_highest_block() {
    assert_eq!(ingest_cursor(&[]), None);
    assert_eq!(ingest_cursor(&[ev("a", None)]), None);
    let events = vec![ev("a", Some(7)), ev("b", None), ev("c", Some(12)), ev("d", Some(9))];
    assert_eq!(ingest_cursor(&events), Some(12));
}

#[test]
fn cursor_moves_to_appended_boundary() {
    let mut events = vec![ev("a", None), ev("b", Some(7))];
    events.push(ev("c", Some(20)));
    assert_eq!(ingest_cursor(&events), Some(20));
}

#[test]
fn last_timestamp_or_empty() {
    assert_eq!(last_event_timestamp(&[]), "");
    assert_eq!(last_event_timestamp(&[ev("x", None), ev("y", Some(1))]), "y");
}

#[test]
fn event_timestamps_read_in_three_layouts() {
    assert_eq!(parse_event_timestamp("2026-01-01T00:00:00.000Z"), (1_767_225_600, 0));
    assert_eq!(parse_event_timestamp("2026-01-01T00:00:00.250Z"), (1_767_225_600, 250_000_000));
    assert_eq!(parse_event_timestamp("2026-01-01T00:00:00.123456789Z"), (1_767_225_600, 123_456_789));
    assert_eq!(parse_event_timestamp("2026-01-01T00:00:00Z"), (1_767_225_600, 0));
    assert_eq!(parse_event_timestamp("2026-01-01T00:00:01"), (1_767_225_601, 0));
    assert_eq!(parse_event_timestamp("2016-12-31T23:59:60.500Z"), (1_483_228_799, 1_500_000_000));
    assert_eq!(parse_event_timestamp("yesterday"), (0, 0));
}

#[test]
fn sampled_days() {
    assert!(!is_sampled_day(1, 100));
    assert!(is_sampled_day(30, 100));
    assert!(is_sampled_day(60, 100));
    assert!(is_sampled_day(100, 100));
    assert!(!is_sampled_day(99, 100));
    let kept: Vec<u64> = (1..=65u64).filter(|&d| is_sampled_day(d, 65)).collect();
    assert_eq!(kept, vec![30, 60, 65]);
}

#[test]
fn block_info_holds_number_and_hash() {
    let b = BlockInfo { number: 7, hash: "0xab".to_string() };
    assert_eq!(b.clone(), b);
}

#[test]
fn appended_boundaries_keep_blocks_increasing() {
    let mut events = vec![ev("a", None), ev("b", Some(7)), ev("c", Some(9))];
    for b in [15u64, 22, 31] {
        let cursor = ingest_cursor(&events).unwrap();
        assert!(cursor < b);
        events.push(ev("x", Some(b)));
        assert_eq!(ingest_cursor(&events), Some(b));
    }
    let blocks: Vec<u64> = live_events(&events).iter().map(|e| e.block_number.unwrap()).collect();
    assert_eq!(blocks, vec![7, 9, 15, 22, 31]);
    assert!(blocks.windows(2).all(|w| w[0] < w[1]));
}

#[test]
fn new_model_starts_on_march_14() {
    let start = chrono::NaiveDate::from_ymd_opt(2026, 3, 14)
        .unwrap()
        .and_hms_opt(0, 0, 0)
        .unwrap()
        .and_utc()
        .timestamp_millis();
    assert_eq!(NEW_MODEL_START_MS, start);
    assert!(uses_new_issuance_model(start));
    assert!(uses_new_issuance_model(start + 86_399_999));
    assert!(!uses_new_issuance_model(start - 1));
}

#[test]
fn projected_instants_and_timestamps() {
    assert_eq!(instant_millis(1_767_225_600, 250_000_000), Some(1_767_225_600_250));
    assert_eq!(instant_millis(i64::MAX, 0), None);
    let base = 1_767_225_600_250i64;
    assert_eq!(projected_instant(base, 0), Some(base));
    assert_eq!(projected_instant(base, 30), Some(base + 30 * 86_400_000));
    assert_eq!(projected_instant(base, u64::MAX), None);
    assert_eq!(projected_instant(8_210_266_876_799_999, 1), None);
    assert_eq!(point_timestamp(base + 30 * 86_400_000), "2026-01-31T00:00:00.250Z");
    let naive = chrono::NaiveDateTime::parse_from_str("2026-01-01T00:00:00.250Z", "%Y-%m-%dT%H:%M:%S%.fZ")
        .unwrap()
        + chrono::TimeDelta::days(30);
    assert_eq!(point_timestamp(base + 30 * 86_400_000), naive.format("%Y-%m-%dT%H:%M:%S%.3fZ").to_string());
}
