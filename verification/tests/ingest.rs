use dotless::data::EraPaid;
use dotless::ingest::{
    cold_start_cursor, gate_wait, ingest_start_millis, is_up_to_date, EraPaidEvent, EraPaidRaw,
    EraSync, IngestError,
};

#[test]
fn from_chain_requires_event() {
    assert_eq!(
        EraPaidRaw::from_chain(42, None, 1_767_225_600_000, 5),
        Err(IngestError::NoEraPaid { block: 42 })
    );
}

#[test]
fn from_chain_builds_record() {
    let ev = EraPaidEvent { era_index: 7, validator_payout: 1000, remainder: 234 };
    let raw = EraPaidRaw::from_chain(42, Some(ev), 1_767_225_600_000, 15_000_000_000).unwrap();
    assert_eq!(
        raw,
        EraPaidRaw {
            block_number: 42,
            era_index: 7,
            timestamp_ms: 1_767_225_600_000,
            amount_paid: 1234,
            total_issuance: 15_000_000_000,
        }
    );
}

#[test]
fn from_chain_saturates_amount() {
    let ev = EraPaidEvent { era_index: 1, validator_payout: u128::MAX, remainder: 5 };
    let raw = EraPaidRaw::from_chain(1, Some(ev), 0, 0).unwrap();
    assert_eq!(raw.amount_paid, u128::MAX);
}

#[test]
fn from_chain_rejects_instants_chrono_cannot_hold() {
    let ev = EraPaidEvent { era_index: 1, validator_payout: 1, remainder: 0 };
    assert!(EraPaidRaw::from_chain(9, Some(ev), 8_210_266_876_799_999, 0).is_ok());
    assert_eq!(
        EraPaidRaw::from_chain(9, Some(ev), 8_210_266_876_800_000, 0),
        Err(IngestError::InvalidTimestamp { timestamp_ms: 8_210_266_876_800_000, block: 9 })
    );
    let earliest = -8_334_601_228_800_000i64;
    let raw = EraPaidRaw::from_chain(9, Some(ev), earliest as u64, 0).unwrap();
    assert_eq!(raw.timestamp_ms, earliest);
    assert!(raw.into_event().timestamp.starts_with("-262143-01-01T00:00:00.000"));
    assert_eq!(
        EraPaidRaw::from_chain(9, Some(ev), (earliest - 1) as u64, 0),
        Err(IngestError::InvalidTimestamp { timestamp_ms: (earliest - 1) as u64, block: 9 })
    );
    assert!(EraPaidRaw::from_chain(9, Some(ev), (earliest - 86_400_000) as u64, 0).is_err());
    let latest = EraPaidRaw::from_chain(9, Some(ev), 8_210_266_876_799_999, 0).unwrap();
    assert!(latest.into_event().timestamp.starts_with("+262142-12-31T23:59:59.999"));
    // u64::MAX wraps to -1 ms, which chrono holds
    let raw = EraPaidRaw::from_chain(9, Some(ev), u64::MAX, 0).unwrap();
    assert_eq!(raw.timestamp_ms, -1);
}

#[test]
fn into_event_formats_fields() {
    let raw = EraPaidRaw {
        block_number: 8_000_000,
        era_index: 1900,
        timestamp_ms: 1_767_225_600_123,
        amount_paid: 2_739_726_027_397_260,
        total_issuance: 16_000_000_000_000_000_000,
    };
    let e = raw.into_event();
    assert_eq!(
        e,
        EraPaid {
            timestamp: "2026-01-01T00:00:00.123Z".to_string(),
            amount_paid: "2739726027397260".to_string(),
            total_issuance: "16000000000000000000".to_string(),
            block_number: Some(8_000_000),
        }
    );
    let early = EraPaidRaw { timestamp_ms: -1, ..raw }.into_event();
    assert_eq!(early.timestamp, "1969-12-31T23:59:59.999Z");
}

#[test]
fn ingest_start_defaults_and_errors() {
    assert_eq!(ingest_start_millis(None), Ok(1_767_225_600_000));
    assert_eq!(ingest_start_millis(Some("2026-03-14")), Ok(1_773_446_400_000));
    assert_eq!(ingest_start_millis(Some("1969-12-31")), Ok(-86_400_000));
    assert_eq!(
        ingest_start_millis(Some("14.03.2026")),
        Err(IngestError::InvalidStart { text: "14.03.2026".to_string() })
    );
}

#[test]
fn cursor_helpers() {
    assert_eq!(cold_start_cursor(0), 0);
    assert_eq!(cold_start_cursor(1), 0);
    assert_eq!(cold_start_cursor(1000), 999);
    assert!(is_up_to_date(10, 10));
    assert!(is_up_to_date(11, 10));
    assert!(!is_up_to_date(9, 10));
}

#[test]
fn gate_spacing() {
    assert_eq!(gate_wait(0, None), None);
    assert_eq!(gate_wait(0, Some(3)), None);
    assert_eq!(gate_wait(50, None), Some(0));
    assert_eq!(gate_wait(50, Some(20)), Some(30));
    assert_eq!(gate_wait(50, Some(50)), Some(0));
    assert_eq!(gate_wait(50, Some(70)), Some(0));
}

#[test]
fn era_sync_plans_each_new_era_once() {
    assert!(EraSync::new(100, 200, 5, 5).is_none());
    assert!(EraSync::new(100, 200, 6, 5).is_none());
    let mut plan = EraSync::new(100, 10_000, 5, 8).unwrap();
    assert_eq!(plan.total(), 3);
    let mut targets = Vec::new();
    let mut lows = Vec::new();
    let mut boundary = 1000;
    while let Some(search) = plan.next_search() {
        let (lo, e_lo, hi, e_hi) = search.window();
        targets.push(search.target());
        lows.push((lo, e_lo));
        assert_eq!((hi, e_hi), (10_000, 8));
        plan.advance(boundary);
        boundary += 1000;
    }
    assert_eq!(targets, vec![6, 7, 8]);
    assert_eq!(lows, vec![(100, 5), (1000, 6), (2000, 7)]);
    assert_eq!(plan.done(), 3);
}

fn chain_era(b: u64) -> u32 {
    // era 40 until block 1_200, then one era per 500 blocks
    if b < 1_200 { 40 } else { 40 + ((b - 1_200) / 500 + 1) as u32 }
}

#[test]
fn sync_cycle_finds_each_boundary_exactly() {
    let cursor = 1_000u64;
    let head = 6_000u64;
    let mut plan = EraSync::new(cursor, head, chain_era(cursor), chain_era(head)).unwrap();
    let mut found = Vec::new();
    while let Some(mut search) = plan.next_search() {
        while search.is_open() {
            let (lo, e_lo, hi, e_hi) = search.window();
            let off = ((hi - lo) as f64 * ((search.target() - e_lo) as f64 / (e_hi - e_lo) as f64)) as u64;
            let mid = search.probe(off);
            search.record(mid, chain_era(mid));
        }
        let tv = search.result();
        assert_eq!(chain_era(tv), search.target());
        assert!(chain_era(tv - 1) < search.target());
        found.push(tv);
        plan.advance(tv);
    }
    assert_eq!(found.len() as u32, plan.total());
    assert_eq!(found, vec![1_200, 1_700, 2_200, 2_700, 3_200, 3_700, 4_200, 4_700, 5_200, 5_700]);
}

#[test]
fn second_cycle_at_same_head_is_empty() {
    let cursor = 1_000u64;
    let head = 6_000u64;
    let mut plan = EraSync::new(cursor, head, chain_era(cursor), chain_era(head)).unwrap();
    let mut last = cursor;
    while let Some(mut search) = plan.next_search() {
        while search.is_open() {
            let mid = search.probe(0);
            search.record(mid, chain_era(mid));
        }
        last = search.result();
        plan.advance(last);
    }
    assert_eq!(chain_era(last), chain_era(head));
    assert!(!is_up_to_date(last, head));
    assert!(EraSync::new(last, head, chain_era(last), chain_era(head)).is_none());
}
