use dotless::search::{BlockSearch, EraSearch};

/// Runs a block search against a timestamp table (index = block number).
fn run_block_search(start_ms: i64, ts: &[u64]) -> (u64, usize) {
    let hi = (ts.len() - 1) as u64;
    let mut s = BlockSearch::new(start_ms, hi);
    let mut probes = 0;
    while let Some(mid) = s.probe() {
        assert!(mid >= 1 && mid <= hi);
        s.record(ts[mid as usize]);
        probes += 1;
    }
    (s.result(), probes)
}

#[test]
fn block_search_finds_first_block_at_or_after() {
    // block 0 unused; blocks 1..=10
    let ts = [0u64, 100, 200, 300, 300, 400, 500, 600, 700, 800, 900];
    assert_eq!(run_block_search(300, &ts).0, 3);
    assert_eq!(run_block_search(301, &ts).0, 5);
    assert_eq!(run_block_search(0, &ts).0, 1);
    assert_eq!(run_block_search(-5, &ts).0, 1);
    assert_eq!(run_block_search(900, &ts).0, 10);
    // no block reaches the target: the top block
    assert_eq!(run_block_search(5000, &ts).0, 10);
}

#[test]
fn block_search_is_logarithmic() {
    let ts: Vec<u64> = (0..100_001u64).map(|b| b * 6).collect();
    let (r, probes) = run_block_search(6 * 77_777, &ts);
    assert_eq!(r, 77_777);
    assert!(probes <= 17);
}

#[test]
fn block_search_empty_range() {
    let mut s = BlockSearch::new(10, 0);
    assert_eq!(s.probe(), None);
    assert_eq!(s.result(), 1);
    s = BlockSearch::new(10, 1);
    assert_eq!(s.probe(), None);
    assert_eq!(s.result(), 1);
}

fn era_at(b: u64) -> u32 {
    // eras of 1000 blocks starting at block 5000 with era 10
    if b < 5000 { 10 } else { 10 + ((b - 5000) / 1000) as u32 }
}

fn run_era_search(target: u32, lo: u64, hi: u64, offsets: &dyn Fn(&EraSearch) -> u64) -> (u64, usize) {
    let mut s = EraSearch::new(target, lo, era_at(lo), hi, era_at(hi));
    let mut probes = 0;
    while s.is_open() {
        let mid = s.probe(offsets(&s));
        let (l, _, h, _) = s.window();
        assert!(l < mid && mid < h);
        s.record(mid, era_at(mid));
        probes += 1;
    }
    (s.result(), probes)
}

fn interpolated(s: &EraSearch) -> u64 {
    let (lo, e_lo, hi, e_hi) = s.window();
    let frac = (s.target() - e_lo) as f64 / (e_hi - e_lo) as f64;
    ((hi - lo) as f64 * frac) as u64
}

#[test]
fn era_search_finds_exact_boundary() {
    for target in 11..=20u32 {
        let expected = 5000 + (target as u64 - 10) * 1000;
        let (r, _) = run_era_search(target, 4000, 16_500, &interpolated);
        assert_eq!(r, expected);
        assert_eq!(era_at(r), target);
        assert!(era_at(r - 1) < target);
    }
}

#[test]
fn era_search_any_offset_still_terminates_correctly() {
    for off in [0u64, 1, 7, u64::MAX] {
        let (r, _) = run_era_search(15, 4000, 16_500, &move |_s: &EraSearch| off);
        assert_eq!(r, 10_000);
    }
}

#[test]
fn era_search_interpolation_is_fast() {
    let (_, probes) = run_era_search(13, 4000, 1_004_000, &interpolated);
    assert!(probes <= 25, "{} probes", probes);
}

#[test]
fn era_search_window_of_one_block() {
    let s = EraSearch::new(11, 5999, 10, 6000, 11);
    assert!(!s.is_open());
    assert_eq!(s.result(), 6000);
    let s = EraSearch::new(11, 6000, 10, 6000, 11);
    assert_eq!(s.result(), 6000);
}

#[test]
fn era_search_probe_rules() {
    let s = EraSearch::new(12, 100, 10, 200, 14);
    assert!(s.interpolates());
    assert_eq!(s.probe(0), 101);
    assert_eq!(s.probe(50), 150);
    assert_eq!(s.probe(100), 199);
    assert_eq!(s.probe(u64::MAX), 199);
    let s = EraSearch::new(11, 100, 10, 200, 11);
    assert!(!s.interpolates());
    assert_eq!(s.probe(3), 150);
}
