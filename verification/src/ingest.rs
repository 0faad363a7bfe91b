//! The decisions of the `Staking::EraPaid` ingestor.
//!
//! `Staking::ActiveEra.index` does not decrease with the block height and
//! rises by one at exactly the block that emits `EraPaid` for the era that
//! just ended. A sync cycle therefore finds one boundary block per new era
//! with an [`EraSearch`], and reads the event there.

use vstd::prelude::*;
use crate::data::{
    EraPaid, is_cursor, live_blocks_increase, lemma_append_keeps_order, lemma_cursor_after_append,
};
use crate::decimal::{decimal_string, decimal_text};
use crate::search::{
    EraSearch, EraSearchState, era_window, era_ascending_on, era_steps_by_one, lemma_era_search_done,
};
use crate::timefmt::{
    event_time_layout, format_utc_millis, parse_date_start_millis, date_start_millis,
    utc_millis_in_range, utc_millis_text,
};

verus! {

/// The date the ingestion starts from when nothing was ingested yet.
pub open spec fn default_ingest_start() -> Seq<char> {
    "2026-01-01"@
}

/// Why an ingestion step failed.
#[derive(Debug, Clone, PartialEq, Eq)]
pub enum IngestError {
    /// The boundary block carries no `EraPaid` event.
    NoEraPaid { block: u64 },
    /// The block's `Timestamp::Now` is not an instant that `chrono` holds.
    InvalidTimestamp { timestamp_ms: u64, block: u64 },
    /// The configured start date is not a `YYYY-MM-DD` date.
    InvalidStart { text: String },
}

/// The fields of a decoded `EraPaid` event.
#[derive(Debug, Clone, Copy, PartialEq, Eq)]
pub struct EraPaidEvent {
    pub era_index: u32,
    pub validator_payout: u128,
    pub remainder: u128,
}

/// A decoded `EraPaid` boundary, before conversion to the stored form.
/// `timestamp_ms` is the block's `Timestamp::Now`, in milliseconds.
#[derive(Debug, Clone, Copy, PartialEq, Eq)]
pub struct EraPaidRaw {
    pub block_number: u64,
    pub era_index: u32,
    pub timestamp_ms: i64,
    pub amount_paid: u128,
    pub total_issuance: u128,
}

/// `a + b`, or `u128::MAX` where the sum does not fit.
pub open spec fn saturating_sum(a: u128, b: u128) -> u128 {
    if a + b > u128::MAX {
        u128::MAX
    } else {
        (a + b) as u128
    }
}

/// The boundary record read at `block`, as the chain gives it: the `EraPaid`
/// event (if any), `Timestamp::Now` and `Balances::TotalIssuance`.
pub open spec fn era_paid_at(
    block: u64,
    event: Option<EraPaidEvent>,
    timestamp_ms: u64,
    total_issuance: u128,
) -> Result<EraPaidRaw, IngestError> {
    match event {
        None => Err(IngestError::NoEraPaid { block }),
        Some(ev) => if !utc_millis_in_range((timestamp_ms as i64) as int) {
            Err(IngestError::InvalidTimestamp { timestamp_ms, block })
        } else {
            Ok(
                EraPaidRaw {
                    block_number: block,
                    era_index: ev.era_index,
                    timestamp_ms: timestamp_ms as i64,
                    amount_paid: saturating_sum(ev.validator_payout, ev.remainder),
                    total_issuance,
                },
            )
        },
    }
}

/// The record of a boundary block carries the chain's values unchanged:
/// its block number, era index, timestamp and total issuance, with the
/// payout plus the remainder (saturating) as the amount paid. It exists
/// exactly when the block has an `EraPaid` event and a timestamp that
/// `chrono` holds.
pub proof fn lemma_boundary_record_carries_chain_values(
    block: u64,
    event: Option<EraPaidEvent>,
    timestamp_ms: u64,
    total_issuance: u128,
)
    ensures
        era_paid_at(block, event, timestamp_ms, total_issuance) is Ok <==> (event is Some
            && utc_millis_in_range((timestamp_ms as i64) as int)),
        event is None ==> era_paid_at(block, event, timestamp_ms, total_issuance) == Err::<
            EraPaidRaw,
            IngestError,
        >(IngestError::NoEraPaid { block }),
        era_paid_at(block, event, timestamp_ms, total_issuance) matches Ok(raw) ==> {
            &&& raw.block_number == block
            &&& raw.era_index == event->0.era_index
            &&& raw.timestamp_ms == timestamp_ms as i64
            &&& raw.total_issuance == total_issuance
            &&& raw.amount_paid >= event->0.validator_payout
            &&& raw.amount_paid >= event->0.remainder
            &&& (event->0.validator_payout + event->0.remainder <= u128::MAX ==> raw.amount_paid
                == event->0.validator_payout + event->0.remainder)
            &&& (event->0.validator_payout + event->0.remainder > u128::MAX ==> raw.amount_paid
                == u128::MAX)
        },
{
}

impl EraPaidRaw {
    /// Builds the record of the boundary block `block` from what was read
    /// there. The amount paid is the validator payout plus the remainder
    /// (saturating); the timestamp must be an instant that `chrono` holds.
    pub fn from_chain(
        block: u64,
        event: Option<EraPaidEvent>,
        timestamp_ms: u64,
        total_issuance: u128,
    ) -> (r: Result<EraPaidRaw, IngestError>)
        ensures
            r == era_paid_at(block, event, timestamp_ms, total_issuance),
            event is None ==> r == Err::<EraPaidRaw, IngestError>(IngestError::NoEraPaid { block }),
            event is Some && !utc_millis_in_range((timestamp_ms as i64) as int) ==> r == Err::<
                EraPaidRaw,
                IngestError,
            >(IngestError::InvalidTimestamp { timestamp_ms, block }),
            r is Ok <==> (event is Some && utc_millis_in_range((timestamp_ms as i64) as int)),
            r matches Ok(raw) ==> {
                &&& raw.block_number == block
                &&& raw.era_index == event->0.era_index
                &&& raw.timestamp_ms == timestamp_ms as i64
                &&& raw.total_issuance == total_issuance
                &&& raw.amount_paid as int == (if event->0.validator_payout + event->0.remainder
                    > u128::MAX {
                    u128::MAX as int
                } else {
                    event->0.validator_payout + event->0.remainder
                })
            },
    {
        match event {
            None => Err(IngestError::NoEraPaid { block }),
            Some(ev) => {
                let ms = timestamp_ms as i64;
                if format_utc_millis(ms, "%Y-%m-%dT%H:%M:%S%.3fZ").is_none() {
                    Err(IngestError::InvalidTimestamp { timestamp_ms, block })
                } else {
                    Ok(
                        EraPaidRaw {
                            block_number: block,
                            era_index: ev.era_index,
                            timestamp_ms: ms,
                            amount_paid: ev.validator_payout.saturating_add(ev.remainder),
                            total_issuance,
                        },
                    )
                }
            },
        }
    }

    /// The stored form: the timestamp as RFC 3339 text with milliseconds,
    /// the amounts as decimal texts, and the block number.
    pub fn into_event(self) -> (e: EraPaid)
        requires
            utc_millis_in_range(self.timestamp_ms as int),
        ensures
            e.timestamp@ == utc_millis_text(self.timestamp_ms, event_time_layout()),
            e.amount_paid@ == decimal_text(self.amount_paid as nat),
            e.total_issuance@ == decimal_text(self.total_issuance as nat),
            e.block_number == Some(self.block_number),
    {
        let timestamp = match format_utc_millis(self.timestamp_ms, "%Y-%m-%dT%H:%M:%S%.3fZ") {
            Some(t) => t,
            None => String::new(),
        };
        EraPaid {
            timestamp,
            amount_paid: decimal_string(self.amount_paid),
            total_issuance: decimal_string(self.total_issuance),
            block_number: Some(self.block_number),
        }
    }
}

/// The instant (milliseconds) at which ingestion starts on a cold start:
/// midnight UTC of the `YYYY-MM-DD` date `setting` (`INGEST_START`), or of
/// 2026-01-01 when the setting is absent.
pub fn ingest_start_millis(setting: Option<&str>) -> (r: Result<i64, IngestError>)
    ensures
        ({
            let text = match setting {
                Some(s) => s@,
                None => default_ingest_start(),
            };
            match date_start_millis(text, "%Y-%m-%d"@) {
                Some(ms) => r == Ok::<i64, IngestError>(ms),
                None => r matches Err(IngestError::InvalidStart { text: t }) && t@ == text,
            }
        }),
        setting is None ==> match date_start_millis("2026-01-01"@, "%Y-%m-%d"@) {
            Some(ms) => r == Ok::<i64, IngestError>(ms),
            None => r is Err,
        },
{
    let text: &str = match setting {
        Some(s) => s,
        None => "2026-01-01",
    };
    match parse_date_start_millis(text, "%Y-%m-%d") {
        Some(ms) => Ok(ms),
        None => Err(IngestError::InvalidStart { text: text.to_owned() }),
    }
}

/// The cursor after a cold start: the block just before the first block of
/// the ingestion window (saturating at 0).
pub fn cold_start_cursor(first_block: u64) -> (r: u64)
    ensures
        r == (if first_block == 0 {
            0
        } else {
            (first_block - 1) as u64
        }),
{
    first_block.saturating_sub(1)
}

/// Whether the cursor has reached the finalized head: nothing to sync.
pub fn is_up_to_date(cursor: u64, head: u64) -> (r: bool)
    ensures
        r == (cursor >= head),
{
    cursor >= head
}

/// How long to wait before a gated chain request, in nanoseconds, given the
/// minimum spacing and the time since the previous gated request (absent
/// for the very first request). With a zero spacing nothing is gated: the
/// answer is `None` and the request's time is not kept. Otherwise the caller
/// waits the given time, then keeps the time of the request.
pub fn gate_wait(min_interval_ns: u128, since_last_ns: Option<u128>) -> (r: Option<u128>)
    ensures
        min_interval_ns == 0 ==> r is None,
        min_interval_ns > 0 ==> r == Some(
            match since_last_ns {
                Some(e) => if e < min_interval_ns {
                    (min_interval_ns - e) as u128
                } else {
                    0u128
                },
                None => 0u128,
            },
        ),
        r matches Some(w) ==> (since_last_ns matches Some(e) ==> e + w >= min_interval_ns),
{
    if min_interval_ns == 0 {
        return None;
    }
    match since_last_ns {
        Some(e) => if e < min_interval_ns {
            Some(min_interval_ns - e)
        } else {
            Some(0)
        },
        None => Some(0),
    }
}

/// What an [`EraSync`] holds.
pub struct EraSyncState {
    pub head: u64,
    pub lo_era: u32,
    pub hi_era: u32,
    pub lo_block: u64,
    pub done: u32,
}

/// The plan of one sync cycle over `(cursor, head]`: each era activated in
/// that range is one `EraPaid` boundary, found in increasing order. The
/// boundary found for era `v` has era exactly `v`, so it becomes the lower
/// end of the search for `v + 1`, while `head` and its era stay the upper end.
pub struct EraSync {
    head: u64,
    lo_era: u32,
    hi_era: u32,
    lo_block: u64,
    done: u32,
}

impl View for EraSync {
    type V = EraSyncState;

    closed spec fn view(&self) -> EraSyncState {
        EraSyncState {
            head: self.head,
            lo_era: self.lo_era,
            hi_era: self.hi_era,
            lo_block: self.lo_block,
            done: self.done,
        }
    }
}

/// The search for the next boundary of a plan in state `st`.
pub open spec fn next_era_search(st: EraSyncState) -> EraSearchState {
    EraSearchState {
        target: (st.lo_era + st.done + 1) as u32,
        lo: st.lo_block,
        e_lo: (st.lo_era + st.done) as u32,
        hi: st.head,
        e_hi: st.hi_era,
    }
}

/// The state of a plan after the boundary block `boundary` was found.
pub open spec fn era_sync_next(st: EraSyncState, boundary: u64) -> EraSyncState {
    EraSyncState { lo_block: boundary, done: (st.done + 1) as u32, ..st }
}

impl EraSync {
    #[verifier::type_invariant]
    spec fn well_formed(self) -> bool {
        &&& self.lo_era < self.hi_era
        &&& self.done <= self.hi_era - self.lo_era
        &&& self.lo_block <= self.head
    }

    /// Plans the sync of `(cursor, head]`, where `lo_era` and `hi_era` are the
    /// active era indices at `cursor` and `head`. `None` when no era was
    /// activated in between.
    pub fn new(cursor: u64, head: u64, lo_era: u32, hi_era: u32) -> (r: Option<EraSync>)
        requires
            cursor <= head,
        ensures
            r is None <==> hi_era <= lo_era,
            r matches Some(s) ==> s@ == (EraSyncState {
                head,
                lo_era,
                hi_era,
                lo_block: cursor,
                done: 0,
            }),
    {
        let total = hi_era.saturating_sub(lo_era);
        if total == 0 {
            None
        } else {
            Some(EraSync { head, lo_era, hi_era, lo_block: cursor, done: 0 })
        }
    }

    /// The number of new eras: `hi_era - lo_era`.
    pub fn total(&self) -> (r: u32)
        ensures
            r == self@.hi_era - self@.lo_era,
            r > 0,
    {
        proof {
            use_type_invariant(self);
        }
        self.hi_era - self.lo_era
    }

    /// The number of boundaries found so far.
    pub fn done(&self) -> (r: u32)
        ensures
            r == self@.done,
            r <= self@.hi_era - self@.lo_era,
    {
        proof {
            use_type_invariant(self);
        }
        self.done
    }

    /// The search for the next boundary, or `None` once every new era has one.
    pub fn next_search(&self) -> (r: Option<EraSearch>)
        ensures
            r is None <==> self@.done == self@.hi_era - self@.lo_era,
            r matches Some(s) ==> s@ == next_era_search(self@),
            r matches Some(s) ==> {
                &&& s@.target as int == self@.lo_era + self@.done + 1
                &&& s@.e_lo as int == self@.lo_era + self@.done
                &&& s@.lo == self@.lo_block
                &&& s@.hi == self@.head
                &&& s@.e_hi == self@.hi_era
            },
    {
        proof {
            use_type_invariant(self);
        }
        if self.done == self.hi_era - self.lo_era {
            None
        } else {
            let e_lo = self.lo_era + self.done;
            Some(EraSearch::new(e_lo + 1, self.lo_block, e_lo, self.head, self.hi_era))
        }
    }

    /// Takes the boundary block found by the current search.
    pub fn advance(&mut self, boundary: u64)
        requires
            old(self)@.done < old(self)@.hi_era - old(self)@.lo_era,
            old(self)@.lo_block <= boundary <= old(self)@.head,
        ensures
            final(self)@ == era_sync_next(old(self)@, boundary),
            final(self)@.lo_block == boundary,
            final(self)@.done == old(self)@.done + 1,
            final(self)@.head == old(self)@.head,
            final(self)@.lo_era == old(self)@.lo_era,
            final(self)@.hi_era == old(self)@.hi_era,
    {
        proof {
            use_type_invariant(&*self);
        }
        *self = EraSync { lo_block: boundary, done: self.done + 1, ..*self };
    }
}


/// A plan's state agrees with the chain's era function `era`: the lower end
/// of the next search sits at the last boundary found (era `lo_era + done`),
/// and the head carries `hi_era`.
pub open spec fn sync_agrees(st: EraSyncState, era: spec_fn(u64) -> u32) -> bool {
    &&& st.lo_era < st.hi_era
    &&& st.done <= st.hi_era - st.lo_era
    &&& st.lo_block <= st.head
    &&& era(st.lo_block) == st.lo_era + st.done
    &&& era(st.head) == st.hi_era
}

/// A fresh plan agrees with the chain when its two ends were read from it.
pub proof fn lemma_sync_starts(
    cursor: u64,
    head: u64,
    lo_era: u32,
    hi_era: u32,
    era: spec_fn(u64) -> u32,
)
    requires
        cursor <= head,
        lo_era < hi_era,
        era(cursor) == lo_era,
        era(head) == hi_era,
    ensures
        sync_agrees(EraSyncState { head, lo_era, hi_era, lo_block: cursor, done: 0 }, era),
{
}

/// Carrying the lower end across eras is sound: while a plan agrees with the
/// chain, the search it starts for era `lo_era + done + 1` is consistent with
/// the chain over `(lo_block, head]`; and once that search returns a block
/// whose era is exactly its target, the advanced plan agrees again, with one
/// more era done.
pub proof fn lemma_sync_step(st: EraSyncState, era: spec_fn(u64) -> u32, boundary: u64)
    requires
        sync_agrees(st, era),
        st.done < st.hi_era - st.lo_era,
    ensures
        era_window(next_era_search(st), era, st.lo_block, st.head),
        (st.lo_block <= boundary <= st.head && era(boundary) == next_era_search(st).target)
            ==> sync_agrees(era_sync_next(st, boundary), era),
        era_sync_next(st, boundary).done == st.done + 1,
{
}


/// `b` is the boundary that the next search of a plan in state `st` finds
/// on the chain `era`: the first block after the lower end whose era
/// reaches the target, with the target as its era.
pub open spec fn is_next_boundary(st: EraSyncState, era: spec_fn(u64) -> u32, b: u64) -> bool {
    let target = next_era_search(st).target;
    &&& st.lo_block < b <= st.head
    &&& era(b) == target
    &&& forall|x: u64| st.lo_block <= x < b ==> #[trigger] era(x) < target
}

/// The search that a plan starts, run to its end on a chain whose era does
/// not decrease and rises by at most one per block, finds the plan's next
/// boundary.
pub proof fn lemma_search_finds_next_boundary(
    st: EraSyncState,
    era: spec_fn(u64) -> u32,
    fin: EraSearchState,
)
    requires
        sync_agrees(st, era),
        st.done < st.hi_era - st.lo_era,
        era_ascending_on(era, st.lo_block, st.head),
        era_steps_by_one(era, st.lo_block, st.head),
        fin.target == next_era_search(st).target,
        era_window(fin, era, st.lo_block, st.head),
        fin.hi - fin.lo <= 1,
    ensures
        is_next_boundary(st, era, fin.hi),
{
    lemma_era_search_done(fin, era, st.lo_block, st.head);
}

/// The state of a plan after the boundaries `bs` were found in turn.
pub open spec fn era_sync_run(st: EraSyncState, bs: Seq<u64>) -> EraSyncState
    decreases bs.len(),
{
    if bs.len() == 0 {
        st
    } else {
        era_sync_next(era_sync_run(st, bs.drop_last()), bs.last())
    }
}

/// `bs` are the boundaries that a plan starting in `st` finds in turn on the
/// chain `era`, each by the search the plan asked for at that point.
pub open spec fn is_sync_run(st: EraSyncState, era: spec_fn(u64) -> u32, bs: Seq<u64>) -> bool
    decreases bs.len(),
{
    if bs.len() == 0 {
        true
    } else {
        let before = era_sync_run(st, bs.drop_last());
        &&& is_sync_run(st, era, bs.drop_last())
        &&& before.done < before.hi_era - before.lo_era
        &&& is_next_boundary(before, era, bs.last())
    }
}

/// Over a whole run of a plan, the boundaries found lie in `(cursor, head]`,
/// strictly increase, and carry the eras `lo_era + done + 1, lo_era + done +
/// 2, ...` in turn; the plan keeps agreeing with the chain, and its lower end
/// is the last boundary.
pub proof fn lemma_sync_run(st: EraSyncState, era: spec_fn(u64) -> u32, bs: Seq<u64>)
    requires
        sync_agrees(st, era),
        is_sync_run(st, era, bs),
    ensures
        sync_agrees(era_sync_run(st, bs), era),
        era_sync_run(st, bs).done == st.done + bs.len(),
        era_sync_run(st, bs).head == st.head,
        era_sync_run(st, bs).lo_era == st.lo_era,
        era_sync_run(st, bs).hi_era == st.hi_era,
        era_sync_run(st, bs).lo_block == (if bs.len() == 0 {
            st.lo_block
        } else {
            bs.last()
        }),
        forall|i: int| 0 <= i < bs.len() ==> st.lo_block < #[trigger] bs[i] <= st.head,
        forall|i: int, j: int| 0 <= i < j < bs.len() ==> #[trigger] bs[i] < #[trigger] bs[j],
        forall|i: int| 0 <= i < bs.len() ==> era(#[trigger] bs[i]) == st.lo_era + st.done + i + 1,
    decreases bs.len(),
{
    if bs.len() > 0 {
        let prev = bs.drop_last();
        lemma_sync_run(st, era, prev);
        let before = era_sync_run(st, prev);
        lemma_sync_step(before, era, bs.last());
        assert forall|i: int| 0 <= i < bs.len() - 1 implies #[trigger] bs[i] == prev[i] by {}
        assert forall|i: int, j: int| 0 <= i < j < bs.len() implies #[trigger] bs[i] < #[trigger] bs[j] by {
            assert(bs[i] == prev[i]);
            if j < bs.len() - 1 {
                assert(bs[j] == prev[j]);
            } else {
                if prev.len() > 0 {
                    assert(prev[i] <= prev.last());
                }
            }
        }
        assert forall|i: int| 0 <= i < bs.len() implies st.lo_block < #[trigger] bs[i] <= st.head by {
            if i < bs.len() - 1 {
                assert(bs[i] == prev[i]);
            }
        }
        assert forall|i: int| 0 <= i < bs.len() implies era(#[trigger] bs[i]) == st.lo_era + st.done + i + 1 by {
            if i < bs.len() - 1 {
                assert(bs[i] == prev[i]);
            }
        }
    }
}

/// A complete run leaves nothing for the next cycle at the same head: its
/// last boundary, the new cursor, already has the head's era, so the next
/// plan over `(cursor, head]` is empty (`EraSync::new` gives `None`).
pub proof fn lemma_sync_rerun_is_empty(st: EraSyncState, era: spec_fn(u64) -> u32, bs: Seq<u64>)
    requires
        sync_agrees(st, era),
        is_sync_run(st, era, bs),
        bs.len() > 0,
        era_sync_run(st, bs).done == st.hi_era - st.lo_era,
    ensures
        era(bs.last()) == era(st.head),
        era(era_sync_run(st, bs).lo_block) >= era(era_sync_run(st, bs).head),
{
    lemma_sync_run(st, era, bs);
}


/// Appending the records of the boundaries found so far in a cycle, in turn,
/// to an event list whose cursor is at most the plan's lower end keeps the
/// ingested block numbers strictly increasing: every appended block lies
/// above the old cursor and at most at the head, and the cursor ends at the
/// last boundary appended. This holds for a whole cycle and for one that
/// stopped part way (any prefix of its boundaries).
pub proof fn lemma_cycle_appends_in_order(
    s: Seq<EraPaid>,
    c: Option<u64>,
    st: EraSyncState,
    era: spec_fn(u64) -> u32,
    bs: Seq<u64>,
    es: Seq<EraPaid>,
)
    requires
        live_blocks_increase(s),
        is_cursor(s, c),
        c matches Some(m) ==> m <= st.lo_block,
        sync_agrees(st, era),
        is_sync_run(st, era, bs),
        es.len() == bs.len(),
        forall|i: int| 0 <= i < es.len() ==> #[trigger] es[i].block_number == Some(bs[i]),
    ensures
        live_blocks_increase(s + es),
        is_cursor(s + es, if bs.len() == 0 { c } else { Some(bs.last()) }),
        forall|i: int| 0 <= i < bs.len() ==> #[trigger] bs[i] <= st.head,
        forall|i: int| 0 <= i < bs.len() ==> (c matches Some(m) ==> m < #[trigger] bs[i]),
    decreases bs.len(),
{
    lemma_sync_run(st, era, bs);
    if bs.len() == 0 {
        assert(s + es =~= s);
    } else {
        let bs1 = bs.drop_last();
        let es1 = es.drop_last();
        assert forall|i: int| 0 <= i < es1.len() implies #[trigger] es1[i].block_number == Some(bs1[i]) by {
            assert(es1[i] == es[i]);
            assert(es[i].block_number == Some(bs[i]));
        }
        lemma_cycle_appends_in_order(s, c, st, era, bs1, es1);
        let s1 = s + es1;
        let c1 = if bs1.len() == 0 { c } else { Some(bs1.last()) };
        let b = bs.last();
        assert(es[es.len() - 1].block_number == Some(bs[bs.len() - 1]));
        if bs1.len() > 0 {
            assert(bs1.last() == bs[bs.len() - 2]);
            assert(bs[bs.len() - 2] < bs[bs.len() - 1]);
        } else {
            assert(st.lo_block < bs[0]);
        }
        lemma_append_keeps_order(s1, c1, es.last(), b);
        lemma_cursor_after_append(s1, c1, es.last(), b);
        assert(s + es =~= s1.push(es.last()));
    }
}

/// The cursor a cycle starts from: the events' cursor, or on a cold start
/// the block before `first`, the first block of the ingestion window.
pub open spec fn cycle_start(c: Option<u64>, first: u64) -> u64 {
    match c {
        Some(m) => m,
        None => if first == 0 {
            0
        } else {
            (first - 1) as u64
        },
    }
}

/// The plan a cycle makes with cursor `c` at head `head` on the chain `era`:
/// `None` when it is up to date or no era was activated since the cursor
/// (the decisions of `cold_start_cursor`, `is_up_to_date` and `EraSync::new`).
pub open spec fn cycle_plan(
    c: Option<u64>,
    first: u64,
    head: u64,
    era: spec_fn(u64) -> u32,
) -> Option<EraSyncState> {
    let after = cycle_start(c, first);
    if after >= head {
        None
    } else if era(head) <= era(after) {
        None
    } else {
        Some(EraSyncState { head, lo_era: era(after), hi_era: era(head), lo_block: after, done: 0 })
    }
}

/// A sync at a fixed head is idempotent: after a cycle that found nothing to
/// do, or that appended the records of all its boundaries, a second cycle at
/// the same head on the same chain plans nothing.
pub proof fn lemma_cycle_is_idempotent(
    s: Seq<EraPaid>,
    c: Option<u64>,
    first: u64,
    head: u64,
    era: spec_fn(u64) -> u32,
    bs: Seq<u64>,
    es: Seq<EraPaid>,
)
    requires
        live_blocks_increase(s),
        is_cursor(s, c),
        match cycle_plan(c, first, head, era) {
            None => bs.len() == 0,
            Some(st) => is_sync_run(st, era, bs) && era_sync_run(st, bs).done == st.hi_era - st.lo_era,
        },
        es.len() == bs.len(),
        forall|i: int| 0 <= i < es.len() ==> #[trigger] es[i].block_number == Some(bs[i]),
    ensures
        is_cursor(s + es, if bs.len() == 0 { c } else { Some(bs.last()) }),
        cycle_plan(if bs.len() == 0 { c } else { Some(bs.last()) }, first, head, era) is None,
{
    match cycle_plan(c, first, head, era) {
        None => {
            assert(s + es =~= s);
        },
        Some(st) => {
            lemma_sync_starts(st.lo_block, head, st.lo_era, st.hi_era, era);
            lemma_sync_run(st, era, bs);
            lemma_cycle_appends_in_order(s, c, st, era, bs, es);
            lemma_sync_rerun_is_empty(st, era, bs);
        },
    }
}

} // verus!
