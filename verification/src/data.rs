//! `EraPaid` events and what the service reads off its list of them.

use vstd::prelude::*;

verus! {

/// One `Staking::EraPaid` event, as the service stores and serves it.
/// Amounts are decimal texts in plancks (1 DOT = 10^10 plancks).
#[derive(Debug, Clone, PartialEq, Eq)]
pub struct EraPaid {
    pub timestamp: String,
    pub amount_paid: String,
    pub total_issuance: String,
    /// `None` for frozen relay-chain history, `Some` for ingested Asset Hub
    /// events. Used as the ingestor cursor and to select the live subset
    /// for persistence.
    pub block_number: Option<u64>,
}

/// Whether an event was ingested from Asset Hub (it carries a block number).
pub open spec fn is_live(e: EraPaid) -> bool {
    e.block_number is Some
}

/// The ingested events of `s`, in their order.
pub open spec fn live_subset(s: Seq<EraPaid>) -> Seq<EraPaid>
    decreases s.len(),
{
    if s.len() == 0 {
        Seq::empty()
    } else if is_live(s.last()) {
        live_subset(s.drop_last()).push(s.last())
    } else {
        live_subset(s.drop_last())
    }
}

/// The ingested events (those carrying a block number), in order: what the
/// service persists.
pub fn live_events<'a>(events: &'a [EraPaid]) -> (r: Vec<&'a EraPaid>)
    ensures
        r@.map_values(|e: &EraPaid| *e) == live_subset(events@),
        r@.map_values(|e: &EraPaid| *e) == events@.filter(|e: EraPaid| e.block_number is Some),
{
    let mut r: Vec<&'a EraPaid> = Vec::new();
    let mut i: usize = 0;
    while i < events.len()
        invariant
            i <= events@.len(),
            r@.map_values(|e: &EraPaid| *e) == live_subset(events@.take(i as int)),
        decreases events@.len() - i,
    {
        let e = &events[i];
        assert(events@.take(i + 1).drop_last() =~= events@.take(i as int));
        assert(events@.take(i + 1).last() == *e);
        let ghost before = r@;
        if e.block_number.is_some() {
            r.push(e);
            assert(r@.map_values(|x: &EraPaid| *x) =~= before.map_values(|x: &EraPaid| *x).push(*e));
        }
        i = i + 1;
    }
    assert(events@.take(events@.len() as int) =~= events@);
    proof {
        lemma_live_subset_is_filter(events@);
    }
    r
}

/// The ingested subset is the list filtered by `block_number.is_some()`, in
/// order: every event that carries a block number, wherever it stands, and
/// nothing else.
pub proof fn lemma_live_subset_is_filter(s: Seq<EraPaid>)
    ensures
        live_subset(s) == s.filter(|e: EraPaid| e.block_number is Some),
    decreases s.len(),
{
    reveal(Seq::filter);
    if s.len() > 0 {
        lemma_live_subset_is_filter(s.drop_last());
    }
}

/// `r` is the cursor of the events `s`: the highest block number among them,
/// or `None` when none carries one.
pub open spec fn is_cursor(s: Seq<EraPaid>, r: Option<u64>) -> bool {
    &&& (r is None <==> forall|i: int| 0 <= i < s.len() ==> !is_live(#[trigger] s[i]))
    &&& (r matches Some(m) ==> {
        &&& exists|i: int| 0 <= i < s.len() && #[trigger] s[i].block_number == Some(m)
        &&& forall|i: int| 0 <= i < s.len() && #[trigger] s[i].block_number is Some
            ==> s[i].block_number->0 <= m
    })
}

/// The ingestor's cursor: the highest block number among the events, or
/// `None` when no event carries one (a cold start).
pub fn ingest_cursor(events: &[EraPaid]) -> (r: Option<u64>)
    ensures
        is_cursor(events@, r),
        r is None <==> forall|i: int| 0 <= i < events@.len() ==> #[trigger] events@[i].block_number is None,
        r matches Some(m) ==> exists|i: int| 0 <= i < events@.len() && #[trigger] events@[i].block_number == Some(m),
        r matches Some(m) ==> forall|i: int| 0 <= i < events@.len() && #[trigger] events@[i].block_number is Some
            ==> events@[i].block_number->0 <= m,
{
    let mut best: Option<u64> = None;
    let mut i: usize = 0;
    while i < events.len()
        invariant
            i <= events@.len(),
            best is None <==> forall|j: int| 0 <= j < i ==> !is_live(#[trigger] events@[j]),
            best matches Some(m) ==> {
                &&& exists|j: int| 0 <= j < i && #[trigger] events@[j].block_number == Some(m)
                &&& forall|j: int| 0 <= j < i && #[trigger] events@[j].block_number is Some
                    ==> events@[j].block_number->0 <= m
            },
        decreases events@.len() - i,
    {
        match events[i].block_number {
            Some(b) => {
                match best {
                    Some(m) => {
                        if b > m {
                            best = Some(b);
                        }
                    },
                    None => {
                        best = Some(b);
                    },
                }
            },
            None => {},
        }
        i = i + 1;
    }
    best
}

/// A list has one cursor.
pub proof fn lemma_cursor_unique(s: Seq<EraPaid>, r1: Option<u64>, r2: Option<u64>)
    requires
        is_cursor(s, r1),
        is_cursor(s, r2),
    ensures
        r1 == r2,
{
    if r1 is Some && r2 is Some {
        let m1 = r1->0;
        let m2 = r2->0;
        let i1 = choose|i: int| 0 <= i < s.len() && #[trigger] s[i].block_number == Some(m1);
        let i2 = choose|i: int| 0 <= i < s.len() && #[trigger] s[i].block_number == Some(m2);
        assert(s[i1].block_number is Some);
        assert(s[i2].block_number is Some);
    }
}

/// Appending the event of a boundary block beyond the cursor moves the
/// cursor to that block: a sync that stops after persisting it resumes
/// right after it.
pub proof fn lemma_cursor_after_append(s: Seq<EraPaid>, c: Option<u64>, e: EraPaid, b: u64)
    requires
        is_cursor(s, c),
        e.block_number == Some(b),
        c matches Some(m) ==> m <= b,
    ensures
        is_cursor(s.push(e), Some(b)),
{
    let t = s.push(e);
    assert(t[s.len() as int].block_number == Some(b));
    assert forall|i: int| 0 <= i < t.len() && #[trigger] t[i].block_number is Some implies t[i].block_number->0 <= b by {
        if i < s.len() {
            assert(t[i] == s[i]);
            assert(s[i].block_number is Some);
        }
    }
}

/// The block numbers of the ingested events of `s` strictly increase in
/// list order.
pub open spec fn live_blocks_increase(s: Seq<EraPaid>) -> bool {
    forall|i: int, j: int|
        0 <= i < j < s.len() && #[trigger] s[i].block_number is Some
            && #[trigger] s[j].block_number is Some ==> s[i].block_number->0 < s[j].block_number->0
}

/// Appending the event of a boundary block beyond the cursor keeps the
/// ingested block numbers strictly increasing.
pub proof fn lemma_append_keeps_order(s: Seq<EraPaid>, c: Option<u64>, e: EraPaid, b: u64)
    requires
        live_blocks_increase(s),
        is_cursor(s, c),
        e.block_number == Some(b),
        c matches Some(m) ==> m < b,
    ensures
        live_blocks_increase(s.push(e)),
{
    let t = s.push(e);
    assert forall|i: int, j: int|
        0 <= i < j < t.len() && #[trigger] t[i].block_number is Some
            && #[trigger] t[j].block_number is Some implies t[i].block_number->0 < t[j].block_number->0 by {
        assert(t[i] == s[i]);
        assert(s[i].block_number is Some);
        if j < s.len() {
            assert(t[j] == s[j]);
        }
    }
}

/// The timestamp of the latest event, or the empty text when there is none.
pub fn last_event_timestamp(events: &[EraPaid]) -> (r: String)
    ensures
        r@ == (if events@.len() == 0 {
            Seq::<char>::empty()
        } else {
            events@.last().timestamp@
        }),
{
    if events.len() == 0 {
        String::new()
    } else {
        events[events.len() - 1].timestamp.clone()
    }
}

} // verus!
