//! The two block searches of the ingestor, as state machines: the caller
//! reads the chain at the block that a search asks for and hands the value
//! back, until the search is done.

use vstd::prelude::*;

verus! {

/// The midpoint `lo + (hi - lo) / 2` of a bisection step.
pub open spec fn midpoint(lo: u64, hi: u64) -> u64 {
    (lo + (hi - lo) / 2) as u64
}

/// What a [`BlockSearch`] holds.
pub struct BlockSearchState {
    pub lo: u64,
    pub hi: u64,
    pub target_ms: u64,
}

/// Bisection for the first block in `[1, hi]` whose timestamp is at least a
/// target: the block that starts the ingestion window on a cold start.
pub struct BlockSearch {
    lo: u64,
    hi: u64,
    target_ms: u64,
}

impl View for BlockSearch {
    type V = BlockSearchState;

    closed spec fn view(&self) -> BlockSearchState {
        BlockSearchState { lo: self.lo, hi: self.hi, target_ms: self.target_ms }
    }
}

/// The target of a search for instant `start_ms`: instants before the epoch
/// count as the epoch.
pub open spec fn target_of(start_ms: i64) -> u64 {
    if start_ms < 0 {
        0
    } else {
        start_ms as u64
    }
}

/// The state after the timestamp `ts_mid` of the midpoint block was read.
pub open spec fn block_search_next(st: BlockSearchState, ts_mid: u64) -> BlockSearchState {
    let mid = midpoint(st.lo, st.hi);
    if ts_mid >= st.target_ms {
        BlockSearchState { hi: mid, ..st }
    } else {
        BlockSearchState { lo: (mid + 1) as u64, ..st }
    }
}

impl BlockSearch {
    /// Starts the search over `[1, hi]` for the first block at or after the
    /// instant `start_ms` (milliseconds since the epoch).
    pub fn new(start_ms: i64, hi: u64) -> (s: BlockSearch)
        ensures
            s@ == (BlockSearchState { lo: 1, hi, target_ms: target_of(start_ms) }),
            start_ms >= 0 ==> s@.target_ms as int == start_ms as int,
            start_ms < 0 ==> s@.target_ms == 0,
    {
        let target_ms: u64 = if start_ms < 0 {
            0
        } else {
            start_ms as u64
        };
        BlockSearch { lo: 1, hi, target_ms }
    }

    /// The block whose timestamp the search needs next, or `None` when it is done.
    pub fn probe(&self) -> (r: Option<u64>)
        ensures
            r == (if self@.lo < self@.hi {
                Some(midpoint(self@.lo, self@.hi))
            } else {
                None::<u64>
            }),
            r is Some <==> self@.lo < self@.hi,
            r matches Some(m) ==> m as int == self@.lo + (self@.hi - self@.lo) / 2,
    {
        if self.lo < self.hi {
            Some(self.lo + (self.hi - self.lo) / 2)
        } else {
            None
        }
    }

    /// Takes the timestamp (milliseconds) of the block that [`Self::probe`] named.
    pub fn record(&mut self, ts_mid: u64)
        requires
            old(self)@.lo < old(self)@.hi,
        ensures
            final(self)@ == block_search_next(old(self)@, ts_mid),
            final(self)@.target_ms == old(self)@.target_ms,
            ts_mid >= old(self)@.target_ms ==> final(self)@.lo == old(self)@.lo && final(self)@.hi as int
                == old(self)@.lo + (old(self)@.hi - old(self)@.lo) / 2,
            ts_mid < old(self)@.target_ms ==> final(self)@.hi == old(self)@.hi && final(self)@.lo as int
                == old(self)@.lo + (old(self)@.hi - old(self)@.lo) / 2 + 1,
    {
        let mid = self.lo + (self.hi - self.lo) / 2;
        if ts_mid >= self.target_ms {
            self.hi = mid;
        } else {
            self.lo = mid + 1;
        }
    }

    /// The block found: the lower end of the window.
    pub fn result(&self) -> (r: u64)
        ensures
            r == self@.lo,
    {
        self.lo
    }
}

/// `ts` does not decrease over the blocks `[1, top]`.
pub open spec fn ascending_on(ts: spec_fn(u64) -> u64, top: u64) -> bool {
    forall|a: u64, b: u64| 1 <= a <= b <= top ==> #[trigger] ts(a) <= #[trigger] ts(b)
}

/// The window of `st` holds the first block of `[1, top]` that reaches the
/// target, or `top` when none does.
pub open spec fn block_window(st: BlockSearchState, ts: spec_fn(u64) -> u64, top: u64) -> bool {
    &&& 1 <= st.lo <= st.hi <= top
    &&& forall|b: u64| 1 <= b < st.lo ==> #[trigger] ts(b) < st.target_ms
    &&& (st.hi == top || ts(st.hi) >= st.target_ms)
}

/// A fresh search over `[1, top]` brackets the answer.
pub proof fn lemma_block_search_starts(start_ms: i64, top: u64, ts: spec_fn(u64) -> u64)
    requires
        top >= 1,
    ensures
        block_window(
            BlockSearchState { lo: 1, hi: top, target_ms: target_of(start_ms) },
            ts,
            top,
        ),
{
}

/// Each step keeps the answer inside the window and at least halves it
/// (so a search over `[1, top]` reads about `log2(top)` timestamps), as long
/// as the timestamps do not decrease with the block number.
pub proof fn lemma_block_search_step(st: BlockSearchState, ts: spec_fn(u64) -> u64, top: u64)
    requires
        ascending_on(ts, top),
        block_window(st, ts, top),
        st.lo < st.hi,
    ensures
        block_window(block_search_next(st, ts(midpoint(st.lo, st.hi))), ts, top),
        block_search_next(st, ts(midpoint(st.lo, st.hi))).hi - block_search_next(
            st,
            ts(midpoint(st.lo, st.hi)),
        ).lo <= (st.hi - st.lo) / 2,
{
    let mid = midpoint(st.lo, st.hi);
    let nx = block_search_next(st, ts(mid));
    if ts(mid) < st.target_ms {
        assert forall|b: u64| 1 <= b < nx.lo implies #[trigger] ts(b) < st.target_ms by {
            if b >= st.lo {
                assert(ts(b) <= ts(mid));
            }
        }
    }
}

/// When the window is closed, the search has found the first block of
/// `[1, top]` whose timestamp reaches the target, or `top` when none does.
pub proof fn lemma_block_search_done(st: BlockSearchState, ts: spec_fn(u64) -> u64, top: u64)
    requires
        block_window(st, ts, top),
        st.lo >= st.hi,
    ensures
        1 <= st.lo <= top,
        forall|b: u64| 1 <= b < st.lo ==> #[trigger] ts(b) < st.target_ms,
        ts(st.lo) >= st.target_ms || st.lo == top,
{
}


/// What an [`EraSearch`] holds: the window `(lo, hi]` of blocks and the
/// active era indices already read at its two ends.
pub struct EraSearchState {
    pub target: u32,
    pub lo: u64,
    pub e_lo: u32,
    pub hi: u64,
    pub e_hi: u32,
}

/// Search for the first block in `(lo, hi]` whose active era index is at
/// least `target`: interpolation while the window spans two or more eras,
/// bisection once it spans one. The two ends are never read again.
pub struct EraSearch {
    target: u32,
    lo: u64,
    e_lo: u32,
    hi: u64,
    e_hi: u32,
}

impl View for EraSearch {
    type V = EraSearchState;

    closed spec fn view(&self) -> EraSearchState {
        EraSearchState {
            target: self.target,
            lo: self.lo,
            e_lo: self.e_lo,
            hi: self.hi,
            e_hi: self.e_hi,
        }
    }
}

/// `x` brought into `[low, high]`.
pub open spec fn clamp(x: int, low: int, high: int) -> int {
    if x < low {
        low
    } else if x > high {
        high
    } else {
        x
    }
}

/// The block that the search reads next. While the window spans two or more
/// eras it is `lo + offset`, where `offset` is the interpolated distance
/// that the caller computed, clamped to `[lo + 1, hi - 1]`; otherwise the
/// midpoint.
pub open spec fn era_probe(st: EraSearchState, offset: u64) -> u64 {
    if st.e_hi - st.e_lo >= 2 {
        clamp(st.lo + offset, st.lo + 1, st.hi - 1) as u64
    } else {
        midpoint(st.lo, st.hi)
    }
}

/// The state after the era index `e_mid` of block `mid` was read.
pub open spec fn era_search_next(st: EraSearchState, mid: u64, e_mid: u32) -> EraSearchState {
    if e_mid >= st.target {
        EraSearchState { hi: mid, e_hi: e_mid, ..st }
    } else {
        EraSearchState { lo: mid, e_lo: e_mid, ..st }
    }
}

impl EraSearch {
    #[verifier::type_invariant]
    spec fn well_formed(self) -> bool {
        &&& self.lo <= self.hi
        &&& self.e_lo < self.target
        &&& self.target <= self.e_hi
    }

    /// Starts the search for the boundary of era `target` in `(lo, hi]`,
    /// where `e_lo` and `e_hi` are the era indices at `lo` and `hi`.
    pub fn new(target: u32, lo: u64, e_lo: u32, hi: u64, e_hi: u32) -> (s: EraSearch)
        requires
            lo <= hi,
            e_lo < target <= e_hi,
        ensures
            s@ == (EraSearchState { target, lo, e_lo, hi, e_hi }),
    {
        EraSearch { target, lo, e_lo, hi, e_hi }
    }

    /// Whether the window still holds more than one block.
    pub fn is_open(&self) -> (r: bool)
        ensures
            r == (self@.hi - self@.lo > 1),
    {
        proof {
            use_type_invariant(self);
        }
        self.hi - self.lo > 1
    }

    /// Whether the next probe is interpolated: the window spans two or more eras.
    pub fn interpolates(&self) -> (r: bool)
        ensures
            r == (self@.e_hi - self@.e_lo >= 2),
    {
        proof {
            use_type_invariant(self);
        }
        self.e_hi - self.e_lo >= 2
    }

    /// The two ends of the window and their era indices: `(lo, e_lo, hi, e_hi)`.
    pub fn window(&self) -> (r: (u64, u32, u64, u32))
        ensures
            r == (self@.lo, self@.e_lo, self@.hi, self@.e_hi),
    {
        (self.lo, self.e_lo, self.hi, self.e_hi)
    }

    /// The era whose boundary is sought.
    pub fn target(&self) -> (r: u32)
        ensures
            r == self@.target,
    {
        self.target
    }

    /// The block to read next, given the interpolated distance `offset` from
    /// `lo` (only used while [`Self::interpolates`] holds). It lies strictly
    /// inside the window.
    pub fn probe(&self, offset: u64) -> (r: u64)
        requires
            self@.hi - self@.lo > 1,
        ensures
            r == era_probe(self@, offset),
            self@.lo < r < self@.hi,
            self@.e_hi - self@.e_lo >= 2 && 1 <= offset && self@.lo + offset < self@.hi ==> r as int
                == self@.lo + offset,
            self@.e_hi - self@.e_lo >= 2 && offset == 0 ==> r as int == self@.lo + 1,
            self@.e_hi - self@.e_lo >= 2 && self@.lo + offset >= self@.hi ==> r as int == self@.hi - 1,
            self@.e_hi - self@.e_lo < 2 ==> r as int == self@.lo + (self@.hi - self@.lo) / 2,
    {
        proof {
            use_type_invariant(self);
        }
        if self.e_hi - self.e_lo >= 2 {
            let lo = self.lo;
            let hi = self.hi;
            if offset >= hi - lo {
                hi - 1
            } else if offset < 1 {
                lo + 1
            } else if lo + offset > hi - 1 {
                hi - 1
            } else {
                lo + offset
            }
        } else {
            self.lo + (self.hi - self.lo) / 2
        }
    }

    /// Takes the era index `e_mid` read at block `mid`, a block strictly
    /// inside the window.
    pub fn record(&mut self, mid: u64, e_mid: u32)
        requires
            old(self)@.lo < mid < old(self)@.hi,
        ensures
            final(self)@ == era_search_next(old(self)@, mid, e_mid),
            final(self)@.target == old(self)@.target,
            e_mid >= old(self)@.target ==> final(self)@.lo == old(self)@.lo && final(self)@.e_lo
                == old(self)@.e_lo && final(self)@.hi == mid && final(self)@.e_hi == e_mid,
            e_mid < old(self)@.target ==> final(self)@.hi == old(self)@.hi && final(self)@.e_hi
                == old(self)@.e_hi && final(self)@.lo == mid && final(self)@.e_lo == e_mid,
    {
        proof {
            use_type_invariant(&*self);
        }
        if e_mid >= self.target {
            *self = EraSearch { hi: mid, e_hi: e_mid, ..*self };
        } else {
            *self = EraSearch { lo: mid, e_lo: e_mid, ..*self };
        }
    }

    /// The boundary block: the upper end of the window.
    pub fn result(&self) -> (r: u64)
        ensures
            r == self@.hi,
            self@.lo <= r,
    {
        proof {
            use_type_invariant(self);
        }
        self.hi
    }
}

/// `era` does not decrease over the blocks `[lo0, hi0]`.
pub open spec fn era_ascending_on(era: spec_fn(u64) -> u32, lo0: u64, hi0: u64) -> bool {
    forall|a: u64, b: u64| lo0 <= a <= b <= hi0 ==> #[trigger] era(a) <= #[trigger] era(b)
}

/// The era index rises by at most one from a block to the next over `[lo0, hi0]`.
pub open spec fn era_steps_by_one(era: spec_fn(u64) -> u32, lo0: u64, hi0: u64) -> bool {
    forall|b: u64| lo0 <= b < hi0 ==> #[trigger] era((b + 1) as u64) <= era(b) + 1
}

/// The window of `st` lies in `[lo0, hi0]`, its ends carry the era indices
/// that `era` gives them, and the target lies between them.
pub open spec fn era_window(st: EraSearchState, era: spec_fn(u64) -> u32, lo0: u64, hi0: u64) -> bool {
    &&& lo0 <= st.lo <= st.hi <= hi0
    &&& era(st.lo) == st.e_lo
    &&& era(st.hi) == st.e_hi
    &&& st.e_lo < st.target <= st.e_hi
}

/// Each step, interpolated or bisecting, keeps the window consistent with the
/// chain and shrinks it, whatever distance the caller interpolated.
pub proof fn lemma_era_search_step(
    st: EraSearchState,
    era: spec_fn(u64) -> u32,
    lo0: u64,
    hi0: u64,
    offset: u64,
)
    requires
        era_window(st, era, lo0, hi0),
        st.hi - st.lo > 1,
    ensures
        st.lo < era_probe(st, offset) < st.hi,
        era_window(
            era_search_next(st, era_probe(st, offset), era(era_probe(st, offset))),
            era,
            lo0,
            hi0,
        ),
        era_search_next(st, era_probe(st, offset), era(era_probe(st, offset))).hi
            - era_search_next(st, era_probe(st, offset), era(era_probe(st, offset))).lo
            < st.hi - st.lo,
{
}

/// When the window is down to one block, its upper end is the first block of
/// `(lo0, hi0]` whose era index reaches the target; where the era index rises
/// by at most one per block, that block's era index is the target itself.
pub proof fn lemma_era_search_done(
    st: EraSearchState,
    era: spec_fn(u64) -> u32,
    lo0: u64,
    hi0: u64,
)
    requires
        era_ascending_on(era, lo0, hi0),
        era_window(st, era, lo0, hi0),
        st.hi - st.lo <= 1,
    ensures
        lo0 < st.hi <= hi0,
        era(st.hi) >= st.target,
        forall|b: u64| lo0 <= b < st.hi ==> #[trigger] era(b) < st.target,
        era_steps_by_one(era, lo0, hi0) ==> era(st.hi) == st.target,
{
    assert(st.lo < st.hi);
    assert forall|b: u64| lo0 <= b < st.hi implies #[trigger] era(b) < st.target by {
        assert(b <= st.lo);
        assert(era(b) <= era(st.lo));
    }
    if era_steps_by_one(era, lo0, hi0) {
        assert(era(((st.hi - 1) as u64 + 1) as u64) <= era((st.hi - 1) as u64) + 1);
    }
}


/// The target of a search is the start instant itself, or the epoch for an
/// instant before it.
pub proof fn lemma_target_is_start(start_ms: i64)
    ensures
        start_ms >= 0 ==> target_of(start_ms) as int == start_ms as int,
        start_ms < 0 ==> target_of(start_ms) == 0,
{
}

/// A cold-start search for the instant `start_ms` over `[1, top]` ends on
/// the first block whose timestamp is at or after that instant (instants
/// before the epoch count as the epoch), or on `top` when no block reaches it.
pub proof fn lemma_block_search_finds_start(
    start_ms: i64,
    ts: spec_fn(u64) -> u64,
    top: u64,
    st: BlockSearchState,
)
    requires
        st.target_ms == target_of(start_ms),
        block_window(st, ts, top),
        st.lo >= st.hi,
    ensures
        1 <= st.lo <= top,
        forall|b: u64|
            1 <= b < st.lo ==> (#[trigger] ts(b) as int) < (if start_ms < 0 {
                0
            } else {
                start_ms as int
            }),
        ts(st.lo) as int >= (if start_ms < 0 {
            0
        } else {
            start_ms as int
        }) || st.lo == top,
{
    lemma_target_is_start(start_ms);
    lemma_block_search_done(st, ts, top);
}

} // verus!
