//! Server statistics: the timestamps one page of history covers, the page
//! after it, and how long fetched process lists are reused.

use vstd::prelude::*;

verus! {

/// How many stats records one page of history holds.
pub const STATS_PER_PAGE: i64 = 200;

/// How long a fetched process list is reused, in milliseconds.
pub const PROCESSES_EXPIRY_MS: u128 = 15000;

/// `a * b`, clamped to the range of `i64` (what `i64::saturating_mul`
/// gives).
pub open spec fn spec_saturating_mul_i64(a: i64, b: i64) -> i64 {
    if a * b > i64::MAX {
        i64::MAX
    } else if a * b < i64::MIN {
        i64::MIN
    } else {
        (a * b) as i64
    }
}

/// The newest timestamp of a page of history: `now` rounded down to the
/// granularity, less one granularity per record of the pages before.
pub open spec fn spec_page_start(now_ms: i64, granularity: i64, page: u64) -> int {
    now_ms - now_ms % granularity - granularity * spec_saturating_mul_i64(page as i64, STATS_PER_PAGE)
}

/// Whether a page's timestamps can be computed in 64 bits: the
/// granularity is positive, the clock is past the epoch, and the start of
/// the page and every step down from it stay in range.
pub open spec fn spec_page_in_range(now_ms: i64, granularity: i64, page: u64) -> bool {
    &&& granularity > 0
    &&& now_ms >= 0
    &&& i64::MIN <= granularity * spec_saturating_mul_i64(page as i64, STATS_PER_PAGE) <= i64::MAX
    &&& i64::MIN <= spec_page_start(now_ms, granularity, page) - STATS_PER_PAGE * granularity
    &&& spec_page_start(now_ms, granularity, page) <= i64::MAX
}

/// The timestamps of one page of history, newest first: `STATS_PER_PAGE`
/// of them, one granularity apart, starting at the page's start.
pub fn stats_page_timestamps(now_ms: i64, granularity: i64, page: u64) -> (res: Vec<i64>)
    requires
        spec_page_in_range(now_ms, granularity, page),
    ensures
        res@.len() == STATS_PER_PAGE,
        forall|i: int|
            0 <= i < STATS_PER_PAGE ==> #[trigger] res@[i] == spec_page_start(now_ms, granularity, page)
                - i * granularity,
{
    let p = #[verifier::truncate] (page as i64);
    let pages: i64 = match p.checked_mul(STATS_PER_PAGE) {
        Some(v) => v,
        None => if p > 0 {
            i64::MAX
        } else {
            i64::MIN
        },
    };
    assert(pages == spec_saturating_mul_i64(page as i64, STATS_PER_PAGE));
    let back = granularity * pages;
    let start = now_ms - now_ms % granularity - back;
    let mut res: Vec<i64> = Vec::new();
    let mut curr = start;
    let mut k: i64 = 0;
    while k < STATS_PER_PAGE
        invariant
            0 <= k <= STATS_PER_PAGE,
            granularity > 0,
            start == spec_page_start(now_ms, granularity, page),
            i64::MIN <= start - STATS_PER_PAGE * granularity,
            curr == start - k * granularity,
            res@.len() == k,
            forall|i: int| 0 <= i < k ==> #[trigger] res@[i] == start - i * granularity,
        decreases STATS_PER_PAGE - k,
    {
        res.push(curr);
        assert((k + 1) * granularity == k * granularity + granularity) by (nonlinear_arith);
        assert(start - (k + 1) * granularity >= start - STATS_PER_PAGE * granularity) by (nonlinear_arith)
            requires
                k + 1 <= STATS_PER_PAGE,
                granularity > 0,
        ;
        curr = curr - granularity;
        k = k + 1;
    }
    res
}

/// The page after this one, when this one came back full.
pub fn next_stats_page(page: u64, found: usize) -> (res: Option<u64>)
    requires
        found == STATS_PER_PAGE ==> page < u64::MAX,
    ensures
        found == STATS_PER_PAGE ==> res == Some((page + 1) as u64),
        found != STATS_PER_PAGE ==> res is None,
{
    if found == STATS_PER_PAGE as usize {
        Some(page + 1)
    } else {
        None
    }
}

/// Whether a process list fetched earlier may still be used at `now_ms`:
/// one was fetched and it has not expired.
pub fn processes_cache_fresh(expires_at: Option<u128>, now_ms: u128) -> (res: bool)
    ensures
        res == (expires_at matches Some(e) && e > now_ms),
{
    match expires_at {
        Some(e) => e > now_ms,
        None => false,
    }
}

/// When a process list fetched at `now_ms` expires.
pub fn processes_expiry(now_ms: u128) -> (res: u128)
    requires
        now_ms + PROCESSES_EXPIRY_MS <= u128::MAX,
    ensures
        res == now_ms + PROCESSES_EXPIRY_MS,
{
    now_ms + PROCESSES_EXPIRY_MS
}

} // verus!
