//! Paging of listed items, both while pulling from a cursor and over
//! lists collected in memory.

use vstd::prelude::*;

verus! {

/// How far a paged pull has got: visible items skipped so far, and items
/// taken into the page so far.
#[derive(Clone, Copy, Debug)]
pub struct PageState {
    pub skipped: u64,
    pub taken: usize,
}

/// What to do with the next visible item.
#[derive(Clone, Copy, Debug, PartialEq, Eq, Structural)]
pub enum PageStep {
    /// It falls before the page: count it as skipped.
    Skip,
    /// It belongs to the page.
    Take,
    /// It belongs to the page, and the page is now full: stop pulling.
    TakeAndStop,
}

/// The page limit from the requested one: negative or missing limits mean
/// no limit (0).
pub fn page_limit(limit: Option<i64>) -> (res: usize)
    ensures
        res == match limit {
            Some(l) => if l > 0 { l as usize } else { 0usize },
            None => 0usize,
        },
{
    match limit {
        Some(l) => if l > 0 {
            #[verifier::truncate]
            (l as usize)
        } else {
            0
        },
        None => 0,
    }
}

impl PageState {
    /// Nothing skipped or taken yet.
    pub fn new() -> (s: PageState)
        ensures
            s.skipped == 0,
            s.taken == 0,
    {
        PageState { skipped: 0, taken: 0 }
    }

    /// Decides the next visible item: the first `skip` are skipped, the rest
    /// taken; when `limit` is not 0 the item that fills the page stops the pull.
    pub fn step(&mut self, skip: u64, limit: usize) -> (res: PageStep)
        requires
            old(self).taken < usize::MAX,
        ensures
            old(self).skipped < skip ==> res == PageStep::Skip && final(self).skipped
                == old(self).skipped + 1 && final(self).taken == old(self).taken,
            old(self).skipped >= skip ==> final(self).skipped == old(self).skipped
                && final(self).taken == old(self).taken + 1 && (res == if limit != 0
                && final(self).taken >= limit {
                PageStep::TakeAndStop
            } else {
                PageStep::Take
            }),
    {
        if self.skipped < skip {
            self.skipped = self.skipped + 1;
            return PageStep::Skip;
        }
        self.taken = self.taken + 1;
        if limit != 0 && self.taken >= limit {
            PageStep::TakeAndStop
        } else {
            PageStep::Take
        }
    }
}

/// The state after `k` visible items, while the page is not yet full.
pub open spec fn spec_state_after(k: nat, skip: u64) -> (nat, nat) {
    if k < skip {
        (k, 0)
    } else {
        (skip as nat, (k - skip) as nat)
    }
}

/// Pulling visible items one at a time from an empty state takes exactly the
/// items at positions `skip .. skip + limit` (all from `skip` on when `limit`
/// is 0), and stops right after the last of them.
pub proof fn law_page_steps_take_window(k: nat, skip: u64, limit: usize, before: PageState, after: PageState, res: PageStep)
    requires
        (before.skipped as nat, before.taken as nat) == spec_state_after(k, skip),
        limit == 0 || k < skip + limit,
        before.taken < usize::MAX,
        // `after` and `res` are what `step` gives from `before`.
        before.skipped < skip ==> res == PageStep::Skip && after.skipped == before.skipped + 1
            && after.taken == before.taken,
        before.skipped >= skip ==> after.skipped == before.skipped && after.taken == before.taken
            + 1 && (res == if limit != 0 && after.taken >= limit {
            PageStep::TakeAndStop
        } else {
            PageStep::Take
        }),
    ensures
        (res != PageStep::Skip) <==> k >= skip,
        (res == PageStep::TakeAndStop) <==> (limit != 0 && k + 1 == skip + limit),
        (after.skipped as nat, after.taken as nat) == spec_state_after(k + 1, skip),
{
}

/// The items of one page of an in-memory list: `limit` items starting at
/// `limit * page` (saturating), or every item from there when `limit` is 0.
pub open spec fn spec_page_window(len: nat, limit: u64, page: u64) -> (int, int) {
    let skip_u64: u64 = if limit * page > u64::MAX { u64::MAX } else { (limit * page) as u64 };
    let skip: int = (skip_u64 as usize) as int;
    let start = if skip < len { skip } else { len as int };
    let end = if limit == 0 {
        len as int
    } else {
        let e = skip + (limit as usize) as int;
        if e < len { e } else { len as int }
    };
    (start, if end < start { start } else { end })
}

/// One page of an in-memory list.
pub fn paginate<T>(items: Vec<T>, limit: u64, page: u64) -> (res: Vec<T>)
    ensures
        res@ == items@.subrange(
            spec_page_window(items@.len(), limit, page).0,
            spec_page_window(items@.len(), limit, page).1,
        ),
{
    let skip_u64: u64 = match limit.checked_mul(page) {
        Some(v) => v,
        None => u64::MAX,
    };
    let skip: usize = #[verifier::truncate] (skip_u64 as usize);
    let take: usize = if limit == 0 {
        usize::MAX
    } else {
        #[verifier::truncate]
        (limit as usize)
    };
    let ghost window = spec_page_window(items@.len(), limit, page);
    let ghost orig = items@;
    let mut items = items;
    let len = items.len();
    if skip >= len {
        let res: Vec<T> = Vec::new();
        proof {
            assert(res@ =~= orig.subrange(window.0, window.1));
        }
        return res;
    }
    let end: usize = if take > len - skip { len } else { skip + take };
    let mut tail = items.split_off(skip);
    tail.truncate(end - skip);
    proof {
        assert(tail@ =~= orig.subrange(window.0, window.1));
    }
    tail
}

} // verus!
