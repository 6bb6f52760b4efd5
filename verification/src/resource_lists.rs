//! The in-memory orders of the action, procedure, resource sync and swarm
//! listings, and their state filter. A state is given by its position in
//! its enum's declaration order, which is the order states sort in.

use crate::containers::spec_num_order;
use crate::schedule::{lemma_text_order_facts, spec_text_order, text_order};
use crate::listing::spec_page_window;
use crate::sorting::{is_total_preorder, law_sorted_page_in_order, spec_stable_sort, ListingOrder};
use vstd::prelude::*;

verus! {

/// What the action and procedure listings sort by.
#[derive(Clone, Debug)]
pub struct RunListItem {
    pub name: String,
    pub state_rank: u8,
    /// When it runs next, in milliseconds since the epoch.
    pub next_scheduled_run: Option<i64>,
}

/// The columns actions and procedures can be sorted by in memory.
#[derive(Clone, Copy, Debug, PartialEq, Eq, Structural)]
pub enum RunSortBy {
    State,
    NextRun,
}

/// How two optional next runs order: none first, then by time.
pub open spec fn spec_opt_time_order(a: Option<i64>, b: Option<i64>) -> int {
    match (a, b) {
        (Some(x), Some(y)) => spec_num_order(x as int, y as int),
        (Some(_), None) => 1,
        (None, Some(_)) => -1,
        (None, None) => 0,
    }
}

/// How two actions or procedures order by a column, then by name.
pub open spec fn spec_run_order(sort_by: RunSortBy, a: RunListItem, b: RunListItem) -> int {
    let key = match sort_by {
        RunSortBy::State => spec_num_order(a.state_rank as int, b.state_rank as int),
        RunSortBy::NextRun => spec_opt_time_order(a.next_scheduled_run, b.next_scheduled_run),
    };
    if key != 0 {
        key
    } else {
        spec_text_order(a.name@, b.name@)
    }
}

/// How two numbers order: -1, 0 or 1.
fn num_order(a: i64, b: i64) -> (res: i8)
    ensures
        res == spec_num_order(a as int, b as int),
{
    if a < b {
        -1
    } else if a > b {
        1
    } else {
        0
    }
}

/// How two actions or procedures order by a column, then by name.
pub fn run_order(sort_by: RunSortBy, a: &RunListItem, b: &RunListItem) -> (res: i8)
    ensures
        res == spec_run_order(sort_by, *a, *b),
{
    let key = match sort_by {
        RunSortBy::State => num_order(a.state_rank as i64, b.state_rank as i64),
        RunSortBy::NextRun => match (a.next_scheduled_run, b.next_scheduled_run) {
            (Some(x), Some(y)) => num_order(x, y),
            (Some(_), None) => 1,
            (None, Some(_)) => -1,
            (None, None) => 0,
        },
    };
    if key != 0 {
        key
    } else {
        text_order(a.name.as_str(), b.name.as_str())
    }
}

/// The listing order of actions and procedures for a column and direction.
#[derive(Clone, Copy, Debug)]
pub struct RunListOrder {
    pub sort_by: RunSortBy,
    pub desc: bool,
}

impl ListingOrder<RunListItem> for RunListOrder {
    open spec fn spec_after(&self, a: RunListItem, b: RunListItem) -> bool {
        if self.desc {
            spec_run_order(self.sort_by, b, a) > 0
        } else {
            spec_run_order(self.sort_by, a, b) > 0
        }
    }

    fn after(&self, a: &RunListItem, b: &RunListItem) -> (res: bool) {
        if self.desc {
            run_order(self.sort_by, b, a) > 0
        } else {
            run_order(self.sort_by, a, b) > 0
        }
    }
}

/// Action and procedure order flips with its arguments, and chains.
proof fn lemma_run_order_facts(sort_by: RunSortBy, a: RunListItem, b: RunListItem, c: RunListItem)
    ensures
        spec_run_order(sort_by, a, b) == -spec_run_order(sort_by, b, a),
        spec_run_order(sort_by, a, b) <= 0 && spec_run_order(sort_by, b, c) <= 0 ==> spec_run_order(
            sort_by,
            a,
            c,
        ) <= 0,
{
    lemma_text_order_facts(a.name@, b.name@, c.name@);
}

/// The listing order of actions and procedures orders like a sort key.
pub proof fn lemma_run_order_is_preorder(sort_by: RunSortBy, desc: bool)
    ensures
        is_total_preorder(RunListOrder { sort_by, desc }),
{
    let o = RunListOrder { sort_by, desc };
    assert forall|a: RunListItem, b: RunListItem| #[trigger] o.spec_after(a, b) implies !o.spec_after(b, a) by {
        lemma_run_order_facts(sort_by, a, b, b);
    }
    assert forall|a: RunListItem, b: RunListItem, c: RunListItem|
        !o.spec_after(a, b) && !o.spec_after(b, c) implies !o.spec_after(a, c) by {
        lemma_run_order_facts(sort_by, a, b, c);
        lemma_run_order_facts(sort_by, c, b, a);
    }
}

/// What the resource sync listing sorts by.
#[derive(Clone, Debug)]
pub struct SyncListItem {
    pub name: String,
    pub files_on_host: bool,
    pub linked_repo_name: String,
    pub repo: String,
    pub branch: String,
    pub state_rank: u8,
}

/// The columns resource syncs can be sorted by in memory.
#[derive(Clone, Copy, Debug, PartialEq, Eq, Structural)]
pub enum SyncSortBy {
    Source,
    Branch,
    State,
}

/// How two flags order: off before on.
pub open spec fn spec_flag_order(a: bool, b: bool) -> int {
    if a == b {
        0
    } else if !a {
        -1
    } else {
        1
    }
}

/// `first`, or where it ties, `then`.
pub open spec fn then_order(first: int, then: int) -> int {
    if first != 0 {
        first
    } else {
        then
    }
}

/// How two resource syncs order by a column, then by name. The source is
/// whether the files are on the host, then the linked repo, then the repo.
pub open spec fn spec_sync_order(sort_by: SyncSortBy, a: SyncListItem, b: SyncListItem) -> int {
    let key = match sort_by {
        SyncSortBy::Source => then_order(
            spec_flag_order(a.files_on_host, b.files_on_host),
            then_order(
                spec_text_order(a.linked_repo_name@, b.linked_repo_name@),
                spec_text_order(a.repo@, b.repo@),
            ),
        ),
        SyncSortBy::Branch => spec_text_order(a.branch@, b.branch@),
        SyncSortBy::State => spec_num_order(a.state_rank as int, b.state_rank as int),
    };
    then_order(key, spec_text_order(a.name@, b.name@))
}

/// How two resource syncs order by a column, then by name.
pub fn sync_order(sort_by: SyncSortBy, a: &SyncListItem, b: &SyncListItem) -> (res: i8)
    ensures
        res == spec_sync_order(sort_by, *a, *b),
{
    let key: i8 = match sort_by {
        SyncSortBy::Source => {
            let f: i8 = if a.files_on_host == b.files_on_host {
                0
            } else if !a.files_on_host {
                -1
            } else {
                1
            };
            if f != 0 {
                f
            } else {
                let l = text_order(a.linked_repo_name.as_str(), b.linked_repo_name.as_str());
                if l != 0 {
                    l
                } else {
                    text_order(a.repo.as_str(), b.repo.as_str())
                }
            }
        },
        SyncSortBy::Branch => text_order(a.branch.as_str(), b.branch.as_str()),
        SyncSortBy::State => num_order(a.state_rank as i64, b.state_rank as i64),
    };
    if key != 0 {
        key
    } else {
        text_order(a.name.as_str(), b.name.as_str())
    }
}

/// The listing order of resource syncs for a column and direction.
#[derive(Clone, Copy, Debug)]
pub struct SyncListOrder {
    pub sort_by: SyncSortBy,
    pub desc: bool,
}

impl ListingOrder<SyncListItem> for SyncListOrder {
    open spec fn spec_after(&self, a: SyncListItem, b: SyncListItem) -> bool {
        if self.desc {
            spec_sync_order(self.sort_by, b, a) > 0
        } else {
            spec_sync_order(self.sort_by, a, b) > 0
        }
    }

    fn after(&self, a: &SyncListItem, b: &SyncListItem) -> (res: bool) {
        if self.desc {
            sync_order(self.sort_by, b, a) > 0
        } else {
            sync_order(self.sort_by, a, b) > 0
        }
    }
}

/// Resource sync order flips with its arguments, and chains.
proof fn lemma_sync_order_facts(sort_by: SyncSortBy, a: SyncListItem, b: SyncListItem, c: SyncListItem)
    ensures
        spec_sync_order(sort_by, a, b) == -spec_sync_order(sort_by, b, a),
        spec_sync_order(sort_by, a, b) <= 0 && spec_sync_order(sort_by, b, c) <= 0 ==> spec_sync_order(
            sort_by,
            a,
            c,
        ) <= 0,
{
    lemma_text_order_facts(a.name@, b.name@, c.name@);
    lemma_text_order_facts(a.linked_repo_name@, b.linked_repo_name@, c.linked_repo_name@);
    lemma_text_order_facts(a.repo@, b.repo@, c.repo@);
    lemma_text_order_facts(a.branch@, b.branch@, c.branch@);
}

/// The listing order of resource syncs orders like a sort key.
pub proof fn lemma_sync_order_is_preorder(sort_by: SyncSortBy, desc: bool)
    ensures
        is_total_preorder(SyncListOrder { sort_by, desc }),
{
    let o = SyncListOrder { sort_by, desc };
    assert forall|a: SyncListItem, b: SyncListItem| #[trigger] o.spec_after(a, b) implies !o.spec_after(b, a) by {
        lemma_sync_order_facts(sort_by, a, b, b);
    }
    assert forall|a: SyncListItem, b: SyncListItem, c: SyncListItem|
        !o.spec_after(a, b) && !o.spec_after(b, c) implies !o.spec_after(a, c) by {
        lemma_sync_order_facts(sort_by, a, b, c);
        lemma_sync_order_facts(sort_by, c, b, a);
    }
}

/// Sorting by branch orders two syncs on different branches by their
/// branches' text order.
pub proof fn law_sync_branch_column_follows_branch(a: SyncListItem, b: SyncListItem)
    ensures
        spec_text_order(a.branch@, b.branch@) != 0 ==> spec_sync_order(SyncSortBy::Branch, a, b) == spec_text_order(
            a.branch@,
            b.branch@,
        ),
{
}

/// A page of resource syncs sorted by branch lists their branches in text
/// order: ascending, or descending when asked.
pub proof fn law_syncs_by_branch_in_text_order(items: Seq<SyncListItem>, desc: bool, limit: u64, page: u64)
    ensures
        ({
            let o = SyncListOrder { sort_by: SyncSortBy::Branch, desc };
            let w = spec_page_window(items.len(), limit, page);
            let listed = spec_stable_sort(o, items).subrange(w.0, w.1);
            forall|i: int, j: int|
                0 <= i < j < listed.len() ==> if desc {
                    spec_text_order((#[trigger] listed[j]).branch@, (#[trigger] listed[i]).branch@) <= 0
                } else {
                    spec_text_order(listed[i].branch@, listed[j].branch@) <= 0
                }
        }),
{
    let o = SyncListOrder { sort_by: SyncSortBy::Branch, desc };
    lemma_sync_order_is_preorder(SyncSortBy::Branch, desc);
    law_sorted_page_in_order(o, items, limit, page);
    let w = spec_page_window(items.len(), limit, page);
    let listed = spec_stable_sort(o, items).subrange(w.0, w.1);
    assert forall|i: int, j: int| 0 <= i < j < listed.len() implies if desc {
        spec_text_order((#[trigger] listed[j]).branch@, (#[trigger] listed[i]).branch@) <= 0
    } else {
        spec_text_order(listed[i].branch@, listed[j].branch@) <= 0
    } by {
        assert(!o.spec_after(listed[i], listed[j]));
    }
}

/// The other columns of the resource sync listing: by source, syncs with
/// files in the repo come before syncs with files on the host, then by
/// linked repo, then by repo; by state, in the order of the state ranks; and
/// by name where the values are equal.
pub proof fn law_sync_columns(a: SyncListItem, b: SyncListItem)
    ensures
        !a.files_on_host && b.files_on_host ==> spec_sync_order(SyncSortBy::Source, a, b) < 0,
        a.files_on_host && !b.files_on_host ==> spec_sync_order(SyncSortBy::Source, a, b) > 0,
        a.files_on_host == b.files_on_host && spec_text_order(a.linked_repo_name@, b.linked_repo_name@) != 0
            ==> spec_sync_order(SyncSortBy::Source, a, b) == spec_text_order(
            a.linked_repo_name@,
            b.linked_repo_name@,
        ),
        a.files_on_host == b.files_on_host && a.linked_repo_name@ == b.linked_repo_name@ && spec_text_order(
            a.repo@,
            b.repo@,
        ) != 0 ==> spec_sync_order(SyncSortBy::Source, a, b) == spec_text_order(a.repo@, b.repo@),
        a.files_on_host == b.files_on_host && a.linked_repo_name@ == b.linked_repo_name@ && a.repo@ == b.repo@
            ==> spec_sync_order(SyncSortBy::Source, a, b) == spec_text_order(a.name@, b.name@),
        a.state_rank < b.state_rank ==> spec_sync_order(SyncSortBy::State, a, b) < 0,
        a.state_rank > b.state_rank ==> spec_sync_order(SyncSortBy::State, a, b) > 0,
        a.state_rank == b.state_rank ==> spec_sync_order(SyncSortBy::State, a, b) == spec_text_order(
            a.name@,
            b.name@,
        ),
        a.branch@ == b.branch@ ==> spec_sync_order(SyncSortBy::Branch, a, b) == spec_text_order(a.name@, b.name@),
{
    lemma_text_order_facts(a.linked_repo_name@, b.linked_repo_name@, b.linked_repo_name@);
    lemma_text_order_facts(a.repo@, b.repo@, b.repo@);
    lemma_text_order_facts(a.branch@, b.branch@, b.branch@);
}

/// The action and procedure listing: by state in the order of the state
/// ranks, by next run with unscheduled ones first and then by time, and by
/// name where the values are equal.
pub proof fn law_run_columns(a: RunListItem, b: RunListItem)
    ensures
        a.state_rank < b.state_rank ==> spec_run_order(RunSortBy::State, a, b) < 0,
        a.state_rank > b.state_rank ==> spec_run_order(RunSortBy::State, a, b) > 0,
        a.state_rank == b.state_rank ==> spec_run_order(RunSortBy::State, a, b) == spec_text_order(a.name@, b.name@),
        a.next_scheduled_run is None && b.next_scheduled_run is Some ==> spec_run_order(RunSortBy::NextRun, a, b) < 0,
        a.next_scheduled_run is Some && b.next_scheduled_run is None ==> spec_run_order(RunSortBy::NextRun, a, b) > 0,
        a.next_scheduled_run matches Some(x) ==> (b.next_scheduled_run matches Some(y) ==> (x < y
            ==> spec_run_order(RunSortBy::NextRun, a, b) < 0)),
        a.next_scheduled_run matches Some(x) ==> (b.next_scheduled_run matches Some(y) ==> (x > y
            ==> spec_run_order(RunSortBy::NextRun, a, b) > 0)),
        a.next_scheduled_run == b.next_scheduled_run ==> spec_run_order(RunSortBy::NextRun, a, b)
            == spec_text_order(a.name@, b.name@),
{
}

/// Swarms order by state rank, and by name where the ranks are equal.
pub proof fn law_swarm_columns(a: SwarmListItem, b: SwarmListItem)
    ensures
        a.state_rank < b.state_rank ==> spec_swarm_order(a, b) < 0,
        a.state_rank > b.state_rank ==> spec_swarm_order(a, b) > 0,
        a.state_rank == b.state_rank ==> spec_swarm_order(a, b) == spec_text_order(a.name@, b.name@),
{
}

/// Ascending listings put an item after another exactly when its column
/// orders it later; descending ones exactly when its column orders it
/// earlier.
pub proof fn law_run_and_sync_directions(
    run_sort: RunSortBy,
    ra: RunListItem,
    rb: RunListItem,
    sync_sort: SyncSortBy,
    sa: SyncListItem,
    sb: SyncListItem,
)
    ensures
        (RunListOrder { sort_by: run_sort, desc: false }).spec_after(ra, rb) <==> spec_run_order(run_sort, ra, rb) > 0,
        (RunListOrder { sort_by: run_sort, desc: true }).spec_after(ra, rb) <==> spec_run_order(run_sort, ra, rb) < 0,
        (SyncListOrder { sort_by: sync_sort, desc: false }).spec_after(sa, sb) <==> spec_sync_order(sync_sort, sa, sb) > 0,
        (SyncListOrder { sort_by: sync_sort, desc: true }).spec_after(sa, sb) <==> spec_sync_order(sync_sort, sa, sb) < 0,
{
    lemma_run_order_facts(run_sort, ra, rb, rb);
    lemma_sync_order_facts(sync_sort, sa, sb, sb);
}

/// Swarms listed ascending put a swarm after another exactly when it orders
/// later; descending, exactly when it orders earlier.
pub proof fn law_swarm_directions(a: SwarmListItem, b: SwarmListItem)
    ensures
        (SwarmListOrder { desc: false }).spec_after(a, b) <==> spec_swarm_order(a, b) > 0,
        (SwarmListOrder { desc: true }).spec_after(a, b) <==> spec_swarm_order(a, b) < 0,
{
    lemma_text_order_facts(a.name@, b.name@, b.name@);
}

/// What the swarm listing sorts by.
#[derive(Clone, Debug)]
pub struct SwarmListItem {
    pub name: String,
    pub state_rank: u8,
}

/// How two swarms order by state, then by name.
pub open spec fn spec_swarm_order(a: SwarmListItem, b: SwarmListItem) -> int {
    then_order(spec_num_order(a.state_rank as int, b.state_rank as int), spec_text_order(a.name@, b.name@))
}

/// The listing order of swarms by state in a direction.
#[derive(Clone, Copy, Debug)]
pub struct SwarmListOrder {
    pub desc: bool,
}

impl ListingOrder<SwarmListItem> for SwarmListOrder {
    open spec fn spec_after(&self, a: SwarmListItem, b: SwarmListItem) -> bool {
        if self.desc {
            spec_swarm_order(b, a) > 0
        } else {
            spec_swarm_order(a, b) > 0
        }
    }

    fn after(&self, a: &SwarmListItem, b: &SwarmListItem) -> (res: bool) {
        let (x, y) = if self.desc {
            (b, a)
        } else {
            (a, b)
        };
        let key = num_order(x.state_rank as i64, y.state_rank as i64);
        if key != 0 {
            key > 0
        } else {
            text_order(x.name.as_str(), y.name.as_str()) > 0
        }
    }
}

/// The listing order of swarms orders like a sort key.
pub proof fn lemma_swarm_order_is_preorder(desc: bool)
    ensures
        is_total_preorder(SwarmListOrder { desc }),
{
    let o = SwarmListOrder { desc };
    assert forall|a: SwarmListItem, b: SwarmListItem| #[trigger] o.spec_after(a, b) implies !o.spec_after(b, a) by {
        lemma_text_order_facts(a.name@, b.name@, b.name@);
    }
    assert forall|a: SwarmListItem, b: SwarmListItem, c: SwarmListItem|
        !o.spec_after(a, b) && !o.spec_after(b, c) implies !o.spec_after(a, c) by {
        lemma_text_order_facts(a.name@, b.name@, c.name@);
    }
}

/// Whether an item in state `state_rank` passes a state filter: any state
/// when none is given, else one of them.
pub fn state_passes(states: &[u8], state_rank: u8) -> (res: bool)
    ensures
        res == (states@.len() == 0 || states@.contains(state_rank)),
{
    if states.len() == 0 {
        return true;
    }
    let mut i: usize = 0;
    while i < states.len()
        invariant
            i <= states@.len(),
            forall|j: int| 0 <= j < i ==> states@[j] != state_rank,
        decreases states@.len() - i,
    {
        if states[i] == state_rank {
            return true;
        }
        i = i + 1;
    }
    false
}

} // verus!
