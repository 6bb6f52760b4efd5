//! Listing the schedules of actions and procedures: their order for each
//! sort key, a stable sort by it, and the page asked for.

use crate::listing::{paginate, spec_page_window};
use crate::permission::target::ResourceTarget;
use crate::sorting::{
    is_listed_in_order, is_total_preorder, law_stable_sort_ordered, lemma_stable_sort_len, spec_stable_sort,
    stable_sort, ListingOrder,
};
use vstd::prelude::*;

verus! {

/// One scheduled action or procedure.
#[derive(Debug)]
pub struct Schedule {
    pub target: ResourceTarget,
    pub name: String,
    pub enabled: bool,
    pub schedule: String,
    pub schedule_timezone: String,
    pub tags: Vec<String>,
    /// When it last ran, in milliseconds since the epoch.
    pub last_run_at: Option<i64>,
    /// When it runs next, in milliseconds since the epoch.
    pub next_scheduled_run: Option<i64>,
    pub schedule_error: Option<String>,
}

/// What schedules can be listed by.
#[derive(Clone, Copy, Debug, PartialEq, Eq, Structural)]
pub enum ScheduleSortBy {
    Name,
    Schedule,
    NextRun,
    Enabled,
}

/// How two texts order, character by character (as comparing `str`s orders
/// their UTF-8 bytes): -1, 0 or 1.
pub open spec fn spec_text_order(a: Seq<char>, b: Seq<char>) -> int
    decreases a.len(),
{
    if a.len() == 0 {
        if b.len() == 0 {
            0
        } else {
            -1
        }
    } else if b.len() == 0 {
        1
    } else if a[0] < b[0] {
        -1
    } else if a[0] > b[0] {
        1
    } else {
        spec_text_order(a.drop_first(), b.drop_first())
    }
}

/// How two texts order: -1, 0 or 1.
pub fn text_order(a: &str, b: &str) -> (res: i8)
    ensures
        res == spec_text_order(a@, b@),
{
    let x = crate::text::str_chars(a);
    let y = crate::text::str_chars(b);
    let mut i: usize = 0;
    proof {
        assert(a@.skip(0) =~= a@);
        assert(b@.skip(0) =~= b@);
    }
    while i < x.len() && i < y.len() && x[i] == y[i]
        invariant
            i <= x@.len(),
            i <= y@.len(),
            x@ == a@,
            y@ == b@,
            spec_text_order(a@, b@) == spec_text_order(a@.skip(i as int), b@.skip(i as int)),
        decreases x@.len() - i,
    {
        proof {
            assert(a@.skip(i as int).drop_first() =~= a@.skip(i + 1));
            assert(b@.skip(i as int).drop_first() =~= b@.skip(i + 1));
        }
        i = i + 1;
    }
    let ghost sa = a@.skip(i as int);
    let ghost sb = b@.skip(i as int);
    if i == x.len() {
        proof {
            assert(sa.len() == 0);
        }
        if i == y.len() {
            0
        } else {
            -1
        }
    } else if i == y.len() {
        1
    } else {
        assert(sa[0] == x@[i as int] && sb[0] == y@[i as int]);
        if x[i] < y[i] {
            -1
        } else {
            1
        }
    }
}

/// How two optional next runs order: any run before none, runs by time.
pub open spec fn spec_next_run_order(a: Option<i64>, b: Option<i64>) -> int {
    match (a, b) {
        (Some(x), Some(y)) => if x < y {
            -1
        } else if x > y {
            1
        } else {
            0
        },
        (Some(_), None) => -1,
        (None, Some(_)) => 1,
        (None, None) => 0,
    }
}

/// How two flags order: off before on.
pub open spec fn spec_flag_order(a: bool, b: bool) -> int {
    if a == b {
        0
    } else if !a {
        -1
    } else {
        1
    }
}

/// How two schedules order by a sort key: by the key, then by name (by name
/// alone for the name key). Unscheduled ones come after scheduled ones.
pub open spec fn spec_schedule_order(sort_by: ScheduleSortBy, a: Schedule, b: Schedule) -> int {
    let by_name = spec_text_order(a.name@, b.name@);
    let key = match sort_by {
        ScheduleSortBy::Name => 0,
        ScheduleSortBy::Schedule => spec_text_order(a.schedule@, b.schedule@),
        ScheduleSortBy::NextRun => spec_next_run_order(a.next_scheduled_run, b.next_scheduled_run),
        ScheduleSortBy::Enabled => spec_flag_order(a.enabled, b.enabled),
    };
    if key != 0 {
        key
    } else {
        by_name
    }
}

/// The order a listing uses: the key's order, or its reverse when
/// descending.
pub open spec fn spec_listing_order(sort_by: ScheduleSortBy, desc: bool, a: Schedule, b: Schedule) -> int {
    if desc {
        spec_schedule_order(sort_by, b, a)
    } else {
        spec_schedule_order(sort_by, a, b)
    }
}

/// How two schedules order by a sort key.
pub fn schedule_order(sort_by: ScheduleSortBy, a: &Schedule, b: &Schedule) -> (res: i8)
    ensures
        res == spec_schedule_order(sort_by, *a, *b),
{
    let key: i8 = match sort_by {
        ScheduleSortBy::Name => 0,
        ScheduleSortBy::Schedule => text_order(a.schedule.as_str(), b.schedule.as_str()),
        ScheduleSortBy::NextRun => match (a.next_scheduled_run, b.next_scheduled_run) {
            (Some(x), Some(y)) => if x < y {
                -1
            } else if x > y {
                1
            } else {
                0
            },
            (Some(_), None) => -1,
            (None, Some(_)) => 1,
            (None, None) => 0,
        },
        ScheduleSortBy::Enabled => if a.enabled == b.enabled {
            0
        } else if !a.enabled {
            -1
        } else {
            1
        },
    };
    if key != 0 {
        key
    } else {
        text_order(a.name.as_str(), b.name.as_str())
    }
}

/// The listing order of schedules for a sort key and direction.
#[derive(Clone, Copy, Debug)]
pub struct ScheduleOrder {
    pub sort_by: ScheduleSortBy,
    pub desc: bool,
}

impl ListingOrder<Schedule> for ScheduleOrder {
    open spec fn spec_after(&self, a: Schedule, b: Schedule) -> bool {
        spec_listing_order(self.sort_by, self.desc, a, b) > 0
    }

    fn after(&self, a: &Schedule, b: &Schedule) -> (res: bool) {
        if self.desc {
            schedule_order(self.sort_by, b, a) > 0
        } else {
            schedule_order(self.sort_by, a, b) > 0
        }
    }
}

/// Schedules sorted stably in the listing order.
pub open spec fn spec_sort_schedules(sort_by: ScheduleSortBy, desc: bool, s: Seq<Schedule>) -> Seq<
    Schedule,
> {
    spec_stable_sort(ScheduleOrder { sort_by, desc }, s)
}

/// One page of schedules sorted in the listing order: `limit` of them (all
/// when 0) after skipping `limit * page`.
pub fn list_schedules(
    items: Vec<Schedule>,
    sort_by: ScheduleSortBy,
    sort_desc: bool,
    limit: u64,
    page: u64,
) -> (res: Vec<Schedule>)
    ensures
        res@ == spec_sort_schedules(sort_by, sort_desc, items@).subrange(
            spec_page_window(items@.len(), limit, page).0,
            spec_page_window(items@.len(), limit, page).1,
        ),
{
    let order = ScheduleOrder { sort_by, desc: sort_desc };
    let sorted = stable_sort(&order, items);
    proof {
        lemma_stable_sort_len(order, items@);
    }
    paginate(sorted, limit, page)
}

/// Swapping two texts flips their order.
pub proof fn lemma_text_order_antisymmetric(a: Seq<char>, b: Seq<char>)
    ensures
        spec_text_order(a, b) == -spec_text_order(b, a),
        -1 <= spec_text_order(a, b) <= 1,
    decreases a.len(),
{
    if a.len() > 0 && b.len() > 0 && a[0] == b[0] {
        lemma_text_order_antisymmetric(a.drop_first(), b.drop_first());
    }
}

/// Text order chains: `a` not after `b` and `b` not after `c` puts `a` not
/// after `c`.
pub proof fn lemma_text_order_transitive(a: Seq<char>, b: Seq<char>, c: Seq<char>)
    requires
        spec_text_order(a, b) <= 0,
        spec_text_order(b, c) <= 0,
    ensures
        spec_text_order(a, c) <= 0,
    decreases a.len(),
{
    if a.len() > 0 && b.len() > 0 && c.len() > 0 && a[0] == b[0] && b[0] == c[0] {
        lemma_text_order_transitive(a.drop_first(), b.drop_first(), c.drop_first());
    }
}

/// Text order chains through any middle text.
proof fn lemma_text_order_chain(a: Seq<char>, b: Seq<char>, c: Seq<char>)
    ensures
        spec_text_order(a, b) <= 0 && spec_text_order(b, c) <= 0 ==> spec_text_order(a, c) <= 0,
{
    if spec_text_order(a, b) <= 0 && spec_text_order(b, c) <= 0 {
        lemma_text_order_transitive(a, b, c);
    }
}

/// The order facts of three texts that the listing orders build on: each
/// pair flips, and every chain through the third holds.
pub proof fn lemma_text_order_facts(a: Seq<char>, b: Seq<char>, c: Seq<char>)
    ensures
        spec_text_order(a, b) == -spec_text_order(b, a),
        spec_text_order(b, c) == -spec_text_order(c, b),
        spec_text_order(a, c) == -spec_text_order(c, a),
        spec_text_order(a, b) <= 0 && spec_text_order(b, c) <= 0 ==> spec_text_order(a, c) <= 0,
        spec_text_order(a, c) <= 0 && spec_text_order(c, b) <= 0 ==> spec_text_order(a, b) <= 0,
        spec_text_order(b, a) <= 0 && spec_text_order(a, c) <= 0 ==> spec_text_order(b, c) <= 0,
        spec_text_order(b, c) <= 0 && spec_text_order(c, a) <= 0 ==> spec_text_order(b, a) <= 0,
        spec_text_order(c, a) <= 0 && spec_text_order(a, b) <= 0 ==> spec_text_order(c, b) <= 0,
        spec_text_order(c, b) <= 0 && spec_text_order(b, a) <= 0 ==> spec_text_order(c, a) <= 0,
{
    lemma_text_order_antisymmetric(a, b);
    lemma_text_order_antisymmetric(b, c);
    lemma_text_order_antisymmetric(a, c);
    lemma_text_order_chain(a, b, c);
    lemma_text_order_chain(a, c, b);
    lemma_text_order_chain(b, a, c);
    lemma_text_order_chain(b, c, a);
    lemma_text_order_chain(c, a, b);
    lemma_text_order_chain(c, b, a);
}

/// Schedule order flips with its arguments, and chains.
proof fn lemma_schedule_order_facts(sort_by: ScheduleSortBy, a: Schedule, b: Schedule, c: Schedule)
    ensures
        spec_schedule_order(sort_by, a, b) == -spec_schedule_order(sort_by, b, a),
        spec_schedule_order(sort_by, a, b) <= 0 && spec_schedule_order(sort_by, b, c) <= 0
            ==> spec_schedule_order(sort_by, a, c) <= 0,
{
    lemma_text_order_facts(a.name@, b.name@, c.name@);
    lemma_text_order_facts(a.schedule@, b.schedule@, c.schedule@);
}

/// The listing order of schedules orders like a sort key, in either
/// direction.
pub proof fn lemma_schedule_order_is_preorder(sort_by: ScheduleSortBy, desc: bool)
    ensures
        is_total_preorder(ScheduleOrder { sort_by, desc }),
{
    let o = ScheduleOrder { sort_by, desc };
    assert forall|a: Schedule, b: Schedule| #[trigger] o.spec_after(a, b) implies !o.spec_after(b, a) by {
        lemma_schedule_order_facts(sort_by, a, b, b);
    }
    assert forall|a: Schedule, b: Schedule, c: Schedule|
        !o.spec_after(a, b) && !o.spec_after(b, c) implies !o.spec_after(a, c) by {
        lemma_schedule_order_facts(sort_by, a, b, c);
        lemma_schedule_order_facts(sort_by, c, b, a);
    }
}

/// A listed page of schedules is in the requested order.
pub proof fn law_schedules_listed_in_order(sort_by: ScheduleSortBy, desc: bool, s: Seq<Schedule>)
    ensures
        is_listed_in_order(ScheduleOrder { sort_by, desc }, spec_sort_schedules(sort_by, desc, s)),
{
    lemma_schedule_order_is_preorder(sort_by, desc);
    law_stable_sort_ordered(ScheduleOrder { sort_by, desc }, s);
}

/// Each key orders schedules by its own value, and by name where the values
/// are equal: the schedule text by text order, the next run by time with
/// unscheduled ones last, and disabled ones before enabled ones.
pub proof fn law_schedule_columns(a: Schedule, b: Schedule)
    ensures
        spec_schedule_order(ScheduleSortBy::Name, a, b) == spec_text_order(a.name@, b.name@),
        spec_text_order(a.schedule@, b.schedule@) != 0 ==> spec_schedule_order(ScheduleSortBy::Schedule, a, b)
            == spec_text_order(a.schedule@, b.schedule@),
        a.schedule@ == b.schedule@ ==> spec_schedule_order(ScheduleSortBy::Schedule, a, b) == spec_text_order(
            a.name@,
            b.name@,
        ),
        a.next_scheduled_run is Some && b.next_scheduled_run is None ==> spec_schedule_order(
            ScheduleSortBy::NextRun,
            a,
            b,
        ) < 0,
        a.next_scheduled_run is None && b.next_scheduled_run is Some ==> spec_schedule_order(
            ScheduleSortBy::NextRun,
            a,
            b,
        ) > 0,
        a.next_scheduled_run matches Some(x) ==> (b.next_scheduled_run matches Some(y) ==> (x < y
            ==> spec_schedule_order(ScheduleSortBy::NextRun, a, b) < 0)),
        a.next_scheduled_run matches Some(x) ==> (b.next_scheduled_run matches Some(y) ==> (x > y
            ==> spec_schedule_order(ScheduleSortBy::NextRun, a, b) > 0)),
        a.next_scheduled_run == b.next_scheduled_run ==> spec_schedule_order(ScheduleSortBy::NextRun, a, b)
            == spec_text_order(a.name@, b.name@),
        !a.enabled && b.enabled ==> spec_schedule_order(ScheduleSortBy::Enabled, a, b) < 0,
        a.enabled && !b.enabled ==> spec_schedule_order(ScheduleSortBy::Enabled, a, b) > 0,
        a.enabled == b.enabled ==> spec_schedule_order(ScheduleSortBy::Enabled, a, b) == spec_text_order(
            a.name@,
            b.name@,
        ),
{
    lemma_text_order_facts(a.schedule@, b.schedule@, b.schedule@);
}

/// Descending lists the reverse of ascending's order: a schedule comes
/// after another in one direction exactly when it comes before it in the
/// other.
pub proof fn law_schedule_descending_reverses(sort_by: ScheduleSortBy, a: Schedule, b: Schedule)
    ensures
        spec_listing_order(sort_by, true, a, b) == spec_listing_order(sort_by, false, b, a),
        spec_listing_order(sort_by, true, a, b) == -spec_listing_order(sort_by, false, a, b),
{
    lemma_text_order_facts(a.name@, b.name@, b.name@);
    lemma_text_order_facts(a.schedule@, b.schedule@, b.schedule@);
}

} // verus!
