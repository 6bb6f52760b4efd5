//! Builders: which server of a server builder takes a build, how the usage
//! of each server is counted, how a builder connection is polled, and what
//! is cleaned up after a build.

use crate::text::{format_i64, join_strings, spec_format_i64, spec_join, string_views};
use vstd::hash_map::StringHashMap;
use vstd::prelude::*;

verus! {

/// What to clean up once a build is done.
#[derive(Debug)]
pub enum BuildCleanupData {
    /// The id of the builder the server's use was counted under, if it
    /// was counted, so that it can be released there.
    Server(Option<String>),
    /// Close the connection to the builder's Periphery.
    Url,
    /// Close the connection and terminate the AWS instance.
    Aws { instance_id: String, region: String },
}

/// How many builds each server of a server builder is taking.
pub struct BuilderUsage {
    counts: StringHashMap<usize>,
}

/// The number of builds counted for `key` (none counted: 0).
pub open spec fn spec_usage(m: Map<Seq<char>, usize>, key: Seq<char>) -> nat {
    if m.contains_key(key) {
        m[key] as nat
    } else {
        0
    }
}

/// Whether `i` is the first of `available` whose usage is least.
pub open spec fn spec_first_least_used(m: Map<Seq<char>, usize>, available: Seq<String>, i: int) -> bool {
    &&& 0 <= i < available.len()
    &&& forall|j: int| 0 <= j < i ==> spec_usage(m, available[i]@) < spec_usage(m, #[trigger] available[j]@)
    &&& forall|j: int|
        i < j < available.len() ==> spec_usage(m, available[i]@) <= spec_usage(m, #[trigger] available[j]@)
}

/// Some available server counts fewer than `usize::MAX` builds, so the
/// least used one can count one more (none available: nothing to count).
pub open spec fn spec_some_below_max(m: Map<Seq<char>, usize>, available: Seq<String>) -> bool {
    available.len() > 0 ==> exists|j: int|
        0 <= j < available.len() && spec_usage(m, (#[trigger] available[j])@) < usize::MAX
}

impl View for BuilderUsage {
    type V = Map<Seq<char>, usize>;

    closed spec fn view(&self) -> Map<Seq<char>, usize> {
        self.counts@
    }
}

impl BuilderUsage {
    /// No builds counted.
    pub fn new() -> (res: BuilderUsage)
        ensures
            res@ == Map::<Seq<char>, usize>::empty(),
    {
        BuilderUsage { counts: StringHashMap::new() }
    }

    /// The number of builds counted for `key`.
    pub fn usage(&self, key: &str) -> (res: usize)
        ensures
            res == spec_usage(self@, key@),
    {
        match self.counts.get(key) {
            Some(c) => *c,
            None => 0,
        }
    }

    /// Picks the first of the available servers that takes the fewest builds,
    /// and counts one more build for it. None are available: nothing is
    /// picked and nothing counted.
    pub fn select(&mut self, available: &[String]) -> (res: Option<usize>)
        requires
            spec_some_below_max(old(self)@, available@),
        ensures
            available@.len() == 0 <==> res is None,
            res is None ==> final(self)@ == old(self)@,
            res matches Some(i) ==> spec_first_least_used(old(self)@, available@, i as int)
                && final(self)@ == old(self)@.insert(
                available@[i as int]@,
                (spec_usage(old(self)@, available@[i as int]@) + 1) as usize,
            ),
    {
        if available.len() == 0 {
            return None;
        }
        let mut best: usize = 0;
        let mut best_count = self.usage(available[0].as_str());
        let mut j: usize = 1;
        while j < available.len()
            invariant
                1 <= j <= available@.len(),
                best < j,
                best_count == spec_usage(self@, available@[best as int]@),
                forall|k: int| 0 <= k < best ==> best_count < spec_usage(self@, (#[trigger] available@[k])@),
                forall|k: int| best < k < j ==> best_count <= spec_usage(self@, (#[trigger] available@[k])@),
            decreases available@.len() - j,
        {
            let c = self.usage(available[j].as_str());
            if c < best_count {
                best = j;
                best_count = c;
            }
            j = j + 1;
        }
        proof {
            let w = choose|w: int|
                0 <= w < available@.len() && spec_usage(self@, (#[trigger] available@[w])@) < usize::MAX;
            if w != best as int {
                assert(best_count <= spec_usage(self@, available@[w]@));
            }
        }
        self.counts.insert(available[best].clone(), best_count + 1);
        Some(best)
    }

    /// Counts one build fewer for `key`, where any is counted.
    pub fn release(&mut self, key: &str)
        ensures
            spec_usage(old(self)@, key@) > 0 ==> final(self)@ == old(self)@.insert(
                key@,
                (spec_usage(old(self)@, key@) - 1) as usize,
            ),
            spec_usage(old(self)@, key@) == 0 ==> final(self)@ == old(self)@,
    {
        let c = self.usage(key);
        if c > 0 {
            self.counts.insert(key.to_owned(), c - 1);
        }
    }
}

/// A builder's usage counts, kept under the builder's id.
pub struct BuilderUsageEntry {
    pub builder_id: String,
    pub usage: BuilderUsage,
}

/// The usage counts of every server builder, each kept under the builder's
/// id. A builder not seen yet counts no builds.
pub struct BuilderUsageCache {
    entries: Vec<BuilderUsageEntry>,
}

/// The counts kept for `builder` among `entries`: those of its last entry,
/// or none.
pub open spec fn spec_cache_usage(entries: Seq<BuilderUsageEntry>, builder: Seq<char>) -> Map<
    Seq<char>,
    usize,
>
    decreases entries.len(),
{
    if entries.len() == 0 {
        Map::empty()
    } else if entries.last().builder_id@ == builder {
        entries.last().usage@
    } else {
        spec_cache_usage(entries.drop_last(), builder)
    }
}

/// Replacing the last entry of a builder by one of the same builder changes
/// that builder's counts to the new entry's and no other builder's.
proof fn lemma_cache_usage_update(
    entries: Seq<BuilderUsageEntry>,
    i: int,
    e: BuilderUsageEntry,
    builder: Seq<char>,
)
    requires
        0 <= i < entries.len(),
        e.builder_id@ == entries[i].builder_id@,
        forall|j: int| i < j < entries.len() ==> (#[trigger] entries[j]).builder_id@ != entries[i].builder_id@,
    ensures
        spec_cache_usage(entries.update(i, e), builder) == if builder == e.builder_id@ {
            e.usage@
        } else {
            spec_cache_usage(entries, builder)
        },
    decreases entries.len(),
{
    let n = entries.len();
    if i == n - 1 {
        assert(entries.update(i, e).drop_last() =~= entries.drop_last());
    } else {
        assert(entries.update(i, e).drop_last() =~= entries.drop_last().update(i, e));
        assert(entries.update(i, e).last() == entries.last());
        lemma_cache_usage_update(entries.drop_last(), i, e, builder);
    }
}

impl BuilderUsageCache {
    /// The counts kept for `builder`.
    pub closed spec fn usage_of(&self, builder: Seq<char>) -> Map<Seq<char>, usize> {
        spec_cache_usage(self.entries@, builder)
    }

    /// No builder has counted any build.
    pub fn new() -> (res: BuilderUsageCache)
        ensures
            forall|b: Seq<char>| #[trigger] res.usage_of(b) == Map::<Seq<char>, usize>::empty(),
    {
        BuilderUsageCache { entries: Vec::new() }
    }

    /// The index of the last entry of `builder`, after adding an empty one
    /// where there is none; no builder's counts change.
    fn entry_index(&mut self, builder_id: &str) -> (i: usize)
        ensures
            i < final(self).entries@.len(),
            final(self).entries@[i as int].builder_id@ == builder_id@,
            forall|j: int|
                i < j < final(self).entries@.len() ==> (#[trigger] final(self).entries@[j]).builder_id@
                    != builder_id@,
            forall|b: Seq<char>| #[trigger] final(self).usage_of(b) == old(self).usage_of(b),
    {
        let n = self.entries.len();
        let wanted = builder_id.to_owned();
        let mut j: usize = n;
        proof {
            assert(self.entries@.take(n as int) =~= self.entries@);
        }
        while j > 0
            invariant
                n == self.entries@.len(),
                j <= n,
                wanted@ == builder_id@,
                forall|k: int| j <= k < n ==> (#[trigger] self.entries@[k]).builder_id@ != builder_id@,
                spec_cache_usage(self.entries@, builder_id@) == spec_cache_usage(
                    self.entries@.take(j as int),
                    builder_id@,
                ),
            decreases j,
        {
            if self.entries[j - 1].builder_id == wanted {
                return j - 1;
            }
            proof {
                assert(self.entries@.take(j as int).drop_last() =~= self.entries@.take(j - 1));
            }
            j = j - 1;
        }
        proof {
            assert(self.entries@.take(0) =~= Seq::<BuilderUsageEntry>::empty());
        }
        let ghost before = self.entries@;
        self.entries.push(BuilderUsageEntry { builder_id: builder_id.to_owned(), usage: BuilderUsage::new() });
        proof {
            assert(self.entries@.drop_last() =~= before);
            assert forall|b: Seq<char>| #[trigger] self.usage_of(b) == old(self).usage_of(b) by {
                if b == builder_id@ {
                    assert(self.usage_of(b) =~= Map::<Seq<char>, usize>::empty());
                }
            }
        }
        n
    }

    /// Picks, for the builder `builder_id`, the first of the available
    /// servers that takes the fewest of its builds, and counts one more build
    /// for it; other builders' counts are untouched.
    pub fn select(&mut self, builder_id: &str, available: &[String]) -> (res: Option<usize>)
        requires
            spec_some_below_max(old(self).usage_of(builder_id@), available@),
        ensures
            available@.len() == 0 <==> res is None,
            res is None ==> final(self).usage_of(builder_id@) == old(self).usage_of(builder_id@),
            res matches Some(i) ==> spec_first_least_used(old(self).usage_of(builder_id@), available@, i as int)
                && final(self).usage_of(builder_id@) == old(self).usage_of(builder_id@).insert(
                available@[i as int]@,
                (spec_usage(old(self).usage_of(builder_id@), available@[i as int]@) + 1) as usize,
            ),
            forall|b: Seq<char>| b != builder_id@ ==> #[trigger] final(self).usage_of(b) == old(self).usage_of(b),
    {
        let i = self.entry_index(builder_id);
        let ghost mid = self.entries@;
        proof {
            lemma_cache_usage_update(mid, i as int, mid[i as int], builder_id@);
            assert(mid.update(i as int, mid[i as int]) =~= mid);
            assert(self.usage_of(builder_id@) == old(self).usage_of(builder_id@));
            assert(mid[i as int].usage@ == old(self).usage_of(builder_id@));
            assert forall|b: Seq<char>| #[trigger] spec_cache_usage(mid, b) == old(self).usage_of(b) by {
                assert(self.usage_of(b) == old(self).usage_of(b));
            }
        }
        let res = self.entries[i].usage.select(available);
        proof {
            assert(self.entries@ == mid.update(i as int, self.entries@[i as int]));
            assert forall|b: Seq<char>| #[trigger] self.usage_of(b) == if b == builder_id@ {
                self.entries@[i as int].usage@
            } else {
                spec_cache_usage(mid, b)
            } by {
                lemma_cache_usage_update(mid, i as int, self.entries@[i as int], b);
            }
            assert(self.usage_of(builder_id@) == self.entries@[i as int].usage@);
            assert forall|b: Seq<char>| b != builder_id@ implies #[trigger] self.usage_of(b) == old(self).usage_of(b) by {
                assert(spec_cache_usage(mid, b) == old(self).usage_of(b));
                assert(self.usage_of(b) == spec_cache_usage(mid, b));
            }
        }
        res
    }

    /// Counts one build fewer for `key` under the builder `builder_id`, where
    /// any is counted; other builders' counts are untouched.
    pub fn release(&mut self, builder_id: &str, key: &str)
        ensures
            spec_usage(old(self).usage_of(builder_id@), key@) > 0 ==> final(self).usage_of(builder_id@)
                == old(self).usage_of(builder_id@).insert(
                key@,
                (spec_usage(old(self).usage_of(builder_id@), key@) - 1) as usize,
            ),
            spec_usage(old(self).usage_of(builder_id@), key@) == 0 ==> final(self).usage_of(builder_id@)
                == old(self).usage_of(builder_id@),
            forall|b: Seq<char>| b != builder_id@ ==> #[trigger] final(self).usage_of(b) == old(self).usage_of(b),
    {
        let i = self.entry_index(builder_id);
        let ghost mid = self.entries@;
        proof {
            lemma_cache_usage_update(mid, i as int, mid[i as int], builder_id@);
            assert(mid.update(i as int, mid[i as int]) =~= mid);
            assert(self.usage_of(builder_id@) == old(self).usage_of(builder_id@));
            assert(mid[i as int].usage@ == old(self).usage_of(builder_id@));
            assert forall|b: Seq<char>| #[trigger] spec_cache_usage(mid, b) == old(self).usage_of(b) by {
                assert(self.usage_of(b) == old(self).usage_of(b));
            }
        }
        self.entries[i].usage.release(key);
        proof {
            assert(self.entries@ == mid.update(i as int, self.entries@[i as int]));
            assert forall|b: Seq<char>| #[trigger] self.usage_of(b) == if b == builder_id@ {
                self.entries@[i as int].usage@
            } else {
                spec_cache_usage(mid, b)
            } by {
                lemma_cache_usage_update(mid, i as int, self.entries@[i as int], b);
            }
            assert(self.usage_of(builder_id@) == self.entries@[i as int].usage@);
            assert forall|b: Seq<char>| b != builder_id@ implies #[trigger] self.usage_of(b) == old(self).usage_of(b) by {
                assert(spec_cache_usage(mid, b) == old(self).usage_of(b));
                assert(self.usage_of(b) == spec_cache_usage(mid, b));
            }
        }
    }

    /// The number of builds counted for `key` under the builder `builder_id`.
    pub fn usage(&self, builder_id: &str, key: &str) -> (res: usize)
        ensures
            res == spec_usage(self.usage_of(builder_id@), key@),
    {
        let n = self.entries.len();
        let wanted = builder_id.to_owned();
        let mut j: usize = n;
        proof {
            assert(self.entries@.take(n as int) =~= self.entries@);
        }
        while j > 0
            invariant
                n == self.entries@.len(),
                j <= n,
                wanted@ == builder_id@,
                spec_cache_usage(self.entries@, builder_id@) == spec_cache_usage(
                    self.entries@.take(j as int),
                    builder_id@,
                ),
            decreases j,
        {
            proof {
                assert(self.entries@.take(j as int).drop_last() =~= self.entries@.take(j - 1));
            }
            if self.entries[j - 1].builder_id == wanted {
                return self.entries[j - 1].usage.usage(key);
            }
            j = j - 1;
        }
        0
    }
}

/// A build on a server builder that picked a server and then cleaned up
/// leaves every builder's usage counts as they were: the pick counts one
/// build for the server under the builder's id, and the cleanup releases
/// that server (the Periphery it connected to) under the same id.
pub proof fn law_pick_then_cleanup_restores_usage(
    before: BuilderUsageCache,
    after_pick: BuilderUsageCache,
    after_cleanup: BuilderUsageCache,
    builder_id: Seq<char>,
    picked: Seq<char>,
    other: Seq<char>,
    key: Seq<char>,
)
    requires
        spec_usage(before.usage_of(builder_id), picked) < usize::MAX,
        after_pick.usage_of(builder_id) == before.usage_of(builder_id).insert(
            picked,
            (spec_usage(before.usage_of(builder_id), picked) + 1) as usize,
        ),
        forall|b: Seq<char>| b != builder_id ==> #[trigger] after_pick.usage_of(b) == before.usage_of(b),
        spec_usage(after_pick.usage_of(builder_id), picked) > 0 ==> after_cleanup.usage_of(builder_id)
            == after_pick.usage_of(builder_id).insert(
            picked,
            (spec_usage(after_pick.usage_of(builder_id), picked) - 1) as usize,
        ),
        forall|b: Seq<char>| b != builder_id ==> #[trigger] after_cleanup.usage_of(b) == after_pick.usage_of(b),
    ensures
        spec_usage(after_cleanup.usage_of(other), key) == spec_usage(before.usage_of(other), key),
{
    if other != builder_id {
        assert(after_pick.usage_of(other) == before.usage_of(other));
        assert(after_cleanup.usage_of(other) == after_pick.usage_of(other));
    }
}

/// Picking a server and releasing it once its build is done leaves every
/// server's usage as it was.
pub proof fn law_select_then_release_restores_usage(
    before: Map<Seq<char>, usize>,
    picked: Seq<char>,
    after_select: Map<Seq<char>, usize>,
    after_release: Map<Seq<char>, usize>,
    key: Seq<char>,
)
    requires
        spec_usage(before, picked) < usize::MAX,
        after_select == before.insert(picked, (spec_usage(before, picked) + 1) as usize),
        spec_usage(after_select, picked) > 0 ==> after_release == after_select.insert(
            picked,
            (spec_usage(after_select, picked) - 1) as usize,
        ),
        spec_usage(after_select, picked) == 0 ==> after_release == after_select,
    ensures
        spec_usage(after_release, key) == spec_usage(before, key),
{
}

/// A server builder's pick: the server to build on, and what cleaning up
/// after the build needs.
#[derive(Debug)]
pub struct ServerBuilderChoice {
    pub server_id: String,
    pub cleanup: BuildCleanupData,
}

/// Picks the server of the server builder `builder_id`: the only one
/// configured (its use is not counted), or else the least used (first among
/// ties) of those whose status is OK, counting one more build for it under
/// the builder's id, which the cleanup data keeps. `available[i]` tells
/// whether `server_ids[i]` is up.
pub fn choose_server_builder(
    builder_id: &str,
    server_ids: &Vec<String>,
    available: &Vec<bool>,
    cache: &mut BuilderUsageCache,
) -> (res: Result<ServerBuilderChoice, String>)
    requires
        available@.len() == server_ids@.len(),
        server_ids@.len() > 1 ==> spec_some_below_max(
            old(cache).usage_of(builder_id@),
            spec_available_ids(server_ids@, available@),
        ),
    ensures
        server_ids@.len() == 0 ==> (res matches Err(m) && m@ == "Server Builder has no configured Servers"@),
        server_ids@.len() == 1 ==> (res matches Ok(c) && c.server_id@ == server_ids@[0]@
            && c.cleanup == BuildCleanupData::Server(None)),
        server_ids@.len() <= 1 ==> forall|b: Seq<char>| #[trigger] final(cache).usage_of(b) == old(cache).usage_of(b),
        server_ids@.len() > 1 ==> {
            let up = spec_available_ids(server_ids@, available@);
            let u = old(cache).usage_of(builder_id@);
            if up.len() == 0 {
                &&& res matches Err(m) && m@ == "Server builder has no available servers"@
                &&& final(cache).usage_of(builder_id@) == u
            } else {
                exists|i: int|
                    #![trigger up[i]]
                    spec_first_least_used(u, up, i) && (res matches Ok(c) && c.server_id@ == up[i]@
                        && (c.cleanup matches BuildCleanupData::Server(Some(b)) && b@ == builder_id@))
                        && final(cache).usage_of(builder_id@) == u.insert(
                        up[i]@,
                        (spec_usage(u, up[i]@) + 1) as usize,
                    )
            }
        },
        server_ids@.len() > 1 ==> forall|b: Seq<char>|
            b != builder_id@ ==> #[trigger] final(cache).usage_of(b) == old(cache).usage_of(b),
{
    if server_ids.len() == 0 {
        return Err("Server Builder has no configured Servers".to_owned());
    }
    if server_ids.len() == 1 {
        return Ok(ServerBuilderChoice { server_id: server_ids[0].clone(), cleanup: BuildCleanupData::Server(None) });
    }
    let ghost u = cache.usage_of(builder_id@);
    let mut up: Vec<String> = Vec::new();
    let mut k: usize = 0;
    while k < server_ids.len()
        invariant
            k <= server_ids@.len(),
            available@.len() == server_ids@.len(),
            up@ == spec_available_ids(server_ids@.take(k as int), available@.take(k as int)),
        decreases server_ids@.len() - k,
    {
        proof {
            assert(server_ids@.take(k + 1).drop_last() =~= server_ids@.take(k as int));
            assert(available@.take(k + 1).drop_last() =~= available@.take(k as int));
        }
        if available[k] {
            up.push(server_ids[k].clone());
        }
        k = k + 1;
    }
    proof {
        assert(server_ids@.take(k as int) =~= server_ids@);
        assert(available@.take(k as int) =~= available@);
    }
    match cache.select(builder_id, up.as_slice()) {
        Some(i) => Ok(
            ServerBuilderChoice {
                server_id: up[i].clone(),
                cleanup: BuildCleanupData::Server(Some(builder_id.to_owned())),
            },
        ),
        None => Err("Server builder has no available servers".to_owned()),
    }
}

/// Releases the usage a server builder's pick counted: for cleanup data
/// that keeps a builder's id, one build fewer for the Periphery (the server
/// it connected to) under that builder; for any other, nothing changes.
pub fn release_build_usage(cache: &mut BuilderUsageCache, data: &BuildCleanupData, periphery_id: &str)
    ensures
        match data {
            BuildCleanupData::Server(Some(builder_id)) => {
                let u = old(cache).usage_of(builder_id@);
                &&& spec_usage(u, periphery_id@) > 0 ==> final(cache).usage_of(builder_id@) == u.insert(
                    periphery_id@,
                    (spec_usage(u, periphery_id@) - 1) as usize,
                )
                &&& spec_usage(u, periphery_id@) == 0 ==> final(cache).usage_of(builder_id@) == u
                &&& forall|b: Seq<char>|
                    b != builder_id@ ==> #[trigger] final(cache).usage_of(b) == old(cache).usage_of(b)
            },
            _ => forall|b: Seq<char>| #[trigger] final(cache).usage_of(b) == old(cache).usage_of(b),
        },
{
    match data {
        BuildCleanupData::Server(Some(builder_id)) => cache.release(builder_id.as_str(), periphery_id),
        _ => {},
    }
}

/// The ids whose status is up, in order.
pub open spec fn spec_available_ids(ids: Seq<String>, up: Seq<bool>) -> Seq<String>
    decreases ids.len(),
{
    if ids.len() == 0 || up.len() == 0 {
        Seq::empty()
    } else if up.last() {
        spec_available_ids(ids.drop_last(), up.drop_last()).push(ids.last())
    } else {
        spec_available_ids(ids.drop_last(), up.drop_last())
    }
}

/// What cleaning up after a build does.
#[derive(Debug)]
pub enum CleanupPlan {
    /// Nothing to clean up.
    Nothing,
    /// Count one build fewer for the Periphery's server under this builder.
    Release(String),
    /// Close the Periphery connection.
    CloseConnection,
    /// Close the connection, terminate the instance in its region, and log it.
    CloseAndTerminate { instance_id: String, region: String, log: String },
}

/// What cleaning up after a build does for what the build left.
pub fn cleanup_plan(data: BuildCleanupData) -> (res: CleanupPlan)
    ensures
        match data {
            BuildCleanupData::Server(None) => res matches CleanupPlan::Nothing,
            BuildCleanupData::Server(Some(id)) => res == CleanupPlan::Release(id),
            BuildCleanupData::Url => res matches CleanupPlan::CloseConnection,
            BuildCleanupData::Aws { instance_id, region } => res matches CleanupPlan::CloseAndTerminate {
                instance_id: i,
                region: r,
                log,
            } && i == instance_id && r == region && log@ == "termination queued for instance id "@
                + instance_id@,
        },
{
    match data {
        BuildCleanupData::Server(None) => CleanupPlan::Nothing,
        BuildCleanupData::Server(Some(id)) => CleanupPlan::Release(id),
        BuildCleanupData::Url => CleanupPlan::CloseConnection,
        BuildCleanupData::Aws { instance_id, region } => {
            let mut log = "termination queued for instance id ".to_owned();
            log.append(instance_id.as_str());
            CleanupPlan::CloseAndTerminate { instance_id, region, log }
        },
    }
}

/// Refuses a URL builder without an address.
pub fn check_url_builder_address(address: &str) -> (res: Result<(), String>)
    ensures
        address@.len() == 0 ==> (res matches Err(m) && m@ == "Builder has not yet configured an address"@),
        address@.len() > 0 ==> res is Ok,
{
    if address.unicode_len() == 0 {
        Err("Builder has not yet configured an address".to_owned())
    } else {
        Ok(())
    }
}

/// How long an AWS builder is polled: tries, two seconds apart.
pub const BUILDER_POLL_MAX_TRIES: usize = 60;

/// How often a URL builder's health is checked, a second apart.
pub const URL_BUILDER_HEALTH_TRIES: usize = 10;

/// What to do after one try of reaching a builder.
#[derive(Clone, Copy, Debug, PartialEq, Eq, Structural)]
pub enum PollStep {
    /// It answered: use it.
    Connected,
    /// Wait and try again.
    Retry,
    /// No try is left: give up with the last error.
    GiveUp,
}

/// Decides after try number `tries_done` (counting from 1) of at most
/// `max_tries`, given whether it reached the builder.
pub fn next_poll_step(tries_done: usize, max_tries: usize, reached: bool) -> (res: PollStep)
    requires
        1 <= tries_done <= max_tries,
    ensures
        reached ==> res == PollStep::Connected,
        !reached && tries_done < max_tries ==> res == PollStep::Retry,
        !reached && tries_done == max_tries ==> res == PollStep::GiveUp,
{
    if reached {
        PollStep::Connected
    } else if tries_done < max_tries {
        PollStep::Retry
    } else {
        PollStep::GiveUp
    }
}

/// The name of a build instance: `BUILDER-{resource}` and, with a version,
/// `-v{version}`.
pub fn builder_instance_name(resource_name: &str, version: Option<&str>) -> (res: String)
    ensures
        res@ == "BUILDER-"@ + resource_name@ + match version {
            Some(v) => "-v"@ + v@,
            None => Seq::<char>::empty(),
        },
{
    let mut name = "BUILDER-".to_owned();
    name.append(resource_name);
    match version {
        Some(v) => {
            name.append("-v");
            name.append(v);
        },
        None => {},
    }
    name
}

/// The address of the Periphery on a build instance:
/// `{wss or ws}://{ip}:{port}`.
pub open spec fn spec_periphery_address(use_https: bool, ip: Seq<char>, port: i64) -> Seq<char> {
    (if use_https {
        "wss"@
    } else {
        "ws"@
    }) + "://"@ + ip + ":"@ + spec_format_i64(port)
}

/// The address of the Periphery on a build instance.
pub fn builder_periphery_address(use_https: bool, ip: &str, port: i64) -> (res: String)
    ensures
        res@ == spec_periphery_address(use_https, ip@, port),
{
    let mut out = if use_https {
        "wss".to_owned()
    } else {
        "ws".to_owned()
    };
    out.append("://");
    out.append(ip);
    out.append(":");
    let p = format_i64(port);
    out.append(p.as_str());
    out
}

/// What the build's log records once the build instance answers: the
/// Periphery version it reported.
pub fn builder_connected_log(version: &str) -> (res: String)
    ensures
        res@ == "established contact with periphery on builder\nperiphery version: v"@ + version@,
{
    let mut out = "established contact with periphery on builder\nperiphery version: v".to_owned();
    out.append(version);
    out
}

/// The settings of an AWS builder that the log of a started build instance
/// shows.
pub struct AwsBuilderLogSettings {
    pub ami_id: String,
    pub instance_type: String,
    pub volume_gb: i64,
    pub subnet_id: String,
    pub assign_public_ip: bool,
    pub security_group_ids: Vec<String>,
    pub use_public_ip: bool,
    pub use_https: bool,
}

/// How a flag reads in the log.
pub open spec fn spec_bool_text(b: bool) -> Seq<char> {
    if b {
        "true"@
    } else {
        "false"@
    }
}

/// The labels of the lines of a started build instance's log, in order.
pub open spec fn spec_aws_log_labels() -> Seq<Seq<char>> {
    seq![
        "instance id"@,
        "ip"@,
        "ami id"@,
        "instance type"@,
        "volume size"@,
        "subnet id"@,
        "security groups"@,
        "assign public ip"@,
        "use public ip"@,
        "use https"@,
    ]
}

/// The labels of the lines of a started build instance's log, in order;
/// the log shows each as the text formatting's muted form gives it.
pub fn aws_builder_log_labels() -> (res: Vec<String>)
    ensures
        string_views(res@) == spec_aws_log_labels(),
{
    let res = vec![
        "instance id".to_owned(),
        "ip".to_owned(),
        "ami id".to_owned(),
        "instance type".to_owned(),
        "volume size".to_owned(),
        "subnet id".to_owned(),
        "security groups".to_owned(),
        "assign public ip".to_owned(),
        "use public ip".to_owned(),
        "use https".to_owned(),
    ];
    assert(string_views(res@) =~= spec_aws_log_labels());
    res
}

/// The lines of a started build instance's log: each (muted) label, `: `,
/// and its value; the volume in GB and the security groups joined by `, `.
pub open spec fn spec_aws_builder_log_lines(
    instance_id: Seq<char>,
    ip: Seq<char>,
    c: AwsBuilderLogSettings,
    labels: Seq<Seq<char>>,
) -> Seq<Seq<char>> {
    seq![
        labels[0] + ": "@ + instance_id,
        labels[1] + ": "@ + ip,
        labels[2] + ": "@ + c.ami_id@,
        labels[3] + ": "@ + c.instance_type@,
        labels[4] + ": "@ + spec_format_i64(c.volume_gb) + " GB"@,
        labels[5] + ": "@ + c.subnet_id@,
        labels[6] + ": "@ + spec_join(string_views(c.security_group_ids@), ", "@),
        labels[7] + ": "@ + spec_bool_text(c.assign_public_ip),
        labels[8] + ": "@ + spec_bool_text(c.use_public_ip),
        labels[9] + ": "@ + spec_bool_text(c.use_https),
    ]
}

/// `label: value`.
fn labeled(label: &String, value: &str) -> (res: String)
    ensures
        res@ == label@ + ": "@ + value@,
{
    let mut out = label.clone();
    out.append(": ");
    out.append(value);
    out
}

fn bool_text(b: bool) -> (res: &'static str)
    ensures
        res@ == spec_bool_text(b),
{
    if b {
        "true"
    } else {
        "false"
    }
}

/// The log of a started build instance: its id, its address and the
/// builder's settings, one per line. `muted_labels` are the labels of
/// [aws_builder_log_labels] in the text formatting's muted form.
pub fn start_aws_builder_log(
    instance_id: &str,
    ip: &str,
    config: &AwsBuilderLogSettings,
    muted_labels: &Vec<String>,
) -> (res: String)
    requires
        muted_labels@.len() == 10,
    ensures
        res@ == spec_join(
            spec_aws_builder_log_lines(instance_id@, ip@, *config, string_views(muted_labels@)),
            "\n"@,
        ),
{
    let l = muted_labels;
    let mut volume = format_i64(config.volume_gb);
    volume.append(" GB");
    let groups = join_strings(&config.security_group_ids, ", ");
    let lines = vec![
        labeled(&l[0], instance_id),
        labeled(&l[1], ip),
        labeled(&l[2], config.ami_id.as_str()),
        labeled(&l[3], config.instance_type.as_str()),
        labeled(&l[4], volume.as_str()),
        labeled(&l[5], config.subnet_id.as_str()),
        labeled(&l[6], groups.as_str()),
        labeled(&l[7], bool_text(config.assign_public_ip)),
        labeled(&l[8], bool_text(config.use_public_ip)),
        labeled(&l[9], bool_text(config.use_https)),
    ];
    proof {
        let lv = string_views(muted_labels@);
        let sv = string_views(lines@);
        let spec_lines = spec_aws_builder_log_lines(instance_id@, ip@, *config, lv);
        assert(lines@.len() == 10);
        assert forall|k: int| 0 <= k < 10 implies #[trigger] sv[k] == spec_lines[k] by {
            assert(lv[k] == muted_labels@[k]@);
            assert(sv[k] == lines@[k]@);
        }
        assert(sv =~= spec_lines);
    }
    join_strings(&lines, "\n")
}

/// What a build instance that never answered is reported with.
pub fn unusable_builder_message() -> (res: &'static str)
    ensures
        res@ == "failed to start usable builder. terminating instance."@,
{
    "failed to start usable builder. terminating instance."
}

} // verus!
