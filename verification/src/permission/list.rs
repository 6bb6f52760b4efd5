//! Precomputed permissions for listing the resources of one type, and the
//! paging of the resources a user may see.

use vstd::hash_map::StringHashMap;
use vstd::prelude::*;

use super::laws::lemma_elevate_monotone;
use super::level::{
    spec_elevate, spec_fulfills, PermissionLevel, PermissionLevelAndSpecifics, PermissionView,
};
use super::resolve::{elevate_each_opt, elevate_opt, opt_views, spec_floor_level};
use super::specific::{seq_extend, SpecificPermission, SpecificSet};
use super::target::{spec_variant_id, ResourceTarget};

verus! {

/// The permission everyone starts from when listing: the floor level
/// (Read in transparent mode) and no specific permissions.
pub open spec fn spec_list_floor(transparent_mode: bool) -> PermissionView {
    PermissionView { level: spec_floor_level(transparent_mode), specific: Seq::empty() }
}

/// The base permission used for listing: the floor raised by the user's
/// permission on all resources of the type and then by each group's.
pub open spec fn spec_list_base(
    transparent_mode: bool,
    user_all: Option<PermissionView>,
    group_alls: Seq<Option<PermissionView>>,
) -> PermissionView {
    elevate_each_opt(elevate_opt(spec_list_floor(transparent_mode), user_all), group_alls)
}

/// The outcome of the checks made before the user's groups are looked up.
pub enum ListPermitsStart {
    /// The user may see every resource of the type.
    Unrestricted,
    /// The groups must be consulted, starting from this base.
    Continue(PermissionLevelAndSpecifics),
}

/// The first stage of loading list permits: admins, transparent mode, and
/// the user's permission on all resources of the type can each let the user
/// see every resource; otherwise the base so far is returned.
pub fn load_list_permits_start(
    admin: bool,
    transparent_mode: bool,
    required: &PermissionLevelAndSpecifics,
    user_all: Option<&PermissionLevelAndSpecifics>,
) -> (res: ListPermitsStart)
    ensures
        res is Unrestricted <==> (admin || spec_fulfills(spec_list_floor(transparent_mode), required@)
            || (user_all matches Some(u) && spec_fulfills(
            spec_elevate(spec_list_floor(transparent_mode), u@),
            required@,
        ))),
        res matches ListPermitsStart::Continue(base) ==> base@ == elevate_opt(
            spec_list_floor(transparent_mode),
            match user_all { Some(u) => Some(u@), None => None },
        ),
{
    if admin {
        return ListPermitsStart::Unrestricted;
    }
    let level = if transparent_mode { PermissionLevel::Read } else { PermissionLevel::NoAccess };
    let mut base = level.into_specifics();
    assert(base@ == spec_list_floor(transparent_mode));
    if base.fulfills(required) {
        return ListPermitsStart::Unrestricted;
    }
    if let Some(all_permission) = user_all {
        base.elevate(all_permission);
        if base.fulfills(required) {
            return ListPermitsStart::Unrestricted;
        }
    }
    ListPermitsStart::Continue(base)
}

/// Some group, once raised into the base, makes the base meet `required`.
pub open spec fn spec_some_group_suffices(
    base: PermissionView,
    group_alls: Seq<Option<PermissionView>>,
    required: PermissionView,
) -> bool {
    exists|i: int|
        0 <= i < group_alls.len() && (#[trigger] group_alls[i]) is Some && spec_fulfills(
            elevate_each_opt(base, group_alls.take(i + 1)),
            required,
        )
}

/// The second stage: each group's permission on all resources of the type
/// raises the base in turn, and as soon as the base meets `required` the
/// user may see every resource (`None`). Otherwise the raised base comes back.
pub fn load_list_permits_groups(
    base: PermissionLevelAndSpecifics,
    required: &PermissionLevelAndSpecifics,
    group_alls: &Vec<Option<PermissionLevelAndSpecifics>>,
) -> (res: Option<PermissionLevelAndSpecifics>)
    ensures
        res is None <==> spec_some_group_suffices(base@, opt_views(group_alls@), required@),
        res matches Some(b) ==> b@ == elevate_each_opt(base@, opt_views(group_alls@)),
{
    let ghost start = base@;
    let ghost gs = opt_views(group_alls@);
    let mut acc = base;
    let n = group_alls.len();
    let mut i: usize = 0;
    while i < n
        invariant
            n == group_alls@.len(),
            gs == opt_views(group_alls@),
            start == base@,
            i <= n,
            acc@ == elevate_each_opt(start, gs.take(i as int)),
            !exists|j: int|
                0 <= j < i && (#[trigger] gs[j]) is Some && spec_fulfills(
                    elevate_each_opt(start, gs.take(j + 1)),
                    required@,
                ),
        decreases n - i,
    {
        proof {
            assert(gs.take(i + 1).drop_last() =~= gs.take(i as int));
        }
        proof {
            assert(gs.take(i + 1).last() == gs[i as int]);
        }
        if let Some(all_permission) = &group_alls[i] {
            acc.elevate(all_permission);
            proof {
                assert(gs.take(i + 1).last() == gs[i as int]);
                assert(acc@ == elevate_each_opt(start, gs.take(i + 1)));
            }
            if acc.fulfills(required) {
                proof {
                    assert(gs[i as int] is Some);
                    assert(spec_some_group_suffices(start, gs, required@));
                }
                return None;
            }
        }
        i = i + 1;
    }
    proof {
        assert(gs.take(n as int) =~= gs);
        if spec_some_group_suffices(start, gs, required@) {
            let j = choose|j: int|
                0 <= j < gs.len() && (#[trigger] gs[j]) is Some && spec_fulfills(
                    elevate_each_opt(start, gs.take(j + 1)),
                    required@,
                );
            assert(false);
        }
    }
    Some(acc)
}

/// The permission on one resource is the list base raised by the permission
/// recorded for the resource (if any) and then by the resource's base
/// permission.
pub open spec fn spec_resource_permission(
    base: PermissionView,
    recorded: Option<PermissionView>,
    resource_base: PermissionView,
) -> PermissionView {
    spec_elevate(elevate_opt(base, recorded), resource_base)
}

/// Permissions checked one resource at a time: the requirement, the base
/// from the user's and groups' permissions on all resources of the type, the
/// permissions recorded per resource id (all records of an id joined into
/// one), and the specific permissions already looked up for linked targets.
pub struct FineListPermits {
    pub required: PermissionLevelAndSpecifics,
    pub base: PermissionLevelAndSpecifics,
    pub permission_by_resource_id: StringHashMap<PermissionLevelAndSpecifics>,
    /// Kept as a list searched by target: a map keyed by `ResourceTarget`
    /// would hash and compare through derived impls that Verus does not
    /// read, so nothing could be proved of its lookups.
    pub additional_specific_cache: Vec<(ResourceTarget, SpecificSet)>,
}

/// Whether a user may see all resources of a type, or must be checked per resource.
pub enum ListPermits {
    /// The user can see all resources of the type.
    Unrestricted,
    /// Visibility is checked per resource.
    Fine(Box<FineListPermits>),
}

/// The recorded permissions as a map from resource id: every record of an id
/// is joined into the permission kept for it, in the order given.
pub open spec fn spec_records_map(
    records: Seq<(String, PermissionLevelAndSpecifics)>,
) -> Map<Seq<char>, PermissionView>
    decreases records.len(),
{
    if records.len() == 0 {
        Map::empty()
    } else {
        let m = spec_records_map(records.drop_last());
        let k = records.last().0@;
        let p = records.last().1@;
        if m.contains_key(k) {
            m.insert(k, spec_elevate(m[k], p))
        } else {
            m.insert(k, p)
        }
    }
}

/// The permissions recorded for the resource `id`, in the order given.
pub open spec fn spec_records_for(
    records: Seq<(String, PermissionLevelAndSpecifics)>,
    id: Seq<char>,
) -> Seq<PermissionView>
    decreases records.len(),
{
    if records.len() == 0 {
        Seq::empty()
    } else {
        let rest = spec_records_for(records.drop_last(), id);
        if records.last().0@ == id {
            rest.push(records.last().1@)
        } else {
            rest
        }
    }
}

/// All of `rs` joined into one permission, the first raised by each later
/// one; none when `rs` is empty.
pub open spec fn spec_joined(rs: Seq<PermissionView>) -> Option<PermissionView>
    decreases rs.len(),
{
    if rs.len() == 0 {
        None
    } else {
        match spec_joined(rs.drop_last()) {
            Some(p) => Some(spec_elevate(p, rs.last())),
            None => Some(rs.last()),
        }
    }
}

/// The map keeps, for each resource id, exactly the join of the records of that id.
pub proof fn lemma_records_map_joined(
    records: Seq<(String, PermissionLevelAndSpecifics)>,
    id: Seq<char>,
)
    ensures
        spec_records_map(records).contains_key(id) == (spec_records_for(records, id).len() > 0),
        spec_joined(spec_records_for(records, id)) == (if spec_records_map(records).contains_key(
            id,
        ) {
            Some(spec_records_map(records)[id])
        } else {
            None
        }),
    decreases records.len(),
{
    if records.len() > 0 {
        lemma_records_map_joined(records.drop_last(), id);
        let rest = spec_records_for(records.drop_last(), id);
        if records.last().0@ == id {
            assert(spec_records_for(records, id).drop_last() =~= rest);
        }
    }
}

/// The outcome of checking one resource before any linked target is consulted.
pub enum PermitCheck {
    /// The user may see the resource.
    Permitted,
    /// The user may not see the resource.
    Refused,
    /// The specific permissions of the resource's linked target must be
    /// added to this permission before deciding.
    NeedsInherited(PermissionLevelAndSpecifics),
}

impl FineListPermits {
    /// The permission kept for the resource `resource_id`, if any.
    pub open spec fn spec_recorded(&self, resource_id: Seq<char>) -> Option<PermissionView> {
        if self.permission_by_resource_id@.contains_key(resource_id) {
            Some(self.permission_by_resource_id@[resource_id]@)
        } else {
            None
        }
    }

    /// What checking a resource gives: permitted when the base raised by the
    /// resource's recorded permission and base permission meets the
    /// requirement; otherwise refused, or, for a resource linking another
    /// target, that raised permission to be completed with the target's
    /// specific permissions.
    pub open spec fn spec_check_outcome(
        &self,
        resource_id: Seq<char>,
        resource_base: PermissionView,
        has_linked_target: bool,
        res: PermitCheck,
    ) -> bool {
        let perm = spec_resource_permission(self.base@, self.spec_recorded(resource_id), resource_base);
        &&& (res is Permitted <==> spec_fulfills(perm, self.required@))
        &&& (res is Refused <==> !spec_fulfills(perm, self.required@) && !has_linked_target)
        &&& (res matches PermitCheck::NeedsInherited(p) ==> p@ == perm && has_linked_target)
    }

    /// The fine permits from the requirement, the list base, and the
    /// permissions recorded on resources of the type for the user and the
    /// user's groups, as (resource id, permission); all records of one
    /// resource are joined, as resolving the resource alone joins them.
    pub fn new(
        required: PermissionLevelAndSpecifics,
        base: PermissionLevelAndSpecifics,
        records: &Vec<(String, PermissionLevelAndSpecifics)>,
    ) -> (res: FineListPermits)
        ensures
            res.required@ == required@,
            res.base@ == base@,
            res.permission_by_resource_id@.map_values(|p: PermissionLevelAndSpecifics| p@)
                == spec_records_map(records@),
            res.additional_specific_cache@.len() == 0,
    {
        let mut map: StringHashMap<PermissionLevelAndSpecifics> = StringHashMap::new();
        let n = records.len();
        let mut i: usize = 0;
        while i < n
            invariant
                n == records@.len(),
                i <= n,
                map@.map_values(|p: PermissionLevelAndSpecifics| p@) == spec_records_map(
                    records@.take(i as int),
                ),
            decreases n - i,
        {
            let (id, permission) = &records[i];
            let key = id.clone();
            let value = match map.get(id.as_str()) {
                Some(prev) => prev.join(permission),
                None => permission.duplicate(),
            };
            proof {
                assert(records@.take(i + 1).drop_last() =~= records@.take(i as int));
                assert(records@.take(i + 1).last() == records@[i as int]);
            }
            map.insert(key, value);
            proof {
                assert(map@.map_values(|p: PermissionLevelAndSpecifics| p@) =~= spec_records_map(
                    records@.take(i + 1),
                ));
            }
            i = i + 1;
        }
        proof {
            assert(records@.take(n as int) =~= records@);
        }
        FineListPermits {
            required,
            base,
            permission_by_resource_id: map,
            additional_specific_cache: Vec::new(),
        }
    }

    /// Checks one resource: the base raised by the permission recorded for
    /// it and by its base permission. When that does not meet the requirement
    /// and the resource links another target, the caller must add that
    /// target's specific permissions (see [Self::permitted_with_inherited]).
    pub fn check(
        &self,
        resource_id: &str,
        resource_base: &PermissionLevelAndSpecifics,
        has_linked_target: bool,
    ) -> (res: PermitCheck)
        ensures
            self.spec_check_outcome(resource_id@, resource_base@, has_linked_target, res),
    {
        let mut perm = match self.permission_by_resource_id.get(resource_id) {
            Some(recorded) => self.base.join(recorded),
            None => self.base.duplicate(),
        };
        perm.elevate(resource_base);
        if perm.fulfills(&self.required) {
            return PermitCheck::Permitted;
        }
        if !has_linked_target {
            return PermitCheck::Refused;
        }
        PermitCheck::NeedsInherited(perm)
    }

    /// Decides a resource whose linked target's specific permissions are
    /// `inherited`: they are added to `perm` before checking again.
    pub fn permitted_with_inherited(
        &self,
        perm: PermissionLevelAndSpecifics,
        inherited: &SpecificSet,
    ) -> (res: bool)
        ensures
            res == spec_fulfills(
                PermissionView { level: perm.level, specific: seq_extend(perm.specific@, inherited@) },
                self.required@,
            ),
    {
        let mut perm = perm;
        perm.specific.extend(inherited);
        perm.fulfills(&self.required)
    }

    /// The specific permissions looked up earlier for `target`, if any.
    pub fn cached_inherited(&self, target: &ResourceTarget) -> (res: Option<SpecificSet>)
        ensures
            res is None <==> !exists|i: int|
                0 <= i < self.additional_specific_cache@.len() && spec_variant_id(
                    #[trigger] self.additional_specific_cache@[i].0,
                ) == spec_variant_id(*target),
            res matches Some(s) ==> exists|i: int|
                0 <= i < self.additional_specific_cache@.len() && spec_variant_id(
                    #[trigger] self.additional_specific_cache@[i].0,
                ) == spec_variant_id(*target) && s@ == self.additional_specific_cache@[i].1@,
    {
        let n = self.additional_specific_cache.len();
        let mut i: usize = 0;
        while i < n
            invariant
                n == self.additional_specific_cache@.len(),
                i <= n,
                forall|j: int|
                    0 <= j < i ==> spec_variant_id(#[trigger] self.additional_specific_cache@[j].0)
                        != spec_variant_id(*target),
            decreases n - i,
        {
            let (t, s) = &self.additional_specific_cache[i];
            if t.same_as(target) {
                return Some(s.duplicate());
            }
            i = i + 1;
        }
        None
    }

    /// Remembers the specific permissions looked up for `target`.
    pub fn cache_inherited(&mut self, target: ResourceTarget, specific: SpecificSet)
        ensures
            final(self).required@ == old(self).required@,
            final(self).base@ == old(self).base@,
            final(self).permission_by_resource_id@ == old(self).permission_by_resource_id@,
            final(self).additional_specific_cache@ == old(self).additional_specific_cache@.push(
                (target, specific),
            ),
    {
        self.additional_specific_cache.push((target, specific));
    }
}

/// Once remembered, the specific permissions of a linked target are found
/// again by a later lookup of the same target.
pub proof fn law_cache_read_after_write(
    before: Seq<(ResourceTarget, SpecificSet)>,
    target: ResourceTarget,
    specific: SpecificSet,
)
    ensures
        exists|i: int|
            0 <= i < before.push((target, specific)).len() && spec_variant_id(
                #[trigger] before.push((target, specific))[i].0,
            ) == spec_variant_id(target),
{
    let after = before.push((target, specific));
    assert(after[before.len() as int].0 == target);
}

impl ListPermits {
    /// Checks one resource; unrestricted permits see every resource.
    pub fn check(
        &self,
        resource_id: &str,
        resource_base: &PermissionLevelAndSpecifics,
        has_linked_target: bool,
    ) -> (res: PermitCheck)
        ensures
            self is Unrestricted ==> res is Permitted,
            self matches ListPermits::Fine(fine) ==> fine.spec_check_outcome(
                resource_id@,
                resource_base@,
                has_linked_target,
                res,
            ),
    {
        match self {
            ListPermits::Unrestricted => PermitCheck::Permitted,
            ListPermits::Fine(fine) => fine.check(resource_id, resource_base, has_linked_target),
        }
    }
}

} // verus!
