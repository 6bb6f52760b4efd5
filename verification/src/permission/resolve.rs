//! Resolving a user's permission on a resource from its layers, and
//! checking it against what a request requires.

use vstd::prelude::*;

use super::laws::{
    lemma_elevate_upper_bound, lemma_fulfills_reflexive, lemma_fulfills_transitive,
};
use super::level::{
    spec_elevate, spec_fulfills, spec_holds_all, spec_level_name, spec_rank,
    spec_specifics_for_log, PermissionLevel, PermissionLevelAndSpecifics, PermissionView,
};
use super::specific::{spec_all_specifics, SpecificPermission, SpecificSet};

verus! {

/// The views of a list of permissions.
pub open spec fn views(s: Seq<PermissionLevelAndSpecifics>) -> Seq<PermissionView> {
    s.map_values(|p: PermissionLevelAndSpecifics| p@)
}

/// The view of an optional permission.
pub open spec fn opt_view(o: Option<PermissionLevelAndSpecifics>) -> Option<PermissionView> {
    match o {
        Some(p) => Some(p@),
        None => None,
    }
}

/// The views of a list of optional permissions.
pub open spec fn opt_views(s: Seq<Option<PermissionLevelAndSpecifics>>) -> Seq<Option<PermissionView>> {
    s.map_values(|o: Option<PermissionLevelAndSpecifics>| opt_view(o))
}

/// `base` raised by `p` when there is one.
pub open spec fn elevate_opt(base: PermissionView, p: Option<PermissionView>) -> PermissionView {
    match p {
        Some(p) => spec_elevate(base, p),
        None => base,
    }
}

/// `base` raised by each permission of `ps` in turn.
pub open spec fn elevate_each(base: PermissionView, ps: Seq<PermissionView>) -> PermissionView
    decreases ps.len(),
{
    if ps.len() == 0 {
        base
    } else {
        spec_elevate(elevate_each(base, ps.drop_last()), ps.last())
    }
}

/// `base` raised by each present permission of `ps` in turn.
pub open spec fn elevate_each_opt(base: PermissionView, ps: Seq<Option<PermissionView>>) -> PermissionView
    decreases ps.len(),
{
    if ps.len() == 0 {
        base
    } else {
        elevate_opt(elevate_each_opt(base, ps.drop_last()), ps.last())
    }
}

/// The level everyone has before any grant: Read in transparent mode.
pub open spec fn spec_floor_level(transparent_mode: bool) -> PermissionLevel {
    if transparent_mode {
        PermissionLevel::Read
    } else {
        PermissionLevel::NoAccess
    }
}

/// A user's permission on a resource. Admins get Write with every specific
/// permission. Anyone else starts at the floor level with the specifics
/// inherited from another target, and is raised in turn by the resource's
/// base permission, the user's permission on all resources of the type,
/// each group's permission on all resources of the type, and each
/// permission recorded for the resource.
pub open spec fn spec_user_permission(
    admin: bool,
    transparent_mode: bool,
    inherited: Seq<SpecificPermission>,
    resource_base: PermissionView,
    user_all: Option<PermissionView>,
    group_alls: Seq<Option<PermissionView>>,
    resource_permissions: Seq<PermissionView>,
) -> PermissionView {
    if admin {
        PermissionView { level: PermissionLevel::Write, specific: spec_all_specifics() }
    } else {
        let start = PermissionView { level: spec_floor_level(transparent_mode), specific: inherited };
        let with_base = spec_elevate(start, resource_base);
        let with_user = elevate_opt(with_base, user_all);
        let with_groups = elevate_each_opt(with_user, group_alls);
        elevate_each(with_groups, resource_permissions)
    }
}

/// Raises `perm` by each permission of `ps` in turn.
fn elevate_by_each(perm: &mut PermissionLevelAndSpecifics, ps: &Vec<PermissionLevelAndSpecifics>)
    ensures
        final(perm)@ == elevate_each(old(perm)@, views(ps@)),
{
    let n = ps.len();
    let mut i: usize = 0;
    while i < n
        invariant
            n == ps@.len(),
            i <= n,
            perm@ == elevate_each(old(perm)@, views(ps@.take(i as int))),
        decreases n - i,
    {
        perm.elevate(&ps[i]);
        proof {
            assert(views(ps@.take(i + 1)).drop_last() =~= views(ps@.take(i as int)));
        }
        i = i + 1;
    }
    proof {
        assert(ps@.take(n as int) =~= ps@);
    }
}

/// Raises `perm` by each present permission of `ps` in turn.
fn elevate_by_each_present(
    perm: &mut PermissionLevelAndSpecifics,
    ps: &Vec<Option<PermissionLevelAndSpecifics>>,
)
    ensures
        final(perm)@ == elevate_each_opt(old(perm)@, opt_views(ps@)),
{
    let n = ps.len();
    let mut i: usize = 0;
    while i < n
        invariant
            n == ps@.len(),
            i <= n,
            perm@ == elevate_each_opt(old(perm)@, opt_views(ps@.take(i as int))),
        decreases n - i,
    {
        if let Some(p) = &ps[i] {
            perm.elevate(p);
        }
        proof {
            assert(opt_views(ps@.take(i + 1)).drop_last() =~= opt_views(ps@.take(i as int)));
        }
        i = i + 1;
    }
    proof {
        assert(ps@.take(n as int) =~= ps@);
    }
}

/// A user's permission on a resource, from the layers that were looked up
/// for it: whether the user is an admin, whether transparent mode is on,
/// the specific permissions inherited from the resource's linked target
/// (empty when there is none), the resource's base permission, the user's
/// permission on all resources of the type, that of each of the user's
/// groups, and the permissions recorded for this resource.
pub fn get_user_permission_on_resource(
    admin: bool,
    transparent_mode: bool,
    inherited_specific: SpecificSet,
    resource_base: &PermissionLevelAndSpecifics,
    user_all: Option<&PermissionLevelAndSpecifics>,
    group_alls: &Vec<Option<PermissionLevelAndSpecifics>>,
    resource_permissions: &Vec<PermissionLevelAndSpecifics>,
) -> (res: PermissionLevelAndSpecifics)
    ensures
        res@ == spec_user_permission(
            admin,
            transparent_mode,
            inherited_specific@,
            resource_base@,
            match user_all { Some(u) => Some(u@), None => None },
            opt_views(group_alls@),
            views(resource_permissions@),
        ),
{
    if admin {
        return PermissionLevel::Write.all();
    }
    let level = if transparent_mode { PermissionLevel::Read } else { PermissionLevel::NoAccess };
    let mut permission = PermissionLevelAndSpecifics { level, specific: inherited_specific };
    permission.elevate(resource_base);
    if let Some(user_permission) = user_all {
        permission.elevate(user_permission);
    }
    elevate_by_each_present(&mut permission, group_alls);
    elevate_by_each(&mut permission, resource_permissions);
    permission
}

/// Whether a check on a resource passes: admins always pass; otherwise it
/// passes when the requirement is at most Read in transparent mode, or the
/// resource's base level reaches it, and the user holds the required specific
/// permissions; or when the user's permission meets the requirement.
pub open spec fn spec_check_passes(
    admin: bool,
    transparent_mode: bool,
    resource_base: PermissionView,
    user_permissions: PermissionView,
    required: PermissionView,
) -> bool {
    ||| admin
    ||| ((spec_rank(required.level) <= 1 && transparent_mode) || spec_rank(resource_base.level)
        >= spec_rank(required.level)) && spec_holds_all(user_permissions.specific, required.specific)
    ||| spec_fulfills(user_permissions, required)
}

/// The message of a refused check.
pub open spec fn spec_denied_message(resource_type: Seq<char>, required: PermissionView) -> Seq<char> {
    "User does not have required permissions on this "@ + resource_type + ". Must have at least "@
        + spec_level_name(required.level) + " permissions"@ + if required.specific.len() == 0 {
        Seq::<char>::empty()
    } else {
        ", as well as these specific permissions: ["@ + spec_specifics_for_log(required.specific)
            + "]"@
    }
}

/// Checks the user's permission on a resource against what is required.
/// `user_permissions` is the user's resolved permission on the resource
/// (see [get_user_permission_on_resource]); for admins it is not consulted.
/// The error holds the message shown to the user.
pub fn get_check_permissions(
    resource_type: &str,
    admin: bool,
    transparent_mode: bool,
    resource_base: &PermissionLevelAndSpecifics,
    user_permissions: &PermissionLevelAndSpecifics,
    required: &PermissionLevelAndSpecifics,
) -> (res: Result<(), String>)
    ensures
        res is Ok <==> spec_check_passes(
            admin,
            transparent_mode,
            resource_base@,
            user_permissions@,
            required@,
        ),
        res matches Err(msg) ==> msg@ == spec_denied_message(resource_type@, required@),
{
    if admin {
        return Ok(());
    }
    if ((required.level.rank() <= 1 && transparent_mode) || resource_base.level.rank()
        >= required.level.rank()) && user_permissions.fulfills_specific(&required.specific) {
        return Ok(());
    }
    if user_permissions.fulfills(required) {
        Ok(())
    } else {
        let mut msg = String::new();
        msg.append("User does not have required permissions on this ");
        msg.append(resource_type);
        msg.append(". Must have at least ");
        msg.append(required.level.as_str());
        msg.append(" permissions");
        if required.specific.len() != 0 {
            msg.append(", as well as these specific permissions: [");
            let specifics = required.specifics_for_log();
            msg.append(specifics.as_str());
            msg.append("]");
        }
        proof {
            if required.specific@.len() == 0 {
                assert(msg@ =~= spec_denied_message(resource_type@, required@));
            } else {
                assert(msg@ =~= spec_denied_message(resource_type@, required@));
            }
        }
        Err(msg)
    }
}

/// The resolved permission meets the resource's base permission and the
/// floor level of the deployment (Read in transparent mode).
proof fn lemma_user_permission_meets_base(
    transparent_mode: bool,
    inherited: Seq<SpecificPermission>,
    resource_base: PermissionView,
    user_all: Option<PermissionView>,
    group_alls: Seq<Option<PermissionView>>,
    resource_permissions: Seq<PermissionView>,
)
    ensures
        ({
            let res = spec_user_permission(
                false,
                transparent_mode,
                inherited,
                resource_base,
                user_all,
                group_alls,
                resource_permissions,
            );
            &&& spec_rank(res.level) >= spec_rank(resource_base.level)
            &&& spec_rank(res.level) >= spec_rank(spec_floor_level(transparent_mode))
        }),
{
    let start = PermissionView { level: spec_floor_level(transparent_mode), specific: inherited };
    let with_base = spec_elevate(start, resource_base);
    let with_user = elevate_opt(with_base, user_all);
    let with_groups = elevate_each_opt(with_user, group_alls);
    lemma_elevate_upper_bound(start, resource_base);
    lemma_elevate_opt_upper(with_base, user_all);
    lemma_elevate_each_opt_upper(with_user, group_alls);
    lemma_elevate_each_upper(with_groups, resource_permissions);
}

/// Raising by an optional permission never lowers the level.
proof fn lemma_elevate_opt_upper(base: PermissionView, p: Option<PermissionView>)
    ensures
        spec_fulfills(elevate_opt(base, p), base),
{
    match p {
        Some(p) => lemma_elevate_upper_bound(base, p),
        None => lemma_fulfills_reflexive(base),
    }
}

/// Raising by each present permission in turn meets where it started.
pub proof fn lemma_elevate_each_opt_upper(base: PermissionView, ps: Seq<Option<PermissionView>>)
    ensures
        spec_fulfills(elevate_each_opt(base, ps), base),
    decreases ps.len(),
{
    if ps.len() == 0 {
        lemma_fulfills_reflexive(base);
    } else {
        lemma_elevate_each_opt_upper(base, ps.drop_last());
        let prev = elevate_each_opt(base, ps.drop_last());
        lemma_elevate_opt_upper(prev, ps.last());
        lemma_fulfills_transitive(elevate_each_opt(base, ps), prev, base);
    }
}

/// Raising by each permission in turn meets where it started.
pub proof fn lemma_elevate_each_upper(base: PermissionView, ps: Seq<PermissionView>)
    ensures
        spec_fulfills(elevate_each(base, ps), base),
    decreases ps.len(),
{
    if ps.len() == 0 {
        lemma_fulfills_reflexive(base);
    } else {
        lemma_elevate_each_upper(base, ps.drop_last());
        let prev = elevate_each(base, ps.drop_last());
        lemma_elevate_upper_bound(prev, ps.last());
        lemma_fulfills_transitive(elevate_each(base, ps), prev, base);
    }
}

/// A check made with the user's resolved permission passes exactly when the
/// user is an admin or the resolved permission meets the requirement: the
/// transparent-mode and base-permission shortcuts never let through a request
/// the resolved permission would refuse.
pub proof fn law_check_agrees_with_resolution(
    admin: bool,
    transparent_mode: bool,
    inherited: Seq<SpecificPermission>,
    resource_base: PermissionView,
    user_all: Option<PermissionView>,
    group_alls: Seq<Option<PermissionView>>,
    resource_permissions: Seq<PermissionView>,
    required: PermissionView,
)
    ensures
        spec_check_passes(
            admin,
            transparent_mode,
            resource_base,
            spec_user_permission(
                admin,
                transparent_mode,
                inherited,
                resource_base,
                user_all,
                group_alls,
                resource_permissions,
            ),
            required,
        ) <==> (admin || spec_fulfills(
            spec_user_permission(
                false,
                transparent_mode,
                inherited,
                resource_base,
                user_all,
                group_alls,
                resource_permissions,
            ),
            required,
        )),
{
    if !admin {
        lemma_user_permission_meets_base(
            transparent_mode,
            inherited,
            resource_base,
            user_all,
            group_alls,
            resource_permissions,
        );
    }
}

} // verus!
