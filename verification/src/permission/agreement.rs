//! Listing and single-resource checks agree: a user sees a resource in a
//! list exactly when their resolved permission on it meets the requirement.

use vstd::prelude::*;

use super::laws::{lemma_elevate_monotone, lemma_seq_extend_contains};
use super::level::{spec_elevate, spec_fulfills, spec_rank, PermissionLevel, PermissionView};
use super::list::{
    lemma_records_map_joined, spec_joined, spec_list_base, spec_list_floor, spec_records_for,
    spec_records_map, spec_resource_permission, spec_some_group_suffices,
};
use super::level::PermissionLevelAndSpecifics;
use super::list::FineListPermits;
use super::resolve::{
    elevate_each, elevate_each_opt, elevate_opt, lemma_elevate_each_opt_upper,
    lemma_elevate_each_upper, spec_floor_level, spec_user_permission,
};
use super::specific::{seq_extend, SpecificPermission};

verus! {

/// Two permissions with the same level and the same specific permissions
/// (in any order) meet the same requirements.
pub open spec fn same_power(a: PermissionView, b: PermissionView) -> bool {
    &&& spec_rank(a.level) == spec_rank(b.level)
    &&& forall|x: SpecificPermission| a.specific.contains(x) <==> b.specific.contains(x)
}

proof fn lemma_same_power_fulfills(a: PermissionView, b: PermissionView, r: PermissionView)
    requires
        same_power(a, b),
    ensures
        spec_fulfills(a, r) == spec_fulfills(b, r),
{
}

proof fn lemma_same_power_symmetric(a: PermissionView, b: PermissionView)
    requires
        same_power(a, b),
    ensures
        same_power(b, a),
{
}

proof fn lemma_same_power_transitive(a: PermissionView, b: PermissionView, c: PermissionView)
    requires
        same_power(a, b),
        same_power(b, c),
    ensures
        same_power(a, c),
{
}

proof fn lemma_elevate_contains(a: PermissionView, b: PermissionView)
    ensures
        forall|x: SpecificPermission|
            #[trigger] spec_elevate(a, b).specific.contains(x) <==> (a.specific.contains(x)
                || b.specific.contains(x)),
{
    assert forall|x: SpecificPermission|
        #[trigger] spec_elevate(a, b).specific.contains(x) <==> (a.specific.contains(x)
            || b.specific.contains(x)) by {
        lemma_seq_extend_contains(a.specific, b.specific, x);
    }
}

proof fn lemma_elevate_congruent(a: PermissionView, a2: PermissionView, b: PermissionView, b2: PermissionView)
    requires
        same_power(a, a2),
        same_power(b, b2),
    ensures
        same_power(spec_elevate(a, b), spec_elevate(a2, b2)),
{
    lemma_elevate_contains(a, b);
    lemma_elevate_contains(a2, b2);
}

proof fn lemma_elevate_swap_last(b: PermissionView, x: PermissionView, p: PermissionView)
    ensures
        same_power(spec_elevate(spec_elevate(b, x), p), spec_elevate(spec_elevate(b, p), x)),
{
    lemma_elevate_contains(b, x);
    lemma_elevate_contains(b, p);
    lemma_elevate_contains(spec_elevate(b, x), p);
    lemma_elevate_contains(spec_elevate(b, p), x);
}

proof fn lemma_elevate_opt_congruent(a: PermissionView, a2: PermissionView, p: Option<PermissionView>)
    requires
        same_power(a, a2),
    ensures
        same_power(elevate_opt(a, p), elevate_opt(a2, p)),
{
    if let Some(p) = p {
        lemma_elevate_congruent(a, a2, p, p);
    }
}

/// Raising by `x` first and then by each present permission of `gs` has the
/// same power as raising by `gs` first and then by `x`.
proof fn lemma_pull_out_each_opt(b: PermissionView, x: PermissionView, gs: Seq<Option<PermissionView>>)
    ensures
        same_power(elevate_each_opt(spec_elevate(b, x), gs), spec_elevate(elevate_each_opt(b, gs), x)),
    decreases gs.len(),
{
    if gs.len() == 0 {
    } else {
        lemma_pull_out_each_opt(b, x, gs.drop_last());
        let l = elevate_each_opt(spec_elevate(b, x), gs.drop_last());
        let r = spec_elevate(elevate_each_opt(b, gs.drop_last()), x);
        lemma_elevate_opt_congruent(l, r, gs.last());
        if let Some(p) = gs.last() {
            lemma_elevate_swap_last(elevate_each_opt(b, gs.drop_last()), x, p);
            lemma_same_power_transitive(
                elevate_each_opt(spec_elevate(b, x), gs),
                spec_elevate(r, p),
                spec_elevate(elevate_each_opt(b, gs), x),
            );
        }
    }
}

proof fn lemma_pull_out_opt(b: PermissionView, x: PermissionView, p: Option<PermissionView>)
    ensures
        same_power(elevate_opt(spec_elevate(b, x), p), spec_elevate(elevate_opt(b, p), x)),
{
    if let Some(p) = p {
        lemma_elevate_swap_last(b, x, p);
    } else {
        lemma_elevate_contains(b, x);
    }
}

/// The permission seen by a list check, with the linked target's specific
/// permissions added.
pub open spec fn spec_list_check_permission(
    transparent_mode: bool,
    user_all: Option<PermissionView>,
    group_alls: Seq<Option<PermissionView>>,
    recorded: Option<PermissionView>,
    resource_base: PermissionView,
    inherited: Seq<SpecificPermission>,
) -> PermissionView {
    let perm = spec_resource_permission(
        spec_list_base(transparent_mode, user_all, group_alls),
        recorded,
        resource_base,
    );
    PermissionView { level: perm.level, specific: seq_extend(perm.specific, inherited) }
}

/// Raising by `p` and then by `x` has the power of raising by `p` raised by `x`.
proof fn lemma_elevate_assoc(a: PermissionView, p: PermissionView, x: PermissionView)
    ensures
        same_power(spec_elevate(spec_elevate(a, p), x), spec_elevate(a, spec_elevate(p, x))),
{
    lemma_elevate_contains(a, p);
    lemma_elevate_contains(p, x);
    lemma_elevate_contains(spec_elevate(a, p), x);
    lemma_elevate_contains(a, spec_elevate(p, x));
}

/// Raising by each of `rs` in turn has the power of raising once by all of
/// them joined.
proof fn lemma_elevate_each_joined(a: PermissionView, rs: Seq<PermissionView>)
    ensures
        same_power(elevate_each(a, rs), elevate_opt(a, spec_joined(rs))),
    decreases rs.len(),
{
    if rs.len() > 0 {
        lemma_elevate_each_joined(a, rs.drop_last());
        let prev = elevate_each(a, rs.drop_last());
        let joined_prev = elevate_opt(a, spec_joined(rs.drop_last()));
        lemma_elevate_congruent(prev, joined_prev, rs.last(), rs.last());
        if let Some(p) = spec_joined(rs.drop_last()) {
            lemma_elevate_assoc(a, p, rs.last());
            lemma_same_power_transitive(
                elevate_each(a, rs),
                spec_elevate(joined_prev, rs.last()),
                elevate_opt(a, spec_joined(rs)),
            );
        }
    }
}

/// A user sees a resource in a list (checked with the list base, the
/// permission recorded for the resource, its base permission, and the
/// specific permissions of its linked target) exactly when the permission
/// resolved for that resource alone meets the requirement. The list check
/// sees the resource's records joined into one.
pub proof fn law_list_check_matches_resolution(
    transparent_mode: bool,
    user_all: Option<PermissionView>,
    group_alls: Seq<Option<PermissionView>>,
    records: Seq<PermissionView>,
    resource_base: PermissionView,
    inherited: Seq<SpecificPermission>,
    required: PermissionView,
)
    ensures
        spec_fulfills(
            spec_list_check_permission(
                transparent_mode,
                user_all,
                group_alls,
                spec_joined(records),
                resource_base,
                inherited,
            ),
            required,
        ) == spec_fulfills(
            spec_user_permission(
                false,
                transparent_mode,
                inherited,
                resource_base,
                user_all,
                group_alls,
                records,
            ),
            required,
        ),
{
    let recorded = spec_joined(records);
    let f = spec_list_floor(transparent_mode);
    let i = PermissionView { level: PermissionLevel::NoAccess, specific: inherited };
    let start = PermissionView { level: spec_floor_level(transparent_mode), specific: inherited };
    // The resolution starts from the floor with the inherited specifics,
    // which has the power of the floor raised by them.
    lemma_elevate_contains(f, i);
    assert forall|x: SpecificPermission| #[trigger] start.specific.contains(x) <==> spec_elevate(f, i).specific.contains(x) by {
        lemma_seq_extend_contains(f.specific, i.specific, x);
    }
    assert(same_power(start, spec_elevate(f, i)));
    // Resolution side, rewritten step by step.
    let r1 = spec_elevate(start, resource_base);
    let r1b = spec_elevate(spec_elevate(f, i), resource_base);
    lemma_elevate_congruent(start, spec_elevate(f, i), resource_base, resource_base);
    lemma_elevate_swap_last(f, i, resource_base);
    let fb = spec_elevate(f, resource_base);
    // r1 ~ (f.b).i
    lemma_same_power_transitive(r1, r1b, spec_elevate(fb, i));
    // user
    let r2 = elevate_opt(r1, user_all);
    lemma_elevate_opt_congruent(r1, spec_elevate(fb, i), user_all);
    lemma_pull_out_opt(fb, i, user_all);
    let u = elevate_opt(fb, user_all);
    lemma_same_power_transitive(r2, elevate_opt(spec_elevate(fb, i), user_all), spec_elevate(u, i));
    // groups
    let r3 = elevate_each_opt(r2, group_alls);
    lemma_each_opt_congruent(r2, spec_elevate(u, i), group_alls);
    lemma_pull_out_each_opt(u, i, group_alls);
    let g = elevate_each_opt(u, group_alls);
    lemma_same_power_transitive(r3, elevate_each_opt(spec_elevate(u, i), group_alls), spec_elevate(g, i));
    // recorded: the records one by one have the power of their join
    let r4_each = elevate_each(r3, records);
    let r4 = elevate_opt(r3, recorded);
    lemma_elevate_each_joined(r3, records);
    lemma_elevate_opt_congruent(r3, spec_elevate(g, i), recorded);
    lemma_pull_out_opt(g, i, recorded);
    let c = elevate_opt(g, recorded);
    lemma_same_power_transitive(r4, elevate_opt(spec_elevate(g, i), recorded), spec_elevate(c, i));
    // r4 ~ (((f.b).u.g.c).i); the list side is ((f.u.g.c).b).i
    // Move the base permission from the front to the back.
    let lu = elevate_opt(f, user_all);
    let lg = elevate_each_opt(lu, group_alls);
    let lc = elevate_opt(lg, recorded);
    lemma_pull_out_opt(f, resource_base, user_all);
    lemma_each_opt_congruent(u, spec_elevate(lu, resource_base), group_alls);
    lemma_pull_out_each_opt(lu, resource_base, group_alls);
    lemma_same_power_transitive(g, elevate_each_opt(spec_elevate(lu, resource_base), group_alls), spec_elevate(lg, resource_base));
    lemma_elevate_opt_congruent(g, spec_elevate(lg, resource_base), recorded);
    lemma_pull_out_opt(lg, resource_base, recorded);
    lemma_same_power_transitive(c, elevate_opt(spec_elevate(lg, resource_base), recorded), spec_elevate(lc, resource_base));
    let lb = spec_elevate(lc, resource_base);
    lemma_elevate_congruent(c, lb, i, i);
    lemma_same_power_transitive(r4, spec_elevate(c, i), spec_elevate(lb, i));
    // The list side adds the inherited specifics directly.
    let l = spec_list_check_permission(transparent_mode, user_all, group_alls, recorded, resource_base, inherited);
    assert(lb == spec_resource_permission(spec_list_base(transparent_mode, user_all, group_alls), recorded, resource_base));
    lemma_elevate_contains(lb, i);
    assert forall|x: SpecificPermission| #[trigger] l.specific.contains(x) <==> spec_elevate(lb, i).specific.contains(x) by {
        lemma_seq_extend_contains(lb.specific, inherited, x);
    }
    assert(same_power(l, spec_elevate(lb, i)));
    lemma_same_power_symmetric(l, spec_elevate(lb, i));
    lemma_same_power_transitive(r4, spec_elevate(lb, i), l);
    lemma_same_power_transitive(r4_each, r4, l);
    lemma_same_power_fulfills(r4_each, l, required);
}

/// Fine list permits built from the records of the user and the user's
/// groups on resources of the type, with the list base, agree with the
/// permission resolved for a single resource from that resource's records:
/// the user sees the resource in a list exactly when the resolved permission
/// meets the requirement.
pub proof fn law_fine_permits_match_resolution(
    permits: FineListPermits,
    transparent_mode: bool,
    user_all: Option<PermissionView>,
    group_alls: Seq<Option<PermissionView>>,
    records: Seq<(String, PermissionLevelAndSpecifics)>,
    resource_id: Seq<char>,
    resource_base: PermissionView,
    inherited: Seq<SpecificPermission>,
)
    requires
        permits.base@ == spec_list_base(transparent_mode, user_all, group_alls),
        permits.permission_by_resource_id@.map_values(|p: PermissionLevelAndSpecifics| p@)
            == spec_records_map(records),
    ensures
        spec_fulfills(
            spec_list_check_permission(
                transparent_mode,
                user_all,
                group_alls,
                permits.spec_recorded(resource_id),
                resource_base,
                inherited,
            ),
            permits.required@,
        ) == spec_fulfills(
            spec_user_permission(
                false,
                transparent_mode,
                inherited,
                resource_base,
                user_all,
                group_alls,
                spec_records_for(records, resource_id),
            ),
            permits.required@,
        ),
{
    lemma_records_map_joined(records, resource_id);
    let m = permits.permission_by_resource_id@;
    assert(m.map_values(|p: PermissionLevelAndSpecifics| p@).contains_key(resource_id)
        == m.contains_key(resource_id));
    if m.contains_key(resource_id) {
        assert(m.map_values(|p: PermissionLevelAndSpecifics| p@)[resource_id] == m[resource_id]@);
    }
    assert(permits.spec_recorded(resource_id) == spec_joined(spec_records_for(records, resource_id)));
    law_list_check_matches_resolution(
        transparent_mode,
        user_all,
        group_alls,
        spec_records_for(records, resource_id),
        resource_base,
        inherited,
        permits.required@,
    );
}

proof fn lemma_each_opt_congruent(a: PermissionView, a2: PermissionView, gs: Seq<Option<PermissionView>>)
    requires
        same_power(a, a2),
    ensures
        same_power(elevate_each_opt(a, gs), elevate_each_opt(a2, gs)),
    decreases gs.len(),
{
    if gs.len() > 0 {
        lemma_each_opt_congruent(a, a2, gs.drop_last());
        lemma_elevate_opt_congruent(
            elevate_each_opt(a, gs.drop_last()),
            elevate_each_opt(a2, gs.drop_last()),
            gs.last(),
        );
    }
}

/// When loading list permits finds that the user may see every resource of
/// the type, the permission resolved for any single resource of the type
/// meets the requirement too.
pub proof fn law_unrestricted_sees_every_resource(
    transparent_mode: bool,
    user_all: Option<PermissionView>,
    group_alls: Seq<Option<PermissionView>>,
    recorded: Seq<PermissionView>,
    resource_base: PermissionView,
    inherited: Seq<SpecificPermission>,
    required: PermissionView,
)
    requires
        spec_fulfills(spec_list_floor(transparent_mode), required) || (user_all matches Some(u)
            && spec_fulfills(spec_elevate(spec_list_floor(transparent_mode), u), required))
            || spec_some_group_suffices(
            elevate_opt(spec_list_floor(transparent_mode), user_all),
            group_alls,
            required,
        ),
    ensures
        spec_fulfills(
            spec_user_permission(
                false,
                transparent_mode,
                inherited,
                resource_base,
                user_all,
                group_alls,
                recorded,
            ),
            required,
        ),
{
    let f = spec_list_floor(transparent_mode);
    let lu = elevate_opt(f, user_all);
    let lg = elevate_each_opt(lu, group_alls);
    // The list base meets the requirement.
    if spec_fulfills(f, required) {
        lemma_elevate_opt_monotone(f, user_all, required);
        lemma_each_opt_monotone(lu, group_alls, required);
    } else if user_all matches Some(u) && spec_fulfills(spec_elevate(f, u), required) {
        lemma_each_opt_monotone(lu, group_alls, required);
    } else {
        let j = choose|j: int|
            0 <= j < group_alls.len() && (#[trigger] group_alls[j]) is Some && spec_fulfills(
                elevate_each_opt(lu, group_alls.take(j + 1)),
                required,
            );
        lemma_each_opt_prefix_monotone(lu, group_alls, j + 1, required);
    }
    assert(spec_fulfills(lg, required));
    // The resolution has at least the power of the list base.
    law_list_check_matches_resolution(
        transparent_mode,
        user_all,
        group_alls,
        Seq::empty(),
        resource_base,
        inherited,
        required,
    );
    let l = spec_list_check_permission(transparent_mode, user_all, group_alls, None, resource_base, inherited);
    lemma_elevate_monotone(lg, resource_base, required);
    let lb = spec_elevate(lg, resource_base);
    assert forall|k: int| 0 <= k < required.specific.len() implies l.specific.contains(#[trigger] required.specific[k]) by {
        lemma_seq_extend_contains(lb.specific, inherited, required.specific[k]);
    }
    let none_res = spec_user_permission(false, transparent_mode, inherited, resource_base, user_all, group_alls, Seq::empty());
    assert(spec_fulfills(none_res, required));
    assert(spec_user_permission(false, transparent_mode, inherited, resource_base, user_all, group_alls, recorded)
        == elevate_each(none_res, recorded));
    lemma_each_monotone(none_res, recorded, required);
}

proof fn lemma_elevate_opt_monotone(b: PermissionView, p: Option<PermissionView>, r: PermissionView)
    requires
        spec_fulfills(b, r),
    ensures
        spec_fulfills(elevate_opt(b, p), r),
{
    if let Some(p) = p {
        lemma_elevate_monotone(b, p, r);
    }
}

proof fn lemma_each_opt_monotone(b: PermissionView, gs: Seq<Option<PermissionView>>, r: PermissionView)
    requires
        spec_fulfills(b, r),
    ensures
        spec_fulfills(elevate_each_opt(b, gs), r),
    decreases gs.len(),
{
    if gs.len() > 0 {
        lemma_each_opt_monotone(b, gs.drop_last(), r);
        lemma_elevate_opt_monotone(elevate_each_opt(b, gs.drop_last()), gs.last(), r);
    }
}

proof fn lemma_each_monotone(b: PermissionView, ps: Seq<PermissionView>, r: PermissionView)
    requires
        spec_fulfills(b, r),
    ensures
        spec_fulfills(elevate_each(b, ps), r),
    decreases ps.len(),
{
    if ps.len() > 0 {
        lemma_each_monotone(b, ps.drop_last(), r);
        lemma_elevate_monotone(elevate_each(b, ps.drop_last()), ps.last(), r);
    }
}

/// Meeting a requirement after a prefix of the groups keeps meeting it after all of them.
proof fn lemma_each_opt_prefix_monotone(
    b: PermissionView,
    gs: Seq<Option<PermissionView>>,
    k: int,
    r: PermissionView,
)
    requires
        0 <= k <= gs.len(),
        spec_fulfills(elevate_each_opt(b, gs.take(k)), r),
    ensures
        spec_fulfills(elevate_each_opt(b, gs), r),
    decreases gs.len() - k,
{
    if k == gs.len() {
        assert(gs.take(k) =~= gs);
    } else {
        assert(gs.take(k + 1).drop_last() =~= gs.take(k));
        lemma_elevate_opt_monotone(elevate_each_opt(b, gs.take(k)), gs.take(k + 1).last(), r);
        lemma_each_opt_prefix_monotone(b, gs, k + 1, r);
    }
}

} // verus!
