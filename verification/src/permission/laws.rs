//! Laws of the permission algebra: `fulfills` is a preorder and
//! `elevate` is its least upper bound.

use vstd::prelude::*;

use super::level::{spec_elevate, spec_fulfills, spec_holds_all, spec_rank, PermissionView};
use super::specific::seq_extend;

verus! {

/// An item is in `seq_extend(a, b)` exactly when it is in `a` or in `b`.
pub proof fn lemma_seq_extend_contains<T>(a: Seq<T>, b: Seq<T>, x: T)
    ensures
        seq_extend(a, b).contains(x) <==> (a.contains(x) || b.contains(x)),
    decreases b.len(),
{
    if b.len() > 0 {
        lemma_seq_extend_contains(a, b.drop_last(), x);
        let prev = seq_extend(a, b.drop_last());
        if b.drop_last().contains(x) {
            let i = choose|i: int| 0 <= i < b.drop_last().len() && b.drop_last()[i] == x;
            assert(b[i] == x);
        }
        if b.contains(x) && !b.drop_last().contains(x) {
            let i = choose|i: int| 0 <= i < b.len() && b[i] == x;
            if i < b.len() - 1 {
                assert(b.drop_last()[i] == x);
            }
        }
        if prev.contains(b.last()) {
        } else {
            if prev.push(b.last()).contains(x) {
                let i = choose|i: int| 0 <= i < prev.push(b.last()).len() && prev.push(b.last())[i] == x;
                if i < prev.len() {
                    assert(prev[i] == x);
                }
            }
            if prev.contains(x) {
                let i = choose|i: int| 0 <= i < prev.len() && prev[i] == x;
                assert(prev.push(b.last())[i] == x);
            }
            assert(prev.push(b.last())[prev.len() as int] == b.last());
        }
    }
}

/// `seq_extend` keeps a sequence free of repeats.
pub proof fn lemma_seq_extend_no_duplicates<T>(a: Seq<T>, b: Seq<T>)
    requires
        a.no_duplicates(),
    ensures
        seq_extend(a, b).no_duplicates(),
    decreases b.len(),
{
    if b.len() > 0 {
        lemma_seq_extend_no_duplicates(a, b.drop_last());
    }
}

/// Every permission meets itself.
pub proof fn lemma_fulfills_reflexive(a: PermissionView)
    ensures
        spec_fulfills(a, a),
{
    assert forall|i: int| 0 <= i < a.specific.len() implies a.specific.contains(#[trigger] a.specific[i]) by {
    }
}

/// Meeting a permission that meets a requirement meets the requirement.
pub proof fn lemma_fulfills_transitive(a: PermissionView, b: PermissionView, c: PermissionView)
    requires
        spec_fulfills(a, b),
        spec_fulfills(b, c),
    ensures
        spec_fulfills(a, c),
{
    assert forall|i: int| 0 <= i < c.specific.len() implies a.specific.contains(#[trigger] c.specific[i]) by {
        assert(b.specific.contains(c.specific[i]));
        let j = choose|j: int| 0 <= j < b.specific.len() && b.specific[j] == c.specific[i];
        assert(a.specific.contains(b.specific[j]));
    }
}

/// Raising `a` by `b` meets both `a` and `b`.
pub proof fn lemma_elevate_upper_bound(a: PermissionView, b: PermissionView)
    ensures
        spec_fulfills(spec_elevate(a, b), a),
        spec_fulfills(spec_elevate(a, b), b),
{
    let e = spec_elevate(a, b);
    assert forall|i: int| 0 <= i < a.specific.len() implies e.specific.contains(#[trigger] a.specific[i]) by {
        lemma_seq_extend_contains(a.specific, b.specific, a.specific[i]);
        assert(a.specific.contains(a.specific[i]));
    }
    assert forall|i: int| 0 <= i < b.specific.len() implies e.specific.contains(#[trigger] b.specific[i]) by {
        lemma_seq_extend_contains(a.specific, b.specific, b.specific[i]);
        assert(b.specific.contains(b.specific[i]));
    }
}

/// Whatever meets both `a` and `b` meets `a` raised by `b`.
pub proof fn lemma_elevate_least(a: PermissionView, b: PermissionView, c: PermissionView)
    requires
        spec_fulfills(c, a),
        spec_fulfills(c, b),
    ensures
        spec_fulfills(c, spec_elevate(a, b)),
{
    let e = spec_elevate(a, b);
    assert forall|i: int| 0 <= i < e.specific.len() implies c.specific.contains(#[trigger] e.specific[i]) by {
        lemma_seq_extend_contains(a.specific, b.specific, e.specific[i]);
        assert(e.specific.contains(e.specific[i]));
        if a.specific.contains(e.specific[i]) {
            let j = choose|j: int| 0 <= j < a.specific.len() && a.specific[j] == e.specific[i];
            assert(c.specific.contains(a.specific[j]));
        } else {
            let j = choose|j: int| 0 <= j < b.specific.len() && b.specific[j] == e.specific[i];
            assert(c.specific.contains(b.specific[j]));
        }
    }
}

/// Raising a permission never loses a requirement it already met.
pub proof fn lemma_elevate_monotone(a: PermissionView, b: PermissionView, r: PermissionView)
    requires
        spec_fulfills(a, r),
    ensures
        spec_fulfills(spec_elevate(a, b), r),
{
    lemma_elevate_upper_bound(a, b);
    lemma_fulfills_transitive(spec_elevate(a, b), a, r);
}

/// What a raised permission meets does not depend on the order of raising:
/// `a` raised by `b` meets `r` exactly when `b` raised by `a` does.
pub proof fn lemma_elevate_commutes(a: PermissionView, b: PermissionView, r: PermissionView)
    ensures
        spec_fulfills(spec_elevate(a, b), r) == spec_fulfills(spec_elevate(b, a), r),
{
    lemma_elevate_upper_bound(a, b);
    lemma_elevate_upper_bound(b, a);
    lemma_elevate_least(a, b, spec_elevate(b, a));
    lemma_elevate_least(b, a, spec_elevate(a, b));
    if spec_fulfills(spec_elevate(a, b), r) {
        lemma_fulfills_transitive(spec_elevate(b, a), spec_elevate(a, b), r);
    }
    if spec_fulfills(spec_elevate(b, a), r) {
        lemma_fulfills_transitive(spec_elevate(a, b), spec_elevate(b, a), r);
    }
}

} // verus!
