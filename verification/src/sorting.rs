//! A stable sort by a listing order: items that tie keep the order they came
//! in, as `slice::sort_by` keeps them.

use crate::listing::{paginate, spec_page_window};
use vstd::prelude::*;

verus! {

/// An order in which items are listed.
pub trait ListingOrder<T> {
    /// Whether `a` is listed strictly after `b`.
    spec fn spec_after(&self, a: T, b: T) -> bool;

    /// Whether `a` is listed strictly after `b`.
    fn after(&self, a: &T, b: &T) -> (res: bool)
        ensures
            res == self.spec_after(*a, *b),
    ;
}

/// `x` inserted into `t` before the first element listed after it, so that
/// it follows every element it ties with.
pub open spec fn spec_insert<T, O: ListingOrder<T>>(o: O, t: Seq<T>, x: T) -> Seq<T>
    decreases t.len(),
{
    if t.len() == 0 {
        seq![x]
    } else if o.spec_after(t[0], x) {
        seq![x] + t
    } else {
        seq![t[0]] + spec_insert(o, t.drop_first(), x)
    }
}

/// The stable sort of `s` in the order `o`: each item in turn is inserted
/// after the ones before it that it ties with.
pub open spec fn spec_stable_sort<T, O: ListingOrder<T>>(o: O, s: Seq<T>) -> Seq<T>
    decreases s.len(),
{
    if s.len() == 0 {
        Seq::empty()
    } else {
        spec_insert(o, spec_stable_sort(o, s.drop_last()), s.last())
    }
}

/// The first position in `t` holding an element listed after `x`.
pub open spec fn spec_insert_at<T, O: ListingOrder<T>>(o: O, t: Seq<T>, x: T) -> int
    decreases t.len(),
{
    if t.len() == 0 {
        0
    } else if o.spec_after(t[0], x) {
        0
    } else {
        1 + spec_insert_at(o, t.drop_first(), x)
    }
}

/// Inserting puts `x` at `spec_insert_at`: after the leading elements not
/// listed after it, before the first one that is.
pub proof fn lemma_insert_at<T, O: ListingOrder<T>>(o: O, t: Seq<T>, x: T)
    ensures
        0 <= spec_insert_at(o, t, x) <= t.len(),
        spec_insert(o, t, x) == t.take(spec_insert_at(o, t, x)).push(x) + t.skip(
            spec_insert_at(o, t, x),
        ),
        forall|j: int| 0 <= j < spec_insert_at(o, t, x) ==> !o.spec_after(#[trigger] t[j], x),
        spec_insert_at(o, t, x) < t.len() ==> o.spec_after(t[spec_insert_at(o, t, x)], x),
    decreases t.len(),
{
    if t.len() == 0 {
        assert(t.take(0).push(x) + t.skip(0) =~= seq![x]);
    } else if o.spec_after(t[0], x) {
        assert(t.take(0).push(x) + t.skip(0) =~= seq![x] + t);
    } else {
        let r = t.drop_first();
        lemma_insert_at(o, r, x);
        let k = spec_insert_at(o, r, x);
        assert(t.take(k + 1).push(x) + t.skip(k + 1) =~= seq![t[0]] + (r.take(k).push(x) + r.skip(k)));
        assert forall|j: int| 0 <= j < k + 1 implies !o.spec_after(#[trigger] t[j], x) by {
            if j > 0 {
                assert(t[j] == r[j - 1]);
            }
        }
        if k < r.len() {
            assert(t[k + 1] == r[k]);
        }
    }
}

/// Sorting keeps the number of items.
pub proof fn lemma_stable_sort_len<T, O: ListingOrder<T>>(o: O, s: Seq<T>)
    ensures
        spec_stable_sort(o, s).len() == s.len(),
    decreases s.len(),
{
    if s.len() > 0 {
        lemma_stable_sort_len(o, s.drop_last());
        lemma_insert_at(o, spec_stable_sort(o, s.drop_last()), s.last());
    }
}

/// Sorting keeps the items themselves: the result is a rearrangement.
pub proof fn law_stable_sort_permutes<T, O: ListingOrder<T>>(o: O, s: Seq<T>)
    ensures
        spec_stable_sort(o, s).to_multiset() == s.to_multiset(),
    decreases s.len(),
{
    broadcast use vstd::seq_lib::group_to_multiset_ensures;

    if s.len() > 0 {
        let init = s.drop_last();
        law_stable_sort_permutes(o, init);
        let t = spec_stable_sort(o, init);
        lemma_insert_at(o, t, s.last());
        let k = spec_insert_at(o, t, s.last());
        vstd::seq_lib::lemma_multiset_commutative(t.take(k).push(s.last()), t.skip(k));
        vstd::seq_lib::lemma_multiset_commutative(t.take(k), t.skip(k));
        assert(t.take(k) + t.skip(k) =~= t);
        assert(init.push(s.last()) =~= s);
    }
}

/// Whether `o` orders like a sort key: an item listed after another is not
/// also listed before it, and "not after" chains.
pub open spec fn is_total_preorder<T, O: ListingOrder<T>>(o: O) -> bool {
    &&& forall|a: T, b: T| #[trigger] o.spec_after(a, b) ==> !o.spec_after(b, a)
    &&& forall|a: T, b: T, c: T|
        #![trigger o.spec_after(a, b), o.spec_after(b, c)]
        !o.spec_after(a, b) && !o.spec_after(b, c) ==> !o.spec_after(a, c)
}

/// Whether no item of `s` is listed after an item that follows it.
pub open spec fn is_listed_in_order<T, O: ListingOrder<T>>(o: O, s: Seq<T>) -> bool {
    forall|i: int, j: int| 0 <= i < j < s.len() ==> !o.spec_after(#[trigger] s[i], #[trigger] s[j])
}

/// Inserting into a list in order keeps it in order.
proof fn lemma_insert_keeps_order<T, O: ListingOrder<T>>(o: O, t: Seq<T>, x: T)
    requires
        is_total_preorder(o),
        is_listed_in_order(o, t),
    ensures
        is_listed_in_order(o, spec_insert(o, t, x)),
{
    lemma_insert_at(o, t, x);
    let k = spec_insert_at(o, t, x);
    let r = spec_insert(o, t, x);
    assert(r.len() == t.len() + 1);
    assert forall|i: int, j: int| 0 <= i < j < r.len() implies !o.spec_after(#[trigger] r[i], #[trigger] r[j]) by {
        if j < k {
            assert(r[i] == t[i] && r[j] == t[j]);
        } else if j == k {
            assert(r[j] == x);
            assert(r[i] == t[i]);
        } else if i < k {
            assert(r[i] == t[i] && r[j] == t[j - 1]);
        } else if i == k {
            assert(r[i] == x && r[j] == t[j - 1]);
            assert(o.spec_after(t[k], x));
            assert(!o.spec_after(x, t[k]));
            if j - 1 > k {
                assert(!o.spec_after(t[k], t[j - 1]));
            }
        } else {
            assert(r[i] == t[i - 1] && r[j] == t[j - 1]);
        }
    }
}

/// For an order like a sort key, the stable sort lists every item in
/// order.
pub proof fn law_stable_sort_ordered<T, O: ListingOrder<T>>(o: O, s: Seq<T>)
    requires
        is_total_preorder(o),
    ensures
        is_listed_in_order(o, spec_stable_sort(o, s)),
    decreases s.len(),
{
    if s.len() > 0 {
        law_stable_sort_ordered(o, s.drop_last());
        lemma_insert_keeps_order(o, spec_stable_sort(o, s.drop_last()), s.last());
    }
}

/// Sorts items stably in the order `o`.
pub fn stable_sort<T, O: ListingOrder<T>>(o: &O, items: Vec<T>) -> (res: Vec<T>)
    ensures
        res@ == spec_stable_sort(*o, items@),
{
    let ghost orig = items@;
    let n = items.len();
    let mut src = items;
    let mut rest: Vec<T> = Vec::new();
    while src.len() > 0
        invariant
            n == orig.len(),
            src@.len() + rest@.len() == n,
            src@ == orig.take(src@.len() as int),
            forall|j: int| 0 <= j < rest@.len() ==> rest@[j] == orig[n - 1 - j],
        decreases src@.len(),
    {
        let x = src.pop().unwrap();
        proof {
            assert(src@ =~= orig.take(src@.len() as int));
        }
        rest.push(x);
    }
    let mut sorted: Vec<T> = Vec::new();
    let mut i: usize = 0;
    proof {
        assert(orig.take(0) =~= Seq::<T>::empty());
    }
    while i < n
        invariant
            n == orig.len(),
            i <= n,
            rest@.len() == n - i,
            forall|j: int| 0 <= j < n - i ==> rest@[j] == orig[n - 1 - j],
            sorted@ == spec_stable_sort(*o, orig.take(i as int)),
        decreases n - i,
    {
        let x = rest.pop().unwrap();
        assert(x == orig[i as int]);
        let mut j: usize = 0;
        proof {
            lemma_insert_at(*o, sorted@, x);
        }
        while j < sorted.len() && !o.after(&sorted[j], &x)
            invariant
                j <= sorted@.len(),
                j <= spec_insert_at(*o, sorted@, x),
                forall|m: int|
                    0 <= m < spec_insert_at(*o, sorted@, x) ==> !o.spec_after(#[trigger] sorted@[m], x),
                spec_insert_at(*o, sorted@, x) < sorted@.len() ==> o.spec_after(
                    sorted@[spec_insert_at(*o, sorted@, x)],
                    x,
                ),
                0 <= spec_insert_at(*o, sorted@, x) <= sorted@.len(),
            decreases sorted@.len() - j,
        {
            j = j + 1;
        }
        proof {
            assert(j == spec_insert_at(*o, sorted@, x));
            assert(orig.take(i + 1).drop_last() =~= orig.take(i as int));
            assert(orig.take(i + 1).last() == x);
        }
        sorted.insert(j, x);
        i = i + 1;
    }
    proof {
        assert(orig.take(n as int) =~= orig);
    }
    sorted
}

/// One page of items in the order `o`: sorted stably, then `limit` of them
/// (all when 0) after skipping `limit * page`.
pub fn sort_and_page<T, O: ListingOrder<T>>(o: &O, items: Vec<T>, limit: u64, page: u64) -> (res: Vec<T>)
    ensures
        res@ == spec_stable_sort(*o, items@).subrange(
            spec_page_window(items@.len(), limit, page).0,
            spec_page_window(items@.len(), limit, page).1,
        ),
{
    let ghost orig = items@;
    let sorted = stable_sort(o, items);
    proof {
        lemma_stable_sort_len(*o, orig);
    }
    paginate(sorted, limit, page)
}

/// For an order like a sort key, every page of the stably sorted items is
/// in order.
pub proof fn law_sorted_page_in_order<T, O: ListingOrder<T>>(o: O, items: Seq<T>, limit: u64, page: u64)
    requires
        is_total_preorder(o),
    ensures
        is_listed_in_order(
            o,
            spec_stable_sort(o, items).subrange(
                spec_page_window(items.len(), limit, page).0,
                spec_page_window(items.len(), limit, page).1,
            ),
        ),
{
    law_stable_sort_ordered(o, items);
    lemma_stable_sort_len(o, items);
    let sorted = spec_stable_sort(o, items);
    let w = spec_page_window(items.len(), limit, page);
    let p = sorted.subrange(w.0, w.1);
    assert forall|i: int, j: int| 0 <= i < j < p.len() implies !o.spec_after(#[trigger] p[i], #[trigger] p[j]) by {
        assert(p[i] == sorted[w.0 + i] && p[j] == sorted[w.0 + j]);
    }
}

} // verus!
