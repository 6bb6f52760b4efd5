//! Specific permissions (terminal, attach, inspect, logs, processes)
//! and the insertion-ordered set that holds them.

use indexmap::IndexSet;
use vstd::prelude::*;

verus! {

/// Declares `indexmap::IndexSet` to the verifier.
#[verifier::external_type_specification]
#[verifier::external_body]
#[verifier::reject_recursive_types(T)]
#[verifier::reject_recursive_types(S)]
pub struct ExIndexSet<T, S>(IndexSet<T, S>);

/// The items of an `IndexSet<u8>`, in insertion order.
pub uninterp spec fn index_set_items(s: IndexSet<u8>) -> Seq<u8>;

/// `IndexSet::new`: an empty set.
#[verifier::external_body]
fn index_set_new() -> (s: IndexSet<u8>)
    ensures
        index_set_items(s) == Seq::<u8>::empty(),
{
    IndexSet::new()
}

/// `IndexSet::insert`: when the item is already present the set is left
/// as it was (same order) and `false` comes back; otherwise the item is
/// appended at the end and `true` comes back.
#[verifier::external_body]
fn index_set_insert(s: &mut IndexSet<u8>, v: u8) -> (added: bool)
    ensures
        added == !index_set_items(*old(s)).contains(v),
        index_set_items(*final(s)) == if added {
            index_set_items(*old(s)).push(v)
        } else {
            index_set_items(*old(s))
        },
{
    s.insert(v)
}

/// `IndexSet::contains`.
#[verifier::external_body]
fn index_set_contains(s: &IndexSet<u8>, v: u8) -> (res: bool)
    ensures
        res == index_set_items(*s).contains(v),
{
    s.contains(&v)
}

/// `IndexSet::len`.
#[verifier::external_body]
fn index_set_len(s: &IndexSet<u8>) -> (n: usize)
    ensures
        n == index_set_items(*s).len(),
{
    s.len()
}

/// `IndexSet::get_index`, copied out; `None` past the end.
#[verifier::external_body]
fn index_set_get_index(s: &IndexSet<u8>, i: usize) -> (res: Option<u8>)
    ensures
        i < index_set_items(*s).len() ==> res == Some(index_set_items(*s)[i as int]),
        i >= index_set_items(*s).len() ==> res is None,
{
    s.get_index(i).copied()
}

/// `IndexSet::clone`: the same items in the same order.
#[verifier::external_body]
fn index_set_clone(s: &IndexSet<u8>) -> (res: IndexSet<u8>)
    ensures
        index_set_items(res) == index_set_items(*s),
{
    s.clone()
}

/// A permission beyond the level, granted per resource.
#[derive(Clone, Copy, Debug, PartialEq, Eq, Structural, Hash)]
pub enum SpecificPermission {
    /// Open a terminal on the resource's host.
    Terminal,
    /// Attach to the resource's containers.
    Attach,
    /// Inspect the resource's containers and docker objects.
    Inspect,
    /// Read the resource's logs.
    Logs,
    /// List the processes running on the resource's host.
    Processes,
}

/// The code each specific permission is stored under.
pub open spec fn spec_code(p: SpecificPermission) -> u8 {
    match p {
        SpecificPermission::Terminal => 0,
        SpecificPermission::Attach => 1,
        SpecificPermission::Inspect => 2,
        SpecificPermission::Logs => 3,
        SpecificPermission::Processes => 4,
    }
}

/// The specific permission stored under a code (codes are below 5).
pub open spec fn spec_decode(c: u8) -> SpecificPermission {
    if c == 0 {
        SpecificPermission::Terminal
    } else if c == 1 {
        SpecificPermission::Attach
    } else if c == 2 {
        SpecificPermission::Inspect
    } else if c == 3 {
        SpecificPermission::Logs
    } else {
        SpecificPermission::Processes
    }
}

impl SpecificPermission {
    /// The stored code of this permission.
    pub fn code(self) -> (c: u8)
        ensures
            c == spec_code(self),
            c < 5,
            spec_decode(c) == self,
    {
        match self {
            SpecificPermission::Terminal => 0,
            SpecificPermission::Attach => 1,
            SpecificPermission::Inspect => 2,
            SpecificPermission::Logs => 3,
            SpecificPermission::Processes => 4,
        }
    }

    /// The permission stored under `c`.
    pub fn decode(c: u8) -> (p: SpecificPermission)
        requires
            c < 5,
        ensures
            p == spec_decode(c),
            spec_code(p) == c,
    {
        if c == 0 {
            SpecificPermission::Terminal
        } else if c == 1 {
            SpecificPermission::Attach
        } else if c == 2 {
            SpecificPermission::Inspect
        } else if c == 3 {
            SpecificPermission::Logs
        } else {
            SpecificPermission::Processes
        }
    }

    /// The name of the permission as shown in logs and errors.
    pub fn as_str(self) -> (s: &'static str)
        ensures
            s@ == spec_name(self),
    {
        match self {
            SpecificPermission::Terminal => "Terminal",
            SpecificPermission::Attach => "Attach",
            SpecificPermission::Inspect => "Inspect",
            SpecificPermission::Logs => "Logs",
            SpecificPermission::Processes => "Processes",
        }
    }
}

/// The displayed name of a specific permission.
pub open spec fn spec_name(p: SpecificPermission) -> Seq<char> {
    match p {
        SpecificPermission::Terminal => "Terminal"@,
        SpecificPermission::Attach => "Attach"@,
        SpecificPermission::Inspect => "Inspect"@,
        SpecificPermission::Logs => "Logs"@,
        SpecificPermission::Processes => "Processes"@,
    }
}

/// `a` extended by the items of `b` in order, each added only when not
/// already present (what `IndexSet::extend` does).
pub open spec fn seq_extend<T>(a: Seq<T>, b: Seq<T>) -> Seq<T>
    decreases b.len(),
{
    if b.len() == 0 {
        a
    } else {
        let prev = seq_extend(a, b.drop_last());
        if prev.contains(b.last()) {
            prev
        } else {
            prev.push(b.last())
        }
    }
}

/// An insertion-ordered set of specific permissions without repeats.
pub struct SpecificSet {
    items: IndexSet<u8>,
}

impl SpecificSet {
    /// The stored codes, in insertion order.
    pub closed spec fn codes(&self) -> Seq<u8> {
        index_set_items(self.items)
    }

    /// Codes are valid and appear once each.
    #[verifier::type_invariant]
    closed spec fn wf(&self) -> bool {
        &&& self.codes().no_duplicates()
        &&& forall|i: int| 0 <= i < self.codes().len() ==> #[trigger] self.codes()[i] < 5
    }
}

impl View for SpecificSet {
    type V = Seq<SpecificPermission>;

    closed spec fn view(&self) -> Seq<SpecificPermission> {
        self.codes().map_values(|c: u8| spec_decode(c))
    }
}

impl SpecificSet {
    /// The set viewed as codes agrees with the permissions it holds.
    proof fn lemma_view_contains(&self, p: SpecificPermission)
        requires
            self.wf(),
        ensures
            self@.contains(p) == self.codes().contains(spec_code(p)),
            self@.len() == self.codes().len(),
    {
        if self@.contains(p) {
            let i = choose|i: int| 0 <= i < self@.len() && self@[i] == p;
            assert(self.codes()[i] < 5);
            assert(self.codes()[i] == spec_code(p));
        }
        if self.codes().contains(spec_code(p)) {
            let i = choose|i: int| 0 <= i < self.codes().len() && self.codes()[i] == spec_code(p);
            assert(self@[i] == p);
        }
    }

    /// An empty set.
    pub fn new() -> (s: SpecificSet)
        ensures
            s@ == Seq::<SpecificPermission>::empty(),
    {
        let s = SpecificSet { items: index_set_new() };
        assert(s@ =~= Seq::<SpecificPermission>::empty());
        s
    }

    /// Number of permissions held.
    pub fn len(&self) -> (n: usize)
        ensures
            n == self@.len(),
    {
        index_set_len(&self.items)
    }

    /// Whether `p` is held.
    pub fn contains(&self, p: SpecificPermission) -> (res: bool)
        ensures
            res == self@.contains(p),
    {
        proof {
            use_type_invariant(self);
            self.lemma_view_contains(p);
        }
        index_set_contains(&self.items, p.code())
    }

    /// The permission at position `i` in insertion order.
    pub fn get(&self, i: usize) -> (p: SpecificPermission)
        requires
            i < self@.len(),
        ensures
            p == self@[i as int],
    {
        proof {
            use_type_invariant(self);
        }
        let c = index_set_get_index(&self.items, i);
        match c {
            Some(c) => {
                assert(self.codes()[i as int] < 5);
                SpecificPermission::decode(c)
            },
            None => {
                assert(false);
                SpecificPermission::Terminal
            },
        }
    }

    /// Adds `p` at the end when it is not held; returns whether it was added.
    pub fn insert(&mut self, p: SpecificPermission) -> (added: bool)
        ensures
            added == !old(self)@.contains(p),
            final(self)@ == if added { old(self)@.push(p) } else { old(self)@ },
    {
        proof {
            use_type_invariant(&*self);
            self.lemma_view_contains(p);
        }
        let c = p.code();
        let ghost old_codes = self.codes();
        let mut items = index_set_new();
        std::mem::swap(&mut items, &mut self.items);
        let added = index_set_insert(&mut items, c);
        self.items = items;
        proof {
            assert(self.codes().no_duplicates());
            assert forall|i: int| 0 <= i < self.codes().len() implies #[trigger] self.codes()[i] < 5 by {
                if i < old_codes.len() {
                    assert(self.codes()[i] == old_codes[i]);
                }
            }
            if added {
                assert(self@ =~= old(self)@.push(p));
            }
        }
        added
    }

    /// A copy holding the same permissions in the same order.
    pub fn duplicate(&self) -> (res: SpecificSet)
        ensures
            res@ == self@,
    {
        proof {
            use_type_invariant(self);
        }
        SpecificSet { items: index_set_clone(&self.items) }
    }

    /// Adds every permission of `other` in order, skipping those already held.
    pub fn extend(&mut self, other: &SpecificSet)
        ensures
            final(self)@ == seq_extend(old(self)@, other@),
    {
        let n = other.len();
        let mut i: usize = 0;
        while i < n
            invariant
                n == other@.len(),
                i <= n,
                self@ == seq_extend(old(self)@, other@.take(i as int)),
            decreases n - i,
        {
            let p = other.get(i);
            self.insert(p);
            proof {
                let t = other@.take(i + 1);
                assert(t.drop_last() =~= other@.take(i as int));
                assert(t.last() == p);
            }
            i = i + 1;
        }
        proof {
            assert(other@.take(n as int) =~= other@);
        }
    }

    /// All specific permissions, in declaration order.
    pub fn all() -> (s: SpecificSet)
        ensures
            s@ == spec_all_specifics(),
    {
        let mut s = SpecificSet::new();
        s.insert(SpecificPermission::Terminal);
        s.insert(SpecificPermission::Attach);
        s.insert(SpecificPermission::Inspect);
        s.insert(SpecificPermission::Logs);
        s.insert(SpecificPermission::Processes);
        assert(s@ =~= spec_all_specifics());
        s
    }

    /// A set holding only `p`.
    pub fn single(p: SpecificPermission) -> (s: SpecificSet)
        ensures
            s@ == seq![p],
    {
        let mut s = SpecificSet::new();
        s.insert(p);
        assert(s@ =~= seq![p]);
        s
    }
}

/// Every specific permission, in declaration order.
pub open spec fn spec_all_specifics() -> Seq<SpecificPermission> {
    seq![
        SpecificPermission::Terminal,
        SpecificPermission::Attach,
        SpecificPermission::Inspect,
        SpecificPermission::Logs,
        SpecificPermission::Processes,
    ]
}

} // verus!
