//! Listing the containers of every server a user can read: filtering by
//! state and name terms, sorting by a column, and paging.

use crate::listing::{paginate, spec_page_window};
use crate::schedule::{lemma_text_order_facts, spec_text_order, text_order};
use crate::sorting::{
    is_listed_in_order, is_total_preorder, law_stable_sort_ordered, law_stable_sort_permutes,
    lemma_stable_sort_len, spec_stable_sort, stable_sort, ListingOrder,
};
use crate::permission::target::ResourceTarget;
use crate::summary::ContainerStateStatusEnum;
use vstd::prelude::*;

verus! {

/// A container as the server status cache lists it.
#[derive(Clone, Debug)]
pub struct ContainerListItem {
    pub name: String,
    pub server_name: Option<String>,
    pub state: ContainerStateStatusEnum,
    pub image: Option<String>,
    pub networks: Vec<String>,
    /// The private port of each published port, in order.
    pub ports: Vec<u16>,
    pub volumes: Vec<String>,
}

/// The columns containers can be sorted by.
#[derive(Clone, Copy, Debug, PartialEq, Eq, Structural)]
pub enum ContainerSortBy {
    Name,
    Server,
    State,
    Image,
    Networks,
    Ports,
    Volumes,
}

/// A request for the containers of all readable servers.
#[derive(Clone, Debug)]
pub struct ListAllContainers {
    pub servers: Vec<String>,
    pub tags: Vec<String>,
    pub terms: Vec<String>,
    pub state: Vec<ContainerStateStatusEnum>,
    pub page: u64,
    pub limit: Option<u64>,
    pub sort_by: ContainerSortBy,
    pub sort_desc: bool,
}

/// What `str::to_lowercase` gives for a text.
pub uninterp spec fn lowercased(text: Seq<char>) -> Seq<char>;

/// Lowercases a text with `str::to_lowercase`.
#[verifier::external_body]
fn to_lowercase(text: &str) -> (res: String)
    ensures
        res@ == lowercased(text@),
{
    text.to_lowercase()
}

/// Whether `needle` occurs in `hay`.
pub open spec fn spec_contains_text(hay: Seq<char>, needle: Seq<char>) -> bool {
    exists|i: int|
        0 <= i <= hay.len() - needle.len() && #[trigger] hay.subrange(i, i + needle.len()) == needle
}

/// Whether `needle` occurs at position `i` of `hay`.
fn occurs_at(hay: &[char], needle: &[char], i: usize) -> (res: bool)
    requires
        i + needle@.len() <= hay@.len(),
    ensures
        res == (hay@.subrange(i as int, i + needle@.len()) == needle@),
{
    let _hay_len = hay.len();
    let mut k: usize = 0;
    while k < needle.len()
        invariant
            k <= needle@.len(),
            i + needle@.len() <= hay@.len(),
            hay@.len() <= usize::MAX,
            forall|m: int| 0 <= m < k ==> hay@[i + m] == needle@[m],
        decreases needle@.len() - k,
    {
        if hay[i + k] != needle[k] {
            proof {
                assert(hay@.subrange(i as int, i + needle@.len())[k as int] != needle@[k as int]);
            }
            return false;
        }
        k = k + 1;
    }
    assert(hay@.subrange(i as int, i + needle@.len()) =~= needle@);
    true
}

/// Whether `needle` occurs in `hay`.
pub fn contains_text(hay: &[char], needle: &[char]) -> (res: bool)
    ensures
        res == spec_contains_text(hay@, needle@),
{
    if needle.len() > hay.len() {
        return false;
    }
    if needle.len() == 0 {
        assert(hay@.subrange(0, 0 + needle@.len() as int) =~= needle@);
        return true;
    }
    let hay_len = hay.len();
    let last = hay_len - needle.len();
    let mut i: usize = 0;
    while i <= last
        invariant
            last == hay@.len() - needle@.len(),
            hay_len == hay@.len(),
            needle@.len() >= 1,
            last < hay@.len(),
            i <= last + 1,
            forall|j: int| 0 <= j < i ==> #[trigger] hay@.subrange(j, j + needle@.len()) != needle@,
        decreases last + 1 - i,
    {
        if occurs_at(hay, needle, i) {
            return true;
        }
        i = i + 1;
    }
    false
}

/// Whether a container passes the listing's filters: its state is one of
/// `states` (any state when none is given), and its lowercased name holds
/// every lowercased term.
pub open spec fn spec_container_matches(
    states: Seq<ContainerStateStatusEnum>,
    terms: Seq<String>,
    c: ContainerListItem,
) -> bool {
    &&& (states.len() == 0 || states.contains(c.state))
    &&& forall|t: int|
        0 <= t < terms.len() ==> spec_contains_text(lowercased(c.name@), lowercased(#[trigger] terms[t]@))
}

/// Whether a state is among `states`.
fn state_listed(states: &[ContainerStateStatusEnum], s: ContainerStateStatusEnum) -> (res: bool)
    ensures
        res == states@.contains(s),
{
    let mut i: usize = 0;
    while i < states.len()
        invariant
            i <= states@.len(),
            forall|j: int| 0 <= j < i ==> states@[j] != s,
        decreases states@.len() - i,
    {
        if states[i] == s {
            return true;
        }
        i = i + 1;
    }
    false
}

/// The containers that pass the listing's filters, in the order given.
pub fn filter_containers(
    items: Vec<ContainerListItem>,
    states: &[ContainerStateStatusEnum],
    terms: &[String],
) -> (res: Vec<ContainerListItem>)
    ensures
        res@ == items@.filter(|c: ContainerListItem| spec_container_matches(states@, terms@, c)),
{
    let ghost keep = |c: ContainerListItem| spec_container_matches(states@, terms@, c);
    let mut lowered: Vec<Vec<char>> = Vec::new();
    let mut t: usize = 0;
    while t < terms.len()
        invariant
            t <= terms@.len(),
            lowered@.len() == t,
            forall|m: int| 0 <= m < t ==> (#[trigger] lowered@[m])@ == lowercased(terms@[m]@),
        decreases terms@.len() - t,
    {
        let l = to_lowercase(terms[t].as_str());
        lowered.push(crate::text::str_chars(l.as_str()));
        t = t + 1;
    }
    let ghost orig = items@;
    let n = items.len();
    let mut src = items;
    let mut rest: Vec<ContainerListItem> = Vec::new();
    while src.len() > 0
        invariant
            n == orig.len(),
            src@.len() + rest@.len() == n,
            src@ == orig.take(src@.len() as int),
            forall|j: int| 0 <= j < rest@.len() ==> rest@[j] == orig[n - 1 - j],
        decreases src@.len(),
    {
        let x = src.pop().unwrap();
        proof {
            assert(src@ =~= orig.take(src@.len() as int));
        }
        rest.push(x);
    }
    let mut out: Vec<ContainerListItem> = Vec::new();
    let mut i: usize = 0;
    proof {
        assert(orig.take(0) =~= Seq::<ContainerListItem>::empty());
    }
    while i < n
        invariant
            n == orig.len(),
            i <= n,
            rest@.len() == n - i,
            forall|j: int| 0 <= j < n - i ==> rest@[j] == orig[n - 1 - j],
            lowered@.len() == terms@.len(),
            forall|m: int| 0 <= m < terms@.len() ==> (#[trigger] lowered@[m])@ == lowercased(terms@[m]@),
            keep == (|c: ContainerListItem| spec_container_matches(states@, terms@, c)),
            out@ == orig.take(i as int).filter(keep),
        decreases n - i,
    {
        let c = rest.pop().unwrap();
        assert(c == orig[i as int]);
        let mut ok = states.len() == 0 || state_listed(states, c.state);
        if ok {
            let name = to_lowercase(c.name.as_str());
            let name_chars = crate::text::str_chars(name.as_str());
            let mut k: usize = 0;
            while k < lowered.len() && contains_text(name_chars.as_slice(), lowered[k].as_slice())
                invariant
                    k <= lowered@.len(),
                    lowered@.len() == terms@.len(),
                    name_chars@ == lowercased(c.name@),
                    forall|m: int| 0 <= m < terms@.len() ==> (#[trigger] lowered@[m])@ == lowercased(terms@[m]@),
                    forall|m: int|
                        0 <= m < k ==> spec_contains_text(lowercased(c.name@), lowercased(#[trigger] terms@[m]@)),
                decreases lowered@.len() - k,
            {
                k = k + 1;
            }
            ok = k == lowered.len();
        }
        proof {
            assert(orig.take(i + 1).drop_last() =~= orig.take(i as int));
            assert(ok == keep(c));
            orig.take(i as int).lemma_filter_push(c, keep);
            assert(orig.take(i as int).push(c) =~= orig.take(i + 1));
        }
        if ok {
            out.push(c);
        }
        i = i + 1;
    }
    assert(orig.take(n as int) =~= orig);
    out
}

/// How two optional texts order: none first, then by text.
pub open spec fn spec_opt_text_order(a: Option<Seq<char>>, b: Option<Seq<char>>) -> int {
    match (a, b) {
        (Some(x), Some(y)) => spec_text_order(x, y),
        (Some(_), None) => 1,
        (None, Some(_)) => -1,
        (None, None) => 0,
    }
}

/// How two optional texts order.
fn opt_text_order(a: Option<&String>, b: Option<&String>) -> (res: i8)
    ensures
        res == spec_opt_text_order(
            match a {
                Some(x) => Some(x@),
                None => None,
            },
            match b {
                Some(y) => Some(y@),
                None => None,
            },
        ),
{
    match (a, b) {
        (Some(x), Some(y)) => text_order(x.as_str(), y.as_str()),
        (Some(_), None) => 1,
        (None, Some(_)) => -1,
        (None, None) => 0,
    }
}

/// The text of an optional string.
pub open spec fn opt_text(s: Option<String>) -> Option<Seq<char>> {
    match s {
        Some(v) => Some(v@),
        None => None,
    }
}

/// The first of a list of texts, if any.
pub open spec fn first_text(v: Seq<String>) -> Option<Seq<char>> {
    if v.len() > 0 {
        Some(v[0]@)
    } else {
        None
    }
}

/// The first of a list of ports, if any.
pub open spec fn first_port(v: Seq<u16>) -> Option<u16> {
    if v.len() > 0 {
        Some(v[0])
    } else {
        None
    }
}

/// The rank of a container state, in declaration order.
pub open spec fn spec_state_rank(s: ContainerStateStatusEnum) -> int {
    match s {
        ContainerStateStatusEnum::Empty => 0,
        ContainerStateStatusEnum::Created => 1,
        ContainerStateStatusEnum::Running => 2,
        ContainerStateStatusEnum::Paused => 3,
        ContainerStateStatusEnum::Restarting => 4,
        ContainerStateStatusEnum::Removing => 5,
        ContainerStateStatusEnum::Exited => 6,
        ContainerStateStatusEnum::Dead => 7,
    }
}

/// The rank of a container state.
fn state_rank(s: ContainerStateStatusEnum) -> (r: u8)
    ensures
        r == spec_state_rank(s),
{
    match s {
        ContainerStateStatusEnum::Empty => 0,
        ContainerStateStatusEnum::Created => 1,
        ContainerStateStatusEnum::Running => 2,
        ContainerStateStatusEnum::Paused => 3,
        ContainerStateStatusEnum::Restarting => 4,
        ContainerStateStatusEnum::Removing => 5,
        ContainerStateStatusEnum::Exited => 6,
        ContainerStateStatusEnum::Dead => 7,
    }
}

/// How two numbers order: -1, 0 or 1.
pub open spec fn spec_num_order(a: int, b: int) -> int {
    if a < b {
        -1
    } else if a > b {
        1
    } else {
        0
    }
}

/// How two containers order by a column, then by name. Missing values
/// (no server name, image, network, port or volume) come first.
pub open spec fn spec_container_order(sort_by: ContainerSortBy, a: ContainerListItem, b: ContainerListItem) -> int {
    let key = match sort_by {
        ContainerSortBy::Name => spec_text_order(a.name@, b.name@),
        ContainerSortBy::Server => spec_opt_text_order(opt_text(a.server_name), opt_text(b.server_name)),
        ContainerSortBy::State => spec_num_order(spec_state_rank(a.state), spec_state_rank(b.state)),
        ContainerSortBy::Image => spec_opt_text_order(opt_text(a.image), opt_text(b.image)),
        ContainerSortBy::Networks => spec_opt_text_order(first_text(a.networks@), first_text(b.networks@)),
        ContainerSortBy::Ports => match (first_port(a.ports@), first_port(b.ports@)) {
            (Some(x), Some(y)) => spec_num_order(x as int, y as int),
            (Some(_), None) => 1,
            (None, Some(_)) => -1,
            (None, None) => 0,
        },
        ContainerSortBy::Volumes => spec_opt_text_order(first_text(a.volumes@), first_text(b.volumes@)),
    };
    if key != 0 {
        key
    } else {
        spec_text_order(a.name@, b.name@)
    }
}

/// How two containers order by a column, then by name.
pub fn container_order(sort_by: ContainerSortBy, a: &ContainerListItem, b: &ContainerListItem) -> (res: i8)
    ensures
        res == spec_container_order(sort_by, *a, *b),
{
    let key: i8 = match sort_by {
        ContainerSortBy::Name => text_order(a.name.as_str(), b.name.as_str()),
        ContainerSortBy::Server => opt_text_order(a.server_name.as_ref(), b.server_name.as_ref()),
        ContainerSortBy::State => {
            let (x, y) = (state_rank(a.state), state_rank(b.state));
            if x < y {
                -1
            } else if x > y {
                1
            } else {
                0
            }
        },
        ContainerSortBy::Image => opt_text_order(a.image.as_ref(), b.image.as_ref()),
        ContainerSortBy::Networks => opt_text_order(a.networks.first(), b.networks.first()),
        ContainerSortBy::Ports => match (a.ports.first(), b.ports.first()) {
            (Some(x), Some(y)) => if *x < *y {
                -1
            } else if *x > *y {
                1
            } else {
                0
            },
            (Some(_), None) => 1,
            (None, Some(_)) => -1,
            (None, None) => 0,
        },
        ContainerSortBy::Volumes => opt_text_order(a.volumes.first(), b.volumes.first()),
    };
    if key != 0 {
        key
    } else {
        text_order(a.name.as_str(), b.name.as_str())
    }
}

/// The listing order of containers for a column and direction.
#[derive(Clone, Copy, Debug)]
pub struct ContainerOrder {
    pub sort_by: ContainerSortBy,
    pub desc: bool,
}

impl ListingOrder<ContainerListItem> for ContainerOrder {
    open spec fn spec_after(&self, a: ContainerListItem, b: ContainerListItem) -> bool {
        if self.desc {
            spec_container_order(self.sort_by, b, a) > 0
        } else {
            spec_container_order(self.sort_by, a, b) > 0
        }
    }

    fn after(&self, a: &ContainerListItem, b: &ContainerListItem) -> (res: bool) {
        if self.desc {
            container_order(self.sort_by, b, a) > 0
        } else {
            container_order(self.sort_by, a, b) > 0
        }
    }
}

/// The containers a request lists, from those of the readable servers in
/// order: the ones passing its filters, sorted stably by its column, and the
/// page it asks for (`limit` per page, all when 0).
pub open spec fn spec_list_all_containers(
    candidates: Seq<ContainerListItem>,
    req: ListAllContainers,
    limit: u64,
) -> Seq<ContainerListItem> {
    let kept = candidates.filter(|c: ContainerListItem| spec_container_matches(req.state@, req.terms@, c));
    let sorted = spec_stable_sort(ContainerOrder { sort_by: req.sort_by, desc: req.sort_desc }, kept);
    let w = spec_page_window(kept.len(), limit, req.page);
    sorted.subrange(w.0, w.1)
}

/// Lists the containers of the readable servers for a request; `limit` is
/// its page size as the listing limit gives it.
pub fn list_all_containers(candidates: Vec<ContainerListItem>, req: &ListAllContainers, limit: u64) -> (res:
    Vec<ContainerListItem>)
    ensures
        res@ == spec_list_all_containers(candidates@, *req, limit),
{
    let kept = filter_containers(candidates, req.state.as_slice(), req.terms.as_slice());
    let order = ContainerOrder { sort_by: req.sort_by, desc: req.sort_desc };
    let ghost kept_view = kept@;
    let sorted = stable_sort(&order, kept);
    proof {
        lemma_stable_sort_len(order, kept_view);
    }
    paginate(sorted, limit, req.page)
}

/// The order facts of three optional texts: each pair flips, and every
/// chain through the third holds.
proof fn lemma_opt_text_order_facts(a: Option<Seq<char>>, b: Option<Seq<char>>, c: Option<Seq<char>>)
    ensures
        spec_opt_text_order(a, b) == -spec_opt_text_order(b, a),
        spec_opt_text_order(b, c) == -spec_opt_text_order(c, b),
        spec_opt_text_order(a, c) == -spec_opt_text_order(c, a),
        spec_opt_text_order(a, b) <= 0 && spec_opt_text_order(b, c) <= 0 ==> spec_opt_text_order(a, c) <= 0,
        spec_opt_text_order(a, c) <= 0 && spec_opt_text_order(c, b) <= 0 ==> spec_opt_text_order(a, b) <= 0,
        spec_opt_text_order(b, a) <= 0 && spec_opt_text_order(a, c) <= 0 ==> spec_opt_text_order(b, c) <= 0,
        spec_opt_text_order(b, c) <= 0 && spec_opt_text_order(c, a) <= 0 ==> spec_opt_text_order(b, a) <= 0,
        spec_opt_text_order(c, a) <= 0 && spec_opt_text_order(a, b) <= 0 ==> spec_opt_text_order(c, b) <= 0,
        spec_opt_text_order(c, b) <= 0 && spec_opt_text_order(b, a) <= 0 ==> spec_opt_text_order(c, a) <= 0,
{
    let x = match a {
        Some(v) => v,
        None => Seq::<char>::empty(),
    };
    let y = match b {
        Some(v) => v,
        None => Seq::<char>::empty(),
    };
    let z = match c {
        Some(v) => v,
        None => Seq::<char>::empty(),
    };
    lemma_text_order_facts(x, y, z);
}

/// Container order flips with its arguments, and chains.
proof fn lemma_container_order_facts(
    sort_by: ContainerSortBy,
    a: ContainerListItem,
    b: ContainerListItem,
    c: ContainerListItem,
)
    ensures
        spec_container_order(sort_by, a, b) == -spec_container_order(sort_by, b, a),
        spec_container_order(sort_by, a, b) <= 0 && spec_container_order(sort_by, b, c) <= 0
            ==> spec_container_order(sort_by, a, c) <= 0,
{
    lemma_text_order_facts(a.name@, b.name@, c.name@);
    lemma_opt_text_order_facts(opt_text(a.server_name), opt_text(b.server_name), opt_text(c.server_name));
    lemma_opt_text_order_facts(opt_text(a.image), opt_text(b.image), opt_text(c.image));
    lemma_opt_text_order_facts(first_text(a.networks@), first_text(b.networks@), first_text(c.networks@));
    lemma_opt_text_order_facts(first_text(a.volumes@), first_text(b.volumes@), first_text(c.volumes@));
}

/// The listing order of containers orders like a sort key, in either
/// direction.
pub proof fn lemma_container_order_is_preorder(sort_by: ContainerSortBy, desc: bool)
    ensures
        is_total_preorder(ContainerOrder { sort_by, desc }),
{
    let o = ContainerOrder { sort_by, desc };
    assert forall|a: ContainerListItem, b: ContainerListItem| #[trigger] o.spec_after(a, b) implies !o.spec_after(
        b,
        a,
    ) by {
        lemma_container_order_facts(sort_by, a, b, b);
    }
    assert forall|a: ContainerListItem, b: ContainerListItem, c: ContainerListItem|
        !o.spec_after(a, b) && !o.spec_after(b, c) implies !o.spec_after(a, c) by {
        lemma_container_order_facts(sort_by, a, b, c);
        lemma_container_order_facts(sort_by, c, b, a);
    }
}

/// A listed page of containers passes the filters and is in the requested
/// order.
pub proof fn law_containers_listed_in_order(candidates: Seq<ContainerListItem>, req: ListAllContainers, limit: u64)
    ensures
        is_listed_in_order(
            ContainerOrder { sort_by: req.sort_by, desc: req.sort_desc },
            spec_list_all_containers(candidates, req, limit),
        ),
        forall|i: int|
            0 <= i < spec_list_all_containers(candidates, req, limit).len() ==> spec_container_matches(
                req.state@,
                req.terms@,
                #[trigger] spec_list_all_containers(candidates, req, limit)[i],
            ),
{
    broadcast use vstd::seq_lib::group_filter_ensures, vstd::seq_lib::group_to_multiset_ensures;

    let o = ContainerOrder { sort_by: req.sort_by, desc: req.sort_desc };
    let keep = |c: ContainerListItem| spec_container_matches(req.state@, req.terms@, c);
    let kept = candidates.filter(keep);
    lemma_container_order_is_preorder(req.sort_by, req.sort_desc);
    law_stable_sort_ordered(o, kept);
    law_stable_sort_permutes(o, kept);
    lemma_stable_sort_len(o, kept);
    let sorted = spec_stable_sort(o, kept);
    let w = spec_page_window(kept.len(), limit, req.page);
    let page = sorted.subrange(w.0, w.1);
    assert(page == spec_list_all_containers(candidates, req, limit));
    assert forall|i: int, j: int| 0 <= i < j < page.len() implies !o.spec_after(
        #[trigger] page[i],
        #[trigger] page[j],
    ) by {
        assert(page[i] == sorted[w.0 + i] && page[j] == sorted[w.0 + j]);
    }
    assert forall|i: int| 0 <= i < page.len() implies spec_container_matches(
        req.state@,
        req.terms@,
        #[trigger] page[i],
    ) by {
        let x = page[i];
        assert(x == sorted[w.0 + i]);
        assert(sorted.to_multiset().count(x) > 0);
        assert(kept.to_multiset().count(x) > 0);
        assert(kept.contains(x));
        let k = choose|k: int| 0 <= k < kept.len() && kept[k] == x;
        assert(keep(kept[k]));
    }
}

/// The container states in the order they are declared: Empty, Created,
/// Running, Paused, Restarting, Removing, Exited, Dead.
pub open spec fn container_states_declared() -> Seq<ContainerStateStatusEnum> {
    seq![
        ContainerStateStatusEnum::Empty,
        ContainerStateStatusEnum::Created,
        ContainerStateStatusEnum::Running,
        ContainerStateStatusEnum::Paused,
        ContainerStateStatusEnum::Restarting,
        ContainerStateStatusEnum::Removing,
        ContainerStateStatusEnum::Exited,
        ContainerStateStatusEnum::Dead,
    ]
}

/// Whether state `a` is declared before state `b`.
pub open spec fn state_declared_before(a: ContainerStateStatusEnum, b: ContainerStateStatusEnum) -> bool {
    exists|i: int, j: int|
        0 <= i < j < 8 && container_states_declared()[i] == a && container_states_declared()[j] == b
}

/// The position of a state among the declared states.
proof fn lemma_state_rank_is_position(s: ContainerStateStatusEnum)
    ensures
        0 <= spec_state_rank(s) < 8,
        container_states_declared()[spec_state_rank(s)] == s,
{
}

/// One state is declared before another exactly when its position is lower.
proof fn lemma_declared_before_rank(a: ContainerStateStatusEnum, b: ContainerStateStatusEnum)
    ensures
        state_declared_before(a, b) <==> spec_state_rank(a) < spec_state_rank(b),
{
    lemma_state_rank_is_position(a);
    lemma_state_rank_is_position(b);
    if spec_state_rank(a) < spec_state_rank(b) {
        assert(container_states_declared()[spec_state_rank(a)] == a);
    }
    if state_declared_before(a, b) {
        let (i, j) = choose|i: int, j: int|
            0 <= i < j < 8 && container_states_declared()[i] == a && container_states_declared()[j] == b;
        assert(container_states_declared()[i] == a);
        assert(i == spec_state_rank(a)) by {
            assert(container_states_declared()[0] == ContainerStateStatusEnum::Empty);
        }
    }
}

/// Sorting by state orders two containers in different states by the order
/// their states are declared in: the one whose state comes first is first.
pub proof fn law_state_column_follows_declaration(a: ContainerListItem, b: ContainerListItem)
    ensures
        state_declared_before(a.state, b.state) ==> spec_container_order(ContainerSortBy::State, a, b) < 0,
        state_declared_before(b.state, a.state) ==> spec_container_order(ContainerSortBy::State, a, b) > 0,
{
    lemma_declared_before_rank(a.state, b.state);
    lemma_declared_before_rank(b.state, a.state);
}

/// A page of containers sorted by state lists no container before one whose
/// state is declared earlier (later, when sorting descending).
pub proof fn law_containers_by_state_listed_in_declared_order(
    candidates: Seq<ContainerListItem>,
    req: ListAllContainers,
    limit: u64,
)
    requires
        req.sort_by == ContainerSortBy::State,
    ensures
        forall|i: int, j: int|
            0 <= i < j < spec_list_all_containers(candidates, req, limit).len() ==> if req.sort_desc {
                !state_declared_before(
                    (#[trigger] spec_list_all_containers(candidates, req, limit)[i]).state,
                    (#[trigger] spec_list_all_containers(candidates, req, limit)[j]).state,
                )
            } else {
                !state_declared_before(
                    spec_list_all_containers(candidates, req, limit)[j].state,
                    spec_list_all_containers(candidates, req, limit)[i].state,
                )
            },
{
    law_containers_listed_in_order(candidates, req, limit);
    let page = spec_list_all_containers(candidates, req, limit);
    let o = ContainerOrder { sort_by: req.sort_by, desc: req.sort_desc };
    assert forall|i: int, j: int| 0 <= i < j < page.len() implies if req.sort_desc {
        !state_declared_before((#[trigger] page[i]).state, (#[trigger] page[j]).state)
    } else {
        !state_declared_before(page[j].state, page[i].state)
    } by {
        assert(!o.spec_after(page[i], page[j]));
        law_state_column_follows_declaration(page[i], page[j]);
        law_state_column_follows_declaration(page[j], page[i]);
    }
}

/// How an optional text column orders two containers `a` and `b` whose
/// values are `x` and `y`: a missing value before a present one, two present
/// ones by their text order when that differs, and otherwise by name.
pub open spec fn optional_text_column_ok(
    order: int,
    x: Option<Seq<char>>,
    y: Option<Seq<char>>,
    a: ContainerListItem,
    b: ContainerListItem,
) -> bool {
    &&& (x is None && y is Some) ==> order < 0
    &&& (x is Some && y is None) ==> order > 0
    &&& (x is Some && y is Some && spec_text_order(x->0, y->0) != 0) ==> order == spec_text_order(x->0, y->0)
    &&& (x == y) ==> order == spec_text_order(a.name@, b.name@)
}

/// Each column orders containers by its own value, with a missing value
/// (no server, image, network, port or volume) first, and by name where the
/// values are equal; sorting by name orders by name.
pub proof fn law_container_columns(a: ContainerListItem, b: ContainerListItem)
    ensures
        spec_container_order(ContainerSortBy::Name, a, b) == spec_text_order(a.name@, b.name@),
        optional_text_column_ok(
            spec_container_order(ContainerSortBy::Server, a, b),
            opt_text(a.server_name),
            opt_text(b.server_name),
            a,
            b,
        ),
        optional_text_column_ok(
            spec_container_order(ContainerSortBy::Image, a, b),
            opt_text(a.image),
            opt_text(b.image),
            a,
            b,
        ),
        optional_text_column_ok(
            spec_container_order(ContainerSortBy::Networks, a, b),
            if a.networks@.len() > 0 { Some(a.networks@[0]@) } else { None },
            if b.networks@.len() > 0 { Some(b.networks@[0]@) } else { None },
            a,
            b,
        ),
        optional_text_column_ok(
            spec_container_order(ContainerSortBy::Volumes, a, b),
            if a.volumes@.len() > 0 { Some(a.volumes@[0]@) } else { None },
            if b.volumes@.len() > 0 { Some(b.volumes@[0]@) } else { None },
            a,
            b,
        ),
        a.ports@.len() == 0 && b.ports@.len() > 0 ==> spec_container_order(ContainerSortBy::Ports, a, b) < 0,
        a.ports@.len() > 0 && b.ports@.len() == 0 ==> spec_container_order(ContainerSortBy::Ports, a, b) > 0,
        a.ports@.len() > 0 && b.ports@.len() > 0 && a.ports@[0] < b.ports@[0] ==> spec_container_order(
            ContainerSortBy::Ports,
            a,
            b,
        ) < 0,
        a.ports@.len() > 0 && b.ports@.len() > 0 && a.ports@[0] > b.ports@[0] ==> spec_container_order(
            ContainerSortBy::Ports,
            a,
            b,
        ) > 0,
        a.state == b.state ==> spec_container_order(ContainerSortBy::State, a, b) == spec_text_order(
            a.name@,
            b.name@,
        ),
{
    lemma_text_order_facts(a.name@, b.name@, b.name@);
    if let (Some(x), Some(y)) = (a.server_name, b.server_name) {
        lemma_text_order_facts(x@, y@, y@);
    }
    if let (Some(x), Some(y)) = (a.image, b.image) {
        lemma_text_order_facts(x@, y@, y@);
    }
    if a.networks@.len() > 0 && b.networks@.len() > 0 {
        lemma_text_order_facts(a.networks@[0]@, b.networks@[0]@, b.networks@[0]@);
    }
    if a.volumes@.len() > 0 && b.volumes@.len() > 0 {
        lemma_text_order_facts(a.volumes@[0]@, b.volumes@[0]@, b.volumes@[0]@);
    }
}

/// Containers listed ascending put a container after another exactly when
/// its column orders it later; descending, exactly when it orders earlier.
pub proof fn law_container_directions(sort_by: ContainerSortBy, a: ContainerListItem, b: ContainerListItem)
    ensures
        (ContainerOrder { sort_by, desc: false }).spec_after(a, b) <==> spec_container_order(sort_by, a, b) > 0,
        (ContainerOrder { sort_by, desc: true }).spec_after(a, b) <==> spec_container_order(sort_by, a, b) < 0,
{
    lemma_container_order_facts(sort_by, a, b, b);
}

/// Filtering by a predicate every item meets keeps every item.
proof fn lemma_filter_keeps_all(s: Seq<ContainerListItem>, keep: spec_fn(ContainerListItem) -> bool)
    requires
        forall|k: int| 0 <= k < s.len() ==> keep(#[trigger] s[k]),
    ensures
        s.filter(keep) == s,
    decreases s.len(),
{
    reveal(Seq::filter);
    if s.len() > 0 {
        assert forall|k: int| 0 <= k < s.drop_last().len() implies keep(#[trigger] s.drop_last()[k]) by {
            assert(s.drop_last()[k] == s[k]);
        }
        lemma_filter_keeps_all(s.drop_last(), keep);
        assert(keep(s[s.len() - 1]));
        assert(s.drop_last().push(s.last()) =~= s);
    }
}

/// Without a state filter, terms or a page size, every container is
/// listed, each as many times as it was given.
pub proof fn law_unfiltered_listing_keeps_every_container(candidates: Seq<ContainerListItem>, req: ListAllContainers)
    requires
        req.state@.len() == 0,
        req.terms@.len() == 0,
    ensures
        spec_list_all_containers(candidates, req, 0).to_multiset() == candidates.to_multiset(),
{
    let keep = |c: ContainerListItem| spec_container_matches(req.state@, req.terms@, c);
    assert forall|k: int| 0 <= k < candidates.len() implies keep(#[trigger] candidates[k]) by {}
    lemma_filter_keeps_all(candidates, keep);
    let o = ContainerOrder { sort_by: req.sort_by, desc: req.sort_desc };
    law_stable_sort_permutes(o, candidates);
    lemma_stable_sort_len(o, candidates);
    let sorted = spec_stable_sort(o, candidates);
    assert(sorted.subrange(0, candidates.len() as int) =~= sorted);
}

/// A container with a state filter is listed only if its state is one of
/// those asked for.
pub proof fn law_listed_containers_have_a_requested_state(
    candidates: Seq<ContainerListItem>,
    req: ListAllContainers,
    limit: u64,
    i: int,
)
    requires
        req.state@.len() > 0,
        0 <= i < spec_list_all_containers(candidates, req, limit).len(),
    ensures
        req.state@.contains(spec_list_all_containers(candidates, req, limit)[i].state),
{
    law_containers_listed_in_order(candidates, req, limit);
}

/// The most log lines a container log request returns.
pub const MAX_LOG_LENGTH: u64 = 5000;

/// The number of log lines a container log request asks for when it names
/// none.
pub fn default_tail() -> (res: u64)
    ensures
        res == 100,
{
    100
}

/// The number of log lines actually requested: the asked number, at most
/// `MAX_LOG_LENGTH`.
pub fn capped_tail(tail: u64) -> (res: u64)
    ensures
        res == if tail < MAX_LOG_LENGTH {
            tail
        } else {
            MAX_LOG_LENGTH
        },
{
    if tail < MAX_LOG_LENGTH {
        tail
    } else {
        MAX_LOG_LENGTH
    }
}

/// A stack on the container's server, with whether each of its services'
/// container names matches the container.
#[derive(Clone, Debug)]
pub struct StackServiceMatches {
    pub stack_id: String,
    pub matches: Vec<bool>,
}

/// Whether some service of a stack matches.
pub open spec fn spec_stack_matches(s: StackServiceMatches) -> bool {
    exists|k: int| 0 <= k < s.matches@.len() && #[trigger] s.matches@[k]
}

/// The first stack with a matching service.
pub open spec fn spec_first_matching_stack(stacks: Seq<StackServiceMatches>) -> Option<int>
    decreases stacks.len(),
{
    if stacks.len() == 0 {
        None
    } else if spec_stack_matches(stacks[0]) {
        Some(0)
    } else {
        match spec_first_matching_stack(stacks.drop_first()) {
            Some(i) => Some(i + 1),
            None => None,
        }
    }
}

/// Whether some service of a stack matches.
fn stack_matches(s: &StackServiceMatches) -> (res: bool)
    ensures
        res == spec_stack_matches(*s),
{
    let mut k: usize = 0;
    while k < s.matches.len()
        invariant
            k <= s.matches@.len(),
            forall|m: int| 0 <= m < k ==> !s.matches@[m],
        decreases s.matches@.len() - k,
    {
        if s.matches[k] {
            return true;
        }
        k = k + 1;
    }
    false
}

/// The resource a container belongs to. A non-empty container name is first
/// looked up as a deployment's deployed or custom container name
/// (`by_container_name`, the deployment's id); then as the name of a
/// deployment (`by_name`: its id and custom container name) whose custom
/// name is the container; then among the stacks of the server, in order.
pub fn resource_matching_container(
    container: &str,
    by_container_name: Option<String>,
    by_name: Option<(String, String)>,
    stacks: &Vec<StackServiceMatches>,
) -> (res: Option<ResourceTarget>)
    ensures
        container@.len() > 0 && by_container_name is Some ==> res == Some(
            ResourceTarget::Deployment(by_container_name->Some_0),
        ),
        !(container@.len() > 0 && by_container_name is Some) ==> match by_name {
            Some((id, custom)) if custom@ == container@ => res == Some(ResourceTarget::Deployment(id)),
            _ => match spec_first_matching_stack(stacks@) {
                Some(i) => res matches Some(ResourceTarget::Stack(id)) && id@ == stacks@[i].stack_id@,
                None => res is None,
            },
        },
{
    if container.unicode_len() > 0 {
        if let Some(id) = &by_container_name {
            return Some(ResourceTarget::Deployment(id.clone()));
        }
    }
    let by_name_matches = match &by_name {
        Some((_, custom)) => {
            let wanted = container.to_owned();
            *custom == wanted
        },
        None => false,
    };
    if by_name_matches {
        if let Some((id, _)) = &by_name {
            return Some(ResourceTarget::Deployment(id.clone()));
        }
    }
    let mut i: usize = 0;
    proof {
        assert(stacks@.skip(0) =~= stacks@);
    }
    while i < stacks.len()
        invariant
            i <= stacks@.len(),
            !(container@.len() > 0 && by_container_name is Some),
            !(by_name matches Some((_, custom)) && custom@ == container@),
            spec_first_matching_stack(stacks@) == match spec_first_matching_stack(stacks@.skip(i as int)) {
                Some(j) => Some(j + i),
                None => None,
            },
        decreases stacks@.len() - i,
    {
        proof {
            assert(stacks@.skip(i as int).drop_first() =~= stacks@.skip(i + 1));
            assert(stacks@.skip(i as int)[0] == stacks@[i as int]);
        }
        if stack_matches(&stacks[i]) {
            assert(spec_first_matching_stack(stacks@.skip(i as int)) == Some(0int));
            return Some(ResourceTarget::Stack(stacks[i].stack_id.clone()));
        }
        i = i + 1;
    }
    proof {
        assert(stacks@.skip(i as int).len() == 0);
    }
    None
}

} // verus!
