//! Which updates and alerts a user may list: their targets are restricted to
//! the resources the user may read.

use crate::permission::target::{spec_variant_index, ResourceTargetVariant};
use vstd::prelude::*;

verus! {

/// The kinds a target query restricts, in the order its clauses come.
pub open spec fn spec_query_kind(i: int) -> ResourceTargetVariant {
    if i == 0 {
        ResourceTargetVariant::Swarm
    } else if i == 1 {
        ResourceTargetVariant::Server
    } else if i == 2 {
        ResourceTargetVariant::Stack
    } else if i == 3 {
        ResourceTargetVariant::Deployment
    } else if i == 4 {
        ResourceTargetVariant::Build
    } else if i == 5 {
        ResourceTargetVariant::Repo
    } else if i == 6 {
        ResourceTargetVariant::Procedure
    } else if i == 7 {
        ResourceTargetVariant::Action
    } else if i == 8 {
        ResourceTargetVariant::Builder
    } else if i == 9 {
        ResourceTargetVariant::Alerter
    } else {
        ResourceTargetVariant::ResourceSync
    }
}

/// The number of kinds a target query restricts: every kind but System.
pub const QUERY_KINDS: usize = 11;

/// The kind of the `i`-th clause of a target query.
pub fn query_kind(i: usize) -> (k: ResourceTargetVariant)
    requires
        i < QUERY_KINDS,
    ensures
        k == spec_query_kind(i as int),
{
    if i == 0 {
        ResourceTargetVariant::Swarm
    } else if i == 1 {
        ResourceTargetVariant::Server
    } else if i == 2 {
        ResourceTargetVariant::Stack
    } else if i == 3 {
        ResourceTargetVariant::Deployment
    } else if i == 4 {
        ResourceTargetVariant::Build
    } else if i == 5 {
        ResourceTargetVariant::Repo
    } else if i == 6 {
        ResourceTargetVariant::Procedure
    } else if i == 7 {
        ResourceTargetVariant::Action
    } else if i == 8 {
        ResourceTargetVariant::Builder
    } else if i == 9 {
        ResourceTargetVariant::Alerter
    } else {
        ResourceTargetVariant::ResourceSync
    }
}

/// The clause of one kind: targets of the kind, limited to the listed ids
/// (`None`: any of the kind).
#[derive(Clone, Debug)]
pub struct KindClause {
    pub kind: ResourceTargetVariant,
    pub ids: Option<Vec<String>>,
}

/// A query over targets.
#[derive(Clone, Debug)]
pub enum TargetQuery<Q> {
    /// The incoming query as it came (admins and transparent mode).
    Unchanged(Option<Q>),
    /// Targets matching one of the clauses, and the incoming query if any.
    Restricted { clauses: Vec<KindClause>, and: Option<Q> },
}

/// Whether a user's listing needs per-kind visibility at all: admins, and
/// everyone in transparent mode, may read every target.
pub open spec fn spec_restricts_targets(admin: bool, transparent_mode: bool) -> bool {
    !admin && !transparent_mode
}

/// Whether the per-kind visibility must be looked up for this user.
pub fn restricts_targets(admin: bool, transparent_mode: bool) -> (res: bool)
    ensures
        res == spec_restricts_targets(admin, transparent_mode),
{
    !admin && !transparent_mode
}

/// Whether a clause admits a target of `kind` with `id`.
pub open spec fn spec_clause_admits(c: KindClause, kind: ResourceTargetVariant, id: Seq<char>) -> bool {
    c.kind == kind && match c.ids {
        None => true,
        Some(ids) => exists|j: int| 0 <= j < ids@.len() && (#[trigger] ids@[j])@ == id,
    }
}

/// Whether the restriction part of a query admits a target.
pub open spec fn spec_query_admits<Q>(q: TargetQuery<Q>, kind: ResourceTargetVariant, id: Seq<char>) -> bool {
    match q {
        TargetQuery::Unchanged(_) => true,
        TargetQuery::Restricted { clauses, .. } => exists|i: int|
            0 <= i < clauses@.len() && spec_clause_admits(#[trigger] clauses@[i], kind, id),
    }
}

/// Whether `q` restricts targets to the clauses of `visible`, one per kind
/// in order, together with `incoming`.
pub open spec fn spec_restricted_query<Q>(
    q: TargetQuery<Q>,
    visible: Seq<Option<Vec<String>>>,
    incoming: Option<Q>,
) -> bool {
    match q {
        TargetQuery::Unchanged(_) => false,
        TargetQuery::Restricted { clauses, and } => {
            &&& and == incoming
            &&& clauses@.len() == QUERY_KINDS
            &&& forall|i: int|
                0 <= i < QUERY_KINDS ==> (#[trigger] clauses@[i]).kind == spec_query_kind(i)
                    && clauses@[i].ids == visible[i]
        },
    }
}

/// The query for the updates or alerts a user may list. Admins and
/// transparent mode get the incoming query unchanged. Otherwise
/// `visible_ids[i]` is what the user may read of the `i`-th kind (`None`:
/// all of it), and the query admits targets of those kinds and ids only,
/// together with the incoming query.
pub fn user_resource_target_query<Q>(
    admin: bool,
    transparent_mode: bool,
    visible_ids: Vec<Option<Vec<String>>>,
    incoming: Option<Q>,
) -> (res: TargetQuery<Q>)
    requires
        spec_restricts_targets(admin, transparent_mode) ==> visible_ids@.len() == QUERY_KINDS,
    ensures
        !spec_restricts_targets(admin, transparent_mode) ==> res == TargetQuery::Unchanged(incoming),
        spec_restricts_targets(admin, transparent_mode) ==> spec_restricted_query(
            res,
            visible_ids@,
            incoming,
        ),
{
    if !restricts_targets(admin, transparent_mode) {
        return TargetQuery::Unchanged(incoming);
    }
    let mut clauses: Vec<KindClause> = Vec::new();
    let mut ids = visible_ids;
    let ghost orig = ids@;
    let mut i: usize = 0;
    while i < QUERY_KINDS
        invariant
            i <= QUERY_KINDS,
            ids@.len() == QUERY_KINDS,
            orig.len() == QUERY_KINDS,
            forall|j: int| i <= j < QUERY_KINDS ==> ids@[j] == orig[j],
            clauses@.len() == i,
            forall|j: int|
                0 <= j < i ==> (#[trigger] clauses@[j]).kind == spec_query_kind(j) && clauses@[j].ids
                    == orig[j],
        decreases QUERY_KINDS - i,
    {
        let mut taken: Option<Vec<String>> = None;
        std::mem::swap(&mut taken, &mut ids[i]);
        clauses.push(KindClause { kind: query_kind(i), ids: taken });
        i = i + 1;
    }
    TargetQuery::Restricted { clauses, and: incoming }
}

/// A restricted query admits exactly the targets the user may read: of a
/// kind other than System, and with an id listed for the kind unless the
/// whole kind is readable. System targets are never admitted.
pub proof fn law_restricted_query_admits_readable<Q>(
    visible_ids: Seq<Option<Vec<String>>>,
    incoming: Option<Q>,
    q: TargetQuery<Q>,
    kind: ResourceTargetVariant,
    id: Seq<char>,
)
    requires
        visible_ids.len() == QUERY_KINDS,
        spec_restricted_query(q, visible_ids, incoming),
    ensures
        spec_query_admits(q, kind, id) <==> (kind != ResourceTargetVariant::System && {
            let i = spec_variant_index(kind) - 1;
            match visible_ids[i] {
                None => true,
                Some(ids) => exists|j: int| 0 <= j < ids@.len() && (#[trigger] ids@[j])@ == id,
            }
        }),
{
    if let TargetQuery::Restricted { clauses, .. } = q {
        if kind != ResourceTargetVariant::System {
            let k = spec_variant_index(kind) - 1;
            assert(0 <= k < QUERY_KINDS);
            assert(spec_query_kind(k) == kind);
            if spec_query_admits(q, kind, id) {
                let i = choose|i: int| 0 <= i < clauses@.len() && spec_clause_admits(#[trigger] clauses@[i], kind, id);
                assert(spec_query_kind(i) == kind);
                assert(i == k);
            } else {
                assert(!spec_clause_admits(clauses@[k], kind, id));
            }
        } else {
            if spec_query_admits(q, kind, id) {
                let i = choose|i: int| 0 <= i < clauses@.len() && spec_clause_admits(#[trigger] clauses@[i], kind, id);
                assert(spec_query_kind(i) != ResourceTargetVariant::System);
            }
        }
    }
}

} // verus!
