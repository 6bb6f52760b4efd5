//! The daily usage report of a core: what it counts, and the text its
//! signature covers.

use crate::permission::target::ResourceTargetVariant;
use crate::text::{format_i64, spec_format_i64};
use vstd::prelude::*;

verus! {

/// Semi-anonymous usage data of a core. It carries only the reporting key,
/// not the keys used to reach servers.
#[derive(Clone, Debug)]
pub struct CoreReport {
    /// The reporting public key; it must match the key the request's
    /// signature yields.
    pub report_public_key: String,
    /// The total number of users.
    pub users: u64,
    /// Resource counts by kind, each kind once.
    pub count: Vec<(ResourceTargetVariant, u64)>,
}

/// The resources counted in a report.
#[derive(Clone, Copy, Debug)]
pub struct ResourceCounts {
    pub servers: u64,
    pub swarms: u64,
    pub stacks: u64,
    pub deployments: u64,
    pub builds: u64,
}

/// The counts of a report, by kind: servers, swarms, stacks, deployments
/// and builds.
pub open spec fn spec_report_count(c: ResourceCounts) -> Seq<(ResourceTargetVariant, u64)> {
    seq![
        (ResourceTargetVariant::Server, c.servers),
        (ResourceTargetVariant::Swarm, c.swarms),
        (ResourceTargetVariant::Stack, c.stacks),
        (ResourceTargetVariant::Deployment, c.deployments),
        (ResourceTargetVariant::Build, c.builds),
    ]
}

/// The report of a core with this reporting key, user count and resource
/// counts.
pub fn core_report(report_public_key: String, users: u64, counts: ResourceCounts) -> (res: CoreReport)
    ensures
        res.report_public_key == report_public_key,
        res.users == users,
        res.count@ == spec_report_count(counts),
        forall|i: int| 0 <= i < res.count@.len() ==> counted_as(counts, (#[trigger] res.count@[i]).0, res.count@[i].1),
{
    let mut count: Vec<(ResourceTargetVariant, u64)> = Vec::new();
    count.push((ResourceTargetVariant::Server, counts.servers));
    count.push((ResourceTargetVariant::Swarm, counts.swarms));
    count.push((ResourceTargetVariant::Stack, counts.stacks));
    count.push((ResourceTargetVariant::Deployment, counts.deployments));
    count.push((ResourceTargetVariant::Build, counts.builds));
    assert(count@ =~= spec_report_count(counts));
    proof {
        law_report_counts_by_kind(counts);
    }
    CoreReport { report_public_key, users, count }
}

/// Each kind is counted once in a report.
pub proof fn law_report_kinds_distinct(counts: ResourceCounts)
    ensures
        forall|i: int, j: int|
            0 <= i < j < spec_report_count(counts).len() ==> (#[trigger] spec_report_count(counts)[i]).0
                != (#[trigger] spec_report_count(counts)[j]).0,
{
}

/// Whether `n` is the count a report gives for resources of kind `k`:
/// servers, swarms, stacks, deployments and builds are counted, each by its
/// own field; no other kind is.
pub open spec fn counted_as(counts: ResourceCounts, k: ResourceTargetVariant, n: u64) -> bool {
    match k {
        ResourceTargetVariant::Server => n == counts.servers,
        ResourceTargetVariant::Swarm => n == counts.swarms,
        ResourceTargetVariant::Stack => n == counts.stacks,
        ResourceTargetVariant::Deployment => n == counts.deployments,
        ResourceTargetVariant::Build => n == counts.builds,
        _ => false,
    }
}

/// Every entry of a report pairs a kind with that kind's own count, and the
/// kinds are servers, swarms, stacks, deployments and builds, in that order.
pub proof fn law_report_counts_by_kind(counts: ResourceCounts)
    ensures
        forall|i: int|
            0 <= i < spec_report_count(counts).len() ==> counted_as(
                counts,
                (#[trigger] spec_report_count(counts)[i]).0,
                spec_report_count(counts)[i].1,
            ),
        spec_report_count(counts).map_values(|e: (ResourceTargetVariant, u64)| e.0) == seq![
            ResourceTargetVariant::Server,
            ResourceTargetVariant::Swarm,
            ResourceTargetVariant::Stack,
            ResourceTargetVariant::Deployment,
            ResourceTargetVariant::Build,
        ],
{
    assert(spec_report_count(counts).map_values(|e: (ResourceTargetVariant, u64)| e.0) =~= seq![
        ResourceTargetVariant::Server,
        ResourceTargetVariant::Swarm,
        ResourceTargetVariant::Stack,
        ResourceTargetVariant::Deployment,
        ResourceTargetVariant::Build,
    ]);
}

/// The text a report's signature covers:
/// `POST|/report/komodo|{report json}|{timestamp}`.
pub open spec fn spec_report_prologue(serialized: Seq<char>, timestamp: i64) -> Seq<char> {
    "POST|/report/komodo|"@ + serialized + "|"@ + spec_format_i64(timestamp)
}

/// Builds the text a report's signature covers, from the report's JSON and
/// the time of sending in milliseconds.
pub fn report_prologue(serialized: &str, timestamp: i64) -> (res: String)
    ensures
        res@ == spec_report_prologue(serialized@, timestamp),
{
    let mut out = "POST|/report/komodo|".to_owned();
    out.append(serialized);
    out.append("|");
    let ts = format_i64(timestamp);
    out.append(ts.as_str());
    out
}

} // verus!
