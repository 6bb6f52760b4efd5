//! Requests of the read and write API whose fields the core logic reads.
//! Resource queries, sort columns and partial accounts are kept generic:
//! callers fill them with their own types.

use crate::permission::target::ResourceTarget;
use vstd::prelude::*;

verus! {

/// Get a specific alerter.
#[derive(Clone, Debug)]
pub struct GetAlerter {
    pub alerter: String,
}

/// List alerters matching a query.
#[derive(Clone, Debug)]
pub struct ListAlerters<Query, SortBy> {
    pub query: Query,
    pub page: u64,
    pub limit: Option<u64>,
    pub sort_by: SortBy,
    pub sort_desc: bool,
}

/// List full alerters matching a query.
#[derive(Clone, Debug)]
pub struct ListFullAlerters<Query> {
    pub query: Query,
    pub page: u64,
    pub limit: Option<u64>,
}

/// Get a summary of all alerters.
#[derive(Clone, Copy, Debug)]
pub struct GetAlertersSummary {}

/// Get a specific builder.
#[derive(Clone, Debug)]
pub struct GetBuilder {
    pub builder: String,
}

/// List builders matching a query.
#[derive(Clone, Debug)]
pub struct ListBuilders<Query, SortBy> {
    pub query: Query,
    pub page: u64,
    pub limit: Option<u64>,
    pub sort_by: SortBy,
    pub sort_desc: bool,
}

/// List full builders matching a query.
#[derive(Clone, Debug)]
pub struct ListFullBuilders<Query> {
    pub query: Query,
    pub page: u64,
    pub limit: Option<u64>,
}

/// Get a summary of all builders.
#[derive(Clone, Copy, Debug)]
pub struct GetBuildersSummary {}

/// Get a summary of the containers on all readable servers.
#[derive(Clone, Copy, Debug)]
pub struct GetContainersSummary {}

/// List the containers on a server.
#[derive(Clone, Debug)]
pub struct ListContainers {
    pub server: String,
}

/// Inspect a container on a server.
#[derive(Clone, Debug)]
pub struct InspectContainer {
    pub server: String,
    pub container: String,
}

/// Find the resource (deployment or stack) a container on a server belongs
/// to.
#[derive(Clone, Debug)]
pub struct GetResourceMatchingContainer {
    pub server: String,
    pub container: String,
}

/// The resource a container belongs to, if any.
#[derive(Debug)]
pub struct GetResourceMatchingContainerResponse {
    pub resource: Option<ResourceTarget>,
}

/// Get the last lines of a container's log.
#[derive(Clone, Debug)]
pub struct GetContainerLog {
    pub server: String,
    pub container: String,
    pub tail: u64,
    pub timestamps: bool,
}

/// Search a container's log for terms.
#[derive(Clone, Debug)]
pub struct SearchContainerLog<Combinator> {
    pub server: String,
    pub container: String,
    pub terms: Vec<String>,
    pub combinator: Combinator,
    pub invert: bool,
    pub timestamps: bool,
}

/// List the compose projects on a server.
#[derive(Clone, Debug)]
pub struct ListComposeProjects {
    pub server: String,
}

/// List the networks on a server.
#[derive(Clone, Debug)]
pub struct ListNetworks {
    pub server: String,
}

/// Inspect a network on a server.
#[derive(Clone, Debug)]
pub struct InspectNetwork {
    pub server: String,
    pub network: String,
}

/// List the images on a server.
#[derive(Clone, Debug)]
pub struct ListImages {
    pub server: String,
}

/// Inspect an image on a server.
#[derive(Clone, Debug)]
pub struct InspectImage {
    pub server: String,
    pub image: String,
}

/// List the layers of an image on a server.
#[derive(Clone, Debug)]
pub struct ListImageHistory {
    pub server: String,
    pub image: String,
}

/// List the volumes on a server.
#[derive(Clone, Debug)]
pub struct ListVolumes {
    pub server: String,
}

/// Inspect a volume on a server.
#[derive(Clone, Debug)]
pub struct InspectVolume {
    pub server: String,
    pub volume: String,
}

/// Get a git provider account.
#[derive(Clone, Debug)]
pub struct GetGitProviderAccount {
    pub id: String,
}

/// List git provider accounts, optionally of one domain or username.
#[derive(Clone, Debug)]
pub struct ListGitProviderAccounts {
    pub domain: Option<String>,
    pub username: Option<String>,
}

/// Get an image registry account.
#[derive(Clone, Debug)]
pub struct GetImageRegistryAccount {
    pub id: String,
}

/// List image registry accounts, optionally of one domain or username.
#[derive(Clone, Debug)]
pub struct ListImageRegistryAccounts {
    pub domain: Option<String>,
    pub username: Option<String>,
}

/// Get a specific repo.
#[derive(Clone, Debug)]
pub struct GetRepo {
    pub repo: String,
}

/// List repos matching a query.
#[derive(Clone, Debug)]
pub struct ListRepos<Query, SortBy> {
    pub query: Query,
    pub page: u64,
    pub limit: Option<u64>,
    pub sort_by: SortBy,
    pub sort_desc: bool,
}

/// List full repos matching a query.
#[derive(Clone, Debug)]
pub struct ListFullRepos<Query> {
    pub query: Query,
    pub page: u64,
    pub limit: Option<u64>,
}

/// Get what a repo is busy with.
#[derive(Clone, Debug)]
pub struct GetRepoActionState {
    pub repo: String,
}

/// Get a summary of all repos.
#[derive(Clone, Copy, Debug)]
pub struct GetReposSummary {}

/// List the configured schedules.
#[derive(Clone, Debug)]
pub struct ListSchedules<TagBehavior> {
    pub tags: Vec<String>,
    pub tag_behavior: TagBehavior,
    pub terms: Vec<String>,
    pub page: u64,
    pub limit: Option<u64>,
    pub sort_by: crate::schedule::ScheduleSortBy,
    pub sort_desc: bool,
}

/// List terminals, optionally of one target.
#[derive(Clone, Debug)]
pub struct ListTerminals<Target, SortBy> {
    pub target: Option<Target>,
    pub use_names: bool,
    pub terms: Vec<String>,
    pub page: u64,
    pub limit: Option<u64>,
    pub sort_by: SortBy,
    pub sort_desc: bool,
}

/// Create a git provider account.
#[derive(Clone, Debug)]
pub struct CreateGitProviderAccount<Account> {
    pub account: Account,
}

/// Update a git provider account.
#[derive(Clone, Debug)]
pub struct UpdateGitProviderAccount<Account> {
    pub id: String,
    pub account: Account,
}

/// Delete a git provider account.
#[derive(Clone, Debug)]
pub struct DeleteGitProviderAccount {
    pub id: String,
}

/// Create an image registry account.
#[derive(Clone, Debug)]
pub struct CreateImageRegistryAccount<Account> {
    pub account: Account,
}

/// Update an image registry account.
#[derive(Clone, Debug)]
pub struct UpdateImageRegistryAccount<Account> {
    pub id: String,
    pub account: Account,
}

/// Delete an image registry account.
#[derive(Clone, Debug)]
pub struct DeleteImageRegistryAccount {
    pub id: String,
}

} // verus!
