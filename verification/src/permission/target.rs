//! Resource targets, and which check an access to a target needs.

use vstd::prelude::*;

verus! {

/// The kinds of resources a permission can be on.
#[derive(Clone, Copy, Debug, PartialEq, Eq, Structural, Hash)]
pub enum ResourceTargetVariant {
    System,
    Swarm,
    Server,
    Stack,
    Deployment,
    Build,
    Repo,
    Procedure,
    Action,
    Builder,
    Alerter,
    ResourceSync,
}

/// A resource, by kind and id.
#[derive(Debug)]
pub enum ResourceTarget {
    System(String),
    Swarm(String),
    Server(String),
    Stack(String),
    Deployment(String),
    Build(String),
    Repo(String),
    Procedure(String),
    Action(String),
    Builder(String),
    Alerter(String),
    ResourceSync(String),
}

/// The kind and id of a target.
pub open spec fn spec_variant_id(t: ResourceTarget) -> (ResourceTargetVariant, Seq<char>) {
    match t {
        ResourceTarget::System(id) => (ResourceTargetVariant::System, id@),
        ResourceTarget::Swarm(id) => (ResourceTargetVariant::Swarm, id@),
        ResourceTarget::Server(id) => (ResourceTargetVariant::Server, id@),
        ResourceTarget::Stack(id) => (ResourceTargetVariant::Stack, id@),
        ResourceTarget::Deployment(id) => (ResourceTargetVariant::Deployment, id@),
        ResourceTarget::Build(id) => (ResourceTargetVariant::Build, id@),
        ResourceTarget::Repo(id) => (ResourceTargetVariant::Repo, id@),
        ResourceTarget::Procedure(id) => (ResourceTargetVariant::Procedure, id@),
        ResourceTarget::Action(id) => (ResourceTargetVariant::Action, id@),
        ResourceTarget::Builder(id) => (ResourceTargetVariant::Builder, id@),
        ResourceTarget::Alerter(id) => (ResourceTargetVariant::Alerter, id@),
        ResourceTarget::ResourceSync(id) => (ResourceTargetVariant::ResourceSync, id@),
    }
}

impl ResourceTargetVariant {
    /// The rank of the kind in declaration order.
    pub fn index(self) -> (i: u8)
        ensures
            i == spec_variant_index(self),
    {
        match self {
            ResourceTargetVariant::System => 0,
            ResourceTargetVariant::Swarm => 1,
            ResourceTargetVariant::Server => 2,
            ResourceTargetVariant::Stack => 3,
            ResourceTargetVariant::Deployment => 4,
            ResourceTargetVariant::Build => 5,
            ResourceTargetVariant::Repo => 6,
            ResourceTargetVariant::Procedure => 7,
            ResourceTargetVariant::Action => 8,
            ResourceTargetVariant::Builder => 9,
            ResourceTargetVariant::Alerter => 10,
            ResourceTargetVariant::ResourceSync => 11,
        }
    }

    /// The name of the kind, as stored in the `type` field of targets.
    pub fn as_str(self) -> (s: &'static str)
        ensures
            s@ == spec_variant_name(self),
    {
        match self {
            ResourceTargetVariant::System => "System",
            ResourceTargetVariant::Swarm => "Swarm",
            ResourceTargetVariant::Server => "Server",
            ResourceTargetVariant::Stack => "Stack",
            ResourceTargetVariant::Deployment => "Deployment",
            ResourceTargetVariant::Build => "Build",
            ResourceTargetVariant::Repo => "Repo",
            ResourceTargetVariant::Procedure => "Procedure",
            ResourceTargetVariant::Action => "Action",
            ResourceTargetVariant::Builder => "Builder",
            ResourceTargetVariant::Alerter => "Alerter",
            ResourceTargetVariant::ResourceSync => "ResourceSync",
        }
    }
}

/// The rank of a kind in declaration order.
pub open spec fn spec_variant_index(v: ResourceTargetVariant) -> u8 {
    match v {
        ResourceTargetVariant::System => 0,
        ResourceTargetVariant::Swarm => 1,
        ResourceTargetVariant::Server => 2,
        ResourceTargetVariant::Stack => 3,
        ResourceTargetVariant::Deployment => 4,
        ResourceTargetVariant::Build => 5,
        ResourceTargetVariant::Repo => 6,
        ResourceTargetVariant::Procedure => 7,
        ResourceTargetVariant::Action => 8,
        ResourceTargetVariant::Builder => 9,
        ResourceTargetVariant::Alerter => 10,
        ResourceTargetVariant::ResourceSync => 11,
    }
}

/// The stored name of a kind.
pub open spec fn spec_variant_name(v: ResourceTargetVariant) -> Seq<char> {
    match v {
        ResourceTargetVariant::System => "System"@,
        ResourceTargetVariant::Swarm => "Swarm"@,
        ResourceTargetVariant::Server => "Server"@,
        ResourceTargetVariant::Stack => "Stack"@,
        ResourceTargetVariant::Deployment => "Deployment"@,
        ResourceTargetVariant::Build => "Build"@,
        ResourceTargetVariant::Repo => "Repo"@,
        ResourceTargetVariant::Procedure => "Procedure"@,
        ResourceTargetVariant::Action => "Action"@,
        ResourceTargetVariant::Builder => "Builder"@,
        ResourceTargetVariant::Alerter => "Alerter"@,
        ResourceTargetVariant::ResourceSync => "ResourceSync"@,
    }
}

impl Clone for ResourceTarget {
    fn clone(&self) -> (res: Self)
        ensures
            res == *self,
    {
        match self {
            ResourceTarget::System(id) => ResourceTarget::System(id.clone()),
            ResourceTarget::Swarm(id) => ResourceTarget::Swarm(id.clone()),
            ResourceTarget::Server(id) => ResourceTarget::Server(id.clone()),
            ResourceTarget::Stack(id) => ResourceTarget::Stack(id.clone()),
            ResourceTarget::Deployment(id) => ResourceTarget::Deployment(id.clone()),
            ResourceTarget::Build(id) => ResourceTarget::Build(id.clone()),
            ResourceTarget::Repo(id) => ResourceTarget::Repo(id.clone()),
            ResourceTarget::Procedure(id) => ResourceTarget::Procedure(id.clone()),
            ResourceTarget::Action(id) => ResourceTarget::Action(id.clone()),
            ResourceTarget::Builder(id) => ResourceTarget::Builder(id.clone()),
            ResourceTarget::Alerter(id) => ResourceTarget::Alerter(id.clone()),
            ResourceTarget::ResourceSync(id) => ResourceTarget::ResourceSync(id.clone()),
        }
    }
}

impl ResourceTarget {
    /// The kind and id of the target.
    pub fn extract_variant_id(&self) -> (res: (ResourceTargetVariant, &String))
        ensures
            (res.0, res.1@) == spec_variant_id(*self),
    {
        match self {
            ResourceTarget::System(id) => (ResourceTargetVariant::System, id),
            ResourceTarget::Swarm(id) => (ResourceTargetVariant::Swarm, id),
            ResourceTarget::Server(id) => (ResourceTargetVariant::Server, id),
            ResourceTarget::Stack(id) => (ResourceTargetVariant::Stack, id),
            ResourceTarget::Deployment(id) => (ResourceTargetVariant::Deployment, id),
            ResourceTarget::Build(id) => (ResourceTargetVariant::Build, id),
            ResourceTarget::Repo(id) => (ResourceTargetVariant::Repo, id),
            ResourceTarget::Procedure(id) => (ResourceTargetVariant::Procedure, id),
            ResourceTarget::Action(id) => (ResourceTargetVariant::Action, id),
            ResourceTarget::Builder(id) => (ResourceTargetVariant::Builder, id),
            ResourceTarget::Alerter(id) => (ResourceTargetVariant::Alerter, id),
            ResourceTarget::ResourceSync(id) => (ResourceTargetVariant::ResourceSync, id),
        }
    }

    /// Whether the target is unassigned (its id is empty).
    pub fn is_empty(&self) -> (res: bool)
        ensures
            res == (spec_variant_id(*self).1.len() == 0),
    {
        let (_, id) = self.extract_variant_id();
        id.as_str().is_empty()
    }

    /// Whether two targets are of the same kind with the same id.
    pub fn same_as(&self, other: &ResourceTarget) -> (res: bool)
        ensures
            res == (spec_variant_id(*self) == spec_variant_id(*other)),
    {
        let (v1, id1) = self.extract_variant_id();
        let (v2, id2) = other.extract_variant_id();
        v1 == v2 && id1.eq(id2)
    }
}

/// Checking access to a target needs admin rights for the System target,
/// and otherwise the permission check on the target's resource.
pub fn check_user_target_access(target: &ResourceTarget) -> (res: Result<(ResourceTargetVariant, &String), &'static str>)
    ensures
        spec_variant_id(*target).0 == ResourceTargetVariant::System <==> res is Err,
        res matches Err(msg) ==> msg@ == "user must be admin to view system updates"@,
        res matches Ok(found) ==> (found.0, found.1@) == spec_variant_id(*target),
{
    let (variant, id) = target.extract_variant_id();
    match variant {
        ResourceTargetVariant::System => Err("user must be admin to view system updates"),
        _ => Ok((variant, id)),
    }
}

} // verus!
