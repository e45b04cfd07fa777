//! Typed, read-only representation of the watched repositories: each
//! repository owns an ordered list of interests, and each interest owns the
//! container templates that are launched when it is met.

use vstd::prelude::*;

verus! {

/// The whole configuration: one entry per watched repository.
pub type Config = Vec<RepositoryConfig>;

/// One watched repository and the user's interests in it.
#[derive(Debug, Clone)]
pub struct RepositoryConfig {
    /// The user or organization that owns the repository.
    pub owner: String,
    /// The name of the repository.
    pub name: String,
    /// The user's interests for this repository, in declaration order.
    pub interests: Vec<Interest>,
}

/// The events the user would like to monitor for.
#[derive(Debug, Clone)]
pub enum Interest {
    Commit(CommitInterest),
    Release(ReleaseInterest),
}

/// An interest in commits, optionally restricted to a single branch.
#[derive(Debug, Clone)]
pub struct CommitInterest {
    /// A branch that the commit must occur on for the event to start a
    /// container; `None` accepts commits on any branch.
    pub branch: Option<String>,
    /// All the containers that are spawned when the interest is met.
    pub containers: Vec<ContainerConfig>,
}

/// An interest in published releases.
#[derive(Debug, Clone)]
pub struct ReleaseInterest {
    /// All the containers that are spawned when the interest is met.
    pub containers: Vec<ContainerConfig>,
}

/// One container template: what to launch when its interest is met.
#[derive(Debug, Clone)]
pub struct ContainerConfig {
    /// The image used for the container.
    pub image: String,
    /// The path, inside the container's filesystem, at which the payload of
    /// the event that triggered the interest is made available, so the
    /// container can read the event's data without fetching it itself.
    /// `None` launches the container with no event data attached.
    pub event_path: Option<String>,
    /// The number of seconds the container is allowed to run before it is
    /// killed; `None` places no bound on its runtime.
    pub timeout: Option<u32>,
}

impl Interest {
    /// The container templates of this interest, whichever variant it is.
    pub open spec fn containers_spec(&self) -> Seq<ContainerConfig> {
        match self {
            Interest::Commit(interest) => interest.containers@,
            Interest::Release(interest) => interest.containers@,
        }
    }

    /// Gets all the container configs for an interest.
    pub fn containers(&self) -> (r: &Vec<ContainerConfig>)
        ensures
            r@ == self.containers_spec(),
    {
        match self {
            Interest::Commit(interest) => &interest.containers,
            Interest::Release(interest) => &interest.containers,
        }
    }
}

} // verus!
