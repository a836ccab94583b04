//! What a node is in a cluster

use vstd::prelude::*;

verus! {

/// Whether a node votes
#[derive(Debug, Clone, Copy, PartialEq, Eq, Structural)]
pub enum NodeRole {
    /// Replicates the log and answers reads, without voting
    Learner,

    /// Counts towards a quorum
    Voter,
}

impl Default for NodeRole {
    /// A node is a learner until it is made something else
    fn default() -> (role: NodeRole)
        ensures
            role == NodeRole::Learner,
    {
        NodeRole::Learner
    }
}

} // verus!
