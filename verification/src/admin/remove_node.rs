//! Body of `POST /api/remove_node`

use vstd::prelude::*;

use crate::admin::membership_change::MembershipChange;

verus! {

/// Take a node out of the cluster entirely
///
/// Unlike making it a learner, this ends the cluster's interest in the node: it stops being
/// replicated to and is forgotten. The node's own process is not stopped by this; that is the
/// operator's to do, and doing it first is what leaves the cluster nothing to talk to.
#[derive(Debug)]
pub struct RemoveNodeRequest {
    pub node_id: u64,
}

impl RemoveNodeRequest {
    /// The membership change asked for
    pub fn into_change(self) -> (change: MembershipChange)
        ensures
            change == (MembershipChange::Remove { node_id: self.node_id }),
    {
        MembershipChange::Remove { node_id: self.node_id }
    }
}

} // verus!
