//! Body of `POST /api/change_node_role`

use vstd::prelude::*;

use crate::admin::membership_change::MembershipChange;
use crate::node_role::NodeRole;

verus! {

/// Make a member of the cluster a voter or a learner
///
/// One request for both directions, because they are one decision: whether this node is counted
/// in the quorum. Asking for the role a node already holds changes nothing.
#[derive(Debug)]
pub struct ChangeNodeRoleRequest {
    pub node_id: u64,
    pub role: NodeRole,
}

impl ChangeNodeRoleRequest {
    /// The membership change asked for
    pub fn into_change(self) -> (change: MembershipChange)
        ensures
            change == (MembershipChange::SetRole { node_id: self.node_id, role: self.role }),
    {
        MembershipChange::SetRole { node_id: self.node_id, role: self.role }
    }
}

} // verus!
