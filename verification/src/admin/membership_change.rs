//! Body of `POST /api/membership`

use vstd::prelude::*;

use crate::admin::add_node::AddNodeRequest;
use crate::admin::change_node_role::ChangeNodeRoleRequest;
use crate::admin::remove_node::RemoveNodeRequest;
use crate::node_role::NodeRole;

verus! {

/// A change to who is in the cluster
///
/// One request for every such change, because they are one decision made in stages: whether a
/// node is a member at all, and whether it counts towards a quorum.
#[derive(Debug)]
pub enum MembershipChange {
    /// Put a node in the membership, as a learner
    ///
    /// Always a learner, whichever role the node is headed for: one added straight to the voter
    /// set would be counted in the new configuration's quorum before it could answer anything,
    /// and the change would wait forever on its own acknowledgement. `SetRole` follows.
    Add {
        node_id: u64,

        /// Address of the node's HTTP server, which every peer reaches it through
        addr: String,
    },

    /// Make a member a voter or a learner
    ///
    /// Asking for the role a node already holds changes nothing. Becoming a voter is answered
    /// only once the node has caught up, so that request lasts as long as the catch-up, and the
    /// node must be serving, or it can never catch up.
    SetRole { node_id: u64, role: NodeRole },

    /// Take a node out of the cluster entirely
    ///
    /// Unlike making it a learner, this ends the cluster's interest in the node: it stops being
    /// replicated to and is forgotten.
    Remove { node_id: u64 },
}

impl Clone for MembershipChange {
    fn clone(&self) -> (copy: MembershipChange)
        ensures
            copy == *self,
    {
        match self {
            MembershipChange::Add { node_id, addr } => MembershipChange::Add {
                node_id: *node_id,
                addr: addr.clone(),
            },
            MembershipChange::SetRole { node_id, role } => MembershipChange::SetRole {
                node_id: *node_id,
                role: *role,
            },
            MembershipChange::Remove { node_id } => MembershipChange::Remove { node_id: *node_id },
        }
    }
}

/// Each of the narrower requests asks for the change that it is named after, of the node that it
/// names.
pub proof fn law_narrow_requests_are_the_changes_they_name(
    add: AddNodeRequest,
    change_role: ChangeNodeRoleRequest,
    remove: RemoveNodeRequest,
    change: MembershipChange,
)
    ensures
        call_ensures(AddNodeRequest::into_change, (add,), change) ==> (
        change matches MembershipChange::Add { node_id, addr } && node_id == add.node_id && addr@
            == add.addr@),
        call_ensures(ChangeNodeRoleRequest::into_change, (change_role,), change) ==> (
        change matches MembershipChange::SetRole { node_id, role } && node_id
            == change_role.node_id && role == change_role.role),
        call_ensures(RemoveNodeRequest::into_change, (remove,), change) ==> (
        change matches MembershipChange::Remove { node_id } && node_id == remove.node_id),
{
}

} // verus!
