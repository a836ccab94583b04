//! Body of `POST /api/add_node`

use vstd::prelude::*;

use crate::admin::membership_change::MembershipChange;

verus! {

/// Put a node in the membership, as a learner
///
/// The id must be one `POST /api/node_id` handed out, which is what makes it unique.
#[derive(Debug)]
pub struct AddNodeRequest {
    pub node_id: u64,

    /// Address of the node's HTTP server, which every peer reaches it through
    pub addr: String,
}

impl AddNodeRequest {
    /// The membership change asked for
    pub fn into_change(self) -> (change: MembershipChange)
        ensures
            change == (MembershipChange::Add { node_id: self.node_id, addr: self.addr }),
    {
        MembershipChange::Add { node_id: self.node_id, addr: self.addr }
    }
}

} // verus!
