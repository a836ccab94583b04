//! What a node remembers of itself across restarts

use vstd::prelude::*;

use crate::entry::EzLogId;
use crate::entry::later;
use crate::entry::later_log_id;
use crate::entry::log_id_le;

verus! {

/// A vote: for which node, in which term, and whether a quorum granted it
#[derive(Debug, Clone, Copy, PartialEq, Eq)]
pub struct EzVote {
    pub term: u64,
    pub node_id: u64,
    pub committed: bool,
}

/// Raft metadata: who the node is, its vote, and the positions bounding its log
#[derive(Debug, Clone, Copy, PartialEq, Eq)]
pub struct EzMeta {
    /// The id the cluster gave this node
    pub node_id: Option<u64>,

    pub vote: Option<EzVote>,

    /// Where the log ends
    pub last_log_id: Option<EzLogId>,

    /// The last entry that was deleted off the front of the log
    pub last_purged: Option<EzLogId>,

    /// Whether the cluster still owes this node the voter role it asked for
    pub promotion_pending: bool,
}

impl Default for EzMeta {
    /// A node that has never run
    fn default() -> (meta: EzMeta)
        ensures
            meta == EzMeta::fresh(),
    {
        EzMeta {
            node_id: None,
            vote: None,
            last_log_id: None,
            last_purged: None,
            promotion_pending: false,
        }
    }
}

impl EzMeta {
    /// The metadata of a node that has never run
    pub open spec fn fresh() -> EzMeta {
        EzMeta {
            node_id: None,
            vote: None,
            last_log_id: None,
            last_purged: None,
            promotion_pending: false,
        }
    }

    /// Whether the log ends no earlier than where its front was cut off
    ///
    /// A store that reads these two back the other way round is taken for a corrupt one.
    pub open spec fn positions_ordered(self) -> bool {
        log_id_le(self.last_purged, self.last_log_id)
    }

    /// The same metadata, with a log that ends short of its purge point moved up to it
    pub open spec fn repaired(self) -> EzMeta {
        EzMeta { last_log_id: later(self.last_log_id, self.last_purged), ..self }
    }

    /// The same metadata, of the node that the cluster knows by `node_id`, and that is still owed
    /// the voter role or is not
    pub open spec fn identified(self, node_id: u64, promotion_pending: bool) -> EzMeta {
        EzMeta { node_id: Some(node_id), promotion_pending, ..self }
    }

    /// The same metadata, of a node that is owed no promotion any more
    pub open spec fn promoted(self) -> EzMeta {
        EzMeta { promotion_pending: false, ..self }
    }

    /// Make the log positions consistent
    ///
    /// Installing a snapshot is what inverts them: the purge that follows moves the purge point
    /// past a log that stopped short of the snapshot.
    pub fn repair(&mut self)
        ensures
            *final(self) == old(self).repaired(),
            final(self).positions_ordered(),
    {
        self.last_log_id = later_log_id(self.last_log_id, self.last_purged);
    }
}

/// Repairing metadata leaves an ordered log alone, and repairing twice is repairing once.
pub proof fn law_repair_is_idempotent(meta: EzMeta)
    ensures
        meta.positions_ordered() ==> meta.repaired() == meta,
        meta.repaired().positions_ordered(),
        meta.repaired().repaired() == meta.repaired(),
{
}

/// A node that has never run has no id, has not voted, has no log, and is owed nothing.
pub proof fn law_fresh_node_knows_nothing()
    ensures
        EzMeta::fresh().node_id is None,
        EzMeta::fresh().vote is None,
        EzMeta::fresh().last_log_id is None,
        EzMeta::fresh().last_purged is None,
        !EzMeta::fresh().promotion_pending,
        EzMeta::fresh().positions_ordered(),
{
}

/// The positions of a log are in order if and only if its end is not before its purge point: an
/// end in an earlier term is before it, and so is one of a lower index in the same term.
pub proof fn law_positions_are_ordered_by_term_and_index(meta: EzMeta)
    ensures
        meta.last_purged is None ==> meta.positions_ordered(),
        meta.last_purged is Some && meta.last_log_id is None ==> !meta.positions_ordered(),
        meta.last_purged matches Some(purged) ==> meta.last_log_id matches Some(last) ==> (
        meta.positions_ordered() <==> purged.0 < last.0 || (purged.0 == last.0 && purged.1
            <= last.1)),
{
}

/// Repairing metadata moves nothing but the end of the log, and that only up to the purge point:
/// who the node is, its vote, the purge point and what it is owed stay as they were.
pub proof fn law_repair_moves_the_end_of_the_log_only(meta: EzMeta)
    ensures
        meta.repaired().node_id == meta.node_id,
        meta.repaired().vote == meta.vote,
        meta.repaired().last_purged == meta.last_purged,
        meta.repaired().promotion_pending == meta.promotion_pending,
        meta.positions_ordered() ==> meta.repaired().last_log_id == meta.last_log_id,
        !meta.positions_ordered() ==> meta.repaired().last_log_id == meta.last_purged,
{
}

/// Saying who a node is, and saying that it was promoted, changes that and nothing else: not its
/// vote, and not where its log begins and ends.
pub proof fn law_identity_edits_leave_vote_and_log_alone(
    meta: EzMeta,
    node_id: u64,
    promotion_pending: bool,
)
    ensures
        ({
            let edited = meta.identified(node_id, promotion_pending);
            &&& edited.node_id == Some(node_id)
            &&& edited.promotion_pending == promotion_pending
            &&& edited.vote == meta.vote
            &&& edited.last_log_id == meta.last_log_id
            &&& edited.last_purged == meta.last_purged
        }),
        ({
            let edited = meta.promoted();
            &&& edited.node_id == meta.node_id
            &&& !edited.promotion_pending
            &&& edited.vote == meta.vote
            &&& edited.last_log_id == meta.last_log_id
            &&& edited.last_purged == meta.last_purged
        }),
{
}

} // verus!
