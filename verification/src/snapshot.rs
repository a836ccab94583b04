//! A snapshot: the application state, and the place in the log that it covers

use vstd::prelude::*;

use crate::entry::EzLogId;
use crate::membership::StoredMembership;
use crate::membership::StoredMembershipView;

verus! {

/// What a snapshot covers
#[derive(Debug)]
pub struct EzSnapshotMeta {
    /// The last log entry that the state includes
    pub last_log_id: Option<EzLogId>,

    /// The members of the cluster as of that entry
    pub last_membership: StoredMembership,

    /// Names the snapshot while it is transferred
    pub snapshot_id: String,
}

/// An [`EzSnapshotMeta`] as a value
#[verifier::ext_equal]
pub struct EzSnapshotMetaView {
    pub last_log_id: Option<EzLogId>,
    pub last_membership: StoredMembershipView,
    pub snapshot_id: Seq<char>,
}

impl View for EzSnapshotMeta {
    type V = EzSnapshotMetaView;

    open spec fn view(&self) -> EzSnapshotMetaView {
        EzSnapshotMetaView {
            last_log_id: self.last_log_id,
            last_membership: self.last_membership@,
            snapshot_id: self.snapshot_id@,
        }
    }
}

impl Clone for EzSnapshotMeta {
    fn clone(&self) -> (copy: EzSnapshotMeta)
        ensures
            copy@ == self@,
    {
        EzSnapshotMeta {
            last_log_id: self.last_log_id,
            last_membership: self.last_membership.clone(),
            snapshot_id: self.snapshot_id.clone(),
        }
    }
}

/// A snapshot: what it covers, and the serialized application state
#[derive(Debug)]
pub struct EzSnapshot {
    pub meta: EzSnapshotMeta,
    pub data: Vec<u8>,
}

/// An [`EzSnapshot`] as a value
#[verifier::ext_equal]
pub struct EzSnapshotView {
    pub meta: EzSnapshotMetaView,
    pub data: Seq<u8>,
}

impl View for EzSnapshot {
    type V = EzSnapshotView;

    open spec fn view(&self) -> EzSnapshotView {
        EzSnapshotView { meta: self.meta@, data: self.data@ }
    }
}

/// A copy of some bytes
pub fn copy_bytes(bytes: &Vec<u8>) -> (copy: Vec<u8>)
    ensures
        copy@ == bytes@,
{
    let copy = bytes.clone();
    assert(copy@ =~= bytes@);
    copy
}

impl Clone for EzSnapshot {
    fn clone(&self) -> (copy: EzSnapshot)
        ensures
            copy@ == self@,
    {
        EzSnapshot { meta: self.meta.clone(), data: copy_bytes(&self.data) }
    }
}

/// Build a [`EzSnapshot`] from its parts
pub fn new_snapshot(meta: &EzSnapshotMeta, data: &Vec<u8>) -> (snapshot: EzSnapshot)
    ensures
        snapshot@ == (EzSnapshotView { meta: meta@, data: data@ }),
{
    EzSnapshot { meta: meta.clone(), data: copy_bytes(data) }
}

/// A snapshot is seen with all that it has: what it covers, the members as of then, its name, and
/// every byte of the state.
pub proof fn law_snapshot_is_seen_whole(snapshot: EzSnapshot)
    ensures
        snapshot@.data == snapshot.data@,
        snapshot@.meta == snapshot.meta@,
        snapshot@.meta.last_log_id == snapshot.meta.last_log_id,
        snapshot@.meta.last_membership == snapshot.meta.last_membership@,
        snapshot@.meta.snapshot_id == snapshot.meta.snapshot_id@,
{
}

} // verus!
