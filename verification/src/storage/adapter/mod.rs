//! The two stores behind a node: its log, and its state machine

pub mod log;
pub mod state_machine;

use vstd::prelude::*;

use crate::entry::EzLogId;
use crate::meta::EzMeta;
use crate::snapshot::EzSnapshot;
use crate::storage::Persist;
use crate::storage::adapter::log::LogStore;
use crate::storage::adapter::log::purge_ops;
use crate::storage::adapter::state_machine::StateMachineStore;
use crate::storage::disk::Disk;
use crate::storage::disk::index_after;
use crate::storage::disk::promised;

verus! {

/// Open what a storage loaded as the two stores of a node
///
/// One load, because there is one storage behind both: the metadata belongs to the log, the
/// snapshot to the state machine. The snapshot comes with what its bytes deserialized to, and a
/// snapshot that did not deserialize fails the whole.
pub fn open<A, E>(meta: EzMeta, snapshot: Option<(EzSnapshot, Result<A, E>)>, app: A) -> (stores:
    Result<(LogStore, StateMachineStore<A>), E>)
    ensures
        match stores {
            Ok((log, sm)) => log.meta() == meta && (snapshot matches Some((_, parsed))
                ==> parsed is Ok) && sm.restored_from(snapshot, app),
            Err(e) => snapshot matches Some((_, parsed)) && parsed == Err::<A, E>(e),
        },
{
    let sm = match StateMachineStore::new(app, snapshot) {
        Ok(sm) => sm,
        Err(e) => {
            return Err(e);
        },
    };
    Ok((LogStore::new(meta), sm))
}

/// Where the snapshot of a storage ends, if it has one
pub open spec fn covered_by_snapshot<D>(disk: Disk<D>) -> Option<EzLogId> {
    match disk.snapshot {
        Some(snapshot) => snapshot.meta.last_log_id,
        None => None,
    }
}

/// Whether a node can rebuild its whole state here: nothing was purged that the snapshot does not
/// cover
pub open spec fn recoverable<D>(disk: Disk<D>) -> bool {
    index_after(disk.meta.last_purged) <= index_after(covered_by_snapshot(disk))
}

/// A node that starts from its snapshot finds in the log every entry after it.
pub proof fn law_restart_finds_the_tail<D>(disk: Disk<D>, i: u64)
    requires
        disk.consistent(),
        recoverable(disk),
        index_after(covered_by_snapshot(disk)) <= i < index_after(disk.meta.last_log_id),
    ensures
        disk.logs.contains_key(i),
        disk.logs[i].log_id.1 == i,
{
    assert(promised(disk.meta, i as int));
}

/// Purging what the snapshot covers, whether carried out whole or cut short after `k` of its
/// writes, leaves a storage that a node can rebuild its whole state from.
pub proof fn law_purge_keeps_the_state_recoverable<D>(disk: Disk<D>, purged: EzLogId, k: int)
    requires
        recoverable(disk),
        purged.1 < index_after(covered_by_snapshot(disk)),
        0 <= k <= 2,
    ensures
        recoverable(disk.persisted_all(purge_ops(disk.meta, purged).take(k))),
{
    let ops = purge_ops::<D>(disk.meta, purged);
    reveal_with_fuel(Disk::persisted_all, 3);
    if k >= 1 {
        assert(ops.take(1).drop_last() =~= Seq::empty());
    }
    if k == 2 {
        assert(ops.take(2).drop_last() =~= ops.take(1));
    }
}

/// Persisting a snapshot that reaches no less far than the one it replaces leaves a storage that a
/// node can rebuild its whole state from, and touches neither the metadata nor the log.
pub proof fn law_snapshot_keeps_the_state_recoverable<D>(disk: Disk<D>, snapshot: EzSnapshot)
    requires
        recoverable(disk),
        index_after(covered_by_snapshot(disk)) <= index_after(snapshot@.meta.last_log_id),
    ensures
        ({
            let next = disk.persisted(Persist::Snapshot(snapshot));
            &&& recoverable(next)
            &&& next.snapshot == Some(snapshot@)
            &&& next.meta == disk.meta
            &&& next.logs == disk.logs
        }),
{
}

} // verus!
