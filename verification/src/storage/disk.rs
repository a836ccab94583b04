//! What a storage holds, as a value, and when a node can start from it

use vstd::prelude::*;

use crate::entry::EzEntry;
use crate::entry::EzLogId;
use crate::meta::EzMeta;
use crate::snapshot::EzSnapshotView;
use crate::storage::Persist;

verus! {

/// What a storage holds: what a node started from it would read
#[verifier::ext_equal]
#[verifier::reject_recursive_types(D)]
pub struct Disk<D> {
    pub meta: EzMeta,
    pub logs: Map<u64, EzEntry<D>>,
    pub snapshot: Option<EzSnapshotView>,
}

/// The first index past the log id `id`: zero for a log that has nothing in it
pub open spec fn index_after(id: Option<EzLogId>) -> int {
    match id {
        Some(id) => id.1 + 1,
        None => 0,
    }
}

/// Whether metadata `meta` promises that the entry of index `i` can be read
pub open spec fn promised(meta: EzMeta, i: int) -> bool {
    index_after(meta.last_purged) <= i < index_after(meta.last_log_id)
}

impl<D> Disk<D> {
    /// A storage that nothing was ever written to
    pub open spec fn empty() -> Disk<D> {
        Disk { meta: EzMeta::fresh(), logs: Map::empty(), snapshot: None }
    }

    /// What is held once `op` was carried out
    pub open spec fn persisted(self, op: Persist<D>) -> Disk<D> {
        match op {
            Persist::Meta(meta) => Disk { meta, ..self },
            Persist::LogEntry(entry) => Disk {
                logs: self.logs.insert(entry.log_id.1, entry),
                ..self
            },
            Persist::Snapshot(snapshot) => Disk { snapshot: Some(snapshot@), ..self },
            Persist::DeleteLogs { from, to } => Disk {
                logs: self.logs.remove_keys(Set::new(|i: u64| from <= i < to)),
                ..self
            },
        }
    }

    /// What is held once all of `ops` were carried out in order
    pub open spec fn persisted_all(self, ops: Seq<Persist<D>>) -> Disk<D>
        decreases ops.len(),
    {
        if ops.len() == 0 {
            self
        } else {
            self.persisted_all(ops.drop_last()).persisted(ops.last())
        }
    }

    /// The same storage with no log entry but those that can be read
    pub open spec fn readable(self) -> Disk<D> {
        Disk {
            logs: self.logs.restrict(Set::new(|i: u64| promised(self.meta, i as int))),
            ..self
        }
    }

    /// Whether a node can start here: the log positions are in order, and every entry that they
    /// promise is there, under its own index
    pub open spec fn consistent(self) -> bool {
        &&& self.meta.positions_ordered()
        &&& forall|i: u64| #[trigger]
            promised(self.meta, i as int) ==> self.logs.contains_key(i) && self.logs[i].log_id.1
                == i
    }
}

/// A storage that nothing was written to is one a node can start from.
pub proof fn law_empty_disk_is_consistent<D>()
    ensures
        Disk::<D>::empty().consistent(),
{
}

/// Writing metadata or a snapshot touches no entry, and writing an entry touches neither.
pub proof fn law_persist_touches_one_thing<D>(disk: Disk<D>, op: Persist<D>)
    ensures
        op is Meta ==> disk.persisted(op).logs == disk.logs && disk.persisted(op).snapshot
            == disk.snapshot,
        op is Snapshot ==> disk.persisted(op).logs == disk.logs && disk.persisted(op).meta
            == disk.meta,
        op is LogEntry || op is DeleteLogs ==> disk.persisted(op).meta == disk.meta
            && disk.persisted(op).snapshot == disk.snapshot,
{
}

/// Deleting a range of entries takes that range and nothing else.
pub proof fn law_delete_takes_its_range<D>(disk: Disk<D>, from: u64, to: u64, i: u64)
    ensures
        disk.persisted(Persist::DeleteLogs { from, to }).logs.contains_key(i) <==> (
        disk.logs.contains_key(i) && !(from <= i < to)),
        disk.logs.contains_key(i) && !(from <= i < to) ==> disk.persisted(
            Persist::DeleteLogs { from, to },
        ).logs[i] == disk.logs[i],
{
}

/// An entry can be read if and only if its index is past the purge point, if there is one, and not
/// past the end of the log; a log that has no end has nothing to read.
pub proof fn law_entries_between_purge_point_and_end_are_promised(meta: EzMeta, i: int)
    ensures
        meta.last_log_id is None ==> !promised(meta, i),
        meta.last_log_id matches Some(last) ==> (promised(meta, i) <==> {
            &&& 0 <= i <= last.1
            &&& meta.last_purged matches Some(purged) ==> purged.1 < i
        }),
        meta.last_log_id matches Some(last) ==> index_after(meta.last_log_id) == last.1 + 1,
        index_after(None) == 0,
{
}

} // verus!
