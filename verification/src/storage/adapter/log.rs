//! The log: entries, and the metadata that bounds them
//!
//! Only metadata is held here; entries are in the storage. Each change to the log is a sequence
//! of [`Persist`]s, to be carried out in order and abandoned at the first that fails.

use std::collections::VecDeque;

use openraft::log_id::LogIndexOptionExt;
use vstd::prelude::*;

use crate::entry::EzEntry;
use crate::entry::EzLogId;
use crate::entry::log_id_le;
use crate::meta::EzMeta;
use crate::meta::EzVote;
use crate::node_role::NodeRole;
use crate::raft::StartAnswer;
use crate::raft::StartStepView;
use crate::raft::StartView;
use crate::raft::StartWorld;
use crate::raft::law_start_takes_these_steps;
use crate::raft::stored_identity;
use crate::storage::Persist;
use crate::storage::disk::Disk;
use crate::storage::disk::index_after;
use crate::storage::disk::law_entries_between_purge_point_and_end_are_promised;
use crate::storage::disk::promised;

verus! {

/// The index after `index`, by `openraft::log_id::LogIndexOptionExt::next_index`
///
/// It adds one to an index that is there, and gives zero for one that is not. The largest index
/// of all has none after it: adding one to it overflows.
#[verifier::external_body]
fn next_index(index: Option<u64>) -> (next: u64)
    requires
        index is Some ==> index->0 < u64::MAX,
    ensures
        next == (match index {
            Some(i) => i + 1,
            None => 0,
        }),
{
    index.next_index()
}

/// The first index past the log id `id`
fn index_after_log_id(id: Option<EzLogId>) -> (index: u64)
    requires
        index_after(id) <= u64::MAX,
    ensures
        index == index_after(id),
{
    match id {
        Some(id) => next_index(Some(id.1)),
        None => next_index(None),
    }
}

/// Where the log begins and ends
#[derive(Debug, Clone, Copy, PartialEq, Eq)]
pub struct LogState {
    /// The last entry that was deleted off the front of the log
    pub last_purged_log_id: Option<EzLogId>,

    /// Where the log ends
    pub last_log_id: Option<EzLogId>,
}

/// One end of a range of indexes
#[derive(Debug, Clone, Copy, PartialEq, Eq)]
pub enum IndexBound {
    Included(u64),
    Excluded(u64),
    Unbounded,
}

impl IndexBound {
    /// Whether `i` is on the right side of this bound, as the lower end of a range
    pub open spec fn admits_from(self, i: int) -> bool {
        match self {
            IndexBound::Included(x) => x <= i,
            IndexBound::Excluded(x) => x < i,
            IndexBound::Unbounded => true,
        }
    }

    /// Whether `i` is on the right side of this bound, as the upper end of a range
    pub open spec fn admits_to(self, i: int) -> bool {
        match self {
            IndexBound::Included(x) => i <= x,
            IndexBound::Excluded(x) => i < x,
            IndexBound::Unbounded => true,
        }
    }
}

/// The log of one node: the metadata that bounds it
#[derive(Debug)]
pub struct LogStore {
    meta: EzMeta,
}

/// The metadata once the log ends at `last`
pub open spec fn ending_at(meta: EzMeta, last: Option<EzLogId>) -> EzMeta {
    EzMeta { last_log_id: last, ..meta }.repaired()
}

/// The metadata once the log is cut off up to and with `purged`
pub open spec fn purged_at(meta: EzMeta, purged: EzLogId) -> EzMeta {
    EzMeta { last_purged: Some(purged), ..meta }.repaired()
}

/// What appending `entries` writes: each entry, then the metadata that reaches to the last one
pub open spec fn append_ops<D>(meta: EzMeta, entries: Seq<EzEntry<D>>) -> Seq<Persist<D>> {
    let writes = entries.map_values(|entry: EzEntry<D>| Persist::LogEntry(entry));
    if entries.len() == 0 {
        writes
    } else {
        writes.push(Persist::Meta(ending_at(meta, Some(entries.last().log_id))))
    }
}

/// What truncating the log after `last` writes: the new end first, then the delete
pub open spec fn truncate_ops<D>(meta: EzMeta, last: Option<EzLogId>) -> Seq<Persist<D>> {
    seq![
        Persist::Meta(ending_at(meta, last)),
        Persist::DeleteLogs { from: index_after(last) as u64, to: u64::MAX },
    ]
}

/// What purging the log up to `purged` writes: the purge point first, then the delete
pub open spec fn purge_ops<D>(meta: EzMeta, purged: EzLogId) -> Seq<Persist<D>> {
    seq![
        Persist::Meta(purged_at(meta, purged)),
        Persist::DeleteLogs { from: 0, to: (purged.1 + 1) as u64 },
    ]
}

/// A batch of entries on its way into the log
///
/// [`LogStore::append_next`] takes one write at a time out of it.
#[derive(Debug)]
#[verifier::reject_recursive_types(D)]
pub struct Append<D> {
    entries: VecDeque<EzEntry<D>>,

    /// The last entry handed out, until the metadata that names it was
    unrecorded: Option<EzLogId>,
}

impl<D> Append<D> {
    /// The entries that are still to be written
    pub closed spec fn entries(self) -> Seq<EzEntry<D>> {
        self.entries@
    }

    /// The last entry that was written and that the metadata does not name yet
    pub closed spec fn unrecorded(self) -> Option<EzLogId> {
        self.unrecorded
    }

    /// The writes that are still to come, with the log as `meta` has it
    pub open spec fn remaining(self, meta: EzMeta) -> Seq<Persist<D>> {
        if self.entries().len() == 0 && self.unrecorded() is Some {
            seq![Persist::Meta(ending_at(meta, self.unrecorded()))]
        } else {
            append_ops(meta, self.entries())
        }
    }

    /// A batch of which nothing was written yet
    pub fn new(entries: VecDeque<EzEntry<D>>) -> (batch: Append<D>)
        ensures
            batch.entries() == entries@,
            batch.unrecorded() is None,
            forall|meta: EzMeta| #[trigger] batch.remaining(meta) == append_ops(meta, entries@),
    {
        Append { entries, unrecorded: None }
    }
}

impl LogStore {
    /// The metadata as it was last written, or is being written
    pub closed spec fn meta(self) -> EzMeta {
        self.meta
    }

    /// The log that `meta` describes
    pub fn new(meta: EzMeta) -> (log: LogStore)
        ensures
            log.meta() == meta,
    {
        LogStore { meta }
    }

    /// The metadata, to be edited and given back to [`Self::save_meta`]
    pub fn current_meta(&self) -> (meta: EzMeta)
        ensures
            meta == self.meta(),
    {
        self.meta
    }

    /// Update metadata, and return it as it is to be persisted
    ///
    /// The log positions are made consistent here, on the one path every metadata write takes.
    pub fn save_meta(&mut self, edited: EzMeta) -> (saved: EzMeta)
        ensures
            saved == edited.repaired(),
            saved.positions_ordered(),
            final(self).meta() == saved,
    {
        self.meta = edited;
        self.meta.repair();
        self.meta
    }

    /// Who the node is, as its start asks for it
    pub fn identity<E>(&self) -> (answer: StartAnswer<E>)
        ensures
            answer == stored_identity::<E>(self.meta()),
    {
        StartAnswer::Stored {
            node_id: self.meta.node_id,
            promotion_pending: self.meta.promotion_pending,
        }
    }

    /// The node id, if the node was given one
    pub fn node_id(&self) -> (id: Option<u64>)
        ensures
            id == self.meta().node_id,
    {
        self.meta.node_id
    }

    /// Whether a promotion this node asked for is still owed to it
    pub fn promotion_pending(&self) -> (pending: bool)
        ensures
            pending == self.meta().promotion_pending,
    {
        self.meta.promotion_pending
    }

    /// Where the log begins and ends
    pub fn get_log_state(&self) -> (state: LogState)
        ensures
            state.last_purged_log_id == self.meta().last_purged,
            state.last_log_id == self.meta().last_log_id,
    {
        LogState { last_purged_log_id: self.meta.last_purged, last_log_id: self.meta.last_log_id }
    }

    /// The vote last saved
    pub fn read_vote(&self) -> (vote: Option<EzVote>)
        ensures
            vote == self.meta().vote,
    {
        self.meta.vote
    }

    /// Record a vote, and return the metadata to be persisted
    pub fn save_vote(&mut self, vote: EzVote) -> (saved: EzMeta)
        ensures
            saved == (EzMeta { vote: Some(vote), ..old(self).meta() }).repaired(),
            saved.positions_ordered(),
            final(self).meta() == saved,
    {
        let edited = EzMeta { vote: Some(vote), ..self.meta };
        self.save_meta(edited)
    }

    /// Record who the node is, and whether a promotion is owed to it, and return the metadata to
    /// be persisted
    pub fn save_identity(&mut self, node_id: u64, promotion_pending: bool) -> (saved: EzMeta)
        ensures
            saved == old(self).meta().identified(node_id, promotion_pending).repaired(),
            saved.positions_ordered(),
            final(self).meta() == saved,
    {
        let edited = EzMeta { node_id: Some(node_id), promotion_pending, ..self.meta };
        self.save_meta(edited)
    }

    /// Record that the promotion owed to the node is done, and return the metadata to be persisted
    pub fn save_promoted(&mut self) -> (saved: EzMeta)
        ensures
            saved == old(self).meta().promoted().repaired(),
            saved.positions_ordered(),
            final(self).meta() == saved,
    {
        let edited = EzMeta { promotion_pending: false, ..self.meta };
        self.save_meta(edited)
    }

    /// The next write of a batch, to be asked for once the one before it was carried out
    ///
    /// The metadata moves only when every entry of the batch is there, so no reader can observe
    /// a log that reaches past the end recorded for it. A batch of no entries writes nothing.
    pub fn append_next<D>(&mut self, batch: &mut Append<D>) -> (op: Option<Persist<D>>)
        ensures
            match op {
                Some(op) => {
                    &&& old(batch).remaining(old(self).meta()).len() > 0
                    &&& op == old(batch).remaining(old(self).meta())[0]
                    &&& final(batch).remaining(final(self).meta()) == old(batch).remaining(
                        old(self).meta(),
                    ).drop_first()
                    &&& op matches Persist::Meta(meta) ==> final(self).meta() == meta
                        && meta.positions_ordered()
                    &&& !(op is Meta) ==> final(self).meta() == old(self).meta()
                    &&& match op {
                        Persist::LogEntry(entry) => {
                            &&& old(batch).entries().len() > 0
                            &&& entry == old(batch).entries()[0]
                            &&& final(batch).entries() == old(batch).entries().drop_first()
                            &&& final(batch).unrecorded() == Some(entry.log_id)
                        },
                        _ => {
                            &&& op is Meta
                            &&& old(batch).entries().len() == 0
                            &&& old(batch).unrecorded() is Some
                            &&& final(batch).entries().len() == 0
                            &&& final(batch).unrecorded() is None
                        },
                    }
                },
                None => {
                    &&& old(batch).remaining(old(self).meta()).len() == 0
                    &&& old(batch).entries().len() == 0
                    &&& old(batch).unrecorded() is None
                    &&& final(batch).remaining(final(self).meta()).len() == 0
                    &&& final(self).meta() == old(self).meta()
                },
            },
    {
        let ghost before = batch.remaining(self.meta());
        let ghost entries = batch.entries@;
        match batch.entries.pop_front() {
            Some(entry) => {
                batch.unrecorded = Some(entry.log_id);
                proof {
                    let after = batch.remaining(self.meta());
                    assert(batch.entries@ =~= entries.drop_first());
                    assert(before[0] == Persist::LogEntry(entry));
                    assert(after =~= before.drop_first());
                }
                Some(Persist::LogEntry(entry))
            },
            None => match batch.unrecorded {
                Some(log_id) => {
                    let edited = EzMeta { last_log_id: Some(log_id), ..self.meta };
                    let saved = self.save_meta(edited);
                    batch.unrecorded = None;
                    assert(batch.remaining(self.meta()) =~= before.drop_first());
                    Some(Persist::Meta(saved))
                },
                None => None,
            },
        }
    }

    /// Drop every entry after `last`, and return what that writes
    ///
    /// The position first. A crash between the two then leaves entries past the recorded end,
    /// which no read reaches and the next append overwrites; deleting first would leave metadata
    /// promising entries that are already gone.
    pub fn truncate_after<D>(&mut self, last: Option<EzLogId>) -> (ops: Vec<Persist<D>>)
        requires
            index_after(last) <= u64::MAX,
        ensures
            ops@ == truncate_ops::<D>(old(self).meta(), last),
            final(self).meta() == ending_at(old(self).meta(), last),
            final(self).meta().positions_ordered(),
    {
        let from: u64 = index_after_log_id(last);
        let edited = EzMeta { last_log_id: last, ..self.meta };
        let saved = self.save_meta(edited);
        let mut ops: Vec<Persist<D>> = Vec::new();
        ops.push(Persist::Meta(saved));
        ops.push(Persist::DeleteLogs { from, to: u64::MAX });
        assert(ops@ =~= truncate_ops::<D>(old(self).meta(), last));
        ops
    }

    /// Drop every entry up to and with `purged`, and return what that writes
    ///
    /// The position first, as in [`Self::truncate_after`]: entries below the recorded purge point
    /// are already unreachable, whereas a purge point lagging the delete points reads at entries
    /// that are gone.
    pub fn purge<D>(&mut self, purged: EzLogId) -> (ops: Vec<Persist<D>>)
        requires
            purged.1 < u64::MAX,
        ensures
            ops@ == purge_ops::<D>(old(self).meta(), purged),
            final(self).meta() == purged_at(old(self).meta(), purged),
            final(self).meta().positions_ordered(),
    {
        let edited = EzMeta { last_purged: Some(purged), ..self.meta };
        let saved = self.save_meta(edited);
        let mut ops: Vec<Persist<D>> = Vec::new();
        ops.push(Persist::Meta(saved));
        ops.push(Persist::DeleteLogs { from: 0, to: purged.1 + 1 });
        assert(ops@ =~= purge_ops::<D>(old(self).meta(), purged));
        ops
    }

    /// The indexes to read for a range: those of it that the log has, from the first up to and
    /// without the second, or nothing where the log has none of it
    pub fn try_get_log_entries(&self, start: IndexBound, end: IndexBound) -> (range: Option<
        (u64, u64),
    >)
        requires
            index_after(self.meta().last_purged) <= u64::MAX,
            index_after(self.meta().last_log_id) <= u64::MAX,
            start != IndexBound::Excluded(u64::MAX),
            end != IndexBound::Included(u64::MAX),
        ensures
            match range {
                Some((from, to)) => {
                    &&& from < to
                    &&& forall|i: int|
                        from <= i < to <==> (start.admits_from(i) && end.admits_to(i)
                            && #[trigger] promised(self.meta(), i))
                },
                None => forall|i: int|
                    start.admits_from(i) && end.admits_to(i) ==> !#[trigger] promised(
                        self.meta(),
                        i,
                    ),
            },
    {
        // Available log range: [lo, hi)
        let lo: u64 = index_after_log_id(self.meta.last_purged);
        let hi: u64 = index_after_log_id(self.meta.last_log_id);
        let first: u64 = match start {
            IndexBound::Included(x) => x,
            IndexBound::Excluded(x) => x + 1,
            IndexBound::Unbounded => 0,
        };
        let past: u64 = match end {
            IndexBound::Included(x) => x + 1,
            IndexBound::Excluded(x) => x,
            IndexBound::Unbounded => hi,
        };
        // Clamp to available range
        let from: u64 = if first < lo {
            lo
        } else {
            first
        };
        let to: u64 = if past < hi {
            past
        } else {
            hi
        };
        if from >= to {
            None
        } else {
            Some((from, to))
        }
    }
}

/// What a start finds that finds the metadata `meta`
pub open spec fn world_of(meta: EzMeta, fresh_id: u64) -> StartWorld {
    StartWorld { stored_id: meta.node_id, stored_pending: meta.promotion_pending, fresh_id }
}

/// A node that saved who it is starts as that node from then on: a start that finds the metadata
/// is answered with the id and with whether a promotion is owed, goes on to start Raft under that
/// id, and asks for the promotion again if and only if it is owed and there is a seed to ask.
pub proof fn law_saved_identity_is_found_at_the_next_start<E>(
    meta: EzMeta,
    node_id: u64,
    promotion_pending: bool,
    addr: Seq<char>,
    seed: Option<(Seq<char>, NodeRole)>,
    fresh_id: u64,
)
    ensures
        ({
            let saved = meta.identified(node_id, promotion_pending).repaired();
            let steps = StartView::first(addr, seed).steps(world_of(saved, fresh_id));
            &&& stored_identity::<E>(saved) == (StartAnswer::<E>::Stored {
                node_id: Some(node_id),
                promotion_pending,
            })
            &&& steps[2] == (StartStepView::StartRaft { node_id })
            &&& steps.last() == (StartStepView::Ready {
                node_id,
                addr,
                promote_via: match seed {
                    Some((via, _)) if promotion_pending => Some(via),
                    _ => None,
                },
            })
        }),
{
    let saved = meta.identified(node_id, promotion_pending).repaired();
    law_start_takes_these_steps(addr, seed, world_of(saved, fresh_id));
}

/// A promotion that was recorded as done is never asked for again, and the node stays who it is.
pub proof fn law_recorded_promotion_is_not_asked_for_again(
    meta: EzMeta,
    node_id: u64,
    addr: Seq<char>,
    seed: Option<(Seq<char>, NodeRole)>,
    fresh_id: u64,
)
    requires
        meta.node_id == Some(node_id),
    ensures
        ({
            let saved = meta.promoted().repaired();
            let steps = StartView::first(addr, seed).steps(world_of(saved, fresh_id));
            &&& saved.node_id == Some(node_id)
            &&& steps.last() == (StartStepView::Ready { node_id, addr, promote_via: None })
        }),
{
    law_start_takes_these_steps(addr, seed, world_of(meta.promoted().repaired(), fresh_id));
}

/// Nothing that the log writes down changes who the node is, or whether a promotion is owed to it.
pub proof fn law_log_writes_keep_the_identity<E>(
    meta: EzMeta,
    vote: EzVote,
    last: Option<EzLogId>,
    purged: EzLogId,
)
    ensures
        stored_identity::<E>((EzMeta { vote: Some(vote), ..meta }).repaired()) == stored_identity::<
            E,
        >(meta),
        stored_identity::<E>(ending_at(meta, last)) == stored_identity::<E>(meta),
        stored_identity::<E>(purged_at(meta, purged)) == stored_identity::<E>(meta),
{
}

/// Whether `entries` continue the log that `meta` bounds: consecutive indexes from the first free
/// one on, under log ids that do not go back
pub open spec fn continues<D>(meta: EzMeta, entries: Seq<EzEntry<D>>) -> bool {
    forall|j: int|
        0 <= j < entries.len() ==> (#[trigger] entries[j]).log_id.1 == index_after(meta.last_log_id)
            + j && log_id_le(meta.last_log_id, Some(entries[j].log_id))
}

/// What is held once the first `k` of `entries` were written
proof fn lemma_entries_written<D>(disk: Disk<D>, entries: Seq<EzEntry<D>>, k: int)
    requires
        0 <= k <= entries.len(),
        continues(disk.meta, entries),
    ensures
        ({
            let writes = entries.map_values(|entry: EzEntry<D>| Persist::LogEntry(entry)).take(k);
            let next = disk.persisted_all(writes);
            &&& next.meta == disk.meta
            &&& next.snapshot == disk.snapshot
            &&& forall|i: u64|
                i < index_after(disk.meta.last_log_id) ==> (#[trigger] next.logs.contains_key(i)
                    <==> disk.logs.contains_key(i)) && next.logs[i] == disk.logs[i]
            &&& forall|j: int|
                0 <= j < k ==> next.logs.contains_key((#[trigger] entries[j]).log_id.1)
                    && next.logs[entries[j].log_id.1] == entries[j]
        }),
    decreases k,
{
    let all = entries.map_values(|entry: EzEntry<D>| Persist::LogEntry(entry));
    let writes = all.take(k);
    if k > 0 {
        lemma_entries_written(disk, entries, k - 1);
        assert(writes.drop_last() =~= all.take(k - 1));
        assert(writes.last() == Persist::LogEntry(entries[k - 1]));
    }
}

/// A crash anywhere while a batch is appended leaves a storage that a node can start from: the
/// batch continues the log, and `k` of its writes were carried out.
pub proof fn law_append_survives_a_crash<D>(disk: Disk<D>, entries: Seq<EzEntry<D>>, k: int)
    requires
        disk.consistent(),
        continues(disk.meta, entries),
        0 <= k <= append_ops(disk.meta, entries).len(),
    ensures
        disk.persisted_all(append_ops(disk.meta, entries).take(k)).consistent(),
{
    let ops = append_ops(disk.meta, entries);
    let writes = entries.map_values(|entry: EzEntry<D>| Persist::LogEntry(entry));
    let done = ops.take(k);
    if k <= entries.len() {
        lemma_entries_written(disk, entries, k);
        assert(done =~= writes.take(k));
    } else {
        law_appended_entries_are_read_back(disk, entries);
        assert(done =~= ops);
    }
}

/// An append that was carried out whole leaves a log that a node can start from, that ends at the
/// last entry of the batch and holds every entry of it, readable unless it was purged already,
/// and that keeps what it held before.
pub proof fn law_appended_entries_are_read_back<D>(disk: Disk<D>, entries: Seq<EzEntry<D>>)
    requires
        disk.consistent(),
        continues(disk.meta, entries),
        entries.len() > 0,
    ensures
        ({
            let next = disk.persisted_all(append_ops(disk.meta, entries));
            &&& next.consistent()
            &&& next.meta == ending_at(disk.meta, Some(entries.last().log_id))
            &&& next.meta.last_log_id == Some(entries.last().log_id)
            &&& forall|j: int|
                0 <= j < entries.len() && index_after(disk.meta.last_purged) <= (
                #[trigger] entries[j]).log_id.1 ==> promised(
                    next.meta,
                    entries[j].log_id.1 as int,
                )
            &&& forall|j: int|
                0 <= j < entries.len() ==> next.logs.contains_key((#[trigger] entries[j]).log_id.1)
                    && next.logs[entries[j].log_id.1] == entries[j]
            &&& forall|i: u64| #[trigger]
                promised(disk.meta, i as int) ==> next.logs.contains_key(i) && next.logs[i]
                    == disk.logs[i]
        }),
{
    let ops = append_ops(disk.meta, entries);
    let writes = entries.map_values(|entry: EzEntry<D>| Persist::LogEntry(entry));
    let n = entries.len() as int;
    lemma_entries_written(disk, entries, n);
    assert(writes.take(n) =~= writes);
    assert(ops.drop_last() =~= writes);
    let next = disk.persisted_all(ops);
    assert(entries[n - 1] == entries.last());
    assert forall|i: u64| #[trigger] promised(next.meta, i as int) implies next.logs.contains_key(i)
        && next.logs[i].log_id.1 == i by {
        let first = index_after(disk.meta.last_log_id);
        if i >= first {
            let j = i - first;
            assert(entries[j].log_id.1 == i);
        } else {
            assert(promised(disk.meta, i as int));
        }
    }
}

/// A crash anywhere while the log is truncated leaves a storage that a node can start from: the
/// new end is not past the old one, and `k` of the two writes were carried out.
pub proof fn law_truncate_survives_a_crash<D>(disk: Disk<D>, last: Option<EzLogId>, k: int)
    requires
        disk.consistent(),
        index_after(last) <= index_after(disk.meta.last_log_id) <= u64::MAX,
        0 <= k <= 2,
    ensures
        disk.persisted_all(truncate_ops(disk.meta, last).take(k)).consistent(),
{
    let ops = truncate_ops::<D>(disk.meta, last);
    lemma_two_ops(disk, ops, k);
    let next = disk.persisted_all(ops.take(k));
    assert forall|i: u64| #[trigger] promised(next.meta, i as int) implies next.logs.contains_key(i)
        && next.logs[i].log_id.1 == i by {
        assert(promised(disk.meta, i as int));
    }
}

/// A crash anywhere while the log is purged leaves a storage that a node can start from: the
/// purge point does not go back, and `k` of the two writes were carried out.
///
/// The purge point may pass the end of the log, as it does after a snapshot was installed.
pub proof fn law_purge_survives_a_crash<D>(disk: Disk<D>, purged: EzLogId, k: int)
    requires
        disk.consistent(),
        index_after(disk.meta.last_purged) <= purged.1 + 1 <= u64::MAX,
        0 <= k <= 2,
    ensures
        disk.persisted_all(purge_ops(disk.meta, purged).take(k)).consistent(),
{
    let ops = purge_ops::<D>(disk.meta, purged);
    lemma_two_ops(disk, ops, k);
    let next = disk.persisted_all(ops.take(k));
    assert forall|i: u64| #[trigger] promised(next.meta, i as int) implies next.logs.contains_key(i)
        && next.logs[i].log_id.1 == i by {
        assert(promised(disk.meta, i as int));
    }
}

/// What is held after the first `k` of two writes
proof fn lemma_two_ops<D>(disk: Disk<D>, ops: Seq<Persist<D>>, k: int)
    requires
        ops.len() == 2,
        0 <= k <= 2,
    ensures
        k == 0 ==> disk.persisted_all(ops.take(k)) == disk,
        k == 1 ==> disk.persisted_all(ops.take(k)) == disk.persisted(ops[0]),
        k == 2 ==> disk.persisted_all(ops.take(k)) == disk.persisted(ops[0]).persisted(ops[1]),
{
    reveal_with_fuel(Disk::persisted_all, 3);
    if k == 1 {
        assert(ops.take(1).drop_last() =~= Seq::empty());
    }
    if k == 2 {
        assert(ops.take(2).drop_last() =~= ops.take(1));
        assert(ops.take(1).drop_last() =~= Seq::empty());
    }
}

/// An append writes over no entry that can be read: at the time of each of its writes, the
/// metadata promises nothing of the index that is written.
pub proof fn law_append_writes_past_the_end<D>(disk: Disk<D>, entries: Seq<EzEntry<D>>, k: int)
    requires
        continues(disk.meta, entries),
        0 <= k < entries.len(),
    ensures
        append_ops(disk.meta, entries)[k] == Persist::LogEntry(entries[k]),
        !promised(
            disk.persisted_all(append_ops(disk.meta, entries).take(k)).meta,
            entries[k].log_id.1 as int,
        ),
{
    let writes = entries.map_values(|entry: EzEntry<D>| Persist::LogEntry(entry));
    lemma_entries_written(disk, entries, k);
    assert(append_ops(disk.meta, entries).take(k) =~= writes.take(k));
}

/// A truncation and a purge delete no entry that can be read: at the time of the delete, the
/// metadata promises nothing of the range that is deleted.
pub proof fn law_deletes_spare_what_is_promised<D>(
    disk: Disk<D>,
    last: Option<EzLogId>,
    purged: EzLogId,
    i: u64,
)
    requires
        index_after(last) <= u64::MAX,
        purged.1 < u64::MAX,
    ensures
        ({
            let ops = truncate_ops::<D>(disk.meta, last);
            &&& promised(disk.persisted_all(ops.take(1)).meta, i as int) ==> i < index_after(last)
            &&& ops[1] == (Persist::<D>::DeleteLogs { from: index_after(last) as u64, to: u64::MAX })
        }),
        ({
            let ops = purge_ops::<D>(disk.meta, purged);
            &&& promised(disk.persisted_all(ops.take(1)).meta, i as int) ==> i > purged.1
            &&& ops[1] == (Persist::<D>::DeleteLogs { from: 0, to: (purged.1 + 1) as u64 })
        }),
{
    lemma_two_ops(disk, truncate_ops::<D>(disk.meta, last), 1);
    lemma_two_ops(disk, purge_ops::<D>(disk.meta, purged), 1);
}

/// A truncation that was carried out whole takes the entries after the new end and no others, and
/// leaves the storage with the metadata that the log has.
pub proof fn law_truncate_takes_the_tail<D>(disk: Disk<D>, last: Option<EzLogId>, i: u64)
    requires
        index_after(last) <= u64::MAX,
        i < u64::MAX,
    ensures
        ({
            let next = disk.persisted_all(truncate_ops(disk.meta, last));
            &&& next.meta == ending_at(disk.meta, last)
            &&& next.snapshot == disk.snapshot
            &&& next.logs.contains_key(i) <==> disk.logs.contains_key(i) && i < index_after(last)
            &&& next.logs.contains_key(i) ==> next.logs[i] == disk.logs[i]
        }),
{
    let ops = truncate_ops::<D>(disk.meta, last);
    lemma_two_ops(disk, ops, 2);
    assert(ops.take(2) =~= ops);
}

/// A purge that was carried out whole takes the entries up to the purge point and no others, and
/// leaves the storage with the metadata that the log has.
pub proof fn law_purge_takes_the_front<D>(disk: Disk<D>, purged: EzLogId, i: u64)
    requires
        purged.1 < u64::MAX,
    ensures
        ({
            let next = disk.persisted_all(purge_ops(disk.meta, purged));
            &&& next.meta == purged_at(disk.meta, purged)
            &&& next.snapshot == disk.snapshot
            &&& next.logs.contains_key(i) <==> disk.logs.contains_key(i) && i > purged.1
            &&& next.logs.contains_key(i) ==> next.logs[i] == disk.logs[i]
        }),
{
    let ops = purge_ops::<D>(disk.meta, purged);
    lemma_two_ops(disk, ops, 2);
    assert(ops.take(2) =~= ops);
}

/// A read that is confined to what the metadata promises finds every entry it asks for, on a
/// storage that a node can start from.
pub proof fn law_promised_entries_are_there<D>(disk: Disk<D>, from: u64, to: u64, i: u64)
    requires
        disk.consistent(),
        from <= i < to,
        forall|j: int| from <= j < to ==> #[trigger] promised(disk.meta, j),
    ensures
        disk.logs.contains_key(i),
        disk.logs[i].log_id.1 == i,
{
    assert(promised(disk.meta, i as int));
}

/// A purge past the end of the log, which is what follows an installed snapshot, leaves a log
/// that ends at the purge point and promises nothing.
pub proof fn law_purge_past_the_end_empties_the_log(meta: EzMeta, purged: EzLogId, i: int)
    requires
        log_id_le(meta.last_log_id, Some(purged)),
    ensures
        purged_at(meta, purged).last_log_id == Some(purged),
        purged_at(meta, purged).positions_ordered(),
        !promised(purged_at(meta, purged), i),
{
}

/// Moving the end of the log changes nothing else of what a node remembers: not its vote, so that
/// it votes no second time in a term, not its purge point, and not who it is. The log ends where it
/// was to end, or at the purge point where that is later.
pub proof fn law_moving_the_end_keeps_vote_and_purge_point(meta: EzMeta, last: Option<EzLogId>)
    ensures
        ({
            let next = ending_at(meta, last);
            &&& next.vote == meta.vote
            &&& next.last_purged == meta.last_purged
            &&& next.node_id == meta.node_id
            &&& next.promotion_pending == meta.promotion_pending
            &&& log_id_le(meta.last_purged, last) ==> next.last_log_id == last
            &&& !log_id_le(meta.last_purged, last) ==> next.last_log_id == meta.last_purged
        }),
{
}

/// Moving the purge point changes nothing else of what a node remembers but the end of a log that
/// stopped short of it.
pub proof fn law_moving_the_purge_point_keeps_vote_and_end(meta: EzMeta, purged: EzLogId)
    ensures
        ({
            let next = purged_at(meta, purged);
            &&& next.last_purged == Some(purged)
            &&& next.vote == meta.vote
            &&& next.node_id == meta.node_id
            &&& next.promotion_pending == meta.promotion_pending
            &&& log_id_le(Some(purged), meta.last_log_id) ==> next.last_log_id == meta.last_log_id
            &&& !log_id_le(Some(purged), meta.last_log_id) ==> next.last_log_id == Some(purged)
        }),
{
}

/// An append writes every entry of the batch, as it is and in order, and after them one metadata,
/// which keeps the vote and the purge point and ends the log at the last entry, or at a purge point
/// past it. A batch of no entries writes nothing.
pub proof fn law_append_writes_every_entry_then_the_end<D>(
    meta: EzMeta,
    entries: Seq<EzEntry<D>>,
    j: int,
)
    ensures
        entries.len() == 0 ==> append_ops(meta, entries).len() == 0,
        entries.len() > 0 ==> append_ops(meta, entries).len() == entries.len() + 1,
        0 <= j < entries.len() ==> append_ops(meta, entries)[j] == Persist::LogEntry(entries[j]),
        entries.len() > 0 ==> {
            let last = Some(entries[entries.len() - 1].log_id);
            &&& append_ops(meta, entries)[entries.len() as int] matches Persist::Meta(written)
            &&& written.vote == meta.vote
            &&& written.last_purged == meta.last_purged
            &&& written.node_id == meta.node_id
            &&& written.promotion_pending == meta.promotion_pending
            &&& log_id_le(meta.last_purged, last) ==> written.last_log_id == last
            &&& !log_id_le(meta.last_purged, last) ==> written.last_log_id == meta.last_purged
        },
{
}

/// A truncation writes the new end of the log, with the vote and the purge point as they were, and
/// then deletes every index after it.
pub proof fn law_truncate_writes_the_end_then_deletes<D>(meta: EzMeta, last: Option<EzLogId>)
    requires
        last matches Some(last) ==> last.1 < u64::MAX,
    ensures
        ({
            let ops = truncate_ops::<D>(meta, last);
            &&& ops.len() == 2
            &&& ops[0] matches Persist::Meta(written)
            &&& written.vote == meta.vote
            &&& written.last_purged == meta.last_purged
            &&& written.node_id == meta.node_id
            &&& written.promotion_pending == meta.promotion_pending
            &&& log_id_le(meta.last_purged, last) ==> written.last_log_id == last
            &&& !log_id_le(meta.last_purged, last) ==> written.last_log_id == meta.last_purged
            &&& ops[1] matches Persist::DeleteLogs { from, to }
            &&& to == u64::MAX
            &&& last is None ==> from == 0
            &&& last matches Some(last) ==> from == last.1 + 1
        }),
{
}

/// A purge writes the new purge point, with the vote as it was, and then deletes every index up to
/// and with it.
pub proof fn law_purge_writes_the_purge_point_then_deletes<D>(meta: EzMeta, purged: EzLogId)
    requires
        purged.1 < u64::MAX,
    ensures
        ({
            let ops = purge_ops::<D>(meta, purged);
            &&& ops.len() == 2
            &&& ops[0] matches Persist::Meta(written)
            &&& written.vote == meta.vote
            &&& written.last_purged == Some(purged)
            &&& written.node_id == meta.node_id
            &&& written.promotion_pending == meta.promotion_pending
            &&& log_id_le(Some(purged), meta.last_log_id) ==> written.last_log_id
                == meta.last_log_id
            &&& !log_id_le(Some(purged), meta.last_log_id) ==> written.last_log_id == Some(purged)
            &&& ops[1] matches Persist::DeleteLogs { from, to }
            &&& from == 0
            &&& to == purged.1 + 1
        }),
{
}

/// A bound admits its own index if it is included, and none beyond it; at a bound that is not there
/// every index is admitted.
pub proof fn law_bounds_admit_one_side(x: u64, i: int)
    ensures
        IndexBound::Included(x).admits_from(i) <==> i >= x,
        IndexBound::Excluded(x).admits_from(i) <==> i >= x + 1,
        IndexBound::Unbounded.admits_from(i),
        IndexBound::Included(x).admits_to(i) <==> i < x + 1,
        IndexBound::Excluded(x).admits_to(i) <==> i < x,
        IndexBound::Unbounded.admits_to(i),
{
}

/// What is left of a batch is the entries that were not written yet, and then one metadata, which
/// is that of the log as it is now but for its end: the last entry that was written. Nothing is
/// left once that was recorded.
pub proof fn law_rest_of_a_batch_is_entries_then_the_end<D>(batch: Append<D>, meta: EzMeta, j: int)
    ensures
        ({
            let left = batch.remaining(meta);
            let entries = batch.entries();
            &&& 0 <= j < entries.len() ==> left.len() == entries.len() + 1 && left[j]
                == Persist::LogEntry(entries[j])
            &&& entries.len() == 0 && batch.unrecorded() is None ==> left.len() == 0
            &&& entries.len() == 0 && batch.unrecorded() is Some ==> {
                &&& left.len() == 1
                &&& left[0] matches Persist::Meta(written)
                &&& written.vote == meta.vote
                &&& written.last_purged == meta.last_purged
                &&& written.node_id == meta.node_id
                &&& written.promotion_pending == meta.promotion_pending
                &&& log_id_le(meta.last_purged, batch.unrecorded()) ==> written.last_log_id
                    == batch.unrecorded()
                &&& !log_id_le(meta.last_purged, batch.unrecorded()) ==> written.last_log_id
                    == meta.last_purged
            }
        }),
{
}

/// A vote that was saved is the one that is read, on the store that saved it and on one that is
/// opened from the metadata that it wrote.
pub proof fn law_saved_vote_is_read_back(
    log: &mut LogStore,
    vote: EzVote,
    saved: EzMeta,
    reopened: LogStore,
    read: Option<EzVote>,
    read_again: Option<EzVote>,
)
    requires
        call_ensures(LogStore::save_vote, (log, vote), saved),
        call_ensures(LogStore::read_vote, (final(log),), read),
        call_ensures(LogStore::new, (saved,), reopened),
        call_ensures(LogStore::read_vote, (&reopened,), read_again),
    ensures
        read == Some(vote),
        read_again == Some(vote),
{
}

/// A vote stays what it was whatever else is written: an append, a truncation, a purge, and saying
/// who the node is, leave the vote that is read before as the one that is read after, and as the
/// one in every metadata that they write.
pub proof fn law_vote_outlives_every_other_write<D>(
    log: &mut LogStore,
    before: Option<EzVote>,
    after: Option<EzVote>,
    batch: &mut Append<D>,
    appended: Option<Persist<D>>,
    last: Option<EzLogId>,
    purged: EzLogId,
    ops: Vec<Persist<D>>,
    node_id: u64,
    promotion_pending: bool,
    saved: EzMeta,
)
    requires
        call_ensures(LogStore::read_vote, (log,), before),
        call_ensures(LogStore::read_vote, (final(log),), after),
    ensures
        call_ensures(LogStore::append_next::<D>, (log, batch), appended) ==> after == before && (
        appended matches Some(Persist::Meta(written)) ==> written.vote == before),
        call_ensures(LogStore::truncate_after::<D>, (log, last), ops) ==> after == before && (
        ops@[0] matches Persist::Meta(written) && written.vote == before),
        call_ensures(LogStore::purge::<D>, (log, purged), ops) ==> after == before && (
        ops@[0] matches Persist::Meta(written) && written.vote == before),
        call_ensures(LogStore::save_identity, (log, node_id, promotion_pending), saved) ==> after
            == before && saved.vote == before,
        call_ensures(LogStore::save_promoted, (log,), saved) ==> after == before && saved.vote
            == before,
{
    if call_ensures(LogStore::append_next::<D>, (log, batch), appended) {
        law_rest_of_a_batch_is_entries_then_the_end(*batch, log.meta(), 0);
    }
}

/// An append hands out the entries of its batch, each as it is and in order, and moves the end of
/// the log only once all of them were handed out, to the last of them. Where the log begins it
/// never changes.
pub proof fn law_append_moves_the_end_after_the_last_entry<D>(
    log: &mut LogStore,
    batch: &mut Append<D>,
    op: Option<Persist<D>>,
    before: LogState,
    after: LogState,
)
    requires
        call_ensures(LogStore::append_next::<D>, (log, batch), op),
        call_ensures(LogStore::get_log_state, (log,), before),
        call_ensures(LogStore::get_log_state, (final(log),), after),
    ensures
        after.last_purged_log_id == before.last_purged_log_id,
        old(batch).entries().len() > 0 ==> after.last_log_id == before.last_log_id && op == Some(
            Persist::LogEntry(old(batch).entries()[0]),
        ) && final(batch).entries() == old(batch).entries().drop_first(),
        old(batch).entries().len() == 0 && old(batch).unrecorded() is None ==> op is None && after == before,
        old(batch).entries().len() == 0 && old(batch).unrecorded() is Some && log_id_le(
            before.last_purged_log_id,
            old(batch).unrecorded(),
        ) ==> after.last_log_id == old(batch).unrecorded() && (op matches Some(Persist::Meta(written))
            && written.last_log_id == old(batch).unrecorded()),
{
    law_rest_of_a_batch_is_entries_then_the_end(*batch, log.meta(), 0);
}

/// A truncation ends the log at the entry it names, and a purge begins it past the entry that it
/// names; neither moves the other end, but for a log that would end before it begins.
pub proof fn law_truncate_and_purge_move_one_end<D>(
    log: &mut LogStore,
    before: LogState,
    after: LogState,
    last: Option<EzLogId>,
    purged: EzLogId,
    ops: Vec<Persist<D>>,
)
    requires
        call_ensures(LogStore::get_log_state, (log,), before),
        call_ensures(LogStore::get_log_state, (final(log),), after),
    ensures
        call_ensures(LogStore::truncate_after::<D>, (log, last), ops) ==> {
            &&& after.last_purged_log_id == before.last_purged_log_id
            &&& log_id_le(before.last_purged_log_id, last) ==> after.last_log_id == last
        },
        call_ensures(LogStore::purge::<D>, (log, purged), ops) ==> {
            &&& after.last_purged_log_id == Some(purged)
            &&& log_id_le(Some(purged), before.last_log_id) ==> after.last_log_id
                == before.last_log_id
            &&& !log_id_le(Some(purged), before.last_log_id) ==> after.last_log_id == Some(purged)
        },
{
}

/// Who a node is, once saved, is what its start is told, and so is whether a promotion is owed,
/// until that was recorded as done.
pub proof fn law_saved_identity_is_what_the_start_is_told<E>(
    log: &mut LogStore,
    node_id: u64,
    promotion_pending: bool,
    saved: EzMeta,
    reopened: LogStore,
    told: StartAnswer<E>,
)
    requires
        call_ensures(LogStore::new, (saved,), reopened),
        call_ensures(LogStore::identity::<E>, (&reopened,), told),
    ensures
        call_ensures(LogStore::save_identity, (log, node_id, promotion_pending), saved) ==> told
            == (StartAnswer::<E>::Stored { node_id: Some(node_id), promotion_pending }),
        call_ensures(LogStore::save_promoted, (log,), saved) ==> told == (StartAnswer::<E>::Stored {
            node_id: old(log).meta().node_id,
            promotion_pending: false,
        }),
{
}

/// A read is of exactly the indexes asked for that lie past where the log was purged and not past
/// where it ends.
pub proof fn law_read_is_of_what_the_log_has(
    log: &LogStore,
    first: u64,
    past: u64,
    range: Option<(u64, u64)>,
    state: LogState,
    i: int,
)
    requires
        call_ensures(
            LogStore::try_get_log_entries,
            (log, IndexBound::Included(first), IndexBound::Excluded(past)),
            range,
        ),
        call_ensures(LogStore::get_log_state, (log,), state),
    ensures
        (range matches Some((from, to)) && from <= i < to) <==> (first <= i < past && (
        state.last_log_id matches Some(last) && i <= last.1) && (
        state.last_purged_log_id matches Some(purged) ==> purged.1 < i)),
{
    law_entries_between_purge_point_and_end_are_promised(log.meta(), i);
}

} // verus!
