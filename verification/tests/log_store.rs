//! The log: what it writes, in which order, and what it lets be read

use std::collections::BTreeMap;
use std::collections::VecDeque;

use ezraft::entry::EntryPayload;
use ezraft::entry::EzEntry;
use ezraft::entry::EzRequest;
use ezraft::meta::EzMeta;
use ezraft::meta::EzVote;
use ezraft::raft::StartAnswer;
use ezraft::storage::Persist;
use ezraft::storage::adapter::log::Append;
use ezraft::storage::adapter::log::IndexBound;
use ezraft::storage::adapter::log::LogStore;

fn entry(term: u64, index: u64) -> EzEntry<String> {
    EzEntry::new((term, index), EntryPayload::Normal(EzRequest(format!("r{}", index))))
}

fn summaries(ops: &[Persist<String>]) -> Vec<String> {
    ops.iter().map(|op| op.summary()).collect()
}

/// What a storage holds: the metadata, and the log ids of its entries
#[derive(Clone, Default)]
struct MemDisk {
    meta: Option<EzMeta>,
    logs: BTreeMap<u64, (u64, u64)>,
}

impl MemDisk {
    fn persist(&mut self, op: &Persist<String>) {
        match op {
            Persist::Meta(meta) => self.meta = Some(*meta),
            Persist::LogEntry(entry) => {
                self.logs.insert(entry.log_id.1, entry.log_id);
            }
            Persist::Snapshot(_) => {}
            Persist::DeleteLogs { from, to } => self.logs.retain(|i, _| !(from..to).contains(&i)),
        }
    }

    /// Whether every entry that the metadata promises is there
    fn consistent(&self) -> bool {
        let meta = self.meta.unwrap_or_default();
        let lo = meta.last_purged.map(|id| id.1 + 1).unwrap_or(0);
        let hi = meta.last_log_id.map(|id| id.1 + 1).unwrap_or(0);
        meta.last_purged <= meta.last_log_id && (lo..hi).all(|i| self.logs.get(&i).map(|id| id.1) == Some(i))
    }
}

fn append(log: &mut LogStore, disk: &mut MemDisk, entries: Vec<EzEntry<String>>) -> Vec<String> {
    let mut batch = Append::new(VecDeque::from(entries));
    let mut texts = Vec::new();
    while let Some(op) = log.append_next(&mut batch) {
        disk.persist(&op);
        assert!(disk.consistent(), "after {}", op.summary());
        texts.push(op.summary());
    }
    texts
}

/// A log of the indexes 0 to 5, and what it wrote
fn filled() -> (LogStore, MemDisk) {
    let mut log = LogStore::new(EzMeta::default());
    let mut disk = MemDisk::default();
    let texts = append(&mut log, &mut disk, (0..6).map(|i| entry(1, i)).collect());
    assert_eq!(vec!["LogEntry", "LogEntry", "LogEntry", "LogEntry", "LogEntry", "LogEntry", "Meta"], texts);
    (log, disk)
}

#[test]
fn purge_records_the_purge_point_before_deleting() {
    let mut log = LogStore::new(EzMeta::default());

    let ops: Vec<Persist<String>> = log.purge((1, 9));

    assert_eq!(["Meta", "DeleteLogs(0..10)"], summaries(&ops)[..]);
}

#[test]
fn truncate_records_the_new_end_before_deleting() {
    let mut log = LogStore::new(EzMeta::default());

    let ops: Vec<Persist<String>> = log.truncate_after(Some((1, 4)));

    assert_eq!(["Meta".to_string(), format!("DeleteLogs(5..{})", u64::MAX)], summaries(&ops)[..]);
}

#[test]
fn truncate_to_nothing_deletes_from_zero() {
    let (mut log, mut disk) = filled();

    let ops: Vec<Persist<String>> = log.truncate_after(None);
    assert_eq!(["Meta".to_string(), format!("DeleteLogs(0..{})", u64::MAX)], summaries(&ops)[..]);

    for op in &ops {
        disk.persist(op);
    }
    assert!(disk.logs.is_empty());
    assert_eq!(None, log.get_log_state().last_log_id);
}

#[test]
fn summary_names_every_operation() {
    let snapshot = ezraft::storage::adapter::state_machine::StateMachineStore::new::<()>((), None)
        .unwrap()
        .build_snapshot(vec![1]);
    let ops: Vec<Persist<String>> = vec![
        Persist::Meta(EzMeta::default()),
        Persist::LogEntry(entry(1, 2)),
        Persist::Snapshot(snapshot),
        Persist::DeleteLogs { from: 3, to: 14 },
    ];
    assert_eq!(["Meta", "LogEntry", "Snapshot", "DeleteLogs(3..14)"], summaries(&ops)[..]);
}

#[test]
fn appended_entries_can_be_read() {
    let (log, disk) = filled();

    assert_eq!(Some((1, 5)), log.get_log_state().last_log_id);
    assert_eq!(Some((1, 5)), disk.meta.unwrap().last_log_id);
    assert_eq!(Some((0, 6)), log.try_get_log_entries(IndexBound::Unbounded, IndexBound::Unbounded));
    assert_eq!(Some((2, 4)), log.try_get_log_entries(IndexBound::Included(2), IndexBound::Excluded(4)));
    assert_eq!(Some((3, 5)), log.try_get_log_entries(IndexBound::Excluded(2), IndexBound::Included(4)));
    assert_eq!(Some((4, 6)), log.try_get_log_entries(IndexBound::Included(4), IndexBound::Excluded(100)));
    assert_eq!(None, log.try_get_log_entries(IndexBound::Included(6), IndexBound::Unbounded));
    assert_eq!(None, log.try_get_log_entries(IndexBound::Included(4), IndexBound::Excluded(4)));
}

#[test]
fn an_empty_batch_writes_nothing() {
    let mut log = LogStore::new(EzMeta::default());
    let mut batch: Append<String> = Append::new(VecDeque::new());
    assert!(log.append_next(&mut batch).is_none());
    assert_eq!(EzMeta::default(), log.current_meta());
}

#[test]
fn an_empty_log_has_nothing_to_read() {
    let log = LogStore::new(EzMeta::default());
    assert_eq!(None, log.try_get_log_entries(IndexBound::Unbounded, IndexBound::Unbounded));
}

#[test]
fn truncating_survives_a_crash_at_every_point() {
    let (mut log, disk) = filled();
    let ops: Vec<Persist<String>> = log.truncate_after(Some((1, 2)));
    for k in 0..=ops.len() {
        let mut disk = disk.clone();
        ops[..k].iter().for_each(|op| disk.persist(op));
        assert!(disk.consistent(), "after {} writes", k);
    }

    // What is left can be read, and the log goes on from there.
    assert_eq!(Some((0, 3)), log.try_get_log_entries(IndexBound::Unbounded, IndexBound::Unbounded));
    let mut disk = disk;
    ops.iter().for_each(|op| disk.persist(op));
    append(&mut log, &mut disk, vec![entry(2, 3)]);
    assert_eq!(Some(&(2, 3)), disk.logs.get(&3));
    assert_eq!(None, disk.logs.get(&4));
}

#[test]
fn purging_survives_a_crash_at_every_point() {
    let (mut log, disk) = filled();
    let ops: Vec<Persist<String>> = log.purge((1, 2));
    for k in 0..=ops.len() {
        let mut disk = disk.clone();
        ops[..k].iter().for_each(|op| disk.persist(op));
        assert!(disk.consistent(), "after {} writes", k);
    }
    assert_eq!(Some((3, 6)), log.try_get_log_entries(IndexBound::Unbounded, IndexBound::Unbounded));
    assert_eq!(Some((1, 2)), log.get_log_state().last_purged_log_id);
}

/// The purge that follows an installed snapshot passes the end of the log, and must not be
/// persisted as an inverted range.
#[test]
fn purging_past_the_end_moves_the_end_up() {
    let (mut log, _disk) = filled();
    let ops: Vec<Persist<String>> = log.purge((3, 40));
    assert_eq!(["Meta", "DeleteLogs(0..41)"], summaries(&ops)[..]);
    let Persist::Meta(meta) = &ops[0] else {
        panic!("the metadata comes first");
    };
    assert_eq!(Some((3, 40)), meta.last_purged);
    assert_eq!(Some((3, 40)), meta.last_log_id);
    assert_eq!(*meta, log.current_meta());
    assert_eq!(None, log.try_get_log_entries(IndexBound::Unbounded, IndexBound::Unbounded));
}

#[test]
fn repairing_metadata_orders_the_positions_and_no_more() {
    let mut meta = EzMeta {
        node_id: Some(4),
        vote: None,
        last_log_id: Some((2, 9)),
        last_purged: Some((3, 1)),
        promotion_pending: true,
    };
    meta.repair();
    assert_eq!(Some((3, 1)), meta.last_log_id);
    let once = meta;
    meta.repair();
    assert_eq!(once, meta);

    let mut ordered = EzMeta { last_log_id: Some((3, 2)), ..once };
    ordered.repair();
    assert_eq!(Some((3, 2)), ordered.last_log_id);
    assert_eq!(Some(4), ordered.node_id);
    assert!(ordered.promotion_pending);
}

#[test]
fn votes_and_identity_are_part_of_the_metadata() {
    let mut log = LogStore::new(EzMeta::default());
    assert_eq!(None, log.read_vote());
    assert_eq!(None, log.node_id());
    assert!(!log.promotion_pending());

    let vote = EzVote { term: 3, node_id: 7, committed: true };
    let saved = log.save_vote(vote);
    assert_eq!(Some(vote), saved.vote);
    assert_eq!(Some(vote), log.read_vote());

    let edited = EzMeta { node_id: Some(7), promotion_pending: true, ..log.current_meta() };
    assert_eq!(edited, log.save_identity(7, true));
    assert_eq!(edited, log.save_meta(edited));
    assert_eq!(Some(7), log.node_id());
    assert!(log.promotion_pending());
    assert_eq!(Some(vote), log.read_vote());
}

/// Who a node is survives what the log writes, and a promotion is owed until it is recorded.
#[test]
fn an_identity_is_found_at_the_next_start() {
    let mut log = LogStore::new(EzMeta { last_log_id: Some((1, 5)), ..EzMeta::default() });
    let stored = |log: &LogStore| match log.identity::<()>() {
        StartAnswer::Stored { node_id, promotion_pending } => (node_id, promotion_pending),
        answer => panic!("unexpected answer: {:?}", answer),
    };
    assert_eq!((None, false), stored(&log));

    let saved = log.save_identity(9, true);
    assert_eq!(Some((1, 5)), saved.last_log_id);
    assert_eq!((Some(9), true), stored(&log));

    log.save_vote(EzVote { term: 2, node_id: 9, committed: false });
    let _: Vec<Persist<u64>> = log.purge((1, 3));
    assert_eq!((Some(9), true), stored(&LogStore::new(log.current_meta())));

    let saved = log.save_promoted();
    assert!(!saved.promotion_pending);
    assert_eq!(Some(9), saved.node_id);
    assert_eq!((Some(9), false), stored(&LogStore::new(saved)));
}
