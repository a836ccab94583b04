//! The state machine: what it applies, and its snapshots

use std::collections::BTreeMap;

use ezraft::entry::EntryPayload;
use ezraft::entry::EzEntry;
use ezraft::entry::EzRequest;
use ezraft::membership::Membership;
use ezraft::membership::StoredMembership;
use ezraft::meta::EzMeta;
use ezraft::snapshot::EzSnapshot;
use ezraft::snapshot::EzSnapshotMeta;
use ezraft::storage::Persist;
use ezraft::storage::adapter::log::IndexBound;
use ezraft::storage::adapter::log::LogStore;
use ezraft::storage::adapter::open;
use ezraft::storage::adapter::state_machine::Install;
use ezraft::storage::adapter::state_machine::StateMachineStore;

/// The state of a counter, as JSON
fn encode(count: u64) -> Vec<u8> {
    serde_json::to_vec(&BTreeMap::from([("count", count)])).unwrap()
}

fn decode(data: &[u8]) -> Result<u64, std::io::Error> {
    let state: BTreeMap<String, u64> = serde_json::from_slice(data)?;
    Ok(state["count"])
}

fn snapshot_meta(index: u64) -> EzSnapshotMeta {
    EzSnapshotMeta {
        last_log_id: Some((1, index)),
        last_membership: StoredMembership { log_id: Some((1, index)), membership: Membership::default() },
        snapshot_id: format!("1-{}", index),
    }
}

/// Take in a snapshot, persisting it in `persisted`
fn install(
    sm: &mut StateMachineStore<u64>,
    persisted: &mut Option<EzSnapshot>,
    meta: &EzSnapshotMeta,
    data: Vec<u8>,
) -> Result<(), std::io::Error> {
    let begun = Install::begin(meta, &data, decode(&data))?;
    *persisted = Some(begun.to_persist());
    sm.install_snapshot(begun, Ok(()))
}

/// All that a snapshot's metadata says: what it covers, its members as of which entry, its name
type MetaParts = (Option<(u64, u64)>, Option<(u64, u64)>, Vec<Vec<u64>>, Vec<(u64, String)>, String);

fn meta_parts(meta: EzSnapshotMeta) -> MetaParts {
    let StoredMembership { log_id, membership } = meta.last_membership;
    (meta.last_log_id, log_id, membership.configs, membership.nodes, meta.snapshot_id)
}

fn parts(snapshot: Option<EzSnapshot>) -> Option<(MetaParts, Vec<u8>)> {
    snapshot.map(|s| (meta_parts(s.meta), s.data))
}

/// A snapshot whose bytes do not deserialize must be refused whole. Keeping it would outlive
/// the failed transfer: startup restores from the stored snapshot, so the next start would
/// fail on the same bytes - with the state they replaced already gone.
#[test]
fn an_invalid_snapshot_leaves_the_last_valid_one_in_place() {
    let (_log, mut sm) = open::<u64, std::io::Error>(EzMeta::default(), None, 0).unwrap();
    let mut persisted = None;

    let valid = encode(7);
    assert_eq!(br#"{"count":7}"#.to_vec(), valid);
    install(&mut sm, &mut persisted, &snapshot_meta(10), valid.clone()).unwrap();

    let err = install(&mut sm, &mut persisted, &snapshot_meta(20), b"not a counter".to_vec()).unwrap_err();
    assert_eq!(std::io::ErrorKind::InvalidData, err.kind(), "unexpected error: {}", err);

    // Nothing of it is kept: not in storage, not in the cache that serves lagging followers,
    // not in the state machine.
    let expected = Some((meta_parts(snapshot_meta(10)), valid));
    assert_eq!(expected, parts(persisted));
    assert_eq!(expected, parts(sm.get_current_snapshot()));
    assert_eq!(7, sm.read(|app| *app));
}

#[test]
fn a_snapshot_that_was_not_persisted_is_not_kept() {
    let mut sm: StateMachineStore<u64> = StateMachineStore::new::<String>(3, None).unwrap();
    let data = encode(9);

    let begun = Install::begin(&snapshot_meta(4), &data, decode(&data)).unwrap();
    assert_eq!(Err("disk full".to_string()), sm.install_snapshot(begun, Err("disk full".to_string())));
    assert_eq!(3, sm.read(|app| *app));
    assert_eq!(None, sm.applied_state().0);
    assert!(sm.get_current_snapshot().is_none());

    let built = sm.build_snapshot(encode(3));
    assert!(sm.built_snapshot(built, Err("disk full".to_string())).is_err());
    assert!(sm.get_current_snapshot().is_none());
}

fn members() -> Membership {
    Membership { configs: vec![vec![0]], nodes: vec![(0, "a:1".to_string())] }
}

fn add(term: u64, index: u64, n: u64) -> EzEntry<u64> {
    EzEntry::new((term, index), EntryPayload::Normal(EzRequest(n)))
}

/// Apply an entry, and the request in it if there is one
fn apply(sm: &mut StateMachineStore<u64>, entry: EzEntry<u64>) -> Option<u64> {
    let request = sm.apply(entry)?;
    let app = sm.app_mut();
    *app += request;
    Some(*app)
}

#[test]
fn every_entry_moves_the_position_and_requests_reach_the_application() {
    let mut sm: StateMachineStore<u64> = StateMachineStore::new::<String>(0, None).unwrap();
    assert_eq!(None, sm.applied_state().0);

    assert_eq!(None, apply(&mut sm, EzEntry::new((1, 0), EntryPayload::Membership(members()))));
    let (last_applied, stored) = sm.applied_state();
    assert_eq!(Some((1, 0)), last_applied);
    assert_eq!(Some((1, 0)), stored.log_id);
    assert_eq!(members().nodes, stored.membership.nodes);

    assert_eq!(Some(5), apply(&mut sm, add(1, 1, 5)));
    assert_eq!(None, apply(&mut sm, EzEntry::new((2, 2), EntryPayload::Blank)));
    assert_eq!(Some(7), apply(&mut sm, add(2, 3, 2)));
    let (last_applied, stored) = sm.applied_state();
    assert_eq!(Some((2, 3)), last_applied);
    assert_eq!(Some((1, 0)), stored.log_id);
}

#[test]
fn a_snapshot_is_named_after_where_it_was_taken() {
    let mut sm: StateMachineStore<u64> = StateMachineStore::new::<String>(0, None).unwrap();
    assert_eq!("0-0", sm.build_snapshot(encode(0)).meta.snapshot_id);

    apply(&mut sm, add(3, 14, 5));
    let built = sm.build_snapshot(encode(5));
    let kept = sm.built_snapshot::<String>(built, Ok(())).unwrap();
    assert_eq!("3-14", kept.meta.snapshot_id);
    assert_eq!(Some((3, 14)), kept.meta.last_log_id);
    assert_eq!(parts(Some(kept)), parts(sm.get_current_snapshot()));
}

/// A node that restarts from a snapshot applies the entries after it again, and comes to where
/// it was.
#[test]
fn a_restart_resumes_at_the_snapshot() {
    let mut sm: StateMachineStore<u64> = StateMachineStore::new::<String>(0, None).unwrap();
    apply(&mut sm, EzEntry::new((1, 0), EntryPayload::Membership(members())));
    apply(&mut sm, add(1, 1, 10));
    let state = sm.read(|app| encode(*app));
    let built = sm.build_snapshot(state);
    let snapshot = sm.built_snapshot::<String>(built, Ok(())).unwrap();
    let tail = vec![add(1, 2, 20), add(1, 3, 30)];
    for entry in tail.clone() {
        apply(&mut sm, entry);
    }

    let parsed = decode(&snapshot.data);
    let (_log, mut restarted) = open(EzMeta::default(), Some((snapshot, parsed)), 0).unwrap();
    assert_eq!(10, restarted.read(|app| *app));
    assert_eq!(Some((1, 1)), restarted.applied_state().0);
    assert!(restarted.get_current_snapshot().is_some());
    for entry in tail {
        apply(&mut restarted, entry);
    }
    assert_eq!(60, restarted.read(|app| *app));
    assert_eq!(sm.applied_state().0, restarted.applied_state().0);
    assert_eq!(sm.applied_state().1.membership.nodes, restarted.applied_state().1.membership.nodes);
}

#[test]
fn a_start_from_a_snapshot_that_does_not_parse_fails() {
    let snapshot = EzSnapshot { meta: snapshot_meta(3), data: b"not a counter".to_vec() };
    let opened = open(EzMeta::default(), Some((snapshot, Err("bad state".to_string()))), 0u64);
    assert_eq!("bad state", opened.map(|_| ()).unwrap_err());
}

/// The members are those that the last membership entry set.
#[test]
fn the_last_membership_entry_counts() {
    let mut sm: StateMachineStore<u64> = StateMachineStore::new::<String>(0, None).unwrap();
    let later = Membership { configs: vec![vec![0, 1]], nodes: vec![(0, "a:1".to_string()), (1, "b:2".to_string())] };
    apply(&mut sm, EzEntry::new((1, 0), EntryPayload::Membership(members())));
    apply(&mut sm, EzEntry::new((1, 1), EntryPayload::Membership(later.clone())));
    apply(&mut sm, add(1, 2, 3));

    let (last_applied, stored) = sm.applied_state();
    assert_eq!(Some((1, 2)), last_applied);
    assert_eq!(Some((1, 1)), stored.log_id);
    assert_eq!(later.configs, stored.membership.configs);
}

/// A snapshot is persisted before the entries that it covers are purged, so that what is left
/// always makes up the whole state: the snapshot, and every entry after it.
#[test]
fn a_purge_behind_a_snapshot_leaves_the_whole_state() {
    let mut log = LogStore::new(EzMeta { last_log_id: Some((1, 5)), ..EzMeta::default() });
    let mut sm: StateMachineStore<u64> = StateMachineStore::new::<String>(0, None).unwrap();
    (0..4).for_each(|i| {
        apply(&mut sm, add(1, i, 1));
    });
    let built = sm.build_snapshot(encode(4));
    let snapshot = sm.built_snapshot::<String>(built, Ok(())).unwrap();
    let covered = snapshot.meta.last_log_id.unwrap();

    let ops: Vec<Persist<u64>> = log.purge(covered);
    assert_eq!(vec!["Meta", "DeleteLogs(0..4)"], ops.iter().map(|op| op.summary()).collect::<Vec<_>>());
    let tail = log.try_get_log_entries(IndexBound::Included(covered.1 + 1), IndexBound::Unbounded);
    assert_eq!(Some((4, 6)), tail);
}
