//! A file storage, on files held in memory

use std::collections::BTreeMap;
use std::collections::BTreeSet;

use ezraft::entry::EntryPayload;
use ezraft::entry::EzEntry;
use ezraft::entry::EzRequest;
use ezraft::membership::Membership;
use ezraft::membership::StoredMembership;
use ezraft::meta::EzMeta;
use ezraft::meta::EzVote;
use ezraft::snapshot::EzSnapshot;
use ezraft::snapshot::EzSnapshotMeta;
use ezraft::storage::Loaded;
use ezraft::storage::Persist;
use ezraft::storage::create_dir::CreateDir;
use ezraft::storage::create_dir::DirStep;
use ezraft::storage::file_storage::FileStorage;
use ezraft::storage::file_storage::IoFailure;
use ezraft::storage::file_storage::LoadError;
use ezraft::storage::file_storage::LogFile;
use ezraft::storage::file_storage::ReadLogs;
use ezraft::storage::file_storage::RemoveLogs;
use ezraft::storage::file_storage::index_of_name;
use ezraft::storage::files::FileAction;
use ezraft::storage::snapshot_file::LEN_BYTES;
use ezraft::storage::snapshot_file::SnapshotFileError;
use ezraft::storage::snapshot_file::frame_snapshot;
use ezraft::storage::snapshot_file::parse_snapshot;
use ezraft::storage::snapshot_file::split_meta_len;

type LogId = Option<(u64, u64)>;

fn encode_meta(meta: &EzMeta) -> Vec<u8> {
    let vote = meta.vote.map(|v| (v.term, v.node_id, v.committed));
    let fields = (meta.node_id, vote, meta.last_log_id, meta.last_purged, meta.promotion_pending);
    serde_json::to_vec(&fields).unwrap()
}

fn decode_meta(bytes: Vec<u8>) -> Result<EzMeta, String> {
    type Fields = (Option<u64>, Option<(u64, u64, bool)>, LogId, LogId, bool);
    let (node_id, vote, last_log_id, last_purged, promotion_pending): Fields =
        serde_json::from_slice(&bytes).map_err(|e| e.to_string())?;
    let vote = vote.map(|(term, node_id, committed)| EzVote { term, node_id, committed });
    Ok(EzMeta { node_id, vote, last_log_id, last_purged, promotion_pending })
}

type Members = (Vec<Vec<u64>>, Vec<(u64, String)>);

fn encode_snapshot_meta(meta: &EzSnapshotMeta) -> Vec<u8> {
    let stored = &meta.last_membership;
    let members = (&stored.membership.configs, &stored.membership.nodes);
    serde_json::to_vec(&(meta.last_log_id, stored.log_id, members, &meta.snapshot_id)).unwrap()
}

fn decode_snapshot_meta(bytes: Vec<u8>) -> Result<EzSnapshotMeta, String> {
    let (last_log_id, log_id, (configs, nodes), snapshot_id): (LogId, LogId, Members, String) =
        serde_json::from_slice(&bytes).map_err(|e| e.to_string())?;
    let last_membership = StoredMembership { log_id, membership: Membership { configs, nodes } };
    Ok(EzSnapshotMeta { last_log_id, last_membership, snapshot_id })
}

fn encode_entry(entry: &EzEntry<u64>) -> Vec<u8> {
    let EntryPayload::Normal(request) = &entry.payload else {
        panic!("these tests write requests");
    };
    serde_json::to_vec(&(entry.log_id, request.0)).unwrap()
}

fn decode_entry(bytes: &[u8]) -> EzEntry<u64> {
    let (log_id, request): ((u64, u64), u64) = serde_json::from_slice(bytes).unwrap();
    log_entry(log_id.0, log_id.1, request)
}

/// A storage on files held in memory
struct MemFiles {
    storage: FileStorage,
    files: BTreeMap<String, Vec<u8>>,
    /// The directories that were flushed, in order
    synced: Vec<String>,
}

impl MemFiles {
    fn new() -> Self {
        Self { storage: FileStorage::new("base"), files: BTreeMap::new(), synced: Vec::new() }
    }

    fn encoded(op: &Persist<u64>) -> Vec<u8> {
        match op {
            Persist::Meta(meta) => encode_meta(meta),
            Persist::LogEntry(entry) => encode_entry(entry),
            Persist::Snapshot(snapshot) => encode_snapshot_meta(&snapshot.meta),
            Persist::DeleteLogs { .. } => Vec::new(),
        }
    }

    fn act(&mut self, action: FileAction) -> Result<(), String> {
        match action {
            FileAction::Write { path, bytes } => {
                self.files.insert(path, bytes);
            }
            FileAction::Rename { source, target } => {
                let bytes = self.files.remove(&source).ok_or("nothing to rename")?;
                self.files.insert(target, bytes);
            }
            FileAction::SyncDir { dir } => self.synced.push(dir),
            FileAction::RemoveLogs { dir, from, to } => {
                let mut removal = RemoveLogs::new(from, to);
                let inside = format!("{}/", dir);
                let names: Vec<String> =
                    self.files.keys().filter_map(|p| p.strip_prefix(&inside)).map(String::from).collect();
                for name in names {
                    match removal.file(Some(&name)) {
                        LogFile::Unexpected => return Err(RemoveLogs::unexpected_file(&format!("{:?}", name))),
                        LogFile::Keep => {}
                        LogFile::Remove => {
                            self.files.remove(&format!("{}{}", inside, name));
                        }
                    }
                }
                if removal.must_sync() {
                    self.synced.push(dir);
                }
            }
        }
        Ok(())
    }

    fn persist(&mut self, op: Persist<u64>) {
        for action in self.storage.persist(&op, Self::encoded(&op)) {
            self.act(action).unwrap();
        }
    }

    fn read(&self, path: &str) -> Result<Vec<u8>, IoFailure<String>> {
        self.files.get(path).cloned().ok_or_else(|| IoFailure::NotFound(format!("no {}", path)))
    }

    fn load(&self) -> Result<Loaded, LoadError<String>> {
        let meta = self.read(&self.storage.meta_path());
        let snapshot = self.read(&self.storage.snapshot_path());
        FileStorage::load(meta, snapshot, decode_meta, decode_snapshot_meta)
    }

    fn read_logs(&self, start: u64, end: u64) -> Result<Vec<EzEntry<u64>>, IoFailure<String>> {
        let mut read = ReadLogs::new(start, end);
        while let Some(path) = read.next_path(&self.storage) {
            let data = self.read(&path)?;
            read = read.with(decode_entry(&data));
        }
        Ok(read.finish())
    }
}

fn snapshot(index: u64, data: &[u8]) -> EzSnapshot {
    let log_id = Some((1, index));
    EzSnapshot {
        meta: EzSnapshotMeta {
            last_log_id: log_id,
            last_membership: StoredMembership { log_id, membership: Membership::default() },
            snapshot_id: format!("1-{}", index),
        },
        data: data.to_vec(),
    }
}

/// The pair a caller compares a loaded snapshot against: its metadata as bytes, and its state
fn loaded_parts(loaded: Loaded) -> Option<(Vec<u8>, Vec<u8>)> {
    loaded.snapshot.map(|s| (encode_snapshot_meta(&s.meta), s.data))
}

fn snapshot_parts(index: u64, data: &[u8]) -> Option<(Vec<u8>, Vec<u8>)> {
    Some((encode_snapshot_meta(&snapshot(index, data).meta), data.to_vec()))
}

fn log_entry(term: u64, index: u64, request: u64) -> EzEntry<u64> {
    EzEntry::new((term, index), EntryPayload::Normal(EzRequest(request)))
}

fn parts(entry: &EzEntry<u64>) -> ((u64, u64), u64) {
    let EntryPayload::Normal(request) = &entry.payload else {
        panic!("expected a normal payload, got {:?}", entry.payload);
    };
    (entry.log_id, request.0)
}

/// A snapshot file as it is laid out: the metadata length, the metadata, the state
fn framed(snapshot: EzSnapshot) -> Vec<u8> {
    frame_snapshot(&encode_snapshot_meta(&snapshot.meta), &snapshot.data)
}

/// A crash mid-replacement leaves behind exactly what is written before the rename: a complete
/// temporary file, never published.
#[test]
fn a_snapshot_interrupted_mid_write_leaves_the_previous_one_whole() {
    let mut files = MemFiles::new();
    files.persist(Persist::Snapshot(snapshot(10, b"first")));

    files.files.insert("base/snapshot.tmp".to_string(), framed(snapshot(20, b"second")));

    assert_eq!(snapshot_parts(10, b"first"), loaded_parts(files.load().unwrap()));
}

/// The other half of the contract: a replacement that does complete is visible whole.
#[test]
fn a_completed_snapshot_replaces_both_halves() {
    let mut files = MemFiles::new();
    files.persist(Persist::Snapshot(snapshot(10, b"first")));
    files.persist(Persist::Snapshot(snapshot(20, b"second")));

    assert_eq!(snapshot_parts(20, b"second"), loaded_parts(files.load().unwrap()));
}

/// The metadata is found by its length, not by a separator, so the state is opaque: newlines,
/// null bytes and something that looks like a length header of its own all come back untouched.
#[test]
fn snapshot_state_is_returned_byte_for_byte() {
    let mut files = MemFiles::new();

    let data = b"\0\0\0\0\0\0\0\x07{\n  \"count\": 7\n}\n";
    files.persist(Persist::Snapshot(snapshot(10, data)));

    assert_eq!(snapshot_parts(10, data), loaded_parts(files.load().unwrap()));
}

/// A file too short to hold the length, or one whose length runs past its own end, is reported
/// rather than sliced into: a half-written snapshot must not be read as a whole one.
#[test]
fn a_snapshot_file_shorter_than_it_claims_is_refused() {
    let whole = framed(snapshot(10, b"state"));
    let meta_len = whole.len() - LEN_BYTES - b"state".len();

    // Too short to hold the length at all, then cut inside the metadata the length describes.
    for cut in [4, LEN_BYTES + meta_len - 3] {
        let mut files = MemFiles::new();
        files.files.insert("base/snapshot".to_string(), whole[..cut].to_vec());

        let Err(LoadError::Snapshot(err)) = files.load() else {
            panic!("a truncated file is refused");
        };
        assert!(err.message().contains("snapshot file"), "cut at {}: unexpected error: {}", cut, err.message());
    }
}

/// Entries come back exactly as they went in, and a delete takes its range and nothing else.
#[test]
fn log_entries_round_trip_and_a_delete_takes_only_its_range() {
    let mut files = MemFiles::new();

    for index in 1..=4 {
        files.persist(Persist::LogEntry(log_entry(7, index, index * 10)));
    }

    let all = files.read_logs(1, 5).unwrap();
    let read_back: Vec<((u64, u64), u64)> = all.iter().map(parts).collect();
    assert_eq!(vec![((7, 1), 10), ((7, 2), 20), ((7, 3), 30), ((7, 4), 40)], read_back);

    files.persist(Persist::DeleteLogs { from: 2, to: 4 });

    // The bounds of the deleted range are the entries that must still be there.
    let first = files.read_logs(1, 2).unwrap();
    assert_eq!(vec![((7, 1), 10)], first.iter().map(parts).collect::<Vec<_>>());

    let last = files.read_logs(4, 5).unwrap();
    assert_eq!(vec![((7, 4), 40)], last.iter().map(parts).collect::<Vec<_>>());

    // A deleted index is gone rather than empty: the read reports it instead of handing back a
    // short log that Raft would read as the end of the entries.
    let gone = files.read_logs(2, 3).expect_err("index 2 was deleted");
    assert!(matches!(gone, IoFailure::NotFound(_)));
}

/// The only copy of the node's id and vote must not be left half-rewritten by an interrupted
/// write.
#[test]
fn meta_interrupted_mid_write_keeps_the_previous_value() {
    let mut files = MemFiles::new();

    let meta = EzMeta {
        node_id: Some(7),
        vote: Some(EzVote { term: 3, node_id: 7, committed: false }),
        last_log_id: Some((3, 42)),
        last_purged: None,
        promotion_pending: false,
    };
    files.persist(Persist::Meta(meta));

    files.files.insert("base/meta.json.tmp".to_string(), b"{\"node_id\":9,\"vo".to_vec());

    assert_eq!(meta, files.load().unwrap().meta);
}

/// Directories held in memory, under the chain of a path's ancestors
struct MemDirs {
    there: BTreeSet<String>,
    synced: Vec<String>,
}

/// A path and its ancestors, innermost first, as far as there is a path to name one by
fn chain(path: &str) -> Vec<String> {
    std::path::Path::new(path)
        .ancestors()
        .map(|p| p.to_str().unwrap().to_string())
        .filter(|p| !p.is_empty())
        .collect()
}

impl MemDirs {
    fn create(&mut self, path: &str) -> Vec<DirStep> {
        let chain = chain(path);
        let mut creation = CreateDir::new(chain.len());
        while let Some(place) = creation.probe() {
            creation.probed(self.there.contains(&chain[place]));
        }
        let steps = creation.steps();
        for step in &steps {
            match step {
                DirStep::Create(place) => {
                    if let Some(parent) = chain.get(place + 1) {
                        assert!(self.there.contains(parent), "{} is created before {}", chain[*place], parent);
                    }
                    self.there.insert(chain[*place].clone());
                }
                DirStep::Sync(place) => self.synced.push(chain[*place].clone()),
            }
        }
        steps
    }
}

/// A first start lays out its own directories, however many levels are missing, and each one
/// is flushed into its parent before anything is written inside it.
#[test]
fn a_missing_directory_chain_is_created() {
    let mut dirs = MemDirs { there: BTreeSet::from(["root".to_string()]), synced: Vec::new() };
    let mut files = MemFiles::new();
    files.storage = FileStorage::new("root/cluster/node-1");

    for dir in files.storage.directories() {
        dirs.create(&dir);
    }
    files.persist(Persist::LogEntry(log_entry(1, 1, 5)));

    let all = ["root", "root/cluster", "root/cluster/node-1", "root/cluster/node-1/logs"];
    assert_eq!(BTreeSet::from(all.map(String::from)), dirs.there);
    assert_eq!(all[..3], dirs.synced[..]);
    assert!(files.files.contains_key("root/cluster/node-1/logs/log-1"));

    let entries = files.read_logs(1, 2).unwrap();
    assert_eq!(vec![((1, 1), 5)], entries.iter().map(parts).collect::<Vec<_>>());

    // Opening the same directories again is the ordinary restart, and creates nothing.
    for dir in files.storage.directories() {
        assert!(dirs.create(&dir).is_empty());
    }
}

#[test]
fn a_relative_chain_has_no_parent_at_its_top() {
    let mut dirs = MemDirs { there: BTreeSet::new(), synced: Vec::new() };
    let steps = dirs.create("a/b");
    assert_eq!(vec![DirStep::Create(1), DirStep::Create(0), DirStep::Sync(1)], steps);

    let mut dirs = MemDirs { there: BTreeSet::from(["/".to_string()]), synced: Vec::new() };
    let steps = dirs.create("/a/b");
    assert_eq!(vec![DirStep::Create(1), DirStep::Sync(2), DirStep::Create(0), DirStep::Sync(1)], steps);

    assert!(CreateDir::new(0).steps().is_empty());
}

#[test]
fn a_directory_that_is_there_already_is_as_good() {
    assert_eq!(Ok(()), CreateDir::created::<&str>(Ok(())));
    assert_eq!(Ok(()), CreateDir::created(Err(IoFailure::AlreadyExists("beaten to it"))));
    assert_eq!(Err("no parent"), CreateDir::created(Err(IoFailure::NotFound("no parent"))));
    assert_eq!(Err("denied"), CreateDir::created(Err(IoFailure::Other("denied"))));
}

#[test]
fn paths_are_joined() {
    for (base, prefix) in [("base", "base/"), ("base/", "base/"), ("/", "/"), ("", ""), ("a/b", "a/b/")] {
        let storage = FileStorage::new(base);
        assert_eq!(format!("{}meta.json", prefix), storage.meta_path());
        assert_eq!(format!("{}snapshot", prefix), storage.snapshot_path());
        assert_eq!(format!("{}logs", prefix), storage.logs_dir());
        assert_eq!(format!("{}logs/log-17", prefix), storage.log_path(17));
        assert_eq!(vec![base.to_string(), format!("{}logs", prefix)], storage.directories());
    }
}

#[test]
fn log_file_names_read_back_as_their_index() {
    assert_eq!(Some(0), index_of_name("log-0"));
    assert_eq!(Some(u64::MAX), index_of_name("log-18446744073709551615"));
    assert_eq!(Some(7), index_of_name("log-007"));
    assert_eq!(Some(7), index_of_name("log-+7"));
    for name in ["", "log", "log-", "log-x", "lag-1", "log-1.tmp", "meta.json", "log--1", "log-18446744073709551616"] {
        assert_eq!(None, index_of_name(name), "{:?}", name);
    }
}

/// Every replacement is flushed before and after the rename that publishes it.
#[test]
fn what_is_written_is_flushed() {
    let mut files = MemFiles::new();
    files.persist(Persist::Meta(EzMeta::default()));
    assert_eq!(vec!["base"], files.synced);
    files.persist(Persist::LogEntry(log_entry(1, 3, 4)));
    assert_eq!(vec!["base", "base/logs"], files.synced);
    files.persist(Persist::DeleteLogs { from: 0, to: 3 });
    assert_eq!(vec!["base", "base/logs"], files.synced);
    files.persist(Persist::DeleteLogs { from: 0, to: 4 });
    assert_eq!(vec!["base", "base/logs", "base/logs"], files.synced);

    let op: Persist<u64> = Persist::Meta(EzMeta::default());
    let actions = files.storage.persist(&op, b"bytes".to_vec());
    assert!(matches!(&actions[0], FileAction::Write { path, bytes }
        if path == "base/meta.json.tmp" && bytes == b"bytes"));
    assert!(matches!(&actions[1], FileAction::Rename { source, target }
        if source == "base/meta.json.tmp" && target == "base/meta.json"));
    assert!(matches!(&actions[2], FileAction::SyncDir { dir } if dir == "base"));
    assert_eq!(3, actions.len());
}

/// A replacement stopped after any of its steps leaves the old metadata or the new.
#[test]
fn a_replacement_stopped_anywhere_leaves_old_or_new() {
    let old = EzMeta { node_id: Some(1), ..EzMeta::default() };
    let new = EzMeta { node_id: Some(2), ..EzMeta::default() };
    for k in 0..=3 {
        let mut files = MemFiles::new();
        files.persist(Persist::Meta(old));
        let op: Persist<u64> = Persist::Meta(new);
        for action in files.storage.persist(&op, encode_meta(&new)).into_iter().take(k) {
            files.act(action).unwrap();
        }
        let expected = if k < 2 { old } else { new };
        assert_eq!(expected, files.load().unwrap().meta, "after {} steps", k);
    }
}

#[test]
fn an_unexpected_file_fails_the_deletion() {
    let mut files = MemFiles::new();
    files.files.insert("base/logs/notes.txt".to_string(), Vec::new());
    let op: Persist<u64> = Persist::DeleteLogs { from: 0, to: 9 };
    let actions = files.storage.persist(&op, Vec::new());
    let failures: Vec<String> = actions.into_iter().filter_map(|a| files.act(a).err()).collect();
    assert_eq!(vec!["unexpected file in log dir: \"notes.txt\""], failures);
    assert_eq!(LogFile::Unexpected, RemoveLogs::new(0, 9).file(None));
}

#[test]
fn a_log_directory_that_is_not_there_holds_nothing_to_delete() {
    assert_eq!(Ok(()), RemoveLogs::not_listed(IoFailure::NotFound("gone")));
    assert_eq!(Err("denied"), RemoveLogs::not_listed(IoFailure::Other("denied")));
    assert_eq!(Err("odd"), RemoveLogs::not_listed(IoFailure::AlreadyExists("odd")));
}

#[test]
fn a_node_that_never_ran_loads_defaults() {
    let loaded = MemFiles::new().load().unwrap();
    assert_eq!(EzMeta::default(), loaded.meta);
    assert!(loaded.snapshot.is_none());
}

#[test]
fn a_failed_load_says_which_file_and_why() {
    let load = |meta: Result<Vec<u8>, IoFailure<String>>, snapshot| {
        FileStorage::load(meta, snapshot, decode_meta, decode_snapshot_meta)
    };
    let other = |e: &str| Err(IoFailure::Other(e.to_string()));
    let missing = || Err(IoFailure::NotFound("missing".to_string()));

    let failed = load(other("meta denied"), other("snapshot denied"));
    assert!(matches!(failed, Err(LoadError::File(e)) if e == "meta denied"));
    let failed = load(missing(), other("snapshot denied"));
    assert!(matches!(failed, Err(LoadError::File(e)) if e == "snapshot denied"));
    let failed = load(Ok(b"{".to_vec()), missing());
    assert!(matches!(failed, Err(LoadError::File(_))));
    let failed = load(missing(), Ok(frame_snapshot(&b"{".to_vec(), &Vec::new())));
    assert!(matches!(failed, Err(LoadError::File(_))));
    let failed = load(missing(), Ok(vec![1, 2, 3]));
    assert!(matches!(failed, Err(LoadError::Snapshot(SnapshotFileError::NoLength { file_len: 3 }))));
}

#[test]
fn a_snapshot_file_is_a_length_then_two_halves() {
    let file = frame_snapshot(&b"meta".to_vec(), &b"state".to_vec());
    assert_eq!(b"\0\0\0\0\0\0\0\x04metastate".to_vec(), file);
    assert_eq!(Ok((b"meta".to_vec(), b"state".to_vec())), parse_snapshot(&file));
    assert_eq!(Ok((4, b"metastate".to_vec())), split_meta_len(&file));

    let long = vec![7u8; 300];
    let file = frame_snapshot(&long, &Vec::new());
    assert_eq!([0, 0, 0, 0, 0, 0, 1, 44], file[..8]);
    assert_eq!(Ok((long, Vec::new())), parse_snapshot(&file));
}

#[test]
fn a_malformed_snapshot_file_says_what_is_wrong() {
    let short = parse_snapshot(&vec![0, 0, 0]).unwrap_err();
    assert_eq!("snapshot file is 3 bytes, too short for a 8-byte metadata length", short.message());

    let cut = parse_snapshot(&b"\0\0\0\0\0\0\0\x09meta".to_vec()).unwrap_err();
    assert_eq!("snapshot file claims 9 bytes of metadata, 4 bytes follow the length", cut.message());

    let absurd = SnapshotFileError::AbsurdLength { claimed: u64::MAX };
    assert_eq!("snapshot metadata length 18446744073709551615 is absurd", absurd.message());
    let huge = parse_snapshot(&b"\xff\xff\xff\xff\xff\xff\xff\xff".to_vec()).unwrap_err();
    assert!(huge == absurd || matches!(huge, SnapshotFileError::NoMetadata { meta_len: usize::MAX, rest_len: 0 }));
}

#[test]
fn every_file_has_a_path_of_its_own() {
    let storage = FileStorage::new("base");
    let mut paths: Vec<String> = (0..1200).map(|i| storage.log_path(i)).collect();
    paths.extend([storage.meta_path(), storage.snapshot_path(), storage.logs_dir()]);
    paths.extend([storage.meta_path() + ".tmp", storage.snapshot_path() + ".tmp"]);
    let distinct: BTreeSet<&String> = paths.iter().collect();
    assert_eq!(paths.len(), distinct.len());
}

#[test]
fn an_operation_touches_one_thing() {
    let mut files = MemFiles::new();
    let meta = EzMeta { node_id: Some(3), ..EzMeta::default() };
    files.persist(Persist::Meta(meta));
    files.persist(Persist::LogEntry(log_entry(1, 1, 5)));
    files.persist(Persist::Snapshot(snapshot(1, b"state")));

    files.persist(Persist::LogEntry(log_entry(1, 2, 6)));
    files.persist(Persist::DeleteLogs { from: 0, to: 2 });
    assert_eq!(meta, files.load().unwrap().meta);
    assert_eq!(snapshot_parts(1, b"state"), loaded_parts(files.load().unwrap()));

    files.persist(Persist::Meta(EzMeta::default()));
    files.persist(Persist::Snapshot(snapshot(2, b"later")));
    assert_eq!(vec![((1, 2), 6)], files.read_logs(2, 3).unwrap().iter().map(parts).collect::<Vec<_>>());

    // Nothing is left lying about: the temporary files were renamed.
    let names: Vec<&str> = files.files.keys().map(String::as_str).collect();
    assert_eq!(vec!["base/logs/log-2", "base/meta.json", "base/snapshot"], names);
}

/// An entry is written in place, so a crash may cut it short; the entries before it, which are the
/// ones the metadata promises, are untouched, and the next append writes it whole.
#[test]
fn an_entry_cut_short_is_past_the_end_and_written_again() {
    let mut files = MemFiles::new();
    files.persist(Persist::LogEntry(log_entry(1, 0, 5)));
    files.persist(Persist::Meta(EzMeta { last_log_id: Some((1, 0)), ..EzMeta::default() }));

    files.files.insert(files.storage.log_path(1), b"[[1,".to_vec());
    let end = files.load().unwrap().meta.last_log_id.unwrap().1 + 1;
    assert_eq!(vec![((1, 0), 5)], files.read_logs(0, end).unwrap().iter().map(parts).collect::<Vec<_>>());

    files.persist(Persist::LogEntry(log_entry(1, 1, 6)));
    assert_eq!(vec![((1, 1), 6)], files.read_logs(1, 2).unwrap().iter().map(parts).collect::<Vec<_>>());
}

#[test]
fn reading_nothing_gives_nothing() {
    assert!(MemFiles::new().read_logs(3, 3).unwrap().is_empty());
    assert!(MemFiles::new().read_logs(4, 3).unwrap().is_empty());
}

/// No byte of a snapshot file is passed over.
#[test]
fn the_halves_of_a_snapshot_file_are_all_of_it() {
    let file = b"\0\0\0\0\0\0\0\x02abcde".to_vec();
    let (meta, data) = parse_snapshot(&file).unwrap();
    let joined = [&file[..LEN_BYTES], &meta, &data].concat();
    assert_eq!(file, joined);
}
