//! What a file storage keeps through a crash, and that it holds what it was asked to hold

use vstd::prelude::*;

use crate::entry::EzEntry;
use crate::meta::EzMeta;
use crate::snapshot::EzSnapshotMeta;
use crate::snapshot::EzSnapshotMetaView;
use crate::snapshot::EzSnapshotView;
use crate::storage::Loaded;
use crate::storage::Persist;
use crate::storage::disk::Disk;
use crate::storage::disk::promised;
use crate::storage::file_storage::IoFailure;
use crate::storage::file_storage::LoadError;
use crate::storage::file_storage::LogFile;
use crate::storage::file_storage::comes_to;
use crate::storage::file_storage::log_file_fate;
use crate::storage::file_storage::log_name;
use crate::storage::file_storage::log_path;
use crate::storage::file_storage::logs_dir;
use crate::storage::file_storage::meta_path;
use crate::storage::file_storage::persist_actions;
use crate::storage::file_storage::replace_actions;
use crate::storage::file_storage::snapshot_path;
use crate::storage::files::Content;
use crate::storage::files::FileActionView;
use crate::storage::files::Files;
use crate::storage::files::in_dir;
use crate::storage::files::join;
use crate::storage::files::log_file_between;
use crate::storage::files::log_index;
use crate::storage::snapshot_file::SnapshotFileError;
use crate::storage::snapshot_file::law_snapshot_file_reads_back;
use crate::storage::snapshot_file::snapshot_file;
use crate::storage::snapshot_file::snapshot_parts;
use crate::text::all_digits;
use crate::text::decimal;
use crate::text::law_decimal_reads_back;

verus! {

/// Whether `path` is where the storage under `base_dir` keeps something
pub open spec fn storage_path(base_dir: Seq<char>, path: Seq<char>) -> bool {
    ||| path == meta_path(base_dir)
    ||| path == snapshot_path(base_dir)
    ||| exists|i: u64| path == #[trigger] log_path(base_dir, i)
}

/// Whether a power loss would take nothing back of what the storage under `base_dir` keeps
pub open spec fn at_rest(files: Files, base_dir: Seq<char>) -> bool {
    forall|path: Seq<char>| #[trigger] storage_path(base_dir, path) ==> files.settled(path)
}

/// How the values of a storage are written as bytes
#[verifier::reject_recursive_types(D)]
pub struct Encoding<D> {
    pub meta: spec_fn(EzMeta) -> Seq<u8>,
    pub entry: spec_fn(EzEntry<D>) -> Seq<u8>,
    pub snapshot_meta: spec_fn(EzSnapshotMetaView) -> Seq<u8>,
}

impl<D> Encoding<D> {
    /// What is encoded to carry out `op`
    pub open spec fn of(self, op: Persist<D>) -> Seq<u8> {
        match op {
            Persist::Meta(meta) => (self.meta)(meta),
            Persist::LogEntry(entry) => (self.entry)(entry),
            Persist::Snapshot(snapshot) => (self.snapshot_meta)(snapshot@.meta),
            Persist::DeleteLogs { .. } => Seq::empty(),
        }
    }
}

/// Whether the files under `base_dir` hold what `disk` says
///
/// A storage whose metadata was never written has no file for it. At an index of which `disk` says
/// nothing there may be anything: an entry file that a crash cut short stays until it is written
/// over or deleted.
pub open spec fn holds<D>(
    files: Files,
    base_dir: Seq<char>,
    encoding: Encoding<D>,
    disk: Disk<D>,
) -> bool {
    &&& (files.live)(meta_path(base_dir)) == Some((encoding.meta)(disk.meta)) || ((files.live)(
        meta_path(base_dir),
    ) is None && disk.meta == EzMeta::fresh())
    &&& (files.live)(snapshot_path(base_dir)) == (match disk.snapshot {
        Some(snapshot) => Some(
            snapshot_file((encoding.snapshot_meta)(snapshot.meta), snapshot.data),
        ),
        None => None,
    })
    &&& forall|i: u64|
        disk.logs.contains_key(i) ==> (files.live)(#[trigger] log_path(base_dir, i)) == Some(
            (encoding.entry)(disk.logs[i]),
        )
}

/// A directory with nothing in it holds a storage that nothing was written to.
pub proof fn law_no_files_hold_an_empty_storage<D>(base_dir: Seq<char>, encoding: Encoding<D>)
    ensures
        at_rest(Files::none(), base_dir),
        holds(Files::none(), base_dir, encoding, Disk::<D>::empty()),
{
}

/// What a directory puts in front of every name in it
spec fn prefix_of(dir: Seq<char>) -> Seq<char> {
    if dir.len() == 0 || dir.last() == '/' {
        dir
    } else {
        dir + seq!['/']
    }
}

proof fn lemma_join(dir: Seq<char>, name: Seq<char>)
    ensures
        join(dir, name) == prefix_of(dir) + name,
{
    assert(join(dir, name) =~= prefix_of(dir) + name);
}

proof fn lemma_join_injective(dir: Seq<char>, a: Seq<char>, b: Seq<char>)
    requires
        join(dir, a) == join(dir, b),
    ensures
        a == b,
{
    lemma_join(dir, a);
    lemma_join(dir, b);
    let p = prefix_of(dir);
    assert((p + a).skip(p.len() as int) =~= a);
    assert((p + b).skip(p.len() as int) =~= b);
}

/// A log file's name reads back as its index, and is a name like any other.
proof fn lemma_log_name(index: u64)
    ensures
        log_index(log_name(index)) == Some(index),
        !log_name(index).contains('/'),
{
    reveal_strlit("log-");
    let name = log_name(index);
    law_decimal_reads_back(index);
    assert(name.take(4) =~= seq!['l', 'o', 'g', '-']);
    assert(name.skip(4) =~= decimal(index as nat));
    let digits = decimal(index as nat);
    assert forall|i: int| 0 <= i < name.len() implies name[i] != '/' by {
        if i >= 4 {
            assert(name[i] == digits[i - 4]);
            assert(all_digits(digits));
        }
    }
}

/// Where the entries are: past a directory of their own.
proof fn lemma_log_path(base_dir: Seq<char>, name: Seq<char>)
    ensures
        join(logs_dir(base_dir), name) == prefix_of(base_dir) + "logs"@ + seq!['/'] + name,
        join(logs_dir(base_dir), name)[prefix_of(base_dir).len() as int] == 'l',
        join(logs_dir(base_dir), name).len() > prefix_of(base_dir).len(),
{
    reveal_strlit("logs");
    lemma_join(base_dir, "logs"@);
    lemma_join(logs_dir(base_dir), name);
    let dir = logs_dir(base_dir);
    assert(dir.last() == 's');
    assert(join(dir, name) =~= prefix_of(base_dir) + "logs"@ + seq!['/'] + name);
}

/// Where the metadata and the snapshot are, and their temporary files: nowhere near the entries,
/// and apart from each other.
proof fn lemma_top_paths(base_dir: Seq<char>)
    ensures
        in_dir(base_dir, meta_path(base_dir)),
        in_dir(base_dir, snapshot_path(base_dir)),
        meta_path(base_dir) != snapshot_path(base_dir),
        meta_path(base_dir) + ".tmp"@ != meta_path(base_dir),
        meta_path(base_dir) + ".tmp"@ != snapshot_path(base_dir),
        snapshot_path(base_dir) + ".tmp"@ != snapshot_path(base_dir),
        snapshot_path(base_dir) + ".tmp"@ != meta_path(base_dir),
        forall|name: Seq<char>|
            {
                let path = #[trigger] join(logs_dir(base_dir), name);
                &&& path != meta_path(base_dir)
                &&& path != snapshot_path(base_dir)
                &&& path != meta_path(base_dir) + ".tmp"@
                &&& path != snapshot_path(base_dir) + ".tmp"@
            },
{
    reveal_strlit("meta.json");
    reveal_strlit("snapshot");
    reveal_strlit(".tmp");
    lemma_join(base_dir, "meta.json"@);
    lemma_join(base_dir, "snapshot"@);
    let at = prefix_of(base_dir).len() as int;
    assert(meta_path(base_dir)[at] == 'm');
    assert(snapshot_path(base_dir)[at] == 's');
    assert((meta_path(base_dir) + ".tmp"@)[at] == 'm');
    assert((snapshot_path(base_dir) + ".tmp"@)[at] == 's');
    assert(!"meta.json"@.contains('/'));
    assert(!"snapshot"@.contains('/'));
    assert forall|name: Seq<char>|
        {
            let path = #[trigger] join(logs_dir(base_dir), name);
            &&& path != meta_path(base_dir)
            &&& path != snapshot_path(base_dir)
            &&& path != meta_path(base_dir) + ".tmp"@
            &&& path != snapshot_path(base_dir) + ".tmp"@
        } by {
        lemma_log_path(base_dir, name);
    }
}

/// The files of two different entries are two different files.
pub proof fn law_log_paths_differ(base_dir: Seq<char>, a: u64, b: u64)
    ensures
        log_path(base_dir, a) == log_path(base_dir, b) ==> a == b,
{
    if log_path(base_dir, a) == log_path(base_dir, b) {
        lemma_join_injective(logs_dir(base_dir), log_name(a), log_name(b));
        lemma_log_name(a);
        lemma_log_name(b);
    }
}

/// The metadata, the snapshot and the entries are in different files, and none of them is in a file
/// that another one is written through.
pub proof fn law_storage_paths_are_apart(base_dir: Seq<char>, i: u64)
    ensures
        meta_path(base_dir) != snapshot_path(base_dir),
        log_path(base_dir, i) != meta_path(base_dir),
        log_path(base_dir, i) != snapshot_path(base_dir),
        log_path(base_dir, i) != meta_path(base_dir) + ".tmp"@,
        log_path(base_dir, i) != snapshot_path(base_dir) + ".tmp"@,
        snapshot_path(base_dir) != meta_path(base_dir) + ".tmp"@,
        meta_path(base_dir) != snapshot_path(base_dir) + ".tmp"@,
{
    lemma_top_paths(base_dir);
}

/// A deletion takes the file of an entry if and only if the entry is in its range, and fails on
/// no file that holds an entry.
pub proof fn law_delete_takes_the_files_of_its_range(
    base_dir: Seq<char>,
    from: u64,
    to: u64,
    index: u64,
)
    ensures
        log_file_fate(from, to, log_name(index)) == (if from <= index < to {
            LogFile::Remove
        } else {
            LogFile::Keep
        }),
        log_file_between(logs_dir(base_dir), from, to, log_path(base_dir, index)) <==> from <= index
            < to,
{
    let dir = logs_dir(base_dir);
    lemma_log_name(index);
    if log_file_between(dir, from, to, log_path(base_dir, index)) {
        let name = choose|name: Seq<char>|
            {
                &&& !name.contains('/')
                &&& log_path(base_dir, index) == #[trigger] join(dir, name)
                &&& log_index(name) is Some
                &&& from <= log_index(name)->0 < to
            };
        lemma_join_injective(dir, name, log_name(index));
    }
}

proof fn lemma_steps(files: Files, actions: Seq<FileActionView>)
    ensures
        files.after_all(actions.take(0)) == files,
        actions.len() >= 1 ==> files.after_all(actions.take(1)) == files.after(actions[0]),
        actions.len() >= 2 ==> files.after_all(actions.take(2)) == files.after(actions[0]).after(
            actions[1],
        ),
        actions.len() >= 3 ==> files.after_all(actions.take(3)) == files.after(actions[0]).after(
            actions[1],
        ).after(actions[2]),
        actions.take(actions.len() as int) == actions,
{
    reveal_with_fuel(Files::after_all, 4);
    if actions.len() >= 1 {
        assert(actions.take(1).drop_last() =~= actions.take(0));
    }
    if actions.len() >= 2 {
        assert(actions.take(2).drop_last() =~= actions.take(1));
    }
    if actions.len() >= 3 {
        assert(actions.take(3).drop_last() =~= actions.take(2));
    }
    assert(actions.take(actions.len() as int) =~= actions);
}

/// Replacing a file leaves, whenever it stops, the file as it was or the new one, and once it is
/// done the new one for good; what else the storage keeps stays as it was.
proof fn lemma_replace(
    files: Files,
    dir: Seq<char>,
    target: Seq<char>,
    bytes: Seq<u8>,
    path: Seq<char>,
)
    requires
        in_dir(dir, target),
        files.settled(target),
        files.settled(path),
        path != target + ".tmp"@,
        target != target + ".tmp"@,
    ensures
        ({
            let actions = replace_actions(dir, target, bytes);
            let done = files.after_all(actions);
            &&& done.settled(path)
            &&& (done.live)(path) == (if path == target {
                Some(bytes)
            } else {
                (files.live)(path)
            })
            &&& forall|content: Content| #[trigger]
                files.may_find_during(actions, path, content) ==> content == (files.live)(path)
                    || content == (done.live)(path)
        }),
{
    let actions = replace_actions(dir, target, bytes);
    lemma_steps(files, actions);
    let written = files.after(actions[0]);
    let renamed = written.after(actions[1]);
    let done = renamed.after(actions[2]);
    assert((files.left)(path).contains((files.live)(path)));
    assert((done.left)(path) =~= set![(done.live)(path)]);
    assert forall|content: Content| #[trigger]
        files.may_find_during(actions, path, content) implies content == (files.live)(path)
        || content == (done.live)(path) by {
        let k = choose|k: int|
            0 <= k < actions.len() && files.after_all(#[trigger] actions.take(k)).may_find(
                actions[k],
                path,
                content,
            );
        assert(k == 0 || k == 1 || k == 2);
        assert((written.left)(path) == (files.left)(path));
    }
}

/// What one operation does to one of the paths of the storage, carried out whole or not
proof fn lemma_persist<D>(
    files: Files,
    base_dir: Seq<char>,
    op: Persist<D>,
    encoded: Seq<u8>,
    path: Seq<char>,
)
    requires
        at_rest(files, base_dir),
        storage_path(base_dir, path),
    ensures
        ({
            let actions = persist_actions(base_dir, op, encoded);
            let done = files.after_all(actions);
            let target = match op {
                Persist::Meta(_) => path == meta_path(base_dir),
                Persist::LogEntry(entry) => path == log_path(base_dir, entry.log_id.1),
                Persist::Snapshot(_) => path == snapshot_path(base_dir),
                Persist::DeleteLogs { from, to } => log_file_between(
                    logs_dir(base_dir),
                    from,
                    to,
                    path,
                ),
            };
            &&& done.settled(path)
            &&& (done.live)(path) == (if !target {
                (files.live)(path)
            } else {
                match op {
                    Persist::Meta(_) => Some(encoded),
                    Persist::LogEntry(_) => Some(encoded),
                    Persist::Snapshot(snapshot) => Some(snapshot_file(encoded, snapshot@.data)),
                    Persist::DeleteLogs { .. } => None,
                }
            })
            &&& !(op is LogEntry && target) ==> forall|content: Content| #[trigger]
                files.may_find_during(actions, path, content) ==> content == (files.live)(path)
                    || content == (done.live)(path)
        }),
{
    lemma_top_paths(base_dir);
    assert(storage_path(base_dir, meta_path(base_dir)));
    assert(storage_path(base_dir, snapshot_path(base_dir)));
    let actions = persist_actions(base_dir, op, encoded);
    lemma_steps(files, actions);
    assert((files.left)(path).contains((files.live)(path)));
    match op {
        Persist::Meta(_) => {
            lemma_replace(files, base_dir, meta_path(base_dir), encoded, path);
        },
        Persist::Snapshot(snapshot) => {
            let bytes = snapshot_file(encoded, snapshot@.data);
            lemma_replace(files, base_dir, snapshot_path(base_dir), bytes, path);
        },
        Persist::LogEntry(entry) => {
            let target = log_path(base_dir, entry.log_id.1);
            let done = files.after_all(actions);
            lemma_log_name(entry.log_id.1);
            assert(in_dir(logs_dir(base_dir), target));
            assert((done.left)(path) =~= set![(done.live)(path)]);
            assert forall|content: Content| path != target && #[trigger]
                files.may_find_during(actions, path, content) implies content == (files.live)(path)
                || content == (done.live)(path) by {
                let k = choose|k: int|
                    0 <= k < actions.len() && files.after_all(#[trigger] actions.take(k)).may_find(
                        actions[k],
                        path,
                        content,
                    );
                assert(k == 0 || k == 1);
            }
        },
        Persist::DeleteLogs { from, to } => {
            let dir = logs_dir(base_dir);
            let done = files.after_all(actions);
            if log_file_between(dir, from, to, path) {
                assert(in_dir(dir, path));
                if (files.live)(path) is Some {
                    assert(files.any_log_between(dir, from, to));
                }
            }
            assert((done.left)(path) =~= set![(done.live)(path)]);
            assert forall|content: Content| #[trigger]
                files.may_find_during(actions, path, content) implies content == (files.live)(path)
                || content == (done.live)(path) by {
                let k = choose|k: int|
                    0 <= k < actions.len() && files.after_all(#[trigger] actions.take(k)).may_find(
                        actions[k],
                        path,
                        content,
                    );
                assert(k == 0);
            }
        },
    }
}

/// What was persisted survives a power loss: once an operation was carried out, nothing of what
/// the storage keeps can be taken back.
pub proof fn law_persist_is_durable<D>(
    files: Files,
    base_dir: Seq<char>,
    op: Persist<D>,
    encoded: Seq<u8>,
)
    requires
        at_rest(files, base_dir),
    ensures
        at_rest(files.after_all(persist_actions(base_dir, op, encoded)), base_dir),
{
    let done = files.after_all(persist_actions(base_dir, op, encoded));
    assert forall|path: Seq<char>| #[trigger] storage_path(base_dir, path) implies done.settled(
        path,
    ) by {
        lemma_persist(files, base_dir, op, encoded, path);
    }
}

/// A crash while an operation is carried out leaves each file as it was or as it was to be, never
/// half of each: the metadata, the snapshot, and every entry but the one being written, which the
/// log does not reach yet.
pub proof fn law_crash_leaves_old_or_new<D>(
    files: Files,
    base_dir: Seq<char>,
    op: Persist<D>,
    encoded: Seq<u8>,
    path: Seq<char>,
    content: Content,
)
    requires
        at_rest(files, base_dir),
        storage_path(base_dir, path),
        op matches Persist::LogEntry(entry) ==> path != log_path(base_dir, entry.log_id.1),
        files.may_find_during(persist_actions(base_dir, op, encoded), path, content),
    ensures
        content == (files.live)(path) || content == (files.after_all(
            persist_actions(base_dir, op, encoded),
        ).live)(path),
{
    lemma_persist(files, base_dir, op, encoded, path);
}

/// A crash loses no entry that the metadata promises: while something else is written, a node that
/// comes back finds it whole.
pub proof fn law_crash_keeps_every_promised_entry<D>(
    files: Files,
    base_dir: Seq<char>,
    encoding: Encoding<D>,
    disk: Disk<D>,
    op: Persist<D>,
    i: u64,
    content: Content,
)
    requires
        at_rest(files, base_dir),
        holds(files, base_dir, encoding, disk),
        disk.consistent(),
        promised(disk.meta, i as int),
        op matches Persist::LogEntry(entry) ==> !promised(disk.meta, entry.log_id.1 as int),
        op matches Persist::DeleteLogs { from, to } ==> !(from <= i < to),
        files.may_find_during(
            persist_actions(base_dir, op, encoding.of(op)),
            log_path(base_dir, i),
            content,
        ),
    ensures
        content == Some((encoding.entry)(disk.logs[i])),
{
    let path = log_path(base_dir, i);
    assert(storage_path(base_dir, path));
    lemma_top_paths(base_dir);
    lemma_persist(files, base_dir, op, encoding.of(op), path);
    match op {
        Persist::LogEntry(entry) => {
            law_log_paths_differ(base_dir, i, entry.log_id.1);
        },
        Persist::DeleteLogs { from, to } => {
            law_delete_takes_the_files_of_its_range(base_dir, from, to, i);
        },
        _ => {},
    }
}

/// The files hold what they were asked to hold: carrying out an operation on them is what it is
/// on the storage that they stand for.
pub proof fn law_files_hold_what_was_persisted<D>(
    files: Files,
    base_dir: Seq<char>,
    encoding: Encoding<D>,
    disk: Disk<D>,
    op: Persist<D>,
)
    requires
        at_rest(files, base_dir),
        holds(files, base_dir, encoding, disk),
    ensures
        holds(
            files.after_all(persist_actions(base_dir, op, encoding.of(op))),
            base_dir,
            encoding,
            disk.persisted(op),
        ),
{
    let encoded = encoding.of(op);
    let done = files.after_all(persist_actions(base_dir, op, encoded));
    let next = disk.persisted(op);
    lemma_top_paths(base_dir);
    assert(storage_path(base_dir, meta_path(base_dir)));
    assert(storage_path(base_dir, snapshot_path(base_dir)));
    lemma_persist(files, base_dir, op, encoded, meta_path(base_dir));
    lemma_persist(files, base_dir, op, encoded, snapshot_path(base_dir));
    assert forall|i: u64| next.logs.contains_key(i) implies (done.live)(
        #[trigger] log_path(base_dir, i),
    ) == Some((encoding.entry)(next.logs[i])) by {
        lemma_persist(files, base_dir, op, encoded, log_path(base_dir, i));
        match op {
            Persist::LogEntry(entry) => {
                law_log_paths_differ(base_dir, i, entry.log_id.1);
            },
            Persist::DeleteLogs { from, to } => {
                law_delete_takes_the_files_of_its_range(base_dir, from, to, i);
            },
            _ => {},
        }
    }
}

/// Whether a node that finds `found` under `base_dir` starts from what `disk` says: the metadata,
/// the snapshot, and every entry that the metadata promises
///
/// What the files hold of other entries is no matter: no read reaches them.
pub open spec fn starts_from<D>(
    found: spec_fn(Seq<char>) -> Content,
    base_dir: Seq<char>,
    encoding: Encoding<D>,
    disk: Disk<D>,
) -> bool {
    &&& disk.consistent()
    &&& found(meta_path(base_dir)) == Some((encoding.meta)(disk.meta)) || (found(
        meta_path(base_dir),
    ) is None && disk.meta == EzMeta::fresh())
    &&& found(snapshot_path(base_dir)) == (match disk.snapshot {
        Some(snapshot) => Some(
            snapshot_file((encoding.snapshot_meta)(snapshot.meta), snapshot.data),
        ),
        None => None,
    })
    &&& forall|i: u64|
        promised(disk.meta, i as int) ==> found(#[trigger] log_path(base_dir, i)) == Some(
            (encoding.entry)(disk.logs[i]),
        )
}

/// A crash anywhere while an operation is carried out leaves files that a node can start from, as
/// they were before the operation or as they are after it.
///
/// The operation is one that the log asks for: it writes over no entry that can be read, deletes
/// none, and leaves metadata that promises nothing that is not there. `found` is what the node
/// that comes back finds, one of the things it may find at each path.
pub proof fn law_crash_leaves_a_storage_to_start_from<D>(
    files: Files,
    base_dir: Seq<char>,
    encoding: Encoding<D>,
    disk: Disk<D>,
    op: Persist<D>,
    found: spec_fn(Seq<char>) -> Content,
)
    requires
        at_rest(files, base_dir),
        holds(files, base_dir, encoding, disk),
        disk.consistent(),
        disk.persisted(op).consistent(),
        op matches Persist::LogEntry(entry) ==> !promised(disk.meta, entry.log_id.1 as int),
        op matches Persist::DeleteLogs { from, to } ==> forall|i: int|
            from <= i < to ==> !#[trigger] promised(disk.meta, i),
        forall|path: Seq<char>| #[trigger]
            storage_path(base_dir, path) ==> files.may_find_during(
                persist_actions(base_dir, op, encoding.of(op)),
                path,
                found(path),
            ),
    ensures
        starts_from(found, base_dir, encoding, disk) || starts_from(
            found,
            base_dir,
            encoding,
            disk.persisted(op),
        ),
{
    let actions = persist_actions(base_dir, op, encoding.of(op));
    let done = files.after_all(actions);
    let next = disk.persisted(op);
    law_files_hold_what_was_persisted(files, base_dir, encoding, disk, op);
    lemma_top_paths(base_dir);
    let meta = meta_path(base_dir);
    let snapshot = snapshot_path(base_dir);
    assert(storage_path(base_dir, meta));
    assert(storage_path(base_dir, snapshot));
    law_crash_leaves_old_or_new(files, base_dir, op, encoding.of(op), meta, found(meta));
    law_crash_leaves_old_or_new(files, base_dir, op, encoding.of(op), snapshot, found(snapshot));
    assert forall|i: u64| promised(disk.meta, i as int) implies found(
        #[trigger] log_path(base_dir, i),
    ) == Some((encoding.entry)(disk.logs[i])) by {
        let path = log_path(base_dir, i);
        assert(storage_path(base_dir, path));
        law_crash_keeps_every_promised_entry(files, base_dir, encoding, disk, op, i, found(path));
    }
    assert forall|i: u64| promised(next.meta, i as int) implies found(
        #[trigger] log_path(base_dir, i),
    ) == Some((encoding.entry)(next.logs[i])) by {
        let path = log_path(base_dir, i);
        assert(storage_path(base_dir, path));
        assert(next.logs.contains_key(i));
        if op is Meta || op is Snapshot {
            lemma_persist(files, base_dir, op, encoding.of(op), path);
        } else {
            assert(promised(disk.meta, i as int));
        }
    }
    lemma_persist(files, base_dir, op, encoding.of(op), meta);
    lemma_persist(files, base_dir, op, encoding.of(op), snapshot);
    if !(op is Meta) {
        assert(found(meta) == (files.live)(meta));
    }
    if !(op is Snapshot) {
        assert(found(snapshot) == (files.live)(snapshot));
    }
}

/// A node that comes back goes on from what it found: once that is settled, the files hold the
/// storage that the node starts from, with its log cut to the entries that can be read.
///
/// So every law of files that hold a storage is a law of the run after a crash too. An entry file
/// that the crash cut short is past the end of that log, and the append that follows replaces it.
pub proof fn law_found_files_hold_what_can_be_read<D>(
    found: spec_fn(Seq<char>) -> Content,
    base_dir: Seq<char>,
    encoding: Encoding<D>,
    disk: Disk<D>,
)
    requires
        starts_from(found, base_dir, encoding, disk),
    ensures
        at_rest(Files::settled_as(found), base_dir),
        holds(Files::settled_as(found), base_dir, encoding, disk.readable()),
        disk.readable().consistent(),
{
    let kept = disk.readable();
    assert forall|i: u64| #[trigger] promised(kept.meta, i as int) implies kept.logs.contains_key(i)
        && kept.logs[i].log_id.1 == i by {
        assert(promised(disk.meta, i as int));
    }
}

/// An entry that was written is read back, whatever its file held before, also what a crash left
/// of an earlier attempt to write it.
pub proof fn law_written_entry_is_read_back<D>(
    files: Files,
    base_dir: Seq<char>,
    encoding: Encoding<D>,
    entry: EzEntry<D>,
)
    requires
        at_rest(files, base_dir),
    ensures
        ({
            let op = Persist::LogEntry(entry);
            let done = files.after_all(persist_actions(base_dir, op, encoding.of(op)));
            (done.live)(log_path(base_dir, entry.log_id.1)) == Some((encoding.entry)(entry))
        }),
{
    let op = Persist::LogEntry(entry);
    let path = log_path(base_dir, entry.log_id.1);
    assert(storage_path(base_dir, path));
    lemma_persist(files, base_dir, op, encoding.of(op), path);
}

/// An entry that was deleted is gone rather than empty, so that a read reports it missing.
pub proof fn law_deleted_entries_are_gone<D>(
    files: Files,
    base_dir: Seq<char>,
    encoding: Encoding<D>,
    from: u64,
    to: u64,
    i: u64,
)
    requires
        at_rest(files, base_dir),
        from <= i < to,
    ensures
        ({
            let op = Persist::<D>::DeleteLogs { from, to };
            let done = files.after_all(persist_actions(base_dir, op, encoding.of(op)));
            (done.live)(log_path(base_dir, i)) is None
        }),
{
    let op = Persist::<D>::DeleteLogs { from, to };
    assert(storage_path(base_dir, log_path(base_dir, i)));
    lemma_persist(files, base_dir, op, encoding.of(op), log_path(base_dir, i));
    law_delete_takes_the_files_of_its_range(base_dir, from, to, i);
}

/// What carrying out all of `ops` in order does to the files under `base_dir`
pub open spec fn all_actions<D>(
    base_dir: Seq<char>,
    encoding: Encoding<D>,
    ops: Seq<Persist<D>>,
) -> Seq<FileActionView>
    decreases ops.len(),
{
    if ops.len() == 0 {
        Seq::empty()
    } else {
        all_actions(base_dir, encoding, ops.drop_last()) + persist_actions(
            base_dir,
            ops.last(),
            encoding.of(ops.last()),
        )
    }
}

proof fn lemma_after_both(files: Files, first: Seq<FileActionView>, second: Seq<FileActionView>)
    ensures
        files.after_all(first + second) == files.after_all(first).after_all(second),
    decreases second.len(),
{
    if second.len() == 0 {
        assert(first + second =~= first);
    } else {
        lemma_after_both(files, first, second.drop_last());
        assert((first + second).drop_last() =~= first + second.drop_last());
    }
}

/// However many operations were carried out, the files hold what all of them ask for, and a power
/// loss takes nothing of it back.
pub proof fn law_files_hold_all_that_was_persisted<D>(
    files: Files,
    base_dir: Seq<char>,
    encoding: Encoding<D>,
    disk: Disk<D>,
    ops: Seq<Persist<D>>,
)
    requires
        at_rest(files, base_dir),
        holds(files, base_dir, encoding, disk),
    ensures
        at_rest(files.after_all(all_actions(base_dir, encoding, ops)), base_dir),
        holds(
            files.after_all(all_actions(base_dir, encoding, ops)),
            base_dir,
            encoding,
            disk.persisted_all(ops),
        ),
    decreases ops.len(),
{
    if ops.len() > 0 {
        let earlier = ops.drop_last();
        let op = ops.last();
        law_files_hold_all_that_was_persisted(files, base_dir, encoding, disk, earlier);
        let before = files.after_all(all_actions(base_dir, encoding, earlier));
        let held = disk.persisted_all(earlier);
        lemma_after_both(
            files,
            all_actions(base_dir, encoding, earlier),
            persist_actions(base_dir, op, encoding.of(op)),
        );
        law_persist_is_durable(before, base_dir, op, encoding.of(op));
        law_files_hold_what_was_persisted(before, base_dir, encoding, held, op);
    }
}

/// A snapshot that the files hold is read back as it was given to be persisted, both halves.
pub proof fn law_held_snapshot_is_read_back<D>(
    files: Files,
    base_dir: Seq<char>,
    encoding: Encoding<D>,
    disk: Disk<D>,
    snapshot: EzSnapshotView,
)
    requires
        holds(files, base_dir, encoding, disk),
        disk.snapshot == Some(snapshot),
        (encoding.snapshot_meta)(snapshot.meta).len() <= usize::MAX,
    ensures
        ({
            let file = (files.live)(snapshot_path(base_dir));
            &&& file is Some
            &&& snapshot_parts(file->0) == Ok::<_, SnapshotFileError>(
                ((encoding.snapshot_meta)(snapshot.meta), snapshot.data),
            )
        }),
{
    law_snapshot_file_reads_back((encoding.snapshot_meta)(snapshot.meta), snapshot.data);
}

/// The metadata that was persisted last by `ops`, if any was
pub open spec fn last_meta<D>(ops: Seq<Persist<D>>) -> Option<EzMeta>
    decreases ops.len(),
{
    if ops.len() == 0 {
        None
    } else {
        match ops.last() {
            Persist::Meta(meta) => Some(meta),
            _ => last_meta(ops.drop_last()),
        }
    }
}

/// The snapshot that was persisted last by `ops`, if any was
pub open spec fn last_snapshot<D>(ops: Seq<Persist<D>>) -> Option<EzSnapshotView>
    decreases ops.len(),
{
    if ops.len() == 0 {
        None
    } else {
        match ops.last() {
            Persist::Snapshot(snapshot) => Some(snapshot@),
            _ => last_snapshot(ops.drop_last()),
        }
    }
}

/// What was persisted last is what a storage holds.
proof fn lemma_last_persisted<D>(ops: Seq<Persist<D>>)
    ensures
        Disk::<D>::empty().persisted_all(ops).meta == (match last_meta(ops) {
            Some(meta) => meta,
            None => EzMeta::fresh(),
        }),
        Disk::<D>::empty().persisted_all(ops).snapshot == last_snapshot(ops),
    decreases ops.len(),
{
    if ops.len() > 0 {
        lemma_last_persisted(ops.drop_last());
    }
}

/// After any run of operations on an empty directory, the metadata file holds exactly the bytes of
/// the metadata that was persisted last, and the parts of the snapshot file are those of the last
/// snapshot; a file that nothing was persisted in is not there.
pub proof fn law_files_hold_what_was_persisted_last<D>(
    base_dir: Seq<char>,
    encoding: Encoding<D>,
    ops: Seq<Persist<D>>,
)
    ensures
        ({
            let files = Files::none().after_all(all_actions(base_dir, encoding, ops));
            let snapshot_bytes = (files.live)(snapshot_path(base_dir));
            &&& (files.live)(meta_path(base_dir)) == (match last_meta(ops) {
                Some(meta) => Some((encoding.meta)(meta)),
                None => None,
            })
            &&& match last_snapshot(ops) {
                Some(snapshot) => {
                    let encoded = (encoding.snapshot_meta)(snapshot.meta);
                    &&& snapshot_bytes == Some(snapshot_file(encoded, snapshot.data))
                    &&& encoded.len() <= usize::MAX ==> snapshot_parts(snapshot_bytes->0) == Ok::<
                        _,
                        SnapshotFileError,
                    >((encoded, snapshot.data))
                },
                None => snapshot_bytes is None,
            }
        }),
    decreases ops.len(),
{
    let none = Files::none();
    if ops.len() > 0 {
        let earlier = ops.drop_last();
        let op = ops.last();
        let before = none.after_all(all_actions(base_dir, encoding, earlier));
        law_files_hold_what_was_persisted_last(base_dir, encoding, earlier);
        law_no_files_hold_an_empty_storage(base_dir, encoding);
        law_files_hold_all_that_was_persisted(
            none,
            base_dir,
            encoding,
            Disk::<D>::empty(),
            earlier,
        );
        lemma_after_both(
            none,
            all_actions(base_dir, encoding, earlier),
            persist_actions(base_dir, op, encoding.of(op)),
        );
        lemma_top_paths(base_dir);
        assert(storage_path(base_dir, meta_path(base_dir)));
        assert(storage_path(base_dir, snapshot_path(base_dir)));
        lemma_persist(before, base_dir, op, encoding.of(op), meta_path(base_dir));
        lemma_persist(before, base_dir, op, encoding.of(op), snapshot_path(base_dir));
    }
    if let Some(snapshot) = last_snapshot(ops) {
        let encoded = (encoding.snapshot_meta)(snapshot.meta);
        if encoded.len() <= usize::MAX {
            law_snapshot_file_reads_back(encoded, snapshot.data);
        }
    }
}

/// Whether reading a file that holds `content` comes to `file`
pub open spec fn reads<E>(file: Result<Vec<u8>, IoFailure<E>>, content: Content) -> bool {
    match (file, content) {
        (Ok(bytes), Some(held)) => bytes@ == held,
        (Err(IoFailure::NotFound(_)), None) => true,
        _ => false,
    }
}

/// Whether the decoders give back what `encoding` wrote
pub open spec fn undone_by<D, E, F, G>(
    encoding: Encoding<D>,
    decode_meta: F,
    decode_snapshot_meta: G,
) -> bool where
    F: FnOnce(Vec<u8>) -> Result<EzMeta, E>,
    G: FnOnce(Vec<u8>) -> Result<EzSnapshotMeta, E>,
 {
    &&& forall|bytes: Vec<u8>, meta: EzMeta, decoded: Result<EzMeta, E>|
        bytes@ == #[trigger] (encoding.meta)(meta) && #[trigger] call_ensures(
            decode_meta,
            (bytes,),
            decoded,
        ) ==> decoded == Ok::<EzMeta, E>(meta)
    &&& forall|bytes: Vec<u8>, meta: EzSnapshotMetaView, decoded: Result<EzSnapshotMeta, E>|
        bytes@ == #[trigger] (encoding.snapshot_meta)(meta) && #[trigger] call_ensures(
            decode_snapshot_meta,
            (bytes,),
            decoded,
        ) ==> decoded is Ok && decoded->Ok_0@ == meta
}

/// A load gives back what was persisted last: after any run of operations on an empty directory,
/// with decoders that undo the encoding, [`FileStorage::load`] comes to the last metadata and the
/// last snapshot, and to a node that has never run, or has never taken one, where there is none.
///
/// [`FileStorage::load`]: crate::storage::file_storage::FileStorage::load
pub proof fn law_load_gives_back_what_was_persisted_last<D, E, F, G>(
    base_dir: Seq<char>,
    encoding: Encoding<D>,
    ops: Seq<Persist<D>>,
    meta_file: Result<Vec<u8>, IoFailure<E>>,
    snapshot_file: Result<Vec<u8>, IoFailure<E>>,
    decode_meta: F,
    decode_snapshot_meta: G,
    loaded: Result<Loaded, LoadError<E>>,
) where
    F: FnOnce(Vec<u8>) -> Result<EzMeta, E>,
    G: FnOnce(Vec<u8>) -> Result<EzSnapshotMeta, E>,

    requires
        undone_by(encoding, decode_meta, decode_snapshot_meta),
        last_snapshot(ops) matches Some(snapshot) ==> (encoding.snapshot_meta)(
            snapshot.meta,
        ).len() <= usize::MAX,
        ({
            let files = Files::none().after_all(all_actions(base_dir, encoding, ops));
            &&& reads(meta_file, (files.live)(meta_path(base_dir)))
            &&& reads(snapshot_file, (files.live)(snapshot_path(base_dir)))
        }),
        comes_to(meta_file, snapshot_file, decode_meta, decode_snapshot_meta, loaded),
    ensures
        loaded is Ok,
        loaded->Ok_0.meta == (match last_meta(ops) {
            Some(meta) => meta,
            None => EzMeta::fresh(),
        }),
        match last_snapshot(ops) {
            Some(snapshot) => loaded->Ok_0.snapshot is Some && loaded->Ok_0.snapshot->0@ == snapshot,
            None => loaded->Ok_0.snapshot is None,
        },
        loaded->Ok_0.meta == Disk::<D>::empty().persisted_all(ops).meta,
        match Disk::<D>::empty().persisted_all(ops).snapshot {
            Some(snapshot) => loaded->Ok_0.snapshot is Some && loaded->Ok_0.snapshot->0@ == snapshot,
            None => loaded->Ok_0.snapshot is None,
        },
{
    law_files_hold_what_was_persisted_last(base_dir, encoding, ops);
    lemma_last_persisted(ops);
}

} // verus!
