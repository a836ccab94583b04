//! A storage that keeps one node's Raft state as files under a directory
//!
//! ```text
//! <base_dir>/meta.json        Raft metadata (node id, vote, log positions)
//! <base_dir>/logs/log-<idx>   one log entry per file
//! <base_dir>/snapshot         length-prefixed snapshot metadata, then application state
//! ```
//!
//! What is decided here is which files hold what, and what is done to them in which order; doing
//! it is left to the caller, and so is turning values into bytes.

use vstd::prelude::*;

use crate::entry::EzEntry;
use crate::meta::EzMeta;
use crate::snapshot::EzSnapshot;
use crate::snapshot::EzSnapshotMeta;
use crate::storage::Loaded;
use crate::storage::Persist;
use crate::storage::files::FileAction;
use crate::storage::files::FileActionView;
use crate::storage::files::action_views;
use crate::storage::files::join;
use crate::storage::files::law_log_file_is_named_by_its_index;
use crate::storage::files::log_index;
use crate::storage::snapshot_file::SnapshotFileError;
use crate::storage::snapshot_file::frame_snapshot;
use crate::storage::snapshot_file::parse_snapshot;
use crate::storage::snapshot_file::snapshot_file;
use crate::storage::snapshot_file::snapshot_parts;
use crate::text::decimal;
use crate::text::decimal_text;
use crate::text::law_decimal_reads_back;
use crate::text::parse_u64;
use crate::text::parsed_u64;

verus! {

/// Keeps one node's Raft state as files under a directory
///
/// A snapshot is one file because its two halves must not be mixed: metadata naming a log
/// position that the state next to it does not cover would make startup skip the entries in
/// between. Metadata and state are written together and published by a single rename, so a
/// process that dies mid-write leaves the previous snapshot whole. The metadata file is replaced
/// the same way rather than overwritten, since it is the only copy of the node's id and vote.
///
/// What is durable rests on the flush of a directory settling the names in it. A system that cannot
/// flush one keeps the flushed bytes and the rename that happens at once, and leaves the rest to
/// its filesystem.
///
/// One directory per node: two nodes sharing it would overwrite each other's log.
#[derive(Debug)]
pub struct FileStorage {
    base_dir: String,
}

/// Why a file could not be had
#[derive(Debug)]
pub enum IoFailure<E> {
    /// There is nothing of that name
    NotFound(E),

    /// There is something of that name already
    AlreadyExists(E),

    /// Anything else
    Other(E),
}

/// Where the metadata is
pub open spec fn meta_path(base_dir: Seq<char>) -> Seq<char> {
    join(base_dir, "meta.json"@)
}

/// Where the log entries are
pub open spec fn logs_dir(base_dir: Seq<char>) -> Seq<char> {
    join(base_dir, "logs"@)
}

/// The file name of the log entry of an index
pub open spec fn log_name(index: u64) -> Seq<char> {
    "log-"@ + decimal(index as nat)
}

/// Where the log entry of an index is
pub open spec fn log_path(base_dir: Seq<char>, index: u64) -> Seq<char> {
    join(logs_dir(base_dir), log_name(index))
}

/// Where the snapshot is
pub open spec fn snapshot_path(base_dir: Seq<char>) -> Seq<char> {
    join(base_dir, "snapshot"@)
}

/// What replacing the file at `path`, inside `dir`, by `bytes` does
///
/// The bytes go to a temporary file first and are published by renaming it over `path`. They are
/// made durable before the rename that publishes them, and the directory after it, so a power
/// loss cannot land the rename ahead of what it names.
pub open spec fn replace_actions(dir: Seq<char>, path: Seq<char>, bytes: Seq<u8>) -> Seq<
    FileActionView,
> {
    seq![
        FileActionView::Write { path: path + ".tmp"@, bytes },
        FileActionView::Rename { source: path + ".tmp"@, target: path },
        FileActionView::SyncDir { dir },
    ]
}

/// What carrying out `op` does to the files under `base_dir`
///
/// `encoded` is the metadata, the entry, or the metadata of the snapshot, as bytes; a deletion
/// has nothing to encode.
pub open spec fn persist_actions<D>(base_dir: Seq<char>, op: Persist<D>, encoded: Seq<u8>) -> Seq<
    FileActionView,
> {
    match op {
        Persist::Meta(_) => replace_actions(base_dir, meta_path(base_dir), encoded),
        Persist::LogEntry(entry) => seq![
            FileActionView::Write { path: log_path(base_dir, entry.log_id.1), bytes: encoded },
            FileActionView::SyncDir { dir: logs_dir(base_dir) },
        ],
        Persist::Snapshot(snapshot) => replace_actions(
            base_dir,
            snapshot_path(base_dir),
            snapshot_file(encoded, snapshot@.data),
        ),
        Persist::DeleteLogs { from, to } => seq![
            FileActionView::RemoveLogs { dir: logs_dir(base_dir), from, to },
        ],
    }
}

/// The path of `name` in the directory at `dir`
fn join_path(dir: &str, name: &str) -> (path: String)
    ensures
        path@ == join(dir@, name@),
{
    proof {
        reveal_strlit("/");
    }
    let len: usize = dir.unicode_len();
    let mut path = String::from_str(dir);
    if len > 0 && dir.get_char(len - 1) != '/' {
        path.append("/");
        assert(path@ =~= dir@ + seq!['/']);
    }
    path.append(name);
    assert(path@ =~= join(dir@, name@));
    path
}

impl FileStorage {
    /// The directory that holds everything
    pub closed spec fn base_dir(self) -> Seq<char> {
        self.base_dir@
    }

    /// The storage under `base_dir`
    pub fn new(base_dir: &str) -> (storage: FileStorage)
        ensures
            storage.base_dir() == base_dir@,
    {
        FileStorage { base_dir: String::from_str(base_dir) }
    }

    /// The directories that have to be there before anything is written, in the order in which
    /// they are created
    ///
    /// Created up front rather than before the first entry, so that writing one costs no directory
    /// creation and the durability of this directory's own entry is settled once.
    pub fn directories(&self) -> (dirs: Vec<String>)
        ensures
            dirs@.len() == 2,
            dirs@[0]@ == self.base_dir(),
            dirs@[1]@ == logs_dir(self.base_dir()),
    {
        let mut dirs: Vec<String> = Vec::new();
        dirs.push(self.base_dir.clone());
        dirs.push(self.logs_dir());
        dirs
    }

    pub fn meta_path(&self) -> (path: String)
        ensures
            path@ == meta_path(self.base_dir()),
    {
        join_path(self.base_dir.as_str(), "meta.json")
    }

    pub fn logs_dir(&self) -> (path: String)
        ensures
            path@ == logs_dir(self.base_dir()),
    {
        join_path(self.base_dir.as_str(), "logs")
    }

    pub fn log_path(&self, index: u64) -> (path: String)
        ensures
            path@ == log_path(self.base_dir(), index),
    {
        let mut name = String::from_str("log-");
        name.append(decimal_text(index).as_str());
        join_path(self.logs_dir().as_str(), name.as_str())
    }

    pub fn snapshot_path(&self) -> (path: String)
        ensures
            path@ == snapshot_path(self.base_dir()),
    {
        join_path(self.base_dir.as_str(), "snapshot")
    }

    /// What replaces the file at `path`, directly under the base directory, by `bytes`
    fn replace(&self, path: String, bytes: Vec<u8>) -> (actions: Vec<FileAction>)
        ensures
            action_views(actions@) == replace_actions(self.base_dir(), path@, bytes@),
    {
        let mut tmp = path.clone();
        tmp.append(".tmp");
        let mut actions: Vec<FileAction> = Vec::new();
        actions.push(FileAction::Write { path: tmp.clone(), bytes });
        actions.push(FileAction::Rename { source: tmp, target: path });
        actions.push(FileAction::SyncDir { dir: self.base_dir.clone() });
        assert(action_views(actions@) =~= replace_actions(self.base_dir(), path@, bytes@));
        actions
    }

    /// What carries out `op`, to be done in order and abandoned at the first that fails
    ///
    /// `encoded` is the metadata, the entry, or the metadata of the snapshot, as bytes; a deletion
    /// has nothing to encode.
    ///
    /// An entry is written in place rather than replaced, which the two positions of the log make
    /// safe: entries are appended only past the end it recorded, and a truncation lowers that
    /// record before the entries it drops are written over. Either way the index being written is
    /// one no read reaches until its write was recorded, so a file that a crash cut short is never
    /// read, and the append that follows replaces it.
    pub fn persist<D>(&self, op: &Persist<D>, encoded: Vec<u8>) -> (actions: Vec<FileAction>)
        ensures
            action_views(actions@) == persist_actions(self.base_dir(), *op, encoded@),
    {
        match op {
            Persist::Meta(_) => self.replace(self.meta_path(), encoded),
            Persist::LogEntry(entry) => {
                let mut actions: Vec<FileAction> = Vec::new();
                actions.push(
                    FileAction::Write { path: self.log_path(entry.log_id.1), bytes: encoded },
                );
                actions.push(FileAction::SyncDir { dir: self.logs_dir() });
                assert(action_views(actions@) =~= persist_actions(
                    self.base_dir(),
                    *op,
                    encoded@,
                ));
                actions
            },
            Persist::Snapshot(snapshot) => {
                let file = frame_snapshot(&encoded, &snapshot.data);
                self.replace(self.snapshot_path(), file)
            },
            Persist::DeleteLogs { from, to } => {
                let mut actions: Vec<FileAction> = Vec::new();
                actions.push(
                    FileAction::RemoveLogs { dir: self.logs_dir(), from: *from, to: *to },
                );
                assert(action_views(actions@) =~= persist_actions(
                    self.base_dir(),
                    *op,
                    encoded@,
                ));
                actions
            },
        }
    }
}

/// What is to be done with one file of the log directory
#[derive(Debug, Clone, Copy, PartialEq, Eq, Structural)]
pub enum LogFile {
    /// Its name is not that of a log file: the whole deletion fails
    Unexpected,

    /// Its index is outside the range
    Keep,

    /// Its index is inside the range
    Remove,
}

/// What a deletion of the indexes from `from` up to, and without, `to` does with a file of the
/// name `name`
pub open spec fn log_file_fate(from: u64, to: u64, name: Seq<char>) -> LogFile {
    match log_index(name) {
        Some(index) => if from <= index < to {
            LogFile::Remove
        } else {
            LogFile::Keep
        },
        None => LogFile::Unexpected,
    }
}

/// A deletion of log files that is under way, one name of the directory after the other
#[derive(Debug)]
pub struct RemoveLogs {
    from: u64,
    to: u64,
    deleted: bool,
}

impl RemoveLogs {
    pub closed spec fn from(self) -> u64 {
        self.from
    }

    pub closed spec fn to(self) -> u64 {
        self.to
    }

    /// Whether there was a file to delete so far
    pub closed spec fn deleted(self) -> bool {
        self.deleted
    }

    /// Delete the log files of the indexes from `from` up to, and without, `to`
    pub fn new(from: u64, to: u64) -> (removal: RemoveLogs)
        ensures
            removal.from() == from,
            removal.to() == to,
            !removal.deleted(),
    {
        RemoveLogs { from, to, deleted: false }
    }

    /// What a log directory that could not be listed means: there is nothing to delete in one
    /// that is not there, and any other failure is the deletion's
    pub fn not_listed<E>(failure: IoFailure<E>) -> (result: Result<(), E>)
        ensures
            result == (match failure {
                IoFailure::NotFound(_) => Ok(()),
                IoFailure::AlreadyExists(e) => Err(e),
                IoFailure::Other(e) => Err(e),
            }),
    {
        match failure {
            IoFailure::NotFound(_) => Ok(()),
            IoFailure::AlreadyExists(e) => Err(e),
            IoFailure::Other(e) => Err(e),
        }
    }

    /// What to do with the next file of the directory, whose name is `name` if that is text
    pub fn file(&mut self, name: Option<&str>) -> (fate: LogFile)
        ensures
            fate == (match name {
                Some(name) => log_file_fate(old(self).from(), old(self).to(), name@),
                None => LogFile::Unexpected,
            }),
            final(self).from() == old(self).from(),
            final(self).to() == old(self).to(),
            final(self).deleted() == (old(self).deleted() || fate == LogFile::Remove),
    {
        let index = match name {
            Some(name) => index_of_name(name),
            None => None,
        };
        match index {
            Some(index) => if self.from <= index && index < self.to {
                self.deleted = true;
                LogFile::Remove
            } else {
                LogFile::Keep
            },
            None => LogFile::Unexpected,
        }
    }

    /// Whether the log directory has to be flushed, once all its files were looked at
    ///
    /// A deletion is a change to the directory, and it is durable on the same terms as the
    /// creation of an entry. One flush covers the batch.
    pub fn must_sync(&self) -> (sync: bool)
        ensures
            sync == self.deleted(),
    {
        self.deleted
    }

    /// What is wrong with a directory that holds an unexpected file, shown as `name`
    pub fn unexpected_file(name: &str) -> (text: String)
        ensures
            text@ == "unexpected file in log dir: "@ + name@,
    {
        let mut text = String::from_str("unexpected file in log dir: ");
        text.append(name);
        text
    }
}

/// The index that a file name stands for, if it is the name of a log file
pub fn index_of_name(name: &str) -> (index: Option<u64>)
    ensures
        index == log_index(name@),
{
    let len: usize = name.unicode_len();
    if len < 4 {
        return None;
    }
    assert(name@.take(4) =~= seq![name@[0], name@[1], name@[2], name@[3]]);
    if name.get_char(0) == 'l' && name.get_char(1) == 'o' && name.get_char(2) == 'g'
        && name.get_char(3) == '-' {
        assert(name@.subrange(4, len as int) =~= name@.skip(4));
        parse_u64(name.substring_char(4, len))
    } else {
        proof {
            let prefix = seq!['l', 'o', 'g', '-'];
            if name@.take(4) == prefix {
                assert(name@.take(4)[0] == prefix[0]);
                assert(name@.take(4)[1] == prefix[1]);
                assert(name@.take(4)[2] == prefix[2]);
                assert(name@.take(4)[3] == prefix[3]);
            }
        }
        None
    }
}

/// Why a storage could not be loaded
#[derive(Debug)]
pub enum LoadError<E> {
    /// A file could not be read, or what it holds could not be decoded
    File(E),

    /// The snapshot file is not laid out as one
    Snapshot(SnapshotFileError),
}

/// Whether `meta` is what the metadata file `file` says, by the decoder `decode`
pub open spec fn meta_loaded<E, F: FnOnce(Vec<u8>) -> Result<EzMeta, E>>(
    file: Result<Vec<u8>, IoFailure<E>>,
    decode: F,
    meta: EzMeta,
) -> bool {
    match file {
        Ok(bytes) => call_ensures(decode, (bytes,), Ok(meta)),
        Err(IoFailure::NotFound(_)) => meta == EzMeta::fresh(),
        Err(_) => false,
    }
}

/// Whether `e` is why the file `file` gave no value, by the decoder `decode` of what it holds
pub open spec fn file_failed<T, E, F: FnOnce(Vec<u8>) -> Result<T, E>>(
    file: Result<Vec<u8>, IoFailure<E>>,
    decode: F,
    e: E,
) -> bool {
    match file {
        Ok(bytes) => call_ensures(decode, (bytes,), Err(e)),
        Err(IoFailure::NotFound(_)) => false,
        Err(IoFailure::AlreadyExists(failure)) => failure == e,
        Err(IoFailure::Other(failure)) => failure == e,
    }
}

/// Whether the metadata `bytes` decode to is `meta`, by the decoder `decode`
pub open spec fn decodes_to<E, G: FnOnce(Vec<u8>) -> Result<EzSnapshotMeta, E>>(
    decode: G,
    bytes: Seq<u8>,
    meta: Result<EzSnapshotMeta, E>,
) -> bool {
    exists|held: Vec<u8>| held@ == bytes && #[trigger] call_ensures(decode, (held,), meta)
}

/// Whether `snapshot` is what the snapshot file `file` says, by the decoder `decode` of its
/// metadata
pub open spec fn snapshot_loaded<E, G: FnOnce(Vec<u8>) -> Result<EzSnapshotMeta, E>>(
    file: Result<Vec<u8>, IoFailure<E>>,
    decode: G,
    snapshot: Option<EzSnapshot>,
) -> bool {
    match (file, snapshot) {
        (Ok(bytes), Some(snapshot)) => {
            &&& snapshot_parts(bytes@) is Ok
            &&& decodes_to(decode, snapshot_parts(bytes@)->Ok_0.0, Ok(snapshot.meta))
            &&& snapshot.data@ == snapshot_parts(bytes@)->Ok_0.1
        },
        (Err(IoFailure::NotFound(_)), None) => true,
        _ => false,
    }
}

/// Whether `e` is why the snapshot file `file` gave no snapshot
pub open spec fn snapshot_failed<E, G: FnOnce(Vec<u8>) -> Result<EzSnapshotMeta, E>>(
    file: Result<Vec<u8>, IoFailure<E>>,
    decode: G,
    e: LoadError<E>,
) -> bool {
    match (file, e) {
        (Ok(bytes), LoadError::File(e)) => snapshot_parts(bytes@) is Ok && decodes_to(
            decode,
            snapshot_parts(bytes@)->Ok_0.0,
            Err(e),
        ),
        (Ok(bytes), LoadError::Snapshot(e)) => snapshot_parts(bytes@) == Err::<
            (Seq<u8>, Seq<u8>),
            _,
        >(e),
        (Err(IoFailure::AlreadyExists(failure)), LoadError::File(e)) => failure == e,
        (Err(IoFailure::Other(failure)), LoadError::File(e)) => failure == e,
        _ => false,
    }
}

/// Whether a load comes to `loaded`, by what reading the two files gave and by the two decoders:
/// to what both files say, or to why the first of them that failed did
pub open spec fn comes_to<E, F, G>(
    meta_file: Result<Vec<u8>, IoFailure<E>>,
    snapshot_file: Result<Vec<u8>, IoFailure<E>>,
    decode_meta: F,
    decode_snapshot_meta: G,
    loaded: Result<Loaded, LoadError<E>>,
) -> bool where
    F: FnOnce(Vec<u8>) -> Result<EzMeta, E>,
    G: FnOnce(Vec<u8>) -> Result<EzSnapshotMeta, E>,
 {
    match loaded {
        Ok(loaded) => {
            &&& meta_loaded(meta_file, decode_meta, loaded.meta)
            &&& snapshot_loaded(snapshot_file, decode_snapshot_meta, loaded.snapshot)
        },
        Err(e) => {
            ||| exists|io: E| e == LoadError::File(io) && #[trigger] file_failed(
                meta_file,
                decode_meta,
                io,
            )
            ||| {
                &&& exists|meta: EzMeta| #[trigger] meta_loaded(meta_file, decode_meta, meta)
                &&& snapshot_failed(snapshot_file, decode_snapshot_meta, e)
            }
        },
    }
}

impl FileStorage {
    /// What a node starts from, out of what reading the metadata file and the snapshot file gave
    ///
    /// A node that has no metadata file has never run, and one that has no snapshot file has
    /// never taken a snapshot. Any other failure is the start's, the metadata's before the
    /// snapshot's.
    pub fn load<E, F, G>(
        meta_file: Result<Vec<u8>, IoFailure<E>>,
        snapshot_file: Result<Vec<u8>, IoFailure<E>>,
        decode_meta: F,
        decode_snapshot_meta: G,
    ) -> (loaded: Result<Loaded, LoadError<E>>) where
        F: FnOnce(Vec<u8>) -> Result<EzMeta, E>,
        G: FnOnce(Vec<u8>) -> Result<EzSnapshotMeta, E>,

        requires
            forall|bytes: Vec<u8>| #[trigger] call_requires(decode_meta, (bytes,)),
            forall|bytes: Vec<u8>| #[trigger] call_requires(decode_snapshot_meta, (bytes,)),
        ensures
            comes_to(meta_file, snapshot_file, decode_meta, decode_snapshot_meta, loaded),
    {
        let meta = match meta_file {
            Ok(bytes) => match decode_meta(bytes) {
                Ok(meta) => meta,
                Err(e) => {
                    assert(file_failed(meta_file, decode_meta, e));
                    return Err(LoadError::File(e));
                },
            },
            Err(IoFailure::NotFound(_)) => EzMeta::default(),
            Err(IoFailure::AlreadyExists(e)) => {
                assert(file_failed(meta_file, decode_meta, e));
                return Err(LoadError::File(e));
            },
            Err(IoFailure::Other(e)) => {
                assert(file_failed(meta_file, decode_meta, e));
                return Err(LoadError::File(e));
            },
        };
        assert(meta_loaded(meta_file, decode_meta, meta));
        let snapshot = match snapshot_file {
            Ok(file) => {
                let (meta_bytes, data) = match parse_snapshot(&file) {
                    Ok(parts) => parts,
                    Err(e) => {
                        return Err(LoadError::Snapshot(e));
                    },
                };
                match decode_snapshot_meta(meta_bytes) {
                    Ok(meta) => Some(EzSnapshot { meta, data }),
                    Err(e) => {
                        return Err(LoadError::File(e));
                    },
                }
            },
            Err(IoFailure::NotFound(_)) => None,
            Err(IoFailure::AlreadyExists(e)) => {
                return Err(LoadError::File(e));
            },
            Err(IoFailure::Other(e)) => {
                return Err(LoadError::File(e));
            },
        };
        Ok(Loaded { meta, snapshot })
    }
}

/// A read of a range of log entries that is under way
///
/// Every index in the range must be there: a gap handed back would look like a shorter log rather
/// than the missing entry it is. So the read asks for one file after the other, and fails with the
/// first that cannot be had.
#[derive(Debug)]
#[verifier::reject_recursive_types(D)]
pub struct ReadLogs<D> {
    start: u64,
    next: u64,
    end: u64,
    entries: Vec<EzEntry<D>>,
}

impl<D> ReadLogs<D> {
    /// The index that the read began with
    pub closed spec fn start(self) -> u64 {
        self.start
    }

    /// The next index to read
    pub closed spec fn next(self) -> u64 {
        self.next
    }

    /// The index to stop short of
    pub closed spec fn end(self) -> u64 {
        self.end
    }

    /// The entries read so far
    pub closed spec fn entries(self) -> Seq<EzEntry<D>> {
        self.entries@
    }

    #[verifier::type_invariant]
    spec fn inv(self) -> bool {
        self.start <= self.next && self.entries@.len() == self.next - self.start
    }

    /// Read the entries of the indexes from `start` up to, and without, `end`
    pub fn new(start: u64, end: u64) -> (read: ReadLogs<D>)
        ensures
            read.start() == start,
            read.next() == start,
            read.end() == end,
            read.entries() == Seq::<EzEntry<D>>::empty(),
    {
        ReadLogs { start, next: start, end, entries: Vec::new() }
    }

    /// The path of the file to read next, or nothing once the range was read
    pub fn next_path(&self, storage: &FileStorage) -> (path: Option<String>)
        ensures
            match path {
                Some(path) => self.next() < self.end() && path@ == log_path(
                    storage.base_dir(),
                    self.next(),
                ),
                None => self.next() >= self.end(),
            },
    {
        if self.next < self.end {
            Some(storage.log_path(self.next))
        } else {
            None
        }
    }

    /// The read once it took the entry that the file named by [`Self::next_path`] held
    pub fn with(self, entry: EzEntry<D>) -> (read: ReadLogs<D>)
        requires
            self.next() < self.end(),
        ensures
            read.start() == self.start(),
            read.next() == self.next() + 1,
            read.end() == self.end(),
            read.entries() == self.entries().push(entry),
    {
        proof {
            use_type_invariant(&self);
        }
        let ReadLogs { start, next, end, entries } = self;
        let mut entries = entries;
        entries.push(entry);
        ReadLogs { start, next: next + 1, end, entries }
    }

    /// The entries of the range, in order, one for each index
    pub fn finish(self) -> (entries: Vec<EzEntry<D>>)
        ensures
            entries@ == self.entries(),
            entries@.len() == self.next() - self.start(),
    {
        proof {
            use_type_invariant(&self);
        }
        self.entries
    }
}

/// Where everything is: the metadata and the snapshot directly under the base directory, and the
/// entries in a directory of their own, each in a file that its index names.
pub proof fn law_everything_is_where_it_is_named(base_dir: Seq<char>, index: u64)
    ensures
        meta_path(base_dir) == join(base_dir, "meta.json"@),
        snapshot_path(base_dir) == join(base_dir, "snapshot"@),
        logs_dir(base_dir) == join(base_dir, "logs"@),
        log_path(base_dir, index) == join(
            join(base_dir, "logs"@),
            "log-"@ + decimal(index as nat),
        ),
{
}

/// Metadata and a snapshot are written whole to a temporary file, which is then renamed over the
/// file that it replaces, and the base directory is flushed last. An entry is written, every byte
/// of it, to the file of its own index, and the directory of the entries is flushed after it. A
/// deletion is of the indexes that it names, among the entries.
pub proof fn law_each_write_goes_to_its_own_file<D>(
    base_dir: Seq<char>,
    meta: EzMeta,
    snapshot: EzSnapshot,
    entry: EzEntry<D>,
    from: u64,
    to: u64,
    encoded: Seq<u8>,
)
    ensures
        ({
            let path = join(base_dir, "meta.json"@);
            let tmp = path + ".tmp"@;
            let actions = persist_actions(base_dir, Persist::<D>::Meta(meta), encoded);
            &&& actions.len() == 3
            &&& actions[0] == (FileActionView::Write { path: tmp, bytes: encoded })
            &&& actions[1] == (FileActionView::Rename { source: tmp, target: path })
            &&& actions[2] == (FileActionView::SyncDir { dir: base_dir })
        }),
        ({
            let path = join(base_dir, "snapshot"@);
            let tmp = path + ".tmp"@;
            let bytes = snapshot_file(encoded, snapshot.data@);
            let actions = persist_actions(base_dir, Persist::<D>::Snapshot(snapshot), encoded);
            &&& actions.len() == 3
            &&& actions[0] == (FileActionView::Write { path: tmp, bytes })
            &&& actions[1] == (FileActionView::Rename { source: tmp, target: path })
            &&& actions[2] == (FileActionView::SyncDir { dir: base_dir })
        }),
        ({
            let dir = join(base_dir, "logs"@);
            let path = join(dir, "log-"@ + decimal(entry.log_id.1 as nat));
            let actions = persist_actions(base_dir, Persist::LogEntry(entry), encoded);
            &&& actions.len() == 2
            &&& actions[0] == (FileActionView::Write { path, bytes: encoded })
            &&& actions[1] == (FileActionView::SyncDir { dir })
        }),
        ({
            let dir = join(base_dir, "logs"@);
            let op = Persist::<D>::DeleteLogs { from, to };
            let actions = persist_actions(base_dir, op, encoded);
            &&& actions.len() == 1
            &&& actions[0] == (FileActionView::RemoveLogs { dir, from, to })
        }),
{
}

/// What a deletion does with a file follows from its name: a file that no number names makes the
/// whole deletion fail, and any other is removed if and only if its index is in the range.
pub proof fn law_file_is_removed_by_its_index(
    from: u64,
    to: u64,
    digits: Seq<char>,
    name: Seq<char>,
)
    ensures
        match parsed_u64(digits) {
            Some(index) => {
                &&& from <= index < to ==> log_file_fate(from, to, "log-"@ + digits)
                    == LogFile::Remove
                &&& index < from || to <= index ==> log_file_fate(from, to, "log-"@ + digits)
                    == LogFile::Keep
            },
            None => log_file_fate(from, to, "log-"@ + digits) == LogFile::Unexpected,
        },
        name.len() < 4 || name.take(4) != "log-"@ ==> log_file_fate(from, to, name)
            == LogFile::Unexpected,
{
    law_log_file_is_named_by_its_index(name, digits);
}

/// A load that succeeds gives what both files say: the metadata that the one decodes to, and the
/// snapshot whose parts the other holds. A file that is not there stands for a node that has never
/// run, or has never taken a snapshot, and for nothing else.
pub proof fn law_load_says_what_the_files_say<E, F, G>(
    meta_file: Result<Vec<u8>, IoFailure<E>>,
    snapshot_file: Result<Vec<u8>, IoFailure<E>>,
    decode_meta: F,
    decode_snapshot_meta: G,
    loaded: Loaded,
) where
    F: FnOnce(Vec<u8>) -> Result<EzMeta, E>,
    G: FnOnce(Vec<u8>) -> Result<EzSnapshotMeta, E>,

    requires
        comes_to(meta_file, snapshot_file, decode_meta, decode_snapshot_meta, Ok(loaded)),
    ensures
        meta_file matches Ok(bytes) ==> call_ensures(decode_meta, (bytes,), Ok(loaded.meta)),
        meta_file matches Err(failure) ==> failure is NotFound && loaded.meta.node_id is None
            && loaded.meta.vote is None && loaded.meta.last_log_id is None
            && loaded.meta.last_purged is None && !loaded.meta.promotion_pending,
        snapshot_file matches Ok(bytes) ==> {
            &&& loaded.snapshot matches Some(snapshot)
            &&& snapshot_parts(bytes@) matches Ok((encoded, data))
            &&& snapshot.data@ == data
            &&& exists|held: Vec<u8>|
                held@ == encoded && #[trigger] call_ensures(
                    decode_snapshot_meta,
                    (held,),
                    Ok(snapshot.meta),
                )
        },
        snapshot_file matches Err(failure) ==> failure is NotFound && loaded.snapshot is None,
{
}

/// A load that fails says why, and the metadata's failure comes before the snapshot's: a file that
/// could not be read fails it with that failure, and so does one that does not decode; a snapshot
/// file that is not laid out as one fails it with what is wrong with the layout.
pub proof fn law_load_fails_with_the_first_failure<E, F, G>(
    meta_file: Result<Vec<u8>, IoFailure<E>>,
    snapshot_file: Result<Vec<u8>, IoFailure<E>>,
    decode_meta: F,
    decode_snapshot_meta: G,
    loaded: Result<Loaded, LoadError<E>>,
) where
    F: FnOnce(Vec<u8>) -> Result<EzMeta, E>,
    G: FnOnce(Vec<u8>) -> Result<EzSnapshotMeta, E>,

    requires
        comes_to(meta_file, snapshot_file, decode_meta, decode_snapshot_meta, loaded),
    ensures
        meta_file matches Err(IoFailure::AlreadyExists(e)) ==> loaded == Err::<Loaded, _>(
            LoadError::File(e),
        ),
        meta_file matches Err(IoFailure::Other(e)) ==> loaded == Err::<Loaded, _>(
            LoadError::File(e),
        ),
        meta_file matches Ok(bytes) ==> (forall|decoded: Result<EzMeta, E>| #[trigger]
            call_ensures(decode_meta, (bytes,), decoded) ==> decoded is Err) ==> {
            &&& loaded matches Err(LoadError::File(e))
            &&& call_ensures(decode_meta, (bytes,), Err(e))
        },
        (match meta_file {
            Ok(bytes) => forall|decoded: Result<EzMeta, E>| #[trigger]
                call_ensures(decode_meta, (bytes,), decoded) ==> decoded is Ok,
            Err(failure) => failure is NotFound,
        }) ==> {
            &&& snapshot_file matches Err(IoFailure::NotFound(_)) ==> loaded is Ok
            &&& snapshot_file matches Err(IoFailure::AlreadyExists(e)) ==> loaded == Err::<
                Loaded,
                _,
            >(LoadError::File(e))
            &&& snapshot_file matches Err(IoFailure::Other(e)) ==> loaded == Err::<Loaded, _>(
                LoadError::File(e),
            )
            &&& snapshot_file matches Ok(bytes) ==> snapshot_parts(bytes@) matches Err(wrong)
                ==> loaded == Err::<Loaded, _>(LoadError::<E>::Snapshot(wrong))
        },
        loaded matches Err(LoadError::Snapshot(wrong)) ==> {
            &&& snapshot_file matches Ok(bytes)
            &&& snapshot_parts(bytes@) == Err::<(Seq<u8>, Seq<u8>), _>(wrong)
        },
        loaded matches Err(LoadError::File(e)) ==> {
            ||| meta_file == Err::<Vec<u8>, _>(IoFailure::AlreadyExists(e))
            ||| meta_file == Err::<Vec<u8>, _>(IoFailure::Other(e))
            ||| meta_file matches Ok(bytes) && call_ensures(decode_meta, (bytes,), Err(e))
            ||| snapshot_file == Err::<Vec<u8>, _>(IoFailure::AlreadyExists(e))
            ||| snapshot_file == Err::<Vec<u8>, _>(IoFailure::Other(e))
            ||| snapshot_file matches Ok(bytes) && snapshot_parts(bytes@) matches Ok((encoded, _))
                && exists|held: Vec<u8>|
                held@ == encoded && #[trigger] call_ensures(decode_snapshot_meta, (held,), Err(e))
        },
{
}

/// A load succeeds where both files can be had: where each is not there, or decodes.
pub proof fn law_load_succeeds_where_both_files_decode<E, F, G>(
    meta_file: Result<Vec<u8>, IoFailure<E>>,
    snapshot_file: Result<Vec<u8>, IoFailure<E>>,
    decode_meta: F,
    decode_snapshot_meta: G,
    loaded: Result<Loaded, LoadError<E>>,
) where
    F: FnOnce(Vec<u8>) -> Result<EzMeta, E>,
    G: FnOnce(Vec<u8>) -> Result<EzSnapshotMeta, E>,

    requires
        comes_to(meta_file, snapshot_file, decode_meta, decode_snapshot_meta, loaded),
        meta_file matches Err(failure) ==> failure is NotFound,
        snapshot_file matches Err(failure) ==> failure is NotFound,
        snapshot_file matches Ok(bytes) ==> snapshot_parts(bytes@) is Ok,
        forall|bytes: Vec<u8>, decoded: Result<EzMeta, E>| #[trigger]
            call_ensures(decode_meta, (bytes,), decoded) ==> decoded is Ok,
        forall|bytes: Vec<u8>, decoded: Result<EzSnapshotMeta, E>| #[trigger]
            call_ensures(decode_snapshot_meta, (bytes,), decoded) ==> decoded is Ok,
    ensures
        loaded is Ok,
{
}

/// Reading a range asks for the file of every index of it, once and in order, and gives back the
/// entries in the order in which they were read.
pub proof fn law_read_asks_for_every_index_in_order<D>(
    storage: &FileStorage,
    start: u64,
    end: u64,
    begun: ReadLogs<D>,
    read: ReadLogs<D>,
    entry: EzEntry<D>,
    path: Option<String>,
    next: ReadLogs<D>,
    done: Vec<EzEntry<D>>,
)
    requires
        call_ensures(ReadLogs::<D>::new, (start, end), begun),
        call_ensures(ReadLogs::<D>::next_path, (&read, storage), path),
        read.next() < read.end() ==> call_ensures(ReadLogs::<D>::with, (read, entry), next),
        call_ensures(ReadLogs::<D>::finish, (read,), done),
    ensures
        begun.next() == start,
        begun.end() == end,
        begun.entries().len() == 0,
        path is None <==> read.next() >= read.end(),
        path matches Some(path) ==> path@ == join(
            join(storage.base_dir(), "logs"@),
            "log-"@ + decimal(read.next() as nat),
        ),
        read.next() < read.end() ==> next.next() == read.next() + 1 && next.end() == read.end()
            && next.entries() == read.entries().push(entry),
        done@ == read.entries(),
{
}

/// A deletion removes the files of the indexes in its range and no others, by their names alone,
/// and flushes the directory if and only if it removed one.
pub proof fn law_deletion_goes_by_the_names(
    removal: &mut RemoveLogs,
    index: u64,
    name: &str,
    fate: LogFile,
    sync: bool,
)
    requires
        name@ == "log-"@ + decimal(index as nat),
        call_ensures(RemoveLogs::file, (removal, Some(name)), fate),
        call_ensures(RemoveLogs::must_sync, (final(removal),), sync),
    ensures
        fate == LogFile::Remove <==> old(removal).from() <= index < old(removal).to(),
        fate != LogFile::Unexpected,
        sync <==> old(removal).deleted() || fate == LogFile::Remove,
        final(removal).from() == old(removal).from(),
        final(removal).to() == old(removal).to(),
{
    law_decimal_reads_back(index);
    let digits = decimal(index as nat);
    law_file_is_removed_by_its_index(removal.from(), removal.to(), digits, name@);
}

} // verus!
