//! Files, as a process sees them and as a power loss would leave them
//!
//! A file and the name that reaches it are separate writes. Flushing the bytes leaves the
//! directory entry that names them in memory, and a power loss then takes back the creation, the
//! renaming or the deletion, whole. So for every path there are two things to say: what a read
//! would find now, and what a node that comes back after a power loss may find.

use vstd::prelude::*;

use crate::text::law_numbers_are_read_digit_by_digit;
use crate::text::parsed_u64;

verus! {

/// One step of what a storage does to its files
#[derive(Debug)]
pub enum FileAction {
    /// Create the file at `path`, or cut it to nothing, write `bytes` to it and flush them
    Write { path: String, bytes: Vec<u8> },

    /// Put the file at `source` in the place of whatever is at `target`
    Rename { source: String, target: String },

    /// Flush the list of names of the directory at `dir`
    SyncDir { dir: String },

    /// Delete the log files in `dir` of the indexes from `from` up to, and without, `to`, and, if
    /// there was one, flush the list of names of `dir`
    RemoveLogs { dir: String, from: u64, to: u64 },
}

/// A [`FileAction`] as a value
#[verifier::ext_equal]
pub enum FileActionView {
    Write { path: Seq<char>, bytes: Seq<u8> },
    Rename { source: Seq<char>, target: Seq<char> },
    SyncDir { dir: Seq<char> },
    RemoveLogs { dir: Seq<char>, from: u64, to: u64 },
}

impl View for FileAction {
    type V = FileActionView;

    open spec fn view(&self) -> FileActionView {
        match self {
            FileAction::Write { path, bytes } => FileActionView::Write {
                path: path@,
                bytes: bytes@,
            },
            FileAction::Rename { source, target } => FileActionView::Rename {
                source: source@,
                target: target@,
            },
            FileAction::SyncDir { dir } => FileActionView::SyncDir { dir: dir@ },
            FileAction::RemoveLogs { dir, from, to } => FileActionView::RemoveLogs {
                dir: dir@,
                from: *from,
                to: *to,
            },
        }
    }
}

/// The values of a list of actions
pub open spec fn action_views(actions: Seq<FileAction>) -> Seq<FileActionView> {
    Seq::new(actions.len(), |i: int| actions[i]@)
}

/// The path of `name` in the directory at `dir`
pub open spec fn join(dir: Seq<char>, name: Seq<char>) -> Seq<char> {
    if dir.len() == 0 {
        name
    } else if dir.last() == '/' {
        dir + name
    } else {
        dir + seq!['/'] + name
    }
}

/// Whether `path` names something directly inside the directory at `dir`
pub open spec fn in_dir(dir: Seq<char>, path: Seq<char>) -> bool {
    exists|name: Seq<char>| !name.contains('/') && path == #[trigger] join(dir, name)
}

/// The index that the file name `name` stands for, if it is the name of a log file
pub open spec fn log_index(name: Seq<char>) -> Option<u64> {
    if name.len() >= 4 && name.take(4) == seq!['l', 'o', 'g', '-'] {
        parsed_u64(name.skip(4))
    } else {
        None
    }
}

/// Whether `path` is a log file in `dir` of an index from `from` up to, and without, `to`
pub open spec fn log_file_between(dir: Seq<char>, from: u64, to: u64, path: Seq<char>) -> bool {
    exists|name: Seq<char>|
        {
            &&& !name.contains('/')
            &&& path == #[trigger] join(dir, name)
            &&& log_index(name) is Some
            &&& from <= log_index(name)->0 < to
        }
}

/// What is at a path: the bytes of a file, or nothing
pub type Content = Option<Seq<u8>>;

/// The files of a storage
#[verifier::ext_equal]
pub struct Files {
    /// What a read of a path finds
    pub live: spec_fn(Seq<char>) -> Content,

    /// What a read of a path may find after a power loss
    pub left: spec_fn(Seq<char>) -> Set<Content>,
}

impl Files {
    /// No file anywhere
    pub open spec fn none() -> Files {
        Files { live: |p: Seq<char>| None, left: |p: Seq<char>| set![None::<Seq<u8>>] }
    }

    /// What a node finds that comes back after a power loss: what is there is on the disk
    pub open spec fn settled_as(found: spec_fn(Seq<char>) -> Content) -> Files {
        Files { live: found, left: |p: Seq<char>| set![found(p)] }
    }

    /// Whether a power loss could take nothing back: every path is what it was last made to be
    pub open spec fn settled(self, path: Seq<char>) -> bool {
        (self.left)(path) == set![(self.live)(path)]
    }

    /// Whether there is a log file in `dir` of an index from `from` up to, and without, `to`
    pub open spec fn any_log_between(self, dir: Seq<char>, from: u64, to: u64) -> bool {
        exists|p: Seq<char>| #[trigger] log_file_between(dir, from, to, p) && (self.live)(p) is Some
    }

    /// The files once `action` was carried out
    ///
    /// - A write settles the bytes, and leaves open whether the name that reaches them is there,
    ///   unless it was there for certain already.
    /// - A rename is one change to a directory: what it names is there as it was or as it was
    ///   before.
    /// - A flush of a directory settles every name in it.
    /// - Deleting log files ends with such a flush if there was one to delete.
    pub open spec fn after(self, action: FileActionView) -> Files {
        match action {
            FileActionView::Write { path, bytes } => Files {
                live: |p: Seq<char>|
                    if p == path {
                        Some(bytes)
                    } else {
                        (self.live)(p)
                    },
                left: |p: Seq<char>|
                    if p == path {
                        Set::new(
                            |c: Content|
                                c == Some(bytes) || (c is None && (self.left)(path).contains(None)),
                        )
                    } else {
                        (self.left)(p)
                    },
            },
            FileActionView::Rename { source, target } => Files {
                live: |p: Seq<char>|
                    if p == target {
                        (self.live)(source)
                    } else if p == source {
                        None
                    } else {
                        (self.live)(p)
                    },
                left: |p: Seq<char>|
                    if p == target {
                        Set::new(
                            |c: Content|
                                (self.left)(target).contains(c) || (c is Some && (self.left)(
                                    source,
                                ).contains(c)),
                        )
                    } else if p == source {
                        (self.left)(source).insert(None)
                    } else {
                        (self.left)(p)
                    },
            },
            FileActionView::SyncDir { dir } => Files {
                live: self.live,
                left: |p: Seq<char>|
                    if in_dir(dir, p) {
                        set![(self.live)(p)]
                    } else {
                        (self.left)(p)
                    },
            },
            FileActionView::RemoveLogs { dir, from, to } => Files {
                live: |p: Seq<char>|
                    if log_file_between(dir, from, to, p) {
                        None
                    } else {
                        (self.live)(p)
                    },
                left: |p: Seq<char>|
                    if self.any_log_between(dir, from, to) && in_dir(dir, p) {
                        set![
                            if log_file_between(dir, from, to, p) {
                                None
                            } else {
                                (self.live)(p)
                            },
                        ]
                    } else {
                        (self.left)(p)
                    },
            },
        }
    }

    /// The files once all of `actions` were carried out in order
    pub open spec fn after_all(self, actions: Seq<FileActionView>) -> Files
        decreases actions.len(),
    {
        if actions.len() == 0 {
            self
        } else {
            self.after_all(actions.drop_last()).after(actions.last())
        }
    }

    /// Whether a read of `path` may find `content` on a node that comes back, when the process
    /// died or the power was lost while `action` was being carried out
    ///
    /// A file that is being written may hold anything at all. A deletion that is under way got
    /// as far as some of its files. The rest happen at once.
    pub open spec fn may_find(
        self,
        action: FileActionView,
        path: Seq<char>,
        content: Content,
    ) -> bool {
        ||| (self.live)(path) == content
        ||| (self.left)(path).contains(content)
        ||| (self.after(action).live)(path) == content
        ||| (self.after(action).left)(path).contains(content)
        ||| (action matches FileActionView::Write { path: written, .. } && written == path)
    }

    /// Whether a read of `path` may find `content` on a node that comes back, when the process
    /// died or the power was lost after some of `actions`, or in the middle of one of them
    pub open spec fn may_find_during(
        self,
        actions: Seq<FileActionView>,
        path: Seq<char>,
        content: Content,
    ) -> bool {
        exists|k: int|
            0 <= k < actions.len() && self.after_all(#[trigger] actions.take(k)).may_find(
                actions[k],
                path,
                content,
            )
    }
}

/// What nothing names is left alone: an action changes what a read finds at the paths that it
/// names, and at no other.
pub proof fn law_action_touches_its_paths(files: Files, action: FileActionView, path: Seq<char>)
    requires
        action matches FileActionView::Write { path: written, .. } ==> written != path,
        action matches FileActionView::Rename { source, target } ==> source != path && target
            != path,
        action matches FileActionView::RemoveLogs { dir, from, to } ==> !log_file_between(
            dir,
            from,
            to,
            path,
        ),
    ensures
        (files.after(action).live)(path) == (files.live)(path),
        files.settled(path) ==> files.after(action).settled(path),
{
}

/// A path in a directory is the directory's own, then the name, with exactly one slash between the
/// two that is there already or is put there; the directory that has no name is left out.
pub proof fn law_path_is_directory_slash_name(dir: Seq<char>, name: Seq<char>)
    ensures
        dir.len() == 0 ==> join(dir, name) == name,
        dir.len() > 0 && dir.last() == '/' ==> {
            let path = join(dir, name);
            &&& path.len() == dir.len() + name.len()
            &&& path.take(dir.len() as int) == dir
            &&& path.skip(dir.len() as int) == name
        },
        dir.len() > 0 && dir.last() != '/' ==> {
            let path = join(dir, name);
            &&& path.len() == dir.len() + 1 + name.len()
            &&& path.take(dir.len() as int) == dir
            &&& path[dir.len() as int] == '/'
            &&& path.skip((dir.len() + 1) as int) == name
        },
{
    let path = join(dir, name);
    if dir.len() > 0 {
        assert(path.take(dir.len() as int) =~= dir);
        if dir.last() == '/' {
            assert(path.skip(dir.len() as int) =~= name);
        } else {
            assert(path.skip((dir.len() + 1) as int) =~= name);
        }
    }
}

/// A file is a log file by its name alone: `log-`, and then a number, which is its index.
pub proof fn law_log_file_is_named_by_its_index(name: Seq<char>, rest: Seq<char>)
    ensures
        log_index("log-"@ + rest) == parsed_u64(rest),
        log_index(name) is Some ==> name.len() > 4 && name.take(4) == "log-"@,
{
    reveal_strlit("log-");
    assert("log-"@ =~= seq!['l', 'o', 'g', '-']);
    assert(("log-"@ + rest).take(4) =~= "log-"@);
    assert(("log-"@ + rest).skip(4) =~= rest);
    if log_index(name) is Some && name.len() == 4 {
        assert(name.skip(4) =~= Seq::<char>::empty());
        law_numbers_are_read_digit_by_digit(name, '0');
    }
}

/// What is done to files is seen with all that it names, one action for each, in order.
pub proof fn law_actions_are_seen_whole(actions: Seq<FileAction>, i: int)
    requires
        0 <= i < actions.len(),
    ensures
        action_views(actions).len() == actions.len(),
        match actions[i] {
            FileAction::Write { path, bytes } => action_views(actions)[i] == (
            FileActionView::Write { path: path@, bytes: bytes@ }),
            FileAction::Rename { source, target } => action_views(actions)[i] == (
            FileActionView::Rename { source: source@, target: target@ }),
            FileAction::SyncDir { dir } => action_views(actions)[i] == (FileActionView::SyncDir {
                dir: dir@,
            }),
            FileAction::RemoveLogs { dir, from, to } => action_views(actions)[i] == (
            FileActionView::RemoveLogs { dir: dir@, from, to }),
        },
{
}

} // verus!
