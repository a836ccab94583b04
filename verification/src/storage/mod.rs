//! What a node writes down, and what it reads back
//!
//! A storage does three things: it loads what it holds when a node starts, it carries out one
//! [`Persist`] at a time, and it reads log entries back. The functions here decide what is asked
//! of it; asking is left to the caller.

pub mod adapter;
pub mod create_dir;
pub mod disk;
pub mod durability;
pub mod file_storage;
pub mod files;
pub mod snapshot_file;

use vstd::prelude::*;

use crate::entry::EzEntry;
use crate::meta::EzMeta;
use crate::snapshot::EzSnapshot;
use crate::text::decimal;
use crate::text::decimal_text;

verus! {

/// One thing that a storage is asked to write
#[derive(Debug)]
pub enum Persist<D> {
    /// Replace the metadata
    Meta(EzMeta),

    /// Write one log entry, over whatever its index held
    LogEntry(EzEntry<D>),

    /// Replace the snapshot
    Snapshot(EzSnapshot),

    /// Delete the log entries of the indexes from `from` up to, and without, `to`
    DeleteLogs { from: u64, to: u64 },
}

/// What a storage holds when a node starts
#[derive(Debug)]
pub struct Loaded {
    pub meta: EzMeta,
    pub snapshot: Option<EzSnapshot>,
}

impl<D> Persist<D> {
    /// What is asked for, in a few words
    pub fn summary(&self) -> (text: String)
        ensures
            match self {
                Persist::Meta(_) => text@ == "Meta"@,
                Persist::LogEntry(_) => text@ == "LogEntry"@,
                Persist::Snapshot(_) => text@ == "Snapshot"@,
                Persist::DeleteLogs { from, to } => text@ == "DeleteLogs("@ + decimal(*from as nat)
                    + ".."@ + decimal(*to as nat) + ")"@,
            },
    {
        match self {
            Persist::Meta(_) => String::from_str("Meta"),
            Persist::LogEntry(_) => String::from_str("LogEntry"),
            Persist::Snapshot(_) => String::from_str("Snapshot"),
            Persist::DeleteLogs { from, to } => {
                let mut text = String::from_str("DeleteLogs(");
                text.append(decimal_text(*from).as_str());
                text.append("..");
                text.append(decimal_text(*to).as_str());
                text.append(")");
                text
            },
        }
    }
}

} // verus!
