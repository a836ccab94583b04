//! What a node of a replicated service decides
//!
//! A node keeps a log that a Raft implementation replicates, applies it to an application's state,
//! and answers clients and operators over HTTP. Disks, sockets and the protocol itself are reached
//! elsewhere; here is what is decided around them, and why it is right:
//!
//! - [`storage`]: what is written, in which order, and what a crash or a power loss leaves of it;
//! - [`raft`]: how a node starts, joins, writes and serves;
//! - [`server`]: what a node answers, and when it hands a request on to the leader;
//! - [`admin`]: how a cluster is asked to change who is in it.
//!
//! Work that only the outside can do alternates with decisions. Each such sequence is a value that
//! names the next step and takes in what the step came to.

pub mod admin;
pub mod entry;
pub mod membership;
pub mod meta;
pub mod node_role;
pub mod raft;
pub mod server;
pub mod snapshot;
pub mod storage;
pub mod text;
