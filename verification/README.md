# EzRaft, verified

A small Raft framework: an application says what a write and a read do with its state, a storage
puts bytes on disk, and everything in between is here. What a node *decides* is verified with
[Verus](https://github.com/verus-lang/verus); what it *does*, on disks, sockets and through
openraft, is ordinary Rust around it.

## Layout

- `src/` is the verified library.
  - `storage/adapter/` is the log and the state machine: what each change to them writes, in which
    order. The log's laws say that a crash anywhere leaves a storage that a node can start from.
  - `storage/disk.rs` is the model of what a storage holds; `storage/files.rs` is the model of
    files, as a process sees them and as a power loss would leave them.
  - `storage/file_storage.rs`, `snapshot_file.rs` and `create_dir.rs` lay a node's state out as
    files; `storage/durability.rs` proves that they hold what they were asked to hold, that what
    was persisted survives a power loss, and that a crash leaves each file old or new and never
    half of each.
  - `raft.rs`, `server.rs` and `admin/` are state machines: starting a node, writing, serving,
    answering over HTTP, driving the admin API. Each names its next step and takes in what the
    step came to.
- `app/` performs the steps: tokio, actix-web, reqwest, serde and openraft.
- `tests/` runs the library on concrete values.

## What is trusted

One function: `next_index` in `src/storage/adapter/log.rs`, which calls openraft for the index
after an index.
