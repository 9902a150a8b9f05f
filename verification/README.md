# suraft

A Raft-style consensus node for clusters whose members share one storage
service (such as an object store): there is no log replication, a leader
writes each entry to the shared storage, and votes, leases and log ids decide
who may write.

## Layout

- `src/` — the library, verified with Verus. Each public function carries a
  contract over mathematical models (`Seq`, `Map`, views of the data types).
  - `base/` — text helpers (code-point order, decimal and duration
    rendering), an ordered string-keyed map, and a value with a lease.
  - `storage/` — log ids, the order-preserving encoding of log indexes, the
    names of the storage objects, votes and their partial order, members.
  - `memstore.rs` — an in-memory storage with prefix listing.
  - `raft_core/` — the state of a node and its handlers: vote requests and
    replies, elections, writes, write completions, heartbeats, ticks and
    metrics; the dispatch of events; the balancing of the two input
    channels; the life of the node's task. `laws.rs` states what holds
    across the handlers (votes and stored log ids never go back, one grant
    per term, leadership only from a quorum, entries without holes).
  - `metrics/`, `config/`, `suraft/` — metrics and waiting conditions, the
    configuration, the vote request messages and the write responders.
- `tests/` — tests of the library on concrete values.
- `app/` — the asynchronous runtime around the library: the node task with
  its channels and timers, the storage and network traits, the application
  handle, and the serde and clap forms of the types.
