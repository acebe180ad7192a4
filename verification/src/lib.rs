//! The decision core of a Raft replica: term and vote bookkeeping, the
//! replicated log, randomized election timeouts, leader election, and
//! quorum-based commitment of log entries.
//!
//! The core is a passive state machine: callers (an RPC server, an election
//! timer loop, a heartbeat loop) feed it events and plain values such as the
//! current time in milliseconds, and it answers with replies, outgoing RPC
//! arguments, and queued signals. Network transport, threads, and clocks live
//! outside the core.

pub mod consensus;
pub mod log;
pub mod safety;
pub mod server;
pub mod timer;
pub mod types;
