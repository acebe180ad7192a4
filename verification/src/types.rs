//! The plain data carried around the consensus core: replica roles, log
//! entries, RPC payloads, and the internal signals consumed by the event loop.

use vstd::prelude::*;

verus! {

/// The role a replica currently plays. `Dead` is terminal: once entered, no
/// timer, RPC, or election is processed any more.
#[derive(Clone, Copy, PartialEq, Eq, Structural, Debug)]
pub enum State {
    Follower,
    Candidate,
    Leader,
    Dead,
}

impl State {
    /// The role's display name.
    pub fn to_string(&self) -> (r: String)
        ensures
            self is Follower ==> r@ == "Follower"@,
            self is Candidate ==> r@ == "Candidate"@,
            self is Leader ==> r@ == "Leader"@,
            self is Dead ==> r@ == "Dead"@,
    {
        broadcast use vstd::string::group_string_axioms;

        match self {
            State::Follower => "Follower".to_string(),
            State::Candidate => "Candidate".to_string(),
            State::Leader => "Leader".to_string(),
            State::Dead => "Dead".to_string(),
        }
    }
}

/// One slot of the replicated log: the term the entry was created in and an
/// opaque command supplied by the client.
#[derive(Clone, Copy, Debug)]
pub struct LogEntry {
    pub term: i32,
    pub command: (),
}

/// An internal signal queued by the core and drained, in order, by the event
/// loop that runs outside it.
#[derive(Clone, Copy, PartialEq, Eq, Structural, Debug)]
pub enum Message {
    /// Re-arm the election deadline.
    ResetTimer,
    /// Step down to Follower at the carried term.
    BecomeFollower(i32),
    /// The commit index advanced; entries up to it may be applied.
    NewCommitReady,
}

/// What the election-timer loop should do after a tick, as decided by the
/// core: wind down, start an election, or keep polling.
#[derive(Clone, Copy, PartialEq, Eq, Structural, Debug)]
pub enum TimerAction {
    /// The timer is obsolete (Leader, Dead, or the term moved on): exit.
    Stop,
    /// The randomized timeout elapsed without leader contact: start an
    /// election, then exit (the election re-arms its own timer).
    StartElection,
    /// Nothing to do yet: poll again.
    Continue,
}

/// Arguments of the RequestVote RPC.
#[derive(Clone, Copy, PartialEq, Eq, Structural, Debug)]
pub struct RequestVoteArgs {
    pub term: i32,
    pub candidate_id: i32,
    pub last_log_index: i32,
    pub last_log_term: i32,
}

/// Reply of the RequestVote RPC.
#[derive(Clone, Copy, PartialEq, Eq, Structural, Debug)]
pub struct RequestVoteReply {
    pub term: i32,
    pub vote_granted: bool,
}

/// Arguments of the AppendEntries RPC.
#[derive(Clone, Debug)]
pub struct AppendEntriesArgs {
    pub term: i32,
    pub leader_id: i32,
    pub prev_log_index: i32,
    pub prev_log_term: i32,
    pub entries: Vec<LogEntry>,
    pub leader_commit: i32,
}

/// Reply of the AppendEntries RPC.
#[derive(Clone, Copy, PartialEq, Eq, Structural, Debug)]
pub struct AppendEntriesReply {
    pub term: i32,
    pub success: bool,
}

} // verus!
