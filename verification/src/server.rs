//! The placeholder transport. A real deployment routes RequestVote and
//! AppendEntries over a network; this stand-in answers every call with term
//! -1 and a refusal, which reply handlers treat exactly like a reply that
//! never arrived (a lost round, retried on the next cycle).

use vstd::prelude::*;

use crate::types::{AppendEntriesArgs, AppendEntriesReply, RequestVoteArgs, RequestVoteReply};

verus! {

/// The transport contract consumed by the core.
pub struct Server {}

impl Server {
    /// Deliver a RequestVote RPC to `peer_id`. This placeholder never
    /// reaches a peer: the reply's term of -1 is below every replica's term,
    /// so callers discard it as stale.
    pub fn request_vote(&self, peer_id: i32, args: RequestVoteArgs) -> (r: RequestVoteReply)
        ensures
            r.term == -1,
            !r.vote_granted,
    {
        let _ = peer_id;
        let _ = args;
        RequestVoteReply { term: -1, vote_granted: false }
    }

    /// Deliver an AppendEntries RPC to `peer_id`. This placeholder never
    /// reaches a peer: the reply's term of -1 is below every replica's term,
    /// so callers discard it as stale.
    pub fn append_entries(&self, peer_id: i32, args: AppendEntriesArgs) -> (r: AppendEntriesReply)
        ensures
            r.term == -1,
            !r.success,
    {
        let _ = peer_id;
        let _ = args;
        AppendEntriesReply { term: -1, success: false }
    }
}

} // verus!
