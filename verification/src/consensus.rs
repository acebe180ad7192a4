//! The replica state record and every decision the consensus core makes:
//! role transitions, vote handling, log replication, and quorum-based commit
//! advancement. All methods are synchronous state transitions; callers run
//! them one at a time (under one exclusive critical section) and perform the
//! actual network calls, sleeps, and clock reads between calls.

use vstd::prelude::*;

use std::collections::HashMap;

use crate::log::{
    candidate_up_to_date, last_log_index_spec, last_log_term_spec, log_check_spec, match_len,
    reconciled_log,
};
use crate::server::Server;
use crate::types::{
    AppendEntriesArgs, AppendEntriesReply, LogEntry, Message, RequestVoteArgs, RequestVoteReply,
    State, TimerAction,
};

verus! {

broadcast use vstd::std_specs::hash::group_hash_axioms;

/// Number of replicas — the leader itself plus every peer in `peers` — whose
/// recorded match index in `match_index` is at least `i`. A peer without a
/// recorded match index counts as not having the entry.
pub open spec fn match_count(peers: Seq<i32>, match_index: Map<i32, i32>, i: int) -> nat
    decreases peers.len(),
{
    if peers.len() == 0 {
        1nat
    } else {
        match_count(peers.drop_last(), match_index, i) + (if match_index.contains_key(peers.last())
            && match_index[peers.last()] >= i {
            1nat
        } else {
            0nat
        })
    }
}

/// The count of replicas holding an entry lies between 1 (the leader itself)
/// and the cluster size.
pub proof fn lemma_match_count_bounds(peers: Seq<i32>, match_index: Map<i32, i32>, i: int)
    ensures
        1 <= match_count(peers, match_index, i) <= peers.len() + 1,
    decreases peers.len(),
{
    if peers.len() > 0 {
        lemma_match_count_bounds(peers.drop_last(), match_index, i);
    }
}

/// The leader may mark log index `i` committed: `i` is past the current
/// commit index, holds an entry of the leader's current term, and a strict
/// majority of the cluster — by the formula `2 * count > cluster size` — has
/// replicated it.
pub open spec fn commit_qualified_at(
    peers: Seq<i32>,
    match_index: Map<i32, i32>,
    log: Seq<LogEntry>,
    term: i32,
    commit: int,
    i: int,
) -> bool {
    &&& commit < i < log.len()
    &&& log[i].term == term
    &&& 2 * match_count(peers, match_index, i) > peers.len() + 1
}

/// After the transition into leadership, `post` differs from `pre` only in
/// its role and the reinitialized replication trackers: `next_index[p]` is
/// the log length and `match_index[p]` is -1 for every peer `p`, and no
/// tracker appears for a key that is neither a peer nor previously tracked.
pub open spec fn leader_initialized(pre: ConsensusModule, post: ConsensusModule) -> bool {
    &&& post == (ConsensusModule {
        state: State::Leader,
        next_index: post.next_index,
        match_index: post.match_index,
        ..pre
    })
    &&& forall|k: int|
        0 <= k < pre.peer_ids@.len() ==> {
            &&& post.next_index@.contains_key(#[trigger] pre.peer_ids@[k])
            &&& post.next_index@[pre.peer_ids@[k]] == pre.log@.len() as i32
            &&& post.match_index@.contains_key(pre.peer_ids@[k])
            &&& post.match_index@[pre.peer_ids@[k]] == -1i32
        }
    &&& forall|p: i32|
        #[trigger] post.next_index@.contains_key(p) ==> pre.next_index@.contains_key(p)
            || pre.peer_ids@.contains(p)
    &&& forall|p: i32|
        #[trigger] post.match_index@.contains_key(p) ==> pre.match_index@.contains_key(p)
            || pre.peer_ids@.contains(p)
}

/// The commit index a follower adopts from a leader's `leader_commit`,
/// clamped to its own log length.
pub open spec fn clamped_commit(leader_commit: i32, log_len: int) -> int {
    if leader_commit <= log_len {
        leader_commit as int
    } else {
        log_len
    }
}

/// The mutable record of one Raft replica. Everything the protocol decides is
/// a function of these fields plus the plain values (current time, RPC
/// payloads, vote counts) handed in by the caller.
pub struct ConsensusModule {
    /// Stable identifier, unique among cluster members.
    pub id: i32,
    /// The other replicas of the cluster, fixed at construction.
    pub peer_ids: Vec<i32>,
    /// The transport used to reach peers; the core never calls it itself.
    pub server: Server,
    /// Monotonically non-decreasing logical clock.
    pub current_term: i32,
    /// Candidate voted for in `current_term`, or -1 for none.
    pub voted_for: i32,
    /// The replicated log.
    pub log: Vec<LogEntry>,
    /// Highest log index known to be committed; never decreases.
    pub commit_index: i32,
    /// Highest log index handed to the application collaborator.
    pub last_applied: i32,
    /// The role this replica currently plays.
    pub state: State,
    /// The instant (in caller-supplied milliseconds) of the last leader
    /// contact, granted vote, or election start.
    pub election_reset_event: u64,
    /// Leader-only: for each peer, the next log index to send it.
    pub next_index: HashMap<i32, i32>,
    /// Leader-only: for each peer, the highest log index known replicated on it.
    pub match_index: HashMap<i32, i32>,
    /// Signals queued for the event loop, in emission order.
    pub pending: Vec<Message>,
}

impl ConsensusModule {
    /// Well-formedness: the bounds every method preserves and machine limits
    /// need.
    pub open spec fn wf(self) -> bool {
        &&& self.log@.len() <= i32::MAX as int
        &&& self.peer_ids@.len() < usize::MAX as int
        &&& self.current_term >= 0
        &&& self.commit_index >= -1
    }

    /// The fields fixed at construction that no operation ever touches.
    pub open spec fn same_config(self, other: ConsensusModule) -> bool {
        &&& self.id == other.id
        &&& self.peer_ids == other.peer_ids
        &&& self.server == other.server
        &&& self.last_applied == other.last_applied
    }

    /// A fresh replica: empty log, term 0, no vote, Follower.
    pub fn new(id: i32, peer_ids: Vec<i32>, server: Server) -> (r: ConsensusModule)
        requires
            peer_ids@.len() < usize::MAX as int,
        ensures
            r.wf(),
            r.id == id,
            r.peer_ids == peer_ids,
            r.current_term == 0,
            r.voted_for == -1,
            r.log@.len() == 0,
            r.commit_index == -1,
            r.last_applied == -1,
            r.state is Follower,
            r.election_reset_event == 0,
            r.next_index@ == Map::<i32, i32>::empty(),
            r.match_index@ == Map::<i32, i32>::empty(),
            r.pending@.len() == 0,
    {
        ConsensusModule {
            id,
            peer_ids,
            server,
            current_term: 0,
            voted_for: -1,
            log: Vec::new(),
            commit_index: -1,
            last_applied: -1,
            state: State::Follower,
            election_reset_event: 0,
            next_index: HashMap::new(),
            match_index: HashMap::new(),
            pending: Vec::new(),
        }
    }

    /// Re-arm the election deadline at the caller's current time.
    pub fn reset_election_event(&mut self, now: u64)
        ensures
            final(self).election_reset_event == now,
            *final(self) == (ConsensusModule { election_reset_event: now, ..*old(self) }),
    {
        self.election_reset_event = now;
    }

    /// Step down to Follower at `term`, clearing the vote and re-arming the
    /// election deadline. Idempotent and safe to call redundantly; `term`
    /// never moves the clock backwards.
    pub fn become_follower(&mut self, term: i32, now: u64)
        requires
            term >= old(self).current_term,
        ensures
            *final(self) == (ConsensusModule {
                state: State::Follower,
                current_term: term,
                voted_for: -1i32,
                election_reset_event: now,
                ..*old(self)
            }),
            final(self).current_term >= old(self).current_term,
            old(self).wf() ==> final(self).wf(),
    {
        self.state = State::Follower;
        self.current_term = term;
        self.voted_for = -1;
        self.reset_election_event(now);
    }

    /// A non-blocking snapshot: id, current term, and whether this replica is
    /// the leader.
    pub fn report(&self) -> (r: (i32, i32, bool))
        ensures
            r.0 == self.id,
            r.1 == self.current_term,
            r.2 == (self.state matches State::Leader),
    {
        (self.id, self.current_term, matches!(self.state, State::Leader))
    }

    /// Accept a client command: appended to the log with the current term iff
    /// this replica is the leader, else refused without mutation.
    pub fn submit(&mut self, command: ()) -> (r: bool)
        requires
            old(self).wf(),
            old(self).log@.len() < i32::MAX as int,
        ensures
            r == (old(self).state matches State::Leader),
            old(self).state is Leader ==> (*final(self) == (ConsensusModule {
                log: final(self).log,
                ..*old(self)
            }) && final(self).log@ == old(self).log@.push(
                LogEntry { term: old(self).current_term, command },
            )),
            !(old(self).state is Leader) ==> *final(self) == *old(self),
            final(self).wf(),
    {
        if matches!(self.state, State::Leader) {
            self.log.push(LogEntry { command, term: self.current_term });
            true
        } else {
            false
        }
    }

    /// Transition to Dead, the terminal role; idempotent. Background loops
    /// observe the role and wind down.
    pub fn stop(&mut self)
        ensures
            *final(self) == (ConsensusModule { state: State::Dead, ..*old(self) }),
    {
        self.state = State::Dead;
    }

    /// An RPC carrying `term` finds this replica behind: it must first step
    /// down to Follower at that term. Dead replicas process nothing.
    pub open spec fn sees_newer_term(self, term: i32) -> bool {
        !(self.state is Dead) && term > self.current_term
    }

    /// An RPC carrying `term` is processed rather than refused as stale:
    /// after any step-down the terms agree. Dead replicas process nothing.
    pub open spec fn processes_term(self, term: i32) -> bool {
        !(self.state is Dead) && term >= self.current_term
    }

    /// Whether a replica in this (pre-call) state grants a RequestVote with
    /// `args`: the term is current (once any step-down happened), no vote for
    /// another candidate stands in this term, and the candidate's log is at
    /// least as up to date as the local one.
    pub open spec fn grants_vote(self, args: RequestVoteArgs) -> bool {
        &&& self.processes_term(args.term)
        &&& (args.term > self.current_term || self.voted_for == -1 || self.voted_for
            == args.candidate_id)
        &&& candidate_up_to_date(
            args.last_log_index as int,
            args.last_log_term as int,
            last_log_index_spec(self.log@),
            last_log_term_spec(self.log@),
        )
    }

    /// Whether a replica in this (pre-call) state accepts an AppendEntries
    /// with `args`: the term is current (once any step-down happened) and the
    /// log passes the consistency check at the leader's previous index.
    pub open spec fn accepts_entries(self, args: AppendEntriesArgs) -> bool {
        &&& self.processes_term(args.term)
        &&& log_check_spec(self.log@, args.prev_log_index as int, args.prev_log_term as int)
    }

    /// Index and term of the last log entry, or (-1, -1) for an empty log.
    pub fn last_log_index_and_term(&self) -> (r: (i32, i32))
        requires
            self.wf(),
        ensures
            r.0 == last_log_index_spec(self.log@),
            r.1 == last_log_term_spec(self.log@),
    {
        if self.log.len() > 0 {
            let last_index = self.log.len() - 1;
            (last_index as i32, self.log[last_index].term)
        } else {
            (-1, -1)
        }
    }

    /// Handle an incoming RequestVote RPC: step down on a newer term, then
    /// grant the vote iff [`Self::grants_vote`] held on entry; a granted vote
    /// records the candidate and re-arms the election deadline. The reply
    /// always carries the (possibly just-updated) current term.
    pub fn request_vote(&mut self, args: RequestVoteArgs, now: u64) -> (reply: RequestVoteReply)
        requires
            old(self).wf(),
        ensures
            final(self).wf(),
            final(self).current_term >= old(self).current_term,
            reply.term == final(self).current_term,
            reply.vote_granted == old(self).grants_vote(args),
            final(self).current_term == (if old(self).sees_newer_term(args.term) {
                args.term
            } else {
                old(self).current_term
            }),
            final(self).state == (if old(self).sees_newer_term(args.term) {
                State::Follower
            } else {
                old(self).state
            }),
            final(self).voted_for == (if old(self).grants_vote(args) {
                args.candidate_id
            } else if old(self).sees_newer_term(args.term) {
                -1i32
            } else {
                old(self).voted_for
            }),
            final(self).election_reset_event == (if old(self).grants_vote(args) || old(
                self,
            ).sees_newer_term(args.term) {
                now
            } else {
                old(self).election_reset_event
            }),
            final(self).log == old(self).log,
            final(self).commit_index == old(self).commit_index,
            final(self).pending == old(self).pending,
            final(self).next_index == old(self).next_index,
            final(self).match_index == old(self).match_index,
            old(self).same_config(*final(self)),
    {
        if matches!(self.state, State::Dead) {
            return RequestVoteReply { term: self.current_term, vote_granted: false };
        }
        if args.term > self.current_term {
            self.become_follower(args.term, now);
        }
        let mut reply = RequestVoteReply { term: self.current_term, vote_granted: false };
        let r = self.last_log_index_and_term();
        let last_log_index = r.0;
        let last_log_term = r.1;
        if args.term == self.current_term && (self.voted_for == -1 || self.voted_for
            == args.candidate_id) && (args.last_log_term > last_log_term || (args.last_log_term
            == last_log_term && args.last_log_index >= last_log_index)) {
            reply.vote_granted = true;
            self.voted_for = args.candidate_id;
            self.reset_election_event(now);
        }
        reply
    }

    /// Handle an incoming AppendEntries RPC: step down on a newer term; at
    /// the current term this call counts as leader contact (the deadline is
    /// re-armed, and a Candidate steps down to Follower — keeping its vote,
    /// since the term did not advance). On a passed consistency check the
    /// log is reconciled with the leader's entries — the only place local
    /// entries are ever discarded, and only past the point of agreement — and
    /// the commit index advances towards `leader_commit`, queueing a
    /// commit-ready signal. On any failure the reply is `success = false`
    /// and the log is untouched.
    pub fn append_entries(&mut self, args: AppendEntriesArgs, now: u64) -> (reply:
        AppendEntriesReply)
        requires
            old(self).wf(),
            old(self).log@.len() + args.entries@.len() <= i32::MAX as int,
        ensures
            final(self).wf(),
            final(self).current_term >= old(self).current_term,
            final(self).commit_index >= old(self).commit_index,
            reply.term == final(self).current_term,
            reply.success == old(self).accepts_entries(args),
            final(self).current_term == (if old(self).sees_newer_term(args.term) {
                args.term
            } else {
                old(self).current_term
            }),
            final(self).state == (if old(self).sees_newer_term(args.term) || (old(
                self,
            ).processes_term(args.term) && old(self).state is Candidate) {
                State::Follower
            } else {
                old(self).state
            }),
            final(self).voted_for == (if old(self).sees_newer_term(args.term) {
                -1i32
            } else {
                old(self).voted_for
            }),
            final(self).election_reset_event == (if old(self).processes_term(args.term) {
                now
            } else {
                old(self).election_reset_event
            }),
            final(self).log@ == (if old(self).accepts_entries(args) {
                reconciled_log(old(self).log@, args.prev_log_index as int, args.entries@)
            } else {
                old(self).log@
            }),
            final(self).commit_index == (if old(self).accepts_entries(args) && clamped_commit(
                args.leader_commit,
                final(self).log@.len() as int,
            ) > old(self).commit_index {
                clamped_commit(args.leader_commit, final(self).log@.len() as int)
            } else {
                old(self).commit_index as int
            }),
            final(self).pending@ == (if final(self).commit_index != old(self).commit_index {
                old(self).pending@.push(Message::NewCommitReady)
            } else {
                old(self).pending@
            }),
            final(self).next_index == old(self).next_index,
            final(self).match_index == old(self).match_index,
            old(self).same_config(*final(self)),
    {
        if matches!(self.state, State::Dead) {
            return AppendEntriesReply { term: self.current_term, success: false };
        }
        if args.term > self.current_term {
            self.become_follower(args.term, now);
        }
        let mut reply = AppendEntriesReply { term: self.current_term, success: false };
        if args.term == self.current_term {
            if matches!(self.state, State::Candidate) {
                // A same-term step-down: the vote already cast this term
                // stands, so only the role changes.
                self.state = State::Follower;
            }
            self.reset_election_event(now);
            let check_ok = args.prev_log_index == -1 || (args.prev_log_index >= 0 && (
            args.prev_log_index as usize) < self.log.len() && self.log[args.prev_log_index
                as usize].term == args.prev_log_term);
            if check_ok {
                reply.success = true;
                self.reconcile_log(&args);
                let log_len_i32 = self.log.len() as i32;
                let new_commit = if args.leader_commit < log_len_i32 {
                    args.leader_commit
                } else {
                    log_len_i32
                };
                if new_commit > self.commit_index {
                    self.commit_index = new_commit;
                    self.pending.push(Message::NewCommitReady);
                }
            }
        }
        reply
    }

    /// Begin a new election: bump the term, become Candidate, vote for self,
    /// re-arm the election deadline, and hand back the RequestVote arguments
    /// to send — concurrently, outside any critical section — to every peer.
    /// The caller tallies replies through [`Self::handle_vote_reply`],
    /// starting from the self-vote of 1.
    pub fn start_election(&mut self, now: u64) -> (args: RequestVoteArgs)
        requires
            old(self).wf(),
            old(self).state is Follower || old(self).state is Candidate,
            old(self).current_term < i32::MAX,
        ensures
            final(self).wf(),
            final(self).current_term == old(self).current_term + 1,
            *final(self) == (ConsensusModule {
                current_term: final(self).current_term,
                state: State::Candidate,
                voted_for: old(self).id,
                election_reset_event: now,
                ..*old(self)
            }),
            args == (RequestVoteArgs {
                term: final(self).current_term,
                candidate_id: old(self).id,
                last_log_index: last_log_index_spec(old(self).log@) as i32,
                last_log_term: last_log_term_spec(old(self).log@) as i32,
            }),
    {
        self.current_term = self.current_term + 1;
        self.state = State::Candidate;
        self.voted_for = self.id;
        self.reset_election_event(now);
        let r = self.last_log_index_and_term();
        RequestVoteArgs {
            term: self.current_term,
            candidate_id: self.id,
            last_log_index: r.0,
            last_log_term: r.1,
        }
    }

    /// Tally one RequestVote reply for the election started at
    /// `term_started`, returning the updated vote count. A reply is discarded
    /// if the replica is no longer a Candidate at that term; a newer reply
    /// term forces an immediate step-down; a granted vote at the election's
    /// term counts, and the replica becomes Leader the moment strictly more
    /// than half of the cluster has voted for it.
    pub fn handle_vote_reply(
        &mut self,
        term_started: i32,
        reply: RequestVoteReply,
        votes_received: usize,
        now: u64,
    ) -> (votes: usize)
        requires
            old(self).wf(),
            1 <= votes_received < usize::MAX,
        ensures
            final(self).wf(),
            final(self).current_term >= old(self).current_term,
            votes == (if old(self).state is Candidate && old(self).current_term == term_started
                && !(reply.term > term_started) && reply.term == term_started
                && reply.vote_granted {
                votes_received + 1
            } else {
                votes_received as int
            }),
            !(old(self).state is Candidate && old(self).current_term == term_started)
                ==> *final(self) == *old(self),
            (old(self).state is Candidate && old(self).current_term == term_started
                && reply.term > term_started) ==> *final(self) == (ConsensusModule {
                state: State::Follower,
                current_term: reply.term,
                voted_for: -1i32,
                election_reset_event: now,
                ..*old(self)
            }),
            (old(self).state is Candidate && old(self).current_term == term_started && !(reply.term
                > term_started)) ==> {
                if reply.term == term_started && reply.vote_granted && 2 * (votes_received + 1)
                    > old(self).peer_ids@.len() + 1 {
                    leader_initialized(*old(self), *final(self))
                } else {
                    *final(self) == *old(self)
                }
            },
    {
        if !(matches!(self.state, State::Candidate) && self.current_term == term_started) {
            return votes_received;
        }
        if reply.term > term_started {
            self.become_follower(reply.term, now);
            return votes_received;
        }
        if reply.term == term_started && reply.vote_granted {
            let votes_new = votes_received + 1;
            if 2u128 * (votes_new as u128) > (self.peer_ids.len() as u128) + 1 {
                self.start_leader();
            }
            return votes_new;
        }
        votes_received
    }

    /// Become Leader: reinitialize the replication trackers — `next_index` to
    /// the log length, `match_index` to -1, for every peer — and take the
    /// role. The caller then runs the periodic heartbeat loop for as long as
    /// the role lasts.
    pub fn start_leader(&mut self)
        requires
            old(self).wf(),
            old(self).state is Candidate,
        ensures
            final(self).wf(),
            leader_initialized(*old(self), *final(self)),
    {
        let log_len = self.log.len() as i32;
        self.state = State::Leader;
        let ghost pre = *old(self);
        let mut idx: usize = 0;
        while idx < self.peer_ids.len()
            invariant
                0 <= idx <= self.peer_ids@.len(),
                *self == (ConsensusModule {
                    state: State::Leader,
                    next_index: self.next_index,
                    match_index: self.match_index,
                    ..pre
                }),
                log_len == pre.log@.len() as i32,
                forall|k: int|
                    0 <= k < idx ==> {
                        &&& self.next_index@.contains_key(#[trigger] pre.peer_ids@[k])
                        &&& self.next_index@[pre.peer_ids@[k]] == log_len
                        &&& self.match_index@.contains_key(pre.peer_ids@[k])
                        &&& self.match_index@[pre.peer_ids@[k]] == -1i32
                    },
                forall|p: i32|
                    #[trigger] self.next_index@.contains_key(p) ==> pre.next_index@.contains_key(p)
                        || pre.peer_ids@.contains(p),
                forall|p: i32|
                    #[trigger] self.match_index@.contains_key(p)
                        ==> pre.match_index@.contains_key(p) || pre.peer_ids@.contains(p),
            decreases self.peer_ids@.len() - idx,
        {
            let peer = self.peer_ids[idx];
            self.next_index.insert(peer, log_len);
            self.match_index.insert(peer, -1);
            idx = idx + 1;
        }
    }

    /// Build the AppendEntries arguments for one peer's heartbeat: everything
    /// from the peer's next index to the end of the log (empty for a pure
    /// heartbeat), preceded by the index and term the peer must already hold.
    /// `None` when no next index is tracked for the peer, or the tracked one
    /// is outside the log (no heartbeat this round); the caller sends the
    /// arguments and records the reply via
    /// [`Self::handle_append_entries_reply`].
    pub fn prepare_heartbeat(&self, peer_id: i32) -> (r: Option<AppendEntriesArgs>)
        requires
            self.wf(),
            self.state is Leader,
        ensures
            (r is Some) <==> (self.next_index@.contains_key(peer_id) && 0
                <= self.next_index@[peer_id] <= self.log@.len()),
            r matches Some(args) ==> ({
                &&& args.term == self.current_term
                &&& args.leader_id == self.id
                &&& args.prev_log_index == self.next_index@[peer_id] - 1
                &&& args.prev_log_term == (if self.next_index@[peer_id] >= 1 {
                    self.log@[self.next_index@[peer_id] - 1].term as int
                } else {
                    -1
                })
                &&& args.entries@ == self.log@.skip(self.next_index@[peer_id] as int)
                &&& args.leader_commit == self.commit_index
            }),
    {
        let next = match self.next_index.get(&peer_id) {
            Some(v) => *v,
            None => {
                return None;
            },
        };
        if next < 0 || (next as usize) > self.log.len() {
            return None;
        }
        let prev_log_index = next - 1;
        let prev_log_term = if prev_log_index >= 0 {
            self.log[prev_log_index as usize].term
        } else {
            -1
        };
        let mut entries: Vec<LogEntry> = Vec::new();
        let mut i: usize = next as usize;
        while i < self.log.len()
            invariant
                0 <= next,
                next as int <= self.log@.len(),
                next as usize <= i <= self.log@.len(),
                entries@ == self.log@.subrange(next as int, i as int),
            decreases self.log@.len() - i,
        {
            entries.push(self.log[i]);
            proof {
                assert(entries@ =~= self.log@.subrange(next as int, i + 1));
            }
            i = i + 1;
        }
        proof {
            assert(entries@ =~= self.log@.skip(next as int));
        }
        Some(
            AppendEntriesArgs {
                term: self.current_term,
                leader_id: self.id,
                prev_log_index,
                prev_log_term,
                entries,
                leader_commit: self.commit_index,
            },
        )
    }

    /// Count the replicas — this leader plus every peer — whose recorded
    /// match index is at least `i`.
    fn count_matches(&self, i: usize) -> (cnt: usize)
        requires
            self.wf(),
        ensures
            cnt == match_count(self.peer_ids@, self.match_index@, i as int),
            1 <= cnt <= self.peer_ids@.len() + 1,
    {
        let mut cnt: usize = 1;
        let mut k: usize = 0;
        proof {
            lemma_match_count_bounds(self.peer_ids@.take(0), self.match_index@, i as int);
        }
        while k < self.peer_ids.len()
            invariant
                self.wf(),
                0 <= k <= self.peer_ids@.len(),
                cnt == match_count(self.peer_ids@.take(k as int), self.match_index@, i as int),
                1 <= cnt <= k + 1,
            decreases self.peer_ids@.len() - k,
        {
            let peer = self.peer_ids[k];
            let has = match self.match_index.get(&peer) {
                Some(m) => *m >= 0 && (*m as usize) >= i,
                None => false,
            };
            proof {
                assert(self.peer_ids@.take(k + 1).drop_last() =~= self.peer_ids@.take(k as int));
                assert(self.peer_ids@.take(k + 1).last() == self.peer_ids@[k as int]);
            }
            if has {
                cnt = cnt + 1;
            }
            k = k + 1;
        }
        proof {
            assert(self.peer_ids@.take(self.peer_ids@.len() as int) =~= self.peer_ids@);
        }
        cnt
    }

    /// Advance the commit index as far as the quorum rule allows: scanning
    /// upward, the highest log index whose entry was created in the current
    /// term and which a strict majority of the cluster has replicated. Only
    /// entries of the leader's own term are committed by counting; older
    /// entries commit as a side effect. Queues one commit-ready signal if the
    /// index moved.
    pub fn advance_commit_index(&mut self) -> (advanced: bool)
        requires
            old(self).wf(),
            old(self).state is Leader,
        ensures
            final(self).wf(),
            final(self).commit_index >= old(self).commit_index,
            advanced == (final(self).commit_index != old(self).commit_index),
            *final(self) == (ConsensusModule {
                commit_index: final(self).commit_index,
                pending: final(self).pending,
                ..*old(self)
            }),
            advanced ==> commit_qualified_at(
                old(self).peer_ids@,
                old(self).match_index@,
                old(self).log@,
                old(self).current_term,
                old(self).commit_index as int,
                final(self).commit_index as int,
            ),
            forall|i: int|
                final(self).commit_index < i < old(self).log@.len() ==> !commit_qualified_at(
                    old(self).peer_ids@,
                    old(self).match_index@,
                    old(self).log@,
                    old(self).current_term,
                    old(self).commit_index as int,
                    i,
                ),
            final(self).pending@ == (if advanced {
                old(self).pending@.push(Message::NewCommitReady)
            } else {
                old(self).pending@
            }),
    {
        let saved_commit = self.commit_index;
        let mut new_commit = saved_commit;
        let mut i: usize = if saved_commit < 0 {
            0
        } else {
            saved_commit as usize + 1
        };
        while i < self.log.len()
            invariant
                self.wf(),
                self.state is Leader,
                *self == *old(self),
                saved_commit == self.commit_index,
                saved_commit as int + 1 <= i as int,
                i <= self.log@.len() || i as int == saved_commit as int + 1 || i == 0,
                new_commit == saved_commit || (saved_commit < new_commit && (new_commit as int)
                    < (i as int) && commit_qualified_at(
                    self.peer_ids@,
                    self.match_index@,
                    self.log@,
                    self.current_term,
                    saved_commit as int,
                    new_commit as int,
                )),
                forall|q: int|
                    new_commit < q < i ==> !commit_qualified_at(
                        self.peer_ids@,
                        self.match_index@,
                        self.log@,
                        self.current_term,
                        saved_commit as int,
                        q,
                    ),
            decreases self.log@.len() - i,
        {
            if self.log[i].term == self.current_term {
                let cnt = self.count_matches(i);
                if 2u128 * (cnt as u128) > (self.peer_ids.len() as u128) + 1 {
                    new_commit = i as i32;
                }
            }
            i = i + 1;
        }
        if new_commit != saved_commit {
            self.commit_index = new_commit;
            self.pending.push(Message::NewCommitReady);
            true
        } else {
            false
        }
    }

    /// Record the reply a peer gave to the AppendEntries sent with
    /// `prev_log_index` and `entries_len` entries, in the heartbeat round of
    /// term `term_started`. A reply with a newer term forces a step-down; a
    /// stale reply, or one arriving after leadership at that term ended, is a
    /// no-op. On success the peer's trackers advance past what was sent and
    /// the commit index is re-evaluated (the result tells whether it moved);
    /// on failure the peer's next index backs up by one step, to retry
    /// earlier on the next heartbeat.
    pub fn handle_append_entries_reply(
        &mut self,
        peer_id: i32,
        term_started: i32,
        prev_log_index: i32,
        entries_len: usize,
        reply: AppendEntriesReply,
        now: u64,
    ) -> (advanced: bool)
        requires
            old(self).wf(),
            -1 <= prev_log_index,
            prev_log_index + 1 + entries_len <= i32::MAX as int,
        ensures
            final(self).wf(),
            final(self).current_term >= old(self).current_term,
            final(self).commit_index >= old(self).commit_index,
            advanced == (final(self).commit_index != old(self).commit_index),
            reply.term > old(self).current_term ==> (*final(self) == (ConsensusModule {
                state: State::Follower,
                current_term: reply.term,
                voted_for: -1i32,
                election_reset_event: now,
                ..*old(self)
            }) && !advanced),
            !(reply.term > old(self).current_term) && !(old(self).state is Leader && old(
                self,
            ).current_term == term_started && reply.term == term_started) ==> (*final(self)
                == *old(self) && !advanced),
            (!(reply.term > old(self).current_term) && (old(self).state is Leader && old(
                self,
            ).current_term == term_started && reply.term == term_started) && !reply.success)
                ==> (*final(self) == (ConsensusModule {
                next_index: final(self).next_index,
                ..*old(self)
            }) && final(self).next_index@ == (if old(self).next_index@.contains_key(peer_id) {
                old(self).next_index@.insert(
                    peer_id,
                    (if prev_log_index >= 0 {
                        prev_log_index
                    } else {
                        0i32
                    }),
                )
            } else {
                old(self).next_index@
            }) && !advanced),
            (!(reply.term > old(self).current_term) && (old(self).state is Leader && old(
                self,
            ).current_term == term_started && reply.term == term_started) && reply.success) ==> ({
                &&& *final(self) == (ConsensusModule {
                    next_index: final(self).next_index,
                    match_index: final(self).match_index,
                    commit_index: final(self).commit_index,
                    pending: final(self).pending,
                    ..*old(self)
                })
                &&& final(self).next_index@ == (if old(self).next_index@.contains_key(peer_id) {
                    old(self).next_index@.insert(
                        peer_id,
                        (prev_log_index + 1 + entries_len) as i32,
                    )
                } else {
                    old(self).next_index@
                })
                &&& final(self).match_index@ == (if old(self).match_index@.contains_key(peer_id) {
                    old(self).match_index@.insert(peer_id, (prev_log_index + entries_len) as i32)
                } else {
                    old(self).match_index@
                })
                &&& (advanced ==> commit_qualified_at(
                    old(self).peer_ids@,
                    final(self).match_index@,
                    old(self).log@,
                    old(self).current_term,
                    old(self).commit_index as int,
                    final(self).commit_index as int,
                ))
                &&& forall|i: int|
                    final(self).commit_index < i < old(self).log@.len() ==> !commit_qualified_at(
                        old(self).peer_ids@,
                        final(self).match_index@,
                        old(self).log@,
                        old(self).current_term,
                        old(self).commit_index as int,
                        i,
                    )
                &&& final(self).pending@ == (if advanced {
                    old(self).pending@.push(Message::NewCommitReady)
                } else {
                    old(self).pending@
                })
            }),
    {
        if reply.term > self.current_term {
            self.become_follower(reply.term, now);
            return false;
        }
        if !(matches!(self.state, State::Leader) && self.current_term == term_started && reply.term
            == term_started) {
            return false;
        }
        if reply.success {
            if self.next_index.contains_key(&peer_id) {
                self.next_index.insert(peer_id, prev_log_index + 1 + (entries_len as i32));
            }
            if self.match_index.contains_key(&peer_id) {
                self.match_index.insert(peer_id, prev_log_index + (entries_len as i32));
            }
            self.advance_commit_index()
        } else {
            if self.next_index.contains_key(&peer_id) {
                let backed_up = if prev_log_index >= 0 {
                    prev_log_index
                } else {
                    0
                };
                self.next_index.insert(peer_id, backed_up);
            }
            false
        }
    }

    /// Apply one queued signal: re-arm the election deadline, step down to
    /// Follower at the carried term (a stale term is a no-op, and the vote is
    /// cleared only when the term advances), or surface a commit-ready
    /// notification, which changes no state here — the application
    /// collaborator reads the newly committed entries itself.
    pub fn handle_message(&mut self, msg: Message, now: u64)
        requires
            old(self).wf(),
        ensures
            final(self).wf(),
            final(self).current_term >= old(self).current_term,
            msg is ResetTimer ==> *final(self) == (ConsensusModule {
                election_reset_event: now,
                ..*old(self)
            }),
            (msg matches Message::BecomeFollower(term) && term > old(self).current_term)
                ==> *final(self) == (ConsensusModule {
                state: State::Follower,
                current_term: msg->BecomeFollower_0,
                voted_for: -1i32,
                election_reset_event: now,
                ..*old(self)
            }),
            (msg matches Message::BecomeFollower(term) && term == old(self).current_term)
                ==> *final(self) == (ConsensusModule {
                state: State::Follower,
                election_reset_event: now,
                ..*old(self)
            }),
            (msg matches Message::BecomeFollower(term) && term < old(self).current_term)
                ==> *final(self) == *old(self),
            msg is NewCommitReady ==> *final(self) == *old(self),
    {
        match msg {
            Message::ResetTimer => {
                self.reset_election_event(now);
            },
            Message::BecomeFollower(term) => {
                if term > self.current_term {
                    self.become_follower(term, now);
                } else if term == self.current_term {
                    // A same-term step-down keeps the vote cast this term.
                    self.state = State::Follower;
                    self.reset_election_event(now);
                }
            },
            Message::NewCommitReady => {},
        }
    }

    /// The election timer's per-tick decision against the term it was started
    /// with and the randomized timeout it drew: wind down when the role or
    /// term moved on, start an election when the deadline has been quiet
    /// longer than the timeout, else keep polling.
    pub fn election_timer_tick(&self, term_started: i32, timeout: u64, now: u64) -> (r: TimerAction)
        ensures
            (r is Stop) <==> (self.state is Leader || self.state is Dead || self.current_term
                != term_started),
            (r is StartElection) <==> (!(self.state is Leader || self.state is Dead
                || self.current_term != term_started) && now > self.election_reset_event
                + timeout),
            (r is Continue) <==> (!(self.state is Leader || self.state is Dead || self.current_term
                != term_started) && !(now > self.election_reset_event + timeout)),
    {
        match self.state {
            State::Leader | State::Dead => {
                return TimerAction::Stop;
            },
            _ => {},
        }
        if self.current_term != term_started {
            return TimerAction::Stop;
        }
        if now > self.election_reset_event && now - self.election_reset_event > timeout {
            TimerAction::StartElection
        } else {
            TimerAction::Continue
        }
    }

    /// Reconcile the local log with a leader's entries after a passed
    /// consistency check: keep the agreeing prefix, drop the local tail at
    /// the first disagreement, and append the remaining new entries.
    fn reconcile_log(&mut self, args: &AppendEntriesArgs)
        requires
            old(self).wf(),
            old(self).log@.len() + args.entries@.len() <= i32::MAX as int,
            -1 <= args.prev_log_index,
            args.prev_log_index + 1 <= old(self).log@.len(),
        ensures
            final(self).log@ == reconciled_log(
                old(self).log@,
                args.prev_log_index as int,
                args.entries@,
            ),
            final(self).log@.len() <= old(self).log@.len() + args.entries@.len(),
            *final(self) == (ConsensusModule { log: final(self).log, ..*old(self) }),
    {
        let ghost log0 = self.log@;
        let ghost start_g = args.prev_log_index + 1;
        let start = (args.prev_log_index + 1) as usize;
        let mut j: usize = 0;
        while start + j < self.log.len() && j < args.entries.len() && self.log[start + j].term
            == args.entries[j].term
            invariant
                self.log@ == log0,
                *self == (ConsensusModule { log: self.log, ..*old(self) }),
                start == start_g,
                start_g <= log0.len(),
                log0.len() + args.entries@.len() <= i32::MAX as int,
                0 <= j <= args.entries@.len(),
                start + j <= log0.len(),
                forall|k: int|
                    0 <= k < j ==> (#[trigger] log0[start + k]).term == args.entries@[k].term,
            decreases args.entries@.len() - j,
        {
            j = j + 1;
        }
        proof {
            assert(crate::log::is_match_len(log0, start as int, args.entries@, j as int));
            crate::log::lemma_match_len_correct(log0, start as int, args.entries@);
            assert(j == match_len(log0, start as int, args.entries@));
        }
        if j < args.entries.len() {
            self.log.truncate(start + j);
            proof {
                assert(self.log@ =~= log0.take(start_g + j) + args.entries@.subrange(
                    j as int,
                    j as int,
                ));
            }
            let mut i: usize = j;
            while i < args.entries.len()
                invariant
                    *self == (ConsensusModule { log: self.log, ..*old(self) }),
                    j <= i <= args.entries@.len(),
                    start_g + j <= log0.len(),
                    log0.len() + args.entries@.len() <= i32::MAX as int,
                    self.log@ == log0.take(start_g + j) + args.entries@.subrange(
                        j as int,
                        i as int,
                    ),
                decreases args.entries@.len() - i,
            {
                self.log.push(args.entries[i]);
                proof {
                    assert(self.log@ =~= log0.take(start_g + j) + args.entries@.subrange(
                        j as int,
                        i + 1,
                    ));
                }
                i = i + 1;
            }
            proof {
                assert(self.log@ =~= log0.take(start_g + j) + args.entries@.skip(j as int));
            }
        }
    }
}

} // verus!
