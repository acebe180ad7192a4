use raft_core::consensus::ConsensusModule;
use raft_core::server::Server;
use raft_core::timer::election_timeout;
use raft_core::types::{AppendEntriesReply, LogEntry, RequestVoteArgs, TimerAction};

fn entry(term: i32) -> LogEntry {
    LogEntry { term, command: () }
}

fn terms(log: &Vec<LogEntry>) -> Vec<i32> {
    log.iter().map(|e| e.term).collect()
}

/// One heartbeat round from `leader` to a `follower`, delivered and its reply
/// recorded; returns whether the leader's commit index advanced.
fn heartbeat_round(
    leader: &mut ConsensusModule,
    peer_id: i32,
    follower: &mut ConsensusModule,
    now: u64,
) -> bool {
    let args = leader.prepare_heartbeat(peer_id).expect("peer is tracked");
    let term_started = args.term;
    let prev_log_index = args.prev_log_index;
    let entries_len = args.entries.len();
    let reply = follower.append_entries(args, now);
    leader.handle_append_entries_reply(
        peer_id,
        term_started,
        prev_log_index,
        entries_len,
        reply,
        now,
    )
}

/// A healthy 3-replica cluster: a replica whose deadline lapses becomes
/// Leader within one randomized timeout (under 300 ms), and a submitted
/// command is committed on all three logs.
#[test]
fn scenario_healthy_cluster_elects_and_commits() {
    let mut r0 = ConsensusModule::new(0, vec![1, 2], Server {});
    let mut r1 = ConsensusModule::new(1, vec![0, 2], Server {});
    let mut r2 = ConsensusModule::new(2, vec![0, 1], Server {});

    // The election timer fires strictly after its randomized timeout, which
    // is below 300 ms: a leader stands within 300 ms of start.
    let timeout = election_timeout();
    let now = timeout + 1;
    assert!(now <= 300);
    assert_eq!(r0.election_timer_tick(0, timeout, now), TimerAction::StartElection);

    let args = r0.start_election(now);
    assert_eq!(args.term, 1);
    let vote1 = r1.request_vote(args, now);
    let vote2 = r2.request_vote(args, now);
    assert!(vote1.vote_granted && vote2.vote_granted);
    let votes = r0.handle_vote_reply(1, vote1, 1, now);
    assert_eq!(votes, 2); // 2 of 3: strict majority, leader at once
    assert_eq!(r0.report(), (0, 1, true));
    let votes = r0.handle_vote_reply(1, vote2, votes, now);
    assert_eq!(votes, 2); // discarded: no longer a candidate

    assert!(r0.submit(()));

    // First heartbeat round replicates the entry and commits it on the leader.
    let advanced1 = heartbeat_round(&mut r0, 1, &mut r1, now + 10);
    assert!(advanced1);
    assert_eq!(r0.commit_index, 0);
    let advanced2 = heartbeat_round(&mut r0, 2, &mut r2, now + 10);
    assert!(!advanced2); // already committed

    // Second round carries leader_commit to the followers.
    heartbeat_round(&mut r0, 1, &mut r1, now + 60);
    heartbeat_round(&mut r0, 2, &mut r2, now + 60);

    for m in [&r0, &r1, &r2] {
        assert_eq!(terms(&m.log), vec![1]);
        assert_eq!(m.commit_index, 0);
    }
}

/// An isolated leader (all of its RPCs fail): the two reachable replicas
/// elect a new leader at a higher term within two timeout windows, and the
/// old leader steps down the moment any reply shows it the newer term.
#[test]
fn scenario_isolated_leader_is_replaced() {
    let mut r0 = ConsensusModule::new(0, vec![1, 2], Server {});
    let mut r1 = ConsensusModule::new(1, vec![0, 2], Server {});
    let mut r2 = ConsensusModule::new(2, vec![0, 1], Server {});

    // r0 wins term 1.
    let t0 = election_timeout();
    let args = r0.start_election(t0 + 1);
    let v = r1.request_vote(args, t0 + 1);
    r0.handle_vote_reply(1, v, 1, t0 + 1);
    let _ = r2.request_vote(args, t0 + 1);
    assert!(r0.report().2);

    // r0 is now isolated: its heartbeats never arrive, so r1 and r2 hear
    // nothing and time out. Each timer window is below 300 ms, and one
    // election round suffices: a new leader within two windows.
    let last_contact = t0 + 1;
    let timeout1 = election_timeout();
    let now = last_contact + timeout1 + 1;
    assert!(now <= last_contact + 2 * 300);
    let r1_term = r1.report().1;
    assert_eq!(r1_term, 1); // r1 granted its vote at term 1
    assert_eq!(r1.election_timer_tick(r1_term, timeout1, now), TimerAction::StartElection);
    let args = r1.start_election(now);
    assert_eq!(args.term, 2);
    let vote = r2.request_vote(args, now);
    assert!(vote.vote_granted);
    let votes = r1.handle_vote_reply(2, vote, 1, now);
    assert_eq!(votes, 2);
    assert_eq!(r1.report(), (1, 2, true));

    // The isolated leader learns of term 2 from the first reply that gets
    // through and steps down.
    let advanced = r0.handle_append_entries_reply(
        1,
        1,
        -1,
        0,
        AppendEntriesReply { term: 2, success: false },
        now + 5,
    );
    assert!(!advanced);
    assert_eq!(r0.report(), (0, 2, false));
}

/// A split vote cannot produce two leaders in one term: each replica votes
/// once per term, and a strict majority is required.
#[test]
fn scenario_split_vote_yields_at_most_one_leader() {
    let mut r0 = ConsensusModule::new(0, vec![1, 2], Server {});
    let mut r1 = ConsensusModule::new(1, vec![0, 2], Server {});
    let mut r2 = ConsensusModule::new(2, vec![0, 1], Server {});

    // r0 and r1 both stand for term 1.
    let args0 = r0.start_election(1);
    let args1 = r1.start_election(1);
    assert_eq!(args0.term, 1);
    assert_eq!(args1.term, 1);

    // r2 grants the request that arrives first (r0's) and denies the other.
    let v_r2_for_r0 = r2.request_vote(args0, 2);
    let v_r2_for_r1 = r2.request_vote(args1, 2);
    assert!(v_r2_for_r0.vote_granted);
    assert!(!v_r2_for_r1.vote_granted);
    // The rivals deny each other: both already voted for themselves.
    let v_r1_for_r0 = r1.request_vote(args0, 2);
    let v_r0_for_r1 = r0.request_vote(args1, 2);
    assert!(!v_r1_for_r0.vote_granted);
    assert!(!v_r0_for_r1.vote_granted);

    let votes0 = r0.handle_vote_reply(1, v_r2_for_r0, 1, 3);
    let votes0 = r0.handle_vote_reply(1, v_r1_for_r0, votes0, 3);
    let votes1 = r1.handle_vote_reply(1, v_r2_for_r1, 1, 3);
    let votes1 = r1.handle_vote_reply(1, v_r0_for_r1, votes1, 3);
    assert_eq!((votes0, votes1), (2, 1));

    let leaders = [&r0, &r1, &r2].iter().filter(|m| m.report().2).count();
    assert_eq!(leaders, 1);
    assert!(r0.report().2);
}

/// An entry is never marked committed without a strict majority: in a
/// 5-replica cluster one acknowledgment (2 of 5) commits nothing, the second
/// (3 of 5) commits.
#[test]
fn scenario_commit_waits_for_majority() {
    let mut leader = ConsensusModule::new(0, vec![1, 2, 3, 4], Server {});
    let mut f1 = ConsensusModule::new(1, vec![0, 2, 3, 4], Server {});
    let mut f2 = ConsensusModule::new(2, vec![0, 1, 3, 4], Server {});

    let args = leader.start_election(1);
    let v1 = f1.request_vote(args, 1);
    let v2 = f2.request_vote(args, 1);
    let votes = leader.handle_vote_reply(1, v1, 1, 1);
    leader.handle_vote_reply(1, v2, votes, 1);
    assert!(leader.report().2); // 3 of 5

    assert!(leader.submit(()));

    let advanced = heartbeat_round(&mut leader, 1, &mut f1, 10);
    assert!(!advanced); // 2 of 5 hold the entry: no commit
    assert_eq!(leader.commit_index, -1);

    let advanced = heartbeat_round(&mut leader, 2, &mut f2, 20);
    assert!(advanced); // 3 of 5 hold it: committed
    assert_eq!(leader.commit_index, 0);
}

/// Replicas that accept the same AppendEntries agree on the whole appended
/// range afterwards, whatever their logs held before (the log-matching step),
/// and a lagging peer is reached by backing `next_index` up one step per
/// failed round.
#[test]
fn scenario_conflict_resolution_converges() {
    let mut leader = ConsensusModule::new(0, vec![1, 2], Server {});
    leader.current_term = 3;
    leader.state = raft_core::types::State::Candidate;
    leader.log = vec![entry(1), entry(2), entry(3)];
    leader.start_leader();

    // f1 diverged after index 0; f2 is far behind.
    let mut f1 = ConsensusModule::new(1, vec![0, 2], Server {});
    f1.current_term = 3;
    f1.log = vec![entry(1), entry(1), entry(1)];
    let mut f2 = ConsensusModule::new(2, vec![0, 1], Server {});
    f2.current_term = 3;

    // next_index starts at the log length, so the first round asserts a
    // previous entry neither follower can confirm for term 3... but f1 has
    // an entry at index 2 of the wrong term, which the check catches.
    let args = leader.prepare_heartbeat(1).unwrap();
    assert_eq!((args.prev_log_index, args.prev_log_term), (2, 3));
    let reply = f1.append_entries(args, 1);
    assert!(!reply.success);
    leader.handle_append_entries_reply(1, 3, 2, 0, reply, 1);

    // Backed up one step: still conflicting (term 2 vs term 1 at index 1).
    let args = leader.prepare_heartbeat(1).unwrap();
    assert_eq!((args.prev_log_index, args.prev_log_term), (1, 2));
    let reply = f1.append_entries(args, 2);
    assert!(!reply.success);
    leader.handle_append_entries_reply(1, 3, 1, 0, reply, 2);

    // Backed up to index 0, where the logs agree: the tail is replaced.
    let args = leader.prepare_heartbeat(1).unwrap();
    assert_eq!((args.prev_log_index, args.prev_log_term), (0, 1));
    let entries_len = args.entries.len();
    let reply = f1.append_entries(args, 3);
    assert!(reply.success);
    leader.handle_append_entries_reply(1, 3, 0, entries_len, reply, 3);
    assert_eq!(terms(&f1.log), vec![1, 2, 3]);

    // The empty follower walks back to the very start the same way.
    for round in 0..4 {
        let args = leader.prepare_heartbeat(2).unwrap();
        let prev = args.prev_log_index;
        let entries_len = args.entries.len();
        let reply = f2.append_entries(args, 4 + round);
        leader.handle_append_entries_reply(2, 3, prev, entries_len, reply, 4 + round);
    }
    assert_eq!(terms(&f2.log), vec![1, 2, 3]);

    // Same index and term now implies the same entry everywhere.
    assert_eq!(terms(&f1.log), terms(&f2.log));
    assert_eq!(terms(&f1.log), terms(&leader.log));
}
