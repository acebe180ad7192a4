//! Election safety: at most one replica can win a given term.
//!
//! A replica's `voted_for` lets it grant at most one candidate per term (see
//! [`crate::consensus::ConsensusModule::grants_vote`] and the `voted_for` clause
//! of `request_vote`), so the votes of a term form a map from voter to
//! candidate. Becoming leader takes a strict majority of the cluster
//! (`2 * votes > cluster size`, see `handle_vote_reply`). This module proves
//! that those two rules cannot crown two leaders in one term.

use vstd::prelude::*;

use vstd::set_lib::{lemma_len_subset, lemma_set_disjoint_lens};

use crate::consensus::ConsensusModule;
use crate::types::RequestVoteArgs;

verus! {

/// A replica's vote is single within a term: once `voted_for` is set, every
/// RequestVote it would still grant at its current term names that same
/// candidate. This is what lets the votes of a term be read as a map from
/// voter to candidate, the premise of [`lemma_election_safety`].
pub proof fn lemma_single_vote_per_term(
    m: ConsensusModule,
    args1: RequestVoteArgs,
    args2: RequestVoteArgs,
)
    requires
        m.grants_vote(args1),
        m.grants_vote(args2),
        args1.term == m.current_term,
        args2.term == m.current_term,
        m.voted_for != -1,
    ensures
        args1.candidate_id == args2.candidate_id,
{
}

/// Election safety: if, within one term, every voter in `voters1` voted for
/// `cand1` and every voter in `voters2` voted for `cand2` — `vote` being the
/// per-replica `voted_for` record of that term, at most one vote per replica
/// — and both candidates gathered a strict majority of `cluster`, then they
/// are the same candidate: at most one replica holds role Leader for a given
/// term.
pub proof fn lemma_election_safety(
    cluster: Set<i32>,
    voters1: Set<i32>,
    voters2: Set<i32>,
    vote: Map<i32, i32>,
    cand1: i32,
    cand2: i32,
)
    requires
        cluster.finite(),
        voters1.subset_of(cluster),
        voters2.subset_of(cluster),
        2 * voters1.len() > cluster.len(),
        2 * voters2.len() > cluster.len(),
        forall|r: i32| voters1.contains(r) ==> vote.contains_key(r) && vote[r] == cand1,
        forall|r: i32| voters2.contains(r) ==> vote.contains_key(r) && vote[r] == cand2,
    ensures
        cand1 == cand2,
{
    lemma_len_subset(voters1, cluster);
    lemma_len_subset(voters2, cluster);
    if cand1 != cand2 {
        assert(voters1.disjoint(voters2)) by {
            assert forall|r: i32| voters1.contains(r) implies !voters2.contains(r) by {
                if voters2.contains(r) {
                    assert(vote[r] == cand1 && vote[r] == cand2);
                }
            }
        }
        lemma_set_disjoint_lens(voters1, voters2);
        assert((voters1 + voters2).subset_of(cluster));
        lemma_len_subset(voters1 + voters2, cluster);
        assert(voters1.len() + voters2.len() <= cluster.len());
        assert(false);
    }
}

} // verus!
