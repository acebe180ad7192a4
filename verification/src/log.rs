//! The mathematical model of the replicated log: last-index/last-term
//! queries, the AppendEntries consistency check, and the reconciliation of a
//! local log with a leader's entries, together with the lemmas that the
//! handlers and their callers build on.

use vstd::prelude::*;

use crate::types::LogEntry;

verus! {

/// Index of the last log entry, or -1 for an empty log.
pub open spec fn last_log_index_spec(log: Seq<LogEntry>) -> int {
    log.len() - 1
}

/// Term of the last log entry, or -1 for an empty log.
pub open spec fn last_log_term_spec(log: Seq<LogEntry>) -> int {
    if log.len() == 0 {
        -1
    } else {
        log[log.len() - 1].term as int
    }
}

/// The candidate's log, summarized by its last index and term, is at least as
/// up to date as a log with the given last index and term.
pub open spec fn candidate_up_to_date(
    cand_last_index: int,
    cand_last_term: int,
    last_index: int,
    last_term: int,
) -> bool {
    ||| cand_last_term > last_term
    ||| (cand_last_term == last_term && cand_last_index >= last_index)
}

/// The AppendEntries log-consistency check: appending at the very start, or
/// at a position the local log holds with the term the leader expects there.
pub open spec fn log_check_spec(log: Seq<LogEntry>, prev_index: int, prev_term: int) -> bool {
    ||| prev_index == -1
    ||| (0 <= prev_index < log.len() && log[prev_index].term == prev_term)
}

/// `j` is the length of the longest prefix of `entries` that agrees, term by
/// term, with the local log starting at position `start` (a position within
/// the log, `0 <= start <= log.len()`).
pub open spec fn is_match_len(
    log: Seq<LogEntry>,
    start: int,
    entries: Seq<LogEntry>,
    j: int,
) -> bool {
    &&& 0 <= j <= entries.len()
    &&& 0 <= start && start + j <= log.len()
    &&& forall|k: int| 0 <= k < j ==> (#[trigger] log[start + k]).term == entries[k].term
    &&& (j < entries.len() ==> (start + j == log.len() || log[start + j].term != entries[j].term))
}

/// Helper for [`match_len`]: scan forward from offset `j`.
pub open spec fn match_len_from(
    log: Seq<LogEntry>,
    start: int,
    entries: Seq<LogEntry>,
    j: int,
) -> int
    decreases entries.len() - j,
{
    if 0 <= j < entries.len() && 0 <= start + j < log.len() && log[start + j].term
        == entries[j].term {
        match_len_from(log, start, entries, j + 1)
    } else {
        j
    }
}

/// The length of the agreeing prefix of `entries` against the local log at
/// position `start`.
pub open spec fn match_len(log: Seq<LogEntry>, start: int, entries: Seq<LogEntry>) -> int {
    match_len_from(log, start, entries, 0)
}

/// The log that results from a successful AppendEntries with the given
/// previous index and entries: entries that already agree are kept in place;
/// at the first disagreement the local tail is discarded and the remaining
/// new entries are appended; if nothing disagrees the local log is unchanged.
pub open spec fn reconciled_log(
    log: Seq<LogEntry>,
    prev_index: int,
    entries: Seq<LogEntry>,
) -> Seq<LogEntry> {
    let start = prev_index + 1;
    let j = match_len(log, start, entries);
    if j == entries.len() {
        log
    } else {
        log.take(start + j) + entries.skip(j)
    }
}

/// `match_len_from` yields the unique agreeing-prefix length, given that the
/// prefix before its starting offset already agrees.
proof fn lemma_match_len_from_correct(log: Seq<LogEntry>, start: int, entries: Seq<LogEntry>, j: int)
    requires
        0 <= start,
        0 <= j <= entries.len(),
        start + j <= log.len(),
        forall|k: int| 0 <= k < j ==> (#[trigger] log[start + k]).term == entries[k].term,
    ensures
        is_match_len(log, start, entries, match_len_from(log, start, entries, j)),
    decreases entries.len() - j,
{
    if 0 <= j < entries.len() && 0 <= start + j < log.len() && log[start + j].term
        == entries[j].term {
        lemma_match_len_from_correct(log, start, entries, j + 1);
    }
}

/// `match_len` satisfies [`is_match_len`], and nothing else does.
pub proof fn lemma_match_len_correct(log: Seq<LogEntry>, start: int, entries: Seq<LogEntry>)
    requires
        0 <= start <= log.len(),
    ensures
        is_match_len(log, start, entries, match_len(log, start, entries)),
        forall|j: int| is_match_len(log, start, entries, j) ==> j == match_len(log, start, entries),
{
    lemma_match_len_from_correct(log, start, entries, 0);
    let m = match_len(log, start, entries);
    assert forall|j: int| is_match_len(log, start, entries, j) implies j == m by {
        if j < m {
            assert(start + j < log.len() && log[start + j].term == entries[j].term);
        } else if j > m {
            assert(start + m < log.len() && log[start + m].term == entries[m].term);
        }
    }
}

/// After reconciliation the log extends at least to the end of the appended
/// range, agrees with `entries` term by term over that range, and keeps the
/// prefix strictly before `prev_index + 1` unchanged.
pub proof fn lemma_reconciled_matches(log: Seq<LogEntry>, prev_index: int, entries: Seq<LogEntry>)
    requires
        -1 <= prev_index,
        prev_index + 1 <= log.len(),
    ensures
        reconciled_log(log, prev_index, entries).len() >= prev_index + 1 + entries.len(),
        forall|k: int|
            0 <= k < entries.len() ==> (#[trigger] reconciled_log(log, prev_index, entries)[prev_index
                + 1 + k]).term == entries[k].term,
        forall|k: int|
            0 <= k <= prev_index ==> #[trigger] reconciled_log(log, prev_index, entries)[k]
                == log[k],
{
    let start = prev_index + 1;
    lemma_match_len_correct(log, start, entries);
    let j = match_len(log, start, entries);
    if j == entries.len() {
    } else {
        let rec = log.take(start + j) + entries.skip(j);
        assert forall|k: int| 0 <= k < entries.len() implies (#[trigger] rec[start + k]).term
            == entries[k].term by {
            if k < j {
                assert(rec[start + k] == log[start + k]);
            } else {
                assert(rec[start + k] == entries.skip(j)[start + k - (start + j)]);
            }
        }
    }
}

/// Two replicas that successfully process the same AppendEntries arguments
/// agree, term by term, on the whole appended range, whatever their logs held
/// before. This is the local step behind the log-matching property.
pub proof fn lemma_same_append_agreement(
    log1: Seq<LogEntry>,
    log2: Seq<LogEntry>,
    prev_index: int,
    entries: Seq<LogEntry>,
)
    requires
        -1 <= prev_index,
        prev_index + 1 <= log1.len(),
        prev_index + 1 <= log2.len(),
    ensures
        forall|k: int|
            0 <= k < entries.len() ==> (#[trigger] reconciled_log(log1, prev_index, entries)[prev_index
                + 1 + k]).term == reconciled_log(log2, prev_index, entries)[prev_index + 1
                + k].term,
{
    lemma_reconciled_matches(log1, prev_index, entries);
    lemma_reconciled_matches(log2, prev_index, entries);
}

/// The log-matching property between two logs: wherever they hold an entry
/// with the same index and term, they agree on every index up to it.
pub open spec fn logs_match(log1: Seq<LogEntry>, log2: Seq<LogEntry>) -> bool {
    forall|i: int, j: int|
        #![trigger log1[i], log2[j]]
        0 <= j <= i && i < log1.len() && i < log2.len() && log1[i].term == log2[i].term
            ==> log1[j].term == log2[j].term
}

/// One replication step preserves log matching with the leader: a follower
/// whose log matches the leader's, and which accepts the leader's entire
/// suffix from `prev_index + 1` on (with the terms at `prev_index` agreeing,
/// as the consistency check demands), ends up agreeing with the leader's log,
/// term by term, over the leader's whole length.
pub proof fn lemma_replication_matches_leader(
    flog: Seq<LogEntry>,
    llog: Seq<LogEntry>,
    prev_index: int,
)
    requires
        -1 <= prev_index,
        prev_index + 1 <= flog.len(),
        prev_index + 1 <= llog.len(),
        logs_match(flog, llog),
        prev_index >= 0 ==> flog[prev_index].term == llog[prev_index].term,
    ensures
        reconciled_log(flog, prev_index, llog.skip(prev_index + 1)).len() >= llog.len(),
        forall|i: int|
            0 <= i < llog.len() ==> (#[trigger] reconciled_log(
                flog,
                prev_index,
                llog.skip(prev_index + 1),
            )[i]).term == llog[i].term,
{
    let entries = llog.skip(prev_index + 1);
    lemma_reconciled_matches(flog, prev_index, entries);
    let rec = reconciled_log(flog, prev_index, entries);
    assert forall|i: int| 0 <= i < llog.len() implies (#[trigger] rec[i]).term == llog[i].term by {
        if i <= prev_index {
            assert(rec[i] == flog[i]);
            assert(flog[prev_index].term == llog[prev_index].term);
            assert(flog[i].term == llog[i].term);
        } else {
            assert(rec[prev_index + 1 + (i - prev_index - 1)].term == entries[i - prev_index
                - 1].term);
            assert(entries[i - prev_index - 1] == llog[i]);
        }
    }
}

/// Reconciling twice with the same arguments gives the same log as
/// reconciling once, and a log that passed the consistency check still passes
/// it after reconciliation: AppendEntries is idempotent.
pub proof fn lemma_append_entries_idempotent(
    log: Seq<LogEntry>,
    prev_index: int,
    prev_term: int,
    entries: Seq<LogEntry>,
)
    requires
        log_check_spec(log, prev_index, prev_term),
    ensures
        log_check_spec(reconciled_log(log, prev_index, entries), prev_index, prev_term),
        reconciled_log(reconciled_log(log, prev_index, entries), prev_index, entries)
            == reconciled_log(log, prev_index, entries),
{
    let start = prev_index + 1;
    lemma_match_len_correct(log, start, entries);
    let j = match_len(log, start, entries);
    let l1 = reconciled_log(log, prev_index, entries);
    lemma_reconciled_matches(log, prev_index, entries);
    if j == entries.len() {
        assert(l1 == log);
    } else {
        assert(l1 == log.take(start + j) + entries.skip(j));
        assert(l1.len() == start + entries.len());
        if prev_index >= 0 {
            assert(l1[prev_index] == log[prev_index]);
        }
        assert(is_match_len(l1, start, entries, entries.len() as int));
        lemma_match_len_correct(l1, start, entries);
        assert(match_len(l1, start, entries) == entries.len());
        assert(reconciled_log(l1, prev_index, entries) == l1);
    }
}

} // verus!
