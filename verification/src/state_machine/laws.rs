//! What holds of every transition, whatever the role and the event.

use super::events::StateEvent;
use super::machines::leader::{committable, lemma_highest_committable};
use super::machines::{
    commit_target, leader_wf, settle, step, stepped_down, timed_out, NodeView, Reply, RoleView,
    TransitionError,
};
use super::states::log::{
    follows, holds_all, lemma_rank, lemma_splice_ascending, lemma_splice_holds_batch,
    lemma_splice_idempotent, lemma_splice_keeps_lower, rank, splice,
};
use super::states::{
    LeaderView, LogEntry, LogEntryId, LogEntryIndex, PersistentView, ServerId, TermId,
};
use crate::rpc::append_entries::AppendEntriesResponse;
use crate::rpc::vote::VoteResponse;
use std::time::Duration;
use vstd::prelude::*;

verus! {

/// The current term never decreases: after any event it is at least what it
/// was before.
pub proof fn law_term_never_decreases(role: RoleView, event: StateEvent)
    ensures
        step(role, event) matches Ok(t) ==> t.next.term() >= role.term(),
        settle(role) matches Ok(t) ==> t.next.term() == role.term(),
        forall|term: TermId| (#[trigger] stepped_down(role, term)).next.term() >= role.term(),
{
}

/// To begin an election is what a timeout does, however long it was.
pub proof fn law_timeout_begins_election(role: RoleView, after: Duration)
    ensures
        step(role, StateEvent::Timeout(after)) == timed_out(role),
{
}

/// The role that `role` has become after the events of `events` one after
/// the other, or the first error among them.
pub open spec fn run(role: RoleView, events: Seq<StateEvent>) -> Result<RoleView, TransitionError>
    decreases events.len(),
{
    if events.len() == 0 {
        Ok(role)
    } else {
        match run(role, events.drop_last()) {
            Ok(before) => match step(before, events.last()) {
                Ok(t) => Ok(t.next),
                Err(e) => Err(e),
            },
            Err(e) => Err(e),
        }
    }
}

/// Along any sequence of events, the term after `later` events is at least
/// the term after `earlier` of them.
pub proof fn law_term_never_decreases_along_run(
    role: RoleView,
    events: Seq<StateEvent>,
    earlier: int,
    later: int,
)
    requires
        0 <= earlier <= later <= events.len(),
    ensures
        run(role, events.take(later)) matches Ok(after) ==> (run(role, events.take(earlier)) matches Ok(
            before,
        ) && before.term() <= after.term()),
    decreases later - earlier,
{
    if earlier < later {
        let longer = events.take(later);
        assert(longer.drop_last() == events.take(later - 1));
        law_term_never_decreases_along_run(role, events, earlier, later - 1);
        if let Ok(middle) = run(role, events.take(later - 1)) {
            law_term_never_decreases(middle, longer.last());
        }
    }
}

/// The term that the sender of `event` was in, if the event came from a
/// server.
pub open spec fn sender_term(event: StateEvent) -> Option<TermId> {
    match event {
        StateEvent::Timeout(_) => None,
        StateEvent::VoteRequest { term, .. } => Some(term),
        StateEvent::VoteResponse { term, .. } => Some(term),
        StateEvent::AppendEntriesRequest { term, .. } => Some(term),
        StateEvent::AppendEntriesResponse { term, .. } => Some(term),
    }
}

/// A message from a newer term makes its receiver a follower in that term,
/// whatever it was.
pub proof fn law_newer_term_makes_follower(role: RoleView, event: StateEvent)
    ensures
        step(role, event) matches Ok(t) ==> (sender_term(event) matches Some(term) ==> term
            > role.term() ==> t.next is Follower && t.next.term() == term),
{
}

/// A request from an older term is refused, with the receiver's term in the
/// answer, and leaves the receiver as it is.
pub proof fn law_stale_request_is_refused(role: RoleView, event: StateEvent)
    requires
        event is VoteRequest || event is AppendEntriesRequest,
        sender_term(event) matches Some(term) && term < role.term(),
    ensures
        step(role, event) matches Ok(t) && t.next == role && !t.persist && (t.reply == Reply::Vote(
            VoteResponse { term: role.term(), vote_granted: false },
        ) || t.reply == Reply::Append(AppendEntriesResponse { term: role.term(), success: false })),
{
}

/// Requests are answered in kind, other events are not answered, and every
/// answer carries the term that the server is in after the event.
pub proof fn law_reply_answers_request(role: RoleView, event: StateEvent)
    ensures
        step(role, event) matches Ok(t) ==> match t.reply {
            Reply::Vote(answer) => event is VoteRequest && answer.term == t.next.term(),
            Reply::Append(answer) => event is AppendEntriesRequest && answer.term == t.next.term(),
            Reply::Silent => !(event is VoteRequest) && !(event is AppendEntriesRequest),
        },
{
}

/// When the term advances, the vote of the old term is forgotten: after the
/// event there is no vote, or the one that the event asked for and got.
pub proof fn law_new_term_forgets_vote(role: RoleView, event: StateEvent)
    ensures
        step(role, event) matches Ok(t) ==> (t.next.term() > role.term() ==> {
            ||| t.next.node().persistent.voted_for is None
            ||| event matches StateEvent::VoteRequest { candidate, .. }
                && t.next.node().persistent.voted_for == Some(candidate) && t.reply
                == Reply::Vote(VoteResponse { term: t.next.term(), vote_granted: true })
        }),
{
}

/// A server votes at most once in a term: while the term stays the same, a
/// vote that was cast stands.
pub proof fn law_vote_stands_within_term(role: RoleView, event: StateEvent)
    ensures
        step(role, event) matches Ok(t) ==> (t.next.term() == role.term()
            && role.node().persistent.voted_for is Some ==> t.next.node().persistent.voted_for
            == role.node().persistent.voted_for),
        settle(role) matches Ok(t) ==> t.next.node().persistent == role.node().persistent,
        forall|term: TermId|
            (#[trigger] stepped_down(role, term)).next.term() == role.term() ==> stepped_down(
                role,
                term,
            ).next.node().persistent == role.node().persistent,
{
}

/// Along any sequence of events, a vote stands as long as the term does: if
/// the term after `later` events is the one after `earlier` of them, in
/// which the server had voted, then the vote is the same.
pub proof fn law_vote_stands_along_run(
    role: RoleView,
    events: Seq<StateEvent>,
    earlier: int,
    later: int,
)
    requires
        0 <= earlier <= later <= events.len(),
    ensures
        run(role, events.take(later)) matches Ok(after) ==> (run(role, events.take(earlier)) matches Ok(
            before,
        ) && (before.term() == after.term() && before.node().persistent.voted_for is Some
            ==> after.node().persistent.voted_for == before.node().persistent.voted_for)),
    decreases later - earlier,
{
    if earlier < later {
        let longer = events.take(later);
        assert(longer.drop_last() == events.take(later - 1));
        law_vote_stands_along_run(role, events, earlier, later - 1);
        law_term_never_decreases_along_run(role, events, earlier, later - 1);
        if let Ok(middle) = run(role, events.take(later - 1)) {
            law_term_never_decreases(middle, longer.last());
            law_vote_stands_within_term(middle, longer.last());
        }
    }
}

/// Along any sequence of events, a sound role stays sound and its commit
/// index never decreases.
pub proof fn law_run_keeps_soundness(role: RoleView, events: Seq<StateEvent>)
    requires
        role.wf(),
    ensures
        run(role, events) matches Ok(after) ==> after.wf() && after.node().volatile.commit_index
            >= role.node().volatile.commit_index,
    decreases events.len(),
{
    if events.len() > 0 {
        law_run_keeps_soundness(role, events.drop_last());
        if let Ok(middle) = run(role, events.drop_last()) {
            law_step_keeps_soundness(middle, events.last());
            law_commit_never_decreases(middle, events.last());
        }
    }
}

/// A server that has voted grants no vote to anybody else.
pub proof fn law_no_second_vote(
    persistent: PersistentView,
    voted: ServerId,
    term: TermId,
    candidate: ServerId,
    last_log: LogEntryId,
)
    requires
        persistent.voted_for == Some(voted),
        candidate != voted,
    ensures
        !persistent.can_vote(term, candidate, last_log),
{
}

/// A vote request is answered with a grant only if the requester's term is
/// not behind and its log is at least as up to date as the receiver's; a
/// follower, and any server asked in its own term, must not have voted for
/// somebody else. The vote is then on record for the candidate in the
/// candidate's term.
pub proof fn law_grant_is_recorded(
    role: RoleView,
    term: TermId,
    candidate: ServerId,
    last_log: LogEntryId,
)
    ensures
        step(role, StateEvent::VoteRequest { term, candidate, last_log }) matches Ok(t) && (
        t.reply matches Reply::Vote(answer) && (answer.vote_granted ==> {
            &&& term >= role.term()
            &&& role.node().persistent.accept_log(last_log)
            &&& (term == role.term() || role is Follower)
                ==> role.node().persistent.accept_candidate(candidate)
            &&& t.next.node().persistent.voted_for == Some(candidate)
            &&& t.next.term() == term
        })),
{
}

/// A vote of an older term does not stand in the way: a candidate or a
/// leader that is asked from a newer term by a server whose log is at least
/// as up to date as its own gives way, follows, and grants the vote,
/// whomever it voted for before.
pub proof fn law_old_vote_does_not_block(
    role: RoleView,
    term: TermId,
    candidate: ServerId,
    last_log: LogEntryId,
)
    requires
        role.wf(),
        role is Candidate || role is Leader,
        term > role.term(),
        role.node().persistent.accept_log(last_log),
    ensures
        step(role, StateEvent::VoteRequest { term, candidate, last_log }) matches Ok(t) && {
            &&& t.reply == Reply::Vote(VoteResponse { term, vote_granted: true })
            &&& t.persist
            &&& t.next == RoleView::Follower(
                NodeView {
                    persistent: PersistentView {
                        current_term: term,
                        voted_for: Some(candidate),
                        log: role.node().persistent.log,
                    },
                    volatile: role.node().volatile,
                    internal: role.node().internal.clear_voting(),
                },
            )
        },
{
}

/// Election restriction: no vote goes to a candidate whose log ends before
/// the voter's, by term first and by index second.
pub proof fn law_election_restriction(
    persistent: PersistentView,
    term: TermId,
    candidate: ServerId,
    last_log: LogEntryId,
)
    requires
        last_log.term < persistent.last_id().term || (last_log.term == persistent.last_id().term
            && last_log.index < persistent.last_id().index),
    ensures
        !persistent.can_vote(term, candidate, last_log),
{
}

/// Every transition leads from a sound role to a sound role: the log stays
/// in ascending order, only a candidate runs an election, and a leader's
/// progress fits its roster and its log.
pub proof fn law_step_keeps_soundness(role: RoleView, event: StateEvent)
    requires
        role.wf(),
    ensures
        step(role, event) matches Ok(t) ==> t.next.wf(),
        settle(role) matches Ok(t) ==> t.next.wf(),
        forall|term: TermId| (#[trigger] stepped_down(role, term)).next.wf(),
{
    match event {
        StateEvent::AppendEntriesRequest { term, leader, prev_log, entries, commit_idx } => {
            if follows(prev_log, entries@) {
                lemma_splice_ascending(role.node().persistent.log, entries@);
            }
        },
        _ => {},
    }
}

/// A batch sent to follow `prev` leaves every entry of the log up to `prev`
/// where it was.
pub proof fn law_batch_keeps_log_up_to_prev(
    persistent: PersistentView,
    prev: LogEntryId,
    entries: Seq<LogEntry>,
)
    requires
        persistent.wf(),
    ensures
        forall|i: int|
            0 <= i < persistent.log.len() && (#[trigger] persistent.log[i]).index <= prev.index ==> i
                < persistent.with_log_entries(prev, entries).log.len()
                && persistent.with_log_entries(prev, entries).log[i] == persistent.log[i],
{
    let log = persistent.log;
    if follows(prev, entries) && entries.len() > 0 {
        lemma_splice_keeps_lower(log, entries);
        lemma_rank(log, entries[0].index);
        let k = rank(log, entries[0].index) as int;
        let r = splice(log, entries);
        assert forall|i: int| 0 <= i < log.len() && (#[trigger] log[i]).index <= prev.index implies i
            < r.len() && r[i] == log[i] by {
            assert(i < k);
            assert(r.take(k)[i] == log.take(k)[i]);
        }
    }
}

/// Whatever the batch, the log is in ascending order after it as before.
pub proof fn law_batch_keeps_log_ascending(
    persistent: PersistentView,
    prev: LogEntryId,
    entries: Seq<LogEntry>,
)
    requires
        persistent.wf(),
    ensures
        persistent.with_log_entries(prev, entries).wf(),
{
    if follows(prev, entries) {
        lemma_splice_ascending(persistent.log, entries);
    }
}

/// After a batch that ascends strictly after `prev` was taken in, the log
/// holds each of its entries.
pub proof fn law_batch_is_in_the_log(
    persistent: PersistentView,
    prev: LogEntryId,
    entries: Seq<LogEntry>,
)
    requires
        persistent.wf(),
        follows(prev, entries),
    ensures
        holds_all(persistent.with_log_entries(prev, entries).log, entries),
{
    lemma_splice_holds_batch(persistent.log, entries);
}

/// An empty log becomes the batch it takes in, if the batch ascends strictly
/// after `prev`.
pub proof fn law_empty_log_becomes_the_batch(
    persistent: PersistentView,
    prev: LogEntryId,
    entries: Seq<LogEntry>,
)
    requires
        persistent.log.len() == 0,
        follows(prev, entries),
    ensures
        persistent.with_log_entries(prev, entries).log == entries,
{
    if entries.len() > 0 {
        assert(persistent.log.take(0) + entries == entries);
    }
}

/// To take the same batch in a second time changes nothing.
pub proof fn law_batch_taken_twice_is_taken_once(
    persistent: PersistentView,
    prev: LogEntryId,
    entries: Seq<LogEntry>,
)
    requires
        persistent.wf(),
    ensures
        persistent.with_log_entries(prev, entries).with_log_entries(prev, entries)
            == persistent.with_log_entries(prev, entries),
{
    if follows(prev, entries) {
        lemma_splice_idempotent(persistent.log, entries);
    }
}

/// Whoever reports that it took a batch in was asked in a term that is not
/// behind its own, and its log accepted the entry that the batch was sent
/// to follow.
pub proof fn law_success_means_log_accepted(
    role: RoleView,
    term: TermId,
    leader: ServerId,
    prev_log: LogEntryId,
    entries: Vec<LogEntry>,
    commit_idx: LogEntryIndex,
)
    ensures
        step(
            role,
            StateEvent::AppendEntriesRequest { term, leader, prev_log, entries, commit_idx },
        ) matches Ok(t) && (t.reply matches Reply::Append(answer) && (answer.success ==> term
            >= role.term() && role.node().persistent.accept_log(prev_log) && t.next is Follower)),
{
}

/// A follower takes in every batch whose sender is not behind in term and
/// whose preceding entry its log accepts: it stays a follower, in the
/// sender's term, reports success, has the batch in its log, and has
/// committed as far as the leader and the batch allow. A leader that it
/// knows in that term stays its leader.
pub proof fn law_follower_takes_accepted_batch(
    node: NodeView,
    term: TermId,
    leader: ServerId,
    prev_log: LogEntryId,
    entries: Vec<LogEntry>,
    commit_idx: LogEntryIndex,
)
    requires
        term >= node.persistent.current_term,
        node.persistent.accept_log(prev_log),
    ensures
        step(
            RoleView::Follower(node),
            StateEvent::AppendEntriesRequest { term, leader, prev_log, entries, commit_idx },
        ) matches Ok(t) && (t.next matches RoleView::Follower(after) && {
            &&& t.reply == Reply::Append(AppendEntriesResponse { term, success: true })
            &&& after.persistent.current_term == term
            &&& after.persistent.log == node.persistent.with_log_entries(prev_log, entries@).log
            &&& after.volatile == node.volatile.with_commit_index(
                commit_target(commit_idx, prev_log, entries@),
            )
            &&& after.internal.leader == if term == node.persistent.current_term
                && node.internal.leader is Some {
                node.internal.leader
            } else {
                Some(leader)
            }
        }),
{
}

/// Replication is idempotent: a server that gets the same append-entries
/// request twice has the same log after the second as after the first.
pub proof fn law_replication_is_idempotent(role: RoleView, event: StateEvent)
    requires
        role.wf(),
        event is AppendEntriesRequest,
    ensures
        step(role, event) matches Ok(first) && (step(first.next, event) matches Ok(second)
            && second.next.node().persistent.log == first.next.node().persistent.log),
{
    match event {
        StateEvent::AppendEntriesRequest { term, leader, prev_log, entries, commit_idx } => {
            if follows(prev_log, entries@) {
                lemma_splice_idempotent(role.node().persistent.log, entries@);
            }
        },
        _ => {},
    }
}

/// Leader commit safety: the commit index of a leader rises only to an
/// entry of the leader's own term that more than half of the servers hold.
pub proof fn law_leader_commits_own_term_on_majority(
    node: NodeView,
    progress: LeaderView,
    event: StateEvent,
)
    requires
        node.wf(),
        leader_wf(node, progress),
    ensures
        step(RoleView::Leader(node, progress), event) matches Ok(t) ==> (t.next matches RoleView::Leader(
            after,
            after_progress,
        ) ==> after.volatile.commit_index == node.volatile.commit_index || committable(
            node.persistent.log,
            after_progress.match_index,
            node.persistent.current_term,
            after.volatile.commit_index,
        )),
{
    match event {
        StateEvent::AppendEntriesResponse { term, success, server_id } => {
            let acked = progress.acked(server_id as int, node.persistent.last_id().index);
            lemma_highest_committable(
                node.persistent.log,
                acked.match_index,
                node.persistent.current_term,
            );
        },
        _ => {},
    }
}

/// After a server confirmed a batch, the leader has committed every entry
/// that it may commit: none of its own term that more than half of the
/// servers hold lies beyond the commit index.
pub proof fn law_leader_commits_all_it_may(
    node: NodeView,
    progress: LeaderView,
    term: TermId,
    server_id: ServerId,
    index: LogEntryIndex,
)
    requires
        node.wf(),
        leader_wf(node, progress),
        term <= node.persistent.current_term,
    ensures
        step(
            RoleView::Leader(node, progress),
            StateEvent::AppendEntriesResponse { term, success: true, server_id },
        ) matches Ok(t) ==> (t.next matches RoleView::Leader(after, after_progress) && (committable(
            node.persistent.log,
            after_progress.match_index,
            node.persistent.current_term,
            index,
        ) ==> index <= after.volatile.commit_index)),
{
    let acked = progress.acked(server_id as int, node.persistent.last_id().index);
    lemma_highest_committable(node.persistent.log, acked.match_index, node.persistent.current_term);
}

/// The commit index never decreases.
pub proof fn law_commit_never_decreases(role: RoleView, event: StateEvent)
    ensures
        step(role, event) matches Ok(t) ==> t.next.node().volatile.commit_index
            >= role.node().volatile.commit_index && t.next.node().volatile.last_applied
            == role.node().volatile.last_applied,
{
}

/// A transition asks for a write to stable storage exactly if it changed
/// the term, the vote or the log.
pub proof fn law_persist_tells_change(role: RoleView, event: StateEvent)
    ensures
        step(role, event) matches Ok(t) ==> (t.persist <==> t.next.node().persistent
            != role.node().persistent),
{
}

} // verus!
