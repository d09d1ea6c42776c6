//! The role of the server that won an election.

use super::{
    answered_append, answered_vote, commit_target, commit_target_of, leader_wf, refines,
    unanswered, Before, Follower, NodeView, RoleView, StateMachine, Transition, TransitionError,
    TransitionView,
};
use crate::state_machine::events::StateEvent;
use crate::state_machine::states::internal::quorum;
use crate::state_machine::states::log::{holds, strictly_ascending};
use crate::state_machine::states::volatile::{count_replicas, replicated_on};
use crate::state_machine::states::{
    InternalState, LeaderView, LeaderVolatileState, LogEntry, LogEntryId, LogEntryIndex,
    PersistentState, ServerId, ServerVolatileState, TermId,
};
use vstd::prelude::*;

verus! {

/// A leader in `term` may commit the entry at `index`: its log holds an
/// entry of its own term there, and more than half of the servers in
/// `match_index` hold the log up to it.
pub open spec fn committable(
    log: Seq<LogEntry>,
    match_index: Seq<LogEntryIndex>,
    term: TermId,
    index: LogEntryIndex,
) -> bool {
    holds(log, LogEntryId { index, term }) && replicated_on(match_index, index) >= quorum(
        match_index.len(),
    )
}

/// The entry `entry` is of the leader's term and more than half of the
/// servers hold the log up to it.
pub open spec fn decides(entry: LogEntry, match_index: Seq<LogEntryIndex>, term: TermId) -> bool {
    entry.term == term && replicated_on(match_index, entry.index) >= quorum(match_index.len())
}

/// Index of the last entry of `log` that a leader in `term` may commit, and
/// 0 if there is none.
pub open spec fn highest_committable(
    log: Seq<LogEntry>,
    match_index: Seq<LogEntryIndex>,
    term: TermId,
) -> LogEntryIndex
    decreases log.len(),
{
    if log.len() == 0 {
        0
    } else if decides(log.last(), match_index, term) {
        log.last().index
    } else {
        highest_committable(log.drop_last(), match_index, term)
    }
}

/// In an ascending log, `highest_committable` is an index that may be
/// committed, if there is any, and no higher one may.
pub proof fn lemma_highest_committable(
    log: Seq<LogEntry>,
    match_index: Seq<LogEntryIndex>,
    term: TermId,
)
    requires
        strictly_ascending(log),
    ensures
        highest_committable(log, match_index, term) == 0 || committable(
            log,
            match_index,
            term,
            highest_committable(log, match_index, term),
        ),
        forall|index: LogEntryIndex| #[trigger]
            committable(log, match_index, term, index) ==> index <= highest_committable(
                log,
                match_index,
                term,
            ),
    decreases log.len(),
{
    let h = highest_committable(log, match_index, term);
    if log.len() == 0 {
        assert forall|index: LogEntryIndex| #[trigger]
            committable(log, match_index, term, index) implies index <= h by {
            assert(!holds(log, LogEntryId { index, term }));
        }
    } else if decides(log.last(), match_index, term) {
        let last = log.len() - 1;
        assert(log[last].id() == (LogEntryId { index: h, term }));
        assert forall|index: LogEntryIndex| #[trigger]
            committable(log, match_index, term, index) implies index <= h by {
            let i = choose|i: int|
                0 <= i < log.len() && #[trigger] log[i].id() == (LogEntryId { index, term });
            if i < last {
                assert(log[i].index < log[last].index);
            }
        }
    } else {
        let shorter = log.drop_last();
        lemma_highest_committable(shorter, match_index, term);
        if h != 0 {
            let i = choose|i: int|
                0 <= i < shorter.len() && #[trigger] shorter[i].id() == (LogEntryId {
                    index: h,
                    term,
                });
            assert(log[i].id() == (LogEntryId { index: h, term }));
        }
        assert forall|index: LogEntryIndex| #[trigger]
            committable(log, match_index, term, index) implies index <= h by {
            let i = choose|i: int|
                0 <= i < log.len() && #[trigger] log[i].id() == (LogEntryId { index, term });
            assert(i < log.len() - 1);
            assert(shorter[i].id() == (LogEntryId { index, term }));
            assert(committable(shorter, match_index, term, index));
        }
    }
}

/// The leader gives way to the newer term `term` and follows.
pub open spec fn leader_steps_down(node: NodeView, term: TermId) -> RoleView {
    RoleView::Follower(NodeView { persistent: node.persistent.with_new_term(term), ..node })
}

/// The leader gives way to the newer term `term`, follows, and votes for
/// `candidate`.
pub open spec fn leader_steps_down_for(node: NodeView, term: TermId, candidate: ServerId) -> RoleView {
    RoleView::Follower(NodeView { persistent: node.persistent.with_vote(term, candidate), ..node })
}

/// What a vote request does to a leader. Only a newer term moves it: it
/// gives way, and, as the vote of the older term counts no more, grants the
/// vote if the requester's log is at least as up to date as its own.
pub open spec fn leader_on_vote_request(
    node: NodeView,
    progress: LeaderView,
    term: TermId,
    candidate: ServerId,
    last_log: LogEntryId,
) -> TransitionView {
    if term > node.persistent.current_term {
        if node.persistent.accept_log(last_log) {
            answered_vote(node, leader_steps_down_for(node, term, candidate), true)
        } else {
            answered_vote(node, leader_steps_down(node, term), false)
        }
    } else {
        answered_vote(node, RoleView::Leader(node, progress), false)
    }
}

/// The leader gives way to the leader of the newer term `term` and takes
/// its batch in.
pub open spec fn leader_follows_with_logs(
    node: NodeView,
    term: TermId,
    leader: ServerId,
    prev_log: LogEntryId,
    entries: Seq<LogEntry>,
    commit_idx: LogEntryIndex,
) -> RoleView {
    RoleView::Follower(
        NodeView {
            persistent: node.persistent.with_new_term(term).with_log_entries(prev_log, entries),
            volatile: node.volatile.with_commit_index(commit_target(commit_idx, prev_log, entries)),
            internal: node.internal.with_leader(leader),
        },
    )
}

/// The leader gives way to the leader of the newer term `term`, but its log
/// does not accept the entry that the batch was sent to follow.
pub open spec fn leader_follows(node: NodeView, term: TermId, leader: ServerId) -> RoleView {
    RoleView::Follower(
        NodeView {
            persistent: node.persistent.with_new_term(term),
            volatile: node.volatile,
            internal: node.internal.with_leader(leader),
        },
    )
}

/// What an append-entries request does to a leader. Only a newer term moves
/// it: it follows the other leader, and takes the batch in if its log
/// accepts the entry that the batch was sent to follow.
pub open spec fn leader_on_append_entries(
    node: NodeView,
    progress: LeaderView,
    term: TermId,
    leader: ServerId,
    prev_log: LogEntryId,
    entries: Seq<LogEntry>,
    commit_idx: LogEntryIndex,
) -> TransitionView {
    if term > node.persistent.current_term {
        if node.persistent.accept_log(prev_log) {
            answered_append(
                node,
                leader_follows_with_logs(node, term, leader, prev_log, entries, commit_idx),
                true,
            )
        } else {
            answered_append(node, leader_follows(node, term, leader), false)
        }
    } else {
        answered_append(node, RoleView::Leader(node, progress), false)
    }
}

/// The leader after `server_id` confirmed a batch: the server holds the
/// whole log, and the commit index rises to the last entry of the leader's
/// own term that more than half of the servers hold, if that is further.
pub open spec fn leader_after_success(
    node: NodeView,
    progress: LeaderView,
    server_id: ServerId,
) -> RoleView {
    let progress = progress.acked(server_id as int, node.persistent.last_id().index);
    let commit = highest_committable(
        node.persistent.log,
        progress.match_index,
        node.persistent.current_term,
    );
    RoleView::Leader(
        NodeView { volatile: node.volatile.with_commit_index(commit), ..node },
        progress,
    )
}

/// What the answer of `server_id` to a batch does to a leader. An answer
/// from a newer term makes it a follower. A success is noted and may raise
/// the commit index; after a failure the next batch for that server starts
/// one entry earlier.
pub open spec fn leader_on_append_response(
    node: NodeView,
    progress: LeaderView,
    term: TermId,
    success: bool,
    server_id: ServerId,
) -> Result<TransitionView, TransitionError> {
    if term > node.persistent.current_term {
        Ok(unanswered(node, leader_steps_down(node, term)))
    } else if success {
        if node.persistent.last_id().index == LogEntryIndex::MAX {
            Err(TransitionError::Overflow)
        } else {
            Ok(unanswered(node, leader_after_success(node, progress, server_id)))
        }
    } else {
        Ok(unanswered(node, RoleView::Leader(node, progress.nacked(server_id as int))))
    }
}

/// What an event does to a leader with the state `node` and the progress
/// `progress`. A leader runs no election timer and has asked for no vote, so
/// a timeout and an answer to a vote request are violations of the protocol.
pub open spec fn leader_step(node: NodeView, progress: LeaderView, event: StateEvent) -> Result<
    TransitionView,
    TransitionError,
> {
    match event {
        StateEvent::Timeout(_) => Err(TransitionError::ProtocolViolation),
        StateEvent::VoteRequest { term, candidate, last_log } => Ok(
            leader_on_vote_request(node, progress, term, candidate, last_log),
        ),
        StateEvent::VoteResponse { .. } => Err(TransitionError::ProtocolViolation),
        StateEvent::AppendEntriesRequest { term, leader, prev_log, entries, commit_idx } => Ok(
            leader_on_append_entries(node, progress, term, leader, prev_log, entries@, commit_idx),
        ),
        StateEvent::AppendEntriesResponse { term, success, server_id } => leader_on_append_response(
            node,
            progress,
            term,
            success,
            server_id,
        ),
    }
}

/// Finds the index of the last entry of `log` that a leader in `term` may
/// commit; 0 if there is none.
pub fn commit_point(log: &Vec<LogEntry>, match_index: &Vec<LogEntryIndex>, term: TermId) -> (c:
    LogEntryIndex)
    ensures
        c == highest_committable(log@, match_index@, term),
{
    let num_valid: usize = match_index.len() / 2 + 1;
    let mut k: usize = log.len();
    assert(log@.take(k as int) == log@);
    while k > 0
        invariant
            k <= log.len(),
            num_valid == quorum(match_index@.len()),
            highest_committable(log@, match_index@, term) == highest_committable(
                log@.take(k as int),
                match_index@,
                term,
            ),
        decreases k,
    {
        let entry = &log[k - 1];
        assert(log@.take(k as int).last() == *entry);
        if entry.term == term && count_replicas(match_index, entry.index) >= num_valid {
            return entry.index;
        }
        assert(log@.take(k as int).drop_last() == log@.take(k - 1));
        k = k - 1;
    }
    0
}

/// The server that replicates its log to the others and decides what is
/// committed.
pub struct Leader {
    persistent: PersistentState,
    volatile: ServerVolatileState,
    leader_volatile: LeaderVolatileState,
    internal: InternalState,
}

impl View for Leader {
    type V = (NodeView, LeaderView);

    closed spec fn view(&self) -> (NodeView, LeaderView) {
        (
            NodeView {
                persistent: self.persistent@,
                volatile: self.volatile,
                internal: self.internal@,
            },
            self.leader_volatile@,
        )
    }
}

impl Leader {
    /// A leader runs no election, and its progress fits its roster and its
    /// log.
    #[verifier::type_invariant]
    spec fn sound_progress(self) -> bool {
        leader_wf(self@.0, self@.1)
    }

    /// The leader that an election has made of a server with the given
    /// state.
    pub(crate) fn elected(
        persistent: PersistentState,
        volatile: ServerVolatileState,
        internal: InternalState,
    ) -> (l: Leader)
        requires
            volatile.last_applied < LogEntryIndex::MAX,
            internal@.voting is None,
        ensures
            l@ == (
                NodeView { persistent: persistent@, volatile, internal: internal@ },
                LeaderView::fresh(volatile.last_applied, internal@.servers.len()),
            ),
    {
        let leader_volatile = LeaderVolatileState::new(
            volatile.last_applied,
            internal.servers().len(),
        );
        Leader { persistent, volatile, leader_volatile, internal }
    }

    /// The durable state.
    pub fn persistent(&self) -> (p: &PersistentState)
        ensures
            p@ == self@.0.persistent,
    {
        &self.persistent
    }

    /// The volatile state.
    pub fn volatile(&self) -> (v: ServerVolatileState)
        ensures
            v == self@.0.volatile,
    {
        self.volatile
    }

    /// How far each server has come. There is one place for each server of
    /// the roster, and no server is ahead of the leader's log.
    pub fn leader_volatile(&self) -> (l: &LeaderVolatileState)
        ensures
            l@ == self@.1,
            leader_wf(self@.0, self@.1),
    {
        proof {
            use_type_invariant(self);
        }
        &self.leader_volatile
    }

    /// What the server knows of the cluster. No election is under way.
    pub fn internal(&self) -> (i: &InternalState)
        ensures
            i@ == self@.0.internal,
            i@.voting is None,
    {
        proof {
            use_type_invariant(self);
        }
        &self.internal
    }

    /// The current term.
    pub fn term(&self) -> (t: TermId)
        ensures
            t == self@.0.persistent.current_term,
    {
        self.persistent.term()
    }

    /// Applies an event. A message from a newer term makes the leader a
    /// follower; requests from its own or an older term are refused; answers
    /// to its batches move the progress of the answering server and the
    /// commit index. A timeout or an answer to a vote request, which a
    /// leader never made, is an error.
    pub fn on_events(self, event: StateEvent) -> (r: Result<Transition, TransitionError>)
        ensures
            refines(r, leader_step(self@.0, self@.1, event)),
    {
        match event {
            StateEvent::Timeout(_) => Err(TransitionError::ProtocolViolation),
            StateEvent::VoteRequest { term, candidate, last_log } => {
                if self.accept_vote(term, &last_log) {
                    Ok(self.become_follower_and_vote_for(term, candidate))
                } else if term > self.term() {
                    Ok(self.become_follower_and_refuse(term))
                } else {
                    Ok(self.deny_vote())
                }
            },
            StateEvent::VoteResponse { .. } => Err(TransitionError::ProtocolViolation),
            StateEvent::AppendEntriesRequest { term, leader, prev_log, entries, commit_idx } => {
                let is_new_leader = term > self.term();
                let accept_logs = self.accept_logs(&prev_log);
                if is_new_leader && accept_logs {
                    Ok(
                        self.become_follower_on_new_leader_with_logs(
                            term,
                            leader,
                            prev_log,
                            entries,
                            commit_idx,
                        ),
                    )
                } else if is_new_leader {
                    Ok(self.become_follower_on_new_leader(term, leader))
                } else {
                    Ok(self.deny_logs())
                }
            },
            StateEvent::AppendEntriesResponse { term, success, server_id } => {
                if term > self.term() {
                    Ok(self.become_follower(term))
                } else if success {
                    if self.persistent.last_log_id().index == LogEntryIndex::MAX {
                        Err(TransitionError::Overflow)
                    } else {
                        Ok(self.with_success(server_id))
                    }
                } else {
                    Ok(self.with_failure(server_id))
                }
            },
        }
    }

    /// Hands out the state that every role carries. No election is under
    /// way in it.
    pub(crate) fn into_parts(self) -> (parts: (PersistentState, ServerVolatileState, InternalState))
        ensures
            parts.0@ == self@.0.persistent,
            parts.1 == self@.0.volatile,
            parts.2@ == self@.0.internal,
            parts.2@.voting is None,
    {
        proof {
            use_type_invariant(&self);
        }
        (self.persistent, self.volatile, self.internal)
    }

    /// Tells whether the leader gives way and votes for a candidate that runs
    /// in `term` with a log that ends in `last_log`.
    fn accept_vote(&self, term: TermId, last_log: &LogEntryId) -> (b: bool)
        ensures
            b == (term > self@.0.persistent.current_term && self@.0.persistent.accept_log(
                *last_log,
            )),
    {
        term > self.term() && self.persistent.accept_log(last_log)
    }

    /// Tells whether a batch after `prev_log` is taken in.
    fn accept_logs(&self, prev_log: &LogEntryId) -> (b: bool)
        ensures
            b == self@.0.persistent.accept_log(*prev_log),
    {
        self.persistent.accept_log(prev_log)
    }

    /// Gives way to the newer term `term`, follows, and votes for
    /// `candidate`.
    fn become_follower_and_vote_for(self, term: TermId, candidate: ServerId) -> (t: Transition)
        ensures
            t@ == answered_vote(self@.0, leader_steps_down_for(self@.0, term, candidate), true),
    {
        proof {
            use_type_invariant(&self);
        }
        let ghost node = self@.0;
        let Leader { persistent, volatile, leader_volatile: _, internal } = self;
        let before = Before::of(&persistent, Ghost(node));
        let follower = Follower::new(persistent.with_vote(term, candidate), volatile, internal);
        before.answer_vote(StateMachine::Follower(follower), true, false)
    }

    /// Gives way to the newer term `term` and follows.
    fn become_follower(self, term: TermId) -> (t: Transition)
        ensures
            t@ == unanswered(self@.0, leader_steps_down(self@.0, term)),
    {
        proof {
            use_type_invariant(&self);
        }
        let ghost node = self@.0;
        let Leader { persistent, volatile, leader_volatile: _, internal } = self;
        let before = Before::of(&persistent, Ghost(node));
        let follower = Follower::new(persistent.with_new_term(term), volatile, internal);
        before.no_answer(StateMachine::Follower(follower), false)
    }

    /// Gives way to the newer term `term`, follows, and refuses the vote
    /// that was asked for.
    fn become_follower_and_refuse(self, term: TermId) -> (t: Transition)
        ensures
            t@ == answered_vote(self@.0, leader_steps_down(self@.0, term), false),
    {
        proof {
            use_type_invariant(&self);
        }
        let ghost node = self@.0;
        let Leader { persistent, volatile, leader_volatile: _, internal } = self;
        let before = Before::of(&persistent, Ghost(node));
        let follower = Follower::new(persistent.with_new_term(term), volatile, internal);
        before.answer_vote(StateMachine::Follower(follower), false, false)
    }

    /// Refuses a vote.
    fn deny_vote(self) -> (t: Transition)
        ensures
            t@ == answered_vote(self@.0, RoleView::Leader(self@.0, self@.1), false),
    {
        let before = Before::of(&self.persistent, Ghost(self@.0));
        before.answer_vote(StateMachine::Leader(self), false, false)
    }

    /// Gives way to the leader of the newer term `term` and takes its batch
    /// in.
    fn become_follower_on_new_leader_with_logs(
        self,
        term: TermId,
        leader: ServerId,
        prev_log: LogEntryId,
        entries: Vec<LogEntry>,
        leader_commit: LogEntryIndex,
    ) -> (t: Transition)
        ensures
            t@ == answered_append(
                self@.0,
                leader_follows_with_logs(self@.0, term, leader, prev_log, entries@, leader_commit),
                true,
            ),
    {
        let ghost node = self@.0;
        let Leader { persistent, volatile, leader_volatile: _, internal } = self;
        let before = Before::of(&persistent, Ghost(node));
        let commit = commit_target_of(leader_commit, &prev_log, &entries);
        let (persistent, changed) = persistent.with_new_term(term).take_entries(prev_log, entries);
        let follower = Follower::new(
            persistent,
            volatile.with_commit_index(commit),
            internal.with_leader(leader),
        );
        before.answer_append(StateMachine::Follower(follower), true, changed)
    }

    /// Gives way to the leader of the newer term `term`; the log does not
    /// accept the entry that the batch was sent to follow.
    fn become_follower_on_new_leader(self, term: TermId, leader: ServerId) -> (t: Transition)
        ensures
            t@ == answered_append(self@.0, leader_follows(self@.0, term, leader), false),
    {
        let ghost node = self@.0;
        let Leader { persistent, volatile, leader_volatile: _, internal } = self;
        let before = Before::of(&persistent, Ghost(node));
        let follower = Follower::new(
            persistent.with_new_term(term),
            volatile,
            internal.with_leader(leader),
        );
        before.answer_append(StateMachine::Follower(follower), false, false)
    }

    /// Refuses a batch.
    fn deny_logs(self) -> (t: Transition)
        ensures
            t@ == answered_append(self@.0, RoleView::Leader(self@.0, self@.1), false),
    {
        let before = Before::of(&self.persistent, Ghost(self@.0));
        before.answer_append(StateMachine::Leader(self), false, false)
    }

    /// Notes that `server_id` holds the whole log, and commits what more
    /// than half of the servers hold of the current term.
    fn with_success(self, server_id: ServerId) -> (t: Transition)
        requires
            self@.0.persistent.last_id().index < LogEntryIndex::MAX,
        ensures
            t@ == unanswered(self@.0, leader_after_success(self@.0, self@.1, server_id)),
    {
        proof {
            use_type_invariant(&self);
        }
        let ghost node = self@.0;
        let Leader { persistent, volatile, leader_volatile, internal } = self;
        let before = Before::of(&persistent, Ghost(node));
        let last: LogEntryIndex = persistent.last_log_id().index;
        let leader_volatile = leader_volatile.with_success(server_id, last);
        let commit = commit_point(persistent.log(), &leader_volatile.match_index, persistent.term());
        let leader = Leader {
            persistent,
            volatile: volatile.with_commit_index(commit),
            leader_volatile,
            internal,
        };
        before.no_answer(StateMachine::Leader(leader), false)
    }

    /// Notes that `server_id` refused a batch.
    fn with_failure(self, server_id: ServerId) -> (t: Transition)
        ensures
            t@ == unanswered(
                self@.0,
                RoleView::Leader(self@.0, self@.1.nacked(server_id as int)),
            ),
    {
        proof {
            use_type_invariant(&self);
        }
        let ghost node = self@.0;
        let Leader { persistent, volatile, leader_volatile, internal } = self;
        let before = Before::of(&persistent, Ghost(node));
        let leader = Leader {
            persistent,
            volatile,
            leader_volatile: leader_volatile.with_failure(server_id),
            internal,
        };
        before.no_answer(StateMachine::Leader(leader), false)
    }
}

} // verus!
