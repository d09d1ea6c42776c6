//! The role of a server that follows a leader, or waits for one.

use super::{
    answered_append, answered_vote, commit_target, commit_target_of, refines, unanswered, Before,
    Candidate, NodeView, RoleView, StateMachine, Transition, TransitionError, TransitionView,
};
use crate::state_machine::events::StateEvent;
use crate::state_machine::states::{
    InternalState, LogEntry, LogEntryId, LogEntryIndex, PersistentState, ServerId,
    ServerVolatileState, TermId,
};
use vstd::prelude::*;

verus! {

/// A message in `term` tells a follower with the state `node` of a leader
/// it has not heard of: the term is newer, or it is the current one and no
/// leader is known.
pub open spec fn follower_accepts_leader(node: NodeView, term: TermId) -> bool {
    term > node.persistent.current_term || (term == node.persistent.current_term
        && node.internal.leader is None)
}

/// A follower with the state `node` takes in a batch after `prev_log` from
/// a leader in `term`: the term is not behind, and the log accepts
/// `prev_log`.
pub open spec fn follower_accepts_logs(node: NodeView, term: TermId, prev_log: LogEntryId) -> bool {
    term >= node.persistent.current_term && node.persistent.accept_log(prev_log)
}

/// What a timeout does to a follower: it moves to the next term and begins
/// an election with its own vote.
pub open spec fn follower_on_timeout(node: NodeView) -> Result<TransitionView, TransitionError> {
    if node.persistent.current_term == TermId::MAX {
        Err(TransitionError::Overflow)
    } else {
        Ok(
            unanswered(
                node,
                RoleView::Candidate(
                    NodeView {
                        persistent: node.persistent.incr_term(),
                        volatile: node.volatile,
                        internal: node.internal.start_voting(),
                    },
                ),
            ),
        )
    }
}

/// The follower moves to `term`, votes for `candidate`, and says so.
pub open spec fn follower_votes(node: NodeView, term: TermId, candidate: ServerId) -> TransitionView {
    answered_vote(
        node,
        RoleView::Follower(
            NodeView {
                persistent: node.persistent.with_new_term(term).with_vote_for(candidate),
                ..node
            },
        ),
        true,
    )
}

/// The follower moves to `term` and refuses its vote.
pub open spec fn follower_moves_to(node: NodeView, term: TermId) -> TransitionView {
    answered_vote(
        node,
        RoleView::Follower(NodeView { persistent: node.persistent.with_new_term(term), ..node }),
        false,
    )
}

/// The follower refuses its vote and stays as it is.
pub open spec fn follower_denies_vote(node: NodeView) -> TransitionView {
    answered_vote(node, RoleView::Follower(node), false)
}

/// What a vote request does to a follower: it grants the vote if it can; if
/// not, it still moves to a newer term.
pub open spec fn follower_on_vote_request(
    node: NodeView,
    term: TermId,
    candidate: ServerId,
    last_log: LogEntryId,
) -> TransitionView {
    if node.persistent.can_vote(term, candidate, last_log) {
        follower_votes(node, term, candidate)
    } else if node.persistent.accept_term(term) {
        follower_moves_to(node, term)
    } else {
        follower_denies_vote(node)
    }
}

/// The follower moves to `term` if that is newer, takes the batch in, commits
/// as far as the leader and the batch allow, notes the leader, and reports
/// success.
pub open spec fn follower_follows_with_logs(
    node: NodeView,
    term: TermId,
    leader: ServerId,
    prev_log: LogEntryId,
    entries: Seq<LogEntry>,
    commit_idx: LogEntryIndex,
) -> TransitionView {
    answered_append(
        node,
        RoleView::Follower(
            NodeView {
                persistent: node.persistent.adopt_term(term).with_log_entries(prev_log, entries),
                volatile: node.volatile.with_commit_index(
                    commit_target(commit_idx, prev_log, entries),
                ),
                internal: node.internal.with_leader(leader),
            },
        ),
        true,
    )
}

/// The follower takes the batch in, commits as far as the leader and the
/// batch allow, and reports success.
pub open spec fn follower_appends(
    node: NodeView,
    prev_log: LogEntryId,
    entries: Seq<LogEntry>,
    commit_idx: LogEntryIndex,
) -> TransitionView {
    answered_append(
        node,
        RoleView::Follower(
            NodeView {
                persistent: node.persistent.with_log_entries(prev_log, entries),
                volatile: node.volatile.with_commit_index(
                    commit_target(commit_idx, prev_log, entries),
                ),
                internal: node.internal,
            },
        ),
        true,
    )
}

/// The follower moves to `term` if that is newer and notes the leader, but
/// takes no entry in and reports failure.
pub open spec fn follower_follows(node: NodeView, term: TermId, leader: ServerId) -> TransitionView {
    answered_append(
        node,
        RoleView::Follower(
            NodeView {
                persistent: node.persistent.adopt_term(term),
                volatile: node.volatile,
                internal: node.internal.with_leader(leader),
            },
        ),
        false,
    )
}

/// The follower reports failure and stays as it is.
pub open spec fn follower_denies_logs(node: NodeView) -> TransitionView {
    answered_append(node, RoleView::Follower(node), false)
}

/// What an append-entries request does to a follower.
pub open spec fn follower_on_append_entries(
    node: NodeView,
    term: TermId,
    leader: ServerId,
    prev_log: LogEntryId,
    entries: Seq<LogEntry>,
    commit_idx: LogEntryIndex,
) -> TransitionView {
    let is_new_leader = follower_accepts_leader(node, term);
    let accept_logs = follower_accepts_logs(node, term, prev_log);
    if is_new_leader && accept_logs {
        follower_follows_with_logs(node, term, leader, prev_log, entries, commit_idx)
    } else if accept_logs {
        follower_appends(node, prev_log, entries, commit_idx)
    } else if is_new_leader {
        follower_follows(node, term, leader)
    } else {
        follower_denies_logs(node)
    }
}

/// What an event does to a follower with the state `node`. A follower has
/// asked nobody for anything, so an answer is a violation of the protocol.
pub open spec fn follower_step(node: NodeView, event: StateEvent) -> Result<
    TransitionView,
    TransitionError,
> {
    match event {
        StateEvent::Timeout(_) => follower_on_timeout(node),
        StateEvent::VoteRequest { term, candidate, last_log } => Ok(
            follower_on_vote_request(node, term, candidate, last_log),
        ),
        StateEvent::VoteResponse { .. } => Err(TransitionError::ProtocolViolation),
        StateEvent::AppendEntriesRequest { term, leader, prev_log, entries, commit_idx } => Ok(
            follower_on_append_entries(node, term, leader, prev_log, entries@, commit_idx),
        ),
        StateEvent::AppendEntriesResponse { .. } => Err(TransitionError::ProtocolViolation),
    }
}

/// A server that answers candidates and leaders, and starts an election
/// when it hears of none for too long.
pub struct Follower {
    persistent: PersistentState,
    volatile: ServerVolatileState,
    internal: InternalState,
}

impl View for Follower {
    type V = NodeView;

    closed spec fn view(&self) -> NodeView {
        NodeView {
            persistent: self.persistent@,
            volatile: self.volatile,
            internal: self.internal@,
        }
    }
}

impl Follower {
    /// A follower runs no election.
    #[verifier::type_invariant]
    spec fn runs_no_election(self) -> bool {
        self.internal@.voting is None
    }

    /// A follower with the given state, in which no election is under way.
    pub fn new(persistent: PersistentState, volatile: ServerVolatileState, internal: InternalState) -> (f:
        Follower)
        requires
            internal@.voting is None,
        ensures
            f@ == (NodeView { persistent: persistent@, volatile, internal: internal@ }),
    {
        Follower { persistent, volatile, internal }
    }

    /// The durable state.
    pub fn persistent(&self) -> (p: &PersistentState)
        ensures
            p@ == self@.persistent,
    {
        &self.persistent
    }

    /// The volatile state.
    pub fn volatile(&self) -> (v: ServerVolatileState)
        ensures
            v == self@.volatile,
    {
        self.volatile
    }

    /// What the server knows of the cluster. No election is under way.
    pub fn internal(&self) -> (i: &InternalState)
        ensures
            i@ == self@.internal,
            i@.voting is None,
    {
        proof {
            use_type_invariant(self);
        }
        &self.internal
    }

    /// The current term.
    pub fn term(&self) -> (t: TermId)
        ensures
            t == self@.persistent.current_term,
    {
        self.persistent.term()
    }

    /// Applies an event. On a timeout the follower becomes a candidate; a
    /// request is answered and leaves it a follower; an answer to a request
    /// that a follower never made is an error.
    pub fn on_events(self, event: StateEvent) -> (r: Result<Transition, TransitionError>)
        ensures
            refines(r, follower_step(self@, event)),
    {
        match event {
            StateEvent::Timeout(_) => self.become_candidate(),
            StateEvent::VoteRequest { term, candidate, last_log } => {
                if self.accept_vote(term, candidate, &last_log) {
                    Ok(self.vote_for(term, candidate))
                } else if self.persistent.accept_term(term) {
                    Ok(self.new_term(term))
                } else {
                    Ok(self.deny_vote())
                }
            },
            StateEvent::VoteResponse { .. } => Err(TransitionError::ProtocolViolation),
            StateEvent::AppendEntriesRequest { term, leader, prev_log, entries, commit_idx } => {
                let is_new_leader = self.accept_new_leader(term);
                let accept_logs = self.accept_logs(term, &prev_log);
                if is_new_leader && accept_logs {
                    Ok(self.new_leader_with_logs(term, leader, prev_log, entries, commit_idx))
                } else if accept_logs {
                    Ok(self.append_logs(prev_log, entries, commit_idx))
                } else if is_new_leader {
                    Ok(self.new_leader(term, leader))
                } else {
                    Ok(self.deny_logs())
                }
            },
            StateEvent::AppendEntriesResponse { .. } => Err(TransitionError::ProtocolViolation),
        }
    }

    /// Moves to the next term and begins an election, unless the term is
    /// the last one.
    pub(crate) fn become_candidate(self) -> (r: Result<Transition, TransitionError>)
        ensures
            refines(r, follower_on_timeout(self@)),
    {
        proof {
            use_type_invariant(&self);
        }
        let ghost node = self@;
        let Follower { persistent, volatile, internal } = self;
        if persistent.term() == TermId::MAX {
            return Err(TransitionError::Overflow);
        }
        let before = Before::of(&persistent, Ghost(node));
        let candidate = Candidate::new(persistent.incr_term(), volatile, internal.start_voting());
        Ok(before.no_answer(StateMachine::Candidate(candidate), false))
    }

    /// Hands out the state.
    pub(crate) fn into_parts(self) -> (parts: (PersistentState, ServerVolatileState, InternalState))
        ensures
            parts.0@ == self@.persistent,
            parts.1 == self@.volatile,
            parts.2@ == self@.internal,
    {
        (self.persistent, self.volatile, self.internal)
    }

    /// Moves to `term` without a vote.
    fn new_term(self, term: TermId) -> (t: Transition)
        ensures
            t@ == follower_moves_to(self@, term),
    {
        proof {
            use_type_invariant(&self);
        }
        let ghost node = self@;
        let Follower { persistent, volatile, internal } = self;
        let before = Before::of(&persistent, Ghost(node));
        let follower = Follower { persistent: persistent.with_new_term(term), volatile, internal };
        before.answer_vote(StateMachine::Follower(follower), false, false)
    }

    /// Moves to `term` and votes for `candidate`.
    fn vote_for(self, term: TermId, candidate: ServerId) -> (t: Transition)
        ensures
            t@ == follower_votes(self@, term, candidate),
    {
        proof {
            use_type_invariant(&self);
        }
        let ghost node = self@;
        let Follower { persistent, volatile, internal } = self;
        let before = Before::of(&persistent, Ghost(node));
        let follower = Follower {
            persistent: persistent.with_new_term(term).with_vote_for(candidate),
            volatile,
            internal,
        };
        before.answer_vote(StateMachine::Follower(follower), true, false)
    }

    /// Refuses a vote.
    fn deny_vote(self) -> (t: Transition)
        ensures
            t@ == follower_denies_vote(self@),
    {
        let before = Before::of(&self.persistent, Ghost(self@));
        before.answer_vote(StateMachine::Follower(self), false, false)
    }

    /// Tells whether a message in `term` comes from a leader that this
    /// follower has not heard of.
    fn accept_new_leader(&self, term: TermId) -> (b: bool)
        ensures
            b == follower_accepts_leader(self@, term),
    {
        term > self.persistent.term() || (term == self.persistent.term()
            && self.internal.leader().is_none())
    }

    /// Tells whether the vote may go to `candidate`.
    fn accept_vote(&self, term: TermId, candidate: ServerId, last_log: &LogEntryId) -> (b: bool)
        ensures
            b == self@.persistent.can_vote(term, candidate, *last_log),
    {
        self.persistent.can_vote(term, candidate, last_log.index, last_log.term)
    }

    /// Tells whether a batch after `prev_log`, sent in `term`, is taken in.
    fn accept_logs(&self, term: TermId, prev_log: &LogEntryId) -> (b: bool)
        ensures
            b == follower_accepts_logs(self@, term, *prev_log),
    {
        term >= self.persistent.term() && self.persistent.accept_log(prev_log)
    }

    /// Follows the leader of `term` and takes its batch in.
    fn new_leader_with_logs(
        self,
        term: TermId,
        leader: ServerId,
        prev_log: LogEntryId,
        entries: Vec<LogEntry>,
        commit_idx: LogEntryIndex,
    ) -> (t: Transition)
        ensures
            t@ == follower_follows_with_logs(self@, term, leader, prev_log, entries@, commit_idx),
    {
        proof {
            use_type_invariant(&self);
        }
        let ghost node = self@;
        let Follower { persistent, volatile, internal } = self;
        let before = Before::of(&persistent, Ghost(node));
        let commit = commit_target_of(commit_idx, &prev_log, &entries);
        let (persistent, changed) = persistent.adopt_term(term).take_entries(prev_log, entries);
        let follower = Follower {
            persistent,
            volatile: volatile.with_commit_index(commit),
            internal: internal.with_leader(leader),
        };
        before.answer_append(StateMachine::Follower(follower), true, changed)
    }

    /// Takes a batch in.
    fn append_logs(self, prev_log: LogEntryId, entries: Vec<LogEntry>, commit_idx: LogEntryIndex) -> (t:
        Transition)
        ensures
            t@ == follower_appends(self@, prev_log, entries@, commit_idx),
    {
        proof {
            use_type_invariant(&self);
        }
        let ghost node = self@;
        let Follower { persistent, volatile, internal } = self;
        let before = Before::of(&persistent, Ghost(node));
        let commit = commit_target_of(commit_idx, &prev_log, &entries);
        let (persistent, changed) = persistent.take_entries(prev_log, entries);
        let follower = Follower { persistent, volatile: volatile.with_commit_index(commit), internal };
        before.answer_append(StateMachine::Follower(follower), true, changed)
    }

    /// Follows the leader of `term`; the log does not accept the entry that
    /// the batch was sent to follow.
    fn new_leader(self, term: TermId, leader: ServerId) -> (t: Transition)
        ensures
            t@ == follower_follows(self@, term, leader),
    {
        proof {
            use_type_invariant(&self);
        }
        let ghost node = self@;
        let Follower { persistent, volatile, internal } = self;
        let before = Before::of(&persistent, Ghost(node));
        let follower = Follower {
            persistent: persistent.adopt_term(term),
            volatile,
            internal: internal.with_leader(leader),
        };
        before.answer_append(StateMachine::Follower(follower), false, false)
    }

    /// Refuses a batch.
    fn deny_logs(self) -> (t: Transition)
        ensures
            t@ == follower_denies_logs(self@),
    {
        let before = Before::of(&self.persistent, Ghost(self@));
        before.answer_append(StateMachine::Follower(self), false, false)
    }
}

} // verus!
