//! The role of a server that runs an election.

use super::{
    answered_append, answered_vote, commit_target, commit_target_of, refines, unanswered, Before,
    Follower, Leader, NodeView, RoleView, StateMachine, Transition, TransitionError, TransitionView,
};
use crate::rpc::vote::VoteRequest;
use crate::state_machine::events::StateEvent;
use crate::state_machine::states::{
    InternalState, LeaderView, LogEntry, LogEntryId, LogEntryIndex, PersistentState, ServerId,
    ServerVolatileState, TermId, VoteResult,
};
use vstd::prelude::*;

verus! {

/// What a timeout does to a candidate: the election has failed, and it runs
/// another one in the next term.
pub open spec fn candidate_on_timeout(node: NodeView) -> Result<TransitionView, TransitionError> {
    if node.persistent.current_term == TermId::MAX {
        Err(TransitionError::Overflow)
    } else {
        Ok(
            unanswered(
                node,
                RoleView::Candidate(
                    NodeView {
                        persistent: node.persistent.incr_term(),
                        volatile: node.volatile,
                        internal: node.internal.start_voting(),
                    },
                ),
            ),
        )
    }
}

/// The candidate gives up for the newer term `term` and follows.
pub open spec fn candidate_steps_down(node: NodeView, term: TermId) -> RoleView {
    RoleView::Follower(
        NodeView {
            persistent: node.persistent.with_new_term(term),
            volatile: node.volatile,
            internal: node.internal.clear_voting(),
        },
    )
}

/// The candidate gives up for the newer term `term`, follows, and votes for
/// `candidate`.
pub open spec fn candidate_steps_down_for(node: NodeView, term: TermId, candidate: ServerId) -> RoleView {
    RoleView::Follower(
        NodeView {
            persistent: node.persistent.with_vote(term, candidate),
            volatile: node.volatile,
            internal: node.internal.clear_voting(),
        },
    )
}

/// The candidate votes for `candidate` and goes on with its own election.
pub open spec fn candidate_votes(node: NodeView, term: TermId, candidate: ServerId) -> RoleView {
    RoleView::Candidate(
        NodeView { persistent: node.persistent.with_vote(term, candidate), ..node },
    )
}

/// What a vote request does to a candidate. A request from a newer term ends
/// its election: the vote of the older term counts no more, so the candidate
/// grants the vote if the requester's log is at least as up to date as its
/// own. A request from its own term it grants if it can, and goes on.
pub open spec fn candidate_on_vote_request(
    node: NodeView,
    term: TermId,
    candidate: ServerId,
    last_log: LogEntryId,
) -> TransitionView {
    if term > node.persistent.current_term {
        if node.persistent.accept_log(last_log) {
            answered_vote(node, candidate_steps_down_for(node, term, candidate), true)
        } else {
            answered_vote(node, candidate_steps_down(node, term), false)
        }
    } else if node.persistent.can_vote(term, candidate, last_log) {
        answered_vote(node, candidate_votes(node, term, candidate), true)
    } else {
        answered_vote(node, RoleView::Candidate(node), false)
    }
}

/// The election is won: the candidate leads, with fresh progress for every
/// server of the roster.
pub open spec fn candidate_wins(node: NodeView) -> RoleView {
    RoleView::Leader(
        NodeView { internal: node.internal.clear_voting(), ..node },
        LeaderView::fresh(node.volatile.last_applied, node.internal.servers.len()),
    )
}

/// What the state of the election does to a candidate: with a quorum of
/// agreeing servers it becomes the leader, and it waits otherwise.
pub open spec fn candidate_settles(node: NodeView) -> Result<TransitionView, TransitionError>
    recommends
        node.internal.voting is Some,
{
    if node.internal.vote_granted() is Agreed {
        if node.volatile.last_applied == LogEntryIndex::MAX {
            Err(TransitionError::Overflow)
        } else {
            Ok(unanswered(node, candidate_wins(node)))
        }
    } else {
        Ok(unanswered(node, RoleView::Candidate(node)))
    }
}

/// What the answer of `server_id` does to a candidate. An answer from a
/// newer term ends the election; any other is counted, and may decide it.
pub open spec fn candidate_on_vote_response(
    node: NodeView,
    term: TermId,
    vote_granted: bool,
    server_id: ServerId,
) -> Result<TransitionView, TransitionError>
    recommends
        node.internal.voting is Some,
{
    if term > node.persistent.current_term {
        Ok(unanswered(node, candidate_steps_down(node, term)))
    } else {
        candidate_settles(
            NodeView { internal: node.internal.with_vote(server_id, vote_granted), ..node },
        )
    }
}

/// The candidate follows the leader of `term` and takes its batch in.
pub open spec fn candidate_follows_with_logs(
    node: NodeView,
    term: TermId,
    leader: ServerId,
    prev_log: LogEntryId,
    entries: Seq<LogEntry>,
    commit_idx: LogEntryIndex,
) -> RoleView {
    RoleView::Follower(
        NodeView {
            persistent: node.persistent.adopt_term(term).with_log_entries(prev_log, entries),
            volatile: node.volatile.with_commit_index(commit_target(commit_idx, prev_log, entries)),
            internal: node.internal.with_leader(leader),
        },
    )
}

/// The candidate follows the leader of `term`, but its log does not accept
/// the entry that the batch was sent to follow.
pub open spec fn candidate_follows(node: NodeView, term: TermId, leader: ServerId) -> RoleView {
    RoleView::Follower(
        NodeView {
            persistent: node.persistent.adopt_term(term),
            volatile: node.volatile,
            internal: node.internal.with_leader(leader),
        },
    )
}

/// What an append-entries request does to a candidate. A leader of an older
/// term is refused. Any other has won: the candidate follows it, and takes
/// the batch in if its log accepts the entry that the batch was sent to
/// follow.
pub open spec fn candidate_on_append_entries(
    node: NodeView,
    term: TermId,
    leader: ServerId,
    prev_log: LogEntryId,
    entries: Seq<LogEntry>,
    commit_idx: LogEntryIndex,
) -> TransitionView {
    if term < node.persistent.current_term {
        answered_append(node, RoleView::Candidate(node), false)
    } else if node.persistent.accept_log(prev_log) {
        answered_append(
            node,
            candidate_follows_with_logs(node, term, leader, prev_log, entries, commit_idx),
            true,
        )
    } else {
        answered_append(node, candidate_follows(node, term, leader), false)
    }
}

/// What an event does to a candidate with the state `node`. A candidate has
/// sent no entries, so an answer to entries is a violation of the protocol.
pub open spec fn candidate_step(node: NodeView, event: StateEvent) -> Result<
    TransitionView,
    TransitionError,
>
    recommends
        node.internal.voting is Some,
{
    match event {
        StateEvent::Timeout(_) => candidate_on_timeout(node),
        StateEvent::VoteResponse { term, vote_granted, server_id } => candidate_on_vote_response(
            node,
            term,
            vote_granted,
            server_id,
        ),
        StateEvent::VoteRequest { term, candidate, last_log } => Ok(
            candidate_on_vote_request(node, term, candidate, last_log),
        ),
        StateEvent::AppendEntriesRequest { term, leader, prev_log, entries, commit_idx } => Ok(
            candidate_on_append_entries(node, term, leader, prev_log, entries@, commit_idx),
        ),
        StateEvent::AppendEntriesResponse { .. } => Err(TransitionError::ProtocolViolation),
    }
}

/// A server that has asked the others for their votes and counts the
/// answers.
pub struct Candidate {
    persistent: PersistentState,
    volatile: ServerVolatileState,
    internal: InternalState,
}

impl View for Candidate {
    type V = NodeView;

    closed spec fn view(&self) -> NodeView {
        NodeView {
            persistent: self.persistent@,
            volatile: self.volatile,
            internal: self.internal@,
        }
    }
}

impl Candidate {
    /// A candidate runs an election.
    #[verifier::type_invariant]
    spec fn runs_election(self) -> bool {
        self.internal@.voting is Some
    }

    /// A candidate with the given state, in which an election is under way.
    pub fn new(persistent: PersistentState, volatile: ServerVolatileState, internal: InternalState) -> (c:
        Candidate)
        requires
            internal@.voting is Some,
        ensures
            c@ == (NodeView { persistent: persistent@, volatile, internal: internal@ }),
    {
        Candidate { persistent, volatile, internal }
    }

    /// The durable state.
    pub fn persistent(&self) -> (p: &PersistentState)
        ensures
            p@ == self@.persistent,
    {
        &self.persistent
    }

    /// The volatile state.
    pub fn volatile(&self) -> (v: ServerVolatileState)
        ensures
            v == self@.volatile,
    {
        self.volatile
    }

    /// What the server knows of the cluster. An election is under way.
    pub fn internal(&self) -> (i: &InternalState)
        ensures
            i@ == self@.internal,
            i@.voting is Some,
    {
        proof {
            use_type_invariant(self);
        }
        &self.internal
    }

    /// The current term.
    pub fn term(&self) -> (t: TermId)
        ensures
            t == self@.persistent.current_term,
    {
        self.persistent.term()
    }

    /// The request for a vote that this candidate sends to the other
    /// servers: its term, its name, and where its log ends.
    pub fn vote_request(&self) -> (request: VoteRequest)
        ensures
            request == (VoteRequest {
                term: self@.persistent.current_term,
                candidate_id: self@.internal.id,
                last_log_index: self@.persistent.last_id().index,
                last_log_term: self@.persistent.last_id().term,
            }),
    {
        let last = self.persistent.last_log_id();
        VoteRequest {
            term: self.persistent.term(),
            candidate_id: self.internal.id(),
            last_log_index: last.index,
            last_log_term: last.term,
        }
    }

    /// Applies an event. A timeout starts the next election. Answers are
    /// counted, and a quorum of agreeing servers makes the candidate the
    /// leader. A newer term, or a leader of the current one, makes it a
    /// follower. An answer to entries, which a candidate never sent, is an
    /// error.
    pub fn on_events(self, event: StateEvent) -> (r: Result<Transition, TransitionError>)
        ensures
            refines(r, candidate_step(self@, event)),
    {
        match event {
            StateEvent::Timeout(_) => self.become_candidate(),
            StateEvent::VoteResponse { term, vote_granted, server_id } => {
                if term <= self.term() {
                    self.with_vote(vote_granted, server_id).become_leader()
                } else {
                    Ok(self.become_follower(term))
                }
            },
            StateEvent::VoteRequest { term, candidate, last_log } => {
                if term > self.term() {
                    if self.persistent.accept_log(&last_log) {
                        Ok(self.become_follower_and_vote_for(term, candidate))
                    } else {
                        Ok(self.become_follower_and_refuse(term))
                    }
                } else if self.accept_vote(term, candidate, &last_log) {
                    Ok(self.vote_for(term, candidate))
                } else {
                    Ok(self.deny_vote())
                }
            },
            StateEvent::AppendEntriesRequest { term, leader, prev_log, entries, commit_idx } => {
                if term < self.term() {
                    Ok(self.deny_logs())
                } else if self.accept_leader_state(&prev_log) {
                    Ok(
                        self.become_follower_on_new_leader_with_entries(
                            term,
                            leader,
                            prev_log,
                            entries,
                            commit_idx,
                        ),
                    )
                } else {
                    Ok(self.become_follower_on_new_leader(term, leader))
                }
            },
            StateEvent::AppendEntriesResponse { .. } => Err(TransitionError::ProtocolViolation),
        }
    }

    /// Takes the lead if a quorum has agreed, and waits otherwise. This is
    /// what follows each answer that was counted; a candidate that is a
    /// quorum by itself needs no answer at all.
    pub fn become_leader(self) -> (r: Result<Transition, TransitionError>)
        ensures
            refines(r, candidate_settles(self@)),
    {
        proof {
            use_type_invariant(&self);
        }
        let ghost node = self@;
        let before = Before::of(&self.persistent, Ghost(node));
        match self.internal.vote_granted() {
            VoteResult::Agreed(_) => {
                if self.volatile.last_applied == LogEntryIndex::MAX {
                    Err(TransitionError::Overflow)
                } else {
                    let Candidate { persistent, volatile, internal } = self;
                    let leader = Leader::elected(persistent, volatile, internal.clear_voting());
                    Ok(before.no_answer(StateMachine::Leader(leader), false))
                }
            },
            _ => Ok(before.no_answer(StateMachine::Candidate(self), false)),
        }
    }

    /// Tells whether the vote may go to `candidate`, who runs in a term that
    /// is not newer than this candidate's.
    fn accept_vote(&self, term: TermId, candidate: ServerId, last_log: &LogEntryId) -> (b: bool)
        ensures
            b == self@.persistent.can_vote(term, candidate, *last_log),
    {
        self.persistent.can_vote(term, candidate, last_log.index, last_log.term)
    }

    /// Counts the answer of `server_id`.
    fn with_vote(self, granted: bool, server_id: ServerId) -> (c: Candidate)
        ensures
            c@ == (NodeView { internal: self@.internal.with_vote(server_id, granted), ..self@ }),
    {
        proof {
            use_type_invariant(&self);
        }
        let Candidate { persistent, volatile, internal } = self;
        Candidate { persistent, volatile, internal: internal.with_vote(server_id, granted) }
    }

    /// Gives up for the newer term `term`, follows, and votes for
    /// `candidate_id`.
    fn become_follower_and_vote_for(self, term: TermId, candidate_id: ServerId) -> (t: Transition)
        ensures
            t@ == answered_vote(self@, candidate_steps_down_for(self@, term, candidate_id), true),
    {
        let ghost node = self@;
        let Candidate { persistent, volatile, internal } = self;
        let before = Before::of(&persistent, Ghost(node));
        let follower = Follower::new(
            persistent.with_vote(term, candidate_id),
            volatile,
            internal.clear_voting(),
        );
        before.answer_vote(StateMachine::Follower(follower), true, false)
    }

    /// Votes for `candidate_id` and goes on with the election.
    fn vote_for(self, term: TermId, candidate_id: ServerId) -> (t: Transition)
        ensures
            t@ == answered_vote(self@, candidate_votes(self@, term, candidate_id), true),
    {
        proof {
            use_type_invariant(&self);
        }
        let ghost node = self@;
        let Candidate { persistent, volatile, internal } = self;
        let before = Before::of(&persistent, Ghost(node));
        let candidate = Candidate {
            persistent: persistent.with_vote(term, candidate_id),
            volatile,
            internal,
        };
        before.answer_vote(StateMachine::Candidate(candidate), true, false)
    }

    /// Refuses a vote.
    fn deny_vote(self) -> (t: Transition)
        ensures
            t@ == answered_vote(self@, RoleView::Candidate(self@), false),
    {
        let before = Before::of(&self.persistent, Ghost(self@));
        before.answer_vote(StateMachine::Candidate(self), false, false)
    }

    /// Gives up for the newer term `term` and follows.
    fn become_follower(self, term: TermId) -> (t: Transition)
        ensures
            t@ == unanswered(self@, candidate_steps_down(self@, term)),
    {
        let ghost node = self@;
        let Candidate { persistent, volatile, internal } = self;
        let before = Before::of(&persistent, Ghost(node));
        let follower = Follower::new(
            persistent.with_new_term(term),
            volatile,
            internal.clear_voting(),
        );
        before.no_answer(StateMachine::Follower(follower), false)
    }

    /// Gives up for the newer term `term`, follows, and refuses the vote
    /// that was asked for.
    fn become_follower_and_refuse(self, term: TermId) -> (t: Transition)
        ensures
            t@ == answered_vote(self@, candidate_steps_down(self@, term), false),
    {
        let ghost node = self@;
        let Candidate { persistent, volatile, internal } = self;
        let before = Before::of(&persistent, Ghost(node));
        let follower = Follower::new(
            persistent.with_new_term(term),
            volatile,
            internal.clear_voting(),
        );
        before.answer_vote(StateMachine::Follower(follower), false, false)
    }

    /// Starts the next election in the next term, unless the term is the
    /// last one.
    pub(crate) fn become_candidate(self) -> (r: Result<Transition, TransitionError>)
        ensures
            refines(r, candidate_on_timeout(self@)),
    {
        let ghost node = self@;
        let Candidate { persistent, volatile, internal } = self;
        if persistent.term() == TermId::MAX {
            return Err(TransitionError::Overflow);
        }
        let before = Before::of(&persistent, Ghost(node));
        let candidate = Candidate {
            persistent: persistent.incr_term(),
            volatile,
            internal: internal.start_voting(),
        };
        Ok(before.no_answer(StateMachine::Candidate(candidate), false))
    }

    /// Hands out the state.
    pub(crate) fn into_parts(self) -> (parts: (PersistentState, ServerVolatileState, InternalState))
        ensures
            parts.0@ == self@.persistent,
            parts.1 == self@.volatile,
            parts.2@ == self@.internal,
    {
        (self.persistent, self.volatile, self.internal)
    }

    /// Tells whether a batch after `prev_log` is taken in.
    fn accept_leader_state(&self, prev_log: &LogEntryId) -> (b: bool)
        ensures
            b == self@.persistent.accept_log(*prev_log),
    {
        self.persistent.accept_log(prev_log)
    }

    /// Follows the leader of `term` and takes its batch in.
    fn become_follower_on_new_leader_with_entries(
        self,
        term: TermId,
        leader: ServerId,
        prev_log: LogEntryId,
        entries: Vec<LogEntry>,
        leader_commit: LogEntryIndex,
    ) -> (t: Transition)
        ensures
            t@ == answered_append(
                self@,
                candidate_follows_with_logs(self@, term, leader, prev_log, entries@, leader_commit),
                true,
            ),
    {
        let ghost node = self@;
        let Candidate { persistent, volatile, internal } = self;
        let before = Before::of(&persistent, Ghost(node));
        let commit = commit_target_of(leader_commit, &prev_log, &entries);
        let (persistent, changed) = persistent.adopt_term(term).take_entries(prev_log, entries);
        let follower = Follower::new(
            persistent,
            volatile.with_commit_index(commit),
            internal.with_leader(leader),
        );
        before.answer_append(StateMachine::Follower(follower), true, changed)
    }

    /// Follows the leader of `term`; the log does not accept the entry that
    /// the batch was sent to follow.
    fn become_follower_on_new_leader(self, term: TermId, leader: ServerId) -> (t: Transition)
        ensures
            t@ == answered_append(self@, candidate_follows(self@, term, leader), false),
    {
        let ghost node = self@;
        let Candidate { persistent, volatile, internal } = self;
        let before = Before::of(&persistent, Ghost(node));
        let follower = Follower::new(
            persistent.adopt_term(term),
            volatile,
            internal.with_leader(leader),
        );
        before.answer_append(StateMachine::Follower(follower), false, false)
    }

    /// Refuses a batch.
    fn deny_logs(self) -> (t: Transition)
        ensures
            t@ == answered_append(self@, RoleView::Candidate(self@), false),
    {
        let before = Before::of(&self.persistent, Ghost(self@));
        before.answer_append(StateMachine::Candidate(self), false, false)
    }
}

} // verus!
