//! The three roles a server can be in, and the one function that takes a
//! role and an event to the next role.
//!
//! A transition consumes the role it starts from. Beside the next role it
//! yields the answer owed to the peer whose message was the event, and tells
//! whether the durable state changed: if so, it has to reach stable storage
//! before the answer leaves.

use super::events::StateEvent;
use super::states::log::{batch_after, is_batch_after};
use super::states::{
    InternalState, InternalView, LeaderView, LogEntry, LogEntryId, LogEntryIndex, PersistentState,
    PersistentView, ServerId, ServerVolatileState, TermId,
};
use crate::rpc::append_entries::AppendEntriesResponse;
use crate::rpc::vote::VoteResponse;
use vstd::prelude::*;

pub mod candidate;
pub mod follower;
pub mod leader;

pub use candidate::{candidate_on_timeout, candidate_settles, candidate_step, Candidate};
pub use follower::{follower_on_timeout, follower_step, Follower};
pub use leader::{leader_step, Leader};

verus! {

/// Mathematical value of the state that every role carries.
pub ghost struct NodeView {
    pub persistent: PersistentView,
    pub volatile: ServerVolatileState,
    pub internal: InternalView,
}

impl NodeView {
    /// What holds of the state of every role.
    pub open spec fn wf(self) -> bool {
        self.persistent.wf() && self.internal.wf()
    }
}

/// What holds of a leader with the state `node` and of the progress it
/// keeps: no election is under way, each server has one place, and no server
/// is ahead of the leader's log.
pub open spec fn leader_wf(node: NodeView, progress: LeaderView) -> bool {
    &&& node.internal.voting is None
    &&& progress.next_index.len() == node.internal.servers.len()
    &&& progress.match_index.len() == node.internal.servers.len()
    &&& forall|i: int|
        0 <= i < progress.match_index.len() ==> (#[trigger] progress.match_index[i])
            <= node.persistent.last_id().index
}

/// Mathematical value of a [`StateMachine`]: a role and the state it carries.
pub ghost enum RoleView {
    Follower(NodeView),
    Candidate(NodeView),
    Leader(NodeView, LeaderView),
}

impl RoleView {
    /// The state that the role carries, whichever it is.
    pub open spec fn node(self) -> NodeView {
        match self {
            RoleView::Follower(node) => node,
            RoleView::Candidate(node) => node,
            RoleView::Leader(node, _) => node,
        }
    }

    /// The current term.
    pub open spec fn term(self) -> TermId {
        self.node().persistent.current_term
    }

    /// What holds of the value of every [`StateMachine`]: a candidate, and
    /// nobody else, runs an election, and a leader keeps sound progress.
    pub open spec fn wf(self) -> bool {
        match self {
            RoleView::Follower(node) => node.wf() && node.internal.voting is None,
            RoleView::Candidate(node) => node.wf() && node.internal.voting is Some,
            RoleView::Leader(node, progress) => node.wf() && leader_wf(node, progress),
        }
    }
}

/// Why an event could not be applied to a role.
#[derive(Clone, Copy, Debug, PartialEq, Eq, Structural)]
pub enum TransitionError {
    /// no well-behaved peer or driver sends this event to a server in this
    /// role
    ProtocolViolation,
    /// the transition needs a term or an index beyond the largest one
    Overflow,
}

/// The answer that a transition owes to the sender of the event.
#[derive(Clone, Copy, Debug, PartialEq, Eq, Structural)]
pub enum Reply {
    /// the event asks for no answer
    Silent,
    /// answer to a vote request
    Vote(VoteResponse),
    /// answer to an append-entries request
    Append(AppendEntriesResponse),
}

/// Mathematical value of a [`Transition`].
pub ghost struct TransitionView {
    pub next: RoleView,
    pub reply: Reply,
    pub persist: bool,
}

/// The transition from the state `before` to the role `next` with the answer
/// `reply`. It asks for a write to stable storage exactly if the durable
/// state changed.
pub open spec fn moved(before: NodeView, next: RoleView, reply: Reply) -> TransitionView {
    TransitionView { next, reply, persist: next.node().persistent != before.persistent }
}

/// The answer to a vote request, given from the role `next`.
pub open spec fn vote_reply(next: RoleView, granted: bool) -> Reply {
    Reply::Vote(VoteResponse { term: next.term(), vote_granted: granted })
}

/// The answer to an append-entries request, given from the role `next`.
pub open spec fn append_reply(next: RoleView, success: bool) -> Reply {
    Reply::Append(AppendEntriesResponse { term: next.term(), success })
}

/// Index of the last entry that a batch sent to follow `prev` brings, and
/// that of `prev` if it brings none.
pub open spec fn last_new_index(prev: LogEntryId, entries: Seq<LogEntry>) -> LogEntryIndex {
    if batch_after(prev, entries).len() > 0 {
        batch_after(prev, entries).last().index
    } else {
        prev.index
    }
}

/// How far a server may commit after it took in a batch sent to follow
/// `prev` by a leader that has committed up to `leader_commit`: as far as
/// the leader, but not beyond the last entry that the batch brought.
pub open spec fn commit_target(
    leader_commit: LogEntryIndex,
    prev: LogEntryId,
    entries: Seq<LogEntry>,
) -> LogEntryIndex {
    if leader_commit <= last_new_index(prev, entries) {
        leader_commit
    } else {
        last_new_index(prev, entries)
    }
}

/// Computes how far a server may commit after it took in `entries`.
pub fn commit_target_of(leader_commit: LogEntryIndex, prev: &LogEntryId, entries: &Vec<LogEntry>) -> (c:
    LogEntryIndex)
    ensures
        c == commit_target(leader_commit, *prev, entries@),
{
    let n = entries.len();
    let last: LogEntryIndex = if n > 0 && is_batch_after(prev, entries) {
        entries[n - 1].index
    } else {
        prev.index
    };
    if leader_commit <= last {
        leader_commit
    } else {
        last
    }
}

/// A server in one of the three roles.
pub enum StateMachine {
    Follower(Follower),
    Candidate(Candidate),
    Leader(Leader),
}

impl View for StateMachine {
    type V = RoleView;

    open spec fn view(&self) -> RoleView {
        match self {
            StateMachine::Follower(follower) => RoleView::Follower(follower@),
            StateMachine::Candidate(candidate) => RoleView::Candidate(candidate@),
            StateMachine::Leader(leader) => RoleView::Leader(leader@.0, leader@.1),
        }
    }
}

/// What applying an event to a role gives.
pub struct Transition {
    /// the role after the event
    pub next: StateMachine,
    /// what to answer to the sender of the event
    pub reply: Reply,
    /// whether the durable state changed, and has to be written to stable
    /// storage before the answer is sent
    pub persist: bool,
}

impl View for Transition {
    type V = TransitionView;

    open spec fn view(&self) -> TransitionView {
        TransitionView { next: self.next@, reply: self.reply, persist: self.persist }
    }
}

/// The result `r` of a transition is the one that the rules give, `model`.
pub open spec fn refines(
    r: Result<Transition, TransitionError>,
    model: Result<TransitionView, TransitionError>,
) -> bool {
    match model {
        Ok(t) => r matches Ok(x) && x@ == t,
        Err(e) => r matches Err(x) && x == e,
    }
}

/// The transition to `next` that answers a vote request.
pub open spec fn answered_vote(before: NodeView, next: RoleView, granted: bool) -> TransitionView {
    moved(before, next, vote_reply(next, granted))
}

/// The transition to `next` that answers an append-entries request.
pub open spec fn answered_append(before: NodeView, next: RoleView, success: bool) -> TransitionView {
    moved(before, next, append_reply(next, success))
}

/// The transition to `next` that answers nobody.
pub open spec fn unanswered(before: NodeView, next: RoleView) -> TransitionView {
    moved(before, next, Reply::Silent)
}

/// What an event does to a server in the role `role`: the next role, the
/// answer and whether to write, or the reason why the event does not apply.
pub open spec fn step(role: RoleView, event: StateEvent) -> Result<TransitionView, TransitionError> {
    match role {
        RoleView::Follower(node) => follower_step(node, event),
        RoleView::Candidate(node) => candidate_step(node, event),
        RoleView::Leader(node, progress) => leader_step(node, progress, event),
    }
}

/// What the state of its election does to a server in the role `role`. Only
/// a candidate runs one.
pub open spec fn settle(role: RoleView) -> Result<TransitionView, TransitionError> {
    match role {
        RoleView::Candidate(node) => candidate_settles(node),
        _ => Err(TransitionError::ProtocolViolation),
    }
}

/// What a timeout does to a server in the role `role`: a follower and a
/// candidate begin an election, and a leader cannot get one.
pub open spec fn timed_out(role: RoleView) -> Result<TransitionView, TransitionError> {
    match role {
        RoleView::Follower(node) => follower_on_timeout(node),
        RoleView::Candidate(node) => candidate_on_timeout(node),
        RoleView::Leader(_, _) => Err(TransitionError::ProtocolViolation),
    }
}

/// The server in the role `role` becomes a follower, in `term` if that is
/// newer than its own: it forgets its election and, with a newer term, its
/// vote.
pub open spec fn stepped_down(role: RoleView, term: TermId) -> TransitionView {
    unanswered(
        role.node(),
        RoleView::Follower(
            NodeView {
                persistent: role.node().persistent.adopt_term(term),
                volatile: role.node().volatile,
                internal: role.node().internal.clear_voting(),
            },
        ),
    )
}

impl StateMachine {
    /// A server that boots for the first time: a follower in term 0 with an
    /// empty log, which knows no other server and no leader.
    pub fn new() -> (m: StateMachine)
        ensures
            m@ == RoleView::Follower(
                NodeView {
                    persistent: PersistentView {
                        current_term: 0,
                        voted_for: None,
                        log: Seq::empty(),
                    },
                    volatile: ServerVolatileState { commit_index: 0, last_applied: 0 },
                    internal: InternalView {
                        id: 0,
                        servers: Seq::empty(),
                        voting: None,
                        leader: None,
                    },
                },
            ),
    {
        StateMachine::Follower(
            Follower::new(PersistentState::new(), ServerVolatileState::new(), InternalState::new()),
        )
    }

    /// Applies an event to the server, whatever its role. The result is the
    /// next role, the answer owed to the sender, and whether the durable
    /// state has to be written first; or an error, if the event is one that
    /// a server in this role cannot get, or if a term or an index would
    /// pass the largest number.
    pub fn on_message(self, msg: StateEvent) -> (r: Result<Transition, TransitionError>)
        ensures
            refines(r, step(self@, msg)),
    {
        match self {
            StateMachine::Follower(follower) => follower.on_events(msg),
            StateMachine::Candidate(candidate) => candidate.on_events(msg),
            StateMachine::Leader(leader) => leader.on_events(msg),
        }
    }

    /// Begins an election in the next term, as a timeout does. For a leader
    /// this is an error, and so it is if the term is the last one.
    pub fn become_candidate(self) -> (r: Result<Transition, TransitionError>)
        ensures
            refines(r, timed_out(self@)),
    {
        match self {
            StateMachine::Follower(follower) => follower.become_candidate(),
            StateMachine::Candidate(candidate) => candidate.become_candidate(),
            StateMachine::Leader(_) => Err(TransitionError::ProtocolViolation),
        }
    }

    /// Counts the answer that `server_id` gave to this server's request for
    /// its vote in the current term. For a follower or a leader this is an
    /// error.
    pub fn vote_returned(self, vote_granted: bool, server_id: ServerId) -> (r: Result<
        Transition,
        TransitionError,
    >)
        ensures
            refines(
                r,
                step(
                    self@,
                    StateEvent::VoteResponse { term: self@.term(), vote_granted, server_id },
                ),
            ),
    {
        let term = self.term();
        self.on_message(StateEvent::VoteResponse { term, vote_granted, server_id })
    }

    /// Makes the server a follower, in `term` if that is newer than its own.
    pub fn become_follower(self, term: TermId) -> (t: Transition)
        ensures
            t@ == stepped_down(self@, term),
    {
        let ghost node = self@.node();
        let (persistent, volatile, internal) = match self {
            StateMachine::Follower(follower) => follower.into_parts(),
            StateMachine::Candidate(candidate) => candidate.into_parts(),
            StateMachine::Leader(leader) => leader.into_parts(),
        };
        let before = Before::of(&persistent, Ghost(node));
        let follower = Follower::new(persistent.adopt_term(term), volatile, internal.clear_voting());
        before.no_answer(StateMachine::Follower(follower), false)
    }

    /// Makes a candidate the leader if a quorum has agreed, and leaves it
    /// waiting otherwise. For a follower or a leader this is an error.
    pub fn become_leader(self) -> (r: Result<Transition, TransitionError>)
        ensures
            refines(r, settle(self@)),
    {
        match self {
            StateMachine::Candidate(candidate) => candidate.become_leader(),
            _ => Err(TransitionError::ProtocolViolation),
        }
    }

    /// Every server is sound: its log is in ascending order, a candidate and
    /// nobody else runs an election, and a leader's progress fits its roster
    /// and its log. The call does nothing but let a verified caller know.
    pub fn sound(&self)
        ensures
            self@.wf(),
    {
        let _ = self.persistent().log();
        let _ = self.internal().is_voting();
        match self {
            StateMachine::Follower(follower) => {
                let _ = follower.internal();
            },
            StateMachine::Candidate(candidate) => {
                let _ = candidate.internal();
            },
            StateMachine::Leader(leader) => {
                let _ = leader.leader_volatile();
            },
        }
    }

    /// The durable state of the server.
    pub fn persistent(&self) -> (p: &PersistentState)
        ensures
            p@ == self@.node().persistent,
    {
        match self {
            StateMachine::Follower(follower) => follower.persistent(),
            StateMachine::Candidate(candidate) => candidate.persistent(),
            StateMachine::Leader(leader) => leader.persistent(),
        }
    }

    /// The volatile state of the server.
    pub fn volatile(&self) -> (v: ServerVolatileState)
        ensures
            v == self@.node().volatile,
    {
        match self {
            StateMachine::Follower(follower) => follower.volatile(),
            StateMachine::Candidate(candidate) => candidate.volatile(),
            StateMachine::Leader(leader) => leader.volatile(),
        }
    }

    /// What the server knows of the cluster.
    pub fn internal(&self) -> (i: &InternalState)
        ensures
            i@ == self@.node().internal,
    {
        match self {
            StateMachine::Follower(follower) => follower.internal(),
            StateMachine::Candidate(candidate) => candidate.internal(),
            StateMachine::Leader(leader) => leader.internal(),
        }
    }

    /// The current term.
    pub fn term(&self) -> (t: TermId)
        ensures
            t == self@.term(),
    {
        self.persistent().term()
    }
}

/// The durable state as it was before a transition, as far as a role needs
/// it to tell whether the transition changed it.
pub(crate) struct Before {
    pub term: TermId,
    pub vote: Option<ServerId>,
    pub node: Ghost<NodeView>,
}

impl Before {
    /// The term and the vote are those of the state that was noted.
    pub(crate) open spec fn wf(self) -> bool {
        self.term == self.node@.persistent.current_term && self.vote
            == self.node@.persistent.voted_for
    }

    /// Notes the term and the vote of `persistent`, which belongs to a role
    /// whose state is `node`.
    pub(crate) fn of(persistent: &PersistentState, Ghost(node): Ghost<NodeView>) -> (b: Before)
        requires
            persistent@ == node.persistent,
        ensures
            b.wf(),
            b.node@ == node,
    {
        Before { term: persistent.term(), vote: persistent.voted_for(), node: Ghost(node) }
    }

    /// Tells whether the durable state of `next` differs from what it was.
    fn persist(&self, next: &StateMachine, log_changed: bool) -> (b: bool)
        requires
            self.wf(),
            log_changed == (next@.node().persistent.log != self.node@.persistent.log),
        ensures
            b == (next@.node().persistent != self.node@.persistent),
    {
        next.persistent().differs_from(self.term, self.vote, log_changed)
    }

    /// Completes a transition that answers a vote request.
    pub(crate) fn answer_vote(&self, next: StateMachine, granted: bool, log_changed: bool) -> (t:
        Transition)
        requires
            self.wf(),
            log_changed == (next@.node().persistent.log != self.node@.persistent.log),
        ensures
            t@ == answered_vote(self.node@, next@, granted),
    {
        let persist = self.persist(&next, log_changed);
        let reply = Reply::Vote(VoteResponse { term: next.term(), vote_granted: granted });
        Transition { next, reply, persist }
    }

    /// Completes a transition that answers an append-entries request.
    pub(crate) fn answer_append(&self, next: StateMachine, success: bool, log_changed: bool) -> (t:
        Transition)
        requires
            self.wf(),
            log_changed == (next@.node().persistent.log != self.node@.persistent.log),
        ensures
            t@ == answered_append(self.node@, next@, success),
    {
        let persist = self.persist(&next, log_changed);
        let reply = Reply::Append(AppendEntriesResponse { term: next.term(), success });
        Transition { next, reply, persist }
    }

    /// Completes a transition that answers nobody.
    pub(crate) fn no_answer(&self, next: StateMachine, log_changed: bool) -> (t: Transition)
        requires
            self.wf(),
            log_changed == (next@.node().persistent.log != self.node@.persistent.log),
        ensures
            t@ == unanswered(self.node@, next@),
    {
        let persist = self.persist(&next, log_changed);
        Transition { next, reply: Reply::Silent, persist }
    }
}

} // verus!
