//! The durable part of a server: current term, the vote cast in it, the log.
//!
//! Every operation here is a pure transformation. Whoever drives the server
//! has to write the result to stable storage before it answers a peer from
//! it.

use super::log::{
    batch_after, follows, is_batch_after, lemma_splice_idempotent, splice, strictly_ascending,
    take_in,
};
use super::{up_to_date, LogEntryId, LogEntryIndex, ServerId, TermId};
use vstd::prelude::*;

verus! {

/// A command carried by a log entry.
#[derive(Clone, Debug, PartialEq, Eq)]
pub enum Command {
    /// issued by the protocol itself
    Tfar {},
    /// opaque payload supplied by a client
    Client(Vec<u8>),
}

/// One entry of the replicated log.
#[derive(Clone, Debug, PartialEq, Eq)]
pub struct LogEntry {
    /// term in which the entry was created
    pub term: TermId,
    /// position of the entry in the log
    pub index: LogEntryIndex,
    /// what the entry asks the state machine to do
    pub command: Command,
}

impl LogEntry {
    /// The position and term of this entry.
    pub open spec fn id(self) -> LogEntryId {
        LogEntryId { index: self.index, term: self.term }
    }

    /// The sentinel that stands before the first real entry.
    pub fn zero() -> (e: LogEntry)
        ensures
            e == (LogEntry { term: 0, index: 0, command: Command::Tfar {  } }),
    {
        LogEntry { term: 0, index: 0, command: Command::Tfar {  } }
    }
}

/// Mathematical value of a [`PersistentState`].
pub ghost struct PersistentView {
    pub current_term: TermId,
    pub voted_for: Option<ServerId>,
    pub log: Seq<LogEntry>,
}

impl PersistentView {
    /// What holds of the value of every [`PersistentState`].
    pub open spec fn wf(self) -> bool {
        strictly_ascending(self.log)
    }

    /// Position and term of the last entry; `(0, 0)` for an empty log.
    pub open spec fn last_id(self) -> LogEntryId {
        if self.log.len() == 0 {
            LogEntryId { index: 0, term: 0 }
        } else {
            self.log.last().id()
        }
    }

    /// No vote was cast yet, or it went to `candidate`.
    pub open spec fn accept_candidate(self, candidate: ServerId) -> bool {
        self.voted_for is None || self.voted_for == Some(candidate)
    }

    /// The log is empty, or `other` is at least as up to date as its last
    /// entry.
    pub open spec fn accept_log(self, other: LogEntryId) -> bool {
        self.log.len() == 0 || up_to_date(other, self.log.last().id())
    }

    /// `term` is newer than the current one.
    pub open spec fn accept_term(self, term: TermId) -> bool {
        term > self.current_term
    }

    /// A vote may go to `candidate`, who runs in `term` with a log that ends
    /// in `last_log`.
    pub open spec fn can_vote(self, term: TermId, candidate: ServerId, last_log: LogEntryId) -> bool {
        term >= self.current_term && self.accept_candidate(candidate) && self.accept_log(last_log)
    }

    /// The state in `term` with a vote for `candidate`.
    pub open spec fn with_vote(self, term: TermId, candidate: ServerId) -> PersistentView {
        PersistentView { current_term: term, voted_for: Some(candidate), log: self.log }
    }

    /// The state in `term` without a vote.
    pub open spec fn with_new_term(self, term: TermId) -> PersistentView {
        PersistentView { current_term: term, voted_for: None, log: self.log }
    }

    /// Moves to `term` if it is newer; a term that is not newer changes
    /// nothing, so that a vote cast in the current term stands.
    pub open spec fn adopt_term(self, term: TermId) -> PersistentView {
        if term > self.current_term {
            self.with_new_term(term)
        } else {
            self
        }
    }

    /// The state with a vote for `candidate` in the current term.
    pub open spec fn with_vote_for(self, candidate: ServerId) -> PersistentView {
        PersistentView { current_term: self.current_term, voted_for: Some(candidate), log: self.log }
    }

    /// The state in the next term without a vote.
    pub open spec fn incr_term(self) -> PersistentView
        recommends
            self.current_term < TermId::MAX,
    {
        PersistentView {
            current_term: (self.current_term + 1) as TermId,
            voted_for: None,
            log: self.log,
        }
    }

    /// The state after the batch `entries`, sent to follow `prev`, was
    /// taken into the log. A batch that does not ascend strictly after
    /// `prev` brings nothing, and leaves the log as it is.
    pub open spec fn with_log_entries(self, prev: LogEntryId, entries: Seq<LogEntry>) -> PersistentView {
        PersistentView {
            current_term: self.current_term,
            voted_for: self.voted_for,
            log: splice(self.log, batch_after(prev, entries)),
        }
    }
}

/// Persistent state on all servers.
pub struct PersistentState {
    /// latest term the server has seen
    current_term: TermId,
    /// who received this server's vote in the current term
    voted_for: Option<ServerId>,
    /// log entries, in ascending order of index
    log: Vec<LogEntry>,
}

impl View for PersistentState {
    type V = PersistentView;

    closed spec fn view(&self) -> PersistentView {
        PersistentView { current_term: self.current_term, voted_for: self.voted_for, log: self.log@ }
    }
}

impl PersistentState {
    /// The log is in strictly ascending order of index.
    #[verifier::type_invariant]
    spec fn ascending(self) -> bool {
        strictly_ascending(self.log@)
    }

    /// The state of a server that boots for the first time.
    pub fn new() -> (p: PersistentState)
        ensures
            p@ == (PersistentView { current_term: 0, voted_for: None, log: Seq::empty() }),
    {
        PersistentState { current_term: 0, voted_for: None, log: Vec::new() }
    }

    /// The current term.
    pub fn term(&self) -> (t: TermId)
        ensures
            t == self@.current_term,
    {
        self.current_term
    }

    /// Who received this server's vote in the current term.
    pub fn voted_for(&self) -> (v: Option<ServerId>)
        ensures
            v == self@.voted_for,
    {
        self.voted_for
    }

    /// The log entries, in ascending order of index.
    pub fn log(&self) -> (l: &Vec<LogEntry>)
        ensures
            l@ == self@.log,
            self@.wf(),
    {
        proof {
            use_type_invariant(self);
        }
        &self.log
    }

    /// Position and term of the last log entry; `(0, 0)` for an empty log.
    pub fn last_log_id(&self) -> (id: LogEntryId)
        ensures
            id == self@.last_id(),
    {
        let n = self.log.len();
        if n == 0 {
            LogEntryId { index: 0, term: 0 }
        } else {
            LogEntryId { index: self.log[n - 1].index, term: self.log[n - 1].term }
        }
    }

    /// Tells whether a vote for `candidate` agrees with the vote already
    /// cast, if any.
    pub fn accept_candidate(&self, candidate: ServerId) -> (b: bool)
        ensures
            b == self@.accept_candidate(candidate),
    {
        match self.voted_for {
            None => true,
            Some(c) => c == candidate,
        }
    }

    /// Tells whether `last_log` is at least as up to date as this log: a
    /// later term than that of the last entry, or the same term and a
    /// position that is not before it. An empty log accepts everything.
    pub fn accept_log(&self, last_log: &LogEntryId) -> (b: bool)
        ensures
            b == self@.accept_log(*last_log),
    {
        let n = self.log.len();
        if n == 0 {
            true
        } else {
            let last = &self.log[n - 1];
            last_log.term > last.term || (last_log.term == last.term && last_log.index
                >= last.index)
        }
    }

    /// Tells whether `term` proves that a newer epoch exists.
    pub fn accept_term(&self, term: TermId) -> (b: bool)
        ensures
            b == self@.accept_term(term),
    {
        self.current_term < term
    }

    /// Tells whether `term` is newer than the current one.
    pub fn is_new_term(&self, term: TermId) -> (b: bool)
        ensures
            b == self@.accept_term(term),
    {
        self.current_term < term
    }

    /// Decides a vote request: the candidate's term is not behind, no vote
    /// went to somebody else, and the candidate's log is at least as up to
    /// date as this one.
    pub fn can_vote(
        &self,
        term: TermId,
        candidate: ServerId,
        last_log_index: LogEntryIndex,
        last_log_term: TermId,
    ) -> (b: bool)
        ensures
            b == self@.can_vote(
                term,
                candidate,
                LogEntryId { index: last_log_index, term: last_log_term },
            ),
    {
        let last_log = LogEntryId { index: last_log_index, term: last_log_term };
        term >= self.current_term && self.accept_candidate(candidate) && self.accept_log(&last_log)
    }

    /// Moves to `term` and records a vote for `candidate`.
    pub fn with_vote(self, term: TermId, candidate: ServerId) -> (p: PersistentState)
        ensures
            p@ == self@.with_vote(term, candidate),
    {
        proof {
            use_type_invariant(&self);
        }
        PersistentState { current_term: term, voted_for: Some(candidate), log: self.log }
    }

    /// Takes the batch `entries`, sent to follow `prev_log`, into the log,
    /// and tells whether that changed the log. The same batch, when it comes
    /// again, changes nothing.
    pub fn take_entries(self, prev_log: LogEntryId, entries: Vec<LogEntry>) -> (r: (
        PersistentState,
        bool,
    ))
        ensures
            r.0@ == self@.with_log_entries(prev_log, entries@),
            r.0@.wf(),
            r.0@.with_log_entries(prev_log, entries@) == r.0@,
            r.1 == (r.0@.log != self@.log),
    {
        proof {
            use_type_invariant(&self);
            if follows(prev_log, entries@) {
                lemma_splice_idempotent(self@.log, entries@);
            }
        }
        if is_batch_after(&prev_log, &entries) {
            let (log, changed) = take_in(self.log, entries);
            (
                PersistentState { current_term: self.current_term, voted_for: self.voted_for, log },
                changed,
            )
        } else {
            (self, false)
        }
    }

    /// Takes the batch `entries`, sent to follow `prev_log`, into the log.
    /// What the log already holds stays; from the first entry it lacks, the
    /// log is cut at that position and continued with the rest of the batch.
    /// A batch that does not ascend strictly after `prev_log` changes
    /// nothing, and neither does the same batch when it comes again. Whether
    /// the log accepts `prev_log` is for the caller to ask first.
    pub fn with_log_entries(self, prev_log: LogEntryId, entries: Vec<LogEntry>) -> (p:
        PersistentState)
        ensures
            p@ == self@.with_log_entries(prev_log, entries@),
            p@.wf(),
            p@.with_log_entries(prev_log, entries@) == p@,
    {
        self.take_entries(prev_log, entries).0
    }

    /// Moves to `term` and forgets the vote.
    pub fn with_new_term(self, term: TermId) -> (p: PersistentState)
        ensures
            p@ == self@.with_new_term(term),
    {
        proof {
            use_type_invariant(&self);
        }
        PersistentState { current_term: term, voted_for: None, log: self.log }
    }

    /// Moves to `term` and forgets the vote, if `term` is newer than the
    /// current one; changes nothing otherwise.
    pub fn adopt_term(self, term: TermId) -> (p: PersistentState)
        ensures
            p@ == self@.adopt_term(term),
    {
        if term > self.current_term {
            self.with_new_term(term)
        } else {
            self
        }
    }

    /// Tells whether this state differs from one with the term `term`, the
    /// vote `vote` and a log that differs from this one as `log_changed`
    /// says.
    pub(crate) fn differs_from(&self, term: TermId, vote: Option<ServerId>, log_changed: bool) -> (b:
        bool)
        ensures
            b == (self@.current_term != term || self@.voted_for != vote || log_changed),
    {
        let same_vote = match (self.voted_for, vote) {
            (Some(a), Some(b)) => a == b,
            (None, None) => true,
            _ => false,
        };
        self.current_term != term || !same_vote || log_changed
    }

    /// Records a vote for `candidate` in the current term.
    pub fn with_vote_for(self, candidate: ServerId) -> (p: PersistentState)
        ensures
            p@ == self@.with_vote_for(candidate),
    {
        proof {
            use_type_invariant(&self);
        }
        PersistentState { current_term: self.current_term, voted_for: Some(candidate), log: self.log }
    }

    /// Moves to the next term and forgets the vote.
    pub fn incr_term(self) -> (p: PersistentState)
        requires
            self@.current_term < TermId::MAX,
        ensures
            p@ == self@.incr_term(),
    {
        proof {
            use_type_invariant(&self);
        }
        PersistentState { current_term: self.current_term + 1, voted_for: None, log: self.log }
    }
}

} // verus!
