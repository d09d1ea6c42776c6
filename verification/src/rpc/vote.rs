//! The call by which a candidate asks for a vote.

use crate::state_machine::events::StateEvent;
use crate::state_machine::states::{LogEntryId, LogEntryIndex, ServerId, TermId};
use vstd::prelude::*;

verus! {

/// Vote request.
#[derive(Clone, Copy, Debug, PartialEq, Eq, Structural)]
pub struct VoteRequest {
    /// candidate's term
    pub term: TermId,
    /// candidate requesting the vote
    pub candidate_id: ServerId,
    /// index of the candidate's last log entry
    pub last_log_index: LogEntryIndex,
    /// term of the candidate's last log entry
    pub last_log_term: TermId,
}

/// Vote response.
#[derive(Clone, Copy, Debug, PartialEq, Eq, Structural)]
pub struct VoteResponse {
    /// current term of the answering server, for the candidate to update
    /// itself
    pub term: TermId,
    /// true means the candidate received the vote
    pub vote_granted: bool,
}

impl VoteRequest {
    /// The event that delivers this request to a server.
    pub fn into_event(self) -> (event: StateEvent)
        ensures
            event == (StateEvent::VoteRequest {
                term: self.term,
                candidate: self.candidate_id,
                last_log: LogEntryId { index: self.last_log_index, term: self.last_log_term },
            }),
    {
        StateEvent::VoteRequest {
            term: self.term,
            candidate: self.candidate_id,
            last_log: LogEntryId { index: self.last_log_index, term: self.last_log_term },
        }
    }
}

impl VoteResponse {
    /// The event that delivers this response, which `server_id` gave, to the
    /// candidate.
    pub fn into_event(self, server_id: ServerId) -> (event: StateEvent)
        ensures
            event == (StateEvent::VoteResponse {
                term: self.term,
                vote_granted: self.vote_granted,
                server_id,
            }),
    {
        StateEvent::VoteResponse { term: self.term, vote_granted: self.vote_granted, server_id }
    }
}

} // verus!
