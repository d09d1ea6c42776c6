//! The call by which a leader replicates its log and keeps its followers
//! from starting elections.

use crate::state_machine::events::StateEvent;
use crate::state_machine::states::{LogEntry, LogEntryId, LogEntryIndex, ServerId, TermId};
use vstd::prelude::*;

verus! {

/// Append-entries request. Without entries it is a heartbeat.
#[derive(Debug)]
pub struct AppendEntriesRequest {
    /// leader's term
    pub term: TermId,
    /// the leader, for followers to redirect clients
    pub leader_id: ServerId,
    /// index of the log entry immediately preceding the new ones
    pub prev_log_index: LogEntryIndex,
    /// term of the log entry immediately preceding the new ones
    pub prev_log_term: TermId,
    /// new entries, in ascending order of index
    pub entries: Vec<LogEntry>,
    /// leader's commit index
    pub leader_commit: LogEntryIndex,
}

/// Append-entries response.
#[derive(Clone, Copy, Debug, PartialEq, Eq, Structural)]
pub struct AppendEntriesResponse {
    /// current term of the answering server, for the leader to update itself
    pub term: TermId,
    /// true if the follower took the entries in
    pub success: bool,
}

impl AppendEntriesRequest {
    /// The event that delivers this request to a server.
    pub fn into_event(self) -> (event: StateEvent)
        ensures
            event == (StateEvent::AppendEntriesRequest {
                term: self.term,
                leader: self.leader_id,
                prev_log: LogEntryId { index: self.prev_log_index, term: self.prev_log_term },
                entries: self.entries,
                commit_idx: self.leader_commit,
            }),
    {
        StateEvent::AppendEntriesRequest {
            term: self.term,
            leader: self.leader_id,
            prev_log: LogEntryId { index: self.prev_log_index, term: self.prev_log_term },
            entries: self.entries,
            commit_idx: self.leader_commit,
        }
    }
}

impl AppendEntriesResponse {
    /// The event that delivers this response, which `server_id` gave, to the
    /// leader.
    pub fn into_event(self, server_id: ServerId) -> (event: StateEvent)
        ensures
            event == (StateEvent::AppendEntriesResponse {
                term: self.term,
                success: self.success,
                server_id,
            }),
    {
        StateEvent::AppendEntriesResponse { term: self.term, success: self.success, server_id }
    }
}

} // verus!
