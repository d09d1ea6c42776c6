//! What can happen to a server.

use super::states::{LogEntry, LogEntryId, LogEntryIndex, ServerId, TermId};
use std::time::Duration;
use vstd::prelude::*;

verus! {

/// An input of the role state machine.
#[derive(Debug)]
pub enum StateEvent {
    /// nothing was heard for this long
    Timeout(Duration),
    /// a candidate asks for this server's vote
    VoteRequest {
        /// candidate's term
        term: TermId,
        /// candidate requesting the vote
        candidate: ServerId,
        /// id of the candidate's last log entry
        last_log: LogEntryId,
    },
    /// a server answered this server's request for its vote
    VoteResponse {
        /// current term of the answering server
        term: TermId,
        /// true means the candidate received the vote
        vote_granted: bool,
        /// the answering server
        server_id: ServerId,
    },
    /// a leader sends entries, or a heartbeat
    AppendEntriesRequest {
        /// leader's term
        term: TermId,
        /// the leader, for followers to redirect clients
        leader: ServerId,
        /// id of the log entry immediately preceding the new ones
        prev_log: LogEntryId,
        /// new entries
        entries: Vec<LogEntry>,
        /// leader's commit index
        commit_idx: LogEntryIndex,
    },
    /// a server answered entries that this server sent
    AppendEntriesResponse {
        /// current term of the answering server
        term: TermId,
        /// true if the server took the entries in
        success: bool,
        /// the answering server
        server_id: ServerId,
    },
}

} // verus!
