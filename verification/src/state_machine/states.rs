//! State carried by every server: identifiers, the durable part, the
//! volatile part and the election bookkeeping.

use vstd::prelude::*;

pub mod internal;
pub mod log;
pub mod persistent;
pub mod volatile;

pub use internal::{InternalState, InternalView, Server, TallyView, VoteResult, Voting};
pub use persistent::{Command, LogEntry, PersistentState, PersistentView};
pub use volatile::{LeaderView, LeaderVolatileState, ServerVolatileState};

verus! {

/// Logical epoch. Starts at 0 and only ever grows.
pub type TermId = u64;

/// One-based position in the log; 0 stands for "no entry".
pub type LogEntryIndex = u64;

/// Names a member of the cluster.
pub type ServerId = usize;

/// Identifies a log entry by position and term, without carrying its payload.
#[derive(Clone, Copy, Debug, PartialEq, Eq, Structural)]
pub struct LogEntryId {
    /// position of the entry
    pub index: LogEntryIndex,
    /// term in which the entry was created
    pub term: TermId,
}

/// `a` is at least as up to date as `b`: a later term wins, and within one
/// term the longer log wins.
pub open spec fn up_to_date(a: LogEntryId, b: LogEntryId) -> bool {
    a.term > b.term || (a.term == b.term && a.index >= b.index)
}

} // verus!
