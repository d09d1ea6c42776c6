//! The part of a server's state that a restart resets: how far the log is
//! committed and applied, and, on a leader, how far each server has come.

use super::LogEntryIndex;
use vstd::prelude::*;

verus! {

/// Volatile state on all servers.
#[derive(Clone, Copy, Debug, PartialEq, Eq, Structural)]
pub struct ServerVolatileState {
    /// index of the highest log entry known to be committed
    pub commit_index: LogEntryIndex,
    /// index of the highest log entry applied to the state machine
    pub last_applied: LogEntryIndex,
}

impl ServerVolatileState {
    /// The state after a restart: nothing committed, nothing applied.
    pub fn new() -> (v: ServerVolatileState)
        ensures
            v == (ServerVolatileState { commit_index: 0, last_applied: 0 }),
    {
        ServerVolatileState { commit_index: 0, last_applied: 0 }
    }

    /// The state once `index` is known to be committed. The commit index
    /// never moves back.
    pub open spec fn spec_with_commit_index(self, index: LogEntryIndex) -> ServerVolatileState {
        ServerVolatileState {
            commit_index: if index > self.commit_index {
                index
            } else {
                self.commit_index
            },
            last_applied: self.last_applied,
        }
    }

    /// Raises the commit index to `index`, unless it is there or further
    /// already.
    #[verifier::when_used_as_spec(spec_with_commit_index)]
    pub fn with_commit_index(self, index: LogEntryIndex) -> (v: ServerVolatileState)
        ensures
            v == self.spec_with_commit_index(index),
    {
        if index > self.commit_index {
            ServerVolatileState { commit_index: index, last_applied: self.last_applied }
        } else {
            self
        }
    }
}

/// Mathematical value of a [`LeaderVolatileState`].
pub ghost struct LeaderView {
    pub next_index: Seq<LogEntryIndex>,
    pub match_index: Seq<LogEntryIndex>,
}

impl LeaderView {
    /// What a leader of `num_servers` servers starts with.
    pub open spec fn fresh(last_applied: LogEntryIndex, num_servers: nat) -> LeaderView {
        LeaderView {
            next_index: Seq::new(num_servers, |i: int| (last_applied + 1) as LogEntryIndex),
            match_index: Seq::new(num_servers, |i: int| 0),
        }
    }

    /// `server` has a place in both lists.
    pub open spec fn knows(self, server: int) -> bool {
        0 <= server < self.next_index.len() && server < self.match_index.len()
    }

    /// The state after `server` confirmed that it holds the log up to
    /// `last_index`. A server that has no place changes nothing.
    pub open spec fn acked(self, server: int, last_index: LogEntryIndex) -> LeaderView {
        if self.knows(server) {
            let reached = if last_index > self.match_index[server] {
                last_index
            } else {
                self.match_index[server]
            };
            LeaderView {
                next_index: self.next_index.update(server, (reached + 1) as LogEntryIndex),
                match_index: self.match_index.update(server, reached),
            }
        } else {
            self
        }
    }

    /// The state after `server` refused a batch: the next attempt starts one
    /// entry earlier, but not before the first.
    pub open spec fn nacked(self, server: int) -> LeaderView {
        if self.knows(server) && self.next_index[server] > 1 {
            LeaderView {
                next_index: self.next_index.update(
                    server,
                    (self.next_index[server] - 1) as LogEntryIndex,
                ),
                match_index: self.match_index,
            }
        } else {
            self
        }
    }
}

/// Number of servers in `match_index` that hold the log up to `index` at
/// least.
pub open spec fn replicated_on(match_index: Seq<LogEntryIndex>, index: LogEntryIndex) -> nat
    decreases match_index.len(),
{
    if match_index.len() == 0 {
        0
    } else {
        replicated_on(match_index.drop_last(), index) + if match_index.last() >= index {
            1nat
        } else {
            0nat
        }
    }
}

/// Counts the servers in `match_index` that hold the log up to `index` at
/// least.
pub fn count_replicas(match_index: &Vec<LogEntryIndex>, index: LogEntryIndex) -> (n: usize)
    ensures
        n == replicated_on(match_index@, index),
{
    let mut n: usize = 0;
    let mut i: usize = 0;
    assert(match_index@.take(0) == Seq::<LogEntryIndex>::empty());
    while i < match_index.len()
        invariant
            i <= match_index.len(),
            n <= i,
            n == replicated_on(match_index@.take(i as int), index),
        decreases match_index.len() - i,
    {
        assert(match_index@.take(i + 1).drop_last() == match_index@.take(i as int));
        if match_index[i] >= index {
            n = n + 1;
        }
        i = i + 1;
    }
    assert(match_index@.take(i as int) == match_index@);
    n
}

/// Volatile state on a leader, made anew after each election.
pub struct LeaderVolatileState {
    /// for each server, index of the next log entry to send to it
    pub next_index: Vec<LogEntryIndex>,
    /// for each server, index of the highest log entry known to be
    /// replicated on it
    pub match_index: Vec<LogEntryIndex>,
}

impl View for LeaderVolatileState {
    type V = LeaderView;

    open spec fn view(&self) -> LeaderView {
        LeaderView { next_index: self.next_index@, match_index: self.match_index@ }
    }
}

impl LeaderVolatileState {
    /// What a leader starts with: every server is sent the entry after
    /// `last_applied` next, and none is known to hold anything.
    pub fn new(last_applied: LogEntryIndex, num_servers: usize) -> (l: LeaderVolatileState)
        requires
            last_applied < LogEntryIndex::MAX,
        ensures
            l@ == LeaderView::fresh(last_applied, num_servers as nat),
    {
        let first: LogEntryIndex = last_applied + 1;
        let next_index: Vec<LogEntryIndex> = vec![first; num_servers];
        let match_index: Vec<LogEntryIndex> = vec![0; num_servers];
        assert forall|i: int| 0 <= i < num_servers implies next_index@[i] == first by {
            assert(cloned(first, next_index@[i]));
        }
        assert forall|i: int| 0 <= i < num_servers implies match_index@[i] == 0 by {
            assert(cloned(0u64, match_index@[i]));
        }
        assert(next_index@ =~= LeaderView::fresh(last_applied, num_servers as nat).next_index);
        assert(match_index@ =~= LeaderView::fresh(last_applied, num_servers as nat).match_index);
        LeaderVolatileState { next_index, match_index }
    }

    /// Notes that `server` holds the log up to `last_index`.
    pub fn with_success(self, server: usize, last_index: LogEntryIndex) -> (l: LeaderVolatileState)
        requires
            last_index < LogEntryIndex::MAX,
            self@.knows(server as int) ==> self@.match_index[server as int] < LogEntryIndex::MAX,
        ensures
            l@ == self@.acked(server as int, last_index),
    {
        let LeaderVolatileState { mut next_index, mut match_index } = self;
        if server < next_index.len() && server < match_index.len() {
            let reached: LogEntryIndex = if last_index > match_index[server] {
                last_index
            } else {
                match_index[server]
            };
            next_index.set(server, reached + 1);
            match_index.set(server, reached);
        }
        LeaderVolatileState { next_index, match_index }
    }

    /// Notes that `server` refused a batch.
    pub fn with_failure(self, server: usize) -> (l: LeaderVolatileState)
        ensures
            l@ == self@.nacked(server as int),
    {
        let LeaderVolatileState { mut next_index, mut match_index } = self;
        if server < next_index.len() && server < match_index.len() && next_index[server] > 1 {
            let earlier: LogEntryIndex = next_index[server] - 1;
            next_index.set(server, earlier);
        }
        LeaderVolatileState { next_index, match_index }
    }
}

} // verus!
