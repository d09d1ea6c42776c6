//! What a server knows of the cluster: its own name, the roster, the leader
//! it last heard of, and the tally of the election it runs, if any.

use super::ServerId;
use std::collections::HashSet;
use vstd::prelude::*;

verus! {

broadcast use vstd::std_specs::hash::group_hash_axioms;

/// A node of the cluster.
#[derive(Debug, PartialEq, Eq)]
pub struct Server {
    address: String,
    port: u16,
}

impl Server {
    /// The node that listens at `address` and `port`.
    pub fn new(address: String, port: u16) -> (s: Server)
        ensures
            s.spec_address() == address@,
            s.spec_port() == port,
    {
        Server { address, port }
    }

    /// The address, as a sequence of characters.
    pub closed spec fn spec_address(&self) -> Seq<char> {
        self.address@
    }

    /// The port.
    pub closed spec fn spec_port(&self) -> u16 {
        self.port
    }

    /// The port.
    #[verifier::when_used_as_spec(spec_port)]
    pub fn port(&self) -> (p: u16)
        ensures
            p == self.spec_port(),
    {
        self.port
    }

    /// The address.
    pub fn address(&self) -> (a: &String)
        ensures
            a@ == self.spec_address(),
    {
        &self.address
    }
}

/// Where an election stands.
#[derive(Clone, Copy, Debug, PartialEq, Eq, Structural)]
pub enum VoteResult {
    /// a quorum agreed; carries the number of agreeing servers
    Agreed(usize),
    /// a quorum rejected; carries the number of rejecting servers
    Rejected(usize),
    /// neither side has a quorum; carries the number of answers so far
    NotYet(usize),
}

/// Number of servers that decide for a cluster of `n`.
pub open spec fn quorum(n: nat) -> nat {
    n / 2 + 1
}

/// Mathematical value of a [`Voting`]: who agreed and who rejected.
pub ghost struct TallyView {
    pub agrees: Set<ServerId>,
    pub rejects: Set<ServerId>,
}

impl TallyView {
    /// What holds of the value of every [`Voting`]: finitely many answers,
    /// and nobody on both sides.
    pub open spec fn wf(self) -> bool {
        &&& self.agrees.finite()
        &&& self.rejects.finite()
        &&& self.agrees.disjoint(self.rejects)
    }

    /// The tally of a candidate that has only its own vote.
    pub open spec fn opened_by(id: ServerId) -> TallyView {
        TallyView { agrees: Set::empty().insert(id), rejects: Set::empty() }
    }

    /// `server` has answered already.
    pub open spec fn has_voted(self, server: ServerId) -> bool {
        self.agrees.contains(server) || self.rejects.contains(server)
    }

    /// The tally after an answer came in. The first answer of a server
    /// counts; a later one changes nothing.
    pub open spec fn record(self, server: ServerId, granted: bool) -> TallyView {
        if self.has_voted(server) {
            self
        } else if granted {
            TallyView { agrees: self.agrees.insert(server), rejects: self.rejects }
        } else {
            TallyView { agrees: self.agrees, rejects: self.rejects.insert(server) }
        }
    }

    /// Where the election stands in a cluster of `n` servers.
    pub open spec fn outcome(self, n: nat) -> VoteResult {
        if self.agrees.len() >= quorum(n) {
            VoteResult::Agreed(self.agrees.len() as usize)
        } else if self.rejects.len() >= quorum(n) {
            VoteResult::Rejected(self.rejects.len() as usize)
        } else {
            VoteResult::NotYet((self.agrees.len() + self.rejects.len()) as usize)
        }
    }
}

/// Tracks the progress of an election.
pub struct Voting {
    agrees: HashSet<ServerId>,
    rejects: HashSet<ServerId>,
}

impl View for Voting {
    type V = TallyView;

    closed spec fn view(&self) -> TallyView {
        TallyView { agrees: self.agrees@, rejects: self.rejects@ }
    }
}

impl Voting {
    /// The answers are finitely many, and nobody is on both sides.
    #[verifier::type_invariant]
    spec fn consistent(self) -> bool {
        self@.wf()
    }

    /// The tally of a fresh election, in which the candidate `id` has voted
    /// for itself.
    pub fn opened_by(id: ServerId) -> (v: Voting)
        ensures
            v@ == TallyView::opened_by(id),
    {
        let mut agrees: HashSet<ServerId> = HashSet::new();
        agrees.insert(id);
        Voting { agrees, rejects: HashSet::new() }
    }

    /// Tells whether `server` has answered already.
    pub fn has_voted(&self, server: ServerId) -> (b: bool)
        ensures
            b == self@.has_voted(server),
    {
        self.agrees.contains(&server) || self.rejects.contains(&server)
    }

    /// Records the answer of `server`, unless it has answered before.
    pub fn accept_vote(self, server: ServerId, agree: bool) -> (v: Voting)
        ensures
            v@ == self@.record(server, agree),
    {
        proof {
            use_type_invariant(&self);
        }
        if self.has_voted(server) {
            return self;
        }
        let Voting { mut agrees, mut rejects } = self;
        if agree {
            agrees.insert(server);
        } else {
            rejects.insert(server);
        }
        Voting { agrees, rejects }
    }

    /// Tells where the election stands in a cluster of `num_servers`.
    pub fn vote_granted(&self, num_servers: usize) -> (r: VoteResult)
        ensures
            r == self@.outcome(num_servers as nat),
            self@.wf(),
    {
        proof {
            use_type_invariant(self);
        }
        let num_valid: usize = num_servers / 2 + 1;
        let agrees: usize = self.agrees.len();
        let rejects: usize = self.rejects.len();
        if agrees >= num_valid {
            VoteResult::Agreed(agrees)
        } else if rejects >= num_valid {
            VoteResult::Rejected(rejects)
        } else {
            VoteResult::NotYet(agrees + rejects)
        }
    }
}

/// Mathematical value of an [`InternalState`].
pub ghost struct InternalView {
    pub id: ServerId,
    pub servers: Seq<Server>,
    pub voting: Option<TallyView>,
    pub leader: Option<ServerId>,
}

impl InternalView {
    /// What holds of the value of every [`InternalState`].
    pub open spec fn wf(self) -> bool {
        self.voting matches Some(tally) ==> tally.wf()
    }

    /// The state without a tally.
    pub open spec fn clear_voting(self) -> InternalView {
        InternalView { voting: None, ..self }
    }

    /// An election begins: a fresh tally that holds the server's own vote.
    pub open spec fn start_voting(self) -> InternalView {
        InternalView { voting: Some(TallyView::opened_by(self.id)), ..self }
    }

    /// The state after the answer of `server` was counted.
    pub open spec fn with_vote(self, server: ServerId, granted: bool) -> InternalView
        recommends
            self.voting is Some,
    {
        InternalView { voting: Some(self.voting->0.record(server, granted)), ..self }
    }

    /// Where the election stands, by the size of the roster.
    pub open spec fn vote_granted(self) -> VoteResult
        recommends
            self.voting is Some,
    {
        self.voting->0.outcome(self.servers.len())
    }

    /// The state that knows `new_leader` as the leader, without a tally.
    pub open spec fn with_leader(self, new_leader: ServerId) -> InternalView {
        InternalView { voting: None, leader: Some(new_leader), ..self }
    }

    /// `leader` is the leader that the server knows.
    pub open spec fn has_leader(self, leader: ServerId) -> bool {
        self.leader == Some(leader)
    }
}

/// What a server keeps beside the state that the protocol prescribes.
pub struct InternalState {
    /// name of this server
    id: ServerId,
    /// the servers of the cluster, this one among them
    servers: Vec<Server>,
    /// the election that this server runs, if any
    voting: Option<Voting>,
    /// the leader this server last heard of
    leader: Option<ServerId>,
}

impl View for InternalState {
    type V = InternalView;

    closed spec fn view(&self) -> InternalView {
        InternalView {
            id: self.id,
            servers: self.servers@,
            voting: match self.voting {
                Some(v) => Some(v@),
                None => None,
            },
            leader: self.leader,
        }
    }
}

impl InternalState {
    /// A server named 0 that knows no other server, no leader, and runs no
    /// election.
    pub fn new() -> (s: InternalState)
        ensures
            s@ == (InternalView { id: 0, servers: Seq::empty(), voting: None, leader: None }),
    {
        InternalState { id: 0, servers: Vec::new(), voting: None, leader: None }
    }

    /// The server `id` of the cluster `servers`, which knows no leader and
    /// runs no election.
    pub fn for_cluster(id: ServerId, servers: Vec<Server>) -> (s: InternalState)
        ensures
            s@ == (InternalView { id, servers: servers@, voting: None, leader: None }),
    {
        InternalState { id, servers, voting: None, leader: None }
    }

    /// Name of this server.
    pub fn id(&self) -> (id: ServerId)
        ensures
            id == self@.id,
    {
        self.id
    }

    /// The servers of the cluster.
    pub fn servers(&self) -> (servers: &Vec<Server>)
        ensures
            servers@ == self@.servers,
    {
        &self.servers
    }

    /// The leader this server last heard of.
    pub fn leader(&self) -> (leader: Option<ServerId>)
        ensures
            leader == self@.leader,
    {
        self.leader
    }

    /// Tells whether an election is under way. If so, its tally is sound:
    /// nobody is on both sides.
    pub fn is_voting(&self) -> (b: bool)
        ensures
            b == (self@.voting is Some),
            self@.wf(),
    {
        match &self.voting {
            Some(voting) => {
                proof {
                    use_type_invariant(voting);
                }
                true
            },
            None => false,
        }
    }

    /// Tells whether `server` has answered in the election under way.
    pub fn has_voted(&self, server: ServerId) -> (b: bool)
        ensures
            b == (self@.voting matches Some(tally) && tally.has_voted(server)),
    {
        match &self.voting {
            Some(voting) => voting.has_voted(server),
            None => false,
        }
    }

    /// Drops the tally of an election, if there is one.
    pub fn clear_voting(self) -> (s: InternalState)
        ensures
            s@ == self@.clear_voting(),
    {
        InternalState { id: self.id, servers: self.servers, voting: None, leader: self.leader }
    }

    /// Begins an election with a fresh tally that holds this server's own
    /// vote.
    pub fn start_voting(self) -> (s: InternalState)
        ensures
            s@ == self@.start_voting(),
    {
        InternalState {
            id: self.id,
            servers: self.servers,
            voting: Some(Voting::opened_by(self.id)),
            leader: self.leader,
        }
    }

    /// Records the answer of `server` in the election under way. A server's
    /// first answer counts; a later one changes nothing.
    pub fn with_vote(self, server: ServerId, granted: bool) -> (s: InternalState)
        requires
            self@.voting is Some,
        ensures
            s@ == self@.with_vote(server, granted),
    {
        let InternalState { id, servers, voting, leader } = self;
        let voting = voting.unwrap().accept_vote(server, granted);
        InternalState { id, servers, voting: Some(voting), leader }
    }

    /// Tells where the election under way stands, by the size of the roster.
    pub fn vote_granted(&self) -> (r: VoteResult)
        requires
            self@.voting is Some,
        ensures
            r == self@.vote_granted(),
    {
        self.voting.as_ref().unwrap().vote_granted(self.servers.len())
    }

    /// Records the leader, and with that ends any election.
    pub fn with_leader(self, new_leader: ServerId) -> (s: InternalState)
        ensures
            s@ == self@.with_leader(new_leader),
    {
        InternalState { id: self.id, servers: self.servers, voting: None, leader: Some(new_leader) }
    }

    /// Tells whether `leader` is the leader this server knows.
    pub fn has_leader(&self, leader: ServerId) -> (b: bool)
        ensures
            b == self@.has_leader(leader),
    {
        match self.leader {
            Some(l) => l == leader,
            None => false,
        }
    }
}

} // verus!
