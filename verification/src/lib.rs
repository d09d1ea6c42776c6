//! Consensus core of a Raft cluster member: the persistent and volatile state
//! a server carries, the election tally, and the three roles with their
//! event-driven transitions. Every executable function is verified against a
//! mathematical model of the protocol rules.

pub mod rpc;
pub mod state_machine;
