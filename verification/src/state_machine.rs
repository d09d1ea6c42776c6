//! The role state machine and the state it is threaded through.

pub mod events;
pub mod laws;
pub mod machines;
pub mod states;

pub use machines::{Candidate, Follower, Leader, StateMachine};
