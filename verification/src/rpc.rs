//! Shapes of the two remote calls of the protocol. How they travel is not
//! this library's concern.

pub mod append_entries;
pub mod vote;
