//! What can be relied on: how the result of each operation follows from what it was given.
//!
//! A law speaks of calls. It is given the arguments and the result of a call, or of several, and
//! states what holds of them, field by field.

pub mod answers;
pub mod client;
pub mod connection;
pub mod demands;
pub mod forwarding;
pub mod headers;
pub mod limits;
pub mod messages;
pub mod names;
pub mod tables;
pub mod text;
pub mod tunnels;
pub mod urls;
