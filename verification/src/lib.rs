//! OpenRok exposes a local HTTP service through a relay.
//!
//! A client asks the relay for a tunnel and claims it over a control channel. The relay then
//! leads public requests, by the host that they name, to the client, which passes them on to the
//! local service and sends the answers back. This library holds what the relay and the client
//! decide and compute; sockets, timers and JSON stay outside. What can be relied on from outside,
//! call by call and over runs of calls, stands in [`laws`].

pub mod books;
pub mod channel;
pub mod client;
pub mod clock;
pub mod connection;
pub mod headers;
pub mod http_rules;
pub mod laws;
pub mod protocol;
pub mod rate_limiter;
pub mod relay;
pub mod subdomain;
pub mod table;
pub mod text;
pub mod token;
pub mod tunnel_manager;
pub mod urls;
