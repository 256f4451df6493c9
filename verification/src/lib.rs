//! Time tracking over a line protocol.
//!
//! A server keeps one store of topics and credits elapsed time to the topic
//! that is current. Clients talk to it in request lines and get tagged
//! answers back. This crate holds the rules of that exchange, free of any
//! transport:
//!
//! - `request`: the requests and their line grammar;
//! - `response`: the answers;
//! - `store`: the topics and the crediting of time;
//! - `session`: the server's side of a connection;
//! - `client`: the client's side of a connection;
//! - `config`: the client's settings;
//! - `clock` and `text`: what the others stand on.

pub mod client;
pub mod clock;
pub mod config;
pub mod request;
pub mod response;
pub mod session;
pub mod store;
pub mod text;

pub use config::Options;
pub use request::{ClientRequest, CLIENTREQUEST_MAX_PARTS};
pub use response::ResponseToClient;
pub use store::{TimeTrackingImplDetails, TimeTrackingState, TimeTrackingTopic};
