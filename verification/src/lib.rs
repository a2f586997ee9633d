//! A STOMP 1.2 client library: frame encoding, an incremental frame parser,
//! frame builders and the decisions a client takes while it talks to a broker.

pub mod client;
pub mod ids;
pub mod protocol;
