//! The JSON-RPC interface: what each method answers, without the transport.

pub mod methods;
pub mod server;
