//! A small HTTP/1.1 server core: request parsing, routing, content
//! negotiation, response framing and the per-connection state machine,
//! each with a proved contract.

pub mod text;
pub mod message;
pub mod framer;
pub mod parser;
pub mod encoder;
pub mod router;
pub mod handlers;
pub mod connection;

