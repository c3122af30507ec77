//! The core of a small HTTP/1.1 server: the request and response model with
//! its wire format, the routing table, the handler abstraction, and the
//! exchange that answers one request.

pub mod message;
pub mod parse;
pub mod router;
pub mod server;
pub mod service;
pub mod table;
pub mod text;
