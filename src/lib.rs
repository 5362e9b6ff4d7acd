//! A small concurrent HTTP-like server core: request parsing, static path
//! routing, response formatting, and the connection queue and shutdown logic
//! that drive the accept and handler loops.

pub mod types;
pub mod text;
pub mod parser;
pub mod response;
pub mod router;
pub mod queue;
pub mod dispatch;
