//! A verified core for a minimal HTTP/1.1 server: byte-level request
//! parsing, route dispatch, and response framing. Transport and file
//! system access stay outside; the library decides what to answer.
pub mod bytes;
pub mod lit;
pub mod request;
pub mod response;
pub mod router;
pub mod handler;
pub mod laws;
