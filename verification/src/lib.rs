//! A small HTTP echo service as a library of pure functions: a request, held as
//! plain values, goes in, and the response comes out.
//!
//! [`router::router`] answers a whole request; [`router::route`] only names the
//! endpoint, for a transport that streams bodies and applies the byte
//! transformations of [`bytes`] chunk by chunk.

pub mod bytes;
pub mod handlers;
pub mod json;
pub mod message;
pub mod router;
pub mod text;
