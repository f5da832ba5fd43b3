//! Incremental construction of outgoing HTTP responses: a deferred-error
//! builder over a response head, a cookie-delta engine that turns staged
//! cookie intents into minimal `Set-Cookie` wire entries, and a closed
//! body abstraction covering empty, fixed-size and streaming payloads.
pub mod builder;
pub mod chars;
pub mod convert;
pub mod cookies;
pub mod error;
pub mod head;
pub mod headers;
pub mod laws;
pub mod payload;
pub mod response;
