//! A client for the Gemini protocol: a locator parser, the request line, the
//! decisions of one visit (connect, handshake, send, receive), the trust
//! policy applied to server certificates, and the state of a small
//! interactive front end.
pub mod client;
pub mod error;
pub mod interface;
pub mod request;
pub mod session;
pub mod text;
