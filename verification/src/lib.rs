//! A small JSON-RPC 2.0 library: the JSON value model, the server's request
//! dispatch with its response envelopes, batches and error codes, the
//! client's request ids and reply reading, and the echo servers that precede
//! the protocol.
pub mod json;
pub mod text;
pub mod parse;
pub mod rpc;
pub mod client;
pub mod echo;
