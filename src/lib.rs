//! An in-memory key-value store of JSON objects, reached through two small
//! line protocols: an HTTP-like one and a RESP-like one.
pub mod http;
pub mod json_text;
pub mod laws;
pub mod payload;
pub mod resp;
pub mod server;
pub mod store;
pub mod text;
