//! The request engine of a command-line HTTP tool: composing a request from
//! its description, deciding retries, collecting concurrent outcomes,
//! rendering a response and tracking a download. All of it is computed on
//! plain values; the network and the file system stay with the caller.

pub mod client;
pub mod compose;
pub mod config;
pub mod cookies;
pub mod download;
pub mod error;
pub mod fanout;
pub mod form;
pub mod headers;
pub mod json;
pub mod method;
pub mod outcome;
pub mod render;
pub mod retry;
pub mod text;
