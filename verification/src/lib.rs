//! Verified core of a provider for the Anthropic Messages API.
//!
//! - [`provider`]: where requests go, with which headers and body, and what the
//!   status of a reply means.
//! - [`request`]: the body of a request.
//! - [`response`]: the answer to a request that is not streamed.
//! - [`utf8_stream`], [`sse`] and [`stream`]: from the bytes of a streamed answer
//!   to text, from text to frames, and from frames to the chunks a consumer sees.
//! - [`session`]: what holds of all that a consumer gets from a stream.
//! - [`laws`]: what the functions of the modules above do, each said of inputs and
//!   results alone.
//! - [`json`] and [`json_text`]: JSON documents, and reading them from text.
//! - [`types`] and [`text`]: what the modules above share.

pub mod json;
pub mod json_text;
pub mod laws;
pub mod provider;
pub mod request;
pub mod response;
pub mod session;
pub mod sse;
pub mod stream;
pub mod text;
pub mod types;
pub mod utf8_stream;
