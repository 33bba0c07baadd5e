//! What the library does, said of its inputs and results alone: by literal names,
//! by what documents hold under a key, and by how calls relate.
//!
//! - [`documents`]: what is found in a JSON document.
//! - [`requests`]: what the body of a request says of the request.
//! - [`responses`]: what an answer that is not streamed is read as.
//! - [`frames`]: what a server-sent event means.
//! - [`streams`]: what a step of a stream hands to its consumer.
//! - [`texts`] and [`bytes`]: searching, trimming, splitting and decoding.
//! - [`exchange`]: where requests go, with which headers, and what a status means.

pub mod bytes;
pub mod documents;
pub mod exchange;
pub mod frames;
pub mod requests;
pub mod responses;
pub mod streams;
pub mod texts;
