//! Request construction and response reporting for a small HTTP client.
//!
//! The library is the part of the client that can be reasoned about: it turns
//! the texts a user typed (method, URL, header block, body) into a request
//! description, and the outcome of the exchange into the text that is shown.
//! The exchange itself is made by the caller.

pub mod executor;
pub mod headers;
pub mod json;
pub mod method;
pub mod report;
pub mod request;
pub mod status;
pub mod text;
