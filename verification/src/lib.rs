//! Immutable snapshots of inbound HTTP requests for a test-double server.
//!
//! A live request arrives as a method token, a request target, a list of
//! header pairs and a body source that can be drained exactly once. This
//! crate materializes all of that into an owned [`request::Request`]
//! snapshot that matchers can inspect synchronously and repeatedly, renders
//! a snapshot as diagnostic text, and decodes its body as structured data.

pub mod body;
pub mod decode;
pub mod headers;
pub mod render;
pub mod request;
pub mod target;
pub mod text;
