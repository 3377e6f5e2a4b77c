//! Recovery of label payloads from base64 text.
//!
//! A payload arrives as base64, possibly wrapped in a data-URI prefix and in
//! quotes. The crate cleans the text, decodes it, decides which of four label
//! formats the bytes are, and derives a timestamped file name for them.

pub mod chars;
pub mod codec;
pub mod detect;
pub mod naming;
pub mod pipeline;
pub mod sanitize;
pub mod strings;
pub mod text;
