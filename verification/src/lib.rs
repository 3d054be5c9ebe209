//! Core of a URL-addressable image thumbnailing service.
//!
//! A request encodes a target size, alignment and orientation into a path,
//! guarded by a signed-URL scheme.  This crate holds the verified core of
//! that pipeline: signature verification of the request path, parsing of the
//! encoded transformation directives, and the aspect-ratio-preserving
//! "cover" resize-and-crop geometry.  Image decoding, pixel operations and
//! all I/O live outside the crate and consume the plans computed here.

pub mod calc;
pub mod pipeline;
pub mod security;
pub mod settings;
pub mod url_props;
