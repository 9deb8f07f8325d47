//! Verified core of an EPUB reading application.
//!
//! The library normalizes the document graph of an EPUB container (spine
//! order, manifest resources, table-of-contents labels, internal paths) into
//! one in-memory book model, answers page / TOC / identifier / path queries
//! against it, and keeps reading progress in a library table keyed by a
//! content checksum. Opening and decoding the container itself is delegated
//! to the `epub` crate behind a small set of trusted wrappers; everything
//! built on top of those wrappers is verified.

pub mod book;
pub mod checksum;
pub mod container;
pub mod introspect;
pub mod laws;
pub mod library;
pub mod normalize;
pub mod reader;
