//! Codec for the RPM header format: the length-prefixed table of typed
//! entries that an RPM package carries twice, once as the signature header
//! and once as the main index header. The library parses and writes the
//! binary layout, models the ten tagged data flavors, and synthesizes
//! headers (with alignment padding and the self-describing region sentinel)
//! from entry lists.

pub mod accessors;
pub mod bytes;
pub mod data;
pub mod entry;
pub mod error;
pub mod header;
pub mod index_header;
pub mod laws;
pub mod signature;
pub mod tag;
