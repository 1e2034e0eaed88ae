//! Extraction logic for Unity asset-exchange archives: a tar stream whose
//! entries are grouped into buckets named by a 128-bit hexadecimal identifier.
//! Each bucket holds up to four members (`asset`, `asset.meta`, `pathname`,
//! `preview.png`); the library decides where each member's content goes.

pub mod hex;
pub mod member;
pub mod correlate;
pub mod tree;
pub mod unpack;
pub mod laws;
