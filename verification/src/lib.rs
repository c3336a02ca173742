//! Recompression engine for LZSS-compressed assets embedded in a flat ROM
//! image: a verified LZSS decoder, a recompression codec around an external
//! compressor, bounds-checked byte-slice access, bank-address translation,
//! and the table-driven orchestration that splices recompressed assets and
//! rewrites pointer tables.

pub mod aplib;
pub mod checked_get;
pub mod error;
pub mod lzss;
pub mod rom;
pub mod get_checked;
pub mod hash;
pub mod hex;
