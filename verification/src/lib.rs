//! Builds a VPK container: resolves declared sources into an ordered
//! manifest of archive entries and packs their bytes, stored uncompressed,
//! into a zip-shaped container held in memory.

pub mod errors;
pub mod manifest;
pub mod pack;
pub mod paths;
