//! Verified core of a globe tile engine.
//!
//! The crate turns vector-tile payloads into renderable triangle meshes:
//! it validates tile addresses, decodes the binary tile format, tessellates
//! polygon features, and coordinates an in-memory tile cache with
//! single-flight fetch deduplication.  Floating-point projection onto the
//! sphere is left to the embedding application; the core works in exact
//! integer and rational coordinates throughout.

pub mod tile;
pub mod varint;
pub mod geom;
pub mod decode;
pub mod mesh;
pub mod cache;
pub mod globe;
