//! An out-of-core location cache and a chunked multi-pass resolver for
//! planet-scale containers of point and edge entities.
//!
//! The library stores one fixed-width record per point identity in a backing
//! store (in memory, or a sparse file shared with the `osmnodecache` crate),
//! decodes container blocks into normalized point and edge entities, and
//! resolves edge references to coordinates in passes bounded by a memory
//! budget, merging per-worker statistics with a commutative combine.

pub mod block;
pub mod cache;
pub mod coords;
pub mod counting;
pub mod error;
pub mod features;
pub mod histogram;
pub mod population;
pub mod resolver;
pub mod stats;
pub mod tiles;
pub mod ways;

pub use coords::{BoundingBox, Coordinate};
