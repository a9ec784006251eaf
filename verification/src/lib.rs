//! A verified binary-space-partition (BSP) compiler for classic
//! linedef/vertex/sector level maps.
//!
//! The crate turns a read-only snapshot of map geometry into the auxiliary
//! structures a renderer needs: a BSP tree over oriented wall fragments
//! (`Seg`s), a uniform spatial grid over linedefs (the blockmap), and
//! leaf-level groupings of fragments (`Subsector`s).
//!
//! All geometry is carried out in exact rational arithmetic, so the
//! classification, splitting and tree construction are proved against exact
//! mathematical models rather than floating-point approximations.

pub mod blockmap;
pub mod errors;
pub mod geometry;
pub mod laws;
pub mod level;
pub mod map_data;
pub mod partition;
pub mod rat;
pub mod seg;
pub mod subsector;
pub mod tree;

pub use blockmap::{Block, BLOCK_SIZE};
pub use errors::GeometryError;
pub use geometry::{BoundingBox, Line2D, Point2D};
pub use level::BspLevel;
pub use map_data::{LineDef, MapSnapshot, Sector, SideDef, Thing, Vertex};
pub use partition::SegPosition;
pub use rat::Rat;
pub use seg::{Seg, SegmentSide};
pub use subsector::Subsector;
pub use tree::{BspNode, BSP_DEPTH_LIMIT, LEAF_THRESHOLD};
