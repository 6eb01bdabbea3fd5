//! Culling and visibility-search core of a chunked-voxel world renderer.
//!
//! The world is a sliding 256x256x256 window of 16x16x16-voxel sections.
//! Each section carries a compact face-to-face visibility datum.  Per frame,
//! the graph stamps a hierarchical bit-octree with the sections inside the
//! view volume, floods outward from the camera section through the section
//! visibility graph, and groups the visited sections into 8x4x8 regions in
//! first-touch order.
//!
//! All coordinates the library works on are integers.  The one
//! real-valued ingredient, the fog-and-frustum test of a node box, sits
//! behind the `ViewVolume` trait: the library proves its results
//! against whatever verdicts the volume gives, and ships a verified
//! integer fog cylinder.

use vstd::prelude::*;

pub mod collections;
pub mod context;
pub mod coord;
pub mod direction;
pub mod flags;
pub mod graph;
pub mod octree;
pub mod region;
pub mod visibility;

verus! {

/// Number of sections in the 256x256x256 window.
pub const SECTIONS_IN_GRAPH: usize = 256 * 256 * 256;

/// Largest supported view distance, in sections.
pub const MAX_VIEW_DISTANCE: u8 = 127;

/// Largest supported world height, in sections.
pub const MAX_WORLD_HEIGHT: u8 = 254;

} // verus!
