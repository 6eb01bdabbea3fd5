//! Per-frame local coordinate context: the camera placed in the
//! 256-section window, the iteration bounds of the hierarchical cull,
//! and the axis wrap bookkeeping.
//!
//! The view volume itself (fog and frustum) is behind the `ViewVolume`
//! trait: the context hands it node bounding boxes in window block
//! coordinates, already shifted by the wrap offsets, and combines its
//! verdict with the world-height test.

use vstd::prelude::*;

use crate::coord::spec_morton;
use crate::coord::LocalNodeCoords;
use crate::coord::LocalNodeIndex;
use crate::direction::GraphDirection;
use crate::direction::GraphDirectionSet;
use crate::region::spec_region_index;
use crate::MAX_VIEW_DISTANCE;

verus! {

/// Blocks along one axis of the window: 256 sections of 16 blocks.
pub const WINDOW_BLOCKS: i32 = 4096;

/// How a node's box relates to the view volume.
#[derive(Clone, Copy, PartialEq, Eq, Structural, Debug)]
pub enum BoundsCheckResult {
    Outside,
    Partial,
    Inside,
}

impl BoundsCheckResult {
    pub open spec fn spec_rank(self) -> int {
        match self {
            BoundsCheckResult::Outside => 0,
            BoundsCheckResult::Partial => 1,
            BoundsCheckResult::Inside => 2,
        }
    }

    /// The weaker of two verdicts.
    pub open spec fn spec_combine(self, rhs: BoundsCheckResult) -> BoundsCheckResult {
        if self.spec_rank() <= rhs.spec_rank() {
            self
        } else {
            rhs
        }
    }

    /// The verdict whose rank is `val`.
    pub fn from_int_unchecked(val: u8) -> (r: BoundsCheckResult)
        requires
            val <= 2,
        ensures
            r.spec_rank() == val,
    {
        if val == 0 {
            BoundsCheckResult::Outside
        } else if val == 1 {
            BoundsCheckResult::Partial
        } else {
            BoundsCheckResult::Inside
        }
    }

    /// Combines two verdicts, keeping the weaker.
    pub fn combine(self, rhs: BoundsCheckResult) -> (r: BoundsCheckResult)
        ensures
            r == self.spec_combine(rhs),
    {
        let a = match self {
            BoundsCheckResult::Outside => 0u8,
            BoundsCheckResult::Partial => 1u8,
            BoundsCheckResult::Inside => 2u8,
        };
        let b = match rhs {
            BoundsCheckResult::Outside => 0u8,
            BoundsCheckResult::Partial => 1u8,
            BoundsCheckResult::Inside => 2u8,
        };
        if a <= b {
            self
        } else {
            rhs
        }
    }
}

/// An axis-aligned box in window block coordinates, wrap offsets
/// already applied, so every coordinate is camera-comparable.
#[derive(Clone, Copy, PartialEq, Eq, Structural, Debug)]
pub struct NodeBoundingBox {
    pub min_x: i32,
    pub min_y: i32,
    pub min_z: i32,
    pub max_x: i32,
    pub max_y: i32,
    pub max_z: i32,
}

impl NodeBoundingBox {
    /// Boxes the context produces stay within one window of the
    /// origin in every direction.
    pub open spec fn wf(self) -> bool {
        &&& -4096 <= self.min_x <= self.max_x <= 8320
        &&& -4096 <= self.min_y <= self.max_y <= 8320
        &&& -4096 <= self.min_z <= self.max_z <= 8320
    }
}

/// A view volume: fog and frustum.  `test_box` classifies a node box
/// as outside the volume, partially inside, or wholly inside, and must
/// agree with the volume's own specification `spec_test_box`.
pub trait ViewVolume: Sized {
    /// Whether the volume's own data is usable.  Unverified volumes
    /// outside the library leave the default, which assumes nothing.
    open spec fn spec_wf(&self) -> bool {
        true
    }

    /// The verdict `test_box` must return.  Unverified volumes
    /// outside the library leave the default and nothing is known of
    /// what they accept.
    open spec fn spec_test_box(&self, b: NodeBoundingBox) -> BoundsCheckResult {
        BoundsCheckResult::Outside
    }

    fn test_box(&self, b: &NodeBoundingBox) -> (r: BoundsCheckResult)
        requires
            self.spec_wf(),
            b.wf(),
        ensures
            r == self.spec_test_box(*b),
    ;
}

/// The absolute value of `v`.
pub open spec fn spec_abs(v: int) -> int {
    if v < 0 {
        -v
    } else {
        v
    }
}

/// The point of `[lo, hi]` closest to zero.
pub open spec fn spec_closest_to_zero(lo: int, hi: int) -> int {
    if lo > 0 {
        lo
    } else if hi < 0 {
        hi
    } else {
        0
    }
}

/// The endpoint of `[lo, hi]` farthest from zero.
pub open spec fn spec_farthest_from_zero(lo: int, hi: int) -> int {
    if spec_abs(lo) > spec_abs(hi) {
        lo
    } else {
        hi
    }
}

/// A view volume bounded only by fog: a vertical cylinder around the
/// camera, measured in the horizontal plane, with no frustum
/// narrowing.
pub struct FogCylinder {
    pub camera_block_x: i32,
    pub camera_block_z: i32,
    pub fog_distance_squared: i64,
}

impl FogCylinder {
    /// The squared horizontal distances from the camera to the box's
    /// closest and farthest points.
    pub open spec fn spec_distances(&self, b: NodeBoundingBox) -> (int, int) {
        let lo_x = b.min_x - self.camera_block_x;
        let hi_x = b.max_x - self.camera_block_x;
        let lo_z = b.min_z - self.camera_block_z;
        let hi_z = b.max_z - self.camera_block_z;
        let cx = spec_closest_to_zero(lo_x, hi_x);
        let cz = spec_closest_to_zero(lo_z, hi_z);
        let fx = spec_farthest_from_zero(lo_x, hi_x);
        let fz = spec_farthest_from_zero(lo_z, hi_z);
        (cx * cx + cz * cz, fx * fx + fz * fz)
    }
}

impl ViewVolume for FogCylinder {
    /// The camera stands inside the window.
    open spec fn spec_wf(&self) -> bool {
        &&& 0 <= self.camera_block_x < WINDOW_BLOCKS
        &&& 0 <= self.camera_block_z < WINDOW_BLOCKS
        &&& 0 <= self.fog_distance_squared
    }

    /// Inside when even the farthest point is within fog range,
    /// outside when even the closest is not, partial otherwise.
    open spec fn spec_test_box(&self, b: NodeBoundingBox) -> BoundsCheckResult {
        let (closest, farthest) = self.spec_distances(b);
        if farthest < self.fog_distance_squared {
            BoundsCheckResult::Inside
        } else if closest < self.fog_distance_squared {
            BoundsCheckResult::Partial
        } else {
            BoundsCheckResult::Outside
        }
    }

    fn test_box(&self, b: &NodeBoundingBox) -> (r: BoundsCheckResult) {
        let lo_x: i64 = b.min_x as i64 - self.camera_block_x as i64;
        let hi_x: i64 = b.max_x as i64 - self.camera_block_x as i64;
        let lo_z: i64 = b.min_z as i64 - self.camera_block_z as i64;
        let hi_z: i64 = b.max_z as i64 - self.camera_block_z as i64;
        let cx: i64 = if lo_x > 0 {
            lo_x
        } else if hi_x < 0 {
            hi_x
        } else {
            0
        };
        let cz: i64 = if lo_z > 0 {
            lo_z
        } else if hi_z < 0 {
            hi_z
        } else {
            0
        };
        let abs_lo_x: i64 = if lo_x < 0 {
            -lo_x
        } else {
            lo_x
        };
        let abs_hi_x: i64 = if hi_x < 0 {
            -hi_x
        } else {
            hi_x
        };
        let abs_lo_z: i64 = if lo_z < 0 {
            -lo_z
        } else {
            lo_z
        };
        let abs_hi_z: i64 = if hi_z < 0 {
            -hi_z
        } else {
            hi_z
        };
        let fx: i64 = if abs_lo_x > abs_hi_x {
            lo_x
        } else {
            hi_x
        };
        let fz: i64 = if abs_lo_z > abs_hi_z {
            lo_z
        } else {
            hi_z
        };
        proof {
            assert(cx * cx <= 0x10000000 && cx * cx >= 0) by (nonlinear_arith)
                requires
                    -16384 <= cx <= 16384,
            ;
            assert(cz * cz <= 0x10000000 && cz * cz >= 0) by (nonlinear_arith)
                requires
                    -16384 <= cz <= 16384,
            ;
            assert(fx * fx <= 0x10000000 && fx * fx >= 0) by (nonlinear_arith)
                requires
                    -16384 <= fx <= 16384,
            ;
            assert(fz * fz <= 0x10000000 && fz * fz >= 0) by (nonlinear_arith)
                requires
                    -16384 <= fz <= 16384,
            ;
        }
        let closest: i64 = cx * cx + cz * cz;
        let farthest: i64 = fx * fx + fz * fz;
        if farthest < self.fog_distance_squared {
            BoundsCheckResult::Inside
        } else if closest < self.fog_distance_squared {
            BoundsCheckResult::Partial
        } else {
            BoundsCheckResult::Outside
        }
    }
}

/// `v` reduced modulo 256 into a byte, as the window wraps.
pub fn wrap_mod_256(v: i64) -> (r: u8)
    ensures
        r as int == (v as int) % 256,
{
    let u: u64 = #[verifier::truncate] (v as u64);
    proof {
        assert(v >= 0 ==> (v as u64) as int == v as int) by (bit_vector);
        assert(v < 0 ==> (v as u64) as int == v as int + 0x10000000000000000) by (bit_vector);
        assert(((v as u64) & 255) as int == ((v as u64) as int) % 256) by (bit_vector);
        if v < 0 {
            vstd::arithmetic::div_mod::lemma_mod_multiples_vanish(
                0x100000000000000,
                v as int,
                256,
            );
        }
    }
    (u & 255) as u8
}

/// Exact division of `num` by the power of two `den`.
fn div_exact(num: i64, den: u64) -> (r: i64)
    requires
        den == 4 || den == 8,
        (num as int) % (den as int) == 0,
        -0x100000000 <= num <= 0x100000000,
    ensures
        r as int * den as int == num as int,
{
    if num >= 0 {
        let q = (num as u64) / den;
        proof {
            vstd::arithmetic::div_mod::lemma_fundamental_div_mod(num as int, den as int);
        }
        q as i64
    } else {
        proof {
            let k = (num as int) / (den as int);
            vstd::arithmetic::div_mod::lemma_fundamental_div_mod(num as int, den as int);
            assert(num as int == den as int * k);
            vstd::arithmetic::div_mod::lemma_mod_multiples_vanish(-k, 0, den as int);
            assert((-num as int) % (den as int) == 0);
        }
        let q = ((-num) as u64) / den;
        proof {
            vstd::arithmetic::div_mod::lemma_fundamental_div_mod(-num as int, den as int);
        }
        -(q as i64)
    }
}

/// Coordinates that are multiples of eight pack to a level-3-aligned
/// Morton index, and shifting a byte by zero leaves it unchanged.
pub(crate) proof fn lemma_aligned_morton(a: u8, b: u8, c: u8)
    by (bit_vector)
    requires
        a as int % 8 == 0,
        b as int % 8 == 0,
        c as int % 8 == 0,
    ensures
        spec_morton(a, b, c) & (((1u32 << (3 * 3)) - 1) as u32) == 0,
        a & 7 == 0 && b & 7 == 0 && c & 7 == 0,
        forall|v: u8| #[trigger] (v << 0) == v,
{
}

/// A level-size shift stays between one and eight sections.
proof fn lemma_size_shift(level: u8)
    by (bit_vector)
    requires
        level <= 3,
    ensures
        1 <= (1u32 << level) <= 8,
{
}

/// `v` reduced modulo 256 for the bounded differences the iteration
/// bookkeeping produces.
fn wrap_small_mod_256(v: i32) -> (r: u8)
    requires
        -512 <= v < 768,
    ensures
        r as int == (v as int) % 256,
{
    let w: i32 = if v < -256 {
        v + 512
    } else if v < 0 {
        v + 256
    } else if v >= 512 {
        v - 512
    } else if v >= 256 {
        v - 256
    } else {
        v
    };
    proof {
        vstd::arithmetic::div_mod::lemma_small_mod(w as nat, 256);
        if v < -256 {
            vstd::arithmetic::div_mod::lemma_mod_multiples_vanish(2, w as int, 256);
        } else if v < 0 {
            vstd::arithmetic::div_mod::lemma_mod_multiples_vanish(1, w as int, 256);
        } else if v >= 512 {
            vstd::arithmetic::div_mod::lemma_mod_multiples_vanish(2, w as int, 256);
        } else if v >= 256 {
            vstd::arithmetic::div_mod::lemma_mod_multiples_vanish(1, w as int, 256);
        }
    }
    w as u8
}

/// The floor quotient of `v` by 256, characterized by its remainder.
fn div_floor_256(v: i64) -> (r: i64)
    requires
        -0x100000000 <= v <= 0x100000000,
    ensures
        0 <= v - 256 * r < 256,
{
    if v >= 0 {
        let q = (v as u64) / 256;
        proof {
            vstd::arithmetic::div_mod::lemma_fundamental_div_mod(v as int, 256);
        }
        q as i64
    } else {
        let m = (-v) as u64;
        let q = (m + 255) / 256;
        proof {
            vstd::arithmetic::div_mod::lemma_fundamental_div_mod(m as int + 255, 256);
        }
        -(q as i64)
    }
}

/// Per-frame derived state: the camera in the window, the level-3
/// iteration bounds of the hierarchical cull, and the wrap flags that
/// say on which axes the view volume crosses the window seam.
pub struct LocalCoordContext {
    /// Camera section in window coordinates.
    pub camera_section_coords: LocalNodeCoords,
    /// Morton index of the camera section.
    pub camera_section_index: LocalNodeIndex,
    /// Global region coordinates of the window's (0, 0, 0) corner.
    pub origin_region_x: i32,
    pub origin_region_y: i32,
    pub origin_region_z: i32,
    /// World bounds in window section Y, bottom and top inclusive.
    pub world_bottom_section_y: u8,
    pub world_top_section_y: u8,
    /// Anchor of the first level-3 node the cull visits.
    pub iter_start_index: LocalNodeIndex,
    pub iter_start_section_coords: LocalNodeCoords,
    /// Level-3 nodes to visit along each axis.
    pub level_3_node_iter_counts: LocalNodeCoords,
    /// Whether the iteration runs past the low or the high edge of the
    /// window on each axis.
    pub can_underflow_x: bool,
    pub can_underflow_y: bool,
    pub can_underflow_z: bool,
    pub can_overflow_x: bool,
    pub can_overflow_y: bool,
    pub can_overflow_z: bool,
}

impl LocalCoordContext {
    pub open spec fn wf(self) -> bool {
        &&& self.camera_section_index.wf()
        &&& self.camera_section_index.spec_idx() == spec_morton(
            self.camera_section_coords.x,
            self.camera_section_coords.y,
            self.camera_section_coords.z,
        )
        &&& self.iter_start_index.wf()
        &&& self.iter_start_index.spec_idx() == spec_morton(
            self.iter_start_section_coords.x,
            self.iter_start_section_coords.y,
            self.iter_start_section_coords.z,
        )
        &&& self.iter_start_index.is_aligned(3)
        &&& self.iter_start_section_coords.x & 7 == 0
        &&& self.iter_start_section_coords.y & 7 == 0
        &&& self.iter_start_section_coords.z & 7 == 0
        &&& self.level_3_node_iter_counts.x <= 32
        &&& self.level_3_node_iter_counts.y <= 32
        &&& self.level_3_node_iter_counts.z <= 32
        &&& self.world_bottom_section_y <= self.world_top_section_y
        &&& !self.can_underflow_y
        &&& !(self.can_underflow_x && self.can_overflow_x)
        &&& !(self.can_underflow_z && self.can_overflow_z)
        &&& -0x40000000 <= self.origin_region_x <= 0x40000000
        &&& -0x40000000 <= self.origin_region_y <= 0x40000000
        &&& -0x40000000 <= self.origin_region_z <= 0x40000000
    }

    /// Builds the context from the camera's global section
    /// coordinates, the view distance in sections, and the world's
    /// bottom and top section Y.
    #[verifier::rlimit(80)]
    pub fn new(
        camera_global_section_x: i32,
        camera_global_section_y: i32,
        camera_global_section_z: i32,
        section_view_distance: u8,
        world_bottom_section_y: i8,
        world_top_section_y: i8,
    ) -> (r: LocalCoordContext)
        requires
            section_view_distance <= MAX_VIEW_DISTANCE,
            world_bottom_section_y <= world_top_section_y,
            world_top_section_y as int - world_bottom_section_y as int + 1 <= 254,
        ensures
            r.wf(),
            r.camera_section_coords.x as int == (camera_global_section_x as int) % 256,
            r.camera_section_coords.y as int == (camera_global_section_y as int + 128) % 256,
            r.camera_section_coords.z as int == (camera_global_section_z as int) % 256,
            r.origin_region_x as int * 8 == camera_global_section_x as int
                - r.camera_section_coords.x as int,
            r.origin_region_y as int * 4 == camera_global_section_y as int
                - r.camera_section_coords.y as int,
            r.origin_region_z as int * 8 == camera_global_section_z as int
                - r.camera_section_coords.z as int,
            r.world_bottom_section_y as int == world_bottom_section_y as int + 128,
            r.world_top_section_y as int == world_top_section_y as int + 128,
            r.iter_start_section_coords.x as int == ((r.camera_section_coords.x as int
                - section_view_distance as int) % 256) - ((r.camera_section_coords.x as int
                - section_view_distance as int) % 256) % 8,
            r.iter_start_section_coords.y as int == r.world_bottom_section_y as int
                - r.world_bottom_section_y as int % 8,
            r.iter_start_section_coords.z as int == ((r.camera_section_coords.z as int
                - section_view_distance as int) % 256) - ((r.camera_section_coords.z as int
                - section_view_distance as int) % 256) % 8,
            r.can_underflow_x == (r.camera_section_coords.x < section_view_distance),
            r.can_underflow_z == (r.camera_section_coords.z < section_view_distance),
            r.can_overflow_x == (r.camera_section_coords.x as int + section_view_distance as int
                + 1 > 256 && !r.can_underflow_x),
            r.can_overflow_y == (r.world_top_section_y as int + 1 > 256),
            r.can_overflow_z == (r.camera_section_coords.z as int + section_view_distance as int
                + 1 > 256 && !r.can_underflow_z),
    {
        let sv = section_view_distance;
        let wb: u8 = ((world_bottom_section_y as i32) + 128) as u8;
        let wt: u8 = ((world_top_section_y as i32) + 128) as u8;
        let lx = wrap_mod_256(camera_global_section_x as i64);
        let ly = wrap_mod_256(camera_global_section_y as i64 + 128);
        let lz = wrap_mod_256(camera_global_section_z as i64);
        let camera_section_coords = LocalNodeCoords::from_xyz(lx, ly, lz);
        let camera_section_index = LocalNodeIndex::pack(camera_section_coords, 0);

        let origin_region_x = Self::origin_axis(camera_global_section_x as i64, lx, 8);
        let origin_region_y = Self::origin_axis(camera_global_section_y as i64 + 128, ly, 4);
        let origin_region_z = Self::origin_axis(camera_global_section_z as i64, lz, 8);

        let (sxa, can_underflow_x, can_overflow_x, count_x) = Self::axis_window(lx, sv);
        let (sza, can_underflow_z, can_overflow_z, count_z) = Self::axis_window(lz, sv);
        let (sya, can_overflow_y, count_y) = Self::axis_window_y(wb, wt);

        let iter_start_section_coords = LocalNodeCoords::from_xyz(sxa, sya, sza);
        let iter_start_index = LocalNodeIndex::pack(iter_start_section_coords, 0);
        proof {
            lemma_aligned_morton(sxa, sya, sza);
        }
        let level_3_node_iter_counts = LocalNodeCoords::from_xyz(count_x, count_y, count_z);

        LocalCoordContext {
            camera_section_coords,
            camera_section_index,
            origin_region_x,
            origin_region_y: ((origin_region_y as i64) - 32) as i32,
            origin_region_z,
            world_bottom_section_y: wb,
            world_top_section_y: wt,
            iter_start_index,
            iter_start_section_coords,
            level_3_node_iter_counts,
            can_underflow_x,
            can_underflow_y: false,
            can_underflow_z,
            can_overflow_x,
            can_overflow_y,
            can_overflow_z,
        }
    }

    /// The signed count of region lengths between the window origin
    /// and the global origin on one axis: the multiple-of-256 part of
    /// the camera coordinate, divided by the region length `den`.
    fn origin_axis(cg: i64, local: u8, den: u64) -> (r: i32)
        requires
            -0x80000000 <= cg <= 0x80000080,
            local as int == (cg as int) % 256,
            den == 4 || den == 8,
        ensures
            r as int * den as int == cg as int - local as int,
    {
        let k = div_floor_256(cg);
        proof {
            vstd::arithmetic::div_mod::lemma_fundamental_div_mod(cg as int, 256);
        }
        if den == 8 {
            (32 * k) as i32
        } else {
            (64 * k) as i32
        }
    }

    /// The aligned iteration start, the wrap flags and the level-3
    /// node count of one horizontal axis.
    fn axis_window(local: u8, sv: u8) -> (r: (u8, bool, bool, u8))
        requires
            sv <= 127,
        ensures
            ({
                let (start_aligned, under, over, count) = r;
                let start_tmp = local as int - sv as int;
                let end_tmp = start_tmp + 2 * sv + 1;
                &&& start_aligned as int == (start_tmp % 256) - (start_tmp % 256) % 8
                &&& start_aligned as int % 8 == 0
                &&& under == (start_tmp < 0)
                &&& over == (end_tmp > 256 && !under)
                &&& count as int == (((end_tmp + 7 - start_aligned) as int) % 256) / 8
                &&& count <= 32
            }),
    {
        let start_tmp: i32 = local as i32 - sv as i32;
        let under = start_tmp < 0;
        let sx = wrap_small_mod_256(start_tmp);
        let start_aligned: u8 = sx - sx % 8;
        let view_cube_length: i32 = 2 * (sv as i32) + 1;
        let end_tmp: i32 = start_tmp + view_cube_length;
        let over = end_tmp > 256 && !under;
        let count = Self::count_level_3(end_tmp, start_aligned);
        (start_aligned, under, over, count)
    }

    /// The aligned iteration start, the overflow flag and the level-3
    /// node count of the vertical axis, which runs over the whole
    /// world height and never wraps below the window.
    fn axis_window_y(wb: u8, wt: u8) -> (r: (u8, bool, u8))
        requires
            wb <= wt,
        ensures
            ({
                let (start_aligned, over, count) = r;
                let end_tmp = wt as int + 1;
                &&& start_aligned as int == wb as int - wb as int % 8
                &&& start_aligned as int % 8 == 0
                &&& over == (end_tmp > 256)
                &&& count as int == (((end_tmp + 7 - start_aligned) as int) % 256) / 8
                &&& count <= 32
            }),
    {
        let start_aligned: u8 = wb - wb % 8;
        let end_tmp: i32 = wt as i32 + 1;
        let over = end_tmp > 256;
        let count = Self::count_level_3(end_tmp, start_aligned);
        (start_aligned, over, count)
    }

    /// Number of level-3 nodes from the aligned start `start_aligned`
    /// up to and including the one holding position `end_tmp - 1`.
    fn count_level_3(end_tmp: i32, start_aligned: u8) -> (r: u8)
        requires
            -126 <= end_tmp <= 511,
            start_aligned as int % 8 == 0,
            start_aligned <= 248,
        ensures
            r <= 32,
            r as int == (((end_tmp + 7 - start_aligned) as int) % 256) / 8,
    {
        let d: i32 = end_tmp + 7 - (start_aligned as i32);
        let du = wrap_small_mod_256(d);
        let r = du / 8;
        proof {
            vstd::arithmetic::div_mod::lemma_fundamental_div_mod(du as int, 8);
        }
        r
    }
}


/// How the region slot and the window seam read off the coordinate
/// bits: equal slots share their high coordinate bits, high bits
/// decide seam comparisons against level-3-aligned starts, and the
/// high bits are bounded by the region grid.
proof fn lemma_region_slot_bits(x: u8, y: u8, z: u8, x2: u8, y2: u8, z2: u8, sx: u8, sy: u8, sz: u8)
    by (bit_vector)
    requires
        sx & 7 == 0,
        sy & 7 == 0,
        sz & 7 == 0,
    ensures
        spec_region_index(x, y, z) == spec_region_index(x2, y2, z2) <==> (x >> 3 == x2 >> 3 && y
            >> 2 == y2 >> 2 && z >> 3 == z2 >> 3),
        x >> 3 <= 31 && y >> 2 <= 63 && z >> 3 <= 31,
        x >> 3 == x2 >> 3 ==> ((x < sx) == (x2 < sx)),
        y >> 2 == y2 >> 2 ==> ((y < sy) == (y2 < sy)),
        z >> 3 == z2 >> 3 ==> ((z < sz) == (z2 < sz)),
{
}

impl LocalCoordContext {
    /// Whether the section at `coord` lies before the iteration start
    /// on the given axis, meaning its position wrapped around the
    /// window seam.
    pub open spec fn spec_wrapped_x(self, coord: u8) -> bool {
        coord < self.iter_start_section_coords.x
    }

    pub open spec fn spec_wrapped_y(self, coord: u8) -> bool {
        coord < self.iter_start_section_coords.y
    }

    pub open spec fn spec_wrapped_z(self, coord: u8) -> bool {
        coord < self.iter_start_section_coords.z
    }

    /// The block offset that moves a wrapped coordinate back to the
    /// camera's side of the seam.
    pub open spec fn spec_block_offset(can_under: bool, can_over: bool, wrapped: bool) -> int {
        if wrapped {
            if can_over {
                4096
            } else {
                0
            }
        } else {
            if can_under {
                -4096
            } else {
                0
            }
        }
    }

    /// The region offset matching `spec_block_offset`, in regions of
    /// length `dim`.
    pub open spec fn spec_region_offset(can_under: bool, can_over: bool, wrapped: bool, dim: int) -> int {
        if wrapped {
            if can_over {
                dim
            } else {
                0
            }
        } else {
            if can_under {
                -dim
            } else {
                0
            }
        }
    }

    /// The wrap-adjusted block bounding box of the level-`level` node
    /// whose anchor section is at `c`.
    pub open spec fn spec_node_bounds(self, c: LocalNodeCoords, level: u8) -> NodeBoundingBox {
        let ox = Self::spec_block_offset(self.can_underflow_x, self.can_overflow_x, self.spec_wrapped_x(c.x));
        let oy = Self::spec_block_offset(self.can_underflow_y, self.can_overflow_y, self.spec_wrapped_y(c.y));
        let oz = Self::spec_block_offset(self.can_underflow_z, self.can_overflow_z, self.spec_wrapped_z(c.z));
        let size = 16 * (1u32 << level);
        NodeBoundingBox {
            min_x: (c.x * 16 + ox) as i32,
            min_y: (c.y * 16 + oy) as i32,
            min_z: (c.z * 16 + oz) as i32,
            max_x: (c.x * 16 + ox + size) as i32,
            max_y: (c.y * 16 + oy + size) as i32,
            max_z: (c.z * 16 + oz + size) as i32,
        }
    }

    fn block_offset(can_under: bool, can_over: bool, wrapped: bool) -> (r: i32)
        ensures
            r as int == Self::spec_block_offset(can_under, can_over, wrapped),
    {
        if wrapped {
            if can_over {
                4096
            } else {
                0
            }
        } else {
            if can_under {
                -4096
            } else {
                0
            }
        }
    }

    /// Computes the wrap-adjusted block bounding box of a node.
    pub fn node_get_local_bounds(&self, c: LocalNodeCoords, level: u8) -> (r: NodeBoundingBox)
        requires
            self.wf(),
            level <= 3,
        ensures
            r == self.spec_node_bounds(c, level),
            r.wf(),
    {
        let ox = Self::block_offset(self.can_underflow_x, self.can_overflow_x, c.x < self.iter_start_section_coords.x);
        let oy = Self::block_offset(self.can_underflow_y, self.can_overflow_y, c.y < self.iter_start_section_coords.y);
        let oz = Self::block_offset(self.can_underflow_z, self.can_overflow_z, c.z < self.iter_start_section_coords.z);
        proof {
            lemma_size_shift(level);
        }
        let size: i32 = (16 * (1u32 << (level as u32))) as i32;
        NodeBoundingBox {
            min_x: (c.x as i32) * 16 + ox,
            min_y: (c.y as i32) * 16 + oy,
            min_z: (c.z as i32) * 16 + oz,
            max_x: (c.x as i32) * 16 + ox + size,
            max_y: (c.y as i32) * 16 + oy + size,
            max_z: (c.z as i32) * 16 + oz + size,
        }
    }

    /// The world-height verdict of a node: whether its Y extent lies
    /// within the world's bottom and top sections.
    pub open spec fn spec_height_check(self, c: LocalNodeCoords, level: u8) -> BoundsCheckResult {
        let node_min = c.y as int;
        let node_max = c.y as int + (1u32 << level) - 1;
        let min_in = self.world_bottom_section_y <= node_min <= self.world_top_section_y;
        let max_in = self.world_bottom_section_y <= node_max <= self.world_top_section_y;
        if min_in && max_in {
            BoundsCheckResult::Inside
        } else if min_in || max_in {
            BoundsCheckResult::Partial
        } else {
            BoundsCheckResult::Outside
        }
    }

    /// Tests a node's Y extent against the world's height bounds.
    pub fn bounds_inside_world_height(&self, c: LocalNodeCoords, level: u8) -> (r:
        BoundsCheckResult)
        requires
            self.wf(),
            level <= 3,
        ensures
            r == self.spec_height_check(c, level),
    {
        proof {
            lemma_size_shift(level);
        }
        let node_min_y: u32 = c.y as u32;
        let node_max_y: u32 = node_min_y + (1u32 << (level as u32)) - 1;
        let world_min_y: u32 = self.world_bottom_section_y as u32;
        let world_max_y: u32 = self.world_top_section_y as u32;
        let min_in = node_min_y >= world_min_y && node_min_y <= world_max_y;
        let max_in = node_max_y >= world_min_y && node_max_y <= world_max_y;
        if min_in && max_in {
            BoundsCheckResult::Inside
        } else if min_in || max_in {
            BoundsCheckResult::Partial
        } else {
            BoundsCheckResult::Outside
        }
    }

    /// The full verdict of a node: the view volume's verdict combined
    /// with the world-height verdict.
    pub open spec fn spec_test_node<V: ViewVolume>(self, volume: V, c: LocalNodeCoords, level: u8) -> BoundsCheckResult {
        volume.spec_test_box(self.spec_node_bounds(c, level)).spec_combine(
            self.spec_height_check(c, level),
        )
    }

    /// Classifies the node against fog, frustum and world height.
    pub fn test_node<V: ViewVolume>(&self, volume: &V, c: LocalNodeCoords, level: u8) -> (r:
        BoundsCheckResult)
        requires
            self.wf(),
            volume.spec_wf(),
            level <= 3,
        ensures
            r == self.spec_test_node(*volume, c, level),
    {
        let bounds = self.node_get_local_bounds(c, level);
        let mut result = volume.test_box(&bounds);
        if !(result == BoundsCheckResult::Outside) {
            result = result.combine(self.bounds_inside_world_height(c, level));
        }
        result
    }

    /// Whether each axis of the section wrapped around the window
    /// seam, read off its position against the iteration start.
    pub fn get_axis_wrap_directions(&self, c: LocalNodeCoords) -> (r: (bool, bool, bool))
        requires
            self.wf(),
        ensures
            r == (self.spec_wrapped_x(c.x), self.spec_wrapped_y(c.y), self.spec_wrapped_z(c.z)),
    {
        (
            c.x < self.iter_start_section_coords.x,
            c.y < self.iter_start_section_coords.y,
            c.z < self.iter_start_section_coords.z,
        )
    }

    /// Whether stepping from the section at `c` along `d` moves toward
    /// the camera, window wrap accounted for.
    pub open spec fn spec_valid_direction(self, c: LocalNodeCoords, d: GraphDirection) -> bool {
        let wx = if self.spec_wrapped_x(c.x) {
            self.can_overflow_x
        } else {
            self.can_underflow_x
        };
        let wy = if self.spec_wrapped_y(c.y) {
            self.can_overflow_y
        } else {
            self.can_underflow_y
        };
        let wz = if self.spec_wrapped_z(c.z) {
            self.can_overflow_z
        } else {
            self.can_underflow_z
        };
        match d {
            GraphDirection::NegX => (c.x <= self.camera_section_coords.x) != wx,
            GraphDirection::NegY => (c.y <= self.camera_section_coords.y) != wy,
            GraphDirection::NegZ => (c.z <= self.camera_section_coords.z) != wz,
            GraphDirection::PosX => (c.x >= self.camera_section_coords.x) != wx,
            GraphDirection::PosY => (c.y >= self.camera_section_coords.y) != wy,
            GraphDirection::PosZ => (c.z >= self.camera_section_coords.z) != wz,
        }
    }

    /// The directions from the section at `c` that point toward the
    /// camera.
    pub fn get_valid_directions(&self, c: LocalNodeCoords, axis_wrap_directions: (bool, bool, bool)) -> (r: GraphDirectionSet)
        requires
            self.wf(),
            axis_wrap_directions == (
                self.spec_wrapped_x(c.x),
                self.spec_wrapped_y(c.y),
                self.spec_wrapped_z(c.z),
            ),
        ensures
            r.wf(),
            forall|d: GraphDirection|
                #[trigger] r.spec_contains(d) == self.spec_valid_direction(c, d),
    {
        let (wrx, wry, wrz) = axis_wrap_directions;
        let wx = if wrx {
            self.can_overflow_x
        } else {
            self.can_underflow_x
        };
        let wy = if wry {
            self.can_overflow_y
        } else {
            self.can_underflow_y
        };
        let wz = if wrz {
            self.can_overflow_z
        } else {
            self.can_underflow_z
        };
        let mut r = GraphDirectionSet::none();
        if (c.x <= self.camera_section_coords.x) != wx {
            r.add(GraphDirection::NegX);
        }
        if (c.y <= self.camera_section_coords.y) != wy {
            r.add(GraphDirection::NegY);
        }
        if (c.z <= self.camera_section_coords.z) != wz {
            r.add(GraphDirection::NegZ);
        }
        if (c.x >= self.camera_section_coords.x) != wx {
            r.add(GraphDirection::PosX);
        }
        if (c.y >= self.camera_section_coords.y) != wy {
            r.add(GraphDirection::PosY);
        }
        if (c.z >= self.camera_section_coords.z) != wz {
            r.add(GraphDirection::PosZ);
        }
        r
    }

    /// The global coordinates of the region holding the section at
    /// local coordinates (x, y, z).
    pub open spec fn spec_region_coords(self, x: u8, y: u8, z: u8) -> (i32, i32, i32) {
        let selx = Self::spec_region_offset(self.can_underflow_x, self.can_overflow_x, self.spec_wrapped_x(x), 32);
        let sely = Self::spec_region_offset(self.can_underflow_y, self.can_overflow_y, self.spec_wrapped_y(y), 64);
        let selz = Self::spec_region_offset(self.can_underflow_z, self.can_overflow_z, self.spec_wrapped_z(z), 32);
        (
            (self.origin_region_x + (x >> 3) + selx) as i32,
            (self.origin_region_y + (y >> 2) + sely) as i32,
            (self.origin_region_z + (z >> 3) + selz) as i32,
        )
    }

    fn region_offset(can_under: bool, can_over: bool, wrapped: bool, dim: i32) -> (r: i32)
        requires
            dim == 32 || dim == 64,
        ensures
            r as int == Self::spec_region_offset(can_under, can_over, wrapped, dim as int),
    {
        if wrapped {
            if can_over {
                dim
            } else {
                0
            }
        } else {
            if can_under {
                -dim
            } else {
                0
            }
        }
    }

    /// Computes the global coordinates of the region holding the
    /// section at `c`.
    pub fn region_coords_of(&self, c: LocalNodeCoords) -> (r: (i32, i32, i32))
        requires
            self.wf(),
        ensures
            r == self.spec_region_coords(c.x, c.y, c.z),
            r != (
                crate::region::UNDEFINED_REGION_COORD,
                crate::region::UNDEFINED_REGION_COORD,
                crate::region::UNDEFINED_REGION_COORD,
            ),
    {
        let selx = Self::region_offset(self.can_underflow_x, self.can_overflow_x, c.x < self.iter_start_section_coords.x, 32);
        let sely = Self::region_offset(self.can_underflow_y, self.can_overflow_y, c.y < self.iter_start_section_coords.y, 64);
        let selz = Self::region_offset(self.can_underflow_z, self.can_overflow_z, c.z < self.iter_start_section_coords.z, 32);
        proof {
            lemma_region_slot_bits(
                c.x,
                c.y,
                c.z,
                c.x,
                c.y,
                c.z,
                self.iter_start_section_coords.x,
                self.iter_start_section_coords.y,
                self.iter_start_section_coords.z,
            );
        }
        (
            self.origin_region_x + ((c.x >> 3) as i32) + selx,
            self.origin_region_y + ((c.y >> 2) as i32) + sely,
            self.origin_region_z + ((c.z >> 3) as i32) + selz,
        )
    }

    /// Sections in the same region slot lie on the same side of every
    /// wrap seam, so the slot determines the region's global
    /// coordinates.
    pub proof fn lemma_region_coords_uniform(self, x: u8, y: u8, z: u8, x2: u8, y2: u8, z2: u8)
        requires
            self.wf(),
            spec_region_index(x, y, z) == spec_region_index(x2, y2, z2),
        ensures
            self.spec_region_coords(x, y, z) == self.spec_region_coords(x2, y2, z2),
    {
        lemma_region_slot_bits(
            x,
            y,
            z,
            x2,
            y2,
            z2,
            self.iter_start_section_coords.x,
            self.iter_start_section_coords.y,
            self.iter_start_section_coords.z,
        );
    }

    /// Sections in different region slots are given different global
    /// region coordinates.
    pub proof fn lemma_region_coords_injective(self, x: u8, y: u8, z: u8, x2: u8, y2: u8, z2: u8)
        requires
            self.wf(),
            spec_region_index(x, y, z) != spec_region_index(x2, y2, z2),
        ensures
            self.spec_region_coords(x, y, z) != self.spec_region_coords(x2, y2, z2),
    {
        lemma_region_slot_bits(
            x,
            y,
            z,
            x2,
            y2,
            z2,
            self.iter_start_section_coords.x,
            self.iter_start_section_coords.y,
            self.iter_start_section_coords.z,
        );
        lemma_region_slot_bits(
            x2,
            y2,
            z2,
            x,
            y,
            z,
            self.iter_start_section_coords.x,
            self.iter_start_section_coords.y,
            self.iter_start_section_coords.z,
        );
        if self.spec_region_coords(x, y, z) == self.spec_region_coords(x2, y2, z2) {
            let selx = Self::spec_region_offset(
                self.can_underflow_x,
                self.can_overflow_x,
                self.spec_wrapped_x(x),
                32,
            );
            let selx2 = Self::spec_region_offset(
                self.can_underflow_x,
                self.can_overflow_x,
                self.spec_wrapped_x(x2),
                32,
            );
            let sely = Self::spec_region_offset(
                self.can_underflow_y,
                self.can_overflow_y,
                self.spec_wrapped_y(y),
                64,
            );
            let sely2 = Self::spec_region_offset(
                self.can_underflow_y,
                self.can_overflow_y,
                self.spec_wrapped_y(y2),
                64,
            );
            let selz = Self::spec_region_offset(
                self.can_underflow_z,
                self.can_overflow_z,
                self.spec_wrapped_z(z),
                32,
            );
            let selz2 = Self::spec_region_offset(
                self.can_underflow_z,
                self.can_overflow_z,
                self.spec_wrapped_z(z2),
                32,
            );
            assert(-32 <= selx <= 32 && -32 <= selx2 <= 32);
            assert(-64 <= sely <= 64 && -64 <= sely2 <= 64);
            assert(-32 <= selz <= 32 && -32 <= selz2 <= 32);
            let vx = self.origin_region_x + (x >> 3) + selx;
            let vx2 = self.origin_region_x + (x2 >> 3) + selx2;
            let vy = self.origin_region_y + (y >> 2) + sely;
            let vy2 = self.origin_region_y + (y2 >> 2) + sely2;
            let vz = self.origin_region_z + (z >> 3) + selz;
            let vz2 = self.origin_region_z + (z2 >> 3) + selz2;
            assert(vx as i32 == vx && vx2 as i32 == vx2);
            assert(vy as i32 == vy && vy2 as i32 == vy2);
            assert(vz as i32 == vz && vz2 as i32 == vz2);
            assert((x >> 3) + selx == (x2 >> 3) + selx2);
            assert((y >> 2) + sely == (y2 >> 2) + sely2);
            assert((z >> 3) + selz == (z2 >> 3) + selz2);
            assert(x >> 3 == x2 >> 3);
            assert(y >> 2 == y2 >> 2);
            assert(z >> 3 == z2 >> 3);
            assert(false);
        }
    }
}

} // verus!
