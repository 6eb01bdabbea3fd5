//! The section graph: per-section visibility storage, the hierarchical
//! frustum/fog cull, the breadth-first visibility flood, and the
//! region-grouped output.

use vstd::prelude::*;

use crate::collections::lemma_no_dup_u8_len;
use crate::collections::ArrayDeque;
use crate::collections::CInlineVec;
use crate::context::BoundsCheckResult;
use crate::context::LocalCoordContext;
use crate::context::ViewVolume;
use crate::coord::lemma_aligned_level0;
use crate::coord::lemma_pack_unpack;
use crate::coord::spec_morton;
use crate::coord::spec_wrap_inc;
use crate::coord::spec_x;
use crate::coord::spec_y;
use crate::coord::spec_z;
use crate::coord::LocalNodeIndex;
use crate::direction::lemma_mask_bits;
use crate::direction::GraphDirection;
use crate::direction::GraphDirectionSet;
use crate::octree::spec_bit;
use crate::octree::spec_in_node;
use crate::octree::LinearBitOctree;
use crate::region::lemma_recover;
use crate::region::spec_recover_x;
use crate::region::spec_recover_y;
use crate::region::spec_recover_z;
use crate::region::spec_region_index;
use crate::region::spec_section_index;
use crate::region::RegionRenderList;
use crate::region::StagingRegionRenderLists;
use crate::region::REGIONS_IN_GRAPH;
use crate::visibility::VisibilityData;
use crate::MAX_VIEW_DISTANCE;
use crate::MAX_WORLD_HEIGHT;
use crate::SECTIONS_IN_GRAPH;

verus! {

/// The local coordinates of the section holding the global section
/// coordinates (x, y, z): x and z wrap at 256, y is lifted by 128.
pub open spec fn spec_local_coords(x: int, y: int, z: int) -> (u8, u8, u8) {
    ((x % 256) as u8, ((y + 128) % 256) as u8, (z % 256) as u8)
}

/// The Morton index of the section holding global coordinates
/// (x, y, z).
pub open spec fn spec_section_index_of(x: int, y: int, z: int) -> u32 {
    spec_morton(
        spec_local_coords(x, y, z).0,
        spec_local_coords(x, y, z).1,
        spec_local_coords(x, y, z).2,
    )
}

/// The Morton index of the section staged on slot `r` under in-region
/// index `s`.
pub open spec fn spec_staged_section(r: u16, s: u8) -> u32 {
    spec_morton(spec_recover_x(r, s), spec_recover_y(r, s), spec_recover_z(r, s))
}

/// The global coordinates of the region at slot `r`, which every
/// section of the slot agrees on.
pub open spec fn spec_slot_coords(ctx: LocalCoordContext, r: u16) -> (i32, i32, i32) {
    ctx.spec_region_coords(spec_recover_x(r, 0), spec_recover_y(r, 0), spec_recover_z(r, 0))
}

/// What an output of `cull_and_sort` looks like when the region list
/// `src` names its entries' regions: the regions are distinct, every
/// entry copies its region's coordinates, and no entry stages a
/// section twice.
pub open spec fn spec_output_from(
    ctx: LocalCoordContext,
    entries: Seq<RegionRenderList>,
    src: Seq<u16>,
) -> bool {
    &&& src.no_duplicates()
    &&& src.len() == entries.len()
    &&& forall|i: int|
        0 <= i < src.len() ==> (#[trigger] src[i]) < 0x10000 && entries[i].spec_coords()
            == spec_slot_coords(ctx, src[i]) && entries[i].view().no_duplicates()
            && entries[i].view().len() > 0
}

/// A `cull_and_sort` output with some naming of its entries' regions.
pub open spec fn spec_output_ok(ctx: LocalCoordContext, entries: Seq<RegionRenderList>) -> bool {
    exists|src: Seq<u16>| #[trigger] spec_output_from(ctx, entries, src)
}

/// Every section of every output entry was stamped visible by the
/// frustum/fog pass for this frame's context and view volume.
pub open spec fn spec_output_sections_visible<V: ViewVolume>(
    ctx: LocalCoordContext,
    volume: V,
    entries: Seq<RegionRenderList>,
    src: Seq<u16>,
) -> bool {
    forall|i: int, m: int|
        #![trigger entries[i].view()[m], src[i]]
        0 <= i < src.len() && 0 <= m < entries[i].view().len() ==> spec_cull_visible(
            ctx,
            volume,
            spec_staged_section(src[i], entries[i].view()[m]),
        )
}

/// Whether some output entry is the camera section's region and
/// stages the camera section itself.
pub open spec fn spec_camera_emitted(
    ctx: LocalCoordContext,
    entries: Seq<RegionRenderList>,
    src: Seq<u16>,
) -> bool {
    let cam = ctx.camera_section_index.spec_idx();
    exists|i: int|
        0 <= i < src.len() && (#[trigger] src[i]) == spec_region_index(
            spec_x(cam),
            spec_y(cam),
            spec_z(cam),
        ) && entries[i].view().contains(spec_section_index(spec_x(cam), spec_y(cam), spec_z(cam)))
}

/// The staging invariants the flood maintains: a touched region's
/// coordinates are its slot's, no list stages a section twice, and
/// every staged section's visibility bit has been cleared.
pub open spec fn spec_staging_ok(
    ctx: LocalCoordContext,
    st: StagingRegionRenderLists,
    oct: Seq<u64>,
) -> bool {
    &&& forall|r: u16|
        r < 0x10000 && (#[trigger] st.spec_lists()[r as int]).spec_initialized() ==> st.spec_lists()[
    r as int].spec_coords() == spec_slot_coords(ctx, r)
    &&& forall|r: u16| r < 0x10000 ==> (#[trigger] st.spec_lists()[r as int]).view().no_duplicates()
    &&& forall|r: u16, m: int|
        #![trigger st.spec_lists()[r as int].view()[m]]
        r < 0x10000 && 0 <= m < st.spec_lists()[r as int].view().len() ==> !spec_bit(
            oct,
            spec_staged_section(r, st.spec_lists()[r as int].view()[m]),
        )
}

/// Whether the camera's own section is staged on its region's list.
pub open spec fn spec_camera_staged(ctx: LocalCoordContext, st: StagingRegionRenderLists) -> bool {
    let cam = ctx.camera_section_index.spec_idx();
    st.spec_lists()[spec_region_index(spec_x(cam), spec_y(cam), spec_z(cam)) as int].view()
        .contains(spec_section_index(spec_x(cam), spec_y(cam), spec_z(cam)))
}

/// The queue-and-incoming invariant of the flood: the sections with a
/// pending incoming set are exactly the queued ones, each queued once.
pub open spec fn spec_frontier_ok(
    incoming: Seq<GraphDirectionSet>,
    q: Seq<LocalNodeIndex>,
) -> bool {
    &&& forall|k: int| 0 <= k < q.len() ==> (#[trigger] q[k]).wf()
    &&& forall|k1: int, k2: int|
        0 <= k1 < k2 < q.len() ==> (#[trigger] q[k1].spec_idx()) != (#[trigger] q[k2].spec_idx())
    &&& forall|i: int|
        0 <= i < SECTIONS_IN_GRAPH ==> ((#[trigger] incoming[i]).spec_bits() != 0 <==> exists|
            k: int,
        |
            0 <= k < q.len() && (#[trigger] q[k]).spec_idx() == i)
}

/// Whether the hierarchical cull starting at the level-`level` node
/// anchored at `i` stamps section `j` visible: a node wholly inside
/// the view volume covers all its sections, a partial node descends
/// into its children (a partial single section covers itself), and a
/// node outside covers nothing.
pub open spec fn spec_covered<V: ViewVolume>(
    ctx: LocalCoordContext,
    volume: V,
    i: u32,
    level: u8,
    j: u32,
) -> bool
    decreases level, 1int,
{
    let c = crate::coord::LocalNodeCoords { x: spec_x(i), y: spec_y(i), z: spec_z(i) };
    let verdict = ctx.spec_test_node(volume, c, level);
    if verdict == BoundsCheckResult::Outside {
        false
    } else if verdict == BoundsCheckResult::Inside {
        spec_in_node(i, level, j)
    } else if level == 0 {
        j == i
    } else {
        ||| spec_child_covered(ctx, volume, i, level, 0, j)
        ||| spec_child_covered(ctx, volume, i, level, 1, j)
        ||| spec_child_covered(ctx, volume, i, level, 2, j)
        ||| spec_child_covered(ctx, volume, i, level, 3, j)
        ||| spec_child_covered(ctx, volume, i, level, 4, j)
        ||| spec_child_covered(ctx, volume, i, level, 5, j)
        ||| spec_child_covered(ctx, volume, i, level, 6, j)
        ||| spec_child_covered(ctx, volume, i, level, 7, j)
    }
}

/// Whether the `k`-th child of the level-`level` node at `i` covers
/// section `j`.
pub open spec fn spec_child_covered<V: ViewVolume>(
    ctx: LocalCoordContext,
    volume: V,
    i: u32,
    level: u8,
    k: u32,
    j: u32,
) -> bool
    decreases level, 0int,
{
    if level == 0 {
        false
    } else {
        spec_covered(
            ctx,
            volume,
            (i + k * (1u32 << (3 * (level - 1)))) as u32,
            (level - 1) as u8,
            j,
        )
    }
}

/// The Morton index of the level-3 grid node the cull visits at step
/// (xi, yi, zi): the iteration start moved by eight sections per step
/// on each axis, wrapping at the window edge.
pub open spec fn spec_grid_index(ctx: LocalCoordContext, xi: u8, yi: u8, zi: u8) -> u32 {
    spec_morton(
        ((ctx.iter_start_section_coords.x + 8 * xi) % 256) as u8,
        ((ctx.iter_start_section_coords.y + 8 * yi) % 256) as u8,
        ((ctx.iter_start_section_coords.z + 8 * zi) % 256) as u8,
    )
}

/// Whether the grid node at step (xi, yi, zi) covers section `j`.
pub open spec fn spec_grid_covered<V: ViewVolume>(
    ctx: LocalCoordContext,
    volume: V,
    xi: u8,
    yi: u8,
    zi: u8,
    j: u32,
) -> bool {
    spec_covered(ctx, volume, spec_grid_index(ctx, xi, yi, zi), 3, j)
}

/// Whether some grid node the cull has already visited, walking z
/// innermost and x outermost up to but not including step
/// (xi, yi, zi), covers section `j`.
pub open spec fn spec_cull_progress<V: ViewVolume>(
    ctx: LocalCoordContext,
    volume: V,
    xi: u8,
    yi: u8,
    zi: u8,
    j: u32,
) -> bool {
    exists|a: u8, b: u8, c: u8|
        #![trigger spec_grid_covered(ctx, volume, a, b, c, j)]
        b < ctx.level_3_node_iter_counts.y && c < ctx.level_3_node_iter_counts.z && (a < xi || (a
            == xi && (b < yi || (b == yi && c < zi)))) && spec_grid_covered(ctx, volume, a, b, c, j)
}

/// Whether the whole frustum/fog pass stamps section `j` visible:
/// some visited grid node covers it.
pub open spec fn spec_cull_visible<V: ViewVolume>(
    ctx: LocalCoordContext,
    volume: V,
    j: u32,
) -> bool {
    spec_cull_progress(ctx, volume, ctx.level_3_node_iter_counts.x, 0, 0, j)
}

/// A partially visible node covers a section exactly when one of its
/// children does.
proof fn lemma_covered_unfold<V: ViewVolume>(
    ctx: LocalCoordContext,
    volume: V,
    i: u32,
    level: u8,
    j: u32,
)
    requires
        1 <= level <= 3,
        ctx.spec_test_node(
            volume,
            crate::coord::LocalNodeCoords { x: spec_x(i), y: spec_y(i), z: spec_z(i) },
            level,
        ) == BoundsCheckResult::Partial,
    ensures
        spec_covered(ctx, volume, i, level, j) == (exists|k: u32|
            k < 8 && #[trigger] spec_child_covered(ctx, volume, i, level, k, j)),
{
    if spec_covered(ctx, volume, i, level, j) {
        if spec_child_covered(ctx, volume, i, level, 0, j) {
            assert(0u32 < 8 && spec_child_covered(ctx, volume, i, level, 0, j));
        } else if spec_child_covered(ctx, volume, i, level, 1, j) {
            assert(1u32 < 8 && spec_child_covered(ctx, volume, i, level, 1, j));
        } else if spec_child_covered(ctx, volume, i, level, 2, j) {
            assert(2u32 < 8 && spec_child_covered(ctx, volume, i, level, 2, j));
        } else if spec_child_covered(ctx, volume, i, level, 3, j) {
            assert(3u32 < 8 && spec_child_covered(ctx, volume, i, level, 3, j));
        } else if spec_child_covered(ctx, volume, i, level, 4, j) {
            assert(4u32 < 8 && spec_child_covered(ctx, volume, i, level, 4, j));
        } else if spec_child_covered(ctx, volume, i, level, 5, j) {
            assert(5u32 < 8 && spec_child_covered(ctx, volume, i, level, 5, j));
        } else if spec_child_covered(ctx, volume, i, level, 6, j) {
            assert(6u32 < 8 && spec_child_covered(ctx, volume, i, level, 6, j));
        } else {
            assert(7u32 < 8 && spec_child_covered(ctx, volume, i, level, 7, j));
        }
    }
    if exists|k: u32| k < 8 && #[trigger] spec_child_covered(ctx, volume, i, level, k, j) {
        let k = choose|k: u32| k < 8 && #[trigger] spec_child_covered(ctx, volume, i, level, k, j);
        if k == 0 {
        } else if k == 1 {
        } else if k == 2 {
        } else if k == 3 {
        } else if k == 4 {
        } else if k == 5 {
        } else if k == 6 {
        } else {
            assert(k == 7);
        }
        assert(spec_covered(ctx, volume, i, level, j));
    }
}

/// A level-3 coordinate step keeps a coordinate eight-aligned.
proof fn lemma_step3_alignment(x: u8)
    requires
        x as int % 8 == 0,
    ensures
        spec_wrap_inc(x, 3) as int % 8 == 0,
{
    assert(1u8 << 3 == 8) by (bit_vector);
    if x + 8 < 256 {
        vstd::arithmetic::div_mod::lemma_small_mod((x + 8) as nat, 256);
    } else {
        vstd::arithmetic::div_mod::lemma_mod_multiples_vanish(1, x + 8 - 256, 256);
        vstd::arithmetic::div_mod::lemma_small_mod((x + 8 - 256) as nat, 256);
    }
}

/// The section count of a level as a shift, by cases.
proof fn lemma_shift3(level: u8)
    by (bit_vector)
    requires
        level <= 3,
    ensures
        (1u32 << (3 * level)) == (if level == 0 {
            1u32
        } else if level == 1 {
            8u32
        } else if level == 2 {
            64u32
        } else {
            512u32
        }),
{
}

/// Eight-alignment written with the low bit mask.
proof fn lemma_low3(v: u8)
    by (bit_vector)
    ensures
        (v & 7 == 0) <==> (v as int % 8 == 0),
{
}

/// Advancing one level-3 step adds eight to the wrapped coordinate.
proof fn lemma_wrap_step_formula(c: u8, base: u8, n: u8)
    requires
        n < 255,
        c as int == (base + 8 * n) % 256,
    ensures
        spec_wrap_inc(c, 3) as int == (base + 8 * (n + 1)) % 256,
{
    assert(1u8 << 3 == 8) by (bit_vector);
    vstd::arithmetic::div_mod::lemma_small_mod(8, 256);
    vstd::arithmetic::div_mod::lemma_add_mod_noop(base + 8 * n, 8, 256);
}

/// Rolling the innermost cull counter over to the next row reads the
/// same set of visited grid nodes.
proof fn lemma_progress_roll_z<V: ViewVolume>(
    ctx: LocalCoordContext,
    volume: V,
    xi: u8,
    yi: u8,
    j: u32,
)
    requires
        yi < 255,
    ensures
        spec_cull_progress(ctx, volume, xi, yi, ctx.level_3_node_iter_counts.z, j)
            == spec_cull_progress(ctx, volume, xi, (yi + 1) as u8, 0, j),
{
    let cz = ctx.level_3_node_iter_counts.z;
    let cy = ctx.level_3_node_iter_counts.y;
    if spec_cull_progress(ctx, volume, xi, yi, cz, j) {
        let (a, b, c) = choose|a: u8, b: u8, c: u8|
            #![trigger spec_grid_covered(ctx, volume, a, b, c, j)]
            b < cy && c < cz && (a < xi || (a == xi && (b < yi || (b == yi && c < cz))))
                && spec_grid_covered(ctx, volume, a, b, c, j);
        assert(b < cy && c < cz && (a < xi || (a == xi && b < yi + 1)) && spec_grid_covered(
            ctx,
            volume,
            a,
            b,
            c,
            j,
        ));
    }
    if spec_cull_progress(ctx, volume, xi, (yi + 1) as u8, 0, j) {
        let (a, b, c) = choose|a: u8, b: u8, c: u8|
            #![trigger spec_grid_covered(ctx, volume, a, b, c, j)]
            b < cy && c < cz && (a < xi || (a == xi && (b < yi + 1 || (b == yi + 1 && c < 0))))
                && spec_grid_covered(ctx, volume, a, b, c, j);
        assert(b < cy && c < cz && (a < xi || (a == xi && (b < yi || (b == yi && c < cz))))
            && spec_grid_covered(ctx, volume, a, b, c, j));
    }
}

/// Rolling the middle cull counter over to the next slab reads the
/// same set of visited grid nodes.
proof fn lemma_progress_roll_y<V: ViewVolume>(ctx: LocalCoordContext, volume: V, xi: u8, j: u32)
    requires
        xi < 255,
    ensures
        spec_cull_progress(ctx, volume, xi, ctx.level_3_node_iter_counts.y, 0, j)
            == spec_cull_progress(ctx, volume, (xi + 1) as u8, 0, 0, j),
{
    let cz = ctx.level_3_node_iter_counts.z;
    let cy = ctx.level_3_node_iter_counts.y;
    if spec_cull_progress(ctx, volume, xi, cy, 0, j) {
        let (a, b, c) = choose|a: u8, b: u8, c: u8|
            #![trigger spec_grid_covered(ctx, volume, a, b, c, j)]
            b < cy && c < cz && (a < xi || (a == xi && (b < cy || (b == cy && c < 0))))
                && spec_grid_covered(ctx, volume, a, b, c, j);
        assert(b < cy && c < cz && (a < xi + 1) && spec_grid_covered(ctx, volume, a, b, c, j));
    }
    if spec_cull_progress(ctx, volume, (xi + 1) as u8, 0, 0, j) {
        let (a, b, c) = choose|a: u8, b: u8, c: u8|
            #![trigger spec_grid_covered(ctx, volume, a, b, c, j)]
            b < cy && c < cz && (a < xi + 1 || (a == xi + 1 && (b < 0 || (b == 0 && c < 0))))
                && spec_grid_covered(ctx, volume, a, b, c, j);
        assert(b < cy && c < cz && (a < xi || (a == xi && (b < cy || (b == cy && c < 0))))
            && spec_grid_covered(ctx, volume, a, b, c, j));
    }
}

/// Worst-case number of sections the flood can hold in its queue, from
/// the view distance and world height in sections.
pub open spec fn spec_bfs_queue_size(section_render_distance: u8, world_height: u8) -> int {
    let max_height_traversal = (world_height as int + 1) / 2 - 1;
    let max_width_traversal = section_render_distance as int;
    let count0: int = if max_height_traversal < max_width_traversal {
        0
    } else {
        2
    };
    let layer: int = if max_height_traversal < max_width_traversal {
        max_width_traversal - max_height_traversal
    } else {
        1
    };
    let count1 = count0 + 4 * (max_width_traversal - layer) * (max_width_traversal + layer - 1);
    let count2 = count1 + max_width_traversal * 4;
    let count3 = count2 * 55 / 100;
    count3 * 2
}

/// Computes the worst-case queue size for a search: the rings of the
/// breadth-first traversal around the camera, clipped to the world
/// height, halved for the frustum with a small margin, and doubled
/// because one flat queue serves reading and writing.
pub fn get_bfs_queue_max_size(section_render_distance: u8, world_height: u8) -> (r: u32)
    requires
        1 <= section_render_distance <= MAX_VIEW_DISTANCE,
        1 <= world_height,
    ensures
        r == spec_bfs_queue_size(section_render_distance, world_height),
        r >= 4,
{
    let max_height_traversal: u32 = (world_height as u32 + 1) / 2 - 1;
    let max_width_traversal: u32 = section_render_distance as u32;

    let mut count: u32;
    let layer: u32;
    if max_height_traversal < max_width_traversal {
        count = 0;
        layer = max_width_traversal - max_height_traversal;
    } else {
        count = 2;
        layer = 1;
    }
    proof {
        assert((world_height as u32 + 1) / 2 <= 128) by (nonlinear_arith)
            requires
                world_height <= 255,
        ;
        let a = max_width_traversal - layer;
        let b = max_width_traversal + layer - 1;
        assert(0 <= 4 * a * b <= 4 * 127 * 253) by (nonlinear_arith)
            requires
                0 <= a <= 127 && 0 <= b <= 253,
        ;
    }
    count = count + 4 * (max_width_traversal - layer) * (max_width_traversal + layer - 1);
    count = count + max_width_traversal * 4;
    proof {
        vstd::arithmetic::div_mod::lemma_div_is_ordered(220, count as int * 55, 100);
    }
    count = (count * 55) / 100;
    count = count * 2;
    count
}

/// Transient state of the flood: pending incoming directions per
/// section, the region staging area, and the queue.
pub struct BfsCachedState {
    incoming_directions: Vec<GraphDirectionSet>,
    staging_render_lists: StagingRegionRenderLists,
    queue: ArrayDeque<LocalNodeIndex>,
}

/// Transient state of the frustum/fog pass: one visibility bit per
/// section.
pub struct FrustumFogCachedState {
    section_is_visible_bits: LinearBitOctree,
}

/// The culling and visibility-search graph over the section window.
pub struct Graph {
    section_visibility_direction_sets: Vec<VisibilityData>,
    frustum_fog_cached_state: FrustumFogCachedState,
    bfs_cached_state: BfsCachedState,
    results: CInlineVec<RegionRenderList>,
}

impl Graph {
    /// The per-section visibility data, by Morton index.
    pub closed spec fn spec_visibility(self) -> Seq<VisibilityData> {
        self.section_visibility_direction_sets@
    }

    /// The per-section pending incoming directions, by Morton index.
    pub closed spec fn spec_incoming(self) -> Seq<GraphDirectionSet> {
        self.bfs_cached_state.incoming_directions@
    }

    /// The visibility bit grid.
    pub closed spec fn spec_octree(self) -> Seq<u64> {
        self.frustum_fog_cached_state.section_is_visible_bits.view()
    }

    /// The queued sections.
    pub closed spec fn spec_queue(self) -> Seq<LocalNodeIndex> {
        self.bfs_cached_state.queue.view()
    }

    /// The region staging area.
    pub closed spec fn spec_staging(self) -> StagingRegionRenderLists {
        self.bfs_cached_state.staging_render_lists
    }

    /// The output entries of the last search.
    pub closed spec fn spec_results(self) -> Seq<RegionRenderList> {
        self.results.view()
    }

    pub closed spec fn wf(self) -> bool {
        &&& self.section_visibility_direction_sets@.len() == SECTIONS_IN_GRAPH
        &&& forall|i: int|
            0 <= i < SECTIONS_IN_GRAPH ==> (#[trigger] self.section_visibility_direction_sets@[
            i]).wf()
        &&& self.frustum_fog_cached_state.section_is_visible_bits.wf()
        &&& self.bfs_cached_state.incoming_directions@.len() == SECTIONS_IN_GRAPH
        &&& forall|i: int|
            0 <= i < SECTIONS_IN_GRAPH ==> (#[trigger] self.bfs_cached_state.incoming_directions@[
            i]).wf()
        &&& self.bfs_cached_state.staging_render_lists.wf()
        &&& self.bfs_cached_state.queue.wf()
        &&& self.bfs_cached_state.queue.spec_capacity() >= 1
        &&& self.results.wf()
        &&& self.results.spec_capacity() == REGIONS_IN_GRAPH
    }

    /// The transient state is fully reset: this holds between public
    /// calls.
    pub closed spec fn spec_clean(self) -> bool {
        &&& self.frustum_fog_cached_state.section_is_visible_bits.all_clear()
        &&& forall|i: int|
            0 <= i < SECTIONS_IN_GRAPH ==> (#[trigger] self.bfs_cached_state.incoming_directions@[
            i]).spec_bits() == 0
        &&& self.bfs_cached_state.queue.view().len() == 0
        &&& self.bfs_cached_state.queue.spec_room() == self.bfs_cached_state.queue.spec_capacity()
        &&& self.bfs_cached_state.staging_render_lists.spec_clean()
    }

    /// A graph with every section at the default all-outgoing
    /// visibility and all transient state clear.
    pub fn new() -> (r: Graph)
        ensures
            r.wf(),
            r.spec_clean(),
            r.spec_results().len() == 0,
            forall|i: int|
                0 <= i < SECTIONS_IN_GRAPH ==> (#[trigger] r.spec_visibility()[i]).spec_bits()
                    == 0x7FFF,
    {
        let mut section_visibility_direction_sets: Vec<VisibilityData> = Vec::new();
        let mut n: usize = 0;
        while n < SECTIONS_IN_GRAPH
            invariant
                n == section_visibility_direction_sets@.len(),
                n <= SECTIONS_IN_GRAPH,
                forall|i: int|
                    0 <= i < n ==> (#[trigger] section_visibility_direction_sets@[i]).wf()
                        && section_visibility_direction_sets@[i].spec_bits() == 0x7FFF,
            decreases SECTIONS_IN_GRAPH - n,
        {
            section_visibility_direction_sets.push(VisibilityData::all_outgoing());
            n = n + 1;
        }
        let mut incoming_directions: Vec<GraphDirectionSet> = Vec::new();
        let mut m: usize = 0;
        while m < SECTIONS_IN_GRAPH
            invariant
                m == incoming_directions@.len(),
                m <= SECTIONS_IN_GRAPH,
                forall|i: int|
                    0 <= i < m ==> (#[trigger] incoming_directions@[i]).wf()
                        && incoming_directions@[i].spec_bits() == 0,
            decreases SECTIONS_IN_GRAPH - m,
        {
            incoming_directions.push(GraphDirectionSet::none());
            m = m + 1;
        }
        let queue_size = get_bfs_queue_max_size(MAX_VIEW_DISTANCE, MAX_WORLD_HEIGHT);
        let camera_placeholder = LocalNodeIndex::pack(
            crate::coord::LocalNodeCoords::from_xyz(0, 0, 0),
            0,
        );
        Graph {
            section_visibility_direction_sets,
            frustum_fog_cached_state: FrustumFogCachedState {
                section_is_visible_bits: LinearBitOctree::new(),
            },
            bfs_cached_state: BfsCachedState {
                incoming_directions,
                staging_render_lists: StagingRegionRenderLists::new(),
                queue: ArrayDeque::new(queue_size as usize, camera_placeholder),
            },
            results: CInlineVec::new(REGIONS_IN_GRAPH),
        }
    }

    /// Stores `visibility_data` for the section at global section
    /// coordinates (x, y, z), which lives at their window position.
    pub fn set_section(&mut self, x: i32, y: i32, z: i32, visibility_data: VisibilityData)
        requires
            old(self).wf(),
            visibility_data.wf(),
        ensures
            final(self).wf(),
            final(self).spec_visibility() == old(self).spec_visibility().update(
                spec_section_index_of(x as int, y as int, z as int) as int,
                visibility_data,
            ),
            final(self).spec_incoming() == old(self).spec_incoming(),
            final(self).spec_octree() == old(self).spec_octree(),
            final(self).spec_queue() == old(self).spec_queue(),
            final(self).spec_staging() == old(self).spec_staging(),
            final(self).spec_results() == old(self).spec_results(),
            old(self).spec_clean() ==> final(self).spec_clean(),
    {
        let lx = crate::context::wrap_mod_256(x as i64);
        let ly = crate::context::wrap_mod_256(y as i64 + 128);
        let lz = crate::context::wrap_mod_256(z as i64);
        let local = crate::coord::LocalNodeCoords::from_xyz(lx, ly, lz);
        let index = LocalNodeIndex::pack(local, 0);
        proof {
            crate::context::lemma_aligned_morton(0, 0, 0);
            lemma_pack_unpack(lx, ly, lz);
        }
        let i = index.as_array_index();
        self.section_visibility_direction_sets.set(i, visibility_data);
    }

    /// Restores the default all-outgoing visibility for the section at
    /// (x, y, z), as if it had never been set.
    pub fn remove_section(&mut self, x: i32, y: i32, z: i32)
        requires
            old(self).wf(),
        ensures
            final(self).wf(),
            final(self).spec_visibility() == old(self).spec_visibility().update(
                spec_section_index_of(x as int, y as int, z as int) as int,
                final(self).spec_visibility()[spec_section_index_of(
                    x as int,
                    y as int,
                    z as int,
                ) as int],
            ),
            final(self).spec_visibility()[spec_section_index_of(
                x as int,
                y as int,
                z as int,
            ) as int].spec_bits() == 0x7FFF,
            final(self).spec_incoming() == old(self).spec_incoming(),
            final(self).spec_octree() == old(self).spec_octree(),
            final(self).spec_queue() == old(self).spec_queue(),
            final(self).spec_staging() == old(self).spec_staging(),
            final(self).spec_results() == old(self).spec_results(),
            old(self).spec_clean() ==> final(self).spec_clean(),
    {
        proof {
            let (cx, cy, cz) = spec_local_coords(x as int, y as int, z as int);
            lemma_pack_unpack(cx, cy, cz);
        }
        self.set_section(x, y, z, VisibilityData::all_outgoing());
    }

    /// One node of the hierarchical cull: skip a node outside the view
    /// volume, stamp a node wholly inside, and descend into a node
    /// partially inside, stamping single partial sections.  Afterwards
    /// the visibility bits hold exactly the sections this node covers,
    /// joined with whatever was stamped before.
    fn check_node<V: ViewVolume>(
        &mut self,
        index: LocalNodeIndex,
        level: u8,
        coord_context: &LocalCoordContext,
        volume: &V,
    )
        requires
            old(self).wf(),
            index.wf(),
            level <= 3,
            index.is_aligned(level),
            coord_context.wf(),
            volume.spec_wf(),
        ensures
            final(self).wf(),
            forall|j: u32|
                j < 0x1000000 ==> #[trigger] spec_bit(final(self).spec_octree(), j) == (
                spec_covered(*coord_context, *volume, index.spec_idx(), level, j) || spec_bit(
                    old(self).spec_octree(),
                    j,
                )),
            final(self).section_visibility_direction_sets == old(
                self,
            ).section_visibility_direction_sets,
            final(self).bfs_cached_state == old(self).bfs_cached_state,
            final(self).results == old(self).results,
        decreases level,
    {
        proof {
            lemma_shift3(level);
        }
        let local_section_coords = index.unpack_section();
        let ghost verdict = coord_context.spec_test_node(
            *volume,
            local_section_coords,
            level,
        );
        match coord_context.test_node(volume, local_section_coords, level) {
            BoundsCheckResult::Outside => {
                proof {
                    assert forall|j: u32| j < 0x1000000 implies #[trigger] spec_bit(
                        self.spec_octree(),
                        j,
                    ) == (spec_covered(*coord_context, *volume, index.spec_idx(), level, j)
                        || spec_bit(old(self).spec_octree(), j)) by {
                        assert(!spec_covered(*coord_context, *volume, index.spec_idx(), level, j));
                    }
                }
            },
            BoundsCheckResult::Inside => {
                self.frustum_fog_cached_state.section_is_visible_bits.set(index, level, true);
                proof {
                    assert forall|j: u32| j < 0x1000000 implies #[trigger] spec_bit(
                        self.spec_octree(),
                        j,
                    ) == (spec_covered(*coord_context, *volume, index.spec_idx(), level, j)
                        || spec_bit(old(self).spec_octree(), j)) by {
                        assert(spec_covered(*coord_context, *volume, index.spec_idx(), level, j)
                            == spec_in_node(index.spec_idx(), level, j));
                    }
                }
            },
            BoundsCheckResult::Partial => {
                if level == 0 {
                    self.frustum_fog_cached_state.section_is_visible_bits.set(index, 0, true);
                    proof {
                        assert forall|j: u32| j < 0x1000000 implies #[trigger] spec_bit(
                            self.spec_octree(),
                            j,
                        ) == (spec_covered(*coord_context, *volume, index.spec_idx(), level, j)
                            || spec_bit(old(self).spec_octree(), j)) by {
                            assert(spec_covered(
                                *coord_context,
                                *volume,
                                index.spec_idx(),
                                level,
                                j,
                            ) == (j == index.spec_idx()));
                            assert(spec_in_node(index.spec_idx(), 0, j) <==> j == index.spec_idx());
                        }
                    }
                } else {
                    let ghost child_size: u32 = (1u32 << (3 * (level - 1))) as u32;
                    let mut k: u32 = 0;
                    while k < 8
                        invariant
                            self.wf(),
                            k <= 8,
                            index.wf(),
                            1 <= level <= 3,
                            index.is_aligned(level),
                            coord_context.wf(),
                            volume.spec_wf(),
                            child_size == (1u32 << (3 * (level - 1))) as u32,
                            local_section_coords == (crate::coord::LocalNodeCoords {
                                x: spec_x(index.spec_idx()),
                                y: spec_y(index.spec_idx()),
                                z: spec_z(index.spec_idx()),
                            }),
                            coord_context.spec_test_node(*volume, local_section_coords, level)
                                == BoundsCheckResult::Partial,
                            forall|j: u32|
                                j < 0x1000000 ==> #[trigger] spec_bit(self.spec_octree(), j) == ((
                                exists|kk: u32|
                                    kk < k && #[trigger] spec_child_covered(
                                        *coord_context,
                                        *volume,
                                        index.spec_idx(),
                                        level,
                                        kk,
                                        j,
                                    )) || spec_bit(old(self).spec_octree(), j)),
                            self.section_visibility_direction_sets == old(
                                self,
                            ).section_visibility_direction_sets,
                            self.bfs_cached_state == old(self).bfs_cached_state,
                            self.results == old(self).results,
                        decreases 8 - k,
                    {
                        let child = index.lower_node(level, k);
                        let ghost before = self.spec_octree();
                        self.check_node(child, level - 1, coord_context, volume);
                        proof {
                            assert forall|j: u32|
                                j < 0x1000000 implies #[trigger] spec_bit(self.spec_octree(), j)
                                == ((exists|kk: u32|
                                kk < k + 1 && #[trigger] spec_child_covered(
                                    *coord_context,
                                    *volume,
                                    index.spec_idx(),
                                    level,
                                    kk,
                                    j,
                                )) || spec_bit(old(self).spec_octree(), j)) by {
                                assert(spec_child_covered(
                                    *coord_context,
                                    *volume,
                                    index.spec_idx(),
                                    level,
                                    k,
                                    j,
                                ) == spec_covered(
                                    *coord_context,
                                    *volume,
                                    child.spec_idx(),
                                    (level - 1) as u8,
                                    j,
                                ));
                                if spec_bit(self.spec_octree(), j) {
                                    if !spec_covered(
                                        *coord_context,
                                        *volume,
                                        child.spec_idx(),
                                        (level - 1) as u8,
                                        j,
                                    ) {
                                        assert(spec_bit(before, j));
                                        if !spec_bit(old(self).spec_octree(), j) {
                                            let kk = choose|kk: u32|
                                                kk < k && #[trigger] spec_child_covered(
                                                    *coord_context,
                                                    *volume,
                                                    index.spec_idx(),
                                                    level,
                                                    kk,
                                                    j,
                                                );
                                            assert(kk < k + 1);
                                        }
                                    }
                                } else {
                                    assert(!spec_bit(before, j));
                                }
                            }
                        }
                        k = k + 1;
                    }
                    proof {
                        assert forall|j: u32| j < 0x1000000 implies #[trigger] spec_bit(
                            self.spec_octree(),
                            j,
                        ) == (spec_covered(*coord_context, *volume, index.spec_idx(), level, j)
                            || spec_bit(old(self).spec_octree(), j)) by {
                            lemma_covered_unfold(
                                *coord_context,
                                *volume,
                                index.spec_idx(),
                                level,
                                j,
                            );
                        }
                    }
                }
            },
        }
    }

    /// The frustum/fog pass: walks the level-3 node grid covering the
    /// view box and stamps the visibility bits of the nodes inside the
    /// view volume.  Afterwards a bit is set exactly when some visited
    /// grid node covers its section or it was set before.
    fn frustum_and_fog_cull<V: ViewVolume>(&mut self, coord_context: &LocalCoordContext, volume: &V)
        requires
            old(self).wf(),
            coord_context.wf(),
            volume.spec_wf(),
        ensures
            final(self).wf(),
            forall|j: u32|
                j < 0x1000000 ==> #[trigger] spec_bit(final(self).spec_octree(), j) == (
                spec_cull_visible(*coord_context, *volume, j) || spec_bit(
                    old(self).spec_octree(),
                    j,
                )),
            final(self).section_visibility_direction_sets == old(
                self,
            ).section_visibility_direction_sets,
            final(self).bfs_cached_state == old(self).bfs_cached_state,
            final(self).results == old(self).results,
    {
        proof {
            lemma_low3(coord_context.iter_start_section_coords.x);
            lemma_low3(coord_context.iter_start_section_coords.y);
            lemma_low3(coord_context.iter_start_section_coords.z);
        }
        let ghost sx = coord_context.iter_start_section_coords.x;
        let ghost sy = coord_context.iter_start_section_coords.y;
        let ghost sz = coord_context.iter_start_section_coords.z;
        let ghost cx = coord_context.level_3_node_iter_counts.x;
        let ghost cy = coord_context.level_3_node_iter_counts.y;
        let ghost cz = coord_context.level_3_node_iter_counts.z;
        let mut level_3_index_x = coord_context.iter_start_index;
        let ghost mut coords_x = coord_context.iter_start_section_coords;
        proof {
            vstd::arithmetic::div_mod::lemma_small_mod(sx as nat, 256);
            vstd::arithmetic::div_mod::lemma_small_mod(sy as nat, 256);
            vstd::arithmetic::div_mod::lemma_small_mod(sz as nat, 256);
        }
        let mut xi: u8 = 0;
        while xi < coord_context.level_3_node_iter_counts.x
            invariant
                self.wf(),
                coord_context.wf(),
                volume.spec_wf(),
                xi <= cx,
                cx == coord_context.level_3_node_iter_counts.x,
                cy == coord_context.level_3_node_iter_counts.y,
                cz == coord_context.level_3_node_iter_counts.z,
                sx == coord_context.iter_start_section_coords.x,
                sy == coord_context.iter_start_section_coords.y,
                sz == coord_context.iter_start_section_coords.z,
                level_3_index_x.wf(),
                level_3_index_x.spec_idx() == spec_morton(coords_x.x, coords_x.y, coords_x.z),
                coords_x.x as int == (sx + 8 * xi) % 256,
                coords_x.y == sy,
                coords_x.z == sz,
                coords_x.x as int % 8 == 0,
                coords_x.y as int % 8 == 0,
                coords_x.z as int % 8 == 0,
                forall|j: u32|
                    j < 0x1000000 ==> #[trigger] spec_bit(self.spec_octree(), j) == (
                    spec_cull_progress(*coord_context, *volume, xi, 0, 0, j) || spec_bit(
                        old(self).spec_octree(),
                        j,
                    )),
                self.section_visibility_direction_sets == old(
                    self,
                ).section_visibility_direction_sets,
                self.bfs_cached_state == old(self).bfs_cached_state,
                self.results == old(self).results,
            decreases cx - xi,
        {
            let mut level_3_index_xy = level_3_index_x;
            let ghost mut coords_xy = coords_x;
            let mut yi: u8 = 0;
            while yi < coord_context.level_3_node_iter_counts.y
                invariant
                    self.wf(),
                    coord_context.wf(),
                    volume.spec_wf(),
                    xi < cx,
                    yi <= cy,
                    cx == coord_context.level_3_node_iter_counts.x,
                    cy == coord_context.level_3_node_iter_counts.y,
                    cz == coord_context.level_3_node_iter_counts.z,
                    sx == coord_context.iter_start_section_coords.x,
                    sy == coord_context.iter_start_section_coords.y,
                    sz == coord_context.iter_start_section_coords.z,
                    level_3_index_xy.wf(),
                    level_3_index_xy.spec_idx() == spec_morton(
                        coords_xy.x,
                        coords_xy.y,
                        coords_xy.z,
                    ),
                    coords_xy.x as int == (sx + 8 * xi) % 256,
                    coords_xy.y as int == (sy + 8 * yi) % 256,
                    coords_xy.z == sz,
                    coords_xy.x as int % 8 == 0,
                    coords_xy.y as int % 8 == 0,
                    coords_xy.z as int % 8 == 0,
                    forall|j: u32|
                        j < 0x1000000 ==> #[trigger] spec_bit(self.spec_octree(), j) == (
                        spec_cull_progress(*coord_context, *volume, xi, yi, 0, j) || spec_bit(
                            old(self).spec_octree(),
                            j,
                        )),
                    self.section_visibility_direction_sets == old(
                        self,
                    ).section_visibility_direction_sets,
                    self.bfs_cached_state == old(self).bfs_cached_state,
                    self.results == old(self).results,
                decreases cy - yi,
            {
                let mut level_3_index_xyz = level_3_index_xy;
                let ghost mut coords_xyz = coords_xy;
                let mut zi: u8 = 0;
                while zi < coord_context.level_3_node_iter_counts.z
                    invariant
                        self.wf(),
                        coord_context.wf(),
                        volume.spec_wf(),
                        xi < cx,
                        yi < cy,
                        zi <= cz,
                        cx == coord_context.level_3_node_iter_counts.x,
                        cy == coord_context.level_3_node_iter_counts.y,
                        cz == coord_context.level_3_node_iter_counts.z,
                        sx == coord_context.iter_start_section_coords.x,
                        sy == coord_context.iter_start_section_coords.y,
                        sz == coord_context.iter_start_section_coords.z,
                        level_3_index_xyz.wf(),
                        level_3_index_xyz.spec_idx() == spec_morton(
                            coords_xyz.x,
                            coords_xyz.y,
                            coords_xyz.z,
                        ),
                        coords_xyz.x as int == (sx + 8 * xi) % 256,
                        coords_xyz.y as int == (sy + 8 * yi) % 256,
                        coords_xyz.z as int == (sz + 8 * zi) % 256,
                        coords_xyz.x as int % 8 == 0,
                        coords_xyz.y as int % 8 == 0,
                        coords_xyz.z as int % 8 == 0,
                        forall|j: u32|
                            j < 0x1000000 ==> #[trigger] spec_bit(self.spec_octree(), j) == (
                            spec_cull_progress(*coord_context, *volume, xi, yi, zi, j) || spec_bit(
                                old(self).spec_octree(),
                                j,
                            )),
                        self.section_visibility_direction_sets == old(
                            self,
                        ).section_visibility_direction_sets,
                        self.bfs_cached_state == old(self).bfs_cached_state,
                        self.results == old(self).results,
                    decreases cz - zi,
                {
                    proof {
                        crate::context::lemma_aligned_morton(
                            coords_xyz.x,
                            coords_xyz.y,
                            coords_xyz.z,
                        );
                    }
                    let ghost mid = self.spec_octree();
                    self.check_node(level_3_index_xyz, 3, coord_context, volume);
                    proof {
                        assert(level_3_index_xyz.spec_idx() == spec_grid_index(
                            *coord_context,
                            xi,
                            yi,
                            zi,
                        ));
                        assert forall|j: u32|
                            j < 0x1000000 implies #[trigger] spec_bit(self.spec_octree(), j) == (
                        spec_cull_progress(*coord_context, *volume, xi, yi, (zi + 1) as u8, j)
                            || spec_bit(old(self).spec_octree(), j)) by {
                            if spec_bit(self.spec_octree(), j) {
                                if spec_covered(
                                    *coord_context,
                                    *volume,
                                    level_3_index_xyz.spec_idx(),
                                    3,
                                    j,
                                ) {
                                    assert(spec_grid_covered(*coord_context, *volume, xi, yi, zi, j));
                                    assert(yi < cy && zi < cz && (xi < xi || (xi == xi && (yi < yi
                                        || (yi == yi && zi < zi + 1)))) && spec_grid_covered(
                                        *coord_context,
                                        *volume,
                                        xi,
                                        yi,
                                        zi,
                                        j,
                                    ));
                                } else {
                                    assert(spec_bit(mid, j));
                                    if !spec_bit(old(self).spec_octree(), j) {
                                        let (a, b, c) = choose|a: u8, b: u8, c: u8|
                                            #![trigger spec_grid_covered(*coord_context, *volume, a, b, c, j)]
                                            b < cy && c < cz && (a < xi || (a == xi && (b < yi || (b
                                                == yi && c < zi)))) && spec_grid_covered(
                                                *coord_context,
                                                *volume,
                                                a,
                                                b,
                                                c,
                                                j,
                                            );
                                        assert(b < cy && c < cz && (a < xi || (a == xi && (b < yi
                                            || (b == yi && c < zi + 1)))) && spec_grid_covered(
                                            *coord_context,
                                            *volume,
                                            a,
                                            b,
                                            c,
                                            j,
                                        ));
                                    }
                                }
                            } else {
                                assert(!spec_bit(mid, j));
                                assert(!spec_cull_progress(
                                    *coord_context,
                                    *volume,
                                    xi,
                                    yi,
                                    (zi + 1) as u8,
                                    j,
                                )) by {
                                    if spec_cull_progress(
                                        *coord_context,
                                        *volume,
                                        xi,
                                        yi,
                                        (zi + 1) as u8,
                                        j,
                                    ) {
                                        let (a, b, c) = choose|a: u8, b: u8, c: u8|
                                            #![trigger spec_grid_covered(*coord_context, *volume, a, b, c, j)]
                                            b < cy && c < cz && (a < xi || (a == xi && (b < yi || (b
                                                == yi && c < zi + 1)))) && spec_grid_covered(
                                                *coord_context,
                                                *volume,
                                                a,
                                                b,
                                                c,
                                                j,
                                            );
                                        if a == xi && b == yi && c == zi {
                                            assert(spec_covered(
                                                *coord_context,
                                                *volume,
                                                level_3_index_xyz.spec_idx(),
                                                3,
                                                j,
                                            ));
                                        } else {
                                            assert(b < cy && c < cz && (a < xi || (a == xi && (b
                                                < yi || (b == yi && c < zi))))
                                                && spec_grid_covered(
                                                *coord_context,
                                                *volume,
                                                a,
                                                b,
                                                c,
                                                j,
                                            ));
                                        }
                                    }
                                }
                            }
                        }
                    }
                    proof {
                        lemma_pack_unpack(coords_xyz.x, coords_xyz.y, coords_xyz.z);
                        lemma_step3_alignment(coords_xyz.z);
                        lemma_wrap_step_formula(coords_xyz.z, sz, zi);
                        coords_xyz = crate::coord::LocalNodeCoords {
                            z: spec_wrap_inc(coords_xyz.z, 3),
                            ..coords_xyz
                        };
                    }
                    level_3_index_xyz = level_3_index_xyz.inc_z(3);
                    zi = zi + 1;
                }
                proof {
                    lemma_progress_roll_z(*coord_context, *volume, xi, yi, 0u32);
                    assert forall|j: u32|
                        j < 0x1000000 implies #[trigger] spec_bit(self.spec_octree(), j) == (
                    spec_cull_progress(*coord_context, *volume, xi, (yi + 1) as u8, 0, j)
                        || spec_bit(old(self).spec_octree(), j)) by {
                        lemma_progress_roll_z(*coord_context, *volume, xi, yi, j);
                    }
                    lemma_pack_unpack(coords_xy.x, coords_xy.y, coords_xy.z);
                    lemma_step3_alignment(coords_xy.y);
                    lemma_wrap_step_formula(coords_xy.y, sy, yi);
                    coords_xy = crate::coord::LocalNodeCoords {
                        y: spec_wrap_inc(coords_xy.y, 3),
                        ..coords_xy
                    };
                }
                level_3_index_xy = level_3_index_xy.inc_y(3);
                yi = yi + 1;
            }
            proof {
                assert forall|j: u32|
                    j < 0x1000000 implies #[trigger] spec_bit(self.spec_octree(), j) == (
                spec_cull_progress(*coord_context, *volume, (xi + 1) as u8, 0, 0, j) || spec_bit(
                    old(self).spec_octree(),
                    j,
                )) by {
                    lemma_progress_roll_y(*coord_context, *volume, xi, j);
                }
                lemma_pack_unpack(coords_x.x, coords_x.y, coords_x.z);
                lemma_step3_alignment(coords_x.x);
                lemma_wrap_step_formula(coords_x.x, sx, xi);
                coords_x = crate::coord::LocalNodeCoords {
                    x: spec_wrap_inc(coords_x.x, 3),
                    ..coords_x
                };
            }
            level_3_index_x = level_3_index_x.inc_x(3);
            xi = xi + 1;
        }
    }

    /// The queue slots still free plus the queued sections: each flood
    /// step pops one section and pushes at most as many sections as
    /// slots it consumes, so this strictly falls.
    pub closed spec fn spec_queue_measure(self) -> int {
        self.bfs_cached_state.queue.spec_room() + self.bfs_cached_state.queue.view().len()
    }

    /// Records that the flood may enter `neighbor` through
    /// `incoming_direction`, queueing the neighbor on its first
    /// pending direction.  When the queue is out of room the expansion
    /// is dropped.
    fn expand_neighbor(&mut self, neighbor: LocalNodeIndex, incoming_direction: GraphDirection)
        requires
            old(self).wf(),
            neighbor.wf(),
            spec_frontier_ok(old(self).spec_incoming(), old(self).spec_queue()),
        ensures
            final(self).wf(),
            spec_frontier_ok(final(self).spec_incoming(), final(self).spec_queue()),
            final(self).spec_queue_measure() == old(self).spec_queue_measure(),
            final(self).spec_queue().len() >= old(self).spec_queue().len(),
            forall|k: int|
                0 <= k < old(self).spec_queue().len() ==> #[trigger] final(self).spec_queue()[k]
                    == old(self).spec_queue()[k],
            final(self).spec_octree() == old(self).spec_octree(),
            final(self).spec_staging() == old(self).spec_staging(),
            final(self).spec_visibility() == old(self).spec_visibility(),
            final(self).spec_results() == old(self).spec_results(),
    {
        proof {
            lemma_mask_bits();
        }
        let i = neighbor.as_array_index();
        let should_enqueue = self.bfs_cached_state.incoming_directions[i].is_empty();
        if should_enqueue {
            proof {
                self.bfs_cached_state.queue.lemma_room_nonneg();
            }
            if self.bfs_cached_state.queue.has_room() {
                self.bfs_cached_state.queue.push(neighbor);
                let mut v = GraphDirectionSet::none();
                v.add(incoming_direction);
                self.bfs_cached_state.incoming_directions.set(i, v);
                proof {
                    let q0 = old(self).spec_queue();
                    let q1 = self.spec_queue();
                    let inc1 = self.spec_incoming();
                    assert(q1 == q0.push(neighbor));
                    assert(v.spec_bits() == 0u8 | (1u8 << incoming_direction.spec_bit()));
                    assert(v.spec_bits() != 0) by {
                        assert(((1u8 << incoming_direction.spec_bit())
                            >> incoming_direction.spec_bit()) & 1 == 1);
                        assert(((0u8 >> incoming_direction.spec_bit()) & 1) == 0);
                    }
                    assert forall|k1: int, k2: int| 0 <= k1 < k2 < q1.len() implies (
                    #[trigger] q1[k1].spec_idx()) != (#[trigger] q1[k2].spec_idx()) by {
                        if k2 == q1.len() - 1 {
                            assert(old(self).spec_incoming()[neighbor.spec_idx() as int].spec_bits()
                                == 0);
                            assert(q1[k1] == q0[k1]);
                        }
                    }
                    assert forall|ii: int| 0 <= ii < SECTIONS_IN_GRAPH implies ((#[trigger] inc1[
                    ii]).spec_bits() != 0 <==> exists|k: int|
                        0 <= k < q1.len() && (#[trigger] q1[k]).spec_idx() == ii) by {
                        if ii == i {
                            assert(q1[q1.len() - 1].spec_idx() == ii);
                        } else {
                            if inc1[ii].spec_bits() != 0 {
                                let k = choose|k: int|
                                    0 <= k < q0.len() && (#[trigger] q0[k]).spec_idx() == ii;
                                assert(q1[k].spec_idx() == ii);
                            }
                            if exists|k: int| 0 <= k < q1.len() && (#[trigger] q1[k]).spec_idx()
                                == ii {
                                let k = choose|k: int|
                                    0 <= k < q1.len() && (#[trigger] q1[k]).spec_idx() == ii;
                                assert(k < q0.len() && q0[k].spec_idx() == ii);
                            }
                        }
                    }
                }
            }
        } else {
            let mut v = self.bfs_cached_state.incoming_directions[i];
            v.add(incoming_direction);
            self.bfs_cached_state.incoming_directions.set(i, v);
            proof {
                let q1 = self.spec_queue();
                let inc0 = old(self).spec_incoming();
                let inc1 = self.spec_incoming();
                assert(v.spec_bits() == inc0[i as int].spec_bits() | (1u8
                    << incoming_direction.spec_bit()));
                assert(v.spec_bits() != 0);
                assert forall|ii: int| 0 <= ii < SECTIONS_IN_GRAPH implies ((#[trigger] inc1[
                ii]).spec_bits() != 0 <==> exists|k: int|
                    0 <= k < q1.len() && (#[trigger] q1[k]).spec_idx() == ii) by {
                    if ii != i {
                        assert(inc1[ii] == inc0[ii]);
                    }
                }
            }
        }
    }

    /// The breadth-first visibility flood: pops sections from the
    /// queue, stages the ones whose visibility bit is set, and spreads
    /// through the per-section connectivity toward the camera.
    fn bfs_and_occlusion_cull(&mut self, coord_context: &LocalCoordContext, use_occlusion_culling: bool)
        requires
            old(self).wf(),
            coord_context.wf(),
            forall|i: int|
                0 <= i < SECTIONS_IN_GRAPH ==> (#[trigger] old(self).spec_incoming()[
                i]).spec_bits() == 0,
            old(self).spec_queue().len() == 0,
            old(self).bfs_cached_state.queue.spec_room() == old(
                self,
            ).bfs_cached_state.queue.spec_capacity(),
            old(self).spec_staging().spec_clean(),
        ensures
            final(self).wf(),
            forall|i: int|
                0 <= i < SECTIONS_IN_GRAPH ==> (#[trigger] final(self).spec_incoming()[
                i]).spec_bits() == 0,
            final(self).spec_queue().len() == 0,
            final(self).bfs_cached_state.queue.spec_room()
                == final(self).bfs_cached_state.queue.spec_capacity(),
            spec_staging_ok(*coord_context, final(self).spec_staging(), final(self).spec_octree()),
            forall|r: u16, m: int|
                #![trigger final(self).spec_staging().spec_lists()[r as int].view()[m]]
                r < 0x10000 && 0 <= m < final(self).spec_staging().spec_lists()[
                r as int].view().len() ==> spec_bit(
                    old(self).spec_octree(),
                    spec_staged_section(
                        r,
                        final(self).spec_staging().spec_lists()[r as int].view()[m],
                    ),
                ),
            spec_bit(old(self).spec_octree(), coord_context.camera_section_index.spec_idx())
                ==> spec_camera_staged(*coord_context, final(self).spec_staging()),
            final(self).spec_visibility() == old(self).spec_visibility(),
            final(self).spec_results() == old(self).spec_results(),
    {
        let directions_modifier = if use_occlusion_culling {
            GraphDirectionSet::none()
        } else {
            GraphDirectionSet::all()
        };

        let initial_node_index = coord_context.camera_section_index;
        proof {
            self.bfs_cached_state.queue.lemma_room_nonneg();
        }
        self.bfs_cached_state.queue.push(initial_node_index);
        let i0 = initial_node_index.as_array_index();
        let mut v0 = GraphDirectionSet::none();
        v0.add_all(GraphDirectionSet::all());
        self.bfs_cached_state.incoming_directions.set(i0, v0);
        proof {
            lemma_mask_bits();
            let q = self.spec_queue();
            assert(q.len() == 1 && q[0] == initial_node_index);
            assert(v0.spec_bits() == 0u8 | 0x3f);
            assert(v0.spec_bits() != 0) by {
                if 0u8 | 0x3f == 0 {
                    assert(0x3fu8 == 0);
                }
            }
            assert(q[0].spec_idx() == i0);
            assert forall|ii: int| 0 <= ii < SECTIONS_IN_GRAPH implies ((
            #[trigger] self.spec_incoming()[ii]).spec_bits() != 0 <==> exists|k: int|
                0 <= k < q.len() && (#[trigger] q[k]).spec_idx() == ii) by {
                if ii == i0 as int {
                    assert(self.spec_incoming()[ii] == v0);
                    assert(q[0].spec_idx() == ii);
                } else {
                    assert(self.spec_incoming()[ii] == old(self).spec_incoming()[ii]);
                    assert(old(self).spec_incoming()[ii].spec_bits() == 0);
                    if exists|k: int| 0 <= k < q.len() && (#[trigger] q[k]).spec_idx() == ii {
                        let k = choose|k: int|
                            0 <= k < q.len() && (#[trigger] q[k]).spec_idx() == ii;
                        assert(k == 0);
                        assert(false);
                    }
                }
            }
        }

        while !self.bfs_cached_state.queue.is_empty()
            invariant
                self.wf(),
                coord_context.wf(),
                directions_modifier.wf(),
                spec_frontier_ok(self.spec_incoming(), self.spec_queue()),
                spec_staging_ok(*coord_context, self.spec_staging(), self.spec_octree()),
                forall|j: u32|
                    j < 0x1000000 && #[trigger] spec_bit(self.spec_octree(), j) ==> spec_bit(
                        old(self).spec_octree(),
                        j,
                    ),
                forall|r: u16, m: int|
                    #![trigger self.spec_staging().spec_lists()[r as int].view()[m]]
                    r < 0x10000 && 0 <= m < self.spec_staging().spec_lists()[
                    r as int].view().len() ==> spec_bit(
                        old(self).spec_octree(),
                        spec_staged_section(
                            r,
                            self.spec_staging().spec_lists()[r as int].view()[m],
                        ),
                    ),
                spec_bit(old(self).spec_octree(), coord_context.camera_section_index.spec_idx())
                    ==> (spec_camera_staged(*coord_context, self.spec_staging()) || ((exists|
                    k: int,
                |
                    0 <= k < self.spec_queue().len() && (#[trigger] self.spec_queue()[
                    k]).spec_idx() == coord_context.camera_section_index.spec_idx()) && spec_bit(
                    self.spec_octree(),
                    coord_context.camera_section_index.spec_idx(),
                ))),
                self.spec_visibility() == old(self).spec_visibility(),
                self.spec_results() == old(self).spec_results(),
            decreases self.spec_queue_measure(),
        {
            proof {
                self.bfs_cached_state.queue.lemma_room_nonneg();
            }
            let ghost q0 = self.spec_queue();
            let popped = self.bfs_cached_state.queue.pop();
            let local_section_index = popped.unwrap();
            let ghost q_rest = self.spec_queue();
            let ghost si = local_section_index.spec_idx();
            let ghost cam = coord_context.camera_section_index.spec_idx();
            proof {
                assert(q0[0] == local_section_index);
                assert(local_section_index.wf());
                assert forall|k: int| 0 <= k < q_rest.len() implies #[trigger] q_rest[k] == q0[k
                    + 1] by {}
            }
            let local_section_coords = local_section_index.unpack_section();
            proof {
                crate::coord::lemma_unpack_pack(si);
                crate::region::lemma_region_index_bound(
                    local_section_coords.x,
                    local_section_coords.y,
                    local_section_coords.z,
                );
            }
            let axis_wrap_directions = coord_context.get_axis_wrap_directions(local_section_coords);
            let region_coords = coord_context.region_coords_of(local_section_coords);
            let ghost st0 = self.spec_staging();
            proof {
                st0.lemma_wf_len();
            }
            let region = self.bfs_cached_state.staging_render_lists.touch_region(
                region_coords,
                local_section_coords,
            );
            proof {
                lemma_recover(
                    region,
                    0,
                    local_section_coords.x,
                    local_section_coords.y,
                    local_section_coords.z,
                );
                coord_context.lemma_region_coords_uniform(
                    local_section_coords.x,
                    local_section_coords.y,
                    local_section_coords.z,
                    spec_recover_x(region, 0),
                    spec_recover_y(region, 0),
                    spec_recover_z(region, 0),
                );
                let st1 = self.spec_staging();
                st1.lemma_wf_len();
                if st0.spec_lists()[region as int].spec_initialized() {
                    assert(st1 == st0);
                } else {
                    assert(st1.spec_lists() == st0.spec_lists().update(
                        region as int,
                        st1.spec_lists()[region as int],
                    ));
                }
                assert forall|r: u16|
                    r < 0x10000 && (#[trigger] st1.spec_lists()[r as int]).spec_initialized()
                        implies st1.spec_lists()[r as int].spec_coords() == spec_slot_coords(
                    *coord_context,
                    r,
                ) by {
                    if r != region {
                        assert(st1.spec_lists()[r as int] == st0.spec_lists()[r as int]);
                    }
                }
                assert forall|r: u16| r < 0x10000 implies (#[trigger] st1.spec_lists()[
                r as int]).view().no_duplicates() by {
                    assert(st1.spec_lists()[r as int].view() == st0.spec_lists()[r as int].view());
                }
                assert forall|r: u16, m: int|
                    #![trigger st1.spec_lists()[r as int].view()[m]]
                    r < 0x10000 && 0 <= m < st1.spec_lists()[r as int].view().len() implies
                    !spec_bit(
                    self.spec_octree(),
                    spec_staged_section(r, st1.spec_lists()[r as int].view()[m]),
                ) by {
                    assert(st1.spec_lists()[r as int].view() == st0.spec_lists()[r as int].view());
                }
                assert forall|r: u16, m: int|
                    #![trigger st1.spec_lists()[r as int].view()[m]]
                    r < 0x10000 && 0 <= m < st1.spec_lists()[r as int].view().len() implies
                    spec_bit(
                    old(self).spec_octree(),
                    spec_staged_section(r, st1.spec_lists()[r as int].view()[m]),
                ) by {
                    assert(st1.spec_lists()[r as int].view() == st0.spec_lists()[r as int].view());
                }
            }
            let i = local_section_index.as_array_index();
            let section_incoming_directions = self.bfs_cached_state.incoming_directions[i];
            let ghost inc0 = self.spec_incoming();
            self.bfs_cached_state.incoming_directions.set(i, GraphDirectionSet::none());
            proof {
                let inc1 = self.spec_incoming();
                assert forall|k1: int, k2: int| 0 <= k1 < k2 < q_rest.len() implies (
                #[trigger] q_rest[k1].spec_idx()) != (#[trigger] q_rest[k2].spec_idx()) by {
                    assert(q0[k1 + 1].spec_idx() != q0[k2 + 1].spec_idx());
                }
                assert forall|ii: int| 0 <= ii < SECTIONS_IN_GRAPH implies ((#[trigger] inc1[
                ii]).spec_bits() != 0 <==> exists|k: int|
                    0 <= k < q_rest.len() && (#[trigger] q_rest[k]).spec_idx() == ii) by {
                    if ii == si {
                        assert(inc1[ii].spec_bits() == 0);
                        if exists|k: int| 0 <= k < q_rest.len() && (#[trigger] q_rest[k]).spec_idx()
                            == ii {
                            let k = choose|k: int|
                                0 <= k < q_rest.len() && (#[trigger] q_rest[k]).spec_idx() == ii;
                            assert(q0[k + 1].spec_idx() == si && q0[0].spec_idx() == si);
                            assert(false);
                        }
                    } else {
                        assert(inc1[ii] == inc0[ii]);
                        if inc0[ii].spec_bits() != 0 {
                            let k = choose|k: int|
                                0 <= k < q0.len() && (#[trigger] q0[k]).spec_idx() == ii;
                            assert(k != 0);
                            assert(q_rest[k - 1].spec_idx() == ii);
                        }
                        if exists|k: int| 0 <= k < q_rest.len() && (#[trigger] q_rest[k]).spec_idx()
                            == ii {
                            let k = choose|k: int|
                                0 <= k < q_rest.len() && (#[trigger] q_rest[k]).spec_idx() == ii;
                            assert(q0[k + 1].spec_idx() == ii);
                        }
                    }
                }
            }
            let ghost oct0 = self.spec_octree();
            proof {
                lemma_aligned_level0(si);
            }
            let visible = self.frustum_fog_cached_state.section_is_visible_bits.get_and_clear(
                local_section_index,
                0,
            );
            proof {
                let st1 = self.spec_staging();
                st1.lemma_wf_len();
                assert forall|r: u16, m: int|
                    #![trigger st1.spec_lists()[r as int].view()[m]]
                    r < 0x10000 && 0 <= m < st1.spec_lists()[r as int].view().len() implies
                    !spec_bit(
                    self.spec_octree(),
                    spec_staged_section(r, st1.spec_lists()[r as int].view()[m]),
                ) by {
                    let sidx = spec_staged_section(r, st1.spec_lists()[r as int].view()[m]);
                    lemma_pack_unpack(
                        spec_recover_x(r, st1.spec_lists()[r as int].view()[m]),
                        spec_recover_y(r, st1.spec_lists()[r as int].view()[m]),
                        spec_recover_z(r, st1.spec_lists()[r as int].view()[m]),
                    );
                    assert(!spec_bit(oct0, sidx));
                }
            }
            if !visible {
                proof {
                    if spec_bit(old(self).spec_octree(), cam) {
                        let cr = spec_region_index(spec_x(cam), spec_y(cam), spec_z(cam));
                        let csi = spec_section_index(spec_x(cam), spec_y(cam), spec_z(cam));
                        if si == cam {
                            // the camera's bit is clear, so by the loop
                            // invariant it was staged earlier
                            assert(spec_camera_staged(*coord_context, st0));
                            assert(spec_camera_staged(*coord_context, self.spec_staging())) by {
                                let lv0 = st0.spec_lists()[cr as int].view();
                                let lv1 = self.spec_staging().spec_lists()[cr as int].view();
                                let mj = choose|mj: int| 0 <= mj < lv0.len() && lv0[mj] == csi;
                                assert(lv1[mj] == csi);
                            }
                        } else if spec_camera_staged(*coord_context, st0) {
                            assert(spec_camera_staged(*coord_context, self.spec_staging())) by {
                                let lv0 = st0.spec_lists()[cr as int].view();
                                let lv1 = self.spec_staging().spec_lists()[cr as int].view();
                                let mj = choose|mj: int| 0 <= mj < lv0.len() && lv0[mj] == csi;
                                assert(lv1[mj] == csi);
                            }
                        } else {
                            assert(spec_bit(oct0, cam));
                            lemma_shift3(0);
                            assert(!spec_in_node(si, 0, cam));
                            assert(spec_bit(self.spec_octree(), cam));
                            let k = choose|k: int|
                                0 <= k < q0.len() && (#[trigger] q0[k]).spec_idx() == cam;
                            assert(k != 0);
                            assert(self.spec_queue() == q_rest);
                            assert(self.spec_queue()[k - 1].spec_idx() == cam);
                        }
                    }
                }
                continue;
            }
            proof {
                // the section's own pair cannot be staged yet: its bit was set
                let st1 = self.spec_staging();
                st1.lemma_wf_len();
                let sv = spec_section_index(
                    local_section_coords.x,
                    local_section_coords.y,
                    local_section_coords.z,
                );
                lemma_recover(
                    region,
                    sv,
                    local_section_coords.x,
                    local_section_coords.y,
                    local_section_coords.z,
                );
                assert(spec_staged_section(region, sv) == si);
                assert(spec_bit(oct0, si));
                assert(!st1.spec_lists()[region as int].view().contains(sv)) by {
                    if st1.spec_lists()[region as int].view().contains(sv) {
                        let m = choose|m: int|
                            0 <= m < st1.spec_lists()[region as int].view().len()
                                && st1.spec_lists()[region as int].view()[m] == sv;
                        assert(!spec_bit(oct0, spec_staged_section(region, sv)));
                    }
                }
                let pushed = st1.spec_lists()[region as int].view().push(sv);
                assert(pushed.no_duplicates()) by {
                    assert forall|m1: int, m2: int| 0 <= m1 < m2 < pushed.len() implies pushed[m1]
                        != pushed[m2] by {
                        if m2 == pushed.len() - 1 {
                            assert(st1.spec_lists()[region as int].view().contains(pushed[m1]));
                        }
                    }
                }
                lemma_no_dup_u8_len(pushed);
            }
            let ghost st_before_add = self.spec_staging();
            proof {
                st_before_add.lemma_wf_len();
            }
            self.bfs_cached_state.staging_render_lists.add_section(region, local_section_coords);
            proof {
                let st1 = self.spec_staging();
                st1.lemma_wf_len();
                let sv = spec_section_index(
                    local_section_coords.x,
                    local_section_coords.y,
                    local_section_coords.z,
                );
                assert forall|r: u16|
                    r < 0x10000 && (#[trigger] st1.spec_lists()[r as int]).spec_initialized()
                        implies st1.spec_lists()[r as int].spec_coords() == spec_slot_coords(
                    *coord_context,
                    r,
                ) by {
                    if r != region {
                        assert(st1.spec_lists()[r as int] == st_before_add.spec_lists()[r as int]);
                    }
                }
                assert forall|r: u16| r < 0x10000 implies (#[trigger] st1.spec_lists()[
                r as int]).view().no_duplicates() by {
                    if r != region {
                        assert(st1.spec_lists()[r as int] == st_before_add.spec_lists()[r as int]);
                    } else {
                        assert(st1.spec_lists()[r as int].view() == st_before_add.spec_lists()[
                        r as int].view().push(sv));
                    }
                }
                assert forall|r: u16, m: int|
                    #![trigger st1.spec_lists()[r as int].view()[m]]
                    r < 0x10000 && 0 <= m < st1.spec_lists()[r as int].view().len() implies
                    spec_bit(
                    old(self).spec_octree(),
                    spec_staged_section(r, st1.spec_lists()[r as int].view()[m]),
                ) by {
                    if r == region && m == st1.spec_lists()[r as int].view().len() - 1 {
                        lemma_recover(
                            region,
                            sv,
                            local_section_coords.x,
                            local_section_coords.y,
                            local_section_coords.z,
                        );
                        assert(spec_staged_section(region, sv) == si);
                        assert(spec_bit(oct0, si));
                    } else {
                        if r == region {
                            assert(st1.spec_lists()[r as int].view()[m]
                                == st_before_add.spec_lists()[r as int].view()[m]);
                        } else {
                            assert(st1.spec_lists()[r as int] == st_before_add.spec_lists()[
                            r as int]);
                        }
                    }
                }
                assert forall|r: u16, m: int|
                    #![trigger st1.spec_lists()[r as int].view()[m]]
                    r < 0x10000 && 0 <= m < st1.spec_lists()[r as int].view().len() implies
                    !spec_bit(
                    self.spec_octree(),
                    spec_staged_section(r, st1.spec_lists()[r as int].view()[m]),
                ) by {
                    let s8 = st1.spec_lists()[r as int].view()[m];
                    lemma_pack_unpack(
                        spec_recover_x(r, s8),
                        spec_recover_y(r, s8),
                        spec_recover_z(r, s8),
                    );
                    if r == region && m == st1.spec_lists()[r as int].view().len() - 1 {
                        lemma_recover(
                            region,
                            sv,
                            local_section_coords.x,
                            local_section_coords.y,
                            local_section_coords.z,
                        );
                        assert(spec_staged_section(region, sv) == si);
                    } else {
                        if r == region {
                            assert(st1.spec_lists()[r as int].view()[m]
                                == st_before_add.spec_lists()[r as int].view()[m]);
                        } else {
                            assert(st1.spec_lists()[r as int] == st_before_add.spec_lists()[
                            r as int]);
                        }
                        assert(!spec_bit(oct0, spec_staged_section(r, s8)));
                    }
                }
            }
            proof {
                if spec_bit(old(self).spec_octree(), cam) {
                    let cr = spec_region_index(spec_x(cam), spec_y(cam), spec_z(cam));
                    let csi = spec_section_index(spec_x(cam), spec_y(cam), spec_z(cam));
                    if si == cam {
                        assert(spec_camera_staged(*coord_context, self.spec_staging())) by {
                            let lv = self.spec_staging().spec_lists()[cr as int].view();
                            assert(region == cr);
                            assert(lv[lv.len() - 1] == csi);
                        }
                    } else if spec_camera_staged(*coord_context, st0) {
                        assert(spec_camera_staged(*coord_context, self.spec_staging())) by {
                            let lv0 = st0.spec_lists()[cr as int].view();
                            let lv1 = self.spec_staging().spec_lists()[cr as int].view();
                            let mj = choose|mj: int| 0 <= mj < lv0.len() && lv0[mj] == csi;
                            assert(lv1[mj] == csi);
                        }
                    } else {
                        assert(spec_bit(oct0, cam));
                        lemma_shift3(0);
                        assert(!spec_in_node(si, 0, cam));
                        assert(spec_bit(self.spec_octree(), cam));
                        let k = choose|k: int|
                            0 <= k < q0.len() && (#[trigger] q0[k]).spec_idx() == cam;
                        assert(k != 0);
                        assert(self.spec_queue() == q_rest);
                        assert(self.spec_queue()[k - 1].spec_idx() == cam);
                    }
                }
            }
            let mut section_outgoing_directions =
                self.section_visibility_direction_sets[i].get_outgoing_directions(
                section_incoming_directions,
            );
            section_outgoing_directions.add_all(directions_modifier);
            let valid = coord_context.get_valid_directions(
                local_section_coords,
                axis_wrap_directions,
            );
            let section_outgoing_directions = section_outgoing_directions.intersection(valid);
            let section_neighbor_indices = local_section_index.get_all_neighbors(0);
            let ghost snapshot = *self;
            let mut d: u8 = 0;
            while d < 6
                invariant
                    self.wf(),
                    d <= 6,
                    coord_context.wf(),
                    spec_frontier_ok(self.spec_incoming(), self.spec_queue()),
                    self.spec_queue_measure() == snapshot.spec_queue_measure(),
                    self.spec_octree() == snapshot.spec_octree(),
                    self.spec_staging() == snapshot.spec_staging(),
                    self.spec_visibility() == snapshot.spec_visibility(),
                    self.spec_results() == snapshot.spec_results(),
                    forall|dd: GraphDirection|
                        (#[trigger] section_neighbor_indices.spec_get(dd)).wf(),
                    spec_bit(old(self).spec_octree(), cam) ==> (spec_camera_staged(
                        *coord_context,
                        self.spec_staging(),
                    ) || ((exists|k: int|
                        0 <= k < self.spec_queue().len() && (#[trigger] self.spec_queue()[
                        k]).spec_idx() == cam) && spec_bit(self.spec_octree(), cam))),
                decreases 6 - d,
            {
                let dir = GraphDirection::from_int_unchecked(d);
                if section_outgoing_directions.contains(dir) {
                    let ghost qb = self.spec_queue();
                    let n = section_neighbor_indices.get(dir);
                    self.expand_neighbor(n, dir.opposite());
                    proof {
                        if exists|k: int|
                            0 <= k < qb.len() && (#[trigger] qb[k]).spec_idx() == cam {
                            let k = choose|k: int|
                                0 <= k < qb.len() && (#[trigger] qb[k]).spec_idx() == cam;
                            assert(self.spec_queue()[k].spec_idx() == cam);
                        }
                    }
                }
                d = d + 1;
            }
        }
        proof {
            assert forall|i: int| 0 <= i < SECTIONS_IN_GRAPH implies (
            #[trigger] self.spec_incoming()[i]).spec_bits() == 0 by {
                if self.spec_incoming()[i].spec_bits() != 0 {
                    let k = choose|k: int|
                        0 <= k < self.spec_queue().len() && (#[trigger] self.spec_queue()[
                        k]).spec_idx() == i;
                }
            }
        }
        self.bfs_cached_state.queue.reset();
    }

    /// Runs the frustum/fog cull, floods visibility from the camera
    /// section, and returns the visited sections grouped by region in
    /// first-touch order.  All transient state is reset before
    /// returning.
    pub fn cull_and_sort<V: ViewVolume>(
        &mut self,
        coord_context: &LocalCoordContext,
        volume: &V,
        use_occlusion_culling: bool,
    ) -> (r: &CInlineVec<RegionRenderList>)
        requires
            old(self).wf(),
            old(self).spec_clean(),
            coord_context.wf(),
            volume.spec_wf(),
        ensures
            final(self).wf(),
            final(self).spec_clean(),
            final(self).spec_visibility() == old(self).spec_visibility(),
            r.view() == final(self).spec_results(),
            spec_output_ok(*coord_context, final(self).spec_results()),
            exists|src: Seq<u16>|
                #[trigger] spec_output_from(*coord_context, final(self).spec_results(), src)
                    && spec_output_sections_visible(
                    *coord_context,
                    *volume,
                    final(self).spec_results(),
                    src,
                ) && (spec_cull_visible(
                    *coord_context,
                    *volume,
                    coord_context.camera_section_index.spec_idx(),
                ) ==> spec_camera_emitted(*coord_context, final(self).spec_results(), src)),
    {
        self.results.clear();
        self.frustum_and_fog_cull(coord_context, volume);
        let ghost g0 = *self;
        self.bfs_and_occlusion_cull(coord_context, use_occlusion_culling);
        proof {
            assert forall|j: u32| j < 0x1000000 implies #[trigger] spec_bit(g0.spec_octree(), j)
                == spec_cull_visible(*coord_context, *volume, j) by {}
        }
        let ghost g1 = *self;
        self.frustum_fog_cached_state.section_is_visible_bits.clear();
        proof {
            assert(self.bfs_cached_state.incoming_directions
                == g1.bfs_cached_state.incoming_directions);
        }
        let ghost staging = self.spec_staging();
        self.bfs_cached_state.staging_render_lists.compile_render_lists(&mut self.results);
        proof {
            staging.lemma_wf_len();
            let entries = self.spec_results();
            let src = choose|src: Seq<u16>| #[trigger] staging.spec_compiled_from(entries, src);
            assert(spec_output_from(*coord_context, entries, src)) by {
                assert forall|i: int| 0 <= i < src.len() implies (#[trigger] src[i]) < 0x10000
                    && entries[i].spec_coords() == spec_slot_coords(*coord_context, src[i])
                    && entries[i].view().no_duplicates() && entries[i].view().len() > 0 by {
                    assert(staging.spec_lists()[src[i] as int].spec_initialized());
                }
            }
            let cam = coord_context.camera_section_index.spec_idx();
            if spec_cull_visible(*coord_context, *volume, cam) {
                let cr = spec_region_index(spec_x(cam), spec_y(cam), spec_z(cam));
                let csi = spec_section_index(spec_x(cam), spec_y(cam), spec_z(cam));
                assert(spec_bit(g0.spec_octree(), cam));
                assert(spec_camera_staged(*coord_context, g1.spec_staging()));
                assert(staging.spec_lists()[cr as int].view().contains(csi)) by {
                    assert(staging.spec_lists()[cr as int] == g1.spec_staging().spec_lists()[
                    cr as int]);
                    let mj = choose|mj: int|
                        0 <= mj < g1.spec_staging().spec_lists()[cr as int].view().len()
                            && g1.spec_staging().spec_lists()[cr as int].view()[mj] == csi;
                    assert(staging.spec_lists()[cr as int].view()[mj] == csi);
                }
                crate::region::lemma_region_index_bound(spec_x(cam), spec_y(cam), spec_z(cam));
                staging.lemma_nonempty_region_ordered(cr);
                let kk = choose|kk: int|
                    0 <= kk < staging.spec_order().len() && staging.spec_order()[kk] == cr;
                assert(staging.spec_lists()[staging.spec_order()[kk] as int].view().len() > 0);
                assert(src.contains(cr));
                let i = choose|i: int| 0 <= i < src.len() && src[i] == cr;
                assert(entries[i].view().contains(csi)) by {
                    let mj = choose|mj: int|
                        0 <= mj < staging.spec_lists()[cr as int].view().len()
                            && staging.spec_lists()[cr as int].view()[mj] == csi;
                    assert(entries[i].view()[mj] == csi);
                }
                assert(spec_camera_emitted(*coord_context, entries, src));
            }
            assert(spec_output_sections_visible(*coord_context, *volume, entries, src)) by {
                assert forall|i: int, m: int|
                    #![trigger entries[i].view()[m], src[i]]
                    0 <= i < src.len() && 0 <= m < entries[i].view().len() implies spec_cull_visible(
                    *coord_context,
                    *volume,
                    spec_staged_section(src[i], entries[i].view()[m]),
                ) by {
                    assert(entries[i].view() == staging.spec_lists()[src[i] as int].view());
                    assert(staging.spec_lists()[src[i] as int] == g1.spec_staging().spec_lists()[
                    src[i] as int]);
                    lemma_pack_unpack(
                        spec_recover_x(src[i], g1.spec_staging().spec_lists()[src[i] as int].view()[m]),
                        spec_recover_y(src[i], g1.spec_staging().spec_lists()[src[i] as int].view()[m]),
                        spec_recover_z(src[i], g1.spec_staging().spec_lists()[src[i] as int].view()[m]),
                    );
                    assert(spec_bit(
                        g0.spec_octree(),
                        spec_staged_section(
                            src[i],
                            g1.spec_staging().spec_lists()[src[i] as int].view()[m],
                        ),
                    ));
                    assert(spec_cull_visible(
                        *coord_context,
                        *volume,
                        spec_staged_section(
                            src[i],
                            g1.spec_staging().spec_lists()[src[i] as int].view()[m],
                        ),
                    ));
                    assert(entries[i].view()[m] == g1.spec_staging().spec_lists()[
                    src[i] as int].view()[m]);
                }
            }
        }
        self.bfs_cached_state.staging_render_lists.clear();
        proof {
            assert(self.bfs_cached_state.incoming_directions
                == g1.bfs_cached_state.incoming_directions);
            assert forall|i: int|
                0 <= i < SECTIONS_IN_GRAPH implies (
            #[trigger] self.bfs_cached_state.incoming_directions@[i]).spec_bits() == 0 by {
                assert(g1.spec_incoming()[i].spec_bits() == 0);
                assert(self.spec_incoming()[i] == g1.spec_incoming()[i]);
            }
        }
        &self.results
    }
}

/// Every section a region entry stages determines local coordinates
/// whose in-region index is the staged one, whose region slot is the
/// entry's, and whose region coordinates are the entry's coordinates:
/// an output's coordinates agree with every section it contains.
pub proof fn lemma_output_region_coords(
    ctx: LocalCoordContext,
    entries: Seq<RegionRenderList>,
    src: Seq<u16>,
    i: int,
    m: int,
)
    requires
        ctx.wf(),
        spec_output_from(ctx, entries, src),
        0 <= i < entries.len(),
        0 <= m < entries[i].view().len(),
    ensures
        ({
            let s = entries[i].view()[m];
            let cx = spec_recover_x(src[i], s);
            let cy = spec_recover_y(src[i], s);
            let cz = spec_recover_z(src[i], s);
            &&& spec_section_index(cx, cy, cz) == s
            &&& spec_region_index(cx, cy, cz) == src[i]
            &&& entries[i].spec_coords() == ctx.spec_region_coords(cx, cy, cz)
        }),
{
    let s = entries[i].view()[m];
    lemma_recover(src[i], s, 0, 0, 0);
    lemma_recover(src[i], 0, 0, 0, 0);
    ctx.lemma_region_coords_uniform(
        spec_recover_x(src[i], s),
        spec_recover_y(src[i], s),
        spec_recover_z(src[i], s),
        spec_recover_x(src[i], 0),
        spec_recover_y(src[i], 0),
        spec_recover_z(src[i], 0),
    );
}

/// No section appears twice across the region section lists of one
/// output: two distinct staged positions differ in their region
/// coordinates or their in-region index.
pub proof fn lemma_output_no_repeats(
    ctx: LocalCoordContext,
    entries: Seq<RegionRenderList>,
    src: Seq<u16>,
    i1: int,
    m1: int,
    i2: int,
    m2: int,
)
    requires
        ctx.wf(),
        spec_output_from(ctx, entries, src),
        0 <= i1 < entries.len(),
        0 <= m1 < entries[i1].view().len(),
        0 <= i2 < entries.len(),
        0 <= m2 < entries[i2].view().len(),
        (i1, m1) != (i2, m2),
    ensures
        (entries[i1].spec_coords(), entries[i1].view()[m1]) != (
            entries[i2].spec_coords(),
            entries[i2].view()[m2],
        ),
{
    let r1 = src[i1];
    let r2 = src[i2];
    if i1 == i2 {
        assert(entries[i1].view().no_duplicates());
        assert(entries[i1].view()[m1] != entries[i2].view()[m2]);
    } else {
        assert(src[i1] != src[i2]);
        lemma_recover(src[i1], 0, 0, 0, 0);
        lemma_recover(src[i2], 0, 0, 0, 0);
        ctx.lemma_region_coords_injective(
            spec_recover_x(src[i1], 0),
            spec_recover_y(src[i1], 0),
            spec_recover_z(src[i1], 0),
            spec_recover_x(src[i2], 0),
            spec_recover_y(src[i2], 0),
            spec_recover_z(src[i2], 0),
        );
    }
}

/// Setting a section and then removing it restores the visibility
/// store to its previous state, whenever the section held the default
/// datum before.
pub proof fn lemma_set_then_remove_restores(
    v: Seq<VisibilityData>,
    i: int,
    d: VisibilityData,
    dflt: VisibilityData,
)
    requires
        0 <= i < v.len(),
        v[i].spec_bits() == 0x7FFF,
        dflt.spec_bits() == 0x7FFF,
    ensures
        v.update(i, d).update(i, dflt) == v,
{
    crate::visibility::lemma_data_eq(v[i], dflt);
    assert(v.update(i, d).update(i, dflt) =~= v);
}

} // verus!