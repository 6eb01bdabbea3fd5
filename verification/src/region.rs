//! Region staging: grouping visited sections into 8x4x8 regions in
//! first-touch order.

use vstd::prelude::*;

use crate::collections::lemma_no_dup_u16_len;
use crate::collections::CInlineVec;
use crate::coord::LocalNodeCoords;

verus! {

/// Sections per region: 8 * 4 * 8.
pub const SECTIONS_IN_REGION: usize = 256;

/// Regions in the window: 32 * 64 * 32.
pub const REGIONS_IN_GRAPH: usize = 0x10000;

/// Marks a region slot that no section has touched this frame.
pub const UNDEFINED_REGION_COORD: i32 = -0x80000000;

/// The slot of the region holding the section at local coordinates
/// (x, y, z): the high five bits of x, six of y and five of z.
pub open spec fn spec_region_index(x: u8, y: u8, z: u8) -> u16 {
    (((x >> 3) as u16) << 11) | (((y >> 2) as u16) << 5) | ((z >> 3) as u16)
}

/// The index of a section within its region: the low three bits of x,
/// two of y and three of z.
pub open spec fn spec_section_index(x: u8, y: u8, z: u8) -> u8 {
    ((x & 7) << 5) | ((z & 7) << 2) | (y & 3)
}

/// The region slot is within the window's region count.
pub proof fn lemma_region_index_bound(x: u8, y: u8, z: u8)
    by (bit_vector)
    ensures
        spec_region_index(x, y, z) < 0x10000,
{
}

/// The local x coordinate of the section at slot `r`, in-region index `s`.
pub open spec fn spec_recover_x(r: u16, s: u8) -> u8 {
    (((r >> 11) << 3) as u8) | (s >> 5)
}

/// The local y coordinate of the section at slot `r`, in-region index `s`.
pub open spec fn spec_recover_y(r: u16, s: u8) -> u8 {
    ((((r >> 5) & 63) << 2) as u8) | (s & 3)
}

/// The local z coordinate of the section at slot `r`, in-region index `s`.
pub open spec fn spec_recover_z(r: u16, s: u8) -> u8 {
    (((r & 31) << 3) as u8) | ((s >> 2) & 7)
}

/// Recovering the section of a (slot, in-region index) pair restores
/// the pair, and recovering a section's own pair restores the section.
pub proof fn lemma_recover(r: u16, s: u8, x: u8, y: u8, z: u8)
    by (bit_vector)
    ensures
        spec_region_index(spec_recover_x(r, s), spec_recover_y(r, s), spec_recover_z(r, s)) == r,
        spec_section_index(spec_recover_x(r, s), spec_recover_y(r, s), spec_recover_z(r, s)) == s,
        spec_recover_x(spec_region_index(x, y, z), spec_section_index(x, y, z)) == x,
        spec_recover_y(spec_region_index(x, y, z), spec_section_index(x, y, z)) == y,
        spec_recover_z(spec_region_index(x, y, z), spec_section_index(x, y, z)) == z,
{
}

/// The slot of a region in the staging area, packed from a section's
/// high coordinate bits.
#[derive(Clone, Copy, PartialEq, Eq, Structural, Debug)]
pub struct LocalRegionIndex {
    value: u16,
}

impl LocalRegionIndex {
    pub closed spec fn spec_value(self) -> u16 {
        self.value
    }

    /// The slot of the region holding the section at
    /// `local_section_coord`.
    pub fn from_local_section(local_section_coord: LocalNodeCoords) -> (r: LocalRegionIndex)
        ensures
            r.spec_value() == spec_region_index(
                local_section_coord.x,
                local_section_coord.y,
                local_section_coord.z,
            ),
    {
        let x = local_section_coord.x;
        let y = local_section_coord.y;
        let z = local_section_coord.z;
        LocalRegionIndex {
            value: ((((x >> 3) as u16) << 11) | (((y >> 2) as u16) << 5) | ((z >> 3) as u16)),
        }
    }

    /// The raw slot number.
    pub fn as_u16(self) -> (r: u16)
        ensures
            r == self.spec_value(),
    {
        self.value
    }
}

/// The index of a section within its region, packed from a section's
/// low coordinate bits.
#[derive(Clone, Copy, PartialEq, Eq, Structural, Debug)]
pub struct RegionSectionIndex {
    value: u8,
}

impl RegionSectionIndex {
    pub closed spec fn spec_value(self) -> u8 {
        self.value
    }

    /// The in-region index of the section at `local_section_coord`.
    pub fn from_local_section(local_section_coord: LocalNodeCoords) -> (r: RegionSectionIndex)
        ensures
            r.spec_value() == spec_section_index(
                local_section_coord.x,
                local_section_coord.y,
                local_section_coord.z,
            ),
    {
        let x = local_section_coord.x;
        let y = local_section_coord.y;
        let z = local_section_coord.z;
        RegionSectionIndex { value: ((x & 7) << 5) | ((z & 7) << 2) | (y & 3) }
    }

    /// The raw in-region index.
    pub fn as_u8(self) -> (r: u8)
        ensures
            r == self.spec_value(),
    {
        self.value
    }
}

/// The render list of one region for the current frame: the region's
/// global coordinates and the sections staged for it, in the order the
/// flood first reached them.
pub struct RegionRenderList {
    region_coords: (i32, i32, i32),
    section_indices: CInlineVec<u8>,
}

impl RegionRenderList {
    pub closed spec fn spec_coords(self) -> (i32, i32, i32) {
        self.region_coords
    }

    /// The staged in-region section indices, in first-touch order.
    pub closed spec fn view(self) -> Seq<u8> {
        self.section_indices.view()
    }

    /// Whether a section has touched this region this frame.
    pub open spec fn spec_initialized(self) -> bool {
        self.spec_coords() != (
            UNDEFINED_REGION_COORD,
            UNDEFINED_REGION_COORD,
            UNDEFINED_REGION_COORD,
        )
    }

    pub closed spec fn wf(self) -> bool {
        &&& self.section_indices.wf()
        &&& self.section_indices.spec_capacity() == SECTIONS_IN_REGION
    }

    /// A cleared, untouched list.
    pub fn new() -> (r: RegionRenderList)
        ensures
            r.wf(),
            !r.spec_initialized(),
            r.view() == Seq::<u8>::empty(),
    {
        RegionRenderList {
            region_coords: (
                UNDEFINED_REGION_COORD,
                UNDEFINED_REGION_COORD,
                UNDEFINED_REGION_COORD,
            ),
            section_indices: CInlineVec::new(SECTIONS_IN_REGION),
        }
    }

    /// Stages the section at `local_section_coord` on this region's
    /// list.
    pub fn add_section(&mut self, local_section_coord: LocalNodeCoords)
        requires
            old(self).wf(),
            old(self).view().len() < SECTIONS_IN_REGION,
        ensures
            final(self).wf(),
            final(self).spec_coords() == old(self).spec_coords(),
            final(self).view() == old(self).view().push(
                spec_section_index(
                    local_section_coord.x,
                    local_section_coord.y,
                    local_section_coord.z,
                ),
            ),
    {
        let x = local_section_coord.x;
        let y = local_section_coord.y;
        let z = local_section_coord.z;
        let region_section_index: u8 = ((x & 7) << 5) | ((z & 7) << 2) | (y & 3);
        self.section_indices.push(region_section_index);
    }

    /// The region's recorded global coordinates.
    pub fn get_coords(&self) -> (r: (i32, i32, i32))
        ensures
            r == self.spec_coords(),
    {
        self.region_coords
    }

    /// The staged in-region section indices, in first-touch order.
    pub fn get_sections(&self) -> (r: &[u8])
        ensures
            r@ == self.view(),
    {
        self.section_indices.get_slice()
    }

    /// Whether a section has touched this region this frame.
    pub fn is_initialized(&self) -> (r: bool)
        ensures
            r == self.spec_initialized(),
    {
        let (cx, cy, cz) = self.region_coords;
        !(cx == UNDEFINED_REGION_COORD && cy == UNDEFINED_REGION_COORD && cz
            == UNDEFINED_REGION_COORD)
    }

    /// Records the region's global coordinates.
    pub fn initialize(&mut self, region_coords: (i32, i32, i32))
        requires
            old(self).wf(),
        ensures
            final(self).wf(),
            final(self).spec_coords() == region_coords,
            final(self).view() == old(self).view(),
    {
        self.region_coords = region_coords;
    }

    /// Whether no section is staged on this region.
    pub fn is_empty(&self) -> (r: bool)
        ensures
            r == (self.view().len() == 0),
    {
        self.section_indices.is_empty()
    }

    /// Forgets the coordinates and the staged sections.
    pub fn clear(&mut self)
        requires
            old(self).wf(),
        ensures
            final(self).wf(),
            !final(self).spec_initialized(),
            final(self).view() == Seq::<u8>::empty(),
    {
        self.region_coords = (
            UNDEFINED_REGION_COORD,
            UNDEFINED_REGION_COORD,
            UNDEFINED_REGION_COORD,
        );
        self.section_indices.clear();
    }

    /// A copy of this list.
    pub fn duplicate(&self) -> (r: RegionRenderList)
        requires
            self.wf(),
        ensures
            r.wf(),
            r.spec_coords() == self.spec_coords(),
            r.view() == self.view(),
    {
        let mut section_indices: CInlineVec<u8> = CInlineVec::new(SECTIONS_IN_REGION);
        let s = self.section_indices.get_slice();
        let mut k: usize = 0;
        while k < s.len()
            invariant
                k <= s@.len(),
                s@ == self.section_indices.view(),
                self.wf(),
                section_indices.wf(),
                section_indices.spec_capacity() == SECTIONS_IN_REGION,
                section_indices.view() == s@.subrange(0, k as int),
            decreases s@.len() - k,
        {
            let v = s[k];
            section_indices.push(v);
            k = k + 1;
            proof {
                assert(section_indices.view() =~= s@.subrange(0, k as int));
            }
        }
        proof {
            assert(section_indices.view() =~= self.section_indices.view());
        }
        RegionRenderList { region_coords: self.region_coords, section_indices }
    }
}

/// All 65536 region render lists plus the order in which regions were
/// first touched this frame.
pub struct StagingRegionRenderLists {
    ordered_region_indices: CInlineVec<u16>,
    region_render_lists: Vec<RegionRenderList>,
}

impl StagingRegionRenderLists {
    /// The region slots, by index.
    pub closed spec fn spec_lists(self) -> Seq<RegionRenderList> {
        self.region_render_lists@
    }

    /// The first-touch order of region slots.
    pub closed spec fn spec_order(self) -> Seq<u16> {
        self.ordered_region_indices.view()
    }

    pub closed spec fn wf(self) -> bool {
        &&& self.ordered_region_indices.wf()
        &&& self.ordered_region_indices.spec_capacity() == REGIONS_IN_GRAPH
        &&& self.spec_lists().len() == REGIONS_IN_GRAPH
        &&& forall|r: int| 0 <= r < REGIONS_IN_GRAPH ==> (#[trigger] self.spec_lists()[r]).wf()
        &&& self.spec_order().no_duplicates()
        &&& forall|k: int|
            0 <= k < self.spec_order().len() ==> (#[trigger] self.spec_order()[k]) < 0x10000
        &&& forall|r: int|
            0 <= r < REGIONS_IN_GRAPH ==> ((#[trigger] self.spec_lists()[r]).spec_initialized()
                <==> self.spec_order().contains(r as u16))
        &&& forall|r: int|
            0 <= r < REGIONS_IN_GRAPH && !(#[trigger] self.spec_lists()[r]).spec_initialized()
                ==> self.spec_lists()[r].view().len() == 0
    }

    /// A well-formed staging area has one list per region.
    pub proof fn lemma_wf_len(self)
        requires
            self.wf(),
        ensures
            self.spec_lists().len() == REGIONS_IN_GRAPH,
    {
    }

    /// A region with staged sections has been touched and recorded in
    /// the visit order.
    pub proof fn lemma_nonempty_region_ordered(self, r: u16)
        requires
            self.wf(),
            r < 0x10000,
            self.spec_lists()[r as int].view().len() > 0,
        ensures
            self.spec_lists()[r as int].spec_initialized(),
            self.spec_order().contains(r),
    {
        if !self.spec_lists()[r as int].spec_initialized() {
            assert(self.spec_lists()[r as int].view().len() == 0);
        }
    }

    /// Every region untouched and every list empty.
    pub open spec fn spec_clean(self) -> bool {
        &&& self.spec_order().len() == 0
        &&& forall|r: int|
            0 <= r < REGIONS_IN_GRAPH ==> !(#[trigger] self.spec_lists()[r]).spec_initialized()
                && self.spec_lists()[r].view().len() == 0
    }

    /// A staging area with every region untouched.
    pub fn new() -> (r: StagingRegionRenderLists)
        ensures
            r.wf(),
            r.spec_clean(),
    {
        let mut region_render_lists: Vec<RegionRenderList> = Vec::new();
        let mut n: usize = 0;
        while n < REGIONS_IN_GRAPH
            invariant
                n == region_render_lists@.len(),
                n <= REGIONS_IN_GRAPH,
                forall|r: int|
                    0 <= r < n ==> (#[trigger] region_render_lists@[r]).wf()
                        && !region_render_lists@[r].spec_initialized()
                        && region_render_lists@[r].view().len() == 0,
            decreases REGIONS_IN_GRAPH - n,
        {
            region_render_lists.push(RegionRenderList::new());
            n = n + 1;
        }
        StagingRegionRenderLists {
            ordered_region_indices: CInlineVec::new(REGIONS_IN_GRAPH),
            region_render_lists,
        }
    }

    /// Registers the region of the section at `local_section_coord`,
    /// recording `region_coords` and its place in the visit order on
    /// the first touch, and returns its slot.
    pub fn touch_region(
        &mut self,
        region_coords: (i32, i32, i32),
        local_section_coord: LocalNodeCoords,
    ) -> (r: u16)
        requires
            old(self).wf(),
            region_coords != (
                UNDEFINED_REGION_COORD,
                UNDEFINED_REGION_COORD,
                UNDEFINED_REGION_COORD,
            ),
        ensures
            final(self).wf(),
            r == spec_region_index(
                local_section_coord.x,
                local_section_coord.y,
                local_section_coord.z,
            ),
            final(self).spec_lists()[r as int].spec_initialized(),
            old(self).spec_lists()[r as int].spec_initialized() ==> *final(self) == *old(self),
            !old(self).spec_lists()[r as int].spec_initialized() ==> {
                &&& final(self).spec_lists() == old(self).spec_lists().update(
                    r as int,
                    final(self).spec_lists()[r as int],
                )
                &&& final(self).spec_lists()[r as int].spec_coords() == region_coords
                &&& final(self).spec_lists()[r as int].view() == old(self).spec_lists()[
                r as int].view()
                &&& final(self).spec_order() == old(self).spec_order().push(r)
            },
    {
        let x = local_section_coord.x;
        let y = local_section_coord.y;
        let z = local_section_coord.z;
        let local_region_index: u16 = ((((x >> 3) as u16) << 11) | (((y >> 2) as u16) << 5) | ((z
            >> 3) as u16));
        proof {
            lemma_region_index_bound(x, y, z);
        }
        let ri = local_region_index as usize;
        if !self.region_render_lists[ri].is_initialized() {
            proof {
                assert(!self.spec_order().contains(local_region_index));
                let pushed = self.spec_order().push(local_region_index);
                assert(pushed.no_duplicates()) by {
                    assert forall|i: int, j: int|
                        0 <= i < j < pushed.len() implies pushed[i] != pushed[j] by {
                        if j == pushed.len() - 1 {
                            assert(!self.spec_order().contains(pushed[j]));
                        }
                    }
                }
                lemma_no_dup_u16_len(pushed);
                assert(self.spec_order().len() < REGIONS_IN_GRAPH);
            }
            let mut list = RegionRenderList::new();
            let taken = &mut self.region_render_lists[ri];
            proof {
                assert(taken.wf());
            }
            list.initialize(region_coords);
            // keep the staged sections of the untouched slot, which are none
            *taken = list;
            self.ordered_region_indices.push(local_region_index);
            proof {
                assert forall|rr: int|
                    0 <= rr < REGIONS_IN_GRAPH implies ((#[trigger] self.spec_lists()[
                rr]).spec_initialized() <==> self.spec_order().contains(rr as u16)) by {
                    if rr == ri {
                        assert(self.spec_order()[self.spec_order().len() - 1] == local_region_index);
                    } else {
                        assert(self.spec_lists()[rr] == old(self).spec_lists()[rr]);
                        if old(self).spec_order().contains(rr as u16) {
                            let k = choose|k: int|
                                0 <= k < old(self).spec_order().len() && old(self).spec_order()[k]
                                    == rr as u16;
                            assert(self.spec_order()[k] == rr as u16);
                        }
                        if self.spec_order().contains(rr as u16) {
                            let k = choose|k: int|
                                0 <= k < self.spec_order().len() && self.spec_order()[k]
                                    == rr as u16;
                            assert(k < old(self).spec_order().len());
                            assert(old(self).spec_order()[k] == rr as u16);
                        }
                    }
                }
            }
        }
        local_region_index
    }

    /// Stages the section at `local_section_coord` on its region's
    /// list, whose slot is `region`.
    pub fn add_section(&mut self, region: u16, local_section_coord: LocalNodeCoords)
        requires
            old(self).wf(),
            region == spec_region_index(
                local_section_coord.x,
                local_section_coord.y,
                local_section_coord.z,
            ),
            old(self).spec_lists()[region as int].spec_initialized(),
            old(self).spec_lists()[region as int].view().len() < SECTIONS_IN_REGION,
        ensures
            final(self).wf(),
            final(self).spec_order() == old(self).spec_order(),
            final(self).spec_lists() == old(self).spec_lists().update(
                region as int,
                final(self).spec_lists()[region as int],
            ),
            final(self).spec_lists()[region as int].spec_coords() == old(self).spec_lists()[
            region as int].spec_coords(),
            final(self).spec_lists()[region as int].spec_initialized(),
            final(self).spec_lists()[region as int].view() == old(self).spec_lists()[
            region as int].view().push(
                spec_section_index(
                    local_section_coord.x,
                    local_section_coord.y,
                    local_section_coord.z,
                ),
            ),
    {
        proof {
            lemma_region_index_bound(
                local_section_coord.x,
                local_section_coord.y,
                local_section_coord.z,
            );
        }
        let ri = region as usize;
        let taken = &mut self.region_render_lists[ri];
        taken.add_section(local_section_coord);
        proof {
            assert forall|rr: int|
                0 <= rr < REGIONS_IN_GRAPH implies ((#[trigger] self.spec_lists()[
            rr]).spec_initialized() <==> self.spec_order().contains(rr as u16)) by {
                if rr != ri {
                    assert(self.spec_lists()[rr] == old(self).spec_lists()[rr]);
                }
            }
        }
    }

    /// How `results` entries relate to the staging state: each entry
    /// copies the list of a distinct touched region with staged
    /// sections, in first-touch order, and `src` names those regions.
    pub open spec fn spec_compiled_from(self, entries: Seq<RegionRenderList>, src: Seq<u16>) -> bool {
        &&& src.len() == entries.len()
        &&& src.no_duplicates()
        &&& forall|i: int|
            0 <= i < src.len() ==> ({
                let r = #[trigger] src[i];
                &&& r < 0x10000
                &&& self.spec_order().contains(r)
                &&& self.spec_lists()[r as int].spec_initialized()
                &&& entries[i].spec_coords() == self.spec_lists()[r as int].spec_coords()
                &&& entries[i].view() == self.spec_lists()[r as int].view()
                &&& entries[i].view().len() > 0
            })
        &&& forall|k: int|
            #![trigger self.spec_order()[k]]
            0 <= k < self.spec_order().len() && self.spec_lists()[self.spec_order()[
            k] as int].view().len() > 0 ==> src.contains(self.spec_order()[k])
    }

    /// Copies every region with staged sections, in first-touch order,
    /// into `results`.
    #[verifier::rlimit(100)]
    #[verifier::spinoff_prover]
    pub fn compile_render_lists(&self, results: &mut CInlineVec<RegionRenderList>)
        requires
            self.wf(),
            old(results).wf(),
            old(results).view().len() == 0,
            old(results).spec_capacity() == REGIONS_IN_GRAPH,
        ensures
            final(results).wf(),
            final(results).spec_capacity() == REGIONS_IN_GRAPH,
            forall|i: int|
                0 <= i < final(results).view().len() ==> (#[trigger] final(results).view()[
                i]).wf(),
            exists|src: Seq<u16>| #[trigger] self.spec_compiled_from(final(results).view(), src),
    {
        let order = self.ordered_region_indices.get_slice();
        let ghost mut sources: Seq<u16> = Seq::empty();
        let mut k: usize = 0;
        while k < order.len()
            invariant
                self.wf(),
                k <= order@.len(),
                order@ == self.spec_order(),
                results.wf(),
                results.spec_capacity() == REGIONS_IN_GRAPH,
                sources.len() == results.view().len(),
                sources.no_duplicates(),
                forall|kk: int|
                    #![trigger self.spec_order()[kk]]
                    0 <= kk < k && self.spec_lists()[self.spec_order()[kk] as int].view().len() > 0
                        ==> sources.contains(self.spec_order()[kk]),
                forall|i: int|
                    0 <= i < results.view().len() ==> (#[trigger] results.view()[i]).wf(),
                forall|i: int|
                    0 <= i < sources.len() ==> ({
                        let r = #[trigger] sources[i];
                        &&& r < 0x10000
                        &&& self.spec_order().subrange(0, k as int).contains(r)
                        &&& self.spec_lists()[r as int].spec_initialized()
                        &&& results.view()[i].spec_coords() == self.spec_lists()[
                        r as int].spec_coords()
                        &&& results.view()[i].view() == self.spec_lists()[r as int].view()
                        &&& results.view()[i].view().len() > 0
                    }),
            decreases order@.len() - k,
        {
            let ri = order[k];
            proof {
                assert(self.spec_order()[k as int] == ri);
                assert(self.spec_order().contains(ri));
                assert(ri < 0x10000);
            }
            let list = &self.region_render_lists[ri as usize];
            if !list.is_empty() {
                proof {
                    let prefix = self.spec_order().subrange(0, k as int);
                    subrange_no_dup_len(sources, prefix);
                    assert(results.view().len() < REGIONS_IN_GRAPH);
                    assert(self.spec_lists()[ri as int].spec_initialized()) by {
                        assert(self.spec_lists()[ri as int].view().len() > 0);
                        if !self.spec_lists()[ri as int].spec_initialized() {
                            assert(self.spec_lists()[ri as int].view().len() == 0);
                        }
                    }
                    assert(!sources.contains(ri)) by {
                        if sources.contains(ri) {
                            let i = choose|i: int| 0 <= i < sources.len() && sources[i] == ri;
                            let j = choose|j: int| 0 <= j < k && prefix[j] == ri;
                            assert(self.spec_order()[j] == ri);
                        }
                    }
                }
                let copy = list.duplicate();
                results.push(copy);
                proof {
                    let old_sources = sources;
                    sources = sources.push(ri);
                    assert forall|kk: int|
                        #![trigger self.spec_order()[kk]]
                        0 <= kk < k + 1 && self.spec_lists()[self.spec_order()[kk] as int].view().len()
                            > 0 implies sources.contains(self.spec_order()[kk]) by {
                        if kk == k {
                            assert(sources[sources.len() - 1] == ri);
                        } else {
                            assert(old_sources.contains(self.spec_order()[kk]));
                            let i = choose|i: int|
                                0 <= i < old_sources.len() && old_sources[i] == self.spec_order()[
                                kk];
                            assert(sources[i] == self.spec_order()[kk]);
                        }
                    }
                }
            } else {
                proof {
                    assert(self.spec_lists()[ri as int].view().len() == 0);
                }
            }
            k = k + 1;
            proof {
                let prev = self.spec_order().subrange(0, k as int - 1);
                let cur = self.spec_order().subrange(0, k as int);
                assert forall|i: int| 0 <= i < sources.len() implies ({
                    let r = #[trigger] sources[i];
                    cur.contains(r)
                }) by {
                    let r = sources[i];
                    if prev.contains(r) {
                        let j = choose|j: int| 0 <= j < prev.len() && prev[j] == r;
                        assert(cur[j] == r);
                    } else {
                        assert(r == self.spec_order()[k - 1]);
                        assert(cur[k - 1] == r);
                    }
                }
            }
        }
        proof {
            assert forall|i: int| 0 <= i < sources.len() implies ({
                let r = #[trigger] sources[i];
                self.spec_order().contains(r)
            }) by {
                let r = sources[i];
                assert(self.spec_order().subrange(0, order@.len() as int) =~= self.spec_order());
            }
            assert(self.spec_compiled_from(results.view(), sources));
        }
    }

    /// Clears every touched region and forgets the visit order.
    pub fn clear(&mut self)
        requires
            old(self).wf(),
        ensures
            final(self).wf(),
            final(self).spec_clean(),
    {
        self.ordered_region_indices.clear();
        let mut n: usize = 0;
        while n < REGIONS_IN_GRAPH
            invariant
                self.ordered_region_indices.wf(),
                self.ordered_region_indices.spec_capacity() == REGIONS_IN_GRAPH,
                self.spec_lists().len() == REGIONS_IN_GRAPH,
                self.spec_order().len() == 0,
                n <= REGIONS_IN_GRAPH,
                forall|r: int| 0 <= r < REGIONS_IN_GRAPH ==> (#[trigger] self.spec_lists()[r]).wf(),
                forall|r: int|
                    0 <= r < n ==> !(#[trigger] self.spec_lists()[r]).spec_initialized()
                        && self.spec_lists()[r].view().len() == 0,
            decreases REGIONS_IN_GRAPH - n,
        {
            let taken = &mut self.region_render_lists[n];
            taken.clear();
            n = n + 1;
        }
    }
}

/// A duplicate-free sequence whose elements all occur in another
/// duplicate-free sequence is no longer than it.
proof fn subrange_no_dup_len(a: Seq<u16>, b: Seq<u16>)
    requires
        a.no_duplicates(),
        forall|i: int| 0 <= i < a.len() ==> b.contains(#[trigger] a[i]),
    ensures
        a.len() <= b.len(),
{
    broadcast use vstd::seq_lib::group_seq_properties;
    broadcast use vstd::set_lib::group_set_lib_default;
    broadcast use vstd::set::group_set_axioms;

    a.unique_seq_to_set();
    assert(a.to_set().subset_of(b.to_set())) by {
        assert forall|x: u16| a.to_set().contains(x) implies b.to_set().contains(x) by {
            let i = choose|i: int| 0 <= i < a.len() && a[i] == x;
            assert(b.contains(x));
        }
    }
    b.lemma_cardinality_of_set();
    vstd::set_lib::lemma_len_subset(a.to_set(), b.to_set());
}

} // verus!
