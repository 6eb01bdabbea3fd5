//! Local node coordinates and the 24-bit Morton index over the
//! 256x256x256 section window.
//!
//! A level-L node is an axis-aligned cube of 2^L sections.  Its index
//! interleaves the bits of the coordinates of its anchor section as
//! `X7 Y7 Z7 X6 Y6 Z6 ... X0 Y0 Z0`, so bit `3*i + 2` belongs to the x
//! coordinate, bit `3*i + 1` to y, and bit `3*i` to z.

use vstd::prelude::*;

use crate::direction::GraphDirection;

verus! {

/// Bits of the Morton index belonging to the x coordinate.
pub const MORTON_X_MASK: u32 = 0x924924;

/// Bits of the Morton index belonging to the y coordinate.
pub const MORTON_Y_MASK: u32 = 0x492492;

/// Bits of the Morton index belonging to the z coordinate.
pub const MORTON_Z_MASK: u32 = 0x249249;

/// The byte `b` with each bit moved to three times its position:
/// bit `i` of `b` lands on bit `3*i` of the result.
pub open spec fn spec_spread(b: u8) -> u32 {
    (((b as u32) & 1) << 0) | ((((b as u32) >> 1) & 1) << 3) | ((((b as u32) >> 2) & 1) << 6) | ((((
    b as u32) >> 3) & 1) << 9) | ((((b as u32) >> 4) & 1) << 12) | ((((b as u32) >> 5) & 1) << 15)
        | ((((b as u32) >> 6) & 1) << 18) | ((((b as u32) >> 7) & 1) << 21)
}

/// The inverse of `spec_spread`: gathers every third bit of `w`,
/// starting at bit 0.
pub open spec fn spec_gather(w: u32) -> u8 {
    ((w & 1) | (((w >> 3) & 1) << 1) | (((w >> 6) & 1) << 2) | (((w >> 9) & 1) << 3) | (((w >> 12)
        & 1) << 4) | (((w >> 15) & 1) << 5) | (((w >> 18) & 1) << 6) | (((w >> 21) & 1) << 7)) as u8
}

/// The 24-bit Morton interleaving of section coordinates (x, y, z).
pub open spec fn spec_morton(x: u8, y: u8, z: u8) -> u32 {
    (spec_spread(x) << 2) | (spec_spread(y) << 1) | spec_spread(z)
}

/// The x coordinate stored in Morton index `i`.
pub open spec fn spec_x(i: u32) -> u8 {
    spec_gather(i >> 2)
}

/// The y coordinate stored in Morton index `i`.
pub open spec fn spec_y(i: u32) -> u8 {
    spec_gather(i >> 1)
}

/// The z coordinate stored in Morton index `i`.
pub open spec fn spec_z(i: u32) -> u8 {
    spec_gather(i)
}

/// A coordinate moved up by `2^level`, wrapping at 256.
pub open spec fn spec_wrap_inc(c: u8, level: u8) -> u8 {
    ((c + (1u8 << level)) % 256) as u8
}

/// A coordinate moved down by `2^level`, wrapping at 256.
pub open spec fn spec_wrap_dec(c: u8, level: u8) -> u8 {
    ((c + 256 - (1u8 << level)) % 256) as u8
}

/// The index one level-`level` step along +x from `i`.
pub open spec fn spec_inc_x(i: u32, level: u8) -> u32 {
    spec_morton(spec_wrap_inc(spec_x(i), level), spec_y(i), spec_z(i))
}

/// The index one level-`level` step along +y from `i`.
pub open spec fn spec_inc_y(i: u32, level: u8) -> u32 {
    spec_morton(spec_x(i), spec_wrap_inc(spec_y(i), level), spec_z(i))
}

/// The index one level-`level` step along +z from `i`.
pub open spec fn spec_inc_z(i: u32, level: u8) -> u32 {
    spec_morton(spec_x(i), spec_y(i), spec_wrap_inc(spec_z(i), level))
}

/// The index one level-`level` step along -x from `i`.
pub open spec fn spec_dec_x(i: u32, level: u8) -> u32 {
    spec_morton(spec_wrap_dec(spec_x(i), level), spec_y(i), spec_z(i))
}

/// The index one level-`level` step along -y from `i`.
pub open spec fn spec_dec_y(i: u32, level: u8) -> u32 {
    spec_morton(spec_x(i), spec_wrap_dec(spec_y(i), level), spec_z(i))
}

/// The index one level-`level` step along -z from `i`.
pub open spec fn spec_dec_z(i: u32, level: u8) -> u32 {
    spec_morton(spec_x(i), spec_y(i), spec_wrap_dec(spec_z(i), level))
}

/// Packing coordinates always yields a 24-bit index, and unpacking it
/// returns the coordinates unchanged.
pub proof fn lemma_pack_unpack(x: u8, y: u8, z: u8)
    by (bit_vector)
    ensures
        spec_morton(x, y, z) < 0x1000000,
        spec_x(spec_morton(x, y, z)) == x,
        spec_y(spec_morton(x, y, z)) == y,
        spec_z(spec_morton(x, y, z)) == z,
{
}

/// Packing the coordinates stored in a 24-bit index restores the index:
/// together with `lemma_pack_unpack`, packing is a bijection between
/// coordinate triples and 24-bit indices.
pub proof fn lemma_unpack_pack(i: u32)
    by (bit_vector)
    requires
        i < 0x1000000,
    ensures
        spec_morton(spec_x(i), spec_y(i), spec_z(i)) == i,
{
}

/// Stepping a coordinate up and then down by the same amount (or down
/// and then up) restores it.
pub proof fn lemma_wrap_inc_dec(c: u8, level: u8)
    by (bit_vector)
    requires
        level <= 3,
    ensures
        spec_wrap_dec(spec_wrap_inc(c, level), level) == c,
        spec_wrap_inc(spec_wrap_dec(c, level), level) == c,
{
}

/// Every index is aligned at level zero.
pub proof fn lemma_aligned_level0(i: u32)
    by (bit_vector)
    ensures
        i & (((1u32 << (3 * 0)) - 1) as u32) == 0,
{
}

/// Section coordinates of a node in the 256-section window.  At level
/// L the unit of each coordinate is 2^L sections.
#[derive(Clone, Copy, PartialEq, Eq, Structural, Debug)]
pub struct LocalNodeCoords {
    pub x: u8,
    pub y: u8,
    pub z: u8,
}

impl LocalNodeCoords {
    pub fn from_xyz(x: u8, y: u8, z: u8) -> (r: LocalNodeCoords)
        ensures
            r == (LocalNodeCoords { x, y, z }),
    {
        LocalNodeCoords { x, y, z }
    }

    pub fn into_tuple(self) -> (r: (u8, u8, u8))
        ensures
            r == (self.x, self.y, self.z),
    {
        (self.x, self.y, self.z)
    }

    /// Re-expresses the coordinates, given in units of `2^from_level`
    /// sections, in units of `2^to_level` sections.  Scaling up keeps
    /// only the bits that fit in a byte, as the window wraps at 256.
    pub fn into_level(self, from_level: u8, to_level: u8) -> (r: LocalNodeCoords)
        requires
            from_level <= 7,
            to_level <= 7,
        ensures
            to_level >= from_level ==> r == (LocalNodeCoords {
                x: self.x >> (to_level - from_level),
                y: self.y >> (to_level - from_level),
                z: self.z >> (to_level - from_level),
            }),
            to_level < from_level ==> r == (LocalNodeCoords {
                x: (self.x << (from_level - to_level)) as u8,
                y: (self.y << (from_level - to_level)) as u8,
                z: (self.z << (from_level - to_level)) as u8,
            }),
    {
        if to_level >= from_level {
            let s = to_level - from_level;
            LocalNodeCoords { x: self.x >> s, y: self.y >> s, z: self.z >> s }
        } else {
            let s = from_level - to_level;
            LocalNodeCoords {
                x: self.x << s,
                y: self.y << s,
                z: self.z << s,
            }
        }
    }

    /// Edge length of a level-`level` node, in sections.
    pub fn length(level: u8) -> (r: u8)
        requires
            level <= 7,
        ensures
            r == (1u8 << level),
    {
        1u8 << level
    }

    /// Number of sections in a level-`level` node.
    pub fn size(level: u8) -> (r: u32)
        requires
            level <= 7,
        ensures
            r == (1u32 << (3 * level)),
    {
        1u32 << (3 * level)
    }
}

/// A 24-bit Morton index of a node in the window.  At level L the low
/// `3*L` bits are zero for an aligned node; the same representation
/// addresses the anchor section at level 0.
#[derive(Clone, Copy, PartialEq, Eq, Structural, Debug)]
pub struct LocalNodeIndex {
    idx: u32,
}

/// The three bit-separation stages of `spread_bits` compute
/// `spec_spread`.
proof fn lemma_spread_stages(v: u8)
    by (bit_vector)
    ensures
        ({
            let w0 = v as u32;
            let w1 = (w0 | (w0 << 8)) & 0xF00F;
            let w2 = (w1 | (w1 << 4)) & 0xC30C3;
            let w3 = (w2 | (w2 << 2)) & 0x249249;
            w3 == spec_spread(v)
        }),
{
}

/// The three bit-merging stages of `gather_bits` compute `spec_gather`.
proof fn lemma_gather_stages(w: u32)
    by (bit_vector)
    ensures
        ({
            let c0 = w & 0x249249;
            let c1 = (c0 | (c0 >> 2)) & 0xC30C3;
            let c2 = (c1 | (c1 >> 4)) & 0xF00F;
            let c3 = (c2 | (c2 >> 8)) & 0xFF;
            c3 == spec_gather(w) && c3 < 0x100
        }),
{
}

/// Moves every bit of the byte `v` to three times its position.
fn spread_bits(v: u8) -> (r: u32)
    ensures
        r == spec_spread(v),
{
    proof {
        lemma_spread_stages(v);
    }
    let mut w: u32 = v as u32;
    w = (w | (w << 8)) & 0xF00F;
    w = (w | (w << 4)) & 0xC30C3;
    w = (w | (w << 2)) & 0x249249;
    w
}

/// Gathers every third bit of `w`, starting at bit 0, into a byte.
fn gather_bits(w: u32) -> (r: u8)
    ensures
        r == spec_gather(w),
{
    proof {
        lemma_gather_stages(w);
    }
    let mut c: u32 = w & 0x249249;
    c = (c | (c >> 2)) & 0xC30C3;
    c = (c | (c >> 4)) & 0xF00F;
    c = (c | (c >> 8)) & 0xFF;
    #[verifier::truncate] (c as u8)
}

impl LocalNodeIndex {
    /// The raw 24-bit index value.
    pub closed spec fn spec_idx(self) -> u32 {
        self.idx
    }

    /// The high eight bits are always zero.
    pub open spec fn wf(self) -> bool {
        self.spec_idx() < 0x1000000
    }

    /// The node is aligned to its level: the low `3*level` bits are zero.
    pub open spec fn is_aligned(self, level: u8) -> bool {
        self.spec_idx() & (((1u32 << (3 * level)) - 1) as u32) == 0
    }

    /// Interleaves node coordinates, given in units of `2^level`
    /// sections, into the Morton index of the node's anchor section.
    pub fn pack(unpacked: LocalNodeCoords, level: u8) -> (r: LocalNodeIndex)
        requires
            level <= 7,
        ensures
            r.wf(),
            r.spec_idx() == spec_morton(
                (unpacked.x << level) as u8,
                (unpacked.y << level) as u8,
                (unpacked.z << level) as u8,
            ),
    {
        let sx: u8 = unpacked.x << level;
        let sy: u8 = unpacked.y << level;
        let sz: u8 = unpacked.z << level;
        let r = LocalNodeIndex { idx: (spread_bits(sx) << 2) | (spread_bits(sy) << 1) | spread_bits(
            sz,
        ) };
        proof {
            lemma_pack_unpack(sx, sy, sz);
        }
        r
    }

    /// The coordinates of the node's anchor section, in sections.
    pub fn unpack_section(&self) -> (r: LocalNodeCoords)
        ensures
            r == (LocalNodeCoords {
                x: spec_x(self.spec_idx()),
                y: spec_y(self.spec_idx()),
                z: spec_z(self.spec_idx()),
            }),
    {
        LocalNodeCoords {
            x: gather_bits(self.idx >> 2),
            y: gather_bits(self.idx >> 1),
            z: gather_bits(self.idx),
        }
    }

    /// The node's coordinates in units of `2^level` sections.
    pub fn unpack(&self, level: u8) -> (r: LocalNodeCoords)
        requires
            level <= 7,
        ensures
            r == (LocalNodeCoords {
                x: spec_x(self.spec_idx()) >> level,
                y: spec_y(self.spec_idx()) >> level,
                z: spec_z(self.spec_idx()) >> level,
            }),
    {
        self.unpack_section().into_level(0, level)
    }

    /// Steps the index by one level-`level` unit along the axis of
    /// `mask`, adding when `positive` and subtracting otherwise.  Only
    /// the bits of that axis take part in the carry, so the coordinate
    /// wraps inside the window and the other two are untouched.
    fn step(self, mask: u32, positive: bool, level: u8) -> (r: LocalNodeIndex)
        requires
            self.wf(),
            level <= 3,
            mask == MORTON_X_MASK || mask == MORTON_Y_MASK || mask == MORTON_Z_MASK,
        ensures
            r.wf(),
            mask == MORTON_X_MASK && positive ==> r.spec_idx() == spec_inc_x(
                self.spec_idx(),
                level,
            ),
            mask == MORTON_Y_MASK && positive ==> r.spec_idx() == spec_inc_y(
                self.spec_idx(),
                level,
            ),
            mask == MORTON_Z_MASK && positive ==> r.spec_idx() == spec_inc_z(
                self.spec_idx(),
                level,
            ),
            mask == MORTON_X_MASK && !positive ==> r.spec_idx() == spec_dec_x(
                self.spec_idx(),
                level,
            ),
            mask == MORTON_Y_MASK && !positive ==> r.spec_idx() == spec_dec_y(
                self.spec_idx(),
                level,
            ),
            mask == MORTON_Z_MASK && !positive ==> r.spec_idx() == spec_dec_z(
                self.spec_idx(),
                level,
            ),
    {
        let axis_one: u32 = mask & 0b111;
        proof {
            assert(level <= 3 ==> ((mask & 0b111) as u64) << (3 * level) < 0x100000000)
                by (bit_vector);
        }
        let addend: u64 = (axis_one as u64) << (3 * level);
        let out: u32;
        if positive {
            // make the other bits one so the carry passes through them
            let masked: u64 = ((self.idx | !mask) as u64) + addend;
            out = (self.idx & !mask) | ((#[verifier::truncate] (masked as u32)) & mask);
        } else {
            // make the other bits zero so the borrow passes through them
            let masked: u64 = (((self.idx & mask) as u64) + 0x100000000) - addend;
            out = (self.idx & !mask) | ((#[verifier::truncate] (masked as u32)) & mask);
        }
        let r = LocalNodeIndex { idx: out };
        proof {
            let i = self.idx;
            assert((i < 0x1000000 && level <= 3 && (mask == 0x924924 || mask == 0x492492 || mask
                == 0x249249)) ==> {
                let a = (((mask & 0b111) as u64) << (3 * level));
                let up = (i & !mask) | ((((i | !mask) as u64 + a) as u32) & mask);
                let dn = (i & !mask) | ((((i & mask) as u64 + 0x100000000 - a) as u32) & mask);
                &&& up < 0x1000000
                &&& dn < 0x1000000
                &&& (mask == 0x924924 ==> spec_x(up) == spec_wrap_inc(spec_x(i), level) && spec_y(
                    up,
                ) == spec_y(i) && spec_z(up) == spec_z(i) && spec_x(dn) == spec_wrap_dec(
                    spec_x(i),
                    level,
                ) && spec_y(dn) == spec_y(i) && spec_z(dn) == spec_z(i))
                &&& (mask == 0x492492 ==> spec_y(up) == spec_wrap_inc(spec_y(i), level) && spec_x(
                    up,
                ) == spec_x(i) && spec_z(up) == spec_z(i) && spec_y(dn) == spec_wrap_dec(
                    spec_y(i),
                    level,
                ) && spec_x(dn) == spec_x(i) && spec_z(dn) == spec_z(i))
                &&& (mask == 0x249249 ==> spec_z(up) == spec_wrap_inc(spec_z(i), level) && spec_x(
                    up,
                ) == spec_x(i) && spec_y(up) == spec_y(i) && spec_z(dn) == spec_wrap_dec(
                    spec_z(i),
                    level,
                ) && spec_x(dn) == spec_x(i) && spec_y(dn) == spec_y(i))
            }) by (bit_vector);
            lemma_unpack_pack(r.idx);
        }
        r
    }

    /// One level-`level` step along +x.
    pub fn inc_x(self, level: u8) -> (r: LocalNodeIndex)
        requires
            self.wf(),
            level <= 3,
        ensures
            r.wf(),
            r.spec_idx() == spec_inc_x(self.spec_idx(), level),
    {
        self.step(MORTON_X_MASK, true, level)
    }

    /// One level-`level` step along +y.
    pub fn inc_y(self, level: u8) -> (r: LocalNodeIndex)
        requires
            self.wf(),
            level <= 3,
        ensures
            r.wf(),
            r.spec_idx() == spec_inc_y(self.spec_idx(), level),
    {
        self.step(MORTON_Y_MASK, true, level)
    }

    /// One level-`level` step along +z.
    pub fn inc_z(self, level: u8) -> (r: LocalNodeIndex)
        requires
            self.wf(),
            level <= 3,
        ensures
            r.wf(),
            r.spec_idx() == spec_inc_z(self.spec_idx(), level),
    {
        self.step(MORTON_Z_MASK, true, level)
    }

    /// One level-`level` step along -x.
    pub fn dec_x(self, level: u8) -> (r: LocalNodeIndex)
        requires
            self.wf(),
            level <= 3,
        ensures
            r.wf(),
            r.spec_idx() == spec_dec_x(self.spec_idx(), level),
    {
        self.step(MORTON_X_MASK, false, level)
    }

    /// One level-`level` step along -y.
    pub fn dec_y(self, level: u8) -> (r: LocalNodeIndex)
        requires
            self.wf(),
            level <= 3,
        ensures
            r.wf(),
            r.spec_idx() == spec_dec_y(self.spec_idx(), level),
    {
        self.step(MORTON_Y_MASK, false, level)
    }

    /// One level-`level` step along -z.
    pub fn dec_z(self, level: u8) -> (r: LocalNodeIndex)
        requires
            self.wf(),
            level <= 3,
        ensures
            r.wf(),
            r.spec_idx() == spec_dec_z(self.spec_idx(), level),
    {
        self.step(MORTON_Z_MASK, false, level)
    }

    /// The index as an offset into the window-sized arrays.
    pub fn as_array_index(&self) -> (r: usize)
        ensures
            r == self.spec_idx(),
            self.wf() ==> r < 0x1000000,
    {
        self.idx as usize
    }

    /// All six level-`level` neighbors of this node.
    pub fn get_all_neighbors(&self, level: u8) -> (r: NeighborNodes)
        requires
            self.wf(),
            level <= 3,
        ensures
            forall|d: GraphDirection| (#[trigger] r.spec_get(d)).spec_idx() == self.spec_neighbor(
                d,
                level,
            ),
            forall|d: GraphDirection| (#[trigger] r.spec_get(d)).wf(),
    {
        NeighborNodes {
            neg_x: self.dec_x(level),
            neg_y: self.dec_y(level),
            neg_z: self.dec_z(level),
            pos_x: self.inc_x(level),
            pos_y: self.inc_y(level),
            pos_z: self.inc_z(level),
        }
    }

    /// The index one level-`level` step along `d`.
    pub open spec fn spec_neighbor(self, d: GraphDirection, level: u8) -> u32 {
        match d {
            GraphDirection::NegX => spec_dec_x(self.spec_idx(), level),
            GraphDirection::NegY => spec_dec_y(self.spec_idx(), level),
            GraphDirection::NegZ => spec_dec_z(self.spec_idx(), level),
            GraphDirection::PosX => spec_inc_x(self.spec_idx(), level),
            GraphDirection::PosY => spec_inc_y(self.spec_idx(), level),
            GraphDirection::PosZ => spec_inc_z(self.spec_idx(), level),
        }
    }

    /// An iterator over the eight level-`(level - 1)` children of this
    /// level-`level` node.
    pub fn iter_lower_nodes(&self, level: u8) -> (r: LowerNodeIter)
        requires
            self.wf(),
            1 <= level <= 3,
            self.is_aligned(level),
        ensures
            r.wf(),
            r.spec_current() == self.spec_idx(),
            r.spec_level() == level - 1,
            r.spec_remaining() == 8,
    {
        proof {
            let i = self.idx;
            let l = level;
            assert((i < 0x1000000 && 1 <= l <= 3 && i & (((1u32 << (3 * l)) - 1) as u32) == 0) ==> i
                & (((1u32 << (3 * ((l - 1) as u8))) - 1) as u32) == 0 && i + 8 * (1u32 << (3 * ((l
                - 1) as u8))) <= 0x1000000) by (bit_vector);
        }
        LowerNodeIter { current: self.idx, level: level - 1, remaining: 8 }
    }

    /// The child of this node whose offset in Morton order is `k`.
    pub fn lower_node(&self, level: u8, k: u32) -> (r: LocalNodeIndex)
        requires
            self.wf(),
            1 <= level <= 3,
            self.is_aligned(level),
            k < 8,
        ensures
            r.wf(),
            r.is_aligned((level - 1) as u8),
            r.spec_idx() == self.spec_idx() + k * (1u32 << (3 * (level - 1))),
    {
        proof {
            let i = self.idx;
            let l = level;
            let k0 = k;
            assert((i < 0x1000000 && 1 <= l <= 3 && k0 < 8 && i & (((1u32 << (3 * l)) - 1) as u32) == 0)
                ==> {
                let sz = 1u32 << ((3 * (l - 1)) as u32);
                &&& i + k0 * sz < 0x1000000
                &&& ((i + k0 * sz) as u32) & ((sz - 1) as u32) == 0
                &&& 3 * (l - 1) == (3 * l - 3)
            }) by (bit_vector);
        }
        LocalNodeIndex { idx: self.idx + k * (1u32 << (3 * (level - 1))) }
    }
}

/// Walks the eight children of a node in Morton order.
pub struct LowerNodeIter {
    current: u32,
    level: u8,
    remaining: u8,
}

impl LowerNodeIter {
    pub closed spec fn spec_current(self) -> u32 {
        self.current
    }

    pub closed spec fn spec_level(self) -> u8 {
        self.level
    }

    pub closed spec fn spec_remaining(self) -> u8 {
        self.remaining
    }

    pub closed spec fn wf(self) -> bool {
        &&& self.level <= 2
        &&& self.remaining <= 8
        &&& self.current + self.remaining * (1u32 << (3 * self.level)) <= 0x1000000
    }

    /// The next child index, or `None` after all eight.
    pub fn next(&mut self) -> (r: Option<LocalNodeIndex>)
        requires
            old(self).wf(),
        ensures
            final(self).wf(),
            final(self).spec_level() == old(self).spec_level(),
            r is Some <==> old(self).spec_remaining() > 0,
            r is Some ==> {
                &&& r->0.wf()
                &&& r->0.spec_idx() == old(self).spec_current()
                &&& final(self).spec_current() == old(self).spec_current() + (1u32 << (3 * old(
                    self,
                ).spec_level()))
                &&& final(self).spec_remaining() == old(self).spec_remaining() - 1
            },
            r is None ==> *final(self) == *old(self),
    {
        if self.remaining == 0 {
            None
        } else {
            let current = self.current;
            proof {
                let c = self.current;
                let l = self.level;
                let rem = self.remaining;
                assert((l <= 2 && rem >= 1 && rem <= 8 && c + rem * (1u32 << (3 * l)) <= 0x1000000)
                    ==> c + (1u32 << (3 * l)) + (rem - 1) * (1u32 << (3 * l)) <= 0x1000000 && c
                    < 0x1000000) by (bit_vector);
            }
            self.current = self.current + (1u32 << (3 * self.level));
            self.remaining = self.remaining - 1;
            Some(LocalNodeIndex { idx: current })
        }
    }
}

/// The six neighbors of a node, one per direction.
pub struct NeighborNodes {
    neg_x: LocalNodeIndex,
    neg_y: LocalNodeIndex,
    neg_z: LocalNodeIndex,
    pos_x: LocalNodeIndex,
    pos_y: LocalNodeIndex,
    pos_z: LocalNodeIndex,
}

impl NeighborNodes {
    pub closed spec fn spec_get(self, direction: GraphDirection) -> LocalNodeIndex {
        match direction {
            GraphDirection::NegX => self.neg_x,
            GraphDirection::NegY => self.neg_y,
            GraphDirection::NegZ => self.neg_z,
            GraphDirection::PosX => self.pos_x,
            GraphDirection::PosY => self.pos_y,
            GraphDirection::PosZ => self.pos_z,
        }
    }

    /// The neighbor along `direction`.
    pub fn get(&self, direction: GraphDirection) -> (r: LocalNodeIndex)
        ensures
            r == self.spec_get(direction),
    {
        match direction {
            GraphDirection::NegX => self.neg_x,
            GraphDirection::NegY => self.neg_y,
            GraphDirection::NegZ => self.neg_z,
            GraphDirection::PosX => self.pos_x,
            GraphDirection::PosY => self.pos_y,
            GraphDirection::PosZ => self.pos_z,
        }
    }
}

/// Stepping a node index along an axis and then back restores it, in
/// both orders, on every axis and at every level.
pub proof fn lemma_step_roundtrip(i: u32, level: u8)
    requires
        i < 0x1000000,
        level <= 3,
    ensures
        spec_dec_x(spec_inc_x(i, level), level) == i,
        spec_inc_x(spec_dec_x(i, level), level) == i,
        spec_dec_y(spec_inc_y(i, level), level) == i,
        spec_inc_y(spec_dec_y(i, level), level) == i,
        spec_dec_z(spec_inc_z(i, level), level) == i,
        spec_inc_z(spec_dec_z(i, level), level) == i,
{
    let x = spec_x(i);
    let y = spec_y(i);
    let z = spec_z(i);
    lemma_wrap_inc_dec(x, level);
    lemma_wrap_inc_dec(y, level);
    lemma_wrap_inc_dec(z, level);
    lemma_wrap_inc_dec(spec_wrap_inc(x, level), level);
    lemma_wrap_inc_dec(spec_wrap_inc(y, level), level);
    lemma_wrap_inc_dec(spec_wrap_inc(z, level), level);
    lemma_wrap_inc_dec(spec_wrap_dec(x, level), level);
    lemma_wrap_inc_dec(spec_wrap_dec(y, level), level);
    lemma_wrap_inc_dec(spec_wrap_dec(z, level), level);
    lemma_pack_unpack(spec_wrap_inc(x, level), y, z);
    lemma_pack_unpack(spec_wrap_dec(x, level), y, z);
    lemma_pack_unpack(x, spec_wrap_inc(y, level), z);
    lemma_pack_unpack(x, spec_wrap_dec(y, level), z);
    lemma_pack_unpack(x, y, spec_wrap_inc(z, level));
    lemma_pack_unpack(x, y, spec_wrap_dec(z, level));
    lemma_unpack_pack(i);
}

} // verus!
