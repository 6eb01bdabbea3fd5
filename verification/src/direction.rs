//! The six axis-aligned face directions and sets of them.

use vstd::prelude::*;

verus! {

/// Facts about single-bit reads of the bitwise operations used by
/// `GraphDirectionSet`, all over six-bit masks in a byte.
pub(crate) proof fn lemma_mask_bits()
    by (bit_vector)
    ensures
        forall|a: u8, b: u8, i: u8|
            i < 8 ==> (#[trigger] (((a | b) >> i) & 1) == 1 <==> ((a >> i) & 1 == 1 || (b >> i) & 1
                == 1)),
        forall|a: u8, b: u8, i: u8|
            i < 8 ==> (#[trigger] (((a & b) >> i) & 1) == 1 <==> ((a >> i) & 1 == 1 && (b >> i) & 1
                == 1)),
        forall|a: u8, b: u8| a < 64 && b < 64 ==> #[trigger] (a | b) < 64,
        forall|a: u8, b: u8| a < 64 ==> #[trigger] (a & b) < 64,
        forall|i: u8, j: u8|
            i <= 5 && j < 8 ==> (#[trigger] (((1u8 << i) >> j) & 1) == 1 <==> i == j),
        forall|i: u8| i <= 5 ==> #[trigger] (1u8 << i) < 64,
        forall|i: u8| i <= 5 ==> #[trigger] (!(1u8 << i)) >= 64,
        forall|a: u8, i: u8, j: u8|
            i <= 5 && j < 8 ==> (#[trigger] (((a & !(1u8 << i)) >> j) & 1) == 1 <==> ((a >> j) & 1
                == 1 && j != i)),
        forall|a: u8, i: u8|
            i < 8 ==> (#[trigger] (a & (1u8 << i)) != 0 <==> (a >> i) & 1 == 1),
        forall|i: u8| #[trigger] ((0u8 >> i) & 1) == 0,
        forall|i: u8| i <= 5 ==> #[trigger] ((0x3fu8 >> i) & 1) == 1,
        forall|a: u8, b: u8| (#[trigger] (a | b)) == 0 ==> a == 0 && b == 0,
{
}

/// One of the six face directions of a section, in the order
/// -X, -Y, -Z, +X, +Y, +Z.
#[derive(Clone, Copy, PartialEq, Eq, Structural, Debug)]
pub enum GraphDirection {
    NegX,
    NegY,
    NegZ,
    PosX,
    PosY,
    PosZ,
}

/// The direction whose bit position is `bit`, for `bit <= 5`.
pub open spec fn spec_dir_of(bit: u8) -> GraphDirection {
    match bit {
        0 => GraphDirection::NegX,
        1 => GraphDirection::NegY,
        2 => GraphDirection::NegZ,
        3 => GraphDirection::PosX,
        4 => GraphDirection::PosY,
        _ => GraphDirection::PosZ,
    }
}

impl GraphDirection {
    /// Bit position of this direction inside a `GraphDirectionSet`.
    pub open spec fn spec_bit(self) -> u8 {
        match self {
            GraphDirection::NegX => 0,
            GraphDirection::NegY => 1,
            GraphDirection::NegZ => 2,
            GraphDirection::PosX => 3,
            GraphDirection::PosY => 4,
            GraphDirection::PosZ => 5,
        }
    }

    pub open spec fn spec_opposite(self) -> GraphDirection {
        match self {
            GraphDirection::NegX => GraphDirection::PosX,
            GraphDirection::NegY => GraphDirection::PosY,
            GraphDirection::NegZ => GraphDirection::PosZ,
            GraphDirection::PosX => GraphDirection::NegX,
            GraphDirection::PosY => GraphDirection::NegY,
            GraphDirection::PosZ => GraphDirection::NegZ,
        }
    }

    pub fn as_bit(self) -> (r: u8)
        ensures
            r == self.spec_bit(),
    {
        match self {
            GraphDirection::NegX => 0,
            GraphDirection::NegY => 1,
            GraphDirection::NegZ => 2,
            GraphDirection::PosX => 3,
            GraphDirection::PosY => 4,
            GraphDirection::PosZ => 5,
        }
    }

    /// The direction pointing the opposite way along the same axis.
    pub fn opposite(&self) -> (r: GraphDirection)
        ensures
            r == self.spec_opposite(),
            r.spec_opposite() == *self,
    {
        match self {
            GraphDirection::NegX => GraphDirection::PosX,
            GraphDirection::NegY => GraphDirection::PosY,
            GraphDirection::NegZ => GraphDirection::PosZ,
            GraphDirection::PosX => GraphDirection::NegX,
            GraphDirection::PosY => GraphDirection::NegY,
            GraphDirection::PosZ => GraphDirection::NegZ,
        }
    }

    /// The direction whose bit position is `val`.
    pub fn from_int_unchecked(val: u8) -> (r: GraphDirection)
        requires
            val <= 5,
        ensures
            r.spec_bit() == val,
    {
        if val == 0 {
            GraphDirection::NegX
        } else if val == 1 {
            GraphDirection::NegY
        } else if val == 2 {
            GraphDirection::NegZ
        } else if val == 3 {
            GraphDirection::PosX
        } else if val == 4 {
            GraphDirection::PosY
        } else {
            GraphDirection::PosZ
        }
    }
}

/// A set of face directions, packed as the low six bits of a byte.
#[derive(Clone, Copy, PartialEq, Eq, Structural, Debug)]
pub struct GraphDirectionSet {
    bits: u8,
}

impl GraphDirectionSet {
    /// The raw six-bit mask.
    pub closed spec fn spec_bits(self) -> u8 {
        self.bits
    }

    /// Whether direction `d` is in the set.
    pub open spec fn spec_contains(self, d: GraphDirection) -> bool {
        self.spec_bits() >> d.spec_bit() & 1 == 1
    }

    /// Only the low six bits may be used.
    pub open spec fn wf(self) -> bool {
        self.spec_bits() < 64
    }

    /// The empty direction set.
    pub fn none() -> (r: GraphDirectionSet)
        ensures
            r.spec_bits() == 0,
            r.wf(),
            forall|d: GraphDirection| !r.spec_contains(d),
    {
        proof {
            lemma_mask_bits();
        }
        GraphDirectionSet { bits: 0 }
    }

    /// The set of all six directions.
    pub fn all() -> (r: GraphDirectionSet)
        ensures
            r.spec_bits() == 0x3f,
            r.wf(),
            forall|d: GraphDirection| r.spec_contains(d),
    {
        proof {
            lemma_mask_bits();
        }
        GraphDirectionSet { bits: 0x3f }
    }

    /// The set whose mask is `packed`.
    pub fn from(packed: u8) -> (r: GraphDirectionSet)
        requires
            packed < 64,
        ensures
            r.spec_bits() == packed,
            r.wf(),
    {
        GraphDirectionSet { bits: packed }
    }

    /// The set holding exactly `direction`.
    pub fn single(direction: GraphDirection) -> (r: GraphDirectionSet)
        ensures
            r.spec_bits() == 1u8 << direction.spec_bit(),
            r.wf(),
            forall|d: GraphDirection| r.spec_contains(d) <==> d == direction,
    {
        proof {
            lemma_mask_bits();
        }
        let b = direction.as_bit();
        let r = GraphDirectionSet { bits: 1u8 << b };
        proof {
            assert forall|d: GraphDirection| r.spec_contains(d) <==> d == direction by {
                assert(((1u8 << direction.spec_bit()) >> d.spec_bit()) & 1 == 1 <==> direction.spec_bit()
                    == d.spec_bit());
            }
        }
        r
    }

    /// Adds `dir` to the set.
    pub fn add(&mut self, dir: GraphDirection)
        requires
            old(self).wf(),
        ensures
            final(self).wf(),
            final(self).spec_bits() == old(self).spec_bits() | (1u8 << dir.spec_bit()),
            forall|d: GraphDirection|
                final(self).spec_contains(d) <==> (old(self).spec_contains(d) || d == dir),
    {
        proof {
            lemma_mask_bits();
        }
        let b = dir.as_bit();
        self.bits = self.bits | (1u8 << b);
        proof {
            assert forall|d: GraphDirection|
                self.spec_contains(d) <==> (old(self).spec_contains(d) || d == dir) by {
                assert(((1u8 << dir.spec_bit()) >> d.spec_bit()) & 1 == 1 <==> dir.spec_bit()
                    == d.spec_bit());
            }
        }
    }

    /// Adds every direction of `set` to the set.
    pub fn add_all(&mut self, set: GraphDirectionSet)
        requires
            old(self).wf(),
            set.wf(),
        ensures
            final(self).wf(),
            final(self).spec_bits() == old(self).spec_bits() | set.spec_bits(),
            forall|d: GraphDirection|
                final(self).spec_contains(d) <==> (old(self).spec_contains(d)
                    || set.spec_contains(d)),
    {
        proof {
            lemma_mask_bits();
        }
        self.bits = self.bits | set.bits;
    }

    /// Removes `dir` from the set.
    pub fn remove(&mut self, dir: GraphDirection)
        requires
            old(self).wf(),
        ensures
            final(self).wf(),
            forall|d: GraphDirection|
                final(self).spec_contains(d) <==> (old(self).spec_contains(d) && d != dir),
    {
        proof {
            lemma_mask_bits();
        }
        let b = dir.as_bit();
        self.bits = self.bits & !(1u8 << b);
        proof {
            assert forall|d: GraphDirection|
                self.spec_contains(d) <==> (old(self).spec_contains(d) && d != dir) by {
                assert(((old(self).spec_bits() & !(1u8 << dir.spec_bit())) >> d.spec_bit()) & 1 == 1
                    <==> ((old(self).spec_bits() >> d.spec_bit()) & 1 == 1 && d.spec_bit()
                    != dir.spec_bit()));
            }
        }
    }

    /// The intersection of the two sets.
    pub fn intersection(self, rhs: GraphDirectionSet) -> (r: GraphDirectionSet)
        requires
            self.wf(),
        ensures
            r.wf(),
            r.spec_bits() == self.spec_bits() & rhs.spec_bits(),
            forall|d: GraphDirection|
                r.spec_contains(d) <==> (self.spec_contains(d) && rhs.spec_contains(d)),
    {
        proof {
            lemma_mask_bits();
        }
        GraphDirectionSet { bits: self.bits & rhs.bits }
    }

    /// Whether direction `dir` is in the set.
    pub fn contains(&self, dir: GraphDirection) -> (r: bool)
        ensures
            r == self.spec_contains(dir),
    {
        proof {
            lemma_mask_bits();
        }
        let b = dir.as_bit();
        (self.bits & (1u8 << b)) != 0
    }

    /// Whether the set holds no direction.
    pub fn is_empty(&self) -> (r: bool)
        requires
            self.wf(),
        ensures
            r == (self.spec_bits() == 0),
            r ==> forall|d: GraphDirection| !self.spec_contains(d),
    {
        proof {
            lemma_mask_bits();
        }
        self.bits == 0
    }
}

impl Default for GraphDirectionSet {
    /// The empty set.
    fn default() -> (r: GraphDirectionSet)
        ensures
            r.spec_bits() == 0,
            r.wf(),
    {
        GraphDirectionSet::none()
    }
}

} // verus!
