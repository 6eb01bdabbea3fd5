//! Per-section content flags.

use vstd::prelude::*;

verus! {

/// A property a section's content may have.
#[derive(Clone, Copy, PartialEq, Eq, Structural, Debug)]
pub enum SectionFlag {
    HasBlockGeometry,
    HasBlockEntities,
    HasAnimatedSprites,
}

impl SectionFlag {
    /// Bit position of this flag in a `SectionFlagSet`.
    pub open spec fn spec_bit(self) -> u8 {
        match self {
            SectionFlag::HasBlockGeometry => 0,
            SectionFlag::HasBlockEntities => 1,
            SectionFlag::HasAnimatedSprites => 2,
        }
    }

    pub fn as_bit(self) -> (r: u8)
        ensures
            r == self.spec_bit(),
    {
        match self {
            SectionFlag::HasBlockGeometry => 0,
            SectionFlag::HasBlockEntities => 1,
            SectionFlag::HasAnimatedSprites => 2,
        }
    }
}

/// A set of section flags, packed in the low bits of a byte.
#[derive(Clone, Copy, PartialEq, Eq, Structural, Debug)]
pub struct SectionFlagSet {
    bits: u8,
}

impl SectionFlagSet {
    pub closed spec fn spec_bits(self) -> u8 {
        self.bits
    }

    /// Whether flag `f` is in the set.
    pub open spec fn spec_contains(self, f: SectionFlag) -> bool {
        self.spec_bits() >> f.spec_bit() & 1 == 1
    }

    /// The set whose mask is `packed`.
    pub fn from(packed: u8) -> (r: SectionFlagSet)
        ensures
            r.spec_bits() == packed,
    {
        SectionFlagSet { bits: packed }
    }

    /// Whether the set holds `flag`.
    pub fn contains(&self, flag: SectionFlag) -> (r: bool)
        ensures
            r == self.spec_contains(flag),
    {
        proof {
            crate::direction::lemma_mask_bits();
        }
        let b = flag.as_bit();
        (self.bits & (1u8 << b)) != 0
    }
}

impl Default for SectionFlagSet {
    /// The empty set.
    fn default() -> (r: SectionFlagSet)
        ensures
            r.spec_bits() == 0,
    {
        SectionFlagSet { bits: 0 }
    }
}

} // verus!
