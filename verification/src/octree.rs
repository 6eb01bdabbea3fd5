//! A dense 2^24-bit grid with whole-subcube writes at four levels.
//!
//! One bit per section of the window, stored as 2^18 64-bit words.
//! Because a level-L node covers a contiguous, aligned run of 8^L
//! Morton indices, a whole node is one bit, one byte, one word or
//! eight words of the storage.

use vstd::prelude::*;

use crate::coord::LocalNodeIndex;

verus! {

/// Number of 64-bit words backing the 2^24 bits.
pub const OCTREE_WORDS: usize = 0x40000;

/// Bit `j` of the storage `s`.
pub open spec fn spec_bit(s: Seq<u64>, j: u32) -> bool {
    (s[(j >> 6) as int] >> ((j & 63) as u64)) & 1 == 1
}

/// Whether section index `j` lies in the level-`level` node anchored
/// at index `i`.
pub open spec fn spec_in_node(i: u32, level: u8, j: u32) -> bool {
    i <= j < i + (1u32 << (3 * level))
}

/// Whether every bit of the level-`level` node at `i` is set, read at
/// the granularity the storage is written in: a bit, a byte, a word,
/// or eight words.
pub open spec fn spec_node_full(s: Seq<u64>, i: u32, level: u8) -> bool {
    if level == 0 {
        (s[(i >> 6) as int] >> ((i & 63) as u64)) & 1 == 1
    } else if level == 1 {
        (s[(i >> 6) as int] >> ((i & 63) as u64)) & 0xFF == 0xFF
    } else if level == 2 {
        s[(i >> 6) as int] == 0xFFFFFFFFFFFFFFFFu64
    } else {
        forall|w: int| i >> 6 <= w < (i >> 6) + 8 ==> s[w] == 0xFFFFFFFFFFFFFFFFu64
    }
}

/// Bit updates of one word, addressed by a single section index.
proof fn lemma_level0(i: u32, oldw: u64, value: bool)
    by (bit_vector)
    ensures
        forall|j: u32|
            #[trigger] (j >> 6) == i >> 6 ==> ({
                let neww = if value {
                    oldw | (1u64 << ((i & 63) as u64))
                } else {
                    oldw & !(1u64 << ((i & 63) as u64))
                };
                ((neww >> ((j & 63) as u64)) & 1 == 1) == (if j == i {
                    value
                } else {
                    (oldw >> ((j & 63) as u64)) & 1 == 1
                })
            }),
        forall|j: u32| #[trigger] (j >> 6) != i >> 6 ==> j != i,
        ((oldw & !(1u64 << ((i & 63) as u64))) >> ((i & 63) as u64)) & 1 == 0,
{
}

/// Byte updates of one word, addressed by a level-1 node index.
proof fn lemma_level1(i: u32, oldw: u64, value: bool)
    by (bit_vector)
    requires
        i & 7 == 0,
    ensures
        forall|j: u32|
            #[trigger] (j >> 6) == i >> 6 ==> ({
                let neww = if value {
                    oldw | (0xFFu64 << ((i & 63) as u64))
                } else {
                    oldw & !(0xFFu64 << ((i & 63) as u64))
                };
                ((neww >> ((j & 63) as u64)) & 1 == 1) == (if j >> 3 == i >> 3 {
                    value
                } else {
                    (oldw >> ((j & 63) as u64)) & 1 == 1
                })
            }),
        forall|j: u32| (#[trigger] (j >> 3) == i >> 3) <==> i <= j < i + 8,
        forall|j: u32| #[trigger] (j >> 6) != i >> 6 ==> j >> 3 != i >> 3,
        ((oldw | (0xFFu64 << ((i & 63) as u64))) >> ((i & 63) as u64)) & 0xFF == 0xFF,
        ((oldw & !(0xFFu64 << ((i & 63) as u64))) >> ((i & 63) as u64)) & 0xFF == 0,
{
}

/// Whole-word facts, addressed by a level-2 node index.
proof fn lemma_level2(i: u32, oldw: u64)
    by (bit_vector)
    requires
        i & 63 == 0,
    ensures
        forall|j: u32| (#[trigger] (j >> 6) == i >> 6) <==> i <= j < i + 64,
        oldw == 0xFFFFFFFFFFFFFFFFu64 ==> forall|j: u32|
            #[trigger] (j >> 6) == i >> 6 ==> (oldw >> ((j & 63) as u64)) & 1 == 1,
        forall|j: u32| (#[trigger] (0xFFFFFFFFFFFFFFFFu64 >> ((j & 63) as u64))) & 1 == 1,
        forall|j: u32| (#[trigger] (0u64 >> ((j & 63) as u64))) & 1 == 0,
{
}

/// A level-3 node decomposes into eight whole words.
proof fn lemma_level3(i: u32, k: u32)
    by (bit_vector)
    requires
        i & 511 == 0,
        i < 0x1000000,
        k < 8,
    ensures
        (i + k * 64) as u32 & 63 == 0,
        i + k * 64 < 0x1000000,
        ((i + k * 64) as u32) >> 6 == (i >> 6) + k,
        (i >> 6) + k < 0x40000,
        forall|j: u32| i <= j < i + 512 ==> (i >> 6) <= #[trigger] (j >> 6) < (i >> 6) + 8,
        forall|j: u32| (i >> 6) <= #[trigger] (j >> 6) < (i >> 6) + 8 ==> i <= j < i + 512,
        1u32 << 9 == 512,
        1u32 << 6 == 64,
{
}

/// Small constants of the level sizes.
proof fn lemma_level_sizes()
    by (bit_vector)
    ensures
        1u32 << 0 == 1,
        1u32 << 3 == 8,
        1u32 << 6 == 64,
        1u32 << 9 == 512,
{
}

/// A 24-bit index addresses one of the 2^18 words, and a zero word has
/// no bit set.
proof fn lemma_word_bound(i: u32)
    by (bit_vector)
    ensures
        i < 0x1000000 ==> i >> 6 < 0x40000,
        (0u64 >> ((i & 63) as u64)) & 1 == 0,
{
}

/// Alignment at a level, restated as the masks the word layout uses.
proof fn lemma_alignment(i: u32)
    by (bit_vector)
    ensures
        i & (((1u32 << (3 * 1)) - 1) as u32) == 0 ==> i & 7 == 0,
        i & (((1u32 << (3 * 2)) - 1) as u32) == 0 ==> i & 63 == 0,
        i & (((1u32 << (3 * 3)) - 1) as u32) == 0 ==> i & 511 == 0,
{
}

/// The first index of the word holding `j` is word-aligned and maps
/// back to the same word.
proof fn lemma_word_anchor(j: u32)
    by (bit_vector)
    ensures
        ((j >> 6) << 6) & 63 == 0,
        (j >> 6) == (((j >> 6) << 6) as u32) >> 6,
{
}

/// A full node has every bit of its index range set.
pub proof fn lemma_full_node_bits(s: Seq<u64>, i: u32, level: u8, j: u32)
    requires
        s.len() == OCTREE_WORDS,
        i < 0x1000000,
        level <= 3,
        i & (((1u32 << (3 * level)) - 1) as u32) == 0,
        spec_node_full(s, i, level),
        j < 0x1000000,
        spec_in_node(i, level, j),
    ensures
        spec_bit(s, j),
{
    lemma_level_sizes();
    if level == 0 {
        assert(i <= j < i + 1 ==> j == i);
    } else if level == 1 {
        lemma_alignment(i);
        let oldw = s[(i >> 6) as int];
        assert((i & 7 == 0 && i <= j < i + 8 && (oldw >> ((i & 63) as u64)) & 0xFF == 0xFF) ==> (
        oldw >> ((j & 63) as u64)) & 1 == 1 && j >> 6 == i >> 6) by (bit_vector);
    } else if level == 2 {
        lemma_alignment(i);
        lemma_level2(i, s[(i >> 6) as int]);
    } else {
        lemma_alignment(i);
        lemma_level3(i, 0);
        lemma_word_anchor(j);
        lemma_level2((j >> 6) << 6, s[(j >> 6) as int]);
    }
}

/// For every level and every node: stamping the node and then
/// draining it reads it back full exactly once.  The first
/// `get_and_clear` returns true and the second returns false.
pub fn stamp_and_drain(octree: &mut LinearBitOctree, index: LocalNodeIndex, level: u8) -> (r: (
    bool,
    bool,
))
    requires
        old(octree).wf(),
        index.wf(),
        level <= 3,
        index.is_aligned(level),
    ensures
        r == (true, false),
{
    octree.set(index, level, true);
    let first = octree.get_and_clear(index, level);
    let second = octree.get_and_clear(index, level);
    (first, second)
}

/// The dense bit grid.
pub struct LinearBitOctree {
    words: Vec<u64>,
}

impl LinearBitOctree {
    /// The stored words.
    pub closed spec fn view(self) -> Seq<u64> {
        self.words@
    }

    pub open spec fn wf(self) -> bool {
        self.view().len() == OCTREE_WORDS
    }

    /// All 2^24 bits are zero.
    pub open spec fn all_clear(self) -> bool {
        forall|j: u32| j < 0x1000000 ==> !spec_bit(self.view(), j)
    }

    /// A zeroed grid.
    pub fn new() -> (r: LinearBitOctree)
        ensures
            r.wf(),
            r.all_clear(),
    {
        let mut words: Vec<u64> = Vec::new();
        let mut n: usize = 0;
        while n < OCTREE_WORDS
            invariant
                n == words@.len(),
                n <= OCTREE_WORDS,
                forall|w: int| 0 <= w < n ==> words@[w] == 0u64,
            decreases OCTREE_WORDS - n,
        {
            words.push(0);
            n = n + 1;
        }
        let r = LinearBitOctree { words };
        proof {
            assert forall|j: u32| j < 0x1000000 implies !spec_bit(r.view(), j) by {
                lemma_word_bound(j);
            }
        }
        r
    }

    /// Word offset of section index `i`, which is `i >> 6`.
    fn word_of(i: u32) -> (r: usize)
        requires
            i < 0x1000000,
        ensures
            r == i >> 6,
            r < OCTREE_WORDS,
    {
        proof {
            lemma_word_bound(i);
        }
        (i >> 6) as usize
    }

    /// The low six bits of `i`: the bit offset inside its word.
    fn bit_of(i: u32) -> (r: u32)
        ensures
            r == i & 63,
            r < 64,
    {
        proof {
            assert(i & 63 < 64) by (bit_vector);
        }
        i & 63
    }

    /// Sets every bit of the level-`level` node at `index` to `value`.
    pub fn set(&mut self, index: LocalNodeIndex, level: u8, value: bool)
        requires
            old(self).wf(),
            index.wf(),
            level <= 3,
            index.is_aligned(level),
        ensures
            final(self).wf(),
            forall|j: u32|
                j < 0x1000000 ==> #[trigger] spec_bit(final(self).view(), j) == (if spec_in_node(
                    index.spec_idx(),
                    level,
                    j,
                ) {
                    value
                } else {
                    spec_bit(old(self).view(), j)
                }),
            value ==> spec_node_full(final(self).view(), index.spec_idx(), level),
    {
        let i: u32 = index.as_array_index() as u32;
        proof {
            lemma_level_sizes();
        }
        if level == 0 {
            let wi = Self::word_of(i);
            let oldw = self.words[wi];
            let bit_index = Self::bit_of(i);
            let neww = if value {
                oldw | (1u64 << (bit_index as u64))
            } else {
                oldw & !(1u64 << (bit_index as u64))
            };
            self.words.set(wi, neww);
            proof {
                lemma_level0(i, oldw, value);
                assert forall|j: u32| j < 0x1000000 implies #[trigger] spec_bit(self.view(), j) == (
                if spec_in_node(i, 0, j) {
                    value
                } else {
                    spec_bit(old(self).view(), j)
                }) by {
                    lemma_word_bound(i);
                    lemma_word_bound(j);
                }
            }
        } else if level == 1 {
            let wi = Self::word_of(i);
            let oldw = self.words[wi];
            let byte_shift = Self::bit_of(i);
            let neww = if value {
                oldw | (0xFFu64 << (byte_shift as u64))
            } else {
                oldw & !(0xFFu64 << (byte_shift as u64))
            };
            self.words.set(wi, neww);
            proof {
                lemma_alignment(i);
                lemma_level1(i, oldw, value);
                assert forall|j: u32| j < 0x1000000 implies #[trigger] spec_bit(self.view(), j) == (
                if spec_in_node(i, 1, j) {
                    value
                } else {
                    spec_bit(old(self).view(), j)
                }) by {
                    lemma_word_bound(i);
                    lemma_word_bound(j);
                }
            }
        } else if level == 2 {
            let wi = Self::word_of(i);
            let oldw = self.words[wi];
            let neww = if value {
                0xFFFFFFFFFFFFFFFFu64
            } else {
                0u64
            };
            self.words.set(wi, neww);
            proof {
                lemma_alignment(i);
                lemma_level2(i, oldw);
                assert forall|j: u32| j < 0x1000000 implies #[trigger] spec_bit(self.view(), j) == (
                if spec_in_node(i, 2, j) {
                    value
                } else {
                    spec_bit(old(self).view(), j)
                }) by {
                    lemma_word_bound(i);
                    lemma_word_bound(j);
                }
            }
        } else {
            let w0 = Self::word_of(i);
            proof {
                lemma_alignment(i);
                lemma_level3(i, 7);
            }
            let neww = if value {
                0xFFFFFFFFFFFFFFFFu64
            } else {
                0u64
            };
            let mut k: usize = 0;
            while k < 8
                invariant
                    self.wf(),
                    k <= 8,
                    i < 0x1000000,
                    i & 511 == 0,
                    w0 == i >> 6,
                    w0 + 8 <= OCTREE_WORDS,
                    neww == if value {
                        0xFFFFFFFFFFFFFFFFu64
                    } else {
                        0u64
                    },
                    forall|w: int|
                        0 <= w < OCTREE_WORDS && !(w0 <= w < w0 + k) ==> self.view()[w] == old(
                            self,
                        ).view()[w],
                    forall|w: int| w0 <= w < w0 + k ==> self.view()[w] == neww,
                decreases 8 - k,
            {
                self.words.set(w0 + k, neww);
                k = k + 1;
            }
            proof {
                lemma_level3(i, 0);
                assert forall|j: u32| j < 0x1000000 implies #[trigger] spec_bit(self.view(), j) == (
                if spec_in_node(i, 3, j) {
                    value
                } else {
                    spec_bit(old(self).view(), j)
                }) by {
                    lemma_word_bound(i);
                    lemma_word_bound(j);
                    if spec_in_node(i, 3, j) {
                        lemma_word_anchor(j);
                        lemma_level2((j >> 6) << 6, self.view()[(j >> 6) as int]);
                    }
                }
            }
        }
    }

    /// Returns whether every bit of the level-`level` node at `index`
    /// was set, then zeroes the node.
    pub fn get_and_clear(&mut self, index: LocalNodeIndex, level: u8) -> (r: bool)
        requires
            old(self).wf(),
            index.wf(),
            level <= 3,
            index.is_aligned(level),
        ensures
            final(self).wf(),
            r == spec_node_full(old(self).view(), index.spec_idx(), level),
            !spec_node_full(final(self).view(), index.spec_idx(), level),
            forall|j: u32|
                j < 0x1000000 ==> #[trigger] spec_bit(final(self).view(), j) == (if spec_in_node(
                    index.spec_idx(),
                    level,
                    j,
                ) {
                    false
                } else {
                    spec_bit(old(self).view(), j)
                }),
    {
        let i: u32 = index.as_array_index() as u32;
        proof {
            lemma_level_sizes();
        }
        if level == 0 {
            let wi = Self::word_of(i);
            let oldw = self.words[wi];
            let bit_index = Self::bit_of(i);
            let result = (oldw >> (bit_index as u64)) & 1 == 1;
            let neww = oldw & !(1u64 << (bit_index as u64));
            self.words.set(wi, neww);
            proof {
                lemma_level0(i, oldw, false);
                assert forall|j: u32| j < 0x1000000 implies #[trigger] spec_bit(self.view(), j) == (
                if spec_in_node(i, 0, j) {
                    false
                } else {
                    spec_bit(old(self).view(), j)
                }) by {
                    lemma_word_bound(i);
                    lemma_word_bound(j);
                }
            }
            result
        } else if level == 1 {
            let wi = Self::word_of(i);
            let oldw = self.words[wi];
            let byte_shift = Self::bit_of(i);
            let result = (oldw >> (byte_shift as u64)) & 0xFF == 0xFF;
            let neww = oldw & !(0xFFu64 << (byte_shift as u64));
            self.words.set(wi, neww);
            proof {
                lemma_alignment(i);
                lemma_level1(i, oldw, false);
                assert forall|j: u32| j < 0x1000000 implies #[trigger] spec_bit(self.view(), j) == (
                if spec_in_node(i, 1, j) {
                    false
                } else {
                    spec_bit(old(self).view(), j)
                }) by {
                    lemma_word_bound(i);
                    lemma_word_bound(j);
                }
                assert(self.view()[(i >> 6) as int] == (oldw & !(0xFFu64 << ((i & 63) as u64))));
            }
            result
        } else if level == 2 {
            let wi = Self::word_of(i);
            let oldw = self.words[wi];
            let result = oldw == 0xFFFFFFFFFFFFFFFF;
            self.words.set(wi, 0);
            proof {
                lemma_alignment(i);
                lemma_level2(i, oldw);
                assert forall|j: u32| j < 0x1000000 implies #[trigger] spec_bit(self.view(), j) == (
                if spec_in_node(i, 2, j) {
                    false
                } else {
                    spec_bit(old(self).view(), j)
                }) by {
                    lemma_word_bound(i);
                    lemma_word_bound(j);
                }
            }
            result
        } else {
            let w0 = Self::word_of(i);
            proof {
                lemma_alignment(i);
                lemma_level3(i, 7);
            }
            let mut result = true;
            let mut k: usize = 0;
            while k < 8
                invariant
                    self.wf(),
                    k <= 8,
                    i < 0x1000000,
                    i & 511 == 0,
                    w0 == i >> 6,
                    w0 + 8 <= OCTREE_WORDS,
                    forall|w: int|
                        0 <= w < OCTREE_WORDS && !(w0 <= w < w0 + k) ==> self.view()[w] == old(
                            self,
                        ).view()[w],
                    forall|w: int| w0 <= w < w0 + k ==> self.view()[w] == 0u64,
                    result == (forall|w: int|
                        w0 <= w < w0 + k ==> old(self).view()[w] == 0xFFFFFFFFFFFFFFFFu64),
                decreases 8 - k,
            {
                let oldw = self.words[w0 + k];
                result = result && (oldw == 0xFFFFFFFFFFFFFFFF);
                self.words.set(w0 + k, 0);
                k = k + 1;
            }
            proof {
                lemma_level3(i, 0);
                assert forall|j: u32| j < 0x1000000 implies #[trigger] spec_bit(self.view(), j) == (
                if spec_in_node(i, 3, j) {
                    false
                } else {
                    spec_bit(old(self).view(), j)
                }) by {
                    lemma_word_bound(i);
                    lemma_word_bound(j);
                    if spec_in_node(i, 3, j) {
                        lemma_word_anchor(j);
                        lemma_level2((j >> 6) << 6, self.view()[(j >> 6) as int]);
                    }
                }
                assert(self.view()[(i >> 6) as int] == 0u64);
            }
            result
        }
    }

    /// Zeroes the whole grid.
    pub fn clear(&mut self)
        requires
            old(self).wf(),
        ensures
            final(self).wf(),
            final(self).all_clear(),
    {
        let mut k: usize = 0;
        while k < OCTREE_WORDS
            invariant
                self.wf(),
                k <= OCTREE_WORDS,
                forall|w: int| 0 <= w < k ==> self.view()[w] == 0u64,
            decreases OCTREE_WORDS - k,
        {
            self.words.set(k, 0);
            k = k + 1;
        }
        proof {
            assert forall|j: u32| j < 0x1000000 implies !spec_bit(self.view(), j) by {
                lemma_word_bound(j);
            }
        }
    }
}

} // verus!
