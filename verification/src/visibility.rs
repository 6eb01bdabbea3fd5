//! Per-section visibility connectivity.
//!
//! A section's connectivity is a symmetric relation over its six faces:
//! a flood entering face j may leave through face k iff (j, k) is
//! related.  Only the strict lower triangle of the 6x6 matrix is
//! stored, 15 bits in a 16-bit word: the entry for faces (a, b) with
//! a < b sits at bit `b*(b-1)/2 + a`.

use vstd::prelude::*;

use crate::direction::lemma_mask_bits;
use crate::direction::spec_dir_of;
use crate::direction::GraphDirection;
use crate::direction::GraphDirectionSet;

verus! {

/// First bit of row `b` of the stored triangle.
pub open spec fn spec_tri_base(b: u8) -> u8 {
    match b {
        0 => 0,
        1 => 0,
        2 => 1,
        3 => 3,
        4 => 6,
        _ => 10,
    }
}

/// The stored triangle entry for the face pair (a, b), for a < b <= 5.
pub open spec fn spec_tri_bit(d: u16, a: u8, b: u8) -> bool {
    (d >> ((spec_tri_base(b) + a) as u16)) & 1 == 1
}

/// Whether a flood entering face `j` may leave through face `k`.
/// The relation is symmetric by construction and never relates a face
/// to itself.
pub open spec fn spec_connected(d: u16, j: u8, k: u8) -> bool {
    if j < k {
        spec_tri_bit(d, j, k)
    } else if k < j {
        spec_tri_bit(d, k, j)
    } else {
        false
    }
}

/// Whether direction `k` is outgoing for the datum `d` and the
/// incoming set `incoming`.
pub open spec fn spec_outgoing(d: u16, incoming: GraphDirectionSet, k: GraphDirection) -> bool {
    exists|j: GraphDirection|
        incoming.spec_contains(j) && spec_connected(d, j.spec_bit(), k.spec_bit())
}

/// The triangle compression of `pack` reads the lower triangle of the
/// 36-bit row-major input, entry by entry.
proof fn lemma_pack_stages(raw: u64)
    by (bit_vector)
    ensures
        ({
            let v1 = raw >> 6;
            let p1 = (v1 & 0b1) as u16;
            let v2 = v1 >> 5;
            let p2 = p1 | ((v2 & 0b110) as u16);
            let v3 = v2 >> 4;
            let p3 = p2 | ((v3 & 0b111000) as u16);
            let v4 = v3 >> 3;
            let p4 = p3 | ((v4 & 0b1111000000) as u16);
            let v5 = v4 >> 2;
            let p = p4 | ((v5 & 0b111110000000000) as u16);
            &&& p < 0x8000
            &&& ((p >> 0) & 1 == 1 <==> (raw >> 6) & 1 == 1)
            &&& ((p >> 1) & 1 == 1 <==> (raw >> 12) & 1 == 1)
            &&& ((p >> 2) & 1 == 1 <==> (raw >> 13) & 1 == 1)
            &&& ((p >> 3) & 1 == 1 <==> (raw >> 18) & 1 == 1)
            &&& ((p >> 4) & 1 == 1 <==> (raw >> 19) & 1 == 1)
            &&& ((p >> 5) & 1 == 1 <==> (raw >> 20) & 1 == 1)
            &&& ((p >> 6) & 1 == 1 <==> (raw >> 24) & 1 == 1)
            &&& ((p >> 7) & 1 == 1 <==> (raw >> 25) & 1 == 1)
            &&& ((p >> 8) & 1 == 1 <==> (raw >> 26) & 1 == 1)
            &&& ((p >> 9) & 1 == 1 <==> (raw >> 27) & 1 == 1)
            &&& ((p >> 10) & 1 == 1 <==> (raw >> 30) & 1 == 1)
            &&& ((p >> 11) & 1 == 1 <==> (raw >> 31) & 1 == 1)
            &&& ((p >> 12) & 1 == 1 <==> (raw >> 32) & 1 == 1)
            &&& ((p >> 13) & 1 == 1 <==> (raw >> 33) & 1 == 1)
            &&& ((p >> 14) & 1 == 1 <==> (raw >> 34) & 1 == 1)
        }),
{
}

/// Every triangle entry of the all-ones datum is set, and bit reads of
/// a 16-bit word are bounded.
proof fn lemma_tri_bits()
    by (bit_vector)
    ensures
        forall|p: u16| p < 15 ==> (#[trigger] (0x7FFFu16 >> p)) & 1 == 1,
        forall|d: u16, p: u16| ((#[trigger] (d >> p)) & 1) == 1 ==> d != 0,
{
}

/// The symmetric face-to-face visibility connectivity of one section.
#[derive(Clone, Copy, PartialEq, Eq, Structural, Debug)]
pub struct VisibilityData {
    bits: u16,
}

impl VisibilityData {
    /// The packed 15-bit triangle.
    pub closed spec fn spec_bits(self) -> u16 {
        self.bits
    }

    pub open spec fn wf(self) -> bool {
        self.spec_bits() < 0x8000
    }

    /// The datum that relates every pair of distinct faces.
    pub fn all_outgoing() -> (r: VisibilityData)
        ensures
            r.wf(),
            r.spec_bits() == 0x7FFF,
            forall|a: u8, b: u8| a < b <= 5 ==> spec_tri_bit(r.spec_bits(), a, b),
    {
        let r = VisibilityData { bits: 0x7FFF };
        proof {
            lemma_tri_bits();
            assert forall|a: u8, b: u8| a < b <= 5 implies spec_tri_bit(r.spec_bits(), a, b) by {
                assert(spec_tri_base(b) + a < 15);
            }
        }
        r
    }

    /// Compresses the 36-bit row-major matrix (row j at bits
    /// `6*j..6*j+6`, row j symmetric with column j) into the stored
    /// triangle: entry (a, b), a < b, is read from bit `6*b + a`.
    pub fn pack(raw: u64) -> (r: VisibilityData)
        ensures
            r.wf(),
            forall|a: u8, b: u8|
                a < b <= 5 ==> (spec_tri_bit(r.spec_bits(), a, b) <==> (raw >> ((6 * b
                    + a) as u64)) & 1 == 1),
    {
        proof {
            lemma_pack_stages(raw);
        }
        let mut v: u64 = raw >> 6;
        let mut packed: u16 = #[verifier::truncate] ((v & 0b1) as u16);
        v = v >> 5;
        packed = packed | #[verifier::truncate] ((v & 0b110) as u16);
        v = v >> 4;
        packed = packed | #[verifier::truncate] ((v & 0b111000) as u16);
        v = v >> 3;
        packed = packed | #[verifier::truncate] ((v & 0b1111000000) as u16);
        v = v >> 2;
        packed = packed | #[verifier::truncate] ((v & 0b111110000000000) as u16);
        proof {
            assert forall|a: u8, b: u8| a < b <= 5 implies (spec_tri_bit(packed, a, b) <==> (raw
                >> ((6 * b + a) as u64)) & 1 == 1) by {
                if b == 1 {
                } else if b == 2 {
                } else if b == 3 {
                } else if b == 4 {
                } else {
                }
            }
        }
        VisibilityData { bits: packed }
    }

    /// Whether faces `j` and `k` are related by this datum.
    fn connected(&self, j: u8, k: u8) -> (r: bool)
        requires
            j <= 5,
            k <= 5,
        ensures
            r == spec_connected(self.spec_bits(), j, k),
    {
        if j == k {
            return false;
        }
        let (a, b) = if j < k {
            (j, k)
        } else {
            (k, j)
        };
        let base: u16 = match b {
            0 => 0,
            1 => 0,
            2 => 1,
            3 => 3,
            4 => 6,
            _ => 10,
        };
        (self.bits >> (base + a as u16)) & 1 == 1
    }

    /// The set of faces a flood entering through `incoming` may leave
    /// through: the union, over the incoming faces, of the faces
    /// related to them.
    pub fn get_outgoing_directions(&self, incoming: GraphDirectionSet) -> (r: GraphDirectionSet)
        requires
            incoming.wf(),
        ensures
            r.wf(),
            forall|k: GraphDirection|
                #[trigger] r.spec_contains(k) <==> spec_outgoing(self.spec_bits(), incoming, k),
    {
        let mut out = GraphDirectionSet::none();
        let mut jj: u8 = 0;
        while jj < 6
            invariant
                jj <= 6,
                out.wf(),
                incoming.wf(),
                forall|k: GraphDirection|
                    #[trigger] out.spec_contains(k) <==> exists|j: GraphDirection|
                        j.spec_bit() < jj && incoming.spec_contains(j) && spec_connected(
                            self.spec_bits(),
                            j.spec_bit(),
                            k.spec_bit(),
                        ),
            decreases 6 - jj,
        {
            let dj = GraphDirection::from_int_unchecked(jj);
            if incoming.contains(dj) {
                let mut kk: u8 = 0;
                while kk < 6
                    invariant
                        jj <= 5,
                        kk <= 6,
                        out.wf(),
                        incoming.wf(),
                        dj.spec_bit() == jj,
                        incoming.spec_contains(dj),
                        forall|k: GraphDirection|
                            #[trigger] out.spec_contains(k) <==> ((exists|j: GraphDirection|
                                j.spec_bit() < jj && incoming.spec_contains(j) && spec_connected(
                                    self.spec_bits(),
                                    j.spec_bit(),
                                    k.spec_bit(),
                                )) || (k.spec_bit() < kk && spec_connected(
                                self.spec_bits(),
                                jj,
                                k.spec_bit(),
                            ))),
                    decreases 6 - kk,
                {
                    let dk = GraphDirection::from_int_unchecked(kk);
                    if self.connected(jj, kk) {
                        out.add(dk);
                    }
                    kk = kk + 1;
                    proof {
                        assert forall|k: GraphDirection| #[trigger]
                            out.spec_contains(k) <==> ((exists|j: GraphDirection|
                                j.spec_bit() < jj && incoming.spec_contains(j) && spec_connected(
                                    self.spec_bits(),
                                    j.spec_bit(),
                                    k.spec_bit(),
                                )) || (k.spec_bit() < kk && spec_connected(
                                self.spec_bits(),
                                jj,
                                k.spec_bit(),
                            ))) by {
                            if k.spec_bit() < kk && spec_connected(
                                self.spec_bits(),
                                jj,
                                k.spec_bit(),
                            ) && k.spec_bit() == kk - 1 {
                                assert(k == dk);
                            }
                        }
                    }
                }
            }
            jj = jj + 1;
            proof {
                assert forall|k: GraphDirection| #[trigger]
                    out.spec_contains(k) <==> exists|j: GraphDirection|
                        j.spec_bit() < jj && incoming.spec_contains(j) && spec_connected(
                            self.spec_bits(),
                            j.spec_bit(),
                            k.spec_bit(),
                        ) by {
                    if out.spec_contains(k) {
                        if exists|j: GraphDirection|
                            j.spec_bit() < jj - 1 && incoming.spec_contains(j) && spec_connected(
                                self.spec_bits(),
                                j.spec_bit(),
                                k.spec_bit(),
                            ) {
                        } else {
                            let dj0 = spec_dir_of((jj - 1) as u8);
                            assert(dj0.spec_bit() < jj);
                        }
                    }
                }
            }
        }
        proof {
            assert forall|k: GraphDirection|
                #[trigger] out.spec_contains(k) <==> spec_outgoing(self.spec_bits(), incoming, k)
            by {
                if spec_outgoing(self.spec_bits(), incoming, k) {
                    let j = choose|j: GraphDirection|
                        incoming.spec_contains(j) && spec_connected(
                            self.spec_bits(),
                            j.spec_bit(),
                            k.spec_bit(),
                        );
                    assert(j.spec_bit() < 6);
                }
            }
        }
        out
    }
}

/// Two visibility data with the same packed triangle are the same
/// datum.
pub proof fn lemma_data_eq(a: VisibilityData, b: VisibilityData)
    requires
        a.spec_bits() == b.spec_bits(),
    ensures
        a == b,
{
}

impl Default for VisibilityData {
    /// The default connectivity relates every pair of distinct faces.
    fn default() -> (r: VisibilityData)
        ensures
            r.wf(),
            r.spec_bits() == 0x7FFF,
    {
        VisibilityData::all_outgoing()
    }
}

/// For any datum, face `k` is outgoing when only face `j` is incoming
/// iff face `j` is outgoing when only face `k` is incoming: the
/// connectivity is symmetric.  The incoming sets are given by their
/// masks, as `GraphDirectionSet::single` builds them.
pub proof fn lemma_visibility_symmetry(
    d: u16,
    j: GraphDirection,
    k: GraphDirection,
    sj: GraphDirectionSet,
    sk: GraphDirectionSet,
)
    requires
        sj.spec_bits() == 1u8 << j.spec_bit(),
        sk.spec_bits() == 1u8 << k.spec_bit(),
    ensures
        spec_outgoing(d, sj, k) == spec_outgoing(d, sk, j),
{
    lemma_mask_bits();
    assert forall|a: GraphDirection, b: GraphDirection|
        #[trigger] spec_connected(d, a.spec_bit(), b.spec_bit()) implies spec_connected(
        d,
        b.spec_bit(),
        a.spec_bit(),
    ) by {}
    assert(sj.spec_contains(j)) by {
        assert(((1u8 << j.spec_bit()) >> j.spec_bit()) & 1 == 1 <==> j.spec_bit() == j.spec_bit());
    }
    assert(sk.spec_contains(k)) by {
        assert(((1u8 << k.spec_bit()) >> k.spec_bit()) & 1 == 1 <==> k.spec_bit() == k.spec_bit());
    }
    if spec_outgoing(d, sj, k) {
        let a = choose|a: GraphDirection|
            sj.spec_contains(a) && spec_connected(d, a.spec_bit(), k.spec_bit());
        assert(((1u8 << j.spec_bit()) >> a.spec_bit()) & 1 == 1 <==> j.spec_bit() == a.spec_bit());
        assert(spec_connected(d, k.spec_bit(), j.spec_bit()));
    }
    if spec_outgoing(d, sk, j) {
        let a = choose|a: GraphDirection|
            sk.spec_contains(a) && spec_connected(d, a.spec_bit(), j.spec_bit());
        assert(((1u8 << k.spec_bit()) >> a.spec_bit()) & 1 == 1 <==> k.spec_bit() == a.spec_bit());
        assert(spec_connected(d, j.spec_bit(), k.spec_bit()));
    }
}

} // verus!
