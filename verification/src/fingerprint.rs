//! The compact state fingerprint: three 64-bit words accumulated from the 48
//! facelet colors by rotate-and-add. The search keys its visited-sets by this
//! fingerprint instead of by whole states. For valid six-color states the
//! digest is in fact lossless: every color occupies its own three-bit field,
//! so two valid states with equal fingerprints are equal facelet-for-facelet.

use vstd::prelude::*;

use crate::cube::{valid_colors, Cube};
use vstd::arithmetic::div_mod::lemma_fundamental_div_mod_converse;
use vstd::arithmetic::power2::{
    lemma2_to64, lemma2_to64_rest, lemma_pow2_adds, lemma_pow2_pos, lemma_pow2_strictly_increases,
    pow2,
};
use vstd::bits::{lemma_u64_shl_is_mul, lemma_u64_shr_is_div};

verus! {

/// A 64-bit word rotated left by `s` bits: the bits shifted out on the left
/// re-enter on the right.
pub open spec fn spec_rotl(x: u64, s: u64) -> u64
    recommends
        s < 64,
{
    if s == 0 {
        x
    } else {
        (x << s) | (x >> ((64 - s) as u64))
    }
}

/// The fingerprint word accumulated from facelets `lo..hi`: each facelet
/// `j` contributes its color, rotated left by `3 * (j - lo + off)` bits,
/// through wraparound addition, in increasing order of `j`.
pub open spec fn fp_acc(v: Seq<u8>, lo: int, hi: int, off: int) -> u64
    decreases hi - lo,
{
    if hi <= lo {
        0u64
    } else {
        fp_acc(v, lo, hi - 1, off).wrapping_add(
            spec_rotl(v[hi - 1] as u64, (3 * (hi - 1 - lo + off)) as u64),
        )
    }
}

/// The fingerprint of a cube state: the 48 facelets in flat order, split
/// into three consecutive groups of 21, 19 and 8, each group accumulated
/// into its own 64-bit word. The second and third group start at rotation
/// step 1, the first at step 0.
pub open spec fn spec_fingerprint(v: Seq<u8>) -> (u64, u64, u64) {
    (fp_acc(v, 0, 21, 0), fp_acc(v, 21, 40, 1), fp_acc(v, 40, 48, 1))
}

/// The three fingerprint words in array order.
pub open spec fn fingerprint_words(v: Seq<u8>) -> Seq<u64> {
    seq![spec_fingerprint(v).0, spec_fingerprint(v).1, spec_fingerprint(v).2]
}

fn rotl(x: u64, s: u64) -> (r: u64)
    requires
        s < 64,
    ensures
        r == spec_rotl(x, s),
{
    if s == 0 {
        x
    } else {
        (x << s) | (x >> (64 - s))
    }
}

impl Cube {
    /// The fingerprint of this cube state, as a three-word array. A pure
    /// function of the facelet colors: equal states always hash equal.
    pub fn get_hash(&self) -> (h: [u64; 3])
        ensures
            h@ == fingerprint_words(self@),
    {
        let mut h0: u64 = 0;
        let mut h1: u64 = 0;
        let mut h2: u64 = 0;
        let mut index: usize = 0;
        let mut side: usize = 0;
        while side < 6
            invariant
                side <= 6,
                index == 8 * side,
                h0 == fp_acc(self@, 0, if index <= 21 { index as int } else { 21 }, 0),
                h1 == fp_acc(
                    self@,
                    21,
                    if index <= 21 {
                        21
                    } else if index <= 40 {
                        index as int
                    } else {
                        40
                    },
                    1,
                ),
                h2 == fp_acc(self@, 40, if index <= 40 { 40 } else { index as int }, 1),
            decreases 6 - side,
        {
            let mut pos: usize = 0;
            while pos < 8
                invariant
                    side < 6,
                    pos <= 8,
                    index == 8 * side + pos,
                    h0 == fp_acc(self@, 0, if index <= 21 { index as int } else { 21 }, 0),
                    h1 == fp_acc(
                        self@,
                        21,
                        if index <= 21 {
                            21
                        } else if index <= 40 {
                            index as int
                        } else {
                            40
                        },
                        1,
                    ),
                    h2 == fp_acc(self@, 40, if index <= 40 { 40 } else { index as int }, 1),
                decreases 8 - pos,
            {
                let value = self.sides[side].colors[pos] as u64;
                proof {
                    assert(value == self@[index as int] as u64);
                }
                if index <= 20 {
                    h0 = h0.wrapping_add(rotl(value, 3 * index as u64));
                } else if index <= 39 {
                    h1 = h1.wrapping_add(rotl(value, 3 * (index as u64 - 20)));
                } else {
                    h2 = h2.wrapping_add(rotl(value, 3 * (index as u64 - 39)));
                }
                index = index + 1;
                pos = pos + 1;
            }
            side = side + 1;
        }
        let h = [h0, h1, h2];
        proof {
            assert(h@ =~= fingerprint_words(self@));
        }
        h
    }
}

/// For a small color and a rotation step that stays clear of the top bits,
/// the rotation is a plain shift: the color lands in its own three-bit
/// field, multiplied by the corresponding power of two.
proof fn lemma_rotl_small(x: u64, s: u64)
    requires
        x < 8,
        s <= 60,
    ensures
        spec_rotl(x, s) == x * pow2(s as nat),
        x * pow2(s as nat) < pow2((s + 3) as nat),
{
    lemma_pow2_pos(s as nat);
    lemma_pow2_adds(s as nat, 3);
    lemma2_to64();
    assert(x * pow2(s as nat) < 8 * pow2(s as nat)) by (nonlinear_arith)
        requires
            x < 8,
            pow2(s as nat) > 0,
    ;
    assert(8 * pow2(s as nat) == pow2(s as nat) * pow2(3));
    if s == 0 {
    } else {
        // The right part of the rotation is zero: the color is smaller than
        // the divisor 2^(64 - s).
        let t = (64 - s) as u64;
        lemma_u64_shr_is_div(x, t);
        lemma_pow2_strictly_increases(3, t as nat);
        lemma_fundamental_div_mod_converse(x as int, pow2(t as nat) as int, 0, x as int);
        assert(x >> t == 0);
        // The left part is multiplication, and it does not overflow.
        if s < 60 {
            lemma_pow2_strictly_increases(s as nat, 60);
        }
        lemma_pow2_adds(60, 3);
        lemma2_to64_rest();
        assert(x * pow2(s as nat) <= 8 * pow2(60)) by (nonlinear_arith)
            requires
                x < 8,
                0 < pow2(s as nat) <= pow2(60),
        ;
        lemma_u64_shl_is_mul(x, s);
        assert((x << s) | 0u64 == (x << s)) by (bit_vector);
    }
}

/// The accumulated word, written as an exact sum: facelet `j` contributes
/// `v[j] * 2^(3 * (j - lo + off))`.
spec fn fp_int(v: Seq<u8>, lo: int, hi: int, off: int) -> int
    decreases hi - lo,
{
    if hi <= lo {
        0
    } else {
        fp_int(v, lo, hi - 1, off) + (v[hi - 1] as int) * pow2((3 * (hi - 1 - lo + off)) as nat)
    }
}

/// With small colors the wraparound addition never wraps: the accumulated
/// word equals the exact sum, and the sum stays under the next power of two.
proof fn lemma_fp_acc_is_int(v: Seq<u8>, lo: int, hi: int, off: int)
    requires
        0 <= lo <= hi <= v.len(),
        0 <= off,
        3 * (hi - lo + off) <= 63,
        forall|j: int| lo <= j < hi ==> v[j] < 8,
    ensures
        fp_acc(v, lo, hi, off) == fp_int(v, lo, hi, off),
        0 <= fp_int(v, lo, hi, off) < pow2((3 * (hi - lo + off)) as nat),
    decreases hi - lo,
{
    lemma_pow2_pos((3 * (hi - lo + off)) as nat);
    if hi <= lo {
    } else {
        let s = 3 * (hi - 1 - lo + off);
        lemma_fp_acc_is_int(v, lo, hi - 1, off);
        lemma_rotl_small(v[hi - 1] as u64, s as u64);
        assert((v[hi - 1] as int) * pow2(s as nat) < pow2((s + 3) as nat));
        lemma_pow2_adds(s as nat, 3);
        lemma2_to64();
        assert(fp_int(v, lo, hi, off) < pow2(s as nat) + 7 * pow2(s as nat)) by (nonlinear_arith)
            requires
                fp_int(v, lo, hi, off) == fp_int(v, lo, hi - 1, off) + (v[hi - 1] as int) * pow2(
                    s as nat,
                ),
                fp_int(v, lo, hi - 1, off) < pow2(s as nat),
                v[hi - 1] < 8,
                pow2(s as nat) > 0,
        ;
        assert(pow2(s as nat) + 7 * pow2(s as nat) == pow2(s as nat) * pow2(3));
        // The whole sum fits in a 64-bit word.
        if 3 * (hi - lo + off) < 63 {
            lemma_pow2_strictly_increases((3 * (hi - lo + off)) as nat, 63);
        }
        lemma2_to64_rest();
    }
}

/// Equal exact sums over small colors have equal digits: the sum is a
/// base-eight numeral, read back digit by digit from the top.
proof fn lemma_fp_int_injective(v: Seq<u8>, w: Seq<u8>, lo: int, hi: int, off: int)
    requires
        0 <= lo <= hi,
        hi <= v.len(),
        hi <= w.len(),
        0 <= off,
        3 * (hi - lo + off) <= 63,
        forall|j: int| lo <= j < hi ==> v[j] < 8,
        forall|j: int| lo <= j < hi ==> w[j] < 8,
        fp_int(v, lo, hi, off) == fp_int(w, lo, hi, off),
    ensures
        forall|j: int| lo <= j < hi ==> v[j] == w[j],
    decreases hi - lo,
{
    if hi <= lo {
    } else {
        let m = pow2((3 * (hi - 1 - lo + off)) as nat) as int;
        lemma_pow2_pos((3 * (hi - 1 - lo + off)) as nat);
        lemma_fp_acc_is_int(v, lo, hi - 1, off);
        lemma_fp_acc_is_int(w, lo, hi - 1, off);
        lemma_fundamental_div_mod_converse(
            fp_int(v, lo, hi, off),
            m,
            v[hi - 1] as int,
            fp_int(v, lo, hi - 1, off),
        );
        lemma_fundamental_div_mod_converse(
            fp_int(w, lo, hi, off),
            m,
            w[hi - 1] as int,
            fp_int(w, lo, hi - 1, off),
        );
        assert(v[hi - 1] == w[hi - 1]);
        lemma_fp_int_injective(v, w, lo, hi - 1, off);
    }
}

/// On valid six-color states the fingerprint is injective: each facelet
/// occupies its own three-bit field of one of the three words, so equal
/// fingerprints mean equal states. Fingerprint collisions can therefore
/// only involve states that carry colors outside the six face colors.
pub proof fn lemma_fingerprint_injective(v: Seq<u8>, w: Seq<u8>)
    requires
        valid_colors(v),
        valid_colors(w),
        spec_fingerprint(v) == spec_fingerprint(w),
    ensures
        v == w,
{
    lemma_fp_acc_is_int(v, 0, 21, 0);
    lemma_fp_acc_is_int(w, 0, 21, 0);
    lemma_fp_int_injective(v, w, 0, 21, 0);
    lemma_fp_acc_is_int(v, 21, 40, 1);
    lemma_fp_acc_is_int(w, 21, 40, 1);
    lemma_fp_int_injective(v, w, 21, 40, 1);
    lemma_fp_acc_is_int(v, 40, 48, 1);
    lemma_fp_acc_is_int(w, 40, 48, 1);
    lemma_fp_int_injective(v, w, 40, 48, 1);
    assert(v =~= w);
}

} // verus!
