//! The bit-serial multi-scalar multiplication, step by step.
//!
//! Each instruction of the accumulator engine advances a Jacobian
//! accumulator over four consecutive big-endian bit positions of one scalar.
//! Positions inside the scalar's leading-zero region do nothing; from the
//! most significant set bit on, every position doubles the accumulator and,
//! on a set bit, adds the pair's fixed affine point. This module defines
//! that step semantics, the reference double-and-add it must reproduce, and
//! proves them equal however the scalar's leading zeros fall.

use crate::curve::{
    add_jac_val, add_mixed_val, jac_double_val, jac_to_affine_val, jac_zero_val,
    scratch_to_affine_val, theorem_two_phase_affine, AffVal, JacVal,
};
use crate::field::{f_mul, fq_p, scalar_bit_be, Fr};
use vstd::arithmetic::power2::lemma_pow2_pos;
use vstd::prelude::*;

verus! {

/// The first big-endian bit position at or after `j` where `s` has a set
/// bit, or 256 when there is none.
pub open spec fn first_set_bit_from(s: int, j: int) -> int
    decreases 256 - j,
{
    if j < 0 || j >= 256 {
        256
    } else if scalar_bit_be(s, j) {
        j
    } else {
        first_set_bit_from(s, j + 1)
    }
}

/// The length of the leading-zero region of the 256-bit big-endian
/// expansion of `s`: every position before it is an unset bit, and the
/// position itself, if any, is a set bit.
pub open spec fn skipped_bits(s: int) -> int {
    first_set_bit_from(s, 0)
}

/// What `first_set_bit_from` returns: the earliest set position.
pub proof fn lemma_first_set_bit_from(s: int, j: int)
    requires
        0 <= j <= 256,
    ensures
        j <= first_set_bit_from(s, j) <= 256,
        forall|i: int| j <= i < first_set_bit_from(s, j) ==> !scalar_bit_be(s, i),
        first_set_bit_from(s, j) < 256 ==> scalar_bit_be(s, first_set_bit_from(s, j)),
    decreases 256 - j,
{
    if j < 256 && !scalar_bit_be(s, j) {
        lemma_first_set_bit_from(s, j + 1);
    }
}

/// One accumulator step at big-endian position `idx`: nothing inside the
/// leading-zero region; otherwise a doubling and, on a set bit, a mixed
/// addition of the pair's point.
pub open spec fn bit_step_val(res: JacVal, q: AffVal, s: int, idx: int) -> JacVal {
    if idx < skipped_bits(s) {
        res
    } else {
        let d = jac_double_val(res);
        if scalar_bit_be(s, idx) {
            add_mixed_val(d, q)
        } else {
            d
        }
    }
}

/// `count` consecutive accumulator steps starting at position `from`.
pub open spec fn bit_steps_val(res: JacVal, q: AffVal, s: int, from: int, count: nat) -> JacVal
    decreases count,
{
    if count == 0 {
        res
    } else {
        bit_steps_val(bit_step_val(res, q, s, from), q, s, from + 1, (count - 1) as nat)
    }
}

/// One step of the reference double-and-add, with no skip region.
pub open spec fn plain_step_val(res: JacVal, q: AffVal, s: int, idx: int) -> JacVal {
    let d = jac_double_val(res);
    if scalar_bit_be(s, idx) {
        add_mixed_val(d, q)
    } else {
        d
    }
}

/// `count` consecutive reference steps starting at position `from`.
pub open spec fn plain_steps_val(res: JacVal, q: AffVal, s: int, from: int, count: nat) -> JacVal
    decreases count,
{
    if count == 0 {
        res
    } else {
        plain_steps_val(plain_step_val(res, q, s, from), q, s, from + 1, (count - 1) as nat)
    }
}

/// The reference product `s · q`: a double-and-add over the big-endian bits
/// of `s` starting at its most significant set bit, from the
/// all-zero-encoded point at infinity.
pub open spec fn msm_val(q: AffVal, s: int) -> JacVal {
    plain_steps_val(
        jac_zero_val(),
        q,
        s,
        skipped_bits(s),
        (256 - skipped_bits(s)) as nat,
    )
}

/// Steps compose: running `a + b` steps is running `a`, then `b` more.
pub proof fn lemma_bit_steps_concat(res: JacVal, q: AffVal, s: int, from: int, a: nat, b: nat)
    ensures
        bit_steps_val(res, q, s, from, (a + b) as nat) == bit_steps_val(
            bit_steps_val(res, q, s, from, a),
            q,
            s,
            from + a,
            b,
        ),
    decreases a,
{
    if a > 0 {
        lemma_bit_steps_concat(bit_step_val(res, q, s, from), q, s, from + 1, (a - 1) as nat, b);
    }
}

/// Steps that lie inside the leading-zero region do not move the
/// accumulator.
pub proof fn lemma_bit_steps_in_skip_region(res: JacVal, q: AffVal, s: int, from: int, count: nat)
    requires
        0 <= from,
        from + count <= skipped_bits(s),
    ensures
        bit_steps_val(res, q, s, from, count) == res,
    decreases count,
{
    if count > 0 {
        lemma_bit_steps_in_skip_region(res, q, s, from + 1, (count - 1) as nat);
    }
}

/// From the most significant set bit on, the skip-aware steps are the
/// reference steps.
pub proof fn lemma_bit_steps_past_skip_region(res: JacVal, q: AffVal, s: int, from: int, count: nat)
    requires
        from >= skipped_bits(s),
    ensures
        bit_steps_val(res, q, s, from, count) == plain_steps_val(res, q, s, from, count),
    decreases count,
{
    if count > 0 {
        lemma_bit_steps_past_skip_region(
            plain_step_val(res, q, s, from),
            q,
            s,
            from + 1,
            (count - 1) as nat,
        );
    }
}

/// The zero scalar has no set bit.
pub proof fn lemma_zero_scalar_bits(j: int)
    requires
        0 <= j < 256,
    ensures
        !scalar_bit_be(0, j),
        skipped_bits(0) == 256,
{
    assert forall|i: int| 0 <= i < 256 implies !scalar_bit_be(0, i) by {
        lemma_pow2_pos((255 - i) as nat);
        let p = vstd::arithmetic::power2::pow2((255 - i) as nat) as int;
        assert(0int / p == 0) by {
            vstd::arithmetic::div_mod::lemma_div_of0(p);
        }
    }
    lemma_first_set_bit_from(0, 0);
    if skipped_bits(0) < 256 {
        assert(scalar_bit_be(0, skipped_bits(0)));
    }
}

/// Leading-zero invariance: driving the skip-aware step across all 256
/// big-endian positions, from the all-zero accumulator, lands exactly where
/// the reference double-and-add from the most significant set bit lands;
/// and for the zero scalar the accumulator never moves at all.
pub proof fn theorem_leading_zero_invariance(q: AffVal, s: int)
    ensures
        bit_steps_val(jac_zero_val(), q, s, 0, 256) == msm_val(q, s),
        s == 0 ==> bit_steps_val(jac_zero_val(), q, s, 0, 256) == jac_zero_val(),
{
    lemma_first_set_bit_from(s, 0);
    let skip = skipped_bits(s);
    lemma_bit_steps_concat(jac_zero_val(), q, s, 0, skip as nat, (256 - skip) as nat);
    lemma_bit_steps_in_skip_region(jac_zero_val(), q, s, 0, skip as nat);
    lemma_bit_steps_past_skip_region(jac_zero_val(), q, s, skip, (256 - skip) as nat);
    if s == 0 {
        lemma_zero_scalar_bits(0);
    }
}

/// The accumulator after `k` four-bit instructions of one pair, from the
/// reset.
pub open spec fn chunked_msm_val(q: AffVal, s: int, k: int) -> JacVal
    decreases k,
{
    if k <= 0 {
        jac_zero_val()
    } else {
        bit_steps_val(chunked_msm_val(q, s, k - 1), q, s, 4 * (k - 1), 4)
    }
}

/// `k` four-bit instructions are `4k` single steps.
pub proof fn lemma_chunked_msm(q: AffVal, s: int, k: int)
    requires
        0 <= k <= 64,
    ensures
        chunked_msm_val(q, s, k) == bit_steps_val(jac_zero_val(), q, s, 0, (4 * k) as nat),
    decreases k,
{
    if k > 0 {
        lemma_chunked_msm(q, s, k - 1);
        lemma_bit_steps_concat(jac_zero_val(), q, s, 0, (4 * (k - 1)) as nat, 4);
    }
}

/// One pair, end to end: resetting the accumulator, running its 64 four-bit
/// instructions and folding the result into `g` adds exactly the reference
/// product `s · q` to `g`.
pub proof fn theorem_pair_instructions(g: JacVal, q: AffVal, s: int)
    ensures
        add_jac_val(g, chunked_msm_val(q, s, 64)) == add_jac_val(g, msm_val(q, s)),
        chunked_msm_val(q, s, 64) == msm_val(q, s),
{
    lemma_chunked_msm(q, s, 64);
    theorem_leading_zero_invariance(q, s);
}

/// The running sum after folding the first `k` pairs' reference products
/// into the initial `g_ic`.
pub open spec fn fold_msm_val(g0: JacVal, qs: Seq<AffVal>, ss: Seq<int>, k: int) -> JacVal
    decreases k,
{
    if k <= 0 {
        g0
    } else {
        add_jac_val(fold_msm_val(g0, qs, ss, k - 1), msm_val(qs[k - 1], ss[k - 1]))
    }
}

/// The running sum after the first `k` pairs' instruction sequences.
pub open spec fn fold_chunked_val(g0: JacVal, qs: Seq<AffVal>, ss: Seq<int>, k: int) -> JacVal
    decreases k,
{
    if k <= 0 {
        g0
    } else {
        add_jac_val(fold_chunked_val(g0, qs, ss, k - 1), chunked_msm_val(qs[k - 1], ss[k - 1], 64))
    }
}

/// End-to-end equivalence of the staged pipeline with a single-shot
/// multi-scalar multiplication: for every initial `g_ic` and every sequence
/// of pairs, interleaving per-pair resets, 64 four-bit instructions and a
/// fold gives the same value as folding each pair's reference double-and-add
/// product in order.
pub proof fn theorem_pipeline_equals_msm(g0: JacVal, qs: Seq<AffVal>, ss: Seq<int>, k: int)
    ensures
        fold_chunked_val(g0, qs, ss, k) == fold_msm_val(g0, qs, ss, k),
    decreases k,
{
    if k > 0 {
        theorem_pipeline_equals_msm(g0, qs, ss, k - 1);
        theorem_pair_instructions(fold_msm_val(g0, qs, ss, k - 1), qs[k - 1], ss[k - 1]);
    }
}

/// The complete program, affine ending included: fold every pair's
/// instruction-sequence product into the initial `g_ic`, then normalize
/// with any value `w` that inverts the resulting `z` coordinate — which is
/// what the first affine phase checkpoints — and the second phase's output
/// is exactly the affine form of the single-shot multi-scalar sum.
pub proof fn theorem_pipeline_affine_output(
    g0: JacVal,
    qs: Seq<AffVal>,
    ss: Seq<int>,
    k: int,
    w: int,
)
    requires
        0 <= w < fq_p(),
        f_mul(fold_chunked_val(g0, qs, ss, k).z, w) == 1,
    ensures
        scratch_to_affine_val(
            JacVal {
                x: fold_chunked_val(g0, qs, ss, k).x,
                y: fold_chunked_val(g0, qs, ss, k).y,
                z: w,
            },
        ) == jac_to_affine_val(fold_msm_val(g0, qs, ss, k)),
{
    theorem_pipeline_equals_msm(g0, qs, ss, k);
    theorem_two_phase_affine(fold_msm_val(g0, qs, ss, k), w);
}

/// Finds the length of the scalar's leading-zero region.
pub fn count_leading_zeros(s: &Fr) -> (r: usize)
    ensures
        r == skipped_bits(s@),
{
    let mut j: usize = 0;
    while j < 256
        invariant
            j <= 256,
            forall|i: int| 0 <= i < j ==> !scalar_bit_be(s@, i),
        decreases 256 - j,
    {
        if s.bit_be(j) {
            proof {
                lemma_first_set_bit_from(s@, 0);
                if skipped_bits(s@) < j {
                    assert(scalar_bit_be(s@, skipped_bits(s@)));
                }
            }
            return j;
        }
        j = j + 1;
    }
    proof {
        lemma_first_set_bit_from(s@, 0);
        if skipped_bits(s@) < 256 {
            assert(scalar_bit_be(s@, skipped_bits(s@)));
        }
    }
    256
}

} // verus!
