//! The six instructions of the prepare-inputs pipeline.
//!
//! Each instruction reads a handful of byte ranges of the persistent state,
//! does a bounded amount of field work, and writes back the ranges it owns;
//! the dispatcher runs them in the fixed order: the initializer once, then
//! per pair an accumulator reset, 64 four-bit accumulator instructions and a
//! fold, and finally the two affine-normalization phases. Every failure is
//! fatal: nothing is written on an error.

use crate::curve::{
    add_jac, add_jac_val, add_mixed, affine_enc, affine_range_valid, affine_to_jac, decode_g1_affine,
    decode_g1_jac, decoded_affine, decoded_jac, encode_g1_affine, encode_g1_jac, g1_double,
    g1_jac_zero, jac_ranges_valid, scalar_range_valid, scratch_to_affine_val, G1Affine,
};
use crate::field::{
    f_inv, f_mul, fq_encode, fq_inverse, fq_is_zero, fq_mul, fq_square, fr_decode, fr_encode,
    lemma_f_inv_characterized, Fr,
};
use crate::le_bytes::le_val;
use crate::msm::{bit_step_val, bit_steps_val, count_leading_zeros, lemma_bit_steps_concat,
    skipped_bits};
use vstd::prelude::*;

verus! {

/// Why an instruction failed; every failure is fatal to its transaction and
/// nothing is written back.
#[derive(Clone, Copy, Debug, PartialEq, Eq)]
pub enum PrepareInputsError {
    /// The commitment table does not hold one point more than there are
    /// public inputs.
    MalformedVerifyingKey,
    /// A byte range does not decode to a canonical field element.
    DecodeError,
    /// The folded sum reached the affine normalizer as the point at
    /// infinity.
    ZeroAccumulator,
}

/// The one-time initializer: checkpoints the seven public-input scalars and
/// the commitment points one through seven into their ranges, and starts
/// `g_ic` as the zeroth commitment point in Jacobian form.
pub fn init_pairs_instruction(
    public_inputs: &Vec<Fr>,
    ic_points: &Vec<G1Affine>,
    i_1_range: &mut Vec<u8>,
    x_1_range: &mut Vec<u8>,
    i_2_range: &mut Vec<u8>,
    x_2_range: &mut Vec<u8>,
    i_3_range: &mut Vec<u8>,
    x_3_range: &mut Vec<u8>,
    i_4_range: &mut Vec<u8>,
    x_4_range: &mut Vec<u8>,
    i_5_range: &mut Vec<u8>,
    x_5_range: &mut Vec<u8>,
    i_6_range: &mut Vec<u8>,
    x_6_range: &mut Vec<u8>,
    i_7_range: &mut Vec<u8>,
    x_7_range: &mut Vec<u8>,
    g_ic_x_range: &mut Vec<u8>,
    g_ic_y_range: &mut Vec<u8>,
    g_ic_z_range: &mut Vec<u8>,
) -> (r: Result<(), PrepareInputsError>)
    requires
        ic_points@.len() == 8,
        forall|k: int| 0 <= k < 8 ==> (#[trigger] ic_points@[k]).wf() && !ic_points@[k].infinity,
        old(i_1_range)@.len() == 32,
        old(i_2_range)@.len() == 32,
        old(i_3_range)@.len() == 32,
        old(i_4_range)@.len() == 32,
        old(i_5_range)@.len() == 32,
        old(i_6_range)@.len() == 32,
        old(i_7_range)@.len() == 32,
        old(x_1_range)@.len() == 64,
        old(x_2_range)@.len() == 64,
        old(x_3_range)@.len() == 64,
        old(x_4_range)@.len() == 64,
        old(x_5_range)@.len() == 64,
        old(x_6_range)@.len() == 64,
        old(x_7_range)@.len() == 64,
        old(g_ic_x_range)@.len() == 32,
        old(g_ic_y_range)@.len() == 32,
        old(g_ic_z_range)@.len() == 32,
    ensures
        r is Ok <==> public_inputs@.len() == 7,
        r matches Err(e) ==> e == PrepareInputsError::MalformedVerifyingKey,
        r is Err ==> {
            &&& final(i_1_range)@ == old(i_1_range)@ && final(x_1_range)@ == old(x_1_range)@
            &&& final(i_2_range)@ == old(i_2_range)@ && final(x_2_range)@ == old(x_2_range)@
            &&& final(i_3_range)@ == old(i_3_range)@ && final(x_3_range)@ == old(x_3_range)@
            &&& final(i_4_range)@ == old(i_4_range)@ && final(x_4_range)@ == old(x_4_range)@
            &&& final(i_5_range)@ == old(i_5_range)@ && final(x_5_range)@ == old(x_5_range)@
            &&& final(i_6_range)@ == old(i_6_range)@ && final(x_6_range)@ == old(x_6_range)@
            &&& final(i_7_range)@ == old(i_7_range)@ && final(x_7_range)@ == old(x_7_range)@
            &&& final(g_ic_x_range)@ == old(g_ic_x_range)@
            &&& final(g_ic_y_range)@ == old(g_ic_y_range)@
            &&& final(g_ic_z_range)@ == old(g_ic_z_range)@
        },
        r is Ok ==> {
            &&& final(i_1_range)@ == public_inputs@[0].bytes@
            &&& final(i_2_range)@ == public_inputs@[1].bytes@
            &&& final(i_3_range)@ == public_inputs@[2].bytes@
            &&& final(i_4_range)@ == public_inputs@[3].bytes@
            &&& final(i_5_range)@ == public_inputs@[4].bytes@
            &&& final(i_6_range)@ == public_inputs@[5].bytes@
            &&& final(i_7_range)@ == public_inputs@[6].bytes@
            &&& final(x_1_range)@ == affine_enc(ic_points@[1])
            &&& final(x_2_range)@ == affine_enc(ic_points@[2])
            &&& final(x_3_range)@ == affine_enc(ic_points@[3])
            &&& final(x_4_range)@ == affine_enc(ic_points@[4])
            &&& final(x_5_range)@ == affine_enc(ic_points@[5])
            &&& final(x_6_range)@ == affine_enc(ic_points@[6])
            &&& final(x_7_range)@ == affine_enc(ic_points@[7])
            &&& final(g_ic_x_range)@ == ic_points@[0].x.bytes@
            &&& final(g_ic_y_range)@ == ic_points@[0].y.bytes@
            &&& final(g_ic_z_range)@.len() == 32
            &&& le_val(final(g_ic_z_range)@) == 1
        },
{
    if public_inputs.len() != 7 {
        return Err(PrepareInputsError::MalformedVerifyingKey);
    }
    let g_ic = affine_to_jac(&ic_points[0]);
    encode_g1_jac(&g_ic, g_ic_x_range, g_ic_y_range, g_ic_z_range);
    fr_encode(&public_inputs[0], i_1_range);
    fr_encode(&public_inputs[1], i_2_range);
    fr_encode(&public_inputs[2], i_3_range);
    fr_encode(&public_inputs[3], i_4_range);
    fr_encode(&public_inputs[4], i_5_range);
    fr_encode(&public_inputs[5], i_6_range);
    fr_encode(&public_inputs[6], i_7_range);
    encode_g1_affine(&ic_points[1], x_1_range);
    encode_g1_affine(&ic_points[2], x_2_range);
    encode_g1_affine(&ic_points[3], x_3_range);
    encode_g1_affine(&ic_points[4], x_4_range);
    encode_g1_affine(&ic_points[5], x_5_range);
    encode_g1_affine(&ic_points[6], x_6_range);
    encode_g1_affine(&ic_points[7], x_7_range);
    Ok(())
}

/// The accumulator reset: writes the all-zero Jacobian triple — the point
/// at infinity — over the three `res` ranges. Runs once per pair, before
/// its 64 accumulator instructions.
pub fn init_res_instruction(
    res_x_range: &mut Vec<u8>,
    res_y_range: &mut Vec<u8>,
    res_z_range: &mut Vec<u8>,
)
    requires
        old(res_x_range)@.len() == 32,
        old(res_y_range)@.len() == 32,
        old(res_z_range)@.len() == 32,
    ensures
        final(res_x_range)@.len() == 32 && le_val(final(res_x_range)@) == 0,
        final(res_y_range)@.len() == 32 && le_val(final(res_y_range)@) == 0,
        final(res_z_range)@.len() == 32 && le_val(final(res_z_range)@) == 0,
{
    let zero = g1_jac_zero();
    encode_g1_jac(&zero, res_x_range, res_y_range, res_z_range);
}

/// One accumulator instruction: advances `res` over the four big-endian bit
/// positions `current_index .. current_index + 4` of the pair's scalar,
/// skipping positions inside the scalar's leading-zero region, doubling on
/// every position past it and adding the pair's point on set bits.
///
/// The leading-zero strip and the addition formulas branch on the scalar
/// and coordinate values: nothing here is constant-time, by design.
pub fn maths_instruction(
    res_x_range: &mut Vec<u8>,
    res_y_range: &mut Vec<u8>,
    res_z_range: &mut Vec<u8>,
    i_range: &Vec<u8>,
    x_range: &Vec<u8>,
    current_index: usize,
) -> (r: Result<(), PrepareInputsError>)
    requires
        old(res_x_range)@.len() == 32,
        old(res_y_range)@.len() == 32,
        old(res_z_range)@.len() == 32,
        i_range@.len() == 32,
        x_range@.len() == 64,
        current_index <= 252,
    ensures
        r is Ok <==> jac_ranges_valid(old(res_x_range)@, old(res_y_range)@, old(res_z_range)@)
            && affine_range_valid(x_range@) && scalar_range_valid(i_range@),
        r matches Err(e) ==> e == PrepareInputsError::DecodeError,
        r is Err ==> final(res_x_range)@ == old(res_x_range)@ && final(res_y_range)@ == old(
            res_y_range,
        )@ && final(res_z_range)@ == old(res_z_range)@,
        r is Ok ==> {
            let after = bit_steps_val(
                decoded_jac(old(res_x_range)@, old(res_y_range)@, old(res_z_range)@),
                decoded_affine(x_range@),
                le_val(i_range@) as int,
                current_index as int,
                4,
            );
            &&& final(res_x_range)@.len() == 32 && le_val(final(res_x_range)@) == after.x
            &&& final(res_y_range)@.len() == 32 && le_val(final(res_y_range)@) == after.y
            &&& final(res_z_range)@.len() == 32 && le_val(final(res_z_range)@) == after.z
        },
{
    let res_opt = decode_g1_jac(res_x_range, res_y_range, res_z_range);
    let x_opt = decode_g1_affine(x_range);
    let i_opt = fr_decode(i_range);
    let mut res = match res_opt {
        Some(p) => p,
        None => {
            return Err(PrepareInputsError::DecodeError);
        },
    };
    let x = match x_opt {
        Some(q) => q,
        None => {
            return Err(PrepareInputsError::DecodeError);
        },
    };
    let i = match i_opt {
        Some(s) => s,
        None => {
            return Err(PrepareInputsError::DecodeError);
        },
    };
    let ghost res0 = res@;
    let ghost q = x@;
    let ghost sv = i@;
    proof {
        assert(res0 == decoded_jac(res_x_range@, res_y_range@, res_z_range@));
        assert(q == decoded_affine(x_range@));
        assert(sv == le_val(i_range@) as int);
    }
    let skipped = count_leading_zeros(&i);
    let mut m: usize = 0;
    while m < 4
        invariant
            m <= 4,
            current_index <= 252,
            res.wf(),
            x.wf(),
            !x.infinity,
            x@ == q,
            i@ == sv,
            skipped == skipped_bits(sv),
            res@ == bit_steps_val(res0, q, sv, current_index as int, m as nat),
        decreases 4 - m,
    {
        let idx: usize = current_index + m;
        let ghost before = res@;
        if idx >= skipped {
            res = g1_double(&res);
            if i.bit_be(idx) {
                add_mixed(&mut res, &x);
            }
        }
        proof {
            reveal_with_fuel(bit_steps_val, 3);
            assert(res@ == bit_step_val(before, q, sv, idx as int));
            lemma_bit_steps_concat(res0, q, sv, current_index as int, m as nat, 1);
            assert(res@ == bit_steps_val(res0, q, sv, current_index as int, (m + 1) as nat));
        }
        m = m + 1;
    }
    encode_g1_jac(&res, res_x_range, res_y_range, res_z_range);
    Ok(())
}

/// The fold: `g_ic += res` by full Jacobian addition, once per pair, after
/// its 64 accumulator instructions.
pub fn maths_g_ic_instruction(
    g_ic_x_range: &mut Vec<u8>,
    g_ic_y_range: &mut Vec<u8>,
    g_ic_z_range: &mut Vec<u8>,
    res_x_range: &Vec<u8>,
    res_y_range: &Vec<u8>,
    res_z_range: &Vec<u8>,
) -> (r: Result<(), PrepareInputsError>)
    requires
        old(g_ic_x_range)@.len() == 32,
        old(g_ic_y_range)@.len() == 32,
        old(g_ic_z_range)@.len() == 32,
        res_x_range@.len() == 32,
        res_y_range@.len() == 32,
        res_z_range@.len() == 32,
    ensures
        r is Ok <==> jac_ranges_valid(old(g_ic_x_range)@, old(g_ic_y_range)@, old(g_ic_z_range)@)
            && jac_ranges_valid(res_x_range@, res_y_range@, res_z_range@),
        r matches Err(e) ==> e == PrepareInputsError::DecodeError,
        r is Err ==> final(g_ic_x_range)@ == old(g_ic_x_range)@ && final(g_ic_y_range)@ == old(
            g_ic_y_range,
        )@ && final(g_ic_z_range)@ == old(g_ic_z_range)@,
        r is Ok ==> {
            let after = add_jac_val(
                decoded_jac(old(g_ic_x_range)@, old(g_ic_y_range)@, old(g_ic_z_range)@),
                decoded_jac(res_x_range@, res_y_range@, res_z_range@),
            );
            &&& final(g_ic_x_range)@.len() == 32 && le_val(final(g_ic_x_range)@) == after.x
            &&& final(g_ic_y_range)@.len() == 32 && le_val(final(g_ic_y_range)@) == after.y
            &&& final(g_ic_z_range)@.len() == 32 && le_val(final(g_ic_z_range)@) == after.z
        },
{
    let g_opt = decode_g1_jac(g_ic_x_range, g_ic_y_range, g_ic_z_range);
    let res_opt = decode_g1_jac(res_x_range, res_y_range, res_z_range);
    let mut g_ic = match g_opt {
        Some(p) => p,
        None => {
            return Err(PrepareInputsError::DecodeError);
        },
    };
    let res = match res_opt {
        Some(p) => p,
        None => {
            return Err(PrepareInputsError::DecodeError);
        },
    };
    add_jac(&mut g_ic, &res);
    encode_g1_jac(&g_ic, g_ic_x_range, g_ic_y_range, g_ic_z_range);
    Ok(())
}

/// The first affine-normalization phase: replaces the `z` coordinate of
/// `g_ic` by its field inverse, leaving `x` and `y` as they are. The
/// resulting triple is a scratch checkpoint for the second phase, not a
/// Jacobian point. Fails with `ZeroAccumulator` when `g_ic` is the point at
/// infinity, which the surrounding verifier does not accept.
pub fn g_ic_into_affine_1(
    g_ic_x_range: &mut Vec<u8>,
    g_ic_y_range: &mut Vec<u8>,
    g_ic_z_range: &mut Vec<u8>,
) -> (r: Result<(), PrepareInputsError>)
    requires
        old(g_ic_x_range)@.len() == 32,
        old(g_ic_y_range)@.len() == 32,
        old(g_ic_z_range)@.len() == 32,
    ensures
        r is Ok <==> jac_ranges_valid(old(g_ic_x_range)@, old(g_ic_y_range)@, old(g_ic_z_range)@)
            && le_val(old(g_ic_z_range)@) != 0,
        !jac_ranges_valid(old(g_ic_x_range)@, old(g_ic_y_range)@, old(g_ic_z_range)@)
            ==> (r matches Err(e) && e == PrepareInputsError::DecodeError),
        jac_ranges_valid(old(g_ic_x_range)@, old(g_ic_y_range)@, old(g_ic_z_range)@) && le_val(
            old(g_ic_z_range)@,
        ) == 0 ==> (r matches Err(e) && e == PrepareInputsError::ZeroAccumulator),
        r is Err ==> final(g_ic_x_range)@ == old(g_ic_x_range)@ && final(g_ic_y_range)@ == old(
            g_ic_y_range,
        )@ && final(g_ic_z_range)@ == old(g_ic_z_range)@,
        r is Ok ==> {
            &&& final(g_ic_x_range)@ == old(g_ic_x_range)@
            &&& final(g_ic_y_range)@ == old(g_ic_y_range)@
            &&& final(g_ic_z_range)@.len() == 32
            &&& le_val(final(g_ic_z_range)@) == f_inv(le_val(old(g_ic_z_range)@) as int)
            &&& f_mul(le_val(old(g_ic_z_range)@) as int, le_val(final(g_ic_z_range)@) as int)
                == 1
        },
{
    let g_opt = decode_g1_jac(g_ic_x_range, g_ic_y_range, g_ic_z_range);
    let g_ic = match g_opt {
        Some(p) => p,
        None => {
            return Err(PrepareInputsError::DecodeError);
        },
    };
    if fq_is_zero(&g_ic.z) {
        return Err(PrepareInputsError::ZeroAccumulator);
    }
    let zinv_opt = fq_inverse(&g_ic.z);
    match zinv_opt {
        Some(zinv) => {
            proof {
                lemma_f_inv_characterized(g_ic.z@, zinv@);
            }
            fq_encode(&zinv, g_ic_z_range);
            Ok(())
        },
        None => {
            proof {
                assert(false);
            }
            Err(PrepareInputsError::ZeroAccumulator)
        },
    }
}

/// The second affine-normalization phase: reads the scratch triple
/// `(x, y, zinv)` left by the first phase and overwrites the first pair's
/// point range with the affine point `(x·zinv², y·zinv³)` — the final
/// `g_ic` handed to the downstream pairing stage.
pub fn g_ic_into_affine_2(
    g_ic_x_range: &Vec<u8>,
    g_ic_y_range: &Vec<u8>,
    g_ic_z_range: &Vec<u8>,
    x_1_range: &mut Vec<u8>,
) -> (r: Result<(), PrepareInputsError>)
    requires
        g_ic_x_range@.len() == 32,
        g_ic_y_range@.len() == 32,
        g_ic_z_range@.len() == 32,
        old(x_1_range)@.len() == 64,
    ensures
        r is Ok <==> jac_ranges_valid(g_ic_x_range@, g_ic_y_range@, g_ic_z_range@),
        r matches Err(e) ==> e == PrepareInputsError::DecodeError,
        r is Err ==> final(x_1_range)@ == old(x_1_range)@,
        r is Ok ==> {
            let aff = scratch_to_affine_val(
                decoded_jac(g_ic_x_range@, g_ic_y_range@, g_ic_z_range@),
            );
            &&& final(x_1_range)@.len() == 64
            &&& le_val(final(x_1_range)@.subrange(0, 32)) == aff.x
            &&& le_val(final(x_1_range)@.subrange(32, 64)) == aff.y
        },
{
    let g_opt = decode_g1_jac(g_ic_x_range, g_ic_y_range, g_ic_z_range);
    let g_ic = match g_opt {
        Some(p) => p,
        None => {
            return Err(PrepareInputsError::DecodeError);
        },
    };
    let zinv_squared = fq_square(&g_ic.z);
    let x = fq_mul(&g_ic.x, &zinv_squared);
    let y = fq_mul(&g_ic.y, &fq_mul(&zinv_squared, &g_ic.z));
    let g_ic_affine = G1Affine { x, y, infinity: false };
    encode_g1_affine(&g_ic_affine, x_1_range);
    Ok(())
}

} // verus!
