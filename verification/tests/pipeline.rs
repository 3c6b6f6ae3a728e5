//! End-to-end tests of the staged pipeline against a single-shot
//! multi-scalar multiplication computed directly with the arkworks types.

use ark_ec::{AffineCurve, ProjectiveCurve};
use ark_ff::{Field, One, PrimeField, ToBytes, Zero};
use prepare_inputs::curve::G1Affine;
use prepare_inputs::field::{Fq, Fr};
use prepare_inputs::instructions::{
    g_ic_into_affine_1, g_ic_into_affine_2, init_pairs_instruction, init_res_instruction,
    maths_g_ic_instruction, maths_instruction, PrepareInputsError,
};

type ArkFq = ark_bn254::Fq;
type ArkFr = ark_ed_on_bn254::Fq;
type ArkG1Affine = ark_bn254::G1Affine;
type ArkG1Projective = ark_bn254::G1Projective;

fn fq_bytes(a: &ArkFq) -> [u8; 32] {
    let mut b = [0u8; 32];
    a.write(&mut b[..]).unwrap();
    b
}

fn fr_bytes(s: &ArkFr) -> [u8; 32] {
    let mut b = [0u8; 32];
    s.write(&mut b[..]).unwrap();
    b
}

fn lib_affine(p: &ArkG1Affine) -> G1Affine {
    G1Affine {
        x: Fq { bytes: fq_bytes(&p.x) },
        y: Fq { bytes: fq_bytes(&p.y) },
        infinity: p.infinity,
    }
}

fn lib_scalar(s: &ArkFr) -> Fr {
    Fr { bytes: fr_bytes(s) }
}

fn affine_enc_bytes(p: &ArkG1Affine) -> Vec<u8> {
    let mut out = Vec::new();
    out.extend_from_slice(&fq_bytes(&p.x));
    out.extend_from_slice(&fq_bytes(&p.y));
    out
}

/// A fixed commitment table: small multiples of the generator.
fn test_ic_table() -> Vec<ArkG1Affine> {
    let g = ArkG1Affine::prime_subgroup_generator();
    (0..8u64)
        .map(|k| g.mul(ark_bn254::Fr::from(3 * k + 5).into_repr()).into_affine())
        .collect()
}

/// The reference single-shot computation:
/// `IC[0] + sum of scalar_k * IC[k]`, in affine form.
fn reference_g_ic(scalars: &[ArkFr], ics: &[ArkG1Affine]) -> ArkG1Affine {
    let mut g: ArkG1Projective = ics[0].into_projective();
    for (s, p) in scalars.iter().zip(ics.iter().skip(1)) {
        g += p.mul(s.into_repr());
    }
    g.into_affine()
}

/// Drives the full instruction sequence and returns the final contents of
/// the first pair's point range, which carries the affine result.
fn run_pipeline(scalars: &[ArkFr], ics: &[ArkG1Affine]) -> Vec<u8> {
    let public_inputs: Vec<Fr> = scalars.iter().map(lib_scalar).collect();
    let ic_points: Vec<G1Affine> = ics.iter().map(lib_affine).collect();

    let mut i_1 = vec![0u8; 32];
    let mut x_1 = vec![0u8; 64];
    let mut i_2 = vec![0u8; 32];
    let mut x_2 = vec![0u8; 64];
    let mut i_3 = vec![0u8; 32];
    let mut x_3 = vec![0u8; 64];
    let mut i_4 = vec![0u8; 32];
    let mut x_4 = vec![0u8; 64];
    let mut i_5 = vec![0u8; 32];
    let mut x_5 = vec![0u8; 64];
    let mut i_6 = vec![0u8; 32];
    let mut x_6 = vec![0u8; 64];
    let mut i_7 = vec![0u8; 32];
    let mut x_7 = vec![0u8; 64];
    let mut g_x = vec![0u8; 32];
    let mut g_y = vec![0u8; 32];
    let mut g_z = vec![0u8; 32];
    let mut r_x = vec![0u8; 32];
    let mut r_y = vec![0u8; 32];
    let mut r_z = vec![0u8; 32];

    init_pairs_instruction(
        &public_inputs,
        &ic_points,
        &mut i_1,
        &mut x_1,
        &mut i_2,
        &mut x_2,
        &mut i_3,
        &mut x_3,
        &mut i_4,
        &mut x_4,
        &mut i_5,
        &mut x_5,
        &mut i_6,
        &mut x_6,
        &mut i_7,
        &mut x_7,
        &mut g_x,
        &mut g_y,
        &mut g_z,
    )
    .unwrap();

    for k in 0..7usize {
        init_res_instruction(&mut r_x, &mut r_y, &mut r_z);
        for step in 0..64usize {
            let ci = 4 * step;
            let (i_r, x_r) = match k {
                0 => (&i_1, &x_1),
                1 => (&i_2, &x_2),
                2 => (&i_3, &x_3),
                3 => (&i_4, &x_4),
                4 => (&i_5, &x_5),
                5 => (&i_6, &x_6),
                _ => (&i_7, &x_7),
            };
            maths_instruction(&mut r_x, &mut r_y, &mut r_z, i_r, x_r, ci).unwrap();
        }
        maths_g_ic_instruction(&mut g_x, &mut g_y, &mut g_z, &r_x, &r_y, &r_z).unwrap();
    }

    g_ic_into_affine_1(&mut g_x, &mut g_y, &mut g_z).unwrap();
    g_ic_into_affine_2(&g_x, &g_y, &g_z, &mut x_1).unwrap();
    x_1
}

#[test]
fn pipeline_matches_single_shot_msm() {
    let ics = test_ic_table();
    let scalars: Vec<ArkFr> = vec![
        ArkFr::from(1u64),
        ArkFr::from(0xdead_beef_u64),
        ArkFr::from(3u64) * ArkFr::from(u64::MAX) * ArkFr::from(u64::MAX),
        ArkFr::from(41u64),
        -ArkFr::from(12345u64),
        ArkFr::from(u64::MAX),
        ArkFr::from(2u64).pow([200u64]),
    ];
    let got = run_pipeline(&scalars, &ics);
    let want = affine_enc_bytes(&reference_g_ic(&scalars, &ics));
    assert_eq!(got, want);
}

#[test]
fn pipeline_all_zero_scalars_gives_first_commitment() {
    let ics = test_ic_table();
    let scalars: Vec<ArkFr> = vec![ArkFr::zero(); 7];
    let got = run_pipeline(&scalars, &ics);
    let want = affine_enc_bytes(&ics[0]);
    assert_eq!(got, want);
    let ref_want = affine_enc_bytes(&reference_g_ic(&scalars, &ics));
    assert_eq!(got, ref_want);
}

#[test]
fn pipeline_group_order_minus_one_subtracts() {
    let ics = test_ic_table();
    let mut scalars: Vec<ArkFr> = vec![ArkFr::zero(); 7];
    scalars[2] = -ArkFr::one();
    let got = run_pipeline(&scalars, &ics);
    // The fold reduces to g_ic = IC[0] - IC[3].
    let direct = (ics[0].into_projective() - ics[3].into_projective()).into_affine();
    assert_eq!(got, affine_enc_bytes(&direct));
    assert_eq!(got, affine_enc_bytes(&reference_g_ic(&scalars, &ics)));
}

#[test]
fn pipeline_scalar_with_zero_top_byte() {
    let ics = test_ic_table();
    let mut scalars: Vec<ArkFr> = vec![ArkFr::from(9u64); 7];
    // Values below 2^248 have a zero top byte and so a long leading-zero
    // region to strip.
    scalars[0] = ArkFr::from(2u64).pow([247u64]) + ArkFr::from(77u64);
    scalars[6] = ArkFr::from(1u64);
    let got = run_pipeline(&scalars, &ics);
    assert_eq!(got, affine_enc_bytes(&reference_g_ic(&scalars, &ics)));
}

#[test]
fn zero_scalar_leaves_accumulator_at_infinity_and_fold_keeps_g_ic() {
    // The leading-zero strip never runs for a zero scalar: all 64
    // instructions must keep the all-zero accumulator, and the fold must
    // keep g_ic exactly.
    let ics = test_ic_table();
    let ic_lib: Vec<G1Affine> = ics.iter().map(lib_affine).collect();
    let s = lib_scalar(&ArkFr::zero());
    let i_r = s.bytes.to_vec();
    let mut x_r = vec![0u8; 64];
    x_r[..32].copy_from_slice(&ic_lib[1].x.bytes);
    x_r[32..].copy_from_slice(&ic_lib[1].y.bytes);

    let mut r_x = vec![0u8; 32];
    let mut r_y = vec![0u8; 32];
    let mut r_z = vec![0u8; 32];
    init_res_instruction(&mut r_x, &mut r_y, &mut r_z);
    for step in 0..64usize {
        maths_instruction(&mut r_x, &mut r_y, &mut r_z, &i_r, &x_r, 4 * step).unwrap();
    }
    assert_eq!(r_x, vec![0u8; 32]);
    assert_eq!(r_y, vec![0u8; 32]);
    assert_eq!(r_z, vec![0u8; 32]);

    let mut g_x = ic_lib[0].x.bytes.to_vec();
    let mut g_y = ic_lib[0].y.bytes.to_vec();
    let mut g_z = vec![0u8; 32];
    g_z[0] = 1;
    let (g_x0, g_y0, g_z0) = (g_x.clone(), g_y.clone(), g_z.clone());
    maths_g_ic_instruction(&mut g_x, &mut g_y, &mut g_z, &r_x, &r_y, &r_z).unwrap();
    assert_eq!(g_x, g_x0);
    assert_eq!(g_y, g_y0);
    assert_eq!(g_z, g_z0);
}

#[test]
fn fold_into_infinite_g_ic_takes_accumulator() {
    // With g_ic at infinity and a finite accumulator, the fold hands the
    // accumulator over whole.
    let ics = test_ic_table();
    let p = lib_affine(&ics[4]);
    let mut g_x = vec![0u8; 32];
    let mut g_y = vec![0u8; 32];
    let mut g_z = vec![0u8; 32];
    let r_x = p.x.bytes.to_vec();
    let r_y = p.y.bytes.to_vec();
    let mut r_z = vec![0u8; 32];
    r_z[0] = 1;
    maths_g_ic_instruction(&mut g_x, &mut g_y, &mut g_z, &r_x, &r_y, &r_z).unwrap();
    assert_eq!(g_x, r_x);
    assert_eq!(g_y, r_y);
    assert_eq!(g_z, r_z);
}

#[test]
fn two_phase_affine_equals_direct_affine() {
    // A Jacobian point with z neither 0 nor 1, normalized by the two
    // instruction phases, must give the same bytes as the direct
    // conversion.
    let g = ArkG1Affine::prime_subgroup_generator();
    let mut p: ArkG1Projective = g.into_projective();
    p.double_in_place();
    assert!(p.z != ArkFq::one());
    let mut g_x = fq_bytes(&p.x).to_vec();
    let mut g_y = fq_bytes(&p.y).to_vec();
    let mut g_z = fq_bytes(&p.z).to_vec();
    let mut x_1 = vec![0u8; 64];
    g_ic_into_affine_1(&mut g_x, &mut g_y, &mut g_z).unwrap();
    g_ic_into_affine_2(&g_x, &g_y, &g_z, &mut x_1).unwrap();
    assert_eq!(x_1, affine_enc_bytes(&p.into_affine()));
}

#[test]
fn affine_phase_one_rejects_point_at_infinity() {
    let mut g_x = vec![0u8; 32];
    let mut g_y = vec![0u8; 32];
    let mut g_z = vec![0u8; 32];
    let r = g_ic_into_affine_1(&mut g_x, &mut g_y, &mut g_z);
    assert_eq!(r, Err(PrepareInputsError::ZeroAccumulator));
    assert_eq!(g_z, vec![0u8; 32]);
}

#[test]
fn initializer_rejects_wrong_input_count() {
    let ics = test_ic_table();
    let ic_points: Vec<G1Affine> = ics.iter().map(lib_affine).collect();
    let public_inputs: Vec<Fr> = (0..6u64).map(|k| lib_scalar(&ArkFr::from(k))).collect();
    let mut i_1 = vec![0u8; 32];
    let mut x_1 = vec![0u8; 64];
    let mut i_2 = vec![0u8; 32];
    let mut x_2 = vec![0u8; 64];
    let mut i_3 = vec![0u8; 32];
    let mut x_3 = vec![0u8; 64];
    let mut i_4 = vec![0u8; 32];
    let mut x_4 = vec![0u8; 64];
    let mut i_5 = vec![0u8; 32];
    let mut x_5 = vec![0u8; 64];
    let mut i_6 = vec![0u8; 32];
    let mut x_6 = vec![0u8; 64];
    let mut i_7 = vec![0u8; 32];
    let mut x_7 = vec![0u8; 64];
    let mut g_x = vec![0u8; 32];
    let mut g_y = vec![0u8; 32];
    let mut g_z = vec![0u8; 32];
    let r = init_pairs_instruction(
        &public_inputs,
        &ic_points,
        &mut i_1,
        &mut x_1,
        &mut i_2,
        &mut x_2,
        &mut i_3,
        &mut x_3,
        &mut i_4,
        &mut x_4,
        &mut i_5,
        &mut x_5,
        &mut i_6,
        &mut x_6,
        &mut i_7,
        &mut x_7,
        &mut g_x,
        &mut g_y,
        &mut g_z,
    );
    assert_eq!(r, Err(PrepareInputsError::MalformedVerifyingKey));
    assert_eq!(g_x, vec![0u8; 32]);
    assert_eq!(x_1, vec![0u8; 64]);
}

#[test]
fn accumulator_instruction_rejects_invalid_scalar_bytes() {
    // The scalar range holding the scalar field modulus itself must be
    // rejected: only canonical representatives decode.
    let ics = test_ic_table();
    let p = lib_affine(&ics[1]);
    let i_r = prepare_inputs::field::FR_MODULUS_LE.to_vec();
    let mut x_r = vec![0u8; 64];
    x_r[..32].copy_from_slice(&p.x.bytes);
    x_r[32..].copy_from_slice(&p.y.bytes);
    let mut r_x = vec![0u8; 32];
    let mut r_y = vec![0u8; 32];
    let mut r_z = vec![0u8; 32];
    let r = maths_instruction(&mut r_x, &mut r_y, &mut r_z, &i_r, &x_r, 0);
    assert_eq!(r, Err(PrepareInputsError::DecodeError));
    assert_eq!(r_x, vec![0u8; 32]);
}

#[test]
fn fold_rejects_invalid_coordinate_bytes() {
    // A coordinate range holding the base field modulus must be rejected.
    let mut g_x = prepare_inputs::field::FQ_MODULUS_LE.to_vec();
    let mut g_y = vec![0u8; 32];
    let mut g_z = vec![0u8; 32];
    let r_x = vec![0u8; 32];
    let r_y = vec![0u8; 32];
    let r_z = vec![0u8; 32];
    let r = maths_g_ic_instruction(&mut g_x, &mut g_y, &mut g_z, &r_x, &r_y, &r_z);
    assert_eq!(r, Err(PrepareInputsError::DecodeError));
    assert_eq!(g_x, prepare_inputs::field::FQ_MODULUS_LE.to_vec());
}

#[test]
fn accumulator_steps_match_reference_double_and_add() {
    // Drive one pair's 64 instructions with a scalar whose bits are mixed,
    // and compare the accumulator to the arkworks product at the end.
    let ics = test_ic_table();
    let p = &ics[2];
    let s = ArkFr::from(0x8000_0001_u64) * ArkFr::from(0xfeed_f00d_u64);
    let p_lib = lib_affine(p);
    let i_r = lib_scalar(&s).bytes.to_vec();
    let mut x_r = vec![0u8; 64];
    x_r[..32].copy_from_slice(&p_lib.x.bytes);
    x_r[32..].copy_from_slice(&p_lib.y.bytes);
    let mut r_x = vec![0u8; 32];
    let mut r_y = vec![0u8; 32];
    let mut r_z = vec![0u8; 32];
    init_res_instruction(&mut r_x, &mut r_y, &mut r_z);
    for step in 0..64usize {
        maths_instruction(&mut r_x, &mut r_y, &mut r_z, &i_r, &x_r, 4 * step).unwrap();
    }
    let want = p.mul(s.into_repr());
    assert_eq!(r_x, fq_bytes(&want.x).to_vec());
    assert_eq!(r_y, fq_bytes(&want.y).to_vec());
    assert_eq!(r_z, fq_bytes(&want.z).to_vec());
}
