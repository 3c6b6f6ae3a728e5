//! Tests of the state-slab codec, the field codecs and the field wrappers.

use ark_ff::{Field, ToBytes};
use prepare_inputs::field::{
    fq_add, fq_decode, fq_eq, fq_inverse, fq_is_zero, fq_mul, fq_square, fq_sub, fr_decode, Fq,
    FQ_MODULUS_LE, FR_MODULUS_LE,
};
use prepare_inputs::field::Fr;
use prepare_inputs::state::{PrepareInputsState, STATE_LEN};

fn fq_from_u64(v: u64) -> Fq {
    let mut bytes = [0u8; 32];
    bytes[..8].copy_from_slice(&v.to_le_bytes());
    Fq { bytes }
}

fn sample_slab() -> Vec<u8> {
    let mut slab: Vec<u8> = (0..STATE_LEN).map(|j| (j * 31 % 251) as u8).collect();
    slab[0] = 1;
    // Keep the index bytes an honest little-endian counter.
    for j in 212..220 {
        slab[j] = 0;
    }
    slab[212] = 42;
    slab
}

#[test]
fn unpack_then_pack_is_byte_identical() {
    let slab = sample_slab();
    let st = PrepareInputsState::unpack_from_slice(&slab);
    assert!(st.is_initialized);
    assert_eq!(st.current_instruction_index, 42);
    let mut out = slab.clone();
    st.pack_into_slice(&mut out);
    assert_eq!(out, slab);
}

#[test]
fn unpack_splits_the_documented_ranges() {
    let slab = sample_slab();
    let st = PrepareInputsState::unpack_from_slice(&slab);
    assert_eq!(st.found_root, slab[1]);
    assert_eq!(st.signing_address, slab[4..36].to_vec());
    assert_eq!(st.i_1_range, slab[220..252].to_vec());
    assert_eq!(st.x_1_range, slab[252..316].to_vec());
    assert_eq!(st.i_7_range, slab[796..828].to_vec());
    assert_eq!(st.x_7_range, slab[828..892].to_vec());
    assert_eq!(st.res_x_range, slab[892..924].to_vec());
    assert_eq!(st.res_z_range, slab[956..988].to_vec());
    assert_eq!(st.g_ic_x_range, slab[988..1020].to_vec());
    assert_eq!(st.g_ic_z_range, slab[1052..1084].to_vec());
    assert_eq!(
        st.proof_a_b_c_leaves_and_nullifiers,
        slab[3516..3900].to_vec()
    );
    assert_eq!(st.changed_variables, [false; 20]);
    assert_eq!(st.changed_constants, [false; 12]);
}

#[test]
fn pack_writes_exactly_the_dirty_ranges() {
    let slab = sample_slab();
    let mut st = PrepareInputsState::unpack_from_slice(&slab);
    st.res_x_range = vec![0xAB; 32];
    st.g_ic_z_range = vec![0xCD; 32];
    st.changed_variables[14] = true;
    st.changed_variables[19] = true;
    let mut out = slab.clone();
    st.pack_into_slice(&mut out);
    for j in 0..STATE_LEN {
        if (892..924).contains(&j) {
            assert_eq!(out[j], 0xAB, "byte {}", j);
        } else if (1052..1084).contains(&j) {
            assert_eq!(out[j], 0xCD, "byte {}", j);
        } else {
            assert_eq!(out[j], slab[j], "byte {}", j);
        }
    }
}

#[test]
fn pack_ignores_a_field_whose_dirty_bit_is_clear() {
    let slab = sample_slab();
    let mut st = PrepareInputsState::unpack_from_slice(&slab);
    // The mutation is made but never flagged, so it must not reach the slab.
    st.res_y_range = vec![0xEE; 32];
    let mut out = slab.clone();
    st.pack_into_slice(&mut out);
    assert_eq!(out, slab);
}

#[test]
fn pack_writes_the_instruction_index() {
    let slab = sample_slab();
    let mut st = PrepareInputsState::unpack_from_slice(&slab);
    st.current_instruction_index = 0x0102_0304_0506_0708;
    let mut out = slab.clone();
    st.pack_into_slice(&mut out);
    assert_eq!(out[212..220], [8, 7, 6, 5, 4, 3, 2, 1]);
    assert_eq!(out[..212], slab[..212]);
    assert_eq!(out[220..], slab[220..]);
}

#[test]
fn pack_writes_constants_when_flagged() {
    let slab = sample_slab();
    let mut st = PrepareInputsState::unpack_from_slice(&slab);
    st.found_root = 9;
    st.changed_constants[0] = true;
    st.root_hash = vec![0x5A; 32];
    st.changed_constants[8] = true;
    let mut out = slab.clone();
    st.pack_into_slice(&mut out);
    assert_eq!(out[1], 9);
    assert_eq!(out[116..148], [0x5A; 32]);
    assert_eq!(out[2..116], slab[2..116]);
    assert_eq!(out[148..], slab[148..]);
}

#[test]
fn pack_keeps_the_opaque_region() {
    let slab = sample_slab();
    let mut st = PrepareInputsState::unpack_from_slice(&slab);
    // Dirty everything the codec knows about.
    st.changed_variables = [true; 20];
    st.changed_constants = [true; 12];
    let mut out = slab.clone();
    st.pack_into_slice(&mut out);
    assert_eq!(out[1084..3516], slab[1084..3516]);
}

#[test]
fn fq_decode_rejects_the_modulus_and_accepts_below() {
    assert!(fq_decode(&FQ_MODULUS_LE.to_vec()).is_none());
    let mut below = FQ_MODULUS_LE;
    below[0] -= 1;
    let f = fq_decode(&below.to_vec()).unwrap();
    assert_eq!(f.bytes, below);
    let mut above = FQ_MODULUS_LE;
    above[31] += 1;
    assert!(fq_decode(&above.to_vec()).is_none());
}

#[test]
fn fr_decode_rejects_the_modulus_and_accepts_below() {
    assert!(fr_decode(&FR_MODULUS_LE.to_vec()).is_none());
    let mut below = FR_MODULUS_LE;
    below[0] -= 1;
    let s = fr_decode(&below.to_vec()).unwrap();
    assert_eq!(s.bytes, below);
}

#[test]
fn field_wrappers_compute_field_arithmetic() {
    let two = fq_from_u64(2);
    let three = fq_from_u64(3);
    let five = fq_from_u64(5);
    assert_eq!(fq_add(&two, &three).bytes, five.bytes);
    assert_eq!(fq_mul(&two, &three).bytes, fq_from_u64(6).bytes);
    assert_eq!(fq_square(&five).bytes, fq_from_u64(25).bytes);
    assert_eq!(fq_sub(&five, &three).bytes, two.bytes);
    // 3 - 5 wraps to p - 2.
    let wrapped = fq_sub(&three, &five);
    let p_minus_2 = {
        let a = ark_bn254::Fq::from(0u64) - ark_bn254::Fq::from(2u64);
        let mut b = [0u8; 32];
        a.write(&mut b[..]).unwrap();
        b
    };
    assert_eq!(wrapped.bytes, p_minus_2);
    // (p - 1) + 1 wraps to 0.
    let p_minus_1 = {
        let a = ark_bn254::Fq::from(0u64) - ark_bn254::Fq::from(1u64);
        let mut b = [0u8; 32];
        a.write(&mut b[..]).unwrap();
        Fq { bytes: b }
    };
    assert!(fq_is_zero(&fq_add(&p_minus_1, &fq_from_u64(1))));
}

#[test]
fn field_inverse_inverts_and_rejects_zero() {
    let a = fq_from_u64(987654321);
    let inv = fq_inverse(&a).unwrap();
    assert_eq!(fq_mul(&a, &inv).bytes, fq_from_u64(1).bytes);
    // Cross-check against the arkworks inverse.
    let ark_inv = ark_bn254::Fq::from(987654321u64).inverse().unwrap();
    let mut b = [0u8; 32];
    ark_inv.write(&mut b[..]).unwrap();
    assert_eq!(inv.bytes, b);
    assert!(fq_inverse(&fq_from_u64(0)).is_none());
}

#[test]
fn field_equality_is_byte_equality() {
    let a = fq_from_u64(7);
    let b = fq_from_u64(7);
    let c = fq_from_u64(8);
    assert!(fq_eq(&a, &b));
    assert!(!fq_eq(&a, &c));
    assert!(!fq_is_zero(&a));
    assert!(fq_is_zero(&fq_from_u64(0)));
}

#[test]
fn scalar_bits_read_big_endian() {
    // The value 1: only the least significant position (big-endian index
    // 255) is set.
    let mut one = [0u8; 32];
    one[0] = 1;
    let s = Fr { bytes: one };
    assert!(s.bit_be(255));
    for j in 0..255 {
        assert!(!s.bit_be(j));
    }
    // The value 2^253: big-endian index 2.
    let mut high = [0u8; 32];
    high[31] = 0x20;
    let s = Fr { bytes: high };
    assert!(s.bit_be(2));
    assert!(!s.bit_be(0));
    assert!(!s.bit_be(1));
    for j in 3..256 {
        assert!(!s.bit_be(j));
    }
}
