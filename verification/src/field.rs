//! The two prime fields of the pipeline, held as canonical little-endian
//! bytes.
//!
//! `Fq` is the BN254 base field: every curve coordinate that the instructions
//! move through the persistent slab is one canonical 32-byte encoding of an
//! `Fq` value. Its arithmetic is done by the `ark_ff` implementation behind
//! the trusted wrappers below; everything else about `Fq` — decoding,
//! encoding, comparison — is verified here. `Fr` is the scalar field of the
//! public inputs; the pipeline only ever reads its bits, which is verified
//! code.

use crate::le_bytes::{le_val, lemma_le_val_bit, lemma_le_val_injective};
use ark_ff::{Field, FromBytes, ToBytes};
use vstd::arithmetic::div_mod::{lemma_mul_mod_noop_left, lemma_mul_mod_noop_right, lemma_small_mod};
use vstd::arithmetic::power2::{lemma2_to64, pow2};
use vstd::calc_macro::*;
use vstd::prelude::*;

verus! {

/// The BN254 base field modulus.
pub open spec fn fq_p() -> nat {
    21888242871839275222246405745257275088696311157297823662689037894645226208583nat
}

/// The scalar field modulus of the public inputs (the order of the BN254
/// prime-order subgroup).
pub open spec fn fr_r() -> nat {
    21888242871839275222246405745257275088548364400416034343698204186575808495617nat
}

/// Field addition of canonical representatives.
pub open spec fn f_add(a: int, b: int) -> int {
    (a + b) % (fq_p() as int)
}

/// Field subtraction of canonical representatives.
pub open spec fn f_sub(a: int, b: int) -> int {
    (a - b) % (fq_p() as int)
}

/// Field multiplication of canonical representatives.
pub open spec fn f_mul(a: int, b: int) -> int {
    (a * b) % (fq_p() as int)
}

/// The canonical multiplicative inverse of `a` in the base field, where one
/// exists.
pub open spec fn f_inv(a: int) -> int {
    choose|w: int| 0 <= w < fq_p() && f_mul(a, w) == 1
}

/// A canonical inverse is unique.
pub proof fn lemma_inverse_unique(a: int, w1: int, w2: int)
    requires
        0 <= w1 < fq_p(),
        0 <= w2 < fq_p(),
        f_mul(a, w1) == 1,
        f_mul(a, w2) == 1,
    ensures
        w1 == w2,
{
    let p = fq_p() as int;
    assert(w1 % p == w1) by {
        lemma_small_mod(w1 as nat, fq_p());
    }
    assert(w2 % p == w2) by {
        lemma_small_mod(w2 as nat, fq_p());
    }
    calc! {
        (==)
        w1; {}
        w1 % p; {
            lemma_mul_mod_noop_right(w1, a * w2, p);
            assert(w1 * ((a * w2) % p) == w1) by (nonlinear_arith)
                requires
                    (a * w2) % p == 1,
            ;
        }
        (w1 * (a * w2)) % p; {
            assert(w1 * (a * w2) == (a * w1) * w2) by (nonlinear_arith);
        }
        ((a * w1) * w2) % p; {
            lemma_mul_mod_noop_left(a * w1, w2, p);
        }
        (((a * w1) % p) * w2) % p; {
            assert(((a * w1) % p) * w2 == w2) by (nonlinear_arith)
                requires
                    (a * w1) % p == 1,
            ;
        }
        w2 % p; {}
        w2;
    }
}

/// Any canonical value that inverts `a` is `f_inv(a)`.
pub proof fn lemma_f_inv_characterized(a: int, w: int)
    requires
        0 <= w < fq_p(),
        f_mul(a, w) == 1,
    ensures
        f_inv(a) == w,
{
    assert(exists|u: int| 0 <= u < fq_p() && f_mul(a, u) == 1) by {
        assert(0 <= w < fq_p() && f_mul(a, w) == 1);
    }
    let u0 = f_inv(a);
    assert(0 <= u0 < fq_p() && f_mul(a, u0) == 1);
    lemma_inverse_unique(a, w, u0);
}

/// `fq_p()` encoded as 32 little-endian bytes.
pub const FQ_MODULUS_LE: [u8; 32] = [
    71,
    253,
    124,
    216,
    22,
    140,
    32,
    60,
    141,
    202,
    113,
    104,
    145,
    106,
    129,
    151,
    93,
    88,
    129,
    129,
    182,
    69,
    80,
    184,
    41,
    160,
    49,
    225,
    114,
    78,
    100,
    48,
];

/// `fr_r()` encoded as 32 little-endian bytes.
pub const FR_MODULUS_LE: [u8; 32] = [
    1,
    0,
    0,
    240,
    147,
    245,
    225,
    67,
    145,
    112,
    185,
    121,
    72,
    232,
    51,
    40,
    93,
    88,
    129,
    129,
    182,
    69,
    80,
    184,
    41,
    160,
    49,
    225,
    114,
    78,
    100,
    48,
];

/// The base field modulus bytes encode the base field modulus.
pub proof fn lemma_fq_modulus_le()
    ensures
        le_val(FQ_MODULUS_LE@) == fq_p(),
{
    reveal_with_fuel(le_val, 33);
}

/// The scalar field modulus bytes encode the scalar field modulus.
pub proof fn lemma_fr_modulus_le()
    ensures
        le_val(FR_MODULUS_LE@) == fr_r(),
{
    reveal_with_fuel(le_val, 33);
}

/// A BN254 base field element: the canonical (fully reduced) representative,
/// little-endian.
#[derive(Clone, Copy, Debug, PartialEq, Eq)]
pub struct Fq {
    pub bytes: [u8; 32],
}

impl View for Fq {
    type V = int;

    open spec fn view(&self) -> int {
        le_val(self.bytes@) as int
    }
}

impl Fq {
    /// The bytes hold a canonical representative.
    pub open spec fn wf(&self) -> bool {
        self@ < fq_p()
    }
}

/// A scalar of the public-input field: the canonical representative,
/// little-endian.
#[derive(Clone, Copy, Debug, PartialEq, Eq)]
pub struct Fr {
    pub bytes: [u8; 32],
}

impl View for Fr {
    type V = int;

    open spec fn view(&self) -> int {
        le_val(self.bytes@) as int
    }
}

impl Fr {
    /// The bytes hold a canonical representative.
    pub open spec fn wf(&self) -> bool {
        self@ < fr_r()
    }
}

/// Bit `j` of the 256-bit big-endian expansion of `v`: bit 0 is the most
/// significant position, bit 255 the least.
pub open spec fn scalar_bit_be(v: int, j: int) -> bool {
    (v / pow2((255 - j) as nat) as int) % 2 == 1
}

/// Copies 32 bytes out of `v` starting at `off`.
pub fn arr32_from(v: &Vec<u8>, off: usize) -> (r: [u8; 32])
    requires
        off + 32 <= v@.len(),
    ensures
        r@ == v@.subrange(off as int, off + 32),
{
    let n: usize = v.len();
    let mut r: [u8; 32] = [0u8; 32];
    let mut i: usize = 0;
    while i < 32
        invariant
            i <= 32,
            off + 32 <= n == v@.len(),
            r@.len() == 32,
            forall|k: int| 0 <= k < i ==> r@[k] == v@[off + k],
        decreases 32 - i,
    {
        r[i] = v[off + i];
        i = i + 1;
    }
    proof {
        assert(r@ =~= v@.subrange(off as int, off + 32));
    }
    r
}

/// Writes 32 bytes into `dst` starting at `off`; no other byte moves.
pub fn write32_at(dst: &mut Vec<u8>, off: usize, src: &[u8; 32])
    requires
        off + 32 <= old(dst)@.len(),
    ensures
        final(dst)@.len() == old(dst)@.len(),
        final(dst)@.subrange(off as int, off + 32) == src@,
        forall|j: int|
            0 <= j < old(dst)@.len() && !(off <= j < off + 32) ==> final(dst)@[j] == old(dst)@[j],
{
    let n: usize = dst.len();
    let mut i: usize = 0;
    while i < 32
        invariant
            i <= 32,
            off + 32 <= n == dst@.len(),
            dst@.len() == old(dst)@.len(),
            forall|k: int| 0 <= k < i ==> dst@[off + k] == src@[k],
            forall|j: int|
                0 <= j < old(dst)@.len() && !(off <= j < off + i) ==> dst@[j] == old(dst)@[j],
        decreases 32 - i,
    {
        dst[off + i] = src[i];
        i = i + 1;
    }
    proof {
        assert(dst@.subrange(off as int, off + 32) =~= src@);
    }
}

/// Little-endian comparison of two 32-byte strings.
pub fn bytes_lt_32(a: &[u8; 32], b: &[u8; 32]) -> (r: bool)
    ensures
        r == (le_val(a@) < le_val(b@)),
{
    let mut i: usize = 32;
    proof {
        assert(a@.skip(32) =~= b@.skip(32));
    }
    while i > 0
        invariant
            i <= 32,
            a@.skip(i as int) == b@.skip(i as int),
        decreases i,
    {
        let idx: usize = i - 1;
        if a[idx] < b[idx] {
            proof {
                crate::le_bytes::lemma_le_val_lex(a@, b@, idx as int);
            }
            return true;
        }
        if a[idx] > b[idx] {
            proof {
                crate::le_bytes::lemma_le_val_lex(b@, a@, idx as int);
            }
            return false;
        }
        proof {
            assert forall|m: int| 0 <= m < 32 - idx implies a@.skip(idx as int)[m] == b@.skip(
                idx as int,
            )[m] by {
                if m > 0 {
                    assert(a@.skip(i as int)[m - 1] == b@.skip(i as int)[m - 1]);
                }
            }
            assert(a@.skip(idx as int) =~= b@.skip(idx as int));
        }
        i = idx;
    }
    proof {
        assert(a@ =~= a@.skip(0));
        assert(b@ =~= b@.skip(0));
    }
    false
}

/// Decodes the 32 bytes of `v` at `off` as a base field element; values at
/// or above the modulus are rejected.
pub fn fq_decode_at(v: &Vec<u8>, off: usize) -> (r: Option<Fq>)
    requires
        off + 32 <= v@.len(),
    ensures
        r is Some <==> le_val(v@.subrange(off as int, off + 32)) < fq_p(),
        r matches Some(f) ==> f.bytes@ == v@.subrange(off as int, off + 32) && f.wf(),
{
    let bytes = arr32_from(v, off);
    proof {
        lemma_fq_modulus_le();
    }
    if bytes_lt_32(&bytes, &FQ_MODULUS_LE) {
        Some(Fq { bytes })
    } else {
        None
    }
}

/// Decodes a 32-byte range as a base field element; values at or above the
/// modulus are rejected.
pub fn fq_decode(v: &Vec<u8>) -> (r: Option<Fq>)
    requires
        v@.len() == 32,
    ensures
        r is Some <==> le_val(v@) < fq_p(),
        r matches Some(f) ==> f.bytes@ == v@ && f.wf(),
{
    proof {
        assert(v@.subrange(0, 32) =~= v@);
    }
    fq_decode_at(v, 0)
}

/// Writes the canonical encoding of `f` into `dst` at `off`; no other byte
/// moves.
pub fn fq_encode_at(f: &Fq, dst: &mut Vec<u8>, off: usize)
    requires
        off + 32 <= old(dst)@.len(),
    ensures
        final(dst)@.len() == old(dst)@.len(),
        final(dst)@.subrange(off as int, off + 32) == f.bytes@,
        forall|j: int|
            0 <= j < old(dst)@.len() && !(off <= j < off + 32) ==> final(dst)@[j] == old(dst)@[j],
{
    write32_at(dst, off, &f.bytes);
}

/// Writes the canonical encoding of `f` over the 32-byte vector `dst`.
pub fn fq_encode(f: &Fq, dst: &mut Vec<u8>)
    requires
        old(dst)@.len() == 32,
    ensures
        final(dst)@ == f.bytes@,
{
    write32_at(dst, 0, &f.bytes);
    proof {
        assert(dst@ =~= dst@.subrange(0, 32));
    }
}

/// Decodes a 32-byte range as a public-input scalar; values at or above the
/// scalar modulus are rejected.
pub fn fr_decode(v: &Vec<u8>) -> (r: Option<Fr>)
    requires
        v@.len() == 32,
    ensures
        r is Some <==> le_val(v@) < fr_r(),
        r matches Some(s) ==> s.bytes@ == v@ && s.wf(),
{
    let bytes = arr32_from(v, 0);
    proof {
        assert(bytes@ =~= v@);
        lemma_fr_modulus_le();
    }
    if bytes_lt_32(&bytes, &FR_MODULUS_LE) {
        Some(Fr { bytes })
    } else {
        None
    }
}

/// Writes the canonical encoding of `s` over the 32-byte vector `dst`.
pub fn fr_encode(s: &Fr, dst: &mut Vec<u8>)
    requires
        old(dst)@.len() == 32,
    ensures
        final(dst)@ == s.bytes@,
{
    write32_at(dst, 0, &s.bytes);
    proof {
        assert(dst@ =~= dst@.subrange(0, 32));
    }
}

/// The zero element.
pub fn fq_zero() -> (r: Fq)
    ensures
        r@ == 0,
        r.wf(),
        r.bytes@ == Seq::<u8>::new(32, |i: int| 0u8),
{
    let r = Fq { bytes: [0u8; 32] };
    proof {
        lemma_le_val_of_zero_bytes(r.bytes@);
        assert(r.bytes@ =~= Seq::<u8>::new(32, |i: int| 0u8));
    }
    r
}

/// The one element.
pub fn fq_one() -> (r: Fq)
    ensures
        r@ == 1,
        r.wf(),
{
    let r = Fq {
        bytes: [
            1u8,
            0,
            0,
            0,
            0,
            0,
            0,
            0,
            0,
            0,
            0,
            0,
            0,
            0,
            0,
            0,
            0,
            0,
            0,
            0,
            0,
            0,
            0,
            0,
            0,
            0,
            0,
            0,
            0,
            0,
            0,
            0,
        ],
    };
    proof {
        assert(le_val(r.bytes@) == 1) by {
            reveal_with_fuel(le_val, 33);
        }
    }
    r
}

/// A string of zero bytes has value zero.
pub proof fn lemma_le_val_of_zero_bytes(s: Seq<u8>)
    requires
        forall|i: int| 0 <= i < s.len() ==> s[i] == 0,
    ensures
        le_val(s) == 0,
    decreases s.len(),
{
    if s.len() > 0 {
        lemma_le_val_of_zero_bytes(s.drop_first());
    }
}

/// Equality of field elements; canonical encodings are unique, so this is
/// byte equality.
pub fn fq_eq(a: &Fq, b: &Fq) -> (r: bool)
    ensures
        r == (a@ == b@),
{
    let mut i: usize = 0;
    while i < 32
        invariant
            i <= 32,
            forall|k: int| 0 <= k < i ==> a.bytes@[k] == b.bytes@[k],
        decreases 32 - i,
    {
        if a.bytes[i] != b.bytes[i] {
            proof {
                if a@ == b@ {
                    lemma_le_val_injective(a.bytes@, b.bytes@);
                }
            }
            return false;
        }
        i = i + 1;
    }
    proof {
        assert(a.bytes@ =~= b.bytes@);
    }
    true
}

/// Whether `a` is the zero element.
pub fn fq_is_zero(a: &Fq) -> (r: bool)
    ensures
        r == (a@ == 0),
{
    let z = fq_zero();
    fq_eq(a, &z)
}

/// Relies on `ark_ff`'s field addition on `ark_bn254::Fq`: the canonical
/// representative of the sum mod the base field modulus.
#[verifier::external_body]
pub fn fq_add(a: &Fq, b: &Fq) -> (r: Fq)
    requires
        a.wf(),
        b.wf(),
    ensures
        r.wf(),
        r@ == f_add(a@, b@),
{
    let x = ark_bn254::Fq::read(&a.bytes[..]).unwrap();
    let y = ark_bn254::Fq::read(&b.bytes[..]).unwrap();
    let mut r = Fq { bytes: [0u8; 32] };
    (x + y).write(&mut r.bytes[..]).unwrap();
    r
}

/// Relies on `ark_ff`'s field subtraction on `ark_bn254::Fq`: the canonical
/// representative of the difference mod the base field modulus.
#[verifier::external_body]
pub fn fq_sub(a: &Fq, b: &Fq) -> (r: Fq)
    requires
        a.wf(),
        b.wf(),
    ensures
        r.wf(),
        r@ == f_sub(a@, b@),
{
    let x = ark_bn254::Fq::read(&a.bytes[..]).unwrap();
    let y = ark_bn254::Fq::read(&b.bytes[..]).unwrap();
    let mut r = Fq { bytes: [0u8; 32] };
    (x - y).write(&mut r.bytes[..]).unwrap();
    r
}

/// Relies on `ark_ff`'s field multiplication on `ark_bn254::Fq`: the
/// canonical representative of the product mod the base field modulus.
#[verifier::external_body]
pub fn fq_mul(a: &Fq, b: &Fq) -> (r: Fq)
    requires
        a.wf(),
        b.wf(),
    ensures
        r.wf(),
        r@ == f_mul(a@, b@),
{
    let x = ark_bn254::Fq::read(&a.bytes[..]).unwrap();
    let y = ark_bn254::Fq::read(&b.bytes[..]).unwrap();
    let mut r = Fq { bytes: [0u8; 32] };
    (x * y).write(&mut r.bytes[..]).unwrap();
    r
}

/// Relies on `ark_ff::Field::square` on `ark_bn254::Fq`: the canonical
/// representative of the square mod the base field modulus.
#[verifier::external_body]
pub fn fq_square(a: &Fq) -> (r: Fq)
    requires
        a.wf(),
    ensures
        r.wf(),
        r@ == f_mul(a@, a@),
{
    let x = ark_bn254::Fq::read(&a.bytes[..]).unwrap();
    let mut r = Fq { bytes: [0u8; 32] };
    x.square().write(&mut r.bytes[..]).unwrap();
    r
}

/// Relies on `ark_ff::Field::inverse` on `ark_bn254::Fq`: `None` exactly on
/// zero, else the canonical representative of the multiplicative inverse.
#[verifier::external_body]
pub fn fq_inverse(a: &Fq) -> (r: Option<Fq>)
    requires
        a.wf(),
    ensures
        r is Some <==> a@ != 0,
        r matches Some(f) ==> f.wf() && f_mul(a@, f@) == 1,
{
    let x = ark_bn254::Fq::read(&a.bytes[..]).unwrap();
    match x.inverse() {
        None => None,
        Some(inv) => {
            let mut r = Fq { bytes: [0u8; 32] };
            inv.write(&mut r.bytes[..]).unwrap();
            Some(r)
        },
    }
}

impl Fr {
    /// Bit `j` of the big-endian 256-bit expansion of this scalar.
    pub fn bit_be(&self, j: usize) -> (r: bool)
        requires
            j < 256,
        ensures
            r == scalar_bit_be(self@, j as int),
    {
        let k: usize = 255 - j;
        let byte: u8 = self.bytes[k / 8];
        let d: u8 = match k % 8 {
            0 => 1,
            1 => 2,
            2 => 4,
            3 => 8,
            4 => 16,
            5 => 32,
            6 => 64,
            _ => 128,
        };
        proof {
            lemma2_to64();
            assert(d == pow2((k % 8) as nat));
            lemma_le_val_bit(self.bytes@, k as int);
            assert((255 - j as int) == k as int);
        }
        (byte / d) % 2 == 1
    }
}

} // verus!
