//! BN254 G1 points in affine and Jacobian form, their byte encodings, and
//! the fixed addition formulas of the pipeline.
//!
//! A Jacobian triple with `z == 0` encodes the point at infinity. The
//! mixed-addition and full-addition formulas (`add-2007-bl`, with the
//! doubling fallback for equal points) are spelled out here as spec
//! functions over canonical field values and implemented as verified code
//! over the field wrappers; they must stay exactly these formulas, because
//! checkpoints persist the raw coordinates and downstream consumers compare
//! them byte for byte. Doubling itself is done by `ark_ec` behind the one
//! trusted wrapper `g1_double`.

use crate::field::{
    f_add, f_inv, f_mul, f_sub, fq_add, fq_decode_at, fq_encode_at, fq_eq, fq_is_zero, fq_mul,
    fq_one, fq_p, fq_square, fq_sub, fq_zero, fr_r, lemma_f_inv_characterized, Fq,
};
use crate::le_bytes::le_val;
use ark_ff::{FromBytes, ToBytes};
use vstd::prelude::*;

verus! {

/// Canonical coordinates of a Jacobian point.
pub ghost struct JacVal {
    pub x: int,
    pub y: int,
    pub z: int,
}

/// Canonical coordinates of an affine point, with its infinity flag.
pub ghost struct AffVal {
    pub x: int,
    pub y: int,
    pub infinity: bool,
}

/// The Jacobian triple that the accumulator reset writes: all-zero
/// coordinates, encoding the point at infinity.
pub open spec fn jac_zero_val() -> JacVal {
    JacVal { x: 0, y: 0, z: 0 }
}

/// A G1 point in affine coordinates.
#[derive(Clone, Copy, Debug, PartialEq, Eq)]
pub struct G1Affine {
    pub x: Fq,
    pub y: Fq,
    pub infinity: bool,
}

impl View for G1Affine {
    type V = AffVal;

    open spec fn view(&self) -> AffVal {
        AffVal { x: self.x@, y: self.y@, infinity: self.infinity }
    }
}

impl G1Affine {
    /// Both coordinates are canonical.
    pub open spec fn wf(&self) -> bool {
        self.x.wf() && self.y.wf()
    }
}

/// A G1 point in Jacobian coordinates; `z == 0` encodes infinity.
#[derive(Clone, Copy, Debug, PartialEq, Eq)]
pub struct G1Jac {
    pub x: Fq,
    pub y: Fq,
    pub z: Fq,
}

impl View for G1Jac {
    type V = JacVal;

    open spec fn view(&self) -> JacVal {
        JacVal { x: self.x@, y: self.y@, z: self.z@ }
    }
}

impl G1Jac {
    /// All three coordinates are canonical.
    pub open spec fn wf(&self) -> bool {
        self.x.wf() && self.y.wf() && self.z.wf()
    }
}

/// Jacobian doubling as `ark_ec` computes it for a curve with `a == 0`:
/// infinity is unchanged, otherwise
/// `A = X², B = Y², C = B², D = 2((X+B)² − A − C), E = 3A, F = E²,
/// X' = F − 2D, Y' = E(D − X') − 8C, Z' = 2YZ`.
pub open spec fn jac_double_val(p: JacVal) -> JacVal {
    if p.z == 0 {
        p
    } else {
        let a = f_mul(p.x, p.x);
        let b = f_mul(p.y, p.y);
        let c = f_mul(b, b);
        let t = f_sub(f_sub(f_mul(f_add(p.x, b), f_add(p.x, b)), a), c);
        let d = f_add(t, t);
        let e = f_add(a, f_add(a, a));
        let f = f_mul(e, e);
        let z3 = f_add(f_mul(p.z, p.y), f_mul(p.z, p.y));
        let x3 = f_sub(f_sub(f, d), d);
        let c8 = f_add(f_add(f_add(c, c), f_add(c, c)), f_add(f_add(c, c), f_add(c, c)));
        let y3 = f_sub(f_mul(f_sub(d, x3), e), c8);
        JacVal { x: x3, y: y3, z: z3 }
    }
}

/// Mixed addition `p + q` (`q` affine), the `add-2007-bl` formulas with the
/// special cases in the fixed order: `q` at infinity leaves `p`; `p` at
/// infinity becomes `(q.x, q.y, 1)`; an equal point doubles.
pub open spec fn add_mixed_val(p: JacVal, q: AffVal) -> JacVal {
    if q.infinity {
        p
    } else if p.z == 0 {
        JacVal { x: q.x, y: q.y, z: 1 }
    } else {
        let z1z1 = f_mul(p.z, p.z);
        let u2 = f_mul(q.x, z1z1);
        let s2 = f_mul(f_mul(q.y, p.z), z1z1);
        if p.x == u2 && p.y == s2 {
            jac_double_val(p)
        } else {
            let h = f_sub(u2, p.x);
            let hh = f_mul(h, h);
            let i = f_add(f_add(hh, hh), f_add(hh, hh));
            let j = f_mul(h, i);
            let r = f_add(f_sub(s2, p.y), f_sub(s2, p.y));
            let v = f_mul(p.x, i);
            let x3 = f_sub(f_sub(f_sub(f_mul(r, r), j), v), v);
            let yj = f_mul(j, p.y);
            let y3 = f_sub(f_mul(f_sub(v, x3), r), f_add(yj, yj));
            let z3 = f_sub(f_sub(f_mul(f_add(p.z, h), f_add(p.z, h)), z1z1), hh);
            JacVal { x: x3, y: y3, z: z3 }
        }
    }
}

/// Full Jacobian addition `p + q`, the `add-2007-bl` formulas with the
/// special cases in the fixed order: `p` at infinity becomes `q`; `q` at
/// infinity leaves `p`; an equal point doubles `p`.
pub open spec fn add_jac_val(p: JacVal, q: JacVal) -> JacVal {
    if p.z == 0 {
        q
    } else if q.z == 0 {
        p
    } else {
        let z1z1 = f_mul(p.z, p.z);
        let z2z2 = f_mul(q.z, q.z);
        let u1 = f_mul(p.x, z2z2);
        let u2 = f_mul(q.x, z1z1);
        let s1 = f_mul(f_mul(p.y, q.z), z2z2);
        let s2 = f_mul(f_mul(q.y, p.z), z1z1);
        if u1 == u2 && s1 == s2 {
            jac_double_val(p)
        } else {
            let h = f_sub(u2, u1);
            let i = f_mul(f_add(h, h), f_add(h, h));
            let j = f_mul(h, i);
            let r = f_add(f_sub(s2, s1), f_sub(s2, s1));
            let v = f_mul(u1, i);
            let x3 = f_sub(f_sub(f_mul(r, r), j), f_add(v, v));
            let sj = f_mul(s1, j);
            let y3 = f_sub(f_mul(r, f_sub(v, x3)), f_add(sj, sj));
            let z3 = f_mul(f_sub(f_sub(f_mul(f_add(p.z, q.z), f_add(p.z, q.z)), z1z1), z2z2), h);
            JacVal { x: x3, y: y3, z: z3 }
        }
    }
}

/// Relies on `ark_ec`'s `ProjectiveCurve::double_in_place` for BN254 G1
/// (`GroupProjective<ark_bn254::g1::Parameters>`, whose curve coefficient
/// `a` is zero): it leaves the point at infinity unchanged and otherwise
/// computes exactly the doubling formulas of `jac_double_val`.
#[verifier::external_body]
pub fn g1_double(p: &G1Jac) -> (r: G1Jac)
    requires
        p.wf(),
    ensures
        r.wf(),
        r@ == jac_double_val(p@),
{
    let x = ark_bn254::Fq::read(&p.x.bytes[..]).unwrap();
    let y = ark_bn254::Fq::read(&p.y.bytes[..]).unwrap();
    let z = ark_bn254::Fq::read(&p.z.bytes[..]).unwrap();
    let mut q = ark_ec::short_weierstrass_jacobian::GroupProjective::<ark_bn254::g1::Parameters>::new(x, y, z);
    ark_ec::ProjectiveCurve::double_in_place(&mut q);
    let mut r = *p;
    q.x.write(&mut r.x.bytes[..]).unwrap();
    q.y.write(&mut r.y.bytes[..]).unwrap();
    q.z.write(&mut r.z.bytes[..]).unwrap();
    r
}

/// The all-zero Jacobian triple written by the accumulator reset.
pub fn g1_jac_zero() -> (r: G1Jac)
    ensures
        r.wf(),
        r@ == jac_zero_val(),
{
    G1Jac { x: fq_zero(), y: fq_zero(), z: fq_zero() }
}

/// A finite affine point as a Jacobian triple `(x, y, 1)`.
pub fn affine_to_jac(q: &G1Affine) -> (r: G1Jac)
    requires
        q.wf(),
        !q.infinity,
    ensures
        r.wf(),
        r@ == (JacVal { x: q@.x, y: q@.y, z: 1 }),
        r.x == q.x,
        r.y == q.y,
        r.z@ == 1,
{
    G1Jac { x: q.x, y: q.y, z: fq_one() }
}

/// Mixed addition `p += q` with `q` affine, following `add_mixed_val`.
pub fn add_mixed(p: &mut G1Jac, q: &G1Affine)
    requires
        old(p).wf(),
        q.wf(),
    ensures
        final(p).wf(),
        final(p)@ == add_mixed_val(old(p)@, q@),
{
    if q.infinity {
        return ;
    }
    if fq_is_zero(&p.z) {
        p.x = q.x;
        p.y = q.y;
        p.z = fq_one();
        return ;
    }
    let z1z1 = fq_square(&p.z);
    let u2 = fq_mul(&q.x, &z1z1);
    let s2 = fq_mul(&fq_mul(&q.y, &p.z), &z1z1);
    if fq_eq(&p.x, &u2) && fq_eq(&p.y, &s2) {
        *p = g1_double(p);
        return ;
    }
    let h = fq_sub(&u2, &p.x);
    let hh = fq_square(&h);
    let i = fq_add(&fq_add(&hh, &hh), &fq_add(&hh, &hh));
    let j = fq_mul(&h, &i);
    let r = fq_add(&fq_sub(&s2, &p.y), &fq_sub(&s2, &p.y));
    let v = fq_mul(&p.x, &i);
    let x3 = fq_sub(&fq_sub(&fq_sub(&fq_square(&r), &j), &v), &v);
    let yj = fq_mul(&j, &p.y);
    let y3 = fq_sub(&fq_mul(&fq_sub(&v, &x3), &r), &fq_add(&yj, &yj));
    let z3 = fq_sub(&fq_sub(&fq_square(&fq_add(&p.z, &h)), &z1z1), &hh);
    p.x = x3;
    p.y = y3;
    p.z = z3;
}

/// Full Jacobian addition `p += q`, following `add_jac_val`.
pub fn add_jac(p: &mut G1Jac, q: &G1Jac)
    requires
        old(p).wf(),
        q.wf(),
    ensures
        final(p).wf(),
        final(p)@ == add_jac_val(old(p)@, q@),
{
    if fq_is_zero(&p.z) {
        *p = *q;
        return ;
    }
    if fq_is_zero(&q.z) {
        return ;
    }
    let z1z1 = fq_square(&p.z);
    let z2z2 = fq_square(&q.z);
    let u1 = fq_mul(&p.x, &z2z2);
    let u2 = fq_mul(&q.x, &z1z1);
    let s1 = fq_mul(&fq_mul(&p.y, &q.z), &z2z2);
    let s2 = fq_mul(&fq_mul(&q.y, &p.z), &z1z1);
    if fq_eq(&u1, &u2) && fq_eq(&s1, &s2) {
        *p = g1_double(p);
        return ;
    }
    let h = fq_sub(&u2, &u1);
    let i = fq_mul(&fq_add(&h, &h), &fq_add(&h, &h));
    let j = fq_mul(&h, &i);
    let r = fq_add(&fq_sub(&s2, &s1), &fq_sub(&s2, &s1));
    let v = fq_mul(&u1, &i);
    let x3 = fq_sub(&fq_sub(&fq_square(&r), &j), &fq_add(&v, &v));
    let sj = fq_mul(&s1, &j);
    let y3 = fq_sub(&fq_mul(&r, &fq_sub(&v, &x3)), &fq_add(&sj, &sj));
    let z3 = fq_mul(
        &fq_sub(&fq_sub(&fq_square(&fq_add(&p.z, &q.z)), &z1z1), &z2z2),
        &h,
    );
    p.x = x3;
    p.y = y3;
    p.z = z3;
}

/// The 64-byte encoding of a finite affine point: `x || y`.
pub open spec fn affine_enc(q: G1Affine) -> Seq<u8> {
    q.x.bytes@ + q.y.bytes@
}

/// The Jacobian point held by three 32-byte coordinate ranges.
pub open spec fn decoded_jac(vx: Seq<u8>, vy: Seq<u8>, vz: Seq<u8>) -> JacVal {
    JacVal { x: le_val(vx) as int, y: le_val(vy) as int, z: le_val(vz) as int }
}

/// Whether three 32-byte coordinate ranges all hold canonical field values.
pub open spec fn jac_ranges_valid(vx: Seq<u8>, vy: Seq<u8>, vz: Seq<u8>) -> bool {
    le_val(vx) < fq_p() && le_val(vy) < fq_p() && le_val(vz) < fq_p()
}

/// The finite affine point held by a 64-byte range.
pub open spec fn decoded_affine(v: Seq<u8>) -> AffVal {
    AffVal {
        x: le_val(v.subrange(0, 32)) as int,
        y: le_val(v.subrange(32, 64)) as int,
        infinity: false,
    }
}

/// Whether a 64-byte range holds two canonical field values.
pub open spec fn affine_range_valid(v: Seq<u8>) -> bool {
    le_val(v.subrange(0, 32)) < fq_p() && le_val(v.subrange(32, 64)) < fq_p()
}

/// Whether a 32-byte range holds a canonical public-input scalar.
pub open spec fn scalar_range_valid(v: Seq<u8>) -> bool {
    le_val(v) < fr_r()
}

/// The affine point that the second normalization phase computes from the
/// scratch triple `(x, y, zinv)` left by the first: `x·zinv², y·zinv³`.
pub open spec fn scratch_to_affine_val(p: JacVal) -> AffVal {
    let zz = f_mul(p.z, p.z);
    AffVal { x: f_mul(p.x, zz), y: f_mul(p.y, f_mul(zz, p.z)), infinity: false }
}

/// Direct Jacobian-to-affine conversion in one step: `x/z², y/z³` through
/// the field inverse of `z`.
pub open spec fn jac_to_affine_val(p: JacVal) -> AffVal {
    scratch_to_affine_val(JacVal { x: p.x, y: p.y, z: f_inv(p.z) })
}

/// Two-phase affine equals one-phase affine: for any value `w` that inverts
/// `p.z` — which is what the first normalization phase stores in the `z`
/// slot — evaluating the second phase on the scratch triple gives exactly
/// the direct one-step conversion of `p`.
pub proof fn theorem_two_phase_affine(p: JacVal, w: int)
    requires
        0 <= w < fq_p(),
        f_mul(p.z, w) == 1,
    ensures
        scratch_to_affine_val(JacVal { x: p.x, y: p.y, z: w }) == jac_to_affine_val(p),
{
    lemma_f_inv_characterized(p.z, w);
}

/// Point-at-infinity handling of the fold: an accumulator that encodes
/// infinity leaves a finite `g_ic` exactly as it is; an infinite `g_ic`
/// takes over the accumulator whole. When both encode infinity the fold
/// hands over the accumulator's triple, which encodes the same point.
pub proof fn theorem_fold_infinity(g: JacVal, r: JacVal)
    ensures
        g.z != 0 && r.z == 0 ==> add_jac_val(g, r) == g,
        g.z == 0 ==> add_jac_val(g, r) == r,
        g.z == 0 && r.z == 0 ==> add_jac_val(g, r).z == 0,
{
}

/// Decodes a 64-byte range as a finite affine point: the first 32 bytes are
/// `x`, the last 32 are `y`; the infinity flag is never persisted.
pub fn decode_g1_affine(v: &Vec<u8>) -> (r: Option<G1Affine>)
    requires
        v@.len() == 64,
    ensures
        r is Some <==> le_val(v@.subrange(0, 32)) < fq_p() && le_val(v@.subrange(32, 64)) < fq_p(),
        r matches Some(q) ==> {
            &&& q.wf()
            &&& !q.infinity
            &&& q.x.bytes@ == v@.subrange(0, 32)
            &&& q.y.bytes@ == v@.subrange(32, 64)
        },
{
    let x = fq_decode_at(v, 0);
    let y = fq_decode_at(v, 32);
    match (x, y) {
        (Some(x), Some(y)) => Some(G1Affine { x, y, infinity: false }),
        _ => None,
    }
}

/// Writes the 64-byte encoding `x || y` of a finite affine point over `dst`.
pub fn encode_g1_affine(q: &G1Affine, dst: &mut Vec<u8>)
    requires
        old(dst)@.len() == 64,
    ensures
        final(dst)@.len() == 64,
        final(dst)@ == affine_enc(*q),
        final(dst)@.subrange(0, 32) == q.x.bytes@,
        final(dst)@.subrange(32, 64) == q.y.bytes@,
{
    fq_encode_at(&q.x, dst, 0);
    let ghost mid = dst@;
    fq_encode_at(&q.y, dst, 32);
    proof {
        assert(dst@.subrange(0, 32) =~= mid.subrange(0, 32));
        assert(dst@ =~= affine_enc(*q));
    }
}

/// Decodes a Jacobian point from its three 32-byte coordinate ranges.
pub fn decode_g1_jac(vx: &Vec<u8>, vy: &Vec<u8>, vz: &Vec<u8>) -> (r: Option<G1Jac>)
    requires
        vx@.len() == 32,
        vy@.len() == 32,
        vz@.len() == 32,
    ensures
        r is Some <==> le_val(vx@) < fq_p() && le_val(vy@) < fq_p() && le_val(vz@) < fq_p(),
        r matches Some(p) ==> {
            &&& p.wf()
            &&& p.x.bytes@ == vx@
            &&& p.y.bytes@ == vy@
            &&& p.z.bytes@ == vz@
        },
{
    let x = fq_decode_at(vx, 0);
    let y = fq_decode_at(vy, 0);
    let z = fq_decode_at(vz, 0);
    proof {
        assert(vx@.subrange(0, 32) =~= vx@);
        assert(vy@.subrange(0, 32) =~= vy@);
        assert(vz@.subrange(0, 32) =~= vz@);
    }
    match (x, y, z) {
        (Some(x), Some(y), Some(z)) => Some(G1Jac { x, y, z }),
        _ => None,
    }
}

/// Writes a Jacobian point over its three 32-byte coordinate ranges.
pub fn encode_g1_jac(p: &G1Jac, vx: &mut Vec<u8>, vy: &mut Vec<u8>, vz: &mut Vec<u8>)
    requires
        old(vx)@.len() == 32,
        old(vy)@.len() == 32,
        old(vz)@.len() == 32,
    ensures
        final(vx)@ == p.x.bytes@,
        final(vy)@ == p.y.bytes@,
        final(vz)@ == p.z.bytes@,
{
    fq_encode_at(&p.x, vx, 0);
    fq_encode_at(&p.y, vy, 0);
    fq_encode_at(&p.z, vz, 0);
    proof {
        assert(vx@ =~= vx@.subrange(0, 32));
        assert(vy@ =~= vy@.subrange(0, 32));
        assert(vz@ =~= vz@.subrange(0, 32));
    }
}

} // verus!
