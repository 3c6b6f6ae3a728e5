//! Little-endian byte strings as natural numbers.
//!
//! Every 32-byte range of the persistent slab encodes a field element as the
//! little-endian value of its bytes; this module gives that value a
//! mathematical definition and the facts the rest of the crate needs:
//! splitting, bounds, injectivity, bit extraction and lexicographic
//! comparison.

use vstd::arithmetic::div_mod::{
    lemma_div_denominator, lemma_div_multiples_vanish_fancy, lemma_fundamental_div_mod,
    lemma_basic_div, lemma_mod_multiples_vanish, lemma_small_mod,
};
use vstd::arithmetic::mul::lemma_mul_inequality;
use vstd::arithmetic::power::{lemma_pow_adds, lemma_pow_increases, lemma_pow_positive, pow};
use vstd::arithmetic::power2::{lemma2_to64, lemma_pow2_adds, lemma_pow2_pos, pow2};
use vstd::prelude::*;

verus! {

/// The number represented by `s` read little-endian: byte 0 is the least
/// significant.
pub open spec fn le_val(s: Seq<u8>) -> nat
    decreases s.len(),
{
    if s.len() == 0 {
        0
    } else {
        (s[0] + 256 * le_val(s.drop_first())) as nat
    }
}

/// The value of a one-byte string is its byte.
pub proof fn lemma_le_val_single(b: u8)
    ensures
        le_val(seq![b]) == b,
{
    assert(seq![b].drop_first() =~= Seq::<u8>::empty());
    assert(le_val(Seq::<u8>::empty()) == 0);
}

/// 256 to the eighth power is 2 to the 64th.
pub proof fn lemma_pow256_8()
    ensures
        pow(256, 8) == 0x10000000000000000,
{
    reveal_with_fuel(pow, 9);
}

/// Hoists an addend out of a division: `(d * x + b) / d == x + b / d`.
proof fn lemma_div_hoist(x: int, b: int, d: int)
    requires
        d > 0,
        b >= 0,
        x >= 0,
    ensures
        (d * x + b) / d == x + b / d,
{
    lemma_fundamental_div_mod(b, d);
    assert(d * x + b == d * (x + b / d) + b % d) by (nonlinear_arith)
        requires
            b == d * (b / d) + b % d,
    ;
    lemma_div_multiples_vanish_fancy(x + b / d, b % d, d);
}

/// A little-endian value is bounded by 256 to the number of its bytes.
pub proof fn lemma_le_val_bound(s: Seq<u8>)
    ensures
        le_val(s) < pow(256, s.len()),
    decreases s.len(),
{
    if s.len() == 0 {
        reveal_with_fuel(pow, 1);
    } else {
        lemma_le_val_bound(s.drop_first());
        lemma_pow_positive(256, (s.len() - 1) as nat);
        let t: nat = le_val(s.drop_first());
        let p: int = pow(256, (s.len() - 1) as nat);
        lemma_mul_inequality((t + 1) as int, p, 256);
        assert((t + 1) * 256 == 256 * t + 256) by (nonlinear_arith);
        assert(p * 256 == pow(256, s.len())) by {
            lemma_pow_adds(256, (s.len() - 1) as nat, 1);
            reveal_with_fuel(pow, 2);
        }
    }
}

/// Appending bytes adds their value scaled by 256 to the length of the prefix.
pub proof fn lemma_le_val_append(a: Seq<u8>, b: Seq<u8>)
    ensures
        le_val(a + b) == le_val(a) + pow(256, a.len()) * le_val(b),
    decreases a.len(),
{
    if a.len() == 0 {
        assert(a + b =~= b);
        reveal_with_fuel(pow, 1);
    } else {
        assert((a + b).drop_first() =~= a.drop_first() + b);
        lemma_le_val_append(a.drop_first(), b);
        let t: nat = le_val(a.drop_first());
        let v: nat = le_val(b);
        let p: int = pow(256, (a.len() - 1) as nat);
        assert((a + b)[0] == a[0]);
        assert(le_val(a + b) == a[0] + 256 * (t + p * v));
        assert(256 * (t + p * v) == 256 * t + (256 * p) * v) by (nonlinear_arith);
        assert(256 * p == pow(256, a.len())) by {
            lemma_pow_adds(256, 1, (a.len() - 1) as nat);
            reveal_with_fuel(pow, 2);
        }
    }
}

/// Two byte strings of one length with one value are the same string.
pub proof fn lemma_le_val_injective(a: Seq<u8>, b: Seq<u8>)
    requires
        a.len() == b.len(),
        le_val(a) == le_val(b),
    ensures
        a =~= b,
    decreases a.len(),
{
    if a.len() == 0 {
    } else {
        let ta: nat = le_val(a.drop_first());
        let tb: nat = le_val(b.drop_first());
        assert(a[0] + 256 * ta == b[0] + 256 * tb);
        assert(a[0] == (256 * ta + a[0]) % 256) by {
            lemma_mod_multiples_vanish(ta as int, a[0] as int, 256);
            lemma_small_mod(a[0] as nat, 256);
        }
        assert(b[0] == (256 * tb + b[0]) % 256) by {
            lemma_mod_multiples_vanish(tb as int, b[0] as int, 256);
            lemma_small_mod(b[0] as nat, 256);
        }
        assert(a[0] == b[0]);
        assert(ta == tb) by (nonlinear_arith)
            requires
                a[0] + 256 * ta == b[0] + 256 * tb,
                a[0] == b[0],
        ;
        lemma_le_val_injective(a.drop_first(), b.drop_first());
        assert forall|i: int| 0 <= i < a.len() implies a[i] == b[i] by {
            if i > 0 {
                assert(a[i] == a.drop_first()[i - 1]);
                assert(b[i] == b.drop_first()[i - 1]);
            }
        }
        assert(a =~= b);
    }
}

/// Bit `k` (counted from the least significant end) of the value of `s` is bit
/// `k % 8` of byte `k / 8`.
pub proof fn lemma_le_val_bit(s: Seq<u8>, k: int)
    requires
        0 <= k < 8 * s.len(),
    ensures
        (le_val(s) / pow2(k as nat)) % 2 == (s[k / 8] as nat / pow2((k % 8) as nat)) % 2,
    decreases s.len(),
{
    lemma_pow2_pos(k as nat);
    let t: nat = le_val(s.drop_first());
    if k < 8 {
        lemma_pow2_pos((8 - k) as nat);
        lemma_pow2_pos((7 - k) as nat);
        let pk: int = pow2(k as nat) as int;
        let pr: int = pow2((8 - k) as nat) as int;
        assert(pk * pr == 256) by {
            lemma_pow2_adds(k as nat, (8 - k) as nat);
            lemma2_to64();
        }
        assert(le_val(s) == s[0] + 256 * t);
        assert(le_val(s) as int / pk == pr * t + s[0] as int / pk) by {
            assert(s[0] + 256 * t == pk * (pr * t) + s[0]) by (nonlinear_arith)
                requires
                    pk * pr == 256,
            ;
            lemma_div_hoist(pr * t, s[0] as int, pk);
        }
        assert((pr * t + s[0] as int / pk) % 2 == (s[0] as int / pk) % 2) by {
            assert(pr == 2 * pow2((7 - k) as nat)) by {
                lemma_pow2_adds(1, (7 - k) as nat);
                lemma2_to64();
            }
            let h: int = pow2((7 - k) as nat) as int;
            assert(pr * t == 2 * (h * t)) by (nonlinear_arith)
                requires
                    pr == 2 * h,
            ;
            lemma_mod_multiples_vanish(h * t, s[0] as int / pk, 2);
        }
        assert(k / 8 == 0 && k % 8 == k);
    } else {
        assert(le_val(s) == s[0] + 256 * t);
        assert(le_val(s) as int / 256 == t) by {
            lemma_div_hoist(t as int, s[0] as int, 256);
            lemma_basic_div(s[0] as int, 256);
        }
        assert(pow2(k as nat) == 256 * pow2((k - 8) as nat)) by {
            lemma_pow2_adds(8, (k - 8) as nat);
            lemma2_to64();
        }
        lemma_pow2_pos((k - 8) as nat);
        assert(le_val(s) as int / pow2(k as nat) as int == t as int / pow2((k - 8) as nat) as int)
            by {
            lemma_div_denominator(le_val(s) as int, 256, pow2((k - 8) as nat) as int);
        }
        lemma_le_val_bit(s.drop_first(), k - 8);
        assert(s.drop_first()[(k - 8) / 8] == s[k / 8]) by {
            assert((k - 8) / 8 == k / 8 - 1);
        }
        assert((k - 8) % 8 == k % 8);
    }
}

/// If two equally long strings agree above position `i` and differ at `i`,
/// the one with the smaller byte at `i` has the smaller value.
pub proof fn lemma_le_val_lex(a: Seq<u8>, b: Seq<u8>, i: int)
    requires
        a.len() == b.len(),
        0 <= i < a.len(),
        a[i] < b[i],
        a.skip(i + 1) =~= b.skip(i + 1),
    ensures
        le_val(a) < le_val(b),
{
    assert(a =~= a.take(i) + (seq![a[i]] + a.skip(i + 1)));
    assert(b =~= b.take(i) + (seq![b[i]] + b.skip(i + 1)));
    let p: int = pow(256, i as nat);
    lemma_pow_positive(256, i as nat);
    lemma_le_val_append(a.take(i), seq![a[i]] + a.skip(i + 1));
    lemma_le_val_append(b.take(i), seq![b[i]] + b.skip(i + 1));
    lemma_le_val_append(seq![a[i]], a.skip(i + 1));
    lemma_le_val_append(seq![b[i]], b.skip(i + 1));
    lemma_le_val_single(a[i]);
    lemma_le_val_single(b[i]);
    assert(pow(256, 1) == 256) by {
        reveal_with_fuel(pow, 2);
    }
    let r: nat = le_val(a.skip(i + 1));
    let va: int = le_val(a.take(i)) + p * (a[i] + 256 * r);
    let vb: int = le_val(b.take(i)) + p * (b[i] + 256 * r);
    assert(le_val(a) == va);
    assert(le_val(b) == vb);
    lemma_le_val_bound(a.take(i));
    assert(a.take(i).len() == i && b.take(i).len() == i);
    assert(va < vb) by (nonlinear_arith)
        requires
            le_val(a.take(i)) < p,
            le_val(b.take(i)) >= 0,
            p > 0,
            a[i] < b[i],
            r >= 0,
            va == le_val(a.take(i)) + p * (a[i] + 256 * r),
            vb == le_val(b.take(i)) + p * (b[i] + 256 * r),
    ;
}

/// Byte `k` of the 8-byte little-endian encoding of `v`.
pub open spec fn u64_le_byte(v: u64, k: int) -> u8 {
    (((v as int) / pow(256, k as nat)) % 256) as u8
}

/// The bytes of an 8-byte string are the encoding bytes of its value.
pub proof fn lemma_u64_le_byte_of_le_val(s: Seq<u8>, k: int)
    requires
        s.len() == 8,
        0 <= k < 8,
    ensures
        u64_le_byte(le_val(s) as u64, k) == s[k],
{
    lemma_le_val_bound(s);
    lemma_pow256_8();
    let v: nat = le_val(s);
    assert(s =~= s.take(k) + s.skip(k));
    lemma_le_val_append(s.take(k), s.skip(k));
    let hi: nat = le_val(s.skip(k));
    let lo: nat = le_val(s.take(k));
    let p: int = pow(256, k as nat);
    lemma_pow_positive(256, k as nat);
    lemma_le_val_bound(s.take(k));
    assert(v as int / p == hi) by {
        lemma_div_hoist(hi as int, lo as int, p);
        lemma_basic_div(lo as int, p);
    }
    assert(hi == s[k] + 256 * le_val(s.skip(k).drop_first()));
    assert(hi % 256 == s[k]) by {
        lemma_mod_multiples_vanish(le_val(s.skip(k).drop_first()) as int, s[k] as int, 256);
        lemma_small_mod(s[k] as nat, 256);
    }
    assert(v < 0x10000000000000000);
    assert(v as u64 as nat == v);
}

/// Copies `v[start .. end]` into a fresh vector.
pub fn vec_range(v: &Vec<u8>, start: usize, end: usize) -> (r: Vec<u8>)
    requires
        start <= end <= v@.len(),
    ensures
        r@ == v@.subrange(start as int, end as int),
{
    let mut r: Vec<u8> = Vec::new();
    let mut i: usize = start;
    while i < end
        invariant
            start <= i <= end <= v@.len(),
            r@ == v@.subrange(start as int, i as int),
        decreases end - i,
    {
        r.push(v[i]);
        proof {
            assert(v@.subrange(start as int, i + 1) =~= v@.subrange(start as int, i as int).push(
                v@[i as int],
            ));
        }
        i = i + 1;
    }
    r
}

/// Writes all of `src` into `dst` starting at `off`; no other byte moves.
pub fn write_range(dst: &mut Vec<u8>, off: usize, src: &Vec<u8>)
    requires
        off + src@.len() <= old(dst)@.len(),
    ensures
        final(dst)@.len() == old(dst)@.len(),
        final(dst)@.subrange(off as int, off + src@.len()) == src@,
        forall|j: int|
            off <= j < off + src@.len() ==> final(dst)@[j] == src@[j - off],
        forall|j: int|
            0 <= j < old(dst)@.len() && !(off <= j < off + src@.len()) ==> final(dst)@[j] == old(
                dst,
            )@[j],
{
    let n: usize = dst.len();
    let m: usize = src.len();
    let mut i: usize = 0;
    while i < m
        invariant
            i <= m == src@.len(),
            off + m <= n == dst@.len(),
            dst@.len() == old(dst)@.len(),
            forall|k: int| 0 <= k < i ==> dst@[off + k] == src@[k],
            forall|j: int|
                0 <= j < old(dst)@.len() && !(off <= j < off + i) ==> dst@[j] == old(dst)@[j],
        decreases m - i,
    {
        dst[off + i] = src[i];
        i = i + 1;
    }
    proof {
        assert(dst@.subrange(off as int, off + src@.len()) =~= src@);
    }
}

/// Writes all of `src` into `dst` at `off` when `flag` holds; otherwise
/// leaves `dst` untouched.
pub fn write_range_if(dst: &mut Vec<u8>, off: usize, src: &Vec<u8>, flag: bool)
    requires
        off + src@.len() <= old(dst)@.len(),
    ensures
        final(dst)@.len() == old(dst)@.len(),
        forall|j: int|
            #![trigger final(dst)@[j]]
            off <= j < off + src@.len() ==> final(dst)@[j] == (if flag {
                src@[j - off]
            } else {
                old(dst)@[j]
            }),
        forall|j: int|
            #![trigger final(dst)@[j]]
            0 <= j < old(dst)@.len() && !(off <= j < off + src@.len()) ==> final(dst)@[j] == old(
                dst,
            )@[j],
{
    if flag {
        write_range(dst, off, src);
    }
}

/// Writes the byte `b` at `idx` when `flag` holds; otherwise leaves `dst`
/// untouched.
pub fn write_byte_if(dst: &mut Vec<u8>, idx: usize, b: u8, flag: bool)
    requires
        idx < old(dst)@.len(),
    ensures
        final(dst)@.len() == old(dst)@.len(),
        final(dst)@[idx as int] == (if flag {
            b
        } else {
            old(dst)@[idx as int]
        }),
        forall|j: int|
            #![trigger final(dst)@[j]]
            0 <= j < old(dst)@.len() && j != idx ==> final(dst)@[j] == old(dst)@[j],
{
    if flag {
        dst[idx] = b;
    }
}

/// Reads the `u64` stored little-endian in `s[off .. off + 8]`.
pub fn u64_from_le(s: &Vec<u8>, off: usize) -> (v: u64)
    requires
        off + 8 <= s@.len(),
    ensures
        v == le_val(s@.subrange(off as int, off + 8)),
{
    let n: usize = s.len();
    let mut v: u64 = 0;
    let mut i: usize = 0;
    proof {
        vstd::arithmetic::power::lemma_pow0(256);
        assert(s@.subrange(off + 8 - 0, off + 8) =~= Seq::<u8>::empty());
        assert(le_val(Seq::<u8>::empty()) == 0);
    }
    while i < 8
        invariant
            i <= 8,
            off + 8 <= n == s@.len(),
            v == le_val(s@.subrange(off + 8 - i, off + 8)),
            v < pow(256, i as nat),
        decreases 8 - i,
    {
        let j: usize = off + 7 - i;
        proof {
            let suffix = s@.subrange(off + 8 - i, off + 8);
            let next = s@.subrange(j as int, off + 8);
            assert(next.drop_first() =~= suffix);
            assert(next[0] == s@[j as int]);
            lemma_pow_positive(256, i as nat);
            assert(pow(256, (i + 1) as nat) == 256 * pow(256, i as nat)) by {
                lemma_pow_adds(256, 1, i as nat);
                reveal_with_fuel(pow, 2);
            }
            assert(v * 256 + 255 < pow(256, (i + 1) as nat)) by (nonlinear_arith)
                requires
                    v < pow(256, i as nat),
                    pow(256, (i + 1) as nat) == 256 * pow(256, i as nat),
            ;
            lemma_pow256_8();
            lemma_pow_increases(256, (i + 1) as nat, 8);
        }
        v = v * 256 + (s[j] as u64);
        i = i + 1;
    }
    proof {
        assert(s@.subrange(off as int, off + 8) =~= s@.subrange(off + 8 - 8, off + 8));
    }
    v
}

/// Writes `v` little-endian over `dst[off .. off + 8]`; no other byte moves.
pub fn u64_to_le(dst: &mut Vec<u8>, off: usize, v: u64)
    requires
        off + 8 <= old(dst)@.len(),
    ensures
        final(dst)@.len() == old(dst)@.len(),
        le_val(final(dst)@.subrange(off as int, off + 8)) == v,
        forall|j: int|
            #![trigger final(dst)@[j]]
            off <= j < off + 8 ==> final(dst)@[j] == u64_le_byte(v, j - off),
        forall|j: int|
            #![trigger final(dst)@[j]]
            0 <= j < old(dst)@.len() && !(off <= j < off + 8) ==> final(dst)@[j] == old(dst)@[j],
{
    proof {
        lemma_pow256_8();
    }
    let n: usize = dst.len();
    let mut tmp: u64 = v;
    let mut i: usize = 0;
    proof {
        vstd::arithmetic::power::lemma_pow0(256);
        assert(dst@.subrange(off as int, off as int) =~= Seq::<u8>::empty());
        assert(le_val(Seq::<u8>::empty()) == 0);
    }
    while i < 8
        invariant
            i <= 8,
            off + 8 <= n == dst@.len(),
            dst@.len() == old(dst)@.len(),
            v == le_val(dst@.subrange(off as int, off + i as int)) + tmp * pow(256, i as nat),
            forall|j: int|
                0 <= j < old(dst)@.len() && !(off <= j < off + i) ==> dst@[j] == old(dst)@[j],
        decreases 8 - i,
    {
        let b: u8 = (tmp % 256) as u8;
        let ghost prefix = dst@.subrange(off as int, off + i as int);
        dst[off + i] = b;
        proof {
            let prefix2 = dst@.subrange(off as int, off + i + 1);
            assert(prefix2 =~= prefix + seq![b]);
            lemma_le_val_append(prefix, seq![b]);
            lemma_le_val_single(b);
            lemma_fundamental_div_mod(tmp as int, 256);
            assert(b == tmp % 256);
            assert(tmp == 256 * (tmp / 256) + b);
            assert(le_val(prefix2) == le_val(prefix) + pow(256, i as nat) * b);
            assert(tmp * pow(256, i as nat) == b * pow(256, i as nat) + (tmp / 256) * (256 * pow(
                256,
                i as nat,
            ))) by (nonlinear_arith)
                requires
                    tmp == 256 * (tmp / 256) + b,
            ;
            assert(256 * pow(256, i as nat) == pow(256, (i + 1) as nat)) by {
                lemma_pow_adds(256, 1, i as nat);
                reveal_with_fuel(pow, 2);
            }
        }
        tmp = tmp / 256;
        i = i + 1;
    }
    proof {
        assert(tmp == 0) by {
            lemma_pow256_8();
            if tmp > 0 {
                assert(tmp * pow(256, 8) >= pow(256, 8)) by (nonlinear_arith)
                    requires
                        tmp >= 1,
                        pow(256, 8) > 0,
                ;
            }
        }
        let sub = dst@.subrange(off as int, off + 8);
        assert forall|k: int| 0 <= k < 8 implies dst@[off + k] == u64_le_byte(v, k) by {
            lemma_u64_le_byte_of_le_val(sub, k);
            assert(sub[k] == dst@[off + k]);
        }
    }
}

} // verus!
