//! Shared arithmetic: half-up rounding of a quotient, the Q64.64 squaring
//! that price normalization needs, and the lexicographic ordering of 32-byte
//! identifiers.

use vstd::prelude::*;

verus! {

/// 2^64, the scale of one Q64.64 fixed-point unit.
pub open spec fn pow2_64() -> int {
    0x10000000000000000int
}

/// 2^128, the scale of a squared Q64.64 value.
pub open spec fn pow2_128() -> int {
    0x100000000000000000000000000000000int
}

/// `a / b` rounded half away from zero (half up, as both are non-negative).
pub open spec fn rnd_div(a: int, b: int) -> int
    recommends
        a >= 0,
        b > 0,
{
    a / b + if 2 * (a % b) >= b {
        1int
    } else {
        0int
    }
}

/// A common positive factor of dividend and divisor drops out of the
/// rounded quotient: `rnd_div(k * a, k * b) == rnd_div(a, b)`.
pub proof fn lemma_rnd_div_cancel(k: int, a: int, b: int)
    requires
        k > 0,
        a >= 0,
        b > 0,
    ensures
        rnd_div(k * a, k * b) == rnd_div(a, b),
{
    let q = a / b;
    let r = a % b;
    vstd::arithmetic::div_mod::lemma_fundamental_div_mod(a, b);
    vstd::arithmetic::div_mod::lemma_mod_pos_bound(a, b);
    assert(k * a == (k * b) * q + k * r) by (nonlinear_arith)
        requires
            a == b * q + r,
    ;
    assert(0 <= k * r < k * b) by (nonlinear_arith)
        requires
            0 <= r < b,
            k > 0,
    ;
    vstd::arithmetic::div_mod::lemma_fundamental_div_mod_converse(k * a, k * b, q, k * r);
    assert((2 * (k * r) >= k * b) == (2 * r >= b)) by (nonlinear_arith)
        requires
            k > 0,
    ;
}

/// Byte-wise equality of two fixed-size identifiers.
pub fn bytes_eq<const N: usize>(x: &[u8; N], y: &[u8; N]) -> (r: bool)
    ensures
        r == (x@ == y@),
{
    let mut i: usize = 0;
    while i < N
        invariant
            0 <= i <= N,
            forall|j: int| 0 <= j < i ==> x@[j] == y@[j],
        decreases N - i,
    {
        if x[i] != y[i] {
            return false;
        }
        i = i + 1;
    }
    proof {
        assert(x@ =~= y@);
    }
    true
}

/// Lexicographic order on byte strings, the deterministic tie-break that
/// decides which side of a market a mint plays.
pub open spec fn lex_lt(a: Seq<u8>, b: Seq<u8>) -> bool
    decreases a.len(),
{
    if a.len() == 0 {
        b.len() > 0
    } else if b.len() == 0 {
        false
    } else if a[0] != b[0] {
        a[0] < b[0]
    } else {
        lex_lt(a.skip(1), b.skip(1))
    }
}

/// Decides `lex_lt` on two 32-byte identifiers.
pub fn key_lt(x: &[u8; 32], y: &[u8; 32]) -> (r: bool)
    ensures
        r == lex_lt(x@, y@),
{
    let mut i: usize = 0;
    proof {
        assert(x@.skip(0) =~= x@);
        assert(y@.skip(0) =~= y@);
    }
    while i < 32
        invariant
            0 <= i <= 32,
            lex_lt(x@, y@) == lex_lt(x@.skip(i as int), y@.skip(i as int)),
        decreases 32 - i,
    {
        if x[i] < y[i] {
            return true;
        }
        if x[i] > y[i] {
            return false;
        }
        proof {
            assert(x@.skip(i as int).skip(1) =~= x@.skip(i + 1));
            assert(y@.skip(i as int).skip(1) =~= y@.skip(i + 1));
        }
        i = i + 1;
    }
    proof {
        assert(x@.skip(32) =~= Seq::<u8>::empty());
    }
    false
}

/// Splits the product of two 128-bit values into its high and low 128-bit
/// halves: `x * y == r.0 * 2^128 + r.1`.
pub fn mul_wide(x: u128, y: u128) -> (r: (u128, u128))
    ensures
        r.0 * pow2_128() + r.1 == x * y,
{
    let t: u128 = 0x10000000000000000;
    let a1: u128 = x / t;
    let a0: u128 = x % t;
    let b1: u128 = y / t;
    let b0: u128 = y % t;
    proof {
        vstd::arithmetic::div_mod::lemma_fundamental_div_mod(x as int, t as int);
        vstd::arithmetic::div_mod::lemma_mod_pos_bound(x as int, t as int);
        vstd::arithmetic::div_mod::lemma_fundamental_div_mod(y as int, t as int);
        vstd::arithmetic::div_mod::lemma_mod_pos_bound(y as int, t as int);
        assert(a1 < t && b1 < t) by (nonlinear_arith)
            requires
                x == t * a1 + a0,
                y == t * b1 + b0,
                0 <= a0,
                0 <= a1,
                0 <= b0,
                0 <= b1,
                x < 0x100000000000000000000000000000000int,
                y < 0x100000000000000000000000000000000int,
                t == 0x10000000000000000int,
        ;
        assert(a0 * b0 <= (t - 1) * (t - 1) && a0 * b1 <= (t - 1) * (t - 1) && a1 * b0 <= (t - 1)
            * (t - 1) && a1 * b1 <= (t - 1) * (t - 1)) by (nonlinear_arith)
            requires
                0 <= a0 <= t - 1,
                0 <= a1 <= t - 1,
                0 <= b0 <= t - 1,
                0 <= b1 <= t - 1,
        ;
    }
    let p00: u128 = a0 * b0;
    let p01: u128 = a0 * b1;
    let p10: u128 = a1 * b0;
    let p11: u128 = a1 * b1;
    proof {
        vstd::arithmetic::div_mod::lemma_fundamental_div_mod(p00 as int, t as int);
        vstd::arithmetic::div_mod::lemma_mod_pos_bound(p00 as int, t as int);
        assert(p00 / t < t) by (nonlinear_arith)
            requires
                p00 == t * (p00 / t) + p00 % t,
                0 <= p00 % t,
                p00 <= (t - 1) * (t - 1),
                t == 0x10000000000000000int,
                0 <= p00 / t,
        ;
    }
    let t1: u128 = p10 + p00 / t;
    proof {
        vstd::arithmetic::div_mod::lemma_fundamental_div_mod(t1 as int, t as int);
        vstd::arithmetic::div_mod::lemma_mod_pos_bound(t1 as int, t as int);
    }
    let t2: u128 = p01 + t1 % t;
    proof {
        vstd::arithmetic::div_mod::lemma_fundamental_div_mod(t2 as int, t as int);
        vstd::arithmetic::div_mod::lemma_mod_pos_bound(t2 as int, t as int);
        assert(t1 / t < t && t2 / t < t) by (nonlinear_arith)
            requires
                t1 == t * (t1 / t) + t1 % t,
                t2 == t * (t2 / t) + t2 % t,
                0 <= t1 % t,
                0 <= t2 % t,
                0 <= t1 / t,
                0 <= t2 / t,
                t1 < 0x100000000000000000000000000000000int,
                t2 < 0x100000000000000000000000000000000int,
                t == 0x10000000000000000int,
        ;
    }
    let hi: u128 = p11 + t1 / t + t2 / t;
    let lo: u128 = (t2 % t) * t + p00 % t;
    proof {
        assert(x * y == (t * t) * p11 + t * p01 + t * p10 + p00) by (nonlinear_arith)
            requires
                x == t * a1 + a0,
                y == t * b1 + b0,
                p00 == a0 * b0,
                p01 == a0 * b1,
                p10 == a1 * b0,
                p11 == a1 * b1,
        ;
        assert(hi * pow2_128() + lo == x * y) by {
            assert(pow2_128() == t * t);
            assert(hi * pow2_128() == (t * t) * p11 + (t * t) * (t1 / t) + (t * t) * (t2 / t))
                by (nonlinear_arith)
                requires
                    hi == p11 + t1 / t + t2 / t,
                    pow2_128() == t * t,
            ;
            assert((t * t) * (t1 / t) == t * (t * (t1 / t))) by (nonlinear_arith);
            assert((t * t) * (t2 / t) == t * (t * (t2 / t))) by (nonlinear_arith);
            assert(t * (t * (t1 / t)) == t * (t1 - t1 % t)) by (nonlinear_arith)
                requires
                    t * (t1 / t) == t1 - t1 % t,
            ;
            assert(t * (t * (t2 / t)) == t * (t2 - t2 % t)) by (nonlinear_arith)
                requires
                    t * (t2 / t) == t2 - t2 % t,
            ;
            assert(t * (t1 - t1 % t) + t * (t2 - t2 % t) + t * (t2 % t) == t * (t1 + t2 - t1 % t))
                by (nonlinear_arith);
            assert(t * (t1 + t2 - t1 % t) == t * (p10 + p01 + p00 / t)) by (nonlinear_arith)
                requires
                    t1 == p10 + p00 / t,
                    t2 == p01 + t1 % t,
            ;
            assert(t * (p10 + p01 + p00 / t) == t * p10 + t * p01 + t * (p00 / t))
                by (nonlinear_arith);
        }
    }
    (hi, lo)
}

/// Divides a 256-bit value, given as high and low 128-bit halves, by a
/// positive 64-bit divisor: the 256-bit quotient comes back in the same two
/// halves, together with the remainder.
pub fn div_wide_u64(hi: u128, lo: u128, d: u64) -> (r: (u128, u128, u64))
    requires
        d > 0,
    ensures
        hi * pow2_128() + lo == d * (r.0 * pow2_128() + r.1) + r.2,
        r.2 < d,
{
    let t: u128 = 0x10000000000000000;
    let dw: u128 = d as u128;
    let n3: u128 = hi / t;
    let n2: u128 = hi % t;
    let n1: u128 = lo / t;
    let n0: u128 = lo % t;
    proof {
        vstd::arithmetic::div_mod::lemma_fundamental_div_mod(hi as int, t as int);
        vstd::arithmetic::div_mod::lemma_mod_pos_bound(hi as int, t as int);
        vstd::arithmetic::div_mod::lemma_fundamental_div_mod(lo as int, t as int);
        vstd::arithmetic::div_mod::lemma_mod_pos_bound(lo as int, t as int);
        assert(n3 < t && n1 < t) by (nonlinear_arith)
            requires
                hi == t * n3 + n2,
                lo == t * n1 + n0,
                0 <= n2,
                0 <= n0,
                0 <= n3,
                0 <= n1,
                hi < 0x100000000000000000000000000000000int,
                lo < 0x100000000000000000000000000000000int,
                t == 0x10000000000000000int,
        ;
    }
    let q3: u128 = n3 / dw;
    let r3: u128 = n3 % dw;
    proof {
        vstd::arithmetic::div_mod::lemma_fundamental_div_mod(n3 as int, dw as int);
        vstd::arithmetic::div_mod::lemma_mod_pos_bound(n3 as int, dw as int);
        assert(q3 < t) by (nonlinear_arith)
            requires
                n3 == dw * q3 + r3,
                0 <= r3,
                0 <= q3,
                dw >= 1,
                n3 < t,
        ;
    }
    let c2: u128 = r3 * t + n2;
    let q2: u128 = c2 / dw;
    let r2: u128 = c2 % dw;
    proof {
        vstd::arithmetic::div_mod::lemma_fundamental_div_mod(c2 as int, dw as int);
        vstd::arithmetic::div_mod::lemma_mod_pos_bound(c2 as int, dw as int);
        assert(q2 < t) by (nonlinear_arith)
            requires
                c2 == dw * q2 + r2,
                0 <= r2,
                0 <= q2,
                c2 <= (dw - 1) * t + t - 1,
                dw >= 1,
                t == 0x10000000000000000int,
        ;
    }
    let c1: u128 = r2 * t + n1;
    let q1: u128 = c1 / dw;
    let r1: u128 = c1 % dw;
    proof {
        vstd::arithmetic::div_mod::lemma_fundamental_div_mod(c1 as int, dw as int);
        vstd::arithmetic::div_mod::lemma_mod_pos_bound(c1 as int, dw as int);
        assert(q1 < t) by (nonlinear_arith)
            requires
                c1 == dw * q1 + r1,
                0 <= r1,
                0 <= q1,
                c1 <= (dw - 1) * t + t - 1,
                dw >= 1,
                t == 0x10000000000000000int,
        ;
    }
    let c0: u128 = r1 * t + n0;
    let q0: u128 = c0 / dw;
    let r0: u128 = c0 % dw;
    proof {
        vstd::arithmetic::div_mod::lemma_fundamental_div_mod(c0 as int, dw as int);
        vstd::arithmetic::div_mod::lemma_mod_pos_bound(c0 as int, dw as int);
        assert(q0 < t) by (nonlinear_arith)
            requires
                c0 == dw * q0 + r0,
                0 <= r0,
                0 <= q0,
                c0 <= (dw - 1) * t + t - 1,
                dw >= 1,
                t == 0x10000000000000000int,
        ;
    }
    let qhi: u128 = q3 * t + q2;
    let qlo: u128 = q1 * t + q0;
    proof {
        assert(hi * 0x100000000000000000000000000000000int + lo == dw * (qhi
            * 0x100000000000000000000000000000000int + qlo) + r0) by (nonlinear_arith)
            requires
                hi == t * n3 + n2,
                lo == t * n1 + n0,
                n3 == dw * q3 + r3,
                r3 * t + n2 == dw * q2 + r2,
                r2 * t + n1 == dw * q1 + r1,
                r1 * t + n0 == dw * q0 + r0,
                qhi == q3 * t + q2,
                qlo == q1 * t + q0,
                t == 0x10000000000000000int,
        ;
    }
    (qhi, qlo, r0 as u64)
}

/// Computes `2^128 / d` exactly, without a 256-bit dividend.
pub fn div_pow2_128(d: u128) -> (q: u128)
    requires
        d > 0x10000000000000000,
    ensures
        q == pow2_128() / (d as int),
{
    let qm: u128 = u128::MAX / d;
    let rm: u128 = u128::MAX % d;
    proof {
        vstd::arithmetic::div_mod::lemma_fundamental_div_mod(u128::MAX as int, d as int);
        vstd::arithmetic::div_mod::lemma_mod_pos_bound(u128::MAX as int, d as int);
        assert(qm < 0x10000000000000000) by (nonlinear_arith)
            requires
                u128::MAX as int == d * qm + rm,
                0 <= rm,
                0 <= qm,
                d > 0x10000000000000000int,
        ;
    }
    if rm + 1 == d {
        proof {
            assert((qm + 1) * (d as int) == (d as int) * qm + d) by (nonlinear_arith);
            vstd::arithmetic::div_mod::lemma_fundamental_div_mod_converse(
                pow2_128(),
                d as int,
                qm + 1,
                0,
            );
        }
        qm + 1
    } else {
        proof {
            assert(qm * (d as int) == (d as int) * qm) by (nonlinear_arith);
            vstd::arithmetic::div_mod::lemma_fundamental_div_mod_converse(
                pow2_128(),
                d as int,
                qm as int,
                rm + 1,
            );
        }
        qm
    }
}

} // verus!
