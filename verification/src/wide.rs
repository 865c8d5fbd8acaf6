//! Double-width arithmetic: the full 256-bit product of two `u128` values,
//! held as a pair of 128-bit limbs.

use vstd::arithmetic::div_mod::lemma_fundamental_div_mod;
use vstd::arithmetic::div_mod::lemma_mod_bound;
use vstd::prelude::*;

verus! {

/// One past the largest 64-bit value: the radix of the half-width limbs.
pub const RADIX_64: u128 = 0x1_0000_0000_0000_0000;

/// The number a pair of 128-bit limbs stands for: `hi * 2^128 + lo`.
pub open spec fn wide_val(hi: u128, lo: u128) -> int {
    hi * 0x1_0000_0000_0000_0000_0000_0000_0000_0000int + lo
}

/// The full product of two `u128` values, as a pair of 128-bit limbs:
/// schoolbook multiplication on 64-bit half-limbs, with explicit carries.
pub fn mul_wide(a: u128, b: u128) -> (r: (u128, u128))
    ensures
        wide_val(r.0, r.1) == a * b,
{
    let a1: u128 = a / RADIX_64;
    let a0: u128 = a % RADIX_64;
    let b1: u128 = b / RADIX_64;
    let b0: u128 = b % RADIX_64;
    proof {
        let t: int = 0x1_0000_0000_0000_0000int;
        lemma_fundamental_div_mod(a as int, t);
        lemma_mod_bound(a as int, t);
        lemma_fundamental_div_mod(b as int, t);
        lemma_mod_bound(b as int, t);
        assert(a1 < t) by (nonlinear_arith)
            requires
                a1 == a as int / t,
                a <= 0xffff_ffff_ffff_ffff_ffff_ffff_ffff_ffffint,
                t == 0x1_0000_0000_0000_0000int,
        ;
        assert(b1 < t) by (nonlinear_arith)
            requires
                b1 == b as int / t,
                b <= 0xffff_ffff_ffff_ffff_ffff_ffff_ffff_ffffint,
                t == 0x1_0000_0000_0000_0000int,
        ;
        assert(a0 * b0 <= 0xffff_ffff_ffff_fffe_0000_0000_0000_0001int && a0 * b1
            <= 0xffff_ffff_ffff_fffe_0000_0000_0000_0001int && a1 * b0
            <= 0xffff_ffff_ffff_fffe_0000_0000_0000_0001int && a1 * b1
            <= 0xffff_ffff_ffff_fffe_0000_0000_0000_0001int) by (nonlinear_arith)
            requires
                a0 <= 0xffff_ffff_ffff_ffffint,
                a1 <= 0xffff_ffff_ffff_ffffint,
                b0 <= 0xffff_ffff_ffff_ffffint,
                b1 <= 0xffff_ffff_ffff_ffffint,
        ;
    }
    let p00: u128 = a0 * b0;
    let p01: u128 = a0 * b1;
    let p10: u128 = a1 * b0;
    let p11: u128 = a1 * b1;
    proof {
        let t: int = 0x1_0000_0000_0000_0000int;
        lemma_fundamental_div_mod(p00 as int, t);
        lemma_mod_bound(p00 as int, t);
        lemma_fundamental_div_mod(p01 as int, t);
        lemma_mod_bound(p01 as int, t);
        lemma_fundamental_div_mod(p10 as int, t);
        lemma_mod_bound(p10 as int, t);
        assert(p00 as int / t < t && p01 as int / t < t && p10 as int / t < t)
            by (nonlinear_arith)
            requires
                p00 <= 0xffff_ffff_ffff_fffe_0000_0000_0000_0001int,
                p01 <= 0xffff_ffff_ffff_fffe_0000_0000_0000_0001int,
                p10 <= 0xffff_ffff_ffff_fffe_0000_0000_0000_0001int,
                t == 0x1_0000_0000_0000_0000int,
        ;
    }
    let mids: u128 = p00 / RADIX_64 + p01 % RADIX_64 + p10 % RADIX_64;
    proof {
        let t: int = 0x1_0000_0000_0000_0000int;
        lemma_fundamental_div_mod(mids as int, t);
        lemma_mod_bound(mids as int, t);
        assert(mids as int / t <= 3) by (nonlinear_arith)
            requires
                mids < 3 * 0x1_0000_0000_0000_0000int,
                t == 0x1_0000_0000_0000_0000int,
        ;
        assert((mids as int % t) * t <= (t - 1) * t) by (nonlinear_arith)
            requires
                mids as int % t <= t - 1,
                t == 0x1_0000_0000_0000_0000int,
        ;
    }
    let lo: u128 = (mids % RADIX_64) * RADIX_64 + p00 % RADIX_64;
    let hi: u128 = p11 + p01 / RADIX_64 + p10 / RADIX_64 + mids / RADIX_64;
    proof {
        let t: int = 0x1_0000_0000_0000_0000int;
        assert(a * b == p11 * t * t + p01 * t + p10 * t + p00) by (nonlinear_arith)
            requires
                a == a1 * t + a0,
                b == b1 * t + b0,
                p00 == a0 * b0,
                p01 == a0 * b1,
                p10 == a1 * b0,
                p11 == a1 * b1,
        ;
        assert(hi * (t * t) + lo == p11 * t * t + p01 * t + p10 * t + p00) by (nonlinear_arith)
            requires
                p00 == (p00 as int / t) * t + p00 as int % t,
                p01 == (p01 as int / t) * t + p01 as int % t,
                p10 == (p10 as int / t) * t + p10 as int % t,
                mids == (mids as int / t) * t + mids as int % t,
                mids == p00 as int / t + p01 as int % t + p10 as int % t,
                hi == p11 + p01 as int / t + p10 as int / t + mids as int / t,
                lo == (mids as int % t) * t + p00 as int % t,
        ;
        assert(t * t == 0x1_0000_0000_0000_0000_0000_0000_0000_0000int) by (nonlinear_arith)
            requires
                t == 0x1_0000_0000_0000_0000int,
        ;
    }
    (hi, lo)
}

} // verus!
