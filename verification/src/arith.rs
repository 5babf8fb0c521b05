//! Modular arithmetic over the residue ring the issuer's modulus defines.
//!
//! Every verification equation of the engine is an expression built from
//! modular multiplication and modular exponentiation; the two executable
//! routines here are proved against the mathematical `pow` function.

use vstd::prelude::*;
use vstd::arithmetic::power::{
    pow, lemma_pow0, lemma_pow1, lemma_pow_adds, lemma_pow_multiplies, lemma_pow_mod_noop,
    lemma_square_is_pow2,
};
use vstd::arithmetic::mul::{lemma_mul_is_associative, lemma_mul_upper_bound};
use vstd::arithmetic::div_mod::{lemma_mul_mod_noop_general, lemma_small_mod};

verus! {

/// `b^e mod n`: the reference meaning of every exponentiation the
/// verification equations perform.
pub open spec fn pow_mod(b: int, e: nat, n: int) -> int {
    pow(b, e) % n
}

/// An odd power splits off one factor of the base and squares the rest.
proof fn lemma_pow_odd(b: int, e: nat)
    requires
        e % 2 == 1,
    ensures
        pow(b, e) == b * pow(b * b, ((e - 1) / 2) as nat),
{
    let h = ((e - 1) / 2) as nat;
    lemma_square_is_pow2(b);
    lemma_pow_multiplies(b, 2, h);
    assert(pow(b, (2 * h) as nat) == pow(b * b, h));
    lemma_pow1(b);
    lemma_pow_adds(b, 1, (2 * h) as nat);
    assert(1 + 2 * h == e);
}

/// An even power is a power of the square.
proof fn lemma_pow_even(b: int, e: nat)
    requires
        e % 2 == 0,
    ensures
        pow(b, e) == pow(b * b, (e / 2) as nat),
{
    lemma_square_is_pow2(b);
    lemma_pow_multiplies(b, 2, (e / 2) as nat);
    assert(2 * ((e / 2) as nat) == e);
}

/// Multiplying congruent factors gives congruent products.
pub proof fn lemma_mod_mul_congruent(a1: int, a2: int, b1: int, b2: int, n: int)
    requires
        n >= 1,
        a1 % n == a2 % n,
        b1 % n == b2 % n,
    ensures
        (a1 * b1) % n == (a2 * b2) % n,
{
    lemma_mul_mod_noop_general(a1, b1, n);
    lemma_mul_mod_noop_general(a2, b2, n);
}

/// Product of two residues, reduced by the modulus.
pub fn mod_mul(a: u64, b: u64, n: u64) -> (r: u64)
    requires
        n >= 2,
        a < n,
        b < n,
    ensures
        r as int == (a as int * b as int) % (n as int),
        r < n,
{
    proof {
        lemma_mul_upper_bound(a as int, 0xffff_ffff_ffff_ffff, b as int, 0xffff_ffff_ffff_ffff);
    }
    (((a as u128) * (b as u128)) % (n as u128)) as u64
}

/// Modular exponentiation by square-and-multiply.
pub fn mod_exp(base: u64, exp: u128, n: u64) -> (r: u64)
    requires
        n >= 2,
        base < n,
    ensures
        r as int == pow_mod(base as int, exp as nat, n as int),
        r < n,
{
    let mut result: u64 = 1;
    let mut b: u64 = base;
    let mut e: u128 = exp;
    while e > 0
        invariant
            n >= 2,
            result < n,
            b < n,
            (result as int * pow(b as int, e as nat)) % (n as int)
                == pow(base as int, exp as nat) % (n as int),
        decreases e,
    {
        let ghost r0 = result as int;
        let ghost b0 = b as int;
        let ghost e0 = e as nat;
        let ghost ni = n as int;
        let ghost h = (e0 / 2) as nat;
        if e % 2 == 1 {
            result = mod_mul(result, b, n);
            proof {
                lemma_pow_odd(b0, e0);
                assert((e0 - 1) / 2 == e0 / 2);
                // r0 * pow(b0, e0) == (r0 * b0) * pow(b0 * b0, h)
                lemma_mul_is_associative(r0, b0, pow(b0 * b0, h));
                lemma_small_mod(result as nat, n as nat);
                lemma_pow_mod_noop(b0 * b0, h, ni);
                lemma_mod_mul_congruent(
                    r0 * b0,
                    result as int,
                    pow(b0 * b0, h),
                    pow((b0 * b0) % ni, h),
                    ni,
                );
            }
        } else {
            proof {
                lemma_pow_even(b0, e0);
                lemma_small_mod(result as nat, n as nat);
                lemma_pow_mod_noop(b0 * b0, h, ni);
                lemma_mod_mul_congruent(
                    r0,
                    result as int,
                    pow(b0 * b0, h),
                    pow((b0 * b0) % ni, h),
                    ni,
                );
            }
        }
        b = mod_mul(b, b, n);
        e = e / 2;
        proof {
            assert(b as int == (b0 * b0) % ni);
            assert((result as int * pow(b as int, e as nat)) % ni
                == pow(base as int, exp as nat) % ni);
        }
    }
    proof {
        lemma_pow0(b as int);
        lemma_small_mod(result as nat, n as nat);
    }
    result
}

} // verus!
