use cl_verifier::arith::mod_exp;
use cl_verifier::arith::mod_mul;

#[test]
fn mod_mul_works() {
    assert_eq!(mod_mul(3, 4, 5), 2);
    assert_eq!(mod_mul(0, 4, 5), 0);
    assert_eq!(mod_mul(999_999_999, 999_999_999, 1_000_000_007), 64);
}

#[test]
fn mod_exp_works() {
    assert_eq!(mod_exp(3, 5, 7), 5);
    assert_eq!(mod_exp(2, 0, 7), 1);
    assert_eq!(mod_exp(0, 5, 7), 0);
    assert_eq!(mod_exp(2, 10, 1_000_000_007), 1024);
    // Fermat: a^(p-1) = 1 mod p for prime p and a not divisible by p.
    assert_eq!(mod_exp(123_456, 1_000_000_006, 1_000_000_007), 1);
}

#[test]
fn mod_exp_large_exponent_works() {
    // 2^(2^100) mod p cycles with period dividing p - 1.
    let e: u128 = 1 << 100;
    let reduced: u128 = e % 1_000_000_006;
    assert_eq!(
        mod_exp(2, e, 1_000_000_007),
        mod_exp(2, reduced, 1_000_000_007)
    );
}
