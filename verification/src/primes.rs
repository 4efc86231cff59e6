//! Prime anchors: primality, divisibility and the greatest common divisor.
use num_integer::Integer;
use vstd::arithmetic::div_mod::{lemma_fundamental_div_mod, lemma_mod_multiples_basic, lemma_small_mod};
use vstd::prelude::*;

verus! {

/// `n` is prime: greater than one, and no number strictly between one and `n` divides it.
pub open spec fn prime(n: nat) -> bool {
    &&& n > 1
    &&& forall|d: nat| 1 < d < n ==> #[trigger] (n % d) != 0
}

/// The greatest common divisor, by Euclid's recursion (`gcd(a, 0) == a`).
pub open spec fn spec_gcd(a: nat, b: nat) -> nat
    decreases b,
{
    if b == 0 {
        a
    } else {
        spec_gcd(b, a % b)
    }
}

/// If `k` divides `d` and `d` divides `n`, then `k` divides `n`.
pub proof fn lemma_divides_transitive(n: nat, d: nat, k: nat)
    requires
        d > 0,
        k > 0,
        n % d == 0,
        d % k == 0,
    ensures
        n % k == 0,
{
    lemma_fundamental_div_mod(n as int, d as int);
    lemma_fundamental_div_mod(d as int, k as int);
    let a = n / d;
    let b = d / k;
    assert(n == (b * a) * k) by (nonlinear_arith)
        requires
            n == d * a,
            d == k * b,
    ;
    lemma_mod_multiples_basic((b * a) as int, k as int);
}

/// A positive multiple of `d` is at least `d`.
pub proof fn lemma_divisor_le(n: nat, d: nat)
    requires
        d > 0,
        n > 0,
        n % d == 0,
    ensures
        d <= n,
{
    lemma_fundamental_div_mod(n as int, d as int);
    let q = n / d;
    assert(d <= n) by (nonlinear_arith)
        requires
            n == d * q,
            n > 0,
            d > 0,
    ;
}

/// The cofactor `n / d` of a proper divisor `d` is itself a proper divisor of `n`.
proof fn lemma_cofactor(n: nat, d: nat)
    requires
        1 < d < n,
        n % d == 0,
    ensures
        n == d * (n / d),
        1 < n / d < n,
        n % (n / d) == 0,
{
    lemma_fundamental_div_mod(n as int, d as int);
    let q = n / d;
    assert(1 < q < n) by (nonlinear_arith)
        requires
            n == d * q,
            1 < d < n,
    ;
    assert(n == d * q);
    lemma_mod_multiples_basic(d as int, q as int);
    assert(d * q == q * d) by (nonlinear_arith);
}

/// A composite number has a proper divisor whose square does not exceed it.
proof fn lemma_small_divisor(n: nat, d: nat, i: nat)
    requires
        1 < d < n,
        n % d == 0,
        n < i * i,
    ensures
        (1 < d < i && n % d == 0) || (1 < n / d < i && n % (n / d) == 0),
{
    lemma_cofactor(n, d);
    let q = n / d;
    if d >= i && q >= i {
        assert(d * q >= i * i) by (nonlinear_arith)
            requires
                d >= i,
                q >= i,
        ;
    }
}

/// A number of the form 6k + r with r in {0, 2, 3, 4} is divisible by 2 or 3.
proof fn lemma_small_factor_of_residue(d: nat)
    requires
        d % 6 != 1,
        d % 6 != 5,
    ensures
        d % 2 == 0 || d % 3 == 0,
{
}

/// A multiple of a multiple of 2 or 3 is itself a multiple of 2 or 3.
proof fn lemma_residue_divisor_rules_out(n: nat, d: nat)
    requires
        d > 1,
        n % d == 0,
        d % 6 != 1,
        d % 6 != 5,
    ensures
        n % 2 == 0 || n % 3 == 0,
{
    lemma_small_factor_of_residue(d);
    if d % 2 == 0 {
        lemma_divides_transitive(n, d, 2);
    } else {
        lemma_divides_transitive(n, d, 3);
    }
}

/// The square of the last trial divisor that trial division reaches for `n` fits in a
/// `u32`. Trial division only runs past the divisor 65531 (whose square is 4294311961) for
/// a prime at least that large; the next divisor, 65537, squares past `u32::MAX`.
pub open spec fn trial_square_fits(n: nat) -> bool {
    n < 4294311961 || !prime(n)
}

/// A number with no divisor below 65537 that is at least 2 is prime (every `u32` is below
/// 65537 squared).
proof fn lemma_no_small_divisor_prime(m: nat)
    requires
        1 < m < 0x1_0000_0000,
        forall|d: nat| 1 < d < 65537 ==> #[trigger] (m % d) != 0,
    ensures
        prime(m),
{
    assert forall|d: nat| 1 < d < m implies #[trigger] (m % d) != 0 by {
        if m % d == 0 {
            assert(m < 65537 * 65537);
            lemma_small_divisor(m, d, 65537);
            let q = m / d;
            if 1 < q < 65537 {
                assert(m % q != 0);
            }
        }
    }
}

/// Trial division by 2, 3 and then by 6k - 1 and 6k + 1 up to the square root, with the
/// trial divisor's square computed in `u32`.
///
/// The result is `None` exactly when that square overflows (a prime of at least
/// 4294311961), and otherwise whether `n` is prime.
pub fn is_prime_checked(n: u32) -> (r: Option<bool>)
    ensures
        r == (if trial_square_fits(n as nat) {
            Some(prime(n as nat))
        } else {
            None::<bool>
        }),
{
    let ghost m = n as nat;
    if n <= 1 {
        return Some(false);
    }
    if n <= 3 {
        assert(prime(m)) by {
            assert forall|d: nat| 1 < d < m implies #[trigger] (m % d) != 0 by {
                assert(m == 3 && d == 2);
            }
        }
        return Some(true);
    }
    if n % 2 == 0 || n % 3 == 0 {
        proof {
            if n % 2 == 0 {
                assert(m % 2 == 0);
            } else {
                assert(m % 3 == 0);
            }
        }
        return Some(false);
    }
    let mut i: u32 = 5;
    assert forall|d: nat| 1 < d < 5 implies #[trigger] (m % d) != 0 by {
        if d == 4 {
            if m % 4 == 0 {
                lemma_divides_transitive(m, 4, 2);
            }
        }
    }
    loop
        invariant
            5 <= i <= 65537,
            i % 6 == 5,
            m == n as nat,
            m > 3,
            m % 2 != 0,
            m % 3 != 0,
            i == 5 || (i - 6) * (i - 6) <= m,
            forall|d: nat| 1 < d < i ==> #[trigger] (m % d) != 0,
        ensures
            m < i * i,
            i <= 65531,
            forall|d: nat| 1 < d < i ==> #[trigger] (m % d) != 0,
        decreases 65537 - i,
    {
        let square = match i.checked_mul(i) {
            Some(square) => square,
            None => {
                proof {
                    assert(i == 65537) by (nonlinear_arith)
                        requires
                            i * i > 0xffff_ffff,
                            i <= 65537,
                            i % 6 == 5,
                    ;
                    assert(m >= 4294311961) by (nonlinear_arith)
                        requires
                            i == 65537,
                            (i - 6) * (i - 6) <= m,
                    ;
                    lemma_no_small_divisor_prime(m);
                }
                return None;
            },
        };
        assert(i <= 65535) by (nonlinear_arith)
            requires
                i * i <= 0xffff_ffff,
        ;
        if square > n {
            break;
        }
        assert(i + 2 < m) by (nonlinear_arith)
            requires
                i * i <= m,
                i >= 5,
        ;
        if n % i == 0 || n % (i + 2) == 0 {
            proof {
                if n % i == 0 {
                    assert(m % (i as nat) == 0);
                } else {
                    assert(m % ((i + 2) as nat) == 0);
                }
            }
            return Some(false);
        }
        assert forall|d: nat| 1 < d < i + 6 implies #[trigger] (m % d) != 0 by {
            if d >= i {
                if d != i && d != i + 2 {
                    if m % d == 0 {
                        assert(d % 6 != 1 && d % 6 != 5);
                        lemma_residue_divisor_rules_out(m, d);
                    }
                } else if d == i {
                    assert(m % (i as nat) != 0);
                } else {
                    assert(m % ((i + 2) as nat) != 0);
                }
            }
        }
        i = i + 6;
    }
    assert forall|d: nat| 1 < d < m implies #[trigger] (m % d) != 0 by {
        if m % d == 0 {
            lemma_small_divisor(m, d, i as nat);
            let q = m / d;
            if 1 < q < i {
                assert(m % q != 0);
            }
        }
    }
    assert(m < 4294311961) by (nonlinear_arith)
        requires
            m < i * i,
            i <= 65531,
    ;
    Some(true)
}

/// Trial division by 2, 3 and then by 6k - 1 and 6k + 1 up to the square root.
///
/// The result is `true` exactly when `n` is prime. The trial divisor's square is a `u32`,
/// so a prime of at least 4294311961, whose trial division would square 65537, is left out.
pub fn is_prime(n: u32) -> (r: bool)
    requires
        trial_square_fits(n as nat),
    ensures
        r == prime(n as nat),
{
    match is_prime_checked(n) {
        Some(r) => r,
        None => {
            proof {
                assert(false);
            }
            false
        },
    }
}

/// The greatest common divisor divides both of its arguments.
pub proof fn lemma_gcd_divides_both(a: nat, b: nat)
    requires
        a > 0 || b > 0,
    ensures
        spec_gcd(a, b) > 0,
        a % spec_gcd(a, b) == 0,
        b % spec_gcd(a, b) == 0,
    decreases b,
{
    if b == 0 {
        vstd::arithmetic::div_mod::lemma_mod_self_0(a as int);
        assert(0nat % a == 0) by {
            lemma_small_mod(0, a);
        }
    } else {
        let r = a % b;
        lemma_gcd_divides_both(b, r);
        let g = spec_gcd(b, r);
        lemma_fundamental_div_mod(a as int, b as int);
        lemma_fundamental_div_mod(b as int, g as int);
        lemma_fundamental_div_mod(r as int, g as int);
        let q = a / b;
        let x = b / g;
        let y = r / g;
        assert(a == (q * x + y) * g) by (nonlinear_arith)
            requires
                a == b * q + r,
                b == g * x,
                r == g * y,
        ;
        assert(q * x + y >= 0) by (nonlinear_arith)
            requires
                q >= 0,
                x >= 0,
                y >= 0,
        ;
        lemma_mod_multiples_basic((q * x + y) as int, g as int);
    }
}

/// The greatest common divisor of two primes is the prime itself when they are equal,
/// and one when they differ.
pub proof fn lemma_gcd_of_primes(p: nat, q: nat)
    requires
        prime(p),
        prime(q),
    ensures
        spec_gcd(p, q) == (if p == q {
            p
        } else {
            1
        }),
{
    lemma_gcd_divides_both(p, q);
    let g = spec_gcd(p, q);
    lemma_divisor_le(p, g);
    lemma_divisor_le(q, g);
    if p == q {
        assert(p % p == 0) by {
            vstd::arithmetic::div_mod::lemma_mod_self_0(p as int);
        }
        assert(spec_gcd(p, 0) == p);
        assert(spec_gcd(p, p) == spec_gcd(p, 0));
    } else {
        if g != 1 {
            if g < p {
                assert(p % g != 0);
            }
            assert(g == p);
            if g < q {
                assert(q % g != 0);
            }
        }
    }
}

/// Greatest common divisor of two `u32`s, as `num_integer::Integer::gcd` computes it
/// (Stein's binary algorithm, with `gcd(0, 0) == 0`).
///
/// Trusted: the contract claims that the result is the mathematical greatest common
/// divisor of the arguments, which the crate documents and its source computes.
#[verifier::external_body]
pub(crate) fn gcd_u32(a: u32, b: u32) -> (g: u32)
    ensures
        g == spec_gcd(a as nat, b as nat),
{
    a.gcd(&b)
}

} // verus!
