//! Number-theoretic helpers: greatest common divisor and factorial.

use vstd::arithmetic::div_mod::lemma_fundamental_div_mod;
use vstd::prelude::*;

verus! {

/// `d` divides `x`.
pub open spec fn divides(d: int, x: int) -> bool {
    exists|k: int| x == #[trigger] (k * d)
}

/// The common divisors of a pair are unchanged when one member is reduced
/// modulo the other.
proof fn lemma_common_divisors_mod(n: int, m: int, e: int)
    requires
        n > 0,
        m >= 0,
    ensures
        (divides(e, n) && divides(e, m)) <==> (divides(e, n) && divides(e, m % n)),
{
    lemma_fundamental_div_mod(m, n);
    let q = m / n;
    if divides(e, n) {
        let b = choose|b: int| n == #[trigger] (b * e);
        if divides(e, m) {
            let a = choose|a: int| m == #[trigger] (a * e);
            assert(m % n == (a - q * b) * e) by (nonlinear_arith)
                requires
                    m == a * e,
                    n == b * e,
                    m == n * q + (m % n),
            ;
            assert(divides(e, m % n));
        }
        if divides(e, m % n) {
            let c = choose|c: int| m % n == #[trigger] (c * e);
            assert(m == (q * b + c) * e) by (nonlinear_arith)
                requires
                    n == b * e,
                    m % n == c * e,
                    m == n * q + (m % n),
            ;
            assert(divides(e, m));
        }
    }
}

/// The greatest common divisor, by Euclid's algorithm: the returned value
/// divides both arguments, and every common divisor of the two divides it.
pub fn gcd(n: u64, m: u64) -> (d: u64)
    requires
        n != 0,
        m != 0,
    ensures
        d != 0,
        divides(d as int, n as int),
        divides(d as int, m as int),
        forall|e: int| divides(e, n as int) && divides(e, m as int) ==> divides(e, d as int),
{
    let ghost n0 = n as int;
    let ghost m0 = m as int;
    let mut n = n;
    let mut m = m;
    while m != 0
        invariant
            n > 0,
            forall|e: int|
                (divides(e, n as int) && divides(e, m as int)) <==> (divides(e, n0) && divides(
                    e,
                    m0,
                )),
        decreases m,
    {
        if m < n {
            let t = m;
            m = n;
            n = t;
        }
        let ghost mid_m = m as int;
        m = m % n;
        proof {
            assert forall|e: int|
                (divides(e, n as int) && divides(e, m as int)) <==> (divides(e, n0) && divides(
                    e,
                    m0,
                )) by {
                lemma_common_divisors_mod(n as int, mid_m, e);
            }
        }
    }
    proof {
        assert(n as int == 1 * (n as int));
        assert(divides(n as int, n as int));
        assert(0int == 0 * (n as int));
        assert(divides(n as int, 0int));
    }
    n
}

/// The product of the numbers from 1 to `n`.
pub open spec fn factorial_spec(n: nat) -> nat
    decreases n,
{
    if n == 0 {
        1
    } else {
        n * factorial_spec((n - 1) as nat)
    }
}

/// Every factorial is positive.
proof fn lemma_factorial_at_least_one(n: nat)
    ensures
        factorial_spec(n) >= 1,
    decreases n,
{
    if n > 0 {
        lemma_factorial_at_least_one((n - 1) as nat);
        assert(n * factorial_spec((n - 1) as nat) >= 1) by (nonlinear_arith)
            requires
                n >= 1,
                factorial_spec((n - 1) as nat) >= 1,
        ;
    }
}

/// The factorial grows with its argument.
proof fn lemma_factorial_monotonic(i: nat, j: nat)
    requires
        i <= j,
    ensures
        factorial_spec(i) <= factorial_spec(j),
    decreases j,
{
    if i < j {
        lemma_factorial_monotonic(i, (j - 1) as nat);
        lemma_factorial_at_least_one((j - 1) as nat);
        assert(j * factorial_spec((j - 1) as nat) >= factorial_spec((j - 1) as nat))
            by (nonlinear_arith)
            requires
                j >= 1,
                factorial_spec((j - 1) as nat) >= 1,
        ;
    }
}

/// Compute the factorial of `n`, which must be small enough for the product
/// to fit.
pub fn factorial(n: u64) -> (f: u64)
    requires
        factorial_spec(n as nat) <= u64::MAX,
    ensures
        f as nat == factorial_spec(n as nat),
{
    let mut f: u64 = 1;
    let mut i: u64 = 0;
    while i < n
        invariant
            i <= n,
            f as nat == factorial_spec(i as nat),
            factorial_spec(n as nat) <= u64::MAX,
        decreases n - i,
    {
        i = i + 1;
        proof {
            lemma_factorial_monotonic(i as nat, n as nat);
            assert(factorial_spec(i as nat) == i as nat * factorial_spec((i - 1) as nat));
            assert(f as nat * i as nat == factorial_spec(i as nat)) by (nonlinear_arith)
                requires
                    i >= 1,
                    f as nat == factorial_spec((i - 1) as nat),
                    factorial_spec(i as nat) == i as nat * factorial_spec((i - 1) as nat),
            ;
        }
        f = f * i;
    }
    f
}

} // verus!
