//! Exact rational numbers for the probability results.
//!
//! The probabilities of the game are exact fractions of door counts;
//! this type keeps them as a numerator and a positive denominator and
//! never rounds.  Two rationals denote the same value exactly when
//! they cross-multiply equally.

use vstd::arithmetic::div_mod::lemma_div_by_multiple;
use vstd::arithmetic::div_mod::lemma_fundamental_div_mod;
use vstd::prelude::*;

verus! {

/// `d` divides `a`.
pub open spec fn divides(d: int, a: int) -> bool {
    exists|k: int| a == #[trigger] (k * d)
}

/// The greatest common divisor, by Euclid's recursion.
pub open spec fn spec_gcd(a: nat, b: nat) -> nat
    decreases b,
{
    if b == 0 {
        a
    } else {
        spec_gcd(b, a % b)
    }
}

/// The greatest common divisor of two naturals that are not both zero
/// is positive.
proof fn lemma_gcd_pos(a: nat, b: nat)
    requires
        a > 0 || b > 0,
    ensures
        spec_gcd(a, b) > 0,
    decreases b,
{
    if b > 0 {
        lemma_gcd_pos(b, a % b);
    }
}

/// The greatest common divisor divides both its arguments.
proof fn lemma_gcd_divides(a: nat, b: nat)
    ensures
        divides(spec_gcd(a, b) as int, a as int),
        divides(spec_gcd(a, b) as int, b as int),
    decreases b,
{
    let g = spec_gcd(a, b) as int;
    if b == 0 {
        assert(a as int == 1 * g);
        assert(b as int == 0 * g);
    } else {
        lemma_gcd_divides(b, a % b);
        let k1 = choose|k: int| b as int == #[trigger] (k * g);
        let k2 = choose|k: int| (a % b) as int == #[trigger] (k * g);
        lemma_fundamental_div_mod(a as int, b as int);
        let q = a as int / b as int;
        assert(a as int == (k1 * q + k2) * g) by (nonlinear_arith)
            requires
                a as int == (b as int) * q + (a % b) as int,
                b as int == k1 * g,
                (a % b) as int == k2 * g,
        ;
    }
}

/// Every common divisor of two naturals divides their greatest common
/// divisor.
proof fn lemma_common_divisor_divides_gcd(a: nat, b: nat, d: int)
    requires
        d != 0,
        divides(d, a as int),
        divides(d, b as int),
    ensures
        divides(d, spec_gcd(a, b) as int),
    decreases b,
{
    if b > 0 {
        let ka = choose|k: int| a as int == #[trigger] (k * d);
        let kb = choose|k: int| b as int == #[trigger] (k * d);
        lemma_fundamental_div_mod(a as int, b as int);
        let q = a as int / b as int;
        assert((a % b) as int == (ka - kb * q) * d) by (nonlinear_arith)
            requires
                a as int == ka * d,
                b as int == kb * d,
                (a % b) as int == a as int - (b as int) * q,
        ;
        lemma_common_divisor_divides_gcd(b, a % b, d);
    }
}

/// A positive divisor of a positive number is no larger than it.
proof fn lemma_divides_le(d: int, a: int)
    requires
        d > 0,
        a > 0,
        divides(d, a),
    ensures
        d <= a,
{
    let k = choose|k: int| a == #[trigger] (k * d);
    assert(d <= a) by (nonlinear_arith)
        requires
            a == k * d,
            a > 0,
            d > 0,
    ;
}

/// Dividing two naturals by their greatest common divisor leaves a
/// coprime pair.
proof fn lemma_quotients_coprime(a: nat, b: nat)
    requires
        b > 0,
    ensures
        spec_gcd(a / spec_gcd(a, b), b / spec_gcd(a, b)) == 1,
{
    let g = spec_gcd(a, b);
    lemma_gcd_pos(a, b);
    lemma_gcd_divides(a, b);
    let ka = choose|k: int| a as int == #[trigger] (k * (g as int));
    let kb = choose|k: int| b as int == #[trigger] (k * (g as int));
    assert(ka >= 0 && kb >= 1) by (nonlinear_arith)
        requires
            a as int == ka * (g as int),
            b as int == kb * (g as int),
            a >= 0,
            b > 0,
            g > 0,
    ;
    lemma_div_by_multiple(ka, g as int);
    lemma_div_by_multiple(kb, g as int);
    assert(a / g == ka && b / g == kb);
    let d = spec_gcd(ka as nat, kb as nat);
    lemma_gcd_pos(ka as nat, kb as nat);
    lemma_gcd_divides(ka as nat, kb as nat);
    let ma = choose|m: int| ka == #[trigger] (m * (d as int));
    let mb = choose|m: int| kb == #[trigger] (m * (d as int));
    assert(a as int == ma * ((d as int) * (g as int)) && b as int == mb * ((d as int) * (
    g as int))) by (nonlinear_arith)
        requires
            a as int == ka * (g as int),
            b as int == kb * (g as int),
            ka == ma * (d as int),
            kb == mb * (d as int),
    ;
    assert(divides((d as int) * (g as int), a as int));
    assert(divides((d as int) * (g as int), b as int));
    assert((d as int) * (g as int) > 0) by (nonlinear_arith)
        requires
            d > 0,
            g > 0,
    ;
    lemma_common_divisor_divides_gcd(a, b, (d as int) * (g as int));
    lemma_divides_le((d as int) * (g as int), g as int);
    assert(d == 1) by (nonlinear_arith)
        requires
            d >= 1,
            g >= 1,
            (d as int) * (g as int) <= g as int,
    ;
}

/// The greatest common divisor, by Euclid's algorithm.
fn gcd(a: u64, b: u64) -> (g: u64)
    ensures
        g as nat == spec_gcd(a as nat, b as nat),
{
    let mut x = a;
    let mut y = b;
    while y != 0
        invariant
            spec_gcd(x as nat, y as nat) == spec_gcd(a as nat, b as nat),
        decreases y,
    {
        let r = x % y;
        x = y;
        y = r;
    }
    x
}

/// A non-negative rational number: `num / den` with `den >= 1`.
#[derive(Clone, Copy, Debug, PartialEq, Eq, Structural)]
pub struct Rational {
    num: u64,
    den: u64,
}

impl Rational {
    /// The numerator.
    pub closed spec fn spec_num(&self) -> u64 {
        self.num
    }

    /// The denominator.
    pub closed spec fn spec_den(&self) -> u64 {
        self.den
    }

    /// Well-formed: the denominator is positive.
    pub open spec fn wf(&self) -> bool {
        self.spec_den() >= 1
    }

    /// Whether this rational denotes exactly the value `p / q`.
    pub open spec fn is_ratio(&self, p: int, q: int) -> bool {
        self.spec_num() * q == p * self.spec_den()
    }

    /// The rational `num / den`.
    pub fn new(num: u64, den: u64) -> (r: Rational)
        requires
            den >= 1,
        ensures
            r.spec_num() == num,
            r.spec_den() == den,
            r.wf(),
    {
        Rational { num, den }
    }

    /// The numerator, for display and comparison.
    pub fn num(&self) -> (n: u64)
        ensures
            n == self.spec_num(),
    {
        self.num
    }

    /// The denominator, for display and comparison.
    pub fn den(&self) -> (d: u64)
        ensures
            d == self.spec_den(),
    {
        self.den
    }

    /// The exact product: numerators and denominators multiply.
    pub fn mul(&self, other: &Rational) -> (r: Rational)
        requires
            self.wf(),
            other.wf(),
            self.spec_num() * other.spec_num() <= u64::MAX,
            self.spec_den() * other.spec_den() <= u64::MAX,
        ensures
            r.wf(),
            r.spec_num() == self.spec_num() * other.spec_num(),
            r.spec_den() == self.spec_den() * other.spec_den(),
    {
        proof {
            assert(self.spec_den() * other.spec_den() >= 1) by (nonlinear_arith)
                requires
                    self.spec_den() >= 1,
                    other.spec_den() >= 1,
            ;
        }
        Rational { num: self.num * other.num, den: self.den * other.den }
    }

    /// Whether two rationals denote the same value, decided exactly by
    /// cross multiplication in double-width arithmetic.
    pub fn value_eq(&self, other: &Rational) -> (r: bool)
        requires
            self.wf(),
            other.wf(),
        ensures
            r <==> self.spec_num() * other.spec_den() == other.spec_num() * self.spec_den(),
    {
        proof {
            lemma_u64_products_fit(self.spec_num(), other.spec_den());
            lemma_u64_products_fit(other.spec_num(), self.spec_den());
        }
        (self.num as u128) * (other.den as u128) == (other.num as u128) * (self.den as u128)
    }

    /// The same value in lowest terms: both components are divided by
    /// their greatest common divisor, leaving a coprime pair.
    pub fn reduced(&self) -> (r: Rational)
        requires
            self.wf(),
        ensures
            r.wf(),
            r.spec_num() as nat == self.spec_num() as nat / spec_gcd(
                self.spec_num() as nat,
                self.spec_den() as nat,
            ),
            r.spec_den() as nat == self.spec_den() as nat / spec_gcd(
                self.spec_num() as nat,
                self.spec_den() as nat,
            ),
            spec_gcd(r.spec_num() as nat, r.spec_den() as nat) == 1,
            r.is_ratio(self.spec_num() as int, self.spec_den() as int),
            r.spec_den() <= self.spec_den(),
    {
        let g = gcd(self.num, self.den);
        proof {
            let a = self.spec_num() as nat;
            let b = self.spec_den() as nat;
            lemma_gcd_pos(a, b);
            lemma_gcd_divides(a, b);
            lemma_quotients_coprime(a, b);
            let sg = spec_gcd(a, b);
            let ka = choose|k: int| a as int == #[trigger] (k * (sg as int));
            let kb = choose|k: int| b as int == #[trigger] (k * (sg as int));
            assert(ka >= 0 && kb >= 1) by (nonlinear_arith)
                requires
                    a as int == ka * (sg as int),
                    b as int == kb * (sg as int),
                    a >= 0,
                    b > 0,
                    sg > 0,
            ;
            lemma_div_by_multiple(ka, sg as int);
            lemma_div_by_multiple(kb, sg as int);
            assert(a / sg == ka && b / sg == kb);
            assert(ka * (kb * (sg as int)) == (ka * (sg as int)) * kb) by (nonlinear_arith);
            assert((a / sg) * (b as int) == (a as int) * (b / sg));
        }
        Rational { num: self.num / g, den: self.den / g }
    }

    /// A rational is determined by its two components.
    pub proof fn lemma_components_determine(a: Rational, b: Rational)
        requires
            a.spec_num() == b.spec_num(),
            a.spec_den() == b.spec_den(),
        ensures
            a == b,
    {
    }
}

/// The product of two 64-bit values fits in 128 bits.
proof fn lemma_u64_products_fit(a: u64, b: u64)
    ensures
        a * b <= u128::MAX,
{
    assert(a * b < 0x1_0000_0000_0000_0000 * 0x1_0000_0000_0000_0000) by (nonlinear_arith)
        requires
            a < 0x1_0000_0000_0000_0000,
            b < 0x1_0000_0000_0000_0000,
    ;
}

} // verus!
