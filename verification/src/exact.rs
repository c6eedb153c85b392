//! The exact probability calculator: the closed-form win chances of
//! the stay and switch strategies, as exact rationals.
//!
//! Staying wins exactly when the first pick was the prize: `1 / doors`.
//! Switching wins when the first pick missed — chance
//! `(doors - 1) / doors` — and the switch then lands on the prize,
//! which hides uniformly behind one of the `doors - opened - 1`
//! remaining candidate doors: the product
//! `(doors - 1) / (doors * (doors - opened - 1))`.

use crate::rational::spec_gcd;
use crate::rational::Rational;
use vstd::prelude::*;

verus! {

/// What the calculator returns for `doors` and `opened`: both
/// components of both rationals are pinned by the closed form, the
/// switch probability in lowest terms.
pub open spec fn exact_post(doors: u32, opened: u32, r: (Rational, Rational)) -> bool {
    let p = (doors - 1) as nat;
    let q = (doors as nat) * ((doors - opened - 1) as nat);
    &&& r.0.spec_num() == 1
    &&& r.0.spec_den() == doors
    &&& r.1.spec_num() as nat == p / spec_gcd(p, q)
    &&& r.1.spec_den() as nat == q / spec_gcd(p, q)
}

/// The theoretical win probabilities of staying and of switching, as
/// exact rationals: `1 / doors` and
/// `(doors - 1) / (doors * (doors - opened - 1))`, the latter brought
/// to lowest terms.
pub fn exact_probabilities(doors: u32, opened: u32) -> (r: (Rational, Rational))
    requires
        doors >= 3,
        opened + 1 < doors,
    ensures
        exact_post(doors, opened, r),
        r.0.wf(),
        r.1.wf(),
        r.0.is_ratio(1, doors as int),
        r.1.is_ratio(doors - 1, doors * (doors - opened - 1)),
        spec_gcd(r.1.spec_num() as nat, r.1.spec_den() as nat) == 1,
{
    let stay = Rational::new(1, doors as u64);
    let ratio = Rational::new((doors - 1) as u64, (doors - opened - 1) as u64);
    proof {
        assert(stay.spec_den() * ratio.spec_den() <= u64::MAX) by (nonlinear_arith)
            requires
                stay.spec_den() < 0x1_0000_0000,
                ratio.spec_den() < 0x1_0000_0000,
        ;
    }
    let product = stay.mul(&ratio);
    let switch = product.reduced();
    (stay, switch)
}

/// The calculator is deterministic: its contract pins every component,
/// so two results for the same parameters are identical — repeated
/// calls yield the same rationals, bit for bit.
pub proof fn lemma_exact_probabilities_unique(
    doors: u32,
    opened: u32,
    r1: (Rational, Rational),
    r2: (Rational, Rational),
)
    requires
        exact_post(doors, opened, r1),
        exact_post(doors, opened, r2),
    ensures
        r1 == r2,
{
    Rational::lemma_components_determine(r1.0, r2.0);
    Rational::lemma_components_determine(r1.1, r2.1);
}

} // verus!
