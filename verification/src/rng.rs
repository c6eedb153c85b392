//! The random source of the simulation.
//!
//! `Gna` owns a thread-local generator of the `rand` crate and exposes one
//! primitive, a uniform draw from an inclusive range.  Everything the
//! library proves holds for every value the generator may hand back; the
//! shortcut draws that skip one or two excluded doors are verified here.

use rand::Rng;
use vstd::prelude::*;

verus! {

#[verifier::external_type_specification]
#[verifier::external_body]
pub struct ExThreadRng(rand::rngs::ThreadRng);

/// A random source: the only supplier of randomness in the library.
pub struct Gna {
    gna: rand::rngs::ThreadRng,
}

impl Gna {
    /// Relies on rand::thread_rng: returns a handle to a seeded
    /// thread-local random number generator.
    #[verifier::external_body]
    pub fn new() -> Gna {
        Gna { gna: rand::thread_rng() }
    }

    /// Relies on Rng::gen_range over `a..=b`: returns a uniform sample
    /// from the inclusive range, and panics only when the range is
    /// empty, which `a <= b` rules out.  Nothing more can be promised
    /// of a random value than its range.
    #[verifier::external_body]
    pub fn randrange(&mut self, a: u32, b: u32) -> (r: u32)
        requires
            a <= b,
        ensures
            a <= r <= b,
    {
        self.gna.gen_range(a..=b)
    }

    /// Draws one door among `1..=portes`, no exclusion.
    pub fn choix(&mut self, portes: u32) -> (r: u32)
        requires
            portes >= 1,
        ensures
            1 <= r <= portes,
    {
        self.randrange(1, portes)
    }

    /// Draws one door among `1..=portes` other than `a`, by drawing from
    /// a range one shorter and shifting the result past `a`.
    pub fn choix_autre(&mut self, portes: u32, a: u32) -> (r: u32)
        requires
            portes >= 2,
            1 <= a <= portes,
        ensures
            1 <= r <= portes,
            r != a,
    {
        let mut r = self.randrange(1, portes - 1);
        if r >= a {
            r += 1;
        }
        r
    }

    /// Draws one door among `1..=portes` other than `a` and `b`, by
    /// drawing from a range two shorter and shifting the result past the
    /// two excluded doors in ascending order.
    pub fn choix_autre_autre(&mut self, portes: u32, a: u32, b: u32) -> (r: u32)
        requires
            portes >= 3,
            1 <= a <= portes,
            1 <= b <= portes,
            a != b,
        ensures
            1 <= r <= portes,
            r != a,
            r != b,
    {
        let (lo, hi) = if b > a {
            (a, b)
        } else {
            (b, a)
        };
        let mut r = self.randrange(1, portes - 2);
        if r >= lo {
            r += 1;
        }
        if r >= hi {
            r += 1;
        }
        r
    }
}

} // verus!
