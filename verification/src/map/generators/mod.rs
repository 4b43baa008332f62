//! The three colour generators of a map and the seeding of the simplex one.
use noise::Seedable;
use noise::Simplex;
use vstd::prelude::*;
use crate::clock::{system_now, since_unix_epoch, whole_secs};

pub mod random;
pub mod wfc;

use crate::map::generators::random::Random;
use crate::map::generators::wfc::WFC;

verus! {

/// noise's two-dimensional simplex generator, carried unopened.
#[verifier::external_type_specification]
#[verifier::external_body]
pub struct ExSimplex(Simplex);

/// The simplex generator that noise builds for `seed` (its permutation table
/// is a function of the seed alone).
pub uninterp spec fn seeded_simplex(seed: u32) -> Simplex;

/// `Simplex::new`: claims the generator is the one noise builds for `seed`.
#[verifier::external_body]
fn simplex_new(seed: u32) -> (s: Simplex)
    ensures
        s == seeded_simplex(seed),
{
    Simplex::new(seed)
}

/// `Seedable::set_seed` on a simplex generator held in place. noise returns
/// the generator unchanged when it already has `seed`, and otherwise builds
/// it for `seed` exactly as `Simplex::new` does; claims the result is the
/// generator for `seed` either way.
#[verifier::external_body]
fn simplex_set_seed(s: &mut Simplex, seed: u32)
    ensures
        *final(s) == seeded_simplex(seed),
{
    let current = core::mem::take(s);
    *s = current.set_seed(seed);
}

/// `rand::random_range(0..bound)` from the thread-local generator: claims the
/// number is below `bound`. Which number comes is chance.
#[verifier::external_body]
fn random_below(bound: u64) -> (r: u64)
    requires
        bound > 0,
    ensures
        r < bound,
{
    rand::random_range(0..bound)
}

/// The low 32 bits of `x`.
pub open spec fn low_word(x: u64) -> u32 {
    x as u32
}

/// A seed drawn uniformly below `secs` and cut to 32 bits; 0, noise's
/// default seed, when `secs` is 0 and there is nothing to draw from.
pub fn seed_below(secs: u64) -> (seed: u32)
    ensures
        secs == 0 ==> seed == 0,
        secs > 0 ==> exists|x: u64| x < secs && seed == #[trigger] low_word(x),
{
    if secs > 0 {
        let x = random_below(secs);
        assert(x as u32 == low_word(x));
        x as u32
    } else {
        0
    }
}

/// A seed drawn below the number of whole seconds since the Unix epoch (see
/// `seed_below`); 0 when std reports the clock as earlier than the epoch.
pub(crate) fn time_seed() -> u32 {
    let now = system_now();
    match since_unix_epoch(&now) {
        Some(d) => seed_below(whole_secs(&d)),
        None => 0,
    }
}

/// The generators of a map: random, simplex and wave function collapse,
/// selected by the map's generator id 0, 1 and 2.
pub struct Generators(pub Random, pub Simplex, pub WFC);

impl Generators {
    /// The generators with the simplex one built for `seed`.
    pub fn with_seed(seed: u32) -> (g: Self)
        ensures
            g.1 == seeded_simplex(seed),
    {
        Generators(Random::new(), simplex_new(seed), WFC::new())
    }

    /// Rebuilds the simplex generator for `seed`.
    pub fn reseed_simplex(&mut self, seed: u32)
        ensures
            final(self).0 == old(self).0,
            final(self).1 == seeded_simplex(seed),
            final(self).2 == old(self).2,
    {
        simplex_set_seed(&mut self.1, seed);
    }

    /// Rebuilds the simplex generator for a fresh seed drawn from the clock
    /// (see `time_seed`).
    pub fn set_simplex_seed(&mut self)
        ensures
            final(self).0 == old(self).0,
            exists|seed: u32| final(self).1 == seeded_simplex(seed),
            final(self).2 == old(self).2,
    {
        let seed = time_seed();
        self.reseed_simplex(seed);
    }
}

} // verus!
