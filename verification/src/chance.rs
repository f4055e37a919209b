//! The random draws that drive the model.
//!
//! Yes-or-no draws are made here, on the generator itself. Waiting times come
//! from real-valued distributions, which only a caller can sample: the caller
//! supplies a [`WaitSampler`], and the model hands it the generator whenever a
//! wait is due, so that one seeded generator feeds every draw in a fixed order.

use vstd::prelude::*;
use crate::time::Duration;

verus! {

/// The generator `rand_xorshift::XorShiftRng`. Nothing is known of what it
/// holds: the library only hands it on to the draws.
#[verifier::external_type_specification]
#[verifier::external_body]
pub struct ExXorShiftRng(rand_xorshift::XorShiftRng);

/// A probability `num / den`, with `0 < den` and `num <= den`.
#[derive(Clone, Copy, Debug, PartialEq, Eq, Structural)]
pub struct Probability {
    num: u32,
    den: u32,
}

impl Probability {
    #[verifier::type_invariant]
    spec fn well_formed(self) -> bool {
        0 < self.den && self.num <= self.den
    }

    pub closed spec fn num(self) -> int {
        self.num as int
    }

    pub closed spec fn den(self) -> int {
        self.den as int
    }

    /// The probability `num / den`, where that is one.
    pub closed spec fn spec_new(num: u32, den: u32) -> Probability {
        Probability { num, den }
    }

    /// A probability is the fraction that it was made of.
    pub proof fn lemma_spec_new(num: u32, den: u32)
        ensures
            Probability::spec_new(num, den).num() == num,
            Probability::spec_new(num, den).den() == den,
    {
    }

    /// The outcome is sure to be a hit.
    pub open spec fn spec_is_certain(&self) -> bool {
        self.num() == self.den()
    }

    /// The outcome is sure to be a miss.
    pub open spec fn spec_is_impossible(&self) -> bool {
        self.num() == 0
    }

    /// `num / den`, or `None` where that is no probability.
    pub fn new(num: u32, den: u32) -> (p: Option<Probability>)
        ensures
            p is Some <==> 0 < den && num <= den,
            p is Some ==> p->Some_0 == Probability::spec_new(num, den),
            p is Some ==> p->Some_0.num() == num && p->Some_0.den() == den,
    {
        if den == 0 || num > den {
            None
        } else {
            Some(Probability { num, den })
        }
    }

    /// `pct` in a hundred; more than a hundred counts as a hundred.
    pub fn percent(pct: u32) -> (p: Probability)
        ensures
            p == Probability::spec_new(if pct <= 100 { pct } else { 100 }, 100),
            p.den() == 100,
            p.num() == if pct <= 100 { pct as int } else { 100 },
    {
        if pct <= 100 {
            Probability { num: pct, den: 100 }
        } else {
            Probability { num: 100, den: 100 }
        }
    }

    pub fn certain() -> (p: Probability)
        ensures
            p == Probability::spec_new(1, 1),
            p.num() == 1,
            p.den() == 1,
    {
        Probability { num: 1, den: 1 }
    }

    pub fn impossible() -> (p: Probability)
        ensures
            p == Probability::spec_new(0, 1),
            p.num() == 0,
            p.den() == 1,
    {
        Probability { num: 0, den: 1 }
    }

    pub fn numerator(&self) -> (n: u32)
        ensures
            n == self.num(),
    {
        self.num
    }

    pub fn denominator(&self) -> (d: u32)
        ensures
            d == self.den(),
            0 < d,
    {
        proof {
            use_type_invariant(self);
        }
        self.den
    }

    #[verifier::when_used_as_spec(spec_is_certain)]
    pub fn is_certain(&self) -> (b: bool)
        ensures
            b == self.spec_is_certain(),
    {
        self.num == self.den
    }

    #[verifier::when_used_as_spec(spec_is_impossible)]
    pub fn is_impossible(&self) -> (b: bool)
        ensures
            b == self.spec_is_impossible(),
    {
        self.num == 0
    }
}

/// A source of waiting times.
///
/// Both methods draw from the generator they are handed and from nothing
/// else. No promise is made about the values: the model is verified for
/// every wait that an implementation may return.
pub trait WaitSampler {
    /// One draw from the exponential distribution with the given mean,
    /// rounded up to whole milliseconds.
    fn exponential(&self, rng: &mut rand_xorshift::XorShiftRng, mean: Duration) -> Duration;

    /// One draw from the normal distribution with the given mean and standard
    /// deviation, rounded to whole milliseconds.
    fn normal(&self, rng: &mut rand_xorshift::XorShiftRng, mean: Duration, sigma: Duration) -> Duration;
}

/// The source of waits without any spread: every wait is its mean. With it
/// the times of a run depend on the yes-or-no draws alone.
pub struct MeanWaits;

impl WaitSampler for MeanWaits {
    fn exponential(&self, rng: &mut rand_xorshift::XorShiftRng, mean: Duration) -> (wait: Duration)
        ensures
            wait == mean,
    {
        mean
    }

    fn normal(&self, rng: &mut rand_xorshift::XorShiftRng, mean: Duration, sigma: Duration) -> (wait: Duration)
        ensures
            wait == mean,
    {
        mean
    }
}

/// Calls `rand::Rng::gen_ratio`: one Bernoulli trial that succeeds `num` times
/// in `den`. The contract claims what the documentation of
/// `Bernoulli::from_ratio` states of the two ends: with `num == den` the trial
/// always succeeds, with `num == 0` it never does. In between nothing is
/// claimed of the outcome.
#[verifier::external_body]
fn gen_ratio(rng: &mut rand_xorshift::XorShiftRng, num: u32, den: u32) -> (hit: bool)
    requires
        0 < den,
        num <= den,
    ensures
        num == den ==> hit,
        num == 0 ==> !hit,
{
    rand::Rng::gen_ratio(rng, num, den)
}

/// One yes-or-no draw that comes out `true` with probability `p`.
pub fn bernoulli(rng: &mut rand_xorshift::XorShiftRng, p: Probability) -> (hit: bool)
    ensures
        p.is_certain() ==> hit,
        p.is_impossible() ==> !hit,
{
    proof {
        use_type_invariant(&p);
    }
    gen_ratio(rng, p.num, p.den)
}

} // verus!
