use pandemic::chance::{bernoulli, Probability};
use rand::{Rng, SeedableRng};
use rand_xorshift::XorShiftRng;

fn rng(seed: u8) -> XorShiftRng {
    XorShiftRng::seed_from_u64(seed as u64)
}

#[test]
fn probability_is_a_fraction_of_one() {
    let p = Probability::new(2, 3).unwrap();
    assert_eq!(p.numerator(), 2);
    assert_eq!(p.denominator(), 3);
    assert!(!p.is_certain());
    assert!(!p.is_impossible());
    assert_eq!(Probability::new(0, 0), None);
    assert_eq!(Probability::new(1, 0), None);
    assert_eq!(Probability::new(4, 3), None);
    assert!(Probability::new(3, 3).unwrap().is_certain());
    assert!(Probability::new(0, 3).unwrap().is_impossible());
}

#[test]
fn percent_stops_at_a_hundred() {
    assert_eq!(Probability::percent(5), Probability::new(5, 100).unwrap());
    assert_eq!(Probability::percent(100), Probability::new(100, 100).unwrap());
    assert_eq!(Probability::percent(250), Probability::new(100, 100).unwrap());
    assert!(Probability::percent(0).is_impossible());
}

#[test]
fn the_ends_have_names() {
    assert!(Probability::certain().is_certain());
    assert!(!Probability::certain().is_impossible());
    assert!(Probability::impossible().is_impossible());
    assert!(!Probability::impossible().is_certain());
}

#[test]
fn a_certain_draw_always_hits() {
    let mut r = rng(42);
    for _ in 0..1_000 {
        assert!(bernoulli(&mut r, Probability::certain()));
        assert!(bernoulli(&mut r, Probability::percent(100)));
    }
}

#[test]
fn an_impossible_draw_never_hits() {
    let mut r = rng(42);
    for _ in 0..1_000 {
        assert!(!bernoulli(&mut r, Probability::impossible()));
        assert!(!bernoulli(&mut r, Probability::percent(0)));
    }
}

#[test]
fn a_fair_draw_goes_both_ways() {
    let mut r = rng(42);
    let half = Probability::new(1, 2).unwrap();
    let mut hits = 0;
    for _ in 0..10_000 {
        if bernoulli(&mut r, half) {
            hits += 1;
        }
    }
    assert!(hits > 4_500 && hits < 5_500, "{}", hits);
}

#[test]
fn a_rare_draw_hits_rarely() {
    let mut r = rng(7);
    let rare = Probability::percent(5);
    let mut hits = 0;
    for _ in 0..10_000 {
        if bernoulli(&mut r, rare) {
            hits += 1;
        }
    }
    assert!(hits > 300 && hits < 700, "{}", hits);
}

#[test]
fn the_same_seed_gives_the_same_draws() {
    let mut a = rng(9);
    let mut b = rng(9);
    let p = Probability::new(1, 3).unwrap();
    for _ in 0..1_000 {
        assert_eq!(bernoulli(&mut a, p), bernoulli(&mut b, p));
    }
}

#[test]
fn a_draw_is_the_ratio_draw_of_the_generator() {
    let mut a = rng(11);
    let mut b = rng(11);
    let p = Probability::new(2, 7).unwrap();
    for _ in 0..1_000 {
        assert_eq!(bernoulli(&mut a, p), b.gen_ratio(2, 7));
    }
}
