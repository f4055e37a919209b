//! Counting the population by the stage of the disease.

use vstd::prelude::*;
use crate::state::State;

verus! {

/// One of the five groups into which the population falls.
#[derive(Clone, Copy, Debug, PartialEq, Eq, Structural)]
pub enum Compartment {
    Sane,
    Exposed,
    /// Infectious or in hospital.
    Infected,
    Recovered,
    Dead,
}

impl Compartment {
    /// A person in state `st` belongs to this group.
    pub open spec fn spec_holds(&self, st: State) -> bool {
        match *self {
            Compartment::Sane => st is Sane,
            Compartment::Exposed => st is Exposed,
            Compartment::Infected => st is Infectious || st is Hospitalized,
            Compartment::Recovered => st is Recovered,
            Compartment::Dead => st is Dead,
        }
    }

    #[verifier::when_used_as_spec(spec_holds)]
    pub fn holds(&self, st: State) -> (b: bool)
        ensures
            b == self.spec_holds(st),
    {
        match self {
            Compartment::Sane => match st {
                State::Sane { .. } => true,
                _ => false,
            },
            Compartment::Exposed => match st {
                State::Exposed { .. } => true,
                _ => false,
            },
            Compartment::Infected => match st {
                State::Infectious { .. } | State::Hospitalized { .. } => true,
                _ => false,
            },
            Compartment::Recovered => match st {
                State::Recovered { .. } => true,
                _ => false,
            },
            Compartment::Dead => match st {
                State::Dead { .. } => true,
                _ => false,
            },
        }
    }
}

/// The test that the person numbered `k` in `pop` belongs to the group `c`.
pub open spec fn spec_in(pop: Map<usize, State>, c: Compartment) -> spec_fn(usize) -> bool {
    |k: usize| c.spec_holds(pop[k])
}

/// How many people of `pop` belong to the group `c`.
pub open spec fn spec_count(pop: Map<usize, State>, c: Compartment) -> nat {
    pop.dom().filter(spec_in(pop, c)).len()
}

/// How many of `entries` hold a state of the group `c`.
pub open spec fn spec_tally(entries: Seq<(&usize, &State)>, c: Compartment) -> nat
    decreases entries.len(),
{
    if entries.len() == 0 {
        0
    } else {
        spec_tally(entries.drop_last(), c) + if c.spec_holds(*entries.last().1) {
            1nat
        } else {
            0nat
        }
    }
}

/// Where `entries` lists the people of `part` once each, with their states
/// in `pop`, the tally over `entries` is the number of people of `part` in
/// the group.
proof fn lemma_tally_of_part(entries: Seq<(&usize, &State)>, pop: Map<usize, State>, part: Set<usize>, c: Compartment)
    requires
        part.finite(),
        forall|i: int, j: int| 0 <= i < j < entries.len() ==> *entries[i].0 != *entries[j].0,
        forall|k: usize|
            part.contains(k) <==> exists|i: int| 0 <= i < entries.len() && *(#[trigger] entries[i]).0 == k,
        forall|i: int| 0 <= i < entries.len() ==> pop[*(#[trigger] entries[i]).0] == *entries[i].1,
    ensures
        spec_tally(entries, c) == part.filter(spec_in(pop, c)).len(),
    decreases entries.len(),
{
    let test = spec_in(pop, c);
    if entries.len() == 0 {
        assert(part.filter(test) =~= Set::<usize>::empty());
    } else {
        let front = entries.drop_last();
        let k = *entries.last().0;
        let rest = part.remove(k);
        assert(*entries[entries.len() - 1].0 == k);
        assert(part.contains(k));
        assert forall|q: usize| rest.contains(q) <==> exists|i: int|
            0 <= i < front.len() && *(#[trigger] front[i]).0 == q by {
            if rest.contains(q) {
                let i = choose|i: int| 0 <= i < entries.len() && *(#[trigger] entries[i]).0 == q;
                assert(front[i] == entries[i]);
            }
            if exists|i: int| 0 <= i < front.len() && *(#[trigger] front[i]).0 == q {
                let i = choose|i: int| 0 <= i < front.len() && *(#[trigger] front[i]).0 == q;
                assert(front[i] == entries[i]);
                assert(*entries[i].0 != *entries[entries.len() - 1].0);
            }
        }
        assert forall|i: int| 0 <= i < front.len() implies pop[*(#[trigger] front[i]).0] == *front[i].1 by {
            assert(front[i] == entries[i]);
        }
        assert forall|i: int, j: int| 0 <= i < j < front.len() implies *front[i].0 != *front[j].0 by {
            assert(front[i] == entries[i]);
            assert(front[j] == entries[j]);
        }
        lemma_tally_of_part(front, pop, rest, c);
        rest.lemma_len_filter(test);
        vstd::set_lib::lemma_set_subset_finite(rest, rest.filter(test));
        if c.spec_holds(pop[k]) {
            assert(part.filter(test) =~= rest.filter(test).insert(k));
        } else {
            assert(part.filter(test) =~= rest.filter(test));
        }
    }
}

/// Walking the whole population and tallying a group gives the number of
/// people in that group.
pub proof fn lemma_tally_is_count(entries: Seq<(&usize, &State)>, pop: Map<usize, State>, c: Compartment)
    requires
        pop.dom().finite(),
        entries.no_duplicates(),
        forall|i: int|
            0 <= i < entries.len() ==> pop.contains_key(*(#[trigger] entries[i]).0) && pop[*entries[i].0]
                == *entries[i].1,
        forall|k: usize| #[trigger] pop.contains_key(k) ==> entries.contains((&k, &pop[k])),
    ensures
        spec_tally(entries, c) == spec_count(pop, c),
{
    assert forall|i: int, j: int| 0 <= i < j < entries.len() implies *entries[i].0 != *entries[j].0 by {
        if *entries[i].0 == *entries[j].0 {
            assert(entries[i] == entries[j]);
        }
    }
    assert forall|k: usize|
        pop.dom().contains(k) <==> exists|i: int| 0 <= i < entries.len() && *(#[trigger] entries[i]).0 == k by {
        if pop.dom().contains(k) {
            assert(pop.contains_key(k));
            let i = choose|i: int| 0 <= i < entries.len() && entries[i] == (&k, &pop[k]);
            assert(*entries[i].0 == k);
        }
    }
    lemma_tally_of_part(entries, pop, pop.dom(), c);
}

/// Everybody in `part` belongs to exactly one of the five groups.
proof fn lemma_groups_of_part(pop: Map<usize, State>, part: Set<usize>)
    requires
        part.finite(),
    ensures
        part.filter(spec_in(pop, Compartment::Sane)).len() + part.filter(
            spec_in(pop, Compartment::Exposed),
        ).len() + part.filter(spec_in(pop, Compartment::Infected)).len() + part.filter(
            spec_in(pop, Compartment::Recovered),
        ).len() + part.filter(spec_in(pop, Compartment::Dead)).len() == part.len(),
    decreases part.len(),
{
    let sane = spec_in(pop, Compartment::Sane);
    let exposed = spec_in(pop, Compartment::Exposed);
    let infected = spec_in(pop, Compartment::Infected);
    let recovered = spec_in(pop, Compartment::Recovered);
    let dead = spec_in(pop, Compartment::Dead);
    if part.len() == 0 {
        assert(part =~= Set::<usize>::empty());
        assert(part.filter(sane) =~= Set::<usize>::empty());
        assert(part.filter(exposed) =~= Set::<usize>::empty());
        assert(part.filter(infected) =~= Set::<usize>::empty());
        assert(part.filter(recovered) =~= Set::<usize>::empty());
        assert(part.filter(dead) =~= Set::<usize>::empty());
    } else {
        let k = part.choose();
        let rest = part.remove(k);
        lemma_groups_of_part(pop, rest);
        lemma_filter_step(part, k, sane);
        lemma_filter_step(part, k, exposed);
        lemma_filter_step(part, k, infected);
        lemma_filter_step(part, k, recovered);
        lemma_filter_step(part, k, dead);
    }
}

/// Taking one member out of a finite set takes one out of the part that
/// passes a test if that member passes it, and none if it does not.
proof fn lemma_filter_step(part: Set<usize>, k: usize, test: spec_fn(usize) -> bool)
    requires
        part.finite(),
        part.contains(k),
    ensures
        part.filter(test).len() == part.remove(k).filter(test).len() + if test(k) {
            1nat
        } else {
            0nat
        },
{
    let rest = part.remove(k);
    rest.lemma_len_filter(test);
    vstd::set_lib::lemma_set_subset_finite(rest, rest.filter(test));
    if test(k) {
        assert(part.filter(test) =~= rest.filter(test).insert(k));
    } else {
        assert(part.filter(test) =~= rest.filter(test));
    }
}

/// The five groups add up to the whole population.
pub proof fn lemma_counts_add_up(pop: Map<usize, State>)
    requires
        pop.dom().finite(),
    ensures
        spec_count(pop, Compartment::Sane) + spec_count(pop, Compartment::Exposed) + spec_count(
            pop,
            Compartment::Infected,
        ) + spec_count(pop, Compartment::Recovered) + spec_count(pop, Compartment::Dead)
            == pop.dom().len(),
{
    lemma_groups_of_part(pop, pop.dom());
}

} // verus!
