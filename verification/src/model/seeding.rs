//! The first day: taking the population in, with some of it exposed or
//! infectious already.

use vstd::prelude::*;
use crate::chance::{bernoulli, Probability, WaitSampler};
use crate::events::Cmd;
use crate::ids::PersonID;
use crate::model::{PandemicModel, spec_all_known};
use crate::state::State;
use crate::time::{AnyTime, Duration, Time};

verus! {

broadcast use vstd::std_specs::btree::group_btree_axioms;

/// Nobody is listed twice in `people`.
pub open spec fn spec_distinct(people: Seq<PersonID>) -> bool {
    forall|i: int, j: int| 0 <= i < j < people.len() ==> people[i] != people[j]
}

/// The state in which somebody can start out: susceptible, exposed or
/// infectious since the start of the first day, with a chance of five in a
/// hundred at admission to hospital and of ninety-five at the end of incubation.
pub open spec fn spec_initial(st: State) -> bool {
    &&& st.wf()
    &&& st is Sane || st is Exposed || st is Infectious
    &&& st.event() is Some
    &&& st.event()->Some_0.p_hosp.num() == 5
    &&& st.event()->Some_0.p_hosp.den() == 100
    &&& st.event()->Some_0.p_death.num() == 95
    &&& st.event()->Some_0.p_death.den() == 100
    &&& st.spec_get_time() == if st is Sane {
        None
    } else {
        Some(Time { ms: 0 })
    }
}

/// The scheduled command `entry` is the next step of somebody in `pop`
/// whose course is under way, at the time at which that step is due.
pub open spec fn spec_pending(entry: (Time, Cmd), pop: Map<usize, State>) -> bool {
    match entry.1 {
        Cmd::Transition(p) => pop.contains_key(p.0) && !(pop[p.0] is Sane) && pop[p.0].spec_get_event_time()
            == Some(AnyTime::Finite(entry.0)),
        _ => false,
    }
}

/// `schedule` holds the next step of everybody in `pop` who is not
/// susceptible, once each and at the time at which it is due, and nothing else.
pub open spec fn spec_all_pending(pop: Map<usize, State>, schedule: Seq<(Time, Cmd)>) -> bool {
    &&& forall|j: int| 0 <= j < schedule.len() ==> spec_pending(#[trigger] schedule[j], pop)
    &&& forall|k: usize|
        pop.contains_key(k) && !(#[trigger] pop[k] is Sane) ==> exists|j: int|
            0 <= j < schedule.len() && (#[trigger] schedule[j]).1 == Cmd::Transition(PersonID(k))
    &&& forall|i: int, j: int|
        0 <= i < j < schedule.len() ==> (#[trigger] schedule[i]).1 != (#[trigger] schedule[j]).1
}

/// What is drawn for one person when the population comes in.
pub struct FirstDraws {
    /// The person starts out exposed.
    pub exposed: bool,
    /// The wait of the incubation, if the person is exposed.
    pub incubation: Duration,
    /// The person is infectious already, if exposed.
    pub infectious: bool,
    /// Whether an infectious person heads straight for recovery.
    pub branch: bool,
    /// The wait of the infection, if the person is infectious.
    pub infection: Duration,
}

/// The state of somebody who is new to the model.
pub open spec fn spec_newcomer() -> State {
    State::spec_new(Probability::spec_new(5, 100), Probability::spec_new(95, 100))
}

/// The state in which somebody starts out at the start of the first day,
/// and the time at which their next step is due if their course is under
/// way, given what was drawn for them.
pub open spec fn spec_first_state(d: FirstDraws) -> (State, Option<Time>) {
    let start = Time { ms: 0 };
    if !d.exposed {
        (spec_newcomer(), None)
    } else {
        match spec_newcomer().spec_start_now(start, true, d.incubation) {
            Ok(exposed) => if d.infectious {
                exposed.0.spec_next_default(start, d.branch, d.infection)
            } else {
                exposed
            },
            Err(_) => (spec_newcomer(), None),
        }
    }
}

/// The population and the schedule after the people of `people` have come
/// in, one after the other, given what was drawn for each.
pub open spec fn spec_taken_in(
    pop: Map<usize, State>,
    schedule: Seq<(Time, Cmd)>,
    people: Seq<PersonID>,
    draws: Seq<FirstDraws>,
) -> (Map<usize, State>, Seq<(Time, Cmd)>)
    decreases people.len(),
{
    if people.len() == 0 {
        (pop, schedule)
    } else {
        let (before, listed) = spec_taken_in(pop, schedule, people.drop_last(), draws.drop_last());
        let (state, due) = spec_first_state(draws.last());
        (
            before.insert(people.last().0, state),
            match due {
                Some(t) => listed.push((t, Cmd::spec_from(state, people.last()))),
                None => listed,
            },
        )
    }
}

/// Draws the state in which one person starts out, and the time at which
/// their next step is due if their course is under way.
fn draw_initial<W: WaitSampler>(rng: &mut rand_xorshift::XorShiftRng, waits: &W) -> (r: (
    State,
    Option<Time>,
    Ghost<FirstDraws>,
))
    ensures
        spec_initial(r.0),
        match r.1 {
            Some(due) => !(r.0 is Sane) && r.0.spec_get_event_time() == Some(AnyTime::Finite(due)),
            None => r.0 is Sane,
        },
        (r.0, r.1) == spec_first_state(r.2@),
{
    let state = State::new(Probability::percent(5), Probability::percent(95));
    let start = Time::start_of_day();
    let ghost none = Duration { ms: 0 };
    proof {
        Probability::lemma_spec_new(5, 100);
        Probability::lemma_spec_new(95, 100);
    }
    if bernoulli(rng, State::ini_exposed_ratio()) {
        let out = state.start(start, Duration::milliseconds(i64::MAX), rng, waits);
        let ghost first = choose|branch: bool, wait: Duration|
            state.admits(branch) && out == #[trigger] state.spec_start_now(start, branch, wait);
        proof {
            let ev = state.event().unwrap();
            assert(ev.spec_next(start, first.0, first.1) == ev.spec_next(start, true, first.1));
        }
        let exposed = match out {
            Ok(step) => step,
            Err(_) => vstd::pervasive::unreached(),
        };
        if bernoulli(rng, State::ini_infectious_ratio()) {
            let step = exposed.0.next_default(start, rng, waits);
            let ghost second = choose|branch: bool, wait: Duration|
                exposed.0.admits(branch) && step == #[trigger] exposed.0.spec_next_default(start, branch, wait);
            (
                step.0,
                step.1,
                Ghost(
                    FirstDraws {
                        exposed: true,
                        incubation: first.1,
                        infectious: true,
                        branch: second.0,
                        infection: second.1,
                    },
                ),
            )
        } else {
            (
                exposed.0,
                exposed.1,
                Ghost(
                    FirstDraws {
                        exposed: true,
                        incubation: first.1,
                        infectious: false,
                        branch: true,
                        infection: none,
                    },
                ),
            )
        }
    } else {
        (
            state,
            None,
            Ghost(
                FirstDraws { exposed: false, incubation: none, infectious: false, branch: true, infection: none },
            ),
        )
    }
}

impl<W: WaitSampler> PandemicModel<W> {
    /// Takes in the population at the start of the first day and returns
    /// the commands to schedule.
    ///
    /// Everybody starts out susceptible, but for one in five, who is exposed;
    /// of those, one in two is infectious already. For each person whose
    /// course is under way, the command of their next step is scheduled.
    pub fn initialize(&mut self, population: &Vec<PersonID>) -> (schedule: Vec<(Time, Cmd)>)
        requires
            old(self).wf(),
            !old(self).spec_initialized(),
        ensures
            final(self).wf(),
            final(self).spec_initialized(),
            final(self).field() == old(self).field(),
            final(self).spec_bounds() == old(self).spec_bounds(),
            final(self).spec_spacing() == old(self).spec_spacing(),
            final(self).spec_delta_t() == old(self).spec_delta_t(),
            final(self).buildings() == old(self).buildings(),
            final(self).lanes() == old(self).lanes(),
            final(self).remote_buildings() == old(self).remote_buildings(),
            final(self).stops() == old(self).stops(),
            final(self).vehicles() == old(self).vehicles(),
            final(self).riders() == old(self).riders(),
            forall|k: usize| #[trigger]
                final(self).population().contains_key(k) <==> population@.contains(PersonID(k)),
            forall|k: usize|
                final(self).population().contains_key(k) ==> spec_initial(
                    #[trigger] final(self).population()[k],
                ),
            spec_distinct(population@) ==> spec_all_pending(final(self).population(), schedule@),
            exists|draws: Seq<FirstDraws>|
                draws.len() == population@.len() && (final(self).population(), schedule@)
                    == #[trigger] spec_taken_in(
                    Map::<usize, State>::empty(),
                    Seq::<(Time, Cmd)>::empty(),
                    population@,
                    draws,
                ),
    {
        self.initialized = true;
        let mut schedule: Vec<(Time, Cmd)> = Vec::new();
        let mut i: usize = 0;
        let ghost mut draws: Seq<FirstDraws> = Seq::empty();
        let ghost nobody = Map::<usize, State>::empty();
        let ghost nothing = Seq::<(Time, Cmd)>::empty();
        assert(self.pop@ == Map::<usize, State>::empty());
        while i < population.len()
            invariant
                i <= population.len(),
                self.wf(),
                self.initialized,
                self.concentration == old(self).concentration,
                self.bounds == old(self).bounds,
                self.spacing == old(self).spacing,
                self.delta_t == old(self).delta_t,
                self.bldgs == old(self).bldgs,
                self.sidewalks == old(self).sidewalks,
                self.remote_bldgs == old(self).remote_bldgs,
                self.bus_stops == old(self).bus_stops,
                self.buses == old(self).buses,
                self.person_to_bus == old(self).person_to_bus,
                forall|k: usize| #[trigger]
                    self.pop@.contains_key(k) <==> population@.take(i as int).contains(PersonID(k)),
                forall|k: usize| self.pop@.contains_key(k) ==> spec_initial(#[trigger] self.pop@[k]),
                spec_distinct(population@) ==> spec_all_pending(self.pop@, schedule@),
                nobody == Map::<usize, State>::empty(),
                nothing == Seq::<(Time, Cmd)>::empty(),
                draws.len() == i,
                (self.pop@, schedule@) == spec_taken_in(nobody, nothing, population@.take(i as int), draws),
            decreases population.len() - i,
        {
            let p = population[i];
            let (state, due, drawn) = draw_initial(&mut self.rng, &self.waits);
            let ghost before = self.pop@;
            let ghost listed = schedule@;
            let ghost prefix = population@.take(i as int);
            proof {
                assert(PersonID(p.0) == p);
                if spec_distinct(population@) {
                    if before.contains_key(p.0) {
                        let j = choose|j: int| 0 <= j < prefix.len() && prefix[j] == p;
                        assert(population@[j] == population@[i as int]);
                    }
                    assert(!before.contains_key(p.0));
                }
            }
            if let Some(t) = due {
                schedule.push((t, Cmd::from(&state, p)));
            }
            self.pop.insert(p.0, state);
            proof {
                let upto = population@.take(i as int + 1);
                assert(upto == prefix.push(p));
                let longer = draws.push(drawn@);
                assert(upto.drop_last() == prefix);
                assert(upto.last() == p);
                assert(longer.drop_last() == draws);
                assert(longer.last() == drawn@);
                draws = longer;
                assert forall|k: usize| #[trigger] self.pop@.contains_key(k) <==> upto.contains(PersonID(k)) by {
                    if k == p.0 {
                        assert(upto[i as int] == p);
                    } else {
                        if prefix.contains(PersonID(k)) {
                            let j = choose|j: int| 0 <= j < prefix.len() && prefix[j] == PersonID(k);
                            assert(upto[j] == PersonID(k));
                        }
                        if upto.contains(PersonID(k)) {
                            let j = choose|j: int| 0 <= j < upto.len() && upto[j] == PersonID(k);
                            assert(prefix[j] == PersonID(k));
                        }
                    }
                }
                if spec_distinct(population@) {
                    let longer = schedule@;
                    assert forall|j: int| 0 <= j < longer.len() implies spec_pending(
                        #[trigger] longer[j],
                        self.pop@,
                    ) by {
                        if j < listed.len() {
                            assert(longer[j] == listed[j]);
                            assert(spec_pending(listed[j], before));
                        }
                    }
                    assert forall|k: usize| self.pop@.contains_key(k) && !(#[trigger] self.pop@[k] is Sane) implies exists|
                        j: int,
                    |
                        0 <= j < longer.len() && (#[trigger] longer[j]).1 == Cmd::Transition(PersonID(k)) by {
                        if k == p.0 {
                            assert(longer[listed.len() as int].1 == Cmd::Transition(PersonID(k)));
                        } else {
                            assert(before.contains_key(k) && !(before[k] is Sane));
                            let j = choose|j: int|
                                0 <= j < listed.len() && (#[trigger] listed[j]).1 == Cmd::Transition(
                                    PersonID(k),
                                );
                            assert(longer[j] == listed[j]);
                        }
                    }
                    assert forall|a: int, b: int| 0 <= a < b < longer.len() implies (#[trigger] longer[a]).1 != (
                    #[trigger] longer[b]).1 by {
                        assert(longer[a] == listed[a]);
                        assert(spec_pending(listed[a], before));
                        if b < listed.len() {
                            assert(longer[b] == listed[b]);
                        }
                    }
                }
                assert(self.knows_all(self.buildings())) by {
                    assert forall|key: usize| spec_all_known(#[trigger] self.bldgs.at(key), self.pop@) by {
                        assert(spec_all_known(self.bldgs.at(key), before));
                    }
                }
                assert(self.knows_all(self.lanes())) by {
                    assert forall|key: usize| spec_all_known(#[trigger] self.sidewalks.at(key), self.pop@) by {
                        assert(spec_all_known(self.sidewalks.at(key), before));
                    }
                }
                assert(self.knows_all(self.remote_buildings())) by {
                    assert forall|key: usize| spec_all_known(#[trigger] self.remote_bldgs.at(key), self.pop@) by {
                        assert(spec_all_known(self.remote_bldgs.at(key), before));
                    }
                }
                assert(self.knows_all(self.stops())) by {
                    assert forall|key: usize| spec_all_known(#[trigger] self.bus_stops.at(key), self.pop@) by {
                        assert(spec_all_known(self.bus_stops.at(key), before));
                    }
                }
                assert(self.knows_all(self.vehicles())) by {
                    assert forall|key: usize| spec_all_known(#[trigger] self.buses.at(key), self.pop@) by {
                        assert(spec_all_known(self.buses.at(key), before));
                    }
                }
            }
            i += 1;
        }
        assert(population@.take(population.len() as int) == population@);
        schedule
    }
}

} // verus!
