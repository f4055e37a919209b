//! Transmission in shared spaces: the movements that the host reports, and
//! the exposure trials between somebody who leaves a space and those who stay.

use vstd::prelude::*;
use crate::chance::WaitSampler;
use crate::events::{Cmd, MobilityEvent, Traversable, TripPhaseType};
use crate::ids::{PersonID, SpaceId};
use crate::model::{PandemicModel, spec_all_known};
use crate::model::outcome::{lemma_outcome_keeps_others, lemma_outcome_step, spec_exposed_from, spec_outcome};
use crate::shared_space::{
    lemma_entered_after_push,
    lemma_entered_is_inside,
    lemma_entered_of_another,
    lemma_without_is_part,
    SharedSpace,
    spec_entered,
    spec_overlaps,
    spec_without,
};
use crate::state::State;
use crate::time::{AnyTime, Duration, Time};

verus! {

broadcast use vstd::std_specs::btree::group_btree_axioms;

/// The one of two people who met that can catch the disease from the
/// other: the susceptible one, where the other is contagious.
pub open spec fn spec_infectious_contact(person: PersonID, mine: State, other: PersonID, theirs: State) -> Option<
    PersonID,
> {
    if mine.is_sane() && theirs.is_infectious() {
        Some(person)
    } else if mine.is_infectious() && theirs.is_sane() {
        Some(other)
    } else {
        None
    }
}

/// The people named in `entries`, in their order.
pub open spec fn spec_people<X>(entries: Seq<(PersonID, X)>) -> Seq<PersonID> {
    entries.map_values(|e: (PersonID, X)| e.0)
}

/// The person numbered `k` can have caught the disease when `person` left
/// the people `others` behind: either it is `person`, who was susceptible
/// while one of the others was contagious, or it is one of the others, who was
/// susceptible while `person` was contagious.
pub open spec fn spec_could_catch(pop: Map<usize, State>, person: PersonID, others: Seq<PersonID>, k: usize) -> bool {
    ||| k == person.0 && pop[k].is_sane() && exists|i: int|
        0 <= i < others.len() && pop[(#[trigger] others[i]).0].is_infectious()
    ||| pop[person.0].is_infectious() && pop[k].is_sane() && exists|i: int|
        0 <= i < others.len() && (#[trigger] others[i]).0 == k
}

/// Whoever changed between `old` and `new` can have caught the disease when
/// `person` left the people `others` behind.
pub open spec fn spec_contacts_only(
    old: Map<usize, State>,
    new: Map<usize, State>,
    person: PersonID,
    others: Seq<PersonID>,
) -> bool {
    forall|k: usize| old.contains_key(k) && #[trigger] new[k] != old[k] ==> spec_could_catch(old, person, others, k)
}

/// The population and the schedule after the exposure trial at `now` of
/// the person numbered `k`, who shared `overlap` with somebody contagious,
/// when the threshold drawn was `threshold` and the wait drawn, if one was
/// drawn, was `wait`: if the trial passes, the person is exposed and the
/// command of their next step is added to the schedule.
pub open spec fn spec_exposure(
    pop: Map<usize, State>,
    schedule: Seq<(Time, Cmd)>,
    now: Time,
    k: usize,
    overlap: Duration,
    threshold: Duration,
    wait: Duration,
) -> (Map<usize, State>, Seq<(Time, Cmd)>) {
    match pop[k].spec_start(now, overlap, threshold, true, wait) {
        Ok((next, Some(due))) => (pop.insert(k, next), schedule.push((due, Cmd::Transition(PersonID(k))))),
        _ => (pop, schedule),
    }
}

/// The population and the schedule after `person` has left the people of
/// `others` behind at `now`, given the time shared with each and the
/// threshold and the wait of the trial of each. The others are taken in their
/// order; wherever one of the two is susceptible and the other contagious at
/// that point, the susceptible one undergoes the trial.
pub open spec fn spec_transmission(
    pop: Map<usize, State>,
    schedule: Seq<(Time, Cmd)>,
    now: Time,
    person: PersonID,
    others: Seq<(PersonID, Duration)>,
    trials: Seq<(Duration, Duration)>,
) -> (Map<usize, State>, Seq<(Time, Cmd)>)
    decreases others.len(),
{
    if others.len() == 0 {
        (pop, schedule)
    } else {
        let (before, listed) = spec_transmission(
            pop,
            schedule,
            now,
            person,
            others.drop_last(),
            trials.drop_last(),
        );
        let (other, overlap) = others.last();
        match spec_infectious_contact(person, before[person.0], other, before[other.0]) {
            Some(who) => spec_exposure(before, listed, now, who.0, overlap, trials.last().0, trials.last().1),
            None => (before, listed),
        }
    }
}

impl<W: WaitSampler> PandemicModel<W> {
    /// The one of `person` and `other` who can catch the disease from the
    /// other, if there is one.
    pub fn infectious_contact(&self, person: PersonID, other: PersonID) -> (who: Option<PersonID>)
        requires
            self.knows(person),
            self.knows(other),
        ensures
            who == spec_infectious_contact(person, self.state_of(person), other, self.state_of(other)),
    {
        if self.is_sane(person) && self.is_infectious(other) {
            Some(person)
        } else if self.is_infectious(person) && self.is_sane(other) {
            Some(other)
        } else {
            None
        }
    }

    /// Runs the exposure trial of the susceptible `person`, who shared
    /// `overlap` with somebody contagious. If they are exposed, the command of
    /// their next step is appended to `schedule`, and their new state is
    /// returned with the time at which that step is due.
    fn become_exposed(&mut self, now: Time, overlap: Duration, person: PersonID, schedule: &mut Vec<(Time, Cmd)>) -> (r: (
        Option<(State, Time)>,
        Ghost<(Duration, Duration)>,
    ))
        requires
            old(self).wf(),
            old(self).knows(person),
            old(self).state_of(person).is_sane(),
        ensures
            final(self).wf(),
            final(self).same_but_population(old(self)),
            match r.0 {
                None => final(self).population() == old(self).population() && final(schedule)@ == old(
                    schedule,
                )@,
                Some((exposed, due)) => {
                    &&& spec_exposed_from(old(self).state_of(person), exposed, now)
                    &&& exposed.spec_get_event_time() == Some(AnyTime::Finite(due))
                    &&& final(self).population() == old(self).population().insert(person.0, exposed)
                    &&& final(schedule)@ == old(schedule)@.push((due, Cmd::Transition(person)))
                },
            },
            (final(self).population(), final(schedule)@) == spec_exposure(
                old(self).population(),
                old(schedule)@,
                now,
                person.0,
                overlap,
                r.1@.0,
                r.1@.1,
            ),
            overlap.ms == i64::MAX ==> r.0 is Some,
    {
        let state = self.lookup(person);
        let out = state.start(now, overlap, &mut self.rng, &self.waits);
        let ghost drawn = choose|threshold: Duration, branch: bool, wait: Duration|
            state.admits(branch) && out == #[trigger] state.spec_start(now, overlap, threshold, branch, wait);
        proof {
            let (threshold, branch, wait) = drawn;
            let ev = state.event().unwrap();
            assert(state.wf());
            assert(ev.spec_next(now, branch, wait) == ev.spec_next(now, true, wait));
            assert(out == state.spec_start(now, overlap, threshold, true, wait));
            if overlap.ms == i64::MAX {
                let (b2, w2) = choose|b2: bool, w2: Duration|
                    state.admits(b2) && out == #[trigger] state.spec_start_now(now, b2, w2);
                assert(out is Ok && out->Ok_0.1 is Some);
            }
            assert(PersonID(person.0) == person);
        }
        match out {
            Ok((next, Some(due))) => {
                let cmd = Cmd::from(&next, person);
                schedule.push((due, cmd));
                self.pop.insert(person.0, next);
                proof {
                    assert(spec_exposed_from(state, next, now));
                    assert(self.pop@.dom() == old(self).pop@.dom());
                }
                (Some((next, due)), Ghost((drawn.0, drawn.2)))
            },
            _ => {
                proof {
                    assert(self.pop@ == old(self).pop@);
                }
                (None, Ghost((drawn.0, drawn.2)))
            },
        }
    }

    /// Lets the disease pass between `person`, who has just left a space,
    /// and each of those who stay, given the time they shared: wherever one of
    /// the two is susceptible and the other contagious, the susceptible one
    /// undergoes an exposure trial. Returns the commands to schedule.
    pub fn transmission(&mut self, now: Time, person: PersonID, other_occupants: Vec<(PersonID, Duration)>) -> (schedule:
        Vec<(Time, Cmd)>)
        requires
            old(self).wf(),
            old(self).knows(person),
            forall|i: int|
                0 <= i < other_occupants@.len() ==> old(self).knows((#[trigger] other_occupants@[i]).0),
        ensures
            final(self).wf(),
            final(self).same_but_population(old(self)),
            exists|trials: Seq<(Duration, Duration)>|
                trials.len() == other_occupants@.len() && (final(self).population(), schedule@)
                    == #[trigger] spec_transmission(
                    old(self).population(),
                    Seq::<(Time, Cmd)>::empty(),
                    now,
                    person,
                    other_occupants@,
                    trials,
                ),
            spec_outcome(old(self).population(), final(self).population(), schedule@, now),
            spec_contacts_only(
                old(self).population(),
                final(self).population(),
                person,
                spec_people(other_occupants@),
            ),
    {
        let mut schedule: Vec<(Time, Cmd)> = Vec::new();
        let mut i: usize = 0;
        let ghost others = spec_people(other_occupants@);
        let ghost mut trials: Seq<(Duration, Duration)> = Seq::empty();
        let ghost first = self.population();
        let ghost nothing = Seq::<(Time, Cmd)>::empty();
        while i < other_occupants.len()
            invariant
                i <= other_occupants.len(),
                self.wf(),
                old(self).wf(),
                self.same_but_population(old(self)),
                old(self).knows(person),
                first == old(self).population(),
                nothing == Seq::<(Time, Cmd)>::empty(),
                others == spec_people(other_occupants@),
                forall|j: int|
                    0 <= j < other_occupants@.len() ==> old(self).knows((#[trigger] other_occupants@[j]).0),
                trials.len() == i,
                (self.population(), schedule@) == spec_transmission(
                    first,
                    nothing,
                    now,
                    person,
                    other_occupants@.take(i as int),
                    trials,
                ),
                spec_outcome(first, self.population(), schedule@, now),
                spec_contacts_only(first, self.population(), person, others),
            decreases other_occupants.len() - i,
        {
            let (other, overlap) = other_occupants[i];
            assert(old(self).knows(other_occupants@[i as int].0));
            assert(others[i as int] == other);
            let ghost mid = self.population();
            let ghost before = schedule@;
            let ghost mut trial = (Duration { ms: 0 }, Duration { ms: 0 });
            if let Some(pid) = self.infectious_contact(person, other) {
                let r = self.become_exposed(now, overlap, pid, &mut schedule);
                proof {
                    trial = r.1@;
                    if let Some((exposed, due)) = r.0 {
                        lemma_outcome_keeps_others(first, mid, before, now, person.0);
                        lemma_outcome_keeps_others(first, mid, before, now, other.0);
                        lemma_outcome_step(first, mid, before, now, pid.0, exposed, due);
                        assert(PersonID(pid.0) == pid);
                        assert(spec_could_catch(first, person, others, pid.0));
                    }
                }
            }
            proof {
                let upto = other_occupants@.take(i as int + 1);
                let longer = trials.push(trial);
                assert(upto.drop_last() == other_occupants@.take(i as int));
                assert(upto.last() == (other, overlap));
                assert(longer.drop_last() == trials);
                assert(longer.last() == trial);
                trials = longer;
            }
            i += 1;
        }
        assert(other_occupants@.take(other_occupants.len() as int) == other_occupants@);
        schedule
    }
}

/// The ledger `new` is `old` after `person` came into `space` at `now`.
pub open spec fn spec_came_in<T: SpaceId>(
    old: SharedSpace<T>,
    new: SharedSpace<T>,
    now: Time,
    person: PersonID,
    space: T,
) -> bool {
    &&& new.inside(space) == old.inside(space).push((person, now))
    &&& forall|key: usize| key != space.spec_index() ==> #[trigger] new.at(key) == old.at(key)
}

/// The ledger `new` is `old` after `person` left `space`.
pub open spec fn spec_went_out<T: SpaceId>(
    old: SharedSpace<T>,
    new: SharedSpace<T>,
    person: PersonID,
    space: T,
) -> bool {
    &&& new.inside(space) == spec_without(old.inside(space), person)
    &&& forall|key: usize| key != space.spec_index() ==> #[trigger] new.at(key) == old.at(key)
}

/// A ledger of known people stays one when somebody known comes in.
pub proof fn lemma_known_after_coming<T: SpaceId>(
    old: SharedSpace<T>,
    new: SharedSpace<T>,
    pop: Map<usize, State>,
    now: Time,
    person: PersonID,
    space: T,
)
    requires
        forall|key: usize| spec_all_known(#[trigger] old.at(key), pop),
        pop.contains_key(person.0),
        spec_came_in(old, new, now, person, space),
    ensures
        forall|key: usize| spec_all_known(#[trigger] new.at(key), pop),
{
    assert forall|key: usize| spec_all_known(#[trigger] new.at(key), pop) by {
        assert(spec_all_known(old.at(key), pop));
        if key == space.spec_index() {
            let occ = old.at(key);
            assert forall|i: int| 0 <= i < new.at(key).len() implies pop.contains_key(
                (#[trigger] new.at(key)[i]).0.0,
            ) by {
                if i < occ.len() {
                    assert(new.at(key)[i] == occ[i]);
                }
            }
        }
    }
}

/// A ledger of known people stays one when somebody leaves.
pub proof fn lemma_known_after_going<T: SpaceId>(
    old: SharedSpace<T>,
    new: SharedSpace<T>,
    pop: Map<usize, State>,
    person: PersonID,
    space: T,
)
    requires
        forall|key: usize| spec_all_known(#[trigger] old.at(key), pop),
        spec_went_out(old, new, person, space),
    ensures
        forall|key: usize| spec_all_known(#[trigger] new.at(key), pop),
{
    assert forall|key: usize| spec_all_known(#[trigger] new.at(key), pop) by {
        assert(spec_all_known(old.at(key), pop));
        if key == space.spec_index() {
            let occ = old.at(key);
            lemma_without_is_part(occ, person);
            assert forall|i: int| 0 <= i < new.at(key).len() implies pop.contains_key(
                (#[trigger] new.at(key)[i]).0.0,
            ) by {
                assert(occ.contains(spec_without(occ, person)[i]));
                let j = choose|j: int| 0 <= j < occ.len() && occ[j] == new.at(key)[i];
                assert(pop.contains_key(occ[j].0.0));
            }
        }
    }
}

impl<W: WaitSampler> PandemicModel<W> {
    /// The movement `ev` is one that the model can take: the model has its
    /// population, it knows whoever comes or goes, and whoever leaves a space
    /// is inside it.
    pub open spec fn spec_accepts_event(&self, ev: MobilityEvent) -> bool {
        self.spec_initialized() && match ev {
            MobilityEvent::AgentEntersTraversable(Some(p), Traversable::Lane(_)) => self.knows(p),
            MobilityEvent::AgentLeavesTraversable(Some(p), Traversable::Lane(l)) => self.knows(p)
                && spec_entered(self.lanes().inside(l), p) is Some,
            MobilityEvent::PersonEntersBuilding(p, _) => self.knows(p),
            MobilityEvent::PersonLeavesBuilding(p, b) => self.knows(p) && spec_entered(
                self.buildings().inside(b),
                p,
            ) is Some,
            MobilityEvent::PersonEntersRemoteBuilding(p, _) => self.knows(p),
            MobilityEvent::PersonLeavesRemoteBuilding(p, loc) => self.knows(p) && spec_entered(
                self.remote_buildings().inside(loc),
                p,
            ) is Some,
            MobilityEvent::TripPhaseStarting(p, TripPhaseType::WaitingForBus(_)) => self.knows(p),
            MobilityEvent::TripPhaseStarting(p, TripPhaseType::RidingBus(stop, _)) => self.knows(p)
                && spec_entered(self.stops().inside(stop), p) is Some,
            _ => true,
        }
    }

    /// The ledger of the buildings after `ev`.
    pub open spec fn spec_buildings_after(&self, old: &Self, now: Time, ev: MobilityEvent) -> bool {
        match ev {
            MobilityEvent::PersonEntersBuilding(p, b) => spec_came_in(old.buildings(), self.buildings(), now, p, b),
            MobilityEvent::PersonLeavesBuilding(p, b) => spec_went_out(old.buildings(), self.buildings(), p, b),
            _ => self.buildings() == old.buildings(),
        }
    }

    /// The ledger of the sidewalks after `ev`.
    pub open spec fn spec_lanes_after(&self, old: &Self, now: Time, ev: MobilityEvent) -> bool {
        match ev {
            MobilityEvent::AgentEntersTraversable(Some(p), Traversable::Lane(l)) => spec_came_in(
                old.lanes(),
                self.lanes(),
                now,
                p,
                l,
            ),
            MobilityEvent::AgentLeavesTraversable(Some(p), Traversable::Lane(l)) => spec_went_out(
                old.lanes(),
                self.lanes(),
                p,
                l,
            ),
            _ => self.lanes() == old.lanes(),
        }
    }

    /// The ledger of the buildings off the map after `ev`.
    pub open spec fn spec_remote_buildings_after(&self, old: &Self, now: Time, ev: MobilityEvent) -> bool {
        match ev {
            MobilityEvent::PersonEntersRemoteBuilding(p, loc) => spec_came_in(
                old.remote_buildings(),
                self.remote_buildings(),
                now,
                p,
                loc,
            ),
            MobilityEvent::PersonLeavesRemoteBuilding(p, loc) => spec_went_out(
                old.remote_buildings(),
                self.remote_buildings(),
                p,
                loc,
            ),
            _ => self.remote_buildings() == old.remote_buildings(),
        }
    }

    /// The ledger of the bus stops after `ev`: whoever starts to wait comes
    /// to the stop, and whoever boards leaves it.
    pub open spec fn spec_stops_after(&self, old: &Self, now: Time, ev: MobilityEvent) -> bool {
        match ev {
            MobilityEvent::TripPhaseStarting(p, TripPhaseType::WaitingForBus(stop)) => spec_came_in(
                old.stops(),
                self.stops(),
                now,
                p,
                stop,
            ),
            MobilityEvent::TripPhaseStarting(p, TripPhaseType::RidingBus(stop, _)) => spec_went_out(
                old.stops(),
                self.stops(),
                p,
                stop,
            ),
            _ => self.stops() == old.stops(),
        }
    }

    /// The ledger of the buses and the riders after `ev`: whoever boards
    /// comes into the bus and rides it, and a rider who starts to walk has
    /// left the bus.
    pub open spec fn spec_vehicles_after(&self, old: &Self, now: Time, ev: MobilityEvent) -> bool {
        match ev {
            MobilityEvent::TripPhaseStarting(p, TripPhaseType::RidingBus(_, bus)) => {
                &&& spec_came_in(old.vehicles(), self.vehicles(), now, p, bus)
                &&& self.riders() == old.riders().insert(p.0, bus)
            },
            MobilityEvent::TripPhaseStarting(p, TripPhaseType::Walking) => if old.riders().contains_key(p.0) {
                &&& spec_went_out(old.vehicles(), self.vehicles(), p, old.riders()[p.0])
                &&& self.riders() == old.riders().remove(p.0)
            } else {
                &&& self.vehicles() == old.vehicles()
                &&& self.riders() == old.riders()
            },
            _ => {
                &&& self.vehicles() == old.vehicles()
                &&& self.riders() == old.riders()
            },
        }
    }

    /// Who leaves a space by `ev`, and the time that they shared with each
    /// of those who stay behind in it; none where `ev` has nobody leave a space.
    pub open spec fn spec_parting(&self, old: &Self, now: Time, ev: MobilityEvent) -> Option<
        (PersonID, Seq<(PersonID, Duration)>),
    > {
        match ev {
            MobilityEvent::AgentLeavesTraversable(Some(p), Traversable::Lane(l)) => Some(
                (p, spec_overlaps(self.lanes().inside(l), spec_entered(old.lanes().inside(l), p)->Some_0, now)),
            ),
            MobilityEvent::PersonLeavesBuilding(p, b) => Some(
                (
                    p,
                    spec_overlaps(
                        self.buildings().inside(b),
                        spec_entered(old.buildings().inside(b), p)->Some_0,
                        now,
                    ),
                ),
            ),
            MobilityEvent::PersonLeavesRemoteBuilding(p, loc) => Some(
                (
                    p,
                    spec_overlaps(
                        self.remote_buildings().inside(loc),
                        spec_entered(old.remote_buildings().inside(loc), p)->Some_0,
                        now,
                    ),
                ),
            ),
            MobilityEvent::TripPhaseStarting(p, TripPhaseType::RidingBus(stop, _)) => Some(
                (p, spec_overlaps(self.stops().inside(stop), spec_entered(old.stops().inside(stop), p)->Some_0, now)),
            ),
            MobilityEvent::TripPhaseStarting(p, TripPhaseType::Walking) => if old.riders().contains_key(p.0) {
                Some(
                    (
                        p,
                        spec_overlaps(
                            self.vehicles().inside(old.riders()[p.0]),
                            spec_entered(old.vehicles().inside(old.riders()[p.0]), p)->Some_0,
                            now,
                        ),
                    ),
                )
            } else {
                None
            },
            _ => None,
        }
    }

    /// Whether the model can take the movement `ev`.
    pub fn accepts_event(&self, ev: &MobilityEvent) -> (ok: bool)
        ensures
            ok == self.spec_accepts_event(*ev),
    {
        if !self.initialized {
            return false;
        }
        match *ev {
            MobilityEvent::AgentEntersTraversable(Some(p), Traversable::Lane(_)) => self.is_known(p),
            MobilityEvent::AgentLeavesTraversable(Some(p), Traversable::Lane(l)) => self.is_known(p)
                && self.sidewalks.holds(p, l),
            MobilityEvent::PersonEntersBuilding(p, _) => self.is_known(p),
            MobilityEvent::PersonLeavesBuilding(p, b) => self.is_known(p) && self.bldgs.holds(p, b),
            MobilityEvent::PersonEntersRemoteBuilding(p, _) => self.is_known(p),
            MobilityEvent::PersonLeavesRemoteBuilding(p, loc) => self.is_known(p) && self.remote_bldgs.holds(
                p,
                loc,
            ),
            MobilityEvent::TripPhaseStarting(p, TripPhaseType::WaitingForBus(_)) => self.is_known(p),
            MobilityEvent::TripPhaseStarting(p, TripPhaseType::RidingBus(stop, _)) => self.is_known(p)
                && self.bus_stops.holds(p, stop),
            _ => true,
        }
    }

    /// Takes a movement reported at `now` and returns the commands to
    /// schedule.
    ///
    /// Whoever enters a building, a sidewalk or a building off the map, or
    /// starts to wait at a bus stop, is entered in the ledger of that space.
    /// Whoever leaves one is struck from it, and the disease can pass between
    /// them and those who stay. Boarding a bus is leaving the stop and
    /// entering the bus; a rider who starts to walk has left the bus. Every
    /// other movement leaves the model as it is.
    pub fn handle_event(&mut self, now: Time, ev: &MobilityEvent) -> (schedule: Vec<(Time, Cmd)>)
        requires
            old(self).wf(),
            old(self).spec_accepts_event(*ev),
        ensures
            final(self).wf(),
            final(self).field() == old(self).field(),
            final(self).spec_bounds() == old(self).spec_bounds(),
            final(self).spec_spacing() == old(self).spec_spacing(),
            final(self).spec_delta_t() == old(self).spec_delta_t(),
            final(self).spec_initialized(),
            final(self).spec_buildings_after(old(self), now, *ev),
            final(self).spec_lanes_after(old(self), now, *ev),
            final(self).spec_remote_buildings_after(old(self), now, *ev),
            final(self).spec_stops_after(old(self), now, *ev),
            final(self).spec_vehicles_after(old(self), now, *ev),
            spec_outcome(old(self).population(), final(self).population(), schedule@, now),
            match final(self).spec_parting(old(self), now, *ev) {
                Some((leaver, overlaps)) => {
                    &&& exists|trials: Seq<(Duration, Duration)>|
                        trials.len() == overlaps.len() && (final(self).population(), schedule@)
                            == #[trigger] spec_transmission(
                            old(self).population(),
                            Seq::<(Time, Cmd)>::empty(),
                            now,
                            leaver,
                            overlaps,
                            trials,
                        )
                    &&& spec_contacts_only(
                        old(self).population(),
                        final(self).population(),
                        leaver,
                        spec_people(overlaps),
                    )
                },
                None => final(self).population() == old(self).population() && schedule@.len() == 0,
            },
    {
        match *ev {
            MobilityEvent::AgentEntersTraversable(Some(p), Traversable::Lane(lid)) => {
                self.sidewalks.person_enters_space(now, p, lid);
                proof {
                    lemma_known_after_coming(old(self).sidewalks, self.sidewalks, self.pop@, now, p, lid);
                }
                Vec::new()
            },
            MobilityEvent::AgentLeavesTraversable(Some(p), Traversable::Lane(lid)) => {
                let others = self.sidewalks.person_leaves_space(now, p, lid).unwrap();
                proof {
                    lemma_known_after_going(old(self).sidewalks, self.sidewalks, self.pop@, p, lid);
                    assert(spec_all_known(self.sidewalks.at(lid.spec_index()), self.pop@));
                }
                self.transmission(now, p, others)
            },
            MobilityEvent::PersonEntersBuilding(p, bldg) => {
                self.bldgs.person_enters_space(now, p, bldg);
                proof {
                    lemma_known_after_coming(old(self).bldgs, self.bldgs, self.pop@, now, p, bldg);
                }
                Vec::new()
            },
            MobilityEvent::PersonLeavesBuilding(p, bldg) => {
                let others = self.bldgs.person_leaves_space(now, p, bldg).unwrap();
                proof {
                    lemma_known_after_going(old(self).bldgs, self.bldgs, self.pop@, p, bldg);
                    assert(spec_all_known(self.bldgs.at(bldg.spec_index()), self.pop@));
                }
                self.transmission(now, p, others)
            },
            MobilityEvent::PersonEntersRemoteBuilding(p, loc) => {
                self.remote_bldgs.person_enters_space(now, p, loc);
                proof {
                    lemma_known_after_coming(old(self).remote_bldgs, self.remote_bldgs, self.pop@, now, p, loc);
                }
                Vec::new()
            },
            MobilityEvent::PersonLeavesRemoteBuilding(p, loc) => {
                let others = self.remote_bldgs.person_leaves_space(now, p, loc).unwrap();
                proof {
                    lemma_known_after_going(old(self).remote_bldgs, self.remote_bldgs, self.pop@, p, loc);
                    assert(spec_all_known(self.remote_bldgs.at(loc.spec_index()), self.pop@));
                }
                self.transmission(now, p, others)
            },
            MobilityEvent::TripPhaseStarting(p, TripPhaseType::WaitingForBus(stop)) => {
                self.bus_stops.person_enters_space(now, p, stop);
                proof {
                    lemma_known_after_coming(old(self).bus_stops, self.bus_stops, self.pop@, now, p, stop);
                }
                Vec::new()
            },
            MobilityEvent::TripPhaseStarting(p, TripPhaseType::RidingBus(stop, bus)) => {
                let others = self.bus_stops.person_leaves_space(now, p, stop).unwrap();
                proof {
                    lemma_known_after_going(old(self).bus_stops, self.bus_stops, self.pop@, p, stop);
                    assert(spec_all_known(self.bus_stops.at(stop.spec_index()), self.pop@));
                }
                let schedule = self.transmission(now, p, others);
                let ghost before = self.buses;
                self.buses.person_enters_space(now, p, bus);
                self.person_to_bus.insert(p.0, bus);
                proof {
                    lemma_known_after_coming(before, self.buses, self.pop@, now, p, bus);
                    assert forall|k: usize| #[trigger] self.riders().contains_key(k) implies spec_entered(
                        self.vehicles().inside(self.riders()[k]),
                        PersonID(k),
                    ) is Some by {
                        if k == p.0 {
                            lemma_entered_after_push(before.inside(bus), p, now);
                            assert(PersonID(k) == p);
                        } else {
                            let car = self.riders()[k];
                            assert(old(self).riders().contains_key(k));
                            if car.spec_index() == bus.spec_index() {
                                lemma_entered_of_another(before.inside(bus), PersonID(k), p, now);
                            }
                        }
                    }
                }
                schedule
            },
            MobilityEvent::TripPhaseStarting(p, TripPhaseType::Walking) => {
                match self.person_to_bus.remove(&p.0) {
                    Some(car) => {
                        proof {
                            assert(old(self).riders().contains_key(p.0));
                            lemma_entered_is_inside(old(self).buses.inside(car), p);
                            assert(spec_all_known(old(self).buses.at(car.spec_index()), self.pop@));
                        }
                        let others = self.buses.person_leaves_space(now, p, car).unwrap();
                        proof {
                            lemma_known_after_going(old(self).buses, self.buses, self.pop@, p, car);
                            assert(spec_all_known(self.buses.at(car.spec_index()), self.pop@));
                            assert forall|k: usize| #[trigger] self.riders().contains_key(k) implies spec_entered(
                                self.vehicles().inside(self.riders()[k]),
                                PersonID(k),
                            ) is Some by {
                                let other = self.riders()[k];
                                assert(old(self).riders().contains_key(k));
                                if other.spec_index() == car.spec_index() {
                                    lemma_entered_of_another(old(self).buses.inside(car), PersonID(k), p, now);
                                }
                            }
                        }
                        self.transmission(now, p, others)
                    },
                    None => {
                        assert(self.person_to_bus@ =~= old(self).person_to_bus@);
                        Vec::new()
                    },
                }
            },
            _ => Vec::new(),
        }
    }
}

} // verus!
