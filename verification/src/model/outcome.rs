//! What a call can make of the population, whatever is drawn: who can
//! change, into what, and what is scheduled for them. The scheduled step of
//! one person is taken here.

use vstd::prelude::*;
use crate::chance::WaitSampler;
use crate::events::Cmd;
use crate::ids::PersonID;
use crate::model::PandemicModel;
use crate::state::State;
use crate::time::{AnyTime, Duration, Time};

verus! {

broadcast use vstd::std_specs::btree::group_btree_axioms;

/// `new` is what the susceptible `old` becomes when exposed at `now`.
pub open spec fn spec_exposed_from(old: State, new: State, now: Time) -> bool {
    match old {
        State::Sane { next_event, .. } => exists|wait: Duration|
            new == (#[trigger] next_event.spec_next(now, true, wait)).0,
        _ => false,
    }
}

/// The scheduled command `entry` is the next step of somebody whose state
/// changed from `old` to `new`, at the time at which that step is due.
pub open spec fn spec_announces(entry: (Time, Cmd), old: Map<usize, State>, new: Map<usize, State>) -> bool {
    match entry.1 {
        Cmd::Transition(p) => old.contains_key(p.0) && new[p.0] != old[p.0]
            && new[p.0].spec_get_event_time() == Some(AnyTime::Finite(entry.0)),
        _ => false,
    }
}

/// What a round of exposures at `now` can make of the population `old`: the
/// same people, of whom some that were susceptible are now exposed, and in
/// `schedule` one command for each of them and no other.
pub open spec fn spec_outcome(
    old: Map<usize, State>,
    new: Map<usize, State>,
    schedule: Seq<(Time, Cmd)>,
    now: Time,
) -> bool {
    &&& new.dom() == old.dom()
    &&& forall|k: usize| #[trigger]
        old.contains_key(k) ==> new[k] == old[k] || spec_exposed_from(old[k], new[k], now)
    &&& forall|i: int| 0 <= i < schedule.len() ==> spec_announces(#[trigger] schedule[i], old, new)
    &&& forall|k: usize|
        old.contains_key(k) && #[trigger] new[k] != old[k] ==> exists|i: int|
            0 <= i < schedule.len() && (#[trigger] schedule[i]).1 == Cmd::Transition(PersonID(k))
    &&& forall|i: int, j: int|
        0 <= i < j < schedule.len() ==> (#[trigger] schedule[i]).1 != (#[trigger] schedule[j]).1
}

/// In a round of exposures, whoever is susceptible or contagious afterwards
/// was so before, and has not changed.
pub proof fn lemma_outcome_keeps_others(
    old: Map<usize, State>,
    new: Map<usize, State>,
    schedule: Seq<(Time, Cmd)>,
    now: Time,
    k: usize,
)
    requires
        spec_outcome(old, new, schedule, now),
        old.contains_key(k),
        old[k].wf(),
        new[k].is_sane() || new[k].is_infectious() || !(old[k] is Sane),
    ensures
        new[k] == old[k],
{
}

/// One more exposure at `now`, of somebody still susceptible, extends a
/// round of exposures by that person and the schedule by their command.
pub proof fn lemma_outcome_step(
    old: Map<usize, State>,
    mid: Map<usize, State>,
    schedule: Seq<(Time, Cmd)>,
    now: Time,
    k: usize,
    exposed: State,
    due: Time,
)
    requires
        spec_outcome(old, mid, schedule, now),
        mid.contains_key(k),
        mid[k] is Sane,
        spec_exposed_from(mid[k], exposed, now),
        exposed.spec_get_event_time() == Some(AnyTime::Finite(due)),
    ensures
        spec_outcome(old, mid.insert(k, exposed), schedule.push((due, Cmd::Transition(PersonID(k)))), now),
{
    let new = mid.insert(k, exposed);
    let longer = schedule.push((due, Cmd::Transition(PersonID(k))));
    assert(new.dom() == old.dom());
    assert(old.contains_key(k));
    assert(mid[k] == old[k]);
    assert(exposed != mid[k]);
    assert forall|i: int| 0 <= i < longer.len() implies spec_announces(#[trigger] longer[i], old, new) by {
        if i < schedule.len() {
            assert(longer[i] == schedule[i]);
            assert(spec_announces(schedule[i], old, mid));
        }
    }
    assert forall|q: usize| old.contains_key(q) && #[trigger] new[q] != old[q] implies exists|i: int|
        0 <= i < longer.len() && (#[trigger] longer[i]).1 == Cmd::Transition(PersonID(q)) by {
        if q == k {
            assert(longer[schedule.len() as int].1 == Cmd::Transition(PersonID(q)));
        } else {
            assert(mid[q] != old[q]);
            let i = choose|i: int|
                0 <= i < schedule.len() && (#[trigger] schedule[i]).1 == Cmd::Transition(PersonID(q));
            assert(longer[i] == schedule[i]);
        }
    }
    assert forall|i: int, j: int| 0 <= i < j < longer.len() implies (#[trigger] longer[i]).1 != (
    #[trigger] longer[j]).1 by {
        assert(longer[i] == schedule[i]);
        assert(spec_announces(schedule[i], old, mid));
        if j < schedule.len() {
            assert(longer[j] == schedule[j]);
        }
    }
}

/// A round of exposures changes nobody whose course is under way or has
/// ended: whoever has recovered or died stays so, and the people are the same.
pub proof fn lemma_exposures_keep_the_rest(
    old: Map<usize, State>,
    new: Map<usize, State>,
    schedule: Seq<(Time, Cmd)>,
    now: Time,
    k: usize,
)
    requires
        spec_outcome(old, new, schedule, now),
        old.contains_key(k),
        !(old[k] is Sane),
    ensures
        new.dom() == old.dom(),
        new[k] == old[k],
{
}

/// What a scheduled step made of the population and put on the schedule.
pub open spec fn spec_step_recorded(
    old: Map<usize, State>,
    new: Map<usize, State>,
    schedule: Seq<(Time, Cmd)>,
    person: PersonID,
    step: (State, Option<Time>),
) -> bool {
    &&& new == old.insert(person.0, step.0)
    &&& schedule == match step.1 {
        Some(due) => seq![(due, Cmd::spec_from(step.0, person))],
        None => Seq::<(Time, Cmd)>::empty(),
    }
}

/// A scheduled step changes nobody but the person who takes it, and
/// nobody who has recovered or died; the people are the same.
pub proof fn lemma_step_keeps_the_rest(
    old: Map<usize, State>,
    new: Map<usize, State>,
    schedule: Seq<(Time, Cmd)>,
    person: PersonID,
    now: Time,
    branch: bool,
    wait: Duration,
    k: usize,
)
    requires
        old.contains_key(person.0),
        old.contains_key(k),
        spec_step_recorded(old, new, schedule, person, old[person.0].spec_next(now, branch, wait)),
        k != person.0 || old[k] is Recovered || old[k] is Dead,
    ensures
        new.dom() == old.dom(),
        new[k] == old[k],
{
    assert(new.dom() =~= old.dom());
}

impl<W: WaitSampler> PandemicModel<W> {
    /// What the scheduled step of `person` at `now` makes of the model `old`.
    pub open spec fn spec_transitioned(&self, old: &Self, schedule: Seq<(Time, Cmd)>, now: Time, person: PersonID) -> bool {
        exists|branch: bool, wait: Duration|
            old.state_of(person).admits(branch) && spec_step_recorded(
                old.population(),
                self.population(),
                schedule,
                person,
                #[trigger] old.state_of(person).spec_next(now, branch, wait),
            )
    }

    /// Takes the scheduled step of `person` at `now` and returns the
    /// command of the step after it, if there is one.
    pub fn transition(&mut self, now: Time, person: PersonID) -> (schedule: Vec<(Time, Cmd)>)
        requires
            old(self).wf(),
            old(self).knows(person),
        ensures
            final(self).wf(),
            final(self).same_but_population(old(self)),
            exists|branch: bool, wait: Duration|
                old(self).state_of(person).admits(branch) && spec_step_recorded(
                    old(self).population(),
                    final(self).population(),
                    schedule@,
                    person,
                    #[trigger] old(self).state_of(person).spec_next(now, branch, wait),
                ),
    {
        let state = self.lookup(person);
        let step = state.next(now, &mut self.rng, &self.waits);
        let (next, due) = step;
        let mut schedule: Vec<(Time, Cmd)> = Vec::new();
        proof {
            let (branch, wait) = choose|branch: bool, wait: Duration|
                state.admits(branch) && step == #[trigger] state.spec_next(now, branch, wait);
            assert(state.wf());
            assert(next.wf());
        }
        if let Some(t) = due {
            schedule.push((t, Cmd::from(&next, person)));
        }
        self.pop.insert(person.0, next);
        proof {
            let (branch, wait) = choose|branch: bool, wait: Duration|
                state.admits(branch) && step == #[trigger] state.spec_next(now, branch, wait);
            assert(self.pop@.dom() == old(self).pop@.dom());
            assert(schedule@ == match due {
                Some(t) => seq![(t, Cmd::spec_from(next, person))],
                None => Seq::<(Time, Cmd)>::empty(),
            });
            assert(spec_step_recorded(
                old(self).population(),
                self.population(),
                schedule@,
                person,
                state.spec_next(now, branch, wait),
            ));
        }
        schedule
    }
}

} // verus!
