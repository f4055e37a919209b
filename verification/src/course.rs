//! What holds of the course of the disease over any number of steps.
//!
//! A course is a state followed through a list of draws, each of which is
//! either an exposure or the scheduled step. The laws here are stated of
//! every course, whatever was drawn.

use vstd::prelude::*;
use crate::state::{State, StateError, StateEvent};
use crate::time::{AnyTime, Duration, Time};

verus! {

/// One step of a course: what kind it is, when it is taken and what was drawn.
pub struct Draw {
    /// An exposure without a trial, rather than the scheduled step.
    pub exposure: bool,
    pub now: Time,
    pub branch: bool,
    pub wait: Duration,
}

/// The state after the step `d`. An exposure of somebody who is not
/// susceptible is refused and leaves them as they are.
pub open spec fn spec_after(st: State, d: Draw) -> State {
    if d.exposure {
        match st.spec_start_now(d.now, d.branch, d.wait) {
            Ok((next, _)) => next,
            Err(_) => st,
        }
    } else {
        st.spec_next(d.now, d.branch, d.wait).0
    }
}

/// The state after the steps `draws`, taken in their order.
pub open spec fn spec_course(st: State, draws: Seq<Draw>) -> State
    decreases draws.len(),
{
    if draws.len() == 0 {
        st
    } else {
        spec_after(spec_course(st, draws.drop_last()), draws.last())
    }
}

/// Each branch in `draws` is one that the event pending at its step admits.
pub open spec fn spec_admitted(st: State, draws: Seq<Draw>) -> bool
    decreases draws.len(),
{
    draws.len() == 0 || (spec_admitted(st, draws.drop_last()) && spec_course(
        st,
        draws.drop_last(),
    ).admits(draws.last().branch))
}

/// Dead, or in hospital with death as the next event.
pub open spec fn spec_doomed(st: State) -> bool {
    st is Dead || (st is Hospitalized && st.event()->Some_0.s == StateEvent::Death)
}

/// On the way to hospital, or in it.
pub open spec fn spec_hospital_bound(st: State) -> bool {
    st is Hospitalized || (st is Infectious && st.event()->Some_0.s == StateEvent::Hospitalization)
}

/// Every step leads from a well-formed state to a well-formed state.
pub proof fn lemma_step_keeps_wf(st: State, d: Draw)
    requires
        st.wf(),
    ensures
        spec_after(st, d).wf(),
{
}

/// Every course of a well-formed state ends in a well-formed state.
pub proof fn lemma_course_keeps_wf(st: State, draws: Seq<Draw>)
    requires
        st.wf(),
    ensures
        spec_course(st, draws).wf(),
    decreases draws.len(),
{
    if draws.len() > 0 {
        lemma_course_keeps_wf(st, draws.drop_last());
        lemma_step_keeps_wf(spec_course(st, draws.drop_last()), draws.last());
    }
}

/// Recovery and death are final: whoever has recovered or died stays exactly
/// as they are through every course.
pub proof fn lemma_terminal_is_absorbing(st: State, draws: Seq<Draw>)
    requires
        st is Recovered || st is Dead,
    ensures
        spec_course(st, draws) == st,
    decreases draws.len(),
{
    if draws.len() > 0 {
        lemma_terminal_is_absorbing(st, draws.drop_last());
    }
}

/// A scheduled step never changes a susceptible person, whose next event
/// stays infinitely far away; only an exposure does.
pub proof fn lemma_sane_waits(st: State, now: Time, branch: bool, wait: Duration)
    requires
        st.wf(),
        st is Sane,
    ensures
        st.is_sane(),
        st.spec_get_event_time() == Some(AnyTime::Infinite),
        st.spec_next(now, branch, wait).0 == st,
{
}

/// An exposure trial that fails leaves a susceptible person exactly as they
/// are, with nothing scheduled.
pub proof fn lemma_failed_trial_changes_nothing(
    st: State,
    now: Time,
    overlap: Duration,
    threshold: Duration,
    branch: bool,
    wait: Duration,
)
    requires
        st is Sane,
        overlap.ms < threshold.ms,
    ensures
        st.spec_start(now, overlap, threshold, branch, wait) == Ok::<(State, Option<Time>), StateError>((st, None)),
{
}

/// Somebody who shared no time at all with a contagious person is not
/// exposed, whatever positive threshold was drawn.
pub proof fn lemma_no_overlap_no_exposure(st: State, now: Time, threshold: Duration, branch: bool, wait: Duration)
    requires
        st is Sane,
        threshold.ms > 0,
    ensures
        st.spec_start(now, Duration { ms: 0 }, threshold, branch, wait) == Ok::<(State, Option<Time>), StateError>(
            (st, None),
        ),
{
}

/// Where recovery in hospital is certain, nobody dies: a person who is not
/// doomed at the outset is not doomed after any course.
pub proof fn lemma_certain_recovery_in_hospital(st: State, draws: Seq<Draw>)
    requires
        st.wf(),
        !spec_doomed(st),
        st.event() is Some ==> st.event()->Some_0.p_hosp.is_certain(),
        spec_admitted(st, draws),
    ensures
        !spec_doomed(spec_course(st, draws)),
        !(spec_course(st, draws) is Dead),
        spec_course(st, draws).event() is Some ==> spec_course(st, draws).event()->Some_0.p_hosp.is_certain(),
    decreases draws.len(),
{
    if draws.len() > 0 {
        lemma_certain_recovery_in_hospital(st, draws.drop_last());
        lemma_course_keeps_wf(st, draws.drop_last());
    }
}

/// Where recovery without hospital is certain, nobody goes to hospital, and
/// so nobody dies: a person who is neither bound for hospital nor dead at
/// the outset is neither after any course.
pub proof fn lemma_certain_recovery_at_home(st: State, draws: Seq<Draw>)
    requires
        st.wf(),
        !spec_hospital_bound(st),
        !(st is Dead),
        st.event() is Some ==> st.event()->Some_0.p_death.is_certain(),
        spec_admitted(st, draws),
    ensures
        !spec_hospital_bound(spec_course(st, draws)),
        !(spec_course(st, draws) is Dead),
        spec_course(st, draws).event() is Some ==> spec_course(st, draws).event()->Some_0.p_death.is_certain(),
    decreases draws.len(),
{
    if draws.len() > 0 {
        lemma_certain_recovery_at_home(st, draws.drop_last());
        lemma_course_keeps_wf(st, draws.drop_last());
    }
}

/// Where neither recovery is possible, everybody who is exposed dies: three
/// scheduled steps take an exposed person through infection and hospital
/// to death.
pub proof fn lemma_no_recovery_is_death(st: State, first: Draw, second: Draw, third: Draw)
    requires
        st.wf(),
        st is Exposed,
        st.event()->Some_0.p_death.is_impossible(),
        !st.event()->Some_0.p_death.is_certain(),
        st.event()->Some_0.p_hosp.is_impossible(),
        !st.event()->Some_0.p_hosp.is_certain(),
        !first.exposure,
        !second.exposure,
        !third.exposure,
        spec_admitted(st, seq![first, second, third]),
    ensures
        spec_course(st, seq![first]) is Infectious,
        spec_course(st, seq![first, second]) is Hospitalized,
        spec_course(st, seq![first, second, third]) is Dead,
{
    let one = seq![first];
    let two = seq![first, second];
    let three = seq![first, second, third];
    assert(three.drop_last() == two);
    assert(two.drop_last() == one);
    assert(one.drop_last() == Seq::<Draw>::empty());
    assert(three.last() == third);
    assert(two.last() == second);
    assert(one.last() == first);
    assert(spec_admitted(st, two));
    assert(spec_admitted(st, one));
    assert(spec_course(st, Seq::<Draw>::empty()) == st);
    assert(spec_course(st, one) == spec_after(st, first));
    assert(spec_course(st, two) == spec_after(spec_course(st, one), second));
    assert(spec_course(st, three) == spec_after(spec_course(st, two), third));
}

/// A step taken no earlier than it was due, with a wait that is not
/// negative, schedules the following event no earlier than the one that it
/// takes.
pub proof fn lemma_events_in_order(st: State, now: Time, branch: bool, wait: Duration)
    requires
        st.wf(),
        st is Exposed || st is Infectious || st is Hospitalized,
        st.spec_get_event_time()->Some_0->Finite_0.ms <= now.ms,
        wait.ms >= 0,
    ensures
        ({
            let (next, due) = st.spec_next(now, branch, wait);
            &&& due is Some ==> due->Some_0.ms >= now.ms && next.spec_get_event_time() == Some(
                AnyTime::Finite(due->Some_0),
            )
            &&& next.spec_get_time() == Some(now)
        }),
{
}

} // verus!
