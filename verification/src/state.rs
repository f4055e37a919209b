//! The course of the disease in one person.
//!
//! A person is susceptible, exposed, infectious, in hospital, recovered or
//! dead. Every state but the last two carries the event that will end it. What
//! a step does is fixed by the draws it is given; the functions that take a
//! generator make those draws and then do exactly that step.

use vstd::prelude::*;
use crate::chance::{bernoulli, Probability, WaitSampler};
use crate::time::{AnyTime, Duration, Time};

verus! {

/// Mean time spent infectious, and mean stay in hospital: one day.
pub const T_INF_MS: i64 = 86400000;

/// Mean incubation time: one hour.
pub const T_INC_MS: i64 = 3600000;

/// Standard deviation of the time spent infectious or in hospital: a
/// quarter of the mean.
pub const SIGMA_INF_MS: i64 = 21600000;

/// Standard deviation of the incubation time: a quarter of the mean.
pub const SIGMA_INC_MS: i64 = 900000;

/// Mean shared time after which a contact infects: the mean infectious
/// time divided by a basic reproduction number of 2.5.
pub const EXPOSURE_MEAN_MS: i64 = 34560000;

/// The kinds of event that end a state.
#[derive(Clone, Copy, Debug, PartialEq, Eq, Structural)]
pub enum StateEvent {
    Exposition,
    Incubation,
    Hospitalization,
    Recovery,
    Death,
}

/// The event that will end a state, with the two probabilities that the
/// person carries through the whole course.
///
/// At the end of incubation the person heads straight for recovery with
/// probability `p_death`, and for hospital otherwise. At admission to hospital
/// the person heads for recovery with probability `p_hosp`, and for death
/// otherwise.
#[derive(Clone, Copy, Debug, PartialEq, Eq, Structural)]
pub struct Event {
    pub s: StateEvent,
    pub p_hosp: Probability,
    pub p_death: Probability,
    pub t: AnyTime,
}

/// The state of one person. Each state that can still change holds its next
/// event and the time at which the state was entered.
#[derive(Clone, Copy, Debug, PartialEq, Eq, Structural)]
pub enum State {
    Sane { next_event: Event, last_transition: Time },
    Exposed { next_event: Event, since: Time },
    Infectious { next_event: Event, since: Time },
    Hospitalized { next_event: Event, since: Time },
    Recovered { since: Time },
    Dead { since: Time },
}

/// Why a step was refused.
#[derive(Clone, Copy, Debug, PartialEq, Eq, Structural)]
pub enum StateError {
    /// Only a susceptible person can be exposed.
    NotSane,
}

impl StateError {
    /// The refusal in words.
    pub fn message(&self) -> (msg: String)
        ensures
            msg@ == "Error: impossible to start from a non-sane situation."@,
    {
        String::from_str("Error: impossible to start from a non-sane situation.")
    }
}

/// The mean and the standard deviation of the normal wait that an event of
/// kind `s` draws, if it draws one: the mean time of the state that the event
/// leads to, and a quarter of it.
pub open spec fn spec_wait(s: StateEvent) -> Option<(Duration, Duration)> {
    match s {
        StateEvent::Exposition => Some((Duration { ms: T_INC_MS }, Duration { ms: SIGMA_INC_MS })),
        StateEvent::Incubation | StateEvent::Hospitalization => Some(
            (Duration { ms: T_INF_MS }, Duration { ms: SIGMA_INF_MS }),
        ),
        StateEvent::Recovery | StateEvent::Death => None,
    }
}

/// The mean of the exponential threshold of an exposure trial.
pub fn exposure_mean() -> (mean: Duration)
    ensures
        mean.ms == EXPOSURE_MEAN_MS,
{
    Duration::milliseconds(EXPOSURE_MEAN_MS)
}

impl Event {
    /// The probability that gates the yes-or-no draw of this event, if it makes one.
    pub open spec fn gate(self) -> Option<Probability> {
        match self.s {
            StateEvent::Incubation => Some(self.p_death),
            StateEvent::Hospitalization => Some(self.p_hosp),
            _ => None,
        }
    }

    /// Whether the yes-or-no draw of this event can come out as `branch`:
    /// a certain gate never misses and an impossible one never hits.
    pub open spec fn admits(self, branch: bool) -> bool {
        match self.gate() {
            Some(p) => if p.is_certain() {
                branch
            } else if p.is_impossible() {
                !branch
            } else {
                true
            },
            None => true,
        }
    }

    /// An outcome that the yes-or-no draw of this event can have.
    pub open spec fn a_branch(self) -> bool {
        match self.gate() {
            Some(p) => p.is_certain(),
            None => true,
        }
    }

    /// The event that follows this one when the draw came out as `branch`
    /// and the next wait ends at `t`.
    pub open spec fn follower(self, branch: bool, t: Time) -> Event {
        Event {
            s: match self.s {
                StateEvent::Exposition => StateEvent::Incubation,
                StateEvent::Incubation => if branch {
                    StateEvent::Recovery
                } else {
                    StateEvent::Hospitalization
                },
                _ => if branch {
                    StateEvent::Recovery
                } else {
                    StateEvent::Death
                },
            },
            p_hosp: self.p_hosp,
            p_death: self.p_death,
            t: AnyTime::Finite(t),
        }
    }

    /// The state that this event leads to at `now`, and the time at which the
    /// following event is due, when the draw came out as `branch` and the wait
    /// drawn was `wait`.
    pub open spec fn spec_next(self, now: Time, branch: bool, wait: Duration) -> (State, Option<Time>) {
        let due = now.spec_add(wait);
        let ev = self.follower(branch, due);
        match self.s {
            StateEvent::Exposition => (State::Exposed { next_event: ev, since: now }, Some(due)),
            StateEvent::Incubation => (State::Infectious { next_event: ev, since: now }, Some(due)),
            StateEvent::Hospitalization => (
                State::Hospitalized { next_event: ev, since: now },
                Some(due),
            ),
            StateEvent::Death => (State::Dead { since: now }, None),
            StateEvent::Recovery => (State::Recovered { since: now }, None),
        }
    }

    /// The step that this event makes at `now` with the given draws.
    pub fn next_with(&self, now: Time, branch: bool, wait: Duration) -> (out: (State, Option<Time>))
        ensures
            out == self.spec_next(now, branch, wait),
    {
        let due = now.add(wait);
        let at = AnyTime::Finite(due);
        match self.s {
            StateEvent::Exposition => (
                State::Exposed {
                    next_event: Event {
                        s: StateEvent::Incubation,
                        p_hosp: self.p_hosp,
                        p_death: self.p_death,
                        t: at,
                    },
                    since: now,
                },
                Some(due),
            ),
            StateEvent::Incubation => {
                let s = if branch {
                    StateEvent::Recovery
                } else {
                    StateEvent::Hospitalization
                };
                (
                    State::Infectious {
                        next_event: Event { s, p_hosp: self.p_hosp, p_death: self.p_death, t: at },
                        since: now,
                    },
                    Some(due),
                )
            },
            StateEvent::Hospitalization => {
                let s = if branch {
                    StateEvent::Recovery
                } else {
                    StateEvent::Death
                };
                (
                    State::Hospitalized {
                        next_event: Event { s, p_hosp: self.p_hosp, p_death: self.p_death, t: at },
                        since: now,
                    },
                    Some(due),
                )
            },
            StateEvent::Death => (State::Dead { since: now }, None),
            StateEvent::Recovery => (State::Recovered { since: now }, None),
        }
    }

    /// The probability of the yes-or-no draw of this event, if it makes one.
    pub fn gate_probability(&self) -> (p: Option<Probability>)
        ensures
            p == self.gate(),
    {
        match self.s {
            StateEvent::Incubation => Some(self.p_death),
            StateEvent::Hospitalization => Some(self.p_hosp),
            _ => None,
        }
    }

    /// The mean and the standard deviation of the wait that this event
    /// draws, if it draws one.
    pub fn wait(&self) -> (w: Option<(Duration, Duration)>)
        ensures
            w == spec_wait(self.s),
    {
        match self.s {
            StateEvent::Exposition => Some(
                (Duration::milliseconds(T_INC_MS), Duration::milliseconds(SIGMA_INC_MS)),
            ),
            StateEvent::Incubation | StateEvent::Hospitalization => Some(
                (Duration::milliseconds(T_INF_MS), Duration::milliseconds(SIGMA_INF_MS)),
            ),
            StateEvent::Recovery | StateEvent::Death => None,
        }
    }

    /// Makes the draws that this event needs and takes the step at `now`.
    ///
    /// The end of incubation and the admission to hospital first draw yes or
    /// no, with [`Event::gate_probability`]; exposure and these two then draw
    /// a normal wait with the mean and the deviation of [`Event::wait`].
    /// Recovery and death draw nothing.
    pub fn next<W: WaitSampler>(
        &self,
        now: Time,
        rng: &mut rand_xorshift::XorShiftRng,
        waits: &W,
    ) -> (out: (State, Option<Time>))
        ensures
            exists|branch: bool, wait: Duration|
                self.admits(branch) && out == #[trigger] self.spec_next(now, branch, wait),
    {
        let branch = match self.gate_probability() {
            Some(p) => bernoulli(rng, p),
            None => true,
        };
        let wait = match self.wait() {
            Some((mean, sigma)) => waits.normal(rng, mean, sigma),
            None => Duration::zero(),
        };
        let out = self.next_with(now, branch, wait);
        assert(self.admits(branch) && out == self.spec_next(now, branch, wait));
        out
    }
}

impl State {
    /// The event that will end this state, if one is due.
    pub open spec fn event(self) -> Option<Event> {
        match self {
            State::Sane { next_event, .. }
            | State::Exposed { next_event, .. }
            | State::Infectious { next_event, .. }
            | State::Hospitalized { next_event, .. } => Some(next_event),
            State::Recovered { .. } | State::Dead { .. } => None,
        }
    }

    /// Each state holds an event of a kind that can end it; the event of a
    /// susceptible person lies infinitely far away and every other one is
    /// due at a finite time.
    pub open spec fn wf(self) -> bool {
        match self {
            State::Sane { next_event, .. } => next_event.s == StateEvent::Exposition
                && next_event.t == AnyTime::Infinite,
            State::Exposed { next_event, .. } => next_event.s == StateEvent::Incubation
                && next_event.t is Finite,
            State::Infectious { next_event, .. } => (next_event.s == StateEvent::Recovery
                || next_event.s == StateEvent::Hospitalization) && next_event.t is Finite,
            State::Hospitalized { next_event, .. } => (next_event.s == StateEvent::Recovery
                || next_event.s == StateEvent::Death) && next_event.t is Finite,
            State::Recovered { .. } | State::Dead { .. } => true,
        }
    }

    /// The share of the initially exposed that starts out infectious: a half.
    pub fn ini_infectious_ratio() -> (p: Probability)
        ensures
            p == Probability::spec_new(1, 2),
            p.num() == 1,
            p.den() == 2,
    {
        Probability::new(1, 2).unwrap()
    }

    /// The share of the population that starts out exposed: a fifth.
    pub fn ini_exposed_ratio() -> (p: Probability)
        ensures
            p == Probability::spec_new(1, 5),
            p.num() == 1,
            p.den() == 5,
    {
        Probability::new(1, 5).unwrap()
    }

    /// A susceptible person who carries the two given probabilities: no
    /// exposure is under way, and the time of the last transition is the start
    /// of the first day.
    pub open spec fn spec_new(p_hosp: Probability, p_death: Probability) -> State {
        State::Sane {
            next_event: Event { s: StateEvent::Exposition, p_hosp, p_death, t: AnyTime::Infinite },
            last_transition: Time { ms: 0 },
        }
    }

    /// A susceptible person, who carries the two given probabilities.
    pub fn new(p_hosp: Probability, p_death: Probability) -> (st: State)
        ensures
            st == State::spec_new(p_hosp, p_death),
            st.wf(),
    {
        State::Sane {
            next_event: Event { s: StateEvent::Exposition, p_hosp, p_death, t: AnyTime::Infinite },
            last_transition: Time::start_of_day(),
        }
    }

    /// Susceptible, with no exposure under way.
    pub open spec fn spec_is_sane(&self) -> bool {
        match *self {
            State::Sane { next_event, .. } => !next_event.t.is_finite(),
            _ => false,
        }
    }

    pub open spec fn spec_is_exposed(&self) -> bool {
        *self is Exposed
    }

    /// Able to infect others: infectious or in hospital.
    pub open spec fn spec_is_infectious(&self) -> bool {
        *self is Infectious || *self is Hospitalized
    }

    pub open spec fn spec_is_recovered(&self) -> bool {
        *self is Recovered
    }

    pub open spec fn spec_is_dead(&self) -> bool {
        *self is Dead
    }

    #[verifier::when_used_as_spec(spec_is_sane)]
    pub fn is_sane(&self) -> (b: bool)
        ensures
            b == self.spec_is_sane(),
    {
        match self {
            State::Sane { next_event, .. } => !next_event.t.is_finite(),
            _ => false,
        }
    }

    #[verifier::when_used_as_spec(spec_is_exposed)]
    pub fn is_exposed(&self) -> (b: bool)
        ensures
            b == self.spec_is_exposed(),
    {
        match self {
            State::Exposed { .. } => true,
            _ => false,
        }
    }

    #[verifier::when_used_as_spec(spec_is_infectious)]
    pub fn is_infectious(&self) -> (b: bool)
        ensures
            b == self.spec_is_infectious(),
    {
        match self {
            State::Infectious { .. } | State::Hospitalized { .. } => true,
            _ => false,
        }
    }

    #[verifier::when_used_as_spec(spec_is_recovered)]
    pub fn is_recovered(&self) -> (b: bool)
        ensures
            b == self.spec_is_recovered(),
    {
        match self {
            State::Recovered { .. } => true,
            _ => false,
        }
    }

    #[verifier::when_used_as_spec(spec_is_dead)]
    pub fn is_dead(&self) -> (b: bool)
        ensures
            b == self.spec_is_dead(),
    {
        match self {
            State::Dead { .. } => true,
            _ => false,
        }
    }

    /// The time at which the present state was entered; none for a
    /// susceptible person.
    pub open spec fn spec_get_time(&self) -> Option<Time> {
        match *self {
            State::Sane { .. } => None,
            State::Exposed { since, .. }
            | State::Infectious { since, .. }
            | State::Hospitalized { since, .. }
            | State::Recovered { since }
            | State::Dead { since } => Some(since),
        }
    }

    #[verifier::when_used_as_spec(spec_get_time)]
    pub fn get_time(&self) -> (t: Option<Time>)
        ensures
            t == self.spec_get_time(),
    {
        match self {
            State::Sane { .. } => None,
            State::Exposed { since, .. } => Some(*since),
            State::Infectious { since, .. } => Some(*since),
            State::Hospitalized { since, .. } => Some(*since),
            State::Recovered { since } => Some(*since),
            State::Dead { since } => Some(*since),
        }
    }

    /// The time at which the next event is due; none once the course has ended.
    pub open spec fn spec_get_event_time(&self) -> Option<AnyTime> {
        match self.event() {
            Some(ev) => Some(ev.t),
            None => None,
        }
    }

    #[verifier::when_used_as_spec(spec_get_event_time)]
    pub fn get_event_time(&self) -> (t: Option<AnyTime>)
        ensures
            t == self.spec_get_event_time(),
    {
        match self {
            State::Sane { next_event, .. } => Some(next_event.t),
            State::Exposed { next_event, .. } => Some(next_event.t),
            State::Infectious { next_event, .. } => Some(next_event.t),
            State::Hospitalized { next_event, .. } => Some(next_event.t),
            State::Recovered { .. } | State::Dead { .. } => None,
        }
    }

    /// Whether the yes-or-no draw of the pending event can come out as `branch`.
    pub open spec fn admits(self, branch: bool) -> bool {
        match self.event() {
            Some(ev) => ev.admits(branch),
            None => true,
        }
    }

    /// An outcome that the yes-or-no draw of the pending event can have.
    pub open spec fn a_branch(self) -> bool {
        match self.event() {
            Some(ev) => ev.a_branch(),
            None => true,
        }
    }

    /// The scheduled step at `now` with the given draws. An exposed,
    /// infectious or hospitalized person moves on as the pending event says. A
    /// susceptible person stays as they are and is handed the time of their
    /// last transition; a recovered or dead person stays as they are for good.
    pub open spec fn spec_next(self, now: Time, branch: bool, wait: Duration) -> (State, Option<Time>) {
        match self {
            State::Sane { last_transition, .. } => (self, Some(last_transition)),
            State::Exposed { next_event, .. }
            | State::Infectious { next_event, .. }
            | State::Hospitalized { next_event, .. } => next_event.spec_next(now, branch, wait),
            State::Recovered { .. } | State::Dead { .. } => (self, None),
        }
    }

    /// The step at `default` for a person whose state is re-dated on the way:
    /// as [`State::spec_next`], but a susceptible, recovered or dead person
    /// has the time of the state set to `default`.
    pub open spec fn spec_next_default(self, default: Time, branch: bool, wait: Duration) -> (
        State,
        Option<Time>,
    ) {
        match self {
            State::Sane { next_event, .. } => (
                State::Sane { next_event, last_transition: default },
                Some(default),
            ),
            State::Exposed { next_event, .. }
            | State::Infectious { next_event, .. }
            | State::Hospitalized { next_event, .. } => next_event.spec_next(default, branch, wait),
            State::Recovered { .. } => (State::Recovered { since: default }, None),
            State::Dead { .. } => (State::Dead { since: default }, None),
        }
    }

    /// The outcome of an exposure trial at `now`: a susceptible person who
    /// shared `overlap` with a contagious one is exposed if `overlap` reaches
    /// the drawn `threshold`, and stays as they are, with nothing scheduled,
    /// if it does not. Anyone else is refused.
    pub open spec fn spec_start(
        self,
        now: Time,
        overlap: Duration,
        threshold: Duration,
        branch: bool,
        wait: Duration,
    ) -> Result<(State, Option<Time>), StateError> {
        match self {
            State::Sane { next_event, .. } => if overlap.ms >= threshold.ms {
                Ok(next_event.spec_next(now, branch, wait))
            } else {
                Ok((self, None))
            },
            _ => Err(StateError::NotSane),
        }
    }

    /// The outcome of an exposure at `now` that needs no trial.
    pub open spec fn spec_start_now(self, now: Time, branch: bool, wait: Duration) -> Result<
        (State, Option<Time>),
        StateError,
    > {
        match self {
            State::Sane { next_event, .. } => Ok(next_event.spec_next(now, branch, wait)),
            _ => Err(StateError::NotSane),
        }
    }

    /// The scheduled step at `now` with the given draws.
    pub fn next_with(self, now: Time, branch: bool, wait: Duration) -> (out: (State, Option<Time>))
        ensures
            out == self.spec_next(now, branch, wait),
    {
        match self {
            State::Sane { next_event, last_transition } => (
                State::Sane { next_event, last_transition },
                Some(last_transition),
            ),
            State::Exposed { next_event, .. } => next_event.next_with(now, branch, wait),
            State::Infectious { next_event, .. } => next_event.next_with(now, branch, wait),
            State::Hospitalized { next_event, .. } => next_event.next_with(now, branch, wait),
            State::Recovered { since } => (State::Recovered { since }, None),
            State::Dead { since } => (State::Dead { since }, None),
        }
    }

    /// The exposure trial at `now` with the given draws.
    pub fn start_with(
        self,
        now: Time,
        overlap: Duration,
        threshold: Duration,
        branch: bool,
        wait: Duration,
    ) -> (out: Result<(State, Option<Time>), StateError>)
        ensures
            out == self.spec_start(now, overlap, threshold, branch, wait),
    {
        match self {
            State::Sane { next_event, last_transition } => {
                if overlap.ms >= threshold.ms {
                    Ok(next_event.next_with(now, branch, wait))
                } else {
                    Ok((State::Sane { next_event, last_transition }, None))
                }
            },
            _ => Err(StateError::NotSane),
        }
    }

    /// Makes the draws that the pending event needs and takes the step at
    /// `default`, re-dating a state that does not change.
    pub fn next_default<W: WaitSampler>(
        self,
        default: Time,
        rng: &mut rand_xorshift::XorShiftRng,
        waits: &W,
    ) -> (out: (State, Option<Time>))
        ensures
            exists|branch: bool, wait: Duration|
                self.admits(branch) && out == #[trigger] self.spec_next_default(default, branch, wait),
    {
        match self {
            State::Sane { next_event, .. } => {
                let out = (State::Sane { next_event, last_transition: default }, Some(default));
                assert(self.admits(self.a_branch()) && out == self.spec_next_default(
                    default,
                    self.a_branch(),
                    Duration { ms: 0 },
                ));
                out
            },
            State::Exposed { next_event, .. }
            | State::Infectious { next_event, .. }
            | State::Hospitalized { next_event, .. } => {
                let out = next_event.next(default, rng, waits);
                proof {
                    let (branch, wait) = choose|branch: bool, wait: Duration|
                        next_event.admits(branch) && out == #[trigger] next_event.spec_next(
                            default,
                            branch,
                            wait,
                        );
                    assert(self.admits(branch) && out == self.spec_next_default(default, branch, wait));
                }
                out
            },
            State::Recovered { .. } => {
                let out = (State::Recovered { since: default }, None);
                assert(self.admits(self.a_branch()) && out == self.spec_next_default(
                    default,
                    self.a_branch(),
                    Duration { ms: 0 },
                ));
                out
            },
            State::Dead { .. } => {
                let out = (State::Dead { since: default }, None);
                assert(self.admits(self.a_branch()) && out == self.spec_next_default(
                    default,
                    self.a_branch(),
                    Duration { ms: 0 },
                ));
                out
            },
        }
    }

    /// Makes the draws that the pending event needs and takes the scheduled
    /// step at `now`.
    pub fn next<W: WaitSampler>(self, now: Time, rng: &mut rand_xorshift::XorShiftRng, waits: &W) -> (out: (
        State,
        Option<Time>,
    ))
        ensures
            exists|branch: bool, wait: Duration|
                self.admits(branch) && out == #[trigger] self.spec_next(now, branch, wait),
    {
        match self {
            State::Sane { next_event, last_transition } => {
                let out = (State::Sane { next_event, last_transition }, Some(last_transition));
                assert(self.admits(self.a_branch()) && out == self.spec_next(
                    now,
                    self.a_branch(),
                    Duration { ms: 0 },
                ));
                out
            },
            State::Exposed { next_event, .. }
            | State::Infectious { next_event, .. }
            | State::Hospitalized { next_event, .. } => {
                let out = next_event.next(now, rng, waits);
                proof {
                    let (branch, wait) = choose|branch: bool, wait: Duration|
                        next_event.admits(branch) && out == #[trigger] next_event.spec_next(
                            now,
                            branch,
                            wait,
                        );
                    assert(self.admits(branch) && out == self.spec_next(now, branch, wait));
                }
                out
            },
            State::Recovered { since } => {
                let out = (State::Recovered { since }, None);
                assert(self.admits(self.a_branch()) && out == self.spec_next(
                    now,
                    self.a_branch(),
                    Duration { ms: 0 },
                ));
                out
            },
            State::Dead { since } => {
                let out = (State::Dead { since }, None);
                assert(self.admits(self.a_branch()) && out == self.spec_next(
                    now,
                    self.a_branch(),
                    Duration { ms: 0 },
                ));
                out
            },
        }
    }

    /// Runs an exposure trial on a susceptible person at `now`: draws an
    /// exponential threshold and, if `overlap` reaches it, makes the draws of
    /// the exposure. Anyone but a susceptible person is refused, and nothing
    /// is drawn.
    pub fn start<W: WaitSampler>(
        self,
        now: Time,
        overlap: Duration,
        rng: &mut rand_xorshift::XorShiftRng,
        waits: &W,
    ) -> (out: Result<(State, Option<Time>), StateError>)
        ensures
            out is Ok <==> self is Sane,
            exists|threshold: Duration, branch: bool, wait: Duration|
                self.admits(branch) && out == #[trigger] self.spec_start(
                    now,
                    overlap,
                    threshold,
                    branch,
                    wait,
                ),
            overlap.ms == i64::MAX && self is Sane ==> exists|branch: bool, wait: Duration|
                self.admits(branch) && out == #[trigger] self.spec_start_now(now, branch, wait),
    {
        match self {
            State::Sane { next_event, last_transition } => {
                let threshold = waits.exponential(rng, exposure_mean());
                if overlap.ms >= threshold.ms {
                    let step = next_event.next(now, rng, waits);
                    let out = Ok(step);
                    proof {
                        let (branch, wait) = choose|branch: bool, wait: Duration|
                            next_event.admits(branch) && step == #[trigger] next_event.spec_next(
                                now,
                                branch,
                                wait,
                            );
                        assert(self.admits(branch) && out == self.spec_start(
                            now,
                            overlap,
                            threshold,
                            branch,
                            wait,
                        ));
                        assert(self.admits(branch) && out == self.spec_start_now(now, branch, wait));
                    }
                    out
                } else {
                    let out = Ok((State::Sane { next_event, last_transition }, None));
                    assert(self.admits(self.a_branch()) && out == self.spec_start(
                        now,
                        overlap,
                        threshold,
                        self.a_branch(),
                        Duration { ms: 0 },
                    ));
                    out
                }
            },
            _ => {
                let out = Err(StateError::NotSane);
                assert(self.admits(self.a_branch()) && out == self.spec_start(
                    now,
                    overlap,
                    Duration { ms: 0 },
                    self.a_branch(),
                    Duration { ms: 0 },
                ));
                out
            },
        }
    }

    /// Exposes a susceptible person at `now` without a trial. Anyone else is
    /// refused, and nothing is drawn.
    pub fn start_now<W: WaitSampler>(
        self,
        now: Time,
        rng: &mut rand_xorshift::XorShiftRng,
        waits: &W,
    ) -> (out: Result<(State, Option<Time>), StateError>)
        ensures
            out is Ok <==> self is Sane,
            exists|branch: bool, wait: Duration|
                self.admits(branch) && out == #[trigger] self.spec_start_now(now, branch, wait),
    {
        match self {
            State::Sane { next_event, .. } => {
                let step = next_event.next(now, rng, waits);
                let out = Ok(step);
                proof {
                    let (branch, wait) = choose|branch: bool, wait: Duration|
                        next_event.admits(branch) && step == #[trigger] next_event.spec_next(
                            now,
                            branch,
                            wait,
                        );
                    assert(self.admits(branch) && out == self.spec_start_now(now, branch, wait));
                }
                out
            },
            _ => {
                let out = Err(StateError::NotSane);
                assert(self.admits(self.a_branch()) && out == self.spec_start_now(
                    now,
                    self.a_branch(),
                    Duration { ms: 0 },
                ));
                out
            },
        }
    }
}

} // verus!
