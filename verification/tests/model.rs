use pandemic::census::Compartment;
use pandemic::chance::{Probability, WaitSampler};
use pandemic::events::{Cmd, MobilityEvent, Traversable, TripPhaseType, Walker};
use pandemic::geom::{Bounds, Distance, Pt2D};
use pandemic::ids::{BuildingID, BusStopID, CarID, LaneID, OffMapLocation, PersonID};
use pandemic::model::PandemicModel;
use pandemic::state::{State, StateEvent};
use pandemic::time::{AnyTime, Duration, Time};
use rand::SeedableRng;
use rand_distr::{Distribution, Exp, Normal};
use rand_xorshift::XorShiftRng;
use std::cell::Cell;
use std::rc::Rc;

/// Waits drawn from the real distributions.
struct RealWaits;

impl WaitSampler for RealWaits {
    fn exponential(&self, rng: &mut XorShiftRng, mean: Duration) -> Duration {
        let rate = 1000.0 / (mean.ms as f64);
        let seconds: f64 = Exp::new(rate).unwrap().sample(rng);
        Duration::milliseconds((seconds * 1000.0).ceil() as i64)
    }

    fn normal(&self, rng: &mut XorShiftRng, mean: Duration, sigma: Duration) -> Duration {
        let mu = (mean.ms as f64) / 1000.0;
        let sd = (sigma.ms as f64) / 1000.0;
        let seconds: f64 = Normal::new(mu, sd).unwrap().sample(rng);
        Duration::milliseconds((seconds * 1000.0).round() as i64)
    }
}

/// Waits that are always the mean, and thresholds that are handed out from a
/// list, the last one again and again; the trials are counted.
struct Scripted {
    thresholds: Vec<Duration>,
    trials: Rc<Cell<usize>>,
}

impl Scripted {
    fn new(thresholds: Vec<Duration>) -> Scripted {
        Scripted { thresholds, trials: Rc::new(Cell::new(0)) }
    }
}

impl WaitSampler for Scripted {
    fn exponential(&self, _: &mut XorShiftRng, _: Duration) -> Duration {
        let n = self.trials.get();
        self.trials.set(n + 1);
        self.thresholds[n.min(self.thresholds.len() - 1)]
    }

    fn normal(&self, _: &mut XorShiftRng, mean: Duration, _: Duration) -> Duration {
        mean
    }
}

fn rng(seed: u8) -> XorShiftRng {
    XorShiftRng::seed_from_u64(seed as u64)
}

fn bounds() -> Bounds {
    Bounds { min_x: 0, min_y: 0, max_x: 4_500, max_y: 3_001 }
}

fn hours(h: usize) -> Time {
    Time::start_of_day().add(Duration::hours(h))
}

fn fresh<W: WaitSampler>(seed: u8, waits: W) -> PandemicModel<W> {
    PandemicModel::new(&bounds(), Distance::meters(1), Duration::seconds(30), rng(seed), waits)
}

fn people(n: usize) -> Vec<PersonID> {
    (0..n).map(PersonID).collect()
}

/// A model of two people of whom the first is infectious and the second
/// susceptible, with the thresholds of the exposure trials scripted. The
/// initial states are drawn: the seeds are tried in turn until they fit.
/// Initialization makes one trial, for the first person, which any threshold
/// passes.
fn pair(thresholds: Vec<Duration>) -> PandemicModel<Scripted> {
    counted_pair(thresholds).0
}

/// As `pair`, with the count of the trials made since the model was set up.
fn counted_pair(thresholds: Vec<Duration>) -> (PandemicModel<Scripted>, Rc<Cell<usize>>) {
    for seed in 1..=255u8 {
        let mut script = vec![Duration::zero()];
        script.extend(thresholds.iter().cloned());
        let waits = Scripted::new(script);
        let trials = waits.trials.clone();
        let mut model = fresh(seed, waits);
        model.initialize(&people(2));
        if model.is_infectious(PersonID(0)) && model.is_sane(PersonID(1)) {
            assert_eq!(trials.get(), 1);
            return (model, trials);
        }
    }
    panic!("no seed fits");
}

fn minutes(m: i64) -> Duration {
    Duration::seconds(60 * m)
}

#[test]
fn a_new_model_covers_the_bounds() {
    let model = fresh(1, RealWaits);
    assert!(!model.is_initialized());
    assert_eq!(model.concentration().width(), 5);
    assert_eq!(model.concentration().height(), 4);
    assert_eq!(model.concentration().min_max(), (0, 0));
    assert_eq!(model.count_total(), 0);
    assert_eq!(model.spacing(), Distance::meters(1));
    assert_eq!(model.delta_t(), Duration::seconds(30));
    assert_eq!(model.bounds(), bounds());
    assert_eq!(model.state(PersonID(0)), None);
    assert!(!model.is_known(PersonID(0)));
    assert!(!model.accepts_event(&MobilityEvent::Other));
    assert!(!model.accepts_cmd(&Cmd::Poll, &Vec::new()));
}

#[test]
fn a_model_of_no_extent_has_no_cells() {
    let flat = Bounds { min_x: 0, min_y: 0, max_x: 0, max_y: 10_000 };
    let model = PandemicModel::new(&flat, Distance::meters(1), Duration::seconds(30), rng(1), RealWaits);
    assert_eq!(model.concentration().width(), 0);
    assert_eq!(model.concentration().height(), 10);
}

#[test]
fn initialization_takes_everybody_in() {
    let mut model = fresh(42, RealWaits);
    let schedule = model.initialize(&people(500));
    assert!(model.is_initialized());
    assert_eq!(model.count_total(), 500);
    assert_eq!(
        model.count_sane() + model.count_exposed() + model.count_infected() + model.count_recovered()
            + model.count_dead(),
        500
    );
    assert_eq!(model.count_recovered(), 0);
    assert_eq!(model.count_dead(), 0);
    assert_eq!(model.count(Compartment::Sane), model.count_sane());
    // One in five is exposed, and one in two of those is infectious already.
    let under_way = model.count_exposed() + model.count_infected();
    assert!(under_way > 60 && under_way < 140, "{}", under_way);
    assert!(model.count_infected() > 25 && model.count_infected() < 75, "{}", model.count_infected());
    assert_eq!(schedule.len(), under_way);
    for p in people(500) {
        let st = model.state(p).unwrap();
        let listed: Vec<&(Time, Cmd)> = schedule.iter().filter(|(_, cmd)| *cmd == Cmd::Transition(p)).collect();
        if st.is_sane() {
            assert!(listed.is_empty());
            assert_eq!(st.get_event_time(), Some(AnyTime::Infinite));
            assert_eq!(st.get_time(), None);
            assert_eq!(st, State::new(Probability::percent(5), Probability::percent(95)));
        } else {
            assert_eq!(listed.len(), 1);
            assert_eq!(st.get_event_time(), Some(AnyTime::Finite(listed[0].0)));
            assert_eq!(st.get_time(), Some(Time::start_of_day()));
            assert_eq!(model.get_time(p), Some(Time::start_of_day()));
            assert!(st.is_exposed() || matches!(st, State::Infectious { .. }));
        }
    }
    assert!(schedule.iter().all(|(_, cmd)| matches!(cmd, Cmd::Transition(_))));
}

#[test]
fn an_exposed_person_carries_the_default_chances() {
    let mut model = fresh(42, RealWaits);
    model.initialize(&people(100));
    let mut seen = 0;
    for p in people(100) {
        match model.state(p).unwrap() {
            State::Exposed { next_event, .. } => {
                assert_eq!(next_event.s, StateEvent::Incubation);
                assert_eq!(next_event.p_hosp, Probability::percent(5));
                assert_eq!(next_event.p_death, Probability::percent(95));
                seen += 1;
            }
            State::Infectious { next_event, .. } => {
                assert!(next_event.s == StateEvent::Recovery || next_event.s == StateEvent::Hospitalization);
                assert_eq!(next_event.p_hosp, Probability::percent(5));
                seen += 1;
            }
            _ => {}
        }
    }
    assert!(seen > 0);
}

#[test]
fn the_accessors_tell_the_states_apart() {
    let model = pair(vec![]);
    assert!(model.is_infectious(PersonID(0)));
    assert!(!model.is_sane(PersonID(0)));
    assert!(!model.is_exposed(PersonID(0)));
    assert!(!model.is_recovered(PersonID(0)));
    assert!(!model.is_dead(PersonID(0)));
    assert!(model.is_sane(PersonID(1)));
    assert!(!model.is_infectious(PersonID(1)));
    assert_eq!(model.get_time(PersonID(1)), None);
    assert_eq!(model.get_time(PersonID(0)), Some(Time::start_of_day()));
    assert_eq!(model.infectious_contact(PersonID(0), PersonID(1)), Some(PersonID(1)));
    assert_eq!(model.infectious_contact(PersonID(1), PersonID(0)), Some(PersonID(1)));
    assert_eq!(model.infectious_contact(PersonID(1), PersonID(1)), None);
    assert_eq!(model.infectious_contact(PersonID(0), PersonID(0)), None);
    assert_eq!(model.count_sane(), 1);
    assert_eq!(model.count_infected(), 1);
    assert_eq!(model.count_total(), 2);
}

#[test]
fn movements_of_strangers_are_not_accepted() {
    let model = pair(vec![]);
    let stranger = PersonID(9);
    assert!(!model.accepts_event(&MobilityEvent::PersonEntersBuilding(stranger, BuildingID(1))));
    assert!(!model.accepts_event(&MobilityEvent::PersonEntersRemoteBuilding(stranger, OffMapLocation(1))));
    assert!(!model.accepts_event(&MobilityEvent::AgentEntersTraversable(
        Some(stranger),
        Traversable::Lane(LaneID(1))
    )));
    assert!(!model.accepts_event(&MobilityEvent::TripPhaseStarting(
        stranger,
        TripPhaseType::WaitingForBus(BusStopID(1))
    )));
    assert!(model.accepts_event(&MobilityEvent::PersonEntersBuilding(PersonID(0), BuildingID(1))));
    assert!(model.accepts_event(&MobilityEvent::AgentEntersTraversable(None, Traversable::Lane(LaneID(1)))));
    assert!(model.accepts_event(&MobilityEvent::AgentEntersTraversable(Some(stranger), Traversable::Turn(1))));
    assert!(model.accepts_event(&MobilityEvent::PersonEntersMap(stranger, None)));
    assert!(model.accepts_event(&MobilityEvent::PersonLeavesMap(stranger, Some(OffMapLocation(2)))));
    assert!(model.accepts_event(&MobilityEvent::TripPhaseStarting(stranger, TripPhaseType::Walking)));
    assert!(model.accepts_event(&MobilityEvent::Other));
}

#[test]
fn leaving_without_entering_is_not_accepted() {
    let mut model = pair(vec![]);
    let p = PersonID(0);
    assert!(!model.accepts_event(&MobilityEvent::PersonLeavesBuilding(p, BuildingID(1))));
    assert!(!model.accepts_event(&MobilityEvent::PersonLeavesRemoteBuilding(p, OffMapLocation(1))));
    assert!(!model.accepts_event(&MobilityEvent::AgentLeavesTraversable(Some(p), Traversable::Lane(LaneID(1)))));
    assert!(!model.accepts_event(&MobilityEvent::TripPhaseStarting(
        p,
        TripPhaseType::RidingBus(BusStopID(1), CarID(1))
    )));
    model.handle_event(hours(1), &MobilityEvent::PersonEntersBuilding(p, BuildingID(1)));
    assert!(model.accepts_event(&MobilityEvent::PersonLeavesBuilding(p, BuildingID(1))));
    assert!(!model.accepts_event(&MobilityEvent::PersonLeavesBuilding(p, BuildingID(2))));
    assert!(!model.accepts_event(&MobilityEvent::PersonLeavesBuilding(PersonID(1), BuildingID(1))));
}

#[test]
fn entering_and_leaving_are_entered_in_the_ledgers() {
    let mut model = pair(vec![Duration::milliseconds(i64::MAX)]);
    let (a, b) = (PersonID(0), PersonID(1));
    assert!(model.handle_event(hours(1), &MobilityEvent::PersonEntersBuilding(a, BuildingID(7))).is_empty());
    assert!(model.handle_event(hours(2), &MobilityEvent::PersonEntersBuilding(b, BuildingID(7))).is_empty());
    assert_eq!(model.building_ledger().occupants(BuildingID(7)), vec![(a, hours(1)), (b, hours(2))]);
    assert!(model.building_ledger().holds(a, BuildingID(7)));
    assert!(!model.building_ledger().holds(a, BuildingID(8)));
    assert!(model.building_ledger().occupants(BuildingID(8)).is_empty());
    assert!(model.handle_event(hours(3), &MobilityEvent::PersonLeavesBuilding(a, BuildingID(7))).is_empty());
    assert_eq!(model.building_ledger().occupants(BuildingID(7)), vec![(b, hours(2))]);

    let lane = Traversable::Lane(LaneID(3));
    model.handle_event(hours(4), &MobilityEvent::AgentEntersTraversable(Some(a), lane));
    assert_eq!(model.lane_ledger().occupants(LaneID(3)), vec![(a, hours(4))]);
    model.handle_event(hours(5), &MobilityEvent::AgentLeavesTraversable(Some(a), lane));
    assert!(model.lane_ledger().occupants(LaneID(3)).is_empty());

    model.handle_event(hours(6), &MobilityEvent::PersonEntersRemoteBuilding(b, OffMapLocation(5)));
    assert_eq!(model.remote_building_ledger().occupants(OffMapLocation(5)), vec![(b, hours(6))]);
    model.handle_event(hours(7), &MobilityEvent::PersonLeavesRemoteBuilding(b, OffMapLocation(5)));
    assert!(model.remote_building_ledger().occupants(OffMapLocation(5)).is_empty());
}

#[test]
fn other_movements_change_nothing() {
    let mut model = pair(vec![]);
    let a = PersonID(0);
    for ev in [
        MobilityEvent::Other,
        MobilityEvent::PersonEntersMap(a, Some(OffMapLocation(1))),
        MobilityEvent::PersonLeavesMap(a, None),
        MobilityEvent::AgentEntersTraversable(None, Traversable::Lane(LaneID(1))),
        MobilityEvent::AgentLeavesTraversable(None, Traversable::Lane(LaneID(1))),
        MobilityEvent::AgentEntersTraversable(Some(a), Traversable::Turn(1)),
        MobilityEvent::AgentLeavesTraversable(Some(a), Traversable::Turn(1)),
        MobilityEvent::TripPhaseStarting(a, TripPhaseType::Driving),
        MobilityEvent::TripPhaseStarting(a, TripPhaseType::Walking),
        MobilityEvent::TripPhaseStarting(a, TripPhaseType::Finished),
    ] {
        assert!(model.accepts_event(&ev));
        assert!(model.handle_event(hours(1), &ev).is_empty());
    }
    assert!(model.lane_ledger().occupants(LaneID(1)).is_empty());
    assert_eq!(model.bus_of(a), None);
    assert!(model.is_infectious(a));
    assert!(model.is_sane(PersonID(1)));
}

#[test]
fn an_isolated_encounter_that_passes_the_trial_exposes() {
    let mut model = pair(vec![minutes(30)]);
    let (sick, well) = (PersonID(0), PersonID(1));
    let b = BuildingID(1);
    model.handle_event(hours(0), &MobilityEvent::PersonEntersBuilding(sick, b));
    model.handle_event(hours(0), &MobilityEvent::PersonEntersBuilding(well, b));
    let schedule = model.handle_event(hours(1), &MobilityEvent::PersonLeavesBuilding(well, b));
    assert!(model.is_exposed(well));
    assert!(model.is_infectious(sick));
    assert_eq!(model.get_time(well), Some(hours(1)));
    // Incubation takes an hour on average, and the scripted wait is the mean.
    assert_eq!(schedule, vec![(hours(2), Cmd::Transition(well))]);
    assert_eq!(model.state(well).unwrap().get_event_time(), Some(AnyTime::Finite(hours(2))));
    assert_eq!(model.count_sane(), 0);
    assert_eq!(model.count_exposed(), 1);
    assert_eq!(model.count_total(), 2);
}

#[test]
fn an_isolated_encounter_that_fails_the_trial_exposes_nobody() {
    let mut model = pair(vec![minutes(61)]);
    let (sick, well) = (PersonID(0), PersonID(1));
    let b = BuildingID(1);
    model.handle_event(hours(0), &MobilityEvent::PersonEntersBuilding(sick, b));
    model.handle_event(hours(0), &MobilityEvent::PersonEntersBuilding(well, b));
    let before = model.state(well);
    let schedule = model.handle_event(hours(1), &MobilityEvent::PersonLeavesBuilding(well, b));
    assert!(schedule.is_empty());
    assert!(model.is_sane(well));
    assert_eq!(model.state(well), before);
}

#[test]
fn the_threshold_is_met_by_an_equal_overlap() {
    let mut model = pair(vec![minutes(60)]);
    let (sick, well) = (PersonID(0), PersonID(1));
    let b = BuildingID(1);
    model.handle_event(hours(0), &MobilityEvent::PersonEntersBuilding(sick, b));
    model.handle_event(hours(0), &MobilityEvent::PersonEntersBuilding(well, b));
    let schedule = model.handle_event(hours(1), &MobilityEvent::PersonLeavesBuilding(well, b));
    assert_eq!(schedule.len(), 1);
    assert!(model.is_exposed(well));
}

#[test]
fn the_one_who_stays_can_catch_the_disease_too() {
    let mut model = pair(vec![minutes(30)]);
    let (sick, well) = (PersonID(0), PersonID(1));
    let b = BuildingID(1);
    model.handle_event(hours(0), &MobilityEvent::PersonEntersBuilding(well, b));
    model.handle_event(hours(2), &MobilityEvent::PersonEntersBuilding(sick, b));
    // Half an hour together is just enough.
    let at = hours(2).add(minutes(30));
    let schedule = model.handle_event(at, &MobilityEvent::PersonLeavesBuilding(sick, b));
    assert_eq!(schedule, vec![(at.add(Duration::hours(1)), Cmd::Transition(well))]);
    assert!(model.is_exposed(well));
}

#[test]
fn the_overlap_counts_from_the_later_entry() {
    let mut model = pair(vec![minutes(30)]);
    let (sick, well) = (PersonID(0), PersonID(1));
    let b = BuildingID(1);
    model.handle_event(hours(0), &MobilityEvent::PersonEntersBuilding(well, b));
    model.handle_event(hours(2), &MobilityEvent::PersonEntersBuilding(sick, b));
    // The susceptible person has been inside for long, but together for
    // twenty-nine minutes only.
    let at = hours(2).add(minutes(29));
    let schedule = model.handle_event(at, &MobilityEvent::PersonLeavesBuilding(well, b));
    assert!(schedule.is_empty());
    assert!(model.is_sane(well));
}

#[test]
fn people_in_different_buildings_do_not_meet() {
    let mut model = pair(vec![Duration::zero()]);
    let (sick, well) = (PersonID(0), PersonID(1));
    model.handle_event(hours(0), &MobilityEvent::PersonEntersBuilding(sick, BuildingID(1)));
    model.handle_event(hours(0), &MobilityEvent::PersonEntersBuilding(well, BuildingID(2)));
    let schedule = model.handle_event(hours(9), &MobilityEvent::PersonLeavesBuilding(well, BuildingID(2)));
    assert!(schedule.is_empty());
    assert!(model.is_sane(well));
    // A building and a lane of the same number are different spaces.
    model.handle_event(hours(9), &MobilityEvent::AgentEntersTraversable(Some(well), Traversable::Lane(LaneID(1))));
    let schedule =
        model.handle_event(hours(12), &MobilityEvent::AgentLeavesTraversable(Some(well), Traversable::Lane(LaneID(1))));
    assert!(schedule.is_empty());
    assert!(model.is_sane(well));
}

#[test]
fn two_susceptible_people_do_not_infect_each_other() {
    for seed in 1..=255u8 {
        let mut model = fresh(seed, Scripted::new(vec![Duration::zero()]));
        model.initialize(&people(3));
        if !(model.is_sane(PersonID(0)) && model.is_sane(PersonID(1)) && model.is_exposed(PersonID(2))) {
            continue;
        }
        let b = BuildingID(1);
        for p in people(3) {
            model.handle_event(hours(0), &MobilityEvent::PersonEntersBuilding(p, b));
        }
        // An exposed person is not contagious yet.
        for p in people(3) {
            assert!(model.handle_event(hours(5), &MobilityEvent::PersonLeavesBuilding(p, b)).is_empty());
        }
        assert_eq!(model.count_sane(), 2);
        assert_eq!(model.count_exposed(), 1);
        return;
    }
    panic!("no seed fits");
}

#[test]
fn a_bus_ride_passes_through_stop_and_bus() {
    // The first trial, at boarding, fails; the second, at alighting, passes.
    let (mut model, trials) = counted_pair(vec![Duration::milliseconds(i64::MAX), Duration::zero()]);
    let (sick, well) = (PersonID(0), PersonID(1));
    let (stop, bus) = (BusStopID(4), CarID(8));
    let wait = |p| MobilityEvent::TripPhaseStarting(p, TripPhaseType::WaitingForBus(stop));
    let ride = |p| MobilityEvent::TripPhaseStarting(p, TripPhaseType::RidingBus(stop, bus));
    let walk = |p| MobilityEvent::TripPhaseStarting(p, TripPhaseType::Walking);

    assert!(model.handle_event(hours(1), &wait(sick)).is_empty());
    assert!(model.handle_event(hours(1), &wait(well)).is_empty());
    assert_eq!(model.stop_ledger().occupants(stop), vec![(sick, hours(1)), (well, hours(1))]);
    assert_eq!(model.bus_of(well), None);

    // Boarding: the stop is left, with a trial against whoever stays there.
    assert_eq!(trials.get(), 1);
    assert!(model.handle_event(hours(2), &ride(well)).is_empty());
    assert_eq!(trials.get(), 2);
    assert!(model.is_sane(well));
    assert_eq!(model.stop_ledger().occupants(stop), vec![(sick, hours(1))]);
    assert_eq!(model.bus_ledger().occupants(bus), vec![(well, hours(2))]);
    assert_eq!(model.bus_of(well), Some(bus));

    // The other one boards: the stop is empty, so that no trial is made.
    assert!(model.handle_event(hours(2), &ride(sick)).is_empty());
    assert!(model.stop_ledger().occupants(stop).is_empty());
    assert_eq!(model.bus_ledger().occupants(bus), vec![(well, hours(2)), (sick, hours(2))]);
    assert_eq!(model.bus_of(sick), Some(bus));
    assert_eq!(trials.get(), 2);

    // Alighting: the bus is left, with a trial against whoever rides on.
    let schedule = model.handle_event(hours(3), &walk(well));
    assert_eq!(trials.get(), 3);
    assert_eq!(schedule, vec![(hours(4), Cmd::Transition(well))]);
    assert!(model.is_exposed(well));
    assert_eq!(model.bus_ledger().occupants(bus), vec![(sick, hours(2))]);
    assert_eq!(model.bus_of(well), None);
    assert_eq!(model.bus_of(sick), Some(bus));

    assert!(model.handle_event(hours(4), &walk(sick)).is_empty());
    assert!(model.bus_ledger().occupants(bus).is_empty());
    assert_eq!(model.bus_of(sick), None);
    // Walking on changes nothing more.
    assert!(model.handle_event(hours(5), &walk(sick)).is_empty());
    assert_eq!(trials.get(), 3);
}

#[test]
fn a_lone_bus_ride_leaves_every_ledger_empty() {
    let mut model = pair(vec![Duration::zero()]);
    let p = PersonID(1);
    let (stop, bus) = (BusStopID(4), CarID(8));
    model.handle_event(hours(1), &MobilityEvent::TripPhaseStarting(p, TripPhaseType::WaitingForBus(stop)));
    model.handle_event(hours(2), &MobilityEvent::TripPhaseStarting(p, TripPhaseType::RidingBus(stop, bus)));
    assert!(model.stop_ledger().occupants(stop).is_empty());
    model.handle_event(hours(3), &MobilityEvent::TripPhaseStarting(p, TripPhaseType::Walking));
    assert!(model.bus_ledger().occupants(bus).is_empty());
    assert_eq!(model.bus_of(p), None);
    assert!(model.is_sane(p));
}

#[test]
fn commands_of_strangers_and_reserved_commands_are_not_accepted() {
    let model = pair(vec![]);
    let none = Vec::new();
    assert!(model.accepts_cmd(&Cmd::Poll, &none));
    assert!(model.accepts_cmd(&Cmd::Transition(PersonID(0)), &none));
    assert!(!model.accepts_cmd(&Cmd::Transition(PersonID(9)), &none));
    assert!(model.accepts_cmd(&Cmd::BecomeHospitalized(PersonID(9)), &none));
    assert!(model.accepts_cmd(&Cmd::BecomeQuarantined(PersonID(9)), &none));
    assert!(!model.accepts_cmd(&Cmd::CancelFutureTrips(PersonID(0)), &none));
    assert!(!model.accepts_cmd(&Cmd::Transmission(PersonID(0)), &none));
    let stranger = vec![Walker { person: Some(PersonID(9)), pos: Pt2D::new(0, 0) }];
    assert!(!model.accepts_cmd(&Cmd::Poll, &stranger));
    let nameless = vec![Walker { person: None, pos: Pt2D::new(0, 0) }];
    assert!(model.accepts_cmd(&Cmd::Poll, &nameless));
}

#[test]
fn a_step_that_the_field_cannot_take_is_not_accepted() {
    // Cells of a millimetre cannot take a step of thirty seconds.
    let tiny = Bounds { min_x: 0, min_y: 0, max_x: 5, max_y: 5 };
    let mut model =
        PandemicModel::new(&tiny, Distance::millimeters(1), Duration::seconds(30), rng(1), RealWaits);
    model.initialize(&people(1));
    assert!(!model.accepts_cmd(&Cmd::Poll, &Vec::new()));
    let mut back = PandemicModel::new(&tiny, Distance::meters(1), Duration::seconds(-30), rng(1), RealWaits);
    back.initialize(&people(1));
    assert!(!back.accepts_cmd(&Cmd::Poll, &Vec::new()));
}

#[test]
fn hospital_and_quarantine_commands_change_nothing() {
    let mut model = pair(vec![]);
    let before = (model.state(PersonID(0)), model.state(PersonID(1)));
    assert!(model.handle_cmd(hours(1), Cmd::BecomeHospitalized(PersonID(1)), &Vec::new()).is_empty());
    assert!(model.handle_cmd(hours(1), Cmd::BecomeQuarantined(PersonID(0)), &Vec::new()).is_empty());
    assert_eq!((model.state(PersonID(0)), model.state(PersonID(1))), before);
    assert_eq!(model.concentration().min_max(), (0, 0));
}

#[test]
fn polling_an_empty_map_reschedules_itself() {
    let mut model = pair(vec![]);
    let mut now = hours(7);
    let mut polls = 1;
    for _ in 0..50 {
        assert!(model.accepts_cmd(&Cmd::Poll, &Vec::new()));
        let schedule = model.handle_cmd(now, Cmd::Poll, &Vec::new());
        now = now.add(Duration::seconds(30));
        assert_eq!(schedule, vec![(now, Cmd::Poll)]);
        polls += schedule.len();
        assert_eq!(model.concentration().min_max(), (0, 0));
    }
    assert_eq!(polls, 51);
    assert_eq!(now, hours(7).add(minutes(25)));
    assert!(model.is_sane(PersonID(1)));
}

#[test]
fn polling_with_susceptible_walkers_in_clean_air_exposes_nobody() {
    let mut model = pair(vec![]);
    let walkers = vec![
        Walker { person: Some(PersonID(1)), pos: Pt2D::new(2_500, 1_500) },
        Walker { person: None, pos: Pt2D::new(2_500, 1_500) },
    ];
    for step in 0..100 {
        let schedule = model.handle_cmd(hours(step), Cmd::Poll, &walkers);
        assert_eq!(schedule.len(), 1);
    }
    assert!(model.is_sane(PersonID(1)));
    assert_eq!(model.concentration().min_max(), (0, 0));
}

#[test]
fn a_contagious_walker_leaves_a_dose_that_diffuses() {
    let mut model = pair(vec![]);
    let walkers = vec![Walker { person: Some(PersonID(0)), pos: Pt2D::new(2_500, 1_500) }];
    let schedule = model.poll(hours(7), &walkers);
    assert_eq!(schedule, vec![(hours(7).add(Duration::seconds(30)), Cmd::Poll)]);
    let grid = model.concentration();
    // Thirty units come in; seventy in a hundred stay, and six in a hundred
    // go to each neighbour.
    assert_eq!(grid.index(2, 1), 21_000_000);
    assert_eq!(grid.index(1, 1), 1_800_000);
    assert_eq!(grid.index(3, 1), 1_800_000);
    // The cells on the edge take no part.
    assert_eq!(grid.index(2, 0), 0);
    assert_eq!(grid.index(2, 3), 0);
    assert_eq!(grid.index(0, 1), 0);
}

#[test]
fn what_is_left_below_the_floor_settles() {
    let wide = Bounds { min_x: 0, min_y: 0, max_x: 9_000, max_y: 9_000 };
    for seed in 1..=255u8 {
        let mut model = PandemicModel::new(&wide, Distance::meters(1), Duration::milliseconds(1), rng(seed), RealWaits);
        model.initialize(&people(1));
        if !model.is_infectious(PersonID(0)) {
            continue;
        }
        // A step of a millisecond brings in a thousandth of a unit, which is
        // below the floor of a hundredth.
        let walkers = vec![Walker { person: Some(PersonID(0)), pos: Pt2D::new(4_500, 4_500) }];
        model.poll(hours(7), &walkers);
        assert_eq!(model.concentration().min_max(), (0, 0));
        return;
    }
    panic!("no seed fits");
}

#[test]
fn thick_air_exposes_for_certain() {
    let mut model = pair(vec![]);
    // Both stand in a cell on the edge, which keeps all that comes in:
    // thirty units a step, and a hundred make exposure certain.
    let walkers = vec![
        Walker { person: Some(PersonID(0)), pos: Pt2D::new(100, 100) },
        Walker { person: Some(PersonID(1)), pos: Pt2D::new(900, 900) },
    ];
    let mut now = hours(7);
    let mut scheduled = Vec::new();
    for step in 1..=4 {
        let schedule = model.poll(now, &walkers);
        if model.is_sane(PersonID(1)) {
            assert_eq!(schedule.len(), 1);
        } else if scheduled.is_empty() {
            assert_eq!(schedule.len(), 2);
            assert_eq!(schedule[0].1, Cmd::Transition(PersonID(1)));
            assert_eq!(model.get_time(PersonID(1)), Some(now));
            scheduled.push(schedule[0]);
        } else {
            assert_eq!(schedule.len(), 1);
        }
        assert_eq!(model.concentration().index(0, 0), 30_000_000 * step);
        now = now.add(Duration::seconds(30));
    }
    assert!(model.is_exposed(PersonID(1)));
    assert_eq!(scheduled.len(), 1);
    assert_eq!(model.state(PersonID(1)).unwrap().get_event_time(), Some(AnyTime::Finite(scheduled[0].0)));
}

#[test]
fn a_walker_far_from_the_source_breathes_clean_air() {
    let mut model = pair(vec![]);
    let walkers = vec![
        Walker { person: Some(PersonID(0)), pos: Pt2D::new(100, 100) },
        Walker { person: Some(PersonID(1)), pos: Pt2D::new(4_400, 2_900) },
    ];
    for step in 0..50 {
        model.poll(hours(7).add(Duration::seconds(30 * step)), &walkers);
    }
    assert!(model.is_sane(PersonID(1)));
    assert_eq!(model.concentration().index(4, 2), 0);
    assert_eq!(model.concentration().index(0, 0), 1_500_000_000);
}

#[test]
fn transitions_run_every_course_to_its_end() {
    let mut model = fresh(42, RealWaits);
    let mut queue = model.initialize(&people(300));
    let under_way = queue.len();
    let sane = model.count_sane();
    let mut ended: Vec<PersonID> = Vec::new();
    let mut steps = 0;
    while !queue.is_empty() {
        queue.sort_by_key(|(t, _)| std::cmp::Reverse(t.ms));
        let (now, cmd) = queue.pop().unwrap();
        assert!(model.accepts_cmd(&cmd, &Vec::new()));
        let person = match cmd {
            Cmd::Transition(p) => p,
            _ => panic!("unexpected command"),
        };
        let before = model.state(person).unwrap();
        assert_eq!(before.get_event_time(), Some(AnyTime::Finite(now)));
        let schedule = model.handle_cmd(now, cmd, &Vec::new());
        let after = model.state(person).unwrap();
        assert_eq!(after.get_time(), Some(now));
        match before {
            State::Exposed { .. } => assert!(matches!(after, State::Infectious { .. })),
            State::Infectious { next_event, .. } => match next_event.s {
                StateEvent::Recovery => assert!(after.is_recovered()),
                _ => assert!(matches!(after, State::Hospitalized { .. })),
            },
            State::Hospitalized { next_event, .. } => match next_event.s {
                StateEvent::Recovery => assert!(after.is_recovered()),
                _ => assert!(after.is_dead()),
            },
            _ => panic!("a course that had ended was scheduled"),
        }
        if after.is_recovered() || after.is_dead() {
            assert!(schedule.is_empty());
            ended.push(person);
        } else {
            assert_eq!(schedule.len(), 1);
            assert_eq!(schedule[0].1, Cmd::Transition(person));
            assert_eq!(after.get_event_time(), Some(AnyTime::Finite(schedule[0].0)));
        }
        queue.extend(schedule);
        assert_eq!(model.count_total(), 300);
        assert_eq!(
            model.count_sane() + model.count_exposed() + model.count_infected() + model.count_recovered()
                + model.count_dead(),
            300
        );
        for p in ended.iter() {
            assert!(model.is_recovered(*p) || model.is_dead(*p));
        }
        steps += 1;
        assert!(steps <= 3 * under_way);
    }
    assert_eq!(model.count_sane(), sane);
    assert_eq!(model.count_exposed(), 0);
    assert_eq!(model.count_infected(), 0);
    assert_eq!(model.count_recovered() + model.count_dead(), under_way);
    assert_eq!(ended.len(), under_way);
}

#[test]
fn a_late_transition_of_an_ended_course_changes_nothing() {
    let mut model = fresh(42, RealWaits);
    let mut queue = model.initialize(&people(50));
    let mut last = None;
    while let Some((now, cmd)) = queue.pop() {
        queue.extend(model.handle_cmd(now, cmd, &Vec::new()));
        last = Some(cmd);
    }
    let person = match last {
        Some(Cmd::Transition(p)) => p,
        _ => panic!("nobody was under way"),
    };
    let before = model.state(person);
    for step in 0..10 {
        assert!(model.handle_cmd(hours(1_000 + step), Cmd::Transition(person), &Vec::new()).is_empty());
        assert_eq!(model.state(person), before);
    }
}

#[test]
fn the_same_seed_gives_the_same_run() {
    let run = |seed: u8| {
        let mut model = fresh(seed, RealWaits);
        let mut log = model.initialize(&people(40));
        let b = BuildingID(1);
        for p in people(40) {
            log.extend(model.handle_event(hours(1), &MobilityEvent::PersonEntersBuilding(p, b)));
        }
        let walkers: Vec<Walker> = people(40)
            .into_iter()
            .map(|p| Walker { person: Some(p), pos: Pt2D::new(100 * p.0 as i64, 50 * p.0 as i64) })
            .collect();
        for step in 0..20 {
            log.extend(model.handle_cmd(hours(2).add(Duration::seconds(30 * step)), Cmd::Poll, &walkers));
        }
        for p in people(40) {
            log.extend(model.handle_event(hours(9), &MobilityEvent::PersonLeavesBuilding(p, b)));
        }
        let states: Vec<Option<State>> = people(40).into_iter().map(|p| model.state(p)).collect();
        let mut cells = Vec::new();
        for y in 0..model.concentration().height() {
            for x in 0..model.concentration().width() {
                cells.push(model.concentration().index(x, y));
            }
        }
        (log, states, cells)
    };
    assert_eq!(run(17), run(17));
    assert!(run(17) != run(18));
}

#[test]
fn a_crowd_around_the_sick_is_exposed_one_by_one() {
    let mut model = fresh(42, RealWaits);
    model.initialize(&people(200));
    let b = BuildingID(1);
    for p in people(200) {
        model.handle_event(hours(0), &MobilityEvent::PersonEntersBuilding(p, b));
    }
    let sane = model.count_sane();
    let exposed = model.count_exposed();
    let infected = model.count_infected();
    let mut announced = 0;
    for p in people(200) {
        let was_sane = model.is_sane(p);
        let schedule = model.handle_event(hours(48), &MobilityEvent::PersonLeavesBuilding(p, b));
        for (due, cmd) in schedule.iter() {
            match cmd {
                Cmd::Transition(q) => {
                    assert!(model.is_exposed(*q));
                    assert_eq!(model.get_time(*q), Some(hours(48)));
                    assert_eq!(model.state(*q).unwrap().get_event_time(), Some(AnyTime::Finite(*due)));
                    // Either the one who leaves caught it, or one who stays.
                    assert!((*q == p) == was_sane || infected == 0);
                }
                _ => panic!("unexpected command"),
            }
        }
        announced += schedule.len();
    }
    // Two days together: nearly everybody susceptible is exposed.
    assert!(infected > 0);
    assert_eq!(model.count_infected(), infected);
    assert_eq!(model.count_exposed(), exposed + announced);
    assert_eq!(model.count_sane(), sane - announced);
    assert!(announced > sane / 2, "{} of {}", announced, sane);
    assert_eq!(model.count_total(), 200);
}
