//! The epidemic over a population.
//!
//! The model keeps the state of every person, the ledgers of the spaces that
//! people share and the concentration field. The host simulation reports
//! movements and delivers the commands that fall due; each call returns the
//! commands that the host is to schedule in turn.
//!
//! What a call does to the population depends on what is drawn. Each call
//! states its result for the draws that were made: the population and the
//! schedule are what the draws of some list make of them, and the functions
//! named `spec_` say what that is for every list.

pub mod airborne;
pub mod contact;
pub mod outcome;
pub mod seeding;

use std::collections::BTreeMap;
use vstd::prelude::*;
use vstd::std_specs::iter::IteratorSpec;
use crate::census::{Compartment, lemma_counts_add_up, lemma_tally_is_count, spec_count, spec_tally};
use crate::chance::WaitSampler;
use crate::events::{Cmd, Walker};
use crate::geom::{cells_across, Bounds, Distance, spec_cells_across};
use crate::grid::{check_step, Grid, spec_in_range, spec_stable};
use crate::ids::{BuildingID, BusStopID, CarID, LaneID, OffMapLocation, PersonID, SpaceId};
use crate::shared_space::{SharedSpace, spec_entered};
use crate::state::State;
use crate::time::{Duration, Time};

verus! {

broadcast use vstd::std_specs::btree::group_btree_axioms;

/// Diffusivity of the field, in square millimetres per millisecond.
pub const KAPPA: u64 = 2;

/// Decay of the field, in millionths per millisecond.
pub const DECAY: u64 = 2;

/// What a cell must hold to keep its content at the end of a step.
pub const ABSORB_FLOOR: u64 = 10000;

/// What an infectious pedestrian gives off per second.
pub const SOURCE_PER_SECOND: u64 = 1000000;

/// The concentration at which a pedestrian is sure to be exposed within one
/// step: a hundred units.
pub const FULL_EXPOSURE: u32 = 100000000;

/// Everybody in `occ` has a state in `pop`.
pub open spec fn spec_all_known(occ: Seq<(PersonID, Time)>, pop: Map<usize, State>) -> bool {
    forall|i: int| 0 <= i < occ.len() ==> pop.contains_key((#[trigger] occ[i]).0.0)
}

/// The epidemic model, generic in the source of its waiting times.
pub struct PandemicModel<W: WaitSampler> {
    pop: BTreeMap<usize, State>,
    concentration: Grid,
    bounds: Bounds,
    spacing: Distance,
    delta_t: Duration,
    bldgs: SharedSpace<BuildingID>,
    sidewalks: SharedSpace<LaneID>,
    remote_bldgs: SharedSpace<OffMapLocation>,
    bus_stops: SharedSpace<BusStopID>,
    buses: SharedSpace<CarID>,
    person_to_bus: BTreeMap<usize, CarID>,
    rng: rand_xorshift::XorShiftRng,
    waits: W,
    initialized: bool,
}

impl<W: WaitSampler> PandemicModel<W> {
    /// The state of each person, by the person's number.
    pub closed spec fn population(&self) -> Map<usize, State> {
        self.pop@
    }

    /// The concentration field.
    pub closed spec fn field(&self) -> Grid {
        self.concentration
    }

    pub closed spec fn spec_bounds(&self) -> Bounds {
        self.bounds
    }

    pub closed spec fn spec_spacing(&self) -> Distance {
        self.spacing
    }

    pub closed spec fn spec_delta_t(&self) -> Duration {
        self.delta_t
    }

    pub closed spec fn spec_initialized(&self) -> bool {
        self.initialized
    }

    pub closed spec fn buildings(&self) -> SharedSpace<BuildingID> {
        self.bldgs
    }

    pub closed spec fn lanes(&self) -> SharedSpace<LaneID> {
        self.sidewalks
    }

    pub closed spec fn remote_buildings(&self) -> SharedSpace<OffMapLocation> {
        self.remote_bldgs
    }

    pub closed spec fn stops(&self) -> SharedSpace<BusStopID> {
        self.bus_stops
    }

    pub closed spec fn vehicles(&self) -> SharedSpace<CarID> {
        self.buses
    }

    /// The bus that each rider is on, by the rider's number.
    pub closed spec fn riders(&self) -> Map<usize, CarID> {
        self.person_to_bus@
    }

    /// The model knows `person`.
    pub open spec fn knows(&self, person: PersonID) -> bool {
        self.population().contains_key(person.0)
    }

    /// The state of a person whom the model knows.
    pub open spec fn state_of(&self, person: PersonID) -> State
        recommends
            self.knows(person),
    {
        self.population()[person.0]
    }

    /// The ledger `ledger` holds only people whom the model knows.
    pub open spec fn knows_all<T: SpaceId>(&self, ledger: SharedSpace<T>) -> bool {
        forall|key: usize| spec_all_known(#[trigger] ledger.at(key), self.population())
    }

    /// The field is a grid, its cells have a side, nobody is known before
    /// the population is in, every state is one that the course of the disease
    /// can reach, the ledgers hold only people whom the model knows, and every
    /// rider is inside the bus that they ride.
    pub open spec fn wf(&self) -> bool {
        &&& self.field().wf()
        &&& self.spec_spacing().mm > 0
        &&& !self.spec_initialized() ==> self.population() == Map::<usize, State>::empty()
        &&& forall|k: usize| self.population().contains_key(k) ==> (#[trigger] self.population()[k]).wf()
        &&& self.knows_all(self.buildings())
        &&& self.knows_all(self.lanes())
        &&& self.knows_all(self.remote_buildings())
        &&& self.knows_all(self.stops())
        &&& self.knows_all(self.vehicles())
        &&& forall|k: usize| #[trigger]
            self.riders().contains_key(k) ==> spec_entered(
                self.vehicles().inside(self.riders()[k]),
                PersonID(k),
            ) is Some
    }

    /// Nothing but the population differs between `self` and `other`.
    pub open spec fn same_but_population(&self, other: &Self) -> bool {
        &&& self.field() == other.field()
        &&& self.spec_bounds() == other.spec_bounds()
        &&& self.spec_spacing() == other.spec_spacing()
        &&& self.spec_delta_t() == other.spec_delta_t()
        &&& self.spec_initialized() == other.spec_initialized()
        &&& self.buildings() == other.buildings()
        &&& self.lanes() == other.lanes()
        &&& self.remote_buildings() == other.remote_buildings()
        &&& self.stops() == other.stops()
        &&& self.vehicles() == other.vehicles()
        &&& self.riders() == other.riders()
    }

    /// Nothing but the population and the field differs between `self` and `other`.
    pub open spec fn same_places(&self, other: &Self) -> bool {
        &&& self.spec_bounds() == other.spec_bounds()
        &&& self.spec_spacing() == other.spec_spacing()
        &&& self.spec_delta_t() == other.spec_delta_t()
        &&& self.spec_initialized() == other.spec_initialized()
        &&& self.buildings() == other.buildings()
        &&& self.lanes() == other.lanes()
        &&& self.remote_buildings() == other.remote_buildings()
        &&& self.stops() == other.stops()
        &&& self.vehicles() == other.vehicles()
        &&& self.riders() == other.riders()
    }

    /// A model of nobody yet, with an empty field of `spacing`-sized cells
    /// over `bounds`: as many cells each way as it takes to cover the box.
    pub fn new(bounds: &Bounds, spacing: Distance, delta_t: Duration, rng: rand_xorshift::XorShiftRng, waits: W) -> (model:
        PandemicModel<W>)
        requires
            spacing.mm > 0,
            spec_cells_across(bounds.spec_width(), spacing.mm as int) <= usize::MAX,
            spec_cells_across(bounds.spec_height(), spacing.mm as int) <= usize::MAX,
            spec_cells_across(bounds.spec_width(), spacing.mm as int) * spec_cells_across(
                bounds.spec_height(),
                spacing.mm as int,
            ) <= usize::MAX,
        ensures
            model.wf(),
            !model.spec_initialized(),
            model.population() == Map::<usize, State>::empty(),
            model.riders() == Map::<usize, CarID>::empty(),
            model.spec_bounds() == *bounds,
            model.spec_spacing() == spacing,
            model.spec_delta_t() == delta_t,
            model.field().spec_width() == spec_cells_across(bounds.spec_width(), spacing.mm as int),
            model.field().spec_height() == spec_cells_across(bounds.spec_height(), spacing.mm as int),
            forall|i: int| 0 <= i < model.field()@.len() ==> #[trigger] model.field()@[i] == 0,
            forall|key: usize| #[trigger] model.buildings().at(key) == Seq::<(PersonID, Time)>::empty(),
            forall|key: usize| #[trigger] model.lanes().at(key) == Seq::<(PersonID, Time)>::empty(),
            forall|key: usize| #[trigger]
                model.remote_buildings().at(key) == Seq::<(PersonID, Time)>::empty(),
            forall|key: usize| #[trigger] model.stops().at(key) == Seq::<(PersonID, Time)>::empty(),
            forall|key: usize| #[trigger] model.vehicles().at(key) == Seq::<(PersonID, Time)>::empty(),
    {
        let nx = cells_across(bounds.width(), spacing.mm);
        let ny = cells_across(bounds.height(), spacing.mm);
        proof {
            assert(0 <= nx * ny) by (nonlinear_arith)
                requires
                    0 <= nx,
                    0 <= ny,
            ;
        }
        PandemicModel {
            pop: BTreeMap::new(),
            concentration: Grid::zero(nx as usize, ny as usize),
            bounds: *bounds,
            spacing,
            delta_t,
            bldgs: SharedSpace::new(),
            sidewalks: SharedSpace::new(),
            remote_bldgs: SharedSpace::new(),
            bus_stops: SharedSpace::new(),
            buses: SharedSpace::new(),
            person_to_bus: BTreeMap::new(),
            rng,
            waits,
            initialized: false,
        }
    }
}

impl<W: WaitSampler> PandemicModel<W> {
    /// The state of a person whom the model knows.
    fn lookup(&self, person: PersonID) -> (st: State)
        requires
            self.knows(person),
        ensures
            st == self.state_of(person),
    {
        match self.pop.get(&person.0) {
            Some(st) => *st,
            None => vstd::pervasive::unreached(),
        }
    }

    /// Whether the model knows `person`.
    pub fn is_known(&self, person: PersonID) -> (b: bool)
        ensures
            b == self.knows(person),
    {
        self.pop.contains_key(&person.0)
    }

    /// The state of `person`, if the model knows them.
    pub fn state(&self, person: PersonID) -> (st: Option<State>)
        ensures
            st == if self.knows(person) {
                Some(self.state_of(person))
            } else {
                None
            },
    {
        match self.pop.get(&person.0) {
            Some(st) => Some(*st),
            None => None,
        }
    }

    /// The time at which `person` entered their present state; none for
    /// somebody still susceptible.
    pub fn get_time(&self, person: PersonID) -> (t: Option<Time>)
        requires
            self.knows(person),
        ensures
            t == self.state_of(person).spec_get_time(),
    {
        self.lookup(person).get_time()
    }

    pub fn is_sane(&self, person: PersonID) -> (b: bool)
        requires
            self.knows(person),
        ensures
            b == self.state_of(person).is_sane(),
    {
        self.lookup(person).is_sane()
    }

    pub fn is_infectious(&self, person: PersonID) -> (b: bool)
        requires
            self.knows(person),
        ensures
            b == self.state_of(person).is_infectious(),
    {
        self.lookup(person).is_infectious()
    }

    pub fn is_exposed(&self, person: PersonID) -> (b: bool)
        requires
            self.knows(person),
        ensures
            b == self.state_of(person).is_exposed(),
    {
        self.lookup(person).is_exposed()
    }

    pub fn is_recovered(&self, person: PersonID) -> (b: bool)
        requires
            self.knows(person),
        ensures
            b == self.state_of(person).is_recovered(),
    {
        self.lookup(person).is_recovered()
    }

    pub fn is_dead(&self, person: PersonID) -> (b: bool)
        requires
            self.knows(person),
        ensures
            b == self.state_of(person).is_dead(),
    {
        self.lookup(person).is_dead()
    }

    /// Whether the population is in.
    pub fn is_initialized(&self) -> (b: bool)
        ensures
            b == self.spec_initialized(),
    {
        self.initialized
    }

    /// The concentration field.
    pub fn concentration(&self) -> (grid: &Grid)
        ensures
            *grid == self.field(),
    {
        &self.concentration
    }

    /// The side of a cell of the field.
    pub fn spacing(&self) -> (d: Distance)
        ensures
            d == self.spec_spacing(),
    {
        self.spacing
    }

    /// The time from one step of the field to the next.
    pub fn delta_t(&self) -> (d: Duration)
        ensures
            d == self.spec_delta_t(),
    {
        self.delta_t
    }

    /// The box that the field covers.
    pub fn bounds(&self) -> (b: Bounds)
        ensures
            b == self.spec_bounds(),
    {
        self.bounds
    }

    /// The bus that `person` rides, if they ride one.
    pub fn bus_of(&self, person: PersonID) -> (bus: Option<CarID>)
        ensures
            bus == if self.riders().contains_key(person.0) {
                Some(self.riders()[person.0])
            } else {
                None
            },
    {
        match self.person_to_bus.get(&person.0) {
            Some(car) => Some(*car),
            None => None,
        }
    }

    /// The ledger of the buildings.
    pub fn building_ledger(&self) -> (ledger: &SharedSpace<BuildingID>)
        ensures
            *ledger == self.buildings(),
    {
        &self.bldgs
    }

    /// The ledger of the sidewalks.
    pub fn lane_ledger(&self) -> (ledger: &SharedSpace<LaneID>)
        ensures
            *ledger == self.lanes(),
    {
        &self.sidewalks
    }

    /// The ledger of the buildings off the map.
    pub fn remote_building_ledger(&self) -> (ledger: &SharedSpace<OffMapLocation>)
        ensures
            *ledger == self.remote_buildings(),
    {
        &self.remote_bldgs
    }

    /// The ledger of the bus stops.
    pub fn stop_ledger(&self) -> (ledger: &SharedSpace<BusStopID>)
        ensures
            *ledger == self.stops(),
    {
        &self.bus_stops
    }

    /// The ledger of the buses.
    pub fn bus_ledger(&self) -> (ledger: &SharedSpace<CarID>)
        ensures
            *ledger == self.vehicles(),
    {
        &self.buses
    }
}

impl<W: WaitSampler> PandemicModel<W> {
    /// How many people belong to the group `c`.
    pub fn count(&self, c: Compartment) -> (n: usize)
        ensures
            n == spec_count(self.population(), c),
            n <= self.population().dom().len(),
    {
        let total = self.pop.len();
        let mut n: usize = 0;
        for kv in it: self.pop.iter()
            invariant
                it.seq() == self.pop.iter().remaining(),
                it.seq().len() == total,
                n == spec_tally(it.seq().take(it.index()), c),
                n <= it.index(),
        {
            proof {
                let upto = it.seq().take(it.index() + 1);
                assert(upto.drop_last() == it.seq().take(it.index()));
                assert(upto.last() == kv);
            }
            if c.holds(*kv.1) {
                n += 1;
            }
        }
        proof {
            let entries = self.pop.iter().remaining();
            assert(entries.take(entries.len() as int) == entries);
            lemma_tally_is_count(entries, self.pop@, c);
        }
        n
    }

    /// How many people are susceptible.
    pub fn count_sane(&self) -> (n: usize)
        ensures
            n == spec_count(self.population(), Compartment::Sane),
    {
        self.count(Compartment::Sane)
    }

    /// How many people are exposed.
    pub fn count_exposed(&self) -> (n: usize)
        ensures
            n == spec_count(self.population(), Compartment::Exposed),
    {
        self.count(Compartment::Exposed)
    }

    /// How many people are infectious or in hospital.
    pub fn count_infected(&self) -> (n: usize)
        ensures
            n == spec_count(self.population(), Compartment::Infected),
    {
        self.count(Compartment::Infected)
    }

    /// How many people have recovered.
    pub fn count_recovered(&self) -> (n: usize)
        ensures
            n == spec_count(self.population(), Compartment::Recovered),
    {
        self.count(Compartment::Recovered)
    }

    /// How many people have died.
    pub fn count_dead(&self) -> (n: usize)
        ensures
            n == spec_count(self.population(), Compartment::Dead),
    {
        self.count(Compartment::Dead)
    }

    /// How many people there are: the five groups taken together.
    pub fn count_total(&self) -> (n: usize)
        ensures
            n == self.population().dom().len(),
            n == spec_count(self.population(), Compartment::Sane) + spec_count(
                self.population(),
                Compartment::Exposed,
            ) + spec_count(self.population(), Compartment::Infected) + spec_count(
                self.population(),
                Compartment::Recovered,
            ) + spec_count(self.population(), Compartment::Dead),
    {
        proof {
            lemma_counts_add_up(self.pop@);
            assert(self.pop@.dom().len() == self.pop.len());
        }
        self.count_sane() + self.count_exposed() + self.count_infected() + self.count_recovered()
            + self.count_dead()
    }
}

impl<W: WaitSampler> PandemicModel<W> {
    /// The command `cmd` is one that the model can take, with `walkers` on
    /// the map: the model has its population, and it knows the person of a
    /// transition and every pedestrian who is named; a step of the field must
    /// be one that the field can take. Two commands are never taken.
    pub open spec fn spec_accepts_cmd(&self, cmd: Cmd, walkers: Seq<Walker>) -> bool {
        self.spec_initialized() && match cmd {
            Cmd::Poll => {
                &&& spec_in_range(self.spec_spacing(), self.spec_delta_t())
                &&& spec_stable(KAPPA, DECAY, self.spec_spacing(), self.spec_delta_t())
                &&& forall|i: int|
                    0 <= i < walkers.len() && (#[trigger] walkers[i]).person is Some ==> self.knows(
                        walkers[i].person->Some_0,
                    )
            },
            Cmd::Transition(p) => self.knows(p),
            Cmd::BecomeHospitalized(_) | Cmd::BecomeQuarantined(_) => true,
            Cmd::CancelFutureTrips(_) | Cmd::Transmission(_) => false,
        }
    }

    /// Whether the model can take the command `cmd` with `walkers` on the map.
    pub fn accepts_cmd(&self, cmd: &Cmd, walkers: &Vec<Walker>) -> (ok: bool)
        ensures
            ok == self.spec_accepts_cmd(*cmd, walkers@),
    {
        if !self.initialized {
            return false;
        }
        match *cmd {
            Cmd::Poll => {
                if check_step(KAPPA, DECAY, self.spacing, self.delta_t).is_err() {
                    return false;
                }
                let mut i: usize = 0;
                while i < walkers.len()
                    invariant
                        i <= walkers.len(),
                        *cmd == Cmd::Poll,
                        forall|j: int|
                            0 <= j < i && (#[trigger] walkers@[j]).person is Some ==> self.knows(
                                walkers@[j].person->Some_0,
                            ),
                    decreases walkers.len() - i,
                {
                    if let Some(p) = walkers[i].person {
                        if !self.is_known(p) {
                            assert(walkers@[i as int].person is Some && !self.knows(
                                walkers@[i as int].person->Some_0,
                            ));
                            return false;
                        }
                    }
                    i += 1;
                }
                true
            },
            Cmd::Transition(p) => self.is_known(p),
            Cmd::BecomeHospitalized(_) | Cmd::BecomeQuarantined(_) => true,
            Cmd::CancelFutureTrips(_) | Cmd::Transmission(_) => false,
        }
    }

    /// Takes a command that has fallen due at `now`, with `walkers` on the
    /// map, and returns the commands to schedule.
    ///
    /// A step of the field and a transition are taken as [`Self::poll`] and
    /// [`Self::transition`] say. Admission to hospital and quarantine are
    /// taken and change nothing.
    pub fn handle_cmd(&mut self, now: Time, cmd: Cmd, walkers: &Vec<Walker>) -> (schedule: Vec<(Time, Cmd)>)
        requires
            old(self).wf(),
            old(self).spec_accepts_cmd(cmd, walkers@),
        ensures
            final(self).wf(),
            final(self).same_places(old(self)),
            match cmd {
                Cmd::Poll => final(self).spec_polled(old(self), schedule@, now, walkers@),
                Cmd::Transition(person) => final(self).field() == old(self).field()
                    && final(self).spec_transitioned(old(self), schedule@, now, person),
                _ => final(self).field() == old(self).field() && final(self).population() == old(
                    self,
                ).population() && schedule@.len() == 0,
            },
    {
        match cmd {
            Cmd::Poll => self.poll(now, walkers),
            Cmd::Transition(person) => self.transition(now, person),
            _ => Vec::new(),
        }
    }
}

} // verus!
