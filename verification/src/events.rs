//! What the host simulation tells the model, and what the model asks it to
//! schedule.

use vstd::prelude::*;
use crate::geom::Pt2D;
use crate::ids::{BuildingID, BusStopID, CarID, LaneID, OffMapLocation, PersonID};
use crate::state::State;

verus! {

/// A command that the model has the host deliver back at a later time.
#[derive(Clone, Copy, Debug, PartialEq, Eq, PartialOrd, Ord, Structural)]
pub enum Cmd {
    /// Advance the concentration field by one step.
    Poll,
    BecomeHospitalized(PersonID),
    BecomeQuarantined(PersonID),
    /// Reserved to the host; the model never takes it.
    CancelFutureTrips(PersonID),
    /// Take the scheduled step of this person.
    Transition(PersonID),
    /// Not in use; the model never takes it.
    Transmission(PersonID),
}

/// Something that an agent moves along.
#[derive(Clone, Copy, Debug, PartialEq, Eq, Structural)]
pub enum Traversable {
    Lane(LaneID),
    Turn(usize),
}

/// The leg of a trip that a person starts.
#[derive(Clone, Copy, Debug, PartialEq, Eq, Structural)]
pub enum TripPhaseType {
    Driving,
    Walking,
    Biking,
    Parking,
    WaitingForBus(BusStopID),
    RidingBus(BusStopID, CarID),
    Aborted,
    Finished,
}

/// A movement reported by the host simulation.
#[derive(Clone, Copy, Debug, PartialEq, Eq, Structural)]
pub enum MobilityEvent {
    AgentEntersTraversable(Option<PersonID>, Traversable),
    AgentLeavesTraversable(Option<PersonID>, Traversable),
    PersonEntersBuilding(PersonID, BuildingID),
    PersonLeavesBuilding(PersonID, BuildingID),
    PersonEntersRemoteBuilding(PersonID, OffMapLocation),
    PersonLeavesRemoteBuilding(PersonID, OffMapLocation),
    TripPhaseStarting(PersonID, TripPhaseType),
    PersonLeavesMap(PersonID, Option<OffMapLocation>),
    PersonEntersMap(PersonID, Option<OffMapLocation>),
    /// Anything else that happens on the map.
    Other,
}

/// A pedestrian as the host reports it: who it is, if known, and where.
#[derive(Clone, Copy, Debug, PartialEq, Eq, Structural)]
pub struct Walker {
    pub person: Option<PersonID>,
    pub pos: Pt2D,
}

impl Cmd {
    /// The command that brings about the next step of `person` in `state`.
    pub open spec fn spec_from(state: State, person: PersonID) -> Cmd {
        match state {
            State::Sane { .. } => Cmd::Transmission(person),
            _ => Cmd::Transition(person),
        }
    }

    /// The command that brings about the next step of `person` in `state`.
    /// There is none for somebody whose course has ended.
    pub fn from(state: &State, person: PersonID) -> (cmd: Cmd)
        requires
            !(*state is Recovered),
            !(*state is Dead),
        ensures
            cmd == Cmd::spec_from(*state, person),
    {
        match state {
            State::Sane { .. } => Cmd::Transmission(person),
            _ => Cmd::Transition(person),
        }
    }
}

} // verus!
