//! Identifiers of people and of the spaces that they share.

use vstd::prelude::*;

verus! {

/// Anything that names one shared space among those of its kind.
pub trait SpaceId {
    /// The number by which a ledger files this space.
    spec fn spec_index(&self) -> usize;

    fn index(&self) -> (i: usize)
        ensures
            i == self.spec_index(),
    ;
}

#[derive(Clone, Copy, Debug, PartialEq, Eq, PartialOrd, Ord, Hash, Structural)]
pub struct PersonID(pub usize);

#[derive(Clone, Copy, Debug, PartialEq, Eq, PartialOrd, Ord, Hash, Structural)]
pub struct BuildingID(pub usize);

#[derive(Clone, Copy, Debug, PartialEq, Eq, PartialOrd, Ord, Hash, Structural)]
pub struct LaneID(pub usize);

#[derive(Clone, Copy, Debug, PartialEq, Eq, PartialOrd, Ord, Hash, Structural)]
pub struct BusStopID(pub usize);

/// A vehicle; the model only ever meets buses.
#[derive(Clone, Copy, Debug, PartialEq, Eq, PartialOrd, Ord, Hash, Structural)]
pub struct CarID(pub usize);

/// A parcel beyond the edge of the map.
#[derive(Clone, Copy, Debug, PartialEq, Eq, PartialOrd, Ord, Hash, Structural)]
pub struct OffMapLocation(pub usize);

impl SpaceId for BuildingID {
    open spec fn spec_index(&self) -> usize {
        self.0
    }

    fn index(&self) -> (i: usize) {
        self.0
    }
}

impl SpaceId for LaneID {
    open spec fn spec_index(&self) -> usize {
        self.0
    }

    fn index(&self) -> (i: usize) {
        self.0
    }
}

impl SpaceId for BusStopID {
    open spec fn spec_index(&self) -> usize {
        self.0
    }

    fn index(&self) -> (i: usize) {
        self.0
    }
}

impl SpaceId for CarID {
    open spec fn spec_index(&self) -> usize {
        self.0
    }

    fn index(&self) -> (i: usize) {
        self.0
    }
}

impl SpaceId for OffMapLocation {
    open spec fn spec_index(&self) -> usize {
        self.0
    }

    fn index(&self) -> (i: usize) {
        self.0
    }
}

} // verus!
