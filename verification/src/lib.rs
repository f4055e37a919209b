//! An agent-based epidemic model on an integer clock: a disease state machine
//! per person, ledgers of who shares which space, and a diffusion grid for
//! airborne exposure.
//!
//! Times are whole milliseconds, lengths whole millimetres, concentrations
//! whole millionths of a unit and probabilities fractions of whole numbers,
//! so that every step of the model is exact.

pub mod census;
pub mod chance;
pub mod course;
pub mod events;
pub mod geom;
pub mod grid;
pub mod ids;
pub mod model;
pub mod shared_space;
pub mod state;
pub mod time;

pub use crate::events::Cmd;
pub use crate::grid::Grid;
pub use crate::model::PandemicModel;
pub use crate::shared_space::SharedSpace;
pub use crate::state::{Event, State, StateEvent};
pub use crate::time::AnyTime;
