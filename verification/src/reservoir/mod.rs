//! Reservoirs: an input projection and a time evolution that share a state.

pub mod core_reservoir;
pub mod reservoir_computer;
pub mod reservoir_computer_dynamics;
pub mod reservoir_dynamics;
pub mod runs;
pub mod training;

pub use core_reservoir::Reservoir;
pub use reservoir_computer::ReservoirComputer;
pub use reservoir_computer_dynamics::ReservoirComputerDynamics;
pub use reservoir_dynamics::ReservoirDynamics;
