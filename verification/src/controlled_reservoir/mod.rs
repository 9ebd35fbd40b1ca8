//! Controlled reservoirs: reservoirs that are driven by an input and a
//! control.

pub mod controlled_reservoir_computer;
pub mod controlled_reservoir_computer_dynamics;
pub mod controlled_reservoir_dynamics;
pub mod core_controlled_reservoir;

pub use controlled_reservoir_computer::ControlledReservoirComputer;
pub use controlled_reservoir_computer_dynamics::ControlledReservoirComputerDynamics;
pub use controlled_reservoir_dynamics::ControlledReservoirDynamics;
pub use core_controlled_reservoir::ControlledReservoir;
