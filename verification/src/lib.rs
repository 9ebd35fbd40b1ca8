//! Reservoir computing: a fixed recurrent system is driven by an input series,
//! its states are recorded, a linear readout is fitted to them, and the fitted
//! system forecasts by feeding its own predictions back as input.
//!
//! The scalar type is a parameter throughout, and in practice a
//! floating-point type. The verified code never looks inside a scalar: it
//! moves scalars around and proves where each one goes. The arithmetic is
//! done by `nalgebra`, by `nalgebra_sparse` and by the scalar type's own
//! operators, behind functions whose contracts give the size of a result and
//! say nothing of its digits, which need not be the same on every machine.
//! Beside such a function stands a relation that holds of its arguments and
//! a value where the function may give that value for those arguments, so
//! that a contract can say which operation a value came out of, and with
//! which operands.
//!
//! So each part of a reservoir says which results it may give (`projects`,
//! `evolves`, `measures`, `reads_out`), and the functions that drive a
//! reservoir promise a run made of such steps: which window is projected at
//! which step, which state is measured, and where each output goes.

pub mod activation_function;
pub mod controlled_reservoir;
pub mod controlled_time_evolution;
pub mod echo_state_network;
pub mod input_projection;
pub mod linear_algebra;
pub mod matrix;
pub mod output_projection;
pub mod random;
pub mod reservoir;
pub mod scalar;
pub mod sparse;
pub mod state_measurement;
pub mod time_evolution;

pub use reservoir::{Reservoir, ReservoirComputer, ReservoirComputerDynamics, ReservoirDynamics};
