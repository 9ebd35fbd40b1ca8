//! Controlled time evolutions: rules that advance a reservoir's state under
//! an input and a control.

use vstd::prelude::*;

verus! {

/// A rule that advances the state of a reservoir by one step under a
/// projected input and a projected control.
///
/// `evolves` says which states a step may lead to. The state and the input
/// have `input_len()` entries, the control has `control_input_len()`; a step
/// keeps the length of the state.
pub trait ControlledReservoirTimeEvolution<T> {
    /// The length of the state and of the projected input.
    spec fn input_len(&self) -> nat;

    /// The length of the projected control.
    spec fn control_input_len(&self) -> nat;

    /// The length of the states that the rule gives out.
    spec fn output_len(&self) -> nat;

    /// Whether a step under `input` and `control` may lead from `before` to
    /// `after`.
    spec fn evolves(&self, before: Seq<T>, input: Seq<T>, control: Seq<T>, after: Seq<T>) -> bool;

    fn input_dimension(&self) -> (n: usize)
        ensures
            n == self.input_len(),
    ;

    fn control_input_dimension(&self) -> (n: usize)
        ensures
            n == self.control_input_len(),
    ;

    fn output_dimension(&self) -> (n: usize)
        ensures
            n == self.output_len(),
    ;

    /// Advances `state` by one step under `input` and `control`.
    fn controlled_time_evolution(&self, state: &mut Vec<T>, input: &Vec<T>, control: &Vec<T>) where
        T: nalgebra::RealField + Copy,

        requires
            old(state)@.len() == self.input_len(),
            input@.len() == self.input_len(),
            control@.len() == self.control_input_len(),
        ensures
            final(state)@.len() == old(state)@.len(),
            self.evolves(old(state)@, input@, control@, final(state)@),
    ;
}

} // verus!
