//! Time evolutions: the rules that advance a reservoir's state.

use vstd::prelude::*;

verus! {

/// A rule that advances the state of a reservoir by one step under a
/// projected input.
///
/// `evolves` says which states a step may lead to. The length of the state is
/// `input_len()`, and so is the length of the projected input; a step keeps
/// the length of the state.
pub trait ReservoirTimeEvolution<T> {
    /// The length of the state and of the projected input.
    spec fn input_len(&self) -> nat;

    /// The length of the states that the rule gives out.
    spec fn output_len(&self) -> nat;

    /// Whether a step under `input` may lead from `before` to `after`.
    spec fn evolves(&self, before: Seq<T>, input: Seq<T>, after: Seq<T>) -> bool where
        T: nalgebra::RealField + Copy,
    ;

    fn input_dimension(&self) -> (n: usize)
        ensures
            n == self.input_len(),
    ;

    fn output_dimension(&self) -> (n: usize)
        ensures
            n == self.output_len(),
    ;

    /// Advances `state` by one step under `input`.
    fn time_evolution(&self, state: &mut Vec<T>, input: &Vec<T>) where
        T: nalgebra::RealField + Copy,

        requires
            old(state)@.len() == self.input_len(),
            input@.len() == self.input_len(),
        ensures
            final(state)@.len() == old(state)@.len(),
            self.evolves(old(state)@, input@, final(state)@),
    ;
}

/// The time evolution leads from a state under an input to at most one
/// state.
pub open spec fn evolves_one<
    T: nalgebra::RealField + Copy,
    E: ReservoirTimeEvolution<T>,
>(evolution: E) -> bool {
    forall|before: Seq<T>, input: Seq<T>, a: Seq<T>, b: Seq<T>|
        #[trigger] evolution.evolves(before, input, a) && #[trigger] evolution.evolves(
            before,
            input,
            b,
        ) ==> a == b
}

impl<T, E: ReservoirTimeEvolution<T>> ReservoirTimeEvolution<T> for Box<E> {
    open spec fn input_len(&self) -> nat {
        (**self).input_len()
    }

    open spec fn output_len(&self) -> nat {
        (**self).output_len()
    }

    open spec fn evolves(&self, before: Seq<T>, input: Seq<T>, after: Seq<T>) -> bool where
        T: nalgebra::RealField + Copy,
    {
        (**self).evolves(before, input, after)
    }

    fn input_dimension(&self) -> (n: usize) {
        (**self).input_dimension()
    }

    fn output_dimension(&self) -> (n: usize) {
        (**self).output_dimension()
    }

    fn time_evolution(&self, state: &mut Vec<T>, input: &Vec<T>) where
        T: nalgebra::RealField + Copy,
    {
        (**self).time_evolution(state, input);
    }
}

} // verus!
