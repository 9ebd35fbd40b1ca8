//! The random draws that the random constructors make, by `rand`.
//!
//! `rand` panics on a range whose lower bound is not below its upper bound.
//! Of two scalars no contract can say which is the lower, so the ranges of
//! scalars are fixed in here, where both bounds are in sight.

use vstd::prelude::*;

verus! {

/// An index below `bound`, drawn by `rand`'s `Uniform::new(0, bound)` from
/// the thread's generator. `rand` panics unless `bound` is positive.
#[verifier::external_body]
pub(crate) fn sample_index(bound: usize) -> (index: usize)
    requires
        bound > 0,
    ensures
        index < bound,
{
    rand::distributions::Distribution::sample(
        &rand::distributions::Uniform::new(0, bound),
        &mut rand::thread_rng(),
    )
}

/// A scalar drawn by `rand`'s `Uniform::new(-1, 1)`, with the bounds taken
/// from `num_traits::One::one`, from the thread's generator. Nothing is
/// claimed of the value.
#[verifier::external_body]
fn draw_symmetric<
    T: nalgebra::RealField + rand::distributions::uniform::SampleUniform,
>() -> (value: T) {
    rand::distributions::Distribution::sample(
        &rand::distributions::Uniform::new(-T::one(), T::one()),
        &mut rand::thread_rng(),
    )
}

/// A scalar drawn by `rand`'s `Uniform::new_inclusive(-1, 1)`, with the
/// bounds taken from `num_traits::One::one`, from the thread's generator.
/// Nothing is claimed of the value.
#[verifier::external_body]
pub(crate) fn sample_symmetric_inclusive<
    T: nalgebra::RealField + rand::distributions::uniform::SampleUniform,
>() -> (value: T) {
    rand::distributions::Distribution::sample(
        &rand::distributions::Uniform::new_inclusive(-T::one(), T::one()),
        &mut rand::thread_rng(),
    )
}

/// A scalar drawn by `rand`'s `Uniform::new_inclusive(0, 1)`, with the
/// bounds taken from `num_traits::Zero::zero` and `num_traits::One::one`,
/// from the thread's generator. Nothing is claimed of the value.
#[verifier::external_body]
pub(crate) fn sample_unit_inclusive<
    T: nalgebra::RealField + rand::distributions::uniform::SampleUniform,
>() -> (value: T) {
    rand::distributions::Distribution::sample(
        &rand::distributions::Uniform::new_inclusive(T::zero(), T::one()),
        &mut rand::thread_rng(),
    )
}

/// `value` is a scalar that `rand` draws between -1 and 1, the upper bound
/// left out.
pub closed spec fn is_symmetric_draw<
    T: nalgebra::RealField + rand::distributions::uniform::SampleUniform,
>(value: T) -> bool {
    call_ensures(draw_symmetric::<T>, (), value)
}

/// A scalar drawn at random between -1 and 1, the upper bound left out.
pub(crate) fn sample_symmetric<
    T: nalgebra::RealField + rand::distributions::uniform::SampleUniform,
>() -> (value: T)
    ensures
        is_symmetric_draw(value),
{
    draw_symmetric()
}

} // verus!
