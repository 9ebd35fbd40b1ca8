//! Activation functions with a random bias for every entry.

use vstd::prelude::*;

use crate::activation_function::ActiviationFunction;
use crate::matrix::copy_of;
use crate::random::sample_symmetric_inclusive;
use crate::scalar::times;

verus! {

/// An activation function of a bias and a value, with one bias for every
/// entry.
#[verifier::reject_recursive_types(T)]
#[derive(Debug)]
pub struct BiasedActivationFunction<T, F: Fn(T, T) -> T> {
    bias_scale: T,
    bias: Vec<T>,
    function: F,
}

impl<T: Copy, F: Fn(T, T) -> T + Clone> Clone for BiasedActivationFunction<T, F> {
    fn clone(&self) -> (copy: Self)
        ensures
            copy.scale() == self.scale(),
            copy.biases() == self.biases(),
    {
        Self {
            bias_scale: self.bias_scale,
            bias: copy_of(&self.bias),
            function: self.function.clone(),
        }
    }
}

impl<T, F: Fn(T, T) -> T> BiasedActivationFunction<T, F> {
    /// The scale of the biases.
    pub closed spec fn scale(&self) -> T {
        self.bias_scale
    }

    /// The biases, one for every entry.
    pub closed spec fn biases(&self) -> Seq<T> {
        self.bias@
    }

    /// The function of a bias and a value.
    pub closed spec fn function(&self) -> F {
        self.function
    }
}

impl<T: Copy, F: Fn(T, T) -> T> BiasedActivationFunction<T, F> {
    pub fn bias_scale(&self) -> (scale: T)
        ensures
            scale == self.scale(),
    {
        self.bias_scale
    }
}

impl<T: Copy, F: Fn(T, T) -> T> ActiviationFunction<T> for BiasedActivationFunction<T, F> {
    /// The entry has a bias, and the function takes the bias and the value.
    open spec fn admits(&self, index: usize, value: T) -> bool {
        &&& index < self.biases().len()
        &&& call_requires(self.function(), (self.biases()[index as int], value))
    }

    /// The function may give `activated` for the bias of the entry and the
    /// value.
    open spec fn activates(&self, index: usize, value: T, activated: T) -> bool {
        call_ensures(self.function(), (self.biases()[index as int], value), activated)
    }

    fn invoke(&self, index: usize, value: T) -> (activated: T) {
        (self.function)(self.bias[index], value)
    }
}

impl<
    T: nalgebra::RealField + Copy + rand::distributions::uniform::SampleUniform,
    F: Fn(T, T) -> T,
> BiasedActivationFunction<T, F> {
    /// The function `f` with `size` biases, each drawn at random between
    /// `-scale` and `scale`.
    pub fn new_uniform_random(size: usize, f: F, scale: T) -> (activation: Self)
        ensures
            activation.biases().len() == size,
            activation.function() == f,
            activation.scale() == scale,
            forall|index: usize, value: T| #[trigger]
                activation.admits(index, value) == (index < size && call_requires(
                    f,
                    (activation.biases()[index as int], value),
                )),
            forall|index: usize, value: T, activated: T| #[trigger]
                activation.activates(index, value, activated) == call_ensures(
                    f,
                    (activation.biases()[index as int], value),
                    activated,
                ),
    {
        let mut bias: Vec<T> = Vec::with_capacity(size);
        while bias.len() < size
            invariant
                bias@.len() <= size,
            decreases size - bias@.len(),
        {
            bias.push(times(scale, sample_symmetric_inclusive()));
        }
        Self { bias_scale: scale, function: f, bias }
    }
}

} // verus!
