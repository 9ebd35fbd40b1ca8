//! Activation functions: what a reservoir applies to each entry of its state.

use std::marker::PhantomData;
use vstd::prelude::*;

pub mod biased_activation_function;

pub use biased_activation_function::BiasedActivationFunction;

verus! {

/// A function of an entry's index and value.
///
/// `activates` says which values `invoke` may give; an implementation that
/// computes in the scalar type's arithmetic need not give the same value
/// twice.
pub trait ActiviationFunction<T> {
    /// Whether `invoke` may be called on entry `index` with `value`.
    spec fn admits(&self, index: usize, value: T) -> bool;

    /// Whether `invoke` may give `activated` for entry `index` with `value`.
    spec fn activates(&self, index: usize, value: T, activated: T) -> bool;

    fn invoke(&self, index: usize, value: T) -> (activated: T)
        requires
            self.admits(index, value),
        ensures
            self.activates(index, value, activated),
    ;
}

impl<T, A: ActiviationFunction<T>> ActiviationFunction<T> for Box<A> {
    open spec fn admits(&self, index: usize, value: T) -> bool {
        (**self).admits(index, value)
    }

    open spec fn activates(&self, index: usize, value: T, activated: T) -> bool {
        (**self).activates(index, value, activated)
    }

    #[inline]
    fn invoke(&self, index: usize, value: T) -> (activated: T) {
        (**self).invoke(index, value)
    }
}

impl<T> ActiviationFunction<T> for Box<dyn ActiviationFunction<T>> {
    open spec fn admits(&self, index: usize, value: T) -> bool {
        (**self).admits(index, value)
    }

    open spec fn activates(&self, index: usize, value: T, activated: T) -> bool {
        (**self).activates(index, value, activated)
    }

    fn invoke(&self, index: usize, value: T) -> (activated: T) {
        (**self).invoke(index, value)
    }
}

/// An activation function given as a closure.
#[verifier::reject_recursive_types(T)]
pub struct ActivationFunctionWrapper<T, F: Fn(usize, T) -> T> {
    func: F,
    _phantom: PhantomData<T>,
}

impl<T, F: Fn(usize, T) -> T> ActivationFunctionWrapper<T, F> {
    /// The closure that is wrapped.
    pub closed spec fn function(&self) -> F {
        self.func
    }

}

impl<T, F: Fn(usize, T) -> T> ActiviationFunction<T> for ActivationFunctionWrapper<T, F> {
    open spec fn admits(&self, index: usize, value: T) -> bool {
        call_requires(self.function(), (index, value))
    }

    open spec fn activates(&self, index: usize, value: T, activated: T) -> bool {
        call_ensures(self.function(), (index, value), activated)
    }

    #[inline]
    fn invoke(&self, index: usize, value: T) -> (activated: T) {
        (self.func)(index, value)
    }
}

impl<T, F: Fn(usize, T) -> T> ActivationFunctionWrapper<T, F> {
    /// The activation function that calls `f`: it may be invoked where `f`
    /// may be called, and gives what `f` gives.
    pub fn new(f: F) -> (wrapper: Self)
        ensures
            wrapper.function() == f,
            forall|index: usize, value: T| #[trigger]
                wrapper.admits(index, value) == call_requires(f, (index, value)),
            forall|index: usize, value: T, activated: T| #[trigger]
                wrapper.activates(index, value, activated) == call_ensures(
                    f,
                    (index, value),
                    activated,
                ),
    {
        Self { func: f, _phantom: PhantomData }
    }
}

impl<T, F: Fn(usize, T) -> T + Clone> Clone for ActivationFunctionWrapper<T, F> {
    fn clone(&self) -> (copy: Self) {
        Self { func: self.func.clone(), _phantom: PhantomData }
    }
}

} // verus!
