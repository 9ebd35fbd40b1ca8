//! The arithmetic of the scalar type, one operation at a time.
//!
//! The scalar type is a parameter, and its arithmetic is floating-point
//! arithmetic in practice. No contract here says what an operation gives:
//! the operators of the scalar type are taken as they are, with no condition
//! on their operands and no claim on their results.
//!
//! Beside each operation stands a relation that holds of its operands and a
//! value exactly where the operation may give that value for those operands.
//! A relation says which operation a value came out of and with which
//! operands; it does not say that the operation gives the same value twice.

use vstd::prelude::*;

verus! {

/// The additive identity of the scalar type, as `num_traits::Zero::zero`
/// gives it. Nothing is claimed of the value.
#[verifier::external_body]
fn scalar_zero<T: num_traits::Zero>() -> (zero: T) {
    T::zero()
}

/// The multiplicative identity of the scalar type, as `num_traits::One::one`
/// gives it. Nothing is claimed of the value.
#[verifier::external_body]
fn scalar_one<T: num_traits::One>() -> (one: T) {
    T::one()
}

/// `left + right` in the scalar type, by `std::ops::Add::add`. Nothing is
/// claimed of the value.
#[verifier::external_body]
fn scalar_sum<T: std::ops::Add<Output = T>>(left: T, right: T) -> (sum: T) {
    left + right
}

/// `left - right` in the scalar type, by `std::ops::Sub::sub`. Nothing is
/// claimed of the value.
#[verifier::external_body]
fn scalar_difference<T: std::ops::Sub<Output = T>>(left: T, right: T) -> (difference: T) {
    left - right
}

/// `left * right` in the scalar type, by `std::ops::Mul::mul`. Nothing is
/// claimed of the value.
#[verifier::external_body]
fn scalar_product<T: std::ops::Mul<Output = T>>(left: T, right: T) -> (product: T) {
    left * right
}

/// `left / right` in the scalar type, by `std::ops::Div::div`. Nothing is
/// claimed of the value.
#[verifier::external_body]
pub(crate) fn divided<T: std::ops::Div<Output = T>>(left: T, right: T) -> (quotient: T) {
    left / right
}

/// `base` raised to the power `exponent`, by `num_traits::Float::powi`.
/// Nothing is claimed of the value.
#[verifier::external_body]
fn scalar_power<T: num_traits::Float>(base: T, exponent: i32) -> (raised: T) {
    num_traits::Float::powi(base, exponent)
}

/// Whether the scalar type takes `left` and `right` for equal, by
/// `PartialEq::eq`. Nothing is claimed of the answer: a floating-point number
/// need not equal itself.
#[verifier::external_body]
fn scalars_equal<T: PartialEq>(left: &T, right: &T) -> (same: bool) {
    left == right
}

/// Whether the scalar type takes `left` for at most `right`, by
/// `PartialOrd::le`. Nothing is claimed of the answer.
#[verifier::external_body]
pub(crate) fn at_most<T: PartialOrd>(left: &T, right: &T) -> (holds: bool) {
    left <= right
}

/// The scalar that stands for the count `n`, by
/// `num_traits::FromPrimitive::from_usize`, or `None` where the scalar type
/// has none. Nothing is claimed of the value.
#[verifier::external_body]
fn scalar_from_count<T: num_traits::FromPrimitive>(n: usize) -> (scalar: Option<T>) {
    T::from_usize(n)
}

/// `zero` is a value that `num_traits::Zero::zero` gives.
pub closed spec fn is_zero<T: num_traits::Zero>(zero: T) -> bool {
    call_ensures(scalar_zero::<T>, (), zero)
}

/// `one` is a value that `num_traits::One::one` gives.
pub closed spec fn is_one<T: num_traits::One>(one: T) -> bool {
    call_ensures(scalar_one::<T>, (), one)
}

/// `sum` is a value that the scalar type's `+` gives for `left` and `right`.
pub closed spec fn is_sum<T: std::ops::Add<Output = T>>(left: T, right: T, sum: T) -> bool {
    call_ensures(scalar_sum::<T>, (left, right), sum)
}

/// `difference` is a value that the scalar type's `-` gives for `left` and
/// `right`.
pub closed spec fn is_difference<T: std::ops::Sub<Output = T>>(
    left: T,
    right: T,
    difference: T,
) -> bool {
    call_ensures(scalar_difference::<T>, (left, right), difference)
}

/// `product` is a value that the scalar type's `*` gives for `left` and
/// `right`.
pub closed spec fn is_product<T: std::ops::Mul<Output = T>>(left: T, right: T, product: T) -> bool {
    call_ensures(scalar_product::<T>, (left, right), product)
}

/// `raised` is a value that `num_traits::Float::powi` gives for `base` and
/// `exponent`.
pub closed spec fn is_power<T: num_traits::Float>(base: T, exponent: i32, raised: T) -> bool {
    call_ensures(scalar_power::<T>, (base, exponent), raised)
}

/// `same` is an answer that the scalar type's `==` gives for `left` and
/// `right`.
pub closed spec fn is_same_value<T: PartialEq>(left: T, right: T, same: bool) -> bool {
    call_ensures(scalars_equal::<T>, (&left, &right), same)
}

/// `scalar` is what `num_traits::FromPrimitive::from_usize` gives for `n`.
pub closed spec fn is_scalar_of<T: num_traits::FromPrimitive>(n: usize, scalar: Option<T>) -> bool {
    call_ensures(scalar_from_count::<T>, (n,), scalar)
}

/// The zero of the scalar type.
pub(crate) fn zero_value<T: num_traits::Zero>() -> (zero: T)
    ensures
        is_zero(zero),
{
    scalar_zero()
}

/// The one of the scalar type.
pub(crate) fn one_value<T: num_traits::One>() -> (one: T)
    ensures
        is_one(one),
{
    scalar_one()
}

/// `left + right` in the scalar type.
pub(crate) fn plus<T: std::ops::Add<Output = T>>(left: T, right: T) -> (sum: T)
    ensures
        is_sum(left, right, sum),
{
    scalar_sum(left, right)
}

/// `left - right` in the scalar type.
pub(crate) fn minus<T: std::ops::Sub<Output = T>>(left: T, right: T) -> (difference: T)
    ensures
        is_difference(left, right, difference),
{
    scalar_difference(left, right)
}

/// `left * right` in the scalar type.
pub(crate) fn times<T: std::ops::Mul<Output = T>>(left: T, right: T) -> (product: T)
    ensures
        is_product(left, right, product),
{
    scalar_product(left, right)
}

/// `base` raised to the power `exponent` in the scalar type.
pub(crate) fn power<T: num_traits::Float>(base: T, exponent: i32) -> (raised: T)
    ensures
        is_power(base, exponent, raised),
{
    scalar_power(base, exponent)
}

/// Whether the scalar type takes `left` and `right` for equal.
pub(crate) fn same_value<T: PartialEq>(left: &T, right: &T) -> (same: bool)
    ensures
        is_same_value(*left, *right, same),
{
    scalars_equal(left, right)
}

/// The scalar that stands for the count `n`, or `None` where the scalar type
/// has none.
pub(crate) fn scalar_of<T: num_traits::FromPrimitive>(n: usize) -> (scalar: Option<T>)
    ensures
        is_scalar_of(n, scalar),
{
    scalar_from_count(n)
}

} // verus!
