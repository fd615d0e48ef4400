use vstd::prelude::*;

verus! {

/// The arithmetic that the layers need from the element type of their tensors.
///
/// The layers never look inside an element. Whatever they compute, they compute
/// through these operations, and their contracts say which operation produced
/// each element from which operands. Nothing is assumed of an implementation:
/// an operation may round, saturate or answer differently on two calls.
pub trait Scalar: Copy {
    /// The additive identity, with which sums start and buffers are filled.
    fn zero() -> Self;

    /// The multiplicative identity.
    fn one() -> Self;

    /// The small positive constant that guards a division by a sum of exponentials.
    fn epsilon() -> Self;

    /// `self + rhs`.
    fn add(self, rhs: Self) -> Self;

    /// `self - rhs`.
    fn sub(self, rhs: Self) -> Self;

    /// `self * rhs`.
    fn mul(self, rhs: Self) -> Self;

    /// `self / rhs`.
    fn div(self, rhs: Self) -> Self;

    /// `-self`.
    fn neg(self) -> Self;

    /// The natural exponential.
    fn exp(self) -> Self;

    /// The hyperbolic tangent.
    fn tanh(self) -> Self;

    /// Whether `self` is strictly below `rhs`.
    fn less_than(self, rhs: Self) -> bool;
}

/// `z` is a value that `Scalar::zero` returned.
pub open spec fn is_zero<T: Scalar>(z: T) -> bool {
    call_ensures(T::zero, (), z)
}

/// `o` is a value that `Scalar::one` returned.
pub open spec fn is_one<T: Scalar>(o: T) -> bool {
    call_ensures(T::one, (), o)
}

/// `e` is a value that `Scalar::epsilon` returned.
pub open spec fn is_epsilon<T: Scalar>(e: T) -> bool {
    call_ensures(T::epsilon, (), e)
}

/// `r` is what `a.add(b)` returned.
pub open spec fn is_sum<T: Scalar>(a: T, b: T, r: T) -> bool {
    call_ensures(T::add, (a, b), r)
}

/// `r` is what `a.sub(b)` returned.
pub open spec fn is_difference<T: Scalar>(a: T, b: T, r: T) -> bool {
    call_ensures(T::sub, (a, b), r)
}

/// `r` is what `a.mul(b)` returned.
pub open spec fn is_product<T: Scalar>(a: T, b: T, r: T) -> bool {
    call_ensures(T::mul, (a, b), r)
}

/// `r` is what `a.div(b)` returned.
pub open spec fn is_quotient<T: Scalar>(a: T, b: T, r: T) -> bool {
    call_ensures(T::div, (a, b), r)
}

/// `r` is what `a.neg()` returned.
pub open spec fn is_negation<T: Scalar>(a: T, r: T) -> bool {
    call_ensures(T::neg, (a,), r)
}

/// `r` is what `a.exp()` returned.
pub open spec fn is_exp<T: Scalar>(a: T, r: T) -> bool {
    call_ensures(T::exp, (a,), r)
}

/// `r` is what `a.tanh()` returned.
pub open spec fn is_tanh<T: Scalar>(a: T, r: T) -> bool {
    call_ensures(T::tanh, (a,), r)
}

/// `answer` is what `a.less_than(b)` returned.
pub open spec fn is_less<T: Scalar>(a: T, b: T, answer: bool) -> bool {
    call_ensures(T::less_than, (a, b), answer)
}

/// `answer` is what comparing a zero with `a` returned: whether `a` is positive.
pub open spec fn is_positive<T: Scalar>(a: T, answer: bool) -> bool {
    exists|z: T| is_zero(z) && #[trigger] is_less(z, a, answer)
}

/// Whether `a` is positive, as the element type's comparison with zero answers.
pub fn positive<T: Scalar>(a: T) -> (answer: bool)
    ensures
        is_positive(a, answer),
{
    let z = T::zero();
    let answer = z.less_than(a);
    assert(is_zero(z) && is_less(z, a, answer));
    answer
}

} // verus!
