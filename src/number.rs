use vstd::prelude::*;

verus! {

/// The arithmetic a scalar type offers to the integrator.
///
/// Each operation is named by a spec function of the type, so that the
/// integrator's contracts can say exactly which operations, in which order,
/// produce every value it returns. Nothing is assumed of the operations
/// beyond that they are functions of their arguments: no associativity, no
/// ordering law, no exactness.
pub trait Number: Copy + Sized {
    /// The value of `self + o`.
    spec fn add_spec(self, o: Self) -> Self;

    /// The value of `self * o`.
    spec fn mul_spec(self, o: Self) -> Self;

    /// The value of `self / o`.
    spec fn div_spec(self, o: Self) -> Self;

    /// Whether `self < o`.
    spec fn lt_spec(self, o: Self) -> bool;

    /// The scalar that stands for the integer `n`.
    spec fn from_u32_spec(n: u32) -> Self;

    fn add(&self, o: &Self) -> (r: Self)
        ensures
            r == self.add_spec(*o),
    ;

    fn mul(&self, o: &Self) -> (r: Self)
        ensures
            r == self.mul_spec(*o),
    ;

    fn div(&self, o: &Self) -> (r: Self)
        ensures
            r == self.div_spec(*o),
    ;

    fn less_than(&self, o: &Self) -> (r: bool)
        ensures
            r == self.lt_spec(*o),
    ;

    fn from_u32(n: u32) -> (r: Self)
        ensures
            r == Self::from_u32_spec(n),
    ;
}

/// A derivative `(time, state) -> d(state)/d(time)` that the integrator can
/// call.
pub trait Function<T: Number>: Fn(&T, &Vec<T>) -> Vec<T> {
}

impl<T: Number, F: Fn(&T, &Vec<T>) -> Vec<T>> Function<T> for F {
}

} // verus!
