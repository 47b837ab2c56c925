//! The numbers that dual numbers are made of.
use vstd::prelude::*;

verus! {

/// A number type with the four operations of arithmetic, an order, and the
/// small whole numbers.
///
/// Each operation comes as a pair: a specification function that names its
/// result, and an executable method that returns exactly that result. Nothing
/// else is asked of the arithmetic: no law of algebra is taken for granted,
/// so rounding arithmetic qualifies as well as exact arithmetic does.
///
/// What is proved of dual numbers over a number type holds as far as the
/// type's methods are functions of their arguments, as their contracts say.
/// A verified implementation overrides the specification functions with what
/// its methods compute. They default to an unspecified value, so that an
/// implementation compiled without the verifier writes the methods alone.
pub trait Scalar: Sized + Copy {
    /// The number that counts `n` things.
    open spec fn count_spec(n: nat) -> Self {
        arbitrary()
    }

    /// The distance from one to the next larger number of the type.
    open spec fn epsilon_spec() -> Self {
        arbitrary()
    }

    open spec fn add_spec(self, rhs: Self) -> Self {
        arbitrary()
    }

    open spec fn sub_spec(self, rhs: Self) -> Self {
        arbitrary()
    }

    open spec fn mul_spec(self, rhs: Self) -> Self {
        arbitrary()
    }

    open spec fn div_spec(self, rhs: Self) -> Self {
        arbitrary()
    }

    open spec fn neg_spec(self) -> Self {
        arbitrary()
    }

    /// Whether `self` is at least `rhs`.
    open spec fn ge_spec(self, rhs: Self) -> bool {
        arbitrary()
    }

    /// The largest whole number not above `self`, held to the range of `usize`.
    open spec fn floor_spec(self) -> usize {
        arbitrary()
    }

    fn from_count(n: usize) -> (r: Self)
        ensures
            r == Self::count_spec(n as nat),
    ;

    fn epsilon() -> (r: Self)
        ensures
            r == Self::epsilon_spec(),
    ;

    fn add(self, rhs: Self) -> (r: Self)
        ensures
            r == self.add_spec(rhs),
    ;

    fn sub(self, rhs: Self) -> (r: Self)
        ensures
            r == self.sub_spec(rhs),
    ;

    fn mul(self, rhs: Self) -> (r: Self)
        ensures
            r == self.mul_spec(rhs),
    ;

    fn div(self, rhs: Self) -> (r: Self)
        ensures
            r == self.div_spec(rhs),
    ;

    fn neg(self) -> (r: Self)
        ensures
            r == self.neg_spec(),
    ;

    fn ge(self, rhs: Self) -> (b: bool)
        ensures
            b == self.ge_spec(rhs),
    ;

    fn floor(self) -> (n: usize)
        ensures
            n == self.floor_spec(),
    ;
}

/// Zero, as the type counts it.
pub open spec fn zero<T: Scalar>() -> T {
    T::count_spec(0)
}

/// One, as the type counts it.
pub open spec fn one<T: Scalar>() -> T {
    T::count_spec(1)
}

} // verus!
