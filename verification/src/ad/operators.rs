//! The operators `+`, `-`, `*`, `/` and unary `-` for dual numbers, between
//! two of them and with a plain number on the right.
//!
//! Each operator is the operation of the same name of [`Scalar`], or the
//! method for a plain operand: `a + b` is `a.add(b)`, and `a + s` is
//! `a.add_scalar(s)`.
use crate::ad::AD;
use crate::scalar::Scalar;
use std::ops::{Add, Div, Mul, Neg, Sub};
use vstd::prelude::*;
use vstd::std_specs::ops::{AddSpecImpl, DivSpecImpl, MulSpecImpl, NegSpecImpl, SubSpecImpl};

verus! {

impl<T: Scalar> Neg for AD<T> {
    type Output = AD<T>;

    fn neg(self) -> (r: AD<T>) {
        <AD<T> as Scalar>::neg(self)
    }
}

impl<T: Scalar> NegSpecImpl for AD<T> {
    open spec fn obeys_neg_spec() -> bool {
        true
    }

    open spec fn neg_req(self) -> bool {
        true
    }

    open spec fn neg_spec(self) -> AD<T> {
        <AD<T> as Scalar>::neg_spec(self)
    }
}

impl<T: Scalar> Add for AD<T> {
    type Output = AD<T>;

    fn add(self, rhs: AD<T>) -> (r: AD<T>) {
        <AD<T> as Scalar>::add(self, rhs)
    }
}

impl<T: Scalar> AddSpecImpl for AD<T> {
    open spec fn obeys_add_spec() -> bool {
        true
    }

    open spec fn add_req(self, rhs: AD<T>) -> bool {
        true
    }

    open spec fn add_spec(self, rhs: AD<T>) -> AD<T> {
        <AD<T> as Scalar>::add_spec(self, rhs)
    }
}

impl<T: Scalar> Sub for AD<T> {
    type Output = AD<T>;

    fn sub(self, rhs: AD<T>) -> (r: AD<T>) {
        <AD<T> as Scalar>::sub(self, rhs)
    }
}

impl<T: Scalar> SubSpecImpl for AD<T> {
    open spec fn obeys_sub_spec() -> bool {
        true
    }

    open spec fn sub_req(self, rhs: AD<T>) -> bool {
        true
    }

    open spec fn sub_spec(self, rhs: AD<T>) -> AD<T> {
        <AD<T> as Scalar>::sub_spec(self, rhs)
    }
}

impl<T: Scalar> Mul for AD<T> {
    type Output = AD<T>;

    fn mul(self, rhs: AD<T>) -> (r: AD<T>) {
        <AD<T> as Scalar>::mul(self, rhs)
    }
}

impl<T: Scalar> MulSpecImpl for AD<T> {
    open spec fn obeys_mul_spec() -> bool {
        true
    }

    open spec fn mul_req(self, rhs: AD<T>) -> bool {
        true
    }

    open spec fn mul_spec(self, rhs: AD<T>) -> AD<T> {
        <AD<T> as Scalar>::mul_spec(self, rhs)
    }
}

impl<T: Scalar> Div for AD<T> {
    type Output = AD<T>;

    fn div(self, rhs: AD<T>) -> (r: AD<T>) {
        <AD<T> as Scalar>::div(self, rhs)
    }
}

impl<T: Scalar> DivSpecImpl for AD<T> {
    open spec fn obeys_div_spec() -> bool {
        true
    }

    open spec fn div_req(self, rhs: AD<T>) -> bool {
        true
    }

    open spec fn div_spec(self, rhs: AD<T>) -> AD<T> {
        <AD<T> as Scalar>::div_spec(self, rhs)
    }
}

impl<T: Scalar> Add<T> for AD<T> {
    type Output = AD<T>;

    fn add(self, rhs: T) -> (r: AD<T>) {
        self.add_scalar(rhs)
    }
}

impl<T: Scalar> AddSpecImpl<T> for AD<T> {
    open spec fn obeys_add_spec() -> bool {
        true
    }

    open spec fn add_req(self, rhs: T) -> bool {
        true
    }

    open spec fn add_spec(self, rhs: T) -> AD<T> {
        self.with_slot(0, self@[0].add_spec(rhs))
    }
}

impl<T: Scalar> Sub<T> for AD<T> {
    type Output = AD<T>;

    fn sub(self, rhs: T) -> (r: AD<T>) {
        self.sub_scalar(rhs)
    }
}

impl<T: Scalar> SubSpecImpl<T> for AD<T> {
    open spec fn obeys_sub_spec() -> bool {
        true
    }

    open spec fn sub_req(self, rhs: T) -> bool {
        true
    }

    open spec fn sub_spec(self, rhs: T) -> AD<T> {
        self.with_slot(0, self@[0].sub_spec(rhs))
    }
}

impl<T: Scalar> Mul<T> for AD<T> {
    type Output = AD<T>;

    fn mul(self, rhs: T) -> (r: AD<T>) {
        self.mul_scalar(rhs)
    }
}

impl<T: Scalar> MulSpecImpl<T> for AD<T> {
    open spec fn obeys_mul_spec() -> bool {
        true
    }

    open spec fn mul_req(self, rhs: T) -> bool {
        true
    }

    open spec fn mul_spec(self, rhs: T) -> AD<T> {
        self.mul_scalar_spec(rhs)
    }
}

impl<T: Scalar> Div<T> for AD<T> {
    type Output = AD<T>;

    fn div(self, rhs: T) -> (r: AD<T>) {
        self.div_scalar(rhs)
    }
}

impl<T: Scalar> DivSpecImpl<T> for AD<T> {
    open spec fn obeys_div_spec() -> bool {
        true
    }

    open spec fn div_req(self, rhs: T) -> bool {
        true
    }

    open spec fn div_spec(self, rhs: T) -> AD<T> {
        self.div_scalar_spec(rhs)
    }
}

} // verus!
