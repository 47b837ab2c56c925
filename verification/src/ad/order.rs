//! The order of dual numbers: that of their values.
use crate::ad::AD;
use crate::scalar::Scalar;
use std::cmp::Ordering;
use vstd::prelude::*;
use vstd::std_specs::cmp::{PartialOrdSpec, PartialOrdSpecImpl};

verus! {

impl<T: Scalar + PartialOrd> PartialOrd for AD<T> {
    /// Two dual numbers compare as their values do, whatever their
    /// derivatives and orders.
    fn partial_cmp(&self, other: &Self) -> (r: Option<Ordering>) {
        self.x().partial_cmp(&other.x())
    }
}

impl<T: Scalar + PartialOrd> PartialOrdSpecImpl for AD<T> {
    open spec fn obeys_partial_cmp_spec() -> bool {
        T::obeys_partial_cmp_spec()
    }

    open spec fn partial_cmp_spec(&self, other: &Self) -> Option<Ordering> {
        self@[0].partial_cmp_spec(&other@[0])
    }
}

} // verus!
