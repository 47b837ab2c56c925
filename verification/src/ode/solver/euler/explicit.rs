//! Explicit Euler: the flow at the state before the step decides the step.
use crate::ode::traits::{Explicit, Flow};
use crate::scalar::Scalar;
use vstd::prelude::*;

verus! {

/// The explicit Euler scheme for the flow `flow` with step size `h`.
pub struct ExplicitEuler<T, F> {
    flow: F,
    h: T,
}

/// The explicit Euler step: `x + h * f`, component by component.
pub open spec fn euler_step<T: Scalar>(x: Seq<T>, h: T, f: Seq<T>) -> Seq<T> {
    Seq::new(x.len(), |i: int| x[i].add_spec(h.mul_spec(f[i])))
}

impl<T: Scalar, F: Flow<T>> ExplicitEuler<T, F> {
    /// The flow that is followed.
    pub closed spec fn flow_spec(&self) -> &F {
        &self.flow
    }

    /// The step size.
    pub closed spec fn step_size(&self) -> T {
        self.h
    }

    /// The scheme for `flow` with the step size `h`.
    pub fn new(h: T, flow: F) -> (scheme: Self)
        ensures
            scheme.step_size() == h,
            *scheme.flow_spec() == flow,
    {
        ExplicitEuler { flow, h }
    }
}

impl<T: Scalar, F: Flow<T>> Explicit<T> for ExplicitEuler<T, F> {
    open spec fn step_accepts(&self, n: nat) -> bool {
        self.flow_spec().accepts(n)
    }

    /// `next(x) = x + h * flow(x)`.
    open spec fn next_spec(&self, x: Seq<T>) -> Seq<T> {
        euler_step(x, self.step_size(), self.flow_spec().field(x))
    }

    fn next(&self, x: &Vec<T>) -> (x1: Vec<T>) {
        let h = self.h;
        let mut flow = self.flow.apply(x);
        let ghost f = flow@;
        let mut i: usize = 0;
        while i < flow.len()
            invariant
                i <= flow@.len(),
                flow@.len() == x@.len(),
                f.len() == x@.len(),
                forall|k: int| 0 <= k < i ==> flow@[k] == x@[k].add_spec(h.mul_spec(f[k])),
                forall|k: int| i <= k < flow@.len() ==> flow@[k] == f[k],
            decreases flow@.len() - i,
        {
            let v = x[i].add(h.mul(flow[i]));
            flow.set(i, v);
            i = i + 1;
        }
        assert(flow@ =~= euler_step(x@, h, f));
        flow
    }
}

} // verus!
