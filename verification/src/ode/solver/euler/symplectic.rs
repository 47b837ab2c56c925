//! Symplectic Euler: the positions lag and the momenta lead.
use crate::ad::AD;
use crate::ode::solver::euler::implicit::{finish_residual, step_residual};
use crate::ode::traits::{Flow, Implicit, Residual, Residual1Step};
use crate::scalar::Scalar;
use vstd::prelude::*;

verus! {

/// The symplectic Euler scheme for the flow `flow` with step size `h`, at a
/// step that starts from the state it was last updated with.
///
/// A state is its positions followed by as many momenta, so its length is
/// even.
pub struct SymplecticEuler<T, F> {
    x0_owned: Vec<AD<T>>,
    flow: F,
    h: AD<T>,
}

/// The state at which the flow is evaluated: the positions of `x0`, the
/// first half of it, followed by the momenta of `x1`, its second half.
pub open spec fn mixed<S>(x0: Seq<S>, x1: Seq<S>) -> Seq<S> {
    x0.take((x0.len() / 2) as int) + x1.skip((x0.len() / 2) as int)
}

impl<T: Scalar, F: Flow<AD<T>>> SymplecticEuler<T, F> {
    /// The flow that is followed.
    pub closed spec fn flow_spec(&self) -> &F {
        &self.flow
    }

    /// The step size, as a constant among dual numbers.
    pub closed spec fn step_size(&self) -> AD<T> {
        self.h
    }

    /// The state that the step starts from.
    pub closed spec fn start(&self) -> Seq<AD<T>> {
        self.x0_owned@
    }

    /// The scheme before any step: it starts from the empty state.
    pub fn new(h: T, flow: F) -> (scheme: Self)
        ensures
            scheme.step_size() == AD::AD0(h),
            *scheme.flow_spec() == flow,
            scheme.start() == Seq::<AD<T>>::empty(),
    {
        SymplecticEuler { x0_owned: Vec::new(), flow, h: AD::AD0(h) }
    }

    /// The positions of the start followed by the momenta of `x1`.
    fn mix(&self, x1: &Vec<AD<T>>) -> (q0: Vec<AD<T>>)
        requires
            x1@.len() == self.start().len(),
        ensures
            q0@ == mixed(self.start(), x1@),
            q0@.len() == x1@.len(),
    {
        let n = self.x0_owned.len();
        let half = n / 2;
        let mut q0: Vec<AD<T>> = Vec::with_capacity(n);
        let mut i: usize = 0;
        while i < half
            invariant
                i <= half,
                half == n / 2,
                n == self.x0_owned@.len(),
                q0@ == self.x0_owned@.take(i as int),
            decreases half - i,
        {
            q0.push(self.x0_owned[i]);
            i = i + 1;
            assert(q0@ =~= self.x0_owned@.take(i as int));
        }
        while i < n
            invariant
                half <= i <= n,
                half == n / 2,
                n == self.x0_owned@.len(),
                n == x1@.len(),
                q0@ == self.x0_owned@.take(half as int) + x1@.subrange(half as int, i as int),
            decreases n - i,
        {
            q0.push(x1[i]);
            i = i + 1;
            assert(q0@ =~= self.x0_owned@.take(half as int) + x1@.subrange(half as int, i as int));
        }
        assert(x1@.subrange(half as int, n as int) =~= x1@.skip(half as int));
        q0
    }
}

impl<T: Scalar, F: Flow<AD<T>>> Flow<AD<T>> for SymplecticEuler<T, F> {
    /// The candidate must be as long as the state that the step starts
    /// from, and that length must be even.
    open spec fn accepts(&self, n: nat) -> bool {
        n == self.start().len() && n % 2 == 0 && self.flow_spec().accepts(n)
    }

    /// `residual(x1) = x1 - x0 - h * flow(q, p)`, with the positions `q` of
    /// `x0` and the momenta `p` of `x1`.
    open spec fn field(&self, x: Seq<AD<T>>) -> Seq<AD<T>> {
        step_residual(
            x,
            self.start(),
            self.step_size(),
            self.flow_spec().field(mixed(self.start(), x)),
        )
    }

    fn apply(&self, x: &Vec<AD<T>>) -> (dx: Vec<AD<T>>) {
        let q0 = self.mix(x);
        let mut update = self.flow.apply(&q0);
        finish_residual(x, &self.x0_owned, self.h, &mut update);
        update
    }
}

impl<T: Scalar, F: Flow<AD<T>>> Residual<T> for SymplecticEuler<T, F> {
    fn eval(&self, x_next: &Vec<AD<T>>, update: &mut Vec<AD<T>>) {
        let q0 = self.mix(x_next);
        *update = self.flow.apply(&q0);
        finish_residual(x_next, &self.x0_owned, self.h, update);
    }
}

impl<T: Scalar, F: Flow<AD<T>>> Residual1Step<T> for SymplecticEuler<T, F> {
    open spec fn step_accepts(&self, n: nat) -> bool {
        n % 2 == 0 && self.flow_spec().accepts(n)
    }

    open spec fn step_field(&self, x0: Seq<AD<T>>, x1: Seq<AD<T>>) -> Seq<AD<T>> {
        step_residual(x1, x0, self.step_size(), self.flow_spec().field(mixed(x0, x1)))
    }

    open spec fn previous(&self) -> Seq<AD<T>> {
        self.start()
    }

    fn update(&mut self, x0: Vec<AD<T>>) {
        self.x0_owned = x0;
    }
}

impl<T: Scalar, F: Flow<AD<T>>> Implicit<T> for SymplecticEuler<T, F> {

}

} // verus!
