//! Implicit Euler: the flow at the state after the step decides the step.
use crate::ad::AD;
use crate::ode::traits::{Flow, Implicit, Residual, Residual1Step};
use crate::scalar::Scalar;
use vstd::prelude::*;

verus! {

/// The implicit Euler scheme for the flow `flow` with step size `h`, at a
/// step that starts from the state it was last updated with.
pub struct ImplicitEuler<T, F> {
    x0_owned: Vec<AD<T>>,
    flow: F,
    h: AD<T>,
}

/// The residual of an implicit step from `x0` to `x1`, where `f` is the flow
/// that the scheme lets decide: `x1 - x0 - h * f`, component by component.
pub open spec fn step_residual<T: Scalar>(
    x1: Seq<AD<T>>,
    x0: Seq<AD<T>>,
    h: AD<T>,
    f: Seq<AD<T>>,
) -> Seq<AD<T>> {
    Seq::new(x1.len(), |i: int| x1[i].sub_spec(x0[i]).sub_spec(h.mul_spec(f[i])))
}

/// Turns the flow `f`, held in `update`, into the residual of the step from
/// `x0` to `x1`.
pub(crate) fn finish_residual<T: Scalar>(
    x1: &Vec<AD<T>>,
    x0: &Vec<AD<T>>,
    h: AD<T>,
    update: &mut Vec<AD<T>>,
)
    requires
        x0@.len() == x1@.len(),
        old(update)@.len() == x1@.len(),
    ensures
        final(update)@ == step_residual(x1@, x0@, h, old(update)@),
        final(update)@.len() == x1@.len(),
{
    let ghost f = update@;
    let mut i: usize = 0;
    while i < update.len()
        invariant
            i <= update@.len(),
            update@.len() == x1@.len(),
            x0@.len() == x1@.len(),
            f.len() == x1@.len(),
            forall|k: int|
                0 <= k < i ==> update@[k] == x1@[k].sub_spec(x0@[k]).sub_spec(h.mul_spec(f[k])),
            forall|k: int| i <= k < update@.len() ==> update@[k] == f[k],
        decreases update@.len() - i,
    {
        let v = x1[i].sub(x0[i]).sub(h.mul(update[i]));
        update.set(i, v);
        i = i + 1;
    }
    assert(update@ =~= step_residual(x1@, x0@, h, f));
}

impl<T: Scalar, F: Flow<AD<T>>> ImplicitEuler<T, F> {
    /// The flow that is followed.
    pub closed spec fn flow_spec(&self) -> &F {
        &self.flow
    }

    /// The step size, as a constant among dual numbers.
    pub closed spec fn step_size(&self) -> AD<T> {
        self.h
    }

    /// The state that the step starts from.
    pub closed spec fn start(&self) -> Seq<AD<T>> {
        self.x0_owned@
    }

    /// The scheme before any step: it starts from the empty state.
    pub fn new(h: T, flow: F) -> (scheme: Self)
        ensures
            scheme.step_size() == AD::AD0(h),
            *scheme.flow_spec() == flow,
            scheme.start() == Seq::<AD<T>>::empty(),
    {
        ImplicitEuler { x0_owned: Vec::new(), flow, h: AD::AD0(h) }
    }
}

impl<T: Scalar, F: Flow<AD<T>>> Flow<AD<T>> for ImplicitEuler<T, F> {
    /// The candidate must be as long as the state that the step starts from.
    open spec fn accepts(&self, n: nat) -> bool {
        n == self.start().len() && self.flow_spec().accepts(n)
    }

    /// `residual(x1) = x1 - x0 - h * flow(x1)`.
    open spec fn field(&self, x: Seq<AD<T>>) -> Seq<AD<T>> {
        step_residual(x, self.start(), self.step_size(), self.flow_spec().field(x))
    }

    fn apply(&self, x: &Vec<AD<T>>) -> (dx: Vec<AD<T>>) {
        let mut update = self.flow.apply(x);
        finish_residual(x, &self.x0_owned, self.h, &mut update);
        update
    }
}

impl<T: Scalar, F: Flow<AD<T>>> Residual<T> for ImplicitEuler<T, F> {
    fn eval(&self, x_next: &Vec<AD<T>>, update: &mut Vec<AD<T>>) {
        *update = self.flow.apply(x_next);
        finish_residual(x_next, &self.x0_owned, self.h, update);
    }
}

impl<T: Scalar, F: Flow<AD<T>>> Residual1Step<T> for ImplicitEuler<T, F> {
    open spec fn step_accepts(&self, n: nat) -> bool {
        self.flow_spec().accepts(n)
    }

    open spec fn step_field(&self, x0: Seq<AD<T>>, x1: Seq<AD<T>>) -> Seq<AD<T>> {
        step_residual(x1, x0, self.step_size(), self.flow_spec().field(x1))
    }

    open spec fn previous(&self) -> Seq<AD<T>> {
        self.start()
    }

    fn update(&mut self, x0: Vec<AD<T>>) {
        self.x0_owned = x0;
    }
}

impl<T: Scalar, F: Flow<AD<T>>> Implicit<T> for ImplicitEuler<T, F> {

}

} // verus!
