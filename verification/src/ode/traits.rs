//! What a solver asks of the equation and of the stepping scheme.
use crate::ad::AD;
use crate::matrix::{rectangular, Matrix};
use crate::scalar::Scalar;
use vstd::prelude::*;

verus! {

/// A vector field: a function from a state to a vector of the same length.
/// For an equation it is the right-hand side, the state's rate of change.
///
/// The field is a function in the strict sense: `apply` returns what `field`
/// names, whenever and wherever it is called. The specification functions
/// default to unspecified values, so an implementation that is compiled
/// without the verifier supplies `apply` alone.
pub trait Flow<S> {
    /// Whether the field is defined on states of `n` components.
    open spec fn accepts(&self, n: nat) -> bool {
        arbitrary()
    }

    /// The field at `x`.
    open spec fn field(&self, x: Seq<S>) -> Seq<S> {
        arbitrary()
    }

    fn apply(&self, x: &Vec<S>) -> (dx: Vec<S>)
        requires
            self.accepts(x@.len()),
        ensures
            dx@ == self.field(x@),
            dx@.len() == x@.len(),
    ;
}

/// A vector field of dual numbers whose root is sought: it is zero exactly
/// at the state that a step is to arrive at.
pub trait Residual<T: Scalar>: Flow<AD<T>> {
    /// Writes the residual at `x_next` into `update`, whatever it held.
    fn eval(&self, x_next: &Vec<AD<T>>, update: &mut Vec<AD<T>>)
        requires
            self.accepts(x_next@.len()),
        ensures
            final(update)@ == self.field(x_next@),
            final(update)@.len() == x_next@.len(),
    {
        *update = self.apply(x_next);
    }
}

/// A scheme whose step is the root of its residual.
pub trait Implicit<T: Scalar>: Residual<T> {

}

/// A residual that depends on the state before the step.
pub trait Residual1Step<T: Scalar>: Residual<T> {
    /// Whether the scheme can step states of `n` components.
    open spec fn step_accepts(&self, n: nat) -> bool {
        arbitrary()
    }

    /// The residual at `x1` of the step that starts from `x0`.
    open spec fn step_field(&self, x0: Seq<AD<T>>, x1: Seq<AD<T>>) -> Seq<AD<T>> {
        arbitrary()
    }

    /// The state before the step.
    open spec fn previous(&self) -> Seq<AD<T>> {
        arbitrary()
    }

    /// Sets the state before the step. Nothing else of the scheme changes,
    /// and from now on the residual is that of the step from `x0`.
    fn update(&mut self, x0: Vec<AD<T>>)
        ensures
            final(self).previous() == x0@,
            forall|n: nat| #[trigger] final(self).step_accepts(n) == old(self).step_accepts(n),
            forall|a: Seq<AD<T>>, b: Seq<AD<T>>| #[trigger]
                final(self).step_field(a, b) == old(self).step_field(a, b),
            forall|n: nat| #[trigger]
                final(self).accepts(n) == (n == x0@.len() && old(self).step_accepts(n)),
            forall|x: Seq<AD<T>>| #[trigger]
                final(self).field(x) == old(self).step_field(x0@, x),
    ;
}

/// A residual that depends on the two states before the step.
pub trait Residual2Step<T: Scalar>: Residual<T> {
    /// Whether the scheme can step states of `n` components.
    open spec fn two_step_accepts(&self, n: nat) -> bool {
        arbitrary()
    }

    /// The residual at `x2` of the step that follows `x0` and `x1`.
    open spec fn two_step_field(
        &self,
        x0: Seq<AD<T>>,
        x1: Seq<AD<T>>,
        x2: Seq<AD<T>>,
    ) -> Seq<AD<T>> {
        arbitrary()
    }

    /// The scheme with the step size `h`, before the step that follows `x0`
    /// and `x1`.
    fn new(x0: Vec<AD<T>>, x1: Vec<AD<T>>, h: T) -> Self where Self: Sized;

    /// Sets the two states before the step. Nothing else of the scheme
    /// changes, and from now on the residual is that of the step that
    /// follows `x0` and `x1`.
    fn update(&mut self, x0: Vec<AD<T>>, x1: Vec<AD<T>>)
        ensures
            forall|n: nat| #[trigger]
                final(self).two_step_accepts(n) == old(self).two_step_accepts(n),
            forall|a: Seq<AD<T>>, b: Seq<AD<T>>, c: Seq<AD<T>>| #[trigger]
                final(self).two_step_field(a, b, c) == old(self).two_step_field(a, b, c),
            forall|n: nat| #[trigger]
                final(self).accepts(n) == (n == x1@.len() && old(self).two_step_accepts(n)),
            forall|x: Seq<AD<T>>| #[trigger]
                final(self).field(x) == old(self).two_step_field(x0@, x1@, x),
    ;
}

/// A scheme whose step is computed directly from the state before it.
pub trait Explicit<T> {
    /// Whether the scheme can step states of `n` components.
    open spec fn step_accepts(&self, n: nat) -> bool {
        arbitrary()
    }

    /// The state after the step from `x`.
    open spec fn next_spec(&self, x: Seq<T>) -> Seq<T> {
        arbitrary()
    }

    fn next(&self, x: &Vec<T>) -> (x1: Vec<T>)
        requires
            self.step_accepts(x@.len()),
        ensures
            x1@ == self.next_spec(x@),
            x1@.len() == x@.len(),
    ;
}

/// The dense linear algebra behind Newton's method: the inverse of a matrix,
/// and the product of a matrix with a column vector.
///
/// Both are functions of their arguments: `inv` hands back what `answer`
/// names, an inverse or the reason why there is none, and `dot` hands back
/// what `product_answer` names. Nothing is taken for granted of the inverse
/// itself, not even its shape, which a solver checks; of the product, that
/// it has one entry for each row. As for the other traits, the
/// specification functions default to unspecified values.
pub trait Inverse<T> {
    /// What the inverter answers for the matrix `m`: the rows of the
    /// inverse, or the report of a failure.
    open spec fn answer(&self, m: Seq<Seq<T>>) -> Result<Seq<Seq<T>>, Seq<char>> {
        arbitrary()
    }

    /// The product of the matrix `m` with the column vector `v`.
    open spec fn product_answer(&self, m: Seq<Seq<T>>, v: Seq<T>) -> Seq<T> {
        arbitrary()
    }

    /// The inverse of `m`, or the reason why there is none.
    fn inv(&self, m: &Matrix<T>) -> (r: Result<Matrix<T>, String>)
        ensures
            match r {
                Ok(inverse) => self.answer(m@) == Ok::<Seq<Seq<T>>, Seq<char>>(inverse@),
                Err(report) => self.answer(m@) == Err::<Seq<Seq<T>>, Seq<char>>(report@),
            },
    ;

    /// The product of `m` with the column vector `v`, which must have an
    /// entry for each column of `m`.
    fn dot(&self, m: &Matrix<T>, v: &Vec<T>) -> (w: Vec<T>)
        requires
            rectangular(m@, v@.len()),
        ensures
            w@ == self.product_answer(m@, v@),
            w@.len() == m@.len(),
    ;
}

/// Something that is told how far a run has come, such as a progress bar.
/// Nothing is asked of it.
pub trait Progress {
    /// `done` of `total` states are recorded.
    fn tick(&mut self, done: usize, total: usize);
}

/// A watcher of runs that shows nothing.
#[derive(Clone, Copy, Debug, Default)]
pub struct Silent;

impl Progress for Silent {
    fn tick(&mut self, done: usize, total: usize) {
    }
}

/// What every solver offers: a step size, a time span, and a run.
///
/// As for the other traits, the specification functions default to
/// unspecified values.
pub trait ODE<T>: Sized {
    /// What a run hands back.
    type Output;

    /// The step size `h`.
    open spec fn step_size_spec(&self) -> T {
        arbitrary()
    }

    /// The length `T` of the time span.
    open spec fn horizon_spec(&self) -> T {
        arbitrary()
    }

    /// Whether a front end is asked to show the progress of a run.
    open spec fn with_progress_spec(&self) -> bool {
        arbitrary()
    }

    /// Whether `self` and `other` agree in everything but step size, time
    /// span and progress flag.
    open spec fn same_problem(&self, other: &Self) -> bool {
        arbitrary()
    }

    /// Whether a run can start: the time span holds a step, and the scheme
    /// takes the initial state.
    open spec fn ready(&self) -> bool {
        arbitrary()
    }

    /// Whether `out` is what a run of `self` may hand back.
    open spec fn run_ensures(&self, out: Self::Output) -> bool {
        arbitrary()
    }

    /// Set the step size `h` which is used throughout the whole computation.
    fn set_step_size(&mut self, h: T) -> (ode: &mut Self)
        ensures
            ode.step_size_spec() == h,
            ode.horizon_spec() == old(self).horizon_spec(),
            ode.with_progress_spec() == old(self).with_progress_spec(),
            ode.same_problem(old(self)),
            *final(self) == *final(ode),
    ;

    /// Set the total runtime of the simulation.
    fn set_t(&mut self, t: T) -> (ode: &mut Self)
        ensures
            ode.horizon_spec() == t,
            ode.step_size_spec() == old(self).step_size_spec(),
            ode.with_progress_spec() == old(self).with_progress_spec(),
            ode.same_problem(old(self)),
            *final(self) == *final(ode),
    ;

    /// Ask a front end to show, or not to show, the progress of a run. The
    /// run itself shows nothing.
    fn set_with_progress(&mut self, with_progress: bool) -> (ode: &mut Self)
        ensures
            ode.with_progress_spec() == with_progress,
            ode.step_size_spec() == old(self).step_size_spec(),
            ode.horizon_spec() == old(self).horizon_spec(),
            ode.same_problem(old(self)),
            *final(self) == *final(ode),
    ;

    /// Consumes the solver and runs the simulation.
    fn run(self) -> (out: Self::Output)
        requires
            self.ready(),
        ensures
            self.run_ensures(out),
    ;
}

/// A solver that steps from one state.
pub trait OneStep<T> {
    type Scheme;

    /// The solver's scheme.
    open spec fn scheme_spec(&self) -> Self::Scheme {
        arbitrary()
    }

    /// The state at time zero.
    open spec fn initial_spec(&self) -> Seq<T> {
        arbitrary()
    }

    /// A solver for `scheme` that starts from `initial`.
    fn new(scheme: Self::Scheme, initial: Vec<T>) -> (ode: Self) where Self: Sized
        ensures
            ode.scheme_spec() == scheme,
            ode.initial_spec() == initial@,
    ;
}

/// A solver that steps from two states.
pub trait TwoStep<T> {
    type Scheme;

    /// A solver for `residual` that starts from `x0` and `x1`.
    fn new(residual: Self::Scheme, x0: Vec<T>, x1: Vec<T>) -> Self where Self: Sized;
}

} // verus!
