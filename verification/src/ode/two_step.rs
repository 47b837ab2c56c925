//! A solver that steps from two states to the next, for schemes whose
//! residual looks two states back.
use crate::ad::ops::{lifted, values, ADArray, F64Array, PowOps};
use crate::ad::AD;
use crate::matrix::Matrix;
use crate::ode::one_step::{
    blank_row, default_step_size, is_blank_at, is_blank_from, is_time_axis, step_count, time_of,
    zero_vector, Failed,
};
use crate::ode::root_finder::{
    field_of, newton, newton_outcome, reports_failure, NewtonError, Outcome,
};
use crate::ode::traits::{Implicit, Inverse, Progress, Residual2Step, Silent, ODE};
use crate::scalar::{one, zero, Scalar};
use vstd::prelude::*;

verus! {

/// The residual of the step that follows the states `a` and `b`, as a
/// function of the candidate.
pub open spec fn second_function<T: Scalar, Scheme: Residual2Step<T>>(
    scheme: &Scheme,
    a: Seq<T>,
    b: Seq<T>,
) -> spec_fn(Seq<AD<T>>) -> Seq<AD<T>> {
    |x: Seq<AD<T>>| scheme.two_step_field(lifted(a), lifted(b), x)
}

/// What Newton's method comes to for the step that follows the states `a`
/// and `b`: the outcome of the iteration for the residual of that step,
/// started at `b`.
pub open spec fn second_outcome<T: Scalar + PowOps, Scheme: Residual2Step<T>, Inv: Inverse<T>>(
    scheme: &Scheme,
    inverter: &Inv,
    eps: T,
    a: Seq<T>,
    b: Seq<T>,
) -> Outcome<T> {
    newton_outcome(second_function(scheme, a, b), inverter, eps, lifted(b), 0)
}

/// Whether the state `c` is the step that follows the states `a` and `b`:
/// the root that Newton's method finds for that step.
pub open spec fn is_second_step<T: Scalar + PowOps, Scheme: Residual2Step<T>, Inv: Inverse<T>>(
    scheme: &Scheme,
    inverter: &Inv,
    eps: T,
    a: Seq<T>,
    b: Seq<T>,
    c: Seq<T>,
) -> bool {
    second_outcome(scheme, inverter, eps, a, b) == (Outcome::<T>::Root { x: lifted(c) })
}

/// Whether `e` is how Newton's method fails for the step that follows the
/// states `a` and `b`.
pub open spec fn is_second_failure<T: Scalar + PowOps, Scheme: Residual2Step<T>, Inv: Inverse<T>>(
    scheme: &Scheme,
    inverter: &Inv,
    eps: T,
    a: Seq<T>,
    b: Seq<T>,
    e: NewtonError<T>,
) -> bool {
    reports_failure(e, second_outcome(scheme, inverter, eps, a, b))
}

/// Whether the rows of `states` below `upto` are a trajectory of the
/// two-step scheme: the two given states first, then each state the step
/// that follows the two before it.
pub open spec fn is_two_step_trajectory<
    T: Scalar + PowOps,
    Scheme: Residual2Step<T>,
    Inv: Inverse<T>,
>(
    scheme: &Scheme,
    inverter: &Inv,
    eps: T,
    first: Seq<T>,
    second: Seq<T>,
    states: Seq<Seq<T>>,
    upto: int,
) -> bool {
    &&& 2 <= upto <= states.len()
    &&& states[0] == first
    &&& states[1] == second
    &&& forall|t: int|
        2 <= t < upto ==> #[trigger] is_second_step(
            scheme,
            inverter,
            eps,
            states[t - 2],
            states[t - 1],
            states[t],
        )
}

/// Whether two schemes step alike: they take the same states, and their
/// residuals for a step agree whatever the step.
pub open spec fn same_two_steps<T: Scalar, Scheme: Residual2Step<T>>(
    a: &Scheme,
    b: &Scheme,
) -> bool {
    &&& forall|n: nat| #[trigger] a.two_step_accepts(n) == b.two_step_accepts(n)
    &&& forall|x0: Seq<AD<T>>, x1: Seq<AD<T>>, x2: Seq<AD<T>>| #[trigger]
        a.two_step_field(x0, x1, x2) == b.two_step_field(x0, x1, x2)
}

/// A solver for a two-step scheme, whose steps Newton's method finds.
pub struct OdeTwoStep<T, Scheme, Inv> {
    scheme: Scheme,
    x0: Vec<AD<T>>,
    x1: Vec<AD<T>>,
    h: T,
    horizon: T,
    epsilon: T,
    with_progress: bool,
    inverter: Inv,
}

impl<T, Scheme, Inv> OdeTwoStep<T, Scheme, Inv> {
    /// The scheme.
    pub closed spec fn scheme_view(&self) -> Scheme {
        self.scheme
    }

    /// The state at time zero, as dual numbers.
    pub closed spec fn first_view(&self) -> Seq<AD<T>> {
        self.x0@
    }

    /// The state at time `h`, as dual numbers.
    pub closed spec fn second_view(&self) -> Seq<AD<T>> {
        self.x1@
    }

    /// The step size `h`.
    pub closed spec fn h_view(&self) -> T {
        self.h
    }

    /// The length `T` of the time span.
    pub closed spec fn horizon_view(&self) -> T {
        self.horizon
    }

    /// The tolerance below which a step's error must lie.
    pub closed spec fn epsilon_view(&self) -> T {
        self.epsilon
    }

    /// Whether a front end is asked to show progress.
    pub closed spec fn progress_view(&self) -> bool {
        self.with_progress
    }

    /// The inverter that Newton's method uses.
    pub closed spec fn inverter_view(&self) -> Inv {
        self.inverter
    }
}

impl<T: Scalar + PowOps, Scheme: Implicit<T> + Residual2Step<T>, Inv: Inverse<T>> OdeTwoStep<
    T,
    Scheme,
    Inv,
> {
    /// The number of states that a run records.
    pub open spec fn steps_spec(&self) -> usize {
        step_count(self.h_view(), self.horizon_view())
    }

    /// A solver with the step size 0.1, the time span 1 and the machine
    /// epsilon as tolerance, whose front end is asked to show progress.
    pub fn new(scheme: Scheme, x0: Vec<AD<T>>, x1: Vec<AD<T>>, inverter: Inv) -> (ode: Self)
        ensures
            ode.scheme_view() == scheme,
            ode.first_view() == x0@,
            ode.second_view() == x1@,
            ode.inverter_view() == inverter,
            ode.h_view() == default_step_size::<T>(),
            ode.horizon_view() == one::<T>(),
            ode.epsilon_view() == T::epsilon_spec(),
            ode.progress_view(),
    {
        OdeTwoStep {
            scheme,
            x0,
            x1,
            h: T::from_count(1).div(T::from_count(10)),
            horizon: T::from_count(1),
            epsilon: T::epsilon(),
            with_progress: true,
            inverter,
        }
    }

    /// Sets the tolerance below which the error of every step must lie.
    pub fn set_epsilon(&mut self, epsilon: T) -> (ode: &mut Self)
        ensures
            ode.epsilon_view() == epsilon,
            ode.h_view() == old(self).h_view(),
            ode.horizon_view() == old(self).horizon_view(),
            ode.progress_view() == old(self).progress_view(),
            ode.scheme_view() == old(self).scheme_view(),
            ode.first_view() == old(self).first_view(),
            ode.second_view() == old(self).second_view(),
            ode.inverter_view() == old(self).inverter_view(),
            *final(self) == *final(ode),
    {
        self.epsilon = epsilon;
        self
    }

    /// The number of states that a run records: `floor(T / h)`.
    pub fn steps(&self) -> (n: usize)
        ensures
            n == self.steps_spec(),
    {
        self.horizon.div(self.h).floor()
    }

    /// Whether the two given states have the same number of components.
    pub fn states_match(&self) -> (b: bool)
        ensures
            b == (self.first_view().len() == self.second_view().len()),
    {
        self.x0.len() == self.x1.len()
    }

    /// Whether a front end is asked to show progress.
    pub fn with_progress(&self) -> (b: bool)
        ensures
            b == self.progress_view(),
    {
        self.with_progress
    }
}

impl<T: Scalar + PowOps, Scheme: Implicit<T> + Residual2Step<T>, Inv: Inverse<T>> OdeTwoStep<
    T,
    Scheme,
    Inv,
> {
    /// The time span holds two steps, the two given states are equally
    /// long, and the scheme takes states of that length.
    pub open spec fn is_ready(&self) -> bool {
        &&& self.steps_spec() >= 2
        &&& self.first_view().len() == self.second_view().len()
        &&& self.scheme_view().two_step_accepts(self.second_view().len())
    }

    /// A run that completes hands back `floor(T / h)` times and as many
    /// states; the times are `t * h`, and the states are a trajectory of
    /// the scheme from the values of the two given states. A run that fails
    /// hands back the index of the step that Newton's method could not
    /// take, with its error; the times and states below that index are as
    /// in a run that completes, and from that index on nothing is recorded.
    pub open spec fn is_run(&self, out: Result<(Vec<T>, Matrix<T>), Failed<T>>) -> bool {
        let n = self.steps_spec() as int;
        match out {
            Ok((time, states)) => {
                &&& time@.len() == n
                &&& is_time_axis(time@, self.h_view(), n)
                &&& states.has_shape(n as nat, self.second_view().len())
                &&& is_two_step_trajectory(
                    &self.scheme_view(),
                    &self.inverter_view(),
                    self.epsilon_view(),
                    values(self.first_view()),
                    values(self.second_view()),
                    states@,
                    n,
                )
            },
            Err(failed) => {
                &&& 2 <= failed.step < n
                &&& failed.time@.len() == n
                &&& is_time_axis(failed.time@, self.h_view(), failed.step as int)
                &&& failed.states.has_shape(n as nat, self.second_view().len())
                &&& is_two_step_trajectory(
                    &self.scheme_view(),
                    &self.inverter_view(),
                    self.epsilon_view(),
                    values(self.first_view()),
                    values(self.second_view()),
                    failed.states@,
                    failed.step as int,
                )
                &&& is_second_failure(
                    &self.scheme_view(),
                    &self.inverter_view(),
                    self.epsilon_view(),
                    failed.states@[failed.step - 2],
                    failed.states@[failed.step - 1],
                    failed.error,
                )
                &&& is_blank_from(failed.time@, failed.states@, failed.step as int)
            },
        }
    }

    /// Runs the simulation and tells `progress` of every state recorded.
    #[allow(non_snake_case)]
    pub fn run_watched<Watch: Progress>(self, progress: &mut Watch) -> (out: Result<(Vec<T>, Matrix<T>), Failed<T>>)
        requires
            self.is_ready(),
        ensures
            self.is_run(out),
    {
        let ghost scheme = self.scheme_view();
        let ghost eps = self.epsilon_view();
        let ghost inverter = self.inverter_view();
        let ghost first = values(self.first_view());
        let ghost second = values(self.second_view());
        let mut ode = self;
        let n = ode.steps();
        let h = ode.h;
        let epsilon = ode.epsilon;
        let mut x0 = ode.x0.to_f64();
        let mut x1 = ode.x1.to_f64();
        let l = x0.len();
        let mut result: Matrix<T> = Matrix::zeros(n, l);
        let ghost blank = result@;
        result.set_row(0, &x0);
        result.set_row(1, &x1);
        proof {
            assert forall|t: int| 2 <= t < result@.len() implies result@[t] == blank_row::<T>(
                result@[t].len(),
            ) by {
                assert(result@[t] == blank[t]);
                assert(blank[t] =~= blank_row::<T>(blank[t].len()));
            }
        }
        let mut time = zero_vector(n);
        time.set(1, time_of(1, h));
        let mut J: Matrix<T> = Matrix::zeros(l, l);
        let mut slope_buffer: Vec<AD<T>> = x0.to_ad();
        let mut t: usize = 2;
        while t < n
            invariant
                2 <= t <= n,
                n == self.steps_spec(),
                scheme == self.scheme_view(),
                eps == self.epsilon_view(),
                epsilon == eps,
                inverter == self.inverter_view(),
                ode.inverter == inverter,
                h == self.h_view(),
                first == values(self.first_view()),
                second == values(self.second_view()),
                l == second.len(),
                same_two_steps(&ode.scheme, &scheme),
                scheme.two_step_accepts(l as nat),
                time@.len() == n,
                is_time_axis(time@, h, t as int),
                result.has_shape(n as nat, l as nat),
                J.has_shape(l as nat, l as nat),
                is_two_step_trajectory(&scheme, &inverter, eps, first, second, result@, t as int),
                is_blank_from(time@, result@, t as int),
                x0@ == result@[t - 2],
                x1@ == result@[t - 1],
            decreases n - t,
        {
            let ghost prior = ode.scheme;
            let ghost before = result@;
            let ghost before_time = time@;
            ode.scheme.update(x0.to_ad(), x1.to_ad());
            proof {
                assert(field_of(&ode.scheme) =~= second_function(&prior, x0@, x1@));
                assert(second_function(&prior, x0@, x1@) =~= second_function(&scheme, x0@, x1@));
            }
            match newton(epsilon, &ode.scheme, x1.to_ad(), &mut J, &mut slope_buffer, &ode.inverter) {
                Ok(x2) => {
                    proof {
                        assert forall|i: int| 0 <= i < x2@.len() implies x2@[i] == lifted(
                            values(x2@),
                        )[i] by {
                            assert(x2@[i]@.len() == lifted(x1@)[i]@.len());
                            x2@[i].lemma_view_round_trip();
                        }
                        assert(x2@ =~= lifted(values(x2@)));
                    }
                    let x2 = x2.to_f64();
                    result.set_row(t, &x2);
                    time.set(t, time_of(t, h));
                    proof {
                        assert(is_second_step(&scheme, &inverter, eps, x0@, x1@, x2@));
                        assert forall|k: int| t < k < result@.len() implies #[trigger] is_blank_at(
                            time@,
                            result@,
                            k,
                        ) by {
                            assert(is_blank_at(before_time, before, k));
                        }
                    }
                    x0 = x1;
                    x1 = x2;
                },
                Err(error) => {
                    proof {
                        assert(is_second_failure(&scheme, &inverter, eps, x0@, x1@, error));
                    }
                    return Err(Failed { error, step: t, time, states: result });
                },
            }
            progress.tick(t + 1, n);
            t = t + 1;
        }
        Ok((time, result))
    }
}

impl<T: Scalar + PowOps, Scheme: Implicit<T> + Residual2Step<T>, Inv: Inverse<T>> ODE<
    T,
> for OdeTwoStep<T, Scheme, Inv> {
    /// The times and the states, row by row; or the failure, with the
    /// times and states as far as the run came.
    type Output = Result<(Vec<T>, Matrix<T>), Failed<T>>;

    open spec fn step_size_spec(&self) -> T {
        self.h_view()
    }

    open spec fn horizon_spec(&self) -> T {
        self.horizon_view()
    }

    open spec fn with_progress_spec(&self) -> bool {
        self.progress_view()
    }

    open spec fn same_problem(&self, other: &Self) -> bool {
        &&& self.scheme_view() == other.scheme_view()
        &&& self.first_view() == other.first_view()
        &&& self.second_view() == other.second_view()
        &&& self.epsilon_view() == other.epsilon_view()
        &&& self.inverter_view() == other.inverter_view()
    }

    open spec fn ready(&self) -> bool {
        self.is_ready()
    }

    open spec fn run_ensures(&self, out: Result<(Vec<T>, Matrix<T>), Failed<T>>) -> bool {
        self.is_run(out)
    }

    fn set_step_size(&mut self, h: T) -> (ode: &mut Self) {
        self.h = h;
        self
    }

    fn set_t(&mut self, t: T) -> (ode: &mut Self) {
        self.horizon = t;
        self
    }

    fn set_with_progress(&mut self, with_progress: bool) -> (ode: &mut Self) {
        self.with_progress = with_progress;
        self
    }

    fn run(self) -> (out: Result<(Vec<T>, Matrix<T>), Failed<T>>) {
        let mut silent = Silent;
        self.run_watched(&mut silent)
    }
}

} // verus!
