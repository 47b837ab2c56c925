//! Solvers that step from one state to the next with a fixed step size `h`
//! over the time span from 0 to `T`.
//!
//! A solver is initialized with its scheme and its initial state, and made
//! ready by setting step size and time span. It is run once: the run
//! consumes it, so there is no running a solver again. A run records
//! `floor(T / h)` states, the initial state first, each at the time `t * h`
//! of its index `t`, and ends in one of two ways. It completes and hands
//! back the times and the states; or, for an implicit scheme, it fails at
//! the first step that Newton's method cannot take, and hands back the
//! error with the times and states recorded until then. Nothing is retried.
use crate::ad::ops::{lifted, values, ADArray, F64Array, PowOps};
use crate::ad::AD;
use crate::matrix::Matrix;
use crate::ode::root_finder::{
    field_of, newton, newton_outcome, newton_step, newton_update, reports_failure, NewtonError,
    Outcome,
};
use crate::ode::traits::{
    Explicit, Implicit, Inverse, OneStep, Progress, Residual1Step, Silent, ODE,
};
use crate::scalar::{one, zero, Scalar};
use vstd::prelude::*;

verus! {

/// The number of states that a run records: `floor(T / h)`.
pub open spec fn step_count<T: Scalar>(h: T, horizon: T) -> usize {
    horizon.div_spec(h).floor_spec()
}

/// The default step size: one tenth.
pub open spec fn default_step_size<T: Scalar>() -> T {
    one::<T>().div_spec(T::count_spec(10))
}

/// Whether `time` holds zero first and then, at each index `t` below
/// `upto`, the time `t * h`.
pub open spec fn is_time_axis<T: Scalar>(time: Seq<T>, h: T, upto: int) -> bool {
    &&& upto <= time.len()
    &&& time.len() > 0 ==> time[0] == zero::<T>()
    &&& forall|t: int| 1 <= t < upto ==> #[trigger] time[t] == T::count_spec(t as nat).mul_spec(h)
}

/// Whether nothing is recorded yet from the index `from` on: the times
/// there are zero, and so is every component of the states.
pub open spec fn is_blank_from<T: Scalar>(time: Seq<T>, states: Seq<Seq<T>>, from: int) -> bool {
    forall|t: int| from <= t < states.len() ==> #[trigger] is_blank_at(time, states, t)
}

/// Whether nothing is recorded at the index `t`.
pub open spec fn is_blank_at<T: Scalar>(time: Seq<T>, states: Seq<Seq<T>>, t: int) -> bool {
    time[t] == zero::<T>() && states[t] == blank_row::<T>(states[t].len())
}

/// A row of `len` zeros.
pub open spec fn blank_row<T: Scalar>(len: nat) -> Seq<T> {
    Seq::new(len, |c: int| zero::<T>())
}

/// Whether the rows of `states` below `upto` are a trajectory of the
/// explicit scheme: the initial state first, then each state the scheme's
/// step from the one before it.
pub open spec fn is_explicit_trajectory<T, Scheme: Explicit<T>>(
    scheme: &Scheme,
    initial: Seq<T>,
    states: Seq<Seq<T>>,
    upto: int,
) -> bool {
    &&& 1 <= upto <= states.len()
    &&& states[0] == initial
    &&& forall|t: int| 1 <= t < upto ==> #[trigger] states[t] == scheme.next_spec(states[t - 1])
}

/// The time of the step with index `t`.
pub(crate) fn time_of<T: Scalar>(t: usize, h: T) -> (r: T)
    ensures
        r == T::count_spec(t as nat).mul_spec(h),
{
    T::from_count(t).mul(h)
}

/// A vector of `n` zeros.
pub(crate) fn zero_vector<T: Scalar>(n: usize) -> (v: Vec<T>)
    ensures
        v@.len() == n,
        forall|i: int| 0 <= i < n ==> v@[i] == zero::<T>(),
{
    let mut v: Vec<T> = Vec::new();
    let mut i: usize = 0;
    while i < n
        invariant
            i <= n,
            v@.len() == i,
            forall|k: int| 0 <= k < i ==> v@[k] == zero::<T>(),
        decreases n - i,
    {
        v.push(T::from_count(0));
        i = i + 1;
    }
    v
}

/// A solver for an explicit scheme.
pub struct OdeEx<T, Scheme> {
    scheme: Scheme,
    initial: Vec<T>,
    h: T,
    horizon: T,
    with_progress: bool,
}

impl<T, Scheme> OdeEx<T, Scheme> {
    /// The scheme.
    pub closed spec fn scheme_view(&self) -> Scheme {
        self.scheme
    }

    /// The state at time zero.
    pub closed spec fn initial_view(&self) -> Seq<T> {
        self.initial@
    }

    /// The step size `h`.
    pub closed spec fn h_view(&self) -> T {
        self.h
    }

    /// The length `T` of the time span.
    pub closed spec fn horizon_view(&self) -> T {
        self.horizon
    }

    /// Whether a front end is asked to show progress.
    pub closed spec fn progress_view(&self) -> bool {
        self.with_progress
    }
}

impl<T: Scalar, Scheme: Explicit<T>> OdeEx<T, Scheme> {
    /// The number of states that a run records.
    pub open spec fn steps_spec(&self) -> usize {
        step_count(self.h_view(), self.horizon_view())
    }

    /// The number of states that a run records: `floor(T / h)`.
    pub fn steps(&self) -> (n: usize)
        ensures
            n == self.steps_spec(),
    {
        self.horizon.div(self.h).floor()
    }

    /// The step size.
    pub fn step_size(&self) -> (h: T)
        ensures
            h == self.h_view(),
    {
        self.h
    }

    /// Whether a front end is asked to show progress.
    pub fn with_progress(&self) -> (b: bool)
        ensures
            b == self.progress_view(),
    {
        self.with_progress
    }

    /// The number of components of the state.
    pub fn dimension(&self) -> (d: usize)
        ensures
            d == self.initial_view().len(),
    {
        self.initial.len()
    }

    /// The trajectory before the first step: `n` rows, of which the first
    /// holds the initial state, and `n` times, all zero.
    pub fn start(&self, n: usize) -> (r: (Vec<T>, Matrix<T>, Vec<T>))
        requires
            n >= 1,
        ensures
            r.0@.len() == n,
            is_time_axis(r.0@, self.h_view(), 1),
            r.1.has_shape(n as nat, self.initial_view().len()),
            is_explicit_trajectory(&self.scheme_view(), self.initial_view(), r.1@, 1),
            is_blank_from(r.0@, r.1@, 1),
            r.2@ == self.initial_view(),
    {
        let mut x0: Vec<T> = Vec::with_capacity(self.initial.len());
        let mut i: usize = 0;
        while i < self.initial.len()
            invariant
                i <= self.initial@.len(),
                x0@ == self.initial@.take(i as int),
            decreases self.initial@.len() - i,
        {
            x0.push(self.initial[i]);
            i = i + 1;
            assert(x0@ =~= self.initial@.take(i as int));
        }
        assert(self.initial@.take(self.initial@.len() as int) =~= self.initial@);
        let mut result: Matrix<T> = Matrix::zeros(n, x0.len());
        let ghost blank = result@;
        result.set_row(0, &x0);
        let time = zero_vector(n);
        proof {
            assert forall|t: int| 1 <= t < result@.len() implies #[trigger] is_blank_at(
                time@,
                result@,
                t,
            ) by {
                assert(result@[t] == blank[t]);
                assert(blank[t] =~= blank_row::<T>(blank[t].len()));
            }
        }
        (time, result, x0)
    }

    /// The step with index `t`: from the state `x0` at index `t - 1` to the
    /// next, which is recorded with its time and handed back.
    pub fn execute(&self, t: usize, x0: Vec<T>, result: &mut Matrix<T>, time: &mut Vec<T>) -> (x1:
        Vec<T>)
        requires
            1 <= t < old(result).rows_spec(),
            old(result).has_shape(old(time)@.len(), x0@.len()),
            self.scheme_view().step_accepts(x0@.len()),
        ensures
            x1@ == self.scheme_view().next_spec(x0@),
            x1@.len() == x0@.len(),
            final(result).has_shape(old(result).rows_spec(), old(result).cols_spec()),
            final(result)@ == old(result)@.update(t as int, x1@),
            final(time)@ == old(time)@.update(
                t as int,
                T::count_spec(t as nat).mul_spec(self.h_view()),
            ),
    {
        let x1 = self.scheme.next(&x0);
        result.set_row(t, &x1);
        time.set(t, time_of(t, self.h));
        x1
    }
}

impl<T: Scalar, Scheme: Explicit<T>> OdeEx<T, Scheme> {
    /// Whether a run can start: the time span holds a step, and the scheme
    /// takes the initial state.
    pub open spec fn is_ready(&self) -> bool {
        self.steps_spec() >= 1 && self.scheme_view().step_accepts(self.initial_view().len())
    }

    /// There are `floor(T / h)` times and as many states; the times are
    /// `t * h`, and the states are the scheme's trajectory from the initial
    /// state.
    pub open spec fn is_run(&self, out: (Vec<T>, Matrix<T>)) -> bool {
        let n = self.steps_spec() as int;
        &&& out.0@.len() == n
        &&& is_time_axis(out.0@, self.h_view(), n)
        &&& out.1.has_shape(n as nat, self.initial_view().len())
        &&& is_explicit_trajectory(&self.scheme_view(), self.initial_view(), out.1@, n)
    }

    /// Runs the simulation and tells `progress` of every state recorded.
    pub fn run_watched<Watch: Progress>(self, progress: &mut Watch) -> (out: (Vec<T>, Matrix<T>))
        requires
            self.is_ready(),
        ensures
            self.is_run(out),
    {
        let n = self.steps();
        let (mut time, mut result, mut x0) = self.start(n);
        let mut t: usize = 1;
        while t < n
            invariant
                1 <= t <= n,
                n == self.steps_spec(),
                time@.len() == n,
                is_time_axis(time@, self.h_view(), t as int),
                result.has_shape(n as nat, self.initial_view().len()),
                is_explicit_trajectory(&self.scheme_view(), self.initial_view(), result@, t as int),
                x0@ == result@[t - 1],
                x0@.len() == self.initial_view().len(),
                self.scheme_view().step_accepts(self.initial_view().len()),
            decreases n - t,
        {
            x0 = self.execute(t, x0, &mut result, &mut time);
            progress.tick(t + 1, n);
            t = t + 1;
        }
        (time, result)
    }
}

impl<T: Scalar, Scheme: Explicit<T>> OneStep<T> for OdeEx<T, Scheme> {
    type Scheme = Scheme;

    open spec fn scheme_spec(&self) -> Scheme {
        self.scheme_view()
    }

    open spec fn initial_spec(&self) -> Seq<T> {
        self.initial_view()
    }

    /// A solver with the step size 0.1 and the time span 1, whose front end
    /// is asked to show progress.
    fn new(scheme: Scheme, initial: Vec<T>) -> (ode: Self)
        ensures
            ode.h_view() == default_step_size::<T>(),
            ode.horizon_view() == one::<T>(),
            ode.progress_view(),
    {
        OdeEx {
            scheme,
            initial,
            h: T::from_count(1).div(T::from_count(10)),
            horizon: T::from_count(1),
            with_progress: true,
        }
    }
}

impl<T: Scalar, Scheme: Explicit<T>> ODE<T> for OdeEx<T, Scheme> {
    /// The times and the states, row by row.
    type Output = (Vec<T>, Matrix<T>);

    open spec fn step_size_spec(&self) -> T {
        self.h_view()
    }

    open spec fn horizon_spec(&self) -> T {
        self.horizon_view()
    }

    open spec fn with_progress_spec(&self) -> bool {
        self.progress_view()
    }

    open spec fn same_problem(&self, other: &Self) -> bool {
        self.scheme_view() == other.scheme_view() && self.initial_view() == other.initial_view()
    }

    open spec fn ready(&self) -> bool {
        self.is_ready()
    }

    open spec fn run_ensures(&self, out: (Vec<T>, Matrix<T>)) -> bool {
        self.is_run(out)
    }

    fn set_step_size(&mut self, h: T) -> (ode: &mut Self) {
        self.h = h;
        self
    }

    fn set_t(&mut self, t: T) -> (ode: &mut Self) {
        self.horizon = t;
        self
    }

    fn set_with_progress(&mut self, with_progress: bool) -> (ode: &mut Self) {
        self.with_progress = with_progress;
        self
    }

    fn run(self) -> (out: (Vec<T>, Matrix<T>)) {
        let mut silent = Silent;
        self.run_watched(&mut silent)
    }
}

/// Where Newton's method is started for a step.
#[derive(Clone, Copy, Debug, PartialEq, Eq, Structural)]
pub enum Seeding {
    /// At the state before the step.
    Previous,
    /// At the state before the step minus the residual there. For the Euler
    /// schemes this is the explicit Euler step.
    Predictor,
}

/// The state at which Newton's method is started for the step from `a`.
pub open spec fn seed_spec<T: Scalar, Scheme: Residual1Step<T>>(
    scheme: &Scheme,
    seeding: Seeding,
    a: Seq<T>,
) -> Seq<AD<T>> {
    match seeding {
        Seeding::Previous => lifted(a),
        Seeding::Predictor => newton_update(
            lifted(a),
            values(scheme.step_field(lifted(a), lifted(a))),
        ),
    }
}

/// The residual of the step from the state `a`, as a function of the
/// candidate.
pub open spec fn step_function<T: Scalar, Scheme: Residual1Step<T>>(
    scheme: &Scheme,
    a: Seq<T>,
) -> spec_fn(Seq<AD<T>>) -> Seq<AD<T>> {
    |x: Seq<AD<T>>| scheme.step_field(lifted(a), x)
}

/// What Newton's method comes to for the step from the state `a`: the
/// outcome of the iteration for the residual of that step, from the seed.
pub open spec fn step_outcome<T: Scalar + PowOps, Scheme: Residual1Step<T>, Inv: Inverse<T>>(
    scheme: &Scheme,
    inverter: &Inv,
    eps: T,
    seeding: Seeding,
    a: Seq<T>,
) -> Outcome<T> {
    newton_outcome(step_function(scheme, a), inverter, eps, seed_spec(scheme, seeding, a), 0)
}

/// Whether `e` is how Newton's method fails for the step from the state
/// `a`.
pub open spec fn is_step_failure<T: Scalar + PowOps, Scheme: Residual1Step<T>, Inv: Inverse<T>>(
    scheme: &Scheme,
    inverter: &Inv,
    eps: T,
    seeding: Seeding,
    a: Seq<T>,
    e: NewtonError<T>,
) -> bool {
    reports_failure(e, step_outcome(scheme, inverter, eps, seeding, a))
}

/// Whether the state `b` is the step from the state `a`: the root that
/// Newton's method finds for that step.
pub open spec fn is_implicit_step<T: Scalar + PowOps, Scheme: Residual1Step<T>, Inv: Inverse<T>>(
    scheme: &Scheme,
    inverter: &Inv,
    eps: T,
    seeding: Seeding,
    a: Seq<T>,
    b: Seq<T>,
) -> bool {
    step_outcome(scheme, inverter, eps, seeding, a) == (Outcome::<T>::Root { x: lifted(b) })
}

/// Whether the rows of `states` below `upto` are a trajectory of the
/// implicit scheme: the initial state first, then each state the step from
/// the one before it.
pub open spec fn is_implicit_trajectory<
    T: Scalar + PowOps,
    Scheme: Residual1Step<T>,
    Inv: Inverse<T>,
>(
    scheme: &Scheme,
    inverter: &Inv,
    eps: T,
    seeding: Seeding,
    initial: Seq<T>,
    states: Seq<Seq<T>>,
    upto: int,
) -> bool {
    &&& 1 <= upto <= states.len()
    &&& states[0] == initial
    &&& forall|t: int|
        1 <= t < upto ==> #[trigger] is_implicit_step(
            scheme,
            inverter,
            eps,
            seeding,
            states[t - 1],
            states[t],
        )
}

/// Whether two schemes step alike: they take the same states, and their
/// residuals for a step agree whatever the step.
pub open spec fn same_steps<T: Scalar, Scheme: Residual1Step<T>>(a: &Scheme, b: &Scheme) -> bool {
    &&& forall|n: nat| #[trigger] a.step_accepts(n) == b.step_accepts(n)
    &&& forall|x0: Seq<AD<T>>, x1: Seq<AD<T>>| #[trigger]
        a.step_field(x0, x1) == b.step_field(x0, x1)
}

/// Two trajectories of one solver agree as far as both go: each state is
/// decided by the one before it.
pub proof fn lemma_trajectories_agree<T: Scalar + PowOps, Scheme: Residual1Step<T>, Inv: Inverse<T>>(
    scheme: &Scheme,
    inverter: &Inv,
    eps: T,
    seeding: Seeding,
    initial: Seq<T>,
    first: Seq<Seq<T>>,
    upto_first: int,
    second: Seq<Seq<T>>,
    upto_second: int,
    t: int,
)
    requires
        is_implicit_trajectory(scheme, inverter, eps, seeding, initial, first, upto_first),
        is_implicit_trajectory(scheme, inverter, eps, seeding, initial, second, upto_second),
        0 <= t < upto_first,
        t < upto_second,
    ensures
        first[t] == second[t],
    decreases t,
{
    if t > 0 {
        lemma_trajectories_agree(
            scheme,
            inverter,
            eps,
            seeding,
            initial,
            first,
            upto_first,
            second,
            upto_second,
            t - 1,
        );
        assert(is_implicit_step(scheme, inverter, eps, seeding, first[t - 1], first[t]));
        assert(is_implicit_step(scheme, inverter, eps, seeding, second[t - 1], second[t]));
        assert(lifted(first[t]) == lifted(second[t]));
        crate::ad::ops::lemma_values_of_lifted(first[t]);
        crate::ad::ops::lemma_values_of_lifted(second[t]);
    }
}

/// A run that Newton's method brought to an end before the time span was
/// covered.
#[derive(Debug)]
pub struct Failed<T> {
    /// Why the step failed.
    pub error: NewtonError<T>,
    /// The index of the step that failed; the states below it are valid.
    pub step: usize,
    /// The times, as far as the run came.
    pub time: Vec<T>,
    /// The states, as far as the run came.
    pub states: Matrix<T>,
}

/// A solver for an implicit scheme, whose steps Newton's method finds.
pub struct OdeIm<T, Scheme, Inv> {
    scheme: Scheme,
    initial: Vec<T>,
    h: T,
    horizon: T,
    epsilon: T,
    seeding: Seeding,
    with_progress: bool,
    inverter: Inv,
}

impl<T, Scheme, Inv> OdeIm<T, Scheme, Inv> {
    /// Where Newton's method is started for a step.
    pub closed spec fn seeding_view(&self) -> Seeding {
        self.seeding
    }

    /// The scheme.
    pub closed spec fn scheme_view(&self) -> Scheme {
        self.scheme
    }

    /// The state at time zero.
    pub closed spec fn initial_view(&self) -> Seq<T> {
        self.initial@
    }

    /// The step size `h`.
    pub closed spec fn h_view(&self) -> T {
        self.h
    }

    /// The length `T` of the time span.
    pub closed spec fn horizon_view(&self) -> T {
        self.horizon
    }

    /// The tolerance below which a step's error must lie.
    pub closed spec fn epsilon_view(&self) -> T {
        self.epsilon
    }

    /// Whether a front end is asked to show progress.
    pub closed spec fn progress_view(&self) -> bool {
        self.with_progress
    }

    /// The inverter that Newton's method uses.
    pub closed spec fn inverter_view(&self) -> Inv {
        self.inverter
    }
}

impl<T: Scalar + PowOps, Scheme: Implicit<T> + Residual1Step<T>, Inv: Inverse<T>> OdeIm<
    T,
    Scheme,
    Inv,
> {
    /// The number of states that a run records.
    pub open spec fn steps_spec(&self) -> usize {
        step_count(self.h_view(), self.horizon_view())
    }

    /// A solver with the step size 0.1, the time span 1 and the machine
    /// epsilon as tolerance, whose front end is asked to show progress.
    pub fn new(scheme: Scheme, initial: Vec<T>, inverter: Inv) -> (ode: Self)
        ensures
            ode.scheme_view() == scheme,
            ode.initial_view() == initial@,
            ode.inverter_view() == inverter,
            ode.h_view() == default_step_size::<T>(),
            ode.horizon_view() == one::<T>(),
            ode.epsilon_view() == T::epsilon_spec(),
            ode.seeding_view() == Seeding::Previous,
            ode.progress_view(),
    {
        OdeIm {
            scheme,
            initial,
            h: T::from_count(1).div(T::from_count(10)),
            horizon: T::from_count(1),
            epsilon: T::epsilon(),
            seeding: Seeding::Previous,
            with_progress: true,
            inverter,
        }
    }

    /// Sets the tolerance below which the error of every step must lie.
    pub fn set_epsilon(&mut self, epsilon: T) -> (ode: &mut Self)
        ensures
            ode.epsilon_view() == epsilon,
            ode.h_view() == old(self).h_view(),
            ode.horizon_view() == old(self).horizon_view(),
            ode.progress_view() == old(self).progress_view(),
            ode.scheme_view() == old(self).scheme_view(),
            ode.initial_view() == old(self).initial_view(),
            ode.inverter_view() == old(self).inverter_view(),
            ode.seeding_view() == old(self).seeding_view(),
            *final(self) == *final(ode),
    {
        self.epsilon = epsilon;
        self
    }

    /// Sets where Newton's method is started for a step.
    pub fn set_seeding(&mut self, seeding: Seeding) -> (ode: &mut Self)
        ensures
            ode.seeding_view() == seeding,
            ode.epsilon_view() == old(self).epsilon_view(),
            ode.h_view() == old(self).h_view(),
            ode.horizon_view() == old(self).horizon_view(),
            ode.progress_view() == old(self).progress_view(),
            ode.scheme_view() == old(self).scheme_view(),
            ode.initial_view() == old(self).initial_view(),
            ode.inverter_view() == old(self).inverter_view(),
            *final(self) == *final(ode),
    {
        self.seeding = seeding;
        self
    }

    /// The number of states that a run records: `floor(T / h)`.
    pub fn steps(&self) -> (n: usize)
        ensures
            n == self.steps_spec(),
    {
        self.horizon.div(self.h).floor()
    }

    /// The step size.
    pub fn step_size(&self) -> (h: T)
        ensures
            h == self.h_view(),
    {
        self.h
    }

    /// Whether a front end is asked to show progress.
    pub fn with_progress(&self) -> (b: bool)
        ensures
            b == self.progress_view(),
    {
        self.with_progress
    }

    /// The number of components of the state.
    pub fn dimension(&self) -> (d: usize)
        ensures
            d == self.initial_view().len(),
    {
        self.initial.len()
    }

    /// The trajectory before the first step: `n` rows, of which the first
    /// holds the initial state, and `n` times, all zero; with them the
    /// initial state as dual numbers of order 0.
    pub fn start(&self, n: usize) -> (r: (Vec<T>, Matrix<T>, Vec<AD<T>>))
        requires
            n >= 1,
        ensures
            r.0@.len() == n,
            is_time_axis(r.0@, self.h_view(), 1),
            r.1.has_shape(n as nat, self.initial_view().len()),
            is_implicit_trajectory(
                &self.scheme_view(),
                &self.inverter_view(),
                self.epsilon_view(),
                self.seeding_view(),
                self.initial_view(),
                r.1@,
                1,
            ),
            is_blank_from(r.0@, r.1@, 1),
            r.2@ == lifted(self.initial_view()),
    {
        let mut result: Matrix<T> = Matrix::zeros(n, self.initial.len());
        let ghost blank = result@;
        result.set_row(0, &self.initial);
        let time = zero_vector(n);
        proof {
            assert forall|t: int| 1 <= t < result@.len() implies #[trigger] is_blank_at(
                time@,
                result@,
                t,
            ) by {
                assert(result@[t] == blank[t]);
                assert(blank[t] =~= blank_row::<T>(blank[t].len()));
            }
        }
        (time, result, self.initial.to_ad())
    }

    /// The step with index `t`: from the state `x0` at index `t - 1` to the
    /// next. The scheme is told where the step starts, and Newton's method
    /// is started at the seed for that step. The root it finds is recorded
    /// with its time and handed back; if it finds none, nothing is recorded.
    #[allow(non_snake_case)]
    pub fn execute(
        &mut self,
        t: usize,
        x0: Vec<AD<T>>,
        result: &mut Matrix<T>,
        time: &mut Vec<T>,
        J: &mut Matrix<T>,
        slope_buffer: &mut Vec<AD<T>>,
    ) -> (r: Result<Vec<AD<T>>, NewtonError<T>>)
        requires
            1 <= t < old(result).rows_spec(),
            old(result).has_shape(old(time)@.len(), x0@.len()),
            old(J).has_shape(x0@.len(), x0@.len()),
            x0@ == lifted(values(x0@)),
            old(self).scheme_view().step_accepts(x0@.len()),
        ensures
            same_steps(&final(self).scheme_view(), &old(self).scheme_view()),
            final(self).epsilon_view() == old(self).epsilon_view(),
            final(self).h_view() == old(self).h_view(),
            final(self).horizon_view() == old(self).horizon_view(),
            final(self).initial_view() == old(self).initial_view(),
            final(self).seeding_view() == old(self).seeding_view(),
            final(self).inverter_view() == old(self).inverter_view(),
            final(J).has_shape(x0@.len(), x0@.len()),
            final(result).has_shape(old(result).rows_spec(), old(result).cols_spec()),
            match r {
                Ok(x1) => {
                    &&& x1@ == lifted(values(x1@))
                    &&& x1@.len() == x0@.len()
                    &&& is_implicit_step(
                        &old(self).scheme_view(),
                        &old(self).inverter_view(),
                        old(self).epsilon_view(),
                        old(self).seeding_view(),
                        values(x0@),
                        values(x1@),
                    )
                    &&& final(result)@ == old(result)@.update(t as int, values(x1@))
                    &&& final(time)@ == old(time)@.update(
                        t as int,
                        T::count_spec(t as nat).mul_spec(old(self).h_view()),
                    )
                },
                Err(e) => {
                    &&& final(result)@ == old(result)@
                    &&& final(time)@ == old(time)@
                    &&& is_step_failure(
                        &old(self).scheme_view(),
                        &old(self).inverter_view(),
                        old(self).epsilon_view(),
                        old(self).seeding_view(),
                        values(x0@),
                        e,
                    )
                },
            },
    {
        let start = x0.to_f64().to_ad();
        assert(start@ =~= x0@);
        self.scheme.update(x0);
        let seed = match self.seeding {
            Seeding::Previous => start,
            Seeding::Predictor => {
                self.scheme.eval(&start, slope_buffer);
                let r = slope_buffer.to_f64();
                newton_step(start, &r)
            },
        };
        assert(seed@ == seed_spec(&old(self).scheme_view(), self.seeding_view(), values(x0@)));
        proof {
            assert(field_of(&self.scheme_view()) =~= step_function(
                &old(self).scheme_view(),
                values(x0@),
            ));
        }
        match newton(self.epsilon, &self.scheme, seed, J, slope_buffer, &self.inverter) {
            Ok(x1) => {
                proof {
                    assert forall|i: int| 0 <= i < x1@.len() implies x1@[i] == lifted(
                        values(x1@),
                    )[i] by {
                        assert(x1@[i]@.len() == seed@[i]@.len());
                        x1@[i].lemma_view_round_trip();
                    }
                    assert(x1@ =~= lifted(values(x1@)));
                }
                let row = x1.to_f64();
                result.set_row(t, &row);
                time.set(t, time_of(t, self.h));
                Ok(x1)
            },
            Err(e) => {
                Err(e)
            },
        }
    }
}

impl<T: Scalar + PowOps, Scheme: Implicit<T> + Residual1Step<T>, Inv: Inverse<T>> OdeIm<
    T,
    Scheme,
    Inv,
> {
    /// Whether a run can start: the time span holds a step, and the scheme
    /// takes the initial state.
    pub open spec fn is_ready(&self) -> bool {
        self.steps_spec() >= 1 && self.scheme_view().step_accepts(self.initial_view().len())
    }

    /// A run that completes hands back `floor(T / h)` times and as many
    /// states; the times are `t * h`, and the states are a trajectory of
    /// the scheme from the initial state. A run that fails hands back the
    /// index of the step that Newton's method could not take, with its
    /// error; the times and states below that index are as in a run that
    /// completes, and from that index on nothing is recorded.
    pub open spec fn is_run(&self, out: Result<(Vec<T>, Matrix<T>), Failed<T>>) -> bool {
        let n = self.steps_spec() as int;
        match out {
            Ok((time, states)) => {
                &&& time@.len() == n
                &&& is_time_axis(time@, self.h_view(), n)
                &&& states.has_shape(n as nat, self.initial_view().len())
                &&& is_implicit_trajectory(
                    &self.scheme_view(),
                    &self.inverter_view(),
                    self.epsilon_view(),
                    self.seeding_view(),
                    self.initial_view(),
                    states@,
                    n,
                )
            },
            Err(failed) => {
                &&& 1 <= failed.step < n
                &&& failed.time@.len() == n
                &&& is_time_axis(failed.time@, self.h_view(), failed.step as int)
                &&& failed.states.has_shape(n as nat, self.initial_view().len())
                &&& is_implicit_trajectory(
                    &self.scheme_view(),
                    &self.inverter_view(),
                    self.epsilon_view(),
                    self.seeding_view(),
                    self.initial_view(),
                    failed.states@,
                    failed.step as int,
                )
                &&& is_step_failure(
                    &self.scheme_view(),
                    &self.inverter_view(),
                    self.epsilon_view(),
                    self.seeding_view(),
                    failed.states@[failed.step - 1],
                    failed.error,
                )
                &&& is_blank_from(failed.time@, failed.states@, failed.step as int)
            },
        }
    }

    /// A run is decided by the solver: two results that both are a run of
    /// it complete or fail alike, at the same step, with the same times and
    /// states.
    pub proof fn lemma_run_is_decided(
        &self,
        a: Result<(Vec<T>, Matrix<T>), Failed<T>>,
        b: Result<(Vec<T>, Matrix<T>), Failed<T>>,
    )
        requires
            self.is_run(a),
            self.is_run(b),
        ensures
            match (a, b) {
                (Ok((time_a, states_a)), Ok((time_b, states_b))) => time_a@ == time_b@ && states_a@
                    == states_b@,
                (Err(failed_a), Err(failed_b)) => failed_a.step == failed_b.step && failed_a.time@
                    == failed_b.time@ && failed_a.states@ == failed_b.states@,
                _ => false,
            },
    {
        let n = self.steps_spec() as int;
        let scheme = self.scheme_view();
        let inverter = self.inverter_view();
        let eps = self.epsilon_view();
        let seeding = self.seeding_view();
        let initial = self.initial_view();
        let h = self.h_view();
        let (time_a, states_a, upto_a) = match a {
            Ok((time, states)) => (time@, states@, n),
            Err(failed) => (failed.time@, failed.states@, failed.step as int),
        };
        let (time_b, states_b, upto_b) = match b {
            Ok((time, states)) => (time@, states@, n),
            Err(failed) => (failed.time@, failed.states@, failed.step as int),
        };
        if upto_a < upto_b {
            lemma_trajectories_agree(
                &scheme, &inverter, eps, seeding, initial, states_a, upto_a, states_b, upto_b,
                upto_a - 1,
            );
            assert(is_implicit_step(
                &scheme,
                &inverter,
                eps,
                seeding,
                states_b[upto_a - 1],
                states_b[upto_a],
            ));
        } else if upto_b < upto_a {
            lemma_trajectories_agree(
                &scheme, &inverter, eps, seeding, initial, states_a, upto_a, states_b, upto_b,
                upto_b - 1,
            );
            assert(is_implicit_step(
                &scheme,
                &inverter,
                eps,
                seeding,
                states_a[upto_b - 1],
                states_a[upto_b],
            ));
        } else {
            assert forall|t: int| 0 <= t < n implies states_a[t] == states_b[t] && time_a[t]
                == time_b[t] by {
                if t < upto_a {
                    lemma_trajectories_agree(
                        &scheme, &inverter, eps, seeding, initial, states_a, upto_a, states_b,
                        upto_b, t,
                    );
                } else {
                    assert(is_blank_at(time_a, states_a, t));
                    assert(is_blank_at(time_b, states_b, t));
                }
            }
            assert(states_a =~= states_b);
            assert(time_a =~= time_b);
        }
    }

    /// Runs the simulation and tells `progress` of every state recorded.
    #[allow(non_snake_case)]
    pub fn run_watched<Watch: Progress>(self, progress: &mut Watch) -> (out: Result<(Vec<T>, Matrix<T>), Failed<T>>)
        requires
            self.is_ready(),
        ensures
            self.is_run(out),
    {
        let ghost scheme = self.scheme_view();
        let ghost eps = self.epsilon_view();
        let ghost inverter = self.inverter_view();
        let ghost seeding = self.seeding_view();
        let ghost h = self.h_view();
        let ghost initial = self.initial_view();
        let mut ode = self;
        let n = ode.steps();
        let l = ode.dimension();
        let (mut time, mut result, mut x0) = ode.start(n);
        let mut J: Matrix<T> = Matrix::zeros(l, l);
        let mut slope_buffer: Vec<AD<T>> = ode.initial.to_ad();
        let mut t: usize = 1;
        while t < n
            invariant
                1 <= t <= n,
                n == self.steps_spec(),
                l == initial.len(),
                scheme == self.scheme_view(),
                eps == self.epsilon_view(),
                inverter == self.inverter_view(),
                ode.inverter_view() == inverter,
                seeding == self.seeding_view(),
                h == self.h_view(),
                initial == self.initial_view(),
                same_steps(&ode.scheme_view(), &scheme),
                ode.epsilon_view() == eps,
                ode.seeding_view() == seeding,
                ode.h_view() == h,
                ode.initial_view() == initial,
                scheme.step_accepts(l as nat),
                time@.len() == n,
                is_time_axis(time@, h, t as int),
                result.has_shape(n as nat, l as nat),
                J.has_shape(l as nat, l as nat),
                is_implicit_trajectory(&scheme, &inverter, eps, seeding, initial, result@, t as int),
                is_blank_from(time@, result@, t as int),
                x0@ == lifted(result@[t - 1]),
            decreases n - t,
        {
            assert(values(x0@) =~= result@[t - 1]);
            assert(x0@ =~= lifted(values(x0@)));
            let ghost before = result@;
            let ghost before_time = time@;
            let ghost prior = ode.scheme_view();
            match ode.execute(t, x0, &mut result, &mut time, &mut J, &mut slope_buffer) {
                Ok(x1) => {
                    proof {
                        let a = before[t - 1];
                        let b = result@[t as int];
                        assert(b == values(x1@));
                        assert(step_function(&prior, a) =~= step_function(&scheme, a));
                        assert(seed_spec(&prior, seeding, a) == seed_spec(&scheme, seeding, a));
                        assert(is_implicit_step(&scheme, &inverter, eps, seeding, a, b));
                        assert forall|k: int| t < k < result@.len() implies #[trigger] is_blank_at(
                            time@,
                            result@,
                            k,
                        ) by {
                            assert(is_blank_at(before_time, before, k));
                        }
                    }
                    x0 = x1;
                },
                Err(error) => {
                    proof {
                        let a = before[t - 1];
                        assert(step_function(&prior, a) =~= step_function(&scheme, a));
                        assert(seed_spec(&prior, seeding, a) == seed_spec(&scheme, seeding, a));
                        assert(is_step_failure(&scheme, &inverter, eps, seeding, a, error));
                    }
                    return Err(Failed { error, step: t, time, states: result });
                },
            }
            progress.tick(t + 1, n);
            t = t + 1;
        }
        Ok((time, result))
    }
}

impl<T: Scalar + PowOps, Scheme: Implicit<T> + Residual1Step<T>, Inv: Inverse<T>> ODE<T> for OdeIm<
    T,
    Scheme,
    Inv,
> {
    /// The times and the states, row by row; or the failure, with the
    /// times and states as far as the run came.
    type Output = Result<(Vec<T>, Matrix<T>), Failed<T>>;

    open spec fn step_size_spec(&self) -> T {
        self.h_view()
    }

    open spec fn horizon_spec(&self) -> T {
        self.horizon_view()
    }

    open spec fn with_progress_spec(&self) -> bool {
        self.progress_view()
    }

    open spec fn same_problem(&self, other: &Self) -> bool {
        &&& self.scheme_view() == other.scheme_view()
        &&& self.initial_view() == other.initial_view()
        &&& self.epsilon_view() == other.epsilon_view()
        &&& self.seeding_view() == other.seeding_view()
        &&& self.inverter_view() == other.inverter_view()
    }

    open spec fn ready(&self) -> bool {
        self.is_ready()
    }

    open spec fn run_ensures(&self, out: Result<(Vec<T>, Matrix<T>), Failed<T>>) -> bool {
        self.is_run(out)
    }

    fn set_step_size(&mut self, h: T) -> (ode: &mut Self) {
        self.h = h;
        self
    }

    fn set_t(&mut self, t: T) -> (ode: &mut Self) {
        self.horizon = t;
        self
    }

    fn set_with_progress(&mut self, with_progress: bool) -> (ode: &mut Self) {
        self.with_progress = with_progress;
        self
    }

    fn run(self) -> (out: Result<(Vec<T>, Matrix<T>), Failed<T>>) {
        let mut silent = Silent;
        self.run_watched(&mut silent)
    }
}

/// The way in to the solvers.
pub struct Ode;

impl Ode {
    /// A solver for the explicit scheme `scheme`, started at `initial`.
    pub fn explicit<T: Scalar, Scheme: Explicit<T>>(scheme: Scheme, initial: Vec<T>) -> (ode: OdeEx<
        T,
        Scheme,
    >)
        ensures
            ode.scheme_view() == scheme,
            ode.initial_view() == initial@,
            ode.h_view() == default_step_size::<T>(),
            ode.horizon_view() == one::<T>(),
            ode.progress_view(),
    {
        OdeEx::new(scheme, initial)
    }

    /// A solver for the implicit scheme `scheme`, started at `initial`,
    /// with `inverter` to invert the Jacobians of Newton's method.
    pub fn implicit<T: Scalar + PowOps, Scheme: Implicit<T> + Residual1Step<T>, Inv: Inverse<T>>(
        scheme: Scheme,
        initial: Vec<T>,
        inverter: Inv,
    ) -> (ode: OdeIm<T, Scheme, Inv>)
        ensures
            ode.scheme_view() == scheme,
            ode.initial_view() == initial@,
            ode.inverter_view() == inverter,
            ode.h_view() == default_step_size::<T>(),
            ode.horizon_view() == one::<T>(),
            ode.epsilon_view() == T::epsilon_spec(),
            ode.seeding_view() == Seeding::Previous,
            ode.progress_view(),
    {
        OdeIm::new(scheme, initial, inverter)
    }
}

} // verus!
