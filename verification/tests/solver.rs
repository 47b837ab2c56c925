use ad_ode::ad::jacobian::{jacobian, jacobian_par, jacobian_res, single_column};
use ad_ode::ad::ops::{ADArray, ExpLogOps, F64Array, PowOps, TrigOps};
use ad_ode::ad::AD;
use ad_ode::matrix::Matrix;
use ad_ode::ode::root_finder::{checked_inverse, newton, newton_step, norm, NewtonError};
use ad_ode::ode::solver::{ExplicitEuler, ImplicitEuler, SymplecticEuler};
use ad_ode::ode::traits::{
    Explicit, Flow, Implicit, Inverse, OneStep, Progress, Residual, Residual1Step, Residual2Step,
    ODE,
};
use ad_ode::ode::{Ode, OdeEx, OdeIm, OdeTwoStep, Seeding};
use ad_ode::scalar::Scalar;
use std::cell::Cell;

#[derive(Clone, Copy, Debug, PartialEq, PartialOrd)]
struct R(f64);

impl Scalar for R {
    fn from_count(n: usize) -> Self {
        R(n as f64)
    }

    fn epsilon() -> Self {
        R(f64::EPSILON)
    }

    fn add(self, rhs: Self) -> Self {
        R(self.0 + rhs.0)
    }

    fn sub(self, rhs: Self) -> Self {
        R(self.0 - rhs.0)
    }

    fn mul(self, rhs: Self) -> Self {
        R(self.0 * rhs.0)
    }

    fn div(self, rhs: Self) -> Self {
        R(self.0 / rhs.0)
    }

    fn neg(self) -> Self {
        R(-self.0)
    }

    fn ge(self, rhs: Self) -> bool {
        self.0 >= rhs.0
    }

    fn floor(self) -> usize {
        self.0.floor() as usize
    }
}

impl ExpLogOps for R {
    type Real = R;

    fn exp(&self) -> Self {
        R(self.0.exp())
    }

    fn ln(&self) -> Self {
        R(self.0.ln())
    }

    fn log(&self, base: R) -> Self {
        R(self.0.log(base.0))
    }

    fn log2(&self) -> Self {
        R(self.0.log2())
    }

    fn log10(&self) -> Self {
        R(self.0.log10())
    }
}

impl PowOps for R {
    type Real = R;

    fn powi(&self, n: i32) -> Self {
        R(self.0.powi(n))
    }

    fn powf(&self, f: R) -> Self {
        R(self.0.powf(f.0))
    }

    fn pow(&self, f: Self) -> Self {
        R(self.0.powf(f.0))
    }

    fn sqrt(&self) -> Self {
        R(self.0.sqrt())
    }
}

impl TrigOps for R {
    fn sin_cos(&self) -> (Self, Self) {
        let (s, c) = self.0.sin_cos();
        (R(s), R(c))
    }

    fn tan(&self) -> Self {
        R(self.0.tan())
    }

    fn sinh_cosh(&self) -> (Self, Self) {
        (R(self.0.sinh()), R(self.0.cosh()))
    }

    fn tanh(&self) -> Self {
        R(self.0.tanh())
    }

    fn asin(&self) -> Self {
        R(self.0.asin())
    }

    fn acos(&self) -> Self {
        R(self.0.acos())
    }

    fn atan(&self) -> Self {
        R(self.0.atan())
    }

    fn asinh(&self) -> Self {
        R(self.0.asinh())
    }

    fn acosh(&self) -> Self {
        R(self.0.acosh())
    }

    fn atanh(&self) -> Self {
        R(self.0.atanh())
    }
}

fn reals(v: &[f64]) -> Vec<R> {
    v.iter().map(|x| R(*x)).collect()
}

fn floats(v: &[R]) -> Vec<f64> {
    v.iter().map(|x| x.0).collect()
}

fn table(m: &Matrix<R>) -> Vec<Vec<f64>> {
    (0..m.rows()).map(|r| floats(&m.row(r))).collect()
}

/// `f(x, y) = (x - y, x + 2 y)`.
struct Linear;

impl Flow<AD<R>> for Linear {
    fn apply(&self, xs: &Vec<AD<R>>) -> Vec<AD<R>> {
        let x = xs[0];
        let y = xs[1];
        vec![x.sub(y), x.add(AD::scalar_mul(R(2.0), y))]
    }
}

/// The undamped oscillator with unit mass and unit stiffness:
/// `f(q, p) = (p / m, -q / c)`.
struct Oscillator;

impl Flow<R> for Oscillator {
    fn apply(&self, x: &Vec<R>) -> Vec<R> {
        let m = R(1.0);
        let c = R(1.0);
        vec![x[1].div(m), x[0].neg().div(c)]
    }
}

impl Flow<AD<R>> for Oscillator {
    fn apply(&self, x: &Vec<AD<R>>) -> Vec<AD<R>> {
        let m = R(1.0);
        let c = R(1.0);
        vec![x[1].div_scalar(m), x[0].neg().div_scalar(c)]
    }
}

/// A field of any dimension in which every output depends on every input.
struct Tangle;

impl Flow<AD<R>> for Tangle {
    fn apply(&self, x: &Vec<AD<R>>) -> Vec<AD<R>> {
        let n = x.len();
        (0..n)
            .map(|i| {
                let mut s = x[i].sin().mul(x[(i + 1) % n]);
                for (k, xk) in x.iter().enumerate() {
                    s = s.add(xk.mul(*xk).mul_scalar(R(k as f64 + 0.5)).exp().div_scalar(R(7.0)));
                }
                s
            })
            .collect()
    }
}

/// `r(x) = x^2 + 1`, component by component: a residual without a root.
struct Rootless;

impl Flow<AD<R>> for Rootless {
    fn apply(&self, x: &Vec<AD<R>>) -> Vec<AD<R>> {
        x.iter().map(|a| a.mul(*a).add_scalar(R(1.0))).collect()
    }
}

impl Residual<R> for Rootless {}

/// `r(x) = x^3 - 8`, component by component: its root is 2.
struct Cubic;

impl Flow<AD<R>> for Cubic {
    fn apply(&self, x: &Vec<AD<R>>) -> Vec<AD<R>> {
        x.iter().map(|a| a.mul(*a).mul(*a).sub_scalar(R(8.0))).collect()
    }
}

impl Residual<R> for Cubic {}

/// The product of a table with a column vector, each entry summed from the
/// left.
fn product(m: &Matrix<R>, v: &Vec<R>) -> Vec<R> {
    table(m).iter().map(|row| R(row.iter().zip(v).map(|(a, b)| a * b.0).sum())).collect()
}

/// Inverts by Gauss-Jordan elimination with partial pivoting.
struct GaussJordan;

impl Inverse<R> for GaussJordan {
    fn inv(&self, m: &Matrix<R>) -> Result<Matrix<R>, String> {
        let n = m.rows();
        if m.cols() != n {
            return Err(format!("not square: {} by {}", n, m.cols()));
        }
        let mut a: Vec<Vec<f64>> = table(m);
        let mut b: Vec<Vec<f64>> =
            (0..n).map(|r| (0..n).map(|c| if r == c { 1.0 } else { 0.0 }).collect()).collect();
        for k in 0..n {
            let mut p = k;
            for r in k + 1..n {
                if a[r][k].abs() > a[p][k].abs() {
                    p = r;
                }
            }
            if !(a[p][k].abs() > 1e-300) {
                return Err(format!("singular at column {}", k));
            }
            a.swap(k, p);
            b.swap(k, p);
            let d = a[k][k];
            for c in 0..n {
                a[k][c] /= d;
                b[k][c] /= d;
            }
            for r in 0..n {
                if r != k {
                    let f = a[r][k];
                    for c in 0..n {
                        a[r][c] -= f * a[k][c];
                        b[r][c] -= f * b[k][c];
                    }
                }
            }
        }
        Ok(Matrix::from_rows(b.iter().map(|row| reals(row)).collect()).unwrap())
    }

    fn dot(&self, m: &Matrix<R>, v: &Vec<R>) -> Vec<R> {
        product(m, v)
    }
}

/// Inverts like `GaussJordan` until it has been asked `good` times, then
/// reports a failure.
struct Tiring {
    good: usize,
    asked: Cell<usize>,
}

impl Inverse<R> for Tiring {
    fn inv(&self, m: &Matrix<R>) -> Result<Matrix<R>, String> {
        let k = self.asked.get();
        self.asked.set(k + 1);
        if k < self.good {
            GaussJordan.inv(m)
        } else {
            Err(format!("tired after {} inversions", k))
        }
    }

    fn dot(&self, m: &Matrix<R>, v: &Vec<R>) -> Vec<R> {
        product(m, v)
    }
}

/// Hands back a matrix with one row and one column, whatever it is given.
struct Misshapen;

impl Inverse<R> for Misshapen {
    fn inv(&self, _m: &Matrix<R>) -> Result<Matrix<R>, String> {
        Ok(Matrix::zeros(1, 1))
    }

    fn dot(&self, m: &Matrix<R>, v: &Vec<R>) -> Vec<R> {
        product(m, v)
    }
}

#[test]
fn jacobian_test() {
    let x = reals(&[1., 1.]);
    let j = jacobian(Linear, &x);

    let expected = vec![vec![1.0, -1.0], vec![1.0, 2.0]];
    assert_eq!(expected, table(&j));
    //      c[0] c[1]
    // r[0]    1   -1
    // r[1]    1    2
}

#[test]
fn jacobian_par_test() {
    let x = reals(&[1., 1.]);
    let j = jacobian_par(Linear, &x);

    let expected = vec![vec![1.0, -1.0], vec![1.0, 2.0]];
    assert_eq!(expected, table(&j));
    //      c[0] c[1]
    // r[0]    1   -1
    // r[1]    1    2
}

#[test]
fn jacobian_res_test() {
    let x0 = reals(&[1.0, 1.0]);
    let h = 1.;
    let mut euler = SymplecticEuler::new(R(h), Linear);
    euler.update(x0.to_ad());

    let l = x0.len();
    let mut j = Matrix::zeros(l, l);
    let mut slope_buffer = x0.to_ad();
    jacobian_res(&euler, &x0, &mut j, &mut slope_buffer);
    let expected = vec![vec![1.0, 1.0], vec![0.0, -1.0]];
    assert_eq!(expected, table(&j));
    //      c[0] c[1]
    // r[0]    1    1
    // r[1]    0   -1
    assert_eq!(floats(&slope_buffer.to_f64()), vec![0.0, -3.0]);
}

#[test]
fn jacobian_of_an_empty_point_is_empty() {
    let j = jacobian(Tangle, &Vec::<R>::new());
    assert_eq!(j.rows(), 0);
    let j = jacobian_par(Tangle, &Vec::<R>::new());
    assert_eq!(j.rows(), 0);
}

#[test]
fn a_column_holds_the_slopes_for_one_input() {
    let x = reals(&[1., 1.]);
    assert_eq!(floats(&single_column(&Linear, &x, 0)), vec![1.0, 1.0]);
    assert_eq!(floats(&single_column(&Linear, &x, 1)), vec![-1.0, 2.0]);
}

#[test]
fn sequential_and_parallel_jacobians_agree() {
    let mut state: u64 = 0x9e3779b97f4a7c15;
    let mut draw = move || {
        state = state.wrapping_mul(6364136223846793005).wrapping_add(1442695040888963407);
        ((state >> 11) as f64 / (1u64 << 53) as f64) * 2.0 - 1.0
    };
    for n in 1..9usize {
        for _ in 0..5 {
            let x: Vec<R> = (0..n).map(|_| R(draw())).collect();
            let a = jacobian(Tangle, &x);
            let b = jacobian_par(Tangle, &x);
            assert_eq!(a.rows(), n);
            assert_eq!(a.cols(), n);
            assert_eq!(table(&a), table(&b));
            let mut c = Matrix::zeros(n, n);
            let mut buffer = Vec::new();
            jacobian_res(&Free(Tangle), &x, &mut c, &mut buffer);
            assert_eq!(table(&a), table(&c));
            for k in 0..n {
                assert_eq!(floats(&a.column(k)), floats(&single_column(&Tangle, &x, k)));
            }
        }
    }
}

/// A field taken as a residual.
struct Free<F>(F);

impl<F: Flow<AD<R>>> Flow<AD<R>> for Free<F> {
    fn apply(&self, x: &Vec<AD<R>>) -> Vec<AD<R>> {
        self.0.apply(x)
    }
}

impl<F: Flow<AD<R>>> Residual<R> for Free<F> {}

#[test]
fn explicit_euler_step() {
    let scheme = ExplicitEuler::new(R(0.01), Oscillator);
    let x1 = scheme.next(&reals(&[10.0, 1.0]));
    assert_eq!(floats(&x1), vec![10.01, 0.9]);
    assert_eq!(floats(&x1), vec![10.0 + 0.01 * 1.0, 1.0 + 0.01 * (-10.0)]);
}

#[test]
fn implicit_euler_residual() {
    let mut scheme = ImplicitEuler::new(R(0.5), Oscillator);
    scheme.update(reals(&[1.0, 2.0]).to_ad());
    let x1 = reals(&[3.0, 5.0]).to_ad();
    // x1 - x0 - h * f(x1), with f(q, p) = (p, -q)
    let expected = vec![3.0 - 1.0 - 0.5 * 5.0, 5.0 - 2.0 - 0.5 * -3.0];
    assert_eq!(floats(&scheme.apply(&x1).to_f64()), expected);
    let mut buffer = vec![AD::AD0(R(99.0))];
    scheme.eval(&x1, &mut buffer);
    assert_eq!(floats(&buffer.to_f64()), expected);
}

#[test]
fn symplectic_euler_residual_mixes_the_halves() {
    let mut scheme = SymplecticEuler::new(R(0.5), Oscillator);
    scheme.update(reals(&[1.0, 2.0]).to_ad());
    let x1 = reals(&[3.0, 5.0]).to_ad();
    // x1 - x0 - h * f(q, p) with q of x0 and p of x1, where f(q, p) = (p, -q)
    let expected = vec![3.0 - 1.0 - 0.5 * 5.0, 5.0 - 2.0 - 0.5 * -1.0];
    assert_eq!(floats(&scheme.apply(&x1).to_f64()), expected);
    let mut buffer = Vec::new();
    scheme.eval(&x1, &mut buffer);
    assert_eq!(floats(&buffer.to_f64()), expected);
}

#[test]
fn norm_is_euclidean() {
    assert_eq!(norm(&reals(&[3.0, 4.0])), R(5.0));
    assert_eq!(norm(&reals(&[])), R(0.0));
    assert_eq!(norm(&reals(&[-2.0])), R(2.0));
}

#[test]
fn newton_step_moves_the_values() {
    let inverse = Matrix::from_rows(vec![reals(&[1.0, 2.0]), reals(&[3.0, 4.0])]).unwrap();
    let x = vec![AD::AD0(R(10.0)), AD::AD1(R(20.0), R(7.0))];
    let d = GaussJordan.dot(&inverse, &reals(&[1.0, 1.0]));
    assert_eq!(floats(&d), vec![3.0, 7.0]);
    let x2 = newton_step(x, &d);
    assert_eq!(x2[0].to_vec(), reals(&[10.0 - 3.0]));
    assert_eq!(x2[1].to_vec(), reals(&[20.0 - 7.0, 7.0]));
}

#[test]
fn an_inverters_answer_is_checked() {
    let good: Result<Matrix<R>, String> = Ok(Matrix::zeros(2, 2));
    assert!(checked_inverse(good, 2, 3).is_ok());
    let wide: Result<Matrix<R>, String> = Ok(Matrix::zeros(2, 3));
    assert!(matches!(
        checked_inverse(wide, 2, 3),
        Err(NewtonError::MalformedInverse { iteration: 3 })
    ));
    let none: Result<Matrix<R>, String> = Err(String::from("no luck"));
    match checked_inverse(none, 2, 4) {
        Err(NewtonError::SingularJacobian { iteration, context }) => {
            assert_eq!(iteration, 4);
            assert_eq!(context, "no luck");
        }
        other => panic!("{other:?}"),
    }
}

#[test]
fn newton_converges_for_implicit_euler_on_a_linear_flow() {
    let h = 0.1;
    let x0 = reals(&[10.0, 1.0]);
    let mut scheme = ImplicitEuler::new(R(h), Oscillator);
    scheme.update(x0.to_ad());
    let mut j = Matrix::zeros(2, 2);
    let mut buffer = Vec::new();
    let asked = Cell::new(0);
    let root =
        newton(R(1e-10), &scheme, x0.to_ad(), &mut j, &mut buffer, &Counting(&asked)).unwrap();
    // one inversion at the start and one after each update
    assert!(asked.get() <= 1 + 10);
    assert_eq!(asked.get(), 2);
    let residual = scheme.apply(&root).to_f64();
    assert!(norm(&residual).0 < 1e-10);
    // (I - h A) x1 = x0 with A = [[0, 1], [-1, 0]]
    let d = 1.0 + h * h;
    let x1 = floats(&root.to_f64());
    assert!((x1[0] - (10.0 + h * 1.0) / d).abs() < 1e-12);
    assert!((x1[1] - (1.0 - h * 10.0) / d).abs() < 1e-12);
    assert_eq!(table(&j), vec![vec![1.0, -h], vec![h, 1.0]]);
}

#[test]
fn newton_finds_a_cube_root() {
    let mut j = Matrix::zeros(1, 1);
    let mut buffer = Vec::new();
    let start = reals(&[3.0]).to_ad();
    let root = newton(R(1e-12), &Cubic, start, &mut j, &mut buffer, &GaussJordan).unwrap();
    assert!((root[0].x().0 - 2.0).abs() < 1e-12);
    assert_eq!(root[0].order(), 0);
}

#[test]
fn newton_reports_that_it_did_not_converge() {
    let mut j = Matrix::zeros(1, 1);
    let mut buffer = Vec::new();
    let start = reals(&[0.5]).to_ad();
    match newton(R(1e-10), &Rootless, start, &mut j, &mut buffer, &GaussJordan) {
        Err(NewtonError::NotConverged { iterations, iterate, error }) => {
            assert_eq!(iterations, 10);
            assert_eq!(iterate.len(), 1);
            assert!(error.0 >= 1.0);
            assert_eq!(error, norm(&Rootless.apply(&iterate).to_f64()));
        }
        other => panic!("{other:?}"),
    }
}

#[test]
fn newton_never_converges_to_a_tolerance_of_zero() {
    let mut scheme = ImplicitEuler::new(R(0.1), Oscillator);
    scheme.update(reals(&[10.0, 1.0]).to_ad());
    let mut j = Matrix::zeros(2, 2);
    let mut buffer = Vec::new();
    let start = reals(&[10.0, 1.0]).to_ad();
    let out = newton(R(0.0), &scheme, start, &mut j, &mut buffer, &GaussJordan);
    assert!(matches!(out, Err(NewtonError::NotConverged { iterations: 10, .. })));
}

#[test]
fn newton_reports_a_singular_jacobian() {
    let mut j = Matrix::zeros(1, 1);
    let mut buffer = Vec::new();
    // the slope of x^2 + 1 vanishes at 0
    let start = reals(&[0.0]).to_ad();
    match newton(R(1e-10), &Rootless, start, &mut j, &mut buffer, &GaussJordan) {
        Err(NewtonError::SingularJacobian { iteration, context }) => {
            assert_eq!(iteration, 0);
            assert_eq!(context, "singular at column 0");
        }
        other => panic!("{other:?}"),
    }
    let tiring = Tiring { good: 3, asked: Cell::new(0) };
    let start = reals(&[0.5]).to_ad();
    match newton(R(1e-10), &Rootless, start, &mut j, &mut buffer, &tiring) {
        Err(NewtonError::SingularJacobian { iteration, context }) => {
            assert_eq!(iteration, 3);
            assert_eq!(context, "tired after 3 inversions");
        }
        other => panic!("{other:?}"),
    }
}

#[test]
fn newton_reports_a_misshapen_inverse() {
    let mut j = Matrix::zeros(2, 2);
    let mut buffer = Vec::new();
    let mut scheme = ImplicitEuler::new(R(0.1), Oscillator);
    scheme.update(reals(&[10.0, 1.0]).to_ad());
    let start = reals(&[10.0, 1.0]).to_ad();
    let out = newton(R(1e-10), &scheme, start, &mut j, &mut buffer, &Misshapen);
    assert!(matches!(out, Err(NewtonError::MalformedInverse { iteration: 0 })));
}

#[test]
fn a_new_solver_has_the_default_settings() {
    let ode = Ode::explicit(ExplicitEuler::new(R(0.1), Oscillator), reals(&[10.0, 1.0]));
    assert_eq!(ode.step_size(), R(0.1));
    assert_eq!(ode.steps(), 10);
    assert_eq!(ode.dimension(), 2);
    assert!(ode.with_progress());
    let ode = Ode::implicit(ImplicitEuler::new(R(0.1), Oscillator), reals(&[1.0]), GaussJordan);
    assert_eq!(ode.step_size(), R(0.1));
    assert_eq!(ode.steps(), 10);
    assert_eq!(ode.dimension(), 1);
    assert!(ode.with_progress());
    let direct: OdeEx<R, ExplicitEuler<R, Oscillator>> =
        OneStep::new(ExplicitEuler::new(R(0.1), Oscillator), reals(&[10.0, 1.0]));
    assert_eq!(direct.steps(), 10);
    let direct = OdeIm::new(SymplecticEuler::new(R(0.1), Oscillator), reals(&[1.0, 0.0]), GaussJordan);
    assert_eq!(direct.dimension(), 2);
}

#[test]
fn the_step_count_is_truncated() {
    let mut ode = Ode::explicit(ExplicitEuler::new(R(0.3), Oscillator), reals(&[10.0, 1.0]));
    ode.set_step_size(R(0.3));
    ode.set_t(R(1.0));
    ode.set_with_progress(false);
    assert_eq!(ode.steps(), 3);
    assert!(!ode.with_progress());
    ode.set_t(R(0.2));
    assert_eq!(ode.steps(), 0);
}

#[test]
fn an_explicit_run_follows_the_scheme() {
    let h = 0.25;
    let scheme = ExplicitEuler::new(R(h), Oscillator);
    let mut ode = Ode::explicit(scheme, reals(&[10.0, 1.0]));
    ode.set_step_size(R(h)).set_t(R(1.0)).set_with_progress(false);
    let (time, states) = ode.run();
    assert_eq!(floats(&time), vec![0.0, 0.25, 0.5, 0.75]);
    assert_eq!(states.rows(), 4);
    assert_eq!(states.cols(), 2);
    let mut expected = vec![vec![10.0, 1.0]];
    for t in 1..4 {
        let (q, p) = (expected[t - 1][0], expected[t - 1][1]);
        expected.push(vec![q + h * p, p + h * -q]);
    }
    assert_eq!(table(&states), expected);
}

#[test]
fn a_run_of_one_step_records_the_initial_state() {
    let mut ode = Ode::explicit(ExplicitEuler::new(R(1.0), Oscillator), reals(&[10.0, 1.0]));
    ode.set_step_size(R(1.0));
    ode.set_t(R(1.5));
    let (time, states) = ode.run();
    assert_eq!(floats(&time), vec![0.0]);
    assert_eq!(table(&states), vec![vec![10.0, 1.0]]);
}

#[test]
fn an_implicit_run_solves_every_step() {
    let h = 0.1;
    let mut ode = Ode::implicit(ImplicitEuler::new(R(h), Oscillator), reals(&[10.0, 1.0]), GaussJordan);
    ode.set_epsilon(R(1e-12)).set_seeding(Seeding::Previous).set_step_size(R(h)).set_t(R(2.0));
    let n = ode.steps();
    let (time, states) = ode.run().unwrap();
    assert_eq!(time.len(), n);
    assert_eq!(states.rows(), n);
    let rows = table(&states);
    assert_eq!(rows[0], vec![10.0, 1.0]);
    for t in 1..n {
        assert_eq!(time[t].0, t as f64 * h);
        let (q_old, p_old) = (rows[t - 1][0], rows[t - 1][1]);
        let (q_new, p_new) = (rows[t][0], rows[t][1]);
        assert!((q_new - q_old - h * p_new).abs() < 1e-12);
        assert!((p_new - p_old + h * q_new).abs() < 1e-12);
    }
}

#[test]
fn a_failed_run_keeps_what_it_had() {
    let h = 0.1;
    let inverter = Tiring { good: 5, asked: Cell::new(0) };
    let mut ode = Ode::implicit(ImplicitEuler::new(R(h), Oscillator), reals(&[10.0, 1.0]), inverter);
    ode.set_epsilon(R(1e-12));
    let failed = ode.run().unwrap_err();
    assert!(matches!(failed.error, NewtonError::SingularJacobian { .. }));
    assert!(1 <= failed.step && failed.step < 10);
    assert_eq!(failed.time.len(), 10);
    assert_eq!(failed.states.rows(), 10);
    let rows = table(&failed.states);
    assert_eq!(rows[0], vec![10.0, 1.0]);
    for t in 1..failed.step {
        assert_eq!(failed.time[t].0, t as f64 * h);
        assert!((rows[t][0] - rows[t - 1][0] - h * rows[t][1]).abs() < 1e-12);
    }
    for t in failed.step..10 {
        assert_eq!(rows[t], vec![0.0, 0.0]);
        assert_eq!(failed.time[t].0, 0.0);
    }
}

#[test]
fn a_run_fails_where_newton_does_not_converge() {
    let mut ode = Ode::implicit(ImplicitEuler::new(R(0.1), Oscillator), reals(&[10.0, 1.0]), GaussJordan);
    ode.set_epsilon(R(0.0));
    let failed = ode.run().unwrap_err();
    assert_eq!(failed.step, 1);
    assert!(matches!(failed.error, NewtonError::NotConverged { iterations: 10, .. }));
    let failing = Ode::implicit(ImplicitEuler::new(R(0.1), Oscillator), reals(&[10.0, 1.0]), Misshapen);
    let failed = failing.run().unwrap_err();
    assert_eq!(failed.step, 1);
    assert!(matches!(failed.error, NewtonError::MalformedInverse { iteration: 0 }));
}

fn energy(row: &[f64]) -> f64 {
    (row[0] * row[0] / 1.0 + row[1] * row[1] / 1.0) / 2.0
}

#[test]
fn symplectic_euler_keeps_the_energy_bounded() {
    let h = 0.1;
    let horizon = 200.0;
    let x0 = [1.0, 0.0];
    let mut ode = Ode::implicit(SymplecticEuler::new(R(h), Oscillator), reals(&x0), GaussJordan);
    ode.set_step_size(R(h));
    ode.set_t(R(horizon));
    ode.set_epsilon(R(1e-12));
    let (_, states) = ode.run().unwrap();
    let rows = table(&states);
    assert_eq!(rows.len(), 2000);
    let e0 = energy(&x0);
    let quarter = rows.len() / 4;
    let spread = |part: &[Vec<f64>]| {
        part.iter().map(|r| (energy(r) - e0).abs() / e0).fold(0.0, f64::max)
    };
    let first = spread(&rows[..quarter]);
    let last = spread(&rows[rows.len() - quarter..]);
    assert!(first < 0.06);
    assert!(last < 0.06);
    assert!((last - first).abs() < 1e-3);

    let mut ode = Ode::explicit(ExplicitEuler::new(R(h), Oscillator), reals(&x0));
    ode.set_step_size(R(h));
    ode.set_t(R(horizon));
    let (_, states) = ode.run();
    let rows = table(&states);
    assert!(energy(&rows[rows.len() - 1]) > 1e6 * e0);
    for t in 1..rows.len() {
        assert!(energy(&rows[t]) > energy(&rows[t - 1]));
    }
}

#[test]
fn the_schemes_are_implicit() {
    fn takes<S: Implicit<R> + Residual1Step<R>>(_: &S) {}
    takes(&ImplicitEuler::new(R(0.1), Oscillator));
    takes(&SymplecticEuler::new(R(0.1), Oscillator));
}

#[test]
fn matrices() {
    let m = Matrix::from_rows(vec![reals(&[1.0, 2.0, 3.0]), reals(&[4.0, 5.0, 6.0])]).unwrap();
    assert_eq!(m.rows(), 2);
    assert_eq!(m.cols(), 3);
    assert_eq!(m.get(1, 2), R(6.0));
    assert_eq!(floats(&m.row(0)), vec![1.0, 2.0, 3.0]);
    assert_eq!(floats(&m.column(1)), vec![2.0, 5.0]);
    assert!(Matrix::from_rows(vec![reals(&[1.0, 2.0]), reals(&[3.0])]).is_none());
    let empty = Matrix::<R>::from_rows(Vec::new()).unwrap();
    assert_eq!((empty.rows(), empty.cols()), (0, 0));
    let none = Matrix::<R>::zeros(0, 5);
    assert_eq!((none.rows(), none.cols()), (0, 0));
    let mut z = Matrix::zeros(2, 2);
    assert_eq!(table(&z), vec![vec![0.0, 0.0], vec![0.0, 0.0]]);
    z.set(0, 1, R(7.0));
    z.set_row(1, &reals(&[8.0, 9.0]));
    assert_eq!(table(&z), vec![vec![0.0, 7.0], vec![8.0, 9.0]]);
    z.set_column(0, &reals(&[-1.0, -2.0]));
    assert_eq!(table(&z), vec![vec![-1.0, 7.0], vec![-2.0, 9.0]]);
}

#[test]
fn the_keppler_problem_runs() {
    /// `f(x, y, px, py) = (px, py, k x, k y)` with `k = -sqrt((x^2 + y^2)^3)`.
    struct Keppler;
    impl Flow<AD<R>> for Keppler {
        fn apply(&self, x: &Vec<AD<R>>) -> Vec<AD<R>> {
            let (x, y, px, py) = (x[0], x[1], x[2], x[3]);
            let factor = x.mul(x).add(y.mul(y)).powi(3).sqrt().neg();
            vec![px, py, factor.mul(x), factor.mul(y)]
        }
    }
    let h = 0.01;
    let mut ode =
        Ode::implicit(SymplecticEuler::new(R(h), Keppler), reals(&[1.0, 0.0, 0.0, 1.0]), GaussJordan);
    ode.set_step_size(R(h));
    ode.set_t(R(0.5));
    ode.set_epsilon(R(1e-12));
    let (time, states) = ode.run().unwrap();
    assert_eq!(time.len(), 50);
    assert_eq!(states.cols(), 4);
    let rows = table(&states);
    for t in 1..rows.len() {
        // the positions move with the new momenta
        assert!((rows[t][0] - rows[t - 1][0] - h * rows[t][2]).abs() < 1e-12);
        assert!((rows[t][1] - rows[t - 1][1] - h * rows[t][3]).abs() < 1e-12);
    }
}

/// The second backward differentiation formula for the oscillator:
/// `r(x2) = x2 - 4/3 x1 + 1/3 x0 - 2/3 h f(x2)`.
struct Bdf2 {
    x0: Vec<AD<R>>,
    x1: Vec<AD<R>>,
    h: R,
}

impl Flow<AD<R>> for Bdf2 {
    fn apply(&self, x2: &Vec<AD<R>>) -> Vec<AD<R>> {
        let f = Oscillator.apply(x2);
        (0..x2.len())
            .map(|i| {
                x2[i]
                    .sub(self.x1[i].mul_scalar(R(4.0 / 3.0)))
                    .add(self.x0[i].mul_scalar(R(1.0 / 3.0)))
                    .sub(f[i].mul_scalar(R(2.0 / 3.0).mul(self.h)))
            })
            .collect()
    }
}

impl Residual<R> for Bdf2 {
    fn eval(&self, x_next: &Vec<AD<R>>, update: &mut Vec<AD<R>>) {
        *update = self.apply(x_next);
    }
}

impl Implicit<R> for Bdf2 {}

impl Residual2Step<R> for Bdf2 {
    fn new(x0: Vec<AD<R>>, x1: Vec<AD<R>>, h: R) -> Self {
        Bdf2 { x0, x1, h }
    }

    fn update(&mut self, x0: Vec<AD<R>>, x1: Vec<AD<R>>) {
        self.x0 = x0;
        self.x1 = x1;
    }
}

#[test]
fn a_two_step_run_solves_every_step() {
    let h: f64 = 0.01;
    let first = reals(&[1.0, 0.0]).to_ad();
    let second = reals(&[h.cos(), -h.sin()]).to_ad();
    let scheme = Bdf2::new(first.clone(), second.clone(), R(h));
    let mut ode = OdeTwoStep::new(scheme, first, second, GaussJordan);
    ode.set_epsilon(R(1e-12)).set_step_size(R(h)).set_t(R(1.0)).set_with_progress(false);
    assert!(ode.states_match());
    assert!(!ode.with_progress());
    let n = ode.steps();
    assert_eq!(n, 100);
    let (time, states) = ode.run().unwrap();
    let rows = table(&states);
    assert_eq!(rows.len(), n);
    assert_eq!(rows[0], vec![1.0, 0.0]);
    assert_eq!(rows[1], vec![h.cos(), -h.sin()]);
    assert_eq!(time[0].0, 0.0);
    assert_eq!(time[1].0, h);
    for t in 2..n {
        assert_eq!(time[t].0, t as f64 * h);
        let q = rows[t][0] - 4.0 / 3.0 * rows[t - 1][0] + 1.0 / 3.0 * rows[t - 2][0]
            - 2.0 / 3.0 * h * rows[t][1];
        assert!(q.abs() < 1e-12);
        assert!((rows[t][0] - (t as f64 * h).cos()).abs() < 1e-3);
    }
}

#[test]
fn a_two_step_run_fails_where_newton_fails() {
    let h: f64 = 0.1;
    let first = reals(&[1.0, 0.0]).to_ad();
    let second = reals(&[h.cos(), -h.sin()]).to_ad();
    let scheme = Bdf2::new(first.clone(), second.clone(), R(h));
    let inverter = Tiring { good: 2, asked: Cell::new(0) };
    let mut ode = OdeTwoStep::new(scheme, first, second, inverter);
    ode.set_epsilon(R(1e-12));
    let failed = ode.run().unwrap_err();
    assert!(2 <= failed.step);
    assert!(matches!(failed.error, NewtonError::SingularJacobian { .. }));
    let rows = table(&failed.states);
    assert_eq!(rows.len(), 10);
    assert_eq!(rows[1], vec![h.cos(), -h.sin()]);
    assert_eq!(rows[9], vec![0.0, 0.0]);
}

/// Inverts like `GaussJordan` and counts how often it is asked.
struct Counting<'a>(&'a Cell<usize>);

impl Inverse<R> for Counting<'_> {
    fn inv(&self, m: &Matrix<R>) -> Result<Matrix<R>, String> {
        self.0.set(self.0.get() + 1);
        GaussJordan.inv(m)
    }

    fn dot(&self, m: &Matrix<R>, v: &Vec<R>) -> Vec<R> {
        product(m, v)
    }
}

/// The pendulum: `f(q, p) = (p, -sin q)`.
struct Pendulum;

impl Flow<AD<R>> for Pendulum {
    fn apply(&self, x: &Vec<AD<R>>) -> Vec<AD<R>> {
        vec![x[1], x[0].sin().neg()]
    }
}

#[test]
fn the_seed_of_newton_can_be_a_predictor() {
    let h = 0.2;
    let run = |seeding: Seeding, asked: &Cell<usize>| {
        let scheme = ImplicitEuler::new(R(h), Pendulum);
        let mut ode = Ode::implicit(scheme, reals(&[1.0, 0.5]), Counting(asked));
        ode.set_step_size(R(h));
        ode.set_t(R(4.0));
        ode.set_epsilon(R(1e-13));
        ode.set_seeding(seeding);
        table(&ode.run().unwrap().1)
    };
    let (plain, predicted) = (Cell::new(0), Cell::new(0));
    let a = run(Seeding::Previous, &plain);
    let b = run(Seeding::Predictor, &predicted);
    assert_eq!(a.len(), 20);
    assert_eq!(b.len(), 20);
    for t in 1..20 {
        for rows in [&a, &b] {
            let (q_old, p_old, q_new, p_new) = (rows[t - 1][0], rows[t - 1][1], rows[t][0], rows[t][1]);
            assert!((q_new - q_old - h * p_new).abs() < 1e-13);
            assert!((p_new - p_old + h * q_new.sin()).abs() < 1e-13);
        }
        assert!((a[t][0] - b[t][0]).abs() < 1e-11);
        assert!((a[t][1] - b[t][1]).abs() < 1e-11);
    }
    assert!(predicted.get() <= plain.get());
}

#[test]
fn the_predictor_of_implicit_euler_is_the_explicit_step() {
    // with a tolerance that the seed itself meets, the seed is the step
    let h = 0.001;
    let mut ode = Ode::implicit(ImplicitEuler::new(R(h), Oscillator), reals(&[10.0, 1.0]), GaussJordan);
    ode.set_step_size(R(h));
    ode.set_t(R(2.0 * h));
    ode.set_epsilon(R(1.0));
    ode.set_seeding(Seeding::Predictor);
    let (_, states) = ode.run().unwrap();
    let rows = table(&states);
    assert_eq!(rows.len(), 2);
    assert_eq!(rows[1], vec![10.0 - (0.0 - h * 1.0), 1.0 - (0.0 - h * -10.0)]);
}

/// `f(x) = -x`, component by component.
struct Decay;

impl Flow<AD<R>> for Decay {
    fn apply(&self, x: &Vec<AD<R>>) -> Vec<AD<R>> {
        x.iter().map(|a| a.neg()).collect()
    }
}

/// `f(x) = -x^2 - 1`, component by component.
struct Cycle;

impl Flow<AD<R>> for Cycle {
    fn apply(&self, x: &Vec<AD<R>>) -> Vec<AD<R>> {
        x.iter().map(|a| a.mul(*a).neg().sub_scalar(R(1.0))).collect()
    }
}

/// The flow that is zero everywhere.
struct Still;

impl Flow<AD<R>> for Still {
    fn apply(&self, x: &Vec<AD<R>>) -> Vec<AD<R>> {
        x.iter().map(|_| AD::AD0(R(0.0))).collect()
    }
}

#[test]
fn newton_finds_the_root_of_a_linear_residual_with_one_update() {
    // residual x1 - 2 - 1 * (-x1) = 2 x1 - 2
    let mut s = ImplicitEuler::new(R(1.0), Decay);
    s.update(vec![AD::AD0(R(2.0))]);
    let mut j = Matrix::zeros(1, 1);
    let mut buffer = vec![AD::AD0(R(2.0))];
    let asked = Cell::new(0);
    let x = newton(R(1e-10), &s, vec![AD::AD0(R(2.0))], &mut j, &mut buffer, &Counting(&asked))
        .unwrap();
    assert_eq!(x, vec![AD::AD0(R(1.0))]);
    assert_eq!(asked.get(), 2);
    assert_eq!(table(&j), vec![vec![2.0]]);
}

#[test]
fn newton_gives_up_after_ten_updates() {
    // residual x1 - 0 - 1 * (-x1^2 - 1) = x1^2 + x1 + 1: the iterates go 0, -1, 0, ...
    let mut s = ImplicitEuler::new(R(1.0), Cycle);
    s.update(vec![AD::AD0(R(0.0))]);
    let mut j = Matrix::zeros(1, 1);
    let mut buffer = vec![AD::AD0(R(0.0))];
    let asked = Cell::new(0);
    match newton(R(1e-10), &s, vec![AD::AD0(R(0.0))], &mut j, &mut buffer, &Counting(&asked)) {
        Err(NewtonError::NotConverged { iterations, iterate, error }) => {
            assert_eq!(iterations, 10);
            assert_eq!(iterate, vec![AD::AD0(R(0.0))]);
            assert_eq!(error, R(1.0));
        }
        other => panic!("{other:?}"),
    }
    // one inversion at the start and one after each of the ten updates
    assert_eq!(asked.get(), 11);
}

#[test]
fn a_seed_below_the_tolerance_comes_back_unchanged() {
    let mut s = ImplicitEuler::new(R(1.0), Decay);
    s.update(vec![AD::AD0(R(2.0))]);
    let mut j = Matrix::zeros(1, 1);
    let mut buffer = Vec::new();
    let asked = Cell::new(0);
    let seed = vec![AD::AD0(R(1.0))];
    let x = newton(R(1e-10), &s, seed.clone(), &mut j, &mut buffer, &Counting(&asked)).unwrap();
    assert_eq!(x, seed);
    assert_eq!(asked.get(), 1);
}

#[test]
fn an_implicit_run_with_zero_flow_stands_still() {
    let mut ode = Ode::implicit(ImplicitEuler::new(R(0.25), Still), reals(&[1.0, 2.0]), GaussJordan);
    ode.set_step_size(R(0.25)).set_t(R(1.0)).set_with_progress(false);
    let (time, states) = ode.run().unwrap();
    assert_eq!(floats(&time), vec![0.0, 0.25, 0.5, 0.75]);
    assert_eq!(table(&states), vec![vec![1.0, 2.0]; 4]);
}

/// Keeps what it is told.
struct Tally(Vec<(usize, usize)>);

impl Progress for Tally {
    fn tick(&mut self, done: usize, total: usize) {
        self.0.push((done, total));
    }
}

#[test]
fn a_watched_run_tells_of_every_state() {
    let mut ode = Ode::explicit(ExplicitEuler::new(R(0.25), Oscillator), reals(&[10.0, 1.0]));
    ode.set_step_size(R(0.25)).set_t(R(1.0));
    let mut tally = Tally(Vec::new());
    let (_, watched) = ode.run_watched(&mut tally);
    assert_eq!(tally.0, vec![(2, 4), (3, 4), (4, 4)]);
    let mut ode = Ode::explicit(ExplicitEuler::new(R(0.25), Oscillator), reals(&[10.0, 1.0]));
    ode.set_step_size(R(0.25)).set_t(R(1.0));
    assert_eq!(table(&watched), table(&ode.run().1));
    let mut ode = Ode::implicit(ImplicitEuler::new(R(0.25), Still), reals(&[1.0]), GaussJordan);
    ode.set_step_size(R(0.25)).set_t(R(1.0));
    let mut tally = Tally(Vec::new());
    assert!(ode.run_watched(&mut tally).is_ok());
    assert_eq!(tally.0, vec![(2, 4), (3, 4), (4, 4)]);
}
