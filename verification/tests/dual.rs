use ad_ode::ad::function::ADFn;
use ad_ode::ad::ops::{
    double_factorial, factorial, ADArray, ExpLogOps, F64Array, PowOps, ScalarMultiplyAD,
    ScalarMultiplyf64, StableFn, TrigOps, C, H, P,
};
use ad_ode::ad::{ADError, AD};
use ad_ode::scalar::Scalar;
use std::cmp::Ordering;

#[derive(Clone, Copy, Debug, PartialEq, PartialOrd)]
struct R(f64);

impl Scalar for R {
    fn from_count(n: usize) -> Self {
        R(n as f64)
    }

    fn epsilon() -> Self {
        R(f64::EPSILON)
    }

    fn add(self, rhs: Self) -> Self {
        R(self.0 + rhs.0)
    }

    fn sub(self, rhs: Self) -> Self {
        R(self.0 - rhs.0)
    }

    fn mul(self, rhs: Self) -> Self {
        R(self.0 * rhs.0)
    }

    fn div(self, rhs: Self) -> Self {
        R(self.0 / rhs.0)
    }

    fn neg(self) -> Self {
        R(-self.0)
    }

    fn ge(self, rhs: Self) -> bool {
        self.0 >= rhs.0
    }

    fn floor(self) -> usize {
        self.0.floor() as usize
    }
}

impl ExpLogOps for R {
    type Real = R;

    fn exp(&self) -> Self {
        R(self.0.exp())
    }

    fn ln(&self) -> Self {
        R(self.0.ln())
    }

    fn log(&self, base: R) -> Self {
        R(self.0.log(base.0))
    }

    fn log2(&self) -> Self {
        R(self.0.log2())
    }

    fn log10(&self) -> Self {
        R(self.0.log10())
    }
}

impl PowOps for R {
    type Real = R;

    fn powi(&self, n: i32) -> Self {
        R(self.0.powi(n))
    }

    fn powf(&self, f: R) -> Self {
        R(self.0.powf(f.0))
    }

    fn pow(&self, f: Self) -> Self {
        R(self.0.powf(f.0))
    }

    fn sqrt(&self) -> Self {
        R(self.0.sqrt())
    }
}

impl TrigOps for R {
    fn sin_cos(&self) -> (Self, Self) {
        let (s, c) = self.0.sin_cos();
        (R(s), R(c))
    }

    fn tan(&self) -> Self {
        R(self.0.tan())
    }

    fn sinh_cosh(&self) -> (Self, Self) {
        (R(self.0.sinh()), R(self.0.cosh()))
    }

    fn tanh(&self) -> Self {
        R(self.0.tanh())
    }

    fn asin(&self) -> Self {
        R(self.0.asin())
    }

    fn acos(&self) -> Self {
        R(self.0.acos())
    }

    fn atan(&self) -> Self {
        R(self.0.atan())
    }

    fn asinh(&self) -> Self {
        R(self.0.asinh())
    }

    fn acosh(&self) -> Self {
        R(self.0.acosh())
    }

    fn atanh(&self) -> Self {
        R(self.0.atanh())
    }
}

fn ad1(x: f64, dx: f64) -> AD<R> {
    AD::AD1(R(x), R(dx))
}

fn ad2(x: f64, dx: f64, ddx: f64) -> AD<R> {
    AD::AD2(R(x), R(dx), R(ddx))
}

fn coeffs(a: AD<R>) -> Vec<f64> {
    a.to_vec().iter().map(|c| c.0).collect()
}

fn close(a: f64, b: f64, tol: f64) -> bool {
    (a - b).abs() <= tol * (1.0 + a.abs().max(b.abs()))
}

/// The first derivative of `f` at `p` by automatic differentiation, beside
/// the central difference quotient with the step `h`.
fn slopes_of(f: fn(AD<R>) -> AD<R>, p: f64, h: f64) -> (f64, f64) {
    let exact = f(ad1(p, 1.0)).dx().0;
    let up = f(AD::AD0(R(p + h))).x().0;
    let down = f(AD::AD0(R(p - h))).x().0;
    (exact, (up - down) / (2.0 * h))
}

#[test]
fn counting_functions() {
    assert_eq!(factorial(0), 1);
    assert_eq!(factorial(1), 1);
    assert_eq!(factorial(5), 120);
    assert_eq!(factorial(10), 3628800);
    assert_eq!(double_factorial(0), 1);
    assert_eq!(double_factorial(1), 1);
    assert_eq!(double_factorial(7), 105);
    assert_eq!(double_factorial(8), 384);
    assert_eq!(P(5, 0), 1);
    assert_eq!(P(5, 2), 20);
    assert_eq!(P(5, 5), 120);
    assert_eq!(P(5, 6), 0);
    assert_eq!(P(0, 1), 0);
    assert_eq!(C(0, 0), 1);
    assert_eq!(C(5, 2), 10);
    assert_eq!(C(5, 3), 10);
    assert_eq!(C(2, 1), 2);
    assert_eq!(C(10, 10), 1);
    assert_eq!(H(3, 2), 6);
    assert_eq!(H(1, 0), 1);
}

#[test]
fn binomials_obey_pascals_rule() {
    for n in 1..12usize {
        for r in 1..n {
            assert_eq!(C(n, r), C(n - 1, r - 1) + C(n - 1, r));
            assert_eq!(C(n, r), C(n, n - r));
            assert_eq!(P(n, r), C(n, r) * factorial(r));
        }
    }
}

#[test]
fn order_and_length() {
    assert_eq!(AD::AD0(R(1.0)).order(), 0);
    assert_eq!(ad1(1.0, 2.0).order(), 1);
    assert_eq!(ad2(1.0, 2.0, 3.0).order(), 2);
    assert_eq!(AD::AD0(R(1.0)).len(), 1);
    assert_eq!(ad2(1.0, 2.0, 3.0).len(), 3);
}

#[test]
fn undefined_slots_read_as_zero() {
    let a = AD::AD0(R(4.0));
    assert_eq!(a.x(), R(4.0));
    assert_eq!(a.dx(), R(0.0));
    assert_eq!(a.ddx(), R(0.0));
    assert_eq!(ad1(4.0, 5.0).ddx(), R(0.0));
    assert_eq!(a.dx_ref(), None);
    assert_eq!(a.ddx_ref(), None);
    assert_eq!(a.x_ref(), Some(&R(4.0)));
    assert_eq!(ad1(4.0, 5.0).dx_ref(), Some(&R(5.0)));
    assert_eq!(ad1(4.0, 5.0).ddx_ref(), None);
    assert_eq!(ad2(4.0, 5.0, 6.0).ddx_ref(), Some(&R(6.0)));
    assert_eq!(a.get(0), Some(R(4.0)));
    assert_eq!(a.get(1), None);
    assert_eq!(ad2(4.0, 5.0, 6.0).get(2), Some(R(6.0)));
    assert_eq!(ad2(4.0, 5.0, 6.0).get(3), None);
    assert_eq!(ad2(4.0, 5.0, 6.0).at(1), R(5.0));
}

#[test]
fn changing_the_order_pads_or_cuts() {
    assert_eq!(coeffs(ad1(1.0, 2.0).to_order(2)), vec![1.0, 2.0, 0.0]);
    assert_eq!(coeffs(ad2(1.0, 2.0, 3.0).to_order(0)), vec![1.0]);
    assert_eq!(coeffs(ad2(1.0, 2.0, 3.0).to_order(1)), vec![1.0, 2.0]);
    assert_eq!(coeffs(ad1(1.0, 2.0).to_order(1)), vec![1.0, 2.0]);
    assert_eq!(coeffs(AD::<R>::from_order(2)), vec![0.0, 0.0, 0.0]);
    assert_eq!(coeffs(ad1(7.0, 8.0).empty()), vec![0.0, 0.0]);
}

#[test]
fn an_order_above_two_is_refused() {
    assert_eq!(AD::<R>::try_from_order(3).err(), Some(ADError::UnsupportedOrder));
    assert_eq!(AD::<R>::try_from_order(usize::MAX).err(), Some(ADError::UnsupportedOrder));
    assert_eq!(coeffs(AD::<R>::try_from_order(1).unwrap()), vec![0.0, 0.0]);
    assert_eq!(coeffs(AD::<R>::try_from_order(0).unwrap()), vec![0.0]);
}

#[test]
fn slots_can_be_written() {
    let mut a = ad2(1.0, 2.0, 3.0);
    a.set_x(R(10.0));
    a.set_dx(R(20.0));
    a.set_ddx(R(30.0));
    assert_eq!(coeffs(a), vec![10.0, 20.0, 30.0]);
    a.set(1, R(-1.0));
    assert_eq!(coeffs(a), vec![10.0, -1.0, 30.0]);
    if let Some(m) = a.ddx_mut() {
        *m = R(5.0);
    }
    if let Some(m) = a.x_mut() {
        *m = R(6.0);
    }
    assert_eq!(coeffs(a), vec![6.0, -1.0, 5.0]);
    let mut b = AD::AD0(R(1.0));
    assert!(b.dx_mut().is_none());
    assert!(b.ddx_mut().is_none());
    assert_eq!(coeffs(b), vec![1.0]);
}

#[test]
fn cursors_walk_from_both_ends() {
    let a = ad2(1.0, 2.0, 3.0);
    let mut it = a.into_iter();
    assert_eq!(it.len(), 3);
    assert_eq!(it.size_hint(), (3, Some(3)));
    assert_eq!(it.next(), Some(R(1.0)));
    assert_eq!(it.next_back(), Some(R(3.0)));
    assert_eq!(it.len(), 1);
    assert_eq!(it.next(), Some(R(2.0)));
    assert_eq!(it.next(), None);
    assert_eq!(it.next_back(), None);
    let b = ad1(4.0, 5.0);
    let mut by_ref = b.iter();
    assert_eq!(by_ref.next_back(), Some(&R(5.0)));
    assert_eq!(by_ref.next(), Some(&R(4.0)));
    assert_eq!(by_ref.next(), None);
    assert_eq!(by_ref.size_hint(), (0, Some(0)));
}

#[test]
fn coefficients_round_trip_through_a_vector() {
    let a = AD::from_vec(&vec![R(1.0), R(2.0)]);
    assert_eq!(a.order(), 1);
    assert_eq!(a.to_vec(), vec![R(1.0), R(2.0)]);
    assert_eq!(AD::from_vec(&vec![R(9.0)]).order(), 0);
    assert_eq!(coeffs(AD::from_vec(&vec![R(1.0), R(2.0), R(3.0)])), vec![1.0, 2.0, 3.0]);
}

#[test]
fn sums_promote_to_the_higher_order() {
    let a = ad1(1.0, 2.0);
    let b = ad2(10.0, 20.0, 30.0);
    assert_eq!(coeffs(a.add(b)), vec![11.0, 22.0, 30.0]);
    assert_eq!(coeffs(b.add(a)), vec![11.0, 22.0, 30.0]);
    assert_eq!(coeffs(a.sub(b)), vec![-9.0, -18.0, -30.0]);
    assert_eq!(coeffs(b.sub(a)), vec![9.0, 18.0, 30.0]);
    assert_eq!(coeffs(AD::AD0(R(1.0)).add(AD::AD0(R(2.0)))), vec![3.0]);
    assert_eq!(coeffs(b.neg()), vec![-10.0, -20.0, -30.0]);
}

#[test]
fn product_rule_is_exact() {
    let a = ad1(3.0, 2.0);
    let b = ad1(5.0, 7.0);
    let z = a.mul(b);
    assert_eq!(z.x().0, 3.0 * 5.0);
    assert_eq!(z.dx().0, 3.0 * 7.0 + 2.0 * 5.0);
    let a = ad2(0.1, 0.7, -1.3);
    let b = ad2(2.3, -0.4, 0.9);
    let z = a.mul(b);
    assert_eq!(z.x().0, 0.1 * 2.3);
    assert_eq!(z.dx().0, 0.1 * -0.4 + 0.7 * 2.3);
    assert_eq!(z.ddx().0, 0.1 * 0.9 + (2.0 * 0.7) * -0.4 + -1.3 * 2.3);
    let mixed = ad1(3.0, 2.0).mul(ad2(5.0, 7.0, 11.0));
    assert_eq!(coeffs(mixed), vec![15.0, 31.0, 3.0 * 11.0 + (2.0 * 2.0) * 7.0 + 0.0 * 5.0]);
}

#[test]
fn quotient_undoes_the_product() {
    let z = ad1(6.0, 3.0).div(ad1(2.0, 1.0));
    assert_eq!(coeffs(z), vec![3.0, 0.0]);
    let a = ad2(3.0, 2.0, 1.0);
    let b = ad2(4.0, 8.0, 16.0);
    let q = a.mul(b).div(b);
    assert!(close(q.x().0, 3.0, 1e-15));
    assert!(close(q.dx().0, 2.0, 1e-15));
    assert!(close(q.ddx().0, 1.0, 1e-14));
    let r = ad2(1.0, 0.0, 0.0).div(ad2(2.0, 1.0, 0.0));
    assert_eq!(coeffs(r), vec![0.5, -0.25, 0.25]);
}

#[test]
fn division_by_zero_follows_the_numbers() {
    let z = ad1(1.0, 1.0).div(ad1(0.0, 1.0));
    assert!(z.x().0.is_infinite());
    assert!(z.dx().0.is_nan() || z.dx().0.is_infinite());
}

#[test]
fn a_plain_number_keeps_the_order_of_the_dual() {
    let a = ad2(1.0, 2.0, 3.0);
    assert_eq!(coeffs(a.add_scalar(R(10.0))), vec![11.0, 2.0, 3.0]);
    assert_eq!(coeffs(a.sub_scalar(R(10.0))), vec![-9.0, 2.0, 3.0]);
    assert_eq!(coeffs(a.mul_scalar(R(10.0))), vec![10.0, 20.0, 30.0]);
    assert_eq!(coeffs(a.div_scalar(R(2.0))), vec![0.5, 1.0, 1.5]);
    assert_eq!(coeffs(AD::scalar_add(R(10.0), a)), vec![11.0, 2.0, 3.0]);
    assert_eq!(coeffs(AD::scalar_sub(R(10.0), a)), vec![9.0, -2.0, -3.0]);
    assert_eq!(coeffs(AD::scalar_mul(R(10.0), a)), vec![10.0, 20.0, 30.0]);
    assert_eq!(coeffs(AD::scalar_div(R(1.0), ad2(2.0, 1.0, 0.0))), vec![0.5, -0.25, 0.25]);
    assert_eq!(AD::from(R(3.0)), AD::AD0(R(3.0)));
}

#[test]
fn dual_numbers_are_numbers_too() {
    assert_eq!(coeffs(AD::<R>::from_count(3)), vec![3.0]);
    assert_eq!(coeffs(AD::<R>::epsilon()), vec![f64::EPSILON]);
    assert!(ad1(2.0, -100.0).ge(ad1(2.0, 100.0)));
    assert!(ad1(3.0, 0.0).ge(AD::AD0(R(2.0))));
    assert!(!ad1(1.0, 0.0).ge(AD::AD0(R(2.0))));
    assert_eq!(ad1(2.75, 1.0).floor(), 2);
}

#[test]
fn exponential_and_logarithm() {
    assert_eq!(coeffs(ad2(0.0, 1.0, 0.0).exp()), vec![1.0, 1.0, 1.0]);
    assert_eq!(coeffs(ad2(1.0, 1.0, 0.0).ln()), vec![0.0, 1.0, -1.0]);
    let x = ad2(0.3, 0.7, 0.2);
    let e = x.exp();
    let e0 = 0.3f64.exp();
    assert_eq!(e.x().0, e0);
    assert_eq!(e.dx().0, 0.7 * e0);
    assert_eq!(e.ddx().0, 0.2 * e0 + 0.7 * (0.7 * e0));
    let back = e.ln();
    assert!(close(back.x().0, 0.3, 1e-15));
    assert!(close(back.dx().0, 0.7, 1e-15));
    assert!(close(back.ddx().0, 0.2, 1e-14));
    let l2 = ad1(8.0, 1.0).log2();
    assert!(close(l2.x().0, 3.0, 1e-15));
    assert!(close(l2.dx().0, 1.0 / (8.0 * 2f64.ln()), 1e-15));
    let l10 = ad1(100.0, 1.0).log10();
    assert!(close(l10.x().0, 2.0, 1e-15));
    let l3 = ad1(9.0, 1.0).log(R(3.0));
    assert!(close(l3.x().0, 2.0, 1e-15));
    assert!(close(l3.dx().0, 1.0 / (9.0 * 3f64.ln()), 1e-15));
}

#[test]
fn powers() {
    assert_eq!(coeffs(ad2(2.0, 1.0, 0.0).powi(3)), vec![8.0, 12.0, 12.0]);
    assert_eq!(coeffs(ad2(2.0, 1.0, 0.0).powi(1)), vec![2.0, 1.0, 0.0]);
    assert_eq!(coeffs(ad2(2.0, 1.0, 0.0).powi(0)), vec![1.0, 0.0, 0.0]);
    assert_eq!(ad1(2.0, 1.0).powi(0), ad1(1.0, 0.0));
    assert_eq!(AD::AD0(R(7.0)).powi(0), AD::AD0(R(1.0)));
    // x^-1 and x^-2 at x = 2: -1/x^2, 2/x^3 and -2/x^3, 6/x^4
    assert_eq!(coeffs(ad2(2.0, 1.0, 0.0).powi(-1)), vec![0.5, -0.25, 0.25]);
    assert_eq!(coeffs(ad2(2.0, 1.0, 0.0).powi(-2)), vec![0.25, -0.25, 0.375]);
    assert_eq!(coeffs(ad1(0.5, 1.0).powi(-3)), vec![8.0, -48.0]);
    let p = ad2(2.0, 1.0, 0.0).powf(R(3.0));
    assert!(close(p.x().0, 8.0, 1e-15));
    assert!(close(p.dx().0, 12.0, 1e-15));
    assert!(close(p.ddx().0, 12.0, 1e-15));
    let s = ad2(4.0, 1.0, 0.0).sqrt();
    assert!(close(s.x().0, 2.0, 1e-15));
    assert!(close(s.dx().0, 0.25, 1e-15));
    assert!(close(s.ddx().0, -1.0 / 32.0, 1e-15));
    let xx = ad2(2.0, 1.0, 0.0).pow(ad2(2.0, 1.0, 0.0));
    let l = 2f64.ln();
    assert!(close(xx.x().0, 4.0, 1e-15));
    assert!(close(xx.dx().0, 4.0 * (l + 1.0), 1e-15));
    assert!(close(xx.ddx().0, 4.0 * (l + 1.0) * (l + 1.0) + 4.0 / 2.0, 1e-14));
    let raised = ad1(2.0, 1.0).pow(ad2(3.0, 0.0, 0.0));
    assert_eq!(raised.order(), 2);
    assert!(close(raised.x().0, 8.0, 1e-15));
    assert!(close(raised.dx().0, 12.0, 1e-15));
    assert!(close(raised.ddx().0, 12.0, 1e-15));
    let by_exponent = AD::AD0(R(2.0)).pow(ad1(3.0, 1.0));
    assert_eq!(by_exponent.order(), 1);
    assert!(close(by_exponent.x().0, 8.0, 1e-15));
    assert!(close(by_exponent.dx().0, 8.0 * 2f64.ln(), 1e-15));
}

#[test]
fn circular_functions() {
    let (s, c) = ad2(0.0, 1.0, 0.0).sin_cos();
    assert_eq!(coeffs(s), vec![0.0, 1.0, 0.0]);
    assert_eq!(coeffs(c), vec![1.0, 0.0, -1.0]);
    let x = ad2(0.4, 1.0, 0.0);
    let (s, c) = x.sin_cos();
    assert_eq!(s.x().0, 0.4f64.sin());
    assert_eq!(s.dx().0, 0.4f64.cos());
    assert!(close(s.ddx().0, -(0.4f64.sin()), 1e-15));
    assert_eq!(c.x().0, 0.4f64.cos());
    assert_eq!(c.dx().0, -(0.4f64.sin()));
    assert!(close(c.ddx().0, -(0.4f64.cos()), 1e-15));
    assert_eq!(coeffs(x.sin()), coeffs(s));
    assert_eq!(coeffs(x.cos()), coeffs(c));
    let t = x.tan();
    let sec2 = 1.0 / (0.4f64.cos() * 0.4f64.cos());
    assert!(close(t.x().0, 0.4f64.tan(), 1e-15));
    assert!(close(t.dx().0, sec2, 1e-15));
    assert!(close(t.ddx().0, 2.0 * 0.4f64.tan() * sec2, 1e-14));
}

#[test]
fn hyperbolic_functions() {
    let x = ad2(0.4, 1.0, 0.0);
    let (s, c) = x.sinh_cosh();
    assert_eq!(s.x().0, 0.4f64.sinh());
    assert_eq!(s.dx().0, 0.4f64.cosh());
    assert!(close(s.ddx().0, 0.4f64.sinh(), 1e-15));
    assert_eq!(c.x().0, 0.4f64.cosh());
    assert_eq!(c.dx().0, 0.4f64.sinh());
    assert!(close(c.ddx().0, 0.4f64.cosh(), 1e-15));
    assert_eq!(coeffs(x.sinh()), coeffs(s));
    assert_eq!(coeffs(x.cosh()), coeffs(c));
    let t = x.tanh();
    let th = 0.4f64.tanh();
    assert!(close(t.x().0, th, 1e-15));
    assert!(close(t.dx().0, 1.0 - th * th, 1e-15));
}

#[test]
fn inverse_functions() {
    let x = ad2(0.3, 1.0, 0.0);
    let p = 0.3f64;
    assert_eq!(coeffs(ad1(0.0, 1.0).asin()), vec![0.0, 1.0]);
    let a = x.asin();
    assert!(close(a.x().0, p.asin(), 1e-15));
    assert!(close(a.dx().0, 1.0 / (1.0 - p * p).sqrt(), 1e-15));
    assert!(close(a.ddx().0, p / (1.0 - p * p).powf(1.5), 1e-14));
    let c = x.acos();
    assert!(close(c.x().0, p.acos(), 1e-15));
    assert!(close(c.dx().0, -1.0 / (1.0 - p * p).sqrt(), 1e-15));
    let t = x.atan();
    assert!(close(t.x().0, p.atan(), 1e-15));
    assert!(close(t.dx().0, 1.0 / (1.0 + p * p), 1e-15));
    assert!(close(t.ddx().0, -2.0 * p / ((1.0 + p * p) * (1.0 + p * p)), 1e-14));
    let sh = x.asinh();
    assert!(close(sh.dx().0, 1.0 / (1.0 + p * p).sqrt(), 1e-15));
    let th = x.atanh();
    assert!(close(th.dx().0, 1.0 / (1.0 - p * p), 1e-15));
    let y = ad2(1.7, 1.0, 0.0);
    let ch = y.acosh();
    assert!(close(ch.x().0, 1.7f64.acosh(), 1e-15));
    assert!(close(ch.dx().0, 1.0 / (1.7f64 * 1.7 - 1.0).sqrt(), 1e-15));
    let (a2, c2) = x.asin_acos();
    assert_eq!(coeffs(a2), coeffs(a));
    assert_eq!(coeffs(c2), coeffs(c));
    let (sh2, ch2) = y.asinh_acosh();
    assert_eq!(coeffs(sh2), coeffs(y.asinh()));
    assert_eq!(coeffs(ch2), coeffs(ch));
}

fn f_sin(x: AD<R>) -> AD<R> {
    x.sin()
}

fn f_exp(x: AD<R>) -> AD<R> {
    x.exp()
}

fn f_pow(x: AD<R>) -> AD<R> {
    x.powf(R(2.5))
}

fn f_ln(x: AD<R>) -> AD<R> {
    x.ln()
}

fn f_composite(x: AD<R>) -> AD<R> {
    x.sin().mul(x.exp()).add(x.mul(x).add_scalar(R(1.0)).ln()).div(x.cos())
}

fn f_polynomial(x: AD<R>) -> AD<R> {
    // 3 x^3 - 2 x^2 + 5 x - 7
    let x2 = x.mul(x);
    let x3 = x2.mul(x);
    x3.mul_scalar(R(3.0)).sub(x2.mul_scalar(R(2.0))).add(x.mul_scalar(R(5.0))).sub_scalar(R(7.0))
}

#[test]
fn first_derivatives_match_central_differences() {
    let h = 1e-5;
    let points = [0.3, 0.9, 1.4];
    for f in [f_sin, f_exp, f_pow, f_ln, f_composite, f_polynomial] {
        for p in points {
            let (exact, quotient) = slopes_of(f, p, h);
            assert!(
                (exact - quotient).abs() <= 1e-7 * (1.0 + exact.abs()),
                "{exact} against {quotient} at {p}"
            );
        }
    }
}

#[test]
fn derivatives_of_polynomials_are_exact() {
    for p in [-2.0, -1.0, 0.0, 1.0, 2.0, 3.0] {
        let y = f_polynomial(ad2(p, 1.0, 0.0));
        assert_eq!(y.x().0, 3.0 * p * p * p - 2.0 * p * p + 5.0 * p - 7.0);
        assert_eq!(y.dx().0, 9.0 * p * p - 4.0 * p + 5.0);
        assert_eq!(y.ddx().0, 18.0 * p - 4.0);
    }
}

#[test]
fn lift_and_drop() {
    let v = vec![R(1.5), R(-2.0)];
    let a = v.to_ad();
    assert_eq!(a.len(), 2);
    assert_eq!(a[0].order(), 0);
    assert_eq!(a[1].x(), R(-2.0));
    assert_eq!(a[1].dx(), R(0.0));
    assert_eq!(a.to_f64(), v);
    assert_eq!(vec![ad2(1.0, 2.0, 3.0), ad1(4.0, 5.0)].to_f64(), vec![R(1.0), R(4.0)]);
}

fn cube(x: AD<R>) -> AD<R> {
    x.mul(x).mul(x)
}

fn doubled(v: Vec<AD<R>>) -> Vec<AD<R>> {
    v.iter().map(|a| a.add(*a)).collect()
}

fn halved(v: &Vec<AD<R>>) -> Vec<AD<R>> {
    v.iter().map(|a| a.div_scalar(R(2.0))).collect()
}

#[test]
fn a_wrapped_function_gives_its_derivatives() {
    let f = ADFn::new(cube as fn(AD<R>) -> AD<R>);
    assert!(f.can_grad());
    assert_eq!(f.call_stable(R(2.0)), R(8.0));
    let df = f.grad();
    assert!(df.can_grad());
    assert_eq!(df.call_stable(R(2.0)), R(12.0));
    let ddf = df.grad();
    assert!(!ddf.can_grad());
    assert_eq!(ddf.call_stable(R(2.0)), R(12.0));
    assert_eq!(f.call_stable(R(3.0)), R(27.0));
}

#[test]
fn a_wrapped_function_takes_dual_numbers_as_they_are() {
    let f = ADFn::new(cube as fn(AD<R>) -> AD<R>);
    assert_eq!(f.call_dual(ad2(2.0, 1.0, 0.0)), ad2(8.0, 12.0, 12.0));
    assert_eq!(f.grad().call_dual(ad1(2.0, 1.0)), ad1(8.0, 12.0));
    let g = ADFn::new(doubled as fn(Vec<AD<R>>) -> Vec<AD<R>>);
    assert_eq!(g.call_duals(vec![ad1(1.0, 3.0)]), vec![ad1(2.0, 6.0)]);
    let h = ADFn::new(halved as fn(&Vec<AD<R>>) -> Vec<AD<R>>);
    assert_eq!(h.call_duals_ref(&vec![ad1(1.0, 3.0)]), vec![ad1(0.5, 1.5)]);
}

#[test]
fn a_wrapped_vector_function_gives_values() {
    let f = ADFn::new(doubled as fn(Vec<AD<R>>) -> Vec<AD<R>>);
    assert_eq!(f.call_stable(vec![R(1.0), R(2.5)]), vec![R(2.0), R(5.0)]);
    let g = ADFn::new(halved as fn(&Vec<AD<R>>) -> Vec<AD<R>>);
    assert_eq!(g.call_stable(&vec![R(1.0), R(5.0)]), vec![R(0.5), R(2.5)]);
}

#[test]
fn a_number_scales_a_vector() {
    assert_eq!(ScalarMultiplyf64::scalar(&R(2.0), vec![R(1.0), R(-3.0)]), vec![R(2.0), R(-6.0)]);
    let scaled = ScalarMultiplyAD::scalar(&ad1(2.0, 100.0), vec![ad1(1.0, 3.0), AD::AD0(R(4.0))]);
    assert_eq!(coeffs(scaled[0]), vec![2.0, 6.0]);
    assert_eq!(coeffs(scaled[1]), vec![8.0]);
}

#[test]
fn slots_can_be_written_by_index() {
    let mut a = ad1(1.0, 2.0);
    if let Some(m) = a.get_mut(1) {
        *m = R(9.0);
    }
    assert!(a.get_mut(2).is_none());
    assert!(a.get_mut(7).is_none());
    if let Some(m) = a.get_mut(0) {
        *m = R(8.0);
    }
    assert_eq!(coeffs(a), vec![8.0, 9.0]);
}

#[test]
fn a_cursor_lends_the_slots_for_writing() {
    let mut a = ad2(1.0, 2.0, 3.0);
    let mut it = a.iter_mut();
    let mut k = 0.0;
    while let Some(m) = it.next() {
        k += 10.0;
        *m = R(m.0 + k);
    }
    assert!(it.next().is_none());
    assert_eq!(a, ad2(11.0, 22.0, 33.0));
    let mut b = AD::AD0(R(5.0));
    let mut it = b.iter_mut();
    *it.next().unwrap() = R(6.0);
    assert!(it.next().is_none());
    assert_eq!(b, AD::AD0(R(6.0)));
}

#[test]
fn dual_numbers_compare_slot_by_slot() {
    assert_eq!(ad1(1.0, 2.0), ad1(1.0, 2.0));
    assert_ne!(ad1(1.0, 2.0), ad1(1.0, 3.0));
    assert_ne!(ad1(1.0, 0.0), AD::AD0(R(1.0)));
}

#[test]
fn dual_numbers_are_ordered_by_their_values() {
    assert!(ad1(1.0, 5.0) < ad1(2.0, 0.0));
    assert!(ad2(3.0, 0.0, 0.0) > AD::AD0(R(2.0)));
    assert!(ad1(2.0, -1.0) <= ad1(2.0, 1.0));
    assert_eq!(ad1(2.0, -1.0).partial_cmp(&ad1(2.0, 1.0)), Some(Ordering::Equal));
    assert_eq!(ad1(1.0, 0.0).partial_cmp(&AD::AD0(R(2.0))), Some(Ordering::Less));
    assert_eq!(ad1(f64::NAN, 0.0).partial_cmp(&AD::AD0(R(2.0))), None);
}

#[test]
fn operators_are_the_named_operations() {
    let a = ad2(3.0, 2.0, 1.0);
    let b = ad1(5.0, 7.0);
    assert_eq!(a + b, a.add(b));
    assert_eq!(a - b, a.sub(b));
    assert_eq!(a * b, a.mul(b));
    assert_eq!(a / b, a.div(b));
    assert_eq!(-a, a.neg());
    assert_eq!(a + R(2.0), a.add_scalar(R(2.0)));
    assert_eq!(a - R(2.0), a.sub_scalar(R(2.0)));
    assert_eq!(a * R(2.0), a.mul_scalar(R(2.0)));
    assert_eq!(a / R(2.0), a.div_scalar(R(2.0)));
    assert_eq!(a * a - a * R(2.0) + R(1.0), ad2(4.0, 8.0, 12.0));
}
