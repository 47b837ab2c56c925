//! The elementary functions of dual numbers.
//!
//! Each function takes its value from the same function of plain numbers and
//! its derivatives from the differential identity that the function obeys,
//! slot after slot, with the binomial weights of the Leibniz rule.
use crate::ad::arith::{convolution, convolve, max_order};
use crate::ad::ops::{combinations, ExpLogOps, PowOps, TrigOps};
use crate::ad::{AD, MAX_ORDER};
use crate::scalar::{one, zero, Scalar};
use vstd::prelude::*;

verus! {

/// The plain numbers over which every elementary function of dual numbers
/// is defined: those that have all of these functions themselves.
pub trait Elementary: Scalar + ExpLogOps<Real = Self> + PowOps<Real = Self> + TrigOps {

}

impl<T: Scalar + ExpLogOps<Real = T> + PowOps<Real = T> + TrigOps> Elementary for T {

}

/// A sequence of `len` entries: `head` first, then zeros.
pub open spec fn headed<T: Scalar>(len: nat, head: T) -> Seq<T> {
    Seq::new(len, |j: int| zero::<T>()).update(0, head)
}

/// The chain rule for a function whose derivative `d` is known as a dual
/// number: `head` is the function's value, and slot `n` is the sum over `k`
/// of `C(n - 1, k) * x[n - k] * d[k]`.
pub open spec fn chained<T: Scalar>(x: Seq<T>, d: Seq<T>, head: T) -> Seq<T> {
    Seq::new(
        x.len(),
        |n: int|
            if n == 0 {
                head
            } else {
                convolution((n - 1) as nat, 0, x, n, d, 0, n as nat, false)
            },
    )
}

/// The coefficients of `exp(x)` once the slots up to `i` are worked out.
/// The exponential is its own derivative: slot `i` is the sum over `k` of
/// `C(i - 1, k) * x[i - k] * z[k]`.
pub open spec fn exp_coeffs<T: Elementary>(x: Seq<T>, i: nat) -> Seq<T>
    decreases i,
{
    if i == 0 {
        headed(x.len(), x[0].exp_spec())
    } else {
        let z = exp_coeffs(x, (i - 1) as nat);
        z.update(i as int, convolution((i - 1) as nat, 0, x, i as int, z, 0, i, false))
    }
}

/// The coefficients of a pair of functions, each the derivative of the
/// other, once the slots up to `i` are worked out. `head` holds their
/// values. With `negate` the second function's derivative is minus the
/// first (sine and cosine); without it, plus (their hyperbolic namesakes).
pub open spec fn pair_coeffs<T: Scalar>(x: Seq<T>, head: (T, T), negate: bool, i: nat) -> (
    Seq<T>,
    Seq<T>,
)
    decreases i,
{
    if i == 0 {
        (headed(x.len(), head.0), headed(x.len(), head.1))
    } else {
        let (u, v) = pair_coeffs(x, head, negate, (i - 1) as nat);
        let du = convolution((i - 1) as nat, 0, x, i as int, v, 0, i, false);
        let dv = convolution((i - 1) as nat, 0, x, i as int, u, 0, i, false);
        (
            u.update(i as int, du),
            v.update(
                i as int,
                if negate {
                    dv.neg_spec()
                } else {
                    dv
                },
            ),
        )
    }
}

/// The coefficients of `ln(x)` once the slots up to `i` are worked out.
/// From `x * ln(x)' = x'`: slot `i` is `(1 / x[0]) * (x[i] - sum)`, where
/// `sum` runs over the slots of the logarithm between the first and `i`.
pub open spec fn ln_coeffs<T: Elementary>(x: Seq<T>, i: nat) -> Seq<T>
    decreases i,
{
    if i == 0 {
        headed(x.len(), x[0].ln_spec())
    } else {
        let z = ln_coeffs(x, (i - 1) as nat);
        let rest = if i == 1 {
            x[1]
        } else {
            x[i as int].sub_spec(
                convolution((i - 1) as nat, 1, z, 1, x, i - 1, (i - 1) as nat, true),
            )
        };
        z.update(i as int, one::<T>().div_spec(x[0]).mul_spec(rest))
    }
}

/// The coefficients of a power `z`, given those of the product `p` of the
/// exponent with the logarithm of the base, once the slots up to `i` are
/// worked out. From `z' = z * p'`: slot `i` is `z[0] * p[i] + sum`, where
/// `sum` runs over the slots of `z` between the first and `i`. Where the
/// exponent is a plain number, `p` is the logarithm alone and `factor` holds
/// the exponent, by which each slot is then multiplied.
pub open spec fn power_coeffs<T: Scalar>(
    p: Seq<T>,
    len: nat,
    head: T,
    factor: Option<T>,
    i: nat,
) -> Seq<T>
    decreases i,
{
    if i == 0 {
        headed(len, head)
    } else {
        let z = power_coeffs(p, len, head, factor, (i - 1) as nat);
        let lead = z[0].mul_spec(p[i as int]);
        let inner = if i == 1 {
            lead
        } else {
            lead.add_spec(convolution((i - 1) as nat, 1, z, 1, p, i - 1, (i - 1) as nat, true))
        };
        z.update(
            i as int,
            match factor {
                Some(f) => f.mul_spec(inner),
                None => inner,
            },
        )
    }
}

/// `a` multiplied by itself until it stands `n` times, for an `n` of at
/// least 1.
pub open spec fn repeated<T: Scalar>(a: AD<T>, n: nat) -> AD<T>
    decreases n,
{
    if n <= 1 {
        a
    } else {
        repeated(a, (n - 1) as nat).mul_spec(a)
    }
}

/// The constant one at the order of `a`: every derivative is zero.
pub open spec fn unit_like<T: Scalar>(a: AD<T>) -> AD<T> {
    AD::<T>::zeros(a.order_spec()).with_slot(0, one::<T>())
}

/// The integer power `a^n`: the constant one for `n = 0`, `a` multiplied
/// by itself until it stands `n` times for a positive `n`, and the quotient
/// of one by the power with the exponent `-n` for a negative `n`.
pub open spec fn power<T: Scalar>(a: AD<T>, n: int) -> AD<T> {
    if n == 0 {
        unit_like(a)
    } else if n > 0 {
        repeated(a, n as nat)
    } else {
        AD::AD0(one::<T>()).div_spec(repeated(a, (-n) as nat))
    }
}

/// One half, as the quotient of one by two.
pub open spec fn half<T: Scalar>() -> T {
    one::<T>().div_spec(T::count_spec(2))
}

impl<T: Elementary> AD<T> {
    /// The derivative of the arcsine as a dual number: `1 / sqrt(1 - x^2)`.
    pub open spec fn asin_slope(self) -> Self {
        AD::AD0(one::<T>()).div_spec(Self::scalar_sub_spec(one::<T>(), self.powi_spec(2)).sqrt_spec())
    }

    /// The derivative of the arccosine as a dual number: `-1 / sqrt(1 - x^2)`.
    pub open spec fn acos_slope(self) -> Self {
        AD::AD0(one::<T>().neg_spec()).div_spec(
            Self::scalar_sub_spec(one::<T>(), self.powi_spec(2)).sqrt_spec(),
        )
    }

    /// The derivative of the arctangent as a dual number: `1 / (1 + x^2)`.
    pub open spec fn atan_slope(self) -> Self {
        let sq = self.powi_spec(2);
        AD::AD0(one::<T>()).div_spec(sq.with_slot(0, sq@[0].add_spec(one::<T>())))
    }

    /// The derivative of the inverse hyperbolic sine as a dual number:
    /// `1 / sqrt(1 + x^2)`.
    pub open spec fn asinh_slope(self) -> Self {
        let sq = self.powi_spec(2);
        AD::AD0(one::<T>()).div_spec(sq.with_slot(0, sq@[0].add_spec(one::<T>())).sqrt_spec())
    }

    /// The derivative of the inverse hyperbolic cosine as a dual number:
    /// `1 / sqrt(x^2 - 1)`.
    pub open spec fn acosh_slope(self) -> Self {
        let sq = self.powi_spec(2);
        AD::AD0(one::<T>()).div_spec(sq.with_slot(0, sq@[0].sub_spec(one::<T>())).sqrt_spec())
    }

    /// The derivative of the inverse hyperbolic tangent as a dual number:
    /// `1 / (1 - x^2)`.
    pub open spec fn atanh_slope(self) -> Self {
        AD::AD0(one::<T>()).div_spec(Self::scalar_sub_spec(one::<T>(), self.powi_spec(2)))
    }

    /// Applies the chain rule with the derivative `d` of the outer function,
    /// whose value is `head`.
    fn chain(&self, d: &Self, head: T) -> (z: Self)
        requires
            d@.len() == self@.len(),
        ensures
            z == Self::from_coeffs(chained(self@, d@, head)),
            z@.len() == self@.len(),
    {
        let mut z = self.empty();
        z.set(0, head);
        let ghost want = chained(self@, d@, head);
        let mut n: usize = 1;
        while n < self.len()
            invariant
                1 <= n <= self@.len(),
                self@.len() <= 3,
                d@.len() == self@.len(),
                z@.len() == self@.len(),
                want == chained(self@, d@, head),
                forall|j: int| 0 <= j < n ==> z@[j] == want[j],
            decreases self@.len() - n,
        {
            z.set(n, convolve(n - 1, 0, self, n, d, 0, n, false));
            n = n + 1;
        }
        proof {
            assert(z@ =~= want);
            z.lemma_view_round_trip();
        }
        z
    }

    /// Works out a power from the product `p` of exponent and logarithm.
    fn power_series(p: &Self, order: usize, head: T, factor: Option<T>) -> (z: Self)
        requires
            order <= MAX_ORDER,
            order < p@.len(),
        ensures
            z == Self::from_coeffs(power_coeffs(p@, (order + 1) as nat, head, factor, order as nat)),
            z@.len() == order + 1,
    {
        let mut z = Self::from_order(order);
        z.set(0, head);
        let mut i: usize = 1;
        while i <= order
            invariant
                1 <= i <= order + 1,
                order <= MAX_ORDER,
                order < p@.len(),
                z@.len() == order + 1,
                z@ == power_coeffs(p@, (order + 1) as nat, head, factor, (i - 1) as nat),
            decreases order + 1 - i,
        {
            let lead = z.at(0).mul(p.at(i));
            let inner = if i == 1 {
                lead
            } else {
                lead.add(convolve(i - 1, 1, &z, 1, p, i - 1, i - 1, true))
            };
            let value = match factor {
                Some(f) => f.mul(inner),
                None => inner,
            };
            z.set(i, value);
            i = i + 1;
        }
        proof {
            z.lemma_view_round_trip();
        }
        z
    }

    /// Works out a pair of functions of which each is the derivative of the
    /// other, up to sign.
    fn pair_series(&self, head: (T, T), negate: bool) -> (r: (Self, Self))
        ensures
            r.0 == Self::from_coeffs(pair_coeffs(self@, head, negate, self.order_spec()).0),
            r.1 == Self::from_coeffs(pair_coeffs(self@, head, negate, self.order_spec()).1),
            r.0@.len() == self@.len(),
            r.1@.len() == self@.len(),
    {
        let mut u = self.empty();
        let mut v = self.empty();
        u.set(0, head.0);
        v.set(0, head.1);
        let mut i: usize = 1;
        while i < self.len()
            invariant
                1 <= i <= self@.len(),
                self@.len() <= 3,
                u@.len() == self@.len(),
                v@.len() == self@.len(),
                (u@, v@) == pair_coeffs(self@, head, negate, (i - 1) as nat),
            decreases self@.len() - i,
        {
            let du = convolve(i - 1, 0, self, i, &v, 0, i, false);
            let dv = convolve(i - 1, 0, self, i, &u, 0, i, false);
            u.set(i, du);
            v.set(
                i,
                if negate {
                    dv.neg()
                } else {
                    dv
                },
            );
            i = i + 1;
        }
        proof {
            u.lemma_view_round_trip();
            v.lemma_view_round_trip();
        }
        (u, v)
    }
}

impl<T: Elementary> ExpLogOps for AD<T> {
    type Real = T;

    open spec fn exp_spec(self) -> Self {
        Self::from_coeffs(exp_coeffs(self@, self.order_spec()))
    }

    open spec fn ln_spec(self) -> Self {
        Self::from_coeffs(ln_coeffs(self@, self.order_spec()))
    }

    /// The natural logarithm, every coefficient divided by the natural
    /// logarithm of the base.
    open spec fn log_spec(self, base: T) -> Self {
        self.ln_spec().div_scalar_spec(base.ln_spec())
    }

    open spec fn log2_spec(self) -> Self {
        self.log_spec(T::count_spec(2))
    }

    open spec fn log10_spec(self) -> Self {
        self.log_spec(T::count_spec(10))
    }

    fn exp(&self) -> (z: Self)
        ensures
            z@.len() == self@.len(),
    {
        let mut z = self.empty();
        z.set(0, self.at(0).exp());
        let mut i: usize = 1;
        while i < self.len()
            invariant
                1 <= i <= self@.len(),
                self@.len() <= 3,
                z@.len() == self@.len(),
                z@ == exp_coeffs(self@, (i - 1) as nat),
            decreases self@.len() - i,
        {
            let value = convolve(i - 1, 0, self, i, &z, 0, i, false);
            z.set(i, value);
            i = i + 1;
        }
        proof {
            z.lemma_view_round_trip();
        }
        z
    }

    fn ln(&self) -> (z: Self)
        ensures
            z@.len() == self@.len(),
    {
        let mut z = self.empty();
        z.set(0, self.at(0).ln());
        let x0 = T::from_count(1).div(self.at(0));
        let mut i: usize = 1;
        while i < self.len()
            invariant
                1 <= i <= self@.len(),
                self@.len() <= 3,
                z@.len() == self@.len(),
                x0 == one::<T>().div_spec(self@[0]),
                z@ == ln_coeffs(self@, (i - 1) as nat),
            decreases self@.len() - i,
        {
            let rest = if i == 1 {
                self.at(1)
            } else {
                self.at(i).sub(convolve(i - 1, 1, &z, 1, self, i - 1, i - 1, true))
            };
            z.set(i, x0.mul(rest));
            i = i + 1;
        }
        proof {
            z.lemma_view_round_trip();
        }
        z
    }

    fn log(&self, base: T) -> (z: Self)
        ensures
            z@.len() == self@.len(),
    {
        self.ln().div_scalar(base.ln())
    }

    fn log2(&self) -> (z: Self)
        ensures
            z@.len() == self@.len(),
    {
        self.log(T::from_count(2))
    }

    fn log10(&self) -> (z: Self)
        ensures
            z@.len() == self@.len(),
    {
        self.log(T::from_count(10))
    }
}

impl<T: Elementary> PowOps for AD<T> {
    type Real = T;

    /// The integer power: one for `n = 0`, repeated multiplication for a
    /// positive `n`, and the reciprocal of that for a negative `n`.
    open spec fn powi_spec(self, n: i32) -> Self {
        power(self, n as int)
    }

    /// `exp(f * ln(self))`, with the value taken from the power of plain
    /// numbers.
    open spec fn powf_spec(self, f: T) -> Self {
        Self::from_coeffs(
            power_coeffs(
                self.ln_spec()@,
                self@.len(),
                self@[0].powf_spec(f),
                Some(f),
                self.order_spec(),
            ),
        )
    }

    /// `exp(f * ln(self))` for a dual exponent, at the larger of the two
    /// orders: the base is promoted to that order before its logarithm is
    /// taken, and the derivatives of the exponent count as those of the
    /// base.
    open spec fn pow_spec(self, f: Self) -> Self {
        let n = max_order(self.order_spec(), f.order_spec());
        let p = f.mul_spec(self.to_order_spec(n).ln_spec());
        Self::from_coeffs(power_coeffs(p@, n + 1, self@[0].powf_spec(f@[0]), None, n))
    }

    /// The power with the exponent one half.
    open spec fn sqrt_spec(self) -> Self {
        self.powf_spec(half::<T>())
    }

    fn powi(&self, n: i32) -> (z: Self)
        ensures
            z@.len() == self@.len(),
    {
        if n == 0 {
            let mut z = self.empty();
            z.set(0, T::from_count(1));
            return z;
        }
        let times: i64 = if n < 0 {
            -(n as i64)
        } else {
            n as i64
        };
        let mut z = *self;
        let mut i: i64 = 1;
        while i < times
            invariant
                1 <= i <= times,
                z == repeated(*self, i as nat),
                z@.len() == self@.len(),
            decreases times - i,
        {
            z = z.mul(*self);
            i = i + 1;
        }
        if n < 0 {
            Self::scalar_div(T::from_count(1), z)
        } else {
            z
        }
    }

    fn powf(&self, f: T) -> (z: Self)
        ensures
            z@.len() == self@.len(),
    {
        let ln_x = self.ln();
        Self::power_series(&ln_x, self.order(), self.x().powf(f), Some(f))
    }

    fn pow(&self, f: Self) -> (z: Self)
        ensures
            z.order_spec() == max_order(self.order_spec(), f.order_spec()),
    {
        let ord = if self.order() >= f.order() {
            self.order()
        } else {
            f.order()
        };
        let ln_x = self.to_order(ord).ln();
        let p = f.mul(ln_x);
        Self::power_series(&p, ord, self.x().powf(f.x()), None)
    }

    fn sqrt(&self) -> (z: Self)
        ensures
            z@.len() == self@.len(),
    {
        self.powf(T::from_count(1).div(T::from_count(2)))
    }
}

impl<T: Elementary> TrigOps for AD<T> {
    /// Sine and cosine together: the sine's derivative is the cosine, the
    /// cosine's is minus the sine.
    open spec fn sin_cos_spec(self) -> (Self, Self) {
        let (u, v) = pair_coeffs(self@, self@[0].sin_cos_spec(), true, self.order_spec());
        (Self::from_coeffs(u), Self::from_coeffs(v))
    }

    open spec fn tan_spec(self) -> Self {
        self.sin_cos_spec().0.div_spec(self.sin_cos_spec().1)
    }

    /// Hyperbolic sine and cosine together: each is the other's derivative.
    open spec fn sinh_cosh_spec(self) -> (Self, Self) {
        let (u, v) = pair_coeffs(self@, self@[0].sinh_cosh_spec(), false, self.order_spec());
        (Self::from_coeffs(u), Self::from_coeffs(v))
    }

    open spec fn tanh_spec(self) -> Self {
        self.sinh_cosh_spec().0.div_spec(self.sinh_cosh_spec().1)
    }

    open spec fn asin_spec(self) -> Self {
        Self::from_coeffs(chained(self@, self.asin_slope()@, self@[0].asin_spec()))
    }

    open spec fn acos_spec(self) -> Self {
        Self::from_coeffs(chained(self@, self.acos_slope()@, self@[0].acos_spec()))
    }

    open spec fn atan_spec(self) -> Self {
        Self::from_coeffs(chained(self@, self.atan_slope()@, self@[0].atan_spec()))
    }

    open spec fn asinh_spec(self) -> Self {
        Self::from_coeffs(chained(self@, self.asinh_slope()@, self@[0].asinh_spec()))
    }

    open spec fn acosh_spec(self) -> Self {
        Self::from_coeffs(chained(self@, self.acosh_slope()@, self@[0].acosh_spec()))
    }

    open spec fn atanh_spec(self) -> Self {
        Self::from_coeffs(chained(self@, self.atanh_slope()@, self@[0].atanh_spec()))
    }

    fn sin_cos(&self) -> (r: (Self, Self))
        ensures
            r.0@.len() == self@.len(),
            r.1@.len() == self@.len(),
    {
        self.pair_series(self.x().sin_cos(), true)
    }

    fn tan(&self) -> (r: Self) {
        let (s, c) = self.sin_cos();
        s.div(c)
    }

    fn sinh_cosh(&self) -> (r: (Self, Self))
        ensures
            r.0@.len() == self@.len(),
            r.1@.len() == self@.len(),
    {
        self.pair_series(self.x().sinh_cosh(), false)
    }

    fn tanh(&self) -> (r: Self) {
        let (s, c) = self.sinh_cosh();
        s.div(c)
    }

    fn asin(&self) -> (r: Self) {
        let one = T::from_count(1);
        let dx = Self::scalar_div(one, Self::scalar_sub(one, self.powi(2)).sqrt());
        self.chain(&dx, self.x().asin())
    }

    fn acos(&self) -> (r: Self) {
        let one = T::from_count(1);
        let dx = Self::scalar_div(one.neg(), Self::scalar_sub(one, self.powi(2)).sqrt());
        self.chain(&dx, self.x().acos())
    }

    fn atan(&self) -> (r: Self) {
        let one = T::from_count(1);
        let dx = Self::scalar_div(one, Self::scalar_add(one, self.powi(2)));
        self.chain(&dx, self.x().atan())
    }

    fn asinh(&self) -> (r: Self) {
        let one = T::from_count(1);
        let dx = Self::scalar_div(one, Self::scalar_add(one, self.powi(2)).sqrt());
        self.chain(&dx, self.x().asinh())
    }

    fn acosh(&self) -> (r: Self) {
        let one = T::from_count(1);
        let dx = Self::scalar_div(one, self.powi(2).sub_scalar(one).sqrt());
        self.chain(&dx, self.x().acosh())
    }

    fn atanh(&self) -> (r: Self) {
        let one = T::from_count(1);
        let dx = Self::scalar_div(one, Self::scalar_sub(one, self.powi(2)));
        self.chain(&dx, self.x().atanh())
    }
}

/// Chain rule, first order: the first derivative of `f(x)` is `x' * f'(x)`
/// for the exponential, the sine and the hyperbolic pair, minus that for the
/// cosine, and `(1 / x) * x'` for the logarithm; the value is that of the
/// function of plain numbers.
pub proof fn lemma_first_derivatives<T: Elementary>(a: AD<T>)
    requires
        a.order_spec() >= 1,
    ensures
        a.exp_spec()@[0] == a@[0].exp_spec(),
        a.exp_spec()@[1] == a@[1].mul_spec(a@[0].exp_spec()),
        a.ln_spec()@[0] == a@[0].ln_spec(),
        a.ln_spec()@[1] == one::<T>().div_spec(a@[0]).mul_spec(a@[1]),
        a.sin_cos_spec().0@[0] == a@[0].sin_cos_spec().0,
        a.sin_cos_spec().1@[0] == a@[0].sin_cos_spec().1,
        a.sin_cos_spec().0@[1] == a@[1].mul_spec(a@[0].sin_cos_spec().1),
        a.sin_cos_spec().1@[1] == a@[1].mul_spec(a@[0].sin_cos_spec().0).neg_spec(),
        a.sinh_cosh_spec().0@[1] == a@[1].mul_spec(a@[0].sinh_cosh_spec().1),
        a.sinh_cosh_spec().1@[1] == a@[1].mul_spec(a@[0].sinh_cosh_spec().0),
{
    let x = a@;
    let n = a.order_spec();
    reveal_with_fuel(combinations, 2);
    reveal_with_fuel(convolution, 2);
    lemma_exp_settled(x, 1, n);
    lemma_ln_settled(x, 1, n);
    lemma_pair_settled(x, x[0].sin_cos_spec(), true, 1, n);
    lemma_pair_settled(x, x[0].sinh_cosh_spec(), false, 1, n);
    AD::<T>::lemma_from_coeffs(exp_coeffs(x, n));
    AD::<T>::lemma_from_coeffs(ln_coeffs(x, n));
    AD::<T>::lemma_from_coeffs(pair_coeffs(x, x[0].sin_cos_spec(), true, n).0);
    AD::<T>::lemma_from_coeffs(pair_coeffs(x, x[0].sin_cos_spec(), true, n).1);
    AD::<T>::lemma_from_coeffs(pair_coeffs(x, x[0].sinh_cosh_spec(), false, n).0);
    AD::<T>::lemma_from_coeffs(pair_coeffs(x, x[0].sinh_cosh_spec(), false, n).1);
    reveal_with_fuel(exp_coeffs, 2);
    reveal_with_fuel(ln_coeffs, 2);
    reveal_with_fuel(pair_coeffs, 2);
}

/// A slot of an exponential, once worked out, is not touched again.
pub proof fn lemma_exp_settled<T: Elementary>(x: Seq<T>, i: nat, j: nat)
    requires
        i <= j < x.len(),
    ensures
        exp_coeffs(x, j).len() == x.len(),
        forall|k: int| 0 <= k <= i ==> exp_coeffs(x, j)[k] == exp_coeffs(x, i)[k],
    decreases j,
{
    if i < j {
        lemma_exp_settled(x, i, (j - 1) as nat);
    } else if j > 0 {
        lemma_exp_settled(x, (i - 1) as nat, (j - 1) as nat);
    }
}

/// A slot of a logarithm, once worked out, is not touched again.
pub proof fn lemma_ln_settled<T: Elementary>(x: Seq<T>, i: nat, j: nat)
    requires
        i <= j < x.len(),
    ensures
        ln_coeffs(x, j).len() == x.len(),
        forall|k: int| 0 <= k <= i ==> ln_coeffs(x, j)[k] == ln_coeffs(x, i)[k],
    decreases j,
{
    if i < j {
        lemma_ln_settled(x, i, (j - 1) as nat);
    } else if j > 0 {
        lemma_ln_settled(x, (i - 1) as nat, (j - 1) as nat);
    }
}

/// A slot of a coupled pair, once worked out, is not touched again.
pub proof fn lemma_pair_settled<T: Scalar>(x: Seq<T>, head: (T, T), negate: bool, i: nat, j: nat)
    requires
        i <= j < x.len(),
    ensures
        pair_coeffs(x, head, negate, j).0.len() == x.len(),
        pair_coeffs(x, head, negate, j).1.len() == x.len(),
        forall|k: int|
            0 <= k <= i ==> pair_coeffs(x, head, negate, j).0[k] == pair_coeffs(
                x,
                head,
                negate,
                i,
            ).0[k],
        forall|k: int|
            0 <= k <= i ==> pair_coeffs(x, head, negate, j).1[k] == pair_coeffs(
                x,
                head,
                negate,
                i,
            ).1[k],
    decreases j,
{
    if i < j {
        lemma_pair_settled(x, head, negate, i, (j - 1) as nat);
    } else if j > 0 {
        lemma_pair_settled(x, head, negate, (i - 1) as nat, (j - 1) as nat);
    }
}

} // verus!
