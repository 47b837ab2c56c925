//! Arithmetic on dual numbers: the four operations between two of them, and
//! between one and a plain number.
use crate::ad::ops::{combinations, permutations, short_side, C};
use crate::ad::{AD, MAX_ORDER};
use crate::scalar::{one, zero, Scalar};
use vstd::prelude::*;

verus! {

/// `x` taken `w` times. Taking it once leaves it as it is.
pub open spec fn weighted<T: Scalar>(w: nat, x: T) -> T {
    if w == 1 {
        x
    } else {
        T::count_spec(w).mul_spec(x)
    }
}

/// The binomially weighted sum of `m` products, added up from the left:
/// for `k` from 0 below `m`, the weight is `C(row, off + k)`, the first
/// factor is taken from `u` and the second from `v`. With `rising`, `u` is
/// walked upwards from `u0` and `v` downwards from `v0`; without it, `u`
/// downwards and `v` upwards. Meant for `m >= 1`.
pub open spec fn convolution<T: Scalar>(
    row: nat,
    off: nat,
    u: Seq<T>,
    u0: int,
    v: Seq<T>,
    v0: int,
    m: nat,
    rising: bool,
) -> T
    decreases m,
{
    let k = m - 1;
    let first = u[if rising {
        u0 + k
    } else {
        u0 - k
    }];
    let second = v[if rising {
        v0 - k
    } else {
        v0 + k
    }];
    let term = weighted(combinations(row, (off + k) as nat), first).mul_spec(second);
    if m <= 1 {
        term
    } else {
        convolution(row, off, u, u0, v, v0, (m - 1) as nat, rising).add_spec(term)
    }
}

/// The coefficients of the quotient of `a` by `b` once the slots up to `i`
/// are worked out; the slots above `i` are still those of `a`.
///
/// Slot 0 is `a[0] / b[0]`. Each later slot solves the product rule for the
/// one unknown: `z[i] = (1 / b[0]) * (a[i] - sum)`, where `sum` runs over the
/// slots of `z` already known.
pub open spec fn quotient<T: Scalar>(a: Seq<T>, b: Seq<T>, i: nat) -> Seq<T>
    decreases i,
{
    if i == 0 {
        a.update(0, a[0].div_spec(b[0]))
    } else {
        let z = quotient(a, b, (i - 1) as nat);
        let sum = convolution(i, 1, b, 1, z, i - 1, i, true);
        z.update(i as int, one::<T>().div_spec(b[0]).mul_spec(a[i as int].sub_spec(sum)))
    }
}

/// The larger of two orders.
pub open spec fn max_order(a: nat, b: nat) -> nat {
    if a >= b {
        a
    } else {
        b
    }
}

/// Up to order 2 every falling factorial is at most 2.
pub proof fn lemma_small_permutations(n: nat, r: nat)
    requires
        r <= n <= 2,
    ensures
        permutations(n, r) <= 2,
        combinations(n, r) <= 2,
{
    reveal_with_fuel(combinations, 3);
    assert(permutations(n, 0) == 1);
    if r >= 1 {
        assert(permutations(n, 1) == permutations(n, 0) * ((n - 0) as nat));
        assert(permutations(n, 1) == n);
    }
    if r == 2 {
        assert(permutations(n, 2) == permutations(n, 1) * ((n - 1) as nat));
        assert(permutations(n, 1) * ((n - 1) as nat) == 2) by (nonlinear_arith)
            requires
                permutations(n, 1) == 2,
                n == 2,
        ;
    }
}

/// `x` taken `w` times.
fn weigh<T: Scalar>(w: usize, x: T) -> (r: T)
    ensures
        r == weighted(w as nat, x),
{
    if w == 1 {
        x
    } else {
        T::from_count(w).mul(x)
    }
}

/// One product of a weighted sum.
fn term<T: Scalar>(row: usize, col: usize, first: T, second: T) -> (r: T)
    requires
        col <= row <= MAX_ORDER,
    ensures
        r == weighted(combinations(row as nat, col as nat), first).mul_spec(second),
{
    proof {
        lemma_small_permutations(row as nat, short_side(row as nat, col as nat));
    }
    weigh(C(row, col), first).mul(second)
}

/// The binomially weighted sum of `m` products of a coefficient of `u` with
/// one of `v`.
pub(crate) fn convolve<T: Scalar>(
    row: usize,
    off: usize,
    u: &AD<T>,
    u0: usize,
    v: &AD<T>,
    v0: usize,
    m: usize,
    rising: bool,
) -> (s: T)
    requires
        1 <= m,
        off + m - 1 <= row <= MAX_ORDER,
        rising ==> u0 + m - 1 < u@.len() && m - 1 <= v0 < v@.len(),
        !rising ==> m - 1 <= u0 < u@.len() && v0 + m - 1 < v@.len(),
    ensures
        s == convolution(row as nat, off as nat, u@, u0 as int, v@, v0 as int, m as nat, rising),
{
    let mut s = term(row, off, u.at(u0), v.at(v0));
    let mut k: usize = 1;
    while k < m
        invariant
            1 <= k <= m,
            off + m - 1 <= row <= MAX_ORDER,
            rising ==> u0 + m - 1 < u@.len() && m - 1 <= v0 < v@.len(),
            !rising ==> m - 1 <= u0 < u@.len() && v0 + m - 1 < v@.len(),
            s == convolution(row as nat, off as nat, u@, u0 as int, v@, v0 as int, k as nat, rising),
        decreases m - k,
    {
        let t = if rising {
            term(row, off + k, u.at(u0 + k), v.at(v0 - k))
        } else {
            term(row, off + k, u.at(u0 - k), v.at(v0 + k))
        };
        s = s.add(t);
        k = k + 1;
    }
    s
}

impl<T: Scalar> AD<T> {
    /// The coefficient at `i`, which must be a slot that the order has.
    pub fn at(&self, i: usize) -> (r: T)
        requires
            i < self@.len(),
        ensures
            r == self@[i as int],
    {
        match self {
            AD::AD0(x) => *x,
            AD::AD1(x, dx) => if i == 0 {
                *x
            } else {
                *dx
            },
            AD::AD2(x, dx, ddx) => if i == 0 {
                *x
            } else if i == 1 {
                *dx
            } else {
                *ddx
            },
        }
    }

    /// The coefficient at `i`, or `None` where the order has no such slot.
    pub fn get(&self, i: usize) -> (r: Option<T>)
        ensures
            r == if i < self@.len() {
                Some(self@[i as int])
            } else {
                None
            },
    {
        if i < self.len() {
            Some(self.at(i))
        } else {
            None
        }
    }

    /// Writes the coefficient at `i`, which must be a slot that the order has.
    pub fn set(&mut self, i: usize, value: T)
        requires
            i < old(self)@.len(),
        ensures
            final(self)@ == old(self)@.update(i as int, value),
            *final(self) == old(self).with_slot(i as int, value),
    {
        let z = match *self {
            AD::AD0(_) => AD::AD0(value),
            AD::AD1(x, dx) => if i == 0 {
                AD::AD1(value, dx)
            } else {
                AD::AD1(x, value)
            },
            AD::AD2(x, dx, ddx) => if i == 0 {
                AD::AD2(value, dx, ddx)
            } else if i == 1 {
                AD::AD2(x, value, ddx)
            } else {
                AD::AD2(x, dx, value)
            },
        };
        proof {
            assert(z@ =~= self@.update(i as int, value));
            z.lemma_view_round_trip();
        }
        *self = z;
    }
}

impl<T: Scalar> Scalar for AD<T> {
    /// A count is a constant: it has order 0.
    open spec fn count_spec(n: nat) -> Self {
        AD::AD0(T::count_spec(n))
    }

    open spec fn epsilon_spec() -> Self {
        AD::AD0(T::epsilon_spec())
    }

    /// Slot by slot, at the larger of the two orders.
    open spec fn add_spec(self, rhs: Self) -> Self {
        let n = max_order(self.order_spec(), rhs.order_spec());
        Self::from_coeffs(Seq::new(n + 1, |i: int| self.slot(i).add_spec(rhs.slot(i))))
    }

    /// Slot by slot, at the larger of the two orders.
    open spec fn sub_spec(self, rhs: Self) -> Self {
        let n = max_order(self.order_spec(), rhs.order_spec());
        Self::from_coeffs(Seq::new(n + 1, |i: int| self.slot(i).sub_spec(rhs.slot(i))))
    }

    /// The Leibniz rule at the larger of the two orders: slot `t` is the sum
    /// over `k` of `C(t, k) * a[k] * b[t - k]`.
    open spec fn mul_spec(self, rhs: Self) -> Self {
        let n = max_order(self.order_spec(), rhs.order_spec());
        let a = self.to_order_spec(n)@;
        let b = rhs.to_order_spec(n)@;
        Self::from_coeffs(
            Seq::new(n + 1, |t: int| convolution(t as nat, 0, a, 0, b, t, (t + 1) as nat, true)),
        )
    }

    /// The Leibniz rule solved for the other factor, at the larger of the
    /// two orders.
    open spec fn div_spec(self, rhs: Self) -> Self {
        let n = max_order(self.order_spec(), rhs.order_spec());
        Self::from_coeffs(quotient(self.to_order_spec(n)@, rhs.to_order_spec(n)@, n))
    }

    open spec fn neg_spec(self) -> Self {
        Self::from_coeffs(Seq::new(self@.len(), |i: int| self@[i].neg_spec()))
    }

    /// Dual numbers are ordered by their values.
    open spec fn ge_spec(self, rhs: Self) -> bool {
        self@[0].ge_spec(rhs@[0])
    }

    open spec fn floor_spec(self) -> usize {
        self@[0].floor_spec()
    }

    fn from_count(n: usize) -> (r: Self) {
        AD::AD0(T::from_count(n))
    }

    fn epsilon() -> (r: Self) {
        AD::AD0(T::epsilon())
    }

    fn add(self, rhs: Self) -> (r: Self)
        ensures
            r.order_spec() == max_order(self.order_spec(), rhs.order_spec()),
    {
        let ord = if self.order() >= rhs.order() {
            self.order()
        } else {
            rhs.order()
        };
        let a = self.to_order(ord);
        let b = rhs.to_order(ord);
        let mut z = a;
        let ghost want = Seq::new((ord + 1) as nat, |i: int| self.slot(i).add_spec(rhs.slot(i)));
        let mut i: usize = 0;
        while i <= ord
            invariant
                i <= ord + 1,
                ord <= MAX_ORDER,
                a@.len() == ord + 1,
                b@.len() == ord + 1,
                z@.len() == ord + 1,
                forall|j: int| 0 <= j <= ord ==> a@[j] == self.slot(j) && b@[j] == rhs.slot(j),
                forall|j: int| 0 <= j < i ==> z@[j] == want[j],
                want.len() == ord + 1,
                forall|j: int| 0 <= j <= ord ==> want[j] == self.slot(j).add_spec(rhs.slot(j)),
            decreases ord + 1 - i,
        {
            z.set(i, a.at(i).add(b.at(i)));
            i = i + 1;
        }
        proof {
            assert(z@ =~= want);
            z.lemma_view_round_trip();
        }
        z
    }

    fn sub(self, rhs: Self) -> (r: Self)
        ensures
            r.order_spec() == max_order(self.order_spec(), rhs.order_spec()),
    {
        let ord = if self.order() >= rhs.order() {
            self.order()
        } else {
            rhs.order()
        };
        let a = self.to_order(ord);
        let b = rhs.to_order(ord);
        let mut z = a;
        let ghost want = Seq::new((ord + 1) as nat, |i: int| self.slot(i).sub_spec(rhs.slot(i)));
        let mut i: usize = 0;
        while i <= ord
            invariant
                i <= ord + 1,
                ord <= MAX_ORDER,
                a@.len() == ord + 1,
                b@.len() == ord + 1,
                z@.len() == ord + 1,
                forall|j: int| 0 <= j <= ord ==> a@[j] == self.slot(j) && b@[j] == rhs.slot(j),
                forall|j: int| 0 <= j < i ==> z@[j] == want[j],
                want.len() == ord + 1,
                forall|j: int| 0 <= j <= ord ==> want[j] == self.slot(j).sub_spec(rhs.slot(j)),
            decreases ord + 1 - i,
        {
            z.set(i, a.at(i).sub(b.at(i)));
            i = i + 1;
        }
        proof {
            assert(z@ =~= want);
            z.lemma_view_round_trip();
        }
        z
    }

    fn mul(self, rhs: Self) -> (r: Self)
        ensures
            r.order_spec() == max_order(self.order_spec(), rhs.order_spec()),
    {
        let ord = if self.order() >= rhs.order() {
            self.order()
        } else {
            rhs.order()
        };
        let a = self.to_order(ord);
        let b = rhs.to_order(ord);
        let mut z = a;
        let ghost want = Seq::new(
            (ord + 1) as nat,
            |t: int| convolution(t as nat, 0, a@, 0, b@, t, (t + 1) as nat, true),
        );
        let mut t: usize = 0;
        while t <= ord
            invariant
                t <= ord + 1,
                ord <= MAX_ORDER,
                a@.len() == ord + 1,
                b@.len() == ord + 1,
                z@.len() == ord + 1,
                forall|j: int| 0 <= j < t ==> z@[j] == want[j],
                want.len() == ord + 1,
                forall|j: int|
                    0 <= j <= ord ==> want[j] == convolution(
                        j as nat,
                        0,
                        a@,
                        0,
                        b@,
                        j,
                        (j + 1) as nat,
                        true,
                    ),
            decreases ord + 1 - t,
        {
            z.set(t, convolve(t, 0, &a, 0, &b, t, t + 1, true));
            t = t + 1;
        }
        proof {
            assert(z@ =~= want);
            z.lemma_view_round_trip();
        }
        z
    }

    fn div(self, rhs: Self) -> (r: Self)
        ensures
            r.order_spec() == max_order(self.order_spec(), rhs.order_spec()),
    {
        let ord = if self.order() >= rhs.order() {
            self.order()
        } else {
            rhs.order()
        };
        let a = self.to_order(ord);
        let b = rhs.to_order(ord);
        let mut z = a;
        z.set(0, a.at(0).div(b.at(0)));
        let y0 = T::from_count(1).div(b.at(0));
        let mut i: usize = 1;
        while i <= ord
            invariant
                1 <= i <= ord + 1,
                ord <= MAX_ORDER,
                a@.len() == ord + 1,
                b@.len() == ord + 1,
                z@.len() == ord + 1,
                y0 == one::<T>().div_spec(b@[0]),
                z@ == quotient(a@, b@, (i - 1) as nat),
            decreases ord + 1 - i,
        {
            let s = convolve(i, 1, &b, 1, &z, i - 1, i, true);
            z.set(i, y0.mul(a.at(i).sub(s)));
            i = i + 1;
        }
        proof {
            z.lemma_view_round_trip();
        }
        z
    }

    fn neg(self) -> (r: Self)
        ensures
            r.order_spec() == self.order_spec(),
    {
        let mut z = self;
        let ghost want = Seq::new(self@.len(), |i: int| self@[i].neg_spec());
        let mut i: usize = 0;
        while i < self.len()
            invariant
                i <= self@.len(),
                z@.len() == self@.len(),
                forall|j: int| 0 <= j < i ==> z@[j] == want[j],
                want.len() == self@.len(),
                forall|j: int| 0 <= j < self@.len() ==> want[j] == self@[j].neg_spec(),
            decreases self@.len() - i,
        {
            z.set(i, self.at(i).neg());
            i = i + 1;
        }
        proof {
            assert(z@ =~= want);
            z.lemma_view_round_trip();
        }
        z
    }

    fn ge(self, rhs: Self) -> (b: bool) {
        self.x().ge(rhs.x())
    }

    fn floor(self) -> (n: usize) {
        self.x().floor()
    }
}

impl<T: Scalar> AD<T> {
    /// Every coefficient of `self` times `rhs`.
    pub open spec fn mul_scalar_spec(self, rhs: T) -> Self {
        Self::from_coeffs(Seq::new(self@.len(), |i: int| self@[i].mul_spec(rhs)))
    }

    /// Every coefficient of `self` divided by `rhs`.
    pub open spec fn div_scalar_spec(self, rhs: T) -> Self {
        Self::from_coeffs(Seq::new(self@.len(), |i: int| self@[i].div_spec(rhs)))
    }

    /// The constant `lhs` at the order of `rhs`, minus `rhs`.
    pub open spec fn scalar_sub_spec(lhs: T, rhs: Self) -> Self {
        Self::zeros(rhs.order_spec()).with_slot(0, lhs).sub_spec(rhs)
    }

    /// `self + rhs` for a plain number `rhs`: the value moves, the derivatives
    /// and the order stay.
    pub fn add_scalar(self, rhs: T) -> (r: Self)
        ensures
            r == self.with_slot(0, self@[0].add_spec(rhs)),
            r.order_spec() == self.order_spec(),
    {
        let mut z = self;
        z.set(0, self.x().add(rhs));
        z
    }

    /// `self - rhs` for a plain number `rhs`.
    pub fn sub_scalar(self, rhs: T) -> (r: Self)
        ensures
            r == self.with_slot(0, self@[0].sub_spec(rhs)),
            r.order_spec() == self.order_spec(),
    {
        let mut z = self;
        z.set(0, self.x().sub(rhs));
        z
    }

    /// `self * rhs` for a plain number `rhs`: every coefficient is scaled.
    pub fn mul_scalar(self, rhs: T) -> (r: Self)
        ensures
            r == self.mul_scalar_spec(rhs),
            r.order_spec() == self.order_spec(),
    {
        let mut z = self;
        let ghost want = Seq::new(self@.len(), |i: int| self@[i].mul_spec(rhs));
        let mut i: usize = 0;
        while i < self.len()
            invariant
                i <= self@.len(),
                z@.len() == self@.len(),
                forall|j: int| 0 <= j < i ==> z@[j] == want[j],
                want.len() == self@.len(),
                forall|j: int| 0 <= j < self@.len() ==> want[j] == self@[j].mul_spec(rhs),
            decreases self@.len() - i,
        {
            z.set(i, self.at(i).mul(rhs));
            i = i + 1;
        }
        proof {
            assert(z@ =~= want);
            z.lemma_view_round_trip();
        }
        z
    }

    /// `self / rhs` for a plain number `rhs`: every coefficient is divided.
    pub fn div_scalar(self, rhs: T) -> (r: Self)
        ensures
            r == self.div_scalar_spec(rhs),
            r.order_spec() == self.order_spec(),
    {
        let mut z = self;
        let ghost want = Seq::new(self@.len(), |i: int| self@[i].div_spec(rhs));
        let mut i: usize = 0;
        while i < self.len()
            invariant
                i <= self@.len(),
                z@.len() == self@.len(),
                forall|j: int| 0 <= j < i ==> z@[j] == want[j],
                want.len() == self@.len(),
                forall|j: int| 0 <= j < self@.len() ==> want[j] == self@[j].div_spec(rhs),
            decreases self@.len() - i,
        {
            z.set(i, self.at(i).div(rhs));
            i = i + 1;
        }
        proof {
            assert(z@ =~= want);
            z.lemma_view_round_trip();
        }
        z
    }

    /// `lhs + rhs` for a plain number `lhs`.
    pub fn scalar_add(lhs: T, rhs: Self) -> (r: Self)
        ensures
            r == rhs.with_slot(0, rhs@[0].add_spec(lhs)),
            r.order_spec() == rhs.order_spec(),
    {
        let mut z = rhs;
        z.set(0, rhs.x().add(lhs));
        z
    }

    /// `lhs - rhs` for a plain number `lhs`: `lhs` becomes a constant of the
    /// order of `rhs`, and `rhs` is taken from it slot by slot.
    pub fn scalar_sub(lhs: T, rhs: Self) -> (r: Self)
        ensures
            r == Self::scalar_sub_spec(lhs, rhs),
            r.order_spec() == rhs.order_spec(),
    {
        let mut z = rhs.empty();
        z.set(0, lhs);
        z.sub(rhs)
    }

    /// `lhs * rhs` for a plain number `lhs`: every coefficient is scaled.
    pub fn scalar_mul(lhs: T, rhs: Self) -> (r: Self)
        ensures
            r == rhs.mul_scalar_spec(lhs),
            r.order_spec() == rhs.order_spec(),
    {
        rhs.mul_scalar(lhs)
    }

    /// `lhs / rhs` for a plain number `lhs`: the quotient of the constant
    /// `lhs` by `rhs`.
    pub fn scalar_div(lhs: T, rhs: Self) -> (r: Self)
        ensures
            r == AD::AD0(lhs).div_spec(rhs),
            r.order_spec() == rhs.order_spec(),
    {
        AD::AD0(lhs).div(rhs)
    }

    /// Product rule: where both factors carry a first derivative, the first
    /// derivative of the product is `a.value * b.deriv + a.deriv * b.value`,
    /// and its value is `a.value * b.value`.
    pub proof fn lemma_product_rule(a: Self, b: Self)
        requires
            a.order_spec() >= 1,
            b.order_spec() >= 1,
        ensures
            a.mul_spec(b)@[0] == a@[0].mul_spec(b@[0]),
            a.mul_spec(b)@[1] == a@[0].mul_spec(b@[1]).add_spec(a@[1].mul_spec(b@[0])),
    {
        let n = max_order(a.order_spec(), b.order_spec());
        let p = a.to_order_spec(n)@;
        let q = b.to_order_spec(n)@;
        let s = Seq::new(n + 1, |t: int| convolution(t as nat, 0, p, 0, q, t, (t + 1) as nat, true));
        Self::lemma_from_coeffs(Seq::new(n + 1, |i: int| a.slot(i)));
        Self::lemma_from_coeffs(Seq::new(n + 1, |i: int| b.slot(i)));
        Self::lemma_from_coeffs(s);
        reveal_with_fuel(combinations, 3);
        reveal_with_fuel(convolution, 3);
        assert(s[0] == convolution(0, 0, p, 0, q, 0, 1, true));
        assert(s[1] == convolution(1, 0, p, 0, q, 1, 2, true));
    }

    /// The second derivative of a product of two dual numbers of order 2:
    /// `a * b'' + 2 * a' * b' + a'' * b`.
    pub proof fn lemma_product_rule_second(a: Self, b: Self)
        requires
            a.order_spec() == 2,
            b.order_spec() == 2,
        ensures
            a.mul_spec(b)@[2] == a@[0].mul_spec(b@[2]).add_spec(
                T::count_spec(2).mul_spec(a@[1]).mul_spec(b@[1]),
            ).add_spec(a@[2].mul_spec(b@[0])),
    {
        let p = a.to_order_spec(2)@;
        let q = b.to_order_spec(2)@;
        let s = Seq::new(3, |t: int| convolution(t as nat, 0, p, 0, q, t, (t + 1) as nat, true));
        Self::lemma_from_coeffs(Seq::new(3, |i: int| a.slot(i)));
        Self::lemma_from_coeffs(Seq::new(3, |i: int| b.slot(i)));
        Self::lemma_from_coeffs(s);
        reveal_with_fuel(combinations, 4);
        reveal_with_fuel(convolution, 4);
        assert(s[2] == convolution(2, 0, p, 0, q, 2, 3, true));
    }

    /// A sum or a difference is taken slot by slot, and a slot that one side
    /// lacks counts as zero.
    pub proof fn lemma_sum_slots(a: Self, b: Self, i: int)
        requires
            0 <= i <= max_order(a.order_spec(), b.order_spec()),
        ensures
            a.add_spec(b).order_spec() == max_order(a.order_spec(), b.order_spec()),
            a.sub_spec(b).order_spec() == max_order(a.order_spec(), b.order_spec()),
            a.add_spec(b)@[i] == a.slot(i).add_spec(b.slot(i)),
            a.sub_spec(b)@[i] == a.slot(i).sub_spec(b.slot(i)),
    {
        let n = max_order(a.order_spec(), b.order_spec());
        Self::lemma_from_coeffs(Seq::new(n + 1, |i: int| a.slot(i).add_spec(b.slot(i))));
        Self::lemma_from_coeffs(Seq::new(n + 1, |i: int| a.slot(i).sub_spec(b.slot(i))));
    }

    /// The quotient of two dual numbers that carry a first derivative:
    /// its value is `a / b`, and its first derivative is
    /// `(1 / b) * (a' - b' * (a / b))`.
    pub proof fn lemma_quotient_rule(a: Self, b: Self)
        requires
            a.order_spec() >= 1,
            b.order_spec() >= 1,
        ensures
            a.div_spec(b)@[0] == a@[0].div_spec(b@[0]),
            a.div_spec(b)@[1] == one::<T>().div_spec(b@[0]).mul_spec(
                a@[1].sub_spec(b@[1].mul_spec(a@[0].div_spec(b@[0]))),
            ),
    {
        let n = max_order(a.order_spec(), b.order_spec());
        let p = a.to_order_spec(n)@;
        let q = b.to_order_spec(n)@;
        Self::lemma_from_coeffs(Seq::new(n + 1, |i: int| a.slot(i)));
        Self::lemma_from_coeffs(Seq::new(n + 1, |i: int| b.slot(i)));
        lemma_quotient_shape(p, q, n);
        Self::lemma_from_coeffs(quotient(p, q, n));
        reveal_with_fuel(combinations, 3);
        reveal_with_fuel(convolution, 3);
        reveal_with_fuel(quotient, 3);
        lemma_quotient_stable(p, q, 1, n);
    }
}

/// Working out a quotient keeps the number of coefficients.
pub proof fn lemma_quotient_shape<T: Scalar>(a: Seq<T>, b: Seq<T>, i: nat)
    requires
        i < a.len(),
    ensures
        quotient(a, b, i).len() == a.len(),
    decreases i,
{
    if i > 0 {
        lemma_quotient_shape(a, b, (i - 1) as nat);
    }
}

/// A slot of a quotient, once worked out, is not touched again.
pub proof fn lemma_quotient_stable<T: Scalar>(a: Seq<T>, b: Seq<T>, i: nat, j: nat)
    requires
        i <= j < a.len(),
    ensures
        forall|k: int| 0 <= k <= i ==> quotient(a, b, j)[k] == quotient(a, b, i)[k],
    decreases j,
{
    if i < j {
        lemma_quotient_stable(a, b, i, (j - 1) as nat);
        lemma_quotient_shape(a, b, (j - 1) as nat);
    }
}

impl<T: Scalar> From<T> for AD<T> {
    /// A plain number as a dual number of order 0.
    fn from(other: T) -> (r: Self) {
        AD::AD0(other)
    }
}

impl<T: Scalar> vstd::std_specs::convert::FromSpecImpl<T> for AD<T> {
    open spec fn obeys_from_spec() -> bool {
        true
    }

    open spec fn from_spec(other: T) -> Self {
        AD::AD0(other)
    }
}

} // verus!
