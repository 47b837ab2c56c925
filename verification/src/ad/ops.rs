//! Counting functions behind the Leibniz weights, and the families of
//! operations that numbers and dual numbers share.
use crate::ad::AD;
use crate::scalar::Scalar;
use vstd::prelude::*;

verus! {

/// `n!`, the product `1 * 2 * ... * n`.
pub open spec fn factorial_spec(n: nat) -> nat
    decreases n,
{
    if n == 0 {
        1
    } else {
        n * factorial_spec((n - 1) as nat)
    }
}

/// `n!!`, the product `n * (n - 2) * (n - 4) * ...` down to 2 or 1.
pub open spec fn double_factorial_spec(n: nat) -> nat
    decreases n,
{
    if n < 2 {
        1
    } else {
        n * double_factorial_spec((n - 2) as nat)
    }
}

/// The falling factorial `n * (n - 1) * ... * (n - r + 1)`: the number of
/// ways to line up `r` out of `n` things, which is 0 for an `r` above `n`.
pub open spec fn permutations(n: nat, r: nat) -> nat
    decreases r,
{
    if r == 0 {
        1
    } else {
        permutations(n, (r - 1) as nat) * ((n - (r - 1)) as nat)
    }
}

/// The binomial coefficient, by Pascal's rule.
pub open spec fn combinations(n: nat, r: nat) -> nat
    decreases n,
{
    if r == 0 {
        1
    } else if n == 0 {
        0
    } else {
        combinations((n - 1) as nat, (r - 1) as nat) + combinations((n - 1) as nat, r)
    }
}

/// The smaller of `r` and `n - r`: the number of factors that [`C`] multiplies.
pub open spec fn short_side(n: nat, r: nat) -> nat {
    if r > n / 2 {
        (n - r) as nat
    } else {
        r
    }
}

/// No factorial is zero.
pub proof fn lemma_factorial_positive(n: nat)
    ensures
        factorial_spec(n) >= 1,
    decreases n,
{
    if n > 0 {
        lemma_factorial_positive((n - 1) as nat);
        assert(n * factorial_spec((n - 1) as nat) >= 1) by (nonlinear_arith)
            requires
                n >= 1,
                factorial_spec((n - 1) as nat) >= 1,
        ;
    }
}

/// Factorials grow with their argument.
pub proof fn lemma_factorial_monotonic(i: nat, j: nat)
    requires
        i <= j,
    ensures
        factorial_spec(i) <= factorial_spec(j),
    decreases j,
{
    if i < j {
        lemma_factorial_monotonic(i, (j - 1) as nat);
        lemma_factorial_positive((j - 1) as nat);
        assert(factorial_spec((j - 1) as nat) <= j * factorial_spec((j - 1) as nat))
            by (nonlinear_arith)
            requires
                j >= 1,
        ;
    }
}

/// Dropping the last two factors never makes a double factorial larger.
pub proof fn lemma_double_factorial_step(n: nat)
    requires
        n >= 2,
    ensures
        double_factorial_spec((n - 2) as nat) >= 1,
        double_factorial_spec((n - 2) as nat) <= double_factorial_spec(n),
    decreases n,
{
    if n >= 4 {
        lemma_double_factorial_step((n - 2) as nat);
    }
    assert(double_factorial_spec((n - 2) as nat) <= n * double_factorial_spec((n - 2) as nat))
        by (nonlinear_arith)
        requires
            n >= 2,
    ;
}

/// A shorter line-up has no more arrangements than a longer one.
pub proof fn lemma_permutations_monotonic(n: nat, i: nat, j: nat)
    requires
        i <= j <= n,
    ensures
        1 <= permutations(n, i) <= permutations(n, j),
    decreases j,
{
    if j == 0 {
    } else if i == j {
        lemma_permutations_monotonic(n, (i - 1) as nat, (j - 1) as nat);
        assert(permutations(n, (j - 1) as nat) * ((n - (j - 1)) as nat) >= 1) by (nonlinear_arith)
            requires
                permutations(n, (j - 1) as nat) >= 1,
                (n - (j - 1)) as nat >= 1,
        ;
    } else {
        lemma_permutations_monotonic(n, i, (j - 1) as nat);
        assert(permutations(n, (j - 1) as nat) <= permutations(n, (j - 1) as nat) * ((n - (j - 1)) as nat))
            by (nonlinear_arith)
            requires
                (n - (j - 1)) as nat >= 1,
        ;
    }
}

/// The falling factorial can also be peeled from the front:
/// `P(n, r) = n * P(n - 1, r - 1)`.
pub proof fn lemma_permutations_front(n: nat, r: nat)
    requires
        1 <= r <= n,
    ensures
        permutations(n, r) == n * permutations((n - 1) as nat, (r - 1) as nat),
    decreases r,
{
    let m = (n - 1) as nat;
    let k = (n - (r - 1)) as nat;
    assert(permutations(n, r) == permutations(n, (r - 1) as nat) * k);
    if r == 1 {
        assert(permutations(n, 0) == 1);
        assert(permutations(m, 0) == 1);
        assert(k == n);
        assert(permutations(n, 0) * k == n * permutations(m, 0)) by (nonlinear_arith)
            requires
                permutations(n, 0) == 1,
                permutations(m, 0) == 1,
                k == n,
        ;
    } else {
        lemma_permutations_front(n, (r - 1) as nat);
        let a = permutations(m, (r - 2) as nat);
        assert(permutations(n, (r - 1) as nat) == n * a);
        assert(permutations(m, (r - 1) as nat) == a * ((m - (r - 2)) as nat));
        assert((m - (r - 2)) as nat == k);
        assert((n * a) * k == n * (a * k)) by (nonlinear_arith);
        assert(permutations(n, r) == n * permutations(m, (r - 1) as nat));
    }
}

/// Picking more than there is cannot be done.
pub proof fn lemma_combinations_beyond(n: nat, r: nat)
    requires
        r > n,
    ensures
        combinations(n, r) == 0,
    decreases n,
{
    if n > 0 {
        lemma_combinations_beyond((n - 1) as nat, (r - 1) as nat);
        lemma_combinations_beyond((n - 1) as nat, r);
    }
}

/// There is exactly one way to pick everything.
pub proof fn lemma_combinations_all(n: nat)
    ensures
        combinations(n, n) == 1,
    decreases n,
{
    if n > 0 {
        lemma_combinations_all((n - 1) as nat);
        lemma_combinations_beyond((n - 1) as nat, n);
    }
}

/// Picking `r` is leaving `n - r`: `C(n, r) = C(n, n - r)`.
pub proof fn lemma_combinations_symmetric(n: nat, r: nat)
    requires
        r <= n,
    ensures
        combinations(n, r) == combinations(n, (n - r) as nat),
    decreases n,
{
    if r == 0 || r == n {
        lemma_combinations_all(n);
    } else {
        lemma_combinations_symmetric((n - 1) as nat, (r - 1) as nat);
        lemma_combinations_symmetric((n - 1) as nat, r);
    }
}

/// Line-ups are choices times orderings: `P(n, r) = C(n, r) * r!`.
pub proof fn lemma_permutations_are_ordered_combinations(n: nat, r: nat)
    requires
        r <= n,
    ensures
        permutations(n, r) == combinations(n, r) * factorial_spec(r),
    decreases n,
{
    if r == 0 {
        assert(combinations(n, 0) * factorial_spec(0) == 1) by (nonlinear_arith)
            requires
                combinations(n, 0) == 1,
                factorial_spec(0) == 1,
        ;
    } else {
        let m = (n - 1) as nat;
        let q = (r - 1) as nat;
        let p = permutations(m, q);
        let f = factorial_spec(q);
        let cq = combinations(m, q);
        let cr = combinations(m, r);
        lemma_permutations_front(n, r);
        lemma_permutations_are_ordered_combinations(m, q);
        assert(p == cq * f);
        assert(factorial_spec(r) == r * f);
        assert(combinations(n, r) == cq + cr);
        if r == n {
            lemma_combinations_beyond(m, r);
            assert((cq + cr) * (r * f) == n * p) by (nonlinear_arith)
                requires
                    p == cq * f,
                    cr == 0,
                    r == n,
            ;
        } else {
            lemma_permutations_are_ordered_combinations(m, r);
            assert(permutations(m, r) == p * ((m - q) as nat));
            assert(permutations(m, r) == cr * (r * f));
            assert((cq + cr) * (r * f) == n * p) by (nonlinear_arith)
                requires
                    p == cq * f,
                    p * ((m - q) as nat) == cr * (r * f),
                    (m - q) as nat + r == n,
            ;
        }
    }
}

/// Whatever can be picked can be picked in at least one way.
pub proof fn lemma_combinations_positive(n: nat, r: nat)
    requires
        r <= n,
    ensures
        combinations(n, r) >= 1,
    decreases n,
{
    if r > 0 && n > 0 {
        lemma_combinations_positive((n - 1) as nat, (r - 1) as nat);
    }
}

/// The factorial `n!`.
pub fn factorial(n: usize) -> (p: usize)
    requires
        factorial_spec(n as nat) <= usize::MAX,
    ensures
        p == factorial_spec(n as nat),
{
    let mut p: usize = 1;
    let mut i: usize = 0;
    while i < n
        invariant
            i <= n,
            p == factorial_spec(i as nat),
            factorial_spec(n as nat) <= usize::MAX,
        decreases n - i,
    {
        i = i + 1;
        proof {
            lemma_factorial_monotonic(i as nat, n as nat);
            assert(factorial_spec(i as nat) == i * p);
        }
        p = p * i;
    }
    p
}

/// The double factorial `n!!`.
pub fn double_factorial(n: usize) -> (s: usize)
    requires
        double_factorial_spec(n as nat) <= usize::MAX,
    ensures
        s == double_factorial_spec(n as nat),
{
    let mut s: usize = 1;
    let mut m: usize = n;
    while m >= 2
        invariant
            m <= n,
            s * double_factorial_spec(m as nat) == double_factorial_spec(n as nat),
            double_factorial_spec(n as nat) <= usize::MAX,
        decreases m,
    {
        proof {
            let rest = double_factorial_spec((m - 2) as nat);
            lemma_double_factorial_step(m as nat);
            assert(s * (m * rest) == (s * m) * rest) by (nonlinear_arith);
            assert(s * m <= (s * m) * rest) by (nonlinear_arith)
                requires
                    rest >= 1,
            ;
        }
        s = s * m;
        m = m - 2;
    }
    proof {
        assert(double_factorial_spec(m as nat) == 1);
        assert(s * 1 == s) by (nonlinear_arith);
    }
    s
}

/// The number of things that are lined up at most: `r`, but no more than
/// there are.
pub open spec fn lined_up(n: nat, r: nat) -> nat {
    if r <= n {
        r
    } else {
        n
    }
}

/// Permutation: the number of ways to line up `r` out of `n` things. There
/// is no way to line up one more than there are.
#[allow(non_snake_case)]
pub fn P(n: usize, r: usize) -> (p: usize)
    requires
        r <= n + 1,
        permutations(n as nat, lined_up(n as nat, r as nat)) <= usize::MAX,
    ensures
        p == permutations(n as nat, r as nat),
        r > n ==> p == 0,
{
    let mut p: usize = 1;
    let mut i: usize = 0;
    while i < r
        invariant
            i <= r <= n + 1,
            p == permutations(n as nat, i as nat),
            i > n ==> p == 0,
            permutations(n as nat, lined_up(n as nat, r as nat)) <= usize::MAX,
        decreases r - i,
    {
        proof {
            assert(permutations(n as nat, (i + 1) as nat) == p * ((n - i) as nat));
            if i < n {
                lemma_permutations_monotonic(
                    n as nat,
                    (i + 1) as nat,
                    lined_up(n as nat, r as nat),
                );
            } else {
                assert(p * ((n - i) as nat) == 0) by (nonlinear_arith)
                    requires
                        (n - i) as nat == 0,
                ;
            }
        }
        p = p * (n - i);
        i = i + 1;
    }
    p
}

/// Combination: the number of ways to pick `r` out of `n` things.
///
/// The shorter of the two equal counts `C(n, r)` and `C(n, n - r)` is the one
/// computed, so only the falling factorial of that length has to fit.
#[allow(non_snake_case)]
pub fn C(n: usize, r: usize) -> (c: usize)
    requires
        r <= n,
        permutations(n as nat, short_side(n as nat, r as nat)) <= usize::MAX,
    ensures
        c == combinations(n as nat, r as nat),
{
    let k: usize = if r > n / 2 {
        n - r
    } else {
        r
    };
    proof {
        lemma_combinations_symmetric(n as nat, r as nat);
        lemma_permutations_are_ordered_combinations(n as nat, k as nat);
        lemma_combinations_positive(n as nat, k as nat);
        lemma_factorial_positive(k as nat);
        assert(factorial_spec(k as nat) <= combinations(n as nat, k as nat) * factorial_spec(k as nat))
            by (nonlinear_arith)
            requires
                combinations(n as nat, k as nat) >= 1,
        ;
        assert((combinations(n as nat, k as nat) * factorial_spec(k as nat)) / factorial_spec(k as nat)
            == combinations(n as nat, k as nat)) by (nonlinear_arith)
            requires
                factorial_spec(k as nat) >= 1,
        ;
    }
    P(n, k) / factorial(k)
}

/// Combination with repetition: the number of ways to pick `r` out of `n`
/// kinds of thing when a kind may be picked again, `C(n + r - 1, r)`.
#[allow(non_snake_case)]
pub fn H(n: usize, r: usize) -> (h: usize)
    requires
        n >= 1,
        n + r - 1 <= usize::MAX,
        permutations((n + r - 1) as nat, short_side((n + r - 1) as nat, r as nat)) <= usize::MAX,
    ensures
        h == combinations((n + r - 1) as nat, r as nat),
{
    C(n - 1 + r, r)
}

/// The exponential and the logarithms.
///
/// As in [`Scalar`], every method returns what the specification function
/// of its name names, and the specification functions default to an
/// unspecified value.
pub trait ExpLogOps: Sized {
    /// The plain numbers that stand beside `Self`, such as the base of a
    /// logarithm.
    type Real;

    open spec fn exp_spec(self) -> Self {
        arbitrary()
    }

    open spec fn ln_spec(self) -> Self {
        arbitrary()
    }

    open spec fn log_spec(self, base: Self::Real) -> Self {
        arbitrary()
    }

    open spec fn log2_spec(self) -> Self {
        arbitrary()
    }

    open spec fn log10_spec(self) -> Self {
        arbitrary()
    }

    fn exp(&self) -> (r: Self)
        ensures
            r == self.exp_spec(),
    ;

    fn ln(&self) -> (r: Self)
        ensures
            r == self.ln_spec(),
    ;

    fn log(&self, base: Self::Real) -> (r: Self)
        ensures
            r == self.log_spec(base),
    ;

    fn log2(&self) -> (r: Self)
        ensures
            r == self.log2_spec(),
    ;

    fn log10(&self) -> (r: Self)
        ensures
            r == self.log10_spec(),
    ;
}

/// Powers and the square root.
///
/// As in [`Scalar`], every method returns what the specification function
/// of its name names, and the specification functions default to an
/// unspecified value.
pub trait PowOps: Sized {
    /// The plain numbers that stand beside `Self`, such as a real exponent.
    type Real;

    open spec fn powi_spec(self, n: i32) -> Self {
        arbitrary()
    }

    open spec fn powf_spec(self, f: Self::Real) -> Self {
        arbitrary()
    }

    open spec fn pow_spec(self, f: Self) -> Self {
        arbitrary()
    }

    open spec fn sqrt_spec(self) -> Self {
        arbitrary()
    }

    fn powi(&self, n: i32) -> (r: Self)
        ensures
            r == self.powi_spec(n),
    ;

    fn powf(&self, f: Self::Real) -> (r: Self)
        ensures
            r == self.powf_spec(f),
    ;

    fn pow(&self, f: Self) -> (r: Self)
        ensures
            r == self.pow_spec(f),
    ;

    fn sqrt(&self) -> (r: Self)
        ensures
            r == self.sqrt_spec(),
    ;
}

/// The circular and hyperbolic functions and their inverses.
///
/// As in [`Scalar`], every method returns what the specification function
/// of its name names, and the specification functions default to an
/// unspecified value.
pub trait TrigOps: Sized {
    open spec fn sin_cos_spec(self) -> (Self, Self) {
        arbitrary()
    }

    open spec fn tan_spec(self) -> Self {
        arbitrary()
    }

    open spec fn sinh_cosh_spec(self) -> (Self, Self) {
        arbitrary()
    }

    open spec fn tanh_spec(self) -> Self {
        arbitrary()
    }

    open spec fn asin_spec(self) -> Self {
        arbitrary()
    }

    open spec fn acos_spec(self) -> Self {
        arbitrary()
    }

    open spec fn atan_spec(self) -> Self {
        arbitrary()
    }

    open spec fn asinh_spec(self) -> Self {
        arbitrary()
    }

    open spec fn acosh_spec(self) -> Self {
        arbitrary()
    }

    open spec fn atanh_spec(self) -> Self {
        arbitrary()
    }

    fn sin_cos(&self) -> (r: (Self, Self))
        ensures
            r == self.sin_cos_spec(),
    ;

    fn sin(&self) -> (r: Self)
        ensures
            r == self.sin_cos_spec().0,
    {
        let (s, _) = self.sin_cos();
        s
    }

    fn cos(&self) -> (r: Self)
        ensures
            r == self.sin_cos_spec().1,
    {
        let (_, c) = self.sin_cos();
        c
    }

    fn tan(&self) -> (r: Self)
        ensures
            r == self.tan_spec(),
    ;

    fn sinh_cosh(&self) -> (r: (Self, Self))
        ensures
            r == self.sinh_cosh_spec(),
    ;

    fn sinh(&self) -> (r: Self)
        ensures
            r == self.sinh_cosh_spec().0,
    {
        let (s, _) = self.sinh_cosh();
        s
    }

    fn cosh(&self) -> (r: Self)
        ensures
            r == self.sinh_cosh_spec().1,
    {
        let (_, c) = self.sinh_cosh();
        c
    }

    fn tanh(&self) -> (r: Self)
        ensures
            r == self.tanh_spec(),
    ;

    fn asin(&self) -> (r: Self)
        ensures
            r == self.asin_spec(),
    ;

    fn acos(&self) -> (r: Self)
        ensures
            r == self.acos_spec(),
    ;

    fn atan(&self) -> (r: Self)
        ensures
            r == self.atan_spec(),
    ;

    fn asin_acos(&self) -> (r: (Self, Self))
        ensures
            r == (self.asin_spec(), self.acos_spec()),
    {
        (self.asin(), self.acos())
    }

    fn asinh(&self) -> (r: Self)
        ensures
            r == self.asinh_spec(),
    ;

    fn acosh(&self) -> (r: Self)
        ensures
            r == self.acosh_spec(),
    ;

    fn atanh(&self) -> (r: Self)
        ensures
            r == self.atanh_spec(),
    ;

    fn asinh_acosh(&self) -> (r: (Self, Self))
        ensures
            r == (self.asinh_spec(), self.acosh_spec()),
    {
        (self.asinh(), self.acosh())
    }
}

/// Something that can be called like a function of `T`.
///
/// As with a closure, a call may be refused and need not be repeatable: the
/// implementor says by `stable_requires` which arguments it takes and by
/// `stable_ensures` which results it may give for them.
pub trait StableFn<T> {
    type Output;

    open spec fn stable_requires(&self, target: T) -> bool {
        arbitrary()
    }

    open spec fn stable_ensures(&self, target: T, out: Self::Output) -> bool {
        arbitrary()
    }

    fn call_stable(&self, target: T) -> (out: Self::Output)
        requires
            self.stable_requires(target),
        ensures
            self.stable_ensures(target, out),
    ;
}

/// Plain numbers that can be lifted to dual numbers, one by one.
pub trait ADArray {
    type Array;

    /// Whether `out` is `self` with every number lifted to order 0.
    open spec fn lifts_to(&self, out: &Self::Array) -> bool {
        arbitrary()
    }

    fn to_ad(&self) -> (out: Self::Array)
        ensures
            self.lifts_to(&out),
    ;
}

impl<T: Scalar> ADArray for Vec<T> {
    type Array = Vec<AD<T>>;

    open spec fn lifts_to(&self, out: &Vec<AD<T>>) -> bool {
        out@ == lifted(self@)
    }

    fn to_ad(&self) -> (out: Vec<AD<T>>) {
        let mut out: Vec<AD<T>> = Vec::with_capacity(self.len());
        let mut i: usize = 0;
        while i < self.len()
            invariant
                i <= self.len(),
                out@ == lifted(self@.take(i as int)),
            decreases self.len() - i,
        {
            out.push(AD::AD0(self[i]));
            i = i + 1;
            assert(out@ =~= lifted(self@.take(i as int)));
        }
        assert(self@.take(self.len() as int) =~= self@);
        out
    }
}

/// Dual numbers that can be dropped to their values, one by one.
pub trait F64Array {
    type Array;

    /// Whether `out` holds the value of every dual number of `self`.
    open spec fn drops_to(&self, out: &Self::Array) -> bool {
        arbitrary()
    }

    fn to_f64(&self) -> (out: Self::Array)
        ensures
            self.drops_to(&out),
    ;
}

impl<T: Scalar> F64Array for Vec<AD<T>> {
    type Array = Vec<T>;

    open spec fn drops_to(&self, out: &Vec<T>) -> bool {
        out@ == values(self@)
    }

    fn to_f64(&self) -> (out: Vec<T>) {
        let mut out: Vec<T> = Vec::with_capacity(self.len());
        let mut i: usize = 0;
        while i < self.len()
            invariant
                i <= self.len(),
                out@ == values(self@.take(i as int)),
            decreases self.len() - i,
        {
            out.push(self[i].x());
            i = i + 1;
            assert(out@ =~= values(self@.take(i as int)));
        }
        assert(self@.take(self.len() as int) =~= self@);
        out
    }
}

/// Every number of `s` as a dual number of order 0.
pub open spec fn lifted<T: Scalar>(s: Seq<T>) -> Seq<AD<T>> {
    Seq::new(s.len(), |i: int| AD::AD0(s[i]))
}

/// The value of every dual number of `s`.
pub open spec fn values<T: Scalar>(s: Seq<AD<T>>) -> Seq<T> {
    Seq::new(s.len(), |i: int| s[i]@[0])
}

/// Dropping what was lifted gives back the numbers.
pub proof fn lemma_values_of_lifted<T: Scalar>(s: Seq<T>)
    ensures
        values(lifted(s)) == s,
{
    assert(values(lifted(s)) =~= s);
}

/// A plain number that can scale a vector of plain numbers.
pub trait ScalarMultiplyf64 {
    type Array;

    /// Whether `out` is `ar` with every entry multiplied by `self`.
    open spec fn scales(&self, ar: &Self::Array, out: &Self::Array) -> bool {
        arbitrary()
    }

    fn scalar(&self, ar: Self::Array) -> (out: Self::Array)
        ensures
            self.scales(&ar, &out),
    ;
}

impl<T: Scalar> ScalarMultiplyf64 for T {
    type Array = Vec<T>;

    open spec fn scales(&self, ar: &Vec<T>, out: &Vec<T>) -> bool {
        out@ == Seq::new(ar@.len(), |i: int| ar@[i].mul_spec(*self))
    }

    fn scalar(&self, ar: Vec<T>) -> (out: Vec<T>) {
        let mut out = ar;
        let mut i: usize = 0;
        while i < out.len()
            invariant
                i <= out@.len(),
                out@.len() == ar@.len(),
                forall|k: int| 0 <= k < i ==> out@[k] == ar@[k].mul_spec(*self),
                forall|k: int| i <= k < out@.len() ==> out@[k] == ar@[k],
            decreases out@.len() - i,
        {
            let v = out[i].mul(*self);
            out.set(i, v);
            i = i + 1;
        }
        assert(out@ =~= Seq::new(ar@.len(), |i: int| ar@[i].mul_spec(*self)));
        out
    }
}

/// A dual number whose value can scale a vector of dual numbers.
pub trait ScalarMultiplyAD {
    type Array;

    /// Whether `out` is `ar` with every entry multiplied by the value of
    /// `self`.
    open spec fn scales_by_value(&self, ar: &Self::Array, out: &Self::Array) -> bool {
        arbitrary()
    }

    fn scalar(&self, ar: Self::Array) -> (out: Self::Array)
        ensures
            self.scales_by_value(&ar, &out),
    ;
}

impl<T: Scalar> ScalarMultiplyAD for AD<T> {
    type Array = Vec<AD<T>>;

    open spec fn scales_by_value(&self, ar: &Vec<AD<T>>, out: &Vec<AD<T>>) -> bool {
        out@ == Seq::new(ar@.len(), |i: int| ar@[i].mul_scalar_spec(self@[0]))
    }

    fn scalar(&self, ar: Vec<AD<T>>) -> (out: Vec<AD<T>>) {
        let mut out = ar;
        let mut i: usize = 0;
        while i < out.len()
            invariant
                i <= out@.len(),
                out@.len() == ar@.len(),
                forall|k: int| 0 <= k < i ==> out@[k] == ar@[k].mul_scalar_spec(self@[0]),
                forall|k: int| i <= k < out@.len() ==> out@[k] == ar@[k],
            decreases out@.len() - i,
        {
            let v = out[i].mul_scalar(self.x());
            out.set(i, v);
            i = i + 1;
        }
        assert(out@ =~= Seq::new(ar@.len(), |i: int| ar@[i].mul_scalar_spec(self@[0])));
        out
    }
}

} // verus!
