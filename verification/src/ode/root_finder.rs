//! Newton's method for the state at which a residual vanishes.
use crate::ad::jacobian::{is_jacobian, jacobian_res, seeded, slopes};
use crate::ad::ops::{values, F64Array, PowOps};
use crate::ad::AD;
use crate::matrix::{rectangular, Matrix};
use crate::ode::traits::{Inverse, Residual};
use crate::scalar::{zero, Scalar};
use vstd::prelude::*;

verus! {

/// The largest number of updates that an iteration makes.
pub const MAX_ITERATIONS: usize = 10;

/// Why Newton's method gave no root.
#[derive(Debug)]
pub enum NewtonError<T> {
    /// The Jacobian at the iterate reached after `iteration` updates could
    /// not be inverted; `context` is what the inverter reported.
    SingularJacobian { iteration: usize, context: String },
    /// The inverter handed back a matrix of the wrong shape for the
    /// Jacobian at the iterate reached after `iteration` updates.
    MalformedInverse { iteration: usize },
    /// After `iterations` updates, as many as an iteration makes, the
    /// residual at `iterate` still had the norm `error`, which is not below
    /// the tolerance.
    NotConverged { iterations: usize, iterate: Vec<AD<T>>, error: T },
}

/// What an iteration comes to, as a matter of the numbers alone.
pub enum Outcome<T> {
    /// The iterate `x` is a root: its error is below the tolerance.
    Root { x: Seq<AD<T>> },
    /// The inverter reported `context` for the Jacobian at the iterate
    /// reached after `iteration` updates.
    SingularJacobian { iteration: nat, context: Seq<char> },
    /// The inverter's answer for the Jacobian at the iterate reached after
    /// `iteration` updates had the wrong shape.
    MalformedInverse { iteration: nat },
    /// After `iterations` updates the error `error` at `iterate` was still
    /// not below the tolerance, and no further update is made.
    NotConverged { iterations: nat, iterate: Seq<AD<T>>, error: T },
}

/// The sum of the squares of `v`, added up from the left, starting from zero.
pub open spec fn sum_of_squares<T: Scalar>(v: Seq<T>) -> T
    decreases v.len(),
{
    if v.len() == 0 {
        zero::<T>()
    } else {
        sum_of_squares(v.drop_last()).add_spec(v.last().mul_spec(v.last()))
    }
}

/// The Euclidean norm: the square root of the sum of the squares.
pub open spec fn norm_spec<T: Scalar + PowOps>(v: Seq<T>) -> T {
    sum_of_squares(v).sqrt_spec()
}

/// The residual as a function of the candidate.
pub open spec fn field_of<T: Scalar, Res: Residual<T>>(residual: &Res) -> spec_fn(Seq<AD<T>>) -> Seq<
    AD<T>,
> {
    |x: Seq<AD<T>>| residual.field(x)
}

/// The error of the candidate `x` for the residual `g`: the norm of the
/// values of the residual there.
pub open spec fn error_at<T: Scalar + PowOps>(g: spec_fn(Seq<AD<T>>) -> Seq<AD<T>>, x: Seq<AD<T>>) -> T {
    norm_spec(values(g(x)))
}

/// The Jacobian of `g` at `x`: the entry in row `r` and column `c` is the
/// first derivative of output `r` with respect to input `c`.
pub open spec fn jacobian_of<T: Scalar>(g: spec_fn(Seq<AD<T>>) -> Seq<AD<T>>, x: Seq<T>) -> Seq<
    Seq<T>,
> {
    Seq::new(x.len(), |r: int| Seq::new(x.len(), |c: int| slopes(g(seeded(x, c)))[r]))
}

/// Whether `m` has `n` rows of `n` entries.
pub open spec fn is_square<T>(m: Seq<Seq<T>>, n: nat) -> bool {
    m.len() == n && rectangular(m, n)
}

/// The Newton update of the iterate `x` by `d`, the product of the inverse
/// of the Jacobian with the residual: the value of each component is
/// lowered by the matching component of `d`; derivatives stay.
pub open spec fn newton_update<T: Scalar>(x: Seq<AD<T>>, d: Seq<T>) -> Seq<AD<T>> {
    Seq::new(x.len(), |i: int| x[i].with_slot(0, x[i]@[0].sub_spec(d[i])))
}

/// What the iteration for the residual `g` comes to from the iterate `x`,
/// which was reached after `k` updates.
///
/// The Jacobian at `x` is handed to the inverter. A failure of the inverter
/// ends the iteration, and so does an answer that is not a square matrix of
/// the size of `x`. Otherwise `x` is a root if its error is below `rtol`;
/// if it is not and `k` updates were made, the iteration has not converged;
/// else the iteration goes on from the Newton update of `x` by the product
/// of the inverse that was answered with the residual at `x`.
pub open spec fn newton_outcome<T: Scalar + PowOps, Inv: Inverse<T>>(
    g: spec_fn(Seq<AD<T>>) -> Seq<AD<T>>,
    inverter: &Inv,
    rtol: T,
    x: Seq<AD<T>>,
    k: nat,
) -> Outcome<T>
    decreases MAX_ITERATIONS - k,
{
    match inverter.answer(jacobian_of(g, values(x))) {
        Err(context) => Outcome::SingularJacobian { iteration: k, context },
        Ok(inverse) => if !is_square(inverse, x.len()) {
            Outcome::MalformedInverse { iteration: k }
        } else if !error_at(g, x).ge_spec(rtol) {
            Outcome::Root { x }
        } else if k >= MAX_ITERATIONS {
            Outcome::NotConverged { iterations: k, iterate: x, error: error_at(g, x) }
        } else {
            newton_outcome(
                g,
                inverter,
                rtol,
                newton_update(x, inverter.product_answer(inverse, values(g(x)))),
                k + 1,
            )
        },
    }
}

/// Whether `r` is what is handed back for the outcome `o`: the root for a
/// root, and for each other outcome the error of its name with the same
/// content.
pub open spec fn reports<T>(r: Result<Vec<AD<T>>, NewtonError<T>>, o: Outcome<T>) -> bool {
    match r {
        Ok(x) => o == (Outcome::<T>::Root { x: x@ }),
        Err(e) => reports_failure(e, o),
    }
}

/// Whether the error `e` is the one for the outcome `o`.
pub open spec fn reports_failure<T>(e: NewtonError<T>, o: Outcome<T>) -> bool {
    match e {
        NewtonError::SingularJacobian { iteration, context } => o == (Outcome::<T>::SingularJacobian {
            iteration: iteration as nat,
            context: context@,
        }),
        NewtonError::MalformedInverse { iteration } => o == (Outcome::<T>::MalformedInverse {
            iteration: iteration as nat,
        }),
        NewtonError::NotConverged { iterations, iterate, error } => o == (Outcome::<T>::NotConverged {
            iterations: iterations as nat,
            iterate: iterate@,
            error,
        }),
    }
}

/// An iteration makes at most [`MAX_ITERATIONS`] updates: it reports that
/// it has not converged after exactly that many, and a failure of the
/// inverter after at most that many.
pub proof fn lemma_newton_cap<T: Scalar + PowOps, Inv: Inverse<T>>(
    g: spec_fn(Seq<AD<T>>) -> Seq<AD<T>>,
    inverter: &Inv,
    rtol: T,
    x: Seq<AD<T>>,
    k: nat,
)
    requires
        k <= MAX_ITERATIONS,
    ensures
        match newton_outcome(g, inverter, rtol, x, k) {
            Outcome::Root { .. } => true,
            Outcome::NotConverged { iterations, error, .. } => iterations == MAX_ITERATIONS
                && error.ge_spec(rtol),
            Outcome::SingularJacobian { iteration, .. } => k <= iteration <= MAX_ITERATIONS,
            Outcome::MalformedInverse { iteration } => k <= iteration <= MAX_ITERATIONS,
        },
    decreases MAX_ITERATIONS - k,
{
    match inverter.answer(jacobian_of(g, values(x))) {
        Err(_) => {},
        Ok(inverse) => {
            if is_square(inverse, x.len()) && error_at(g, x).ge_spec(rtol) && k < MAX_ITERATIONS {
                lemma_newton_cap(
                    g,
                    inverter,
                    rtol,
                    newton_update(x, inverter.product_answer(inverse, values(g(x)))),
                    k + 1,
                );
            }
        },
    }
}

/// A seed whose error is below the tolerance is the root, provided the
/// inverter answers with a square matrix for the Jacobian there: no update
/// is made.
pub proof fn lemma_seed_is_root<T: Scalar + PowOps, Inv: Inverse<T>>(
    g: spec_fn(Seq<AD<T>>) -> Seq<AD<T>>,
    inverter: &Inv,
    rtol: T,
    x: Seq<AD<T>>,
)
    requires
        inverter.answer(jacobian_of(g, values(x))) matches Ok(inverse) && is_square(
            inverse,
            x.len(),
        ),
        !error_at(g, x).ge_spec(rtol),
    ensures
        newton_outcome(g, inverter, rtol, x, 0) == (Outcome::<T>::Root { x }),
{
}

/// A matrix that is the Jacobian of a residual is the Jacobian of the
/// residual's function.
pub proof fn lemma_jacobian_of_residual<T: Scalar, Res: Residual<T>>(
    m: Seq<Seq<T>>,
    residual: &Res,
    x: Seq<T>,
)
    requires
        is_jacobian(m, residual, x),
    ensures
        m == jacobian_of(field_of(residual), x),
{
    let j = jacobian_of(field_of(residual), x);
    assert forall|r: int| 0 <= r < m.len() implies m[r] == j[r] by {
        assert(m[r].len() == x.len());
        assert forall|c: int| 0 <= c < x.len() implies m[r][c] == j[r][c] by {
            assert(m[r][c] == crate::ad::jacobian::jacobian_column(residual, x, c)[r]);
        }
        assert(m[r] =~= j[r]);
    }
    assert(m =~= j);
}

/// The Euclidean norm of `v`.
pub fn norm<T: Scalar + PowOps>(v: &Vec<T>) -> (r: T)
    ensures
        r == norm_spec(v@),
{
    let mut s = T::from_count(0);
    let mut i: usize = 0;
    while i < v.len()
        invariant
            i <= v@.len(),
            s == sum_of_squares(v@.take(i as int)),
        decreases v@.len() - i,
    {
        s = s.add(v[i].mul(v[i]));
        i = i + 1;
        assert(v@.take(i as int).drop_last() =~= v@.take(i - 1));
    }
    assert(v@.take(v@.len() as int) =~= v@);
    s.sqrt()
}

/// Whether `a` and `b` are equally long and agree, place by place, in the
/// order of their dual numbers.
pub open spec fn same_orders<T: Scalar>(a: Seq<AD<T>>, b: Seq<AD<T>>) -> bool {
    a.len() == b.len() && forall|i: int| 0 <= i < a.len() ==> (#[trigger] a[i]@).len() == b[i]@.len()
}

/// Updates keep the orders of the iterate.
pub proof fn lemma_update_keeps_orders<T: Scalar>(x: Seq<AD<T>>, d: Seq<T>)
    ensures
        same_orders(newton_update(x, d), x),
{
    let y = newton_update(x, d);
    assert forall|i: int| 0 <= i < y.len() implies (#[trigger] y[i]@).len() == x[i]@.len() by {
        x[i].lemma_view_round_trip();
        AD::<T>::lemma_from_coeffs(x[i]@.update(0, x[i]@[0].sub_spec(d[i])));
    }
}

/// One Newton update: `x1 - d`, where `d` is the product of the inverse of
/// the Jacobian with the residual.
pub fn newton_step<T: Scalar>(x1: Vec<AD<T>>, d: &Vec<T>) -> (x2: Vec<AD<T>>)
    requires
        d@.len() == x1@.len(),
    ensures
        x2@ == newton_update(x1@, d@),
        same_orders(x2@, x1@),
{
    let mut x2 = x1;
    let mut i: usize = 0;
    while i < x2.len()
        invariant
            i <= x2@.len(),
            x2@.len() == x1@.len(),
            d@.len() == x1@.len(),
            forall|k: int|
                0 <= k < i ==> x2@[k] == x1@[k].with_slot(0, x1@[k]@[0].sub_spec(d@[k])),
            forall|k: int| i <= k < x2@.len() ==> x2@[k] == x1@[k],
        decreases x2@.len() - i,
    {
        let v = x2[i].sub_scalar(d[i]);
        x2.set(i, v);
        i = i + 1;
    }
    proof {
        assert(x2@ =~= newton_update(x1@, d@));
        lemma_update_keeps_orders(x1@, d@);
    }
    x2
}

/// What an inverter's answer means for the iteration: a square matrix of
/// the size `n` is passed on, an answer of another shape is
/// `MalformedInverse`, and a failure is `SingularJacobian` with the
/// inverter's report as context.
pub fn checked_inverse<T: Scalar>(
    answer: Result<Matrix<T>, String>,
    n: usize,
    iteration: usize,
) -> (r: Result<Matrix<T>, NewtonError<T>>)
    ensures
        match answer {
            Ok(m) => if is_square(m@, n as nat) {
                r == Ok::<Matrix<T>, NewtonError<T>>(m)
            } else {
                r == Err::<Matrix<T>, NewtonError<T>>(NewtonError::MalformedInverse { iteration })
            },
            Err(context) => r == Err::<Matrix<T>, NewtonError<T>>(
                NewtonError::SingularJacobian { iteration, context },
            ),
        },
{
    match answer {
        Ok(m) => {
            let cols = m.cols();
            if m.rows() == n && cols == n {
                Ok(m)
            } else {
                Err(NewtonError::MalformedInverse { iteration })
            }
        },
        Err(context) => Err(NewtonError::SingularJacobian { iteration, context }),
    }
}

/// Newton's method for the root of `residual`, started at `x1`.
///
/// The Jacobian is worked out and inverted at the start and after every
/// update, and the iteration goes on while the error is at least `rtol` and
/// fewer than [`MAX_ITERATIONS`] updates were made. An iterate is a root
/// only if its error is below `rtol`: one that is not comes back as
/// `NotConverged`, never as a root. A failure of the inverter ends the
/// iteration at once.
///
/// What is handed back is what `newton_outcome` names: it rests on the
/// residual, the tolerance, the seed and the answers of the inverter, and
/// on nothing else. `J` is left holding the last Jacobian worked out.
#[allow(non_snake_case)]
pub fn newton<T: Scalar + PowOps, Res: Residual<T>, Inv: Inverse<T>>(
    rtol: T,
    residual: &Res,
    x1: Vec<AD<T>>,
    J: &mut Matrix<T>,
    slope_buffer: &mut Vec<AD<T>>,
    inverter: &Inv,
) -> (r: Result<Vec<AD<T>>, NewtonError<T>>)
    requires
        residual.accepts(x1@.len()),
        old(J).has_shape(x1@.len(), x1@.len()),
    ensures
        reports(r, newton_outcome(field_of(residual), inverter, rtol, x1@, 0)),
        final(J).has_shape(x1@.len(), x1@.len()),
        match r {
            Ok(x) => same_orders(x@, x1@) && final(J)@ == jacobian_of(
                field_of(residual),
                values(x@),
            ),
            Err(NewtonError::NotConverged { iterate, .. }) => same_orders(iterate@, x1@)
                && final(J)@ == jacobian_of(field_of(residual), values(iterate@)),
            Err(_) => true,
        },
{
    let ghost g = field_of(residual);
    let ghost whole = newton_outcome(g, inverter, rtol, x1@, 0);
    let n = x1.len();
    let mut xk = x1;
    let point = xk.to_f64();
    jacobian_res(residual, &point, J, slope_buffer);
    proof {
        lemma_jacobian_of_residual(J@, residual, point@);
    }
    let mut DG_inv = match checked_inverse(inverter.inv(J), n, 0) {
        Ok(m) => m,
        Err(e) => {
            return Err(e);
        },
    };
    let mut G: Vec<AD<T>> = Vec::new();
    residual.eval(&xk, &mut G);
    let mut num_iter: usize = 0;
    let mut err = norm(&G.to_f64());
    while err.ge(rtol) && num_iter < MAX_ITERATIONS
        invariant
            num_iter <= MAX_ITERATIONS,
            n == x1@.len(),
            xk@.len() == n,
            same_orders(xk@, x1@),
            residual.accepts(n as nat),
            g == field_of(residual),
            whole == newton_outcome(g, inverter, rtol, x1@, 0),
            whole == newton_outcome(g, inverter, rtol, xk@, num_iter as nat),
            J.has_shape(n as nat, n as nat),
            J@ == jacobian_of(g, values(xk@)),
            inverter.answer(J@) == Ok::<Seq<Seq<T>>, Seq<char>>(DG_inv@),
            is_square(DG_inv@, n as nat),
            G@ == g(xk@),
            G@.len() == n,
            err == error_at(g, xk@),
        decreases MAX_ITERATIONS - num_iter,
    {
        let DGG = inverter.dot(&DG_inv, &G.to_f64());
        xk = newton_step(xk, &DGG);
        let point = xk.to_f64();
        jacobian_res(residual, &point, J, slope_buffer);
        proof {
            lemma_jacobian_of_residual(J@, residual, point@);
            assert(whole == newton_outcome(g, inverter, rtol, xk@, (num_iter + 1) as nat));
        }
        DG_inv = match checked_inverse(inverter.inv(J), n, num_iter + 1) {
            Ok(m) => m,
            Err(e) => {
                return Err(e);
            },
        };
        residual.eval(&xk, &mut G);
        err = norm(&G.to_f64());
        num_iter = num_iter + 1;
    }
    if err.ge(rtol) {
        Err(NewtonError::NotConverged { iterations: num_iter, iterate: xk, error: err })
    } else {
        Ok(xk)
    }
}

} // verus!
