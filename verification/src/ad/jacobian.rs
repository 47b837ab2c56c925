//! Exact Jacobian matrices by automatic differentiation.
//!
//! Column `c` of the Jacobian of `f` at `x` holds the first derivatives of
//! every output of `f` with respect to input `c`. It is read off one
//! evaluation of `f`, at the point whose input `c` carries the derivative 1
//! and whose other inputs are constants.
use crate::ad::ops::{lifted, ADArray};
use crate::ad::AD;
use crate::matrix::Matrix;
use crate::ode::traits::{Flow, Residual};
use crate::scalar::{one, Scalar};
use rayon::iter::{IntoParallelIterator, ParallelIterator};
use vstd::prelude::*;

verus! {

/// The point `x` as dual numbers, with input `c` marked as the variable:
/// it has order 1 and derivative 1, every other input has order 0.
pub open spec fn seeded<T: Scalar>(x: Seq<T>, c: int) -> Seq<AD<T>> {
    Seq::new(
        x.len(),
        |i: int|
            if i == c {
                AD::AD1(x[i], one::<T>())
            } else {
                AD::AD0(x[i])
            },
    )
}

/// The first derivative of every dual number of `y`; zero where it has none.
pub open spec fn slopes<T: Scalar>(y: Seq<AD<T>>) -> Seq<T> {
    Seq::new(y.len(), |r: int| y[r].slot(1))
}

/// Column `c` of the Jacobian of `f` at `x`.
pub open spec fn jacobian_column<T: Scalar, F: Flow<AD<T>>>(f: &F, x: Seq<T>, c: int) -> Seq<T> {
    slopes(f.field(seeded(x, c)))
}

/// Whether `m` is the Jacobian of `f` at `x`: square, with one row and one
/// column for each input, and each column as `jacobian_column` gives it.
pub open spec fn is_jacobian<T: Scalar, F: Flow<AD<T>>>(m: Seq<Seq<T>>, f: &F, x: Seq<T>) -> bool {
    &&& m.len() == x.len()
    &&& forall|r: int| 0 <= r < m.len() ==> (#[trigger] m[r]).len() == x.len()
    &&& forall|r: int, c: int|
        0 <= r < x.len() && 0 <= c < x.len() ==> #[trigger] m[r][c] == jacobian_column(f, x, c)[r]
}

/// A function has one Jacobian at a point: two matrices that both are it
/// agree in every entry. So evaluators that each return the Jacobian agree,
/// whether they work through the columns in turn or all at once.
pub proof fn lemma_jacobian_unique<T: Scalar, F: Flow<AD<T>>>(
    a: Seq<Seq<T>>,
    b: Seq<Seq<T>>,
    f: &F,
    x: Seq<T>,
)
    requires
        is_jacobian(a, f, x),
        is_jacobian(b, f, x),
    ensures
        a == b,
{
    assert forall|r: int| 0 <= r < a.len() implies a[r] == b[r] by {
        assert(a[r].len() == b[r].len());
        assert forall|c: int| 0 <= c < a[r].len() implies a[r][c] == b[r][c] by {
            assert(a[r][c] == jacobian_column(f, x, c)[r]);
            assert(b[r][c] == jacobian_column(f, x, c)[r]);
        }
        assert(a[r] =~= b[r]);
    }
    assert(a =~= b);
}

/// The first derivative of every dual number of `y`.
fn first_derivatives<T: Scalar>(y: &Vec<AD<T>>) -> (dy: Vec<T>)
    ensures
        dy@ == slopes(y@),
{
    let mut dy: Vec<T> = Vec::with_capacity(y.len());
    let mut r: usize = 0;
    while r < y.len()
        invariant
            r <= y@.len(),
            dy@ == slopes(y@).take(r as int),
        decreases y@.len() - r,
    {
        dy.push(y[r].dx());
        r = r + 1;
        assert(dy@ =~= slopes(y@).take(r as int));
    }
    assert(slopes(y@).take(y@.len() as int) =~= slopes(y@));
    dy
}

/// One column of the Jacobian of `f` at `x`, from a seeded copy of `x` made
/// for this column alone.
pub fn single_column<T: Scalar, F: Flow<AD<T>>>(f: &F, x: &Vec<T>, c: usize) -> (col: Vec<T>)
    requires
        f.accepts(x@.len()),
        c < x@.len(),
    ensures
        col@ == jacobian_column(f, x@, c as int),
        col@.len() == x@.len(),
{
    let mut x_ad = x.to_ad();
    x_ad.set(c, AD::AD1(x[c], T::from_count(1)));
    assert(x_ad@ =~= seeded(x@, c as int));
    let y = f.apply(&x_ad);
    first_derivatives(&y)
}

/// Every column of the Jacobian of `f` at `x`, each worked out on whichever
/// thread is free.
///
/// Trusted: the body hands the columns' numbers to rayon
/// (`into_par_iter` on a range, `map`, `collect`). The contract claims
/// what rayon documents of a range that is mapped and collected into a
/// vector: the vector is the one that the same range would give without
/// threads. So there is one item for each number of the range, in the
/// order of the range, and the item at `c` is what the closure returns for
/// `c`, which here is the result of the verified function `single_column`.
#[verifier::external_body]
fn par_columns<T: Scalar + Send + Sync, F: Flow<AD<T>> + Sync>(f: &F, x: &Vec<T>) -> (cols: Vec<
    Vec<T>,
>)
    requires
        f.accepts(x@.len()),
    ensures
        cols@.len() == x@.len(),
        forall|c: int|
            0 <= c < x@.len() ==> (#[trigger] cols@[c])@ == jacobian_column(f, x@, c)
                && cols@[c]@.len() == x@.len(),
{
    (0..x.len()).into_par_iter().map(|c| single_column(f, x, c)).collect()
}

/// Jacobian matrix of `f` at `x`, column after column.
///
/// One dual copy of `x` serves every column: input `c` is seeded before `f`
/// is evaluated for column `c`, and made a constant again after it.
#[allow(non_snake_case)]
pub fn jacobian<T: Scalar, F: Flow<AD<T>>>(f: F, x: &Vec<T>) -> (J: Matrix<T>)
    requires
        f.accepts(x@.len()),
    ensures
        is_jacobian(J@, &f, x@),
        J.has_shape(x@.len(), x@.len()),
{
    let l = x.len();
    let mut x_ad = x.to_ad();
    let mut J: Matrix<T> = Matrix::zeros(l, l);
    let mut c: usize = 0;
    while c < l
        invariant
            c <= l,
            l == x@.len(),
            f.accepts(x@.len()),
            x_ad@ == lifted(x@),
            J.has_shape(l as nat, l as nat),
            forall|r: int, k: int|
                0 <= r < l && 0 <= k < c ==> #[trigger] J@[r][k] == jacobian_column(&f, x@, k)[r],
        decreases l - c,
    {
        x_ad.set(c, AD::AD1(x[c], T::from_count(1)));
        assert(x_ad@ =~= seeded(x@, c as int));
        let y = f.apply(&x_ad);
        let dy = first_derivatives(&y);
        J.set_column(c, &dy);
        x_ad.set(c, AD::AD0(x[c]));
        assert(x_ad@ =~= lifted(x@));
        c = c + 1;
    }
    J
}

/// Jacobian matrix of `f` at `x`, with the columns worked out in parallel.
///
/// Each column has its own seeded copy of `x`, so nothing is shared between
/// them but `f` and `x` themselves. Use it only after measuring that it is
/// faster than `jacobian`.
#[allow(non_snake_case)]
pub fn jacobian_par<T: Scalar + Send + Sync, F: Flow<AD<T>> + Sync>(f: F, x: &Vec<T>) -> (J:
    Matrix<T>)
    requires
        f.accepts(x@.len()),
    ensures
        is_jacobian(J@, &f, x@),
        J.has_shape(x@.len(), x@.len()),
{
    let l = x.len();
    let cols = par_columns(&f, x);
    let mut J: Matrix<T> = Matrix::zeros(l, l);
    let mut c: usize = 0;
    while c < l
        invariant
            c <= l,
            l == x@.len(),
            cols@.len() == l,
            forall|k: int|
                0 <= k < l ==> (#[trigger] cols@[k])@ == jacobian_column(&f, x@, k)
                    && cols@[k]@.len() == l,
            J.has_shape(l as nat, l as nat),
            forall|r: int, k: int|
                0 <= r < l && 0 <= k < c ==> #[trigger] J@[r][k] == jacobian_column(&f, x@, k)[r],
        decreases l - c,
    {
        assert(cols@[c as int]@ == jacobian_column(&f, x@, c as int));
        J.set_column(c, &cols[c]);
        c = c + 1;
    }
    J
}

/// Jacobian matrix of the residual `f` at `x`, written into `J`.
///
/// The residual is evaluated into `slopes` once for each column, so no
/// vector is allocated for its results; `slopes` is left holding the
/// residual at the point seeded for the last column.
#[allow(non_snake_case)]
pub fn jacobian_res<T: Scalar, Res: Residual<T>>(
    f: &Res,
    x: &Vec<T>,
    J: &mut Matrix<T>,
    slopes: &mut Vec<AD<T>>,
)
    requires
        f.accepts(x@.len()),
        old(J).has_shape(x@.len(), x@.len()),
    ensures
        is_jacobian(final(J)@, f, x@),
        final(J).has_shape(x@.len(), x@.len()),
        x@.len() == 0 ==> final(slopes)@ == old(slopes)@,
        x@.len() > 0 ==> final(slopes)@ == f.field(seeded(x@, x@.len() - 1)),
{
    let l = x.len();
    let mut x_ad = x.to_ad();
    let mut c: usize = 0;
    while c < l
        invariant
            c <= l,
            l == x@.len(),
            f.accepts(x@.len()),
            x_ad@ == lifted(x@),
            J.has_shape(l as nat, l as nat),
            forall|r: int, k: int|
                0 <= r < l && 0 <= k < c ==> #[trigger] J@[r][k] == jacobian_column(f, x@, k)[r],
            c == 0 ==> slopes@ == old(slopes)@,
            c > 0 ==> slopes@ == f.field(seeded(x@, c - 1)),
        decreases l - c,
    {
        x_ad.set(c, AD::AD1(x[c], T::from_count(1)));
        assert(x_ad@ =~= seeded(x@, c as int));
        f.eval(&x_ad, slopes);
        let dy = first_derivatives(slopes);
        J.set_column(c, &dy);
        x_ad.set(c, AD::AD0(x[c]));
        assert(x_ad@ =~= lifted(x@));
        c = c + 1;
    }
}

} // verus!
