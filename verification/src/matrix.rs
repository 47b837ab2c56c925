//! A rectangular table of numbers.
use crate::scalar::{zero, Scalar};
use vstd::prelude::*;

verus! {

/// A table of `rows` rows with `cols` numbers each.
#[derive(Debug)]
pub struct Matrix<T> {
    data: Vec<Vec<T>>,
    cols: usize,
}

/// Whether every row of `m` has `cols` entries.
pub open spec fn rectangular<T>(m: Seq<Seq<T>>, cols: nat) -> bool {
    forall|r: int| 0 <= r < m.len() ==> (#[trigger] m[r]).len() == cols
}

/// The rows of `rows`, each as the sequence of its entries.
pub open spec fn table<T>(rows: Seq<Vec<T>>) -> Seq<Seq<T>> {
    Seq::new(rows.len(), |r: int| rows[r]@)
}

/// The length of the first row, or 0 where there is none.
pub open spec fn width<T>(m: Seq<Seq<T>>) -> nat {
    if m.len() == 0 {
        0
    } else {
        m[0].len()
    }
}

impl<T> View for Matrix<T> {
    type V = Seq<Seq<T>>;

    /// The rows, each as the sequence of its entries.
    closed spec fn view(&self) -> Seq<Seq<T>> {
        Seq::new(self.data@.len(), |r: int| self.data@[r]@)
    }
}

impl<T> Matrix<T> {
    #[verifier::type_invariant]
    spec fn inv(self) -> bool {
        &&& forall|r: int|
            0 <= r < self.data@.len() ==> (#[trigger] self.data@[r])@.len() == self.cols
        &&& self.data@.len() == 0 ==> self.cols == 0
    }

    /// The number of columns.
    pub open spec fn cols_spec(&self) -> nat {
        width(self@)
    }

    /// The number of rows.
    pub open spec fn rows_spec(&self) -> nat {
        self@.len()
    }

    /// The column `c`, from the top row down.
    pub open spec fn column_spec(&self, c: int) -> Seq<T> {
        Seq::new(self@.len(), |r: int| self@[r][c])
    }

    /// Whether the table has `rows` rows and `cols` columns.
    pub open spec fn has_shape(&self, rows: nat, cols: nat) -> bool {
        self.rows_spec() == rows && self.cols_spec() == cols && rectangular(self@, cols)
    }
}

impl<T: Scalar> Matrix<T> {
    /// The table of `rows` by `cols` zeros. A table without rows has no
    /// columns.
    pub fn zeros(rows: usize, cols: usize) -> (m: Self)
        ensures
            rows > 0 ==> m.has_shape(rows as nat, cols as nat),
            rows == 0 ==> m.has_shape(0, 0),
            forall|r: int, c: int| 0 <= r < rows && 0 <= c < cols ==> m@[r][c] == zero::<T>(),
    {
        let cols = if rows == 0 {
            0
        } else {
            cols
        };
        let mut data: Vec<Vec<T>> = Vec::new();
        let mut r: usize = 0;
        while r < rows
            invariant
                r <= rows,
                data@.len() == r,
                forall|i: int| 0 <= i < r ==> (#[trigger] data@[i])@.len() == cols,
                forall|i: int, c: int| 0 <= i < r && 0 <= c < cols ==> data@[i]@[c] == zero::<T>(),
            decreases rows - r,
        {
            let mut row: Vec<T> = Vec::new();
            let mut c: usize = 0;
            while c < cols
                invariant
                    c <= cols,
                    row@.len() == c,
                    forall|k: int| 0 <= k < c ==> row@[k] == zero::<T>(),
                decreases cols - c,
            {
                row.push(T::from_count(0));
                c = c + 1;
            }
            data.push(row);
            r = r + 1;
        }
        let m = Matrix { data, cols };
        assert forall|i: int| 0 <= i < m@.len() implies (#[trigger] m@[i]).len() == cols by {
            assert(m.data@[i]@.len() == cols);
        }
        m
    }

    /// The table with the given rows, or `None` where they differ in length.
    /// A table without rows has no columns.
    pub fn from_rows(rows: Vec<Vec<T>>) -> (m: Option<Self>)
        ensures
            m.is_some() == rectangular(table(rows@), width(table(rows@))),
            m matches Some(t) ==> t@ == table(rows@) && t.cols_spec() == width(table(rows@)),
    {
        let cols = if rows.len() == 0 {
            0
        } else {
            rows[0].len()
        };
        let ghost t = table(rows@);
        let mut r: usize = 0;
        while r < rows.len()
            invariant
                r <= rows@.len(),
                t == table(rows@),
                cols == width(t),
                forall|i: int| 0 <= i < r ==> (#[trigger] t[i]).len() == cols,
            decreases rows@.len() - r,
        {
            if rows[r].len() != cols {
                assert(t[r as int].len() != cols);
                return None;
            }
            r = r + 1;
        }
        assert forall|i: int| 0 <= i < rows@.len() implies (#[trigger] rows@[i])@.len() == cols by {
            assert(t[i].len() == cols);
        }
        let m = Matrix { data: rows, cols };
        assert(m@ =~= t);
        Some(m)
    }

    /// The number of rows.
    pub fn rows(&self) -> (n: usize)
        ensures
            n == self.rows_spec(),
    {
        self.data.len()
    }

    /// The number of columns, which is the length of every row.
    pub fn cols(&self) -> (n: usize)
        ensures
            n == self.cols_spec(),
            rectangular(self@, n as nat),
    {
        proof {
            use_type_invariant(self);
            assert forall|r: int| 0 <= r < self@.len() implies (#[trigger] self@[r]).len()
                == self.cols by {
                assert(self.data@[r]@.len() == self.cols);
            }
        }
        self.cols
    }

    /// The entry in row `r` and column `c`.
    pub fn get(&self, r: usize, c: usize) -> (v: T)
        requires
            r < self.rows_spec(),
            c < self.cols_spec(),
        ensures
            v == self@[r as int][c as int],
    {
        proof {
            use_type_invariant(self);
        }
        self.data[r][c]
    }

    /// Writes the entry in row `r` and column `c`.
    pub fn set(&mut self, r: usize, c: usize, value: T)
        requires
            r < old(self).rows_spec(),
            c < old(self).cols_spec(),
        ensures
            final(self).has_shape(old(self).rows_spec(), old(self).cols_spec()),
            final(self)@ == old(self)@.update(r as int, old(self)@[r as int].update(c as int, value)),
    {
        proof {
            use_type_invariant(&*self);
        }
        let mut taken = Matrix { data: Vec::new(), cols: 0 };
        std::mem::swap(&mut taken, self);
        let Matrix { data, cols } = taken;
        let mut data = data;
        data[r].set(c, value);
        assert forall|i: int| 0 <= i < data@.len() implies (#[trigger] data@[i])@.len() == cols by {
            assert(old(self).data@[i]@.len() == cols);
        }
        *self = Matrix { data, cols };
        assert(self@ =~= old(self)@.update(r as int, old(self)@[r as int].update(c as int, value)));
        assert forall|i: int| 0 <= i < self@.len() implies (#[trigger] self@[i]).len() == cols by {
            assert(self.data@[i]@.len() == cols);
        }
    }

    /// A copy of row `r`.
    pub fn row(&self, r: usize) -> (v: Vec<T>)
        requires
            r < self.rows_spec(),
        ensures
            v@ == self@[r as int],
    {
        proof {
            use_type_invariant(self);
        }
        let mut v: Vec<T> = Vec::with_capacity(self.cols);
        let mut c: usize = 0;
        while c < self.cols
            invariant
                c <= self.cols,
                r < self.data@.len(),
                self.data@[r as int]@.len() == self.cols,
                v@ == self.data@[r as int]@.take(c as int),
            decreases self.cols - c,
        {
            v.push(self.data[r][c]);
            c = c + 1;
            assert(v@ =~= self.data@[r as int]@.take(c as int));
        }
        assert(self.data@[r as int]@.take(self.cols as int) =~= self.data@[r as int]@);
        v
    }

    /// A copy of column `c`.
    pub fn column(&self, c: usize) -> (v: Vec<T>)
        requires
            c < self.cols_spec(),
        ensures
            v@ == self.column_spec(c as int),
    {
        proof {
            use_type_invariant(self);
        }
        let mut v: Vec<T> = Vec::with_capacity(self.data.len());
        let mut r: usize = 0;
        while r < self.data.len()
            invariant
                r <= self.data@.len(),
                c < self.cols,
                forall|i: int| 0 <= i < self.data@.len() ==> (#[trigger] self.data@[i])@.len() == self.cols,
                v@ == self.column_spec(c as int).take(r as int),
            decreases self.data@.len() - r,
        {
            v.push(self.data[r][c]);
            r = r + 1;
            assert(v@ =~= self.column_spec(c as int).take(r as int));
        }
        assert(self.column_spec(c as int).take(self.data@.len() as int) =~= self.column_spec(c as int));
        v
    }

    /// Overwrites row `r` with `values`.
    pub fn set_row(&mut self, r: usize, values: &Vec<T>)
        requires
            r < old(self).rows_spec(),
            values@.len() == old(self).cols_spec(),
        ensures
            final(self).has_shape(old(self).rows_spec(), old(self).cols_spec()),
            final(self)@ == old(self)@.update(r as int, values@),
    {
        let cols = self.cols();
        let mut c: usize = 0;
        while c < cols
            invariant
                c <= cols,
                cols == values@.len(),
                r < self.rows_spec(),
                self.has_shape(old(self).rows_spec(), old(self).cols_spec()),
                values@.len() == self.cols_spec(),
                forall|i: int| 0 <= i < self@.len() && i != r ==> self@[i] == old(self)@[i],
                self@[r as int].len() == values@.len(),
                forall|k: int| 0 <= k < c ==> self@[r as int][k] == values@[k],
            decreases cols - c,
        {
            self.set(r, c, values[c]);
            c = c + 1;
        }
        assert(self@[r as int] =~= values@);
        assert(self@ =~= old(self)@.update(r as int, values@));
    }

    /// Overwrites column `c` with `values`.
    pub fn set_column(&mut self, c: usize, values: &Vec<T>)
        requires
            c < old(self).cols_spec(),
            values@.len() == old(self).rows_spec(),
        ensures
            final(self).has_shape(old(self).rows_spec(), old(self).cols_spec()),
            forall|r: int| 0 <= r < values@.len() ==> #[trigger] final(self)@[r][c as int] == values@[r],
            forall|r: int, k: int|
                0 <= r < values@.len() && 0 <= k < old(self).cols_spec() && k != c
                    ==> #[trigger] final(self)@[r][k] == old(self)@[r][k],
    {
        let cols = self.cols();
        let mut r: usize = 0;
        while r < values.len()
            invariant
                r <= values@.len(),
                c < cols,
                cols == old(self).cols_spec(),
                self.has_shape(old(self).rows_spec(), old(self).cols_spec()),
                values@.len() == self.rows_spec(),
                forall|i: int| 0 <= i < r ==> #[trigger] self@[i][c as int] == values@[i],
                forall|i: int, k: int|
                    0 <= i < values@.len() && 0 <= k < cols && k != c ==> #[trigger] self@[i][k]
                        == old(self)@[i][k],
            decreases values@.len() - r,
        {
            self.set(r, c, values[r]);
            r = r + 1;
        }
    }
}

} // verus!
