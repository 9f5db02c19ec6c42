use vstd::prelude::*;
use vstd::std_specs::cmp::PartialEqSpec;
use vstd::std_specs::ops::{AddSpec, MulSpec};
use std::ops::{Add, Mul};

verus! {

/// Why an operation on a matrix was refused.
#[derive(Debug, Clone, Copy, PartialEq, Eq, Structural)]
pub enum MatrixError {
    /// A length did not fit the shape of the matrix.
    Shape { expected: usize, given: usize },
    /// A sequence of lanes had no lane at all, so no common lane length
    /// (row count) could be determined from it.
    NoLanes,
    /// An index was outside `0..len`.
    Index { index: usize, len: usize },
}

/// A grid of elements held column by column: the outer vector has one lane
/// per column, and every lane holds one element per row.
#[derive(Debug)]
pub struct Matrix<T> {
    mat: Vec<Vec<T>>,
    rows: usize,
    columns: usize,
}

/// True when every lane of `g` holds exactly `n` elements.
pub open spec fn lanes_have_len<T>(g: Seq<Seq<T>>, n: int) -> bool {
    forall|i: int| 0 <= i < g.len() ==> (#[trigger] g[i]).len() == n
}

/// The contents of a vector of lanes.
pub open spec fn lanes_view<T>(v: Seq<Vec<T>>) -> Seq<Seq<T>> {
    v.map_values(|lane: Vec<T>| lane@)
}

/// True when `g` has at least one lane and all its lanes share one length.
pub open spec fn rectangular<T>(g: Seq<Seq<T>>) -> bool {
    g.len() > 0 && lanes_have_len(g, g[0].len() as int)
}

/// True when `e` reports the first lane of `g` whose length differs from
/// that of lane 0: that length is `given`, lane 0's length is `expected`.
pub open spec fn is_mismatch_error<T>(g: Seq<Seq<T>>, e: MatrixError) -> bool {
    exists|k: int| {
        &&& 0 < k < g.len()
        &&& e == (MatrixError::Shape { expected: g[0].len() as usize, given: (#[trigger] g[k]).len() as usize })
        &&& g[k].len() != g[0].len()
        &&& forall|l: int| 0 <= l < k ==> (#[trigger] g[l]).len() == g[0].len()
    }
}

/// Row `j` of `g`: the element at position `j` of every lane, in lane order.
pub open spec fn row_of<T>(g: Seq<Seq<T>>, j: int) -> Seq<T> {
    Seq::new(g.len(), |i: int| g[i][j])
}

impl<T> Matrix<T> {
    /// The lanes of the matrix, outer index = column, inner index = row.
    pub closed spec fn view(&self) -> Seq<Seq<T>> {
        lanes_view(self.mat@)
    }

    /// The reported number of rows.
    pub closed spec fn spec_rows(&self) -> nat {
        self.rows as nat
    }

    /// The reported number of columns.
    pub closed spec fn spec_columns(&self) -> nat {
        self.columns as nat
    }

    /// Well-formedness: one lane per reported column, every lane as long
    /// as the reported row count, and no rows without a lane to hold them.
    pub open spec fn wf(&self) -> bool {
        &&& self@.len() == self.spec_columns()
        &&& lanes_have_len(self@, self.spec_rows() as int)
        &&& self.spec_columns() == 0 ==> self.spec_rows() == 0
    }

    /// A matrix with no lanes.
    pub fn new() -> (m: Self)
        ensures
            m.wf(),
            m@ == Seq::<Seq<T>>::empty(),
            m.spec_rows() == 0,
            m.spec_columns() == 0,
    {
        let m = Matrix { mat: Vec::new(), rows: 0, columns: 0 };
        assert(m@ =~= Seq::<Seq<T>>::empty());
        m
    }

    /// The length shared by all lanes of `vector`. With no lanes the length
    /// cannot be determined, which fails with `NoLanes`; lanes of differing
    /// lengths fail with a shape error that gives the length of lane 0 as
    /// expected and the first other length as given.
    pub fn valid_from_vector(vector: &Vec<Vec<T>>) -> (r: Result<usize, MatrixError>)
        ensures
            vector@.len() == 0 ==> r == Err::<usize, MatrixError>(MatrixError::NoLanes),
            vector@.len() > 0 && rectangular(lanes_view(vector@)) ==> r is Ok && r->Ok_0 == vector@[0]@.len(),
            vector@.len() > 0 && !rectangular(lanes_view(vector@)) ==> r is Err && is_mismatch_error(
                lanes_view(vector@),
                r->Err_0,
            ),
    {
        let ghost g = lanes_view(vector@);
        if vector.len() == 0 {
            return Err(MatrixError::NoLanes);
        }
        let rows: usize = vector[0].len();
        let mut i: usize = 0;
        while i < vector.len()
            invariant
                0 <= i <= vector@.len(),
                vector@.len() > 0,
                g == lanes_view(vector@),
                rows == g[0].len(),
                forall|k: int| 0 <= k < i ==> (#[trigger] g[k]).len() == rows,
            decreases vector@.len() - i,
        {
            if vector[i].len() != rows {
                assert(g[i as int].len() != g[0].len());
                return Err(MatrixError::Shape { expected: rows, given: vector[i].len() });
            }
            i = i + 1;
        }
        Ok(rows)
    }

    /// A copy of lane `i`.
    fn lane_copy(&self, i: usize) -> (r: Vec<T>)
        where T: Copy
        requires
            self.wf(),
            i < self.spec_columns(),
        ensures
            r@ == self@[i as int],
    {
        let lane = &self.mat[i];
        assert(self@[i as int] == lane@);
        Self::lane_copy_of(lane)
    }

    /// An element-by-element copy of `lane`.
    fn lane_copy_of(lane: &Vec<T>) -> (r: Vec<T>)
        where T: Copy
        ensures
            r@ == lane@,
    {
        let mut res: Vec<T> = Vec::new();
        let mut k: usize = 0;
        while k < lane.len()
            invariant
                0 <= k <= lane@.len(),
                res@ == lane@.subrange(0, k as int),
            decreases lane@.len() - k,
        {
            res.push(lane[k]);
            k = k + 1;
            assert(res@ =~= lane@.subrange(0, k as int));
        }
        assert(res@ =~= lane@);
        res
    }

    /// A copy of row `j`: the `j`-th element of every lane, in lane order.
    fn row_copy(&self, j: usize) -> (r: Vec<T>)
        where T: Copy
        requires
            self.wf(),
            j < self.spec_rows(),
        ensures
            r@ == row_of(self@, j as int),
    {
        let ghost g = self@;
        let mut res: Vec<T> = Vec::new();
        let mut i: usize = 0;
        while i < self.mat.len()
            invariant
                0 <= i <= self.mat@.len(),
                self.wf(),
                g == self@,
                j < self.spec_rows(),
                res@ == row_of(g, j as int).subrange(0, i as int),
            decreases self.mat@.len() - i,
        {
            assert(g[i as int] == self.mat@[i as int]@);
            assert(g[i as int].len() == self.spec_rows());
            res.push(self.mat[i][j]);
            i = i + 1;
            assert(res@ =~= row_of(g, j as int).subrange(0, i as int));
        }
        assert(res@ =~= row_of(g, j as int));
        res
    }

    /// A copy of row `row_idx`. Fails with an index error unless
    /// `row_idx < rows`.
    pub fn row(&self, row_idx: usize) -> (r: Result<Vec<T>, MatrixError>)
        where T: Copy
        requires
            self.wf(),
        ensures
            row_idx < self.spec_rows() ==> r is Ok && r->Ok_0@ == row_of(self@, row_idx as int),
            row_idx >= self.spec_rows() ==> r == Err::<Vec<T>, MatrixError>(MatrixError::Index { index: row_idx, len: self.spec_rows() as usize }),
    {
        if row_idx >= self.rows {
            return Err(MatrixError::Index { index: row_idx, len: self.rows });
        }
        Ok(self.row_copy(row_idx))
    }

    /// A copy of lane (column) `column_idx`. Fails with an index error unless
    /// `column_idx < columns`.
    pub fn column(&self, column_idx: usize) -> (r: Result<Vec<T>, MatrixError>)
        where T: Copy
        requires
            self.wf(),
        ensures
            column_idx < self.spec_columns() ==> r is Ok && r->Ok_0@ == self@[column_idx as int],
            column_idx >= self.spec_columns() ==> r == Err::<Vec<T>, MatrixError>(MatrixError::Index { index: column_idx, len: self.spec_columns() as usize }),
    {
        if column_idx >= self.columns {
            return Err(MatrixError::Index { index: column_idx, len: self.columns });
        }
        Ok(self.lane_copy(column_idx))
    }

    /// Appends one row: element `i` of `row` goes to the end of lane `i`.
    /// Fails with a shape error, leaving the matrix as it was, unless `row`
    /// has one element per column. A matrix without lanes has nowhere to
    /// hold a row, so on it an empty row changes nothing.
    pub fn push_row(&mut self, row: Vec<T>) -> (r: Result<(), MatrixError>)
        where T: Copy
        requires
            old(self).wf(),
        ensures
            final(self).wf(),
            row@.len() != old(self).spec_columns() ==> {
                &&& r == Err::<(), MatrixError>(MatrixError::Shape { expected: old(self).spec_columns() as usize, given: row@.len() as usize })
                &&& *final(self) == *old(self)
            },
            row@.len() == old(self).spec_columns() ==> {
                &&& r is Ok
                &&& final(self)@ == Seq::new(old(self)@.len(), |i: int| old(self)@[i].push(row@[i]))
                &&& final(self).spec_columns() == old(self).spec_columns()
                &&& final(self).spec_rows() == if old(self).spec_columns() == 0 { 0 } else { old(self).spec_rows() + 1 }
            },
    {
        if self.columns != row.len() {
            return Err(MatrixError::Shape { expected: self.columns, given: row.len() });
        }
        let ghost g = self@;
        let mut i: usize = 0;
        while i < self.columns
            invariant
                0 <= i <= self.spec_columns(),
                self.spec_columns() == old(self).spec_columns(),
                self.spec_rows() == old(self).spec_rows(),
                g == old(self)@,
                old(self).wf(),
                row@.len() == self.spec_columns(),
                self.mat@.len() == self.spec_columns(),
                forall|k: int| 0 <= k < i ==> (#[trigger] self.mat@[k])@ == g[k].push(row@[k]),
                forall|k: int| i <= k < self.mat@.len() ==> (#[trigger] self.mat@[k])@ == g[k],
            decreases self.spec_columns() - i,
        {
            let x = row[i];
            self.mat[i].push(x);
            i = i + 1;
        }
        if self.columns > 0 {
            self.rows = self.mat[0].len();
        }
        assert(self@ =~= Seq::new(g.len(), |i: int| g[i].push(row@[i])));
        Ok(())
    }

    /// Appends `column` as a new last lane. Fails with a shape error, leaving
    /// the matrix as it was, when the matrix has lanes and `column` is not as
    /// long as each of them; a matrix without lanes takes a lane of any
    /// length, which sets its row count.
    pub fn push_column(&mut self, column: Vec<T>) -> (r: Result<(), MatrixError>)
        requires
            old(self).wf(),
        ensures
            final(self).wf(),
            old(self).spec_columns() > 0 && column@.len() != old(self).spec_rows() ==> {
                &&& r == Err::<(), MatrixError>(MatrixError::Shape { expected: old(self).spec_rows() as usize, given: column@.len() as usize })
                &&& *final(self) == *old(self)
            },
            old(self).spec_columns() == 0 || column@.len() == old(self).spec_rows() ==> {
                &&& r is Ok
                &&& final(self)@ == old(self)@.push(column@)
                &&& final(self).spec_columns() == old(self).spec_columns() + 1
                &&& final(self).spec_rows() == column@.len()
            },
    {
        if self.columns != 0 && self.rows != column.len() {
            return Err(MatrixError::Shape { expected: self.rows, given: column.len() });
        }
        let ghost g = self@;
        let rows: usize = column.len();
        self.mat.push(column);
        self.columns = self.mat.len();
        self.rows = rows;
        assert(self@ =~= g.push(column@));
        Ok(())
    }

    /// Removes the last element of every lane and returns them in lane
    /// order; `None`, changing nothing, when there are no rows.
    pub fn pop_rows(&mut self) -> (r: Option<Vec<T>>)
        requires
            old(self).wf(),
        ensures
            final(self).wf(),
            old(self).spec_rows() == 0 ==> r is None && *final(self) == *old(self),
            old(self).spec_rows() > 0 ==> {
                &&& r is Some
                &&& r->0@ == row_of(old(self)@, old(self).spec_rows() - 1)
                &&& final(self)@ == Seq::new(old(self)@.len(), |i: int| old(self)@[i].drop_last())
                &&& final(self).spec_columns() == old(self).spec_columns()
                &&& final(self).spec_rows() == old(self).spec_rows() - 1
            },
    {
        if self.rows == 0 {
            return None;
        }
        let ghost g = self@;
        let mut res: Vec<T> = Vec::new();
        let mut i: usize = 0;
        while i < self.columns
            invariant
                0 <= i <= self.spec_columns(),
                self.spec_columns() == old(self).spec_columns(),
                self.spec_rows() == old(self).spec_rows(),
                self.spec_rows() > 0,
                g == old(self)@,
                old(self).wf(),
                self.mat@.len() == self.spec_columns(),
                res@ == row_of(g, self.spec_rows() - 1).subrange(0, i as int),
                forall|k: int| 0 <= k < i ==> (#[trigger] self.mat@[k])@ == g[k].drop_last(),
                forall|k: int| i <= k < self.mat@.len() ==> (#[trigger] self.mat@[k])@ == g[k],
            decreases self.spec_columns() - i,
        {
            assert(self.mat@[i as int]@ == g[i as int]);
            let x = self.mat[i].pop();
            match x {
                Some(v) => res.push(v),
                None => {},
            }
            i = i + 1;
            assert(res@ =~= row_of(g, self.spec_rows() - 1).subrange(0, i as int));
        }
        self.rows = self.rows - 1;
        assert(self@ =~= Seq::new(g.len(), |i: int| g[i].drop_last()));
        assert(res@ =~= row_of(g, old(self).spec_rows() - 1));
        Some(res)
    }

    /// Removes and returns the last lane; `None`, changing nothing, when
    /// there are no lanes. Removing the only lane leaves no rows either.
    pub fn pop_columns(&mut self) -> (r: Option<Vec<T>>)
        requires
            old(self).wf(),
        ensures
            final(self).wf(),
            old(self).spec_columns() == 0 ==> r is None && *final(self) == *old(self),
            old(self).spec_columns() > 0 ==> {
                &&& r is Some
                &&& r->0@ == old(self)@.last()
                &&& final(self)@ == old(self)@.drop_last()
                &&& final(self).spec_columns() == old(self).spec_columns() - 1
                &&& final(self).spec_rows() == if old(self).spec_columns() == 1 { 0 } else { old(self).spec_rows() }
            },
    {
        if self.columns == 0 {
            return None;
        }
        let ghost g = self@;
        let lane = self.mat.pop();
        self.columns = self.columns - 1;
        if self.columns == 0 {
            self.rows = 0;
        }
        assert(self@ =~= g.drop_last());
        lane
    }

    /// The number of columns (lanes).
    pub fn len_cols(&self) -> (n: usize)
        ensures
            n == self.spec_columns(),
    {
        self.columns
    }

    /// The number of rows (elements per lane).
    pub fn len_rows(&self) -> (n: usize)
        ensures
            n == self.spec_rows(),
    {
        self.rows
    }

    /// The lanes, taken out of the matrix.
    pub fn as_nested_vec(self) -> (v: Vec<Vec<T>>)
        ensures
            lanes_view(v@) == self@,
    {
        self.mat
    }

    /// The lanes, borrowed.
    pub fn as_nested_vec_ref(&self) -> (v: &Vec<Vec<T>>)
        ensures
            lanes_view(v@) == self@,
    {
        &self.mat
    }

    /// Lane (column) `index`, borrowed. Fails with an index error unless
    /// `index < columns`.
    pub fn lane(&self, index: usize) -> (r: Result<&Vec<T>, MatrixError>)
        requires
            self.wf(),
        ensures
            index < self.spec_columns() ==> r is Ok && r->Ok_0@ == self@[index as int],
            index >= self.spec_columns() ==> r == Err::<&Vec<T>, MatrixError>(MatrixError::Index { index, len: self.spec_columns() as usize }),
    {
        if index >= self.columns {
            return Err(MatrixError::Index { index, len: self.columns });
        }
        Ok(&self.mat[index])
    }

    /// Overwrites the element in lane `column` at row `row` with `value`.
    /// Fails with an index error, leaving the matrix as it was, unless
    /// `column < columns` and `row < rows`; the column is tested first.
    pub fn set(&mut self, column: usize, row: usize, value: T) -> (r: Result<(), MatrixError>)
        requires
            old(self).wf(),
        ensures
            final(self).wf(),
            column >= old(self).spec_columns() ==> {
                &&& r == Err::<(), MatrixError>(MatrixError::Index { index: column, len: old(self).spec_columns() as usize })
                &&& *final(self) == *old(self)
            },
            column < old(self).spec_columns() && row >= old(self).spec_rows() ==> {
                &&& r == Err::<(), MatrixError>(MatrixError::Index { index: row, len: old(self).spec_rows() as usize })
                &&& *final(self) == *old(self)
            },
            column < old(self).spec_columns() && row < old(self).spec_rows() ==> {
                &&& r is Ok
                &&& final(self)@ == old(self)@.update(column as int, old(self)@[column as int].update(row as int, value))
                &&& final(self).spec_columns() == old(self).spec_columns()
                &&& final(self).spec_rows() == old(self).spec_rows()
            },
    {
        if column >= self.columns {
            return Err(MatrixError::Index { index: column, len: self.columns });
        }
        if row >= self.rows {
            return Err(MatrixError::Index { index: row, len: self.rows });
        }
        let ghost g = self@;
        assert(self.mat@[column as int]@ == g[column as int]);
        self.mat[column].set(row, value);
        assert(self@ =~= g.update(column as int, g[column as int].update(row as int, value)));
        Ok(())
    }

    /// Builds a matrix from its lanes. Fails as `valid_from_vector` does:
    /// with `NoLanes` when there are no lanes, and with a shape error when a
    /// lane's length differs from that of lane 0 (that length expected, the
    /// first other length given).
    pub fn from(matrix: Vec<Vec<T>>) -> (r: Result<Self, MatrixError>)
        ensures
            match r {
                Ok(m) => {
                    &&& rectangular(lanes_view(matrix@))
                    &&& m.wf()
                    &&& m@ == lanes_view(matrix@)
                    &&& m.spec_columns() == matrix@.len()
                    &&& m.spec_rows() == matrix@[0]@.len()
                },
                Err(e) => {
                    &&& !rectangular(lanes_view(matrix@))
                    &&& matrix@.len() == 0 ==> e == MatrixError::NoLanes
                    &&& matrix@.len() > 0 ==> is_mismatch_error(lanes_view(matrix@), e)
                },
            },
    {
        let columns: usize = matrix.len();
        match Matrix::valid_from_vector(&matrix) {
            Ok(rows) => {
                let m = Matrix { mat: matrix, rows, columns };
                assert(m@ == lanes_view(matrix@));
                assert(m@[0] == matrix@[0]@);
                Ok(m)
            },
            Err(e) => Err(e),
        }
    }
}

/// True when `x` is a value that `rand_fn` may return on a seed that
/// `seed_fn` may return.
pub open spec fn drawn<S, T, F: Fn(S) -> T, G: Fn() -> S>(rand_fn: &F, seed_fn: &G, x: T) -> bool {
    exists|s: S| call_ensures(seed_fn, (), s) && call_ensures(rand_fn, (s,), x)
}

impl<T: Default> Matrix<T> {
    /// A matrix of `columns` lanes of `rows` elements, each one a copy of a
    /// single default value. With no lanes there are no rows either.
    pub fn zeros(rows: usize, columns: usize) -> (m: Self)
        where T: Copy
        ensures
            m.wf(),
            m.spec_columns() == columns,
            m.spec_rows() == if columns == 0 { 0 } else { rows },
            lanes_have_len(m@, rows as int),
            forall|i: int, j: int| 0 <= i < columns && 0 <= j < rows
                ==> call_ensures(T::default, (), #[trigger] m@[i][j]),
    {
        let d = T::default();
        let mut lane: Vec<T> = Vec::new();
        let mut j: usize = 0;
        while j < rows
            invariant
                0 <= j <= rows,
                lane@.len() == j,
                call_ensures(T::default, (), d),
                forall|l: int| 0 <= l < j ==> #[trigger] lane@[l] == d,
            decreases rows - j,
        {
            lane.push(d);
            j = j + 1;
        }
        let mut mat: Vec<Vec<T>> = Vec::new();
        let mut i: usize = 0;
        while i < columns
            invariant
                0 <= i <= columns,
                lane@.len() == rows,
                call_ensures(T::default, (), d),
                forall|l: int| 0 <= l < rows ==> #[trigger] lane@[l] == d,
                mat@.len() == i,
                forall|k: int| 0 <= k < i ==> (#[trigger] mat@[k])@ == lane@,
            decreases columns - i,
        {
            let copy = Self::lane_copy_of(&lane);
            mat.push(copy);
            i = i + 1;
        }
        let reported: usize = if columns == 0 { 0 } else { rows };
        let m = Matrix { mat, rows: reported, columns };
        assert(forall|k: int| 0 <= k < columns ==> (#[trigger] m@[k]) == lane@);
        m
    }

    /// A matrix of `columns` lanes of `rows` elements, each one made by its
    /// own call of `T::default`. With no lanes there are no rows either.
    pub fn zeros_no_copy(rows: usize, columns: usize) -> (m: Self)
        ensures
            m.wf(),
            m.spec_columns() == columns,
            m.spec_rows() == if columns == 0 { 0 } else { rows },
            lanes_have_len(m@, rows as int),
            forall|i: int, j: int| 0 <= i < columns && 0 <= j < rows
                ==> call_ensures(T::default, (), #[trigger] m@[i][j]),
    {
        let mut mat: Vec<Vec<T>> = Vec::new();
        let mut i: usize = 0;
        while i < columns
            invariant
                0 <= i <= columns,
                mat@.len() == i,
                forall|k: int| 0 <= k < i ==> (#[trigger] mat@[k])@.len() == rows,
                forall|k: int, l: int| 0 <= k < i && 0 <= l < rows
                    ==> call_ensures(T::default, (), #[trigger] mat@[k]@[l]),
            decreases columns - i,
        {
            let mut lane: Vec<T> = Vec::new();
            let mut j: usize = 0;
            while j < rows
                invariant
                    0 <= j <= rows,
                    lane@.len() == j,
                    forall|l: int| 0 <= l < j ==> call_ensures(T::default, (), #[trigger] lane@[l]),
                decreases rows - j,
            {
                lane.push(T::default());
                j = j + 1;
            }
            mat.push(lane);
            i = i + 1;
        }
        let reported: usize = if columns == 0 { 0 } else { rows };
        let m = Matrix { mat, rows: reported, columns };
        assert(forall|k: int| 0 <= k < columns ==> (#[trigger] m@[k]) == m.mat@[k]@);
        m
    }

    /// A matrix of `columns` lanes of `rows` elements, filled lane by lane
    /// and, within a lane, row by row: each element is `rand_fn(seed_fn())`,
    /// one call of each per element.
    pub fn legacy_random<S, F: Fn(S) -> T, G: Fn() -> S>(
        rows: usize,
        columns: usize,
        rand_fn: &F,
        seed_fn: &G,
    ) -> (m: Matrix<T>)
        where T: Copy
        requires
            call_requires(seed_fn, ()),
            forall|s: S| call_requires(rand_fn, (s,)),
        ensures
            m.wf(),
            m.spec_columns() == columns,
            m.spec_rows() == if columns == 0 { 0 } else { rows },
            lanes_have_len(m@, rows as int),
            forall|i: int, j: int| 0 <= i < columns && 0 <= j < rows
                ==> drawn(rand_fn, seed_fn, #[trigger] m@[i][j]),
    {
        let mut mat: Vec<Vec<T>> = Vec::new();
        let mut i: usize = 0;
        while i < columns
            invariant
                0 <= i <= columns,
                call_requires(seed_fn, ()),
                forall|s: S| call_requires(rand_fn, (s,)),
                mat@.len() == i,
                forall|k: int| 0 <= k < i ==> (#[trigger] mat@[k])@.len() == rows,
                forall|k: int, l: int| 0 <= k < i && 0 <= l < rows
                    ==> drawn(rand_fn, seed_fn, #[trigger] mat@[k]@[l]),
            decreases columns - i,
        {
            let mut lane: Vec<T> = Vec::new();
            let mut j: usize = 0;
            while j < rows
                invariant
                    0 <= j <= rows,
                    call_requires(seed_fn, ()),
                    forall|s: S| call_requires(rand_fn, (s,)),
                    lane@.len() == j,
                    forall|l: int| 0 <= l < j
                        ==> drawn(rand_fn, seed_fn, #[trigger] lane@[l]),
                decreases rows - j,
            {
                let seed = seed_fn();
                let v = rand_fn(seed);
                assert(drawn(rand_fn, seed_fn, v));
                lane.push(v);
                j = j + 1;
            }
            mat.push(lane);
            i = i + 1;
        }
        let reported: usize = if columns == 0 { 0 } else { rows };
        let m = Matrix { mat, rows: reported, columns };
        assert(forall|k: int| 0 <= k < columns ==> (#[trigger] m@[k]) == m.mat@[k]@);
        m
    }
}

impl<T> Default for Matrix<T> {
    /// A matrix with no lanes.
    fn default() -> (m: Self)
        ensures
            m.wf(),
            m@ == Seq::<Seq<T>>::empty(),
            m.spec_rows() == 0,
            m.spec_columns() == 0,
    {
        Matrix::new()
    }
}

/// True when `a` and `b` have lanes of the same lengths and every pair of
/// elements at the same position is equal under the element type's `==`.
pub open spec fn same_entries<T: PartialEq>(a: Seq<Seq<T>>, b: Seq<Seq<T>>) -> bool {
    &&& a.len() == b.len()
    &&& forall|i: int| 0 <= i < a.len() ==> (#[trigger] a[i]).len() == b[i].len()
    &&& forall|i: int, j: int|
        0 <= i < a.len() && 0 <= j < a[i].len() ==> (#[trigger] a[i][j]).eq_spec(&b[i][j])
}

impl<T: PartialEq> PartialEq for Matrix<T> {
    /// Equal shapes and equal elements at equal positions.
    fn eq(&self, other: &Self) -> (r: bool) {
        if self.columns != other.columns || self.rows != other.rows
            || self.mat.len() != other.mat.len() {
            return false;
        }
        let ghost a = self@;
        let ghost b = other@;
        let mut i: usize = 0;
        while i < self.mat.len()
            invariant
                0 <= i <= self.mat@.len(),
                self.mat@.len() == other.mat@.len(),
                a == self@,
                b == other@,
                forall|k: int| 0 <= k < i ==> (#[trigger] a[k]).len() == b[k].len(),
                T::obeys_eq_spec() ==> forall|k: int, l: int|
                    0 <= k < i && 0 <= l < a[k].len() ==> (#[trigger] a[k][l]).eq_spec(&b[k][l]),
            decreases self.mat@.len() - i,
        {
            let x = &self.mat[i];
            let y = &other.mat[i];
            assert(a[i as int] == x@ && b[i as int] == y@);
            if x.len() != y.len() {
                return false;
            }
            let mut j: usize = 0;
            while j < x.len()
                invariant
                    0 <= j <= x@.len(),
                    0 <= i < self.mat@.len(),
                    self.mat@.len() == other.mat@.len(),
                    a == self@,
                    b == other@,
                    a[i as int] == x@,
                    b[i as int] == y@,
                    x@.len() == y@.len(),
                    forall|k: int| 0 <= k < i ==> (#[trigger] a[k]).len() == b[k].len(),
                    T::obeys_eq_spec() ==> forall|k: int, l: int|
                        0 <= k < i && 0 <= l < a[k].len() ==> (#[trigger] a[k][l]).eq_spec(&b[k][l]),
                    T::obeys_eq_spec() ==> forall|l: int|
                        0 <= l < j ==> (#[trigger] a[i as int][l]).eq_spec(&b[i as int][l]),
                decreases x@.len() - j,
            {
                if !(x[j] == y[j]) {
                    return false;
                }
                j = j + 1;
            }
            i = i + 1;
        }
        true
    }
}

impl<T: PartialEq> vstd::std_specs::cmp::PartialEqSpecImpl for Matrix<T> {
    open spec fn obeys_eq_spec() -> bool {
        T::obeys_eq_spec()
    }

    open spec fn eq_spec(&self, other: &Self) -> bool {
        &&& self.spec_columns() == other.spec_columns()
        &&& self.spec_rows() == other.spec_rows()
        &&& same_entries(self@, other@)
    }
}

/// The inner product of the first `n` pairs of `a` and `b`:
/// `a[0] * b[0] + a[1] * b[1] + ... + a[n - 1] * b[n - 1]`, summed from the left.
pub open spec fn inner<N: Mul<Output = N> + Add<Output = N>>(a: Seq<N>, b: Seq<N>, n: int) -> N
    decreases n,
{
    if n <= 1 {
        a[0].mul_spec(b[0])
    } else {
        inner(a, b, n - 1).add_spec(a[n - 1].mul_spec(b[n - 1]))
    }
}

/// Every product and partial sum of `inner(a, b, n)` is defined for `N`
/// (for the machine integers: none of them overflows).
pub open spec fn inner_defined<N: Mul<Output = N> + Add<Output = N>>(a: Seq<N>, b: Seq<N>, n: int) -> bool
    decreases n,
{
    if n <= 1 {
        n == 1 ==> a[0].mul_req(b[0])
    } else {
        &&& inner_defined(a, b, n - 1)
        &&& a[n - 1].mul_req(b[n - 1])
        &&& inner(a, b, n - 1).add_req(a[n - 1].mul_spec(b[n - 1]))
    }
}

impl<N: Copy + Mul<Output = N> + Add<Output = N>> Matrix<N> {
    /// The inner product of two vectors of one length. An empty pair gives
    /// the element type's default value.
    pub fn vector_dot(vec_1: Vec<N>, vec_2: Vec<N>) -> (r: Result<N, MatrixError>)
        where N: Default
        requires
            N::obeys_mul_spec(),
            N::obeys_add_spec(),
            vec_1@.len() == vec_2@.len() ==> inner_defined(vec_1@, vec_2@, vec_1@.len() as int),
        ensures
            r is Err <==> vec_1@.len() != vec_2@.len(),
            r is Err ==> r->Err_0 == (MatrixError::Shape { expected: vec_1@.len() as usize, given: vec_2@.len() as usize }),
            vec_1@.len() == vec_2@.len() && vec_1@.len() == 0 ==> r is Ok && call_ensures(N::default, (), r->Ok_0),
            vec_1@.len() == vec_2@.len() && vec_1@.len() > 0 ==> r == Ok::<N, MatrixError>(inner(vec_1@, vec_2@, vec_1@.len() as int)),
    {
        if vec_1.len() != vec_2.len() {
            return Err(MatrixError::Shape { expected: vec_1.len(), given: vec_2.len() });
        }
        if vec_1.len() == 0 {
            return Ok(N::default());
        }
        Ok(Self::inner_product(&vec_1, &vec_2))
    }

    /// The inner product of two non-empty vectors of one length.
    fn inner_product(a: &Vec<N>, b: &Vec<N>) -> (r: N)
        requires
            N::obeys_mul_spec(),
            N::obeys_add_spec(),
            a@.len() == b@.len(),
            a@.len() > 0,
            inner_defined(a@, b@, a@.len() as int),
        ensures
            r == inner(a@, b@, a@.len() as int),
    {
        proof {
            lemma_inner_defined_prefix(a@, b@, a@.len() as int, 1);
        }
        let mut acc: N = a[0] * b[0];
        let mut k: usize = 1;
        while k < a.len()
            invariant
                1 <= k <= a@.len(),
                a@.len() == b@.len(),
                N::obeys_mul_spec(),
                N::obeys_add_spec(),
                inner_defined(a@, b@, a@.len() as int),
                acc == inner(a@, b@, k as int),
            decreases a@.len() - k,
        {
            proof {
                lemma_inner_defined_prefix(a@, b@, a@.len() as int, k as int + 1);
            }
            acc = acc + a[k] * b[k];
            k = k + 1;
        }
        acc
    }

    /// The matrix product: entry `(i, j)` of the result (lane `i`, row `j`)
    /// is the inner product of lane `i` of `matrix_2` with row `j` of `self`.
    /// Fails with a shape error unless `self` has as many columns as
    /// `matrix_2` has rows.
    pub fn dot(&self, matrix_2: &Self) -> (r: Result<Self, MatrixError>)
        where N: Default
        requires
            self.wf(),
            matrix_2.wf(),
            N::obeys_mul_spec(),
            N::obeys_add_spec(),
            self.spec_columns() == matrix_2.spec_rows() ==> forall|i: int, j: int|
                0 <= i < matrix_2.spec_columns() && 0 <= j < self.spec_rows()
                    ==> inner_defined(#[trigger] matrix_2@[i], #[trigger] row_of(self@, j), self.spec_columns() as int),
        ensures
            r is Err <==> self.spec_columns() != matrix_2.spec_rows(),
            r is Err ==> r->Err_0 == (MatrixError::Shape { expected: self.spec_columns() as usize, given: matrix_2.spec_rows() as usize }),
            r is Ok ==> {
                let m = r->Ok_0;
                &&& m.wf()
                &&& m.spec_rows() == self.spec_rows()
                &&& m.spec_columns() == matrix_2.spec_columns()
                &&& forall|i: int, j: int| 0 <= i < m.spec_columns() && 0 <= j < m.spec_rows()
                    ==> #[trigger] m@[i][j] == inner(matrix_2@[i], row_of(self@, j), self.spec_columns() as int)
            },
    {
        if self.columns != matrix_2.rows {
            return Err(MatrixError::Shape { expected: self.columns, given: matrix_2.rows });
        }
        let ghost a = self@;
        let ghost b = matrix_2@;
        let mut mat: Vec<Vec<N>> = Vec::new();
        let mut i: usize = 0;
        while i < matrix_2.columns
            invariant
                0 <= i <= matrix_2.spec_columns(),
                self.wf(),
                matrix_2.wf(),
                a == self@,
                b == matrix_2@,
                N::obeys_mul_spec(),
                N::obeys_add_spec(),
                self.spec_columns() == matrix_2.spec_rows(),
                forall|i: int, j: int|
                    0 <= i < matrix_2.spec_columns() && 0 <= j < self.spec_rows()
                        ==> inner_defined(#[trigger] b[i], #[trigger] row_of(a, j), self.spec_columns() as int),
                mat@.len() == i,
                forall|k: int| 0 <= k < i ==> (#[trigger] mat@[k])@.len() == self.spec_rows(),
                forall|k: int, j: int| 0 <= k < i && 0 <= j < self.spec_rows()
                    ==> #[trigger] mat@[k]@[j] == inner(b[k], row_of(a, j), self.spec_columns() as int),
            decreases matrix_2.spec_columns() - i,
        {
            let lane = matrix_2.lane_copy(i);
            let mut out: Vec<N> = Vec::new();
            let mut j: usize = 0;
            while j < self.rows
                invariant
                    0 <= j <= self.spec_rows(),
                    0 <= i < matrix_2.spec_columns(),
                    self.wf(),
                    matrix_2.wf(),
                    a == self@,
                    b == matrix_2@,
                    lane@ == b[i as int],
                    N::obeys_mul_spec(),
                    N::obeys_add_spec(),
                    self.spec_columns() == matrix_2.spec_rows(),
                    forall|i: int, j: int|
                        0 <= i < matrix_2.spec_columns() && 0 <= j < self.spec_rows()
                            ==> inner_defined(#[trigger] b[i], #[trigger] row_of(a, j), self.spec_columns() as int),
                    out@.len() == j,
                    forall|l: int| 0 <= l < j
                        ==> #[trigger] out@[l] == inner(b[i as int], row_of(a, l), self.spec_columns() as int),
                decreases self.spec_rows() - j,
            {
                let row = self.row_copy(j);
                assert(self.spec_columns() > 0);
                assert(inner_defined(b[i as int], row_of(a, j as int), self.spec_columns() as int));
                let v = Self::inner_product(&lane, &row);
                out.push(v);
                j = j + 1;
            }
            mat.push(out);
            i = i + 1;
        }
        let rows: usize = self.rows;
        let m = Matrix { mat, rows, columns: matrix_2.columns };
        assert(m@.len() == m.spec_columns());
        Ok(m)
    }
}

/// Definedness of an inner product carries over to each of its prefixes.
proof fn lemma_inner_defined_prefix<N: Mul<Output = N> + Add<Output = N>>(a: Seq<N>, b: Seq<N>, n: int, m: int)
    requires
        1 <= m <= n,
        inner_defined(a, b, n),
    ensures
        inner_defined(a, b, m),
    decreases n - m,
{
    if m < n {
        lemma_inner_defined_prefix(a, b, n, m + 1);
    }
}

} // verus!
