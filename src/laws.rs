//! Properties that relate several operations of [`Matrix`].
use vstd::prelude::*;
use vstd::std_specs::cmp::PartialEqSpec;
use crate::matrix::{lanes_have_len, lanes_view, rectangular, Matrix, MatrixError};
use std::ops::{Add, Mul};

verus! {

/// Building a matrix from rectangular lanes succeeds, and taking its lanes
/// back out gives exactly the lanes that went in.
pub proof fn lemma_from_round_trip<T>(
    grid: Vec<Vec<T>>,
    built: Result<Matrix<T>, MatrixError>,
    back: Vec<Vec<T>>,
)
    requires
        rectangular(lanes_view(grid@)),
        call_ensures(Matrix::<T>::from, (grid,), built),
        built is Ok ==> call_ensures(Matrix::<T>::as_nested_vec, (built->Ok_0,), back),
    ensures
        built is Ok,
        lanes_view(back@) == lanes_view(grid@),
{
}

/// Lanes of differing lengths are refused with a shape error; no lanes at
/// all are refused with `NoLanes`.
pub proof fn lemma_from_rejects_ragged<T>(grid: Vec<Vec<T>>, built: Result<Matrix<T>, MatrixError>)
    requires
        !rectangular(lanes_view(grid@)),
        call_ensures(Matrix::<T>::from, (grid,), built),
    ensures
        built is Err,
        grid@.len() > 0 ==> built->Err_0 is Shape,
        grid@.len() == 0 ==> built->Err_0 == MatrixError::NoLanes,
{
}

/// The reported shape always agrees with the lanes: as many columns as
/// lanes, and, when there is a lane, as many rows as the first lane holds.
/// Every constructor ensures `wf`, and every mutator keeps it.
pub proof fn lemma_reported_shape<T>(m: Matrix<T>)
    requires
        m.wf(),
    ensures
        m.spec_columns() == m@.len(),
        m@.len() > 0 ==> m.spec_rows() == m@[0].len(),
        m@.len() > 0 ==> rectangular(m@),
{
}

/// Comparing a matrix with itself gives `true` whenever equality of its
/// element type is reflexive.
pub proof fn lemma_eq_reflexive<T: PartialEq>(m: Matrix<T>, r: bool)
    requires
        T::obeys_eq_spec(),
        forall|x: T| (#[trigger] x.eq_spec(&x)),
        call_ensures(<Matrix<T> as PartialEq>::eq, (&m, &m), r),
    ensures
        m.eq_spec(&m),
        r,
{
}

/// Comparing `a` with `b` gives what comparing `b` with `a` gives, whenever
/// equality of the element type is symmetric.
pub proof fn lemma_eq_symmetric<T: PartialEq>(a: Matrix<T>, b: Matrix<T>, ab: bool, ba: bool)
    requires
        T::obeys_eq_spec(),
        forall|x: T, y: T| #[trigger] x.eq_spec(&y) ==> y.eq_spec(&x),
        call_ensures(<Matrix<T> as PartialEq>::eq, (&a, &b), ab),
        call_ensures(<Matrix<T> as PartialEq>::eq, (&b, &a), ba),
    ensures
        a.eq_spec(&b) == b.eq_spec(&a),
        ab == ba,
{
    if a.eq_spec(&b) {
        assert forall|i: int, j: int| 0 <= i < b@.len() && 0 <= j < b@[i].len() implies
            (#[trigger] b@[i][j]).eq_spec(&a@[i][j]) by {
            assert(a@[i][j].eq_spec(&b@[i][j]));
        }
    }
    if b.eq_spec(&a) {
        assert forall|i: int, j: int| 0 <= i < a@.len() && 0 <= j < a@[i].len() implies
            (#[trigger] a@[i][j]).eq_spec(&b@[i][j]) by {
            assert(b@[i][j].eq_spec(&a@[i][j]));
        }
    }
}

/// Matrices of different shapes are never equal, in either order, whatever
/// their elements.
pub proof fn lemma_eq_needs_same_shape<T: PartialEq>(a: Matrix<T>, b: Matrix<T>, ab: bool, ba: bool)
    requires
        T::obeys_eq_spec(),
        a.spec_rows() != b.spec_rows() || a.spec_columns() != b.spec_columns(),
        call_ensures(<Matrix<T> as PartialEq>::eq, (&a, &b), ab),
        call_ensures(<Matrix<T> as PartialEq>::eq, (&b, &a), ba),
    ensures
        !a.eq_spec(&b),
        !ab,
        !ba,
{
}

/// Multiplying matrices whose shapes do not fit fails with a shape error
/// that reports `a`'s column count and `b`'s row count; otherwise the
/// product has `a`'s rows and `b`'s columns, with one lane per column of
/// `b`, each as long as `a` has rows.
pub proof fn lemma_dot_shape<N: Copy + Mul<Output = N> + Add<Output = N> + Default>(
    a: Matrix<N>,
    b: Matrix<N>,
    r: Result<Matrix<N>, MatrixError>,
)
    requires
        a.wf(),
        b.wf(),
        call_ensures(Matrix::<N>::dot, (&a, &b), r),
    ensures
        a.spec_columns() != b.spec_rows() ==> r == Err::<Matrix<N>, MatrixError>(
            MatrixError::Shape { expected: a.spec_columns() as usize, given: b.spec_rows() as usize },
        ),
        a.spec_columns() == b.spec_rows() ==> {
            &&& r is Ok
            &&& r->Ok_0.wf()
            &&& r->Ok_0.spec_rows() == a.spec_rows()
            &&& r->Ok_0.spec_columns() == b.spec_columns()
            &&& r->Ok_0@.len() == b.spec_columns()
            &&& lanes_have_len(r->Ok_0@, a.spec_rows() as int)
        },
{
}

/// A randomly filled matrix with at least one lane has the requested shape,
/// and its lanes pass the rectangularity check with the requested row count.
pub proof fn lemma_random_fill_shape<T: Default + Copy, S, F: Fn(S) -> T, G: Fn() -> S>(
    rows: usize,
    columns: usize,
    rand_fn: &F,
    seed_fn: &G,
    m: Matrix<T>,
    lanes: &Vec<Vec<T>>,
    checked: Result<usize, MatrixError>,
)
    requires
        columns > 0,
        call_ensures(Matrix::<T>::legacy_random::<S, F, G>, (rows, columns, rand_fn, seed_fn), m),
        call_ensures(Matrix::<T>::as_nested_vec_ref, (&m,), lanes),
        call_ensures(Matrix::<T>::valid_from_vector, (lanes,), checked),
    ensures
        m.spec_rows() == rows,
        m.spec_columns() == columns,
        lanes@.len() == columns,
        rectangular(m@),
        checked == Ok::<usize, MatrixError>(rows),
{
    assert(lanes_view(lanes@)[0] == lanes@[0]@);
}

} // verus!
