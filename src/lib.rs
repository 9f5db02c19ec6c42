//! A dense two-dimensional grid stored as a sequence of columns ("lanes").

mod laws;
mod matrix;

pub use laws::{
    lemma_dot_shape, lemma_eq_needs_same_shape, lemma_eq_reflexive, lemma_eq_symmetric, lemma_from_rejects_ragged,
    lemma_from_round_trip, lemma_random_fill_shape, lemma_reported_shape,
};
pub use matrix::{
    drawn, inner, inner_defined, is_mismatch_error, lanes_have_len, lanes_view,
    rectangular, row_of, same_entries,
    Matrix, MatrixError,
};
