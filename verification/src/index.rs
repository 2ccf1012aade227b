use vstd::prelude::*;
use ark_relations::utils::matrix::Matrix;

verus! {

/// The A, B and C matrices of a rank-one constraint system, with the counts
/// that describe their shape.
#[derive(Debug, Clone, PartialEq, Eq)]
pub struct NPIndex<F> {
    /// The number of variables that are public instances of the system.
    pub num_instance_variables: usize,
    /// The number of variables that are private witnesses of the system.
    pub num_witness_variables: usize,
    /// The number of constraints of the system.
    pub num_constraints: usize,
    /// The number of non-zero entries of the A matrix.
    pub a_num_non_zero: usize,
    /// The number of non-zero entries of the B matrix.
    pub b_num_non_zero: usize,
    /// The number of non-zero entries of the C matrix.
    pub c_num_non_zero: usize,
    /// The A matrix, one sparse row per constraint.
    pub a: Matrix<F>,
    /// The B matrix, one sparse row per constraint.
    pub b: Matrix<F>,
    /// The C matrix, one sparse row per constraint.
    pub c: Matrix<F>,
}

} // verus!
