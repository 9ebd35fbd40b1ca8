//! The linear readout, fitted by regularized least squares.

use vstd::prelude::*;

use crate::linear_algebra::{
    is_column_of_product, is_lu_solution, is_matrix_product, is_matrix_sum, lu_solve,
    matrix_product, matrix_sum, may_multiply_to, solution_view,
};
use crate::matrix::{
    column_of, columns_of, mirrored, transposed, with_diagonal, Matrix, MatrixSlice,
};
use crate::output_projection::ReservoirStateProjection;
use crate::scalar::{is_same_value, is_zero, same_value, zero_value};

verus! {

/// `gram` is a product `X * Xt` that `nalgebra` gives for the matrix `X` of
/// the columns `measured`, of `rows` entries each.
pub open spec fn is_gram_matrix<T: nalgebra::RealField + Copy>(
    measured: Seq<Seq<T>>,
    rows: nat,
    gram: Seq<Seq<T>>,
) -> bool {
    exists|product: Seq<T>|
        {
            &&& #[trigger] is_matrix_product(
                measured,
                rows,
                transposed(measured, rows),
                measured.len(),
                product,
            )
            &&& gram == columns_of(product, rows, rows)
        }
}

/// `moment` is a product `X * Yt` that `nalgebra` gives for the matrix `X` of
/// the columns `measured`, of `rows` entries each, and the matrix `Y` of the
/// columns `targets`, of `target_rows` entries each.
pub open spec fn is_moment_matrix<T: nalgebra::RealField + Copy>(
    measured: Seq<Seq<T>>,
    rows: nat,
    targets: Seq<Seq<T>>,
    target_rows: nat,
    moment: Seq<Seq<T>>,
) -> bool {
    exists|product: Seq<T>|
        {
            &&& #[trigger] is_matrix_product(
                measured,
                rows,
                transposed(targets, target_rows),
                targets.len(),
                product,
            )
            &&& moment == columns_of(product, rows, target_rows)
        }
}

/// `square` is a product `Gt * G` that `nalgebra` gives for the matrix `G` of
/// the columns `tikhonov`, of `tikhonov_rows` entries each.
pub open spec fn is_square_of<T: nalgebra::RealField + Copy>(
    tikhonov: Seq<Seq<T>>,
    tikhonov_rows: nat,
    square: Seq<Seq<T>>,
) -> bool {
    exists|product: Seq<T>|
        {
            &&& #[trigger] is_matrix_product(
                transposed(tikhonov, tikhonov_rows),
                tikhonov.len(),
                tikhonov,
                tikhonov_rows,
                product,
            )
            &&& square == columns_of(product, tikhonov.len(), tikhonov.len())
        }
}

/// `regularized` is a sum `gram + regularizer` that `nalgebra` gives for two
/// square matrices of `rows` rows.
pub open spec fn is_regularized<T: nalgebra::RealField + Copy>(
    gram: Seq<Seq<T>>,
    regularizer: Seq<Seq<T>>,
    rows: nat,
    regularized: Seq<Seq<T>>,
) -> bool {
    exists|sum: Seq<T>|
        {
            &&& #[trigger] is_matrix_sum(gram, regularizer, rows, sum)
            &&& regularized == columns_of(sum, rows, rows)
        }
}

/// The square matrix of `rows` rows that holds `beta` on its diagonal and
/// `zero` elsewhere.
pub open spec fn ridge_regularizer<T>(rows: nat, zero: T, beta: T) -> Seq<Seq<T>> {
    with_diagonal(Seq::new(rows, |j: int| Seq::new(rows, |i: int| zero)), rows, beta)
}

/// `system` is the left-hand side of the normal equations of ridge
/// regression with parameter `beta`: `gram` itself where the scalar type
/// takes `beta` for equal to its zero, and else a sum of `gram` and `beta` times
/// the identity.
pub open spec fn is_ridge_system<T: nalgebra::RealField + Copy>(
    beta: T,
    gram: Seq<Seq<T>>,
    rows: nat,
    system: Seq<Seq<T>>,
) -> bool {
    exists|zero: T, same: bool|
        {
            &&& is_zero(zero)
            &&& #[trigger] is_same_value(beta, zero, same)
            &&& same ==> system == gram
            &&& !same ==> is_regularized(gram, ridge_regularizer(rows, zero, beta), rows, system)
        }
}

/// A readout that multiplies a measurement by a matrix of weights.
#[derive(Debug)]
pub struct LinearStateProjection<T> {
    w_out: Matrix<T>,
}

impl<T: Copy> Clone for LinearStateProjection<T> {
    fn clone(&self) -> (copy: Self)
        ensures
            copy.weights() == self.weights(),
            copy.weight_rows() == self.weight_rows(),
    {
        Self { w_out: self.w_out.clone() }
    }
}

impl<T> LinearStateProjection<T> {
    /// The columns of the matrix of weights.
    pub closed spec fn weights(&self) -> Seq<Seq<T>> {
        self.w_out@
    }

    /// The number of rows of the matrix of weights.
    pub closed spec fn weight_rows(&self) -> nat {
        self.w_out.rows()
    }

    /// The readout with the weights `matrix`.
    pub fn new_with_matrix(matrix: Matrix<T>) -> (projection: Self)
        ensures
            projection.weights() == matrix@,
            projection.weight_rows() == matrix.rows(),
    {
        Self { w_out: matrix }
    }
}

impl<T: Copy> LinearStateProjection<T> {
    /// The readout whose weights solve the normal equations: the transposed
    /// solution, or `None` where the solver found none.
    pub fn from_solution(solution: Option<Matrix<T>>) -> (fit: Option<Self>)
        ensures
            fit.is_some() == solution.is_some(),
            fit matches Some(projection) ==> {
                &&& projection.weights() == transposed(solution.unwrap()@, solution.unwrap().rows())
                &&& projection.weight_rows() == solution.unwrap()@.len()
            },
    {
        match solution {
            Some(solved) => Some(LinearStateProjection { w_out: solved.transpose() }),
            None => None,
        }
    }

}

impl<T: nalgebra::RealField + Copy> LinearStateProjection<T> {
    /// `fit` is what the solver makes of the normal equations with the
    /// left-hand side `system` and the right-hand side `moment`: the readout
    /// whose weights are the transposed solution where `nalgebra`'s LU
    /// decomposition gives one, and `None` where it gives none.
    pub open spec fn is_fit_of_system(
        system: Seq<Seq<T>>,
        moment: Seq<Seq<T>>,
        rows: nat,
        fit: Option<Self>,
    ) -> bool {
        exists|solution: Option<Seq<T>>|
            {
                &&& #[trigger] is_lu_solution(system, moment, rows, solution)
                &&& fit.is_some() == solution.is_some()
                &&& fit matches Some(projection) ==> {
                    &&& projection.weights() == transposed(
                        columns_of(solution.unwrap(), rows, moment.len()),
                        rows,
                    )
                    &&& projection.weight_rows() == moment.len()
                }
            }
    }

    /// `fit` is a ridge regression with parameter `beta` of the columns
    /// `targets` on the columns `measured`: what the solver makes of the
    /// normal equations `(X * Xt + beta * I) * Wt = X * Yt`, with every
    /// product and sum as `nalgebra` gives it.
    pub open spec fn is_ridge_fit(
        beta: T,
        measured: Seq<Seq<T>>,
        rows: nat,
        targets: Seq<Seq<T>>,
        target_rows: nat,
        fit: Option<Self>,
    ) -> bool {
        exists|gram: Seq<Seq<T>>, system: Seq<Seq<T>>, moment: Seq<Seq<T>>|
            {
                &&& is_gram_matrix(measured, rows, gram)
                &&& #[trigger] is_ridge_system(beta, gram, rows, system)
                &&& #[trigger] is_moment_matrix(measured, rows, targets, target_rows, moment)
                &&& Self::is_fit_of_system(system, moment, rows, fit)
            }
    }

    /// `fit` is a Tikhonov regularization with the matrix of the columns
    /// `tikhonov` of the columns `targets` on the columns `measured`: what the
    /// solver makes of the normal equations `(X * Xt + Gt * G) * Wt = X * Yt`,
    /// with every product and sum as `nalgebra` gives it.
    pub open spec fn is_tikhonov_fit(
        tikhonov: Seq<Seq<T>>,
        tikhonov_rows: nat,
        measured: Seq<Seq<T>>,
        rows: nat,
        targets: Seq<Seq<T>>,
        target_rows: nat,
        fit: Option<Self>,
    ) -> bool {
        exists|gram: Seq<Seq<T>>, square: Seq<Seq<T>>, system: Seq<Seq<T>>, moment: Seq<Seq<T>>|
            {
                &&& is_gram_matrix(measured, rows, gram)
                &&& is_square_of(tikhonov, tikhonov_rows, square)
                &&& #[trigger] is_regularized(gram, square, rows, system)
                &&& #[trigger] is_moment_matrix(measured, rows, targets, target_rows, moment)
                &&& Self::is_fit_of_system(system, moment, rows, fit)
            }
    }

    /// Solves `system * x = right` for the weights and gives the readout of
    /// the transposed solution, or `None` where the solver found `system`
    /// singular.
    fn solve_for_weights(system: &Matrix<T>, right: &Matrix<T>) -> (fit: Option<Self>)
        requires
            system.rows() == system@.len(),
            right.rows() == system.rows(),
            system.rows() > 0 || right@.len() == 0,
        ensures
            Self::is_fit_of_system(system@, right@, system.rows(), fit),
            fit matches Some(projection) ==> {
                &&& projection.weights().len() == system.rows()
                &&& projection.weight_rows() == right@.len()
            },
    {
        let found = lu_solve(system, right);
        proof {
            assert(is_lu_solution(system@, right@, system.rows(), solution_view(found)));
        }
        let solution = match found {
            Some(x) => Some(Matrix::from_vec(right.nrows(), right.ncols(), x)),
            None => None,
        };
        Self::from_solution(solution)
    }

    /// Fits the readout from normal equations whose left-hand side is given
    /// by its upper triangle: mirrors `upper` into the symmetric matrix that
    /// it stands for and solves for the weights with the right-hand side
    /// `moment`. Gives `None` where the solver finds the system singular.
    pub fn via_gram_upper_triangle(upper: Matrix<T>, moment: &Matrix<T>) -> (fit: Option<Self>)
        requires
            upper.rows() == upper@.len(),
            moment.rows() == upper.rows(),
            upper.rows() > 0 || moment@.len() == 0,
        ensures
            Self::is_fit_of_system(mirrored(upper@, upper.rows()), moment@, upper.rows(), fit),
            fit matches Some(projection) ==> {
                &&& projection.weights().len() == upper.rows()
                &&& projection.weight_rows() == moment@.len()
            },
    {
        let system = upper.mirror_upper();
        Self::solve_for_weights(&system, moment)
    }

    /// Fits the readout `W` that takes the columns of `measured_states` to
    /// the columns of `target_states` by ridge regression with parameter
    /// `beta`: `nalgebra` solves `(X * Xt + beta * I) * Wt = X * Yt` by an LU
    /// decomposition, where `X` is `measured_states` and `Y` is
    /// `target_states`. With a `beta` that equals zero no multiple of the
    /// identity is added. Gives `None` where the solver finds the system
    /// singular. Measurements of no entries go with targets of no entries
    /// only: the solver does not take an empty system with a right-hand side.
    pub fn via_ridge_regression_nalgebra(
        beta: T,
        measured_states: &Matrix<T>,
        target_states: MatrixSlice<'_, T>,
    ) -> (fit: Option<Self>)
        requires
            measured_states@.len() == target_states@.len(),
            measured_states.rows() > 0 || target_states.rows() == 0,
            measured_states.rows() * measured_states.rows() <= usize::MAX,
            measured_states.rows() * target_states.rows() <= usize::MAX,
        ensures
            Self::is_ridge_fit(
                beta,
                measured_states@,
                measured_states.rows(),
                target_states@,
                target_states.rows(),
                fit,
            ),
            fit matches Some(projection) ==> {
                &&& projection.weights().len() == measured_states.rows()
                &&& projection.weight_rows() == target_states.rows()
            },
    {
        let dimension_measured_state: usize = measured_states.nrows();

        let measured_states_transpose = measured_states.transpose();
        let target_state_transpose = target_states.to_matrix().transpose();

        let rhs = Matrix::from_vec(
            dimension_measured_state,
            target_states.nrows(),
            matrix_product(measured_states, &target_state_transpose),
        );
        let gram = Matrix::from_vec(
            dimension_measured_state,
            dimension_measured_state,
            matrix_product(measured_states, &measured_states_transpose),
        );
        proof {
            assert(is_moment_matrix(
                measured_states@,
                measured_states.rows(),
                target_states@,
                target_states.rows(),
                rhs@,
            ));
            assert(is_gram_matrix(measured_states@, measured_states.rows(), gram@));
        }
        let ghost gram_columns = gram@;
        let zero: T = zero_value();
        let same: bool = same_value(&beta, &zero);
        let lhs = if same {
            gram
        } else {
            let mut reg_matrix = Matrix::filled(
                dimension_measured_state,
                dimension_measured_state,
                zero,
            );
            proof {
                assert(reg_matrix@ =~= Seq::new(
                    measured_states.rows(),
                    |j: int| Seq::new(measured_states.rows(), |i: int| zero),
                ));
            }
            reg_matrix.fill_diagonal(beta);
            let sum = Matrix::from_vec(
                dimension_measured_state,
                dimension_measured_state,
                matrix_sum(&gram, &reg_matrix),
            );
            proof {
                assert(is_regularized(
                    gram_columns,
                    ridge_regularizer(measured_states.rows(), zero, beta),
                    measured_states.rows(),
                    sum@,
                ));
            }
            sum
        };
        proof {
            assert(is_ridge_system(beta, gram_columns, measured_states.rows(), lhs@));
        }
        let fit = Self::solve_for_weights(&lhs, &rhs);
        proof {
            assert(Self::is_fit_of_system(lhs@, rhs@, measured_states.rows(), fit));
        }
        fit
    }

    /// Fits the readout `W` that takes the columns of `measured_states` to
    /// the columns of `target_states` by Tikhonov regularization with the
    /// matrix `tikhonov`: `nalgebra` solves `(X * Xt + Gt * G) * Wt = X * Yt`
    /// by an LU decomposition, where `X` is `measured_states`, `Y` is
    /// `target_states` and `G` is `tikhonov`. Gives `None` where the solver
    /// finds the system singular. Measurements of no entries go with targets
    /// of no entries only.
    pub fn via_tikhonov_regularization_nalgebra(
        tikhonov: &Matrix<T>,
        measured_states: &Matrix<T>,
        target_states: MatrixSlice<'_, T>,
    ) -> (fit: Option<Self>)
        requires
            measured_states@.len() == target_states@.len(),
            tikhonov@.len() == measured_states.rows(),
            measured_states.rows() > 0 || target_states.rows() == 0,
            measured_states.rows() * measured_states.rows() <= usize::MAX,
            measured_states.rows() * target_states.rows() <= usize::MAX,
        ensures
            Self::is_tikhonov_fit(
                tikhonov@,
                tikhonov.rows(),
                measured_states@,
                measured_states.rows(),
                target_states@,
                target_states.rows(),
                fit,
            ),
            fit matches Some(projection) ==> {
                &&& projection.weights().len() == measured_states.rows()
                &&& projection.weight_rows() == target_states.rows()
            },
    {
        let dimension_measured_state: usize = measured_states.nrows();

        let measured_states_transpose = measured_states.transpose();
        let target_state_transpose = target_states.to_matrix().transpose();

        let rhs = Matrix::from_vec(
            dimension_measured_state,
            target_states.nrows(),
            matrix_product(measured_states, &target_state_transpose),
        );
        let reg_matrix = Matrix::from_vec(
            dimension_measured_state,
            dimension_measured_state,
            matrix_product(&tikhonov.transpose(), tikhonov),
        );
        let gram = Matrix::from_vec(
            dimension_measured_state,
            dimension_measured_state,
            matrix_product(measured_states, &measured_states_transpose),
        );
        let lhs = Matrix::from_vec(
            dimension_measured_state,
            dimension_measured_state,
            matrix_sum(&gram, &reg_matrix),
        );
        proof {
            assert(is_moment_matrix(
                measured_states@,
                measured_states.rows(),
                target_states@,
                target_states.rows(),
                rhs@,
            ));
            assert(is_square_of(tikhonov@, tikhonov.rows(), reg_matrix@));
            assert(is_gram_matrix(measured_states@, measured_states.rows(), gram@));
            assert(is_regularized(gram@, reg_matrix@, measured_states.rows(), lhs@));
        }
        let fit = Self::solve_for_weights(&lhs, &rhs);
        proof {
            assert(Self::is_fit_of_system(lhs@, rhs@, measured_states.rows(), fit));
        }
        fit
    }
}

impl<T> ReservoirStateProjection<T> for LinearStateProjection<T> {
    open spec fn output_len(&self) -> nat {
        self.weight_rows()
    }

    open spec fn input_len(&self) -> nat {
        self.weights().len()
    }

    /// The output is a column of a product that `nalgebra` gives for the
    /// weights and a matrix of measurements, in which the measurement stands
    /// in the same column.
    open spec fn reads_out(&self, measured: Seq<T>, output: Seq<T>) -> bool where
        T: nalgebra::RealField + Copy,
    {
        &&& may_multiply_to(self.weights(), self.weight_rows(), measured, output)
        &&& exists|batch: Seq<Seq<T>>, product: Seq<T>, k: int|
            {
                &&& #[trigger] is_column_of_product(
                    self.weights(),
                    self.weight_rows(),
                    batch,
                    product,
                    k,
                )
                &&& batch[k] == measured
                &&& column_of(product, self.weight_rows(), k) == output
            }
    }

    fn output_dimension(&self) -> (n: usize) {
        self.w_out.nrows()
    }

    fn input_dimension(&self) -> (n: usize) {
        self.w_out.ncols()
    }

    fn project(&self, state: &Vec<T>) -> (output: Vec<T>) where
        T: nalgebra::RealField + Copy,
    {
        proof {
            assert(state.len() * 1 == state.len()) by (nonlinear_arith);
            assert(self.w_out.rows() * 1 == self.w_out.rows()) by (nonlinear_arith);
        }
        let column = Matrix::repeated(state, 1);
        let output = matrix_product(&self.w_out, &column);
        proof {
            assert(column_of(output@, self.w_out.rows(), 0) =~= output@);
            assert(is_column_of_product(
                self.weights(),
                self.weight_rows(),
                column@,
                output@,
                0,
            ));
        }
        output
    }

    fn project_into(&self, state: &Vec<T>, target: &mut Vec<T>) where
        T: nalgebra::RealField + Copy,
    {
        *target = self.project(state);
    }

    fn project_many(&self, states: MatrixSlice<'_, T>) -> (outputs: Matrix<T>) where
        T: nalgebra::RealField + Copy,
    {
        let count: usize = states.ncols();
        let batch = states.to_matrix();
        let product = matrix_product(&self.w_out, &batch);
        let ghost entries = product@;
        let outputs = Matrix::from_vec(self.w_out.nrows(), count, product);
        proof {
            use_type_invariant(&outputs);
            use_type_invariant(&states);
            outputs.lemma_shape();
            states.lemma_shape();
            assert forall|k: int| 0 <= k < states@.len() implies self.reads_out(
                states@[k],
                #[trigger] outputs@[k],
            ) by {
                assert(is_column_of_product(
                    self.weights(),
                    self.weight_rows(),
                    batch@,
                    entries,
                    k,
                ));
            }
        }
        outputs
    }

    fn project_many_into(&self, states: MatrixSlice<'_, T>, targets: &mut Matrix<T>) where
        T: nalgebra::RealField + Copy,
    {
        *targets = self.project_many(states);
    }
}

} // verus!
