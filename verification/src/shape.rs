//! The dimension checks of the linear-algebra routines.
use vstd::prelude::*;

verus! {

/// Why the dimensions of a linear-algebra input are refused.
#[derive(Debug, PartialEq, Eq, Structural)]
pub enum ShapeError {
    /// The matrix is not square.
    NotSquare { rows: usize, cols: usize },
    /// The right-hand side does not have one entry per row.
    RhsLength { rows: usize, rhs: usize },
    /// The matrix has fewer rows than columns.
    Wide { rows: usize, cols: usize },
    /// The inner dimensions of a product differ.
    Inner { left_cols: usize, right_rows: usize },
}

/// Dimensions of a square system `A x = b` (Gaussian elimination, back
/// substitution): `A` square, then `b` of length `rows`.
pub fn check_square_system(rows: usize, cols: usize, rhs: usize) -> (r: Result<(), ShapeError>)
    ensures
        rows != cols ==> r == Err::<(), ShapeError>(ShapeError::NotSquare { rows, cols }),
        rows == cols && rows != rhs ==> r == Err::<(), ShapeError>(
            ShapeError::RhsLength { rows, rhs },
        ),
        rows == cols && rows == rhs ==> r == Ok::<(), ShapeError>(()),
{
    if rows != cols {
        Err(ShapeError::NotSquare { rows, cols })
    } else if rows != rhs {
        Err(ShapeError::RhsLength { rows, rhs })
    } else {
        Ok(())
    }
}

/// Dimensions a QR decomposition or a thin SVD accepts: at least as many
/// rows as columns.
pub fn check_tall(rows: usize, cols: usize) -> (r: Result<(), ShapeError>)
    ensures
        rows < cols ==> r == Err::<(), ShapeError>(ShapeError::Wide { rows, cols }),
        rows >= cols ==> r == Ok::<(), ShapeError>(()),
{
    if rows < cols {
        Err(ShapeError::Wide { rows, cols })
    } else {
        Ok(())
    }
}

/// Dimensions of a least-squares problem `min ||A x - b||` solved by QR:
/// `b` of length `rows`, then at least as many rows as columns.
pub fn check_least_squares(rows: usize, cols: usize, rhs: usize) -> (r: Result<(), ShapeError>)
    ensures
        rows != rhs ==> r == Err::<(), ShapeError>(ShapeError::RhsLength { rows, rhs }),
        rows == rhs && rows < cols ==> r == Err::<(), ShapeError>(
            ShapeError::Wide { rows, cols },
        ),
        rows == rhs && rows >= cols ==> r == Ok::<(), ShapeError>(()),
{
    if rows != rhs {
        Err(ShapeError::RhsLength { rows, rhs })
    } else {
        check_tall(rows, cols)
    }
}

/// Shape of the product of a `left_rows x left_cols` and a
/// `right_rows x right_cols` matrix, or why it does not exist.
pub fn product_shape(left_rows: usize, left_cols: usize, right_rows: usize, right_cols: usize) -> (r:
    Result<(usize, usize), ShapeError>)
    ensures
        left_cols != right_rows ==> r == Err::<(usize, usize), ShapeError>(
            ShapeError::Inner { left_cols, right_rows },
        ),
        left_cols == right_rows ==> r == Ok::<(usize, usize), ShapeError>((left_rows, right_cols)),
{
    if left_cols != right_rows {
        Err(ShapeError::Inner { left_cols, right_rows })
    } else {
        Ok((left_rows, right_cols))
    }
}

} // verus!
