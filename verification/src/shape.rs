//! Shapes of vectors and tables: the lengths that must agree before any
//! arithmetic is done on the cells.

use vstd::prelude::*;
use crate::error::KnnError;

verus! {

/// Every row of `m` is as long as its first row.
pub open spec fn uniform<T>(m: Seq<Vec<T>>) -> bool {
    forall|i: int| 0 <= i < m.len() ==> (#[trigger] m[i]).len() == m[0].len()
}

/// The column count of a table, or the reason why it has none: a table
/// without rows is empty, and one with rows of different lengths is ragged.
pub open spec fn shape_of<T>(m: Seq<Vec<T>>) -> Result<usize, KnnError> {
    if m.len() == 0 {
        Err(KnnError::EmptyDataset)
    } else if uniform(m) {
        Ok(m[0].len())
    } else {
        Err(KnnError::DimensionMismatch)
    }
}

/// The column count of a table together with a vector that holds one entry
/// per column: that of the table alone, unless the vector's length differs
/// from it.
pub open spec fn shape_with<T>(m: Seq<Vec<T>>, per_column: Seq<T>) -> Result<usize, KnnError> {
    match shape_of(m) {
        Ok(cols) => if per_column.len() == cols {
            Ok(cols)
        } else {
            Err(KnnError::DimensionMismatch)
        },
        Err(e) => Err(e),
    }
}

/// What a rescaling of the columns of a table needs: the table's column
/// count, one centre and one spread per column, and no column whose spread is
/// zero. `flat[j]` says that the spread of column `j` is zero.
pub open spec fn scale_shape<T>(
    m: Seq<Vec<T>>,
    centres: Seq<T>,
    spreads: Seq<T>,
    flat: Seq<bool>,
) -> Result<usize, KnnError> {
    match shape_with(m, centres) {
        Ok(cols) => if spreads.len() != cols || flat.len() != cols {
            Err(KnnError::DimensionMismatch)
        } else if exists|j: int| 0 <= j < flat.len() && flat[j] {
            Err(KnnError::ZeroVariance)
        } else {
            Ok(cols)
        },
        Err(e) => Err(e),
    }
}

/// The common length of two vectors that are to be measured against each
/// other, entry by entry.
pub fn paired_len<T>(a: &Vec<T>, b: &Vec<T>) -> (r: Result<usize, KnnError>)
    ensures
        a.len() == b.len() ==> r == Ok::<usize, KnnError>(a.len()),
        a.len() != b.len() ==> r == Err::<usize, KnnError>(KnnError::DimensionMismatch),
{
    if a.len() == b.len() {
        Ok(a.len())
    } else {
        Err(KnnError::DimensionMismatch)
    }
}

/// Whether all rows of `matrix` have one length. A table without rows has.
pub fn is_uniform<T>(matrix: &Vec<Vec<T>>) -> (r: bool)
    ensures
        r == uniform(matrix@),
{
    let mut i: usize = 1;
    while i < matrix.len()
        invariant
            1 <= i,
            forall|k: int| 0 <= k < i && k < matrix.len() ==> (#[trigger] matrix@[k]).len() == matrix@[0].len(),
        decreases matrix.len() - i,
    {
        if matrix[i].len() != matrix[0].len() {
            return false;
        }
        i += 1;
    }
    true
}

/// The number of columns of a table that has at least one row and whose rows
/// all have the same length.
pub fn column_count<T>(matrix: &Vec<Vec<T>>) -> (r: Result<usize, KnnError>)
    ensures
        r == shape_of(matrix@),
        matrix.len() == 0 ==> r == Err::<usize, KnnError>(KnnError::EmptyDataset),
{
    if matrix.len() == 0 {
        Err(KnnError::EmptyDataset)
    } else if is_uniform(matrix) {
        Ok(matrix[0].len())
    } else {
        Err(KnnError::DimensionMismatch)
    }
}

/// The number of columns of a table, checked against a vector that holds one
/// entry per column (column means, column deviations).
pub fn column_count_with<T>(matrix: &Vec<Vec<T>>, per_column: &Vec<T>) -> (r: Result<usize, KnnError>)
    ensures
        r == shape_with(matrix@, per_column@),
        matrix.len() == 0 ==> r == Err::<usize, KnnError>(KnnError::EmptyDataset),
{
    match column_count(matrix) {
        Ok(cols) => if per_column.len() == cols {
            Ok(cols)
        } else {
            Err(KnnError::DimensionMismatch)
        },
        Err(e) => Err(e),
    }
}

/// The number of columns of a table that is to be rescaled column by column,
/// each cell to its offset from the column's centre divided by the column's
/// spread. The caller says in `flat` which spreads are zero; such a column is
/// refused with `ZeroVariance`, after the shapes have been found to agree.
pub fn scalable_columns<T>(
    matrix: &Vec<Vec<T>>,
    centres: &Vec<T>,
    spreads: &Vec<T>,
    flat: &Vec<bool>,
) -> (r: Result<usize, KnnError>)
    ensures
        r == scale_shape(matrix@, centres@, spreads@, flat@),
{
    match column_count_with(matrix, centres) {
        Ok(cols) => {
            if spreads.len() != cols || flat.len() != cols {
                return Err(KnnError::DimensionMismatch);
            }
            let mut j: usize = 0;
            while j < flat.len()
                invariant
                    j <= flat.len(),
                    shape_with(matrix@, centres@) == Ok::<usize, KnnError>(cols),
                    spreads.len() == cols,
                    flat.len() == cols,
                    forall|k: int| 0 <= k < j ==> !flat@[k],
                decreases flat.len() - j,
            {
                if flat[j] {
                    assert(0 <= j < flat@.len() && flat@[j as int]);
                    return Err(KnnError::ZeroVariance);
                }
                j += 1;
            }
            Ok(cols)
        },
        Err(e) => Err(e),
    }
}

} // verus!
