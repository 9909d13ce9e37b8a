//! A table of rows with one label per row, and the query on it.

use vstd::prelude::*;
use crate::error::KnnError;
use crate::nearest::{first_min, is_first_min, lemma_first_min_unique, nearest};
use crate::shape::{is_uniform, uniform};

verus! {

/// Rows of cells and their labels, kept in step: row `i` carries label `i`.
///
/// A dataset is made once and never changed. All its rows have one length,
/// and it has as many labels as rows. Labels may repeat.
pub struct Dataset<T> {
    matrix: Vec<Vec<T>>,
    labels: Vec<String>,
}

/// What the call of `predict` on a dataset of the given rows and labels owes
/// for a query of `input_len` cells whose measurements against the rows are
/// `distances`: the label of the first nearest row, or the reason why there
/// is none.
pub open spec fn predicted<T>(
    rows: Seq<Vec<T>>,
    labels: Seq<String>,
    input_len: nat,
    distances: Seq<u64>,
) -> Result<String, KnnError> {
    if rows.len() == 0 {
        Err(KnnError::EmptyDataset)
    } else if input_len != rows[0].len() || distances.len() != rows.len() {
        Err(KnnError::DimensionMismatch)
    } else {
        Ok(labels[first_min(distances)])
    }
}

/// Where the shapes agree, the answer is the label of a row whose
/// measurement no other row's is below, and that no earlier row's equals.
pub proof fn lemma_predicted_is_first_nearest<T>(
    rows: Seq<Vec<T>>,
    labels: Seq<String>,
    input_len: nat,
    distances: Seq<u64>,
)
    requires
        rows.len() > 0,
        input_len == rows[0].len(),
        distances.len() == rows.len(),
    ensures
        is_first_min(distances, first_min(distances)),
        predicted(rows, labels, input_len, distances) == Ok::<String, KnnError>(
            labels[first_min(distances)],
        ),
        forall|i: int|
            is_first_min(distances, i) ==> predicted(rows, labels, input_len, distances) == Ok::<
                String,
                KnnError,
            >(labels[i]),
{
    lemma_first_min_unique(distances, 0);
    assert forall|i: int| is_first_min(distances, i) implies i == first_min(distances) by {
        lemma_first_min_unique(distances, i);
    }
}

impl<T> Dataset<T> {
    #[verifier::type_invariant]
    spec fn well_formed(self) -> bool {
        &&& self.labels.len() == self.matrix.len()
        &&& uniform(self.matrix@)
    }

    /// The rows, in order.
    pub closed spec fn rows(self) -> Seq<Vec<T>> {
        self.matrix@
    }

    /// The labels, in the order of the rows.
    pub closed spec fn row_labels(self) -> Seq<String> {
        self.labels@
    }

    /// A dataset of the given rows and labels. It is refused where the rows
    /// differ in length or the labels are not as many as the rows. A dataset
    /// without rows can be made; it answers no query.
    pub fn new(matrix: Vec<Vec<T>>, labels: Vec<String>) -> (r: Result<Self, KnnError>)
        ensures
            labels.len() == matrix.len() && uniform(matrix@) ==> r is Ok,
            r matches Ok(d) ==> {
                &&& labels.len() == matrix.len()
                &&& uniform(matrix@)
                &&& d.rows() == matrix@
                &&& d.row_labels() == labels@
            },
            r matches Err(e) ==> e == KnnError::DimensionMismatch,
    {
        if labels.len() != matrix.len() || !is_uniform(&matrix) {
            Err(KnnError::DimensionMismatch)
        } else {
            Ok(Dataset { matrix, labels })
        }
    }

    /// The rows.
    pub fn matrix(&self) -> (m: &Vec<Vec<T>>)
        ensures
            m@ == self.rows(),
            uniform(m@),
    {
        proof {
            use_type_invariant(self);
        }
        &self.matrix
    }

    /// The labels: as many as there are rows.
    pub fn labels(&self) -> (l: &Vec<String>)
        ensures
            l@ == self.row_labels(),
            l@.len() == self.rows().len(),
    {
        proof {
            use_type_invariant(self);
        }
        &self.labels
    }

    /// The label of the row that is nearest to `input`, where `distances[i]`
    /// is the measurement of `input` against row `i`. Of several rows at the
    /// shortest distance the first wins.
    ///
    /// A dataset without rows gives `EmptyDataset`. A query that has not one
    /// cell per column, or measurements that are not one per row, give
    /// `DimensionMismatch`.
    pub fn predict(&self, input: &Vec<T>, distances: &Vec<u64>) -> (r: Result<String, KnnError>)
        ensures
            r == predicted(self.rows(), self.row_labels(), input@.len(), distances@),
            self.rows().len() == 0 ==> r == Err::<String, KnnError>(KnnError::EmptyDataset),
            r is Ok ==> is_first_min(distances@, first_min(distances@)),
            self.row_labels().len() == self.rows().len(),
    {
        proof {
            use_type_invariant(self);
        }
        if self.matrix.len() == 0 {
            return Err(KnnError::EmptyDataset);
        }
        if input.len() != self.matrix[0].len() || distances.len() != self.matrix.len() {
            return Err(KnnError::DimensionMismatch);
        }
        match nearest(distances) {
            Some(i) => Ok(self.labels[i].clone()),
            None => Err(KnnError::EmptyDataset),
        }
    }
}

} // verus!
