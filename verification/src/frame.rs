//! The table: columns of one height under distinct names.

use vstd::prelude::*;
use crate::datatypes::{first_named, lemma_first_named, lemma_none_named};
use crate::error::EvaluationError;
use crate::series::{Series, SeriesView};

verus! {

/// Whether column `k` is as high as the first column.
pub open spec fn fits_height(columns: Seq<SeriesView>, k: int) -> bool {
    columns[k].len() == columns[0].len()
}

/// Whether no column before column `k` has its name.
pub open spec fn fits_name(columns: Seq<SeriesView>, k: int) -> bool {
    forall|j: int| 0 <= j < k ==> columns[j].name() != columns[k].name()
}

/// Whether the columns can stand in one table: all of one height, no two
/// under one name.
pub open spec fn consistent(columns: Seq<SeriesView>) -> bool {
    forall|k: int|
        #![trigger fits_height(columns, k)]
        #![trigger fits_name(columns, k)]
        0 <= k < columns.len() ==> fits_height(columns, k) && fits_name(columns, k)
}

/// Whether column `k` is the first that does not fit those before it.
pub open spec fn is_first_misfit(columns: Seq<SeriesView>, k: int) -> bool {
    &&& 0 <= k < columns.len()
    &&& forall|j: int| 0 <= j < k ==> fits_height(columns, j) && fits_name(columns, j)
    &&& !(fits_height(columns, k) && fits_name(columns, k))
}

/// The number of rows of a table of those columns.
pub open spec fn height_of(columns: Seq<SeriesView>) -> nat {
    if columns.len() == 0 {
        0
    } else {
        columns[0].len()
    }
}

/// The names of the columns, in order.
pub open spec fn names_of(columns: Seq<SeriesView>) -> Seq<Seq<char>> {
    Seq::new(columns.len(), |i: int| columns[i].name())
}

/// The column called `name`, or `SchemaError` where there is none.
pub open spec fn column_of(columns: Seq<SeriesView>, name: Seq<char>) -> Result<
    SeriesView,
    EvaluationError,
> {
    match first_named(names_of(columns), name) {
        Some(i) => Ok(columns[i]),
        None => Err(EvaluationError::SchemaError),
    }
}

/// The columns as plain values.
pub open spec fn columns_view(columns: Seq<Series>) -> Seq<SeriesView> {
    Seq::new(columns.len(), |i: int| columns[i]@)
}

/// A table: named columns of one height.
#[derive(Debug, PartialEq, Eq)]
pub struct DataFrame {
    columns: Vec<Series>,
}

impl View for DataFrame {
    type V = Seq<SeriesView>;

    closed spec fn view(&self) -> Seq<SeriesView> {
        columns_view(self.columns@)
    }
}

impl DataFrame {
    #[verifier::type_invariant]
    spec fn well_formed(self) -> bool {
        consistent(columns_view(self.columns@))
    }

    /// A table of the given columns. It is refused at the first column that
    /// does not fit those before it: with `EvaluationFailed` where its height
    /// differs, else with `SchemaError` where its name is taken.
    pub fn new(columns: Vec<Series>) -> (r: Result<DataFrame, EvaluationError>)
        ensures
            r is Ok <==> consistent(columns_view(columns@)),
            match r {
                Ok(df) => df@ == columns_view(columns@) && consistent(df@),
                Err(e) => exists|k: int|
                    #![trigger is_first_misfit(columns_view(columns@), k)]
                    is_first_misfit(columns_view(columns@), k) && e == if !fits_height(
                        columns_view(columns@),
                        k,
                    ) {
                        EvaluationError::EvaluationFailed
                    } else {
                        EvaluationError::SchemaError
                    },
            },
    {
        let ghost given = columns_view(columns@);
        let mut k: usize = 0;
        while k < columns.len()
            invariant
                0 <= k <= columns@.len(),
                given == columns_view(columns@),
                forall|j: int| 0 <= j < k ==> fits_height(given, j) && fits_name(given, j),
            decreases columns@.len() - k,
        {
            if columns[k].len() != columns[0].len() {
                assert(is_first_misfit(given, k as int));
                return Err(EvaluationError::EvaluationFailed);
            }
            let name: String = columns[k].name().to_owned();
            let mut j: usize = 0;
            while j < k
                invariant
                    0 <= j <= k < columns@.len(),
                    given == columns_view(columns@),
                    name@ == given[k as int].name(),
                    fits_height(given, k as int),
                    forall|i: int| 0 <= i < k ==> fits_height(given, i) && fits_name(given, i),
                    forall|i: int| 0 <= i < j ==> given[i].name() != given[k as int].name(),
                decreases k - j,
            {
                if columns[j].name().to_owned() == name {
                    assert(given[j as int].name() == given[k as int].name());
                    assert(is_first_misfit(given, k as int));
                    return Err(EvaluationError::SchemaError);
                }
                j = j + 1;
            }
            k = k + 1;
        }
        Ok(DataFrame { columns })
    }

    /// The number of rows, which every column has.
    pub fn height(&self) -> (r: usize)
        ensures
            r == height_of(self@),
            forall|i: int| 0 <= i < self@.len() ==> r == (#[trigger] self@[i]).len(),
    {
        if self.columns.len() == 0 {
            0
        } else {
            let r: usize = self.columns[0].len();
            proof {
                use_type_invariant(self);
                assert forall|i: int| 0 <= i < self@.len() implies r == (#[trigger] self@[i]).len() by {
                    assert(fits_height(self@, i));
                }
            }
            r
        }
    }

    /// The columns in their order.
    pub fn get_columns(&self) -> (r: &Vec<Series>)
        ensures
            columns_view(r@) == self@,
    {
        &self.columns
    }

    /// The column called `name`, which has the table's height; `SchemaError`
    /// where the table has none.
    pub fn column(&self, name: &str) -> (r: Result<&Series, EvaluationError>)
        ensures
            match column_of(self@, name@) {
                Ok(series) => r is Ok && r->Ok_0@ == series,
                Err(e) => r == Err::<&Series, EvaluationError>(e),
            },
            r matches Ok(series) ==> series@.len() == height_of(self@),
    {
        let wanted: String = name.to_owned();
        let mut k: usize = 0;
        while k < self.columns.len()
            invariant
                0 <= k <= self.columns@.len(),
                wanted@ == name@,
                forall|i: int| 0 <= i < k ==> names_of(self@)[i] != name@,
            decreases self.columns@.len() - k,
        {
            if self.columns[k].name().to_owned() == wanted {
                proof {
                    lemma_first_named(names_of(self@), name@, k as int);
                    use_type_invariant(self);
                    assert(fits_height(self@, k as int));
                }
                return Ok(&self.columns[k]);
            }
            k = k + 1;
        }
        proof {
            lemma_none_named(names_of(self@), name@);
        }
        Err(EvaluationError::SchemaError)
    }
}

} // verus!
