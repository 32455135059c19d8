use vstd::prelude::*;
use vstd::std_specs::cmp::PartialEqSpec;
use crate::datatypes::DataType;
use crate::error::EvaluationError;

verus! {

/// A named array of one element type in which any element may be missing.
#[derive(Debug, PartialEq, Eq)]
pub struct ChunkedArray<T> {
    pub name: String,
    pub values: Vec<Option<T>>,
}

pub type BooleanChunked = ChunkedArray<bool>;

pub type UInt32Chunked = ChunkedArray<u32>;

pub type Int32Chunked = ChunkedArray<i32>;

pub type Int64Chunked = ChunkedArray<i64>;

/// What a [`ChunkedArray`] holds: its name and its elements.
pub struct ArrayView<T> {
    pub name: Seq<char>,
    pub values: Seq<Option<T>>,
}

impl<T> View for ChunkedArray<T> {
    type V = ArrayView<T>;

    open spec fn view(&self) -> ArrayView<T> {
        ArrayView { name: self.name@, values: self.values@ }
    }
}

/// Whether row `i` of `mask` exists and holds `true`. A missing entry and a
/// row beyond the mask's end are not `true`.
pub open spec fn is_true_at(mask: Seq<Option<bool>>, i: int) -> bool {
    0 <= i < mask.len() && mask[i] == Some(true)
}

/// The rows of `mask` that hold `true`, in rising order.
pub open spec fn kept_rows(mask: Seq<Option<bool>>) -> Seq<int>
    decreases mask.len(),
{
    if mask.len() == 0 {
        Seq::empty()
    } else if mask.last() == Some(true) {
        kept_rows(mask.drop_last()).push(mask.len() - 1)
    } else {
        kept_rows(mask.drop_last())
    }
}

/// How many entries of `mask` hold `true`.
pub open spec fn count_true(mask: Seq<Option<bool>>) -> nat
    decreases mask.len(),
{
    if mask.len() == 0 {
        0
    } else if mask.last() == Some(true) {
        count_true(mask.drop_last()) + 1
    } else {
        count_true(mask.drop_last())
    }
}

/// The elements of `values` at the given rows, in the order of `rows`.
pub open spec fn take_rows<T>(values: Seq<T>, rows: Seq<int>) -> Seq<T> {
    Seq::new(rows.len(), |j: int| values[rows[j]])
}

/// The kept rows of a mask are valid rows of it, each holds `true`, they
/// rise strictly, and no row that holds `true` is left out.
pub proof fn lemma_kept_rows(mask: Seq<Option<bool>>)
    ensures
        kept_rows(mask).len() == count_true(mask),
        kept_rows(mask).len() <= mask.len(),
        forall|j: int| 0 <= j < kept_rows(mask).len() ==> is_true_at(mask, #[trigger] kept_rows(mask)[j]),
        forall|j: int, k: int| 0 <= j < k < kept_rows(mask).len() ==> kept_rows(mask)[j] < kept_rows(mask)[k],
        forall|i: int| is_true_at(mask, i) ==> kept_rows(mask).contains(i),
    decreases mask.len(),
{
    if mask.len() > 0 {
        let front = mask.drop_last();
        lemma_kept_rows(front);
        let rows = kept_rows(mask);
        let before = kept_rows(front);
        assert forall|i: int| is_true_at(mask, i) implies rows.contains(i) by {
            if i < mask.len() - 1 {
                assert(is_true_at(front, i));
                let j = choose|j: int| 0 <= j < before.len() && before[j] == i;
                assert(rows[j] == i);
            } else {
                assert(rows[rows.len() - 1] == i);
            }
        }
    }
}

/// Filtering a column by a mask of its length yields exactly the rows at
/// which the mask holds `true`: as many rows as the mask has `true` entries,
/// never more than the column has, each the element of a row that holds
/// `true`, in the column's order, and none of those rows left out. A row
/// whose mask entry is missing or `false` is never among them. Name and type
/// stay as they are.
pub proof fn lemma_filter_keeps_true_rows(series: SeriesView, mask: Seq<Option<bool>>)
    requires
        series.len() == mask.len(),
    ensures
        series.take_rows(kept_rows(mask)).name() == series.name(),
        series.take_rows(kept_rows(mask)).dtype() == series.dtype(),
        series.take_rows(kept_rows(mask)).len() == count_true(mask),
        series.take_rows(kept_rows(mask)).len() <= series.len(),
        forall|j: int|
            0 <= j < count_true(mask) ==> {
                &&& is_true_at(mask, #[trigger] kept_rows(mask)[j])
                &&& series.take_rows(kept_rows(mask)).get(j) == series.get(kept_rows(mask)[j])
            },
        forall|j: int, k: int|
            0 <= j < k < count_true(mask) ==> kept_rows(mask)[j] < kept_rows(mask)[k],
        forall|i: int| is_true_at(mask, i) ==> kept_rows(mask).contains(i),
{
    lemma_kept_rows(mask);
}

/// Taking one more row of a mask keeps that row exactly when it holds `true`.
proof fn lemma_kept_rows_step(mask: Seq<Option<bool>>, i: int)
    requires
        0 <= i < mask.len(),
    ensures
        kept_rows(mask.take(i + 1)) == if mask[i] == Some(true) {
            kept_rows(mask.take(i)).push(i)
        } else {
            kept_rows(mask.take(i))
        },
{
    assert(mask.take(i + 1).drop_last() == mask.take(i));
}

impl<T: Copy> ChunkedArray<T> {
    /// An array called `name` that holds a copy of `v`.
    pub fn new_from_opt_slice(name: &str, v: &[Option<T>]) -> (r: ChunkedArray<T>)
        ensures
            r@ == (ArrayView { name: name@, values: v@ }),
    {
        let mut values: Vec<Option<T>> = Vec::new();
        let mut k: usize = 0;
        while k < v.len()
            invariant
                0 <= k <= v@.len(),
                values@ == v@.take(k as int),
            decreases v@.len() - k,
        {
            values.push(v[k]);
            k = k + 1;
        }
        assert(v@.take(k as int) == v@);
        ChunkedArray { name: name.to_owned(), values }
    }

    /// The element at row `idx`: `None` where it is missing, and where the
    /// array has no such row.
    pub fn get(&self, idx: usize) -> (r: Option<T>)
        ensures
            r == if idx < self.values@.len() { self.values@[idx as int] } else { None },
    {
        if idx < self.values.len() {
            self.values[idx]
        } else {
            None
        }
    }

    /// The elements at the rows where `filter` holds `true`, in their order,
    /// under the same name. A filter of another length than the array is
    /// refused.
    pub fn filter(&self, filter: &BooleanChunked) -> (r: Result<ChunkedArray<T>, EvaluationError>)
        ensures
            self.values@.len() != filter.values@.len() ==> r == Err::<ChunkedArray<T>, EvaluationError>(
                EvaluationError::EvaluationFailed,
            ),
            self.values@.len() == filter.values@.len() ==> r is Ok && r->Ok_0@ == (ArrayView {
                name: self.name@,
                values: take_rows(self.values@, kept_rows(filter.values@)),
            }),
            r is Ok ==> r->Ok_0.values@.len() == count_true(filter.values@),
            r is Ok ==> r->Ok_0.values@.len() <= self.values@.len(),
    {
        let n: usize = self.values.len();
        if filter.values.len() != n {
            return Err(EvaluationError::EvaluationFailed);
        }
        let mut out: Vec<Option<T>> = Vec::new();
        let mut i: usize = 0;
        while i < n
            invariant
                0 <= i <= n,
                n == self.values@.len(),
                n == filter.values@.len(),
                out@ == take_rows(self.values@, kept_rows(filter.values@.take(i as int))),
            decreases n - i,
        {
            proof {
                lemma_kept_rows_step(filter.values@, i as int);
            }
            match filter.values[i] {
                Some(true) => {
                    out.push(self.values[i]);
                },
                _ => {},
            }
            i = i + 1;
        }
        proof {
            assert(filter.values@.take(n as int) == filter.values@);
            lemma_kept_rows(filter.values@);
        }
        Ok(ChunkedArray { name: self.name.clone(), values: out })
    }
}

impl<T> ChunkedArray<T> {
    pub fn name(&self) -> (r: &str)
        ensures
            r@ == self.name@,
    {
        self.name.as_str()
    }

    pub fn len(&self) -> (r: usize)
        ensures
            r == self.values@.len(),
    {
        self.values.len()
    }

    pub fn is_empty(&self) -> (r: bool)
        ensures
            r == (self.values@.len() == 0),
    {
        self.values.len() == 0
    }
}

impl<T: Clone> Clone for ChunkedArray<T> {
    /// Clones the name and each element.
    fn clone(&self) -> (r: Self)
        ensures
            r.name@ == self.name@,
            r.values@.len() == self.values@.len(),
            forall|i: int|
                0 <= i < self.values@.len() ==> cloned::<Option<T>>(
                    self.values@[i],
                    #[trigger] r.values@[i],
                ),
    {
        ChunkedArray { name: self.name.clone(), values: self.values.clone() }
    }
}

/// One element of a column.
#[derive(Clone, Copy, Debug, PartialEq, Eq, Structural)]
pub enum AnyValue {
    Null,
    Boolean(bool),
    UInt32(u32),
    Int32(i32),
    Int64(i64),
}

/// A column: a named array of a type known only at run time.
#[derive(Debug, PartialEq, Eq)]
pub enum Series {
    Boolean(BooleanChunked),
    UInt32(UInt32Chunked),
    Int32(Int32Chunked),
    Int64(Int64Chunked),
}

/// What a [`Series`] holds.
pub enum SeriesView {
    Boolean(ArrayView<bool>),
    UInt32(ArrayView<u32>),
    Int32(ArrayView<i32>),
    Int64(ArrayView<i64>),
}

impl View for Series {
    type V = SeriesView;

    open spec fn view(&self) -> SeriesView {
        match self {
            Series::Boolean(ca) => SeriesView::Boolean(ca@),
            Series::UInt32(ca) => SeriesView::UInt32(ca@),
            Series::Int32(ca) => SeriesView::Int32(ca@),
            Series::Int64(ca) => SeriesView::Int64(ca@),
        }
    }
}

impl SeriesView {
    pub open spec fn name(self) -> Seq<char> {
        match self {
            SeriesView::Boolean(a) => a.name,
            SeriesView::UInt32(a) => a.name,
            SeriesView::Int32(a) => a.name,
            SeriesView::Int64(a) => a.name,
        }
    }

    pub open spec fn len(self) -> nat {
        match self {
            SeriesView::Boolean(a) => a.values.len(),
            SeriesView::UInt32(a) => a.values.len(),
            SeriesView::Int32(a) => a.values.len(),
            SeriesView::Int64(a) => a.values.len(),
        }
    }

    pub open spec fn dtype(self) -> DataType {
        match self {
            SeriesView::Boolean(_) => DataType::Boolean,
            SeriesView::UInt32(_) => DataType::UInt32,
            SeriesView::Int32(_) => DataType::Int32,
            SeriesView::Int64(_) => DataType::Int64,
        }
    }

    /// The element at row `i`.
    pub open spec fn get(self, i: int) -> AnyValue
        recommends
            0 <= i < self.len(),
    {
        match self {
            SeriesView::Boolean(a) => match a.values[i] {
                Some(v) => AnyValue::Boolean(v),
                None => AnyValue::Null,
            },
            SeriesView::UInt32(a) => match a.values[i] {
                Some(v) => AnyValue::UInt32(v),
                None => AnyValue::Null,
            },
            SeriesView::Int32(a) => match a.values[i] {
                Some(v) => AnyValue::Int32(v),
                None => AnyValue::Null,
            },
            SeriesView::Int64(a) => match a.values[i] {
                Some(v) => AnyValue::Int64(v),
                None => AnyValue::Null,
            },
        }
    }

    /// The column narrowed to the given rows, under the same name and type.
    pub open spec fn take_rows(self, rows: Seq<int>) -> SeriesView {
        match self {
            SeriesView::Boolean(a) => SeriesView::Boolean(
                ArrayView { name: a.name, values: take_rows(a.values, rows) },
            ),
            SeriesView::UInt32(a) => SeriesView::UInt32(
                ArrayView { name: a.name, values: take_rows(a.values, rows) },
            ),
            SeriesView::Int32(a) => SeriesView::Int32(
                ArrayView { name: a.name, values: take_rows(a.values, rows) },
            ),
            SeriesView::Int64(a) => SeriesView::Int64(
                ArrayView { name: a.name, values: take_rows(a.values, rows) },
            ),
        }
    }
}

impl BooleanChunked {
    pub fn into_series(self) -> (r: Series)
        ensures
            r == Series::Boolean(self),
    {
        Series::Boolean(self)
    }
}

impl UInt32Chunked {
    pub fn into_series(self) -> (r: Series)
        ensures
            r == Series::UInt32(self),
    {
        Series::UInt32(self)
    }
}

impl Int32Chunked {
    pub fn into_series(self) -> (r: Series)
        ensures
            r == Series::Int32(self),
    {
        Series::Int32(self)
    }
}

impl Int64Chunked {
    pub fn into_series(self) -> (r: Series)
        ensures
            r == Series::Int64(self),
    {
        Series::Int64(self)
    }
}

/// A copy of an array of plain values.
fn copy_array<T: Copy>(ca: &ChunkedArray<T>) -> (r: ChunkedArray<T>)
    ensures
        r@ == ca@,
{
    let mut values: Vec<Option<T>> = Vec::new();
    let mut k: usize = 0;
    while k < ca.values.len()
        invariant
            0 <= k <= ca.values@.len(),
            values@ == ca.values@.take(k as int),
        decreases ca.values@.len() - k,
    {
        values.push(ca.values[k]);
        k = k + 1;
    }
    assert(ca.values@.take(k as int) == ca.values@);
    ChunkedArray { name: ca.name.clone(), values }
}

impl Clone for Series {
    fn clone(&self) -> (r: Self)
        ensures
            r@ == self@,
    {
        match self {
            Series::Boolean(ca) => Series::Boolean(copy_array(ca)),
            Series::UInt32(ca) => Series::UInt32(copy_array(ca)),
            Series::Int32(ca) => Series::Int32(copy_array(ca)),
            Series::Int64(ca) => Series::Int64(copy_array(ca)),
        }
    }
}

impl Series {
    pub fn name(&self) -> (r: &str)
        ensures
            r@ == self@.name(),
    {
        match self {
            Series::Boolean(ca) => ca.name(),
            Series::UInt32(ca) => ca.name(),
            Series::Int32(ca) => ca.name(),
            Series::Int64(ca) => ca.name(),
        }
    }

    pub fn len(&self) -> (r: usize)
        ensures
            r == self@.len(),
    {
        match self {
            Series::Boolean(ca) => ca.len(),
            Series::UInt32(ca) => ca.len(),
            Series::Int32(ca) => ca.len(),
            Series::Int64(ca) => ca.len(),
        }
    }

    pub fn dtype(&self) -> (r: DataType)
        ensures
            r == self@.dtype(),
    {
        match self {
            Series::Boolean(_) => DataType::Boolean,
            Series::UInt32(_) => DataType::UInt32,
            Series::Int32(_) => DataType::Int32,
            Series::Int64(_) => DataType::Int64,
        }
    }

    /// The element at row `idx`; `Null` where the column has no such row.
    pub fn get(&self, idx: usize) -> (r: AnyValue)
        ensures
            r == if idx < self@.len() { self@.get(idx as int) } else { AnyValue::Null },
    {
        match self {
            Series::Boolean(ca) => match ca.get(idx) {
                Some(v) => AnyValue::Boolean(v),
                None => AnyValue::Null,
            },
            Series::UInt32(ca) => match ca.get(idx) {
                Some(v) => AnyValue::UInt32(v),
                None => AnyValue::Null,
            },
            Series::Int32(ca) => match ca.get(idx) {
                Some(v) => AnyValue::Int32(v),
                None => AnyValue::Null,
            },
            Series::Int64(ca) => match ca.get(idx) {
                Some(v) => AnyValue::Int64(v),
                None => AnyValue::Null,
            },
        }
    }

    /// The column as a boolean array; `TypeError` where it is of another type.
    pub fn bool(&self) -> (r: Result<&BooleanChunked, EvaluationError>)
        ensures
            match *self {
                Series::Boolean(ca) => r == Ok::<&BooleanChunked, EvaluationError>(&ca),
                _ => r == Err::<&BooleanChunked, EvaluationError>(EvaluationError::TypeError),
            },
    {
        match self {
            Series::Boolean(ca) => Ok(ca),
            _ => Err(EvaluationError::TypeError),
        }
    }

    /// The rows at which `filter` holds `true`, in their order, as a column of
    /// the same name and type. A filter of another length than the column is
    /// refused.
    pub fn filter(&self, filter: &BooleanChunked) -> (r: Result<Series, EvaluationError>)
        ensures
            self@.len() != filter.values@.len() ==> r == Err::<Series, EvaluationError>(
                EvaluationError::EvaluationFailed,
            ),
            self@.len() == filter.values@.len() ==> r is Ok && r->Ok_0@ == self@.take_rows(
                kept_rows(filter.values@),
            ),
            r is Ok ==> r->Ok_0@.len() == count_true(filter.values@),
            r is Ok ==> r->Ok_0@.len() <= self@.len(),
    {
        match self {
            Series::Boolean(ca) => match ca.filter(filter) {
                Ok(out) => Ok(Series::Boolean(out)),
                Err(e) => Err(e),
            },
            Series::UInt32(ca) => match ca.filter(filter) {
                Ok(out) => Ok(Series::UInt32(out)),
                Err(e) => Err(e),
            },
            Series::Int32(ca) => match ca.filter(filter) {
                Ok(out) => Ok(Series::Int32(out)),
                Err(e) => Err(e),
            },
            Series::Int64(ca) => match ca.filter(filter) {
                Ok(out) => Ok(Series::Int64(out)),
                Err(e) => Err(e),
            },
        }
    }

    /// Whether the two columns have the same name, type and elements, a
    /// missing element being equal to a missing one.
    pub fn series_equal_missing(&self, other: &Series) -> (r: bool)
        ensures
            r == (self@ == other@),
    {
        match (self, other) {
            (Series::Boolean(a), Series::Boolean(b)) => same_array(a, b),
            (Series::UInt32(a), Series::UInt32(b)) => same_array(a, b),
            (Series::Int32(a), Series::Int32(b)) => same_array(a, b),
            (Series::Int64(a), Series::Int64(b)) => same_array(a, b),
            _ => false,
        }
    }
}

/// Whether two arrays of plain values have the same name and elements.
fn same_array<T: Copy + PartialEq>(a: &ChunkedArray<T>, b: &ChunkedArray<T>) -> (r: bool)
    requires
        T::obeys_eq_spec(),
        forall|x: T, y: T| #[trigger] x.eq_spec(&y) <==> (x == y),
    ensures
        r == (a@ == b@),
{
    let r = a.name == b.name && a.values == b.values;
    proof {
        if a.values.eq_spec(&b.values) {
            assert(a.values@ =~= b.values@);
        }
        if a.values@ == b.values@ {
            assert forall|i: int| 0 <= i < a.values@.len() implies #[trigger] a.values[i].eq_spec(
                &b.values[i],
            ) by {}
        }
    }
    r
}

} // verus!
