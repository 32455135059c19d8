//! The filter node: the rows of its input at which its predicate holds
//! `true`.

use vstd::prelude::*;
use std::sync::Arc;
use crate::aggregation::{AggStateView, AggregationContext, AggregationContextView};
use crate::datatypes::{first_named, is_first_named, Field, Schema};
use crate::error::EvaluationError;
use crate::expr::{
    context_result_view, series_result_view, ColumnExpr, ExecutionState, Expr, PhysicalExpr,
};
use crate::frame::{column_of, consistent, fits_height, names_of, DataFrame};
use crate::groups::{
    filter_groups, groups_view, lemma_narrowed_groups, narrowed_groups, retained, GroupTuples,
};
use crate::series::{
    count_true, is_true_at, kept_rows, lemma_filter_keeps_true_rows, ArrayView, BooleanChunked, Series,
    SeriesView,
};

verus! {

/// What a flat filter makes of the results of its two children. An error of
/// the input comes first, then one of the predicate. A predicate that is not
/// boolean is a `TypeError`, and one of another length than the input an
/// `EvaluationFailed`. Else the result is the input narrowed to the rows at
/// which the predicate holds `true`; a row whose predicate is missing is
/// dropped like one whose predicate is `false`.
pub open spec fn spec_flat_filter(
    series: Result<SeriesView, EvaluationError>,
    predicate: Result<SeriesView, EvaluationError>,
) -> Result<SeriesView, EvaluationError> {
    match (series, predicate) {
        (Err(e), _) => Err(e),
        (Ok(_), Err(e)) => Err(e),
        (Ok(s), Ok(SeriesView::Boolean(mask))) => if s.len() == mask.values.len() {
            Ok(s.take_rows(kept_rows(mask.values)))
        } else {
            Err(EvaluationError::EvaluationFailed)
        },
        (Ok(_), Ok(_)) => Err(EvaluationError::TypeError),
    }
}

/// What a grouped filter makes of the results of its two children. An error
/// of the input comes first, then one of the predicate. A predicate whose
/// column is not boolean is a `TypeError`. Else the result is the input's
/// context with each of its groups narrowed to the members at which the
/// predicate's column, read row by row, holds `true`, and marked as no longer
/// covering every row.
pub open spec fn spec_grouped_filter(
    input: Result<AggregationContextView, EvaluationError>,
    predicate: Result<AggregationContextView, EvaluationError>,
) -> Result<AggregationContextView, EvaluationError> {
    match (input, predicate) {
        (Err(e), _) => Err(e),
        (Ok(_), Err(e)) => Err(e),
        (Ok(ac), Ok(p)) => match p.state.series() {
            SeriesView::Boolean(mask) => Ok(
                AggregationContextView {
                    groups: narrowed_groups(ac.groups, mask.values),
                    original_len: false,
                    ..ac
                },
            ),
            _ => Err(EvaluationError::TypeError),
        },
    }
}

/// Joins the results of a filter's two children, evaluated row by row.
pub fn flat_filter(
    series: Result<Series, EvaluationError>,
    predicate: Result<Series, EvaluationError>,
) -> (r: Result<Series, EvaluationError>)
    ensures
        series_result_view(r) == spec_flat_filter(
            series_result_view(series),
            series_result_view(predicate),
        ),
        r matches Ok(out) ==> predicate matches Ok(Series::Boolean(mask)) && out@.len() == count_true(
            mask.values@,
        ),
        r matches Ok(out) ==> series matches Ok(s) && out@.len() <= s@.len(),
{
    let series: Series = match series {
        Ok(s) => s,
        Err(e) => {
            return Err(e);
        },
    };
    let predicate: Series = match predicate {
        Ok(p) => p,
        Err(e) => {
            return Err(e);
        },
    };
    let mask = match predicate.bool() {
        Ok(mask) => mask,
        Err(e) => {
            return Err(e);
        },
    };
    series.filter(mask)
}

/// Joins the results of a filter's two children, evaluated group by group.
/// The groups are those of the input's context, and they are narrowed in
/// parallel.
pub fn grouped_filter(
    ac_s: Result<AggregationContext, EvaluationError>,
    ac_predicate: Result<AggregationContext, EvaluationError>,
) -> (r: Result<AggregationContext, EvaluationError>)
    ensures
        context_result_view(r) == spec_grouped_filter(
            context_result_view(ac_s),
            context_result_view(ac_predicate),
        ),
        r matches Ok(out) ==> !out@.original_len,
        r matches Ok(out) ==> ac_s matches Ok(before) && out@.groups.len() == before@.groups.len(),
{
    let mut ac_s: AggregationContext = match ac_s {
        Ok(ac) => ac,
        Err(e) => {
            return Err(e);
        },
    };
    let ac_predicate: AggregationContext = match ac_predicate {
        Ok(ac) => ac,
        Err(e) => {
            return Err(e);
        },
    };
    let predicate = match ac_predicate.flat_naive().bool() {
        Ok(mask) => mask,
        Err(e) => {
            return Err(e);
        },
    };
    let groups: GroupTuples = filter_groups(ac_s.groups(), predicate);
    ac_s.with_groups(groups).set_original_len(false);
    Ok(ac_s)
}

/// The node that keeps the rows of `input` at which `by` holds `true`.
pub struct FilterExpr<I, B> {
    pub input: Arc<I>,
    pub by: Arc<B>,
    pub expr: Expr,
}

impl<I: PhysicalExpr, B: PhysicalExpr> FilterExpr<I, B> {
    pub fn new(input: Arc<I>, by: Arc<B>, expr: Expr) -> (r: Self)
        ensures
            r.input == input,
            r.by == by,
            r.expr == expr,
    {
        Self { input, by, expr }
    }

    /// Whether `series` and `predicate` are results of `input` and of `by`,
    /// evaluated row by row against that table.
    pub open spec fn children_evaluate(
        &self,
        df: &DataFrame,
        state: &ExecutionState,
        series: Result<Series, EvaluationError>,
        predicate: Result<Series, EvaluationError>,
    ) -> bool {
        &&& call_ensures(I::evaluate, (&*self.input, df, state), series)
        &&& call_ensures(B::evaluate, (&*self.by, df, state), predicate)
    }

    /// Whether `ac_s` and `ac_predicate` are results of `input` and of `by`,
    /// evaluated against that table as grouped by `groups`.
    pub open spec fn children_evaluate_on_groups(
        &self,
        df: &DataFrame,
        groups: &GroupTuples,
        state: &ExecutionState,
        ac_s: Result<AggregationContext, EvaluationError>,
        ac_predicate: Result<AggregationContext, EvaluationError>,
    ) -> bool {
        &&& call_ensures(I::evaluate_on_groups, (&*self.input, df, groups, state), ac_s)
        &&& call_ensures(B::evaluate_on_groups, (&*self.by, df, groups, state), ac_predicate)
    }
}

impl<I: PhysicalExpr, B: PhysicalExpr> PhysicalExpr for FilterExpr<I, B> {
    fn as_expression(&self) -> (r: &Expr)
        ensures
            r == &self.expr,
    {
        &self.expr
    }

    /// Evaluates `input` and `by` as a fork-join pair and joins what they
    /// returned as [`flat_filter`] does.
    fn evaluate(&self, df: &DataFrame, state: &ExecutionState) -> (r: Result<Series, EvaluationError>)
        ensures
            exists|series: Result<Series, EvaluationError>, predicate: Result<Series, EvaluationError>|
                #![trigger self.children_evaluate(df, state, series, predicate)]
                self.children_evaluate(df, state, series, predicate) && series_result_view(r)
                    == spec_flat_filter(series_result_view(series), series_result_view(predicate)),
    {
        let s_f = || -> (s: Result<Series, EvaluationError>)
            ensures
                call_ensures(I::evaluate, (&*self.input, df, state), s),
            { self.input.evaluate(df, state) };
        let predicate_f = || -> (p: Result<Series, EvaluationError>)
            ensures
                call_ensures(B::evaluate, (&*self.by, df, state), p),
            { self.by.evaluate(df, state) };
        let (series, predicate) = rayon::join(s_f, predicate_f);
        assert(self.children_evaluate(df, state, series, predicate));
        flat_filter(series, predicate)
    }

    /// Evaluates `input` and `by` on the groups as a fork-join pair and joins
    /// what they returned as [`grouped_filter`] does.
    fn evaluate_on_groups(
        &self,
        df: &DataFrame,
        groups: &GroupTuples,
        state: &ExecutionState,
    ) -> (r: Result<AggregationContext, EvaluationError>)
        ensures
            exists|
                ac_s: Result<AggregationContext, EvaluationError>,
                ac_predicate: Result<AggregationContext, EvaluationError>,
            |
                #![trigger self.children_evaluate_on_groups(df, groups, state, ac_s, ac_predicate)]
                self.children_evaluate_on_groups(df, groups, state, ac_s, ac_predicate)
                    && context_result_view(r) == spec_grouped_filter(
                    context_result_view(ac_s),
                    context_result_view(ac_predicate),
                ),
            r matches Ok(out) ==> !out@.original_len,
    {
        let ac_s_f = || -> (ac: Result<AggregationContext, EvaluationError>)
            ensures
                call_ensures(I::evaluate_on_groups, (&*self.input, df, groups, state), ac),
            { self.input.evaluate_on_groups(df, groups, state) };
        let ac_predicate_f = || -> (ac: Result<AggregationContext, EvaluationError>)
            ensures
                call_ensures(B::evaluate_on_groups, (&*self.by, df, groups, state), ac),
            { self.by.evaluate_on_groups(df, groups, state) };
        let (ac_s, ac_predicate) = rayon::join(ac_s_f, ac_predicate_f);
        assert(self.children_evaluate_on_groups(df, groups, state, ac_s, ac_predicate));
        grouped_filter(ac_s, ac_predicate)
    }

    /// The field of `input`: a filter changes neither name nor type.
    fn to_field(&self, input_schema: &Schema) -> (r: Result<Field, EvaluationError>)
        ensures
            call_ensures(I::to_field, (&*self.input, input_schema), r),
    {
        self.input.to_field(input_schema)
    }
}

/// Flat filter, rows: with a boolean predicate of the input's length the
/// result is exactly the rows of the input at which the predicate holds
/// `true`, in the input's order and under its name and type. A row whose
/// predicate is missing is never among them.
pub proof fn lemma_flat_filter_rows(series: SeriesView, mask: ArrayView<bool>)
    requires
        series.len() == mask.values.len(),
    ensures
        spec_flat_filter(Ok(series), Ok(SeriesView::Boolean(mask))) is Ok,
        ({
            let out = spec_flat_filter(Ok(series), Ok(SeriesView::Boolean(mask)))->Ok_0;
            let rows = kept_rows(mask.values);
            &&& out.name() == series.name()
            &&& out.dtype() == series.dtype()
            &&& out.len() == rows.len()
            &&& forall|j: int|
                0 <= j < out.len() ==> {
                    &&& 0 <= #[trigger] rows[j] < series.len()
                    &&& mask.values[rows[j]] == Some(true)
                    &&& out.get(j) == series.get(rows[j])
                }
            &&& forall|j: int, k: int| 0 <= j < k < out.len() ==> rows[j] < rows[k]
            &&& forall|i: int|
                0 <= i < series.len() && mask.values[i] == Some(true) ==> rows.contains(i)
        }),
{
    lemma_filter_keeps_true_rows(series, mask.values);
    let rows = kept_rows(mask.values);
    assert forall|i: int| 0 <= i < series.len() && mask.values[i] == Some(true) implies rows.contains(
        i,
    ) by {
        assert(is_true_at(mask.values, i));
    }
}

/// Flat filter, length: the result has as many rows as the predicate has
/// `true` entries, and no more than the input has.
pub proof fn lemma_flat_filter_len(
    series: Result<SeriesView, EvaluationError>,
    predicate: Result<SeriesView, EvaluationError>,
)
    requires
        spec_flat_filter(series, predicate) is Ok,
    ensures
        series is Ok,
        predicate matches Ok(SeriesView::Boolean(mask)) && spec_flat_filter(series, predicate)->Ok_0.len()
            == count_true(mask.values),
        spec_flat_filter(series, predicate)->Ok_0.len() <= series->Ok_0.len(),
{
    match predicate {
        Ok(SeriesView::Boolean(mask)) => {
            lemma_filter_keeps_true_rows(series->Ok_0, mask.values);
        },
        _ => {},
    }
}

/// Grouped filter, groups: the result has the groups of the input's context,
/// as many and in the same order, also where a group is left without
/// members. The members of each are those of its members at which the
/// predicate holds `true`, in their order.
pub proof fn lemma_grouped_filter_groups(ac: AggregationContextView, predicate: AggregationContextView)
    requires
        predicate.state.series() is Boolean,
    ensures
        spec_grouped_filter(Ok(ac), Ok(predicate)) is Ok,
        ({
            let out = spec_grouped_filter(Ok(ac), Ok(predicate))->Ok_0;
            let mask = predicate.state.series()->Boolean_0.values;
            &&& out.state == ac.state
            &&& out.sorted == ac.sorted
            &&& out.groups.len() == ac.groups.len()
            &&& forall|i: int|
                0 <= i < ac.groups.len() ==> {
                    &&& (#[trigger] out.groups[i]).1 == retained(ac.groups[i].1, mask)
                    &&& out.groups[i].1.len() <= ac.groups[i].1.len()
                    &&& forall|k: int|
                        0 <= k < out.groups[i].1.len() ==> ac.groups[i].1.contains(
                            #[trigger] out.groups[i].1[k],
                        ) && is_true_at(mask, out.groups[i].1[k] as int)
                    &&& forall|k: int|
                        0 <= k < ac.groups[i].1.len() && is_true_at(mask, ac.groups[i].1[k] as int)
                            ==> out.groups[i].1.contains(#[trigger] ac.groups[i].1[k])
                }
        }),
{
    let mask = predicate.state.series()->Boolean_0.values;
    lemma_narrowed_groups(ac.groups, mask);
    let out = spec_grouped_filter(Ok(ac), Ok(predicate))->Ok_0;
    assert forall|i: int| 0 <= i < ac.groups.len() implies {
        &&& (#[trigger] out.groups[i]).1 == retained(ac.groups[i].1, mask)
        &&& out.groups[i].1.len() <= ac.groups[i].1.len()
        &&& forall|k: int|
            0 <= k < out.groups[i].1.len() ==> ac.groups[i].1.contains(#[trigger] out.groups[i].1[k])
                && is_true_at(mask, out.groups[i].1[k] as int)
        &&& forall|k: int|
            0 <= k < ac.groups[i].1.len() && is_true_at(mask, ac.groups[i].1[k] as int)
                ==> out.groups[i].1.contains(#[trigger] ac.groups[i].1[k])
    } by {
    }
}

/// Grouped filter, representative: a group of which no member is retained
/// keeps the representative it had; any other group is represented by the
/// first member it retains.
pub proof fn lemma_grouped_filter_representative(
    ac: AggregationContextView,
    predicate: AggregationContextView,
    i: int,
)
    requires
        predicate.state.series() is Boolean,
        0 <= i < ac.groups.len(),
    ensures
        ({
            let after = spec_grouped_filter(Ok(ac), Ok(predicate))->Ok_0.groups[i];
            &&& after.1.len() == 0 ==> after.0 == ac.groups[i].0
            &&& after.1.len() > 0 ==> after.0 == after.1[0] && ac.groups[i].1.contains(after.0)
        }),
{
    let mask = predicate.state.series()->Boolean_0.values;
    lemma_narrowed_groups(ac.groups, mask);
}

/// Grouped filter, cardinality: whatever went in, a context that comes out
/// is marked as no longer covering every row.
pub proof fn lemma_grouped_filter_original_len(
    input: Result<AggregationContextView, EvaluationError>,
    predicate: Result<AggregationContextView, EvaluationError>,
)
    ensures
        spec_grouped_filter(input, predicate) matches Ok(out) ==> !out.original_len,
{
}

/// Flat filter over a table: a filter node whose children read the columns
/// `input` and `by` of a table returns what [`spec_flat_filter`] makes of
/// those two columns, on every table and for every pair of names.
pub proof fn lemma_flat_filter_of_columns(
    node: FilterExpr<ColumnExpr, ColumnExpr>,
    df: DataFrame,
    state: ExecutionState,
    r: Result<Series, EvaluationError>,
)
    requires
        call_ensures(FilterExpr::<ColumnExpr, ColumnExpr>::evaluate, (&node, &df, &state), r),
    ensures
        series_result_view(r) == spec_flat_filter(
            column_of(df@, node.input.name@),
            column_of(df@, node.by.name@),
        ),
{
}

/// A column that a table has under some name is as high as the table's first
/// column.
proof fn lemma_column_height(columns: Seq<SeriesView>, name: Seq<char>)
    requires
        consistent(columns),
        column_of(columns, name) is Ok,
    ensures
        column_of(columns, name)->Ok_0.len() == columns[0].len(),
{
    let i = first_named(names_of(columns), name)->Some_0;
    assert(fits_height(columns, i));
}

/// Flat filter on a table: where the table has the column that `input` reads
/// and a boolean column that `by` reads, a filter node over the two returns
/// exactly the rows of the first at which the second holds `true`, in their
/// order and under the first column's name and type.
pub proof fn lemma_flat_filter_on_table(
    node: FilterExpr<ColumnExpr, ColumnExpr>,
    df: DataFrame,
    state: ExecutionState,
    r: Result<Series, EvaluationError>,
)
    requires
        consistent(df@),
        column_of(df@, node.input.name@) is Ok,
        column_of(df@, node.by.name@) matches Ok(SeriesView::Boolean(_)),
        call_ensures(FilterExpr::<ColumnExpr, ColumnExpr>::evaluate, (&node, &df, &state), r),
    ensures
        r is Ok,
        ({
            let series = column_of(df@, node.input.name@)->Ok_0;
            let mask = column_of(df@, node.by.name@)->Ok_0->Boolean_0.values;
            let out = r->Ok_0@;
            let rows = kept_rows(mask);
            &&& series.len() == mask.len()
            &&& out == series.take_rows(rows)
            &&& out.name() == series.name()
            &&& out.dtype() == series.dtype()
            &&& out.len() == count_true(mask)
            &&& out.len() <= series.len()
            &&& forall|j: int|
                0 <= j < out.len() ==> {
                    &&& 0 <= #[trigger] rows[j] < series.len()
                    &&& mask[rows[j]] == Some(true)
                    &&& out.get(j) == series.get(rows[j])
                }
            &&& forall|j: int, k: int| 0 <= j < k < out.len() ==> rows[j] < rows[k]
            &&& forall|i: int| 0 <= i < series.len() && mask[i] == Some(true) ==> rows.contains(i)
        }),
{
    let series = column_of(df@, node.input.name@)->Ok_0;
    let mask = column_of(df@, node.by.name@)->Ok_0->Boolean_0;
    lemma_flat_filter_of_columns(node, df, state, r);
    lemma_column_height(df@, node.input.name@);
    lemma_column_height(df@, node.by.name@);
    lemma_flat_filter_rows(series, mask);
    lemma_filter_keeps_true_rows(series, mask.values);
}

/// Grouped filter over a table: a filter node whose children read the
/// columns `input` and `by` of a table returns what [`spec_grouped_filter`]
/// makes of those two columns over the given groups. The result is thus the
/// same on every run.
pub proof fn lemma_grouped_filter_of_columns(
    node: FilterExpr<ColumnExpr, ColumnExpr>,
    df: DataFrame,
    groups: GroupTuples,
    state: ExecutionState,
    r: Result<AggregationContext, EvaluationError>,
)
    requires
        call_ensures(
            FilterExpr::<ColumnExpr, ColumnExpr>::evaluate_on_groups,
            (&node, &df, &groups, &state),
            r,
        ),
    ensures
        context_result_view(r) == spec_grouped_filter(
            node.input.spec_evaluate_on_groups(df@, groups_view(groups@)),
            node.by.spec_evaluate_on_groups(df@, groups_view(groups@)),
        ),
{
}

/// Grouped filter on a table: where the table has the column that `input`
/// reads and a boolean column that `by` reads, a filter node over the two
/// returns the first column, one value for each row, over the groups that
/// were passed in, each narrowed to the members at which the second column
/// holds `true`: as many groups, in the same order, and marked as no longer
/// covering every row.
pub proof fn lemma_grouped_filter_on_table(
    node: FilterExpr<ColumnExpr, ColumnExpr>,
    df: DataFrame,
    groups: GroupTuples,
    state: ExecutionState,
    r: Result<AggregationContext, EvaluationError>,
)
    requires
        column_of(df@, node.input.name@) is Ok,
        column_of(df@, node.by.name@) matches Ok(SeriesView::Boolean(_)),
        call_ensures(
            FilterExpr::<ColumnExpr, ColumnExpr>::evaluate_on_groups,
            (&node, &df, &groups, &state),
            r,
        ),
    ensures
        r is Ok,
        ({
            let series = column_of(df@, node.input.name@)->Ok_0;
            let mask = column_of(df@, node.by.name@)->Ok_0->Boolean_0.values;
            let out = r->Ok_0@;
            &&& out.state == AggStateView::NotAggregated(series)
            &&& out.groups == narrowed_groups(groups_view(groups@), mask)
            &&& out.groups.len() == groups@.len()
            &&& !out.sorted
            &&& !out.original_len
        }),
{
    lemma_grouped_filter_of_columns(node, df, groups, state, r);
}

/// The parallel step is a function of its arguments: two runs over the same
/// groups and predicate give the same group index, whatever the workers did.
pub proof fn lemma_filter_groups_deterministic(
    groups: GroupTuples,
    predicate: BooleanChunked,
    first: GroupTuples,
    second: GroupTuples,
)
    requires
        call_ensures(filter_groups, (&groups, &predicate), first),
        call_ensures(filter_groups, (&groups, &predicate), second),
    ensures
        groups_view(first@) == groups_view(second@),
{
}

/// A grouped filter node is as deterministic as its children: where each
/// child can return only one context on the table and groups at hand, two
/// evaluations of the node return the same.
pub proof fn lemma_grouped_filter_deterministic<I: PhysicalExpr, B: PhysicalExpr>(
    node: FilterExpr<I, B>,
    df: DataFrame,
    groups: GroupTuples,
    state: ExecutionState,
    first: Result<AggregationContext, EvaluationError>,
    second: Result<AggregationContext, EvaluationError>,
)
    requires
        forall|a: Result<AggregationContext, EvaluationError>, b: Result<AggregationContext, EvaluationError>|
            #![trigger
                call_ensures(I::evaluate_on_groups, (&*node.input, &df, &groups, &state), a),
                call_ensures(I::evaluate_on_groups, (&*node.input, &df, &groups, &state), b)]
            call_ensures(I::evaluate_on_groups, (&*node.input, &df, &groups, &state), a) && call_ensures(
                I::evaluate_on_groups,
                (&*node.input, &df, &groups, &state),
                b,
            ) ==> context_result_view(a) == context_result_view(b),
        forall|a: Result<AggregationContext, EvaluationError>, b: Result<AggregationContext, EvaluationError>|
            #![trigger
                call_ensures(B::evaluate_on_groups, (&*node.by, &df, &groups, &state), a),
                call_ensures(B::evaluate_on_groups, (&*node.by, &df, &groups, &state), b)]
            call_ensures(B::evaluate_on_groups, (&*node.by, &df, &groups, &state), a) && call_ensures(
                B::evaluate_on_groups,
                (&*node.by, &df, &groups, &state),
                b,
            ) ==> context_result_view(a) == context_result_view(b),
        call_ensures(FilterExpr::<I, B>::evaluate_on_groups, (&node, &df, &groups, &state), first),
        call_ensures(FilterExpr::<I, B>::evaluate_on_groups, (&node, &df, &groups, &state), second),
    ensures
        context_result_view(first) == context_result_view(second),
{
}

} // verus!
