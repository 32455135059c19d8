//! Expression nodes: what every node offers, and the node that reads a
//! column.

use vstd::prelude::*;
use crate::aggregation::{AggState, AggStateView, AggregationContext, AggregationContextView};
use crate::datatypes::{first_named, Field, Schema};
use crate::error::EvaluationError;
use crate::frame::{column_of, height_of, DataFrame};
use crate::groups::{clone_groups, groups_view, GroupTuples};
use crate::series::{Series, SeriesView};

verus! {

/// A logical expression: what a physical node was planned from.
#[derive(Debug, PartialEq, Eq)]
pub enum Expr {
    /// The column of that name.
    Column(String),
    /// The rows of `input` at which `by` holds `true`.
    Filter { input: Box<Expr>, by: Box<Expr> },
}

impl Clone for Expr {
    fn clone(&self) -> (r: Self)
        ensures
            r == *self,
        decreases self,
    {
        match self {
            Expr::Column(name) => Expr::Column(name.clone()),
            Expr::Filter { input, by } => Expr::Filter {
                input: Box::new((**input).clone()),
                by: Box::new((**by).clone()),
            },
        }
    }
}

/// What an evaluation carries along from node to node. The nodes of this
/// crate hand it on and never look inside.
#[derive(Debug)]
pub struct ExecutionState {}

impl ExecutionState {
    pub fn new() -> ExecutionState {
        ExecutionState {}
    }
}

/// A node of a physical expression tree.
///
/// Nothing is promised of an implementation: a node that has children states
/// its result in terms of whatever its children returned.
pub trait PhysicalExpr: Send + Sync {
    /// The logical expression that the node was planned from.
    fn as_expression(&self) -> &Expr;

    /// Evaluates the node against the rows of `df`.
    fn evaluate(&self, df: &DataFrame, state: &ExecutionState) -> Result<Series, EvaluationError>;

    /// Evaluates the node against `df` as grouped by `groups`.
    fn evaluate_on_groups(
        &self,
        df: &DataFrame,
        groups: &GroupTuples,
        state: &ExecutionState,
    ) -> Result<AggregationContext, EvaluationError>;

    /// The name and type of the node's result on a table of that schema.
    fn to_field(&self, input_schema: &Schema) -> Result<Field, EvaluationError>;
}

/// A result with the column in it as plain values.
pub open spec fn series_result_view(r: Result<Series, EvaluationError>) -> Result<
    SeriesView,
    EvaluationError,
> {
    match r {
        Ok(s) => Ok(s@),
        Err(e) => Err(e),
    }
}

/// A result with the context in it as plain values.
pub open spec fn context_result_view(r: Result<AggregationContext, EvaluationError>) -> Result<
    AggregationContextView,
    EvaluationError,
> {
    match r {
        Ok(ac) => Ok(ac@),
        Err(e) => Err(e),
    }
}

/// The node that reads one column of the table.
pub struct ColumnExpr {
    pub name: String,
    pub expr: Expr,
}

impl ColumnExpr {
    pub fn new(name: String, expr: Expr) -> (r: ColumnExpr)
        ensures
            r.name == name,
            r.expr == expr,
    {
        ColumnExpr { name, expr }
    }

    /// What the node gives on a table as grouped by `groups`: its column, one
    /// value for each row, over those groups.
    pub open spec fn spec_evaluate_on_groups(
        &self,
        columns: Seq<SeriesView>,
        groups: Seq<(u32, Seq<u32>)>,
    ) -> Result<AggregationContextView, EvaluationError> {
        match column_of(columns, self.name@) {
            Ok(series) => Ok(
                AggregationContextView {
                    state: AggStateView::NotAggregated(series),
                    groups,
                    sorted: false,
                    original_len: true,
                },
            ),
            Err(e) => Err(e),
        }
    }
}

impl PhysicalExpr for ColumnExpr {
    fn as_expression(&self) -> (r: &Expr)
        ensures
            r == &self.expr,
    {
        &self.expr
    }

    /// A copy of the column called `self.name`, as high as the table;
    /// `SchemaError` where the table has none.
    fn evaluate(&self, df: &DataFrame, state: &ExecutionState) -> (r: Result<Series, EvaluationError>)
        ensures
            series_result_view(r) == column_of(df@, self.name@),
            r matches Ok(series) ==> series@.len() == height_of(df@),
    {
        match df.column(self.name.as_str()) {
            Ok(series) => Ok(series.clone()),
            Err(e) => Err(e),
        }
    }

    /// The column called `self.name`, one value for each row, with a copy of
    /// `groups`; `SchemaError` where the table has no such column.
    fn evaluate_on_groups(
        &self,
        df: &DataFrame,
        groups: &GroupTuples,
        state: &ExecutionState,
    ) -> (r: Result<AggregationContext, EvaluationError>)
        ensures
            context_result_view(r) == self.spec_evaluate_on_groups(df@, groups_view(groups@)),
    {
        match self.evaluate(df, state) {
            Ok(series) => Ok(
                AggregationContext::new(AggState::NotAggregated(series), clone_groups(groups)),
            ),
            Err(e) => Err(e),
        }
    }

    /// The first field called `self.name`; `SchemaError` where the schema has
    /// none.
    fn to_field(&self, input_schema: &Schema) -> (r: Result<Field, EvaluationError>)
        ensures
            r == match first_named(input_schema.names(), self.name@) {
                Some(i) => Ok::<Field, EvaluationError>(input_schema.fields@[i]),
                None => Err::<Field, EvaluationError>(EvaluationError::SchemaError),
            },
    {
        match input_schema.field_with_name(self.name.as_str()) {
            Ok(field) => Ok(field.clone()),
            Err(e) => Err(e),
        }
    }
}

} // verus!
