use polars_lazy::aggregation::{AggState, AggregationContext};
use polars_lazy::datatypes::{DataType, Field, Schema};
use polars_lazy::error::EvaluationError;
use polars_lazy::expr::{ColumnExpr, ExecutionState, Expr, PhysicalExpr};
use polars_lazy::filter::{flat_filter, grouped_filter, FilterExpr};
use polars_lazy::frame::DataFrame;
use polars_lazy::groups::GroupTuples;
use polars_lazy::series::{
    AnyValue, BooleanChunked, Int32Chunked, Int64Chunked, Series, UInt32Chunked,
};
use std::sync::Arc;

fn col(name: &str) -> Arc<ColumnExpr> {
    Arc::new(ColumnExpr::new(name.to_string(), Expr::Column(name.to_string())))
}

fn filter_expr(input: &str, by: &str) -> Expr {
    Expr::Filter {
        input: Box::new(Expr::Column(input.to_string())),
        by: Box::new(Expr::Column(by.to_string())),
    }
}

fn filter(input: &str, by: &str) -> FilterExpr<ColumnExpr, ColumnExpr> {
    FilterExpr::new(col(input), col(by), filter_expr(input, by))
}

fn ints(name: &str, values: &[Option<i64>]) -> Series {
    Int64Chunked::new_from_opt_slice(name, values).into_series()
}

fn bools(name: &str, values: &[Option<bool>]) -> Series {
    BooleanChunked::new_from_opt_slice(name, values).into_series()
}

fn table(x: &[Option<i64>], p: &[Option<bool>]) -> DataFrame {
    DataFrame::new(vec![ints("x", x), bools("p", p)]).unwrap()
}

fn context(series: Series, groups: GroupTuples) -> AggregationContext {
    AggregationContext::new(AggState::NotAggregated(series), groups)
}

#[test]
fn flat_filter_keeps_the_rows_where_the_predicate_is_true() {
    let df = table(
        &[Some(10), Some(20), Some(30), Some(40)],
        &[Some(true), Some(false), Some(true), None],
    );
    let out = filter("x", "p").evaluate(&df, &ExecutionState::new()).unwrap();
    let expected = ints("x", &[Some(10), Some(30)]);
    assert_eq!(out, expected);
    assert!(out.series_equal_missing(&expected));
}

#[test]
fn flat_filter_never_keeps_a_row_whose_predicate_is_missing() {
    let df = table(&[Some(1), None, Some(3), None], &[None, None, Some(true), Some(true)]);
    let out = filter("x", "p").evaluate(&df, &ExecutionState::new()).unwrap();
    assert_eq!(out, ints("x", &[Some(3), None]));
    assert_eq!(out.get(0), AnyValue::Int64(3));
    assert_eq!(out.get(1), AnyValue::Null);
}

#[test]
fn flat_filter_works_on_every_column_type() {
    let mask = BooleanChunked::new_from_opt_slice("m", &[Some(false), Some(true), Some(true)]);
    let u = UInt32Chunked::new_from_opt_slice("u", &[Some(1), None, Some(2)]).into_series();
    let i = Int32Chunked::new_from_opt_slice("i", &[Some(-1), Some(-2), None]).into_series();
    let b = bools("b", &[Some(true), Some(false), None]);
    assert_eq!(
        u.filter(&mask),
        Ok(UInt32Chunked::new_from_opt_slice("u", &[None, Some(2)]).into_series())
    );
    assert_eq!(
        i.filter(&mask),
        Ok(Int32Chunked::new_from_opt_slice("i", &[Some(-2), None]).into_series())
    );
    assert_eq!(b.filter(&mask), Ok(bools("b", &[Some(false), None])));
}

#[test]
fn flat_filter_result_is_as_long_as_the_count_of_true() {
    let p = [Some(true), None, Some(false), Some(true), Some(true), None, Some(false)];
    let x: Vec<Option<i64>> = (0..7).map(Some).collect();
    let df = table(&x, &p);
    let out = filter("x", "p").evaluate(&df, &ExecutionState::new()).unwrap();
    let count = p.iter().filter(|v| **v == Some(true)).count();
    assert_eq!(count, 3);
    assert_eq!(out.len(), count);
    assert!(out.len() <= df.height());
    assert_eq!(out, ints("x", &[Some(0), Some(3), Some(4)]));
}

#[test]
fn flat_filter_of_nothing_and_of_everything() {
    let none = table(&[Some(1), Some(2)], &[Some(false), None]);
    let out = filter("x", "p").evaluate(&none, &ExecutionState::new()).unwrap();
    assert_eq!(out, ints("x", &[]));
    let all = table(&[Some(1), Some(2)], &[Some(true), Some(true)]);
    let out = filter("x", "p").evaluate(&all, &ExecutionState::new()).unwrap();
    assert_eq!(out, ints("x", &[Some(1), Some(2)]));
    let empty = table(&[], &[]);
    let out = filter("x", "p").evaluate(&empty, &ExecutionState::new()).unwrap();
    assert_eq!(out.len(), 0);
}

#[test]
fn flat_filter_can_filter_the_predicate_itself() {
    let df = table(&[Some(1), Some(2), Some(3)], &[Some(true), Some(false), Some(true)]);
    let out = filter("p", "p").evaluate(&df, &ExecutionState::new()).unwrap();
    assert_eq!(out, bools("p", &[Some(true), Some(true)]));
}

#[test]
fn grouped_filter_narrows_each_group() {
    let df = table(
        &[Some(1), Some(2), Some(3), Some(4)],
        &[Some(true), Some(false), Some(true), Some(true)],
    );
    let groups: GroupTuples = vec![(0, vec![0, 1]), (2, vec![2, 3])];
    let ac = filter("x", "p").evaluate_on_groups(&df, &groups, &ExecutionState::new()).unwrap();
    assert_eq!(ac.groups(), &vec![(0u32, vec![0u32]), (2u32, vec![2u32, 3u32])]);
    assert!(matches!(ac.state(), AggState::NotAggregated(_)));
    assert_eq!(ac.flat_naive(), &ints("x", &[Some(1), Some(2), Some(3), Some(4)]));
}

#[test]
fn grouped_filter_keeps_the_representative_of_an_emptied_group() {
    let df = table(&[Some(1), Some(2)], &[Some(false), Some(false)]);
    let groups: GroupTuples = vec![(0, vec![0, 1])];
    let ac = filter("x", "p").evaluate_on_groups(&df, &groups, &ExecutionState::new()).unwrap();
    assert_eq!(ac.groups(), &vec![(0u32, Vec::<u32>::new())]);
}

#[test]
fn grouped_filter_falls_back_to_the_representative_it_was_given() {
    let input = context(ints("x", &[Some(1), Some(2), Some(3)]), vec![(2, vec![0, 1]), (1, vec![2])]);
    let predicate = context(bools("p", &[Some(false), None, Some(true)]), vec![]);
    let out = grouped_filter(Ok(input), Ok(predicate)).unwrap();
    assert_eq!(out.groups(), &vec![(2u32, Vec::<u32>::new()), (2u32, vec![2u32])]);
}

#[test]
fn grouped_filter_represents_a_group_by_its_first_retained_member() {
    let input = context(ints("x", &[Some(1), Some(2), Some(3), Some(4)]), vec![(0, vec![0, 1, 2, 3])]);
    let predicate = context(bools("p", &[Some(false), None, Some(true), Some(true)]), vec![]);
    let out = grouped_filter(Ok(input), Ok(predicate)).unwrap();
    assert_eq!(out.groups(), &vec![(2u32, vec![2u32, 3u32])]);
}

#[test]
fn grouped_filter_keeps_the_number_and_order_of_groups() {
    let p = [Some(true), Some(false), Some(false), Some(true), None, Some(true)];
    let x: Vec<Option<i64>> = (0..6).map(Some).collect();
    let df = table(&x, &p);
    let groups: GroupTuples = vec![(5, vec![5]), (1, vec![1, 2]), (0, vec![0, 3]), (4, vec![4])];
    let ac = filter("x", "p").evaluate_on_groups(&df, &groups, &ExecutionState::new()).unwrap();
    assert_eq!(ac.groups().len(), groups.len());
    assert_eq!(
        ac.groups(),
        &vec![(5u32, vec![5u32]), (1u32, vec![]), (0u32, vec![0u32, 3u32]), (4u32, vec![])]
    );
}

#[test]
fn grouped_filter_clears_original_len() {
    let df = table(&[Some(1), Some(2)], &[Some(true), Some(true)]);
    let groups: GroupTuples = vec![(0, vec![0, 1])];
    let state = ExecutionState::new();
    let before = col("x").evaluate_on_groups(&df, &groups, &state).unwrap();
    assert!(before.is_original_len());
    let after = filter("x", "p").evaluate_on_groups(&df, &groups, &state).unwrap();
    assert!(!after.is_original_len());
    assert_eq!(after.groups(), &groups);
    assert_eq!(after.is_sorted(), before.is_sorted());
    let no_groups = filter("x", "p").evaluate_on_groups(&df, &vec![], &state).unwrap();
    assert!(!no_groups.is_original_len());
}

#[test]
fn grouped_filter_takes_its_groups_from_the_input() {
    let input = context(ints("x", &[Some(1), Some(2)]), vec![(1, vec![1, 0])]);
    let predicate = context(bools("p", &[Some(true), Some(true)]), vec![(0, vec![0]), (1, vec![1])]);
    let out = grouped_filter(Ok(input), Ok(predicate)).unwrap();
    assert_eq!(out.groups(), &vec![(1u32, vec![1u32, 0u32])]);
}

#[test]
fn grouped_filter_reads_an_aggregated_predicate_as_it_is_held() {
    let input = context(ints("x", &[Some(1), Some(2), Some(3)]), vec![(0, vec![0, 1, 2])]);
    let predicate = AggregationContext::new(
        AggState::AggregatedFlat(bools("p", &[Some(true)])),
        vec![(0, vec![0, 1, 2])],
    );
    let out = grouped_filter(Ok(input), Ok(predicate)).unwrap();
    assert_eq!(out.groups(), &vec![(0u32, vec![0u32])]);
}

#[test]
fn grouped_filter_is_the_same_on_every_run() {
    let n: u32 = 2000;
    let x: Vec<Option<i64>> = (0..n as i64).map(Some).collect();
    let p: Vec<Option<bool>> =
        (0..n).map(|i| if i % 7 == 0 { None } else { Some(i % 3 != 0) }).collect();
    let df = table(&x, &p);
    let groups: GroupTuples =
        (0..100u32).map(|g| (g, (0..n).filter(|i| i % 100 == g).collect())).collect();
    let node = filter("x", "p");
    let state = ExecutionState::new();
    let first = node.evaluate_on_groups(&df, &groups, &state).unwrap();
    let expected: GroupTuples = groups
        .iter()
        .map(|(rep, members)| {
            let kept: Vec<u32> =
                members.iter().copied().filter(|i| p[*i as usize] == Some(true)).collect();
            (*kept.first().unwrap_or(rep), kept)
        })
        .collect();
    assert_eq!(first.groups(), &expected);
    for _ in 0..20 {
        let again = node.evaluate_on_groups(&df, &groups, &state).unwrap();
        assert_eq!(again, first);
    }
}

#[test]
fn a_predicate_that_is_not_boolean_is_a_type_error() {
    let df = table(&[Some(1), Some(2)], &[Some(true), Some(false)]);
    let state = ExecutionState::new();
    assert_eq!(filter("p", "x").evaluate(&df, &state), Err(EvaluationError::TypeError));
    assert_eq!(filter("x", "x").evaluate(&df, &state), Err(EvaluationError::TypeError));
    let groups: GroupTuples = vec![(0, vec![0, 1])];
    let grouped = filter("p", "x").evaluate_on_groups(&df, &groups, &state);
    assert_eq!(grouped, Err(EvaluationError::TypeError));
}

#[test]
fn a_column_that_is_absent_is_a_schema_error() {
    let df = table(&[Some(1)], &[Some(true)]);
    let state = ExecutionState::new();
    let groups: GroupTuples = vec![(0, vec![0])];
    assert_eq!(filter("y", "p").evaluate(&df, &state), Err(EvaluationError::SchemaError));
    assert_eq!(filter("x", "q").evaluate(&df, &state), Err(EvaluationError::SchemaError));
    assert_eq!(
        filter("y", "p").evaluate_on_groups(&df, &groups, &state),
        Err(EvaluationError::SchemaError)
    );
    assert_eq!(
        filter("x", "q").evaluate_on_groups(&df, &groups, &state),
        Err(EvaluationError::SchemaError)
    );
}

#[test]
fn the_error_of_the_input_comes_before_that_of_the_predicate() {
    let df = table(&[Some(1)], &[Some(true)]);
    let state = ExecutionState::new();
    // the input is absent and the predicate is not boolean
    assert_eq!(filter("y", "x").evaluate(&df, &state), Err(EvaluationError::SchemaError));
    assert_eq!(
        flat_filter(Err(EvaluationError::EvaluationFailed), Err(EvaluationError::TypeError)),
        Err(EvaluationError::EvaluationFailed)
    );
    assert_eq!(
        flat_filter(Ok(ints("x", &[])), Err(EvaluationError::SchemaError)),
        Err(EvaluationError::SchemaError)
    );
    assert_eq!(
        grouped_filter(Err(EvaluationError::SchemaError), Err(EvaluationError::TypeError)),
        Err(EvaluationError::SchemaError)
    );
    assert_eq!(
        grouped_filter(Ok(context(ints("x", &[]), vec![])), Err(EvaluationError::EvaluationFailed)),
        Err(EvaluationError::EvaluationFailed)
    );
}

#[test]
fn a_predicate_of_another_length_fails_the_flat_filter() {
    let x = ints("x", &[Some(1), Some(2), Some(3)]);
    let short = bools("p", &[Some(true), Some(true)]);
    assert_eq!(flat_filter(Ok(x), Ok(short)), Err(EvaluationError::EvaluationFailed));
    let x = ints("x", &[Some(1)]);
    let long = bools("p", &[Some(true), Some(true)]);
    assert_eq!(flat_filter(Ok(x), Ok(long)), Err(EvaluationError::EvaluationFailed));
}

#[test]
fn a_filter_has_the_field_of_its_input() {
    let schema =
        Schema::new(vec![Field::new("x", DataType::Int64), Field::new("p", DataType::Boolean)]);
    assert_eq!(filter("x", "p").to_field(&schema), Ok(Field::new("x", DataType::Int64)));
    assert_eq!(filter("p", "x").to_field(&schema), Ok(Field::new("p", DataType::Boolean)));
    assert_eq!(filter("y", "p").to_field(&schema), Err(EvaluationError::SchemaError));
    // the predicate plays no part
    assert_eq!(filter("x", "q").to_field(&schema), Ok(Field::new("x", DataType::Int64)));
}

#[test]
fn a_filter_remembers_the_expression_it_was_planned_from() {
    let node = filter("x", "p");
    assert_eq!(node.as_expression(), &filter_expr("x", "p"));
    assert_eq!(node.input.as_expression(), &Expr::Column("x".to_string()));
    assert_eq!(node.by.name, "p");
}

#[test]
fn filters_nest() {
    let df = DataFrame::new(vec![
        ints("x", &[Some(1), Some(2), Some(3), Some(4)]),
        bools("p", &[Some(true), Some(true), Some(false), Some(true)]),
        bools("q", &[Some(true), Some(false), Some(true), Some(true)]),
    ])
    .unwrap();
    let state = ExecutionState::new();
    // q narrowed by p has three rows, x has four
    let inner = Arc::new(filter("q", "p"));
    let outer = FilterExpr::new(col("x"), inner, Expr::Column("x".to_string()));
    assert_eq!(outer.evaluate(&df, &state), Err(EvaluationError::EvaluationFailed));
    // x narrowed by p, then the groups narrowed once more by q
    let inner = Arc::new(filter("x", "p"));
    let outer = FilterExpr::new(inner, col("q"), Expr::Column("x".to_string()));
    let groups: GroupTuples = vec![(0, vec![0, 1]), (2, vec![2, 3])];
    let ac = outer.evaluate_on_groups(&df, &groups, &state).unwrap();
    assert_eq!(ac.groups(), &vec![(0u32, vec![0u32]), (3u32, vec![3u32])]);
    assert!(!ac.is_original_len());
}
