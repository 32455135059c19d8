//! The aggregation context: what an expression hands on when it is
//! evaluated group by group.

use vstd::prelude::*;
use crate::groups::{groups_view, GroupTuples};
use crate::series::{Series, SeriesView};

verus! {

/// A column together with how its values stand to the rows and groups.
#[derive(Debug, PartialEq, Eq)]
pub enum AggState {
    /// One value for each row of the table.
    NotAggregated(Series),
    /// One value for each group.
    AggregatedFlat(Series),
    /// One value for each member of each group, the groups laid end to end.
    AggregatedList(Series),
}

/// What an [`AggState`] holds.
pub enum AggStateView {
    NotAggregated(SeriesView),
    AggregatedFlat(SeriesView),
    AggregatedList(SeriesView),
}

impl View for AggState {
    type V = AggStateView;

    open spec fn view(&self) -> AggStateView {
        match self {
            AggState::NotAggregated(s) => AggStateView::NotAggregated(s@),
            AggState::AggregatedFlat(s) => AggStateView::AggregatedFlat(s@),
            AggState::AggregatedList(s) => AggStateView::AggregatedList(s@),
        }
    }
}

impl AggStateView {
    /// The column, whatever its state.
    pub open spec fn series(self) -> SeriesView {
        match self {
            AggStateView::NotAggregated(s) => s,
            AggStateView::AggregatedFlat(s) => s,
            AggStateView::AggregatedList(s) => s,
        }
    }
}

/// A column, the group index it is to be read with, and two flags.
#[derive(Debug, PartialEq, Eq)]
pub struct AggregationContext {
    state: AggState,
    groups: GroupTuples,
    sorted: bool,
    original_len: bool,
}

/// What an [`AggregationContext`] holds.
pub struct AggregationContextView {
    pub state: AggStateView,
    pub groups: Seq<(u32, Seq<u32>)>,
    /// Whether the column's values are known to lie group by group.
    pub sorted: bool,
    /// Whether column and groups still cover every row of the table.
    pub original_len: bool,
}

impl View for AggregationContext {
    type V = AggregationContextView;

    closed spec fn view(&self) -> AggregationContextView {
        AggregationContextView {
            state: self.state@,
            groups: groups_view(self.groups@),
            sorted: self.sorted,
            original_len: self.original_len,
        }
    }
}

impl AggregationContext {
    /// A context over a column and the groups of the table it came from: not
    /// known to be sorted, and covering every row.
    pub fn new(state: AggState, groups: GroupTuples) -> (r: AggregationContext)
        ensures
            r@ == (AggregationContextView {
                state: state@,
                groups: groups_view(groups@),
                sorted: false,
                original_len: true,
            }),
    {
        AggregationContext { state, groups, sorted: false, original_len: true }
    }

    /// The group index the column is to be read with.
    pub fn groups(&self) -> (r: &GroupTuples)
        ensures
            groups_view(r@) == self@.groups,
    {
        &self.groups
    }

    /// The column as it is held, read row by row: neither its values nor the
    /// groups are looked at.
    pub fn flat_naive(&self) -> (r: &Series)
        ensures
            r@ == self@.state.series(),
    {
        match &self.state {
            AggState::NotAggregated(s) => s,
            AggState::AggregatedFlat(s) => s,
            AggState::AggregatedList(s) => s,
        }
    }

    /// Replaces the group index and hands the context back for more changes.
    pub fn with_groups(&mut self, groups: GroupTuples) -> (r: &mut Self)
        ensures
            r@ == (AggregationContextView { groups: groups_view(groups@), ..old(self)@ }),
            *final(self) == *final(r),
    {
        self.groups = groups;
        self
    }

    /// Records whether column and groups still cover every row of the table,
    /// and hands the context back for more changes.
    pub fn set_original_len(&mut self, original_len: bool) -> (r: &mut Self)
        ensures
            r@ == (AggregationContextView { original_len, ..old(self)@ }),
            *final(self) == *final(r),
    {
        self.original_len = original_len;
        self
    }

    /// Whether column and groups still cover every row of the table.
    pub fn is_original_len(&self) -> (r: bool)
        ensures
            r == self@.original_len,
    {
        self.original_len
    }

    /// Whether the column's values are known to lie group by group.
    pub fn is_sorted(&self) -> (r: bool)
        ensures
            r == self@.sorted,
    {
        self.sorted
    }

    /// The column and its state.
    pub fn state(&self) -> (r: &AggState)
        ensures
            r@ == self@.state,
    {
        &self.state
    }
}

} // verus!
