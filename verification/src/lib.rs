//! Physical expression evaluation over in-memory columnar tables.
//!
//! A physical expression is a node of a tree that is evaluated against a
//! [`frame::DataFrame`], either row by row ("flat") or group by group. The
//! filter node narrows a column, or the member lists of a group index, to the
//! rows whose predicate is `true`; its two children run as a fork-join pair
//! and the per-group work runs as an order-preserving parallel map.

pub mod error;
pub mod datatypes;
pub mod series;
pub mod pool;
pub mod groups;
pub mod frame;
pub mod aggregation;
pub mod expr;
pub mod filter;
pub mod object;

