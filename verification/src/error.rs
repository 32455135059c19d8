use vstd::prelude::*;

verus! {

/// Why an expression could not be evaluated.
#[derive(Clone, Copy, Debug, PartialEq, Eq, Structural)]
pub enum EvaluationError {
    /// A column that the expression refers to is absent, or two columns share
    /// a name.
    SchemaError,
    /// An operand does not have the type the operator needs, such as a
    /// predicate that is not boolean.
    TypeError,
    /// Any other failure of an evaluation, such as a mask whose length
    /// differs from that of the column it is applied to.
    EvaluationFailed,
}

} // verus!
