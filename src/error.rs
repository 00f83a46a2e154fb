use vstd::prelude::*;

verus! {

/// Why a query could not be compiled into a plan.
#[derive(Clone, Copy, Debug, PartialEq, Eq, Structural)]
pub enum QueryError {
    /// A filter operator has no native lowering on the target backend.
    UnsupportedFilterShape,
    /// The request is structurally invalid: a having-filter without
    /// grouping, or a request for the last rows with no ordering to reverse.
    InvalidPlanCombination,
}

} // verus!
