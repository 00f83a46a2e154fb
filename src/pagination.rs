use vstd::prelude::*;

verus! {

/// Direction of one ordering key.
#[derive(Clone, Copy, Debug, PartialEq, Eq, Structural)]
pub enum SortOrder {
    Ascending,
    Descending,
}

/// One requested ordering: a field (by its database name) and a direction.
/// The position in the ordering list gives its tie-break priority.
#[derive(Debug, PartialEq, Eq)]
pub struct OrderBy {
    pub field: String,
    pub sort_order: SortOrder,
}

/// One key of a compiled sort directive.
#[derive(Debug, PartialEq, Eq)]
pub struct SortField {
    pub field: String,
    pub sort_order: SortOrder,
}

pub open spec fn invert(o: SortOrder) -> SortOrder {
    match o {
        SortOrder::Ascending => SortOrder::Descending,
        SortOrder::Descending => SortOrder::Ascending,
    }
}

/// The direction sent to the backend for one ordering.
pub open spec fn effective_order(o: SortOrder, reverse: bool) -> SortOrder {
    if reverse {
        invert(o)
    } else {
        o
    }
}

/// The compiled sort keys: the same fields in the same order, each direction
/// inverted when paging backwards.
pub open spec fn sort_fields_spec(orderings: Seq<OrderBy>, reverse: bool) -> Seq<SortField> {
    orderings.map_values(
        |o: OrderBy| SortField { field: o.field, sort_order: effective_order(o.sort_order, reverse) },
    )
}

/// The sort directive: none at all for an empty ordering list.
pub open spec fn order_spec(orderings: Seq<OrderBy>, reverse: bool) -> Option<Seq<SortField>> {
    if orderings.len() == 0 {
        None
    } else {
        Some(sort_fields_spec(orderings, reverse))
    }
}

/// A negative take asks for the last rows of the ordering.
pub open spec fn is_reverse(take: Option<i64>) -> bool {
    match take {
        Some(t) => t < 0,
        None => false,
    }
}

/// The skip directive actually sent to the backend: omitted when skip is to
/// be ignored, the stored value otherwise.
pub open spec fn skip_spec(value: Option<i64>, ignore: bool) -> Option<i64> {
    if ignore {
        None
    } else {
        value
    }
}

/// Magnitude of a signed take; the sign only encodes the paging direction.
pub open spec fn take_magnitude(t: i64) -> int {
    if t < 0 {
        -t
    } else {
        t as int
    }
}

/// The row limit: the magnitude of take, omitted when take is to be ignored.
pub open spec fn take_spec(value: Option<i64>, ignore: bool) -> Option<int> {
    if ignore {
        None
    } else {
        match value {
            Some(t) => Some(take_magnitude(t)),
            None => None,
        }
    }
}

pub open spec fn limit_matches(r: Option<i64>, expected: Option<int>) -> bool {
    match (r, expected) {
        (Some(a), Some(b)) => a as int == b,
        (None, None) => true,
        _ => false,
    }
}

pub fn skip(value: Option<i64>, ignore: bool) -> (r: Option<i64>)
    ensures
        r == skip_spec(value, ignore),
{
    if ignore {
        None
    } else {
        value
    }
}

/// The row limit for a signed take. `i64::MIN` has no positive magnitude in
/// an `i64`, so it is not a valid take.
pub fn take(value: Option<i64>, ignore: bool) -> (r: Option<i64>)
    requires
        value != Some(i64::MIN),
    ensures
        limit_matches(r, take_spec(value, ignore)),
        r matches Some(l) ==> l >= 0,
{
    if ignore {
        None
    } else {
        match value {
            Some(t) => {
                if t < 0 {
                    Some(-t)
                } else {
                    Some(t)
                }
            },
            None => None,
        }
    }
}

/// Compiles the ordering list into a sort directive, inverting every
/// direction when `reverse` is set. An empty list gives no directive.
pub fn build_order_by(orderings: Vec<OrderBy>, reverse: bool) -> (r: Option<Vec<SortField>>)
    ensures
        match (r, order_spec(orderings@, reverse)) {
            (Some(v), Some(s)) => v@ == s,
            (None, None) => true,
            _ => false,
        },
{
    if orderings.len() == 0 {
        return None;
    }
    let ghost input = orderings@;
    let mut rest = orderings;
    let mut out: Vec<SortField> = Vec::new();
    // Take the orderings from the back, then restore their order.
    let mut rev: Vec<SortField> = Vec::new();
    while rest.len() > 0
        invariant
            rest@.len() + rev@.len() == input.len(),
            rest@ == input.take(rest@.len() as int),
            forall|k: int|
                0 <= k < rev@.len() ==> #[trigger] rev@[k] == sort_fields_spec(input, reverse)[input.len() - 1 - k],
        decreases rest@.len(),
    {
        let o = rest.pop().unwrap();
        let sort_order = match (o.sort_order, reverse) {
            (SortOrder::Ascending, true) => SortOrder::Descending,
            (SortOrder::Descending, true) => SortOrder::Ascending,
            (order, false) => order,
        };
        proof {
            assert(o == input[rest@.len() as int]);
        }
        rev.push(SortField { field: o.field, sort_order });
    }
    while rev.len() > 0
        invariant
            rev@.len() + out@.len() == input.len(),
            forall|k: int|
                0 <= k < rev@.len() ==> #[trigger] rev@[k] == sort_fields_spec(input, reverse)[input.len() - 1 - k],
            out@ == sort_fields_spec(input, reverse).take(out@.len() as int),
        decreases rev@.len(),
    {
        let f = rev.pop().unwrap();
        proof {
            assert(f == sort_fields_spec(input, reverse)[out@.len() as int]);
        }
        out.push(f);
        proof {
            assert(out@ =~= sort_fields_spec(input, reverse).take(out@.len() as int));
        }
    }
    proof {
        assert(out@ =~= sort_fields_spec(input, reverse));
    }
    Some(out)
}

} // verus!
