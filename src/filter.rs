use vstd::prelude::*;

use crate::error::QueryError;

verus! {

/// Comparison operators of scalar conditions.
#[derive(Clone, Copy, Debug, PartialEq, Eq, Structural)]
pub enum ScalarOp {
    Equals,
    NotEquals,
    LessThan,
    LessThanOrEqual,
    GreaterThan,
    GreaterThanOrEqual,
    Contains,
    NotContains,
}

/// A constant a scalar condition compares against.
#[derive(Debug, PartialEq, Eq)]
pub enum Value {
    Null,
    Bool(bool),
    Int(i64),
    Text(String),
}

/// A backend-agnostic filter tree.
#[derive(Debug, PartialEq, Eq)]
pub enum Filter {
    /// `field op value` on the record itself.
    Scalar { field: String, op: ScalarOp, value: Value },
    And(Box<Filter>, Box<Filter>),
    Or(Box<Filter>, Box<Filter>),
    Not(Box<Filter>),
    /// A condition on the records reached through a relation.
    Relation { relation: String, nested: Box<Filter> },
}

/// A compiled, backend-native predicate. Negation has been pushed down to the
/// comparisons, so it has no negation node.
#[derive(Debug, PartialEq, Eq)]
pub enum Predicate {
    Compare { field: String, op: ScalarOp, value: Value },
    And(Box<Predicate>, Box<Predicate>),
    Or(Box<Predicate>, Box<Predicate>),
    /// Evaluated on the joined data of `relation`, once the join has run.
    Within { relation: String, inner: Box<Predicate> },
}

/// What the target backend can lower.
#[derive(Clone, Copy, Debug, PartialEq, Eq, Structural)]
pub struct Capabilities {
    /// Substring matching (`Contains` / `NotContains`).
    pub string_matching: bool,
}

/// The operator that holds exactly when `op` does not.
pub open spec fn negated_op(op: ScalarOp) -> ScalarOp {
    match op {
        ScalarOp::Equals => ScalarOp::NotEquals,
        ScalarOp::NotEquals => ScalarOp::Equals,
        ScalarOp::LessThan => ScalarOp::GreaterThanOrEqual,
        ScalarOp::LessThanOrEqual => ScalarOp::GreaterThan,
        ScalarOp::GreaterThan => ScalarOp::LessThanOrEqual,
        ScalarOp::GreaterThanOrEqual => ScalarOp::LessThan,
        ScalarOp::Contains => ScalarOp::NotContains,
        ScalarOp::NotContains => ScalarOp::Contains,
    }
}

pub open spec fn op_supported(op: ScalarOp, caps: Capabilities) -> bool {
    match op {
        ScalarOp::Contains | ScalarOp::NotContains => caps.string_matching,
        _ => true,
    }
}

/// Every operator in the tree has a native lowering.
pub open spec fn supported(f: Filter, caps: Capabilities) -> bool
    decreases f,
{
    match f {
        Filter::Scalar { op, .. } => op_supported(op, caps),
        Filter::And(a, b) => supported(*a, caps) && supported(*b, caps),
        Filter::Or(a, b) => supported(*a, caps) && supported(*b, caps),
        Filter::Not(a) => supported(*a, caps),
        Filter::Relation { nested, .. } => supported(*nested, caps),
    }
}

/// The tree traverses at least one relation.
pub open spec fn has_relation(f: Filter) -> bool
    decreases f,
{
    match f {
        Filter::Scalar { .. } => false,
        Filter::And(a, b) => has_relation(*a) || has_relation(*b),
        Filter::Or(a, b) => has_relation(*a) || has_relation(*b),
        Filter::Not(a) => has_relation(*a),
        Filter::Relation { .. } => true,
    }
}

/// The compiled predicate: negation is pushed to the leaves by De Morgan's
/// laws, and relation conditions are wrapped behind their relation.
pub open spec fn lowered(f: Filter, negate: bool) -> Predicate
    decreases f,
{
    match f {
        Filter::Scalar { field, op, value } => Predicate::Compare {
            field,
            op: if negate {
                negated_op(op)
            } else {
                op
            },
            value,
        },
        Filter::And(a, b) => if negate {
            Predicate::Or(Box::new(lowered(*a, true)), Box::new(lowered(*b, true)))
        } else {
            Predicate::And(Box::new(lowered(*a, false)), Box::new(lowered(*b, false)))
        },
        Filter::Or(a, b) => if negate {
            Predicate::And(Box::new(lowered(*a, true)), Box::new(lowered(*b, true)))
        } else {
            Predicate::Or(Box::new(lowered(*a, false)), Box::new(lowered(*b, false)))
        },
        Filter::Not(a) => lowered(*a, !negate),
        Filter::Relation { relation, nested } => Predicate::Within {
            relation,
            inner: Box::new(lowered(*nested, negate)),
        },
    }
}

/// Joins path of a relation reached under `prefix` (the relation path of the
/// enclosing relation conditions, empty at the top).
pub open spec fn relation_path(prefix: Seq<char>, relation: Seq<char>) -> Seq<char> {
    if prefix.len() == 0 {
        relation
    } else {
        prefix + seq!['.'] + relation
    }
}

/// The join requirements of a filter, in discovery order (left to right,
/// outer relation before the relations nested in it), repeats included.
pub open spec fn joins_of(f: Filter, prefix: Seq<char>) -> Seq<Seq<char>>
    decreases f,
{
    match f {
        Filter::Scalar { .. } => seq![],
        Filter::And(a, b) => joins_of(*a, prefix) + joins_of(*b, prefix),
        Filter::Or(a, b) => joins_of(*a, prefix) + joins_of(*b, prefix),
        Filter::Not(a) => joins_of(*a, prefix),
        Filter::Relation { relation, nested } => seq![relation_path(prefix, relation@)]
            + joins_of(*nested, relation_path(prefix, relation@)),
    }
}

/// Number of nodes of a filter tree.
pub open spec fn size(f: Filter) -> nat
    decreases f,
{
    match f {
        Filter::Scalar { .. } => 1,
        Filter::And(a, b) => 1 + size(*a) + size(*b),
        Filter::Or(a, b) => 1 + size(*a) + size(*b),
        Filter::Not(a) => 1 + size(*a),
        Filter::Relation { nested, .. } => 1 + size(*nested),
    }
}

/// The views of a list of strings.
pub open spec fn names(v: Seq<String>) -> Seq<Seq<char>> {
    v.map_values(|s: String| s@)
}

pub proof fn lemma_joins_empty_iff(f: Filter, prefix: Seq<char>)
    ensures
        joins_of(f, prefix).len() == 0 <==> !has_relation(f),
    decreases f,
{
    match f {
        Filter::Scalar { .. } => {},
        Filter::And(a, b) => {
            lemma_joins_empty_iff(*a, prefix);
            lemma_joins_empty_iff(*b, prefix);
        },
        Filter::Or(a, b) => {
            lemma_joins_empty_iff(*a, prefix);
            lemma_joins_empty_iff(*b, prefix);
        },
        Filter::Not(a) => {
            lemma_joins_empty_iff(*a, prefix);
        },
        Filter::Relation { .. } => {},
    }
}

fn relation_path_of(prefix: &String, relation: &String) -> (r: String)
    ensures
        r@ == relation_path(prefix@, relation@),
{
    if prefix.as_str().is_empty() {
        relation.clone()
    } else {
        let mut p = prefix.clone();
        p.append(".");
        p.append(relation.as_str());
        proof {
            reveal_strlit(".");
        }
        p
    }
}

fn lower(f: Filter, negate: bool, prefix: &String, caps: &Capabilities) -> (r: Result<
    (Predicate, Vec<String>),
    QueryError,
>)
    ensures
        supported(f, *caps) ==> (r matches Ok((p, js)) && p == lowered(f, negate) && names(js@)
            == joins_of(f, prefix@)),
        !supported(f, *caps) ==> r == Err::<(Predicate, Vec<String>), QueryError>(
            QueryError::UnsupportedFilterShape,
        ),
    decreases size(f), 0nat,
{
    match f {
        Filter::Scalar { field, op, value } => {
            let supported_op = match op {
                ScalarOp::Contains | ScalarOp::NotContains => caps.string_matching,
                _ => true,
            };
            if !supported_op {
                return Err(QueryError::UnsupportedFilterShape);
            }
            let op = if negate {
                negate_op(op)
            } else {
                op
            };
            let js: Vec<String> = Vec::new();
            proof {
                assert(names(js@) =~= seq![]);
            }
            Ok((Predicate::Compare { field, op, value }, js))
        },
        Filter::And(a, b) => {
            let (pa, pb, js) = lower_pair(*a, *b, negate, prefix, caps)?;
            let p = if !negate {
                Predicate::And(Box::new(pa), Box::new(pb))
            } else {
                Predicate::Or(Box::new(pa), Box::new(pb))
            };
            Ok((p, js))
        },
        Filter::Or(a, b) => {
            let (pa, pb, js) = lower_pair(*a, *b, negate, prefix, caps)?;
            let p = if negate {
                Predicate::And(Box::new(pa), Box::new(pb))
            } else {
                Predicate::Or(Box::new(pa), Box::new(pb))
            };
            Ok((p, js))
        },
        Filter::Not(a) => lower(*a, !negate, prefix, caps),
        Filter::Relation { relation, nested } => {
            let path = relation_path_of(prefix, &relation);
            let (inner, nested_joins) = lower(*nested, negate, &path, caps)?;
            let mut js: Vec<String> = Vec::new();
            js.push(path);
            let ghost js0 = js@;
            let mut nj = nested_joins;
            js.append(&mut nj);
            proof {
                assert(names(js@) =~= names(js0) + names(nested_joins@));
                assert(names(js0) =~= seq![relation_path(prefix@, relation@)]);
            }
            Ok((Predicate::Within { relation, inner: Box::new(inner) }, js))
        },
    }
}

/// Lowers both operands of a binary combinator, joins in left-to-right order.
fn lower_pair(a: Filter, b: Filter, negate: bool, prefix: &String, caps: &Capabilities) -> (r:
    Result<(Predicate, Predicate, Vec<String>), QueryError>)
    ensures
        supported(a, *caps) && supported(b, *caps) ==> (r matches Ok((pa, pb, js)) && pa
            == lowered(a, negate) && pb == lowered(b, negate) && names(js@) == joins_of(a, prefix@)
            + joins_of(b, prefix@)),
        !(supported(a, *caps) && supported(b, *caps)) ==> r == Err::<
            (Predicate, Predicate, Vec<String>),
            QueryError,
        >(QueryError::UnsupportedFilterShape),
    decreases size(a) + size(b), 1nat,
{
    let (pa, mut ja) = lower(a, negate, prefix, caps)?;
    let (pb, mut jb) = lower(b, negate, prefix, caps)?;
    let ghost ja0 = ja@;
    let ghost jb0 = jb@;
    ja.append(&mut jb);
    proof {
        assert(names(ja@) =~= names(ja0) + names(jb0));
    }
    Ok((pa, pb, ja))
}

fn negate_op(op: ScalarOp) -> (r: ScalarOp)
    ensures
        r == negated_op(op),
{
    match op {
        ScalarOp::Equals => ScalarOp::NotEquals,
        ScalarOp::NotEquals => ScalarOp::Equals,
        ScalarOp::LessThan => ScalarOp::GreaterThanOrEqual,
        ScalarOp::LessThanOrEqual => ScalarOp::GreaterThan,
        ScalarOp::GreaterThan => ScalarOp::LessThanOrEqual,
        ScalarOp::GreaterThanOrEqual => ScalarOp::LessThan,
        ScalarOp::Contains => ScalarOp::NotContains,
        ScalarOp::NotContains => ScalarOp::Contains,
    }
}

/// Compiles a filter tree into a native predicate and the join requirements
/// it discovered, in discovery order. `negate` compiles the negation of the
/// filter instead. Fails when an operator has no native lowering.
pub fn convert_filter(f: Filter, negate: bool, caps: &Capabilities) -> (r: Result<
    (Predicate, Vec<String>),
    QueryError,
>)
    ensures
        supported(f, *caps) ==> (r matches Ok((p, js)) && p == lowered(f, negate) && names(js@)
            == joins_of(f, seq![])),
        !supported(f, *caps) ==> r == Err::<(Predicate, Vec<String>), QueryError>(
            QueryError::UnsupportedFilterShape,
        ),
{
    let prefix = String::new();
    lower(f, negate, &prefix, caps)
}

} // verus!
