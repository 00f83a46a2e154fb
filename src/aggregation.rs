use vstd::prelude::*;

use crate::joins::{dedup, lemma_dedup};

verus! {

/// One requested aggregation.
#[derive(Debug, PartialEq, Eq)]
pub enum AggregationSelection {
    /// A plain output field; not aggregated.
    Field(String),
    /// Counts per field, and with `all` also the number of rows.
    Count { all: bool, fields: Vec<String> },
    Average(Vec<String>),
    Sum(Vec<String>),
    Min(Vec<String>),
    Max(Vec<String>),
}

#[derive(Clone, Copy, Debug, PartialEq, Eq, Structural)]
pub enum AggregateOp {
    Count,
    Average,
    Sum,
    Min,
    Max,
}

/// One named output of the grouping stage. `field` is `None` only for the
/// row count of the whole group.
#[derive(Debug, PartialEq, Eq)]
pub struct AggregateOutput {
    pub name: String,
    pub op: AggregateOp,
    pub field: Option<String>,
}

/// A grouping stage. Empty `keys` group the whole result set into one group.
#[derive(Debug, PartialEq, Eq)]
pub struct GroupSpec {
    pub keys: Vec<String>,
    pub outputs: Vec<AggregateOutput>,
}

pub open spec fn op_name(op: AggregateOp) -> Seq<char> {
    match op {
        AggregateOp::Count => "count"@,
        AggregateOp::Average => "avg"@,
        AggregateOp::Sum => "sum"@,
        AggregateOp::Min => "min"@,
        AggregateOp::Max => "max"@,
    }
}

/// The output name of an aggregate: `{operator}_{field}`.
pub open spec fn pair_name(op: AggregateOp, field: Seq<char>) -> Seq<char> {
    op_name(op) + "_"@ + field
}

/// The name of the row count of a group.
pub open spec fn count_all_name() -> Seq<char> {
    "count_all"@
}

/// What an output is: its operator, its field and its name.
pub type OutputView = (AggregateOp, Option<Seq<char>>, Seq<char>);

pub open spec fn output_view(o: AggregateOutput) -> OutputView {
    (
        o.op,
        match o.field {
            Some(f) => Some(f@),
            None => None,
        },
        o.name@,
    )
}

pub open spec fn outputs_view(v: Seq<AggregateOutput>) -> Seq<OutputView> {
    v.map_values(|o: AggregateOutput| output_view(o))
}

/// One output per field, in field order.
pub open spec fn pairs_spec(op: AggregateOp, fields: Seq<String>) -> Seq<OutputView> {
    fields.map_values(|f: String| (op, Some(f@), pair_name(op, f@)))
}

/// The outputs one selection contributes; plain fields contribute none.
pub open spec fn selection_outputs(sel: AggregationSelection) -> Seq<OutputView> {
    match sel {
        AggregationSelection::Field(_) => seq![],
        AggregationSelection::Count { all, fields } => (if all {
            seq![(AggregateOp::Count, None, count_all_name())]
        } else {
            seq![]
        }) + pairs_spec(AggregateOp::Count, fields@),
        AggregationSelection::Average(fields) => pairs_spec(AggregateOp::Average, fields@),
        AggregationSelection::Sum(fields) => pairs_spec(AggregateOp::Sum, fields@),
        AggregationSelection::Min(fields) => pairs_spec(AggregateOp::Min, fields@),
        AggregationSelection::Max(fields) => pairs_spec(AggregateOp::Max, fields@),
    }
}

/// The outputs of all selections, in selection order, repeats included.
pub open spec fn selected_outputs(sels: Seq<AggregationSelection>) -> Seq<OutputView>
    decreases sels.len(),
{
    if sels.len() == 0 {
        seq![]
    } else {
        selected_outputs(sels.drop_last()) + selection_outputs(sels.last())
    }
}

pub open spec fn output_names(v: Seq<OutputView>) -> Seq<Seq<char>> {
    v.map_values(|o: OutputView| o.2)
}

/// The first output of each name, in order.
pub open spec fn first_by_name(v: Seq<OutputView>) -> Seq<OutputView>
    decreases v.len(),
{
    if v.len() == 0 {
        seq![]
    } else {
        let d = first_by_name(v.drop_last());
        if output_names(d).contains(v.last().2) {
            d
        } else {
            d.push(v.last())
        }
    }
}

/// The outputs of the grouping stage: one per name, the first selected.
pub open spec fn outputs_spec(sels: Seq<AggregationSelection>) -> Seq<OutputView> {
    first_by_name(selected_outputs(sels))
}

proof fn lemma_first_by_name(v: Seq<OutputView>)
    ensures
        output_names(first_by_name(v)) == dedup(output_names(v)),
    decreases v.len(),
{
    if v.len() == 0 {
        assert(output_names(first_by_name(v)) =~= seq![]);
        assert(output_names(v) =~= seq![]);
    } else {
        lemma_first_by_name(v.drop_last());
        let n = output_names(v);
        assert(n.drop_last() =~= output_names(v.drop_last()));
        assert(n.last() == v.last().2);
        let d = first_by_name(v.drop_last());
        if !output_names(d).contains(v.last().2) {
            assert(output_names(d.push(v.last())) =~= output_names(d).push(v.last().2));
        }
    }
}

/// Output names of a grouping stage are distinct.
pub proof fn lemma_output_names_distinct(sels: Seq<AggregationSelection>)
    ensures
        output_names(outputs_spec(sels)).no_duplicates(),
{
    lemma_first_by_name(selected_outputs(sels));
    lemma_dedup(output_names(selected_outputs(sels)));
}

fn contains_output_name(v: &Vec<AggregateOutput>, name: &String) -> (r: bool)
    ensures
        r == output_names(outputs_view(v@)).contains(name@),
{
    let mut i: usize = 0;
    while i < v.len()
        invariant
            i <= v@.len(),
            forall|k: int| 0 <= k < i ==> v@[k].name@ != name@,
        decreases v@.len() - i,
    {
        if v[i].name == *name {
            proof {
                assert(output_names(outputs_view(v@))[i as int] == name@);
            }
            return true;
        }
        i += 1;
    }
    proof {
        if output_names(outputs_view(v@)).contains(name@) {
            let k = choose|k: int|
                0 <= k < output_names(outputs_view(v@)).len() && output_names(outputs_view(v@))[k]
                    == name@;
            assert(v@[k].name@ == name@);
        }
    }
    false
}

/// Keeps the first output of each name.
fn distinct_outputs(v: Vec<AggregateOutput>) -> (r: Vec<AggregateOutput>)
    ensures
        outputs_view(r@) == first_by_name(outputs_view(v@)),
{
    let ghost all = v@;
    let mut rest = v;
    let mut out: Vec<AggregateOutput> = Vec::new();
    proof {
        assert(outputs_view(out@) =~= seq![]);
        assert(outputs_view(all.take(0)) =~= seq![]);
    }
    while rest.len() > 0
        invariant
            rest@.len() <= all.len(),
            rest@ == all.skip(all.len() - rest@.len()),
            outputs_view(out@) == first_by_name(outputs_view(all.take(all.len() - rest@.len()))),
        decreases rest@.len(),
    {
        let ghost done = all.len() - rest@.len();
        let o = rest.remove(0);
        let ghost x = outputs_view(all.take(done + 1));
        proof {
            assert(o == all[done]);
            assert(x.drop_last() =~= outputs_view(all.take(done)));
            assert(x.last() == output_view(o));
            assert(rest@ =~= all.skip(done + 1));
        }
        if !contains_output_name(&out, &o.name) {
            let ghost before = out@;
            out.push(o);
            proof {
                assert(outputs_view(out@) =~= outputs_view(before).push(output_view(o)));
            }
        }
    }
    proof {
        assert(all.take(all.len() as int) =~= all);
    }
    out
}

fn op_string(op: AggregateOp) -> (r: String)
    ensures
        r@ == op_name(op),
{
    match op {
        AggregateOp::Count => String::from_str("count"),
        AggregateOp::Average => String::from_str("avg"),
        AggregateOp::Sum => String::from_str("sum"),
        AggregateOp::Min => String::from_str("min"),
        AggregateOp::Max => String::from_str("max"),
    }
}

/// The named outputs of `op` over each field, in field order.
pub fn aggregation_pairs(op: AggregateOp, fields: &Vec<String>) -> (r: Vec<AggregateOutput>)
    ensures
        outputs_view(r@) == pairs_spec(op, fields@),
{
    let mut out: Vec<AggregateOutput> = Vec::new();
    let mut i: usize = 0;
    while i < fields.len()
        invariant
            i <= fields@.len(),
            outputs_view(out@) == pairs_spec(op, fields@.take(i as int)),
        decreases fields@.len() - i,
    {
        let field = fields[i].clone();
        let mut name = op_string(op);
        name.append("_");
        name.append(field.as_str());
        let ghost o = out@;
        out.push(AggregateOutput { name, op, field: Some(field) });
        proof {
            assert(outputs_view(out@) =~= outputs_view(o).push(output_view(out@.last())));
            assert(pairs_spec(op, fields@.take(i + 1)) =~= pairs_spec(op, fields@.take(i as int)).push(
                (op, Some(fields@[i as int]@), pair_name(op, fields@[i as int]@)),
            ));
        }
        i += 1;
    }
    proof {
        assert(fields@.take(fields@.len() as int) =~= fields@);
    }
    out
}

fn append_outputs(out: &mut Vec<AggregateOutput>, more: Vec<AggregateOutput>)
    ensures
        outputs_view(final(out)@) == outputs_view(old(out)@) + outputs_view(more@),
{
    let mut more = more;
    let ghost m = more@;
    out.append(&mut more);
    proof {
        assert(outputs_view(final(out)@) =~= outputs_view(old(out)@) + outputs_view(m));
    }
}

/// Compiles group-by fields and aggregation selections into a grouping
/// stage: the fields become the group key, and every selection but a plain
/// field adds its named outputs. Each name is emitted once (the row count
/// `count_all` included), by the first selection that asks for it.
pub fn build_group(by_fields: Vec<String>, aggregations: &[AggregationSelection]) -> (r: GroupSpec)
    ensures
        r.keys == by_fields,
        outputs_view(r.outputs@) == outputs_spec(aggregations@),
        output_names(outputs_view(r.outputs@)).no_duplicates(),
{
    let mut outputs: Vec<AggregateOutput> = Vec::new();
    let mut i: usize = 0;
    while i < aggregations.len()
        invariant
            i <= aggregations@.len(),
            outputs_view(outputs@) == selected_outputs(aggregations@.take(i as int)),
        decreases aggregations@.len() - i,
    {
        let ghost before = outputs@;
        match &aggregations[i] {
            AggregationSelection::Field(_) => {},
            AggregationSelection::Count { all, fields } => {
                if *all {
                    let name = String::from_str("count_all");
                    outputs.push(AggregateOutput { name, op: AggregateOp::Count, field: None });
                }
                let ghost mid = outputs@;
                proof {
                    assert(outputs_view(mid) =~= outputs_view(before) + (if *all {
                        seq![(AggregateOp::Count, None, count_all_name())]
                    } else {
                        seq![]
                    }));
                }
                append_outputs(&mut outputs, aggregation_pairs(AggregateOp::Count, fields));
            },
            AggregationSelection::Average(fields) => {
                append_outputs(&mut outputs, aggregation_pairs(AggregateOp::Average, fields));
            },
            AggregationSelection::Sum(fields) => {
                append_outputs(&mut outputs, aggregation_pairs(AggregateOp::Sum, fields));
            },
            AggregationSelection::Min(fields) => {
                append_outputs(&mut outputs, aggregation_pairs(AggregateOp::Min, fields));
            },
            AggregationSelection::Max(fields) => {
                append_outputs(&mut outputs, aggregation_pairs(AggregateOp::Max, fields));
            },
        }
        proof {
            let t = aggregations@.take(i + 1);
            assert(t.drop_last() =~= aggregations@.take(i as int));
            assert(outputs_view(outputs@) =~= outputs_view(before) + selection_outputs(
                aggregations@[i as int],
            ));
        }
        i += 1;
    }
    proof {
        assert(aggregations@.take(aggregations@.len() as int) =~= aggregations@);
        lemma_output_names_distinct(aggregations@);
    }
    let outputs = distinct_outputs(outputs);
    GroupSpec { keys: by_fields, outputs }
}

} // verus!
