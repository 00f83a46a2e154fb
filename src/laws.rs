use vstd::prelude::*;

use crate::aggregation::{outputs_view, AggregationSelection};
use crate::filter::{lemma_joins_empty_iff, names, Filter};
use crate::joins::{dedup, lemma_dedup};
use crate::pagination::{
    invert, is_reverse, limit_matches, order_spec, sort_fields_spec, take_spec, OrderBy,
    SortOrder,
};
use crate::plan::{
    compiled, filter_has_relation, filter_joins, group_stages, initial_match, join_stages, limit_stage,
    match_stages, optional_stage, plan_matches, project_stage, request_compiled, selects_direct,
    skip_stage, sort_stage, stages_spec, MongoQueryArgs, NativePlan, QueryArguments, Stage,
};

verus! {

/// The relation paths of the join stages of a pipeline, in stage order.
pub open spec fn join_paths(s: Seq<Stage>) -> Seq<Seq<char>>
    decreases s.len(),
{
    if s.len() == 0 {
        seq![]
    } else {
        join_paths(s.drop_last()) + match s.last() {
            Stage::Join(j) => seq![j@],
            _ => seq![],
        }
    }
}

proof fn lemma_join_paths_add(a: Seq<Stage>, b: Seq<Stage>)
    ensures
        join_paths(a + b) == join_paths(a) + join_paths(b),
    decreases b.len(),
{
    if b.len() == 0 {
        assert(a + b =~= a);
        assert(join_paths(b) =~= seq![]);
        assert(join_paths(a) + join_paths(b) =~= join_paths(a));
    } else {
        lemma_join_paths_add(a, b.drop_last());
        assert((a + b).drop_last() =~= a + b.drop_last());
        assert((a + b).last() == b.last());
    }
}

proof fn lemma_join_paths_none(s: Seq<Stage>)
    requires
        forall|i: int| 0 <= i < s.len() ==> !(#[trigger] s[i] is Join),
    ensures
        join_paths(s) == Seq::<Seq<char>>::empty(),
    decreases s.len(),
{
    if s.len() > 0 {
        lemma_join_paths_none(s.drop_last());
        assert(!(s[s.len() - 1] is Join));
        assert(join_paths(s) =~= seq![]);
    }
}

proof fn lemma_join_paths_joins(v: Seq<String>)
    ensures
        join_paths(join_stages(v)) == names(v),
    decreases v.len(),
{
    if v.len() > 0 {
        lemma_join_paths_joins(v.drop_last());
        assert(join_stages(v).drop_last() =~= join_stages(v.drop_last()));
        assert(names(v) =~= names(v.drop_last()) + seq![v.last()@]);
    } else {
        assert(names(v) =~= seq![]);
    }
}

#[verifier::rlimit(60)]
proof fn lemma_pipeline_join_paths(q: MongoQueryArgs)
    ensures
        join_paths(stages_spec(q)) == names(q.joins@),
{
    let s1 = optional_stage(initial_match(q.query));
    let s2 = join_stages(q.joins@);
    let s3 = match_stages(q.join_filters@);
    let s4 = group_stages(q.aggregations@);
    let s5 = match_stages(q.aggregation_filters@);
    let s6 = optional_stage(sort_stage(q.order));
    let s7 = optional_stage(skip_stage(q.skip));
    let s8 = optional_stage(limit_stage(q.limit));
    let s9 = optional_stage(project_stage(q.projection));
    let rest = s3 + s4 + s5 + s6 + s7 + s8 + s9;
    assert(stages_spec(q) =~= s1 + (s2 + rest));
    assert forall|i: int| 0 <= i < rest.len() implies !(#[trigger] rest[i] is Join) by {}
    assert forall|i: int| 0 <= i < s1.len() implies !(#[trigger] s1[i] is Join) by {}
    lemma_join_paths_none(rest);
    lemma_join_paths_none(s1);
    lemma_join_paths_joins(q.joins@);
    lemma_join_paths_add(s2, rest);
    lemma_join_paths_add(s1, s2 + rest);
    assert(join_paths(stages_spec(q)) =~= names(q.joins@));
}

proof fn lemma_filter_joins_empty(filter: Option<Filter>)
    ensures
        filter_joins(filter).len() == 0 <==> !filter_has_relation(filter),
{
    if let Some(f) = filter {
        lemma_joins_empty_iff(f, seq![]);
    }
}

/// A request whose filter traverses no relation and that selects no
/// aggregation is planned as one direct read.
pub proof fn direct_without_relations(
    args: QueryArguments,
    projection: Option<Vec<String>>,
    group_by: Vec<String>,
    aggregations: Seq<AggregationSelection>,
    having: Option<Filter>,
    q: MongoQueryArgs,
    plan: NativePlan,
)
    requires
        request_compiled(args, projection, group_by, aggregations, having, q),
        plan_matches(q, plan),
        !filter_has_relation(args.filter),
        aggregations.len() == 0,
    ensures
        selects_direct(q),
        plan is DirectQuery,
{
    lemma_filter_joins_empty(args.filter);
    assert(filter_joins(args.filter) =~= seq![]);
    assert(dedup(seq![]) =~= seq![]);
    assert(names(q.joins@).len() == q.joins@.len());
}

/// A request whose filter traverses a relation is planned as a pipeline
/// with exactly one join stage for each distinct relation path traversed,
/// however many conditions traverse it.
pub proof fn one_join_per_relation(
    args: QueryArguments,
    projection: Option<Vec<String>>,
    group_by: Vec<String>,
    aggregations: Seq<AggregationSelection>,
    having: Option<Filter>,
    q: MongoQueryArgs,
    plan: NativePlan,
)
    requires
        request_compiled(args, projection, group_by, aggregations, having, q),
        plan_matches(q, plan),
        filter_has_relation(args.filter),
    ensures
        plan matches NativePlan::StagedPipeline(stages) && join_paths(stages@).no_duplicates()
            && forall|x: Seq<char>|
            join_paths(stages@).contains(x) <==> filter_joins(args.filter).contains(x),
{
    let fj = filter_joins(args.filter);
    lemma_filter_joins_empty(args.filter);
    lemma_dedup(fj);
    assert(fj.contains(fj[0]));
    assert(names(q.joins@).len() == q.joins@.len());
    assert(!selects_direct(q));
    lemma_pipeline_join_paths(q);
}

/// The translation `new` gives for arguments whose filter traverses no
/// relation has nothing to join and nothing to group, and its filter (if
/// any) runs on the base records: it is read directly.
pub proof fn new_without_relations_is_direct(args: QueryArguments, q: MongoQueryArgs)
    requires
        compiled(args, q),
        !filter_has_relation(args.filter),
    ensures
        selects_direct(q),
        q.join_filters@.len() == 0,
{
    lemma_filter_joins_empty(args.filter);
    assert(filter_joins(args.filter) =~= seq![]);
    assert(dedup(seq![]) =~= seq![]);
    assert(names(q.joins@).len() == q.joins@.len());
}

/// The translation `new` gives holds one join per distinct relation path
/// that the filter traverses, however many conditions traverse it.
pub proof fn new_joins_each_relation_once(args: QueryArguments, q: MongoQueryArgs)
    requires
        compiled(args, q),
    ensures
        names(q.joins@).no_duplicates(),
        forall|x: Seq<char>| names(q.joins@).contains(x) <==> filter_joins(args.filter).contains(x),
{
    lemma_dedup(filter_joins(args.filter));
}

/// `new` on the same arguments gives the same translation.
pub proof fn new_is_deterministic(args: QueryArguments, q1: MongoQueryArgs, q2: MongoQueryArgs)
    requires
        compiled(args, q1),
        compiled(args, q2),
    ensures
        same_translation(q1, q2),
{
    let t = take_spec(args.take, args.ignore_take);
    assert(limit_matches(q1.limit, t) && limit_matches(q2.limit, t));
    assert(q1.aggregations@ =~= q2.aggregations@);
    assert(q1.aggregation_filters@ =~= q2.aggregation_filters@);
    assert(q1.join_filters@ =~= q2.join_filters@);
    assert(match (q1.order, q2.order) {
        (Some(x), Some(y)) => x@ == y@,
        (None, None) => true,
        _ => false,
    });
}

/// Paging backwards by `n` inverts every sort direction and keeps the
/// fields and their priority, with `n` as the limit; paging forwards by `n`
/// keeps every direction, with the same limit. So one ascending key becomes
/// one descending key.
pub proof fn reverse_pagination(orderings: Seq<OrderBy>, field: String, n: i64)
    requires
        n > 0,
    ensures
        take_spec(Some((-n) as i64), false) == Some(n as int),
        take_spec(Some(n), false) == Some(n as int),
        orderings.len() > 0 ==> (order_spec(orderings, is_reverse(Some((-n) as i64))) matches Some(s)
            && s.len() == orderings.len() && forall|i: int|
            0 <= i < s.len() ==> s[i].field == orderings[i].field && #[trigger] s[i].sort_order
                == invert(orderings[i].sort_order)),
        orderings.len() > 0 ==> order_spec(orderings, is_reverse(Some(n))) == Some(
            orderings.map_values(
                |o: OrderBy| crate::pagination::SortField { field: o.field, sort_order: o.sort_order },
            ),
        ),
        order_spec(seq![OrderBy { field, sort_order: SortOrder::Ascending }], is_reverse(Some((-n) as i64)))
            == Some(
            seq![crate::pagination::SortField { field, sort_order: SortOrder::Descending }],
        ),
{
    let one = seq![OrderBy { field, sort_order: SortOrder::Ascending }];
    assert(sort_fields_spec(one, true) =~= seq![
        crate::pagination::SortField { field, sort_order: SortOrder::Descending },
    ]);
    if orderings.len() > 0 {
        assert(sort_fields_spec(orderings, false) =~= orderings.map_values(
            |o: OrderBy| crate::pagination::SortField { field: o.field, sort_order: o.sort_order },
        ));
    }
}

/// Where a stage kind stands in the fixed pipeline order; matches, which
/// may stand in several places, have no rank.
pub open spec fn stage_rank(s: Stage) -> int {
    match s {
        Stage::Match(_) => 0,
        Stage::Join(_) => 2,
        Stage::Group(_) => 4,
        Stage::Sort(_) => 6,
        Stage::Skip(_) => 7,
        Stage::Limit(_) => 8,
        Stage::Project(_) => 9,
    }
}

/// A sort or projection stage has something to sort by or to keep.
pub open spec fn stage_not_empty(s: Stage) -> bool {
    match s {
        Stage::Sort(v) => v@.len() > 0,
        Stage::Project(v) => v@.len() > 0,
        _ => true,
    }
}

/// The kind of stage each of the nine steps emits.
spec fn fits_step(s: Stage, step: int) -> bool {
    match s {
        Stage::Match(_) => step == 1 || step == 3 || step == 5,
        Stage::Join(_) => step == 2,
        Stage::Group(_) => step == 4,
        Stage::Sort(v) => step == 6 && v@.len() > 0,
        Stage::Skip(_) => step == 7,
        Stage::Limit(_) => step == 8,
        Stage::Project(v) => step == 9 && v@.len() > 0,
    }
}

/// Stage kinds keep the fixed pipeline order: joins, grouping, sort, skip,
/// limit and projection come in that order, each of the last four at most
/// once; no match comes after the sort, skip, limit or projection; only one
/// match can come before the joins; and no sort or projection is empty.
pub proof fn pipeline_stage_order(q: MongoQueryArgs)
    ensures
        forall|i: int, j: int|
            0 <= i < j < stages_spec(q).len() ==> {
                let a = #[trigger] stages_spec(q)[i];
                let b = #[trigger] stages_spec(q)[j];
                &&& stage_rank(a) > 0 && stage_rank(b) > 0 ==> stage_rank(a) <= stage_rank(b)
                &&& stage_rank(a) >= 6 ==> stage_rank(a) < stage_rank(b)
                &&& b is Match ==> stage_rank(a) <= 4
            },
        forall|i: int, j: int, k: int|
            0 <= i < j < k < stages_spec(q).len() && #[trigger] stages_spec(q)[i] is Match
                && #[trigger] stages_spec(q)[j] is Match ==> !(#[trigger] stages_spec(q)[k] is Join),
        forall|i: int| 0 <= i < stages_spec(q).len() ==> stage_not_empty(#[trigger] stages_spec(q)[i]),
{
    let s1 = optional_stage(initial_match(q.query));
    let s2 = join_stages(q.joins@);
    let s3 = match_stages(q.join_filters@);
    let s4 = group_stages(q.aggregations@);
    let s5 = match_stages(q.aggregation_filters@);
    let s6 = optional_stage(sort_stage(q.order));
    let s7 = optional_stage(skip_stage(q.skip));
    let s8 = optional_stage(limit_stage(q.limit));
    let s9 = optional_stage(project_stage(q.projection));
    let p2 = s1 + s2;
    let p3 = p2 + s3;
    let p4 = p3 + s4;
    let p5 = p4 + s5;
    let p6 = p5 + s6;
    let p7 = p6 + s7;
    let p8 = p7 + s8;
    let s = p8 + s9;
    assert(s =~= stages_spec(q));
    let b1 = s1.len() as int;
    let b2 = p2.len() as int;
    let b3 = p3.len() as int;
    let b4 = p4.len() as int;
    let b5 = p5.len() as int;
    let b6 = p6.len() as int;
    let b7 = p7.len() as int;
    let b8 = p8.len() as int;
    let b9 = s.len() as int;
    let step = |i: int|
        if i < b1 {
            1int
        } else if i < b2 {
            2int
        } else if i < b3 {
            3int
        } else if i < b4 {
            4int
        } else if i < b5 {
            5int
        } else if i < b6 {
            6int
        } else if i < b7 {
            7int
        } else if i < b8 {
            8int
        } else {
            9int
        };
    assert(b1 <= 1 && b6 - b5 <= 1 && b7 - b6 <= 1 && b8 - b7 <= 1 && b9 - b8 <= 1);
    assert forall|i: int| 0 <= i < b9 implies fits_step(#[trigger] s[i], step(i)) by {
        if i < b8 {
            assert(s[i] == p8[i]);
            if i < b7 {
                assert(p8[i] == p7[i]);
                if i < b6 {
                    assert(p7[i] == p6[i]);
                    if i < b5 {
                        assert(p6[i] == p5[i]);
                        if i < b4 {
                            assert(p5[i] == p4[i]);
                            if i < b3 {
                                assert(p4[i] == p3[i]);
                                if i < b2 {
                                    assert(p3[i] == p2[i]);
                                    if i < b1 {
                                        assert(p2[i] == s1[i]);
                                    } else {
                                        assert(p2[i] == s2[i - b1]);
                                    }
                                } else {
                                    assert(p3[i] == s3[i - b2]);
                                }
                            } else {
                                assert(p4[i] == s4[i - b3]);
                            }
                        } else {
                            assert(p5[i] == s5[i - b4]);
                        }
                    } else {
                        assert(p6[i] == s6[i - b5]);
                    }
                } else {
                    assert(p7[i] == s7[i - b6]);
                }
            } else {
                assert(p8[i] == s8[i - b7]);
            }
        } else {
            assert(s[i] == s9[i - b8]);
        }
    }
    assert forall|i: int, j: int| 0 <= i < j < b9 implies #[trigger] step(i) <= #[trigger] step(j) && (
    step(i) == 1 || step(i) >= 6 ==> step(i) < step(j)) by {}
    assert forall|i: int, j: int| 0 <= i < j < b9 implies {
        let a = #[trigger] s[i];
        let b = #[trigger] s[j];
        &&& stage_rank(a) > 0 && stage_rank(b) > 0 ==> stage_rank(a) <= stage_rank(b)
        &&& stage_rank(a) >= 6 ==> stage_rank(a) < stage_rank(b)
        &&& b is Match ==> stage_rank(a) <= 4
    } by {
        assert(fits_step(s[i], step(i)));
        assert(fits_step(s[j], step(j)));
        assert(step(i) <= step(j));
    }
    assert forall|i: int, j: int, k: int|
        0 <= i < j < k < b9 && #[trigger] s[i] is Match && #[trigger] s[j] is Match implies !(
        #[trigger] s[k] is Join) by {
        assert(fits_step(s[i], step(i)));
        assert(fits_step(s[j], step(j)));
        assert(fits_step(s[k], step(k)));
        assert(step(i) <= step(j) && step(j) <= step(k));
        assert(step(i) == 1 ==> step(i) < step(j));
    }
    assert forall|i: int| 0 <= i < b9 implies stage_not_empty(#[trigger] s[i]) by {
        assert(fits_step(s[i], step(i)));
    }
}

/// Two translations say the same thing: equal predicates, stage contents
/// and limits, and the same names (relation paths, group keys, aggregate
/// output names, sort keys, output fields) in the same order.
pub open spec fn same_translation(a: MongoQueryArgs, b: MongoQueryArgs) -> bool {
    &&& a.query == b.query
    &&& names(a.joins@) == names(b.joins@)
    &&& a.join_filters@ == b.join_filters@
    &&& a.aggregations@.len() == b.aggregations@.len()
    &&& forall|i: int|
        0 <= i < a.aggregations@.len() ==> (#[trigger] a.aggregations@[i]).keys == b.aggregations@[i].keys
            && outputs_view(a.aggregations@[i].outputs@) == outputs_view(b.aggregations@[i].outputs@)
    &&& a.aggregation_filters@ == b.aggregation_filters@
    &&& match (a.order, b.order) {
        (Some(x), Some(y)) => x@ == y@,
        (None, None) => true,
        _ => false,
    }
    &&& a.skip == b.skip
    &&& a.limit == b.limit
    &&& match (a.projection, b.projection) {
        (Some(x), Some(y)) => names(x@) == names(y@),
        (None, None) => true,
        _ => false,
    }
}

/// Compiling the same request twice gives the same translation, and so the
/// same strategy and the same stages in the same order.
pub proof fn compilation_is_deterministic(
    args: QueryArguments,
    projection: Option<Vec<String>>,
    group_by: Vec<String>,
    aggregations: Seq<AggregationSelection>,
    having: Option<Filter>,
    q1: MongoQueryArgs,
    q2: MongoQueryArgs,
)
    requires
        request_compiled(args, projection, group_by, aggregations, having, q1),
        request_compiled(args, projection, group_by, aggregations, having, q2),
    ensures
        same_translation(q1, q2),
        selects_direct(q1) == selects_direct(q2),
{
    assert(names(q1.joins@).len() == q1.joins@.len());
    assert(names(q2.joins@).len() == q2.joins@.len());
    let t = take_spec(args.take, args.ignore_take);
    assert(limit_matches(q1.limit, t) && limit_matches(q2.limit, t));
    assert(q1.limit == q2.limit);
    if aggregations.len() > 0 {
        assert(q1.aggregations@[0].keys == q2.aggregations@[0].keys);
    }
    assert(q1.aggregation_filters@ =~= q2.aggregation_filters@);
    assert(q1.query == q2.query);
    assert(names(q1.joins@) == names(q2.joins@));
    assert(q1.join_filters@ =~= q2.join_filters@);
    assert(q1.skip == q2.skip);
    assert(match (q1.order, q2.order) {
        (Some(x), Some(y)) => x@ == y@,
        (None, None) => true,
        _ => false,
    });
    assert(match (q1.projection, q2.projection) {
        (Some(x), Some(y)) => names(x@) == names(y@),
        (None, None) => true,
        _ => false,
    });
}

} // verus!
