use vstd::prelude::*;

use crate::aggregation::{build_group, outputs_spec, outputs_view, AggregationSelection, GroupSpec};
use crate::error::QueryError;
use crate::filter::{
    convert_filter, has_relation, joins_of, lemma_joins_empty_iff, lowered, names, supported,
    Capabilities, Filter, Predicate,
};
use crate::joins::{dedup, distinct_names};
use crate::pagination::{
    build_order_by, is_reverse, limit_matches, order_spec, skip, skip_spec, take, take_spec,
    OrderBy, SortField,
};

verus! {

/// A backend-agnostic read request.
#[derive(Debug, PartialEq, Eq)]
pub struct QueryArguments {
    pub filter: Option<Filter>,
    pub order_by: Vec<OrderBy>,
    pub skip: Option<i64>,
    /// The sign gives the paging direction, the magnitude the row limit.
    pub take: Option<i64>,
    pub ignore_skip: bool,
    pub ignore_take: bool,
}

/// Translated query arguments, from which either a direct read or a staged
/// pipeline is assembled.
#[derive(Debug, PartialEq, Eq)]
pub struct MongoQueryArgs {
    /// Filter that runs on the base records, before any join.
    pub query: Option<Predicate>,
    /// Relation paths to join, one per distinct path, in discovery order.
    pub joins: Vec<String>,
    /// Filters that need the joined data.
    pub join_filters: Vec<Predicate>,
    /// Grouping stages.
    pub aggregations: Vec<GroupSpec>,
    /// Filters over the grouping outputs.
    pub aggregation_filters: Vec<Predicate>,
    pub order: Option<Vec<SortField>>,
    pub skip: Option<i64>,
    pub limit: Option<i64>,
    /// Output fields.
    pub projection: Option<Vec<String>>,
}

/// One step of a staged pipeline.
#[derive(Debug, PartialEq, Eq)]
pub enum Stage {
    Match(Predicate),
    Join(String),
    Group(GroupSpec),
    Sort(Vec<SortField>),
    Skip(i64),
    Limit(i64),
    Project(Vec<String>),
}

/// The plan handed to the backend.
#[derive(Debug, PartialEq, Eq)]
pub enum NativePlan {
    DirectQuery {
        predicate: Option<Predicate>,
        projection: Option<Vec<String>>,
        sort: Option<Vec<SortField>>,
        skip: Option<i64>,
        limit: Option<i64>,
    },
    StagedPipeline(Vec<Stage>),
}

pub open spec fn filter_supported(filter: Option<Filter>, caps: Capabilities) -> bool {
    match filter {
        Some(f) => supported(f, caps),
        None => true,
    }
}

pub open spec fn filter_has_relation(filter: Option<Filter>) -> bool {
    match filter {
        Some(f) => has_relation(f),
        None => false,
    }
}

/// The join paths a filter needs, repeats included, in discovery order.
pub open spec fn filter_joins(filter: Option<Filter>) -> Seq<Seq<char>> {
    match filter {
        Some(f) => joins_of(f, seq![]),
        None => seq![],
    }
}

/// What compiling `args` gives: the filter runs before any join when it
/// traverses no relation, and after the joins otherwise; ordering, skip and
/// limit follow the pagination rules.
pub open spec fn compiled_core(args: QueryArguments, q: MongoQueryArgs) -> bool {
    let reverse = is_reverse(args.take);
    &&& match (q.order, order_spec(args.order_by@, reverse)) {
        (Some(v), Some(s)) => v@ == s,
        (None, None) => true,
        _ => false,
    }
    &&& q.skip == skip_spec(args.skip, args.ignore_skip)
    &&& limit_matches(q.limit, take_spec(args.take, args.ignore_take))
    &&& names(q.joins@) == dedup(filter_joins(args.filter))
    &&& match args.filter {
        None => q.query is None && q.join_filters@.len() == 0,
        Some(f) => if has_relation(f) {
            q.query is None && q.join_filters@ == seq![lowered(f, false)]
        } else {
            q.query == Some(lowered(f, false)) && q.join_filters@.len() == 0
        },
    }
}

/// `compiled_core`, with nothing grouped or projected yet.
pub open spec fn compiled(args: QueryArguments, q: MongoQueryArgs) -> bool {
    &&& compiled_core(args, q)
    &&& q.aggregations@.len() == 0
    &&& q.aggregation_filters@.len() == 0
    &&& q.projection is None
}

/// A having-filter runs on the grouping outputs, where no join can feed a
/// relation condition: it must traverse no relation, and its operators must
/// have a native lowering.
pub open spec fn having_lowerable(f: Filter, caps: Capabilities) -> bool {
    supported(f, caps) && !has_relation(f)
}

/// The outcome of adding a having-filter: nothing changes without one; one
/// needs a grouping before it, and operators that the backend can lower; it
/// is then added after the earlier ones.
pub open spec fn having_added(
    q: MongoQueryArgs,
    having: Option<Filter>,
    caps: Capabilities,
    r: Result<MongoQueryArgs, QueryError>,
) -> bool {
    match having {
        None => r == Ok::<MongoQueryArgs, QueryError>(q),
        Some(f) => if q.aggregations@.len() == 0 {
            r == Err::<MongoQueryArgs, QueryError>(QueryError::InvalidPlanCombination)
        } else if !having_lowerable(f, caps) {
            r == Err::<MongoQueryArgs, QueryError>(QueryError::UnsupportedFilterShape)
        } else {
            r == Ok::<MongoQueryArgs, QueryError>(
                MongoQueryArgs {
                    aggregation_filters: r->Ok_0.aggregation_filters,
                    ..q
                },
            ) && r->Ok_0.aggregation_filters@ == q.aggregation_filters@.push(lowered(f, false))
        },
    }
}

/// Asking for the last rows (a negative take that is not ignored) with no
/// ordering to reverse.
pub open spec fn reverse_without_order(args: QueryArguments) -> bool {
    is_reverse(args.take) && !args.ignore_take && args.order_by@.len() == 0
}

/// Why `args` cannot be compiled, if it cannot: an operator of the filter
/// that the backend cannot lower, then reverse paging with no ordering.
pub open spec fn arguments_error(args: QueryArguments, caps: Capabilities) -> Option<QueryError> {
    if !filter_supported(args.filter, caps) {
        Some(QueryError::UnsupportedFilterShape)
    } else if reverse_without_order(args) {
        Some(QueryError::InvalidPlanCombination)
    } else {
        None
    }
}

/// A plan is read directly when there is nothing to join and nothing to group.
pub open spec fn selects_direct(q: MongoQueryArgs) -> bool {
    q.joins@.len() == 0 && q.aggregations@.len() == 0
}

pub open spec fn match_stages(v: Seq<Predicate>) -> Seq<Stage> {
    v.map_values(|p: Predicate| Stage::Match(p))
}

pub open spec fn join_stages(v: Seq<String>) -> Seq<Stage> {
    v.map_values(|j: String| Stage::Join(j))
}

pub open spec fn group_stages(v: Seq<GroupSpec>) -> Seq<Stage> {
    v.map_values(|g: GroupSpec| Stage::Group(g))
}

pub open spec fn optional_stage(s: Option<Stage>) -> Seq<Stage> {
    match s {
        Some(x) => seq![x],
        None => seq![],
    }
}

pub open spec fn initial_match(query: Option<Predicate>) -> Option<Stage> {
    match query {
        Some(p) => Some(Stage::Match(p)),
        None => None,
    }
}

pub open spec fn sort_stage(order: Option<Vec<SortField>>) -> Option<Stage> {
    match order {
        Some(v) => if v@.len() > 0 {
            Some(Stage::Sort(v))
        } else {
            None
        },
        None => None,
    }
}

pub open spec fn skip_stage(value: Option<i64>) -> Option<Stage> {
    match value {
        Some(n) => Some(Stage::Skip(n)),
        None => None,
    }
}

pub open spec fn limit_stage(value: Option<i64>) -> Option<Stage> {
    match value {
        Some(n) => Some(Stage::Limit(n)),
        None => None,
    }
}

pub open spec fn project_stage(projection: Option<Vec<String>>) -> Option<Stage> {
    match projection {
        Some(v) => if v@.len() > 0 {
            Some(Stage::Project(v))
        } else {
            None
        },
        None => None,
    }
}

/// The pipeline in its fixed order: initial match, joins, post-join matches,
/// grouping, having matches, sort, skip, limit, projection. Empty steps are
/// left out.
pub open spec fn stages_spec(q: MongoQueryArgs) -> Seq<Stage> {
    optional_stage(initial_match(q.query)) + join_stages(q.joins@) + match_stages(q.join_filters@)
        + group_stages(q.aggregations@) + match_stages(q.aggregation_filters@) + optional_stage(
        sort_stage(q.order),
    ) + optional_stage(skip_stage(q.skip)) + optional_stage(limit_stage(q.limit))
        + optional_stage(project_stage(q.projection))
}

/// The plan chosen for `q`.
pub open spec fn plan_matches(q: MongoQueryArgs, plan: NativePlan) -> bool {
    if selects_direct(q) {
        plan == NativePlan::DirectQuery {
            predicate: q.query,
            projection: q.projection,
            sort: q.order,
            skip: q.skip,
            limit: q.limit,
        }
    } else {
        plan matches NativePlan::StagedPipeline(v) && v@ == stages_spec(q)
    }
}

fn push_optional(out: &mut Vec<Stage>, s: Option<Stage>)
    ensures
        final(out)@ == old(out)@ + optional_stage(s),
{
    match s {
        Some(x) => {
            out.push(x);
        },
        None => {},
    }
    proof {
        assert(final(out)@ =~= old(out)@ + optional_stage(s));
    }
}

fn push_matches(out: &mut Vec<Stage>, preds: Vec<Predicate>)
    ensures
        final(out)@ == old(out)@ + match_stages(preds@),
{
    let ghost start = out@;
    let mut rest = preds;
    let ghost all = rest@;
    while rest.len() > 0
        invariant
            out@ == start + match_stages(all.take(all.len() - rest@.len())),
            rest@ == all.skip(all.len() - rest@.len()),
            rest@.len() <= all.len(),
        decreases rest@.len(),
    {
        let ghost done = all.len() - rest@.len();
        let p = rest.remove(0);
        proof {
            assert(p == all[done]);
        }
        out.push(Stage::Match(p));
        proof {
            assert(all.take(done + 1) =~= all.take(done).push(p));
            assert(match_stages(all.take(done + 1)) =~= match_stages(all.take(done)).push(Stage::Match(p)));
            assert(rest@ =~= all.skip(done + 1));
        }
    }
    proof {
        assert(all.take(all.len() as int) =~= all);
    }
}

fn push_joins(out: &mut Vec<Stage>, joins: Vec<String>)
    ensures
        final(out)@ == old(out)@ + join_stages(joins@),
{
    let ghost start = out@;
    let mut rest = joins;
    let ghost all = rest@;
    while rest.len() > 0
        invariant
            out@ == start + join_stages(all.take(all.len() - rest@.len())),
            rest@ == all.skip(all.len() - rest@.len()),
            rest@.len() <= all.len(),
        decreases rest@.len(),
    {
        let ghost done = all.len() - rest@.len();
        let j = rest.remove(0);
        proof {
            assert(j == all[done]);
        }
        out.push(Stage::Join(j));
        proof {
            assert(all.take(done + 1) =~= all.take(done).push(j));
            assert(join_stages(all.take(done + 1)) =~= join_stages(all.take(done)).push(Stage::Join(j)));
            assert(rest@ =~= all.skip(done + 1));
        }
    }
    proof {
        assert(all.take(all.len() as int) =~= all);
    }
}

fn push_groups(out: &mut Vec<Stage>, groups: Vec<GroupSpec>)
    ensures
        final(out)@ == old(out)@ + group_stages(groups@),
{
    let ghost start = out@;
    let mut rest = groups;
    let ghost all = rest@;
    while rest.len() > 0
        invariant
            out@ == start + group_stages(all.take(all.len() - rest@.len())),
            rest@ == all.skip(all.len() - rest@.len()),
            rest@.len() <= all.len(),
        decreases rest@.len(),
    {
        let ghost done = all.len() - rest@.len();
        let g = rest.remove(0);
        proof {
            assert(g == all[done]);
        }
        out.push(Stage::Group(g));
        proof {
            assert(all.take(done + 1) =~= all.take(done).push(g));
            assert(group_stages(all.take(done + 1)) =~= group_stages(all.take(done)).push(Stage::Group(g)));
            assert(rest@ =~= all.skip(done + 1));
        }
    }
    proof {
        assert(all.take(all.len() as int) =~= all);
    }
}

impl MongoQueryArgs {
    /// Compiles the filter, ordering and pagination of `args`.
    /// Fails with `UnsupportedFilterShape` when the filter uses an operator
    /// the backend cannot lower.
    pub fn new(args: QueryArguments, caps: &Capabilities) -> (r: Result<MongoQueryArgs, QueryError>)
        requires
            args.take != Some(i64::MIN),
        ensures
            match arguments_error(args, *caps) {
                Some(e) => r == Err::<MongoQueryArgs, QueryError>(e),
                None => r matches Ok(q) && compiled(args, q),
            },
    {
        let reverse_order = match args.take {
            Some(t) => t < 0,
            None => false,
        };
        let no_ordering = args.order_by.len() == 0;
        let order = build_order_by(args.order_by, reverse_order);
        let mut joins: Vec<String> = Vec::new();
        let mut post_filters: Vec<Predicate> = Vec::new();
        let query = match args.filter {
            Some(filter) => {
                let ghost f = filter;
                let (predicate, filter_joins) = convert_filter(filter, false, caps)?;
                proof {
                    lemma_joins_empty_iff(f, seq![]);
                }
                joins = distinct_names(&filter_joins);
                if filter_joins.len() > 0 {
                    post_filters.push(predicate);
                    None
                } else {
                    Some(predicate)
                }
            },
            None => None,
        };
        proof {
            assert(reverse_order == is_reverse(args.take));
            assert(no_ordering == (args.order_by@.len() == 0));
        }
        if reverse_order && !args.ignore_take && no_ordering {
            return Err(QueryError::InvalidPlanCombination);
        }
        proof {
            assert(names(joins@) =~= dedup(filter_joins(args.filter))) by {
                if args.filter is None {
                    assert(names(joins@) =~= seq![]);
                }
            }
        }
        Ok(MongoQueryArgs {
            query,
            joins,
            join_filters: post_filters,
            aggregations: Vec::new(),
            aggregation_filters: Vec::new(),
            order,
            skip: skip(args.skip, args.ignore_skip),
            limit: take(args.take, args.ignore_take),
            projection: None,
        })
    }

    /// Adds a final projection onto the given output fields, each name once,
    /// in the order of first mention.
    pub fn with_model_projection(self, selected_fields: Vec<String>) -> (r: Self)
        ensures
            r.projection matches Some(p) && names(p@) == dedup(names(selected_fields@)),
            r.query == self.query,
            r.joins == self.joins,
            r.join_filters == self.join_filters,
            r.aggregations == self.aggregations,
            r.aggregation_filters == self.aggregation_filters,
            r.order == self.order,
            r.skip == self.skip,
            r.limit == self.limit,
    {
        let projection = distinct_names(&selected_fields);
        MongoQueryArgs { projection: Some(projection), ..self }
    }

    /// Adds a grouping stage over `by_fields` with the outputs of the given
    /// aggregation selections.
    pub fn with_groupings(self, by_fields: Vec<String>, aggregations: &[AggregationSelection]) -> (r:
        Self)
        ensures
            r.aggregations@.len() == self.aggregations@.len() + 1,
            r.aggregations@.drop_last() == self.aggregations@,
            r.aggregations@.last().keys == by_fields,
            outputs_view(r.aggregations@.last().outputs@) == outputs_spec(aggregations@),
            r.query == self.query,
            r.joins == self.joins,
            r.join_filters == self.join_filters,
            r.aggregation_filters == self.aggregation_filters,
            r.order == self.order,
            r.skip == self.skip,
            r.limit == self.limit,
            r.projection == self.projection,
    {
        let group = build_group(by_fields, aggregations);
        let mut this = self;
        this.aggregations.push(group);
        proof {
            assert(this.aggregations@.drop_last() =~= self.aggregations@);
        }
        this
    }

    /// Adds a filter over the grouping outputs. A having-filter with no
    /// grouping fails with `InvalidPlanCombination`; one that traverses a
    /// relation, or has an operator the backend cannot lower, fails with
    /// `UnsupportedFilterShape`.
    pub fn with_having(self, having: Option<Filter>, caps: &Capabilities) -> (r: Result<
        Self,
        QueryError,
    >)
        ensures
            having_added(self, having, *caps, r),
    {
        match having {
            None => Ok(self),
            Some(filter) => {
                if self.aggregations.len() == 0 {
                    return Err(QueryError::InvalidPlanCombination);
                }
                let ghost f = filter;
                let (predicate, having_joins) = convert_filter(filter, false, caps)?;
                proof {
                    lemma_joins_empty_iff(f, seq![]);
                }
                if having_joins.len() > 0 {
                    return Err(QueryError::UnsupportedFilterShape);
                }
                let mut this = self;
                this.aggregation_filters.push(predicate);
                Ok(this)
            },
        }
    }

    /// The stages of the pipeline, in their fixed order.
    pub fn pipeline_stages(self) -> (r: Vec<Stage>)
        ensures
            r@ == stages_spec(self),
    {
        let mut stages: Vec<Stage> = Vec::new();
        let first = match self.query {
            Some(p) => Some(Stage::Match(p)),
            None => None,
        };
        push_optional(&mut stages, first);
        push_joins(&mut stages, self.joins);
        push_matches(&mut stages, self.join_filters);
        push_groups(&mut stages, self.aggregations);
        push_matches(&mut stages, self.aggregation_filters);
        let sort = match self.order {
            Some(v) => if v.len() > 0 {
                Some(Stage::Sort(v))
            } else {
                None
            },
            None => None,
        };
        push_optional(&mut stages, sort);
        let skip_s = match self.skip {
            Some(n) => Some(Stage::Skip(n)),
            None => None,
        };
        push_optional(&mut stages, skip_s);
        let limit_s = match self.limit {
            Some(n) => Some(Stage::Limit(n)),
            None => None,
        };
        push_optional(&mut stages, limit_s);
        let project = match self.projection {
            Some(v) => if v.len() > 0 {
                Some(Stage::Project(v))
            } else {
                None
            },
            None => None,
        };
        push_optional(&mut stages, project);
        stages
    }

    /// Chooses the execution strategy: a direct read when there is nothing
    /// to join and nothing to group, a staged pipeline otherwise.
    pub fn into_plan(self) -> (r: NativePlan)
        ensures
            plan_matches(self, r),
    {
        if self.joins.len() == 0 && self.aggregations.len() == 0 {
            NativePlan::DirectQuery {
                predicate: self.query,
                projection: self.projection,
                sort: self.order,
                skip: self.skip,
                limit: self.limit,
            }
        } else {
            NativePlan::StagedPipeline(self.pipeline_stages())
        }
    }
}

} // verus!

verus! {

pub open spec fn having_supported(having: Option<Filter>, caps: Capabilities) -> bool {
    match having {
        Some(f) => having_lowerable(f, caps),
        None => true,
    }
}

/// The translated arguments of a whole request: `args` as compiled by
/// `compiled_core`; one grouping stage over `group_by` when aggregations
/// are selected, none otherwise; the having-filter after it; and the
/// projection onto the distinct output fields.
pub open spec fn request_compiled(
    args: QueryArguments,
    projection: Option<Vec<String>>,
    group_by: Vec<String>,
    aggregations: Seq<AggregationSelection>,
    having: Option<Filter>,
    q: MongoQueryArgs,
) -> bool {
    &&& compiled_core(args, q)
    &&& if aggregations.len() == 0 {
        q.aggregations@.len() == 0
    } else {
        &&& q.aggregations@.len() == 1
        &&& q.aggregations@[0].keys == group_by
        &&& outputs_view(q.aggregations@[0].outputs@) == outputs_spec(aggregations)
    }
    &&& match having {
        Some(f) => q.aggregation_filters@ == seq![lowered(f, false)],
        None => q.aggregation_filters@.len() == 0,
    }
    &&& match projection {
        Some(fields) => q.projection matches Some(p) && names(p@) == dedup(names(fields@)),
        None => q.projection is None,
    }
}

/// Why a request is refused, if it is: first `arguments_error`, then a
/// having-filter without aggregations, then a having-filter that the
/// backend cannot lower.
pub open spec fn request_error(
    args: QueryArguments,
    aggregations: Seq<AggregationSelection>,
    having: Option<Filter>,
    caps: Capabilities,
) -> Option<QueryError> {
    if arguments_error(args, caps) is Some {
        arguments_error(args, caps)
    } else if having is Some && aggregations.len() == 0 {
        Some(QueryError::InvalidPlanCombination)
    } else if !having_supported(having, caps) {
        Some(QueryError::UnsupportedFilterShape)
    } else {
        None
    }
}

/// Compiles a whole read request into a native plan: filter, ordering and
/// pagination from `args`, a grouping stage when aggregations are selected,
/// the having-filter, and the output projection.
pub fn compile_query(
    args: QueryArguments,
    projection: Option<Vec<String>>,
    group_by: Vec<String>,
    aggregations: &[AggregationSelection],
    having: Option<Filter>,
    caps: &Capabilities,
) -> (r: Result<NativePlan, QueryError>)
    requires
        args.take != Some(i64::MIN),
    ensures
        match request_error(args, aggregations@, having, *caps) {
            Some(e) => r == Err::<NativePlan, QueryError>(e),
            None => r matches Ok(plan) && exists|q: MongoQueryArgs|
                #[trigger] request_compiled(args, projection, group_by, aggregations@, having, q)
                    && plan_matches(q, plan),
        },
{
    let ghost a = args;
    let q = MongoQueryArgs::new(args, caps)?;
    let q = if aggregations.len() > 0 {
        q.with_groupings(group_by, aggregations)
    } else {
        q
    };
    let ghost q1 = q;
    let q = q.with_having(having, caps)?;
    proof {
        if having is Some {
            assert(q.aggregation_filters@ =~= q1.aggregation_filters@.push(lowered(having->Some_0, false)));
            assert(q1.aggregation_filters@.len() == 0);
            assert(q.aggregation_filters@ =~= seq![lowered(having->Some_0, false)]);
        }
        assert(compiled_core(a, q));
    }
    let q = match projection {
        Some(fields) => q.with_model_projection(fields),
        None => q,
    };
    let ghost gq = q;
    proof {
        assert(request_compiled(a, projection, group_by, aggregations@, having, gq));
    }
    Ok(q.into_plan())
}

} // verus!
