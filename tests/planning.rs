use query_plan::aggregation::{AggregateOp, AggregationSelection};
use query_plan::error::QueryError;
use query_plan::filter::{convert_filter, Capabilities, Filter, Predicate, ScalarOp, Value};
use query_plan::joins::distinct_names;
use query_plan::pagination::{build_order_by, skip, take, OrderBy, SortField, SortOrder};
use query_plan::plan::{compile_query, MongoQueryArgs, NativePlan, QueryArguments, Stage};

fn s(x: &str) -> String {
    x.to_string()
}

fn caps() -> Capabilities {
    Capabilities { string_matching: true }
}

fn eq(field: &str, value: Value) -> Filter {
    Filter::Scalar { field: s(field), op: ScalarOp::Equals, value }
}

fn rel(relation: &str, nested: Filter) -> Filter {
    Filter::Relation { relation: s(relation), nested: Box::new(nested) }
}

fn args(filter: Option<Filter>, order_by: Vec<OrderBy>, skip: Option<i64>, take: Option<i64>) -> QueryArguments {
    QueryArguments { filter, order_by, skip, take, ignore_skip: false, ignore_take: false }
}

#[test]
fn direct_query_example() {
    let a = args(None, vec![], None, Some(5));
    let plan = compile_query(a, None, vec![], &[], None, &caps()).unwrap();
    assert_eq!(
        plan,
        NativePlan::DirectQuery { predicate: None, projection: None, sort: None, skip: None, limit: Some(5) }
    );
}

#[test]
fn relation_filter_with_count_all_example() {
    let f = rel("relationField", eq("childField", Value::Text(s("x"))));
    let a = args(Some(f), vec![], None, None);
    let aggs = vec![AggregationSelection::Count { all: true, fields: vec![] }];
    let plan = compile_query(a, None, vec![], &aggs, None, &caps()).unwrap();
    let NativePlan::StagedPipeline(stages) = plan else { panic!("expected a pipeline") };
    assert_eq!(stages.len(), 3);
    assert_eq!(stages[0], Stage::Join(s("relationField")));
    assert_eq!(
        stages[1],
        Stage::Match(Predicate::Within {
            relation: s("relationField"),
            inner: Box::new(Predicate::Compare {
                field: s("childField"),
                op: ScalarOp::Equals,
                value: Value::Text(s("x")),
            }),
        })
    );
    let Stage::Group(g) = &stages[2] else { panic!("expected a group stage") };
    assert!(g.keys.is_empty());
    assert_eq!(g.outputs.len(), 1);
    assert_eq!(g.outputs[0].name, "count_all");
    assert_eq!(g.outputs[0].op, AggregateOp::Count);
    assert_eq!(g.outputs[0].field, None);
}

#[test]
fn no_relations_no_aggregations_is_direct() {
    let f = Filter::And(
        Box::new(eq("a", Value::Int(1))),
        Box::new(Filter::Not(Box::new(eq("b", Value::Bool(true))))),
    );
    let order = vec![OrderBy { field: s("a"), sort_order: SortOrder::Descending }];
    let a = args(Some(f), order, Some(2), Some(10));
    let plan = compile_query(a, Some(vec![s("a"), s("b")]), vec![], &[], None, &caps()).unwrap();
    match plan {
        NativePlan::DirectQuery { predicate, projection, sort, skip, limit } => {
            assert_eq!(
                predicate,
                Some(Predicate::And(
                    Box::new(Predicate::Compare { field: s("a"), op: ScalarOp::Equals, value: Value::Int(1) }),
                    Box::new(Predicate::Compare { field: s("b"), op: ScalarOp::NotEquals, value: Value::Bool(true) }),
                ))
            );
            assert_eq!(projection, Some(vec![s("a"), s("b")]));
            assert_eq!(sort, Some(vec![SortField { field: s("a"), sort_order: SortOrder::Descending }]));
            assert_eq!(skip, Some(2));
            assert_eq!(limit, Some(10));
        }
        NativePlan::StagedPipeline(_) => panic!("expected a direct query"),
    }
}

#[test]
fn one_join_per_distinct_relation() {
    let f = Filter::Or(
        Box::new(rel("posts", eq("title", Value::Text(s("a"))))),
        Box::new(Filter::And(
            Box::new(rel("posts", eq("published", Value::Bool(true)))),
            Box::new(rel("author", eq("name", Value::Null))),
        )),
    );
    let a = args(Some(f), vec![], None, None);
    let q = MongoQueryArgs::new(a, &caps()).unwrap();
    assert_eq!(q.joins, vec![s("posts"), s("author")]);
    assert!(q.query.is_none());
    assert_eq!(q.join_filters.len(), 1);
    let NativePlan::StagedPipeline(stages) = q.into_plan() else { panic!("expected a pipeline") };
    let joins: Vec<&Stage> = stages.iter().filter(|st| matches!(st, Stage::Join(_))).collect();
    assert_eq!(joins, vec![&Stage::Join(s("posts")), &Stage::Join(s("author"))]);
}

#[test]
fn nested_relations_join_by_path() {
    let f = rel("a", rel("b", eq("c", Value::Int(3))));
    let (p, joins) = convert_filter(f, false, &caps()).unwrap();
    assert_eq!(joins, vec![s("a"), s("a.b")]);
    assert_eq!(
        p,
        Predicate::Within {
            relation: s("a"),
            inner: Box::new(Predicate::Within {
                relation: s("b"),
                inner: Box::new(Predicate::Compare { field: s("c"), op: ScalarOp::Equals, value: Value::Int(3) }),
            }),
        }
    );
}

#[test]
fn negation_is_pushed_to_the_leaves() {
    let f = Filter::Not(Box::new(Filter::Or(
        Box::new(Filter::Scalar { field: s("x"), op: ScalarOp::LessThan, value: Value::Int(1) }),
        Box::new(Filter::Not(Box::new(Filter::Scalar {
            field: s("y"),
            op: ScalarOp::Contains,
            value: Value::Text(s("z")),
        }))),
    )));
    let (p, joins) = convert_filter(f, false, &caps()).unwrap();
    assert!(joins.is_empty());
    assert_eq!(
        p,
        Predicate::And(
            Box::new(Predicate::Compare { field: s("x"), op: ScalarOp::GreaterThanOrEqual, value: Value::Int(1) }),
            Box::new(Predicate::Compare { field: s("y"), op: ScalarOp::Contains, value: Value::Text(s("z")) }),
        )
    );
}

#[test]
fn unsupported_operator_is_refused() {
    let f = Filter::Scalar { field: s("x"), op: ScalarOp::NotContains, value: Value::Text(s("q")) };
    let no_matching = Capabilities { string_matching: false };
    assert_eq!(convert_filter(f, false, &no_matching), Err(QueryError::UnsupportedFilterShape));
    let f = Filter::Scalar { field: s("x"), op: ScalarOp::Contains, value: Value::Text(s("q")) };
    let a = args(Some(f), vec![], None, None);
    assert_eq!(compile_query(a, None, vec![], &[], None, &no_matching), Err(QueryError::UnsupportedFilterShape));
}

#[test]
fn reverse_pagination_inverts_order() {
    let order = vec![OrderBy { field: s("f"), sort_order: SortOrder::Ascending }];
    let q = MongoQueryArgs::new(args(None, order, None, Some(-3)), &caps()).unwrap();
    assert_eq!(q.order, Some(vec![SortField { field: s("f"), sort_order: SortOrder::Descending }]));
    assert_eq!(q.limit, Some(3));

    let order = vec![OrderBy { field: s("f"), sort_order: SortOrder::Ascending }];
    let q = MongoQueryArgs::new(args(None, order, None, Some(3)), &caps()).unwrap();
    assert_eq!(q.order, Some(vec![SortField { field: s("f"), sort_order: SortOrder::Ascending }]));
    assert_eq!(q.limit, Some(3));
}

#[test]
fn reverse_pagination_keeps_key_priority() {
    let order = vec![
        OrderBy { field: s("a"), sort_order: SortOrder::Descending },
        OrderBy { field: s("b"), sort_order: SortOrder::Ascending },
    ];
    assert_eq!(
        build_order_by(order, true),
        Some(vec![
            SortField { field: s("a"), sort_order: SortOrder::Ascending },
            SortField { field: s("b"), sort_order: SortOrder::Descending },
        ])
    );
    assert_eq!(build_order_by(vec![], true), None);
}

#[test]
fn skip_and_take_directives() {
    assert_eq!(skip(Some(4), false), Some(4));
    assert_eq!(skip(Some(4), true), None);
    assert_eq!(skip(Some(0), false), Some(0));
    assert_eq!(take(Some(-7), false), Some(7));
    assert_eq!(take(Some(7), true), None);
    assert_eq!(take(None, false), None);
    assert_eq!(take(Some(i64::MAX), false), Some(i64::MAX));
    assert_eq!(take(Some(i64::MIN + 1), false), Some(i64::MAX));
}

#[test]
fn ignored_skip_and_take_leave_arguments_unchanged() {
    let a = QueryArguments {
        filter: None,
        order_by: vec![],
        skip: Some(3),
        take: Some(4),
        ignore_skip: true,
        ignore_take: true,
    };
    let q = MongoQueryArgs::new(a, &caps()).unwrap();
    assert_eq!(q.skip, None);
    assert_eq!(q.limit, None);
}

#[test]
fn having_without_grouping_fails() {
    let q = MongoQueryArgs::new(args(None, vec![], None, None), &caps()).unwrap();
    let having = Some(eq("count_all", Value::Int(1)));
    assert_eq!(q.with_having(having, &caps()), Err(QueryError::InvalidPlanCombination));

    let having = Some(eq("count_all", Value::Int(1)));
    let a = args(None, vec![], None, None);
    assert_eq!(compile_query(a, None, vec![], &[], having, &caps()), Err(QueryError::InvalidPlanCombination));
}

#[test]
fn aggregate_output_names() {
    let aggs = vec![
        AggregationSelection::Field(s("id")),
        AggregationSelection::Sum(vec![s("x"), s("y")]),
        AggregationSelection::Count { all: true, fields: vec![s("z")] },
        AggregationSelection::Average(vec![s("x")]),
        AggregationSelection::Min(vec![s("m")]),
        AggregationSelection::Max(vec![s("m")]),
    ];
    let q = MongoQueryArgs::new(args(None, vec![], None, None), &caps()).unwrap();
    let q = q.with_groupings(vec![s("k")], &aggs);
    assert_eq!(q.aggregations.len(), 1);
    let g = &q.aggregations[0];
    assert_eq!(g.keys, vec![s("k")]);
    let names: Vec<&str> = g.outputs.iter().map(|o| o.name.as_str()).collect();
    assert_eq!(names, vec!["sum_x", "sum_y", "count_all", "count_z", "avg_x", "min_m", "max_m"]);
    assert_eq!(g.outputs[0].field, Some(s("x")));
    assert_eq!(g.outputs[4].op, AggregateOp::Average);
}

#[test]
fn full_pipeline_stage_order() {
    let f = Filter::And(Box::new(eq("a", Value::Int(1))), Box::new(rel("r", eq("b", Value::Int(2)))));
    let order = vec![OrderBy { field: s("sum_v"), sort_order: SortOrder::Ascending }];
    let a = args(Some(f), order, Some(1), Some(2));
    let aggs = vec![AggregationSelection::Sum(vec![s("v")])];
    let having = Some(Filter::Scalar { field: s("sum_v"), op: ScalarOp::GreaterThan, value: Value::Int(0) });
    let plan = compile_query(a, Some(vec![s("sum_v"), s("sum_v")]), vec![s("g")], &aggs, having, &caps()).unwrap();
    let NativePlan::StagedPipeline(stages) = plan else { panic!("expected a pipeline") };
    let kinds: Vec<&str> = stages
        .iter()
        .map(|st| match st {
            Stage::Match(_) => "match",
            Stage::Join(_) => "join",
            Stage::Group(_) => "group",
            Stage::Sort(_) => "sort",
            Stage::Skip(_) => "skip",
            Stage::Limit(_) => "limit",
            Stage::Project(_) => "project",
        })
        .collect();
    assert_eq!(kinds, vec!["join", "match", "group", "match", "sort", "skip", "limit", "project"]);
    assert_eq!(stages[5], Stage::Skip(1));
    assert_eq!(stages[6], Stage::Limit(2));
    assert_eq!(stages[7], Stage::Project(vec![s("sum_v")]));
    assert_eq!(
        stages[3],
        Stage::Match(Predicate::Compare { field: s("sum_v"), op: ScalarOp::GreaterThan, value: Value::Int(0) })
    );
}

#[test]
fn pre_join_match_comes_first() {
    let a = args(Some(eq("a", Value::Int(1))), vec![], None, None);
    let aggs = vec![AggregationSelection::Max(vec![s("v")])];
    let plan = compile_query(a, None, vec![], &aggs, None, &caps()).unwrap();
    let NativePlan::StagedPipeline(stages) = plan else { panic!("expected a pipeline") };
    assert_eq!(stages.len(), 2);
    assert_eq!(
        stages[0],
        Stage::Match(Predicate::Compare { field: s("a"), op: ScalarOp::Equals, value: Value::Int(1) })
    );
    assert!(matches!(stages[1], Stage::Group(_)));
}

#[test]
fn empty_sort_and_projection_are_omitted() {
    let mut q = MongoQueryArgs::new(args(Some(rel("r", eq("x", Value::Int(1)))), vec![], None, None), &caps()).unwrap();
    q.order = Some(vec![]);
    q.projection = Some(vec![]);
    let stages = q.pipeline_stages();
    assert_eq!(stages.len(), 2);
}

#[test]
fn compiling_twice_gives_identical_plans() {
    let build = || {
        let f = Filter::Or(Box::new(rel("p", eq("t", Value::Int(1)))), Box::new(rel("q", eq("u", Value::Int(2)))));
        let order = vec![OrderBy { field: s("t"), sort_order: SortOrder::Descending }];
        args(Some(f), order, Some(3), Some(-4))
    };
    let aggs = vec![AggregationSelection::Count { all: true, fields: vec![s("t")] }];
    let p1 = compile_query(build(), Some(vec![s("t")]), vec![s("t")], &aggs, None, &caps()).unwrap();
    let p2 = compile_query(build(), Some(vec![s("t")]), vec![s("t")], &aggs, None, &caps()).unwrap();
    assert_eq!(p1, p2);
}

#[test]
fn distinct_names_keeps_first_mentions() {
    let v = vec![s("b"), s("a"), s("b"), s("c"), s("a")];
    assert_eq!(distinct_names(&v), vec![s("b"), s("a"), s("c")]);
    assert!(distinct_names(&vec![]).is_empty());
}

#[test]
fn reverse_paging_without_ordering_fails() {
    let q = MongoQueryArgs::new(args(None, vec![], None, Some(-5)), &caps());
    assert_eq!(q, Err(QueryError::InvalidPlanCombination));
    let a = args(Some(eq("a", Value::Int(1))), vec![], None, Some(-1));
    assert_eq!(compile_query(a, None, vec![], &[], None, &caps()), Err(QueryError::InvalidPlanCombination));
    let ignored = QueryArguments {
        filter: None,
        order_by: vec![],
        skip: None,
        take: Some(-5),
        ignore_skip: false,
        ignore_take: true,
    };
    assert!(MongoQueryArgs::new(ignored, &caps()).is_ok());
}

#[test]
fn count_all_is_emitted_once() {
    let aggs = vec![
        AggregationSelection::Count { all: true, fields: vec![s("a")] },
        AggregationSelection::Count { all: true, fields: vec![s("a"), s("b")] },
    ];
    let q = MongoQueryArgs::new(args(None, vec![], None, None), &caps()).unwrap();
    let q = q.with_groupings(vec![], &aggs);
    let names: Vec<&str> = q.aggregations[0].outputs.iter().map(|o| o.name.as_str()).collect();
    assert_eq!(names, vec!["count_all", "count_a", "count_b"]);
}

#[test]
fn having_with_relation_is_refused() {
    let q = MongoQueryArgs::new(args(None, vec![], None, None), &caps()).unwrap();
    let q = q.with_groupings(vec![], &[AggregationSelection::Count { all: true, fields: vec![] }]);
    let having = Some(rel("r", eq("x", Value::Int(1))));
    assert_eq!(q.with_having(having, &caps()), Err(QueryError::UnsupportedFilterShape));
}
