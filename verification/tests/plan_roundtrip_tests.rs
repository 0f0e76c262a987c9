use planwire::consumer::from_portable_plan;
use planwire::expr::{Expr, FrameBound, FrameUnit, PExpr, WhenThen, WindowFrame};
use planwire::literal::EngineLiteral;
use planwire::plan::{JoinType, PEmit, PRel, Plan, SetKind, SortKey};
use planwire::producer::to_portable_plan;
use planwire::table_ref::TableRef;
use planwire::types::{EField, EngineType};

fn field(name: &str, ty: EngineType) -> EField {
    EField { name: String::from(name), ty, nullable: true }
}

fn scan(table: &str) -> Plan {
    Plan::Read {
        table: TableRef::bare(String::from(table)),
        schema: vec![field("a", EngineType::Int64), field("b", EngineType::Int64)],
    }
}

fn col(name: &str) -> Expr {
    Expr::Column { name: String::from(name) }
}

fn lit_i64(v: i64) -> Expr {
    Expr::Literal(EngineLiteral::Int64(Some(v)))
}

fn fun(name: &str, args: Vec<Expr>) -> Expr {
    Expr::ScalarFn {
        name: String::from(name),
        signature: String::from("any"),
        args,
        ret: EngineType::Bool,
        ret_nullable: true,
    }
}

fn roundtrip(plan: Plan) -> Plan {
    let pp = to_portable_plan(&plan).expect("plan must produce");
    let back = from_portable_plan(&pp).expect("portable plan must consume");
    assert_eq!(back, plan);
    back
}

#[test]
fn scan_roundtrips() {
    roundtrip(scan("data"));
}

#[test]
fn qualified_scan_roundtrips() {
    let plan = Plan::Read {
        table: TableRef::full(
            String::from("catalog"),
            String::from("public"),
            String::from("data"),
        ),
        schema: vec![field("a", EngineType::Int64)],
    };
    roundtrip(plan);
}

#[test]
fn filter_roundtrips() {
    let plan = Plan::Filter {
        input: Box::new(scan("data")),
        predicate: fun("gt", vec![col("a"), lit_i64(1)]),
    };
    roundtrip(plan);
}

#[test]
fn projection_with_canonical_names_roundtrips() {
    let plan = Plan::Project {
        input: Box::new(scan("data")),
        exprs: vec![col("b"), fun("abs", vec![col("a")])],
        names: vec![String::from("b"), String::from("abs")],
    };
    roundtrip(plan);
}

#[test]
fn fetch_roundtrips() {
    let plan = Plan::Fetch { input: Box::new(scan("data")), offset: 10, count: Some(200) };
    roundtrip(plan);
    let no_limit = Plan::Fetch { input: Box::new(scan("data")), offset: 5, count: None };
    roundtrip(no_limit);
}

#[test]
fn cast_and_literal_roundtrip() {
    let plan = Plan::Project {
        input: Box::new(scan("data")),
        exprs: vec![
            Expr::Cast {
                input: Box::new(col("a")),
                ty: EngineType::Int32,
                nullable: true,
                safe: true,
            },
            lit_i64(42),
        ],
        names: vec![String::from("a"), String::from("literal")],
    };
    roundtrip(plan);
}

#[test]
fn sort_roundtrips() {
    let plan = Plan::Sort {
        input: Box::new(scan("data")),
        keys: vec![
            SortKey { expr: col("b"), asc: true, nulls_first: false },
            SortKey { expr: col("a"), asc: false, nulls_first: true },
        ],
    };
    roundtrip(plan);
}

#[test]
fn sort_then_fetch_roundtrips() {
    let plan = Plan::Fetch {
        input: Box::new(Plan::Sort {
            input: Box::new(Plan::Filter {
                input: Box::new(scan("data")),
                predicate: fun("gt", vec![col("a"), lit_i64(1)]),
            }),
            keys: vec![SortKey { expr: col("b"), asc: true, nulls_first: false }],
        }),
        offset: 1,
        count: Some(2),
    };
    roundtrip(plan);
}

#[test]
fn case_when_roundtrips() {
    let case = Expr::Case {
        branches: vec![
            WhenThen { when: fun("gt", vec![col("a"), lit_i64(0)]), value: lit_i64(1) },
            WhenThen { when: fun("gt", vec![col("b"), lit_i64(0)]), value: lit_i64(2) },
        ],
        otherwise: Some(Box::new(lit_i64(0))),
        ret: EngineType::Int64,
        ret_nullable: false,
    };
    let plan = Plan::Project {
        input: Box::new(scan("data")),
        exprs: vec![case],
        names: vec![String::from("case")],
    };
    roundtrip(plan);
}

#[test]
fn case_without_else_roundtrips() {
    let case = Expr::Case {
        branches: vec![WhenThen { when: col("a"), value: lit_i64(1) }],
        otherwise: None,
        ret: EngineType::Int64,
        ret_nullable: true,
    };
    let plan = Plan::Filter {
        input: Box::new(scan("data")),
        predicate: Expr::Case {
            branches: vec![WhenThen { when: col("a"), value: col("b") }],
            otherwise: None,
            ret: EngineType::Bool,
            ret_nullable: true,
        },
    };
    roundtrip(plan);
    let project = Plan::Project {
        input: Box::new(scan("data")),
        exprs: vec![case],
        names: vec![String::from("case")],
    };
    roundtrip(project);
}

#[test]
fn join_of_distinct_tables_roundtrips() {
    let right = Plan::Read {
        table: TableRef::bare(String::from("data2")),
        schema: vec![field("c", EngineType::Int64), field("d", EngineType::Int64)],
    };
    let plan = Plan::Join {
        left: Box::new(scan("data")),
        right: Box::new(right),
        jt: JoinType::Inner,
        on: fun("eq", vec![col("a"), col("c")]),
    };
    roundtrip(plan);
}

#[test]
fn window_frame_with_degenerate_bounds_roundtrips() {
    // Both bounds "following" select no ordinary rows; the frame must be
    // preserved all the same.
    let frame = WindowFrame {
        unit: FrameUnit::Rows,
        lower: FrameBound::Following(1),
        upper: FrameBound::Following(5),
    };
    let w = Expr::WindowFn {
        name: String::from("sum"),
        signature: String::from("i64"),
        args: vec![col("a")],
        frame,
        ret: EngineType::Int64,
        ret_nullable: true,
    };
    let plan = Plan::Project {
        input: Box::new(scan("data")),
        exprs: vec![w],
        names: vec![String::from("sum")],
    };
    let pp = to_portable_plan(&plan).unwrap();
    match &pp.root {
        PRel::Project { exprs, .. } => match &exprs[0] {
            PExpr::WindowFn { frame: f, .. } => assert_eq!(*f, frame),
            other => panic!("expected a window function, got {other:?}"),
        },
        other => panic!("expected a projection, got {other:?}"),
    }
    let back = from_portable_plan(&pp).unwrap();
    assert_eq!(back, plan);
}

#[test]
fn reused_functions_share_one_anchor() {
    let pred = fun(
        "and",
        vec![fun("gt", vec![col("a"), lit_i64(1)]), fun("gt", vec![col("b"), lit_i64(0)])],
    );
    let plan = Plan::Filter { input: Box::new(scan("data")), predicate: pred };
    let pp = to_portable_plan(&plan).unwrap();
    assert_eq!(pp.extensions.len(), 2);
    assert_eq!(pp.extensions[0].name, "and");
    assert_eq!(pp.extensions[1].name, "gt");
    roundtrip(plan);
}

#[test]
fn producing_twice_gives_identical_envelopes() {
    let plan = Plan::Filter {
        input: Box::new(scan("data")),
        predicate: fun("gt", vec![col("a"), lit_i64(1)]),
    };
    let once = to_portable_plan(&plan).unwrap();
    let twice = to_portable_plan(&plan).unwrap();
    assert_eq!(once, twice);
}

#[test]
fn nested_unions_flatten_to_one_set_node() {
    let plan = Plan::SetOp {
        kind: SetKind::UnionDistinct,
        left: Box::new(Plan::SetOp {
            kind: SetKind::UnionDistinct,
            left: Box::new(scan("data")),
            right: Box::new(scan("data")),
        }),
        right: Box::new(scan("data")),
    };
    let pp = to_portable_plan(&plan).unwrap();
    match &pp.root {
        PRel::SetRel { inputs, kind, .. } => {
            assert_eq!(inputs.len(), 3);
            assert_eq!(*kind, SetKind::UnionDistinct);
        },
        other => panic!("expected a flattened set relation, got {other:?}"),
    }
    let back = from_portable_plan(&pp).unwrap();
    assert_eq!(back, plan);
}

#[test]
fn intersect_and_except_flatten_and_expand() {
    for kind in [
        SetKind::IntersectDistinct,
        SetKind::IntersectAll,
        SetKind::ExceptDistinct,
        SetKind::ExceptAll,
        SetKind::UnionAll,
    ] {
        let plan = Plan::SetOp {
            kind,
            left: Box::new(Plan::SetOp {
                kind,
                left: Box::new(scan("data")),
                right: Box::new(scan("data")),
            }),
            right: Box::new(scan("data")),
        };
        roundtrip(plan);
    }
}

#[test]
fn right_nested_set_operation_keeps_its_shape() {
    let plan = Plan::SetOp {
        kind: SetKind::UnionDistinct,
        left: Box::new(scan("data")),
        right: Box::new(Plan::SetOp {
            kind: SetKind::UnionDistinct,
            left: Box::new(scan("data")),
            right: Box::new(scan("data")),
        }),
    };
    roundtrip(plan);
}

#[test]
fn mixed_kind_set_operations_stay_nested() {
    let plan = Plan::SetOp {
        kind: SetKind::IntersectDistinct,
        left: Box::new(Plan::SetOp {
            kind: SetKind::UnionAll,
            left: Box::new(scan("data")),
            right: Box::new(scan("data")),
        }),
        right: Box::new(scan("data")),
    };
    let pp = to_portable_plan(&plan).unwrap();
    match &pp.root {
        PRel::SetRel { inputs, .. } => assert_eq!(inputs.len(), 2),
        other => panic!("expected a set relation, got {other:?}"),
    }
    roundtrip(plan);
}

#[test]
fn self_join_introduces_left_right_aliases() {
    let plan = Plan::Join {
        left: Box::new(scan("data")),
        right: Box::new(scan("data")),
        jt: JoinType::Inner,
        on: fun("eq", vec![col("b"), col("b")]),
    };
    let pp = to_portable_plan(&plan).unwrap();
    let back = from_portable_plan(&pp).unwrap();
    // The combined schema is repaired with qualified names, so the root's
    // original names come back through a renaming projection on top.
    let join = match back {
        Plan::Project { input, names, .. } => {
            assert_eq!(
                names,
                vec![
                    String::from("a"),
                    String::from("b"),
                    String::from("a"),
                    String::from("b"),
                ],
            );
            *input
        },
        other => panic!("expected a renaming projection, got {other:?}"),
    };
    match join {
        Plan::Join { left, right, on, .. } => {
            match *left {
                Plan::Alias { alias, .. } => assert_eq!(alias, "left"),
                other => panic!("expected the left side aliased, got {other:?}"),
            }
            match *right {
                Plan::Alias { alias, .. } => assert_eq!(alias, "right"),
                other => panic!("expected the right side aliased, got {other:?}"),
            }
            // The condition's columns now carry the qualified, unique names.
            match on {
                Expr::ScalarFn { args, .. } => {
                    assert_eq!(args[0], Expr::Column { name: String::from("left.b") });
                    assert_eq!(args[1], Expr::Column { name: String::from("left.b") });
                },
                other => panic!("expected the join condition, got {other:?}"),
            }
        },
        other => panic!("expected a join, got {other:?}"),
    }
}

#[test]
fn alias_is_dropped_by_the_producer() {
    let plan = Plan::Alias { input: Box::new(scan("data")), alias: String::from("d1") };
    let pp = to_portable_plan(&plan).unwrap();
    assert!(matches!(pp.root, PRel::Read { .. }));
    // The alias qualified the output names, so the consumer restores them
    // with a renaming projection around the bare scan.
    let back = from_portable_plan(&pp).unwrap();
    match back {
        Plan::Project { input, names, .. } => {
            assert!(matches!(*input, Plan::Read { .. }));
            assert_eq!(names, vec![String::from("d1.a"), String::from("d1.b")]);
        },
        other => panic!("expected a renaming projection, got {other:?}"),
    }
}

#[test]
fn non_canonical_projection_names_come_back_via_rename() {
    let plan = Plan::Project {
        input: Box::new(scan("data")),
        exprs: vec![col("a")],
        names: vec![String::from("aliased_a")],
    };
    let pp = to_portable_plan(&plan).unwrap();
    let back = from_portable_plan(&pp).unwrap();
    match back {
        Plan::Project { input, names, .. } => {
            assert_eq!(names, vec![String::from("aliased_a")]);
            assert!(matches!(*input, Plan::Project { .. }));
        },
        other => panic!("expected a renaming projection, got {other:?}"),
    }
}

#[test]
fn remap_emit_wraps_a_selecting_projection() {
    let pp = planwire::plan::PPlan {
        extensions: vec![],
        root: PRel::Read {
            names: vec![String::from("data")],
            schema: planwire::codec::encode_schema(&vec![
                field("a", EngineType::Int64),
                field("b", EngineType::Utf8),
            ])
            .unwrap(),
            common: planwire::plan::PCommon { emit: PEmit::Remap(vec![1, 0]) },
        },
        root_names: vec![String::from("b"), String::from("a")],
    };
    let back = from_portable_plan(&pp).unwrap();
    match back {
        Plan::Project { input, exprs, names } => {
            assert!(matches!(*input, Plan::Read { .. }));
            assert_eq!(exprs[0], Expr::Column { name: String::from("b") });
            assert_eq!(exprs[1], Expr::Column { name: String::from("a") });
            assert_eq!(names, vec![String::from("b"), String::from("a")]);
        },
        other => panic!("expected a selecting projection, got {other:?}"),
    }
}
