use planwire::consumer::from_portable_rel;
use planwire::error::TranslateError;
use planwire::expr::PExpr;
use planwire::plan::{PCommon, PEmit, PRel, SetKind};
use planwire::ptypes::{PTypeKind, PortableType};
use planwire::registry::ExtensionDecl;
use planwire::types::{EField, EngineType};

fn direct() -> PCommon {
    PCommon { emit: PEmit::Direct }
}

fn portable_scan() -> PRel {
    let schema = planwire::codec::encode_schema(&vec![EField {
        name: String::from("a"),
        ty: EngineType::Int64,
        nullable: false,
    }])
    .unwrap();
    PRel::Read { names: vec![String::from("data")], schema, common: direct() }
}

#[test]
fn field_reference_out_of_range_is_malformed() {
    let rel = PRel::Filter {
        input: Box::new(portable_scan()),
        condition: PExpr::Field(5),
        common: direct(),
    };
    assert_eq!(from_portable_rel(&rel, &vec![]), Err(TranslateError::MalformedPlan));
}

#[test]
fn dangling_function_anchor_is_unknown_anchor() {
    let rel = PRel::Filter {
        input: Box::new(portable_scan()),
        condition: PExpr::ScalarFn {
            anchor: 3,
            args: vec![],
            ret: PortableType { nullable: true, kind: PTypeKind::Bool },
        },
        common: direct(),
    };
    assert_eq!(from_portable_rel(&rel, &vec![]), Err(TranslateError::UnknownAnchor));
}

#[test]
fn declared_anchor_resolves_to_its_name() {
    let decls = vec![ExtensionDecl {
        name: String::from("not"),
        signature: String::from("bool"),
    }];
    let rel = PRel::Filter {
        input: Box::new(portable_scan()),
        condition: PExpr::ScalarFn {
            anchor: 0,
            args: vec![PExpr::Field(0)],
            ret: PortableType { nullable: true, kind: PTypeKind::Bool },
        },
        common: direct(),
    };
    let (plan, _schema) = from_portable_rel(&rel, &decls).unwrap();
    match plan {
        planwire::plan::Plan::Filter { predicate, .. } => match predicate {
            planwire::expr::Expr::ScalarFn { name, signature, .. } => {
                assert_eq!(name, "not");
                assert_eq!(signature, "bool");
            },
            other => panic!("expected a function call, got {other:?}"),
        },
        other => panic!("expected a filter, got {other:?}"),
    }
}

#[test]
fn set_relation_with_one_input_is_malformed() {
    let rel = PRel::SetRel {
        kind: SetKind::UnionAll,
        inputs: vec![portable_scan()],
        common: direct(),
    };
    assert_eq!(from_portable_rel(&rel, &vec![]), Err(TranslateError::MalformedPlan));
}

#[test]
fn remap_index_out_of_range_is_malformed() {
    let rel = match portable_scan() {
        PRel::Read { names, schema, .. } => PRel::Read {
            names,
            schema,
            common: PCommon { emit: PEmit::Remap(vec![7]) },
        },
        other => panic!("unexpected {other:?}"),
    };
    assert_eq!(from_portable_rel(&rel, &vec![]), Err(TranslateError::MalformedPlan));
}

#[test]
fn undecodable_read_schema_propagates_unsupported_type() {
    let rel = PRel::Read {
        names: vec![String::from("data")],
        schema: vec![planwire::ptypes::PField {
            name: String::from("u"),
            ty: PortableType {
                nullable: false,
                kind: PTypeKind::UserDefined { reference: 1 },
            },
        }],
        common: direct(),
    };
    assert_eq!(from_portable_rel(&rel, &vec![]), Err(TranslateError::UnsupportedType));
}

#[test]
fn error_descriptions_name_the_failure() {
    assert_eq!(TranslateError::UnsupportedOperation.describe(), "unsupported operation");
    assert_eq!(TranslateError::UnsupportedType.describe(), "unsupported type");
    assert_eq!(TranslateError::MalformedPlan.describe(), "malformed plan");
    assert_eq!(TranslateError::UnknownAnchor.describe(), "unknown function anchor");
}
