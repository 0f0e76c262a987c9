use planwire::consumer::{from_portable_plan, from_portable_rel, from_write_rel};
use planwire::error::TranslateError;
use planwire::plan::{
    CreateMode, OutputMode, PCommon, PEmit, PRel, Plan, WriteOp, WriteTarget,
};
use planwire::producer::{from_ddl, to_portable_plan};
use planwire::registry::Registry;
use planwire::table_ref::TableRef;
use planwire::types::{EField, EngineType};

fn field(name: &str, ty: EngineType) -> EField {
    EField { name: String::from(name), ty, nullable: false }
}

fn scan(table: &str) -> Plan {
    Plan::Read {
        table: TableRef::bare(String::from(table)),
        schema: vec![field("a", EngineType::Int64), field("b", EngineType::Utf8)],
    }
}

fn ctas(name: TableRef) -> Plan {
    Plan::CreateTable {
        name,
        input: Box::new(scan("data")),
        if_not_exists: true,
        or_replace: false,
        temporary: false,
    }
}

fn direct() -> PCommon {
    PCommon { emit: PEmit::Direct }
}

fn write_rel(op: WriteOp, input: Option<Box<PRel>>, target: Option<WriteTarget>) -> PRel {
    PRel::Write {
        table_schema: vec![],
        op,
        input,
        create_mode: CreateMode::IgnoreIfExists,
        output_mode: OutputMode::NoOutput,
        target,
        common: direct(),
    }
}

fn portable_scan() -> PRel {
    PRel::Read {
        names: vec![String::from("data")],
        schema: planwire::codec::encode_schema(&vec![field("a", EngineType::Int64)]).unwrap(),
        common: direct(),
    }
}

#[test]
fn from_ddl_emits_a_create_write_relation() {
    let mut reg = Registry::new();
    let ddl = ctas(TableRef::partial(String::from("public"), String::from("out")));
    let rel = from_ddl(&mut reg, &ddl).expect("CTAS must produce");
    match rel {
        PRel::Write { op, create_mode, output_mode, input, target, table_schema, .. } => {
            assert_eq!(op, WriteOp::Create);
            assert_eq!(create_mode, CreateMode::IgnoreIfExists);
            assert_eq!(output_mode, OutputMode::NoOutput);
            assert!(input.is_some());
            assert_eq!(table_schema.len(), 2);
            match target {
                Some(WriteTarget::NamedTable { names }) => {
                    assert_eq!(names, vec![String::from("public"), String::from("out")]);
                },
                other => panic!("expected a named-table target, got {other:?}"),
            }
        },
        other => panic!("expected a write relation, got {other:?}"),
    }
}

#[test]
fn from_ddl_rejects_other_statements() {
    let mut reg = Registry::new();
    let drop = Plan::DropTable { name: TableRef::bare(String::from("data")) };
    assert_eq!(from_ddl(&mut reg, &drop), Err(TranslateError::UnsupportedOperation));
    let not_ddl = scan("data");
    assert_eq!(from_ddl(&mut reg, &not_ddl), Err(TranslateError::UnsupportedOperation));
}

#[test]
fn fully_qualified_write_target_roundtrips() {
    let plan = ctas(TableRef::full(
        String::from("catalog"),
        String::from("schema"),
        String::from("table"),
    ));
    let pp = to_portable_plan(&plan).unwrap();
    let back = from_portable_plan(&pp).unwrap();
    match &back {
        Plan::CreateTable { name, .. } => {
            assert_eq!(
                name.to_names(),
                vec![
                    String::from("catalog"),
                    String::from("schema"),
                    String::from("table"),
                ],
            );
        },
        other => panic!("expected a CTAS node, got {other:?}"),
    }
    assert_eq!(back, plan);
}

#[test]
fn bare_write_target_roundtrips() {
    let plan = ctas(TableRef::bare(String::from("out")));
    let pp = to_portable_plan(&plan).unwrap();
    let back = from_portable_plan(&pp).unwrap();
    match &back {
        Plan::CreateTable { name, .. } => {
            assert_eq!(name.to_names(), vec![String::from("out")]);
        },
        other => panic!("expected a CTAS node, got {other:?}"),
    }
    assert_eq!(back, plan);
}

#[test]
fn non_create_write_operations_are_rejected() {
    for op in [
        WriteOp::Unspecified,
        WriteOp::Insert,
        WriteOp::Delete,
        WriteOp::Update,
        WriteOp::Drop,
    ] {
        let w = write_rel(
            op,
            Some(Box::new(portable_scan())),
            Some(WriteTarget::NamedTable { names: vec![String::from("t")] }),
        );
        assert_eq!(
            from_write_rel(&w, &vec![]),
            Err(TranslateError::UnsupportedOperation),
        );
    }
}

#[test]
fn write_without_input_is_malformed() {
    let w = write_rel(
        WriteOp::Create,
        None,
        Some(WriteTarget::NamedTable { names: vec![String::from("t")] }),
    );
    assert_eq!(from_write_rel(&w, &vec![]), Err(TranslateError::MalformedPlan));
}

#[test]
fn consumed_write_defaults_its_flags() {
    let w = write_rel(
        WriteOp::Create,
        Some(Box::new(portable_scan())),
        Some(WriteTarget::NamedTable { names: vec![String::from("t")] }),
    );
    match from_write_rel(&w, &vec![]).unwrap() {
        Plan::CreateTable { if_not_exists, or_replace, temporary, .. } => {
            assert!(if_not_exists);
            assert!(!or_replace);
            assert!(!temporary);
        },
        other => panic!("expected a CTAS node, got {other:?}"),
    }
}

#[test]
fn missing_or_foreign_write_target_degrades_to_bare_name() {
    for target in [None, Some(WriteTarget::Extension)] {
        let w = write_rel(WriteOp::Create, Some(Box::new(portable_scan())), target);
        match from_write_rel(&w, &vec![]).unwrap() {
            Plan::CreateTable { name, .. } => {
                assert_eq!(name.to_names(), vec![String::from("table")]);
            },
            other => panic!("expected a CTAS node, got {other:?}"),
        }
    }
}

#[test]
fn overlong_write_target_degrades_to_bare_name() {
    let names = vec![
        String::from("a"),
        String::from("b"),
        String::from("c"),
        String::from("d"),
    ];
    let w = write_rel(
        WriteOp::Create,
        Some(Box::new(portable_scan())),
        Some(WriteTarget::NamedTable { names }),
    );
    match from_write_rel(&w, &vec![]).unwrap() {
        Plan::CreateTable { name, .. } => {
            assert_eq!(name.to_names(), vec![String::from("table")]);
        },
        other => panic!("expected a CTAS node, got {other:?}"),
    }
}

#[test]
fn write_relation_consumes_through_the_general_path_too() {
    let w = write_rel(
        WriteOp::Create,
        Some(Box::new(portable_scan())),
        Some(WriteTarget::NamedTable { names: vec![String::from("t")] }),
    );
    let (plan, _schema) = from_portable_rel(&w, &vec![]).unwrap();
    assert!(matches!(plan, Plan::CreateTable { .. }));
}
