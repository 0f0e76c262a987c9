use planwire::consumer::from_portable_rel;
use planwire::plan::{PCommon, PEmit, PRel, Plan};
use planwire::table_ref::TableRef;
use planwire::types::{EField, EngineType};

#[test]
fn constructors_keep_their_components() {
    let b = TableRef::bare(String::from("t"));
    assert_eq!(b.to_names(), vec![String::from("t")]);
    assert_eq!(b.len(), 1);

    let p = TableRef::partial(String::from("s"), String::from("t"));
    assert_eq!(p.to_names(), vec![String::from("s"), String::from("t")]);
    assert_eq!(p.len(), 2);

    let f = TableRef::full(String::from("c"), String::from("s"), String::from("t"));
    assert_eq!(
        f.to_names(),
        vec![String::from("c"), String::from("s"), String::from("t")],
    );
    assert_eq!(f.len(), 3);
}

#[test]
fn one_to_three_components_are_kept() {
    for n in 1..=3usize {
        let names: Vec<String> = (0..n).map(|i| format!("part{i}")).collect();
        let r = TableRef::from_names(&names);
        assert_eq!(r.to_names(), names);
    }
}

#[test]
fn empty_component_list_degrades_to_the_fallback() {
    let r = TableRef::from_names(&vec![]);
    assert_eq!(r.to_names(), vec![String::from("table")]);
}

#[test]
fn overlong_component_list_degrades_to_the_fallback() {
    let names: Vec<String> = (0..4).map(|i| format!("part{i}")).collect();
    let r = TableRef::from_names(&names);
    assert_eq!(r.to_names(), vec![String::from("table")]);
}

#[test]
fn read_with_no_name_components_scans_the_fallback_table() {
    let schema = planwire::codec::encode_schema(&vec![EField {
        name: String::from("a"),
        ty: EngineType::Int64,
        nullable: false,
    }])
    .unwrap();
    let rel = PRel::Read { names: vec![], schema, common: PCommon { emit: PEmit::Direct } };
    let (plan, _schema) = from_portable_rel(&rel, &vec![]).unwrap();
    match plan {
        Plan::Read { table, .. } => assert_eq!(table.to_names(), vec![String::from("table")]),
        other => panic!("expected a scan, got {other:?}"),
    }
}
