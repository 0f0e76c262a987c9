use planwire::error::TranslateError;
use planwire::registry::Registry;

#[test]
fn anchors_are_zero_based_and_monotonic() {
    let mut reg = Registry::new();
    let a0 = reg.register(&String::from("add"), &String::from("i64_i64"));
    let a1 = reg.register(&String::from("sub"), &String::from("i64_i64"));
    let a2 = reg.register(&String::from("mul"), &String::from("i64_i64"));
    assert_eq!(a0, 0);
    assert_eq!(a1, 1);
    assert_eq!(a2, 2);
}

#[test]
fn register_is_idempotent_within_a_session() {
    let mut reg = Registry::new();
    let first = reg.register(&String::from("lower"), &String::from("str"));
    let again = reg.register(&String::from("lower"), &String::from("str"));
    assert_eq!(first, again);
    assert_eq!(reg.declarations().len(), 1);
}

#[test]
fn distinct_signatures_get_distinct_anchors() {
    let mut reg = Registry::new();
    let a = reg.register(&String::from("add"), &String::from("i32_i32"));
    let b = reg.register(&String::from("add"), &String::from("i64_i64"));
    assert_ne!(a, b);
    assert_eq!(reg.declarations().len(), 2);
}

#[test]
fn declarations_keep_first_encounter_order() {
    let mut reg = Registry::new();
    reg.register(&String::from("gt"), &String::from("any_any"));
    reg.register(&String::from("and"), &String::from("bool_bool"));
    reg.register(&String::from("gt"), &String::from("any_any"));
    let decls = reg.declarations();
    assert_eq!(decls.len(), 2);
    assert_eq!(decls[0].name, "gt");
    assert_eq!(decls[1].name, "and");
}

#[test]
fn resolve_answers_the_registered_pair() {
    let mut reg = Registry::new();
    let a = reg.register(&String::from("abs"), &String::from("i64"));
    let d = reg.resolve(a).unwrap();
    assert_eq!(d.name, "abs");
    assert_eq!(d.signature, "i64");
}

#[test]
fn dangling_anchor_is_unknown_anchor() {
    let mut reg = Registry::new();
    reg.register(&String::from("abs"), &String::from("i64"));
    match reg.resolve(5) {
        Err(TranslateError::UnknownAnchor) => {},
        other => panic!("expected UnknownAnchor, got {other:?}"),
    }
}
