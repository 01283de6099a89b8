use sql_binder::ast::{Ident, ObjectName};
use sql_binder::error::BindError;
use sql_binder::name::{lower_case_name, split_name};

fn ident(s: &str) -> Ident {
    Ident::new(s.to_string())
}

fn name(parts: &[&str]) -> ObjectName {
    ObjectName(parts.iter().map(|p| ident(p)).collect())
}

#[test]
fn split_bare_name_uses_default_schema() {
    let n = name(&["t"]);
    let (schema, table) = split_name(&n).unwrap();
    assert_eq!(schema, "postgres");
    assert_eq!(table, "t");
}

#[test]
fn split_two_part_name_keeps_schema() {
    let n = name(&["s", "t"]);
    let (schema, table) = split_name(&n).unwrap();
    assert_eq!(schema, "s");
    assert_eq!(table, "t");
}

#[test]
fn split_over_qualified_name_is_rejected() {
    let n = name(&["db", "s", "t"]);
    match split_name(&n) {
        Err(BindError::InvalidTableName(parts)) => {
            assert_eq!(parts.len(), 3);
            assert_eq!(parts[0].value, "db");
        }
        other => panic!("expected invalid table name, got {:?}", other),
    }
}

#[test]
fn lower_case_name_folds_each_part() {
    let n = name(&["MySchema", "MyTable"]);
    let l = lower_case_name(&n);
    assert_eq!(l.0[0].value, "myschema");
    assert_eq!(l.0[1].value, "mytable");
}

#[test]
fn lower_case_name_is_idempotent() {
    let n = name(&["MiXeD", "CaSe123_x"]);
    let once = lower_case_name(&n);
    let twice = lower_case_name(&once);
    assert_eq!(once, twice);
}

#[test]
fn lower_case_name_keeps_non_letters() {
    let n = name(&["A1_b2"]);
    let l = lower_case_name(&n);
    assert_eq!(l.0[0].value, "a1_b2");
}
