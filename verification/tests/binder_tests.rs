use std::sync::Arc;

use sql_binder::ast::{
    BinaryOperator, ColumnDef, Expr, Ident, ObjectName, Query, SelectItem, Statement, TableRef,
    UnaryOperator,
};
use sql_binder::catalog::{
    CatalogColumn, ColumnDesc, RootCatalog, SchemaCatalog, TableCatalog, TableRefId,
};
use sql_binder::error::BindError;
use sql_binder::expression::BoundExpr;
use sql_binder::statement::BoundSelect;
use sql_binder::types::{DataTypeKind, DataValue};
use sql_binder::{Binder, BoundStatement};

fn ident(s: &str) -> Ident {
    Ident::new(s.to_string())
}

fn name(parts: &[&str]) -> ObjectName {
    ObjectName(parts.iter().map(|p| ident(p)).collect())
}

fn col(id: u32, name: &str, kind: DataTypeKind, nullable: bool) -> CatalogColumn {
    CatalogColumn { id, desc: ColumnDesc { name: name.to_string(), kind, nullable } }
}

/// A catalog with schema `postgres` holding `t1(a INT, b INT)`,
/// `t2(b INT, c INT)` and `t3(v INT NOT NULL, w VARCHAR)`.
fn make_catalog() -> Arc<RootCatalog> {
    let t1 = TableCatalog {
        name: "t1".to_string(),
        id: TableRefId { database_id: 0, schema_id: 0, table_id: 1 },
        columns: vec![
            col(0, "a", DataTypeKind::Int32, true),
            col(1, "b", DataTypeKind::Int32, true),
        ],
    };
    let t2 = TableCatalog {
        name: "t2".to_string(),
        id: TableRefId { database_id: 0, schema_id: 0, table_id: 2 },
        columns: vec![
            col(0, "b", DataTypeKind::Int32, true),
            col(1, "c", DataTypeKind::Int32, true),
        ],
    };
    let t3 = TableCatalog {
        name: "t3".to_string(),
        id: TableRefId { database_id: 0, schema_id: 0, table_id: 3 },
        columns: vec![
            col(0, "v", DataTypeKind::Int32, false),
            col(1, "w", DataTypeKind::Varchar, true),
        ],
    };
    Arc::new(RootCatalog {
        schemas: vec![SchemaCatalog { name: "postgres".to_string(), tables: vec![t1, t2, t3] }],
    })
}

fn empty_query() -> Query {
    Query {
        from: None,
        selection: None,
        projection: vec![],
        group_by: vec![],
        having: None,
        order_by: vec![],
    }
}

fn select_from(table: &str, projection: Vec<SelectItem>) -> Query {
    Query {
        from: Some(TableRef::BaseTable { name: name(&[table]), alias: None }),
        selection: None,
        projection,
        group_by: vec![],
        having: None,
        order_by: vec![],
    }
}

fn item(e: Expr) -> SelectItem {
    SelectItem { expr: e, alias: None }
}

#[test]
fn create_table_with_duplicate_column_fails() {
    let mut binder = Binder::new(make_catalog());
    let stmt = Statement::CreateTable {
        name: name(&["nt"]),
        columns: vec![
            ColumnDef { name: ident("x"), kind: DataTypeKind::Int32, nullable: true },
            ColumnDef { name: ident("x"), kind: DataTypeKind::Bool, nullable: true },
        ],
    };
    assert_eq!(binder.bind(&stmt), Err(BindError::DuplicatedColumn("x".to_string())));
}

#[test]
fn create_table_preserves_declaration_order() {
    let mut binder = Binder::new(make_catalog());
    let stmt = Statement::CreateTable {
        name: name(&["nt"]),
        columns: vec![
            ColumnDef { name: ident("x"), kind: DataTypeKind::Int32, nullable: true },
            ColumnDef { name: ident("y"), kind: DataTypeKind::Varchar, nullable: false },
        ],
    };
    match binder.bind(&stmt) {
        Ok(BoundStatement::CreateTable(b)) => {
            assert_eq!(b.schema_name, "postgres");
            assert_eq!(b.table_name, "nt");
            assert_eq!(b.columns.len(), 2);
            assert_eq!(b.columns[0].name, "x");
            assert_eq!(b.columns[0].kind, DataTypeKind::Int32);
            assert_eq!(b.columns[1].name, "y");
            assert!(!b.columns[1].nullable);
        }
        other => panic!("unexpected result {:?}", other),
    }
}

#[test]
fn create_table_folds_upper_case_name() {
    let mut binder = Binder::new(make_catalog());
    let stmt = Statement::CreateTable { name: name(&["NewTable"]), columns: vec![] };
    match binder.bind(&stmt) {
        Ok(BoundStatement::CreateTable(b)) => assert_eq!(b.table_name, "newtable"),
        other => panic!("unexpected result {:?}", other),
    }
}

#[test]
fn drop_missing_table_fails() {
    let mut binder = Binder::new(make_catalog());
    let stmt = Statement::Drop { name: name(&["nope"]) };
    assert_eq!(binder.bind(&stmt), Err(BindError::InvalidTable("nope".to_string())));
}

#[test]
fn drop_missing_schema_fails() {
    let mut binder = Binder::new(make_catalog());
    let stmt = Statement::Drop { name: name(&["nosuch", "t1"]) };
    assert_eq!(binder.bind(&stmt), Err(BindError::InvalidSchema("nosuch".to_string())));
}

#[test]
fn drop_resolves_table_id() {
    let mut binder = Binder::new(make_catalog());
    let stmt = Statement::Drop { name: name(&["T1"]) };
    match binder.bind(&stmt) {
        Ok(BoundStatement::Drop(b)) => assert_eq!(b.table_ref_id.table_id, 1),
        other => panic!("unexpected result {:?}", other),
    }
}

#[test]
fn insert_null_into_not_null_column_fails() {
    let mut binder = Binder::new(make_catalog());
    let stmt = Statement::Insert {
        table_name: name(&["t3"]),
        values: vec![vec![Expr::Literal(DataValue::Null), Expr::Literal(DataValue::Null)]],
    };
    assert_eq!(binder.bind(&stmt), Err(BindError::NotNullableColumn("v".to_string())));
}

#[test]
fn insert_null_into_nullable_column_succeeds() {
    let mut binder = Binder::new(make_catalog());
    let stmt = Statement::Insert {
        table_name: name(&["t3"]),
        values: vec![vec![
            Expr::Literal(DataValue::Int32(1)),
            Expr::Literal(DataValue::Null),
        ]],
    };
    match binder.bind(&stmt) {
        Ok(BoundStatement::Insert(b)) => {
            assert_eq!(b.table_ref_id.table_id, 3);
            assert_eq!(b.column_ids, vec![0, 1]);
            assert_eq!(b.values[0][1], BoundExpr::Constant(DataValue::Null));
        }
        other => panic!("unexpected result {:?}", other),
    }
}

#[test]
fn insert_widens_literal_to_column_kind() {
    let mut binder = Binder::new(make_catalog());
    // t3.v is a 32-bit integer column; a 64-bit literal in range narrows.
    let stmt = Statement::Insert {
        table_name: name(&["t3"]),
        values: vec![vec![
            Expr::Literal(DataValue::Int64(7)),
            Expr::Literal(DataValue::Varchar("x".to_string())),
        ]],
    };
    match binder.bind(&stmt) {
        Ok(BoundStatement::Insert(b)) => {
            assert_eq!(b.values[0][0], BoundExpr::Constant(DataValue::Int32(7)));
        }
        other => panic!("unexpected result {:?}", other),
    }
}

#[test]
fn insert_out_of_range_literal_is_cast_error() {
    let mut binder = Binder::new(make_catalog());
    let stmt = Statement::Insert {
        table_name: name(&["t3"]),
        values: vec![vec![
            Expr::Literal(DataValue::Int64(99_999_999_999)),
            Expr::Literal(DataValue::Null),
        ]],
    };
    assert_eq!(
        binder.bind(&stmt),
        Err(BindError::CastError(DataValue::Int64(99_999_999_999), DataTypeKind::Int32))
    );
}

#[test]
fn insert_with_wrong_arity_fails() {
    let mut binder = Binder::new(make_catalog());
    let stmt = Statement::Insert {
        table_name: name(&["t3"]),
        values: vec![vec![Expr::Literal(DataValue::Int32(1))]],
    };
    match binder.bind(&stmt) {
        Err(BindError::InvalidExpression(_)) => {}
        other => panic!("expected invalid expression, got {:?}", other),
    }
}

#[test]
fn copy_resolves_column_list() {
    let mut binder = Binder::new(make_catalog());
    let stmt = Statement::Copy { table_name: name(&["t1"]), columns: vec![ident("b")] };
    match binder.bind(&stmt) {
        Ok(BoundStatement::Copy(b)) => {
            assert_eq!(b.column_ids, vec![1]);
            assert_eq!(b.column_descs[0].name, "b");
        }
        other => panic!("unexpected result {:?}", other),
    }
}

#[test]
fn copy_with_unknown_column_fails() {
    let mut binder = Binder::new(make_catalog());
    let stmt = Statement::Copy { table_name: name(&["t1"]), columns: vec![ident("zz")] };
    assert_eq!(binder.bind(&stmt), Err(BindError::InvalidColumn("zz".to_string())));
}

#[test]
fn delete_binds_filter_against_target() {
    let mut binder = Binder::new(make_catalog());
    let stmt = Statement::Delete {
        table_name: name(&["t1"]),
        selection: Some(Expr::BinaryOp {
            left: Box::new(Expr::Identifier(ident("a"))),
            op: BinaryOperator::Eq,
            right: Box::new(Expr::Literal(DataValue::Int32(1))),
        }),
    };
    match binder.bind(&stmt) {
        Ok(BoundStatement::Delete(b)) => {
            assert_eq!(b.table_ref_id.table_id, 1);
            assert!(b.filter.is_some());
        }
        other => panic!("unexpected result {:?}", other),
    }
    // the scope pushed for the delete target is popped again
    assert!(binder.upper_contexts.is_empty());
    assert!(binder.context.regular_tables.is_empty());
}

#[test]
fn ambiguous_column_in_join_fails() {
    let mut binder = Binder::new(make_catalog());
    let q = Query {
        from: Some(TableRef::Join {
            left: Box::new(TableRef::BaseTable { name: name(&["t1"]), alias: None }),
            right: Box::new(TableRef::BaseTable { name: name(&["t2"]), alias: None }),
            on: Expr::Literal(DataValue::Bool(true)),
        }),
        selection: None,
        projection: vec![item(Expr::Identifier(ident("b")))],
        group_by: vec![],
        having: None,
        order_by: vec![],
    };
    assert_eq!(binder.bind(&Statement::Query(Box::new(q))), Err(BindError::AmbiguousColumn));
}

#[test]
fn qualified_column_disambiguates() {
    let mut binder = Binder::new(make_catalog());
    let q = Query {
        from: Some(TableRef::Join {
            left: Box::new(TableRef::BaseTable { name: name(&["t1"]), alias: None }),
            right: Box::new(TableRef::BaseTable { name: name(&["t2"]), alias: None }),
            on: Expr::Literal(DataValue::Bool(true)),
        }),
        selection: None,
        projection: vec![
            item(Expr::CompoundIdentifier(vec![ident("t1"), ident("b")])),
            item(Expr::CompoundIdentifier(vec![ident("t2"), ident("b")])),
        ],
        group_by: vec![],
        having: None,
        order_by: vec![],
    };
    match binder.bind(&Statement::Query(Box::new(q))) {
        Ok(BoundStatement::Select(sel)) => {
            let (r1, r2) = match (&sel.select_list[0], &sel.select_list[1]) {
                (
                    BoundExpr::ColumnRef { table_ref_id: r1, .. },
                    BoundExpr::ColumnRef { table_ref_id: r2, .. },
                ) => (*r1, *r2),
                other => panic!("unexpected projection {:?}", other),
            };
            assert_eq!(r1.table_id, 1);
            assert_eq!(r2.table_id, 2);
            assert_ne!(r1, r2);
        }
        other => panic!("unexpected result {:?}", other),
    }
}

#[test]
fn self_join_without_alias_is_duplicated_table() {
    let mut binder = Binder::new(make_catalog());
    let q = Query {
        from: Some(TableRef::Join {
            left: Box::new(TableRef::BaseTable { name: name(&["t1"]), alias: None }),
            right: Box::new(TableRef::BaseTable { name: name(&["t1"]), alias: None }),
            on: Expr::Literal(DataValue::Bool(true)),
        }),
        selection: None,
        projection: vec![],
        group_by: vec![],
        having: None,
        order_by: vec![],
    };
    assert_eq!(
        binder.bind(&Statement::Query(Box::new(q))),
        Err(BindError::DuplicatedTable("t1".to_string()))
    );
}

#[test]
fn self_join_with_alias_succeeds() {
    let mut binder = Binder::new(make_catalog());
    let q = Query {
        from: Some(TableRef::Join {
            left: Box::new(TableRef::BaseTable { name: name(&["t1"]), alias: None }),
            right: Box::new(TableRef::BaseTable { name: name(&["t1"]), alias: Some(ident("u")) }),
            on: Expr::Literal(DataValue::Bool(true)),
        }),
        selection: None,
        projection: vec![
            item(Expr::CompoundIdentifier(vec![ident("t1"), ident("a")])),
            item(Expr::CompoundIdentifier(vec![ident("u"), ident("a")])),
        ],
        group_by: vec![],
        having: None,
        order_by: vec![],
    };
    assert!(binder.bind(&Statement::Query(Box::new(q))).is_ok());
}

#[test]
fn numeric_plus_string_is_type_mismatch() {
    let mut binder = Binder::new(make_catalog());
    let q = select_from(
        "t1",
        vec![item(Expr::BinaryOp {
            left: Box::new(Expr::Identifier(ident("a"))),
            op: BinaryOperator::Plus,
            right: Box::new(Expr::Literal(DataValue::Varchar("x".to_string()))),
        })],
    );
    assert_eq!(
        binder.bind(&Statement::Query(Box::new(q))),
        Err(BindError::BinaryOpTypeMismatch("INT".to_string(), "VARCHAR".to_string()))
    );
}

#[test]
fn comparison_yields_boolean_type() {
    let mut binder = Binder::new(make_catalog());
    let q = select_from(
        "t1",
        vec![item(Expr::BinaryOp {
            left: Box::new(Expr::Identifier(ident("a"))),
            op: BinaryOperator::Lt,
            right: Box::new(Expr::Literal(DataValue::Int32(3))),
        })],
    );
    match binder.bind(&Statement::Query(Box::new(q))) {
        Ok(BoundStatement::Select(sel)) => match &sel.select_list[0] {
            BoundExpr::BinaryOp { return_type, .. } => {
                assert_eq!(*return_type, Some(DataTypeKind::Bool));
            }
            other => panic!("unexpected projection {:?}", other),
        },
        other => panic!("unexpected result {:?}", other),
    }
}

#[test]
fn arithmetic_widens_to_bigger_integer() {
    let mut binder = Binder::new(make_catalog());
    let q = select_from(
        "t1",
        vec![item(Expr::BinaryOp {
            left: Box::new(Expr::Identifier(ident("a"))),
            op: BinaryOperator::Plus,
            right: Box::new(Expr::Literal(DataValue::Int64(1))),
        })],
    );
    match binder.bind(&Statement::Query(Box::new(q))) {
        Ok(BoundStatement::Select(sel)) => match &sel.select_list[0] {
            BoundExpr::BinaryOp { return_type, .. } => {
                assert_eq!(*return_type, Some(DataTypeKind::Int64));
            }
            other => panic!("unexpected projection {:?}", other),
        },
        other => panic!("unexpected result {:?}", other),
    }
}

#[test]
fn unary_minus_on_string_is_invalid_expression() {
    let mut binder = Binder::new(make_catalog());
    let q = select_from(
        "t3",
        vec![item(Expr::UnaryOp {
            op: UnaryOperator::Minus,
            expr: Box::new(Expr::Identifier(ident("w"))),
        })],
    );
    match binder.bind(&Statement::Query(Box::new(q))) {
        Err(BindError::InvalidExpression(_)) => {}
        other => panic!("expected invalid expression, got {:?}", other),
    }
}

#[test]
fn order_by_alias_reuses_bound_expression() {
    let mut binder = Binder::new(make_catalog());
    let q = Query {
        from: Some(TableRef::BaseTable { name: name(&["t1"]), alias: None }),
        selection: None,
        projection: vec![SelectItem {
            expr: Expr::Identifier(ident("a")),
            alias: Some(ident("c")),
        }],
        group_by: vec![],
        having: None,
        order_by: vec![Expr::Identifier(ident("c"))],
    };
    match binder.bind(&Statement::Query(Box::new(q))) {
        Ok(BoundStatement::Select(sel)) => {
            let inner = match &sel.select_list[0] {
                BoundExpr::Alias { name, expr } => {
                    assert_eq!(name, "c");
                    (**expr).clone()
                }
                other => panic!("unexpected projection {:?}", other),
            };
            assert_eq!(sel.order_by[0], inner);
        }
        other => panic!("unexpected result {:?}", other),
    }
}

#[test]
fn derived_table_exposes_projected_columns() {
    let mut binder = Binder::new(make_catalog());
    let inner = Query {
        from: Some(TableRef::BaseTable { name: name(&["t1"]), alias: None }),
        selection: None,
        projection: vec![SelectItem {
            expr: Expr::Identifier(ident("a")),
            alias: Some(ident("x")),
        }],
        group_by: vec![],
        having: None,
        order_by: vec![],
    };
    let outer = Query {
        from: Some(TableRef::Derived { subquery: Box::new(inner), alias: ident("d") }),
        selection: None,
        projection: vec![item(Expr::Identifier(ident("x")))],
        group_by: vec![],
        having: None,
        order_by: vec![],
    };
    assert!(binder.bind(&Statement::Query(Box::new(outer))).is_ok());
    assert!(binder.upper_contexts.is_empty());
}

#[test]
fn unknown_column_is_invalid_column() {
    let mut binder = Binder::new(make_catalog());
    let q = select_from("t1", vec![item(Expr::Identifier(ident("zz")))]);
    assert_eq!(
        binder.bind(&Statement::Query(Box::new(q))),
        Err(BindError::InvalidColumn("zz".to_string()))
    );
}

#[test]
fn over_long_compound_identifier_is_invalid_expression() {
    let mut binder = Binder::new(make_catalog());
    let q = select_from(
        "t1",
        vec![item(Expr::CompoundIdentifier(vec![ident("a"), ident("b"), ident("c")]))],
    );
    match binder.bind(&Statement::Query(Box::new(q))) {
        Err(BindError::InvalidExpression(_)) => {}
        other => panic!("expected invalid expression, got {:?}", other),
    }
}

#[test]
fn explain_propagates_inner_error() {
    let q = select_from("t1", vec![item(Expr::Identifier(ident("zz")))]);
    let direct = Binder::new(make_catalog()).bind(&Statement::Query(Box::new(q)));

    let q2 = select_from("t1", vec![item(Expr::Identifier(ident("zz")))]);
    let explained = Binder::new(make_catalog()).bind(&Statement::Explain {
        statement: Box::new(Statement::Query(Box::new(q2))),
    });
    assert!(direct.is_err());
    assert_eq!(direct.unwrap_err(), explained.unwrap_err());
}

#[test]
fn explain_wraps_inner_statement() {
    let mut binder = Binder::new(make_catalog());
    let stmt = Statement::Explain {
        statement: Box::new(Statement::Drop { name: name(&["t1"]) }),
    };
    match binder.bind(&stmt) {
        Ok(BoundStatement::Explain(inner)) => match *inner {
            BoundStatement::Drop(d) => assert_eq!(d.table_ref_id.table_id, 1),
            other => panic!("unexpected inner {:?}", other),
        },
        other => panic!("unexpected result {:?}", other),
    }
}

#[test]
fn show_statements_are_not_supported() {
    let mut binder = Binder::new(make_catalog());
    assert_eq!(
        binder.bind(&Statement::ShowVariable { variable: ident("x") }),
        Err(BindError::NotSupportedTSQL)
    );
    assert_eq!(
        binder.bind(&Statement::ShowCreate { name: name(&["t1"]) }),
        Err(BindError::NotSupportedTSQL)
    );
    assert_eq!(
        binder.bind(&Statement::ShowColumns { name: name(&["t1"]) }),
        Err(BindError::NotSupportedTSQL)
    );
}

#[test]
fn unrecognized_statement_is_invalid_sql() {
    let mut binder = Binder::new(make_catalog());
    let stmt = Statement::SetVariable { variable: ident("x"), value: DataValue::Int32(1) };
    assert_eq!(binder.bind(&stmt), Err(BindError::InvalidSQL));
}

#[test]
fn push_pop_restores_active_context() {
    let mut binder = Binder::new(make_catalog());
    // make the active context non-trivial by binding a delete target first
    let _ = binder.bind(&Statement::Delete { table_name: name(&["t1"]), selection: None });
    assert!(binder.upper_contexts.is_empty());
    let tables_before = binder.context.regular_tables.len();
    binder.push_context();
    assert_eq!(binder.upper_contexts.len(), 1);
    assert!(binder.context.regular_tables.is_empty());
    binder.pop_context();
    assert!(binder.upper_contexts.is_empty());
    assert_eq!(binder.context.regular_tables.len(), tables_before);
}

#[test]
fn upper_case_table_name_resolves() {
    let mut binder = Binder::new(make_catalog());
    let q = select_from("T1", vec![item(Expr::Identifier(ident("a")))]);
    assert!(binder.bind(&Statement::Query(Box::new(q))).is_ok());
}

#[test]
fn base_table_refs_record_touched_tables() {
    let mut binder = Binder::new(make_catalog());
    let _ = binder.bind(&Statement::Drop { name: name(&["t1"]) });
    let _ = binder.bind(&Statement::Drop { name: name(&["t2"]) });
    assert_eq!(binder.base_table_refs, vec!["t1".to_string(), "t2".to_string()]);
}

#[test]
fn empty_select_binds() {
    let mut binder = Binder::new(make_catalog());
    match binder.bind(&Statement::Query(Box::new(empty_query()))) {
        Ok(BoundStatement::Select(sel)) => {
            let BoundSelect { select_list, from_table, .. } = *sel;
            assert!(select_list.is_empty());
            assert!(from_table.is_none());
        }
        other => panic!("unexpected result {:?}", other),
    }
}

#[test]
fn insert_reports_first_failing_row() {
    let mut binder = Binder::new(make_catalog());
    // row 0 binds; row 1 has the arity error; row 2 would be a cast error
    let stmt = Statement::Insert {
        table_name: name(&["t3"]),
        values: vec![
            vec![Expr::Literal(DataValue::Int32(1)), Expr::Literal(DataValue::Null)],
            vec![Expr::Literal(DataValue::Int32(2))],
            vec![
                Expr::Literal(DataValue::Bool(true)),
                Expr::Literal(DataValue::Null),
            ],
        ],
    };
    match binder.bind(&stmt) {
        Err(BindError::InvalidExpression(_)) => {}
        other => panic!("expected the arity error of the second row, got {:?}", other),
    }
}

#[test]
fn insert_reports_first_failing_cell() {
    let mut binder = Binder::new(make_catalog());
    // in one row, the first cell has a cast error and the second would be a
    // not-nullable error; the cell error in column order wins
    let stmt = Statement::Insert {
        table_name: name(&["t3"]),
        values: vec![vec![
            Expr::Literal(DataValue::Bool(true)),
            Expr::Literal(DataValue::Null),
        ]],
    };
    assert_eq!(
        binder.bind(&stmt),
        Err(BindError::CastError(DataValue::Bool(true), DataTypeKind::Int32))
    );
}

#[test]
fn copy_reports_first_missing_column() {
    let mut binder = Binder::new(make_catalog());
    let stmt = Statement::Copy {
        table_name: name(&["t1"]),
        columns: vec![ident("zz"), ident("yy")],
    };
    assert_eq!(binder.bind(&stmt), Err(BindError::InvalidColumn("zz".to_string())));
}

#[test]
fn explain_propagates_insert_error() {
    let stmt = Statement::Insert {
        table_name: name(&["t3"]),
        values: vec![vec![Expr::Literal(DataValue::Null), Expr::Literal(DataValue::Null)]],
    };
    let direct = Binder::new(make_catalog()).bind(&stmt);
    let stmt2 = Statement::Insert {
        table_name: name(&["t3"]),
        values: vec![vec![Expr::Literal(DataValue::Null), Expr::Literal(DataValue::Null)]],
    };
    let explained =
        Binder::new(make_catalog()).bind(&Statement::Explain { statement: Box::new(stmt2) });
    assert_eq!(direct.unwrap_err(), explained.unwrap_err());
}
