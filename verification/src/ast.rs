//! The unbound statement tree: plain syntactic data as an external parser
//! hands it over, before any name is resolved or any type is checked.

use vstd::prelude::*;
use crate::types::{DataTypeKind, DataValue};

verus! {

/// One identifier as written in the SQL text.
#[derive(Debug, PartialEq, Eq)]
pub struct Ident {
    pub value: String,
}

impl Clone for Ident {
    fn clone(&self) -> (res: Self)
        ensures
            res == *self,
    {
        Ident { value: self.value.clone() }
    }
}

impl Ident {
    /// Wrap a string as an identifier.
    pub fn new(value: String) -> (r: Ident)
        ensures
            r.value == value,
    {
        Ident { value }
    }
}

/// A possibly qualified object name: a non-empty list of identifier parts.
#[derive(Debug, PartialEq, Eq)]
pub struct ObjectName(pub Vec<Ident>);

impl Clone for ObjectName {
    fn clone(&self) -> (res: Self)
        ensures
            res.0@ == self.0@,
    {
        ObjectName(clone_idents(&self.0))
    }
}

/// Clone a list of identifiers, keeping every element equal.
pub fn clone_idents(v: &Vec<Ident>) -> (r: Vec<Ident>)
    ensures
        r@ == v@,
{
    let mut r: Vec<Ident> = Vec::new();
    let mut i: usize = 0;
    while i < v.len()
        invariant
            i <= v.len(),
            r@ == v@.take(i as int),
        decreases v.len() - i,
    {
        r.push(v[i].clone());
        proof {
            assert(r@ =~= v@.take(i + 1 as int));
        }
        i += 1;
    }
    proof {
        assert(r@ =~= v@);
    }
    r
}

/// A binary operator as it appears in the syntax tree.
#[derive(Debug, Clone, Copy, PartialEq, Eq, Structural)]
pub enum BinaryOperator {
    Plus,
    Minus,
    Multiply,
    Divide,
    Eq,
    NotEq,
    Lt,
    Gt,
    LtEq,
    GtEq,
    And,
    Or,
}

/// A unary operator as it appears in the syntax tree.
#[derive(Debug, Clone, Copy, PartialEq, Eq, Structural)]
pub enum UnaryOperator {
    Not,
    Minus,
}

/// An unbound expression.
#[derive(Debug, PartialEq, Eq)]
pub enum Expr {
    /// A bare identifier: an unqualified column reference or an alias.
    Identifier(Ident),
    /// A dotted identifier chain, e.g. `t.a`.
    CompoundIdentifier(Vec<Ident>),
    /// A literal value.
    Literal(DataValue),
    /// A binary operation.
    BinaryOp { left: Box<Expr>, op: BinaryOperator, right: Box<Expr> },
    /// A unary operation.
    UnaryOp { op: UnaryOperator, expr: Box<Expr> },
}

/// One column declaration of a CREATE TABLE statement.
#[derive(Debug, PartialEq, Eq)]
pub struct ColumnDef {
    pub name: Ident,
    pub kind: DataTypeKind,
    /// False when the column is declared NOT NULL.
    pub nullable: bool,
}

/// One item of a SELECT list: an expression with an optional alias.
#[derive(Debug, PartialEq, Eq)]
pub struct SelectItem {
    pub expr: Expr,
    pub alias: Option<Ident>,
}

/// One FROM-clause entry.
#[derive(Debug, PartialEq, Eq)]
pub enum TableRef {
    /// A base table, optionally renamed by an alias.
    BaseTable { name: ObjectName, alias: Option<Ident> },
    /// A derived table: a subquery that must carry an alias.
    Derived { subquery: Box<Query>, alias: Ident },
    /// A join of two table references with a join condition.
    Join { left: Box<TableRef>, right: Box<TableRef>, on: Expr },
}

/// An unbound query (a SELECT statement and its clauses).
#[derive(Debug, PartialEq, Eq)]
pub struct Query {
    pub from: Option<TableRef>,
    pub selection: Option<Expr>,
    pub projection: Vec<SelectItem>,
    pub group_by: Vec<Expr>,
    pub having: Option<Expr>,
    pub order_by: Vec<Expr>,
}

/// An unbound statement, dispatched on by the binder.
#[derive(Debug, PartialEq, Eq)]
pub enum Statement {
    CreateTable { name: ObjectName, columns: Vec<ColumnDef> },
    Drop { name: ObjectName },
    Insert { table_name: ObjectName, values: Vec<Vec<Expr>> },
    Delete { table_name: ObjectName, selection: Option<Expr> },
    Copy { table_name: ObjectName, columns: Vec<Ident> },
    Query(Box<Query>),
    Explain { statement: Box<Statement> },
    /// Recognized but deliberately unimplemented statement kinds.
    ShowVariable { variable: Ident },
    ShowCreate { name: ObjectName },
    ShowColumns { name: ObjectName },
    /// A statement shape the binder does not recognize at all.
    SetVariable { variable: Ident, value: DataValue },
}

} // verus!
