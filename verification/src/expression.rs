//! Bound expressions: the typed result of resolving a syntactic expression,
//! and the typing rules for operators.

use vstd::prelude::*;
use crate::ast::{BinaryOperator, Expr, Ident, UnaryOperator};
use crate::catalog::{
    find_column_idx, lemma_col_idx, spec_col_idx, ColumnDesc, ColumnId, TableRefId,
};
use crate::context::{
    spec_find_alias, spec_find_entry, spec_ident_lookup, AliasEntry, BinderContext, IdentLookup,
    TableEntry,
};
use crate::error::{spec_err, BindError, SpecBindError};
use crate::types::{spec_common_kind, spec_kind_name, common_kind, kind_name, DataTypeKind, DataValue};

verus! {

/// A fully resolved, typed expression.
#[derive(Debug, PartialEq, Eq)]
pub enum BoundExpr {
    /// A column reference, resolved to stable catalog identifiers.
    ColumnRef { table_ref_id: TableRefId, column_id: ColumnId, desc: ColumnDesc },
    /// A literal, carrying its typed value.
    Constant(DataValue),
    /// A binary operation with its resolved result type (`None` marks the
    /// type of a null operand propagating through).
    BinaryOp {
        op: BinaryOperator,
        left: Box<BoundExpr>,
        right: Box<BoundExpr>,
        return_type: Option<DataTypeKind>,
    },
    /// A unary operation with its resolved result type.
    UnaryOp { op: UnaryOperator, expr: Box<BoundExpr>, return_type: Option<DataTypeKind> },
    /// A SELECT-list alias wrapped around the expression it names.
    Alias { name: String, expr: Box<BoundExpr> },
}

/// Clone a bound expression, keeping it equal to the original.
pub fn clone_bound_expr(e: &BoundExpr) -> (r: BoundExpr)
    ensures
        r == *e,
    decreases e,
{
    match e {
        BoundExpr::ColumnRef { table_ref_id, column_id, desc } => BoundExpr::ColumnRef {
            table_ref_id: *table_ref_id,
            column_id: *column_id,
            desc: desc.clone(),
        },
        BoundExpr::Constant(v) => BoundExpr::Constant(v.clone()),
        BoundExpr::BinaryOp { op, left, right, return_type } => BoundExpr::BinaryOp {
            op: *op,
            left: Box::new(clone_bound_expr(left)),
            right: Box::new(clone_bound_expr(right)),
            return_type: *return_type,
        },
        BoundExpr::UnaryOp { op, expr, return_type } => BoundExpr::UnaryOp {
            op: *op,
            expr: Box::new(clone_bound_expr(expr)),
            return_type: *return_type,
        },
        BoundExpr::Alias { name, expr } => BoundExpr::Alias {
            name: name.clone(),
            expr: Box::new(clone_bound_expr(expr)),
        },
    }
}

impl Clone for BoundExpr {
    fn clone(&self) -> (res: Self)
        ensures
            res == *self,
    {
        clone_bound_expr(self)
    }
}

impl BoundExpr {
    /// The result type of this expression; `None` for a null literal and for
    /// operations whose type is determined by a null operand alone.
    pub open spec fn spec_return_type(self) -> Option<DataTypeKind>
        decreases self,
    {
        match self {
            BoundExpr::ColumnRef { desc, .. } => Some(desc.kind),
            BoundExpr::Constant(v) => v.spec_kind(),
            BoundExpr::BinaryOp { return_type, .. } => return_type,
            BoundExpr::UnaryOp { return_type, .. } => return_type,
            BoundExpr::Alias { expr, .. } => expr.spec_return_type(),
        }
    }

    /// Executable counterpart of [`BoundExpr::spec_return_type`].
    pub fn return_type(&self) -> (r: Option<DataTypeKind>)
        ensures
            r == self.spec_return_type(),
        decreases self,
    {
        match self {
            BoundExpr::ColumnRef { desc, .. } => Some(desc.kind),
            BoundExpr::Constant(v) => v.kind(),
            BoundExpr::BinaryOp { return_type, .. } => *return_type,
            BoundExpr::UnaryOp { return_type, .. } => *return_type,
            BoundExpr::Alias { expr, .. } => expr.return_type(),
        }
    }
}

/// Whether the operator yields a boolean whatever its operand types are
/// (comparisons and the logical connectives).
pub open spec fn spec_is_comparison(op: BinaryOperator) -> bool {
    match op {
        BinaryOperator::Eq
        | BinaryOperator::NotEq
        | BinaryOperator::Lt
        | BinaryOperator::Gt
        | BinaryOperator::LtEq
        | BinaryOperator::GtEq
        | BinaryOperator::And
        | BinaryOperator::Or => true,
        _ => false,
    }
}

/// The result type of a binary operation over the operand types, or `None`
/// when the operand types are neither identical nor coercible: a comparison
/// yields a boolean, an arithmetic operation the common (widened) operand
/// type, and a null operand adapts to the other side.
pub open spec fn spec_binop_type(
    op: BinaryOperator,
    l: Option<DataTypeKind>,
    r: Option<DataTypeKind>,
) -> Option<Option<DataTypeKind>> {
    let cmp = spec_is_comparison(op);
    match (l, r) {
        (None, None) => if cmp {
            Some(Some(DataTypeKind::Bool))
        } else {
            Some(None)
        },
        (None, Some(b)) => if cmp {
            Some(Some(DataTypeKind::Bool))
        } else {
            Some(Some(b))
        },
        (Some(a), None) => if cmp {
            Some(Some(DataTypeKind::Bool))
        } else {
            Some(Some(a))
        },
        (Some(a), Some(b)) => match spec_common_kind(a, b) {
            Some(c) => if cmp {
                Some(Some(DataTypeKind::Bool))
            } else {
                Some(Some(c))
            },
            None => None,
        },
    }
}

/// Executable counterpart of [`spec_binop_type`].
pub fn binop_type(op: BinaryOperator, l: Option<DataTypeKind>, r: Option<DataTypeKind>) -> (res:
    Option<Option<DataTypeKind>>)
    ensures
        res == spec_binop_type(op, l, r),
{
    let cmp = match op {
        BinaryOperator::Eq
        | BinaryOperator::NotEq
        | BinaryOperator::Lt
        | BinaryOperator::Gt
        | BinaryOperator::LtEq
        | BinaryOperator::GtEq
        | BinaryOperator::And
        | BinaryOperator::Or => true,
        _ => false,
    };
    match (l, r) {
        (None, None) => if cmp {
            Some(Some(DataTypeKind::Bool))
        } else {
            Some(None)
        },
        (None, Some(b)) => if cmp {
            Some(Some(DataTypeKind::Bool))
        } else {
            Some(Some(b))
        },
        (Some(a), None) => if cmp {
            Some(Some(DataTypeKind::Bool))
        } else {
            Some(Some(a))
        },
        (Some(a), Some(b)) => match common_kind(a, b) {
            Some(c) => if cmp {
                Some(Some(DataTypeKind::Bool))
            } else {
                Some(Some(c))
            },
            None => None,
        },
    }
}

/// The result type of a unary operation over the operand type, or `None`
/// when the operation does not apply to that type: NOT applies to booleans,
/// negation to the integer kinds, and a null operand passes through.
pub open spec fn spec_unop_type(op: UnaryOperator, t: Option<DataTypeKind>) -> Option<
    Option<DataTypeKind>,
> {
    match op {
        UnaryOperator::Not => match t {
            None => Some(Some(DataTypeKind::Bool)),
            Some(DataTypeKind::Bool) => Some(Some(DataTypeKind::Bool)),
            Some(_) => None,
        },
        UnaryOperator::Minus => match t {
            None => Some(None),
            Some(DataTypeKind::Int32) => Some(Some(DataTypeKind::Int32)),
            Some(DataTypeKind::Int64) => Some(Some(DataTypeKind::Int64)),
            Some(_) => None,
        },
    }
}

/// Executable counterpart of [`spec_unop_type`].
pub fn unop_type(op: UnaryOperator, t: Option<DataTypeKind>) -> (res: Option<
    Option<DataTypeKind>,
>)
    ensures
        res == spec_unop_type(op, t),
{
    match op {
        UnaryOperator::Not => match t {
            None => Some(Some(DataTypeKind::Bool)),
            Some(DataTypeKind::Bool) => Some(Some(DataTypeKind::Bool)),
            Some(_) => None,
        },
        UnaryOperator::Minus => match t {
            None => Some(None),
            Some(DataTypeKind::Int32) => Some(Some(DataTypeKind::Int32)),
            Some(DataTypeKind::Int64) => Some(Some(DataTypeKind::Int64)),
            Some(_) => None,
        },
    }
}


/// What resolving a qualified reference `table.column` yields: the table (or
/// alias) must be registered in the scope and the column must exist in it.
pub open spec fn spec_resolve_qualified(
    tables: Seq<TableEntry>,
    table: Ident,
    column: Ident,
) -> Result<BoundExpr, SpecBindError> {
    match spec_find_entry(tables, table.value@) {
        None => Err(SpecBindError::InvalidTable(table.value@)),
        Some(e) => match spec_col_idx(e.columns@, column.value@) {
            None => Err(SpecBindError::InvalidColumn(column.value@)),
            Some(j) => Ok(
                BoundExpr::ColumnRef {
                    table_ref_id: e.ref_id,
                    column_id: e.columns@[j].id,
                    desc: e.columns@[j].desc,
                },
            ),
        },
    }
}

/// What resolving a bare identifier yields: the column of the single visible
/// table carrying it, the ambiguous-column error when more than one table
/// carries it, and otherwise the expression stored for the alias of that
/// name, if any; a name matching nothing is an invalid column.
pub open spec fn spec_resolve_identifier(
    tables: Seq<TableEntry>,
    aliases: Seq<AliasEntry>,
    id: Ident,
) -> Result<BoundExpr, SpecBindError> {
    match spec_ident_lookup(tables, id.value@) {
        IdentLookup::Ambiguous => Err(SpecBindError::AmbiguousColumn),
        IdentLookup::Found(e, j) => Ok(
            BoundExpr::ColumnRef {
                table_ref_id: e.ref_id,
                column_id: e.columns@[j].id,
                desc: e.columns@[j].desc,
            },
        ),
        IdentLookup::NotFound => match spec_find_alias(aliases, id.value@) {
            Some(ex) => Ok(ex),
            None => Err(SpecBindError::InvalidColumn(id.value@)),
        },
    }
}

/// The message carried by the error for a dotted name that is not of the
/// form `table.column`.
pub open spec fn spec_qualified_arity_msg() -> Seq<char> {
    "unsupported qualified name"@
}

/// The message carried by the error for a unary operation on a type it does
/// not apply to.
pub open spec fn spec_unary_type_msg() -> Seq<char> {
    "unsupported unary operation"@
}

/// What binding a syntactic expression against a scope yields: the resolved,
/// typed expression, or the first error found in a left-to-right traversal.
pub open spec fn spec_bind_expr(
    tables: Seq<TableEntry>,
    aliases: Seq<AliasEntry>,
    e: Expr,
) -> Result<BoundExpr, SpecBindError>
    decreases e,
{
    match e {
        Expr::Identifier(id) => spec_resolve_identifier(tables, aliases, id),
        Expr::CompoundIdentifier(ids) => if ids@.len() == 2 {
            spec_resolve_qualified(tables, ids@[0], ids@[1])
        } else {
            Err(SpecBindError::InvalidExpression(spec_qualified_arity_msg()))
        },
        Expr::Literal(v) => Ok(BoundExpr::Constant(v)),
        Expr::BinaryOp { left, op, right } => match spec_bind_expr(tables, aliases, *left) {
            Err(e1) => Err(e1),
            Ok(bl) => match spec_bind_expr(tables, aliases, *right) {
                Err(e2) => Err(e2),
                Ok(br) => match spec_binop_type(
                    op,
                    bl.spec_return_type(),
                    br.spec_return_type(),
                ) {
                    Some(ty) => Ok(
                        BoundExpr::BinaryOp {
                            op,
                            left: Box::new(bl),
                            right: Box::new(br),
                            return_type: ty,
                        },
                    ),
                    None => Err(
                        SpecBindError::BinaryOpTypeMismatch(
                            spec_kind_name(bl.spec_return_type().unwrap()),
                            spec_kind_name(br.spec_return_type().unwrap()),
                        ),
                    ),
                },
            },
        },
        Expr::UnaryOp { op, expr } => match spec_bind_expr(tables, aliases, *expr) {
            Err(e1) => Err(e1),
            Ok(be) => match spec_unop_type(op, be.spec_return_type()) {
                Some(ty) => Ok(
                    BoundExpr::UnaryOp { op, expr: Box::new(be), return_type: ty },
                ),
                None => Err(SpecBindError::InvalidExpression(spec_unary_type_msg())),
            },
        },
    }
}

/// The image of a binding result in the mathematical error type.
pub open spec fn spec_bind_result(r: Result<BoundExpr, BindError>) -> Result<
    BoundExpr,
    SpecBindError,
> {
    match r {
        Ok(b) => Ok(b),
        Err(e) => Err(spec_err(e)),
    }
}

impl BinderContext {
    /// Look up the expression stored for an alias (first match).
    pub fn find_alias_expr(&self, name: &String) -> (r: Option<&BoundExpr>)
        ensures
            match r {
                Some(e) => spec_find_alias(self.aliases@, name@) == Some(*e),
                None => spec_find_alias(self.aliases@, name@) is None,
            },
    {
        let mut i: usize = 0;
        proof {
            assert(self.aliases@.skip(0) =~= self.aliases@);
        }
        while i < self.aliases.len()
            invariant
                i <= self.aliases.len(),
                spec_find_alias(self.aliases@, name@) == spec_find_alias(
                    self.aliases@.skip(i as int),
                    name@,
                ),
            decreases self.aliases.len() - i,
        {
            proof {
                assert(self.aliases@.skip(i as int)[0] == self.aliases@[i as int]);
            }
            if self.aliases[i].name == *name {
                return Some(&self.aliases[i].expr);
            }
            proof {
                assert(self.aliases@.skip(i as int).drop_first() =~= self.aliases@.skip(i + 1));
            }
            i += 1;
        }
        proof {
            assert(self.aliases@.skip(i as int).len() == 0);
        }
        None
    }

    /// Resolve a qualified column reference `table.column` against this scope.
    pub fn resolve_qualified(&self, table: &Ident, column: &Ident) -> (r: Result<
        BoundExpr,
        BindError,
    >)
        ensures
            spec_bind_result(r) == spec_resolve_qualified(self.regular_tables@, *table, *column),
    {
        match self.find_entry(&table.value) {
            None => Err(BindError::InvalidTable(table.value.clone())),
            Some(e) => match find_column_idx(&e.columns, &column.value) {
                None => Err(BindError::InvalidColumn(column.value.clone())),
                Some(j) => {
                    proof {
                        lemma_col_idx(e.columns@, column.value@);
                    }
                    Ok(
                        BoundExpr::ColumnRef {
                            table_ref_id: e.ref_id,
                            column_id: e.columns[j].id,
                            desc: e.columns[j].desc.clone(),
                        },
                    )
                },
            },
        }
    }

    /// Resolve a bare identifier against this scope: an unqualified column
    /// if exactly one visible table carries it, the ambiguous-column error
    /// if several do, and otherwise a SELECT-list alias of that name.
    pub fn resolve_identifier(&self, id: &Ident) -> (r: Result<BoundExpr, BindError>)
        ensures
            spec_bind_result(r) == spec_resolve_identifier(self.regular_tables@, self.aliases@, *id),
    {
        let n = self.regular_tables.len();
        let mut i = n;
        let mut found_t: usize = 0;
        let mut found_c: usize = 0;
        let mut has_found = false;
        let mut ambiguous = false;
        proof {
            assert(self.regular_tables@.skip(n as int) =~= Seq::<TableEntry>::empty());
        }
        while i > 0
            invariant
                i <= n,
                n == self.regular_tables@.len(),
                match spec_ident_lookup(self.regular_tables@.skip(i as int), id.value@) {
                    IdentLookup::NotFound => !has_found && !ambiguous,
                    IdentLookup::Found(e, j) => has_found && !ambiguous && i <= found_t < n
                        && self.regular_tables@[found_t as int] == e && j == found_c as int
                        && spec_col_idx(e.columns@, id.value@) == Some(found_c as int),
                    IdentLookup::Ambiguous => ambiguous,
                },
            decreases i,
        {
            i -= 1;
            proof {
                assert(self.regular_tables@.skip(i as int)[0] == self.regular_tables@[i as int]);
                assert(self.regular_tables@.skip(i as int).drop_first()
                    =~= self.regular_tables@.skip(i as int + 1));
            }
            match find_column_idx(&self.regular_tables[i].columns, &id.value) {
                Some(j) => {
                    if ambiguous || has_found {
                        ambiguous = true;
                    } else {
                        has_found = true;
                        found_t = i;
                        found_c = j;
                    }
                },
                None => {},
            }
        }
        proof {
            assert(self.regular_tables@.skip(0) =~= self.regular_tables@);
        }
        if ambiguous {
            Err(BindError::AmbiguousColumn)
        } else if has_found {
            let e = &self.regular_tables[found_t];
            proof {
                lemma_col_idx(e.columns@, id.value@);
            }
            Ok(
                BoundExpr::ColumnRef {
                    table_ref_id: e.ref_id,
                    column_id: e.columns[found_c].id,
                    desc: e.columns[found_c].desc.clone(),
                },
            )
        } else {
            match self.find_alias_expr(&id.value) {
                Some(ex) => Ok(clone_bound_expr(ex)),
                None => Err(BindError::InvalidColumn(id.value.clone())),
            }
        }
    }

    /// Resolve a syntactic expression into a typed bound expression against
    /// this scope: the first error found in a left-to-right traversal aborts
    /// the binding.
    pub fn bind_expr(&self, expr: &Expr) -> (r: Result<BoundExpr, BindError>)
        ensures
            spec_bind_result(r) == spec_bind_expr(self.regular_tables@, self.aliases@, *expr),
        decreases expr,
    {
        match expr {
            Expr::Identifier(id) => self.resolve_identifier(id),
            Expr::CompoundIdentifier(ids) => {
                if ids.len() == 2 {
                    self.resolve_qualified(&ids[0], &ids[1])
                } else {
                    Err(
                        BindError::InvalidExpression(
                            String::from_str("unsupported qualified name"),
                        ),
                    )
                }
            },
            Expr::Literal(v) => Ok(BoundExpr::Constant(v.clone())),
            Expr::BinaryOp { left, op, right } => {
                let bl = match self.bind_expr(left) {
                    Ok(b) => b,
                    Err(er) => {
                        return Err(er);
                    },
                };
                let br = match self.bind_expr(right) {
                    Ok(b) => b,
                    Err(er) => {
                        return Err(er);
                    },
                };
                let lt = bl.return_type();
                let rt = br.return_type();
                match binop_type(*op, lt, rt) {
                    Some(ty) => Ok(
                        BoundExpr::BinaryOp {
                            op: *op,
                            left: Box::new(bl),
                            right: Box::new(br),
                            return_type: ty,
                        },
                    ),
                    None => {
                        let (ak, bk) = match (lt, rt) {
                            (Some(ak), Some(bk)) => (ak, bk),
                            _ => {
                                proof {
                                    assert(false);
                                }
                                (DataTypeKind::Bool, DataTypeKind::Bool)
                            },
                        };
                        Err(BindError::BinaryOpTypeMismatch(kind_name(ak), kind_name(bk)))
                    },
                }
            },
            Expr::UnaryOp { op, expr: inner } => {
                let be = match self.bind_expr(inner) {
                    Ok(b) => b,
                    Err(er) => {
                        return Err(er);
                    },
                };
                match unop_type(*op, be.return_type()) {
                    Some(ty) => Ok(
                        BoundExpr::UnaryOp { op: *op, expr: Box::new(be), return_type: ty },
                    ),
                    None => Err(
                        BindError::InvalidExpression(
                            String::from_str("unsupported unary operation"),
                        ),
                    ),
                }
            },
        }
    }
}

/// An unqualified column carried by more than one visible table is
/// ambiguous: in a scope of two tables both carrying the column, resolving
/// the bare name fails with the ambiguous-column error.
pub proof fn lemma_shared_column_is_ambiguous(
    tables: Seq<TableEntry>,
    aliases: Seq<AliasEntry>,
    e1: TableEntry,
    e2: TableEntry,
    col: Ident,
)
    requires
        tables == seq![e1, e2],
        spec_col_idx(e1.columns@, col.value@) is Some,
        spec_col_idx(e2.columns@, col.value@) is Some,
    ensures
        spec_resolve_identifier(tables, aliases, col) == Err::<BoundExpr, SpecBindError>(
            SpecBindError::AmbiguousColumn,
        ),
{
    let s = tables;
    assert(seq![e2].drop_first() =~= Seq::<TableEntry>::empty());
    assert(seq![e2][0] == e2);
    assert(spec_ident_lookup(seq![e2].drop_first(), col.value@) is NotFound);
    assert(spec_ident_lookup(seq![e2], col.value@) matches IdentLookup::Found(_, _));
    assert(s.drop_first() =~= seq![e2]);
    assert(s[0] == e1);
    assert(spec_ident_lookup(s, col.value@) is Ambiguous);
}

/// A qualified reference disambiguates: in the same two-table scope, the
/// shared column resolves through either table name to that table's own
/// column, and the two resolutions refer to distinct tables.
pub proof fn lemma_qualified_disambiguates(
    tables: Seq<TableEntry>,
    e1: TableEntry,
    e2: TableEntry,
    t1: Ident,
    t2: Ident,
    col: Ident,
)
    requires
        tables == seq![e1, e2],
        t1.value@ == e1.name@,
        t2.value@ == e2.name@,
        e1.name@ != e2.name@,
        spec_col_idx(e1.columns@, col.value@) is Some,
        spec_col_idx(e2.columns@, col.value@) is Some,
    ensures
        spec_resolve_qualified(tables, t1, col) matches Ok(b1) && (b1 matches BoundExpr::ColumnRef {
            table_ref_id: r1,
            ..
        } && r1 == e1.ref_id),
        spec_resolve_qualified(tables, t2, col) matches Ok(b2) && (b2 matches BoundExpr::ColumnRef {
            table_ref_id: r2,
            ..
        } && r2 == e2.ref_id),
{
    let s = tables;
    assert(s.drop_first() =~= seq![e2]);
    assert(seq![e2].drop_first() =~= Seq::<TableEntry>::empty());
    assert(s[0] == e1);
    assert(seq![e2][0] == e2);
    assert(spec_find_entry(s, t1.value@) == Some(e1));
    assert(spec_find_entry(seq![e2], t2.value@) == Some(e2));
    assert(spec_find_entry(s, t2.value@) == spec_find_entry(s.drop_first(), t2.value@));
    lemma_col_idx(e1.columns@, col.value@);
    lemma_col_idx(e2.columns@, col.value@);
}

/// An arithmetic operation between a numeric operand and a character-string
/// operand never binds: whatever scope the operands were resolved in, the
/// operation binds to exactly the type-mismatch error naming the two types.
pub proof fn lemma_numeric_string_mismatch(
    tables: Seq<TableEntry>,
    aliases: Seq<AliasEntry>,
    e: Expr,
    bl: BoundExpr,
    br: BoundExpr,
)
    requires
        e matches Expr::BinaryOp { left, op, right } && !spec_is_comparison(op)
            && spec_bind_expr(tables, aliases, *left) == Ok::<BoundExpr, SpecBindError>(bl)
            && spec_bind_expr(tables, aliases, *right) == Ok::<BoundExpr, SpecBindError>(br),
        bl.spec_return_type() == Some(DataTypeKind::Int32) || bl.spec_return_type() == Some(
            DataTypeKind::Int64,
        ),
        br.spec_return_type() == Some(DataTypeKind::Varchar),
    ensures
        spec_bind_expr(tables, aliases, e) == Err::<BoundExpr, SpecBindError>(
            SpecBindError::BinaryOpTypeMismatch(
                spec_kind_name(bl.spec_return_type().unwrap()),
                spec_kind_name(DataTypeKind::Varchar),
            ),
        ),
{
}

/// A SELECT-list alias resolves to the very expression recorded for it: when
/// no visible table carries the name and the name is recorded in the alias
/// list, a bare identifier binds to the stored bound expression itself.
pub proof fn lemma_alias_resolves_to_recorded_expr(
    tables: Seq<TableEntry>,
    aliases: Seq<AliasEntry>,
    id: Ident,
    e: BoundExpr,
)
    requires
        spec_ident_lookup(tables, id.value@) is NotFound,
        spec_find_alias(aliases, id.value@) == Some(e),
    ensures
        spec_resolve_identifier(tables, aliases, id) == Ok::<BoundExpr, SpecBindError>(e),
{
}

} // verus!
