//! The statement binders: one per statement kind, each composing name
//! normalization, catalog lookup, scope management and expression binding.

use vstd::prelude::*;
use crate::ast::{ColumnDef, Expr, Ident, ObjectName, Query, TableRef};
use crate::catalog::{
    column_ids_of, spec_column_descs, spec_column_ids, spec_find_schema, spec_find_table, ColumnDesc, ColumnId,
    SchemaCatalog, TableCatalog, TableRefId,
};
use crate::context::{AliasEntry, TableEntry};
use crate::error::{spec_err, BindError, SpecBindError};
use crate::expression::{clone_bound_expr, spec_bind_expr, spec_bind_result, BoundExpr};
use crate::name::{
    lower_case_name, spec_lower_name, spec_name_parts, split_name, spec_idents_view,
};
use crate::types::{spec_cast_value, cast_value, spec_common_kind, DataTypeKind, DataValue};
use crate::Binder;

verus! {

/// A bound CREATE TABLE: the normalized target name and the declared
/// columns, in declaration order. No catalog lookup is involved: the table
/// does not exist yet.
#[derive(Debug, PartialEq, Eq)]
pub struct BoundCreateTable {
    pub schema_name: String,
    pub table_name: String,
    pub columns: Vec<ColumnDesc>,
}

/// A bound DROP: the resolved target table.
#[derive(Debug, Clone, Copy, PartialEq, Eq, Structural)]
pub struct BoundDrop {
    pub table_ref_id: TableRefId,
}

/// A bound INSERT: the resolved target table, its column ids in order, and
/// the bound rows.
#[derive(Debug, PartialEq, Eq)]
pub struct BoundInsert {
    pub table_ref_id: TableRefId,
    pub column_ids: Vec<ColumnId>,
    pub values: Vec<Vec<BoundExpr>>,
}

/// A bound COPY: the resolved target table and the resolved column list.
#[derive(Debug, PartialEq, Eq)]
pub struct BoundCopy {
    pub table_ref_id: TableRefId,
    pub column_ids: Vec<ColumnId>,
    pub column_descs: Vec<ColumnDesc>,
}

/// A bound DELETE: the resolved target table and the bound filter, if any.
#[derive(Debug, PartialEq, Eq)]
pub struct BoundDelete {
    pub table_ref_id: TableRefId,
    pub filter: Option<BoundExpr>,
}

/// What splitting a name after case folding yields: `(schema, table)` for a
/// one- or two-part name, the invalid-table-name error otherwise.
pub open spec fn spec_split_lowered(name: ObjectName) -> Result<(Seq<char>, Seq<char>), SpecBindError> {
    let parts = spec_lower_name(spec_name_parts(name));
    if parts.len() == 1 {
        Ok((crate::catalog::spec_default_schema_name(), parts[0]))
    } else if parts.len() == 2 {
        Ok((parts[0], parts[1]))
    } else {
        Err(SpecBindError::InvalidTableName(parts))
    }
}

/// What looking a `(schema, table)` pair up in the catalog yields.
pub open spec fn spec_lookup_table(
    schemas: Seq<SchemaCatalog>,
    schema: Seq<char>,
    table: Seq<char>,
) -> Result<TableCatalog, SpecBindError> {
    match spec_find_schema(schemas, schema) {
        None => Err(SpecBindError::InvalidSchema(schema)),
        Some(s) => match spec_find_table(s.tables@, table) {
            None => Err(SpecBindError::InvalidTable(table)),
            Some(t) => Ok(t),
        },
    }
}

/// What resolving an object name against the catalog yields: the name is
/// case folded, split, and looked up.
pub open spec fn spec_resolve_table(schemas: Seq<SchemaCatalog>, name: ObjectName) -> Result<
    TableCatalog,
    SpecBindError,
> {
    match spec_split_lowered(name) {
        Err(e) => Err(e),
        Ok((s, t)) => spec_lookup_table(schemas, s, t),
    }
}

/// The descriptors declared by a CREATE TABLE column list, in order.
pub open spec fn spec_descs_of_defs(cols: Seq<ColumnDef>) -> Seq<ColumnDesc> {
    cols.map_values(
        |d: ColumnDef| ColumnDesc { name: d.name.value, kind: d.kind, nullable: d.nullable },
    )
}

/// Whether the column at index `i` repeats the name of an earlier column.
pub open spec fn spec_has_earlier(cols: Seq<ColumnDef>, i: int) -> bool {
    exists|j: int| 0 <= j < i && cols[j].name.value@ == cols[i].name.value@
}

/// The name of the first declared column that repeats an earlier column's
/// name, scanning from index `i` on; `None` when all names are distinct.
pub open spec fn spec_find_dup(cols: Seq<ColumnDef>, i: int) -> Option<Seq<char>>
    decreases cols.len() - i,
{
    if i < 0 || i >= cols.len() {
        None
    } else if spec_has_earlier(cols, i) {
        Some(cols[i].name.value@)
    } else {
        spec_find_dup(cols, i + 1)
    }
}

/// What binding a CREATE TABLE yields: the folded and split name, unless the
/// name is over-qualified or two declared columns share a name.
pub open spec fn spec_create_table_result(name: ObjectName, cols: Seq<ColumnDef>) -> Result<
    (Seq<char>, Seq<char>),
    SpecBindError,
> {
    match spec_split_lowered(name) {
        Err(e) => Err(e),
        Ok((s, t)) => match spec_find_dup(cols, 0) {
            Some(n) => Err(SpecBindError::DuplicatedColumn(n)),
            None => Ok((s, t)),
        },
    }
}

/// What a successful INSERT binding holds: the resolved target, its column
/// ids in order, and every cell bound by the value rules, positionally.
#[verifier::opaque]
pub open spec fn spec_insert_ok(
    schemas: Seq<SchemaCatalog>,
    tables: Seq<TableEntry>,
    aliases: Seq<AliasEntry>,
    table_name: ObjectName,
    values: Seq<Vec<Expr>>,
    b: BoundInsert,
) -> bool {
    spec_resolve_table(schemas, table_name) matches Ok(t) && b.table_ref_id == t.id
        && b.column_ids@ == spec_column_ids(t.columns@) && b.values@.len() == values.len() && (
    forall|a: int|
        0 <= a < values.len() ==> #[trigger] b.values@[a]@.len() == t.columns@.len()
            && values[a]@.len() == t.columns@.len()) && (forall|a: int, c: int|
        0 <= a < values.len() && 0 <= c < t.columns@.len() ==> spec_bind_value(
            tables,
            aliases,
            values[a]@[c],
            t.columns@[c].desc,
        ) == Ok::<_, SpecBindError>(#[trigger] b.values@[a]@[c]))
}

/// Whether binding an INSERT's rows fails first at row `a`: every earlier
/// row has the right length and binds completely, and row `a` has the wrong
/// length (an arity error) or fails first at some cell with the given error.
pub open spec fn spec_insert_fails_at(
    tables: Seq<TableEntry>,
    aliases: Seq<AliasEntry>,
    values: Seq<Vec<Expr>>,
    cols: Seq<crate::catalog::CatalogColumn>,
    a: int,
    e: BindError,
) -> bool {
    0 <= a < values.len() && (forall|x: int|
        0 <= x < a ==> #[trigger] values[x]@.len() == cols.len()) && (forall|x: int, y: int|
        0 <= x < a && 0 <= y < cols.len() ==> #[trigger] spec_bind_value(
            tables,
            aliases,
            values[x]@[y],
            cols[y].desc,
        ) is Ok) && ((values[a]@.len() != cols.len() && spec_err(e)
        == SpecBindError::InvalidExpression(spec_arity_msg())) || (values[a]@.len() == cols.len()
        && (exists|c: int|
        0 <= c < cols.len() && (forall|y: int|
            0 <= y < c ==> #[trigger] spec_bind_value(
                tables,
                aliases,
                values[a]@[y],
                cols[y].desc,
            ) is Ok) && spec_bind_value(tables, aliases, values[a]@[c], cols[c].desc) == Err::<
            BoundExpr,
            SpecBindError,
        >(spec_err(e)))))
}

/// What a failed INSERT binding holds: the error is the resolution failure,
/// or else it comes from the first failing row in order.
#[verifier::opaque]
pub open spec fn spec_insert_err(
    schemas: Seq<SchemaCatalog>,
    tables: Seq<TableEntry>,
    aliases: Seq<AliasEntry>,
    table_name: ObjectName,
    values: Seq<Vec<Expr>>,
    e: BindError,
) -> bool {
    ||| spec_resolve_table(schemas, table_name) == Err::<TableCatalog, SpecBindError>(spec_err(e))
    ||| (spec_resolve_table(schemas, table_name) matches Ok(t) && (exists|a: int|
        #[trigger] spec_insert_fails_at(tables, aliases, values, t.columns@, a, e)))
}

/// What a successful COPY binding holds: the resolved target and, for each
/// listed column, its id and descriptor in list order.
#[verifier::opaque]
pub open spec fn spec_copy_ok(
    schemas: Seq<SchemaCatalog>,
    table_name: ObjectName,
    columns: Seq<Ident>,
    b: BoundCopy,
) -> bool {
    spec_resolve_table(schemas, table_name) matches Ok(t) && b.table_ref_id == t.id
        && b.column_ids@.len() == columns.len() && b.column_descs@.len() == columns.len() && (
    forall|x: int|
        0 <= x < columns.len() ==> (crate::catalog::spec_col_idx(
            t.columns@,
            #[trigger] columns[x].value@,
        ) matches Some(j) && b.column_ids@[x] == t.columns@[j].id && b.column_descs@[x]
            == t.columns@[j].desc))
}

/// Whether resolving a COPY's column list fails first at position `x`: every
/// earlier listed column exists in the table and the one at `x` does not.
pub open spec fn spec_copy_fails_at(
    columns: Seq<Ident>,
    cols: Seq<crate::catalog::CatalogColumn>,
    x: int,
    e: BindError,
) -> bool {
    0 <= x < columns.len() && (forall|k: int|
        0 <= k < x ==> crate::catalog::spec_col_idx(cols, #[trigger] columns[k].value@) is Some)
        && crate::catalog::spec_col_idx(cols, columns[x].value@) is None && spec_err(e)
        == SpecBindError::InvalidColumn(columns[x].value@)
}

/// What a failed COPY binding holds: the resolution failure, or else the
/// invalid-column error naming the first listed column the table lacks.
#[verifier::opaque]
pub open spec fn spec_copy_err(
    schemas: Seq<SchemaCatalog>,
    table_name: ObjectName,
    columns: Seq<Ident>,
    e: BindError,
) -> bool {
    ||| spec_resolve_table(schemas, table_name) == Err::<TableCatalog, SpecBindError>(spec_err(e))
    ||| (spec_resolve_table(schemas, table_name) matches Ok(t) && (exists|x: int|
        #[trigger] spec_copy_fails_at(columns, t.columns@, x, e)))
}

/// What a successful DELETE binding holds: the resolved target and, if a
/// filter was given, the filter bound in a fresh scope in which the target
/// is the only visible table.
#[verifier::opaque]
pub open spec fn spec_delete_ok(
    schemas: Seq<SchemaCatalog>,
    table_name: ObjectName,
    selection: Option<Expr>,
    b: BoundDelete,
) -> bool {
    spec_resolve_table(schemas, table_name) matches Ok(t) && b.table_ref_id == t.id && (match
    selection {
        None => b.filter is None,
        Some(f) => b.filter matches Some(bf) && (exists|te: TableEntry|
            te.ref_id == t.id && te.name@ == t.name@ && te.columns@ == t.columns@
                && spec_bind_expr(seq![te], Seq::<AliasEntry>::empty(), f) == Ok::<
                _,
                SpecBindError,
            >(bf)),
    })
}

/// What a failed DELETE binding holds: the resolution failure, or else the
/// filter's own binding failure against the fresh one-table scope.
#[verifier::opaque]
pub open spec fn spec_delete_err(
    schemas: Seq<SchemaCatalog>,
    table_name: ObjectName,
    selection: Option<Expr>,
    e: BindError,
) -> bool {
    ||| spec_resolve_table(schemas, table_name) == Err::<TableCatalog, SpecBindError>(spec_err(e))
    ||| (spec_resolve_table(schemas, table_name) matches Ok(t) && (selection matches Some(f) && (
    exists|te: TableEntry|
        te.ref_id == t.id && te.name@ == t.name@ && te.columns@ == t.columns@ && spec_bind_expr(
            seq![te],
            Seq::<AliasEntry>::empty(),
            f,
        ) == Err::<BoundExpr, SpecBindError>(spec_err(e)))))
}

/// Bind each expression of a list in order against a fixed scope, stopping
/// at the first error.
pub open spec fn spec_bind_exprs(
    tables: Seq<TableEntry>,
    aliases: Seq<AliasEntry>,
    es: Seq<Expr>,
) -> Result<Seq<BoundExpr>, SpecBindError>
    decreases es.len(),
{
    if es.len() == 0 {
        Ok(Seq::<BoundExpr>::empty())
    } else {
        match spec_bind_exprs(tables, aliases, es.drop_last()) {
            Err(e) => Err(e),
            Ok(bs) => match spec_bind_expr(tables, aliases, es.last()) {
                Err(e) => Err(e),
                Ok(b) => Ok(bs.push(b)),
            },
        }
    }
}

/// Bind a SELECT list in order: each item is bound against the scope
/// including the aliases recorded so far; an aliased item is wrapped in an
/// alias node and its (unwrapped) bound expression is recorded under the
/// alias. Yields the bound items and the final alias list.
pub open spec fn spec_bind_projection(
    tables: Seq<TableEntry>,
    aliases: Seq<AliasEntry>,
    items: Seq<crate::ast::SelectItem>,
) -> Result<(Seq<BoundExpr>, Seq<AliasEntry>), SpecBindError>
    decreases items.len(),
{
    if items.len() == 0 {
        Ok((Seq::<BoundExpr>::empty(), aliases))
    } else {
        match spec_bind_projection(tables, aliases, items.drop_last()) {
            Err(e) => Err(e),
            Ok(pa) => match spec_bind_expr(tables, pa.1, items.last().expr) {
                Err(e) => Err(e),
                Ok(b) => match items.last().alias {
                    Some(a) => Ok(
                        (
                            pa.0.push(BoundExpr::Alias { name: a.value, expr: Box::new(b) }),
                            pa.1.push(AliasEntry { name: a.value, expr: b }),
                        ),
                    ),
                    None => Ok((pa.0.push(b), pa.1)),
                },
            },
        }
    }
}

/// Bind an optional expression against a fixed scope.
pub open spec fn spec_bind_opt(
    tables: Seq<TableEntry>,
    aliases: Seq<AliasEntry>,
    e: Option<Expr>,
) -> Result<Option<BoundExpr>, SpecBindError> {
    match e {
        None => Ok(None),
        Some(x) => match spec_bind_expr(tables, aliases, x) {
            Err(er) => Err(er),
            Ok(b) => Ok(Some(b)),
        },
    }
}

/// A failing prefix fails the whole list: binding stops at the first error.
pub proof fn lemma_bind_exprs_prefix_err(
    tables: Seq<TableEntry>,
    aliases: Seq<AliasEntry>,
    es: Seq<Expr>,
    k: int,
    e: SpecBindError,
)
    requires
        0 <= k <= es.len(),
        spec_bind_exprs(tables, aliases, es.take(k)) == Err::<Seq<BoundExpr>, SpecBindError>(e),
    ensures
        spec_bind_exprs(tables, aliases, es) == Err::<Seq<BoundExpr>, SpecBindError>(e),
    decreases es.len() - k,
{
    if k == es.len() {
        assert(es.take(k) =~= es);
    } else {
        assert(es.take(k + 1).drop_last() =~= es.take(k));
        lemma_bind_exprs_prefix_err(tables, aliases, es, k + 1, e);
    }
}

/// A failing prefix fails the whole SELECT list: binding stops at the first
/// error.
pub proof fn lemma_bind_projection_prefix_err(
    tables: Seq<TableEntry>,
    aliases: Seq<AliasEntry>,
    items: Seq<crate::ast::SelectItem>,
    k: int,
    e: SpecBindError,
)
    requires
        0 <= k <= items.len(),
        spec_bind_projection(tables, aliases, items.take(k)) == Err::<
            (Seq<BoundExpr>, Seq<AliasEntry>),
            SpecBindError,
        >(e),
    ensures
        spec_bind_projection(tables, aliases, items) == Err::<
            (Seq<BoundExpr>, Seq<AliasEntry>),
            SpecBindError,
        >(e),
    decreases items.len() - k,
{
    if k == items.len() {
        assert(items.take(k) =~= items);
    } else {
        assert(items.take(k + 1).drop_last() =~= items.take(k));
        lemma_bind_projection_prefix_err(tables, aliases, items, k + 1, e);
    }
}

/// Whether `tables` is the scope the FROM clause establishes in a fresh
/// scope, for the clause shapes this pins exactly: no FROM clause gives the
/// empty scope, and a single base table gives exactly the resolved table
/// registered under its name or alias. A derived table or a join is not
/// pinned here.
pub open spec fn spec_from_scope_ok(
    schemas: Seq<SchemaCatalog>,
    from: Option<TableRef>,
    tables: Seq<TableEntry>,
) -> bool {
    match from {
        None => tables == Seq::<TableEntry>::empty(),
        Some(TableRef::BaseTable { name, alias }) => spec_resolve_table(schemas, name) matches Ok(
            t,
        ) && tables.len() == 1 && tables[0].ref_id == t.id && tables[0].columns@ == t.columns@ && (
        tables[0].name@ == (match alias {
            Some(a) => a.value@,
            None => t.name@,
        })),
        Some(_) => true,
    }
}

/// Whether the FROM clause itself fails with the given error when bound in a
/// fresh scope: a missing FROM clause never fails, a single base table fails
/// exactly on resolution; a derived table or a join is not pinned here.
pub open spec fn spec_from_fails(
    schemas: Seq<SchemaCatalog>,
    from: Option<TableRef>,
    e: BindError,
) -> bool {
    match from {
        None => false,
        Some(TableRef::BaseTable { name, alias }) => spec_resolve_table(schemas, name) == Err::<
            TableCatalog,
            SpecBindError,
        >(spec_err(e)),
        Some(_) => true,
    }
}

/// What the clauses of a successfully bound SELECT hold, given the scope
/// `tables` its FROM clause established: WHERE and the SELECT list are bound
/// against it (the SELECT list recording aliases), and GROUP BY, HAVING and
/// ORDER BY are bound against the scope including those aliases.
pub open spec fn spec_select_clauses_ok(
    tables: Seq<TableEntry>,
    q: Query,
    sel: BoundSelect,
) -> bool {
    &&& (sel.from_table is Some <==> q.from is Some)
    &&& spec_bind_opt(tables, Seq::<AliasEntry>::empty(), q.selection) == Ok::<_, SpecBindError>(
        sel.where_clause,
    )
    &&& spec_bind_projection(tables, Seq::<AliasEntry>::empty(), q.projection@) matches Ok(pa) && (
    pa.0 == sel.select_list@ && spec_bind_exprs(tables, pa.1, q.group_by@) == Ok::<
        _,
        SpecBindError,
    >(sel.group_by@) && spec_bind_opt(tables, pa.1, q.having) == Ok::<_, SpecBindError>(sel.having)
        && spec_bind_exprs(tables, pa.1, q.order_by@) == Ok::<_, SpecBindError>(sel.order_by@))
}

/// What a failed binding of a SELECT's clauses holds, given the scope its
/// FROM clause established: the error is the first failure in clause order —
/// WHERE, then the SELECT list, then GROUP BY, HAVING, ORDER BY.
pub open spec fn spec_select_clauses_err(tables: Seq<TableEntry>, q: Query, e: BindError) -> bool {
    ||| spec_bind_opt(tables, Seq::<AliasEntry>::empty(), q.selection) == Err::<
        Option<BoundExpr>,
        SpecBindError,
    >(spec_err(e))
    ||| (spec_bind_opt(tables, Seq::<AliasEntry>::empty(), q.selection) is Ok
        && spec_bind_projection(tables, Seq::<AliasEntry>::empty(), q.projection@) == Err::<
        (Seq<BoundExpr>, Seq<AliasEntry>),
        SpecBindError,
    >(spec_err(e)))
    ||| (spec_bind_opt(tables, Seq::<AliasEntry>::empty(), q.selection) is Ok && (
    spec_bind_projection(tables, Seq::<AliasEntry>::empty(), q.projection@) matches Ok(pa)
        && (spec_bind_exprs(tables, pa.1, q.group_by@) == Err::<Seq<BoundExpr>, SpecBindError>(
        spec_err(e),
    ) || (spec_bind_exprs(tables, pa.1, q.group_by@) is Ok && spec_bind_opt(tables, pa.1, q.having)
        == Err::<Option<BoundExpr>, SpecBindError>(spec_err(e))) || (spec_bind_exprs(
        tables,
        pa.1,
        q.group_by@,
    ) is Ok && spec_bind_opt(tables, pa.1, q.having) is Ok && spec_bind_exprs(
        tables,
        pa.1,
        q.order_by@,
    ) == Err::<Seq<BoundExpr>, SpecBindError>(spec_err(e))))))
}

/// What a successful SELECT binding holds: for some scope its FROM clause
/// established (pinned exactly for a missing FROM clause and for a single
/// base table), every clause is bound against that scope as
/// [`spec_select_clauses_ok`] says.
#[verifier::opaque]
pub open spec fn spec_select_ok(schemas: Seq<SchemaCatalog>, q: Query, sel: BoundSelect) -> bool {
    exists|tables: Seq<TableEntry>|
        #[trigger] spec_from_scope_ok(schemas, q.from, tables) && spec_select_clauses_ok(
            tables,
            q,
            sel,
        )
}

/// What a failed SELECT binding holds: the FROM clause itself failed, or the
/// first failing clause after it failed with this error against the scope
/// the FROM clause established.
#[verifier::opaque]
pub open spec fn spec_select_err(schemas: Seq<SchemaCatalog>, q: Query, e: BindError) -> bool {
    ||| spec_from_fails(schemas, q.from, e)
    ||| (exists|tables: Seq<TableEntry>|
        #[trigger] spec_from_scope_ok(schemas, q.from, tables) && spec_select_clauses_err(
            tables,
            q,
            e,
        ))
}

impl Binder {
    /// Resolve an object name to a catalog table: fold its case, split it
    /// into schema and table, look both up, and record the physical table in
    /// the statement-wide base-table list.
    pub fn resolve_table(&mut self, name: &ObjectName) -> (r: Result<TableEntry, BindError>)
        ensures
            final(self).catalog == old(self).catalog,
            final(self).context == old(self).context,
            final(self).upper_contexts@ == old(self).upper_contexts@,
            match r {
                Ok(entry) => spec_resolve_table(old(self).catalog.schemas@, *name) matches Ok(t)
                    && entry.ref_id == t.id && entry.columns@ == t.columns@ && entry.name@
                    == t.name@ && final(self).base_table_refs@ == old(
                    self,
                ).base_table_refs@.push(t.name),
                Err(e) => spec_resolve_table(old(self).catalog.schemas@, *name) == Err::<
                    TableCatalog,
                    SpecBindError,
                >(spec_err(e)) && final(self).base_table_refs@ == old(self).base_table_refs@,
            },
    {
        let lowered = lower_case_name(name);
        let (schema_name, table_name) = match split_name(&lowered) {
            Ok(p) => p,
            Err(e) => {
                return Err(e);
            },
        };
        let schema = match self.catalog.get_schema(&schema_name) {
            Some(s) => s,
            None => {
                return Err(BindError::InvalidSchema(schema_name));
            },
        };
        let table = match schema.get_table(&table_name) {
            Some(t) => t,
            None => {
                return Err(BindError::InvalidTable(table_name));
            },
        };
        let entry = TableEntry {
            name: table.name.clone(),
            ref_id: table.id,
            columns: crate::catalog::clone_columns(&table.columns),
        };
        self.base_table_refs.push(table.name.clone());
        Ok(entry)
    }

    /// Bind a CREATE TABLE statement: normalize the table name and reject
    /// over-qualification, then reject duplicated column names, producing
    /// the bound schema in declaration order. The catalog is not consulted.
    pub fn bind_create_table(&mut self, name: &ObjectName, columns: &Vec<ColumnDef>) -> (r: Result<
        BoundCreateTable,
        BindError,
    >)
        ensures
            *final(self) == *old(self),
            match r {
                Ok(b) => spec_create_table_result(*name, columns@) == Ok::<_, SpecBindError>(
                    (b.schema_name@, b.table_name@),
                ) && b.columns@ == spec_descs_of_defs(columns@),
                Err(e) => spec_create_table_result(*name, columns@) == Err::<
                    (Seq<char>, Seq<char>),
                    SpecBindError,
                >(spec_err(e)),
            },
    {
        let lowered = lower_case_name(name);
        let (schema_name, table_name) = match split_name(&lowered) {
            Ok(p) => p,
            Err(e) => {
                return Err(e);
            },
        };
        proof {
            let parts = spec_lower_name(spec_name_parts(*name));
            assert(parts == spec_name_parts(lowered));
            assert(parts.len() == lowered.0@.len());
            if lowered.0@.len() == 1 {
                assert(parts[0] == lowered.0@[0].value@);
            } else {
                assert(parts[0] == lowered.0@[0].value@);
                assert(parts[1] == lowered.0@[1].value@);
            }
            assert(spec_split_lowered(*name) == Ok::<(Seq<char>, Seq<char>), SpecBindError>(
                (schema_name@, table_name@),
            ));
        }
        let n = columns.len();
        let mut i: usize = 0;
        while i < n
            invariant
                i <= n,
                n == columns@.len(),
                spec_split_lowered(*name) == Ok::<(Seq<char>, Seq<char>), SpecBindError>(
                    (schema_name@, table_name@),
                ),
                forall|k: int| 0 <= k < i ==> !spec_has_earlier(columns@, k),
                spec_find_dup(columns@, 0) == spec_find_dup(columns@, i as int),
            decreases n - i,
        {
            let mut j: usize = 0;
            while j < i
                invariant
                    j <= i < n,
                    n == columns@.len(),
                    spec_find_dup(columns@, 0) == spec_find_dup(columns@, i as int),
                    spec_split_lowered(*name) == Ok::<(Seq<char>, Seq<char>), SpecBindError>(
                        (schema_name@, table_name@),
                    ),
                    forall|k: int| 0 <= k < j ==> columns@[k].name.value@ != columns@[
                        i as int
                    ].name.value@,
                decreases i - j,
            {
                if columns[j].name.value == columns[i].name.value {
                    proof {
                        assert(0 <= j < i && columns@[j as int].name.value@ == columns@[
                            i as int
                        ].name.value@);
                        assert(spec_has_earlier(columns@, i as int));
                        assert(spec_find_dup(columns@, i as int) == Some(
                            columns@[i as int].name.value@,
                        ));
                    }
                    return Err(BindError::DuplicatedColumn(columns[i].name.value.clone()));
                }
                j += 1;
            }
            proof {
                assert(!spec_has_earlier(columns@, i as int));
            }
            i += 1;
        }
        let mut descs: Vec<ColumnDesc> = Vec::new();
        let mut i2: usize = 0;
        while i2 < n
            invariant
                i2 <= n,
                n == columns@.len(),
                descs@ == spec_descs_of_defs(columns@.take(i2 as int)),
            decreases n - i2,
        {
            descs.push(
                ColumnDesc {
                    name: columns[i2].name.value.clone(),
                    kind: columns[i2].kind,
                    nullable: columns[i2].nullable,
                },
            );
            proof {
                assert(descs@ =~= spec_descs_of_defs(columns@.take(i2 + 1)));
            }
            i2 += 1;
        }
        proof {
            assert(columns@.take(n as int) =~= columns@);
            assert(descs@ =~= spec_descs_of_defs(columns@));
        }
        Ok(BoundCreateTable { schema_name, table_name, columns: descs })
    }

    /// Bind a DROP statement: resolve the target table by name.
    pub fn bind_drop(&mut self, name: &ObjectName) -> (r: Result<BoundDrop, BindError>)
        ensures
            final(self).catalog == old(self).catalog,
            final(self).context == old(self).context,
            final(self).upper_contexts@ == old(self).upper_contexts@,
            match r {
                Ok(b) => spec_resolve_table(old(self).catalog.schemas@, *name) matches Ok(t)
                    && b.table_ref_id == t.id && final(self).base_table_refs@ == old(
                    self,
                ).base_table_refs@.push(t.name),
                Err(e) => spec_resolve_table(old(self).catalog.schemas@, *name) == Err::<
                    TableCatalog,
                    SpecBindError,
                >(spec_err(e)) && final(self).base_table_refs@ == old(self).base_table_refs@,
            },
    {
        let entry = match self.resolve_table(name) {
            Ok(e) => e,
            Err(e) => {
                return Err(e);
            },
        };
        Ok(BoundDrop { table_ref_id: entry.ref_id })
    }

    /// Bind one inserted value against a column: resolve the expression,
    /// refuse a null in a non-nullable column, cast a literal to the declared
    /// kind, and require any other value's type to coerce into it.
    pub fn bind_value(&self, e: &Expr, desc: &ColumnDesc) -> (r: Result<BoundExpr, BindError>)
        ensures
            spec_bind_result(r) == spec_bind_value(
                self.context.regular_tables@,
                self.context.aliases@,
                *e,
                *desc,
            ),
    {
        let b = match self.context.bind_expr(e) {
            Ok(b) => b,
            Err(er) => {
                return Err(er);
            },
        };
        match b {
            BoundExpr::Constant(v) => {
                if matches!(v, DataValue::Null) && !desc.nullable {
                    Err(BindError::NotNullableColumn(desc.name.clone()))
                } else {
                    match cast_value(&v, desc.kind) {
                        Some(v2) => Ok(BoundExpr::Constant(v2)),
                        None => Err(BindError::CastError(v, desc.kind)),
                    }
                }
            },
            other => {
                match other.return_type() {
                    None => {
                        if !desc.nullable {
                            Err(BindError::NotNullableColumn(desc.name.clone()))
                        } else {
                            Ok(other)
                        }
                    },
                    Some(k) => {
                        let ok = match crate::types::common_kind(k, desc.kind) {
                            Some(c) => c == desc.kind,
                            None => false,
                        };
                        if ok {
                            Ok(other)
                        } else {
                            Err(
                                BindError::InvalidExpression(
                                    String::from_str("value type does not match the column type"),
                                ),
                            )
                        }
                    },
                }
            },
        }
    }

    /// Bind an INSERT statement: resolve the target table, then bind each
    /// row's values positionally against the target's columns, applying the
    /// NOT NULL and cast rules; a row of the wrong length is an invalid
    /// expression.
    #[verifier::rlimit(80)]
    pub fn bind_insert(&mut self, table_name: &ObjectName, values: &Vec<Vec<Expr>>) -> (r: Result<
        BoundInsert,
        BindError,
    >)
        ensures
            final(self).catalog == old(self).catalog,
            final(self).context == old(self).context,
            final(self).upper_contexts@ == old(self).upper_contexts@,
            old(self).base_table_refs@.is_prefix_of(final(self).base_table_refs@),
            match r {
                Ok(b) => spec_insert_ok(
                    old(self).catalog.schemas@,
                    old(self).context.regular_tables@,
                    old(self).context.aliases@,
                    *table_name,
                    values@,
                    b,
                ),
                Err(e) => spec_insert_err(
                    old(self).catalog.schemas@,
                    old(self).context.regular_tables@,
                    old(self).context.aliases@,
                    *table_name,
                    values@,
                    e,
                ),
            },
    {
        let entry = match self.resolve_table(table_name) {
            Ok(e) => e,
            Err(e) => {
                proof {
                    reveal(spec_insert_err);
                }
                return Err(e);
            },
        };
        let column_ids = column_ids_of(&entry.columns);
        let ncols = entry.columns.len();
        let mut rows: Vec<Vec<BoundExpr>> = Vec::new();
        let mut a: usize = 0;
        while a < values.len()
            invariant
                a <= values.len(),
                rows@.len() == a,
                ncols == entry.columns@.len(),
                self.catalog == old(self).catalog,
                self.context == old(self).context,
                self.upper_contexts@ == old(self).upper_contexts@,
                old(self).base_table_refs@.is_prefix_of(self.base_table_refs@),
                spec_resolve_table(old(self).catalog.schemas@, *table_name) matches Ok(t)
                    && entry.ref_id == t.id && entry.columns@ == t.columns@,
                forall|x: int|
                    0 <= x < a ==> #[trigger] rows@[x]@.len() == entry.columns@.len()
                        && values@[x]@.len() == entry.columns@.len(),
                forall|x: int, c: int|
                    0 <= x < a && 0 <= c < entry.columns@.len() ==> spec_bind_value(
                        old(self).context.regular_tables@,
                        old(self).context.aliases@,
                        values@[x]@[c],
                        entry.columns@[c].desc,
                    ) == Ok::<_, SpecBindError>(#[trigger] rows@[x]@[c]),
            decreases values.len() - a,
        {
            let row = &values[a];
            if row.len() != ncols {
                let e = BindError::InvalidExpression(
                    String::from_str("number of values does not match the number of columns"),
                );
                proof {
                    reveal(spec_insert_err);
                    assert forall|x: int| 0 <= x < a implies #[trigger] values@[x]@.len()
                        == entry.columns@.len() by {
                        assert(rows@[x]@.len() == entry.columns@.len());
                    }
                    assert forall|x: int, y: int|
                        0 <= x < a && 0 <= y < entry.columns@.len() implies #[trigger] spec_bind_value(
                        old(self).context.regular_tables@,
                        old(self).context.aliases@,
                        values@[x]@[y],
                        entry.columns@[y].desc,
                    ) is Ok by {
                        assert(spec_bind_value(
                            old(self).context.regular_tables@,
                            old(self).context.aliases@,
                            values@[x]@[y],
                            entry.columns@[y].desc,
                        ) == Ok::<_, SpecBindError>(rows@[x]@[y]));
                    }
                    assert(spec_insert_fails_at(
                        old(self).context.regular_tables@,
                        old(self).context.aliases@,
                        values@,
                        entry.columns@,
                        a as int,
                        e,
                    ));
                    assert(spec_resolve_table(old(self).catalog.schemas@, *table_name) matches Ok(t)
                        && spec_insert_fails_at(
                        old(self).context.regular_tables@,
                        old(self).context.aliases@,
                        values@,
                        t.columns@,
                        a as int,
                        e,
                    ));
                }
                return Err(e);
            }
            let mut brow: Vec<BoundExpr> = Vec::new();
            let mut c: usize = 0;
            while c < ncols
                invariant
                    c <= ncols,
                    brow@.len() == c,
                    a < values.len(),
                    ncols == entry.columns@.len(),
                    values@[a as int]@.len() == ncols,
                    row@ == values@[a as int]@,
                    self.catalog == old(self).catalog,
                    self.context == old(self).context,
                    self.upper_contexts@ == old(self).upper_contexts@,
                    old(self).base_table_refs@.is_prefix_of(self.base_table_refs@),
                    spec_resolve_table(old(self).catalog.schemas@, *table_name) matches Ok(t)
                        && entry.ref_id == t.id && entry.columns@ == t.columns@,
                    forall|x: int|
                        0 <= x < a ==> #[trigger] rows@[x]@.len() == entry.columns@.len()
                            && values@[x]@.len() == entry.columns@.len(),
                    forall|x: int, y: int|
                        0 <= x < a && 0 <= y < entry.columns@.len() ==> spec_bind_value(
                            old(self).context.regular_tables@,
                            old(self).context.aliases@,
                            values@[x]@[y],
                            entry.columns@[y].desc,
                        ) == Ok::<_, SpecBindError>(#[trigger] rows@[x]@[y]),
                    forall|x: int|
                        0 <= x < c ==> spec_bind_value(
                            old(self).context.regular_tables@,
                            old(self).context.aliases@,
                            values@[a as int]@[x],
                            entry.columns@[x].desc,
                        ) == Ok::<_, SpecBindError>(#[trigger] brow@[x]),
                decreases ncols - c,
            {
                let bv = match self.bind_value(&row[c], &entry.columns[c].desc) {
                    Ok(b) => b,
                    Err(e) => {
                        proof {
                            reveal(spec_insert_err);
                            assert forall|x: int| 0 <= x < a implies #[trigger] values@[x]@.len()
                                == entry.columns@.len() by {
                                assert(rows@[x]@.len() == entry.columns@.len());
                            }
                            assert forall|x: int, y: int|
                                0 <= x < a && 0 <= y < entry.columns@.len() implies #[trigger] spec_bind_value(
                                old(self).context.regular_tables@,
                                old(self).context.aliases@,
                                values@[x]@[y],
                                entry.columns@[y].desc,
                            ) is Ok by {
                                assert(spec_bind_value(
                                    old(self).context.regular_tables@,
                                    old(self).context.aliases@,
                                    values@[x]@[y],
                                    entry.columns@[y].desc,
                                ) == Ok::<_, SpecBindError>(rows@[x]@[y]));
                            }
                            assert forall|y: int| 0 <= y < c implies #[trigger] spec_bind_value(
                                old(self).context.regular_tables@,
                                old(self).context.aliases@,
                                values@[a as int]@[y],
                                entry.columns@[y].desc,
                            ) is Ok by {
                                assert(spec_bind_value(
                                    old(self).context.regular_tables@,
                                    old(self).context.aliases@,
                                    values@[a as int]@[y],
                                    entry.columns@[y].desc,
                                ) == Ok::<_, SpecBindError>(brow@[y]));
                            }
                            assert(spec_bind_value(
                                old(self).context.regular_tables@,
                                old(self).context.aliases@,
                                values@[a as int]@[c as int],
                                entry.columns@[c as int].desc,
                            ) == Err::<BoundExpr, SpecBindError>(spec_err(e)));
                            assert(exists|cc: int|
                                0 <= cc < entry.columns@.len() && (forall|y: int|
                                    0 <= y < cc ==> #[trigger] spec_bind_value(
                                        old(self).context.regular_tables@,
                                        old(self).context.aliases@,
                                        values@[a as int]@[y],
                                        entry.columns@[y].desc,
                                    ) is Ok) && spec_bind_value(
                                    old(self).context.regular_tables@,
                                    old(self).context.aliases@,
                                    values@[a as int]@[cc],
                                    entry.columns@[cc].desc,
                                ) == Err::<BoundExpr, SpecBindError>(spec_err(e)));
                            assert(spec_insert_fails_at(
                                old(self).context.regular_tables@,
                                old(self).context.aliases@,
                                values@,
                                entry.columns@,
                                a as int,
                                e,
                            ));
                            assert(spec_resolve_table(old(self).catalog.schemas@, *table_name) matches Ok(t)
                                && spec_insert_fails_at(
                                old(self).context.regular_tables@,
                                old(self).context.aliases@,
                                values@,
                                t.columns@,
                                a as int,
                                e,
                            ));
                        }
                        return Err(e);
                    },
                };
                brow.push(bv);
                c += 1;
            }
            rows.push(brow);
            a += 1;
        }
        let result = BoundInsert { table_ref_id: entry.ref_id, column_ids, values: rows };
        proof {
            reveal(spec_insert_ok);
            assert(spec_insert_ok(old(self).catalog.schemas@, old(self).context.regular_tables@, old(self).context.aliases@, *table_name, values@, result));
        }
        Ok(result)
    }

    /// Bind a COPY statement: resolve the target table and its column list;
    /// the data itself is supplied out of band.
    pub fn bind_copy(&mut self, table_name: &ObjectName, columns: &Vec<Ident>) -> (r: Result<
        BoundCopy,
        BindError,
    >)
        ensures
            final(self).catalog == old(self).catalog,
            final(self).context == old(self).context,
            final(self).upper_contexts@ == old(self).upper_contexts@,
            old(self).base_table_refs@.is_prefix_of(final(self).base_table_refs@),
            match r {
                Ok(b) => spec_copy_ok(old(self).catalog.schemas@, *table_name, columns@, b),
                Err(e) => spec_copy_err(old(self).catalog.schemas@, *table_name, columns@, e),
            },
    {
        let entry = match self.resolve_table(table_name) {
            Ok(e) => e,
            Err(e) => {
                proof {
                    reveal(spec_copy_err);
                }
                return Err(e);
            },
        };
        let mut ids: Vec<ColumnId> = Vec::new();
        let mut descs: Vec<ColumnDesc> = Vec::new();
        let mut x: usize = 0;
        while x < columns.len()
            invariant
                x <= columns.len(),
                ids@.len() == x,
                descs@.len() == x,
                self.catalog == old(self).catalog,
                self.context == old(self).context,
                self.upper_contexts@ == old(self).upper_contexts@,
                old(self).base_table_refs@.is_prefix_of(self.base_table_refs@),
                spec_resolve_table(old(self).catalog.schemas@, *table_name) matches Ok(t)
                    && entry.ref_id == t.id && entry.columns@ == t.columns@,
                forall|k: int|
                    0 <= k < x ==> (crate::catalog::spec_col_idx(
                        entry.columns@,
                        #[trigger] columns@[k].value@,
                    ) matches Some(j) && ids@[k] == entry.columns@[j].id && descs@[k]
                        == entry.columns@[j].desc),
            decreases columns.len() - x,
        {
            match crate::catalog::find_column_idx(&entry.columns, &columns[x].value) {
                Some(j) => {
                    proof {
                        crate::catalog::lemma_col_idx(entry.columns@, columns@[x as int].value@);
                    }
                    ids.push(entry.columns[j].id);
                    descs.push(entry.columns[j].desc.clone());
                },
                None => {
                    let e = BindError::InvalidColumn(columns[x].value.clone());
                    proof {
                        reveal(spec_copy_err);
                        assert(spec_copy_fails_at(columns@, entry.columns@, x as int, e));
                        assert(spec_resolve_table(old(self).catalog.schemas@, *table_name) matches Ok(t)
                            && spec_copy_fails_at(columns@, t.columns@, x as int, e));
                    }
                    return Err(e);
                },
            }
            x += 1;
        }
        let result = BoundCopy { table_ref_id: entry.ref_id, column_ids: ids, column_descs: descs };
        proof {
            reveal(spec_copy_ok);
            assert(spec_copy_ok(old(self).catalog.schemas@, *table_name, columns@, result));
        }
        Ok(result)
    }

    /// Bind a DELETE statement: resolve the target table into a fresh scope
    /// in which it is the only visible table, and bind the filter, if any,
    /// against that scope.
    pub fn bind_delete(&mut self, table_name: &ObjectName, selection: &Option<Expr>) -> (r: Result<
        BoundDelete,
        BindError,
    >)
        ensures
            final(self).catalog == old(self).catalog,
            final(self).context == old(self).context,
            final(self).upper_contexts@ == old(self).upper_contexts@,
            old(self).base_table_refs@.is_prefix_of(final(self).base_table_refs@),
            match r {
                Ok(b) => spec_delete_ok(old(self).catalog.schemas@, *table_name, *selection, b),
                Err(e) => spec_delete_err(old(self).catalog.schemas@, *table_name, *selection, e),
            },
    {
        self.push_context();
        let entry = match self.resolve_table(table_name) {
            Ok(e) => e,
            Err(e) => {
                self.pop_context();
                proof {
                    reveal(spec_delete_err);
                    assert(final(self).upper_contexts@ =~= old(self).upper_contexts@);
                }
                return Err(e);
            },
        };
        let ghost te_g = entry;
        let table_ref_id = entry.ref_id;
        match self.context.add_table(entry) {
            Ok(_) => {},
            Err(_) => {
                proof {
                    assert(false);
                }
            },
        }
        proof {
            assert(self.context.regular_tables@ =~= seq![te_g]);
        }
        let filter = match selection {
            Some(f) => {
                match self.context.bind_expr(f) {
                    Ok(b) => Some(b),
                    Err(e) => {
                        proof {
                            reveal(spec_delete_err);
                            assert(spec_bind_expr(seq![te_g], Seq::<AliasEntry>::empty(), *f)
                                == Err::<BoundExpr, SpecBindError>(spec_err(e)));
                            assert(spec_resolve_table(old(self).catalog.schemas@, *table_name) matches Ok(t) && (
                            exists|te: TableEntry|
                                te.ref_id == t.id && te.name@ == t.name@ && te.columns@
                                    == t.columns@ && spec_bind_expr(
                                    seq![te],
                                    Seq::<AliasEntry>::empty(),
                                    *f,
                                ) == Err::<BoundExpr, SpecBindError>(spec_err(e))));
                        }
                        self.pop_context();
                        proof {
                            assert(final(self).upper_contexts@ =~= old(self).upper_contexts@);
                        }
                        return Err(e);
                    },
                }
            },
            None => None,
        };
        self.pop_context();
        proof {
            reveal(spec_delete_ok);
            assert(self.upper_contexts@ =~= old(self).upper_contexts@);
            match (selection, &filter) {
                (Some(f), Some(bf)) => {
                    assert(spec_resolve_table(old(self).catalog.schemas@, *table_name) matches Ok(t) && (exists|
                        te: TableEntry,
                    |
                        te.ref_id == t.id && te.name@ == t.name@ && te.columns@ == t.columns@
                            && spec_bind_expr(seq![te], Seq::<AliasEntry>::empty(), *f) == Ok::<
                            _,
                            SpecBindError,
                        >(*bf)));
                },
                _ => {},
            }
        }
        Ok(BoundDelete { table_ref_id, filter })
    }
}

/// A bound FROM-clause entry.
#[derive(Debug, PartialEq, Eq)]
pub enum BoundTableRef {
    /// A resolved base table.
    BaseTable { ref_id: TableRefId, table_name: String },
    /// A derived table: the bound subquery and its projected columns, which
    /// are visible under the derived name.
    Derived { column_descs: Vec<ColumnDesc>, query: Box<BoundSelect> },
    /// A join of two bound table references and its bound condition.
    Join { left: Box<BoundTableRef>, right: Box<BoundTableRef>, on: BoundExpr },
}

/// A bound SELECT: every clause resolved against the query's own scope.
#[derive(Debug, PartialEq, Eq)]
pub struct BoundSelect {
    pub select_list: Vec<BoundExpr>,
    pub from_table: Option<BoundTableRef>,
    pub where_clause: Option<BoundExpr>,
    pub group_by: Vec<BoundExpr>,
    pub having: Option<BoundExpr>,
    pub order_by: Vec<BoundExpr>,
}

/// The name under which a projected expression is visible from outside the
/// query: its alias, a referenced column's name, or nothing.
pub open spec fn spec_output_name(e: BoundExpr) -> Seq<char> {
    match e {
        BoundExpr::Alias { name, .. } => name@,
        BoundExpr::ColumnRef { desc, .. } => desc.name@,
        _ => Seq::<char>::empty(),
    }
}

/// The declared kind of a projected expression's output column; an
/// expression of unknown (null) type is carried as a character string.
pub open spec fn spec_output_kind(e: BoundExpr) -> DataTypeKind {
    match e.spec_return_type() {
        Some(k) => k,
        None => DataTypeKind::Varchar,
    }
}

/// Whether a projected expression's output column may hold nulls: a column
/// reference keeps its declared nullability, everything else may.
pub open spec fn spec_output_nullable(e: BoundExpr) -> bool
    decreases e,
{
    match e {
        BoundExpr::ColumnRef { desc, .. } => desc.nullable,
        BoundExpr::Alias { expr, .. } => spec_output_nullable(*expr),
        _ => true,
    }
}

/// The descriptor under which a projected expression is visible from outside
/// its query.
pub fn output_desc(e: &BoundExpr) -> (d: ColumnDesc)
    ensures
        d.name@ == spec_output_name(*e),
        d.kind == spec_output_kind(*e),
        d.nullable == spec_output_nullable(*e),
    decreases e,
{
    let kind = match e.return_type() {
        Some(k) => k,
        None => DataTypeKind::Varchar,
    };
    match e {
        BoundExpr::Alias { name, expr } => ColumnDesc {
            name: name.clone(),
            kind,
            nullable: output_desc(expr).nullable,
        },
        BoundExpr::ColumnRef { desc, .. } => desc.clone(),
        _ => ColumnDesc { name: String::new(), kind, nullable: true },
    }
}

impl Binder {
    /// Bind one FROM-clause entry and register what it makes visible into
    /// the active scope: a base table under its name or alias, a derived
    /// table's projected columns under its alias, or both sides of a join
    /// (which become simultaneously visible) plus its bound condition.
    pub fn bind_table_ref(&mut self, tref: &TableRef) -> (r: Result<BoundTableRef, BindError>)
        ensures
            final(self).catalog == old(self).catalog,
            final(self).upper_contexts@ == old(self).upper_contexts@,
            final(self).context.aliases@ == old(self).context.aliases@,
            old(self).context.regular_tables@.is_prefix_of(final(self).context.regular_tables@),
            old(self).base_table_refs@.is_prefix_of(final(self).base_table_refs@),
            *tref matches TableRef::BaseTable { name, alias } ==> (r matches Ok(b) ==> (
            spec_resolve_table(old(self).catalog.schemas@, name) matches Ok(t) && (b matches
                BoundTableRef::BaseTable { ref_id, .. } && ref_id == t.id)
                && final(self).context.regular_tables@.len() == old(self).context.regular_tables@.len() + 1
                && final(self).context.regular_tables@.last().ref_id == t.id
                && final(self).context.regular_tables@.last().columns@ == t.columns@
                && final(self).context.regular_tables@.last().name@ == (match alias {
                Some(a) => a.value@,
                None => t.name@,
            }))),
            *tref matches TableRef::BaseTable { name, alias } ==> (r matches Err(e) ==> (
            spec_resolve_table(old(self).catalog.schemas@, name) == Err::<
                TableCatalog,
                SpecBindError,
            >(spec_err(e)) || (spec_resolve_table(old(self).catalog.schemas@, name) matches Ok(t)
                && crate::context::spec_contains_table(
                old(self).context.regular_tables@,
                match alias {
                    Some(a) => a.value@,
                    None => t.name@,
                },
            ) && spec_err(e) == SpecBindError::DuplicatedTable(
                match alias {
                    Some(a) => a.value@,
                    None => t.name@,
                },
            )))),
            r is Ok ==> final(self).context.regular_tables@.len() > old(
                self,
            ).context.regular_tables@.len(),
            *tref matches TableRef::Derived { subquery, alias } ==> (r matches Ok(b2) ==> (b2
                matches BoundTableRef::Derived { column_descs, query } && spec_select_ok(
                old(self).catalog.schemas@,
                *subquery,
                *query,
            ) && final(self).context.regular_tables@.last().name@ == alias.value@
                && column_descs@.len() == query.select_list@.len() && (forall|j: int|
                0 <= j < column_descs@.len() ==> #[trigger] column_descs@[j].name@
                    == spec_output_name(query.select_list@[j]) && column_descs@[j].kind
                    == spec_output_kind(query.select_list@[j]) && column_descs@[j].nullable
                    == spec_output_nullable(query.select_list@[j])) && spec_column_descs(
                final(self).context.regular_tables@.last().columns@,
            ) == column_descs@)),
            *tref matches TableRef::Join { left, right, on } ==> (r matches Ok(b2) ==> (b2 matches
                BoundTableRef::Join { left: bl, right: br, on: bon }
                && final(self).context.regular_tables@.len() >= old(
                self,
            ).context.regular_tables@.len() + 2 && spec_bind_expr(
                final(self).context.regular_tables@,
                old(self).context.aliases@,
                on,
            ) == Ok::<BoundExpr, SpecBindError>(bon))),
        decreases tref,
    {
        match tref {
            TableRef::BaseTable { name, alias } => {
                let entry = match self.resolve_table(name) {
                    Ok(e) => e,
                    Err(e) => {
                        return Err(e);
                    },
                };
                let entry2 = match alias {
                    Some(a) => TableEntry {
                        name: a.value.clone(),
                        ref_id: entry.ref_id,
                        columns: entry.columns,
                    },
                    None => entry,
                };
                let ref_id = entry2.ref_id;
                let table_name = entry2.name.clone();
                match self.context.add_table(entry2) {
                    Ok(_) => Ok(BoundTableRef::BaseTable { ref_id, table_name }),
                    Err(e) => Err(e),
                }
            },
            TableRef::Derived { subquery, alias } => {
                self.push_context();
                let sel = match self.bind_select(subquery) {
                    Ok(s) => s,
                    Err(e) => {
                        self.pop_context();
                        proof {
                            assert(self.upper_contexts@ =~= old(self).upper_contexts@);
                        }
                        return Err(e);
                    },
                };
                self.pop_context();
                proof {
                    assert(self.upper_contexts@ =~= old(self).upper_contexts@);
                }
                let mut cols: Vec<crate::catalog::CatalogColumn> = Vec::new();
                let mut k: usize = 0;
                while k < sel.select_list.len()
                    invariant
                        k <= sel.select_list.len(),
                        cols@.len() == k,
                        self.catalog == old(self).catalog,
                        self.upper_contexts@ == old(self).upper_contexts@,
                        self.context == old(self).context,
                        old(self).base_table_refs@.is_prefix_of(self.base_table_refs@),
                        forall|j: int| #![trigger cols@[j]]
                            0 <= j < k ==> cols@[j].desc.name@ == spec_output_name(
                                sel.select_list@[j],
                            ) && cols@[j].desc.kind == spec_output_kind(sel.select_list@[j])
                                && cols@[j].desc.nullable == spec_output_nullable(
                                sel.select_list@[j],
                            ),
                    decreases sel.select_list.len() - k,
                {
                    let ghost pre = cols@;
                    let d = output_desc(&sel.select_list[k]);
                    cols.push(
                        crate::catalog::CatalogColumn { id: #[verifier::truncate] (k as u32), desc: d },
                    );
                    proof {
                        assert forall|j: int| #![trigger cols@[j]] 0 <= j < k + 1 implies cols@[j].desc.name@
                            == spec_output_name(sel.select_list@[j]) && cols@[j].desc.kind
                            == spec_output_kind(sel.select_list@[j]) && cols@[j].desc.nullable
                            == spec_output_nullable(sel.select_list@[j]) by {
                            if j < k {
                                assert(cols@[j] == pre[j]);
                                assert(pre[j].desc.name@ == spec_output_name(sel.select_list@[j]));
                            } else {
                                assert(cols@[j].desc == d);
                            }
                        }
                    }
                    k += 1;
                }
                let descs = crate::catalog::column_descs_of(&cols);
                let entry = TableEntry {
                    name: alias.value.clone(),
                    ref_id: TableRefId { database_id: 0, schema_id: 0, table_id: 0 },
                    columns: cols,
                };
                match self.context.add_table(entry) {
                    Ok(_) => Ok(BoundTableRef::Derived { column_descs: descs, query: sel }),
                    Err(e) => Err(e),
                }
            },
            TableRef::Join { left, right, on } => {
                let bl = match self.bind_table_ref(left) {
                    Ok(b) => b,
                    Err(e) => {
                        return Err(e);
                    },
                };
                let br = match self.bind_table_ref(right) {
                    Ok(b) => b,
                    Err(e) => {
                        return Err(e);
                    },
                };
                let bon = match self.context.bind_expr(on) {
                    Ok(b) => b,
                    Err(e) => {
                        return Err(e);
                    },
                };
                Ok(
                    BoundTableRef::Join {
                        left: Box::new(bl),
                        right: Box::new(br),
                        on: bon,
                    },
                )
            },
        }
    }

    /// Bind a SELECT query: push a fresh scope, bind the FROM clause into it,
    /// then WHERE, then the SELECT list (recording each alias and its bound
    /// expression in the scope), then GROUP BY, HAVING and ORDER BY against
    /// the scope including those aliases, and pop the scope again.
    pub fn bind_select(&mut self, query: &Query) -> (r: Result<Box<BoundSelect>, BindError>)
        ensures
            final(self).catalog == old(self).catalog,
            final(self).upper_contexts@ == old(self).upper_contexts@,
            final(self).context == old(self).context,
            old(self).base_table_refs@.is_prefix_of(final(self).base_table_refs@),
            r matches Ok(sel) ==> sel.select_list@.len() == query.projection@.len()
                && sel.group_by@.len() == query.group_by@.len() && sel.order_by@.len()
                == query.order_by@.len() && (sel.from_table is Some <==> query.from is Some) && (
            sel.where_clause is Some <==> query.selection is Some) && (sel.having is Some
                <==> query.having is Some) && (forall|j: int|
                0 <= j < query.projection@.len() ==> (query.projection@[j].alias matches Some(a)
                    ==> (#[trigger] sel.select_list@[j] matches BoundExpr::Alias { name, .. }
                    && name@ == a.value@))),
            r matches Ok(sel) ==> spec_select_ok(old(self).catalog.schemas@, *query, *sel),
            r matches Err(e) ==> spec_select_err(old(self).catalog.schemas@, *query, e),
        decreases query,
    {
        self.push_context();
        let from_table = match &query.from {
            Some(t) => {
                match self.bind_table_ref(t) {
                    Ok(b) => Some(b),
                    Err(e) => {
                        proof {
                            reveal(spec_select_err);
                            assert forall|n: Seq<char>| !crate::context::spec_contains_table(
                                Seq::<TableEntry>::empty(),
                                n,
                            ) by {
                                assert(crate::context::spec_find_entry(
                                    Seq::<TableEntry>::empty(),
                                    n,
                                ) is None);
                            }
                            assert(spec_from_fails(old(self).catalog.schemas@, query.from, e));
                        }
                        self.pop_context();
                        proof {
                            assert(self.upper_contexts@ =~= old(self).upper_contexts@);
                        }
                        return Err(e);
                    },
                }
            },
            None => None,
        };
        let ghost tables0 = self.context.regular_tables@;
        proof {
            assert forall|n: Seq<char>| !crate::context::spec_contains_table(Seq::<TableEntry>::empty(), n) by {
                assert(crate::context::spec_find_entry(Seq::<TableEntry>::empty(), n) is None);
            }
            if query.from matches Some(TableRef::BaseTable { .. }) {
                assert(tables0[0] == tables0.last());
            }
            assert(spec_from_scope_ok(old(self).catalog.schemas@, query.from, tables0));
            assert(self.context.aliases@ == Seq::<AliasEntry>::empty());
        }
        let where_clause = match &query.selection {
            Some(e) => {
                match self.context.bind_expr(e) {
                    Ok(b) => Some(b),
                    Err(er) => {
                        proof {
                            reveal(spec_select_err);
                            assert(spec_bind_opt(tables0, Seq::<AliasEntry>::empty(), query.selection)
                                == Err::<Option<BoundExpr>, SpecBindError>(spec_err(er)));
                            assert(spec_select_clauses_err(tables0, *query, er));
                        }
                        self.pop_context();
                        proof {
                            assert(self.upper_contexts@ =~= old(self).upper_contexts@);
                        }
                        return Err(er);
                    },
                }
            },
            None => None,
        };
        proof {
            assert(spec_bind_opt(tables0, Seq::<AliasEntry>::empty(), query.selection) == Ok::<
                Option<BoundExpr>,
                SpecBindError,
            >(where_clause));
        }
        let mut select_list: Vec<BoundExpr> = Vec::new();
        let mut i: usize = 0;
        while i < query.projection.len()
            invariant
                i <= query.projection.len(),
                select_list@.len() == i,
                self.catalog == old(self).catalog,
                self.upper_contexts@ == old(self).upper_contexts@.push(old(self).context),
                old(self).base_table_refs@.is_prefix_of(self.base_table_refs@),
                self.context.regular_tables@ == tables0,
                spec_from_scope_ok(old(self).catalog.schemas@, query.from, tables0),
                spec_bind_opt(tables0, Seq::<AliasEntry>::empty(), query.selection) == Ok::<
                    Option<BoundExpr>,
                    SpecBindError,
                >(where_clause),
                spec_bind_projection(tables0, Seq::<AliasEntry>::empty(), query.projection@.take(i as int)) == Ok::<
                    (Seq<BoundExpr>, Seq<AliasEntry>),
                    SpecBindError,
                >((select_list@, self.context.aliases@)),
                forall|j: int|
                    0 <= j < i ==> (query.projection@[j].alias matches Some(a) ==> (
                    #[trigger] select_list@[j] matches BoundExpr::Alias { name, .. } && name@
                        == a.value@)),
            decreases query.projection.len() - i,
        {
            let item = &query.projection[i];
            proof {
                assert(query.projection@.take(i + 1).drop_last() =~= query.projection@.take(
                    i as int,
                ));
                assert(query.projection@.take(i + 1).last() == query.projection@[i as int]);
            }
            let b = match self.context.bind_expr(&item.expr) {
                Ok(b) => b,
                Err(e) => {
                    proof {
                        reveal(spec_select_err);
                        assert(spec_bind_projection(tables0, Seq::<AliasEntry>::empty(), query.projection@.take(i + 1))
                            == Err::<(Seq<BoundExpr>, Seq<AliasEntry>), SpecBindError>(spec_err(e)));
                        lemma_bind_projection_prefix_err(
                            tables0,
                            Seq::<AliasEntry>::empty(),
                            query.projection@,
                            i + 1,
                            spec_err(e),
                        );
                        assert(spec_select_clauses_err(tables0, *query, e));
                    }
                    self.pop_context();
                    proof {
                        assert(self.upper_contexts@ =~= old(self).upper_contexts@);
                    }
                    return Err(e);
                },
            };
            let ghost pre_aliases = self.context.aliases@;
            let ghost pre_list = select_list@;
            match &item.alias {
                Some(a) => {
                    let cloned_name = a.value.clone();
                    let recorded = clone_bound_expr(&b);
                    self.context.add_alias(AliasEntry { name: cloned_name, expr: recorded });
                    select_list.push(BoundExpr::Alias { name: a.value.clone(), expr: Box::new(b) });
                },
                None => {
                    select_list.push(b);
                },
            }
            proof {
                assert(spec_bind_projection(tables0, Seq::<AliasEntry>::empty(), query.projection@.take(i + 1)) == Ok::<
                    (Seq<BoundExpr>, Seq<AliasEntry>),
                    SpecBindError,
                >((select_list@, self.context.aliases@)));
            }
            i += 1;
        }
        let ghost aliases1 = self.context.aliases@;
        proof {
            assert(query.projection@.take(query.projection@.len() as int) =~= query.projection@);
            assert(spec_bind_projection(tables0, Seq::<AliasEntry>::empty(), query.projection@) == Ok::<
                (Seq<BoundExpr>, Seq<AliasEntry>),
                SpecBindError,
            >((select_list@, aliases1)));
        }
        let mut group_by: Vec<BoundExpr> = Vec::new();
        let mut g: usize = 0;
        while g < query.group_by.len()
            invariant
                g <= query.group_by.len(),
                group_by@.len() == g,
                self.catalog == old(self).catalog,
                self.upper_contexts@ == old(self).upper_contexts@.push(old(self).context),
                old(self).base_table_refs@.is_prefix_of(self.base_table_refs@),
                self.context.regular_tables@ == tables0,
                self.context.aliases@ == aliases1,
                spec_from_scope_ok(old(self).catalog.schemas@, query.from, tables0),
                spec_bind_opt(tables0, Seq::<AliasEntry>::empty(), query.selection) == Ok::<
                    Option<BoundExpr>,
                    SpecBindError,
                >(where_clause),
                spec_bind_projection(tables0, Seq::<AliasEntry>::empty(), query.projection@) == Ok::<
                    (Seq<BoundExpr>, Seq<AliasEntry>),
                    SpecBindError,
                >((select_list@, aliases1)),
                spec_bind_exprs(tables0, aliases1, query.group_by@.take(g as int)) == Ok::<
                    Seq<BoundExpr>,
                    SpecBindError,
                >(group_by@),
            decreases query.group_by.len() - g,
        {
            proof {
                assert(query.group_by@.take(g + 1).drop_last() =~= query.group_by@.take(g as int));
                assert(query.group_by@.take(g + 1).last() == query.group_by@[g as int]);
            }
            match self.context.bind_expr(&query.group_by[g]) {
                Ok(b) => {
                    group_by.push(b);
                    proof {
                        assert(spec_bind_exprs(tables0, aliases1, query.group_by@.take(g + 1))
                            == Ok::<Seq<BoundExpr>, SpecBindError>(group_by@));
                    }
                },
                Err(e) => {
                    proof {
                        reveal(spec_select_err);
                        assert(spec_bind_exprs(tables0, aliases1, query.group_by@.take(g + 1))
                            == Err::<Seq<BoundExpr>, SpecBindError>(spec_err(e)));
                        lemma_bind_exprs_prefix_err(
                            tables0,
                            aliases1,
                            query.group_by@,
                            g + 1,
                            spec_err(e),
                        );
                        assert(spec_select_clauses_err(tables0, *query, e));
                    }
                    self.pop_context();
                    proof {
                        assert(self.upper_contexts@ =~= old(self).upper_contexts@);
                    }
                    return Err(e);
                },
            }
            g += 1;
        }
        proof {
            assert(query.group_by@.take(query.group_by@.len() as int) =~= query.group_by@);
            assert(spec_bind_exprs(tables0, aliases1, query.group_by@) == Ok::<
                Seq<BoundExpr>,
                SpecBindError,
            >(group_by@));
        }
        let having = match &query.having {
            Some(e) => {
                match self.context.bind_expr(e) {
                    Ok(b) => Some(b),
                    Err(er) => {
                        proof {
                            reveal(spec_select_err);
                            assert(spec_bind_opt(tables0, aliases1, query.having) == Err::<
                                Option<BoundExpr>,
                                SpecBindError,
                            >(spec_err(er)));
                            assert(spec_select_clauses_err(tables0, *query, er));
                        }
                        self.pop_context();
                        proof {
                            assert(self.upper_contexts@ =~= old(self).upper_contexts@);
                        }
                        return Err(er);
                    },
                }
            },
            None => None,
        };
        proof {
            assert(spec_bind_opt(tables0, aliases1, query.having) == Ok::<
                Option<BoundExpr>,
                SpecBindError,
            >(having));
        }
        let mut order_by: Vec<BoundExpr> = Vec::new();
        let mut o: usize = 0;
        while o < query.order_by.len()
            invariant
                o <= query.order_by.len(),
                order_by@.len() == o,
                self.catalog == old(self).catalog,
                self.upper_contexts@ == old(self).upper_contexts@.push(old(self).context),
                old(self).base_table_refs@.is_prefix_of(self.base_table_refs@),
                self.context.regular_tables@ == tables0,
                self.context.aliases@ == aliases1,
                spec_from_scope_ok(old(self).catalog.schemas@, query.from, tables0),
                spec_bind_opt(tables0, Seq::<AliasEntry>::empty(), query.selection) == Ok::<
                    Option<BoundExpr>,
                    SpecBindError,
                >(where_clause),
                spec_bind_projection(tables0, Seq::<AliasEntry>::empty(), query.projection@) == Ok::<
                    (Seq<BoundExpr>, Seq<AliasEntry>),
                    SpecBindError,
                >((select_list@, aliases1)),
                spec_bind_exprs(tables0, aliases1, query.group_by@) == Ok::<
                    Seq<BoundExpr>,
                    SpecBindError,
                >(group_by@),
                spec_bind_opt(tables0, aliases1, query.having) == Ok::<
                    Option<BoundExpr>,
                    SpecBindError,
                >(having),
                spec_bind_exprs(tables0, aliases1, query.order_by@.take(o as int)) == Ok::<
                    Seq<BoundExpr>,
                    SpecBindError,
                >(order_by@),
            decreases query.order_by.len() - o,
        {
            proof {
                assert(query.order_by@.take(o + 1).drop_last() =~= query.order_by@.take(o as int));
                assert(query.order_by@.take(o + 1).last() == query.order_by@[o as int]);
            }
            match self.context.bind_expr(&query.order_by[o]) {
                Ok(b) => {
                    order_by.push(b);
                    proof {
                        assert(spec_bind_exprs(tables0, aliases1, query.order_by@.take(o + 1))
                            == Ok::<Seq<BoundExpr>, SpecBindError>(order_by@));
                    }
                },
                Err(e) => {
                    proof {
                        reveal(spec_select_err);
                        assert(spec_bind_exprs(tables0, aliases1, query.order_by@.take(o + 1))
                            == Err::<Seq<BoundExpr>, SpecBindError>(spec_err(e)));
                        lemma_bind_exprs_prefix_err(
                            tables0,
                            aliases1,
                            query.order_by@,
                            o + 1,
                            spec_err(e),
                        );
                        assert(spec_select_clauses_err(tables0, *query, e));
                    }
                    self.pop_context();
                    proof {
                        assert(self.upper_contexts@ =~= old(self).upper_contexts@);
                    }
                    return Err(e);
                },
            }
            o += 1;
        }
        proof {
            assert(query.order_by@.take(query.order_by@.len() as int) =~= query.order_by@);
        }
        self.pop_context();
        proof {
            assert(self.upper_contexts@ =~= old(self).upper_contexts@);
        }
        let result = BoundSelect {
            select_list,
            from_table,
            where_clause,
            group_by,
            having,
            order_by,
        };
        proof {
            reveal(spec_select_ok);
            assert(spec_select_clauses_ok(tables0, *query, result));
            assert(spec_select_ok(old(self).catalog.schemas@, *query, result));
        }
        Ok(Box::new(result))
    }
}

/// The message carried by the error for an inserted row whose length does
/// not match the target's column count.
pub open spec fn spec_arity_msg() -> Seq<char> {
    "number of values does not match the number of columns"@
}

/// The message carried by the error for a non-literal value whose type does
/// not coerce into the column's declared kind.
pub open spec fn spec_value_type_msg() -> Seq<char> {
    "value type does not match the column type"@
}

/// What adapting an already bound value to a column yields: a null is
/// refused by a non-nullable column, a literal is cast to the declared kind
/// (a value not representable there is a cast error), and any other value
/// must already have the declared kind or widen into it.
pub open spec fn spec_adapt_value(b: BoundExpr, desc: ColumnDesc) -> Result<
    BoundExpr,
    SpecBindError,
> {
    match b {
        BoundExpr::Constant(v) => if v is Null && !desc.nullable {
            Err(SpecBindError::NotNullableColumn(desc.name@))
        } else {
            match spec_cast_value(v, desc.kind) {
                Some(v2) => Ok(BoundExpr::Constant(v2)),
                None => Err(SpecBindError::CastError(v, desc.kind)),
            }
        },
        _ => match b.spec_return_type() {
            None => if !desc.nullable {
                Err(SpecBindError::NotNullableColumn(desc.name@))
            } else {
                Ok(b)
            },
            Some(k) => if spec_common_kind(k, desc.kind) == Some(desc.kind) {
                Ok(b)
            } else {
                Err(SpecBindError::InvalidExpression(spec_value_type_msg()))
            },
        },
    }
}

/// What binding one inserted value into a column yields: the expression is
/// bound against the scope and then adapted to the column.
pub open spec fn spec_bind_value(
    tables: Seq<TableEntry>,
    aliases: Seq<AliasEntry>,
    e: Expr,
    desc: ColumnDesc,
) -> Result<BoundExpr, SpecBindError> {
    match spec_bind_expr(tables, aliases, e) {
        Err(x) => Err(x),
        Ok(b) => spec_adapt_value(b, desc),
    }
}

/// A null literal bound into a non-nullable column fails with the
/// not-nullable-column error naming that column; the same value bound into a
/// nullable column succeeds and stays a null.
pub proof fn lemma_null_into_column(
    tables: Seq<TableEntry>,
    aliases: Seq<AliasEntry>,
    desc: ColumnDesc,
)
    ensures
        !desc.nullable ==> spec_bind_value(tables, aliases, Expr::Literal(DataValue::Null), desc)
            == Err::<BoundExpr, SpecBindError>(SpecBindError::NotNullableColumn(desc.name@)),
        desc.nullable ==> spec_bind_value(tables, aliases, Expr::Literal(DataValue::Null), desc)
            == Ok::<BoundExpr, SpecBindError>(BoundExpr::Constant(DataValue::Null)),
{
}

} // verus!
