//! Semantic analysis ("binding") for a small SQL dialect: resolving a parsed,
//! syntax-only statement tree against a read-only catalog into a fully typed,
//! fully resolved bound statement tree.

pub mod ast;
pub mod catalog;
pub mod context;
pub mod error;
pub mod expression;
pub mod name;
pub mod statement;
pub mod types;

use std::sync::Arc;
use vstd::prelude::*;
use crate::ast::Statement;
use crate::catalog::RootCatalog;
use crate::context::{AliasEntry, BinderContext, TableEntry};
use crate::error::BindError;
use crate::statement::{
    BoundCopy, BoundCreateTable, BoundDelete, BoundDrop, BoundInsert, BoundSelect,
};

verus! {

/// A bound SQL statement generated by the binder.
#[derive(Debug, PartialEq, Eq)]
pub enum BoundStatement {
    CreateTable(BoundCreateTable),
    Drop(BoundDrop),
    Insert(BoundInsert),
    Copy(BoundCopy),
    Select(Box<BoundSelect>),
    Explain(Box<BoundStatement>),
    Delete(Box<BoundDelete>),
}

/// The binder: it resolves every name of a statement against the catalog and
/// the visible scopes, producing a typed bound statement. It owns one active
/// scope context, the stack of enclosing scopes, and the statement-wide list
/// of physical tables touched so far.
pub struct Binder {
    pub catalog: Arc<RootCatalog>,
    pub context: BinderContext,
    pub upper_contexts: Vec<BinderContext>,
    pub base_table_refs: Vec<String>,
}

/// How a binder changes when it enters a nested lexical scope: the active
/// context moves onto the stack and a fresh empty one takes its place;
/// everything else stays.
pub open spec fn spec_pushed(pre: Binder, post: Binder) -> bool {
    &&& post.catalog == pre.catalog
    &&& post.upper_contexts@ == pre.upper_contexts@.push(pre.context)
    &&& post.context.regular_tables@ == Seq::<TableEntry>::empty()
    &&& post.context.aliases@ == Seq::<AliasEntry>::empty()
    &&& post.base_table_refs@ == pre.base_table_refs@
}

/// How a binder changes when it leaves a nested lexical scope: the top of
/// the stack becomes the active context again and the nested context is
/// discarded; everything else stays.
pub open spec fn spec_popped(pre: Binder, post: Binder) -> bool {
    &&& post.catalog == pre.catalog
    &&& post.upper_contexts@ == pre.upper_contexts@.drop_last()
    &&& post.context == pre.upper_contexts@.last()
    &&& post.base_table_refs@ == pre.base_table_refs@
}

impl Binder {
    /// Create a new binder over a shared, read-only catalog snapshot.
    pub fn new(catalog: Arc<RootCatalog>) -> (r: Binder)
        ensures
            r.catalog == catalog,
            r.context.regular_tables@ == Seq::<TableEntry>::empty(),
            r.context.aliases@ == Seq::<AliasEntry>::empty(),
            r.upper_contexts@ == Seq::<BinderContext>::empty(),
            r.base_table_refs@ == Seq::<String>::empty(),
    {
        Binder {
            catalog,
            context: BinderContext::new(),
            upper_contexts: Vec::new(),
            base_table_refs: Vec::new(),
        }
    }

    /// Enter a nested lexical scope: move the active context onto the stack
    /// and install a fresh empty one.
    pub fn push_context(&mut self)
        ensures
            spec_pushed(*old(self), *final(self)),
    {
        let mut fresh = BinderContext::new();
        core::mem::swap(&mut self.context, &mut fresh);
        self.upper_contexts.push(fresh);
    }

    /// Leave a nested lexical scope: discard the active context and restore
    /// the enclosing one from the top of the stack. Popping with no enclosing
    /// scope is a binder invariant violation, never a user-facing bind error,
    /// so it is excluded by precondition.
    pub fn pop_context(&mut self)
        requires
            old(self).upper_contexts@.len() > 0,
        ensures
            spec_popped(*old(self), *final(self)),
    {
        match self.upper_contexts.pop() {
            Some(c) => {
                self.context = c;
            },
            None => {
                proof {
                    assert(false);
                }
            },
        }
    }

    /// Bind a statement: dispatch on its syntactic kind to the statement
    /// binders. The scope stack and the active context are exactly as before
    /// when the call returns, whether it succeeds or fails; recognized but
    /// unimplemented statement kinds fail as not supported, and unrecognized
    /// shapes as invalid SQL. An EXPLAIN binds its inner statement and wraps
    /// the result, propagating any inner error unchanged.
    pub fn bind(&mut self, stmt: &Statement) -> (r: Result<BoundStatement, BindError>)
        ensures
            final(self).catalog == old(self).catalog,
            final(self).upper_contexts@ == old(self).upper_contexts@,
            final(self).context == old(self).context,
            old(self).base_table_refs@.is_prefix_of(final(self).base_table_refs@),
            *stmt matches Statement::CreateTable { name, columns } ==> (match r {
                Ok(bs) => bs matches BoundStatement::CreateTable(b)
                    && crate::statement::spec_create_table_result(name, columns@) == Ok::<
                    _,
                    crate::error::SpecBindError,
                >((b.schema_name@, b.table_name@)) && b.columns@
                    == crate::statement::spec_descs_of_defs(columns@),
                Err(e) => crate::statement::spec_create_table_result(name, columns@) == Err::<
                    (Seq<char>, Seq<char>),
                    crate::error::SpecBindError,
                >(crate::error::spec_err(e)),
            }),
            *stmt matches Statement::Drop { name } ==> (match r {
                Ok(bs) => bs matches BoundStatement::Drop(b)
                    && crate::statement::spec_resolve_table(old(self).catalog.schemas@, name)
                    matches Ok(t) && b.table_ref_id == t.id,
                Err(e) => crate::statement::spec_resolve_table(old(self).catalog.schemas@, name)
                    == Err::<crate::catalog::TableCatalog, crate::error::SpecBindError>(
                    crate::error::spec_err(e),
                ),
            }),
            *stmt matches Statement::Insert { table_name, values } ==> (match r {
                Ok(bs) => bs matches BoundStatement::Insert(b) && crate::statement::spec_insert_ok(
                    old(self).catalog.schemas@,
                    old(self).context.regular_tables@,
                    old(self).context.aliases@,
                    table_name,
                    values@,
                    b,
                ),
                Err(e) => crate::statement::spec_insert_err(
                    old(self).catalog.schemas@,
                    old(self).context.regular_tables@,
                    old(self).context.aliases@,
                    table_name,
                    values@,
                    e,
                ),
            }),
            *stmt matches Statement::Delete { table_name, selection } ==> (match r {
                Ok(bs) => bs matches BoundStatement::Delete(b) && crate::statement::spec_delete_ok(
                    old(self).catalog.schemas@,
                    table_name,
                    selection,
                    *b,
                ),
                Err(e) => crate::statement::spec_delete_err(
                    old(self).catalog.schemas@,
                    table_name,
                    selection,
                    e,
                ),
            }),
            *stmt matches Statement::Copy { table_name, columns } ==> (match r {
                Ok(bs) => bs matches BoundStatement::Copy(b) && crate::statement::spec_copy_ok(
                    old(self).catalog.schemas@,
                    table_name,
                    columns@,
                    b,
                ),
                Err(e) => crate::statement::spec_copy_err(
                    old(self).catalog.schemas@,
                    table_name,
                    columns@,
                    e,
                ),
            }),
            *stmt matches Statement::Query(q) ==> (match r {
                Ok(bs) => bs matches BoundStatement::Select(sel) && crate::statement::spec_select_ok(
                    old(self).catalog.schemas@,
                    *q,
                    *sel,
                ),
                Err(e) => crate::statement::spec_select_err(old(self).catalog.schemas@, *q, e),
            }),
            *stmt matches Statement::Explain { .. } ==> (r matches Ok(bs) ==> bs is Explain),
            *stmt matches Statement::Explain { statement } ==> ((*statement) matches
                Statement::Query(q) ==> (match r {
                Ok(bs) => bs matches BoundStatement::Explain(ib) && (*ib matches
                    BoundStatement::Select(sel) && crate::statement::spec_select_ok(
                    old(self).catalog.schemas@,
                    *q,
                    *sel,
                )),
                Err(e) => crate::statement::spec_select_err(old(self).catalog.schemas@, *q, e),
            })),
            *stmt matches Statement::Explain { statement } ==> ((*statement) matches
                Statement::CreateTable { name, columns } ==> (match r {
                Ok(bs) => bs matches BoundStatement::Explain(ib) && (*ib matches
                    BoundStatement::CreateTable(b)
                    && crate::statement::spec_create_table_result(name, columns@) == Ok::<
                    _,
                    crate::error::SpecBindError,
                >((b.schema_name@, b.table_name@))),
                Err(e) => crate::statement::spec_create_table_result(name, columns@) == Err::<
                    (Seq<char>, Seq<char>),
                    crate::error::SpecBindError,
                >(crate::error::spec_err(e)),
            })),
            *stmt matches Statement::Explain { statement } ==> ((*statement) matches
                Statement::Insert { table_name, values } ==> (match r {
                Ok(bs) => bs matches BoundStatement::Explain(ib) && (*ib matches
                    BoundStatement::Insert(b) && crate::statement::spec_insert_ok(
                    old(self).catalog.schemas@,
                    old(self).context.regular_tables@,
                    old(self).context.aliases@,
                    table_name,
                    values@,
                    b,
                )),
                Err(e) => crate::statement::spec_insert_err(
                    old(self).catalog.schemas@,
                    old(self).context.regular_tables@,
                    old(self).context.aliases@,
                    table_name,
                    values@,
                    e,
                ),
            })),
            *stmt matches Statement::Explain { statement } ==> ((*statement) matches
                Statement::Delete { table_name, selection } ==> (match r {
                Ok(bs) => bs matches BoundStatement::Explain(ib) && (*ib matches
                    BoundStatement::Delete(b) && crate::statement::spec_delete_ok(
                    old(self).catalog.schemas@,
                    table_name,
                    selection,
                    *b,
                )),
                Err(e) => crate::statement::spec_delete_err(
                    old(self).catalog.schemas@,
                    table_name,
                    selection,
                    e,
                ),
            })),
            *stmt matches Statement::Explain { statement } ==> ((*statement) matches
                Statement::Copy { table_name, columns } ==> (match r {
                Ok(bs) => bs matches BoundStatement::Explain(ib) && (*ib matches
                    BoundStatement::Copy(b) && crate::statement::spec_copy_ok(
                    old(self).catalog.schemas@,
                    table_name,
                    columns@,
                    b,
                )),
                Err(e) => crate::statement::spec_copy_err(
                    old(self).catalog.schemas@,
                    table_name,
                    columns@,
                    e,
                ),
            })),
            *stmt matches Statement::Explain { statement } ==> (((*statement) matches
                Statement::ShowVariable { .. } || (*statement) matches Statement::ShowCreate { .. }
                || (*statement) matches Statement::ShowColumns { .. }) ==> r == Err::<
                BoundStatement,
                BindError,
            >(BindError::NotSupportedTSQL)),
            *stmt matches Statement::Explain { statement } ==> ((*statement) matches
                Statement::SetVariable { .. } ==> r == Err::<BoundStatement, BindError>(
                BindError::InvalidSQL,
            )),
            *stmt matches Statement::Explain { statement } ==> ((*statement) matches
                Statement::Drop { name } ==> (match r {
                Ok(bs) => bs matches BoundStatement::Explain(ib) && (*ib matches
                    BoundStatement::Drop(b)
                    && crate::statement::spec_resolve_table(old(self).catalog.schemas@, name)
                    matches Ok(t) && b.table_ref_id == t.id),
                Err(e) => crate::statement::spec_resolve_table(old(self).catalog.schemas@, name)
                    == Err::<crate::catalog::TableCatalog, crate::error::SpecBindError>(
                    crate::error::spec_err(e),
                ),
            })),
            (*stmt matches Statement::ShowVariable { .. } || *stmt matches Statement::ShowCreate {
                ..
            } || *stmt matches Statement::ShowColumns { .. }) ==> r == Err::<
                BoundStatement,
                BindError,
            >(BindError::NotSupportedTSQL),
            *stmt matches Statement::SetVariable { .. } ==> r == Err::<BoundStatement, BindError>(
                BindError::InvalidSQL,
            ),
        decreases stmt,
    {
        match stmt {
            Statement::CreateTable { name, columns } => {
                match self.bind_create_table(name, columns) {
                    Ok(b) => Ok(BoundStatement::CreateTable(b)),
                    Err(e) => Err(e),
                }
            },
            Statement::Drop { name } => {
                match self.bind_drop(name) {
                    Ok(b) => Ok(BoundStatement::Drop(b)),
                    Err(e) => Err(e),
                }
            },
            Statement::Insert { table_name, values } => {
                match self.bind_insert(table_name, values) {
                    Ok(b) => Ok(BoundStatement::Insert(b)),
                    Err(e) => Err(e),
                }
            },
            Statement::Delete { table_name, selection } => {
                match self.bind_delete(table_name, selection) {
                    Ok(b) => Ok(BoundStatement::Delete(Box::new(b))),
                    Err(e) => Err(e),
                }
            },
            Statement::Copy { table_name, columns } => {
                match self.bind_copy(table_name, columns) {
                    Ok(b) => Ok(BoundStatement::Copy(b)),
                    Err(e) => Err(e),
                }
            },
            Statement::Query(query) => {
                match self.bind_select(query) {
                    Ok(b) => Ok(BoundStatement::Select(b)),
                    Err(e) => Err(e),
                }
            },
            Statement::Explain { statement } => {
                match self.bind(statement) {
                    Ok(b) => Ok(BoundStatement::Explain(Box::new(b))),
                    Err(e) => Err(e),
                }
            },
            Statement::ShowVariable { .. } | Statement::ShowCreate { .. }
            | Statement::ShowColumns { .. } => Err(BindError::NotSupportedTSQL),
            Statement::SetVariable { .. } => Err(BindError::InvalidSQL),
        }
    }
}

/// Around one nested construct, entering and then leaving the scope restores
/// the binder exactly: the active context after the pop is the context that
/// was active before the push, and the scope stack is as it was.
pub proof fn lemma_push_pop_restores_context(b0: Binder, b1: Binder, b2: Binder)
    requires
        spec_pushed(b0, b1),
        spec_popped(b1, b2),
    ensures
        b2.context == b0.context,
        b2.upper_contexts@ == b0.upper_contexts@,
        b2.catalog == b0.catalog,
        b2.base_table_refs@ == b0.base_table_refs@,
{
    assert(b1.upper_contexts@.drop_last() =~= b0.upper_contexts@);
}

} // verus!
