//! The scope context: the tables and aliases visible for resolution at one
//! lexical nesting level, with registration and lookup over them.

use vstd::prelude::*;
use crate::catalog::{spec_col_idx, CatalogColumn, TableRefId};
use crate::error::BindError;
use crate::expression::BoundExpr;

verus! {

/// One table visible in a scope: the name it is registered under (its own
/// name or its alias), its resolved identifier, and its columns in order.
#[derive(Debug)]
pub struct TableEntry {
    pub name: String,
    pub ref_id: TableRefId,
    pub columns: Vec<CatalogColumn>,
}

/// One declared alias and the bound expression it denotes.
#[derive(Debug)]
pub struct AliasEntry {
    pub name: String,
    pub expr: BoundExpr,
}

/// The set of names visible for resolution at one lexical nesting level:
/// the registered tables (keys unique) and the declared aliases, an ordered
/// list of name-to-expression pairs.
#[derive(Debug)]
pub struct BinderContext {
    pub regular_tables: Vec<TableEntry>,
    pub aliases: Vec<AliasEntry>,
}

impl Default for BinderContext {
    fn default() -> (res: Self)
        ensures
            res.regular_tables@ == Seq::<TableEntry>::empty(),
            res.aliases@ == Seq::<AliasEntry>::empty(),
    {
        BinderContext { regular_tables: Vec::new(), aliases: Vec::new() }
    }
}

impl BinderContext {
    /// A fresh, empty context.
    pub fn new() -> (res: Self)
        ensures
            res.regular_tables@ == Seq::<TableEntry>::empty(),
            res.aliases@ == Seq::<AliasEntry>::empty(),
    {
        BinderContext { regular_tables: Vec::new(), aliases: Vec::new() }
    }
}

/// The first table entry registered under the given name, if any.
pub open spec fn spec_find_entry(tables: Seq<TableEntry>, name: Seq<char>) -> Option<TableEntry>
    decreases tables.len(),
{
    if tables.len() == 0 {
        None
    } else if tables[0].name@ == name {
        Some(tables[0])
    } else {
        spec_find_entry(tables.drop_first(), name)
    }
}

/// Whether some table is registered under the given name.
pub open spec fn spec_contains_table(tables: Seq<TableEntry>, name: Seq<char>) -> bool {
    spec_find_entry(tables, name) is Some
}

/// The outcome of scanning every visible table for an unqualified column.
pub enum IdentLookup {
    /// No visible table has the column.
    NotFound,
    /// Exactly one visible table has the column: that entry and the index of
    /// the column in it.
    Found(TableEntry, int),
    /// More than one visible table has the column.
    Ambiguous,
}

/// Scan the tables for a column name: not found, found in exactly one table,
/// or ambiguous.
pub open spec fn spec_ident_lookup(tables: Seq<TableEntry>, col: Seq<char>) -> IdentLookup
    decreases tables.len(),
{
    if tables.len() == 0 {
        IdentLookup::NotFound
    } else {
        let rest = spec_ident_lookup(tables.drop_first(), col);
        match spec_col_idx(tables[0].columns@, col) {
            Some(j) => match rest {
                IdentLookup::NotFound => IdentLookup::Found(tables[0], j),
                _ => IdentLookup::Ambiguous,
            },
            None => rest,
        }
    }
}

/// The expression stored for the first alias carrying the given name, if any.
pub open spec fn spec_find_alias(aliases: Seq<AliasEntry>, name: Seq<char>) -> Option<BoundExpr>
    decreases aliases.len(),
{
    if aliases.len() == 0 {
        None
    } else if aliases[0].name@ == name {
        Some(aliases[0].expr)
    } else {
        spec_find_alias(aliases.drop_first(), name)
    }
}

impl BinderContext {
    /// Look up a registered table by name (first match).
    pub fn find_entry(&self, name: &String) -> (r: Option<&TableEntry>)
        ensures
            match r {
                Some(e) => spec_find_entry(self.regular_tables@, name@) == Some(*e),
                None => spec_find_entry(self.regular_tables@, name@) is None,
            },
    {
        let mut i: usize = 0;
        proof {
            assert(self.regular_tables@.skip(0) =~= self.regular_tables@);
        }
        while i < self.regular_tables.len()
            invariant
                i <= self.regular_tables.len(),
                spec_find_entry(self.regular_tables@, name@) == spec_find_entry(
                    self.regular_tables@.skip(i as int),
                    name@,
                ),
            decreases self.regular_tables.len() - i,
        {
            proof {
                assert(self.regular_tables@.skip(i as int)[0] == self.regular_tables@[i as int]);
            }
            if self.regular_tables[i].name == *name {
                return Some(&self.regular_tables[i]);
            }
            proof {
                assert(self.regular_tables@.skip(i as int).drop_first() =~= self.regular_tables@.skip(
                    i + 1,
                ));
            }
            i += 1;
        }
        proof {
            assert(self.regular_tables@.skip(i as int).len() == 0);
        }
        None
    }

    /// Register a table under its effective name. Registering a second table
    /// under a name already present in this scope fails with the
    /// duplicated-table error and leaves the scope unchanged.
    pub fn add_table(&mut self, entry: TableEntry) -> (r: Result<(), BindError>)
        ensures
            match r {
                Ok(_) => !spec_contains_table(old(self).regular_tables@, entry.name@)
                    && final(self).regular_tables@ == old(self).regular_tables@.push(entry)
                    && final(self).aliases@ == old(self).aliases@,
                Err(e) => spec_contains_table(old(self).regular_tables@, entry.name@)
                    && *final(self) == *old(self)
                    && (e matches BindError::DuplicatedTable(n) && n@ == entry.name@),
            },
    {
        let dup = {
            match self.find_entry(&entry.name) {
                Some(_) => true,
                None => false,
            }
        };
        if dup {
            Err(BindError::DuplicatedTable(entry.name.clone()))
        } else {
            self.regular_tables.push(entry);
            Ok(())
        }
    }

    /// Record a declared alias and the bound expression it denotes as a new
    /// entry of the ordered alias list.
    pub fn add_alias(&mut self, entry: AliasEntry)
        ensures
            final(self).aliases@ == old(self).aliases@.push(entry),
            final(self).regular_tables@ == old(self).regular_tables@,
    {
        self.aliases.push(entry);
    }
}

/// How finding a table behaves across a registration: a name already bound
/// keeps its binding, the registered name becomes bound, and other names
/// stay unbound.
pub proof fn lemma_find_entry_push(tables: Seq<TableEntry>, entry: TableEntry, name: Seq<char>)
    ensures
        spec_find_entry(tables.push(entry), name) == (match spec_find_entry(tables, name) {
            Some(e) => Some(e),
            None => if entry.name@ == name {
                Some(entry)
            } else {
                None
            },
        }),
    decreases tables.len(),
{
    if tables.len() == 0 {
        assert(tables.push(entry).drop_first() =~= Seq::<TableEntry>::empty());
        assert(tables.push(entry)[0] == entry);
    } else {
        assert(tables.push(entry)[0] == tables[0]);
        assert(tables.push(entry).drop_first() =~= tables.drop_first().push(entry));
        lemma_find_entry_push(tables.drop_first(), entry, name);
    }
}

/// Registering two tables under distinct free names leaves both
/// independently resolvable: each name finds exactly the entry registered
/// under it.
pub proof fn lemma_register_two_tables(
    tables: Seq<TableEntry>,
    e1: TableEntry,
    e2: TableEntry,
)
    requires
        !spec_contains_table(tables, e1.name@),
        !spec_contains_table(tables, e2.name@),
        e1.name@ != e2.name@,
    ensures
        spec_find_entry(tables.push(e1).push(e2), e1.name@) == Some(e1),
        spec_find_entry(tables.push(e1).push(e2), e2.name@) == Some(e2),
    decreases tables.len(),
{
    lemma_find_entry_push(tables, e1, e1.name@);
    lemma_find_entry_push(tables, e1, e2.name@);
    lemma_find_entry_push(tables.push(e1), e2, e1.name@);
    lemma_find_entry_push(tables.push(e1), e2, e2.name@);
}

/// Registering a second table under an already registered name is refused:
/// the scope still contains the first registration, so `add_table` reports
/// the duplicated-table error.
pub proof fn lemma_register_duplicate_refused(tables: Seq<TableEntry>, e1: TableEntry, e2: TableEntry)
    requires
        e1.name@ == e2.name@,
    ensures
        spec_contains_table(tables.push(e1), e2.name@),
{
    lemma_find_entry_push(tables, e1, e2.name@);
}

/// How finding an alias behaves across a recording: a name already bound
/// keeps its binding, the recorded name becomes bound, and other names stay
/// unbound.
pub proof fn lemma_find_alias_push(aliases: Seq<AliasEntry>, entry: AliasEntry, name: Seq<char>)
    ensures
        spec_find_alias(aliases.push(entry), name) == (match spec_find_alias(aliases, name) {
            Some(e) => Some(e),
            None => if entry.name@ == name {
                Some(entry.expr)
            } else {
                None
            },
        }),
    decreases aliases.len(),
{
    reveal_with_fuel(spec_find_alias, 3);
    if aliases.len() == 0 {
        assert(aliases.push(entry).drop_first() =~= Seq::<AliasEntry>::empty());
        assert(aliases.push(entry)[0] == entry);
        assert(spec_find_alias(aliases, name) is None);
        assert(spec_find_alias(aliases.push(entry), name) == (if entry.name@ == name {
            Some(entry.expr)
        } else {
            None
        }));
    } else {
        assert(aliases.push(entry)[0] == aliases[0]);
        assert(aliases.push(entry).drop_first() =~= aliases.drop_first().push(entry));
        lemma_find_alias_push(aliases.drop_first(), entry, name);
        if aliases[0].name@ == name {
            assert(spec_find_alias(aliases.push(entry), name) == Some(aliases[0].expr));
            assert(spec_find_alias(aliases, name) == Some(aliases[0].expr));
        } else {
            assert(spec_find_alias(aliases.push(entry), name) == spec_find_alias(
                aliases.drop_first().push(entry),
                name,
            ));
            assert(spec_find_alias(aliases, name) == spec_find_alias(
                aliases.drop_first(),
                name,
            ));
        }
    }
}

} // verus!
