//! A read-only snapshot of the schema catalog: the stable identifiers the
//! binder resolves names to, and name-based lookup over the snapshot.

use vstd::prelude::*;
use crate::types::DataTypeKind;

verus! {

/// Catalog-stable identifier of a column within a table.
pub type ColumnId = u32;

/// Catalog-stable identifier of a physical table.
#[derive(Debug, Clone, Copy, PartialEq, Eq, Structural)]
pub struct TableRefId {
    pub database_id: u32,
    pub schema_id: u32,
    pub table_id: u32,
}

/// A column's descriptor: its name, declared type kind and nullability.
#[derive(Debug, PartialEq, Eq)]
pub struct ColumnDesc {
    pub name: String,
    pub kind: DataTypeKind,
    /// False when the column is declared NOT NULL.
    pub nullable: bool,
}

impl Clone for ColumnDesc {
    fn clone(&self) -> (res: Self)
        ensures
            res == *self,
    {
        ColumnDesc { name: self.name.clone(), kind: self.kind, nullable: self.nullable }
    }
}

/// One column of a table: its stable id paired with its descriptor, so the
/// id list and the descriptor list stay aligned by construction.
#[derive(Debug, PartialEq, Eq)]
pub struct CatalogColumn {
    pub id: ColumnId,
    pub desc: ColumnDesc,
}

impl Clone for CatalogColumn {
    fn clone(&self) -> (res: Self)
        ensures
            res == *self,
    {
        CatalogColumn { id: self.id, desc: self.desc.clone() }
    }
}

/// Clone a list of columns, keeping every element equal.
pub fn clone_columns(v: &Vec<CatalogColumn>) -> (r: Vec<CatalogColumn>)
    ensures
        r@ == v@,
{
    let mut r: Vec<CatalogColumn> = Vec::new();
    let mut i: usize = 0;
    while i < v.len()
        invariant
            i <= v.len(),
            r@ == v@.take(i as int),
        decreases v.len() - i,
    {
        r.push(v[i].clone());
        proof {
            assert(r@ =~= v@.take(i + 1 as int));
        }
        i += 1;
    }
    proof {
        assert(r@ =~= v@);
    }
    r
}

/// The ordered list of ids of a column list.
pub open spec fn spec_column_ids(cols: Seq<CatalogColumn>) -> Seq<ColumnId> {
    cols.map_values(|c: CatalogColumn| c.id)
}

/// The ordered list of descriptors of a column list.
pub open spec fn spec_column_descs(cols: Seq<CatalogColumn>) -> Seq<ColumnDesc> {
    cols.map_values(|c: CatalogColumn| c.desc)
}

/// Extract the ordered column-id list of a column list.
pub fn column_ids_of(cols: &Vec<CatalogColumn>) -> (r: Vec<ColumnId>)
    ensures
        r@ == spec_column_ids(cols@),
{
    let mut r: Vec<ColumnId> = Vec::new();
    let mut i: usize = 0;
    while i < cols.len()
        invariant
            i <= cols.len(),
            r@ == spec_column_ids(cols@.take(i as int)),
        decreases cols.len() - i,
    {
        r.push(cols[i].id);
        proof {
            assert(r@ =~= spec_column_ids(cols@.take(i + 1 as int)));
        }
        i += 1;
    }
    proof {
        assert(cols@.take(cols@.len() as int) =~= cols@);
    }
    r
}

/// Extract the ordered column-descriptor list of a column list.
pub fn column_descs_of(cols: &Vec<CatalogColumn>) -> (r: Vec<ColumnDesc>)
    ensures
        r@ == spec_column_descs(cols@),
{
    let mut r: Vec<ColumnDesc> = Vec::new();
    let mut i: usize = 0;
    while i < cols.len()
        invariant
            i <= cols.len(),
            r@ == spec_column_descs(cols@.take(i as int)),
        decreases cols.len() - i,
    {
        r.push(cols[i].desc.clone());
        proof {
            assert(r@ =~= spec_column_descs(cols@.take(i + 1 as int)));
        }
        i += 1;
    }
    proof {
        assert(cols@.take(cols@.len() as int) =~= cols@);
    }
    r
}

/// One table of the catalog: its resolved identifier and its columns, in
/// declaration order.
#[derive(Debug)]
pub struct TableCatalog {
    pub name: String,
    pub id: TableRefId,
    pub columns: Vec<CatalogColumn>,
}

/// One schema of the catalog with its tables.
#[derive(Debug)]
pub struct SchemaCatalog {
    pub name: String,
    pub tables: Vec<TableCatalog>,
}

/// The root of the catalog snapshot the binder resolves against.
#[derive(Debug)]
pub struct RootCatalog {
    pub schemas: Vec<SchemaCatalog>,
}

/// The schema used when an object name carries no schema part.
pub open spec fn spec_default_schema_name() -> Seq<char> {
    "postgres"@
}

/// Executable counterpart of [`spec_default_schema_name`].
pub fn default_schema_name() -> (r: String)
    ensures
        r@ == spec_default_schema_name(),
{
    String::from_str("postgres")
}

/// The first schema of the sequence carrying the given name, if any.
pub open spec fn spec_find_schema(schemas: Seq<SchemaCatalog>, name: Seq<char>) -> Option<
    SchemaCatalog,
>
    decreases schemas.len(),
{
    if schemas.len() == 0 {
        None
    } else if schemas[0].name@ == name {
        Some(schemas[0])
    } else {
        spec_find_schema(schemas.drop_first(), name)
    }
}

/// The first table of the sequence carrying the given name, if any.
pub open spec fn spec_find_table(tables: Seq<TableCatalog>, name: Seq<char>) -> Option<TableCatalog>
    decreases tables.len(),
{
    if tables.len() == 0 {
        None
    } else if tables[0].name@ == name {
        Some(tables[0])
    } else {
        spec_find_table(tables.drop_first(), name)
    }
}

/// The index of the first column carrying the given name, if any.
pub open spec fn spec_col_idx(cols: Seq<CatalogColumn>, name: Seq<char>) -> Option<int>
    decreases cols.len(),
{
    if cols.len() == 0 {
        None
    } else if cols[0].desc.name@ == name {
        Some(0int)
    } else {
        match spec_col_idx(cols.drop_first(), name) {
            Some(j) => Some(j + 1),
            None => None,
        }
    }
}

/// Basic facts about [`spec_col_idx`]: a found index is in range, names the
/// searched column, and is the first such index.
pub proof fn lemma_col_idx(cols: Seq<CatalogColumn>, name: Seq<char>)
    ensures
        match spec_col_idx(cols, name) {
            Some(j) => 0 <= j < cols.len() && cols[j].desc.name@ == name && (forall|i: int|
                0 <= i < j ==> cols[i].desc.name@ != name),
            None => forall|i: int| 0 <= i < cols.len() ==> cols[i].desc.name@ != name,
        },
    decreases cols.len(),
{
    if cols.len() > 0 && cols[0].desc.name@ != name {
        lemma_col_idx(cols.drop_first(), name);
        let rest = cols.drop_first();
        assert forall|i: int| 1 <= i < cols.len() implies cols[i] == rest[i - 1] by {}
        match spec_col_idx(rest, name) {
            Some(j) => {
                assert(spec_col_idx(cols, name) == Some(j + 1));
                assert(cols[j + 1].desc.name@ == name);
            },
            None => {},
        }
    }
}

impl RootCatalog {
    /// Look up a schema by name (first match).
    pub fn get_schema(&self, name: &String) -> (r: Option<&SchemaCatalog>)
        ensures
            match r {
                Some(s) => spec_find_schema(self.schemas@, name@) == Some(*s),
                None => spec_find_schema(self.schemas@, name@) is None,
            },
    {
        let mut i: usize = 0;
        proof {
            assert(self.schemas@.skip(0) =~= self.schemas@);
        }
        while i < self.schemas.len()
            invariant
                i <= self.schemas.len(),
                spec_find_schema(self.schemas@, name@) == spec_find_schema(
                    self.schemas@.skip(i as int),
                    name@,
                ),
            decreases self.schemas.len() - i,
        {
            proof {
                assert(self.schemas@.skip(i as int)[0] == self.schemas@[i as int]);
            }
            if self.schemas[i].name == *name {
                return Some(&self.schemas[i]);
            }
            proof {
                assert(self.schemas@.skip(i as int).drop_first() =~= self.schemas@.skip(i + 1));
            }
            i += 1;
        }
        proof {
            assert(self.schemas@.skip(i as int).len() == 0);
        }
        None
    }
}

impl SchemaCatalog {
    /// Look up a table of this schema by name (first match).
    pub fn get_table(&self, name: &String) -> (r: Option<&TableCatalog>)
        ensures
            match r {
                Some(t) => spec_find_table(self.tables@, name@) == Some(*t),
                None => spec_find_table(self.tables@, name@) is None,
            },
    {
        let mut i: usize = 0;
        proof {
            assert(self.tables@.skip(0) =~= self.tables@);
        }
        while i < self.tables.len()
            invariant
                i <= self.tables.len(),
                spec_find_table(self.tables@, name@) == spec_find_table(
                    self.tables@.skip(i as int),
                    name@,
                ),
            decreases self.tables.len() - i,
        {
            proof {
                assert(self.tables@.skip(i as int)[0] == self.tables@[i as int]);
            }
            if self.tables[i].name == *name {
                return Some(&self.tables[i]);
            }
            proof {
                assert(self.tables@.skip(i as int).drop_first() =~= self.tables@.skip(i + 1));
            }
            i += 1;
        }
        proof {
            assert(self.tables@.skip(i as int).len() == 0);
        }
        None
    }
}

/// Find the index of the first column named `name` in `cols`.
pub fn find_column_idx(cols: &Vec<CatalogColumn>, name: &String) -> (r: Option<usize>)
    ensures
        match r {
            Some(j) => spec_col_idx(cols@, name@) == Some(j as int),
            None => spec_col_idx(cols@, name@) is None,
        },
{
    let mut i: usize = 0;
    while i < cols.len()
        invariant
            i <= cols.len(),
            forall|k: int| 0 <= k < i ==> cols@[k].desc.name@ != name@,
        decreases cols.len() - i,
    {
        if cols[i].desc.name == *name {
            proof {
                lemma_col_idx(cols@, name@);
            }
            return Some(i);
        }
        i += 1;
    }
    proof {
        lemma_col_idx(cols@, name@);
    }
    None
}

} // verus!
