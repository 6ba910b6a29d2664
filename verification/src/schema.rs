//! The schema catalog: the rows of the root page, classified by their first
//! column into table and index entries, with name lookup.
//!
//! Lookups are case-sensitive exact byte matches.  Reserved names such as
//! `sqlite_sequence` stay in the catalog and are excluded only from the
//! user-facing table listing.

use vstd::prelude::*;

use crate::bytes::{bytes_eq, clone_bytes};
use crate::error::DbError;
use crate::page::{Page, PageModel};
use crate::record::{Cell, CellModel};
use crate::value::{spec_int_value, ColumnValue, ColumnValueModel};

verus! {

/// One table row of the schema: its name, the 1-based number of its root
/// page, and its creation statement text.
#[derive(Debug, Clone, PartialEq, Eq)]
pub struct TableSchema {
    pub name: Vec<u8>,
    pub root_page: u64,
    pub sql: Vec<u8>,
}

/// The mathematical shape of a [`TableSchema`].
pub struct TableSchemaModel {
    pub name: Seq<u8>,
    pub root_page: u64,
    pub sql: Seq<u8>,
}

impl View for TableSchema {
    type V = TableSchemaModel;

    open spec fn view(&self) -> TableSchemaModel {
        TableSchemaModel { name: self.name@, root_page: self.root_page, sql: self.sql@ }
    }
}

/// One index row of the schema: its name, the table it belongs to, the
/// 1-based number of its root page, and its creation statement text.
#[derive(Debug, Clone, PartialEq, Eq)]
pub struct IndexSchema {
    pub name: Vec<u8>,
    pub table_name: Vec<u8>,
    pub root_page: u64,
    pub sql: Vec<u8>,
}

/// The mathematical shape of an [`IndexSchema`].
pub struct IndexSchemaModel {
    pub name: Seq<u8>,
    pub table_name: Seq<u8>,
    pub root_page: u64,
    pub sql: Seq<u8>,
}

impl View for IndexSchema {
    type V = IndexSchemaModel;

    open spec fn view(&self) -> IndexSchemaModel {
        IndexSchemaModel {
            name: self.name@,
            table_name: self.table_name@,
            root_page: self.root_page,
            sql: self.sql@,
        }
    }
}

/// The table entry carried by a schema cell: column 1 is the name, column 3
/// the root page number, column 4 the creation statement. A cell without
/// those columns in those classes is `CorruptPage`.
pub open spec fn spec_table_schema(c: CellModel) -> Result<TableSchemaModel, DbError> {
    if c.column_values.len() < 5 {
        Err(DbError::CorruptPage)
    } else {
        match (c.column_values[1], c.column_values[4]) {
            (ColumnValueModel::TEXT(nm), ColumnValueModel::TEXT(sq)) => match spec_int_value(
                c.column_values[3],
            ) {
                Some(rp) => Ok(TableSchemaModel { name: nm, root_page: rp, sql: sq }),
                None => Err(DbError::CorruptPage),
            },
            _ => Err(DbError::CorruptPage),
        }
    }
}

/// The index entry carried by a schema cell: column 1 is the name, column 2
/// the table name, column 3 the root page number, column 4 the creation
/// statement.
pub open spec fn spec_index_schema(c: CellModel) -> Result<IndexSchemaModel, DbError> {
    if c.column_values.len() < 5 {
        Err(DbError::CorruptPage)
    } else {
        match (c.column_values[1], c.column_values[2], c.column_values[4]) {
            (
                ColumnValueModel::TEXT(nm),
                ColumnValueModel::TEXT(tn),
                ColumnValueModel::TEXT(sq),
            ) => match spec_int_value(c.column_values[3]) {
                Some(rp) => Ok(
                    IndexSchemaModel { name: nm, table_name: tn, root_page: rp, sql: sq },
                ),
                None => Err(DbError::CorruptPage),
            },
            _ => Err(DbError::CorruptPage),
        }
    }
}

/// The bytes of the type tag `"table"`.
pub open spec fn spec_table_kind() -> Seq<u8> {
    seq![116u8, 97u8, 98u8, 108u8, 101u8]
}

/// The bytes of the type tag `"index"`.
pub open spec fn spec_index_kind() -> Seq<u8> {
    seq![105u8, 110u8, 100u8, 101u8, 120u8]
}

/// The bytes of the reserved table name `"sqlite_sequence"`.
pub open spec fn spec_reserved_name() -> Seq<u8> {
    seq![
        115u8,
        113u8,
        108u8,
        105u8,
        116u8,
        101u8,
        95u8,
        115u8,
        101u8,
        113u8,
        117u8,
        101u8,
        110u8,
        99u8,
        101u8,
    ]
}

/// The table and index entries among `cells[i ..]`, classified by the text
/// of their first column; rows of other kinds are skipped.  A cell with no
/// columns is `CorruptPage`.
pub open spec fn spec_schema_from(cells: Seq<CellModel>, i: int) -> Result<
    (Seq<TableSchemaModel>, Seq<IndexSchemaModel>),
    DbError,
>
    decreases cells.len() - i,
{
    if i < 0 || i >= cells.len() {
        Ok((seq![], seq![]))
    } else {
        let c = cells[i];
        if c.column_values.len() < 1 {
            Err(DbError::CorruptPage)
        } else {
            match c.column_values[0] {
                ColumnValueModel::TEXT(kind) => {
                    if kind == spec_table_kind() {
                        match spec_table_schema(c) {
                            Err(e) => Err(e),
                            Ok(ts) => match spec_schema_from(cells, i + 1) {
                                Err(e) => Err(e),
                                Ok(rest) => Ok((seq![ts] + rest.0, rest.1)),
                            },
                        }
                    } else if kind == spec_index_kind() {
                        match spec_index_schema(c) {
                            Err(e) => Err(e),
                            Ok(ix) => match spec_schema_from(cells, i + 1) {
                                Err(e) => Err(e),
                                Ok(rest) => Ok((rest.0, seq![ix] + rest.1)),
                            },
                        }
                    } else {
                        spec_schema_from(cells, i + 1)
                    }
                },
                _ => spec_schema_from(cells, i + 1),
            }
        }
    }
}

/// The catalog built from the root page: its table rows and index rows, in
/// page order.
#[derive(Debug, Clone, PartialEq, Eq)]
pub struct SqliteSchema {
    pub tables: Vec<TableSchema>,
    pub indexes: Vec<IndexSchema>,
}

/// The mathematical shape of a [`SqliteSchema`].
pub struct SqliteSchemaModel {
    pub tables: Seq<TableSchemaModel>,
    pub indexes: Seq<IndexSchemaModel>,
}

impl View for SqliteSchema {
    type V = SqliteSchemaModel;

    open spec fn view(&self) -> SqliteSchemaModel {
        SqliteSchemaModel {
            tables: self.tables@.map_values(|t: TableSchema| t@),
            indexes: self.indexes@.map_values(|ix: IndexSchema| ix@),
        }
    }
}

impl TableSchema {
    /// Projects the table entry out of a schema cell.
    pub fn new(cell: &Cell) -> (r: Result<TableSchema, DbError>)
        ensures
            match r {
                Ok(t) => spec_table_schema(cell@) == Ok::<TableSchemaModel, DbError>(t@),
                Err(e) => spec_table_schema(cell@) == Err::<TableSchemaModel, DbError>(e),
            },
    {
        if cell.column_values.len() < 5 {
            return Err(DbError::CorruptPage);
        }
        let rp = match cell.column_values[3].int_value() {
            Some(rp) => rp,
            None => {
                return Err(DbError::CorruptPage);
            },
        };
        match (&cell.column_values[1], &cell.column_values[4]) {
            (ColumnValue::TEXT(nm), ColumnValue::TEXT(sq)) => Ok(
                TableSchema { name: clone_bytes(nm), root_page: rp, sql: clone_bytes(sq) },
            ),
            _ => Err(DbError::CorruptPage),
        }
    }
}

impl IndexSchema {
    /// Projects the index entry out of a schema cell.
    pub fn new(cell: &Cell) -> (r: Result<IndexSchema, DbError>)
        ensures
            match r {
                Ok(ix) => spec_index_schema(cell@) == Ok::<IndexSchemaModel, DbError>(ix@),
                Err(e) => spec_index_schema(cell@) == Err::<IndexSchemaModel, DbError>(e),
            },
    {
        if cell.column_values.len() < 5 {
            return Err(DbError::CorruptPage);
        }
        let rp = match cell.column_values[3].int_value() {
            Some(rp) => rp,
            None => {
                return Err(DbError::CorruptPage);
            },
        };
        match (&cell.column_values[1], &cell.column_values[2], &cell.column_values[4]) {
            (ColumnValue::TEXT(nm), ColumnValue::TEXT(tn), ColumnValue::TEXT(sq)) => Ok(
                IndexSchema {
                    name: clone_bytes(nm),
                    table_name: clone_bytes(tn),
                    root_page: rp,
                    sql: clone_bytes(sq),
                },
            ),
            _ => Err(DbError::CorruptPage),
        }
    }
}

/// Appends already-classified entries in front of a partial result.
spec fn sch_append(
    ts: Seq<TableSchemaModel>,
    ixs: Seq<IndexSchemaModel>,
    r: Result<(Seq<TableSchemaModel>, Seq<IndexSchemaModel>), DbError>,
) -> Result<(Seq<TableSchemaModel>, Seq<IndexSchemaModel>), DbError> {
    match r {
        Ok(p) => Ok((ts + p.0, ixs + p.1)),
        Err(e) => Err(e),
    }
}

/// The first root page, in page order, whose table name matches; or
/// `NoSuchTable` when none does.
pub open spec fn spec_lookup(tables: Seq<TableSchemaModel>, name: Seq<u8>, i: int) -> Result<
    u64,
    DbError,
>
    decreases tables.len() - i,
{
    if i < 0 || i >= tables.len() {
        Err(DbError::NoSuchTable)
    } else if tables[i].name == name {
        Ok(tables[i].root_page)
    } else {
        spec_lookup(tables, name, i + 1)
    }
}

/// The table names shown to users: every table name but the reserved
/// `sqlite_sequence`, in page order.
pub open spec fn spec_user_names(tables: Seq<TableSchemaModel>, i: int) -> Seq<Seq<u8>>
    decreases tables.len() - i,
{
    if i < 0 || i >= tables.len() {
        seq![]
    } else if tables[i].name == spec_reserved_name() {
        spec_user_names(tables, i + 1)
    } else {
        seq![tables[i].name] + spec_user_names(tables, i + 1)
    }
}

/// A lookup succeeds exactly when some table carries the name.
proof fn lemma_lookup_found(tables: Seq<TableSchemaModel>, name: Seq<u8>, i: int)
    requires
        0 <= i <= tables.len(),
    ensures
        spec_lookup(tables, name, i) is Ok <==> exists|j: int|
            i <= j < tables.len() && #[trigger] tables[j].name == name,
    decreases tables.len() - i,
{
    if i < tables.len() {
        lemma_lookup_found(tables, name, i + 1);
        if tables[i].name == name {
            assert(i <= i < tables.len() && tables[i].name == name);
        }
    }
}

impl SqliteSchema {
    /// Builds the catalog from the decoded root page.
    #[verifier::loop_isolation(false)]
    pub fn new(root_page: &Page) -> (r: Result<SqliteSchema, DbError>)
        ensures
            match r {
                Ok(s) => spec_schema_from(root_page@.cells, 0) == Ok::<
                    (Seq<TableSchemaModel>, Seq<IndexSchemaModel>),
                    DbError,
                >((s@.tables, s@.indexes)),
                Err(e) => spec_schema_from(root_page@.cells, 0) == Err::<
                    (Seq<TableSchemaModel>, Seq<IndexSchemaModel>),
                    DbError,
                >(e),
            },
    {
        let ghost cells_model = root_page@.cells;
        let mut tables: Vec<TableSchema> = Vec::new();
        let mut indexes: Vec<IndexSchema> = Vec::new();
        let mut i: usize = 0;
        let table_kind: Vec<u8> = vec![116, 97, 98, 108, 101];
        let index_kind: Vec<u8> = vec![105, 110, 100, 101, 120];
        proof {
            assert(table_kind@ =~= spec_table_kind());
            assert(index_kind@ =~= spec_index_kind());
            assert(tables@.map_values(|t: TableSchema| t@) =~= Seq::<TableSchemaModel>::empty());
            assert(indexes@.map_values(|x: IndexSchema| x@) =~= Seq::<IndexSchemaModel>::empty());
            let s0 = spec_schema_from(cells_model, 0);
            match s0 {
                Ok(p) => {
                    assert(Seq::<TableSchemaModel>::empty() + p.0 =~= p.0);
                    assert(Seq::<IndexSchemaModel>::empty() + p.1 =~= p.1);
                },
                Err(_) => {},
            }
        }
        while i < root_page.cells.len()
            invariant
                i <= root_page.cells.len(),
                cells_model == root_page@.cells,
                table_kind@ == spec_table_kind(),
                index_kind@ == spec_index_kind(),
                spec_schema_from(cells_model, 0) == sch_append(
                    tables@.map_values(|t: TableSchema| t@),
                    indexes@.map_values(|x: IndexSchema| x@),
                    spec_schema_from(cells_model, i as int),
                ),
            decreases root_page.cells.len() - i,
        {
            let cell = &root_page.cells[i];
            proof {
                assert(cells_model[i as int] == root_page.cells[i as int]@);
            }
            if cell.column_values.len() < 1 {
                return Err(DbError::CorruptPage);
            }
            match &cell.column_values[0] {
                ColumnValue::TEXT(kind) => {
                    if bytes_eq(kind, &table_kind) {
                        let ts = match TableSchema::new(cell) {
                            Ok(t) => t,
                            Err(e) => {
                                return Err(e);
                            },
                        };
                        proof {
                            let rest = spec_schema_from(cells_model, i as int + 1);
                            let dt = tables@.map_values(|t: TableSchema| t@);
                            match rest {
                                Ok(p) => {
                                    assert(dt + (seq![ts@] + p.0) =~= dt.push(ts@) + p.0);
                                    assert(tables@.push(ts).map_values(|t: TableSchema| t@)
                                        =~= dt.push(ts@));
                                },
                                Err(_) => {},
                            }
                        }
                        tables.push(ts);
                    } else if bytes_eq(kind, &index_kind) {
                        let ix = match IndexSchema::new(cell) {
                            Ok(x) => x,
                            Err(e) => {
                                return Err(e);
                            },
                        };
                        proof {
                            let rest = spec_schema_from(cells_model, i as int + 1);
                            let dx = indexes@.map_values(|x: IndexSchema| x@);
                            match rest {
                                Ok(p) => {
                                    assert(dx + (seq![ix@] + p.1) =~= dx.push(ix@) + p.1);
                                    assert(indexes@.push(ix).map_values(|x: IndexSchema| x@)
                                        =~= dx.push(ix@));
                                },
                                Err(_) => {},
                            }
                        }
                        indexes.push(ix);
                    }
                },
                _ => {},
            }
            i = i + 1;
        }
        proof {
            let dt = tables@.map_values(|t: TableSchema| t@);
            let dx = indexes@.map_values(|x: IndexSchema| x@);
            assert(dt + seq![] =~= dt);
            assert(dx + seq![] =~= dx);
        }
        Ok(SqliteSchema { tables, indexes })
    }

    /// Looks the table name up in the catalog, case-sensitively, returning
    /// its root page number. Succeeds exactly when some table carries the
    /// name; otherwise `NoSuchTable`.
    #[verifier::loop_isolation(false)]
    pub fn root_page_of(&self, name: &Vec<u8>) -> (r: Result<u64, DbError>)
        ensures
            r == spec_lookup(self@.tables, name@, 0),
            r is Ok <==> exists|j: int|
                0 <= j < self@.tables.len() && #[trigger] self@.tables[j].name == name@,
    {
        proof {
            lemma_lookup_found(self@.tables, name@, 0);
        }
        let mut i: usize = 0;
        while i < self.tables.len()
            invariant
                i <= self.tables.len(),
                spec_lookup(self@.tables, name@, 0) == spec_lookup(self@.tables, name@, i as int),
            decreases self.tables.len() - i,
        {
            proof {
                assert(self@.tables[i as int] == self.tables[i as int]@);
            }
            if bytes_eq(&self.tables[i].name, name) {
                return Ok(self.tables[i].root_page);
            }
            i = i + 1;
        }
        Err(DbError::NoSuchTable)
    }

    /// The table names shown to users, in page order, with the reserved
    /// `sqlite_sequence` left out.
    #[verifier::loop_isolation(false)]
    pub fn user_table_names(&self) -> (r: Vec<Vec<u8>>)
        ensures
            r@.map_values(|v: Vec<u8>| v@) == spec_user_names(self@.tables, 0),
    {
        let reserved: Vec<u8> = vec![
            115,
            113,
            108,
            105,
            116,
            101,
            95,
            115,
            101,
            113,
            117,
            101,
            110,
            99,
            101,
        ];
        let mut names: Vec<Vec<u8>> = Vec::new();
        let mut i: usize = 0;
        proof {
            assert(reserved@ =~= spec_reserved_name());
            assert(names@.map_values(|v: Vec<u8>| v@) =~= Seq::<Seq<u8>>::empty());
            assert(Seq::<Seq<u8>>::empty() + spec_user_names(self@.tables, 0) =~= spec_user_names(
                self@.tables,
                0,
            ));
        }
        while i < self.tables.len()
            invariant
                i <= self.tables.len(),
                reserved@ == spec_reserved_name(),
                spec_user_names(self@.tables, 0) == names@.map_values(|v: Vec<u8>| v@)
                    + spec_user_names(self@.tables, i as int),
            decreases self.tables.len() - i,
        {
            proof {
                assert(self@.tables[i as int] == self.tables[i as int]@);
            }
            if !bytes_eq(&self.tables[i].name, &reserved) {
                let nm = clone_bytes(&self.tables[i].name);
                proof {
                    let done = names@.map_values(|v: Vec<u8>| v@);
                    assert(names@.push(nm).map_values(|v: Vec<u8>| v@) =~= done.push(nm@));
                    assert(done + (seq![nm@] + spec_user_names(self@.tables, i as int + 1))
                        =~= done.push(nm@) + spec_user_names(self@.tables, i as int + 1));
                }
                names.push(nm);
            }
            i = i + 1;
        }
        proof {
            let done = names@.map_values(|v: Vec<u8>| v@);
            assert(done + seq![] =~= done);
        }
        names
    }
}

} // verus!
