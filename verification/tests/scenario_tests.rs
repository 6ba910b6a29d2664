use sqlite_pages::command::{resolve_command, Command};
use sqlite_pages::count::count_rows;
use sqlite_pages::error::DbError;
use sqlite_pages::header::page_size_of;
use sqlite_pages::page::Page;
use sqlite_pages::schema::SqliteSchema;
use sqlite_pages::varint::encode_varint;

fn build_cell(rowid: u64, cols: &[(u64, Vec<u8>)]) -> Vec<u8> {
    let mut types: Vec<u8> = Vec::new();
    for (code, _) in cols {
        types.extend(encode_varint(*code));
    }
    let mut header_length = types.len() as u64 + 1;
    loop {
        let next = types.len() as u64 + encode_varint(header_length).len() as u64;
        if next == header_length {
            break;
        }
        header_length = next;
    }
    let body: Vec<u8> = cols.iter().flat_map(|(_, b)| b.clone()).collect();
    let mut out = encode_varint(header_length + body.len() as u64);
    out.extend(encode_varint(rowid));
    out.extend(encode_varint(header_length));
    out.extend(types);
    out.extend(body);
    out
}

/// A schema row: type, name, tbl_name, rootpage, sql, all but the root page
/// as text columns.
fn schema_row(rowid: u64, kind: &str, name: &str, tbl: &str, root: u8, sql: &str) -> Vec<u8> {
    let text = |s: &str| (13 + 2 * s.len() as u64, s.as_bytes().to_vec());
    build_cell(
        rowid,
        &[text(kind), text(name), text(tbl), (1, vec![root]), text(sql)],
    )
}

fn build_leaf_page(page_size: usize, hdr_off: usize, cells: &[Vec<u8>]) -> Vec<u8> {
    let mut page = vec![0u8; page_size];
    page[hdr_off] = 0x0d;
    page[hdr_off + 3..hdr_off + 5].copy_from_slice(&(cells.len() as u16).to_be_bytes());
    let mut content = page_size;
    let mut ptrs: Vec<u16> = Vec::new();
    for c in cells {
        content -= c.len();
        page[content..content + c.len()].copy_from_slice(c);
        ptrs.push(content as u16);
    }
    page[hdr_off + 5..hdr_off + 7].copy_from_slice(&(content as u16).to_be_bytes());
    let mut pa = hdr_off + 8;
    for p in &ptrs {
        page[pa..pa + 2].copy_from_slice(&p.to_be_bytes());
        pa += 2;
    }
    page
}

fn build_interior_page(
    page_size: usize,
    hdr_off: usize,
    children: &[(u32, u64)],
    right_most: u32,
) -> Vec<u8> {
    let mut page = vec![0u8; page_size];
    page[hdr_off] = 0x05;
    page[hdr_off + 3..hdr_off + 5].copy_from_slice(&(children.len() as u16).to_be_bytes());
    page[hdr_off + 8..hdr_off + 12].copy_from_slice(&right_most.to_be_bytes());
    let mut content = page_size;
    let mut ptrs: Vec<u16> = Vec::new();
    for (child, key) in children {
        let mut cell = child.to_be_bytes().to_vec();
        cell.extend(encode_varint(*key));
        content -= cell.len();
        page[content..content + cell.len()].copy_from_slice(&cell);
        ptrs.push(content as u16);
    }
    page[hdr_off + 5..hdr_off + 7].copy_from_slice(&(content as u16).to_be_bytes());
    let mut pa = hdr_off + 12;
    for p in &ptrs {
        page[pa..pa + 2].copy_from_slice(&p.to_be_bytes());
        pa += 2;
    }
    page
}

/// A whole database file: the 100-byte header with the page size at offset
/// 16, page 1 carrying the schema rows, and the given further pages.
fn build_db(page_size: usize, schema_rows: &[Vec<u8>], pages: &[Vec<u8>]) -> Vec<u8> {
    let mut root = build_leaf_page(page_size, 100, schema_rows);
    root[16..18].copy_from_slice(&(page_size as u16).to_be_bytes());
    let mut db = root;
    for p in pages {
        assert_eq!(p.len(), page_size);
        db.extend_from_slice(p);
    }
    db
}

fn rows(n: u64) -> Vec<Vec<u8>> {
    (1..=n).map(|i| build_cell(i, &[(1, vec![(i % 200) as u8])])).collect()
}

#[test]
fn single_leaf_table_counts_three_rows() {
    let table_page = build_leaf_page(512, 0, &rows(3));
    let db = build_db(
        512,
        &[schema_row(1, "table", "t", "t", 2, "CREATE TABLE t(x)")],
        &[table_page],
    );

    assert_eq!(page_size_of(&db), Ok(512));

    let root = Page::new(&db[..512].to_vec(), 100).unwrap();
    let schema = SqliteSchema::new(&root).unwrap();
    assert_eq!(schema.tables.len(), 1);
    assert_eq!(schema.indexes.len(), 0);
    assert_eq!(schema.tables[0].name, b"t".to_vec());
    assert_eq!(schema.tables[0].sql, b"CREATE TABLE t(x)".to_vec());
    assert_eq!(schema.user_table_names(), vec![b"t".to_vec()]);

    let cmd = resolve_command(&b"SELECT COUNT(*) FROM t".to_vec()).unwrap();
    assert_eq!(cmd, Command::CountRows(b"t".to_vec()));
    let name = match cmd {
        Command::CountRows(name) => name,
        _ => unreachable!(),
    };
    let root_page = schema.root_page_of(&name).unwrap();
    assert_eq!(root_page, 2);
    assert_eq!(count_rows(&db, 512, root_page), Ok(3));
}

#[test]
fn two_leaves_under_interior_root_count_seventy_five() {
    let interior = build_interior_page(512, 0, &[(3, 50)], 4);
    let leaf_a = build_leaf_page(512, 0, &rows(50));
    let leaf_b = build_leaf_page(512, 0, &rows(25));
    let db = build_db(
        512,
        &[schema_row(1, "table", "big", "big", 2, "CREATE TABLE big(x)")],
        &[interior, leaf_a, leaf_b],
    );

    let root = Page::new(&db[..512].to_vec(), 100).unwrap();
    let schema = SqliteSchema::new(&root).unwrap();
    let root_page = schema.root_page_of(&b"big".to_vec()).unwrap();
    assert_eq!(root_page, 2);
    assert_eq!(count_rows(&db, 512, root_page), Ok(75));
}

#[test]
fn count_query_against_absent_name_is_no_such_table() {
    let table_page = build_leaf_page(512, 0, &rows(1));
    let db = build_db(
        512,
        &[schema_row(1, "table", "t", "t", 2, "CREATE TABLE t(x)")],
        &[table_page],
    );
    let root = Page::new(&db[..512].to_vec(), 100).unwrap();
    let schema = SqliteSchema::new(&root).unwrap();

    let cmd = resolve_command(&b"SELECT COUNT(*) FROM missing".to_vec()).unwrap();
    let name = match cmd {
        Command::CountRows(name) => name,
        _ => unreachable!(),
    };
    assert_eq!(schema.root_page_of(&name), Err(DbError::NoSuchTable));
}

#[test]
fn schema_classifies_tables_indexes_and_skips_views() {
    let schema_rows = vec![
        schema_row(1, "table", "alpha", "alpha", 2, "CREATE TABLE alpha(x)"),
        schema_row(2, "index", "alpha_idx", "alpha", 3, "CREATE INDEX alpha_idx ON alpha(x)"),
        schema_row(3, "view", "v", "v", 0, "CREATE VIEW v AS SELECT x FROM alpha"),
        schema_row(4, "table", "sqlite_sequence", "sqlite_sequence", 4, "CREATE TABLE sqlite_sequence(name,seq)"),
    ];
    let db = build_db(1024, &schema_rows, &[]);
    let root = Page::new(&db[..1024].to_vec(), 100).unwrap();
    let schema = SqliteSchema::new(&root).unwrap();

    assert_eq!(schema.tables.len(), 2);
    assert_eq!(schema.indexes.len(), 1);
    assert_eq!(schema.indexes[0].name, b"alpha_idx".to_vec());
    assert_eq!(schema.indexes[0].table_name, b"alpha".to_vec());
    assert_eq!(schema.indexes[0].root_page, 3);

    // The reserved name stays in the catalog and is looked up normally,
    // but is left out of the user-facing listing.
    assert_eq!(schema.root_page_of(&b"sqlite_sequence".to_vec()), Ok(4));
    assert_eq!(schema.user_table_names(), vec![b"alpha".to_vec()]);
}

#[test]
fn lookup_is_case_sensitive() {
    let table_page = build_leaf_page(512, 0, &rows(1));
    let db = build_db(
        512,
        &[schema_row(1, "table", "Tbl", "Tbl", 2, "CREATE TABLE Tbl(x)")],
        &[table_page],
    );
    let root = Page::new(&db[..512].to_vec(), 100).unwrap();
    let schema = SqliteSchema::new(&root).unwrap();
    assert_eq!(schema.root_page_of(&b"Tbl".to_vec()), Ok(2));
    assert_eq!(schema.root_page_of(&b"tbl".to_vec()), Err(DbError::NoSuchTable));
}

#[test]
fn count_on_missing_page_is_corrupt() {
    let db = build_db(
        512,
        &[schema_row(1, "table", "t", "t", 9, "CREATE TABLE t(x)")],
        &[],
    );
    // Root page number 9 lies past the end of the one-page file.
    assert_eq!(count_rows(&db, 512, 9), Err(DbError::CorruptPage));
    assert_eq!(count_rows(&db, 512, 0), Err(DbError::CorruptPage));
}

#[test]
fn count_on_cyclic_tree_fails_instead_of_looping() {
    // An interior page whose only child is itself.
    let interior = build_interior_page(512, 0, &[(2, 1)], 2);
    let db = build_db(
        512,
        &[schema_row(1, "table", "t", "t", 2, "CREATE TABLE t(x)")],
        &[interior],
    );
    assert_eq!(count_rows(&db, 512, 2), Err(DbError::CorruptPage));
}

#[test]
fn header_too_short_is_corrupt() {
    let db = vec![0u8; 50];
    assert_eq!(page_size_of(&db), Err(DbError::CorruptPage));
}

#[test]
fn page_size_one_stands_for_65536() {
    let mut db = vec![0u8; 100];
    db[16..18].copy_from_slice(&1u16.to_be_bytes());
    assert_eq!(page_size_of(&db), Ok(65536));
}
