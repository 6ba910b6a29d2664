use sqlite_pages::error::DbError;
use sqlite_pages::page::{InteriorCell, Page, PageHeader, PageType};
use sqlite_pages::value::ColumnValue;
use sqlite_pages::varint::encode_varint;

#[test]
fn page_type_mapping_is_total_over_the_four_bytes() {
    assert_eq!(PageType::new(&0x0d), Ok(PageType::TableLeafPage));
    assert_eq!(PageType::new(&0x0a), Ok(PageType::IndexLeafPage));
    assert_eq!(PageType::new(&0x02), Ok(PageType::IndexInteriorPage));
    assert_eq!(PageType::new(&0x05), Ok(PageType::TableInteriorPage));
}

#[test]
fn page_type_rejects_every_other_byte() {
    for b in 0u16..=255 {
        let b = b as u8;
        let ok = b == 0x0d || b == 0x0a || b == 0x02 || b == 0x05;
        assert_eq!(PageType::new(&b).is_ok(), ok);
    }
}

fn build_cell(rowid: u64, cols: &[(u64, Vec<u8>)]) -> Vec<u8> {
    let mut types: Vec<u8> = Vec::new();
    for (code, _) in cols {
        types.extend(encode_varint(*code));
    }
    let mut header_length = types.len() as u64 + 1;
    loop {
        let next = types.len() as u64 + encode_varint(header_length).len() as u64;
        if next == header_length {
            break;
        }
        header_length = next;
    }
    let body: Vec<u8> = cols.iter().flat_map(|(_, b)| b.clone()).collect();
    let mut out = encode_varint(header_length + body.len() as u64);
    out.extend(encode_varint(rowid));
    out.extend(encode_varint(header_length));
    out.extend(types);
    out.extend(body);
    out
}

fn build_leaf_page(page_size: usize, hdr_off: usize, cells: &[Vec<u8>]) -> Vec<u8> {
    let mut page = vec![0u8; page_size];
    page[hdr_off] = 0x0d;
    page[hdr_off + 3..hdr_off + 5].copy_from_slice(&(cells.len() as u16).to_be_bytes());
    let mut content = page_size;
    let mut ptrs: Vec<u16> = Vec::new();
    for c in cells {
        content -= c.len();
        page[content..content + c.len()].copy_from_slice(c);
        ptrs.push(content as u16);
    }
    page[hdr_off + 5..hdr_off + 7].copy_from_slice(&(content as u16).to_be_bytes());
    let mut pa = hdr_off + 8;
    for p in &ptrs {
        page[pa..pa + 2].copy_from_slice(&p.to_be_bytes());
        pa += 2;
    }
    page
}

fn build_interior_page(
    page_size: usize,
    hdr_off: usize,
    children: &[(u32, u64)],
    right_most: u32,
) -> Vec<u8> {
    let mut page = vec![0u8; page_size];
    page[hdr_off] = 0x05;
    page[hdr_off + 3..hdr_off + 5].copy_from_slice(&(children.len() as u16).to_be_bytes());
    page[hdr_off + 8..hdr_off + 12].copy_from_slice(&right_most.to_be_bytes());
    let mut content = page_size;
    let mut ptrs: Vec<u16> = Vec::new();
    for (child, key) in children {
        let mut cell = child.to_be_bytes().to_vec();
        cell.extend(encode_varint(*key));
        content -= cell.len();
        page[content..content + cell.len()].copy_from_slice(&cell);
        ptrs.push(content as u16);
    }
    page[hdr_off + 5..hdr_off + 7].copy_from_slice(&(content as u16).to_be_bytes());
    let mut pa = hdr_off + 12;
    for p in &ptrs {
        page[pa..pa + 2].copy_from_slice(&p.to_be_bytes());
        pa += 2;
    }
    page
}

#[test]
fn leaf_page_decodes_header_pointers_and_cells() {
    let cells = vec![
        build_cell(1, &[(1, vec![10])]),
        build_cell(2, &[(1, vec![20])]),
    ];
    let page_bytes = build_leaf_page(256, 0, &cells);
    let page = Page::new(&page_bytes, 0).unwrap();
    assert_eq!(page.page_header.page_type, PageType::TableLeafPage);
    assert_eq!(page.page_header.number_cells, 2);
    assert_eq!(page.page_header.right_most_child, None);
    assert_eq!(page.cell_pointers.len(), 2);
    assert_eq!(page.cells.len(), 2);
    assert!(page.interior_cells.is_empty());
    assert_eq!(page.cells[0].rowid, 1);
    assert_eq!(page.cells[0].column_values, vec![ColumnValue::U8(10)]);
    assert_eq!(page.cells[1].rowid, 2);
    assert_eq!(page.cells[1].column_values, vec![ColumnValue::U8(20)]);
}

#[test]
fn interior_page_decodes_children_and_right_most() {
    let page_bytes = build_interior_page(128, 0, &[(3, 50), (7, 90)], 9);
    let page = Page::new(&page_bytes, 0).unwrap();
    assert_eq!(page.page_header.page_type, PageType::TableInteriorPage);
    assert_eq!(page.page_header.number_cells, 2);
    assert_eq!(page.page_header.right_most_child, Some(9));
    assert!(page.cells.is_empty());
    assert_eq!(
        page.interior_cells,
        vec![
            InteriorCell { child_page: 3, key: 50 },
            InteriorCell { child_page: 7, key: 90 },
        ]
    );
}

#[test]
fn page_header_standalone_decode() {
    let page_bytes = build_leaf_page(64, 0, &[]);
    let (header, after) = PageHeader::decode(&page_bytes, 0).unwrap();
    assert_eq!(header.page_type, PageType::TableLeafPage);
    assert_eq!(header.number_cells, 0);
    assert_eq!(header.freeblock, 0);
    assert_eq!(header.number_fragmented_bytes, 0);
    assert_eq!(after, 8);
}

#[test]
fn page_invalid_discriminant_byte_fails() {
    let mut page_bytes = build_leaf_page(64, 0, &[]);
    page_bytes[0] = 0x03;
    assert_eq!(Page::new(&page_bytes, 0), Err(DbError::InvalidPageType));
}

#[test]
fn page_out_of_range_cell_pointer_is_corrupt() {
    let mut page_bytes = build_leaf_page(64, 0, &[build_cell(1, &[])]);
    // Point the one cell pointer past the end of the page.
    page_bytes[8..10].copy_from_slice(&100u16.to_be_bytes());
    assert_eq!(Page::new(&page_bytes, 0), Err(DbError::CorruptPage));
}

#[test]
fn index_leaf_page_decodes_header_and_pointers_only() {
    let mut page_bytes = vec![0u8; 64];
    page_bytes[0] = 0x0a;
    page_bytes[3..5].copy_from_slice(&1u16.to_be_bytes());
    page_bytes[8..10].copy_from_slice(&32u16.to_be_bytes());
    let page = Page::new(&page_bytes, 0).unwrap();
    assert_eq!(page.page_header.page_type, PageType::IndexLeafPage);
    assert_eq!(page.cell_pointers, vec![32]);
    assert!(page.cells.is_empty());
    assert!(page.interior_cells.is_empty());
}

#[test]
fn index_leaf_out_of_range_pointer_is_corrupt() {
    let mut page_bytes = vec![0u8; 64];
    page_bytes[0] = 0x0a;
    page_bytes[3..5].copy_from_slice(&1u16.to_be_bytes());
    page_bytes[8..10].copy_from_slice(&200u16.to_be_bytes());
    assert_eq!(Page::new(&page_bytes, 0), Err(DbError::CorruptPage));
}

#[test]
fn page_truncated_header_is_corrupt() {
    let page_bytes = vec![0x0d, 0x00, 0x00];
    assert_eq!(Page::new(&page_bytes, 0), Err(DbError::CorruptPage));
    let empty: Vec<u8> = Vec::new();
    assert_eq!(Page::new(&empty, 0), Err(DbError::CorruptPage));
}

#[test]
fn interior_header_needs_twelve_bytes() {
    // Ten bytes hold a full leaf header but cut the interior header's
    // right-most child field.
    let mut short = vec![0u8; 10];
    short[0] = 0x05;
    assert_eq!(Page::new(&short, 0), Err(DbError::CorruptPage));
    short[0] = 0x0d;
    assert!(Page::new(&short, 0).is_ok());
}

#[test]
fn header_decode_at_root_offset() {
    let mut page_bytes = vec![0u8; 150];
    page_bytes[100] = 0x0d;
    let (header, after) = PageHeader::decode(&page_bytes, 100).unwrap();
    assert_eq!(header.page_type, PageType::TableLeafPage);
    assert_eq!(after, 108);
}

#[test]
fn page_decode_is_idempotent() {
    let cells = vec![
        build_cell(1, &[(15, b"a".to_vec())]),
        build_cell(2, &[(1, vec![9]), (0, Vec::new())]),
    ];
    let page_bytes = build_leaf_page(256, 0, &cells);
    let first = Page::new(&page_bytes, 0).unwrap();
    let second = Page::new(&page_bytes, 0).unwrap();
    assert_eq!(first, second);
    let interior_bytes = build_interior_page(128, 0, &[(2, 11)], 5);
    assert_eq!(
        Page::new(&interior_bytes, 0).unwrap(),
        Page::new(&interior_bytes, 0).unwrap()
    );
}
