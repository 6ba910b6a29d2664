//! Pages: the b-tree page header, the cell-pointer array, and the decoded
//! cells of one page.
//!
//! A page's bytes are exactly one page worth, already sliced from the file;
//! the header starts at offset 0, or at offset 100 on page 1, where the
//! database header precedes it.  Table-leaf pages decode a full cell at
//! every pointer; interior pages decode `(child page, key)` pairs; index
//! leaf pages decode only the header and the pointer array.

use vstd::prelude::*;

use crate::bytes::{read_be_u16, read_be_u32, spec_be_uint};
use crate::error::DbError;
use crate::record::{spec_cell, Cell, CellModel};
use crate::varint::{decode_varint, spec_decode_varint};

verus! {

/// The four b-tree page kinds.
#[derive(Debug, Clone, Copy, PartialEq, Eq, Structural)]
pub enum PageType {
    TableInteriorPage,
    TableLeafPage,
    IndexInteriorPage,
    IndexLeafPage,
}

/// The page kind named by a discriminant byte: 0x0d, 0x0a, 0x02 and 0x05
/// are the four kinds; every other byte is `InvalidPageType`.
pub open spec fn spec_page_type(byte: u8) -> Result<PageType, DbError> {
    if byte == 0x0d {
        Ok(PageType::TableLeafPage)
    } else if byte == 0x0a {
        Ok(PageType::IndexLeafPage)
    } else if byte == 0x02 {
        Ok(PageType::IndexInteriorPage)
    } else if byte == 0x05 {
        Ok(PageType::TableInteriorPage)
    } else {
        Err(DbError::InvalidPageType)
    }
}

/// True for the two interior page kinds, whose header is 12 bytes instead
/// of 8 and carries a right-most child page number.
pub open spec fn spec_is_interior(pt: PageType) -> bool {
    pt == PageType::TableInteriorPage || pt == PageType::IndexInteriorPage
}

impl PageType {
    /// Maps a discriminant byte to its page kind, or `InvalidPageType`.
    pub fn new(byte: &u8) -> (r: Result<PageType, DbError>)
        ensures
            r == spec_page_type(*byte),
    {
        match *byte {
            0x0d => Ok(PageType::TableLeafPage),
            0x0a => Ok(PageType::IndexLeafPage),
            0x02 => Ok(PageType::IndexInteriorPage),
            0x05 => Ok(PageType::TableInteriorPage),
            _ => Err(DbError::InvalidPageType),
        }
    }

    /// True for the two interior page kinds.
    pub fn is_interior(&self) -> (r: bool)
        ensures
            r == spec_is_interior(*self),
    {
        match self {
            PageType::TableInteriorPage => true,
            PageType::IndexInteriorPage => true,
            _ => false,
        }
    }
}

/// The mapping of `spec_page_type` is a total bijection between the four
/// discriminant bytes and the four page kinds: each of the four bytes names
/// its kind, every other byte fails, and distinct bytes name distinct kinds.
pub proof fn lemma_page_type_bijection()
    ensures
        spec_page_type(0x0d) == Ok::<PageType, DbError>(PageType::TableLeafPage),
        spec_page_type(0x0a) == Ok::<PageType, DbError>(PageType::IndexLeafPage),
        spec_page_type(0x02) == Ok::<PageType, DbError>(PageType::IndexInteriorPage),
        spec_page_type(0x05) == Ok::<PageType, DbError>(PageType::TableInteriorPage),
        forall|b: u8| #[trigger] spec_page_type(b) is Ok <==> (b == 0x0d || b == 0x0a || b == 0x02
            || b == 0x05),
        forall|b1: u8, b2: u8|
            spec_page_type(b1) is Ok && spec_page_type(b2) is Ok && b1 != b2
                ==> #[trigger] spec_page_type(b1) != #[trigger] spec_page_type(b2),
{
}

/// The fixed page-header fields: 8 bytes on leaf pages, plus a big-endian
/// `u32` right-most child page number on interior pages.
#[derive(Debug, Clone, Copy, PartialEq, Eq)]
pub struct PageHeader {
    pub page_type: PageType,
    /// Offset of the first freeblock, 0 when there is none.
    pub freeblock: u16,
    /// Count of cells on the page.
    pub number_cells: u16,
    /// Start of the cell-content area, where 0 stands for 65536.
    pub content_area_start: u16,
    /// Count of fragmented free bytes inside the content area.
    pub number_fragmented_bytes: u8,
    /// The right-most child page number; present on interior pages only.
    pub right_most_child: Option<u32>,
}

/// The header at `bytes[off ..]` and the position just after it: the
/// discriminant byte, three big-endian `u16` fields, one `u8` field, and on
/// interior pages one big-endian `u32`, at fixed widths in that order.
pub open spec fn spec_page_header(bytes: Seq<u8>, off: int) -> Result<(PageHeader, int), DbError> {
    if off < 0 || off >= bytes.len() {
        Err(DbError::CorruptPage)
    } else {
        match spec_page_type(bytes[off]) {
            Err(e) => Err(e),
            Ok(pt) => {
                let hsize: int = if spec_is_interior(pt) {
                    12
                } else {
                    8
                };
                if off + hsize > bytes.len() {
                    Err(DbError::CorruptPage)
                } else {
                    Ok(
                        (
                            PageHeader {
                                page_type: pt,
                                freeblock: spec_be_uint(bytes, off + 1, 2) as u16,
                                number_cells: spec_be_uint(bytes, off + 3, 2) as u16,
                                content_area_start: spec_be_uint(bytes, off + 5, 2) as u16,
                                number_fragmented_bytes: bytes[off + 7],
                                right_most_child: if spec_is_interior(pt) {
                                    Some(spec_be_uint(bytes, off + 8, 4) as u32)
                                } else {
                                    None
                                },
                            },
                            off + hsize,
                        ),
                    )
                }
            },
        }
    }
}

impl PageHeader {
    /// Decodes the page header at `bytes[offset ..]`, returning it with the
    /// position just after it.
    pub fn decode(bytes: &Vec<u8>, offset: usize) -> (r: Result<(PageHeader, usize), DbError>)
        ensures
            match r {
                Ok(p) => {
                    &&& spec_page_header(bytes@, offset as int) == Ok::<(PageHeader, int), DbError>(
                        (p.0, p.1 as int),
                    )
                    &&& p.1 <= bytes.len()
                },
                Err(e) => spec_page_header(bytes@, offset as int) == Err::<
                    (PageHeader, int),
                    DbError,
                >(e),
            },
    {
        let n = bytes.len();
        if offset >= n {
            return Err(DbError::CorruptPage);
        }
        let page_type = match PageType::new(&bytes[offset]) {
            Ok(pt) => pt,
            Err(e) => {
                return Err(e);
            },
        };
        let hsize: usize = if page_type.is_interior() {
            12
        } else {
            8
        };
        if hsize > n - offset {
            return Err(DbError::CorruptPage);
        }
        let freeblock = read_be_u16(bytes, offset + 1);
        let number_cells = read_be_u16(bytes, offset + 3);
        let content_area_start = read_be_u16(bytes, offset + 5);
        let number_fragmented_bytes = bytes[offset + 7];
        let right_most_child = if page_type.is_interior() {
            Some(read_be_u32(bytes, offset + 8))
        } else {
            None
        };
        Ok(
            (
                PageHeader {
                    page_type,
                    freeblock,
                    number_cells,
                    content_area_start,
                    number_fragmented_bytes,
                    right_most_child,
                },
                offset + hsize,
            ),
        )
    }
}

/// One routing entry of an interior page: a child page number and its key.
#[derive(Debug, Clone, Copy, PartialEq, Eq, Structural)]
pub struct InteriorCell {
    pub child_page: u32,
    pub key: u64,
}

/// The interior cell at `bytes[ptr]`: a big-endian `u32` child page number
/// followed by a key varint.
pub open spec fn spec_interior_cell(bytes: Seq<u8>, ptr: int) -> Result<InteriorCell, DbError> {
    if ptr < 0 || ptr + 4 > bytes.len() {
        Err(DbError::CorruptPage)
    } else {
        match spec_decode_varint(bytes, ptr + 4) {
            Err(e) => Err(e),
            Ok(kv) => Ok(
                InteriorCell {
                    child_page: spec_be_uint(bytes, ptr, 4) as u32,
                    key: kv.0 as u64,
                },
            ),
        }
    }
}

/// The `n` big-endian `u16` cell pointers starting at `bytes[idx]`.
pub open spec fn spec_cell_pointers(bytes: Seq<u8>, idx: int, n: int) -> Result<Seq<u16>, DbError>
    decreases n,
{
    if n <= 0 {
        Ok(seq![])
    } else if idx < 0 || idx + 2 > bytes.len() {
        Err(DbError::CorruptPage)
    } else {
        match spec_cell_pointers(bytes, idx + 2, n - 1) {
            Err(e) => Err(e),
            Ok(rest) => Ok(seq![spec_be_uint(bytes, idx, 2) as u16] + rest),
        }
    }
}

/// Checks that every pointer in `ptrs[i ..]` lands inside the page; one at
/// or past the end is `CorruptPage`.
pub open spec fn spec_check_pointers(bytes: Seq<u8>, ptrs: Seq<u16>, i: int) -> Result<
    (),
    DbError,
>
    decreases ptrs.len() - i,
{
    if i < 0 || i >= ptrs.len() {
        Ok(())
    } else if ptrs[i] >= bytes.len() {
        Err(DbError::CorruptPage)
    } else {
        spec_check_pointers(bytes, ptrs, i + 1)
    }
}

/// The cells at `ptrs[i ..]`, decoded in pointer order. A pointer at or
/// past the end of the page is `CorruptPage`.
pub open spec fn spec_cells(bytes: Seq<u8>, ptrs: Seq<u16>, i: int) -> Result<
    Seq<CellModel>,
    DbError,
>
    decreases ptrs.len() - i,
{
    if i < 0 || i >= ptrs.len() {
        Ok(seq![])
    } else if ptrs[i] >= bytes.len() {
        Err(DbError::CorruptPage)
    } else {
        match spec_cell(bytes, ptrs[i] as int) {
            Err(e) => Err(e),
            Ok(c) => match spec_cells(bytes, ptrs, i + 1) {
                Err(e) => Err(e),
                Ok(rest) => Ok(seq![c] + rest),
            },
        }
    }
}

/// The interior cells at `ptrs[i ..]`, decoded in pointer order.
pub open spec fn spec_interior_cells(bytes: Seq<u8>, ptrs: Seq<u16>, i: int) -> Result<
    Seq<InteriorCell>,
    DbError,
>
    decreases ptrs.len() - i,
{
    if i < 0 || i >= ptrs.len() {
        Ok(seq![])
    } else {
        match spec_interior_cell(bytes, ptrs[i] as int) {
            Err(e) => Err(e),
            Ok(c) => match spec_interior_cells(bytes, ptrs, i + 1) {
                Err(e) => Err(e),
                Ok(rest) => Ok(seq![c] + rest),
            },
        }
    }
}

/// A fully decoded page.
#[derive(Debug, Clone, PartialEq, Eq)]
pub struct Page {
    pub page_header: PageHeader,
    /// The cell-pointer array, in page order.
    pub cell_pointers: Vec<u16>,
    /// The decoded cells; non-empty only on table-leaf pages.
    pub cells: Vec<Cell>,
    /// The decoded routing entries; non-empty only on interior pages.
    pub interior_cells: Vec<InteriorCell>,
}

/// The mathematical shape of a [`Page`].
pub struct PageModel {
    pub page_header: PageHeader,
    pub cell_pointers: Seq<u16>,
    pub cells: Seq<CellModel>,
    pub interior_cells: Seq<InteriorCell>,
}

impl View for Page {
    type V = PageModel;

    open spec fn view(&self) -> PageModel {
        PageModel {
            page_header: self.page_header,
            cell_pointers: self.cell_pointers@,
            cells: self.cells@.map_values(|c: Cell| c@),
            interior_cells: self.interior_cells@,
        }
    }
}

/// The page whose bytes are `bytes`, with its header at `off`: the header,
/// `number_cells` cell pointers right after it, and the decoded cells that
/// the page kind calls for.
pub open spec fn spec_page(bytes: Seq<u8>, off: int) -> Result<PageModel, DbError> {
    match spec_page_header(bytes, off) {
        Err(e) => Err(e),
        Ok(h) => match spec_cell_pointers(bytes, h.1, h.0.number_cells as int) {
            Err(e) => Err(e),
            Ok(ptrs) => match h.0.page_type {
                PageType::TableLeafPage => match spec_cells(bytes, ptrs, 0) {
                    Err(e) => Err(e),
                    Ok(cs) => Ok(
                        PageModel {
                            page_header: h.0,
                            cell_pointers: ptrs,
                            cells: cs,
                            interior_cells: seq![],
                        },
                    ),
                },
                PageType::TableInteriorPage | PageType::IndexInteriorPage => match
                    spec_interior_cells(bytes, ptrs, 0) {
                    Err(e) => Err(e),
                    Ok(ics) => Ok(
                        PageModel {
                            page_header: h.0,
                            cell_pointers: ptrs,
                            cells: seq![],
                            interior_cells: ics,
                        },
                    ),
                },
                PageType::IndexLeafPage => match spec_check_pointers(bytes, ptrs, 0) {
                    Err(e) => Err(e),
                    Ok(_) => Ok(
                        PageModel {
                            page_header: h.0,
                            cell_pointers: ptrs,
                            cells: seq![],
                            interior_cells: seq![],
                        },
                    ),
                },
            },
        },
    }
}

/// Appends already-read cell pointers in front of a partial result.
spec fn ptr_append(prefix: Seq<u16>, r: Result<Seq<u16>, DbError>) -> Result<Seq<u16>, DbError> {
    match r {
        Ok(p) => Ok(prefix + p),
        Err(e) => Err(e),
    }
}

/// Appends already-decoded cells in front of a partial result.
spec fn cells_append(prefix: Seq<CellModel>, r: Result<Seq<CellModel>, DbError>) -> Result<
    Seq<CellModel>,
    DbError,
> {
    match r {
        Ok(p) => Ok(prefix + p),
        Err(e) => Err(e),
    }
}

/// Appends already-decoded interior cells in front of a partial result.
spec fn ic_append(prefix: Seq<InteriorCell>, r: Result<Seq<InteriorCell>, DbError>) -> Result<
    Seq<InteriorCell>,
    DbError,
> {
    match r {
        Ok(p) => Ok(prefix + p),
        Err(e) => Err(e),
    }
}

/// Reads `n_cells` big-endian `u16` cell pointers starting at `after`.
#[verifier::loop_isolation(false)]
fn read_cell_pointers(bytes: &Vec<u8>, after: usize, n_cells: usize) -> (r: Result<
    Vec<u16>,
    DbError,
>)
    requires
        after <= bytes.len(),
    ensures
        match r {
            Ok(v) => spec_cell_pointers(bytes@, after as int, n_cells as int) == Ok::<
                Seq<u16>,
                DbError,
            >(v@),
            Err(e) => spec_cell_pointers(bytes@, after as int, n_cells as int) == Err::<
                Seq<u16>,
                DbError,
            >(e),
        },
{
    let mut cell_pointers: Vec<u16> = Vec::new();
    let mut idx = after;
    let mut i: usize = 0;
    proof {
        let p0 = spec_cell_pointers(bytes@, after as int, n_cells as int);
        match p0 {
            Ok(p) => {
                assert(Seq::<u16>::empty() + p =~= p);
            },
            Err(_) => {},
        }
    }
    while i < n_cells
        invariant
            i <= n_cells,
            cell_pointers@.len() == i,
            idx as int == after as int + 2 * i as int,
            idx <= bytes.len(),
            spec_cell_pointers(bytes@, after as int, n_cells as int) == ptr_append(
                cell_pointers@,
                spec_cell_pointers(bytes@, idx as int, n_cells as int - i as int),
            ),
        decreases n_cells - i,
    {
        if 2 > bytes.len() - idx {
            return Err(DbError::CorruptPage);
        }
        let p = read_be_u16(bytes, idx);
        proof {
            let rest = spec_cell_pointers(bytes@, idx as int + 2, n_cells as int - i as int - 1);
            match rest {
                Ok(q) => {
                    assert(cell_pointers@ + (seq![p] + q) =~= cell_pointers@.push(p) + q);
                },
                Err(_) => {},
            }
        }
        cell_pointers.push(p);
        idx = idx + 2;
        i = i + 1;
    }
    proof {
        assert(cell_pointers@ + seq![] =~= cell_pointers@);
    }
    Ok(cell_pointers)
}

/// Decodes one full cell at every pointer, in pointer order.
#[verifier::loop_isolation(false)]
fn decode_leaf_cells(bytes: &Vec<u8>, cell_pointers: &Vec<u16>) -> (r: Result<Vec<Cell>, DbError>)
    ensures
        match r {
            Ok(v) => spec_cells(bytes@, cell_pointers@, 0) == Ok::<Seq<CellModel>, DbError>(
                v@.map_values(|c: Cell| c@),
            ),
            Err(e) => spec_cells(bytes@, cell_pointers@, 0) == Err::<Seq<CellModel>, DbError>(e),
        },
{
    let mut cells: Vec<Cell> = Vec::new();
    let mut ci: usize = 0;
    proof {
        assert(cells@.map_values(|c: Cell| c@) =~= Seq::<CellModel>::empty());
        let c0 = spec_cells(bytes@, cell_pointers@, 0);
        match c0 {
            Ok(p) => {
                assert(Seq::<CellModel>::empty() + p =~= p);
            },
            Err(_) => {},
        }
    }
    while ci < cell_pointers.len()
        invariant
            ci <= cell_pointers@.len(),
            spec_cells(bytes@, cell_pointers@, 0) == cells_append(
                cells@.map_values(|c: Cell| c@),
                spec_cells(bytes@, cell_pointers@, ci as int),
            ),
        decreases cell_pointers@.len() - ci,
    {
        let ptr = cell_pointers[ci];
        if ptr as usize >= bytes.len() {
            return Err(DbError::CorruptPage);
        }
        let c = match Cell::new(bytes, &ptr) {
            Ok(c) => c,
            Err(e) => {
                return Err(e);
            },
        };
        proof {
            let rest = spec_cells(bytes@, cell_pointers@, ci as int + 1);
            let done = cells@.map_values(|x: Cell| x@);
            match rest {
                Ok(p) => {
                    assert(done + (seq![c@] + p) =~= done.push(c@) + p);
                    assert(cells@.push(c).map_values(|x: Cell| x@) =~= done.push(c@));
                },
                Err(_) => {},
            }
        }
        cells.push(c);
        ci = ci + 1;
    }
    proof {
        let done = cells@.map_values(|x: Cell| x@);
        assert(done + seq![] =~= done);
    }
    Ok(cells)
}

/// Decodes one routing entry at every pointer, in pointer order.
#[verifier::loop_isolation(false)]
fn decode_interior_cells(bytes: &Vec<u8>, cell_pointers: &Vec<u16>) -> (r: Result<
    Vec<InteriorCell>,
    DbError,
>)
    ensures
        match r {
            Ok(v) => spec_interior_cells(bytes@, cell_pointers@, 0) == Ok::<
                Seq<InteriorCell>,
                DbError,
            >(v@),
            Err(e) => spec_interior_cells(bytes@, cell_pointers@, 0) == Err::<
                Seq<InteriorCell>,
                DbError,
            >(e),
        },
{
    let mut interior_cells: Vec<InteriorCell> = Vec::new();
    let mut ci: usize = 0;
    proof {
        let c0 = spec_interior_cells(bytes@, cell_pointers@, 0);
        match c0 {
            Ok(p) => {
                assert(Seq::<InteriorCell>::empty() + p =~= p);
            },
            Err(_) => {},
        }
    }
    while ci < cell_pointers.len()
        invariant
            ci <= cell_pointers@.len(),
            spec_interior_cells(bytes@, cell_pointers@, 0) == ic_append(
                interior_cells@,
                spec_interior_cells(bytes@, cell_pointers@, ci as int),
            ),
        decreases cell_pointers@.len() - ci,
    {
        let ptr = cell_pointers[ci] as usize;
        if ptr > bytes.len() || 4 > bytes.len() - ptr {
            return Err(DbError::CorruptPage);
        }
        let child_page = read_be_u32(bytes, ptr);
        let (key, _klen) = match decode_varint(bytes, ptr + 4) {
            Ok(p) => p,
            Err(e) => {
                return Err(e);
            },
        };
        let ic = InteriorCell { child_page, key };
        proof {
            let rest = spec_interior_cells(bytes@, cell_pointers@, ci as int + 1);
            match rest {
                Ok(p) => {
                    assert(interior_cells@ + (seq![ic] + p) =~= interior_cells@.push(ic) + p);
                },
                Err(_) => {},
            }
        }
        interior_cells.push(ic);
        ci = ci + 1;
    }
    proof {
        assert(interior_cells@ + seq![] =~= interior_cells@);
    }
    Ok(interior_cells)
}

impl Page {
    /// Decodes a full page from its raw bytes, with the page header at
    /// `skip_offset`: 0 for every page but page 1, whose header follows the
    /// 100-byte database header.
    #[verifier::loop_isolation(false)]
    pub fn new(bytes: &Vec<u8>, skip_offset: usize) -> (r: Result<Page, DbError>)
        ensures
            match r {
                Ok(p) => spec_page(bytes@, skip_offset as int) == Ok::<PageModel, DbError>(p@),
                Err(e) => spec_page(bytes@, skip_offset as int) == Err::<PageModel, DbError>(e),
            },
    {
        let (page_header, after) = match PageHeader::decode(bytes, skip_offset) {
            Ok(p) => p,
            Err(e) => {
                return Err(e);
            },
        };
        let cell_pointers = match read_cell_pointers(bytes, after, page_header.number_cells
            as usize) {
            Ok(v) => v,
            Err(e) => {
                return Err(e);
            },
        };
        match page_header.page_type {
            PageType::TableLeafPage => {
                let cells = match decode_leaf_cells(bytes, &cell_pointers) {
                    Ok(v) => v,
                    Err(e) => {
                        return Err(e);
                    },
                };
                let interior_cells: Vec<InteriorCell> = Vec::new();
                proof {
                    assert(interior_cells@ =~= Seq::<InteriorCell>::empty());
                }
                Ok(Page { page_header, cell_pointers, cells, interior_cells })
            },
            PageType::TableInteriorPage | PageType::IndexInteriorPage => {
                let interior_cells = match decode_interior_cells(bytes, &cell_pointers) {
                    Ok(v) => v,
                    Err(e) => {
                        return Err(e);
                    },
                };
                let cells: Vec<Cell> = Vec::new();
                proof {
                    assert(cells@.map_values(|c: Cell| c@) =~= Seq::<CellModel>::empty());
                }
                Ok(Page { page_header, cell_pointers, cells, interior_cells })
            },
            PageType::IndexLeafPage => {
                let mut ci: usize = 0;
                while ci < cell_pointers.len()
                    invariant
                        ci <= cell_pointers@.len(),
                        spec_check_pointers(bytes@, cell_pointers@, 0) == spec_check_pointers(
                            bytes@,
                            cell_pointers@,
                            ci as int,
                        ),
                    decreases cell_pointers@.len() - ci,
                {
                    if cell_pointers[ci] as usize >= bytes.len() {
                        return Err(DbError::CorruptPage);
                    }
                    ci = ci + 1;
                }
                let cells: Vec<Cell> = Vec::new();
                let interior_cells: Vec<InteriorCell> = Vec::new();
                proof {
                    assert(cells@.map_values(|c: Cell| c@) =~= Seq::<CellModel>::empty());
                    assert(interior_cells@ =~= Seq::<InteriorCell>::empty());
                }
                Ok(Page { page_header, cell_pointers, cells, interior_cells })
            },
        }
    }
}

/// Decoding has no hidden state: a decoded page is a function of the page
/// bytes and offset alone, so two successful decodes of the same bytes are
/// structurally identical.
pub proof fn lemma_page_decode_deterministic(
    bytes: Seq<u8>,
    off: int,
    p1: PageModel,
    p2: PageModel,
)
    requires
        spec_page(bytes, off) == Ok::<PageModel, DbError>(p1),
        spec_page(bytes, off) == Ok::<PageModel, DbError>(p2),
    ensures
        p1 == p2,
{
}

} // verus!
