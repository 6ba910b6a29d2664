//! Row counting over a table's b-tree: a leaf contributes its cell count,
//! an interior page the sum over every child in cell order and then its
//! right-most child.
//!
//! The traversal carries a fuel bound of one more than the page count of
//! the file.  A valid file is acyclic, so no root-to-leaf path is longer
//! than that; a malformed file whose child pointers form a cycle exhausts
//! the fuel and fails with `CorruptPage` instead of recursing forever.

use vstd::prelude::*;

use crate::bytes::copy_range;
use crate::error::DbError;
use crate::page::{spec_page, InteriorCell, Page, PageType};

verus! {

/// True when page `page_no` lies entirely inside the file.
pub open spec fn spec_page_in_range(db: Seq<u8>, page_size: int, page_no: int) -> bool {
    page_no >= 1 && page_size >= 1 && page_no * page_size <= db.len()
}

/// The bytes of page `page_no`: pages are numbered from 1 and page N
/// occupies `[(N - 1) * page_size, N * page_size)`.
pub open spec fn spec_page_slice(db: Seq<u8>, page_size: int, page_no: int) -> Seq<u8> {
    db.subrange((page_no - 1) * page_size, page_no * page_size)
}

/// The row count of the table b-tree rooted at `page_no`, with `fuel`
/// limiting the recursion depth.  A page out of range, of an index kind, an
/// interior page without a right-most child, a sum beyond `u64`, or
/// exhausted fuel is `CorruptPage`; page decode errors propagate.
pub open spec fn spec_count_rows(db: Seq<u8>, page_size: int, page_no: int, fuel: nat) -> Result<
    int,
    DbError,
>
    decreases fuel, 1int, 0int,
{
    if fuel == 0 {
        Err(DbError::CorruptPage)
    } else if !spec_page_in_range(db, page_size, page_no) {
        Err(DbError::CorruptPage)
    } else {
        let off: int = if page_no == 1 {
            100
        } else {
            0
        };
        match spec_page(spec_page_slice(db, page_size, page_no), off) {
            Err(e) => Err(e),
            Ok(p) => match p.page_header.page_type {
                PageType::TableLeafPage => Ok(p.page_header.number_cells as int),
                PageType::TableInteriorPage => match spec_count_children(
                    db,
                    page_size,
                    p.interior_cells,
                    0,
                    fuel,
                ) {
                    Err(e) => Err(e),
                    Ok(cs) => match p.page_header.right_most_child {
                        None => Err(DbError::CorruptPage),
                        Some(rc) => match spec_count_rows(
                            db,
                            page_size,
                            rc as int,
                            (fuel - 1) as nat,
                        ) {
                            Err(e) => Err(e),
                            Ok(rn) => if cs + rn > u64::MAX {
                                Err(DbError::CorruptPage)
                            } else {
                                Ok(cs + rn)
                            },
                        },
                    },
                },
                _ => Err(DbError::CorruptPage),
            },
        }
    }
}

/// The summed row counts of the children named by `cells[i ..]`, in cell
/// order, each counted with one unit of fuel less.
pub open spec fn spec_count_children(
    db: Seq<u8>,
    page_size: int,
    cells: Seq<InteriorCell>,
    i: int,
    fuel: nat,
) -> Result<int, DbError>
    decreases fuel, 0int, cells.len() - i,
{
    if i < 0 || i >= cells.len() {
        Ok(0)
    } else if fuel == 0 {
        Err(DbError::CorruptPage)
    } else {
        match spec_count_rows(db, page_size, cells[i].child_page as int, (fuel - 1) as nat) {
            Err(e) => Err(e),
            Ok(n) => match spec_count_children(db, page_size, cells, i + 1, fuel) {
                Err(e) => Err(e),
                Ok(rest) => if n + rest > u64::MAX {
                    Err(DbError::CorruptPage)
                } else {
                    Ok(n + rest)
                },
            },
        }
    }
}

/// The row count of the table b-tree rooted at `root_page`, with the fuel
/// bound filled in: one more than the file's page count.
pub open spec fn spec_count_rows_total(db: Seq<u8>, page_size: int, root_page: int) -> Result<
    int,
    DbError,
> {
    if page_size < 1 {
        Err(DbError::CorruptPage)
    } else {
        spec_count_rows(db, page_size, root_page, (db.len() as int / page_size + 1) as nat)
    }
}

/// Copies the bytes of page `page_no` out of the file.
fn page_slice(db: &Vec<u8>, page_size: u64, page_no: u64) -> (r: Result<Vec<u8>, DbError>)
    ensures
        match r {
            Ok(v) => {
                &&& spec_page_in_range(db@, page_size as int, page_no as int)
                &&& v@ == spec_page_slice(db@, page_size as int, page_no as int)
            },
            Err(e) => {
                &&& e == DbError::CorruptPage
                &&& !spec_page_in_range(db@, page_size as int, page_no as int)
            },
        },
{
    if page_no < 1 || page_size < 1 {
        return Err(DbError::CorruptPage);
    }
    let dlen = db.len() as u64;
    let q = dlen / page_size;
    proof {
        vstd::arithmetic::div_mod::lemma_fundamental_div_mod(dlen as int, page_size as int);
        vstd::arithmetic::div_mod::lemma_mod_division_less_than_divisor(
            dlen as int,
            page_size as int,
        );
    }
    if page_no > q {
        proof {
            assert(page_no as int * page_size as int > dlen as int) by (nonlinear_arith)
                requires
                    page_no as int >= q as int + 1,
                    dlen as int == (page_size as int) * (q as int) + ((dlen as int) % (page_size as int)),
                    0 <= ((dlen as int) % (page_size as int)) < page_size as int,
            ;
        }
        return Err(DbError::CorruptPage);
    }
    proof {
        assert(page_no as int * page_size as int <= dlen as int) by (nonlinear_arith)
            requires
                1 <= page_no as int <= q as int,
                dlen as int == (page_size as int) * (q as int) + ((dlen as int) % (page_size as int)),
                0 <= ((dlen as int) % (page_size as int)),
        ;
        assert((page_no as int - 1) * page_size as int == page_no as int * page_size as int
            - page_size as int) by (nonlinear_arith);
    }
    let start = ((page_no - 1) * page_size) as usize;
    let len = page_size as usize;
    let v = copy_range(db, start, len);
    Ok(v)
}

/// Caps a partial sum: already-counted rows `total` plus the rows still to
/// come, failing past `u64::MAX`.
spec fn cap_add(total: int, r: Result<int, DbError>) -> Result<int, DbError> {
    match r {
        Ok(rest) => if total + rest > u64::MAX {
            Err(DbError::CorruptPage)
        } else {
            Ok(total + rest)
        },
        Err(e) => Err(e),
    }
}

/// The recursive counter behind [`count_rows`].
#[verifier::loop_isolation(false)]
fn count_rows_at(db: &Vec<u8>, page_size: u64, page_no: u64, fuel: u128) -> (r: Result<
    u64,
    DbError,
>)
    ensures
        match r {
            Ok(n) => spec_count_rows(db@, page_size as int, page_no as int, fuel as nat) == Ok::<
                int,
                DbError,
            >(n as int),
            Err(e) => spec_count_rows(db@, page_size as int, page_no as int, fuel as nat) == Err::<
                int,
                DbError,
            >(e),
        },
    decreases fuel,
{
    if fuel == 0 {
        return Err(DbError::CorruptPage);
    }
    let page = match page_slice(db, page_size, page_no) {
        Ok(v) => v,
        Err(e) => {
            return Err(e);
        },
    };
    let off: usize = if page_no == 1 {
        100
    } else {
        0
    };
    let p = match Page::new(&page, off) {
        Ok(p) => p,
        Err(e) => {
            return Err(e);
        },
    };
    match p.page_header.page_type {
        PageType::TableLeafPage => Ok(p.page_header.number_cells as u64),
        PageType::TableInteriorPage => {
            let ghost cells = p@.interior_cells;
            let mut sum: u64 = 0;
            let mut overflowed: bool = false;
            let ghost mut total: int = 0int;
            let mut i: usize = 0;
            while i < p.interior_cells.len()
                invariant
                    i <= p.interior_cells.len(),
                    cells == p@.interior_cells,
                    0 <= total,
                    !overflowed ==> total == sum as int,
                    overflowed ==> total > u64::MAX,
                    spec_count_children(db@, page_size as int, cells, 0, fuel as nat) == cap_add(
                        total,
                        spec_count_children(db@, page_size as int, cells, i as int, fuel as nat),
                    ),
                decreases p.interior_cells.len() - i,
            {
                let child = p.interior_cells[i].child_page;
                let n = match count_rows_at(db, page_size, child as u64, fuel - 1) {
                    Ok(n) => n,
                    Err(e) => {
                        return Err(e);
                    },
                };
                proof {
                    total = total + n as int;
                }
                if !overflowed && n <= u64::MAX - sum {
                    sum = sum + n;
                } else {
                    overflowed = true;
                }
                i = i + 1;
            }
            if overflowed {
                return Err(DbError::CorruptPage);
            }
            let rc = match p.page_header.right_most_child {
                Some(rc) => rc,
                None => {
                    return Err(DbError::CorruptPage);
                },
            };
            let rn = match count_rows_at(db, page_size, rc as u64, fuel - 1) {
                Ok(n) => n,
                Err(e) => {
                    return Err(e);
                },
            };
            if rn > u64::MAX - sum {
                return Err(DbError::CorruptPage);
            }
            Ok(sum + rn)
        },
        _ => Err(DbError::CorruptPage),
    }
}

/// Counts the rows of the table whose b-tree root is page `root_page`,
/// visiting every child of every interior page in cell order and then the
/// right-most child.
pub fn count_rows(db: &Vec<u8>, page_size: u64, root_page: u64) -> (r: Result<u64, DbError>)
    ensures
        match r {
            Ok(n) => spec_count_rows_total(db@, page_size as int, root_page as int) == Ok::<
                int,
                DbError,
            >(n as int),
            Err(e) => spec_count_rows_total(db@, page_size as int, root_page as int) == Err::<
                int,
                DbError,
            >(e),
        },
{
    if page_size < 1 {
        return Err(DbError::CorruptPage);
    }
    let fuel: u128 = db.len() as u128 / page_size as u128 + 1;
    count_rows_at(db, page_size, root_page, fuel)
}

} // verus!
