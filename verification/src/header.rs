//! The fixed 100-byte database header at the start of the file.

use vstd::prelude::*;

use crate::bytes::{read_be_u16, spec_be_uint};
use crate::error::DbError;

verus! {

/// The page size declared at byte offset 16 of the database header: a
/// big-endian `u16`, where the stored value 1 stands for 65536.
pub open spec fn spec_page_size(db: Seq<u8>) -> int {
    if spec_be_uint(db, 16, 2) == 1 {
        65536
    } else {
        spec_be_uint(db, 16, 2)
    }
}

/// Reads the page size from the database header. A file shorter than the
/// 100-byte header is `CorruptPage`.
pub fn page_size_of(db: &Vec<u8>) -> (r: Result<u32, DbError>)
    ensures
        match r {
            Ok(ps) => db.len() >= 100 && ps as int == spec_page_size(db@),
            Err(e) => e == DbError::CorruptPage && db.len() < 100,
        },
{
    if db.len() < 100 {
        return Err(DbError::CorruptPage);
    }
    let raw = read_be_u16(db, 16);
    if raw == 1 {
        Ok(65536)
    } else {
        Ok(raw as u32)
    }
}

} // verus!
