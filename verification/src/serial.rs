//! Column serial types: the integer tag that names a column's storage class
//! and, for BLOB/TEXT, carries its byte length.

use vstd::prelude::*;

use crate::error::DbError;

verus! {

/// A column storage class. Fixed-width integer classes are named by their
/// encoded width; `F64` is the 8-byte IEEE 754 double, carried as its raw
/// big-endian bit pattern; `ZERO` and `ONE` are the zero-length constant
/// classes; `BLOB` and `TEXT` carry their byte length, taken from the
/// serial-type code itself.
#[derive(Debug, Clone, Copy, PartialEq, Eq, Structural)]
#[allow(non_camel_case_types)]
pub enum ColumnType {
    NULL,
    U8,
    U16,
    U24,
    U32,
    U48,
    U64,
    F64,
    ZERO,
    ONE,
    BLOB(u64),
    TEXT(u64),
}

/// The storage class named by a serial-type code: 0 through 9 are the fixed
/// classes, even codes from 12 are `BLOB((code - 12) / 2)`, odd codes from 13
/// are `TEXT((code - 13) / 2)`, and 10 and 11 are invalid.
pub open spec fn spec_column_type(code: int) -> Result<ColumnType, DbError> {
    if code == 0 {
        Ok(ColumnType::NULL)
    } else if code == 1 {
        Ok(ColumnType::U8)
    } else if code == 2 {
        Ok(ColumnType::U16)
    } else if code == 3 {
        Ok(ColumnType::U24)
    } else if code == 4 {
        Ok(ColumnType::U32)
    } else if code == 5 {
        Ok(ColumnType::U48)
    } else if code == 6 {
        Ok(ColumnType::U64)
    } else if code == 7 {
        Ok(ColumnType::F64)
    } else if code == 8 {
        Ok(ColumnType::ZERO)
    } else if code == 9 {
        Ok(ColumnType::ONE)
    } else if code >= 12 && code % 2 == 0 {
        Ok(ColumnType::BLOB(((code - 12) / 2) as u64))
    } else if code >= 13 && code % 2 == 1 {
        Ok(ColumnType::TEXT(((code - 13) / 2) as u64))
    } else {
        Err(DbError::InvalidSerialType)
    }
}

/// The exact byte width of a value of class `t` inside a record body.
pub open spec fn spec_type_len(t: ColumnType) -> int {
    match t {
        ColumnType::NULL => 0,
        ColumnType::U8 => 1,
        ColumnType::U16 => 2,
        ColumnType::U24 => 3,
        ColumnType::U32 => 4,
        ColumnType::U48 => 6,
        ColumnType::U64 => 8,
        ColumnType::F64 => 8,
        ColumnType::ZERO => 0,
        ColumnType::ONE => 0,
        ColumnType::BLOB(l) => l as int,
        ColumnType::TEXT(l) => l as int,
    }
}

impl ColumnType {
    /// Maps a serial-type code to its storage class, or `InvalidSerialType`.
    pub fn new(serial_type: u64) -> (r: Result<ColumnType, DbError>)
        ensures
            r == spec_column_type(serial_type as int),
    {
        match serial_type {
            0 => Ok(ColumnType::NULL),
            1 => Ok(ColumnType::U8),
            2 => Ok(ColumnType::U16),
            3 => Ok(ColumnType::U24),
            4 => Ok(ColumnType::U32),
            5 => Ok(ColumnType::U48),
            6 => Ok(ColumnType::U64),
            7 => Ok(ColumnType::F64),
            8 => Ok(ColumnType::ZERO),
            9 => Ok(ColumnType::ONE),
            i if i >= 12 && i % 2 == 0 => Ok(ColumnType::BLOB((i - 12) / 2)),
            i if i >= 13 && i % 2 == 1 => Ok(ColumnType::TEXT((i - 13) / 2)),
            _ => Err(DbError::InvalidSerialType),
        }
    }

    /// The byte width implied by the tag alone.
    pub fn len(&self) -> (r: u64)
        ensures
            r as int == spec_type_len(*self),
    {
        match self {
            ColumnType::NULL => 0,
            ColumnType::U8 => 1,
            ColumnType::U16 => 2,
            ColumnType::U24 => 3,
            ColumnType::U32 => 4,
            ColumnType::U48 => 6,
            ColumnType::U64 => 8,
            ColumnType::F64 => 8,
            ColumnType::ZERO => 0,
            ColumnType::ONE => 0,
            ColumnType::BLOB(l) => *l,
            ColumnType::TEXT(l) => *l,
        }
    }
}

} // verus!
