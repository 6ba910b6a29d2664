//! Decoded column values: the bytes of one column, interpreted by its
//! storage class.

use vstd::prelude::*;
use vstd::utf8::valid_utf8;

use crate::bytes::{copy_range, read_be_u16, read_be_u32, spec_be_uint};
use crate::error::DbError;
use crate::serial::{spec_type_len, ColumnType};
use crate::utf8::is_utf8;

verus! {

/// One decoded column value, tagged by its storage class.
///
/// Fixed-width classes hold the big-endian reinterpretation of exactly their
/// width in bytes; the 3- and 6-byte widths are zero-extended on the left to
/// 4 and 8 bytes. `F64` holds the raw bit pattern of the 8-byte IEEE 754
/// double, read big-endian, without floating-point interpretation. `TEXT`
/// holds bytes checked to be valid UTF-8.
#[derive(Debug, Clone, PartialEq, Eq)]
#[allow(non_camel_case_types)]
pub enum ColumnValue {
    NULL,
    U8(u8),
    U16(u16),
    U24(u32),
    U32(u32),
    U48(u64),
    U64(u64),
    F64(u64),
    ZERO,
    ONE,
    BLOB(Vec<u8>),
    TEXT(Vec<u8>),
}

/// The mathematical shape of a [`ColumnValue`]: byte payloads as sequences.
#[allow(non_camel_case_types)]
pub enum ColumnValueModel {
    NULL,
    U8(u8),
    U16(u16),
    U24(u32),
    U32(u32),
    U48(u64),
    U64(u64),
    F64(u64),
    ZERO,
    ONE,
    BLOB(Seq<u8>),
    TEXT(Seq<u8>),
}

impl View for ColumnValue {
    type V = ColumnValueModel;

    open spec fn view(&self) -> ColumnValueModel {
        match self {
            ColumnValue::NULL => ColumnValueModel::NULL,
            ColumnValue::U8(v) => ColumnValueModel::U8(*v),
            ColumnValue::U16(v) => ColumnValueModel::U16(*v),
            ColumnValue::U24(v) => ColumnValueModel::U24(*v),
            ColumnValue::U32(v) => ColumnValueModel::U32(*v),
            ColumnValue::U48(v) => ColumnValueModel::U48(*v),
            ColumnValue::U64(v) => ColumnValueModel::U64(*v),
            ColumnValue::F64(v) => ColumnValueModel::F64(*v),
            ColumnValue::ZERO => ColumnValueModel::ZERO,
            ColumnValue::ONE => ColumnValueModel::ONE,
            ColumnValue::BLOB(b) => ColumnValueModel::BLOB(b@),
            ColumnValue::TEXT(t) => ColumnValueModel::TEXT(t@),
        }
    }
}

/// The value of class `t` stored at `bytes[off ..]`: exactly
/// `spec_type_len(t)` bytes, big-endian for the fixed widths, checked UTF-8
/// for `TEXT`. A read past the end of `bytes` is `CorruptPage`; malformed
/// text is `InvalidUtf8`.
pub open spec fn spec_column_value(bytes: Seq<u8>, t: ColumnType, off: int) -> Result<
    ColumnValueModel,
    DbError,
> {
    if off < 0 || off + spec_type_len(t) > bytes.len() {
        Err(DbError::CorruptPage)
    } else {
        match t {
            ColumnType::NULL => Ok(ColumnValueModel::NULL),
            ColumnType::U8 => Ok(ColumnValueModel::U8(bytes[off])),
            ColumnType::U16 => Ok(ColumnValueModel::U16(spec_be_uint(bytes, off, 2) as u16)),
            ColumnType::U24 => Ok(ColumnValueModel::U24(spec_be_uint(bytes, off, 3) as u32)),
            ColumnType::U32 => Ok(ColumnValueModel::U32(spec_be_uint(bytes, off, 4) as u32)),
            ColumnType::U48 => Ok(ColumnValueModel::U48(spec_be_uint(bytes, off, 6) as u64)),
            ColumnType::U64 => Ok(ColumnValueModel::U64(spec_be_uint(bytes, off, 8) as u64)),
            ColumnType::F64 => Ok(ColumnValueModel::F64(spec_be_uint(bytes, off, 8) as u64)),
            ColumnType::ZERO => Ok(ColumnValueModel::ZERO),
            ColumnType::ONE => Ok(ColumnValueModel::ONE),
            ColumnType::BLOB(l) => Ok(ColumnValueModel::BLOB(bytes.subrange(off, off + l))),
            ColumnType::TEXT(l) => {
                let sub = bytes.subrange(off, off + l);
                if valid_utf8(sub) {
                    Ok(ColumnValueModel::TEXT(sub))
                } else {
                    Err(DbError::InvalidUtf8)
                }
            },
        }
    }
}

/// The integer carried by a value of an integer storage class, widened to
/// `u64`; `None` for every other class.
pub open spec fn spec_int_value(cv: ColumnValueModel) -> Option<u64> {
    match cv {
        ColumnValueModel::U8(v) => Some(v as u64),
        ColumnValueModel::U16(v) => Some(v as u64),
        ColumnValueModel::U24(v) => Some(v as u64),
        ColumnValueModel::U32(v) => Some(v as u64),
        ColumnValueModel::U48(v) => Some(v),
        ColumnValueModel::U64(v) => Some(v),
        ColumnValueModel::ZERO => Some(0),
        ColumnValueModel::ONE => Some(1),
        _ => None,
    }
}

/// `spec_be_uint` of `n` bytes is below `pow2(8 * n)`.
proof fn lemma_be_uint_bound(bytes: Seq<u8>, off: int, n: int)
    requires
        0 <= n,
    ensures
        0 <= spec_be_uint(bytes, off, n) < vstd::arithmetic::power2::pow2((8 * n) as nat),
    decreases n,
{
    vstd::arithmetic::power2::lemma2_to64();
    if n > 0 {
        lemma_be_uint_bound(bytes, off, n - 1);
        vstd::arithmetic::power2::lemma_pow2_adds((8 * (n - 1)) as nat, 8);
    }
}

impl ColumnValue {
    /// Decodes the value of class `column_type` stored at `bytes[index ..]`,
    /// consuming exactly `column_type.len()` bytes.
    pub fn new(bytes: &Vec<u8>, column_type: &ColumnType, index: usize) -> (r: Result<
        ColumnValue,
        DbError,
    >)
        ensures
            match r {
                Ok(cv) => {
                    &&& spec_column_value(bytes@, *column_type, index as int)
                        == Ok::<ColumnValueModel, DbError>(cv@)
                    &&& index + spec_type_len(*column_type) <= bytes.len()
                },
                Err(e) => spec_column_value(bytes@, *column_type, index as int)
                    == Err::<ColumnValueModel, DbError>(e),
            },
    {
        let n = bytes.len();
        let want = column_type.len();
        if index > n || want > (n - index) as u64 {
            return Err(DbError::CorruptPage);
        }
        proof {
            lemma_be_uint_bound(bytes@, index as int, spec_type_len(*column_type));
            vstd::arithmetic::power2::lemma2_to64();
            vstd::arithmetic::power2::lemma2_to64_rest();
        }
        match column_type {
            ColumnType::NULL => Ok(ColumnValue::NULL),
            ColumnType::U8 => Ok(ColumnValue::U8(bytes[index])),
            ColumnType::U16 => Ok(ColumnValue::U16(read_be_u16(bytes, index))),
            ColumnType::U24 => {
                let hi = bytes[index] as u32;
                let lo = read_be_u16(bytes, index + 1) as u32;
                proof {
                    assert(spec_be_uint(bytes@, index as int, 0) == 0);
                    assert(spec_be_uint(bytes@, index as int, 1) == bytes@[index as int]);
                    lemma_be_uint_split(bytes@, index as int, 1, 2);
                }
                Ok(ColumnValue::U24(hi * 65536 + lo))
            },
            ColumnType::U32 => Ok(ColumnValue::U32(read_be_u32(bytes, index))),
            ColumnType::U48 => {
                let hi = read_be_u16(bytes, index) as u64;
                let lo = read_be_u32(bytes, index + 2) as u64;
                proof {
                    lemma_be_uint_split(bytes@, index as int, 2, 4);
                }
                Ok(ColumnValue::U48(hi * 0x1_0000_0000 + lo))
            },
            ColumnType::U64 => {
                let hi = read_be_u32(bytes, index) as u64;
                let lo = read_be_u32(bytes, index + 4) as u64;
                proof {
                    lemma_be_uint_split(bytes@, index as int, 4, 4);
                }
                Ok(ColumnValue::U64(hi * 0x1_0000_0000 + lo))
            },
            ColumnType::F64 => {
                let hi = read_be_u32(bytes, index) as u64;
                let lo = read_be_u32(bytes, index + 4) as u64;
                proof {
                    lemma_be_uint_split(bytes@, index as int, 4, 4);
                }
                Ok(ColumnValue::F64(hi * 0x1_0000_0000 + lo))
            },
            ColumnType::ZERO => Ok(ColumnValue::ZERO),
            ColumnType::ONE => Ok(ColumnValue::ONE),
            ColumnType::BLOB(l) => Ok(ColumnValue::BLOB(copy_range(bytes, index, *l as usize))),
            ColumnType::TEXT(l) => {
                let sub = copy_range(bytes, index, *l as usize);
                if is_utf8(&sub) {
                    Ok(ColumnValue::TEXT(sub))
                } else {
                    Err(DbError::InvalidUtf8)
                }
            },
        }
    }
}

impl ColumnValue {
    /// The integer carried by an integer-class value, or `None`.
    pub fn int_value(&self) -> (r: Option<u64>)
        ensures
            r == spec_int_value(self@),
    {
        match self {
            ColumnValue::U8(v) => Some(*v as u64),
            ColumnValue::U16(v) => Some(*v as u64),
            ColumnValue::U24(v) => Some(*v as u64),
            ColumnValue::U32(v) => Some(*v as u64),
            ColumnValue::U48(v) => Some(*v),
            ColumnValue::U64(v) => Some(*v),
            ColumnValue::ZERO => Some(0),
            ColumnValue::ONE => Some(1),
            _ => None,
        }
    }
}

/// Splitting a big-endian read: the value of `a + b` bytes is the value of
/// the first `a` bytes shifted left by `8 * b` bits, plus the last `b` bytes.
proof fn lemma_be_uint_split(bytes: Seq<u8>, off: int, a: int, b: int)
    requires
        0 <= a,
        0 <= b,
    ensures
        spec_be_uint(bytes, off, a + b) == spec_be_uint(bytes, off, a)
            * vstd::arithmetic::power2::pow2((8 * b) as nat) + spec_be_uint(bytes, off + a, b),
    decreases b,
{
    vstd::arithmetic::power2::lemma2_to64();
    if b == 0 {
        assert(spec_be_uint(bytes, off + a, 0) == 0);
        let va = spec_be_uint(bytes, off, a);
        assert(va * (vstd::arithmetic::power2::pow2((8 * b) as nat) as int) == va)
            by (nonlinear_arith)
            requires
                vstd::arithmetic::power2::pow2((8 * b) as nat) == 1,
        ;
    } else {
        lemma_be_uint_split(bytes, off, a, b - 1);
        let p_prev = vstd::arithmetic::power2::pow2((8 * (b - 1)) as nat) as int;
        let p = vstd::arithmetic::power2::pow2((8 * b) as nat) as int;
        assert(p == p_prev * 256) by {
            vstd::arithmetic::power2::lemma_pow2_adds((8 * (b - 1)) as nat, 8);
        }
        let va = spec_be_uint(bytes, off, a);
        assert(spec_be_uint(bytes, off, a + b) == spec_be_uint(bytes, off, a + b - 1) * 256
            + bytes[off + a + b - 1]);
        assert(spec_be_uint(bytes, off + a, b) == spec_be_uint(bytes, off + a, b - 1) * 256
            + bytes[off + a + b - 1]);
        assert((va * p_prev + spec_be_uint(bytes, off + a, b - 1)) * 256 == va * (p_prev * 256)
            + spec_be_uint(bytes, off + a, b - 1) * 256) by (nonlinear_arith);
        assert(spec_be_uint(bytes, off, a + b) == (va * p_prev + spec_be_uint(bytes, off + a, b - 1))
            * 256 + bytes[off + a + b - 1]);
        assert(spec_be_uint(bytes, off, a + b) == va * p + spec_be_uint(bytes, off + a, b));
    }
}

} // verus!
