//! Cell records: one table-leaf row, decoded from its cell pointer.
//!
//! A cell is three leading varints (payload length, row id, header length),
//! then serial-type varints filling the rest of the declared header, then
//! the column bodies in order.  The header-length varint's own size counts
//! toward the declared header length.

use vstd::prelude::*;

use crate::error::DbError;
use crate::serial::{spec_column_type, spec_type_len, ColumnType};
use crate::value::{spec_column_value, ColumnValue, ColumnValueModel};
use crate::varint::{decode_varint, spec_decode_varint};

verus! {

/// One decoded table-leaf row.
#[derive(Debug, Clone, PartialEq, Eq)]
pub struct Cell {
    /// Declared total payload length, as stored; not cross-checked against
    /// the decoded body.
    pub payload_len: u64,
    /// The integer row id.
    pub rowid: u64,
    /// Declared record-header length, including its own varint encoding.
    pub header_length: u64,
    /// The serial types named in the record header, in column order.
    pub column_types: Vec<ColumnType>,
    /// The decoded column values, one per serial type, in the same order.
    pub column_values: Vec<ColumnValue>,
    /// The byte length of the decoded record body: the sum of the widths of
    /// all column values.
    pub body_length: u64,
}

/// The mathematical shape of a [`Cell`].
pub struct CellModel {
    pub payload_len: int,
    pub rowid: int,
    pub header_length: int,
    pub column_types: Seq<ColumnType>,
    pub column_values: Seq<ColumnValueModel>,
    pub body_length: int,
}

impl View for Cell {
    type V = CellModel;

    open spec fn view(&self) -> CellModel {
        CellModel {
            payload_len: self.payload_len as int,
            rowid: self.rowid as int,
            header_length: self.header_length as int,
            column_types: self.column_types@,
            column_values: self.column_values@.map_values(|cv: ColumnValue| cv@),
            body_length: self.body_length as int,
        }
    }
}

/// The serial types encoded as varints in `bytes[idx ..]`, filling exactly
/// `remaining` more header bytes, and the position just after them.
/// A varint that would overrun the declared header is
/// `RecordHeaderLengthMismatch`; an unknown code is `InvalidSerialType`.
pub open spec fn spec_record_types(bytes: Seq<u8>, idx: int, remaining: int) -> Result<
    (Seq<ColumnType>, int),
    DbError,
>
    decreases remaining,
{
    if remaining <= 0 {
        if remaining == 0 {
            Ok((seq![], idx))
        } else {
            Err(DbError::RecordHeaderLengthMismatch)
        }
    } else {
        match spec_decode_varint(bytes, idx) {
            Err(e) => Err(e),
            Ok(cn) => {
                // A decoded varint always takes at least one byte; the first
                // test only bounds the recursion's measure.
                if cn.1 < 1 || cn.1 > remaining {
                    Err(DbError::RecordHeaderLengthMismatch)
                } else {
                    match spec_column_type(cn.0) {
                        Err(e) => Err(e),
                        Ok(t) => match spec_record_types(bytes, idx + cn.1, remaining - cn.1) {
                            Err(e) => Err(e),
                            Ok(rest) => Ok((seq![t] + rest.0, rest.1)),
                        },
                    }
                }
            },
        }
    }
}

/// The column values for `types[ti ..]`, decoded in order starting at
/// `bytes[idx]`, and the position just after the last body byte.
pub open spec fn spec_column_values(
    bytes: Seq<u8>,
    types: Seq<ColumnType>,
    ti: int,
    idx: int,
) -> Result<(Seq<ColumnValueModel>, int), DbError>
    decreases types.len() - ti,
{
    if ti < 0 || ti >= types.len() {
        Ok((seq![], idx))
    } else {
        match spec_column_value(bytes, types[ti], idx) {
            Err(e) => Err(e),
            Ok(cv) => match spec_column_values(bytes, types, ti + 1, idx + spec_type_len(types[ti])) {
                Err(e) => Err(e),
                Ok(rest) => Ok((seq![cv] + rest.0, rest.1)),
            },
        }
    }
}

/// The cell starting at `bytes[ptr]`: the three leading varints, the serial
/// types filling the declared header exactly, and the matching column
/// values. A declared header length smaller than its own varint encoding is
/// `RecordHeaderLengthMismatch`.
pub open spec fn spec_cell(bytes: Seq<u8>, ptr: int) -> Result<CellModel, DbError> {
    match spec_decode_varint(bytes, ptr) {
        Err(e) => Err(e),
        Ok(pl) => match spec_decode_varint(bytes, ptr + pl.1) {
            Err(e) => Err(e),
            Ok(rid) => match spec_decode_varint(bytes, ptr + pl.1 + rid.1) {
                Err(e) => Err(e),
                Ok(hl) => {
                    if hl.0 < hl.1 {
                        Err(DbError::RecordHeaderLengthMismatch)
                    } else {
                        let types_start = ptr + pl.1 + rid.1 + hl.1;
                        match spec_record_types(bytes, types_start, hl.0 - hl.1) {
                            Err(e) => Err(e),
                            Ok(tys) => match spec_column_values(bytes, tys.0, 0, tys.1) {
                                Err(e) => Err(e),
                                Ok(vals) => Ok(
                                    CellModel {
                                        payload_len: pl.0,
                                        rowid: rid.0,
                                        header_length: hl.0,
                                        column_types: tys.0,
                                        column_values: vals.0,
                                        body_length: vals.1 - tys.1,
                                    },
                                ),
                            },
                        }
                    }
                },
            },
        },
    }
}

/// Appends already-decoded serial types in front of a partial result.
spec fn rt_append(prefix: Seq<ColumnType>, r: Result<(Seq<ColumnType>, int), DbError>) -> Result<
    (Seq<ColumnType>, int),
    DbError,
> {
    match r {
        Ok(p) => Ok((prefix + p.0, p.1)),
        Err(e) => Err(e),
    }
}

/// Appends already-decoded column values in front of a partial result.
spec fn cv_append(
    prefix: Seq<ColumnValueModel>,
    r: Result<(Seq<ColumnValueModel>, int), DbError>,
) -> Result<(Seq<ColumnValueModel>, int), DbError> {
    match r {
        Ok(p) => Ok((prefix + p.0, p.1)),
        Err(e) => Err(e),
    }
}

impl Cell {
    /// Decodes the cell starting at `bytes[*cell_pointer]`.
    #[verifier::loop_isolation(false)]
    pub fn new(bytes: &Vec<u8>, cell_pointer: &u16) -> (r: Result<Cell, DbError>)
        ensures
            match r {
                Ok(c) => spec_cell(bytes@, *cell_pointer as int) == Ok::<CellModel, DbError>(c@),
                Err(e) => spec_cell(bytes@, *cell_pointer as int) == Err::<CellModel, DbError>(e),
            },
    {
        let ptr = *cell_pointer as usize;
        let (payload_len, n1) = match decode_varint(bytes, ptr) {
            Ok(p) => p,
            Err(e) => {
                return Err(e);
            },
        };
        let (rowid, n2) = match decode_varint(bytes, ptr + n1) {
            Ok(p) => p,
            Err(e) => {
                return Err(e);
            },
        };
        let (header_length, n3) = match decode_varint(bytes, ptr + n1 + n2) {
            Ok(p) => p,
            Err(e) => {
                return Err(e);
            },
        };
        if header_length < n3 as u64 {
            return Err(DbError::RecordHeaderLengthMismatch);
        }
        let types_start = ptr + n1 + n2 + n3;
        let total: u64 = header_length - n3 as u64;
        let mut consumed: u64 = 0;
        let mut idx = types_start;
        let mut column_types: Vec<ColumnType> = Vec::new();
        proof {
            let r0 = spec_record_types(bytes@, types_start as int, total as int);
            match r0 {
                Ok(p) => {
                    assert(Seq::<ColumnType>::empty() + p.0 =~= p.0);
                },
                Err(_) => {},
            }
        }
        while consumed < total
            invariant
                consumed <= total,
                idx as int == types_start as int + consumed as int,
                idx <= bytes.len(),
                spec_record_types(bytes@, types_start as int, total as int) == rt_append(
                    column_types@,
                    spec_record_types(bytes@, idx as int, total as int - consumed as int),
                ),
            decreases total - consumed,
        {
            let remaining = total - consumed;
            let (code, n) = match decode_varint(bytes, idx) {
                Ok(p) => p,
                Err(e) => {
                    return Err(e);
                },
            };
            if n as u64 > remaining {
                return Err(DbError::RecordHeaderLengthMismatch);
            }
            let t = match ColumnType::new(code) {
                Ok(t) => t,
                Err(e) => {
                    return Err(e);
                },
            };
            proof {
                let rest = spec_record_types(
                    bytes@,
                    idx as int + n as int,
                    remaining as int - n as int,
                );
                match rest {
                    Ok(p) => {
                        assert(column_types@ + (seq![t] + p.0) =~= column_types@.push(t) + p.0);
                    },
                    Err(_) => {},
                }
            }
            column_types.push(t);
            consumed = consumed + n as u64;
            idx = idx + n;
        }
        proof {
            assert(spec_record_types(bytes@, idx as int, 0) == Ok::<(Seq<ColumnType>, int), DbError>(
                (seq![], idx as int),
            ));
            assert(column_types@ + seq![] =~= column_types@);
        }
        let body_start = idx;
        let mut vi: usize = 0;
        let mut column_values: Vec<ColumnValue> = Vec::new();
        proof {
            assert(column_values@.map_values(|x: ColumnValue| x@)
                =~= Seq::<ColumnValueModel>::empty());
            let v0 = spec_column_values(bytes@, column_types@, 0, body_start as int);
            match v0 {
                Ok(p) => {
                    assert(Seq::<ColumnValueModel>::empty() + p.0 =~= p.0);
                },
                Err(_) => {},
            }
        }
        while vi < column_types.len()
            invariant
                vi <= column_types@.len(),
                column_values@.len() == vi,
                body_start <= idx <= bytes.len(),
                spec_column_values(bytes@, column_types@, 0, body_start as int) == cv_append(
                    column_values@.map_values(|cv: ColumnValue| cv@),
                    spec_column_values(bytes@, column_types@, vi as int, idx as int),
                ),
            decreases column_types@.len() - vi,
        {
            let t = column_types[vi];
            let cv = match ColumnValue::new(bytes, &t, idx) {
                Ok(cv) => cv,
                Err(e) => {
                    return Err(e);
                },
            };
            let tlen = t.len();
            proof {
                let rest = spec_column_values(
                    bytes@,
                    column_types@,
                    vi as int + 1,
                    idx as int + spec_type_len(t),
                );
                let done = column_values@.map_values(|x: ColumnValue| x@);
                match rest {
                    Ok(p) => {
                        assert(done + (seq![cv@] + p.0) =~= done.push(cv@) + p.0);
                        assert(column_values@.push(cv).map_values(|x: ColumnValue| x@) =~= done.push(
                            cv@,
                        ));
                    },
                    Err(_) => {},
                }
            }
            column_values.push(cv);
            idx = idx + tlen as usize;
            vi = vi + 1;
        }
        proof {
            assert(spec_column_values(bytes@, column_types@, column_types@.len() as int, idx as int)
                == Ok::<(Seq<ColumnValueModel>, int), DbError>((seq![], idx as int)));
            let done = column_values@.map_values(|x: ColumnValue| x@);
            assert(done + seq![] =~= done);
        }
        Ok(
            Cell {
                payload_len,
                rowid,
                header_length,
                column_types,
                column_values,
                body_length: (idx - body_start) as u64,
            },
        )
    }
}

/// The record-header invariant: when the serial-type varints decode, they
/// consume exactly the `remaining` bytes the header declared for them.
pub proof fn lemma_record_types_consume_exactly(
    bytes: Seq<u8>,
    idx: int,
    remaining: int,
    tys: Seq<ColumnType>,
    end: int,
)
    requires
        spec_record_types(bytes, idx, remaining) == Ok::<(Seq<ColumnType>, int), DbError>(
            (tys, end),
        ),
    ensures
        end - idx == remaining,
    decreases remaining,
{
    if remaining > 0 {
        match spec_decode_varint(bytes, idx) {
            Err(_) => {},
            Ok(cn) => {
                let rest = spec_record_types(bytes, idx + cn.1, remaining - cn.1);
                match rest {
                    Err(_) => {},
                    Ok(p) => {
                        lemma_record_types_consume_exactly(
                            bytes,
                            idx + cn.1,
                            remaining - cn.1,
                            p.0,
                            p.1,
                        );
                    },
                }
            },
        }
    }
}

/// Each serial type yields exactly one column value.
proof fn lemma_column_values_len(
    bytes: Seq<u8>,
    types: Seq<ColumnType>,
    ti: int,
    idx: int,
    vals: Seq<ColumnValueModel>,
    end: int,
)
    requires
        0 <= ti <= types.len(),
        spec_column_values(bytes, types, ti, idx) == Ok::<(Seq<ColumnValueModel>, int), DbError>(
            (vals, end),
        ),
    ensures
        vals.len() == types.len() - ti,
    decreases types.len() - ti,
{
    if ti < types.len() {
        match spec_column_value(bytes, types[ti], idx) {
            Err(_) => {},
            Ok(cv) => {
                let rest = spec_column_values(bytes, types, ti + 1, idx + spec_type_len(types[ti]));
                match rest {
                    Err(_) => {},
                    Ok(p) => {
                        lemma_column_values_len(
                            bytes,
                            types,
                            ti + 1,
                            idx + spec_type_len(types[ti]),
                            p.0,
                            p.1,
                        );
                    },
                }
            },
        }
    }
}

/// The record invariant of a well-formed cell: the count of serial types
/// equals the count of column values, and the serial-type varints consume
/// exactly the declared header length, less the header-length varint's own
/// encoding, which counts toward the declared length.
pub proof fn lemma_cell_record_invariant(bytes: Seq<u8>, ptr: int, c: CellModel)
    requires
        spec_cell(bytes, ptr) == Ok::<CellModel, DbError>(c),
    ensures
        c.column_types.len() == c.column_values.len(),
        ({
            let pl = spec_decode_varint(bytes, ptr)->Ok_0;
            let rid = spec_decode_varint(bytes, ptr + pl.1)->Ok_0;
            let hl = spec_decode_varint(bytes, ptr + pl.1 + rid.1)->Ok_0;
            let start = ptr + pl.1 + rid.1 + hl.1;
            &&& spec_decode_varint(bytes, ptr) is Ok
            &&& spec_decode_varint(bytes, ptr + pl.1) is Ok
            &&& spec_decode_varint(bytes, ptr + pl.1 + rid.1) is Ok
            &&& hl.0 == c.header_length
            &&& spec_record_types(bytes, start, c.header_length - hl.1) == Ok::<
                (Seq<ColumnType>, int),
                DbError,
            >((c.column_types, start + (c.header_length - hl.1)))
        }),
{
    match spec_decode_varint(bytes, ptr) {
        Err(_) => {},
        Ok(pl) => match spec_decode_varint(bytes, ptr + pl.1) {
            Err(_) => {},
            Ok(rid) => match spec_decode_varint(bytes, ptr + pl.1 + rid.1) {
                Err(_) => {},
                Ok(hl) => {
                    if hl.0 >= hl.1 {
                        let types_start = ptr + pl.1 + rid.1 + hl.1;
                        match spec_record_types(bytes, types_start, hl.0 - hl.1) {
                            Err(_) => {},
                            Ok(tys) => {
                                lemma_record_types_consume_exactly(
                                    bytes,
                                    types_start,
                                    hl.0 - hl.1,
                                    tys.0,
                                    tys.1,
                                );
                                match spec_column_values(bytes, tys.0, 0, tys.1) {
                                    Err(_) => {},
                                    Ok(vals) => {
                                        lemma_column_values_len(
                                            bytes,
                                            tys.0,
                                            0,
                                            tys.1,
                                            vals.0,
                                            vals.1,
                                        );
                                    },
                                }
                            },
                        }
                    }
                },
            },
        },
    }
}

} // verus!
