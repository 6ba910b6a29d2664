//! Big-endian fixed-width reads and small byte-vector helpers shared by the
//! page and record decoders.

use vstd::prelude::*;

verus! {

/// The unsigned big-endian value of the `n` bytes starting at `bytes[off]`.
pub open spec fn spec_be_uint(bytes: Seq<u8>, off: int, n: int) -> int
    decreases n,
{
    if n <= 0 {
        0
    } else {
        spec_be_uint(bytes, off, n - 1) * 256 + bytes[off + n - 1]
    }
}

/// Reads a big-endian `u16` at `off`.
pub fn read_be_u16(bytes: &Vec<u8>, off: usize) -> (r: u16)
    requires
        off + 2 <= bytes.len(),
    ensures
        r as int == spec_be_uint(bytes@, off as int, 2),
{
    let r = (bytes[off] as u16) * 256 + bytes[off + 1] as u16;
    proof {
        assert(spec_be_uint(bytes@, off as int, 0) == 0);
        assert(spec_be_uint(bytes@, off as int, 1) == bytes@[off as int]);
    }
    r
}

/// Reads a big-endian `u32` at `off`.
pub fn read_be_u32(bytes: &Vec<u8>, off: usize) -> (r: u32)
    requires
        off + 4 <= bytes.len(),
    ensures
        r as int == spec_be_uint(bytes@, off as int, 4),
{
    let b0 = bytes[off] as u32;
    let b1 = bytes[off + 1] as u32;
    let b2 = bytes[off + 2] as u32;
    let b3 = bytes[off + 3] as u32;
    let r = ((b0 * 256 + b1) * 256 + b2) * 256 + b3;
    proof {
        assert(spec_be_uint(bytes@, off as int, 0) == 0);
        assert(spec_be_uint(bytes@, off as int, 1) == bytes@[off as int]);
        assert(spec_be_uint(bytes@, off as int, 2) == spec_be_uint(bytes@, off as int, 1) * 256
            + bytes@[off as int + 1]);
        assert(spec_be_uint(bytes@, off as int, 3) == spec_be_uint(bytes@, off as int, 2) * 256
            + bytes@[off as int + 2]);
    }
    r
}

/// Copies `bytes[start .. start + len]` into a fresh vector.
pub fn copy_range(bytes: &Vec<u8>, start: usize, len: usize) -> (r: Vec<u8>)
    requires
        start + len <= bytes.len(),
    ensures
        r@ == bytes@.subrange(start as int, start as int + len as int),
{
    let mut r: Vec<u8> = Vec::new();
    let mut i: usize = 0;
    while i < len
        invariant
            i <= len,
            start + len <= bytes.len(),
            r@ == bytes@.subrange(start as int, start as int + i as int),
        decreases len - i,
    {
        r.push(bytes[start + i]);
        i = i + 1;
        proof {
            assert(r@ =~= bytes@.subrange(start as int, start as int + i as int));
        }
    }
    r
}

/// Copies a whole byte vector.
pub fn clone_bytes(bytes: &Vec<u8>) -> (r: Vec<u8>)
    ensures
        r@ == bytes@,
{
    let r = copy_range(bytes, 0, bytes.len());
    proof {
        assert(bytes@.subrange(0, bytes@.len() as int) =~= bytes@);
    }
    r
}

/// True exactly when the two vectors hold the same bytes.
pub fn bytes_eq(a: &Vec<u8>, b: &Vec<u8>) -> (r: bool)
    ensures
        r == (a@ == b@),
{
    if a.len() != b.len() {
        return false;
    }
    let mut i: usize = 0;
    while i < a.len()
        invariant
            i <= a@.len(),
            a@.len() == b@.len(),
            forall|j: int| 0 <= j < i ==> a@[j] == b@[j],
        decreases a@.len() - i,
    {
        if a[i] != b[i] {
            return false;
        }
        i = i + 1;
    }
    proof {
        assert(a@ =~= b@);
    }
    true
}

} // verus!
