//! SQLite's 1-to-9-byte variable-length big-endian integer encoding.
//!
//! Each of the first eight bytes contributes its low 7 bits, most significant
//! first, and its high bit says whether another byte follows.  If eight bytes
//! were consumed with the high bit still set, a ninth byte contributes all 8
//! of its bits unconditionally: the format's terminal case and the only way
//! to encode the full 64-bit range.

use vstd::arithmetic::power2::{lemma2_to64, lemma2_to64_rest, lemma_pow2_adds, pow2};
use vstd::prelude::*;

use crate::error::DbError;

verus! {

/// Decoding state after `taken` bytes have been folded into `acc`:
/// the value and total byte count of the varint continuing at `bytes[idx]`,
/// or `TruncatedVarint` if the buffer runs out first.
pub open spec fn spec_varint_step(bytes: Seq<u8>, idx: int, acc: int, taken: int) -> Result<
    (int, int),
    DbError,
>
    decreases 8 - taken,
{
    if idx < 0 || idx >= bytes.len() {
        Err(DbError::TruncatedVarint)
    } else if taken >= 8 {
        Ok((acc * 256 + bytes[idx], 9))
    } else if bytes[idx] < 128 {
        Ok((acc * 128 + bytes[idx], taken + 1))
    } else {
        spec_varint_step(bytes, idx + 1, acc * 128 + (bytes[idx] - 128), taken + 1)
    }
}

/// The value and byte count of the varint starting at `bytes[start]`.
pub open spec fn spec_decode_varint(bytes: Seq<u8>, start: int) -> Result<(int, int), DbError> {
    spec_varint_step(bytes, start, 0, 0)
}

/// Decodes the varint starting at `bytes[start]`, returning its value and
/// the count of bytes consumed (1 to 9).
pub fn decode_varint(bytes: &Vec<u8>, start: usize) -> (r: Result<(u64, usize), DbError>)
    ensures
        match r {
            Ok(p) => {
                &&& spec_decode_varint(bytes@, start as int) == Ok::<(int, int), DbError>(
                    (p.0 as int, p.1 as int),
                )
                &&& 1 <= p.1 <= 9
                &&& start + p.1 <= bytes.len()
            },
            Err(e) => spec_decode_varint(bytes@, start as int) == Err::<(int, int), DbError>(e),
        },
{
    let mut acc: u64 = 0;
    let mut taken: usize = 0;
    proof {
        lemma2_to64();
    }
    while taken < 8
        invariant
            taken <= 8,
            acc < pow2((7 * taken) as nat),
            spec_varint_step(bytes@, start as int + taken as int, acc as int, taken as int)
                == spec_decode_varint(bytes@, start as int),
            start + taken <= bytes@.len() || taken == 0,
        decreases 8 - taken,
    {
        if start >= bytes.len() || taken >= bytes.len() - start {
            return Err(DbError::TruncatedVarint);
        }
        let b = bytes[start + taken];
        proof {
            lemma_pow2_adds((7 * taken) as nat, 7);
            lemma2_to64();
            lemma2_to64_rest();
            assert(pow2((7 * taken) as nat) <= pow2(49)) by {
                lemma_pow2_le_max((7 * taken) as nat, 49);
            }
        }
        if b < 128 {
            return Ok((acc * 128 + b as u64, taken + 1));
        }
        acc = acc * 128 + (b - 128) as u64;
        taken = taken + 1;
    }
    proof {
        lemma2_to64();
        lemma2_to64_rest();
        assert(acc < pow2(56));
    }
    if start >= bytes.len() || 8 >= bytes.len() - start {
        return Err(DbError::TruncatedVarint);
    }
    let b = bytes[start + 8];
    Ok((acc * 256 + b as u64, 9))
}

/// `pow2(e) <= pow2(max)` for `e <= max`.
proof fn lemma_pow2_le_max(e: nat, max: nat)
    requires
        e <= max,
    ensures
        pow2(e) <= pow2(max),
{
    if e < max {
        vstd::arithmetic::power2::lemma_pow2_strictly_increases(e, max);
    }
}

/// The big-endian base-128 digits of `w`, each with the continuation bit set:
/// the leading bytes of an encoded varint, least significant digit last.
pub open spec fn spec_cont_septets(w: int) -> Seq<u8>
    decreases w,
{
    if w < 128 {
        seq![(w + 128) as u8]
    } else {
        spec_cont_septets(w / 128).push(((w % 128) + 128) as u8)
    }
}

/// Exactly `n` big-endian base-128 digits of `w`, each with the continuation
/// bit set, zero-padded on the left: the 8 leading bytes of a 9-byte varint.
pub open spec fn spec_fixed_septets(w: int, n: nat) -> Seq<u8>
    decreases n,
{
    if n == 0 {
        seq![]
    } else {
        spec_fixed_septets(w / 128, (n - 1) as nat).push(((w % 128) + 128) as u8)
    }
}

/// The encoded bytes of `v`: base-128 digits with continuation bits and a
/// final 7-bit byte, except that a value of 56 bits or more takes 8 digit
/// bytes followed by one full 8-bit byte.
pub open spec fn spec_encode_varint(v: u64) -> Seq<u8> {
    if v < 128 {
        seq![v as u8]
    } else if v < 0x100_0000_0000_0000 {
        spec_cont_septets(v as int / 128).push((v as int % 128) as u8)
    } else {
        spec_fixed_septets(v as int / 256, 8).push((v as int % 256) as u8)
    }
}

/// `acc` shifted left by one base-128 digit per digit of `w`, plus `w`:
/// the accumulator after decoding the digits of `w` on top of `acc`.
pub open spec fn spec_shift_in(acc: int, w: int) -> int
    decreases w,
{
    if w < 128 {
        acc * 128 + w
    } else {
        spec_shift_in(acc, w / 128) * 128 + w % 128
    }
}

/// `acc` shifted left by `n` base-128 digits, plus the low `n` digits of `w`.
pub open spec fn spec_shift_in_n(acc: int, w: int, n: nat) -> int
    decreases n,
{
    if n == 0 {
        acc
    } else {
        spec_shift_in_n(acc, w / 128, (n - 1) as nat) * 128 + w % 128
    }
}

/// Decoding walks through the digit bytes of `w`, folding them into the
/// accumulator, and continues right after them.
proof fn lemma_step_through_cont_septets(bytes: Seq<u8>, idx: int, acc: int, taken: int, w: int)
    requires
        0 <= w,
        0 <= idx,
        0 <= taken,
        taken + spec_cont_septets(w).len() <= 8,
        idx + spec_cont_septets(w).len() <= bytes.len(),
        bytes.subrange(idx, idx + spec_cont_septets(w).len() as int) == spec_cont_septets(w),
    ensures
        spec_varint_step(bytes, idx, acc, taken) == spec_varint_step(
            bytes,
            idx + spec_cont_septets(w).len() as int,
            spec_shift_in(acc, w),
            taken + spec_cont_septets(w).len() as int,
        ),
    decreases w,
{
    let sept = spec_cont_septets(w);
    let el = sept.len() as int;
    if w < 128 {
        assert(bytes[idx] == sept[0]);
        assert(bytes[idx] == (w + 128) as u8);
    } else {
        let prefix = spec_cont_septets(w / 128);
        let pl = prefix.len() as int;
        assert(bytes.subrange(idx, idx + pl) =~= prefix) by {
            assert forall|i: int| 0 <= i < pl implies bytes.subrange(idx, idx + pl)[i]
                == prefix[i] by {
                assert(bytes.subrange(idx, idx + el)[i] == sept[i]);
            }
        }
        lemma_step_through_cont_septets(bytes, idx, acc, taken, w / 128);
        assert(bytes[idx + pl] == sept[pl]);
        assert(bytes[idx + pl] == ((w % 128) + 128) as u8);
    }
}

/// Decoding walks through `n` zero-padded digit bytes of `w` the same way.
proof fn lemma_step_through_fixed_septets(
    bytes: Seq<u8>,
    idx: int,
    acc: int,
    taken: int,
    w: int,
    n: nat,
)
    requires
        0 <= w,
        0 <= idx,
        0 <= taken,
        spec_fixed_septets(w, n).len() == n,
        taken + n <= 8,
        idx + n <= bytes.len(),
        bytes.subrange(idx, idx + n as int) == spec_fixed_septets(w, n),
    ensures
        spec_varint_step(bytes, idx, acc, taken) == spec_varint_step(
            bytes,
            idx + n as int,
            spec_shift_in_n(acc, w, n),
            taken + n as int,
        ),
    decreases n,
{
    let sept = spec_fixed_septets(w, n);
    if n > 0 {
        let prefix = spec_fixed_septets(w / 128, (n - 1) as nat);
        let pl = n as int - 1;
        lemma_fixed_septets_len(w / 128, (n - 1) as nat);
        assert(bytes.subrange(idx, idx + pl) =~= prefix) by {
            assert forall|i: int| 0 <= i < pl implies bytes.subrange(idx, idx + pl)[i]
                == prefix[i] by {
                assert(bytes.subrange(idx, idx + n as int)[i] == sept[i]);
            }
        }
        lemma_step_through_fixed_septets(bytes, idx, acc, taken, w / 128, (n - 1) as nat);
        assert(bytes[idx + pl] == sept[pl]);
        assert(bytes[idx + pl] == ((w % 128) + 128) as u8);
    }
}

/// `spec_fixed_septets(w, n)` has exactly `n` bytes.
proof fn lemma_fixed_septets_len(w: int, n: nat)
    ensures
        spec_fixed_septets(w, n).len() == n,
    decreases n,
{
    if n > 0 {
        lemma_fixed_septets_len(w / 128, (n - 1) as nat);
    }
}

/// A value below `pow2(7 * k)` has at most `k` base-128 digits.
proof fn lemma_cont_septets_len_le(w: int, k: nat)
    requires
        0 <= w,
        1 <= k,
        w < pow2(7 * k),
    ensures
        1 <= spec_cont_septets(w).len() <= k,
    decreases k,
{
    if w >= 128 {
        assert(k >= 2) by {
            if k == 1 {
                lemma2_to64();
            }
        }
        assert(pow2(7 * k) == pow2(7 * (k - 1) as nat) * 128) by {
            lemma_pow2_adds(7 * (k - 1) as nat, 7);
            lemma2_to64();
        }
        vstd::arithmetic::div_mod::lemma_multiply_divide_lt(
            w,
            128,
            pow2(7 * (k - 1) as nat) as int,
        );
        lemma_cont_septets_len_le(w / 128, (k - 1) as nat);
    }
}

/// Folding the digits of `w` into an empty accumulator yields `w` itself.
proof fn lemma_shift_in_zero(w: int)
    requires
        0 <= w,
    ensures
        spec_shift_in(0, w) == w,
    decreases w,
{
    if w >= 128 {
        lemma_shift_in_zero(w / 128);
        vstd::arithmetic::div_mod::lemma_fundamental_div_mod(w, 128);
    }
}

/// Folding `n` digits of a value below `pow2(7 * n)` into an empty
/// accumulator yields the value itself.
proof fn lemma_shift_in_n_zero(w: int, n: nat)
    requires
        0 <= w,
        w < pow2(7 * n),
    ensures
        spec_shift_in_n(0, w, n) == w,
    decreases n,
{
    if n == 0 {
        assert(pow2(0) == 1) by {
            lemma2_to64();
        }
    } else {
        assert(pow2(7 * n) == pow2(7 * (n - 1) as nat) * 128) by {
            lemma_pow2_adds(7 * (n - 1) as nat, 7);
            lemma2_to64();
        }
        vstd::arithmetic::div_mod::lemma_multiply_divide_lt(
            w,
            128,
            pow2(7 * (n - 1) as nat) as int,
        );
        lemma_shift_in_n_zero(w / 128, (n - 1) as nat);
        vstd::arithmetic::div_mod::lemma_fundamental_div_mod(w, 128);
    }
}

/// Round trip: decoding an encoded `u64` returns the original value and
/// consumes exactly the encoded bytes, 1 to 9 of them; values of 56 bits or
/// more take the full 9-byte terminal form.
pub proof fn lemma_varint_round_trip(v: u64)
    ensures
        1 <= spec_encode_varint(v).len() <= 9,
        spec_decode_varint(spec_encode_varint(v), 0) == Ok::<(int, int), DbError>(
            (v as int, spec_encode_varint(v).len() as int),
        ),
        v >= 0x100_0000_0000_0000 ==> spec_encode_varint(v).len() == 9,
{
    let enc = spec_encode_varint(v);
    if v < 128 {
        assert(enc[0] == v as u8);
    } else if v < 0x100_0000_0000_0000 {
        let w = v as int / 128;
        let last = v as int % 128;
        assert(w < pow2(49)) by {
            lemma2_to64();
            lemma2_to64_rest();
            vstd::arithmetic::div_mod::lemma_multiply_divide_lt(v as int, 128, pow2(49) as int);
        }
        lemma_cont_septets_len_le(w, 7);
        let sept = spec_cont_septets(w);
        let el = sept.len() as int;
        assert(enc.subrange(0, el) =~= sept);
        lemma_step_through_cont_septets(enc, 0, 0, 0, w);
        lemma_shift_in_zero(w);
        assert(enc[el] == last as u8);
        vstd::arithmetic::div_mod::lemma_fundamental_div_mod(v as int, 128);
    } else {
        let w = v as int / 256;
        let last = v as int % 256;
        assert(w < pow2(56)) by {
            lemma2_to64();
            lemma2_to64_rest();
            vstd::arithmetic::div_mod::lemma_multiply_divide_lt(v as int, 256, pow2(56) as int);
        }
        lemma_fixed_septets_len(w, 8);
        let sept = spec_fixed_septets(w, 8);
        assert(enc.subrange(0, 8) =~= sept);
        lemma_step_through_fixed_septets(enc, 0, 0, 0, w, 8);
        lemma_shift_in_n_zero(w, 8);
        assert(enc[8] == last as u8);
        vstd::arithmetic::div_mod::lemma_fundamental_div_mod(v as int, 256);
    }
}

/// The digit bytes of `w`, as a vector.
fn cont_septets_vec(w: u64) -> (r: Vec<u8>)
    ensures
        r@ == spec_cont_septets(w as int),
    decreases w,
{
    if w < 128 {
        let mut r: Vec<u8> = Vec::new();
        r.push((w + 128) as u8);
        r
    } else {
        let mut r = cont_septets_vec(w / 128);
        r.push(((w % 128) + 128) as u8);
        r
    }
}

/// Exactly `n` digit bytes of `w`, as a vector.
fn fixed_septets_vec(w: u64, n: usize) -> (r: Vec<u8>)
    ensures
        r@ == spec_fixed_septets(w as int, n as nat),
    decreases n,
{
    if n == 0 {
        Vec::new()
    } else {
        let mut r = fixed_septets_vec(w / 128, n - 1);
        r.push(((w % 128) + 128) as u8);
        r
    }
}

/// Encodes `v` as a varint of 1 to 9 bytes.
pub fn encode_varint(v: u64) -> (r: Vec<u8>)
    ensures
        r@ == spec_encode_varint(v),
{
    if v < 128 {
        let mut r: Vec<u8> = Vec::new();
        r.push(v as u8);
        r
    } else if v < 0x100_0000_0000_0000 {
        let mut r = cont_septets_vec(v / 128);
        r.push((v % 128) as u8);
        r
    } else {
        let mut r = fixed_septets_vec(v / 256, 8);
        r.push((v % 256) as u8);
        r
    }
}

} // verus!
