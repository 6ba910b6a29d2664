//! An executable UTF-8 well-formedness check, proved against vstd's
//! byte-level encoding model.
//!
//! Text columns must hold valid UTF-8; the record decoder rejects a column
//! that fails this check instead of carrying malformed text.

use vstd::prelude::*;
use vstd::utf8::{
    decode_first_codepoint, is_continuation_byte, is_leading_byte_width_1,
    is_leading_byte_width_2, is_leading_byte_width_3, is_leading_byte_width_4,
    length_of_first_codepoint, pop_first_scalar, valid_first_scalar,
    valid_leading_and_continuation_bytes_first_codepoint, valid_utf8,
};

verus! {

/// True exactly when `bytes` is a valid UTF-8 encoding: every scalar is
/// well-formed, not overlong, and outside the surrogate range.
pub fn is_utf8(bytes: &Vec<u8>) -> (r: bool)
    ensures
        r == valid_utf8(bytes@),
{
    let n = bytes.len();
    let mut i: usize = 0;
    proof {
        assert(bytes@.skip(0) =~= bytes@);
    }
    while i < n
        invariant
            i <= n,
            n == bytes.len(),
            valid_utf8(bytes@) == valid_utf8(bytes@.skip(i as int)),
        decreases n - i,
    {
        let ghost rest = bytes@.skip(i as int);
        proof {
            assert(rest.len() == n - i);
            assert(rest[0] == bytes@[i as int]);
        }
        let b0 = bytes[i];
        if b0 < 0x80 {
            proof {
                assert(is_leading_byte_width_1(b0));
                assert(decode_first_codepoint(rest) == (b0 & 0x7f) as u32);
                assert(b0 & 0x7f == b0) by (bit_vector)
                    requires
                        b0 < 0x80,
                ;
                assert(valid_first_scalar(rest));
                assert(pop_first_scalar(rest) =~= bytes@.skip(i as int + 1));
            }
            i = i + 1;
        } else if b0 >= 0xc0 && b0 <= 0xdf {
            if n - i < 2 {
                proof {
                    assert(!valid_leading_and_continuation_bytes_first_codepoint(rest));
                    assert(!valid_utf8(rest));
                }
                return false;
            }
            proof {
                assert(rest[1] == bytes@[i as int + 1]);
            }
            let b1 = bytes[i + 1];
            if !(b1 >= 0x80 && b1 <= 0xbf) {
                proof {
                    assert(!valid_leading_and_continuation_bytes_first_codepoint(rest));
                    assert(!valid_utf8(rest));
                }
                return false;
            }
            let cp = (((b0 & 0x1f) as u32) << 6) | ((b1 & 0x3f) as u32);
            proof {
                assert(decode_first_codepoint(rest) == cp);
                assert(length_of_first_codepoint(rest) == 2);
                assert((((b0 & 0x1f) as u32) << 6) | ((b1 & 0x3f) as u32) <= 0x7ff)
                    by (bit_vector);
            }
            if cp < 0x80 {
                proof {
                    assert(!valid_utf8(rest));
                }
                return false;
            }
            proof {
                assert(valid_first_scalar(rest));
                assert(pop_first_scalar(rest) =~= bytes@.skip(i as int + 2));
            }
            i = i + 2;
        } else if b0 >= 0xe0 && b0 <= 0xef {
            if n - i < 3 {
                proof {
                    assert(!valid_leading_and_continuation_bytes_first_codepoint(rest));
                    assert(!valid_utf8(rest));
                }
                return false;
            }
            proof {
                assert(rest[1] == bytes@[i as int + 1]);
                assert(rest[2] == bytes@[i as int + 2]);
            }
            let b1 = bytes[i + 1];
            let b2 = bytes[i + 2];
            if !(b1 >= 0x80 && b1 <= 0xbf) || !(b2 >= 0x80 && b2 <= 0xbf) {
                proof {
                    assert(!valid_leading_and_continuation_bytes_first_codepoint(rest));
                    assert(!valid_utf8(rest));
                }
                return false;
            }
            let cp = (((b0 & 0x0f) as u32) << 12) | (((b1 & 0x3f) as u32) << 6) | ((b2
                & 0x3f) as u32);
            proof {
                assert(decode_first_codepoint(rest) == cp);
                assert(length_of_first_codepoint(rest) == 3);
            }
            if cp < 0x800 || (cp >= 0xd800 && cp <= 0xdfff) {
                proof {
                    assert(!valid_utf8(rest));
                }
                return false;
            }
            proof {
                assert(valid_first_scalar(rest));
                assert(pop_first_scalar(rest) =~= bytes@.skip(i as int + 3));
            }
            i = i + 3;
        } else if b0 >= 0xf0 && b0 <= 0xf7 {
            if n - i < 4 {
                proof {
                    assert(!valid_leading_and_continuation_bytes_first_codepoint(rest));
                    assert(!valid_utf8(rest));
                }
                return false;
            }
            proof {
                assert(rest[1] == bytes@[i as int + 1]);
                assert(rest[2] == bytes@[i as int + 2]);
                assert(rest[3] == bytes@[i as int + 3]);
            }
            let b1 = bytes[i + 1];
            let b2 = bytes[i + 2];
            let b3 = bytes[i + 3];
            if !(b1 >= 0x80 && b1 <= 0xbf) || !(b2 >= 0x80 && b2 <= 0xbf) || !(b3 >= 0x80 && b3
                <= 0xbf) {
                proof {
                    assert(!valid_leading_and_continuation_bytes_first_codepoint(rest));
                    assert(!valid_utf8(rest));
                }
                return false;
            }
            let cp = (((b0 & 0x07) as u32) << 18) | (((b1 & 0x3f) as u32) << 12) | (((b2
                & 0x3f) as u32) << 6) | ((b3 & 0x3f) as u32);
            proof {
                assert(decode_first_codepoint(rest) == cp);
                assert(length_of_first_codepoint(rest) == 4);
            }
            if cp < 0x10000 || cp > 0x10ffff {
                proof {
                    assert(!valid_utf8(rest));
                }
                return false;
            }
            proof {
                assert(valid_first_scalar(rest));
                assert(pop_first_scalar(rest) =~= bytes@.skip(i as int + 4));
            }
            i = i + 4;
        } else {
            proof {
                assert(!is_leading_byte_width_1(rest[0]));
                assert(!is_leading_byte_width_2(rest[0]));
                assert(!is_leading_byte_width_3(rest[0]));
                assert(!is_leading_byte_width_4(rest[0]));
                assert(!valid_leading_and_continuation_bytes_first_codepoint(rest));
                assert(!valid_utf8(rest));
            }
            return false;
        }
    }
    proof {
        assert(bytes@.skip(n as int).len() == 0);
        assert(valid_utf8(bytes@.skip(n as int)));
    }
    true
}

} // verus!
