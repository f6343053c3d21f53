//! An executable UTF-8 validity check, proved against the byte-level
//! definition of well-formed UTF-8 in `vstd::utf8`.
//!
//! The record's two text fields are UTF-8 strings; the codecs reject stored
//! or transported bytes whose fields are not well formed, so a check over
//! raw bytes is needed. A scalar's encoding is one byte up to `0x7f`, or a
//! leading byte and one to three continuation bytes, excluding overlong
//! encodings and the surrogate range.

use vstd::prelude::*;
use vstd::slice::slice_index_get;
use vstd::utf8::{
    codepoint_width_2, codepoint_width_3, codepoint_width_4, length_of_first_scalar,
    pop_first_scalar, valid_first_scalar, valid_utf8,
};

verus! {

broadcast use vstd::seq_lib::group_seq_lib_default;

/// The two-byte codepoints, over their admitted byte ranges: never in the
/// surrogate range, and overlong exactly below leading byte `0xc2`.
proof fn lemma_two_byte_codepoint(b0: u8, b1: u8)
    requires
        0xc0 <= b0 <= 0xdf,
        0x80 <= b1 <= 0xbf,
    ensures
        codepoint_width_2(b0, b1) >= 0x80 <==> b0 >= 0xc2,
        codepoint_width_2(b0, b1) <= 0x7ff,
{
    assert(((((b0 & 0x1f) as u32) << 6) | ((b1 & 0x3f) as u32)) >= 0x80 <==> b0 >= 0xc2)
        by (bit_vector)
        requires
            0xc0 <= b0 <= 0xdf && 0x80 <= b1 <= 0xbf,
    ;
    assert(((((b0 & 0x1f) as u32) << 6) | ((b1 & 0x3f) as u32)) <= 0x7ff) by (bit_vector);
}

/// The three-byte codepoints: overlong exactly for `0xe0` with a second
/// byte below `0xa0`, and in the surrogate range exactly for `0xed` with a
/// second byte of `0xa0` or above.
proof fn lemma_three_byte_codepoint(b0: u8, b1: u8, b2: u8)
    requires
        0xe0 <= b0 <= 0xef,
        0x80 <= b1 <= 0xbf,
        0x80 <= b2 <= 0xbf,
    ensures
        codepoint_width_3(b0, b1, b2) >= 0x800 <==> (b0 != 0xe0 || b1 >= 0xa0),
        (0xd800 <= codepoint_width_3(b0, b1, b2) <= 0xdfff) <==> (b0 == 0xed && b1 >= 0xa0),
{
    let cp = (((b0 & 0x0f) as u32) << 12) | (((b1 & 0x3f) as u32) << 6) | ((b2 & 0x3f) as u32);
    assert((cp >= 0x800 <==> (b0 != 0xe0 || b1 >= 0xa0)) && ((0xd800 <= cp <= 0xdfff) <==> (b0
        == 0xed && b1 >= 0xa0))) by (bit_vector)
        requires
            cp == ((((b0 & 0x0f) as u32) << 12) | (((b1 & 0x3f) as u32) << 6) | ((b2
                & 0x3f) as u32)) && 0xe0 <= b0 <= 0xef && 0x80 <= b1 <= 0xbf && 0x80 <= b2 <= 0xbf,
    ;
}

/// The four-byte codepoints: within the admitted scalar range exactly for
/// the leading-byte and second-byte combinations below.
proof fn lemma_four_byte_codepoint(b0: u8, b1: u8, b2: u8, b3: u8)
    requires
        0xf0 <= b0 <= 0xf7,
        0x80 <= b1 <= 0xbf,
        0x80 <= b2 <= 0xbf,
        0x80 <= b3 <= 0xbf,
    ensures
        (0x10000 <= codepoint_width_4(b0, b1, b2, b3) <= 0x10ffff) <==> ((b0 == 0xf0 && b1 >= 0x90)
            || (0xf1 <= b0 <= 0xf3) || (b0 == 0xf4 && b1 <= 0x8f)),
{
    let cp = (((b0 & 0x07) as u32) << 18) | (((b1 & 0x3f) as u32) << 12) | (((b2
        & 0x3f) as u32) << 6) | ((b3 & 0x3f) as u32);
    assert((0x10000 <= cp <= 0x10ffff) <==> ((b0 == 0xf0 && b1 >= 0x90) || (0xf1 <= b0 <= 0xf3) || (
    b0 == 0xf4 && b1 <= 0x8f))) by (bit_vector)
        requires
            cp == ((((b0 & 0x07) as u32) << 18) | (((b1 & 0x3f) as u32) << 12) | (((b2
                & 0x3f) as u32) << 6) | ((b3 & 0x3f) as u32)) && 0xf0 <= b0 <= 0xf7 && 0x80 <= b1
                <= 0xbf && 0x80 <= b2 <= 0xbf && 0x80 <= b3 <= 0xbf,
    ;
}

/// The one-byte codepoints never exceed `0x7f`.
proof fn lemma_one_byte_codepoint(b0: u8)
    requires
        b0 <= 0x7f,
    ensures
        ((b0 & 0x7f) as u32) <= 0x7f,
{
    assert(((b0 & 0x7f) as u32) <= 0x7f) by (bit_vector);
}

/// Whether `data` is a well-formed UTF-8 encoding, in the sense of
/// `vstd::utf8::valid_utf8`.
pub fn is_valid_utf8(data: &[u8]) -> (r: bool)
    ensures
        r == valid_utf8(data@),
{
    let n = data.len();
    let mut i: usize = 0;
    proof {
        assert(data@.skip(0) =~= data@);
    }
    while i < n
        invariant
            i <= n,
            n == data@.len(),
            valid_utf8(data@) <==> valid_utf8(data@.skip(i as int)),
        decreases n - i,
    {
        let ghost rest = data@.skip(i as int);
        proof {
            assert(rest.len() == n - i);
        }
        let b0 = *slice_index_get(data, i);
        proof {
            assert(rest[0] == b0);
        }
        let step: usize;
        if b0 <= 0x7f {
            proof {
                lemma_one_byte_codepoint(b0);
                assert(valid_first_scalar(rest));
                assert(length_of_first_scalar(rest) == 1);
            }
            step = 1;
        } else if 0xc0 <= b0 && b0 <= 0xdf {
            let cont_ok = i + 1 < n && {
                let b1 = *slice_index_get(data, i + 1);
                0x80 <= b1 && b1 <= 0xbf
            };
            if b0 < 0xc2 || !cont_ok {
                proof {
                    if cont_ok {
                        assert(rest[1] == data@[i + 1]);
                        lemma_two_byte_codepoint(b0, data@[i + 1]);
                    }
                    assert(!valid_first_scalar(rest));
                }
                return false;
            }
            proof {
                assert(rest[1] == data@[i + 1]);
                lemma_two_byte_codepoint(b0, data@[i + 1]);
                assert(valid_first_scalar(rest));
                assert(length_of_first_scalar(rest) == 2);
            }
            step = 2;
        } else if 0xe0 <= b0 && b0 <= 0xef {
            if n - i < 3 {
                proof {
                    assert(!valid_first_scalar(rest));
                }
                return false;
            }
            let b1 = *slice_index_get(data, i + 1);
            let b2 = *slice_index_get(data, i + 2);
            proof {
                assert(rest[1] == b1 && rest[2] == b2);
            }
            let cont_ok = 0x80 <= b1 && b1 <= 0xbf && 0x80 <= b2 && b2 <= 0xbf;
            if !cont_ok || (b0 == 0xe0 && b1 < 0xa0) || (b0 == 0xed && b1 >= 0xa0) {
                proof {
                    if cont_ok {
                        lemma_three_byte_codepoint(b0, b1, b2);
                    }
                    assert(!valid_first_scalar(rest));
                }
                return false;
            }
            proof {
                lemma_three_byte_codepoint(b0, b1, b2);
                assert(valid_first_scalar(rest));
                assert(length_of_first_scalar(rest) == 3);
            }
            step = 3;
        } else if 0xf0 <= b0 && b0 <= 0xf7 {
            if n - i < 4 {
                proof {
                    assert(!valid_first_scalar(rest));
                }
                return false;
            }
            let b1 = *slice_index_get(data, i + 1);
            let b2 = *slice_index_get(data, i + 2);
            let b3 = *slice_index_get(data, i + 3);
            proof {
                assert(rest[1] == b1 && rest[2] == b2 && rest[3] == b3);
            }
            let cont_ok = 0x80 <= b1 && b1 <= 0xbf && 0x80 <= b2 && b2 <= 0xbf && 0x80 <= b3 && b3
                <= 0xbf;
            let range_ok = (b0 == 0xf0 && b1 >= 0x90) || (0xf1 <= b0 && b0 <= 0xf3) || (b0 == 0xf4
                && b1 <= 0x8f);
            if !cont_ok || !range_ok {
                proof {
                    if cont_ok {
                        lemma_four_byte_codepoint(b0, b1, b2, b3);
                    }
                    assert(!valid_first_scalar(rest));
                }
                return false;
            }
            proof {
                lemma_four_byte_codepoint(b0, b1, b2, b3);
                assert(valid_first_scalar(rest));
                assert(length_of_first_scalar(rest) == 4);
            }
            step = 4;
        } else {
            // a stray continuation byte, or a byte no encoding begins with
            proof {
                assert(!valid_first_scalar(rest));
            }
            return false;
        }
        proof {
            assert(pop_first_scalar(rest) =~= data@.skip(i + step as int));
            assert(valid_utf8(rest) <==> valid_utf8(data@.skip(i + step as int)));
        }
        i += step;
    }
    proof {
        assert(data@.skip(n as int) =~= Seq::<u8>::empty());
        assert(valid_utf8(Seq::<u8>::empty()));
    }
    true
}

} // verus!
