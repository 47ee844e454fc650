//! UTF-8 validity.
//!
//! [`is_utf8`] is the byte-level well-formedness of UTF-8: sequences of one
//! to four bytes per scalar value, continuation bytes in `0x80..=0xBF`, no
//! overlong encodings, no surrogates, nothing above `0x10FFFF`.
//! [`validate_utf8`] decides it.

use vstd::prelude::*;

verus! {

/// The length of the encoded scalar value that `b0` begins, or 0 when `b0`
/// cannot begin one.
pub open spec fn utf8_seq_len(b0: u8) -> int {
    if b0 < 0x80 {
        1
    } else if 0xC2 <= b0 && b0 <= 0xDF {
        2
    } else if 0xE0 <= b0 && b0 <= 0xEF {
        3
    } else if 0xF0 <= b0 && b0 <= 0xF4 {
        4
    } else {
        0
    }
}

/// Whether `b` is a continuation byte.
pub open spec fn is_cont(b: u8) -> bool {
    0x80 <= b && b <= 0xBF
}

/// Whether `s` begins with one well-formed encoded scalar value.
pub open spec fn valid_scalar_head(s: Seq<u8>) -> bool {
    s.len() > 0 && {
        let b0 = s[0];
        let k = utf8_seq_len(b0);
        &&& k >= 1
        &&& s.len() >= k
        &&& (k == 2 ==> is_cont(s[1]))
        &&& (k == 3 ==> {
            &&& is_cont(s[1])
            &&& is_cont(s[2])
            &&& (b0 == 0xE0 ==> 0xA0 <= s[1])
            &&& (b0 == 0xED ==> s[1] <= 0x9F)
        })
        &&& (k == 4 ==> {
            &&& is_cont(s[1])
            &&& is_cont(s[2])
            &&& is_cont(s[3])
            &&& (b0 == 0xF0 ==> 0x90 <= s[1])
            &&& (b0 == 0xF4 ==> s[1] <= 0x8F)
        })
    }
}

/// Whether `s` is well-formed UTF-8.
pub open spec fn is_utf8(s: Seq<u8>) -> bool
    decreases s.len(),
{
    if s.len() == 0 {
        true
    } else if !valid_scalar_head(s) {
        false
    } else {
        is_utf8(s.skip(utf8_seq_len(s[0])))
    }
}

/// Decides whether `bytes` is well-formed UTF-8.
pub fn validate_utf8(bytes: &[u8]) -> (r: bool)
    ensures
        r == is_utf8(bytes@),
{
    let n = bytes.len();
    let mut i: usize = 0;
    proof {
        assert(bytes@.skip(0) =~= bytes@);
    }
    while i < n
        invariant
            i <= n,
            n == bytes@.len(),
            is_utf8(bytes@) == is_utf8(bytes@.skip(i as int)),
        decreases n - i,
    {
        let ghost rest = bytes@.skip(i as int);
        proof {
            assert(rest.len() == n - i);
            assert(rest[0] == bytes@[i as int]);
        }
        let b0 = bytes[i];
        let k: usize;
        if b0 < 0x80 {
            k = 1;
        } else if 0xC2 <= b0 && b0 <= 0xDF {
            if n - i < 2 || !cont(bytes[i + 1]) {
                proof {
                    assert(n - i >= 2 ==> rest[1] == bytes@[i + 1]);
                    assert(!valid_scalar_head(rest));
                }
                return false;
            }
            k = 2;
        } else if 0xE0 <= b0 && b0 <= 0xEF {
            if n - i < 3 || !cont(bytes[i + 1]) || !cont(bytes[i + 2]) || (b0 == 0xE0 && bytes[i
                + 1] < 0xA0) || (b0 == 0xED && bytes[i + 1] > 0x9F) {
                proof {
                    assert(n - i >= 2 ==> rest[1] == bytes@[i + 1]);
                    assert(n - i >= 3 ==> rest[2] == bytes@[i + 2]);
                    assert(!valid_scalar_head(rest));
                }
                return false;
            }
            k = 3;
        } else if 0xF0 <= b0 && b0 <= 0xF4 {
            if n - i < 4 || !cont(bytes[i + 1]) || !cont(bytes[i + 2]) || !cont(bytes[i + 3]) || (b0
                == 0xF0 && bytes[i + 1] < 0x90) || (b0 == 0xF4 && bytes[i + 1] > 0x8F) {
                proof {
                    assert(n - i >= 2 ==> rest[1] == bytes@[i + 1]);
                    assert(n - i >= 3 ==> rest[2] == bytes@[i + 2]);
                    assert(n - i >= 4 ==> rest[3] == bytes@[i + 3]);
                    assert(!valid_scalar_head(rest));
                }
                return false;
            }
            k = 4;
        } else {
            proof {
                assert(utf8_seq_len(rest[0]) == 0);
                assert(!valid_scalar_head(rest));
            }
            return false;
        }
        proof {
            assert(k >= 2 ==> rest[1] == bytes@[i + 1]);
            assert(k >= 3 ==> rest[2] == bytes@[i + 2]);
            assert(k >= 4 ==> rest[3] == bytes@[i + 3]);
            assert(valid_scalar_head(rest));
            assert(utf8_seq_len(rest[0]) == k);
            assert(rest.skip(k as int) =~= bytes@.skip(i + k));
            assert(is_utf8(rest) == is_utf8(bytes@.skip(i + k)));
        }
        i = i + k;
    }
    proof {
        assert(bytes@.skip(n as int) =~= Seq::<u8>::empty());
    }
    true
}

/// Whether `b` is a continuation byte.
fn cont(b: u8) -> (r: bool)
    ensures
        r == is_cont(b),
{
    0x80 <= b && b <= 0xBF
}

} // verus!
