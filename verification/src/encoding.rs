//! Byte-level helpers: the big-endian close status code and UTF-8
//! validation of payload bytes.

use vstd::prelude::*;
use vstd::utf8::codepoint_width_1;
use vstd::utf8::codepoint_width_2;
use vstd::utf8::codepoint_width_3;
use vstd::utf8::codepoint_width_4;
use vstd::utf8::decode_first_codepoint;
use vstd::utf8::length_of_first_codepoint;
use vstd::utf8::length_of_first_scalar;
use vstd::utf8::partial_valid_partial_invalid_utf8;
use vstd::utf8::partial_valid_utf8;
use vstd::utf8::partial_valid_utf8_extend;
use vstd::utf8::valid_first_scalar;
use vstd::utf8::valid_leading_and_continuation_bytes_first_codepoint;
use vstd::utf8::valid_utf8;

verus! {

/// The two-byte big-endian encoding of a close status code.
pub open spec fn status_code_bytes(code: u16) -> Seq<u8> {
    seq![(code / 256) as u8, (code % 256) as u8]
}

/// The status code held in the first two bytes of a close payload.
pub open spec fn status_code_of(bytes: Seq<u8>) -> u16
    recommends
        bytes.len() >= 2,
{
    (bytes[0] * 256 + bytes[1]) as u16
}

/// Appends the two-byte big-endian encoding of `code` to `sink`.
pub fn write_status_code(sink: &mut Vec<u8>, code: u16)
    ensures
        final(sink)@ == old(sink)@ + status_code_bytes(code),
{
    sink.push((code / 256) as u8);
    sink.push((code % 256) as u8);
    proof {
        assert(final(sink)@ =~= old(sink)@ + status_code_bytes(code));
    }
}

/// Reads the big-endian status code from the first two bytes of `data`.
pub fn read_status_code(data: &Vec<u8>) -> (code: u16)
    requires
        data@.len() >= 2,
    ensures
        code == status_code_of(data@),
{
    let high: u16 = data[0] as u16;
    let low: u16 = data[1] as u16;
    high * 256 + low
}

/// A code is recovered exactly from its own two-byte encoding followed
/// by anything.
pub proof fn lemma_status_code_round_trip(code: u16, rest: Seq<u8>)
    ensures
        status_code_of(status_code_bytes(code) + rest) == code,
        (status_code_bytes(code) + rest).len() == 2 + rest.len(),
        (status_code_bytes(code) + rest).skip(2) =~= rest,
{
    let bytes = status_code_bytes(code) + rest;
    assert(bytes[0] == code / 256);
    assert(bytes[1] == code % 256);
}

/// Appends every byte of `bytes` to `sink`, in order.
pub fn append_bytes(sink: &mut Vec<u8>, bytes: &Vec<u8>)
    ensures
        final(sink)@ == old(sink)@ + bytes@,
{
    let mut k: usize = 0;
    while k < bytes.len()
        invariant
            k <= bytes@.len(),
            sink@ == old(sink)@ + bytes@.take(k as int),
        decreases bytes@.len() - k,
    {
        let ghost before = sink@;
        sink.push(bytes[k]);
        proof {
            assert(bytes@.take(k + 1) =~= bytes@.take(k as int).push(bytes@[k as int]));
            assert(before.push(bytes@[k as int]) =~= old(sink)@ + bytes@.take(k + 1));
        }
        k = k + 1;
    }
    proof {
        assert(bytes@.take(bytes@.len() as int) =~= bytes@);
    }
}

/// Compares two byte vectors by their contents.
pub fn bytes_eq(a: &Vec<u8>, b: &Vec<u8>) -> (equal: bool)
    ensures
        equal == (a@ == b@),
{
    if a.len() != b.len() {
        return false;
    }
    let mut k: usize = 0;
    while k < a.len()
        invariant
            a@.len() == b@.len(),
            k <= a@.len(),
            forall|j: int| 0 <= j < k ==> a@[j] == b@[j],
        decreases a@.len() - k,
    {
        if a[k] != b[k] {
            return false;
        }
        k = k + 1;
    }
    proof {
        assert(a@ =~= b@);
    }
    true
}

/// Copies the bytes of `data` from position `from` on into a new
/// vector.
pub fn bytes_from(data: &Vec<u8>, from: usize) -> (tail: Vec<u8>)
    requires
        from <= data@.len(),
    ensures
        tail@ == data@.skip(from as int),
{
    let mut tail: Vec<u8> = Vec::new();
    let mut k: usize = from;
    while k < data.len()
        invariant
            from <= k <= data@.len(),
            tail@ == data@.subrange(from as int, k as int),
        decreases data@.len() - k,
    {
        let ghost before = tail@;
        tail.push(data[k]);
        proof {
            assert(before.push(data@[k as int]) =~= data@.subrange(from as int, k + 1));
        }
        k = k + 1;
    }
    proof {
        assert(data@.subrange(from as int, data@.len() as int) =~= data@.skip(from as int));
    }
    tail
}

/// Decides whether the bytes of `data` from position `at` on begin with
/// a well-formed UTF-8 encoding of a single Unicode scalar, and if so
/// how many bytes that encoding takes.
fn scalar_width_at(data: &Vec<u8>, at: usize) -> (width: Option<usize>)
    requires
        at < data@.len(),
    ensures
        ({
            let suffix = data@.subrange(at as int, data@.len() as int);
            match width {
                Some(w) => {
                    &&& valid_first_scalar(suffix)
                    &&& w == length_of_first_scalar(suffix)
                    &&& 1 <= w <= 4
                    &&& at + w <= data@.len()
                },
                None => !valid_first_scalar(suffix),
            }
        }),
{
    let ghost suffix = data@.subrange(at as int, data@.len() as int);
    let n = data.len();
    let b0 = data[at];
    if b0 <= 0x7f {
        // One byte: 0xxxxxxx.
        let cp: u32 = (b0 & 0x7f) as u32;
        proof {
            assert(suffix[0] == b0);
            assert(decode_first_codepoint(suffix) == codepoint_width_1(b0));
        }
        if 0xd800 <= cp && cp <= 0xdfff {
            return None;
        }
        Some(1)
    } else if b0 < 0xc0 {
        // A continuation byte cannot lead an encoding.
        proof {
            assert(suffix[0] == b0);
            assert(!valid_leading_and_continuation_bytes_first_codepoint(suffix));
        }
        None
    } else if b0 <= 0xdf {
        // Two bytes: 110xxxxx 10xxxxxx.
        if n - at < 2 {
            proof {
                assert(suffix[0] == b0);
                assert(!valid_leading_and_continuation_bytes_first_codepoint(suffix));
            }
            return None;
        }
        let b1 = data[at + 1];
        if !(0x80 <= b1 && b1 <= 0xbf) {
            proof {
                assert(suffix[0] == b0 && suffix[1] == b1);
                assert(!valid_leading_and_continuation_bytes_first_codepoint(suffix));
            }
            return None;
        }
        let cp: u32 = (((b0 & 0x1f) as u32) << 6u32) | ((b1 & 0x3f) as u32);
        proof {
            assert(suffix[0] == b0 && suffix[1] == b1);
            assert(decode_first_codepoint(suffix) == codepoint_width_2(b0, b1));
            assert(codepoint_width_2(b0, b1) == cp);
            assert(length_of_first_codepoint(suffix) == 2);
        }
        if cp < 0x80 {
            return None;
        }
        if 0xd800 <= cp && cp <= 0xdfff {
            return None;
        }
        Some(2)
    } else if b0 <= 0xef {
        // Three bytes: 1110xxxx 10xxxxxx 10xxxxxx.
        if n - at < 3 {
            proof {
                assert(suffix[0] == b0);
                assert(suffix.len() < 3);
                assert(!valid_leading_and_continuation_bytes_first_codepoint(suffix));
            }
            return None;
        }
        let b1 = data[at + 1];
        let b2 = data[at + 2];
        if !(0x80 <= b1 && b1 <= 0xbf) || !(0x80 <= b2 && b2 <= 0xbf) {
            proof {
                assert(suffix[0] == b0 && suffix[1] == b1 && suffix[2] == b2);
                assert(!valid_leading_and_continuation_bytes_first_codepoint(suffix));
            }
            return None;
        }
        let cp: u32 = (((b0 & 0x0f) as u32) << 12u32) | (((b1 & 0x3f) as u32) << 6u32) | ((b2
            & 0x3f) as u32);
        proof {
            assert(suffix[0] == b0 && suffix[1] == b1 && suffix[2] == b2);
            assert(decode_first_codepoint(suffix) == codepoint_width_3(b0, b1, b2));
            assert(codepoint_width_3(b0, b1, b2) == cp);
            assert(length_of_first_codepoint(suffix) == 3);
        }
        if cp < 0x800 {
            return None;
        }
        if 0xd800 <= cp && cp <= 0xdfff {
            return None;
        }
        Some(3)
    } else if b0 <= 0xf7 {
        // Four bytes: 11110xxx 10xxxxxx 10xxxxxx 10xxxxxx.
        if n - at < 4 {
            proof {
                assert(suffix[0] == b0);
                assert(suffix.len() < 4);
                assert(!valid_leading_and_continuation_bytes_first_codepoint(suffix));
            }
            return None;
        }
        let b1 = data[at + 1];
        let b2 = data[at + 2];
        let b3 = data[at + 3];
        if !(0x80 <= b1 && b1 <= 0xbf) || !(0x80 <= b2 && b2 <= 0xbf) || !(0x80 <= b3 && b3
            <= 0xbf) {
            proof {
                assert(suffix[0] == b0 && suffix[1] == b1 && suffix[2] == b2 && suffix[3] == b3);
                assert(!valid_leading_and_continuation_bytes_first_codepoint(suffix));
            }
            return None;
        }
        let cp: u32 = (((b0 & 0x07) as u32) << 18u32) | (((b1 & 0x3f) as u32) << 12u32) | (((b2
            & 0x3f) as u32) << 6u32) | ((b3 & 0x3f) as u32);
        proof {
            assert(suffix[0] == b0 && suffix[1] == b1 && suffix[2] == b2 && suffix[3] == b3);
            assert(decode_first_codepoint(suffix) == codepoint_width_4(b0, b1, b2, b3));
            assert(codepoint_width_4(b0, b1, b2, b3) == cp);
            assert(length_of_first_codepoint(suffix) == 4);
        }
        if cp < 0x10000 || cp > 0x10ffff {
            return None;
        }
        if 0xd800 <= cp && cp <= 0xdfff {
            return None;
        }
        Some(4)
    } else {
        // 0xf8 and above lead no encoding at all.
        proof {
            assert(suffix[0] == b0);
            assert(!valid_leading_and_continuation_bytes_first_codepoint(suffix));
        }
        None
    }
}

/// Decides whether `data` is a valid UTF-8 encoding.
pub fn is_valid_utf8(data: &Vec<u8>) -> (valid: bool)
    ensures
        valid == valid_utf8(data@),
{
    let n = data.len();
    let mut i: usize = 0;
    while i < n
        invariant
            n == data@.len(),
            i <= n,
            partial_valid_utf8(data@, i as int),
        decreases n - i,
    {
        let ghost suffix = data@.subrange(i as int, n as int);
        match scalar_width_at(data, i) {
            Some(width) => {
                proof {
                    partial_valid_utf8_extend(data@, i as int);
                }
                i = i + width;
            },
            None => {
                proof {
                    assert(suffix.len() > 0);
                    assert(!valid_utf8(suffix));
                    partial_valid_partial_invalid_utf8(data@, i as int);
                }
                return false;
            },
        }
    }
    proof {
        assert(data@.subrange(0, n as int) =~= data@);
    }
    true
}

} // verus!
