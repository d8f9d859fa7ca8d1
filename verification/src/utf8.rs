//! Reading UTF-8: one scalar value at a time, and a whole byte string.
//!
//! What a well-formed encoding is, and which characters it stands for, is
//! taken from `vstd::utf8`.

use vstd::prelude::*;
use vstd::utf8::*;

verus! {

/// The bytes of `bytes` from position `pos` to the end.
pub open spec fn bytes_from(bytes: Seq<u8>, pos: int) -> Seq<u8> {
    bytes.subrange(pos, bytes.len() as int)
}

/// Only the empty text is encoded by no bytes at all.
pub proof fn lemma_encoding_empty_iff(text: Seq<char>)
    ensures
        encode_utf8(text).len() == 0 <==> text.len() == 0,
{
    if text.len() > 0 {
        assert(encode_scalar(text[0] as u32).len() >= 1);
    }
}

/// A text takes at least one byte for each of its characters.
pub proof fn lemma_encoding_at_least_len(text: Seq<char>)
    ensures
        encode_utf8(text).len() >= text.len(),
    decreases text.len(),
{
    if text.len() > 0 {
        assert(encode_scalar(text[0] as u32).len() >= 1);
        lemma_encoding_at_least_len(text.drop_first());
    }
}

/// Whether `byte` can follow a leading byte: its two top bits are `10`.
fn is_continuation(byte: u8) -> (yes: bool)
    ensures
        yes == is_continuation_byte(byte),
{
    0x80 <= byte && byte <= 0xBF
}

/// Reads the scalar value whose encoding starts at `pos`.
///
/// Gives the value and the number of bytes it takes, or `None` where `pos`
/// is not inside `bytes` or the bytes from `pos` on do not start with a
/// well-formed encoding: a stray continuation byte, a sequence cut short, an
/// overlong form, a surrogate or a value beyond U+10FFFF.
pub fn decode_scalar(bytes: &[u8], pos: usize) -> (decoded: Option<(u32, usize)>)
    ensures
        decoded is Some <==> pos < bytes@.len() && valid_first_scalar(
            bytes_from(bytes@, pos as int),
        ),
        decoded matches Some((code, width)) ==> {
            &&& code == decode_first_scalar(bytes_from(bytes@, pos as int))
            &&& width == length_of_first_scalar(bytes_from(bytes@, pos as int))
            &&& 1 <= width <= 4
            &&& pos + width <= bytes@.len() <= usize::MAX
            &&& is_scalar(code)
        },
{
    if pos >= bytes.len() {
        return None;
    }
    let ghost rest = bytes_from(bytes@, pos as int);
    let avail = bytes.len() - pos;
    let b0 = bytes[pos];
    assert(rest[0] == b0);
    if b0 < 0x80 {
        assert((b0 & 0x7F) as u32 <= 0x7F) by (bit_vector);
        Some(((b0 & 0x7F) as u32, 1))
    } else if 0xC0 <= b0 && b0 <= 0xDF {
        if avail < 2 {
            return None;
        }
        let b1 = bytes[pos + 1];
        assert(rest[1] == b1);
        if !is_continuation(b1) {
            return None;
        }
        let code = (((b0 & 0x1F) as u32) << 6) | ((b1 & 0x3F) as u32);
        if code < 0x80 {
            return None;
        }
        assert((((b0 & 0x1F) as u32) << 6) | ((b1 & 0x3F) as u32) <= 0x7FF) by (bit_vector);
        Some((code, 2))
    } else if 0xE0 <= b0 && b0 <= 0xEF {
        if avail < 3 {
            return None;
        }
        let b1 = bytes[pos + 1];
        let b2 = bytes[pos + 2];
        assert(rest[1] == b1 && rest[2] == b2);
        if !is_continuation(b1) || !is_continuation(b2) {
            return None;
        }
        let code = (((b0 & 0x0F) as u32) << 12) | (((b1 & 0x3F) as u32) << 6) | ((b2 & 0x3F) as u32);
        if code < 0x800 || (0xD800 <= code && code <= 0xDFFF) {
            return None;
        }
        assert((((b0 & 0x0F) as u32) << 12) | (((b1 & 0x3F) as u32) << 6) | ((b2 & 0x3F) as u32)
            <= 0xFFFF) by (bit_vector);
        Some((code, 3))
    } else if 0xF0 <= b0 && b0 <= 0xF7 {
        if avail < 4 {
            return None;
        }
        let b1 = bytes[pos + 1];
        let b2 = bytes[pos + 2];
        let b3 = bytes[pos + 3];
        assert(rest[1] == b1 && rest[2] == b2 && rest[3] == b3);
        if !is_continuation(b1) || !is_continuation(b2) || !is_continuation(b3) {
            return None;
        }
        let code = (((b0 & 0x07) as u32) << 18) | (((b1 & 0x3F) as u32) << 12) | (((b2 & 0x3F) as u32)
            << 6) | ((b3 & 0x3F) as u32);
        if code < 0x10000 || code > 0x10FFFF {
            return None;
        }
        Some((code, 4))
    } else {
        None
    }
}

/// Whether `bytes` is a well-formed UTF-8 encoding of some text.
pub fn is_valid_utf8(bytes: &[u8]) -> (valid: bool)
    ensures
        valid == valid_utf8(bytes@),
{
    let len = bytes.len();
    let mut pos: usize = 0;
    assert(bytes_from(bytes@, 0) =~= bytes@);
    while pos < len
        invariant
            len == bytes@.len(),
            pos <= len,
            valid_utf8(bytes@) == valid_utf8(bytes_from(bytes@, pos as int)),
        decreases len - pos,
    {
        match decode_scalar(bytes, pos) {
            None => {
                return false;
            },
            Some((_, width)) => {
                assert(pop_first_scalar(bytes_from(bytes@, pos as int)) =~= bytes_from(
                    bytes@,
                    pos + width,
                ));
                pos = pos + width;
            },
        }
    }
    true
}

/// Reads the next character of a well-formed encoding: its scalar value and
/// the position at which the character after it starts.
pub(crate) fn next_scalar(bytes: &[u8], pos: usize) -> (next: (u32, usize))
    requires
        pos < bytes@.len(),
        valid_utf8(bytes_from(bytes@, pos as int)),
    ensures
        next.0 == decode_first_scalar(bytes_from(bytes@, pos as int)),
        next.1 == pos + length_of_first_scalar(bytes_from(bytes@, pos as int)),
        pos < next.1 <= bytes@.len(),
        is_scalar(next.0),
        valid_utf8(bytes_from(bytes@, next.1 as int)),
        decode_utf8(bytes_from(bytes@, pos as int)) == seq![next.0 as char] + decode_utf8(
            bytes_from(bytes@, next.1 as int),
        ),
{
    match decode_scalar(bytes, pos) {
        Some((code, width)) => {
            assert(pop_first_scalar(bytes_from(bytes@, pos as int)) =~= bytes_from(
                bytes@,
                pos + width,
            ));
            (code, pos + width)
        },
        None => vstd::pervasive::unreached(),
    }
}

} // verus!
