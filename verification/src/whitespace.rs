//! The characters that separate words.

use vstd::prelude::*;

verus! {

/// Whether the scalar value `code` carries the Unicode property White_Space:
/// the ASCII controls from tab to carriage return, the space, next line,
/// the no-break space, the Ogham space mark, the spaces of fixed width from
/// en quad to hair space, the line and paragraph separators, the narrow
/// no-break space, the medium mathematical space and the ideographic space.
pub open spec fn is_whitespace_code(code: u32) -> bool {
    ||| 0x0009 <= code <= 0x000D
    ||| code == 0x0020
    ||| code == 0x0085
    ||| code == 0x00A0
    ||| code == 0x1680
    ||| 0x2000 <= code <= 0x200A
    ||| code == 0x2028
    ||| code == 0x2029
    ||| code == 0x202F
    ||| code == 0x205F
    ||| code == 0x3000
}

/// Whether `c` is a white-space character.
pub open spec fn is_whitespace(c: char) -> bool {
    is_whitespace_code(c as u32)
}

/// Decides [`is_whitespace_code`].
pub fn scalar_is_whitespace(code: u32) -> (white: bool)
    ensures
        white == is_whitespace_code(code),
{
    if code < 0x80 {
        (0x09 <= code && code <= 0x0D) || code == 0x20
    } else if code < 0x1680 {
        code == 0x85 || code == 0xA0
    } else {
        code == 0x1680 || (0x2000 <= code && code <= 0x200A) || code == 0x2028 || code == 0x2029
            || code == 0x202F || code == 0x205F || code == 0x3000
    }
}

/// Decides [`is_whitespace`].
pub fn char_is_whitespace(c: char) -> (white: bool)
    ensures
        white == is_whitespace(c),
{
    scalar_is_whitespace(c as u32)
}

} // verus!
