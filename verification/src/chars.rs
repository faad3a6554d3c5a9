//! Characters in byte sequences: where a well-formed UTF-8 character
//! begins, which scalar value it has, and whether that is white space or
//! a decimal digit.

use vstd::prelude::*;

verus! {

/// Whether `b` continues a character of several bytes.
pub open spec fn is_continuation(b: u8) -> bool {
    0x80 <= b <= 0xBF
}

/// The scalar value that two bytes encode.
pub open spec fn scalar2(b0: u8, b1: u8) -> int {
    (b0 - 0xC0) * 0x40 + (b1 - 0x80)
}

/// The scalar value that three bytes encode.
pub open spec fn scalar3(b0: u8, b1: u8, b2: u8) -> int {
    (b0 - 0xE0) * 0x1000 + (b1 - 0x80) * 0x40 + (b2 - 0x80)
}

/// The scalar value that four bytes encode.
pub open spec fn scalar4(b0: u8, b1: u8, b2: u8, b3: u8) -> int {
    (b0 - 0xF0) * 0x40000 + (b1 - 0x80) * 0x1000 + (b2 - 0x80) * 0x40 + (b3 - 0x80)
}

/// Number of bytes of the character that begins at position `i` of `s`;
/// 0 where no well-formed UTF-8 sequence begins there (overlong forms and
/// surrogates are not well-formed).
pub open spec fn char_len(s: Seq<u8>, i: int) -> int {
    if i < 0 || i >= s.len() {
        0
    } else if s[i] < 0x80 {
        1
    } else if 0xC2 <= s[i] <= 0xDF {
        if i + 1 < s.len() && is_continuation(s[i + 1]) {
            2
        } else {
            0
        }
    } else if 0xE0 <= s[i] <= 0xEF {
        if i + 2 < s.len() && is_continuation(s[i + 1]) && is_continuation(s[i + 2]) && 0x800
            <= scalar3(s[i], s[i + 1], s[i + 2]) && !(0xD800 <= scalar3(s[i], s[i + 1], s[i + 2])
            <= 0xDFFF) {
            3
        } else {
            0
        }
    } else if 0xF0 <= s[i] <= 0xF4 {
        if i + 3 < s.len() && is_continuation(s[i + 1]) && is_continuation(s[i + 2])
            && is_continuation(s[i + 3]) && 0x10000 <= scalar4(
            s[i],
            s[i + 1],
            s[i + 2],
            s[i + 3],
        ) <= 0x10FFFF {
            4
        } else {
            0
        }
    } else {
        0
    }
}

/// The scalar value of the character that begins at position `i` of `s`.
pub open spec fn char_value(s: Seq<u8>, i: int) -> int
    recommends
        char_len(s, i) > 0,
{
    if char_len(s, i) == 1 {
        s[i] as int
    } else if char_len(s, i) == 2 {
        scalar2(s[i], s[i + 1])
    } else if char_len(s, i) == 3 {
        scalar3(s[i], s[i + 1], s[i + 2])
    } else {
        scalar4(s[i], s[i + 1], s[i + 2], s[i + 3])
    }
}

/// Whether the character with the scalar value `c` is white space: tab to
/// carriage return, space, next line, the no-break spaces, the spaces of
/// fixed width, the line and paragraph separators, and the ideographic
/// space.
pub open spec fn is_white_space(c: int) -> bool {
    ||| 0x09 <= c <= 0x0D
    ||| c == 0x20
    ||| c == 0x85
    ||| c == 0xA0
    ||| c == 0x1680
    ||| 0x2000 <= c <= 0x200A
    ||| c == 0x2028
    ||| c == 0x2029
    ||| c == 0x202F
    ||| c == 0x205F
    ||| c == 0x3000
}

/// Whether the character with the scalar value `c` is a decimal digit:
/// one of the digits 0 to 9 of any script (the characters of the general
/// category Decimal_Number of Unicode 16.0).
pub open spec fn is_decimal_digit(c: int) -> bool {
    ||| 0x30 <= c <= 0x39
    ||| 0x660 <= c <= 0x669
    ||| 0x6F0 <= c <= 0x6F9
    ||| 0x7C0 <= c <= 0x7C9
    ||| 0x966 <= c <= 0x96F
    ||| 0x9E6 <= c <= 0x9EF
    ||| 0xA66 <= c <= 0xA6F
    ||| 0xAE6 <= c <= 0xAEF
    ||| 0xB66 <= c <= 0xB6F
    ||| 0xBE6 <= c <= 0xBEF
    ||| 0xC66 <= c <= 0xC6F
    ||| 0xCE6 <= c <= 0xCEF
    ||| 0xD66 <= c <= 0xD6F
    ||| 0xDE6 <= c <= 0xDEF
    ||| 0xE50 <= c <= 0xE59
    ||| 0xED0 <= c <= 0xED9
    ||| 0xF20 <= c <= 0xF29
    ||| 0x1040 <= c <= 0x1049
    ||| 0x1090 <= c <= 0x1099
    ||| 0x17E0 <= c <= 0x17E9
    ||| 0x1810 <= c <= 0x1819
    ||| 0x1946 <= c <= 0x194F
    ||| 0x19D0 <= c <= 0x19D9
    ||| 0x1A80 <= c <= 0x1A89
    ||| 0x1A90 <= c <= 0x1A99
    ||| 0x1B50 <= c <= 0x1B59
    ||| 0x1BB0 <= c <= 0x1BB9
    ||| 0x1C40 <= c <= 0x1C49
    ||| 0x1C50 <= c <= 0x1C59
    ||| 0xA620 <= c <= 0xA629
    ||| 0xA8D0 <= c <= 0xA8D9
    ||| 0xA900 <= c <= 0xA909
    ||| 0xA9D0 <= c <= 0xA9D9
    ||| 0xA9F0 <= c <= 0xA9F9
    ||| 0xAA50 <= c <= 0xAA59
    ||| 0xABF0 <= c <= 0xABF9
    ||| 0xFF10 <= c <= 0xFF19
    ||| 0x104A0 <= c <= 0x104A9
    ||| 0x10D30 <= c <= 0x10D39
    ||| 0x10D40 <= c <= 0x10D49
    ||| 0x11066 <= c <= 0x1106F
    ||| 0x110F0 <= c <= 0x110F9
    ||| 0x11136 <= c <= 0x1113F
    ||| 0x111D0 <= c <= 0x111D9
    ||| 0x112F0 <= c <= 0x112F9
    ||| 0x11450 <= c <= 0x11459
    ||| 0x114D0 <= c <= 0x114D9
    ||| 0x11650 <= c <= 0x11659
    ||| 0x116C0 <= c <= 0x116C9
    ||| 0x116D0 <= c <= 0x116E3
    ||| 0x11730 <= c <= 0x11739
    ||| 0x118E0 <= c <= 0x118E9
    ||| 0x11950 <= c <= 0x11959
    ||| 0x11BF0 <= c <= 0x11BF9
    ||| 0x11C50 <= c <= 0x11C59
    ||| 0x11D50 <= c <= 0x11D59
    ||| 0x11DA0 <= c <= 0x11DA9
    ||| 0x11F50 <= c <= 0x11F59
    ||| 0x16130 <= c <= 0x16139
    ||| 0x16A60 <= c <= 0x16A69
    ||| 0x16AC0 <= c <= 0x16AC9
    ||| 0x16B50 <= c <= 0x16B59
    ||| 0x16D70 <= c <= 0x16D79
    ||| 0x1CCF0 <= c <= 0x1CCF9
    ||| 0x1D7CE <= c <= 0x1D7FF
    ||| 0x1E140 <= c <= 0x1E149
    ||| 0x1E2F0 <= c <= 0x1E2F9
    ||| 0x1E4F0 <= c <= 0x1E4F9
    ||| 0x1E5F1 <= c <= 0x1E5FA
    ||| 0x1E950 <= c <= 0x1E959
    ||| 0x1FBF0 <= c <= 0x1FBF9
}

/// A character is one to four bytes long and ends within `s`.
pub proof fn lemma_char_bounds(s: Seq<u8>, i: int)
    ensures
        0 <= char_len(s, i) <= 4,
        char_len(s, i) > 0 ==> 0 <= i && i + char_len(s, i) <= s.len(),
{
}

fn continuation(b: u8) -> (r: bool)
    ensures
        r == is_continuation(b),
{
    0x80 <= b && b <= 0xBF
}

/// Whether the character with the scalar value `c` is white space.
pub fn white_space(c: u32) -> (r: bool)
    ensures
        r == is_white_space(c as int),
{
    (0x09 <= c && c <= 0x0D) || c == 0x20 || c == 0x85 || c == 0xA0 || c == 0x1680 || (0x2000 <= c
        && c <= 0x200A) || c == 0x2028 || c == 0x2029 || c == 0x202F || c == 0x205F || c == 0x3000
}

/// The character that begins at position `i` of `s`: the number of its
/// bytes and its scalar value; `(0, 0)` where no well-formed character
/// begins there.
pub fn char_at(s: &[u8], i: usize) -> (r: (usize, u32))
    ensures
        r.0 == char_len(s@, i as int),
        r.0 > 0 ==> r.1 == char_value(s@, i as int),
        r.0 == 0 ==> r.1 == 0,
        i + r.0 <= s@.len() || r.0 == 0,
{
    let n = s.len();
    if i >= n {
        return (0, 0);
    }
    let b0 = s[i];
    if b0 < 0x80 {
        (1, b0 as u32)
    } else if 0xC2 <= b0 && b0 <= 0xDF {
        if n - i > 1 && continuation(s[i + 1]) {
            (2, (b0 as u32 - 0xC0) * 0x40 + (s[i + 1] as u32 - 0x80))
        } else {
            (0, 0)
        }
    } else if 0xE0 <= b0 && b0 <= 0xEF {
        if n - i > 2 && continuation(s[i + 1]) && continuation(s[i + 2]) {
            let c: u32 = (b0 as u32 - 0xE0) * 0x1000 + (s[i + 1] as u32 - 0x80) * 0x40 + (s[i
                + 2] as u32 - 0x80);
            if 0x800 <= c && !(0xD800 <= c && c <= 0xDFFF) {
                (3, c)
            } else {
                (0, 0)
            }
        } else {
            (0, 0)
        }
    } else if 0xF0 <= b0 && b0 <= 0xF4 {
        if n - i > 3 && continuation(s[i + 1]) && continuation(s[i + 2]) && continuation(
            s[i + 3],
        ) {
            let c: u32 = (b0 as u32 - 0xF0) * 0x40000 + (s[i + 1] as u32 - 0x80) * 0x1000 + (s[i
                + 2] as u32 - 0x80) * 0x40 + (s[i + 3] as u32 - 0x80);
            if 0x10000 <= c && c <= 0x10FFFF {
                (4, c)
            } else {
                (0, 0)
            }
        } else {
            (0, 0)
        }
    } else {
        (0, 0)
    }
}

/// Whether the character with the scalar value `c` is a decimal digit.
pub fn decimal_digit(c: u32) -> (r: bool)
    ensures
        r == is_decimal_digit(c as int),
{
    (0x30 <= c && c <= 0x39) ||
        (0x660 <= c && c <= 0x669) ||
        (0x6F0 <= c && c <= 0x6F9) ||
        (0x7C0 <= c && c <= 0x7C9) ||
        (0x966 <= c && c <= 0x96F) ||
        (0x9E6 <= c && c <= 0x9EF) ||
        (0xA66 <= c && c <= 0xA6F) ||
        (0xAE6 <= c && c <= 0xAEF) ||
        (0xB66 <= c && c <= 0xB6F) ||
        (0xBE6 <= c && c <= 0xBEF) ||
        (0xC66 <= c && c <= 0xC6F) ||
        (0xCE6 <= c && c <= 0xCEF) ||
        (0xD66 <= c && c <= 0xD6F) ||
        (0xDE6 <= c && c <= 0xDEF) ||
        (0xE50 <= c && c <= 0xE59) ||
        (0xED0 <= c && c <= 0xED9) ||
        (0xF20 <= c && c <= 0xF29) ||
        (0x1040 <= c && c <= 0x1049) ||
        (0x1090 <= c && c <= 0x1099) ||
        (0x17E0 <= c && c <= 0x17E9) ||
        (0x1810 <= c && c <= 0x1819) ||
        (0x1946 <= c && c <= 0x194F) ||
        (0x19D0 <= c && c <= 0x19D9) ||
        (0x1A80 <= c && c <= 0x1A89) ||
        (0x1A90 <= c && c <= 0x1A99) ||
        (0x1B50 <= c && c <= 0x1B59) ||
        (0x1BB0 <= c && c <= 0x1BB9) ||
        (0x1C40 <= c && c <= 0x1C49) ||
        (0x1C50 <= c && c <= 0x1C59) ||
        (0xA620 <= c && c <= 0xA629) ||
        (0xA8D0 <= c && c <= 0xA8D9) ||
        (0xA900 <= c && c <= 0xA909) ||
        (0xA9D0 <= c && c <= 0xA9D9) ||
        (0xA9F0 <= c && c <= 0xA9F9) ||
        (0xAA50 <= c && c <= 0xAA59) ||
        (0xABF0 <= c && c <= 0xABF9) ||
        (0xFF10 <= c && c <= 0xFF19) ||
        (0x104A0 <= c && c <= 0x104A9) ||
        (0x10D30 <= c && c <= 0x10D39) ||
        (0x10D40 <= c && c <= 0x10D49) ||
        (0x11066 <= c && c <= 0x1106F) ||
        (0x110F0 <= c && c <= 0x110F9) ||
        (0x11136 <= c && c <= 0x1113F) ||
        (0x111D0 <= c && c <= 0x111D9) ||
        (0x112F0 <= c && c <= 0x112F9) ||
        (0x11450 <= c && c <= 0x11459) ||
        (0x114D0 <= c && c <= 0x114D9) ||
        (0x11650 <= c && c <= 0x11659) ||
        (0x116C0 <= c && c <= 0x116C9) ||
        (0x116D0 <= c && c <= 0x116E3) ||
        (0x11730 <= c && c <= 0x11739) ||
        (0x118E0 <= c && c <= 0x118E9) ||
        (0x11950 <= c && c <= 0x11959) ||
        (0x11BF0 <= c && c <= 0x11BF9) ||
        (0x11C50 <= c && c <= 0x11C59) ||
        (0x11D50 <= c && c <= 0x11D59) ||
        (0x11DA0 <= c && c <= 0x11DA9) ||
        (0x11F50 <= c && c <= 0x11F59) ||
        (0x16130 <= c && c <= 0x16139) ||
        (0x16A60 <= c && c <= 0x16A69) ||
        (0x16AC0 <= c && c <= 0x16AC9) ||
        (0x16B50 <= c && c <= 0x16B59) ||
        (0x16D70 <= c && c <= 0x16D79) ||
        (0x1CCF0 <= c && c <= 0x1CCF9) ||
        (0x1D7CE <= c && c <= 0x1D7FF) ||
        (0x1E140 <= c && c <= 0x1E149) ||
        (0x1E2F0 <= c && c <= 0x1E2F9) ||
        (0x1E4F0 <= c && c <= 0x1E4F9) ||
        (0x1E5F1 <= c && c <= 0x1E5FA) ||
        (0x1E950 <= c && c <= 0x1E959) ||
        (0x1FBF0 <= c && c <= 0x1FBF9)
}

} // verus!
