//! The markup scanner: cuts a message into parts, each with the colour
//! code that it is shown in.
//!
//! A marker is `$`, then `C` or `c`, then three decimal digits and one
//! whole character that is no white space. The digits and the character
//! are the marker's colour code. A character is a well-formed UTF-8
//! sequence of one to four bytes; decimal digits and white space are what
//! Unicode lists as such. Only a code whose digits are `0` to `9` can be
//! read; any other compiles as the default code.
//!
//! A marker applies to the text behind it, up to the next marker, the next
//! line break or the end of the message. Text that no marker stands in
//! front of (at the start of the message, or behind a line break) is a
//! part of its own, under the default code. The line break that ends a
//! part belongs to it, and is never styled.
//!
//! A message without any marker is one part, line breaks included.

use crate::buffers::{copy_range, to_vec};
use crate::chars::{
    char_at, char_len, char_value, decimal_digit, is_decimal_digit, is_white_space,
    lemma_char_bounds, white_space,
};
use vstd::prelude::*;

verus! {

/// A piece of a message with the colour code that it is shown in.
#[derive(Debug, Clone)]
pub struct MarkupPart {
    /// The bytes of the colour code: three digits and one character.
    pub code: Vec<u8>,
    /// The text that the code applies to.
    pub text: Vec<u8>,
    /// The carriage returns and line feeds that follow the text.
    pub eol: Vec<u8>,
}

/// A `MarkupPart` as three byte sequences.
pub struct PartView {
    pub code: Seq<u8>,
    pub text: Seq<u8>,
    pub eol: Seq<u8>,
}

impl View for MarkupPart {
    type V = PartView;

    open spec fn view(&self) -> PartView {
        PartView { code: self.code@, text: self.text@, eol: self.eol@ }
    }
}

/// The parts of a vector, each by its view.
pub open spec fn part_views(parts: Seq<MarkupPart>) -> Seq<PartView> {
    parts.map_values(|part: MarkupPart| part@)
}

pub open spec fn is_digit(b: u8) -> bool {
    '0' as u8 <= b <= '9' as u8
}

/// Carriage return or line feed.
pub open spec fn is_eol(b: u8) -> bool {
    b == '\r' as u8 || b == '\n' as u8
}

/// Number of bytes of the decimal digit that begins at position `i` of
/// `s`; 0 where none begins there.
pub open spec fn digit_len(s: Seq<u8>, i: int) -> int {
    if char_len(s, i) > 0 && is_decimal_digit(char_value(s, i)) {
        char_len(s, i)
    } else {
        0
    }
}

/// Number of bytes of the marker that begins at position `i` of `s`; 0
/// where none begins there.
pub open spec fn marker_len(s: Seq<u8>, i: int) -> int {
    if 0 <= i && i + 1 < s.len() && s[i] == '$' as u8 && (s[i + 1] == 'C' as u8 || s[i + 1]
        == 'c' as u8) {
        let first = digit_len(s, i + 2);
        let second = digit_len(s, i + 2 + first);
        let third = digit_len(s, i + 2 + first + second);
        let last = char_len(s, i + 2 + first + second + third);
        if first > 0 && second > 0 && third > 0 && last > 0 && !is_white_space(
            char_value(s, i + 2 + first + second + third),
        ) {
            2 + first + second + third + last
        } else {
            0
        }
    } else {
        0
    }
}

/// Whether a marker begins at position `i` of `s`.
pub open spec fn marker_at(s: Seq<u8>, i: int) -> bool {
    marker_len(s, i) > 0
}

/// Whether `code` can be read as a colour code: three of the digits `0`
/// to `9` and one whole character that is no white space, and nothing
/// else. The code of a marker whose digits are of another script cannot.
pub open spec fn is_code(code: Seq<u8>) -> bool {
    &&& code.len() >= 4
    &&& is_digit(code[0])
    &&& is_digit(code[1])
    &&& is_digit(code[2])
    &&& char_len(code, 3) == code.len() - 3
    &&& !is_white_space(char_value(code, 3))
}

/// A marker is six to eighteen bytes long, begins with `$` and ends
/// within `s`.
pub proof fn lemma_marker_bounds(s: Seq<u8>, i: int)
    ensures
        marker_len(s, i) == 0 || 6 <= marker_len(s, i) <= 18,
        marker_at(s, i) ==> 0 <= i && i + marker_len(s, i) <= s.len() && s[i] == '$' as u8,
{
    if marker_at(s, i) {
        let first = digit_len(s, i + 2);
        let second = digit_len(s, i + 2 + first);
        let third = digit_len(s, i + 2 + first + second);
        lemma_char_bounds(s, i + 2);
        lemma_char_bounds(s, i + 2 + first);
        lemma_char_bounds(s, i + 2 + first + second);
        lemma_char_bounds(s, i + 2 + first + second + third);
    }
}

/// Whether `s` holds a marker anywhere.
pub open spec fn has_marker(s: Seq<u8>) -> bool {
    exists|i: int| marker_at(s, i)
}

/// Length of the text that begins at position `i`: it runs up to the next
/// line break, the next marker or the end of `s`.
pub open spec fn text_len(s: Seq<u8>, i: int) -> nat
    decreases s.len() - i,
{
    if i < 0 || i >= s.len() || is_eol(s[i]) || marker_at(s, i) {
        0
    } else {
        1 + text_len(s, i + 1)
    }
}

/// Length of the run of carriage returns and line feeds at position `i`.
pub open spec fn eol_len(s: Seq<u8>, i: int) -> nat
    decreases s.len() - i,
{
    if 0 <= i < s.len() && is_eol(s[i]) {
        1 + eol_len(s, i + 1)
    } else {
        0
    }
}

/// Where the text of the part that begins at position `i` begins: behind
/// the marker, if one stands there.
pub open spec fn text_start(s: Seq<u8>, i: int) -> int {
    i + marker_len(s, i)
}

/// Where the part that begins at position `i` ends.
pub open spec fn part_end(s: Seq<u8>, i: int) -> int {
    let start = text_start(s, i);
    let text_end = start + text_len(s, start);
    text_end + eol_len(s, text_end)
}

/// The part that begins at position `i` of `s`.
pub open spec fn part_at(s: Seq<u8>, i: int, default: Seq<u8>) -> PartView {
    let start = text_start(s, i);
    let text_end = start + text_len(s, start);
    PartView {
        code: if marker_at(s, i) {
            s.subrange(i + 2, i + marker_len(s, i))
        } else {
            default
        },
        text: s.subrange(start, text_end),
        eol: s.subrange(text_end, part_end(s, i)),
    }
}

/// A part is never empty, and ends within `s`.
pub proof fn lemma_part_bounds(s: Seq<u8>, i: int)
    requires
        0 <= i < s.len(),
    ensures
        i < part_end(s, i) <= s.len(),
        i <= text_start(s, i) <= text_start(s, i) + text_len(s, text_start(s, i)) <= part_end(
            s,
            i,
        ),
{
    let start = text_start(s, i);
    lemma_marker_bounds(s, i);
    lemma_text_bound(s, start);
    lemma_eol_bound(s, start + text_len(s, start));
}

pub proof fn lemma_text_bound(s: Seq<u8>, i: int)
    requires
        0 <= i <= s.len(),
    ensures
        i + text_len(s, i) <= s.len(),
    decreases s.len() - i,
{
    if i < s.len() && !is_eol(s[i]) && !marker_at(s, i) {
        lemma_text_bound(s, i + 1);
    }
}

pub proof fn lemma_eol_bound(s: Seq<u8>, i: int)
    requires
        0 <= i <= s.len(),
    ensures
        i + eol_len(s, i) <= s.len(),
    decreases s.len() - i,
{
    if i < s.len() && is_eol(s[i]) {
        lemma_eol_bound(s, i + 1);
    }
}

/// The parts of `s` from position `i` on.
pub open spec fn parts_from(s: Seq<u8>, i: int, default: Seq<u8>) -> Seq<PartView>
    decreases s.len() - i,
    via parts_from_decreases
{
    if i < 0 || i >= s.len() {
        Seq::empty()
    } else {
        seq![part_at(s, i, default)] + parts_from(s, part_end(s, i), default)
    }
}

#[via_fn]
proof fn parts_from_decreases(s: Seq<u8>, i: int, default: Seq<u8>) {
    if 0 <= i < s.len() {
        lemma_part_bounds(s, i);
    }
}

/// The parts of a message. One without any marker is a single part under
/// the default code.
pub open spec fn scan(s: Seq<u8>, default: Seq<u8>) -> Seq<PartView> {
    if has_marker(s) {
        parts_from(s, 0, default)
    } else {
        seq![PartView { code: default, text: s, eol: Seq::empty() }]
    }
}

/// `s` from position `i` on, with every marker taken out: scanning from
/// the left, a marker is skipped, any other byte is kept.
pub open spec fn unmarked(s: Seq<u8>, i: int) -> Seq<u8>
    decreases s.len() - i,
    via unmarked_decreases
{
    if i < 0 || i >= s.len() {
        Seq::empty()
    } else if marker_at(s, i) {
        unmarked(s, i + marker_len(s, i))
    } else {
        seq![s[i]] + unmarked(s, i + 1)
    }
}

#[via_fn]
proof fn unmarked_decreases(s: Seq<u8>, i: int) {
    lemma_marker_bounds(s, i);
}

/// The text of a part is kept whole when the markers are taken out.
pub proof fn lemma_unmarked_text(s: Seq<u8>, i: int)
    requires
        0 <= i <= s.len(),
    ensures
        unmarked(s, i) == s.subrange(i, i + text_len(s, i)) + unmarked(s, i + text_len(s, i)),
    decreases s.len() - i,
{
    lemma_text_bound(s, i);
    if i < s.len() && !is_eol(s[i]) && !marker_at(s, i) {
        lemma_unmarked_text(s, i + 1);
        lemma_text_bound(s, i + 1);
        assert(seq![s[i]] + s.subrange(i + 1, i + 1 + text_len(s, i + 1)) =~= s.subrange(
            i,
            i + text_len(s, i),
        ));
        assert(unmarked(s, i) =~= s.subrange(i, i + text_len(s, i)) + unmarked(
            s,
            i + text_len(s, i),
        ));
    } else {
        assert(s.subrange(i, i) + unmarked(s, i) =~= unmarked(s, i));
    }
}

/// The line break of a part is kept whole when the markers are taken out.
pub proof fn lemma_unmarked_eol(s: Seq<u8>, i: int)
    requires
        0 <= i <= s.len(),
    ensures
        unmarked(s, i) == s.subrange(i, i + eol_len(s, i)) + unmarked(s, i + eol_len(s, i)),
    decreases s.len() - i,
{
    lemma_eol_bound(s, i);
    if i < s.len() && is_eol(s[i]) {
        lemma_unmarked_eol(s, i + 1);
        lemma_eol_bound(s, i + 1);
        lemma_marker_bounds(s, i);
        assert(!marker_at(s, i));
        assert(seq![s[i]] + s.subrange(i + 1, i + 1 + eol_len(s, i + 1)) =~= s.subrange(
            i,
            i + eol_len(s, i),
        ));
        assert(unmarked(s, i) =~= s.subrange(i, i + eol_len(s, i)) + unmarked(
            s,
            i + eol_len(s, i),
        ));
    } else {
        assert(s.subrange(i, i) + unmarked(s, i) =~= unmarked(s, i));
    }
}

/// Taking the markers out of a message that holds none leaves it as it is.
pub proof fn lemma_unmarked_plain(s: Seq<u8>, i: int)
    requires
        !has_marker(s),
        0 <= i <= s.len(),
    ensures
        unmarked(s, i) == s.skip(i),
    decreases s.len() - i,
{
    if i < s.len() {
        assert(!marker_at(s, i));
        lemma_unmarked_plain(s, i + 1);
        assert(seq![s[i]] + s.skip(i + 1) =~= s.skip(i));
    } else {
        assert(s.skip(i) =~= Seq::<u8>::empty());
    }
}

fn digit(b: u8) -> (r: bool)
    ensures
        r == is_digit(b),
{
    '0' as u8 <= b && b <= '9' as u8
}

fn eol(b: u8) -> (r: bool)
    ensures
        r == is_eol(b),
{
    b == '\r' as u8 || b == '\n' as u8
}

/// The decimal digit that begins at position `i` of `s`: the number of
/// its bytes, 0 where none begins there.
fn digit_length(s: &[u8], i: usize) -> (len: usize)
    ensures
        len == digit_len(s@, i as int),
        len <= 4,
        len > 0 ==> i + len <= s@.len(),
{
    let (len, value) = char_at(s, i);
    proof {
        lemma_char_bounds(s@, i as int);
    }
    if len > 0 && decimal_digit(value) {
        len
    } else {
        0
    }
}

/// Number of bytes of the marker that begins at position `i` of `s`; 0
/// where none begins there.
pub fn marker_length(s: &[u8], i: usize) -> (len: usize)
    ensures
        len == marker_len(s@, i as int),
        len > 0 ==> i + len <= s@.len(),
{
    if i >= s.len() || s.len() - i < 2 {
        return 0;
    }
    if !(s[i] == '$' as u8 && (s[i + 1] == 'C' as u8 || s[i + 1] == 'c' as u8)) {
        return 0;
    }
    let first = digit_length(s, i + 2);
    if first == 0 {
        return 0;
    }
    let second = digit_length(s, i + 2 + first);
    if second == 0 {
        return 0;
    }
    let third = digit_length(s, i + 2 + first + second);
    if third == 0 {
        return 0;
    }
    let (last, value) = char_at(s, i + 2 + first + second + third);
    proof {
        lemma_char_bounds(s@, i + 2 + first + second + third);
    }
    if last > 0 && !white_space(value) {
        2 + first + second + third + last
    } else {
        0
    }
}

/// Whether `code` can be read as a colour code.
pub fn has_code_form(code: &[u8]) -> (r: bool)
    ensures
        r == is_code(code@),
{
    if code.len() < 4 || !digit(code[0]) || !digit(code[1]) || !digit(code[2]) {
        return false;
    }
    let (len, value) = char_at(code, 3);
    len > 0 && len == code.len() - 3 && !white_space(value)
}

/// Whether a marker begins at position `i` of `s`.
pub fn is_marker_at(s: &[u8], i: usize) -> (r: bool)
    ensures
        r == marker_at(s@, i as int),
{
    marker_length(s, i) > 0
}

/// Whether `s` holds a marker anywhere.
pub fn contains_marker(s: &[u8]) -> (r: bool)
    ensures
        r == has_marker(s@),
{
    let mut i: usize = 0;
    while i < s.len()
        invariant
            i <= s.len(),
            forall|j: int| 0 <= j < i ==> !marker_at(s@, j),
        decreases s.len() - i,
    {
        if is_marker_at(s, i) {
            return true;
        }
        i = i + 1;
    }
    false
}

/// End of the text that begins at position `i`.
fn text_end(s: &[u8], i: usize) -> (end: usize)
    requires
        i <= s@.len(),
    ensures
        end == i + text_len(s@, i as int),
        end <= s@.len(),
{
    let mut j: usize = i;
    while j < s.len() && !eol(s[j]) && !is_marker_at(s, j)
        invariant
            i <= j <= s@.len(),
            j + text_len(s@, j as int) == i + text_len(s@, i as int),
        decreases s@.len() - j,
    {
        j = j + 1;
    }
    j
}

/// End of the run of line break bytes at position `i`.
fn eol_end(s: &[u8], i: usize) -> (end: usize)
    requires
        i <= s@.len(),
    ensures
        end == i + eol_len(s@, i as int),
        end <= s@.len(),
{
    let mut j: usize = i;
    while j < s.len() && eol(s[j])
        invariant
            i <= j <= s@.len(),
            j + eol_len(s@, j as int) == i + eol_len(s@, i as int),
        decreases s@.len() - j,
    {
        j = j + 1;
    }
    j
}

/// Cuts `message` into its parts. Text without a marker of its own gets
/// the code `default`.
pub fn scan_markup(message: &[u8], default: &[u8]) -> (parts: Vec<MarkupPart>)
    ensures
        part_views(parts@) == scan(message@, default@),
{
    let mut parts: Vec<MarkupPart> = Vec::new();
    if !contains_marker(message) {
        let part = MarkupPart { code: to_vec(default), text: to_vec(message), eol: Vec::new() };
        parts.push(part);
        assert(part_views(parts@) =~= scan(message@, default@));
        return parts;
    }
    let mut i: usize = 0;
    while i < message.len()
        invariant
            i <= message@.len(),
            parts_from(message@, 0, default@) == part_views(parts@) + parts_from(
                message@,
                i as int,
                default@,
            ),
        decreases message@.len() - i,
    {
        proof {
            lemma_part_bounds(message@, i as int);
        }
        let marker = marker_length(message, i);
        let start = i + marker;
        let code = if marker > 0 {
            copy_range(message, i + 2, start)
        } else {
            to_vec(default)
        };
        let stop = text_end(message, start);
        let end = eol_end(message, stop);
        let part = MarkupPart {
            code,
            text: copy_range(message, start, stop),
            eol: copy_range(message, stop, end),
        };
        assert(part@ == part_at(message@, i as int, default@));
        let ghost before = part_views(parts@);
        parts.push(part);
        assert(part_views(parts@) =~= before.push(part@));
        assert(before.push(part@) + parts_from(message@, end as int, default@) =~= before
            + parts_from(message@, i as int, default@));
        i = end;
    }
    assert(part_views(parts@) + Seq::<PartView>::empty() =~= part_views(parts@));
    parts
}

} // verus!
