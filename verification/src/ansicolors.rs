//! Colour codes and the compiler: the styles, the colour tables, the
//! compilation of a colour code into terminal attributes, and the bytes
//! that a message compiles to.
//!
//! A code is `<S><B><FF>`: a style digit, a background digit and a
//! foreground selector of two characters. Each of the three is looked up
//! in its table on its own, and each has a fallback; bytes that have not
//! the form of a code compile as the default code. So every code compiles.
//!
//! In ANSI mode a style is switched on in front of a text that is shown in
//! another style than the text of the part before it, and in front of the
//! first text. A text in the style of the part before it goes out bare,
//! whether a line break stands between the two or not. A style that is on
//! is switched off in front of the next style, in front of a line break,
//! and at the end of the message.

use crate::buffers::append_bytes;
use crate::markup::{
    has_code_form, has_marker, is_code, lemma_part_bounds, lemma_unmarked_eol,
    lemma_unmarked_plain, lemma_unmarked_text, part_at, part_end, part_views, parts_from, scan,
    scan_markup, text_len, text_start, unmarked, MarkupPart, PartView,
};
use crate::sgr::{sgr_reset, sgr_sequence, style_prefix, style_suffix};
use std::collections::HashMap;
use vstd::prelude::*;
use vstd::utf8::encode_utf8;

verus! {

/// A text attribute that a colour code can select.
#[derive(Debug, Clone, Copy, PartialEq, Eq, Structural)]
pub enum Styles {
    Normal,
    Bold,
    Faint,
    Italic,
    Underline,
    Blink,
    Negative,
}

/// One of the eight terminal colours.
#[derive(Debug, Clone, Copy, PartialEq, Eq, Structural)]
pub enum Color {
    Black,
    Red,
    Green,
    Yellow,
    Blue,
    Purple,
    Cyan,
    White,
}

impl Color {
    /// The colour's number in the terminal's palette.
    pub open spec fn index_spec(self) -> int {
        match self {
            Color::Black => 0,
            Color::Red => 1,
            Color::Green => 2,
            Color::Yellow => 3,
            Color::Blue => 4,
            Color::Purple => 5,
            Color::Cyan => 6,
            Color::White => 7,
        }
    }

    pub fn index(self) -> (i: u8)
        ensures
            i == self.index_spec(),
            i < 8,
    {
        match self {
            Color::Black => 0,
            Color::Red => 1,
            Color::Green => 2,
            Color::Yellow => 3,
            Color::Blue => 4,
            Color::Purple => 5,
            Color::Cyan => 6,
            Color::White => 7,
        }
    }
}

/// What a foreground selector stands for: a colour, and the style that the
/// selector carries by itself.
#[derive(Debug, Clone, Copy, PartialEq, Eq, Structural)]
pub struct ColorMap {
    pub style: Styles,
    pub color: Color,
}

/// A row of the foreground table: the two bytes of a selector and its
/// meaning.
#[derive(Debug, Clone, Copy, PartialEq, Eq, Structural)]
pub struct FgEntry {
    pub first: char,
    pub second: char,
    pub map: ColorMap,
}

pub open spec fn fg_row(first: char, second: char, style: Styles, color: Color) -> FgEntry {
    FgEntry { first, second, map: ColorMap { style, color } }
}

/// The foreground table. Selectors `00` to `07` and the small letters
/// `x r g y b p c w` name the plain colours; `08` to `15` and the capital
/// letters `X R G Y B P C W` name the same colours in bold.
pub open spec fn fg_table() -> Seq<FgEntry> {
    seq![
        fg_row('0', '0', Styles::Normal, Color::Black),
        fg_row('0', 'x', Styles::Normal, Color::Black),
        fg_row('0', '1', Styles::Normal, Color::Red),
        fg_row('0', 'r', Styles::Normal, Color::Red),
        fg_row('0', '2', Styles::Normal, Color::Green),
        fg_row('0', 'g', Styles::Normal, Color::Green),
        fg_row('0', '3', Styles::Normal, Color::Yellow),
        fg_row('0', 'y', Styles::Normal, Color::Yellow),
        fg_row('0', '4', Styles::Normal, Color::Blue),
        fg_row('0', 'b', Styles::Normal, Color::Blue),
        fg_row('0', '5', Styles::Normal, Color::Purple),
        fg_row('0', 'p', Styles::Normal, Color::Purple),
        fg_row('0', '6', Styles::Normal, Color::Cyan),
        fg_row('0', 'c', Styles::Normal, Color::Cyan),
        fg_row('0', '7', Styles::Normal, Color::White),
        fg_row('0', 'w', Styles::Normal, Color::White),
        fg_row('0', '8', Styles::Bold, Color::Black),
        fg_row('0', 'X', Styles::Bold, Color::Black),
        fg_row('0', '9', Styles::Bold, Color::Red),
        fg_row('0', 'R', Styles::Bold, Color::Red),
        fg_row('1', '0', Styles::Bold, Color::Green),
        fg_row('0', 'G', Styles::Bold, Color::Green),
        fg_row('1', '1', Styles::Bold, Color::Yellow),
        fg_row('0', 'Y', Styles::Bold, Color::Yellow),
        fg_row('1', '2', Styles::Bold, Color::Blue),
        fg_row('0', 'B', Styles::Bold, Color::Blue),
        fg_row('1', '3', Styles::Bold, Color::Purple),
        fg_row('0', 'P', Styles::Bold, Color::Purple),
        fg_row('1', '4', Styles::Bold, Color::Cyan),
        fg_row('0', 'C', Styles::Bold, Color::Cyan),
        fg_row('1', '5', Styles::Bold, Color::White),
        fg_row('0', 'W', Styles::Bold, Color::White),
    ]
}

/// The background table: the colour that each background digit selects.
pub open spec fn bg_table() -> Seq<Color> {
    seq![
        Color::Black,
        Color::Red,
        Color::Green,
        Color::Yellow,
        Color::Blue,
        Color::Purple,
        Color::Cyan,
        Color::White,
    ]
}

/// The background table as the map that the compiler holds: its rows
/// under their digits.
pub open spec fn bg_map() -> Map<u32, Color> {
    Map::new(|digit: u32| digit < bg_table().len(), |digit: u32| bg_table()[digit as int])
}

/// The style table as the map that the compiler holds: its rows under
/// their digits.
pub open spec fn style_map() -> Map<u32, Styles> {
    Map::new(|digit: u32| digit < style_table().len(), |digit: u32| style_table()[digit as int])
}

/// The style table: the style that each style digit selects.
pub open spec fn style_table() -> Seq<Styles> {
    seq![
        Styles::Normal,
        Styles::Bold,
        Styles::Faint,
        Styles::Italic,
        Styles::Underline,
        Styles::Blink,
        Styles::Negative,
    ]
}

/// The code that text without a code of its own is shown in: `0007`,
/// white on black.
pub open spec fn default_code() -> Seq<u8> {
    seq!['0' as u8, '0' as u8, '0' as u8, '7' as u8]
}

/// The foreground that the default code selects.
pub open spec fn default_foreground() -> ColorMap {
    ColorMap { style: Styles::Normal, color: Color::White }
}

/// Value of the decimal digit at position `i` of `code`; 0 where there is
/// no digit.
pub open spec fn digit_at(code: Seq<u8>, i: int) -> int {
    if 0 <= i < code.len() && '0' as u8 <= code[i] <= '9' as u8 {
        code[i] - '0' as u8
    } else {
        0
    }
}

/// First row of `table`, from row `from` on, with the given selector.
pub open spec fn fg_find(table: Seq<FgEntry>, first: char, second: char, from: int) -> Option<
    ColorMap,
>
    decreases table.len() - from,
{
    if from < 0 || from >= table.len() {
        None
    } else if table[from].first == first && table[from].second == second {
        Some(table[from].map)
    } else {
        fg_find(table, first, second, from + 1)
    }
}

/// What the foreground selector of `code` stands for in the foreground
/// table, if it is a selector at all.
pub open spec fn code_selector(code: Seq<u8>) -> Option<ColorMap> {
    if code.len() == 4 {
        fg_find(fg_table(), code[2] as char, code[3] as char, 0)
    } else {
        None
    }
}

/// Foreground of `code`: its selector's, or that of the default code where
/// the table has no such selector.
pub open spec fn code_foreground(code: Seq<u8>) -> ColorMap {
    match code_selector(code) {
        Some(map) => map,
        None => default_foreground(),
    }
}

/// Background of `code`: the colour of its second digit, black where the
/// table has no such row.
pub open spec fn code_background(code: Seq<u8>) -> Color {
    let digit = digit_at(code, 1);
    if digit < bg_table().len() {
        bg_table()[digit]
    } else {
        Color::Black
    }
}

/// Style of `code`: that of its first digit, none where the table has no
/// such row.
pub open spec fn code_style(code: Seq<u8>) -> Styles {
    let digit = digit_at(code, 0);
    if digit < style_table().len() {
        style_table()[digit]
    } else {
        Styles::Normal
    }
}

/// A compiled style: the attributes that are switched on, and the two
/// colours.
#[derive(Debug, Clone, Copy, PartialEq, Eq, Structural)]
pub struct AnsiParams {
    pub bold: bool,
    pub faint: bool,
    pub italic: bool,
    pub underline: bool,
    pub blink: bool,
    pub reverse: bool,
    pub bg: Color,
    pub fg: Color,
}

impl AnsiParams {
    /// The two colours with no attribute switched on.
    pub open spec fn plain_spec(bg: Color, fg: Color) -> AnsiParams {
        AnsiParams {
            bold: false,
            faint: false,
            italic: false,
            underline: false,
            blink: false,
            reverse: false,
            bg,
            fg,
        }
    }

    /// `self` with the attribute of `style` switched on as well.
    pub open spec fn with_spec(self, style: Styles) -> AnsiParams {
        match style {
            Styles::Normal => self,
            Styles::Bold => AnsiParams { bold: true, ..self },
            Styles::Faint => AnsiParams { faint: true, ..self },
            Styles::Italic => AnsiParams { italic: true, ..self },
            Styles::Underline => AnsiParams { underline: true, ..self },
            Styles::Blink => AnsiParams { blink: true, ..self },
            Styles::Negative => AnsiParams { reverse: true, ..self },
        }
    }

    pub fn plain(bg: Color, fg: Color) -> (params: AnsiParams)
        ensures
            params == AnsiParams::plain_spec(bg, fg),
    {
        AnsiParams {
            bold: false,
            faint: false,
            italic: false,
            underline: false,
            blink: false,
            reverse: false,
            bg,
            fg,
        }
    }

    pub fn with(self, style: Styles) -> (params: AnsiParams)
        ensures
            params == self.with_spec(style),
    {
        let mut params = self;
        match style {
            Styles::Normal => {},
            Styles::Bold => {
                params.bold = true;
            },
            Styles::Faint => {
                params.faint = true;
            },
            Styles::Italic => {
                params.italic = true;
            },
            Styles::Underline => {
                params.underline = true;
            },
            Styles::Blink => {
                params.blink = true;
            },
            Styles::Negative => {
                params.reverse = true;
            },
        }
        params
    }
}

impl Default for AnsiParams {
    /// White on black, no attribute.
    fn default() -> (params: AnsiParams)
        ensures
            params == AnsiParams::plain_spec(Color::Black, Color::White),
    {
        AnsiParams::plain(Color::Black, Color::White)
    }
}

/// The attributes that a style digit and a foreground's own style give
/// together. A bold digit on a plain foreground gives no attribute at all;
/// without a style digit the foreground's own style stands; otherwise both
/// are switched on.
pub open spec fn combine(over: Styles, own: Styles, bg: Color, fg: Color) -> AnsiParams {
    let base = AnsiParams::plain_spec(bg, fg);
    if own == Styles::Normal && over == Styles::Bold {
        base
    } else if over == Styles::Normal {
        base.with_spec(own)
    } else {
        base.with_spec(over).with_spec(own)
    }
}

/// The style that the digits and the selector of `code` give, each read
/// from its table.
pub open spec fn read_params(code: Seq<u8>) -> AnsiParams {
    combine(
        code_style(code),
        code_foreground(code).style,
        code_background(code),
        code_foreground(code).color,
    )
}

/// The style that `code` compiles to. What has the form of a colour code
/// is read from the tables; anything else compiles as the default code.
pub open spec fn code_params(code: Seq<u8>) -> AnsiParams {
    if is_code(code) {
        read_params(code)
    } else {
        read_params(default_code())
    }
}

/// The default code's selector is a row of the foreground table.
pub proof fn lemma_default_selector()
    ensures
        code_selector(default_code()) == Some(default_foreground()),
        is_code(default_code()),
        read_params(default_code()) == AnsiParams::plain_spec(Color::Black, Color::White),
        code_params(default_code()) == AnsiParams::plain_spec(Color::Black, Color::White),
        forall|code: Seq<u8>|
            !is_code(code) ==> #[trigger] code_params(code) == AnsiParams::plain_spec(
                Color::Black,
                Color::White,
            ),
{
    reveal_with_fuel(fg_find, 16);
}

/// A code whose foreground selector is no row of the table is shown in
/// the default foreground, white without a style of its own, whatever its
/// other digits are.
pub proof fn lemma_unknown_selector(code: Seq<u8>)
    requires
        is_code(code),
        code_selector(code) is None,
    ensures
        code_params(code).fg == Color::White,
        code_params(code) == AnsiParams::plain_spec(code_background(code), Color::White).with_spec(
            if code_style(code) == Styles::Bold {
                Styles::Normal
            } else {
                code_style(code)
            },
        ),
{
}

/// The sequence that switches the style `params` on.
pub open spec fn sgr_prefix(params: AnsiParams) -> Seq<u8> {
    sgr_sequence(
        params.bold,
        params.faint,
        params.italic,
        params.underline,
        params.blink,
        params.reverse,
        params.bg.index_spec(),
        params.fg.index_spec(),
    )
}

/// How far the output has come: the style that the part before was shown
/// in, if there was a part before, and whether a style is switched on at
/// this point. The two are kept apart: behind a line break the style of
/// the part before is still known, but no style is on.
pub struct Shown {
    pub last: Option<AnsiParams>,
    pub on: bool,
}

/// The start of a message: no part before, no style on.
pub open spec fn nothing_shown() -> Shown {
    Shown { last: None, on: false }
}

/// The reset, where a style is on.
pub open spec fn style_off(on: bool) -> Seq<u8> {
    if on {
        sgr_reset()
    } else {
        Seq::empty()
    }
}

/// What goes out in front of a text in the style `params`. Nothing where
/// the part before was shown in that style, line break or not: the text
/// goes out bare. Otherwise the reset, if a style is on, and the sequence
/// that switches the text's style on.
pub open spec fn style_change(shown: Shown, params: AnsiParams) -> Seq<u8> {
    if shown.last == Some(params) {
        Seq::empty()
    } else {
        style_off(shown.on) + sgr_prefix(params)
    }
}

/// Whether a style is on behind a text in the style `params`: what was on
/// before stays where the text went out bare; the text's style is on
/// where it was switched on.
pub open spec fn on_behind(shown: Shown, params: AnsiParams) -> bool {
    if shown.last == Some(params) {
        shown.on
    } else {
        true
    }
}

/// What goes out behind a text for its line break: the reset, if a style
/// is on, and the line break; nothing where there is no line break.
pub open spec fn line_end(on: bool, eol: Seq<u8>) -> Seq<u8> {
    if eol.len() > 0 {
        style_off(on) + eol
    } else {
        Seq::empty()
    }
}

/// How far the output has come behind a part. Without ANSI mode nothing
/// changes. With it the part's style is the last one shown, and a style
/// is on if one was on behind the text and no line break followed.
pub open spec fn shown_after(part: PartView, ansi_mode: bool, shown: Shown) -> Shown {
    if !ansi_mode {
        shown
    } else {
        let params = code_params(part.code);
        Shown { last: Some(params), on: on_behind(shown, params) && part.eol.len() == 0 }
    }
}

/// What one part contributes to the output. Without ANSI mode that is its
/// text and its line break. With it, the text goes out bare where the
/// part before was shown in the same style, and behind the switching on of
/// its style otherwise. A line break is never styled: the reset goes out
/// in front of it where a style is on.
pub open spec fn render_part(part: PartView, ansi_mode: bool, shown: Shown) -> Seq<u8> {
    if !ansi_mode {
        part.text + part.eol
    } else {
        let params = code_params(part.code);
        style_change(shown, params) + part.text + line_end(on_behind(shown, params), part.eol)
    }
}

/// How far the output has come behind a run of parts.
pub open spec fn style_after(parts: Seq<PartView>, ansi_mode: bool, shown: Shown) -> Shown
    decreases parts.len(),
{
    if parts.len() == 0 {
        shown
    } else {
        shown_after(parts.last(), ansi_mode, style_after(parts.drop_last(), ansi_mode, shown))
    }
}

/// What a run of parts contributes to the output: each part in turn,
/// from where the parts before it have brought the output.
pub open spec fn rendered_parts(parts: Seq<PartView>, ansi_mode: bool, shown: Shown) -> Seq<u8>
    decreases parts.len(),
{
    if parts.len() == 0 {
        Seq::empty()
    } else {
        rendered_parts(parts.drop_last(), ansi_mode, shown) + render_part(
            parts.last(),
            ansi_mode,
            style_after(parts.drop_last(), ansi_mode, shown),
        )
    }
}

/// The output for a run of parts: what the parts contribute, and the reset
/// at the end where a style is still on.
pub open spec fn render(parts: Seq<PartView>, ansi_mode: bool, shown: Shown) -> Seq<u8> {
    rendered_parts(parts, ansi_mode, shown) + style_off(style_after(parts, ansi_mode, shown).on)
}

/// The bytes that a message compiles to.
pub open spec fn compile(message: Seq<u8>, ansi_mode: bool) -> Seq<u8> {
    render(scan(message, default_code()), ansi_mode, nothing_shown())
}

/// A single part contributes what `render_part` says, and brings the
/// output to where `shown_after` says.
pub proof fn lemma_rendered_one(part: PartView, ansi_mode: bool, shown: Shown)
    ensures
        rendered_parts(seq![part], ansi_mode, shown) == render_part(part, ansi_mode, shown),
        style_after(seq![part], ansi_mode, shown) == shown_after(part, ansi_mode, shown),
{
    let one = seq![part];
    assert(one.drop_last() =~= Seq::<PartView>::empty());
    assert(one.last() == part);
    assert(rendered_parts(one.drop_last(), ansi_mode, shown) =~= Seq::<u8>::empty());
    assert(style_after(one.drop_last(), ansi_mode, shown) == shown);
    assert(Seq::<u8>::empty() + render_part(part, ansi_mode, shown) =~= render_part(
        part,
        ansi_mode,
        shown,
    ));
}

/// What a run of parts contributes is what its first `i` parts contribute
/// and then what the others do, from where the first `i` have brought the
/// output.
pub proof fn lemma_rendered_split(parts: Seq<PartView>, i: int, ansi_mode: bool, shown: Shown)
    requires
        0 <= i <= parts.len(),
    ensures
        rendered_parts(parts, ansi_mode, shown) == rendered_parts(parts.take(i), ansi_mode, shown)
            + rendered_parts(
            parts.skip(i),
            ansi_mode,
            style_after(parts.take(i), ansi_mode, shown),
        ),
        style_after(parts, ansi_mode, shown) == style_after(
            parts.skip(i),
            ansi_mode,
            style_after(parts.take(i), ansi_mode, shown),
        ),
    decreases parts.len() - i,
{
    let tail = parts.skip(i);
    let between = style_after(parts.take(i), ansi_mode, shown);
    if i == parts.len() {
        assert(parts.take(i) =~= parts);
        assert(rendered_parts(parts, ansi_mode, shown) + Seq::<u8>::empty() =~= rendered_parts(
            parts,
            ansi_mode,
            shown,
        ));
    } else {
        let front = parts.drop_last();
        lemma_rendered_split(front, i, ansi_mode, shown);
        assert(front.take(i) =~= parts.take(i));
        assert(front.skip(i) =~= tail.drop_last());
        assert(tail.last() == parts.last());
        assert(rendered_parts(parts, ansi_mode, shown) =~= rendered_parts(
            parts.take(i),
            ansi_mode,
            shown,
        ) + rendered_parts(tail, ansi_mode, between));
    }
}

/// Whether part `i` of a message is shown in another style than the part
/// before it, or is the first part.
pub open spec fn changes_style(parts: Seq<PartView>, i: int) -> bool {
    i <= 0 || code_params(parts[i].code) != code_params(parts[i - 1].code)
}

/// Number of the parts among the first `n` that are shown in another style
/// than the part before them, the first part counted.
pub open spec fn style_changes(parts: Seq<PartView>, n: int) -> nat
    decreases n,
{
    if n <= 0 {
        0
    } else if changes_style(parts, n - 1) {
        1 + style_changes(parts, n - 1)
    } else {
        style_changes(parts, n - 1)
    }
}

/// Number of the style sequences among what the first `n` parts of a
/// message contribute in ANSI mode: one for each part in front of whose
/// text `style_change` switches a style on.
pub open spec fn styles_introduced(parts: Seq<PartView>, n: int) -> nat
    decreases n,
{
    if n <= 0 {
        0
    } else if style_after(parts.take(n - 1), true, nothing_shown()).last != Some(
        code_params(parts[n - 1].code),
    ) {
        1 + styles_introduced(parts, n - 1)
    } else {
        styles_introduced(parts, n - 1)
    }
}

/// Behind a run of parts that is not empty, the style that was shown last
/// is that of the last part.
pub proof fn lemma_last_shown(parts: Seq<PartView>, shown: Shown)
    requires
        parts.len() > 0,
    ensures
        style_after(parts, true, shown).last == Some(code_params(parts.last().code)),
{
}

/// Where two adjacent parts compile to the same style, the second text
/// goes out bare, whether a line break stands between the two or not:
/// the second part contributes its text and its line break, and no style
/// sequence.
pub proof fn lemma_same_style_once(parts: Seq<PartView>, i: int, shown: Shown)
    requires
        0 < i < parts.len(),
        code_params(parts[i - 1].code) == code_params(parts[i].code),
    ensures
        rendered_parts(parts.take(i + 1), true, shown) == rendered_parts(parts.take(i), true, shown)
            + parts[i].text + line_end(style_after(parts.take(i), true, shown).on, parts[i].eol),
{
    let upto = parts.take(i + 1);
    let before = parts.take(i);
    assert(upto.drop_last() =~= before);
    assert(upto.last() == parts[i]);
    assert(before.last() == parts[i - 1]);
    lemma_last_shown(before, shown);
    let at = style_after(before, true, shown);
    assert(style_change(at, code_params(parts[i].code)) =~= Seq::<u8>::empty());
    assert(rendered_parts(upto, true, shown) =~= rendered_parts(before, true, shown)
        + parts[i].text + line_end(at.on, parts[i].eol));
}

/// What the first `i + 1` parts contribute is what the first `i` do and
/// then what part `i` does, from where those have brought the output.
pub proof fn lemma_rendered_next(parts: Seq<PartView>, i: int, ansi_mode: bool, shown: Shown)
    requires
        0 <= i < parts.len(),
    ensures
        rendered_parts(parts.take(i + 1), ansi_mode, shown) == rendered_parts(
            parts.take(i),
            ansi_mode,
            shown,
        ) + render_part(parts[i], ansi_mode, style_after(parts.take(i), ansi_mode, shown)),
        style_after(parts.take(i + 1), ansi_mode, shown) == shown_after(
            parts[i],
            ansi_mode,
            style_after(parts.take(i), ansi_mode, shown),
        ),
        i > 0 ==> parts.take(i).last() == parts[i - 1],
{
    let upto = parts.take(i + 1);
    assert(upto.drop_last() =~= parts.take(i));
    assert(upto.last() == parts[i]);
}

/// In a message, the style that was shown last in front of part `i` is
/// another than the part's own exactly where the part is the first or is
/// shown in another style than the part before it.
pub proof fn lemma_changes_style(parts: Seq<PartView>, i: int)
    requires
        0 <= i < parts.len(),
    ensures
        (style_after(parts.take(i), true, nothing_shown()).last != Some(
            code_params(parts[i].code),
        )) == changes_style(parts, i),
{
    let before = parts.take(i);
    if i > 0 {
        assert(before.last() == parts[i - 1]);
        lemma_last_shown(before, nothing_shown());
    } else {
        assert(before =~= Seq::<PartView>::empty());
    }
}

/// What a text and its line break add to the output `before` in ANSI
/// mode, written out for the two cases of `style_change`.
pub proof fn lemma_styled_text(
    before: Seq<u8>,
    shown: Shown,
    params: AnsiParams,
    text: Seq<u8>,
    eol: Seq<u8>,
)
    ensures
        shown.last != Some(params) ==> before + (style_change(shown, params) + text + line_end(
            on_behind(shown, params),
            eol,
        )) == before + style_off(shown.on) + sgr_prefix(params) + text + line_end(true, eol),
        shown.last == Some(params) ==> before + (style_change(shown, params) + text + line_end(
            on_behind(shown, params),
            eol,
        )) == before + text + line_end(shown.on, eol),
{
    if shown.last != Some(params) {
        assert(before + (style_off(shown.on) + sgr_prefix(params) + text + line_end(true, eol))
            =~= before + style_off(shown.on) + sgr_prefix(params) + text + line_end(true, eol));
    } else {
        assert(before + (Seq::<u8>::empty() + text + line_end(shown.on, eol)) =~= before + text
            + line_end(shown.on, eol));
    }
}

/// What each part of a message contributes in ANSI mode. In front of its
/// text stands the switching on of its style, behind the reset if a style
/// is on, where the part is the first or is shown in another style than
/// the part before it; nothing stands there otherwise.
pub proof fn lemma_part_output(parts: Seq<PartView>, i: int)
    requires
        0 <= i < parts.len(),
    ensures
        changes_style(parts, i) ==> rendered_parts(parts.take(i + 1), true, nothing_shown())
            == rendered_parts(parts.take(i), true, nothing_shown()) + style_off(
            style_after(parts.take(i), true, nothing_shown()).on,
        ) + sgr_prefix(code_params(parts[i].code)) + parts[i].text + line_end(
            true,
            parts[i].eol,
        ),
        !changes_style(parts, i) ==> rendered_parts(parts.take(i + 1), true, nothing_shown())
            == rendered_parts(parts.take(i), true, nothing_shown()) + parts[i].text + line_end(
            style_after(parts.take(i), true, nothing_shown()).on,
            parts[i].eol,
        ),
{
    let start = nothing_shown();
    let at = style_after(parts.take(i), true, start);
    let before = rendered_parts(parts.take(i), true, start);
    lemma_rendered_next(parts, i, true, start);
    lemma_changes_style(parts, i);
    lemma_styled_text(before, at, code_params(parts[i].code), parts[i].text, parts[i].eol);
}

/// A message has as many style sequences as it has parts that change the
/// style, the first part counted: one more than the number of the pairs of
/// adjacent parts that are shown in different styles.
pub proof fn lemma_styles_introduced(parts: Seq<PartView>, n: int)
    requires
        0 <= n <= parts.len(),
    ensures
        styles_introduced(parts, n) == style_changes(parts, n),
    decreases n,
{
    if n > 0 {
        lemma_styles_introduced(parts, n - 1);
        lemma_changes_style(parts, n - 1);
    }
}

/// A message without markup compiles to itself where ANSI mode is off, and
/// is wrapped whole in the default style where it is on.
pub proof fn lemma_compile_without_markup(message: Seq<u8>)
    requires
        !has_marker(message),
    ensures
        compile(message, false) == message,
        compile(message, true) == sgr_prefix(AnsiParams::plain_spec(Color::Black, Color::White))
            + message + sgr_reset(),
{
    lemma_default_selector();
    let part = PartView { code: default_code(), text: message, eol: Seq::empty() };
    assert(scan(message, default_code()) =~= seq![part]);
    lemma_rendered_one(part, false, nothing_shown());
    lemma_rendered_one(part, true, nothing_shown());
    assert(compile(message, false) =~= message);
    assert(compile(message, true) =~= sgr_prefix(
        AnsiParams::plain_spec(Color::Black, Color::White),
    ) + message + sgr_reset());
}

/// Without ANSI mode the parts of a message from position `i` on amount
/// to the message from there on with its markers taken out.
pub proof fn lemma_parts_unmarked(message: Seq<u8>, i: int, default: Seq<u8>)
    requires
        0 <= i <= message.len(),
    ensures
        render(parts_from(message, i, default), false, nothing_shown()) == unmarked(message, i),
        style_after(parts_from(message, i, default), false, nothing_shown()) == nothing_shown(),
    decreases message.len() - i,
{
    let parts = parts_from(message, i, default);
    let start = nothing_shown();
    if i < message.len() {
        lemma_part_bounds(message, i);
        let part = part_at(message, i, default);
        let first = text_start(message, i);
        let text_end = first + text_len(message, first);
        let end = part_end(message, i);
        assert(parts[0] == part);
        assert(parts.skip(1) =~= parts_from(message, end, default));
        assert(parts.take(1) =~= seq![part]);
        lemma_rendered_one(part, false, start);
        lemma_rendered_split(parts, 1, false, start);
        lemma_parts_unmarked(message, end, default);
        lemma_unmarked_text(message, first);
        lemma_unmarked_eol(message, text_end);
        assert(unmarked(message, i) == unmarked(message, first));
        assert(rendered_parts(parts.take(1), false, start) =~= part.text + part.eol);
        assert(render(parts, false, start) =~= unmarked(message, i));
    } else {
        assert(render(parts, false, start) =~= unmarked(message, i));
    }
}

/// Without ANSI mode the compiler takes the markers out of a message and
/// changes nothing else.
pub proof fn lemma_compile_unmarked(message: Seq<u8>)
    ensures
        compile(message, false) == unmarked(message, 0),
{
    if has_marker(message) {
        lemma_parts_unmarked(message, 0, default_code());
    } else {
        lemma_compile_without_markup(message);
        lemma_unmarked_plain(message, 0);
        assert(message.skip(0) =~= message);
    }
}

/// The colour code compiler with its three tables.
#[derive(Debug)]
pub struct AnsiColors {
    default_color_code: Vec<u8>,
    fg_color_map: Vec<FgEntry>,
    bg_color_map: HashMap<u32, Color>,
    style_map: HashMap<u32, Styles>,
}

fn fg_entry(first: char, second: char, style: Styles, color: Color) -> (entry: FgEntry)
    ensures
        entry == fg_row(first, second, style, color),
{
    FgEntry { first, second, map: ColorMap { style, color } }
}

impl AnsiColors {
    /// The compiler's foreground table.
    pub closed spec fn fg_color_map(&self) -> Seq<FgEntry> {
        self.fg_color_map@
    }

    /// The compiler's background table.
    pub closed spec fn bg_color_map(&self) -> Map<u32, Color> {
        self.bg_color_map@
    }

    /// The compiler's style table.
    pub closed spec fn style_map(&self) -> Map<u32, Styles> {
        self.style_map@
    }

    /// The compiler's default code.
    pub closed spec fn default_color(&self) -> Seq<u8> {
        self.default_color_code@
    }

    /// The tables hold the rows of `fg_table`, `bg_table` and
    /// `style_table`, the last two under their digits, and the default code
    /// is `default_code`.
    pub open spec fn tables_filled(&self) -> bool {
        &&& self.default_color() == default_code()
        &&& self.fg_color_map() == fg_table()
        &&& self.bg_color_map() == bg_map()
        &&& self.style_map() == style_map()
    }

    #[verifier::type_invariant]
    spec fn filled(&self) -> bool {
        self.tables_filled()
    }

    /// The compiler, ready for use.
    pub fn get() -> (colors: AnsiColors)
        ensures
            colors.tables_filled(),
    {
        AnsiColors::initialize()
    }

    /// Fills the three tables and sets the default code.
    pub fn initialize() -> (colors: AnsiColors)
        ensures
            colors.tables_filled(),
    {
        let mut map: Vec<FgEntry> = Vec::new();
        map.push(fg_entry('0', '0', Styles::Normal, Color::Black));
        map.push(fg_entry('0', 'x', Styles::Normal, Color::Black));
        map.push(fg_entry('0', '1', Styles::Normal, Color::Red));
        map.push(fg_entry('0', 'r', Styles::Normal, Color::Red));
        map.push(fg_entry('0', '2', Styles::Normal, Color::Green));
        map.push(fg_entry('0', 'g', Styles::Normal, Color::Green));
        map.push(fg_entry('0', '3', Styles::Normal, Color::Yellow));
        map.push(fg_entry('0', 'y', Styles::Normal, Color::Yellow));
        map.push(fg_entry('0', '4', Styles::Normal, Color::Blue));
        map.push(fg_entry('0', 'b', Styles::Normal, Color::Blue));
        map.push(fg_entry('0', '5', Styles::Normal, Color::Purple));
        map.push(fg_entry('0', 'p', Styles::Normal, Color::Purple));
        map.push(fg_entry('0', '6', Styles::Normal, Color::Cyan));
        map.push(fg_entry('0', 'c', Styles::Normal, Color::Cyan));
        map.push(fg_entry('0', '7', Styles::Normal, Color::White));
        map.push(fg_entry('0', 'w', Styles::Normal, Color::White));
        map.push(fg_entry('0', '8', Styles::Bold, Color::Black));
        map.push(fg_entry('0', 'X', Styles::Bold, Color::Black));
        map.push(fg_entry('0', '9', Styles::Bold, Color::Red));
        map.push(fg_entry('0', 'R', Styles::Bold, Color::Red));
        map.push(fg_entry('1', '0', Styles::Bold, Color::Green));
        map.push(fg_entry('0', 'G', Styles::Bold, Color::Green));
        map.push(fg_entry('1', '1', Styles::Bold, Color::Yellow));
        map.push(fg_entry('0', 'Y', Styles::Bold, Color::Yellow));
        map.push(fg_entry('1', '2', Styles::Bold, Color::Blue));
        map.push(fg_entry('0', 'B', Styles::Bold, Color::Blue));
        map.push(fg_entry('1', '3', Styles::Bold, Color::Purple));
        map.push(fg_entry('0', 'P', Styles::Bold, Color::Purple));
        map.push(fg_entry('1', '4', Styles::Bold, Color::Cyan));
        map.push(fg_entry('0', 'C', Styles::Bold, Color::Cyan));
        map.push(fg_entry('1', '5', Styles::Bold, Color::White));
        map.push(fg_entry('0', 'W', Styles::Bold, Color::White));
        assert(map@ =~= fg_table());

        broadcast use vstd::std_specs::hash::group_hash_axioms;

        let mut bgmap: HashMap<u32, Color> = HashMap::new();
        bgmap.insert(0, Color::Black);
        bgmap.insert(1, Color::Red);
        bgmap.insert(2, Color::Green);
        bgmap.insert(3, Color::Yellow);
        bgmap.insert(4, Color::Blue);
        bgmap.insert(5, Color::Purple);
        bgmap.insert(6, Color::Cyan);
        bgmap.insert(7, Color::White);
        assert(bgmap@ =~= bg_map());

        let mut stymap: HashMap<u32, Styles> = HashMap::new();
        stymap.insert(0, Styles::Normal);
        stymap.insert(1, Styles::Bold);
        stymap.insert(2, Styles::Faint);
        stymap.insert(3, Styles::Italic);
        stymap.insert(4, Styles::Underline);
        stymap.insert(5, Styles::Blink);
        stymap.insert(6, Styles::Negative);
        assert(stymap@ =~= style_map());

        let mut code: Vec<u8> = Vec::new();
        code.push('0' as u8);
        code.push('0' as u8);
        code.push('0' as u8);
        code.push('7' as u8);
        assert(code@ =~= default_code());

        AnsiColors {
            default_color_code: code,
            fg_color_map: map,
            bg_color_map: bgmap,
            style_map: stymap,
        }
    }

    /// The default code, `0007`.
    pub fn default_color_code(&self) -> (code: &[u8])
        ensures
            code@ == default_code(),
    {
        proof {
            use_type_invariant(self);
        }
        self.default_color_code.as_slice()
    }

    /// Looks a foreground selector up in the foreground table.
    fn foreground(&self, code: &[u8]) -> (found: Option<ColorMap>)
        ensures
            found == code_selector(code@),
    {
        proof {
            use_type_invariant(self);
        }
        if code.len() != 4 {
            return None;
        }
        let first = code[2] as char;
        let second = code[3] as char;
        let mut i: usize = 0;
        while i < self.fg_color_map.len()
            invariant
                self.fg_color_map@ == fg_table(),
                code@.len() == 4,
                first == code@[2] as char,
                second == code@[3] as char,
                i <= self.fg_color_map.len(),
                fg_find(fg_table(), first, second, 0) == fg_find(
                    fg_table(),
                    first,
                    second,
                    i as int,
                ),
            decreases self.fg_color_map.len() - i,
        {
            let entry = self.fg_color_map[i];
            assert(entry == fg_table()[i as int]);
            if entry.first == first && entry.second == second {
                return Some(entry.map);
            }
            i = i + 1;
        }
        None
    }

    /// Compiles a colour code. Never fails: in a code of the right form,
    /// a digit or a selector that its table does not hold falls back to
    /// the table's default; bytes of any other form compile as the default
    /// code.
    pub fn convert_code(&self, code: &[u8]) -> (params: AnsiParams)
        ensures
            params == code_params(code@),
    {
        proof {
            use_type_invariant(self);
        }
        if has_code_form(code) {
            self.read_code(code)
        } else {
            self.read_code(self.default_color_code.as_slice())
        }
    }

    /// Reads the digits and the selector of a code from the tables.
    fn read_code(&self, code: &[u8]) -> (params: AnsiParams)
        ensures
            params == read_params(code@),
    {
        proof {
            use_type_invariant(self);
            lemma_default_selector();
        }
        broadcast use vstd::std_specs::hash::group_hash_axioms;

        let bg_index = digit_value(code, 1);
        let bg_color = match self.bg_color_map.get(&bg_index) {
            Some(color) => *color,
            None => Color::Black,
        };

        let style_index = digit_value(code, 0);
        let new_style = match self.style_map.get(&style_index) {
            Some(style) => *style,
            None => Styles::Normal,
        };

        let fg_item = match self.foreground(code) {
            Some(item) => item,
            None => {
                // Go with the default
                match self.foreground(self.default_color_code.as_slice()) {
                    Some(item) => item,
                    None => ColorMap { style: Styles::Normal, color: Color::White },
                }
            },
        };
        let fg_style = fg_item.style;

        let base = AnsiParams::plain(bg_color, fg_item.color);
        if fg_style == Styles::Normal && new_style == Styles::Bold {
            base
        } else if new_style == Styles::Normal {
            base.with(fg_style)
        } else {
            base.with(new_style).with(fg_style)
        }
    }
}

impl AnsiColors {
    /// The sequence that switches the style `params` on.
    pub fn style_on(&self, params: AnsiParams) -> (out: Vec<u8>)
        ensures
            out@ == sgr_prefix(params),
    {
        style_prefix(
            params.bold,
            params.faint,
            params.italic,
            params.underline,
            params.blink,
            params.reverse,
            params.bg.index(),
            params.fg.index(),
        )
    }

    /// The sequence that switches the style `params` off: the reset.
    pub fn style_off(&self, params: AnsiParams) -> (out: Vec<u8>)
        ensures
            out@ == sgr_reset(),
    {
        style_suffix(params.bg.index(), params.fg.index())
    }

    /// `text` between the sequence that switches `params` on and the reset.
    pub fn paint(&self, params: AnsiParams, text: &[u8]) -> (out: Vec<u8>)
        ensures
            out@ == sgr_prefix(params) + text@ + sgr_reset(),
    {
        let mut out = self.style_on(params);
        append_bytes(&mut out, text);
        let reset = self.style_off(params);
        append_bytes(&mut out, reset.as_slice());
        out
    }

    /// Emits what goes out in front of a text in the style `params`, and
    /// returns whether a style is on behind the text.
    fn change_style(
        &self,
        output: &mut Vec<u8>,
        old_color_params: Option<AnsiParams>,
        on: bool,
        params: AnsiParams,
    ) -> (next: bool)
        ensures
            final(output)@ == old(output)@ + style_change(
                Shown { last: old_color_params, on },
                params,
            ),
            next == on_behind(Shown { last: old_color_params, on }, params),
    {
        let same = match old_color_params {
            Some(old) => old == params,
            None => false,
        };
        if same {
            assert(output@ =~= old(output)@ + Seq::<u8>::empty());
            return on;
        }
        if on {
            let reset = self.style_off(params);
            append_bytes(output, reset.as_slice());
        }
        let prefix = self.style_on(params);
        append_bytes(output, prefix.as_slice());
        assert(output@ =~= old(output)@ + (style_off(on) + sgr_prefix(params)));
        true
    }

    /// Emits what goes out behind a text for its line break.
    fn end_line(&self, output: &mut Vec<u8>, on: bool, params: AnsiParams, eol: &[u8])
        ensures
            final(output)@ == old(output)@ + line_end(on, eol@),
    {
        if eol.len() > 0 {
            if on {
                let reset = self.style_off(params);
                append_bytes(output, reset.as_slice());
            }
            append_bytes(output, eol);
            assert(output@ =~= old(output)@ + (style_off(on) + eol@));
        } else {
            assert(output@ =~= old(output)@ + Seq::<u8>::empty());
        }
    }

    /// Emits the bytes for one part, from where the parts before it have
    /// brought the output, and returns how far the output has come.
    fn render_one(
        &self,
        output: &mut Vec<u8>,
        part: &MarkupPart,
        ansi_mode: bool,
        old_color_params: Option<AnsiParams>,
        on: bool,
    ) -> (next: (Option<AnsiParams>, bool))
        ensures
            final(output)@ == old(output)@ + render_part(
                part@,
                ansi_mode,
                Shown { last: old_color_params, on },
            ),
            (Shown { last: next.0, on: next.1 }) == shown_after(
                part@,
                ansi_mode,
                Shown { last: old_color_params, on },
            ),
    {
        if !ansi_mode {
            append_bytes(output, part.text.as_slice());
            append_bytes(output, part.eol.as_slice());
            assert(output@ =~= old(output)@ + (part@.text + part@.eol));
            return (old_color_params, on);
        }
        let ghost shown = Shown { last: old_color_params, on };
        let color_params = self.convert_code(part.code.as_slice());
        let styled = self.change_style(output, old_color_params, on, color_params);
        append_bytes(output, part.text.as_slice());
        self.end_line(output, styled, color_params, part.eol.as_slice());
        assert(output@ =~= old(output)@ + (style_change(shown, color_params) + part@.text
            + line_end(styled, part@.eol)));
        (Some(color_params), styled && part.eol.len() == 0)
    }

    /// Emits the bytes for a run of parts.
    pub fn render_parts(&self, parts: &Vec<MarkupPart>, ansi_mode: bool) -> (output: Vec<u8>)
        ensures
            output@ == render(part_views(parts@), ansi_mode, nothing_shown()),
    {
        let ghost all = part_views(parts@);
        let mut output: Vec<u8> = Vec::new();
        let mut old_color_params: Option<AnsiParams> = None;
        let mut on = false;
        let mut i: usize = 0;
        assert(all.take(0) =~= Seq::<PartView>::empty());
        while i < parts.len()
            invariant
                i <= parts@.len(),
                all == part_views(parts@),
                output@ == rendered_parts(all.take(i as int), ansi_mode, nothing_shown()),
                (Shown { last: old_color_params, on }) == style_after(
                    all.take(i as int),
                    ansi_mode,
                    nothing_shown(),
                ),
            decreases parts@.len() - i,
        {
            let part = &parts[i];
            let ghost upto = all.take(i + 1);
            assert(upto.drop_last() =~= all.take(i as int));
            assert(upto.last() == part@);
            let next = self.render_one(&mut output, part, ansi_mode, old_color_params, on);
            old_color_params = next.0;
            on = next.1;
            i = i + 1;
        }
        assert(all.take(i as int) =~= all);
        if on {
            let last = match old_color_params {
                Some(params) => params,
                None => AnsiParams::plain(Color::Black, Color::White),
            };
            let reset = self.style_off(last);
            append_bytes(&mut output, reset.as_slice());
        } else {
            assert(output@ + Seq::<u8>::empty() =~= output@);
        }
        output
    }

    /// Compiles a message: cuts it into parts and emits each in its style.
    /// Without ANSI mode that takes the markers out of the message and
    /// changes nothing else.
    pub fn convert_bytes(&self, message: &[u8], ansi_mode: bool) -> (output: Vec<u8>)
        ensures
            output@ == compile(message@, ansi_mode),
            !ansi_mode ==> output@ == unmarked(message@, 0),
    {
        proof {
            use_type_invariant(self);
            lemma_compile_unmarked(message@);
        }
        let parts = scan_markup(message, self.default_color_code.as_slice());
        self.render_parts(&parts, ansi_mode)
    }

    /// Compiles a message given as text. The markup is read from, and the
    /// result is, the text's UTF-8 bytes.
    pub fn convert_string(&self, message: String, ansi_mode: bool) -> (output: Vec<u8>)
        ensures
            output@ == compile(encode_utf8(message@), ansi_mode),
            !ansi_mode ==> output@ == unmarked(encode_utf8(message@), 0),
    {
        self.convert_bytes(message.as_str().as_bytes(), ansi_mode)
    }
}

impl Clone for AnsiColors {
    fn clone(&self) -> (colors: AnsiColors)
        ensures
            colors.tables_filled(),
    {
        AnsiColors::initialize()
    }
}

/// Value of the decimal digit at position `i` of `code`; 0 where there is
/// no digit.
fn digit_value(code: &[u8], i: usize) -> (value: u32)
    ensures
        value == digit_at(code@, i as int),
{
    if i < code.len() && '0' as u8 <= code[i] && code[i] <= '9' as u8 {
        (code[i] - '0' as u8) as u32
    } else {
        0
    }
}

} // verus!
