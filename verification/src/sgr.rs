//! Select Graphic Rendition: the escape sequences that switch a terminal
//! style on and off.

use ansi_term::{Colour, Style};
use vstd::prelude::*;

verus! {

/// The escape byte.
pub const ESC: u8 = 0x1B;

/// The number of an attribute and its separator, where the attribute is on.
pub open spec fn sgr_flag(on: bool, digit: char) -> Seq<u8> {
    if on {
        seq![digit as u8, ';' as u8]
    } else {
        Seq::empty()
    }
}

/// The sequence that switches a style on: `ESC [`, the numbers of the
/// attributes that are on (1 bold, 2 faint, 3 italic, 4 underline, 5 blink,
/// 7 reverse), 40 plus the background's number and 30 plus the
/// foreground's, separated by `;`, and a closing `m`.
pub open spec fn sgr_sequence(
    bold: bool,
    faint: bool,
    italic: bool,
    underline: bool,
    blink: bool,
    reverse: bool,
    bg: int,
    fg: int,
) -> Seq<u8> {
    seq![ESC, '[' as u8] + sgr_flag(bold, '1') + sgr_flag(faint, '2') + sgr_flag(italic, '3')
        + sgr_flag(underline, '4') + sgr_flag(blink, '5') + sgr_flag(reverse, '7') + seq![
        '4' as u8,
        ('0' as u8 + bg) as u8,
        ';' as u8,
        '3' as u8,
        ('0' as u8 + fg) as u8,
        'm' as u8,
    ]
}

/// The sequence that switches every style off: `ESC [ 0 m`.
pub open spec fn sgr_reset() -> Seq<u8> {
    seq![ESC, '[' as u8, '0' as u8, 'm' as u8]
}

/// `ansi_term::Style::prefix`, written out through its `Display`. The
/// style has the six attributes as given and both colours set, `bg` and
/// `fg` being the colours' numbers in the palette (0 black to 7 white).
/// Trusted: the result is the sequence that `sgr_sequence` spells out.
#[verifier::external_body]
pub(crate) fn style_prefix(
    bold: bool,
    faint: bool,
    italic: bool,
    underline: bool,
    blink: bool,
    reverse: bool,
    bg: u8,
    fg: u8,
) -> (out: Vec<u8>)
    requires
        bg < 8,
        fg < 8,
    ensures
        out@ == sgr_sequence(bold, faint, italic, underline, blink, reverse, bg as int, fg as int),
{
    let palette = [Colour::Black, Colour::Red, Colour::Green, Colour::Yellow, Colour::Blue,
        Colour::Purple, Colour::Cyan, Colour::White];
    let mut style = Style::new().on(palette[bg as usize]).fg(palette[fg as usize]);
    (style.is_bold, style.is_dimmed, style.is_italic) = (bold, faint, italic);
    (style.is_underline, style.is_blink, style.is_reverse) = (underline, blink, reverse);
    style.prefix().to_string().into_bytes()
}

/// `ansi_term::Style::suffix`, written out through its `Display`, for a
/// style with both colours set, `bg` and `fg` being the colours' numbers
/// in the palette. Trusted: the result is the reset sequence, as it is for
/// every style that is not plain.
#[verifier::external_body]
pub(crate) fn style_suffix(bg: u8, fg: u8) -> (out: Vec<u8>)
    requires
        bg < 8,
        fg < 8,
    ensures
        out@ == sgr_reset(),
{
    let palette = [Colour::Black, Colour::Red, Colour::Green, Colour::Yellow, Colour::Blue,
        Colour::Purple, Colour::Cyan, Colour::White];
    let style = Style::new().on(palette[bg as usize]).fg(palette[fg as usize]);
    style.suffix().to_string().into_bytes()
}

} // verus!
