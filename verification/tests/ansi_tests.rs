use havokmud::ansicolors::{AnsiColors, AnsiParams, Color, Styles};
use havokmud::chars::{char_at, decimal_digit, white_space};
use havokmud::markup::{contains_marker, has_code_form, is_marker_at, marker_length, scan_markup};

fn compile(message: &str, ansi_mode: bool) -> Vec<u8> {
    AnsiColors::get().convert_string(message.to_string(), ansi_mode)
}

#[test]
fn plain_text_passes_without_ansi() {
    let colors = AnsiColors::get();
    assert_eq!(colors.convert_bytes(b"hello world", false), b"hello world".to_vec());
    assert_eq!(compile("hello world", false), b"hello world".to_vec());
    assert_eq!(compile("", false), Vec::<u8>::new());
    assert_eq!(compile("line\r\nmore\n", false), b"line\r\nmore\n".to_vec());
}

#[test]
fn plain_text_is_wrapped_in_default_style() {
    assert_eq!(compile("hello", true), b"\x1b[40;37mhello\x1b[0m".to_vec());
    assert_eq!(compile("hi\r\n", true), b"\x1b[40;37mhi\r\n\x1b[0m".to_vec());
    assert_eq!(compile("", true), b"\x1b[40;37m\x1b[0m".to_vec());
}

#[test]
fn utf8_text_passes() {
    assert_eq!(compile("h\u{e9}llo", false), "h\u{e9}llo".as_bytes().to_vec());
    let mut expected = b"\x1b[40;31m".to_vec();
    expected.extend_from_slice("\u{2603}".as_bytes());
    expected.extend_from_slice(b"\x1b[0m");
    assert_eq!(compile("$c0001\u{2603}", true), expected);
}

#[test]
fn welcome_banner_is_bold_purple_on_green() {
    let out = compile("$c020PWelcome to Havok\r\n", true);
    assert_eq!(out, b"\x1b[1;42;35mWelcome to Havok\x1b[0m\r\n".to_vec());
}

#[test]
fn same_style_is_introduced_once() {
    assert_eq!(compile("$c0007A$c0007B", true), b"\x1b[40;37mAB\x1b[0m".to_vec());
    // The same attributes by another code count as the same style.
    assert_eq!(compile("$c0009A$c1009B", true), b"\x1b[1;40;31mAB\x1b[0m".to_vec());
    // A line break between two parts of one style does not bring the
    // style sequence back.
    assert_eq!(
        compile("$c0001A\r\n$c0001B", true),
        b"\x1b[40;31mA\x1b[0m\r\nB".to_vec()
    );
    assert_eq!(
        compile("$c0001a$c0001b$c0001c\r\n$c0001d", true),
        b"\x1b[40;31mabc\x1b[0m\r\nd".to_vec()
    );
}

#[test]
fn changed_style_is_introduced_again() {
    assert_eq!(
        compile("$c0001A$c0002B$c0001C", true),
        b"\x1b[40;31mA\x1b[0m\x1b[40;32mB\x1b[0m\x1b[40;31mC\x1b[0m".to_vec()
    );
}

#[test]
fn out_of_range_code_falls_back() {
    let colors = AnsiColors::get();
    assert_eq!(colors.convert_code(b"9999"), AnsiParams::plain(Color::Black, Color::White));
    assert_eq!(compile("$c9999x", true), b"\x1b[40;37mx\x1b[0m".to_vec());
    // Only the selector is unknown: style and background stand.
    assert_eq!(
        colors.convert_code(b"410z"),
        AnsiParams::plain(Color::Red, Color::White).with(Styles::Underline)
    );
    assert_eq!(compile("$c410zx", true), b"\x1b[4;41;37mx\x1b[0m".to_vec());
}

#[test]
fn malformed_codes_compile() {
    let colors = AnsiColors::get();
    assert_eq!(colors.convert_code(b""), AnsiParams::plain(Color::Black, Color::White));
    assert_eq!(colors.convert_code(b"1"), AnsiParams::plain(Color::Black, Color::White));
    assert_eq!(colors.convert_code(b"23"), AnsiParams::default());
    assert_eq!(
        colors.convert_code(b"2301"),
        AnsiParams::plain(Color::Yellow, Color::Red).with(Styles::Faint)
    );
    assert_eq!(colors.convert_code(b"00011"), AnsiParams::default());
    assert_eq!(colors.convert_code(b"xy01"), AnsiParams::default());
    assert_eq!(colors.convert_code(b"4x01"), AnsiParams::default());
    assert_eq!(colors.convert_code(b"410 "), AnsiParams::default());
    assert_eq!(colors.convert_code(b"410\xff"), AnsiParams::default());
    // A whole character of several bytes ends a code; it is no selector.
    assert_eq!(
        colors.convert_code("410\u{e9}".as_bytes()),
        AnsiParams::plain(Color::Red, Color::White).with(Styles::Underline)
    );
    assert_eq!(colors.convert_code("410\u{a0}".as_bytes()), AnsiParams::default());
}

#[test]
fn default_code_is_white_on_black() {
    let colors = AnsiColors::get();
    assert_eq!(colors.default_color_code(), b"0007");
    assert_eq!(colors.convert_code(b"0007"), AnsiParams::default());
    assert_eq!(AnsiParams::default(), AnsiParams::plain(Color::Black, Color::White));
}

#[test]
fn every_numeric_selector() {
    let colors = AnsiColors::get();
    let palette = [
        Color::Black,
        Color::Red,
        Color::Green,
        Color::Yellow,
        Color::Blue,
        Color::Purple,
        Color::Cyan,
        Color::White,
    ];
    for n in 0..16usize {
        let code = format!("00{:02}", n);
        let params = colors.convert_code(code.as_bytes());
        assert_eq!(params.fg, palette[n % 8]);
        assert_eq!(params.bold, n >= 8);
        assert_eq!(params.bg, Color::Black);
        assert!(!params.faint && !params.italic && !params.underline && !params.blink && !params.reverse);
    }
    assert_eq!(colors.convert_code(b"0016"), AnsiParams::default());
}

#[test]
fn every_letter_selector() {
    let colors = AnsiColors::get();
    let plain = [
        (b'x', Color::Black),
        (b'r', Color::Red),
        (b'g', Color::Green),
        (b'y', Color::Yellow),
        (b'b', Color::Blue),
        (b'p', Color::Purple),
        (b'c', Color::Cyan),
        (b'w', Color::White),
    ];
    let bold = [
        (b'X', Color::Black),
        (b'R', Color::Red),
        (b'G', Color::Green),
        (b'Y', Color::Yellow),
        (b'B', Color::Blue),
        (b'P', Color::Purple),
        (b'C', Color::Cyan),
        (b'W', Color::White),
    ];
    for (letter, color) in plain {
        let params = colors.convert_code(&[b'0', b'0', b'0', letter]);
        assert_eq!(params, AnsiParams::plain(Color::Black, color));
    }
    for (letter, color) in bold {
        let params = colors.convert_code(&[b'0', b'0', b'0', letter]);
        assert_eq!(params, AnsiParams::plain(Color::Black, color).with(Styles::Bold));
    }
}

#[test]
fn every_background_and_style_digit() {
    let colors = AnsiColors::get();
    let palette = [
        Color::Black,
        Color::Red,
        Color::Green,
        Color::Yellow,
        Color::Blue,
        Color::Purple,
        Color::Cyan,
        Color::White,
    ];
    for (digit, color) in palette.iter().enumerate() {
        let code = format!("0{}07", digit);
        assert_eq!(colors.convert_code(code.as_bytes()), AnsiParams::plain(*color, Color::White));
    }
    assert_eq!(colors.convert_code(b"0807").bg, Color::Black);
    assert_eq!(colors.convert_code(b"0907").bg, Color::Black);
    let styles = [
        Styles::Normal,
        Styles::Normal,
        Styles::Faint,
        Styles::Italic,
        Styles::Underline,
        Styles::Blink,
        Styles::Negative,
        Styles::Normal,
        Styles::Normal,
        Styles::Normal,
    ];
    // A bold digit on a plain foreground gives no attribute.
    for (digit, style) in styles.iter().enumerate() {
        let code = format!("{}007", digit);
        assert_eq!(
            colors.convert_code(code.as_bytes()),
            AnsiParams::plain(Color::Black, Color::White).with(*style)
        );
    }
}

#[test]
fn bold_digit_on_plain_foreground_is_not_bold() {
    assert_eq!(compile("$c1007x", true), b"\x1b[40;37mx\x1b[0m".to_vec());
}

#[test]
fn style_digit_and_bold_foreground_combine() {
    assert_eq!(compile("$c1009x", true), b"\x1b[1;40;31mx\x1b[0m".to_vec());
    assert_eq!(compile("$c2009x", true), b"\x1b[1;2;40;31mx\x1b[0m".to_vec());
    assert_eq!(compile("$c5312x", true), b"\x1b[1;5;43;34mx\x1b[0m".to_vec());
}

#[test]
fn each_attribute_has_its_number() {
    assert_eq!(compile("$c2001x", true), b"\x1b[2;40;31mx\x1b[0m".to_vec());
    assert_eq!(compile("$c3001x", true), b"\x1b[3;40;31mx\x1b[0m".to_vec());
    assert_eq!(compile("$c4001x", true), b"\x1b[4;40;31mx\x1b[0m".to_vec());
    assert_eq!(compile("$c5001x", true), b"\x1b[5;40;31mx\x1b[0m".to_vec());
    assert_eq!(compile("$c600bx", true), b"\x1b[7;40;34mx\x1b[0m".to_vec());
}

#[test]
fn paint_wraps_text_in_prefix_and_reset() {
    let colors = AnsiColors::get();
    let all = AnsiParams {
        bold: true,
        faint: true,
        italic: true,
        underline: true,
        blink: true,
        reverse: true,
        bg: Color::Cyan,
        fg: Color::Yellow,
    };
    assert_eq!(colors.paint(all, b"text"), b"\x1b[1;2;3;4;5;7;46;33mtext\x1b[0m".to_vec());
    let none = AnsiParams::plain(Color::White, Color::Black);
    assert_eq!(colors.paint(none, b""), b"\x1b[47;30m\x1b[0m".to_vec());
    assert_eq!(colors.paint(none, &[0xFF, 0x00]), b"\x1b[47;30m\xff\x00\x1b[0m".to_vec());
}

#[test]
fn upper_case_marker() {
    assert_eq!(compile("$C0002go", true), b"\x1b[40;32mgo\x1b[0m".to_vec());
}

#[test]
fn text_before_the_first_marker_gets_the_default_code() {
    assert_eq!(
        compile("Hi $c0001red", true),
        b"\x1b[40;37mHi \x1b[0m\x1b[40;31mred\x1b[0m".to_vec()
    );
}

#[test]
fn line_break_is_unstyled_and_resets() {
    assert_eq!(
        compile("$c0001red\r\nplain", true),
        b"\x1b[40;31mred\x1b[0m\r\n\x1b[40;37mplain\x1b[0m".to_vec()
    );
    assert_eq!(
        compile("first\n$c0001red", true),
        b"\x1b[40;37mfirst\x1b[0m\n\x1b[40;31mred\x1b[0m".to_vec()
    );
}

#[test]
fn markers_are_removed_without_ansi() {
    assert_eq!(compile("a$c0001b$C0002c\r\n", false), b"abc\r\n".to_vec());
    assert_eq!(compile("$c0001", false), Vec::<u8>::new());
}

#[test]
fn marker_without_text_still_sets_its_style() {
    assert_eq!(compile("$c0001", true), b"\x1b[40;31m\x1b[0m".to_vec());
}

#[test]
fn dollar_without_a_code_is_text() {
    assert_eq!(compile("cost $5", true), b"\x1b[40;37mcost $5\x1b[0m".to_vec());
    assert_eq!(compile("$c00", false), b"$c00".to_vec());
    assert_eq!(compile("$c000 x", false), b"$c000 x".to_vec());
    assert_eq!(compile("$x0001y", false), b"$x0001y".to_vec());
    assert_eq!(compile("$c0a01y", false), b"$c0a01y".to_vec());
}

#[test]
fn marker_recognition() {
    assert!(is_marker_at(b"$c0007", 0));
    assert!(is_marker_at(b"ab$C123!", 2));
    assert!(!is_marker_at(b"$c0007", 1));
    assert!(!is_marker_at(b"$c000", 0));
    assert!(!is_marker_at(b"$c000\t", 0));
    assert!(is_marker_at(b"$c000\x7f", 0));
    assert!(is_marker_at(b"$c000\x00", 0));
    assert!(!is_marker_at(b"$c000 ", 0));
    assert!(!is_marker_at(b"$c000\n", 0));
    assert!(is_marker_at("$c000\u{e9}".as_bytes(), 0));
    assert!(is_marker_at("$c000\u{1f600}".as_bytes(), 0));
    assert!(!is_marker_at("$c000\u{a0}".as_bytes(), 0));
    assert!(!is_marker_at("$c000\u{2003}".as_bytes(), 0));
    assert!(!is_marker_at(b"$c000\xc3", 0));
    assert!(!is_marker_at(b"$c000\xff", 0));
    assert!(!is_marker_at(b"$c000\xc0\x80", 0));
    assert!(!is_marker_at(b"$c0007", 7));
    assert!(contains_marker(b"text $c0001 more"));
    assert!(!contains_marker(b"text $c001 more"));
    assert!(!contains_marker(b""));
}

#[test]
fn scan_cuts_into_parts() {
    let parts = scan_markup(b"Hi $c0001red\r\n\r\n$c0002green", b"0007");
    assert_eq!(parts.len(), 3);
    assert_eq!(parts[0].code, b"0007".to_vec());
    assert_eq!(parts[0].text, b"Hi ".to_vec());
    assert_eq!(parts[0].eol, Vec::<u8>::new());
    assert_eq!(parts[1].code, b"0001".to_vec());
    assert_eq!(parts[1].text, b"red".to_vec());
    assert_eq!(parts[1].eol, b"\r\n\r\n".to_vec());
    assert_eq!(parts[2].code, b"0002".to_vec());
    assert_eq!(parts[2].text, b"green".to_vec());
    assert_eq!(parts[2].eol, Vec::<u8>::new());
}

#[test]
fn scan_without_marker_is_one_part() {
    let parts = scan_markup(b"one\r\ntwo", b"0007");
    assert_eq!(parts.len(), 1);
    assert_eq!(parts[0].code, b"0007".to_vec());
    assert_eq!(parts[0].text, b"one\r\ntwo".to_vec());
    assert_eq!(parts[0].eol, Vec::<u8>::new());
}

#[test]
fn render_parts_renders_given_parts() {
    let colors = AnsiColors::get();
    let parts = scan_markup(b"$c0001a$c0001b\n", b"0007");
    assert_eq!(colors.render_parts(&parts, true), b"\x1b[40;31mab\x1b[0m\n".to_vec());
    assert_eq!(colors.render_parts(&parts, false), b"ab\n".to_vec());
    assert_eq!(colors.render_parts(&Vec::new(), true), Vec::<u8>::new());
}

#[test]
fn color_index_is_palette_number() {
    assert_eq!(Color::Black.index(), 0);
    assert_eq!(Color::Red.index(), 1);
    assert_eq!(Color::Green.index(), 2);
    assert_eq!(Color::Yellow.index(), 3);
    assert_eq!(Color::Blue.index(), 4);
    assert_eq!(Color::Purple.index(), 5);
    assert_eq!(Color::Cyan.index(), 6);
    assert_eq!(Color::White.index(), 7);
}

#[test]
fn reset_goes_out_where_the_style_ends() {
    // Before a part in another style, before a line break, and at the end.
    assert_eq!(
        compile("$c0001a$c0002b\n$c0002c", true),
        b"\x1b[40;31ma\x1b[0m\x1b[40;32mb\x1b[0m\nc".to_vec()
    );
    assert_eq!(
        compile("$c0001a\n$c0002b", true),
        b"\x1b[40;31ma\x1b[0m\n\x1b[40;32mb\x1b[0m".to_vec()
    );
    let colors = AnsiColors::get();
    assert_eq!(colors.style_on(AnsiParams::default()), b"\x1b[40;37m".to_vec());
    assert_eq!(colors.style_off(AnsiParams::default()), b"\x1b[0m".to_vec());
}

#[test]
fn black_selectors_follow_the_case_rule() {
    assert_eq!(compile("$c070xdark", true), b"\x1b[47;30mdark\x1b[0m".to_vec());
    assert_eq!(compile("$c070Xdark", true), b"\x1b[1;47;30mdark\x1b[0m".to_vec());
}

#[test]
fn code_may_end_in_any_character_but_white_space() {
    assert_eq!(compile("$c000\x7fx", false), b"x".to_vec());
    assert_eq!(compile("a$c410\u{e9}b", false), b"ab".to_vec());
    assert_eq!(compile("$c410\u{e9}b", true), b"\x1b[4;41;37mb\x1b[0m".to_vec());
    assert_eq!(compile("$c000\u{1f600}x", false), b"x".to_vec());
    assert_eq!(compile("$c000\u{a0}x", false), "$c000\u{a0}x".as_bytes().to_vec());
    assert_eq!(compile("$c000\tx", false), b"$c000\tx".to_vec());
}

#[test]
fn code_with_digits_of_another_script_compiles_as_the_default() {
    let colors = AnsiColors::get();
    let message = "$c\u{664}\u{661}\u{660}\u{661}red";
    assert_eq!(marker_length(message.as_bytes(), 0), 10);
    assert_eq!(compile(message, false), b"red".to_vec());
    assert_eq!(compile(message, true), b"\x1b[40;37mred\x1b[0m".to_vec());
    assert_eq!(colors.convert_code("\u{664}\u{661}\u{660}\u{661}".as_bytes()), AnsiParams::default());
    assert!(!has_code_form("\u{664}\u{661}\u{660}\u{661}".as_bytes()));
    assert!(has_code_form(b"4101"));
    assert!(has_code_form("410\u{e9}".as_bytes()));
    assert!(!has_code_form(b"410"));
    assert!(!has_code_form(b"4101x"));
}

#[test]
fn characters_are_whole_utf8_sequences() {
    assert_eq!(char_at(b"a", 0), (1, 0x61));
    assert_eq!(char_at(b"a", 1), (0, 0));
    assert_eq!(char_at("\u{e9}".as_bytes(), 0), (2, 0xE9));
    assert_eq!(char_at("\u{20ac}".as_bytes(), 0), (3, 0x20AC));
    assert_eq!(char_at("\u{1f600}".as_bytes(), 0), (4, 0x1F600));
    assert_eq!(char_at("\u{10ffff}".as_bytes(), 0), (4, 0x10FFFF));
    assert_eq!(char_at("x\u{7ff}".as_bytes(), 1), (2, 0x7FF));
    assert_eq!(char_at("\u{800}".as_bytes(), 0), (3, 0x800));
    assert_eq!(char_at("\u{ffff}".as_bytes(), 0), (3, 0xFFFF));
    assert_eq!(char_at("\u{10000}".as_bytes(), 0), (4, 0x10000));
    // Cut short, continuation without a lead, overlong forms, surrogates,
    // and values beyond the last scalar value.
    assert_eq!(char_at(b"\xc3", 0), (0, 0));
    assert_eq!(char_at(b"\xa9", 0), (0, 0));
    assert_eq!(char_at(b"\xc0\x80", 0), (0, 0));
    assert_eq!(char_at(b"\xc1\xbf", 0), (0, 0));
    assert_eq!(char_at(b"\xe0\x80\x80", 0), (0, 0));
    assert_eq!(char_at(b"\xed\xa0\x80", 0), (0, 0));
    assert_eq!(char_at(b"\xf0\x80\x80\x80", 0), (0, 0));
    assert_eq!(char_at(b"\xf4\x90\x80\x80", 0), (0, 0));
    assert_eq!(char_at(b"\xf5\x80\x80\x80", 0), (0, 0));
    assert_eq!(char_at(b"\xe2\x82", 0), (0, 0));
    assert_eq!(char_at(b"\xc3\x28", 0), (0, 0));
}

#[test]
fn white_space_and_digits_follow_unicode() {
    for c in 0u32..=0x10FFFF {
        if let Some(ch) = char::from_u32(c) {
            assert_eq!(white_space(c), ch.is_whitespace(), "white space U+{:04X}", c);
        }
    }
    for c in [0x30u32, 0x39, 0x660, 0x669, 0x6F0, 0xFF10, 0xFF19, 0x11DA0, 0x116DA, 0x116E3, 0x1D7CE, 0x1D7FF, 0x1E950, 0x1FBF0, 0x1FBF9] {
        assert!(decimal_digit(c), "digit U+{:04X}", c);
    }
    for c in [0x2Fu32, 0x3A, 0x41, 0xB2, 0xBD, 0x65F, 0x66A, 0x2160, 0x3007, 0x1D7CD, 0x1D800, 0x1FBFA, 0x10FFFF] {
        assert!(!decimal_digit(c), "no digit U+{:04X}", c);
    }
}

#[test]
fn one_style_sequence_for_each_change_of_style() {
    fn sequences(out: &[u8]) -> usize {
        out.windows(2).filter(|pair| pair[0] == 0x1b && pair[1] == b'[').count()
            - out.windows(4).filter(|four| four == b"\x1b[0m").count()
    }
    // Four parts, styles red red green red, with and without line breaks.
    assert_eq!(sequences(&compile("$c0001a$c0001b$c0002c$c0001d", true)), 3);
    assert_eq!(sequences(&compile("$c0001a\n$c0001b\n$c0002c\n$c0001d\n", true)), 3);
    assert_eq!(sequences(&compile("$c0001a\n$c0001b\n$c0001c", true)), 1);
    assert_eq!(sequences(&compile("text $c0007more\nand more", true)), 1);
}
