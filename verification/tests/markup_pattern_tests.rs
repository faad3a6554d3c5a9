use fancy_regex::Regex;
use havokmud::ansicolors::AnsiColors;
use havokmud::chars::{decimal_digit, white_space};
use havokmud::markup::scan_markup;

/// The marker grammar as a pattern: what stands before a marker on its
/// line, the marker's code, its text, and the line break that ends it.
const PATTERN: &str =
    r"(?P<preamble>.*?)\$[Cc](?P<code>\d\d\d\S)(?P<text>.*?)(?=(?P<eol>[\r\n]+)|$|\$[Cc]\d\d\d\S)";

fn by_pattern(message: &str) -> Vec<(String, String, String)> {
    let regex = Regex::new(PATTERN).unwrap();
    let mut parts = Vec::new();
    for found in regex.captures_iter(message) {
        let captures = found.unwrap();
        let group = |name: &str| captures.name(name).map_or("", |m| m.as_str()).to_string();
        let preamble = group("preamble");
        if !preamble.is_empty() {
            parts.push(("0007".to_string(), preamble, String::new()));
        }
        parts.push((group("code"), group("text"), group("eol")));
    }
    if parts.is_empty() {
        parts.push(("0007".to_string(), message.to_string(), String::new()));
    }
    parts
}

fn by_scanner(message: &str) -> Vec<(String, String, String)> {
    scan_markup(message.as_bytes(), b"0007")
        .into_iter()
        .map(|part| {
            (
                String::from_utf8(part.code).unwrap(),
                String::from_utf8(part.text).unwrap(),
                String::from_utf8(part.eol).unwrap(),
            )
        })
        .collect()
}

#[test]
fn scanner_agrees_with_the_pattern_on_single_lines() {
    let messages = [
        "",
        "plain text",
        "plain text\r\n",
        "$c0001red",
        "$C0001red",
        "Hi $c0001red",
        "$c0001red\r\n",
        "$c0001red\n",
        "Hi $c0001red$c0002green$c0007.\r\n",
        "$c0001$c0002",
        "$c0001",
        "x$c0001",
        "$c000$c0001b",
        "$$c0001x",
        "$c00$c0001x",
        "$c$c00010001x",
        "cost $5 $c0003gold$c0007 only",
        "$c020PWelcome to Havok\r\n",
        "$c9999odd",
        "$c000 not a marker",
        "$c0a01 not a marker",
        "$x0001 not a marker",
        "ends in a cut marker $c000",
        "tab\tand space $c5312blink",
        "$c000\u{7f}del",
        "$c000\u{e9}rest",
        "$c410\u{e9}$c0001b",
        "$c000\u{a0}rest",
        "$c000\u{85}rest",
        "$c000\u{1680}rest",
        "$c000\u{2003}rest",
        "$c000\u{200a}rest",
        "$c000\u{200b}rest",
        "$c000\u{2028}rest",
        "$c000\u{202f}rest",
        "$c000\u{205f}rest",
        "$c000\u{3000}rest",
        "$c000\u{3001}rest",
        "$c000\u{1f600}rest",
        "h\u{e9}llo $c0001w\u{f6}rld\u{2603}",
        "$c000\u{b}rest",
        "$c000\u{c}rest",
        "$c\u{661}\u{662}\u{663}x then text",
        "$c0\u{6f1}1xmixed digits",
        "$c\u{ff10}\u{ff11}\u{ff12}\u{e9}wide digits",
        "$c\u{1d7ce}\u{1d7ff}\u{1e950}!far digits",
        "$c00\u{b2}x superscript is no digit",
        "$c00\u{2160}x roman numeral is no digit",
        "$c00\u{bd}x fraction is no digit",
    ];
    for message in messages {
        assert_eq!(by_scanner(message), by_pattern(message), "message {:?}", message);
    }
}

#[test]
fn text_behind_a_line_break_is_kept() {
    // A line without a marker of its own is a part under the default code.
    assert_eq!(
        by_scanner("$c0001red\r\nplain"),
        vec![
            ("0001".to_string(), "red".to_string(), "\r\n".to_string()),
            ("0007".to_string(), "plain".to_string(), String::new()),
        ]
    );
    assert_eq!(
        by_scanner("first\nsecond $c0002green"),
        vec![
            ("0007".to_string(), "first".to_string(), "\n".to_string()),
            ("0007".to_string(), "second ".to_string(), String::new()),
            ("0002".to_string(), "green".to_string(), String::new()),
        ]
    );
    let colors = AnsiColors::get();
    assert_eq!(
        colors.convert_bytes(b"first\nsecond $c0002green", false),
        b"first\nsecond green".to_vec()
    );
}

#[test]
fn line_break_at_the_start_is_a_part_without_text() {
    assert_eq!(
        by_scanner("\r\n$c0001red"),
        vec![
            ("0007".to_string(), String::new(), "\r\n".to_string()),
            ("0001".to_string(), "red".to_string(), String::new()),
        ]
    );
}

#[test]
fn code_ends_in_a_whole_character() {
    assert_eq!(
        by_scanner("$c000\u{e9}x"),
        vec![("000\u{e9}".to_string(), "x".to_string(), String::new())]
    );
    // White space does not complete a marker.
    assert_eq!(
        by_scanner("$c000\u{a0}x"),
        vec![("0007".to_string(), "$c000\u{a0}x".to_string(), String::new())]
    );
    // Bytes that are no well-formed character do not complete one either.
    let parts = scan_markup(b"$c000\xffx", b"0007");
    assert_eq!(parts.len(), 1);
    assert_eq!(parts[0].text, b"$c000\xffx".to_vec());
}

#[test]
fn character_classes_agree_with_the_pattern_classes() {
    let every: String = (0u32..=0x10FFFF).filter_map(char::from_u32).collect();
    let digits: Vec<char> = Regex::new(r"\d")
        .unwrap()
        .find_iter(&every)
        .map(|found| found.unwrap().as_str().chars().next().unwrap())
        .collect();
    let expected: Vec<char> = every.chars().filter(|c| decimal_digit(u32::from(*c))).collect();
    assert_eq!(digits, expected);
    let spaces: Vec<char> = Regex::new(r"\s")
        .unwrap()
        .find_iter(&every)
        .map(|found| found.unwrap().as_str().chars().next().unwrap())
        .collect();
    let expected: Vec<char> = every.chars().filter(|c| white_space(u32::from(*c))).collect();
    assert_eq!(spaces, expected);
}
