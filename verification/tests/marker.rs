use p4tohg::marker::decode;
use p4tohg::marker::encode;
use p4tohg::marker::hex_char;
use p4tohg::marker::hex_digit;
use p4tohg::marker::push_escape;
use p4tohg::marker::push_escaped;
use p4tohg::marker::push_hex;
use p4tohg::marker::read_escape;
use p4tohg::marker::unescape;
use p4tohg::mercurial::MercurialError;

#[test]
fn encode_writes_marker_line_then_body() {
    assert_eq!(encode(10, "fix the build"), "change #10\nfix the build");
    assert_eq!(encode(0, ""), "change #0\n");
    assert_eq!(encode(4294967295, "x"), "change #4294967295\nx");
}

#[test]
fn encode_escapes_what_is_not_ascii() {
    assert_eq!(encode(7, "caf\u{e9}"), "change #7\ncaf\\u{e9}");
    assert_eq!(encode(7, "\u{1f600} ok"), "change #7\n\\u{1f600} ok");
    assert_eq!(encode(7, "a\u{80}b\u{7f}c"), "change #7\na\\u{80}b\u{7f}c");
    assert!(encode(7, "caf\u{e9}").is_ascii());
}

#[test]
fn encode_keeps_ascii_control_characters_and_backslashes() {
    assert_eq!(encode(1, "a\tb\nc\\d"), "change #1\na\tb\nc\\d");
}

#[test]
fn escape_matches_the_standard_unicode_escape() {
    for ch in ['\u{80}', '\u{e9}', '\u{fff}', '\u{1000}', '\u{ffff}', '\u{10000}', '\u{10ffff}'] {
        let mut out = String::new();
        push_escape(&mut out, ch);
        assert_eq!(out, ch.escape_unicode().to_string());
    }
    let mut out = String::from("x");
    push_escape(&mut out, 'y');
    assert_eq!(out, "xy");
}

#[test]
fn push_escaped_appends_to_what_is_there() {
    let mut out = String::from("head:");
    push_escaped(&mut out, "\u{fc}ber");
    assert_eq!(out, "head:\\u{fc}ber");
}

#[test]
fn hex_digits_are_lower_case_without_leading_zeros() {
    assert_eq!(hex_char(0), '0');
    assert_eq!(hex_char(9), '9');
    assert_eq!(hex_char(10), 'a');
    assert_eq!(hex_char(15), 'f');
    let mut out = String::new();
    push_hex(&mut out, 0);
    push_hex(&mut out, 255);
    push_hex(&mut out, 0x10ffff);
    assert_eq!(out, "0ff10ffff");
}

#[test]
fn decode_reads_the_number_behind_the_marker() {
    assert_eq!(decode("change #10"), Ok(Some(10)));
    assert_eq!(decode("change #0"), Ok(Some(0)));
    assert_eq!(decode("change #4294967295"), Ok(Some(4294967295)));
    assert_eq!(decode("change #007"), Ok(Some(7)));
}

#[test]
fn decode_stops_at_the_first_character_that_is_no_digit() {
    assert_eq!(decode("change #12\nbody"), Ok(Some(12)));
    assert_eq!(decode("change #12 and more"), Ok(Some(12)));
    assert_eq!(decode("change #3x4"), Ok(Some(3)));
}

#[test]
fn decode_without_marker_is_none() {
    assert_eq!(decode(""), Ok(None));
    assert_eq!(decode("initial commit"), Ok(None));
    assert_eq!(decode("Change #10"), Ok(None));
    assert_eq!(decode("change 10"), Ok(None));
    assert_eq!(decode(" change #10"), Ok(None));
    assert_eq!(decode("change "), Ok(None));
}

#[test]
fn decode_without_digits_is_an_error() {
    let expected = MercurialError::ChangeParseError {
        message: String::from("cannot parse integer from empty string"),
    };
    assert_eq!(decode("change #"), Err(MercurialError::change_parse_error(
        "cannot parse integer from empty string",
    )));
    assert_eq!(decode("change #x1"), Err(MercurialError::change_parse_error(
        "cannot parse integer from empty string",
    )));
    assert_eq!(decode("change #+5").unwrap_err(), expected);
    assert_eq!(decode("change #-5").unwrap_err(), expected);
}

#[test]
fn decode_of_a_number_out_of_range_is_an_error() {
    let expected = MercurialError::ChangeParseError {
        message: String::from("number too large to fit in target type"),
    };
    assert_eq!(decode("change #4294967296").unwrap_err(), expected);
    assert_eq!(decode("change #99999999999999999999999999").unwrap_err(), expected);
}

#[test]
fn decode_gives_back_what_encode_was_given() {
    for id in [0u32, 1, 9, 10, 11, 99, 100, 12345, 4294967294, 4294967295] {
        for body in ["", "plain", "caf\u{e9}", "1 leading digit", "\nline", "\u{1f600}"] {
            assert_eq!(decode(&encode(id, body)), Ok(Some(id)));
        }
    }
}

#[test]
fn unescape_reads_escapes_as_their_characters() {
    assert_eq!(unescape("caf\\u{e9}"), "caf\u{e9}");
    assert_eq!(unescape("\\u{1f600}\\u{80} \\u{10ffff}"), "\u{1f600}\u{80} \u{10ffff}");
    assert_eq!(unescape("plain text\n"), "plain text\n");
    assert_eq!(unescape(""), "");
    assert_eq!(unescape("\\\\u{e9}"), "\\\u{e9}");
    assert_eq!(unescape("\\u{\\u{e9}}"), "\\u{\u{e9}}");
}

#[test]
fn unescape_keeps_what_escaping_never_writes() {
    for text in [
        "\\u{41}",
        "\\u{7f}",
        "\\u{00e9}",
        "\\u{E9}",
        "\\u{d800}",
        "\\u{dfff}",
        "\\u{110000}",
        "\\u{1234567}",
        "\\u{e9",
        "\\u{}",
        "\\u{g}",
        "\\ue9}",
        "\\U{e9}",
        "u{e9}",
        "\\u{e9 }",
        "\\",
        "\\u",
        "\\u{",
    ] {
        assert_eq!(unescape(text), text, "{:?}", text);
    }
}

#[test]
fn read_escape_tells_the_length_of_the_escape() {
    let text: Vec<char> = "ab\\u{e9}cd".chars().collect();
    assert_eq!(read_escape(&text, 2), Some(('\u{e9}', 6)));
    assert_eq!(read_escape(&text, 0), None);
    assert_eq!(read_escape(&text, 3), None);
    assert_eq!(read_escape(&text, 10), None);
    let text: Vec<char> = "\\u{10ffff}".chars().collect();
    assert_eq!(read_escape(&text, 0), Some(('\u{10ffff}', 10)));
    let text: Vec<char> = "\\u{d7ff}\\u{e000}".chars().collect();
    assert_eq!(read_escape(&text, 0), Some(('\u{d7ff}', 8)));
    assert_eq!(read_escape(&text, 8), Some(('\u{e000}', 8)));
}

#[test]
fn hex_digits_are_read_in_lower_case_only() {
    assert_eq!(hex_digit('0'), Some(0));
    assert_eq!(hex_digit('9'), Some(9));
    assert_eq!(hex_digit('a'), Some(10));
    assert_eq!(hex_digit('f'), Some(15));
    assert_eq!(hex_digit('g'), None);
    assert_eq!(hex_digit('A'), None);
    assert_eq!(hex_digit('/'), None);
    assert_eq!(hex_digit(':'), None);
    assert_eq!(hex_digit('`'), None);
}

#[test]
fn a_description_comes_back_from_the_message() {
    let bodies = [
        "",
        "plain ascii\n",
        "caf\u{e9} au lait",
        "\u{1f600}\u{1f601}",
        "mixed \u{80}\u{7f}\u{7ff}\u{800}\u{ffff}\u{10000} end",
        "back\\slash and {braces} and \\u and \\u{ and \\u{zz}",
        "\\\u{e9}",
        "\\u{\u{e9}}",
        "tab\tand\nline feeds\r\n",
    ];
    for id in [0u32, 10, 4294967295] {
        for body in bodies {
            let message = encode(id, body);
            assert_eq!(decode(&message), Ok(Some(id)));
            let (marker, rest) = message.split_once('\n').unwrap();
            assert_eq!(marker, format!("change #{}", id));
            assert_eq!(unescape(rest), body, "{:?}", body);
        }
    }
}

#[test]
fn every_character_comes_back_from_its_escape() {
    for code in (0u32..0x110000).step_by(97).chain([0x7f, 0x80, 0xd7ff, 0xe000, 0x10ffff]) {
        if let Some(ch) = char::from_u32(code) {
            let mut escape = String::new();
            push_escape(&mut escape, ch);
            assert_eq!(unescape(&escape), ch.to_string(), "{:x}", code);
        }
    }
}

#[test]
fn a_description_that_holds_an_escape_comes_back_changed() {
    let body = "see \\u{e9} in the manual";
    let message = encode(1, body);
    assert_eq!(message, "change #1\nsee \\u{e9} in the manual");
    let (_, rest) = message.split_once('\n').unwrap();
    assert_eq!(unescape(rest), "see \u{e9} in the manual");
    assert_ne!(unescape(rest), body);
}
