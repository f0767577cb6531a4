use p4tohg::batch::ascending;
use p4tohg::batch::insert_ascending;
use p4tohg::batch::resume_point;
use p4tohg::batch::take_batch;
use p4tohg::lines::is_whitespace;
use p4tohg::lines::rest_of;
use p4tohg::lines::slice_of;
use p4tohg::lines::split_lines;
use p4tohg::lines::starts_with;
use p4tohg::lines::trim;
use p4tohg::lines::whole_lines;
use p4tohg::text::chars_of;
use p4tohg::text::copy_of;
use p4tohg::text::decimal_string;
use p4tohg::text::digit_char;
use p4tohg::text::digit_value;
use p4tohg::text::digits_end;
use p4tohg::text::join;
use p4tohg::text::parse_number;
use p4tohg::text::push_chars;
use p4tohg::text::push_decimal;
use p4tohg::text::push_signed_decimal;
use p4tohg::text::string_of;

fn chars(text: &str) -> Vec<char> {
    text.chars().collect()
}

fn lines_of(text: &str) -> Vec<String> {
    split_lines(&chars(text)).iter().map(|line| line.iter().collect()).collect()
}

#[test]
fn strings_and_characters_convert_both_ways() {
    assert_eq!(chars_of("a\u{e9}\u{1f600}"), vec!['a', '\u{e9}', '\u{1f600}']);
    assert_eq!(chars_of(""), Vec::<char>::new());
    assert_eq!(string_of(&vec!['h', 'i', '\u{fc}']), "hi\u{fc}");
    assert_eq!(copy_of("same"), "same");
    assert_eq!(join("left", "right"), "leftright");
    let mut text = String::from("ab");
    push_chars(&mut text, &vec!['c', 'd']);
    assert_eq!(text, "abcd");
}

#[test]
fn decimal_writes_numbers_without_leading_zeros() {
    assert_eq!(decimal_string(0), "0");
    assert_eq!(decimal_string(9), "9");
    assert_eq!(decimal_string(10), "10");
    assert_eq!(decimal_string(4294967296), "4294967296");
    assert_eq!(decimal_string(u64::MAX), "18446744073709551615");
    let mut text = String::from("n=");
    push_decimal(&mut text, 805);
    assert_eq!(text, "n=805");
}

#[test]
fn signed_decimal_writes_the_sign_of_negative_numbers() {
    let mut text = String::new();
    push_signed_decimal(&mut text, -1);
    text.push(' ');
    push_signed_decimal(&mut text, 0);
    text.push(' ');
    push_signed_decimal(&mut text, i32::MAX);
    text.push(' ');
    push_signed_decimal(&mut text, i32::MIN);
    assert_eq!(text, "-1 0 2147483647 -2147483648");
}

#[test]
fn digits_have_their_values() {
    assert_eq!(digit_value('0'), Some(0));
    assert_eq!(digit_value('9'), Some(9));
    assert_eq!(digit_value('a'), None);
    assert_eq!(digit_value('/'), None);
    assert_eq!(digit_value(':'), None);
    assert_eq!(digit_value('\u{664}'), None);
    assert_eq!(digit_char(0), '0');
    assert_eq!(digit_char(7), '7');
}

#[test]
fn parse_number_takes_digits_in_range_only() {
    let text = chars("x123y");
    assert_eq!(parse_number(&text, 1, 4), Some(123));
    assert_eq!(parse_number(&text, 1, 1), None);
    assert_eq!(parse_number(&text, 0, 4), None);
    assert_eq!(parse_number(&text, 1, 5), None);
    let large = chars("4294967295");
    assert_eq!(parse_number(&large, 0, 10), Some(u32::MAX));
    let too_large = chars("4294967296");
    assert_eq!(parse_number(&too_large, 0, 10), None);
    let zeros = chars("0000000000042");
    assert_eq!(parse_number(&zeros, 0, 13), Some(42));
}

#[test]
fn digits_end_finds_the_end_of_the_digits() {
    let text = chars("ab123cd");
    assert_eq!(digits_end(&text, 2), 5);
    assert_eq!(digits_end(&text, 0), 0);
    assert_eq!(digits_end(&text, 5), 5);
    assert_eq!(digits_end(&text, 7), 7);
    assert_eq!(digits_end(&chars("99"), 0), 2);
}

#[test]
fn lines_end_at_line_feeds() {
    assert_eq!(lines_of(""), Vec::<String>::new());
    assert_eq!(lines_of("one"), vec!["one"]);
    assert_eq!(lines_of("one\n"), vec!["one"]);
    assert_eq!(lines_of("one\ntwo"), vec!["one", "two"]);
    assert_eq!(lines_of("one\n\ntwo\n"), vec!["one", "", "two"]);
    assert_eq!(lines_of("\n"), vec![""]);
    assert_eq!(lines_of("\n\n"), vec!["", ""]);
}

#[test]
fn lines_lose_the_carriage_return_before_a_line_feed_only() {
    assert_eq!(lines_of("one\r\ntwo\r\n"), vec!["one", "two"]);
    assert_eq!(lines_of("one\rtwo\n"), vec!["one\rtwo"]);
    assert_eq!(lines_of("one\r"), vec!["one\r"]);
    assert_eq!(lines_of("\r\n"), vec![""]);
    assert_eq!(lines_of("a\r\r\n"), vec!["a\r"]);
}

#[test]
fn lines_agree_with_the_standard_library() {
    for text in ["", "a", "a\n", "a\nb", "a\r\nb\r\n", "\n\na", "a\rb", "x\r", "\r\n\r\n", "q\n\r"] {
        let expected: Vec<String> = text.lines().map(String::from).collect();
        assert_eq!(lines_of(text), expected, "{:?}", text);
    }
}

#[test]
fn trim_drops_white_space_at_both_ends() {
    assert_eq!(string_of(&trim(&chars("  token \r\n"))), "token");
    assert_eq!(string_of(&trim(&chars("a b"))), "a b");
    assert_eq!(string_of(&trim(&chars(" \t\n"))), "");
    assert_eq!(string_of(&trim(&chars(""))), "");
    assert_eq!(string_of(&trim(&chars("\u{a0}x\u{3000}"))), "x");
    assert_eq!(string_of(&trim(&chars("\u{200b}x"))), "\u{200b}x");
}

#[test]
fn white_space_is_what_the_standard_library_takes_for_it() {
    for code in 0u32..0x3100 {
        if let Some(ch) = char::from_u32(code) {
            assert_eq!(is_whitespace(ch), ch.is_whitespace(), "{:x}", code);
        }
    }
}

#[test]
fn prefixes_and_rests() {
    let text = chars("Change 12");
    assert!(starts_with(&text, "Change "));
    assert!(starts_with(&text, ""));
    assert!(starts_with(&text, "Change 12"));
    assert!(!starts_with(&text, "Change 123"));
    assert!(!starts_with(&text, "change"));
    assert_eq!(string_of(&rest_of(&text, 7)), "12");
    assert_eq!(string_of(&rest_of(&text, 9)), "");
    assert_eq!(string_of(&rest_of(&text, 10)), "");
    assert_eq!(string_of(&slice_of(&text, 2, 6)), "ange");
}

#[test]
fn ascending_sorts_and_drops_repetitions() {
    assert_eq!(ascending(&vec![12, 10, 11]), vec![10, 11, 12]);
    assert_eq!(ascending(&vec![3, 1, 3, 2, 1]), vec![1, 2, 3]);
    assert_eq!(ascending(&vec![]), Vec::<u32>::new());
    assert_eq!(ascending(&vec![5, 5, 5]), vec![5]);
    assert_eq!(ascending(&vec![u32::MAX, 0]), vec![0, u32::MAX]);
}

#[test]
fn insert_ascending_keeps_the_order() {
    let mut ids = vec![2, 4, 6];
    insert_ascending(&mut ids, 5);
    insert_ascending(&mut ids, 1);
    insert_ascending(&mut ids, 7);
    insert_ascending(&mut ids, 4);
    assert_eq!(ids, vec![1, 2, 4, 5, 6, 7]);
}

#[test]
fn a_batch_is_the_start_of_the_changes() {
    assert_eq!(take_batch(&vec![10, 11, 12], 2), vec![10, 11]);
    assert_eq!(take_batch(&vec![10, 11, 12], 3), vec![10, 11, 12]);
    assert_eq!(take_batch(&vec![10, 11, 12], 5), vec![10, 11, 12]);
    assert_eq!(take_batch(&vec![10, 11, 12], 0), Vec::<u32>::new());
    assert_eq!(take_batch(&vec![], 4), Vec::<u32>::new());
}

#[test]
fn the_resume_point_is_the_change_after_the_last() {
    assert_eq!(resume_point(None), 1);
    assert_eq!(resume_point(Some(0)), 1);
    assert_eq!(resume_point(Some(41)), 42);
    assert_eq!(resume_point(Some(u32::MAX)), 4294967296);
}

#[test]
fn whole_lines_end_with_the_last_line_feed() {
    let whole = |text: &str| string_of(&whole_lines(&chars(text)));
    assert_eq!(whole("one\ntwo\nthr"), "one\ntwo\n");
    assert_eq!(whole("one\ntwo\n"), "one\ntwo\n");
    assert_eq!(whole("one"), "");
    assert_eq!(whole(""), "");
    assert_eq!(whole("\n"), "\n");
    assert_eq!(whole("\nrest"), "\n");
    assert_eq!(whole("a\r\nb\r"), "a\r\n");
}
