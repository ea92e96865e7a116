use mibar::text::{advance_until, find_from, parse_decimal, trim_start_from, find_nth_line};

#[test]
fn finds_substrings() {
    assert_eq!(find_from(b"abcabc", b"bc", 0), Some(1));
    assert_eq!(find_from(b"abcabc", b"bc", 2), Some(4));
    assert_eq!(find_from(b"abcabc", b"x", 0), None);
    assert_eq!(find_from(b"abc", b"", 3), Some(3));
    assert_eq!(find_from(b"abc", b"abcd", 0), None);
}

#[test]
fn advances_to_the_stop_byte() {
    assert_eq!(advance_until(b"12 34", b' '), 2);
    assert_eq!(advance_until(b"1234", b' '), 4);
    assert_eq!(advance_until(b"", b' '), 0);
}

#[test]
fn parses_decimals_like_str_parse() {
    assert_eq!(parse_decimal(b"255", 255), Some(255));
    assert_eq!(parse_decimal(b"256", 255), None);
    assert_eq!(parse_decimal(b"+0", 255), Some(0));
    assert_eq!(parse_decimal(b"+", 255), None);
    assert_eq!(parse_decimal(b"-1", 255), None);
    assert_eq!(parse_decimal(b"00000000000000000000007", 255), Some(7));
    assert_eq!(parse_decimal(b"", 255), None);
    assert_eq!(parse_decimal(b"1a", 255), None);
}

#[test]
fn trims_unicode_whitespace() {
    let t = " \t\u{a0}\u{3000}x y".as_bytes();
    let start = trim_start_from(t, 0, t.len());
    assert_eq!(&t[start..], b"x y");
}

#[test]
fn nth_line_like_str_lines() {
    let t = b"a\r\nbb\n\nccc";
    assert_eq!(find_nth_line(t, 0, 0), Some((0, 1)));
    assert_eq!(find_nth_line(t, 0, 1), Some((3, 5)));
    assert_eq!(find_nth_line(t, 0, 2), Some((6, 6)));
    assert_eq!(find_nth_line(t, 0, 3), Some((7, 10)));
    assert_eq!(find_nth_line(t, 0, 4), None);
    assert_eq!(find_nth_line(b"x\n", 0, 1), None);
}
