use fed::text::{
    blank, byte_slice, chars_of, cut_at, decimal, glue, insert_at, is_whitespace, join_lines,
    lines_of, pad_left, parse_decimal, remove_at, split_on, str_eq, string_of, trimmed,
};

#[test]
fn chars_and_back() {
    assert_eq!(chars_of("héllo"), vec!['h', 'é', 'l', 'l', 'o']);
    assert_eq!(chars_of(""), Vec::<char>::new());
    let chars = vec!['a', 'ß', 'c', 'd'];
    assert_eq!(string_of(&chars, 1, 3), "ßc");
    assert_eq!(string_of(&chars, 0, 4), "aßcd");
    assert_eq!(string_of(&chars, 2, 2), "");
}

#[test]
fn strings_are_equal_by_their_characters() {
    assert!(str_eq("", ""));
    assert!(str_eq("keyword", "keyword"));
    assert!(!str_eq("keyword", "keywork"));
    assert!(!str_eq("key", "keyword"));
    assert!(!str_eq("é", "e"));
}

#[test]
fn white_space_is_what_unicode_says() {
    for code in 0..=0x10FFFFu32 {
        if let Some(c) = char::from_u32(code) {
            assert_eq!(is_whitespace(c), c.is_whitespace(), "U+{:04X}", code);
        }
    }
}

#[test]
fn a_text_is_split_at_each_separator() {
    assert_eq!(split_on("a,b,,c", ','), vec!["a", "b", "", "c"]);
    assert_eq!(split_on("", ','), vec![""]);
    assert_eq!(split_on(",", ','), vec!["", ""]);
    assert_eq!(split_on("abc", ','), vec!["abc"]);
    assert_eq!(split_on("é\nü\n", '\n'), vec!["é", "ü", ""]);
}

#[test]
fn splitting_and_joining_give_the_text_back() {
    for text in ["", "a", "\n", "a\nb", "\n\na\n", "one\ntwo\nthree"] {
        let parts: Vec<String> = split_on(text, '\n').iter().map(|s| s.to_string()).collect();
        assert_eq!(join_lines(&parts), text);
    }
}

#[test]
fn the_lines_of_a_text() {
    assert_eq!(lines_of(""), Vec::<String>::new());
    assert_eq!(lines_of("abc"), vec!["abc"]);
    assert_eq!(lines_of("abc\n"), vec!["abc"]);
    assert_eq!(lines_of("abc\ndef"), vec!["abc", "def"]);
    assert_eq!(lines_of("abc\r\ndef\r\n"), vec!["abc", "def"]);
    assert_eq!(lines_of("\n"), vec![""]);
    assert_eq!(lines_of("a\n\nb"), vec!["a", "", "b"]);
    assert_eq!(lines_of("a\n\n"), vec!["a", ""]);
    assert_eq!(lines_of("a\r"), vec!["a\r"]);
    assert_eq!(lines_of("a\r\r\nb"), vec!["a\r", "b"]);
    for text in ["", "x", "x\n", "\r\n", "a\r\nb\r", "a\n\n", "\n\nq", "ä\r\n\r\n"] {
        let want: Vec<String> = text.lines().map(|s| s.to_string()).collect();
        assert_eq!(lines_of(text), want, "{:?}", text);
    }
}

#[test]
fn lines_are_joined_with_line_feeds() {
    assert_eq!(join_lines(&vec![]), "");
    assert_eq!(join_lines(&vec!["a".to_string()]), "a");
    assert_eq!(join_lines(&vec!["a".to_string(), "".to_string(), "b".to_string()]), "a\n\nb");
    assert_eq!(join_lines(&vec!["".to_string(), "".to_string()]), "\n");
}

#[test]
fn decimal_numerals_are_read() {
    assert_eq!(parse_decimal("0"), Some(0));
    assert_eq!(parse_decimal("2"), Some(2));
    assert_eq!(parse_decimal("007"), Some(7));
    assert_eq!(parse_decimal("1234567890"), Some(1234567890));
    assert_eq!(parse_decimal(&usize::MAX.to_string()), Some(usize::MAX));
    assert_eq!(parse_decimal(""), None);
    assert_eq!(parse_decimal("12a"), None);
    assert_eq!(parse_decimal("-1"), None);
    assert_eq!(parse_decimal("+1"), None);
    assert_eq!(parse_decimal(" 1"), None);
    assert_eq!(parse_decimal("١"), None);
    assert_eq!(parse_decimal("99999999999999999999999999"), None);
    let mut too_big = usize::MAX.to_string();
    let last = too_big.pop().unwrap();
    too_big.push(char::from_digit(last.to_digit(10).unwrap() + 1, 10).unwrap());
    assert_eq!(parse_decimal(&too_big), None);
}

#[test]
fn decimal_numerals_are_written() {
    assert_eq!(decimal(0), "0");
    assert_eq!(decimal(7), "7");
    assert_eq!(decimal(10), "10");
    assert_eq!(decimal(1234567890), "1234567890");
    assert_eq!(decimal(usize::MAX), usize::MAX.to_string());
    for n in [0usize, 1, 9, 10, 99, 100, 101, 65535, 1 << 40] {
        assert_eq!(parse_decimal(&decimal(n)), Some(n));
    }
}

#[test]
fn padding_aligns_to_the_right() {
    assert_eq!(pad_left("12", 6), "    12");
    assert_eq!(pad_left("123456", 6), "123456");
    assert_eq!(pad_left("1234567", 6), "1234567");
    assert_eq!(pad_left("", 3), "   ");
    assert_eq!(pad_left("é", 3), "  é");
    assert_eq!(blank(0), "");
    assert_eq!(blank(4), "    ");
}

#[test]
fn trimming_takes_white_space_from_both_ends() {
    assert_eq!(trimmed("  a b  "), "a b");
    assert_eq!(trimmed("a"), "a");
    assert_eq!(trimmed(""), "");
    assert_eq!(trimmed(" \t\n"), "");
    assert_eq!(trimmed("\u{a0}x\u{3000}"), "x");
    for text in ["", " ", "x ", " x", "\t x y \r\n", "\u{2003}ab\u{85}"] {
        assert_eq!(trimmed(text), text.trim(), "{:?}", text);
    }
}

#[test]
fn characters_go_in_and_out_by_column() {
    assert_eq!(insert_at("abc", 0, 'x'), "xabc");
    assert_eq!(insert_at("abc", 1, 'x'), "axbc");
    assert_eq!(insert_at("abc", 3, 'x'), "abcx");
    assert_eq!(insert_at("", 0, 'x'), "x");
    assert_eq!(insert_at("héé", 2, 'x'), "héxé");
    assert_eq!(remove_at("abc", 0), "bc");
    assert_eq!(remove_at("abc", 2), "ab");
    assert_eq!(remove_at("héllo", 1), "hllo");
    assert_eq!(cut_at("hello", 2), ("he".to_string(), "llo".to_string()));
    assert_eq!(cut_at("hello", 0), ("".to_string(), "hello".to_string()));
    assert_eq!(cut_at("hello", 5), ("hello".to_string(), "".to_string()));
    assert_eq!(cut_at("äöü", 1), ("ä".to_string(), "öü".to_string()));
    assert_eq!(glue("a", ' ', "b"), "a b");
    assert_eq!(glue("", ' ', ""), " ");
}

#[test]
fn bytes_of_a_text_are_sliced() {
    assert_eq!(byte_slice("hello", 1, 3), Some("el"));
    assert_eq!(byte_slice("hello", 0, 5), Some("hello"));
    assert_eq!(byte_slice("hello", 5, 5), Some(""));
    assert_eq!(byte_slice("hello", 0, 6), None);
    assert_eq!(byte_slice("hello", 3, 1), None);
    assert_eq!(byte_slice("aé", 1, 3), Some("é"));
    assert_eq!(byte_slice("aé", 1, 2), None);
    assert_eq!(byte_slice("aé", 2, 3), None);
    assert_eq!(byte_slice("", 0, 0), Some(""));
}
