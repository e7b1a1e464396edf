use one_night::text::{
    decimal_text, is_white_space, list_names, parse_number, receive_text, split_words, trim,
};

#[test]
fn decimals() {
    assert_eq!(decimal_text(0), "0");
    assert_eq!(decimal_text(9), "9");
    assert_eq!(decimal_text(10), "10");
    assert_eq!(decimal_text(1234567890), "1234567890");
    assert_eq!(decimal_text(usize::MAX), usize::MAX.to_string());
}

#[test]
fn white_space_is_that_of_unicode() {
    for u in 0..=0x10ffffu32 {
        if let Some(c) = char::from_u32(u) {
            assert_eq!(is_white_space(c), c.is_whitespace(), "{:?}", c);
        }
    }
}

#[test]
fn trims_both_ends() {
    let cases = ["", " ", "a", " a ", "\t a b \r\n", "\u{3000}酒鬼\u{a0}", "\u{200b}x"];
    for case in cases {
        assert_eq!(trim(case), case.trim());
    }
    assert_eq!(trim("  3 4\n"), "3 4");
}

#[test]
fn splits_at_white_space() {
    let cases = ["", "  ", "1 2", " 1\t\t2 ", "1\u{3000}2 3\n", "强盗", "a\u{2028}b"];
    for case in cases {
        let expected: Vec<String> = case.split_whitespace().map(|w| w.to_string()).collect();
        assert_eq!(split_words(case), expected);
    }
    assert_eq!(split_words(" 3  5\n"), vec!["3".to_string(), "5".to_string()]);
}

#[test]
fn reads_numbers() {
    let cases = [
        "", "+", "-", "0", "00", "007", "+7", "++7", "-0", "-7", "7 ", " 7", "1a", "１", "3.0", "+0",
        "18446744073709551615", "18446744073709551616", "018446744073709551615",
        "99999999999999999999999999", "4294967295", "4294967296",
    ];
    for case in cases {
        assert_eq!(parse_number(case), case.parse::<usize>().ok(), "{:?}", case);
    }
    assert_eq!(parse_number("42"), Some(42));
    assert_eq!(parse_number("+42"), Some(42));
    assert_eq!(parse_number("-42"), None);
}

#[test]
fn reads_back_what_it_writes() {
    for n in [0, 1, 6, 10, 99, 100, 4294967295, usize::MAX] {
        assert_eq!(parse_number(&decimal_text(n)), Some(n));
        let line = format!(" \t{}\r\n", decimal_text(n));
        assert_eq!(parse_number(trim(&line)), Some(n));
    }
}

#[test]
fn lists_names_in_quotes() {
    let cases: Vec<Vec<String>> = vec![
        vec![],
        vec!["a".to_string()],
        vec!["a".to_string(), "b c".to_string()],
        vec!["小明\n".to_string(), "\"q\"".to_string(), "\\".to_string()],
    ];
    for case in &cases {
        assert_eq!(list_names(case), format!("{:?}", case));
    }
    assert_eq!(list_names(&cases[2]), "[\"a\", \"b c\"]");
    assert_eq!(list_names(&cases[3]), "[\"小明\\n\", \"\\\"q\\\"\", \"\\\\\"]");
}

#[test]
fn receives_text() {
    assert_eq!(receive_text(&b"anna\n".to_vec()), "anna\n");
    assert_eq!(receive_text(&"小明".as_bytes().to_vec()), "小明");
    assert_eq!(receive_text(&vec![]), "");
    assert_eq!(receive_text(&vec![b'a', 0xff, b'b']), "a\u{fffd}b");
    assert_eq!(receive_text(&vec![0xe5, 0xb0]), String::from_utf8_lossy(&[0xe5, 0xb0]));
}
