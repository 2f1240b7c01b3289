use at_serial::text::{
    char_is_whitespace, chars_of, has_prefix, has_suffix, parse_decimal_i32, push_hex_list,
    same_chars, split_chars, split_lines, string_of, subvec, trimmed, without_repeated_prefix,
};

fn chars(s: &str) -> Vec<char> {
    s.chars().collect()
}

fn strings(parts: Vec<Vec<char>>) -> Vec<String> {
    parts.into_iter().map(|p| p.into_iter().collect()).collect()
}

#[test]
fn whitespace_agrees_with_std_on_every_char() {
    let mut code: u32 = 0;
    while code <= 0x10FFFF {
        if let Some(c) = char::from_u32(code) {
            assert_eq!(char_is_whitespace(c), c.is_whitespace(), "U+{:04X}", code);
        }
        code += 1;
    }
}

#[test]
fn chars_and_strings_round_trip() {
    let text = "AT+é\r\n";
    assert_eq!(chars_of(text), chars(text));
    assert_eq!(string_of(&chars(text)), text);
    assert_eq!(chars_of(""), Vec::<char>::new());
}

#[test]
fn subvec_takes_the_range() {
    assert_eq!(subvec(&chars("abcdef"), 2, 4), chars("cd"));
    assert_eq!(subvec(&chars("abcdef"), 3, 3), chars(""));
}

#[test]
fn same_chars_compares_contents() {
    assert!(same_chars(&chars("OK"), &chars("OK")));
    assert!(!same_chars(&chars("OK"), &chars("OKAY")));
    assert!(!same_chars(&chars("OK"), &chars("Ok")));
    assert!(same_chars(&chars(""), &chars("")));
}

#[test]
fn prefix_and_suffix() {
    assert!(has_prefix(&chars("Model: X"), &chars("Model: ")));
    assert!(!has_prefix(&chars("Mode"), &chars("Model: ")));
    assert!(has_prefix(&chars("abc"), &chars("")));
    assert!(has_suffix(&chars("AT\r\n"), &chars("\r\n")));
    assert!(!has_suffix(&chars("AT\n\r"), &chars("\r\n")));
    assert!(!has_suffix(&chars("\n"), &chars("\r\n")));
}

#[test]
fn trimmed_agrees_with_std() {
    for text in [
        "",
        " ",
        "OK",
        "  OK\r\n",
        "\t a b \u{a0}",
        "\u{2003}x\u{3000}",
        "\r\n",
        "a",
        " a",
        "a ",
        "\u{85}ERROR\u{85}",
    ] {
        assert_eq!(string_of(&trimmed(&chars(text))), text.trim(), "{:?}", text);
    }
}

#[test]
fn repeated_prefix_agrees_with_std() {
    for (text, prefix) in [
        ("^X:^X:1", "^X:"),
        ("^X:1", "^X:"),
        ("1", "^X:"),
        ("^X", "^X:"),
        ("aaa", "a"),
        ("", "a"),
        ("abc", ""),
    ] {
        assert_eq!(
            string_of(&without_repeated_prefix(&chars(text), &chars(prefix))),
            text.trim_start_matches(prefix),
            "{:?} {:?}",
            text,
            prefix
        );
    }
}

#[test]
fn lines_agree_with_std() {
    for text in [
        "",
        "a",
        "a\n",
        "a\r\n",
        "a\nb",
        "a\r\nb\r\n",
        "\n",
        "\r\n",
        "\n\n",
        "a\r",
        "a\r\r\n",
        "a\rb\n",
        "\r\nOK\r\n",
        "x\n\ny",
    ] {
        let expected: Vec<String> = text.lines().map(|l| l.to_string()).collect();
        assert_eq!(strings(split_lines(&chars(text))), expected, "{:?}", text);
    }
}

#[test]
fn split_agrees_with_std() {
    for text in ["", ",", "a", "a,b", "a,,b", ",a", "a,", "1, 2 ,3", ",,"] {
        let expected: Vec<String> = text.split(',').map(|l| l.to_string()).collect();
        assert_eq!(strings(split_chars(&chars(text), ',')), expected, "{:?}", text);
    }
}

#[test]
fn parse_agrees_with_std() {
    for text in [
        "0",
        "7",
        "-7",
        "+7",
        "007",
        "-0",
        "2147483647",
        "2147483648",
        "-2147483648",
        "-2147483649",
        "99999999999999999999999999",
        "-99999999999999999999999999",
        "00000000000000000000000000000000042",
        "",
        "-",
        "+",
        "+-1",
        "--1",
        "1 ",
        " 1",
        "1a",
        "a",
        "1.5",
        "١",
    ] {
        assert_eq!(parse_decimal_i32(&chars(text)), text.parse::<i32>().ok(), "{:?}", text);
    }
}

#[test]
fn parse_exact_values() {
    assert_eq!(parse_decimal_i32(&chars("42")), Some(42));
    assert_eq!(parse_decimal_i32(&chars("-2147483648")), Some(i32::MIN));
    assert_eq!(parse_decimal_i32(&chars("2147483647")), Some(i32::MAX));
    assert_eq!(parse_decimal_i32(&chars("2147483648")), None);
}

#[test]
fn hex_list_agrees_with_std() {
    for bytes in [vec![], vec![0u8], vec![10, 255], vec![0x80, 0x0F, 0xA0, 0x7f]] {
        let mut out = String::from("x");
        push_hex_list(&mut out, &bytes);
        assert_eq!(out, format!("x{:02X?}", bytes));
    }
}

#[test]
fn hex_list_exact_value() {
    let mut out = String::new();
    push_hex_list(&mut out, &[0x0A, 0xFF, 0x00]);
    assert_eq!(out, "[0A, FF, 00]");
}
