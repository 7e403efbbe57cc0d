use melange::text::{is_blank_text, is_space_char, split_lines, starts_with_mark, strip_mark, trim};

fn lines_as_std(content: &str) -> Vec<String> {
    content.lines().map(|line| line.to_string()).collect()
}

#[test]
fn split_lines_cuts_at_line_feeds() {
    assert_eq!(split_lines("a\nb"), vec!["a".to_string(), "b".to_string()]);
    assert_eq!(split_lines("a\nb\n"), vec!["a".to_string(), "b".to_string()]);
}

#[test]
fn split_lines_of_empty_text_is_empty() {
    assert_eq!(split_lines(""), Vec::<String>::new());
}

#[test]
fn split_lines_keeps_empty_lines() {
    assert_eq!(split_lines("\n"), vec!["".to_string()]);
    assert_eq!(split_lines("a\n\nb"), vec!["a".to_string(), "".to_string(), "b".to_string()]);
}

#[test]
fn split_lines_drops_a_return_before_a_line_feed() {
    assert_eq!(split_lines("a\r\nb\r\n"), vec!["a".to_string(), "b".to_string()]);
    assert_eq!(split_lines("a\r\r\nb"), vec!["a\r".to_string(), "b".to_string()]);
}

#[test]
fn split_lines_keeps_a_return_elsewhere() {
    assert_eq!(split_lines("a\rb\n"), vec!["a\rb".to_string()]);
    assert_eq!(split_lines("a\r"), vec!["a\r".to_string()]);
    assert_eq!(split_lines("\r"), vec!["\r".to_string()]);
}

#[test]
fn split_lines_agrees_with_std() {
    let samples = [
        "",
        "\n",
        "\r\n",
        "\r",
        "one",
        "one\n",
        "one\ntwo",
        "one\r\ntwo\r\n",
        "one\r\r\ntwo\n\n\nthree\r",
        "h\u{e9}llo\nw\u{f6}rld\u{3000}\n",
        "\n\n",
        "a\n\rb",
    ];
    for sample in samples {
        assert_eq!(split_lines(sample), lines_as_std(sample));
    }
}

#[test]
fn trim_drops_white_space_at_both_ends() {
    assert_eq!(trim("  x y \t"), "x y");
    assert_eq!(trim("x"), "x");
    assert_eq!(trim("\u{3000}\u{a0}caf\u{e9} \u{2003}"), "caf\u{e9}");
}

#[test]
fn trim_of_blank_text_is_empty() {
    assert_eq!(trim(""), "");
    assert_eq!(trim("   "), "");
    assert_eq!(trim("\r\n\t"), "");
}

#[test]
fn trim_agrees_with_std() {
    let samples = ["", " ", "a", " a", "a ", " a b ", "\t\ta\u{85}", "\u{feff}a ", "  \u{1680}"];
    for sample in samples {
        assert_eq!(trim(sample), sample.trim());
    }
}

#[test]
fn is_blank_text_tells_white_space_from_the_rest() {
    assert!(is_blank_text(""));
    assert!(is_blank_text(" \t\u{2028}"));
    assert!(!is_blank_text(" x "));
    assert!(!is_blank_text("/"));
}

#[test]
fn is_space_char_agrees_with_std_on_every_character() {
    let mut code: u32 = 0;
    while code <= 0x10FFFF {
        if let Some(c) = char::from_u32(code) {
            assert_eq!(is_space_char(c), c.is_whitespace());
        }
        code += 1;
    }
}

#[test]
fn byte_order_mark_is_taken_off_the_start() {
    assert!(starts_with_mark("\u{feff}a"));
    assert!(!starts_with_mark("a\u{feff}"));
    assert!(!starts_with_mark(""));
    assert_eq!(strip_mark("\u{feff}a\u{e9}"), "a\u{e9}");
    assert_eq!(strip_mark("\u{feff}"), "");
    assert_eq!(strip_mark("\u{feff}\u{feff}"), "\u{feff}");
    assert_eq!(strip_mark("plain"), "plain");
    assert_eq!(strip_mark(""), "");
}
