use promptosaurus::prompt_styles::yaml::yaml_entry;
use promptosaurus::text::{
    char_is_whitespace, has_newline, same_text, split_lines, strip_final_newline, to_chars, trim,
};

const SAMPLES: [&str; 24] = [
    "",
    " ",
    "a",
    " a",
    "a ",
    "  a b  ",
    "\n",
    "\n\n",
    "a\n",
    "a\nb",
    "a\n\nb",
    "a\r\nb",
    "a\rb",
    "a\r",
    "\r\n",
    "\r\r\n",
    "a\n\r\nb\n",
    "\na",
    "\t tab\u{b}\u{c}\r\n",
    "\u{a0}non-breaking\u{a0}",
    "\u{2003}em\u{3000}",
    "\u{85}next line\u{2028}\u{2029}",
    "\u{200b}zero width is kept\u{200b}",
    "\u{1f996} x\n\u{e9}\n",
];

#[test]
fn whitespace_is_the_unicode_property() {
    for code in 0..=0x10FFFFu32 {
        if let Some(c) = char::from_u32(code) {
            assert_eq!(char_is_whitespace(c), c.is_whitespace());
        }
    }
    assert!(char_is_whitespace(' '));
    assert!(char_is_whitespace('\n'));
    assert!(char_is_whitespace('\u{3000}'));
    assert!(!char_is_whitespace('a'));
    assert!(!char_is_whitespace('\u{200b}'));
}

#[test]
fn trim_removes_whitespace_at_both_ends() {
    assert_eq!(trim("  a b \n"), "a b");
    assert_eq!(trim("\u{a0}x\u{2003}"), "x");
    assert_eq!(trim(" \t\r\n"), "");
    assert_eq!(trim(""), "");
    assert_eq!(trim("a"), "a");
    for sample in SAMPLES {
        assert_eq!(trim(sample), sample.trim());
    }
}

#[test]
fn lines_end_at_line_feeds() {
    assert_eq!(split_lines(""), Vec::<&str>::new());
    assert_eq!(split_lines("a"), vec!["a"]);
    assert_eq!(split_lines("a\n"), vec!["a"]);
    assert_eq!(split_lines("\n"), vec![""]);
    assert_eq!(split_lines("a\n\nb"), vec!["a", "", "b"]);
    assert_eq!(split_lines("a\r\nb"), vec!["a", "b"]);
    assert_eq!(split_lines("a\rb\r"), vec!["a\rb\r"]);
    assert_eq!(split_lines("\r\r\n"), vec!["\r"]);
    for sample in SAMPLES {
        let expected: Vec<&str> = sample.lines().collect();
        assert_eq!(split_lines(sample), expected);
    }
}

#[test]
fn one_final_line_feed_is_stripped() {
    assert_eq!(strip_final_newline("a\n".to_string()), "a");
    assert_eq!(strip_final_newline("a\n\n".to_string()), "a\n");
    assert_eq!(strip_final_newline("a".to_string()), "a");
    assert_eq!(strip_final_newline("\n".to_string()), "");
    assert_eq!(strip_final_newline("".to_string()), "");
    assert_eq!(strip_final_newline("a\r\n".to_string()), "a\r");
    assert_eq!(strip_final_newline("\u{e9}\u{1f996}\n".to_string()), "\u{e9}\u{1f996}");
}

#[test]
fn line_feeds_are_found() {
    assert!(has_newline("a\nb"));
    assert!(has_newline("\n"));
    assert!(!has_newline(""));
    assert!(!has_newline("a\rb"));
    for sample in SAMPLES {
        assert_eq!(has_newline(sample), sample.contains('\n'));
    }
}

#[test]
fn texts_compare_by_their_characters() {
    assert!(same_text("", ""));
    assert!(same_text("Xml", "Xml"));
    assert!(!same_text("Xml", "xml"));
    assert!(!same_text("Xml", "Xm"));
    assert!(!same_text("Xm", "Xml"));
    for a in SAMPLES {
        for b in SAMPLES {
            assert_eq!(same_text(a, b), a == b);
        }
    }
}

#[test]
fn characters_are_copied_in_order() {
    assert_eq!(to_chars(""), Vec::<char>::new());
    assert_eq!(to_chars("a\u{e9}\u{1f996}"), vec!['a', '\u{e9}', '\u{1f996}']);
}

#[test]
fn entry_is_written_under_the_key_as_given() {
    assert_eq!(yaml_entry("Key", "v"), "Key: v\n");
    assert_eq!(yaml_entry("k", "a\nb"), "k: |\n  a\n  b\n");
    assert_eq!(yaml_entry("k", "a\n"), "k: |\n  a\n");
    assert_eq!(yaml_entry("", ""), ": \n");
}
