use python3_cmd::ansi::strip_ansi;
use python3_cmd::text::{
    contains, decimal, ends_with, is_whitespace, join, lines, same, starts_with, to_chars, to_text,
    trim, trim_end,
};

const SAMPLES: [&str; 22] = [
    "",
    " ",
    "\n",
    "\r\n",
    "\r",
    "a",
    " a ",
    "\t a b \u{a0}",
    "a\nb",
    "a\n",
    "a\r\nb\r\n",
    "a\r\r\nb",
    "a\rb",
    "a\n\nb\n\n",
    "\n\na",
    "ends with return\r",
    "\u{3000}wide\u{3000}",
    "\u{200b}zero width\u{200b}",
    "na\u{ef}ve \u{2713} text",
    "aab",
    "Error: Error:",
    "File \"a.py\", line 1",
];

fn owned(words: &[&str]) -> Vec<String> {
    words.iter().map(|w| w.to_string()).collect()
}

#[test]
fn whitespace_is_that_of_unicode() {
    for u in 0..=0x10ffffu32 {
        if let Some(c) = char::from_u32(u) {
            assert_eq!(is_whitespace(c), c.is_whitespace(), "U+{:04X}", u);
        }
    }
}

#[test]
fn trim_agrees_with_std() {
    for s in SAMPLES {
        assert_eq!(trim(s), s.trim(), "{:?}", s);
        assert_eq!(trim_end(s), s.trim_end(), "{:?}", s);
    }
}

#[test]
fn lines_agree_with_std() {
    for s in SAMPLES {
        let expected: Vec<&str> = s.lines().collect();
        assert_eq!(lines(s), expected, "{:?}", s);
    }
    assert_eq!(lines("a\r\nb\n\nc"), vec!["a", "b", "", "c"]);
}

#[test]
fn searching_agrees_with_std() {
    for s in SAMPLES {
        for p in SAMPLES {
            assert_eq!(contains(s, p), s.contains(p), "{:?} {:?}", s, p);
            assert_eq!(starts_with(s, p), s.starts_with(p), "{:?} {:?}", s, p);
            assert_eq!(ends_with(s, p), s.ends_with(p), "{:?} {:?}", s, p);
            assert_eq!(same(s, p), s == p, "{:?} {:?}", s, p);
        }
    }
    assert!(contains("aab", "ab"));
    assert!(!contains("aab", "ba"));
}

#[test]
fn join_agrees_with_std() {
    let lists = [
        owned(&[]),
        owned(&[""]),
        owned(&["a"]),
        owned(&["a", "b", ""]),
        owned(&["", "", "c"]),
    ];
    for list in lists {
        assert_eq!(join(&list, "\n"), list.join("\n"));
        assert_eq!(join(&list, ", "), list.join(", "));
    }
}

#[test]
fn decimal_agrees_with_std() {
    for n in [0usize, 1, 9, 10, 11, 99, 100, 2048, usize::MAX] {
        assert_eq!(decimal(n), n.to_string());
    }
    assert_eq!(decimal(12), "12");
}

#[test]
fn characters_and_back() {
    for s in SAMPLES {
        assert_eq!(to_chars(s), s.chars().collect::<Vec<char>>());
        assert_eq!(to_text(&to_chars(s)), s);
    }
    assert_eq!(to_text(&['o', 'k', ' ', '\u{2713}']), "ok \u{2713}");
}

#[test]
fn escape_sequences_are_stripped() {
    assert_eq!(strip_ansi("\u{1b}[31mError\u{1b}[0m"), "Error");
    assert_eq!(strip_ansi("\u{1b}[1;31mbold red\u{1b}[K"), "bold red");
    assert_eq!(strip_ansi("\u{1b}[m"), "");
    assert_eq!(strip_ansi("before\u{1b}[2Jafter"), "beforeafter");
}

#[test]
fn what_is_no_escape_sequence_stays() {
    for s in ["", "plain", "[31m", "\u{1b}", "\u{1b}[", "\u{1b}[31", "\u{1b}[3 m", "\u{1b}(B"] {
        assert_eq!(strip_ansi(s), s);
    }
    // Only one pass is made, from left to right.
    assert_eq!(strip_ansi("\u{1b}\u{1b}[0m[0m"), "\u{1b}[0m");
}
