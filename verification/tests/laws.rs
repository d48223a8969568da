use python3_cmd::ansi::strip_ansi;
use python3_cmd::compile_errors::filter_compile_errors;
use python3_cmd::traceback::{filter_traceback, is_traceback_terminal};

const TWO_TRACEBACKS: &str = "start\n\
    Traceback (most recent call last):\n\
    \x20 File \"a.py\", line 1, in <module>\n\
    \x20   foo()\n\
    \x20 File \"a.py\", line 5, in foo\n\
    \x20   bar()\n\
    NameError: name 'bar' is not defined\n\
    between\n\
    Traceback (most recent call last):\n\
    \x20 File \"b.py\", line 10, in <module>\n\
    \x20   time.sleep(1)\n\
    KeyboardInterrupt\n\
    end\n";

#[test]
fn plain_output_is_only_trimmed() {
    assert_eq!(filter_traceback("\n  one\n\n two  \n\n"), "one\n\n two");
    assert_eq!(filter_traceback("   "), "");
}

#[test]
fn returns_before_newlines_and_escape_sequences_go() {
    assert_eq!(filter_traceback("a\r\n\u{1b}[31mb\u{1b}[0m\r\n"), "a\nb");
    assert_eq!(filter_traceback("a\rb"), "a\rb");
}

#[test]
fn closed_tracebacks_keep_last_place_and_error() {
    assert_eq!(
        filter_traceback(TWO_TRACEBACKS),
        "start\n\
         File \"a.py\", line 5, in foo\n\
         NameError: name 'bar' is not defined\n\
         between\n\
         File \"b.py\", line 10, in <module>\n\
         KeyboardInterrupt\n\
         end"
    );
}

#[test]
fn traceback_is_reduced_to_place_and_error() {
    let raw = "Traceback (most recent call last):\n  File \"a.py\", line 1, in <module>\n    f()\n  File \"b.py\", line 2, in f\n    raise ValueError(\"x\")\nValueError: x\n";
    assert_eq!(filter_traceback(raw), "File \"b.py\", line 2, in f\nValueError: x");
}

#[test]
fn unclosed_traceback_keeps_last_place() {
    let raw = "x\nTraceback (most recent call last):\n  File \"a.py\", line 1\n    f()\n  File \"b.py\", line 2\n    g()";
    assert_eq!(filter_traceback(raw), "x\nFile \"b.py\", line 2");
    assert_eq!(filter_traceback("Traceback (most recent call last):\n  code"), "");
}

#[test]
fn traceback_without_a_place_keeps_its_error() {
    let raw = "Traceback (most recent call last):\n  code\nSystemExit\n";
    assert_eq!(filter_traceback(raw), "SystemExit");
}

#[test]
fn second_header_forgets_the_places_before_it() {
    let raw = "Traceback (most recent call last):\n  File \"a.py\", line 1\n\
               Traceback (most recent call last):\nValueError: x\n";
    assert_eq!(filter_traceback(raw), "ValueError: x");
}

#[test]
fn indented_header_opens_a_traceback() {
    let raw = "  Traceback (most recent call last):\n    File \"a.py\", line 1\n  ValueError: x\n";
    assert_eq!(filter_traceback(raw), "File \"a.py\", line 1\nValueError: x");
}

#[test]
fn place_that_names_an_error_does_not_close() {
    let raw = "Traceback (most recent call last):\n  File \"Error:.py\", line 1\nValueError: x\n";
    assert_eq!(filter_traceback(raw), "File \"Error:.py\", line 1\nValueError: x");
}

#[test]
fn code_that_raises_by_name_is_skipped() {
    let raw = "Traceback (most recent call last):\n  File \"a.py\", line 1, in <module>\n    raise ValueError\nValueError\n";
    assert_eq!(filter_traceback(raw), "File \"a.py\", line 1, in <module>\nValueError");
    let tabs = "Traceback (most recent call last):\n\tFile \"a.py\", line 1\n\t\traise SystemExit\r\nSystemExit \r\n";
    assert_eq!(filter_traceback(tabs), "File \"a.py\", line 1\nSystemExit");
}

#[test]
fn indented_error_with_a_colon_closes() {
    let raw = "Traceback (most recent call last):\n  File \"a.py\", line 1\n    ValueError: x\nafter\n";
    assert_eq!(filter_traceback(raw), "File \"a.py\", line 1\nValueError: x\nafter");
}

#[test]
fn no_traceback_is_left() {
    let shown = filter_traceback(TWO_TRACEBACKS);
    assert!(shown.lines().all(|l| l.trim() != "Traceback (most recent call last):"));
}

#[test]
fn filtering_twice() {
    let shown = filter_traceback(TWO_TRACEBACKS);
    assert_eq!(filter_traceback(&shown), shown);
    // A carriage return that is left before a newline goes the second time.
    let odd = filter_traceback("a\r\r\nb");
    assert_eq!(odd, "a\r\nb");
    assert_eq!(filter_traceback(&odd), "a\nb");
    // So does an escape sequence that is left.
    let nested = filter_traceback("\u{1b}\u{1b}[0m[0mx");
    assert_eq!(nested, "\u{1b}[0mx");
    assert_eq!(filter_traceback(&nested), "x");
}

#[test]
fn filters_never_lengthen_the_output() {
    for raw in [TWO_TRACEBACKS, "", "\n", " a \r\n", "\u{1b}[0m", "  ^\nError:\n"] {
        assert!(filter_traceback(raw).chars().count() <= raw.chars().count());
        assert!(filter_compile_errors(raw).chars().count() <= raw.chars().count());
    }
}

#[test]
fn filters_add_no_character() {
    let shown = filter_traceback(TWO_TRACEBACKS);
    assert!(shown.chars().all(|c| TWO_TRACEBACKS.contains(c)));
    let errors = filter_compile_errors(TWO_TRACEBACKS);
    assert!(errors.chars().all(|c| TWO_TRACEBACKS.contains(c)));
}

#[test]
fn bare_exceptions_are_not_indented() {
    assert!(is_traceback_terminal("MyError"));
    assert!(!is_traceback_terminal(" MyError"));
    assert!(!is_traceback_terminal("\tMyException"));
    assert!(!is_traceback_terminal("File MyError"));
    assert!(is_traceback_terminal(" MyError: x"));
    assert!(is_traceback_terminal("\tMyException: x"));
    assert!(!is_traceback_terminal(""));
}

#[test]
fn error_reports_are_shown_in_order_and_trimmed() {
    let raw = "  File \"a.py\", line 3\n    x = (1 +\n        ^~~\nSyntaxError: bad\nnoise\n  a.py:1: SyntaxWarning: odd\n";
    assert_eq!(
        filter_compile_errors(raw),
        "File \"a.py\", line 3\n^~~\nSyntaxError: bad\na.py:1: SyntaxWarning: odd"
    );
}

#[test]
fn output_without_error_reports_is_shown_whole() {
    assert_eq!(filter_compile_errors("\n one\r\n\u{1b}[1mtwo\u{1b}[0m \n"), "one\r\ntwo");
}

#[test]
fn nothing_is_shown_of_blank_output_only() {
    assert_eq!(filter_compile_errors(" \n\u{1b}[0m\t\n"), "");
    assert_eq!(filter_compile_errors(" \n.\n"), ".");
    assert_eq!(filter_compile_errors("~"), "~");
}

#[test]
fn filtering_errors_twice() {
    let raw = "  File \"a.py\", line 3\n  code\n  ^\r\nSyntaxError: bad\n";
    let shown = filter_compile_errors(raw);
    assert_eq!(filter_compile_errors(&shown), shown);
    let plain = filter_compile_errors("\n a\r\nb \n");
    assert_eq!(filter_compile_errors(&plain), plain);
    let nested = filter_compile_errors("\u{1b}\u{1b}[0m[0mx");
    assert_eq!(nested, "\u{1b}[0mx");
    assert_eq!(filter_compile_errors(&nested), "x");
}

#[test]
fn first_escape_sequence_vanishes() {
    assert_eq!(strip_ansi("a\u{1b}[0mb"), "ab");
    assert_eq!(strip_ansi("no escapes"), "no escapes");
}

#[test]
fn no_escape_sequence_reaches_over_a_newline() {
    assert_eq!(strip_ansi("a\u{1b}[3\n1mb\u{1b}[0m"), "a\u{1b}[3\n1mb");
}

#[test]
fn reports_of_two_outputs_follow_each_other() {
    let first = "  File \"a.py\", line 1\nnoise\u{1b}[3";
    let second = "1m\n  ^\nSyntaxError: x\n";
    assert_eq!(
        filter_compile_errors(&format!("{}\n{}", first, second)),
        format!("{}\n{}", filter_compile_errors(first), filter_compile_errors(second))
    );
}
