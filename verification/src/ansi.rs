//! Removal of ANSI escape sequences, as terminals use them for colours and styles.

use vstd::prelude::*;

use crate::text;

verus! {

/// A character that may stand between the opening of an escape sequence and its last letter.
pub open spec fn is_parameter(c: char) -> bool {
    c == ';' || '0' <= c <= '9'
}

/// A letter that ends an escape sequence.
pub open spec fn is_final_letter(c: char) -> bool {
    'a' <= c <= 'z' || 'A' <= c <= 'Z'
}

/// The number of parameter characters that `s` begins with.
pub open spec fn parameter_count(s: Seq<char>) -> nat
    decreases s.len(),
{
    if s.len() > 0 && is_parameter(s.first()) {
        1 + parameter_count(s.drop_first())
    } else {
        0
    }
}

/// The length of the escape sequence that `s` begins with, zero where it begins with none.
///
/// An escape sequence is the character U+001B, an opening square bracket, any number of
/// parameters and one letter.
pub open spec fn escape_length(s: Seq<char>) -> nat {
    let n = parameter_count(s.skip(2));
    if s.len() > n + 2 && s[0] == '\u{1b}' && s[1] == '[' && is_final_letter(s[n as int + 2]) {
        n + 3
    } else {
        0
    }
}

/// What is left of `s` when, from left to right, every escape sequence is taken out.
pub open spec fn visible(s: Seq<char>) -> Seq<char>
    decreases s.len(),
{
    if s.len() == 0 {
        s
    } else if escape_length(s) > 0 {
        visible(s.skip(escape_length(s) as int))
    } else {
        seq![s.first()] + visible(s.drop_first())
    }
}

/// Counting parameters stops at the first character that is none.
proof fn lemma_parameter_count(s: Seq<char>, n: int)
    requires
        0 <= n <= s.len(),
        forall|k: int| 0 <= k < n ==> is_parameter(s[k]),
        n < s.len() ==> !is_parameter(s[n]),
    ensures
        parameter_count(s) == n,
    decreases s.len(),
{
    if n > 0 {
        assert forall|k: int| 0 <= k < n - 1 implies is_parameter(s.drop_first()[k]) by {
            assert(s.drop_first()[k] == s[k + 1]);
        }
        lemma_parameter_count(s.drop_first(), n - 1);
    }
}

/// The length of the escape sequence that stands in `chars` from position `at` on.
fn escape_at(chars: &[char], at: usize) -> (n: usize)
    requires
        at <= chars@.len(),
    ensures
        n == escape_length(chars@.skip(at as int)),
        n <= chars@.len() - at,
{
    let ghost rest = chars@.skip(at as int);
    if chars.len() - at < 3 || chars[at] != '\u{1b}' || chars[at + 1] != '[' {
        return 0;
    }
    let mut i: usize = at + 2;
    while i < chars.len() && (chars[i] == ';' || ('0' <= chars[i] && chars[i] <= '9'))
        invariant
            at + 2 <= i <= chars.len(),
            forall|k: int| at + 2 <= k < i ==> is_parameter(chars@[k]),
        decreases chars.len() - i,
    {
        i = i + 1;
    }
    proof {
        let tail = rest.skip(2);
        assert forall|k: int| 0 <= k < i - at - 2 implies is_parameter(tail[k]) by {
            assert(tail[k] == chars@[at + 2 + k]);
        }
        lemma_parameter_count(tail, i - at - 2);
    }
    if i == chars.len() {
        return 0;
    }
    let c: char = chars[i];
    if ('a' <= c && c <= 'z') || ('A' <= c && c <= 'Z') {
        i - at + 1
    } else {
        0
    }
}

/// `s` without its ANSI escape sequences.
pub fn strip_ansi(s: &str) -> (clean: String)
    ensures
        clean@ == visible(s@),
{
    let chars = text::to_chars(s);
    let mut clean = String::new();
    let mut i: usize = 0;
    assert(s@.skip(0) == s@);
    while i < chars.len()
        invariant
            chars@ == s@,
            0 <= i <= chars@.len(),
            visible(s@) == clean@ + visible(s@.skip(i as int)),
        decreases chars@.len() - i,
    {
        let ghost rest = s@.skip(i as int);
        let n: usize = escape_at(&chars, i);
        if n > 0 {
            assert(rest.skip(n as int) == s@.skip(i + n));
            i = i + n;
        } else {
            assert(rest.drop_first() == s@.skip(i + 1));
            clean.push(chars[i]);
            i = i + 1;
        }
    }
    clean
}

/// Text without the character that opens an escape sequence is left as it is.
pub proof fn law_plain_text_is_visible(s: Seq<char>)
    requires
        !s.contains('\u{1b}'),
    ensures
        visible(s) == s,
    decreases s.len(),
{
    if s.len() > 0 {
        assert(s.contains(s[0]));
        assert forall|c: char| s.drop_first().contains(c) implies s.contains(c) by {
            let k = choose|k: int| 0 <= k < s.drop_first().len() && s.drop_first()[k] == c;
            assert(s[k + 1] == c);
        }
        law_plain_text_is_visible(s.drop_first());
        assert(seq![s.first()] + s.drop_first() == s);
    }
}

/// `s` is one escape sequence and nothing more.
pub open spec fn is_escape_sequence(s: Seq<char>) -> bool {
    s.len() > 0 && escape_length(s) == s.len()
}

/// What follows an escape sequence does not change how long the sequence is.
proof fn lemma_escape_length_of_prefix(escape: Seq<char>, after: Seq<char>)
    requires
        is_escape_sequence(escape),
    ensures
        escape_length(escape + after) == escape.len(),
{
    let whole = escape + after;
    let n = parameter_count(escape.skip(2)) as int;
    lemma_parameters_are_counted(escape.skip(2));
    assert(!is_parameter(escape[n + 2]));
    assert forall|k: int| 0 <= k < n implies is_parameter(whole.skip(2)[k]) by {
        assert(whole.skip(2)[k] == escape.skip(2)[k]);
    }
    assert(whole.skip(2)[n] == escape[n + 2]);
    lemma_parameter_count(whole.skip(2), n);
}

/// What is counted as parameters are parameters.
proof fn lemma_parameters_are_counted(s: Seq<char>)
    ensures
        parameter_count(s) <= s.len(),
        forall|k: int| 0 <= k < parameter_count(s) ==> is_parameter(s[k]),
    decreases s.len(),
{
    if s.len() > 0 && is_parameter(s.first()) {
        lemma_parameters_are_counted(s.drop_first());
        assert forall|k: int| 0 <= k < parameter_count(s) implies is_parameter(s[k]) by {
            if k > 0 {
                assert(s[k] == s.drop_first()[k - 1]);
            }
        }
    }
}

/// The first escape sequence of a text vanishes: what stands before it stays as it is,
/// and what stands after it is treated as a text of its own.
pub proof fn law_escape_sequence_vanishes(before: Seq<char>, escape: Seq<char>, after: Seq<char>)
    requires
        !before.contains('\u{1b}'),
        is_escape_sequence(escape),
    ensures
        visible(before + escape + after) == before + visible(after),
    decreases before.len(),
{
    let whole = before + escape + after;
    if before.len() == 0 {
        lemma_escape_length_of_prefix(escape, after);
        assert(whole == escape + after);
        assert(whole.skip(escape.len() as int) == after);
        assert(before + visible(after) == visible(after));
    } else {
        let rest = before.drop_first();
        assert(before.contains(before[0]));
        assert forall|c: char| rest.contains(c) implies before.contains(c) by {
            let k = choose|k: int| 0 <= k < rest.len() && rest[k] == c;
            assert(before[k + 1] == c);
        }
        law_escape_sequence_vanishes(rest, escape, after);
        assert(whole.drop_first() == rest + escape + after);
        assert(seq![before.first()] + (rest + visible(after)) == before + visible(after));
    }
}

/// Taking escape sequences out makes a text shorter, or leaves it as it is.
pub proof fn law_visible_is_no_longer(s: Seq<char>)
    ensures
        visible(s).len() <= s.len(),
        visible(s).len() == s.len() ==> visible(s) == s,
    decreases s.len(),
{
    if s.len() > 0 {
        if escape_length(s) > 0 {
            law_visible_is_no_longer(s.skip(escape_length(s) as int));
        } else {
            law_visible_is_no_longer(s.drop_first());
        }
    }
}

/// Taking escape sequences out adds no character.
pub proof fn law_visible_adds_no_character(s: Seq<char>, c: char)
    requires
        !s.contains(c),
    ensures
        !visible(s).contains(c),
    decreases s.len(),
{
    if s.len() > 0 {
        let n = if escape_length(s) > 0 {
            escape_length(s) as int
        } else {
            1
        };
        let rest = s.skip(n);
        assert(rest.contains(c) ==> s.contains(c)) by {
            if rest.contains(c) {
                let k = choose|k: int| 0 <= k < rest.len() && rest[k] == c;
                assert(s[n + k] == c);
            }
        }
        law_visible_adds_no_character(rest, c);
        if escape_length(s) == 0 {
            assert(s.drop_first() == rest);
            assert(s.contains(s[0]));
            let shown = visible(s);
            if shown.contains(c) {
                let k = choose|k: int| 0 <= k < shown.len() && shown[k] == c;
                assert(visible(rest)[k - 1] == c);
            }
        }
    }
}

/// What follows a newline does not change the escape sequence that a text before it begins with.
proof fn lemma_escape_length_before_newline(first: Seq<char>, second: Seq<char>)
    requires
        first.len() > 0,
    ensures
        escape_length(first + seq!['\n'] + second) == escape_length(first),
        escape_length(first) <= first.len(),
{
    let whole = first + seq!['\n'] + second;
    if first.len() == 1 {
        assert(whole[1] == '\n');
    } else {
        let tail = first.skip(2);
        let n = parameter_count(tail) as int;
        lemma_parameters_are_counted(tail);
        assert forall|k: int| 0 <= k < n implies is_parameter(whole.skip(2)[k]) by {
            assert(whole.skip(2)[k] == tail[k]);
        }
        lemma_parameters_end(tail);
        if n < tail.len() {
            assert(whole.skip(2)[n] == tail[n]);
        } else {
            assert(whole.skip(2)[n] == '\n');
        }
        lemma_parameter_count(whole.skip(2), n);
        assert(whole[n + 2] == whole.skip(2)[n]);
    }
}

/// The character after the parameters is none.
proof fn lemma_parameters_end(s: Seq<char>)
    ensures
        parameter_count(s) < s.len() ==> !is_parameter(s[parameter_count(s) as int]),
    decreases s.len(),
{
    if s.len() > 0 && is_parameter(s.first()) {
        lemma_parameters_end(s.drop_first());
    }
}

/// No escape sequence reaches over a newline: two texts with a newline between them are treated
/// each on its own.
pub proof fn law_newline_parts_escape_sequences(first: Seq<char>, second: Seq<char>)
    ensures
        visible(first + seq!['\n'] + second) == visible(first) + seq!['\n'] + visible(second),
    decreases first.len(),
{
    let whole = first + seq!['\n'] + second;
    if first.len() == 0 {
        assert(whole.first() == '\n');
        assert(whole.drop_first() == second);
        assert(visible(first) + seq!['\n'] == seq!['\n']);
    } else {
        lemma_escape_length_before_newline(first, second);
        let n = escape_length(first) as int;
        if n > 0 {
            law_newline_parts_escape_sequences(first.skip(n), second);
            assert(whole.skip(n) == first.skip(n) + seq!['\n'] + second);
        } else {
            let rest = first.drop_first();
            law_newline_parts_escape_sequences(rest, second);
            assert(whole.drop_first() == rest + seq!['\n'] + second);
            assert(seq![first.first()] + (visible(rest) + seq!['\n'] + visible(second)) == seq![
                first.first(),
            ] + visible(rest) + seq!['\n'] + visible(second));
        }
    }
}

/// The escape character, an opening bracket, digits and semicolons, and a letter vanish together;
/// what stands before them stays, and what stands after them is treated as a text of its own.
pub proof fn law_colour_code_vanishes(
    before: Seq<char>,
    parameters: Seq<char>,
    letter: char,
    after: Seq<char>,
)
    requires
        !before.contains('\u{1b}'),
        forall|i: int|
            0 <= i < parameters.len() ==> '0' <= #[trigger] parameters[i] <= '9' || parameters[i]
                == ';',
        'a' <= letter <= 'z' || 'A' <= letter <= 'Z',
    ensures
        visible(before + (seq!['\u{1b}', '['] + parameters + seq![letter]) + after) == before
            + visible(after),
{
    let escape = seq!['\u{1b}', '['] + parameters + seq![letter];
    let tail = escape.skip(2);
    let n = parameters.len() as int;
    assert forall|k: int| 0 <= k < n implies is_parameter(tail[k]) by {
        assert(tail[k] == parameters[k]);
    }
    assert(tail[n] == letter);
    lemma_parameter_count(tail, n);
    assert(escape[n + 2] == letter);
    law_escape_sequence_vanishes(before, escape, after);
}

/// A character other than the escape character stays, whatever follows it.
pub proof fn law_other_character_stays(c: char, rest: Seq<char>)
    requires
        c != '\u{1b}',
    ensures
        visible(seq![c] + rest) == seq![c] + visible(rest),
{
    let whole = seq![c] + rest;
    assert(whole.drop_first() == rest);
    assert(whole[0] == c);
}

/// An escape character that no opening bracket follows stays.
pub proof fn law_lone_escape_character_stays(rest: Seq<char>)
    requires
        rest.len() == 0 || rest[0] != '[',
    ensures
        visible(seq!['\u{1b}'] + rest) == seq!['\u{1b}'] + visible(rest),
{
    let whole = seq!['\u{1b}'] + rest;
    assert(whole.drop_first() == rest);
    if rest.len() > 0 {
        assert(whole[1] == rest[0]);
    }
}

/// What begins like an escape sequence and has no letter at its end stays.
pub proof fn law_unfinished_escape_sequence_stays(parameters: Seq<char>, rest: Seq<char>)
    requires
        forall|i: int|
            0 <= i < parameters.len() ==> '0' <= #[trigger] parameters[i] <= '9' || parameters[i]
                == ';',
        rest.len() > 0 ==> !('0' <= rest[0] <= '9' || rest[0] == ';') && !('a' <= rest[0] <= 'z'
            || 'A' <= rest[0] <= 'Z'),
    ensures
        visible(seq!['\u{1b}', '['] + parameters + rest) == seq!['\u{1b}', '['] + parameters
            + visible(rest),
{
    let whole = seq!['\u{1b}', '['] + parameters + rest;
    let tail = whole.skip(2);
    let n = parameters.len() as int;
    assert forall|k: int| 0 <= k < n implies is_parameter(tail[k]) by {
        assert(tail[k] == parameters[k]);
    }
    if rest.len() > 0 {
        assert(tail[n] == rest[0]);
        assert(whole[n + 2] == rest[0]);
    }
    lemma_parameter_count(tail, n);
    assert(escape_length(whole) == 0);
    let inner = seq!['['] + parameters;
    assert(whole.drop_first() == inner + rest);
    assert(!inner.contains('\u{1b}')) by {
        if inner.contains('\u{1b}') {
            let k = choose|k: int| 0 <= k < inner.len() && inner[k] == '\u{1b}';
            if k > 0 {
                assert(inner[k] == parameters[k - 1]);
            }
        }
    }
    lemma_plain_prefix_stays(inner, rest);
    assert(seq!['\u{1b}'] + (inner + visible(rest)) == seq!['\u{1b}', '['] + parameters + visible(
        rest,
    ));
}

/// Text before the first escape character stays.
proof fn lemma_plain_prefix_stays(plain: Seq<char>, rest: Seq<char>)
    requires
        !plain.contains('\u{1b}'),
    ensures
        visible(plain + rest) == plain + visible(rest),
    decreases plain.len(),
{
    if plain.len() == 0 {
        assert(plain + rest == rest);
        assert(plain + visible(rest) == visible(rest));
    } else {
        let tail = plain.drop_first();
        assert(plain.contains(plain[0]));
        assert(!tail.contains('\u{1b}')) by {
            if tail.contains('\u{1b}') {
                let k = choose|k: int| 0 <= k < tail.len() && tail[k] == '\u{1b}';
                assert(plain[k + 1] == '\u{1b}');
            }
        }
        lemma_plain_prefix_stays(tail, rest);
        law_other_character_stays(plain[0], tail + rest);
        assert(seq![plain[0]] + (tail + rest) == plain + rest);
        assert(seq![plain[0]] + (tail + visible(rest)) == plain + visible(rest));
    }
}

} // verus!
