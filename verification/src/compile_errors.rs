//! Reduction of the output of `py_compile` to the lines that report errors.

use vstd::prelude::*;

use crate::ansi;
use crate::lemmas;
use crate::model;
use crate::text;

verus! {

/// A line that only points at a place in the line above it.
pub open spec fn is_pointer(line: Seq<char>) -> bool {
    &&& line.len() > 0
    &&& forall|i: int|
        0 <= i < line.len() ==> #[trigger] line[i] == '^' || line[i] == ' ' || line[i] == '~'
}

/// A line, without the white space around it, that belongs to the report of an error.
pub open spec fn reports_error(line: Seq<char>) -> bool {
    ||| "File "@.is_prefix_of(line)
    ||| model::contains(line, "Error:"@)
    ||| model::contains(line, "Warning:"@)
    ||| is_pointer(line)
}

/// The lines that report errors, in their order and without the white space around them.
pub open spec fn error_lines(lines: Seq<Seq<char>>) -> Seq<Seq<char>> {
    lines.map_values(|line: Seq<char>| model::trim(line)).filter(
        |line: Seq<char>| reports_error(line),
    )
}

/// What is shown of the output of a failed compilation: the lines that report errors, or all of
/// it where no line does.
pub open spec fn filtered(raw: Seq<char>) -> Seq<char> {
    let clean = ansi::visible(raw);
    let errors = error_lines(model::lines(clean));
    if errors.len() == 0 {
        model::trim(clean)
    } else {
        model::join(errors, "\n"@)
    }
}

/// Whether a line consists of carets, tildes and spaces, and is not empty.
pub fn is_caret_pointer(line: &str) -> (b: bool)
    ensures
        b == is_pointer(line@),
        b <==> line@.len() > 0 && forall|i: int|
            0 <= i < line@.len() ==> #[trigger] line@[i] == '^' || line@[i] == ' ' || line@[i]
                == '~',
{
    let chars = text::to_chars(line);
    let mut i: usize = 0;
    while i < chars.len()
        invariant
            chars@ == line@,
            0 <= i <= chars@.len(),
            forall|k: int|
                0 <= k < i ==> #[trigger] line@[k] == '^' || line@[k] == ' ' || line@[k] == '~',
        decreases chars@.len() - i,
    {
        let c: char = chars[i];
        assert(c == line@[i as int]);
        if c != '^' && c != ' ' && c != '~' {
            return false;
        }
        i = i + 1;
    }
    chars.len() > 0
}

/// No line that reports an error is empty.
proof fn lemma_empty_line_reports_nothing(line: Seq<char>)
    requires
        line.len() == 0,
    ensures
        !reports_error(line),
{
    reveal_strlit("File ");
    reveal_strlit("Error:");
    reveal_strlit("Warning:");
}

/// The lines that report errors, one line at a time.
proof fn lemma_error_lines_push(lines: Seq<Seq<char>>, line: Seq<char>)
    ensures
        error_lines(lines.push(line)) == if reports_error(model::trim(line)) {
            error_lines(lines).push(model::trim(line))
        } else {
            error_lines(lines)
        },
{
    let trimmed = lines.map_values(|line: Seq<char>| model::trim(line));
    let longer = lines.push(line).map_values(|line: Seq<char>| model::trim(line));
    assert(longer == trimmed.push(model::trim(line)));
    assert(longer.drop_last() == trimmed);
    reveal(Seq::filter);
}

/// Shows the lines of a compilation's output that report errors, or all of it where none does.
pub fn filter_compile_errors(raw: &str) -> (shown: String)
    ensures
        shown@ == filtered(raw@),
        shown@ == if error_lines(model::lines(ansi::visible(raw@))).len() == 0 {
            model::trim(ansi::visible(raw@))
        } else {
            model::join(error_lines(model::lines(ansi::visible(raw@))), "\n"@)
        },
{
    let clean = ansi::strip_ansi(raw);
    let lines = text::lines(clean.as_str());
    let ghost all = model::texts(lines@);
    let mut errors: Vec<String> = Vec::new();
    let mut i: usize = 0;
    proof {
        reveal(Seq::filter);
        assert(model::texts(errors@) == error_lines(all.take(0)));
    }
    while i < lines.len()
        invariant
            all == model::texts(lines@),
            0 <= i <= lines@.len(),
            model::texts(errors@) == error_lines(all.take(i as int)),
        decreases lines@.len() - i,
    {
        let trimmed = text::trim(lines[i].as_str());
        let ghost before = model::texts(errors@);
        proof {
            assert(all.take(i + 1) == all.take(i as int).push(all[i as int]));
            lemma_error_lines_push(all.take(i as int), all[i as int]);
            if trimmed@.len() == 0 {
                lemma_empty_line_reports_nothing(trimmed@);
            }
        }
        i = i + 1;
        if trimmed.is_empty() {
            continue;
        }
        if text::starts_with(trimmed, "File ") || text::contains(trimmed, "Error:")
            || text::contains(trimmed, "Warning:") || is_caret_pointer(trimmed) {
            let kept = trimmed.to_owned();
            errors.push(kept);
            assert(model::texts(errors@) == before.push(kept@));
        }
    }
    assert(all.take(i as int) == all);
    assert(model::texts(errors@).len() == errors@.len());
    if errors.len() == 0 {
        text::trim(clean.as_str()).to_owned()
    } else {
        text::join(&errors, "\n")
    }
}

/// A line of the output that reports an error is shown, without the white space around it.
pub proof fn law_every_report_is_shown(lines: Seq<Seq<char>>, i: int)
    requires
        0 <= i < lines.len(),
        reports_error(model::trim(lines[i])),
    ensures
        error_lines(lines).contains(model::trim(lines[i])),
{
    let pred = |line: Seq<char>| reports_error(line);
    let trimmed = lines.map_values(|line: Seq<char>| model::trim(line));
    assert(pred(trimmed[i]));
    trimmed.lemma_filter_contains(pred, i);
}

/// Only lines of the output that report errors are shown, so noise and code are not.
pub proof fn law_only_reports_are_shown(lines: Seq<Seq<char>>, i: int)
    requires
        0 <= i < error_lines(lines).len(),
    ensures
        reports_error(error_lines(lines)[i]),
        exists|k: int|
            0 <= k < lines.len() && model::trim(#[trigger] lines[k]) == error_lines(lines)[i],
    decreases lines.len(),
{
    if lines.len() == 0 {
        reveal(Seq::filter);
    } else {
        let last = lines.last();
        let rest = lines.drop_last();
        assert(lines == rest.push(last));
        lemma_error_lines_push(rest, last);
        if i < error_lines(rest).len() {
            law_only_reports_are_shown(rest, i);
            let k = choose|k: int|
                0 <= k < rest.len() && model::trim(#[trigger] rest[k]) == error_lines(rest)[i];
            assert(lines[k] == rest[k]);
        } else {
            assert(lines[rest.len() as int] == last);
        }
    }
}

/// The lines that report errors are among those that are not blank.
proof fn lemma_error_lines_of_filled(lines: Seq<Seq<char>>)
    ensures
        error_lines(lines) == lemmas::filled(lines).filter(
            |line: Seq<char>| reports_error(line),
        ),
    decreases lines.len(),
{
    let pred = |line: Seq<char>| reports_error(line);
    reveal(Seq::filter);
    if lines.len() > 0 {
        let first = seq![model::trim(lines.first())];
        let rest = lines.drop_first();
        let trimmed = rest.map_values(|line: Seq<char>| model::trim(line));
        lemma_error_lines_of_filled(rest);
        assert(lines.map_values(|line: Seq<char>| model::trim(line)) == first + trimmed);
        Seq::filter_distributes_over_add(first, trimmed, pred);
        Seq::filter_distributes_over_add(first, lemmas::filled(rest), pred);
        if model::trim(lines.first()).len() == 0 {
            lemma_empty_line_reports_nothing(model::trim(lines.first()));
            assert(first.drop_last().filter(pred).len() == 0);
            assert(first.filter(pred) == Seq::<Seq<char>>::empty());
        }
    }
}

/// The lines that report errors take no more space than all lines.
proof fn lemma_error_lines_weight(lines: Seq<Seq<char>>)
    ensures
        lemmas::weight(error_lines(lines)) <= lemmas::weight(lines),
    decreases lines.len(),
{
    if lines.len() == 0 {
        reveal(Seq::filter);
    } else {
        let last = lines.last();
        let rest = lines.drop_last();
        assert(lines == rest.push(last));
        assert(lines == rest + seq![last]);
        lemma_error_lines_push(rest, last);
        lemma_error_lines_weight(rest);
        lemmas::lemma_weight_add(rest, seq![last]);
        lemmas::lemma_weight_single(last);
        lemmas::lemma_trim_len(last);
        if reports_error(model::trim(last)) {
            let before = error_lines(rest);
            assert(before.push(model::trim(last)) == before + seq![model::trim(last)]);
            lemmas::lemma_weight_add(before, seq![model::trim(last)]);
            lemmas::lemma_weight_single(model::trim(last));
        }
    }
}

/// What is shown is never longer than the output without its escape sequences.
proof fn lemma_filtered_is_no_longer(raw: Seq<char>)
    ensures
        filtered(raw).len() <= ansi::visible(raw).len(),
{
    let clean = ansi::visible(raw);
    let lines = model::lines(clean);
    lemmas::lemma_trim_len(clean);
    lemma_error_lines_weight(lines);
    lemmas::lemma_weight_lines(clean);
    lemmas::lemma_weight_join(error_lines(lines));
}

/// What is shown is never longer than the output.
pub proof fn law_filtered_is_no_longer(raw: Seq<char>)
    ensures
        filtered(raw).len() <= raw.len(),
{
    ansi::law_visible_is_no_longer(raw);
    lemma_filtered_is_no_longer(raw);
}

/// The lines of a blank text report nothing.
proof fn lemma_blank_text_reports_nothing(s: Seq<char>)
    requires
        model::trim(s).len() == 0,
    ensures
        error_lines(model::lines(s)).len() == 0,
{
    lemmas::lemma_filled_trim(s);
    lemma_error_lines_of_filled(model::lines(s));
    reveal(Seq::filter);
}

/// Something is shown of a failed compilation unless its whole output is blank.
pub proof fn law_nothing_is_shown_of_blank_output_only(raw: Seq<char>)
    ensures
        filtered(raw).len() == 0 <==> model::is_blank(ansi::visible(raw)),
{
    let clean = ansi::visible(raw);
    let errors = error_lines(model::lines(clean));
    lemmas::lemma_trim_blank(clean);
    if model::trim(clean).len() == 0 {
        lemma_blank_text_reports_nothing(clean);
    }
    if errors.len() > 0 {
        law_only_reports_are_shown(model::lines(clean), 0);
        if errors[0].len() == 0 {
            lemma_empty_line_reports_nothing(errors[0]);
        }
        reveal_strlit("\n");
        assert(model::join(errors, "\n"@).len() > 0);
    }
}

/// Filtering what was filtered changes nothing, unless an escape sequence is left in it.
pub proof fn law_filtering_twice(raw: Seq<char>)
    ensures
        filtered(filtered(raw)) == filtered(raw) <==> ansi::visible(filtered(raw)) == filtered(raw),
{
    let shown = filtered(raw);
    let clean = ansi::visible(raw);
    let errors = error_lines(model::lines(clean));
    let pred = |line: Seq<char>| reports_error(line);
    lemma_filtered_is_no_longer(shown);
    ansi::law_visible_is_no_longer(shown);
    if ansi::visible(shown) == shown {
        lemma_error_lines_of_filled(model::lines(clean));
        lemma_error_lines_of_filled(model::lines(shown));
        if errors.len() == 0 {
            lemmas::lemma_filled_trim(clean);
            lemmas::lemma_trim_ends(clean);
        } else {
            lemmas::lemma_lines_are_single(clean);
            lemma_error_lines_lack(model::lines(clean), '\n');
            lemmas::lemma_filled_join(errors);
            lemma_reports_are_filled(model::lines(clean));
            lemma_filter_twice(lemmas::filled(model::lines(clean)), pred);
        }
    }
}

/// Filtering twice by the same property.
proof fn lemma_filter_twice(parts: Seq<Seq<char>>, pred: spec_fn(Seq<char>) -> bool)
    ensures
        parts.filter(pred).filter(pred) == parts.filter(pred),
    decreases parts.len(),
{
    reveal(Seq::filter);
    if parts.len() > 0 {
        lemma_filter_twice(parts.drop_last(), pred);
        let before = parts.drop_last().filter(pred);
        if pred(parts.last()) {
            assert(before.push(parts.last()).drop_last() == before);
        }
    }
}

/// The lines that report errors hold no character that all lines lack.
proof fn lemma_error_lines_lack(lines: Seq<Seq<char>>, c: char)
    requires
        lemmas::all_lack(lines, c),
    ensures
        lemmas::all_lack(error_lines(lines), c),
{
    let errors = error_lines(lines);
    assert forall|i: int| 0 <= i < errors.len() implies lemmas::lacks(#[trigger] errors[i], c) by {
        law_only_reports_are_shown(lines, i);
        let k = choose|k: int|
            0 <= k < lines.len() && model::trim(#[trigger] lines[k]) == errors[i];
        lemmas::lemma_trim_lacks(lines[k], c);
    }
}

/// The lines that report errors are trimmed and not blank already.
proof fn lemma_reports_are_filled(lines: Seq<Seq<char>>)
    ensures
        lemmas::filled(error_lines(lines)) == error_lines(lines),
{
    let errors = error_lines(lines);
    assert forall|i: int| 0 <= i < errors.len() implies model::trim(#[trigger] errors[i])
        == errors[i] && errors[i].len() > 0 by {
        law_only_reports_are_shown(lines, i);
        let k = choose|k: int|
            0 <= k < lines.len() && model::trim(#[trigger] lines[k]) == errors[i];
        lemmas::lemma_trim_ends(lines[k]);
        if errors[i].len() == 0 {
            lemma_empty_line_reports_nothing(errors[i]);
        }
    }
    lemmas::lemma_filled_stays(errors);
}

/// What is shown holds no character that the output lacks.
pub proof fn law_no_character_is_added(raw: Seq<char>, c: char)
    requires
        !raw.contains(c),
    ensures
        !filtered(raw).contains(c),
{
    let clean = ansi::visible(raw);
    let lines = model::lines(clean);
    ansi::law_visible_adds_no_character(raw, c);
    assert(lemmas::lacks(clean, c)) by {
        assert forall|i: int| 0 <= i < clean.len() implies #[trigger] clean[i] != c by {
            assert(clean.contains(clean[i]));
        }
    }
    lemmas::lemma_trim_lacks(clean, c);
    lemmas::lemma_lines_lack(clean, c);
    lemma_error_lines_lack(lines, c);
    if c == '\n' && clean.len() > 0 {
        lemmas::lemma_lines_single(clean);
    }
    let trimmed = lines.map_values(|line: Seq<char>| model::trim(line));
    trimmed.lemma_filter_len(|line: Seq<char>| reports_error(line));
    lemmas::lemma_join_lacks(error_lines(lines), c);
}

/// The lines shown stand in the order of the output: `at` gives the place of each, and the places
/// increase.
pub proof fn law_reports_keep_their_order(lines: Seq<Seq<char>>) -> (at: Seq<int>)
    ensures
        at.len() == error_lines(lines).len(),
        forall|i: int|
            0 <= i < at.len() ==> 0 <= #[trigger] at[i] < lines.len() && model::trim(lines[at[i]])
                == error_lines(lines)[i],
        forall|i: int, j: int| 0 <= i < j < at.len() ==> at[i] < at[j],
    decreases lines.len(),
{
    if lines.len() == 0 {
        reveal(Seq::filter);
        seq![]
    } else {
        let rest = lines.drop_last();
        assert(lines == rest.push(lines.last()));
        lemma_error_lines_push(rest, lines.last());
        let before = law_reports_keep_their_order(rest);
        let at = if reports_error(model::trim(lines.last())) {
            before.push(rest.len() as int)
        } else {
            before
        };
        assert forall|i: int| 0 <= i < at.len() implies 0 <= #[trigger] at[i] < lines.len()
            && model::trim(lines[at[i]]) == error_lines(lines)[i] by {
            if i < before.len() {
                assert(at[i] == before[i]);
            }
        }
        assert forall|i: int, j: int| 0 <= i < j < at.len() implies at[i] < at[j] by {
            assert(at[i] == before[i]);
            if j < before.len() {
                assert(at[j] == before[j]);
            }
        }
        at
    }
}

/// The error reports of two outputs with a newline between them are those of the one and of the
/// other.
pub proof fn law_reports_of_two_outputs(first: Seq<char>, second: Seq<char>)
    ensures
        error_lines(model::lines(ansi::visible(first + "\n"@ + second))) == error_lines(
            model::lines(ansi::visible(first)),
        ) + error_lines(model::lines(ansi::visible(second))),
{
    let pred = |line: Seq<char>| reports_error(line);
    let a = ansi::visible(first);
    let b = ansi::visible(second);
    reveal_strlit("\n");
    assert("\n"@ == seq!['\n']);
    ansi::law_newline_parts_escape_sequences(first, second);
    lemmas::lemma_filled_two(a, b);
    lemma_error_lines_of_filled(model::lines(a));
    lemma_error_lines_of_filled(model::lines(b));
    lemma_error_lines_of_filled(model::lines(a + seq!['\n'] + b));
    Seq::filter_distributes_over_add(
        lemmas::filled(model::lines(a)),
        lemmas::filled(model::lines(b)),
        pred,
    );
}

/// A place, `Error:` and `Warning:` at any position, and a pointer each make a line, whatever
/// white space stands around it, one that is shown; what is shown is its trimmed text.
pub proof fn law_report_forms_are_shown(raw: Seq<char>, i: int)
    requires
        0 <= i < model::lines(ansi::visible(raw)).len(),
        ({
            let text = model::trim(model::lines(ansi::visible(raw))[i]);
            ||| "File "@.is_prefix_of(text)
            ||| model::contains(text, "Error:"@)
            ||| model::contains(text, "Warning:"@)
            ||| text.len() > 0 && forall|k: int|
                0 <= k < text.len() ==> #[trigger] text[k] == '^' || text[k] == '~' || text[k]
                    == ' '
        }),
    ensures
        error_lines(model::lines(ansi::visible(raw))).contains(
            model::trim(model::lines(ansi::visible(raw))[i]),
        ),
        model::contains(filtered(raw), model::trim(model::lines(ansi::visible(raw))[i])),
{
    let lines = model::lines(ansi::visible(raw));
    let errors = error_lines(lines);
    let text = model::trim(lines[i]);
    law_every_report_is_shown(lines, i);
    let k = choose|k: int| 0 <= k < errors.len() && errors[k] == text;
    lemmas::lemma_contains_joined(errors, k);
}

/// Every line shown is a place, holds `Error:` or `Warning:`, or is a pointer.
pub proof fn law_shown_lines_have_report_forms(lines: Seq<Seq<char>>, i: int)
    requires
        0 <= i < error_lines(lines).len(),
    ensures
        ({
            let text = error_lines(lines)[i];
            ||| "File "@.is_prefix_of(text)
            ||| model::contains(text, "Error:"@)
            ||| model::contains(text, "Warning:"@)
            ||| text.len() > 0 && forall|k: int|
                0 <= k < text.len() ==> #[trigger] text[k] == '^' || text[k] == '~' || text[k]
                    == ' '
        }),
{
    law_only_reports_are_shown(lines, i);
}

/// Whether a line is shown depends on its own text alone: on a place at its start, on `Error:` or
/// `Warning:` in it, or on its being a pointer.
pub proof fn law_one_line(line: Seq<char>)
    ensures
        error_lines(seq![line]) == ({
            let text = model::trim(line);
            if "File "@.is_prefix_of(text) || model::contains(text, "Error:"@) || model::contains(
                text,
                "Warning:"@,
            ) || (text.len() > 0 && forall|k: int|
                0 <= k < text.len() ==> #[trigger] text[k] == '^' || text[k] == '~' || text[k]
                    == ' ') {
                seq![text]
            } else {
                Seq::<Seq<char>>::empty()
            }
        }),
{
    let none = Seq::<Seq<char>>::empty();
    lemma_error_lines_push(none, line);
    assert(none.push(line) == seq![line]);
    reveal(Seq::filter);
    assert(error_lines(none) == none);
    assert(none.push(model::trim(line)) == seq![model::trim(line)]);
}

/// The reports of two groups of lines are those of the one and of the other.
pub proof fn law_two_groups_of_lines(first: Seq<Seq<char>>, second: Seq<Seq<char>>)
    ensures
        error_lines(first + second) == error_lines(first) + error_lines(second),
{
    let pred = |line: Seq<char>| reports_error(line);
    let a = first.map_values(|line: Seq<char>| model::trim(line));
    let b = second.map_values(|line: Seq<char>| model::trim(line));
    assert((first + second).map_values(|line: Seq<char>| model::trim(line)) == a + b);
    Seq::filter_distributes_over_add(a, b, pred);
}

/// Where no line has one of these forms, the whole output is shown, trimmed.
pub proof fn law_output_without_reports_is_shown_whole(raw: Seq<char>)
    requires
        forall|i: int|
            0 <= i < model::lines(ansi::visible(raw)).len() ==> {
                let text = model::trim(#[trigger] model::lines(ansi::visible(raw))[i]);
                &&& !"File "@.is_prefix_of(text)
                &&& !model::contains(text, "Error:"@)
                &&& !model::contains(text, "Warning:"@)
                &&& text.len() > 0 ==> exists|k: int|
                    0 <= k < text.len() && #[trigger] text[k] != '^' && text[k] != '~' && text[k]
                        != ' '
            },
    ensures
        filtered(raw) == model::trim(ansi::visible(raw)),
{
    let lines = model::lines(ansi::visible(raw));
    let errors = error_lines(lines);
    if errors.len() > 0 {
        law_only_reports_are_shown(lines, 0);
        let k = choose|k: int|
            0 <= k < lines.len() && model::trim(#[trigger] lines[k]) == errors[0];
        let text = model::trim(lines[k]);
        law_shown_lines_have_report_forms(lines, 0);
        assert(text.len() > 0 ==> exists|j: int|
            0 <= j < text.len() && #[trigger] text[j] != '^' && text[j] != '~' && text[j] != ' ');
    }
}

} // verus!
