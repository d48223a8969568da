//! Facts about the text model that the laws rest on.

use vstd::prelude::*;

use crate::model;

verus! {

/// No `c` in `s`.
pub open spec fn lacks(s: Seq<char>, c: char) -> bool {
    forall|i: int| 0 <= i < s.len() ==> #[trigger] s[i] != c
}

/// No `c` in any of the parts.
pub open spec fn all_lack(parts: Seq<Seq<char>>, c: char) -> bool {
    forall|i: int| 0 <= i < parts.len() ==> lacks(#[trigger] parts[i], c)
}

/// No newline in `s`.
pub open spec fn is_single_line(s: Seq<char>) -> bool {
    lacks(s, '\n')
}

/// Trimming cuts a window out of the text, with white space only outside of it.
pub proof fn lemma_trim_window(s: Seq<char>) -> (w: (int, int))
    ensures
        0 <= w.0 <= w.1 <= s.len(),
        model::trim(s) == s.subrange(w.0, w.1),
        forall|i: int| 0 <= i < w.0 ==> model::is_white_space(#[trigger] s[i]),
        forall|i: int| w.1 <= i < s.len() ==> model::is_white_space(#[trigger] s[i]),
    decreases s.len(),
{
    if s.len() == 0 {
        assert(s.subrange(0, 0) == s);
        (0, 0)
    } else if model::is_white_space(s.first()) {
        let rest = s.drop_first();
        let (a, b) = lemma_trim_window(rest);
        assert(rest.subrange(a, b) == s.subrange(a + 1, b + 1));
        assert forall|i: int| 0 <= i < a + 1 implies model::is_white_space(#[trigger] s[i]) by {
            if i > 0 {
                assert(s[i] == rest[i - 1]);
            }
        }
        assert forall|i: int| b + 1 <= i < s.len() implies model::is_white_space(
            #[trigger] s[i],
        ) by {
            assert(s[i] == rest[i - 1]);
        }
        (a + 1, b + 1)
    } else if model::is_white_space(s.last()) {
        let rest = s.drop_last();
        let (a, b) = lemma_trim_window(rest);
        assert(rest.subrange(a, b) == s.subrange(a, b));
        assert forall|i: int| 0 <= i < a implies model::is_white_space(#[trigger] s[i]) by {
            assert(s[i] == rest[i]);
        }
        assert forall|i: int| b <= i < s.len() implies model::is_white_space(#[trigger] s[i]) by {
            if i < rest.len() {
                assert(s[i] == rest[i]);
            }
        }
        (a, b)
    } else {
        assert(s.subrange(0, s.len() as int) == s);
        (0, s.len() as int)
    }
}

/// A trimmed text has no white space at its ends.
pub proof fn lemma_trim_ends(s: Seq<char>)
    ensures
        model::trim(s).len() > 0 ==> !model::is_white_space(model::trim(s).first())
            && !model::is_white_space(model::trim(s).last()),
        model::trim(model::trim(s)) == model::trim(s),
    decreases s.len(),
{
    if s.len() > 0 {
        if model::is_white_space(s.first()) {
            lemma_trim_ends(s.drop_first());
        } else if model::is_white_space(s.last()) {
            lemma_trim_ends(s.drop_last());
        }
    }
}

/// Trimming leaves nothing of a text exactly where it is blank.
pub proof fn lemma_trim_blank(s: Seq<char>)
    ensures
        (model::trim(s).len() == 0) == model::is_blank(s),
{
    let (a, b) = lemma_trim_window(s);
    lemma_trim_ends(s);
    if model::is_blank(s) && a < b {
        assert(model::trim(s).first() == s[a]);
    }
    if a == b {
        assert(model::is_blank(s));
    }
}

/// White space at the end of a text makes no difference to trimming.
pub proof fn lemma_trim_drop_last(s: Seq<char>)
    requires
        s.len() > 0,
        model::is_white_space(s.last()),
    ensures
        model::trim(s.drop_last()) == model::trim(s),
    decreases s.len(),
{
    if model::is_white_space(s.first()) {
        if s.len() > 1 {
            lemma_trim_drop_last(s.drop_first());
            assert(s.drop_first().drop_last() == s.drop_last().drop_first());
        } else {
            assert(s.drop_last() == s.drop_first());
        }
    }
}

/// A text up to its first newline, and what the newline is.
pub proof fn lemma_line_length(s: Seq<char>)
    ensures
        model::line_length(s) <= s.len(),
        is_single_line(s.take(model::line_length(s) as int)),
        model::line_length(s) < s.len() ==> s[model::line_length(s) as int] == '\n',
        is_single_line(s) == (model::line_length(s) == s.len()),
    decreases s.len(),
{
    let n = model::line_length(s) as int;
    if s.len() > 0 && s.first() != '\n' {
        let rest = s.drop_first();
        lemma_line_length(rest);
        assert forall|i: int| 0 <= i < n implies #[trigger] s.take(n)[i] != '\n' by {
            if i > 0 {
                assert(s[i] == rest.take(n - 1)[i - 1]);
            }
        }
        if n == s.len() {
            assert(s.take(n) == s);
        } else {
            assert(s[n] == rest[n - 1]);
        }
    }
}

/// The first newline is where no newline stands before it.
pub proof fn lemma_line_length_is(s: Seq<char>, n: int)
    requires
        0 <= n <= s.len(),
        is_single_line(s.take(n)),
        n < s.len() ==> s[n] == '\n',
    ensures
        model::line_length(s) == n,
{
    lemma_line_length(s);
    let m = model::line_length(s) as int;
    if m < n {
        assert(s.take(n)[m] == s[m]);
    } else if n < m {
        assert(s.take(m)[n] == s[n]);
    }
}

/// A carriage return at the end makes no difference to trimming.
pub proof fn lemma_trim_without_return(s: Seq<char>)
    ensures
        model::trim(model::without_return(s)) == model::trim(s),
{
    if s.len() > 0 && s.last() == '\r' {
        lemma_trim_drop_last(s);
    }
}

/// The first line of a text and the lines after it.
pub proof fn lemma_lines_step(line: Seq<char>, rest: Seq<char>)
    requires
        is_single_line(line),
    ensures
        model::lines(line + seq!['\n'] + rest) == seq![model::without_return(line)] + model::lines(
            rest,
        ),
{
    let s = line + seq!['\n'] + rest;
    let n = line.len() as int;
    assert(s.take(n) == line);
    assert(s[n] == '\n');
    lemma_line_length_is(s, n);
    assert(s.skip(n + 1) == rest);
}

/// A text of a single line.
pub proof fn lemma_lines_single(s: Seq<char>)
    requires
        is_single_line(s),
        s.len() > 0,
    ensures
        model::lines(s) == seq![s],
{
    assert(s.take(s.len() as int) == s);
    lemma_line_length_is(s, s.len() as int);
}

/// Every text is a single line, or a first line, a newline and the rest.
pub proof fn lemma_split_first_line(s: Seq<char>) -> (parts: (Seq<char>, Seq<char>))
    requires
        !is_single_line(s),
    ensures
        is_single_line(parts.0),
        s == parts.0 + seq!['\n'] + parts.1,
        parts.1.len() < s.len(),
        model::lines(s) == seq![model::without_return(parts.0)] + model::lines(parts.1),
{
    lemma_line_length(s);
    let n = model::line_length(s) as int;
    let line = s.take(n);
    let rest = s.skip(n + 1);
    assert(s == line + seq!['\n'] + rest);
    lemma_lines_step(line, rest);
    (line, rest)
}

/// The lines that are not blank, without the white space around them.
pub open spec fn filled(parts: Seq<Seq<char>>) -> Seq<Seq<char>>
    decreases parts.len(),
{
    if parts.len() == 0 {
        seq![]
    } else if model::trim(parts.first()).len() == 0 {
        filled(parts.drop_first())
    } else {
        seq![model::trim(parts.first())] + filled(parts.drop_first())
    }
}

/// `filled`, one part at a time.
pub proof fn lemma_filled_step(part: Seq<char>, parts: Seq<Seq<char>>)
    ensures
        filled(seq![part] + parts) == if model::trim(part).len() == 0 {
            filled(parts)
        } else {
            seq![model::trim(part)] + filled(parts)
        },
{
    assert((seq![part] + parts).drop_first() == parts);
}

/// `filled` of a single part.
pub proof fn lemma_filled_single(part: Seq<char>)
    ensures
        filled(seq![part]) == if model::trim(part).len() == 0 {
            seq![]
        } else {
            seq![model::trim(part)]
        },
{
    lemma_filled_step(part, seq![]);
    assert(seq![part] + seq![] == seq![part]);
    assert(seq![model::trim(part)] + Seq::<Seq<char>>::empty() == seq![model::trim(part)]);
}

/// White space at the start of a text makes no difference to the lines that are not blank.
pub proof fn lemma_filled_drop_first(s: Seq<char>)
    requires
        s.len() > 0,
        model::is_white_space(s.first()),
    ensures
        filled(model::lines(s.drop_first())) == filled(model::lines(s)),
{
    let rest = s.drop_first();
    if is_single_line(s) {
        lemma_lines_single(s);
        lemma_filled_single(s);
        assert(model::trim(s) == model::trim(rest));
        if rest.len() > 0 {
            assert forall|i: int| 0 <= i < rest.len() implies #[trigger] rest[i] != '\n' by {
                assert(rest[i] == s[i + 1]);
            }
            lemma_lines_single(rest);
            lemma_filled_single(rest);
        }
    } else {
        let (line, after) = lemma_split_first_line(s);
        lemma_filled_step(model::without_return(line), model::lines(after));
        lemma_trim_without_return(line);
        if line.len() == 0 {
            assert(rest == after);
            assert(model::trim(line).len() == 0);
        } else {
            let shorter = line.drop_first();
            assert(s.first() == line.first());
            assert(rest == shorter + seq!['\n'] + after);
            assert forall|i: int| 0 <= i < shorter.len() implies #[trigger] shorter[i] != '\n' by {
                assert(shorter[i] == line[i + 1]);
            }
            assert(model::trim(line) == model::trim(shorter));
            lemma_lines_step(shorter, after);
            lemma_filled_step(model::without_return(shorter), model::lines(after));
            lemma_trim_without_return(shorter);
        }
    }
}

/// White space at the end of a text makes no difference to the lines that are not blank.
pub proof fn lemma_filled_drop_last(s: Seq<char>)
    requires
        s.len() > 0,
        model::is_white_space(s.last()),
    ensures
        filled(model::lines(s.drop_last())) == filled(model::lines(s)),
    decreases s.len(),
{
    let rest = s.drop_last();
    if is_single_line(s) {
        lemma_lines_single(s);
        lemma_filled_single(s);
        lemma_trim_drop_last(s);
        if rest.len() > 0 {
            assert forall|i: int| 0 <= i < rest.len() implies #[trigger] rest[i] != '\n' by {
                assert(rest[i] == s[i]);
            }
            lemma_lines_single(rest);
            lemma_filled_single(rest);
        }
    } else {
        let (line, after) = lemma_split_first_line(s);
        lemma_filled_step(model::without_return(line), model::lines(after));
        lemma_trim_without_return(line);
        if after.len() == 0 {
            assert(rest == line);
            if line.len() > 0 {
                lemma_lines_single(line);
                lemma_filled_single(line);
                assert(seq![model::trim(line)] + Seq::<Seq<char>>::empty() == seq![
                    model::trim(line),
                ]);
            }
        } else {
            assert(after.last() == s.last());
            assert(rest == line + seq!['\n'] + after.drop_last());
            lemma_lines_step(line, after.drop_last());
            lemma_filled_step(model::without_return(line), model::lines(after.drop_last()));
            lemma_filled_drop_last(after);
        }
    }
}

/// Trimming a text makes no difference to its lines that are not blank.
pub proof fn lemma_filled_trim(s: Seq<char>)
    ensures
        filled(model::lines(model::trim(s))) == filled(model::lines(s)),
    decreases s.len(),
{
    if s.len() > 0 {
        if model::is_white_space(s.first()) {
            lemma_filled_drop_first(s);
            lemma_filled_trim(s.drop_first());
        } else if model::is_white_space(s.last()) {
            lemma_filled_drop_last(s);
            lemma_filled_trim(s.drop_last());
        }
    }
}

/// Joining single lines and splitting them again keeps the lines that are not blank.
pub proof fn lemma_filled_join(parts: Seq<Seq<char>>)
    requires
        all_lack(parts, '\n'),
    ensures
        filled(model::lines(model::join(parts, "\n"@))) == filled(parts),
    decreases parts.len(),
{
    reveal_strlit("\n");
    assert("\n"@ == seq!['\n']);
    if parts.len() == 1 {
        let part = parts.first();
        assert(parts == seq![part]);
        assert(is_single_line(parts[0]));
        lemma_filled_single(part);
        if part.len() > 0 {
            lemma_lines_single(part);
        }
    } else if parts.len() > 1 {
        let part = parts.first();
        let rest = parts.drop_first();
        assert(is_single_line(parts[0]));
        assert forall|i: int| 0 <= i < rest.len() implies is_single_line(#[trigger] rest[i]) by {
            assert(rest[i] == parts[i + 1]);
        }
        let text = model::join(rest, "\n"@);
        lemma_filled_join(rest);
        lemma_lines_step(part, text);
        lemma_filled_step(model::without_return(part), model::lines(text));
        lemma_trim_without_return(part);
    }
}

/// The lines of a text are single lines.
pub proof fn lemma_lines_are_single(s: Seq<char>)
    ensures
        all_lack(model::lines(s), '\n'),
    decreases s.len(),
{
    let all = model::lines(s);
    if s.len() > 0 {
        if is_single_line(s) {
            lemma_lines_single(s);
        } else {
            let (line, after) = lemma_split_first_line(s);
            lemma_lines_are_single(after);
            assert forall|i: int| 0 <= i < all.len() implies is_single_line(#[trigger] all[i]) by {
                if i > 0 {
                    assert(all[i] == model::lines(after)[i - 1]);
                }
            }
        }
    }
}

/// Line endings of a text that gets one more character.
pub proof fn lemma_with_newlines_push(s: Seq<char>, c: char)
    ensures
        model::with_newlines(s).len() > 0 <==> s.len() > 0,
        s.len() > 0 ==> model::with_newlines(s).last() == s.last(),
        model::with_newlines(s.push(c)) == if s.len() > 0 && s.last() == '\r' && c == '\n' {
            model::with_newlines(s).drop_last().push(c)
        } else {
            model::with_newlines(s).push(c)
        },
    decreases s.len(),
{
    let longer = s.push(c);
    let rest = s.drop_first();
    if s.len() == 0 {
        assert(longer.drop_first() == s);
        assert(model::with_newlines(longer.drop_first()) == s);
        assert(seq![c] + s == s.push(c));
    } else {
        assert(longer.drop_first() == rest.push(c));
        lemma_with_newlines_push(rest, c);
        if s.len() == 1 {
            assert(rest.len() == 0);
            assert(model::with_newlines(rest) == rest);
            assert(model::with_newlines(rest.push(c)) == rest.push(c));
            assert(seq![s.first()] + rest.push(c) == s.push(c));
            assert(model::with_newlines(s) == s) by {
                assert(seq![s.first()] + rest == s);
            }
            assert(s.drop_last().push(c) == rest.push(c));
        } else {
            let after = model::with_newlines(rest);
            assert(rest.last() == s.last());
            assert(seq![s.first()] + after.push(c) == (seq![s.first()] + after).push(c));
            assert(seq![s.first()] + after.drop_last().push(c) == (seq![s.first()]
                + after).drop_last().push(c));
        }
    }
}

/// Trimming a text and changing its line endings can be done in either order.
pub proof fn lemma_with_newlines_trim(s: Seq<char>)
    ensures
        model::trim(model::with_newlines(s)) == model::with_newlines(model::trim(s)),
    decreases s.len(),
{
    if s.len() > 0 {
        let t = model::with_newlines(s);
        if model::is_white_space(s.first()) {
            let rest = s.drop_first();
            lemma_with_newlines_trim(rest);
            if !(s.len() > 1 && s[0] == '\r' && s[1] == '\n') {
                assert(t.drop_first() == model::with_newlines(rest));
                assert(t.first() == s.first());
            }
        } else if model::is_white_space(s.last()) {
            let rest = s.drop_last();
            let c = s.last();
            lemma_with_newlines_trim(rest);
            lemma_with_newlines_push(rest, c);
            assert(rest.push(c) == s);
            let u = model::with_newlines(rest);
            if rest.last() == '\r' && c == '\n' {
                assert(t.drop_last() == u.drop_last());
                lemma_trim_drop_last(t);
                lemma_trim_drop_last(u);
            } else {
                assert(t.drop_last() == u);
                lemma_trim_drop_last(t);
            }
        } else {
            let rest = s.drop_last();
            lemma_with_newlines_push(rest, s.last());
            assert(rest.push(s.last()) == s);
            assert(t.last() == s.last());
            assert(t.first() == s.first());
        }
    }
}

/// A text has only plain newlines where no carriage return stands before one; otherwise it gets
/// shorter when it is given them.
pub proof fn lemma_with_newlines_len(s: Seq<char>)
    ensures
        !model::has_return(s) ==> model::with_newlines(s) == s,
        model::has_return(s) ==> model::with_newlines(s).len() < s.len(),
        model::with_newlines(s).len() <= s.len(),
    decreases s.len(),
{
    if s.len() > 0 {
        let rest = s.drop_first();
        lemma_with_newlines_len(rest);
        if model::has_return(s) {
            let i = choose|i: int| model::return_at(s, i);
            if i > 0 {
                assert(model::return_at(rest, i - 1));
            }
        } else {
            assert(!model::return_at(s, 0));
            assert forall|i: int| !model::return_at(rest, i) by {
                assert(!model::return_at(s, i + 1));
            }
            assert(seq![s.first()] + rest == s);
        }
    }
}

/// Line endings of a text that begins with a single line.
pub proof fn lemma_with_newlines_line(line: Seq<char>, rest: Seq<char>)
    requires
        is_single_line(line),
    ensures
        model::with_newlines(line + seq!['\n'] + rest) == model::without_return(line) + seq!['\n']
            + model::with_newlines(rest),
        model::with_newlines(line) == line,
    decreases line.len(),
{
    let s = line + seq!['\n'] + rest;
    assert forall|i: int| !model::return_at(line, i) by {
        if model::return_at(line, i) {
            assert(line[i + 1] == '\n');
        }
    }
    lemma_with_newlines_len(line);
    if line.len() == 0 {
        assert(s.drop_first() == rest);
        assert(s.first() == '\n');
        assert(model::without_return(line) + seq!['\n'] == seq!['\n']);
    } else {
        let shorter = line.drop_first();
        assert forall|i: int| 0 <= i < shorter.len() implies #[trigger] shorter[i] != '\n' by {
            assert(shorter[i] == line[i + 1]);
        }
        lemma_with_newlines_line(shorter, rest);
        assert(s.drop_first() == shorter + seq!['\n'] + rest);
        assert(s[0] == line[0]);
        if line.len() == 1 {
            assert(s[1] == '\n');
            assert(shorter.len() == 0);
            if line[0] == '\r' {
                assert(line.drop_last() == shorter);
            } else {
                assert(seq![s.first()] + (shorter + seq!['\n'] + model::with_newlines(rest)) == line
                    + seq!['\n'] + model::with_newlines(rest));
            }
        } else {
            assert(s[1] == line[1]);
            assert(line.last() == shorter.last());
            assert(seq![s.first()] + model::without_return(shorter) == model::without_return(line));
            assert(seq![s.first()] + (model::without_return(shorter) + seq!['\n']
                + model::with_newlines(rest)) == model::without_return(line) + seq!['\n']
                + model::with_newlines(rest));
        }
    }
}

/// Joining the lines of a text gives it back with plain newlines, but for a newline at its end.
pub proof fn lemma_join_lines(s: Seq<char>)
    ensures
        model::join(model::lines(s), "\n"@) == if s.len() > 0 && s.last() == '\n' {
            model::with_newlines(s).drop_last()
        } else {
            model::with_newlines(s)
        },
    decreases s.len(),
{
    reveal_strlit("\n");
    assert("\n"@ == seq!['\n']);
    if s.len() > 0 {
        if is_single_line(s) {
            lemma_lines_single(s);
            lemma_with_newlines_line(s, seq![]);
            assert(s.last() == s[s.len() - 1]);
        } else {
            let (line, after) = lemma_split_first_line(s);
            lemma_with_newlines_line(line, after);
            lemma_join_lines(after);
            let all = model::lines(s);
            let kept = model::without_return(line);
            assert(all.drop_first() == model::lines(after));
            assert(all.first() == kept);
            if after.len() == 0 {
                assert(s.last() == '\n');
                assert(model::with_newlines(after) == after);
                assert((kept + seq!['\n'] + after).drop_last() == kept);
            } else {
                assert(model::lines(after).len() > 0);
                assert(after.last() == s.last());
                lemma_with_newlines_push(after, '\n');
                let plain = model::with_newlines(after);
                if after.last() == '\n' {
                    assert((kept + seq!['\n'] + plain).drop_last() == kept + seq!['\n']
                        + plain.drop_last());
                }
            }
        }
    }
}

/// Joining the lines of a text and trimming the result is trimming the text, with plain newlines.
pub proof fn lemma_trim_join_lines(s: Seq<char>)
    ensures
        model::trim(model::join(model::lines(s), "\n"@)) == model::with_newlines(model::trim(s)),
{
    lemma_join_lines(s);
    lemma_with_newlines_trim(s);
    lemma_with_newlines_push(s, '\n');
    if s.len() > 0 && s.last() == '\n' {
        lemma_trim_drop_last(model::with_newlines(s));
    }
}

/// The space that lines take, each with a newline.
pub open spec fn weight(parts: Seq<Seq<char>>) -> nat
    decreases parts.len(),
{
    if parts.len() == 0 {
        0
    } else {
        parts.first().len() + 1 + weight(parts.drop_first())
    }
}

/// The weight of two groups of lines.
pub proof fn lemma_weight_add(a: Seq<Seq<char>>, b: Seq<Seq<char>>)
    ensures
        weight(a + b) == weight(a) + weight(b),
    decreases a.len(),
{
    if a.len() == 0 {
        assert(a + b == b);
    } else {
        assert((a + b).drop_first() == a.drop_first() + b);
        lemma_weight_add(a.drop_first(), b);
    }
}

/// The weight of one line.
pub proof fn lemma_weight_single(part: Seq<char>)
    ensures
        weight(seq![part]) == part.len() + 1,
{
    reveal_with_fuel(weight, 2);
    assert(seq![part].drop_first() == Seq::<Seq<char>>::empty());
}

/// The length of joined lines.
pub proof fn lemma_weight_join(parts: Seq<Seq<char>>)
    ensures
        parts.len() == 0 ==> model::join(parts, "\n"@).len() == 0 && weight(parts) == 0,
        parts.len() > 0 ==> model::join(parts, "\n"@).len() + 1 == weight(parts),
    decreases parts.len(),
{
    reveal_strlit("\n");
    if parts.len() == 1 {
        lemma_weight_single(parts.first());
        assert(parts == seq![parts.first()]);
    } else if parts.len() > 1 {
        lemma_weight_join(parts.drop_first());
    }
}

/// The lines of a text take no more space than the text and one newline.
pub proof fn lemma_weight_lines(s: Seq<char>)
    ensures
        weight(model::lines(s)) <= s.len() + 1,
        s.len() == 0 ==> weight(model::lines(s)) == 0,
    decreases s.len(),
{
    if s.len() > 0 {
        if is_single_line(s) {
            lemma_lines_single(s);
            lemma_weight_single(s);
        } else {
            let (line, after) = lemma_split_first_line(s);
            lemma_weight_lines(after);
            lemma_weight_add(seq![model::without_return(line)], model::lines(after));
            lemma_weight_single(model::without_return(line));
        }
    }
}

/// A trimmed text is no longer than the text.
pub proof fn lemma_trim_len(s: Seq<char>)
    ensures
        model::trim(s).len() <= s.len(),
{
    let w = lemma_trim_window(s);
}

/// A part that is not blank is among those that `filled` keeps.
pub proof fn lemma_filled_keeps(parts: Seq<Seq<char>>, i: int)
    requires
        0 <= i < parts.len(),
        model::trim(parts[i]).len() > 0,
    ensures
        filled(parts).contains(model::trim(parts[i])),
    decreases parts.len(),
{
    let rest = parts.drop_first();
    if i == 0 {
        assert(filled(parts)[0] == model::trim(parts[0]));
    } else {
        assert(parts[i] == rest[i - 1]);
        lemma_filled_keeps(rest, i - 1);
        let k = choose|k: int|
            0 <= k < filled(rest).len() && filled(rest)[k] == model::trim(parts[i]);
        if model::trim(parts.first()).len() > 0 {
            assert(filled(parts)[k + 1] == model::trim(parts[i]));
        }
    }
}

/// What `filled` keeps comes from one of the parts.
pub proof fn lemma_filled_source(parts: Seq<Seq<char>>, kept: Seq<char>) -> (i: int)
    requires
        filled(parts).contains(kept),
    ensures
        0 <= i < parts.len(),
        model::trim(parts[i]) == kept,
    decreases parts.len(),
{
    let rest = parts.drop_first();
    let k = choose|k: int| 0 <= k < filled(parts).len() && filled(parts)[k] == kept;
    if model::trim(parts.first()).len() == 0 {
        lemma_filled_source(rest, kept) + 1
    } else if k == 0 {
        0
    } else {
        assert(filled(rest)[k - 1] == kept);
        lemma_filled_source(rest, kept) + 1
    }
}

/// Trimming adds no character.
pub proof fn lemma_trim_lacks(s: Seq<char>, c: char)
    requires
        lacks(s, c),
    ensures
        lacks(model::trim(s), c),
{
    let (a, b) = lemma_trim_window(s);
    let t = model::trim(s);
    assert forall|i: int| 0 <= i < t.len() implies #[trigger] t[i] != c by {
        assert(t[i] == s[a + i]);
    }
}

/// The lines of a text hold no character that the text lacks.
pub proof fn lemma_lines_lack(s: Seq<char>, c: char)
    requires
        lacks(s, c),
    ensures
        all_lack(model::lines(s), c),
    decreases s.len(),
{
    let all = model::lines(s);
    if s.len() > 0 {
        if is_single_line(s) {
            lemma_lines_single(s);
        } else {
            let (line, after) = lemma_split_first_line(s);
            assert forall|i: int| 0 <= i < line.len() implies #[trigger] line[i] != c by {
                assert(line[i] == s[i]);
            }
            assert forall|i: int| 0 <= i < after.len() implies #[trigger] after[i] != c by {
                assert(after[i] == s[line.len() + 1 + i]);
            }
            lemma_lines_lack(after, c);
            assert forall|i: int| 0 <= i < all.len() implies lacks(#[trigger] all[i], c) by {
                if i > 0 {
                    assert(all[i] == model::lines(after)[i - 1]);
                }
            }
        }
    }
}

/// Joined lines hold no character that all of them lack, but for the newlines between them.
pub proof fn lemma_join_lacks(parts: Seq<Seq<char>>, c: char)
    requires
        all_lack(parts, c),
        c != '\n' || parts.len() <= 1,
    ensures
        lacks(model::join(parts, "\n"@), c),
    decreases parts.len(),
{
    reveal_strlit("\n");
    if parts.len() > 0 {
        assert(lacks(parts[0], c));
        if parts.len() > 1 {
            let rest = parts.drop_first();
            assert forall|i: int| 0 <= i < rest.len() implies lacks(#[trigger] rest[i], c) by {
                assert(rest[i] == parts[i + 1]);
            }
            lemma_join_lacks(rest, c);
        }
    }
}

/// Parts that are trimmed and not blank all stay.
pub proof fn lemma_filled_stays(parts: Seq<Seq<char>>)
    requires
        forall|i: int|
            0 <= i < parts.len() ==> model::trim(#[trigger] parts[i]) == parts[i]
                && parts[i].len() > 0,
    ensures
        filled(parts) == parts,
    decreases parts.len(),
{
    if parts.len() > 0 {
        let rest = parts.drop_first();
        assert(model::trim(parts[0]) == parts[0]);
        assert forall|i: int| 0 <= i < rest.len() implies model::trim(#[trigger] rest[i]) == rest[i]
            && rest[i].len() > 0 by {
            assert(rest[i] == parts[i + 1]);
        }
        lemma_filled_stays(rest);
        assert(seq![parts.first()] + rest == parts);
    }
}

/// Trimming the end of a text leaves a prefix of it, which is empty where the text is blank.
pub proof fn lemma_trim_end(s: Seq<char>)
    ensures
        model::trim_end(s).is_prefix_of(s),
        forall|i: int|
            model::trim_end(s).len() <= i < s.len() ==> model::is_white_space(#[trigger] s[i]),
        model::is_blank(s) ==> model::trim_end(s).len() == 0,
    decreases s.len(),
{
    if s.len() > 0 && model::is_white_space(s.last()) {
        let rest = s.drop_last();
        lemma_trim_end(rest);
        assert(rest.subrange(0, model::trim_end(s).len() as int) == s.subrange(
            0,
            model::trim_end(s).len() as int,
        ));
        assert forall|i: int| model::trim_end(s).len() <= i < s.len() implies model::is_white_space(
            #[trigger] s[i],
        ) by {
            if i < rest.len() {
                assert(s[i] == rest[i]);
            }
        }
        if model::is_blank(s) {
            assert forall|i: int| 0 <= i < rest.len() implies model::is_white_space(
                #[trigger] rest[i],
            ) by {
                assert(rest[i] == s[i]);
            }
        }
    } else {
        assert(s.subrange(0, s.len() as int) == s);
        if s.len() > 0 {
            assert(s.last() == s[s.len() - 1]);
        }
    }
}

/// What stands in a prefix of a text stands in the text.
pub proof fn lemma_contains_in_prefix(prefix: Seq<char>, s: Seq<char>, pattern: Seq<char>)
    requires
        prefix.is_prefix_of(s),
        model::contains(prefix, pattern),
    ensures
        model::contains(s, pattern),
{
    let i = choose|i: int| model::occurs_at(prefix, pattern, i);
    assert(prefix.subrange(i, i + pattern.len()) == s.subrange(i, i + pattern.len()));
    assert(model::occurs_at(s, pattern, i));
}

/// The lines that are not blank of two texts with a newline between them.
pub proof fn lemma_filled_two(a: Seq<char>, b: Seq<char>)
    ensures
        filled(model::lines(a + seq!['\n'] + b)) == filled(model::lines(a)) + filled(
            model::lines(b),
        ),
    decreases a.len(),
{
    let none = Seq::<Seq<char>>::empty();
    let whole = a + seq!['\n'] + b;
    let after = filled(model::lines(b));
    if is_single_line(a) {
        lemma_lines_step(a, b);
        lemma_filled_step(model::without_return(a), model::lines(b));
        lemma_trim_without_return(a);
        if a.len() > 0 {
            lemma_lines_single(a);
            lemma_filled_single(a);
        } else {
            assert(filled(model::lines(a)) == none);
        }
        assert(none + after == after);
    } else {
        let (line, rest) = lemma_split_first_line(a);
        let tail = rest + seq!['\n'] + b;
        assert(whole == line + seq!['\n'] + tail);
        lemma_lines_step(line, tail);
        lemma_filled_step(model::without_return(line), model::lines(tail));
        lemma_filled_step(model::without_return(line), model::lines(rest));
        lemma_filled_two(rest, b);
        let shown = seq![model::trim(model::without_return(line))];
        assert(shown + (filled(model::lines(rest)) + after) == shown + filled(model::lines(rest))
            + after);
    }
}

/// Trimming the end of a text takes nothing out that does not end with white space.
pub proof fn lemma_contains_trim_end(s: Seq<char>, pattern: Seq<char>)
    requires
        model::contains(s, pattern),
        pattern.len() > 0,
        !model::is_white_space(pattern.last()),
    ensures
        model::contains(model::trim_end(s), pattern),
{
    let kept = model::trim_end(s);
    let i = choose|i: int| model::occurs_at(s, pattern, i);
    let n = pattern.len() as int;
    lemma_trim_end(s);
    assert(s.subrange(i, i + n)[n - 1] == s[i + n - 1]);
    assert(kept.subrange(i, i + n) == s.subrange(i, i + n));
    assert(model::occurs_at(kept, pattern, i));
}

/// What has no white space at its ends stands inside a window outside of which there is nothing
/// else.
proof fn lemma_occurs_in_window(s: Seq<char>, pattern: Seq<char>, i: int, a: int, b: int)
    requires
        0 <= a <= b <= s.len(),
        model::occurs_at(s, pattern, i),
        pattern.len() > 0,
        !model::is_white_space(pattern.first()),
        !model::is_white_space(pattern.last()),
        forall|k: int| 0 <= k < a ==> model::is_white_space(#[trigger] s[k]),
        forall|k: int| b <= k < s.len() ==> model::is_white_space(#[trigger] s[k]),
    ensures
        model::occurs_at(s.subrange(a, b), pattern, i - a),
{
    let n = pattern.len() as int;
    assert(s.subrange(i, i + n)[0] == s[i]);
    assert(s.subrange(i, i + n)[n - 1] == s[i + n - 1]);
    assert(a <= i);
    assert(i + n <= b);
    assert(s.subrange(a, b).subrange(i - a, i - a + n) == s.subrange(i, i + n));
}

/// Trimming a text takes nothing out that has no white space at its ends.
pub proof fn lemma_contains_trim(s: Seq<char>, pattern: Seq<char>)
    requires
        model::contains(s, pattern),
        pattern.len() > 0,
        !model::is_white_space(pattern.first()),
        !model::is_white_space(pattern.last()),
    ensures
        model::contains(model::trim(s), pattern),
{
    let (a, b) = lemma_trim_window(s);
    let kept = s.subrange(a, b);
    let i = choose|i: int| model::occurs_at(s, pattern, i);
    lemma_occurs_in_window(s, pattern, i, a, b);
    assert(model::trim(s) == kept);
    assert(model::occurs_at(kept, pattern, i - a));
}

/// A text contains what it is when trimmed.
pub proof fn lemma_contains_trimmed(s: Seq<char>)
    ensures
        model::contains(s, model::trim(s)),
{
    let (a, b) = lemma_trim_window(s);
    assert(model::occurs_at(s, model::trim(s), a));
}

/// What a part of a text contains the text contains.
pub proof fn lemma_contains_through(s: Seq<char>, part: Seq<char>, pattern: Seq<char>)
    requires
        model::contains(s, part),
        model::contains(part, pattern),
    ensures
        model::contains(s, pattern),
{
    let i = choose|i: int| model::occurs_at(s, part, i);
    let k = choose|k: int| model::occurs_at(part, pattern, k);
    let n = pattern.len() as int;
    assert(part.subrange(k, k + n) == s.subrange(i + k, i + k + n));
    assert(model::occurs_at(s, pattern, i + k));
}

/// Joined lines contain each of them.
pub proof fn lemma_contains_joined(parts: Seq<Seq<char>>, i: int)
    requires
        0 <= i < parts.len(),
    ensures
        model::contains(model::join(parts, "\n"@), parts[i]),
    decreases parts.len(),
{
    let whole = model::join(parts, "\n"@);
    if i == 0 {
        let n = parts[0].len() as int;
        assert(whole.subrange(0, n) == parts[0]);
        assert(model::occurs_at(whole, parts[0], 0));
    } else {
        let rest = parts.drop_first();
        let tail = model::join(rest, "\n"@);
        assert(rest[i - 1] == parts[i]);
        lemma_contains_joined(rest, i - 1);
        let at = (parts.first().len() + "\n"@.len()) as int;
        assert(whole.subrange(at, at + tail.len()) == tail);
        assert(model::occurs_at(whole, tail, at));
        lemma_contains_through(whole, tail, parts[i]);
    }
}

/// Trimming a text takes no character out that is not white space.
pub proof fn lemma_trim_keeps(s: Seq<char>, i: int)
    requires
        0 <= i < s.len(),
        !model::is_white_space(s[i]),
    ensures
        model::trim(s).contains(s[i]),
{
    let (a, b) = lemma_trim_window(s);
    let kept = s.subrange(a, b);
    assert(a <= i < b);
    assert(kept[i - a] == s[i]);
}

} // verus!
