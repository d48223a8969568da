//! What the text operations are for, stated over characters and concatenation alone.

use vstd::prelude::*;

use crate::lemmas;
use crate::model;

verus! {

/// The characters that count as white space, one by one.
pub proof fn law_white_space(c: char)
    ensures
        model::is_white_space(c) <==> seq![
            '\t', '\n', '\u{b}', '\u{c}', '\r', ' ', '\u{85}', '\u{a0}', '\u{1680}', '\u{2000}',
            '\u{2001}', '\u{2002}', '\u{2003}', '\u{2004}', '\u{2005}', '\u{2006}', '\u{2007}',
            '\u{2008}', '\u{2009}', '\u{200a}', '\u{2028}', '\u{2029}', '\u{202f}', '\u{205f}',
            '\u{3000}',
        ].contains(c),
{
    let all = seq![
        '\t', '\n', '\u{b}', '\u{c}', '\r', ' ', '\u{85}', '\u{a0}', '\u{1680}', '\u{2000}',
        '\u{2001}', '\u{2002}', '\u{2003}', '\u{2004}', '\u{2005}', '\u{2006}', '\u{2007}',
        '\u{2008}', '\u{2009}', '\u{200a}', '\u{2028}', '\u{2029}', '\u{202f}', '\u{205f}',
        '\u{3000}',
    ];
    let u = c as u32;
    let i: int = if u <= 0x0d {
        u - 0x09
    } else if u == 0x20 {
        5
    } else if u == 0x85 {
        6
    } else if u == 0xa0 {
        7
    } else if u == 0x1680 {
        8
    } else if u <= 0x200a {
        u - 0x2000 + 9
    } else if u == 0x2028 {
        20
    } else if u == 0x2029 {
        21
    } else if u == 0x202f {
        22
    } else if u == 0x205f {
        23
    } else {
        24
    };
    if model::is_white_space(c) {
        assert(all[i] == c);
    }
}

/// Trimming takes the white space at both ends, all of it and nothing else.
pub proof fn law_trim(before: Seq<char>, inner: Seq<char>, after: Seq<char>)
    requires
        forall|i: int| 0 <= i < before.len() ==> model::is_white_space(#[trigger] before[i]),
        forall|i: int| 0 <= i < after.len() ==> model::is_white_space(#[trigger] after[i]),
        inner.len() > 0 ==> !model::is_white_space(inner.first()) && !model::is_white_space(
            inner.last(),
        ),
    ensures
        model::trim(before + inner + after) == inner,
    decreases before.len(), after.len(),
{
    let whole = before + inner + after;
    if before.len() > 0 {
        let rest = before.drop_first();
        assert(whole.first() == before[0]);
        assert(whole.drop_first() == rest + inner + after);
        assert forall|i: int| 0 <= i < rest.len() implies model::is_white_space(
            #[trigger] rest[i],
        ) by {
            assert(rest[i] == before[i + 1]);
        }
        law_trim(rest, inner, after);
    } else if inner.len() == 0 {
        assert forall|i: int| 0 <= i < whole.len() implies model::is_white_space(
            #[trigger] whole[i],
        ) by {
            assert(whole[i] == after[i]);
        }
        lemmas::lemma_trim_blank(whole);
        assert(model::trim(whole) == inner);
    } else if after.len() > 0 {
        let rest = after.drop_last();
        assert(whole.first() == inner.first());
        assert(whole.last() == after[after.len() - 1]);
        assert(whole.drop_last() == before + inner + rest);
        assert forall|i: int| 0 <= i < rest.len() implies model::is_white_space(
            #[trigger] rest[i],
        ) by {
            assert(rest[i] == after[i]);
        }
        law_trim(before, inner, rest);
    } else {
        assert(whole == inner);
    }
}

/// Trimming the end takes the white space there, all of it and nothing else.
pub proof fn law_trim_end(inner: Seq<char>, after: Seq<char>)
    requires
        forall|i: int| 0 <= i < after.len() ==> model::is_white_space(#[trigger] after[i]),
        inner.len() > 0 ==> !model::is_white_space(inner.last()),
    ensures
        model::trim_end(inner + after) == inner,
    decreases after.len(),
{
    let whole = inner + after;
    if after.len() > 0 {
        let rest = after.drop_last();
        assert(whole.last() == after[after.len() - 1]);
        assert(whole.drop_last() == inner + rest);
        assert forall|i: int| 0 <= i < rest.len() implies model::is_white_space(
            #[trigger] rest[i],
        ) by {
            assert(rest[i] == after[i]);
        }
        law_trim_end(inner, rest);
    } else {
        assert(whole == inner);
    }
}

/// A text contains whatever stands between its beginning and its end.
pub proof fn law_contains(before: Seq<char>, pattern: Seq<char>, after: Seq<char>)
    ensures
        model::contains(before + pattern + after, pattern),
{
    let whole = before + pattern + after;
    let at = before.len() as int;
    assert(whole.subrange(at, at + pattern.len()) == pattern);
    assert(model::occurs_at(whole, pattern, at));
}

/// A text contains nothing but what stands between its beginning and its end.
pub proof fn law_contained_parts(s: Seq<char>, pattern: Seq<char>) -> (parts: (
    Seq<char>,
    Seq<char>,
))
    requires
        model::contains(s, pattern),
    ensures
        s == parts.0 + pattern + parts.1,
{
    let i = choose|i: int| model::occurs_at(s, pattern, i);
    let before = s.take(i);
    let after = s.skip(i + pattern.len());
    assert(s == before + pattern + after);
    (before, after)
}

/// A text without a newline is one line, and an empty text is none.
pub proof fn law_one_line(s: Seq<char>)
    requires
        !s.contains('\n'),
    ensures
        model::lines(s) == if s.len() == 0 {
            Seq::<Seq<char>>::empty()
        } else {
            seq![s]
        },
{
    assert forall|i: int| 0 <= i < s.len() implies #[trigger] s[i] != '\n' by {
        assert(s.contains(s[i]));
    }
    if s.len() > 0 {
        lemmas::lemma_lines_single(s);
    }
}

/// A newline, alone or after a carriage return, ends a line, and the next one begins behind it.
pub proof fn law_first_line(line: Seq<char>, rest: Seq<char>)
    requires
        !line.contains('\n'),
    ensures
        line.len() == 0 || line.last() != '\r' ==> model::lines(line + seq!['\n'] + rest) == seq![
            line,
        ] + model::lines(rest),
        model::lines(line + seq!['\r', '\n'] + rest) == seq![line] + model::lines(rest),
{
    assert forall|i: int| 0 <= i < line.len() implies #[trigger] line[i] != '\n' by {
        assert(line.contains(line[i]));
    }
    lemmas::lemma_lines_step(line, rest);
    let longer = line.push('\r');
    lemmas::lemma_lines_step(longer, rest);
    assert(longer.drop_last() == line);
    assert(longer + seq!['\n'] + rest == line + seq!['\r', '\n'] + rest);
}

/// Joining puts the separator between neighbours and nowhere else.
pub proof fn law_join(first: Seq<Seq<char>>, second: Seq<Seq<char>>, separator: Seq<char>)
    ensures
        first.len() == 0 ==> model::join(first, separator).len() == 0,
        first.len() == 1 ==> model::join(first, separator) == first[0],
        first.len() > 0 && second.len() > 0 ==> model::join(first + second, separator)
            == model::join(first, separator) + separator + model::join(second, separator),
    decreases first.len(),
{
    let both = first + second;
    if first.len() > 0 && second.len() > 0 {
        let rest = first.drop_first();
        assert(both.drop_first() == rest + second);
        assert(both.first() == first.first());
        if first.len() == 1 {
            assert(rest + second == second);
        } else {
            law_join(rest, second, separator);
            let tail = model::join(second, separator);
            let middle = model::join(rest, separator);
            assert(first.first() + separator + (middle + separator + tail) == first.first()
                + separator + middle + separator + tail);
        }
    }
}

/// A number below ten is its digit, and a further digit is put behind the others.
pub proof fn law_decimal(n: nat, digit: nat)
    requires
        digit < 10,
    ensures
        model::decimal(digit) == seq!["0123456789"@[digit as int]],
        n > 0 ==> model::decimal(10 * n + digit) == model::decimal(n).push(
            "0123456789"@[digit as int],
        ),
{
    reveal_strlit("0123456789");
    assert("0123456789"@[digit as int] == (0x30 + digit) as char);
    if n > 0 {
        assert((10 * n + digit) / 10 == n);
        assert((10 * n + digit) % 10 == digit);
    }
}

/// The texts of strings, each at the place of its string.
pub proof fn law_texts(strings: Seq<String>)
    ensures
        model::texts(strings).len() == strings.len(),
        forall|i: int|
            0 <= i < strings.len() ==> #[trigger] model::texts(strings)[i] == strings[i]@,
{
}

/// A text is blank where white space is all it has.
pub proof fn law_blank(s: Seq<char>)
    ensures
        model::is_blank(s) <==> forall|c: char| s.contains(c) ==> model::is_white_space(c),
{
    if forall|c: char| s.contains(c) ==> model::is_white_space(c) {
        assert forall|i: int| 0 <= i < s.len() implies model::is_white_space(#[trigger] s[i]) by {
            assert(s.contains(s[i]));
        }
    }
}

/// A carriage return and a newline behind it, wherever they stand, are seen, and nothing else is
/// taken for them.
pub proof fn law_returns_are_seen(s: Seq<char>)
    ensures
        model::has_return(s) <==> model::contains(s, seq!['\r', '\n']),
{
    let pair = seq!['\r', '\n'];
    if model::has_return(s) {
        let i = choose|i: int| model::return_at(s, i);
        assert(s.subrange(i, i + 2) == pair);
        assert(model::occurs_at(s, pair, i));
    }
    if model::contains(s, pair) {
        let i = choose|i: int| model::occurs_at(s, pair, i);
        assert(s.subrange(i, i + 2)[0] == s[i]);
        assert(s.subrange(i, i + 2)[1] == s[i + 1]);
        assert(model::return_at(s, i));
    }
}

} // verus!
