//! Text operations on strings, each proved against its statement in `model`.

use vstd::prelude::*;
use vstd::slice::slice_subrange;

use crate::lemmas;
use crate::model;

verus! {

/// `String::push` adds the character at the end of the string.
pub assume_specification[ String::push ](s: &mut String, c: char)
    ensures
        final(s)@ == old(s)@.push(c),
;

/// The characters of `s`.
pub fn to_chars(s: &str) -> (chars: Vec<char>)
    ensures
        chars@ == s@,
{
    let mut chars: Vec<char> = Vec::new();
    for c in it: s.chars()
        invariant
            chars@ == it.seq().take(it.index() as int),
            it.seq() == s@,
    {
        chars.push(c);
    }
    chars
}

/// The string that consists of `chars`.
pub fn to_text(chars: &[char]) -> (s: String)
    ensures
        s@ == chars@,
{
    let mut s = String::new();
    let mut i: usize = 0;
    while i < chars.len()
        invariant
            0 <= i <= chars@.len(),
            s@ == chars@.take(i as int),
        decreases chars@.len() - i,
    {
        s.push(chars[i]);
        i = i + 1;
    }
    s
}

/// Whether `c` has the Unicode property `White_Space`.
pub fn is_whitespace(c: char) -> (b: bool)
    ensures
        b == model::is_white_space(c),
{
    let u: u32 = c as u32;
    (0x09 <= u && u <= 0x0d) || u == 0x20 || u == 0x85 || u == 0xa0 || u == 0x1680
        || (0x2000 <= u && u <= 0x200a) || u == 0x2028 || u == 0x2029 || u == 0x202f || u == 0x205f
        || u == 0x3000
}

/// `s` without the white space at its two ends.
pub fn trim(s: &str) -> (t: &str)
    ensures
        t@ == model::trim(s@),
{
    let chars = to_chars(s);
    let mut start: usize = 0;
    let mut end: usize = chars.len();
    assert(s@.subrange(0, end as int) == s@);
    while start < end && is_whitespace(chars[start])
        invariant
            chars@ == s@,
            end == s@.len(),
            0 <= start <= end,
            model::trim(s@) == model::trim(s@.subrange(start as int, end as int)),
        decreases end - start,
    {
        proof {
            let rest = s@.subrange(start as int, end as int);
            assert(rest.drop_first() == s@.subrange(start + 1, end as int));
        }
        start = start + 1;
    }
    while start < end && is_whitespace(chars[end - 1])
        invariant
            chars@ == s@,
            0 <= start <= end <= s@.len(),
            start < end ==> !model::is_white_space(s@[start as int]),
            model::trim(s@) == model::trim(s@.subrange(start as int, end as int)),
        decreases end - start,
    {
        proof {
            let rest = s@.subrange(start as int, end as int);
            assert(rest.drop_last() == s@.subrange(start as int, end - 1));
        }
        end = end - 1;
    }
    s.substring_char(start, end)
}

/// `s` without the white space at its end.
pub fn trim_end(s: &str) -> (t: &str)
    ensures
        t@ == model::trim_end(s@),
{
    let chars = to_chars(s);
    let mut end: usize = chars.len();
    assert(s@.subrange(0, end as int) == s@);
    while end > 0 && is_whitespace(chars[end - 1])
        invariant
            chars@ == s@,
            0 <= end <= s@.len(),
            model::trim_end(s@) == model::trim_end(s@.subrange(0, end as int)),
        decreases end,
    {
        proof {
            let rest = s@.subrange(0, end as int);
            assert(rest.drop_last() == s@.subrange(0, end - 1));
        }
        end = end - 1;
    }
    s.substring_char(0, end)
}

/// Whether `pattern` stands in `chars` from position `at` on.
fn occurs_at(chars: &[char], pattern: &[char], at: usize) -> (b: bool)
    ensures
        b == model::occurs_at(chars@, pattern@, at as int),
{
    if pattern.len() > chars.len() || at > chars.len() - pattern.len() {
        return false;
    }
    let ghost window = chars@.subrange(at as int, at + pattern@.len());
    let mut i: usize = 0;
    while i < pattern.len()
        invariant
            0 <= i <= pattern@.len(),
            at + pattern@.len() <= chars.len(),
            window == chars@.subrange(at as int, at + pattern@.len()),
            forall|k: int| 0 <= k < i ==> window[k] == pattern@[k],
        decreases pattern@.len() - i,
    {
        if chars[at + i] != pattern[i] {
            assert(window[i as int] != pattern@[i as int]);
            return false;
        }
        assert(window[i as int] == pattern@[i as int]);
        i = i + 1;
    }
    assert(window =~= pattern@);
    true
}

/// Whether `s` begins with `pattern`.
pub fn starts_with(s: &str, pattern: &str) -> (b: bool)
    ensures
        b == pattern@.is_prefix_of(s@),
{
    occurs_at(&to_chars(s), &to_chars(pattern), 0)
}

/// Whether `s` ends with `pattern`.
pub fn ends_with(s: &str, pattern: &str) -> (b: bool)
    ensures
        b == pattern@.is_suffix_of(s@),
{
    let chars = to_chars(s);
    let wanted = to_chars(pattern);
    wanted.len() <= chars.len() && occurs_at(&chars, &wanted, chars.len() - wanted.len())
}

/// Whether `s` and `other` are the same text.
pub fn same(s: &str, other: &str) -> (b: bool)
    ensures
        b == (s@ == other@),
{
    let chars = to_chars(s);
    let wanted = to_chars(other);
    assert(chars@.subrange(0, chars@.len() as int) == chars@);
    chars.len() == wanted.len() && occurs_at(&chars, &wanted, 0)
}

/// Whether `pattern` stands somewhere in `s`.
pub fn contains(s: &str, pattern: &str) -> (b: bool)
    ensures
        b == model::contains(s@, pattern@),
{
    let chars = to_chars(s);
    let wanted = to_chars(pattern);
    if wanted.len() > chars.len() {
        return false;
    }
    let last: usize = chars.len() - wanted.len();
    let mut at: usize = 0;
    while at < last
        invariant
            chars@ == s@,
            wanted@ == pattern@,
            last == chars@.len() - wanted@.len(),
            0 <= at <= last,
            forall|i: int| 0 <= i < at ==> !model::occurs_at(s@, pattern@, i),
        decreases last - at,
    {
        if occurs_at(&chars, &wanted, at) {
            return true;
        }
        at = at + 1;
    }
    occurs_at(&chars, &wanted, last)
}

/// The lines of `s`, each without its line ending.
pub fn lines(s: &str) -> (parts: Vec<String>)
    ensures
        model::texts(parts@) == model::lines(s@),
{
    let chars = to_chars(s);
    let mut parts: Vec<String> = Vec::new();
    let mut start: usize = 0;
    let mut i: usize = 0;
    assert(s@.skip(0) == s@);
    while i < chars.len()
        invariant
            chars@ == s@,
            0 <= start <= i <= chars@.len(),
            forall|k: int| start <= k < i ==> s@[k] != '\n',
            model::lines(s@) == model::texts(parts@) + model::lines(s@.skip(start as int)),
        decreases chars@.len() - i,
    {
        if chars[i] == '\n' {
            let ghost rest = s@.skip(start as int);
            let ghost n = i - start;
            let ghost before = model::texts(parts@);
            let end: usize = if i > start && chars[i - 1] == '\r' {
                i - 1
            } else {
                i
            };
            let line = to_text(slice_subrange(chars.as_slice(), start, end));
            proof {
                assert(rest.take(n) == s@.subrange(start as int, i as int));
                lemmas::lemma_line_length_is(rest, n);
                assert(line@ == model::without_return(rest.take(n)));
                assert(rest.skip(n + 1) == s@.skip(i + 1));
            }
            parts.push(line);
            assert(model::texts(parts@) == before + seq![line@]);
            start = i + 1;
        }
        i = i + 1;
    }
    if start < chars.len() {
        let ghost rest = s@.skip(start as int);
        let ghost before = model::texts(parts@);
        let line = to_text(slice_subrange(chars.as_slice(), start, chars.len()));
        proof {
            assert(line@ == rest);
            assert(lemmas::is_single_line(rest));
            lemmas::lemma_lines_single(rest);
        }
        parts.push(line);
        assert(model::texts(parts@) == before + seq![line@]);
    }
    parts
}

/// The strings one after the other, with `separator` between neighbours.
pub fn join(parts: &[String], separator: &str) -> (s: String)
    ensures
        s@ == model::join(model::texts(parts@), separator@),
{
    let mut s = String::new();
    let ghost all = model::texts(parts@);
    let mut i: usize = 0;
    assert(all.skip(0) == all);
    while i < parts.len()
        invariant
            all == model::texts(parts@),
            0 <= i <= parts@.len(),
            i == 0 ==> s@.len() == 0,
            model::join(all, separator@) == s@ + if i == 0 || i == parts@.len() {
                model::join(all.skip(i as int), separator@)
            } else {
                separator@ + model::join(all.skip(i as int), separator@)
            },
        decreases parts@.len() - i,
    {
        if i > 0 {
            s.append(separator);
        }
        s.append(parts[i].as_str());
        assert(all.skip(i as int).drop_first() == all.skip(i + 1));
        i = i + 1;
    }
    s
}

/// `n` in decimal digits.
pub fn decimal(n: usize) -> (s: String)
    ensures
        s@ == model::decimal(n as nat),
    decreases n,
{
    let digit: char = (0x30u8 + (n % 10) as u8) as char;
    let mut s = if n < 10 {
        String::new()
    } else {
        decimal(n / 10)
    };
    s.push(digit);
    s
}

} // verus!
