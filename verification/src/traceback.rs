//! Reduction of Python tracebacks to the last location and the error itself.

use vstd::prelude::*;

use crate::ansi;
use crate::lemmas;
use crate::model;
use crate::text;
use crate::text_laws;

verus! {

/// The line that opens a traceback.
pub open spec fn is_header(line: Seq<char>) -> bool {
    model::trim(line) == "Traceback (most recent call last):"@
}

/// A line of a traceback that names the place of a frame.
pub open spec fn is_location(line: Seq<char>) -> bool {
    "File "@.is_prefix_of(model::trim(line))
}

/// A line that can end a traceback: one that names an error or an exception before a colon, or
/// one that ends like the name of an exception and neither is indented nor names a place.
pub open spec fn is_terminal(line: Seq<char>) -> bool {
    ||| model::contains(line, "Error:"@)
    ||| model::contains(line, "Exception:"@)
    ||| {
        &&& !(line.len() > 0 && (line.first() == ' ' || line.first() == '\t'))
        &&& !"File "@.is_prefix_of(line)
        &&& {
            ||| "Interrupt"@.is_suffix_of(line)
            ||| "Exit"@.is_suffix_of(line)
            ||| "Error"@.is_suffix_of(line)
            ||| "Exception"@.is_suffix_of(line)
        }
    }
}

/// A line that ends the traceback that is open. Its indentation counts: the code lines of a
/// traceback are indented, and the bare name of an exception is not.
pub open spec fn closes(line: Seq<char>) -> bool {
    !is_header(line) && !is_location(line) && is_terminal(model::trim_end(line))
}

/// The position, at or after `from`, of the first line that ends a traceback, or the number
/// of lines where there is none.
pub open spec fn block_end(lines: Seq<Seq<char>>, from: int) -> int
    decreases lines.len() - from,
{
    if from < lines.len() && !closes(lines[from]) {
        block_end(lines, from + 1)
    } else {
        from
    }
}

/// The last place that the lines name after the last header among them, as no line or one.
pub open spec fn last_location(lines: Seq<Seq<char>>) -> Seq<Seq<char>>
    decreases lines.len(),
{
    if lines.len() == 0 || is_header(lines.last()) {
        seq![]
    } else if is_location(lines.last()) {
        seq![model::trim(lines.last())]
    } else {
        last_location(lines.drop_last())
    }
}

/// What is shown of the lines. A line outside tracebacks is shown as it stands. Of a traceback,
/// which goes from its header to the first line that ends it, the last place is shown and the
/// line that ends it; of one that nothing ends, the last place.
pub open spec fn summary(lines: Seq<Seq<char>>) -> Seq<Seq<char>>
    decreases lines.len(),
{
    if lines.len() == 0 {
        seq![]
    } else if !is_header(lines.first()) {
        seq![lines.first()] + summary(lines.drop_first())
    } else {
        let end = block_end(lines, 1);
        let place = last_location(lines.subrange(1, end));
        if 0 < end < lines.len() {
            place + seq![model::trim(lines[end])] + summary(lines.skip(end + 1))
        } else {
            place
        }
    }
}

/// What is shown of an output that may hold tracebacks.
pub open spec fn filtered(raw: Seq<char>) -> Seq<char> {
    model::trim(model::join(summary(model::lines(ansi::visible(raw))), "\n"@))
}

/// Whether a line ends a traceback: it holds `Error:` or `Exception:`, or it is a bare exception
/// such as `KeyboardInterrupt`.
pub fn is_traceback_terminal(line: &str) -> (b: bool)
    ensures
        b == is_terminal(line@),
        b <==> model::contains(line@, "Error:"@) || model::contains(line@, "Exception:"@) || {
            &&& !" "@.is_prefix_of(line@)
            &&& !"\t"@.is_prefix_of(line@)
            &&& !"File "@.is_prefix_of(line@)
            &&& {
                ||| "Interrupt"@.is_suffix_of(line@)
                ||| "Exit"@.is_suffix_of(line@)
                ||| "Error"@.is_suffix_of(line@)
                ||| "Exception"@.is_suffix_of(line@)
            }
        },
{
    proof {
        reveal_strlit(" ");
        reveal_strlit("\t");
        assert(" "@ == seq![' ']);
        assert("\t"@ == seq!['\t']);
        if line@.len() > 0 {
            assert(line@.subrange(0, 1) == seq![line@.first()]);
            assert(seq![line@.first()][0] == line@.first());
            assert(seq![' '][0] == ' ');
            assert(seq!['\t'][0] == '\t');
        }
    }
    if text::contains(line, "Error:") || text::contains(line, "Exception:") {
        return true;
    }
    !text::starts_with(line, " ") && !text::starts_with(line, "\t") && !text::starts_with(
        line,
        "File ",
    ) && (text::ends_with(line, "Interrupt") || text::ends_with(line, "Exit") || text::ends_with(
        line,
        "Error",
    ) || text::ends_with(line, "Exception"))
}

/// A traceback ends at the first line that can end it.
proof fn lemma_block_end(lines: Seq<Seq<char>>, from: int, end: int)
    requires
        0 <= from <= end <= lines.len(),
        forall|k: int| from <= k < end ==> !closes(lines[k]),
        end < lines.len() ==> closes(lines[end]),
    ensures
        block_end(lines, from) == end,
    decreases end - from,
{
    if from < end {
        lemma_block_end(lines, from + 1, end);
    }
}

/// Shows tracebacks by their last place and their error only, and other output as it is.
pub fn filter_traceback(raw: &str) -> (shown: String)
    ensures
        shown@ == filtered(raw@),
        shown@ == model::trim(
            model::join(summary(model::lines(ansi::visible(raw@))), "\n"@),
        ),
{
    let clean = ansi::strip_ansi(raw);
    let lines = text::lines(clean.as_str());
    let ghost all = model::texts(lines@);
    let mut result: Vec<String> = Vec::new();
    let mut in_traceback = false;
    let mut last_file_line: Option<String> = None;
    // The position of the header of the traceback that is open.
    let ghost mut head: int = 0;
    let mut i: usize = 0;
    assert(all.skip(0) == all);
    while i < lines.len()
        invariant
            all == model::texts(lines@),
            0 <= i <= lines@.len(),
            !in_traceback ==> summary(all) == model::texts(result@) + summary(all.skip(i as int)),
            in_traceback ==> {
                &&& 0 <= head < i
                &&& is_header(all[head])
                &&& forall|k: int| head < k < i ==> !closes(all[k])
                &&& summary(all) == model::texts(result@) + summary(all.skip(head))
                &&& last_location(all.subrange(head + 1, i as int)) == (match last_file_line {
                    Some(file_line) => seq![file_line@],
                    None => seq![],
                })
            },
        decreases lines@.len() - i,
    {
        let line = lines[i].as_str();
        let trimmed = text::trim(line);
        let ghost shown = model::texts(result@);
        let ghost block = all.subrange(head + 1, i as int);
        let ghost longer = all.subrange(head + 1, i + 1);
        assert(line@ == all[i as int]);
        assert(in_traceback ==> longer.last() == line@ && longer.drop_last() == block);
        if text::same(trimmed, "Traceback (most recent call last):") {
            proof {
                if !in_traceback {
                    head = i as int;
                    assert(all.subrange(i + 1, i + 1) == Seq::<Seq<char>>::empty());
                }
            }
            in_traceback = true;
            last_file_line = None;
        } else if in_traceback {
            if text::starts_with(trimmed, "File ") {
                last_file_line = Some(trimmed.to_owned());
            } else if is_traceback_terminal(text::trim_end(line)) {
                proof {
                    let rest = all.skip(head);
                    lemma_block_end(rest, 1, i - head);
                    assert(rest.subrange(1, i - head) == block);
                    assert(rest.skip(i - head + 1) == all.skip(i + 1));
                }
                if let Some(file_line) = last_file_line {
                    result.push(file_line);
                    assert(model::texts(result@) == shown + seq![file_line@]);
                }
                let ghost placed = model::texts(result@);
                let closing = trimmed.to_owned();
                result.push(closing);
                assert(model::texts(result@) == placed + seq![closing@]);
                in_traceback = false;
                last_file_line = None;
            }
        } else {
            let kept = line.to_owned();
            result.push(kept);
            proof {
                assert(model::texts(result@) == shown + seq![kept@]);
                assert(all.skip(i as int).drop_first() == all.skip(i + 1));
            }
        }
        i = i + 1;
    }
    if in_traceback {
        let ghost shown = model::texts(result@);
        proof {
            let rest = all.skip(head);
            lemma_block_end(rest, 1, rest.len() as int);
            assert(rest.subrange(1, rest.len() as int) == all.subrange(head + 1, i as int));
        }
        if let Some(file_line) = last_file_line {
            result.push(file_line);
            assert(model::texts(result@) == shown + seq![file_line@]);
        }
    }
    assert(model::texts(result@) == summary(all));
    let joined = text::join(&result, "\n");
    text::trim(joined.as_str()).to_owned()
}

/// No line among `lines` opens a traceback.
pub open spec fn has_no_header(lines: Seq<Seq<char>>) -> bool {
    forall|i: int| 0 <= i < lines.len() ==> !is_header(#[trigger] lines[i])
}

/// No line among `lines` can end a traceback.
pub open spec fn has_no_closing(lines: Seq<Seq<char>>) -> bool {
    forall|i: int| 0 <= i < lines.len() ==> !closes(#[trigger] lines[i])
}

/// Lines before the first traceback are shown as they are, whatever follows.
pub proof fn law_lines_before_a_traceback_stay(before: Seq<Seq<char>>, rest: Seq<Seq<char>>)
    requires
        has_no_header(before),
    ensures
        summary(before + rest) == before + summary(rest),
    decreases before.len(),
{
    if before.len() == 0 {
        assert(before + rest == rest);
    } else {
        let all = before + rest;
        let tail = before.drop_first();
        assert(!is_header(before[0]));
        assert forall|i: int| 0 <= i < tail.len() implies !is_header(#[trigger] tail[i]) by {
            assert(tail[i] == before[i + 1]);
        }
        law_lines_before_a_traceback_stay(tail, rest);
        assert(all.drop_first() == tail + rest);
        assert(seq![before.first()] + (tail + summary(rest)) == before + summary(rest));
    }
}

/// Output without a traceback is shown line for line.
pub proof fn law_output_without_traceback_stays(lines: Seq<Seq<char>>)
    requires
        has_no_header(lines),
    ensures
        summary(lines) == lines,
{
    law_lines_before_a_traceback_stay(lines, seq![]);
    assert(lines + seq![] == lines);
}

/// A traceback that a line ends is shown by its last place and that line; what comes before it
/// stays, and what comes after it is treated as an output of its own.
pub proof fn law_closed_traceback(
    before: Seq<Seq<char>>,
    header: Seq<char>,
    frames: Seq<Seq<char>>,
    closing: Seq<char>,
    after: Seq<Seq<char>>,
)
    requires
        has_no_header(before),
        is_header(header),
        has_no_closing(frames),
        closes(closing),
    ensures
        summary(before + (seq![header] + frames + seq![closing] + after)) == before
            + last_location(frames) + seq![model::trim(closing)] + summary(after),
{
    let block = seq![header] + frames + seq![closing] + after;
    let end = frames.len() as int + 1;
    assert(block[end] == closing);
    assert forall|k: int| 1 <= k < end implies !closes(block[k]) by {
        assert(block[k] == frames[k - 1]);
    }
    lemma_block_end(block, 1, end);
    assert(block.subrange(1, end) == frames);
    assert(block.skip(end + 1) == after);
    law_lines_before_a_traceback_stay(before, block);
    assert(before + (last_location(frames) + seq![model::trim(closing)] + summary(after)) == before
        + last_location(frames) + seq![model::trim(closing)] + summary(after));
}

/// A traceback that nothing ends is shown by its last place.
pub proof fn law_unclosed_traceback(
    before: Seq<Seq<char>>,
    header: Seq<char>,
    frames: Seq<Seq<char>>,
)
    requires
        has_no_header(before),
        is_header(header),
        has_no_closing(frames),
    ensures
        summary(before + (seq![header] + frames)) == before + last_location(frames),
{
    let block = seq![header] + frames;
    let end = block.len() as int;
    assert forall|k: int| 1 <= k < end implies !closes(block[k]) by {
        assert(block[k] == frames[k - 1]);
    }
    lemma_block_end(block, 1, end);
    assert(block.subrange(1, end) == frames);
    law_lines_before_a_traceback_stay(before, block);
}

/// The place that is shown of a traceback is the last one that its frames name, whatever other
/// frames and code lines stand around it.
pub proof fn law_last_place_is_shown(
    earlier: Seq<Seq<char>>,
    place: Seq<char>,
    code: Seq<Seq<char>>,
)
    requires
        is_location(place),
        has_no_header(code),
        forall|i: int| 0 <= i < code.len() ==> !is_location(#[trigger] code[i]),
    ensures
        last_location(earlier + seq![place] + code) == seq![model::trim(place)],
    decreases code.len(),
{
    let lines = earlier + seq![place] + code;
    if code.len() == 0 {
        assert(lines.last() == place);
        lemma_location_is_no_header(place);
    } else {
        let shorter = code.drop_last();
        assert(lines.last() == code.last());
        assert(lines.drop_last() == earlier + seq![place] + shorter);
        assert(!is_header(code[code.len() - 1]));
        assert(!is_location(code[code.len() - 1]));
        assert forall|i: int| 0 <= i < shorter.len() implies !is_header(#[trigger] shorter[i])
            && !is_location(shorter[i]) by {
            assert(shorter[i] == code[i]);
        }
        law_last_place_is_shown(earlier, place, shorter);
    }
}

/// A line that names a place opens no traceback.
proof fn lemma_location_is_no_header(line: Seq<char>)
    requires
        is_location(line),
    ensures
        !is_header(line),
{
    reveal_strlit("File ");
    reveal_strlit("Traceback (most recent call last):");
    let trimmed = model::trim(line);
    assert(trimmed.subrange(0, 5)[0] == trimmed[0]);
    assert("File "@[0] == 'F');
    assert("Traceback (most recent call last):"@[0] == 'T');
}

/// An indented line, or one that names a place, ends a traceback only if it holds an error or an
/// exception before a colon.
pub proof fn law_indented_line_is_no_bare_exception(line: Seq<char>)
    requires
        line.len() > 0,
        line.first() == ' ' || line.first() == '\t' || "File "@.is_prefix_of(line),
    ensures
        is_terminal(line) == (model::contains(line, "Error:"@) || model::contains(
            line,
            "Exception:"@,
        )),
{
}

/// Trimming makes no difference to whether a line opens a traceback.
proof fn lemma_trimmed_header(line: Seq<char>)
    ensures
        is_header(model::trim(line)) == is_header(line),
{
    lemmas::lemma_trim_ends(line);
}

/// Of the frames of a traceback at most one line is shown, which names a place.
proof fn lemma_last_location(frames: Seq<Seq<char>>, c: char)
    requires
        lemmas::all_lack(frames, c),
    ensures
        last_location(frames).len() <= 1,
        has_no_header(last_location(frames)),
        lemmas::all_lack(last_location(frames), c),
        lemmas::weight(last_location(frames)) <= lemmas::weight(frames),
    decreases frames.len(),
{
    if frames.len() > 0 {
        let last = frames.last();
        let rest = frames.drop_last();
        assert(rest + seq![last] == frames);
        lemmas::lemma_weight_add(rest, seq![last]);
        lemmas::lemma_weight_single(last);
        if is_header(last) {
        } else if is_location(last) {
            assert(lemmas::lacks(frames[frames.len() - 1], c));
            lemmas::lemma_trim_lacks(last, c);
            lemmas::lemma_trim_len(last);
            lemmas::lemma_weight_single(model::trim(last));
            lemma_location_is_no_header(last);
            lemma_trimmed_header(last);
        } else {
            assert forall|i: int|
                0 <= i < rest.len() implies lemmas::lacks(#[trigger] rest[i], c) by {
                assert(rest[i] == frames[i]);
            }
            lemma_last_location(rest, c);
        }
    }
}

/// The end of a traceback lies after its header and at most at the end of the lines.
proof fn lemma_block_end_range(lines: Seq<Seq<char>>, from: int)
    requires
        0 <= from <= lines.len(),
    ensures
        from <= block_end(lines, from) <= lines.len(),
        block_end(lines, from) < lines.len() ==> closes(lines[block_end(lines, from)]),
    decreases lines.len() - from,
{
    if from < lines.len() && !closes(lines[from]) {
        lemma_block_end_range(lines, from + 1);
    }
}

/// No line that is shown opens a traceback or holds a character that all lines lack, and what is
/// shown takes no more space than the lines that it was made of.
proof fn lemma_summary(lines: Seq<Seq<char>>, c: char)
    requires
        lemmas::all_lack(lines, c),
    ensures
        has_no_header(summary(lines)),
        lemmas::all_lack(summary(lines), c),
        summary(lines).len() <= lines.len(),
        lemmas::weight(summary(lines)) <= lemmas::weight(lines),
    decreases lines.len(),
{
    let shown = summary(lines);
    if lines.len() > 0 {
        if !is_header(lines.first()) {
            let rest = lines.drop_first();
            assert forall|i: int|
                0 <= i < rest.len() implies lemmas::lacks(#[trigger] rest[i], c) by {
                assert(rest[i] == lines[i + 1]);
            }
            lemma_summary(rest, c);
            assert(lemmas::lacks(lines[0], c));
            lemmas::lemma_weight_add(seq![lines.first()], summary(rest));
            lemmas::lemma_weight_single(lines.first());
            assert forall|i: int|
                0 <= i < shown.len() implies lemmas::lacks(#[trigger] shown[i], c)
                    && !is_header(shown[i]) by {
                if i > 0 {
                    assert(shown[i] == summary(rest)[i - 1]);
                }
            }
        } else {
            lemma_block_end_range(lines, 1);
            let end = block_end(lines, 1);
            let frames = lines.subrange(1, end);
            assert forall|i: int|
                0 <= i < frames.len() implies lemmas::lacks(#[trigger] frames[i], c) by {
                assert(frames[i] == lines[i + 1]);
            }
            lemma_last_location(frames, c);
            let place = last_location(frames);
            if end < lines.len() {
                let closing = lines[end];
                let rest = lines.skip(end + 1);
                assert forall|i: int|
                    0 <= i < rest.len() implies lemmas::lacks(#[trigger] rest[i], c) by {
                    assert(rest[i] == lines[end + 1 + i]);
                }
                lemma_summary(rest, c);
                lemmas::lemma_trim_lacks(closing, c);
                lemmas::lemma_trim_len(closing);
                lemma_trimmed_header(closing);
                let closed = place + seq![model::trim(closing)];
                assert forall|i: int|
                    0 <= i < shown.len() implies lemmas::lacks(#[trigger] shown[i], c)
                        && !is_header(shown[i]) by {
                    if i < place.len() {
                        assert(shown[i] == place[i]);
                    } else if i > place.len() {
                        assert(shown[i] == summary(rest)[i - closed.len()]);
                    }
                }
                lemmas::lemma_weight_add(place, seq![model::trim(closing)]);
                lemmas::lemma_weight_add(closed, summary(rest));
                lemmas::lemma_weight_single(model::trim(closing));
                assert(lines == seq![lines.first()] + frames + seq![closing] + rest);
                lemmas::lemma_weight_add(seq![lines.first()] + frames + seq![closing], rest);
                lemmas::lemma_weight_add(seq![lines.first()] + frames, seq![closing]);
                lemmas::lemma_weight_add(seq![lines.first()], frames);
                lemmas::lemma_weight_single(closing);
            } else {
                assert(lines == seq![lines.first()] + frames);
                lemmas::lemma_weight_add(seq![lines.first()], frames);
            }
        }
    }
}

/// No line of what is shown opens a traceback, whatever the output was.
pub proof fn law_no_traceback_is_left(raw: Seq<char>)
    ensures
        has_no_header(model::lines(filtered(raw))),
{
    let clean = ansi::visible(raw);
    let parts = summary(model::lines(clean));
    let joined = model::join(parts, "\n"@);
    lemmas::lemma_lines_are_single(clean);
    lemma_summary(model::lines(clean), '\n');
    lemmas::lemma_filled_join(parts);
    lemmas::lemma_filled_trim(joined);
    let shown = model::lines(filtered(raw));
    assert forall|i: int| 0 <= i < shown.len() implies !is_header(#[trigger] shown[i]) by {
        if is_header(shown[i]) {
            reveal_strlit("Traceback (most recent call last):");
            lemmas::lemma_filled_keeps(shown, i);
            let j = lemmas::lemma_filled_source(parts, model::trim(shown[i]));
            assert(is_header(parts[j]));
        }
    }
}

/// What is shown is never longer than the output.
pub proof fn law_filtered_is_no_longer(raw: Seq<char>)
    ensures
        filtered(raw).len() <= raw.len(),
{
    let clean = ansi::visible(raw);
    let lines = model::lines(clean);
    ansi::law_visible_is_no_longer(raw);
    lemmas::lemma_lines_are_single(clean);
    lemma_summary(lines, '\n');
    lemmas::lemma_weight_lines(clean);
    lemmas::lemma_weight_join(summary(lines));
    lemmas::lemma_trim_len(model::join(summary(lines), "\n"@));
}

/// What is shown has no more lines than the output.
pub proof fn law_summary_has_no_more_lines(text: Seq<char>)
    ensures
        summary(model::lines(text)).len() <= model::lines(text).len(),
{
    lemmas::lemma_lines_are_single(text);
    lemma_summary(model::lines(text), '\n');
}

/// An output without a traceback is shown as it is, but for its escape sequences, the white space
/// around it and the carriage returns before newlines.
pub proof fn law_plain_output_stays(raw: Seq<char>)
    requires
        has_no_header(model::lines(ansi::visible(raw))),
    ensures
        filtered(raw) == model::with_newlines(model::trim(ansi::visible(raw))),
{
    let clean = ansi::visible(raw);
    law_output_without_traceback_stays(model::lines(clean));
    lemmas::lemma_trim_join_lines(clean);
}

/// What is shown holds no character that the output lacks.
pub proof fn law_no_character_is_added(raw: Seq<char>, c: char)
    requires
        !raw.contains(c),
    ensures
        !filtered(raw).contains(c),
{
    let clean = ansi::visible(raw);
    let lines = model::lines(clean);
    ansi::law_visible_adds_no_character(raw, c);
    assert(lemmas::lacks(clean, c)) by {
        assert forall|i: int| 0 <= i < clean.len() implies #[trigger] clean[i] != c by {
            assert(clean.contains(clean[i]));
        }
    }
    lemmas::lemma_lines_lack(clean, c);
    lemma_summary(lines, c);
    if c == '\n' && clean.len() > 0 {
        lemmas::lemma_lines_single(clean);
    }
    lemmas::lemma_join_lacks(summary(lines), c);
    lemmas::lemma_trim_lacks(model::join(summary(lines), "\n"@), c);
}

/// Filtering what was filtered changes nothing, unless an escape sequence or a carriage return
/// before a newline is left in it.
pub proof fn law_filtering_twice(raw: Seq<char>)
    ensures
        filtered(filtered(raw)) == filtered(raw) <==> ansi::visible(filtered(raw)) == filtered(raw)
            && !model::has_return(filtered(raw)),
{
    let shown = filtered(raw);
    let clean = ansi::visible(shown);
    let lines = model::lines(clean);
    lemmas::lemma_trim_ends(model::join(summary(model::lines(ansi::visible(raw))), "\n"@));
    lemmas::lemma_with_newlines_len(shown);
    ansi::law_visible_is_no_longer(shown);
    if clean == shown {
        law_no_traceback_is_left(raw);
        law_plain_output_stays(shown);
    } else {
        lemmas::lemma_lines_are_single(clean);
        lemma_summary(lines, '\n');
        lemmas::lemma_weight_lines(clean);
        lemmas::lemma_weight_join(summary(lines));
        lemmas::lemma_trim_len(model::join(summary(lines), "\n"@));
    }
}

/// An output that is a traceback is shown as two lines: the last place that the traceback names,
/// and the error that ends it.
pub proof fn law_traceback_is_reduced_to_place_and_error(
    raw: Seq<char>,
    header: Seq<char>,
    earlier: Seq<Seq<char>>,
    place: Seq<char>,
    code: Seq<Seq<char>>,
    closing: Seq<char>,
)
    requires
        model::lines(ansi::visible(raw)) == seq![header] + (earlier + seq![place] + code) + seq![
            closing,
        ],
        is_header(header),
        has_no_closing(earlier + seq![place] + code),
        is_location(place),
        has_no_header(code),
        forall|i: int| 0 <= i < code.len() ==> !is_location(#[trigger] code[i]),
        closes(closing),
    ensures
        filtered(raw) == model::trim(place) + "\n"@ + model::trim(closing),
{
    let none = Seq::<Seq<char>>::empty();
    let frames = earlier + seq![place] + code;
    let lines = model::lines(ansi::visible(raw));
    let first = model::trim(place);
    let second = model::trim(closing);
    let parts = seq![first, second];
    law_closed_traceback(none, header, frames, closing, none);
    law_last_place_is_shown(earlier, place, code);
    assert(lines == none + (seq![header] + frames + seq![closing] + none));
    assert(none + seq![first] + seq![second] + none == parts);
    assert(summary(lines) == parts);
    assert(parts.drop_first() == seq![second]);
    reveal_with_fuel(model::join, 2);
    let text = first + "\n"@ + second;
    assert(model::join(parts, "\n"@) == text);
    lemmas::lemma_trim_ends(place);
    lemmas::lemma_trim_ends(closing);
    reveal_strlit("File ");
    lemma_closing_is_not_blank(closing);
    assert(text.first() == first.first());
    assert(text.last() == second.last());
}

/// A line that can end a traceback is not empty.
proof fn lemma_terminal_is_not_empty(line: Seq<char>)
    requires
        is_terminal(line),
    ensures
        line.len() > 0,
{
    reveal_strlit("Error:");
    reveal_strlit("Exception:");
    reveal_strlit("Interrupt");
    reveal_strlit("Exit");
    reveal_strlit("Error");
    reveal_strlit("Exception");
}

/// A line that ends a traceback is not blank.
proof fn lemma_closing_is_not_blank(line: Seq<char>)
    requires
        closes(line),
    ensures
        model::trim(line).len() > 0,
{
    lemma_terminal_is_not_empty(model::trim_end(line));
    lemmas::lemma_trim_end(line);
    lemmas::lemma_trim_blank(line);
}

/// An indented line ends a traceback only if it holds an error or an exception before a colon:
/// code that raises an exception by its name alone is skipped.
pub proof fn law_indented_code_is_skipped(line: Seq<char>)
    requires
        line.len() > 0,
        line.first() == ' ' || line.first() == '\t',
        !model::contains(line, "Error:"@),
        !model::contains(line, "Exception:"@),
    ensures
        !closes(line),
{
    let kept = model::trim_end(line);
    lemmas::lemma_trim_end(line);
    if closes(line) {
        lemma_terminal_is_not_empty(kept);
        assert(kept.first() == line.first());
        if model::contains(kept, "Error:"@) {
            lemmas::lemma_contains_in_prefix(kept, line, "Error:"@);
        }
        if model::contains(kept, "Exception:"@) {
            lemmas::lemma_contains_in_prefix(kept, line, "Exception:"@);
        }
    }
}

/// The header opens a traceback, whatever white space stands around it.
pub proof fn law_header_opens(before: Seq<char>, after: Seq<char>)
    requires
        forall|i: int| 0 <= i < before.len() ==> model::is_white_space(#[trigger] before[i]),
        forall|i: int| 0 <= i < after.len() ==> model::is_white_space(#[trigger] after[i]),
    ensures
        is_header(before + "Traceback (most recent call last):"@ + after),
{
    reveal_strlit("Traceback (most recent call last):");
    text_laws::law_trim(before, "Traceback (most recent call last):"@, after);
}

/// Nothing but the header, with white space around it, opens a traceback.
pub proof fn law_only_the_header_opens(line: Seq<char>) -> (space: (Seq<char>, Seq<char>))
    requires
        is_header(line),
    ensures
        line == space.0 + "Traceback (most recent call last):"@ + space.1,
        forall|i: int| 0 <= i < space.0.len() ==> model::is_white_space(#[trigger] space.0[i]),
        forall|i: int| 0 <= i < space.1.len() ==> model::is_white_space(#[trigger] space.1[i]),
{
    let (a, b) = lemmas::lemma_trim_window(line);
    let before = line.take(a);
    let after = line.skip(b);
    assert(line == before + model::trim(line) + after);
    assert forall|i: int| 0 <= i < before.len() implies model::is_white_space(
        #[trigger] before[i],
    ) by {
        assert(before[i] == line[i]);
    }
    assert forall|i: int| 0 <= i < after.len() implies model::is_white_space(
        #[trigger] after[i],
    ) by {
        assert(after[i] == line[b + i]);
    }
    (before, after)
}

/// `File ` and something behind it, with any white space before it, names a place.
pub proof fn law_file_names_a_place(before: Seq<char>, name: Seq<char>, after: Seq<char>)
    requires
        forall|i: int| 0 <= i < before.len() ==> model::is_white_space(#[trigger] before[i]),
        forall|i: int| 0 <= i < after.len() ==> model::is_white_space(#[trigger] after[i]),
        name.len() > 0,
        !model::is_white_space(name.last()),
    ensures
        is_location(before + ("File "@ + name) + after),
        model::trim(before + ("File "@ + name) + after) == "File "@ + name,
{
    let text = "File "@ + name;
    reveal_strlit("File ");
    assert(text.first() == 'F');
    assert(text.last() == name.last());
    text_laws::law_trim(before, text, after);
    assert(text.subrange(0, 5) == "File "@);
}

/// Nothing else names a place.
pub proof fn law_only_file_names_a_place(line: Seq<char>)
    requires
        is_location(line),
    ensures
        model::trim(line).len() >= 5,
        model::trim(line).subrange(0, 5) == "File "@,
{
    reveal_strlit("File ");
}

/// `Error:` or `Exception:`, at any position of a line and whatever stands around it, makes the
/// line one that can end a traceback.
pub proof fn law_colon_makes_a_terminal(before: Seq<char>, after: Seq<char>)
    ensures
        is_terminal(before + "Error:"@ + after),
        is_terminal(before + "Exception:"@ + after),
{
    text_laws::law_contains(before, "Error:"@, after);
    text_laws::law_contains(before, "Exception:"@, after);
}

/// A line with `Error:` or `Exception:` in it, indented or not, ends the traceback that is open,
/// unless it is the header or names a place.
pub proof fn law_colon_closes(line: Seq<char>)
    requires
        model::contains(line, "Error:"@) || model::contains(line, "Exception:"@),
        model::trim(line) != "Traceback (most recent call last):"@,
        !"File "@.is_prefix_of(model::trim(line)),
    ensures
        closes(line),
{
    reveal_strlit("Error:");
    reveal_strlit("Exception:");
    if model::contains(line, "Error:"@) {
        lemmas::lemma_contains_trim_end(line, "Error:"@);
    } else {
        lemmas::lemma_contains_trim_end(line, "Exception:"@);
    }
}

/// A line that begins at the margin and ends like the name of an exception, white space aside,
/// ends the traceback that is open, unless it names a place.
pub proof fn law_bare_exception_closes(name: Seq<char>, ending: Seq<char>, space: Seq<char>)
    requires
        ending == "Interrupt"@ || ending == "Exit"@ || ending == "Error"@ || ending
            == "Exception"@,
        forall|i: int| 0 <= i < space.len() ==> model::is_white_space(#[trigger] space[i]),
        name.len() > 0 ==> name.first() != ' ' && name.first() != '\t',
        !"File "@.is_prefix_of(model::trim(name + ending + space)),
    ensures
        closes(name + ending + space),
{
    let text = name + ending;
    let line = text + space;
    let none = Seq::<char>::empty();
    reveal_strlit("Interrupt");
    reveal_strlit("Exit");
    reveal_strlit("Error");
    reveal_strlit("Exception");
    reveal_strlit("File ");
    reveal_strlit("Traceback (most recent call last):");
    assert(text.last() == ending.last());
    if name.len() > 0 {
        assert(text.first() == name.first());
    } else {
        assert(text.first() == ending.first());
    }
    text_laws::law_trim_end(text, space);
    let (a, b) = lemmas::lemma_trim_window(line);
    let kept = line.subrange(a, b);
    lemmas::lemma_trim_ends(line);
    assert(line[text.len() - 1] == ending.last());
    assert(a <= text.len() - 1 < b);
    assert(kept.last() == line[b - 1]);
    assert(kept.last() == ending.last()) by {
        if b > text.len() {
            assert(line[b - 1] == space[b - 1 - text.len()]);
        }
    }
    assert("Traceback (most recent call last):"@.last() == ':');
    assert(text.subrange(text.len() - ending.len(), text.len() as int) == ending);
    assert(ending.is_suffix_of(text));
    if "File "@.is_prefix_of(text) {
        assert(text.subrange(0, 5)[0] == text[0]);
        assert("File "@[0] == 'F');
        text_laws::law_trim(none, text, space);
        assert(none + text + space == line);
    }
}

/// Nothing else ends a traceback.
pub proof fn law_only_errors_close(line: Seq<char>)
    requires
        closes(line),
    ensures
        model::trim(line) != "Traceback (most recent call last):"@,
        !"File "@.is_prefix_of(model::trim(line)),
        model::contains(line, "Error:"@) || model::contains(line, "Exception:"@) || {
            &&& line.first() != ' '
            &&& line.first() != '\t'
            &&& {
                ||| "Interrupt"@.is_suffix_of(model::trim_end(line))
                ||| "Exit"@.is_suffix_of(model::trim_end(line))
                ||| "Error"@.is_suffix_of(model::trim_end(line))
                ||| "Exception"@.is_suffix_of(model::trim_end(line))
            }
        },
{
    let kept = model::trim_end(line);
    lemmas::lemma_trim_end(line);
    lemma_terminal_is_not_empty(kept);
    assert(kept.first() == line.first());
    if model::contains(kept, "Error:"@) {
        lemmas::lemma_contains_in_prefix(kept, line, "Error:"@);
    }
    if model::contains(kept, "Exception:"@) {
        lemmas::lemma_contains_in_prefix(kept, line, "Exception:"@);
    }
}

/// An error that ends a traceback is shown behind the last place, when every line between is
/// indented and holds no error of its own.
pub proof fn law_error_after_indented_frames(
    before: Seq<Seq<char>>,
    header: Seq<char>,
    frames: Seq<Seq<char>>,
    closing: Seq<char>,
    after: Seq<Seq<char>>,
)
    requires
        forall|i: int|
            0 <= i < before.len() ==> model::trim(#[trigger] before[i])
                != "Traceback (most recent call last):"@,
        model::trim(header) == "Traceback (most recent call last):"@,
        forall|i: int|
            0 <= i < frames.len() ==> (#[trigger] frames[i]).len() > 0 && (frames[i].first() == ' '
                || frames[i].first() == '\t') && !model::contains(frames[i], "Error:"@)
                && !model::contains(frames[i], "Exception:"@),
        model::contains(closing, "Error:"@) || model::contains(closing, "Exception:"@),
        model::trim(closing) != "Traceback (most recent call last):"@,
        !"File "@.is_prefix_of(model::trim(closing)),
    ensures
        summary(before + (seq![header] + frames + seq![closing] + after)) == before
            + last_location(frames) + seq![model::trim(closing)] + summary(after),
{
    law_colon_closes(closing);
    assert forall|i: int| 0 <= i < frames.len() implies !closes(#[trigger] frames[i]) by {
        law_indented_code_is_skipped(frames[i]);
    }
    assert forall|i: int| 0 <= i < before.len() implies !is_header(#[trigger] before[i]) by {}
    law_closed_traceback(before, header, frames, closing, after);
}

/// Where the lines after the last header name no place, none is shown.
pub proof fn law_no_place_is_made_up(earlier: Seq<Seq<char>>, code: Seq<Seq<char>>)
    requires
        earlier.len() > 0 ==> model::trim(earlier.last()) == "Traceback (most recent call last):"@,
        forall|i: int|
            0 <= i < code.len() ==> !"File "@.is_prefix_of(model::trim(#[trigger] code[i])),
    ensures
        last_location(earlier + code) == Seq::<Seq<char>>::empty(),
    decreases code.len(),
{
    let lines = earlier + code;
    if code.len() == 0 {
        assert(lines == earlier);
    } else {
        let shorter = code.drop_last();
        assert(lines.last() == code[code.len() - 1]);
        assert(lines.drop_last() == earlier + shorter);
        assert forall|i: int| 0 <= i < shorter.len() implies !"File "@.is_prefix_of(
            model::trim(#[trigger] shorter[i]),
        ) by {
            assert(shorter[i] == code[i]);
        }
        law_no_place_is_made_up(earlier, shorter);
    }
}

/// A traceback ends no later than at any line that can end it.
proof fn lemma_block_end_at_most(lines: Seq<Seq<char>>, from: int, i: int)
    requires
        0 <= from <= i < lines.len(),
        closes(lines[i]),
    ensures
        from <= block_end(lines, from) <= i,
    decreases i - from,
{
    if !closes(lines[from]) {
        lemma_block_end_at_most(lines, from + 1, i);
    }
}

/// A line that can end a traceback is shown, as it is or trimmed.
proof fn lemma_closing_line_is_kept(lines: Seq<Seq<char>>, i: int) -> (k: int)
    requires
        0 <= i < lines.len(),
        closes(lines[i]),
    ensures
        0 <= k < summary(lines).len(),
        summary(lines)[k] == lines[i] || summary(lines)[k] == model::trim(lines[i]),
    decreases lines.len(),
{
    if !is_header(lines.first()) {
        if i == 0 {
            0
        } else {
            let rest = lines.drop_first();
            assert(rest[i - 1] == lines[i]);
            lemma_closing_line_is_kept(rest, i - 1) + 1
        }
    } else {
        lemma_block_end_at_most(lines, 1, i);
        let end = block_end(lines, 1);
        let place = last_location(lines.subrange(1, end));
        if i == end {
            place.len() as int
        } else {
            let rest = lines.skip(end + 1);
            assert(rest[i - end - 1] == lines[i]);
            lemma_closing_line_is_kept(rest, i - end - 1) + place.len() + 1
        }
    }
}

/// No error is lost: the text of every line with `Error:` or `Exception:` in it, wherever in the
/// output it stands, is part of what is shown, unless it names a place.
pub proof fn law_no_error_is_lost(raw: Seq<char>, i: int)
    requires
        0 <= i < model::lines(ansi::visible(raw)).len(),
        model::contains(model::lines(ansi::visible(raw))[i], "Error:"@) || model::contains(
            model::lines(ansi::visible(raw))[i],
            "Exception:"@,
        ),
        model::trim(model::lines(ansi::visible(raw))[i]) != "Traceback (most recent call last):"@,
        !"File "@.is_prefix_of(model::trim(model::lines(ansi::visible(raw))[i])),
    ensures
        model::contains(filtered(raw), model::trim(model::lines(ansi::visible(raw))[i])),
{
    law_colon_closes(model::lines(ansi::visible(raw))[i]);
    lemma_closing_text_is_shown(raw, i);
}

/// No bare exception is lost: the same holds of a line at the margin that ends like the name of
/// an exception, white space aside.
pub proof fn law_no_bare_exception_is_lost(
    raw: Seq<char>,
    i: int,
    name: Seq<char>,
    ending: Seq<char>,
    space: Seq<char>,
)
    requires
        0 <= i < model::lines(ansi::visible(raw)).len(),
        model::lines(ansi::visible(raw))[i] == name + ending + space,
        ending == "Interrupt"@ || ending == "Exit"@ || ending == "Error"@ || ending
            == "Exception"@,
        forall|k: int| 0 <= k < space.len() ==> model::is_white_space(#[trigger] space[k]),
        name.len() > 0 ==> name.first() != ' ' && name.first() != '\t',
        !"File "@.is_prefix_of(model::trim(name + ending + space)),
    ensures
        model::contains(filtered(raw), model::trim(name + ending + space)),
{
    law_bare_exception_closes(name, ending, space);
    lemma_closing_text_is_shown(raw, i);
}

/// The text of a line that can end a traceback is part of what is shown.
proof fn lemma_closing_text_is_shown(raw: Seq<char>, i: int)
    requires
        0 <= i < model::lines(ansi::visible(raw)).len(),
        closes(model::lines(ansi::visible(raw))[i]),
    ensures
        model::contains(filtered(raw), model::trim(model::lines(ansi::visible(raw))[i])),
{
    let lines = model::lines(ansi::visible(raw));
    let parts = summary(lines);
    let text = model::trim(lines[i]);
    let joined = model::join(parts, "\n"@);
    let k = lemma_closing_line_is_kept(lines, i);
    lemmas::lemma_contains_joined(parts, k);
    if parts[k] != text {
        lemmas::lemma_contains_trimmed(lines[i]);
        lemmas::lemma_contains_through(joined, lines[i], text);
    }
    lemmas::lemma_trim_ends(lines[i]);
    lemma_closing_is_not_blank(lines[i]);
    lemmas::lemma_contains_trim(joined, text);
}

/// Lines are outside of tracebacks where none of them is the header, and inside of one where
/// none of them can end it.
pub proof fn law_lines_outside_and_inside(lines: Seq<Seq<char>>)
    ensures
        has_no_header(lines) <==> forall|i: int|
            0 <= i < lines.len() ==> model::trim(#[trigger] lines[i])
                != "Traceback (most recent call last):"@,
        has_no_closing(lines) <==> forall|i: int|
            0 <= i < lines.len() ==> !closes(#[trigger] lines[i]),
{
    if has_no_header(lines) {
        assert forall|i: int| 0 <= i < lines.len() implies model::trim(#[trigger] lines[i])
            != "Traceback (most recent call last):"@ by {
            assert(!is_header(lines[i]));
        }
    } else {
        let i = choose|i: int| 0 <= i < lines.len() && is_header(#[trigger] lines[i]);
        assert(model::trim(lines[i]) == "Traceback (most recent call last):"@);
    }
}

} // verus!
