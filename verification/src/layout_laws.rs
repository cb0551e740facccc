//! Laws that say how output is put together, indented and wrapped.
use vstd::prelude::*;
use vstd::string::*;

use crate::formatter::{joined, labeled, plain, text_of, Output, OutputOp};
use crate::layout::{
    gap_end, indented, laid_out, lemma_gap_end, lemma_word_end, lemma_wrapping_places_all,
    word_end, wrapped, wrapping, Placement,
};
use crate::output_laws::{
    law_labels_keep_text, law_layout_keeps_labels, law_text_of_plain, law_text_of_sum,
    lemma_visible_gap, lemma_word_has_no_blank, lemma_wrapped_step, wrapped_from,
};
use crate::template::{error_output, has_text};

verus! {

/// Plain output writes the characters of the text, one step for each.
pub proof fn law_plain_writes_characters(text: Seq<char>)
    ensures
        plain(text).len() == text.len(),
        forall|i: int| 0 <= i < text.len() ==> #[trigger] plain(text)[i] == OutputOp::Char(text[i]),
{
}

/// The text of output is made up of the characters of its steps; labels are no text.
pub proof fn law_text_of_steps(before: Output, c: char, label: Seq<char>)
    ensures
        text_of(Output::empty()) == Seq::<char>::empty(),
        text_of(before.push(OutputOp::Char(c))) == text_of(before).push(c),
        text_of(before.push(OutputOp::PushLabel(label))) == text_of(before),
        text_of(before.push(OutputOp::PopLabel)) == text_of(before),
{
    assert(before.push(OutputOp::Char(c)).drop_last() =~= before);
    assert(before.push(OutputOp::PushLabel(label)).drop_last() =~= before);
    assert(before.push(OutputOp::PopLabel).drop_last() =~= before);
}

/// Output holds text exactly where it writes a character.
pub proof fn law_has_text(output: Output)
    ensures
        has_text(output) <==> exists|i: int| 0 <= i < output.len() && #[trigger] output[i] is Char,
    decreases output.len(),
{
    if output.len() > 0 {
        let before = output.drop_last();
        law_has_text(before);
        if exists|i: int| 0 <= i < before.len() && #[trigger] before[i] is Char {
            let i = choose|i: int| 0 <= i < before.len() && #[trigger] before[i] is Char;
            assert(output[i] == before[i]);
        }
        if exists|i: int| 0 <= i < output.len() && #[trigger] output[i] is Char {
            let i = choose|i: int| 0 <= i < output.len() && #[trigger] output[i] is Char;
            if i < before.len() {
                assert(before[i] == output[i]);
            }
        }
        assert(output[output.len() - 1] == output.last());
    }
}

/// Labels are opened in their order before the content, and as many are closed behind it.
pub proof fn law_labels_stand_round_content(labels: Seq<Seq<char>>, content: Output)
    ensures
        ({
            let all = labeled(labels, content);
            let n = labels.len() as int;
            &&& all.len() == n + content.len() + n
            &&& forall|i: int| 0 <= i < n ==> #[trigger] all[i] == OutputOp::PushLabel(labels[i])
            &&& all.subrange(n, n + content.len()) == content
            &&& forall|i: int|
                n + content.len() <= i < all.len() ==> #[trigger] all[i] == OutputOp::PopLabel
        }),
{
    let all = labeled(labels, content);
    let n = labels.len() as int;
    assert(all.subrange(n, n + content.len()) =~= content);
}

/// An error is told between `<Error: ` and `>`, inside the label `error`.
pub proof fn law_error_is_told(message: Seq<char>)
    ensures
        text_of(error_output(message)) == "<Error: "@ + message + ">"@,
        error_output(message).len() == ("<Error: "@ + message + ">"@).len() + 2,
        error_output(message)[0] == OutputOp::PushLabel("error"@),
        error_output(message).last() == OutputOp::PopLabel,
{
    let content = plain("<Error: "@ + message + ">"@);
    law_labels_stand_round_content(seq!["error"@], content);
    law_labels_keep_text(seq!["error"@], content);
    law_text_of_plain("<Error: "@ + message + ">"@);
}

/// Joining puts the separator between two items, and nowhere else.
pub proof fn law_joined(first: Seq<Output>, second: Seq<Output>, one: Output, separator: Output)
    ensures
        joined(Seq::empty(), separator) == Output::empty(),
        joined(seq![one], separator) == one,
        first.len() > 0 && second.len() > 0 ==> joined(first + second, separator) == joined(
            first,
            separator,
        ) + separator + joined(second, separator),
    decreases second.len(),
{
    if first.len() > 0 && second.len() > 0 {
        let all = first + second;
        let fewer = second.drop_last();
        assert(all.drop_last() =~= first + fewer);
        assert(all.last() == second.last());
        if second.len() == 1 {
            assert(first + fewer =~= first);
            assert(joined(second, separator) == second[0]);
        } else {
            law_joined(first, fewer, one, separator);
            assert(joined(all, separator) =~= joined(first, separator) + separator + joined(
                second,
                separator,
            ));
        }
    }
}

/// Indenting goes line by line: behind a line feed, or where there is no text yet, it starts
/// anew.
pub proof fn law_indent_starts_anew(before: Output, after: Output, prefix: Output)
    requires
        text_of(before).len() == 0 || text_of(before).last() == '\n',
    ensures
        indented(before + after, prefix) == indented(before, prefix) + indented(after, prefix),
    decreases after.len(),
{
    if after.len() == 0 {
        assert(before + after =~= before);
        assert(indented(before, prefix) + indented(after, prefix) =~= indented(before, prefix));
    } else {
        let rest = after.drop_last();
        law_indent_starts_anew(before, rest, prefix);
        law_text_of_sum(before, rest);
        assert((before + after).drop_last() =~= before + rest);
        if text_of(rest).len() > 0 {
            assert(text_of(before + rest).last() == text_of(rest).last());
        } else {
            assert(text_of(before + rest) =~= text_of(before));
        }
        assert(indented(before + after, prefix) =~= indented(before, prefix) + indented(
            after,
            prefix,
        ));
    }
}

/// What begins with a character of a line, and has no line feed but perhaps at its end, gets
/// the prefix in front of it. An empty line and a label get none.
pub proof fn law_indent_of_line(first: char, rest: Output, label: OutputOp, prefix: Output)
    requires
        first != '\n',
        forall|i: int| 0 <= i < rest.len() - 1 ==> #[trigger] rest[i] != OutputOp::Char('\n'),
        !(label is Char),
    ensures
        indented(Output::empty(), prefix) == Output::empty(),
        indented(seq![OutputOp::Char(first)] + rest, prefix) == prefix + seq![
            OutputOp::Char(first),
        ] + rest,
        indented(seq![OutputOp::Char('\n')], prefix) == seq![OutputOp::Char('\n')],
        indented(seq![label], prefix) == seq![label],
{
    lemma_indent_of_line(first, rest, prefix);
    let feed = seq![OutputOp::Char('\n')];
    assert(feed.drop_last() =~= Output::empty());
    assert(seq![label].drop_last() =~= Output::empty());
    assert(indented(Output::empty(), prefix) =~= Output::empty());
    assert(indented(feed, prefix) =~= feed) by {
        reveal_with_fuel(indented, 2);
    }
    assert(indented(seq![label], prefix) =~= seq![label]) by {
        reveal_with_fuel(indented, 2);
    }
}

proof fn lemma_indent_of_line(first: char, rest: Output, prefix: Output)
    requires
        first != '\n',
        forall|i: int| 0 <= i < rest.len() - 1 ==> #[trigger] rest[i] != OutputOp::Char('\n'),
    ensures
        indented(seq![OutputOp::Char(first)] + rest, prefix) == prefix + seq![
            OutputOp::Char(first),
        ] + rest,
    decreases rest.len(),
{
    let start = seq![OutputOp::Char(first)];
    if rest.len() == 0 {
        assert(start + rest =~= start);
        assert(start.drop_last() =~= Output::empty());
        reveal_with_fuel(indented, 2);
        reveal_with_fuel(text_of, 2);
        assert(indented(start, prefix) =~= prefix + start + rest);
    } else {
        let fewer = rest.drop_last();
        assert forall|i: int| 0 <= i < fewer.len() - 1 implies #[trigger] fewer[i]
            != OutputOp::Char('\n') by {
            assert(fewer[i] == rest[i]);
        }
        lemma_indent_of_line(first, fewer, prefix);
        assert((start + rest).drop_last() =~= start + fewer);
        lemma_unfinished_line(first, fewer);
        assert(indented(start + rest, prefix) =~= prefix + start + rest) by {
            assert forall|i: int| 0 <= i < fewer.len() implies #[trigger] fewer[i]
                != OutputOp::Char('\n') by {
                assert(fewer[i] == rest[i]);
            }
        }
    }
}

/// A line that has begun, and holds no line feed, is not at its start.
proof fn lemma_unfinished_line(first: char, rest: Output)
    ensures
        (first != '\n' && forall|i: int|
            0 <= i < rest.len() ==> #[trigger] rest[i] != OutputOp::Char('\n')) ==> text_of(
            seq![OutputOp::Char(first)] + rest,
        ).len() > 0 && text_of(seq![OutputOp::Char(first)] + rest).last() != '\n',
    decreases rest.len(),
{
    let start = seq![OutputOp::Char(first)];
    if rest.len() == 0 {
        assert(start + rest =~= start);
        assert(start.drop_last() =~= Output::empty());
        reveal_with_fuel(text_of, 2);
    } else {
        let fewer = rest.drop_last();
        lemma_unfinished_line(first, fewer);
        assert((start + rest).drop_last() =~= start + fewer);
        assert(rest[rest.len() - 1] == rest.last());
        assert forall|i: int| 0 <= i < fewer.len() implies #[trigger] fewer[i] == rest[i] by {}
        if first != '\n' && forall|i: int|
            0 <= i < rest.len() ==> #[trigger] rest[i] != OutputOp::Char('\n') {
            assert forall|i: int| 0 <= i < fewer.len() implies #[trigger] fewer[i]
                != OutputOp::Char('\n') by {
                assert(fewer[i] == rest[i]);
            }
        }
    }
}

/// The text that wrapping `text` at a width gives.
pub open spec fn wrapped_text(text: Seq<char>, width: int) -> Seq<char> {
    text_of(wrapped(plain(text), width))
}

/// The text of wrapped output depends on the text and on the width, not on labels.
pub proof fn law_wrapped_text(output: Output, width: int)
    ensures
        text_of(wrapped(output, width)) == wrapped_text(text_of(output), width),
{
    let text = text_of(output);
    lemma_wrapped_text(output, width);
    law_text_of_plain(text);
    lemma_wrapped_text(plain(text), width);
}

proof fn lemma_wrapped_text(output: Output, width: int)
    ensures
        text_of(wrapped(output, width)) == wrapped_from(text_of(output), 0, 0, width),
{
    let text = text_of(output);
    law_layout_keeps_labels(output, wrapping(text, 0, 0, width));
    assert(text.skip(0) =~= text);
}

/// Whether `line` can stand on a line of its own: it has no line feed and no space at its end,
/// and it fits the width or is a single word.
pub open spec fn fits_line(line: Seq<char>, width: int) -> bool {
    &&& !line.contains('\n')
    &&& line.len() > 0 ==> line.last() != ' '
    &&& line.len() <= width || !line.contains(' ')
}

/// Whether `gap` holds spaces and nothing else.
pub open spec fn is_gap(gap: Seq<char>) -> bool {
    forall|i: int| 0 <= i < gap.len() ==> #[trigger] gap[i] == ' '
}

/// A line that fits stays on one line. Spaces at its end are dropped. A line feed stays, and
/// wrapping starts anew behind it.
pub proof fn law_wrap_ends_line(line: Seq<char>, gap: Seq<char>, rest: Seq<char>, width: int)
    requires
        fits_line(line, width),
        is_gap(gap),
    ensures
        wrapped_text(line + gap, width) == line,
        wrapped_text(line + gap + seq!['\n'] + rest, width) == line + seq!['\n'] + wrapped_text(
            rest,
            width,
        ),
{
    let text = line + gap;
    let n = line.len() as int;
    assert(text.subrange(0, n) =~= line);
    lemma_line_is_kept(text, 0, 0, width, n, line);
    lemma_gap_reaches(text, n, text.len() as int);
    lemma_wrapped_text_of(text, width);
    assert(line + Seq::<char>::empty() =~= line);

    let more = line + gap + seq!['\n'] + rest;
    let at = (line + gap).len() as int;
    assert(more[at] == '\n');
    assert(more.subrange(0, n) =~= line);
    lemma_line_is_kept(more, 0, 0, width, n, line);
    lemma_gap_reaches(more, n, at);
    lemma_wrapped_text_of(more, width);
    lemma_wrapped_text_of(rest, width);
    lemma_wrapped_behind(line + gap + seq!['\n'], rest, 0, 0, width);
    assert(line + (seq!['\n'] + wrapped_from(rest, 0, 0, width)) =~= line + seq!['\n']
        + wrapped_from(rest, 0, 0, width));
}

/// A line is broken before a word exactly where the word would reach beyond the width. The
/// spaces there go, and the word begins the next line. A word that fits stays on the line.
pub proof fn law_wrap_breaks_line(
    line: Seq<char>,
    gap: Seq<char>,
    word: Seq<char>,
    rest: Seq<char>,
    width: int,
)
    requires
        fits_line(line, width),
        is_gap(gap),
        gap.len() > 0,
        word.len() > 0,
        !word.contains(' '),
        !word.contains('\n'),
        rest.len() > 0 ==> rest[0] == ' ' || rest[0] == '\n',
    ensures
        line.len() + gap.len() + word.len() > width ==> wrapped_text(
            line + gap + word + rest,
            width,
        ) == line + seq!['\n'] + wrapped_text(word + rest, width),
        line.len() + gap.len() + word.len() <= width ==> fits_line(line + gap + word, width),
{
    let text = line + gap + word + rest;
    let n = line.len() as int;
    let next = (line + gap).len() as int;
    let end = (line + gap + word).len() as int;
    lemma_not_contained(word, ' ');
    lemma_not_contained(word, '\n');
    lemma_not_contained(line, '\n');
    assert(text[next] == word[0]);
    lemma_gap_reaches(text, n, next);
    lemma_blank_ends_word(text, next, end);
    if line.len() + gap.len() + word.len() > width {
        assert(text.subrange(0, n) =~= line);
        lemma_line_is_kept(text, 0, 0, width, n, line);
        lemma_wrapped_text_of(text, width);
        lemma_wrapped_text_of(word + rest, width);
        lemma_wrapped_behind(line + gap, word + rest, 0, 0, width);
        assert(line + gap + (word + rest) =~= text);
        assert(line + (seq!['\n'] + wrapped_from(word + rest, 0, 0, width)) =~= line + seq!['\n']
            + wrapped_from(word + rest, 0, 0, width));
    } else {
        let longer = line + gap + word;
        assert forall|i: int| 0 <= i < longer.len() implies longer[i] != '\n' by {
            if i < n {
                assert(longer[i] == line[i]);
            } else if i < next {
                assert(longer[i] == gap[i - n]);
            } else {
                assert(longer[i] == word[i - next]);
            }
        }
    }
}

proof fn lemma_not_contained(text: Seq<char>, c: char)
    requires
        !text.contains(c),
    ensures
        forall|i: int| 0 <= i < text.len() ==> #[trigger] text[i] != c,
{
    assert forall|i: int| 0 <= i < text.len() implies #[trigger] text[i] != c by {
        assert(text.contains(text[i]));
    }
}

proof fn lemma_wrapped_text_of(text: Seq<char>, width: int)
    ensures
        wrapped_text(text, width) == wrapped_from(text, 0, 0, width),
{
    law_text_of_plain(text);
    lemma_wrapped_text(plain(text), width);
}

proof fn lemma_gap_reaches(text: Seq<char>, from: int, end: int)
    requires
        0 <= from <= end <= text.len(),
        forall|i: int| from <= i < end ==> #[trigger] text[i] == ' ',
        end < text.len() ==> text[end] != ' ',
    ensures
        gap_end(text, from) == end,
    decreases end - from,
{
    if from < end {
        assert(text[from] == ' ');
        lemma_gap_reaches(text, from + 1, end);
    }
}

proof fn lemma_blank_ends_word(text: Seq<char>, from: int, end: int)
    requires
        0 <= from <= end <= text.len(),
        forall|i: int| from <= i < end ==> #[trigger] text[i] != ' ' && text[i] != '\n',
        end < text.len() ==> text[end] == ' ' || text[end] == '\n',
    ensures
        word_end(text, from) == end,
    decreases end - from,
{
    if from < end {
        assert(text[from] != ' ');
        lemma_blank_ends_word(text, from + 1, end);
    }
}

/// What wrapping makes of what comes behind a line that fits.
spec fn behind_line(text: Seq<char>, at: int, used: int, width: int) -> Seq<char> {
    let next = gap_end(text, at);
    if next == text.len() {
        Seq::empty()
    } else if text[next] == '\n' {
        seq!['\n'] + wrapped_from(text, next + 1, 0, width)
    } else if used + (next - at) + (word_end(text, next) - next) > width {
        seq!['\n'] + wrapped_from(text, next, 0, width)
    } else {
        text.subrange(at, next) + wrapped_from(text, next, used + (next - at), width)
    }
}

/// A word that begins a line, or fits it, is kept.
proof fn lemma_word_is_kept(text: Seq<char>, from: int, used: int, width: int)
    requires
        0 <= from <= text.len(),
    ensures
        ({
            let end = word_end(text, from);
            wrapped_from(text, from, used, width) == text.subrange(from, end) + behind_line(
                text,
                end,
                used + (end - from),
                width,
            )
        }),
{
    lemma_wrapped_step(text, from, used, width);
    let end = word_end(text, from);
    let next = gap_end(text, end);
    let word = text.subrange(from, end);
    let behind = behind_line(text, end, used + (end - from), width);
    if next == text.len() {
        assert(word + behind =~= word);
    } else if text[next] == '\n' {
        let others = wrapped_from(text, next + 1, 0, width);
        assert(word + seq!['\n'] + others =~= word + (seq!['\n'] + others));
    } else if used + (next - from) + (word_end(text, next) - next) > width {
        let others = wrapped_from(text, next, 0, width);
        assert(word + seq!['\n'] + others =~= word + (seq!['\n'] + others));
    } else {
        let others = wrapped_from(text, next, used + (next - from), width);
        assert(used + (end - from) + (next - end) == used + (next - from));
        assert(text.subrange(from, next) + others =~= word + (text.subrange(end, next) + others));
    }
}

/// The line `text[from..at]` is kept.
#[verifier::rlimit(40)]
proof fn lemma_line_is_kept(
    text: Seq<char>,
    from: int,
    used: int,
    width: int,
    at: int,
    line: Seq<char>,
)
    requires
        0 <= from <= at <= text.len(),
        line == text.subrange(from, at),
        !line.contains('\n'),
        line.len() > 0 ==> line.last() != ' ',
        used + line.len() <= width || !line.contains(' '),
        at < text.len() ==> text[at] == ' ' || text[at] == '\n',
    ensures
        wrapped_from(text, from, used, width) == text.subrange(from, at) + behind_line(
            text,
            at,
            used + (at - from),
            width,
        ),
    decreases at - from,
{
    lemma_word_has_no_blank(text, from);
    lemma_not_contained(line, '\n');
    lemma_word_end(text, from);
    let end = word_end(text, from);
    if at < end {
        assert(text[at] != ' ' && text[at] != '\n');
    }
    if end == at {
        lemma_word_is_kept(text, from, used, width);
    } else {
        lemma_visible_gap(text, end);
        lemma_gap_end(text, end);
        let next = gap_end(text, end);
        assert(line[end - from] == text[end]);
        assert(text[end] == ' ');
        assert(line.contains(' '));
        assert(line.last() == text[at - 1]);
        if next >= at {
            assert(text[at - 1] == ' ');
        }
        assert(line[next - from] == text[next]);
        lemma_word_end(text, next);
        lemma_word_has_no_blank(text, next);
        if word_end(text, next) > at {
            assert(text[at] != ' ' && text[at] != '\n');
        }
        lemma_wrapped_step(text, from, used, width);
        let others = wrapped_from(text, next, used + (next - from), width);
        assert(wrapped_from(text, from, used, width) == text.subrange(from, next) + others);
        lemma_rest_of_line(text, from, next, at, line);
        lemma_line_is_kept(
            text,
            next,
            used + (next - from),
            width,
            at,
            text.subrange(next, at),
        );
        let behind = behind_line(text, at, used + (at - from), width);
        assert(used + (next - from) + (at - next) == used + (at - from));
        assert(text.subrange(from, next) + (text.subrange(next, at) + behind) =~= text.subrange(
            from,
            at,
        ) + behind);
    }
}

/// What remains of a line is a line.
proof fn lemma_rest_of_line(text: Seq<char>, from: int, next: int, at: int, line: Seq<char>)
    requires
        0 <= from <= next < at <= text.len(),
        line == text.subrange(from, at),
        !line.contains('\n'),
        line.last() != ' ',
    ensures
        !text.subrange(next, at).contains('\n'),
        text.subrange(next, at).last() != ' ',
{
    lemma_not_contained(line, '\n');
    let rest = text.subrange(next, at);
    assert forall|i: int| 0 <= i < rest.len() implies rest[i] != '\n' by {
        assert(rest[i] == line[next - from + i]);
    }
    assert(rest.last() == line.last());
}

/// What comes before does not matter once wrapping has started anew.
proof fn lemma_wrapped_behind(
    before: Seq<char>,
    text: Seq<char>,
    from: int,
    used: int,
    width: int,
)
    requires
        0 <= from <= text.len(),
    ensures
        wrapped_from(before + text, before.len() + from, used, width) == wrapped_from(
            text,
            from,
            used,
            width,
        ),
    decreases text.len() - from,
{
    let all = before + text;
    let n = before.len() as int;
    lemma_wrapped_step(all, n + from, used, width);
    lemma_wrapped_step(text, from, used, width);
    lemma_ends_behind(before, text, from);
    let end = word_end(text, from);
    lemma_word_end(text, from);
    lemma_gap_end(text, end);
    lemma_ends_behind(before, text, end);
    let next = gap_end(text, end);
    assert(all.subrange(n + from, n + end) =~= text.subrange(from, end));
    assert(all.subrange(n + from, n + next) =~= text.subrange(from, next));
    if next < text.len() {
        assert(all[n + next] == text[next]);
        lemma_ends_behind(before, text, next);
        if text[next] == '\n' {
            lemma_wrapped_behind(before, text, next + 1, 0, width);
        } else if used + (next - from) + (word_end(text, next) - next) > width {
            lemma_wrapped_behind(before, text, next, 0, width);
        } else {
            lemma_wrapped_behind(before, text, next, used + (next - from), width);
        }
    }
}

proof fn lemma_ends_behind(before: Seq<char>, text: Seq<char>, from: int)
    requires
        0 <= from <= text.len(),
    ensures
        word_end(before + text, before.len() + from) == before.len() + word_end(text, from),
        gap_end(before + text, before.len() + from) == before.len() + gap_end(text, from),
    decreases text.len() - from,
{
    if from < text.len() {
        assert((before + text)[before.len() + from] == text[from]);
        lemma_ends_behind(before, text, from + 1);
    }
}

/// The steps of `output` that are no space and no line feed: labels and all other characters.
pub open spec fn marks_of(output: Output) -> Output
    decreases output.len(),
{
    if output.len() == 0 {
        Output::empty()
    } else if output.last() == OutputOp::Char(' ') || output.last() == OutputOp::Char('\n') {
        marks_of(output.drop_last())
    } else {
        marks_of(output.drop_last()).push(output.last())
    }
}

/// Wrapping leaves labels and words in their order: each character that is no blank stays
/// inside the labels that it was in.
pub proof fn law_wrap_keeps_marks(output: Output, width: int)
    ensures
        marks_of(wrapped(output, width)) == marks_of(output),
{
    let text = text_of(output);
    lemma_marks_are_kept(text, 0, 0, width);
    let placements = wrapping(text, 0, 0, width);
    assert forall|i: int| 0 <= i < text.len() && text[i] != ' ' && text[i] != '\n' implies
        #[trigger] placements[i] == Placement::Keep by {
        assert(wrapping(text, 0, 0, width)[i - 0] == Placement::Keep);
    }
    lemma_laid_out_marks(output, placements);
}

proof fn lemma_laid_out_marks(output: Output, placements: Seq<Placement>)
    requires
        forall|i: int|
            0 <= i < text_of(output).len() && text_of(output)[i] != ' ' && text_of(output)[i]
                != '\n' ==> #[trigger] placements[i] == Placement::Keep,
    ensures
        marks_of(laid_out(output, placements)) == marks_of(output),
    decreases output.len(),
{
    if output.len() > 0 {
        let before = output.drop_last();
        let done = laid_out(before, placements);
        law_text_of_sum(before, seq![output.last()]);
        assert(before + seq![output.last()] =~= output);
        lemma_laid_out_marks(before, placements);
        assert(done.push(output.last()).drop_last() =~= done);
        assert(done.push(OutputOp::Char('\n')).drop_last() =~= done);
        match output.last() {
            OutputOp::Char(c) => {
                let at = text_of(before).len() as int;
                assert(text_of(output) =~= text_of(before).push(c));
                assert(text_of(output)[at] == c);
                if c != ' ' && c != '\n' {
                    assert(placements[at] == Placement::Keep);
                }
            },
            _ => {},
        }
    }
}

proof fn lemma_marks_are_kept(text: Seq<char>, from: int, used: int, width: int)
    requires
        0 <= from <= text.len(),
    ensures
        forall|i: int|
            from <= i < text.len() && text[i] != ' ' && text[i] != '\n' ==> #[trigger] wrapping(
                text,
                from,
                used,
                width,
            )[i - from] == Placement::Keep,
    decreases text.len() - from,
{
    lemma_word_end(text, from);
    let end = word_end(text, from);
    lemma_visible_gap(text, end);
    lemma_gap_end(text, end);
    let next = gap_end(text, end);
    if next < text.len() {
        if text[next] == '\n' {
            lemma_marks_are_kept(text, next + 1, 0, width);
            lemma_wrapping_places_all(text, next + 1, 0, width);
        } else {
            lemma_marks_are_kept(text, next, 0, width);
            lemma_wrapping_places_all(text, next, 0, width);
            lemma_marks_are_kept(text, next, used + (next - from), width);
            lemma_wrapping_places_all(text, next, used + (next - from), width);
        }
    }
    let all = wrapping(text, from, used, width);
    lemma_wrapping_places_all(text, from, used, width);
    assert forall|i: int| from <= i < text.len() && text[i] != ' ' && text[i] != '\n' implies
        #[trigger] all[i - from] == Placement::Keep by {
        if i >= next {
            if text[next] == '\n' {
                let others = wrapping(text, next + 1, 0, width);
                assert(all[i - from] == others[i - (next + 1)]);
            } else if used + (next - from) + (word_end(text, next) - next) > width {
                let others = wrapping(text, next, 0, width);
                assert(all[i - from] == others[i - next]);
            } else {
                let others = wrapping(text, next, used + (next - from), width);
                assert(all[i - from] == others[i - next]);
            }
        }
    }
}

}
