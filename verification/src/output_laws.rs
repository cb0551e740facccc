//! Laws of labeled output: what labeling, joining, indenting and wrapping keep.
use vstd::prelude::*;
use vstd::string::*;

use crate::formatter::{closed, joined, labeled, opened, plain, text_of, Output, OutputOp};
use crate::layout::{
    gap_end, indented, laid_out, lemma_gap_end, lemma_word_end, lemma_wrapping_places_all, placed,
    word_end, wrapped, wrapping, Placement,
};
use crate::template::lemma_joined_step;

verus! {

/// The text of two outputs is the text of both.
pub proof fn law_text_of_sum(a: Output, b: Output)
    ensures
        text_of(a + b) == text_of(a) + text_of(b),
    decreases b.len(),
{
    if b.len() == 0 {
        assert(a + b =~= a);
        assert(text_of(a) + text_of(b) =~= text_of(a));
    } else {
        assert((a + b).drop_last() =~= a + b.drop_last());
        law_text_of_sum(a, b.drop_last());
        assert(text_of(a + b) =~= text_of(a) + text_of(b));
    }
}

/// Plain output has the text that it was made of.
pub proof fn law_text_of_plain(text: Seq<char>)
    ensures
        text_of(plain(text)) == text,
    decreases text.len(),
{
    if text.len() > 0 {
        assert(plain(text).drop_last() =~= plain(text.drop_last()));
        assert(plain(text).last() == OutputOp::Char(text.last()));
        law_text_of_plain(text.drop_last());
        assert(text_of(plain(text)) =~= text);
    } else {
        assert(plain(text) =~= Output::empty());
        assert(text =~= Seq::empty());
    }
}

proof fn lemma_no_text(output: Output)
    requires
        forall|i: int| 0 <= i < output.len() ==> !(#[trigger] output[i] is Char),
    ensures
        text_of(output) == Seq::<char>::empty(),
    decreases output.len(),
{
    if output.len() > 0 {
        assert(!(output[output.len() - 1] is Char));
        assert forall|i: int| 0 <= i < output.drop_last().len() implies !(
        #[trigger] output.drop_last()[i] is Char) by {
            assert(output.drop_last()[i] == output[i]);
        }
        lemma_no_text(output.drop_last());
    }
}

/// Labels do not change the text.
pub proof fn law_labels_keep_text(labels: Seq<Seq<char>>, content: Output)
    ensures
        text_of(labeled(labels, content)) == text_of(content),
{
    lemma_no_text(opened(labels));
    lemma_no_text(closed(labels.len()));
    law_text_of_sum(opened(labels), content);
    law_text_of_sum(opened(labels) + content, closed(labels.len()));
    assert(text_of(labeled(labels, content)) =~= text_of(content));
}

/// Without a separator, joining two lists is joining the one and then the other.
pub proof fn law_joined_sum(a: Seq<Output>, b: Seq<Output>)
    ensures
        joined(a + b, Output::empty()) == joined(a, Output::empty()) + joined(
            b,
            Output::empty(),
        ),
    decreases b.len(),
{
    let none = Output::empty();
    if b.len() == 0 {
        assert(a + b =~= a);
        assert(joined(a, none) + joined(b, none) =~= joined(a, none));
    } else {
        let all = a + b;
        law_joined_sum(a, b.drop_last());
        lemma_joined_step(all, none, all.len() - 1);
        lemma_joined_step(b, none, b.len() - 1);
        assert(all.take(all.len() as int) =~= all);
        assert(b.take(b.len() as int) =~= b);
        assert(all.take(all.len() - 1) =~= a + b.drop_last());
        assert(b.take(b.len() - 1) =~= b.drop_last());
        assert(joined(all, none) =~= joined(a, none) + joined(b, none));
    }
}

/// Indenting with nothing changes nothing.
pub proof fn law_indent_with_nothing(output: Output)
    ensures
        indented(output, Output::empty()) == output,
    decreases output.len(),
{
    if output.len() > 0 {
        law_indent_with_nothing(output.drop_last());
        assert(indented(output, Output::empty()) =~= output);
    } else {
        assert(output =~= Output::empty());
    }
}

/// `text` with `prefix` in front of each of its lines that is not empty.
pub open spec fn indented_text(text: Seq<char>, prefix: Seq<char>) -> Seq<char>
    decreases text.len(),
{
    if text.len() == 0 {
        Seq::empty()
    } else {
        let before = text.drop_last();
        let starts_line = before.len() == 0 || before.last() == '\n';
        if starts_line && text.last() != '\n' {
            (indented_text(before, prefix) + prefix).push(text.last())
        } else {
            indented_text(before, prefix).push(text.last())
        }
    }
}

/// The text that indented output holds depends on the text and on that of the prefix, not
/// on labels.
pub proof fn law_indented_text(output: Output, prefix: Output)
    ensures
        text_of(indented(output, prefix)) == indented_text(text_of(output), text_of(prefix)),
    decreases output.len(),
{
    if output.len() > 0 {
        let before = output.drop_last();
        law_indented_text(before, prefix);
        law_text_of_sum(indented(before, prefix), prefix);
        match output.last() {
            OutputOp::Char(c) => {
                assert(text_of(output).drop_last() =~= text_of(before));
                let unfinished = indented(before, prefix) + prefix;
                assert(unfinished.push(output.last()).drop_last() =~= unfinished);
                assert(indented(before, prefix).push(output.last()).drop_last() =~= indented(
                    before,
                    prefix,
                ));
            },
            _ => {
                assert(indented(before, prefix).push(output.last()).drop_last() =~= indented(
                    before,
                    prefix,
                ));
            },
        }
    }
}

/// The label steps of `output`, without its text.
pub open spec fn labels_of(output: Output) -> Output
    decreases output.len(),
{
    if output.len() == 0 {
        Output::empty()
    } else {
        match output.last() {
            OutputOp::Char(_) => labels_of(output.drop_last()),
            _ => labels_of(output.drop_last()).push(output.last()),
        }
    }
}

/// The text with its characters placed as `placements` says.
pub open spec fn placed_text(text: Seq<char>, placements: Seq<Placement>) -> Seq<char>
    decreases text.len(),
{
    if text.len() == 0 {
        Seq::empty()
    } else {
        let before = placed_text(text.drop_last(), placements);
        match placements[text.len() - 1] {
            Placement::Keep => before.push(text.last()),
            Placement::Break => before.push('\n'),
            Placement::Drop => before,
        }
    }
}

/// Laying out text again leaves the labels as they are, and places the text by itself.
pub proof fn law_layout_keeps_labels(output: Output, placements: Seq<Placement>)
    ensures
        labels_of(laid_out(output, placements)) == labels_of(output),
        text_of(laid_out(output, placements)) == placed_text(text_of(output), placements),
    decreases output.len(),
{
    if output.len() > 0 {
        let before = output.drop_last();
        law_layout_keeps_labels(before, placements);
        let placed = laid_out(before, placements);
        assert(placed.push(output.last()).drop_last() =~= placed);
        assert(placed.push(OutputOp::Char('\n')).drop_last() =~= placed);
        match output.last() {
            OutputOp::Char(c) => {
                assert(text_of(output).drop_last() =~= text_of(before));
            },
            _ => {},
        }
    }
}

/// Placing two texts one behind the other.
proof fn lemma_placed_sum(a: Seq<char>, b: Seq<char>, p: Seq<Placement>, q: Seq<Placement>)
    requires
        p.len() == a.len(),
        q.len() == b.len(),
    ensures
        placed_text(a + b, p + q) == placed_text(a, p) + placed_text(b, q),
    decreases b.len(),
{
    if b.len() == 0 {
        assert(a + b =~= a);
        lemma_placed_same(a, p + q, p);
        assert(placed_text(a, p) + placed_text(b, q) =~= placed_text(a, p));
    } else {
        let (shorter, less) = (b.drop_last(), q.drop_last());
        assert((a + b).drop_last() =~= a + shorter);
        lemma_placed_sum(a, shorter, p, less);
        lemma_placed_same(a + shorter, p + q, p + less);
        lemma_placed_same(shorter, q, less);
        assert(placed_text(a + b, p + q) =~= placed_text(a, p) + placed_text(b, q));
    }
}

proof fn lemma_placed_same(a: Seq<char>, p: Seq<Placement>, q: Seq<Placement>)
    requires
        forall|i: int| 0 <= i < a.len() ==> p[i] == q[i],
    ensures
        placed_text(a, p) == placed_text(a, q),
    decreases a.len(),
{
    if a.len() > 0 {
        lemma_placed_same(a.drop_last(), p, q);
    }
}

proof fn lemma_placed_keep(text: Seq<char>)
    ensures
        placed_text(text, placed(Placement::Keep, text.len() as int)) == text,
    decreases text.len(),
{
    if text.len() > 0 {
        let shorter = text.drop_last();
        lemma_placed_keep(shorter);
        lemma_placed_same(
            shorter,
            placed(Placement::Keep, text.len() as int),
            placed(Placement::Keep, shorter.len() as int),
        );
        assert(placed_text(text, placed(Placement::Keep, text.len() as int)) =~= text);
    } else {
        assert(text =~= Seq::empty());
    }
}

proof fn lemma_placed_drop(text: Seq<char>)
    ensures
        placed_text(text, placed(Placement::Drop, text.len() as int)) == Seq::<char>::empty(),
    decreases text.len(),
{
    if text.len() > 0 {
        let shorter = text.drop_last();
        lemma_placed_drop(shorter);
        lemma_placed_same(
            shorter,
            placed(Placement::Drop, text.len() as int),
            placed(Placement::Drop, shorter.len() as int),
        );
    }
}

/// A line break in place of the blanks of `text`.
proof fn lemma_placed_break(text: Seq<char>)
    requires
        text.len() > 0,
    ensures
        placed_text(
            text,
            placed(Placement::Break, 1) + placed(Placement::Drop, text.len() - 1),
        ) == seq!['\n'],
{
    let (first, rest) = (text.take(1), text.skip(1));
    assert(first + rest =~= text);
    lemma_placed_drop(rest);
    lemma_placed_sum(
        first,
        rest,
        placed(Placement::Break, 1),
        placed(Placement::Drop, text.len() - 1),
    );
    assert(first.drop_last() =~= Seq::empty());
    reveal_with_fuel(placed_text, 2);
    assert(placed_text(first, placed(Placement::Break, 1)) =~= seq!['\n']);
}

/// What wrapping makes of `text[from..]`.
pub open spec fn wrapped_from(text: Seq<char>, from: int, used: int, width: int) -> Seq<char> {
    placed_text(text.skip(from), wrapping(text, from, used, width))
}

/// Wrapping goes word by word.
pub proof fn lemma_wrapped_step(text: Seq<char>, from: int, used: int, width: int)
    requires
        0 <= from <= text.len(),
    ensures
        ({
            let end = word_end(text, from);
            let next = gap_end(text, end);
            let word = text.subrange(from, end);
            &&& from <= end <= next <= text.len()
            &&& next < text.len() && text[next] != '\n' ==> end < next
            &&& wrapped_from(text, from, used, width) == if next == text.len() {
                word
            } else if text[next] == '\n' {
                word + seq!['\n'] + wrapped_from(text, next + 1, 0, width)
            } else if used + (next - from) + (word_end(text, next) - next) > width {
                word + seq!['\n'] + wrapped_from(text, next, 0, width)
            } else {
                text.subrange(from, next) + wrapped_from(
                    text,
                    next,
                    used + (next - from),
                    width,
                )
            }
        }),
{
    lemma_word_end(text, from);
    let end = word_end(text, from);
    lemma_gap_end(text, end);
    let next = gap_end(text, end);
    let word = text.subrange(from, end);
    let keep = placed(Placement::Keep, end - from);
    lemma_placed_keep(word);
    if next == text.len() {
        let gap = text.subrange(end, next);
        lemma_placed_drop(gap);
        lemma_placed_sum(word, gap, keep, placed(Placement::Drop, next - end));
        assert(text.skip(from) =~= word + gap);
        assert(wrapped_from(text, from, used, width) =~= word);
    } else if text[next] == '\n' {
        let gap = text.subrange(end, next + 1);
        let rest = text.skip(next + 1);
        let breaks = placed(Placement::Break, 1) + placed(Placement::Drop, next - end);
        let others = wrapping(text, next + 1, 0, width);
        lemma_wrapping_places_all(text, next + 1, 0, width);
        lemma_placed_break(gap);
        lemma_placed_sum(word, gap, keep, breaks);
        lemma_placed_sum(word + gap, rest, keep + breaks, others);
        assert(text.skip(from) =~= word + gap + rest);
        assert(wrapping(text, from, used, width) =~= keep + breaks + others);
    } else if used + (next - from) + (word_end(text, next) - next) > width {
        let gap = text.subrange(end, next);
        let rest = text.skip(next);
        let breaks = placed(Placement::Break, 1) + placed(Placement::Drop, next - end - 1);
        let others = wrapping(text, next, 0, width);
        lemma_wrapping_places_all(text, next, 0, width);
        lemma_placed_break(gap);
        lemma_placed_sum(word, gap, keep, breaks);
        lemma_placed_sum(word + gap, rest, keep + breaks, others);
        assert(text.skip(from) =~= word + gap + rest);
        assert(wrapping(text, from, used, width) =~= keep + breaks + others);
    } else {
        let part = text.subrange(from, next);
        let rest = text.skip(next);
        let others = wrapping(text, next, used + (next - from), width);
        lemma_wrapping_places_all(text, next, used + (next - from), width);
        lemma_placed_keep(part);
        lemma_placed_sum(part, rest, placed(Placement::Keep, next - from), others);
        assert(text.skip(from) =~= part + rest);
    }
}

/// The characters of `text` that are neither spaces nor line feeds.
pub open spec fn visible(text: Seq<char>) -> Seq<char>
    decreases text.len(),
{
    if text.len() == 0 {
        Seq::empty()
    } else if text.last() == ' ' || text.last() == '\n' {
        visible(text.drop_last())
    } else {
        visible(text.drop_last()).push(text.last())
    }
}

proof fn lemma_visible_sum(a: Seq<char>, b: Seq<char>)
    ensures
        visible(a + b) == visible(a) + visible(b),
    decreases b.len(),
{
    if b.len() == 0 {
        assert(a + b =~= a);
        assert(visible(a) + visible(b) =~= visible(a));
    } else {
        assert((a + b).drop_last() =~= a + b.drop_last());
        lemma_visible_sum(a, b.drop_last());
        assert(visible(a + b) =~= visible(a) + visible(b));
    }
}

pub proof fn lemma_visible_gap(text: Seq<char>, from: int)
    requires
        0 <= from <= text.len(),
    ensures
        from <= gap_end(text, from) <= text.len(),
        forall|i: int| from <= i < gap_end(text, from) ==> text[i] == ' ',
        visible(text.subrange(from, gap_end(text, from))) == Seq::<char>::empty(),
    decreases text.len() - from,
{
    let end = gap_end(text, from);
    if from < text.len() && text[from] == ' ' {
        lemma_visible_gap(text, from + 1);
        let part = text.subrange(from, end);
        assert(part =~= seq![' '] + text.subrange(from + 1, end));
        lemma_visible_sum(seq![' '], text.subrange(from + 1, end));
        assert(seq![' '].drop_last() =~= Seq::empty());
        reveal_with_fuel(visible, 2);
        assert(visible(part) =~= Seq::empty());
    } else {
        assert(text.subrange(from, end) =~= Seq::empty());
    }
}

proof fn lemma_wrapping_keeps_visible(text: Seq<char>, from: int, used: int, width: int)
    requires
        0 <= from <= text.len(),
    ensures
        visible(wrapped_from(text, from, used, width)) == visible(text.skip(from)),
    decreases text.len() - from,
{
    lemma_wrapped_step(text, from, used, width);
    let end = word_end(text, from);
    let next = gap_end(text, end);
    let word = text.subrange(from, end);
    let gap = text.subrange(end, next);
    lemma_word_end(text, from);
    lemma_visible_gap(text, end);
    lemma_visible_sum(word, gap);
    let feed = seq!['\n'];
    assert(feed.drop_last() =~= Seq::empty());
    assert(visible(feed) =~= Seq::empty()) by {
        reveal_with_fuel(visible, 2);
    }
    lemma_visible_sum(word, feed);
    if next == text.len() {
        assert(text.skip(from) =~= word + gap);
        assert(visible(word) + visible(gap) =~= visible(word));
    } else if text[next] == '\n' {
        let rest = text.skip(next + 1);
        lemma_wrapping_keeps_visible(text, next + 1, 0, width);
        assert(text.skip(from) =~= word + gap + feed + rest);
        lemma_visible_sum(word + gap, feed);
        lemma_visible_sum(word + gap + feed, rest);
        lemma_visible_sum(word + feed, wrapped_from(text, next + 1, 0, width));
        assert(visible(word) + visible(gap) + visible(feed) =~= visible(word));
        assert(visible(word) + visible(feed) =~= visible(word));
    } else {
        let rest = text.skip(next);
        assert(text.skip(from) =~= word + gap + rest);
        lemma_visible_sum(word + gap, rest);
        assert(visible(word) + visible(gap) =~= visible(word));
        if used + (next - from) + (word_end(text, next) - next) > width {
            lemma_wrapping_keeps_visible(text, next, 0, width);
            lemma_visible_sum(word + feed, wrapped_from(text, next, 0, width));
            assert(visible(word) + visible(feed) =~= visible(word));
        } else {
            lemma_wrapping_keeps_visible(text, next, used + (next - from), width);
            assert(text.subrange(from, next) =~= word + gap);
            lemma_visible_sum(
                word + gap,
                wrapped_from(text, next, used + (next - from), width),
            );
        }
    }
}

/// Wrapping changes spaces and line feeds only: all other characters stay, in their order,
/// and so do the labels.
pub proof fn law_fill_keeps_words_and_labels(output: Output, width: int)
    ensures
        visible(text_of(wrapped(output, width))) == visible(text_of(output)),
        labels_of(wrapped(output, width)) == labels_of(output),
{
    let text = text_of(output);
    law_layout_keeps_labels(output, wrapping(text, 0, 0, width));
    lemma_wrapping_keeps_visible(text, 0, 0, width);
    assert(text.skip(0) =~= text);
}

proof fn lemma_wrapping_fits(text: Seq<char>, from: int, used: int, width: int)
    requires
        0 <= from <= text.len(),
        forall|i: int| 0 <= i < text.len() ==> text[i] != '\n',
        text.len() > 0 ==> text.last() != ' ',
        used + (text.len() - from) <= width,
    ensures
        forall|i: int|
            0 <= i < text.len() - from ==> wrapping(text, from, used, width)[i]
                == Placement::Keep,
    decreases text.len() - from,
{
    lemma_word_end(text, from);
    let end = word_end(text, from);
    lemma_visible_gap(text, end);
    lemma_gap_end(text, end);
    let next = gap_end(text, end);
    lemma_word_end(text, next);
    if next < text.len() {
        lemma_wrapping_fits(text, next, used + (next - from), width);
        lemma_wrapping_places_all(text, next, used + (next - from), width);
        let first = placed(Placement::Keep, next - from);
        let others = wrapping(text, next, used + (next - from), width);
        assert forall|i: int| 0 <= i < text.len() - from implies (first + others)[i]
            == Placement::Keep by {
            if i >= next - from {
                assert((first + others)[i] == others[i - (next - from)]);
            }
        }
    } else if end < next {
        assert(text[text.len() - 1] == ' ');
    }
}

proof fn lemma_all_kept(output: Output, placements: Seq<Placement>)
    requires
        forall|i: int| 0 <= i < text_of(output).len() ==> placements[i] == Placement::Keep,
    ensures
        laid_out(output, placements) == output,
    decreases output.len(),
{
    if output.len() > 0 {
        let before = output.drop_last();
        law_text_of_sum(before, seq![output.last()]);
        assert(before + seq![output.last()] =~= output);
        lemma_all_kept(before, placements);
        assert(laid_out(output, placements) =~= output);
    } else {
        assert(output =~= Output::empty());
    }
}

/// A line that fits the width, and does not end with a space, stays as it is.
pub proof fn law_fill_keeps_what_fits(output: Output, width: int)
    requires
        forall|i: int| 0 <= i < text_of(output).len() ==> text_of(output)[i] != '\n',
        text_of(output).len() > 0 ==> text_of(output).last() != ' ',
        text_of(output).len() <= width,
    ensures
        wrapped(output, width) == output,
{
    let text = text_of(output);
    lemma_wrapping_fits(text, 0, 0, width);
    lemma_all_kept(output, wrapping(text, 0, 0, width));
}

proof fn lemma_wrapping_to_zero(text: Seq<char>, from: int, used: int)
    requires
        0 <= from <= text.len(),
        0 <= used,
    ensures
        !wrapped_from(text, from, used, 0).contains(' '),
    decreases text.len() - from,
{
    lemma_wrapped_step(text, from, used, 0);
    let end = word_end(text, from);
    let next = gap_end(text, end);
    let word = text.subrange(from, end);
    lemma_word_has_no_blank(text, from);
    if next < text.len() {
        lemma_word_end(text, next);
        let after = if text[next] == '\n' {
            next + 1
        } else {
            next
        };
        lemma_wrapping_to_zero(text, after, 0);
        let rest = wrapped_from(text, after, 0, 0);
        let all = word + seq!['\n'] + rest;
        assert forall|i: int| 0 <= i < all.len() implies all[i] != ' ' by {
            if i > word.len() {
                assert(all[i] == rest[i - word.len() - 1]);
            }
        }
    }
}

pub proof fn lemma_word_has_no_blank(text: Seq<char>, from: int)
    requires
        0 <= from <= text.len(),
    ensures
        from <= word_end(text, from) <= text.len(),
        forall|i: int| from <= i < word_end(text, from) ==> text[i] != ' ' && text[i] != '\n',
    decreases text.len() - from,
{
    if from < text.len() && text[from] != ' ' && text[from] != '\n' {
        lemma_word_has_no_blank(text, from + 1);
    }
}

/// Filling to 0 means breaking at every word: no space remains.
pub proof fn law_fill_to_zero(output: Output)
    ensures
        !text_of(wrapped(output, 0)).contains(' '),
{
    let text = text_of(output);
    law_layout_keeps_labels(output, wrapping(text, 0, 0, 0));
    lemma_wrapping_to_zero(text, 0, 0);
    assert(text.skip(0) =~= text);
}

/// Whether a line begins at `start`, and goes on to `end` at least.
pub open spec fn same_line(text: Seq<char>, start: int, end: int) -> bool {
    &&& 0 <= start <= end < text.len()
    &&& start == 0 || text[start - 1] == '\n'
    &&& forall|i: int| start <= i <= end ==> text[i] != '\n'
}

/// Whether each character that has a space before it on its line is within the width.
pub open spec fn within_width(text: Seq<char>, width: int) -> bool {
    forall|start: int, space: int, at: int|
        #![trigger same_line(text, start, at), text[space]]
        same_line(text, start, at) && start <= space < at && text[space] == ' ' && text[at] != ' '
            ==> at - start < width
}

proof fn lemma_lines_within_width(a: Seq<char>, b: Seq<char>, width: int)
    requires
        within_width(a, width),
        within_width(b, width),
    ensures
        within_width(a + seq!['\n'] + b, width),
{
    let all = a + seq!['\n'] + b;
    let n = a.len() + 1;
    assert(all[a.len() as int] == '\n');
    assert forall|start: int, space: int, at: int|
        #![trigger same_line(all, start, at), all[space]]
        same_line(all, start, at) && start <= space < at && all[space] == ' ' && all[at]
            != ' ' implies at - start < width by {
        if at < n {
            assert forall|i: int| start <= i <= at implies a[i] != '\n' by {
                assert(all[i] == a[i]);
            }
            assert(at < a.len());
            assert(same_line(a, start, at));
            assert(a[space] == ' ');
        } else {
            if start < n {
                assert(all[a.len() as int] != '\n');
            }
            assert(all[space] == b[space - n]);
            assert(all[at] == b[at - n]);
            if start > n {
                assert(all[start - 1] == b[start - n - 1]);
            }
            assert forall|i: int| start - n <= i <= at - n implies b[i] != '\n' by {
                assert(all[i + n] == b[i]);
            }
            assert(same_line(b, start - n, at - n));
            assert(b[space - n] == ' ');
        }
    }
}

proof fn lemma_line_grows(line: Seq<char>, more: Seq<char>, width: int)
    requires
        within_width(line, width),
        forall|i: int| 0 <= i < line.len() ==> line[i] != '\n',
        forall|i: int| 0 <= i < more.len() ==> more[i] != '\n',
        (forall|i: int| 0 <= i < more.len() ==> more[i] == ' ') || line.len() + more.len()
            <= width || (line.len() == 0 && forall|i: int|
            0 <= i < more.len() ==> more[i] != ' '),
    ensures
        within_width(line + more, width),
        forall|i: int| 0 <= i < line.len() + more.len() ==> (line + more)[i] != '\n',
{
    let all = line + more;
    assert forall|start: int, space: int, at: int|
        #![trigger same_line(all, start, at), all[space]]
        same_line(all, start, at) && start <= space < at && all[space] == ' ' && all[at]
            != ' ' implies at - start < width by {
        if start > 0 {
            assert(all[start - 1] != '\n');
        }
        if at < line.len() {
            assert(same_line(line, start, at));
            assert(line[space] == ' ');
        } else if line.len() == 0 {
            assert(all[at] == more[at]);
            assert(all[space] == more[space]);
        } else {
            assert(all[at] == more[at - line.len()]);
        }
    }
}

proof fn lemma_wrapping_is_within_width(
    text: Seq<char>,
    from: int,
    line: Seq<char>,
    width: int,
)
    requires
        0 <= from <= text.len(),
        within_width(line, width),
        forall|i: int| 0 <= i < line.len() ==> line[i] != '\n',
        line.len() == 0 || line.len() + (word_end(text, from) - from) <= width,
    ensures
        within_width(line + wrapped_from(text, from, line.len() as int, width), width),
    decreases text.len() - from,
{
    let used = line.len() as int;
    lemma_wrapped_step(text, from, used, width);
    let end = word_end(text, from);
    let next = gap_end(text, end);
    let word = text.subrange(from, end);
    let gap = text.subrange(end, next);
    lemma_word_has_no_blank(text, from);
    lemma_visible_gap(text, end);
    lemma_line_grows(line, word, width);
    let none = Seq::<char>::empty();
    if next == text.len() {
    } else if text[next] == '\n' {
        lemma_wrapping_is_within_width(text, next + 1, none, width);
        let rest = wrapped_from(text, next + 1, 0, width);
        assert(none + rest =~= rest);
        lemma_lines_within_width(line + word, rest, width);
        assert(line + (word + seq!['\n'] + rest) =~= line + word + seq!['\n'] + rest);
    } else if used + (next - from) + (word_end(text, next) - next) > width {
        lemma_wrapping_is_within_width(text, next, none, width);
        let rest = wrapped_from(text, next, 0, width);
        assert(none + rest =~= rest);
        lemma_lines_within_width(line + word, rest, width);
        assert(line + (word + seq!['\n'] + rest) =~= line + word + seq!['\n'] + rest);
    } else {
        lemma_line_grows(line + word, gap, width);
        let longer = line + word + gap;
        lemma_wrapping_is_within_width(text, next, longer, width);
        let rest = wrapped_from(text, next, longer.len() as int, width);
        assert(text.subrange(from, next) =~= word + gap);
        assert(line + (word + gap + rest) =~= longer + rest);
    }
}

/// A line goes beyond the width only where a single word does: a character beyond the width
/// that is no space has no space before it on its line.
pub proof fn law_fill_is_within_width(output: Output, width: int)
    ensures
        within_width(text_of(wrapped(output, width)), width),
{
    let text = text_of(output);
    let none = Seq::<char>::empty();
    law_layout_keeps_labels(output, wrapping(text, 0, 0, width));
    lemma_wrapping_is_within_width(text, 0, none, width);
    assert(text.skip(0) =~= text);
    assert(none + wrapped_from(text, 0, 0, width) =~= wrapped_from(text, 0, 0, width));
}

/// How many labels are open behind `output` if `depth` were open before it, or nothing if
/// it closes one that is not open.
pub open spec fn open_labels(depth: int, output: Output) -> Option<int>
    decreases output.len(),
{
    if output.len() == 0 {
        Some(depth)
    } else {
        match open_labels(depth, output.drop_last()) {
            Some(open) => match output.last() {
                OutputOp::Char(_) => Some(open),
                OutputOp::PushLabel(_) => Some(open + 1),
                OutputOp::PopLabel => if open > 0 {
                    Some(open - 1)
                } else {
                    None
                },
            },
            None => None,
        }
    }
}

/// Whether `output` closes the labels that it opens, and no others.
pub open spec fn balanced(output: Output) -> bool {
    open_labels(0, output) == Some(0int)
}

proof fn lemma_open_sum(depth: int, a: Output, b: Output)
    ensures
        open_labels(depth, a + b) == match open_labels(depth, a) {
            Some(open) => open_labels(open, b),
            None => None,
        },
    decreases b.len(),
{
    if b.len() == 0 {
        assert(a + b =~= a);
    } else {
        assert((a + b).drop_last() =~= a + b.drop_last());
        lemma_open_sum(depth, a, b.drop_last());
    }
}

proof fn lemma_open_deeper(depth: int, more: int, output: Output)
    requires
        0 <= depth,
        0 <= more,
        open_labels(depth, output) is Some,
    ensures
        open_labels(depth, output)->0 >= 0,
        open_labels(depth + more, output) == Some(open_labels(depth, output)->0 + more),
    decreases output.len(),
{
    if output.len() > 0 {
        lemma_open_deeper(depth, more, output.drop_last());
    }
}

proof fn lemma_open_labels_of(depth: int, output: Output)
    ensures
        open_labels(depth, labels_of(output)) == open_labels(depth, output),
    decreases output.len(),
{
    if output.len() > 0 {
        let before = output.drop_last();
        lemma_open_labels_of(depth, before);
        match output.last() {
            OutputOp::Char(_) => {},
            _ => {
                assert(labels_of(before).push(output.last()).drop_last() =~= labels_of(before));
            },
        }
    }
}

/// Balanced outputs one behind the other are balanced.
pub proof fn law_balanced_sum(a: Output, b: Output)
    requires
        balanced(a),
        balanced(b),
    ensures
        balanced(a + b),
{
    lemma_open_sum(0, a, b);
}

/// Plain output is balanced.
pub proof fn law_plain_is_balanced(text: Seq<char>)
    ensures
        balanced(plain(text)),
    decreases text.len(),
{
    if text.len() > 0 {
        assert(plain(text).drop_last() =~= plain(text.drop_last()));
        assert(plain(text).last() == OutputOp::Char(text.last()));
        law_plain_is_balanced(text.drop_last());
    }
}

proof fn lemma_opened(labels: Seq<Seq<char>>, depth: int)
    ensures
        open_labels(depth, opened(labels)) == Some(depth + labels.len()),
    decreases labels.len(),
{
    if labels.len() > 0 {
        assert(opened(labels).drop_last() =~= opened(labels.drop_last()));
        assert(opened(labels).last() == OutputOp::PushLabel(labels.last()));
        lemma_opened(labels.drop_last(), depth);
    }
}

proof fn lemma_closed(count: nat, depth: int)
    requires
        depth >= count,
    ensures
        open_labels(depth, closed(count)) == Some(depth - count),
    decreases count,
{
    if count > 0 {
        assert(closed(count).drop_last() =~= closed((count - 1) as nat));
        assert(closed(count).last() == OutputOp::PopLabel);
        lemma_closed((count - 1) as nat, depth);
    }
}

/// Labels are closed behind the content that they are opened before.
pub proof fn law_labeled_is_balanced(labels: Seq<Seq<char>>, content: Output)
    requires
        balanced(content),
    ensures
        balanced(labeled(labels, content)),
{
    let n = labels.len();
    lemma_opened(labels, 0);
    lemma_open_deeper(0, n as int, content);
    lemma_closed(n, n as int);
    lemma_open_sum(0, opened(labels), content);
    lemma_open_sum(0, opened(labels) + content, closed(n));
}

/// Joining balanced outputs gives balanced output.
pub proof fn law_joined_is_balanced(contents: Seq<Output>, separator: Output)
    requires
        forall|i: int| 0 <= i < contents.len() ==> balanced(#[trigger] contents[i]),
        balanced(separator),
    ensures
        balanced(joined(contents, separator)),
    decreases contents.len(),
{
    if contents.len() > 1 {
        let rest = contents.drop_last();
        assert forall|i: int| 0 <= i < rest.len() implies balanced(#[trigger] rest[i]) by {
            assert(rest[i] == contents[i]);
        }
        law_joined_is_balanced(rest, separator);
        law_balanced_sum(joined(rest, separator), separator);
        assert(balanced(contents[contents.len() - 1]));
        law_balanced_sum(joined(rest, separator) + separator, contents.last());
    }
}

proof fn lemma_indented_opens(output: Output, prefix: Output)
    requires
        balanced(prefix),
        open_labels(0, output) is Some,
    ensures
        open_labels(0, indented(output, prefix)) == open_labels(0, output),
    decreases output.len(),
{
    if output.len() > 0 {
        let before = output.drop_last();
        lemma_indented_opens(before, prefix);
        lemma_open_deeper(0, 0, before);
        let done = indented(before, prefix);
        lemma_open_sum(0, done, prefix);
        lemma_open_deeper(0, open_labels(0, before)->0, prefix);
        assert((done + prefix).push(output.last()).drop_last() =~= done + prefix);
        assert(done.push(output.last()).drop_last() =~= done);
    }
}

/// Indenting and wrapping keep balanced output balanced.
pub proof fn law_layout_is_balanced(output: Output, prefix: Output, width: int)
    requires
        balanced(output),
        balanced(prefix),
    ensures
        balanced(indented(output, prefix)),
        balanced(wrapped(output, width)),
{
    lemma_indented_opens(output, prefix);
    law_fill_keeps_words_and_labels(output, width);
    lemma_open_labels_of(0, output);
    lemma_open_labels_of(0, wrapped(output, width));
}

}
