//! Laying out recorded output anew: indenting and wrapping its lines.
use vstd::prelude::*;

use crate::formatter::{text_of, FormatOp, FormatRecorder, Output, OutputOp};
use crate::text::chars_of;

verus! {

/// A character written behind `before` is the first one of its line.
pub open spec fn at_line_start(before: Output) -> bool {
    text_of(before).len() == 0 || text_of(before).last() == '\n'
}

/// `output` with `prefix` in front of each of its lines that is not empty. The prefix
/// stands inside the labels of the first character of the line.
pub open spec fn indented(output: Output, prefix: Output) -> Output
    decreases output.len(),
{
    if output.len() == 0 {
        Seq::empty()
    } else {
        let before = output.drop_last();
        match output.last() {
            OutputOp::Char(c) => if at_line_start(before) && c != '\n' {
                (indented(before, prefix) + prefix).push(output.last())
            } else {
                indented(before, prefix).push(output.last())
            },
            _ => indented(before, prefix).push(output.last()),
        }
    }
}

/// Writes `recorded` with `prefix` in front of each line that is not empty.
pub fn write_indented(
    formatter: &mut FormatRecorder,
    recorded: &FormatRecorder,
    prefix: &FormatRecorder,
)
    ensures
        final(formatter)@ == old(formatter)@ + indented(recorded@, prefix@),
{
    let ops = recorded.ops();
    let mut new_line = true;
    let mut i: usize = 0;
    while i < ops.len()
        invariant
            i <= ops@.len(),
            ops.deep_view() == recorded@,
            new_line == at_line_start(recorded@.take(i as int)),
            formatter@ =~= old(formatter)@ + indented(recorded@.take(i as int), prefix@),
        decreases ops@.len() - i,
    {
        let ghost so_far = recorded@.take(i as int);
        let ghost next = recorded@.take(i + 1);
        proof {
            assert(next.drop_last() =~= so_far);
            assert(next.last() == ops@[i as int].deep_view());
        }
        match &ops[i] {
            FormatOp::Char(c) => {
                if new_line && *c != '\n' {
                    prefix.replay(formatter);
                }
                formatter.write_char(*c);
                new_line = *c == '\n';
            },
            FormatOp::PushLabel(label) => {
                formatter.push_label(label.as_str());
            },
            FormatOp::PopLabel => {
                formatter.pop_label();
            },
        }
        i += 1;
    }
    proof {
        assert(recorded@.take(i as int) =~= recorded@);
    }
}

/// What becomes of a character when its text is wrapped.
#[derive(Debug)]
pub enum Placement {
    /// It is written as it is.
    Keep,
    /// A line feed is written in its place.
    Break,
    /// Nothing is written in its place.
    Drop,
}

/// `count` times the same placement.
pub open spec fn placed(placement: Placement, count: int) -> Seq<Placement> {
    Seq::new(count as nat, |i: int| placement)
}

/// Where the word that begins at `from` ends: at the next space or line feed, or with
/// the text.
pub open spec fn word_end(text: Seq<char>, from: int) -> int
    decreases text.len() - from,
{
    if from < 0 || from >= text.len() || text[from] == ' ' || text[from] == '\n' {
        from
    } else {
        word_end(text, from + 1)
    }
}

/// Where the spaces that begin at `from` end.
pub open spec fn gap_end(text: Seq<char>, from: int) -> int
    decreases text.len() - from,
{
    if from < 0 || from >= text.len() || text[from] != ' ' {
        from
    } else {
        gap_end(text, from + 1)
    }
}

/// How `text[from..]` is wrapped at `width` characters, where a word begins at `from` and
/// `used` characters stand before it on its line.
///
/// A line is broken in the spaces before the first word that would reach beyond the
/// width; a word is never broken, nor is a line feed removed. Of the spaces in which a
/// line is broken, or with which it ends, nothing remains but the line break.
pub open spec fn wrapping(text: Seq<char>, from: int, used: int, width: int) -> Seq<Placement>
    decreases text.len() - from,
{
    let end = word_end(text, from);
    let next = gap_end(text, end);
    if from < 0 || !(from <= end <= next <= text.len()) {
        Seq::empty()
    } else if next == text.len() {
        placed(Placement::Keep, end - from) + placed(Placement::Drop, next - end)
    } else if text[next] == '\n' {
        placed(Placement::Keep, end - from) + placed(Placement::Break, 1) + placed(
            Placement::Drop,
            next - end,
        ) + wrapping(text, next + 1, 0, width)
    } else if end == next {
        Seq::empty()
    } else if used + (next - from) + (word_end(text, next) - next) > width {
        placed(Placement::Keep, end - from) + placed(Placement::Break, 1) + placed(
            Placement::Drop,
            next - end - 1,
        ) + wrapping(text, next, 0, width)
    } else {
        placed(Placement::Keep, next - from) + wrapping(text, next, used + (next - from), width)
    }
}

/// `output` with its characters placed as `placements` says, one placement for each.
pub open spec fn laid_out(output: Output, placements: Seq<Placement>) -> Output
    decreases output.len(),
{
    if output.len() == 0 {
        Seq::empty()
    } else {
        let before = output.drop_last();
        match output.last() {
            OutputOp::Char(c) => match placements[text_of(before).len() as int] {
                Placement::Keep => laid_out(before, placements).push(output.last()),
                Placement::Break => laid_out(before, placements).push(OutputOp::Char('\n')),
                Placement::Drop => laid_out(before, placements),
            },
            _ => laid_out(before, placements).push(output.last()),
        }
    }
}

/// `output` with its lines wrapped at `width` characters.
pub open spec fn wrapped(output: Output, width: int) -> Output {
    laid_out(output, wrapping(text_of(output), 0, 0, width))
}

pub proof fn lemma_word_end(text: Seq<char>, from: int)
    requires
        0 <= from <= text.len(),
    ensures
        from <= word_end(text, from) <= text.len(),
        word_end(text, from) < text.len() ==> text[word_end(text, from)] == ' '
            || text[word_end(text, from)] == '\n',
    decreases text.len() - from,
{
    if from < text.len() && text[from] != ' ' && text[from] != '\n' {
        lemma_word_end(text, from + 1);
    }
}

pub proof fn lemma_gap_end(text: Seq<char>, from: int)
    requires
        0 <= from <= text.len(),
    ensures
        from <= gap_end(text, from) <= text.len(),
        gap_end(text, from) < text.len() ==> text[gap_end(text, from)] != ' ',
    decreases text.len() - from,
{
    if from < text.len() && text[from] == ' ' {
        lemma_gap_end(text, from + 1);
    }
}

/// Wrapping says of every character what becomes of it.
pub proof fn lemma_wrapping_places_all(text: Seq<char>, from: int, used: int, width: int)
    requires
        0 <= from <= text.len(),
    ensures
        wrapping(text, from, used, width).len() == text.len() - from,
    decreases text.len() - from,
{
    lemma_word_end(text, from);
    let end = word_end(text, from);
    lemma_gap_end(text, end);
    let next = gap_end(text, end);
    if next < text.len() {
        if text[next] == '\n' {
            lemma_wrapping_places_all(text, next + 1, 0, width);
        } else {
            lemma_wrapping_places_all(text, next, 0, width);
            lemma_wrapping_places_all(text, next, used + (next - from), width);
        }
    }
}

fn find_word_end(text: &Vec<char>, from: usize) -> (end: usize)
    requires
        from <= text@.len(),
    ensures
        end == word_end(text@, from as int),
        from <= end <= text@.len(),
{
    let mut end: usize = from;
    while end < text.len() && text[end] != ' ' && text[end] != '\n'
        invariant
            from <= end <= text@.len(),
            word_end(text@, from as int) == word_end(text@, end as int),
        decreases text@.len() - end,
    {
        end += 1;
    }
    end
}

fn find_gap_end(text: &Vec<char>, from: usize) -> (end: usize)
    requires
        from <= text@.len(),
    ensures
        end == gap_end(text@, from as int),
        from <= end <= text@.len(),
{
    let mut end: usize = from;
    while end < text.len() && text[end] == ' '
        invariant
            from <= end <= text@.len(),
            gap_end(text@, from as int) == gap_end(text@, end as int),
        decreases text@.len() - end,
    {
        end += 1;
    }
    end
}

fn push_kept(placements: &mut Vec<Placement>, count: usize)
    ensures
        final(placements)@ == old(placements)@ + placed(Placement::Keep, count as int),
{
    let mut i: usize = 0;
    while i < count
        invariant
            i <= count,
            placements@ =~= old(placements)@ + placed(Placement::Keep, i as int),
        decreases count - i,
    {
        placements.push(Placement::Keep);
        i += 1;
    }
}

fn push_dropped(placements: &mut Vec<Placement>, count: usize)
    ensures
        final(placements)@ == old(placements)@ + placed(Placement::Drop, count as int),
{
    let mut i: usize = 0;
    while i < count
        invariant
            i <= count,
            placements@ =~= old(placements)@ + placed(Placement::Drop, i as int),
        decreases count - i,
    {
        placements.push(Placement::Drop);
        i += 1;
    }
}

/// Decides how `text` is wrapped at `width` characters.
fn wrap_text(text: &Vec<char>, width: usize) -> (placements: Vec<Placement>)
    ensures
        placements@ == wrapping(text@, 0, 0, width as int),
{
    let mut placements: Vec<Placement> = Vec::new();
    let mut from: usize = 0;
    let mut used: usize = 0;
    let size: usize = text.len();
    let ghost all = wrapping(text@, 0, 0, width as int);
    loop
        invariant
            size == text@.len(),
            used <= from <= text@.len(),
            all == wrapping(text@, 0, 0, width as int),
            all =~= placements@ + wrapping(text@, from as int, used as int, width as int),
        decreases text@.len() - from,
    {
        let end = find_word_end(text, from);
        let next = find_gap_end(text, end);
        proof {
            lemma_word_end(text@, from as int);
            lemma_gap_end(text@, end as int);
        }
        if next == size {
            push_kept(&mut placements, end - from);
            push_dropped(&mut placements, next - end);
            proof {
                assert(placements@ =~= all);
            }
            return placements;
        }
        if text[next] == '\n' {
            push_kept(&mut placements, end - from);
            placements.push(Placement::Break);
            push_dropped(&mut placements, next - end);
            from = next + 1;
            used = 0;
        } else {
            let after = find_word_end(text, next);
            let taken: usize = used + (next - from);
            if after - next > width || taken > width - (after - next) {
                push_kept(&mut placements, end - from);
                placements.push(Placement::Break);
                push_dropped(&mut placements, next - end - 1);
                used = 0;
            } else {
                push_kept(&mut placements, next - from);
                used = taken;
            }
            from = next;
        }
    }
}

/// Writes `recorded` with its lines wrapped at `width` characters.
pub fn write_wrapped(formatter: &mut FormatRecorder, recorded: &FormatRecorder, width: usize)
    ensures
        final(formatter)@ == old(formatter)@ + wrapped(recorded@, width as int),
{
    let text = recorded.text();
    let chars = chars_of(text.as_str());
    let placements = wrap_text(&chars, width);
    let count: usize = placements.len();
    let ops = recorded.ops();
    let mut k: usize = 0;
    let mut i: usize = 0;
    proof {
        lemma_wrapping_places_all(chars@, 0, 0, width as int);
    }
    while i < ops.len()
        invariant
            i <= ops@.len(),
            ops.deep_view() == recorded@,
            count == placements@.len() == text_of(recorded@).len(),
            k == text_of(recorded@.take(i as int)).len(),
            formatter@ =~= old(formatter)@ + laid_out(recorded@.take(i as int), placements@),
        decreases ops@.len() - i,
    {
        let ghost next = recorded@.take(i + 1);
        proof {
            assert(next.drop_last() =~= recorded@.take(i as int));
            assert(next.last() == ops@[i as int].deep_view());
            lemma_text_grows(recorded@, i + 1);
        }
        match &ops[i] {
            FormatOp::Char(c) => {
                match placements[k] {
                    Placement::Keep => formatter.write_char(*c),
                    Placement::Break => formatter.write_char('\n'),
                    Placement::Drop => {},
                }
                k += 1;
            },
            FormatOp::PushLabel(label) => {
                formatter.push_label(label.as_str());
            },
            FormatOp::PopLabel => {
                formatter.pop_label();
            },
        }
        i += 1;
    }
    proof {
        assert(recorded@.take(i as int) =~= recorded@);
    }
}

/// The beginning of an output has no more characters than the whole.
proof fn lemma_text_grows(output: Output, n: int)
    requires
        0 <= n <= output.len(),
    ensures
        text_of(output.take(n)).len() <= text_of(output).len(),
    decreases output.len() - n,
{
    if n == output.len() {
        assert(output.take(n) =~= output);
    } else {
        lemma_text_grows(output, n + 1);
        assert(output.take(n + 1).drop_last() =~= output.take(n));
    }
}

}
