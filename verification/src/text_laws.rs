//! Laws of text: searching, splitting, cutting and counting.
use vstd::prelude::*;
use vstd::string::*;
use vstd::utf8::*;

use crate::laws::{lemma_white_position, lemma_word_reaches, lemma_words_behind};
use crate::text::{
    begins_with, char_boundary_of_index,
    contains_text, decimal_of, decimal_of_nat, email_domain_of, finishes_with,
    first_line_of, is_whitespace, lemma_boundary_at_or_after, lemma_boundary_at_or_before,
    lemma_index_is_boundary, lemma_position_of, lines_from, lines_of, occurs_at, position_of,
    position_of_white, substring, username_of, without_carriage_return, without_prefix,
    without_suffix, words_from, words_of,
};

verus! {

/// A text contains another exactly where it is made up of something, that text and something
/// more.
pub proof fn law_contains(haystack: Seq<char>, needle: Seq<char>)
    ensures
        contains_text(haystack, needle) <==> exists|before: Seq<char>, after: Seq<char>|
            haystack == #[trigger] (before + needle + after),
{
    if contains_text(haystack, needle) {
        let at = choose|at: int| #[trigger] occurs_at(haystack, needle, at);
        let (before, after) = (haystack.take(at), haystack.skip(at + needle.len()));
        assert(haystack =~= before + needle + after);
    }
    if exists|before: Seq<char>, after: Seq<char>|
        haystack == #[trigger] (before + needle + after) {
        let (before, after) = choose|before: Seq<char>, after: Seq<char>|
            haystack == #[trigger] (before + needle + after);
        let at = before.len() as int;
        assert(haystack.subrange(at, at + needle.len()) =~= needle);
        assert(occurs_at(haystack, needle, at));
    }
}

/// A text starts with another exactly where it is that text and something more; that is what
/// remains without the prefix.
pub proof fn law_starts_with(text: Seq<char>, prefix: Seq<char>)
    ensures
        begins_with(text, prefix) <==> exists|rest: Seq<char>| text == #[trigger] (prefix + rest),
        forall|rest: Seq<char>|
            text == #[trigger] (prefix + rest) ==> without_prefix(text, prefix) == rest,
        !begins_with(text, prefix) ==> without_prefix(text, prefix) == text,
{
    if begins_with(text, prefix) {
        assert(text =~= prefix + text.skip(prefix.len() as int));
    }
    assert forall|rest: Seq<char>| text == #[trigger] (prefix + rest) implies begins_with(
        text,
        prefix,
    ) && without_prefix(text, prefix) == rest by {
        assert(text.subrange(0, prefix.len() as int) =~= prefix);
        assert(text.skip(prefix.len() as int) =~= rest);
    }
}

/// A text ends with another exactly where it is something and then that text; that is what
/// remains without the suffix.
pub proof fn law_ends_with(text: Seq<char>, suffix: Seq<char>)
    ensures
        finishes_with(text, suffix) <==> exists|rest: Seq<char>| text == #[trigger] (rest + suffix),
        forall|rest: Seq<char>|
            text == #[trigger] (rest + suffix) ==> without_suffix(text, suffix) == rest,
        !finishes_with(text, suffix) ==> without_suffix(text, suffix) == text,
{
    let at = text.len() - suffix.len();
    if finishes_with(text, suffix) {
        assert(text =~= text.take(at) + suffix);
    }
    assert forall|rest: Seq<char>| text == #[trigger] (rest + suffix) implies finishes_with(
        text,
        suffix,
    ) && without_suffix(text, suffix) == rest by {
        assert(text.subrange(at, at + suffix.len()) =~= suffix);
        assert(text.take(at) =~= rest);
    }
}

proof fn lemma_position_behind(before: Seq<char>, text: Seq<char>, c: char, from: int)
    requires
        0 <= from <= text.len(),
    ensures
        position_of(before + text, c, before.len() + from) == before.len() + position_of(
            text,
            c,
            from,
        ),
    decreases text.len() - from,
{
    if from < text.len() {
        assert((before + text)[before.len() + from] == text[from]);
        if text[from] != c {
            lemma_position_behind(before, text, c, from + 1);
        }
    }
}

proof fn lemma_lines_behind(before: Seq<char>, text: Seq<char>, from: int)
    requires
        0 <= from <= text.len(),
    ensures
        lines_from(before + text, before.len() + from) == lines_from(text, from),
    decreases text.len() - from,
{
    let all = before + text;
    let n = before.len();
    if from < text.len() {
        let end = position_of(text, '\n', from);
        lemma_position_of(text, '\n', from);
        lemma_position_behind(before, text, '\n', from);
        if end < text.len() {
            lemma_lines_behind(before, text, end + 1);
            assert(all.subrange(n + from, n + end) =~= text.subrange(from, end));
        } else {
            assert(all.skip(n + from) =~= text.skip(from));
        }
    }
}

/// A line feed ends a line, and a carriage return before it belongs to the line end. What has
/// no line feed is one line, if it is not empty.
pub proof fn law_line_feed_ends_line(line: Seq<char>, text: Seq<char>)
    requires
        !line.contains('\n'),
    ensures
        lines_of(Seq::empty()) == Seq::<Seq<char>>::empty(),
        line.len() > 0 ==> lines_of(line) == seq![line],
        line.len() == 0 || line.last() != '\r' ==> lines_of(line.push('\n') + text) == seq![line]
            + lines_of(text),
        lines_of(line.push('\r').push('\n') + text) == seq![line] + lines_of(text),
{
    lemma_line_reaches(line, Seq::empty());
    if line.len() > 0 {
        lemma_position_of(line, '\n', 0);
        assert forall|i: int| 0 <= i < line.len() implies line[i] != '\n' by {
            assert(line.contains(line[i]));
        }
        assert(line.skip(0) =~= line);
        assert(lines_of(line) =~= seq![line]);
    }
    lemma_line_reaches(line, text);
    lemma_line_reaches(line.push('\r'), text);
    assert(line.push('\r').drop_last() =~= line);
}

proof fn lemma_line_reaches(line: Seq<char>, text: Seq<char>)
    requires
        !line.drop_last().contains('\n') || line.len() == 0,
        line.len() > 0 ==> line.last() != '\n',
    ensures
        lines_of(line.push('\n') + text) == seq![without_carriage_return(line)] + lines_of(text),
{
    let all = line.push('\n') + text;
    assert forall|i: int| 0 <= i < line.len() implies all[i] != '\n' by {
        if i < line.len() - 1 {
            assert(line.drop_last().contains(line.drop_last()[i]));
        }
    }
    lemma_position_of(all, '\n', 0);
    let end = position_of(all, '\n', 0);
    assert(all[line.len() as int] == '\n');
    assert(end == line.len());
    assert(all.subrange(0, end) =~= line);
    lemma_lines_behind(line.push('\n'), text, 0);
}

/// The first line of a text is what comes before its first line feed.
pub proof fn law_first_line(line: Seq<char>, text: Seq<char>)
    requires
        !line.contains('\n'),
    ensures
        first_line_of(line) == line,
        line.len() == 0 || line.last() != '\r' ==> first_line_of(line.push('\n') + text) == line,
        first_line_of(line.push('\r').push('\n') + text) == line,
{
    law_line_feed_ends_line(line, text);
    if line.len() == 0 {
        assert(line =~= Seq::empty());
    }
}

/// White space ends a word and is no part of one. What has no white space is one word, if it
/// is not empty.
pub proof fn law_white_space_ends_word(word: Seq<char>, white: char, text: Seq<char>)
    requires
        forall|i: int| 0 <= i < word.len() ==> !is_whitespace(#[trigger] word[i]),
        is_whitespace(white),
    ensures
        words_of(Seq::empty()) == Seq::<Seq<char>>::empty(),
        word.len() > 0 ==> words_of(word) == seq![word],
        word.len() > 0 ==> words_of(word.push(white) + text) == seq![word] + words_of(text),
        words_of(seq![white] + text) == words_of(text),
{
    if word.len() > 0 {
        let all = word.push(white) + text;
        assert(all[0] == word[0]);
        lemma_word_reaches(word, word.len() as int, 0);
        lemma_word_reaches(all, word.len() as int, 0);
        assert(word.subrange(0, word.len() as int) =~= word);
        assert(all.subrange(0, word.len() as int) =~= word);
        assert(words_from(word, word.len() as int) =~= Seq::empty());
        assert(words_of(word) =~= seq![word]);
        lemma_words_behind(word.push(white), text, 0);
        let behind = word.len() as int;
        assert(all[behind] == white);
        lemma_skip_white(all, behind);
    }
    let all = seq![white] + text;
    assert(all[0] == white);
    lemma_words_behind(seq![white], text, 0);
    lemma_skip_white(all, 0);
}

proof fn lemma_skip_white(text: Seq<char>, at: int)
    requires
        0 <= at < text.len(),
        is_whitespace(text[at]),
    ensures
        words_from(text, at) == words_from(text, at + 1),
{
    assert(position_of_white(text, false, at) == position_of_white(text, false, at + 1));
    lemma_white_position(text, false, at + 1);
    lemma_white_position(text, true, position_of_white(text, false, at + 1));
}

/// White space is the space, the line feed, the tab and the carriage return among others, but
/// no letter and no digit.
pub proof fn law_white_space(c: char)
    ensures
        c == ' ' || c == '\n' || c == '\t' || c == '\r' ==> is_whitespace(c),
        '!' <= c <= '~' ==> !is_whitespace(c),
{
}

/// An address is split at its first `@`, if it has one.
pub proof fn law_email_is_split_at_first_at_sign(username: Seq<char>, domain: Seq<char>)
    requires
        !username.contains('@'),
    ensures
        username_of(username.push('@') + domain) == username,
        email_domain_of(username.push('@') + domain) == Some(domain),
        username_of(username) == username,
        email_domain_of(username) is None,
{
    let all = username.push('@') + domain;
    assert forall|i: int| 0 <= i < username.len() implies all[i] != '@' && username[i] != '@' by {
        assert(username.contains(username[i]));
    }
    lemma_position_of(all, '@', 0);
    lemma_position_of(username, '@', 0);
    assert(all[username.len() as int] == '@');
    assert(all.take(username.len() as int) =~= username);
    assert(all.skip((username.len() + 1) as int) =~= domain);
    assert(username.take(username.len() as int) =~= username);
}

/// The number that a text of decimal digits stands for.
pub open spec fn number_of(text: Seq<char>) -> int
    decreases text.len(),
{
    if text.len() == 0 {
        0
    } else {
        10 * number_of(text.drop_last()) + (text.last() as int - '0' as int)
    }
}

/// A number is shown in decimal digits that stand for it, without leading zeros, and with a
/// minus sign if it is negative.
pub proof fn law_decimal(n: int)
    ensures
        n < 0 ==> decimal_of(n) == seq!['-'] + decimal_of(-n),
        n >= 0 ==> number_of(decimal_of(n)) == n,
        n >= 0 ==> decimal_of(n).len() > 0,
        n >= 0 ==> forall|i: int|
            0 <= i < decimal_of(n).len() ==> '0' <= #[trigger] decimal_of(n)[i] <= '9',
        n >= 10 ==> decimal_of(n)[0] != '0',
        0 <= n < 10 ==> decimal_of(n).len() == 1,
{
    if n >= 0 {
        lemma_decimal(n as nat);
    }
}

proof fn lemma_decimal(n: nat)
    ensures
        number_of(decimal_of_nat(n)) == n,
        decimal_of_nat(n).len() > 0,
        forall|i: int|
            0 <= i < decimal_of_nat(n).len() ==> '0' <= #[trigger] decimal_of_nat(n)[i] <= '9',
        n > 0 ==> decimal_of_nat(n)[0] != '0',
    decreases n,
{
    let text = decimal_of_nat(n);
    if n < 10 {
        assert(text.drop_last() =~= Seq::empty());
        assert(number_of(Seq::<char>::empty()) == 0);
        assert(text.last() as int == 48 + n);
    } else {
        lemma_decimal(n / 10);
        assert(text.drop_last() =~= decimal_of_nat(n / 10));
        assert(text.last() as int == 48 + n % 10);
        assert forall|i: int| 0 <= i < text.len() implies '0' <= #[trigger] text[i] <= '9' by {
            if i < text.len() - 1 {
                assert(text[i] == decimal_of_nat(n / 10)[i]);
            }
        }
        assert(text[0] == decimal_of_nat(n / 10)[0]);
    }
}

/// An index stands for the nearest character boundary towards zero: to the left where it
/// counts from the start, to the right where it counts from the end.
pub proof fn law_index_is_rounded_to_nearest(text: Seq<char>, i: int)
    ensures
        ({
            let n = encode_utf8(text).len();
            let at = char_boundary_of_index(text, i);
            let bytes = encode_utf8(text);
            &&& is_char_boundary(bytes, at)
            &&& 0 <= i <= n ==> 0 <= at <= i && forall|p: int| at < p <= i ==> !is_char_boundary(
                bytes,
                p,
            )
            &&& i > n ==> at == n
            &&& -n <= i < 0 ==> n + i <= at <= n && forall|p: int|
                n + i <= p < at ==> !is_char_boundary(
                bytes,
                p,
            )
            &&& i < -n ==> at == 0
        }),
{
    let bytes = encode_utf8(text);
    encode_utf8_valid_utf8(text);
    is_char_boundary_start_end_of_seq(bytes);
    lemma_index_is_boundary(text, i);
    if 0 <= i <= bytes.len() {
        lemma_boundary_at_or_before(bytes, i);
    }
    if -bytes.len() <= i < 0 {
        lemma_boundary_at_or_after(bytes, bytes.len() + i);
    }
}

/// A part of a text is encoded as the bytes between its two indices.
pub proof fn law_part_is_what_lies_between(text: Seq<char>, start: int, end: int)
    ensures
        ({
            let from = char_boundary_of_index(text, start);
            let to = char_boundary_of_index(text, end);
            encode_utf8(substring(text, start, end)) == if from <= to {
                encode_utf8(text).subrange(from, to)
            } else {
                Seq::empty()
            }
        }),
{
    let bytes = encode_utf8(text);
    let from = char_boundary_of_index(text, start);
    let to = char_boundary_of_index(text, end);
    encode_utf8_valid_utf8(text);
    lemma_index_is_boundary(text, start);
    lemma_index_is_boundary(text, end);
    if from <= to {
        let part = bytes.subrange(from, to);
        let head = bytes.subrange(0, to);
        valid_utf8_split(bytes, to);
        lemma_boundary_in_head(bytes, from, to);
        valid_utf8_split(head, from);
        assert(head.subrange(from, head.len() as int) =~= part);
        decode_utf8_encode_utf8(part);
    } else {
        assert(encode_utf8(Seq::<char>::empty()) =~= Seq::empty());
    }
}

proof fn lemma_boundary_in_head(bytes: Seq<u8>, from: int, to: int)
    requires
        valid_utf8(bytes),
        is_char_boundary(bytes, from),
        is_char_boundary(bytes, to),
        0 <= from <= to <= bytes.len(),
    ensures
        is_char_boundary(bytes.subrange(0, to), from),
{
    let head = bytes.subrange(0, to);
    valid_utf8_split(bytes, to);
    is_char_boundary_start_end_of_seq(head);
    if from < to {
        is_char_boundary_iff_not_is_continuation_byte(bytes, from);
        is_char_boundary_iff_not_is_continuation_byte(head, from);
        assert(head[from] == bytes[from]);
    }
}

}
