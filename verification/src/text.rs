//! Operations on text, stated over sequences of characters.
use vstd::prelude::*;
use vstd::string::*;
use vstd::utf8::*;

verus! {

/// `String::push` appends the given character to the end of the string.
pub assume_specification[ std::string::String::push ](s: &mut std::string::String, c: char)
    ensures
        final(s)@ == old(s)@.push(c),
;

/// The text that `str::to_uppercase` gives for `text`.
pub uninterp spec fn uppercase(text: Seq<char>) -> Seq<char>;

/// The text that `str::to_lowercase` gives for `text`.
pub uninterp spec fn lowercase(text: Seq<char>) -> Seq<char>;

/// Whether `c` has Unicode's property `White_Space`.
pub open spec fn is_whitespace(c: char) -> bool {
    ||| 0x9 <= c as u32 <= 0xd
    ||| c as u32 == 0x20
    ||| c as u32 == 0x85
    ||| c as u32 == 0xa0
    ||| c as u32 == 0x1680
    ||| 0x2000 <= c as u32 <= 0x200a
    ||| c as u32 == 0x2028
    ||| c as u32 == 0x2029
    ||| c as u32 == 0x202f
    ||| c as u32 == 0x205f
    ||| c as u32 == 0x3000
}

/// Calls `str::to_uppercase`, whose result is a function of the text alone.
#[verifier::external_body]
pub(crate) fn to_uppercase(text: &str) -> (upper: String)
    ensures
        upper@ == uppercase(text@),
{
    text.to_uppercase()
}

/// Calls `str::to_lowercase`, whose result is a function of the text alone.
#[verifier::external_body]
pub(crate) fn to_lowercase(text: &str) -> (lower: String)
    ensures
        lower@ == lowercase(text@),
{
    text.to_lowercase()
}

/// Calls `char::is_whitespace`, which tells the characters with the property `White_Space` in
/// Unicode's list of properties: those from U+0009 to U+000D, the space, U+0085, U+00A0,
/// U+1680, those from U+2000 to U+200A, U+2028, U+2029, U+202F, U+205F and U+3000.
#[verifier::external_body]
pub(crate) fn char_is_whitespace(c: char) -> (white: bool)
    ensures
        white == is_whitespace(c),
{
    c.is_whitespace()
}

/// Two texts with the same UTF-8 encoding are the same text.
pub proof fn lemma_encoding_is_injective(a: Seq<char>, b: Seq<char>)
    requires
        encode_utf8(a) == encode_utf8(b),
    ensures
        a == b,
{
    encode_utf8_decode_utf8(a);
    encode_utf8_decode_utf8(b);
}

/// Whether the two strings hold the same characters.
pub fn same_text(a: &str, b: &str) -> (same: bool)
    ensures
        same == (a@ == b@),
{
    let x = a.as_bytes();
    let y = b.as_bytes();
    if x.len() != y.len() {
        return false;
    }
    let mut i: usize = 0;
    while i < x.len()
        invariant
            x@.len() == y@.len(),
            i <= x@.len(),
            x@ == a.spec_bytes(),
            y@ == b.spec_bytes(),
            forall|j: int| 0 <= j < i ==> x@[j] == y@[j],
        decreases x@.len() - i,
    {
        if x[i] != y[i] {
            return false;
        }
        i += 1;
    }
    proof {
        assert(x@ =~= y@);
        lemma_encoding_is_injective(a@, b@);
    }
    true
}

/// The characters of a string, in order.
pub fn chars_of(text: &str) -> (chars: Vec<char>)
    ensures
        chars@ == text@,
{
    let mut chars: Vec<char> = Vec::new();
    for c in it: text.chars()
        invariant
            chars@ == text@.take(it.index()),
            it.seq() == text@,
    {
        chars.push(c);
        proof {
            assert(text@.take(it.index() + 1) =~= text@.take(it.index()).push(c));
        }
    }
    proof {
        assert(text@.take(text@.len() as int) =~= text@);
    }
    chars
}


/// The string made of `chars[from..to]`.
pub fn string_of(chars: &Vec<char>, from: usize, to: usize) -> (text: String)
    requires
        from <= to <= chars@.len(),
    ensures
        text@ == chars@.subrange(from as int, to as int),
{
    let mut text = String::new();
    let mut i: usize = from;
    while i < to
        invariant
            from <= i <= to <= chars@.len(),
            text@ == chars@.subrange(from as int, i as int),
        decreases to - i,
    {
        text.push(chars[i]);
        proof {
            assert(chars@.subrange(from as int, i + 1) =~= chars@.subrange(
                from as int,
                i as int,
            ).push(chars@[i as int]));
        }
        i += 1;
    }
    text
}

/// `needle` occurs in `haystack` at some position.
pub open spec fn contains_text(haystack: Seq<char>, needle: Seq<char>) -> bool {
    exists|at: int| #[trigger] occurs_at(haystack, needle, at)
}

/// `needle` occurs in `haystack` at position `at`.
pub open spec fn occurs_at(haystack: Seq<char>, needle: Seq<char>, at: int) -> bool {
    &&& 0 <= at
    &&& at + needle.len() <= haystack.len()
    &&& haystack.subrange(at, at + needle.len()) == needle
}

/// `text` begins with `prefix`.
pub open spec fn begins_with(text: Seq<char>, prefix: Seq<char>) -> bool {
    occurs_at(text, prefix, 0)
}

/// `text` ends with `suffix`.
pub open spec fn finishes_with(text: Seq<char>, suffix: Seq<char>) -> bool {
    occurs_at(text, suffix, text.len() - suffix.len())
}

/// `text` with `prefix` taken off its front, or `text` where it does not begin with it.
pub open spec fn without_prefix(text: Seq<char>, prefix: Seq<char>) -> Seq<char> {
    if begins_with(text, prefix) {
        text.skip(prefix.len() as int)
    } else {
        text
    }
}

/// `text` with `suffix` taken off its end, or `text` where it does not end with it.
pub open spec fn without_suffix(text: Seq<char>, suffix: Seq<char>) -> Seq<char> {
    if finishes_with(text, suffix) {
        text.take(text.len() - suffix.len())
    } else {
        text
    }
}

fn matches_at(haystack: &Vec<char>, needle: &Vec<char>, at: usize) -> (found: bool)
    requires
        at + needle@.len() <= haystack@.len(),
    ensures
        found == occurs_at(haystack@, needle@, at as int),
{
    let size: usize = haystack.len();
    let mut i: usize = 0;
    let ghost window = haystack@.subrange(at as int, at + needle@.len());
    while i < needle.len()
        invariant
            i <= needle@.len(),
            at + needle@.len() <= size,
            size == haystack@.len(),
            window == haystack@.subrange(at as int, at + needle@.len()),
            forall|j: int| 0 <= j < i ==> window[j] == needle@[j],
        decreases needle@.len() - i,
    {
        if haystack[at + i] != needle[i] {
            assert(window[i as int] != needle@[i as int]);
            return false;
        }
        i += 1;
    }
    assert(window =~= needle@);
    true
}

/// Whether `needle` occurs in `haystack`.
pub fn contains(haystack: &str, needle: &str) -> (found: bool)
    ensures
        found == contains_text(haystack@, needle@),
{
    let h = chars_of(haystack);
    let n = chars_of(needle);
    if n.len() > h.len() {
        return false;
    }
    let last: usize = h.len() - n.len();
    let mut at: usize = 0;
    while at <= last
        invariant
            h@ == haystack@,
            n@ == needle@,
            last + n@.len() == h@.len(),
            at <= last + 1,
            forall|j: int| 0 <= j < at ==> !#[trigger] occurs_at(h@, n@, j),
        decreases last + 1 - at,
    {
        if matches_at(&h, &n, at) {
            return true;
        }
        if at == last {
            assert forall|j: int| !#[trigger] occurs_at(h@, n@, j) by {
                if j > last {
                    assert(j + n@.len() > h@.len());
                }
            }
            return false;
        }
        at += 1;
    }
    false
}

/// Whether `text` begins with `prefix`.
pub fn starts_with(text: &str, prefix: &str) -> (found: bool)
    ensures
        found == begins_with(text@, prefix@),
{
    let t = chars_of(text);
    let p = chars_of(prefix);
    p.len() <= t.len() && matches_at(&t, &p, 0)
}

/// Whether `text` ends with `suffix`.
pub fn ends_with(text: &str, suffix: &str) -> (found: bool)
    ensures
        found == finishes_with(text@, suffix@),
{
    let t = chars_of(text);
    let p = chars_of(suffix);
    p.len() <= t.len() && matches_at(&t, &p, t.len() - p.len())
}

/// Takes `prefix` off the front of `text`, if it is there.
pub fn remove_prefix(text: &str, prefix: &str) -> (rest: String)
    ensures
        rest@ == without_prefix(text@, prefix@),
{
    let t = chars_of(text);
    let p = chars_of(prefix);
    if p.len() <= t.len() && matches_at(&t, &p, 0) {
        let rest = string_of(&t, p.len(), t.len());
        assert(rest@ =~= t@.skip(p@.len() as int));
        rest
    } else {
        text.to_owned()
    }
}

/// Takes `suffix` off the end of `text`, if it is there.
pub fn remove_suffix(text: &str, suffix: &str) -> (rest: String)
    ensures
        rest@ == without_suffix(text@, suffix@),
{
    let t = chars_of(text);
    let p = chars_of(suffix);
    if p.len() <= t.len() && matches_at(&t, &p, t.len() - p.len()) {
        let rest = string_of(&t, 0, t.len() - p.len());
        assert(rest@ =~= t@.take(t@.len() - p@.len()));
        rest
    } else {
        text.to_owned()
    }
}

/// The first position at or after `from` that holds `c`, or the end of the text.
pub open spec fn position_of(text: Seq<char>, c: char, from: int) -> int
    decreases text.len() - from,
{
    if from < 0 || from >= text.len() || text[from] == c {
        from
    } else {
        position_of(text, c, from + 1)
    }
}

/// `line` without the carriage return that may stand at its end.
pub open spec fn without_carriage_return(line: Seq<char>) -> Seq<char> {
    if line.len() > 0 && line.last() == '\r' {
        line.drop_last()
    } else {
        line
    }
}

/// The lines of `text[from..]`. A line ends with a line feed, with or without a carriage
/// return before it, or with the text; the line end is not part of the line. Text that
/// ends with a line end has no further, empty line behind it.
pub open spec fn lines_from(text: Seq<char>, from: int) -> Seq<Seq<char>>
    decreases text.len() - from,
{
    if from < 0 || from >= text.len() {
        Seq::empty()
    } else {
        let end = position_of(text, '\n', from);
        if from <= end < text.len() {
            seq![without_carriage_return(text.subrange(from, end))] + lines_from(text, end + 1)
        } else {
            seq![text.skip(from)]
        }
    }
}

/// The lines of `text`.
pub open spec fn lines_of(text: Seq<char>) -> Seq<Seq<char>> {
    lines_from(text, 0)
}

/// The first line of `text`, which is empty where `text` is.
pub open spec fn first_line_of(text: Seq<char>) -> Seq<char> {
    if lines_of(text).len() > 0 {
        lines_of(text)[0]
    } else {
        Seq::empty()
    }
}

/// The position found holds the character, and none before it does.
pub proof fn lemma_position_of(text: Seq<char>, c: char, from: int)
    requires
        0 <= from <= text.len(),
    ensures
        from <= position_of(text, c, from) <= text.len(),
        position_of(text, c, from) < text.len() ==> text[position_of(text, c, from)] == c,
        forall|j: int| from <= j < position_of(text, c, from) ==> text[j] != c,
    decreases text.len() - from,
{
    if from < text.len() && text[from] != c {
        lemma_position_of(text, c, from + 1);
    }
}

/// The first position at or after `from` that holds `c`, or the number of characters.
pub fn find_char(text: &Vec<char>, c: char, from: usize) -> (at: usize)
    requires
        from <= text@.len(),
    ensures
        at == position_of(text@, c, from as int),
        from <= at <= text@.len(),
        forall|j: int| from <= j < at ==> text@[j] != c,
{
    let mut at: usize = from;
    while at < text.len() && text[at] != c
        invariant
            from <= at <= text@.len(),
            position_of(text@, c, from as int) == position_of(text@, c, at as int),
        decreases text@.len() - at,
    {
        at += 1;
    }
    proof {
        lemma_position_of(text@, c, from as int);
    }
    at
}

/// Splits `text` into its lines.
pub fn lines(text: &str) -> (lines: Vec<String>)
    ensures
        lines.deep_view() == lines_of(text@),
{
    let t = chars_of(text);
    let mut lines: Vec<String> = Vec::new();
    let mut from: usize = 0;
    while from < t.len()
        invariant
            t@ == text@,
            from <= t@.len(),
            lines_of(t@) == lines.deep_view() + lines_from(t@, from as int),
        decreases t@.len() - from,
    {
        let end = find_char(&t, '\n', from);
        let ghost before = lines.deep_view();
        if end < t.len() {
            let stop: usize = if end > from && t[end - 1] == '\r' {
                end - 1
            } else {
                end
            };
            let line = string_of(&t, from, stop);
            proof {
                assert(line@ =~= without_carriage_return(t@.subrange(from as int, end as int)));
            }
            let ghost rest = lines_from(t@, end + 1);
            let ghost shown = line@;
            lines.push(line);
            proof {
                assert(lines.deep_view() =~= before.push(shown));
                assert(before + (seq![shown] + rest) =~= lines.deep_view() + rest);
            }
            from = end + 1;
        } else {
            let line = string_of(&t, from, end);
            proof {
                assert(line@ =~= t@.skip(from as int));
            }
            let ghost shown = line@;
            lines.push(line);
            proof {
                assert(lines.deep_view() =~= before.push(shown));
                assert(lines_from(t@, end as int) =~= Seq::<Seq<char>>::empty());
                assert(before + seq![shown] =~= lines.deep_view() + lines_from(t@, end as int));
            }
            from = end;
        }
    }
    proof {
        assert(lines.deep_view() + lines_from(t@, from as int) =~= lines.deep_view());
    }
    lines
}

/// The first line of `text`.
pub fn first_line(text: &str) -> (line: String)
    ensures
        line@ == first_line_of(text@),
{
    let t = chars_of(text);
    if t.len() == 0 {
        return String::new();
    }
    let end = find_char(&t, '\n', 0);
    let stop: usize = if 0 < end && end < t.len() && t[end - 1] == '\r' {
        end - 1
    } else {
        end
    };
    let line = string_of(&t, 0, stop);
    proof {
        if end < t@.len() {
            assert(line@ =~= without_carriage_return(t@.subrange(0, end as int)));
        } else {
            assert(line@ =~= t@.skip(0));
        }
    }
    line
}


/// The first position at or after `from` whose character is white space (where `white`)
/// or is not (where not `white`), or the end of the text.
pub open spec fn position_of_white(text: Seq<char>, white: bool, from: int) -> int
    decreases text.len() - from,
{
    if from < 0 || from >= text.len() || is_whitespace(text[from]) == white {
        from
    } else {
        position_of_white(text, white, from + 1)
    }
}

/// The words of `text[from..]`: its longest runs of characters that are not white space.
pub open spec fn words_from(text: Seq<char>, from: int) -> Seq<Seq<char>>
    decreases text.len() - from,
{
    let start = position_of_white(text, false, from);
    let end = position_of_white(text, true, start);
    if from < 0 || !(from <= start < end <= text.len()) {
        Seq::empty()
    } else {
        seq![text.subrange(start, end)] + words_from(text, end)
    }
}

/// The words of `text`.
pub open spec fn words_of(text: Seq<char>) -> Seq<Seq<char>> {
    words_from(text, 0)
}

fn find_white(text: &Vec<char>, white: bool, from: usize) -> (at: usize)
    requires
        from <= text@.len(),
    ensures
        at == position_of_white(text@, white, from as int),
        from <= at <= text@.len(),
        at < text@.len() ==> is_whitespace(text@[at as int]) == white,
{
    let mut at: usize = from;
    while at < text.len()
        invariant
            from <= at <= text@.len(),
            position_of_white(text@, white, from as int) == position_of_white(
                text@,
                white,
                at as int,
            ),
        decreases text@.len() - at,
    {
        if char_is_whitespace(text[at]) == white {
            return at;
        }
        at += 1;
    }
    at
}

/// Splits `text` into its words.
pub fn split_whitespace(text: &str) -> (words: Vec<String>)
    ensures
        words.deep_view() == words_of(text@),
{
    let t = chars_of(text);
    let mut words: Vec<String> = Vec::new();
    let mut from: usize = 0;
    while from < t.len()
        invariant
            t@ == text@,
            from <= t@.len(),
            words_of(t@) == words.deep_view() + words_from(t@, from as int),
        decreases t@.len() - from,
    {
        let start = find_white(&t, false, from);
        if start == t.len() {
            proof {
                assert(words_from(t@, from as int) =~= Seq::<Seq<char>>::empty());
                assert(words.deep_view() + words_from(t@, from as int) =~= words.deep_view());
            }
            return words;
        }
        let end = find_white(&t, true, start);
        proof {
            if end == start {
                assert(is_whitespace(t@[start as int]));
            }
        }
        let word = string_of(&t, start, end);
        let ghost before = words.deep_view();
        let ghost shown = word@;
        words.push(word);
        proof {
            assert(words.deep_view() =~= before.push(shown));
            assert(before + (seq![shown] + words_from(t@, end as int)) =~= words.deep_view()
                + words_from(t@, end as int));
        }
        from = end;
    }
    proof {
        assert(words_from(t@, from as int) =~= Seq::<Seq<char>>::empty());
        assert(words.deep_view() + words_from(t@, from as int) =~= words.deep_view());
    }
    words
}

/// The part of an email address before its first `@`: the whole text where there is none.
pub open spec fn username_of(email: Seq<char>) -> Seq<char> {
    email.take(position_of(email, '@', 0))
}

/// The part of an email address behind its first `@`, if there is one.
pub open spec fn email_domain_of(email: Seq<char>) -> Option<Seq<char>> {
    if position_of(email, '@', 0) < email.len() {
        Some(email.skip(position_of(email, '@', 0) + 1))
    } else {
        None
    }
}

/// Splits an email address at its first `@`.
pub fn split_email(email: &str) -> (parts: (String, Option<String>))
    ensures
        parts.0@ == username_of(email@),
        parts.1 is Some <==> email_domain_of(email@) is Some,
        parts.1 is Some ==> parts.1->0@ == email_domain_of(email@)->0,
{
    let t = chars_of(email);
    let at = find_char(&t, '@', 0);
    let username = string_of(&t, 0, at);
    proof {
        assert(username@ =~= username_of(email@));
    }
    if at < t.len() {
        let domain = string_of(&t, at + 1, t.len());
        proof {
            assert(domain@ =~= t@.skip(at + 1));
        }
        (username, Some(domain))
    } else {
        (username, None)
    }
}

/// The digit that stands for `n`, which is less than ten.
pub open spec fn digit(n: nat) -> char {
    (48 + n) as char
}

/// `n` in decimal digits, without leading zeros.
pub open spec fn decimal_of_nat(n: nat) -> Seq<char>
    decreases n,
{
    if n < 10 {
        seq![digit(n)]
    } else {
        decimal_of_nat(n / 10).push(digit(n % 10))
    }
}

/// `n` in decimal digits, with a minus sign where it is negative.
pub open spec fn decimal_of(n: int) -> Seq<char> {
    if n < 0 {
        seq!['-'] + decimal_of_nat((-n) as nat)
    } else {
        decimal_of_nat(n as nat)
    }
}

fn push_decimal(text: &mut String, n: u64)
    ensures
        final(text)@ == old(text)@ + decimal_of_nat(n as nat),
    decreases n,
{
    let ghost before = text@;
    if n >= 10 {
        push_decimal(text, n / 10);
    }
    let ghost high = text@;
    let last: u8 = (n % 10) as u8;
    text.push((48 + last) as char);
    proof {
        if n >= 10 {
            assert(text@ =~= before + decimal_of_nat((n / 10) as nat).push(
                digit((n % 10) as nat),
            ));
        } else {
            assert(text@ =~= before + seq![digit(n as nat)]);
        }
    }
}

/// Writes `n` in decimal digits.
pub fn decimal(n: i64) -> (text: String)
    ensures
        text@ == decimal_of(n as int),
{
    let mut text = String::new();
    if n < 0 {
        text.push('-');
        let magnitude: u64 = if n == i64::MIN {
            9223372036854775808
        } else {
            (-n) as u64
        };
        push_decimal(&mut text, magnitude);
    } else {
        push_decimal(&mut text, n as u64);
    }
    proof {
        if n < 0 {
            assert(text@ =~= seq!['-'] + decimal_of_nat((-n) as nat));
        } else {
            assert(text@ =~= decimal_of_nat(n as nat));
        }
    }
    text
}


/// The last character boundary at or before position `p` of the encoded text `bytes`.
pub open spec fn boundary_at_or_before(bytes: Seq<u8>, p: int) -> int
    decreases p,
{
    if p <= 0 {
        0
    } else if is_char_boundary(bytes, p) {
        p
    } else {
        boundary_at_or_before(bytes, p - 1)
    }
}

/// The first character boundary at or behind position `p` of the encoded text `bytes`.
pub open spec fn boundary_at_or_after(bytes: Seq<u8>, p: int) -> int
    decreases bytes.len() - p,
{
    if p >= bytes.len() {
        bytes.len() as int
    } else if is_char_boundary(bytes, p) {
        p
    } else {
        boundary_at_or_after(bytes, p + 1)
    }
}

/// The byte position that index `i` stands for in `text`. A negative index counts from
/// the end. The index is clamped to the text, and one that falls inside a character is
/// rounded towards zero: to the left where it counts from the start, to the right where
/// it counts from the end.
pub open spec fn char_boundary_of_index(text: Seq<char>, i: int) -> int {
    let bytes = encode_utf8(text);
    if i < 0 {
        boundary_at_or_after(
            bytes,
            if bytes.len() + i < 0 {
                0
            } else {
                bytes.len() + i
            },
        )
    } else {
        boundary_at_or_before(
            bytes,
            if i < bytes.len() {
                i
            } else {
                bytes.len() as int
            },
        )
    }
}

/// The part of `text` between two indices, each taken to its byte position as
/// [`char_boundary_of_index`] says. It is empty where the second comes before the first.
pub open spec fn substring(text: Seq<char>, start: int, end: int) -> Seq<char> {
    let from = char_boundary_of_index(text, start);
    let to = char_boundary_of_index(text, end);
    if from <= to {
        decode_utf8(encode_utf8(text).subrange(from, to))
    } else {
        Seq::empty()
    }
}

/// Rounding down finds a boundary with no other between it and the position.
pub proof fn lemma_boundary_at_or_before(bytes: Seq<u8>, p: int)
    requires
        valid_utf8(bytes),
        0 <= p <= bytes.len(),
    ensures
        0 <= boundary_at_or_before(bytes, p) <= p,
        is_char_boundary(bytes, boundary_at_or_before(bytes, p)),
        forall|q: int| boundary_at_or_before(bytes, p) < q <= p ==> !is_char_boundary(bytes, q),
    decreases p,
{
    if p > 0 && !is_char_boundary(bytes, p) {
        lemma_boundary_at_or_before(bytes, p - 1);
    }
}

/// Rounding up finds a boundary with no other between it and the position.
pub proof fn lemma_boundary_at_or_after(bytes: Seq<u8>, p: int)
    requires
        valid_utf8(bytes),
        0 <= p <= bytes.len(),
    ensures
        p <= boundary_at_or_after(bytes, p) <= bytes.len(),
        is_char_boundary(bytes, boundary_at_or_after(bytes, p)),
        forall|q: int| p <= q < boundary_at_or_after(bytes, p) ==> !is_char_boundary(bytes, q),
    decreases bytes.len() - p,
{
    is_char_boundary_start_end_of_seq(bytes);
    if p < bytes.len() && !is_char_boundary(bytes, p) {
        lemma_boundary_at_or_after(bytes, p + 1);
    }
}

/// Every index stands for a character boundary of the text.
pub proof fn lemma_index_is_boundary(text: Seq<char>, i: int)
    ensures
        0 <= char_boundary_of_index(text, i) <= encode_utf8(text).len(),
        is_char_boundary(encode_utf8(text), char_boundary_of_index(text, i)),
{
    let bytes = encode_utf8(text);
    encode_utf8_valid_utf8(text);
    if i < 0 {
        let p = if bytes.len() + i < 0 {
            0
        } else {
            bytes.len() + i
        };
        lemma_boundary_at_or_after(bytes, p);
    } else {
        let p = if i < bytes.len() {
            i
        } else {
            bytes.len() as int
        };
        lemma_boundary_at_or_before(bytes, p);
    }
}

/// Clamps and aligns the given index `i` to a character boundary.
///
/// A negative index counts from the end. If the index is not at a character boundary, it
/// is rounded towards 0 (left or right depending on the sign).
pub fn string_index_to_char_boundary(s: &str, i: isize) -> (p: usize)
    ensures
        p == char_boundary_of_index(s@, i as int),
        p <= s.spec_bytes().len(),
        is_char_boundary(s.spec_bytes(), p as int),
{
    let size: usize = s.as_bytes().len();
    proof {
        lemma_index_is_boundary(s@, i as int);
        encode_utf8_valid_utf8(s@);
        is_char_boundary_start_end_of_seq(s.spec_bytes());
    }
    if i < 0 {
        let back: usize = (-(i + 1)) as usize;
        let mut p: usize = if back < size {
            size - 1 - back
        } else {
            0
        };
        while p < size && !s.is_char_boundary(p)
            invariant
                size == s.spec_bytes().len(),
                p <= size,
                boundary_at_or_after(s.spec_bytes(), p as int) == char_boundary_of_index(
                    s@,
                    i as int,
                ),
            decreases size - p,
        {
            p += 1;
        }
        p
    } else {
        let mut p: usize = if (i as usize) < size {
            i as usize
        } else {
            size
        };
        while p > 0 && !s.is_char_boundary(p)
            invariant
                size == s.spec_bytes().len(),
                p <= size,
                boundary_at_or_before(s.spec_bytes(), p as int) == char_boundary_of_index(
                    s@,
                    i as int,
                ),
            decreases p,
        {
            p -= 1;
        }
        p
    }
}

/// A boundary of the encoded text is a boundary of each of its parts that holds it.
proof fn lemma_boundary_in_prefix(bytes: Seq<u8>, from: int, to: int)
    requires
        valid_utf8(bytes),
        0 <= from <= to <= bytes.len(),
        is_char_boundary(bytes, from),
        is_char_boundary(bytes, to),
    ensures
        valid_utf8(bytes.subrange(0, to)),
        is_char_boundary(bytes.subrange(0, to), from),
{
    let prefix = bytes.subrange(0, to);
    valid_utf8_split(bytes, to);
    is_char_boundary_start_end_of_seq(prefix);
    if from < to {
        is_char_boundary_iff_not_is_continuation_byte(bytes, from);
        is_char_boundary_iff_not_is_continuation_byte(prefix, from);
        assert(prefix[from] == bytes[from]);
    }
}

/// The part of `s` from index `start` to index `end`.
pub fn substr(s: &str, start: isize, end: isize) -> (part: String)
    ensures
        part@ == substring(s@, start as int, end as int),
{
    let from = string_index_to_char_boundary(s, start);
    let to = string_index_to_char_boundary(s, end);
    if from > to {
        return String::new();
    }
    proof {
        encode_utf8_valid_utf8(s@);
        lemma_boundary_in_prefix(s.spec_bytes(), from as int, to as int);
    }
    let (head, _) = s.split_at(to);
    let (_, part) = head.split_at(from);
    proof {
        assert(part.spec_bytes() =~= s.spec_bytes().subrange(from as int, to as int));
        encode_utf8_decode_utf8(part@);
    }
    part.to_owned()
}

}
