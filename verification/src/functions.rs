//! The functions that expressions apply to values.
use vstd::prelude::*;
use vstd::string::*;
use vstd::utf8::*;

use crate::property::{outcome, PropertyFunction, TemplatePropertyError, ValueFn};
use crate::text::{
    begins_with, contains, contains_text, ends_with, finishes_with, first_line, first_line_of,
    lines, lines_of, lowercase, remove_prefix, remove_suffix, split_email, split_whitespace,
    starts_with, substr, substring, to_lowercase, to_uppercase, uppercase, username_of,
    without_prefix, without_suffix, words_of,
};
use crate::time::{
    ago_text, format_absolute_timestamp_with, format_duration, range_text, timestamp_text,
    FormattingItems, Signature, SignatureView, SmallestUnit, Timestamp, TimestampRange,
};

verus! {

/// What is said of an integer that does not fit.
pub open spec fn does_not_fit() -> Seq<char> {
    "out of range integral type conversion attempted"@
}

fn does_not_fit_error() -> (error: TemplatePropertyError)
    ensures
        error.0@ == does_not_fit(),
{
    TemplatePropertyError("out of range integral type conversion attempted".to_owned())
}

/// The opposite of a boolean.
pub open spec fn logical_not() -> ValueFn<bool, bool> {
    |value: bool| Ok(!value)
}

/// Gives the opposite of a boolean.
pub struct LogicalNot;

impl PropertyFunction<bool, bool> for LogicalNot {
    open spec fn result(&self) -> ValueFn<bool, bool> {
        logical_not()
    }

    fn apply(&self, input: bool) -> (result: Result<bool, TemplatePropertyError>) {
        Ok(!input)
    }
}

/// Whether one of two booleans holds.
pub open spec fn logical_or() -> ValueFn<(bool, bool), bool> {
    |values: (bool, bool)| Ok(values.0 || values.1)
}

/// Tells whether one of two booleans holds.
pub struct LogicalOr;

impl PropertyFunction<(bool, bool), bool> for LogicalOr {
    open spec fn result(&self) -> ValueFn<(bool, bool), bool> {
        logical_or()
    }

    fn apply(&self, input: (bool, bool)) -> (result: Result<bool, TemplatePropertyError>) {
        Ok(input.0 || input.1)
    }
}

/// Whether both of two booleans hold.
pub open spec fn logical_and() -> ValueFn<(bool, bool), bool> {
    |values: (bool, bool)| Ok(values.0 && values.1)
}

/// Tells whether both of two booleans hold.
pub struct LogicalAnd;

impl PropertyFunction<(bool, bool), bool> for LogicalAnd {
    open spec fn result(&self) -> ValueFn<(bool, bool), bool> {
        logical_and()
    }

    fn apply(&self, input: (bool, bool)) -> (result: Result<bool, TemplatePropertyError>) {
        Ok(input.0 && input.1)
    }
}

/// The integer of the other sign, if it fits.
pub open spec fn negation() -> ValueFn<i64, i64> {
    |value: i64|
        if value == i64::MIN {
            Err("Attempt to negate with overflow"@)
        } else {
            Ok((-value) as i64)
        }
}

/// Gives the integer of the other sign.
pub struct Negation;

impl PropertyFunction<i64, i64> for Negation {
    open spec fn result(&self) -> ValueFn<i64, i64> {
        negation()
    }

    fn apply(&self, input: i64) -> (result: Result<i64, TemplatePropertyError>) {
        if input == i64::MIN {
            Err(TemplatePropertyError("Attempt to negate with overflow".to_owned()))
        } else {
            Ok(-input)
        }
    }
}

/// The integer as one of type `isize`, if it fits.
pub open spec fn as_isize() -> ValueFn<i64, isize> {
    |value: i64|
        if isize::MIN <= value <= isize::MAX {
            Ok(value as isize)
        } else {
            Err(does_not_fit())
        }
}

/// Gives the integer as one of type `isize`.
pub struct ToIsize;

impl PropertyFunction<i64, isize> for ToIsize {
    open spec fn result(&self) -> ValueFn<i64, isize> {
        as_isize()
    }

    fn apply(&self, input: i64) -> (result: Result<isize, TemplatePropertyError>) {
        if isize::MIN as i64 <= input && input <= isize::MAX as i64 {
            Ok(input as isize)
        } else {
            Err(does_not_fit_error())
        }
    }
}

/// The integer as one of type `usize`, if it fits.
pub open spec fn as_usize() -> ValueFn<i64, usize> {
    |value: i64|
        if usize::MIN <= value <= usize::MAX {
            Ok(value as usize)
        } else {
            Err(does_not_fit())
        }
}

/// Gives the integer as one of type `usize`.
pub struct ToUsize;

impl PropertyFunction<i64, usize> for ToUsize {
    open spec fn result(&self) -> ValueFn<i64, usize> {
        as_usize()
    }

    fn apply(&self, input: i64) -> (result: Result<usize, TemplatePropertyError>) {
        if input >= 0 && input as u64 <= usize::MAX as u64 {
            Ok(input as usize)
        } else {
            Err(does_not_fit_error())
        }
    }
}

/// The words of a text.
pub open spec fn words() -> ValueFn<Seq<char>, Seq<Seq<char>>> {
    |text: Seq<char>| Ok(words_of(text))
}

/// Gives the words of a text.
pub struct Words;

impl PropertyFunction<String, Vec<String>> for Words {
    open spec fn result(&self) -> ValueFn<Seq<char>, Seq<Seq<char>>> {
        words()
    }

    fn apply(&self, input: String) -> (result: Result<Vec<String>, TemplatePropertyError>) {
        Ok(split_whitespace(input.as_str()))
    }
}

/// A length as an integer, if it fits.
pub open spec fn length_as_integer(length: int) -> Result<i64, Seq<char>> {
    if length <= i64::MAX {
        Ok(length as i64)
    } else {
        Err(does_not_fit())
    }
}

fn integer_from_length(length: usize) -> (result: Result<i64, TemplatePropertyError>)
    ensures
        outcome(result) == length_as_integer(length as int),
{
    if length as u64 <= i64::MAX as u64 {
        Ok(length as i64)
    } else {
        Err(does_not_fit_error())
    }
}

/// How many items a list has.
pub open spec fn list_length<T>() -> ValueFn<Seq<T>, i64> {
    |items: Seq<T>| length_as_integer(items.len() as int)
}

/// Counts the items of a list.
pub struct ListLength;

impl<T: DeepView> PropertyFunction<Vec<T>, i64> for ListLength {
    open spec fn result(&self) -> ValueFn<Seq<T::V>, i64> {
        list_length()
    }

    fn apply(&self, input: Vec<T>) -> (result: Result<i64, TemplatePropertyError>) {
        integer_from_length(input.len())
    }
}

/// How many bytes a text has.
pub open spec fn text_length() -> ValueFn<Seq<char>, i64> {
    |text: Seq<char>| length_as_integer(encode_utf8(text).len() as int)
}

/// Counts the bytes of a text.
#[derive(Clone, Copy)]
pub struct TextLength;

impl PropertyFunction<String, i64> for TextLength {
    open spec fn result(&self) -> ValueFn<Seq<char>, i64> {
        text_length()
    }

    fn apply(&self, input: String) -> (result: Result<i64, TemplatePropertyError>) {
        integer_from_length(input.as_str().as_bytes().len())
    }
}

/// Whether the first text contains the second.
pub open spec fn text_contains() -> ValueFn<(Seq<char>, Seq<char>), bool> {
    |texts: (Seq<char>, Seq<char>)| Ok(contains_text(texts.0, texts.1))
}

/// Tells whether a text contains another.
#[derive(Clone, Copy)]
pub struct TextContains;

impl PropertyFunction<(String, String), bool> for TextContains {
    open spec fn result(&self) -> ValueFn<(Seq<char>, Seq<char>), bool> {
        text_contains()
    }

    fn apply(&self, input: (String, String)) -> (result: Result<bool, TemplatePropertyError>) {
        Ok(contains(input.0.as_str(), input.1.as_str()))
    }
}

/// Whether the first text starts with the second.
pub open spec fn text_starts_with() -> ValueFn<(Seq<char>, Seq<char>), bool> {
    |texts: (Seq<char>, Seq<char>)| Ok(begins_with(texts.0, texts.1))
}

/// Tells whether a text starts with another.
#[derive(Clone, Copy)]
pub struct TextStartsWith;

impl PropertyFunction<(String, String), bool> for TextStartsWith {
    open spec fn result(&self) -> ValueFn<(Seq<char>, Seq<char>), bool> {
        text_starts_with()
    }

    fn apply(&self, input: (String, String)) -> (result: Result<bool, TemplatePropertyError>) {
        Ok(starts_with(input.0.as_str(), input.1.as_str()))
    }
}

/// Whether the first text ends with the second.
pub open spec fn text_ends_with() -> ValueFn<(Seq<char>, Seq<char>), bool> {
    |texts: (Seq<char>, Seq<char>)| Ok(finishes_with(texts.0, texts.1))
}

/// Tells whether a text ends with another.
#[derive(Clone, Copy)]
pub struct TextEndsWith;

impl PropertyFunction<(String, String), bool> for TextEndsWith {
    open spec fn result(&self) -> ValueFn<(Seq<char>, Seq<char>), bool> {
        text_ends_with()
    }

    fn apply(&self, input: (String, String)) -> (result: Result<bool, TemplatePropertyError>) {
        Ok(ends_with(input.0.as_str(), input.1.as_str()))
    }
}

/// The first text without the second at its start.
pub open spec fn text_without_prefix() -> ValueFn<(Seq<char>, Seq<char>), Seq<char>> {
    |texts: (Seq<char>, Seq<char>)| Ok(without_prefix(texts.0, texts.1))
}

/// Takes a prefix from a text.
#[derive(Clone, Copy)]
pub struct TextWithoutPrefix;

impl PropertyFunction<(String, String), String> for TextWithoutPrefix {
    open spec fn result(&self) -> ValueFn<(Seq<char>, Seq<char>), Seq<char>> {
        text_without_prefix()
    }

    fn apply(&self, input: (String, String)) -> (result: Result<String, TemplatePropertyError>) {
        Ok(remove_prefix(input.0.as_str(), input.1.as_str()))
    }
}

/// The first text without the second at its end.
pub open spec fn text_without_suffix() -> ValueFn<(Seq<char>, Seq<char>), Seq<char>> {
    |texts: (Seq<char>, Seq<char>)| Ok(without_suffix(texts.0, texts.1))
}

/// Takes a suffix from a text.
#[derive(Clone, Copy)]
pub struct TextWithoutSuffix;

impl PropertyFunction<(String, String), String> for TextWithoutSuffix {
    open spec fn result(&self) -> ValueFn<(Seq<char>, Seq<char>), Seq<char>> {
        text_without_suffix()
    }

    fn apply(&self, input: (String, String)) -> (result: Result<String, TemplatePropertyError>) {
        Ok(remove_suffix(input.0.as_str(), input.1.as_str()))
    }
}

/// The part of a text between two indices.
pub open spec fn text_part() -> ValueFn<((Seq<char>, isize), isize), Seq<char>> {
    |parts: ((Seq<char>, isize), isize)|
        Ok(substring(parts.0.0, parts.0.1 as int, parts.1 as int))
}

/// Takes a part of a text.
#[derive(Clone, Copy)]
pub struct TextPart;

impl PropertyFunction<((String, isize), isize), String> for TextPart {
    open spec fn result(&self) -> ValueFn<((Seq<char>, isize), isize), Seq<char>> {
        text_part()
    }

    fn apply(&self, input: ((String, isize), isize)) -> (result: Result<
        String,
        TemplatePropertyError,
    >) {
        let ((text, start), end) = input;
        Ok(substr(text.as_str(), start, end))
    }
}

/// The first line of a text.
pub open spec fn text_first_line() -> ValueFn<Seq<char>, Seq<char>> {
    |text: Seq<char>| Ok(first_line_of(text))
}

/// Gives the first line of a text.
#[derive(Clone, Copy)]
pub struct TextFirstLine;

impl PropertyFunction<String, String> for TextFirstLine {
    open spec fn result(&self) -> ValueFn<Seq<char>, Seq<char>> {
        text_first_line()
    }

    fn apply(&self, input: String) -> (result: Result<String, TemplatePropertyError>) {
        Ok(first_line(input.as_str()))
    }
}

/// The lines of a text.
pub open spec fn text_lines() -> ValueFn<Seq<char>, Seq<Seq<char>>> {
    |text: Seq<char>| Ok(lines_of(text))
}

/// Gives the lines of a text.
#[derive(Clone, Copy)]
pub struct TextLines;

impl PropertyFunction<String, Vec<String>> for TextLines {
    open spec fn result(&self) -> ValueFn<Seq<char>, Seq<Seq<char>>> {
        text_lines()
    }

    fn apply(&self, input: String) -> (result: Result<Vec<String>, TemplatePropertyError>) {
        Ok(lines(input.as_str()))
    }
}

/// A text in upper case.
pub open spec fn text_upper() -> ValueFn<Seq<char>, Seq<char>> {
    |text: Seq<char>| Ok(uppercase(text))
}

/// Puts a text in upper case.
#[derive(Clone, Copy)]
pub struct TextUpper;

impl PropertyFunction<String, String> for TextUpper {
    open spec fn result(&self) -> ValueFn<Seq<char>, Seq<char>> {
        text_upper()
    }

    fn apply(&self, input: String) -> (result: Result<String, TemplatePropertyError>) {
        Ok(to_uppercase(input.as_str()))
    }
}

/// A text in lower case.
pub open spec fn text_lower() -> ValueFn<Seq<char>, Seq<char>> {
    |text: Seq<char>| Ok(lowercase(text))
}

/// Puts a text in lower case.
#[derive(Clone, Copy)]
pub struct TextLower;

impl PropertyFunction<String, String> for TextLower {
    open spec fn result(&self) -> ValueFn<Seq<char>, Seq<char>> {
        text_lower()
    }

    fn apply(&self, input: String) -> (result: Result<String, TemplatePropertyError>) {
        Ok(to_lowercase(input.as_str()))
    }
}

/// The name in a signature.
pub open spec fn signature_name() -> ValueFn<SignatureView, Seq<char>> {
    |signature: SignatureView| Ok(signature.name)
}

/// Gives the name in a signature.
#[derive(Clone, Copy)]
pub struct SignatureName;

impl PropertyFunction<Signature, String> for SignatureName {
    open spec fn result(&self) -> ValueFn<SignatureView, Seq<char>> {
        signature_name()
    }

    fn apply(&self, input: Signature) -> (result: Result<String, TemplatePropertyError>) {
        Ok(input.name)
    }
}

/// The address in a signature.
pub open spec fn signature_email() -> ValueFn<SignatureView, Seq<char>> {
    |signature: SignatureView| Ok(signature.email)
}

/// Gives the address in a signature.
#[derive(Clone, Copy)]
pub struct SignatureEmail;

impl PropertyFunction<Signature, String> for SignatureEmail {
    open spec fn result(&self) -> ValueFn<SignatureView, Seq<char>> {
        signature_email()
    }

    fn apply(&self, input: Signature) -> (result: Result<String, TemplatePropertyError>) {
        Ok(input.email)
    }
}

/// The part of the address before the first `@`.
pub open spec fn signature_username() -> ValueFn<SignatureView, Seq<char>> {
    |signature: SignatureView| Ok(username_of(signature.email))
}

/// Gives the part of the address before the first `@`.
#[derive(Clone, Copy)]
pub struct SignatureUsername;

impl PropertyFunction<Signature, String> for SignatureUsername {
    open spec fn result(&self) -> ValueFn<SignatureView, Seq<char>> {
        signature_username()
    }

    fn apply(&self, input: Signature) -> (result: Result<String, TemplatePropertyError>) {
        let (username, _) = split_email(input.email.as_str());
        Ok(username)
    }
}

/// The timestamp in a signature.
pub open spec fn signature_timestamp() -> ValueFn<SignatureView, Timestamp> {
    |signature: SignatureView| Ok(signature.timestamp)
}

/// Gives the timestamp in a signature.
#[derive(Clone, Copy)]
pub struct SignatureTimestamp;

impl PropertyFunction<Signature, Timestamp> for SignatureTimestamp {
    open spec fn result(&self) -> ValueFn<SignatureView, Timestamp> {
        signature_timestamp()
    }

    fn apply(&self, input: Signature) -> (result: Result<Timestamp, TemplatePropertyError>) {
        Ok(input.timestamp)
    }
}

/// How long ago a timestamp was.
pub open spec fn timestamp_ago(now: Timestamp) -> ValueFn<Timestamp, Seq<char>> {
    |timestamp: Timestamp| ago_text(timestamp, now)
}

/// Tells how long ago a timestamp was.
#[derive(Clone, Copy)]
pub struct TimestampAgo {
    pub now: Timestamp,
}

impl PropertyFunction<Timestamp, String> for TimestampAgo {
    open spec fn result(&self) -> ValueFn<Timestamp, Seq<char>> {
        timestamp_ago(self.now)
    }

    fn apply(&self, input: Timestamp) -> (result: Result<String, TemplatePropertyError>) {
        format_duration(&input, &self.now, SmallestUnit::Seconds, "ago")
    }
}

/// A timestamp in the given format.
pub open spec fn timestamp_formatted(format: Seq<char>) -> ValueFn<Timestamp, Seq<char>> {
    |timestamp: Timestamp| timestamp_text(timestamp, format)
}

/// Shows a timestamp in a format.
pub struct TimestampFormatted {
    pub format: FormattingItems,
}

impl PropertyFunction<Timestamp, String> for TimestampFormatted {
    open spec fn result(&self) -> ValueFn<Timestamp, Seq<char>> {
        timestamp_formatted(self.format.view())
    }

    fn apply(&self, input: Timestamp) -> (result: Result<String, TemplatePropertyError>) {
        format_absolute_timestamp_with(&input, &self.format)
    }
}

/// The same instant, at another offset from UTC.
pub open spec fn timestamp_in_zone(tz_offset: i32) -> ValueFn<Timestamp, Timestamp> {
    |timestamp: Timestamp| Ok(Timestamp { timestamp: timestamp.timestamp, tz_offset })
}

/// Moves a timestamp to another offset from UTC.
#[derive(Clone, Copy)]
pub struct TimestampInZone {
    pub tz_offset: i32,
}

impl PropertyFunction<Timestamp, Timestamp> for TimestampInZone {
    open spec fn result(&self) -> ValueFn<Timestamp, Timestamp> {
        timestamp_in_zone(self.tz_offset)
    }

    fn apply(&self, input: Timestamp) -> (result: Result<Timestamp, TemplatePropertyError>) {
        Ok(Timestamp { timestamp: input.timestamp, tz_offset: self.tz_offset })
    }
}

/// The start of a range.
pub open spec fn range_start() -> ValueFn<TimestampRange, Timestamp> {
    |range: TimestampRange| Ok(range.start)
}

/// Gives the start of a range.
#[derive(Clone, Copy)]
pub struct RangeStart;

impl PropertyFunction<TimestampRange, Timestamp> for RangeStart {
    open spec fn result(&self) -> ValueFn<TimestampRange, Timestamp> {
        range_start()
    }

    fn apply(&self, input: TimestampRange) -> (result: Result<Timestamp, TemplatePropertyError>) {
        Ok(input.start)
    }
}

/// The end of a range.
pub open spec fn range_end() -> ValueFn<TimestampRange, Timestamp> {
    |range: TimestampRange| Ok(range.end)
}

/// Gives the end of a range.
#[derive(Clone, Copy)]
pub struct RangeEnd;

impl PropertyFunction<TimestampRange, Timestamp> for RangeEnd {
    open spec fn result(&self) -> ValueFn<TimestampRange, Timestamp> {
        range_end()
    }

    fn apply(&self, input: TimestampRange) -> (result: Result<Timestamp, TemplatePropertyError>) {
        Ok(input.end)
    }
}

/// How long a range is.
pub open spec fn range_duration() -> ValueFn<TimestampRange, Seq<char>> {
    |range: TimestampRange| range_text(range)
}

/// Tells how long a range is.
#[derive(Clone, Copy)]
pub struct RangeDuration;

impl PropertyFunction<TimestampRange, String> for RangeDuration {
    open spec fn result(&self) -> ValueFn<TimestampRange, Seq<char>> {
        range_duration()
    }

    fn apply(&self, input: TimestampRange) -> (result: Result<String, TemplatePropertyError>) {
        input.duration()
    }
}

}
