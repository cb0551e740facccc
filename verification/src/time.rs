//! Points in time and how they are shown.
use vstd::prelude::*;

use crate::property::{outcome, Duplicate, TemplatePropertyError};
use crate::text::same_text;

verus! {

/// Milliseconds since the start of 1970, in UTC.
#[derive(Clone, Copy, Debug, PartialEq, Eq, Structural)]
pub struct MillisSinceEpoch(pub i64);

/// A point in time, and how far the local time there is from UTC, in minutes.
#[derive(Clone, Copy, Debug, PartialEq, Eq, Structural)]
pub struct Timestamp {
    pub timestamp: MillisSinceEpoch,
    pub tz_offset: i32,
}

/// Two points in time.
#[derive(Clone, Copy, Debug, PartialEq, Eq, Structural)]
pub struct TimestampRange {
    pub start: Timestamp,
    pub end: Timestamp,
}

/// Who did something, and when.
#[derive(Debug)]
pub struct Signature {
    pub name: String,
    pub email: String,
    pub timestamp: Timestamp,
}

/// What a [`Signature`] says.
pub struct SignatureView {
    pub name: Seq<char>,
    pub email: Seq<char>,
    pub timestamp: Timestamp,
}

impl DeepView for Timestamp {
    type V = Timestamp;

    open spec fn deep_view(&self) -> Timestamp {
        *self
    }
}

impl DeepView for TimestampRange {
    type V = TimestampRange;

    open spec fn deep_view(&self) -> TimestampRange {
        *self
    }
}

impl DeepView for Signature {
    type V = SignatureView;

    open spec fn deep_view(&self) -> SignatureView {
        SignatureView { name: self.name@, email: self.email@, timestamp: self.timestamp }
    }
}

impl Duplicate for Timestamp {
    fn duplicate(&self) -> (copy: Timestamp) {
        *self
    }
}

impl Duplicate for TimestampRange {
    fn duplicate(&self) -> (copy: TimestampRange) {
        *self
    }
}

impl Duplicate for Signature {
    fn duplicate(&self) -> (copy: Signature) {
        Signature {
            name: self.name.clone(),
            email: self.email.clone(),
            timestamp: self.timestamp,
        }
    }
}

/// Whether there is a date for this many milliseconds since the start of 1970: the years
/// from -262143 to 262142 have dates.
pub open spec fn representable(millis: int) -> bool {
    -8_334_601_228_800_000 <= millis <= 8_210_266_876_799_999
}

/// Calls `chrono::DateTime::from_timestamp_millis`, which gives a date for the milliseconds
/// from the start of the year -262143 to the end of the year 262142, and no other.
#[verifier::external_body]
fn is_representable(millis: i64) -> (found: bool)
    ensures
        found == representable(millis as int),
{
    chrono::DateTime::from_timestamp_millis(millis).is_some()
}

/// Whether chrono's `strftime` syntax admits `format`.
pub uninterp spec fn is_time_format(format: Seq<char>) -> bool;

/// The format in which a timestamp is shown where none is given.
pub open spec fn default_format() -> Seq<char> {
    "%Y-%m-%d %H:%M:%S.%3f %:z"@
}

/// Calls `chrono::format::StrftimeItems::parse`, which tells whether each item of `format` is
/// one that the syntax has. This depends on the text alone, and holds of the default format.
#[verifier::external_body]
fn parses_as_time_format(format: &str) -> (valid: bool)
    ensures
        valid == is_time_format(format@),
        format@ == default_format() ==> valid,
{
    chrono::format::StrftimeItems::new(format).parse().is_ok()
}

/// The text that chrono gives for a date under a `strftime` format, with the local time
/// `offset` seconds ahead of UTC. There is none for a format with an item that can only be
/// read, such as `%#z`.
pub uninterp spec fn formatted_datetime(
    millis: i64,
    offset: i32,
    format: Seq<char>,
) -> Option<Seq<char>>;

/// Calls `chrono::DateTime::format` on the date for `millis`, moved to a fixed offset from
/// UTC, and `chrono::format::DelayedFormat::write_to` on what that gives. Both the text and
/// whether there is one depend on the three arguments alone. There is one for the default
/// format.
#[verifier::external_body]
fn format_datetime(millis: i64, offset: i32, format: &str) -> (text: Option<String>)
    requires
        representable(millis as int),
        -86_400 < offset < 86_400,
        is_time_format(format@),
    ensures
        match text {
            Some(text) => formatted_datetime(millis, offset, format@) == Some(text@),
            None => formatted_datetime(millis, offset, format@) is None,
        },
        format@ == default_format() ==> text is Some,
{
    let utc = chrono::DateTime::from_timestamp_millis(millis).unwrap();
    let zone = chrono::FixedOffset::east_opt(offset).unwrap();
    let mut text = String::new();
    match utc.with_timezone(&zone).format(format).write_to(&mut text) {
        Ok(()) => Some(text),
        Err(_) => None,
    }
}

/// The smallest unit in which a duration is told.
#[derive(Clone, Copy, Debug, PartialEq, Eq, Structural)]
pub enum SmallestUnit {
    Seconds,
    Microseconds,
}

/// The text that timeago gives for a duration, in units no smaller than `unit`, with `ago`
/// behind it.
pub uninterp spec fn approximate_duration(
    unit: SmallestUnit,
    ago: Seq<char>,
    millis: u64,
) -> Seq<char>;

/// Calls `timeago::Formatter::convert` with the given smallest unit and the given word for
/// "ago". The text depends on the three arguments alone.
#[verifier::external_body]
fn convert_duration(unit: SmallestUnit, ago: &'static str, millis: u64) -> (text: String)
    ensures
        text@ == approximate_duration(unit, ago@, millis),
{
    let mut formatter = timeago::Formatter::new();
    formatter.ago(ago).min_unit(match unit {
        SmallestUnit::Seconds => timeago::TimeUnit::Seconds,
        SmallestUnit::Microseconds => timeago::TimeUnit::Microseconds,
    });
    formatter.convert(std::time::Duration::from_millis(millis))
}

/// Calls `chrono::Local::now`, and gives the milliseconds since the start of 1970 and how far
/// the local time is ahead of UTC, in seconds. The time has a date, as every time has that
/// chrono gives, and the offset is less than a day either way. Nothing more is said of the
/// time. The call panics if the system's clock is set before 1970, or if the system's time
/// zone data gives no usable offset for the time.
#[verifier::external_body]
fn local_now() -> (now: (i64, i32))
    ensures
        representable(now.0 as int),
        -86_400 < now.1 < 86_400,
{
    let now = chrono::Local::now();
    (now.timestamp_millis(), now.offset().local_minus_utc())
}

/// Whether this can be the present: it has a date, and an offset of less than a day.
pub open spec fn is_present(now: Timestamp) -> bool {
    representable(now.timestamp.0 as int) && -1440 < now.tz_offset < 1440
}

/// Whole minutes in `seconds`, rounded towards zero.
pub open spec fn whole_minutes(seconds: int) -> int {
    if seconds >= 0 {
        seconds / 60
    } else {
        -((-seconds) / 60)
    }
}

/// The offset from UTC in seconds, for one that is given in minutes. One of a day or more
/// counts as none.
pub open spec fn zone_offset(tz_offset: int) -> int {
    if -1440 < tz_offset < 1440 {
        tz_offset * 60
    } else {
        0
    }
}

/// What is said of a timestamp that has no date.
pub open spec fn out_of_range() -> Seq<char> {
    "Out-of-range date"@
}

/// What is said of a format that nothing can be shown in.
pub open spec fn unusable_format() -> Seq<char> {
    "Invalid time format"@
}

/// The timestamp in the given format, if it has a date and can be shown in that format.
pub open spec fn timestamp_text(timestamp: Timestamp, format: Seq<char>) -> Result<
    Seq<char>,
    Seq<char>,
> {
    if representable(timestamp.timestamp.0 as int) {
        match formatted_datetime(
            timestamp.timestamp.0,
            zone_offset(timestamp.tz_offset as int) as i32,
            format,
        ) {
            Some(text) => Ok(text),
            None => Err(unusable_format()),
        }
    } else {
        Err(out_of_range())
    }
}

/// The time from `from` to `to`, if both have dates and `to` is not the earlier one.
pub open spec fn duration_text(
    from: Timestamp,
    to: Timestamp,
    unit: SmallestUnit,
    ago: Seq<char>,
) -> Result<Seq<char>, Seq<char>> {
    if representable(from.timestamp.0 as int) && representable(to.timestamp.0 as int)
        && from.timestamp.0 <= to.timestamp.0 {
        Ok(approximate_duration(unit, ago, (to.timestamp.0 - from.timestamp.0) as u64))
    } else {
        Err(out_of_range())
    }
}

/// How long ago `timestamp` was, as seen from `now`.
pub open spec fn ago_text(timestamp: Timestamp, now: Timestamp) -> Result<Seq<char>, Seq<char>> {
    duration_text(timestamp, now, SmallestUnit::Seconds, "ago"@)
}

/// How long the range is. timeago calls a duration that is too short for it "now".
pub open spec fn range_text(range: TimestampRange) -> Result<Seq<char>, Seq<char>> {
    match duration_text(range.start, range.end, SmallestUnit::Microseconds, ""@) {
        Ok(text) => Ok(
            if text == "now"@ {
                "less than a microsecond"@
            } else {
                text
            },
        ),
        Err(message) => Err(message),
    }
}

/// What there is to say of a timestamp that has no date.
fn out_of_range_error() -> (error: TemplatePropertyError)
    ensures
        error.0@ == out_of_range(),
{
    TemplatePropertyError("Out-of-range date".to_owned())
}

/// A time format that chrono admits. Not every such format can be written.
#[derive(Debug)]
pub struct FormattingItems {
    format: String,
}

impl FormattingItems {
    #[verifier::type_invariant]
    spec fn is_valid(&self) -> bool {
        is_time_format(self.format@)
    }

    /// The format.
    pub closed spec fn view(&self) -> Seq<char> {
        self.format@
    }

    /// Takes `format` if it is a time format.
    pub fn parse(format: &str) -> (items: Option<FormattingItems>)
        ensures
            items is Some == is_time_format(format@),
            items matches Some(items) ==> items.view() == format@,
            format@ == default_format() ==> items is Some,
    {
        if parses_as_time_format(format) {
            Some(FormattingItems { format: format.to_owned() })
        } else {
            None
        }
    }
}

/// The offset from UTC in seconds that a timestamp is shown with.
fn zone_offset_of(timestamp: &Timestamp) -> (offset: i32)
    ensures
        offset == zone_offset(timestamp.tz_offset as int),
        -86_400 < offset < 86_400,
{
    if -1440 < timestamp.tz_offset && timestamp.tz_offset < 1440 {
        timestamp.tz_offset * 60
    } else {
        0
    }
}

/// The timestamp in the given format.
pub fn format_absolute_timestamp_with(timestamp: &Timestamp, format: &FormattingItems) -> (result:
    Result<String, TemplatePropertyError>)
    ensures
        outcome(result) == timestamp_text(*timestamp, format.view()),
        format.view() == default_format() ==> result is Ok == representable(
            timestamp.timestamp.0 as int,
        ),
{
    if is_representable(timestamp.timestamp.0) {
        let offset: i32 = zone_offset_of(timestamp);
        proof {
            use_type_invariant(format);
        }
        match format_datetime(timestamp.timestamp.0, offset, format.format.as_str()) {
            Some(text) => Ok(text),
            None => Err(TemplatePropertyError("Invalid time format".to_owned())),
        }
    } else {
        Err(out_of_range_error())
    }
}

/// The timestamp in the default format.
pub fn format_absolute_timestamp(timestamp: &Timestamp) -> (result: Result<
    String,
    TemplatePropertyError,
>)
    ensures
        outcome(result) == timestamp_text(*timestamp, default_format()),
        result is Ok == representable(timestamp.timestamp.0 as int),
{
    match FormattingItems::parse("%Y-%m-%d %H:%M:%S.%3f %:z") {
        Some(format) => format_absolute_timestamp_with(timestamp, &format),
        None => Err(out_of_range_error()),
    }
}

/// The time from `from` to `to`, in units no smaller than `unit`, with `ago` behind it.
pub fn format_duration(
    from: &Timestamp,
    to: &Timestamp,
    unit: SmallestUnit,
    ago: &'static str,
) -> (result: Result<String, TemplatePropertyError>)
    ensures
        outcome(result) == duration_text(*from, *to, unit, ago@),
{
    if is_representable(from.timestamp.0) && is_representable(to.timestamp.0) && from.timestamp.0
        <= to.timestamp.0 {
        let millis: i64 = to.timestamp.0 - from.timestamp.0;
        Ok(convert_duration(unit, ago, millis as u64))
    } else {
        Err(out_of_range_error())
    }
}

impl Timestamp {
    /// The timestamp for an instant and for an offset from UTC in seconds.
    pub fn from_instant(millis: i64, offset: i32) -> (timestamp: Timestamp)
        ensures
            timestamp.timestamp.0 == millis,
            timestamp.tz_offset == whole_minutes(offset as int),
    {
        let tz_offset: i32 = if offset >= 0 {
            offset / 60
        } else if offset > -60 {
            0
        } else {
            -((-(offset + 60)) / 60) - 1
        };
        Timestamp { timestamp: MillisSinceEpoch(millis), tz_offset }
    }

    /// The present, as the system's clock and local time zone tell it. It can be shown, and
    /// durations up to it can be told.
    pub fn now() -> (now: Timestamp)
        ensures
            is_present(now),
    {
        let (millis, offset) = local_now();
        Timestamp::from_instant(millis, offset)
    }
}

impl TimestampRange {
    /// How long the range is.
    pub fn duration(&self) -> (result: Result<String, TemplatePropertyError>)
        ensures
            outcome(result) == range_text(*self),
    {
        match format_duration(&self.start, &self.end, SmallestUnit::Microseconds, "") {
            Ok(text) => if same_text(text.as_str(), "now") {
                Ok("less than a microsecond".to_owned())
            } else {
                Ok(text)
            },
            Err(error) => Err(error),
        }
    }
}

}
