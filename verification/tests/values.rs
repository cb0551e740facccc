//! Texts, times and output.
use template_builder::arguments::{
    expect_arguments, expect_exact_arguments, expect_lambda, expect_some_arguments,
    expect_string_literal,
};
use template_builder::ast::{
    ExpressionKind, ExpressionNode, FunctionCallNode, LambdaNode, Span, TemplateAliasId,
};
use template_builder::error::{
    has_name, TemplateParseError, TemplateParseErrorKind, TemplateParseResult,
};
use template_builder::formatter::{FormatOp, FormatRecorder};
use template_builder::layout::{write_indented, write_wrapped};
use template_builder::property::Scope;
use template_builder::text::{
    contains, decimal, ends_with, first_line, lines, remove_prefix, remove_suffix, same_text,
    split_email, split_whitespace, starts_with, string_index_to_char_boundary, substr,
};
use template_builder::time::{
    format_absolute_timestamp, format_absolute_timestamp_with, format_duration, FormattingItems,
    MillisSinceEpoch, SmallestUnit, Timestamp, TimestampRange,
};

const FIRST_MILLI: i64 = -8_334_601_228_800_000;
const LAST_MILLI: i64 = 8_210_266_876_799_999;

fn timestamp(millis: i64, tz_offset: i32) -> Timestamp {
    Timestamp {
        timestamp: MillisSinceEpoch(millis),
        tz_offset,
    }
}

fn duration(start: i64, end: i64) -> Result<String, String> {
    let range = TimestampRange {
        start: timestamp(start, 0),
        end: timestamp(end, 0),
    };
    range.duration().map_err(|error| error.0)
}

fn ago(from: i64, to: i64) -> Result<String, String> {
    format_duration(
        &timestamp(from, 0),
        &timestamp(to, 0),
        SmallestUnit::Seconds,
        "ago",
    )
    .map_err(|error| error.0)
}

fn shown(timestamp: &Timestamp) -> Result<String, String> {
    format_absolute_timestamp(timestamp).map_err(|error| error.0)
}

fn span(start: usize, end: usize) -> Span {
    Span { start, end }
}

fn node(kind: ExpressionKind<'_>, start: usize, end: usize) -> ExpressionNode<'_> {
    ExpressionNode {
        kind,
        span: span(start, end),
    }
}

fn call(name: &str, count: usize) -> FunctionCallNode<'_> {
    FunctionCallNode {
        name,
        name_span: span(0, name.len()),
        args: (0..count)
            .map(|_| node(ExpressionKind::Boolean(true), 0, 0))
            .collect(),
        args_span: span(90, 99),
    }
}

fn error_of<T>(result: TemplateParseResult<T>) -> TemplateParseError {
    match result {
        Ok(_) => panic!("no error"),
        Err(error) => error,
    }
}

/// Labels as `[label:` and `]` round the text.
fn bracketed(recorder: &FormatRecorder) -> String {
    let mut text = String::new();
    for op in recorder.ops() {
        match op {
            FormatOp::Char(c) => text.push(*c),
            FormatOp::PushLabel(label) => text.push_str(&format!("[{label}:")),
            FormatOp::PopLabel => text.push(']'),
        }
    }
    text
}

fn recorded(text: &str) -> FormatRecorder {
    let mut recorder = FormatRecorder::new();
    recorder.write_str(text);
    recorder
}

fn wrapped(text: &str, width: usize) -> String {
    let mut formatter = FormatRecorder::new();
    write_wrapped(&mut formatter, &recorded(text), width);
    formatter.text()
}

fn indented(text: &str, prefix: &str) -> String {
    let mut formatter = FormatRecorder::new();
    write_indented(&mut formatter, &recorded(text), &recorded(prefix));
    formatter.text()
}

#[test]
fn index_is_clamped_and_rounded_towards_zero() {
    let text = "abc💩";
    let expected = [
        (-9, 0),
        (-7, 0),
        (-6, 1),
        (-4, 3),
        (-3, 7),
        (-1, 7),
        (0, 0),
        (2, 2),
        (3, 3),
        (4, 3),
        (6, 3),
        (7, 7),
        (99, 7),
        (isize::MAX, 7),
        (isize::MIN, 0),
    ];
    for (index, position) in expected {
        assert_eq!(string_index_to_char_boundary(text, index), position);
    }
    assert_eq!(string_index_to_char_boundary("", -1), 0);
    assert_eq!(string_index_to_char_boundary("", 1), 0);
}

#[test]
fn rounding_goes_to_the_neighbouring_boundaries() {
    for text in ["", "abc", "añ💩z", "💩"] {
        for i in -10..10 {
            let rounded = string_index_to_char_boundary(text, i);
            assert_eq!(string_index_to_char_boundary(text, rounded as isize), rounded);
        }
        for k in 1..=text.len() {
            let at = text.len() - k;
            let left = string_index_to_char_boundary(text, at as isize);
            let right = string_index_to_char_boundary(text, -(k as isize));
            assert!(left <= at && at <= right);
            assert_eq!(left == right, text.is_char_boundary(at));
        }
    }
}

#[test]
fn parts_make_up_the_text() {
    let text = "añ💩z";
    for i in -10..10 {
        let (head, tail) = (substr(text, 0, i), substr(text, i, 99));
        assert_eq!(format!("{head}{tail}"), text);
        assert_eq!(substr(text, i, i), "");
    }
    assert_eq!(substr("abcdef", 4, 2), "");
}

#[test]
fn prefixes_and_suffixes() {
    assert!(same_text("ñ", "ñ") && !same_text("ñ", "n") && same_text("", ""));
    assert!(contains("abcabd", "abd") && !contains("abcab", "abd") && contains("", ""));
    assert!(starts_with("ñandu", "ñ") && !starts_with("n", "ñ"));
    assert!(ends_with("año", "ño") && !ends_with("o", "ño"));
    assert_eq!(remove_prefix("aab", "a"), "ab");
    assert_eq!(remove_prefix("aab", "b"), "aab");
    assert_eq!(remove_suffix("abb", "b"), "ab");
    assert_eq!(remove_suffix("b", "abb"), "b");
}

#[test]
fn lines_and_words() {
    assert_eq!(lines("a\r\nb\rc\n\nd\r"), ["a", "b\rc", "", "d\r"]);
    assert_eq!(lines("\n"), [""]);
    assert!(lines("").is_empty());
    assert_eq!(lines("a\r\nb\rc\n"), lines("a\r\nb\rc"));
    assert_ne!(lines("a\r\n"), lines("a\r"));
    assert_eq!(first_line("\nb"), "");
    assert_eq!(first_line("a\r\nb"), "a");
    assert_eq!(split_whitespace(" a\u{2003}bc\t\nd "), ["a", "bc", "d"]);
    assert!(split_whitespace(" \t").is_empty());
}

#[test]
fn white_space_ends_words() {
    let white = |c: char| {
        matches!(
            u32::from(c),
            0x9..=0xd
                | 0x20
                | 0x85
                | 0xa0
                | 0x1680
                | 0x2000..=0x200a
                | 0x2028
                | 0x2029
                | 0x202f
                | 0x205f
                | 0x3000
        )
    };
    for c in '\0'..=char::MAX {
        assert_eq!(split_whitespace(&c.to_string()).is_empty(), white(c));
    }
    assert_eq!(split_whitespace("a b"), ["a", "b"]);
}

#[test]
fn email_is_split_at_the_first_at_sign() {
    assert_eq!(split_email("a@b@c"), ("a".to_owned(), Some("b@c".to_owned())));
    assert_eq!(split_email("abc"), ("abc".to_owned(), None));
    assert_eq!(split_email("@"), ("".to_owned(), Some("".to_owned())));
}

#[test]
fn integers_are_shown_in_decimal() {
    assert_eq!(decimal(0), "0");
    assert_eq!(decimal(-10), "-10");
    assert_eq!(decimal(i64::MAX), "9223372036854775807");
    assert_eq!(decimal(i64::MIN), "-9223372036854775808");
}

#[test]
fn timestamp_is_shown_at_its_offset() {
    assert_eq!(shown(&timestamp(0, 0)).unwrap(), "1970-01-01 00:00:00.000 +00:00");
    assert_eq!(shown(&timestamp(-1, 90)).unwrap(), "1970-01-01 01:29:59.999 +01:30");
    assert_eq!(shown(&timestamp(0, -1439)).unwrap(), "1969-12-31 00:01:00.000 -23:59");
    // An offset of a day or more counts as none
    assert_eq!(shown(&timestamp(0, 1440)).unwrap(), "1970-01-01 00:00:00.000 +00:00");
    assert_eq!(shown(&timestamp(0, i32::MIN)).unwrap(), "1970-01-01 00:00:00.000 +00:00");
}

#[test]
fn timestamp_has_a_date_within_the_range_only() {
    assert_eq!(
        shown(&timestamp(FIRST_MILLI, 0)).unwrap(),
        "-262143-01-01 00:00:00.000 +00:00"
    );
    assert_eq!(
        shown(&timestamp(LAST_MILLI, 0)).unwrap(),
        "+262142-12-31 23:59:59.999 +00:00"
    );
    // The local date may be out of range
    let all = "%Y %C %y %q %m %b %B %d %e %a %A %w %u %U %W %G %g %V %j %D %x %F %v %H %I %l %P %p";
    let format = FormattingItems::parse(&format!("{all} %M %S %f %.f %3f %R %T %X %r %Z %z %::z %c %+ %s"));
    let format = format.unwrap();
    for at in [timestamp(FIRST_MILLI, -1439), timestamp(LAST_MILLI, 1439)] {
        assert!(shown(&at).is_ok());
        assert!(format_absolute_timestamp_with(&at, &format).is_ok());
    }
    for millis in [FIRST_MILLI - 1, LAST_MILLI + 1, i64::MIN, i64::MAX] {
        assert_eq!(shown(&timestamp(millis, 0)), Err("Out-of-range date".to_owned()));
    }
}

#[test]
fn time_format_is_checked() {
    for format in ["", "%Y-%m-%d", "100%%", "%Y-%m-%d %H:%M:%S.%3f %:z", "%#z"] {
        assert!(FormattingItems::parse(format).is_some());
    }
    for format in ["%", "%_", "%Y %!"] {
        assert!(FormattingItems::parse(format).is_none());
    }
    let format = FormattingItems::parse("%H:%M %z").unwrap();
    let text = format_absolute_timestamp_with(&timestamp(3_600_000, -60), &format);
    assert_eq!(text.unwrap(), "00:00 -0100");
    // A format that can be read but not written
    let format = FormattingItems::parse("%Y %#z").unwrap();
    let text = format_absolute_timestamp_with(&timestamp(0, 0), &format);
    assert_eq!(text.unwrap_err().0, "Invalid time format");
    let text = format_absolute_timestamp_with(&timestamp(i64::MAX, 0), &format);
    assert_eq!(text.unwrap_err().0, "Out-of-range date");
}

#[test]
fn durations_are_approximate() {
    assert_eq!(ago(0, 999).unwrap(), "now");
    assert_eq!(ago(0, 1000).unwrap(), "1 second ago");
    assert_eq!(ago(0, 86_400_000).unwrap(), "1 day ago");
    assert_eq!(ago(1, 0), Err("Out-of-range date".to_owned()));
    assert_eq!(ago(FIRST_MILLI - 1, 0), Err("Out-of-range date".to_owned()));
    assert_eq!(duration(0, 0).unwrap(), "less than a microsecond");
    assert_eq!(duration(0, 1).unwrap(), "1 millisecond");
    assert_eq!(duration(0, 60_000).unwrap(), "1 minute");
    assert!(duration(FIRST_MILLI, LAST_MILLI).is_ok());
    assert_eq!(duration(0, LAST_MILLI + 1), Err("Out-of-range date".to_owned()));
}

#[test]
fn present_has_a_date() {
    let now = Timestamp::now();
    assert!(-1440 < now.tz_offset && now.tz_offset < 1440);
    assert!(shown(&now).is_ok());
    assert_eq!(Timestamp::from_instant(7, 5400), timestamp(7, 90));
    assert_eq!(Timestamp::from_instant(7, -5459), timestamp(7, -90));
    assert_eq!(Timestamp::from_instant(7, -59), timestamp(7, 0));
    assert_eq!(Timestamp::from_instant(7, -60), timestamp(7, -1));
    assert_eq!(Timestamp::from_instant(7, i32::MIN), timestamp(7, i32::MIN / 60));
    assert_eq!(Timestamp::from_instant(7, i32::MAX), timestamp(7, i32::MAX / 60));
}

#[test]
fn items_in_scope_are_found_by_level() {
    let root = Scope::<'_, String>::Root;
    let (a, b) = ("a".to_owned(), "b".to_owned());
    let outer = Scope::Item { item: &a, outer: &root };
    let inner = Scope::Item { item: &b, outer: &outer };
    assert_eq!(inner.find(0), Ok(&a));
    assert_eq!(inner.find(1), Ok(&b));
    assert_eq!(inner.find(5), Err(3));
    assert_eq!(root.find(0), Err(0));
}

#[test]
fn recorded_output_is_replayed() {
    let mut recorder = FormatRecorder::new();
    assert!(recorder.is_blank());
    recorder.push_label("a");
    recorder.pop_label();
    assert!(recorder.is_blank());
    recorder.push_labels(&vec!["b".to_owned(), "c".to_owned()]);
    recorder.write_str("x\n");
    recorder.pop_labels(2);
    let mut copy = FormatRecorder::new();
    recorder.replay(&mut copy);
    assert_eq!(bracketed(&copy), "[a:][b:[c:x\n]]");
    assert_eq!(copy.text(), "x\n");
    assert!(!copy.is_blank());
}

#[test]
fn wrapping_keeps_words() {
    assert_eq!(wrapped("aa bb cc", 5), "aa bb\ncc");
    assert_eq!(wrapped("aa bb cc", 8), "aa bb cc");
    assert_eq!(wrapped("aaaaaa b", 3), "aaaaaa\nb");
    assert_eq!(wrapped("aa  bb ", 3), "aa\nbb");
    assert_eq!(wrapped("  aa", 9), "  aa");
    assert_eq!(wrapped("aa \n\n bb", 9), "aa\n\n bb");
    assert_eq!(wrapped("a b c", 0), "a\nb\nc");
    assert_eq!(wrapped("", 0), "");
}

#[test]
fn indenting_leaves_empty_lines() {
    assert_eq!(indented("a\n\nb\n", "> "), "> a\n\n> b\n");
    assert_eq!(indented("a\nb", ""), "a\nb");
    let mut labeled = FormatRecorder::new();
    labeled.push_label("l");
    labeled.write_str("a\n");
    labeled.pop_label();
    let mut formatter = FormatRecorder::new();
    write_indented(&mut formatter, &labeled, &recorded(">"));
    assert_eq!(bracketed(&formatter), "[l:>a\n]");
}

#[test]
fn arguments_are_counted() {
    assert!(expect_exact_arguments(&call("f", 2), 2).is_ok());
    let error = error_of(expect_exact_arguments(&call("f", 1), 2));
    assert_eq!(error.message(), "Function \"f\": Expected 2 arguments");
    assert_eq!(error.span, span(90, 99));
    for count in [2, 3] {
        assert!(expect_arguments(&call("f", count), 2, 1).is_ok());
    }
    for count in [1, 4] {
        let error = error_of(expect_arguments(&call("f", count), 2, 1));
        assert_eq!(error.message(), "Function \"f\": Expected 2 to 3 arguments");
    }
    assert!(expect_some_arguments(&call("f", 9), 1).is_ok());
    let error = error_of(expect_some_arguments(&call("f", 0), 1));
    assert_eq!(error.message(), "Function \"f\": Expected at least 1 arguments");
}

#[test]
fn aliases_lead_to_literals_and_lambdas() {
    let alias = |id: &'static str, subst: ExpressionNode<'static>| {
        let kind = ExpressionKind::AliasExpanded(TemplateAliasId::Symbol(id), Box::new(subst));
        node(kind, 1, 2)
    };
    let text = alias("a", alias("b", node(ExpressionKind::String("x".to_owned()), 5, 8)));
    assert_eq!(expect_string_literal(&text).ok(), Some("x"));
    let lambda = LambdaNode {
        params: vec!["p"],
        params_span: span(6, 7),
        body: node(ExpressionKind::Integer(3), 9, 10),
    };
    let lambda = alias("c", node(ExpressionKind::Lambda(Box::new(lambda)), 5, 10));
    assert_eq!(expect_lambda(&lambda).unwrap().params, ["p"]);

    let error = error_of(expect_string_literal(&lambda));
    assert_eq!(error.message(), "Alias \"c\" cannot be expanded");
    assert_eq!(error.span, span(1, 2));
    let origin = error.origin.unwrap();
    assert_eq!(origin.message(), "Expected string literal");
    assert_eq!(origin.span, span(5, 10));
    let error = error_of(expect_lambda(&text));
    let origin = error.origin.unwrap().origin.unwrap();
    assert_eq!(origin.message(), "Expected lambda expression");
}

#[test]
fn alias_functions_are_shown_with_parentheses() {
    let error = TemplateParseError::unexpected_expression("oops", span(0, 1))
        .within_alias_expansion(TemplateAliasId::Function("f"), span(2, 3));
    assert_eq!(error.message(), "Alias \"f()\" cannot be expanded");
    assert_eq!(error.origin.unwrap().message(), "oops");
}

#[test]
fn keyword_candidates_are_listed_once() {
    let kind = TemplateParseErrorKind::NoSuchKeyword {
        name: "x".to_owned(),
        candidates: vec!["a".to_owned()],
    };
    let names = ["b", "a", "b", "self"].map(str::to_owned).to_vec();
    let error = TemplateParseError::with_span(kind, span(0, 1)).extend_keyword_candidates(names);
    match error.kind {
        TemplateParseErrorKind::NoSuchKeyword { candidates, .. } => {
            assert_eq!(candidates, ["a", "b", "self"]);
            assert!(has_name(&candidates, "b") && !has_name(&candidates, "c"));
        }
        _ => panic!("unexpected kind"),
    }
    let other = TemplateParseError::expected_type("Boolean", span(0, 1));
    let other = other.extend_keyword_candidates(vec!["a".to_owned()]);
    assert_eq!(other.message(), "Expected expression of type \"Boolean\"");
}
