//! Laws of values: what core values can be taken for, how they are written, and what functions
//! make of them.
use vstd::prelude::*;
use vstd::string::*;

use crate::formatter::{joined, labeled, plain, text_of, Output};
use crate::functions::{
    as_isize, as_usize, list_length, logical_and, logical_not, logical_or, negation,
};
use crate::language::CoreMeaning;
use crate::property::{constant, mapped, paired, PropertyFn, ValueFn};
use crate::template::{
    error_output, joined_list, shown_items, template_for_each, Printable, TemplateFn,
};
use crate::text::decimal_of;
use crate::time::{
    approximate_duration, duration_text, formatted_datetime, timestamp_text, whole_minutes,
    Signature, SignatureView, SmallestUnit, Timestamp, TimestampRange,
};

verus! {

/// A text or a list of texts is true where it is not empty, a boolean where it holds. Nothing
/// else is a boolean.
pub proof fn law_taken_for_boolean<C, W>(meaning: CoreMeaning<C, W>, context: C, scope: Seq<W>)
    ensures
        match meaning {
            CoreMeaning::String(text) => meaning.boolean() is Some && meaning.boolean()->0(
                context,
                scope,
            ) == match text(context, scope) {
                Ok(text) => Ok::<bool, Seq<char>>(text != Seq::<char>::empty()),
                Err(message) => Err(message),
            },
            CoreMeaning::StringList(list) => meaning.boolean() is Some && meaning.boolean()->0(
                context,
                scope,
            ) == match list(context, scope) {
                Ok(list) => Ok::<bool, Seq<char>>(list != Seq::<Seq<char>>::empty()),
                Err(message) => Err(message),
            },
            CoreMeaning::Boolean(value) => meaning.boolean() == Some(value),
            _ => meaning.boolean() is None,
        },
{
    if let CoreMeaning::String(text) = meaning {
        if let Ok(text) = text(context, scope) {
            if text.len() == 0 {
                assert(text =~= Seq::empty());
            }
        }
    }
    if let CoreMeaning::StringList(list) = meaning {
        if let Ok(list) = list(context, scope) {
            if list.len() == 0 {
                assert(list =~= Seq::empty());
            }
        }
    }
}

/// An integer is taken for itself.
pub proof fn law_taken_for_integer<C, W>(value: PropertyFn<C, W, i64>)
    ensures
        CoreMeaning::Integer(value).integer() == Some(value),
{
}

/// A text is taken for itself. Anything else is taken for the text that it is written as, of
/// which labels are no part.
pub proof fn law_taken_for_text<C, W>(meaning: CoreMeaning<C, W>, context: C, scope: Seq<W>)
    ensures
        match meaning {
            CoreMeaning::String(text) => meaning.plain_text() == text,
            _ => meaning.plain_text()(context, scope) == Ok::<Seq<char>, Seq<char>>(
                text_of(meaning.template()(context, scope)),
            ),
        },
{
}

/// Each core value is written in its own way: text as it is, a list with spaces between its
/// items, `true` or `false`, an integer in decimal, a timestamp in the default format. Where
/// there is no value, the message is written as an error.
pub proof fn law_core_values_are_written<C, W>(
    meaning: CoreMeaning<C, W>,
    context: C,
    scope: Seq<W>,
)
    ensures
        meaning.template()(context, scope) == match meaning {
            CoreMeaning::String(text) => match text(context, scope) {
                Ok(text) => plain(text),
                Err(message) => error_output(message),
            },
            CoreMeaning::StringList(list) => match list(context, scope) {
                Ok(list) => joined(
                    Seq::new(list.len(), |i: int| plain(list[i])),
                    plain(" "@),
                ),
                Err(message) => error_output(message),
            },
            CoreMeaning::Boolean(value) => match value(context, scope) {
                Ok(true) => plain("true"@),
                Ok(false) => plain("false"@),
                Err(message) => error_output(message),
            },
            CoreMeaning::Integer(value) => match value(context, scope) {
                Ok(value) => plain(decimal_of(value as int)),
                Err(message) => error_output(message),
            },
            CoreMeaning::Signature(signature) => match signature(context, scope) {
                Ok(signature) => (<Signature as Printable>::shown())(signature),
                Err(message) => error_output(message),
            },
            CoreMeaning::Timestamp(timestamp) => match timestamp(context, scope) {
                Ok(timestamp) => (<Timestamp as Printable>::shown())(timestamp),
                Err(message) => error_output(message),
            },
            CoreMeaning::TimestampRange(range) => match range(context, scope) {
                Ok(range) => (<TimestampRange as Printable>::shown())(range),
                Err(message) => error_output(message),
            },
            CoreMeaning::Template(template) => template(context, scope),
            CoreMeaning::ListTemplate(list) => match list(context, scope) {
                Ok(outputs) => joined(outputs, plain(" "@)),
                Err(message) => error_output(message),
            },
        },
{
    if let CoreMeaning::StringList(list) = meaning {
        if let Ok(list) = list(context, scope) {
            let shown = <String as Printable>::shown();
            assert(list.map_values(shown) =~= Seq::new(list.len(), |i: int| plain(list[i])));
        }
    }
}

/// A signature is written as the name, inside the label `name`, and the address in angle
/// brackets, inside the label `email`. There are no brackets without an address, and a space
/// stands between the two only where there are both.
pub proof fn law_signature_is_written(signature: SignatureView)
    ensures
        ({
            let all = (<Signature as Printable>::shown())(signature);
            let name = labeled(seq!["name"@], plain(signature.name));
            let email = labeled(seq!["email"@], plain(signature.email));
            if signature.email == Seq::<char>::empty() {
                all == name
            } else if signature.name == Seq::<char>::empty() {
                all == name + plain("<"@) + email + plain(">"@)
            } else {
                all == name + plain(" "@) + plain("<"@) + email + plain(">"@)
            }
        }),
{
    let name = labeled(seq!["name"@], plain(signature.name));
    if signature.email.len() == 0 {
        assert(signature.email =~= Seq::empty());
    }
    if signature.name.len() == 0 {
        assert(signature.name =~= Seq::empty());
        reveal_strlit("");
        assert(plain(""@) =~= Output::empty());
        assert(name + plain(""@) =~= name);
    }
}

/// A timestamp is written in the default format if it has a date, and a range as its start
/// and its end with a dash between them.
pub proof fn law_timestamps_are_written(timestamp: Timestamp, range: TimestampRange)
    ensures
        (<Timestamp as Printable>::shown())(timestamp) == match timestamp_text(
            timestamp,
            "%Y-%m-%d %H:%M:%S.%3f %:z"@,
        ) {
            Ok(text) => plain(text),
            Err(message) => error_output(message),
        },
        (<TimestampRange as Printable>::shown())(range) == (<Timestamp as Printable>::shown())(
            range.start,
        ) + plain(" - "@) + (<Timestamp as Printable>::shown())(range.end),
{
}

/// A timestamp has text exactly where it has a date and chrono gives text for it, at its own
/// offset from UTC in seconds.
pub proof fn law_timestamp_text(timestamp: Timestamp, format: Seq<char>)
    ensures
        ({
            let offset: int = if -1440 < timestamp.tz_offset < 1440 {
                60 * timestamp.tz_offset
            } else {
                0
            };
            let text = formatted_datetime(timestamp.timestamp.0, offset as i32, format);
            let dated = -8_334_601_228_800_000 <= timestamp.timestamp.0
                <= 8_210_266_876_799_999;
            timestamp_text(timestamp, format) == if !dated {
                Err::<Seq<char>, Seq<char>>("Out-of-range date"@)
            } else {
                match text {
                    Some(text) => Ok(text),
                    None => Err("Invalid time format"@),
                }
            }
        }),
{
}

/// The text for a duration tells the time from the first timestamp to the second, which must
/// not be the earlier one. It depends on nothing but the distance between the two.
pub proof fn law_duration_tells_distance(
    from: Timestamp,
    to: Timestamp,
    unit: SmallestUnit,
    ago: Seq<char>,
)
    ensures
        ({
            let dated = |timestamp: Timestamp|
                -8_334_601_228_800_000 <= timestamp.timestamp.0 <= 8_210_266_876_799_999;
            duration_text(from, to, unit, ago) == if dated(from) && dated(to) && to.timestamp.0
                >= from.timestamp.0 {
                Ok::<Seq<char>, Seq<char>>(
                    approximate_duration(
                        unit,
                        ago,
                        (to.timestamp.0 - from.timestamp.0) as u64,
                    ),
                )
            } else {
                Err("Out-of-range date"@)
            }
        }),
{
}

/// Whole minutes lie between zero and the seconds, less than a minute away.
pub proof fn law_whole_minutes(seconds: int)
    ensures
        seconds >= 0 ==> 0 <= 60 * whole_minutes(seconds) <= seconds < 60 * whole_minutes(seconds)
            + 60,
        whole_minutes(-seconds) == -whole_minutes(seconds),
{
}

/// `&&` holds where both operands hold and `||` where one does.
pub proof fn law_truth_tables(a: bool, b: bool)
    ensures
        logical_and()((a, b)) == Ok::<bool, Seq<char>>(a && b),
        logical_or()((a, b)) == Ok::<bool, Seq<char>>(a || b),
        logical_not()(a) == Ok::<bool, Seq<char>>(!a),
{
}

/// A negated integer and the integer make zero. There is none for the least integer.
pub proof fn law_negation_makes_zero(value: i64)
    ensures
        value > i64::MIN ==> negation()(value) is Ok && negation()(value)->Ok_0 + value == 0,
        value == i64::MIN ==> negation()(value) == Err::<i64, Seq<char>>(
            "Attempt to negate with overflow"@,
        ),
{
}

/// An integer is converted to one of another type exactly where that type has it.
pub proof fn law_integer_conversions(value: i64)
    ensures
        isize::MIN <= value <= isize::MAX ==> as_isize()(value) is Ok && as_isize()(value)->Ok_0
            == value,
        !(isize::MIN <= value <= isize::MAX) ==> as_isize()(value) == Err::<isize, Seq<char>>(
            "out of range integral type conversion attempted"@,
        ),
        0 <= value <= usize::MAX ==> as_usize()(value) is Ok && as_usize()(value)->Ok_0 == value,
        !(0 <= value <= usize::MAX) ==> as_usize()(value) == Err::<usize, Seq<char>>(
            "out of range integral type conversion attempted"@,
        ),
{
}

/// A function is applied to the value of a property where there is one. Where there is none,
/// the message stays as it is. Of two properties without a value, the first tells its message.
pub proof fn law_messages_are_handed_on<C, W, A, B, D>(
    first: PropertyFn<C, W, A>,
    second: PropertyFn<C, W, B>,
    function: ValueFn<A, D>,
    value: A,
    context: C,
    scope: Seq<W>,
)
    ensures
        first(context, scope) is Ok ==> mapped(first, function)(context, scope) == function(
            first(context, scope)->Ok_0,
        ),
        first(context, scope) is Err ==> mapped(first, function)(context, scope) == Err::<
            D,
            Seq<char>,
        >(first(context, scope)->Err_0),
        first(context, scope) is Ok && second(context, scope) is Ok ==> paired(first, second)(
            context,
            scope,
        ) == Ok::<(A, B), Seq<char>>((first(context, scope)->Ok_0, second(context, scope)->Ok_0)),
        first(context, scope) is Err ==> paired(first, second)(context, scope) == Err::<
            (A, B),
            Seq<char>,
        >(first(context, scope)->Err_0),
        first(context, scope) is Ok && second(context, scope) is Err ==> paired(first, second)(
            context,
            scope,
        ) == Err::<(A, B), Seq<char>>(second(context, scope)->Err_0),
        constant::<C, W, A>(value)(context, scope) == Ok::<A, Seq<char>>(value),
{
}

/// A template for each item writes as many outputs as there are items, each with its item as
/// the innermost one in scope.
pub proof fn law_template_for_each<C, W, T>(
    list: PropertyFn<C, W, Seq<T>>,
    stored: spec_fn(T) -> W,
    template: TemplateFn<C, W>,
    context: C,
    scope: Seq<W>,
)
    ensures
        match list(context, scope) {
            Ok(items) => template_for_each(list, stored, template)(context, scope) matches Ok(
                outputs,
            ) && {
                &&& outputs.len() == items.len()
                &&& forall|i: int|
                    0 <= i < items.len() ==> #[trigger] outputs[i] == template(
                        context,
                        scope.push(stored(items[i])),
                    )
            },
            Err(message) => template_for_each(list, stored, template)(context, scope) == Err::<
                Seq<Output>,
                Seq<char>,
            >(message),
        },
{
}

/// A list writes its items as they are shown, with the separator between each two.
pub proof fn law_joined_list<C, W, T>(
    list: PropertyFn<C, W, Seq<T>>,
    shown: spec_fn(T) -> Output,
    separator: TemplateFn<C, W>,
    context: C,
    scope: Seq<W>,
)
    ensures
        joined_list(shown_items(list, shown), separator)(context, scope) == match list(
            context,
            scope,
        ) {
            Ok(items) => joined(
                Seq::new(items.len(), |i: int| shown(items[i])),
                separator(context, scope),
            ),
            Err(message) => error_output(message),
        },
{
    if let Ok(items) = list(context, scope) {
        assert(items.map_values(shown) =~= Seq::new(items.len(), |i: int| shown(items[i])));
    }
}

/// A list is as long as the number of its items.
pub proof fn law_list_length<T>(items: Seq<T>)
    ensures
        items.len() <= i64::MAX ==> list_length()(items) is Ok && list_length()(items)->Ok_0
            == items.len(),
        items.len() > i64::MAX ==> list_length()(items) is Err,
{
}

}
