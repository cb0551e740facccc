//! Laws of the builtin methods, in languages that wrap the core kinds of properties as they
//! are and hand their methods to the builtin table.
use vstd::prelude::*;
use vstd::string::*;
use vstd::utf8::*;

use crate::arguments::unaliased;
use crate::ast::{ExpressionKind, ExpressionNode, LambdaNode};
use crate::builder::{as_template, expression_meaning, Built};
use crate::core_laws::{
    boolean_value, delegates_to, integer_value, law_core_method_call, text_value, wrapped_core,
    wraps_core,
};
use crate::formatter::{joined, plain, Output};
use crate::function_laws::{output_of, template_error};
use crate::functions::{
    range_end, range_start, signature_timestamp, text_lines, timestamp_in_zone,
};
use crate::language::{
    Bindings, CoreMeaning, IntoTemplateProperty, ItemIn, MeaningIn, PropertyIn, TemplateLanguage,
};
use crate::laws::{
    law_builtin_methods_are_found, law_final_line_feed_adds_no_line,
    law_lines_hold_no_line_feed, law_parts_make_up_text, law_prefix_and_rest,
    law_rest_and_suffix,
};
use crate::methods::{
    builtin_table, signature_methods_table, string_methods_table, timestamp_methods_table,
    timestamp_range_methods_table,
};
use crate::property::{item_at, mapped, ListItem};
use crate::template::{error_output, stored_item, template_for_each, Printable};
use crate::text::{
    begins_with, char_boundary_of_index, finishes_with, lemma_position_of, lines_of, lowercase,
    position_of, uppercase,
};
use crate::text_laws::{
    law_contains, law_ends_with, law_part_is_what_lies_between, law_starts_with,
};
use crate::time::{
    approximate_duration, formatted_datetime, is_time_format, SignatureView, SmallestUnit,
    Timestamp, TimestampRange,
};

verus! {

/// Whether the language wraps core properties as they are, and hands their methods to the
/// builtin table.
pub open spec fn uses_builtin_methods<'a, L: TemplateLanguage<'a>>(language: &L) -> bool where
    String: ListItem<L::Item>,
 {
    wraps_core::<L>(language) && delegates_to(language, builtin_table::<L>())
}

/// Whether an expression calls a method with `count` arguments on the core property `core`.
pub open spec fn calls_method<'a, L: TemplateLanguage<'a>>(
    language: &L,
    bindings: Bindings<MeaningIn<'a, L>>,
    node: ExpressionNode<'_>,
    core: CoreMeaning<L::Context, ItemIn<'a, L>>,
    name: Seq<char>,
    count: int,
) -> bool {
    &&& node.kind is MethodCall
    &&& node.kind->MethodCall_0.function.name@ == name
    &&& node.kind->MethodCall_0.function.args.len() == count
    &&& expression_meaning(language, bindings, node.kind->MethodCall_0.object) matches Ok(object)
        && object.property == wrapped_core(language, core)
}

/// The argument at `i` of a method call.
pub open spec fn argument<'i>(node: ExpressionNode<'i>, i: int) -> ExpressionNode<'i> {
    node.kind->MethodCall_0.function.args[i]
}

proof fn lemma_text_method<'a, L: TemplateLanguage<'a>>(
    language: &L,
    bindings: Bindings<MeaningIn<'a, L>>,
    node: ExpressionNode<'_>,
    text: PropertyIn<'a, L, Seq<char>>,
    place: int,
    count: int,
) where String: ListItem<L::Item>
    requires
        uses_builtin_methods::<L>(language),
        0 <= place < string_methods_table::<L>().len(),
        calls_method(
            language,
            bindings,
            node,
            CoreMeaning::String(text),
            string_methods_table::<L>()[place].0,
            count,
        ),
    ensures
        ({
            let made = string_methods_table::<L>()[place].1(
                *language,
                bindings,
                text,
                node.kind->MethodCall_0.function@,
            );
            let whole = expression_meaning(language, bindings, node);
            &&& made is Ok ==> whole is Ok && whole->Ok_0.property == made->Ok_0
            &&& made is Err ==> whole == Built::<'a, L>::Err(made->Err_0)
        }),
{
    law_core_method_call(
        language,
        builtin_table::<L>(),
        bindings,
        node,
        CoreMeaning::String(text),
    );
    law_builtin_methods_are_found::<L>();
}

/// Cutting a text at an index with `substr` loses nothing and doubles nothing: the part before
/// the index and the part behind it make up the text, wherever the index falls.
pub proof fn law_substr_cuts_text<'a, L: TemplateLanguage<'a>>(
    language: &L,
    bindings: Bindings<MeaningIn<'a, L>>,
    head: ExpressionNode<'_>,
    tail: ExpressionNode<'_>,
    property: PropertyIn<'a, L, Seq<char>>,
    context: L::Context,
    scope: Seq<ItemIn<'a, L>>,
    text: Seq<char>,
    index: i64,
) where String: ListItem<L::Item>
    requires
        uses_builtin_methods::<L>(language),
        calls_method(language, bindings, head, CoreMeaning::String(property), "substr"@, 2),
        calls_method(language, bindings, tail, CoreMeaning::String(property), "substr"@, 2),
        property(context, scope) == Ok::<Seq<char>, Seq<char>>(text),
        isize::MIN <= index <= isize::MAX,
        encode_utf8(text).len() <= isize::MAX,
        integer_value(language, bindings, argument(head, 0), context, scope) == Some(
            Ok::<i64, Seq<char>>(0),
        ),
        integer_value(language, bindings, argument(head, 1), context, scope) == Some(
            Ok::<i64, Seq<char>>(index),
        ),
        integer_value(language, bindings, argument(tail, 0), context, scope) == Some(
            Ok::<i64, Seq<char>>(index),
        ),
        integer_value(language, bindings, argument(tail, 1), context, scope) == Some(
            Ok::<i64, Seq<char>>(encode_utf8(text).len() as i64),
        ),
    ensures
        ({
            let first = text_value(language, bindings, head, context, scope);
            let second = text_value(language, bindings, tail, context, scope);
            &&& first matches Some(Ok(first)) && second matches Some(Ok(second)) && first + second
                == text
        }),
{
    assert(string_methods_table::<L>()[6].0 == "substr"@);
    lemma_text_method(language, bindings, head, property, 6, 2);
    lemma_text_method(language, bindings, tail, property, 6, 2);
    law_parts_make_up_text(text, index as int, encode_utf8(text).len() as int);
}

/// `remove_prefix` takes the needle from the start of the text exactly where `starts_with`
/// finds it there, once, and leaves the text as it is elsewhere.
pub proof fn law_remove_prefix_method<'a, L: TemplateLanguage<'a>>(
    language: &L,
    bindings: Bindings<MeaningIn<'a, L>>,
    tested: ExpressionNode<'_>,
    removed: ExpressionNode<'_>,
    property: PropertyIn<'a, L, Seq<char>>,
    context: L::Context,
    scope: Seq<ItemIn<'a, L>>,
    text: Seq<char>,
    needle: Seq<char>,
) where String: ListItem<L::Item>
    requires
        uses_builtin_methods::<L>(language),
        calls_method(language, bindings, tested, CoreMeaning::String(property), "starts_with"@, 1),
        calls_method(
            language,
            bindings,
            removed,
            CoreMeaning::String(property),
            "remove_prefix"@,
            1,
        ),
        property(context, scope) == Ok::<Seq<char>, Seq<char>>(text),
        text_value(language, bindings, argument(tested, 0), context, scope) == Some(
            Ok::<Seq<char>, Seq<char>>(needle),
        ),
        text_value(language, bindings, argument(removed, 0), context, scope) == Some(
            Ok::<Seq<char>, Seq<char>>(needle),
        ),
    ensures
        ({
            let found = boolean_value(language, bindings, tested, context, scope);
            let rest = text_value(language, bindings, removed, context, scope);
            &&& found == Some(Ok::<bool, Seq<char>>(begins_with(text, needle)))
            &&& rest matches Some(Ok(rest)) && if begins_with(text, needle) {
                needle + rest == text
            } else {
                rest == text
            }
        }),
{
    assert(string_methods_table::<L>()[2].0 == "starts_with"@);
    assert(string_methods_table::<L>()[4].0 == "remove_prefix"@);
    lemma_text_method(language, bindings, tested, property, 2, 1);
    lemma_text_method(language, bindings, removed, property, 4, 1);
    law_prefix_and_rest(text, needle);
}

/// `remove_suffix` takes the needle from the end of the text exactly where `ends_with` finds
/// it there, once, and leaves the text as it is elsewhere.
pub proof fn law_remove_suffix_method<'a, L: TemplateLanguage<'a>>(
    language: &L,
    bindings: Bindings<MeaningIn<'a, L>>,
    tested: ExpressionNode<'_>,
    removed: ExpressionNode<'_>,
    property: PropertyIn<'a, L, Seq<char>>,
    context: L::Context,
    scope: Seq<ItemIn<'a, L>>,
    text: Seq<char>,
    needle: Seq<char>,
) where String: ListItem<L::Item>
    requires
        uses_builtin_methods::<L>(language),
        calls_method(language, bindings, tested, CoreMeaning::String(property), "ends_with"@, 1),
        calls_method(
            language,
            bindings,
            removed,
            CoreMeaning::String(property),
            "remove_suffix"@,
            1,
        ),
        property(context, scope) == Ok::<Seq<char>, Seq<char>>(text),
        text_value(language, bindings, argument(tested, 0), context, scope) == Some(
            Ok::<Seq<char>, Seq<char>>(needle),
        ),
        text_value(language, bindings, argument(removed, 0), context, scope) == Some(
            Ok::<Seq<char>, Seq<char>>(needle),
        ),
    ensures
        ({
            let found = boolean_value(language, bindings, tested, context, scope);
            let rest = text_value(language, bindings, removed, context, scope);
            &&& found == Some(Ok::<bool, Seq<char>>(finishes_with(text, needle)))
            &&& rest matches Some(Ok(rest)) && if finishes_with(text, needle) {
                rest + needle == text
            } else {
                rest == text
            }
        }),
{
    assert(string_methods_table::<L>()[3].0 == "ends_with"@);
    assert(string_methods_table::<L>()[5].0 == "remove_suffix"@);
    lemma_text_method(language, bindings, tested, property, 3, 1);
    lemma_text_method(language, bindings, removed, property, 5, 1);
    law_rest_and_suffix(text, needle);
}

/// `lines` gives a list of texts without line feeds, which is empty for the empty text only,
/// and `first_line` the first of them or nothing. A line feed at the end of the text adds no
/// line.
pub proof fn law_lines_methods<'a, L: TemplateLanguage<'a>>(
    language: &L,
    bindings: Bindings<MeaningIn<'a, L>>,
    all: ExpressionNode<'_>,
    first: ExpressionNode<'_>,
    property: PropertyIn<'a, L, Seq<char>>,
    context: L::Context,
    scope: Seq<ItemIn<'a, L>>,
    text: Seq<char>,
) where String: ListItem<L::Item>
    requires
        uses_builtin_methods::<L>(language),
        calls_method(language, bindings, all, CoreMeaning::String(property), "lines"@, 0),
        calls_method(language, bindings, first, CoreMeaning::String(property), "first_line"@, 0),
        property(context, scope) == Ok::<Seq<char>, Seq<char>>(text),
    ensures
        ({
            let list = mapped(property, text_lines());
            let lines = lines_of(text);
            &&& expression_meaning(language, bindings, all) matches Ok(all) && all.property
                == language.wrapped_string_list(list)
            &&& list(context, scope) == Ok::<Seq<Seq<char>>, Seq<char>>(lines)
            &&& text_value(language, bindings, first, context, scope) == Some(
                Ok::<Seq<char>, Seq<char>>(
                    if lines.len() == 0 {
                        Seq::empty()
                    } else {
                        lines[0]
                    },
                ),
            )
            &&& lines.len() == 0 <==> text.len() == 0
            &&& forall|i: int| 0 <= i < lines.len() ==> !(#[trigger] lines[i]).contains('\n')
            &&& text.len() > 0 && text.last() != '\n' && text.last() != '\r' ==> lines_of(
                text.push('\n'),
            ) == lines
        }),
{
    assert(string_methods_table::<L>()[7].0 == "first_line"@);
    assert(string_methods_table::<L>()[8].0 == "lines"@);
    lemma_text_method(language, bindings, first, property, 7, 0);
    lemma_text_method(language, bindings, all, property, 8, 0);
    law_lines_hold_no_line_feed(text);
    if text.len() > 0 && text.last() != '\n' && text.last() != '\r' {
        law_final_line_feed_adds_no_line(text);
    }
}

proof fn lemma_timestamp_method<'a, L: TemplateLanguage<'a>>(
    language: &L,
    bindings: Bindings<MeaningIn<'a, L>>,
    node: ExpressionNode<'_>,
    property: PropertyIn<'a, L, Timestamp>,
    place: int,
    count: int,
) where String: ListItem<L::Item>
    requires
        uses_builtin_methods::<L>(language),
        0 <= place < timestamp_methods_table::<L>().len(),
        calls_method(
            language,
            bindings,
            node,
            CoreMeaning::Timestamp(property),
            timestamp_methods_table::<L>()[place].0,
            count,
        ),
        timestamp_methods_table::<L>()[place].1(
            *language,
            bindings,
            property,
            node.kind->MethodCall_0.function@,
        ) is Ok,
    ensures
        expression_meaning(language, bindings, node) is Ok,
        expression_meaning(language, bindings, node)->Ok_0.property
            == timestamp_methods_table::<L>()[place].1(
            *language,
            bindings,
            property,
            node.kind->MethodCall_0.function@,
        )->Ok_0,
{
    law_core_method_call(
        language,
        builtin_table::<L>(),
        bindings,
        node,
        CoreMeaning::Timestamp(property),
    );
    law_builtin_methods_are_found::<L>();
}

/// `utc` and `local` change the offset from UTC and nothing else: to none, and to the one that
/// holds when the template is built. What was done before makes no difference to `utc`.
pub proof fn law_zone_methods<'a, L: TemplateLanguage<'a>>(
    language: &L,
    bindings: Bindings<MeaningIn<'a, L>>,
    utc: ExpressionNode<'_>,
    local: ExpressionNode<'_>,
    local_utc: ExpressionNode<'_>,
    utc_utc: ExpressionNode<'_>,
    property: PropertyIn<'a, L, Timestamp>,
    context: L::Context,
    scope: Seq<ItemIn<'a, L>>,
    timestamp: Timestamp,
) where String: ListItem<L::Item>
    requires
        uses_builtin_methods::<L>(language),
        calls_method(language, bindings, utc, CoreMeaning::Timestamp(property), "utc"@, 0),
        calls_method(language, bindings, local, CoreMeaning::Timestamp(property), "local"@, 0),
        local_utc.kind is MethodCall,
        local_utc.kind->MethodCall_0.object == local,
        local_utc.kind->MethodCall_0.function.name@ == "utc"@,
        local_utc.kind->MethodCall_0.function.args.len() == 0,
        utc_utc.kind is MethodCall,
        utc_utc.kind->MethodCall_0.object == utc,
        utc_utc.kind->MethodCall_0.function.name@ == "utc"@,
        utc_utc.kind->MethodCall_0.function.args.len() == 0,
        property(context, scope) == Ok::<Timestamp, Seq<char>>(timestamp),
    ensures
        ({
            let at = |offset: i32|
                Ok::<Timestamp, Seq<char>>(
                    Timestamp { timestamp: timestamp.timestamp, tz_offset: offset },
                );
            &&& timestamp_value(language, bindings, utc, context, scope, at(0))
            &&& timestamp_value(
                language,
                bindings,
                local,
                context,
                scope,
                at(bindings.now.tz_offset),
            )
            &&& timestamp_value(language, bindings, local_utc, context, scope, at(0))
            &&& timestamp_value(language, bindings, utc_utc, context, scope, at(0))
        }),
{
    assert(timestamp_methods_table::<L>()[2].0 == "utc"@);
    assert(timestamp_methods_table::<L>()[3].0 == "local"@);
    lemma_timestamp_method(language, bindings, utc, property, 2, 0);
    lemma_timestamp_method(language, bindings, local, property, 3, 0);
    let in_utc = mapped(property, timestamp_in_zone(0));
    let in_local = mapped(property, timestamp_in_zone(bindings.now.tz_offset));
    assert(wrapped_core(language, CoreMeaning::Timestamp(in_utc)) == language.wrapped_timestamp(
        in_utc,
    ));
    lemma_timestamp_method(language, bindings, local_utc, in_local, 2, 0);
    lemma_timestamp_method(language, bindings, utc_utc, in_utc, 2, 0);
    let local_in_utc = mapped(in_local, timestamp_in_zone(0));
    let utc_in_utc = mapped(in_utc, timestamp_in_zone(0));
    assert(expression_meaning(language, bindings, local_utc)->Ok_0.property
        == language.wrapped_timestamp(local_in_utc));
    assert(expression_meaning(language, bindings, utc_utc)->Ok_0.property
        == language.wrapped_timestamp(utc_in_utc));
}

/// Whether an expression is a timestamp with that value.
pub open spec fn timestamp_value<'a, L: TemplateLanguage<'a>>(
    language: &L,
    bindings: Bindings<MeaningIn<'a, L>>,
    node: ExpressionNode<'_>,
    context: L::Context,
    scope: Seq<ItemIn<'a, L>>,
    value: Result<Timestamp, Seq<char>>,
) -> bool {
    exists|property: PropertyIn<'a, L, Timestamp>|
        expression_meaning(language, bindings, node) is Ok && expression_meaning(
            language,
            bindings,
            node,
        )->Ok_0.property == #[trigger] language.wrapped_timestamp(property) && property(
            context,
            scope,
        ) == value
}

/// `len` of a text counts the bytes of its encoding.
pub proof fn law_len_method<'a, L: TemplateLanguage<'a>>(
    language: &L,
    bindings: Bindings<MeaningIn<'a, L>>,
    node: ExpressionNode<'_>,
    property: PropertyIn<'a, L, Seq<char>>,
    context: L::Context,
    scope: Seq<ItemIn<'a, L>>,
) where String: ListItem<L::Item>
    requires
        uses_builtin_methods::<L>(language),
        calls_method(language, bindings, node, CoreMeaning::String(property), "len"@, 0),
    ensures
        match property(context, scope) {
            Ok(text) => integer_value(language, bindings, node, context, scope) matches Some(
                result,
            ) && if encode_utf8(text).len() <= i64::MAX {
                result matches Ok(length) && length == encode_utf8(text).len()
            } else {
                result is Err
            },
            Err(message) => integer_value(language, bindings, node, context, scope) == Some(
                Err::<i64, Seq<char>>(message),
            ),
        },
{
    assert(string_methods_table::<L>()[0].0 == "len"@);
    lemma_text_method(language, bindings, node, property, 0, 0);
}

/// `contains` holds exactly where the text is made up of something, the needle and something
/// more.
pub proof fn law_contains_method<'a, L: TemplateLanguage<'a>>(
    language: &L,
    bindings: Bindings<MeaningIn<'a, L>>,
    node: ExpressionNode<'_>,
    property: PropertyIn<'a, L, Seq<char>>,
    context: L::Context,
    scope: Seq<ItemIn<'a, L>>,
) where String: ListItem<L::Item>
    requires
        uses_builtin_methods::<L>(language),
        calls_method(language, bindings, node, CoreMeaning::String(property), "contains"@, 1),
        text_value(language, bindings, argument(node, 0), context, scope) is Some,
    ensures
        ({
            let needle = text_value(language, bindings, argument(node, 0), context, scope)->0;
            let found = boolean_value(language, bindings, node, context, scope);
            match (property(context, scope), needle) {
                (Ok(text), Ok(needle)) => found matches Some(Ok(found)) && (found <==> exists|
                    before: Seq<char>,
                    after: Seq<char>,
                | text == #[trigger] (before + needle + after)),
                (Err(message), _) => found == Some(Err::<bool, Seq<char>>(message)),
                (_, Err(message)) => found == Some(Err::<bool, Seq<char>>(message)),
            }
        }),
{
    assert(string_methods_table::<L>()[1].0 == "contains"@);
    lemma_text_method(language, bindings, node, property, 1, 1);
    let needle = text_value(language, bindings, argument(node, 0), context, scope)->0;
    if property(context, scope) is Ok && needle is Ok {
        law_contains(property(context, scope)->Ok_0, needle->Ok_0);
    }
}

/// `starts_with` holds exactly where the text is the needle and something more, and
/// `ends_with` where it is something and then the needle.
pub proof fn law_starts_and_ends_methods<'a, L: TemplateLanguage<'a>>(
    language: &L,
    bindings: Bindings<MeaningIn<'a, L>>,
    node: ExpressionNode<'_>,
    property: PropertyIn<'a, L, Seq<char>>,
    context: L::Context,
    scope: Seq<ItemIn<'a, L>>,
) where String: ListItem<L::Item>
    requires
        uses_builtin_methods::<L>(language),
        calls_method(language, bindings, node, CoreMeaning::String(property), "starts_with"@, 1)
            || calls_method(
            language,
            bindings,
            node,
            CoreMeaning::String(property),
            "ends_with"@,
            1,
        ),
        text_value(language, bindings, argument(node, 0), context, scope) is Some,
    ensures
        ({
            let needle = text_value(language, bindings, argument(node, 0), context, scope)->0;
            let found = boolean_value(language, bindings, node, context, scope);
            let method = node.kind->MethodCall_0.function.name@;
            match (property(context, scope), needle) {
                (Ok(text), Ok(needle)) => found matches Some(Ok(found)) && if method
                    == "starts_with"@ {
                    found <==> exists|rest: Seq<char>| text == #[trigger] (needle + rest)
                } else {
                    found <==> exists|rest: Seq<char>| text == #[trigger] (rest + needle)
                },
                (Err(message), _) => found == Some(Err::<bool, Seq<char>>(message)),
                (_, Err(message)) => found == Some(Err::<bool, Seq<char>>(message)),
            }
        }),
{
    reveal_strlit("starts_with");
    reveal_strlit("ends_with");
    assert("starts_with"@.len() != "ends_with"@.len());
    assert(string_methods_table::<L>()[2].0 == "starts_with"@);
    assert(string_methods_table::<L>()[3].0 == "ends_with"@);
    if node.kind->MethodCall_0.function.name@ == "starts_with"@ {
        lemma_text_method(language, bindings, node, property, 2, 1);
    } else {
        lemma_text_method(language, bindings, node, property, 3, 1);
    }
    let needle = text_value(language, bindings, argument(node, 0), context, scope)->0;
    if property(context, scope) is Ok && needle is Ok {
        law_starts_with(property(context, scope)->Ok_0, needle->Ok_0);
        law_ends_with(property(context, scope)->Ok_0, needle->Ok_0);
    }
}

/// What `remove_prefix` leaves is what comes behind the needle, and what `remove_suffix`
/// leaves is what comes before it. A text without the needle there stays as it is.
pub proof fn law_remove_methods<'a, L: TemplateLanguage<'a>>(
    language: &L,
    bindings: Bindings<MeaningIn<'a, L>>,
    node: ExpressionNode<'_>,
    property: PropertyIn<'a, L, Seq<char>>,
    context: L::Context,
    scope: Seq<ItemIn<'a, L>>,
) where String: ListItem<L::Item>
    requires
        uses_builtin_methods::<L>(language),
        calls_method(language, bindings, node, CoreMeaning::String(property), "remove_prefix"@, 1)
            || calls_method(
            language,
            bindings,
            node,
            CoreMeaning::String(property),
            "remove_suffix"@,
            1,
        ),
        text_value(language, bindings, argument(node, 0), context, scope) is Some,
    ensures
        ({
            let needle = text_value(language, bindings, argument(node, 0), context, scope)->0;
            let left = text_value(language, bindings, node, context, scope);
            let method = node.kind->MethodCall_0.function.name@;
            match (property(context, scope), needle) {
                (Ok(text), Ok(needle)) => left matches Some(Ok(left)) && if method
                    == "remove_prefix"@ {
                    &&& forall|rest: Seq<char>|
                        text == #[trigger] (needle + rest) ==> left == rest
                    &&& (forall|rest: Seq<char>| text != #[trigger] (needle + rest)) ==> left
                        == text
                } else {
                    &&& forall|rest: Seq<char>|
                        text == #[trigger] (rest + needle) ==> left == rest
                    &&& (forall|rest: Seq<char>| text != #[trigger] (rest + needle)) ==> left
                        == text
                },
                (Err(message), _) => left == Some(Err::<Seq<char>, Seq<char>>(message)),
                (_, Err(message)) => left == Some(Err::<Seq<char>, Seq<char>>(message)),
            }
        }),
{
    reveal_strlit("remove_prefix");
    reveal_strlit("remove_suffix");
    assert("remove_prefix"@[7] != "remove_suffix"@[7]);
    assert(string_methods_table::<L>()[4].0 == "remove_prefix"@);
    assert(string_methods_table::<L>()[5].0 == "remove_suffix"@);
    if node.kind->MethodCall_0.function.name@ == "remove_prefix"@ {
        lemma_text_method(language, bindings, node, property, 4, 1);
    } else {
        lemma_text_method(language, bindings, node, property, 5, 1);
    }
    let needle = text_value(language, bindings, argument(node, 0), context, scope)->0;
    if property(context, scope) is Ok && needle is Ok {
        law_starts_with(property(context, scope)->Ok_0, needle->Ok_0);
        law_ends_with(property(context, scope)->Ok_0, needle->Ok_0);
    }
}

/// `substr` gives the bytes between its two indices, each taken to a character boundary.
pub proof fn law_substr_method<'a, L: TemplateLanguage<'a>>(
    language: &L,
    bindings: Bindings<MeaningIn<'a, L>>,
    node: ExpressionNode<'_>,
    property: PropertyIn<'a, L, Seq<char>>,
    context: L::Context,
    scope: Seq<ItemIn<'a, L>>,
) where String: ListItem<L::Item>
    requires
        uses_builtin_methods::<L>(language),
        calls_method(language, bindings, node, CoreMeaning::String(property), "substr"@, 2),
        integer_value(language, bindings, argument(node, 0), context, scope) is Some,
        integer_value(language, bindings, argument(node, 1), context, scope) is Some,
    ensures
        ({
            let start = integer_value(language, bindings, argument(node, 0), context, scope)->0;
            let end = integer_value(language, bindings, argument(node, 1), context, scope)->0;
            let part = text_value(language, bindings, node, context, scope);
            &&& part is Some
            &&& (property(context, scope) is Ok && start is Ok && end is Ok && isize::MIN
                <= start->Ok_0 <= isize::MAX && isize::MIN <= end->Ok_0 <= isize::MAX) ==> {
                let text = property(context, scope)->Ok_0;
                let from = char_boundary_of_index(text, start->Ok_0 as int);
                let to = char_boundary_of_index(text, end->Ok_0 as int);
                part matches Some(Ok(part)) && encode_utf8(part) == if from <= to {
                    encode_utf8(text).subrange(from, to)
                } else {
                    Seq::empty()
                }
            }
            &&& property(context, scope) is Err ==> part == Some(
                Err::<Seq<char>, Seq<char>>(property(context, scope)->Err_0),
            )
            &&& property(context, scope) is Ok && start is Err ==> part == Some(
                Err::<Seq<char>, Seq<char>>(start->Err_0),
            )
            &&& (property(context, scope) is Ok && start is Ok && isize::MIN <= start->Ok_0
                <= isize::MAX && end is Err) ==> part == Some(
                Err::<Seq<char>, Seq<char>>(end->Err_0),
            )
        }),
{
    assert(string_methods_table::<L>()[6].0 == "substr"@);
    lemma_text_method(language, bindings, node, property, 6, 2);
    let start = integer_value(language, bindings, argument(node, 0), context, scope)->0;
    let end = integer_value(language, bindings, argument(node, 1), context, scope)->0;
    if property(context, scope) is Ok && start is Ok && end is Ok {
        law_part_is_what_lies_between(
            property(context, scope)->Ok_0,
            start->Ok_0 as int,
            end->Ok_0 as int,
        );
    }
}

/// `upper` gives the text in upper case.
pub proof fn law_upper_method<'a, L: TemplateLanguage<'a>>(
    language: &L,
    bindings: Bindings<MeaningIn<'a, L>>,
    node: ExpressionNode<'_>,
    property: PropertyIn<'a, L, Seq<char>>,
    context: L::Context,
    scope: Seq<ItemIn<'a, L>>,
) where String: ListItem<L::Item>
    requires
        uses_builtin_methods::<L>(language),
        calls_method(language, bindings, node, CoreMeaning::String(property), "upper"@, 0),
    ensures
        text_value(language, bindings, node, context, scope) == Some(
            match property(context, scope) {
                Ok(text) => Ok::<Seq<char>, Seq<char>>(uppercase(text)),
                Err(message) => Err(message),
            },
        ),
{
    assert(string_methods_table::<L>()[9].0 == "upper"@);
    lemma_text_method(language, bindings, node, property, 9, 0);
}

/// `lower` gives the text in lower case.
pub proof fn law_lower_method<'a, L: TemplateLanguage<'a>>(
    language: &L,
    bindings: Bindings<MeaningIn<'a, L>>,
    node: ExpressionNode<'_>,
    property: PropertyIn<'a, L, Seq<char>>,
    context: L::Context,
    scope: Seq<ItemIn<'a, L>>,
) where String: ListItem<L::Item>
    requires
        uses_builtin_methods::<L>(language),
        calls_method(language, bindings, node, CoreMeaning::String(property), "lower"@, 0),
    ensures
        text_value(language, bindings, node, context, scope) == Some(
            match property(context, scope) {
                Ok(text) => Ok::<Seq<char>, Seq<char>>(lowercase(text)),
                Err(message) => Err(message),
            },
        ),
{
    assert(string_methods_table::<L>()[10].0 == "lower"@);
    lemma_text_method(language, bindings, node, property, 10, 0);
}

proof fn lemma_signature_method<'a, L: TemplateLanguage<'a>>(
    language: &L,
    bindings: Bindings<MeaningIn<'a, L>>,
    node: ExpressionNode<'_>,
    property: PropertyIn<'a, L, SignatureView>,
    place: int,
) where String: ListItem<L::Item>
    requires
        uses_builtin_methods::<L>(language),
        0 <= place < signature_methods_table::<L>().len(),
        calls_method(
            language,
            bindings,
            node,
            CoreMeaning::Signature(property),
            signature_methods_table::<L>()[place].0,
            0,
        ),
    ensures
        ({
            let made = signature_methods_table::<L>()[place].1(
                *language,
                bindings,
                property,
                node.kind->MethodCall_0.function@,
            );
            made is Ok ==> expression_meaning(language, bindings, node) is Ok
                && expression_meaning(language, bindings, node)->Ok_0.property == made->Ok_0
        }),
{
    law_core_method_call(
        language,
        builtin_table::<L>(),
        bindings,
        node,
        CoreMeaning::Signature(property),
    );
    law_builtin_methods_are_found::<L>();
}

proof fn lemma_range_method<'a, L: TemplateLanguage<'a>>(
    language: &L,
    bindings: Bindings<MeaningIn<'a, L>>,
    node: ExpressionNode<'_>,
    property: PropertyIn<'a, L, TimestampRange>,
    place: int,
) where String: ListItem<L::Item>
    requires
        uses_builtin_methods::<L>(language),
        0 <= place < timestamp_range_methods_table::<L>().len(),
        calls_method(
            language,
            bindings,
            node,
            CoreMeaning::TimestampRange(property),
            timestamp_range_methods_table::<L>()[place].0,
            0,
        ),
    ensures
        ({
            let made = timestamp_range_methods_table::<L>()[place].1(
                *language,
                bindings,
                property,
                node.kind->MethodCall_0.function@,
            );
            made is Ok ==> expression_meaning(language, bindings, node) is Ok
                && expression_meaning(language, bindings, node)->Ok_0.property == made->Ok_0
        }),
{
    law_core_method_call(
        language,
        builtin_table::<L>(),
        bindings,
        node,
        CoreMeaning::TimestampRange(property),
    );
    law_builtin_methods_are_found::<L>();
}

/// `name` gives the name in a signature.
pub proof fn law_name_method<'a, L: TemplateLanguage<'a>>(
    language: &L,
    bindings: Bindings<MeaningIn<'a, L>>,
    node: ExpressionNode<'_>,
    property: PropertyIn<'a, L, SignatureView>,
    context: L::Context,
    scope: Seq<ItemIn<'a, L>>,
) where String: ListItem<L::Item>
    requires
        uses_builtin_methods::<L>(language),
        calls_method(language, bindings, node, CoreMeaning::Signature(property), "name"@, 0),
    ensures
        text_value(language, bindings, node, context, scope) == Some(
            match property(context, scope) {
                Ok(signature) => Ok::<Seq<char>, Seq<char>>(signature.name),
                Err(message) => Err(message),
            },
        ),
{
    assert(signature_methods_table::<L>()[0].0 == "name"@);
    lemma_signature_method(language, bindings, node, property, 0);
}

/// `email` gives the address in a signature.
pub proof fn law_email_method<'a, L: TemplateLanguage<'a>>(
    language: &L,
    bindings: Bindings<MeaningIn<'a, L>>,
    node: ExpressionNode<'_>,
    property: PropertyIn<'a, L, SignatureView>,
    context: L::Context,
    scope: Seq<ItemIn<'a, L>>,
) where String: ListItem<L::Item>
    requires
        uses_builtin_methods::<L>(language),
        calls_method(language, bindings, node, CoreMeaning::Signature(property), "email"@, 0),
    ensures
        text_value(language, bindings, node, context, scope) == Some(
            match property(context, scope) {
                Ok(signature) => Ok::<Seq<char>, Seq<char>>(signature.email),
                Err(message) => Err(message),
            },
        ),
{
    assert(signature_methods_table::<L>()[1].0 == "email"@);
    lemma_signature_method(language, bindings, node, property, 1);
}

/// `username` gives what comes before the first `@` of the address, or all of it.
pub proof fn law_username_method<'a, L: TemplateLanguage<'a>>(
    language: &L,
    bindings: Bindings<MeaningIn<'a, L>>,
    node: ExpressionNode<'_>,
    property: PropertyIn<'a, L, SignatureView>,
    context: L::Context,
    scope: Seq<ItemIn<'a, L>>,
) where String: ListItem<L::Item>
    requires
        uses_builtin_methods::<L>(language),
        calls_method(language, bindings, node, CoreMeaning::Signature(property), "username"@, 0),
    ensures
        match property(context, scope) {
            Ok(signature) => text_value(language, bindings, node, context, scope) matches Some(
                Ok(username),
            ) && !username.contains('@') && (signature.email == username || exists|
                domain: Seq<char>,
            | signature.email == #[trigger] (username.push('@') + domain)),
            Err(message) => text_value(language, bindings, node, context, scope) == Some(
                Err::<Seq<char>, Seq<char>>(message),
            ),
        },
{
    assert(signature_methods_table::<L>()[2].0 == "username"@);
    lemma_signature_method(language, bindings, node, property, 2);
    if let Ok(signature) = property(context, scope) {
        let email = signature.email;
        lemma_position_of(email, '@', 0);
        let at = position_of(email, '@', 0);
        let username = email.take(at);
        if at < email.len() {
            assert(email =~= username.push('@') + email.skip(at + 1));
        } else {
            assert(email =~= username);
        }
    }
}

/// `timestamp` of a signature gives its timestamp.
pub proof fn law_signature_timestamp_method<'a, L: TemplateLanguage<'a>>(
    language: &L,
    bindings: Bindings<MeaningIn<'a, L>>,
    node: ExpressionNode<'_>,
    property: PropertyIn<'a, L, SignatureView>,
    context: L::Context,
    scope: Seq<ItemIn<'a, L>>,
) where String: ListItem<L::Item>
    requires
        uses_builtin_methods::<L>(language),
        calls_method(language, bindings, node, CoreMeaning::Signature(property), "timestamp"@, 0),
    ensures
        timestamp_value(
            language,
            bindings,
            node,
            context,
            scope,
            match property(context, scope) {
                Ok(signature) => Ok(signature.timestamp),
                Err(message) => Err(message),
            },
        ),
{
    assert(signature_methods_table::<L>()[3].0 == "timestamp"@);
    lemma_signature_method(language, bindings, node, property, 3);
    let timestamp = mapped(property, signature_timestamp());
    assert(expression_meaning(language, bindings, node)->Ok_0.property
        == language.wrapped_timestamp(timestamp));
}

/// `start` and `end` give the two ends of a range.
pub proof fn law_range_ends_methods<'a, L: TemplateLanguage<'a>>(
    language: &L,
    bindings: Bindings<MeaningIn<'a, L>>,
    node: ExpressionNode<'_>,
    property: PropertyIn<'a, L, TimestampRange>,
    context: L::Context,
    scope: Seq<ItemIn<'a, L>>,
) where String: ListItem<L::Item>
    requires
        uses_builtin_methods::<L>(language),
        calls_method(language, bindings, node, CoreMeaning::TimestampRange(property), "start"@, 0)
            || calls_method(
            language,
            bindings,
            node,
            CoreMeaning::TimestampRange(property),
            "end"@,
            0,
        ),
    ensures
        timestamp_value(
            language,
            bindings,
            node,
            context,
            scope,
            match property(context, scope) {
                Ok(range) => Ok(
                    if node.kind->MethodCall_0.function.name@ == "start"@ {
                        range.start
                    } else {
                        range.end
                    },
                ),
                Err(message) => Err(message),
            },
        ),
{
    reveal_strlit("start");
    reveal_strlit("end");
    assert("start"@.len() != "end"@.len());
    assert(timestamp_range_methods_table::<L>()[0].0 == "start"@);
    assert(timestamp_range_methods_table::<L>()[1].0 == "end"@);
    if node.kind->MethodCall_0.function.name@ == "start"@ {
        lemma_range_method(language, bindings, node, property, 0);
        let start = mapped(property, range_start());
        assert(expression_meaning(language, bindings, node)->Ok_0.property
            == language.wrapped_timestamp(start));
    } else {
        lemma_range_method(language, bindings, node, property, 1);
        let end = mapped(property, range_end());
        assert(expression_meaning(language, bindings, node)->Ok_0.property
            == language.wrapped_timestamp(end));
    }
}

/// Whether there is a date for a timestamp.
pub open spec fn is_dated(timestamp: Timestamp) -> bool {
    -8_334_601_228_800_000 <= timestamp.timestamp.0 <= 8_210_266_876_799_999
}

/// `duration` tells the time from the start of a range to its end, in microseconds or greater
/// units. A range that is too short for that lasts less than a microsecond, and one that ends
/// before it starts, or has no dates, has no duration.
pub proof fn law_duration_method<'a, L: TemplateLanguage<'a>>(
    language: &L,
    bindings: Bindings<MeaningIn<'a, L>>,
    node: ExpressionNode<'_>,
    property: PropertyIn<'a, L, TimestampRange>,
    context: L::Context,
    scope: Seq<ItemIn<'a, L>>,
) where String: ListItem<L::Item>
    requires
        uses_builtin_methods::<L>(language),
        calls_method(
            language,
            bindings,
            node,
            CoreMeaning::TimestampRange(property),
            "duration"@,
            0,
        ),
    ensures
        text_value(language, bindings, node, context, scope) == Some(
            match property(context, scope) {
                Ok(range) => if is_dated(range.start) && is_dated(range.end)
                    && range.start.timestamp.0 <= range.end.timestamp.0 {
                    let told = approximate_duration(
                        SmallestUnit::Microseconds,
                        ""@,
                        (range.end.timestamp.0 - range.start.timestamp.0) as u64,
                    );
                    Ok::<Seq<char>, Seq<char>>(
                        if told == "now"@ {
                            "less than a microsecond"@
                        } else {
                            told
                        },
                    )
                } else {
                    Err("Out-of-range date"@)
                },
                Err(message) => Err(message),
            },
        ),
{
    assert(timestamp_range_methods_table::<L>()[2].0 == "duration"@);
    lemma_range_method(language, bindings, node, property, 2);
}

/// `ago` tells the time from the timestamp to the one at which the template is built. It has
/// no value for a timestamp that is later, or that has no date.
pub proof fn law_ago_method<'a, L: TemplateLanguage<'a>>(
    language: &L,
    bindings: Bindings<MeaningIn<'a, L>>,
    node: ExpressionNode<'_>,
    property: PropertyIn<'a, L, Timestamp>,
    context: L::Context,
    scope: Seq<ItemIn<'a, L>>,
) where String: ListItem<L::Item>
    requires
        uses_builtin_methods::<L>(language),
        calls_method(language, bindings, node, CoreMeaning::Timestamp(property), "ago"@, 0),
    ensures
        text_value(language, bindings, node, context, scope) == Some(
            match property(context, scope) {
                Ok(timestamp) => if is_dated(timestamp) && is_dated(bindings.now)
                    && timestamp.timestamp.0 <= bindings.now.timestamp.0 {
                    Ok::<Seq<char>, Seq<char>>(
                        approximate_duration(
                            SmallestUnit::Seconds,
                            "ago"@,
                            (bindings.now.timestamp.0 - timestamp.timestamp.0) as u64,
                        ),
                    )
                } else {
                    Err("Out-of-range date"@)
                },
                Err(message) => Err(message),
            },
        ),
{
    assert(timestamp_methods_table::<L>()[0].0 == "ago"@);
    lemma_timestamp_method(language, bindings, node, property, 0, 0);
}

/// `format` shows a timestamp that has a date in the format that its argument gives, at its
/// offset from UTC. The argument is a string literal or an alias for one.
pub proof fn law_format_method<'a, L: TemplateLanguage<'a>>(
    language: &L,
    bindings: Bindings<MeaningIn<'a, L>>,
    node: ExpressionNode<'_>,
    property: PropertyIn<'a, L, Timestamp>,
    context: L::Context,
    scope: Seq<ItemIn<'a, L>>,
) where String: ListItem<L::Item>
    requires
        uses_builtin_methods::<L>(language),
        calls_method(language, bindings, node, CoreMeaning::Timestamp(property), "format"@, 1),
        unaliased(argument(node, 0)).kind is String,
        is_time_format(unaliased(argument(node, 0)).kind->String_0@),
    ensures
        ({
            let format = unaliased(argument(node, 0)).kind->String_0@;
            let offset = |timestamp: Timestamp|
                if -1440 < timestamp.tz_offset < 1440 {
                    60 * timestamp.tz_offset as int
                } else {
                    0int
                };
            text_value(language, bindings, node, context, scope) == Some(
                match property(context, scope) {
                    Ok(timestamp) => if is_dated(timestamp) {
                        match formatted_datetime(
                            timestamp.timestamp.0,
                            offset(timestamp) as i32,
                            format,
                        ) {
                            Some(text) => Ok::<Seq<char>, Seq<char>>(text),
                            None => Err("Invalid time format"@),
                        }
                    } else {
                        Err("Out-of-range date"@)
                    },
                    Err(message) => Err(message),
                },
            )
        }),
{
    assert(timestamp_methods_table::<L>()[1].0 == "format"@);
    lemma_timestamp_method(language, bindings, node, property, 1, 1);
}

/// `len` of a list counts its items.
pub proof fn law_list_len_method<'a, L: TemplateLanguage<'a>>(
    language: &L,
    bindings: Bindings<MeaningIn<'a, L>>,
    node: ExpressionNode<'_>,
    property: PropertyIn<'a, L, Seq<Seq<char>>>,
    context: L::Context,
    scope: Seq<ItemIn<'a, L>>,
) where String: ListItem<L::Item>
    requires
        uses_builtin_methods::<L>(language),
        calls_method(language, bindings, node, CoreMeaning::StringList(property), "len"@, 0),
    ensures
        match property(context, scope) {
            Ok(items) => items.len() <= i64::MAX ==> (integer_value(
                language,
                bindings,
                node,
                context,
                scope,
            ) matches Some(Ok(length)) && length == items.len()),
            Err(message) => integer_value(language, bindings, node, context, scope) == Some(
                Err::<i64, Seq<char>>(message),
            ),
        },
{
    law_core_method_call(
        language,
        builtin_table::<L>(),
        bindings,
        node,
        CoreMeaning::StringList(property),
    );
}

pub proof fn lemma_list_names()
    ensures
        "len"@ != "join"@,
        "len"@ != "map"@,
        "join"@ != "map"@,
{
    reveal_strlit("len");
    reveal_strlit("join");
    reveal_strlit("map");
    assert("len"@.len() != "join"@.len());
    assert("map"@.len() != "join"@.len());
    assert("len"@[0] != "map"@[0]);
}

/// `join` of a list of texts writes the texts with the separator between each two.
pub proof fn law_list_join_method<'a, L: TemplateLanguage<'a>>(
    language: &L,
    bindings: Bindings<MeaningIn<'a, L>>,
    node: ExpressionNode<'_>,
    property: PropertyIn<'a, L, Seq<Seq<char>>>,
    context: L::Context,
    scope: Seq<ItemIn<'a, L>>,
) where String: ListItem<L::Item>
    requires
        uses_builtin_methods::<L>(language),
        calls_method(language, bindings, node, CoreMeaning::StringList(property), "join"@, 1),
        output_of(language, bindings, argument(node, 0), context, scope) is Some,
    ensures
        ({
            let separator = output_of(language, bindings, argument(node, 0), context, scope)->0;
            plain_output(language, bindings, node, context, scope) == Some(
                match property(context, scope) {
                    Ok(items) => joined(
                        Seq::new(items.len(), |i: int| plain(items[i])),
                        separator,
                    ),
                    Err(message) => error_output(message),
                },
            )
        }),
{
    lemma_list_names();
    law_core_method_call(
        language,
        builtin_table::<L>(),
        bindings,
        node,
        CoreMeaning::StringList(property),
    );
    if let Ok(items) = property(context, scope) {
        let shown = <String as Printable>::shown();
        assert(items.map_values(shown) =~= Seq::new(items.len(), |i: int| plain(items[i])));
    }
}

/// What an expression writes, without its own labels.
pub open spec fn plain_output<'a, L: TemplateLanguage<'a>>(
    language: &L,
    bindings: Bindings<MeaningIn<'a, L>>,
    node: ExpressionNode<'_>,
    context: L::Context,
    scope: Seq<ItemIn<'a, L>>,
) -> Option<Output> {
    match expression_meaning(language, bindings, node) {
        Ok(expression) => match L::Property::template_of(expression.property) {
            Some(template) => Some(template(context, scope)),
            None => None,
        },
        Err(_) => None,
    }
}

/// `map` of a list of texts writes the body of its lambda for each text, with a space between
/// each two; the parameter of the lambda means the text, inside all that is in scope. `join`
/// of what `map` gives puts another separator there.
pub proof fn law_list_map_method<'a, L: TemplateLanguage<'a>>(
    language: &L,
    bindings: Bindings<MeaningIn<'a, L>>,
    node: ExpressionNode<'_>,
    join: ExpressionNode<'_>,
    property: PropertyIn<'a, L, Seq<Seq<char>>>,
    lambda: LambdaNode<'_>,
    context: L::Context,
    scope: Seq<ItemIn<'a, L>>,
) where String: ListItem<L::Item>
    requires
        uses_builtin_methods::<L>(language),
        calls_method(language, bindings, node, CoreMeaning::StringList(property), "map"@, 1),
        unaliased(argument(node, 0)).kind matches ExpressionKind::Lambda(found) && *found == lambda,
        lambda.params.len() == 1,
        bindings.variables.len() <= usize::MAX,
        join.kind is MethodCall,
        join.kind->MethodCall_0.object == node,
        join.kind->MethodCall_0.function.name@ == "join"@,
        join.kind->MethodCall_0.function.args.len() == 1,
        output_of(language, bindings, argument(join, 0), context, scope) is Some,
        property(context, scope) is Ok,
        forall|i: int|
            0 <= i < property(context, scope)->Ok_0.len() ==> (#[trigger] body_output(
                language,
                bindings,
                lambda,
                context,
                scope,
                property(context, scope)->Ok_0[i],
            )) is Some,
        template_error(language, inner_bindings(language, bindings, lambda), lambda.body) is None,
    ensures
        ({
            let items = property(context, scope)->Ok_0;
            let outputs = Seq::new(
                items.len(),
                |i: int|
                    body_output(language, bindings, lambda, context, scope, items[i])->0,
            );
            let separator = output_of(language, bindings, argument(join, 0), context, scope)->0;
            &&& plain_output(language, bindings, node, context, scope) == Some(
                joined(outputs, plain(" "@)),
            )
            &&& plain_output(language, bindings, join, context, scope) == Some(
                joined(outputs, separator),
            )
        }),
{
    lemma_list_names();
    law_core_method_call(
        language,
        builtin_table::<L>(),
        bindings,
        node,
        CoreMeaning::StringList(property),
    );
    let inner = inner_bindings(language, bindings, lambda);
    let template = as_template::<L>(
        expression_meaning(language, inner, lambda.body),
        lambda.body.span,
    )->Ok_0;
    let list = template_for_each(property, stored_item::<L::Item, String>(), template);
    let whole = expression_meaning(language, bindings, node);
    assert(whole is Ok && whole->Ok_0.property == language.wrapped_list_template(list));
    law_core_method_call(
        language,
        builtin_table::<L>(),
        bindings,
        join,
        CoreMeaning::ListTemplate(list),
    );
    let items = property(context, scope)->Ok_0;
    let outputs = Seq::new(
        items.len(),
        |i: int| body_output(language, bindings, lambda, context, scope, items[i])->0,
    );
    assert(list(context, scope)->Ok_0 =~= outputs);
}

/// What the body of a lambda may refer to: what stands around it, and its parameter, which
/// reads the innermost list item.
pub open spec fn inner_bindings<'a, L: TemplateLanguage<'a>>(
    language: &L,
    bindings: Bindings<MeaningIn<'a, L>>,
    lambda: LambdaNode<'_>,
) -> Bindings<MeaningIn<'a, L>> where String: ListItem<L::Item> {
    Bindings {
        variables: bindings.variables.push(
            (
                lambda.params[0]@,
                language.wrapped_string(
                    item_at(
                        bindings.variables.len() as int,
                        <String as ListItem<L::Item>>::read(),
                    ),
                ),
            ),
        ),
        now: bindings.now,
    }
}

/// What the body of a lambda writes for a text.
pub open spec fn body_output<'a, L: TemplateLanguage<'a>>(
    language: &L,
    bindings: Bindings<MeaningIn<'a, L>>,
    lambda: LambdaNode<'_>,
    context: L::Context,
    scope: Seq<ItemIn<'a, L>>,
    text: Seq<char>,
) -> Option<Output> where String: ListItem<L::Item> {
    output_of(
        language,
        inner_bindings(language, bindings, lambda),
        lambda.body,
        context,
        scope.push(<String as ListItem<L::Item>>::stored(text)),
    )
}

}
