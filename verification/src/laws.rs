//! Laws that relate the meanings of templates to each other.
use vstd::prelude::*;
use vstd::string::*;
use vstd::utf8::*;

use crate::ast::ExpressionNode;
use crate::builder::{expression_meaning, keyword_call, keyword_meaning, ExpressionMeaning};
use crate::error::{with_names, ParseError, ParseErrorKind};
use crate::functions::{logical_and, logical_not, logical_or, negation, timestamp_in_zone};
use crate::language::{Bindings, CoreMeaning, MeaningIn, TemplateLanguage};
use crate::methods::{
    disjoint, entry_of, lemma_place_of, lemma_signature_methods_differ, lemma_string_methods_differ,
    lemma_timestamp_methods_differ, lemma_timestamp_range_methods_differ, names_differ, place_of,
    signature_methods_table, string_methods_table, timestamp_methods_table,
    timestamp_range_methods_table,
};
use crate::property::{item_at, mapped, paired, ListItem, PropertyFn};
use crate::text::{
    begins_with, char_boundary_of_index, finishes_with, first_line_of, is_whitespace,
    lemma_boundary_at_or_after, lemma_boundary_at_or_before, lemma_index_is_boundary,
    lemma_position_of, lines_from, lines_of, position_of, position_of_white, substring,
    without_carriage_return, without_prefix, without_suffix, words_from, words_of,
};
use crate::time::{range_text, Timestamp, TimestampRange};

verus! {

/// A local variable hides a keyword of the same name, and is not labeled.
pub proof fn law_local_variable_hides_keyword<'a, L: TemplateLanguage<'a>>(
    language: &L,
    bindings: Bindings<MeaningIn<'a, L>>,
    node: ExpressionNode<'_>,
)
    requires
        node.kind is Identifier,
        bindings.lookup(node.kind->Identifier_0@) is Some,
    ensures
        expression_meaning(language, bindings, node) == Ok::<_, ParseError>(
            ExpressionMeaning::unlabeled(bindings.lookup(node.kind->Identifier_0@)->0),
        ),
{
}

/// The parameter of a lambda means the list item inside the lambda; other names mean there
/// what they mean outside.
pub proof fn law_innermost_variable_counts<M>(
    bindings: Bindings<M>,
    name: Seq<char>,
    meaning: M,
    other: Seq<char>,
)
    ensures
        bindings.with_variable(name, meaning).lookup(name) == Some(meaning),
        other != name ==> bindings.with_variable(name, meaning).lookup(other) == bindings.lookup(
            other,
        ),
{
    assert(bindings.with_variable(name, meaning).variables.drop_last() =~= bindings.variables);
}

/// The word `self` is not labeled.
pub proof fn law_self_is_unlabeled<'a, L: TemplateLanguage<'a>>(
    language: &L,
    bindings: Bindings<MeaningIn<'a, L>>,
    node: ExpressionNode<'_>,
)
    requires
        node.kind is Identifier,
        node.kind->Identifier_0@ == "self"@,
        bindings.lookup("self"@) is None,
    ensures
        expression_meaning(language, bindings, node) == Ok::<_, ParseError>(
            ExpressionMeaning::unlabeled(language.self_meaning()),
        ),
{
}

/// A keyword means the same as the method of that name without arguments, called on `self`.
pub proof fn law_keyword_is_method_of_self<'a, L: TemplateLanguage<'a>>(
    language: &L,
    bindings: Bindings<MeaningIn<'a, L>>,
    keyword: ExpressionNode<'_>,
    call: ExpressionNode<'_>,
)
    requires
        keyword.kind is Identifier,
        keyword.kind->Identifier_0@ != "self"@,
        bindings.lookup(keyword.kind->Identifier_0@) is None,
        bindings.lookup("self"@) is None,
        call.kind is MethodCall,
        call.kind->MethodCall_0.object.kind is Identifier,
        call.kind->MethodCall_0.object.kind->Identifier_0@ == "self"@,
        call.kind->MethodCall_0.function@ == keyword_call(
            keyword.kind->Identifier_0@,
            keyword.span,
        ),
    ensures
        expression_meaning(language, bindings, keyword) is Ok == expression_meaning(
            language,
            bindings,
            call,
        ) is Ok,
        expression_meaning(language, bindings, keyword) is Ok ==> expression_meaning(
            language,
            bindings,
            keyword,
        ) == expression_meaning(language, bindings, call),
{
    let name = keyword.kind->Identifier_0@;
    let object = call.kind->MethodCall_0.object;
    law_self_is_unlabeled(language, bindings, object);
    assert(Seq::<Seq<char>>::empty().push(name) =~= seq![name]);
}

/// Whatever is wrong with a keyword, the error says that there is none of that name, and
/// offers `self` and the local variables among the candidates.
pub proof fn law_keyword_errors<'a, L: TemplateLanguage<'a>>(
    language: &L,
    bindings: Bindings<MeaningIn<'a, L>>,
    node: ExpressionNode<'_>,
)
    requires
        node.kind is Identifier,
        expression_meaning(language, bindings, node) is Err,
    ensures
        ({
            let error = expression_meaning(language, bindings, node)->Err_0;
            &&& error.span == node.span
            &&& error.origin is None
            &&& error.kind matches ParseErrorKind::NoSuchKeyword { name, candidates } && {
                &&& name == node.kind->Identifier_0@
                &&& candidates.contains("self"@)
                &&& forall|i: int|
                    0 <= i < bindings.variables.len() ==> candidates.contains(
                        (#[trigger] bindings.variables[i]).0,
                    )
            }
        }),
{
    let name = node.kind->Identifier_0@;
    let error = keyword_meaning(language, bindings, name, node.span)->Err_0;
    let known = error.kind->NoSuchKeyword_candidates;
    let names = bindings.names().push("self"@);
    assert(names.last() == "self"@);
    lemma_names_are_added(known, names, names.len() - 1);
    assert forall|i: int| 0 <= i < bindings.variables.len() implies with_names(
        known,
        names,
    ).contains((#[trigger] bindings.variables[i]).0) by {
        assert(names[i] == bindings.variables[i].0);
        lemma_names_are_added(known, names, i);
    }
}

/// Each name that is added is there, and so is each that was there before.
pub proof fn lemma_names_are_added(list: Seq<Seq<char>>, names: Seq<Seq<char>>, i: int)
    requires
        0 <= i < names.len(),
    ensures
        with_names(list, names).contains(names[i]),
    decreases names.len(),
{
    let rest = names.drop_last();
    let before = with_names(list, rest);
    if i < rest.len() {
        lemma_names_are_added(list, rest, i);
        assert(rest[i] == names[i]);
        if !before.contains(names.last()) {
            let k = choose|k: int| 0 <= k < before.len() && before[k] == names[i];
            assert(before.push(names.last())[k] == names[i]);
        }
    } else if !before.contains(names.last()) {
        assert(before.push(names.last())[before.len() as int] == names[i]);
    }
}

/// An alias means what it stands for. An error in what it stands for is told together with
/// the alias.
pub proof fn law_alias_means_its_expansion<'a, L: TemplateLanguage<'a>>(
    language: &L,
    bindings: Bindings<MeaningIn<'a, L>>,
    node: ExpressionNode<'_>,
)
    requires
        node.kind is AliasExpanded,
    ensures
        ({
            let inner = expression_meaning(language, bindings, *node.kind->AliasExpanded_1);
            let outer = expression_meaning(language, bindings, node);
            &&& inner is Ok ==> outer == inner
            &&& inner is Err ==> outer is Err && outer->Err_0.origin == Some(
                Box::new(inner->Err_0),
            ) && outer->Err_0.span == node.span && outer->Err_0.kind
                == ParseErrorKind::BadAliasExpansion(node.kind->AliasExpanded_0.shown())
        }),
{
}

/// A lambda is no value.
pub proof fn law_lambda_is_no_value<'a, L: TemplateLanguage<'a>>(
    language: &L,
    bindings: Bindings<MeaningIn<'a, L>>,
    node: ExpressionNode<'_>,
)
    requires
        node.kind is Lambda,
    ensures
        expression_meaning(language, bindings, node) is Err,
{
}

/// A method call has the labels of its object and the name of the method.
pub proof fn law_method_call_adds_label<'a, L: TemplateLanguage<'a>>(
    language: &L,
    bindings: Bindings<MeaningIn<'a, L>>,
    node: ExpressionNode<'_>,
)
    requires
        node.kind is MethodCall,
        expression_meaning(language, bindings, node) is Ok,
    ensures
        ({
            let method = node.kind->MethodCall_0;
            let object = expression_meaning(language, bindings, method.object);
            object is Ok && expression_meaning(language, bindings, node)->Ok_0.labels
                == object->Ok_0.labels.push(method.function.name@)
        }),
{
}

/// Literals, operators, concatenations and global functions are not labeled.
pub proof fn law_only_keywords_and_methods_are_labeled<'a, L: TemplateLanguage<'a>>(
    language: &L,
    bindings: Bindings<MeaningIn<'a, L>>,
    node: ExpressionNode<'_>,
)
    requires
        !(node.kind is Identifier || node.kind is MethodCall || node.kind is AliasExpanded),
        expression_meaning(language, bindings, node) is Ok,
    ensures
        expression_meaning(language, bindings, node)->Ok_0.labels.len() == 0,
{
}

/// A list item that is put in scope is what the placeholder for its level reads.
pub proof fn law_placeholder_reads_item<C, V: DeepView, O: ListItem<V>>(
    context: C,
    scope: Seq<V::V>,
    value: O::V,
)
    ensures
        item_at::<C, V::V, O::V>(scope.len() as int, O::read())(
            context,
            scope.push(O::stored(value)),
        ) == Ok::<O::V, Seq<char>>(value),
{
    O::read_gives_stored(value);
}

/// A list item in scope is the same for the placeholders further out.
pub proof fn law_outer_items_stay<C, W, T>(
    context: C,
    scope: Seq<W>,
    item: W,
    level: int,
    read: spec_fn(W) -> Option<T>,
)
    requires
        0 <= level < scope.len(),
    ensures
        item_at::<C, W, T>(level, read)(context, scope.push(item)) == item_at::<C, W, T>(
            level,
            read,
        )(context, scope),
{
}

/// There is no short-circuiting: an operand without a value leaves the operation without
/// one, whatever the other operand is.
pub proof fn law_no_short_circuit<C, W>(
    lhs: PropertyFn<C, W, bool>,
    rhs: PropertyFn<C, W, bool>,
    context: C,
    scope: Seq<W>,
)
    ensures
        mapped(paired(lhs, rhs), logical_or())(context, scope) is Ok == (lhs(context, scope) is Ok
            && rhs(context, scope) is Ok),
        mapped(paired(lhs, rhs), logical_and())(context, scope) is Ok == (lhs(
            context,
            scope,
        ) is Ok && rhs(context, scope) is Ok),
{
}

/// The opposite of the opposite is the value itself.
pub proof fn law_double_not<C, W>(property: PropertyFn<C, W, bool>, context: C, scope: Seq<W>)
    ensures
        mapped(mapped(property, logical_not()), logical_not())(context, scope) == property(
            context,
            scope,
        ),
{
}

/// Negating twice gives the integer itself, unless the first negation overflows.
pub proof fn law_double_negation<C, W>(property: PropertyFn<C, W, i64>, context: C, scope: Seq<W>)
    requires
        property(context, scope) != Ok::<i64, Seq<char>>(i64::MIN),
    ensures
        mapped(mapped(property, negation()), negation())(context, scope) == property(
            context,
            scope,
        ),
{
}

/// Only integers are taken for integers, and no integer is taken for a boolean.
pub proof fn law_integers_are_apart<C, W>(meaning: CoreMeaning<C, W>)
    ensures
        meaning.integer() is Some == meaning is Integer,
        meaning is Integer ==> meaning.boolean() is None,
{
}

/// Moving a timestamp to another offset from UTC leaves the instant as it is, and doing so
/// twice is the same as doing it last.
pub proof fn law_zone_keeps_instant(timestamp: Timestamp, first: i32, second: i32)
    ensures
        timestamp_in_zone(first)(timestamp) is Ok,
        timestamp_in_zone(first)(timestamp)->Ok_0.timestamp == timestamp.timestamp,
        timestamp_in_zone(second)(timestamp_in_zone(first)(timestamp)->Ok_0) == timestamp_in_zone(
            second,
        )(timestamp),
{
}

/// A range of time is never said to last "now".
pub proof fn law_duration_is_never_now(range: TimestampRange)
    ensures
        range_text(range) != Ok::<Seq<char>, Seq<char>>("now"@),
{
    reveal_strlit("now");
    reveal_strlit("less than a microsecond");
    assert("now"@.len() != "less than a microsecond"@.len());
}

/// A method of a merged table is one of either table.
pub proof fn law_merged_table_has_both<M>(
    base: Seq<(Seq<char>, M)>,
    extension: Seq<(Seq<char>, M)>,
    name: Seq<char>,
)
    requires
        disjoint(base, extension),
    ensures
        entry_of(base + extension, name) == match entry_of(base, name) {
            Some(entry) => Some(entry),
            None => entry_of(extension, name),
        },
{
    let all = base + extension;
    lemma_place_of(base, name);
    lemma_place_of(extension, name);
    lemma_place_of(all, name);
    let place = place_of(all, name);
    if place_of(base, name) < base.len() {
        let i = place_of(base, name);
        assert(all[i] == base[i]);
        if place < i {
            assert(all[place] == base[place]);
        }
    } else if place_of(extension, name) < extension.len() {
        let i = place_of(extension, name);
        assert(all[base.len() + i] == extension[i]);
        if place < base.len() {
            assert(all[place] == base[place]);
        } else if place < base.len() + i {
            assert(all[place] == extension[place - base.len()]);
        }
    } else if place < all.len() {
        if place < base.len() {
            assert(all[place] == base[place]);
        } else {
            assert(all[place] == extension[place - base.len()]);
        }
    }
}

/// In a table with each name once, each entry is found under its name.
pub proof fn law_each_entry_is_found<M>(table: Seq<(Seq<char>, M)>, i: int)
    requires
        names_differ(table),
        0 <= i < table.len(),
    ensures
        entry_of(table, table[i].0) == Some(table[i].1),
{
    lemma_place_of(table, table[i].0);
    let place = place_of(table, table[i].0);
    if place < i {
        assert(table[place].0 != table[i].0);
    }
}

/// A text is what was removed from its start and what remained.
pub proof fn law_prefix_and_rest(text: Seq<char>, prefix: Seq<char>)
    ensures
        begins_with(text, prefix) ==> prefix + without_prefix(text, prefix) == text,
        !begins_with(text, prefix) ==> without_prefix(text, prefix) == text,
        without_prefix(prefix + text, prefix) == text,
{
    if begins_with(text, prefix) {
        assert(prefix + without_prefix(text, prefix) =~= text);
    }
    assert((prefix + text).take(prefix.len() as int) =~= prefix);
    assert(without_prefix(prefix + text, prefix) =~= text);
}

/// A text is what remained and what was removed from its end.
pub proof fn law_rest_and_suffix(text: Seq<char>, suffix: Seq<char>)
    ensures
        finishes_with(text, suffix) ==> without_suffix(text, suffix) + suffix == text,
        !finishes_with(text, suffix) ==> without_suffix(text, suffix) == text,
        without_suffix(text + suffix, suffix) == text,
{
    if finishes_with(text, suffix) {
        assert(without_suffix(text, suffix) + suffix =~= text);
    }
    assert((text + suffix).skip(text.len() as int) =~= suffix);
    assert(without_suffix(text + suffix, suffix) =~= text);
}

/// An index beyond the text stands for its end, and one that reaches back beyond it for its
/// start.
pub proof fn law_index_is_clamped(text: Seq<char>, i: int)
    ensures
        i >= encode_utf8(text).len() ==> char_boundary_of_index(text, i) == encode_utf8(text).len(),
        i <= -encode_utf8(text).len() && i < 0 ==> char_boundary_of_index(text, i) == 0,
{
    let bytes = encode_utf8(text);
    encode_utf8_valid_utf8(text);
    is_char_boundary_start_end_of_seq(bytes);
}

/// The parts of a text before and behind an index make up the text.
pub proof fn law_parts_make_up_text(text: Seq<char>, i: int, end: int)
    requires
        end >= encode_utf8(text).len(),
    ensures
        substring(text, 0, i) + substring(text, i, end) == text,
{
    let bytes = encode_utf8(text);
    let at = char_boundary_of_index(text, i);
    encode_utf8_valid_utf8(text);
    lemma_index_is_boundary(text, i);
    law_index_is_clamped(text, end);
    decode_utf8_split(bytes, at);
    encode_utf8_decode_utf8(text);
}

/// A part is empty where its end does not come behind its start.
pub proof fn law_reversed_part_is_empty(text: Seq<char>, start: int, end: int)
    requires
        char_boundary_of_index(text, end) <= char_boundary_of_index(text, start),
    ensures
        substring(text, start, end) == Seq::<char>::empty(),
{
    let at = char_boundary_of_index(text, start);
    if char_boundary_of_index(text, end) == at {
        lemma_index_is_boundary(text, start);
        assert(encode_utf8(text).subrange(at, at) =~= Seq::empty());
    }
}

/// Each builtin method is found under its name.
pub proof fn law_builtin_methods_are_found<'a, L: TemplateLanguage<'a>>()
    ensures
        forall|i: int|
            0 <= i < string_methods_table::<L>().len() ==> entry_of(
                string_methods_table::<L>(),
                (#[trigger] string_methods_table::<L>()[i]).0,
            ) == Some(string_methods_table::<L>()[i].1),
        forall|i: int|
            0 <= i < signature_methods_table::<L>().len() ==> entry_of(
                signature_methods_table::<L>(),
                (#[trigger] signature_methods_table::<L>()[i]).0,
            ) == Some(signature_methods_table::<L>()[i].1),
        forall|i: int|
            0 <= i < timestamp_methods_table::<L>().len() ==> entry_of(
                timestamp_methods_table::<L>(),
                (#[trigger] timestamp_methods_table::<L>()[i]).0,
            ) == Some(timestamp_methods_table::<L>()[i].1),
        forall|i: int|
            0 <= i < timestamp_range_methods_table::<L>().len() ==> entry_of(
                timestamp_range_methods_table::<L>(),
                (#[trigger] timestamp_range_methods_table::<L>()[i]).0,
            ) == Some(timestamp_range_methods_table::<L>()[i].1),
{
    lemma_string_methods_differ::<L>();
    lemma_signature_methods_differ::<L>();
    lemma_timestamp_methods_differ::<L>();
    lemma_timestamp_range_methods_differ::<L>();
    assert forall|i: int| 0 <= i < string_methods_table::<L>().len() implies entry_of(
        string_methods_table::<L>(),
        (#[trigger] string_methods_table::<L>()[i]).0,
    ) == Some(string_methods_table::<L>()[i].1) by {
        law_each_entry_is_found(string_methods_table::<L>(), i);
    }
    assert forall|i: int| 0 <= i < signature_methods_table::<L>().len() implies entry_of(
        signature_methods_table::<L>(),
        (#[trigger] signature_methods_table::<L>()[i]).0,
    ) == Some(signature_methods_table::<L>()[i].1) by {
        law_each_entry_is_found(signature_methods_table::<L>(), i);
    }
    assert forall|i: int| 0 <= i < timestamp_methods_table::<L>().len() implies entry_of(
        timestamp_methods_table::<L>(),
        (#[trigger] timestamp_methods_table::<L>()[i]).0,
    ) == Some(timestamp_methods_table::<L>()[i].1) by {
        law_each_entry_is_found(timestamp_methods_table::<L>(), i);
    }
    assert forall|i: int| 0 <= i < timestamp_range_methods_table::<L>().len() implies entry_of(
        timestamp_range_methods_table::<L>(),
        (#[trigger] timestamp_range_methods_table::<L>()[i]).0,
    ) == Some(timestamp_range_methods_table::<L>()[i].1) by {
        law_each_entry_is_found(timestamp_range_methods_table::<L>(), i);
    }
}

/// A line holds no line feed.
pub proof fn law_lines_hold_no_line_feed(text: Seq<char>)
    ensures
        forall|i: int|
            0 <= i < lines_of(text).len() ==> !(#[trigger] lines_of(text)[i]).contains('\n'),
{
    lemma_lines_hold_no_line_feed(text, 0);
}

proof fn lemma_lines_hold_no_line_feed(text: Seq<char>, from: int)
    requires
        0 <= from <= text.len(),
    ensures
        forall|i: int|
            0 <= i < lines_from(text, from).len() ==> !(#[trigger] lines_from(
                text,
                from,
            )[i]).contains('\n'),
    decreases text.len() - from,
{
    let end = position_of(text, '\n', from);
    lemma_position_of(text, '\n', from);
    if from < text.len() && end < text.len() {
        lemma_lines_hold_no_line_feed(text, end + 1);
        let first = without_carriage_return(text.subrange(from, end));
        let others = lines_from(text, end + 1);
        assert forall|i: int| 0 <= i < lines_from(text, from).len() implies !(
        #[trigger] lines_from(text, from)[i]).contains('\n') by {
            if i > 0 {
                assert(lines_from(text, from)[i] == others[i - 1]);
            }
        }
    }
}

/// The lines one behind the other, each with a line feed behind it.
pub open spec fn with_line_feeds(lines: Seq<Seq<char>>) -> Seq<char>
    decreases lines.len(),
{
    if lines.len() == 0 {
        Seq::empty()
    } else {
        lines[0].push('\n') + with_line_feeds(lines.skip(1))
    }
}

/// The lines of a text without carriage returns make up the text, with a line feed behind
/// the last one.
pub proof fn law_lines_make_up_text(text: Seq<char>)
    requires
        !text.contains('\r'),
    ensures
        with_line_feeds(lines_of(text)) == if text.len() == 0 || text.last() == '\n' {
            text
        } else {
            text.push('\n')
        },
{
    lemma_lines_make_up_text(text, 0);
    assert(text.skip(0) =~= text);
}

proof fn lemma_lines_make_up_text(text: Seq<char>, from: int)
    requires
        0 <= from <= text.len(),
        !text.contains('\r'),
    ensures
        with_line_feeds(lines_from(text, from)) == if from == text.len() || text.last() == '\n' {
            text.skip(from)
        } else {
            text.skip(from).push('\n')
        },
    decreases text.len() - from,
{
    let end = position_of(text, '\n', from);
    lemma_position_of(text, '\n', from);
    if from == text.len() {
        assert(text.skip(from) =~= Seq::empty());
    } else if end < text.len() {
        lemma_lines_make_up_text(text, end + 1);
        let line = text.subrange(from, end);
        assert forall|i: int| 0 <= i < line.len() implies line[i] != '\r' by {
            assert(text[from + i] != '\r');
        }
        let lines = lines_from(text, from);
        assert(lines[0] == line);
        assert(lines.skip(1) =~= lines_from(text, end + 1));
        assert(line.push('\n') + text.skip(end + 1) =~= text.skip(from));
        assert(line.push('\n') + text.skip(end + 1).push('\n') =~= text.skip(from).push('\n'));
    } else {
        let lines = lines_from(text, from);
        assert(lines.skip(1) =~= Seq::empty());
        assert(with_line_feeds(lines.skip(1)) =~= Seq::empty());
        assert(text.last() != '\n');
        assert(with_line_feeds(lines) =~= text.skip(from).push('\n'));
    }
}

/// A word is not empty and holds no white space.
pub proof fn law_words_hold_no_white_space(text: Seq<char>)
    ensures
        forall|i: int, j: int|
            0 <= i < words_of(text).len() && 0 <= j < words_of(text)[i].len() ==> !is_whitespace(
                #[trigger] words_of(text)[i][j],
            ),
        forall|i: int| 0 <= i < words_of(text).len() ==> (#[trigger] words_of(text)[i]).len() > 0,
{
    lemma_words_hold_no_white_space(text, 0);
}

proof fn lemma_words_hold_no_white_space(text: Seq<char>, from: int)
    requires
        0 <= from <= text.len(),
    ensures
        forall|i: int, j: int|
            0 <= i < words_from(text, from).len() && 0 <= j < words_from(text, from)[i].len()
                ==> !is_whitespace(#[trigger] words_from(text, from)[i][j]),
        forall|i: int|
            0 <= i < words_from(text, from).len() ==> (#[trigger] words_from(
                text,
                from,
            )[i]).len() > 0,
    decreases text.len() - from,
{
    let start = position_of_white(text, false, from);
    let end = position_of_white(text, true, start);
    if from <= start < end <= text.len() {
        lemma_words_hold_no_white_space(text, end);
        lemma_no_white_before(text, start);
        let all = words_from(text, from);
        let others = words_from(text, end);
        assert forall|i: int| 0 <= i < all.len() implies (#[trigger] all[i]).len() > 0 by {
            if i > 0 {
                assert(all[i] == others[i - 1]);
            }
        }
        assert forall|i: int, j: int|
            0 <= i < all.len() && 0 <= j < all[i].len() implies !is_whitespace(
            #[trigger] all[i][j],
        ) by {
            if i > 0 {
                assert(all[i] == others[i - 1]);
                assert(!is_whitespace(others[i - 1][j]));
            }
        }
    }
}

proof fn lemma_no_white_before(text: Seq<char>, from: int)
    requires
        0 <= from <= text.len(),
    ensures
        forall|i: int|
            from <= i < position_of_white(text, true, from) && i < text.len() ==> !is_whitespace(
                text[i],
            ),
    decreases text.len() - from,
{
    if from < text.len() && !is_whitespace(text[from]) {
        lemma_no_white_before(text, from + 1);
    }
}

pub proof fn lemma_white_position(text: Seq<char>, white: bool, from: int)
    requires
        0 <= from <= text.len(),
    ensures
        from <= position_of_white(text, white, from) <= text.len(),
    decreases text.len() - from,
{
    if from < text.len() && is_whitespace(text[from]) != white {
        lemma_white_position(text, white, from + 1);
    }
}

proof fn lemma_white_position_behind(before: Seq<char>, text: Seq<char>, white: bool, from: int)
    requires
        0 <= from <= text.len(),
    ensures
        position_of_white(before + text, white, before.len() + from) == before.len()
            + position_of_white(text, white, from),
    decreases text.len() - from,
{
    if from < text.len() {
        assert((before + text)[before.len() + from] == text[from]);
        if is_whitespace(text[from]) != white {
            lemma_white_position_behind(before, text, white, from + 1);
        }
    }
}

pub proof fn lemma_words_behind(before: Seq<char>, text: Seq<char>, from: int)
    requires
        0 <= from <= text.len(),
    ensures
        words_from(before + text, before.len() + from) == words_from(text, from),
    decreases text.len() - from,
{
    let start = position_of_white(text, false, from);
    lemma_white_position(text, false, from);
    let end = position_of_white(text, true, start);
    lemma_white_position(text, true, start);
    lemma_white_position_behind(before, text, false, from);
    lemma_white_position_behind(before, text, true, start);
    if start < end {
        lemma_words_behind(before, text, end);
        assert((before + text).subrange(before.len() + start, before.len() + end)
            =~= text.subrange(start, end));
    }
}

/// A space ends a word: what comes before it is a word if it holds no white space itself, and
/// the words behind it are words of their own.
pub proof fn law_space_ends_word(word: Seq<char>, text: Seq<char>)
    requires
        word.len() > 0,
        forall|i: int| 0 <= i < word.len() ==> !is_whitespace(#[trigger] word[i]),
    ensures
        words_of(word) == seq![word],
        words_of(word.push(' ') + text) == seq![word] + words_of(text),
{
    let all = word.push(' ') + text;
    assert(all[0] == word[0]);
    lemma_word_reaches(word, word.len() as int, 0);
    lemma_word_reaches(all, word.len() as int, 0);
    assert(word.subrange(0, word.len() as int) =~= word);
    assert(all.subrange(0, word.len() as int) =~= word);
    assert(words_from(word, word.len() as int) =~= Seq::empty());
    assert(words_of(word) =~= seq![word]);
    lemma_words_behind(word.push(' '), text, 0);
    let behind = word.len() as int;
    assert(all[behind] == ' ');
    assert(position_of_white(all, false, behind) == position_of_white(all, false, behind + 1));
    assert(words_from(all, behind) == words_from(all, behind + 1)) by {
        lemma_white_position(all, false, behind + 1);
        lemma_white_position(all, true, position_of_white(all, false, behind + 1));
    }
}

pub proof fn lemma_word_reaches(text: Seq<char>, end: int, from: int)
    requires
        0 <= from <= end <= text.len(),
        forall|i: int| from <= i < end ==> !is_whitespace(#[trigger] text[i]),
        end < text.len() ==> is_whitespace(text[end]),
    ensures
        position_of_white(text, true, from) == end,
    decreases end - from,
{
    if from < end {
        assert(!is_whitespace(text[from]));
        lemma_word_reaches(text, end, from + 1);
    }
}

/// Rounding an index that is rounded already changes nothing.
pub proof fn law_rounding_is_idempotent(text: Seq<char>, i: int)
    ensures
        char_boundary_of_index(text, char_boundary_of_index(text, i)) == char_boundary_of_index(
            text,
            i,
        ),
{
    lemma_index_is_boundary(text, i);
}

/// One position, counted from either end of the text, is rounded to the boundaries to its two
/// sides. They are the same exactly where the position is a boundary itself.
pub proof fn law_index_from_either_end(text: Seq<char>, k: int)
    requires
        1 <= k <= encode_utf8(text).len(),
    ensures
        ({
            let at = encode_utf8(text).len() - k;
            let left = char_boundary_of_index(text, at);
            let right = char_boundary_of_index(text, -k);
            &&& left <= at <= right
            &&& left == right <==> is_char_boundary(encode_utf8(text), at)
        }),
{
    let bytes = encode_utf8(text);
    let at = bytes.len() - k;
    encode_utf8_valid_utf8(text);
    is_char_boundary_start_end_of_seq(bytes);
    lemma_boundary_at_or_before(bytes, at);
    lemma_boundary_at_or_after(bytes, at);
}

/// There are no lines exactly where there is no text, and the first line is the first of the
/// lines.
pub proof fn law_first_line_is_first_of_lines(text: Seq<char>)
    ensures
        lines_of(text).len() == 0 <==> text.len() == 0,
        first_line_of(text) == if text.len() == 0 {
            Seq::empty()
        } else {
            lines_of(text)[0]
        },
{
}

/// A line feed at the end adds no line.
pub proof fn law_final_line_feed_adds_no_line(text: Seq<char>)
    requires
        text.len() > 0,
        text.last() != '\n',
        text.last() != '\r',
    ensures
        lines_of(text.push('\n')) == lines_of(text),
{
    lemma_final_line_feed(text, 0);
}

proof fn lemma_final_line_feed(text: Seq<char>, from: int)
    requires
        0 <= from < text.len(),
        text.last() != '\n',
        text.last() != '\r',
    ensures
        lines_from(text.push('\n'), from) == lines_from(text, from),
    decreases text.len() - from,
{
    let longer = text.push('\n');
    let end = position_of(text, '\n', from);
    lemma_position_of(text, '\n', from);
    lemma_position_of(longer, '\n', from);
    let reached = position_of(longer, '\n', from);
    if reached < end {
        assert(text[reached] == longer[reached]);
    } else if end < reached {
        assert(longer[end] == '\n');
    }
    assert(longer.subrange(from, end) =~= text.subrange(from, end));
    if end < text.len() {
        lemma_final_line_feed(text, end + 1);
    } else {
        assert(longer.subrange(from, end) =~= text.skip(from));
        assert(text.skip(from).last() == text.last());
        assert(lines_from(longer, end + 1) =~= Seq::empty());
        assert(lines_from(longer, from) =~= seq![text.skip(from)]);
    }
}

}
