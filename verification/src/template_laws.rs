//! Laws of templates: what the global functions and the conversions keep.
use vstd::prelude::*;
use vstd::string::*;

use crate::builder::labeled_template;
use crate::formatter::{labeled, plain, text_of, Output};
use crate::language::CoreMeaning;
use crate::output_laws::{
    balanced, law_balanced_sum, law_joined_is_balanced, law_joined_sum, law_labeled_is_balanced,
    law_labels_keep_text, law_layout_is_balanced, law_plain_is_balanced, law_text_of_plain,
    law_text_of_sum,
};
use crate::property::{item_at, ListItem, PropertyFn};
use crate::template::{
    concatenated, conditional, each_rendered, error_output, filled, has_text, indented_by,
    joined_list, labeled_by, plain_text, range_output, separated, shown_items, shown_value,
    signature_output, stored_item, surrounded, template_for_each, text_template, timestamp_output,
    ListTemplateFn, Printable, TemplateFn,
};
use crate::text::decimal_of;
use crate::time::{
    default_format, timestamp_text, Signature, SignatureView, Timestamp, TimestampRange,
};

verus! {

/// What is concatenated is written one behind the other.
pub proof fn law_concat_is_sum<C, W>(
    a: Seq<TemplateFn<C, W>>,
    b: Seq<TemplateFn<C, W>>,
    context: C,
    scope: Seq<W>,
)
    ensures
        concatenated(a + b)(context, scope) == concatenated(a)(context, scope) + concatenated(b)(
            context,
            scope,
        ),
{
    assert(each_rendered(a + b, context, scope) =~= each_rendered(a, context, scope)
        + each_rendered(b, context, scope));
    law_joined_sum(each_rendered(a, context, scope), each_rendered(b, context, scope));
}

/// Contents that hold no text might as well not be there when contents are separated.
pub proof fn law_separate_skips_blank<C, W>(
    separator: TemplateFn<C, W>,
    before: Seq<TemplateFn<C, W>>,
    blank: TemplateFn<C, W>,
    after: Seq<TemplateFn<C, W>>,
    context: C,
    scope: Seq<W>,
)
    requires
        !has_text(blank(context, scope)),
    ensures
        separated(separator, before.push(blank) + after)(context, scope) == separated(
            separator,
            before + after,
        )(context, scope),
{
    let texts = |output: Output| has_text(output);
    let a = each_rendered(before, context, scope);
    let b = each_rendered(seq![blank], context, scope);
    let c = each_rendered(after, context, scope);
    assert(each_rendered(before.push(blank) + after, context, scope) =~= a + b + c);
    assert(each_rendered(before + after, context, scope) =~= a + c);
    Seq::filter_distributes_over_add(a, b, texts);
    Seq::filter_distributes_over_add(a + b, c, texts);
    Seq::filter_distributes_over_add(a, c, texts);
    assert(b.filter(texts) =~= Seq::empty()) by {
        reveal(Seq::filter);
        assert(b.drop_last() =~= Seq::empty());
        assert(!texts(b.last()));
        assert(b.filter(texts) == b.drop_last().filter(texts));
    }
    assert(a.filter(texts) + b.filter(texts) =~= a.filter(texts));
}

/// What holds no text is not surrounded; the text of anything else stands between those of
/// the prefix and of the suffix.
pub proof fn law_surround<C, W>(
    prefix: TemplateFn<C, W>,
    suffix: TemplateFn<C, W>,
    content: TemplateFn<C, W>,
    context: C,
    scope: Seq<W>,
)
    ensures
        ({
            let all = surrounded(prefix, suffix, content)(context, scope);
            if has_text(content(context, scope)) {
                text_of(all) == text_of(prefix(context, scope)) + text_of(content(context, scope))
                    + text_of(suffix(context, scope))
            } else {
                all == Output::empty()
            }
        }),
{
    let (p, c, s) = (prefix(context, scope), content(context, scope), suffix(context, scope));
    law_text_of_sum(p, c);
    law_text_of_sum(p + c, s);
}

/// The labels of an expression do not change its text.
pub proof fn law_labels_of_expression_keep_text<C, W>(
    template: TemplateFn<C, W>,
    labels: Seq<Seq<char>>,
    context: C,
    scope: Seq<W>,
)
    ensures
        text_of(labeled_template(template, labels)(context, scope)) == text_of(
            template(context, scope),
        ),
{
    law_labels_keep_text(labels, template(context, scope));
}

/// A text is shown as itself: taking it for a template and that for text gives it back.
pub proof fn law_text_is_shown_as_itself<C, W>(
    property: PropertyFn<C, W, Seq<char>>,
    context: C,
    scope: Seq<W>,
)
    requires
        property(context, scope) is Ok,
    ensures
        plain_text(CoreMeaning::String(property).template())(context, scope) == property(
            context,
            scope,
        ),
{
    law_text_of_plain(property(context, scope)->Ok_0);
}

/// A list of texts is shown as if it were joined with a space.
pub proof fn law_list_is_joined_with_space<C, W>(
    list: PropertyFn<C, W, Seq<Seq<char>>>,
    context: C,
    scope: Seq<W>,
)
    ensures
        CoreMeaning::StringList(list).template()(context, scope) == joined_list(
            shown_items(list, <String as Printable>::shown()),
            text_template(" "@),
        )(context, scope),
{
}

/// Mapping each item of a list to itself shows the items as they are.
pub proof fn law_map_to_itself<C, V: DeepView, O: ListItem<V>>(
    list: PropertyFn<C, V::V, Seq<O::V>>,
    shown: spec_fn(O::V) -> Output,
    context: C,
    scope: Seq<V::V>,
)
    ensures
        template_for_each(
            list,
            stored_item::<V, O>(),
            shown_value(item_at(scope.len() as int, O::read()), shown),
        )(context, scope) == shown_items(list, shown)(context, scope),
{
    if let Ok(items) = list(context, scope) {
        let template = shown_value::<C, V::V, O::V>(
            item_at(scope.len() as int, O::read()),
            shown,
        );
        let stored = stored_item::<V, O>();
        let mapped = items.map_values(
            |item: O::V| template(context, scope.push(stored(item))),
        );
        assert forall|i: int| 0 <= i < items.len() implies mapped[i] == shown(items[i]) by {
            O::read_gives_stored(items[i]);
        }
        assert(mapped =~= items.map_values(shown));
    }
}

/// Whether a template closes the labels that it opens, and no others, in each context.
pub open spec fn closes_labels<C, W>(template: TemplateFn<C, W>) -> bool {
    forall|context: C, scope: Seq<W>| balanced(#[trigger] template(context, scope))
}

/// Whether each item of a list closes the labels that it opens, and no others.
pub open spec fn items_close_labels<C, W>(list: ListTemplateFn<C, W>) -> bool {
    forall|context: C, scope: Seq<W>, i: int|
        #![trigger list(context, scope)->Ok_0[i]]
        list(context, scope) is Ok && 0 <= i < list(context, scope)->Ok_0.len() ==> balanced(
            list(context, scope)->Ok_0[i],
        )
}

/// An error is told in balanced output.
pub proof fn law_error_is_balanced(message: Seq<char>)
    ensures
        balanced(error_output(message)),
{
    law_plain_is_balanced("<Error: "@ + message + ">"@);
    law_labeled_is_balanced(seq!["error"@], plain("<Error: "@ + message + ">"@));
}

proof fn lemma_text_list_is_balanced(items: Seq<Seq<char>>)
    ensures
        balanced((<Vec<String> as Printable>::shown())(items)),
{
    let outputs = items.map_values(<String as Printable>::shown());
    assert forall|i: int| 0 <= i < outputs.len() implies balanced(#[trigger] outputs[i]) by {
        law_plain_is_balanced(items[i]);
    }
    law_plain_is_balanced(" "@);
    law_joined_is_balanced(outputs, plain(" "@));
}

proof fn lemma_signature_is_balanced(signature: SignatureView)
    ensures
        balanced(signature_output(signature)),
{
    let name = labeled(seq!["name"@], plain(signature.name));
    let email = labeled(seq!["email"@], plain(signature.email));
    law_plain_is_balanced(signature.name);
    law_plain_is_balanced(signature.email);
    law_labeled_is_balanced(seq!["name"@], plain(signature.name));
    law_labeled_is_balanced(seq!["email"@], plain(signature.email));
    law_plain_is_balanced(""@);
    law_plain_is_balanced(" "@);
    law_plain_is_balanced("<"@);
    law_plain_is_balanced(">"@);
    let gap = if signature.name.len() == 0 {
        plain(""@)
    } else {
        plain(" "@)
    };
    law_balanced_sum(name, gap);
    law_balanced_sum(name + gap, plain("<"@));
    law_balanced_sum(name + gap + plain("<"@), email);
    law_balanced_sum(name + gap + plain("<"@) + email, plain(">"@));
}

proof fn lemma_timestamp_is_balanced(timestamp: Timestamp)
    ensures
        balanced(timestamp_output(timestamp)),
{
    match timestamp_text(timestamp, default_format()) {
        Ok(text) => law_plain_is_balanced(text),
        Err(message) => law_error_is_balanced(message),
    }
}

proof fn lemma_range_is_balanced(range: TimestampRange)
    ensures
        balanced(range_output(range)),
{
    lemma_timestamp_is_balanced(range.start);
    lemma_timestamp_is_balanced(range.end);
    law_plain_is_balanced(" - "@);
    law_balanced_sum(timestamp_output(range.start), plain(" - "@));
    law_balanced_sum(
        timestamp_output(range.start) + plain(" - "@),
        timestamp_output(range.end),
    );
}

proof fn lemma_shown_value_closes_labels<C, W, T>(
    property: PropertyFn<C, W, T>,
    shown: spec_fn(T) -> Output,
)
    requires
        forall|value: T| balanced(#[trigger] shown(value)),
    ensures
        closes_labels(shown_value(property, shown)),
{
    let template = shown_value(property, shown);
    assert forall|context: C, scope: Seq<W>| balanced(#[trigger] template(context, scope)) by {
        match property(context, scope) {
            Ok(value) => {
                assert(balanced(shown(value)));
            },
            Err(message) => law_error_is_balanced(message),
        }
    }
}

/// A joined list closes its labels if its items and the separator do.
pub proof fn law_joined_list_closes_labels<C, W>(
    list: ListTemplateFn<C, W>,
    separator: TemplateFn<C, W>,
)
    requires
        items_close_labels(list),
        closes_labels(separator),
    ensures
        closes_labels(joined_list(list, separator)),
{
    let template = joined_list(list, separator);
    assert forall|context: C, scope: Seq<W>| balanced(#[trigger] template(context, scope)) by {
        match list(context, scope) {
            Ok(outputs) => {
                assert forall|i: int| 0 <= i < outputs.len() implies balanced(
                    #[trigger] outputs[i],
                ) by {
                    assert(balanced(list(context, scope)->Ok_0[i]));
                }
                assert(balanced(separator(context, scope)));
                law_joined_is_balanced(outputs, separator(context, scope));
            },
            Err(message) => law_error_is_balanced(message),
        }
    }
}

/// Every core value closes its labels when it is shown, if it is no template that does not.
pub proof fn law_core_values_close_labels<C, W>(meaning: CoreMeaning<C, W>)
    requires
        meaning matches CoreMeaning::Template(template) ==> closes_labels(template),
        meaning matches CoreMeaning::ListTemplate(list) ==> items_close_labels(list),
    ensures
        closes_labels(meaning.template()),
{
    match meaning {
        CoreMeaning::String(property) => {
            let shown = <String as Printable>::shown();
            assert forall|value: Seq<char>| balanced(#[trigger] shown(value)) by {
                law_plain_is_balanced(value);
            }
            lemma_shown_value_closes_labels(property, shown);
        },
        CoreMeaning::StringList(property) => {
            let shown = <Vec<String> as Printable>::shown();
            assert forall|value: Seq<Seq<char>>| balanced(#[trigger] shown(value)) by {
                lemma_text_list_is_balanced(value);
            }
            lemma_shown_value_closes_labels(property, shown);
        },
        CoreMeaning::Boolean(property) => {
            let shown = <bool as Printable>::shown();
            assert forall|value: bool| balanced(#[trigger] shown(value)) by {
                law_plain_is_balanced("true"@);
                law_plain_is_balanced("false"@);
            }
            lemma_shown_value_closes_labels(property, shown);
        },
        CoreMeaning::Integer(property) => {
            let shown = <i64 as Printable>::shown();
            assert forall|value: i64| balanced(#[trigger] shown(value)) by {
                law_plain_is_balanced(decimal_of(value as int));
            }
            lemma_shown_value_closes_labels(property, shown);
        },
        CoreMeaning::Signature(property) => {
            let shown = <Signature as Printable>::shown();
            assert forall|value: SignatureView| balanced(#[trigger] shown(value)) by {
                lemma_signature_is_balanced(value);
            }
            lemma_shown_value_closes_labels(property, shown);
        },
        CoreMeaning::Timestamp(property) => {
            let shown = <Timestamp as Printable>::shown();
            assert forall|value: Timestamp| balanced(#[trigger] shown(value)) by {
                lemma_timestamp_is_balanced(value);
            }
            lemma_shown_value_closes_labels(property, shown);
        },
        CoreMeaning::TimestampRange(property) => {
            let shown = <TimestampRange as Printable>::shown();
            assert forall|value: TimestampRange| balanced(#[trigger] shown(value)) by {
                lemma_range_is_balanced(value);
            }
            lemma_shown_value_closes_labels(property, shown);
        },
        CoreMeaning::Template(template) => {},
        CoreMeaning::ListTemplate(list) => {
            let space = text_template::<C, W>(" "@);
            assert forall|context: C, scope: Seq<W>| balanced(
                #[trigger] space(context, scope),
            ) by {
                law_plain_is_balanced(" "@);
            }
            law_joined_list_closes_labels(list, space);
        },
    }
}

/// What the global functions make of templates that close their labels closes its labels
/// too.
pub proof fn law_functions_close_labels<C, W>(
    width: PropertyFn<C, W, usize>,
    labels: PropertyFn<C, W, Seq<Seq<char>>>,
    condition: PropertyFn<C, W, bool>,
    a: TemplateFn<C, W>,
    b: TemplateFn<C, W>,
    c: TemplateFn<C, W>,
)
    requires
        closes_labels(a),
        closes_labels(b),
        closes_labels(c),
    ensures
        closes_labels(filled(width, a)),
        closes_labels(indented_by(b, a)),
        closes_labels(labeled_by(a, labels)),
        closes_labels(conditional(condition, a, None)),
        closes_labels(conditional(condition, a, Some(b))),
        closes_labels(surrounded(b, c, a)),
{
    assert forall|context: C, scope: Seq<W>| balanced(
        #[trigger] filled(width, a)(context, scope),
    ) by {
        assert(balanced(a(context, scope)));
        match width(context, scope) {
            Ok(width) => law_layout_is_balanced(
                a(context, scope),
                a(context, scope),
                width as int,
            ),
            Err(message) => law_error_is_balanced(message),
        }
    }
    assert forall|context: C, scope: Seq<W>| balanced(
        #[trigger] indented_by(b, a)(context, scope),
    ) by {
        assert(balanced(a(context, scope)) && balanced(b(context, scope)));
        law_layout_is_balanced(a(context, scope), b(context, scope), 0);
    }
    assert forall|context: C, scope: Seq<W>| balanced(
        #[trigger] labeled_by(a, labels)(context, scope),
    ) by {
        assert(balanced(a(context, scope)));
        match labels(context, scope) {
            Ok(labels) => law_labeled_is_balanced(labels, a(context, scope)),
            Err(message) => law_error_is_balanced(message),
        }
    }
    assert forall|context: C, scope: Seq<W>| balanced(
        #[trigger] conditional(condition, a, None)(context, scope),
    ) by {
        assert(balanced(a(context, scope)));
        if let Err(message) = condition(context, scope) {
            law_error_is_balanced(message);
        }
    }
    assert forall|context: C, scope: Seq<W>| balanced(
        #[trigger] conditional(condition, a, Some(b))(context, scope),
    ) by {
        assert(balanced(a(context, scope)) && balanced(b(context, scope)));
        if let Err(message) = condition(context, scope) {
            law_error_is_balanced(message);
        }
    }
    assert forall|context: C, scope: Seq<W>| balanced(
        #[trigger] surrounded(b, c, a)(context, scope),
    ) by {
        let (p, o, s) = (b(context, scope), a(context, scope), c(context, scope));
        assert(balanced(p) && balanced(o) && balanced(s));
        law_balanced_sum(p, o);
        law_balanced_sum(p + o, s);
    }
}

/// Contents that close their labels do so when they are concatenated or separated.
pub proof fn law_lists_close_labels<C, W>(
    separator: TemplateFn<C, W>,
    contents: Seq<TemplateFn<C, W>>,
)
    requires
        closes_labels(separator),
        forall|i: int| 0 <= i < contents.len() ==> closes_labels(#[trigger] contents[i]),
    ensures
        closes_labels(concatenated(contents)),
        closes_labels(separated(separator, contents)),
{
    assert forall|context: C, scope: Seq<W>| balanced(
        #[trigger] concatenated(contents)(context, scope),
    ) by {
        lemma_each_is_balanced(contents, context, scope);
        law_joined_is_balanced(each_rendered(contents, context, scope), Output::empty());
    }
    assert forall|context: C, scope: Seq<W>| balanced(
        #[trigger] separated(separator, contents)(context, scope),
    ) by {
        lemma_each_is_balanced(contents, context, scope);
        let outputs = each_rendered(contents, context, scope);
        let texts = |output: Output| has_text(output);
        let kept = outputs.filter(texts);
        assert forall|i: int| 0 <= i < kept.len() implies balanced(#[trigger] kept[i]) by {
            outputs.lemma_filter_contains_rev(texts, kept[i]);
        }
        assert(balanced(separator(context, scope)));
        law_joined_is_balanced(kept, separator(context, scope));
    }
}

proof fn lemma_each_is_balanced<C, W>(
    contents: Seq<TemplateFn<C, W>>,
    context: C,
    scope: Seq<W>,
)
    requires
        forall|i: int| 0 <= i < contents.len() ==> closes_labels(#[trigger] contents[i]),
    ensures
        forall|i: int|
            0 <= i < contents.len() ==> balanced(
                #[trigger] each_rendered(contents, context, scope)[i],
            ),
{
    let outputs = each_rendered(contents, context, scope);
    assert forall|i: int| 0 <= i < contents.len() implies balanced(#[trigger] outputs[i]) by {
        assert(closes_labels(contents[i]));
        assert(balanced(contents[i](context, scope)));
    }
}

}
