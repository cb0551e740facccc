//! The law that every template closes the labels that it opens.
use vstd::prelude::*;

use crate::ast::{Call, ExpressionKind, ExpressionNode, FunctionCallNode};
use crate::builder::{
    as_boolean, as_integer, as_plain_text, as_template, expression_meaning, function_meaning,
    template_built_at, templates_meaning,
};
use crate::functions::{as_usize, words};
use crate::language::{
    Bindings, IntoTemplateProperty, MeaningIn, PropertyIn, TemplateIn, TemplateLanguage,
};
use crate::output_laws::{balanced, law_plain_is_balanced};
use crate::property::{constant, mapped};
use crate::template::{concatenated, text_template, TemplateFn};
use crate::template_laws::{closes_labels, law_functions_close_labels, law_lists_close_labels};
use crate::time::Timestamp;

verus! {

/// Whether a property closes its labels, if it can be shown.
pub open spec fn is_tidy<'a, L: TemplateLanguage<'a>>(meaning: MeaningIn<'a, L>) -> bool {
    L::Property::template_of(meaning) matches Some(template) ==> closes_labels(template)
}

/// Whether the local variables close their labels.
pub open spec fn has_tidy_variables<'a, L: TemplateLanguage<'a>>(
    bindings: Bindings<MeaningIn<'a, L>>,
) -> bool {
    forall|i: int|
        0 <= i < bindings.variables.len() ==> is_tidy::<L>((#[trigger] bindings.variables[i]).1)
}

/// Whether the properties of a language close their labels: `self`, literals and operators,
/// templates that do so themselves, and the methods of properties that do.
pub open spec fn is_tidy_language<'a, L: TemplateLanguage<'a>>(language: &L) -> bool {
    &&& is_tidy::<L>(language.self_meaning())
    &&& forall|property: PropertyIn<'a, L, bool>|
        is_tidy::<L>(#[trigger] language.wrapped_boolean(property))
    &&& forall|property: PropertyIn<'a, L, i64>|
        is_tidy::<L>(#[trigger] language.wrapped_integer(property))
    &&& forall|property: PropertyIn<'a, L, Seq<char>>|
        is_tidy::<L>(#[trigger] language.wrapped_string(property))
    &&& forall|template: TemplateIn<'a, L>|
        closes_labels(template) ==> is_tidy::<L>(#[trigger] language.wrapped_template(template))
    &&& forall|
        bindings: Bindings<MeaningIn<'a, L>>,
        property: MeaningIn<'a, L>,
        call: Call<'static>,
    |
        has_tidy_variables::<L>(bindings) && is_tidy::<L>(property) && (
        #[trigger] language.built_method(bindings, property, call)) is Ok ==> is_tidy::<L>(
            language.built_method(bindings, property, call)->Ok_0,
        )
}

proof fn lemma_variable_is_tidy<'a, L: TemplateLanguage<'a>>(
    bindings: Bindings<MeaningIn<'a, L>>,
    name: Seq<char>,
)
    requires
        has_tidy_variables::<L>(bindings),
        bindings.lookup(name) is Some,
    ensures
        is_tidy::<L>(bindings.lookup(name)->0),
    decreases bindings.variables.len(),
{
    let variables = bindings.variables;
    if variables.len() > 0 {
        assert(is_tidy::<L>(variables[variables.len() - 1].1));
        if variables.last().0 != name {
            let fewer = Bindings { variables: variables.drop_last(), now: bindings.now };
            assert forall|i: int| 0 <= i < fewer.variables.len() implies is_tidy::<L>(
                (#[trigger] fewer.variables[i]).1,
            ) by {
                assert(fewer.variables[i] == variables[i]);
            }
            lemma_variable_is_tidy::<L>(fewer, name);
        }
    }
}

proof fn lemma_template_closes_labels<'a, L: TemplateLanguage<'a>>(
    language: &L,
    bindings: Bindings<MeaningIn<'a, L>>,
    node: ExpressionNode<'_>,
)
    requires
        is_tidy_language::<L>(language),
        has_tidy_variables::<L>(bindings),
        as_template::<L>(expression_meaning(language, bindings, node), node.span) is Ok,
    ensures
        closes_labels(
            as_template::<L>(expression_meaning(language, bindings, node), node.span)->Ok_0,
        ),
    decreases node, 1int,
{
    law_expression_is_tidy(language, bindings, node);
    let expression = expression_meaning(language, bindings, node)->Ok_0;
    let template = L::Property::template_of(expression.property)->0;
    law_functions_close_labels(
        constant(0usize),
        constant(expression.labels),
        constant(true),
        template,
        template,
        template,
    );
}

/// In a language whose properties close their labels, every expression does, as long as the
/// local variables do.
pub proof fn law_expression_is_tidy<'a, L: TemplateLanguage<'a>>(
    language: &L,
    bindings: Bindings<MeaningIn<'a, L>>,
    node: ExpressionNode<'_>,
)
    requires
        is_tidy_language::<L>(language),
        has_tidy_variables::<L>(bindings),
        expression_meaning(language, bindings, node) is Ok,
    ensures
        is_tidy::<L>(expression_meaning(language, bindings, node)->Ok_0.property),
    decreases node, 0int,
{
    match node.kind {
        ExpressionKind::Identifier(name) => {
            if bindings.lookup(name@) is Some {
                lemma_variable_is_tidy::<L>(bindings, name@);
            }
        },
        ExpressionKind::Concat(nodes) => {
            let last = nodes.len() as int;
            lemma_templates_close_labels(language, bindings, nodes, 0, last);
            lemma_contents_close_labels(
                templates_meaning(language, bindings, nodes, 0, last)->Ok_0,
            );
        },
        ExpressionKind::FunctionCall(function) => {
            lemma_function_is_tidy(language, bindings, *function);
        },
        ExpressionKind::MethodCall(method) => {
            law_expression_is_tidy(language, bindings, method.object);
        },
        ExpressionKind::AliasExpanded(_, subst) => {
            law_expression_is_tidy(language, bindings, *subst);
        },
        _ => {},
    }
}

proof fn lemma_contents_close_labels<C, W>(contents: Seq<TemplateFn<C, W>>)
    requires
        forall|i: int| 0 <= i < contents.len() ==> closes_labels(#[trigger] contents[i]),
    ensures
        closes_labels(concatenated(contents)),
{
    let nothing = text_template::<C, W>(Seq::empty());
    assert forall|context: C, scope: Seq<W>| balanced(
        #[trigger] nothing(context, scope),
    ) by {
        law_plain_is_balanced(Seq::empty());
    }
    law_lists_close_labels(nothing, contents);
}

proof fn lemma_templates_close_labels<'a, L: TemplateLanguage<'a>>(
    language: &L,
    bindings: Bindings<MeaningIn<'a, L>>,
    nodes: Vec<ExpressionNode<'_>>,
    from: int,
    to: int,
)
    requires
        is_tidy_language::<L>(language),
        has_tidy_variables::<L>(bindings),
        templates_meaning(language, bindings, nodes, from, to) is Ok,
    ensures
        forall|i: int|
            0 <= i < templates_meaning(language, bindings, nodes, from, to)->Ok_0.len()
                ==> closes_labels(
                #[trigger] templates_meaning(language, bindings, nodes, from, to)->Ok_0[i],
            ),
    decreases nodes, to,
{
    if from < 0 || to <= from || to > nodes.len() {
    } else {
        lemma_templates_close_labels(language, bindings, nodes, from, to - 1);
        lemma_template_closes_labels(language, bindings, nodes[to - 1]);
        let before = templates_meaning(language, bindings, nodes, from, to - 1)->Ok_0;
        let all = templates_meaning(language, bindings, nodes, from, to)->Ok_0;
        assert forall|i: int| 0 <= i < all.len() implies closes_labels(#[trigger] all[i]) by {
            if i < before.len() {
                assert(all[i] == before[i]);
            }
        }
    }
}

proof fn lemma_function_is_tidy<'a, L: TemplateLanguage<'a>>(
    language: &L,
    bindings: Bindings<MeaningIn<'a, L>>,
    function: FunctionCallNode<'_>,
)
    requires
        is_tidy_language::<L>(language),
        has_tidy_variables::<L>(bindings),
        function_meaning(language, bindings, function) is Ok,
    ensures
        is_tidy::<L>(function_meaning(language, bindings, function)->Ok_0),
    decreases function, 0int,
{
    let args = function.args;
    let name = function.name@;
    let template = |i: int|
        as_template::<L>(expression_meaning(language, bindings, args[i]), args[i].span);
    if name == "fill"@ {
        lemma_template_closes_labels(language, bindings, args[1]);
        let width = as_integer::<L>(
            expression_meaning(language, bindings, args[0]),
            args[0].span,
        )->Ok_0;
        let content = template(1)->Ok_0;
        law_functions_close_labels(
            mapped(width, as_usize()),
            constant(Seq::empty()),
            constant(true),
            content,
            content,
            content,
        );
    } else if name == "indent"@ {
        lemma_template_closes_labels(language, bindings, args[0]);
        lemma_template_closes_labels(language, bindings, args[1]);
        law_functions_close_labels(
            constant(0usize),
            constant(Seq::empty()),
            constant(true),
            template(1)->Ok_0,
            template(0)->Ok_0,
            template(0)->Ok_0,
        );
    } else if name == "label"@ {
        lemma_template_closes_labels(language, bindings, args[1]);
        let label = as_plain_text::<L>(
            expression_meaning(language, bindings, args[0]),
            args[0].span,
        )->Ok_0;
        let content = template(1)->Ok_0;
        law_functions_close_labels(
            constant(0usize),
            mapped(label, words()),
            constant(true),
            content,
            content,
            content,
        );
    } else if name == "if"@ {
        let condition = as_boolean::<L>(
            expression_meaning(language, bindings, args[0]),
            args[0].span,
        )->Ok_0;
        lemma_template_closes_labels(language, bindings, args[1]);
        let other = if args.len() == 3 {
            template(2)->Ok_0
        } else {
            template(1)->Ok_0
        };
        if args.len() == 3 {
            lemma_template_closes_labels(language, bindings, args[2]);
        }
        law_functions_close_labels(
            constant(0usize),
            constant(Seq::empty()),
            condition,
            template(1)->Ok_0,
            other,
            other,
        );
    } else if name == "concat"@ {
        lemma_templates_close_labels(language, bindings, args, 0, args.len() as int);
        lemma_contents_close_labels(
            templates_meaning(language, bindings, args, 0, args.len() as int)->Ok_0,
        );
    } else if name == "separate"@ {
        lemma_template_closes_labels(language, bindings, args[0]);
        lemma_templates_close_labels(language, bindings, args, 1, args.len() as int);
        law_lists_close_labels(
            template(0)->Ok_0,
            templates_meaning(language, bindings, args, 1, args.len() as int)->Ok_0,
        );
    } else {
        lemma_template_closes_labels(language, bindings, args[0]);
        lemma_template_closes_labels(language, bindings, args[1]);
        lemma_template_closes_labels(language, bindings, args[2]);
        law_functions_close_labels(
            constant(0usize),
            constant(Seq::empty()),
            constant(true),
            template(2)->Ok_0,
            template(0)->Ok_0,
            template(1)->Ok_0,
        );
    }
}

/// In a language whose properties close their labels, every template that is built does.
pub proof fn law_built_template_closes_labels<'a, L: TemplateLanguage<'a>>(
    language: &L,
    node: ExpressionNode<'_>,
    now: Timestamp,
)
    requires
        is_tidy_language::<L>(language),
        template_built_at(language, node, now) is Ok,
    ensures
        closes_labels(template_built_at(language, node, now)->Ok_0),
{
    lemma_template_closes_labels(language, Bindings::fresh(now), node);
}

}
