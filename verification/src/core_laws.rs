//! Laws of languages that wrap the core kinds of properties as they are.
use vstd::prelude::*;
use vstd::string::*;

use crate::ast::{BinaryOp, Call, ExpressionKind, ExpressionNode, UnaryOp};
use crate::builder::{
    as_boolean, as_integer, as_plain_text, as_template, concat_meaning, expression_meaning,
    function_meaning, templates_meaning, Built, ExpressionMeaning,
};
use crate::error::ParseError;
use crate::formatter::{joined, plain};
use crate::functions::{logical_and, logical_not, logical_or, negation, text_length};
use crate::language::{
    names_of, Bindings, CoreMeaning, IntoTemplateProperty, ItemIn, ListTemplateIn, MeaningIn,
    PropertyIn, TemplateIn, TemplateLanguage,
};
use crate::laws::law_builtin_methods_are_found;
use crate::methods::{builtin_table, entry_of, string_methods_table, CoreTable};
use crate::property::{mapped, paired, ListItem};
use crate::template::{concatenated, each_rendered};
use crate::text::decimal_of;
use crate::time::{SignatureView, Timestamp, TimestampRange};

verus! {

/// Whether a property can be taken for just what a core property can be taken for.
pub open spec fn converts_like<'a, L: TemplateLanguage<'a>>(
    meaning: MeaningIn<'a, L>,
    core: CoreMeaning<L::Context, ItemIn<'a, L>>,
) -> bool {
    &&& L::Property::boolean_of(meaning) == core.boolean()
    &&& L::Property::integer_of(meaning) == core.integer()
    &&& L::Property::plain_text_of(meaning) == Some(core.plain_text())
    &&& L::Property::template_of(meaning) == Some(core.template())
}

/// Whether what the language wraps can be taken for just what the core property can be taken
/// for.
pub open spec fn wraps_core<'a, L: TemplateLanguage<'a>>(language: &L) -> bool {
    &&& forall|property: PropertyIn<'a, L, Seq<char>>|
        converts_like::<L>(
            #[trigger] language.wrapped_string(property),
            CoreMeaning::String(property),
        )
    &&& forall|property: PropertyIn<'a, L, Seq<Seq<char>>>|
        converts_like::<L>(
            #[trigger] language.wrapped_string_list(property),
            CoreMeaning::StringList(property),
        )
    &&& forall|property: PropertyIn<'a, L, bool>|
        converts_like::<L>(
            #[trigger] language.wrapped_boolean(property),
            CoreMeaning::Boolean(property),
        )
    &&& forall|property: PropertyIn<'a, L, i64>|
        converts_like::<L>(
            #[trigger] language.wrapped_integer(property),
            CoreMeaning::Integer(property),
        )
    &&& forall|property: PropertyIn<'a, L, SignatureView>|
        converts_like::<L>(
            #[trigger] language.wrapped_signature(property),
            CoreMeaning::Signature(property),
        )
    &&& forall|property: PropertyIn<'a, L, Timestamp>|
        converts_like::<L>(
            #[trigger] language.wrapped_timestamp(property),
            CoreMeaning::Timestamp(property),
        )
    &&& forall|property: PropertyIn<'a, L, TimestampRange>|
        converts_like::<L>(
            #[trigger] language.wrapped_timestamp_range(property),
            CoreMeaning::TimestampRange(property),
        )
    &&& forall|template: TemplateIn<'a, L>|
        converts_like::<L>(
            #[trigger] language.wrapped_template(template),
            CoreMeaning::Template(template),
        )
    &&& forall|list: ListTemplateIn<'a, L>|
        converts_like::<L>(
            #[trigger] language.wrapped_list_template(list),
            CoreMeaning::ListTemplate(list),
        )
}

/// What a core property means once the language has wrapped it.
pub open spec fn wrapped_core<'a, L: TemplateLanguage<'a>>(
    language: &L,
    core: CoreMeaning<L::Context, ItemIn<'a, L>>,
) -> MeaningIn<'a, L> {
    match core {
        CoreMeaning::String(property) => language.wrapped_string(property),
        CoreMeaning::StringList(property) => language.wrapped_string_list(property),
        CoreMeaning::Boolean(property) => language.wrapped_boolean(property),
        CoreMeaning::Integer(property) => language.wrapped_integer(property),
        CoreMeaning::Signature(property) => language.wrapped_signature(property),
        CoreMeaning::Timestamp(property) => language.wrapped_timestamp(property),
        CoreMeaning::TimestampRange(property) => language.wrapped_timestamp_range(property),
        CoreMeaning::Template(template) => language.wrapped_template(template),
        CoreMeaning::ListTemplate(list) => language.wrapped_list_template(list),
    }
}

/// Whether the language hands the methods of core properties to a table.
pub open spec fn delegates_to<'a, L: TemplateLanguage<'a>>(
    language: &L,
    table: CoreTable<'a, L>,
) -> bool where String: ListItem<L::Item> {
    forall|
        bindings: Bindings<MeaningIn<'a, L>>,
        core: CoreMeaning<L::Context, ItemIn<'a, L>>,
        function: Call<'static>,
    | #[trigger]
        language.built_method(bindings, wrapped_core(language, core), function)
            == table.method_meaning(language, bindings, core, function)
}

/// A method call on a core value means what the table says that the method means, with the
/// name of the method as one more label.
pub proof fn law_core_method_call<'a, L: TemplateLanguage<'a>>(
    language: &L,
    table: CoreTable<'a, L>,
    bindings: Bindings<MeaningIn<'a, L>>,
    node: ExpressionNode<'_>,
    core: CoreMeaning<L::Context, ItemIn<'a, L>>,
) where String: ListItem<L::Item>
    requires
        delegates_to(language, table),
        node.kind is MethodCall,
        expression_meaning(language, bindings, node.kind->MethodCall_0.object) is Ok,
        expression_meaning(language, bindings, node.kind->MethodCall_0.object)->Ok_0.property
            == wrapped_core(language, core),
    ensures
        ({
            let method = *node.kind->MethodCall_0;
            let labels = expression_meaning(language, bindings, method.object)->Ok_0.labels;
            expression_meaning(language, bindings, node) == match table.method_meaning(
                language,
                bindings,
                core,
                method.function@,
            ) {
                Ok(property) => Built::<'a, L>::Ok(
                    ExpressionMeaning { property, labels: labels.push(method.function.name@) },
                ),
                Err(error) => Built::<'a, L>::Err(error),
            }
        }),
{
}

/// A method call on a text fails if the table has no method of that name for texts, and the
/// methods that it has are the candidates.
pub proof fn law_unknown_text_method<'a, L: TemplateLanguage<'a>>(
    language: &L,
    table: CoreTable<'a, L>,
    bindings: Bindings<MeaningIn<'a, L>>,
    node: ExpressionNode<'_>,
    text: PropertyIn<'a, L, Seq<char>>,
) where String: ListItem<L::Item>
    requires
        delegates_to(language, table),
        node.kind is MethodCall,
        expression_meaning(language, bindings, node.kind->MethodCall_0.object) is Ok,
        expression_meaning(language, bindings, node.kind->MethodCall_0.object)->Ok_0.property
            == language.wrapped_string(text),
        entry_of(table.string_methods, node.kind->MethodCall_0.function.name@) is None,
    ensures
        expression_meaning(language, bindings, node) == Built::<'a, L>::Err(
            ParseError::no_such_method(
                "String"@,
                node.kind->MethodCall_0.function@,
                names_of(table.string_methods),
            ),
        ),
{
    law_core_method_call(language, table, bindings, node, CoreMeaning::String(text));
}

/// The builtin method `len` of a text counts its bytes.
pub proof fn law_text_length<'a, L: TemplateLanguage<'a>>(
    language: &L,
    bindings: Bindings<MeaningIn<'a, L>>,
    node: ExpressionNode<'_>,
    text: PropertyIn<'a, L, Seq<char>>,
) where String: ListItem<L::Item>
    requires
        wraps_core::<L>(language),
        delegates_to(language, builtin_table::<L>()),
        node.kind is MethodCall,
        node.kind->MethodCall_0.function.name@ == "len"@,
        node.kind->MethodCall_0.function.args.len() == 0,
        expression_meaning(language, bindings, node.kind->MethodCall_0.object) is Ok,
        expression_meaning(language, bindings, node.kind->MethodCall_0.object)->Ok_0.property
            == language.wrapped_string(text),
    ensures
        as_integer::<L>(expression_meaning(language, bindings, node), node.span) == Ok::<
            PropertyIn<'a, L, i64>,
            ParseError,
        >(mapped(text, text_length())),
{
    law_core_method_call(
        language,
        builtin_table::<L>(),
        bindings,
        node,
        CoreMeaning::String(text),
    );
    law_builtin_methods_are_found::<L>();
    assert(string_methods_table::<L>()[0].0 == "len"@);
}

/// A literal is written as it is: a text as its characters, an integer in decimal.
pub proof fn law_literals_are_written<'a, L: TemplateLanguage<'a>>(
    language: &L,
    bindings: Bindings<MeaningIn<'a, L>>,
    node: ExpressionNode<'_>,
    context: L::Context,
    scope: Seq<ItemIn<'a, L>>,
)
    requires
        wraps_core::<L>(language),
        node.kind is Boolean || node.kind is Integer || node.kind is String,
    ensures
        ({
            let template = as_template::<L>(
                expression_meaning(language, bindings, node),
                node.span,
            );
            template is Ok && template->Ok_0(context, scope) == plain(
                match node.kind {
                    ExpressionKind::Boolean(value) => if value {
                        "true"@
                    } else {
                        "false"@
                    },
                    ExpressionKind::Integer(value) => decimal_of(value as int),
                    ExpressionKind::String(value) => value@,
                    _ => Seq::empty(),
                },
            )
        }),
{
}

/// `!` gives the opposite of a boolean and `-` the negated integer. Neither takes anything
/// else.
pub proof fn law_unary_operators<'a, L: TemplateLanguage<'a>>(
    language: &L,
    bindings: Bindings<MeaningIn<'a, L>>,
    node: ExpressionNode<'_>,
)
    requires
        wraps_core::<L>(language),
        node.kind is Unary,
    ensures
        ({
            let arg = *node.kind->Unary_1;
            let inner = expression_meaning(language, bindings, arg);
            let outer = expression_meaning(language, bindings, node);
            match node.kind->Unary_0 {
                UnaryOp::LogicalNot => match as_boolean::<L>(inner, arg.span) {
                    Ok(value) => as_boolean::<L>(outer, node.span) == Ok::<
                        PropertyIn<'a, L, bool>,
                        ParseError,
                    >(mapped(value, logical_not())),
                    Err(error) => outer == Built::<'a, L>::Err(error),
                },
                UnaryOp::Negate => match as_integer::<L>(inner, arg.span) {
                    Ok(value) => as_integer::<L>(outer, node.span) == Ok::<
                        PropertyIn<'a, L, i64>,
                        ParseError,
                    >(mapped(value, negation())),
                    Err(error) => outer == Built::<'a, L>::Err(error),
                },
            }
        }),
{
}

/// `||` and `&&` combine two booleans.
pub proof fn law_binary_operators<'a, L: TemplateLanguage<'a>>(
    language: &L,
    bindings: Bindings<MeaningIn<'a, L>>,
    node: ExpressionNode<'_>,
)
    requires
        wraps_core::<L>(language),
        node.kind is Binary,
    ensures
        ({
            let (left, right) = (*node.kind->Binary_1, *node.kind->Binary_2);
            let lhs = as_boolean::<L>(expression_meaning(language, bindings, left), left.span);
            let rhs = as_boolean::<L>(expression_meaning(language, bindings, right), right.span);
            let both = expression_meaning(language, bindings, node);
            let function = match node.kind->Binary_0 {
                BinaryOp::LogicalOr => logical_or(),
                BinaryOp::LogicalAnd => logical_and(),
            };
            if lhs is Err {
                both == Built::<'a, L>::Err(lhs->Err_0)
            } else if rhs is Err {
                both == Built::<'a, L>::Err(rhs->Err_0)
            } else {
                as_boolean::<L>(both, node.span) == Ok::<PropertyIn<'a, L, bool>, ParseError>(
                    mapped(paired(lhs->Ok_0, rhs->Ok_0), function),
                )
            }
        }),
{
}

/// `a ++ b` is written as `a` and then `b`.
pub proof fn law_concatenation<'a, L: TemplateLanguage<'a>>(
    language: &L,
    bindings: Bindings<MeaningIn<'a, L>>,
    node: ExpressionNode<'_>,
    context: L::Context,
    scope: Seq<ItemIn<'a, L>>,
)
    requires
        wraps_core::<L>(language),
        node.kind is Concat,
        node.kind->Concat_0.len() == 2,
    ensures
        ({
            let (first, second) = (node.kind->Concat_0[0], node.kind->Concat_0[1]);
            let a = as_template::<L>(expression_meaning(language, bindings, first), first.span);
            let b = as_template::<L>(expression_meaning(language, bindings, second), second.span);
            let both = as_template::<L>(expression_meaning(language, bindings, node), node.span);
            &&& both is Ok == (a is Ok && b is Ok)
            &&& both is Ok ==> both->Ok_0(context, scope) == a->Ok_0(context, scope) + b->Ok_0(
                context,
                scope,
            )
        }),
{
    let nodes = node.kind->Concat_0;
    let a = as_template::<L>(expression_meaning(language, bindings, nodes[0]), nodes[0].span);
    let b = as_template::<L>(expression_meaning(language, bindings, nodes[1]), nodes[1].span);
    reveal_with_fuel(templates_meaning, 3);
    let all = templates_meaning(language, bindings, nodes, 0, 2);
    assert(all is Ok == (a is Ok && b is Ok));
    if a is Ok && b is Ok {
        let contents = Seq::<TemplateIn<'a, L>>::empty().push(a->Ok_0).push(b->Ok_0);
        let outputs = each_rendered(contents, context, scope);
        assert(all == Ok::<Seq<TemplateIn<'a, L>>, ParseError>(contents));
        reveal_with_fuel(joined, 2);
        assert(outputs.drop_last() =~= seq![a->Ok_0(context, scope)]);
        assert(outputs.last() == b->Ok_0(context, scope));
        assert(concatenated(contents)(context, scope) =~= a->Ok_0(context, scope) + b->Ok_0(
            context,
            scope,
        ));
    }
}

/// The function `concat` is the operator `++`.
pub proof fn law_concat_is_the_operator<'a, L: TemplateLanguage<'a>>(
    language: &L,
    bindings: Bindings<MeaningIn<'a, L>>,
    call: ExpressionNode<'_>,
    operator: ExpressionNode<'_>,
)
    requires
        call.kind is FunctionCall,
        call.kind->FunctionCall_0.name@ == "concat"@,
        operator.kind is Concat,
        operator.kind->Concat_0 == call.kind->FunctionCall_0.args,
    ensures
        expression_meaning(language, bindings, call) == expression_meaning(
            language,
            bindings,
            operator,
        ),
{
    reveal_strlit("concat");
    reveal_strlit("fill");
    reveal_strlit("indent");
    reveal_strlit("label");
    reveal_strlit("if");
    assert("concat"@[0] != "indent"@[0]);
    assert("concat"@.len() != "fill"@.len());
    assert("concat"@.len() != "label"@.len());
    assert("concat"@.len() != "if"@.len());
    let function = *call.kind->FunctionCall_0;
    assert(function_meaning(language, bindings, function) == concat_meaning(
        language,
        templates_meaning(language, bindings, function.args, 0, function.args.len() as int),
    ));
}

/// Negating an integer expression fails exactly for the least integer. Negating it twice gives
/// its value again. Neither has labels, whatever the labels of the operand are.
pub proof fn law_negated_expression<'a, L: TemplateLanguage<'a>>(
    language: &L,
    bindings: Bindings<MeaningIn<'a, L>>,
    once: ExpressionNode<'_>,
    twice: ExpressionNode<'_>,
    context: L::Context,
    scope: Seq<ItemIn<'a, L>>,
)
    requires
        wraps_core::<L>(language),
        once.kind is Unary,
        once.kind->Unary_0 == UnaryOp::Negate,
        twice.kind is Unary,
        twice.kind->Unary_0 == UnaryOp::Negate,
        *twice.kind->Unary_1 == once,
        integer_value(language, bindings, *once.kind->Unary_1, context, scope) is Some,
        integer_value(language, bindings, *once.kind->Unary_1, context, scope)->0 is Ok,
    ensures
        ({
            let value = integer_value(
                language,
                bindings,
                *once.kind->Unary_1,
                context,
                scope,
            )->0->Ok_0;
            let negated = integer_value(language, bindings, once, context, scope);
            let restored = integer_value(language, bindings, twice, context, scope);
            &&& negated matches Some(negated) && {
                &&& negated is Err <==> value == i64::MIN
                &&& value != i64::MIN ==> negated == Ok::<i64, Seq<char>>((-value) as i64)
            }
            &&& restored is Some
            &&& value != i64::MIN ==> restored == Some(Ok::<i64, Seq<char>>(value))
            &&& expression_meaning(language, bindings, once)->Ok_0.labels.len() == 0
            &&& expression_meaning(language, bindings, twice)->Ok_0.labels.len() == 0
        }),
{
    law_unary_operators(language, bindings, once);
    law_unary_operators(language, bindings, twice);
}

/// The value of an expression as an integer, if it is one.
pub open spec fn integer_value<'a, L: TemplateLanguage<'a>>(
    language: &L,
    bindings: Bindings<MeaningIn<'a, L>>,
    node: ExpressionNode<'_>,
    context: L::Context,
    scope: Seq<ItemIn<'a, L>>,
) -> Option<Result<i64, Seq<char>>> {
    match as_integer::<L>(expression_meaning(language, bindings, node), node.span) {
        Ok(property) => Some(property(context, scope)),
        Err(_) => None,
    }
}

/// The value of an expression as a boolean, if it can be taken for one.
pub open spec fn boolean_value<'a, L: TemplateLanguage<'a>>(
    language: &L,
    bindings: Bindings<MeaningIn<'a, L>>,
    node: ExpressionNode<'_>,
    context: L::Context,
    scope: Seq<ItemIn<'a, L>>,
) -> Option<Result<bool, Seq<char>>> {
    match as_boolean::<L>(expression_meaning(language, bindings, node), node.span) {
        Ok(property) => Some(property(context, scope)),
        Err(_) => None,
    }
}

/// The value of an expression as text, if it can be taken for text.
pub open spec fn text_value<'a, L: TemplateLanguage<'a>>(
    language: &L,
    bindings: Bindings<MeaningIn<'a, L>>,
    node: ExpressionNode<'_>,
    context: L::Context,
    scope: Seq<ItemIn<'a, L>>,
) -> Option<Result<Seq<char>, Seq<char>>> {
    match as_plain_text::<L>(expression_meaning(language, bindings, node), node.span) {
        Ok(property) => Some(property(context, scope)),
        Err(_) => None,
    }
}

/// `!` gives the opposite of a boolean expression, and twice the value again. Neither has
/// labels, whatever the labels of the operand are.
pub proof fn law_opposite_expression<'a, L: TemplateLanguage<'a>>(
    language: &L,
    bindings: Bindings<MeaningIn<'a, L>>,
    once: ExpressionNode<'_>,
    twice: ExpressionNode<'_>,
    context: L::Context,
    scope: Seq<ItemIn<'a, L>>,
)
    requires
        wraps_core::<L>(language),
        once.kind is Unary,
        once.kind->Unary_0 == UnaryOp::LogicalNot,
        twice.kind is Unary,
        twice.kind->Unary_0 == UnaryOp::LogicalNot,
        *twice.kind->Unary_1 == once,
        boolean_value(language, bindings, *once.kind->Unary_1, context, scope) is Some,
        boolean_value(language, bindings, *once.kind->Unary_1, context, scope)->0 is Ok,
    ensures
        ({
            let value = boolean_value(
                language,
                bindings,
                *once.kind->Unary_1,
                context,
                scope,
            )->0->Ok_0;
            &&& boolean_value(language, bindings, once, context, scope) == Some(
                Ok::<bool, Seq<char>>(!value),
            )
            &&& boolean_value(language, bindings, twice, context, scope) == Some(
                Ok::<bool, Seq<char>>(value),
            )
            &&& expression_meaning(language, bindings, once)->Ok_0.labels.len() == 0
            &&& expression_meaning(language, bindings, twice)->Ok_0.labels.len() == 0
        }),
{
    law_unary_operators(language, bindings, once);
    law_unary_operators(language, bindings, twice);
}

}
