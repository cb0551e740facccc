//! Laws of the operators and global functions, in languages that wrap the core kinds of
//! properties as they are: what an expression writes, in terms of what its operands or
//! arguments are and write.
use vstd::prelude::*;
use vstd::string::*;

use crate::ast::{BinaryOp, ExpressionKind, ExpressionNode, UnaryOp};
use crate::builder::{
    as_boolean, as_integer, as_plain_text, as_template, expression_meaning, function_meaning,
    lemma_first_error, template_built_at, templates_meaning, Built,
};
use crate::core_laws::{
    boolean_value, integer_value, law_binary_operators, law_concat_is_the_operator,
    law_unary_operators, text_value, wraps_core,
};
use crate::error::{ParseError, ParseErrorKind};
use crate::formatter::{joined, labeled, text_of, Output};
use crate::language::{
    Bindings, IntoTemplateProperty, ItemIn, MeaningIn, TemplateIn, TemplateLanguage,
};
use crate::layout::{indented, wrapped};
use crate::output_laws::law_fill_keeps_what_fits;
use crate::template::{each_rendered, error_output, has_text};
use crate::text::{decimal_of, words_of};
use crate::time::Timestamp;

verus! {

/// What an expression writes, if it can be taken for a template.
pub open spec fn output_of<'a, L: TemplateLanguage<'a>>(
    language: &L,
    bindings: Bindings<MeaningIn<'a, L>>,
    node: ExpressionNode<'_>,
    context: L::Context,
    scope: Seq<ItemIn<'a, L>>,
) -> Option<Output> {
    match as_template::<L>(expression_meaning(language, bindings, node), node.span) {
        Ok(template) => Some(template(context, scope)),
        Err(_) => None,
    }
}

/// What is wrong with an expression as a template, if anything.
pub open spec fn template_error<'a, L: TemplateLanguage<'a>>(
    language: &L,
    bindings: Bindings<MeaningIn<'a, L>>,
    node: ExpressionNode<'_>,
) -> Option<ParseError> {
    match as_template::<L>(expression_meaning(language, bindings, node), node.span) {
        Ok(_) => None,
        Err(error) => Some(error),
    }
}

/// Whether an expression calls the global function `name` with `count` arguments.
pub open spec fn calls_function(node: ExpressionNode<'_>, name: Seq<char>, count: int) -> bool {
    &&& node.kind is FunctionCall
    &&& node.kind->FunctionCall_0.name@ == name
    &&& node.kind->FunctionCall_0.args.len() == count
}

/// The argument at `i` of the call of a global function.
pub open spec fn function_argument<'i>(node: ExpressionNode<'i>, i: int) -> ExpressionNode<'i> {
    node.kind->FunctionCall_0.args[i]
}

/// The names of the global functions differ from each other.
proof fn lemma_function_names()
    ensures
        "fill"@ != "indent"@,
        "fill"@ != "label"@,
        "fill"@ != "if"@,
        "fill"@ != "concat"@,
        "fill"@ != "separate"@,
        "fill"@ != "surround"@,
        "indent"@ != "label"@,
        "indent"@ != "if"@,
        "indent"@ != "concat"@,
        "indent"@ != "separate"@,
        "indent"@ != "surround"@,
        "label"@ != "if"@,
        "label"@ != "concat"@,
        "label"@ != "separate"@,
        "label"@ != "surround"@,
        "if"@ != "concat"@,
        "if"@ != "separate"@,
        "if"@ != "surround"@,
        "concat"@ != "separate"@,
        "concat"@ != "surround"@,
        "separate"@ != "surround"@,
{
    reveal_strlit("fill");
    reveal_strlit("indent");
    reveal_strlit("label");
    reveal_strlit("if");
    reveal_strlit("concat");
    reveal_strlit("separate");
    reveal_strlit("surround");
    assert("fill"@.len() == 4 && "indent"@.len() == 6 && "label"@.len() == 5);
    assert("if"@.len() == 2 && "concat"@.len() == 6);
    assert("separate"@.len() == 8 && "surround"@.len() == 8);
    assert("indent"@[0] != "concat"@[0]);
    assert("separate"@[1] != "surround"@[1]);
}

/// `fill(width, content)` writes the content wrapped at the width that it is given. In
/// particular a line that is no longer than the width stays as it is. A width that is no
/// length, or that has no value, is told as an error.
pub proof fn law_fill<'a, L: TemplateLanguage<'a>>(
    language: &L,
    bindings: Bindings<MeaningIn<'a, L>>,
    node: ExpressionNode<'_>,
    context: L::Context,
    scope: Seq<ItemIn<'a, L>>,
)
    requires
        wraps_core::<L>(language),
        calls_function(node, "fill"@, 2),
    ensures
        ({
            let width = as_integer::<L>(
                expression_meaning(language, bindings, function_argument(node, 0)),
                function_argument(node, 0).span,
            );
            let content = output_of(
                language,
                bindings,
                function_argument(node, 1),
                context,
                scope,
            );
            let written = output_of(language, bindings, node, context, scope);
            &&& width is Err ==> template_error(language, bindings, node) == Some(width->Err_0)
            &&& width is Ok && content is None ==> template_error(language, bindings, node)
                == template_error(language, bindings, function_argument(node, 1))
            &&& width is Ok && content is Some ==> match width->Ok_0(context, scope) {
                Ok(width) => if 0 <= width <= usize::MAX {
                    &&& written == Some(wrapped(content->0, width as int))
                    &&& (!text_of(content->0).contains('\n') && text_of(content->0).len() <= width
                        && (text_of(content->0).len() == 0 || text_of(content->0).last() != ' '))
                        ==> written == content
                } else {
                    written == Some(
                        error_output("out of range integral type conversion attempted"@),
                    )
                },
                Err(message) => written == Some(error_output(message)),
            }
        }),
{
    lemma_function_names();
    reveal_with_fuel(expression_meaning, 2);
    reveal_with_fuel(function_meaning, 2);
    let content = output_of(language, bindings, function_argument(node, 1), context, scope);
    let width = integer_value(language, bindings, function_argument(node, 0), context, scope);
    if content is Some && width is Some && width->0 is Ok {
        let text = text_of(content->0);
        if !text.contains('\n') && text.len() <= width->0->Ok_0 && (text.len() == 0
            || text.last() != ' ') {
            assert forall|i: int| 0 <= i < text.len() implies text[i] != '\n' by {
                assert(text.contains(text[i]));
            }
            law_fill_keeps_what_fits(content->0, width->0->Ok_0 as int);
        }
    }
}

/// `indent(prefix, content)` writes the content with the prefix before each line.
pub proof fn law_indent<'a, L: TemplateLanguage<'a>>(
    language: &L,
    bindings: Bindings<MeaningIn<'a, L>>,
    node: ExpressionNode<'_>,
    context: L::Context,
    scope: Seq<ItemIn<'a, L>>,
)
    requires
        wraps_core::<L>(language),
        calls_function(node, "indent"@, 2),
    ensures
        ({
            let prefix = output_of(
                language,
                bindings,
                function_argument(node, 0),
                context,
                scope,
            );
            let content = output_of(
                language,
                bindings,
                function_argument(node, 1),
                context,
                scope,
            );
            if prefix is None {
                template_error(language, bindings, node) == template_error(
                    language,
                    bindings,
                    function_argument(node, 0),
                )
            } else if content is None {
                template_error(language, bindings, node) == template_error(
                    language,
                    bindings,
                    function_argument(node, 1),
                )
            } else {
                output_of(language, bindings, node, context, scope) == Some(
                    indented(content->0, prefix->0),
                )
            }
        }),
{
    lemma_function_names();
    reveal_with_fuel(expression_meaning, 2);
    reveal_with_fuel(function_meaning, 2);
}

/// `label(label, content)` writes the content inside the words of the label, as labels.
pub proof fn law_label<'a, L: TemplateLanguage<'a>>(
    language: &L,
    bindings: Bindings<MeaningIn<'a, L>>,
    node: ExpressionNode<'_>,
    context: L::Context,
    scope: Seq<ItemIn<'a, L>>,
)
    requires
        wraps_core::<L>(language),
        calls_function(node, "label"@, 2),
    ensures
        ({
            let label = as_plain_text::<L>(
                expression_meaning(language, bindings, function_argument(node, 0)),
                function_argument(node, 0).span,
            );
            let content = output_of(
                language,
                bindings,
                function_argument(node, 1),
                context,
                scope,
            );
            let written = output_of(language, bindings, node, context, scope);
            &&& label is Err ==> template_error(language, bindings, node) == Some(label->Err_0)
            &&& label is Ok && content is None ==> template_error(language, bindings, node)
                == template_error(language, bindings, function_argument(node, 1))
            &&& label is Ok && content is Some ==> written == Some(
                match label->Ok_0(context, scope) {
                    Ok(label) => labeled(words_of(label), content->0),
                    Err(message) => error_output(message),
                },
            )
        }),
{
    lemma_function_names();
    reveal_with_fuel(expression_meaning, 2);
    reveal_with_fuel(function_meaning, 2);
}

/// `if(condition, a, b)` writes what `a` writes where the condition holds, and what `b` writes
/// where it does not. Without `b`, nothing is written there.
pub proof fn law_if<'a, L: TemplateLanguage<'a>>(
    language: &L,
    bindings: Bindings<MeaningIn<'a, L>>,
    node: ExpressionNode<'_>,
    context: L::Context,
    scope: Seq<ItemIn<'a, L>>,
)
    requires
        wraps_core::<L>(language),
        calls_function(node, "if"@, 2) || calls_function(node, "if"@, 3),
    ensures
        ({
            let condition = as_boolean::<L>(
                expression_meaning(language, bindings, function_argument(node, 0)),
                function_argument(node, 0).span,
            );
            let yes = output_of(language, bindings, function_argument(node, 1), context, scope);
            let no = if node.kind->FunctionCall_0.args.len() == 3 {
                output_of(language, bindings, function_argument(node, 2), context, scope)
            } else {
                Some(Output::empty())
            };
            let written = output_of(language, bindings, node, context, scope);
            &&& condition is Err ==> template_error(language, bindings, node) == Some(
                condition->Err_0,
            )
            &&& condition is Ok && yes is None ==> template_error(language, bindings, node)
                == template_error(language, bindings, function_argument(node, 1))
            &&& condition is Ok && yes is Some && no is None ==> template_error(
                language,
                bindings,
                node,
            ) == template_error(language, bindings, function_argument(node, 2))
            &&& condition is Ok && yes is Some && no is Some ==> written
                == match condition->Ok_0(context, scope) {
                Ok(true) => yes,
                Ok(false) => no,
                Err(message) => Some(error_output(message)),
            }
        }),
{
    lemma_function_names();
    reveal_with_fuel(expression_meaning, 2);
    reveal_with_fuel(function_meaning, 2);
}

/// `surround(prefix, suffix, content)` writes the content between the prefix and the suffix if
/// it holds text, and nothing if it does not.
pub proof fn law_surround_function<'a, L: TemplateLanguage<'a>>(
    language: &L,
    bindings: Bindings<MeaningIn<'a, L>>,
    node: ExpressionNode<'_>,
    context: L::Context,
    scope: Seq<ItemIn<'a, L>>,
)
    requires
        wraps_core::<L>(language),
        calls_function(node, "surround"@, 3),
    ensures
        ({
            let prefix = output_of(
                language,
                bindings,
                function_argument(node, 0),
                context,
                scope,
            );
            let suffix = output_of(
                language,
                bindings,
                function_argument(node, 1),
                context,
                scope,
            );
            let content = output_of(
                language,
                bindings,
                function_argument(node, 2),
                context,
                scope,
            );
            let error = template_error(language, bindings, node);
            if prefix is None {
                error == template_error(language, bindings, function_argument(node, 0))
            } else if suffix is None {
                error == template_error(language, bindings, function_argument(node, 1))
            } else if content is None {
                error == template_error(language, bindings, function_argument(node, 2))
            } else {
                output_of(language, bindings, node, context, scope) == Some(
                    if text_of(content->0) == Seq::<char>::empty() {
                        Output::empty()
                    } else {
                        prefix->0 + content->0 + suffix->0
                    },
                )
            }
        }),
{
    lemma_function_names();
    reveal_with_fuel(expression_meaning, 2);
    reveal_with_fuel(function_meaning, 2);
    let content = output_of(language, bindings, function_argument(node, 2), context, scope);
    if content is Some && text_of(content->0).len() == 0 {
        assert(text_of(content->0) =~= Seq::empty());
    }
}

/// What the expressions from `from` on write.
pub open spec fn outputs_of<'a, L: TemplateLanguage<'a>>(
    language: &L,
    bindings: Bindings<MeaningIn<'a, L>>,
    nodes: Seq<ExpressionNode<'_>>,
    from: int,
    context: L::Context,
    scope: Seq<ItemIn<'a, L>>,
) -> Seq<Output> {
    Seq::new(
        (nodes.len() - from) as nat,
        |i: int| output_of(language, bindings, nodes[from + i], context, scope)->0,
    )
}

proof fn lemma_templates<'a, L: TemplateLanguage<'a>>(
    language: &L,
    bindings: Bindings<MeaningIn<'a, L>>,
    nodes: Vec<ExpressionNode<'_>>,
    from: int,
    to: int,
    context: L::Context,
    scope: Seq<ItemIn<'a, L>>,
)
    requires
        0 <= from <= to <= nodes.len(),
        forall|i: int|
            from <= i < to ==> output_of(
                language,
                bindings,
                #[trigger] nodes@[i],
                context,
                scope,
            ) is Some,
    ensures
        templates_meaning(language, bindings, nodes, from, to) is Ok,
        each_rendered(
            templates_meaning(language, bindings, nodes, from, to)->Ok_0,
            context,
            scope,
        ) == outputs_of(language, bindings, nodes@, from, context, scope).take(to - from),
    decreases to - from,
{
    let outputs = outputs_of(language, bindings, nodes@, from, context, scope);
    if from < to {
        lemma_templates(language, bindings, nodes, from, to - 1, context, scope);
        let before = templates_meaning(language, bindings, nodes, from, to - 1)->Ok_0;
        assert(output_of(language, bindings, nodes@[to - 1], context, scope) is Some);
        let all = templates_meaning(language, bindings, nodes, from, to)->Ok_0;
        assert(all == before.push(all.last()));
        assert(each_rendered(all, context, scope) =~= each_rendered(before, context, scope).push(
            all.last()(context, scope),
        ));
        let last = to - 1 - from;
        assert(outputs.take(to - from) =~= outputs.take(last).push(outputs[last]));
    } else {
        assert(each_rendered(
            templates_meaning(language, bindings, nodes, from, to)->Ok_0,
            context,
            scope,
        ) =~= outputs.take(0));
    }
}

/// `a ++ b ++ c`, and `concat(a, b, c)`, write what each operand writes, one behind the other.
pub proof fn law_concatenation_of_all<'a, L: TemplateLanguage<'a>>(
    language: &L,
    bindings: Bindings<MeaningIn<'a, L>>,
    operator: ExpressionNode<'_>,
    call: ExpressionNode<'_>,
    context: L::Context,
    scope: Seq<ItemIn<'a, L>>,
)
    requires
        wraps_core::<L>(language),
        operator.kind is Concat,
        call.kind is FunctionCall,
        call.kind->FunctionCall_0.name@ == "concat"@,
        call.kind->FunctionCall_0.args == operator.kind->Concat_0,
        forall|i: int|
            0 <= i < operator.kind->Concat_0.len() ==> output_of(
                language,
                bindings,
                #[trigger] operator.kind->Concat_0@[i],
                context,
                scope,
            ) is Some,
    ensures
        ({
            let written = joined(
                outputs_of(language, bindings, operator.kind->Concat_0@, 0, context, scope),
                Output::empty(),
            );
            &&& output_of(language, bindings, operator, context, scope) == Some(written)
            &&& output_of(language, bindings, call, context, scope) == Some(written)
        }),
{
    let nodes = operator.kind->Concat_0;
    let outputs = outputs_of(language, bindings, nodes@, 0, context, scope);
    lemma_templates(language, bindings, nodes, 0, nodes.len() as int, context, scope);
    assert(outputs.take(nodes.len() as int) =~= outputs);
    law_concat_is_the_operator(language, bindings, call, operator);
}

/// `separate(separator, a, b, c)` writes those of the contents that hold text, with the
/// separator between each two of them.
pub proof fn law_separate<'a, L: TemplateLanguage<'a>>(
    language: &L,
    bindings: Bindings<MeaningIn<'a, L>>,
    node: ExpressionNode<'_>,
    context: L::Context,
    scope: Seq<ItemIn<'a, L>>,
)
    requires
        wraps_core::<L>(language),
        node.kind is FunctionCall,
        node.kind->FunctionCall_0.name@ == "separate"@,
        node.kind->FunctionCall_0.args.len() > 0,
        forall|i: int|
            0 <= i < node.kind->FunctionCall_0.args.len() ==> output_of(
                language,
                bindings,
                #[trigger] node.kind->FunctionCall_0.args@[i],
                context,
                scope,
            ) is Some,
    ensures
        output_of(language, bindings, node, context, scope) == Some(
            joined(
                outputs_of(
                    language,
                    bindings,
                    node.kind->FunctionCall_0.args@,
                    1,
                    context,
                    scope,
                ).filter(|output: Output| has_text(output)),
                output_of(language, bindings, function_argument(node, 0), context, scope)->0,
            ),
        ),
{
    lemma_function_names();
    reveal_with_fuel(expression_meaning, 2);
    reveal_with_fuel(function_meaning, 2);
    let args = node.kind->FunctionCall_0.args;
    let outputs = outputs_of(language, bindings, args@, 1, context, scope);
    assert(output_of(language, bindings, args@[0], context, scope) is Some);
    lemma_templates(language, bindings, args, 1, args.len() as int, context, scope);
    assert(outputs.take(args.len() - 1) =~= outputs);
}

/// What a list of outputs keeps when those without text are left out: nothing of an empty
/// list, and of a longer one what the shorter one keeps, with the last output if that holds
/// text.
pub proof fn law_blank_outputs_are_left_out(outputs: Seq<Output>, next: Output)
    ensures
        ({
            let texts = |output: Output| has_text(output);
            &&& Seq::<Output>::empty().filter(texts) == Seq::<Output>::empty()
            &&& outputs.push(next).filter(texts) == if text_of(next) == Seq::<char>::empty() {
                outputs.filter(texts)
            } else {
                outputs.filter(texts).push(next)
            }
        }),
{
    let texts = |output: Output| has_text(output);
    reveal(Seq::filter);
    assert(outputs.push(next).drop_last() =~= outputs);
    if text_of(next).len() == 0 {
        assert(text_of(next) =~= Seq::empty());
    }
}

/// A global function takes a certain number of arguments and says so where it is given
/// another. There are no other global functions.
pub proof fn law_function_arguments<'a, L: TemplateLanguage<'a>>(
    language: &L,
    bindings: Bindings<MeaningIn<'a, L>>,
    node: ExpressionNode<'_>,
)
    requires
        node.kind is FunctionCall,
    ensures
        ({
            let function = *node.kind->FunctionCall_0;
            let name = function.name@;
            let count = function.args.len();
            let meaning = expression_meaning(language, bindings, node);
            let refused = |message: Seq<char>|
                meaning == Built::<'a, L>::Err(
                    ParseError {
                        kind: ParseErrorKind::InvalidArguments { name, message },
                        span: function.args_span,
                        origin: None,
                    },
                );
            &&& (name == "fill"@ || name == "indent"@ || name == "label"@) && count != 2
                ==> refused("Expected "@ + decimal_of(2) + " arguments"@)
            &&& name == "surround"@ && count != 3 ==> refused(
                "Expected "@ + decimal_of(3) + " arguments"@,
            )
            &&& name == "if"@ && !(2 <= count <= 3) ==> refused(
                "Expected "@ + decimal_of(2) + " to "@ + decimal_of(3) + " arguments"@,
            )
            &&& name == "separate"@ && count == 0 ==> refused(
                "Expected at least "@ + decimal_of(1) + " arguments"@,
            )
            &&& name != "fill"@ && name != "indent"@ && name != "label"@ && name != "if"@ && name
                != "concat"@ && name != "separate"@ && name != "surround"@ ==> meaning == Built::<
                'a,
                L,
            >::Err(
                ParseError {
                    kind: ParseErrorKind::NoSuchFunction { name },
                    span: function.name_span,
                    origin: None,
                },
            )
        }),
{
    lemma_function_names();
    reveal_with_fuel(expression_meaning, 2);
    reveal_with_fuel(function_meaning, 2);
}

/// `a && b` holds where both hold and `a || b` where one does; both need both operands. `!a`
/// holds where `a` does not.
pub proof fn law_logic<'a, L: TemplateLanguage<'a>>(
    language: &L,
    bindings: Bindings<MeaningIn<'a, L>>,
    node: ExpressionNode<'_>,
    context: L::Context,
    scope: Seq<ItemIn<'a, L>>,
)
    requires
        wraps_core::<L>(language),
    ensures
        match node.kind {
            ExpressionKind::Binary(op, left, right) => ({
                let lhs = boolean_value(language, bindings, *left, context, scope);
                let rhs = boolean_value(language, bindings, *right, context, scope);
                lhs is Some && rhs is Some ==> boolean_value(
                    language,
                    bindings,
                    node,
                    context,
                    scope,
                ) == Some(
                    match (lhs->0, rhs->0) {
                        (Ok(a), Ok(b)) => match op {
                            BinaryOp::LogicalOr => Ok::<bool, Seq<char>>(a || b),
                            BinaryOp::LogicalAnd => Ok(a && b),
                        },
                        (Err(message), _) => Err(message),
                        (_, Err(message)) => Err(message),
                    },
                )
            }),
            ExpressionKind::Unary(UnaryOp::LogicalNot, arg) => ({
                let value = boolean_value(language, bindings, *arg, context, scope);
                value is Some ==> boolean_value(language, bindings, node, context, scope) == Some(
                    match value->0 {
                        Ok(value) => Ok::<bool, Seq<char>>(!value),
                        Err(message) => Err(message),
                    },
                )
            }),
            ExpressionKind::Unary(UnaryOp::Negate, arg) => ({
                let value = integer_value(language, bindings, *arg, context, scope);
                let negated = integer_value(language, bindings, node, context, scope);
                value is Some ==> match value->0 {
                    Ok(value) => negated matches Some(result) && if value == i64::MIN {
                        result == Err::<i64, Seq<char>>("Attempt to negate with overflow"@)
                    } else {
                        result matches Ok(result) && result + value == 0
                    },
                    Err(message) => negated == Some(Err::<i64, Seq<char>>(message)),
                }
            }),
            _ => true,
        },
{
    match node.kind {
        ExpressionKind::Binary(op, left, right) => {
            law_binary_operators(language, bindings, node);
        },
        ExpressionKind::Unary(op, arg) => {
            law_unary_operators(language, bindings, node);
        },
        _ => {},
    }
}

/// A literal has the value that is written.
pub proof fn law_literals<'a, L: TemplateLanguage<'a>>(
    language: &L,
    bindings: Bindings<MeaningIn<'a, L>>,
    node: ExpressionNode<'_>,
    context: L::Context,
    scope: Seq<ItemIn<'a, L>>,
)
    requires
        wraps_core::<L>(language),
    ensures
        match node.kind {
            ExpressionKind::Boolean(value) => boolean_value(
                language,
                bindings,
                node,
                context,
                scope,
            ) == Some(Ok::<bool, Seq<char>>(value)),
            ExpressionKind::Integer(value) => integer_value(
                language,
                bindings,
                node,
                context,
                scope,
            ) == Some(Ok::<i64, Seq<char>>(value)) && boolean_value(
                language,
                bindings,
                node,
                context,
                scope,
            ) is None,
            ExpressionKind::String(value) => text_value(
                language,
                bindings,
                node,
                context,
                scope,
            ) == Some(Ok::<Seq<char>, Seq<char>>(value@)) && integer_value(
                language,
                bindings,
                node,
                context,
                scope,
            ) is None,
            _ => true,
        },
{
}

/// An expression that cannot be taken for what is needed is refused where it stands, with the
/// name of the type that is needed.
pub proof fn law_type_errors<'a, L: TemplateLanguage<'a>>(
    language: &L,
    bindings: Bindings<MeaningIn<'a, L>>,
    node: ExpressionNode<'_>,
)
    ensures
        ({
            let built = expression_meaning(language, bindings, node);
            let refused = |message: Seq<char>|
                ParseError {
                    kind: ParseErrorKind::UnexpectedExpression(message),
                    span: node.span,
                    origin: None,
                };
            let boolean = as_boolean::<L>(built, node.span);
            let integer = as_integer::<L>(built, node.span);
            let text = as_plain_text::<L>(built, node.span);
            let template = as_template::<L>(built, node.span);
            match built {
                Err(error) => {
                    &&& boolean is Err && boolean->Err_0 == error
                    &&& integer is Err && integer->Err_0 == error
                    &&& text is Err && text->Err_0 == error
                    &&& template is Err && template->Err_0 == error
                },
                Ok(expression) => {
                    let meaning = expression.property;
                    &&& match L::Property::boolean_of(meaning) {
                        Some(value) => boolean is Ok && boolean->Ok_0 == value,
                        None => boolean is Err && boolean->Err_0 == refused(
                            "Expected expression of type \""@ + "Boolean"@ + "\""@,
                        ),
                    }
                    &&& match L::Property::integer_of(meaning) {
                        Some(value) => integer is Ok && integer->Ok_0 == value,
                        None => integer is Err && integer->Err_0 == refused(
                            "Expected expression of type \""@ + "Integer"@ + "\""@,
                        ),
                    }
                    &&& match L::Property::plain_text_of(meaning) {
                        Some(value) => text is Ok && text->Ok_0 == value,
                        None => text is Err && text->Err_0 == refused(
                            "Expected expression of type \""@ + "Template"@ + "\""@,
                        ),
                    }
                    &&& L::Property::template_of(meaning) is None ==> template is Err
                        && template->Err_0 == refused(
                        "Expected expression of type \""@ + "Template"@ + "\""@,
                    )
                },
            }
        }),
{
}

/// An expression writes what its property writes, inside its labels.
pub proof fn law_expression_is_written_in_its_labels<'a, L: TemplateLanguage<'a>>(
    language: &L,
    bindings: Bindings<MeaningIn<'a, L>>,
    node: ExpressionNode<'_>,
    context: L::Context,
    scope: Seq<ItemIn<'a, L>>,
)
    requires
        expression_meaning(language, bindings, node) is Ok,
        L::Property::template_of(
            expression_meaning(language, bindings, node)->Ok_0.property,
        ) is Some,
    ensures
        ({
            let expression = expression_meaning(language, bindings, node)->Ok_0;
            let template = L::Property::template_of(expression.property)->0;
            output_of(language, bindings, node, context, scope) == Some(
                labeled(expression.labels, template(context, scope)),
            )
        }),
{
    let expression = expression_meaning(language, bindings, node)->Ok_0;
    let template = L::Property::template_of(expression.property)->0;
    assert(labeled(Seq::empty(), template(context, scope)) =~= template(context, scope));
    if expression.labels.len() == 0 {
        assert(expression.labels =~= Seq::empty());
    }
}

/// Building a template gives what the expression writes where there are no variables, or what
/// is wrong with it.
pub proof fn law_built_template<'a, L: TemplateLanguage<'a>>(
    language: &L,
    node: ExpressionNode<'_>,
    now: Timestamp,
    bindings: Bindings<MeaningIn<'a, L>>,
    context: L::Context,
    scope: Seq<ItemIn<'a, L>>,
)
    requires
        bindings.now == now,
        bindings.variables.len() == 0,
    ensures
        match template_built_at(language, node, now) {
            Ok(template) => output_of(language, bindings, node, context, scope) == Some(
                template(context, scope),
            ),
            Err(error) => template_error(language, bindings, node) == Some(error),
        },
{
    assert(bindings.variables =~= Seq::empty());
    assert(bindings == Bindings::<MeaningIn<'a, L>>::fresh(now));
}

/// The operands of a concatenation, or the arguments of a function.
pub open spec fn contents_of<'i>(node: ExpressionNode<'i>) -> Vec<ExpressionNode<'i>> {
    if node.kind is Concat {
        node.kind->Concat_0
    } else {
        node.kind->FunctionCall_0.args
    }
}

/// Of several contents, the first that has an error tells it.
pub proof fn law_first_error_is_told<'a, L: TemplateLanguage<'a>>(
    language: &L,
    bindings: Bindings<MeaningIn<'a, L>>,
    node: ExpressionNode<'_>,
    at: int,
)
    requires
        node.kind is Concat || (node.kind is FunctionCall && (node.kind->FunctionCall_0.name@
            == "concat"@ || node.kind->FunctionCall_0.name@ == "separate"@)),
        0 <= at < contents_of(node).len(),
        template_error(language, bindings, contents_of(node)[at]) is Some,
        forall|i: int|
            0 <= i < at ==> template_error(
                language,
                bindings,
                #[trigger] contents_of(node)[i],
            ) is None,
    ensures
        expression_meaning(language, bindings, node) == Built::<'a, L>::Err(
            template_error(language, bindings, contents_of(node)[at])->0,
        ),
{
    let nodes = contents_of(node);
    if node.kind is Concat {
        lemma_list_error(language, bindings, nodes, 0, at);
    } else {
        lemma_function_names();
        let function = *node.kind->FunctionCall_0;
        let meaning = function_meaning(language, bindings, function);
        if function.name@ == "concat"@ {
            lemma_list_error(language, bindings, nodes, 0, at);
            assert(meaning is Err && meaning->Err_0 == template_error(
                language,
                bindings,
                nodes[at],
            )->0);
        } else {
            if at > 0 {
                assert(template_error(language, bindings, nodes[0]) is None);
                lemma_list_error(language, bindings, nodes, 1, at);
            }
            assert(meaning is Err && meaning->Err_0 == template_error(
                language,
                bindings,
                nodes[at],
            )->0);
        }
    }
}

proof fn lemma_list_error<'a, L: TemplateLanguage<'a>>(
    language: &L,
    bindings: Bindings<MeaningIn<'a, L>>,
    nodes: Vec<ExpressionNode<'_>>,
    from: int,
    at: int,
)
    requires
        0 <= from <= at < nodes.len(),
        template_error(language, bindings, nodes[at]) is Some,
        forall|i: int|
            from <= i < at ==> template_error(language, bindings, #[trigger] nodes[i]) is None,
    ensures
        templates_meaning(language, bindings, nodes, from, nodes.len() as int) == Err::<
            Seq<TemplateIn<'a, L>>,
            ParseError,
        >(template_error(language, bindings, nodes[at])->0),
{
    lemma_list_is_built(language, bindings, nodes, from, at);
    lemma_first_error(language, bindings, nodes, from, at + 1, nodes.len() as int);
}

proof fn lemma_list_is_built<'a, L: TemplateLanguage<'a>>(
    language: &L,
    bindings: Bindings<MeaningIn<'a, L>>,
    nodes: Vec<ExpressionNode<'_>>,
    from: int,
    to: int,
)
    requires
        0 <= from <= to <= nodes.len(),
        forall|i: int|
            from <= i < to ==> template_error(language, bindings, #[trigger] nodes[i]) is None,
    ensures
        templates_meaning(language, bindings, nodes, from, to) is Ok,
    decreases to - from,
{
    if from < to {
        lemma_list_is_built(language, bindings, nodes, from, to - 1);
        assert(template_error(language, bindings, nodes[to - 1]) is None);
    }
}

}
