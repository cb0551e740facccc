//! What the arguments of a call may be.
use vstd::prelude::*;
use vstd::string::*;

use crate::ast::{Call, ExpressionKind, ExpressionNode, FunctionCallNode, LambdaNode};
use crate::error::{ParseError, TemplateParseError, TemplateParseResult};
use crate::text::{decimal, decimal_of};

verus! {

/// The error in a call, if any.
pub open spec fn error_of(result: TemplateParseResult<()>) -> Option<ParseError> {
    match result {
        Ok(_) => None,
        Err(error) => Some(error.view()),
    }
}

/// The error in a call whose arguments must be `count`.
pub open spec fn exact_arguments_error(call: Call<'_>, count: int) -> Option<ParseError> {
    if call.args.len() == count {
        None
    } else {
        Some(
            ParseError::invalid_arguments(
                call,
                "Expected "@ + decimal_of(count) + " arguments"@,
            ),
        )
    }
}

/// The error in a call that has `required` arguments and may have `optional` more.
pub open spec fn arguments_error(call: Call<'_>, required: int, optional: int) -> Option<
    ParseError,
> {
    if required <= call.args.len() <= required + optional {
        None
    } else {
        Some(
            ParseError::invalid_arguments(
                call,
                "Expected "@ + decimal_of(required) + " to "@ + decimal_of(required + optional)
                    + " arguments"@,
            ),
        )
    }
}

/// The error in a call that has `required` arguments or more.
pub open spec fn some_arguments_error(call: Call<'_>, required: int) -> Option<ParseError> {
    if required <= call.args.len() {
        None
    } else {
        Some(
            ParseError::invalid_arguments(
                call,
                "Expected at least "@ + decimal_of(required) + " arguments"@,
            ),
        )
    }
}

/// Checks that there are no arguments.
pub fn expect_no_arguments(function: &FunctionCallNode<'_>) -> (result: TemplateParseResult<()>)
    ensures
        error_of(result) == exact_arguments_error(function@, 0),
{
    expect_exact_arguments(function, 0)
}

/// Checks that there are `count` arguments.
pub fn expect_exact_arguments(function: &FunctionCallNode<'_>, count: u8) -> (result:
    TemplateParseResult<()>)
    ensures
        error_of(result) == exact_arguments_error(function@, count as int),
{
    if function.args.len() == count as usize {
        Ok(())
    } else {
        let mut message = "Expected ".to_owned();
        message.append(decimal(count as i64).as_str());
        message.append(" arguments");
        Err(TemplateParseError::invalid_arguments(function, message.as_str()))
    }
}

/// Checks that there are `required` arguments and no more than `optional` others.
pub fn expect_arguments(function: &FunctionCallNode<'_>, required: u8, optional: u8) -> (result:
    TemplateParseResult<()>)
    ensures
        error_of(result) == arguments_error(function@, required as int, optional as int),
{
    let count: usize = function.args.len();
    if required as usize <= count && count <= required as usize + optional as usize {
        Ok(())
    } else {
        let mut message = "Expected ".to_owned();
        message.append(decimal(required as i64).as_str());
        message.append(" to ");
        message.append(decimal(required as i64 + optional as i64).as_str());
        message.append(" arguments");
        Err(TemplateParseError::invalid_arguments(function, message.as_str()))
    }
}

/// Checks that there are `required` arguments or more.
pub fn expect_some_arguments(function: &FunctionCallNode<'_>, required: u8) -> (result:
    TemplateParseResult<()>)
    ensures
        error_of(result) == some_arguments_error(function@, required as int),
{
    if required as usize <= function.args.len() {
        Ok(())
    } else {
        let mut message = "Expected at least ".to_owned();
        message.append(decimal(required as i64).as_str());
        message.append(" arguments");
        Err(TemplateParseError::invalid_arguments(function, message.as_str()))
    }
}

/// What the aliases at `node` stand for in the end.
pub open spec fn unaliased<'i>(node: ExpressionNode<'i>) -> ExpressionNode<'i>
    decreases node,
{
    match node.kind {
        ExpressionKind::AliasExpanded(_, subst) => unaliased(*subst),
        _ => node,
    }
}

/// An error in what the aliases at `node` stand for, with each alias that leads there.
pub open spec fn within_aliases(node: ExpressionNode<'_>, error: ParseError) -> ParseError
    decreases node,
{
    match node.kind {
        ExpressionKind::AliasExpanded(id, subst) => within_aliases(
            *subst,
            error,
        ).within_alias_expansion(id, node.span),
        _ => error,
    }
}

/// Follows the aliases at `node`.
pub fn unalias<'n, 'i>(node: &'n ExpressionNode<'i>) -> (target: &'n ExpressionNode<'i>)
    ensures
        *target == unaliased(*node),
    decreases node,
{
    match &node.kind {
        ExpressionKind::AliasExpanded(_, subst) => unalias(subst),
        _ => node,
    }
}

/// Adds to an error the aliases at `node` that lead there.
pub fn wrap_in_aliases(node: &ExpressionNode<'_>, error: TemplateParseError) -> (wrapped:
    TemplateParseError)
    ensures
        wrapped.view() == within_aliases(*node, error.view()),
    decreases node,
{
    match &node.kind {
        ExpressionKind::AliasExpanded(id, subst) => wrap_in_aliases(
            subst,
            error,
        ).within_alias_expansion(*id, node.span),
        _ => error,
    }
}

/// The text of a string literal, also where an alias stands for it.
pub open spec fn string_literal(node: ExpressionNode<'_>) -> Result<Seq<char>, ParseError> {
    match unaliased(node).kind {
        ExpressionKind::String(text) => Ok(text@),
        _ => Err(
            within_aliases(
                node,
                ParseError::unexpected("Expected string literal"@, unaliased(node).span),
            ),
        ),
    }
}

/// Takes the text of a string literal.
pub fn expect_string_literal<'n>(node: &'n ExpressionNode<'_>) -> (result: TemplateParseResult<
    &'n str,
>)
    ensures
        match result {
            Ok(text) => string_literal(*node) == Ok::<Seq<char>, ParseError>(text@),
            Err(error) => string_literal(*node) == Err::<Seq<char>, ParseError>(error.view()),
        },
{
    let target = unalias(node);
    match &target.kind {
        ExpressionKind::String(text) => Ok(text.as_str()),
        _ => Err(
            wrap_in_aliases(
                node,
                TemplateParseError::unexpected_expression("Expected string literal", target.span),
            ),
        ),
    }
}

/// The lambda at `node`, also where an alias stands for it. It has one parameter.
pub open spec fn lambda_of<'i>(node: ExpressionNode<'i>) -> Result<LambdaNode<'i>, ParseError> {
    match unaliased(node).kind {
        ExpressionKind::Lambda(lambda) => if lambda.params.len() == 1 {
            Ok(*lambda)
        } else {
            Err(
                within_aliases(
                    node,
                    ParseError::unexpected("Expected 1 lambda parameters"@, lambda.params_span),
                ),
            )
        },
        _ => Err(
            within_aliases(
                node,
                ParseError::unexpected("Expected lambda expression"@, unaliased(node).span),
            ),
        ),
    }
}

/// Takes a lambda with one parameter.
pub fn expect_lambda<'n, 'i>(node: &'n ExpressionNode<'i>) -> (result: TemplateParseResult<
    &'n LambdaNode<'i>,
>)
    ensures
        match result {
            Ok(lambda) => lambda_of(*node) == Ok::<LambdaNode<'i>, ParseError>(*lambda)
                && lambda.params@.len() == 1,
            Err(error) => lambda_of(*node) == Err::<LambdaNode<'i>, ParseError>(error.view()),
        },
{
    let target = unalias(node);
    match &target.kind {
        ExpressionKind::Lambda(lambda) => if lambda.params.len() == 1 {
            Ok(lambda)
        } else {
            Err(
                wrap_in_aliases(
                    node,
                    TemplateParseError::unexpected_expression(
                        "Expected 1 lambda parameters",
                        lambda.params_span,
                    ),
                ),
            )
        },
        _ => Err(
            wrap_in_aliases(
                node,
                TemplateParseError::unexpected_expression(
                    "Expected lambda expression",
                    target.span,
                ),
            ),
        ),
    }
}

}
