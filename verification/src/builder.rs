//! Builds templates from expressions.
use vstd::prelude::*;
use vstd::string::*;

use crate::arguments::{
    arguments_error, exact_arguments_error, expect_arguments, expect_exact_arguments,
    expect_some_arguments, some_arguments_error,
};
use crate::ast::{
    BinaryOp, Call, ExpressionKind, ExpressionNode, FunctionCallNode, MethodCallNode, Span, UnaryOp,
};
use crate::error::{
    ParseError, ParseErrorKind, TemplateParseError, TemplateParseErrorKind, TemplateParseResult,
};
use crate::functions::{
    as_isize, as_usize, logical_and, logical_not, logical_or, negation, words, LogicalAnd,
    LogicalNot, LogicalOr, Negation, ToIsize, ToUsize, Words,
};
use crate::language::{
    built, Bindings, BuildContext, Denoted, IntoTemplateProperty, MeaningIn, PropertyIn, TemplateIn,
    TemplateLanguage,
};
use crate::property::{
    constant, literal, mapped, paired, BoxedProperty, PropertyPair, TemplateFunction,
    TemplateProperty,
};
use crate::template::{
    concatenated, conditional, filled, indented_by, labeled_by, meanings, separated, surrounded,
    BoxedTemplate, ConcatTemplate, ConditionalTemplate, FillTemplate, IndentTemplate, LabelTemplate,
    SeparateTemplate, SurroundTemplate, Template, TemplateFn,
};
use crate::text::same_text;
use crate::time::{is_present, MillisSinceEpoch, Timestamp};

verus! {

/// Opaque struct that represents a template value.
pub struct Expression<P> {
    property: P,
    labels: Vec<String>,
}

/// What an [`Expression`] means.
pub struct ExpressionMeaning<M> {
    pub property: M,
    pub labels: Seq<Seq<char>>,
}

impl<M> ExpressionMeaning<M> {
    /// A meaning without labels.
    pub open spec fn unlabeled(property: M) -> ExpressionMeaning<M> {
        ExpressionMeaning { property, labels: Seq::empty() }
    }

    /// A meaning with one label.
    pub open spec fn with_label(property: M, label: Seq<char>) -> ExpressionMeaning<M> {
        ExpressionMeaning { property, labels: seq![label] }
    }
}

/// `template` inside `labels`, if there are any.
pub open spec fn labeled_template<C, W>(
    template: TemplateFn<C, W>,
    labels: Seq<Seq<char>>,
) -> TemplateFn<C, W> {
    if labels.len() == 0 {
        template
    } else {
        labeled_by(template, constant(labels))
    }
}

impl<P: Denoted> Denoted for Expression<P> {
    type Meaning = ExpressionMeaning<P::Meaning>;

    closed spec fn meaning(&self) -> ExpressionMeaning<P::Meaning> {
        ExpressionMeaning { property: self.property.meaning(), labels: self.labels.deep_view() }
    }
}

impl<P: Denoted> Expression<P> {
    fn unlabeled(property: P) -> (expression: Self)
        ensures
            expression.meaning() == ExpressionMeaning::unlabeled(property.meaning()),
    {
        let labels: Vec<String> = Vec::new();
        proof {
            assert(labels.deep_view() =~= Seq::empty());
        }
        Expression { property, labels }
    }

    fn with_label(property: P, label: &str) -> (expression: Self)
        ensures
            expression.meaning() == ExpressionMeaning::with_label(property.meaning(), label@),
    {
        let mut labels: Vec<String> = Vec::new();
        labels.push(label.to_owned());
        proof {
            assert(labels.deep_view() =~= seq![label@]);
        }
        Expression { property, labels }
    }

    pub fn try_into_boolean<'a, C: 'a, V: DeepView + 'a>(self) -> (property: Option<
        BoxedProperty<'a, C, V, bool>,
    >) where P: IntoTemplateProperty<'a, C, V>
        ensures
            match property {
                Some(property) => P::boolean_of(self.meaning().property) == Some(property.value()),
                None => P::boolean_of(self.meaning().property) is None,
            },
    {
        self.property.try_into_boolean()
    }

    pub fn try_into_integer<'a, C: 'a, V: DeepView + 'a>(self) -> (property: Option<
        BoxedProperty<'a, C, V, i64>,
    >) where P: IntoTemplateProperty<'a, C, V>
        ensures
            match property {
                Some(property) => P::integer_of(self.meaning().property) == Some(property.value()),
                None => P::integer_of(self.meaning().property) is None,
            },
    {
        self.property.try_into_integer()
    }

    pub fn try_into_plain_text<'a, C: 'a, V: DeepView + 'a>(self) -> (property: Option<
        BoxedProperty<'a, C, V, String>,
    >) where P: IntoTemplateProperty<'a, C, V>
        ensures
            match property {
                Some(property) => P::plain_text_of(self.meaning().property) == Some(
                    property.value(),
                ),
                None => P::plain_text_of(self.meaning().property) is None,
            },
    {
        self.property.try_into_plain_text()
    }

    pub fn try_into_template<'a, C: 'a, V: DeepView + 'a>(self) -> (template: Option<
        BoxedTemplate<'a, C, V>,
    >) where P: IntoTemplateProperty<'a, C, V>
        ensures
            match P::template_of(self.meaning().property) {
                Some(inner) => template matches Some(template) && template.rendered()
                    == labeled_template(inner, self.meaning().labels),
                None => template is None,
            },
    {
        match self.property.try_into_template() {
            Some(content) => if self.labels.len() == 0 {
                Some(content)
            } else {
                Some(
                    BoxedTemplate(
                        Box::new(
                            LabelTemplate {
                                content,
                                labels: literal(self.labels),
                            },
                        ),
                    ),
                )
            },
            None => None,
        }
    }
}

/// An expression that was built, or what is wrong with it.
pub type Built<'a, L> = Result<ExpressionMeaning<MeaningIn<'a, L>>, ParseError>;

/// An expression with nothing but a property, or what is wrong with it.
pub open spec fn without_labels<M>(property: Result<M, ParseError>) -> Result<
    ExpressionMeaning<M>,
    ParseError,
> {
    match property {
        Ok(property) => Ok(ExpressionMeaning::unlabeled(property)),
        Err(error) => Err(error),
    }
}

/// The expression at `span` taken for a boolean.
pub open spec fn as_boolean<'a, L: TemplateLanguage<'a>>(
    expression: Built<'a, L>,
    span: Span,
) -> Result<PropertyIn<'a, L, bool>, ParseError> {
    match expression {
        Ok(expression) => match L::Property::boolean_of(expression.property) {
            Some(property) => Ok(property),
            None => Err(ParseError::expected_type("Boolean"@, span)),
        },
        Err(error) => Err(error),
    }
}

/// The expression at `span` taken for an integer.
pub open spec fn as_integer<'a, L: TemplateLanguage<'a>>(
    expression: Built<'a, L>,
    span: Span,
) -> Result<PropertyIn<'a, L, i64>, ParseError> {
    match expression {
        Ok(expression) => match L::Property::integer_of(expression.property) {
            Some(property) => Ok(property),
            None => Err(ParseError::expected_type("Integer"@, span)),
        },
        Err(error) => Err(error),
    }
}

/// The expression at `span` taken for text. Anything that can be shown will do, so it is a
/// template that is expected.
pub open spec fn as_plain_text<'a, L: TemplateLanguage<'a>>(
    expression: Built<'a, L>,
    span: Span,
) -> Result<PropertyIn<'a, L, Seq<char>>, ParseError> {
    match expression {
        Ok(expression) => match L::Property::plain_text_of(expression.property) {
            Some(property) => Ok(property),
            None => Err(ParseError::expected_type("Template"@, span)),
        },
        Err(error) => Err(error),
    }
}

/// The expression at `span` taken for a template.
pub open spec fn as_template<'a, L: TemplateLanguage<'a>>(
    expression: Built<'a, L>,
    span: Span,
) -> Result<TemplateIn<'a, L>, ParseError> {
    match expression {
        Ok(expression) => match L::Property::template_of(expression.property) {
            Some(template) => Ok(labeled_template(template, expression.labels)),
            None => Err(ParseError::expected_type("Template"@, span)),
        },
        Err(error) => Err(error),
    }
}

/// What a name means: a local variable, `self` or a keyword.
pub open spec fn identifier_meaning<'a, L: TemplateLanguage<'a>>(
    language: &L,
    bindings: Bindings<MeaningIn<'a, L>>,
    name: Seq<char>,
    span: Span,
) -> Built<'a, L> {
    match bindings.lookup(name) {
        Some(property) => Ok(ExpressionMeaning::unlabeled(property)),
        None => if name == "self"@ {
            Ok(ExpressionMeaning::unlabeled(language.self_meaning()))
        } else {
            match keyword_meaning(language, bindings, name, span) {
                Ok(expression) => Ok(expression),
                Err(error) => Err(
                    error.with_keyword_candidates(bindings.names().push("self"@)),
                ),
            }
        },
    }
}

/// The call of a method without arguments that a keyword stands for.
pub open spec fn keyword_call<'i>(name: Seq<char>, span: Span) -> Call<'i> {
    Call { name, name_span: span, args: Seq::empty(), args_span: span.end_span() }
}

/// What a keyword means. It is a method of `self` without arguments, and labeled with its
/// name.
pub open spec fn keyword_meaning<'a, L: TemplateLanguage<'a>>(
    language: &L,
    bindings: Bindings<MeaningIn<'a, L>>,
    name: Seq<char>,
    span: Span,
) -> Built<'a, L> {
    match language.built_method(bindings, language.self_meaning(), keyword_call(name, span)) {
        Ok(property) => Ok(ExpressionMeaning::with_label(property, name)),
        Err(error) => Err(
            ParseError::at(
                ParseErrorKind::NoSuchKeyword {
                    name,
                    candidates: match error.kind {
                        ParseErrorKind::NoSuchMethod { candidates, .. } => candidates,
                        _ => seq!["self."@ + name + "(..)"@],
                    },
                },
                span,
            ),
        ),
    }
}

/// What an operator with one operand means.
pub open spec fn unary_meaning<'a, L: TemplateLanguage<'a>>(
    language: &L,
    op: UnaryOp,
    arg: Built<'a, L>,
    arg_span: Span,
) -> Result<MeaningIn<'a, L>, ParseError> {
    match op {
        UnaryOp::LogicalNot => match as_boolean::<L>(arg, arg_span) {
            Ok(arg) => Ok(language.wrapped_boolean(mapped(arg, logical_not()))),
            Err(error) => Err(error),
        },
        UnaryOp::Negate => match as_integer::<L>(arg, arg_span) {
            Ok(arg) => Ok(language.wrapped_integer(mapped(arg, negation()))),
            Err(error) => Err(error),
        },
    }
}

/// What an operator with two operands means.
pub open spec fn binary_meaning<'a, L: TemplateLanguage<'a>>(
    language: &L,
    op: BinaryOp,
    lhs: Built<'a, L>,
    lhs_span: Span,
    rhs: Built<'a, L>,
    rhs_span: Span,
) -> Result<MeaningIn<'a, L>, ParseError> {
    let function = match op {
        BinaryOp::LogicalOr => logical_or(),
        BinaryOp::LogicalAnd => logical_and(),
    };
    match as_boolean::<L>(lhs, lhs_span) {
        Ok(lhs) => match as_boolean::<L>(rhs, rhs_span) {
            Ok(rhs) => Ok(language.wrapped_boolean(mapped(paired(lhs, rhs), function))),
            Err(error) => Err(error),
        },
        Err(error) => Err(error),
    }
}

/// What a method call means. The name of the method is one more label.
pub open spec fn method_call_meaning<'a, L: TemplateLanguage<'a>>(
    language: &L,
    bindings: Bindings<MeaningIn<'a, L>>,
    object: Built<'a, L>,
    function: Call<'_>,
) -> Built<'a, L> {
    match object {
        Ok(object) => match language.built_method(bindings, object.property, function) {
            Ok(property) => Ok(
                ExpressionMeaning { property, labels: object.labels.push(function.name) },
            ),
            Err(error) => Err(error),
        },
        Err(error) => Err(error),
    }
}

/// What `fill(width, content)` means.
pub open spec fn fill_meaning<'a, L: TemplateLanguage<'a>>(
    language: &L,
    width: Result<PropertyIn<'a, L, i64>, ParseError>,
    content: Result<TemplateIn<'a, L>, ParseError>,
) -> Result<MeaningIn<'a, L>, ParseError> {
    match width {
        Ok(width) => match content {
            Ok(content) => Ok(
                language.wrapped_template(filled(mapped(width, as_usize()), content)),
            ),
            Err(error) => Err(error),
        },
        Err(error) => Err(error),
    }
}

/// What `indent(prefix, content)` means.
pub open spec fn indent_meaning<'a, L: TemplateLanguage<'a>>(
    language: &L,
    prefix: Result<TemplateIn<'a, L>, ParseError>,
    content: Result<TemplateIn<'a, L>, ParseError>,
) -> Result<MeaningIn<'a, L>, ParseError> {
    match prefix {
        Ok(prefix) => match content {
            Ok(content) => Ok(language.wrapped_template(indented_by(prefix, content))),
            Err(error) => Err(error),
        },
        Err(error) => Err(error),
    }
}

/// What `label(label, content)` means. The label may be several words, each of which is a
/// label.
pub open spec fn label_meaning<'a, L: TemplateLanguage<'a>>(
    language: &L,
    label: Result<PropertyIn<'a, L, Seq<char>>, ParseError>,
    content: Result<TemplateIn<'a, L>, ParseError>,
) -> Result<MeaningIn<'a, L>, ParseError> {
    match label {
        Ok(label) => match content {
            Ok(content) => Ok(
                language.wrapped_template(labeled_by(content, mapped(label, words()))),
            ),
            Err(error) => Err(error),
        },
        Err(error) => Err(error),
    }
}

/// What `if(condition, true_template[, false_template])` means.
pub open spec fn if_meaning<'a, L: TemplateLanguage<'a>>(
    language: &L,
    condition: Result<PropertyIn<'a, L, bool>, ParseError>,
    true_template: Result<TemplateIn<'a, L>, ParseError>,
    false_template: Option<Result<TemplateIn<'a, L>, ParseError>>,
) -> Result<MeaningIn<'a, L>, ParseError> {
    match condition {
        Ok(condition) => match true_template {
            Ok(true_template) => match false_template {
                Some(Ok(false_template)) => Ok(
                    language.wrapped_template(
                        conditional(condition, true_template, Some(false_template)),
                    ),
                ),
                Some(Err(error)) => Err(error),
                None => Ok(language.wrapped_template(conditional(condition, true_template, None))),
            },
            Err(error) => Err(error),
        },
        Err(error) => Err(error),
    }
}

/// What templates one behind the other mean.
pub open spec fn concat_meaning<'a, L: TemplateLanguage<'a>>(
    language: &L,
    contents: Result<Seq<TemplateIn<'a, L>>, ParseError>,
) -> Result<MeaningIn<'a, L>, ParseError> {
    match contents {
        Ok(contents) => Ok(language.wrapped_template(concatenated(contents))),
        Err(error) => Err(error),
    }
}

/// What `separate(separator, contents..)` means.
pub open spec fn separate_meaning<'a, L: TemplateLanguage<'a>>(
    language: &L,
    separator: Result<TemplateIn<'a, L>, ParseError>,
    contents: Result<Seq<TemplateIn<'a, L>>, ParseError>,
) -> Result<MeaningIn<'a, L>, ParseError> {
    match separator {
        Ok(separator) => match contents {
            Ok(contents) => Ok(language.wrapped_template(separated(separator, contents))),
            Err(error) => Err(error),
        },
        Err(error) => Err(error),
    }
}

/// What `surround(prefix, suffix, content)` means.
pub open spec fn surround_meaning<'a, L: TemplateLanguage<'a>>(
    language: &L,
    prefix: Result<TemplateIn<'a, L>, ParseError>,
    suffix: Result<TemplateIn<'a, L>, ParseError>,
    content: Result<TemplateIn<'a, L>, ParseError>,
) -> Result<MeaningIn<'a, L>, ParseError> {
    match prefix {
        Ok(prefix) => match suffix {
            Ok(suffix) => match content {
                Ok(content) => Ok(language.wrapped_template(surrounded(prefix, suffix, content))),
                Err(error) => Err(error),
            },
            Err(error) => Err(error),
        },
        Err(error) => Err(error),
    }
}

/// What an expression means.
pub open spec fn expression_meaning<'a, L: TemplateLanguage<'a>>(
    language: &L,
    bindings: Bindings<MeaningIn<'a, L>>,
    node: ExpressionNode<'_>,
) -> Built<'a, L>
    decreases node, 0int,
{
    match node.kind {
        ExpressionKind::Identifier(name) => identifier_meaning(
            language,
            bindings,
            name@,
            node.span,
        ),
        ExpressionKind::Boolean(value) => Ok(
            ExpressionMeaning::unlabeled(language.wrapped_boolean(constant(value))),
        ),
        ExpressionKind::Integer(value) => Ok(
            ExpressionMeaning::unlabeled(language.wrapped_integer(constant(value))),
        ),
        ExpressionKind::String(value) => Ok(
            ExpressionMeaning::unlabeled(language.wrapped_string(constant(value@))),
        ),
        ExpressionKind::Unary(op, arg) => without_labels(
            unary_meaning(language, op, expression_meaning(language, bindings, *arg), arg.span),
        ),
        ExpressionKind::Binary(op, lhs, rhs) => without_labels(
            binary_meaning(
                language,
                op,
                expression_meaning(language, bindings, *lhs),
                lhs.span,
                expression_meaning(language, bindings, *rhs),
                rhs.span,
            ),
        ),
        ExpressionKind::Concat(nodes) => without_labels(
            concat_meaning(
                language,
                templates_meaning(language, bindings, nodes, 0, nodes.len() as int),
            ),
        ),
        ExpressionKind::FunctionCall(function) => without_labels(
            function_meaning(language, bindings, *function),
        ),
        ExpressionKind::MethodCall(method) => method_call_meaning(
            language,
            bindings,
            expression_meaning(language, bindings, method.object),
            method.function@,
        ),
        ExpressionKind::Lambda(_) => Err(
            ParseError::unexpected("Lambda cannot be defined here"@, node.span),
        ),
        ExpressionKind::AliasExpanded(id, subst) => match expression_meaning(
            language,
            bindings,
            *subst,
        ) {
            Ok(expression) => Ok(expression),
            Err(error) => Err(error.within_alias_expansion(id, node.span)),
        },
    }
}

/// What the expressions from `from` to `to` mean as templates.
pub open spec fn templates_meaning<'a, L: TemplateLanguage<'a>>(
    language: &L,
    bindings: Bindings<MeaningIn<'a, L>>,
    nodes: Vec<ExpressionNode<'_>>,
    from: int,
    to: int,
) -> Result<Seq<TemplateIn<'a, L>>, ParseError>
    decreases nodes, to,
{
    if from < 0 || to <= from || to > nodes.len() {
        Ok(Seq::empty())
    } else {
        match templates_meaning(language, bindings, nodes, from, to - 1) {
            Ok(templates) => match as_template::<L>(
                expression_meaning(language, bindings, nodes[to - 1]),
                nodes[to - 1].span,
            ) {
                Ok(template) => Ok(templates.push(template)),
                Err(error) => Err(error),
            },
            Err(error) => Err(error),
        }
    }
}

/// What the call of a global function means.
pub open spec fn function_meaning<'a, L: TemplateLanguage<'a>>(
    language: &L,
    bindings: Bindings<MeaningIn<'a, L>>,
    function: FunctionCallNode<'_>,
) -> Result<MeaningIn<'a, L>, ParseError>
    decreases function, 0int,
{
    let args = function.args;
    if function.name@ == "fill"@ {
        match exact_arguments_error(function@, 2) {
            None => fill_meaning(
                language,
                as_integer::<L>(
                    expression_meaning(language, bindings, args[0]),
                    args[0].span,
                ),
                as_template::<L>(expression_meaning(language, bindings, args[1]), args[1].span),
            ),
            Some(error) => Err(error),
        }
    } else if function.name@ == "indent"@ {
        match exact_arguments_error(function@, 2) {
            None => indent_meaning(
                language,
                as_template::<L>(expression_meaning(language, bindings, args[0]), args[0].span),
                as_template::<L>(expression_meaning(language, bindings, args[1]), args[1].span),
            ),
            Some(error) => Err(error),
        }
    } else if function.name@ == "label"@ {
        match exact_arguments_error(function@, 2) {
            None => label_meaning(
                language,
                as_plain_text::<L>(
                    expression_meaning(language, bindings, args[0]),
                    args[0].span,
                ),
                as_template::<L>(expression_meaning(language, bindings, args[1]), args[1].span),
            ),
            Some(error) => Err(error),
        }
    } else if function.name@ == "if"@ {
        match arguments_error(function@, 2, 1) {
            None => if_meaning(
                language,
                as_boolean::<L>(expression_meaning(language, bindings, args[0]), args[0].span),
                as_template::<L>(expression_meaning(language, bindings, args[1]), args[1].span),
                if args.len() == 3 {
                    Some(
                        as_template::<L>(
                            expression_meaning(language, bindings, args[2]),
                            args[2].span,
                        ),
                    )
                } else {
                    None
                },
            ),
            Some(error) => Err(error),
        }
    } else if function.name@ == "concat"@ {
        concat_meaning(
            language,
            templates_meaning(language, bindings, args, 0, args.len() as int),
        )
    } else if function.name@ == "separate"@ {
        match some_arguments_error(function@, 1) {
            None => separate_meaning(
                language,
                as_template::<L>(expression_meaning(language, bindings, args[0]), args[0].span),
                templates_meaning(language, bindings, args, 1, args.len() as int),
            ),
            Some(error) => Err(error),
        }
    } else if function.name@ == "surround"@ {
        match exact_arguments_error(function@, 3) {
            None => surround_meaning(
                language,
                as_template::<L>(expression_meaning(language, bindings, args[0]), args[0].span),
                as_template::<L>(expression_meaning(language, bindings, args[1]), args[1].span),
                as_template::<L>(expression_meaning(language, bindings, args[2]), args[2].span),
            ),
            Some(error) => Err(error),
        }
    } else {
        Err(ParseError::no_such_function(function@))
    }
}

fn build_keyword<'a, L: TemplateLanguage<'a>>(
    language: &L,
    build_ctx: &mut BuildContext<'_, L::Property>,
    name: &str,
    name_span: Span,
) -> (result: TemplateParseResult<Expression<L::Property>>)
    ensures
        final(build_ctx).follows(*old(build_ctx)),
        forall|now: Timestamp| #[trigger]
            final(build_ctx).admits(now) ==> built(result) == keyword_meaning(
                language,
                old(build_ctx).at(now),
                name@,
                name_span,
            ),
{
    // Keyword is a 0-ary method on the "self" property
    let self_property = language.build_self();
    let function = FunctionCallNode {
        name,
        name_span,
        args: Vec::new(),
        args_span: name_span.end_span(),
    };
    proof {
        assert(function@.args =~= Seq::empty());
    }
    match language.build_method(build_ctx, self_property, &function) {
        Ok(property) => Ok(Expression::with_label(property, name)),
        Err(error) => {
            let kind = match error.kind {
                TemplateParseErrorKind::NoSuchMethod { candidates, .. } => {
                    TemplateParseErrorKind::NoSuchKeyword { name: name.to_owned(), candidates }
                },
                _ => {
                    // Since keyword is a 0-ary method, any argument-related errors
                    // mean there's no such keyword.
                    let mut candidate = "self.".to_owned();
                    candidate.append(name);
                    candidate.append("(..)");
                    let mut candidates: Vec<String> = Vec::new();
                    candidates.push(candidate);
                    proof {
                        assert(candidates.deep_view() =~= seq!["self."@ + name@ + "(..)"@]);
                    }
                    TemplateParseErrorKind::NoSuchKeyword { name: name.to_owned(), candidates }
                },
            };
            Err(TemplateParseError::with_span(kind, name_span))
        },
    }
}

/// Builds an operator with one operand.
pub fn build_unary_operation<'a, L: TemplateLanguage<'a>>(
    language: &L,
    build_ctx: &mut BuildContext<'_, L::Property>,
    op: UnaryOp,
    arg_node: &ExpressionNode<'_>,
) -> (result: TemplateParseResult<Expression<L::Property>>)
    ensures
        final(build_ctx).follows(*old(build_ctx)),
        forall|now: Timestamp| #[trigger]
            final(build_ctx).admits(now) ==> built(result) == without_labels(
                unary_meaning(
                    language,
                    op,
                    expression_meaning(language, old(build_ctx).at(now), *arg_node),
                    arg_node.span,
                ),
            ),
    decreases arg_node, 3int,
{
    let property = match op {
        UnaryOp::LogicalNot => match expect_boolean_expression(language, build_ctx, arg_node) {
            Ok(arg) => language.wrap_boolean(
                BoxedProperty(Box::new(TemplateFunction { property: arg, function: LogicalNot })),
            ),
            Err(error) => return Err(error),
        },
        UnaryOp::Negate => match expect_integer_expression(language, build_ctx, arg_node) {
            Ok(arg) => language.wrap_integer(
                BoxedProperty(Box::new(TemplateFunction { property: arg, function: Negation })),
            ),
            Err(error) => return Err(error),
        },
    };
    Ok(Expression::unlabeled(property))
}

fn build_binary_operation<'a, L: TemplateLanguage<'a>>(
    language: &L,
    build_ctx: &mut BuildContext<'_, L::Property>,
    op: BinaryOp,
    lhs_node: &ExpressionNode<'_>,
    rhs_node: &ExpressionNode<'_>,
    Ghost(node): Ghost<ExpressionNode<'_>>,
) -> (result: TemplateParseResult<Expression<L::Property>>)
    requires
        decreases_to!(node => *lhs_node),
        decreases_to!(node => *rhs_node),
    ensures
        final(build_ctx).follows(*old(build_ctx)),
        forall|now: Timestamp| #[trigger]
            final(build_ctx).admits(now) ==> built(result) == without_labels(
                binary_meaning(
                    language,
                    op,
                    expression_meaning(language, old(build_ctx).at(now), *lhs_node),
                    lhs_node.span,
                    expression_meaning(language, old(build_ctx).at(now), *rhs_node),
                    rhs_node.span,
                ),
            ),
    decreases node, 0int,
{
    // No short-circuiting supported
    let lhs = match expect_boolean_expression(language, build_ctx, lhs_node) {
        Ok(lhs) => lhs,
        Err(error) => return Err(error),
    };
    let rhs = match expect_boolean_expression(language, build_ctx, rhs_node) {
        Ok(rhs) => rhs,
        Err(error) => return Err(error),
    };
    let operands = BoxedProperty(Box::new(PropertyPair { first: lhs, second: rhs }));
    let property = match op {
        BinaryOp::LogicalOr => language.wrap_boolean(
            BoxedProperty(Box::new(TemplateFunction { property: operands, function: LogicalOr })),
        ),
        BinaryOp::LogicalAnd => language.wrap_boolean(
            BoxedProperty(Box::new(TemplateFunction { property: operands, function: LogicalAnd })),
        ),
    };
    Ok(Expression::unlabeled(property))
}

fn build_method_call<'a, L: TemplateLanguage<'a>>(
    language: &L,
    build_ctx: &mut BuildContext<'_, L::Property>,
    method: &MethodCallNode<'_>,
) -> (result: TemplateParseResult<Expression<L::Property>>)
    ensures
        final(build_ctx).follows(*old(build_ctx)),
        forall|now: Timestamp| #[trigger]
            final(build_ctx).admits(now) ==> built(result) == method_call_meaning(
                language,
                old(build_ctx).at(now),
                expression_meaning(language, old(build_ctx).at(now), method.object),
                method.function@,
            ),
    decreases method, 0int,
{
    let expression = match build_expression(language, build_ctx, &method.object) {
        Ok(expression) => expression,
        Err(error) => return Err(error),
    };
    match language.build_method(build_ctx, expression.property, &method.function) {
        Ok(property) => {
            let mut labels = expression.labels;
            let ghost before = labels.deep_view();
            labels.push(method.function.name.to_owned());
            proof {
                assert(labels.deep_view() =~= before.push(method.function.name@));
            }
            Ok(Expression { property, labels })
        },
        Err(error) => Err(error),
    }
}

/// Builds templates from the expressions from `from` on.
fn build_templates<'a, L: TemplateLanguage<'a>>(
    language: &L,
    build_ctx: &mut BuildContext<'_, L::Property>,
    nodes: &Vec<ExpressionNode<'_>>,
    from: usize,
) -> (result: TemplateParseResult<Vec<BoxedTemplate<'a, L::Context, L::Item>>>)
    requires
        from <= nodes@.len(),
    ensures
        final(build_ctx).follows(*old(build_ctx)),
        forall|now: Timestamp| #[trigger]
            final(build_ctx).admits(now) ==> templates_meaning(
                language,
                old(build_ctx).at(now),
                *nodes,
                from as int,
                nodes@.len() as int,
            ) == templates_built(result),
    decreases nodes, 0int,
{
    let mut templates: Vec<BoxedTemplate<'a, L::Context, L::Item>> = Vec::new();
    let mut i: usize = from;
    proof {
        assert(meanings(templates@) =~= Seq::empty());
    }
    while i < nodes.len()
        invariant
            from <= i <= nodes@.len(),
            build_ctx.follows(*old(build_ctx)),
            forall|now: Timestamp| #[trigger]
                build_ctx.admits(now) ==> templates_meaning(
                    language,
                    old(build_ctx).at(now),
                    *nodes,
                    from as int,
                    i as int,
                ) == Ok::<Seq<TemplateIn<'a, L>>, ParseError>(meanings(templates@)),
        decreases nodes@.len() - i,
    {
        match expect_template_expression(language, build_ctx, &nodes[i]) {
            Ok(template) => {
                let ghost before = meanings(templates@);
                let ghost meaning = template.rendered();
                templates.push(template);
                proof {
                    assert(meanings(templates@) =~= before.push(meaning));
                }
            },
            Err(error) => {
                proof {
                    assert forall|now: Timestamp| #[trigger]
                        build_ctx.admits(now) implies templates_meaning(
                        language,
                        old(build_ctx).at(now),
                        *nodes,
                        from as int,
                        nodes@.len() as int,
                    ) == Err::<Seq<TemplateIn<'a, L>>, ParseError>(error.view()) by {
                        lemma_first_error(
                            language,
                            old(build_ctx).at(now),
                            *nodes,
                            from as int,
                            i + 1,
                            nodes@.len() as int,
                        );
                    }
                }
                return Err(error);
            },
        }
        i += 1;
    }
    Ok(templates)
}

/// Templates that were built, or what is wrong with one.
pub open spec fn templates_built<'a, C, V: DeepView>(
    result: TemplateParseResult<Vec<BoxedTemplate<'a, C, V>>>,
) -> Result<Seq<TemplateFn<C, V::V>>, ParseError> {
    match result {
        Ok(templates) => Ok(meanings(templates@)),
        Err(error) => Err(error.view()),
    }
}

/// The first expression with an error decides.
pub proof fn lemma_first_error<'a, L: TemplateLanguage<'a>>(
    language: &L,
    bindings: Bindings<MeaningIn<'a, L>>,
    nodes: Vec<ExpressionNode<'_>>,
    from: int,
    to: int,
    end: int,
)
    requires
        0 <= from < to <= end <= nodes.len(),
        templates_meaning(language, bindings, nodes, from, to) is Err,
    ensures
        templates_meaning(language, bindings, nodes, from, end) == templates_meaning(
            language,
            bindings,
            nodes,
            from,
            to,
        ),
    decreases end - to,
{
    if to < end {
        lemma_first_error(language, bindings, nodes, from, to, end - 1);
    }
}

fn build_global_function<'a, L: TemplateLanguage<'a>>(
    language: &L,
    build_ctx: &mut BuildContext<'_, L::Property>,
    function: &FunctionCallNode<'_>,
) -> (result: TemplateParseResult<Expression<L::Property>>)
    ensures
        final(build_ctx).follows(*old(build_ctx)),
        forall|now: Timestamp| #[trigger]
            final(build_ctx).admits(now) ==> built(result) == without_labels(
                function_meaning(language, old(build_ctx).at(now), *function),
            ),
    decreases function, 0int,
{
    let property = if same_text(function.name, "fill") {
        if let Err(error) = expect_exact_arguments(function, 2) {
            return Err(error);
        }
        let width = match expect_usize_expression(language, build_ctx, &function.args[0]) {
            Ok(width) => width,
            Err(error) => return Err(error),
        };
        let content = match expect_template_expression(language, build_ctx, &function.args[1]) {
            Ok(content) => content,
            Err(error) => return Err(error),
        };
        language.wrap_template(BoxedTemplate(Box::new(FillTemplate { width, content })))
    } else if same_text(function.name, "indent") {
        if let Err(error) = expect_exact_arguments(function, 2) {
            return Err(error);
        }
        let prefix = match expect_template_expression(language, build_ctx, &function.args[0]) {
            Ok(prefix) => prefix,
            Err(error) => return Err(error),
        };
        let content = match expect_template_expression(language, build_ctx, &function.args[1]) {
            Ok(content) => content,
            Err(error) => return Err(error),
        };
        language.wrap_template(BoxedTemplate(Box::new(IndentTemplate { prefix, content })))
    } else if same_text(function.name, "label") {
        if let Err(error) = expect_exact_arguments(function, 2) {
            return Err(error);
        }
        let label = match expect_plain_text_expression(language, build_ctx, &function.args[0]) {
            Ok(label) => label,
            Err(error) => return Err(error),
        };
        let content = match expect_template_expression(language, build_ctx, &function.args[1]) {
            Ok(content) => content,
            Err(error) => return Err(error),
        };
        let labels = BoxedProperty(
            Box::new(TemplateFunction { property: label, function: Words }),
        );
        language.wrap_template(BoxedTemplate(Box::new(LabelTemplate { content, labels })))
    } else if same_text(function.name, "if") {
        if let Err(error) = expect_arguments(function, 2, 1) {
            return Err(error);
        }
        let condition = match expect_boolean_expression(language, build_ctx, &function.args[0]) {
            Ok(condition) => condition,
            Err(error) => return Err(error),
        };
        let true_node = &function.args[1];
        let true_template = match expect_template_expression(language, build_ctx, true_node) {
            Ok(true_template) => true_template,
            Err(error) => return Err(error),
        };
        let false_template = if function.args.len() == 3 {
            match expect_template_expression(language, build_ctx, &function.args[2]) {
                Ok(false_template) => Some(false_template),
                Err(error) => return Err(error),
            }
        } else {
            None
        };
        language.wrap_template(
            BoxedTemplate(
                Box::new(ConditionalTemplate { condition, true_template, false_template }),
            ),
        )
    } else if same_text(function.name, "concat") {
        let contents = match build_templates(language, build_ctx, &function.args, 0) {
            Ok(contents) => contents,
            Err(error) => return Err(error),
        };
        language.wrap_template(BoxedTemplate(Box::new(ConcatTemplate(contents))))
    } else if same_text(function.name, "separate") {
        if let Err(error) = expect_some_arguments(function, 1) {
            return Err(error);
        }
        let separator = match expect_template_expression(language, build_ctx, &function.args[0]) {
            Ok(separator) => separator,
            Err(error) => return Err(error),
        };
        let contents = match build_templates(language, build_ctx, &function.args, 1) {
            Ok(contents) => contents,
            Err(error) => return Err(error),
        };
        language.wrap_template(BoxedTemplate(Box::new(SeparateTemplate { separator, contents })))
    } else if same_text(function.name, "surround") {
        if let Err(error) = expect_exact_arguments(function, 3) {
            return Err(error);
        }
        let prefix = match expect_template_expression(language, build_ctx, &function.args[0]) {
            Ok(prefix) => prefix,
            Err(error) => return Err(error),
        };
        let suffix = match expect_template_expression(language, build_ctx, &function.args[1]) {
            Ok(suffix) => suffix,
            Err(error) => return Err(error),
        };
        let content = match expect_template_expression(language, build_ctx, &function.args[2]) {
            Ok(content) => content,
            Err(error) => return Err(error),
        };
        language.wrap_template(
            BoxedTemplate(Box::new(SurroundTemplate { prefix, suffix, content })),
        )
    } else {
        return Err(TemplateParseError::no_such_function(function));
    };
    Ok(Expression::unlabeled(property))
}

/// Builds intermediate expression tree from AST nodes.
pub fn build_expression<'a, L: TemplateLanguage<'a>>(
    language: &L,
    build_ctx: &mut BuildContext<'_, L::Property>,
    node: &ExpressionNode<'_>,
) -> (result: TemplateParseResult<Expression<L::Property>>)
    ensures
        final(build_ctx).follows(*old(build_ctx)),
        forall|now: Timestamp| #[trigger]
            final(build_ctx).admits(now) ==> built(result) == expression_meaning(
                language,
                old(build_ctx).at(now),
                *node,
            ),
    decreases node, 1int,
{
    match &node.kind {
        ExpressionKind::Identifier(name) => match build_ctx.make(name) {
            // Don't label a local variable with its name
            Some(property) => Ok(Expression::unlabeled(property)),
            None => if same_text(name, "self") {
                // "self" is a special variable, so don't label it
                Ok(Expression::unlabeled(language.build_self()))
            } else {
                match build_keyword(language, build_ctx, name, node.span) {
                    Ok(expression) => Ok(expression),
                    Err(error) => {
                        let mut names = build_ctx.names();
                        let ghost before = names.deep_view();
                        names.push("self".to_owned());
                        proof {
                            assert(names.deep_view() =~= before.push("self"@));
                        }
                        Err(error.extend_keyword_candidates(names))
                    },
                }
            },
        },
        ExpressionKind::Boolean(value) => {
            let property = language.wrap_boolean(literal(*value));
            Ok(Expression::unlabeled(property))
        },
        ExpressionKind::Integer(value) => {
            let property = language.wrap_integer(literal(*value));
            Ok(Expression::unlabeled(property))
        },
        ExpressionKind::String(value) => {
            let property = language.wrap_string(literal(value.clone()));
            Ok(Expression::unlabeled(property))
        },
        ExpressionKind::Unary(op, arg_node) => build_unary_operation(
            language,
            build_ctx,
            *op,
            arg_node,
        ),
        ExpressionKind::Binary(op, lhs_node, rhs_node) => build_binary_operation(
            language,
            build_ctx,
            *op,
            lhs_node,
            rhs_node,
            Ghost(*node),
        ),
        ExpressionKind::Concat(nodes) => match build_templates(language, build_ctx, nodes, 0) {
            Ok(templates) => {
                let property = language.wrap_template(
                    BoxedTemplate(Box::new(ConcatTemplate(templates))),
                );
                Ok(Expression::unlabeled(property))
            },
            Err(error) => Err(error),
        },
        ExpressionKind::FunctionCall(function) => build_global_function(
            language,
            build_ctx,
            function,
        ),
        ExpressionKind::MethodCall(method) => build_method_call(language, build_ctx, method),
        ExpressionKind::Lambda(_) => Err(
            TemplateParseError::unexpected_expression("Lambda cannot be defined here", node.span),
        ),
        ExpressionKind::AliasExpanded(id, subst) => match build_expression(
            language,
            build_ctx,
            subst,
        ) {
            Ok(expression) => Ok(expression),
            Err(error) => Err(error.within_alias_expansion(*id, node.span)),
        },
    }
}

/// Builds template evaluation tree from AST nodes, with fresh build context.
pub fn build_at<'a, L: TemplateLanguage<'a>>(
    language: &L,
    node: &ExpressionNode<'_>,
    now: Timestamp,
) -> (result: TemplateParseResult<BoxedTemplate<'a, L::Context, L::Item>>)
    ensures
        built(result) == template_built_at(language, *node, now),
{
    let mut build_ctx = BuildContext::new_at(now);
    let result = expect_template_expression(language, &mut build_ctx, node);
    proof {
        assert(build_ctx.admits(now));
    }
    result
}

/// What an expression means as a template that is built at a point in time.
pub open spec fn template_built_at<'a, L: TemplateLanguage<'a>>(
    language: &L,
    node: ExpressionNode<'_>,
    now: Timestamp,
) -> Result<TemplateIn<'a, L>, ParseError> {
    as_template::<L>(expression_meaning(language, Bindings::fresh(now), node), node.span)
}

/// Builds template evaluation tree from AST nodes, with fresh build context. The time is read
/// if a part of the template asks for it, and then once.
pub fn build<'a, L: TemplateLanguage<'a>>(language: &L, node: &ExpressionNode<'_>) -> (result:
    TemplateParseResult<BoxedTemplate<'a, L::Context, L::Item>>)
    ensures
        exists|now: Timestamp|
            is_present(now) && built(result) == #[trigger] template_built_at(language, *node, now),
{
    let mut build_ctx = BuildContext::new();
    let result = expect_template_expression(language, &mut build_ctx, node);
    proof {
        let now = match build_ctx.time() {
            Some(now) => now,
            None => Timestamp { timestamp: MillisSinceEpoch(0), tz_offset: 0 },
        };
        assert(build_ctx.admits(now));
        assert(built(result) == template_built_at(language, *node, now));
    }
    result
}

pub fn expect_boolean_expression<'a, L: TemplateLanguage<'a>>(
    language: &L,
    build_ctx: &mut BuildContext<'_, L::Property>,
    node: &ExpressionNode<'_>,
) -> (result: TemplateParseResult<BoxedProperty<'a, L::Context, L::Item, bool>>)
    ensures
        final(build_ctx).follows(*old(build_ctx)),
        forall|now: Timestamp| #[trigger]
            final(build_ctx).admits(now) ==> built(result) == as_boolean::<L>(
                expression_meaning(language, old(build_ctx).at(now), *node),
                node.span,
            ),
    decreases node, 2int,
{
    match build_expression(language, build_ctx, node) {
        Ok(expression) => match expression.try_into_boolean() {
            Some(property) => Ok(property),
            None => Err(TemplateParseError::expected_type("Boolean", node.span)),
        },
        Err(error) => Err(error),
    }
}

pub fn expect_integer_expression<'a, L: TemplateLanguage<'a>>(
    language: &L,
    build_ctx: &mut BuildContext<'_, L::Property>,
    node: &ExpressionNode<'_>,
) -> (result: TemplateParseResult<BoxedProperty<'a, L::Context, L::Item, i64>>)
    ensures
        final(build_ctx).follows(*old(build_ctx)),
        forall|now: Timestamp| #[trigger]
            final(build_ctx).admits(now) ==> built(result) == as_integer::<L>(
                expression_meaning(language, old(build_ctx).at(now), *node),
                node.span,
            ),
    decreases node, 2int,
{
    match build_expression(language, build_ctx, node) {
        Ok(expression) => match expression.try_into_integer() {
            Some(property) => Ok(property),
            None => Err(TemplateParseError::expected_type("Integer", node.span)),
        },
        Err(error) => Err(error),
    }
}

/// The value of an integer expression as one of type `isize`.
pub open spec fn integer_as_isize<'a, L: TemplateLanguage<'a>>(
    expression: Built<'a, L>,
    span: Span,
) -> Result<PropertyIn<'a, L, isize>, ParseError> {
    match as_integer::<L>(expression, span) {
        Ok(property) => Ok(mapped(property, as_isize())),
        Err(error) => Err(error),
    }
}

/// If the given expression `node` is of `Integer` type, converts it to `isize`.
pub fn expect_isize_expression<'a, L: TemplateLanguage<'a>>(
    language: &L,
    build_ctx: &mut BuildContext<'_, L::Property>,
    node: &ExpressionNode<'_>,
) -> (result: TemplateParseResult<BoxedProperty<'a, L::Context, L::Item, isize>>)
    ensures
        final(build_ctx).follows(*old(build_ctx)),
        forall|now: Timestamp| #[trigger]
            final(build_ctx).admits(now) ==> built(result) == integer_as_isize::<L>(
                expression_meaning(language, old(build_ctx).at(now), *node),
                node.span,
            ),
    decreases node, 3int,
{
    match expect_integer_expression(language, build_ctx, node) {
        Ok(property) => Ok(
            BoxedProperty(Box::new(TemplateFunction { property, function: ToIsize })),
        ),
        Err(error) => Err(error),
    }
}

/// The value of an integer expression as one of type `usize`.
pub open spec fn integer_as_usize<'a, L: TemplateLanguage<'a>>(
    expression: Built<'a, L>,
    span: Span,
) -> Result<PropertyIn<'a, L, usize>, ParseError> {
    match as_integer::<L>(expression, span) {
        Ok(property) => Ok(mapped(property, as_usize())),
        Err(error) => Err(error),
    }
}

/// If the given expression `node` is of `Integer` type, converts it to `usize`.
pub fn expect_usize_expression<'a, L: TemplateLanguage<'a>>(
    language: &L,
    build_ctx: &mut BuildContext<'_, L::Property>,
    node: &ExpressionNode<'_>,
) -> (result: TemplateParseResult<BoxedProperty<'a, L::Context, L::Item, usize>>)
    ensures
        final(build_ctx).follows(*old(build_ctx)),
        forall|now: Timestamp| #[trigger]
            final(build_ctx).admits(now) ==> built(result) == integer_as_usize::<L>(
                expression_meaning(language, old(build_ctx).at(now), *node),
                node.span,
            ),
    decreases node, 3int,
{
    match expect_integer_expression(language, build_ctx, node) {
        Ok(property) => Ok(
            BoxedProperty(Box::new(TemplateFunction { property, function: ToUsize })),
        ),
        Err(error) => Err(error),
    }
}

pub fn expect_plain_text_expression<'a, L: TemplateLanguage<'a>>(
    language: &L,
    build_ctx: &mut BuildContext<'_, L::Property>,
    node: &ExpressionNode<'_>,
) -> (result: TemplateParseResult<BoxedProperty<'a, L::Context, L::Item, String>>)
    ensures
        final(build_ctx).follows(*old(build_ctx)),
        forall|now: Timestamp| #[trigger]
            final(build_ctx).admits(now) ==> built(result) == as_plain_text::<L>(
                expression_meaning(language, old(build_ctx).at(now), *node),
                node.span,
            ),
    decreases node, 2int,
{
    match build_expression(language, build_ctx, node) {
        Ok(expression) => match expression.try_into_plain_text() {
            Some(property) => Ok(property),
            None => Err(TemplateParseError::expected_type("Template", node.span)),
        },
        Err(error) => Err(error),
    }
}

pub fn expect_template_expression<'a, L: TemplateLanguage<'a>>(
    language: &L,
    build_ctx: &mut BuildContext<'_, L::Property>,
    node: &ExpressionNode<'_>,
) -> (result: TemplateParseResult<BoxedTemplate<'a, L::Context, L::Item>>)
    ensures
        final(build_ctx).follows(*old(build_ctx)),
        forall|now: Timestamp| #[trigger]
            final(build_ctx).admits(now) ==> built(result) == as_template::<L>(
                expression_meaning(language, old(build_ctx).at(now), *node),
                node.span,
            ),
    decreases node, 2int,
{
    match build_expression(language, build_ctx, node) {
        Ok(expression) => match expression.try_into_template() {
            Some(template) => Ok(template),
            None => Err(TemplateParseError::expected_type("Template", node.span)),
        },
        Err(error) => Err(error),
    }
}

}
