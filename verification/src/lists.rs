//! Methods of lists.
use vstd::prelude::*;

use crate::arguments::{
    exact_arguments_error, expect_exact_arguments, expect_lambda, expect_no_arguments, lambda_of,
    within_aliases, wrap_in_aliases,
};
use crate::ast::{Call, FunctionCallNode};
use crate::builder::{as_template, expect_template_expression, expression_meaning};
use crate::error::{ParseError, TemplateParseError, TemplateParseResult};
use crate::formatter::Output;
use crate::functions::{list_length, ListLength};
use crate::language::{
    built, Bindings, BuildContext, Denoted, ItemIn, ListTemplateIn, LocalVariable, MeaningIn,
    NamedVariable, PropertyIn, TemplateIn, TemplateLanguage,
};
use crate::property::{
    mapped, BoxedProperty, ListItem, PropertyPlaceholder, TemplateFunction, TemplateProperty,
};
use crate::template::{
    joined_list, shown_items, stored_item, template_for_each, BoxedListTemplate, BoxedTemplate,
    JoinTemplate, ListPropertyTemplate, ListTemplate, MappedListTemplate, Printable, Template,
};
use crate::text::same_text;
use crate::time::Timestamp;

verus! {

/// Wraps a list item as a property.
pub trait WrapItem<P: Denoted> {
    /// What the property means that an item is wrapped as.
    open spec fn wrapped(&self) -> spec_fn(PropertyPlaceholder) -> P::Meaning {
        arbitrary()
    }

    /// Wraps an item.
    fn wrap(&self, item: PropertyPlaceholder) -> (property: P)
        ensures
            property.meaning() == (self.wrapped())(item),
    ;
}

/// Makes properties that read the item of a list.
struct ItemVariable<'w, F> {
    wrap_item: &'w F,
    item: PropertyPlaceholder,
}

impl<'w, P: Denoted, F: WrapItem<P>> LocalVariable<P> for ItemVariable<'w, F> {
    closed spec fn made(&self) -> P::Meaning {
        (self.wrap_item.wrapped())(self.item)
    }

    fn make(&self) -> (property: P) {
        self.wrap_item.wrap(self.item)
    }
}

/// The list item that is one level inside the variables of `bindings`.
pub open spec fn innermost<M>(bindings: Bindings<M>) -> PropertyPlaceholder {
    PropertyPlaceholder { level: bindings.variables.len() as usize }
}

/// The template that the separator in `join(separator)` means.
pub open spec fn template_argument<'a, L: TemplateLanguage<'a>>(
    language: &L,
    bindings: Bindings<MeaningIn<'a, L>>,
    function: Call<'_>,
) -> Result<TemplateIn<'a, L>, ParseError> {
    match exact_arguments_error(function, 1) {
        None => as_template::<L>(
            expression_meaning(language, bindings, function.args[0]),
            function.args[0].span,
        ),
        Some(error) => Err(error),
    }
}

/// The template that the lambda in `map(lambda)` means. Its parameter is the list item.
pub open spec fn lambda_argument<'a, L: TemplateLanguage<'a>>(
    language: &L,
    bindings: Bindings<MeaningIn<'a, L>>,
    function: Call<'_>,
    wrapped: spec_fn(PropertyPlaceholder) -> MeaningIn<'a, L>,
) -> Result<TemplateIn<'a, L>, ParseError> {
    match exact_arguments_error(function, 1) {
        None => match lambda_of(function.args[0]) {
            Ok(lambda) => match as_template::<L>(
                expression_meaning(
                    language,
                    bindings.with_variable(lambda.params[0]@, wrapped(innermost(bindings))),
                    lambda.body,
                ),
                lambda.body.span,
            ) {
                Ok(template) => Ok(template),
                Err(error) => Err(within_aliases(function.args[0], error)),
            },
            Err(error) => Err(error),
        },
        Some(error) => Err(error),
    }
}

/// What the method `map` of a list means.
pub open spec fn map_meaning<'a, L: TemplateLanguage<'a>, T>(
    language: &L,
    bindings: Bindings<MeaningIn<'a, L>>,
    list: PropertyIn<'a, L, Seq<T>>,
    stored: spec_fn(T) -> ItemIn<'a, L>,
    function: Call<'_>,
    wrapped: spec_fn(PropertyPlaceholder) -> MeaningIn<'a, L>,
) -> Result<MeaningIn<'a, L>, ParseError> {
    match lambda_argument(language, bindings, function, wrapped) {
        Ok(template) => Ok(
            language.wrapped_list_template(template_for_each(list, stored, template)),
        ),
        Err(error) => Err(error),
    }
}

/// What the method `len` of a list means.
pub open spec fn len_meaning<'a, L: TemplateLanguage<'a>, T>(
    language: &L,
    list: PropertyIn<'a, L, Seq<T>>,
    function: Call<'_>,
) -> Result<MeaningIn<'a, L>, ParseError> {
    match exact_arguments_error(function, 0) {
        None => Ok(language.wrapped_integer(mapped(list, list_length()))),
        Some(error) => Err(error),
    }
}

/// What the method `join` of a list means.
pub open spec fn join_meaning<'a, L: TemplateLanguage<'a>>(
    language: &L,
    bindings: Bindings<MeaningIn<'a, L>>,
    list: ListTemplateIn<'a, L>,
    function: Call<'_>,
) -> Result<MeaningIn<'a, L>, ParseError> {
    match template_argument(language, bindings, function) {
        Ok(separator) => Ok(language.wrapped_template(joined_list(list, separator))),
        Err(error) => Err(error),
    }
}

/// What a method of a list means whose items can be shown.
pub open spec fn formattable_list_meaning<'a, L: TemplateLanguage<'a>, T>(
    language: &L,
    bindings: Bindings<MeaningIn<'a, L>>,
    list: PropertyIn<'a, L, Seq<T>>,
    shown: spec_fn(T) -> Output,
    stored: spec_fn(T) -> ItemIn<'a, L>,
    function: Call<'_>,
    wrapped: spec_fn(PropertyPlaceholder) -> MeaningIn<'a, L>,
) -> Result<MeaningIn<'a, L>, ParseError> {
    if function.name == "len"@ {
        len_meaning(language, list, function)
    } else if function.name == "join"@ {
        join_meaning(language, bindings, shown_items(list, shown), function)
    } else if function.name == "map"@ {
        map_meaning(language, bindings, list, stored, function, wrapped)
    } else {
        Err(ParseError::no_such_method("List"@, function, Seq::empty()))
    }
}

/// What a method of a list means whose items cannot be shown.
pub open spec fn unformattable_list_meaning<'a, L: TemplateLanguage<'a>, T>(
    language: &L,
    bindings: Bindings<MeaningIn<'a, L>>,
    list: PropertyIn<'a, L, Seq<T>>,
    stored: spec_fn(T) -> ItemIn<'a, L>,
    function: Call<'_>,
    wrapped: spec_fn(PropertyPlaceholder) -> MeaningIn<'a, L>,
) -> Result<MeaningIn<'a, L>, ParseError> {
    if function.name == "len"@ {
        len_meaning(language, list, function)
    } else if function.name == "map"@ {
        map_meaning(language, bindings, list, stored, function, wrapped)
    } else {
        Err(ParseError::no_such_method("List"@, function, Seq::empty()))
    }
}

/// What a method of a list of templates means.
pub open spec fn list_template_meaning<'a, L: TemplateLanguage<'a>>(
    language: &L,
    bindings: Bindings<MeaningIn<'a, L>>,
    list: ListTemplateIn<'a, L>,
    function: Call<'_>,
) -> Result<MeaningIn<'a, L>, ParseError> {
    if function.name == "join"@ {
        join_meaning(language, bindings, list, function)
    } else {
        Err(ParseError::no_such_method("ListTemplate"@, function, Seq::empty()))
    }
}

/// Builds the separator in `join(separator)`.
fn build_template_argument<'a, L: TemplateLanguage<'a>>(
    language: &L,
    build_ctx: &mut BuildContext<'_, L::Property>,
    function: &FunctionCallNode<'_>,
) -> (result: TemplateParseResult<BoxedTemplate<'a, L::Context, L::Item>>)
    ensures
        final(build_ctx).follows(*old(build_ctx)),
        forall|now: Timestamp| #[trigger]
            final(build_ctx).admits(now) ==> built(result) == template_argument(
                language,
                old(build_ctx).at(now),
                function@,
            ),
{
    match expect_exact_arguments(function, 1) {
        Ok(_) => expect_template_expression(language, build_ctx, &function.args[0]),
        Err(error) => Err(error),
    }
}

/// Builds a method call on a list of templates.
pub(crate) fn build_list_template_method<'a, L: TemplateLanguage<'a>>(
    language: &L,
    build_ctx: &mut BuildContext<'_, L::Property>,
    self_template: BoxedListTemplate<'a, L::Context, L::Item>,
    function: &FunctionCallNode<'_>,
) -> (result: TemplateParseResult<L::Property>)
    ensures
        final(build_ctx).follows(*old(build_ctx)),
        forall|now: Timestamp| #[trigger]
            final(build_ctx).admits(now) ==> built(result) == list_template_meaning(
                language,
                old(build_ctx).at(now),
                self_template.items(),
                function@,
            ),
{
    if same_text(function.name, "join") {
        match build_template_argument(language, build_ctx, function) {
            Ok(separator) => Ok(
                language.wrap_template(
                    BoxedTemplate(Box::new(JoinTemplate { list: self_template, separator })),
                ),
            ),
            Err(error) => Err(error),
        }
    } else {
        Err(TemplateParseError::no_such_method("ListTemplate", function))
    }
}

/// Builds method call expression for printable list property.
pub fn build_formattable_list_method<
    'a,
    L: TemplateLanguage<'a>,
    O: Printable + ListItem<L::Item> + 'a,
    F: WrapItem<L::Property>,
>(
    language: &L,
    build_ctx: &mut BuildContext<'_, L::Property>,
    self_property: BoxedProperty<'a, L::Context, L::Item, Vec<O>>,
    function: &FunctionCallNode<'_>,
    wrap_item: &F,
) -> (result: TemplateParseResult<L::Property>)
    ensures
        final(build_ctx).follows(*old(build_ctx)),
        forall|now: Timestamp| #[trigger]
            final(build_ctx).admits(now) ==> built(result) == formattable_list_meaning(
                language,
                old(build_ctx).at(now),
                self_property.value(),
                O::shown(),
                stored_item::<L::Item, O>(),
                function@,
                wrap_item.wrapped(),
            ),
{
    if same_text(function.name, "len") {
        build_list_len(language, self_property, function)
    } else if same_text(function.name, "join") {
        match build_template_argument(language, build_ctx, function) {
            Ok(separator) => {
                let list = BoxedListTemplate(
                    Box::new(ListPropertyTemplate { property: self_property }),
                );
                Ok(
                    language.wrap_template(
                        BoxedTemplate(Box::new(JoinTemplate { list, separator })),
                    ),
                )
            },
            Err(error) => Err(error),
        }
    } else if same_text(function.name, "map") {
        build_map_operation(language, build_ctx, self_property, function, wrap_item)
    } else {
        Err(TemplateParseError::no_such_method("List", function))
    }
}

/// Builds method call expression for list property whose items cannot be shown.
pub fn build_unformattable_list_method<
    'a,
    L: TemplateLanguage<'a>,
    O: ListItem<L::Item> + 'a,
    F: WrapItem<L::Property>,
>(
    language: &L,
    build_ctx: &mut BuildContext<'_, L::Property>,
    self_property: BoxedProperty<'a, L::Context, L::Item, Vec<O>>,
    function: &FunctionCallNode<'_>,
    wrap_item: &F,
) -> (result: TemplateParseResult<L::Property>)
    ensures
        final(build_ctx).follows(*old(build_ctx)),
        forall|now: Timestamp| #[trigger]
            final(build_ctx).admits(now) ==> built(result) == unformattable_list_meaning(
                language,
                old(build_ctx).at(now),
                self_property.value(),
                stored_item::<L::Item, O>(),
                function@,
                wrap_item.wrapped(),
            ),
{
    // No "join"
    if same_text(function.name, "len") {
        build_list_len(language, self_property, function)
    } else if same_text(function.name, "map") {
        build_map_operation(language, build_ctx, self_property, function, wrap_item)
    } else {
        Err(TemplateParseError::no_such_method("List", function))
    }
}

/// Builds the method `len` of a list.
fn build_list_len<'a, L: TemplateLanguage<'a>, O: DeepView + 'a>(
    language: &L,
    self_property: BoxedProperty<'a, L::Context, L::Item, Vec<O>>,
    function: &FunctionCallNode<'_>,
) -> (result: TemplateParseResult<L::Property>)
    ensures
        built(result) == len_meaning(language, self_property.value(), function@),
{
    match expect_no_arguments(function) {
        Ok(_) => Ok(
            language.wrap_integer(
                BoxedProperty(
                    Box::new(TemplateFunction { property: self_property, function: ListLength }),
                ),
            ),
        ),
        Err(error) => Err(error),
    }
}

/// Builds expression that extracts iterable property and applies template to
/// each item.
///
/// `wrap_item` wraps a list item of type `O` as a property.
fn build_map_operation<
    'a,
    L: TemplateLanguage<'a>,
    O: ListItem<L::Item> + 'a,
    F: WrapItem<L::Property>,
>(
    language: &L,
    build_ctx: &mut BuildContext<'_, L::Property>,
    self_property: BoxedProperty<'a, L::Context, L::Item, Vec<O>>,
    function: &FunctionCallNode<'_>,
    wrap_item: &F,
) -> (result: TemplateParseResult<L::Property>)
    ensures
        final(build_ctx).follows(*old(build_ctx)),
        forall|now: Timestamp| #[trigger]
            final(build_ctx).admits(now) ==> built(result) == map_meaning(
                language,
                old(build_ctx).at(now),
                self_property.value(),
                stored_item::<L::Item, O>(),
                function@,
                wrap_item.wrapped(),
            ),
{
    // Build an item template with placeholder property, then evaluate it
    // for each item.
    if let Err(error) = expect_exact_arguments(function, 1) {
        return Err(error);
    }
    let lambda_node = &function.args[0];
    let lambda = match expect_lambda(lambda_node) {
        Ok(lambda) => lambda,
        Err(error) => return Err(error),
    };
    let item_variable = ItemVariable {
        wrap_item,
        item: PropertyPlaceholder { level: build_ctx.depth() },
    };
    let mut inner_ctx = build_ctx.with_variable(
        NamedVariable { name: lambda.params[0], variable: &item_variable },
    );
    let result = expect_template_expression(language, &mut inner_ctx, &lambda.body);
    build_ctx.take_time(&inner_ctx);
    proof {
        assert forall|now: Timestamp| #[trigger] build_ctx.admits(now) implies inner_ctx.admits(
            now,
        ) by {}
    }
    match result {
        Ok(template) => Ok(
            language.wrap_list_template(
                BoxedListTemplate(
                    Box::new(MappedListTemplate { property: self_property, template }),
                ),
            ),
        ),
        Err(error) => Err(wrap_in_aliases(lambda_node, error)),
    }
}

}
