//! Laws of the arguments of the builtin methods: how many there are, and what is said of one
//! that is not what it should be.
use vstd::prelude::*;
use vstd::string::*;

use crate::arguments::{lambda_of, string_literal, unaliased, within_aliases};
use crate::ast::ExpressionNode;
use crate::builder::{as_integer, as_plain_text, expression_meaning, Built};
use crate::core_laws::law_core_method_call;
use crate::error::{ParseError, ParseErrorKind};
use crate::function_laws::template_error;
use crate::language::{Bindings, CoreMeaning, ItemIn, MeaningIn, TemplateLanguage};
use crate::laws::law_builtin_methods_are_found;
use crate::method_laws::{
    argument, calls_method, inner_bindings, lemma_list_names, uses_builtin_methods,
};
use crate::methods::{
    builtin_table, signature_methods_table, string_methods_table, timestamp_methods_table,
    timestamp_range_methods_table,
};
use crate::property::ListItem;
use crate::text::decimal_of;
use crate::time::is_time_format;

verus! {

/// How many arguments a builtin method of a core property takes, if there is such a method.
pub open spec fn argument_count<C, W>(core: CoreMeaning<C, W>, name: Seq<char>) -> Option<int> {
    match core {
        CoreMeaning::String(_) => if name == "len"@
            || name == "first_line"@
            || name == "lines"@
            || name == "upper"@
            || name == "lower"@ {
            Some(0)
        } else if name == "contains"@
            || name == "starts_with"@
            || name == "ends_with"@
            || name == "remove_prefix"@
            || name == "remove_suffix"@ {
            Some(1)
        } else if name == "substr"@ {
            Some(2)
        } else {
            None
        },
        CoreMeaning::Signature(_) => if name == "name"@
            || name == "email"@
            || name == "username"@
            || name == "timestamp"@ {
            Some(0)
        } else {
            None
        },
        CoreMeaning::Timestamp(_) => if name == "ago"@
            || name == "utc"@
            || name == "local"@ {
            Some(0)
        } else if name == "format"@ {
            Some(1)
        } else {
            None
        },
        CoreMeaning::TimestampRange(_) => if name == "start"@
            || name == "end"@
            || name == "duration"@ {
            Some(0)
        } else {
            None
        },
        CoreMeaning::StringList(_) => if name == "len"@ {
            Some(0)
        } else if name == "join"@ || name == "map"@ {
            Some(1)
        } else {
            None
        },
        CoreMeaning::ListTemplate(_) => if name == "join"@ {
            Some(1)
        } else {
            None
        },
        _ => None,
    }
}

/// A builtin method with another number of arguments than it takes is refused where the
/// arguments stand.
pub proof fn law_method_argument_count<'a, L: TemplateLanguage<'a>>(
    language: &L,
    bindings: Bindings<MeaningIn<'a, L>>,
    node: ExpressionNode<'_>,
    core: CoreMeaning<L::Context, ItemIn<'a, L>>,
    name: Seq<char>,
    count: int,
) where String: ListItem<L::Item>
    requires
        uses_builtin_methods::<L>(language),
        calls_method(language, bindings, node, core, name, count),
        argument_count(core, name) is Some,
        argument_count(core, name) != Some(count),
    ensures
        expression_meaning(language, bindings, node) == Built::<'a, L>::Err(
            ParseError {
                kind: ParseErrorKind::InvalidArguments {
                    name,
                    message: "Expected "@ + decimal_of(argument_count(core, name)->0)
                        + " arguments"@,
                },
                span: node.kind->MethodCall_0.function.args_span,
                origin: None,
            },
        ),
{
    law_core_method_call(language, builtin_table::<L>(), bindings, node, core);
    law_builtin_methods_are_found::<L>();
    lemma_list_names();
    lemma_arities();
    assert(string_methods_table::<L>()[0].0 == "len"@);
    assert(string_methods_table::<L>()[1].0 == "contains"@);
    assert(string_methods_table::<L>()[2].0 == "starts_with"@);
    assert(string_methods_table::<L>()[3].0 == "ends_with"@);
    assert(string_methods_table::<L>()[4].0 == "remove_prefix"@);
    assert(string_methods_table::<L>()[5].0 == "remove_suffix"@);
    assert(string_methods_table::<L>()[6].0 == "substr"@);
    assert(string_methods_table::<L>()[7].0 == "first_line"@);
    assert(string_methods_table::<L>()[8].0 == "lines"@);
    assert(string_methods_table::<L>()[9].0 == "upper"@);
    assert(string_methods_table::<L>()[10].0 == "lower"@);
    assert(signature_methods_table::<L>()[0].0 == "name"@);
    assert(signature_methods_table::<L>()[1].0 == "email"@);
    assert(signature_methods_table::<L>()[2].0 == "username"@);
    assert(signature_methods_table::<L>()[3].0 == "timestamp"@);
    assert(timestamp_methods_table::<L>()[0].0 == "ago"@);
    assert(timestamp_methods_table::<L>()[1].0 == "format"@);
    assert(timestamp_methods_table::<L>()[2].0 == "utc"@);
    assert(timestamp_methods_table::<L>()[3].0 == "local"@);
    assert(timestamp_range_methods_table::<L>()[0].0 == "start"@);
    assert(timestamp_range_methods_table::<L>()[1].0 == "end"@);
    assert(timestamp_range_methods_table::<L>()[2].0 == "duration"@);
}

/// Methods that take different numbers of arguments have different names.
proof fn lemma_arities()
    ensures
        "len"@ != "contains"@,
        "len"@ != "starts_with"@,
        "len"@ != "ends_with"@,
        "len"@ != "remove_prefix"@,
        "len"@ != "remove_suffix"@,
        "len"@ != "substr"@,
        "contains"@ != "substr"@,
        "contains"@ != "first_line"@,
        "contains"@ != "lines"@,
        "contains"@ != "upper"@,
        "contains"@ != "lower"@,
        "starts_with"@ != "substr"@,
        "starts_with"@ != "first_line"@,
        "starts_with"@ != "lines"@,
        "starts_with"@ != "upper"@,
        "starts_with"@ != "lower"@,
        "ends_with"@ != "substr"@,
        "ends_with"@ != "first_line"@,
        "ends_with"@ != "lines"@,
        "ends_with"@ != "upper"@,
        "ends_with"@ != "lower"@,
        "remove_prefix"@ != "substr"@,
        "remove_prefix"@ != "first_line"@,
        "remove_prefix"@ != "lines"@,
        "remove_prefix"@ != "upper"@,
        "remove_prefix"@ != "lower"@,
        "remove_suffix"@ != "substr"@,
        "remove_suffix"@ != "first_line"@,
        "remove_suffix"@ != "lines"@,
        "remove_suffix"@ != "upper"@,
        "remove_suffix"@ != "lower"@,
        "substr"@ != "first_line"@,
        "substr"@ != "lines"@,
        "substr"@ != "upper"@,
        "substr"@ != "lower"@,
        "ago"@ != "format"@,
        "format"@ != "utc"@,
        "format"@ != "local"@,
{
    reveal_strlit("ago");
    reveal_strlit("contains");
    reveal_strlit("ends_with");
    reveal_strlit("first_line");
    reveal_strlit("format");
    reveal_strlit("len");
    reveal_strlit("lines");
    reveal_strlit("local");
    reveal_strlit("lower");
    reveal_strlit("remove_prefix");
    reveal_strlit("remove_suffix");
    reveal_strlit("starts_with");
    reveal_strlit("substr");
    reveal_strlit("upper");
    reveal_strlit("utc");
    assert("len"@.len() != "contains"@.len());
    assert("len"@.len() != "starts_with"@.len());
    assert("len"@.len() != "ends_with"@.len());
    assert("len"@.len() != "remove_prefix"@.len());
    assert("len"@.len() != "remove_suffix"@.len());
    assert("len"@.len() != "substr"@.len());
    assert("contains"@.len() != "substr"@.len());
    assert("contains"@.len() != "first_line"@.len());
    assert("contains"@.len() != "lines"@.len());
    assert("contains"@.len() != "upper"@.len());
    assert("contains"@.len() != "lower"@.len());
    assert("starts_with"@.len() != "substr"@.len());
    assert("starts_with"@.len() != "first_line"@.len());
    assert("starts_with"@.len() != "lines"@.len());
    assert("starts_with"@.len() != "upper"@.len());
    assert("starts_with"@.len() != "lower"@.len());
    assert("ends_with"@.len() != "substr"@.len());
    assert("ends_with"@.len() != "first_line"@.len());
    assert("ends_with"@.len() != "lines"@.len());
    assert("ends_with"@.len() != "upper"@.len());
    assert("ends_with"@.len() != "lower"@.len());
    assert("remove_prefix"@.len() != "substr"@.len());
    assert("remove_prefix"@.len() != "first_line"@.len());
    assert("remove_prefix"@.len() != "lines"@.len());
    assert("remove_prefix"@.len() != "upper"@.len());
    assert("remove_prefix"@.len() != "lower"@.len());
    assert("remove_suffix"@.len() != "substr"@.len());
    assert("remove_suffix"@.len() != "first_line"@.len());
    assert("remove_suffix"@.len() != "lines"@.len());
    assert("remove_suffix"@.len() != "upper"@.len());
    assert("remove_suffix"@.len() != "lower"@.len());
    assert("substr"@.len() != "first_line"@.len());
    assert("substr"@.len() != "lines"@.len());
    assert("substr"@.len() != "upper"@.len());
    assert("substr"@.len() != "lower"@.len());
    assert("ago"@.len() != "format"@.len());
    assert("format"@.len() != "utc"@.len());
    assert("format"@.len() != "local"@.len());
}

/// An argument that is not text, not an integer, no template, no literal or no lambda, where a
/// method needs one, tells what is wrong with it. The first such argument counts.
pub proof fn law_method_argument_errors<'a, L: TemplateLanguage<'a>>(
    language: &L,
    bindings: Bindings<MeaningIn<'a, L>>,
    node: ExpressionNode<'_>,
    core: CoreMeaning<L::Context, ItemIn<'a, L>>,
    name: Seq<char>,
    count: int,
) where String: ListItem<L::Item>
    requires
        uses_builtin_methods::<L>(language),
        calls_method(language, bindings, node, core, name, count),
        argument_count(core, name) == Some(count),
    ensures
        ({
            let whole = expression_meaning(language, bindings, node);
            let text = as_plain_text::<L>(
                expression_meaning(language, bindings, argument(node, 0)),
                argument(node, 0).span,
            );
            let start = as_integer::<L>(
                expression_meaning(language, bindings, argument(node, 0)),
                argument(node, 0).span,
            );
            let end = as_integer::<L>(
                expression_meaning(language, bindings, argument(node, 1)),
                argument(node, 1).span,
            );
            match core {
                CoreMeaning::String(_) => {
                    &&& count == 0 ==> whole is Ok
                    &&& count == 1 && text is Err ==> whole == Built::<'a, L>::Err(text->Err_0)
                    &&& count == 1 && text is Ok ==> whole is Ok
                    &&& count == 2 && start is Err ==> whole == Built::<'a, L>::Err(start->Err_0)
                    &&& count == 2 && start is Ok && end is Err ==> whole == Built::<'a, L>::Err(
                        end->Err_0,
                    )
                    &&& count == 2 && start is Ok && end is Ok ==> whole is Ok
                },
                CoreMeaning::Timestamp(_) => {
                    &&& count == 0 ==> whole is Ok
                    &&& count == 1 ==> match string_literal(argument(node, 0)) {
                        Ok(format) => if is_time_format(format) {
                            whole is Ok
                        } else {
                            whole == Built::<'a, L>::Err(
                                within_aliases(
                                    argument(node, 0),
                                    ParseError {
                                        kind: ParseErrorKind::UnexpectedExpression(
                                            "Invalid time format"@,
                                        ),
                                        span: unaliased(argument(node, 0)).span,
                                        origin: None,
                                    },
                                ),
                            )
                        },
                        Err(error) => whole == Built::<'a, L>::Err(error),
                    }
                },
                CoreMeaning::StringList(_) => {
                    &&& name == "len"@ ==> whole is Ok
                    &&& name == "join"@ ==> match template_error(
                        language,
                        bindings,
                        argument(node, 0),
                    ) {
                        Some(error) => whole == Built::<'a, L>::Err(error),
                        None => whole is Ok,
                    }
                    &&& name == "map"@ && bindings.variables.len() <= usize::MAX
                        ==> match lambda_of(argument(node, 0)) {
                        Ok(lambda) => match template_error(
                            language,
                            inner_bindings(language, bindings, lambda),
                            lambda.body,
                        ) {
                            Some(error) => whole == Built::<'a, L>::Err(
                                within_aliases(argument(node, 0), error),
                            ),
                            None => whole is Ok,
                        },
                        Err(error) => whole == Built::<'a, L>::Err(error),
                    }
                },
                CoreMeaning::ListTemplate(_) => match template_error(
                    language,
                    bindings,
                    argument(node, 0),
                ) {
                    Some(error) => whole == Built::<'a, L>::Err(error),
                    None => whole is Ok,
                },
                _ => whole is Ok,
            }
        }),
{
    law_core_method_call(language, builtin_table::<L>(), bindings, node, core);
    law_builtin_methods_are_found::<L>();
    lemma_list_names();
    lemma_arities();
    assert(string_methods_table::<L>()[0].0 == "len"@);
    assert(string_methods_table::<L>()[1].0 == "contains"@);
    assert(string_methods_table::<L>()[2].0 == "starts_with"@);
    assert(string_methods_table::<L>()[3].0 == "ends_with"@);
    assert(string_methods_table::<L>()[4].0 == "remove_prefix"@);
    assert(string_methods_table::<L>()[5].0 == "remove_suffix"@);
    assert(string_methods_table::<L>()[6].0 == "substr"@);
    assert(string_methods_table::<L>()[7].0 == "first_line"@);
    assert(string_methods_table::<L>()[8].0 == "lines"@);
    assert(string_methods_table::<L>()[9].0 == "upper"@);
    assert(string_methods_table::<L>()[10].0 == "lower"@);
    assert(signature_methods_table::<L>()[0].0 == "name"@);
    assert(signature_methods_table::<L>()[1].0 == "email"@);
    assert(signature_methods_table::<L>()[2].0 == "username"@);
    assert(signature_methods_table::<L>()[3].0 == "timestamp"@);
    assert(timestamp_methods_table::<L>()[0].0 == "ago"@);
    assert(timestamp_methods_table::<L>()[1].0 == "format"@);
    assert(timestamp_methods_table::<L>()[2].0 == "utc"@);
    assert(timestamp_methods_table::<L>()[3].0 == "local"@);
    assert(timestamp_range_methods_table::<L>()[0].0 == "start"@);
    assert(timestamp_range_methods_table::<L>()[1].0 == "end"@);
    assert(timestamp_range_methods_table::<L>()[2].0 == "duration"@);
}

}
