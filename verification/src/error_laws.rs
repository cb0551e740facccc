//! Laws of names and errors: what a name leads to, and what is said where it leads nowhere.
use vstd::prelude::*;
use vstd::string::*;

use crate::arguments::{lambda_of, string_literal, unaliased, within_aliases};
use crate::ast::{Call, ExpressionKind, ExpressionNode, Span, TemplateAliasId};
use crate::builder::{expression_meaning, keyword_call, Built, ExpressionMeaning};
use crate::core_laws::{delegates_to, law_core_method_call};
use crate::error::{with_names, ParseError, ParseErrorKind};
use crate::formatter::Output;
use crate::language::{
    last_bound, names_of, Bindings, CoreMeaning, ItemIn, MeaningIn, PropertyIn, TemplateLanguage,
};
use crate::laws::{law_merged_table_has_both, lemma_names_are_added};
use crate::lists::{formattable_list_meaning, unformattable_list_meaning};
use crate::method_laws::{calls_method, lemma_list_names};
use crate::methods::{
    builtin_table, entry_of, lemma_place_of, place_of, signature_methods_table,
    string_methods_table, timestamp_methods_table, timestamp_range_methods_table, with_entry,
    CoreTable,
};
use crate::property::{ListItem, PropertyPlaceholder};

verus! {

/// Each kind of error has a message of its own that names what it is about.
pub proof fn law_messages(kind: ParseErrorKind)
    ensures
        kind.message() == match kind {
            ParseErrorKind::NoSuchKeyword { name, .. } => "Keyword \""@ + name
                + "\" doesn't exist"@,
            ParseErrorKind::NoSuchFunction { name } => "Function \""@ + name
                + "\" doesn't exist"@,
            ParseErrorKind::NoSuchMethod { type_of_object, name, .. } => "Method \""@ + name
                + "\" doesn't exist for type \""@ + type_of_object + "\""@,
            ParseErrorKind::InvalidArguments { name, message } => "Function \""@ + name + "\": "@
                + message,
            ParseErrorKind::UnexpectedExpression(message) => message,
            ParseErrorKind::BadAliasExpansion(id) => "Alias \""@ + id + "\" cannot be expanded"@,
        },
{
}

/// An alias is shown by its name, with parentheses behind it if it is a function.
pub proof fn law_alias_is_shown(name: &str)
    ensures
        TemplateAliasId::Symbol(name).shown() == name@,
        TemplateAliasId::Function(name).shown() == name@ + "()"@,
{
}

/// Candidates that are added stand behind those that were there. Each name is among them, no
/// name is added twice, and nothing else is.
pub proof fn law_candidates(list: Seq<Seq<char>>, names: Seq<Seq<char>>)
    ensures
        ({
            let all = with_names(list, names);
            &&& list.len() <= all.len()
            &&& all.take(list.len() as int) == list
            &&& forall|i: int| 0 <= i < names.len() ==> all.contains(#[trigger] names[i])
            &&& forall|i: int| list.len() <= i < all.len() ==> names.contains(#[trigger] all[i])
            &&& forall|i: int, j: int|
                list.len() <= i < all.len() && 0 <= j < i ==> #[trigger] all[i]
                    != #[trigger] all[j]
        }),
    decreases names.len(),
{
    let all = with_names(list, names);
    assert forall|i: int| 0 <= i < names.len() implies all.contains(#[trigger] names[i]) by {
        lemma_names_are_added(list, names, i);
    }
    if names.len() > 0 {
        let fewer = names.drop_last();
        let before = with_names(list, fewer);
        law_candidates(list, fewer);
        assert(all.take(list.len() as int) =~= before.take(list.len() as int));
        assert forall|i: int| list.len() <= i < all.len() implies names.contains(
            #[trigger] all[i],
        ) by {
            if i < before.len() {
                assert(before[i] == all[i]);
                let k = choose|k: int| 0 <= k < fewer.len() && fewer[k] == before[i];
                assert(names[k] == all[i]);
            } else {
                assert(names[names.len() - 1] == all[i]);
            }
        }
        assert forall|i: int, j: int| list.len() <= i < all.len() && 0 <= j < i implies
            #[trigger] all[i] != #[trigger] all[j] by {
            if i < before.len() {
                assert(before[i] != before[j]);
            } else {
                assert(before.contains(before[j]));
            }
        }
    } else {
        assert(all.take(list.len() as int) =~= list);
    }
}

/// A keyword means the method of `self` of that name without arguments, and has its name as
/// its only label. Whatever is wrong with that method, there is no such keyword: the methods
/// that there are instead are the candidates, or else the method with arguments is.
pub proof fn law_keyword<'a, L: TemplateLanguage<'a>>(
    language: &L,
    bindings: Bindings<MeaningIn<'a, L>>,
    node: ExpressionNode<'_>,
)
    requires
        node.kind is Identifier,
        node.kind->Identifier_0@ != "self"@,
        forall|i: int|
            0 <= i < bindings.variables.len() ==> (#[trigger] bindings.variables[i]).0
                != node.kind->Identifier_0@,
    ensures
        ({
            let name = node.kind->Identifier_0@;
            let call = Call {
                name,
                name_span: node.span,
                args: Seq::empty(),
                args_span: Span { start: node.span.end, end: node.span.end },
            };
            match language.built_method(bindings, language.self_meaning(), call) {
                Ok(property) => expression_meaning(language, bindings, node) == Built::<'a, L>::Ok(
                    ExpressionMeaning { property, labels: seq![name] },
                ),
                Err(error) => expression_meaning(language, bindings, node) matches Err(found) && {
                    let known = match error.kind {
                        ParseErrorKind::NoSuchMethod { candidates, .. } => candidates,
                        _ => seq!["self."@ + name + "(..)"@],
                    };
                    &&& found.span == node.span
                    &&& found.origin is None
                    &&& found.kind == ParseErrorKind::NoSuchKeyword {
                        name,
                        candidates: with_names(known, names_of(bindings.variables).push("self"@)),
                    }
                },
            }
        }),
{
    let name = node.kind->Identifier_0@;
    lemma_not_bound(bindings.variables, name);
    assert(keyword_call(name, node.span).args =~= Seq::empty());
}

proof fn lemma_not_bound<M>(variables: Seq<(Seq<char>, M)>, name: Seq<char>)
    requires
        forall|i: int| 0 <= i < variables.len() ==> (#[trigger] variables[i]).0 != name,
    ensures
        last_bound(variables, name) is None,
    decreases variables.len(),
{
    if variables.len() > 0 {
        assert(variables[variables.len() - 1].0 != name);
        assert forall|i: int| 0 <= i < variables.drop_last().len() implies (
        #[trigger] variables.drop_last()[i]).0 != name by {
            assert(variables.drop_last()[i] == variables[i]);
        }
        lemma_not_bound(variables.drop_last(), name);
    }
}

/// The names of variables are listed in their order.
pub proof fn law_names<M>(table: Seq<(Seq<char>, M)>)
    ensures
        names_of(table).len() == table.len(),
        forall|i: int| 0 <= i < table.len() ==> #[trigger] names_of(table)[i] == table[i].0,
{
}

/// A method call means what the language makes of the method on the object, with the name of
/// the method as one more label. An error in the object comes first.
pub proof fn law_method_call<'a, L: TemplateLanguage<'a>>(
    language: &L,
    bindings: Bindings<MeaningIn<'a, L>>,
    node: ExpressionNode<'_>,
)
    requires
        node.kind is MethodCall,
    ensures
        ({
            let method = *node.kind->MethodCall_0;
            expression_meaning(language, bindings, node) == match expression_meaning(
                language,
                bindings,
                method.object,
            ) {
                Ok(object) => match language.built_method(
                    bindings,
                    object.property,
                    Call {
                        name: method.function.name@,
                        name_span: method.function.name_span,
                        args: method.function.args@,
                        args_span: method.function.args_span,
                    },
                ) {
                    Ok(property) => Built::<'a, L>::Ok(
                        ExpressionMeaning {
                            property,
                            labels: object.labels.push(method.function.name@),
                        },
                    ),
                    Err(error) => Built::<'a, L>::Err(error),
                },
                Err(error) => Built::<'a, L>::Err(error),
            }
        }),
{
}

/// A lambda that stands where a value is needed is refused.
pub proof fn law_lambda_is_refused<'a, L: TemplateLanguage<'a>>(
    language: &L,
    bindings: Bindings<MeaningIn<'a, L>>,
    node: ExpressionNode<'_>,
)
    requires
        node.kind is Lambda,
    ensures
        expression_meaning(language, bindings, node) == Built::<'a, L>::Err(
            ParseError {
                kind: ParseErrorKind::UnexpectedExpression("Lambda cannot be defined here"@),
                span: node.span,
                origin: None,
            },
        ),
{
}

/// An alias leads to what it stands for, and its name and place are added to an error there.
pub proof fn law_alias_is_followed(node: ExpressionNode<'_>, error: ParseError)
    ensures
        match node.kind {
            ExpressionKind::AliasExpanded(id, subst) => {
                &&& unaliased(node) == unaliased(*subst)
                &&& within_aliases(node, error) == (ParseError {
                    kind: ParseErrorKind::BadAliasExpansion(id.shown()),
                    span: node.span,
                    origin: Some(Box::new(within_aliases(*subst, error))),
                })
            },
            _ => unaliased(node) == node && within_aliases(node, error) == error,
        },
{
}

/// A string literal gives its text and a lambda with one parameter itself, also where aliases
/// lead there. Anything else is refused where the aliases lead.
pub proof fn law_literals_and_lambdas_are_taken(node: ExpressionNode<'_>)
    ensures
        ({
            let target = unaliased(node);
            let refused = |message: Seq<char>, span: Span|
                within_aliases(
                    node,
                    ParseError {
                        kind: ParseErrorKind::UnexpectedExpression(message),
                        span,
                        origin: None,
                    },
                );
            &&& match target.kind {
                ExpressionKind::String(text) => string_literal(node) matches Ok(found) && found
                    == text@,
                _ => string_literal(node) matches Err(error) && error == refused(
                    "Expected string literal"@,
                    target.span,
                ),
            }
            &&& match target.kind {
                ExpressionKind::Lambda(lambda) => if lambda.params.len() == 1 {
                    lambda_of(node) matches Ok(found) && found == *lambda
                } else {
                    lambda_of(node) matches Err(error) && error == refused(
                        "Expected 1 lambda parameters"@,
                        lambda.params_span,
                    )
                },
                _ => lambda_of(node) matches Err(error) && error == refused(
                    "Expected lambda expression"@,
                    target.span,
                ),
            }
        }),
{
}

/// A table has an entry for a name exactly where the name is in it, and the first counts.
pub proof fn law_table_lookup<M>(table: Seq<(Seq<char>, M)>, name: Seq<char>, i: int)
    requires
        0 <= i < table.len(),
    ensures
        table[i].0 == name && (forall|j: int| 0 <= j < i ==> (#[trigger] table[j]).0 != name)
            ==> entry_of(table, name) == Some(table[i].1),
        (forall|j: int| 0 <= j < table.len() ==> (#[trigger] table[j]).0 != name) ==> entry_of(
            table,
            name,
        ) is None,
        entry_of(Seq::<(Seq<char>, M)>::empty(), name) is None,
{
    lemma_place_of(table, name);
    let place = place_of(table, name);
    if place < table.len() {
        assert(table[place].0 == name);
    }
}

/// What is put into a table under a name is found there, and other names lead where they led.
pub proof fn law_table_insert<M>(
    table: Seq<(Seq<char>, M)>,
    name: Seq<char>,
    entry: M,
    other: Seq<char>,
)
    requires
        other != name,
    ensures
        entry_of(with_entry(table, name, entry), name) == Some(entry),
        entry_of(with_entry(table, name, entry), other) == entry_of(table, other),
{
    let after = with_entry(table, name, entry);
    lemma_place_of(table, name);
    lemma_place_of(after, name);
    lemma_place_of(table, other);
    lemma_place_of(after, other);
    let (place, new_place) = (place_of(table, name), place_of(after, name));
    if place < table.len() {
        assert(after[place].0 == name);
        if new_place < place {
            assert(after[new_place] == table[new_place]);
        }
    } else {
        assert(after[table.len() as int].0 == name);
        if new_place < table.len() {
            assert(after[new_place] == table[new_place]);
        }
    }
    let (was, is) = (place_of(table, other), place_of(after, other));
    if was < table.len() {
        assert(was != place);
        assert(after[was] == table[was]);
        if is < was {
            assert(after[is].0 == table[is].0);
        }
    }
    if is < after.len() {
        if is < table.len() {
            assert(is != place);
            assert(after[is] == table[is]);
        }
    }
}

/// Of each type, a merged table has the methods of both tables.
pub proof fn law_merged_core_table<'a, L: TemplateLanguage<'a>>(
    base: CoreTable<'a, L>,
    extension: CoreTable<'a, L>,
    name: Seq<char>,
)
    requires
        base.disjoint(extension),
    ensures
        found_in_both(
            base.merged(extension).string_methods,
            base.string_methods,
            extension.string_methods,
            name,
        ),
        found_in_both(
            base.merged(extension).boolean_methods,
            base.boolean_methods,
            extension.boolean_methods,
            name,
        ),
        found_in_both(
            base.merged(extension).integer_methods,
            base.integer_methods,
            extension.integer_methods,
            name,
        ),
        found_in_both(
            base.merged(extension).signature_methods,
            base.signature_methods,
            extension.signature_methods,
            name,
        ),
        found_in_both(
            base.merged(extension).timestamp_methods,
            base.timestamp_methods,
            extension.timestamp_methods,
            name,
        ),
        found_in_both(
            base.merged(extension).timestamp_range_methods,
            base.timestamp_range_methods,
            extension.timestamp_range_methods,
            name,
        ),
{
    law_merged_table_has_both(base.string_methods, extension.string_methods, name);
    law_merged_table_has_both(base.boolean_methods, extension.boolean_methods, name);
    law_merged_table_has_both(base.integer_methods, extension.integer_methods, name);
    law_merged_table_has_both(base.signature_methods, extension.signature_methods, name);
    law_merged_table_has_both(base.timestamp_methods, extension.timestamp_methods, name);
    law_merged_table_has_both(
        base.timestamp_range_methods,
        extension.timestamp_range_methods,
        name,
    );
}

/// Whether a name leads in `merged` where it leads in either of the others.
pub open spec fn found_in_both<M>(
    merged: Seq<(Seq<char>, M)>,
    base: Seq<(Seq<char>, M)>,
    extension: Seq<(Seq<char>, M)>,
    name: Seq<char>,
) -> bool {
    &&& merged.len() == base.len() + extension.len()
    &&& entry_of(merged, name) == match entry_of(base, name) {
        Some(entry) => Some(entry),
        None => entry_of(extension, name),
    }
}

/// A method that the table has not is refused at its name, with the type of the object and
/// the names of the methods that the table has for it. Booleans, integers, templates and lists
/// of templates are told apart too.
pub proof fn law_unknown_method<'a, L: TemplateLanguage<'a>>(
    language: &L,
    table: CoreTable<'a, L>,
    bindings: Bindings<MeaningIn<'a, L>>,
    node: ExpressionNode<'_>,
    core: CoreMeaning<L::Context, ItemIn<'a, L>>,
) where String: ListItem<L::Item>
    requires
        delegates_to(language, table),
        node.kind is MethodCall,
        calls_method(
            language,
            bindings,
            node,
            core,
            node.kind->MethodCall_0.function.name@,
            node.kind->MethodCall_0.function.args.len() as int,
        ),
    ensures
        ({
            let function = node.kind->MethodCall_0.function;
            let name = function.name@;
            let refused = |type_of_object: Seq<char>, candidates: Seq<Seq<char>>|
                expression_meaning(language, bindings, node) == Built::<'a, L>::Err(
                    ParseError {
                        kind: ParseErrorKind::NoSuchMethod { type_of_object, name, candidates },
                        span: function.name_span,
                        origin: None,
                    },
                );
            match core {
                CoreMeaning::String(_) => entry_of(table.string_methods, name) is None ==> refused(
                    "String"@,
                    names_of(table.string_methods),
                ),
                CoreMeaning::StringList(_) => name != "len"@ && name != "join"@ && name != "map"@
                    ==> refused("List"@, Seq::empty()),
                CoreMeaning::Boolean(_) => entry_of(table.boolean_methods, name) is None
                    ==> refused("Boolean"@, names_of(table.boolean_methods)),
                CoreMeaning::Integer(_) => entry_of(table.integer_methods, name) is None
                    ==> refused("Integer"@, names_of(table.integer_methods)),
                CoreMeaning::Signature(_) => entry_of(table.signature_methods, name) is None
                    ==> refused("Signature"@, names_of(table.signature_methods)),
                CoreMeaning::Timestamp(_) => entry_of(table.timestamp_methods, name) is None
                    ==> refused("Timestamp"@, names_of(table.timestamp_methods)),
                CoreMeaning::TimestampRange(_) => entry_of(
                    table.timestamp_range_methods,
                    name,
                ) is None ==> refused("TimestampRange"@, names_of(table.timestamp_range_methods)),
                CoreMeaning::Template(_) => refused("Template"@, Seq::empty()),
                CoreMeaning::ListTemplate(_) => name != "join"@ ==> refused(
                    "ListTemplate"@,
                    Seq::empty(),
                ),
            }
        }),
{
    law_core_method_call(language, table, bindings, node, core);
}

/// Booleans and integers have no builtin methods; the other types have these, and no others.
pub proof fn law_builtin_method_names<'a, L: TemplateLanguage<'a>>()
    ensures
        builtin_table::<L>().boolean_methods.len() == 0,
        builtin_table::<L>().integer_methods.len() == 0,
        names_of(builtin_table::<L>().string_methods) == seq![
            "len"@,
            "contains"@,
            "starts_with"@,
            "ends_with"@,
            "remove_prefix"@,
            "remove_suffix"@,
            "substr"@,
            "first_line"@,
            "lines"@,
            "upper"@,
            "lower"@,
        ],
        names_of(builtin_table::<L>().signature_methods) == seq![
            "name"@,
            "email"@,
            "username"@,
            "timestamp"@,
        ],
        names_of(builtin_table::<L>().timestamp_methods) == seq![
            "ago"@,
            "format"@,
            "utc"@,
            "local"@,
        ],
        names_of(builtin_table::<L>().timestamp_range_methods) == seq![
            "start"@,
            "end"@,
            "duration"@,
        ],
{
    assert(names_of(string_methods_table::<L>()) =~= seq![
        "len"@,
        "contains"@,
        "starts_with"@,
        "ends_with"@,
        "remove_prefix"@,
        "remove_suffix"@,
        "substr"@,
        "first_line"@,
        "lines"@,
        "upper"@,
        "lower"@,
    ]);
    assert(names_of(signature_methods_table::<L>()) =~= seq![
        "name"@,
        "email"@,
        "username"@,
        "timestamp"@,
    ]);
    assert(names_of(timestamp_methods_table::<L>()) =~= seq![
        "ago"@,
        "format"@,
        "utc"@,
        "local"@,
    ]);
    assert(names_of(timestamp_range_methods_table::<L>()) =~= seq![
        "start"@,
        "end"@,
        "duration"@,
    ]);
}

/// A list whose items cannot be shown has the methods of one whose items can, without `join`.
pub proof fn law_unformattable_list<'a, L: TemplateLanguage<'a>, T>(
    language: &L,
    bindings: Bindings<MeaningIn<'a, L>>,
    list: PropertyIn<'a, L, Seq<T>>,
    shown: spec_fn(T) -> Output,
    stored: spec_fn(T) -> ItemIn<'a, L>,
    function: Call<'_>,
    wrapped: spec_fn(PropertyPlaceholder) -> MeaningIn<'a, L>,
)
    ensures
        ({
            let found = unformattable_list_meaning(
                language,
                bindings,
                list,
                stored,
                function,
                wrapped,
            );
            if function.name == "join"@ {
                found == Err::<MeaningIn<'a, L>, ParseError>(
                    ParseError {
                        kind: ParseErrorKind::NoSuchMethod {
                            type_of_object: "List"@,
                            name: function.name,
                            candidates: Seq::empty(),
                        },
                        span: function.name_span,
                        origin: None,
                    },
                )
            } else {
                found == formattable_list_meaning(
                    language,
                    bindings,
                    list,
                    shown,
                    stored,
                    function,
                    wrapped,
                )
            }
        }),
{
    lemma_list_names();
}

}
