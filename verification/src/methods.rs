//! The methods of the core types.
use std::marker::PhantomData;

use vstd::prelude::*;

use crate::arguments::{
    exact_arguments_error, expect_exact_arguments, expect_no_arguments, expect_string_literal,
    string_literal, unalias, unaliased, within_aliases, wrap_in_aliases,
};
use crate::ast::{Call, ExpressionNode, FunctionCallNode};
use crate::builder::{
    as_plain_text, expect_isize_expression, expect_plain_text_expression, expression_meaning,
    integer_as_isize,
};
use crate::error::{ParseError, TemplateParseError, TemplateParseResult};
use crate::functions::{
    range_duration, range_end, range_start, signature_email, signature_name, signature_timestamp,
    signature_username, text_contains, text_ends_with, text_first_line, text_length, text_lines,
    text_lower, text_part, text_starts_with, text_upper, text_without_prefix, text_without_suffix,
    timestamp_ago, timestamp_formatted, timestamp_in_zone, RangeDuration, RangeEnd, RangeStart,
    SignatureEmail, SignatureName, SignatureTimestamp, SignatureUsername, TextContains,
    TextEndsWith, TextFirstLine, TextLength, TextLines, TextLower, TextPart, TextStartsWith,
    TextUpper, TextWithoutPrefix, TextWithoutSuffix, TimestampAgo, TimestampFormatted,
    TimestampInZone,
};
use crate::language::{
    built, names_of, Bindings, BuildContext, CoreMeaning, CoreTemplatePropertyKind, Denoted, ItemIn,
    MeaningIn, PropertyIn, TemplateLanguage,
};
use crate::lists::{
    build_formattable_list_method, build_list_template_method, formattable_list_meaning,
    list_template_meaning, WrapItem,
};
use crate::property::{
    item_at, mapped, paired, BoxedProperty, ListItem, PropertyFunction, PropertyPair,
    PropertyPlaceholder, TemplateFunction, TemplateProperty, ValueFn,
};
use crate::template::{stored_item, Printable};
use crate::text::same_text;
use crate::time::{
    is_time_format, FormattingItems, Signature, SignatureView, Timestamp, TimestampRange,
};

verus! {

/// What a method of a type means whose values are shown by `T`: a function from the
/// language, the variables, the object and the call.
pub type MethodFn<'a, L, T> = spec_fn(
    L,
    Bindings<MeaningIn<'a, L>>,
    PropertyIn<'a, L, T>,
    Call<'static>,
) -> Result<MeaningIn<'a, L>, ParseError>;

/// Translates method call node of self type `T`.
pub trait TemplateBuildMethod<'a, L: TemplateLanguage<'a>, T: DeepView> {
    /// What the method means.
    open spec fn method(&self) -> MethodFn<'a, L, T::V> {
        arbitrary()
    }

    /// Builds a call of the method.
    fn build(
        &self,
        language: &L,
        build_ctx: &mut BuildContext<'_, L::Property>,
        self_property: BoxedProperty<'a, L::Context, L::Item, T>,
        function: &FunctionCallNode<'_>,
    ) -> (result: TemplateParseResult<L::Property>)
        ensures
            final(build_ctx).follows(*old(build_ctx)),
            forall|now: Timestamp| #[trigger]
                final(build_ctx).admits(now) ==> built(result) == (self.method())(
                    *language,
                    old(build_ctx).at(now),
                    self_property.value(),
                    function@,
                ),
    ;
}

/// Function that translates method call node of self type `T`.
#[verifier::reject_recursive_types(L)]
#[verifier::reject_recursive_types(T)]
pub struct TemplateBuildMethodFn<'a, L: TemplateLanguage<'a>, T: DeepView>(
    pub Box<dyn TemplateBuildMethod<'a, L, T> + 'a>,
);

/// A method and its name.
#[verifier::reject_recursive_types(L)]
#[verifier::reject_recursive_types(T)]
struct NamedMethod<'a, L: TemplateLanguage<'a>, T: DeepView> {
    name: &'static str,
    method: TemplateBuildMethodFn<'a, L, T>,
}

/// Table of functions that translate method call node of self type `T`.
#[verifier::reject_recursive_types(L)]
#[verifier::reject_recursive_types(T)]
pub struct TemplateBuildMethodFnMap<'a, L: TemplateLanguage<'a>, T: DeepView> {
    methods: Vec<NamedMethod<'a, L, T>>,
}

/// What a table of methods says: each name once, with what its method means.
pub type MethodTable<'a, L, T> = Seq<(Seq<char>, MethodFn<'a, L, T>)>;

/// The place of a name in a table, or the length of the table.
pub open spec fn place_of<M>(table: Seq<(Seq<char>, M)>, name: Seq<char>) -> int
    decreases table.len(),
{
    if table.len() == 0 {
        0
    } else if place_of(table.drop_last(), name) < table.len() - 1 {
        place_of(table.drop_last(), name)
    } else if table.last().0 == name {
        table.len() - 1
    } else {
        table.len() as int
    }
}

/// What a table has under a name.
pub open spec fn entry_of<M>(table: Seq<(Seq<char>, M)>, name: Seq<char>) -> Option<M> {
    if place_of(table, name) < table.len() {
        Some(table[place_of(table, name)].1)
    } else {
        None
    }
}

/// The table with one entry more, or with another in place of the one of that name.
pub open spec fn with_entry<M>(table: Seq<(Seq<char>, M)>, name: Seq<char>, entry: M) -> Seq<
    (Seq<char>, M),
> {
    if place_of(table, name) < table.len() {
        table.update(place_of(table, name), (name, entry))
    } else {
        table.push((name, entry))
    }
}

/// Whether no name is in both tables.
pub open spec fn disjoint<M>(a: Seq<(Seq<char>, M)>, b: Seq<(Seq<char>, M)>) -> bool {
    forall|i: int, j: int| 0 <= i < a.len() && 0 <= j < b.len() ==> a[i].0 != b[j].0
}

/// Whether each name is in the table once.
pub open spec fn names_differ<M>(table: Seq<(Seq<char>, M)>) -> bool {
    forall|i: int, j: int| 0 <= i < j < table.len() ==> table[i].0 != table[j].0
}

/// The place of a name is the first where it stands.
pub proof fn lemma_place_of<M>(table: Seq<(Seq<char>, M)>, name: Seq<char>)
    ensures
        0 <= place_of(table, name) <= table.len(),
        place_of(table, name) < table.len() ==> table[place_of(table, name)].0 == name,
        forall|i: int| 0 <= i < place_of(table, name) ==> #[trigger] table[i].0 != name,
    decreases table.len(),
{
    if table.len() > 0 {
        let rest = table.drop_last();
        lemma_place_of(rest, name);
        assert forall|i: int| 0 <= i < place_of(table, name) implies #[trigger] table[i].0
            != name by {
            if i < rest.len() {
                assert(table[i] == rest[i]);
            }
        }
    }
}

/// An entry more or another entry leaves each name in the table once.
proof fn lemma_entry_keeps_names_apart<M>(table: Seq<(Seq<char>, M)>, name: Seq<char>, entry: M)
    requires
        names_differ(table),
    ensures
        names_differ(with_entry(table, name, entry)),
{
    lemma_place_of(table, name);
    let after = with_entry(table, name, entry);
    let place = place_of(table, name);
    assert forall|i: int, j: int| 0 <= i < j < after.len() implies after[i].0 != after[j].0 by {
        assert(i < table.len() && after[i].0 == table[i].0);
        if j < table.len() {
            assert(after[j].0 == table[j].0);
        }
    }
}

impl<'a, L: TemplateLanguage<'a>, T: DeepView> TemplateBuildMethodFnMap<'a, L, T> {
    #[verifier::type_invariant]
    spec fn each_name_once(&self) -> bool {
        names_differ(self.table())
    }

    spec fn table(&self) -> MethodTable<'a, L, T::V> {
        self.methods@.map_values(
            |named: NamedMethod<'a, L, T>| (named.name@, named.method.0.method()),
        )
    }

    /// What the table says.
    pub closed spec fn view(&self) -> MethodTable<'a, L, T::V> {
        self.table()
    }

    /// A table without methods.
    pub fn new() -> (table: Self)
        ensures
            table.view() == MethodTable::<'a, L, T::V>::empty(),
    {
        let table = TemplateBuildMethodFnMap { methods: Vec::new() };
        proof {
            assert(table.view() =~= MethodTable::<'a, L, T::V>::empty());
        }
        table
    }

    /// The place of a method, or the number of methods.
    fn find(&self, name: &str) -> (place: usize)
        ensures
            place == place_of(self.view(), name@),
            place <= self.methods@.len(),
    {
        let ghost table = self.view();
        let mut i: usize = 0;
        proof {
            lemma_place_of(table, name@);
        }
        while i < self.methods.len()
            invariant
                i <= self.methods@.len(),
                table == self.view(),
                0 <= place_of(table, name@) <= table.len(),
                place_of(table, name@) < table.len() ==> table[place_of(table, name@)].0 == name@,
                forall|j: int| 0 <= j < place_of(table, name@) ==> #[trigger] table[j].0 != name@,
                i <= place_of(table, name@),
            decreases self.methods@.len() - i,
        {
            proof {
                assert(table[i as int].0 == self.methods@[i as int].name@);
            }
            if same_text(self.methods[i].name, name) {
                return i;
            }
            i += 1;
        }
        i
    }

    /// Puts a method under a name. Tells whether there was another.
    pub fn insert(&mut self, name: &'static str, method: TemplateBuildMethodFn<'a, L, T>) -> (found:
        bool)
        ensures
            final(self).view() == with_entry(old(self).view(), name@, method.0.method()),
            found == (entry_of(old(self).view(), name@) is Some),
    {
        let place = self.find(name);
        let ghost table = self.view();
        let ghost meaning = method.0.method();
        proof {
            use_type_invariant(&*self);
            lemma_place_of(table, name@);
        }
        let mut methods: Vec<NamedMethod<'a, L, T>> = Vec::new();
        std::mem::swap(&mut methods, &mut self.methods);
        let found = place < methods.len();
        if found {
            methods[place] = NamedMethod { name, method };
        } else {
            methods.push(NamedMethod { name, method });
        }
        proof {
            let after = methods@.map_values(
                |named: NamedMethod<'a, L, T>| (named.name@, named.method.0.method()),
            );
            assert(after =~= with_entry(table, name@, meaning));
            lemma_entry_keeps_names_apart(table, name@, meaning);
        }
        *self = TemplateBuildMethodFnMap { methods };
        found
    }

    /// Puts the method under a name that comes next in `table`.
    fn add_next(
        &mut self,
        Ghost(table): Ghost<MethodTable<'a, L, T::V>>,
        name: &'static str,
        method: TemplateBuildMethodFn<'a, L, T>,
    )
        requires
            names_differ(table),
            old(self).view().len() < table.len(),
            old(self).view() == table.take(old(self).view().len() as int),
            table[old(self).view().len() as int] == (name@, method.0.method()),
        ensures
            final(self).view() == table.take((old(self).view().len() + 1) as int),
            final(self).view().len() == old(self).view().len() + 1,
    {
        proof {
            let before = self.view();
            lemma_place_of(before, name@);
            let place = place_of(before, name@);
            if place < before.len() {
                assert(table[place].0 != table[before.len() as int].0);
            }
            let after = before.push((name@, method.0.method()));
            assert(table.take((before.len() + 1) as int) =~= after);
        }
        self.insert(name, method);
    }

    /// The names of the methods.
    pub fn names(&self) -> (names: Vec<String>)
        ensures
            names.deep_view() == names_of(self.view()),
    {
        let mut names: Vec<String> = Vec::new();
        let ghost all = names_of(self.view());
        let mut i: usize = 0;
        while i < self.methods.len()
            invariant
                i <= self.methods@.len(),
                all == names_of(self.view()),
                names.deep_view() =~= all.take(i as int),
            decreases self.methods@.len() - i,
        {
            let ghost before = names.deep_view();
            names.push(self.methods[i].name.to_owned());
            proof {
                assert(names.deep_view() =~= before.push(all[i as int]));
            }
            i += 1;
        }
        proof {
            assert(all.take(i as int) =~= all);
        }
        names
    }

    /// The method of the name that is called. `type_of_object` is the type that has the
    /// methods of this table.
    pub fn lookup_method(&self, type_of_object: &str, function: &FunctionCallNode<'_>) -> (result:
        TemplateParseResult<&TemplateBuildMethodFn<'a, L, T>>)
        ensures
            match result {
                Ok(method) => entry_of(self.view(), function@.name) == Some(method.0.method()),
                Err(error) => entry_of(self.view(), function@.name) is None && error.view()
                    == ParseError::no_such_method(
                    type_of_object@,
                    function@,
                    names_of(self.view()),
                ),
            },
    {
        let place = self.find(function.name);
        if place < self.methods.len() {
            proof {
                assert(self.view()[place as int].1
                    == self.methods@[place as int].method.0.method());
            }
            Ok(&self.methods[place].method)
        } else {
            Err(
                TemplateParseError::no_such_method_among(
                    type_of_object,
                    function,
                    self.names(),
                ),
            )
        }
    }

    /// Builds a call of the method of that name.
    fn build_method(
        &self,
        type_of_object: &str,
        language: &L,
        build_ctx: &mut BuildContext<'_, L::Property>,
        property: BoxedProperty<'a, L::Context, L::Item, T>,
        function: &FunctionCallNode<'_>,
    ) -> (result: TemplateParseResult<L::Property>)
        ensures
            final(build_ctx).follows(*old(build_ctx)),
            forall|now: Timestamp| #[trigger]
                final(build_ctx).admits(now) ==> built(result) == table_method_meaning(
                    type_of_object@,
                    self.view(),
                    language,
                    old(build_ctx).at(now),
                    property.value(),
                    function@,
                ),
    {
        match self.lookup_method(type_of_object, function) {
            Ok(method) => method.0.build(language, build_ctx, property, function),
            Err(error) => Err(error),
        }
    }
}

/// What a method of the type `type_of_object` means that is looked up in a table.
pub open spec fn table_method_meaning<'a, L: TemplateLanguage<'a>, T>(
    type_of_object: Seq<char>,
    table: MethodTable<'a, L, T>,
    language: &L,
    bindings: Bindings<MeaningIn<'a, L>>,
    property: PropertyIn<'a, L, T>,
    function: Call<'static>,
) -> Result<MeaningIn<'a, L>, ParseError> {
    match entry_of(table, function.name) {
        Some(method) => method(*language, bindings, property, function),
        None => Err(ParseError::no_such_method(type_of_object, function, names_of(table))),
    }
}

/// Adds the methods of `extension` to those of `base`. No method may be in both.
pub fn merge_fn_map<'a, L: TemplateLanguage<'a>, T: DeepView>(
    base: &mut TemplateBuildMethodFnMap<'a, L, T>,
    extension: TemplateBuildMethodFnMap<'a, L, T>,
)
    requires
        disjoint(old(base).view(), extension.view()),
    ensures
        final(base).view() == old(base).view() + extension.view(),
{
    let ghost added = extension.view();
    proof {
        use_type_invariant(&extension);
    }
    let methods = extension.methods;
    for named in it: methods
        invariant
            it.seq() == methods@,
            added == methods@.map_values(
                |named: NamedMethod<'a, L, T>| (named.name@, named.method.0.method()),
            ),
            names_differ(added),
            disjoint(old(base).view(), added),
            base.view() =~= old(base).view() + added.take(it.index() as int),
    {
        let ghost n = it.index() as int;
        proof {
            assert(added[n] == (named.name@, named.method.0.method()));
            let before = base.view();
            lemma_place_of(before, named.name@);
            let place = place_of(before, named.name@);
            if place < before.len() {
                if place < old(base).view().len() {
                    assert(old(base).view()[place].0 != added[n].0);
                } else {
                    assert(before[place] == added[place - old(base).view().len()]);
                }
            }
        }
        base.insert(named.name, named.method);
    }
    proof {
        assert(added.take(methods@.len() as int) =~= added);
    }
}

/// A type whose values the language `L` can wrap.
pub trait WrapProperty<'a, L: TemplateLanguage<'a>>: DeepView + Sized {
    /// What a property means when it is wrapped.
    spec fn wrapped(language: &L, property: PropertyIn<'a, L, Self::V>) -> MeaningIn<'a, L>;

    /// Wraps a property.
    fn wrap(
        language: &L,
        property: BoxedProperty<'a, L::Context, L::Item, Self>,
    ) -> (wrapped: L::Property)
        ensures
            wrapped.meaning() == Self::wrapped(language, property.value()),
    ;
}

impl<'a, L: TemplateLanguage<'a>> WrapProperty<'a, L> for String {
    open spec fn wrapped(language: &L, property: PropertyIn<'a, L, Seq<char>>) -> MeaningIn<'a, L> {
        language.wrapped_string(property)
    }

    fn wrap(
        language: &L,
        property: BoxedProperty<'a, L::Context, L::Item, String>,
    ) -> (wrapped: L::Property) {
        language.wrap_string(property)
    }
}

impl<'a, L: TemplateLanguage<'a>> WrapProperty<'a, L> for Vec<String> {
    open spec fn wrapped(language: &L, property: PropertyIn<'a, L, Seq<Seq<char>>>) -> MeaningIn<
        'a,
        L,
    > {
        language.wrapped_string_list(property)
    }

    fn wrap(
        language: &L,
        property: BoxedProperty<'a, L::Context, L::Item, Vec<String>>,
    ) -> (wrapped: L::Property) {
        language.wrap_string_list(property)
    }
}

impl<'a, L: TemplateLanguage<'a>> WrapProperty<'a, L> for bool {
    open spec fn wrapped(language: &L, property: PropertyIn<'a, L, bool>) -> MeaningIn<'a, L> {
        language.wrapped_boolean(property)
    }

    fn wrap(
        language: &L,
        property: BoxedProperty<'a, L::Context, L::Item, bool>,
    ) -> (wrapped: L::Property) {
        language.wrap_boolean(property)
    }
}

impl<'a, L: TemplateLanguage<'a>> WrapProperty<'a, L> for i64 {
    open spec fn wrapped(language: &L, property: PropertyIn<'a, L, i64>) -> MeaningIn<'a, L> {
        language.wrapped_integer(property)
    }

    fn wrap(
        language: &L,
        property: BoxedProperty<'a, L::Context, L::Item, i64>,
    ) -> (wrapped: L::Property) {
        language.wrap_integer(property)
    }
}

impl<'a, L: TemplateLanguage<'a>> WrapProperty<'a, L> for Timestamp {
    open spec fn wrapped(language: &L, property: PropertyIn<'a, L, Timestamp>) -> MeaningIn<'a, L> {
        language.wrapped_timestamp(property)
    }

    fn wrap(
        language: &L,
        property: BoxedProperty<'a, L::Context, L::Item, Timestamp>,
    ) -> (wrapped: L::Property) {
        language.wrap_timestamp(property)
    }
}

/// What a method without arguments means that applies a function to the object.
pub open spec fn method_without_arguments<
    'a,
    L: TemplateLanguage<'a>,
    T,
    O: WrapProperty<'a, L>,
>(apply: ValueFn<T, O::V>) -> MethodFn<'a, L, T> {
    |
        language: L,
        bindings: Bindings<MeaningIn<'a, L>>,
        property: PropertyIn<'a, L, T>,
        function: Call<'static>,
    |
        match exact_arguments_error(function, 0) {
            None => Ok(O::wrapped(&language, mapped(property, apply))),
            Some(error) => Err(error),
        }
}

/// A method without arguments that applies a function to the object.
pub struct MethodWithoutArguments<F, O> {
    pub apply: F,
    pub output: PhantomData<O>,
}

impl<
    'a,
    L: TemplateLanguage<'a>,
    T: DeepView + 'a,
    O: WrapProperty<'a, L>,
    F: PropertyFunction<T, O> + Copy + 'a,
> TemplateBuildMethod<'a, L, T> for MethodWithoutArguments<F, O> {
    open spec fn method(&self) -> MethodFn<'a, L, T::V> {
        method_without_arguments::<L, T::V, O>(self.apply.result())
    }

    fn build(
        &self,
        language: &L,
        build_ctx: &mut BuildContext<'_, L::Property>,
        self_property: BoxedProperty<'a, L::Context, L::Item, T>,
        function: &FunctionCallNode<'_>,
    ) -> (result: TemplateParseResult<L::Property>) {
        match expect_no_arguments(function) {
            Ok(_) => Ok(
                O::wrap(
                    language,
                    BoxedProperty(
                        Box::new(
                            TemplateFunction { property: self_property, function: self.apply },
                        ),
                    ),
                ),
            ),
            Err(error) => Err(error),
        }
    }
}

/// Makes a method without arguments that applies a function to the object.
fn without_arguments<
    'a,
    L: TemplateLanguage<'a>,
    T: DeepView + 'a,
    O: WrapProperty<'a, L> + 'a,
    F: PropertyFunction<T, O> + Copy + 'a,
>(apply: F) -> (method: TemplateBuildMethodFn<'a, L, T>)
    ensures
        method.0.method() == method_without_arguments::<L, T::V, O>(apply.result()),
{
    TemplateBuildMethodFn(
        Box::new(MethodWithoutArguments { apply, output: PhantomData::<O> }),
    )
}

/// What a method means that applies a function to the object and to the text of its
/// argument.
pub open spec fn method_with_text<'a, L: TemplateLanguage<'a>, O: WrapProperty<'a, L>>(
    apply: ValueFn<(Seq<char>, Seq<char>), O::V>,
) -> MethodFn<'a, L, Seq<char>> {
    |
        language: L,
        bindings: Bindings<MeaningIn<'a, L>>,
        property: PropertyIn<'a, L, Seq<char>>,
        function: Call<'static>,
    |
        match exact_arguments_error(function, 1) {
            None => match as_plain_text::<L>(
                expression_meaning(&language, bindings, function.args[0]),
                function.args[0].span,
            ) {
                Ok(needle) => Ok(O::wrapped(&language, mapped(paired(property, needle), apply))),
                Err(error) => Err(error),
            },
            Some(error) => Err(error),
        }
}

/// A method that applies a function to the object and to the text of its argument.
pub struct MethodWithText<F, O> {
    pub apply: F,
    pub output: PhantomData<O>,
}

impl<
    'a,
    L: TemplateLanguage<'a>,
    O: WrapProperty<'a, L>,
    F: PropertyFunction<(String, String), O> + Copy + 'a,
> TemplateBuildMethod<'a, L, String> for MethodWithText<F, O> {
    open spec fn method(&self) -> MethodFn<'a, L, Seq<char>> {
        method_with_text::<L, O>(self.apply.result())
    }

    fn build(
        &self,
        language: &L,
        build_ctx: &mut BuildContext<'_, L::Property>,
        self_property: BoxedProperty<'a, L::Context, L::Item, String>,
        function: &FunctionCallNode<'_>,
    ) -> (result: TemplateParseResult<L::Property>) {
        if let Err(error) = expect_exact_arguments(function, 1) {
            return Err(error);
        }
        match expect_plain_text_expression(language, build_ctx, &function.args[0]) {
            Ok(needle) => {
                let texts = BoxedProperty(
                    Box::new(PropertyPair { first: self_property, second: needle }),
                );
                Ok(
                    O::wrap(
                        language,
                        BoxedProperty(
                            Box::new(TemplateFunction { property: texts, function: self.apply }),
                        ),
                    ),
                )
            },
            Err(error) => Err(error),
        }
    }
}

/// Makes a method that applies a function to the object and to the text of its argument.
fn with_text<
    'a,
    L: TemplateLanguage<'a>,
    O: WrapProperty<'a, L> + 'a,
    F: PropertyFunction<(String, String), O> + Copy + 'a,
>(apply: F) -> (method: TemplateBuildMethodFn<'a, L, String>)
    ensures
        method.0.method() == method_with_text::<L, O>(apply.result()),
{
    TemplateBuildMethodFn(Box::new(MethodWithText { apply, output: PhantomData::<O> }))
}

/// What the method `substr(start, end)` of a text means.
pub open spec fn substr_method<'a, L: TemplateLanguage<'a>>() -> MethodFn<'a, L, Seq<char>> {
    |
        language: L,
        bindings: Bindings<MeaningIn<'a, L>>,
        property: PropertyIn<'a, L, Seq<char>>,
        function: Call<'static>,
    |
        match exact_arguments_error(function, 2) {
            None => match integer_as_isize::<L>(
                expression_meaning(&language, bindings, function.args[0]),
                function.args[0].span,
            ) {
                Ok(start) => match integer_as_isize::<L>(
                    expression_meaning(&language, bindings, function.args[1]),
                    function.args[1].span,
                ) {
                    Ok(end) => Ok(
                        language.wrapped_string(
                            mapped(paired(paired(property, start), end), text_part()),
                        ),
                    ),
                    Err(error) => Err(error),
                },
                Err(error) => Err(error),
            },
            Some(error) => Err(error),
        }
}

/// The method `substr(start, end)` of a text.
pub struct SubstrMethod;

impl<'a, L: TemplateLanguage<'a>> TemplateBuildMethod<'a, L, String> for SubstrMethod {
    open spec fn method(&self) -> MethodFn<'a, L, Seq<char>> {
        substr_method::<L>()
    }

    fn build(
        &self,
        language: &L,
        build_ctx: &mut BuildContext<'_, L::Property>,
        self_property: BoxedProperty<'a, L::Context, L::Item, String>,
        function: &FunctionCallNode<'_>,
    ) -> (result: TemplateParseResult<L::Property>) {
        if let Err(error) = expect_exact_arguments(function, 2) {
            return Err(error);
        }
        let start = match expect_isize_expression(language, build_ctx, &function.args[0]) {
            Ok(start) => start,
            Err(error) => return Err(error),
        };
        let end = match expect_isize_expression(language, build_ctx, &function.args[1]) {
            Ok(end) => end,
            Err(error) => return Err(error),
        };
        let from_start = BoxedProperty(
            Box::new(PropertyPair { first: self_property, second: start }),
        );
        let parts = BoxedProperty(Box::new(PropertyPair { first: from_start, second: end }));
        Ok(
            language.wrap_string(
                BoxedProperty(Box::new(TemplateFunction { property: parts, function: TextPart })),
            ),
        )
    }
}

/// What the method `ago()` of a timestamp means: how long ago it was when the template was
/// built.
pub open spec fn ago_method<'a, L: TemplateLanguage<'a>>() -> MethodFn<'a, L, Timestamp> {
    |
        language: L,
        bindings: Bindings<MeaningIn<'a, L>>,
        property: PropertyIn<'a, L, Timestamp>,
        function: Call<'static>,
    |
        match exact_arguments_error(function, 0) {
            None => Ok(language.wrapped_string(mapped(property, timestamp_ago(bindings.now)))),
            Some(error) => Err(error),
        }
}

/// The method `ago()` of a timestamp.
pub struct AgoMethod;

impl<'a, L: TemplateLanguage<'a>> TemplateBuildMethod<'a, L, Timestamp> for AgoMethod {
    open spec fn method(&self) -> MethodFn<'a, L, Timestamp> {
        ago_method::<L>()
    }

    fn build(
        &self,
        language: &L,
        build_ctx: &mut BuildContext<'_, L::Property>,
        self_property: BoxedProperty<'a, L::Context, L::Item, Timestamp>,
        function: &FunctionCallNode<'_>,
    ) -> (result: TemplateParseResult<L::Property>) {
        if let Err(error) = expect_no_arguments(function) {
            return Err(error);
        }
        let ago = TimestampAgo { now: build_ctx.now() };
        Ok(
            language.wrap_string(
                BoxedProperty(
                    Box::new(TemplateFunction { property: self_property, function: ago }),
                ),
            ),
        )
    }
}

/// The time format that a string literal gives.
pub open spec fn time_format(node: ExpressionNode<'_>) -> Result<Seq<char>, ParseError> {
    match string_literal(node) {
        Ok(format) => if is_time_format(format) {
            Ok(format)
        } else {
            Err(
                within_aliases(
                    node,
                    ParseError::unexpected("Invalid time format"@, unaliased(node).span),
                ),
            )
        },
        Err(error) => Err(error),
    }
}

/// Takes a time format.
fn expect_time_format(node: &ExpressionNode<'_>) -> (result: TemplateParseResult<FormattingItems>)
    ensures
        match result {
            Ok(format) => time_format(*node) == Ok::<Seq<char>, ParseError>(format.view()),
            Err(error) => time_format(*node) == Err::<Seq<char>, ParseError>(error.view()),
        },
{
    match expect_string_literal(node) {
        Ok(text) => match FormattingItems::parse(text) {
            Some(format) => Ok(format),
            None => Err(
                wrap_in_aliases(
                    node,
                    TemplateParseError::unexpected_expression(
                        "Invalid time format",
                        unalias(node).span,
                    ),
                ),
            ),
        },
        Err(error) => Err(error),
    }
}

/// What the method `format(format)` of a timestamp means.
pub open spec fn format_method<'a, L: TemplateLanguage<'a>>() -> MethodFn<'a, L, Timestamp> {
    |
        language: L,
        bindings: Bindings<MeaningIn<'a, L>>,
        property: PropertyIn<'a, L, Timestamp>,
        function: Call<'static>,
    |
        match exact_arguments_error(function, 1) {
            None => match time_format(function.args[0]) {
                Ok(format) => Ok(
                    language.wrapped_string(mapped(property, timestamp_formatted(format))),
                ),
                Err(error) => Err(error),
            },
            Some(error) => Err(error),
        }
}

/// The method `format(format)` of a timestamp.
pub struct FormatMethod;

impl<'a, L: TemplateLanguage<'a>> TemplateBuildMethod<'a, L, Timestamp> for FormatMethod {
    open spec fn method(&self) -> MethodFn<'a, L, Timestamp> {
        format_method::<L>()
    }

    fn build(
        &self,
        language: &L,
        build_ctx: &mut BuildContext<'_, L::Property>,
        self_property: BoxedProperty<'a, L::Context, L::Item, Timestamp>,
        function: &FunctionCallNode<'_>,
    ) -> (result: TemplateParseResult<L::Property>) {
        if let Err(error) = expect_exact_arguments(function, 1) {
            return Err(error);
        }
        // No dynamic string is allowed as the templater has no runtime error type.
        let format = match expect_time_format(&function.args[0]) {
            Ok(format) => format,
            Err(error) => return Err(error),
        };
        let formatted = TimestampFormatted { format };
        Ok(
            language.wrap_string(
                BoxedProperty(
                    Box::new(TemplateFunction { property: self_property, function: formatted }),
                ),
            ),
        )
    }
}

/// What the method `local()` of a timestamp means: the same instant at the local offset
/// from UTC when the template was built.
pub open spec fn local_method<'a, L: TemplateLanguage<'a>>() -> MethodFn<'a, L, Timestamp> {
    |
        language: L,
        bindings: Bindings<MeaningIn<'a, L>>,
        property: PropertyIn<'a, L, Timestamp>,
        function: Call<'static>,
    |
        match exact_arguments_error(function, 0) {
            None => Ok(
                language.wrapped_timestamp(
                    mapped(property, timestamp_in_zone(bindings.now.tz_offset)),
                ),
            ),
            Some(error) => Err(error),
        }
}

/// The method `local()` of a timestamp.
pub struct LocalMethod;

impl<'a, L: TemplateLanguage<'a>> TemplateBuildMethod<'a, L, Timestamp> for LocalMethod {
    open spec fn method(&self) -> MethodFn<'a, L, Timestamp> {
        local_method::<L>()
    }

    fn build(
        &self,
        language: &L,
        build_ctx: &mut BuildContext<'_, L::Property>,
        self_property: BoxedProperty<'a, L::Context, L::Item, Timestamp>,
        function: &FunctionCallNode<'_>,
    ) -> (result: TemplateParseResult<L::Property>) {
        if let Err(error) = expect_no_arguments(function) {
            return Err(error);
        }
        let local = TimestampInZone { tz_offset: build_ctx.now().tz_offset };
        Ok(
            language.wrap_timestamp(
                BoxedProperty(
                    Box::new(TemplateFunction { property: self_property, function: local }),
                ),
            ),
        )
    }
}

/// The methods of texts.
pub open spec fn string_methods_table<'a, L: TemplateLanguage<'a>>() -> MethodTable<
    'a,
    L,
    Seq<char>,
> {
    seq![
        ("len"@, method_without_arguments::<L, Seq<char>, i64>(text_length())),
        ("contains"@, method_with_text::<L, bool>(text_contains())),
        ("starts_with"@, method_with_text::<L, bool>(text_starts_with())),
        ("ends_with"@, method_with_text::<L, bool>(text_ends_with())),
        ("remove_prefix"@, method_with_text::<L, String>(text_without_prefix())),
        ("remove_suffix"@, method_with_text::<L, String>(text_without_suffix())),
        ("substr"@, substr_method::<L>()),
        ("first_line"@, method_without_arguments::<L, Seq<char>, String>(text_first_line())),
        ("lines"@, method_without_arguments::<L, Seq<char>, Vec<String>>(text_lines())),
        ("upper"@, method_without_arguments::<L, Seq<char>, String>(text_upper())),
        ("lower"@, method_without_arguments::<L, Seq<char>, String>(text_lower())),
    ]
}

/// Each of the methods of texts has a name of its own.
pub proof fn lemma_string_methods_differ<'a, L: TemplateLanguage<'a>>()
    ensures
        names_differ(string_methods_table::<L>()),
{
    reveal_strlit("len");
    reveal_strlit("contains");
    reveal_strlit("starts_with");
    reveal_strlit("ends_with");
    reveal_strlit("remove_prefix");
    reveal_strlit("remove_suffix");
    reveal_strlit("substr");
    reveal_strlit("first_line");
    reveal_strlit("lines");
    reveal_strlit("upper");
    reveal_strlit("lower");
    assert("remove_prefix"@[7] != "remove_suffix"@[7]);
    assert("lines"@[0] != "upper"@[0]);
    assert("lines"@[1] != "lower"@[1]);
    assert("upper"@[0] != "lower"@[0]);
    let table = string_methods_table::<L>();
    assert(table.len() == 11);
    assert(table[0].0 == "len"@);
    assert(table[1].0 == "contains"@);
    assert(table[2].0 == "starts_with"@);
    assert(table[3].0 == "ends_with"@);
    assert(table[4].0 == "remove_prefix"@);
    assert(table[5].0 == "remove_suffix"@);
    assert(table[6].0 == "substr"@);
    assert(table[7].0 == "first_line"@);
    assert(table[8].0 == "lines"@);
    assert(table[9].0 == "upper"@);
    assert(table[10].0 == "lower"@);
}

/// Makes the table of the builtin methods of texts.
pub fn builtin_string_methods<'a, L: TemplateLanguage<'a>>() -> (map: TemplateBuildMethodFnMap<
    'a,
    L,
    String,
>)
    ensures
        map.view() == string_methods_table::<L>(),
{
    let mut map: TemplateBuildMethodFnMap<'a, L, String> = TemplateBuildMethodFnMap::new();
    let ghost table = string_methods_table::<L>();
    proof {
        lemma_string_methods_differ::<L>();
        assert(map.view() =~= table.take(0));
    }
    map.add_next(Ghost(table), "len", without_arguments::<L, String, i64, TextLength>(TextLength));
    map.add_next(Ghost(table), "contains", with_text::<L, bool, TextContains>(TextContains));
    map.add_next(Ghost(table), "starts_with", with_text::<L, bool, TextStartsWith>(TextStartsWith));
    map.add_next(Ghost(table), "ends_with", with_text::<L, bool, TextEndsWith>(TextEndsWith));
    map.add_next(
        Ghost(table),
        "remove_prefix",
        with_text::<L, String, TextWithoutPrefix>(TextWithoutPrefix),
    );
    map.add_next(
        Ghost(table),
        "remove_suffix",
        with_text::<L, String, TextWithoutSuffix>(TextWithoutSuffix),
    );
    map.add_next(Ghost(table), "substr", TemplateBuildMethodFn(Box::new(SubstrMethod)));
    map.add_next(
        Ghost(table),
        "first_line",
        without_arguments::<L, String, String, TextFirstLine>(TextFirstLine),
    );
    map.add_next(
        Ghost(table),
        "lines",
        without_arguments::<L, String, Vec<String>, TextLines>(TextLines),
    );
    map.add_next(
        Ghost(table),
        "upper",
        without_arguments::<L, String, String, TextUpper>(TextUpper),
    );
    map.add_next(
        Ghost(table),
        "lower",
        without_arguments::<L, String, String, TextLower>(TextLower),
    );
    proof {
        assert(table.take(11) =~= table);
    }
    map
}

/// The methods of signatures.
pub open spec fn signature_methods_table<'a, L: TemplateLanguage<'a>>() -> MethodTable<
    'a,
    L,
    SignatureView,
> {
    seq![
        ("name"@, method_without_arguments::<L, SignatureView, String>(signature_name())),
        ("email"@, method_without_arguments::<L, SignatureView, String>(signature_email())),
        ("username"@, method_without_arguments::<L, SignatureView, String>(signature_username())),
        (
            "timestamp"@,
            method_without_arguments::<L, SignatureView, Timestamp>(signature_timestamp()),
        ),
    ]
}

/// Each of the methods of signatures has a name of its own.
pub proof fn lemma_signature_methods_differ<'a, L: TemplateLanguage<'a>>()
    ensures
        names_differ(signature_methods_table::<L>()),
{
    reveal_strlit("name");
    reveal_strlit("email");
    reveal_strlit("username");
    reveal_strlit("timestamp");
    let table = signature_methods_table::<L>();
    assert(table.len() == 4);
    assert(table[0].0 == "name"@);
    assert(table[1].0 == "email"@);
    assert(table[2].0 == "username"@);
    assert(table[3].0 == "timestamp"@);
}

/// Makes the table of the builtin methods of signatures.
pub fn builtin_signature_methods<'a, L: TemplateLanguage<'a>>() -> (map: TemplateBuildMethodFnMap<
    'a,
    L,
    Signature,
>)
    ensures
        map.view() == signature_methods_table::<L>(),
{
    let mut map: TemplateBuildMethodFnMap<'a, L, Signature> = TemplateBuildMethodFnMap::new();
    let ghost table = signature_methods_table::<L>();
    proof {
        lemma_signature_methods_differ::<L>();
        assert(map.view() =~= table.take(0));
    }
    map.add_next(
        Ghost(table),
        "name",
        without_arguments::<L, Signature, String, SignatureName>(SignatureName),
    );
    map.add_next(
        Ghost(table),
        "email",
        without_arguments::<L, Signature, String, SignatureEmail>(SignatureEmail),
    );
    map.add_next(
        Ghost(table),
        "username",
        without_arguments::<L, Signature, String, SignatureUsername>(SignatureUsername),
    );
    map.add_next(
        Ghost(table),
        "timestamp",
        without_arguments::<L, Signature, Timestamp, SignatureTimestamp>(SignatureTimestamp),
    );
    proof {
        assert(table.take(4) =~= table);
    }
    map
}

/// The methods of timestamps.
pub open spec fn timestamp_methods_table<'a, L: TemplateLanguage<'a>>() -> MethodTable<
    'a,
    L,
    Timestamp,
> {
    seq![
        ("ago"@, ago_method::<L>()),
        ("format"@, format_method::<L>()),
        ("utc"@, method_without_arguments::<L, Timestamp, Timestamp>(timestamp_in_zone(0))),
        ("local"@, local_method::<L>()),
    ]
}

/// Each of the methods of timestamps has a name of its own.
pub proof fn lemma_timestamp_methods_differ<'a, L: TemplateLanguage<'a>>()
    ensures
        names_differ(timestamp_methods_table::<L>()),
{
    reveal_strlit("ago");
    reveal_strlit("format");
    reveal_strlit("utc");
    reveal_strlit("local");
    assert("ago"@[0] != "utc"@[0]);
    let table = timestamp_methods_table::<L>();
    assert(table.len() == 4);
    assert(table[0].0 == "ago"@);
    assert(table[1].0 == "format"@);
    assert(table[2].0 == "utc"@);
    assert(table[3].0 == "local"@);
}

/// Makes the table of the builtin methods of timestamps.
pub fn builtin_timestamp_methods<'a, L: TemplateLanguage<'a>>() -> (map: TemplateBuildMethodFnMap<
    'a,
    L,
    Timestamp,
>)
    ensures
        map.view() == timestamp_methods_table::<L>(),
{
    let mut map: TemplateBuildMethodFnMap<'a, L, Timestamp> = TemplateBuildMethodFnMap::new();
    let ghost table = timestamp_methods_table::<L>();
    proof {
        lemma_timestamp_methods_differ::<L>();
        assert(map.view() =~= table.take(0));
    }
    map.add_next(Ghost(table), "ago", TemplateBuildMethodFn(Box::new(AgoMethod)));
    map.add_next(Ghost(table), "format", TemplateBuildMethodFn(Box::new(FormatMethod)));
    map.add_next(
        Ghost(table),
        "utc",
        without_arguments::<L, Timestamp, Timestamp, TimestampInZone>(
            TimestampInZone { tz_offset: 0 },
        ),
    );
    map.add_next(Ghost(table), "local", TemplateBuildMethodFn(Box::new(LocalMethod)));
    proof {
        assert(table.take(4) =~= table);
    }
    map
}

/// The methods of ranges of time.
pub open spec fn timestamp_range_methods_table<'a, L: TemplateLanguage<'a>>() -> MethodTable<
    'a,
    L,
    TimestampRange,
> {
    seq![
        ("start"@, method_without_arguments::<L, TimestampRange, Timestamp>(range_start())),
        ("end"@, method_without_arguments::<L, TimestampRange, Timestamp>(range_end())),
        ("duration"@, method_without_arguments::<L, TimestampRange, String>(range_duration())),
    ]
}

/// Each of the methods of ranges of time has a name of its own.
pub proof fn lemma_timestamp_range_methods_differ<'a, L: TemplateLanguage<'a>>()
    ensures
        names_differ(timestamp_range_methods_table::<L>()),
{
    reveal_strlit("start");
    reveal_strlit("end");
    reveal_strlit("duration");
    let table = timestamp_range_methods_table::<L>();
    assert(table.len() == 3);
    assert(table[0].0 == "start"@);
    assert(table[1].0 == "end"@);
    assert(table[2].0 == "duration"@);
}

/// Makes the table of the builtin methods of ranges of time.
pub fn builtin_timestamp_range_methods<'a, L: TemplateLanguage<'a>>() -> (map:
    TemplateBuildMethodFnMap<'a, L, TimestampRange>)
    ensures
        map.view() == timestamp_range_methods_table::<L>(),
{
    let mut map: TemplateBuildMethodFnMap<'a, L, TimestampRange> = TemplateBuildMethodFnMap::new();
    let ghost table = timestamp_range_methods_table::<L>();
    proof {
        lemma_timestamp_range_methods_differ::<L>();
        assert(map.view() =~= table.take(0));
    }
    map.add_next(
        Ghost(table),
        "start",
        without_arguments::<L, TimestampRange, Timestamp, RangeStart>(RangeStart),
    );
    map.add_next(
        Ghost(table),
        "end",
        without_arguments::<L, TimestampRange, Timestamp, RangeEnd>(RangeEnd),
    );
    map.add_next(
        Ghost(table),
        "duration",
        without_arguments::<L, TimestampRange, String, RangeDuration>(RangeDuration),
    );
    proof {
        assert(table.take(3) =~= table);
    }
    map
}

/// Symbol table of methods available in the core template.
#[verifier::reject_recursive_types(L)]
pub struct CoreTemplateBuildFnTable<'a, L: TemplateLanguage<'a>> {
    pub string_methods: TemplateBuildMethodFnMap<'a, L, String>,
    pub boolean_methods: TemplateBuildMethodFnMap<'a, L, bool>,
    pub integer_methods: TemplateBuildMethodFnMap<'a, L, i64>,
    pub signature_methods: TemplateBuildMethodFnMap<'a, L, Signature>,
    pub timestamp_methods: TemplateBuildMethodFnMap<'a, L, Timestamp>,
    pub timestamp_range_methods: TemplateBuildMethodFnMap<'a, L, TimestampRange>,
}

/// What a [`CoreTemplateBuildFnTable`] says.
#[verifier::reject_recursive_types(L)]
pub struct CoreTable<'a, L: TemplateLanguage<'a>> {
    pub string_methods: MethodTable<'a, L, Seq<char>>,
    pub boolean_methods: MethodTable<'a, L, bool>,
    pub integer_methods: MethodTable<'a, L, i64>,
    pub signature_methods: MethodTable<'a, L, SignatureView>,
    pub timestamp_methods: MethodTable<'a, L, Timestamp>,
    pub timestamp_range_methods: MethodTable<'a, L, TimestampRange>,
}

/// The builtin methods.
pub open spec fn builtin_table<'a, L: TemplateLanguage<'a>>() -> CoreTable<'a, L> {
    CoreTable {
        string_methods: string_methods_table::<L>(),
        boolean_methods: Seq::empty(),
        integer_methods: Seq::empty(),
        signature_methods: signature_methods_table::<L>(),
        timestamp_methods: timestamp_methods_table::<L>(),
        timestamp_range_methods: timestamp_range_methods_table::<L>(),
    }
}

/// No methods.
pub open spec fn empty_table<'a, L: TemplateLanguage<'a>>() -> CoreTable<'a, L> {
    CoreTable {
        string_methods: Seq::empty(),
        boolean_methods: Seq::empty(),
        integer_methods: Seq::empty(),
        signature_methods: Seq::empty(),
        timestamp_methods: Seq::empty(),
        timestamp_range_methods: Seq::empty(),
    }
}

/// What the language wraps an item of a list of texts as.
pub open spec fn wrapped_string_item<'a, L: TemplateLanguage<'a>>(language: &L) -> spec_fn(
    PropertyPlaceholder,
) -> MeaningIn<'a, L> where String: ListItem<L::Item> {
    |item: PropertyPlaceholder|
        language.wrapped_string(
            item_at(item.level as int, <String as ListItem<L::Item>>::read()),
        )
}

/// Wraps an item of a list of texts.
struct WrapString<'l, L> {
    language: &'l L,
}

impl<'a, 'l, L: TemplateLanguage<'a>> WrapItem<L::Property> for WrapString<'l, L> where
    String: ListItem<L::Item>,
 {
    closed spec fn wrapped(&self) -> spec_fn(PropertyPlaceholder) -> MeaningIn<'a, L> {
        wrapped_string_item(self.language)
    }

    fn wrap(&self, item: PropertyPlaceholder) -> (property: L::Property) {
        self.language.wrap_string(BoxedProperty(Box::new(item)))
    }
}

impl<'a, L: TemplateLanguage<'a>> CoreTable<'a, L> {
    /// Whether no method is in both tables.
    pub open spec fn disjoint(self, other: CoreTable<'a, L>) -> bool {
        &&& disjoint(self.string_methods, other.string_methods)
        &&& disjoint(self.boolean_methods, other.boolean_methods)
        &&& disjoint(self.integer_methods, other.integer_methods)
        &&& disjoint(self.signature_methods, other.signature_methods)
        &&& disjoint(self.timestamp_methods, other.timestamp_methods)
        &&& disjoint(self.timestamp_range_methods, other.timestamp_range_methods)
    }

    /// The methods of both tables.
    pub open spec fn merged(self, other: CoreTable<'a, L>) -> CoreTable<'a, L> {
        CoreTable {
            string_methods: self.string_methods + other.string_methods,
            boolean_methods: self.boolean_methods + other.boolean_methods,
            integer_methods: self.integer_methods + other.integer_methods,
            signature_methods: self.signature_methods + other.signature_methods,
            timestamp_methods: self.timestamp_methods + other.timestamp_methods,
            timestamp_range_methods: self.timestamp_range_methods + other.timestamp_range_methods,
        }
    }

    /// What a method call on a core property means.
    pub open spec fn method_meaning(
        self,
        language: &L,
        bindings: Bindings<MeaningIn<'a, L>>,
        property: CoreMeaning<L::Context, ItemIn<'a, L>>,
        function: Call<'static>,
    ) -> Result<MeaningIn<'a, L>, ParseError> where String: ListItem<L::Item> {
        match property {
            CoreMeaning::String(property) => table_method_meaning(
                "String"@,
                self.string_methods,
                language,
                bindings,
                property,
                function,
            ),
            CoreMeaning::StringList(property) => formattable_list_meaning(
                language,
                bindings,
                property,
                <String as Printable>::shown(),
                stored_item::<L::Item, String>(),
                function,
                wrapped_string_item(language),
            ),
            CoreMeaning::Boolean(property) => table_method_meaning(
                "Boolean"@,
                self.boolean_methods,
                language,
                bindings,
                property,
                function,
            ),
            CoreMeaning::Integer(property) => table_method_meaning(
                "Integer"@,
                self.integer_methods,
                language,
                bindings,
                property,
                function,
            ),
            CoreMeaning::Signature(property) => table_method_meaning(
                "Signature"@,
                self.signature_methods,
                language,
                bindings,
                property,
                function,
            ),
            CoreMeaning::Timestamp(property) => table_method_meaning(
                "Timestamp"@,
                self.timestamp_methods,
                language,
                bindings,
                property,
                function,
            ),
            CoreMeaning::TimestampRange(property) => table_method_meaning(
                "TimestampRange"@,
                self.timestamp_range_methods,
                language,
                bindings,
                property,
                function,
            ),
            CoreMeaning::Template(_) => Err(
                ParseError::no_such_method("Template"@, function, Seq::empty()),
            ),
            CoreMeaning::ListTemplate(template) => list_template_meaning(
                language,
                bindings,
                template,
                function,
            ),
        }
    }
}

impl<'a, L: TemplateLanguage<'a>> CoreTemplateBuildFnTable<'a, L> {
    /// What the table says.
    pub open spec fn view(&self) -> CoreTable<'a, L> {
        CoreTable {
            string_methods: self.string_methods.view(),
            boolean_methods: self.boolean_methods.view(),
            integer_methods: self.integer_methods.view(),
            signature_methods: self.signature_methods.view(),
            timestamp_methods: self.timestamp_methods.view(),
            timestamp_range_methods: self.timestamp_range_methods.view(),
        }
    }

    /// Creates new symbol table containing the builtin methods.
    pub fn builtin() -> (table: Self)
        ensures
            table.view() == builtin_table::<L>(),
    {
        CoreTemplateBuildFnTable {
            string_methods: builtin_string_methods(),
            boolean_methods: TemplateBuildMethodFnMap::new(),
            integer_methods: TemplateBuildMethodFnMap::new(),
            signature_methods: builtin_signature_methods(),
            timestamp_methods: builtin_timestamp_methods(),
            timestamp_range_methods: builtin_timestamp_range_methods(),
        }
    }

    /// Creates new symbol table without methods.
    pub fn empty() -> (table: Self)
        ensures
            table.view() == empty_table::<L>(),
    {
        CoreTemplateBuildFnTable {
            string_methods: TemplateBuildMethodFnMap::new(),
            boolean_methods: TemplateBuildMethodFnMap::new(),
            integer_methods: TemplateBuildMethodFnMap::new(),
            signature_methods: TemplateBuildMethodFnMap::new(),
            timestamp_methods: TemplateBuildMethodFnMap::new(),
            timestamp_range_methods: TemplateBuildMethodFnMap::new(),
        }
    }

    /// Adds the methods of `extension`. No method may be in both tables.
    pub fn merge(&mut self, extension: CoreTemplateBuildFnTable<'a, L>)
        requires
            old(self).view().disjoint(extension.view()),
        ensures
            final(self).view() == old(self).view().merged(extension.view()),
    {
        merge_fn_map(&mut self.string_methods, extension.string_methods);
        merge_fn_map(&mut self.boolean_methods, extension.boolean_methods);
        merge_fn_map(&mut self.integer_methods, extension.integer_methods);
        merge_fn_map(&mut self.signature_methods, extension.signature_methods);
        merge_fn_map(&mut self.timestamp_methods, extension.timestamp_methods);
        merge_fn_map(&mut self.timestamp_range_methods, extension.timestamp_range_methods);
    }

    /// Applies the method call node `function` to the given `property` by using
    /// this symbol table.
    pub fn build_method(
        &self,
        language: &L,
        build_ctx: &mut BuildContext<'_, L::Property>,
        property: CoreTemplatePropertyKind<'a, L::Context, L::Item>,
        function: &FunctionCallNode<'_>,
    ) -> (result: TemplateParseResult<L::Property>) where String: ListItem<L::Item>
        ensures
            final(build_ctx).follows(*old(build_ctx)),
            forall|now: Timestamp| #[trigger]
                final(build_ctx).admits(now) ==> built(result) == self.view().method_meaning(
                    language,
                    old(build_ctx).at(now),
                    property.meaning(),
                    function@,
                ),
    {
        match property {
            CoreTemplatePropertyKind::String(property) => self.string_methods.build_method(
                "String",
                language,
                build_ctx,
                property,
                function,
            ),
            CoreTemplatePropertyKind::StringList(property) => build_formattable_list_method(
                language,
                build_ctx,
                property,
                function,
                &WrapString { language },
            ),
            CoreTemplatePropertyKind::Boolean(property) => self.boolean_methods.build_method(
                "Boolean",
                language,
                build_ctx,
                property,
                function,
            ),
            CoreTemplatePropertyKind::Integer(property) => self.integer_methods.build_method(
                "Integer",
                language,
                build_ctx,
                property,
                function,
            ),
            CoreTemplatePropertyKind::Signature(property) => self.signature_methods.build_method(
                "Signature",
                language,
                build_ctx,
                property,
                function,
            ),
            CoreTemplatePropertyKind::Timestamp(property) => self.timestamp_methods.build_method(
                "Timestamp",
                language,
                build_ctx,
                property,
                function,
            ),
            CoreTemplatePropertyKind::TimestampRange(property) => {
                self.timestamp_range_methods.build_method(
                    "TimestampRange",
                    language,
                    build_ctx,
                    property,
                    function,
                )
            },
            CoreTemplatePropertyKind::Template(_) => Err(
                TemplateParseError::no_such_method("Template", function),
            ),
            CoreTemplatePropertyKind::ListTemplate(template) => build_list_template_method(
                language,
                build_ctx,
                template,
                function,
            ),
        }
    }
}

}
