//! Template languages: the kinds of properties that expressions are built of.
use vstd::prelude::*;

use crate::ast::{Call, FunctionCallNode};
use crate::error::{ParseError, TemplateParseResult};
use crate::property::{
    mapped, BoxedProperty, PropertyFn, PropertyFunction, TemplateFunction, TemplateProperty,
    TemplatePropertyError, ValueFn,
};
use crate::template::{
    joined_list, plain_text, shown_value, text_template, BoxedListTemplate, BoxedTemplate,
    JoinTemplate, ListTemplate, ListTemplateFn, PlainTextFormattedProperty, Printable,
    PropertyTemplate, Template, TemplateFn, TextTemplate,
};
use crate::text::same_text;
use crate::time::{is_present, Signature, SignatureView, Timestamp, TimestampRange};

verus! {

/// A value with a meaning. The meaning is for specifications. Where an implementation does not
/// give one, contracts speak of its values only as far as there is a meaning that meets them.
pub trait Denoted {
    /// What values of this type mean.
    type Meaning;

    /// What the value means.
    open spec fn meaning(&self) -> Self::Meaning {
        arbitrary()
    }
}

impl<'a, C, V: DeepView, O: DeepView> Denoted for BoxedProperty<'a, C, V, O> {
    type Meaning = PropertyFn<C, V::V, O::V>;

    open spec fn meaning(&self) -> PropertyFn<C, V::V, O::V> {
        self.value()
    }
}

impl<'a, C, V: DeepView> Denoted for BoxedTemplate<'a, C, V> {
    type Meaning = TemplateFn<C, V::V>;

    open spec fn meaning(&self) -> TemplateFn<C, V::V> {
        self.rendered()
    }
}

/// Provides access to basic template property types. What a property can be taken for depends
/// on its meaning alone.
pub trait IntoTemplateProperty<'a, C, V: DeepView>: Denoted + Sized {
    /// The boolean that a meaning can be taken for.
    open spec fn boolean_of(meaning: Self::Meaning) -> Option<PropertyFn<C, V::V, bool>> {
        arbitrary()
    }

    /// The integer that a meaning can be taken for.
    open spec fn integer_of(meaning: Self::Meaning) -> Option<PropertyFn<C, V::V, i64>> {
        arbitrary()
    }

    /// The text that a meaning can be taken for.
    open spec fn plain_text_of(meaning: Self::Meaning) -> Option<PropertyFn<C, V::V, Seq<char>>> {
        arbitrary()
    }

    /// The template that a meaning can be taken for.
    open spec fn template_of(meaning: Self::Meaning) -> Option<TemplateFn<C, V::V>> {
        arbitrary()
    }

    fn try_into_boolean(self) -> (property: Option<BoxedProperty<'a, C, V, bool>>)
        ensures
            match property {
                Some(property) => Self::boolean_of(self.meaning()) == Some(property.value()),
                None => Self::boolean_of(self.meaning()) is None,
            },
    ;

    fn try_into_integer(self) -> (property: Option<BoxedProperty<'a, C, V, i64>>)
        ensures
            match property {
                Some(property) => Self::integer_of(self.meaning()) == Some(property.value()),
                None => Self::integer_of(self.meaning()) is None,
            },
    ;

    fn try_into_plain_text(self) -> (property: Option<BoxedProperty<'a, C, V, String>>)
        ensures
            match property {
                Some(property) => Self::plain_text_of(self.meaning()) == Some(property.value()),
                None => Self::plain_text_of(self.meaning()) is None,
            },
    ;

    fn try_into_template(self) -> (template: Option<BoxedTemplate<'a, C, V>>)
        ensures
            match template {
                Some(template) => Self::template_of(self.meaning()) == Some(template.rendered()),
                None => Self::template_of(self.meaning()) is None,
            },
    ;
}

/// The kinds of properties that every template language has.
#[verifier::reject_recursive_types(C)]
#[verifier::reject_recursive_types(V)]
pub enum CoreTemplatePropertyKind<'a, C, V: DeepView> {
    String(BoxedProperty<'a, C, V, String>),
    StringList(BoxedProperty<'a, C, V, Vec<String>>),
    Boolean(BoxedProperty<'a, C, V, bool>),
    Integer(BoxedProperty<'a, C, V, i64>),
    Signature(BoxedProperty<'a, C, V, Signature>),
    Timestamp(BoxedProperty<'a, C, V, Timestamp>),
    TimestampRange(BoxedProperty<'a, C, V, TimestampRange>),
    Template(BoxedTemplate<'a, C, V>),
    ListTemplate(BoxedListTemplate<'a, C, V>),
}

/// What a [`CoreTemplatePropertyKind`] means.
#[verifier::reject_recursive_types(C)]
#[verifier::reject_recursive_types(W)]
pub enum CoreMeaning<C, W> {
    String(PropertyFn<C, W, Seq<char>>),
    StringList(PropertyFn<C, W, Seq<Seq<char>>>),
    Boolean(PropertyFn<C, W, bool>),
    Integer(PropertyFn<C, W, i64>),
    Signature(PropertyFn<C, W, SignatureView>),
    Timestamp(PropertyFn<C, W, Timestamp>),
    TimestampRange(PropertyFn<C, W, TimestampRange>),
    Template(TemplateFn<C, W>),
    ListTemplate(ListTemplateFn<C, W>),
}

impl<'a, C, V: DeepView> Denoted for CoreTemplatePropertyKind<'a, C, V> {
    type Meaning = CoreMeaning<C, V::V>;

    open spec fn meaning(&self) -> CoreMeaning<C, V::V> {
        match self {
            CoreTemplatePropertyKind::String(property) => CoreMeaning::String(property.value()),
            CoreTemplatePropertyKind::StringList(property) => CoreMeaning::StringList(
                property.value(),
            ),
            CoreTemplatePropertyKind::Boolean(property) => CoreMeaning::Boolean(property.value()),
            CoreTemplatePropertyKind::Integer(property) => CoreMeaning::Integer(property.value()),
            CoreTemplatePropertyKind::Signature(property) => CoreMeaning::Signature(
                property.value(),
            ),
            CoreTemplatePropertyKind::Timestamp(property) => CoreMeaning::Timestamp(
                property.value(),
            ),
            CoreTemplatePropertyKind::TimestampRange(property) => CoreMeaning::TimestampRange(
                property.value(),
            ),
            CoreTemplatePropertyKind::Template(template) => CoreMeaning::Template(
                template.rendered(),
            ),
            CoreTemplatePropertyKind::ListTemplate(template) => CoreMeaning::ListTemplate(
                template.items(),
            ),
        }
    }
}

/// Whether a text or a list is not empty.
pub open spec fn not_empty<T>() -> ValueFn<Seq<T>, bool> {
    |value: Seq<T>| Ok(value.len() > 0)
}

/// Tells whether a text or a list is not empty.
pub struct NotEmpty;

impl PropertyFunction<String, bool> for NotEmpty {
    open spec fn result(&self) -> ValueFn<Seq<char>, bool> {
        not_empty()
    }

    fn apply(&self, input: String) -> (result: Result<bool, TemplatePropertyError>) {
        Ok(!input.as_str().is_empty())
    }
}

impl PropertyFunction<Vec<String>, bool> for NotEmpty {
    open spec fn result(&self) -> ValueFn<Seq<Seq<char>>, bool> {
        not_empty()
    }

    fn apply(&self, input: Vec<String>) -> (result: Result<bool, TemplatePropertyError>) {
        Ok(input.len() > 0)
    }
}

impl<C, W> CoreMeaning<C, W> {
    /// Texts and lists are true if they are not empty. Integers, signatures, timestamps and
    /// templates are no booleans.
    pub open spec fn boolean(self) -> Option<PropertyFn<C, W, bool>> {
        match self {
            CoreMeaning::String(property) => Some(mapped(property, not_empty())),
            CoreMeaning::StringList(property) => Some(mapped(property, not_empty())),
            CoreMeaning::Boolean(property) => Some(property),
            CoreMeaning::Integer(_) => None,
            CoreMeaning::Signature(_) => None,
            CoreMeaning::Timestamp(_) => None,
            CoreMeaning::TimestampRange(_) => None,
            CoreMeaning::Template(_) => None,
            CoreMeaning::ListTemplate(_) => None,
        }
    }

    /// Only integers are integers.
    pub open spec fn integer(self) -> Option<PropertyFn<C, W, i64>> {
        match self {
            CoreMeaning::Integer(property) => Some(property),
            _ => None,
        }
    }

    /// A text is itself; all else is the text that it is shown as.
    pub open spec fn plain_text(self) -> PropertyFn<C, W, Seq<char>> {
        match self {
            CoreMeaning::String(property) => property,
            _ => plain_text(self.template()),
        }
    }

    /// Everything can be shown.
    pub open spec fn template(self) -> TemplateFn<C, W> {
        match self {
            CoreMeaning::String(property) => shown_value(property, <String as Printable>::shown()),
            CoreMeaning::StringList(property) => shown_value(
                property,
                <Vec<String> as Printable>::shown(),
            ),
            CoreMeaning::Boolean(property) => shown_value(property, <bool as Printable>::shown()),
            CoreMeaning::Integer(property) => shown_value(property, <i64 as Printable>::shown()),
            CoreMeaning::Signature(property) => shown_value(
                property,
                <Signature as Printable>::shown(),
            ),
            CoreMeaning::Timestamp(property) => shown_value(
                property,
                <Timestamp as Printable>::shown(),
            ),
            CoreMeaning::TimestampRange(property) => shown_value(
                property,
                <TimestampRange as Printable>::shown(),
            ),
            CoreMeaning::Template(template) => template,
            CoreMeaning::ListTemplate(list) => joined_list(list, text_template(" "@)),
        }
    }
}

impl<'a, C: 'a, V: DeepView + 'a> IntoTemplateProperty<
    'a,
    C,
    V,
> for CoreTemplatePropertyKind<'a, C, V> {
    open spec fn boolean_of(meaning: CoreMeaning<C, V::V>) -> Option<PropertyFn<C, V::V, bool>> {
        meaning.boolean()
    }

    open spec fn integer_of(meaning: CoreMeaning<C, V::V>) -> Option<PropertyFn<C, V::V, i64>> {
        meaning.integer()
    }

    open spec fn plain_text_of(meaning: CoreMeaning<C, V::V>) -> Option<
        PropertyFn<C, V::V, Seq<char>>,
    > {
        Some(meaning.plain_text())
    }

    open spec fn template_of(meaning: CoreMeaning<C, V::V>) -> Option<TemplateFn<C, V::V>> {
        Some(meaning.template())
    }

    fn try_into_boolean(self) -> (property: Option<BoxedProperty<'a, C, V, bool>>) {
        match self {
            CoreTemplatePropertyKind::String(property) => Some(
                BoxedProperty(Box::new(TemplateFunction { property, function: NotEmpty })),
            ),
            CoreTemplatePropertyKind::StringList(property) => Some(
                BoxedProperty(Box::new(TemplateFunction { property, function: NotEmpty })),
            ),
            CoreTemplatePropertyKind::Boolean(property) => Some(property),
            CoreTemplatePropertyKind::Integer(_) => None,
            CoreTemplatePropertyKind::Signature(_) => None,
            CoreTemplatePropertyKind::Timestamp(_) => None,
            CoreTemplatePropertyKind::TimestampRange(_) => None,
            CoreTemplatePropertyKind::Template(_) => None,
            CoreTemplatePropertyKind::ListTemplate(_) => None,
        }
    }

    fn try_into_integer(self) -> (property: Option<BoxedProperty<'a, C, V, i64>>) {
        match self {
            CoreTemplatePropertyKind::Integer(property) => Some(property),
            _ => None,
        }
    }

    fn try_into_plain_text(self) -> (property: Option<BoxedProperty<'a, C, V, String>>) {
        match self {
            CoreTemplatePropertyKind::String(property) => Some(property),
            other => match other.try_into_template() {
                Some(template) => Some(
                    BoxedProperty(Box::new(PlainTextFormattedProperty { template })),
                ),
                None => None,
            },
        }
    }

    fn try_into_template(self) -> (template: Option<BoxedTemplate<'a, C, V>>) {
        match self {
            CoreTemplatePropertyKind::String(property) => Some(
                BoxedTemplate(Box::new(PropertyTemplate { property })),
            ),
            CoreTemplatePropertyKind::StringList(property) => Some(
                BoxedTemplate(Box::new(PropertyTemplate { property })),
            ),
            CoreTemplatePropertyKind::Boolean(property) => Some(
                BoxedTemplate(Box::new(PropertyTemplate { property })),
            ),
            CoreTemplatePropertyKind::Integer(property) => Some(
                BoxedTemplate(Box::new(PropertyTemplate { property })),
            ),
            CoreTemplatePropertyKind::Signature(property) => Some(
                BoxedTemplate(Box::new(PropertyTemplate { property })),
            ),
            CoreTemplatePropertyKind::Timestamp(property) => Some(
                BoxedTemplate(Box::new(PropertyTemplate { property })),
            ),
            CoreTemplatePropertyKind::TimestampRange(property) => Some(
                BoxedTemplate(Box::new(PropertyTemplate { property })),
            ),
            CoreTemplatePropertyKind::Template(template) => Some(template),
            CoreTemplatePropertyKind::ListTemplate(list) => Some(
                BoxedTemplate(
                    Box::new(
                        JoinTemplate {
                            list,
                            separator: BoxedTemplate(Box::new(TextTemplate(" ".to_owned()))),
                        },
                    ),
                ),
            ),
        }
    }
}

/// What properties of the language `L` mean.
pub type MeaningIn<'a, L> = <<L as TemplateLanguage<'a>>::Property as Denoted>::Meaning;

/// What list items of the language `L` stand for.
pub type ItemIn<'a, L> = <<L as TemplateLanguage<'a>>::Item as DeepView>::V;

/// What a property of the language `L` means whose values are shown by `T`.
pub type PropertyIn<'a, L, T> = PropertyFn<
    <L as TemplateLanguage<'a>>::Context,
    ItemIn<'a, L>,
    T,
>;

/// What a template of the language `L` means.
pub type TemplateIn<'a, L> = TemplateFn<<L as TemplateLanguage<'a>>::Context, ItemIn<'a, L>>;

/// What a list of templates of the language `L` means.
pub type ListTemplateIn<'a, L> = ListTemplateFn<
    <L as TemplateLanguage<'a>>::Context,
    ItemIn<'a, L>,
>;

/// What was built, or what is wrong.
pub open spec fn built<P: Denoted>(result: TemplateParseResult<P>) -> Result<
    P::Meaning,
    ParseError,
> {
    match result {
        Ok(property) => Ok(property.meaning()),
        Err(error) => Err(error.view()),
    }
}

/// Makes properties that read a local variable.
pub trait LocalVariable<P: Denoted> {
    /// What the properties mean.
    spec fn made(&self) -> P::Meaning;

    /// Makes a property.
    fn make(&self) -> (property: P)
        ensures
            property.meaning() == self.made(),
    ;
}

/// A local variable and its name.
#[verifier::reject_recursive_types(P)]
pub struct NamedVariable<'i, P: Denoted> {
    pub name: &'i str,
    pub variable: &'i dyn LocalVariable<P>,
}

impl<'i, P: Denoted> Clone for NamedVariable<'i, P> {
    fn clone(&self) -> (copy: Self)
        ensures
            copy == *self,
    {
        *self
    }
}

impl<'i, P: Denoted> Copy for NamedVariable<'i, P> {

}

/// What expressions may refer to, and when they are built.
#[verifier::reject_recursive_types(P)]
pub struct BuildContext<'i, P: Denoted> {
    /// The variables, of which the last one of a name counts.
    local_variables: Vec<NamedVariable<'i, P>>,
    /// When the template is built, once something has asked for it.
    time: Option<Timestamp>,
}

/// What a [`BuildContext`] says for a template that is built at `now`.
pub struct Bindings<M> {
    pub variables: Seq<(Seq<char>, M)>,
    pub now: Timestamp,
}

impl<M> Bindings<M> {
    /// No variables.
    pub open spec fn fresh(now: Timestamp) -> Bindings<M> {
        Bindings { variables: Seq::empty(), now }
    }

    /// These bindings and one more variable.
    pub open spec fn with_variable(self, name: Seq<char>, meaning: M) -> Bindings<M> {
        Bindings { variables: self.variables.push((name, meaning)), now: self.now }
    }

    /// What a variable means.
    pub open spec fn lookup(self, name: Seq<char>) -> Option<M> {
        last_bound(self.variables, name)
    }

    /// The names of the variables.
    pub open spec fn names(self) -> Seq<Seq<char>> {
        names_of(self.variables)
    }
}

/// The names in a table.
pub open spec fn names_of<M>(table: Seq<(Seq<char>, M)>) -> Seq<Seq<char>> {
    table.map_values(|entry: (Seq<char>, M)| entry.0)
}

/// What the last of the variables of that name means.
pub open spec fn last_bound<M>(variables: Seq<(Seq<char>, M)>, name: Seq<char>) -> Option<M>
    decreases variables.len(),
{
    if variables.len() == 0 {
        None
    } else if variables.last().0 == name {
        Some(variables.last().1)
    } else {
        last_bound(variables.drop_last(), name)
    }
}

impl<'i, P: Denoted> BuildContext<'i, P> {
    /// The names of the variables, and what each means.
    pub closed spec fn variables(&self) -> Seq<(Seq<char>, P::Meaning)> {
        self.local_variables@.map_values(
            |named: NamedVariable<'i, P>| (named.name@, named.variable.made()),
        )
    }

    /// When the template is built, if something has asked for it.
    pub closed spec fn time(&self) -> Option<Timestamp> {
        self.time
    }

    /// What the context says for a template that is built at `now`.
    pub open spec fn at(&self, now: Timestamp) -> Bindings<P::Meaning> {
        Bindings { variables: self.variables(), now }
    }

    /// Whether the template may be built at `now`, as far as the context knows.
    pub open spec fn admits(&self, now: Timestamp) -> bool {
        self.time() is None || self.time() == Some(now)
    }

    /// Whether this is the context `before`, save that the time may have been read.
    pub open spec fn follows(&self, before: Self) -> bool {
        &&& self.variables() == before.variables()
        &&& before.time() is Some ==> self.time() == before.time()
        &&& before.time() is None && self.time() is Some ==> is_present(self.time()->0)
        &&& forall|now: Timestamp| #[trigger] self.admits(now) ==> before.admits(now)
    }

    /// A context without variables, in which the time is read when it is asked for.
    pub fn new() -> (build_ctx: BuildContext<'i, P>)
        ensures
            build_ctx.variables() == Seq::<(Seq<char>, P::Meaning)>::empty(),
            build_ctx.time() is None,
    {
        let build_ctx = BuildContext { local_variables: Vec::new(), time: None };
        proof {
            assert(build_ctx.variables() =~= Seq::empty());
        }
        build_ctx
    }

    /// A context without variables, for a template that is built at `now`.
    pub fn new_at(now: Timestamp) -> (build_ctx: BuildContext<'i, P>)
        ensures
            build_ctx.variables() == Seq::<(Seq<char>, P::Meaning)>::empty(),
            build_ctx.time() == Some(now),
    {
        let build_ctx = BuildContext { local_variables: Vec::new(), time: Some(now) };
        proof {
            assert(build_ctx.variables() =~= Seq::empty());
        }
        build_ctx
    }

    /// When the template is built. The time is read when this is called first.
    pub fn now(&mut self) -> (now: Timestamp)
        ensures
            final(self).time() == Some(now),
            final(self).follows(*old(self)),
    {
        match self.time {
            Some(now) => now,
            None => {
                let now = Timestamp::now();
                self.time = Some(now);
                now
            },
        }
    }

    /// How many variables there are.
    pub fn depth(&self) -> (depth: usize)
        ensures
            depth == self.variables().len(),
    {
        self.local_variables.len()
    }

    /// This context with one more variable.
    pub(crate) fn with_variable<'j>(&self, named: NamedVariable<'j, P>) -> (build_ctx:
        BuildContext<'j, P>) where 'i: 'j
        ensures
            build_ctx.variables() == self.variables().push((named.name@, named.variable.made())),
            build_ctx.time() == self.time(),
    {
        let mut local_variables: Vec<NamedVariable<'j, P>> = Vec::new();
        let mut i: usize = 0;
        while i < self.local_variables.len()
            invariant
                i <= self.local_variables@.len(),
                local_variables@ =~= self.local_variables@.take(i as int),
            decreases self.local_variables@.len() - i,
        {
            local_variables.push(self.local_variables[i]);
            i += 1;
        }
        local_variables.push(named);
        let build_ctx = BuildContext { local_variables, time: self.time };
        proof {
            assert(build_ctx.variables() =~= self.variables().push(
                (named.name@, named.variable.made()),
            ));
        }
        build_ctx
    }

    /// Takes over the time from a context with more variables.
    pub(crate) fn take_time(&mut self, inner: &BuildContext<'_, P>)
        ensures
            final(self).variables() == old(self).variables(),
            final(self).time() == inner.time(),
    {
        self.time = inner.time;
    }

    /// Makes a property that reads the variable of that name.
    pub fn make(&self, name: &str) -> (property: Option<P>)
        ensures
            match property {
                Some(property) => last_bound(self.variables(), name@) == Some(
                    property.meaning(),
                ),
                None => last_bound(self.variables(), name@) is None,
            },
    {
        let ghost variables = self.variables();
        let mut i: usize = self.local_variables.len();
        proof {
            assert(variables.take(i as int) =~= variables);
        }
        while i > 0
            invariant
                i <= self.local_variables@.len(),
                variables == self.variables(),
                last_bound(variables, name@) == last_bound(variables.take(i as int), name@),
            decreases i,
        {
            i -= 1;
            proof {
                assert(variables.take(i + 1).drop_last() =~= variables.take(i as int));
                assert(variables.take(i + 1).last() == variables[i as int]);
            }
            if same_text(self.local_variables[i].name, name) {
                return Some(self.local_variables[i].variable.make());
            }
        }
        None
    }

    /// The names of the variables.
    pub fn names(&self) -> (names: Vec<String>)
        ensures
            names.deep_view() == names_of(self.variables()),
    {
        let mut names: Vec<String> = Vec::new();
        let ghost all = names_of(self.variables());
        let mut i: usize = 0;
        while i < self.local_variables.len()
            invariant
                i <= self.local_variables@.len(),
                all == names_of(self.variables()),
                names.deep_view() =~= all.take(i as int),
            decreases self.local_variables@.len() - i,
        {
            let ghost before = names.deep_view();
            names.push(self.local_variables[i].name.to_owned());
            proof {
                assert(names.deep_view() =~= before.push(all[i as int]));
            }
            i += 1;
        }
        proof {
            assert(all.take(i as int) =~= all);
        }
        names
    }
}

/// Callbacks to build language-specific evaluation objects from AST nodes.
///
/// The specification functions name what the callbacks make. The contracts of the library
/// speak of the languages for which there are such meanings: a callback makes the same of the
/// same, whenever it is called.
pub trait TemplateLanguage<'a>: Sized {
    type Context: 'a;

    /// The list items that can be in scope.
    type Item: DeepView + 'a;

    type Property: IntoTemplateProperty<'a, Self::Context, Self::Item>;

    /// What a property means once `wrap_string` has wrapped it.
    open spec fn wrapped_string(
        &self,
        property: PropertyIn<'a, Self, Seq<char>>,
    ) -> MeaningIn<'a, Self> {
        arbitrary()
    }

    /// What a property means once `wrap_string_list` has wrapped it.
    open spec fn wrapped_string_list(
        &self,
        property: PropertyIn<'a, Self, Seq<Seq<char>>>,
    ) -> MeaningIn<'a, Self> {
        arbitrary()
    }

    /// What a property means once `wrap_boolean` has wrapped it.
    open spec fn wrapped_boolean(
        &self,
        property: PropertyIn<'a, Self, bool>,
    ) -> MeaningIn<'a, Self> {
        arbitrary()
    }

    /// What a property means once `wrap_integer` has wrapped it.
    open spec fn wrapped_integer(
        &self,
        property: PropertyIn<'a, Self, i64>,
    ) -> MeaningIn<'a, Self> {
        arbitrary()
    }

    /// What a property means once `wrap_signature` has wrapped it.
    open spec fn wrapped_signature(
        &self,
        property: PropertyIn<'a, Self, SignatureView>,
    ) -> MeaningIn<'a, Self> {
        arbitrary()
    }

    /// What a property means once `wrap_timestamp` has wrapped it.
    open spec fn wrapped_timestamp(
        &self,
        property: PropertyIn<'a, Self, Timestamp>,
    ) -> MeaningIn<'a, Self> {
        arbitrary()
    }

    /// What a property means once `wrap_timestamp_range` has wrapped it.
    open spec fn wrapped_timestamp_range(
        &self,
        property: PropertyIn<'a, Self, TimestampRange>,
    ) -> MeaningIn<'a, Self> {
        arbitrary()
    }

    /// What a template means once `wrap_template` has wrapped it.
    open spec fn wrapped_template(&self, template: TemplateIn<'a, Self>) -> MeaningIn<'a, Self> {
        arbitrary()
    }

    /// What a list of templates means once `wrap_list_template` has wrapped it.
    open spec fn wrapped_list_template(
        &self,
        template: ListTemplateIn<'a, Self>,
    ) -> MeaningIn<'a, Self> {
        arbitrary()
    }

    /// What `self` means.
    open spec fn self_meaning(&self) -> MeaningIn<'a, Self> {
        arbitrary()
    }

    /// What a method call on a property means.
    open spec fn built_method(
        &self,
        bindings: Bindings<MeaningIn<'a, Self>>,
        property: MeaningIn<'a, Self>,
        function: Call<'_>,
    ) -> Result<MeaningIn<'a, Self>, ParseError> {
        arbitrary()
    }

    fn wrap_string(
        &self,
        property: BoxedProperty<'a, Self::Context, Self::Item, String>,
    ) -> (wrapped: Self::Property)
        ensures
            wrapped.meaning() == self.wrapped_string(property.value()),
    ;

    fn wrap_string_list(
        &self,
        property: BoxedProperty<'a, Self::Context, Self::Item, Vec<String>>,
    ) -> (wrapped: Self::Property)
        ensures
            wrapped.meaning() == self.wrapped_string_list(property.value()),
    ;

    fn wrap_boolean(
        &self,
        property: BoxedProperty<'a, Self::Context, Self::Item, bool>,
    ) -> (wrapped: Self::Property)
        ensures
            wrapped.meaning() == self.wrapped_boolean(property.value()),
    ;

    fn wrap_integer(
        &self,
        property: BoxedProperty<'a, Self::Context, Self::Item, i64>,
    ) -> (wrapped: Self::Property)
        ensures
            wrapped.meaning() == self.wrapped_integer(property.value()),
    ;

    fn wrap_signature(
        &self,
        property: BoxedProperty<'a, Self::Context, Self::Item, Signature>,
    ) -> (wrapped: Self::Property)
        ensures
            wrapped.meaning() == self.wrapped_signature(property.value()),
    ;

    fn wrap_timestamp(
        &self,
        property: BoxedProperty<'a, Self::Context, Self::Item, Timestamp>,
    ) -> (wrapped: Self::Property)
        ensures
            wrapped.meaning() == self.wrapped_timestamp(property.value()),
    ;

    fn wrap_timestamp_range(
        &self,
        property: BoxedProperty<'a, Self::Context, Self::Item, TimestampRange>,
    ) -> (wrapped: Self::Property)
        ensures
            wrapped.meaning() == self.wrapped_timestamp_range(property.value()),
    ;

    fn wrap_template(&self, template: BoxedTemplate<'a, Self::Context, Self::Item>) -> (wrapped:
        Self::Property)
        ensures
            wrapped.meaning() == self.wrapped_template(template.rendered()),
    ;

    fn wrap_list_template(
        &self,
        template: BoxedListTemplate<'a, Self::Context, Self::Item>,
    ) -> (wrapped: Self::Property)
        ensures
            wrapped.meaning() == self.wrapped_list_template(template.items()),
    ;

    /// Creates the `self` template property, which is usually a function that
    /// clones the `Context` object.
    fn build_self(&self) -> (property: Self::Property)
        ensures
            property.meaning() == self.self_meaning(),
    ;

    /// Builds a method call on a property.
    fn build_method(
        &self,
        build_ctx: &mut BuildContext<'_, Self::Property>,
        property: Self::Property,
        function: &FunctionCallNode<'_>,
    ) -> (result: TemplateParseResult<Self::Property>)
        ensures
            final(build_ctx).follows(*old(build_ctx)),
            forall|now: Timestamp| #[trigger]
                final(build_ctx).admits(now) ==> built(result) == self.built_method(
                    old(build_ctx).at(now),
                    property.meaning(),
                    function@,
                ),
    ;
}

}
