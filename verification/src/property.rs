//! Properties: values that are extracted from a context.
//!
//! The meaning of a property is a function from the context and from the list items in
//! scope to a value, or to the message that says why there is none.
use vstd::prelude::*;

verus! {

/// What a property of a context `C` means, with list items `W` in scope.
pub type PropertyFn<C, W, T> = spec_fn(C, Seq<W>) -> Result<T, Seq<char>>;

/// A function on the value of a property.
pub type ValueFn<A, B> = spec_fn(A) -> Result<B, Seq<char>>;

/// The message that says why a property has no value.
#[derive(Debug)]
pub struct TemplatePropertyError(pub String);

/// What an extraction gave.
pub open spec fn outcome<O: DeepView>(result: Result<O, TemplatePropertyError>) -> Result<
    O::V,
    Seq<char>,
> {
    match result {
        Ok(value) => Ok(value.deep_view()),
        Err(error) => Err(error.0@),
    }
}

/// The list items that are in scope, the outermost one at the root.
pub enum Scope<'e, V> {
    /// No item.
    Root,
    /// An item, and those around it.
    Item { item: &'e V, outer: &'e Scope<'e, V> },
}

impl<'e, V: DeepView> Scope<'e, V> {
    /// The items, the outermost one first.
    pub open spec fn view(&self) -> Seq<V::V>
        decreases self,
    {
        match self {
            Scope::Root => Seq::empty(),
            Scope::Item { item, outer } => outer.view().push(item.deep_view()),
        }
    }

    /// The item with `level` others around it. If there are too few items, the error says
    /// how far `level` is beyond them.
    pub fn find(&self, level: usize) -> (found: Result<&V, usize>)
        ensures
            level < self.view().len() ==> (found matches Ok(item) && item.deep_view()
                == self.view()[level as int]),
            level >= self.view().len() ==> (found matches Err(rest) && rest == level
                - self.view().len()),
        decreases self,
    {
        match self {
            Scope::Root => Err(level),
            Scope::Item { item, outer } => match outer.find(level) {
                Ok(found) => Ok(found),
                Err(rest) => if rest == 0 {
                    Ok(*item)
                } else {
                    Err(rest - 1)
                },
            },
        }
    }
}

/// A value of type `O` that is extracted from a context `C`.
pub trait TemplateProperty<C, V: DeepView, O: DeepView> {
    /// The value in each context.
    open spec fn value(&self) -> PropertyFn<C, V::V, O::V> {
        arbitrary()
    }

    /// Extracts the value.
    fn extract(&self, context: &C, scope: &Scope<'_, V>) -> (result: Result<
        O,
        TemplatePropertyError,
    >)
        ensures
            outcome(result) == (self.value())(*context, scope.view()),
    ;
}

/// Some property with values of type `O`.
#[verifier::reject_recursive_types(C)]
#[verifier::reject_recursive_types(V)]
#[verifier::reject_recursive_types(O)]
pub struct BoxedProperty<'a, C, V: DeepView, O: DeepView>(
    pub Box<dyn TemplateProperty<C, V, O> + 'a>,
);

impl<'a, C, V: DeepView, O: DeepView> TemplateProperty<C, V, O> for BoxedProperty<'a, C, V, O> {
    open spec fn value(&self) -> PropertyFn<C, V::V, O::V> {
        self.0.value()
    }

    fn extract(&self, context: &C, scope: &Scope<'_, V>) -> (result: Result<
        O,
        TemplatePropertyError,
    >) {
        self.0.extract(context, scope)
    }
}

/// A value that is the same in each context.
pub open spec fn constant<C, W, T>(value: T) -> PropertyFn<C, W, T> {
    |context: C, scope: Seq<W>| Ok(value)
}

/// `function` applied to the value of `property`.
pub open spec fn mapped<C, W, A, B>(
    property: PropertyFn<C, W, A>,
    function: ValueFn<A, B>,
) -> PropertyFn<C, W, B> {
    |context: C, scope: Seq<W>|
        match property(context, scope) {
            Ok(value) => function(value),
            Err(message) => Err(message),
        }
}

/// The values of two properties. Neither has a value unless both have one, and the first
/// message counts.
pub open spec fn paired<C, W, A, B>(
    first: PropertyFn<C, W, A>,
    second: PropertyFn<C, W, B>,
) -> PropertyFn<C, W, (A, B)> {
    |context: C, scope: Seq<W>|
        match first(context, scope) {
            Ok(a) => match second(context, scope) {
                Ok(b) => Ok((a, b)),
                Err(message) => Err(message),
            },
            Err(message) => Err(message),
        }
}

/// The item with `level` others around it, as `read` reads it.
pub open spec fn item_at<C, W, T>(level: int, read: spec_fn(W) -> Option<T>) -> PropertyFn<
    C,
    W,
    T,
> {
    |context: C, scope: Seq<W>|
        if 0 <= level < scope.len() {
            match read(scope[level]) {
                Some(value) => Ok(value),
                None => Err("List item is of another type"@),
            }
        } else {
            Err("List item is out of scope"@)
        }
}

/// A value that can be copied.
pub trait Duplicate: DeepView + Sized {
    /// Another value that says the same.
    fn duplicate(&self) -> (copy: Self)
        ensures
            copy.deep_view() == self.deep_view(),
    ;
}

impl Duplicate for String {
    fn duplicate(&self) -> (copy: String) {
        self.clone()
    }
}

impl Duplicate for bool {
    fn duplicate(&self) -> (copy: bool) {
        *self
    }
}

impl Duplicate for i64 {
    fn duplicate(&self) -> (copy: i64) {
        *self
    }
}

impl<T: Duplicate> Duplicate for Vec<T> {
    fn duplicate(&self) -> (copy: Vec<T>) {
        let mut copy: Vec<T> = Vec::new();
        let mut i: usize = 0;
        while i < self.len()
            invariant
                i <= self@.len(),
                copy.deep_view() =~= self.deep_view().take(i as int),
            decreases self@.len() - i,
        {
            let ghost before = copy.deep_view();
            copy.push(self[i].duplicate());
            proof {
                assert(copy.deep_view() =~= before.push(self.deep_view()[i as int]));
            }
            i += 1;
        }
        proof {
            assert(self.deep_view().take(i as int) =~= self.deep_view());
        }
        copy
    }
}

/// A value that is the same in each context.
pub struct Literal<O>(pub O);

impl<C, V: DeepView, O: Duplicate> TemplateProperty<C, V, O> for Literal<O> {
    open spec fn value(&self) -> PropertyFn<C, V::V, O::V> {
        constant(self.0.deep_view())
    }

    fn extract(&self, context: &C, scope: &Scope<'_, V>) -> (result: Result<
        O,
        TemplatePropertyError,
    >) {
        Ok(self.0.duplicate())
    }
}

/// A property that is the same in each context.
pub fn literal<'a, C: 'a, V: DeepView + 'a, O: Duplicate + 'a>(value: O) -> (property:
    BoxedProperty<'a, C, V, O>)
    ensures
        property.value() == constant::<C, V::V, O::V>(value.deep_view()),
{
    BoxedProperty(Box::new(Literal(value)))
}

/// A function on a value, which may fail.
pub trait PropertyFunction<I: DeepView, O: DeepView> {
    /// What the function gives for each value.
    spec fn result(&self) -> ValueFn<I::V, O::V>;

    /// Applies the function.
    fn apply(&self, input: I) -> (result: Result<O, TemplatePropertyError>)
        ensures
            outcome(result) == (self.result())(input.deep_view()),
    ;
}

/// A property with a function applied to its value.
#[verifier::reject_recursive_types(C)]
#[verifier::reject_recursive_types(V)]
#[verifier::reject_recursive_types(I)]
pub struct TemplateFunction<'a, C, V: DeepView, I: DeepView, F> {
    pub property: BoxedProperty<'a, C, V, I>,
    pub function: F,
}

impl<'a, C, V: DeepView, I: DeepView, O: DeepView, F: PropertyFunction<I, O>> TemplateProperty<
    C,
    V,
    O,
> for TemplateFunction<'a, C, V, I, F> {
    open spec fn value(&self) -> PropertyFn<C, V::V, O::V> {
        mapped(self.property.value(), self.function.result())
    }

    fn extract(&self, context: &C, scope: &Scope<'_, V>) -> (result: Result<
        O,
        TemplatePropertyError,
    >) {
        match self.property.extract(context, scope) {
            Ok(value) => self.function.apply(value),
            Err(error) => Err(error),
        }
    }
}

/// Two properties as one.
#[verifier::reject_recursive_types(C)]
#[verifier::reject_recursive_types(V)]
#[verifier::reject_recursive_types(A)]
#[verifier::reject_recursive_types(B)]
pub struct PropertyPair<'a, C, V: DeepView, A: DeepView, B: DeepView> {
    pub first: BoxedProperty<'a, C, V, A>,
    pub second: BoxedProperty<'a, C, V, B>,
}

impl<'a, C, V: DeepView, A: DeepView, B: DeepView> TemplateProperty<
    C,
    V,
    (A, B),
> for PropertyPair<'a, C, V, A, B> {
    open spec fn value(&self) -> PropertyFn<C, V::V, (A::V, B::V)> {
        paired(self.first.value(), self.second.value())
    }

    fn extract(&self, context: &C, scope: &Scope<'_, V>) -> (result: Result<
        (A, B),
        TemplatePropertyError,
    >) {
        match self.first.extract(context, scope) {
            Ok(a) => match self.second.extract(context, scope) {
                Ok(b) => Ok((a, b)),
                Err(error) => Err(error),
            },
            Err(error) => Err(error),
        }
    }
}

/// A value that can be an item `V` in scope.
pub trait ListItem<V: DeepView>: DeepView + Sized {
    /// The item that stands for a value.
    spec fn stored(value: Self::V) -> V::V;

    /// The value that an item stands for, if it stands for one of this type.
    spec fn read() -> spec_fn(V::V) -> Option<Self::V>;

    /// An item stands for the value that it was made from.
    proof fn read_gives_stored(value: Self::V)
        ensures
            (Self::read())(Self::stored(value)) == Some(value),
    ;

    /// Makes an item.
    fn into_item(self) -> (item: V)
        ensures
            item.deep_view() == Self::stored(self.deep_view()),
    ;

    /// Reads an item.
    fn from_item(item: &V) -> (value: Option<Self>)
        ensures
            value.deep_view() == (Self::read())(item.deep_view()),
    ;
}

impl ListItem<String> for String {
    open spec fn stored(value: Seq<char>) -> Seq<char> {
        value
    }

    open spec fn read() -> spec_fn(Seq<char>) -> Option<Seq<char>> {
        |item: Seq<char>| Some(item)
    }

    proof fn read_gives_stored(value: Seq<char>) {
    }

    fn into_item(self) -> (item: String) {
        self
    }

    fn from_item(item: &String) -> (value: Option<String>) {
        Some(item.clone())
    }
}

/// Stands for the list item with `level` others around it.
#[derive(Clone, Copy, Debug)]
pub struct PropertyPlaceholder {
    pub level: usize,
}

impl<C, V: DeepView, O: ListItem<V>> TemplateProperty<C, V, O> for PropertyPlaceholder {
    open spec fn value(&self) -> PropertyFn<C, V::V, O::V> {
        item_at(self.level as int, O::read())
    }

    fn extract(&self, context: &C, scope: &Scope<'_, V>) -> (result: Result<
        O,
        TemplatePropertyError,
    >) {
        match scope.find(self.level) {
            Ok(item) => match O::from_item(item) {
                Some(value) => Ok(value),
                None => Err(
                    TemplatePropertyError("List item is of another type".to_owned()),
                ),
            },
            Err(_) => Err(TemplatePropertyError("List item is out of scope".to_owned())),
        }
    }
}

}
