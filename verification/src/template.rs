//! Templates: what is written for a context.
//!
//! The meaning of a template is a function from the context and from the list items in
//! scope to labeled output. An error does not stop the output: it is written in place of
//! the value that there is none of.
use vstd::prelude::*;
use vstd::string::*;

use crate::formatter::{joined, labeled, plain, text_of, FormatRecorder, Output};
use crate::layout::{indented, wrapped, write_indented, write_wrapped};
use crate::property::{
    outcome, BoxedProperty, ListItem, PropertyFn, Scope, TemplateProperty, TemplatePropertyError,
};
use crate::text::{decimal, decimal_of};
use crate::time::{
    default_format, format_absolute_timestamp, timestamp_text, Signature, SignatureView, Timestamp,
    TimestampRange,
};

verus! {

/// What a template for a context `C` writes, with list items `W` in scope.
pub type TemplateFn<C, W> = spec_fn(C, Seq<W>) -> Output;

/// What a list of templates writes, item by item, or the message that says why there is no
/// list.
pub type ListTemplateFn<C, W> = spec_fn(C, Seq<W>) -> Result<Seq<Output>, Seq<char>>;

/// The output that tells of an error.
pub open spec fn error_output(message: Seq<char>) -> Output {
    labeled(seq!["error"@], plain("<Error: "@ + message + ">"@))
}

/// Writes an error.
pub fn write_error(formatter: &mut FormatRecorder, error: &TemplatePropertyError)
    ensures
        final(formatter)@ == old(formatter)@ + error_output(error.0@),
{
    let mut message = "<Error: ".to_owned();
    message.append(error.0.as_str());
    message.append(">");
    let mut labels: Vec<String> = Vec::new();
    labels.push("error".to_owned());
    proof {
        assert(labels.deep_view() =~= seq!["error"@]);
    }
    formatter.push_labels(&labels);
    formatter.write_str(message.as_str());
    formatter.pop_labels(labels.len());
    proof {
        assert(formatter@ =~= old(formatter)@ + error_output(error.0@));
    }
}

/// A value that can be shown.
pub trait Printable: DeepView + Sized {
    /// The output that shows a value.
    spec fn shown() -> spec_fn(Self::V) -> Output;

    /// Shows the value.
    fn print(&self, formatter: &mut FormatRecorder)
        ensures
            final(formatter)@ == old(formatter)@ + (Self::shown())(self.deep_view()),
    ;
}

impl Printable for String {
    open spec fn shown() -> spec_fn(Seq<char>) -> Output {
        |text: Seq<char>| plain(text)
    }

    fn print(&self, formatter: &mut FormatRecorder) {
        formatter.write_str(self.as_str());
    }
}

impl Printable for bool {
    open spec fn shown() -> spec_fn(bool) -> Output {
        |value: bool|
            if value {
                plain("true"@)
            } else {
                plain("false"@)
            }
    }

    fn print(&self, formatter: &mut FormatRecorder) {
        if *self {
            formatter.write_str("true");
        } else {
            formatter.write_str("false");
        }
    }
}

impl Printable for i64 {
    open spec fn shown() -> spec_fn(i64) -> Output {
        |value: i64| plain(decimal_of(value as int))
    }

    fn print(&self, formatter: &mut FormatRecorder) {
        let text = decimal(*self);
        formatter.write_str(text.as_str());
    }
}

/// A list shows its items with a space between each two.
impl<T: Printable> Printable for Vec<T> {
    open spec fn shown() -> spec_fn(Seq<T::V>) -> Output {
        |items: Seq<T::V>| joined(items.map_values(T::shown()), plain(" "@))
    }

    fn print(&self, formatter: &mut FormatRecorder) {
        let ghost outputs = self.deep_view().map_values(T::shown());
        let ghost separator = plain(" "@);
        let mut i: usize = 0;
        while i < self.len()
            invariant
                i <= self@.len(),
                separator == plain(" "@),
                outputs == self.deep_view().map_values(T::shown()),
                formatter@ == old(formatter)@ + joined(outputs.take(i as int), separator),
            decreases self@.len() - i,
        {
            if i > 0 {
                formatter.write_str(" ");
            }
            self[i].print(formatter);
            proof {
                lemma_joined_step(outputs, separator, i as int);
                assert(outputs[i as int] == (T::shown())(self[i as int].deep_view()));
                assert(formatter@ =~= old(formatter)@ + joined(outputs.take(i + 1), separator));
            }
            i += 1;
        }
        proof {
            assert(outputs.take(i as int) =~= outputs);
        }
    }
}

/// What one more item adds to joined output.
pub proof fn lemma_joined_step(outputs: Seq<Output>, separator: Output, n: int)
    requires
        0 <= n < outputs.len(),
    ensures
        joined(outputs.take(n + 1), separator) == if n == 0 {
            outputs[n]
        } else {
            joined(outputs.take(n), separator) + separator + outputs[n]
        },
        joined(outputs.take(0), separator) == Output::empty(),
{
    assert(outputs.take(n + 1).drop_last() =~= outputs.take(n));
}

/// A name and an address, of which either may be missing.
pub open spec fn signature_output(signature: SignatureView) -> Output {
    let name = labeled(seq!["name"@], plain(signature.name));
    if signature.email.len() == 0 {
        name
    } else {
        let gap = if signature.name.len() == 0 {
            plain(""@)
        } else {
            plain(" "@)
        };
        name + gap + plain("<"@) + labeled(seq!["email"@], plain(signature.email)) + plain(">"@)
    }
}

/// Writes `text` inside `label`.
fn write_labeled(formatter: &mut FormatRecorder, label: &str, text: &str)
    ensures
        final(formatter)@ == old(formatter)@ + labeled(seq![label@], plain(text@)),
{
    let mut labels: Vec<String> = Vec::new();
    labels.push(label.to_owned());
    proof {
        assert(labels.deep_view() =~= seq![label@]);
    }
    formatter.push_labels(&labels);
    formatter.write_str(text);
    formatter.pop_labels(labels.len());
    proof {
        assert(formatter@ =~= old(formatter)@ + labeled(seq![label@], plain(text@)));
    }
}

impl Printable for Signature {
    open spec fn shown() -> spec_fn(SignatureView) -> Output {
        |signature: SignatureView| signature_output(signature)
    }

    fn print(&self, formatter: &mut FormatRecorder) {
        write_labeled(formatter, "name", self.name.as_str());
        if !self.email.as_str().is_empty() {
            if self.name.as_str().is_empty() {
                formatter.write_str("");
            } else {
                formatter.write_str(" ");
            }
            formatter.write_str("<");
            write_labeled(formatter, "email", self.email.as_str());
            formatter.write_str(">");
        }
        proof {
            assert(formatter@ =~= old(formatter)@ + signature_output(self.deep_view()));
        }
    }
}

/// A timestamp in the default format.
pub open spec fn timestamp_output(timestamp: Timestamp) -> Output {
    match timestamp_text(timestamp, default_format()) {
        Ok(text) => plain(text),
        Err(message) => error_output(message),
    }
}

impl Printable for Timestamp {
    open spec fn shown() -> spec_fn(Timestamp) -> Output {
        |timestamp: Timestamp| timestamp_output(timestamp)
    }

    fn print(&self, formatter: &mut FormatRecorder) {
        match format_absolute_timestamp(self) {
            Ok(text) => formatter.write_str(text.as_str()),
            Err(error) => write_error(formatter, &error),
        }
    }
}

/// The two ends of a range.
pub open spec fn range_output(range: TimestampRange) -> Output {
    timestamp_output(range.start) + plain(" - "@) + timestamp_output(range.end)
}

impl Printable for TimestampRange {
    open spec fn shown() -> spec_fn(TimestampRange) -> Output {
        |range: TimestampRange| range_output(range)
    }

    fn print(&self, formatter: &mut FormatRecorder) {
        self.start.print(formatter);
        formatter.write_str(" - ");
        self.end.print(formatter);
        proof {
            assert(formatter@ =~= old(formatter)@ + range_output(*self));
        }
    }
}

/// Something that is written for a context `C`.
pub trait Template<C, V: DeepView> {
    /// What is written for each context.
    open spec fn rendered(&self) -> TemplateFn<C, V::V> {
        arbitrary()
    }

    /// Writes it.
    fn format(&self, context: &C, scope: &Scope<'_, V>, formatter: &mut FormatRecorder)
        ensures
            final(formatter)@ == old(formatter)@ + (self.rendered())(*context, scope.view()),
    ;
}

/// A list of which each item is written for a context `C`.
pub trait ListTemplate<C, V: DeepView> {
    /// What is written for each item, in each context.
    open spec fn items(&self) -> ListTemplateFn<C, V::V> {
        arbitrary()
    }

    /// Records what is written for each item.
    fn format_items(&self, context: &C, scope: &Scope<'_, V>) -> (result: Result<
        Vec<FormatRecorder>,
        TemplatePropertyError,
    >)
        ensures
            outcome(result) == (self.items())(*context, scope.view()),
    ;
}

/// Some template.
#[verifier::reject_recursive_types(C)]
#[verifier::reject_recursive_types(V)]
pub struct BoxedTemplate<'a, C, V: DeepView>(pub Box<dyn Template<C, V> + 'a>);

impl<'a, C, V: DeepView> Template<C, V> for BoxedTemplate<'a, C, V> {
    open spec fn rendered(&self) -> TemplateFn<C, V::V> {
        self.0.rendered()
    }

    fn format(&self, context: &C, scope: &Scope<'_, V>, formatter: &mut FormatRecorder) {
        self.0.format(context, scope, formatter);
    }
}

/// Some list of templates.
#[verifier::reject_recursive_types(C)]
#[verifier::reject_recursive_types(V)]
pub struct BoxedListTemplate<'a, C, V: DeepView>(pub Box<dyn ListTemplate<C, V> + 'a>);

impl<'a, C, V: DeepView> ListTemplate<C, V> for BoxedListTemplate<'a, C, V> {
    open spec fn items(&self) -> ListTemplateFn<C, V::V> {
        self.0.items()
    }

    fn format_items(&self, context: &C, scope: &Scope<'_, V>) -> (result: Result<
        Vec<FormatRecorder>,
        TemplatePropertyError,
    >) {
        self.0.format_items(context, scope)
    }
}

/// Records what the template writes.
pub fn record<'a, C, V: DeepView>(
    template: &BoxedTemplate<'a, C, V>,
    context: &C,
    scope: &Scope<'_, V>,
) -> (recorder: FormatRecorder)
    ensures
        recorder@ == (template.rendered())(*context, scope.view()),
{
    let mut recorder = FormatRecorder::new();
    template.format(context, scope, &mut recorder);
    proof {
        assert(recorder@ =~= (template.rendered())(*context, scope.view()));
    }
    recorder
}

/// `text` in each context.
pub open spec fn text_template<C, W>(text: Seq<char>) -> TemplateFn<C, W> {
    |context: C, scope: Seq<W>| plain(text)
}

/// The value of `property` as `shown` shows it.
pub open spec fn shown_value<C, W, T>(
    property: PropertyFn<C, W, T>,
    shown: spec_fn(T) -> Output,
) -> TemplateFn<C, W> {
    |context: C, scope: Seq<W>|
        match property(context, scope) {
            Ok(value) => shown(value),
            Err(message) => error_output(message),
        }
}

/// `content` inside the labels that `labels` gives.
pub open spec fn labeled_by<C, W>(
    content: TemplateFn<C, W>,
    labels: PropertyFn<C, W, Seq<Seq<char>>>,
) -> TemplateFn<C, W> {
    |context: C, scope: Seq<W>|
        match labels(context, scope) {
            Ok(labels) => labeled(labels, content(context, scope)),
            Err(message) => error_output(message),
        }
}

/// What each of `contents` writes.
pub open spec fn each_rendered<C, W>(
    contents: Seq<TemplateFn<C, W>>,
    context: C,
    scope: Seq<W>,
) -> Seq<Output> {
    contents.map_values(|content: TemplateFn<C, W>| content(context, scope))
}

/// `contents` one behind the other.
pub open spec fn concatenated<C, W>(contents: Seq<TemplateFn<C, W>>) -> TemplateFn<C, W> {
    |context: C, scope: Seq<W>|
        joined(each_rendered(contents, context, scope), Output::empty())
}

/// Those of `contents` that hold text, with `separator` between each two.
pub open spec fn separated<C, W>(
    separator: TemplateFn<C, W>,
    contents: Seq<TemplateFn<C, W>>,
) -> TemplateFn<C, W> {
    |context: C, scope: Seq<W>|
        joined(
            each_rendered(contents, context, scope).filter(
                |output: Output| has_text(output),
            ),
            separator(context, scope),
        )
}

/// Whether `output` holds text.
pub open spec fn has_text(output: Output) -> bool {
    text_of(output).len() > 0
}

/// One of two templates, or nothing in place of the second.
pub open spec fn conditional<C, W>(
    condition: PropertyFn<C, W, bool>,
    true_template: TemplateFn<C, W>,
    false_template: Option<TemplateFn<C, W>>,
) -> TemplateFn<C, W> {
    |context: C, scope: Seq<W>|
        match condition(context, scope) {
            Ok(true) => true_template(context, scope),
            Ok(false) => match false_template {
                Some(template) => template(context, scope),
                None => Output::empty(),
            },
            Err(message) => error_output(message),
        }
}

/// `content` wrapped to a width.
pub open spec fn filled<C, W>(
    width: PropertyFn<C, W, usize>,
    content: TemplateFn<C, W>,
) -> TemplateFn<C, W> {
    |context: C, scope: Seq<W>|
        match width(context, scope) {
            Ok(width) => wrapped(content(context, scope), width as int),
            Err(message) => error_output(message),
        }
}

/// `content` with `prefix` before each of its lines.
pub open spec fn indented_by<C, W>(
    prefix: TemplateFn<C, W>,
    content: TemplateFn<C, W>,
) -> TemplateFn<C, W> {
    |context: C, scope: Seq<W>| indented(content(context, scope), prefix(context, scope))
}

/// `content` between `prefix` and `suffix`, or nothing if it holds no text.
pub open spec fn surrounded<C, W>(
    prefix: TemplateFn<C, W>,
    suffix: TemplateFn<C, W>,
    content: TemplateFn<C, W>,
) -> TemplateFn<C, W> {
    |context: C, scope: Seq<W>|
        if has_text(content(context, scope)) {
            prefix(context, scope) + content(context, scope) + suffix(context, scope)
        } else {
            Output::empty()
        }
}

/// The text that `template` writes, without its labels.
pub open spec fn plain_text<C, W>(template: TemplateFn<C, W>) -> PropertyFn<C, W, Seq<char>> {
    |context: C, scope: Seq<W>| Ok(text_of(template(context, scope)))
}

/// The items of a list as `shown` shows them.
pub open spec fn shown_items<C, W, T>(
    list: PropertyFn<C, W, Seq<T>>,
    shown: spec_fn(T) -> Output,
) -> ListTemplateFn<C, W> {
    |context: C, scope: Seq<W>|
        match list(context, scope) {
            Ok(items) => Ok(items.map_values(shown)),
            Err(message) => Err(message),
        }
}

/// `template` for each item of a list. The item is in scope inside the others.
pub open spec fn template_for_each<C, W, T>(
    list: PropertyFn<C, W, Seq<T>>,
    stored: spec_fn(T) -> W,
    template: TemplateFn<C, W>,
) -> ListTemplateFn<C, W> {
    |context: C, scope: Seq<W>|
        match list(context, scope) {
            Ok(items) => Ok(
                items.map_values(|item: T| template(context, scope.push(stored(item)))),
            ),
            Err(message) => Err(message),
        }
}

/// The items of a list with `separator` between each two.
pub open spec fn joined_list<C, W>(
    list: ListTemplateFn<C, W>,
    separator: TemplateFn<C, W>,
) -> TemplateFn<C, W> {
    |context: C, scope: Seq<W>|
        match list(context, scope) {
            Ok(outputs) => joined(outputs, separator(context, scope)),
            Err(message) => error_output(message),
        }
}

/// Writes the same text in each context.
pub struct TextTemplate(pub String);

impl<C, V: DeepView> Template<C, V> for TextTemplate {
    open spec fn rendered(&self) -> TemplateFn<C, V::V> {
        text_template(self.0@)
    }

    fn format(&self, context: &C, scope: &Scope<'_, V>, formatter: &mut FormatRecorder) {
        formatter.write_str(self.0.as_str());
    }
}

/// Shows the value of a property.
#[verifier::reject_recursive_types(C)]
#[verifier::reject_recursive_types(V)]
#[verifier::reject_recursive_types(O)]
pub struct PropertyTemplate<'a, C, V: DeepView, O: DeepView> {
    pub property: BoxedProperty<'a, C, V, O>,
}

impl<'a, C, V: DeepView, O: Printable> Template<C, V> for PropertyTemplate<'a, C, V, O> {
    open spec fn rendered(&self) -> TemplateFn<C, V::V> {
        shown_value(self.property.value(), O::shown())
    }

    fn format(&self, context: &C, scope: &Scope<'_, V>, formatter: &mut FormatRecorder) {
        match self.property.extract(context, scope) {
            Ok(value) => value.print(formatter),
            Err(error) => write_error(formatter, &error),
        }
    }
}

/// Writes a template inside labels.
#[verifier::reject_recursive_types(C)]
#[verifier::reject_recursive_types(V)]
pub struct LabelTemplate<'a, C, V: DeepView> {
    pub content: BoxedTemplate<'a, C, V>,
    pub labels: BoxedProperty<'a, C, V, Vec<String>>,
}

impl<'a, C, V: DeepView> Template<C, V> for LabelTemplate<'a, C, V> {
    open spec fn rendered(&self) -> TemplateFn<C, V::V> {
        labeled_by(self.content.rendered(), self.labels.value())
    }

    fn format(&self, context: &C, scope: &Scope<'_, V>, formatter: &mut FormatRecorder) {
        match self.labels.extract(context, scope) {
            Ok(labels) => {
                formatter.push_labels(&labels);
                self.content.format(context, scope, formatter);
                formatter.pop_labels(labels.len());
                proof {
                    assert(formatter@ =~= old(formatter)@ + labeled(
                        labels.deep_view(),
                        (self.content.rendered())(*context, scope.view()),
                    ));
                }
            },
            Err(error) => write_error(formatter, &error),
        }
    }
}

/// What each of some templates means.
pub open spec fn meanings<'a, C, V: DeepView>(
    templates: Seq<BoxedTemplate<'a, C, V>>,
) -> Seq<TemplateFn<C, V::V>> {
    Seq::new(templates.len(), |i: int| templates[i].rendered())
}

/// Writes templates one behind the other.
#[verifier::reject_recursive_types(C)]
#[verifier::reject_recursive_types(V)]
pub struct ConcatTemplate<'a, C, V: DeepView>(pub Vec<BoxedTemplate<'a, C, V>>);

impl<'a, C, V: DeepView> Template<C, V> for ConcatTemplate<'a, C, V> {
    open spec fn rendered(&self) -> TemplateFn<C, V::V> {
        concatenated(meanings(self.0@))
    }

    fn format(&self, context: &C, scope: &Scope<'_, V>, formatter: &mut FormatRecorder) {
        let ghost outputs = each_rendered(meanings(self.0@), *context, scope.view());
        let mut i: usize = 0;
        while i < self.0.len()
            invariant
                i <= self.0@.len(),
                outputs == each_rendered(meanings(self.0@), *context, scope.view()),
                formatter@ == old(formatter)@ + joined(outputs.take(i as int), Output::empty()),
            decreases self.0@.len() - i,
        {
            self.0[i].format(context, scope, formatter);
            proof {
                lemma_joined_step(outputs, Output::empty(), i as int);
                assert(outputs[i as int] == (self.0@[i as int].rendered())(
                    *context,
                    scope.view(),
                ));
                assert(formatter@ =~= old(formatter)@ + joined(
                    outputs.take(i + 1),
                    Output::empty(),
                ));
            }
            i += 1;
        }
        proof {
            assert(outputs.take(i as int) =~= outputs);
        }
    }
}

/// Writes those templates that hold text, with a separator between each two.
#[verifier::reject_recursive_types(C)]
#[verifier::reject_recursive_types(V)]
pub struct SeparateTemplate<'a, C, V: DeepView> {
    pub separator: BoxedTemplate<'a, C, V>,
    pub contents: Vec<BoxedTemplate<'a, C, V>>,
}

impl<'a, C, V: DeepView> Template<C, V> for SeparateTemplate<'a, C, V> {
    open spec fn rendered(&self) -> TemplateFn<C, V::V> {
        separated(self.separator.rendered(), meanings(self.contents@))
    }

    fn format(&self, context: &C, scope: &Scope<'_, V>, formatter: &mut FormatRecorder) {
        let ghost outputs = each_rendered(meanings(self.contents@), *context, scope.view());
        let ghost texts = |output: Output| has_text(output);
        let ghost separator = (self.separator.rendered())(*context, scope.view());
        let mut started = false;
        let mut i: usize = 0;
        while i < self.contents.len()
            invariant
                i <= self.contents@.len(),
                outputs == each_rendered(meanings(self.contents@), *context, scope.view()),
                texts == (|output: Output| has_text(output)),
                separator == (self.separator.rendered())(*context, scope.view()),
                started == (outputs.take(i as int).filter(texts).len() > 0),
                formatter@ == old(formatter)@ + joined(
                    outputs.take(i as int).filter(texts),
                    separator,
                ),
            decreases self.contents@.len() - i,
        {
            let recorder = record(&self.contents[i], context, scope);
            let blank = recorder.is_blank();
            proof {
                lemma_filter_step(outputs, texts, i as int);
                assert(outputs[i as int] == recorder@);
            }
            if !blank {
                if started {
                    self.separator.format(context, scope, formatter);
                }
                started = true;
                recorder.replay(formatter);
                proof {
                    let before = outputs.take(i as int).filter(texts);
                    assert(before.push(recorder@).drop_last() =~= before);
                    assert(formatter@ =~= old(formatter)@ + joined(
                        before.push(recorder@),
                        separator,
                    ));
                }
            }
            i += 1;
        }
        proof {
            assert(outputs.take(i as int) =~= outputs);
        }
    }
}

/// What one more item adds to what a filter keeps.
proof fn lemma_filter_step<A>(items: Seq<A>, keep: spec_fn(A) -> bool, n: int)
    requires
        0 <= n < items.len(),
    ensures
        items.take(n + 1).filter(keep) == if keep(items[n]) {
            items.take(n).filter(keep).push(items[n])
        } else {
            items.take(n).filter(keep)
        },
{
    reveal(Seq::filter);
    assert(items.take(n + 1).drop_last() =~= items.take(n));
}

/// Writes one of two templates.
#[verifier::reject_recursive_types(C)]
#[verifier::reject_recursive_types(V)]
pub struct ConditionalTemplate<'a, C, V: DeepView> {
    pub condition: BoxedProperty<'a, C, V, bool>,
    pub true_template: BoxedTemplate<'a, C, V>,
    pub false_template: Option<BoxedTemplate<'a, C, V>>,
}

impl<'a, C, V: DeepView> Template<C, V> for ConditionalTemplate<'a, C, V> {
    open spec fn rendered(&self) -> TemplateFn<C, V::V> {
        conditional(
            self.condition.value(),
            self.true_template.rendered(),
            match self.false_template {
                Some(template) => Some(template.rendered()),
                None => None,
            },
        )
    }

    fn format(&self, context: &C, scope: &Scope<'_, V>, formatter: &mut FormatRecorder) {
        match self.condition.extract(context, scope) {
            Ok(true) => self.true_template.format(context, scope, formatter),
            Ok(false) => match &self.false_template {
                Some(template) => template.format(context, scope, formatter),
                None => {
                    proof {
                        assert(formatter@ =~= formatter@ + Output::empty());
                    }
                },
            },
            Err(error) => write_error(formatter, &error),
        }
    }
}

/// Wraps a template to a width.
#[verifier::reject_recursive_types(C)]
#[verifier::reject_recursive_types(V)]
pub struct FillTemplate<'a, C, V: DeepView> {
    pub width: BoxedProperty<'a, C, V, usize>,
    pub content: BoxedTemplate<'a, C, V>,
}

impl<'a, C, V: DeepView> Template<C, V> for FillTemplate<'a, C, V> {
    open spec fn rendered(&self) -> TemplateFn<C, V::V> {
        filled(self.width.value(), self.content.rendered())
    }

    fn format(&self, context: &C, scope: &Scope<'_, V>, formatter: &mut FormatRecorder) {
        let recorder = record(&self.content, context, scope);
        match self.width.extract(context, scope) {
            Ok(width) => write_wrapped(formatter, &recorder, width),
            Err(error) => write_error(formatter, &error),
        }
    }
}

/// Writes a prefix before each line of a template.
#[verifier::reject_recursive_types(C)]
#[verifier::reject_recursive_types(V)]
pub struct IndentTemplate<'a, C, V: DeepView> {
    pub prefix: BoxedTemplate<'a, C, V>,
    pub content: BoxedTemplate<'a, C, V>,
}

impl<'a, C, V: DeepView> Template<C, V> for IndentTemplate<'a, C, V> {
    open spec fn rendered(&self) -> TemplateFn<C, V::V> {
        indented_by(self.prefix.rendered(), self.content.rendered())
    }

    fn format(&self, context: &C, scope: &Scope<'_, V>, formatter: &mut FormatRecorder) {
        let recorder = record(&self.content, context, scope);
        let prefix = record(&self.prefix, context, scope);
        write_indented(formatter, &recorder, &prefix);
    }
}

/// Writes something before and behind a template that holds text.
#[verifier::reject_recursive_types(C)]
#[verifier::reject_recursive_types(V)]
pub struct SurroundTemplate<'a, C, V: DeepView> {
    pub prefix: BoxedTemplate<'a, C, V>,
    pub suffix: BoxedTemplate<'a, C, V>,
    pub content: BoxedTemplate<'a, C, V>,
}

impl<'a, C, V: DeepView> Template<C, V> for SurroundTemplate<'a, C, V> {
    open spec fn rendered(&self) -> TemplateFn<C, V::V> {
        surrounded(self.prefix.rendered(), self.suffix.rendered(), self.content.rendered())
    }

    fn format(&self, context: &C, scope: &Scope<'_, V>, formatter: &mut FormatRecorder) {
        let recorder = record(&self.content, context, scope);
        if !recorder.is_blank() {
            self.prefix.format(context, scope, formatter);
            recorder.replay(formatter);
            self.suffix.format(context, scope, formatter);
        }
        proof {
            assert(formatter@ =~= old(formatter)@ + (self.rendered())(*context, scope.view()));
        }
    }
}

/// The text that a template writes, as a property.
#[verifier::reject_recursive_types(C)]
#[verifier::reject_recursive_types(V)]
pub struct PlainTextFormattedProperty<'a, C, V: DeepView> {
    pub template: BoxedTemplate<'a, C, V>,
}

impl<'a, C, V: DeepView> TemplateProperty<C, V, String> for PlainTextFormattedProperty<'a, C, V> {
    open spec fn value(&self) -> PropertyFn<C, V::V, Seq<char>> {
        plain_text(self.template.rendered())
    }

    fn extract(&self, context: &C, scope: &Scope<'_, V>) -> (result: Result<
        String,
        TemplatePropertyError,
    >) {
        let recorder = record(&self.template, context, scope);
        Ok(recorder.text())
    }
}

/// The items of a list, each as it is shown.
#[verifier::reject_recursive_types(C)]
#[verifier::reject_recursive_types(V)]
#[verifier::reject_recursive_types(O)]
pub struct ListPropertyTemplate<'a, C, V: DeepView, O: DeepView> {
    pub property: BoxedProperty<'a, C, V, Vec<O>>,
}

impl<'a, C, V: DeepView, O: Printable> ListTemplate<C, V> for ListPropertyTemplate<'a, C, V, O> {
    open spec fn items(&self) -> ListTemplateFn<C, V::V> {
        shown_items(self.property.value(), O::shown())
    }

    fn format_items(&self, context: &C, scope: &Scope<'_, V>) -> (result: Result<
        Vec<FormatRecorder>,
        TemplatePropertyError,
    >) {
        match self.property.extract(context, scope) {
            Ok(items) => {
                let ghost outputs = items.deep_view().map_values(O::shown());
                let mut recorders: Vec<FormatRecorder> = Vec::new();
                let mut i: usize = 0;
                while i < items.len()
                    invariant
                        i <= items@.len(),
                        outputs == items.deep_view().map_values(O::shown()),
                        recorders.deep_view() =~= outputs.take(i as int),
                    decreases items@.len() - i,
                {
                    let mut recorder = FormatRecorder::new();
                    items[i].print(&mut recorder);
                    let ghost before = recorders.deep_view();
                    proof {
                        assert(recorder@ =~= outputs[i as int]);
                    }
                    recorders.push(recorder);
                    proof {
                        assert(recorders.deep_view() =~= before.push(outputs[i as int]));
                    }
                    i += 1;
                }
                proof {
                    assert(outputs.take(i as int) =~= outputs);
                }
                Ok(recorders)
            },
            Err(error) => Err(error),
        }
    }
}

/// The items of a list, with a template written for each.
#[verifier::reject_recursive_types(C)]
#[verifier::reject_recursive_types(V)]
#[verifier::reject_recursive_types(O)]
pub struct MappedListTemplate<'a, C, V: DeepView, O: DeepView> {
    pub property: BoxedProperty<'a, C, V, Vec<O>>,
    pub template: BoxedTemplate<'a, C, V>,
}

/// The item that stands for a value.
pub open spec fn stored_item<V: DeepView, O: ListItem<V>>() -> spec_fn(O::V) -> V::V {
    |value: O::V| O::stored(value)
}

impl<'a, C, V: DeepView, O: ListItem<V>> ListTemplate<C, V> for MappedListTemplate<'a, C, V, O> {
    open spec fn items(&self) -> ListTemplateFn<C, V::V> {
        template_for_each(self.property.value(), stored_item::<V, O>(), self.template.rendered())
    }

    fn format_items(&self, context: &C, scope: &Scope<'_, V>) -> (result: Result<
        Vec<FormatRecorder>,
        TemplatePropertyError,
    >) {
        match self.property.extract(context, scope) {
            Ok(items) => {
                let ghost values = items.deep_view();
                let ghost template = self.template.rendered();
                let ghost stored = stored_item::<V, O>();
                let ghost outputs = values.map_values(
                    |item: O::V| template(*context, scope.view().push(stored(item))),
                );
                let mut recorders: Vec<FormatRecorder> = Vec::new();
                for item in it: items
                    invariant
                        it.seq() == items@,
                        values == items.deep_view(),
                        template == self.template.rendered(),
                        stored == stored_item::<V, O>(),
                        outputs == values.map_values(
                            |item: O::V| template(*context, scope.view().push(stored(item))),
                        ),
                        recorders.deep_view() =~= outputs.take(it.index() as int),
                {
                    let ghost value = item.deep_view();
                    let ghost n = it.index() as int;
                    let item = item.into_item();
                    let inner = Scope::Item { item: &item, outer: scope };
                    let recorder = record(&self.template, context, &inner);
                    let ghost before = recorders.deep_view();
                    proof {
                        assert(value == values[n]);
                        assert(recorder@ == outputs[n]);
                    }
                    recorders.push(recorder);
                    proof {
                        assert(recorders.deep_view() =~= before.push(outputs[n]));
                    }
                }
                proof {
                    assert(outputs.take(values.len() as int) =~= outputs);
                }
                Ok(recorders)
            },
            Err(error) => Err(error),
        }
    }
}

/// Writes a list with a separator between each two items.
#[verifier::reject_recursive_types(C)]
#[verifier::reject_recursive_types(V)]
pub struct JoinTemplate<'a, C, V: DeepView> {
    pub list: BoxedListTemplate<'a, C, V>,
    pub separator: BoxedTemplate<'a, C, V>,
}

impl<'a, C, V: DeepView> Template<C, V> for JoinTemplate<'a, C, V> {
    open spec fn rendered(&self) -> TemplateFn<C, V::V> {
        joined_list(self.list.items(), self.separator.rendered())
    }

    fn format(&self, context: &C, scope: &Scope<'_, V>, formatter: &mut FormatRecorder) {
        match self.list.format_items(context, scope) {
            Ok(recorders) => {
                let ghost outputs = recorders.deep_view();
                let ghost separator = (self.separator.rendered())(*context, scope.view());
                let mut i: usize = 0;
                while i < recorders.len()
                    invariant
                        i <= recorders@.len(),
                        outputs == recorders.deep_view(),
                        separator == (self.separator.rendered())(*context, scope.view()),
                        formatter@ == old(formatter)@ + joined(
                            outputs.take(i as int),
                            separator,
                        ),
                    decreases recorders@.len() - i,
                {
                    if i > 0 {
                        self.separator.format(context, scope, formatter);
                    }
                    recorders[i].replay(formatter);
                    proof {
                        lemma_joined_step(outputs, separator, i as int);
                        assert(formatter@ =~= old(formatter)@ + joined(
                            outputs.take(i + 1),
                            separator,
                        ));
                    }
                    i += 1;
                }
                proof {
                    assert(outputs.take(i as int) =~= outputs);
                }
            },
            Err(error) => write_error(formatter, &error),
        }
    }
}

}
