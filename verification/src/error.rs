//! What is wrong with a template expression.
use vstd::prelude::*;
use vstd::string::*;

use crate::ast::{Call, FunctionCallNode, Span, TemplateAliasId};
use crate::text::same_text;

verus! {

/// An error found in a template expression, with the place where it was found.
#[derive(Debug)]
pub struct TemplateParseError {
    pub kind: TemplateParseErrorKind,
    pub span: Span,
    /// The error inside the expansion, where this one tells of an alias.
    pub origin: Option<Box<TemplateParseError>>,
}

/// The kinds of errors.
#[derive(Debug)]
pub enum TemplateParseErrorKind {
    /// There is no keyword of that name, but there are the candidates.
    NoSuchKeyword { name: String, candidates: Vec<String> },
    /// There is no function of that name.
    NoSuchFunction { name: String },
    /// The type has no method of that name, but it has the candidates.
    NoSuchMethod { type_of_object: String, name: String, candidates: Vec<String> },
    /// The function does not take these arguments.
    InvalidArguments { name: String, message: String },
    /// The expression cannot stand here.
    UnexpectedExpression(String),
    /// What the alias stands for has an error.
    BadAliasExpansion(String),
}

/// The result of building something from an expression.
pub type TemplateParseResult<T> = Result<T, TemplateParseError>;

/// What a [`TemplateParseError`] says.
pub struct ParseError {
    pub kind: ParseErrorKind,
    pub span: Span,
    pub origin: Option<Box<ParseError>>,
}

/// What a [`TemplateParseErrorKind`] says.
pub enum ParseErrorKind {
    NoSuchKeyword { name: Seq<char>, candidates: Seq<Seq<char>> },
    NoSuchFunction { name: Seq<char> },
    NoSuchMethod { type_of_object: Seq<char>, name: Seq<char>, candidates: Seq<Seq<char>> },
    InvalidArguments { name: Seq<char>, message: Seq<char> },
    UnexpectedExpression(Seq<char>),
    BadAliasExpansion(Seq<char>),
}

impl TemplateParseErrorKind {
    pub open spec fn view(&self) -> ParseErrorKind {
        match self {
            TemplateParseErrorKind::NoSuchKeyword {
                name,
                candidates,
            } => ParseErrorKind::NoSuchKeyword {
                name: name@,
                candidates: candidates.deep_view(),
            },
            TemplateParseErrorKind::NoSuchFunction { name } => ParseErrorKind::NoSuchFunction {
                name: name@,
            },
            TemplateParseErrorKind::NoSuchMethod {
                type_of_object,
                name,
                candidates,
            } => ParseErrorKind::NoSuchMethod {
                type_of_object: type_of_object@,
                name: name@,
                candidates: candidates.deep_view(),
            },
            TemplateParseErrorKind::InvalidArguments {
                name,
                message,
            } => ParseErrorKind::InvalidArguments { name: name@, message: message@ },
            TemplateParseErrorKind::UnexpectedExpression(
                message,
            ) => ParseErrorKind::UnexpectedExpression(message@),
            TemplateParseErrorKind::BadAliasExpansion(id) => ParseErrorKind::BadAliasExpansion(
                id@,
            ),
        }
    }
}

impl TemplateParseError {
    pub open spec fn view(&self) -> ParseError
        decreases self,
    {
        ParseError {
            kind: self.kind.view(),
            span: self.span,
            origin: match self.origin {
                Some(origin) => Some(Box::new((*origin).view())),
                None => None,
            },
        }
    }
}

impl ParseErrorKind {
    /// The message that tells of an error of this kind.
    pub open spec fn message(self) -> Seq<char> {
        match self {
            ParseErrorKind::NoSuchKeyword { name, .. } => "Keyword \""@ + name
                + "\" doesn't exist"@,
            ParseErrorKind::NoSuchFunction { name } => "Function \""@ + name
                + "\" doesn't exist"@,
            ParseErrorKind::NoSuchMethod { type_of_object, name, .. } => "Method \""@ + name
                + "\" doesn't exist for type \""@ + type_of_object + "\""@,
            ParseErrorKind::InvalidArguments { name, message } => "Function \""@ + name + "\": "@
                + message,
            ParseErrorKind::UnexpectedExpression(message) => message,
            ParseErrorKind::BadAliasExpansion(id) => "Alias \""@ + id + "\" cannot be expanded"@,
        }
    }
}

impl ParseError {
    /// An error of the given kind that has no other behind it.
    pub open spec fn at(kind: ParseErrorKind, span: Span) -> ParseError {
        ParseError { kind, span, origin: None }
    }

    /// The expression at `span` cannot stand there.
    pub open spec fn unexpected(message: Seq<char>, span: Span) -> ParseError {
        ParseError::at(ParseErrorKind::UnexpectedExpression(message), span)
    }

    /// The expression at `span` is not of the type that is needed there.
    pub open spec fn expected_type(type_of_object: Seq<char>, span: Span) -> ParseError {
        ParseError::unexpected("Expected expression of type \""@ + type_of_object + "\""@, span)
    }

    /// The type has no method of the name that is called.
    pub open spec fn no_such_method(
        type_of_object: Seq<char>,
        call: Call<'_>,
        candidates: Seq<Seq<char>>,
    ) -> ParseError {
        ParseError::at(
            ParseErrorKind::NoSuchMethod { type_of_object, name: call.name, candidates },
            call.name_span,
        )
    }

    /// There is no function of the name that is called.
    pub open spec fn no_such_function(call: Call<'_>) -> ParseError {
        ParseError::at(ParseErrorKind::NoSuchFunction { name: call.name }, call.name_span)
    }

    /// The function does not take the arguments that are given.
    pub open spec fn invalid_arguments(call: Call<'_>, message: Seq<char>) -> ParseError {
        ParseError::at(
            ParseErrorKind::InvalidArguments { name: call.name, message },
            call.args_span,
        )
    }

    /// This error, found in what the alias at `span` stands for.
    pub open spec fn within_alias_expansion(
        self,
        id: TemplateAliasId<'_>,
        span: Span,
    ) -> ParseError {
        ParseError {
            kind: ParseErrorKind::BadAliasExpansion(id.shown()),
            span,
            origin: Some(Box::new(self)),
        }
    }

    /// This error, with `names` among the candidates if it tells of a missing keyword.
    pub open spec fn with_keyword_candidates(self, names: Seq<Seq<char>>) -> ParseError {
        match self.kind {
            ParseErrorKind::NoSuchKeyword { name, candidates } => ParseError {
                kind: ParseErrorKind::NoSuchKeyword {
                    name,
                    candidates: with_names(candidates, names),
                },
                ..self
            },
            _ => self,
        }
    }
}

/// `list` with those of `names` behind it that it does not hold, each once.
pub open spec fn with_names(list: Seq<Seq<char>>, names: Seq<Seq<char>>) -> Seq<Seq<char>>
    decreases names.len(),
{
    if names.len() == 0 {
        list
    } else {
        let before = with_names(list, names.drop_last());
        if before.contains(names.last()) {
            before
        } else {
            before.push(names.last())
        }
    }
}

/// Whether `names` holds `name`.
pub fn has_name(names: &Vec<String>, name: &str) -> (found: bool)
    ensures
        found == names.deep_view().contains(name@),
{
    let mut i: usize = 0;
    while i < names.len()
        invariant
            i <= names@.len(),
            forall|j: int| 0 <= j < i ==> names.deep_view()[j] != name@,
        decreases names@.len() - i,
    {
        if same_text(names[i].as_str(), name) {
            assert(names.deep_view()[i as int] == name@);
            return true;
        }
        i += 1;
    }
    false
}

impl TemplateParseError {
    /// An error of the given kind at `span`.
    pub fn with_span(kind: TemplateParseErrorKind, span: Span) -> (error: TemplateParseError)
        ensures
            error.view() == ParseError::at(kind.view(), span),
    {
        TemplateParseError { kind, span, origin: None }
    }

    /// The expression at `span` cannot stand there.
    pub fn unexpected_expression(message: &str, span: Span) -> (error: TemplateParseError)
        ensures
            error.view() == ParseError::unexpected(message@, span),
    {
        TemplateParseError::with_span(
            TemplateParseErrorKind::UnexpectedExpression(message.to_owned()),
            span,
        )
    }

    /// The expression at `span` is not of the type that is needed there.
    pub fn expected_type(type_of_object: &str, span: Span) -> (error: TemplateParseError)
        ensures
            error.view() == ParseError::expected_type(type_of_object@, span),
    {
        let mut message = "Expected expression of type \"".to_owned();
        message.append(type_of_object);
        message.append("\"");
        TemplateParseError::with_span(TemplateParseErrorKind::UnexpectedExpression(message), span)
    }

    /// The type has no method of the name that is called.
    pub fn no_such_method(type_of_object: &str, function: &FunctionCallNode<'_>) -> (error:
        TemplateParseError)
        ensures
            error.view() == ParseError::no_such_method(type_of_object@, function@, Seq::empty()),
    {
        let candidates: Vec<String> = Vec::new();
        proof {
            assert(candidates.deep_view() =~= Seq::empty());
        }
        TemplateParseError::no_such_method_among(type_of_object, function, candidates)
    }

    /// The type has no method of the name that is called, but it has the candidates.
    pub fn no_such_method_among(
        type_of_object: &str,
        function: &FunctionCallNode<'_>,
        candidates: Vec<String>,
    ) -> (error: TemplateParseError)
        ensures
            error.view() == ParseError::no_such_method(
                type_of_object@,
                function@,
                candidates.deep_view(),
            ),
    {
        TemplateParseError::with_span(
            TemplateParseErrorKind::NoSuchMethod {
                type_of_object: type_of_object.to_owned(),
                name: function.name.to_owned(),
                candidates,
            },
            function.name_span,
        )
    }

    /// There is no function of the name that is called.
    pub fn no_such_function(function: &FunctionCallNode<'_>) -> (error: TemplateParseError)
        ensures
            error.view() == ParseError::no_such_function(function@),
    {
        TemplateParseError::with_span(
            TemplateParseErrorKind::NoSuchFunction { name: function.name.to_owned() },
            function.name_span,
        )
    }

    /// The function does not take the arguments that are given.
    pub fn invalid_arguments(function: &FunctionCallNode<'_>, message: &str) -> (error:
        TemplateParseError)
        ensures
            error.view() == ParseError::invalid_arguments(function@, message@),
    {
        TemplateParseError::with_span(
            TemplateParseErrorKind::InvalidArguments {
                name: function.name.to_owned(),
                message: message.to_owned(),
            },
            function.args_span,
        )
    }

    /// This error, found in what the alias at `span` stands for.
    pub fn within_alias_expansion(self, id: TemplateAliasId<'_>, span: Span) -> (error:
        TemplateParseError)
        ensures
            error.view() == self.view().within_alias_expansion(id, span),
    {
        TemplateParseError {
            kind: TemplateParseErrorKind::BadAliasExpansion(id.show()),
            span,
            origin: Some(Box::new(self)),
        }
    }

    /// Adds `names` to the candidates if this error tells of a missing keyword.
    pub fn extend_keyword_candidates(self, names: Vec<String>) -> (error: TemplateParseError)
        ensures
            error.view() == self.view().with_keyword_candidates(names.deep_view()),
    {
        match self.kind {
            TemplateParseErrorKind::NoSuchKeyword { name, candidates } => {
                let mut list = candidates;
                let mut i: usize = 0;
                while i < names.len()
                    invariant
                        i <= names@.len(),
                        list.deep_view() == with_names(
                            candidates.deep_view(),
                            names.deep_view().take(i as int),
                        ),
                    decreases names@.len() - i,
                {
                    let ghost before = list.deep_view();
                    if !has_name(&list, names[i].as_str()) {
                        list.push(names[i].clone());
                        proof {
                            assert(list.deep_view() =~= before.push(names.deep_view()[i as int]));
                        }
                    }
                    proof {
                        assert(names.deep_view().take(i + 1).drop_last()
                            =~= names.deep_view().take(i as int));
                    }
                    i += 1;
                }
                proof {
                    assert(names.deep_view().take(i as int) =~= names.deep_view());
                }
                TemplateParseError {
                    kind: TemplateParseErrorKind::NoSuchKeyword { name, candidates: list },
                    span: self.span,
                    origin: self.origin,
                }
            },
            kind => TemplateParseError { kind, span: self.span, origin: self.origin },
        }
    }

    /// The message that tells of this error.
    pub fn message(&self) -> (message: String)
        ensures
            message@ == self.view().kind.message(),
    {
        match &self.kind {
            TemplateParseErrorKind::NoSuchKeyword { name, .. } => {
                let mut message = "Keyword \"".to_owned();
                message.append(name.as_str());
                message.append("\" doesn't exist");
                message
            },
            TemplateParseErrorKind::NoSuchFunction { name } => {
                let mut message = "Function \"".to_owned();
                message.append(name.as_str());
                message.append("\" doesn't exist");
                message
            },
            TemplateParseErrorKind::NoSuchMethod { type_of_object, name, .. } => {
                let mut message = "Method \"".to_owned();
                message.append(name.as_str());
                message.append("\" doesn't exist for type \"");
                message.append(type_of_object.as_str());
                message.append("\"");
                message
            },
            TemplateParseErrorKind::InvalidArguments { name, message: detail } => {
                let mut message = "Function \"".to_owned();
                message.append(name.as_str());
                message.append("\": ");
                message.append(detail.as_str());
                message
            },
            TemplateParseErrorKind::UnexpectedExpression(message) => message.clone(),
            TemplateParseErrorKind::BadAliasExpansion(id) => {
                let mut message = "Alias \"".to_owned();
                message.append(id.as_str());
                message.append("\" cannot be expanded");
                message
            },
        }
    }
}

}
