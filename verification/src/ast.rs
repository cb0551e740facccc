//! The syntax tree of a template expression.
use vstd::prelude::*;
use vstd::string::*;

verus! {

/// The part `start..end` of the source text, in bytes.
#[derive(Clone, Copy, Debug, PartialEq, Eq, Structural)]
pub struct Span {
    pub start: usize,
    pub end: usize,
}

impl Span {
    /// The empty part of the text at the end of this one.
    pub open spec fn spec_end_span(self) -> Span {
        Span { start: self.end, end: self.end }
    }

    /// The empty part of the text at the end of this one.
    #[verifier::when_used_as_spec(spec_end_span)]
    pub fn end_span(self) -> (span: Span)
        ensures
            span == self.spec_end_span(),
    {
        Span { start: self.end, end: self.end }
    }
}

/// An expression, with its place in the source text.
#[derive(Debug)]
pub struct ExpressionNode<'i> {
    pub kind: ExpressionKind<'i>,
    pub span: Span,
}

/// What an expression is.
#[derive(Debug)]
pub enum ExpressionKind<'i> {
    Identifier(&'i str),
    Boolean(bool),
    Integer(i64),
    String(String),
    Unary(UnaryOp, Box<ExpressionNode<'i>>),
    Binary(BinaryOp, Box<ExpressionNode<'i>>, Box<ExpressionNode<'i>>),
    Concat(Vec<ExpressionNode<'i>>),
    FunctionCall(Box<FunctionCallNode<'i>>),
    MethodCall(Box<MethodCallNode<'i>>),
    Lambda(Box<LambdaNode<'i>>),
    /// An alias and the expression that it stands for.
    AliasExpanded(TemplateAliasId<'i>, Box<ExpressionNode<'i>>),
}

#[derive(Clone, Copy, Debug, PartialEq, Eq, Structural)]
pub enum UnaryOp {
    /// `!`
    LogicalNot,
    /// `-`
    Negate,
}

#[derive(Clone, Copy, Debug, PartialEq, Eq, Structural)]
pub enum BinaryOp {
    /// `||`
    LogicalOr,
    /// `&&`
    LogicalAnd,
}

/// A function or method name with its arguments.
#[derive(Debug)]
pub struct FunctionCallNode<'i> {
    pub name: &'i str,
    pub name_span: Span,
    pub args: Vec<ExpressionNode<'i>>,
    pub args_span: Span,
}

/// A method call on an object.
#[derive(Debug)]
pub struct MethodCallNode<'i> {
    pub object: ExpressionNode<'i>,
    pub function: FunctionCallNode<'i>,
}

/// An anonymous function.
#[derive(Debug)]
pub struct LambdaNode<'i> {
    pub params: Vec<&'i str>,
    pub params_span: Span,
    pub body: ExpressionNode<'i>,
}

/// The name of an alias.
#[derive(Clone, Copy, Debug)]
pub enum TemplateAliasId<'i> {
    Symbol(&'i str),
    Function(&'i str),
}

/// What a [`FunctionCallNode`] says: a name, arguments, and where they stand.
pub struct Call<'i> {
    pub name: Seq<char>,
    pub name_span: Span,
    pub args: Seq<ExpressionNode<'i>>,
    pub args_span: Span,
}

impl<'i> View for FunctionCallNode<'i> {
    type V = Call<'i>;

    open spec fn view(&self) -> Call<'i> {
        Call {
            name: self.name@,
            name_span: self.name_span,
            args: self.args@,
            args_span: self.args_span,
        }
    }
}

impl<'i> TemplateAliasId<'i> {
    /// The alias as messages name it: a function with parentheses behind its name.
    pub open spec fn shown(self) -> Seq<char> {
        match self {
            TemplateAliasId::Symbol(name) => name@,
            TemplateAliasId::Function(name) => name@ + "()"@,
        }
    }

    /// The alias as messages name it.
    pub fn show(&self) -> (text: String)
        ensures
            text@ == self.shown(),
    {
        match *self {
            TemplateAliasId::Symbol(name) => name.to_owned(),
            TemplateAliasId::Function(name) => {
                let mut text = name.to_owned();
                text.append("()");
                text
            },
        }
    }
}

}
