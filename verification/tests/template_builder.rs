//! Templates from their source text to their output.
use std::collections::HashMap;

use template_builder::arguments::expect_no_arguments;
use template_builder::ast::{
    BinaryOp, ExpressionKind, ExpressionNode, FunctionCallNode, LambdaNode, MethodCallNode, Span,
    TemplateAliasId, UnaryOp,
};
use template_builder::builder::{
    build, build_at, build_expression, expect_boolean_expression, expect_integer_expression,
    expect_isize_expression, expect_plain_text_expression, expect_usize_expression,
};
use template_builder::error::{
    TemplateParseError, TemplateParseErrorKind, TemplateParseResult,
};
use template_builder::formatter::{FormatOp, FormatRecorder};
use template_builder::language::{
    BuildContext, CoreTemplatePropertyKind, Denoted, IntoTemplateProperty, TemplateLanguage,
};
use template_builder::lists::{build_unformattable_list_method, WrapItem};
use template_builder::methods::{
    merge_fn_map, CoreTemplateBuildFnTable, TemplateBuildMethod, TemplateBuildMethodFn,
    TemplateBuildMethodFnMap,
};
use template_builder::property::{
    literal, BoxedProperty, PropertyPlaceholder, Scope, TemplateProperty, TemplatePropertyError,
};
use template_builder::template::{BoxedListTemplate, BoxedTemplate, Template};
use template_builder::time::{MillisSinceEpoch, Signature, Timestamp, TimestampRange};

/// Minimal template language for testing.
struct TestTemplateLanguage {
    build_fn_table: CoreTemplateBuildFnTable<'static, TestTemplateLanguage>,
    keywords: HashMap<&'static str, TestTemplateKeywordFn>,
}

type TestTemplateKeywordFn = fn(&TestTemplateLanguage) -> TestTemplatePropertyKind;

type Property<O> = BoxedProperty<'static, (), String, O>;

impl TemplateLanguage<'static> for TestTemplateLanguage {
    type Context = ();
    type Item = String;
    type Property = TestTemplatePropertyKind;

    fn wrap_string(&self, property: Property<String>) -> Self::Property {
        TestTemplatePropertyKind::Core(CoreTemplatePropertyKind::String(property))
    }

    fn wrap_string_list(&self, property: Property<Vec<String>>) -> Self::Property {
        TestTemplatePropertyKind::Core(CoreTemplatePropertyKind::StringList(property))
    }

    fn wrap_boolean(&self, property: Property<bool>) -> Self::Property {
        TestTemplatePropertyKind::Core(CoreTemplatePropertyKind::Boolean(property))
    }

    fn wrap_integer(&self, property: Property<i64>) -> Self::Property {
        TestTemplatePropertyKind::Core(CoreTemplatePropertyKind::Integer(property))
    }

    fn wrap_signature(&self, property: Property<Signature>) -> Self::Property {
        TestTemplatePropertyKind::Core(CoreTemplatePropertyKind::Signature(property))
    }

    fn wrap_timestamp(&self, property: Property<Timestamp>) -> Self::Property {
        TestTemplatePropertyKind::Core(CoreTemplatePropertyKind::Timestamp(property))
    }

    fn wrap_timestamp_range(&self, property: Property<TimestampRange>) -> Self::Property {
        TestTemplatePropertyKind::Core(CoreTemplatePropertyKind::TimestampRange(property))
    }

    fn wrap_template(&self, template: BoxedTemplate<'static, (), String>) -> Self::Property {
        TestTemplatePropertyKind::Core(CoreTemplatePropertyKind::Template(template))
    }

    fn wrap_list_template(
        &self,
        template: BoxedListTemplate<'static, (), String>,
    ) -> Self::Property {
        TestTemplatePropertyKind::Core(CoreTemplatePropertyKind::ListTemplate(template))
    }

    fn build_self(&self) -> Self::Property {
        TestTemplatePropertyKind::Unit
    }

    fn build_method(
        &self,
        build_ctx: &mut BuildContext<'_, Self::Property>,
        property: Self::Property,
        function: &FunctionCallNode<'_>,
    ) -> TemplateParseResult<Self::Property> {
        match property {
            TestTemplatePropertyKind::Core(property) => {
                let table = &self.build_fn_table;
                table.build_method(self, build_ctx, property, function)
            }
            TestTemplatePropertyKind::Unit => {
                let build = self
                    .keywords
                    .get(function.name)
                    .ok_or_else(|| TemplateParseError::no_such_method("()", function))?;
                expect_no_arguments(function)?;
                Ok(build(self))
            }
        }
    }
}

enum TestTemplatePropertyKind {
    Core(CoreTemplatePropertyKind<'static, (), String>),
    Unit,
}

impl Denoted for TestTemplatePropertyKind {
    type Meaning = ();
}

impl IntoTemplateProperty<'static, (), String> for TestTemplatePropertyKind {
    fn try_into_boolean(self) -> Option<Property<bool>> {
        match self {
            TestTemplatePropertyKind::Core(property) => property.try_into_boolean(),
            TestTemplatePropertyKind::Unit => None,
        }
    }

    fn try_into_integer(self) -> Option<Property<i64>> {
        match self {
            TestTemplatePropertyKind::Core(property) => property.try_into_integer(),
            TestTemplatePropertyKind::Unit => None,
        }
    }

    fn try_into_plain_text(self) -> Option<Property<String>> {
        match self {
            TestTemplatePropertyKind::Core(property) => property.try_into_plain_text(),
            TestTemplatePropertyKind::Unit => None,
        }
    }

    fn try_into_template(self) -> Option<BoxedTemplate<'static, (), String>> {
        match self {
            TestTemplatePropertyKind::Core(property) => property.try_into_template(),
            TestTemplatePropertyKind::Unit => None,
        }
    }
}

/// What is wrong with a source text.
enum SourceError {
    /// It is no expression.
    Syntax { message: String, span: Span },
    /// The expression has no meaning.
    Build(TemplateParseError),
}

/// Reads expressions. Errors in the definition of an alias are not looked for.
struct Parser<'i> {
    source: &'i str,
    at: usize,
    aliases: &'i HashMap<String, String>,
}

impl<'i> Parser<'i> {
    fn new(source: &'i str, aliases: &'i HashMap<String, String>) -> Self {
        Parser { source, at: 0, aliases }
    }

    fn rest(&self) -> &'i str {
        &self.source[self.at..]
    }

    fn skip_whitespace(&mut self) {
        let rest = self.rest();
        self.at += rest.len() - rest.trim_start().len();
    }

    fn looking_at(&self, token: &str) -> bool {
        self.rest().starts_with(token)
    }

    /// Skips whitespace and `token`, or nothing if `token` does not follow.
    fn take(&mut self, token: &str) -> bool {
        let before = self.at;
        self.skip_whitespace();
        if self.looking_at(token) {
            self.at += token.len();
            true
        } else {
            self.at = before;
            false
        }
    }

    fn syntax_error<T>(&self, message: &str, span: Span) -> Result<T, SourceError> {
        Err(SourceError::Syntax { message: message.to_owned(), span })
    }

    fn expect(&mut self, token: &str) -> Result<(), SourceError> {
        if self.take(token) {
            Ok(())
        } else {
            self.skip_whitespace();
            let span = Span { start: self.at, end: self.at };
            self.syntax_error(&format!("expected `{token}`"), span)
        }
    }

    fn parse_all(&mut self) -> Result<ExpressionNode<'i>, SourceError> {
        self.skip_whitespace();
        if self.rest().is_empty() {
            let span = Span { start: 0, end: self.source.len() };
            return Ok(ExpressionNode { kind: ExpressionKind::Concat(vec![]), span });
        }
        let node = self.parse_template()?;
        self.skip_whitespace();
        if self.rest().is_empty() {
            Ok(node)
        } else {
            let span = Span { start: self.at, end: self.at };
            self.syntax_error("expected <EOI>, `++`, `||`, or `&&`", span)
        }
    }

    fn parse_template(&mut self) -> Result<ExpressionNode<'i>, SourceError> {
        let first = self.parse_or()?;
        let mut nodes = vec![first];
        while self.take("++") {
            nodes.push(self.parse_or()?);
        }
        if nodes.len() == 1 {
            return Ok(nodes.pop().unwrap());
        }
        let span = Span { start: nodes[0].span.start, end: nodes[nodes.len() - 1].span.end };
        Ok(ExpressionNode { kind: ExpressionKind::Concat(nodes), span })
    }

    fn parse_or(&mut self) -> Result<ExpressionNode<'i>, SourceError> {
        let mut lhs = self.parse_and()?;
        while self.take("||") {
            let rhs = self.parse_and()?;
            lhs = binary(BinaryOp::LogicalOr, lhs, rhs);
        }
        Ok(lhs)
    }

    fn parse_and(&mut self) -> Result<ExpressionNode<'i>, SourceError> {
        let mut lhs = self.parse_prefix()?;
        while self.take("&&") {
            let rhs = self.parse_prefix()?;
            lhs = binary(BinaryOp::LogicalAnd, lhs, rhs);
        }
        Ok(lhs)
    }

    fn parse_prefix(&mut self) -> Result<ExpressionNode<'i>, SourceError> {
        self.skip_whitespace();
        let start = self.at;
        let op = if self.take("!") {
            UnaryOp::LogicalNot
        } else if self.take("-") {
            UnaryOp::Negate
        } else {
            return self.parse_postfix();
        };
        let arg = self.parse_prefix()?;
        let span = Span { start, end: arg.span.end };
        Ok(ExpressionNode { kind: ExpressionKind::Unary(op, Box::new(arg)), span })
    }

    fn parse_postfix(&mut self) -> Result<ExpressionNode<'i>, SourceError> {
        let start = self.at;
        let mut object = self.parse_primary()?;
        while self.looking_at(".") {
            self.at += 1;
            let (name, name_span) = self.parse_identifier()?;
            let function = self.parse_call(name, name_span)?;
            let method = MethodCallNode { object, function };
            object = ExpressionNode {
                kind: ExpressionKind::MethodCall(Box::new(method)),
                span: Span { start, end: self.at },
            };
        }
        Ok(object)
    }

    fn parse_identifier(&mut self) -> Result<(&'i str, Span), SourceError> {
        let rest = self.rest();
        let len = rest
            .find(|c: char| !c.is_ascii_alphanumeric() && c != '_')
            .unwrap_or(rest.len());
        let span = Span { start: self.at, end: self.at + len };
        if len == 0 {
            return self.syntax_error("expected identifier", span);
        }
        self.at += len;
        Ok((&rest[..len], span))
    }

    fn parse_call(
        &mut self,
        name: &'i str,
        name_span: Span,
    ) -> Result<FunctionCallNode<'i>, SourceError> {
        self.expect("(")?;
        self.skip_whitespace();
        let start = self.at;
        let mut end = start;
        let mut args = vec![];
        if !self.looking_at(")") {
            args.push(self.parse_template()?);
            end = self.at;
            while self.take(",") {
                args.push(self.parse_template()?);
                end = self.at;
            }
        }
        self.expect(")")?;
        let args_span = Span { start, end };
        Ok(FunctionCallNode { name, name_span, args, args_span })
    }

    fn parse_lambda(&mut self) -> Result<ExpressionNode<'i>, SourceError> {
        let start = self.at;
        self.expect("|")?;
        let params_start = self.at;
        let mut params = vec![];
        let mut params_end = self.at;
        if !self.looking_at("|") {
            params.push(self.parse_identifier()?.0);
            params_end = self.at;
            while self.take(",") {
                self.skip_whitespace();
                params.push(self.parse_identifier()?.0);
                params_end = self.at;
            }
        }
        self.expect("|")?;
        self.skip_whitespace();
        let body = self.parse_template()?;
        let lambda = LambdaNode {
            params,
            params_span: Span { start: params_start, end: params_end },
            body,
        };
        let span = Span { start, end: self.at };
        Ok(ExpressionNode { kind: ExpressionKind::Lambda(Box::new(lambda)), span })
    }

    fn parse_string(&mut self) -> Result<ExpressionNode<'i>, SourceError> {
        let start = self.at;
        let mut text = String::new();
        let mut chars = self.rest().char_indices().skip(1);
        loop {
            match chars.next() {
                Some((i, '"')) => {
                    self.at = start + i + 1;
                    let span = Span { start, end: self.at };
                    return Ok(ExpressionNode { kind: ExpressionKind::String(text), span });
                }
                Some((_, '\\')) => match chars.next() {
                    Some((_, 'n')) => text.push('\n'),
                    Some((_, 't')) => text.push('\t'),
                    Some((_, 'r')) => text.push('\r'),
                    Some((_, '0')) => text.push('\0'),
                    Some((_, c)) => text.push(c),
                    None => return self.syntax_error("expected escape", Span { start, end: start }),
                },
                Some((_, c)) => text.push(c),
                None => return self.syntax_error("expected `\"`", Span { start, end: start }),
            }
        }
    }

    fn parse_primary(&mut self) -> Result<ExpressionNode<'i>, SourceError> {
        let start = self.at;
        if self.looking_at("\"") {
            return self.parse_string();
        }
        if self.looking_at("|") {
            return self.parse_lambda();
        }
        if self.looking_at("(") {
            self.at += 1;
            self.skip_whitespace();
            let node = self.parse_template()?;
            self.expect(")")?;
            return Ok(node);
        }
        let (name, span) = self.parse_identifier()?;
        if name.starts_with(|c: char| c.is_ascii_digit()) {
            return match name.parse::<i64>() {
                Ok(value) => Ok(ExpressionNode { kind: ExpressionKind::Integer(value), span }),
                Err(err) => self.syntax_error(&format!("Invalid integer literal: {err}"), span),
            };
        }
        let boolean = match name {
            "true" => Some(true),
            "false" => Some(false),
            _ => None,
        };
        if self.looking_at("(") {
            if boolean.is_some() {
                return self.syntax_error("Expected identifier", span);
            }
            let function = self.parse_call(name, span)?;
            return Ok(ExpressionNode {
                kind: ExpressionKind::FunctionCall(Box::new(function)),
                span: Span { start, end: self.at },
            });
        }
        if let Some(value) = boolean {
            return Ok(ExpressionNode { kind: ExpressionKind::Boolean(value), span });
        }
        if let Some(definition) = self.aliases.get(name) {
            let subst = Parser::new(definition, self.aliases).parse_all()?;
            return Ok(ExpressionNode {
                kind: ExpressionKind::AliasExpanded(
                    TemplateAliasId::Symbol(name),
                    Box::new(subst),
                ),
                span,
            });
        }
        Ok(ExpressionNode { kind: ExpressionKind::Identifier(name), span })
    }
}

fn binary<'i>(
    op: BinaryOp,
    lhs: ExpressionNode<'i>,
    rhs: ExpressionNode<'i>,
) -> ExpressionNode<'i> {
    let span = Span { start: lhs.span.start, end: rhs.span.end };
    ExpressionNode {
        kind: ExpressionKind::Binary(op, Box::new(lhs), Box::new(rhs)),
        span,
    }
}

/// Shows a message with the part of the source text that it is about.
fn show_error(message: &str, source: &str, span: Span) -> String {
    let variant = pest::error::ErrorVariant::<()>::CustomError { message: message.to_owned() };
    if span.start == span.end && span.end < source.len() && message.starts_with("expected") {
        let position = pest::Position::new(source, span.start).unwrap();
        return pest::error::Error::new_from_pos(variant, position).to_string();
    }
    let span = pest::Span::new(source, span.start, span.end).unwrap();
    pest::error::Error::new_from_span(variant, span).to_string()
}

/// Writes output with colors for labels.
struct ColorFormatter<'r> {
    rules: &'r [(Vec<String>, u8)],
    labels: Vec<String>,
    color: Option<u8>,
    output: String,
}

impl ColorFormatter<'_> {
    fn requested_color(&self) -> Option<u8> {
        let mut best: Option<(Vec<usize>, u8)> = None;
        for (required, color) in self.rules {
            let mut indices = vec![];
            let mut labels = self.labels.iter().enumerate();
            for label in required {
                if let Some((index, _)) = labels.find(|(_, open)| *open == label) {
                    indices.push(index);
                }
            }
            if indices.len() == required.len() {
                indices.reverse();
                let better = match &best {
                    Some((others, _)) => *others <= indices,
                    None => true,
                };
                if better {
                    best = Some((indices, *color));
                }
            }
        }
        best.map(|(_, color)| color)
    }

    fn switch_to(&mut self, color: Option<u8>) {
        if color != self.color {
            match color {
                Some(color) => self.output.push_str(&format!("\x1b[38;5;{color}m")),
                None => self.output.push_str("\x1b[39m"),
            }
            self.color = color;
        }
    }

    fn write(&mut self, op: &FormatOp) {
        match op {
            FormatOp::Char(c) => {
                self.switch_to(self.requested_color());
                if *c == '\n' {
                    self.switch_to(None);
                }
                self.output.push(*c);
            }
            FormatOp::PushLabel(label) => self.labels.push(label.clone()),
            FormatOp::PopLabel => {
                self.labels.pop().unwrap();
                if self.labels.is_empty() {
                    self.switch_to(None);
                }
            }
        }
    }
}

/// Helper to set up template evaluation environment.
struct TestTemplateEnv {
    language: TestTemplateLanguage,
    aliases_map: HashMap<String, String>,
    color_rules: Vec<(Vec<String>, u8)>,
}

impl Default for TestTemplateEnv {
    fn default() -> Self {
        TestTemplateEnv {
            language: TestTemplateLanguage {
                build_fn_table: CoreTemplateBuildFnTable::builtin(),
                keywords: HashMap::new(),
            },
            aliases_map: HashMap::new(),
            color_rules: Vec::new(),
        }
    }
}

impl TestTemplateEnv {
    fn add_keyword(&mut self, name: &'static str, f: TestTemplateKeywordFn) {
        self.language.keywords.insert(name, f);
    }

    fn add_alias(&mut self, decl: &str, defn: &str) {
        self.aliases_map.insert(decl.to_owned(), defn.to_owned());
    }

    fn add_color(&mut self, label: &str, fg_color: u8) {
        let labels = label.split_whitespace().map(|s| s.to_owned()).collect();
        self.color_rules.push((labels, fg_color));
    }

    fn parse(&self, template: &str) -> Result<BoxedTemplate<'static, (), String>, SourceError> {
        let node = Parser::new(template, &self.aliases_map).parse_all()?;
        build(&self.language, &node).map_err(SourceError::Build)
    }

    fn parse_err(&self, template: &str) -> String {
        let error = match self.parse(template) {
            Ok(_) => panic!("{template} has no error"),
            Err(SourceError::Syntax { message, span }) => {
                return show_error(&message, template, span);
            }
            Err(SourceError::Build(error)) => error,
        };
        let mut shown = vec![];
        let mut source = template;
        let mut next = Some(&error);
        while let Some(error) = next {
            shown.push(show_error(&error.message(), source, error.span));
            if let TemplateParseErrorKind::BadAliasExpansion(id) = &error.kind {
                source = &self.aliases_map[id];
            }
            next = error.origin.as_deref();
        }
        shown.join("\n")
    }

    fn record(&self, template: &str) -> FormatRecorder {
        let template = match self.parse(template) {
            Ok(template) => template,
            Err(_) => panic!("{}", self.parse_err(template)),
        };
        let mut recorder = FormatRecorder::new();
        template.format(&(), &Scope::Root, &mut recorder);
        recorder
    }

    fn render_ok(&self, template: &str) -> String {
        let recorder = self.record(template);
        let mut formatter = ColorFormatter {
            rules: &self.color_rules,
            labels: vec![],
            color: None,
            output: String::new(),
        };
        for op in recorder.ops() {
            formatter.write(op);
        }
        assert!(formatter.labels.is_empty());
        formatter.switch_to(None);
        formatter.output
    }
}

/// Colors as terminals number them.
const DARK_RED: u8 = 1;
const DARK_GREEN: u8 = 2;
const DARK_YELLOW: u8 = 3;
const DARK_CYAN: u8 = 6;
const CYAN: u8 = 14;

fn lines(lines: &[&str]) -> String {
    lines.join("\n")
}

fn new_signature(name: &str, email: &str) -> Signature {
    Signature {
        name: name.to_owned(),
        email: email.to_owned(),
        timestamp: new_timestamp(0, 0),
    }
}

fn new_timestamp(msec: i64, tz_offset: i32) -> Timestamp {
    Timestamp {
        timestamp: MillisSinceEpoch(msec),
        tz_offset,
    }
}

#[test]
fn test_parsed_tree() {
    let mut env = TestTemplateEnv::default();
    env.add_keyword("divergent", |language| {
        language.wrap_boolean(literal(false))
    });
    env.add_keyword("empty", |language| language.wrap_boolean(literal(true)));
    env.add_keyword("hello", |language| {
        language.wrap_string(literal("Hello".to_owned()))
    });

    // Empty
    assert_eq!(env.render_ok(r#"  "#), "");

    // Single term with whitespace
    assert_eq!(env.render_ok(r#"  hello.upper()  "#), "HELLO");

    // Multiple terms
    assert_eq!(env.render_ok(r#"  hello.upper()  ++ true "#), "HELLOtrue");

    // Parenthesized single term
    assert_eq!(env.render_ok(r#"(hello.upper())"#), "HELLO");

    // Parenthesized multiple terms and concatenation
    assert_eq!(env.render_ok(r#"(hello.upper() ++ " ") ++ empty"#), "HELLO true");

    // Parenthesized "if" condition
    assert_eq!(env.render_ok(r#"if((divergent), "t", "f")"#), "f");

    // Parenthesized method chaining
    assert_eq!(env.render_ok(r#"(hello).upper()"#), "HELLO");
}

#[test]
fn test_parse_error() {
    let mut env = TestTemplateEnv::default();
    env.add_keyword("description", |language| {
        language.wrap_string(literal("".to_owned()))
    });
    env.add_keyword("empty", |language| language.wrap_boolean(literal(true)));

    assert_eq!(
        env.parse_err(r#"description ()"#),
        lines(&[
            " --> 1:13",
            "  |",
            "1 | description ()",
            "  |             ^---",
            "  |",
            "  = expected <EOI>, `++`, `||`, or `&&`",
        ])
    );

    assert_eq!(
        env.parse_err(r#"foo"#),
        lines(&[
            " --> 1:1",
            "  |",
            "1 | foo",
            "  | ^-^",
            "  |",
            "  = Keyword \"foo\" doesn't exist",
        ])
    );

    assert_eq!(
        env.parse_err(r#"foo()"#),
        lines(&[
            " --> 1:1",
            "  |",
            "1 | foo()",
            "  | ^-^",
            "  |",
            "  = Function \"foo\" doesn't exist",
        ])
    );
    assert_eq!(
        env.parse_err(r#"false()"#),
        lines(&[
            " --> 1:1",
            "  |",
            "1 | false()",
            "  | ^---^",
            "  |",
            "  = Expected identifier",
        ])
    );

    assert_eq!(
        env.parse_err(r#"!foo"#),
        lines(&[
            " --> 1:2",
            "  |",
            "1 | !foo",
            "  |  ^-^",
            "  |",
            "  = Keyword \"foo\" doesn't exist",
        ])
    );
    assert_eq!(
        env.parse_err(r#"true && 123"#),
        lines(&[
            " --> 1:9",
            "  |",
            "1 | true && 123",
            "  |         ^-^",
            "  |",
            "  = Expected expression of type \"Boolean\"",
        ])
    );

    assert_eq!(
        env.parse_err(r#"description.first_line().foo()"#),
        lines(&[
            " --> 1:26",
            "  |",
            "1 | description.first_line().foo()",
            "  |                          ^-^",
            "  |",
            "  = Method \"foo\" doesn't exist for type \"String\"",
        ])
    );

    assert_eq!(
        env.parse_err(r#"10000000000000000000"#),
        lines(&[
            " --> 1:1",
            "  |",
            "1 | 10000000000000000000",
            "  | ^------------------^",
            "  |",
            "  = Invalid integer literal: number too large to fit in target type",
        ])
    );
    assert_eq!(
        env.parse_err(r#"42.foo()"#),
        lines(&[
            " --> 1:4",
            "  |",
            "1 | 42.foo()",
            "  |    ^-^",
            "  |",
            "  = Method \"foo\" doesn't exist for type \"Integer\"",
        ])
    );
    assert_eq!(
        env.parse_err(r#"(-empty)"#),
        lines(&[
            " --> 1:3",
            "  |",
            "1 | (-empty)",
            "  |   ^---^",
            "  |",
            "  = Expected expression of type \"Integer\"",
        ])
    );

    assert_eq!(
        env.parse_err(r#"("foo" ++ "bar").baz()"#),
        lines(&[
            " --> 1:18",
            "  |",
            "1 | (\"foo\" ++ \"bar\").baz()",
            "  |                  ^-^",
            "  |",
            "  = Method \"baz\" doesn't exist for type \"Template\"",
        ])
    );

    assert_eq!(
        env.parse_err(r#"description.contains()"#),
        lines(&[
            " --> 1:22",
            "  |",
            "1 | description.contains()",
            "  |                      ^",
            "  |",
            "  = Function \"contains\": Expected 1 arguments",
        ])
    );

    assert_eq!(
        env.parse_err(r#"description.first_line("foo")"#),
        lines(&[
            " --> 1:24",
            "  |",
            "1 | description.first_line(\"foo\")",
            "  |                        ^---^",
            "  |",
            "  = Function \"first_line\": Expected 0 arguments",
        ])
    );

    assert_eq!(
        env.parse_err(r#"label()"#),
        lines(&[
            " --> 1:7",
            "  |",
            "1 | label()",
            "  |       ^",
            "  |",
            "  = Function \"label\": Expected 2 arguments",
        ])
    );
    assert_eq!(
        env.parse_err(r#"label("foo", "bar", "baz")"#),
        lines(&[
            " --> 1:7",
            "  |",
            "1 | label(\"foo\", \"bar\", \"baz\")",
            "  |       ^-----------------^",
            "  |",
            "  = Function \"label\": Expected 2 arguments",
        ])
    );

    assert_eq!(
        env.parse_err(r#"if()"#),
        lines(&[
            " --> 1:4",
            "  |",
            "1 | if()",
            "  |    ^",
            "  |",
            "  = Function \"if\": Expected 2 to 3 arguments",
        ])
    );
    assert_eq!(
        env.parse_err(r#"if("foo", "bar", "baz", "quux")"#),
        lines(&[
            " --> 1:4",
            "  |",
            "1 | if(\"foo\", \"bar\", \"baz\", \"quux\")",
            "  |    ^-------------------------^",
            "  |",
            "  = Function \"if\": Expected 2 to 3 arguments",
        ])
    );

    assert_eq!(
        env.parse_err(r#"if(label("foo", "bar"), "baz")"#),
        lines(&[
            " --> 1:4",
            "  |",
            "1 | if(label(\"foo\", \"bar\"), \"baz\")",
            "  |    ^-----------------^",
            "  |",
            "  = Expected expression of type \"Boolean\"",
        ])
    );

    assert_eq!(
        env.parse_err(r#"|x| description"#),
        lines(&[
            " --> 1:1",
            "  |",
            "1 | |x| description",
            "  | ^-------------^",
            "  |",
            "  = Lambda cannot be defined here",
        ])
    );
}

#[test]
fn test_self_keyword() {
    let mut env = TestTemplateEnv::default();
    env.add_keyword("say_hello", |language| {
        language.wrap_string(literal("Hello".to_owned()))
    });

    assert_eq!(env.render_ok(r#"self.say_hello()"#), "Hello");
    assert_eq!(
        env.parse_err(r#"self"#),
        lines(&[
            " --> 1:1",
            "  |",
            "1 | self",
            "  | ^--^",
            "  |",
            "  = Expected expression of type \"Template\"",
        ])
    );
}

#[test]
fn test_boolean_cast() {
    let mut env = TestTemplateEnv::default();

    assert_eq!(env.render_ok(r#"if("", true, false)"#), "false");
    assert_eq!(env.render_ok(r#"if("a", true, false)"#), "true");

    env.add_keyword("sl0", |language| {
        language.wrap_string_list(literal::<(), String, Vec<String>>(vec![]))
    });
    env.add_keyword("sl1", |language| {
        language.wrap_string_list(literal(vec!["".to_owned()]))
    });
    assert_eq!(env.render_ok(r#"if(sl0, true, false)"#), "false");
    assert_eq!(env.render_ok(r#"if(sl1, true, false)"#), "true");

    // No implicit cast of integer
    assert_eq!(
        env.parse_err(r#"if(0, true, false)"#),
        lines(&[
            " --> 1:4",
            "  |",
            "1 | if(0, true, false)",
            "  |    ^",
            "  |",
            "  = Expected expression of type \"Boolean\"",
        ])
    );

    assert_eq!(
        env.parse_err(r#"if(label("", ""), true, false)"#),
        lines(&[
            " --> 1:4",
            "  |",
            "1 | if(label(\"\", \"\"), true, false)",
            "  |    ^-----------^",
            "  |",
            "  = Expected expression of type \"Boolean\"",
        ])
    );
    assert_eq!(
        env.parse_err(r#"if(sl0.map(|x| x), true, false)"#),
        lines(&[
            " --> 1:4",
            "  |",
            "1 | if(sl0.map(|x| x), true, false)",
            "  |    ^------------^",
            "  |",
            "  = Expected expression of type \"Boolean\"",
        ])
    );
}

#[test]
fn test_arithmetic_operation() {
    let mut env = TestTemplateEnv::default();
    env.add_keyword("i64_min", |language| {
        language.wrap_integer(literal(i64::MIN))
    });

    assert_eq!(env.render_ok(r#"-1"#), "-1");
    assert_eq!(env.render_ok(r#"--2"#), "2");
    assert_eq!(env.render_ok(r#"-(3)"#), "-3");

    // No panic on integer overflow.
    assert_eq!(env.render_ok(r#"-i64_min"#), "<Error: Attempt to negate with overflow>");
}

#[test]
fn test_logical_operation() {
    let env = TestTemplateEnv::default();

    assert_eq!(env.render_ok(r#"!false"#), "true");
    assert_eq!(env.render_ok(r#"false || !false"#), "true");
    assert_eq!(env.render_ok(r#"false && true"#), "false");

    assert_eq!(env.render_ok(r#" !"" "#), "true");
    assert_eq!(env.render_ok(r#" "" || "a".lines() "#), "true");
}

#[test]
fn test_list_method() {
    let mut env = TestTemplateEnv::default();
    env.add_keyword("empty", |language| language.wrap_boolean(literal(true)));
    env.add_keyword("sep", |language| {
        language.wrap_string(literal("sep".to_owned()))
    });

    assert_eq!(env.render_ok(r#""".lines().len()"#), "0");
    assert_eq!(env.render_ok(r#""a\nb\nc".lines().len()"#), "3");

    assert_eq!(env.render_ok(r#""".lines().join("|")"#), "");
    assert_eq!(env.render_ok(r#""a\nb\nc".lines().join("|")"#), "a|b|c");
    // Null separator
    assert_eq!(env.render_ok(r#""a\nb\nc".lines().join("\0")"#), "a\0b\0c");
    // Keyword as separator
    assert_eq!(env.render_ok(r#""a\nb\nc".lines().join(sep.upper())"#), "aSEPbSEPc");

    assert_eq!(env.render_ok(r#""a\nb\nc".lines().map(|s| s ++ s)"#), "aa bb cc");
    // Global keyword in item template
    assert_eq!(env.render_ok(r#""a\nb\nc".lines().map(|s| s ++ empty)"#), "atrue btrue ctrue");
    // Override global keyword 'empty'
    assert_eq!(env.render_ok(r#""a\nb\nc".lines().map(|empty| empty)"#), "a b c");
    // Nested map operations
    assert_eq!(
        env.render_ok(r#""a\nb\nc".lines().map(|s| "x\ny".lines().map(|t| s ++ t))"#),
        "ax ay bx by cx cy"
    );
    // Nested map/join operations
    assert_eq!(
        env.render_ok(r#""a\nb\nc".lines().map(|s| "x\ny".lines().map(|t| s ++ t).join(",")).join(";")"#),
        "ax,ay;bx,by;cx,cy"
    );
    // Nested string operations
    assert_eq!(
        env.render_ok(r#""!a\n!b\nc\nend".remove_suffix("end").lines().map(|s| s.remove_prefix("!"))"#),
        "a b c"
    );

    // Lambda expression in alias
    env.add_alias("identity", "|x| x");
    assert_eq!(env.render_ok(r#""a\nb\nc".lines().map(identity)"#), "a b c");

    // Not a lambda expression
    assert_eq!(
        env.parse_err(r#""a".lines().map(empty)"#),
        lines(&[
            " --> 1:17",
            "  |",
            "1 | \"a\".lines().map(empty)",
            "  |                 ^---^",
            "  |",
            "  = Expected lambda expression",
        ])
    );
    // Bad lambda parameter count
    assert_eq!(
        env.parse_err(r#""a".lines().map(|| "")"#),
        lines(&[
            " --> 1:18",
            "  |",
            "1 | \"a\".lines().map(|| \"\")",
            "  |                  ^",
            "  |",
            "  = Expected 1 lambda parameters",
        ])
    );
    assert_eq!(
        env.parse_err(r#""a".lines().map(|a, b| "")"#),
        lines(&[
            " --> 1:18",
            "  |",
            "1 | \"a\".lines().map(|a, b| \"\")",
            "  |                  ^--^",
            "  |",
            "  = Expected 1 lambda parameters",
        ])
    );
    // Error in lambda expression
    assert_eq!(
        env.parse_err(r#""a".lines().map(|s| s.unknown())"#),
        lines(&[
            " --> 1:23",
            "  |",
            "1 | \"a\".lines().map(|s| s.unknown())",
            "  |                       ^-----^",
            "  |",
            "  = Method \"unknown\" doesn't exist for type \"String\"",
        ])
    );
    // Error in lambda alias
    env.add_alias("too_many_params", "|x, y| x");
    assert_eq!(
        env.parse_err(r#""a".lines().map(too_many_params)"#),
        lines(&[
            " --> 1:17",
            "  |",
            "1 | \"a\".lines().map(too_many_params)",
            "  |                 ^-------------^",
            "  |",
            "  = Alias \"too_many_params\" cannot be expanded",
            " --> 1:2",
            "  |",
            "1 | |x, y| x",
            "  |  ^--^",
            "  |",
            "  = Expected 1 lambda parameters",
        ])
    );
}

#[test]
fn test_string_method() {
    let mut env = TestTemplateEnv::default();
    env.add_keyword("description", |language| {
        language.wrap_string(literal("description 1".to_owned()))
    });

    assert_eq!(env.render_ok(r#""".len()"#), "0");
    assert_eq!(env.render_ok(r#""foo".len()"#), "3");
    assert_eq!(env.render_ok(r#""💩".len()"#), "4");

    assert_eq!(env.render_ok(r#""fooo".contains("foo")"#), "true");
    assert_eq!(env.render_ok(r#""foo".contains("fooo")"#), "false");
    assert_eq!(env.render_ok(r#"description.contains("description")"#), "true");
    assert_eq!(
        env.render_ok(r#""description 123".contains(description.first_line())"#),
        "true"
    );

    assert_eq!(env.render_ok(r#""".first_line()"#), "");
    assert_eq!(env.render_ok(r#""foo\nbar".first_line()"#), "foo");

    assert_eq!(env.render_ok(r#""".lines()"#), "");
    assert_eq!(env.render_ok(r#""a\nb\nc\n".lines()"#), "a b c");

    assert_eq!(env.render_ok(r#""".starts_with("")"#), "true");
    assert_eq!(env.render_ok(r#""everything".starts_with("")"#), "true");
    assert_eq!(env.render_ok(r#""".starts_with("foo")"#), "false");
    assert_eq!(env.render_ok(r#""foo".starts_with("foo")"#), "true");
    assert_eq!(env.render_ok(r#""foobar".starts_with("foo")"#), "true");
    assert_eq!(env.render_ok(r#""foobar".starts_with("bar")"#), "false");

    assert_eq!(env.render_ok(r#""".ends_with("")"#), "true");
    assert_eq!(env.render_ok(r#""everything".ends_with("")"#), "true");
    assert_eq!(env.render_ok(r#""".ends_with("foo")"#), "false");
    assert_eq!(env.render_ok(r#""foo".ends_with("foo")"#), "true");
    assert_eq!(env.render_ok(r#""foobar".ends_with("foo")"#), "false");
    assert_eq!(env.render_ok(r#""foobar".ends_with("bar")"#), "true");

    assert_eq!(env.render_ok(r#""".remove_prefix("wip: ")"#), "");
    assert_eq!(env.render_ok(r#""wip: testing".remove_prefix("wip: ")"#), "testing");

    assert_eq!(
        env.render_ok(r#""bar@my.example.com".remove_suffix("@other.example.com")"#),
        "bar@my.example.com"
    );
    assert_eq!(
        env.render_ok(r#""bar@other.example.com".remove_suffix("@other.example.com")"#),
        "bar"
    );

    assert_eq!(env.render_ok(r#""foo".substr(0, 0)"#), "");
    assert_eq!(env.render_ok(r#""foo".substr(0, 1)"#), "f");
    assert_eq!(env.render_ok(r#""foo".substr(0, 3)"#), "foo");
    assert_eq!(env.render_ok(r#""foo".substr(0, 4)"#), "foo");
    assert_eq!(env.render_ok(r#""abcdef".substr(2, -1)"#), "cde");
    assert_eq!(env.render_ok(r#""abcdef".substr(-3, 99)"#), "def");
    assert_eq!(env.render_ok(r#""abcdef".substr(-6, 99)"#), "abcdef");
    assert_eq!(env.render_ok(r#""abcdef".substr(-7, 1)"#), "a");

    // non-ascii characters
    assert_eq!(env.render_ok(r#""abc💩".substr(2, -1)"#), "c💩");
    assert_eq!(env.render_ok(r#""abc💩".substr(3, -3)"#), "💩");
    assert_eq!(env.render_ok(r#""abc💩".substr(3, -4)"#), "");
    assert_eq!(env.render_ok(r#""abc💩".substr(6, -3)"#), "💩");
    assert_eq!(env.render_ok(r#""abc💩".substr(7, -3)"#), "");
    assert_eq!(env.render_ok(r#""abc💩".substr(3, 4)"#), "");
    assert_eq!(env.render_ok(r#""abc💩".substr(3, 6)"#), "");
    assert_eq!(env.render_ok(r#""abc💩".substr(3, 7)"#), "💩");
    assert_eq!(env.render_ok(r#""abc💩".substr(-1, 7)"#), "");
    assert_eq!(env.render_ok(r#""abc💩".substr(-3, 7)"#), "");
    assert_eq!(env.render_ok(r#""abc💩".substr(-4, 7)"#), "💩");

    // ranges with end > start are empty
    assert_eq!(env.render_ok(r#""abcdef".substr(4, 2)"#), "");
    assert_eq!(env.render_ok(r#""abcdef".substr(-2, -4)"#), "");
}

#[test]
fn test_signature() {
    let mut env = TestTemplateEnv::default();

    env.add_keyword("author", |language| {
        language.wrap_signature(literal(new_signature("Test User", "test.user@example.com")))
    });
    assert_eq!(env.render_ok(r#"author"#), "Test User <test.user@example.com>");
    assert_eq!(env.render_ok(r#"author.name()"#), "Test User");
    assert_eq!(env.render_ok(r#"author.email()"#), "test.user@example.com");
    assert_eq!(env.render_ok(r#"author.username()"#), "test.user");

    env.add_keyword("author", |language| {
        language.wrap_signature(literal(new_signature(
            "Another Test User",
            "test.user@example.com",
        )))
    });
    assert_eq!(env.render_ok(r#"author"#), "Another Test User <test.user@example.com>");
    assert_eq!(env.render_ok(r#"author.name()"#), "Another Test User");
    assert_eq!(env.render_ok(r#"author.email()"#), "test.user@example.com");
    assert_eq!(env.render_ok(r#"author.username()"#), "test.user");

    env.add_keyword("author", |language| {
        language.wrap_signature(literal(new_signature(
            "Test User",
            "test.user@invalid@example.com",
        )))
    });
    assert_eq!(env.render_ok(r#"author"#), "Test User <test.user@invalid@example.com>");
    assert_eq!(env.render_ok(r#"author.name()"#), "Test User");
    assert_eq!(env.render_ok(r#"author.email()"#), "test.user@invalid@example.com");
    assert_eq!(env.render_ok(r#"author.username()"#), "test.user");

    env.add_keyword("author", |language| {
        language.wrap_signature(literal(new_signature("Test User", "test.user")))
    });
    assert_eq!(env.render_ok(r#"author"#), "Test User <test.user>");
    assert_eq!(env.render_ok(r#"author.email()"#), "test.user");
    assert_eq!(env.render_ok(r#"author.username()"#), "test.user");

    env.add_keyword("author", |language| {
        language.wrap_signature(literal(new_signature(
            "Test User",
            "test.user+tag@example.com",
        )))
    });
    assert_eq!(env.render_ok(r#"author"#), "Test User <test.user+tag@example.com>");
    assert_eq!(env.render_ok(r#"author.email()"#), "test.user+tag@example.com");
    assert_eq!(env.render_ok(r#"author.username()"#), "test.user+tag");

    env.add_keyword("author", |language| {
        language.wrap_signature(literal(new_signature("Test User", "x@y")))
    });
    assert_eq!(env.render_ok(r#"author"#), "Test User <x@y>");
    assert_eq!(env.render_ok(r#"author.email()"#), "x@y");
    assert_eq!(env.render_ok(r#"author.username()"#), "x");

    env.add_keyword("author", |language| {
        language.wrap_signature(literal(new_signature("", "test.user@example.com")))
    });
    assert_eq!(env.render_ok(r#"author"#), "<test.user@example.com>");
    assert_eq!(env.render_ok(r#"author.name()"#), "");
    assert_eq!(env.render_ok(r#"author.email()"#), "test.user@example.com");
    assert_eq!(env.render_ok(r#"author.username()"#), "test.user");

    env.add_keyword("author", |language| {
        language.wrap_signature(literal(new_signature("Test User", "")))
    });
    assert_eq!(env.render_ok(r#"author"#), "Test User");
    assert_eq!(env.render_ok(r#"author.name()"#), "Test User");
    assert_eq!(env.render_ok(r#"author.email()"#), "");
    assert_eq!(env.render_ok(r#"author.username()"#), "");

    env.add_keyword("author", |language| {
        language.wrap_signature(literal(new_signature("", "")))
    });
    assert_eq!(env.render_ok(r#"author"#), "");
    assert_eq!(env.render_ok(r#"author.name()"#), "");
    assert_eq!(env.render_ok(r#"author.email()"#), "");
    assert_eq!(env.render_ok(r#"author.username()"#), "");
}

#[test]
fn test_timestamp_method() {
    let mut env = TestTemplateEnv::default();
    env.add_keyword("t0", |language| {
        language.wrap_timestamp(literal(new_timestamp(0, 0)))
    });

    assert_eq!(env.render_ok(r#"t0.format("%Y%m%d %H:%M:%S")"#), "19700101 00:00:00");

    // Invalid format string
    assert_eq!(
        env.parse_err(r#"t0.format("%_")"#),
        lines(&[
            " --> 1:11",
            "  |",
            "1 | t0.format(\"%_\")",
            "  |           ^--^",
            "  |",
            "  = Invalid time format",
        ])
    );

    // Invalid type
    assert_eq!(
        env.parse_err(r#"t0.format(0)"#),
        lines(&[
            " --> 1:11",
            "  |",
            "1 | t0.format(0)",
            "  |           ^",
            "  |",
            "  = Expected string literal",
        ])
    );

    // Dynamic string isn't supported yet
    assert_eq!(
        env.parse_err(r#"t0.format("%Y" ++ "%m")"#),
        lines(&[
            " --> 1:11",
            "  |",
            "1 | t0.format(\"%Y\" ++ \"%m\")",
            "  |           ^----------^",
            "  |",
            "  = Expected string literal",
        ])
    );

    // Literal alias expansion
    env.add_alias("time_format", r#""%Y-%m-%d""#);
    env.add_alias("bad_time_format", r#""%_""#);
    assert_eq!(env.render_ok(r#"t0.format(time_format)"#), "1970-01-01");
    assert_eq!(
        env.parse_err(r#"t0.format(bad_time_format)"#),
        lines(&[
            " --> 1:11",
            "  |",
            "1 | t0.format(bad_time_format)",
            "  |           ^-------------^",
            "  |",
            "  = Alias \"bad_time_format\" cannot be expanded",
            " --> 1:1",
            "  |",
            "1 | \"%_\"",
            "  | ^--^",
            "  |",
            "  = Invalid time format",
        ])
    );
}

#[test]
fn test_fill_function() {
    let mut env = TestTemplateEnv::default();
    env.add_color("error", DARK_RED);

    assert_eq!(
        env.render_ok(r#"fill(20, "The quick fox jumps over the " ++
                              label("error", "lazy") ++ " dog\n")"#),
        lines(&[
            "The quick fox jumps",
            "over the \x1b[38;5;1mlazy\x1b[39m dog",
            "",
        ])
    );

    // A low value will not chop words, but can chop a label by words
    assert_eq!(
        env.render_ok(r#"fill(9, "Longlonglongword an some short words " ++
                              label("error", "longlonglongword and short words") ++
                              " back out\n")"#),
        lines(&[
            "Longlonglongword",
            "an some",
            "short",
            "words",
            "\x1b[38;5;1mlonglonglongword\x1b[39m",
            "\x1b[38;5;1mand short\x1b[39m",
            "\x1b[38;5;1mwords\x1b[39m",
            "back out",
            "",
        ])
    );

    // Filling to 0 means breaking at every word
    assert_eq!(
        env.render_ok(r#"fill(0, "The quick fox jumps over the " ++
                              label("error", "lazy") ++ " dog\n")"#),
        lines(&[
            "The",
            "quick",
            "fox",
            "jumps",
            "over",
            "the",
            "\x1b[38;5;1mlazy\x1b[39m",
            "dog",
            "",
        ])
    );

    // Filling to -0 is the same as 0
    assert_eq!(
        env.render_ok(r#"fill(-0, "The quick fox jumps over the " ++
                              label("error", "lazy") ++ " dog\n")"#),
        lines(&[
            "The",
            "quick",
            "fox",
            "jumps",
            "over",
            "the",
            "\x1b[38;5;1mlazy\x1b[39m",
            "dog",
            "",
        ])
    );

    // Filling to negative width is an error
    assert_eq!(
        env.render_ok(r#"fill(-10, "The quick fox jumps over the " ++
                              label("error", "lazy") ++ " dog\n")"#),
        "\x1b[38;5;1m<Error: out of range integral type conversion attempted>\x1b[39m"
    );

    // Word-wrap, then indent
    assert_eq!(
        env.render_ok(r#""START marker to help insta\n" ++
                         indent("    ", fill(20, "The quick fox jumps over the " ++
                                             label("error", "lazy") ++ " dog\n"))"#),
        lines(&[
            "START marker to help insta",
            "    The quick fox jumps",
            "    over the \x1b[38;5;1mlazy\x1b[39m dog",
            "",
        ])
    );

    // Word-wrap indented (no special handling for leading spaces)
    assert_eq!(
        env.render_ok(r#""START marker to help insta\n" ++
                         fill(20, indent("    ", "The quick fox jumps over the " ++
                                         label("error", "lazy") ++ " dog\n"))"#),
        lines(&[
            "START marker to help insta",
            "    The quick fox",
            "jumps over the \x1b[38;5;1mlazy\x1b[39m",
            "dog",
            "",
        ])
    );
}

#[test]
fn test_indent_function() {
    let mut env = TestTemplateEnv::default();
    env.add_color("error", DARK_RED);
    env.add_color("warning", DARK_YELLOW);
    env.add_color("hint", DARK_CYAN);

    // Empty line shouldn't be indented.
    assert_eq!(env.render_ok(r#"indent("__", "")"#), "");
    assert_eq!(env.render_ok(r#"indent("__", "\n")"#), "\n");
    assert_eq!(env.render_ok(r#"indent("__", "a\n\nb")"#), "__a\n\n__b");

    // "\n" at end of labeled text
    assert_eq!(
        env.render_ok(r#"indent("__", label("error", "a\n") ++ label("warning", "b\n"))"#),
        lines(&[
            "\x1b[38;5;1m__a\x1b[39m",
            "\x1b[38;5;3m__b\x1b[39m",
            "",
        ])
    );

    // "\n" in labeled text
    assert_eq!(
        env.render_ok(r#"indent("__", label("error", "a") ++ label("warning", "b\nc"))"#),
        lines(&[
            "\x1b[38;5;1m__a\x1b[39m\x1b[38;5;3mb\x1b[39m",
            "\x1b[38;5;3m__c\x1b[39m",
        ])
    );

    // Labeled prefix + unlabeled content
    assert_eq!(
        env.render_ok(r#"indent(label("error", "XX"), "a\nb\n")"#),
        lines(&[
            "\x1b[38;5;1mXX\x1b[39ma",
            "\x1b[38;5;1mXX\x1b[39mb",
            "",
        ])
    );

    // Nested indent, silly but works
    assert_eq!(
        env.render_ok(r#"indent(label("hint", "A"),
                                label("warning", indent(label("hint", "B"),
                                                        label("error", "x\n") ++ "y")))"#),
        lines(&[
            "\x1b[38;5;6mAB\x1b[38;5;1mx\x1b[39m",
            "\x1b[38;5;6mAB\x1b[38;5;3my\x1b[39m",
        ])
    );
}

#[test]
fn test_label_function() {
    let mut env = TestTemplateEnv::default();
    env.add_keyword("empty", |language| language.wrap_boolean(literal(true)));
    env.add_color("error", DARK_RED);
    env.add_color("warning", DARK_YELLOW);

    // Literal
    assert_eq!(env.render_ok(r#"label("error", "text")"#), "\x1b[38;5;1mtext\x1b[39m");

    // Evaluated property
    assert_eq!(
        env.render_ok(r#"label("error".first_line(), "text")"#),
        "\x1b[38;5;1mtext\x1b[39m"
    );

    // Template
    assert_eq!(
        env.render_ok(r#"label(if(empty, "error", "warning"), "text")"#),
        "\x1b[38;5;1mtext\x1b[39m"
    );
}

#[test]
fn test_concat_function() {
    let mut env = TestTemplateEnv::default();
    env.add_keyword("empty", |language| language.wrap_boolean(literal(true)));
    env.add_keyword("hidden", |language| language.wrap_boolean(literal(false)));
    env.add_color("empty", DARK_GREEN);
    env.add_color("error", DARK_RED);
    env.add_color("warning", DARK_YELLOW);

    assert_eq!(env.render_ok(r#"concat()"#), "");
    assert_eq!(env.render_ok(r#"concat(hidden, empty)"#), "false\x1b[38;5;2mtrue\x1b[39m");
    assert_eq!(
        env.render_ok(r#"concat(label("error", ""), label("warning", "a"), "b")"#),
        "\x1b[38;5;3ma\x1b[39mb"
    );
}

#[test]
fn test_separate_function() {
    let mut env = TestTemplateEnv::default();
    env.add_keyword("description", |language| {
        language.wrap_string(literal("".to_owned()))
    });
    env.add_keyword("empty", |language| language.wrap_boolean(literal(true)));
    env.add_keyword("hidden", |language| language.wrap_boolean(literal(false)));
    env.add_color("empty", DARK_GREEN);
    env.add_color("error", DARK_RED);
    env.add_color("warning", DARK_YELLOW);

    assert_eq!(env.render_ok(r#"separate(" ")"#), "");
    assert_eq!(env.render_ok(r#"separate(" ", "")"#), "");
    assert_eq!(env.render_ok(r#"separate(" ", "a")"#), "a");
    assert_eq!(env.render_ok(r#"separate(" ", "a", "b")"#), "a b");
    assert_eq!(env.render_ok(r#"separate(" ", "a", "", "b")"#), "a b");
    assert_eq!(env.render_ok(r#"separate(" ", "a", "b", "")"#), "a b");
    assert_eq!(env.render_ok(r#"separate(" ", "", "a", "b")"#), "a b");

    // Labeled
    assert_eq!(
        env.render_ok(r#"separate(" ", label("error", ""), label("warning", "a"), "b")"#),
        "\x1b[38;5;3ma\x1b[39m b"
    );

    // List template
    assert_eq!(env.render_ok(r#"separate(" ", "a", ("" ++ ""))"#), "a");
    assert_eq!(env.render_ok(r#"separate(" ", "a", ("" ++ "b"))"#), "a b");

    // Nested separate
    assert_eq!(env.render_ok(r#"separate(" ", "a", separate("|", "", ""))"#), "a");
    assert_eq!(env.render_ok(r#"separate(" ", "a", separate("|", "b", ""))"#), "a b");
    assert_eq!(env.render_ok(r#"separate(" ", "a", separate("|", "b", "c"))"#), "a b|c");

    // Conditional template
    assert_eq!(env.render_ok(r#"separate(" ", "a", if(true, ""))"#), "a");
    assert_eq!(env.render_ok(r#"separate(" ", "a", if(true, "", "f"))"#), "a");
    assert_eq!(env.render_ok(r#"separate(" ", "a", if(false, "t", ""))"#), "a");
    assert_eq!(env.render_ok(r#"separate(" ", "a", if(true, "t", "f"))"#), "a t");

    // Separate keywords
    assert_eq!(
        env.render_ok(r#"separate(" ", hidden, description, empty)"#),
        "false \x1b[38;5;2mtrue\x1b[39m"
    );

    // Keyword as separator
    assert_eq!(env.render_ok(r#"separate(hidden, "X", "Y", "Z")"#), "XfalseYfalseZ");
}

#[test]
fn test_surround_function() {
    let mut env = TestTemplateEnv::default();
    env.add_keyword("lt", |language| {
        language.wrap_string(literal("<".to_owned()))
    });
    env.add_keyword("gt", |language| {
        language.wrap_string(literal(">".to_owned()))
    });
    env.add_keyword("content", |language| {
        language.wrap_string(literal("content".to_owned()))
    });
    env.add_keyword("empty_content", |language| {
        language.wrap_string(literal("".to_owned()))
    });
    env.add_color("error", DARK_RED);
    env.add_color("paren", CYAN);

    assert_eq!(env.render_ok(r#"surround("{", "}", "")"#), "");
    assert_eq!(env.render_ok(r#"surround("{", "}", "a")"#), "{a}");

    // Labeled
    assert_eq!(
        env.render_ok(
            r#"surround(label("paren", "("), label("paren", ")"), label("error", "a"))"#),
        "\x1b[38;5;14m(\x1b[39m\x1b[38;5;1ma\x1b[39m\x1b[38;5;14m)\x1b[39m"
    );

    // Keyword
    assert_eq!(env.render_ok(r#"surround(lt, gt, content)"#), "<content>");
    assert_eq!(env.render_ok(r#"surround(lt, gt, empty_content)"#), "");

    // Conditional template as content
    assert_eq!(env.render_ok(r#"surround(lt, gt, if(empty_content, "", "empty"))"#), "<empty>");
    assert_eq!(env.render_ok(r#"surround(lt, gt, if(empty_content, "not empty", ""))"#), "");
}

/// A property without a value.
struct Failing;

impl TemplateProperty<(), String, bool> for Failing {
    fn extract(
        &self,
        _context: &(),
        _scope: &Scope<'_, String>,
    ) -> Result<bool, TemplatePropertyError> {
        Err(TemplatePropertyError("no value".to_owned()))
    }
}

fn node_of<'i>(env: &'i TestTemplateEnv, source: &'i str) -> ExpressionNode<'i> {
    match Parser::new(source, &env.aliases_map).parse_all() {
        Ok(node) => node,
        Err(_) => panic!("{source} is no expression"),
    }
}

fn bracketed(recorder: &FormatRecorder) -> String {
    let mut text = String::new();
    for op in recorder.ops() {
        match op {
            FormatOp::Char(c) => text.push(*c),
            FormatOp::PushLabel(label) => text.push_str(&format!("[{label}:")),
            FormatOp::PopLabel => text.push(']'),
        }
    }
    text
}

fn candidates_of(env: &TestTemplateEnv, template: &str) -> Vec<String> {
    match env.parse(template) {
        Err(SourceError::Build(error)) => match error.kind {
            TemplateParseErrorKind::NoSuchKeyword { candidates, .. } => candidates,
            TemplateParseErrorKind::NoSuchMethod { candidates, .. } => candidates,
            _ => panic!("{}", error.message()),
        },
        _ => panic!("{template} has no such error"),
    }
}

#[test]
fn no_short_circuit() {
    let mut env = TestTemplateEnv::default();
    env.add_keyword("fails", |language| {
        language.wrap_boolean(BoxedProperty(Box::new(Failing)))
    });
    for template in ["true || fails", "fails || true", "false && fails", "!fails"] {
        assert_eq!(env.render_ok(template), "<Error: no value>");
    }
    assert_eq!(env.render_ok("if(fails, 1, 2)"), "<Error: no value>");
    // The message is text where text is needed
    assert_eq!(env.render_ok(r#"label(fails, "a")"#), "a");
    assert_eq!(env.render_ok(r#""<Error: no value>".contains(fails)"#), "true");
    assert_eq!(bracketed(&env.record("!fails")), "[error:<Error: no value>]");
}

#[test]
fn keywords_and_methods_are_labels() {
    let mut env = TestTemplateEnv::default();
    env.add_keyword("hello", |language| {
        language.wrap_string(literal("Hello".to_owned()))
    });
    env.add_keyword("author", |language| {
        language.wrap_signature(literal(new_signature("N", "e@x")))
    });
    env.add_alias("alias", "hello.upper()");
    assert_eq!(bracketed(&env.record("hello")), "[hello:Hello]");
    assert_eq!(bracketed(&env.record("self.hello()")), "[hello:Hello]");
    assert_eq!(bracketed(&env.record("hello.upper()")), "[hello:[upper:HELLO]]");
    assert_eq!(bracketed(&env.record("alias")), "[hello:[upper:HELLO]]");
    assert_eq!(
        bracketed(&env.record("author")),
        "[author:[name:N] <[email:e@x]>]"
    );
    // Operators, functions and local variables are not labeled
    assert_eq!(bracketed(&env.record("!hello")), "false");
    assert_eq!(bracketed(&env.record("concat(1, true)")), "1true");
    assert_eq!(
        bracketed(&env.record(r#""a".lines().map(|hello| hello)"#)),
        "[lines:[map:a]]"
    );
    // Each word is a label
    assert_eq!(
        bracketed(&env.record("label(\" a\u{2003}b \", 1)")),
        "[a:[b:1]]"
    );
    // Labels are no text
    assert_eq!(env.render_ok(r#"label("x", "abc") ++ label("y", "")"#), "abc");
    assert_eq!(env.render_ok(r#""abc".contains(label("x", "b"))"#), "true");
}

#[test]
fn inner_variables_hide_outer_ones() {
    let env = TestTemplateEnv::default();
    assert_eq!(
        env.render_ok(r#""a\nb".lines().map(|s| "x".lines().map(|s| s) ++ s)"#),
        "xa xb"
    );
    assert_eq!(
        env.render_ok(r#""a\nb".lines().map(|s| "x\ny".lines().map(|t| "z".lines().map(|u| s ++ t ++ u)))"#),
        "axz ayz bxz byz"
    );
    assert_eq!(env.render_ok(r#""a".lines().map(|self| self)"#), "a");
    assert_eq!(
        env.render_ok(r#""a\nb".lines().map(|s| s.upper()).join("-")"#),
        "A-B"
    );
}

#[test]
fn candidates_for_missing_names() {
    let mut env = TestTemplateEnv::default();
    env.add_keyword("hello", |language| {
        language.wrap_string(literal("Hello".to_owned()))
    });
    assert_eq!(candidates_of(&env, "foo"), ["self"]);
    assert_eq!(
        candidates_of(&env, r#""a".lines().map(|s| "b".lines().map(|t| foo))"#),
        ["s", "t", "self"]
    );
    assert_eq!(
        candidates_of(&env, r#""a".foo()"#),
        [
            "len",
            "contains",
            "starts_with",
            "ends_with",
            "remove_prefix",
            "remove_suffix",
            "substr",
            "first_line",
            "lines",
            "upper",
            "lower",
        ]
    );
    assert!(candidates_of(&env, "true.foo()").is_empty());
    assert!(candidates_of(&env, r#""a".lines().foo()"#).is_empty());
    assert!(candidates_of(&env, r#""a".lines().map(|s| s).len()"#).is_empty());
    assert!(candidates_of(&env, r#""a".lines().join("").join("")"#).is_empty());
}

/// A language in which every value is a list of texts that cannot be shown.
struct ListLanguage;

impl TemplateLanguage<'static> for ListLanguage {
    type Context = ();
    type Item = String;
    type Property = TestTemplatePropertyKind;

    fn wrap_string(&self, property: Property<String>) -> Self::Property {
        TestTemplatePropertyKind::Core(CoreTemplatePropertyKind::String(property))
    }

    fn wrap_string_list(&self, property: Property<Vec<String>>) -> Self::Property {
        TestTemplatePropertyKind::Core(CoreTemplatePropertyKind::StringList(property))
    }

    fn wrap_boolean(&self, property: Property<bool>) -> Self::Property {
        TestTemplatePropertyKind::Core(CoreTemplatePropertyKind::Boolean(property))
    }

    fn wrap_integer(&self, property: Property<i64>) -> Self::Property {
        TestTemplatePropertyKind::Core(CoreTemplatePropertyKind::Integer(property))
    }

    fn wrap_signature(&self, property: Property<Signature>) -> Self::Property {
        TestTemplatePropertyKind::Core(CoreTemplatePropertyKind::Signature(property))
    }

    fn wrap_timestamp(&self, property: Property<Timestamp>) -> Self::Property {
        TestTemplatePropertyKind::Core(CoreTemplatePropertyKind::Timestamp(property))
    }

    fn wrap_timestamp_range(&self, property: Property<TimestampRange>) -> Self::Property {
        TestTemplatePropertyKind::Core(CoreTemplatePropertyKind::TimestampRange(property))
    }

    fn wrap_template(&self, template: BoxedTemplate<'static, (), String>) -> Self::Property {
        TestTemplatePropertyKind::Core(CoreTemplatePropertyKind::Template(template))
    }

    fn wrap_list_template(
        &self,
        template: BoxedListTemplate<'static, (), String>,
    ) -> Self::Property {
        TestTemplatePropertyKind::Core(CoreTemplatePropertyKind::ListTemplate(template))
    }

    fn build_self(&self) -> Self::Property {
        TestTemplatePropertyKind::Unit
    }

    fn build_method(
        &self,
        build_ctx: &mut BuildContext<'_, Self::Property>,
        _property: Self::Property,
        function: &FunctionCallNode<'_>,
    ) -> TemplateParseResult<Self::Property> {
        let list = vec!["a".to_owned(), "b".to_owned()];
        build_unformattable_list_method(self, build_ctx, literal(list), function, &WrapAsText)
    }
}

struct WrapAsText;

impl WrapItem<TestTemplatePropertyKind> for WrapAsText {
    fn wrap(&self, item: PropertyPlaceholder) -> TestTemplatePropertyKind {
        TestTemplatePropertyKind::Core(CoreTemplatePropertyKind::String(BoxedProperty(Box::new(
            item,
        ))))
    }
}

#[test]
fn unformattable_list_has_no_join() {
    let env = TestTemplateEnv::default();
    let built = |source: &str| {
        let node = node_of(&env, source);
        build(&ListLanguage, &node).map(|template| {
            let mut recorder = FormatRecorder::new();
            template.format(&(), &Scope::Root, &mut recorder);
            recorder.text()
        })
    };
    assert_eq!(built("self.len()").unwrap(), "2");
    assert_eq!(built("self.map(|x| x ++ x)").unwrap(), "aa bb");
    let message = |source: &str| built(source).unwrap_err().message();
    assert_eq!(message(r#"self.join(",")"#), "Method \"join\" doesn't exist for type \"List\"");
    // Any error means that there is no such keyword
    assert_eq!(message("map"), "Keyword \"map\" doesn't exist");
    match built("map").unwrap_err().kind {
        TemplateParseErrorKind::NoSuchKeyword { candidates, .. } => {
            assert_eq!(candidates, ["self.map(..)", "self"]);
        }
        _ => panic!("unexpected kind"),
    }
}

/// A method that gives a text of its own.
struct Shout;

impl TemplateBuildMethod<'static, TestTemplateLanguage, bool> for Shout {
    fn build(
        &self,
        language: &TestTemplateLanguage,
        _build_ctx: &mut BuildContext<'_, TestTemplatePropertyKind>,
        _self_property: Property<bool>,
        _function: &FunctionCallNode<'_>,
    ) -> TemplateParseResult<TestTemplatePropertyKind> {
        Ok(language.wrap_string(literal("!".to_owned())))
    }
}

#[test]
fn tables_are_merged() {
    let mut env = TestTemplateEnv::default();
    let mut extension = CoreTemplateBuildFnTable::empty();
    let shout = || TemplateBuildMethodFn(Box::new(Shout));
    assert!(!extension.boolean_methods.insert("shout", shout()));
    assert!(extension.boolean_methods.insert("shout", shout()));
    env.language.build_fn_table.merge(extension);
    assert_eq!(env.render_ok("true.shout()"), "!");
    assert_eq!(env.render_ok(r#""a".upper()"#), "A");
    assert_eq!(candidates_of(&env, "true.foo()"), ["shout"]);

    let mut base = TemplateBuildMethodFnMap::new();
    let mut more = TemplateBuildMethodFnMap::new();
    base.insert("a", shout());
    more.insert("b", shout());
    merge_fn_map(&mut base, more);
    assert_eq!(base.names(), ["a", "b"]);
}

#[test]
fn timestamps_and_ranges() {
    let mut env = TestTemplateEnv::default();
    env.add_keyword("t0", |language| {
        language.wrap_timestamp(literal(new_timestamp(0, 60)))
    });
    env.add_keyword("never", |language| {
        language.wrap_timestamp(literal(new_timestamp(i64::MAX, 0)))
    });
    env.add_keyword("range", |language| {
        language.wrap_timestamp_range(literal(TimestampRange {
            start: new_timestamp(0, 0),
            end: new_timestamp(120_000, 0),
        }))
    });
    env.add_keyword("author", |language| {
        language.wrap_signature(literal(new_signature("N", "e@x")))
    });
    assert_eq!(env.render_ok("t0"), "1970-01-01 01:00:00.000 +01:00");
    assert_eq!(env.render_ok("t0.utc()"), "1970-01-01 00:00:00.000 +00:00");
    assert_eq!(env.render_ok("author.timestamp()"), "1970-01-01 00:00:00.000 +00:00");
    assert_eq!(env.render_ok("never"), "<Error: Out-of-range date>");
    assert_eq!(env.render_ok(r#"never.format("%Y")"#), "<Error: Out-of-range date>");
    // A format that can be read but not written
    assert_eq!(env.render_ok(r#"t0.format("%#z")"#), "<Error: Invalid time format>");
    assert_eq!(env.render_ok(r#"never.format("%#z")"#), "<Error: Out-of-range date>");
    assert_eq!(
        env.render_ok("range"),
        "1970-01-01 00:00:00.000 +00:00 - 1970-01-01 00:02:00.000 +00:00"
    );
    assert_eq!(env.render_ok("range.start().utc()"), "1970-01-01 00:00:00.000 +00:00");
    assert_eq!(env.render_ok("range.end()"), "1970-01-01 00:02:00.000 +00:00");
    assert_eq!(env.render_ok("range.duration()"), "2 minutes");
    assert!(env.render_ok("t0.ago()").ends_with(" years ago"));

    let at = |source: &str, now: Timestamp| {
        let node = node_of(&env, source);
        let template = build_at(&env.language, &node, now).ok().unwrap();
        let mut recorder = FormatRecorder::new();
        template.format(&(), &Scope::Root, &mut recorder);
        recorder.text()
    };
    let now = new_timestamp(7_200_000, -330);
    assert_eq!(at("t0.ago()", now), "2 hours ago");
    assert_eq!(at("t0.local()", now), "1969-12-31 18:30:00.000 -05:30");
    assert_eq!(at("t0.ago()", new_timestamp(-1, 0)), "<Error: Out-of-range date>");
    assert_eq!(env.render_ok("t0.local().utc()"), "1970-01-01 00:00:00.000 +00:00");
}

#[test]
fn methods_of_texts_and_timestamps_agree() {
    let mut env = TestTemplateEnv::default();
    env.add_keyword("t0", |language| {
        language.wrap_timestamp(literal(new_timestamp(0, 60)))
    });
    for i in -8..8 {
        let source = format!(r#""abc💩".substr(0, {i}) ++ "abc💩".substr({i}, 7)"#);
        assert_eq!(env.render_ok(&source), "abc💩");
    }
    assert_eq!(env.render_ok(r#""aab".remove_prefix("a") ++ "aab".starts_with("a")"#), "abtrue");
    assert_eq!(env.render_ok(r#""aab".remove_suffix("a") ++ "aab".ends_with("a")"#), "aabfalse");
    assert_eq!(env.render_ok(r#""a\nb\n".lines().len() ++ "a\nb".lines().len()"#), "22");
    assert_eq!(env.render_ok("t0.local().utc()"), env.render_ok("t0.utc()"));
    assert_eq!(env.render_ok("t0.utc().utc()"), env.render_ok("t0.utc()"));
    assert_eq!(env.render_ok("--7 ++ !!true"), "7true");
}

#[test]
fn time_is_read_once_when_it_is_asked_for() {
    let mut env = TestTemplateEnv::default();
    env.add_keyword("t0", |language| {
        language.wrap_timestamp(literal(new_timestamp(0, 0)))
    });
    let mut build_ctx = BuildContext::new();
    let node = node_of(&env, r#""a\nb".lines().map(|x| t0.local() ++ x) ++ t0.ago()"#);
    assert!(build_expression(&env.language, &mut build_ctx, &node).is_ok());
    let now = build_ctx.now();
    assert!(now.timestamp.0 > 0);
    assert_eq!(build_ctx.now(), now);

    let mut build_ctx = BuildContext::new_at(new_timestamp(5, 7));
    assert!(build_expression(&env.language, &mut build_ctx, &node).is_ok());
    assert_eq!(build_ctx.now(), new_timestamp(5, 7));
}

#[test]
fn conversions_of_core_values() {
    let mut env = TestTemplateEnv::default();
    env.add_keyword("t0", |language| {
        language.wrap_timestamp(literal(new_timestamp(0, 0)))
    });
    let mut build_ctx = BuildContext::new_at(new_timestamp(0, 0));
    let scope = Scope::Root;
    let sources = [
        (r#""a""#, Some(true), None, Some("a")),
        (r#""""#, Some(false), None, Some("")),
        (r#""a\nb".lines()"#, Some(true), None, Some("a b")),
        ("true", Some(true), None, Some("true")),
        ("-7", None, Some(-7), Some("-7")),
        ("t0", None, None, Some("1970-01-01 00:00:00.000 +00:00")),
        (r#"label("x", "y")"#, None, None, Some("y")),
        (r#""a\nb".lines().map(|x| x)"#, None, None, Some("a b")),
        ("self", None, None, None),
    ];
    for (source, boolean, integer, text) in sources {
        let node = node_of(&env, source);
        let language = &env.language;
        let mut expression = || build_expression(language, &mut build_ctx, &node).ok().unwrap();
        let value = expression().try_into_boolean().map(|p| p.extract(&(), &scope).unwrap());
        assert_eq!(value, boolean);
        let value = expression().try_into_integer().map(|p| p.extract(&(), &scope).unwrap());
        assert_eq!(value, integer);
        let value = expression().try_into_plain_text().map(|p| p.extract(&(), &scope).unwrap());
        assert_eq!(value.as_deref(), text);
        assert_eq!(expression().try_into_template().is_some(), text.is_some());
        let result = expect_boolean_expression(language, &mut build_ctx, &node);
        assert_eq!(result.is_ok(), boolean.is_some());
        let result = expect_integer_expression(language, &mut build_ctx, &node);
        assert_eq!(result.is_ok(), integer.is_some());
        let result = expect_plain_text_expression(language, &mut build_ctx, &node);
        assert_eq!(result.is_ok(), text.is_some());
    }
    let node = node_of(&env, "-7");
    let property = expect_isize_expression(&env.language, &mut build_ctx, &node).ok().unwrap();
    assert_eq!(property.extract(&(), &scope).unwrap(), -7);
    let property = expect_usize_expression(&env.language, &mut build_ctx, &node).ok().unwrap();
    assert_eq!(
        property.extract(&(), &scope).unwrap_err().0,
        "out of range integral type conversion attempted"
    );
}

#[test]
fn first_error_is_told() {
    let env = TestTemplateEnv::default();
    let message = |source: &str| match env.parse(source) {
        Err(SourceError::Build(error)) => error.message(),
        _ => panic!("{source} has no error"),
    };
    assert_eq!(message("foo ++ bar"), "Keyword \"foo\" doesn't exist");
    assert_eq!(message("concat(1, foo, bar)"), "Keyword \"foo\" doesn't exist");
    assert_eq!(message("separate(foo, bar)"), "Keyword \"foo\" doesn't exist");
    assert_eq!(message("separate()"), "Function \"separate\": Expected at least 1 arguments");
    assert_eq!(message("surround(1, foo, bar)"), "Keyword \"foo\" doesn't exist");
    assert_eq!(message("fill(foo)"), "Function \"fill\": Expected 2 arguments");
    assert_eq!(message("fill(true, foo)"), "Expected expression of type \"Integer\"");
    assert_eq!(message("if(1, foo)"), "Expected expression of type \"Boolean\"");
    assert_eq!(message("if(true, 1, foo)"), "Keyword \"foo\" doesn't exist");
    assert_eq!(message(r#""a".substr(0, true)"#), "Expected expression of type \"Integer\"");
    assert_eq!(message("1 || 2"), "Expected expression of type \"Boolean\"");
    assert_eq!(message("concat(|x| x)"), "Lambda cannot be defined here");
    assert_eq!(env.render_ok(r#""ABC".lower() ++ "ß".upper()"#), "abcSS");
}
