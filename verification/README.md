# template_builder

Builds templates from the syntax trees of template expressions, such as
`separate(" ", author.name(), label("id", commit_id))`, and writes what they give for a
context. The library is written in Verus: each function states in its contract what it
does, and the contracts are proved. What chrono, timeago and a few functions of the standard
library give is trusted, and is stated where they are called, in `src/time.rs` and `src/text.rs`.

## How it is laid out

- `src/ast.rs`: the syntax tree. `src/error.rs`, `src/arguments.rs`: what can be wrong with it.
- `src/text.rs`, `src/time.rs`: operations on text, and points in time.
- `src/formatter.rs`, `src/layout.rs`: labeled output, and how it is indented and wrapped.
- `src/property.rs`, `src/template.rs`: values that are extracted from a context, and what is
  written for one. `src/functions.rs`: the functions that expressions apply to values.
- `src/language.rs`: the interface of a template language, and the kinds of properties that
  every language has.
- `src/builder.rs`: from expressions to templates. `src/lists.rs`, `src/methods.rs`: the methods
  of lists and of the core types.
- `src/laws.rs`, `src/core_laws.rs`, `src/method_laws.rs`, `src/output_laws.rs`,
  `src/template_laws.rs`, `src/label_laws.rs`: laws that relate several functions.
- `app/`: streams and source texts around the library.

## How the contracts read

A property means a function from the context, and from the list items that are in scope, to a
value or to the message that says why there is none. A template means such a function to
labeled output. `expression_meaning` says what each expression means in a language, and
`build_expression` builds exactly that, or fails with exactly the error that it says. What a
language does itself is named by the specification functions of `TemplateLanguage`.

The time is read when a part of a template that is built asks for it, and then once: `build`
reads it, and `build_at` takes it. Contracts hold for every time that the context admits.
