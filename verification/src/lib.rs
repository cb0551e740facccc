//! Templates, from expressions to labeled output.
pub mod argument_laws;
pub mod arguments;
pub mod ast;
pub mod builder;
pub mod core_laws;
pub mod error;
pub mod error_laws;
pub mod formatter;
pub mod function_laws;
pub mod functions;
pub mod label_laws;
pub mod language;
pub mod laws;
pub mod layout;
pub mod layout_laws;
pub mod lists;
pub mod method_laws;
pub mod methods;
pub mod output_laws;
pub mod property;
pub mod template;
pub mod template_laws;
pub mod text;
pub mod text_laws;
pub mod time;
pub mod value_laws;
