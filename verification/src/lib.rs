//! The front end of the fowl compiler: spans, diagnostics, the lexer, the
//! syntax trees of each stage, the semantic analyzer and the lowering to the
//! backend intermediate representation.

pub mod span;
pub mod source_span;
pub mod diagnostic;
pub mod token;
pub mod lexer_error;
pub mod grammar;
pub mod lexer;
pub mod utils;
pub mod parser_ast;
pub mod analyzer_ast;
pub mod analyzer;
pub mod bir_ast;
pub mod bir;
pub mod codegen;
pub mod plan;
pub mod plan_laws;
pub mod syntax_tree;
pub mod parser;
pub mod manifest;
pub mod typecheck_ast;
pub mod typecheck;
