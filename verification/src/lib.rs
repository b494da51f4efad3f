//! A small interpreter for a Lisp-family dialect.
//!
//! The pipeline turns raw text into tokens (`lexer`), tokens into
//! s-expression trees with a quote-desugaring pass (`parser`), and reduces
//! those trees to values against a chained environment of named bindings
//! (`eval`).  Every stage is specified against a mathematical model of the
//! data and verified: the executable lexer, reader and evaluator each refine
//! a specification-level interpreter over views of the exec types.

pub mod sexp;

pub mod lexer;

pub mod parser;

pub mod eval;

pub mod mathop;

pub mod predicates;

pub mod special_forms;

pub mod laws;
