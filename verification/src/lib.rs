//! A minimal expression-language front end: a tokenizer for parenthesized
//! prefix notation, a recursive-descent parser into a tree of tagged values,
//! and a tree-walking evaluator over a binding environment pre-populated
//! with the four arithmetic built-ins.

pub mod builtins;
pub mod env;
pub mod errors;
pub mod evaluator;
pub mod expr;
pub mod myparser;

pub use env::default_env;
pub use env::RispEnv;
pub use errors::RispError;
pub use evaluator::eval;
pub use expr::Expr;
pub use myparser::Parser;
