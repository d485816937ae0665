//! A propositional-logic toolkit: a parser for a small infix grammar of
//! boolean formulas, a recursive evaluator over variable assignments, an
//! enumerator of all truth assignments for a list of variable names, and a
//! truth-table driver that evaluates a formula across every assignment.

pub mod assign;
pub mod ast;
pub mod eval;
pub mod laws;
pub mod parser;
pub mod roundtrip;
pub mod table;
pub mod token;

pub use assign::Assignment;
pub use ast::has_variable;
pub use eval::{EvalError, evaluate};
pub use parser::{parse_expression, ParseError};
pub use table::{permutate, solve_truth_table};
