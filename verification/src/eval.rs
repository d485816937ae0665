//! Recursive evaluation of a formula against a truth assignment.

use vstd::prelude::*;
use crate::assign::Assignment;
use crate::ast::{Expr, Opcode, SExpr};

verus! {

/// Evaluation failed: the formula mentions a variable the assignment does
/// not bind.
#[derive(Debug, PartialEq)]
pub enum EvalError {
    UnboundVariable(String),
}

/// The truth value of one binary connective on given operand values.
pub open spec fn apply_op(op: Opcode, a: bool, b: bool) -> bool {
    match op {
        Opcode::Conditional => !a || b,
        Opcode::Biconditional => a == b,
        Opcode::And => a && b,
        Opcode::Or => a || b,
    }
}

/// The value of a formula under an assignment, or the name of the first
/// unbound variable met in left-to-right order. Both operands of a binary
/// node are evaluated; nothing short-circuits.
pub open spec fn spec_evaluate(e: SExpr, m: Map<Seq<char>, bool>) -> Result<bool, Seq<char>>
    decreases e,
{
    match e {
        SExpr::Boolean(b) => Ok(b),
        SExpr::Variable(name) => if m.contains_key(name) {
            Ok(m[name])
        } else {
            Err(name)
        },
        SExpr::Neg(x) => match spec_evaluate(*x, m) {
            Ok(b) => Ok(!b),
            Err(n) => Err(n),
        },
        SExpr::Op(l, op, r) => match (spec_evaluate(*l, m), spec_evaluate(*r, m)) {
            (Ok(a), Ok(b)) => Ok(apply_op(op, a, b)),
            (Err(n), _) => Err(n),
            (_, Err(n)) => Err(n),
        },
    }
}

/// Evaluates `expr` under `state`. Returns `Ok` exactly when every variable
/// of the formula is bound; otherwise names the first unbound variable met
/// in left-to-right order.
pub fn evaluate(expr: &Expr, state: &Assignment) -> (r: Result<bool, EvalError>)
    ensures
        match spec_evaluate(expr@, state@) {
            Ok(b) => r == Ok::<bool, EvalError>(b),
            Err(name) => r matches Err(e) && (e matches EvalError::UnboundVariable(s) && s@
                == name),
        },
    decreases expr,
{
    match expr {
        Expr::Boolean(value) => Ok(*value),
        Expr::Neg(operand) => match evaluate(operand, state) {
            Ok(b) => Ok(!b),
            Err(e) => Err(e),
        },
        Expr::Op(left, operator, right) => {
            let left_operand = match evaluate(left, state) {
                Ok(b) => b,
                Err(e) => return Err(e),
            };
            let right_operand = match evaluate(right, state) {
                Ok(b) => b,
                Err(e) => return Err(e),
            };
            match operator {
                Opcode::Conditional => Ok(!left_operand || right_operand),
                Opcode::Biconditional => Ok(left_operand == right_operand),
                Opcode::And => Ok(left_operand && right_operand),
                Opcode::Or => Ok(left_operand || right_operand),
            }
        },
        Expr::Variable(name) => match state.get(name.as_str()) {
            Some(b) => Ok(b),
            None => Err(EvalError::UnboundVariable(name.clone())),
        },
    }
}

} // verus!
