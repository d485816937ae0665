//! Recursive-descent parsing of a token sequence into an expression tree.
//!
//! The grammar, tightest binding first: primary (literal, identifier,
//! parenthesized expression), prefix `not` (right-associative), then the
//! left-associative binary levels `and`, `or`, `=>`, `<=>`, in that order of
//! loosening precedence. `A and B or C` is `(A and B) or C`; `A => B => C`
//! is `(A => B) => C`; `not A and B` is `(not A) and B`.

use vstd::prelude::*;
use crate::ast::{Expr, Opcode, SExpr};
use crate::token::{spec_tokenize, toks, tokenize, STok, Token};

verus! {

/// Why parsing failed: the text ended where a token was owed, a token stood
/// where the grammar does not allow it (with its position in the token
/// sequence), or a character began no token at all (with its position in the
/// text).
#[derive(Debug, PartialEq)]
pub enum ParseError {
    UnexpectedEnd,
    UnexpectedToken { token: Token, position: usize },
    InvalidCharacter { position: usize },
}

/// The mathematical value of a `ParseError`.
pub enum SPErr {
    UnexpectedEnd,
    UnexpectedToken(STok, int),
    InvalidCharacter(int),
}

impl View for ParseError {
    type V = SPErr;

    open spec fn view(&self) -> SPErr {
        match self {
            ParseError::UnexpectedEnd => SPErr::UnexpectedEnd,
            ParseError::UnexpectedToken { token, position } => SPErr::UnexpectedToken(
                token@,
                *position as int,
            ),
            ParseError::InvalidCharacter { position } => SPErr::InvalidCharacter(
                *position as int,
            ),
        }
    }
}

/// A parse of one grammar level: the tree it built and the position of the
/// first token it did not consume, or the error.
///
/// Each level consumes at least one token, so the position grows; the
/// `i < j` tests below record that for the termination measure, and their
/// failing branches are never reached.
pub open spec fn spec_parse_primary(ts: Seq<STok>, i: int) -> Result<(SExpr, int), SPErr>
    decreases ts.len() - i, 0int,
{
    if i < 0 || i >= ts.len() {
        Err(SPErr::UnexpectedEnd)
    } else {
        match ts[i] {
            STok::True => Ok((SExpr::Boolean(true), i + 1)),
            STok::False => Ok((SExpr::Boolean(false), i + 1)),
            STok::Ident(name) => Ok((SExpr::Variable(name), i + 1)),
            STok::LParen => match spec_parse_bicond(ts, i + 1) {
                Ok((e, j)) => if j < ts.len() {
                    if ts[j] is RParen {
                        Ok((e, j + 1))
                    } else {
                        Err(SPErr::UnexpectedToken(ts[j], j))
                    }
                } else {
                    Err(SPErr::UnexpectedEnd)
                },
                Err(pe) => Err(pe),
            },
            _ => Err(SPErr::UnexpectedToken(ts[i], i)),
        }
    }
}

/// Prefix `not`, right-associative: `not not X` is a doubled negation.
pub open spec fn spec_parse_not(ts: Seq<STok>, i: int) -> Result<(SExpr, int), SPErr>
    decreases ts.len() - i, 1int,
{
    if 0 <= i < ts.len() && ts[i] is Not {
        match spec_parse_not(ts, i + 1) {
            Ok((e, j)) => Ok((SExpr::Neg(Box::new(e)), j)),
            Err(pe) => Err(pe),
        }
    } else {
        spec_parse_primary(ts, i)
    }
}

/// Left-associative `and` over `not` operands.
pub open spec fn spec_parse_and(ts: Seq<STok>, i: int) -> Result<(SExpr, int), SPErr>
    decreases ts.len() - i, 3int,
{
    match spec_parse_not(ts, i) {
        Ok((e, j)) => if i < j <= ts.len() {
            spec_parse_and_rest(e, ts, j)
        } else {
            Err(SPErr::UnexpectedEnd)
        },
        Err(pe) => Err(pe),
    }
}

/// Folds further `and` operands onto `acc`, left to right.
pub open spec fn spec_parse_and_rest(acc: SExpr, ts: Seq<STok>, i: int) -> Result<
    (SExpr, int),
    SPErr,
>
    decreases ts.len() - i, 2int,
{
    if 0 <= i < ts.len() && ts[i] is And {
        match spec_parse_not(ts, i + 1) {
            Ok((e, j)) => if i < j <= ts.len() {
                spec_parse_and_rest(SExpr::Op(Box::new(acc), Opcode::And, Box::new(e)), ts, j)
            } else {
                Err(SPErr::UnexpectedEnd)
            },
            Err(pe) => Err(pe),
        }
    } else {
        Ok((acc, i))
    }
}

/// Left-associative `or` over `and` operands: `or` binds looser than `and`.
pub open spec fn spec_parse_or(ts: Seq<STok>, i: int) -> Result<(SExpr, int), SPErr>
    decreases ts.len() - i, 5int,
{
    match spec_parse_and(ts, i) {
        Ok((e, j)) => if i < j <= ts.len() {
            spec_parse_or_rest(e, ts, j)
        } else {
            Err(SPErr::UnexpectedEnd)
        },
        Err(pe) => Err(pe),
    }
}

/// Folds further `or` operands onto `acc`, left to right.
pub open spec fn spec_parse_or_rest(acc: SExpr, ts: Seq<STok>, i: int) -> Result<
    (SExpr, int),
    SPErr,
>
    decreases ts.len() - i, 4int,
{
    if 0 <= i < ts.len() && ts[i] is Or {
        match spec_parse_and(ts, i + 1) {
            Ok((e, j)) => if i < j <= ts.len() {
                spec_parse_or_rest(SExpr::Op(Box::new(acc), Opcode::Or, Box::new(e)), ts, j)
            } else {
                Err(SPErr::UnexpectedEnd)
            },
            Err(pe) => Err(pe),
        }
    } else {
        Ok((acc, i))
    }
}

/// Left-associative `=>` over `or` operands: looser than `or`.
pub open spec fn spec_parse_cond(ts: Seq<STok>, i: int) -> Result<(SExpr, int), SPErr>
    decreases ts.len() - i, 7int,
{
    match spec_parse_or(ts, i) {
        Ok((e, j)) => if i < j <= ts.len() {
            spec_parse_cond_rest(e, ts, j)
        } else {
            Err(SPErr::UnexpectedEnd)
        },
        Err(pe) => Err(pe),
    }
}

/// Folds further `=>` operands onto `acc`, left to right.
pub open spec fn spec_parse_cond_rest(acc: SExpr, ts: Seq<STok>, i: int) -> Result<
    (SExpr, int),
    SPErr,
>
    decreases ts.len() - i, 6int,
{
    if 0 <= i < ts.len() && ts[i] is Cond {
        match spec_parse_or(ts, i + 1) {
            Ok((e, j)) => if i < j <= ts.len() {
                spec_parse_cond_rest(
                    SExpr::Op(Box::new(acc), Opcode::Conditional, Box::new(e)),
                    ts,
                    j,
                )
            } else {
                Err(SPErr::UnexpectedEnd)
            },
            Err(pe) => Err(pe),
        }
    } else {
        Ok((acc, i))
    }
}

/// Left-associative `<=>` over `=>` operands: the loosest level.
pub open spec fn spec_parse_bicond(ts: Seq<STok>, i: int) -> Result<(SExpr, int), SPErr>
    decreases ts.len() - i, 9int,
{
    match spec_parse_cond(ts, i) {
        Ok((e, j)) => if i < j <= ts.len() {
            spec_parse_bicond_rest(e, ts, j)
        } else {
            Err(SPErr::UnexpectedEnd)
        },
        Err(pe) => Err(pe),
    }
}

/// Folds further `<=>` operands onto `acc`, left to right.
pub open spec fn spec_parse_bicond_rest(acc: SExpr, ts: Seq<STok>, i: int) -> Result<
    (SExpr, int),
    SPErr,
>
    decreases ts.len() - i, 8int,
{
    if 0 <= i < ts.len() && ts[i] is Bicond {
        match spec_parse_cond(ts, i + 1) {
            Ok((e, j)) => if i < j <= ts.len() {
                spec_parse_bicond_rest(
                    SExpr::Op(Box::new(acc), Opcode::Biconditional, Box::new(e)),
                    ts,
                    j,
                )
            } else {
                Err(SPErr::UnexpectedEnd)
            },
            Err(pe) => Err(pe),
        }
    } else {
        Ok((acc, i))
    }
}

/// The formula a whole text denotes: its tokens, parsed from the loosest
/// level, with every token consumed.
pub open spec fn spec_parse(s: Seq<char>) -> Result<SExpr, SPErr> {
    match spec_tokenize(s) {
        Err(p) => Err(SPErr::InvalidCharacter(p)),
        Ok(ts) => match spec_parse_bicond(ts, 0) {
            Ok((e, j)) => if j == ts.len() {
                Ok(e)
            } else if 0 <= j < ts.len() {
                Err(SPErr::UnexpectedToken(ts[j], j))
            } else {
                Err(SPErr::UnexpectedEnd)
            },
            Err(pe) => Err(pe),
        },
    }
}

/// One step of an executable parse agrees with the specified one: same tree,
/// same next position, or the same error.
pub open spec fn step_matches(
    sr: Result<(SExpr, int), SPErr>,
    r: Result<(Expr, usize), ParseError>,
) -> bool {
    match sr {
        Ok((se, j)) => r matches Ok((e, k)) && e@ == se && k as int == j,
        Err(pe) => r matches Err(q) && q@ == pe,
    }
}

fn parse_primary(ts: &Vec<Token>, i: usize) -> (r: Result<(Expr, usize), ParseError>)
    ensures
        step_matches(spec_parse_primary(toks(ts@), i as int), r),
    decreases ts@.len() - i, 0int,
{
    if i >= ts.len() {
        Err(ParseError::UnexpectedEnd)
    } else {
        match &ts[i] {
            Token::True => Ok((Expr::Boolean(true), i + 1)),
            Token::False => Ok((Expr::Boolean(false), i + 1)),
            Token::Ident(name) => Ok((Expr::Variable(name.clone()), i + 1)),
            Token::LParen => match parse_bicond(ts, i + 1) {
                Ok((e, j)) => if j < ts.len() {
                    if matches!(&ts[j], Token::RParen) {
                        Ok((e, j + 1))
                    } else {
                        Err(ParseError::UnexpectedToken { token: ts[j].clone(), position: j })
                    }
                } else {
                    Err(ParseError::UnexpectedEnd)
                },
                Err(pe) => Err(pe),
            },
            _ => Err(ParseError::UnexpectedToken { token: ts[i].clone(), position: i }),
        }
    }
}

fn parse_not(ts: &Vec<Token>, i: usize) -> (r: Result<(Expr, usize), ParseError>)
    ensures
        step_matches(spec_parse_not(toks(ts@), i as int), r),
    decreases ts@.len() - i, 1int,
{
    if i < ts.len() && matches!(&ts[i], Token::Not) {
        match parse_not(ts, i + 1) {
            Ok((e, j)) => Ok((Expr::Neg(Box::new(e)), j)),
            Err(pe) => Err(pe),
        }
    } else {
        parse_primary(ts, i)
    }
}

fn parse_and(ts: &Vec<Token>, i: usize) -> (r: Result<(Expr, usize), ParseError>)
    ensures
        step_matches(spec_parse_and(toks(ts@), i as int), r),
    decreases ts@.len() - i, 3int,
{
    match parse_not(ts, i) {
        Ok((e, j)) => if i < j && j <= ts.len() {
            parse_and_rest(e, ts, j)
        } else {
            Err(ParseError::UnexpectedEnd)
        },
        Err(pe) => Err(pe),
    }
}

fn parse_and_rest(acc: Expr, ts: &Vec<Token>, i: usize) -> (r: Result<
    (Expr, usize),
    ParseError,
>)
    ensures
        step_matches(spec_parse_and_rest(acc@, toks(ts@), i as int), r),
    decreases ts@.len() - i, 2int,
{
    if i < ts.len() && matches!(&ts[i], Token::And) {
        match parse_not(ts, i + 1) {
            Ok((e, j)) => if i < j && j <= ts.len() {
                parse_and_rest(Expr::Op(Box::new(acc), Opcode::And, Box::new(e)), ts, j)
            } else {
                Err(ParseError::UnexpectedEnd)
            },
            Err(pe) => Err(pe),
        }
    } else {
        Ok((acc, i))
    }
}

fn parse_or(ts: &Vec<Token>, i: usize) -> (r: Result<(Expr, usize), ParseError>)
    ensures
        step_matches(spec_parse_or(toks(ts@), i as int), r),
    decreases ts@.len() - i, 5int,
{
    match parse_and(ts, i) {
        Ok((e, j)) => if i < j && j <= ts.len() {
            parse_or_rest(e, ts, j)
        } else {
            Err(ParseError::UnexpectedEnd)
        },
        Err(pe) => Err(pe),
    }
}

fn parse_or_rest(acc: Expr, ts: &Vec<Token>, i: usize) -> (r: Result<(Expr, usize), ParseError>)
    ensures
        step_matches(spec_parse_or_rest(acc@, toks(ts@), i as int), r),
    decreases ts@.len() - i, 4int,
{
    if i < ts.len() && matches!(&ts[i], Token::Or) {
        match parse_and(ts, i + 1) {
            Ok((e, j)) => if i < j && j <= ts.len() {
                parse_or_rest(Expr::Op(Box::new(acc), Opcode::Or, Box::new(e)), ts, j)
            } else {
                Err(ParseError::UnexpectedEnd)
            },
            Err(pe) => Err(pe),
        }
    } else {
        Ok((acc, i))
    }
}

fn parse_cond(ts: &Vec<Token>, i: usize) -> (r: Result<(Expr, usize), ParseError>)
    ensures
        step_matches(spec_parse_cond(toks(ts@), i as int), r),
    decreases ts@.len() - i, 7int,
{
    match parse_or(ts, i) {
        Ok((e, j)) => if i < j && j <= ts.len() {
            parse_cond_rest(e, ts, j)
        } else {
            Err(ParseError::UnexpectedEnd)
        },
        Err(pe) => Err(pe),
    }
}

fn parse_cond_rest(acc: Expr, ts: &Vec<Token>, i: usize) -> (r: Result<
    (Expr, usize),
    ParseError,
>)
    ensures
        step_matches(spec_parse_cond_rest(acc@, toks(ts@), i as int), r),
    decreases ts@.len() - i, 6int,
{
    if i < ts.len() && matches!(&ts[i], Token::Cond) {
        match parse_or(ts, i + 1) {
            Ok((e, j)) => if i < j && j <= ts.len() {
                parse_cond_rest(Expr::Op(Box::new(acc), Opcode::Conditional, Box::new(e)), ts, j)
            } else {
                Err(ParseError::UnexpectedEnd)
            },
            Err(pe) => Err(pe),
        }
    } else {
        Ok((acc, i))
    }
}

fn parse_bicond(ts: &Vec<Token>, i: usize) -> (r: Result<(Expr, usize), ParseError>)
    ensures
        step_matches(spec_parse_bicond(toks(ts@), i as int), r),
    decreases ts@.len() - i, 9int,
{
    match parse_cond(ts, i) {
        Ok((e, j)) => if i < j && j <= ts.len() {
            parse_bicond_rest(e, ts, j)
        } else {
            Err(ParseError::UnexpectedEnd)
        },
        Err(pe) => Err(pe),
    }
}

fn parse_bicond_rest(acc: Expr, ts: &Vec<Token>, i: usize) -> (r: Result<
    (Expr, usize),
    ParseError,
>)
    ensures
        step_matches(spec_parse_bicond_rest(acc@, toks(ts@), i as int), r),
    decreases ts@.len() - i, 8int,
{
    if i < ts.len() && matches!(&ts[i], Token::Bicond) {
        match parse_cond(ts, i + 1) {
            Ok((e, j)) => if i < j && j <= ts.len() {
                parse_bicond_rest(
                    Expr::Op(Box::new(acc), Opcode::Biconditional, Box::new(e)),
                    ts,
                    j,
                )
            } else {
                Err(ParseError::UnexpectedEnd)
            },
            Err(pe) => Err(pe),
        }
    } else {
        Ok((acc, i))
    }
}

/// Parses formula text into an expression tree. Succeeds exactly when the
/// text tokenizes and the whole token sequence is one formula of the
/// grammar; the tree is the one the grammar's precedence and associativity
/// prescribe.
pub fn parse_expression(expression: &str) -> (r: Result<Box<Expr>, ParseError>)
    ensures
        match spec_parse(expression@) {
            Ok(se) => r matches Ok(e) && e@ == se,
            Err(pe) => r matches Err(q) && q@ == pe,
        },
{
    let ts = match tokenize(expression) {
        Ok(v) => v,
        Err(p) => {
            return Err(ParseError::InvalidCharacter { position: p });
        },
    };
    match parse_bicond(&ts, 0) {
        Ok((e, j)) => if j == ts.len() {
            Ok(Box::new(e))
        } else if j < ts.len() {
            Err(ParseError::UnexpectedToken { token: ts[j].clone(), position: j })
        } else {
            Err(ParseError::UnexpectedEnd)
        },
        Err(pe) => Err(pe),
    }
}

} // verus!
