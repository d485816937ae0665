//! The expression tree of a propositional formula and its mathematical model.

use vstd::prelude::*;

verus! {

/// The binary connectives. Negation is not among them: a negation node has
/// its own shape in the tree, so a binary node can never carry it.
#[derive(Debug, Clone, Copy, PartialEq, Eq, Structural)]
pub enum Opcode {
    Conditional,
    Biconditional,
    And,
    Or,
}

/// A propositional formula: a boolean literal, a variable named by a string
/// of uppercase letters, a binary connective applied to two subtrees, or a
/// negation of one subtree.
#[derive(Debug, PartialEq)]
pub enum Expr {
    Boolean(bool),
    Op(Box<Expr>, Opcode, Box<Expr>),
    Neg(Box<Expr>),
    Variable(String),
}

/// The mathematical shape of a formula: `Expr` with every variable name
/// abstracted to its character sequence. Contracts speak of this type.
pub enum SExpr {
    Boolean(bool),
    Op(Box<SExpr>, Opcode, Box<SExpr>),
    Neg(Box<SExpr>),
    Variable(Seq<char>),
}

impl Expr {
    /// The mathematical value of this tree: the same shape over `Seq<char>` names.
    pub open spec fn deep(self) -> SExpr
        decreases self,
    {
        match self {
            Expr::Boolean(b) => SExpr::Boolean(b),
            Expr::Op(l, op, r) => SExpr::Op(Box::new((*l).deep()), op, Box::new((*r).deep())),
            Expr::Neg(x) => SExpr::Neg(Box::new((*x).deep())),
            Expr::Variable(s) => SExpr::Variable(s@),
        }
    }
}

impl View for Expr {
    type V = SExpr;

    open spec fn view(&self) -> SExpr {
        self.deep()
    }
}

/// Whether a formula contains at least one variable leaf.
pub open spec fn spec_has_variable(e: SExpr) -> bool
    decreases e,
{
    match e {
        SExpr::Boolean(_) => false,
        SExpr::Op(l, _, r) => spec_has_variable(*l) || spec_has_variable(*r),
        SExpr::Neg(x) => spec_has_variable(*x),
        SExpr::Variable(_) => true,
    }
}

impl Expr {
    /// A leaf is a literal or a variable: a node with no subtrees.
    pub fn is_leaf(self) -> (r: bool)
        ensures
            r == (self is Boolean || self is Variable),
    {
        match self {
            Expr::Boolean(_) => true,
            Expr::Variable(_) => true,
            Expr::Op(_, _, _) => false,
            Expr::Neg(_) => false,
        }
    }
}

/// The one-character symbol of a binary connective.
pub open spec fn op_symbol(op: Opcode) -> Seq<char> {
    match op {
        Opcode::Conditional => seq!['\u{21d2}'],
        Opcode::Biconditional => seq!['\u{21d4}'],
        Opcode::And => seq!['\u{2227}'],
        Opcode::Or => seq!['\u{2228}'],
    }
}

/// The canonical text of a formula: literals as words, operators as
/// symbols, every binary node fully parenthesized as `(left OP right)`, a
/// negation as `OP operand` with no parentheses of its own.
pub open spec fn spec_render(e: SExpr) -> Seq<char>
    decreases e,
{
    match e {
        SExpr::Boolean(b) => if b {
            seq!['t', 'r', 'u', 'e']
        } else {
            seq!['f', 'a', 'l', 's', 'e']
        },
        SExpr::Variable(s) => s,
        SExpr::Neg(x) => seq!['\u{ac}', ' '] + spec_render(*x),
        SExpr::Op(l, op, r) => seq!['('] + spec_render(*l) + seq![' '] + op_symbol(op) + seq![
            ' ',
        ] + spec_render(*r) + seq![')'],
    }
}

impl Opcode {
    /// The symbolic spelling of this connective.
    pub fn render(&self) -> (r: String)
        ensures
            r@ == op_symbol(*self),
    {
        proof {
            reveal_strlit("\u{21d2}");
            reveal_strlit("\u{21d4}");
            reveal_strlit("\u{2227}");
            reveal_strlit("\u{2228}");
            assert("\u{21d2}"@ =~= seq!['\u{21d2}']);
            assert("\u{21d4}"@ =~= seq!['\u{21d4}']);
            assert("\u{2227}"@ =~= seq!['\u{2227}']);
            assert("\u{2228}"@ =~= seq!['\u{2228}']);
        }
        match self {
            Opcode::Conditional => String::from_str("\u{21d2}"),
            Opcode::Biconditional => String::from_str("\u{21d4}"),
            Opcode::And => String::from_str("\u{2227}"),
            Opcode::Or => String::from_str("\u{2228}"),
        }
    }
}

impl Expr {
    /// The canonical text of this formula, as `spec_render` describes it.
    pub fn render(&self) -> (r: String)
        ensures
            r@ == spec_render(self@),
        decreases self,
    {
        match self {
            Expr::Boolean(b) => {
                proof {
                    reveal_strlit("true");
                    reveal_strlit("false");
                    assert("true"@ =~= seq!['t', 'r', 'u', 'e']);
                    assert("false"@ =~= seq!['f', 'a', 'l', 's', 'e']);
                }
                if *b {
                    String::from_str("true")
                } else {
                    String::from_str("false")
                }
            },
            Expr::Variable(s) => s.clone(),
            Expr::Neg(x) => {
                proof {
                    reveal_strlit("\u{ac} ");
                    assert("\u{ac} "@ =~= seq!['\u{ac}', ' ']);
                }
                let mut out = String::from_str("\u{ac} ");
                let operand = x.render();
                out.append(operand.as_str());
                out
            },
            Expr::Op(l, op, r) => {
                proof {
                    reveal_strlit("(");
                    reveal_strlit(")");
                    reveal_strlit(" ");
                    assert("("@ =~= seq!['(']);
                    assert(")"@ =~= seq![')']);
                    assert(" "@ =~= seq![' ']);
                }
                let mut out = String::from_str("(");
                let left = l.render();
                out.append(left.as_str());
                out.append(" ");
                let sym = op.render();
                out.append(sym.as_str());
                out.append(" ");
                let right = r.render();
                out.append(right.as_str());
                out.append(")");
                proof {
                    assert(out@ =~= spec_render(self@));
                }
                out
            },
        }
    }
}

/// Whether the formula mentions any variable, by structural recursion.
pub fn has_variable(expr: Expr) -> (r: bool)
    ensures
        r == spec_has_variable(expr@),
    decreases expr,
{
    match expr {
        Expr::Boolean(_) => false,
        Expr::Op(left, _, right) => {
            let in_left = has_variable(*left);
            let in_right = has_variable(*right);
            in_left || in_right
        },
        Expr::Neg(operand) => has_variable(*operand),
        Expr::Variable(_) => true,
    }
}

} // verus!
