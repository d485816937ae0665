//! General laws of the formula semantics, stated over the mathematical
//! model and proved once for all inputs.

use vstd::prelude::*;
use crate::ast::{Opcode, SExpr};
use crate::eval::spec_evaluate;
use crate::parser::{
    spec_parse, spec_parse_and, spec_parse_and_rest, spec_parse_bicond, spec_parse_bicond_rest,
    spec_parse_cond, spec_parse_cond_rest, spec_parse_not, spec_parse_or, spec_parse_or_rest,
    spec_parse_primary, SPErr,
};
use crate::token::{scan_lower, scan_upper, spec_tokenize, spec_tokenize_from, STok};

verus! {

/// `and` binds tighter than `or`: the unparenthesized text parses to the
/// very tree the parenthesized one names, so the two evaluate identically
/// under every assignment.
#[verifier::rlimit(60)]
pub proof fn lemma_precedence_and_before_or()
    ensures
        spec_parse("A and B or C"@) == spec_parse("(A and B) or C"@),
        spec_parse("A and B or C"@) == Ok::<SExpr, SPErr>(
            SExpr::Op(
                Box::new(
                    SExpr::Op(
                        Box::new(SExpr::Variable(seq!['A'])),
                        Opcode::And,
                        Box::new(SExpr::Variable(seq!['B'])),
                    ),
                ),
                Opcode::Or,
                Box::new(SExpr::Variable(seq!['C'])),
            ),
        ),
{
    reveal_strlit("A and B or C");
    reveal_strlit("(A and B) or C");
    let s1 = seq!['A', ' ', 'a', 'n', 'd', ' ', 'B', ' ', 'o', 'r', ' ', 'C'];
    let s2 = seq!['(', 'A', ' ', 'a', 'n', 'd', ' ', 'B', ')', ' ', 'o', 'r', ' ', 'C'];
    assert("A and B or C"@ =~= s1);
    assert("(A and B) or C"@ =~= s2);
    let tree = SExpr::Op(
        Box::new(
            SExpr::Op(
                Box::new(SExpr::Variable(seq!['A'])),
                Opcode::And,
                Box::new(SExpr::Variable(seq!['B'])),
            ),
        ),
        Opcode::Or,
        Box::new(SExpr::Variable(seq!['C'])),
    );
    let toks1 = seq![
        STok::Ident(seq!['A']),
        STok::And,
        STok::Ident(seq!['B']),
        STok::Or,
        STok::Ident(seq!['C']),
    ];
    let toks2 = seq![
        STok::LParen,
        STok::Ident(seq!['A']),
        STok::And,
        STok::Ident(seq!['B']),
        STok::RParen,
        STok::Or,
        STok::Ident(seq!['C']),
    ];
    lemma_parse_plain_text(s1, toks1, tree);
    lemma_parse_parenthesized_text(s2, toks2, tree);
}

/// `A and B or C` parses to the `(and, then or)` tree.
proof fn lemma_parse_plain_text(s1: Seq<char>, toks1: Seq<STok>, tree: SExpr)
    requires
        s1 == seq!['A', ' ', 'a', 'n', 'd', ' ', 'B', ' ', 'o', 'r', ' ', 'C'],
        toks1 == seq![
            STok::Ident(seq!['A']),
            STok::And,
            STok::Ident(seq!['B']),
            STok::Or,
            STok::Ident(seq!['C']),
        ],
        tree == SExpr::Op(
            Box::new(
                SExpr::Op(
                    Box::new(SExpr::Variable(seq!['A'])),
                    Opcode::And,
                    Box::new(SExpr::Variable(seq!['B'])),
                ),
            ),
            Opcode::Or,
            Box::new(SExpr::Variable(seq!['C'])),
        ),
    ensures
        spec_parse(s1) == Ok::<SExpr, SPErr>(tree),
{
    lemma_tokenize_plain(s1, toks1);
    lemma_parse_plain_tokens(toks1, tree);
    assert(toks1.len() == 5);
}

/// `(A and B) or C` parses to the same tree.
proof fn lemma_parse_parenthesized_text(s2: Seq<char>, toks2: Seq<STok>, tree: SExpr)
    requires
        s2 == seq!['(', 'A', ' ', 'a', 'n', 'd', ' ', 'B', ')', ' ', 'o', 'r', ' ', 'C'],
        toks2 == seq![
            STok::LParen,
            STok::Ident(seq!['A']),
            STok::And,
            STok::Ident(seq!['B']),
            STok::RParen,
            STok::Or,
            STok::Ident(seq!['C']),
        ],
        tree == SExpr::Op(
            Box::new(
                SExpr::Op(
                    Box::new(SExpr::Variable(seq!['A'])),
                    Opcode::And,
                    Box::new(SExpr::Variable(seq!['B'])),
                ),
            ),
            Opcode::Or,
            Box::new(SExpr::Variable(seq!['C'])),
        ),
    ensures
        spec_parse(s2) == Ok::<SExpr, SPErr>(tree),
{
    lemma_tokenize_parenthesized(s2, toks2);
    lemma_parse_parenthesized_tokens(toks2, tree);
    assert(toks2.len() == 7);
}

/// Tokenizing `A and B or C` step by step, from the end of the text back to
/// its start.
proof fn lemma_tokenize_plain(s1: Seq<char>, toks1: Seq<STok>)
    requires
        s1 == seq!['A', ' ', 'a', 'n', 'd', ' ', 'B', ' ', 'o', 'r', ' ', 'C'],
        toks1 == seq![
            STok::Ident(seq!['A']),
            STok::And,
            STok::Ident(seq!['B']),
            STok::Or,
            STok::Ident(seq!['C']),
        ],
    ensures
        spec_tokenize(s1) == Ok::<Seq<STok>, int>(toks1),
{
    assert(spec_tokenize_from(s1, 12) == Ok::<Seq<STok>, int>(Seq::empty()));
    assert(scan_upper(s1, 12) == 12);
    assert(s1.subrange(11, 12) =~= seq!['C']);
    assert(seq![STok::Ident(seq!['C'])] + Seq::<STok>::empty() =~= toks1.subrange(4, 5));
    assert(spec_tokenize_from(s1, 11) == Ok::<Seq<STok>, int>(toks1.subrange(4, 5)));
    assert(spec_tokenize_from(s1, 10) == Ok::<Seq<STok>, int>(toks1.subrange(4, 5)));
    assert(scan_lower(s1, 10) == 10);
    assert(scan_lower(s1, 9) == 10);
    assert(s1.subrange(8, 10) =~= seq!['o', 'r']);
    assert(seq![STok::Or] + toks1.subrange(4, 5) =~= toks1.subrange(3, 5));
    assert(spec_tokenize_from(s1, 8) == Ok::<Seq<STok>, int>(toks1.subrange(3, 5)));
    assert(spec_tokenize_from(s1, 7) == Ok::<Seq<STok>, int>(toks1.subrange(3, 5)));
    assert(scan_upper(s1, 7) == 7);
    assert(s1.subrange(6, 7) =~= seq!['B']);
    assert(seq![STok::Ident(seq!['B'])] + toks1.subrange(3, 5) =~= toks1.subrange(2, 5));
    assert(spec_tokenize_from(s1, 6) == Ok::<Seq<STok>, int>(toks1.subrange(2, 5)));
    assert(spec_tokenize_from(s1, 5) == Ok::<Seq<STok>, int>(toks1.subrange(2, 5)));
    assert(scan_lower(s1, 5) == 5);
    assert(scan_lower(s1, 4) == 5);
    assert(scan_lower(s1, 3) == 5);
    assert(s1.subrange(2, 5) =~= seq!['a', 'n', 'd']);
    assert(seq![STok::And] + toks1.subrange(2, 5) =~= toks1.subrange(1, 5));
    assert(spec_tokenize_from(s1, 2) == Ok::<Seq<STok>, int>(toks1.subrange(1, 5)));
    assert(spec_tokenize_from(s1, 1) == Ok::<Seq<STok>, int>(toks1.subrange(1, 5)));
    assert(scan_upper(s1, 1) == 1);
    assert(s1.subrange(0, 1) =~= seq!['A']);
    assert(seq![STok::Ident(seq!['A'])] + toks1.subrange(1, 5) =~= toks1);
    assert(spec_tokenize_from(s1, 0) == Ok::<Seq<STok>, int>(toks1));
}

/// Tokenizing `(A and B) or C` step by step, from the end of the text back
/// to its start.
proof fn lemma_tokenize_parenthesized(s2: Seq<char>, toks2: Seq<STok>)
    requires
        s2 == seq!['(', 'A', ' ', 'a', 'n', 'd', ' ', 'B', ')', ' ', 'o', 'r', ' ', 'C'],
        toks2 == seq![
            STok::LParen,
            STok::Ident(seq!['A']),
            STok::And,
            STok::Ident(seq!['B']),
            STok::RParen,
            STok::Or,
            STok::Ident(seq!['C']),
        ],
    ensures
        spec_tokenize(s2) == Ok::<Seq<STok>, int>(toks2),
{
    assert(spec_tokenize_from(s2, 14) == Ok::<Seq<STok>, int>(Seq::empty()));
    assert(scan_upper(s2, 14) == 14);
    assert(s2.subrange(13, 14) =~= seq!['C']);
    assert(seq![STok::Ident(seq!['C'])] + Seq::<STok>::empty() =~= toks2.subrange(6, 7));
    assert(spec_tokenize_from(s2, 13) == Ok::<Seq<STok>, int>(toks2.subrange(6, 7)));
    assert(spec_tokenize_from(s2, 12) == Ok::<Seq<STok>, int>(toks2.subrange(6, 7)));
    assert(scan_lower(s2, 12) == 12);
    assert(scan_lower(s2, 11) == 12);
    assert(s2.subrange(10, 12) =~= seq!['o', 'r']);
    assert(seq![STok::Or] + toks2.subrange(6, 7) =~= toks2.subrange(5, 7));
    assert(spec_tokenize_from(s2, 10) == Ok::<Seq<STok>, int>(toks2.subrange(5, 7)));
    assert(spec_tokenize_from(s2, 9) == Ok::<Seq<STok>, int>(toks2.subrange(5, 7)));
    assert(seq![STok::RParen] + toks2.subrange(5, 7) =~= toks2.subrange(4, 7));
    assert(spec_tokenize_from(s2, 8) == Ok::<Seq<STok>, int>(toks2.subrange(4, 7)));
    assert(scan_upper(s2, 8) == 8);
    assert(s2.subrange(7, 8) =~= seq!['B']);
    assert(seq![STok::Ident(seq!['B'])] + toks2.subrange(4, 7) =~= toks2.subrange(3, 7));
    assert(spec_tokenize_from(s2, 7) == Ok::<Seq<STok>, int>(toks2.subrange(3, 7)));
    assert(spec_tokenize_from(s2, 6) == Ok::<Seq<STok>, int>(toks2.subrange(3, 7)));
    assert(scan_lower(s2, 6) == 6);
    assert(scan_lower(s2, 5) == 6);
    assert(scan_lower(s2, 4) == 6);
    assert(s2.subrange(3, 6) =~= seq!['a', 'n', 'd']);
    assert(seq![STok::And] + toks2.subrange(3, 7) =~= toks2.subrange(2, 7));
    assert(spec_tokenize_from(s2, 3) == Ok::<Seq<STok>, int>(toks2.subrange(2, 7)));
    assert(spec_tokenize_from(s2, 2) == Ok::<Seq<STok>, int>(toks2.subrange(2, 7)));
    assert(scan_upper(s2, 2) == 2);
    assert(s2.subrange(1, 2) =~= seq!['A']);
    assert(seq![STok::Ident(seq!['A'])] + toks2.subrange(2, 7) =~= toks2.subrange(1, 7));
    assert(spec_tokenize_from(s2, 1) == Ok::<Seq<STok>, int>(toks2.subrange(1, 7)));
    assert(seq![STok::LParen] + toks2.subrange(1, 7) =~= toks2);
    assert(spec_tokenize_from(s2, 0) == Ok::<Seq<STok>, int>(toks2));
}

/// Parsing the tokens of `A and B or C`, level by level: `and` folds its
/// operands first, `or` takes the result as its left operand.
proof fn lemma_parse_plain_tokens(ts: Seq<STok>, tree: SExpr)
    requires
        ts == seq![
            STok::Ident(seq!['A']),
            STok::And,
            STok::Ident(seq!['B']),
            STok::Or,
            STok::Ident(seq!['C']),
        ],
        tree == SExpr::Op(
            Box::new(
                SExpr::Op(
                    Box::new(SExpr::Variable(seq!['A'])),
                    Opcode::And,
                    Box::new(SExpr::Variable(seq!['B'])),
                ),
            ),
            Opcode::Or,
            Box::new(SExpr::Variable(seq!['C'])),
        ),
    ensures
        spec_parse_bicond(ts, 0) == Ok::<(SExpr, int), SPErr>((tree, 5int)),
{
    let va = SExpr::Variable(seq!['A']);
    let vb = SExpr::Variable(seq!['B']);
    let vc = SExpr::Variable(seq!['C']);
    let ab = SExpr::Op(Box::new(va), Opcode::And, Box::new(vb));
    assert(spec_parse_primary(ts, 0) == Ok::<(SExpr, int), SPErr>((va, 1int)));
    assert(spec_parse_not(ts, 0) == Ok::<(SExpr, int), SPErr>((va, 1int)));
    assert(spec_parse_primary(ts, 2) == Ok::<(SExpr, int), SPErr>((vb, 3int)));
    assert(spec_parse_not(ts, 2) == Ok::<(SExpr, int), SPErr>((vb, 3int)));
    assert(spec_parse_primary(ts, 4) == Ok::<(SExpr, int), SPErr>((vc, 5int)));
    assert(spec_parse_not(ts, 4) == Ok::<(SExpr, int), SPErr>((vc, 5int)));
    assert(spec_parse_and_rest(ab, ts, 3) == Ok::<(SExpr, int), SPErr>((ab, 3int)));
    assert(spec_parse_and_rest(va, ts, 1) == Ok::<(SExpr, int), SPErr>((ab, 3int)));
    assert(spec_parse_and(ts, 0) == Ok::<(SExpr, int), SPErr>((ab, 3int)));
    assert(spec_parse_and_rest(vc, ts, 5) == Ok::<(SExpr, int), SPErr>((vc, 5int)));
    assert(spec_parse_and(ts, 4) == Ok::<(SExpr, int), SPErr>((vc, 5int)));
    assert(spec_parse_or_rest(tree, ts, 5) == Ok::<(SExpr, int), SPErr>((tree, 5int)));
    assert(spec_parse_or_rest(ab, ts, 3) == Ok::<(SExpr, int), SPErr>((tree, 5int)));
    assert(spec_parse_or(ts, 0) == Ok::<(SExpr, int), SPErr>((tree, 5int)));
    assert(spec_parse_cond_rest(tree, ts, 5) == Ok::<(SExpr, int), SPErr>((tree, 5int)));
    assert(spec_parse_cond(ts, 0) == Ok::<(SExpr, int), SPErr>((tree, 5int)));
    assert(spec_parse_bicond_rest(tree, ts, 5) == Ok::<(SExpr, int), SPErr>((tree, 5int)));
    assert(spec_parse_bicond(ts, 0) == Ok::<(SExpr, int), SPErr>((tree, 5int)));
}

/// Parsing the tokens of `(A and B) or C`: the group in parentheses is one
/// `or` operand.
proof fn lemma_parse_parenthesized_tokens(ts: Seq<STok>, tree: SExpr)
    requires
        ts == seq![
            STok::LParen,
            STok::Ident(seq!['A']),
            STok::And,
            STok::Ident(seq!['B']),
            STok::RParen,
            STok::Or,
            STok::Ident(seq!['C']),
        ],
        tree == SExpr::Op(
            Box::new(
                SExpr::Op(
                    Box::new(SExpr::Variable(seq!['A'])),
                    Opcode::And,
                    Box::new(SExpr::Variable(seq!['B'])),
                ),
            ),
            Opcode::Or,
            Box::new(SExpr::Variable(seq!['C'])),
        ),
    ensures
        spec_parse_bicond(ts, 0) == Ok::<(SExpr, int), SPErr>((tree, 7int)),
{
    let va = SExpr::Variable(seq!['A']);
    let vb = SExpr::Variable(seq!['B']);
    let vc = SExpr::Variable(seq!['C']);
    let ab = SExpr::Op(Box::new(va), Opcode::And, Box::new(vb));
    assert(spec_parse_primary(ts, 1) == Ok::<(SExpr, int), SPErr>((va, 2int)));
    assert(spec_parse_not(ts, 1) == Ok::<(SExpr, int), SPErr>((va, 2int)));
    assert(spec_parse_primary(ts, 3) == Ok::<(SExpr, int), SPErr>((vb, 4int)));
    assert(spec_parse_not(ts, 3) == Ok::<(SExpr, int), SPErr>((vb, 4int)));
    assert(spec_parse_and_rest(ab, ts, 4) == Ok::<(SExpr, int), SPErr>((ab, 4int)));
    assert(spec_parse_and_rest(va, ts, 2) == Ok::<(SExpr, int), SPErr>((ab, 4int)));
    assert(spec_parse_and(ts, 1) == Ok::<(SExpr, int), SPErr>((ab, 4int)));
    assert(spec_parse_or_rest(ab, ts, 4) == Ok::<(SExpr, int), SPErr>((ab, 4int)));
    assert(spec_parse_or(ts, 1) == Ok::<(SExpr, int), SPErr>((ab, 4int)));
    assert(spec_parse_cond_rest(ab, ts, 4) == Ok::<(SExpr, int), SPErr>((ab, 4int)));
    assert(spec_parse_cond(ts, 1) == Ok::<(SExpr, int), SPErr>((ab, 4int)));
    assert(spec_parse_bicond_rest(ab, ts, 4) == Ok::<(SExpr, int), SPErr>((ab, 4int)));
    assert(spec_parse_bicond(ts, 1) == Ok::<(SExpr, int), SPErr>((ab, 4int)));
    assert(spec_parse_primary(ts, 0) == Ok::<(SExpr, int), SPErr>((ab, 5int)));
    assert(spec_parse_not(ts, 0) == Ok::<(SExpr, int), SPErr>((ab, 5int)));
    assert(spec_parse_primary(ts, 6) == Ok::<(SExpr, int), SPErr>((vc, 7int)));
    assert(spec_parse_not(ts, 6) == Ok::<(SExpr, int), SPErr>((vc, 7int)));
    assert(spec_parse_and_rest(ab, ts, 5) == Ok::<(SExpr, int), SPErr>((ab, 5int)));
    assert(spec_parse_and(ts, 0) == Ok::<(SExpr, int), SPErr>((ab, 5int)));
    assert(spec_parse_and_rest(vc, ts, 7) == Ok::<(SExpr, int), SPErr>((vc, 7int)));
    assert(spec_parse_and(ts, 6) == Ok::<(SExpr, int), SPErr>((vc, 7int)));
    assert(spec_parse_or_rest(tree, ts, 7) == Ok::<(SExpr, int), SPErr>((tree, 7int)));
    assert(spec_parse_or_rest(ab, ts, 5) == Ok::<(SExpr, int), SPErr>((tree, 7int)));
    assert(spec_parse_or(ts, 0) == Ok::<(SExpr, int), SPErr>((tree, 7int)));
    assert(spec_parse_cond_rest(tree, ts, 7) == Ok::<(SExpr, int), SPErr>((tree, 7int)));
    assert(spec_parse_cond(ts, 0) == Ok::<(SExpr, int), SPErr>((tree, 7int)));
    assert(spec_parse_bicond_rest(tree, ts, 7) == Ok::<(SExpr, int), SPErr>((tree, 7int)));
    assert(spec_parse_bicond(ts, 0) == Ok::<(SExpr, int), SPErr>((tree, 7int)));
}

/// `not` is right-associative: `not not A` parses to a doubled negation of
/// the variable, which evaluates exactly as the variable alone does, under
/// every assignment.
#[verifier::rlimit(60)]
pub proof fn lemma_not_not_evaluates_as_operand()
    ensures
        spec_parse("not not A"@) == Ok::<SExpr, SPErr>(
            SExpr::Neg(Box::new(SExpr::Neg(Box::new(SExpr::Variable(seq!['A']))))),
        ),
        forall|m: Map<Seq<char>, bool>|
            #[trigger] spec_evaluate(
                SExpr::Neg(Box::new(SExpr::Neg(Box::new(SExpr::Variable(seq!['A']))))),
                m,
            ) == spec_evaluate(SExpr::Variable(seq!['A']), m),
{
    reveal_strlit("not not A");
    let s = seq!['n', 'o', 't', ' ', 'n', 'o', 't', ' ', 'A'];
    assert("not not A"@ =~= s);
    let va = SExpr::Variable(seq!['A']);
    lemma_parse_not_not(s, seq![STok::Not, STok::Not, STok::Ident(seq!['A'])]);
    assert forall|m: Map<Seq<char>, bool>|
        #[trigger] spec_evaluate(SExpr::Neg(Box::new(SExpr::Neg(Box::new(va)))), m)
            == spec_evaluate(va, m) by {
        lemma_double_negation(va, m);
    }
}

/// `not not A` tokenizes and parses to the doubled negation.
proof fn lemma_parse_not_not(s: Seq<char>, ts: Seq<STok>)
    requires
        s == seq!['n', 'o', 't', ' ', 'n', 'o', 't', ' ', 'A'],
        ts == seq![STok::Not, STok::Not, STok::Ident(seq!['A'])],
    ensures
        spec_parse(s) == Ok::<SExpr, SPErr>(
            SExpr::Neg(Box::new(SExpr::Neg(Box::new(SExpr::Variable(seq!['A']))))),
        ),
{
    assert(spec_tokenize_from(s, 9) == Ok::<Seq<STok>, int>(Seq::empty()));
    assert(scan_upper(s, 9) == 9);
    assert(s.subrange(8, 9) =~= seq!['A']);
    assert(seq![STok::Ident(seq!['A'])] + Seq::<STok>::empty() =~= ts.subrange(2, 3));
    assert(spec_tokenize_from(s, 8) == Ok::<Seq<STok>, int>(ts.subrange(2, 3)));
    assert(spec_tokenize_from(s, 7) == Ok::<Seq<STok>, int>(ts.subrange(2, 3)));
    assert(scan_lower(s, 7) == 7);
    assert(scan_lower(s, 6) == 7);
    assert(scan_lower(s, 5) == 7);
    assert(s.subrange(4, 7) =~= seq!['n', 'o', 't']);
    assert(seq![STok::Not] + ts.subrange(2, 3) =~= ts.subrange(1, 3));
    assert(spec_tokenize_from(s, 4) == Ok::<Seq<STok>, int>(ts.subrange(1, 3)));
    assert(spec_tokenize_from(s, 3) == Ok::<Seq<STok>, int>(ts.subrange(1, 3)));
    assert(scan_lower(s, 3) == 3);
    assert(scan_lower(s, 2) == 3);
    assert(scan_lower(s, 1) == 3);
    assert(s.subrange(0, 3) =~= seq!['n', 'o', 't']);
    assert(seq![STok::Not] + ts.subrange(1, 3) =~= ts);
    assert(spec_tokenize_from(s, 0) == Ok::<Seq<STok>, int>(ts));
    let va = SExpr::Variable(seq!['A']);
    let n1 = SExpr::Neg(Box::new(va));
    let n2 = SExpr::Neg(Box::new(n1));
    assert(spec_parse_primary(ts, 2) == Ok::<(SExpr, int), SPErr>((va, 3int)));
    assert(spec_parse_not(ts, 2) == Ok::<(SExpr, int), SPErr>((va, 3int)));
    assert(spec_parse_not(ts, 1) == Ok::<(SExpr, int), SPErr>((n1, 3int)));
    assert(spec_parse_not(ts, 0) == Ok::<(SExpr, int), SPErr>((n2, 3int)));
    assert(spec_parse_and_rest(n2, ts, 3) == Ok::<(SExpr, int), SPErr>((n2, 3int)));
    assert(spec_parse_and(ts, 0) == Ok::<(SExpr, int), SPErr>((n2, 3int)));
    assert(spec_parse_or_rest(n2, ts, 3) == Ok::<(SExpr, int), SPErr>((n2, 3int)));
    assert(spec_parse_or(ts, 0) == Ok::<(SExpr, int), SPErr>((n2, 3int)));
    assert(spec_parse_cond_rest(n2, ts, 3) == Ok::<(SExpr, int), SPErr>((n2, 3int)));
    assert(spec_parse_cond(ts, 0) == Ok::<(SExpr, int), SPErr>((n2, 3int)));
    assert(spec_parse_bicond_rest(n2, ts, 3) == Ok::<(SExpr, int), SPErr>((n2, 3int)));
    assert(spec_parse_bicond(ts, 0) == Ok::<(SExpr, int), SPErr>((n2, 3int)));
    assert(ts.len() == 3);
}

/// `P => Q` evaluates to `!p || q` under the assignment `{P: p, Q: q}`,
/// whatever `p` and `q` are.
#[verifier::rlimit(60)]
pub proof fn lemma_conditional_identity_parsed(p: bool, q: bool)
    ensures
        spec_parse("P => Q"@) == Ok::<SExpr, SPErr>(
            SExpr::Op(
                Box::new(SExpr::Variable(seq!['P'])),
                Opcode::Conditional,
                Box::new(SExpr::Variable(seq!['Q'])),
            ),
        ),
        spec_evaluate(
            SExpr::Op(
                Box::new(SExpr::Variable(seq!['P'])),
                Opcode::Conditional,
                Box::new(SExpr::Variable(seq!['Q'])),
            ),
            Map::<Seq<char>, bool>::empty().insert(seq!['P'], p).insert(seq!['Q'], q),
        ) == Ok::<bool, Seq<char>>(!p || q),
{
    reveal_strlit("P => Q");
    let s = seq!['P', ' ', '=', '>', ' ', 'Q'];
    assert("P => Q"@ =~= s);
    lemma_parse_arrow(s, seq![STok::Ident(seq!['P']), STok::Cond, STok::Ident(seq!['Q'])]);
    let m = Map::<Seq<char>, bool>::empty().insert(seq!['P'], p).insert(seq!['Q'], q);
    assert(seq!['P'][0] != seq!['Q'][0]);
    assert(seq!['P'] != seq!['Q']);
    assert(m.contains_key(seq!['P']) && m[seq!['P']] == p);
    assert(m.contains_key(seq!['Q']) && m[seq!['Q']] == q);
    assert(spec_evaluate(SExpr::Variable(seq!['P']), m) == Ok::<bool, Seq<char>>(p));
    assert(spec_evaluate(SExpr::Variable(seq!['Q']), m) == Ok::<bool, Seq<char>>(q));
}

/// `P => Q` tokenizes and parses to one conditional node.
proof fn lemma_parse_arrow(s: Seq<char>, ts: Seq<STok>)
    requires
        s == seq!['P', ' ', '=', '>', ' ', 'Q'],
        ts == seq![STok::Ident(seq!['P']), STok::Cond, STok::Ident(seq!['Q'])],
    ensures
        spec_parse(s) == Ok::<SExpr, SPErr>(
            SExpr::Op(
                Box::new(SExpr::Variable(seq!['P'])),
                Opcode::Conditional,
                Box::new(SExpr::Variable(seq!['Q'])),
            ),
        ),
{
    assert(spec_tokenize_from(s, 6) == Ok::<Seq<STok>, int>(Seq::empty()));
    assert(scan_upper(s, 6) == 6);
    assert(s.subrange(5, 6) =~= seq!['Q']);
    assert(seq![STok::Ident(seq!['Q'])] + Seq::<STok>::empty() =~= ts.subrange(2, 3));
    assert(spec_tokenize_from(s, 5) == Ok::<Seq<STok>, int>(ts.subrange(2, 3)));
    assert(spec_tokenize_from(s, 4) == Ok::<Seq<STok>, int>(ts.subrange(2, 3)));
    assert(seq![STok::Cond] + ts.subrange(2, 3) =~= ts.subrange(1, 3));
    assert(spec_tokenize_from(s, 2) == Ok::<Seq<STok>, int>(ts.subrange(1, 3)));
    assert(spec_tokenize_from(s, 1) == Ok::<Seq<STok>, int>(ts.subrange(1, 3)));
    assert(scan_upper(s, 1) == 1);
    assert(s.subrange(0, 1) =~= seq!['P']);
    assert(seq![STok::Ident(seq!['P'])] + ts.subrange(1, 3) =~= ts);
    assert(spec_tokenize_from(s, 0) == Ok::<Seq<STok>, int>(ts));
    let vp = SExpr::Variable(seq!['P']);
    let vq = SExpr::Variable(seq!['Q']);
    let tree = SExpr::Op(Box::new(vp), Opcode::Conditional, Box::new(vq));
    assert(spec_parse_primary(ts, 0) == Ok::<(SExpr, int), SPErr>((vp, 1int)));
    assert(spec_parse_not(ts, 0) == Ok::<(SExpr, int), SPErr>((vp, 1int)));
    assert(spec_parse_primary(ts, 2) == Ok::<(SExpr, int), SPErr>((vq, 3int)));
    assert(spec_parse_not(ts, 2) == Ok::<(SExpr, int), SPErr>((vq, 3int)));
    assert(spec_parse_and_rest(vp, ts, 1) == Ok::<(SExpr, int), SPErr>((vp, 1int)));
    assert(spec_parse_and(ts, 0) == Ok::<(SExpr, int), SPErr>((vp, 1int)));
    assert(spec_parse_or_rest(vp, ts, 1) == Ok::<(SExpr, int), SPErr>((vp, 1int)));
    assert(spec_parse_or(ts, 0) == Ok::<(SExpr, int), SPErr>((vp, 1int)));
    assert(spec_parse_and_rest(vq, ts, 3) == Ok::<(SExpr, int), SPErr>((vq, 3int)));
    assert(spec_parse_and(ts, 2) == Ok::<(SExpr, int), SPErr>((vq, 3int)));
    assert(spec_parse_or_rest(vq, ts, 3) == Ok::<(SExpr, int), SPErr>((vq, 3int)));
    assert(spec_parse_or(ts, 2) == Ok::<(SExpr, int), SPErr>((vq, 3int)));
    assert(spec_parse_cond_rest(tree, ts, 3) == Ok::<(SExpr, int), SPErr>((tree, 3int)));
    assert(spec_parse_cond_rest(vp, ts, 1) == Ok::<(SExpr, int), SPErr>((tree, 3int)));
    assert(spec_parse_cond(ts, 0) == Ok::<(SExpr, int), SPErr>((tree, 3int)));
    assert(spec_parse_bicond_rest(tree, ts, 3) == Ok::<(SExpr, int), SPErr>((tree, 3int)));
    assert(spec_parse_bicond(ts, 0) == Ok::<(SExpr, int), SPErr>((tree, 3int)));
    assert(ts.len() == 3);
}

/// `P <=> Q` evaluates to `p == q` under the assignment `{P: p, Q: q}`,
/// whatever `p` and `q` are.
#[verifier::rlimit(60)]
pub proof fn lemma_biconditional_identity_parsed(p: bool, q: bool)
    ensures
        spec_parse("P <=> Q"@) == Ok::<SExpr, SPErr>(
            SExpr::Op(
                Box::new(SExpr::Variable(seq!['P'])),
                Opcode::Biconditional,
                Box::new(SExpr::Variable(seq!['Q'])),
            ),
        ),
        spec_evaluate(
            SExpr::Op(
                Box::new(SExpr::Variable(seq!['P'])),
                Opcode::Biconditional,
                Box::new(SExpr::Variable(seq!['Q'])),
            ),
            Map::<Seq<char>, bool>::empty().insert(seq!['P'], p).insert(seq!['Q'], q),
        ) == Ok::<bool, Seq<char>>(p == q),
{
    reveal_strlit("P <=> Q");
    let s = seq!['P', ' ', '<', '=', '>', ' ', 'Q'];
    assert("P <=> Q"@ =~= s);
    lemma_parse_double_arrow(
        s,
        seq![STok::Ident(seq!['P']), STok::Bicond, STok::Ident(seq!['Q'])],
    );
    let m = Map::<Seq<char>, bool>::empty().insert(seq!['P'], p).insert(seq!['Q'], q);
    assert(seq!['P'][0] != seq!['Q'][0]);
    assert(seq!['P'] != seq!['Q']);
    assert(m.contains_key(seq!['P']) && m[seq!['P']] == p);
    assert(m.contains_key(seq!['Q']) && m[seq!['Q']] == q);
    assert(spec_evaluate(SExpr::Variable(seq!['P']), m) == Ok::<bool, Seq<char>>(p));
    assert(spec_evaluate(SExpr::Variable(seq!['Q']), m) == Ok::<bool, Seq<char>>(q));
}

/// `P <=> Q` tokenizes and parses to one biconditional node.
proof fn lemma_parse_double_arrow(s: Seq<char>, ts: Seq<STok>)
    requires
        s == seq!['P', ' ', '<', '=', '>', ' ', 'Q'],
        ts == seq![STok::Ident(seq!['P']), STok::Bicond, STok::Ident(seq!['Q'])],
    ensures
        spec_parse(s) == Ok::<SExpr, SPErr>(
            SExpr::Op(
                Box::new(SExpr::Variable(seq!['P'])),
                Opcode::Biconditional,
                Box::new(SExpr::Variable(seq!['Q'])),
            ),
        ),
{
    assert(spec_tokenize_from(s, 7) == Ok::<Seq<STok>, int>(Seq::empty()));
    assert(scan_upper(s, 7) == 7);
    assert(s.subrange(6, 7) =~= seq!['Q']);
    assert(seq![STok::Ident(seq!['Q'])] + Seq::<STok>::empty() =~= ts.subrange(2, 3));
    assert(spec_tokenize_from(s, 6) == Ok::<Seq<STok>, int>(ts.subrange(2, 3)));
    assert(spec_tokenize_from(s, 5) == Ok::<Seq<STok>, int>(ts.subrange(2, 3)));
    assert(seq![STok::Bicond] + ts.subrange(2, 3) =~= ts.subrange(1, 3));
    assert(spec_tokenize_from(s, 2) == Ok::<Seq<STok>, int>(ts.subrange(1, 3)));
    assert(spec_tokenize_from(s, 1) == Ok::<Seq<STok>, int>(ts.subrange(1, 3)));
    assert(scan_upper(s, 1) == 1);
    assert(s.subrange(0, 1) =~= seq!['P']);
    assert(seq![STok::Ident(seq!['P'])] + ts.subrange(1, 3) =~= ts);
    assert(spec_tokenize_from(s, 0) == Ok::<Seq<STok>, int>(ts));
    let vp = SExpr::Variable(seq!['P']);
    let vq = SExpr::Variable(seq!['Q']);
    let tree = SExpr::Op(Box::new(vp), Opcode::Biconditional, Box::new(vq));
    assert(spec_parse_primary(ts, 0) == Ok::<(SExpr, int), SPErr>((vp, 1int)));
    assert(spec_parse_not(ts, 0) == Ok::<(SExpr, int), SPErr>((vp, 1int)));
    assert(spec_parse_primary(ts, 2) == Ok::<(SExpr, int), SPErr>((vq, 3int)));
    assert(spec_parse_not(ts, 2) == Ok::<(SExpr, int), SPErr>((vq, 3int)));
    assert(spec_parse_and_rest(vp, ts, 1) == Ok::<(SExpr, int), SPErr>((vp, 1int)));
    assert(spec_parse_and(ts, 0) == Ok::<(SExpr, int), SPErr>((vp, 1int)));
    assert(spec_parse_or_rest(vp, ts, 1) == Ok::<(SExpr, int), SPErr>((vp, 1int)));
    assert(spec_parse_or(ts, 0) == Ok::<(SExpr, int), SPErr>((vp, 1int)));
    assert(spec_parse_cond_rest(vp, ts, 1) == Ok::<(SExpr, int), SPErr>((vp, 1int)));
    assert(spec_parse_cond(ts, 0) == Ok::<(SExpr, int), SPErr>((vp, 1int)));
    assert(spec_parse_and_rest(vq, ts, 3) == Ok::<(SExpr, int), SPErr>((vq, 3int)));
    assert(spec_parse_and(ts, 2) == Ok::<(SExpr, int), SPErr>((vq, 3int)));
    assert(spec_parse_or_rest(vq, ts, 3) == Ok::<(SExpr, int), SPErr>((vq, 3int)));
    assert(spec_parse_or(ts, 2) == Ok::<(SExpr, int), SPErr>((vq, 3int)));
    assert(spec_parse_cond_rest(vq, ts, 3) == Ok::<(SExpr, int), SPErr>((vq, 3int)));
    assert(spec_parse_cond(ts, 2) == Ok::<(SExpr, int), SPErr>((vq, 3int)));
    assert(spec_parse_bicond_rest(tree, ts, 3) == Ok::<(SExpr, int), SPErr>((tree, 3int)));
    assert(spec_parse_bicond_rest(vp, ts, 1) == Ok::<(SExpr, int), SPErr>((tree, 3int)));
    assert(spec_parse_bicond(ts, 0) == Ok::<(SExpr, int), SPErr>((tree, 3int)));
    assert(ts.len() == 3);
}

/// Double negation: negating a formula twice changes nothing about its
/// value under any assignment, nor about which variable it fails on.
pub proof fn lemma_double_negation(e: SExpr, m: Map<Seq<char>, bool>)
    ensures
        spec_evaluate(SExpr::Neg(Box::new(SExpr::Neg(Box::new(e)))), m) == spec_evaluate(e, m),
{
    reveal_with_fuel(spec_evaluate, 3);
}

/// The conditional: where both operands evaluate, `l => r` has the value
/// `!l || r` under the assignment.
pub proof fn lemma_conditional_identity(l: SExpr, r: SExpr, m: Map<Seq<char>, bool>, a: bool, b: bool)
    requires
        spec_evaluate(l, m) == Ok::<bool, Seq<char>>(a),
        spec_evaluate(r, m) == Ok::<bool, Seq<char>>(b),
    ensures
        spec_evaluate(SExpr::Op(Box::new(l), Opcode::Conditional, Box::new(r)), m)
            == Ok::<bool, Seq<char>>(!a || b),
{
}

/// The biconditional: where both operands evaluate, `l <=> r` has the value
/// `l == r` under the assignment.
pub proof fn lemma_biconditional_identity(
    l: SExpr,
    r: SExpr,
    m: Map<Seq<char>, bool>,
    a: bool,
    b: bool,
)
    requires
        spec_evaluate(l, m) == Ok::<bool, Seq<char>>(a),
        spec_evaluate(r, m) == Ok::<bool, Seq<char>>(b),
    ensures
        spec_evaluate(SExpr::Op(Box::new(l), Opcode::Biconditional, Box::new(r)), m)
            == Ok::<bool, Seq<char>>(a == b),
{
}

} // verus!
