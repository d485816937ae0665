//! The round trip from a formula through its canonical text and back.
//!
//! Rendered text is not the source text it came from (operators render as
//! symbols, parentheses are added), but parsing it gives back the very tree
//! that was rendered, for every well-formed formula.

use vstd::prelude::*;
use crate::ast::{op_symbol, spec_render, Opcode, SExpr};
use crate::parser::{
    spec_parse, spec_parse_and, spec_parse_and_rest, spec_parse_bicond, spec_parse_bicond_rest,
    spec_parse_cond, spec_parse_cond_rest, spec_parse_not, spec_parse_or, spec_parse_or_rest,
    spec_parse_primary, SPErr,
};
use crate::token::{
    is_lower, is_space, is_upper, scan_lower, scan_upper, spec_tokenize, spec_tokenize_from,
    symbol, STok,
};

verus! {

/// A formula whose variable names the tokenizer can read back: every name
/// is one or more uppercase letters.
pub open spec fn wf(e: SExpr) -> bool
    decreases e,
{
    match e {
        SExpr::Boolean(_) => true,
        SExpr::Variable(s) => s.len() > 0 && forall|k: int| 0 <= k < s.len() ==> is_upper(s[k]),
        SExpr::Neg(x) => wf(*x),
        SExpr::Op(l, _, r) => wf(*l) && wf(*r),
    }
}

/// The token of one binary connective.
pub open spec fn op_token(op: Opcode) -> STok {
    match op {
        Opcode::Conditional => STok::Cond,
        Opcode::Biconditional => STok::Bicond,
        Opcode::And => STok::And,
        Opcode::Or => STok::Or,
    }
}

/// The token sequence of a formula's canonical text.
pub open spec fn tokens_of(e: SExpr) -> Seq<STok>
    decreases e,
{
    match e {
        SExpr::Boolean(b) => if b {
            seq![STok::True]
        } else {
            seq![STok::False]
        },
        SExpr::Variable(s) => seq![STok::Ident(s)],
        SExpr::Neg(x) => seq![STok::Not] + tokens_of(*x),
        SExpr::Op(l, op, r) => seq![STok::LParen] + tokens_of(*l) + seq![op_token(op)]
            + tokens_of(*r) + seq![STok::RParen],
    }
}

/// Every formula has at least one token.
proof fn lemma_tokens_nonempty(e: SExpr)
    ensures
        tokens_of(e).len() >= 1,
{
}

/// An operand level parse reads exactly the tokens of the formula whose
/// tokens stand at `i`, whatever follows them.
#[verifier::rlimit(100)]
proof fn lemma_parse_not_window(e: SExpr, ts: Seq<STok>, i: int)
    requires
        0 <= i,
        i + tokens_of(e).len() <= ts.len(),
        ts.subrange(i, i + tokens_of(e).len()) == tokens_of(e),
    ensures
        spec_parse_not(ts, i) == Ok::<(SExpr, int), SPErr>((e, i + tokens_of(e).len())),
    decreases e,
{
    let te = tokens_of(e);
    assert(forall|k: int| 0 <= k < te.len() ==> ts[i + k] == #[trigger] te[k]) by {
        assert(forall|k: int|
            0 <= k < te.len() ==> ts.subrange(i, i + te.len())[k] == #[trigger] te[k]);
    }
    match e {
        SExpr::Boolean(b) => {
            assert(ts[i] == te[0]);
            assert(spec_parse_primary(ts, i) == Ok::<(SExpr, int), SPErr>((e, i + 1)));
        },
        SExpr::Variable(s) => {
            assert(ts[i] == te[0]);
            assert(spec_parse_primary(ts, i) == Ok::<(SExpr, int), SPErr>((e, i + 1)));
        },
        SExpr::Neg(x) => {
            let tx = tokens_of(*x);
            assert(ts[i] == te[0] && te[0] == STok::Not);
            assert(ts.subrange(i + 1, i + 1 + tx.len()) =~= tx) by {
                assert(forall|k: int| 0 <= k < tx.len() ==> #[trigger] tx[k] == te[1 + k]);
            }
            lemma_parse_not_window(*x, ts, i + 1);
        },
        SExpr::Op(l, op, r) => {
            let tl = tokens_of(*l);
            let tr = tokens_of(*r);
            lemma_tokens_nonempty(*l);
            lemma_tokens_nonempty(*r);
            let a = i + 1;
            let b = a + tl.len();
            let c = b + 1;
            let d = c + tr.len();
            assert(te.len() == 3 + tl.len() + tr.len());
            assert(ts[i] == te[0] && te[0] == STok::LParen);
            assert(ts[b] == te[1 + tl.len() as int] && te[1 + tl.len() as int] == op_token(op));
            assert(ts[d] == te[2 + tl.len() as int + tr.len() as int] && te[2 + tl.len() as int + tr.len() as int]
                == STok::RParen);
            assert(ts.subrange(a, b) =~= tl) by {
                assert(forall|k: int| 0 <= k < tl.len() ==> #[trigger] tl[k] == te[1 + k]);
            }
            assert(ts.subrange(c, d) =~= tr) by {
                assert(forall|k: int|
                    0 <= k < tr.len() ==> #[trigger] tr[k] == te[2 + tl.len() as int + k]);
            }
            lemma_parse_not_window(*l, ts, a);
            lemma_parse_not_window(*r, ts, c);
            let lr = SExpr::Op(Box::new(*l), op, Box::new(*r));
            assert(lr == e);
            match op {
                Opcode::And => {
                    assert(spec_parse_and_rest(lr, ts, d) == Ok::<(SExpr, int), SPErr>((lr, d)));
                    assert(spec_parse_and_rest(*l, ts, b) == Ok::<(SExpr, int), SPErr>((lr, d)));
                    assert(spec_parse_and(ts, a) == Ok::<(SExpr, int), SPErr>((lr, d)));
                    assert(spec_parse_or_rest(lr, ts, d) == Ok::<(SExpr, int), SPErr>((lr, d)));
                    assert(spec_parse_or(ts, a) == Ok::<(SExpr, int), SPErr>((lr, d)));
                    assert(spec_parse_cond_rest(lr, ts, d) == Ok::<(SExpr, int), SPErr>((lr, d)));
                    assert(spec_parse_cond(ts, a) == Ok::<(SExpr, int), SPErr>((lr, d)));
                    assert(spec_parse_bicond_rest(lr, ts, d) == Ok::<(SExpr, int), SPErr>(
                        (lr, d),
                    ));
                    assert(spec_parse_bicond(ts, a) == Ok::<(SExpr, int), SPErr>((lr, d)));
                },
                Opcode::Or => {
                    assert(spec_parse_and_rest(*l, ts, b) == Ok::<(SExpr, int), SPErr>((*l, b)));
                    assert(spec_parse_and(ts, a) == Ok::<(SExpr, int), SPErr>((*l, b)));
                    assert(spec_parse_and_rest(*r, ts, d) == Ok::<(SExpr, int), SPErr>((*r, d)));
                    assert(spec_parse_and(ts, c) == Ok::<(SExpr, int), SPErr>((*r, d)));
                    assert(spec_parse_or_rest(lr, ts, d) == Ok::<(SExpr, int), SPErr>((lr, d)));
                    assert(spec_parse_or_rest(*l, ts, b) == Ok::<(SExpr, int), SPErr>((lr, d)));
                    assert(spec_parse_or(ts, a) == Ok::<(SExpr, int), SPErr>((lr, d)));
                    assert(spec_parse_cond_rest(lr, ts, d) == Ok::<(SExpr, int), SPErr>((lr, d)));
                    assert(spec_parse_cond(ts, a) == Ok::<(SExpr, int), SPErr>((lr, d)));
                    assert(spec_parse_bicond_rest(lr, ts, d) == Ok::<(SExpr, int), SPErr>(
                        (lr, d),
                    ));
                    assert(spec_parse_bicond(ts, a) == Ok::<(SExpr, int), SPErr>((lr, d)));
                },
                Opcode::Conditional => {
                    assert(spec_parse_and_rest(*l, ts, b) == Ok::<(SExpr, int), SPErr>((*l, b)));
                    assert(spec_parse_and(ts, a) == Ok::<(SExpr, int), SPErr>((*l, b)));
                    assert(spec_parse_or_rest(*l, ts, b) == Ok::<(SExpr, int), SPErr>((*l, b)));
                    assert(spec_parse_or(ts, a) == Ok::<(SExpr, int), SPErr>((*l, b)));
                    assert(spec_parse_and_rest(*r, ts, d) == Ok::<(SExpr, int), SPErr>((*r, d)));
                    assert(spec_parse_and(ts, c) == Ok::<(SExpr, int), SPErr>((*r, d)));
                    assert(spec_parse_or_rest(*r, ts, d) == Ok::<(SExpr, int), SPErr>((*r, d)));
                    assert(spec_parse_or(ts, c) == Ok::<(SExpr, int), SPErr>((*r, d)));
                    assert(spec_parse_cond_rest(lr, ts, d) == Ok::<(SExpr, int), SPErr>((lr, d)));
                    assert(spec_parse_cond_rest(*l, ts, b) == Ok::<(SExpr, int), SPErr>((lr, d)));
                    assert(spec_parse_cond(ts, a) == Ok::<(SExpr, int), SPErr>((lr, d)));
                    assert(spec_parse_bicond_rest(lr, ts, d) == Ok::<(SExpr, int), SPErr>(
                        (lr, d),
                    ));
                    assert(spec_parse_bicond(ts, a) == Ok::<(SExpr, int), SPErr>((lr, d)));
                },
                Opcode::Biconditional => {
                    assert(spec_parse_and_rest(*l, ts, b) == Ok::<(SExpr, int), SPErr>((*l, b)));
                    assert(spec_parse_and(ts, a) == Ok::<(SExpr, int), SPErr>((*l, b)));
                    assert(spec_parse_or_rest(*l, ts, b) == Ok::<(SExpr, int), SPErr>((*l, b)));
                    assert(spec_parse_or(ts, a) == Ok::<(SExpr, int), SPErr>((*l, b)));
                    assert(spec_parse_cond_rest(*l, ts, b) == Ok::<(SExpr, int), SPErr>((*l, b)));
                    assert(spec_parse_cond(ts, a) == Ok::<(SExpr, int), SPErr>((*l, b)));
                    assert(spec_parse_and_rest(*r, ts, d) == Ok::<(SExpr, int), SPErr>((*r, d)));
                    assert(spec_parse_and(ts, c) == Ok::<(SExpr, int), SPErr>((*r, d)));
                    assert(spec_parse_or_rest(*r, ts, d) == Ok::<(SExpr, int), SPErr>((*r, d)));
                    assert(spec_parse_or(ts, c) == Ok::<(SExpr, int), SPErr>((*r, d)));
                    assert(spec_parse_cond_rest(*r, ts, d) == Ok::<(SExpr, int), SPErr>((*r, d)));
                    assert(spec_parse_cond(ts, c) == Ok::<(SExpr, int), SPErr>((*r, d)));
                    assert(spec_parse_bicond_rest(lr, ts, d) == Ok::<(SExpr, int), SPErr>(
                        (lr, d),
                    ));
                    assert(spec_parse_bicond_rest(*l, ts, b) == Ok::<(SExpr, int), SPErr>(
                        (lr, d),
                    ));
                    assert(spec_parse_bicond(ts, a) == Ok::<(SExpr, int), SPErr>((lr, d)));
                },
            }
            assert(spec_parse_primary(ts, i) == Ok::<(SExpr, int), SPErr>((lr, d + 1)));
            assert(spec_parse_not(ts, i) == Ok::<(SExpr, int), SPErr>((lr, d + 1)));
        },
    }
}

/// An uppercase run ends exactly where the uppercase characters end.
proof fn lemma_scan_upper_window(s: Seq<char>, i: int, j: int)
    requires
        0 <= i <= j <= s.len(),
        forall|k: int| i <= k < j ==> is_upper(s[k]),
        j == s.len() || !is_upper(s[j]),
    ensures
        scan_upper(s, i) == j,
    decreases j - i,
{
    if i < j {
        lemma_scan_upper_window(s, i + 1, j);
    }
}

/// A lowercase run ends exactly where the lowercase characters end.
proof fn lemma_scan_lower_window(s: Seq<char>, i: int, j: int)
    requires
        0 <= i <= j <= s.len(),
        forall|k: int| i <= k < j ==> is_lower(s[k]),
        j == s.len() || !is_lower(s[j]),
    ensures
        scan_lower(s, i) == j,
    decreases j - i,
{
    if i < j {
        lemma_scan_lower_window(s, i + 1, j);
    }
}

/// Tokenizing from the start of a rendered formula reads exactly the
/// formula's tokens and goes on behind it, provided the next character (if
/// any) is a space or a closing parenthesis, as it always is where a
/// rendered subformula ends.
#[verifier::rlimit(100)]
proof fn lemma_tokenize_render(e: SExpr, s: Seq<char>, i: int)
    requires
        wf(e),
        0 <= i,
        i + spec_render(e).len() <= s.len(),
        s.subrange(i, i + spec_render(e).len()) == spec_render(e),
        i + spec_render(e).len() == s.len() || s[i + spec_render(e).len()] == ' ' || s[i
            + spec_render(e).len()] == ')',
    ensures
        spec_tokenize_from(s, i + spec_render(e).len()) matches Ok(ts)
            ==> spec_tokenize_from(s, i) == Ok::<Seq<STok>, int>(tokens_of(e) + ts),
        spec_tokenize_from(s, i + spec_render(e).len()) matches Err(p)
            ==> spec_tokenize_from(s, i) == Err::<Seq<STok>, int>(p),
    decreases e,
{
    let re = spec_render(e);
    let n = re.len() as int;
    assert(forall|k: int| 0 <= k < n ==> ts_char(s, i, k) == #[trigger] re[k]) by {
        assert(forall|k: int| 0 <= k < n ==> s.subrange(i, i + n)[k] == #[trigger] re[k]);
    }
    match e {
        SExpr::Boolean(b) => {
            let w = if b {
                seq!['t', 'r', 'u', 'e']
            } else {
                seq!['f', 'a', 'l', 's', 'e']
            };
            assert(re == w);
            assert(s[i] == re[0]);
            assert forall|k: int| i + 1 <= k < i + n implies is_lower(s[k]) by {
                assert(ts_char(s, i, k - i) == re[k - i]);
            }
            assert(s.subrange(i, i + n) =~= w);
            lemma_scan_lower_window(s, i + 1, i + n);
            match spec_tokenize_from(s, i + n) {
                Ok(ts) => {
                    assert(spec_tokenize_from(s, i) == Ok::<Seq<STok>, int>(
                        seq![if b {
                            STok::True
                        } else {
                            STok::False
                        }] + ts,
                    ));
                },
                Err(p) => {
                    assert(spec_tokenize_from(s, i) == Err::<Seq<STok>, int>(p));
                },
            }
        },
        SExpr::Variable(name) => {
            assert(re == name);
            assert(s[i] == re[0]);
            assert(is_upper(s[i]));
            assert forall|k: int| i + 1 <= k < i + n implies is_upper(s[k]) by {
                assert(ts_char(s, i, k - i) == re[k - i]);
                assert(is_upper(name[k - i]));
            }
            assert(s.subrange(i, i + n) =~= name);
            lemma_scan_upper_window(s, i + 1, i + n);
            match spec_tokenize_from(s, i + n) {
                Ok(ts) => {
                    assert(spec_tokenize_from(s, i) == Ok::<Seq<STok>, int>(
                        seq![STok::Ident(name)] + ts,
                    ));
                },
                Err(p) => {
                    assert(spec_tokenize_from(s, i) == Err::<Seq<STok>, int>(p));
                },
            }
        },
        SExpr::Neg(x) => {
            let rx = spec_render(*x);
            assert(re == seq!['\u{ac}', ' '] + rx);
            assert(s[i] == re[0] && re[0] == '\u{ac}');
            assert(s[i + 1] == re[1] && re[1] == ' ');
            assert(s.subrange(i + 2, i + 2 + rx.len()) =~= rx) by {
                assert(forall|k: int| 0 <= k < rx.len() ==> #[trigger] rx[k] == re[2 + k]);
            }
            lemma_tokenize_render(*x, s, i + 2);
            match spec_tokenize_from(s, i + n) {
                Ok(ts) => {
                    assert(spec_tokenize_from(s, i + 2) == Ok::<Seq<STok>, int>(
                        tokens_of(*x) + ts,
                    ));
                    assert(spec_tokenize_from(s, i + 1) == spec_tokenize_from(s, i + 2));
                    assert(seq![STok::Not] + (tokens_of(*x) + ts) =~= tokens_of(e) + ts);
                    assert(spec_tokenize_from(s, i) == Ok::<Seq<STok>, int>(tokens_of(e) + ts));
                },
                Err(p) => {
                    assert(spec_tokenize_from(s, i + 2) == Err::<Seq<STok>, int>(p));
                    assert(spec_tokenize_from(s, i + 1) == spec_tokenize_from(s, i + 2));
                    assert(spec_tokenize_from(s, i) == Err::<Seq<STok>, int>(p));
                },
            }
        },
        SExpr::Op(l, op, r) => {
            let rl = spec_render(*l);
            let rr = spec_render(*r);
            let nl = rl.len() as int;
            let nr = rr.len() as int;
            assert(re == seq!['('] + rl + seq![' '] + op_symbol(op) + seq![' '] + rr + seq![')']);
            assert(op_symbol(op).len() == 1);
            assert(n == 5 + nl + nr);
            assert(s[i] == re[0] && re[0] == '(');
            assert(s[i + 1 + nl] == re[1 + nl] && re[1 + nl] == ' ');
            assert(s[i + 2 + nl] == re[2 + nl] && re[2 + nl] == op_symbol(op)[0]);
            assert(s[i + 3 + nl] == re[3 + nl] && re[3 + nl] == ' ');
            assert(s[i + 4 + nl + nr] == re[4 + nl + nr] && re[4 + nl + nr] == ')');
            assert(s.subrange(i + 1, i + 1 + nl) =~= rl) by {
                assert(forall|k: int| 0 <= k < nl ==> #[trigger] rl[k] == re[1 + k]);
            }
            assert(s.subrange(i + 4 + nl, i + 4 + nl + nr) =~= rr) by {
                assert(forall|k: int| 0 <= k < nr ==> #[trigger] rr[k] == re[4 + nl + k]);
            }
            lemma_tokenize_render(*l, s, i + 1);
            lemma_tokenize_render(*r, s, i + 4 + nl);
            match spec_tokenize_from(s, i + n) {
                Ok(ts) => {
                    assert(spec_tokenize_from(s, i + 4 + nl + nr) == Ok::<Seq<STok>, int>(
                        seq![STok::RParen] + ts,
                    ));
                    assert(spec_tokenize_from(s, i + 4 + nl) == Ok::<Seq<STok>, int>(
                        tokens_of(*r) + (seq![STok::RParen] + ts),
                    ));
                    assert(spec_tokenize_from(s, i + 3 + nl) == spec_tokenize_from(s, i + 4 + nl));
                    assert(spec_tokenize_from(s, i + 2 + nl) == Ok::<Seq<STok>, int>(
                        seq![op_token(op)] + (tokens_of(*r) + (seq![STok::RParen] + ts)),
                    ));
                    assert(spec_tokenize_from(s, i + 1 + nl) == spec_tokenize_from(s, i + 2 + nl));
                    assert(spec_tokenize_from(s, i + 1) == Ok::<Seq<STok>, int>(
                        tokens_of(*l) + (seq![op_token(op)] + (tokens_of(*r) + (seq![
                            STok::RParen,
                        ] + ts))),
                    ));
                    assert(seq![STok::LParen] + (tokens_of(*l) + (seq![op_token(op)] + (tokens_of(
                        *r,
                    ) + (seq![STok::RParen] + ts)))) =~= tokens_of(e) + ts);
                    assert(spec_tokenize_from(s, i) == Ok::<Seq<STok>, int>(tokens_of(e) + ts));
                },
                Err(p) => {
                    assert(spec_tokenize_from(s, i + 4 + nl + nr) == Err::<Seq<STok>, int>(p));
                    assert(spec_tokenize_from(s, i + 4 + nl) == Err::<Seq<STok>, int>(p));
                    assert(spec_tokenize_from(s, i + 3 + nl) == spec_tokenize_from(s, i + 4 + nl));
                    assert(spec_tokenize_from(s, i + 2 + nl) == Err::<Seq<STok>, int>(p));
                    assert(spec_tokenize_from(s, i + 1 + nl) == spec_tokenize_from(s, i + 2 + nl));
                    assert(spec_tokenize_from(s, i + 1) == Err::<Seq<STok>, int>(p));
                    assert(spec_tokenize_from(s, i) == Err::<Seq<STok>, int>(p));
                },
            }
        },
    }
}

/// The character `k` places after `i`.
spec fn ts_char(s: Seq<char>, i: int, k: int) -> char {
    s[i + k]
}

/// The canonical text of a well-formed formula parses back to exactly that
/// formula; in particular the re-parse evaluates as the original does under
/// every assignment.
pub proof fn lemma_render_round_trip(e: SExpr)
    requires
        wf(e),
    ensures
        spec_parse(spec_render(e)) == Ok::<SExpr, SPErr>(e),
{
    let s = spec_render(e);
    let n = s.len() as int;
    assert(s.subrange(0, n) =~= s);
    lemma_tokenize_render(e, s, 0);
    assert(spec_tokenize_from(s, n) == Ok::<Seq<STok>, int>(Seq::empty()));
    assert(tokens_of(e) + Seq::<STok>::empty() =~= tokens_of(e));
    assert(spec_tokenize(s) == Ok::<Seq<STok>, int>(tokens_of(e)));
    lemma_parse_tokens_of(e);
}

/// The whole token sequence of a formula parses, from the loosest level, to
/// exactly that formula.
proof fn lemma_parse_tokens_of(e: SExpr)
    ensures
        spec_parse_bicond(tokens_of(e), 0) == Ok::<(SExpr, int), SPErr>((e, tokens_of(e).len() as int)),
{
    let ts = tokens_of(e);
    lemma_tokens_nonempty(e);
    assert(ts.subrange(0, ts.len() as int) =~= ts);
    lemma_parse_not_window(e, ts, 0);
    let n = ts.len() as int;
    assert(spec_parse_and_rest(e, ts, n) == Ok::<(SExpr, int), SPErr>((e, n)));
    assert(spec_parse_and(ts, 0) == Ok::<(SExpr, int), SPErr>((e, n)));
    assert(spec_parse_or_rest(e, ts, n) == Ok::<(SExpr, int), SPErr>((e, n)));
    assert(spec_parse_or(ts, 0) == Ok::<(SExpr, int), SPErr>((e, n)));
    assert(spec_parse_cond_rest(e, ts, n) == Ok::<(SExpr, int), SPErr>((e, n)));
    assert(spec_parse_cond(ts, 0) == Ok::<(SExpr, int), SPErr>((e, n)));
    assert(spec_parse_bicond_rest(e, ts, n) == Ok::<(SExpr, int), SPErr>((e, n)));
    assert(spec_parse_bicond(ts, 0) == Ok::<(SExpr, int), SPErr>((e, n)));
}


/// An identifier token names one or more uppercase letters; every other
/// token asks nothing.
pub open spec fn wf_tok(t: STok) -> bool {
    match t {
        STok::Ident(n) => n.len() > 0 && forall|k: int| 0 <= k < n.len() ==> is_upper(n[k]),
        _ => true,
    }
}

/// Every identifier token of the sequence is well-formed.
pub open spec fn wf_toks(ts: Seq<STok>) -> bool {
    forall|k: int| 0 <= k < ts.len() ==> wf_tok(#[trigger] ts[k])
}

/// A well-formed token in front of well-formed tokens.
proof fn lemma_wf_cons(t: STok, ts: Seq<STok>)
    requires
        wf_tok(t),
        wf_toks(ts),
    ensures
        wf_toks(seq![t] + ts),
{
    assert forall|k: int| 0 <= k < (seq![t] + ts).len() implies wf_tok(
        #[trigger] (seq![t] + ts)[k],
    ) by {
        if k > 0 {
            assert((seq![t] + ts)[k] == ts[k - 1]);
        }
    }
}

/// Every character of an uppercase run is uppercase.
proof fn lemma_scan_upper_run(s: Seq<char>, i: int)
    ensures
        forall|k: int| i <= k < scan_upper(s, i) ==> is_upper(#[trigger] s[k]),
    decreases s.len() - i,
{
    if 0 <= i < s.len() && is_upper(s[i]) {
        lemma_scan_upper_run(s, i + 1);
    }
}

/// Whatever the tokenizer accepts, its identifier tokens are uppercase
/// runs: the token sequence is well-formed.
proof fn lemma_tokenize_wf(s: Seq<char>, i: int)
    ensures
        spec_tokenize_from(s, i) matches Ok(ts) ==> wf_toks(ts),
    decreases s.len() - i,
{
    if i < 0 || i >= s.len() {
    } else {
        let c = s[i];
        if is_space(c) {
            lemma_tokenize_wf(s, i + 1);
        } else if symbol(c) is Some {
            lemma_tokenize_wf(s, i + 1);
            match spec_tokenize_from(s, i + 1) {
                Ok(rest) => {
                    lemma_wf_cons(symbol(c)->Some_0, rest);
                },
                Err(_) => {},
            }
        } else if c == '=' {
            if i + 1 < s.len() && s[i + 1] == '>' {
                lemma_tokenize_wf(s, i + 2);
                match spec_tokenize_from(s, i + 2) {
                    Ok(rest) => {
                        lemma_wf_cons(STok::Cond, rest);
                    },
                    Err(_) => {},
                }
            }
        } else if c == '<' {
            if i + 2 < s.len() && s[i + 1] == '=' && s[i + 2] == '>' {
                lemma_tokenize_wf(s, i + 3);
                match spec_tokenize_from(s, i + 3) {
                    Ok(rest) => {
                        lemma_wf_cons(STok::Bicond, rest);
                    },
                    Err(_) => {},
                }
            }
        } else if is_upper(c) {
            let j = scan_upper(s, i + 1);
            if i < j <= s.len() {
                lemma_tokenize_wf(s, j);
                lemma_scan_upper_run(s, i + 1);
                let name = s.subrange(i, j);
                assert(wf_tok(STok::Ident(name))) by {
                    assert(forall|k: int| 0 <= k < name.len() ==> #[trigger] name[k] == s[i + k]);
                }
                match spec_tokenize_from(s, j) {
                    Ok(rest) => {
                        lemma_wf_cons(STok::Ident(name), rest);
                    },
                    Err(_) => {},
                }
            }
        } else if is_lower(c) {
            let j = scan_lower(s, i + 1);
            if i < j <= s.len() && crate::token::keyword(s.subrange(i, j)) is Some {
                lemma_tokenize_wf(s, j);
                match spec_tokenize_from(s, j) {
                    Ok(rest) => {
                        lemma_wf_cons(crate::token::keyword(s.subrange(i, j))->Some_0, rest);
                    },
                    Err(_) => {},
                }
            }
        }
    }
}

/// A primary parse of well-formed tokens yields a well-formed formula.
proof fn lemma_parse_primary_wf(ts: Seq<STok>, i: int)
    requires
        wf_toks(ts),
    ensures
        spec_parse_primary(ts, i) matches Ok(r) ==> wf(r.0),
    decreases ts.len() - i, 0int,
{
    if 0 <= i < ts.len() {
        match ts[i] {
            STok::Ident(name) => {
                assert(wf_tok(ts[i]));
            },
            STok::LParen => {
                lemma_parse_bicond_wf(ts, i + 1);
            },
            _ => {},
        }
    }
}

/// A `not` level parse of well-formed tokens yields a well-formed formula.
proof fn lemma_parse_not_wf(ts: Seq<STok>, i: int)
    requires
        wf_toks(ts),
    ensures
        spec_parse_not(ts, i) matches Ok(r) ==> wf(r.0),
    decreases ts.len() - i, 1int,
{
    if 0 <= i < ts.len() && ts[i] is Not {
        lemma_parse_not_wf(ts, i + 1);
    } else {
        lemma_parse_primary_wf(ts, i);
    }
}

/// An `and` level parse of well-formed tokens yields a well-formed formula.
proof fn lemma_parse_and_wf(ts: Seq<STok>, i: int)
    requires
        wf_toks(ts),
    ensures
        spec_parse_and(ts, i) matches Ok(r) ==> wf(r.0),
    decreases ts.len() - i, 3int,
{
    lemma_parse_not_wf(ts, i);
    match spec_parse_not(ts, i) {
        Ok((e, j)) => {
            if i < j <= ts.len() {
                lemma_parse_and_rest_wf(e, ts, j);
            }
        },
        Err(_) => {},
    }
}

/// Folding further well-formed `and` operands keeps the formula well-formed.
proof fn lemma_parse_and_rest_wf(acc: SExpr, ts: Seq<STok>, i: int)
    requires
        wf_toks(ts),
        wf(acc),
    ensures
        spec_parse_and_rest(acc, ts, i) matches Ok(r) ==> wf(r.0),
    decreases ts.len() - i, 2int,
{
    if 0 <= i < ts.len() && ts[i] is And {
        lemma_parse_not_wf(ts, i + 1);
        match spec_parse_not(ts, i + 1) {
            Ok((e, j)) => {
                if i < j <= ts.len() {
                    lemma_parse_and_rest_wf(
                        SExpr::Op(Box::new(acc), Opcode::And, Box::new(e)),
                        ts,
                        j,
                    );
                }
            },
            Err(_) => {},
        }
    }
}

/// An `or` level parse of well-formed tokens yields a well-formed formula.
proof fn lemma_parse_or_wf(ts: Seq<STok>, i: int)
    requires
        wf_toks(ts),
    ensures
        spec_parse_or(ts, i) matches Ok(r) ==> wf(r.0),
    decreases ts.len() - i, 5int,
{
    lemma_parse_and_wf(ts, i);
    match spec_parse_and(ts, i) {
        Ok((e, j)) => {
            if i < j <= ts.len() {
                lemma_parse_or_rest_wf(e, ts, j);
            }
        },
        Err(_) => {},
    }
}

/// Folding further well-formed `or` operands keeps the formula well-formed.
proof fn lemma_parse_or_rest_wf(acc: SExpr, ts: Seq<STok>, i: int)
    requires
        wf_toks(ts),
        wf(acc),
    ensures
        spec_parse_or_rest(acc, ts, i) matches Ok(r) ==> wf(r.0),
    decreases ts.len() - i, 4int,
{
    if 0 <= i < ts.len() && ts[i] is Or {
        lemma_parse_and_wf(ts, i + 1);
        match spec_parse_and(ts, i + 1) {
            Ok((e, j)) => {
                if i < j <= ts.len() {
                    lemma_parse_or_rest_wf(
                        SExpr::Op(Box::new(acc), Opcode::Or, Box::new(e)),
                        ts,
                        j,
                    );
                }
            },
            Err(_) => {},
        }
    }
}

/// A `=>` level parse of well-formed tokens yields a well-formed formula.
proof fn lemma_parse_cond_wf(ts: Seq<STok>, i: int)
    requires
        wf_toks(ts),
    ensures
        spec_parse_cond(ts, i) matches Ok(r) ==> wf(r.0),
    decreases ts.len() - i, 7int,
{
    lemma_parse_or_wf(ts, i);
    match spec_parse_or(ts, i) {
        Ok((e, j)) => {
            if i < j <= ts.len() {
                lemma_parse_cond_rest_wf(e, ts, j);
            }
        },
        Err(_) => {},
    }
}

/// Folding further well-formed `=>` operands keeps the formula well-formed.
proof fn lemma_parse_cond_rest_wf(acc: SExpr, ts: Seq<STok>, i: int)
    requires
        wf_toks(ts),
        wf(acc),
    ensures
        spec_parse_cond_rest(acc, ts, i) matches Ok(r) ==> wf(r.0),
    decreases ts.len() - i, 6int,
{
    if 0 <= i < ts.len() && ts[i] is Cond {
        lemma_parse_or_wf(ts, i + 1);
        match spec_parse_or(ts, i + 1) {
            Ok((e, j)) => {
                if i < j <= ts.len() {
                    lemma_parse_cond_rest_wf(
                        SExpr::Op(Box::new(acc), Opcode::Conditional, Box::new(e)),
                        ts,
                        j,
                    );
                }
            },
            Err(_) => {},
        }
    }
}

/// A `<=>` level parse of well-formed tokens yields a well-formed formula.
proof fn lemma_parse_bicond_wf(ts: Seq<STok>, i: int)
    requires
        wf_toks(ts),
    ensures
        spec_parse_bicond(ts, i) matches Ok(r) ==> wf(r.0),
    decreases ts.len() - i, 9int,
{
    lemma_parse_cond_wf(ts, i);
    match spec_parse_cond(ts, i) {
        Ok((e, j)) => {
            if i < j <= ts.len() {
                lemma_parse_bicond_rest_wf(e, ts, j);
            }
        },
        Err(_) => {},
    }
}

/// Folding further well-formed `<=>` operands keeps the formula well-formed.
proof fn lemma_parse_bicond_rest_wf(acc: SExpr, ts: Seq<STok>, i: int)
    requires
        wf_toks(ts),
        wf(acc),
    ensures
        spec_parse_bicond_rest(acc, ts, i) matches Ok(r) ==> wf(r.0),
    decreases ts.len() - i, 8int,
{
    if 0 <= i < ts.len() && ts[i] is Bicond {
        lemma_parse_cond_wf(ts, i + 1);
        match spec_parse_cond(ts, i + 1) {
            Ok((e, j)) => {
                if i < j <= ts.len() {
                    lemma_parse_bicond_rest_wf(
                        SExpr::Op(Box::new(acc), Opcode::Biconditional, Box::new(e)),
                        ts,
                        j,
                    );
                }
            },
            Err(_) => {},
        }
    }
}

/// Whatever text parses, the formula it parses to is well-formed: its
/// variable names came from identifier tokens.
pub proof fn lemma_parse_wf(s: Seq<char>)
    ensures
        spec_parse(s) matches Ok(e) ==> wf(e),
{
    lemma_tokenize_wf(s, 0);
    match spec_tokenize(s) {
        Ok(ts) => {
            lemma_parse_bicond_wf(ts, 0);
        },
        Err(_) => {},
    }
}

/// Parse, render, parse again: any formula obtained by parsing renders to
/// text that parses back to the same formula.
pub proof fn lemma_parse_render_parse(s: Seq<char>, e: SExpr)
    requires
        spec_parse(s) == Ok::<SExpr, SPErr>(e),
    ensures
        spec_parse(spec_render(e)) == Ok::<SExpr, SPErr>(e),
{
    lemma_parse_wf(s);
    lemma_render_round_trip(e);
}

} // verus!
