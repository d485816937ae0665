//! Lexical analysis: formula text to a sequence of tokens.
//!
//! Keywords are the lowercase words `true`, `false`, `and`, `or`, `not`; the
//! connectives also have symbolic spellings `=>`, `<=>`, and the one-character
//! forms the renderer emits. An identifier is one or more uppercase letters.
//! Whitespace separates tokens and is otherwise insignificant.

use vstd::prelude::*;
use crate::assign::str_eq;

verus! {

/// One token of the grammar.
#[derive(Debug, PartialEq)]
pub enum Token {
    True,
    False,
    And,
    Or,
    Not,
    Cond,
    Bicond,
    LParen,
    RParen,
    Ident(String),
}

/// The mathematical value of a token: `Token` with the identifier name
/// abstracted to its character sequence.
pub enum STok {
    True,
    False,
    And,
    Or,
    Not,
    Cond,
    Bicond,
    LParen,
    RParen,
    Ident(Seq<char>),
}

impl View for Token {
    type V = STok;

    open spec fn view(&self) -> STok {
        match self {
            Token::True => STok::True,
            Token::False => STok::False,
            Token::And => STok::And,
            Token::Or => STok::Or,
            Token::Not => STok::Not,
            Token::Cond => STok::Cond,
            Token::Bicond => STok::Bicond,
            Token::LParen => STok::LParen,
            Token::RParen => STok::RParen,
            Token::Ident(s) => STok::Ident(s@),
        }
    }
}

impl Clone for Token {
    /// A cloned token equals the original.
    fn clone(&self) -> (r: Self)
        ensures
            r == *self,
    {
        match self {
            Token::True => Token::True,
            Token::False => Token::False,
            Token::And => Token::And,
            Token::Or => Token::Or,
            Token::Not => Token::Not,
            Token::Cond => Token::Cond,
            Token::Bicond => Token::Bicond,
            Token::LParen => Token::LParen,
            Token::RParen => Token::RParen,
            Token::Ident(s) => Token::Ident(s.clone()),
        }
    }
}

/// The token sequence named by a sequence of tokens.
pub open spec fn toks(v: Seq<Token>) -> Seq<STok> {
    v.map_values(|t: Token| t@)
}

/// An uppercase ASCII letter: part of an identifier.
pub open spec fn is_upper(c: char) -> bool {
    'A' as u32 <= c as u32 && c as u32 <= 'Z' as u32
}

/// A lowercase ASCII letter: part of a keyword.
pub open spec fn is_lower(c: char) -> bool {
    'a' as u32 <= c as u32 && c as u32 <= 'z' as u32
}

/// Whitespace between tokens, the trailing newline of line input included.
pub open spec fn is_space(c: char) -> bool {
    c == ' ' || c == '\t' || c == '\n' || c == '\r'
}

/// The first position at or after `i` that does not hold an uppercase letter.
pub open spec fn scan_upper(s: Seq<char>, i: int) -> int
    decreases s.len() - i,
{
    if 0 <= i < s.len() && is_upper(s[i]) {
        scan_upper(s, i + 1)
    } else {
        i
    }
}

/// The first position at or after `i` that does not hold a lowercase letter.
pub open spec fn scan_lower(s: Seq<char>, i: int) -> int
    decreases s.len() - i,
{
    if 0 <= i < s.len() && is_lower(s[i]) {
        scan_lower(s, i + 1)
    } else {
        i
    }
}

/// The token a lowercase word denotes, if it is a keyword.
pub open spec fn keyword(w: Seq<char>) -> Option<STok> {
    if w == seq!['t', 'r', 'u', 'e'] {
        Some(STok::True)
    } else if w == seq!['f', 'a', 'l', 's', 'e'] {
        Some(STok::False)
    } else if w == seq!['a', 'n', 'd'] {
        Some(STok::And)
    } else if w == seq!['o', 'r'] {
        Some(STok::Or)
    } else if w == seq!['n', 'o', 't'] {
        Some(STok::Not)
    } else {
        None
    }
}

/// The token a single symbolic character denotes, if any. These are the
/// spellings the renderer emits, plus the parentheses.
pub open spec fn symbol(c: char) -> Option<STok> {
    if c == '(' {
        Some(STok::LParen)
    } else if c == ')' {
        Some(STok::RParen)
    } else if c == '\u{ac}' {
        Some(STok::Not)
    } else if c == '\u{2227}' {
        Some(STok::And)
    } else if c == '\u{2228}' {
        Some(STok::Or)
    } else if c == '\u{21d2}' {
        Some(STok::Cond)
    } else if c == '\u{21d4}' {
        Some(STok::Bicond)
    } else {
        None
    }
}

/// The tokens of `s` from position `i` on, or the position of the first
/// character that starts no token.
pub open spec fn spec_tokenize_from(s: Seq<char>, i: int) -> Result<Seq<STok>, int>
    decreases s.len() - i,
{
    if i < 0 || i >= s.len() {
        Ok(Seq::empty())
    } else {
        let c = s[i];
        if is_space(c) {
            spec_tokenize_from(s, i + 1)
        } else if symbol(c) is Some {
            match spec_tokenize_from(s, i + 1) {
                Ok(ts) => Ok(seq![symbol(c)->Some_0] + ts),
                Err(p) => Err(p),
            }
        } else if c == '=' {
            if i + 1 < s.len() && s[i + 1] == '>' {
                match spec_tokenize_from(s, i + 2) {
                    Ok(ts) => Ok(seq![STok::Cond] + ts),
                    Err(p) => Err(p),
                }
            } else {
                Err(i)
            }
        } else if c == '<' {
            if i + 2 < s.len() && s[i + 1] == '=' && s[i + 2] == '>' {
                match spec_tokenize_from(s, i + 3) {
                    Ok(ts) => Ok(seq![STok::Bicond] + ts),
                    Err(p) => Err(p),
                }
            } else {
                Err(i)
            }
        } else if is_upper(c) {
            let j = scan_upper(s, i + 1);
            if i < j <= s.len() {
                match spec_tokenize_from(s, j) {
                    Ok(ts) => Ok(seq![STok::Ident(s.subrange(i, j))] + ts),
                    Err(p) => Err(p),
                }
            } else {
                Err(i)
            }
        } else if is_lower(c) {
            let j = scan_lower(s, i + 1);
            if i < j <= s.len() && keyword(s.subrange(i, j)) is Some {
                match spec_tokenize_from(s, j) {
                    Ok(ts) => Ok(seq![keyword(s.subrange(i, j))->Some_0] + ts),
                    Err(p) => Err(p),
                }
            } else {
                Err(i)
            }
        } else {
            Err(i)
        }
    }
}

/// The tokens of the whole of `s`, or the position of the first bad character.
pub open spec fn spec_tokenize(s: Seq<char>) -> Result<Seq<STok>, int> {
    spec_tokenize_from(s, 0)
}

/// The first position at or after `i` whose character is not uppercase.
fn scan_upper_run(s: &str, i: usize) -> (j: usize)
    requires
        i <= s@.len(),
    ensures
        i <= j <= s@.len(),
        j as int == scan_upper(s@, i as int),
    decreases s@.len() - i,
{
    let n = s.unicode_len();
    if i < n {
        let c = s.get_char(i);
        if ('A' as u32) <= (c as u32) && (c as u32) <= ('Z' as u32) {
            return scan_upper_run(s, i + 1);
        }
    }
    i
}

/// The first position at or after `i` whose character is not lowercase.
fn scan_lower_run(s: &str, i: usize) -> (j: usize)
    requires
        i <= s@.len(),
    ensures
        i <= j <= s@.len(),
        j as int == scan_lower(s@, i as int),
    decreases s@.len() - i,
{
    let n = s.unicode_len();
    if i < n {
        let c = s.get_char(i);
        if ('a' as u32) <= (c as u32) && (c as u32) <= ('z' as u32) {
            return scan_lower_run(s, i + 1);
        }
    }
    i
}

/// The token a single symbolic character denotes, if any.
fn symbol_token(c: char) -> (r: Option<Token>)
    ensures
        match symbol(c) {
            Some(st) => r matches Some(t) && t@ == st,
            None => r is None,
        },
{
    if c == '(' {
        Some(Token::LParen)
    } else if c == ')' {
        Some(Token::RParen)
    } else if c == '\u{ac}' {
        Some(Token::Not)
    } else if c == '\u{2227}' {
        Some(Token::And)
    } else if c == '\u{2228}' {
        Some(Token::Or)
    } else if c == '\u{21d2}' {
        Some(Token::Cond)
    } else if c == '\u{21d4}' {
        Some(Token::Bicond)
    } else {
        None
    }
}

/// The token a lowercase word denotes, if it is a keyword.
fn keyword_token(w: &str) -> (r: Option<Token>)
    ensures
        match keyword(w@) {
            Some(st) => r matches Some(t) && t@ == st,
            None => r is None,
        },
{
    proof {
        reveal_strlit("true");
        reveal_strlit("false");
        reveal_strlit("and");
        reveal_strlit("or");
        reveal_strlit("not");
        assert("true"@ =~= seq!['t', 'r', 'u', 'e']);
        assert("false"@ =~= seq!['f', 'a', 'l', 's', 'e']);
        assert("and"@ =~= seq!['a', 'n', 'd']);
        assert("or"@ =~= seq!['o', 'r']);
        assert("not"@ =~= seq!['n', 'o', 't']);
    }
    if str_eq(w, "true") {
        Some(Token::True)
    } else if str_eq(w, "false") {
        Some(Token::False)
    } else if str_eq(w, "and") {
        Some(Token::And)
    } else if str_eq(w, "or") {
        Some(Token::Or)
    } else if str_eq(w, "not") {
        Some(Token::Not)
    } else {
        None
    }
}

/// Puts `t` in front of `rest`.
fn cons_tok(t: Token, rest: Vec<Token>) -> (r: Vec<Token>)
    ensures
        toks(r@) == seq![t@] + toks(rest@),
{
    let ghost t0 = t@;
    let ghost rest0 = rest@;
    let mut out: Vec<Token> = Vec::new();
    out.push(t);
    let mut rest = rest;
    out.append(&mut rest);
    proof {
        assert(toks(out@) =~= seq![t0] + toks(rest0));
    }
    out
}

/// The tokens of `s` from position `i` on, or the position of the first
/// character that starts no token.
fn tokenize_from(s: &str, i: usize) -> (r: Result<Vec<Token>, usize>)
    requires
        i <= s@.len(),
    ensures
        match spec_tokenize_from(s@, i as int) {
            Ok(ts) => r matches Ok(v) && toks(v@) == ts,
            Err(p) => r matches Err(q) && q as int == p,
        },
    decreases s@.len() - i,
{
    let n = s.unicode_len();
    if i >= n {
        let empty: Vec<Token> = Vec::new();
        proof {
            assert(toks(empty@) =~= Seq::<STok>::empty());
        }
        return Ok(empty);
    }
    let c = s.get_char(i);
    if c == ' ' || c == '\t' || c == '\n' || c == '\r' {
        tokenize_from(s, i + 1)
    } else if let Some(t) = symbol_token(c) {
        match tokenize_from(s, i + 1) {
            Ok(rest) => Ok(cons_tok(t, rest)),
            Err(p) => Err(p),
        }
    } else if c == '=' {
        if i + 1 < n && s.get_char(i + 1) == '>' {
            match tokenize_from(s, i + 2) {
                Ok(rest) => Ok(cons_tok(Token::Cond, rest)),
                Err(p) => Err(p),
            }
        } else {
            Err(i)
        }
    } else if c == '<' {
        if i + 1 < n && i + 2 < n && s.get_char(i + 1) == '=' && s.get_char(i + 2) == '>' {
            match tokenize_from(s, i + 3) {
                Ok(rest) => Ok(cons_tok(Token::Bicond, rest)),
                Err(p) => Err(p),
            }
        } else {
            Err(i)
        }
    } else if ('A' as u32) <= (c as u32) && (c as u32) <= ('Z' as u32) {
        let j = scan_upper_run(s, i + 1);
        let w = s.substring_char(i, j);
        let name = String::from_str(w);
        match tokenize_from(s, j) {
            Ok(rest) => Ok(cons_tok(Token::Ident(name), rest)),
            Err(p) => Err(p),
        }
    } else if ('a' as u32) <= (c as u32) && (c as u32) <= ('z' as u32) {
        let j = scan_lower_run(s, i + 1);
        let w = s.substring_char(i, j);
        match keyword_token(w) {
            Some(t) => match tokenize_from(s, j) {
                Ok(rest) => Ok(cons_tok(t, rest)),
                Err(p) => Err(p),
            },
            None => Err(i),
        }
    } else {
        Err(i)
    }
}

/// The tokens of the whole of `s`, or the position of the first character
/// that starts no token.
pub(crate) fn tokenize(s: &str) -> (r: Result<Vec<Token>, usize>)
    ensures
        match spec_tokenize(s@) {
            Ok(ts) => r matches Ok(v) && toks(v@) == ts,
            Err(p) => r matches Err(q) && q as int == p,
        },
{
    tokenize_from(s, 0)
}

} // verus!
