//! The tokenizer and the recursive-descent parser.
//!
//! Tokenization isolates every parenthesis as a one-character token and
//! splits the rest on runs of whitespace. Parsing consumes a prefix of the
//! token sequence and returns one expression tree together with the cursor
//! position where parsing left off.

use crate::errors::{ErrorModel, RispError};
use crate::expr::{
    expr_list_model, expr_model, lemma_expr_list_model, lemma_expr_list_model_push, Expr, ExprModel,
};
use vstd::prelude::*;
use vstd::string::{StrSliceExecFns, StringExecFns};

verus! {

/// A whitespace character: what splitting on whitespace discards.
pub open spec fn is_space(c: char) -> bool {
    c == '\u{0009}' || c == '\u{000A}' || c == '\u{000B}' || c == '\u{000C}' || c == '\u{000D}'
        || c == ' ' || c == '\u{0085}' || c == '\u{00A0}' || c == '\u{1680}' || c == '\u{2000}'
        || c == '\u{2001}' || c == '\u{2002}' || c == '\u{2003}' || c == '\u{2004}' || c
        == '\u{2005}' || c == '\u{2006}' || c == '\u{2007}' || c == '\u{2008}' || c == '\u{2009}'
        || c == '\u{200A}' || c == '\u{2028}' || c == '\u{2029}' || c == '\u{202F}' || c
        == '\u{205F}' || c == '\u{3000}'
}

/// A parenthesis: always a token of its own.
pub open spec fn is_paren(c: char) -> bool {
    c == '(' || c == ')'
}

/// Where the token starting at or before `i` ends: the first position at or
/// after `i` holding a whitespace character or a parenthesis, or the end of
/// the text.
pub open spec fn token_end(s: Seq<char>, i: int) -> int
    decreases s.len() - i,
{
    if i < 0 || i >= s.len() {
        i
    } else if is_space(s[i]) || is_paren(s[i]) {
        i
    } else {
        token_end(s, i + 1)
    }
}

/// `token_end` stays between its start and the end of the text.
proof fn lemma_token_end_bounds(s: Seq<char>, i: int)
    requires
        0 <= i <= s.len(),
    ensures
        i <= token_end(s, i) <= s.len(),
    decreases s.len() - i,
{
    if i < s.len() && !is_space(s[i]) && !is_paren(s[i]) {
        lemma_token_end_bounds(s, i + 1);
    }
}

/// The tokens of the text from position `i` on: each parenthesis alone, every
/// other token a maximal run of non-whitespace, non-parenthesis characters.
pub open spec fn tokenize_spec(s: Seq<char>, i: int) -> Seq<Seq<char>>
    decreases s.len() - i,
        via tokenize_spec_dec
{
    if i < 0 || i >= s.len() {
        Seq::empty()
    } else if is_space(s[i]) {
        tokenize_spec(s, i + 1)
    } else if is_paren(s[i]) {
        seq![seq![s[i]]] + tokenize_spec(s, i + 1)
    } else {
        seq![s.subrange(i, token_end(s, i + 1))] + tokenize_spec(s, token_end(s, i + 1))
    }
}

#[via_fn]
proof fn tokenize_spec_dec(s: Seq<char>, i: int) {
    if 0 <= i < s.len() && !is_space(s[i]) && !is_paren(s[i]) {
        lemma_token_end_bounds(s, i + 1);
    }
}

/// Whether `c` is a whitespace character, decided in executable code.
fn is_space_char(c: char) -> (r: bool)
    ensures
        r == is_space(c),
{
    c == '\u{0009}' || c == '\u{000A}' || c == '\u{000B}' || c == '\u{000C}' || c == '\u{000D}'
        || c == ' ' || c == '\u{0085}' || c == '\u{00A0}' || c == '\u{1680}' || c == '\u{2000}'
        || c == '\u{2001}' || c == '\u{2002}' || c == '\u{2003}' || c == '\u{2004}' || c
        == '\u{2005}' || c == '\u{2006}' || c == '\u{2007}' || c == '\u{2008}' || c == '\u{2009}'
        || c == '\u{200A}' || c == '\u{2028}' || c == '\u{2029}' || c == '\u{202F}' || c
        == '\u{205F}' || c == '\u{3000}'
}

/// The end of the token run starting at `start`, found by scanning.
fn token_end_exec(s: &str, start: usize) -> (j: usize)
    requires
        start <= s@.len(),
    ensures
        j as int == token_end(s@, start as int),
        start <= j <= s@.len(),
{
    let n = s.unicode_len();
    let mut j: usize = start;
    while j < n
        invariant
            start <= j <= n,
            n == s@.len(),
            token_end(s@, start as int) == token_end(s@, j as int),
        decreases n - j,
    {
        let c = s.get_char(j);
        if is_space_char(c) || c == '(' || c == ')' {
            return j;
        }
        j += 1;
    }
    j
}

/// Character-by-character string equality.
fn str_eq(a: &str, b: &str) -> (r: bool)
    ensures
        r == (a@ == b@),
{
    let n = a.unicode_len();
    if n != b.unicode_len() {
        return false;
    }
    let mut i: usize = 0;
    while i < n
        invariant
            n == a@.len(),
            n == b@.len(),
            i <= n,
            forall|j: int| 0 <= j < i ==> a@[j] == b@[j],
        decreases n - i,
    {
        if a.get_char(i) != b.get_char(i) {
            return false;
        }
        i += 1;
    }
    proof {
        assert(a@ =~= b@);
    }
    true
}

/// A decimal digit.
pub open spec fn is_digit(c: char) -> bool {
    c == '0' || c == '1' || c == '2' || c == '3' || c == '4' || c == '5' || c == '6' || c == '7'
        || c == '8' || c == '9'
}

/// The value of a decimal digit.
pub open spec fn digit_value(c: char) -> nat {
    if c == '0' {
        0
    } else if c == '1' {
        1
    } else if c == '2' {
        2
    } else if c == '3' {
        3
    } else if c == '4' {
        4
    } else if c == '5' {
        5
    } else if c == '6' {
        6
    } else if c == '7' {
        7
    } else if c == '8' {
        8
    } else {
        9
    }
}

/// The value of a run of decimal digits, most significant first.
pub open spec fn digits_value(t: Seq<char>) -> nat
    decreases t.len(),
{
    if t.len() == 0 {
        0
    } else {
        digits_value(t.drop_last()) * 10 + digit_value(t.last())
    }
}

/// A numeric literal: at least one character, every one a decimal digit.
/// A minus sign or a decimal point therefore disqualifies a token.
pub open spec fn all_digits(t: Seq<char>) -> bool {
    t.len() > 0 && forall|i: int| 0 <= i < t.len() ==> is_digit(t[i])
}

/// The number a numeric literal denotes, held at the largest 64-bit signed
/// value when the digits exceed it.
pub open spec fn atom_number(t: Seq<char>) -> int {
    if digits_value(t) > i64::MAX {
        i64::MAX as int
    } else {
        digits_value(t) as int
    }
}

/// What a single non-parenthesis token means: exactly `true` or `false` is a
/// boolean, a run of decimal digits is a number, and anything else is a
/// symbol holding the raw token text.
pub open spec fn atom_spec(t: Seq<char>) -> ExprModel {
    if t == "true"@ {
        ExprModel::Boolean(true)
    } else if t == "false"@ {
        ExprModel::Boolean(false)
    } else if all_digits(t) {
        ExprModel::Number(atom_number(t))
    } else {
        ExprModel::Symbol(t)
    }
}

/// Law: a token other than the boolean literals that holds any character
/// that is not a decimal digit — a minus sign or a decimal point among
/// them — is read as a symbol, never as a number.
pub proof fn lemma_nonnumeric_atom_is_symbol(t: Seq<char>)
    requires
        t != "true"@,
        t != "false"@,
        exists|i: int| 0 <= i < t.len() && !is_digit(t[i]),
    ensures
        atom_spec(t) == ExprModel::Symbol(t),
{
}

/// The digit a character stands for, when it is one.
fn digit_of(c: char) -> (r: Option<u64>)
    ensures
        match r {
            Some(d) => is_digit(c) && d as nat == digit_value(c),
            None => !is_digit(c),
        },
{
    if c == '0' {
        Some(0)
    } else if c == '1' {
        Some(1)
    } else if c == '2' {
        Some(2)
    } else if c == '3' {
        Some(3)
    } else if c == '4' {
        Some(4)
    } else if c == '5' {
        Some(5)
    } else if c == '6' {
        Some(6)
    } else if c == '7' {
        Some(7)
    } else if c == '8' {
        Some(8)
    } else if c == '9' {
        Some(9)
    } else {
        None
    }
}

/// What one parse step returns: the expression read from the cursor position
/// and the position where parsing left off.
/// - With no token to read, parsing fails.
/// - An opening parenthesis reads sub-expressions up to its match.
/// - A closing parenthesis with no enclosing list fails.
/// - Any other token is an atom.
pub open spec fn parse_spec(tokens: Seq<Seq<char>>, pos: int) -> Result<
    (ExprModel, int),
    ErrorModel,
>
    decreases tokens.len() - pos, 0int,
{
    if pos < 0 || pos >= tokens.len() {
        Err(ErrorModel::Reason("could not get token"@))
    } else if tokens[pos] == "("@ {
        match read_seq_spec(tokens, pos + 1) {
            Err(err) => Err(err),
            Ok((items, end)) => Ok((ExprModel::List(items), end)),
        }
    } else if tokens[pos] == ")"@ {
        Err(ErrorModel::Reason("unexpected `)`"@))
    } else {
        Ok((atom_spec(tokens[pos]), pos + 1))
    }
}

/// The elements read up to a matching closing parenthesis, and the position
/// after it; running out of tokens first is the unmatched-parenthesis
/// failure.
pub open spec fn read_seq_spec(tokens: Seq<Seq<char>>, pos: int) -> Result<
    (Seq<ExprModel>, int),
    ErrorModel,
>
    decreases tokens.len() - pos, 1int,
{
    if pos < 0 || pos >= tokens.len() {
        Err(ErrorModel::UnmatchedParenthesis)
    } else if tokens[pos] == ")"@ {
        Ok((Seq::empty(), pos + 1))
    } else {
        match parse_spec(tokens, pos) {
            Err(err) => Err(err),
            Ok((e, next)) => if pos < next <= tokens.len() {
                match read_seq_spec(tokens, next) {
                    Err(err) => Err(err),
                    Ok((rest, end)) => Ok((seq![e] + rest, end)),
                }
            } else {
                Err(ErrorModel::UnmatchedParenthesis)
            },
        }
    }
}

/// How a partial left-to-right read relates the full sequence read to what
/// remains from the cursor on.
spec fn read_splits(
    full: Result<(Seq<ExprModel>, int), ErrorModel>,
    done: Seq<ExprModel>,
    rest: Result<(Seq<ExprModel>, int), ErrorModel>,
) -> bool {
    full == match rest {
        Ok(p) => Ok::<(Seq<ExprModel>, int), ErrorModel>((done + p.0, p.1)),
        Err(err) => Err::<(Seq<ExprModel>, int), ErrorModel>(err),
    }
}

/// The parser's token cursor operations live on this carrier type.
pub struct Parser;

impl Parser {
    /// Split raw input into tokens: each parenthesis becomes a standalone
    /// one-character token, everything else splits on runs of whitespace.
    pub fn tokenize(expr: String) -> (r: Vec<String>)
        ensures
            r.deep_view() == tokenize_spec(expr@, 0),
    {
        let s = expr.as_str();
        let n = s.unicode_len();
        let mut tokens: Vec<String> = Vec::new();
        let mut i: usize = 0;
        while i < n
            invariant
                n == s@.len(),
                i <= n,
                tokens.deep_view() + tokenize_spec(s@, i as int) == tokenize_spec(s@, 0),
            decreases n - i,
        {
            let ghost prev = tokens.deep_view();
            let c = s.get_char(i);
            if is_space_char(c) {
                i += 1;
            } else if c == '(' || c == ')' {
                tokens.push(s.substring_char(i, i + 1).to_owned());
                proof {
                    assert(s@.subrange(i as int, i + 1) =~= seq![s@[i as int]]);
                    assert(tokens.deep_view() =~= prev.push(seq![s@[i as int]]));
                    assert(tokens.deep_view() + tokenize_spec(s@, i + 1) =~= prev + tokenize_spec(
                        s@,
                        i as int,
                    ));
                }
                i += 1;
            } else {
                let j = token_end_exec(s, i + 1);
                tokens.push(s.substring_char(i, j).to_owned());
                proof {
                    assert(tokens.deep_view() =~= prev.push(s@.subrange(i as int, j as int)));
                    assert(tokens.deep_view() + tokenize_spec(s@, j as int) =~= prev
                        + tokenize_spec(s@, i as int));
                }
                i = j;
            }
        }
        proof {
            assert(tokens.deep_view() + tokenize_spec(s@, n as int) =~= tokens.deep_view());
        }
        tokens
    }

    /// Read one expression starting at `pos`, returning it together with the
    /// cursor position where parsing left off, per `parse_spec`.
    pub fn parse(tokens: &Vec<String>, pos: usize) -> (r: Result<(Expr, usize), RispError>)
        ensures
            (match r {
                Ok((e, next)) => parse_spec(tokens.deep_view(), pos as int) == Ok::<
                    (ExprModel, int),
                    ErrorModel,
                >((e@, next as int)) && pos < next <= tokens.len(),
                Err(err) => parse_spec(tokens.deep_view(), pos as int) == Err::<
                    (ExprModel, int),
                    ErrorModel,
                >(err@),
            }),
        decreases tokens.len() - pos, 0int,
    {
        if pos >= tokens.len() {
            return Err(RispError::Reason(String::from_str("could not get token")));
        }
        proof {
            assert(tokens.deep_view()[pos as int] == tokens@[pos as int]@);
        }
        let token = &tokens[pos];
        if str_eq(token.as_str(), "(") {
            match Self::read_seq(tokens, pos + 1) {
                Ok((e, next)) => Ok((e, next)),
                Err(err) => Err(err),
            }
        } else if str_eq(token.as_str(), ")") {
            Err(RispError::Reason(String::from_str("unexpected `)`")))
        } else {
            Ok((Self::parse_atom(token.as_str()), pos + 1))
        }
    }

    /// Read sub-expressions up to the matching closing parenthesis, per
    /// `read_seq_spec`, returning the list and the position after it.
    fn read_seq(tokens: &Vec<String>, pos: usize) -> (r: Result<(Expr, usize), RispError>)
        ensures
            (match r {
                Ok((e, next)) => e@ is List && read_seq_spec(tokens.deep_view(), pos as int)
                    == Ok::<(Seq<ExprModel>, int), ErrorModel>((e@->List_0, next as int)) && pos
                    < next <= tokens.len(),
                Err(err) => read_seq_spec(tokens.deep_view(), pos as int) == Err::<
                    (Seq<ExprModel>, int),
                    ErrorModel,
                >(err@),
            }),
        decreases tokens.len() - pos, 1int,
    {
        let ghost deep = tokens.deep_view();
        if pos >= tokens.len() {
            return Err(RispError::UnmatchedParenthesis);
        }
        let mut res: Vec<Expr> = Vec::new();
        let mut cur: usize = pos;
        proof {
            let m = read_seq_spec(deep, pos as int);
            match m {
                Ok(p) => {
                    assert(expr_list_model(res@) + p.0 =~= p.0);
                }
                Err(_) => {}
            }
        }
        while cur < tokens.len()
            invariant
                deep == tokens.deep_view(),
                deep.len() == tokens@.len(),
                pos <= cur <= tokens.len(),
                read_splits(
                    read_seq_spec(deep, pos as int),
                    expr_list_model(res@),
                    read_seq_spec(deep, cur as int),
                ),
            decreases tokens.len() - cur,
        {
            proof {
                assert(deep[cur as int] == tokens@[cur as int]@);
            }
            if str_eq(tokens[cur].as_str(), ")") {
                proof {
                    assert(expr_list_model(res@) + Seq::<ExprModel>::empty() =~= expr_list_model(
                        res@,
                    ));
                }
                return Ok((Expr::List(res), cur + 1));
            }
            match Self::parse(tokens, cur) {
                Err(err) => {
                    return Err(err);
                }
                Ok((exp, next)) => {
                    proof {
                        lemma_expr_list_model_push(res@, exp);
                        let mnext = read_seq_spec(deep, next as int);
                        match mnext {
                            Ok(p) => {
                                assert(expr_list_model(res@) + (seq![expr_model(exp)] + p.0)
                                    =~= expr_list_model(res@.push(exp)) + p.0);
                            }
                            Err(_) => {}
                        }
                    }
                    res.push(exp);
                    cur = next;
                }
            }
        }
        Err(RispError::UnmatchedParenthesis)
    }

    /// Read a single non-parenthesis token as an atom, per `atom_spec`.
    fn parse_atom(token: &str) -> (e: Expr)
        ensures
            e@ == atom_spec(token@),
    {
        if str_eq(token, "true") {
            return Expr::Boolean(true);
        }
        if str_eq(token, "false") {
            return Expr::Boolean(false);
        }
        let n = token.unicode_len();
        if n == 0 {
            return Expr::Symbol(token.to_owned());
        }
        let cap: u64 = i64::MAX as u64;
        let mut acc: u64 = 0;
        let mut i: usize = 0;
        while i < n
            invariant
                n == token@.len(),
                i <= n,
                cap == i64::MAX as u64,
                token@ != "true"@,
                token@ != "false"@,
                forall|k: int| 0 <= k < i ==> is_digit(#[trigger] token@[k]),
                acc as nat == (if digits_value(token@.take(i as int)) > i64::MAX as nat {
                    i64::MAX as nat
                } else {
                    digits_value(token@.take(i as int))
                }),
            decreases n - i,
        {
            let c = token.get_char(i);
            match digit_of(c) {
                None => {
                    proof {
                        assert(!is_digit(token@[i as int]));
                    }
                    return Expr::Symbol(token.to_owned());
                }
                Some(d) => {
                    proof {
                        assert(token@.take(i + 1).drop_last() =~= token@.take(i as int));
                        assert(token@.take(i + 1).last() == token@[i as int]);
                    }
                    acc = match acc.checked_mul(10) {
                        Some(x) => match x.checked_add(d) {
                            Some(y) => if y > cap {
                                cap
                            } else {
                                y
                            },
                            None => cap,
                        },
                        None => cap,
                    };
                }
            }
            i += 1;
        }
        proof {
            assert(token@.take(n as int) =~= token@);
        }
        Expr::Number(acc as i64)
    }
}

} // verus!
