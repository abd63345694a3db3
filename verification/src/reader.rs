//! The reader: from tokens to expression trees.
//!
//! A form is a number, a string, an identifier, a parenthesised list of
//! forms, or a quote, quasiquote or unquote mark followed by the form that it
//! applies to. A list is a chain of pairs that ends in the empty list, and
//! `()` is the empty list itself.

use crate::expr::{expr_views, Expr, Sexp};
use crate::lexer::{lex_all, token_views, LexError, LexState, Lexer, Tok, Token};
use std::rc::Rc;
use vstd::prelude::*;

verus! {

/// What can be wrong with a sequence of tokens.
#[derive(Clone, Copy, Debug, PartialEq, Eq, Structural)]
pub enum ReadError {
    /// The tokens end inside a list, or right after a quote, quasiquote or
    /// unquote mark.
    UnexpectedEnd,
    /// A closing parenthesis where a form should begin.
    UnexpectedClose,
}

/// What can be wrong with a text.
#[derive(Clone, Copy, Debug, PartialEq, Eq, Structural)]
pub enum ParseError {
    /// The text does not split into tokens; the first fault is given.
    Lex(LexError),
    /// The tokens do not make up forms.
    Read(ReadError),
}

/// The form that begins at token `at`, and the place of the token after it.
pub open spec fn read_form(tokens: Seq<Tok>, at: int) -> Result<(Sexp, int), ReadError>
    decreases tokens.len() - at, 0nat,
{
    if at < 0 || at >= tokens.len() {
        Err(ReadError::UnexpectedEnd)
    } else {
        match tokens[at] {
            Tok::Integer(i) => Ok((Sexp::Integer(i), at + 1)),
            Tok::Float(bits) => Ok((Sexp::Float(bits), at + 1)),
            Tok::String(s) => Ok((Sexp::String(s), at + 1)),
            Tok::Ident(s) => Ok((Sexp::Ident(s), at + 1)),
            Tok::OpeningParen => read_list(tokens, at + 1),
            Tok::ClosingParen => Err(ReadError::UnexpectedClose),
            Tok::Quote => match read_form(tokens, at + 1) {
                Ok((e, next)) => Ok((Sexp::Quote(Box::new(e)), next)),
                Err(e) => Err(e),
            },
            Tok::Quasiquote => match read_form(tokens, at + 1) {
                Ok((e, next)) => Ok((Sexp::Quasiquote(Box::new(e)), next)),
                Err(e) => Err(e),
            },
            Tok::Unquote => match read_form(tokens, at + 1) {
                Ok((e, next)) => Ok((Sexp::Unquote(Box::new(e)), next)),
                Err(e) => Err(e),
            },
        }
    }
}

/// The list whose elements begin at token `at`, up to the closing
/// parenthesis that ends it, and the place of the token after that. An
/// element ends after the token that it begins at (`lemma_read_advances`);
/// the test of where it ends is there for the definition to be well founded,
/// and never fails.
pub open spec fn read_list(tokens: Seq<Tok>, at: int) -> Result<(Sexp, int), ReadError>
    decreases tokens.len() - at, 1nat,
{
    if at < 0 || at >= tokens.len() {
        Err(ReadError::UnexpectedEnd)
    } else if tokens[at] is ClosingParen {
        Ok((Sexp::Nil, at + 1))
    } else {
        match read_form(tokens, at) {
            Ok((first, next)) => if at < next <= tokens.len() {
                match read_list(tokens, next) {
                    Ok((rest, after)) => Ok((Sexp::Cons(Box::new(first), Box::new(rest)), after)),
                    Err(e) => Err(e),
                }
            } else {
                Err(ReadError::UnexpectedEnd)
            },
            Err(e) => Err(e),
        }
    }
}

/// The forms that the tokens from `at` on make up. As in `read_list`, the
/// test of where a form ends never fails.
pub open spec fn read_forms(tokens: Seq<Tok>, at: int) -> Result<Seq<Sexp>, ReadError>
    decreases tokens.len() - at,
{
    if at < 0 || at >= tokens.len() {
        Ok(Seq::empty())
    } else {
        match read_form(tokens, at) {
            Ok((first, next)) => if at < next <= tokens.len() {
                match read_forms(tokens, next) {
                    Ok(rest) => Ok(seq![first] + rest),
                    Err(e) => Err(e),
                }
            } else {
                Err(ReadError::UnexpectedEnd)
            },
            Err(e) => Err(e),
        }
    }
}

/// A form, and a list, ends after the token that it begins at, and within
/// the tokens.
pub proof fn lemma_read_advances(tokens: Seq<Tok>, at: int)
    ensures
        read_form(tokens, at) matches Ok((_, next)) ==> at < next <= tokens.len(),
        read_list(tokens, at) matches Ok((_, next)) ==> at < next <= tokens.len(),
    decreases tokens.len() - at, 2nat,
{
    if 0 <= at < tokens.len() {
        lemma_read_advances(tokens, at + 1);
        match read_form(tokens, at) {
            Ok((_, next)) => {
                if at < next <= tokens.len() {
                    lemma_read_advances(tokens, next);
                }
            },
            Err(_) => {},
        }
    }
}

/// The forms that a text holds: its tokens, read as forms. A text that does
/// not split into tokens holds none.
pub open spec fn parse_text(text: Seq<char>) -> Result<Seq<Sexp>, ParseError> {
    let st = lex_all(
        LexState { rest: text, tokens: Seq::empty(), n_par: 0, errors: Seq::empty() },
    );
    if st.errors.len() > 0 {
        Err(ParseError::Lex(st.errors[0]))
    } else {
        match read_forms(st.tokens, 0) {
            Ok(forms) => Ok(forms),
            Err(e) => Err(ParseError::Read(e)),
        }
    }
}

/// Reads the form that begins at token `at`.
pub fn read_one(tokens: &Vec<Token>, at: usize) -> (r: Result<(Rc<Expr>, usize), ReadError>)
    ensures
        match r {
            Ok((e, next)) => read_form(token_views(tokens@), at as int) == Ok::<
                (Sexp, int),
                ReadError,
            >((e@, next as int)),
            Err(err) => read_form(token_views(tokens@), at as int) == Err::<
                (Sexp, int),
                ReadError,
            >(err),
        },
    decreases tokens@.len() - at, 0nat,
{
    if at >= tokens.len() {
        return Err(ReadError::UnexpectedEnd);
    }
    proof {
        lemma_read_advances(token_views(tokens@), at + 1);
    }
    match &tokens[at] {
        Token::Integer(i) => Ok((Rc::new(Expr::Integer(*i)), at + 1)),
        Token::Float(bits) => Ok((Rc::new(Expr::Float(*bits)), at + 1)),
        Token::String(s) => Ok((Rc::new(Expr::String(s.clone())), at + 1)),
        Token::Ident(s) => Ok((Rc::new(Expr::Ident(s.clone())), at + 1)),
        Token::OpeningParen => read_rest(tokens, at + 1),
        Token::ClosingParen => Err(ReadError::UnexpectedClose),
        Token::Quote => match read_one(tokens, at + 1) {
            Ok((e, next)) => Ok((Rc::new(Expr::Quote(e)), next)),
            Err(e) => Err(e),
        },
        Token::Quasiquote => match read_one(tokens, at + 1) {
            Ok((e, next)) => Ok((Rc::new(Expr::Quasiquote(e)), next)),
            Err(e) => Err(e),
        },
        Token::Unquote => match read_one(tokens, at + 1) {
            Ok((e, next)) => Ok((Rc::new(Expr::Unquote(e)), next)),
            Err(e) => Err(e),
        },
    }
}

/// Reads the list whose elements begin at token `at`.
pub fn read_rest(tokens: &Vec<Token>, at: usize) -> (r: Result<(Rc<Expr>, usize), ReadError>)
    ensures
        match r {
            Ok((e, next)) => read_list(token_views(tokens@), at as int) == Ok::<
                (Sexp, int),
                ReadError,
            >((e@, next as int)),
            Err(err) => read_list(token_views(tokens@), at as int) == Err::<
                (Sexp, int),
                ReadError,
            >(err),
        },
    decreases tokens@.len() - at, 1nat,
{
    let ghost toks = token_views(tokens@);
    let mut items: Vec<Rc<Expr>> = Vec::new();
    let mut pos: usize = at;
    assert(expr_views(items@) =~= Seq::<Sexp>::empty());
    loop
        invariant_except_break
            at <= pos,
            toks == token_views(tokens@),
            read_list(toks, at as int) == listed(expr_views(items@), read_list(toks, pos as int)),
        ensures
            pos < tokens.len(),
            read_list(toks, at as int) == Ok::<(Sexp, int), ReadError>(
                (prepend(expr_views(items@), Sexp::Nil), pos + 1),
            ),
        decreases tokens@.len() - pos,
    {
        if pos >= tokens.len() {
            return Err(ReadError::UnexpectedEnd);
        }
        match &tokens[pos] {
            Token::ClosingParen => {
                break ;
            },
            _ => {},
        }
        proof {
            lemma_read_advances(toks, pos as int);
        }
        match read_one(tokens, pos) {
            Ok((item, next)) => {
                let ghost before = expr_views(items@);
                items.push(item);
                proof {
                    assert(expr_views(items@) =~= before.push(item@));
                    assert(before.push(item@).drop_last() =~= before);
                }
                pos = next;
            },
            Err(e) => {
                return Err(e);
            },
        }
    }
    let after = pos + 1;
    let n = items.len();
    let ghost all = expr_views(items@);
    let mut list: Rc<Expr> = Rc::new(Expr::Nil);
    let mut i: usize = n;
    assert(all.take(n as int) =~= all);
    while i > 0
        invariant
            i <= n,
            n == items@.len(),
            all == expr_views(items@),
            prepend(all.take(i as int), list@) == prepend(all, Sexp::Nil),
        decreases i,
    {
        i = i - 1;
        assert(all.take(i + 1).drop_last() =~= all.take(i as int));
        list = Rc::new(Expr::Cons(items[i].clone(), list));
    }
    assert(all.take(0) =~= Seq::<Sexp>::empty());
    Ok((list, after))
}

/// The list of `items`, in order, before `tail`.
pub open spec fn prepend(items: Seq<Sexp>, tail: Sexp) -> Sexp
    decreases items.len(),
{
    if items.len() == 0 {
        tail
    } else {
        prepend(items.drop_last(), Sexp::Cons(Box::new(items.last()), Box::new(tail)))
    }
}

/// The result of reading a list whose first elements are `items` and whose
/// rest reads as `rest`.
pub open spec fn listed(items: Seq<Sexp>, rest: Result<(Sexp, int), ReadError>) -> Result<
    (Sexp, int),
    ReadError,
> {
    match rest {
        Ok((tail, after)) => Ok((prepend(items, tail), after)),
        Err(e) => Err(e),
    }
}

/// The result of reading the forms from `at` on, after the forms `done`.
pub open spec fn read_after(done: Seq<Sexp>, tokens: Seq<Tok>, at: int) -> Result<
    Seq<Sexp>,
    ReadError,
> {
    match read_forms(tokens, at) {
        Ok(rest) => Ok(done + rest),
        Err(e) => Err(e),
    }
}

/// Reads the forms that `tokens` make up.
pub fn read(tokens: &Vec<Token>) -> (r: Result<Vec<Rc<Expr>>, ReadError>)
    ensures
        match r {
            Ok(forms) => read_forms(token_views(tokens@), 0) == Ok::<Seq<Sexp>, ReadError>(
                expr_views(forms@),
            ),
            Err(e) => read_forms(token_views(tokens@), 0) == Err::<Seq<Sexp>, ReadError>(e),
        },
{
    let ghost toks = token_views(tokens@);
    let mut forms: Vec<Rc<Expr>> = Vec::new();
    let mut at: usize = 0;
    assert(expr_views(forms@) =~= Seq::<Sexp>::empty());
    assert(read_after(expr_views(forms@), toks, 0) == read_forms(toks, 0)) by {
        match read_forms(toks, 0) {
            Ok(rest) => {
                assert(Seq::<Sexp>::empty() + rest =~= rest);
            },
            Err(_) => {},
        }
    }
    while at < tokens.len()
        invariant
            at <= tokens@.len(),
            toks == token_views(tokens@),
            read_after(expr_views(forms@), toks, at as int) == read_forms(toks, 0),
        decreases tokens@.len() - at,
    {
        proof {
            lemma_read_advances(toks, at as int);
        }
        match read_one(tokens, at) {
            Ok((e, next)) => {
                let ghost before = expr_views(forms@);
                forms.push(e);
                proof {
                    assert(expr_views(forms@) =~= before.push(e@));
                    match read_forms(toks, next as int) {
                        Ok(rest) => {
                            assert(before + (seq![e@] + rest) =~= before.push(e@) + rest);
                        },
                        Err(_) => {},
                    }
                }
                at = next;
            },
            Err(e) => {
                return Err(e);
            },
        }
    }
    proof {
        assert(expr_views(forms@) + Seq::<Sexp>::empty() =~= expr_views(forms@));
    }
    Ok(forms)
}

/// Reads the forms that `text` holds.
pub fn parse(text: &Vec<char>) -> (r: Result<Vec<Rc<Expr>>, ParseError>)
    ensures
        match r {
            Ok(forms) => parse_text(text@) == Ok::<Seq<Sexp>, ParseError>(expr_views(forms@)),
            Err(e) => parse_text(text@) == Err::<Seq<Sexp>, ParseError>(e),
        },
{
    let mut lexer = Lexer::new(text, Vec::new());
    assert(token_views(Seq::<Token>::empty()) =~= Seq::<Tok>::empty());
    lexer.tokenize();
    if lexer.errors.len() > 0 {
        return Err(ParseError::Lex(lexer.errors[0]));
    }
    match read(&lexer.tokens) {
        Ok(forms) => Ok(forms),
        Err(e) => Err(ParseError::Read(e)),
    }
}

} // verus!
