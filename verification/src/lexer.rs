//! The lexer: from characters to tokens.
//!
//! `lex_all` says, on mathematical values, which tokens a text holds; the
//! [`Lexer`] computes them. A lexer can be fed a text in pieces: the tokens
//! and the count of open parentheses carry over from one piece to the next.

use crate::float::{float_parse, parse_double};
use vstd::prelude::*;
use vstd::slice::slice_subrange;

verus! {

/// A token, as a mathematical value: the view of a [`Token`].
pub enum Tok {
    Integer(i64),
    /// A double-precision number, held as its IEEE-754 bit pattern.
    Float(u64),
    Ident(Seq<char>),
    String(Seq<char>),
    OpeningParen,
    ClosingParen,
    Quote,
    Unquote,
    Quasiquote,
}

/// A token.
#[derive(Debug)]
pub enum Token {
    Integer(i64),
    /// A double-precision number, held as its IEEE-754 bit pattern.
    Float(u64),
    Ident(String),
    String(String),
    OpeningParen,
    ClosingParen,
    Quote,
    Unquote,
    Quasiquote,
}

impl View for Token {
    type V = Tok;

    open spec fn view(&self) -> Tok {
        match self {
            Token::Integer(i) => Tok::Integer(*i),
            Token::Float(bits) => Tok::Float(*bits),
            Token::Ident(s) => Tok::Ident(s@),
            Token::String(s) => Tok::String(s@),
            Token::OpeningParen => Tok::OpeningParen,
            Token::ClosingParen => Tok::ClosingParen,
            Token::Quote => Tok::Quote,
            Token::Unquote => Tok::Unquote,
            Token::Quasiquote => Tok::Quasiquote,
        }
    }
}

impl Clone for Token {
    fn clone(&self) -> (r: Token)
        ensures
            r@ == self@,
    {
        match self {
            Token::Integer(i) => Token::Integer(*i),
            Token::Float(bits) => Token::Float(*bits),
            Token::Ident(s) => Token::Ident(s.clone()),
            Token::String(s) => Token::String(s.clone()),
            Token::OpeningParen => Token::OpeningParen,
            Token::ClosingParen => Token::ClosingParen,
            Token::Quote => Token::Quote,
            Token::Unquote => Token::Unquote,
            Token::Quasiquote => Token::Quasiquote,
        }
    }
}

/// The views of a sequence of tokens.
pub open spec fn token_views(tokens: Seq<Token>) -> Seq<Tok> {
    tokens.map_values(|t: Token| t@)
}

/// What can be wrong with a text.
#[derive(Clone, Copy, Debug, PartialEq, Eq, Structural)]
pub enum LexError {
    /// A closing parenthesis without an open one before it.
    UnbalancedParen,
    /// More open parentheses than can be counted.
    TooManyParens,
    /// A whole number that does not fit in 64 bits.
    BadInteger,
    /// A number with a dot that is no number.
    BadFloat,
    /// A number with a second dot.
    MultipleDots,
    /// A number followed directly by something that may not follow one.
    InvalidNumberChar,
    /// A string without its closing quote.
    UnterminatedString,
    /// A backslash at the very end of the text.
    UnfinishedEscape,
    /// A backslash before a character that it cannot escape.
    BadEscape,
}

/// Whether `c` is white space: a character with the Unicode property
/// `White_Space`.
pub open spec fn is_space(c: char) -> bool {
    let n = c as u32;
    (0x09 <= n <= 0x0d) || n == 0x20 || n == 0x85 || n == 0xa0 || n == 0x1680 || (0x2000 <= n
        <= 0x200a) || n == 0x2028 || n == 0x2029 || n == 0x202f || n == 0x205f || n == 0x3000
}

/// Whether `c` is one of the digits `0` to `9`.
pub open spec fn is_digit(c: char) -> bool {
    0x30 <= c as u32 <= 0x39
}

/// Whether `c` ends an identifier or a number without being part of the
/// next token's text: a parenthesis, or the start of a comment.
pub open spec fn is_delimiter(c: char) -> bool {
    c == '(' || c == ')' || c == ';'
}

/// The number that a sequence of digits denotes.
pub open spec fn digits_value(text: Seq<char>) -> nat
    decreases text.len(),
{
    if text.len() == 0 {
        0
    } else {
        digits_value(text.drop_last()) * 10 + (text.last() as u32 - 0x30) as nat
    }
}

/// Whether `text` holds digits only.
pub open spec fn all_digits(text: Seq<char>) -> bool {
    forall|i: int| 0 <= i < text.len() ==> is_digit(#[trigger] text[i])
}

/// Whether `text` holds digits and dots only.
pub open spec fn decimal_text(text: Seq<char>) -> bool {
    forall|i: int| 0 <= i < text.len() ==> is_digit(#[trigger] text[i]) || text[i] == '.'
}

/// The integer that `text` denotes: `text` is a non-empty sequence of digits
/// whose number fits in 64 bits, or there is none.
pub open spec fn integer_value(text: Seq<char>) -> Option<i64> {
    if text.len() > 0 && all_digits(text) && digits_value(text) <= i64::MAX {
        Some(digits_value(text) as i64)
    } else {
        None
    }
}

/// The state of a lexer, as a mathematical value.
pub struct LexState {
    /// The characters not yet read.
    pub rest: Seq<char>,
    /// The tokens read so far.
    pub tokens: Seq<Tok>,
    /// How many parentheses are open.
    pub n_par: u32,
    /// What was found wrong so far.
    pub errors: Seq<LexError>,
}

impl LexState {
    /// The state after `n` more characters are read.
    pub open spec fn skip(self, n: int) -> LexState {
        LexState { rest: self.rest.subrange(n, self.rest.len() as int), ..self }
    }

    /// The state with one more token.
    pub open spec fn push(self, token: Tok) -> LexState {
        LexState { tokens: self.tokens.push(token), ..self }
    }

    /// The state with one more error.
    pub open spec fn error(self, e: LexError) -> LexState {
        LexState { errors: self.errors.push(e), ..self }
    }

    /// The state in which the rest of the text is given up.
    pub open spec fn stop(self) -> LexState {
        LexState { rest: Seq::empty(), ..self }
    }
}

/// Reads the rest of an identifier, of which `text` is read already. An
/// identifier ends at white space, which is read with it, before a
/// delimiter, or with the text.
pub open spec fn lex_ident(st: LexState, text: Seq<char>) -> LexState
    decreases st.rest.len(),
{
    if st.rest.len() == 0 {
        st.push(Tok::Ident(text))
    } else if is_space(st.rest[0]) {
        st.skip(1).push(Tok::Ident(text))
    } else if is_delimiter(st.rest[0]) {
        st.push(Tok::Ident(text))
    } else {
        lex_ident(st.skip(1), text.push(st.rest[0]))
    }
}

/// Reads the rest of a comment: up to the end of the line, which is left
/// unread, or to the end of the text.
pub open spec fn lex_comment(st: LexState) -> LexState
    decreases st.rest.len(),
{
    if st.rest.len() == 0 || st.rest[0] == '\n' {
        st
    } else {
        lex_comment(st.skip(1))
    }
}

/// Reads the rest of a string, of which `text` is read already. A backslash
/// escapes a backslash or a quote, and `\n` is a line feed.
pub open spec fn lex_string(st: LexState, text: Seq<char>) -> LexState
    decreases st.rest.len(),
{
    if st.rest.len() == 0 {
        st.error(LexError::UnterminatedString)
    } else if st.rest[0] == '"' {
        st.skip(1).push(Tok::String(text))
    } else if st.rest[0] == '\\' {
        if st.rest.len() == 1 {
            st.error(LexError::UnfinishedEscape)
        } else if st.rest[1] == '\\' {
            lex_string(st.skip(2), text.push('\\'))
        } else if st.rest[1] == '"' {
            lex_string(st.skip(2), text.push('"'))
        } else if st.rest[1] == 'n' {
            lex_string(st.skip(2), text.push('\n'))
        } else {
            st.error(LexError::BadEscape).stop()
        }
    } else {
        lex_string(st.skip(1), text.push(st.rest[0]))
    }
}

/// Ends a number whose text is `text`: a whole number if it has no dot, a
/// double if it has one.
pub open spec fn finish_number(st: LexState, text: Seq<char>, dotted: bool) -> LexState {
    match number_token(dotted, integer_value(text), float_parse(text)) {
        Ok(token) => st.push(token),
        Err(e) => st.error(e).stop(),
    }
}

/// The token of a number, given what its text denotes as a whole number and
/// as a double: the integer if the text has no dot, the double if it has
/// one, and a fault where the text denotes none.
pub open spec fn number_token(dotted: bool, whole: Option<i64>, double: Option<u64>) -> Result<
    Tok,
    LexError,
> {
    if !dotted {
        match whole {
            Some(v) => Ok(Tok::Integer(v)),
            None => Err(LexError::BadInteger),
        }
    } else {
        match double {
            Some(bits) => Ok(Tok::Float(bits)),
            None => Err(LexError::BadFloat),
        }
    }
}

/// Reads the rest of a number, of which `text` is read already. A number
/// ends at white space, which is read with it, before a delimiter, or with
/// the text; it holds digits and at most one dot.
pub open spec fn lex_number(st: LexState, text: Seq<char>, dotted: bool) -> LexState
    decreases st.rest.len(),
{
    if st.rest.len() == 0 {
        finish_number(st, text, dotted)
    } else if is_space(st.rest[0]) {
        finish_number(st.skip(1), text, dotted)
    } else if is_digit(st.rest[0]) {
        lex_number(st.skip(1), text.push(st.rest[0]), dotted)
    } else if st.rest[0] == '.' {
        if dotted {
            st.error(LexError::MultipleDots).stop()
        } else {
            lex_number(st.skip(1), text.push('.'), true)
        }
    } else if is_delimiter(st.rest[0]) {
        finish_number(st, text, dotted)
    } else {
        st.error(LexError::InvalidNumberChar).stop()
    }
}

/// Reads one token, and the white space before it.
pub open spec fn lex_token(st: LexState) -> LexState
    decreases st.rest.len(),
{
    if st.rest.len() == 0 {
        st
    } else {
        let c = st.rest[0];
        if is_space(c) {
            lex_token(st.skip(1))
        } else if c == '(' {
            if st.n_par < u32::MAX {
                LexState { n_par: (st.n_par + 1) as u32, ..st.skip(1).push(Tok::OpeningParen) }
            } else {
                st.error(LexError::TooManyParens).stop()
            }
        } else if c == ')' {
            if st.n_par > 0 {
                LexState { n_par: (st.n_par - 1) as u32, ..st.skip(1).push(Tok::ClosingParen) }
            } else {
                st.error(LexError::UnbalancedParen).stop()
            }
        } else if c == '\\' || c == '\'' {
            st.skip(1).push(Tok::Quote)
        } else if c == '`' {
            st.skip(1).push(Tok::Quasiquote)
        } else if c == ',' {
            st.skip(1).push(Tok::Unquote)
        } else if c == '"' {
            lex_string(st.skip(1), Seq::empty())
        } else if is_digit(c) {
            lex_number(st, Seq::empty(), false)
        } else if c == '.' {
            lex_number(st.skip(1), seq!['.'], true)
        } else if c == ';' {
            lex_comment(st.skip(1))
        } else {
            lex_ident(st, Seq::empty())
        }
    }
}

/// Reads tokens until the text is read. Each token makes the unread text
/// shorter (`lemma_token_consumes`); the comparison of the two lengths is
/// there for the definition to be well founded, and never fails.
pub open spec fn lex_all(st: LexState) -> LexState
    decreases st.rest.len(),
{
    if st.rest.len() == 0 {
        st
    } else {
        let next = lex_token(st);
        if next.rest.len() < st.rest.len() {
            lex_all(next)
        } else {
            next
        }
    }
}

/// Reading a comment, a string, an identifier or a number never makes the
/// unread text longer.
pub proof fn lemma_parts_consume(st: LexState, text: Seq<char>, dotted: bool)
    ensures
        lex_comment(st).rest.len() <= st.rest.len(),
        lex_string(st, text).rest.len() <= st.rest.len(),
        lex_ident(st, text).rest.len() <= st.rest.len(),
        lex_number(st, text, dotted).rest.len() <= st.rest.len(),
        st.rest.len() > 0 && !is_delimiter(st.rest[0]) ==> lex_ident(st, text).rest.len()
            < st.rest.len(),
        st.rest.len() > 0 && is_digit(st.rest[0]) ==> lex_number(st, text, dotted).rest.len()
            < st.rest.len(),
    decreases st.rest.len(),
{
    if st.rest.len() > 0 {
        let c = st.rest[0];
        lemma_parts_consume(st.skip(1), text, dotted);
        lemma_parts_consume(st.skip(1), text.push(c), dotted);
        lemma_parts_consume(st.skip(1), text.push('.'), true);
        if st.rest.len() > 1 {
            lemma_parts_consume(st.skip(2), text.push('\\'), dotted);
            lemma_parts_consume(st.skip(2), text.push('"'), dotted);
            lemma_parts_consume(st.skip(2), text.push('\n'), dotted);
        }
    }
}

/// Reading a token makes the unread text shorter, unless there is none.
pub proof fn lemma_token_consumes(st: LexState)
    ensures
        lex_token(st).rest.len() <= st.rest.len(),
        st.rest.len() > 0 ==> lex_token(st).rest.len() < st.rest.len(),
    decreases st.rest.len(),
{
    let c = st.rest[0];
    if st.rest.len() == 0 {
    } else if is_space(c) {
        lemma_token_consumes(st.skip(1));
    } else {
        assert(st.skip(1).rest.len() < st.rest.len());
        assert(st.stop().rest.len() < st.rest.len());
        if c == '"' {
            lemma_parts_consume(st.skip(1), Seq::empty(), false);
        } else if is_digit(c) {
            lemma_parts_consume(st, Seq::empty(), false);
        } else if c == '.' {
            lemma_parts_consume(st.skip(1), seq!['.'], true);
        } else if c == ';' {
            lemma_parts_consume(st.skip(1), Seq::empty(), false);
        } else if !is_delimiter(c) {
            lemma_parts_consume(st, Seq::empty(), false);
        }
    }
}

/// The number of a prefix of a sequence of digits is at most the number of
/// the whole.
pub proof fn lemma_digits_monotone(text: Seq<char>, n: int)
    requires
        0 <= n <= text.len(),
        all_digits(text),
    ensures
        digits_value(text.take(n)) <= digits_value(text),
    decreases text.len(),
{
    if n == text.len() {
        assert(text.take(n) =~= text);
    } else {
        assert(text.drop_last().take(n) =~= text.take(n));
        lemma_digits_monotone(text.drop_last(), n);
    }
}

/// Whether `c` is white space.
pub fn is_whitespace(c: char) -> (r: bool)
    ensures
        r == is_space(c),
{
    let n: u32 = c as u32;
    (0x09 <= n && n <= 0x0d) || n == 0x20 || n == 0x85 || n == 0xa0 || n == 0x1680 || (0x2000 <= n
        && n <= 0x200a) || n == 0x2028 || n == 0x2029 || n == 0x202f || n == 0x205f || n == 0x3000
}

/// Whether `c` is one of the digits `0` to `9`.
pub fn is_decimal_digit(c: char) -> (r: bool)
    ensures
        r == is_digit(c),
{
    let n: u32 = c as u32;
    0x30 <= n && n <= 0x39
}

/// The integer that `text` denotes, if it denotes one.
pub fn parse_integer(text: &Vec<char>) -> (r: Option<i64>)
    ensures
        r == integer_value(text@),
{
    if text.len() == 0 {
        return None;
    }
    let mut value: i64 = 0;
    let mut i: usize = 0;
    assert(text@.take(0) =~= Seq::<char>::empty());
    while i < text.len()
        invariant
            i <= text@.len(),
            all_digits(text@.take(i as int)),
            0 <= value,
            value == digits_value(text@.take(i as int)),
        decreases text@.len() - i,
    {
        let c = text[i];
        let ghost prefix = text@.take(i + 1);
        assert(prefix.drop_last() =~= text@.take(i as int));
        assert(prefix.last() == c);
        if !is_decimal_digit(c) {
            assert(!is_digit(text@[i as int]));
            return None;
        }
        assert(all_digits(prefix)) by {
            assert forall|j: int| 0 <= j < prefix.len() implies is_digit(#[trigger] prefix[j]) by {
                if j < i {
                    assert(prefix[j] == text@.take(i as int)[j]);
                }
            }
        }
        let d: i64 = (c as u32 - 0x30) as i64;
        let next = match value.checked_mul(10) {
            Some(v) => v.checked_add(d),
            None => None,
        };
        match next {
            Some(v) => {
                value = v;
            },
            None => {
                proof {
                    assert(digits_value(prefix) > i64::MAX);
                    if all_digits(text@) {
                        lemma_digits_monotone(text@, i + 1);
                    }
                }
                return None;
            },
        }
        i = i + 1;
    }
    assert(text@.take(i as int) =~= text@);
    Some(value)
}

/// A lexer over a piece of text.
#[derive(Debug)]
pub struct Lexer<'a> {
    /// The characters not yet read.
    pub xs: &'a [char],
    /// The tokens read so far.
    pub tokens: Vec<Token>,
    /// How many parentheses are open.
    pub n_par: u32,
    /// What was found wrong so far.
    pub errors: Vec<LexError>,
}

impl<'a> View for Lexer<'a> {
    type V = LexState;

    open spec fn view(&self) -> LexState {
        LexState {
            rest: self.xs@,
            tokens: token_views(self.tokens@),
            n_par: self.n_par,
            errors: self.errors@,
        }
    }
}

impl<'a> Lexer<'a> {
    /// A lexer that will read `v` and add what it finds to the tokens `t`. No
    /// parenthesis is open and nothing is wrong yet.
    pub fn new(v: &'a Vec<char>, t: Vec<Token>) -> (r: Lexer<'a>)
        ensures
            r@ == (LexState {
                rest: v@,
                tokens: token_views(t@),
                n_par: 0,
                errors: Seq::empty(),
            }),
    {
        Lexer { xs: v.as_slice(), tokens: t, n_par: 0, errors: Vec::new() }
    }

    /// Sets how many parentheses are open, as an earlier piece of the text
    /// left them.
    pub fn with_n_par(&mut self, n_par: u32)
        ensures
            final(self)@ == (LexState { n_par, ..old(self)@ }),
    {
        self.n_par = n_par;
    }

    /// Reads all the text. Returns the number of parentheses left open (0 if
    /// they are balanced).
    pub fn tokenize(&mut self) -> (r: u32)
        ensures
            final(self)@ == lex_all(old(self)@),
            r == final(self)@.n_par,
    {
        while self.xs.len() > 0
            invariant
                lex_all(self@) == lex_all(old(self)@),
            decreases self.xs@.len(),
        {
            proof {
                lemma_token_consumes(self@);
            }
            self.read_single_token();
        }
        self.n_par
    }

    /// Reads one token, and the white space before it.
    pub fn read_single_token(&mut self)
        ensures
            final(self)@ == lex_token(old(self)@),
    {
        while self.xs.len() > 0 && is_whitespace(self.xs[0])
            invariant
                lex_token(self@) == lex_token(old(self)@),
            decreases self.xs@.len(),
        {
            self.advance(1);
        }
        if self.xs.len() == 0 {
            return ;
        }
        let c = self.xs[0];
        if c == '(' {
            if self.n_par < u32::MAX {
                self.advance(1);
                self.push_token(Token::OpeningParen);
                self.n_par = self.n_par + 1;
            } else {
                self.fail(LexError::TooManyParens);
                self.stop();
            }
        } else if c == ')' {
            if self.n_par > 0 {
                self.advance(1);
                self.push_token(Token::ClosingParen);
                self.n_par = self.n_par - 1;
            } else {
                self.fail(LexError::UnbalancedParen);
                self.stop();
            }
        } else if c == '\\' || c == '\'' {
            self.advance(1);
            self.push_token(Token::Quote);
        } else if c == '`' {
            self.advance(1);
            self.push_token(Token::Quasiquote);
        } else if c == ',' {
            self.advance(1);
            self.push_token(Token::Unquote);
        } else if c == '"' {
            self.advance(1);
            self.read_string();
        } else if is_decimal_digit(c) {
            let text: Vec<char> = Vec::new();
            self.read_number(text, false);
        } else if c == '.' {
            self.advance(1);
            let mut text: Vec<char> = Vec::new();
            text.push('.');
            assert(text@ =~= seq!['.']);
            self.read_number(text, true);
        } else if c == ';' {
            self.advance(1);
            self.read_comment();
        } else {
            self.read_ident();
        }
    }

    /// Ends a number whose text is `text`.
    fn finish_number(&mut self, text: &Vec<char>, dotted: bool)
        requires
            decimal_text(text@),
        ensures
            final(self)@ == finish_number(old(self)@, text@, dotted),
    {
        if !dotted {
            self.accept_number(dotted, parse_integer(text), None);
        } else {
            self.accept_number(dotted, None, parse_double(text));
        }
    }

    /// Ends a number, given what its text was read as: as a whole number if
    /// it has no dot, as a double if it has one. Adds the token, or records
    /// that the text was no number and gives up the rest of the text.
    pub fn accept_number(&mut self, dotted: bool, whole: Option<i64>, double: Option<u64>)
        ensures
            final(self)@ == match number_token(dotted, whole, double) {
                Ok(token) => old(self)@.push(token),
                Err(e) => old(self)@.error(e).stop(),
            },
    {
        if !dotted {
            match whole {
                Some(x) => self.push_token(Token::Integer(x)),
                None => {
                    self.fail(LexError::BadInteger);
                    self.stop();
                },
            }
        } else {
            match double {
                Some(bits) => self.push_token(Token::Float(bits)),
                None => {
                    self.fail(LexError::BadFloat);
                    self.stop();
                },
            }
        }
    }

    /// Reads the rest of a number, of which `text` is read already.
    fn read_number(&mut self, text: Vec<char>, dotted: bool)
        requires
            decimal_text(text@),
        ensures
            final(self)@ == lex_number(old(self)@, text@, dotted),
    {
        let mut text = text;
        let mut dotted = dotted;
        let ghost goal = lex_number(self@, text@, dotted);
        loop
            invariant_except_break
                decimal_text(text@),
                lex_number(self@, text@, dotted) == goal,
            ensures
                self@ == goal,
            decreases self.xs@.len(),
        {
            if self.xs.len() == 0 {
                self.finish_number(&text, dotted);
                break ;
            }
            let c = self.xs[0];
            if is_whitespace(c) {
                self.advance(1);
                self.finish_number(&text, dotted);
                break ;
            } else if is_decimal_digit(c) {
                text.push(c);
                self.advance(1);
            } else if c == '.' {
                if dotted {
                    self.fail(LexError::MultipleDots);
                    self.stop();
                    break ;
                } else {
                    text.push('.');
                    dotted = true;
                    self.advance(1);
                }
            } else if c == '(' || c == ')' || c == ';' {
                self.finish_number(&text, dotted);
                break ;
            } else {
                self.fail(LexError::InvalidNumberChar);
                self.stop();
                break ;
            }
        }
    }

    /// Reads the rest of a string, whose opening quote is read already.
    fn read_string(&mut self)
        ensures
            final(self)@ == lex_string(old(self)@, Seq::empty()),
    {
        let mut text = String::new();
        let ghost goal = lex_string(self@, Seq::empty());
        loop
            invariant_except_break
                lex_string(self@, text@) == goal,
            ensures
                self@ == goal,
            decreases self.xs@.len(),
        {
            if self.xs.len() == 0 {
                self.fail(LexError::UnterminatedString);
                break ;
            }
            let c = self.xs[0];
            if c == '"' {
                self.advance(1);
                self.push_token(Token::String(text));
                break ;
            } else if c == '\\' {
                if self.xs.len() == 1 {
                    self.fail(LexError::UnfinishedEscape);
                    break ;
                }
                let c2 = self.xs[1];
                if c2 == '\\' {
                    text.push('\\');
                    self.advance(2);
                } else if c2 == '"' {
                    text.push('"');
                    self.advance(2);
                } else if c2 == 'n' {
                    text.push('\n');
                    self.advance(2);
                } else {
                    self.fail(LexError::BadEscape);
                    self.stop();
                    break ;
                }
            } else {
                text.push(c);
                self.advance(1);
            }
        }
    }

    /// Reads the rest of a comment.
    fn read_comment(&mut self)
        ensures
            final(self)@ == lex_comment(old(self)@),
    {
        while self.xs.len() > 0 && self.xs[0] != '\n'
            invariant
                lex_comment(self@) == lex_comment(old(self)@),
            decreases self.xs@.len(),
        {
            self.advance(1);
        }
    }

    /// Reads an identifier.
    fn read_ident(&mut self)
        ensures
            final(self)@ == lex_ident(old(self)@, Seq::empty()),
    {
        let mut text = String::new();
        let ghost goal = lex_ident(self@, Seq::empty());
        loop
            invariant_except_break
                lex_ident(self@, text@) == goal,
            ensures
                self@ == goal,
            decreases self.xs@.len(),
        {
            if self.xs.len() == 0 {
                self.push_token(Token::Ident(text));
                break ;
            }
            let c = self.xs[0];
            if is_whitespace(c) {
                self.advance(1);
                self.push_token(Token::Ident(text));
                break ;
            } else if c == '(' || c == ')' || c == ';' {
                self.push_token(Token::Ident(text));
                break ;
            } else {
                text.push(c);
                self.advance(1);
            }
        }
    }

    /// Reads `n` characters.
    fn advance(&mut self, n: usize)
        requires
            n <= old(self).xs@.len(),
        ensures
            final(self)@ == old(self)@.skip(n as int),
    {
        self.xs = slice_subrange(self.xs, n, self.xs.len());
    }

    /// Gives up the rest of the text.
    fn stop(&mut self)
        ensures
            final(self)@ == old(self)@.stop(),
    {
        self.xs = slice_subrange(self.xs, 0, 0);
        assert(self.xs@ =~= Seq::<char>::empty());
    }

    /// Adds a token.
    fn push_token(&mut self, token: Token)
        ensures
            final(self)@ == old(self)@.push(token@),
    {
        self.tokens.push(token);
        assert(token_views(self.tokens@) =~= token_views(old(self).tokens@).push(token@));
    }

    /// Records an error.
    fn fail(&mut self, e: LexError)
        ensures
            final(self)@ == old(self)@.error(e),
    {
        self.errors.push(e);
    }
}

} // verus!
