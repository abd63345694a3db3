//! Names: comparison of text, and the identifiers that the evaluator
//! reserves for its special forms and primitives.

use vstd::prelude::*;

verus! {

/// Compares two string slices with `==` of `str`, which holds exactly when
/// the two hold the same characters in the same order.
#[verifier::external_body]
pub(crate) fn same_text(a: &str, b: &str) -> (r: bool)
    ensures
        r == (a@ == b@),
{
    a == b
}

/// `String::push` appends the given character to the end of the string.
pub assume_specification[ std::string::String::push ](s: &mut std::string::String, ch: char)
    ensures
        final(s)@ == old(s)@.push(ch),
;

/// The special forms and primitives.
#[derive(Clone, Copy, Debug, PartialEq, Eq, Structural)]
pub enum Keyword {
    If,
    Def,
    Lambda,
    Defmacro,
    Eval,
    PrintDebug,
    Plus,
    Minus,
    Times,
    Divide,
    Equal,
    Car,
    Cdr,
    Cons,
}

/// The keyword that a name spells, if it spells one.
pub open spec fn keyword_of(name: Seq<char>) -> Option<Keyword> {
    if name == "if"@ {
        Some(Keyword::If)
    } else if name == "def"@ {
        Some(Keyword::Def)
    } else if name == "lambda"@ {
        Some(Keyword::Lambda)
    } else if name == "defmacro"@ {
        Some(Keyword::Defmacro)
    } else if name == "eval"@ {
        Some(Keyword::Eval)
    } else if name == "print-debug"@ {
        Some(Keyword::PrintDebug)
    } else if name == "+"@ {
        Some(Keyword::Plus)
    } else if name == "-"@ {
        Some(Keyword::Minus)
    } else if name == "*"@ {
        Some(Keyword::Times)
    } else if name == "/"@ {
        Some(Keyword::Divide)
    } else if name == "="@ {
        Some(Keyword::Equal)
    } else if name == "car"@ {
        Some(Keyword::Car)
    } else if name == "cdr"@ {
        Some(Keyword::Cdr)
    } else if name == "cons"@ {
        Some(Keyword::Cons)
    } else {
        None
    }
}

/// A name is reserved when it spells a keyword: no binding may use it.
pub open spec fn is_reserved(name: Seq<char>) -> bool {
    keyword_of(name).is_some()
}

/// The keyword that `name` spells, if it spells one.
pub fn keyword(name: &str) -> (r: Option<Keyword>)
    ensures
        r == keyword_of(name@),
{
    if same_text(name, "if") {
        Some(Keyword::If)
    } else if same_text(name, "def") {
        Some(Keyword::Def)
    } else if same_text(name, "lambda") {
        Some(Keyword::Lambda)
    } else if same_text(name, "defmacro") {
        Some(Keyword::Defmacro)
    } else if same_text(name, "eval") {
        Some(Keyword::Eval)
    } else if same_text(name, "print-debug") {
        Some(Keyword::PrintDebug)
    } else if same_text(name, "+") {
        Some(Keyword::Plus)
    } else if same_text(name, "-") {
        Some(Keyword::Minus)
    } else if same_text(name, "*") {
        Some(Keyword::Times)
    } else if same_text(name, "/") {
        Some(Keyword::Divide)
    } else if same_text(name, "=") {
        Some(Keyword::Equal)
    } else if same_text(name, "car") {
        Some(Keyword::Car)
    } else if same_text(name, "cdr") {
        Some(Keyword::Cdr)
    } else if same_text(name, "cons") {
        Some(Keyword::Cons)
    } else {
        None
    }
}

/// Whether `s` is reserved for a special form or a primitive.
pub fn is_reserved_ident(s: &str) -> (r: bool)
    ensures
        r == is_reserved(s@),
{
    keyword(s).is_some()
}

} // verus!
