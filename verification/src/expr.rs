//! Expression trees and environments, together with their mathematical models.
//!
//! Executable values ([`Expr`], [`Env`]) are immutable and shared through `Rc`.
//! Contracts never speak of them directly: they speak of their views, a
//! [`Sexp`] for an expression and a `Map` from names to [`Sexp`] for an
//! environment.

use std::rc::Rc;
use vstd::prelude::*;

verus! {

/// The name-to-value mapping that an environment denotes.
pub type Bindings = Map<Seq<char>, Sexp>;

/// An s-expression as a mathematical value: the view of an [`Expr`].
pub enum Sexp {
    /// The empty list, which is also the false value.
    Nil,
    Integer(i64),
    /// A double-precision number, held as its IEEE-754 bit pattern.
    Float(u64),
    String(Seq<char>),
    Ident(Seq<char>),
    Cons(Box<Sexp>, Box<Sexp>),
    Quote(Box<Sexp>),
    Quasiquote(Box<Sexp>),
    Unquote(Box<Sexp>),
    /// Parameters, body, and the bindings captured when the closure was built.
    Lambda(Box<Sexp>, Box<Sexp>, Option<Bindings>),
    /// Parameters and body.
    Macro(Box<Sexp>, Box<Sexp>),
}

/// An expression node. Nodes are never mutated after construction and may be
/// shared by any number of owners.
#[derive(Debug)]
pub enum Expr {
    /// The empty list, which is also the false value.
    Nil,
    Integer(i64),
    /// A double-precision number, held as its IEEE-754 bit pattern.
    Float(u64),
    String(String),
    Ident(String),
    Cons(Rc<Expr>, Rc<Expr>),
    Quote(Rc<Expr>),
    Quasiquote(Rc<Expr>),
    Unquote(Rc<Expr>),
    /// Parameters, body, and the bindings captured when the closure was built
    /// (`None` when the body has no free identifier).
    Lambda(Rc<Expr>, Rc<Expr>, Option<Rc<Env>>),
    /// Parameters and body.
    Macro(Rc<Expr>, Rc<Expr>),
}

/// A persistent environment: a chain of bindings in which a binding nearer
/// the front shadows any later binding of the same name.
///
/// It is a chain and no hash map because nothing is known to Verus of a
/// `HashMap` whose keys are strings: vstd specifies `HashMap` only for key
/// types that obey its key model, which it grants to the primitive types,
/// and its `StringHashMap` admits no value type that holds the map again,
/// as a closure's captured bindings do. A chain also makes a context cheap
/// to copy and to extend, which every evaluation step does.
#[derive(Debug)]
pub enum Env {
    Empty,
    Bind(String, Rc<Expr>, Rc<Env>),
}

impl View for Expr {
    type V = Sexp;

    open spec fn view(&self) -> Sexp
        decreases self,
    {
        match self {
            Expr::Nil => Sexp::Nil,
            Expr::Integer(i) => Sexp::Integer(*i),
            Expr::Float(bits) => Sexp::Float(*bits),
            Expr::String(s) => Sexp::String(s@),
            Expr::Ident(s) => Sexp::Ident(s@),
            Expr::Cons(a, b) => Sexp::Cons(Box::new((**a).view()), Box::new((**b).view())),
            Expr::Quote(e) => Sexp::Quote(Box::new((**e).view())),
            Expr::Quasiquote(e) => Sexp::Quasiquote(Box::new((**e).view())),
            Expr::Unquote(e) => Sexp::Unquote(Box::new((**e).view())),
            Expr::Lambda(p, b, c) => Sexp::Lambda(
                Box::new((**p).view()),
                Box::new((**b).view()),
                match c {
                    Some(env) => Some((**env).view()),
                    None => None,
                },
            ),
            Expr::Macro(p, b) => Sexp::Macro(Box::new((**p).view()), Box::new((**b).view())),
        }
    }
}

impl View for Env {
    type V = Bindings;

    open spec fn view(&self) -> Bindings
        decreases self,
    {
        match self {
            Env::Empty => Map::empty(),
            Env::Bind(name, value, rest) => (**rest).view().insert(name@, (**value).view()),
        }
    }
}

/// The views of a sequence of expressions.
pub open spec fn expr_views(exprs: Seq<Rc<Expr>>) -> Seq<Sexp> {
    exprs.map_values(|e: Rc<Expr>| e@)
}

impl Sexp {
    /// The one element of a proper list of length one.
    pub open spec fn list1(self) -> Option<Sexp> {
        match self {
            Sexp::Cons(a, rest) => match *rest {
                Sexp::Nil => Some(*a),
                _ => None,
            },
            _ => None,
        }
    }

    /// The two elements of a proper list of length two.
    pub open spec fn list2(self) -> Option<(Sexp, Sexp)> {
        match self {
            Sexp::Cons(a, rest) => match rest.list1() {
                Some(b) => Some((*a, b)),
                None => None,
            },
            _ => None,
        }
    }

    /// The three elements of a proper list of length three.
    pub open spec fn list3(self) -> Option<(Sexp, Sexp, Sexp)> {
        match self {
            Sexp::Cons(a, rest) => match rest.list2() {
                Some((b, c)) => Some((*a, b, c)),
                None => None,
            },
            _ => None,
        }
    }

    /// The number of nodes reached through pairs: the measure by which the
    /// structural recursions over a tree terminate.
    pub open spec fn size(self) -> nat
        decreases self,
    {
        match self {
            Sexp::Cons(a, b) => 1 + a.size() + b.size(),
            _ => 0,
        }
    }
}

impl Expr {
    /// The one element of a proper list of length one.
    pub fn list1(&self) -> (r: Option<Rc<Expr>>)
        ensures
            match r {
                Some(a) => self@.list1() == Some(a@),
                None => self@.list1().is_none(),
            },
    {
        match self {
            Expr::Cons(a, rest) => match &**rest {
                Expr::Nil => {
                    assert(rest@ == Sexp::Nil);
                    Some(a.clone())
                },
                _ => None,
            },
            _ => None,
        }
    }

    /// The two elements of a proper list of length two.
    pub fn list2(&self) -> (r: Option<(Rc<Expr>, Rc<Expr>)>)
        ensures
            match r {
                Some((a, b)) => self@.list2() == Some((a@, b@)),
                None => self@.list2().is_none(),
            },
    {
        match self {
            Expr::Cons(a, rest) => match rest.list1() {
                Some(b) => Some((a.clone(), b)),
                None => None,
            },
            _ => None,
        }
    }

    /// The three elements of a proper list of length three.
    pub fn list3(&self) -> (r: Option<(Rc<Expr>, Rc<Expr>, Rc<Expr>)>)
        ensures
            match r {
                Some((a, b, c)) => self@.list3() == Some((a@, b@, c@)),
                None => self@.list3().is_none(),
            },
    {
        match self {
            Expr::Cons(a, rest) => match rest.list2() {
                Some((b, c)) => Some((a.clone(), b, c)),
                None => None,
            },
            _ => None,
        }
    }
}

} // verus!
