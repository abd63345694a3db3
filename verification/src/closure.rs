//! What a closure must capture: the shape of a `lambda` form, the names of
//! its parameters, and the free identifiers of its body.

use crate::expr::{Env, Expr, Sexp};
use crate::names::{names_upto, NameSet};
use crate::text::{is_reserved, is_reserved_ident, same_text};
use std::rc::Rc;
use vstd::prelude::*;

verus! {

/// A set of names.
pub type Names = Set<Seq<char>>;

/// The parts of the argument list of a `lambda` form: an optional name for
/// the closure itself, the parameter list, and the body. The list holds
/// either parameters and body, or a name (an identifier), parameters and
/// body; any other list is malformed.
pub open spec fn lambda_parts(args: Sexp) -> Option<(Option<Seq<char>>, Sexp, Sexp)> {
    match args.list2() {
        Some((params, body)) => Some((None, params, body)),
        None => match args.list3() {
            Some((name, params, body)) => match name {
                Sexp::Ident(n) => Some((Some(n), params, body)),
                _ => None,
            },
            None => None,
        },
    }
}

/// The names in a parameter list: a possibly empty chain of pairs, each
/// holding an identifier, that ends in the empty list. Anything else is no
/// parameter list.
pub open spec fn param_names(params: Sexp) -> Option<Names>
    decreases params,
{
    match params {
        Sexp::Nil => Some(Set::empty()),
        Sexp::Cons(first, rest) => match *first {
            Sexp::Ident(name) => match param_names(*rest) {
                Some(names) => Some(names.insert(name)),
                None => None,
            },
            _ => None,
        },
        _ => None,
    }
}

/// The identifiers that `body` refers to and that a closure over it must
/// find in its defining environment.
///
/// An identifier counts when it is not reserved, not in `ignore`, and not
/// `quoted`. A quasiquote makes what it holds quoted, and an unquote makes
/// what it holds live again. A live application whose head is `lambda` is an
/// inner closure, which will do its own capture when it is built: nothing in
/// it counts. Quoted expressions, literals and closure values hold no
/// reference.
pub open spec fn free_idents(body: Sexp, ignore: Names, quoted: bool) -> Names
    decreases body,
{
    match body {
        Sexp::Ident(name) => if !quoted && !ignore.contains(name) && !is_reserved(name) {
            set![name]
        } else {
            Set::empty()
        },
        Sexp::Cons(head, tail) => if *head == Sexp::Ident("lambda"@) {
            if quoted {
                free_idents(*tail, ignore, quoted)
            } else {
                Set::empty()
            }
        } else {
            free_idents(*head, ignore, quoted).union(free_idents(*tail, ignore, quoted))
        },
        Sexp::Quasiquote(inner) => free_idents(*inner, ignore, true),
        Sexp::Unquote(inner) => free_idents(*inner, ignore, false),
        _ => Set::empty(),
    }
}

/// The view of an optional name.
pub open spec fn name_view(name: Option<String>) -> Option<Seq<char>> {
    match name {
        Some(n) => Some(n@),
        None => None,
    }
}

/// Splits the argument list of a `lambda` form into the closure's own name,
/// where one is given, the parameter list and the body.
pub fn split_lambda(args: &Expr) -> (r: Option<(Option<String>, Rc<Expr>, Rc<Expr>)>)
    ensures
        match r {
            Some((name, params, body)) => lambda_parts(args@) == Some(
                (name_view(name), params@, body@),
            ),
            None => lambda_parts(args@).is_none(),
        },
{
    match args.list2() {
        Some((params, body)) => Some((None, params, body)),
        None => match args.list3() {
            Some((name, params, body)) => match &*name {
                Expr::Ident(n) => Some((Some(n.clone()), params, body)),
                _ => None,
            },
            None => None,
        },
    }
}

/// Checks that `e` is a parameter list, and adds its names to `v`.
pub fn lambda_verify_args(e: &Expr, v: &mut NameSet) -> (r: bool)
    ensures
        r == param_names(e@).is_some(),
        r ==> final(v)@ =~= old(v)@.union(param_names(e@).unwrap()),
    decreases e,
{
    match e {
        Expr::Nil => true,
        Expr::Cons(first, rest) => match &**first {
            Expr::Ident(name) => {
                assert(first@ == Sexp::Ident(name@));
                v.insert(name.clone());
                lambda_verify_args(rest, v)
            },
            _ => false,
        },
        _ => false,
    }
}

/// Adds to `ids` the free identifiers of `expr`.
pub fn collect_idents(expr: &Expr, ids: &mut NameSet, ignore: &NameSet, quote: bool)
    ensures
        final(ids)@ =~= old(ids)@.union(free_idents(expr@, ignore@, quote)),
    decreases expr,
{
    match expr {
        Expr::Ident(s) => {
            if !quote && !ignore.contains(s.as_str()) && !is_reserved_ident(s.as_str()) {
                ids.insert(s.clone());
            }
        },
        Expr::Cons(head, tail) => {
            let inner = match &**head {
                Expr::Ident(s) => {
                    assert(head@ == Sexp::Ident(s@));
                    same_text(s.as_str(), "lambda")
                },
                _ => false,
            };
            if inner {
                if quote {
                    collect_idents(tail, ids, ignore, quote);
                }
            } else {
                collect_idents(head, ids, ignore, quote);
                collect_idents(tail, ids, ignore, quote);
            }
        },
        Expr::Quasiquote(inner) => {
            collect_idents(inner, ids, ignore, true);
        },
        Expr::Unquote(inner) => {
            collect_idents(inner, ids, ignore, false);
        },
        _ => {},
    }
}

/// The bindings of `env` for exactly the names in `ids`; `None` if `env`
/// lacks one of them.
pub fn capture(env: &Env, ids: &NameSet) -> (r: Option<Rc<Env>>)
    ensures
        match r {
            Some(captured) => ids@.subset_of(env@.dom()) && captured@ =~= env@.restrict(ids@),
            None => !ids@.subset_of(env@.dom()),
        },
{
    let mut captured: Rc<Env> = Rc::new(Env::Empty);
    let mut i: usize = 0;
    while i < ids.names.len()
        invariant
            i <= ids.names@.len(),
            names_upto(ids.names@, i as int).subset_of(env@.dom()),
            captured@ =~= env@.restrict(names_upto(ids.names@, i as int)),
        decreases ids.names@.len() - i,
    {
        let name = &ids.names[i];
        match env.get(name.as_str()) {
            None => {
                return None;
            },
            Some(value) => {
                captured = Env::bind(&captured, name.clone(), value);
                i = i + 1;
            },
        }
    }
    Some(captured)
}

} // verus!
