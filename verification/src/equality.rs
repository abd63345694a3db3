//! Structural equality of expressions, as the `=` primitive decides it.

use crate::expr::{Bindings, Env, Expr};
use crate::float::equal_bits;
use crate::semantics::{bindings_equal, sexp_equal};
use crate::text::same_text;
use vstd::prelude::*;

verus! {

/// Whether `m2` binds every name in `names`, to a value equal to the one that
/// `m1` binds it to.
pub open spec fn agree_on(names: Set<Seq<char>>, m1: Bindings, m2: Bindings) -> bool {
    forall|k: Seq<char>| #[trigger]
        names.contains(k) ==> m2.dom().contains(k) && sexp_equal(m1[k], m2[k])
}

impl Env {
    /// Whether every name that `walk` binds is bound by `other` too, to a
    /// value equal to the one that `self` binds it to.
    fn covered(&self, walk: &Env, other: &Env) -> (r: bool)
        requires
            walk@.dom().subset_of(self@.dom()),
        ensures
            r == agree_on(walk@.dom(), self@, other@),
        decreases self, 0nat, walk,
    {
        match walk {
            Env::Empty => true,
            Env::Bind(key, value, rest) => {
                assert(walk@ == rest@.insert(key@, value@));
                assert(walk@.dom().contains(key@));
                let holds = match (self.part(key.as_str()), other.part(key.as_str())) {
                    (Some(mine), Some(theirs)) => mine.equals(theirs),
                    _ => false,
                };
                assert(holds == (other@.dom().contains(key@) && sexp_equal(
                    self@[key@],
                    other@[key@],
                )));
                if holds {
                    let r = self.covered(rest, other);
                    proof {
                        if r {
                            assert forall|k: Seq<char>| #[trigger]
                                walk@.dom().contains(k) implies other@.dom().contains(k)
                                && sexp_equal(self@[k], other@[k]) by {}
                        } else {
                            let k = choose|k: Seq<char>| #[trigger]
                                rest@.dom().contains(k) && !(other@.dom().contains(k)
                                    && sexp_equal(self@[k], other@[k]));
                            assert(walk@.dom().contains(k));
                        }
                    }
                    r
                } else {
                    false
                }
            },
        }
    }

    /// Whether `other` binds every name that this environment binds.
    fn names_within(&self, other: &Env) -> (r: bool)
        ensures
            r == self@.dom().subset_of(other@.dom()),
        decreases self,
    {
        match self {
            Env::Empty => true,
            Env::Bind(key, value, rest) => {
                assert(self@ == rest@.insert(key@, value@));
                if other.part(key.as_str()).is_some() {
                    rest.names_within(other)
                } else {
                    false
                }
            },
        }
    }

    /// Whether two environments bind the same names to equal values.
    pub fn equals(&self, other: &Env) -> (r: bool)
        ensures
            r == bindings_equal(self@, other@),
        decreases self, 1nat, self,
    {
        let r = self.covered(self, other) && other.names_within(self);
        proof {
            self.lemma_finite();
        }
        r
    }
}

impl Expr {
    /// Structural equality: the same variant with equal parts. Doubles are
    /// compared as IEEE-754 numbers, and captured bindings as mappings.
    pub fn equals(&self, other: &Expr) -> (r: bool)
        ensures
            r == sexp_equal(self@, other@),
        decreases self, 2nat, self,
    {
        match (self, other) {
            (Expr::Nil, Expr::Nil) => true,
            (Expr::Integer(x), Expr::Integer(y)) => *x == *y,
            (Expr::Float(x), Expr::Float(y)) => equal_bits(*x, *y),
            (Expr::String(x), Expr::String(y)) => same_text(x.as_str(), y.as_str()),
            (Expr::Ident(x), Expr::Ident(y)) => same_text(x.as_str(), y.as_str()),
            (Expr::Cons(a1, a2), Expr::Cons(b1, b2)) => a1.equals(b1) && a2.equals(b2),
            (Expr::Quote(x), Expr::Quote(y)) => x.equals(y),
            (Expr::Quasiquote(x), Expr::Quasiquote(y)) => x.equals(y),
            (Expr::Unquote(x), Expr::Unquote(y)) => x.equals(y),
            (Expr::Lambda(p1, b1, c1), Expr::Lambda(p2, b2, c2)) => {
                p1.equals(p2) && b1.equals(b2) && match (c1, c2) {
                    (None, None) => true,
                    (Some(m1), Some(m2)) => m1.equals(m2),
                    _ => false,
                }
            },
            (Expr::Macro(p1, b1), Expr::Macro(p2, b2)) => p1.equals(p2) && b1.equals(b2),
            _ => false,
        }
    }
}

} // verus!
