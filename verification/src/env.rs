//! Operations on persistent environments.

use crate::expr::{Env, Expr};
use crate::text::same_text;
use std::rc::Rc;
use vstd::prelude::*;

verus! {

impl Env {
    /// The value bound to `name`, if there is one, as a part of this
    /// environment.
    pub fn part(&self, name: &str) -> (r: Option<&Rc<Expr>>)
        ensures
            match r {
                Some(v) => self@.contains_key(name@) && v@ == self@[name@] && decreases_to!(self => v),
                None => !self@.contains_key(name@),
            },
        decreases self,
    {
        match self {
            Env::Empty => None,
            Env::Bind(key, value, rest) => {
                assert(self@ == rest@.insert(key@, value@));
                if same_text(key.as_str(), name) {
                    Some(value)
                } else {
                    rest.part(name)
                }
            },
        }
    }

    /// The value bound to `name`, if there is one.
    pub fn get(&self, name: &str) -> (r: Option<Rc<Expr>>)
        ensures
            match r {
                Some(v) => self@.contains_key(name@) && v@ == self@[name@],
                None => !self@.contains_key(name@),
            },
    {
        match self.part(name) {
            Some(v) => Some(v.clone()),
            None => None,
        }
    }

    /// An environment binds finitely many names.
    pub proof fn lemma_finite(&self)
        ensures
            self@.dom().finite(),
        decreases self,
    {
        match self {
            Env::Empty => {},
            Env::Bind(name, value, rest) => {
                rest.lemma_finite();
                assert(self@ == rest@.insert(name@, value@));
            },
        }
    }

    /// `env` extended with a binding of `name` to `value`, which shadows any
    /// binding of `name` that `env` holds.
    pub fn bind(env: &Rc<Env>, name: String, value: Rc<Expr>) -> (r: Rc<Env>)
        ensures
            r@ == env@.insert(name@, value@),
    {
        Rc::new(Env::Bind(name, value, env.clone()))
    }

    /// `base` extended with every binding of `over`; where both bind a name,
    /// the binding of `over` wins.
    pub fn merge(base: &Rc<Env>, over: &Env) -> (r: Rc<Env>)
        ensures
            r@ == base@.union_prefer_right(over@),
        decreases over,
    {
        match over {
            Env::Empty => base.clone(),
            Env::Bind(key, value, rest) => {
                let below = Env::merge(base, rest);
                let r = Rc::new(Env::Bind(key.clone(), value.clone(), below));
                assert(over@ == rest@.insert(key@, value@));
                r
            },
        }
    }
}

} // verus!
