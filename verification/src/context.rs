//! The evaluation context: the expression being reduced, the bindings in
//! scope, the error state, and the values that `print-debug` has emitted.
//!
//! A context is a value. Every operation returns a new context and leaves
//! its receiver as it was.

use crate::expr::{expr_views, Bindings, Env, Expr, Sexp};
use crate::text::{is_reserved, is_reserved_ident};
use std::rc::Rc;
use vstd::prelude::*;

verus! {

/// Why an evaluation failed.
#[derive(Clone, Copy, Debug, PartialEq, Eq, Structural)]
pub enum ErrorKind {
    /// An identifier was looked up that has no binding.
    UnboundIdentifier,
    /// A binding was attempted for a reserved name.
    ReservedIdentifier,
    /// A special form or a call has the wrong shape or number of arguments.
    MalformedForm,
    /// A primitive was applied to an operand of the wrong variant.
    TypeMismatch,
    /// The head of an application is not something that can be applied.
    NotCallable,
    /// A closure needs a binding that its defining environment lacks.
    CaptureFailure,
    /// An integer operation overflowed, or divided by zero.
    Arithmetic,
    /// Evaluation nested deeper than the context allows.
    DepthExceeded,
}

/// The nesting depth that a new context allows. Evaluation is recursive, so
/// the depth that a thread can bear grows with its stack: this default suits
/// a stack of a megabyte, and `Context::with_limit` sets another.
pub const DEFAULT_DEPTH: usize = 1000;

/// The mathematical model of a [`Context`].
pub struct State {
    /// The expression being reduced, or the value it reduced to.
    pub expr: Sexp,
    /// The bindings in scope.
    pub env: Bindings,
    /// Whether an error has occurred on the way to this state.
    pub error: bool,
    /// The kind of the most recent error, if there was one.
    pub cause: Option<ErrorKind>,
    /// The values that `print-debug` has emitted, oldest first.
    pub printed: Seq<Sexp>,
    /// How deep evaluation may nest.
    pub limit: nat,
    /// Whether evaluation has run out of depth on the way to this state.
    /// Unlike the error flag, this one is never dropped: a value computed
    /// after it is set may rest on a part that was cut short.
    pub exhausted: bool,
    /// The kind of every failure on the way to this state, oldest first. A
    /// failure stays on record when its error flag is dropped.
    pub failures: Seq<ErrorKind>,
}

impl State {
    /// The state of a new context.
    pub open spec fn initial() -> State {
        State {
            expr: Sexp::Nil,
            env: Map::empty(),
            error: false,
            cause: None,
            printed: Seq::empty(),
            limit: DEFAULT_DEPTH as nat,
            exhausted: false,
            failures: Seq::empty(),
        }
    }

    /// This state with `expr` as its expression.
    pub open spec fn with_expr(self, expr: Sexp) -> State {
        State { expr, ..self }
    }

    /// This state with `env` as its bindings.
    pub open spec fn with_env(self, env: Bindings) -> State {
        State { env, ..self }
    }

    /// This state, after `prev` has run: it holds what `prev` has emitted
    /// and the record of its failures, and knows whether `prev` ran out of
    /// depth. The error flag of `prev` is dropped.
    pub open spec fn after(self, prev: State) -> State {
        State {
            printed: prev.printed,
            exhausted: prev.exhausted,
            failures: prev.failures,
            ..self
        }
    }

    /// The error sentinel: the empty value with the error flag set, and the
    /// failure put on record. Bindings and emitted values stay as they are.
    pub open spec fn fail(self, kind: ErrorKind) -> State {
        State {
            expr: Sexp::Nil,
            error: true,
            cause: Some(kind),
            failures: self.failures.push(kind),
            ..self
        }
    }

    /// The error sentinel of an evaluation that ran out of depth.
    pub open spec fn exhaust(self) -> State {
        State { exhausted: true, ..self.fail(ErrorKind::DepthExceeded) }
    }

    /// The state that gives up on behalf of `inner`, which ran in a scope of
    /// its own and failed: the sentinel with the bindings of `self`, the
    /// cause of `inner`, what `inner` has emitted and the record of its
    /// failures. Nothing new is put on record.
    pub open spec fn give_up(self, inner: State) -> State {
        State {
            expr: Sexp::Nil,
            error: true,
            cause: inner.cause,
            printed: inner.printed,
            exhausted: inner.exhausted,
            failures: inner.failures,
            ..self
        }
    }

    /// The value bound to `name` becomes the expression; the sentinel if
    /// `name` is unbound.
    pub open spec fn lookup(self, name: Seq<char>) -> State {
        if self.env.contains_key(name) {
            self.with_expr(self.env[name])
        } else {
            self.fail(ErrorKind::UnboundIdentifier)
        }
    }

    /// `name` is bound to `value`, shadowing any earlier binding; the
    /// sentinel, with the bindings unchanged, if `name` is reserved.
    pub open spec fn bind(self, name: Seq<char>, value: Sexp) -> State {
        if is_reserved(name) {
            self.fail(ErrorKind::ReservedIdentifier)
        } else {
            self.with_env(self.env.insert(name, value))
        }
    }

    /// This state with `value` appended to what has been emitted.
    pub open spec fn emit(self, value: Sexp) -> State {
        State { printed: self.printed.push(value), ..self }
    }
}

/// The values emitted so far, as a persistent list whose head is the most
/// recent one.
#[derive(Debug)]
pub enum Trace {
    Empty,
    Then(Rc<Trace>, Rc<Expr>),
}

impl View for Trace {
    type V = Seq<Sexp>;

    open spec fn view(&self) -> Seq<Sexp>
        decreases self,
    {
        match self {
            Trace::Empty => Seq::empty(),
            Trace::Then(before, value) => (**before).view().push((**value).view()),
        }
    }
}

impl Trace {
    /// The values, oldest first.
    pub fn to_vec(&self) -> (r: Vec<Rc<Expr>>)
        ensures
            expr_views(r@) == self@,
    {
        let mut latest_first: Vec<Rc<Expr>> = Vec::new();
        let mut cur: &Trace = self;
        loop
            invariant_except_break
                self@ =~= cur@ + expr_views(latest_first@).reverse(),
            ensures
                self@ =~= expr_views(latest_first@).reverse(),
            decreases cur,
        {
            match cur {
                Trace::Empty => {
                    break ;
                },
                Trace::Then(before, value) => {
                    latest_first.push(value.clone());
                    cur = &**before;
                },
            }
        }
        let n = latest_first.len();
        let ghost want = expr_views(latest_first@).reverse();
        let mut r: Vec<Rc<Expr>> = Vec::new();
        let mut i: usize = n;
        while i > 0
            invariant
                i <= n,
                n == latest_first@.len(),
                want == expr_views(latest_first@).reverse(),
                expr_views(r@) =~= want.take(n - i),
            decreases i,
        {
            i = i - 1;
            let ghost before = expr_views(r@);
            r.push(latest_first[i].clone());
            assert(expr_views(r@) =~= before.push(latest_first@[i as int]@));
        }
        r
    }
}

/// The failures so far, as a persistent list whose head is the most recent
/// one.
#[derive(Debug)]
pub enum Faults {
    Empty,
    Then(Rc<Faults>, ErrorKind),
}

impl View for Faults {
    type V = Seq<ErrorKind>;

    open spec fn view(&self) -> Seq<ErrorKind>
        decreases self,
    {
        match self {
            Faults::Empty => Seq::empty(),
            Faults::Then(before, kind) => (**before).view().push(*kind),
        }
    }
}

impl Faults {
    /// The failures, oldest first.
    pub fn to_vec(&self) -> (r: Vec<ErrorKind>)
        ensures
            r@ == self@,
    {
        let mut latest_first: Vec<ErrorKind> = Vec::new();
        let mut cur: &Faults = self;
        assert(latest_first@.reverse() =~= Seq::<ErrorKind>::empty());
        loop
            invariant_except_break
                self@ =~= cur@ + latest_first@.reverse(),
            ensures
                self@ =~= latest_first@.reverse(),
            decreases cur,
        {
            match cur {
                Faults::Empty => {
                    break ;
                },
                Faults::Then(before, kind) => {
                    let ghost earlier = latest_first@;
                    latest_first.push(*kind);
                    assert(earlier.push(*kind).reverse() =~= seq![*kind] + earlier.reverse());
                    assert(cur@ == before@.push(*kind));
                    cur = &**before;
                },
            }
        }
        let n = latest_first.len();
        let ghost want = latest_first@.reverse();
        let mut r: Vec<ErrorKind> = Vec::new();
        let mut i: usize = n;
        while i > 0
            invariant
                i <= n,
                n == latest_first@.len(),
                want == latest_first@.reverse(),
                r@ =~= want.take(n - i),
            decreases i,
        {
            i = i - 1;
            r.push(latest_first[i]);
            assert(want[n - i - 1] == latest_first@[i as int]);
        }
        assert(want.take(n as int) =~= want);
        r
    }
}

/// An evaluation context.
#[derive(Debug)]
pub struct Context {
    /// The expression being reduced, or the value it reduced to.
    pub expr: Rc<Expr>,
    /// The bindings in scope.
    pub env: Rc<Env>,
    /// Whether an error has occurred on the way to this context.
    pub error: bool,
    /// The kind of the most recent error, if there was one.
    pub cause: Option<ErrorKind>,
    /// The values that `print-debug` has emitted.
    pub printed: Rc<Trace>,
    /// How deep evaluation may nest.
    pub limit: usize,
    /// Whether evaluation has run out of depth on the way to this context.
    pub exhausted: bool,
    /// The kind of every failure on the way to this context.
    pub failures: Rc<Faults>,
}

impl View for Context {
    type V = State;

    open spec fn view(&self) -> State {
        State {
            expr: self.expr@,
            env: self.env@,
            error: self.error,
            cause: self.cause,
            printed: self.printed@,
            limit: self.limit as nat,
            exhausted: self.exhausted,
            failures: self.failures@,
        }
    }
}

impl Clone for Context {
    fn clone(&self) -> (r: Context)
        ensures
            r@ == self@,
    {
        Context {
            expr: self.expr.clone(),
            env: self.env.clone(),
            error: self.error,
            cause: self.cause,
            printed: self.printed.clone(),
            limit: self.limit,
            exhausted: self.exhausted,
            failures: self.failures.clone(),
        }
    }
}

impl Context {
    /// A context with no binding, no error and nothing emitted, whose
    /// expression is the empty value.
    pub fn new() -> (r: Context)
        ensures
            r@ == State::initial(),
    {
        Context {
            expr: Rc::new(Expr::Nil),
            env: Rc::new(Env::Empty),
            error: false,
            cause: None,
            printed: Rc::new(Trace::Empty),
            limit: DEFAULT_DEPTH,
            exhausted: false,
            failures: Rc::new(Faults::Empty),
        }
    }

    /// This context with another nesting limit.
    pub fn with_limit(&self, limit: usize) -> (r: Context)
        ensures
            r@ == (State { limit: limit as nat, ..self@ }),
    {
        let mut c = self.clone();
        c.limit = limit;
        c
    }

    /// Whether an error has occurred on the way to this context.
    pub fn has_error(&self) -> (r: bool)
        ensures
            r == self@.error,
    {
        self.error
    }

    /// The kind of the most recent error, if there was one.
    pub fn cause(&self) -> (r: Option<ErrorKind>)
        ensures
            r == self@.cause,
    {
        self.cause
    }

    /// Whether evaluation has run out of depth on the way to this context.
    /// Where it has, the value at hand may rest on a part that was cut
    /// short, even if the error flag is not set.
    pub fn ran_out_of_depth(&self) -> (r: bool)
        ensures
            r == self@.exhausted,
    {
        self.exhausted
    }

    /// The values that `print-debug` has emitted, oldest first.
    pub fn printed(&self) -> (r: Vec<Rc<Expr>>)
        ensures
            expr_views(r@) == self@.printed,
    {
        self.printed.to_vec()
    }

    /// The kind of every failure on the way to this context, oldest first:
    /// what a log of the evaluation would hold. A failure is on record even
    /// where its error flag was dropped.
    pub fn failures(&self) -> (r: Vec<ErrorKind>)
        ensures
            r@ == self@.failures,
    {
        self.failures.to_vec()
    }

    /// This context with no failure on record.
    pub fn without_failures(&self) -> (r: Context)
        ensures
            r@ == (State { failures: Seq::empty(), ..self@ }),
    {
        let mut c = self.clone();
        c.failures = Rc::new(Faults::Empty);
        c
    }

    /// This context with nothing emitted.
    pub fn without_printed(&self) -> (r: Context)
        ensures
            r@ == (State { printed: Seq::empty(), ..self@ }),
    {
        let mut c = self.clone();
        c.printed = Rc::new(Trace::Empty);
        c
    }

    /// The error sentinel of this context: the empty value with the error
    /// flag set and the failure put on record.
    pub fn fail(&self, kind: ErrorKind) -> (r: Context)
        ensures
            r@ == self@.fail(kind),
    {
        let mut c = self.set_expr(Expr::Nil);
        c.error = true;
        c.cause = Some(kind);
        c.failures = Rc::new(Faults::Then(self.failures.clone(), kind));
        c
    }

    /// The error sentinel of an evaluation that ran out of depth.
    pub fn exhaust(&self) -> (r: Context)
        ensures
            r@ == self@.exhaust(),
    {
        let mut c = self.fail(ErrorKind::DepthExceeded);
        c.exhausted = true;
        c
    }

    /// The sentinel that gives up on behalf of `inner`.
    pub fn give_up(&self, inner: &Context) -> (r: Context)
        ensures
            r@ == self@.give_up(inner@),
    {
        Context {
            expr: Rc::new(Expr::Nil),
            env: self.env.clone(),
            error: true,
            cause: inner.cause,
            printed: inner.printed.clone(),
            limit: self.limit,
            exhausted: inner.exhausted,
            failures: inner.failures.clone(),
        }
    }

    /// This context with another expression.
    pub fn set_expr(&self, expr: Expr) -> (r: Context)
        ensures
            r@ == self@.with_expr(expr@),
    {
        let mut c = self.clone();
        c.expr = Rc::new(expr);
        c
    }

    /// This context with another expression, which is shared.
    pub fn set_rcexpr(&self, expr: Rc<Expr>) -> (r: Context)
        ensures
            r@ == self@.with_expr(expr@),
    {
        let mut c = self.clone();
        c.expr = expr;
        c
    }

    /// This context with other bindings.
    pub fn set_env(&self, env: Rc<Env>) -> (r: Context)
        ensures
            r@ == self@.with_env(env@),
    {
        let mut c = self.clone();
        c.env = env;
        c
    }

    /// This context, after `prev` has run: it holds what `prev` has emitted
    /// and the record of its failures, and knows whether `prev` ran out of
    /// depth. The error flag of `prev` is dropped.
    pub fn after(&self, prev: &Context) -> (r: Context)
        ensures
            r@ == self@.after(prev@),
    {
        let mut c = self.clone();
        c.printed = prev.printed.clone();
        c.exhausted = prev.exhausted;
        c.failures = prev.failures.clone();
        c
    }

    /// This context with `value` appended to what has been emitted.
    pub fn emit(&self, value: Rc<Expr>) -> (r: Context)
        ensures
            r@ == self@.emit(value@),
    {
        let mut c = self.clone();
        c.printed = Rc::new(Trace::Then(self.printed.clone(), value));
        c
    }

    /// The context whose expression is the value bound to `ident`; the error
    /// sentinel, with cause `UnboundIdentifier`, if there is no such binding.
    pub fn lookup(&self, ident: &String) -> (r: Context)
        ensures
            r@ == self@.lookup(ident@),
    {
        match self.env.get(ident.as_str()) {
            None => self.fail(ErrorKind::UnboundIdentifier),
            Some(x) => self.set_rcexpr(x),
        }
    }

    /// The context in which `ident` is bound to `expr`; the error sentinel,
    /// with cause `ReservedIdentifier` and the bindings unchanged, if
    /// `ident` is reserved.
    pub fn add_env(&self, ident: String, expr: Rc<Expr>) -> (r: Context)
        ensures
            r@ == self@.bind(ident@, expr@),
    {
        if is_reserved_ident(ident.as_str()) {
            self.fail(ErrorKind::ReservedIdentifier)
        } else {
            self.set_env(Env::bind(&self.env, ident, expr))
        }
    }
}

} // verus!
