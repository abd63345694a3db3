//! The evaluator: `eval` and the special forms.
//!
//! Every function here computes, on contexts, what the function of the same
//! purpose in the semantics defines on states. Evaluation is recursive; the
//! `depth` that the functions pass along bounds how deep applications may
//! nest, so that every evaluation ends.

use crate::closure::{
    capture,
    collect_idents,
    free_idents,
    lambda_verify_args,
    param_names,
    split_lambda,
};
use crate::context::{Context, ErrorKind};
use crate::expr::{expr_views, Env, Expr, Sexp};
use crate::float::{add_bits, div_bits, int_bits, mul_bits, sub_bits};
use crate::frame::{keeps, law_eval_keeps, law_program_keeps};
use crate::names::NameSet;
use crate::semantics::{
    arith_value,
    as_double,
    call_env,
    float_arith,
    int_arith,
    promote,
    sem_apply,
    sem_arith,
    sem_bind_args,
    sem_call,
    sem_car,
    sem_cdr,
    sem_cons,
    sem_def,
    sem_defmacro,
    sem_equal,
    sem_eval,
    sem_eval_form,
    sem_form,
    sem_if,
    sem_if_form,
    sem_lambda,
    sem_macro,
    sem_pre1,
    sem_pre2,
    sem_print_debug,
    sem_program,
    sem_quasi,
    ArithOp,
};
use crate::text::{keyword, Keyword};
use std::rc::Rc;
use vstd::prelude::*;
use vstd::string::StringExecFns;

verus! {

/// The result of `op` on two integers: `None` on division by zero, and where
/// the exact result does not fit.
pub fn int_op(op: ArithOp, x: i64, y: i64) -> (r: Option<i64>)
    ensures
        r == int_arith(op, x, y),
{
    match op {
        ArithOp::Add => x.checked_add(y),
        ArithOp::Sub => x.checked_sub(y),
        ArithOp::Mul => x.checked_mul(y),
        ArithOp::Div => x.checked_div(y),
    }
}

/// The result of `op` on two doubles, as bit patterns.
pub fn float_op(op: ArithOp, x: u64, y: u64) -> (r: u64)
    ensures
        r == float_arith(op, x, y),
{
    match op {
        ArithOp::Add => add_bits(x, y),
        ArithOp::Sub => sub_bits(x, y),
        ArithOp::Mul => mul_bits(x, y),
        ArithOp::Div => div_bits(x, y),
    }
}

/// A number as a double: a double as it is, an integer widened to the
/// nearest double.
pub fn to_double(e: &Expr) -> (r: Option<u64>)
    ensures
        r == as_double(e@),
{
    match e {
        Expr::Integer(x) => Some(int_bits(*x)),
        Expr::Float(x) => Some(*x),
        _ => None,
    }
}

/// The value of an arithmetic primitive on two evaluated operands, given
/// the double that the operation yields on them as doubles: the integer
/// result for two integers, `double` where one operand is a double and the
/// other a number.
pub fn numeric(op: ArithOp, a: &Expr, b: &Expr, double: u64) -> (r: Result<Expr, ErrorKind>)
    ensures
        match r {
            Ok(v) => promote(op, a@, b@, double) == Ok::<Sexp, ErrorKind>(v@),
            Err(kind) => promote(op, a@, b@, double) == Err::<Sexp, ErrorKind>(kind),
        },
{
    match (a, b) {
        (Expr::Integer(x), Expr::Integer(y)) => match int_op(op, *x, *y) {
            Some(v) => Ok(Expr::Integer(v)),
            None => Err(ErrorKind::Arithmetic),
        },
        (Expr::Integer(_), Expr::Float(_)) => Ok(Expr::Float(double)),
        (Expr::Float(_), Expr::Integer(_)) => Ok(Expr::Float(double)),
        (Expr::Float(_), Expr::Float(_)) => Ok(Expr::Float(double)),
        _ => Err(ErrorKind::TypeMismatch),
    }
}

/// The value of an arithmetic primitive on two evaluated operands.
pub fn arith(op: ArithOp, a: &Expr, b: &Expr) -> (r: Result<Expr, ErrorKind>)
    ensures
        match r {
            Ok(v) => arith_value(op, a@, b@) == Ok::<Sexp, ErrorKind>(v@),
            Err(kind) => arith_value(op, a@, b@) == Err::<Sexp, ErrorKind>(kind),
        },
{
    match (a, b) {
        (Expr::Integer(_), Expr::Integer(_)) => numeric(op, a, b, 0),
        _ => match (to_double(a), to_double(b)) {
            (Some(x), Some(y)) => numeric(op, a, b, float_op(op, x, y)),
            _ => Err(ErrorKind::TypeMismatch),
        },
    }
}

impl Context {
    /// Evaluates the expression of this context, nesting as deep as the
    /// context allows.
    pub fn eval(&self) -> (r: Context)
        ensures
            r@ == sem_eval(self@, self@.limit),
            keeps(self@, r@),
    {
        proof {
            law_eval_keeps(self@, self@.limit);
        }
        self.eval_at(self.limit)
    }

    /// Evaluates `expr` in this context.
    pub fn eval_expr(&self, expr: Rc<Expr>) -> (r: Context)
        ensures
            r@ == sem_eval(self@.with_expr(expr@), self@.limit),
            keeps(self@, r@),
    {
        self.set_rcexpr(expr).eval()
    }

    /// Evaluates the forms of a program in turn, each in the context that the
    /// one before it led to. A form that fails does not stop the ones after
    /// it.
    pub fn eval_file(&self, forms: &Vec<Rc<Expr>>) -> (r: Context)
        ensures
            r@ == sem_program(self@, expr_views(forms@), self@.limit),
            keeps(self@, r@),
    {
        proof {
            law_program_keeps(self@, expr_views(forms@), self@.limit);
        }
        let ghost all = expr_views(forms@);
        let mut c = self.clone();
        let mut i: usize = 0;
        while i < forms.len()
            invariant
                i <= forms@.len(),
                all == expr_views(forms@),
                c@ == sem_program(self@, all.take(i as int), self@.limit),
            decreases forms@.len() - i,
        {
            let next = c.set_rcexpr(forms[i].clone()).eval_at(self.limit);
            proof {
                let done = all.take(i + 1);
                assert(done.drop_last() =~= all.take(i as int));
            }
            c = next;
            i = i + 1;
        }
        assert(all.take(i as int) =~= all);
        c
    }

    /// Evaluates the expression of this context, nesting at most `depth`
    /// applications deep.
    pub fn eval_at(&self, depth: usize) -> (r: Context)
        ensures
            r@ == sem_eval(self@, depth as nat),
        decreases depth, 0nat, 0nat,
    {
        match &*self.expr {
            Expr::Quote(e) => self.set_rcexpr(e.clone()),
            Expr::Ident(name) => self.lookup(name),
            Expr::Quasiquote(e) => {
                if depth == 0 {
                    self.exhaust()
                } else {
                    self.set_rcexpr(e.clone()).eval_quasiquote(depth - 1)
                }
            },
            Expr::Cons(head, tail) => {
                if depth == 0 {
                    self.exhaust()
                } else {
                    self.eval_list(head, tail, depth - 1)
                }
            },
            _ => self.clone(),
        }
    }

    /// Applies `head` to the unevaluated arguments `tail`.
    pub fn eval_list(&self, head: &Rc<Expr>, tail: &Rc<Expr>, depth: usize) -> (r: Context)
        ensures
            r@ == sem_apply(self@, head@, tail@, depth as nat),
        decreases depth, 4nat, 0nat,
    {
        match &**head {
            Expr::Ident(name) => self.eval_list_ident(name, tail, depth),
            Expr::Lambda(params, body, captured) => self.eval_fncall(
                params,
                body,
                tail,
                captured,
                depth,
            ),
            Expr::Macro(params, body) => self.eval_macro(params, body, tail, depth),
            Expr::Cons(_, _) => {
                if depth == 0 {
                    self.exhaust()
                } else {
                    let c = self.set_rcexpr(head.clone()).eval_at(depth - 1);
                    let e = c.expr.clone();
                    c.eval_list(&e, tail, depth - 1)
                }
            },
            _ => self.fail(ErrorKind::NotCallable),
        }
    }

    /// Applies the identifier `ident`: a special form if it is a keyword,
    /// else what it is bound to.
    pub fn eval_list_ident(&self, ident: &String, args: &Rc<Expr>, depth: usize) -> (r: Context)
        ensures
            r@ == sem_form(self@, ident@, args@, depth as nat),
        decreases depth, 3nat, 0nat,
    {
        match keyword(ident.as_str()) {
            Some(Keyword::If) => self.eval_if(args, depth),
            Some(Keyword::Def) => self.eval_def(args, depth),
            Some(Keyword::Lambda) => self.eval_lambda(args),
            Some(Keyword::Defmacro) => self.eval_defmacro(args),
            Some(Keyword::Eval) => self.eval_eval(args, depth),
            Some(Keyword::PrintDebug) => self.eval_print_debug(args, depth),
            Some(Keyword::Plus) => self.eval_plus(args, depth),
            Some(Keyword::Minus) => self.eval_sub(args, depth),
            Some(Keyword::Times) => self.eval_mul(args, depth),
            Some(Keyword::Divide) => self.eval_div(args, depth),
            Some(Keyword::Equal) => self.eval_equal(args, depth),
            Some(Keyword::Car) => self.eval_car(args, depth),
            Some(Keyword::Cdr) => self.eval_cdr(args, depth),
            Some(Keyword::Cons) => self.eval_cons(args, depth),
            None => {
                let c = self.lookup(ident);
                if c.error {
                    c
                } else if depth == 0 {
                    self.exhaust()
                } else {
                    self.eval_list(&c.expr, args, depth - 1)
                }
            },
        }
    }

    /// `(if p t f)`, given its arguments: evaluates `p`, then `f` if the
    /// value is the empty list and `t` if it is anything else. The error
    /// sentinel where there are not exactly three arguments.
    pub fn eval_if(&self, args: &Rc<Expr>, depth: usize) -> (r: Context)
        ensures
            r@ == sem_if(self@, args@, depth as nat),
        decreases depth, 2nat, 0nat,
    {
        match args.list3() {
            Some((p, t, f)) => self.eval_if_form(p, t, f, depth),
            None => self.fail(ErrorKind::MalformedForm),
        }
    }

    /// Evaluates the branch that the value of `p` selects.
    pub fn eval_if_form(&self, p: Rc<Expr>, t: Rc<Expr>, f: Rc<Expr>, depth: usize) -> (r: Context)
        ensures
            r@ == sem_if_form(self@, p@, t@, f@, depth as nat),
        decreases depth, 1nat, 0nat,
    {
        let c = self.set_rcexpr(p).eval_at(depth);
        match &*c.expr {
            Expr::Nil => c.set_rcexpr(f).eval_at(depth),
            _ => c.set_rcexpr(t).eval_at(depth),
        }
    }

    /// Evaluates the one argument in `args`.
    pub fn pre_eval_1(&self, args: &Rc<Expr>, depth: usize) -> (r: Context)
        ensures
            r@ == sem_pre1(self@, args@, depth as nat),
        decreases depth, 1nat, 0nat,
    {
        match args.list1() {
            Some(e) => self.set_rcexpr(e).eval_at(depth),
            None => self.fail(ErrorKind::MalformedForm),
        }
    }

    /// Evaluates the two arguments in `args`, each with the bindings of this
    /// context.
    pub fn pre_eval_2(&self, args: &Rc<Expr>, depth: usize) -> (r: (Rc<Expr>, Rc<Expr>, Context))
        ensures
            (r.0@, r.1@, r.2@) == sem_pre2(self@, args@, depth as nat),
        decreases depth, 1nat, 0nat,
    {
        match args.list2() {
            Some((e1, e2)) => {
                let c1 = self.set_rcexpr(e1).eval_at(depth);
                let c2 = self.after(&c1).set_rcexpr(e2).eval_at(depth);
                (c1.expr.clone(), c2.expr.clone(), c2)
            },
            None => (
                Rc::new(Expr::Nil),
                Rc::new(Expr::Nil),
                self.fail(ErrorKind::MalformedForm),
            ),
        }
    }

    /// `(op a b)` for an arithmetic primitive, given its arguments: two
    /// integers give an integer, and where one operand is a double the other
    /// is widened and the result is a double. The error sentinel where there
    /// are not exactly two arguments, where an operand is no number, where
    /// an integer result does not fit, and on integer division by zero.
    pub fn eval_arith(&self, op: ArithOp, args: &Rc<Expr>, depth: usize) -> (r: Context)
        ensures
            r@ == sem_arith(self@, op, args@, depth as nat),
        decreases depth, 2nat, 0nat,
    {
        if args.list2().is_none() {
            self.fail(ErrorKind::MalformedForm)
        } else {
            let (a, b, c) = self.pre_eval_2(args, depth);
            match arith(op, &a, &b) {
                Ok(v) => c.set_expr(v),
                Err(kind) => self.after(&c).fail(kind),
            }
        }
    }

    /// `(+ a b)`, given its arguments: see `eval_arith`.
    pub fn eval_plus(&self, args: &Rc<Expr>, depth: usize) -> (r: Context)
        ensures
            r@ == sem_arith(self@, ArithOp::Add, args@, depth as nat),
        decreases depth, 2nat, 1nat,
    {
        self.eval_arith(ArithOp::Add, args, depth)
    }

    /// `(- a b)`, given its arguments: see `eval_arith`.
    pub fn eval_sub(&self, args: &Rc<Expr>, depth: usize) -> (r: Context)
        ensures
            r@ == sem_arith(self@, ArithOp::Sub, args@, depth as nat),
        decreases depth, 2nat, 1nat,
    {
        self.eval_arith(ArithOp::Sub, args, depth)
    }

    /// `(* a b)`, given its arguments: see `eval_arith`.
    pub fn eval_mul(&self, args: &Rc<Expr>, depth: usize) -> (r: Context)
        ensures
            r@ == sem_arith(self@, ArithOp::Mul, args@, depth as nat),
        decreases depth, 2nat, 1nat,
    {
        self.eval_arith(ArithOp::Mul, args, depth)
    }

    /// `(/ a b)`, given its arguments: see `eval_arith`. The quotient of two
    /// integers is rounded toward zero.
    pub fn eval_div(&self, args: &Rc<Expr>, depth: usize) -> (r: Context)
        ensures
            r@ == sem_arith(self@, ArithOp::Div, args@, depth as nat),
        decreases depth, 2nat, 1nat,
    {
        self.eval_arith(ArithOp::Div, args, depth)
    }

    /// `(= a b)`, given its arguments: the identifier `t` if the values of
    /// `a` and `b` are structurally equal, the empty list if not. The error
    /// sentinel where there are not exactly two arguments.
    pub fn eval_equal(&self, args: &Rc<Expr>, depth: usize) -> (r: Context)
        ensures
            r@ == sem_equal(self@, args@, depth as nat),
        decreases depth, 2nat, 0nat,
    {
        if args.list2().is_none() {
            self.fail(ErrorKind::MalformedForm)
        } else {
            let (a, b, c) = self.pre_eval_2(args, depth);
            if a.equals(&b) {
                c.set_expr(Expr::Ident(String::from_str("t")))
            } else {
                c.set_expr(Expr::Nil)
            }
        }
    }

    /// `(cons a b)`, given its arguments: the pair of the values of `a` and
    /// `b`. The error sentinel where there are not exactly two arguments.
    pub fn eval_cons(&self, args: &Rc<Expr>, depth: usize) -> (r: Context)
        ensures
            r@ == sem_cons(self@, args@, depth as nat),
        decreases depth, 2nat, 0nat,
    {
        if args.list2().is_none() {
            self.fail(ErrorKind::MalformedForm)
        } else {
            let (a, b, c) = self.pre_eval_2(args, depth);
            c.set_expr(Expr::Cons(a, b))
        }
    }

    /// `(car a)`, given its arguments: the first part of the value of `a`.
    /// The error sentinel where there is not exactly one argument, and where
    /// the value is no pair.
    pub fn eval_car(&self, args: &Rc<Expr>, depth: usize) -> (r: Context)
        ensures
            r@ == sem_car(self@, args@, depth as nat),
        decreases depth, 2nat, 0nat,
    {
        if args.list1().is_none() {
            self.fail(ErrorKind::MalformedForm)
        } else {
            let c = self.pre_eval_1(args, depth);
            match &*c.expr {
                Expr::Cons(head, _) => c.set_rcexpr(head.clone()),
                _ => self.after(&c).fail(ErrorKind::TypeMismatch),
            }
        }
    }

    /// `(cdr a)`, given its arguments: the second part of the value of `a`.
    /// The error sentinel where there is not exactly one argument, and where
    /// the value is no pair.
    pub fn eval_cdr(&self, args: &Rc<Expr>, depth: usize) -> (r: Context)
        ensures
            r@ == sem_cdr(self@, args@, depth as nat),
        decreases depth, 2nat, 0nat,
    {
        if args.list1().is_none() {
            self.fail(ErrorKind::MalformedForm)
        } else {
            let c = self.pre_eval_1(args, depth);
            match &*c.expr {
                Expr::Cons(_, tail) => c.set_rcexpr(tail.clone()),
                _ => self.after(&c).fail(ErrorKind::TypeMismatch),
            }
        }
    }

    /// `(def name e)`, given its arguments: evaluates `e`, binds `name` to
    /// the value and yields it. The error sentinel where there are not
    /// exactly two arguments, where `name` is no identifier, and where it is
    /// reserved; nothing is bound then.
    pub fn eval_def(&self, args: &Rc<Expr>, depth: usize) -> (r: Context)
        ensures
            r@ == sem_def(self@, args@, depth as nat),
        decreases depth, 2nat, 0nat,
    {
        match args.list2() {
            Some((target, e)) => match &*target {
                Expr::Ident(name) => {
                    let c = self.set_rcexpr(e).eval_at(depth);
                    c.add_env(name.clone(), c.expr.clone())
                },
                _ => self.fail(ErrorKind::MalformedForm),
            },
            None => self.fail(ErrorKind::MalformedForm),
        }
    }

    /// `(eval e)`, given its arguments: the value of the value of `e`. The
    /// error sentinel where there is not exactly one argument; if the first
    /// evaluation leaves the error flag set, there is no second one.
    pub fn eval_eval(&self, args: &Rc<Expr>, depth: usize) -> (r: Context)
        ensures
            r@ == sem_eval_form(self@, args@, depth as nat),
        decreases depth, 2nat, 0nat,
    {
        let c = self.pre_eval_1(args, depth);
        if c.has_error() {
            c
        } else {
            c.eval_at(depth)
        }
    }

    /// `(print-debug e)`, given its arguments: evaluates `e`, emits its
    /// value and yields the empty list. The error sentinel, with nothing
    /// emitted, where there is not exactly one argument.
    pub fn eval_print_debug(&self, args: &Rc<Expr>, depth: usize) -> (r: Context)
        ensures
            r@ == sem_print_debug(self@, args@, depth as nat),
        decreases depth, 2nat, 0nat,
    {
        if args.list1().is_none() {
            self.fail(ErrorKind::MalformedForm)
        } else {
            let c = self.pre_eval_1(args, depth);
            c.emit(c.expr.clone()).set_expr(Expr::Nil)
        }
    }

    /// `(defmacro name params body)`, given its arguments: the macro, which
    /// is bound to `name`. The error sentinel where there are not exactly
    /// three arguments, where `name` is no identifier, and where it is
    /// reserved.
    pub fn eval_defmacro(&self, args: &Rc<Expr>) -> (r: Context)
        ensures
            r@ == sem_defmacro(self@, args@),
    {
        match args.list3() {
            Some((name, params, body)) => match &*name {
                Expr::Ident(n) => {
                    let m = Rc::new(Expr::Macro(params, body));
                    self.set_rcexpr(m.clone()).add_env(n.clone(), m)
                },
                _ => self.fail(ErrorKind::MalformedForm),
            },
            None => self.fail(ErrorKind::MalformedForm),
        }
    }

    /// `(lambda [name] params body)`: builds a closure that captures, from
    /// the bindings of this context, exactly the free identifiers of its
    /// body.
    pub fn eval_lambda(&self, args: &Rc<Expr>) -> (r: Context)
        ensures
            r@ == sem_lambda(self@, args@),
    {
        match split_lambda(args) {
            None => self.fail(ErrorKind::MalformedForm),
            Some((name, params, body)) => {
                let mut ignore = NameSet::new();
                if !lambda_verify_args(&params, &mut ignore) {
                    return self.fail(ErrorKind::MalformedForm);
                }
                let ghost names = param_names(params@).unwrap();
                assert(ignore@ =~= names);
                if let Some(n) = &name {
                    ignore.insert(n.clone());
                }
                let mut ids = NameSet::new();
                collect_idents(&body, &mut ids, &ignore, false);
                assert(ids@ =~= free_idents(body@, ignore@, false));
                let captured = if ids.is_empty() {
                    None
                } else {
                    match capture(&self.env, &ids) {
                        Some(env) => Some(env),
                        None => {
                            return self.fail(ErrorKind::CaptureFailure);
                        },
                    }
                };
                let closure = Rc::new(Expr::Lambda(params, body, captured));
                let c = self.set_rcexpr(closure.clone());
                match name {
                    Some(n) => c.add_env(n, closure),
                    None => c,
                }
            },
        }
    }

    /// Binds the parameters `names` to the arguments `args` on top of this
    /// context. A macro's arguments are bound as they stand; a function's
    /// are evaluated first, each with the bindings of the call site `site`.
    pub fn eval_fn_args(
        &self,
        names: &Rc<Expr>,
        args: &Rc<Expr>,
        is_macro: bool,
        site: &Context,
        depth: usize,
    ) -> (r: Context)
        ensures
            r@ == sem_bind_args(self@, names@, args@, is_macro, site@, depth as nat),
        decreases depth, 1nat, names@.size(),
    {
        match &**names {
            Expr::Nil => match &**args {
                Expr::Nil => self.clone(),
                _ => self.fail(ErrorKind::MalformedForm),
            },
            Expr::Cons(first, rest) => match &**args {
                Expr::Cons(arg, more) => match &**first {
                    Expr::Ident(name) => {
                        assert(first@ == Sexp::Ident(name@));
                        let given = site.after(self).set_rcexpr(arg.clone());
                        let c = if is_macro {
                            given
                        } else {
                            given.eval_at(depth)
                        };
                        let next = self.after(&c).add_env(name.clone(), c.expr.clone());
                        next.eval_fn_args(rest, more, is_macro, site, depth)
                    },
                    _ => self.fail(ErrorKind::MalformedForm),
                },
                _ => self.fail(ErrorKind::MalformedForm),
            },
            _ => self.fail(ErrorKind::MalformedForm),
        }
    }

    /// Calls a closure.
    pub fn eval_fncall(
        &self,
        params: &Rc<Expr>,
        body: &Rc<Expr>,
        args: &Rc<Expr>,
        captured: &Option<Rc<Env>>,
        depth: usize,
    ) -> (r: Context)
        ensures
            r@ == sem_call(
                self@,
                params@,
                body@,
                args@,
                match captured {
                    Some(env) => Some(env@),
                    None => None,
                },
                depth as nat,
            ),
        decreases depth, 2nat, 0nat,
    {
        let start = self.set_env(merge_captured(&self.env, captured));
        let c = start.eval_fn_args(params, args, false, self, depth);
        if c.has_error() {
            self.give_up(&c)
        } else {
            c.set_rcexpr(body.clone()).eval_at(depth).set_env(self.env.clone())
        }
    }

    /// Calls a macro.
    pub fn eval_macro(&self, params: &Rc<Expr>, body: &Rc<Expr>, args: &Rc<Expr>, depth: usize) -> (r:
        Context)
        ensures
            r@ == sem_macro(self@, params@, body@, args@, depth as nat),
        decreases depth, 2nat, 0nat,
    {
        let c = self.eval_fn_args(params, args, true, self, depth);
        if c.has_error() {
            self.give_up(&c)
        } else {
            let expanded = c.set_rcexpr(body.clone()).eval_at(depth);
            expanded.set_env(self.env.clone()).eval_at(depth)
        }
    }

    /// Expands the quasiquoted expression of this context.
    pub fn eval_quasiquote(&self, depth: usize) -> (r: Context)
        ensures
            r@ == sem_quasi(self@, depth as nat),
        decreases depth, 1nat, self@.expr.size(),
    {
        match &*self.expr {
            Expr::Unquote(e) => self.set_rcexpr(e.clone()).eval_at(depth),
            Expr::Cons(head, tail) => {
                let c1 = self.set_rcexpr(head.clone()).eval_quasiquote(depth);
                let c2 = c1.set_rcexpr(tail.clone()).eval_quasiquote(depth);
                c2.set_expr(Expr::Cons(c1.expr.clone(), c2.expr.clone()))
            },
            _ => self.clone(),
        }
    }
}

/// The bindings that a call starts from: those of the call site, overridden
/// by what the closure captured.
fn merge_captured(site: &Rc<Env>, captured: &Option<Rc<Env>>) -> (r: Rc<Env>)
    ensures
        r@ == call_env(
            site@,
            match captured {
                Some(env) => Some(env@),
                None => None,
            },
        ),
{
    match captured {
        Some(env) => Env::merge(site, env),
        None => site.clone(),
    }
}

} // verus!
