//! The meaning of evaluation, as a function on mathematical states.
//!
//! `sem_eval(s, fuel)` is the state that evaluating the expression of `s`
//! leads to when evaluation may nest `fuel` applications deep. Each special
//! form has a function of its own, and all of them are defined together.
//! Evaluation of a program need not terminate; the fuel makes the definition
//! total: where it runs out, the result is the error sentinel with cause
//! `DepthExceeded`, marked as exhausted.
//!
//! Errors travel as ordinary values. A failed step yields the empty value
//! with the error flag set, and the flag then stays with every state derived
//! from that one. Most forms do not look at the flag of what they evaluated:
//! they go on with the empty value and, as a rule, fail on it themselves.
//! Where a form evaluates a part in a state of its own and then goes on from
//! an earlier state, the flag of that part is dropped; what the part emitted,
//! the record of its failures, and that it ran out of depth, are carried
//! over (`State::after`). So every failure is on record in the state that an
//! evaluation ends in, in the order in which the failures came.
//!
//! The definitions decrease by three numbers in turn: the fuel; a rank, which
//! orders the functions that call each other without using up fuel; and the
//! size of an expression, for the two functions that recur on its structure.

use crate::closure::{free_idents, lambda_parts, param_names};
use crate::context::{ErrorKind, State};
use crate::expr::{Bindings, Sexp};
use crate::float::{float_add, float_div, float_eq, float_mul, float_of_int, float_sub};
use crate::text::{keyword_of, Keyword};
use vstd::prelude::*;

verus! {

/// The four arithmetic primitives.
#[derive(Clone, Copy, Debug, PartialEq, Eq, Structural)]
pub enum ArithOp {
    Add,
    Sub,
    Mul,
    Div,
}

/// The quotient of `x` by a non-zero `y`, rounded toward zero.
pub open spec fn trunc_div(x: int, y: int) -> int {
    if x >= 0 && y > 0 {
        x / y
    } else if x < 0 && y < 0 {
        (-x) / (-y)
    } else if x < 0 {
        -((-x) / y)
    } else {
        -(x / (-y))
    }
}

/// The exact result of `op` on two integers, before any range check.
pub open spec fn int_result(op: ArithOp, x: int, y: int) -> int {
    match op {
        ArithOp::Add => x + y,
        ArithOp::Sub => x - y,
        ArithOp::Mul => x * y,
        ArithOp::Div => trunc_div(x, y),
    }
}

/// The result of `op` on two integers: `None` on division by zero, and where
/// the exact result does not fit.
pub open spec fn int_arith(op: ArithOp, x: i64, y: i64) -> Option<i64> {
    if op == ArithOp::Div && y == 0 {
        None
    } else if i64::MIN <= int_result(op, x as int, y as int) <= i64::MAX {
        Some(int_result(op, x as int, y as int) as i64)
    } else {
        None
    }
}

/// The result of `op` on two doubles, as bit patterns.
pub open spec fn float_arith(op: ArithOp, x: u64, y: u64) -> u64 {
    match op {
        ArithOp::Add => float_add(x, y),
        ArithOp::Sub => float_sub(x, y),
        ArithOp::Mul => float_mul(x, y),
        ArithOp::Div => float_div(x, y),
    }
}

/// A number as a double: a double as it is, an integer widened to the
/// nearest double. Anything else is no number.
pub open spec fn as_double(e: Sexp) -> Option<u64> {
    match e {
        Sexp::Integer(x) => Some(float_of_int(x)),
        Sexp::Float(x) => Some(x),
        _ => None,
    }
}

/// The value of an arithmetic primitive on two evaluated operands, given
/// the double that the operation yields on them as doubles. Two integers
/// give an integer, or an arithmetic error where there is none; two numbers
/// of which one is a double give that double; any other operand is a type
/// error.
pub open spec fn promote(op: ArithOp, a: Sexp, b: Sexp, double: u64) -> Result<Sexp, ErrorKind> {
    match (a, b) {
        (Sexp::Integer(x), Sexp::Integer(y)) => match int_arith(op, x, y) {
            Some(v) => Ok(Sexp::Integer(v)),
            None => Err(ErrorKind::Arithmetic),
        },
        (Sexp::Integer(_), Sexp::Float(_)) => Ok(Sexp::Float(double)),
        (Sexp::Float(_), Sexp::Integer(_)) => Ok(Sexp::Float(double)),
        (Sexp::Float(_), Sexp::Float(_)) => Ok(Sexp::Float(double)),
        _ => Err(ErrorKind::TypeMismatch),
    }
}

/// The value of an arithmetic primitive on two evaluated operands. Two
/// integers give an integer; where one operand is a double, the other is
/// widened and the result is a double; any other operand is a type error.
pub open spec fn arith_value(op: ArithOp, a: Sexp, b: Sexp) -> Result<Sexp, ErrorKind> {
    match (as_double(a), as_double(b)) {
        (Some(x), Some(y)) => promote(op, a, b, float_arith(op, x, y)),
        _ => Err(ErrorKind::TypeMismatch),
    }
}

/// Whether two mappings bind the same, finitely many, names, each to equal
/// values.
pub open spec fn bindings_equal(m1: Bindings, m2: Bindings) -> bool
    decreases m1,
{
    &&& m1.dom().finite()
    &&& m1.dom() =~= m2.dom()
    &&& forall|k: Seq<char>| m1.dom().contains(k) ==> sexp_equal(#[trigger] m1[k], m2[k])
}

/// Structural equality, as the `=` primitive decides it: two values are
/// equal when they are of the same variant and their parts are equal. Doubles
/// are compared as IEEE-754 numbers, so that a NaN is not equal to itself,
/// and captured bindings as mappings.
pub open spec fn sexp_equal(a: Sexp, b: Sexp) -> bool
    decreases a,
{
    match (a, b) {
        (Sexp::Nil, Sexp::Nil) => true,
        (Sexp::Integer(x), Sexp::Integer(y)) => x == y,
        (Sexp::Float(x), Sexp::Float(y)) => float_eq(x, y),
        (Sexp::String(x), Sexp::String(y)) => x == y,
        (Sexp::Ident(x), Sexp::Ident(y)) => x == y,
        (Sexp::Cons(a1, a2), Sexp::Cons(b1, b2)) => sexp_equal(*a1, *b1) && sexp_equal(*a2, *b2),
        (Sexp::Quote(x), Sexp::Quote(y)) => sexp_equal(*x, *y),
        (Sexp::Quasiquote(x), Sexp::Quasiquote(y)) => sexp_equal(*x, *y),
        (Sexp::Unquote(x), Sexp::Unquote(y)) => sexp_equal(*x, *y),
        (Sexp::Lambda(p1, b1, c1), Sexp::Lambda(p2, b2, c2)) => sexp_equal(*p1, *p2) && sexp_equal(
            *b1,
            *b2,
        ) && match (c1, c2) {
            (None, None) => true,
            (Some(m1), Some(m2)) => bindings_equal(m1, m2),
            _ => false,
        },
        (Sexp::Macro(p1, b1), Sexp::Macro(p2, b2)) => sexp_equal(*p1, *p2) && sexp_equal(*b1, *b2),
        _ => false,
    }
}

/// The truth value that `=` returns: the identifier `t`, or the empty list.
pub open spec fn truth(b: bool) -> Sexp {
    if b {
        Sexp::Ident("t"@)
    } else {
        Sexp::Nil
    }
}

/// The bindings that a call starts from: those at the call site, overridden
/// by what the closure captured.
pub open spec fn call_env(site: Bindings, captured: Option<Bindings>) -> Bindings {
    match captured {
        Some(c) => site.union_prefer_right(c),
        None => site,
    }
}

/// The value of `(lambda [name] params body)` in state `s`.
///
/// The closure captures, from the bindings of `s`, exactly the free
/// identifiers of the body, the parameters and the closure's own name not
/// counted among them; it captures nothing (`None`) where there is none. If
/// one of them is unbound, no closure is built. A name, where given, is
/// bound to the closure.
pub open spec fn sem_lambda(s: State, args: Sexp) -> State {
    match lambda_parts(args) {
        None => s.fail(ErrorKind::MalformedForm),
        Some((name, params, body)) => match param_names(params) {
            None => s.fail(ErrorKind::MalformedForm),
            Some(names) => {
                let ignore = match name {
                    Some(n) => names.insert(n),
                    None => names,
                };
                let free = free_idents(body, ignore, false);
                if !free.subset_of(s.env.dom()) {
                    s.fail(ErrorKind::CaptureFailure)
                } else {
                    let captured = if free =~= Set::empty() {
                        None
                    } else {
                        Some(s.env.restrict(free))
                    };
                    let closure = Sexp::Lambda(Box::new(params), Box::new(body), captured);
                    match name {
                        Some(n) => s.with_expr(closure).bind(n, closure),
                        None => s.with_expr(closure),
                    }
                }
            },
        },
    }
}

/// The value of `(defmacro name params body)` in state `s`: the macro, which
/// is bound to `name`.
pub open spec fn sem_defmacro(s: State, args: Sexp) -> State {
    match args.list3() {
        Some((name, params, body)) => match name {
            Sexp::Ident(n) => {
                let m = Sexp::Macro(Box::new(params), Box::new(body));
                s.with_expr(m).bind(n, m)
            },
            _ => s.fail(ErrorKind::MalformedForm),
        },
        None => s.fail(ErrorKind::MalformedForm),
    }
}

/// Evaluation of the expression of `s`.
///
/// Literals, closures and macros are values: the state stays as it is. A
/// quote yields what it holds, an identifier what it is bound to. None of
/// these needs fuel. A quasiquote is expanded and a pair is an application,
/// each one level deeper: with no fuel left, evaluation is exhausted.
pub open spec fn sem_eval(s: State, fuel: nat) -> State
    decreases fuel, 0nat, 0nat,
{
    match s.expr {
        Sexp::Quote(e) => s.with_expr(*e),
        Sexp::Ident(name) => s.lookup(name),
        Sexp::Quasiquote(e) => if fuel == 0 {
            s.exhaust()
        } else {
            sem_quasi(s.with_expr(*e), (fuel - 1) as nat)
        },
        Sexp::Cons(head, tail) => if fuel == 0 {
            s.exhaust()
        } else {
            sem_apply(s, *head, *tail, (fuel - 1) as nat)
        },
        _ => s,
    }
}

/// Application of `head` to the unevaluated arguments `tail` in state `s`.
///
/// An identifier names a special form or a binding, a closure is called, a
/// macro is expanded. A pair is evaluated first, one level deeper, and what
/// it evaluates to is applied in the state that its evaluation led to.
/// Nothing else can be applied.
pub open spec fn sem_apply(s: State, head: Sexp, tail: Sexp, fuel: nat) -> State
    decreases fuel, 4nat, 0nat,
{
    match head {
        Sexp::Ident(name) => sem_form(s, name, tail, fuel),
        Sexp::Lambda(params, body, captured) => sem_call(s, *params, *body, tail, captured, fuel),
        Sexp::Macro(params, body) => sem_macro(s, *params, *body, tail, fuel),
        Sexp::Cons(_, _) => if fuel == 0 {
            s.exhaust()
        } else {
            let c = sem_eval(s.with_expr(head), (fuel - 1) as nat);
            sem_apply(c, c.expr, tail, (fuel - 1) as nat)
        },
        _ => s.fail(ErrorKind::NotCallable),
    }
}

/// Application of the identifier `name`: a special form if `name` is a
/// keyword, else the application, one level deeper, of what `name` is bound
/// to. If `name` is unbound, or the error flag of `s` is set, nothing is
/// applied: the result is that of the lookup.
pub open spec fn sem_form(s: State, name: Seq<char>, args: Sexp, fuel: nat) -> State
    decreases fuel, 3nat, 0nat,
{
    match keyword_of(name) {
        Some(Keyword::If) => sem_if(s, args, fuel),
        Some(Keyword::Def) => sem_def(s, args, fuel),
        Some(Keyword::Lambda) => sem_lambda(s, args),
        Some(Keyword::Defmacro) => sem_defmacro(s, args),
        Some(Keyword::Eval) => sem_eval_form(s, args, fuel),
        Some(Keyword::PrintDebug) => sem_print_debug(s, args, fuel),
        Some(Keyword::Plus) => sem_arith(s, ArithOp::Add, args, fuel),
        Some(Keyword::Minus) => sem_arith(s, ArithOp::Sub, args, fuel),
        Some(Keyword::Times) => sem_arith(s, ArithOp::Mul, args, fuel),
        Some(Keyword::Divide) => sem_arith(s, ArithOp::Div, args, fuel),
        Some(Keyword::Equal) => sem_equal(s, args, fuel),
        Some(Keyword::Car) => sem_car(s, args, fuel),
        Some(Keyword::Cdr) => sem_cdr(s, args, fuel),
        Some(Keyword::Cons) => sem_cons(s, args, fuel),
        None => {
            let c = s.lookup(name);
            if c.error {
                c
            } else if fuel == 0 {
                s.exhaust()
            } else {
                sem_apply(s, c.expr, args, (fuel - 1) as nat)
            }
        },
    }
}

/// `(if p t f)`: `f` if `p` evaluates to the empty list, else `t`.
pub open spec fn sem_if(s: State, args: Sexp, fuel: nat) -> State
    decreases fuel, 2nat, 0nat,
{
    match args.list3() {
        Some((p, t, f)) => sem_if_form(s, p, t, f, fuel),
        None => s.fail(ErrorKind::MalformedForm),
    }
}

/// The branch that the value of `p` selects, evaluated in the state that the
/// evaluation of `p` led to.
pub open spec fn sem_if_form(s: State, p: Sexp, t: Sexp, f: Sexp, fuel: nat) -> State
    decreases fuel, 1nat, 0nat,
{
    let c = sem_eval(s.with_expr(p), fuel);
    match c.expr {
        Sexp::Nil => sem_eval(c.with_expr(f), fuel),
        _ => sem_eval(c.with_expr(t), fuel),
    }
}

/// The evaluation of the one argument in `args`.
pub open spec fn sem_pre1(s: State, args: Sexp, fuel: nat) -> State
    decreases fuel, 1nat, 0nat,
{
    match args.list1() {
        Some(e) => sem_eval(s.with_expr(e), fuel),
        None => s.fail(ErrorKind::MalformedForm),
    }
}

/// The evaluation of the two arguments in `args`: the two values and the
/// state after the second. Each argument is evaluated with the bindings of
/// `s`: a binding made by the first is not seen by the second.
pub open spec fn sem_pre2(s: State, args: Sexp, fuel: nat) -> (Sexp, Sexp, State)
    decreases fuel, 1nat, 0nat,
{
    match args.list2() {
        Some((e1, e2)) => {
            let c1 = sem_eval(s.with_expr(e1), fuel);
            let c2 = sem_eval(s.after(c1).with_expr(e2), fuel);
            (c1.expr, c2.expr, c2)
        },
        None => (Sexp::Nil, Sexp::Nil, s.fail(ErrorKind::MalformedForm)),
    }
}

/// `(op a b)` for an arithmetic primitive: the value of the operation on the
/// values of `a` and `b`, in the state after `b`. Without exactly two
/// arguments the form is malformed; where the operation has no value, the
/// result is the sentinel of `s`.
pub open spec fn sem_arith(s: State, op: ArithOp, args: Sexp, fuel: nat) -> State
    decreases fuel, 2nat, 0nat,
{
    if args.list2().is_none() {
        s.fail(ErrorKind::MalformedForm)
    } else {
        let (a, b, c) = sem_pre2(s, args, fuel);
        match arith_value(op, a, b) {
            Ok(v) => c.with_expr(v),
            Err(kind) => s.after(c).fail(kind),
        }
    }
}

/// `(= a b)`: the identifier `t` if the values of `a` and `b` are
/// structurally equal, the empty list if not, in the state after `b`.
/// Without exactly two arguments the form is malformed.
pub open spec fn sem_equal(s: State, args: Sexp, fuel: nat) -> State
    decreases fuel, 2nat, 0nat,
{
    if args.list2().is_none() {
        s.fail(ErrorKind::MalformedForm)
    } else {
        let (a, b, c) = sem_pre2(s, args, fuel);
        c.with_expr(truth(sexp_equal(a, b)))
    }
}

/// `(cons a b)`: the pair of the values of `a` and `b`, in the state after
/// `b`. Without exactly two arguments the form is malformed.
pub open spec fn sem_cons(s: State, args: Sexp, fuel: nat) -> State
    decreases fuel, 2nat, 0nat,
{
    if args.list2().is_none() {
        s.fail(ErrorKind::MalformedForm)
    } else {
        let (a, b, c) = sem_pre2(s, args, fuel);
        c.with_expr(Sexp::Cons(Box::new(a), Box::new(b)))
    }
}

/// `(car a)`: the first part of the value of `a`, which must be a pair.
pub open spec fn sem_car(s: State, args: Sexp, fuel: nat) -> State
    decreases fuel, 2nat, 0nat,
{
    if args.list1().is_none() {
        s.fail(ErrorKind::MalformedForm)
    } else {
        let c = sem_pre1(s, args, fuel);
        match c.expr {
            Sexp::Cons(head, _) => c.with_expr(*head),
            _ => s.after(c).fail(ErrorKind::TypeMismatch),
        }
    }
}

/// `(cdr a)`: the second part of the value of `a`, which must be a pair.
pub open spec fn sem_cdr(s: State, args: Sexp, fuel: nat) -> State
    decreases fuel, 2nat, 0nat,
{
    if args.list1().is_none() {
        s.fail(ErrorKind::MalformedForm)
    } else {
        let c = sem_pre1(s, args, fuel);
        match c.expr {
            Sexp::Cons(_, tail) => c.with_expr(*tail),
            _ => s.after(c).fail(ErrorKind::TypeMismatch),
        }
    }
}

/// `(def name e)`: the value of `e`, which `name` is bound to. Where `name`
/// is reserved nothing is bound, and the result is the error sentinel of the
/// state that the evaluation of `e` led to. Without exactly two arguments,
/// or with a first one that is no identifier, the form is malformed and
/// nothing is evaluated.
pub open spec fn sem_def(s: State, args: Sexp, fuel: nat) -> State
    decreases fuel, 2nat, 0nat,
{
    match args.list2() {
        Some((target, e)) => match target {
            Sexp::Ident(name) => {
                let c = sem_eval(s.with_expr(e), fuel);
                c.bind(name, c.expr)
            },
            _ => s.fail(ErrorKind::MalformedForm),
        },
        None => s.fail(ErrorKind::MalformedForm),
    }
}

/// `(eval e)`: the value of the value of `e`. If the first evaluation leaves
/// the error flag set, there is no second one.
pub open spec fn sem_eval_form(s: State, args: Sexp, fuel: nat) -> State
    decreases fuel, 2nat, 0nat,
{
    let c = sem_pre1(s, args, fuel);
    if c.error {
        c
    } else {
        sem_eval(c, fuel)
    }
}

/// `(print-debug e)`: emits the value of `e` and yields the empty list.
/// Without exactly one argument the form is malformed, and nothing is
/// emitted.
pub open spec fn sem_print_debug(s: State, args: Sexp, fuel: nat) -> State
    decreases fuel, 2nat, 0nat,
{
    if args.list1().is_none() {
        s.fail(ErrorKind::MalformedForm)
    } else {
        let c = sem_pre1(s, args, fuel);
        c.emit(c.expr).with_expr(Sexp::Nil)
    }
}

/// Binds the parameters `names` to the arguments `args`, one by one, on top
/// of `chain`. A macro's arguments are bound as they stand; a function's are
/// evaluated first, each with the bindings of the call site `site`, and an
/// argument that fails is bound as the empty list. The two lists must be
/// equally long, and every parameter an identifier that is not reserved.
pub open spec fn sem_bind_args(
    chain: State,
    names: Sexp,
    args: Sexp,
    is_macro: bool,
    site: State,
    fuel: nat,
) -> State
    decreases fuel, 1nat, names.size(),
{
    match names {
        Sexp::Nil => match args {
            Sexp::Nil => chain,
            _ => chain.fail(ErrorKind::MalformedForm),
        },
        Sexp::Cons(first, rest) => match args {
            Sexp::Cons(arg, more) => match *first {
                Sexp::Ident(name) => {
                    let given = site.after(chain).with_expr(*arg);
                    let c = if is_macro {
                        given
                    } else {
                        sem_eval(given, fuel)
                    };
                    sem_bind_args(
                        chain.after(c).bind(name, c.expr),
                        *rest,
                        *more,
                        is_macro,
                        site,
                        fuel,
                    )
                },
                _ => chain.fail(ErrorKind::MalformedForm),
            },
            _ => chain.fail(ErrorKind::MalformedForm),
        },
        _ => chain.fail(ErrorKind::MalformedForm),
    }
}

/// The call of a closure: the body is evaluated with the bindings of the
/// call site, overridden by the captured ones and then by the parameters.
/// The result has the bindings of the call site again. If binding the
/// parameters leaves the error flag set, the body is not evaluated.
pub open spec fn sem_call(
    s: State,
    params: Sexp,
    body: Sexp,
    args: Sexp,
    captured: Option<Bindings>,
    fuel: nat,
) -> State
    decreases fuel, 2nat, 0nat,
{
    let c = sem_bind_args(s.with_env(call_env(s.env, captured)), params, args, false, s, fuel);
    if c.error {
        s.give_up(c)
    } else {
        sem_eval(c.with_expr(body), fuel).with_env(s.env)
    }
}

/// The call of a macro: the body is evaluated with the parameters bound to
/// the unevaluated arguments, and what it yields is evaluated with the
/// bindings of the call site.
pub open spec fn sem_macro(s: State, params: Sexp, body: Sexp, args: Sexp, fuel: nat) -> State
    decreases fuel, 2nat, 0nat,
{
    let c = sem_bind_args(s, params, args, true, s, fuel);
    if c.error {
        s.give_up(c)
    } else {
        let expanded = sem_eval(c.with_expr(body), fuel);
        sem_eval(expanded.with_env(s.env), fuel)
    }
}

/// Expansion of the quasiquoted expression of `s`: an unquote is replaced by
/// the value of what it holds, a pair is rebuilt from the expansions of its
/// two sides, and anything else stands as it is.
pub open spec fn sem_quasi(s: State, fuel: nat) -> State
    decreases fuel, 1nat, s.expr.size(),
{
    match s.expr {
        Sexp::Unquote(e) => sem_eval(s.with_expr(*e), fuel),
        Sexp::Cons(head, tail) => {
            let c1 = sem_quasi(s.with_expr(*head), fuel);
            let c2 = sem_quasi(c1.with_expr(*tail), fuel);
            c2.with_expr(Sexp::Cons(Box::new(c1.expr), Box::new(c2.expr)))
        },
        _ => s,
    }
}

/// Evaluation of the forms of a program in turn, each in the state that the
/// one before it led to. A form that fails does not stop the ones after it.
pub open spec fn sem_program(s: State, forms: Seq<Sexp>, fuel: nat) -> State
    decreases forms.len(),
{
    if forms.len() == 0 {
        s
    } else {
        sem_eval(sem_program(s, forms.drop_last(), fuel).with_expr(forms.last()), fuel)
    }
}

} // verus!
