//! What evaluation leaves alone: the nesting limit never changes, that
//! evaluation ran out of depth is never forgotten, and what was emitted and
//! the record of failures are never lost.

use crate::context::State;
use crate::expr::{Bindings, Sexp};
use crate::semantics::{
    call_env,
    sem_apply,
    sem_arith,
    sem_bind_args,
    sem_call,
    sem_car,
    sem_cdr,
    sem_cons,
    sem_def,
    sem_defmacro,
    sem_equal,
    sem_eval,
    sem_eval_form,
    sem_form,
    sem_if,
    sem_if_form,
    sem_lambda,
    sem_macro,
    sem_pre1,
    sem_pre2,
    sem_print_debug,
    sem_program,
    sem_quasi,
    ArithOp,
};
use crate::text::{keyword_of, Keyword};
use vstd::prelude::*;

verus! {

/// Whether `after` has the nesting limit of `before`, has run out of depth
/// if `before` has, and has emitted what `before` has emitted, and has on
/// record the failures that `before` has on record, each in the same order
/// and possibly with more after it.
pub open spec fn keeps(before: State, after: State) -> bool {
    &&& after.limit == before.limit
    &&& before.exhausted ==> after.exhausted
    &&& before.printed.is_prefix_of(after.printed)
    &&& before.failures.is_prefix_of(after.failures)
}

/// Evaluation keeps the nesting limit, never forgets that it ran out of
/// depth, and never loses what was emitted or a failure on record: the state
/// that an evaluation leads to has the limit of the state that it began in,
/// is marked as exhausted if that one is, and has emitted, and has on
/// record, all that that one has, in the same order, before anything new.
/// This holds whether or not an error flag was dropped in between.
pub proof fn law_eval_keeps(s: State, fuel: nat)
    ensures
        keeps(s, sem_eval(s, fuel)),
    decreases fuel, 0nat, 0nat,
{
    match s.expr {
        Sexp::Quasiquote(e) => {
            if fuel > 0 {
                lemma_quasi_keeps(s.with_expr(*e), (fuel - 1) as nat);
            }
        },
        Sexp::Cons(head, tail) => {
            if fuel > 0 {
                lemma_apply_keeps(s, *head, *tail, (fuel - 1) as nat);
            }
        },
        _ => {},
    }
}

/// A program keeps the nesting limit, never forgets that it ran out of
/// depth, and never loses what was emitted or a failure on record.
pub proof fn law_program_keeps(s: State, forms: Seq<Sexp>, fuel: nat)
    ensures
        keeps(s, sem_program(s, forms, fuel)),
    decreases forms.len(),
{
    if forms.len() > 0 {
        law_program_keeps(s, forms.drop_last(), fuel);
        law_eval_keeps(sem_program(s, forms.drop_last(), fuel).with_expr(forms.last()), fuel);
    }
}

pub(crate) proof fn lemma_apply_keeps(s: State, head: Sexp, tail: Sexp, fuel: nat)
    ensures
        keeps(s, sem_apply(s, head, tail, fuel)),
    decreases fuel, 4nat, 0nat,
{
    match head {
        Sexp::Ident(name) => lemma_form_keeps(s, name, tail, fuel),
        Sexp::Lambda(params, body, captured) => lemma_call_keeps(
            s,
            *params,
            *body,
            tail,
            captured,
            fuel,
        ),
        Sexp::Macro(params, body) => lemma_macro_keeps(s, *params, *body, tail, fuel),
        Sexp::Cons(_, _) => {
            if fuel > 0 {
                let c = sem_eval(s.with_expr(head), (fuel - 1) as nat);
                law_eval_keeps(s.with_expr(head), (fuel - 1) as nat);
                lemma_apply_keeps(c, c.expr, tail, (fuel - 1) as nat);
            }
        },
        _ => {},
    }
}

pub(crate) proof fn lemma_form_keeps(s: State, name: Seq<char>, args: Sexp, fuel: nat)
    ensures
        keeps(s, sem_form(s, name, args, fuel)),
    decreases fuel, 3nat, 0nat,
{
    match keyword_of(name) {
        Some(Keyword::If) => lemma_if_keeps(s, args, fuel),
        Some(Keyword::Def) => lemma_def_keeps(s, args, fuel),
        Some(Keyword::Lambda) => lemma_lambda_keeps(s, args),
        Some(Keyword::Defmacro) => lemma_defmacro_keeps(s, args),
        Some(Keyword::Eval) => lemma_eval_form_keeps(s, args, fuel),
        Some(Keyword::PrintDebug) => lemma_print_debug_keeps(s, args, fuel),
        Some(Keyword::Plus) => lemma_arith_keeps(s, ArithOp::Add, args, fuel),
        Some(Keyword::Minus) => lemma_arith_keeps(s, ArithOp::Sub, args, fuel),
        Some(Keyword::Times) => lemma_arith_keeps(s, ArithOp::Mul, args, fuel),
        Some(Keyword::Divide) => lemma_arith_keeps(s, ArithOp::Div, args, fuel),
        Some(Keyword::Equal) => lemma_equal_keeps(s, args, fuel),
        Some(Keyword::Car) => lemma_car_cdr_keeps(s, args, fuel),
        Some(Keyword::Cdr) => lemma_car_cdr_keeps(s, args, fuel),
        Some(Keyword::Cons) => lemma_cons_keeps(s, args, fuel),
        None => {
            let c = s.lookup(name);
            if !c.error && fuel > 0 {
                lemma_apply_keeps(s, c.expr, args, (fuel - 1) as nat);
            }
        },
    }
}

pub(crate) proof fn lemma_lambda_keeps(s: State, args: Sexp)
    ensures
        keeps(s, sem_lambda(s, args)),
{
}

pub(crate) proof fn lemma_defmacro_keeps(s: State, args: Sexp)
    ensures
        keeps(s, sem_defmacro(s, args)),
{
}

pub(crate) proof fn lemma_if_keeps(s: State, args: Sexp, fuel: nat)
    ensures
        keeps(s, sem_if(s, args, fuel)),
    decreases fuel, 2nat, 0nat,
{
    match args.list3() {
        Some((p, t, f)) => lemma_if_form_keeps(s, p, t, f, fuel),
        None => {},
    }
}

pub(crate) proof fn lemma_if_form_keeps(s: State, p: Sexp, t: Sexp, f: Sexp, fuel: nat)
    ensures
        keeps(s, sem_if_form(s, p, t, f, fuel)),
    decreases fuel, 1nat, 0nat,
{
    let c = sem_eval(s.with_expr(p), fuel);
    law_eval_keeps(s.with_expr(p), fuel);
    law_eval_keeps(c.with_expr(f), fuel);
    law_eval_keeps(c.with_expr(t), fuel);
}

pub(crate) proof fn lemma_pre1_keeps(s: State, args: Sexp, fuel: nat)
    ensures
        keeps(s, sem_pre1(s, args, fuel)),
    decreases fuel, 1nat, 0nat,
{
    match args.list1() {
        Some(e) => law_eval_keeps(s.with_expr(e), fuel),
        None => {},
    }
}

pub(crate) proof fn lemma_pre2_keeps(s: State, args: Sexp, fuel: nat)
    ensures
        keeps(s, sem_pre2(s, args, fuel).2),
    decreases fuel, 1nat, 0nat,
{
    match args.list2() {
        Some((e1, e2)) => {
            let c1 = sem_eval(s.with_expr(e1), fuel);
            law_eval_keeps(s.with_expr(e1), fuel);
            law_eval_keeps(s.after(c1).with_expr(e2), fuel);
        },
        None => {},
    }
}

pub(crate) proof fn lemma_arith_keeps(s: State, op: ArithOp, args: Sexp, fuel: nat)
    ensures
        keeps(s, sem_arith(s, op, args, fuel)),
    decreases fuel, 2nat, 0nat,
{
    lemma_pre2_keeps(s, args, fuel);
}

pub(crate) proof fn lemma_equal_keeps(s: State, args: Sexp, fuel: nat)
    ensures
        keeps(s, sem_equal(s, args, fuel)),
    decreases fuel, 2nat, 0nat,
{
    lemma_pre2_keeps(s, args, fuel);
}

pub(crate) proof fn lemma_cons_keeps(s: State, args: Sexp, fuel: nat)
    ensures
        keeps(s, sem_cons(s, args, fuel)),
    decreases fuel, 2nat, 0nat,
{
    lemma_pre2_keeps(s, args, fuel);
}

pub(crate) proof fn lemma_car_cdr_keeps(s: State, args: Sexp, fuel: nat)
    ensures
        keeps(s, sem_car(s, args, fuel)),
        keeps(s, sem_cdr(s, args, fuel)),
    decreases fuel, 2nat, 0nat,
{
    lemma_pre1_keeps(s, args, fuel);
}

pub(crate) proof fn lemma_def_keeps(s: State, args: Sexp, fuel: nat)
    ensures
        keeps(s, sem_def(s, args, fuel)),
    decreases fuel, 2nat, 0nat,
{
    match args.list2() {
        Some((target, e)) => law_eval_keeps(s.with_expr(e), fuel),
        None => {},
    }
}

pub(crate) proof fn lemma_eval_form_keeps(s: State, args: Sexp, fuel: nat)
    ensures
        keeps(s, sem_eval_form(s, args, fuel)),
    decreases fuel, 2nat, 0nat,
{
    lemma_pre1_keeps(s, args, fuel);
    law_eval_keeps(sem_pre1(s, args, fuel), fuel);
}

pub(crate) proof fn lemma_print_debug_keeps(s: State, args: Sexp, fuel: nat)
    ensures
        keeps(s, sem_print_debug(s, args, fuel)),
    decreases fuel, 2nat, 0nat,
{
    lemma_pre1_keeps(s, args, fuel);
}

pub(crate) proof fn lemma_bind_args_keeps(
    chain: State,
    names: Sexp,
    args: Sexp,
    is_macro: bool,
    site: State,
    fuel: nat,
)
    ensures
        keeps(chain, sem_bind_args(chain, names, args, is_macro, site, fuel)),
    decreases fuel, 1nat, names.size(),
{
    match names {
        Sexp::Cons(first, rest) => match args {
            Sexp::Cons(arg, more) => match *first {
                Sexp::Ident(name) => {
                    let given = site.after(chain).with_expr(*arg);
                    let c = if is_macro {
                        given
                    } else {
                        sem_eval(given, fuel)
                    };
                    if !is_macro {
                        law_eval_keeps(given, fuel);
                    }
                    lemma_bind_args_keeps(
                        chain.after(c).bind(name, c.expr),
                        *rest,
                        *more,
                        is_macro,
                        site,
                        fuel,
                    );
                },
                _ => {},
            },
            _ => {},
        },
        _ => {},
    }
}

pub(crate) proof fn lemma_call_keeps(
    s: State,
    params: Sexp,
    body: Sexp,
    args: Sexp,
    captured: Option<Bindings>,
    fuel: nat,
)
    ensures
        keeps(s, sem_call(s, params, body, args, captured, fuel)),
    decreases fuel, 2nat, 0nat,
{
    let start = s.with_env(call_env(s.env, captured));
    let c = sem_bind_args(start, params, args, false, s, fuel);
    lemma_bind_args_keeps(start, params, args, false, s, fuel);
    law_eval_keeps(c.with_expr(body), fuel);
}

pub(crate) proof fn lemma_macro_keeps(s: State, params: Sexp, body: Sexp, args: Sexp, fuel: nat)
    ensures
        keeps(s, sem_macro(s, params, body, args, fuel)),
    decreases fuel, 2nat, 0nat,
{
    let c = sem_bind_args(s, params, args, true, s, fuel);
    lemma_bind_args_keeps(s, params, args, true, s, fuel);
    let expanded = sem_eval(c.with_expr(body), fuel);
    law_eval_keeps(c.with_expr(body), fuel);
    law_eval_keeps(expanded.with_env(s.env), fuel);
}

pub(crate) proof fn lemma_quasi_keeps(s: State, fuel: nat)
    ensures
        keeps(s, sem_quasi(s, fuel)),
    decreases fuel, 1nat, s.expr.size(),
{
    match s.expr {
        Sexp::Unquote(e) => law_eval_keeps(s.with_expr(*e), fuel),
        Sexp::Cons(head, tail) => {
            let c1 = sem_quasi(s.with_expr(*head), fuel);
            lemma_quasi_keeps(s.with_expr(*head), fuel);
            lemma_quasi_keeps(c1.with_expr(*tail), fuel);
        },
        _ => {},
    }
}

} // verus!
