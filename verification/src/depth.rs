//! The nesting limit cuts evaluation short and does nothing else: a result
//! that was reached without running out of depth is the result at every
//! greater depth too.

use crate::context::State;
use crate::expr::{Bindings, Sexp};
use crate::frame::{
    law_eval_keeps,
    lemma_apply_keeps,
    lemma_bind_args_keeps,
    lemma_quasi_keeps,
};
use crate::semantics::{
    call_env,
    sem_apply,
    sem_arith,
    sem_bind_args,
    sem_call,
    sem_car,
    sem_cdr,
    sem_cons,
    sem_def,
    sem_equal,
    sem_eval,
    sem_eval_form,
    sem_form,
    sem_if,
    sem_if_form,
    sem_macro,
    sem_pre1,
    sem_pre2,
    sem_print_debug,
    sem_program,
    sem_quasi,
    ArithOp,
};
use crate::text::{keyword_of, Keyword};
use vstd::prelude::*;

verus! {

/// An evaluation that did not run out of depth has the same result at every
/// greater depth.
pub proof fn law_deeper_changes_nothing(s: State, fuel: nat, more: nat)
    requires
        !sem_eval(s, fuel).exhausted,
    ensures
        sem_eval(s, fuel + more) == sem_eval(s, fuel),
    decreases more,
{
    if more > 0 {
        law_deeper_changes_nothing(s, fuel, (more - 1) as nat);
        lemma_eval_stable(s, (fuel + more - 1) as nat);
    }
}

/// A program that did not run out of depth has the same result at every
/// greater depth.
pub proof fn law_deeper_changes_no_program(s: State, forms: Seq<Sexp>, fuel: nat, more: nat)
    requires
        !sem_program(s, forms, fuel).exhausted,
    ensures
        sem_program(s, forms, fuel + more) == sem_program(s, forms, fuel),
    decreases forms.len(),
{
    if forms.len() > 0 {
        let before = sem_program(s, forms.drop_last(), fuel);
        law_eval_keeps(before.with_expr(forms.last()), fuel);
        law_deeper_changes_no_program(s, forms.drop_last(), fuel, more);
        law_deeper_changes_nothing(before.with_expr(forms.last()), fuel, more);
    }
}

/// One more level of depth changes no evaluation that did not run out of
/// depth.
pub proof fn lemma_eval_stable(s: State, fuel: nat)
    requires
        !sem_eval(s, fuel).exhausted,
    ensures
        sem_eval(s, fuel + 1) == sem_eval(s, fuel),
    decreases fuel, 0nat, 0nat,
{
    match s.expr {
        Sexp::Quasiquote(e) => {
            if fuel > 0 {
                lemma_quasi_stable(s.with_expr(*e), (fuel - 1) as nat);
            }
        },
        Sexp::Cons(head, tail) => {
            if fuel > 0 {
                lemma_apply_stable(s, *head, *tail, (fuel - 1) as nat);
            }
        },
        _ => {},
    }
}

proof fn lemma_apply_stable(s: State, head: Sexp, tail: Sexp, fuel: nat)
    requires
        !sem_apply(s, head, tail, fuel).exhausted,
    ensures
        sem_apply(s, head, tail, fuel + 1) == sem_apply(s, head, tail, fuel),
    decreases fuel, 4nat, 0nat,
{
    match head {
        Sexp::Ident(name) => lemma_form_stable(s, name, tail, fuel),
        Sexp::Lambda(params, body, captured) => lemma_call_stable(
            s,
            *params,
            *body,
            tail,
            captured,
            fuel,
        ),
        Sexp::Macro(params, body) => lemma_macro_stable(s, *params, *body, tail, fuel),
        Sexp::Cons(_, _) => {
            if fuel > 0 {
                let f = (fuel - 1) as nat;
                let c = sem_eval(s.with_expr(head), f);
                lemma_apply_keeps(c, c.expr, tail, f);
                lemma_eval_stable(s.with_expr(head), f);
                lemma_apply_stable(c, c.expr, tail, f);
            }
        },
        _ => {},
    }
}

proof fn lemma_form_stable(s: State, name: Seq<char>, args: Sexp, fuel: nat)
    requires
        !sem_form(s, name, args, fuel).exhausted,
    ensures
        sem_form(s, name, args, fuel + 1) == sem_form(s, name, args, fuel),
    decreases fuel, 3nat, 0nat,
{
    match keyword_of(name) {
        Some(Keyword::If) => lemma_if_stable(s, args, fuel),
        Some(Keyword::Def) => lemma_def_stable(s, args, fuel),
        Some(Keyword::Lambda) => {},
        Some(Keyword::Defmacro) => {},
        Some(Keyword::Eval) => lemma_eval_form_stable(s, args, fuel),
        Some(Keyword::PrintDebug) => lemma_print_debug_stable(s, args, fuel),
        Some(Keyword::Plus) => lemma_arith_stable(s, ArithOp::Add, args, fuel),
        Some(Keyword::Minus) => lemma_arith_stable(s, ArithOp::Sub, args, fuel),
        Some(Keyword::Times) => lemma_arith_stable(s, ArithOp::Mul, args, fuel),
        Some(Keyword::Divide) => lemma_arith_stable(s, ArithOp::Div, args, fuel),
        Some(Keyword::Equal) => lemma_equal_stable(s, args, fuel),
        Some(Keyword::Car) => lemma_car_cdr_stable(s, args, fuel),
        Some(Keyword::Cdr) => lemma_car_cdr_stable(s, args, fuel),
        Some(Keyword::Cons) => lemma_cons_stable(s, args, fuel),
        None => {
            let c = s.lookup(name);
            if !c.error && fuel > 0 {
                lemma_apply_stable(s, c.expr, args, (fuel - 1) as nat);
            }
        },
    }
}

proof fn lemma_if_stable(s: State, args: Sexp, fuel: nat)
    requires
        !sem_if(s, args, fuel).exhausted,
    ensures
        sem_if(s, args, fuel + 1) == sem_if(s, args, fuel),
    decreases fuel, 2nat, 0nat,
{
    match args.list3() {
        Some((p, t, f)) => lemma_if_form_stable(s, p, t, f, fuel),
        None => {},
    }
}

proof fn lemma_if_form_stable(s: State, p: Sexp, t: Sexp, f: Sexp, fuel: nat)
    requires
        !sem_if_form(s, p, t, f, fuel).exhausted,
    ensures
        sem_if_form(s, p, t, f, fuel + 1) == sem_if_form(s, p, t, f, fuel),
    decreases fuel, 1nat, 0nat,
{
    let c = sem_eval(s.with_expr(p), fuel);
    law_eval_keeps(c.with_expr(f), fuel);
    law_eval_keeps(c.with_expr(t), fuel);
    lemma_eval_stable(s.with_expr(p), fuel);
    match c.expr {
        Sexp::Nil => lemma_eval_stable(c.with_expr(f), fuel),
        _ => lemma_eval_stable(c.with_expr(t), fuel),
    }
}

proof fn lemma_pre1_stable(s: State, args: Sexp, fuel: nat)
    requires
        !sem_pre1(s, args, fuel).exhausted,
    ensures
        sem_pre1(s, args, fuel + 1) == sem_pre1(s, args, fuel),
    decreases fuel, 1nat, 0nat,
{
    match args.list1() {
        Some(e) => lemma_eval_stable(s.with_expr(e), fuel),
        None => {},
    }
}

proof fn lemma_pre2_stable(s: State, args: Sexp, fuel: nat)
    requires
        !sem_pre2(s, args, fuel).2.exhausted,
    ensures
        sem_pre2(s, args, fuel + 1) == sem_pre2(s, args, fuel),
    decreases fuel, 1nat, 0nat,
{
    match args.list2() {
        Some((e1, e2)) => {
            let c1 = sem_eval(s.with_expr(e1), fuel);
            law_eval_keeps(s.after(c1).with_expr(e2), fuel);
            lemma_eval_stable(s.with_expr(e1), fuel);
            lemma_eval_stable(s.after(c1).with_expr(e2), fuel);
        },
        None => {},
    }
}

proof fn lemma_arith_stable(s: State, op: ArithOp, args: Sexp, fuel: nat)
    requires
        !sem_arith(s, op, args, fuel).exhausted,
    ensures
        sem_arith(s, op, args, fuel + 1) == sem_arith(s, op, args, fuel),
    decreases fuel, 2nat, 0nat,
{
    if args.list2().is_some() {
        lemma_pre2_stable(s, args, fuel);
    }
}

proof fn lemma_equal_stable(s: State, args: Sexp, fuel: nat)
    requires
        !sem_equal(s, args, fuel).exhausted,
    ensures
        sem_equal(s, args, fuel + 1) == sem_equal(s, args, fuel),
    decreases fuel, 2nat, 0nat,
{
    if args.list2().is_some() {
        lemma_pre2_stable(s, args, fuel);
    }
}

proof fn lemma_cons_stable(s: State, args: Sexp, fuel: nat)
    requires
        !sem_cons(s, args, fuel).exhausted,
    ensures
        sem_cons(s, args, fuel + 1) == sem_cons(s, args, fuel),
    decreases fuel, 2nat, 0nat,
{
    if args.list2().is_some() {
        lemma_pre2_stable(s, args, fuel);
    }
}

proof fn lemma_car_cdr_stable(s: State, args: Sexp, fuel: nat)
    ensures
        !sem_car(s, args, fuel).exhausted ==> sem_car(s, args, fuel + 1) == sem_car(s, args, fuel),
        !sem_cdr(s, args, fuel).exhausted ==> sem_cdr(s, args, fuel + 1) == sem_cdr(s, args, fuel),
    decreases fuel, 2nat, 0nat,
{
    if args.list1().is_some() && !sem_pre1(s, args, fuel).exhausted {
        lemma_pre1_stable(s, args, fuel);
    }
}

proof fn lemma_def_stable(s: State, args: Sexp, fuel: nat)
    requires
        !sem_def(s, args, fuel).exhausted,
    ensures
        sem_def(s, args, fuel + 1) == sem_def(s, args, fuel),
    decreases fuel, 2nat, 0nat,
{
    match args.list2() {
        Some((target, e)) => {
            if target is Ident {
                lemma_eval_stable(s.with_expr(e), fuel);
            }
        },
        None => {},
    }
}

proof fn lemma_eval_form_stable(s: State, args: Sexp, fuel: nat)
    requires
        !sem_eval_form(s, args, fuel).exhausted,
    ensures
        sem_eval_form(s, args, fuel + 1) == sem_eval_form(s, args, fuel),
    decreases fuel, 2nat, 0nat,
{
    let c = sem_pre1(s, args, fuel);
    law_eval_keeps(c, fuel);
    lemma_pre1_stable(s, args, fuel);
    if !c.error {
        lemma_eval_stable(c, fuel);
    }
}

proof fn lemma_print_debug_stable(s: State, args: Sexp, fuel: nat)
    requires
        !sem_print_debug(s, args, fuel).exhausted,
    ensures
        sem_print_debug(s, args, fuel + 1) == sem_print_debug(s, args, fuel),
    decreases fuel, 2nat, 0nat,
{
    if args.list1().is_some() {
        lemma_pre1_stable(s, args, fuel);
    }
}

proof fn lemma_bind_args_stable(
    chain: State,
    names: Sexp,
    args: Sexp,
    is_macro: bool,
    site: State,
    fuel: nat,
)
    requires
        !sem_bind_args(chain, names, args, is_macro, site, fuel).exhausted,
    ensures
        sem_bind_args(chain, names, args, is_macro, site, fuel + 1) == sem_bind_args(
            chain,
            names,
            args,
            is_macro,
            site,
            fuel,
        ),
    decreases fuel, 1nat, names.size(),
{
    match names {
        Sexp::Cons(first, rest) => match args {
            Sexp::Cons(arg, more) => match *first {
                Sexp::Ident(name) => {
                    let given = site.after(chain).with_expr(*arg);
                    let c = if is_macro {
                        given
                    } else {
                        sem_eval(given, fuel)
                    };
                    let next = chain.after(c).bind(name, c.expr);
                    lemma_bind_args_keeps(next, *rest, *more, is_macro, site, fuel);
                    if !is_macro {
                        lemma_eval_stable(given, fuel);
                    }
                    lemma_bind_args_stable(next, *rest, *more, is_macro, site, fuel);
                },
                _ => {},
            },
            _ => {},
        },
        _ => {},
    }
}

proof fn lemma_call_stable(
    s: State,
    params: Sexp,
    body: Sexp,
    args: Sexp,
    captured: Option<Bindings>,
    fuel: nat,
)
    requires
        !sem_call(s, params, body, args, captured, fuel).exhausted,
    ensures
        sem_call(s, params, body, args, captured, fuel + 1) == sem_call(
            s,
            params,
            body,
            args,
            captured,
            fuel,
        ),
    decreases fuel, 2nat, 0nat,
{
    let start = s.with_env(call_env(s.env, captured));
    let c = sem_bind_args(start, params, args, false, s, fuel);
    law_eval_keeps(c.with_expr(body), fuel);
    lemma_bind_args_stable(start, params, args, false, s, fuel);
    if !c.error {
        lemma_eval_stable(c.with_expr(body), fuel);
    }
}

proof fn lemma_macro_stable(s: State, params: Sexp, body: Sexp, args: Sexp, fuel: nat)
    requires
        !sem_macro(s, params, body, args, fuel).exhausted,
    ensures
        sem_macro(s, params, body, args, fuel + 1) == sem_macro(s, params, body, args, fuel),
    decreases fuel, 2nat, 0nat,
{
    let c = sem_bind_args(s, params, args, true, s, fuel);
    let expanded = sem_eval(c.with_expr(body), fuel);
    law_eval_keeps(c.with_expr(body), fuel);
    law_eval_keeps(expanded.with_env(s.env), fuel);
    lemma_bind_args_stable(s, params, args, true, s, fuel);
    if !c.error {
        lemma_eval_stable(c.with_expr(body), fuel);
        lemma_eval_stable(expanded.with_env(s.env), fuel);
    }
}

proof fn lemma_quasi_stable(s: State, fuel: nat)
    requires
        !sem_quasi(s, fuel).exhausted,
    ensures
        sem_quasi(s, fuel + 1) == sem_quasi(s, fuel),
    decreases fuel, 1nat, s.expr.size(),
{
    match s.expr {
        Sexp::Unquote(e) => lemma_eval_stable(s.with_expr(*e), fuel),
        Sexp::Cons(head, tail) => {
            let c1 = sem_quasi(s.with_expr(*head), fuel);
            lemma_quasi_keeps(c1.with_expr(*tail), fuel);
            lemma_quasi_stable(s.with_expr(*head), fuel);
            lemma_quasi_stable(c1.with_expr(*tail), fuel);
        },
        _ => {},
    }
}

} // verus!
