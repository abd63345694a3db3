//! Laws of evaluation, proved from the semantics.

use crate::closure::{free_idents, param_names};
use crate::context::{ErrorKind, State};
use crate::expr::{Bindings, Sexp};
use crate::float::float_of_int;
use crate::semantics::{
    arith_value,
    call_env,
    float_arith,
    int_result,
    sem_apply,
    sem_arith,
    sem_bind_args,
    sem_call,
    sem_car,
    sem_cdr,
    sem_cons,
    sem_def,
    sem_equal,
    sem_eval,
    sem_form,
    sem_if,
    sem_if_form,
    sem_lambda,
    sem_macro,
    sem_pre1,
    sem_pre2,
    sexp_equal,
    truth,
    ArithOp,
};
use crate::text::{is_reserved, keyword_of, Keyword};
use vstd::prelude::*;

verus! {

/// The form `(name a)`.
pub open spec fn form1(name: Seq<char>, a: Sexp) -> Sexp {
    Sexp::Cons(Box::new(Sexp::Ident(name)), Box::new(Sexp::Cons(Box::new(a), Box::new(Sexp::Nil))))
}

/// The form `(name a b)`.
pub open spec fn form2(name: Seq<char>, a: Sexp, b: Sexp) -> Sexp {
    Sexp::Cons(
        Box::new(Sexp::Ident(name)),
        Box::new(
            Sexp::Cons(Box::new(a), Box::new(Sexp::Cons(Box::new(b), Box::new(Sexp::Nil)))),
        ),
    )
}

/// The form `(name a b c)`.
pub open spec fn form3(name: Seq<char>, a: Sexp, b: Sexp, c: Sexp) -> Sexp {
    Sexp::Cons(
        Box::new(Sexp::Ident(name)),
        Box::new(
            Sexp::Cons(
                Box::new(a),
                Box::new(Sexp::Cons(Box::new(b), Box::new(Sexp::Cons(Box::new(c), Box::new(Sexp::Nil))))),
            ),
        ),
    )
}

/// Whether `e` is a literal: the empty list, a number or a string.
pub open spec fn is_literal(e: Sexp) -> bool {
    e is Nil || e is Integer || e is Float || e is String
}

/// The name of an arithmetic primitive.
pub open spec fn op_name(op: ArithOp) -> Seq<char> {
    match op {
        ArithOp::Add => "+"@,
        ArithOp::Sub => "-"@,
        ArithOp::Mul => "*"@,
        ArithOp::Div => "/"@,
    }
}

/// Each keyword is spelled by its own name, and `t` spells none.
pub proof fn lemma_keyword_names()
    ensures
        keyword_of("if"@) == Some(Keyword::If),
        keyword_of("def"@) == Some(Keyword::Def),
        keyword_of("lambda"@) == Some(Keyword::Lambda),
        keyword_of("defmacro"@) == Some(Keyword::Defmacro),
        keyword_of("eval"@) == Some(Keyword::Eval),
        keyword_of("print-debug"@) == Some(Keyword::PrintDebug),
        keyword_of("+"@) == Some(Keyword::Plus),
        keyword_of("-"@) == Some(Keyword::Minus),
        keyword_of("*"@) == Some(Keyword::Times),
        keyword_of("/"@) == Some(Keyword::Divide),
        keyword_of("="@) == Some(Keyword::Equal),
        keyword_of("car"@) == Some(Keyword::Car),
        keyword_of("cdr"@) == Some(Keyword::Cdr),
        keyword_of("cons"@) == Some(Keyword::Cons),
        keyword_of("t"@).is_none(),
{
    reveal_strlit("if");
    reveal_strlit("def");
    reveal_strlit("lambda");
    reveal_strlit("defmacro");
    reveal_strlit("eval");
    reveal_strlit("print-debug");
    reveal_strlit("+");
    reveal_strlit("-");
    reveal_strlit("*");
    reveal_strlit("/");
    reveal_strlit("=");
    reveal_strlit("car");
    reveal_strlit("cdr");
    reveal_strlit("cons");
    reveal_strlit("t");
    assert("if"@.len() == 2);
    assert("def"@.len() == 3);
    assert("lambda"@.len() == 6);
    assert("defmacro"@.len() == 8);
    assert("eval"@.len() == 4);
    assert("print-debug"@.len() == 11);
    assert("def"@[0] != "car"@[0]);
    assert("def"@[0] != "cdr"@[0]);
    assert("car"@[1] != "cdr"@[1]);
    assert("eval"@[0] != "cons"@[0]);
    assert("+"@[0] != "-"@[0]);
    assert("+"@[0] != "*"@[0]);
    assert("+"@[0] != "/"@[0]);
    assert("+"@[0] != "="@[0]);
    assert("+"@[0] != "t"@[0]);
    assert("-"@[0] != "*"@[0]);
    assert("-"@[0] != "/"@[0]);
    assert("-"@[0] != "="@[0]);
    assert("-"@[0] != "t"@[0]);
    assert("*"@[0] != "/"@[0]);
    assert("*"@[0] != "="@[0]);
    assert("*"@[0] != "t"@[0]);
    assert("/"@[0] != "="@[0]);
    assert("/"@[0] != "t"@[0]);
    assert("="@[0] != "t"@[0]);
}

/// A literal evaluates to itself, whatever the depth allowed: the state is
/// left exactly as it was, so evaluating a second time changes nothing
/// either.
pub proof fn law_literal_is_value(s: State, fuel: nat)
    requires
        is_literal(s.expr),
    ensures
        sem_eval(s, fuel) == s,
        sem_eval(sem_eval(s, fuel), fuel) == sem_eval(s, fuel),
{
}

/// A quote evaluates to what it holds, unevaluated, whatever the depth
/// allowed: no identifier in it is looked up, and bindings and error state
/// stay as they were.
pub proof fn law_quote_is_unevaluated(s: State, e: Sexp, fuel: nat)
    ensures
        sem_eval(s.with_expr(Sexp::Quote(Box::new(e))), fuel) == s.with_expr(e),
{
}

/// An arithmetic primitive on two integer literals yields the integer that
/// the operation gives, and changes nothing else, provided that this integer
/// fits in 64 bits and that no division is by zero.
pub proof fn law_integer_arithmetic(s: State, op: ArithOp, a: i64, b: i64, fuel: nat)
    requires
        fuel >= 1,
        !(op == ArithOp::Div && b == 0),
        i64::MIN <= int_result(op, a as int, b as int) <= i64::MAX,
    ensures
        sem_eval(s.with_expr(form2(op_name(op), Sexp::Integer(a), Sexp::Integer(b))), fuel)
            == s.with_expr(Sexp::Integer(int_result(op, a as int, b as int) as i64)),
{
    lemma_keyword_names();
    let x = Sexp::Integer(a);
    let y = Sexp::Integer(b);
    lemma_arith_on_values(s, op, x, y, fuel);
}

/// An arithmetic primitive on an integer literal and a double literal, in
/// either order, yields the double that the operation gives once the integer
/// is widened to a double; on two double literals it yields the double that
/// the operation gives. Nothing else changes.
pub proof fn law_mixed_arithmetic(s: State, op: ArithOp, a: i64, y: u64, z: u64, fuel: nat)
    requires
        fuel >= 1,
    ensures
        sem_eval(s.with_expr(form2(op_name(op), Sexp::Integer(a), Sexp::Float(y))), fuel)
            == s.with_expr(Sexp::Float(float_arith(op, float_of_int(a), y))),
        sem_eval(s.with_expr(form2(op_name(op), Sexp::Float(y), Sexp::Integer(a))), fuel)
            == s.with_expr(Sexp::Float(float_arith(op, y, float_of_int(a)))),
        sem_eval(s.with_expr(form2(op_name(op), Sexp::Float(y), Sexp::Float(z))), fuel)
            == s.with_expr(Sexp::Float(float_arith(op, y, z))),
{
    lemma_arith_on_values(s, op, Sexp::Integer(a), Sexp::Float(y), fuel);
    lemma_arith_on_values(s, op, Sexp::Float(y), Sexp::Integer(a), fuel);
    lemma_arith_on_values(s, op, Sexp::Float(y), Sexp::Float(z), fuel);
}

/// An arithmetic primitive on two literals: its value if it has one, else the
/// error sentinel.
pub proof fn lemma_arith_on_values(s: State, op: ArithOp, x: Sexp, y: Sexp, fuel: nat)
    requires
        fuel >= 1,
        is_literal(x),
        is_literal(y),
    ensures
        sem_eval(s.with_expr(form2(op_name(op), x, y)), fuel) == match arith_value(op, x, y) {
            Ok(v) => s.with_expr(v),
            Err(kind) => s.fail(kind),
        },
{
    lemma_keyword_names();
    let form = form2(op_name(op), x, y);
    let args = Sexp::Cons(Box::new(x), Box::new(Sexp::Cons(Box::new(y), Box::new(Sexp::Nil))));
    let f = (fuel - 1) as nat;
    let s0 = s.with_expr(form);
    assert(args.list2() == Some((x, y)));
    assert(sem_eval(s0, fuel) == sem_apply(s0, Sexp::Ident(op_name(op)), args, f));
    assert(sem_apply(s0, Sexp::Ident(op_name(op)), args, f) == sem_form(s0, op_name(op), args, f));
    assert(sem_form(s0, op_name(op), args, f) == sem_arith(s0, op, args, f));
    let c1 = sem_eval(s0.with_expr(x), f);
    assert(c1 == s0.with_expr(x));
    let c2 = sem_eval(s0.after(c1).with_expr(y), f);
    assert(c2 == s0.with_expr(y));
    assert(sem_pre2(s0, args, f) == (x, y, c2));
}

/// `if` selects by the value of its predicate: the else-branch if that value
/// is the empty list, the then-branch for any other value. The branch is
/// evaluated in the state that the predicate left.
pub proof fn law_if_selects(s: State, p: Sexp, x: Sexp, y: Sexp, fuel: nat)
    requires
        fuel >= 1,
    ensures
        ({
            let f = (fuel - 1) as nat;
            let c = sem_eval(s.with_expr(p), f);
            sem_eval(s.with_expr(form3("if"@, p, x, y)), fuel) == if c.expr is Nil {
                sem_eval(c.with_expr(y), f)
            } else {
                sem_eval(c.with_expr(x), f)
            }
        }),
{
    lemma_keyword_names();
    let f = (fuel - 1) as nat;
    let s0 = s.with_expr(form3("if"@, p, x, y));
    let args = Sexp::Cons(
        Box::new(p),
        Box::new(Sexp::Cons(Box::new(x), Box::new(Sexp::Cons(Box::new(y), Box::new(Sexp::Nil))))),
    );
    assert(args.list3() == Some((p, x, y)));
    assert(sem_eval(s0, fuel) == sem_apply(s0, Sexp::Ident("if"@), args, f));
    assert(sem_apply(s0, Sexp::Ident("if"@), args, f) == sem_form(s0, "if"@, args, f));
    assert(sem_form(s0, "if"@, args, f) == sem_if(s0, args, f));
    assert(sem_if(s0, args, f) == sem_if_form(s0, p, x, y, f));
    assert(s0.with_expr(p) == s.with_expr(p));
}

/// With a literal for its predicate, `if` yields the value of the
/// else-branch when the literal is the empty list, and the value of the
/// then-branch for every other literal: a number, zero too, is true.
pub proof fn law_if_on_literal(s: State, p: Sexp, x: Sexp, y: Sexp, fuel: nat)
    requires
        fuel >= 1,
        is_literal(p),
    ensures
        sem_eval(s.with_expr(form3("if"@, p, x, y)), fuel) == if p is Nil {
            sem_eval(s.with_expr(y), (fuel - 1) as nat)
        } else {
            sem_eval(s.with_expr(x), (fuel - 1) as nat)
        },
{
    law_if_selects(s, p, x, y, fuel);
    law_literal_is_value(s.with_expr(p), (fuel - 1) as nat);
}

/// `car` undoes `cons`: `(car (cons x y))` has the value of `x` and
/// `(cdr (cons x y))` the value of `y`, each as `cons` evaluated it, `x`
/// first and `y` after it.
pub proof fn law_car_cdr_of_cons(s: State, x: Sexp, y: Sexp, fuel: nat)
    requires
        fuel >= 2,
    ensures
        ({
            let f = (fuel - 2) as nat;
            let cx = sem_eval(s.with_expr(x), f);
            let cy = sem_eval(s.after(cx).with_expr(y), f);
            &&& sem_eval(s.with_expr(form1("car"@, form2("cons"@, x, y))), fuel) == cy.with_expr(
                cx.expr,
            )
            &&& sem_eval(s.with_expr(form1("cdr"@, form2("cons"@, x, y))), fuel) == cy
        }),
{
    lemma_keyword_names();
    let f1 = (fuel - 1) as nat;
    let f = (fuel - 2) as nat;
    let pair = form2("cons"@, x, y);
    let pair_args = Sexp::Cons(Box::new(x), Box::new(Sexp::Cons(Box::new(y), Box::new(Sexp::Nil))));
    let outer_args = Sexp::Cons(Box::new(pair), Box::new(Sexp::Nil));
    assert(pair_args.list2() == Some((x, y)));
    assert(outer_args.list1() == Some(pair));
    let cx = sem_eval(s.with_expr(x), f);
    let cy = sem_eval(s.after(cx).with_expr(y), f);
    let built = cy.with_expr(Sexp::Cons(Box::new(cx.expr), Box::new(cy.expr)));

    assert forall|s0: State| s0.env == s.env && s0.error == s.error && s0.cause == s.cause
        && s0.printed == s.printed && s0.limit == s.limit && s0.exhausted == s.exhausted
        && s0.failures == s.failures implies #[trigger] sem_eval(
        s0.with_expr(pair),
        f1,
    ) == built by {
        let sp = s0.with_expr(pair);
        assert(sp == s.with_expr(pair));
        assert(sem_eval(sp, f1) == sem_apply(sp, Sexp::Ident("cons"@), pair_args, f));
        assert(sem_apply(sp, Sexp::Ident("cons"@), pair_args, f) == sem_form(
            sp,
            "cons"@,
            pair_args,
            f,
        ));
        assert(sem_form(sp, "cons"@, pair_args, f) == sem_cons(sp, pair_args, f));
        assert(sp.with_expr(x) == s.with_expr(x));
        assert(sp.after(cx).with_expr(y) == s.after(cx).with_expr(y));
        assert(sem_pre2(sp, pair_args, f) == (cx.expr, cy.expr, cy));
    }

    let car_form = form1("car"@, pair);
    let sc = s.with_expr(car_form);
    assert(sem_eval(sc, fuel) == sem_apply(sc, Sexp::Ident("car"@), outer_args, f1));
    assert(sem_apply(sc, Sexp::Ident("car"@), outer_args, f1) == sem_form(
        sc,
        "car"@,
        outer_args,
        f1,
    ));
    assert(sem_form(sc, "car"@, outer_args, f1) == sem_car(sc, outer_args, f1));
    assert(sem_pre1(sc, outer_args, f1) == sem_eval(sc.with_expr(pair), f1));
    assert(sem_eval(sc.with_expr(pair), f1) == built);

    let cdr_form = form1("cdr"@, pair);
    let sd = s.with_expr(cdr_form);
    assert(sem_eval(sd, fuel) == sem_apply(sd, Sexp::Ident("cdr"@), outer_args, f1));
    assert(sem_apply(sd, Sexp::Ident("cdr"@), outer_args, f1) == sem_form(
        sd,
        "cdr"@,
        outer_args,
        f1,
    ));
    assert(sem_form(sd, "cdr"@, outer_args, f1) == sem_cdr(sd, outer_args, f1));
    assert(sem_pre1(sd, outer_args, f1) == sem_eval(sd.with_expr(pair), f1));
    assert(sem_eval(sd.with_expr(pair), f1) == built);
}

/// `=` on two literals yields the identifier `t` if they are structurally
/// equal and the empty list if not, and changes nothing else.
pub proof fn law_equal_on_literals(s: State, x: Sexp, y: Sexp, fuel: nat)
    requires
        fuel >= 1,
        is_literal(x),
        is_literal(y),
    ensures
        sem_eval(s.with_expr(form2("="@, x, y)), fuel) == s.with_expr(truth(sexp_equal(x, y))),
        x == y && !(x is Float) ==> sem_eval(s.with_expr(form2("="@, x, y)), fuel).expr
            == Sexp::Ident("t"@),
        x is Integer && y is Integer && x != y ==> sem_eval(
            s.with_expr(form2("="@, x, y)),
            fuel,
        ).expr == Sexp::Nil,
{
    lemma_keyword_names();
    let args = Sexp::Cons(Box::new(x), Box::new(Sexp::Cons(Box::new(y), Box::new(Sexp::Nil))));
    let f = (fuel - 1) as nat;
    let s0 = s.with_expr(form2("="@, x, y));
    assert(args.list2() == Some((x, y)));
    assert(sem_eval(s0, fuel) == sem_apply(s0, Sexp::Ident("="@), args, f));
    assert(sem_apply(s0, Sexp::Ident("="@), args, f) == sem_form(s0, "="@, args, f));
    assert(sem_form(s0, "="@, args, f) == sem_equal(s0, args, f));
    let c1 = sem_eval(s0.with_expr(x), f);
    assert(c1 == s0.with_expr(x));
    let c2 = sem_eval(s0.after(c1).with_expr(y), f);
    assert(c2 == s0.with_expr(y));
    assert(sem_pre2(s0, args, f) == (x, y, c2));
}

/// The list `(a)`.
pub open spec fn single(a: Sexp) -> Sexp {
    Sexp::Cons(Box::new(a), Box::new(Sexp::Nil))
}

/// The list `(a b c)`.
pub open spec fn triple_of(a: Sexp, b: Sexp, c: Sexp) -> Sexp {
    Sexp::Cons(Box::new(a), Box::new(pair_of(b, c)))
}

/// The arithmetic form itself, at every depth: on the operands `a` and `b`,
/// two integers, it yields the integer that the operation gives, with the
/// bindings, the error state and all else unchanged, provided that this
/// integer fits in 64 bits and that no division is by zero.
pub proof fn law_arith_form_on_integers(s: State, op: ArithOp, a: i64, b: i64, fuel: nat)
    requires
        !(op == ArithOp::Div && b == 0),
        i64::MIN <= int_result(op, a as int, b as int) <= i64::MAX,
    ensures
        sem_arith(s, op, pair_of(Sexp::Integer(a), Sexp::Integer(b)), fuel) == s.with_expr(
            Sexp::Integer(int_result(op, a as int, b as int) as i64),
        ),
{
    let x = Sexp::Integer(a);
    let y = Sexp::Integer(b);
    assert(pair_of(x, y).list2() == Some((x, y)));
    assert(sem_eval(s.with_expr(x), fuel) == s.with_expr(x));
    assert(s.after(s.with_expr(x)).with_expr(y) == s.with_expr(y));
    assert(sem_pre2(s, pair_of(x, y), fuel) == (x, y, s.with_expr(y)));
}

/// The `if` form itself, at every depth: on `(p x y)` it evaluates `p` and
/// then exactly one of `x` and `y`, in the state that `p` left: `y` if the
/// value of `p` is the empty list, `x` if it is anything else.
pub proof fn law_if_form_selects(s: State, p: Sexp, x: Sexp, y: Sexp, fuel: nat)
    ensures
        ({
            let c = sem_eval(s.with_expr(p), fuel);
            sem_if(s, triple_of(p, x, y), fuel) == if c.expr is Nil {
                sem_eval(c.with_expr(y), fuel)
            } else {
                sem_eval(c.with_expr(x), fuel)
            }
        }),
{
    assert(pair_of(x, y).list2() == Some((x, y)));
    assert(triple_of(p, x, y).list3() == Some((p, x, y)));
    assert(sem_if(s, triple_of(p, x, y), fuel) == sem_if_form(s, p, x, y, fuel));
}

/// The `car` and `cdr` forms themselves, from depth 1: on `((cons x y))`,
/// `car` yields the value of `x` and `cdr` the value of `y`, each as `cons`
/// evaluated it, `x` first and `y` after it; no value is evaluated a second
/// time, and the error state is the one that the evaluation of `y` left.
pub proof fn law_car_cdr_forms_of_cons(s: State, x: Sexp, y: Sexp, fuel: nat)
    requires
        fuel >= 1,
    ensures
        ({
            let f = (fuel - 1) as nat;
            let cx = sem_eval(s.with_expr(x), f);
            let cy = sem_eval(s.after(cx).with_expr(y), f);
            &&& sem_car(s, single(form2("cons"@, x, y)), fuel) == cy.with_expr(cx.expr)
            &&& sem_cdr(s, single(form2("cons"@, x, y)), fuel) == cy
        }),
{
    lemma_keyword_names();
    let f = (fuel - 1) as nat;
    let pair = form2("cons"@, x, y);
    let args = pair_of(x, y);
    let sp = s.with_expr(pair);
    let cx = sem_eval(s.with_expr(x), f);
    let cy = sem_eval(s.after(cx).with_expr(y), f);
    assert(args.list2() == Some((x, y)));
    assert(single(pair).list1() == Some(pair));
    assert(sem_pre1(s, single(pair), fuel) == sem_eval(sp, fuel));
    assert(sem_eval(sp, fuel) == sem_apply(sp, Sexp::Ident("cons"@), args, f));
    assert(sem_apply(sp, Sexp::Ident("cons"@), args, f) == sem_form(sp, "cons"@, args, f));
    assert(sem_form(sp, "cons"@, args, f) == sem_cons(sp, args, f));
    assert(sp.with_expr(x) == s.with_expr(x));
    assert(sp.after(cx).with_expr(y) == s.after(cx).with_expr(y));
    assert(sem_pre2(sp, args, f) == (cx.expr, cy.expr, cy));
}

/// The proper list of `items`.
pub open spec fn list_of(items: Seq<Sexp>) -> Sexp
    decreases items.len(),
{
    if items.len() == 0 {
        Sexp::Nil
    } else {
        Sexp::Cons(Box::new(items[0]), Box::new(list_of(items.skip(1))))
    }
}

/// The identifiers that spell `names`.
pub open spec fn idents(names: Seq<Seq<char>>) -> Seq<Sexp> {
    names.map_values(|n: Seq<char>| Sexp::Ident(n))
}

/// `env` with each of `names` bound, in turn, to the value at its place in
/// `values`.
pub open spec fn bind_each(env: Bindings, names: Seq<Seq<char>>, values: Seq<Sexp>) -> Bindings
    decreases names.len(),
{
    if names.len() == 0 || values.len() == 0 {
        env
    } else {
        bind_each(env.insert(names[0], values[0]), names.skip(1), values.skip(1))
    }
}

/// Binding the parameters of a macro: each of the `names`, none of them
/// reserved, is bound to the argument at its place, as it stands, and
/// nothing else changes.
pub proof fn lemma_macro_parameters(
    chain: State,
    names: Seq<Seq<char>>,
    args: Seq<Sexp>,
    site: State,
    fuel: nat,
)
    requires
        names.len() == args.len(),
        forall|i: int| 0 <= i < names.len() ==> !is_reserved(#[trigger] names[i]),
    ensures
        sem_bind_args(chain, list_of(idents(names)), list_of(args), true, site, fuel)
            == chain.with_env(bind_each(chain.env, names, args)),
    decreases names.len(),
{
    if names.len() == 0 {
        assert(chain.with_env(chain.env) == chain);
    } else {
        let next = chain.with_env(chain.env.insert(names[0], args[0]));
        assert(idents(names)[0] == Sexp::Ident(names[0]));
        assert(idents(names).skip(1) =~= idents(names.skip(1)));
        assert(!is_reserved(names[0]));
        let given = site.after(chain).with_expr(args[0]);
        assert(chain.after(given) == chain);
        assert(chain.after(given).bind(names[0], args[0]) == next);
        assert forall|i: int| 0 <= i < names.skip(1).len() implies !is_reserved(
            #[trigger] names.skip(1)[i],
        ) by {
            assert(names.skip(1)[i] == names[i + 1]);
        }
        lemma_macro_parameters(next, names.skip(1), args.skip(1), site, fuel);
        assert(next.with_env(bind_each(next.env, names.skip(1), args.skip(1))) == chain.with_env(
            bind_each(chain.env, names, args),
        ));
    }
}

/// A macro of any number of parameters receives its arguments unevaluated:
/// each parameter is bound to the argument at its place as it stands, the
/// body is evaluated with those bindings, and what it yields is evaluated
/// with the bindings of the call site, without the parameters. The
/// parameters are identifiers that are not reserved, as many as there are
/// arguments, and the state has no error.
pub proof fn law_macro_call(
    s: State,
    names: Seq<Seq<char>>,
    body: Sexp,
    args: Seq<Sexp>,
    fuel: nat,
)
    requires
        names.len() == args.len(),
        forall|i: int| 0 <= i < names.len() ==> !is_reserved(#[trigger] names[i]),
        !s.error,
    ensures
        ({
            let bound = s.with_env(bind_each(s.env, names, args));
            let expansion = sem_eval(bound.with_expr(body), fuel);
            sem_macro(s, list_of(idents(names)), body, list_of(args), fuel) == sem_eval(
                expansion.with_env(s.env),
                fuel,
            )
        }),
{
    lemma_macro_parameters(s, names, args, s, fuel);
}

/// A call starts from the bindings that the closure captured: for a captured
/// name it sees the captured value, whatever the call site binds the name
/// to, and for any other name what the call site binds it to. So to bind a
/// captured name anew at the call site, after the closure was built, does
/// not change the bindings that a call starts from.
pub proof fn law_captured_bindings_win(
    site: Bindings,
    captured: Bindings,
    name: Seq<char>,
    value: Sexp,
)
    ensures
        captured.contains_key(name) ==> call_env(site, Some(captured)).contains_key(name)
            && call_env(site, Some(captured))[name] == captured[name],
        !captured.contains_key(name) && site.contains_key(name) ==> call_env(
            site,
            Some(captured),
        ).contains_key(name) && call_env(site, Some(captured))[name] == site[name],
        captured.contains_key(name) ==> call_env(site.insert(name, value), Some(captured))
            == call_env(site, Some(captured)),
        call_env(site, None) == site,
{
    if captured.contains_key(name) {
        assert(call_env(site.insert(name, value), Some(captured)) =~= call_env(
            site,
            Some(captured),
        ));
    }
}

/// A closure holds a snapshot: `lambda` without a name, where it succeeds,
/// yields a closure over exactly the free identifiers of its body, each with
/// the value that it has in the state in which the closure is built, and
/// leaves the bindings as they are.
pub proof fn law_lambda_takes_a_snapshot(s: State, params: Sexp, body: Sexp)
    requires
        param_names(params).is_some(),
        free_idents(body, param_names(params).unwrap(), false).subset_of(s.env.dom()),
    ensures
        ({
            let free = free_idents(body, param_names(params).unwrap(), false);
            let r = sem_lambda(s, pair_of(params, body));
            &&& r.env == s.env
            &&& r.error == s.error
            &&& r.expr matches Sexp::Lambda(p, b, captured)
            &&& *p == params
            &&& *b == body
            &&& captured == if free =~= Set::<Seq<char>>::empty() {
                None
            } else {
                Some(s.env.restrict(free))
            }
            &&& s.env.restrict(free).dom() =~= free
            &&& forall|n: Seq<char>| free.contains(n) ==> s.env.restrict(free)[n] == s.env[n]
        }),
{
    assert(pair_of(params, body).list2() == Some((params, body)));
}

/// The list `(a b)`.
pub open spec fn pair_of(a: Sexp, b: Sexp) -> Sexp {
    Sexp::Cons(Box::new(a), Box::new(Sexp::Cons(Box::new(b), Box::new(Sexp::Nil))))
}

/// A macro receives its argument unevaluated: in the call of a macro of one
/// parameter, the parameter is bound to the argument as it stands, the body
/// is evaluated with that binding, and what it yields is evaluated with the
/// bindings of the call site.
pub proof fn law_macro_binds_unevaluated(
    s: State,
    param: Seq<char>,
    body: Sexp,
    arg: Sexp,
    fuel: nat,
)
    ensures
        ({
            let bound = s.bind(param, arg);
            sem_macro(s, single(Sexp::Ident(param)), body, single(arg), fuel) == if bound.error {
                s.give_up(bound)
            } else {
                sem_eval(sem_eval(bound.with_expr(body), fuel).with_env(s.env), fuel)
            }
        }),
{
    let given = s.after(s).with_expr(arg);
    assert(given == s.with_expr(arg));
    let next = s.after(given).bind(param, arg);
    assert(s.after(given) == s);
    assert(sem_bind_args(next, Sexp::Nil, Sexp::Nil, true, s, fuel) == next);
    assert(sem_bind_args(s, single(Sexp::Ident(param)), single(arg), true, s, fuel) == next);
}

/// A closure receives its argument evaluated: in the call of a closure of
/// one parameter, the argument is evaluated with the bindings of the call
/// site, the parameter is bound to its value on top of the captured
/// bindings, and the body is evaluated with that binding. The error flag of
/// an argument that failed is dropped: its value is then the empty list,
/// and the failure stays on record.
pub proof fn law_call_binds_evaluated(
    s: State,
    param: Seq<char>,
    body: Sexp,
    arg: Sexp,
    captured: Option<Bindings>,
    fuel: nat,
)
    ensures
        ({
            let v = sem_eval(s.with_expr(arg), fuel);
            let bound = s.with_env(call_env(s.env, captured)).after(v).bind(param, v.expr);
            sem_call(s, single(Sexp::Ident(param)), body, single(arg), captured, fuel)
                == if bound.error {
                s.give_up(bound)
            } else {
                sem_eval(bound.with_expr(body), fuel).with_env(s.env)
            }
        }),
{
    let start = s.with_env(call_env(s.env, captured));
    let given = s.after(start).with_expr(arg);
    assert(given == s.with_expr(arg));
    let v = sem_eval(given, fuel);
    let next = start.after(v).bind(param, v.expr);
    assert(sem_bind_args(next, Sexp::Nil, Sexp::Nil, false, s, fuel) == next);
    assert(sem_bind_args(start, single(Sexp::Ident(param)), single(arg), false, s, fuel) == next);
}

/// No reserved name can be bound: the attempt yields the error sentinel with
/// cause `ReservedIdentifier`, and the bindings stay as they were.
pub proof fn law_reserved_names_stay_unbound(s: State, name: Seq<char>, value: Sexp)
    requires
        is_reserved(name),
    ensures
        s.bind(name, value) == s.fail(ErrorKind::ReservedIdentifier),
        s.bind(name, value).error,
        s.bind(name, value).cause == Some(ErrorKind::ReservedIdentifier),
        s.bind(name, value).env == s.env,
{
}

/// `def` of a reserved name yields the error sentinel, with cause
/// `ReservedIdentifier`, and binds nothing: the value is the empty list, and
/// the bindings are those that the evaluation of the value left, which for a
/// literal value are the bindings before the `def`. This holds at every
/// depth for the form's arguments, and from depth 1 for the whole form.
pub proof fn law_def_rejects_reserved(s: State, name: Seq<char>, e: Sexp, fuel: nat)
    requires
        is_reserved(name),
    ensures
        ({
            let c = sem_eval(s.with_expr(e), fuel);
            let r = sem_def(s, pair_of(Sexp::Ident(name), e), fuel);
            &&& r == c.fail(ErrorKind::ReservedIdentifier)
            &&& r.expr == Sexp::Nil
            &&& r.error
            &&& r.cause == Some(ErrorKind::ReservedIdentifier)
            &&& r.env == c.env
            &&& is_literal(e) ==> r.env == s.env
        }),
        fuel >= 1 ==> sem_eval(s.with_expr(form2("def"@, Sexp::Ident(name), e)), fuel) == sem_eval(
            s.with_expr(e),
            (fuel - 1) as nat,
        ).fail(ErrorKind::ReservedIdentifier),
{
    assert(pair_of(Sexp::Ident(name), e).list2() == Some((Sexp::Ident(name), e)));
    if fuel >= 1 {
        lemma_def_of_reserved_form(s, name, e, fuel);
    }
}

/// The whole form `(def name e)` for a reserved name, from depth 1.
proof fn lemma_def_of_reserved_form(s: State, name: Seq<char>, e: Sexp, fuel: nat)
    requires
        fuel >= 1,
        is_reserved(name),
    ensures
        sem_eval(s.with_expr(form2("def"@, Sexp::Ident(name), e)), fuel) == sem_eval(
            s.with_expr(e),
            (fuel - 1) as nat,
        ).fail(ErrorKind::ReservedIdentifier),
{
    lemma_keyword_names();
    let f = (fuel - 1) as nat;
    let target = Sexp::Ident(name);
    let s0 = s.with_expr(form2("def"@, target, e));
    let args = Sexp::Cons(Box::new(target), Box::new(Sexp::Cons(Box::new(e), Box::new(Sexp::Nil))));
    assert(args.list2() == Some((target, e)));
    assert(sem_eval(s0, fuel) == sem_apply(s0, Sexp::Ident("def"@), args, f));
    assert(sem_apply(s0, Sexp::Ident("def"@), args, f) == sem_form(s0, "def"@, args, f));
    assert(sem_form(s0, "def"@, args, f) == sem_def(s0, args, f));
    assert(s0.with_expr(e) == s.with_expr(e));
}

} // verus!
