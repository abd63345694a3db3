use rscheme::context::{Context, ErrorKind, DEFAULT_DEPTH};
use rscheme::eval::{arith, float_op, int_op, numeric, to_double};
use rscheme::expr::{Env, Expr};
use rscheme::semantics::ArithOp;
use rscheme::reader::parse;
use std::rc::Rc;

fn sym(name: &str) -> Rc<Expr> {
    Rc::new(Expr::Ident(name.to_string()))
}

fn num(i: i64) -> Rc<Expr> {
    Rc::new(Expr::Integer(i))
}

fn dbl(x: f64) -> Rc<Expr> {
    Rc::new(Expr::Float(x.to_bits()))
}

fn nil() -> Rc<Expr> {
    Rc::new(Expr::Nil)
}

fn list(items: Vec<Rc<Expr>>) -> Rc<Expr> {
    let mut out = nil();
    for item in items.into_iter().rev() {
        out = Rc::new(Expr::Cons(item, out));
    }
    out
}

fn forms(src: &str) -> Vec<Rc<Expr>> {
    let chars: Vec<char> = src.chars().collect();
    parse(&chars).expect("the text is well formed")
}

fn run(src: &str) -> Context {
    Context::new().eval_file(&forms(src))
}

fn run_in(c: &Context, src: &str) -> Context {
    c.eval_file(&forms(src))
}

fn gives(src: &str, expected: &Expr) {
    let c = run(src);
    assert!(!c.has_error(), "{} failed with {:?}", src, c.cause());
    assert!(c.expr.equals(expected), "{} gave {:?}, not {:?}", src, c.expr, expected);
}

fn fails(src: &str, kind: ErrorKind) {
    let c = run(src);
    assert!(c.has_error(), "{} did not fail", src);
    assert_eq!(c.cause(), Some(kind), "{}", src);
    assert!(c.expr.equals(&Expr::Nil), "{} left {:?}", src, c.expr);
}

fn float_of(c: &Context) -> f64 {
    match &*c.expr {
        Expr::Float(bits) => f64::from_bits(*bits),
        other => panic!("not a double: {:?}", other),
    }
}

#[test]
fn plus_of_two_integers() {
    let c = Context::new().eval_expr(list(vec![sym("+"), num(2), num(3)]));
    assert!(!c.has_error());
    assert!(c.expr.equals(&Expr::Integer(5)));
}

#[test]
fn integer_arithmetic_is_exact() {
    gives("(+ 40 2)", &Expr::Integer(42));
    gives("(- 2 5)", &Expr::Integer(-3));
    gives("(* 6 7)", &Expr::Integer(42));
    gives("(/ 7 2)", &Expr::Integer(3));
    gives("(/ 6 3)", &Expr::Integer(2));
}

#[test]
fn integer_division_rounds_toward_zero() {
    let cases: Vec<(i64, i64, i64)> =
        vec![(7, 2, 3), (-7, 2, -3), (7, -2, -3), (-7, -2, 3), (0, 5, 0), (0, -5, 0)];
    for (a, b, q) in cases {
        let c = Context::new().eval_expr(list(vec![sym("/"), num(a), num(b)]));
        assert!(!c.has_error());
        assert!(c.expr.equals(&Expr::Integer(q)), "{} / {} gave {:?}", a, b, c.expr);
    }
}

#[test]
fn integer_arithmetic_on_negative_operands() {
    let c = Context::new().eval_expr(list(vec![sym("+"), num(-4), num(-6)]));
    assert!(c.expr.equals(&Expr::Integer(-10)));
    let c = Context::new().eval_expr(list(vec![sym("*"), num(-4), num(6)]));
    assert!(c.expr.equals(&Expr::Integer(-24)));
    let c = Context::new().eval_expr(list(vec![sym("-"), num(i64::MIN), num(-1)]));
    assert!(c.expr.equals(&Expr::Integer(i64::MIN + 1)));
}

#[test]
fn integer_overflow_is_an_error() {
    fails("(+ 9223372036854775807 1)", ErrorKind::Arithmetic);
    fails("(* 9223372036854775807 2)", ErrorKind::Arithmetic);
    fails("(- (- 0 9223372036854775807) 2)", ErrorKind::Arithmetic);
    let c = Context::new().eval_expr(list(vec![sym("/"), num(i64::MIN), num(-1)]));
    assert!(c.has_error());
    assert_eq!(c.cause(), Some(ErrorKind::Arithmetic));
}

#[test]
fn integer_division_by_zero_is_an_error() {
    fails("(/ 1 0)", ErrorKind::Arithmetic);
    fails("(/ 0 0)", ErrorKind::Arithmetic);
}

#[test]
fn a_double_operand_makes_the_result_a_double() {
    assert_eq!(float_of(&run("(+ 1.5 2)")), 3.5);
    assert_eq!(float_of(&run("(+ 2 1.5)")), 3.5);
    assert_eq!(float_of(&run("(+ 1.5 2.25)")), 3.75);
    assert_eq!(float_of(&run("(- 1 0.5)")), 0.5);
    assert_eq!(float_of(&run("(- 0.5 1)")), -0.5);
    assert_eq!(float_of(&run("(* 2 1.5)")), 3.0);
    assert_eq!(float_of(&run("(* 1.5 1.5)")), 2.25);
    assert_eq!(float_of(&run("(/ 1 4.0)")), 0.25);
    assert_eq!(float_of(&run("(/ 1.0 4)")), 0.25);
    assert_eq!(float_of(&run("(/ 1.0 3.0)")), 1.0 / 3.0);
}

#[test]
fn double_arithmetic_agrees_with_the_machine() {
    let xs: Vec<f64> = vec![0.0, 1.0, -1.5, 0.1, 1e300, -2.5e-300, 3.0e10, 123456.789];
    for a in xs.iter() {
        for b in xs.iter() {
            let sum = Context::new().eval_expr(list(vec![sym("+"), dbl(*a), dbl(*b)]));
            assert_eq!(float_of(&sum), a + b);
            let diff = Context::new().eval_expr(list(vec![sym("-"), dbl(*a), dbl(*b)]));
            assert_eq!(float_of(&diff), a - b);
            let product = Context::new().eval_expr(list(vec![sym("*"), dbl(*a), dbl(*b)]));
            assert_eq!(float_of(&product), a * b);
            if *b != 0.0 {
                let quotient = Context::new().eval_expr(list(vec![sym("/"), dbl(*a), dbl(*b)]));
                assert_eq!(float_of(&quotient), a / b);
            }
        }
    }
}

#[test]
fn an_integer_is_widened_to_the_nearest_double() {
    let big: i64 = 9007199254740993;
    let c = Context::new().eval_expr(list(vec![sym("+"), num(big), dbl(0.0)]));
    assert_eq!(float_of(&c), big as f64);
    let c = Context::new().eval_expr(list(vec![sym("*"), dbl(1.0), num(-3)]));
    assert_eq!(float_of(&c), -3.0);
}

#[test]
fn promotion_picks_between_the_integer_and_the_double_result() {
    let d = 42.5f64.to_bits();
    let ops = vec![ArithOp::Add, ArithOp::Sub, ArithOp::Mul, ArithOp::Div];
    for op in ops {
        let r = numeric(op, &Expr::Integer(6), &Expr::Float(0), d).expect("a double");
        assert!(r.equals(&Expr::Float(d)));
        let r = numeric(op, &Expr::Float(0), &Expr::Integer(6), d).expect("a double");
        assert!(r.equals(&Expr::Float(d)));
        let r = numeric(op, &Expr::Float(1), &Expr::Float(2), d).expect("a double");
        assert!(r.equals(&Expr::Float(d)));
        assert_eq!(
            numeric(op, &Expr::Nil, &Expr::Integer(1), d).expect_err("no number"),
            ErrorKind::TypeMismatch
        );
        assert_eq!(
            numeric(op, &Expr::Float(1), &Expr::String("1".to_string()), d).expect_err("no number"),
            ErrorKind::TypeMismatch
        );
    }
    let r = numeric(ArithOp::Add, &Expr::Integer(6), &Expr::Integer(3), d).expect("an integer");
    assert!(r.equals(&Expr::Integer(9)));
    let r = numeric(ArithOp::Sub, &Expr::Integer(6), &Expr::Integer(3), d).expect("an integer");
    assert!(r.equals(&Expr::Integer(3)));
    let r = numeric(ArithOp::Mul, &Expr::Integer(6), &Expr::Integer(3), d).expect("an integer");
    assert!(r.equals(&Expr::Integer(18)));
    let r = numeric(ArithOp::Div, &Expr::Integer(6), &Expr::Integer(3), d).expect("an integer");
    assert!(r.equals(&Expr::Integer(2)));
    assert_eq!(
        numeric(ArithOp::Div, &Expr::Integer(6), &Expr::Integer(0), d).expect_err("no quotient"),
        ErrorKind::Arithmetic
    );
    assert_eq!(int_op(ArithOp::Mul, i64::MAX, 2), None);
    assert_eq!(int_op(ArithOp::Sub, i64::MIN, 1), None);
    assert_eq!(int_op(ArithOp::Add, 1, 2), Some(3));
    assert_eq!(to_double(&Expr::Integer(3)), Some(3.0f64.to_bits()));
    assert_eq!(to_double(&Expr::Float(7)), Some(7));
    assert_eq!(to_double(&Expr::Nil), None);
    assert_eq!(float_op(ArithOp::Mul, 1.5f64.to_bits(), 2.0f64.to_bits()), 3.0f64.to_bits());
    let r = arith(ArithOp::Add, &Expr::Integer(1), &Expr::Float(0.5f64.to_bits())).expect("a sum");
    assert!(r.equals(&Expr::Float(1.5f64.to_bits())));
}

#[test]
fn double_division_by_zero_is_an_infinity() {
    assert_eq!(float_of(&run("(/ 1.0 0)")), f64::INFINITY);
    assert_eq!(float_of(&run("(/ 1 0.0)")), f64::INFINITY);
    assert!(float_of(&run("(/ 0.0 0.0)")).is_nan());
}

#[test]
fn arithmetic_on_other_values_is_a_type_error() {
    fails("(+ 1 \"a\")", ErrorKind::TypeMismatch);
    fails("(- () 1)", ErrorKind::TypeMismatch);
    fails("(* '(1) 2)", ErrorKind::TypeMismatch);
    fails("(/ 1.5 'x)", ErrorKind::TypeMismatch);
}

#[test]
fn arithmetic_takes_exactly_two_arguments() {
    fails("(+)", ErrorKind::MalformedForm);
    fails("(+ 1)", ErrorKind::MalformedForm);
    fails("(+ 1 2 3)", ErrorKind::MalformedForm);
    fails("(/ 1 2 3)", ErrorKind::MalformedForm);
}

#[test]
fn a_failed_operand_counts_as_the_empty_list() {
    fails("(+ (car 5) 1)", ErrorKind::TypeMismatch);
    let c = run("(cons (car 5) 2)");
    assert!(!c.has_error());
    assert!(c.expr.equals(&Expr::Cons(nil(), num(2))));
}

#[test]
fn if_takes_the_else_branch_on_the_empty_list() {
    gives("(if () 1 2)", &Expr::Integer(2));
    gives("(if (cdr '(1)) 1 2)", &Expr::Integer(2));
}

#[test]
fn if_takes_the_then_branch_on_anything_else() {
    gives("(if 0 1 2)", &Expr::Integer(1));
    gives("(if '(1 2) 1 2)", &Expr::Integer(1));
    gives("(if \"\" 1 2)", &Expr::Integer(1));
    gives("(if 0.0 1 2)", &Expr::Integer(1));
    gives("(if 't 1 2)", &Expr::Integer(1));
}

#[test]
fn if_evaluates_the_chosen_branch_only() {
    let c = run("(if () (print-debug 1) (print-debug 2))");
    let printed = c.printed();
    assert_eq!(printed.len(), 1);
    assert!(printed[0].equals(&Expr::Integer(2)));
    gives("(if 1 2 (car 5))", &Expr::Integer(2));
}

#[test]
fn if_takes_exactly_three_arguments() {
    fails("(if)", ErrorKind::MalformedForm);
    fails("(if 1)", ErrorKind::MalformedForm);
    fails("(if 1 2)", ErrorKind::MalformedForm);
    fails("(if 1 2 3 4)", ErrorKind::MalformedForm);
}

#[test]
fn quote_returns_its_content_unevaluated() {
    let c = run("'(a b c)");
    assert!(!c.has_error());
    assert!(c.expr.equals(&list(vec![sym("a"), sym("b"), sym("c")])));
    let c = run("'(1 2 3)");
    assert!(c.expr.equals(&list(vec![num(1), num(2), num(3)])));
    let c = run("'(+ 1 2)");
    assert!(c.expr.equals(&list(vec![sym("+"), num(1), num(2)])));
}

#[test]
fn car_and_cdr_undo_cons() {
    gives("(car (cons 1 2))", &Expr::Integer(1));
    gives("(cdr (cons 1 2))", &Expr::Integer(2));
    gives("(car (cons (+ 1 2) (* 2 5)))", &Expr::Integer(3));
    gives("(cdr (cons (+ 1 2) (* 2 5)))", &Expr::Integer(10));
    let c = run("(cdr (cons 1 '(2 3)))");
    assert!(c.expr.equals(&list(vec![num(2), num(3)])));
}

#[test]
fn cons_pairs_its_operands() {
    let c = run("(cons 1 (cons 2 ()))");
    assert!(!c.has_error());
    assert!(c.expr.equals(&list(vec![num(1), num(2)])));
    fails("(cons 1)", ErrorKind::MalformedForm);
    fails("(cons 1 2 3)", ErrorKind::MalformedForm);
}

#[test]
fn car_and_cdr_need_a_pair() {
    fails("(car 5)", ErrorKind::TypeMismatch);
    fails("(cdr ())", ErrorKind::TypeMismatch);
    fails("(car)", ErrorKind::MalformedForm);
    fails("(cdr 1 2)", ErrorKind::MalformedForm);
}

#[test]
fn a_closure_keeps_what_it_captured() {
    let c = run("(def y 5) (def f (lambda (x) (+ x y))) (f 10)");
    assert!(!c.has_error());
    assert!(c.expr.equals(&Expr::Integer(15)));
    let later = run_in(&c, "(def y 99) (f 10)");
    assert!(!later.has_error());
    assert!(later.expr.equals(&Expr::Integer(15)));
    let y = run_in(&later, "y");
    assert!(y.expr.equals(&Expr::Integer(99)));
}

#[test]
fn a_closure_captures_its_free_identifiers_only() {
    let c = run("(def y 5) (def z 6) (lambda (x) (+ x y))");
    match &*c.expr {
        Expr::Lambda(_, _, Some(env)) => {
            assert!(env.get("y").expect("y is captured").equals(&Expr::Integer(5)));
            assert!(env.get("z").is_none());
            assert!(env.get("x").is_none());
            assert!(env.get("+").is_none());
        }
        other => panic!("not a closure with captures: {:?}", other),
    }
    let c = run("(def y 5) (lambda (x) (+ x 1))");
    assert!(matches!(&*c.expr, Expr::Lambda(_, _, None)));
}

#[test]
fn a_closure_leaves_inner_lambdas_and_quotes_alone() {
    let c = run("(lambda (x) (lambda (y) (+ x unbound)))");
    assert!(!c.has_error());
    assert!(matches!(&*c.expr, Expr::Lambda(_, _, None)));
    let c = run("(lambda (x) '(a b unbound))");
    assert!(matches!(&*c.expr, Expr::Lambda(_, _, None)));
    let c = run("(lambda (x) `(a b unbound))");
    assert!(matches!(&*c.expr, Expr::Lambda(_, _, None)));
    fails("(lambda (x) `(a ,unbound))", ErrorKind::CaptureFailure);
    let c = run("(def k 3) (lambda (x) `(a ,k))");
    match &*c.expr {
        Expr::Lambda(_, _, Some(env)) => assert!(env.get("k").is_some()),
        other => panic!("not a closure with captures: {:?}", other),
    }
}

#[test]
fn a_closure_needs_its_free_identifiers_bound() {
    fails("(lambda (x) (+ x y))", ErrorKind::CaptureFailure);
}

#[test]
fn a_named_lambda_can_call_itself() {
    gives(
        "(lambda fact (n) (if (= n 0) 1 (* n (fact (- n 1))))) (fact 5)",
        &Expr::Integer(120),
    );
    let c = run("(lambda id (x) x)");
    assert!(!c.has_error());
    assert!(matches!(&*c.expr, Expr::Lambda(_, _, None)));
    let bound = run_in(&c, "id");
    assert!(bound.expr.equals(&c.expr));
}

#[test]
fn lambda_checks_its_shape() {
    fails("(lambda)", ErrorKind::MalformedForm);
    fails("(lambda (x))", ErrorKind::MalformedForm);
    fails("(lambda (1) 1)", ErrorKind::MalformedForm);
    fails("(lambda x x)", ErrorKind::MalformedForm);
    fails("(lambda ((a b)) a)", ErrorKind::MalformedForm);
    fails("(lambda 5 (x) x)", ErrorKind::MalformedForm);
    fails("(lambda f (x) x x)", ErrorKind::MalformedForm);
    fails("(lambda if (x) x)", ErrorKind::ReservedIdentifier);
}

#[test]
fn a_call_binds_parameters_to_evaluated_arguments() {
    gives("((lambda (a b) (- a b)) (+ 1 2) 1)", &Expr::Integer(2));
    gives("(def twice (lambda (f x) (f (f x)))) (def inc (lambda (n) (+ n 1))) (twice inc 5)", &Expr::Integer(7));
    gives("((lambda () 7))", &Expr::Integer(7));
}

#[test]
fn a_call_does_not_leak_its_bindings() {
    let c = run("(def f (lambda (x) (def x (+ x 1)))) (f 3)");
    assert!(!c.has_error());
    assert!(c.expr.equals(&Expr::Integer(4)));
    assert!(c.env.get("x").is_none());
    assert!(c.env.get("f").is_some());
    let c = run("(def x 1) (def f (lambda (x) (def x (+ x 1)))) (f 3) x");
    assert!(c.expr.equals(&Expr::Integer(1)));
}

#[test]
fn the_target_of_a_def_in_a_body_counts_as_a_reference() {
    fails("(lambda (x) (def inner x))", ErrorKind::CaptureFailure);
    let c = run("(def inner 0) (lambda (x) (def inner x))");
    assert!(!c.has_error());
}

#[test]
fn arguments_are_evaluated_at_the_call_site() {
    gives("(def a 1) ((lambda (a b) b) 5 a)", &Expr::Integer(1));
}

#[test]
fn a_call_checks_the_number_of_arguments() {
    let c = run("(def f (lambda (x) x)) (f)");
    assert!(c.has_error());
    assert_eq!(c.cause(), Some(ErrorKind::MalformedForm));
    let c = run("(def f (lambda (x) x)) (f 1 2)");
    assert!(c.has_error());
    assert_eq!(c.cause(), Some(ErrorKind::MalformedForm));
    assert!(c.env.get("f").is_some());
}

#[test]
fn a_macro_receives_its_argument_unevaluated() {
    let c = run("(def foo 42) (defmacro head-of (a) (car a)) (head-of (foo bar))");
    assert!(!c.has_error());
    assert!(c.expr.equals(&Expr::Integer(42)));
    let c = run("(defmacro first-of (a b) a) (first-of (+ 1 2) (car 5))");
    assert!(!c.has_error());
    assert!(c.expr.equals(&Expr::Integer(3)));
    let c = run("(defmacro skip (a) 1) (skip (print-debug 7))");
    assert!(!c.has_error());
    assert!(c.expr.equals(&Expr::Integer(1)));
    assert_eq!(c.printed().len(), 0);
}

#[test]
fn a_lambda_evaluates_what_a_macro_leaves_alone() {
    let m = run("(defmacro skip (a) 1) (skip (print-debug 7))");
    let f = run("(def skip (lambda (a) 1)) (skip (print-debug 7))");
    assert!(m.expr.equals(&Expr::Integer(1)));
    assert!(f.expr.equals(&Expr::Integer(1)));
    assert_eq!(m.printed().len(), 0);
    assert_eq!(f.printed().len(), 1);
    assert!(f.printed()[0].equals(&Expr::Integer(7)));

    let m = run("(def foo 42) (defmacro head-of (a) (car a)) (head-of (foo bar))");
    assert!(!m.has_error());
    assert!(m.expr.equals(&Expr::Integer(42)));
    let f = run("(def foo 42) (def head-of (lambda (a) (car a))) (head-of (foo bar))");
    assert!(f.has_error());
    assert!(f.expr.equals(&Expr::Nil));
}

#[test]
fn a_call_drops_the_flag_of_a_failed_argument() {
    let c = run("(def one (lambda (a) 1)) (one (car 5))");
    assert!(!c.has_error());
    assert!(c.expr.equals(&Expr::Integer(1)));
    assert_eq!(c.failures(), vec![ErrorKind::TypeMismatch]);
    let c = run("(def same (lambda (a) a)) (same (car 5))");
    assert!(!c.has_error());
    assert!(c.expr.equals(&Expr::Nil));
}

#[test]
fn a_macro_expansion_is_evaluated_at_the_call_site() {
    gives(
        "(defmacro unless (c x) `(if ,c () ,x)) (def n 4) (unless () (+ n 1))",
        &Expr::Integer(5),
    );
    let c = run("(defmacro set (a) `(def ,a 1)) (set q)");
    assert!(!c.has_error());
    assert!(c.env.get("q").expect("q is bound").equals(&Expr::Integer(1)));
    assert!(c.env.get("a").is_none());
}

#[test]
fn defmacro_checks_its_shape() {
    fails("(defmacro)", ErrorKind::MalformedForm);
    fails("(defmacro m (a))", ErrorKind::MalformedForm);
    fails("(defmacro m (a) a a)", ErrorKind::MalformedForm);
    fails("(defmacro 5 (a) a)", ErrorKind::MalformedForm);
    fails("(defmacro car (a) a)", ErrorKind::ReservedIdentifier);
    let c = run("(defmacro m (a) a)");
    assert!(matches!(&*c.expr, Expr::Macro(_, _)));
}

#[test]
fn a_macro_call_checks_the_number_of_arguments() {
    let c = run("(defmacro m (a) a) (m)");
    assert!(c.has_error());
    assert_eq!(c.cause(), Some(ErrorKind::MalformedForm));
    let c = run("(defmacro m (a) a) (m 1 2)");
    assert!(c.has_error());
}

#[test]
fn no_reserved_name_can_be_bound() {
    let names = vec![
        "print-debug", "defmacro", "cons", "lambda", "eval", "def", "if", "+", "-", "*", "/", "=",
        "car", "cdr",
    ];
    for name in names {
        let before = run("(def x 1)");
        let c = before.eval_expr(list(vec![sym("def"), sym(name), num(1)]));
        assert!(c.has_error(), "{}", name);
        assert_eq!(c.cause(), Some(ErrorKind::ReservedIdentifier), "{}", name);
        assert!(c.env.get(name).is_none(), "{}", name);
        assert!(c.env.equals(&before.env), "{}", name);

        let direct = before.add_env(name.to_string(), num(1));
        assert!(direct.has_error());
        assert!(direct.expr.equals(&Expr::Nil));
        assert!(direct.env.equals(&before.env));
    }
}

#[test]
fn other_names_can_be_bound() {
    let c = Context::new().add_env("iff".to_string(), num(1));
    assert!(!c.has_error());
    assert!(c.env.get("iff").expect("iff is bound").equals(&Expr::Integer(1)));
    let c = Context::new().add_env("t".to_string(), num(2));
    assert!(!c.has_error());
    let c = Context::new().add_env("_+".to_string(), num(2));
    assert!(!c.has_error());
}

#[test]
fn a_literal_evaluates_to_itself() {
    let literals = vec![
        nil(),
        num(7),
        dbl(2.5),
        Rc::new(Expr::String("hello".to_string())),
    ];
    for e in literals {
        let once = Context::new().eval_expr(e.clone());
        assert!(!once.has_error());
        assert!(once.expr.equals(&e));
        let twice = once.eval();
        assert!(!twice.has_error());
        assert!(twice.expr.equals(&once.expr));
    }
    let c = Context::new().with_limit(0).eval_expr(num(3));
    assert!(c.expr.equals(&Expr::Integer(3)));
}

#[test]
fn equal_compares_structure() {
    gives("(= '(1 2) '(1 2))", &Expr::Ident("t".to_string()));
    gives("(= 1 2)", &Expr::Nil);
    gives("(= 1 1)", &Expr::Ident("t".to_string()));
    gives("(= '(1 2) '(1 3))", &Expr::Nil);
    gives("(= '(1 2) '(1 2 3))", &Expr::Nil);
    gives("(= \"a\" \"a\")", &Expr::Ident("t".to_string()));
    gives("(= \"a\" 'a)", &Expr::Nil);
    gives("(= () ())", &Expr::Ident("t".to_string()));
    gives("(= 1 1.0)", &Expr::Nil);
    gives("(= 1.5 1.5)", &Expr::Ident("t".to_string()));
    gives("(= ''a ''a)", &Expr::Ident("t".to_string()));
}

#[test]
fn equal_compares_doubles_as_numbers() {
    assert!(dbl(0.0).equals(&dbl(-0.0)));
    assert!(!dbl(f64::NAN).equals(&dbl(f64::NAN)));
    assert!(dbl(f64::INFINITY).equals(&dbl(f64::INFINITY)));
    assert!(!dbl(f64::INFINITY).equals(&dbl(f64::NEG_INFINITY)));
    assert!(!dbl(1.0).equals(&dbl(2.0)));
    let samples: Vec<f64> = vec![
        0.0, -0.0, 1.0, -1.0, f64::NAN, f64::INFINITY, f64::NEG_INFINITY, f64::MIN_POSITIVE,
        f64::MAX, 5e-324,
    ];
    for a in samples.iter() {
        for b in samples.iter() {
            assert_eq!(dbl(*a).equals(&dbl(*b)), a == b, "{} {}", a, b);
        }
    }
}

#[test]
fn equal_compares_captured_bindings_as_mappings() {
    let body = sym("x");
    let params = list(vec![sym("p")]);
    let ab = Env::bind(&Env::bind(&Rc::new(Env::Empty), "a".to_string(), num(1)), "b".to_string(), num(2));
    let ba = Env::bind(&Env::bind(&Rc::new(Env::Empty), "b".to_string(), num(2)), "a".to_string(), num(1));
    let shadowed = Env::bind(&ab, "a".to_string(), num(1));
    let other = Env::bind(&ab, "a".to_string(), num(3));
    let f = |env: Option<Rc<Env>>| Expr::Lambda(params.clone(), body.clone(), env);
    assert!(f(Some(ab.clone())).equals(&f(Some(ba.clone()))));
    assert!(f(Some(ab.clone())).equals(&f(Some(shadowed))));
    assert!(!f(Some(ab.clone())).equals(&f(Some(other))));
    assert!(!f(Some(ab.clone())).equals(&f(None)));
    assert!(!f(Some(Rc::new(Env::Empty))).equals(&f(None)));
    assert!(f(None).equals(&f(None)));
    assert!(!f(Some(ab)).equals(&f(Some(Env::bind(&ba, "c".to_string(), num(3))))));
}

#[test]
fn equal_takes_exactly_two_arguments() {
    fails("(= 1)", ErrorKind::MalformedForm);
    fails("(= 1 2 3)", ErrorKind::MalformedForm);
}

#[test]
fn an_unbound_identifier_is_an_error() {
    fails("nowhere", ErrorKind::UnboundIdentifier);
    fails("(nowhere 1 2)", ErrorKind::UnboundIdentifier);
    let c = Context::new().lookup(&"nowhere".to_string());
    assert!(c.has_error());
    assert!(c.expr.equals(&Expr::Nil));
}

#[test]
fn lookup_finds_the_latest_binding() {
    let c = Context::new().add_env("a".to_string(), num(1)).add_env("a".to_string(), num(2));
    let found = c.lookup(&"a".to_string());
    assert!(!found.has_error());
    assert!(found.expr.equals(&Expr::Integer(2)));
}

#[test]
fn only_closures_macros_and_forms_can_be_applied() {
    fails("(1 2)", ErrorKind::NotCallable);
    fails("(\"f\" 2)", ErrorKind::NotCallable);
    fails("(def n 5) (n 1)", ErrorKind::NotCallable);
    fails("('(1) 2)", ErrorKind::NotCallable);
}

#[test]
fn the_head_of_an_application_is_evaluated() {
    gives("((if 1 'car 'cdr) '(1 2))", &Expr::Integer(1));
    gives("((if () 'car 'cdr) '(1 2))", &Expr::Cons(num(2), nil()));
    gives("((lambda (x) (* x x)) 4)", &Expr::Integer(16));
    gives("(def plus '+) (plus 1 2)", &Expr::Integer(3));
}

#[test]
fn def_binds_and_returns_the_value() {
    let c = run("(def x (+ 1 2))");
    assert!(!c.has_error());
    assert!(c.expr.equals(&Expr::Integer(3)));
    assert!(c.env.get("x").expect("x is bound").equals(&Expr::Integer(3)));
    gives("(def x 1) (def x 2) x", &Expr::Integer(2));
}

#[test]
fn def_checks_its_shape() {
    fails("(def)", ErrorKind::MalformedForm);
    fails("(def x)", ErrorKind::MalformedForm);
    fails("(def x 1 2)", ErrorKind::MalformedForm);
    fails("(def 5 1)", ErrorKind::MalformedForm);
    fails("(def \"x\" 1)", ErrorKind::MalformedForm);
}

#[test]
fn def_of_a_reserved_name_gives_the_sentinel() {
    let c = run("(def if 1)");
    assert!(c.has_error());
    assert_eq!(c.cause(), Some(ErrorKind::ReservedIdentifier));
    assert!(c.expr.equals(&Expr::Nil));
    assert!(c.env.equals(&Env::Empty));
    assert_eq!(c.failures(), vec![ErrorKind::ReservedIdentifier]);
    let form = list(vec![sym("if"), num(1)]);
    let direct = Context::new().eval_def(&form, 0);
    assert!(direct.has_error());
    assert!(direct.expr.equals(&Expr::Nil));
    assert!(direct.env.equals(&Env::Empty));
    let c = run("(def a 1) (def cons (+ a 1))");
    assert!(c.has_error());
    assert!(c.expr.equals(&Expr::Nil));
    assert!(c.env.get("a").is_some());
    assert!(c.env.get("cons").is_none());
}

#[test]
fn a_malformed_form_evaluates_nothing() {
    let c = run("(def 5 (print-debug 1))");
    assert!(c.has_error());
    assert_eq!(c.cause(), Some(ErrorKind::MalformedForm));
    assert_eq!(c.printed().len(), 0);
    assert_eq!(c.failures(), vec![ErrorKind::MalformedForm]);
    let c = run("(+ (print-debug 1))");
    assert_eq!(c.printed().len(), 0);
    let c = run("(= (print-debug 1))");
    assert!(c.has_error());
    assert!(c.expr.equals(&Expr::Nil));
    assert_eq!(c.printed().len(), 0);
    let c = run("(if (print-debug 1) 2)");
    assert_eq!(c.printed().len(), 0);
    let c = run("(cons (print-debug 1))");
    assert_eq!(c.printed().len(), 0);
    let c = run("(car (print-debug 1) 2)");
    assert_eq!(c.printed().len(), 0);
    let c = run("(eval (print-debug 1) 2)");
    assert_eq!(c.printed().len(), 0);
}

#[test]
fn equal_does_not_look_at_the_error_flag() {
    let c = run("(car 5) (= 1 1)");
    assert!(c.has_error());
    assert!(c.expr.equals(&Expr::Ident("t".to_string())));
    let c = run("(= (car 5) ())");
    assert!(c.expr.equals(&Expr::Ident("t".to_string())));
    assert_eq!(c.failures(), vec![ErrorKind::TypeMismatch]);
}

#[test]
fn print_debug_without_one_operand_emits_nothing() {
    let c = run("(print-debug)");
    assert!(c.has_error());
    assert_eq!(c.cause(), Some(ErrorKind::MalformedForm));
    assert!(c.expr.equals(&Expr::Nil));
    assert_eq!(c.printed().len(), 0);
    let c = run("(print-debug 1 2)");
    assert!(c.has_error());
    assert_eq!(c.printed().len(), 0);
    let c = run("(print-debug (car 5))");
    assert!(c.expr.equals(&Expr::Nil));
    assert_eq!(c.printed().len(), 1);
    assert!(c.printed()[0].equals(&Expr::Nil));
}

#[test]
fn every_failure_is_on_record() {
    let c = run("(def one (lambda (a) 1)) (one nowhere)");
    assert!(!c.has_error());
    assert_eq!(c.cause(), None);
    assert!(c.expr.equals(&Expr::Integer(1)));
    assert_eq!(c.failures(), vec![ErrorKind::UnboundIdentifier]);

    let c = run("(cons (car 5) (+ 1 \"a\"))");
    assert_eq!(
        c.failures(),
        vec![ErrorKind::TypeMismatch, ErrorKind::TypeMismatch]
    );

    let c = run("(+ (car 5) 1) nowhere (def if 1) (1 2) (/ 1 0) (lambda (x) y) (if 1)");
    assert_eq!(
        c.failures(),
        vec![
            ErrorKind::TypeMismatch,
            ErrorKind::TypeMismatch,
            ErrorKind::UnboundIdentifier,
            ErrorKind::ReservedIdentifier,
            ErrorKind::NotCallable,
            ErrorKind::Arithmetic,
            ErrorKind::CaptureFailure,
            ErrorKind::MalformedForm,
        ]
    );
    assert_eq!(c.without_failures().failures().len(), 0);
    assert!(c.without_failures().has_error());

    let c = run("(+ 1 2) '(a b) (def a 1)");
    assert_eq!(c.failures().len(), 0);
    let c = run_in(&Context::new().with_limit(0), "(+ 1 2)");
    assert_eq!(c.failures(), vec![ErrorKind::DepthExceeded]);
}

#[test]
fn the_special_forms_can_be_called_on_their_arguments() {
    let c = Context::new();
    let r = c.eval_plus(&list(vec![num(2), num(3)]), 0);
    assert!(!r.has_error());
    assert!(r.expr.equals(&Expr::Integer(5)));
    assert!(r.env.equals(&c.env));
    let r = c.eval_if(&list(vec![nil(), num(1), num(2)]), 0);
    assert!(r.expr.equals(&Expr::Integer(2)));
    let r = c.eval_if(&list(vec![num(0), num(1), num(2)]), 0);
    assert!(r.expr.equals(&Expr::Integer(1)));
    let pair = list(vec![sym("cons"), num(7), num(8)]);
    let r = c.eval_car(&list(vec![pair.clone()]), 1);
    assert!(!r.has_error());
    assert!(r.expr.equals(&Expr::Integer(7)));
    let r = c.eval_cdr(&list(vec![pair]), 1);
    assert!(r.expr.equals(&Expr::Integer(8)));
    let params = list(vec![sym("a"), sym("b"), sym("c")]);
    let args = list(vec![
        list(vec![sym("car"), num(5)]),
        sym("nowhere"),
        list(vec![sym("+"), num(1), num(2)]),
    ]);
    let r = c.eval_macro(&params, &sym("c"), &args, 1);
    assert!(!r.has_error());
    assert!(r.expr.equals(&Expr::Integer(3)));
    assert!(r.env.equals(&Env::Empty));
    assert_eq!(r.failures().len(), 0);
}

#[test]
fn eval_evaluates_twice() {
    gives("(eval '(+ 1 2))", &Expr::Integer(3));
    gives("(def e '(cons 1 2)) (car (eval e))", &Expr::Integer(1));
    fails("(eval)", ErrorKind::MalformedForm);
    fails("(eval 1 2)", ErrorKind::MalformedForm);
    fails("(eval nowhere)", ErrorKind::UnboundIdentifier);
}

#[test]
fn print_debug_emits_its_operand_and_returns_the_empty_list() {
    let c = run("(print-debug (+ 1 2))");
    assert!(!c.has_error());
    assert!(c.expr.equals(&Expr::Nil));
    let printed = c.printed();
    assert_eq!(printed.len(), 1);
    assert!(printed[0].equals(&Expr::Integer(3)));
    assert_eq!(c.without_printed().printed().len(), 0);
}

#[test]
fn what_is_emitted_comes_in_order_of_evaluation() {
    let c = run("(print-debug 1) (cons (print-debug 2) (print-debug 3)) ((lambda (a b) (print-debug 6)) (print-debug 4) (print-debug 5))");
    let printed = c.printed();
    assert_eq!(printed.len(), 6);
    for (i, e) in printed.iter().enumerate() {
        assert!(e.equals(&Expr::Integer(i as i64 + 1)), "{:?}", printed);
    }
}

#[test]
fn what_is_emitted_survives_a_failure() {
    let c = run("(+ (print-debug 1) (print-debug 2))");
    assert!(c.has_error());
    assert_eq!(c.cause(), Some(ErrorKind::TypeMismatch));
    assert_eq!(c.printed().len(), 2);
    let c = run("(car (print-debug 9))");
    assert!(c.has_error());
    assert_eq!(c.printed().len(), 1);
}

#[test]
fn quasiquote_evaluates_the_unquoted_parts_only() {
    let c = run("`(1 ,(+ 1 2) x)");
    assert!(!c.has_error());
    assert!(c.expr.equals(&list(vec![num(1), num(3), sym("x")])));
    let c = run("(def a 5) `(a ,a (b ,a))");
    assert!(c.expr.equals(&list(vec![sym("a"), num(5), list(vec![sym("b"), num(5)])])));
    gives("`7", &Expr::Integer(7));
    gives("`,(+ 1 1)", &Expr::Integer(2));
}

#[test]
fn quasiquote_does_not_nest() {
    let c = run("`(1 `(2 ,nowhere))");
    assert!(!c.has_error());
    let inner = Rc::new(Expr::Quasiquote(list(vec![num(2), Rc::new(Expr::Unquote(sym("nowhere")))])));
    assert!(c.expr.equals(&list(vec![num(1), inner])));
}

#[test]
fn values_that_are_not_forms_evaluate_to_themselves() {
    let closure = Rc::new(Expr::Lambda(nil(), num(1), None));
    let c = Context::new().eval_expr(closure.clone());
    assert!(c.expr.equals(&closure));
    let unquote = Rc::new(Expr::Unquote(sym("nowhere")));
    let c = Context::new().eval_expr(unquote.clone());
    assert!(!c.has_error());
    assert!(c.expr.equals(&unquote));
}

#[test]
fn a_failing_form_does_not_stop_the_program() {
    let c = run("(def a 1) (car 5) (def b 2)");
    assert!(c.env.get("a").is_some());
    assert!(c.env.get("b").is_some());
    assert!(c.expr.equals(&Expr::Integer(2)));
}

#[test]
fn the_error_flag_stays_once_set() {
    let c = run("(car 5) 7");
    assert!(c.has_error());
    assert!(c.expr.equals(&Expr::Integer(7)));
    assert_eq!(c.cause(), Some(ErrorKind::TypeMismatch));
}

#[test]
fn an_empty_program_changes_nothing() {
    let c = run("");
    assert!(!c.has_error());
    assert!(c.expr.equals(&Expr::Nil));
    assert!(c.env.equals(&Env::Empty));
}

#[test]
fn a_new_context_is_empty() {
    let c = Context::new();
    assert!(!c.has_error());
    assert_eq!(c.cause(), None);
    assert!(c.expr.equals(&Expr::Nil));
    assert!(c.env.equals(&Env::Empty));
    assert_eq!(c.printed().len(), 0);
    assert_eq!(c.limit, DEFAULT_DEPTH);
}

#[test]
fn set_expr_changes_the_expression_only() {
    let c = run("(def a 1) (car 5)");
    let d = c.set_expr(Expr::Integer(4));
    assert!(d.expr.equals(&Expr::Integer(4)));
    assert!(d.has_error());
    assert!(d.env.equals(&c.env));
    let d = c.set_rcexpr(num(5));
    assert!(d.expr.equals(&Expr::Integer(5)));
    assert!(c.expr.equals(&Expr::Nil));
}

#[test]
fn nesting_is_bounded() {
    let shallow = Context::new().with_limit(1);
    let c = run_in(&shallow, "(+ 1 2)");
    assert!(c.expr.equals(&Expr::Integer(3)));
    let c = run_in(&shallow, "(car (cons 1 2))");
    assert!(c.has_error());
    let c = run_in(&shallow, "(eval '(+ 1 2))");
    assert!(c.has_error());
    assert_eq!(c.cause(), Some(ErrorKind::DepthExceeded));
    let c = run_in(&Context::new().with_limit(0), "(+ 1 2)");
    assert_eq!(c.cause(), Some(ErrorKind::DepthExceeded));
    let c = run_in(&Context::new().with_limit(2), "(+ (+ 1 2) 3)");
    assert!(c.expr.equals(&Expr::Integer(6)));
}

#[test]
fn running_out_of_depth_is_never_forgotten() {
    let c = run_in(&Context::new().with_limit(1), "(cons (+ 1 2) 2)");
    assert!(!c.has_error());
    assert!(c.expr.equals(&Expr::Cons(nil(), num(2))));
    assert!(c.ran_out_of_depth());
    let later = run_in(&c, "(def a 1) a");
    assert!(later.ran_out_of_depth());
    assert_eq!(later.limit, 1);
    let c = run_in(&Context::new().with_limit(2), "(cons (+ 1 2) 2)");
    assert!(!c.ran_out_of_depth());
    assert!(c.expr.equals(&Expr::Cons(num(3), num(2))));
    let c = run("(def f (lambda (a) 1)) (f (car 5))");
    assert!(!c.ran_out_of_depth());
}

#[test]
fn endless_recursion_ends_with_an_error() {
    let c = run("(lambda spin (x) (spin x)) (spin 1)");
    assert!(c.has_error());
    assert_eq!(c.cause(), Some(ErrorKind::DepthExceeded));
    let c = run("(def x 'x) (x 1)");
    assert!(c.has_error());
    assert_eq!(c.cause(), Some(ErrorKind::DepthExceeded));
    let c = run("(def x '(x)) ((x) 1)");
    assert!(c.has_error());
}

#[test]
fn recursion_within_the_bound_succeeds() {
    gives(
        "(lambda sum (n) (if (= n 0) 0 (+ n (sum (- n 1))))) (sum 50)",
        &Expr::Integer(1275),
    );
}
