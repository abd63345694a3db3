use rscheme::expr::Expr;
use rscheme::lexer::{LexError, Token};
use rscheme::reader::{parse, read, read_one, read_rest, ParseError, ReadError};
use std::rc::Rc;

fn name(s: &str) -> Rc<Expr> {
    Rc::new(Expr::Ident(s.to_string()))
}

fn whole(i: i64) -> Rc<Expr> {
    Rc::new(Expr::Integer(i))
}

fn chain(items: Vec<Rc<Expr>>) -> Rc<Expr> {
    let mut out = Rc::new(Expr::Nil);
    for item in items.into_iter().rev() {
        out = Rc::new(Expr::Cons(item, out));
    }
    out
}

fn parsed(src: &str) -> Vec<Rc<Expr>> {
    let text: Vec<char> = src.chars().collect();
    parse(&text).expect("the text is well formed")
}

fn refused(src: &str) -> ParseError {
    let text: Vec<char> = src.chars().collect();
    parse(&text).expect_err("the text is malformed")
}

#[test]
fn atoms_are_read_as_they_are() {
    let forms = parsed("12 foo \"bar\" 2.5");
    assert_eq!(forms.len(), 4);
    assert!(forms[0].equals(&Expr::Integer(12)));
    assert!(forms[1].equals(&Expr::Ident("foo".to_string())));
    assert!(forms[2].equals(&Expr::String("bar".to_string())));
    assert!(forms[3].equals(&Expr::Float(2.5f64.to_bits())));
}

#[test]
fn a_list_is_a_chain_of_pairs() {
    let forms = parsed("(a 1 (b 2) ())");
    assert_eq!(forms.len(), 1);
    let expected = chain(vec![
        name("a"),
        whole(1),
        chain(vec![name("b"), whole(2)]),
        Rc::new(Expr::Nil),
    ]);
    assert!(forms[0].equals(&expected));
}

#[test]
fn empty_parentheses_are_the_empty_list() {
    let forms = parsed("()");
    assert_eq!(forms.len(), 1);
    assert!(forms[0].equals(&Expr::Nil));
}

#[test]
fn a_mark_applies_to_the_next_form() {
    let forms = parsed("'a `(b ,c) ''d '(1 2)");
    assert_eq!(forms.len(), 4);
    assert!(forms[0].equals(&Expr::Quote(name("a"))));
    assert!(forms[1].equals(&Expr::Quasiquote(chain(vec![
        name("b"),
        Rc::new(Expr::Unquote(name("c"))),
    ]))));
    assert!(forms[2].equals(&Expr::Quote(Rc::new(Expr::Quote(name("d"))))));
    assert!(forms[3].equals(&Expr::Quote(chain(vec![whole(1), whole(2)]))));
}

#[test]
fn a_program_is_a_sequence_of_forms() {
    assert_eq!(parsed("").len(), 0);
    assert_eq!(parsed("; nothing here\n").len(), 0);
    assert_eq!(parsed("(def a 1)\n(def b 2)\n(+ a b)").len(), 3);
}

#[test]
fn an_open_list_is_refused() {
    assert_eq!(refused("(a b"), ParseError::Read(ReadError::UnexpectedEnd));
    assert_eq!(refused("(a (b)"), ParseError::Read(ReadError::UnexpectedEnd));
    assert_eq!(refused("("), ParseError::Read(ReadError::UnexpectedEnd));
}

#[test]
fn a_mark_without_a_form_is_refused() {
    assert_eq!(refused("'"), ParseError::Read(ReadError::UnexpectedEnd));
    assert_eq!(refused("(a `)"), ParseError::Read(ReadError::UnexpectedClose));
    assert_eq!(refused("1 ,"), ParseError::Read(ReadError::UnexpectedEnd));
}

#[test]
fn a_fault_in_the_tokens_is_reported_first() {
    assert_eq!(refused(")"), ParseError::Lex(LexError::UnbalancedParen));
    assert_eq!(refused("(a \"b"), ParseError::Lex(LexError::UnterminatedString));
    assert_eq!(refused("1.2.3"), ParseError::Lex(LexError::MultipleDots));
    assert_eq!(refused("12x"), ParseError::Lex(LexError::InvalidNumberChar));
}

#[test]
fn a_stray_closing_parenthesis_is_refused() {
    let tokens = vec![Token::Integer(1), Token::ClosingParen];
    assert_eq!(read(&tokens).expect_err("a stray parenthesis"), ReadError::UnexpectedClose);
    assert_eq!(read_one(&tokens, 1).expect_err("a stray parenthesis"), ReadError::UnexpectedClose);
}

#[test]
fn read_one_tells_where_the_form_ends() {
    let tokens = vec![
        Token::OpeningParen,
        Token::Ident("a".to_string()),
        Token::Quote,
        Token::Integer(2),
        Token::ClosingParen,
        Token::Integer(3),
    ];
    let (form, next) = read_one(&tokens, 0).expect("a list");
    assert_eq!(next, 5);
    assert!(form.equals(&chain(vec![name("a"), Rc::new(Expr::Quote(whole(2)))])));
    let (form, next) = read_one(&tokens, 5).expect("a number");
    assert_eq!(next, 6);
    assert!(form.equals(&Expr::Integer(3)));
    assert_eq!(read_one(&tokens, 6).expect_err("nothing left"), ReadError::UnexpectedEnd);
    let (form, next) = read_rest(&tokens, 2).expect("the rest of the list");
    assert_eq!(next, 5);
    assert!(form.equals(&chain(vec![Rc::new(Expr::Quote(whole(2)))])));
    let (form, next) = read_rest(&tokens, 4).expect("the end of the list");
    assert_eq!(next, 5);
    assert!(form.equals(&Expr::Nil));
}

#[test]
fn a_long_list_is_read_in_order() {
    let n: usize = 50000;
    let mut src = String::from("(");
    for i in 0..n {
        src.push_str(&i.to_string());
        src.push(' ');
    }
    src.push(')');
    let forms = parsed(&src);
    assert_eq!(forms.len(), 1);
    let mut cur: &Expr = &forms[0];
    let mut seen: usize = 0;
    while let Expr::Cons(head, tail) = cur {
        assert!(matches!(&**head, Expr::Integer(i) if *i == seen as i64));
        seen += 1;
        cur = tail;
    }
    assert!(matches!(cur, Expr::Nil));
    assert_eq!(seen, n);
    let mut rest = forms;
    while let Some(form) = rest.pop() {
        let mut cur = form;
        loop {
            let next = match &*cur {
                Expr::Cons(_, tail) => tail.clone(),
                _ => break,
            };
            cur = next;
        }
    }
}

#[test]
fn read_gives_every_form() {
    let tokens = vec![
        Token::Integer(1),
        Token::OpeningParen,
        Token::ClosingParen,
        Token::String("s".to_string()),
    ];
    let forms = read(&tokens).expect("three forms");
    assert_eq!(forms.len(), 3);
    assert!(forms[0].equals(&Expr::Integer(1)));
    assert!(forms[1].equals(&Expr::Nil));
    assert!(forms[2].equals(&Expr::String("s".to_string())));
    assert_eq!(read(&Vec::new()).expect("no form").len(), 0);
}
