use minilisp::ast::{atom_eq, Atom, SExpr};
use minilisp::error::RuntimeError;
use minilisp::evaluator::{evaluate, Environment};
use minilisp::reader::Reader;
use minilisp::run::{install_std_lib, run_source, RunError};

const FUEL: u64 = 10_000;

fn text(s: &str) -> Vec<char> {
    s.chars().collect()
}

fn eval_program(src: &str) -> Result<Atom, RuntimeError> {
    let mut reader = Reader::new(src);
    let forms = reader.parse_sexprs().expect("program should parse");
    let mut env = Environment::new();
    install_std_lib(&mut env);
    let mut last = Atom::Nil;
    for f in &forms {
        last = evaluate(f, &mut env, FUEL)?;
    }
    Ok(last)
}

fn expect_number(src: &str, expected: f64) {
    match eval_program(src) {
        Ok(Atom::Num(n)) => assert_eq!(n.bits, expected.to_bits(), "program: {src}"),
        other => panic!("expected a number from {src}, got {other:?}"),
    }
}

fn expect_symbol(src: &str, name: &str) {
    match eval_program(src) {
        Ok(Atom::Quote(q)) => match *q {
            SExpr::Atom(Atom::Ident(id)) => assert_eq!(id, text(name), "program: {src}"),
            other => panic!("expected symbol {name} from {src}, got {other:?}"),
        },
        other => panic!("expected symbol {name} from {src}, got {other:?}"),
    }
}

fn expect_true(src: &str) {
    expect_symbol(src, "t");
}

fn expect_nil(src: &str) {
    match eval_program(src) {
        Ok(Atom::Nil) => {},
        other => panic!("expected nil from {src}, got {other:?}"),
    }
}

#[test]
fn scenario_addition() {
    expect_number("(+ 1 2)", 3.0);
}

#[test]
fn scenario_let_binding() {
    expect_number("(let x 5) (+ x 1)", 6.0);
}

#[test]
fn scenario_function_call() {
    expect_number("((fn (a b) (+ a b)) 2 3)", 5.0);
}

#[test]
fn scenario_if_branches() {
    expect_symbol("(if nil 'yes 'no)", "no");
    expect_symbol("(if t 'yes 'no)", "yes");
}

#[test]
fn scenario_car_cdr() {
    expect_number("(car (cons 1 2))", 1.0);
    expect_number("(cdr (cons 1 2))", 2.0);
}

#[test]
fn scenario_unterminated_form() {
    let r = run_source("(+ 1 2", FUEL);
    match r.err {
        Some(RunError::Parse(e)) => {
            assert!(matches!(
                e.kind,
                minilisp::error::ParseErrKind::ExpectedClosingParen
            ));
            assert_eq!(e.idx, 6);
        },
        other => panic!("expected a parse error, got {other:?}"),
    }
}

#[test]
fn arithmetic_all_operators() {
    expect_number("(- 1 2)", -1.0);
    expect_number("(* 2.5 2)", 5.0);
    expect_number("(/ 1 2)", 0.5);
    expect_number("(* (+ 1 2) (- 5 1))", 12.0);
}

#[test]
fn letfn_defines_and_calls() {
    expect_number("(letfn addone (x) (+ x 1)) (addone 4)", 5.0);
}

#[test]
fn eval_runs_quoted_data() {
    expect_number("(eval '(+ 1 2))", 3.0);
}

#[test]
fn eq_numbers() {
    expect_true("(eq 1 1)");
    expect_true("(eq 1.0 1)");
    expect_nil("(eq 1 2)");
    expect_true("(= 2 2)");
}

#[test]
fn eq_strings() {
    expect_true("(eq \"ab\" \"ab\")");
    expect_nil("(eq \"ab\" \"ac\")");
    expect_nil("(eq \"1\" 1)");
}

#[test]
fn eq_quotes_structural() {
    expect_true("(eq '(1 2) '(1 2))");
    expect_nil("(eq '(1 2) '(1 3))");
    expect_true("(eq 'abc 'abc)");
}

#[test]
fn eq_functions_by_identity() {
    expect_nil("(eq (fn () 'x) (fn () 'x))");
    expect_true("(let f (fn () 'x)) (eq f f)");
}

#[test]
fn scope_hygiene_binding_invisible_after_call() {
    match eval_program("((fn (x) (let y 5)) 1) y") {
        Err(RuntimeError::UnboundName(n)) => assert_eq!(n, text("y")),
        other => panic!("expected unbound y, got {other:?}"),
    }
}

#[test]
fn scope_hygiene_shadowing_restored() {
    expect_number("(let z 7) ((fn (x) (let z 9)) 1) z", 7.0);
}

#[test]
fn stack_empty_after_error() {
    let mut reader = Reader::new("(+ 1 'a)");
    let forms = reader.parse_sexprs().unwrap();
    let mut env = Environment::new();
    install_std_lib(&mut env);
    assert!(evaluate(&forms[0], &mut env, FUEL).is_err());
    assert_eq!(env.stack.len(), 0);
}

#[test]
fn stack_empty_after_success() {
    let mut reader = Reader::new("(+ (+ 1 2) (* 2 2))");
    let forms = reader.parse_sexprs().unwrap();
    let mut env = Environment::new();
    install_std_lib(&mut env);
    assert!(evaluate(&forms[0], &mut env, FUEL).is_ok());
    assert_eq!(env.stack.len(), 0);
}

#[test]
fn error_unbound_name() {
    match eval_program("nope") {
        Err(RuntimeError::UnboundName(n)) => assert_eq!(n, text("nope")),
        other => panic!("got {other:?}"),
    }
}

#[test]
fn error_not_a_function() {
    match eval_program("(1 2)") {
        Err(RuntimeError::NotAFunction(k)) => {
            assert!(matches!(k, minilisp::ast::ValueKind::Num))
        },
        other => panic!("got {other:?}"),
    }
}

#[test]
fn error_arity_mismatch() {
    match eval_program("(+ 1 2 3)") {
        Err(RuntimeError::ArityMismatch { expected, got, .. }) => {
            assert_eq!(expected, 2);
            assert_eq!(got, 3);
        },
        other => panic!("got {other:?}"),
    }
}

#[test]
fn error_arity_mismatch_user_function() {
    match eval_program("((fn (a b) (+ a b)) 1)") {
        Err(RuntimeError::ArityMismatch { expected, got, .. }) => {
            assert_eq!(expected, 2);
            assert_eq!(got, 1);
        },
        other => panic!("got {other:?}"),
    }
}

#[test]
fn error_not_a_symbol() {
    assert!(matches!(
        eval_program("(let 5 6)"),
        Err(RuntimeError::NotASymbol(_))
    ));
}

#[test]
fn error_malformed_arg_list() {
    assert!(matches!(
        eval_program("(fn 5 '1)"),
        Err(RuntimeError::MalformedArgList)
    ));
}

#[test]
fn error_not_quoted() {
    assert!(matches!(
        eval_program("(eval 5)"),
        Err(RuntimeError::NotQuoted(_))
    ));
}

#[test]
fn error_not_a_cons() {
    assert!(matches!(
        eval_program("(car 1)"),
        Err(RuntimeError::NotACons(_))
    ));
    assert!(matches!(
        eval_program("(cdr '())"),
        Err(RuntimeError::NotACons(_))
    ));
}

#[test]
fn error_not_a_number() {
    match eval_program("(+ \"a\" 1)") {
        Err(RuntimeError::NotANumber { lhs, rhs, .. }) => {
            assert!(matches!(lhs, minilisp::ast::ValueKind::Str));
            assert!(matches!(rhs, minilisp::ast::ValueKind::Num));
        },
        other => panic!("got {other:?}"),
    }
}

#[test]
fn error_depth_limit() {
    let mut reader = Reader::new("(letfn f (x) (f x)) (f 1)");
    let forms = reader.parse_sexprs().unwrap();
    let mut env = Environment::new();
    install_std_lib(&mut env);
    assert!(evaluate(&forms[0], &mut env, 100).is_ok());
    assert!(matches!(
        evaluate(&forms[1], &mut env, 100),
        Err(RuntimeError::DepthLimit)
    ));
}

#[test]
fn error_malformed_application() {
    assert!(matches!(
        eval_program("(eval (cons 'car 5))"),
        Err(RuntimeError::MalformedApplication)
    ));
}

#[test]
fn print_buffers_rendered_line() {
    let r = run_source("(print (+ 1 2))", FUEL);
    assert!(r.err.is_none(), "{:?}", r.err);
    assert_eq!(r.out, vec![text("3")]);
    assert!(r.diag.is_empty());
}

#[test]
fn dbg_buffers_diagnostic_line() {
    let r = run_source("(dbg 'hello)", FUEL);
    assert!(r.err.is_none());
    assert!(r.out.is_empty());
    assert_eq!(r.diag, vec![text("'hello")]);
}

#[test]
fn print_returns_nil() {
    expect_nil("(print 1)");
}

#[test]
fn run_stops_at_first_error() {
    let r = run_source("(print 1) nope (print 2)", FUEL);
    assert!(matches!(
        r.err,
        Some(RunError::Runtime(RuntimeError::UnboundName(_)))
    ));
    assert_eq!(r.out, vec![text("1")]);
}

#[test]
fn let_returns_the_value() {
    expect_number("(let x (+ 2 3))", 5.0);
}

#[test]
fn cons_onto_list_and_take_car() {
    expect_symbol("(car (cons 'c '(a b)))", "c");
    expect_symbol("(car (cdr (cons 'c '(a b))))", "a");
}

#[test]
fn nested_list_evaluation() {
    expect_number("(if (eq (car (cons 1 2)) 1) (+ 1 2) (+ 2 2))", 3.0);
}

#[test]
fn car_of_parsed_list_keeps_element_quoted() {
    // A parsed list wraps each element in a quote; `car` hands the
    // still-quoted element back.
    expect_number("(eval (car '(1 2)))", 1.0);
}

#[test]
fn nan_equals_nothing() {
    expect_nil("(eq (/ 0 0) (/ 0 0))");
}

#[test]
fn infinities_compare_equal() {
    expect_true("(eq (/ 1 0) (/ 1 0))");
}

#[test]
fn zero_representations_compare_equal() {
    expect_true("(eq 0.0 0)");
    expect_true("(eq (- 0 0.0) 0)");
}

#[test]
fn deep_equality_is_symmetric_on_samples() {
    expect_nil("(eq '(1 x) '(1 y))");
    expect_nil("(eq '(1 y) '(1 x))");
    expect_true("(eq '(1 (2 \"s\")) '(1 (2 \"s\")))");
}
