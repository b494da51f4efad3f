use lisp::eval::RuntimeError;
use lisp::eval::eval;
use lisp::lexer::tokenize;
use lisp::parser::read_from_tokens;
use lisp::sexp::Atom;
use lisp::sexp::Env;
use lisp::sexp::Sexp;

/// Tokenizes, reads and evaluates one line, returning the value of its
/// last top-level form.
fn run(line: &str, env: &mut Env) -> Result<Sexp, RuntimeError> {
    let tokens = tokenize(&vec![line.to_string()]).expect("lexing failed");
    let forms = read_from_tokens(tokens).expect("reading failed");
    let mut last = Ok(Sexp::Atom(Atom::Nil));
    for form in forms {
        last = eval(form, env);
    }
    last
}

fn num(n: i64) -> Sexp {
    Sexp::Atom(Atom::Number(n))
}

#[test]
fn non_symbol_atom_evals_to_itself() {
    let mut env = Env::new(None);
    let sexp = Sexp::Atom(Atom::T);
    assert_eq!(eval(sexp, &mut env), Ok(Sexp::Atom(Atom::T)))
}

#[test]
fn empty_list_evals_to_nil() {
    let mut env = Env::new(None);
    let sexp = Sexp::List(Vec::new());
    assert_eq!(eval(sexp, &mut env), Ok(Sexp::Atom(Atom::Nil)))
}

#[test]
fn builtin_is_applied() {
    let mut env = Env::default();
    let sexp = Sexp::List(vec![
        Sexp::Atom(Atom::Symbol("atom?".to_string())),
        Sexp::Atom(Atom::Nil),
    ]);
    assert_eq!(eval(sexp, &mut env), Ok(Sexp::Atom(Atom::T)))
}

#[test]
fn eval_fails_on_non_func_element_of_list() {
    let mut env = Env::default();
    let sexp = Sexp::List(vec![Sexp::Atom(Atom::Nil)]);
    assert_eq!(
        eval(sexp, &mut env),
        Err(RuntimeError::WrongArgumentKind(
            "eval list, expected function, got: atom".to_string()
        ))
    )
}

#[test]
fn arithmetic_round_trip() {
    let mut env = Env::default();
    assert_eq!(run("(add 1 2 3)", &mut env), Ok(num(6)));
    assert_eq!(run("(sub 10 3 2)", &mut env), Ok(num(5)));
    assert_eq!(run("(div 10 2)", &mut env), Ok(num(5)));
    assert_eq!(run("(mul 2 3 4)", &mut env), Ok(num(24)));
    assert_eq!(run("(div 1 0)", &mut env), Err(RuntimeError::DivideByZero));
    assert_eq!(run("(add (mul 2 3) (sub 5 1))", &mut env), Ok(num(10)));
}

#[test]
fn quote_suppresses_evaluation() {
    let mut env = Env::default();
    assert_eq!(
        run("'(a b)", &mut env),
        Ok(Sexp::List(vec![
            Sexp::Atom(Atom::Symbol("a".to_string())),
            Sexp::Atom(Atom::Symbol("b".to_string())),
        ]))
    );
    assert_eq!(
        run("(quote x)", &mut env),
        Ok(Sexp::Atom(Atom::Symbol("x".to_string())))
    );
}

#[test]
fn bare_trailing_quote_marker_is_arity_error() {
    let mut env = Env::default();
    assert_eq!(run("'", &mut env), Err(RuntimeError::WrongArgumentArity(0)));
}

#[test]
fn car_cdr_boundaries() {
    let mut env = Env::default();
    assert_eq!(run("(car nil)", &mut env), Ok(Sexp::Atom(Atom::Nil)));
    assert_eq!(run("(car ())", &mut env), Ok(Sexp::Atom(Atom::Nil)));
    assert_eq!(run("(car '(1 2))", &mut env), Ok(num(1)));
    assert_eq!(run("(cdr '(1))", &mut env), Ok(Sexp::List(vec![])));
    assert_eq!(run("(cdr '(1 2))", &mut env), Ok(Sexp::List(vec![num(2)])));
}

#[test]
fn undefined_symbol_then_binding() {
    let mut env = Env::default();
    assert_eq!(
        run("x", &mut env),
        Err(RuntimeError::UndefinedSymbol("x".to_string()))
    );
    assert_eq!(run("(let x 5)", &mut env), Ok(num(5)));
    assert_eq!(run("x", &mut env), Ok(num(5)));
}

#[test]
fn lexical_scoping_hides_caller_bindings() {
    let mut env = Env::default();
    // f's body mentions y, which is not visible where f is defined.
    assert!(run("(let f (lambda (n) y))", &mut env).is_ok());
    // Binding y in the caller's frame afterwards must not leak into f.
    assert_eq!(run("(let y 7)", &mut env), Ok(num(7)));
    assert_eq!(
        run("(f 1)", &mut env),
        Err(RuntimeError::UndefinedSymbol("y".to_string()))
    );
}

#[test]
fn closure_sees_parameters_and_definition_site() {
    let mut env = Env::default();
    assert_eq!(run("(let a 1)", &mut env), Ok(num(1)));
    assert!(run("(let f (lambda (n) (add n a)))", &mut env).is_ok());
    assert_eq!(run("(f 41)", &mut env), Ok(num(42)));
}

#[test]
fn lambda_arity_is_checked() {
    let mut env = Env::default();
    assert!(run("(let f (lambda (p q) p))", &mut env).is_ok());
    assert_eq!(
        run("(f 1)", &mut env),
        Err(RuntimeError::BadArity {
            name: String::from("lambda"),
            expected: 2,
            actual: 1,
        })
    );
    assert_eq!(run("(f 1 2)", &mut env), Ok(num(1)));
}

#[test]
fn self_application_exhausts_depth_budget() {
    let mut env = Env::default();
    assert!(run("(let f (lambda (g) (g g)))", &mut env).is_ok());
    assert_eq!(run("(f f)", &mut env), Err(RuntimeError::DepthExceeded));
}

#[test]
fn function_values_are_terminal() {
    let mut env = Env::default();
    let looked_up = run("car", &mut env).unwrap();
    assert!(matches!(looked_up, Sexp::Func { .. }));
    let mut env2 = Env::default();
    assert_eq!(
        eval(looked_up, &mut env2).map(|f| matches!(f, Sexp::Func { .. })),
        Ok(true)
    );
}

#[test]
fn string_atom_evals_to_itself() {
    let mut env = Env::default();
    assert_eq!(
        run("\"hello world\"", &mut env),
        Ok(Sexp::Atom(Atom::Str("hello world".to_string())))
    );
}

#[test]
fn errors_do_not_corrupt_environment() {
    let mut env = Env::default();
    assert_eq!(run("(let a 3)", &mut env), Ok(num(3)));
    assert!(run("(div a 0)", &mut env).is_err());
    assert_eq!(run("(add a 1)", &mut env), Ok(num(4)));
}
