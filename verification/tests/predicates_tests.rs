use lisp::eval::RuntimeError;
use lisp::predicates::is_atom;
use lisp::predicates::is_function;
use lisp::predicates::is_list;
use lisp::predicates::is_number;
use lisp::predicates::is_string;
use lisp::predicates::is_symbol;
use lisp::sexp::Atom;
use lisp::sexp::Builtin;
use lisp::sexp::Callable;
use lisp::sexp::Sexp;

fn sample_func() -> Sexp {
    Sexp::Func {
        callable: Callable::Builtin(Builtin::Car),
        name: String::from("car"),
    }
}

#[test]
fn is_atom_works_correctly() {
    assert_eq!(is_atom(vec![Sexp::Atom(Atom::T)]), Ok(Sexp::Atom(Atom::T)));
    assert_eq!(is_atom(vec![Sexp::List(vec![])]), Ok(Sexp::Atom(Atom::Nil)));
    assert_eq!(is_atom(vec![sample_func()]), Ok(Sexp::Atom(Atom::Nil)));
}

#[test]
fn is_list_works_correctly() {
    assert_eq!(is_list(vec![Sexp::Atom(Atom::T)]), Ok(Sexp::Atom(Atom::Nil)));
    assert_eq!(is_list(vec![Sexp::List(vec![])]), Ok(Sexp::Atom(Atom::T)));
    assert_eq!(is_list(vec![Sexp::Atom(Atom::Nil)]), Ok(Sexp::Atom(Atom::T)));
}

#[test]
fn is_function_works_correctly() {
    assert_eq!(is_function(vec![Sexp::Atom(Atom::T)]), Ok(Sexp::Atom(Atom::Nil)));
    assert_eq!(is_function(vec![Sexp::List(vec![])]), Ok(Sexp::Atom(Atom::Nil)));
    assert_eq!(is_function(vec![sample_func()]), Ok(Sexp::Atom(Atom::T)));
}

#[test]
fn is_string_works_correctly() {
    assert_eq!(
        is_string(vec![Sexp::Atom(Atom::Str(String::from("string")))]),
        Ok(Sexp::Atom(Atom::T))
    );
    assert_eq!(is_string(vec![Sexp::List(vec![])]), Ok(Sexp::Atom(Atom::Nil)));
    assert_eq!(is_string(vec![sample_func()]), Ok(Sexp::Atom(Atom::Nil)));
}

#[test]
fn is_symbol_works_correctly() {
    assert_eq!(
        is_symbol(vec![Sexp::Atom(Atom::Symbol(String::from("symbol")))]),
        Ok(Sexp::Atom(Atom::T))
    );
    assert_eq!(is_symbol(vec![Sexp::List(vec![])]), Ok(Sexp::Atom(Atom::Nil)));
}

#[test]
fn is_number_works_correctly() {
    assert_eq!(
        is_number(vec![Sexp::Atom(Atom::Number(1))]),
        Ok(Sexp::Atom(Atom::T))
    );
    assert_eq!(is_number(vec![Sexp::List(vec![])]), Ok(Sexp::Atom(Atom::Nil)));
}

#[test]
fn predicates_reject_wrong_arity() {
    assert_eq!(is_atom(vec![]), Err(RuntimeError::WrongArgumentArity(0)));
    assert_eq!(
        is_list(vec![Sexp::Atom(Atom::T), Sexp::Atom(Atom::T)]),
        Err(RuntimeError::WrongArgumentArity(2))
    );
    assert_eq!(is_number(vec![]), Err(RuntimeError::WrongArgumentArity(0)));
    assert_eq!(
        is_symbol(vec![
            Sexp::Atom(Atom::T),
            Sexp::Atom(Atom::T),
            Sexp::Atom(Atom::T),
        ]),
        Err(RuntimeError::WrongArgumentArity(3))
    );
}

#[test]
fn predicates_classify_every_shape() {
    let shapes = vec![
        Sexp::Atom(Atom::Nil),
        Sexp::Atom(Atom::T),
        Sexp::Atom(Atom::Symbol(String::from("s"))),
        Sexp::Atom(Atom::Str(String::from("text"))),
        Sexp::Atom(Atom::Number(3)),
        Sexp::List(vec![]),
        Sexp::List(vec![Sexp::Atom(Atom::T)]),
        sample_func(),
    ];
    for shape in shapes {
        for pred in [is_atom, is_list, is_function, is_string, is_symbol, is_number] {
            let cloned = vec![match &shape {
                Sexp::Atom(Atom::Nil) => Sexp::Atom(Atom::Nil),
                Sexp::Atom(Atom::T) => Sexp::Atom(Atom::T),
                Sexp::Atom(Atom::Symbol(s)) => Sexp::Atom(Atom::Symbol(s.clone())),
                Sexp::Atom(Atom::Str(s)) => Sexp::Atom(Atom::Str(s.clone())),
                Sexp::Atom(Atom::Number(n)) => Sexp::Atom(Atom::Number(*n)),
                Sexp::List(v) => Sexp::List(if v.is_empty() {
                    vec![]
                } else {
                    vec![Sexp::Atom(Atom::T)]
                }),
                Sexp::Func { .. } => sample_func(),
            }];
            let result = pred(cloned).unwrap();
            assert!(result == Sexp::Atom(Atom::T) || result == Sexp::Atom(Atom::Nil));
        }
    }
}
