use lisp::eval::RuntimeError;
use lisp::sexp::Atom;
use lisp::sexp::Sexp;
use lisp::special_forms::append;
use lisp::special_forms::car;
use lisp::special_forms::cdr;
use lisp::special_forms::list;
use lisp::special_forms::prepend;
use lisp::special_forms::quote;

#[test]
fn can_create_list() {
    let args = vec![Sexp::Atom(Atom::T)];
    assert_eq!(list(args), Ok(Sexp::List(vec![Sexp::Atom(Atom::T)])))
}

#[test]
fn list_create_fails_with_no_args() {
    let args = Vec::new();
    assert_eq!(list(args), Err(RuntimeError::WrongArgumentArity(0)))
}

#[test]
fn car_returns_head_of_a_list() {
    assert_eq!(
        car(vec![Sexp::Atom(Atom::Nil)]),
        Ok(Sexp::Atom(Atom::Nil))
    );
    assert_eq!(car(vec![Sexp::List(vec![])]), Ok(Sexp::Atom(Atom::Nil)));
    assert_eq!(
        car(vec![Sexp::List(vec![Sexp::Atom(Atom::T)])]),
        Ok(Sexp::Atom(Atom::T))
    );
    assert_eq!(
        car(vec![Sexp::List(vec![
            Sexp::Atom(Atom::Number(1)),
            Sexp::Atom(Atom::Number(2)),
        ])]),
        Ok(Sexp::Atom(Atom::Number(1)))
    );
}

#[test]
fn car_rejects_non_list() {
    assert_eq!(
        car(vec![Sexp::Atom(Atom::T)]),
        Err(RuntimeError::WrongArgumentKind(String::from(
            "car expects list as an argument instead got: atom"
        )))
    );
}

#[test]
fn cdr_returns_tail_of_a_list() {
    assert_eq!(
        cdr(vec![Sexp::Atom(Atom::Nil)]),
        Ok(Sexp::Atom(Atom::Nil))
    );
    assert_eq!(cdr(vec![Sexp::List(vec![])]), Ok(Sexp::Atom(Atom::Nil)));
    assert_eq!(
        cdr(vec![Sexp::List(vec![Sexp::Atom(Atom::Number(1))])]),
        Ok(Sexp::List(vec![]))
    );
    assert_eq!(
        cdr(vec![Sexp::List(vec![
            Sexp::Atom(Atom::Number(1)),
            Sexp::Atom(Atom::Number(2)),
        ])]),
        Ok(Sexp::List(vec![Sexp::Atom(Atom::Number(2))]))
    );
}

#[test]
fn append_pushes_arg_to_back() {
    assert_eq!(
        append(vec![Sexp::Atom(Atom::Nil), Sexp::Atom(Atom::T)]),
        Ok(Sexp::List(vec![Sexp::Atom(Atom::T)]))
    );
    assert_eq!(
        append(vec![
            Sexp::List(vec![Sexp::Atom(Atom::Nil)]),
            Sexp::Atom(Atom::T),
        ]),
        Ok(Sexp::List(vec![Sexp::Atom(Atom::Nil), Sexp::Atom(Atom::T)]))
    );
}

#[test]
fn prepend_pushes_arg_to_front() {
    assert_eq!(
        prepend(vec![Sexp::Atom(Atom::Nil), Sexp::Atom(Atom::T)]),
        Ok(Sexp::List(vec![Sexp::Atom(Atom::T)]))
    );
    assert_eq!(
        prepend(vec![
            Sexp::List(vec![Sexp::Atom(Atom::Nil)]),
            Sexp::Atom(Atom::T),
        ]),
        Ok(Sexp::List(vec![Sexp::Atom(Atom::T), Sexp::Atom(Atom::Nil)]))
    );
}

#[test]
fn append_rejects_non_list_first_argument() {
    assert_eq!(
        append(vec![Sexp::Atom(Atom::T), Sexp::Atom(Atom::Nil)]),
        Err(RuntimeError::WrongArgumentKind(String::from(
            "append expects list as first argument instead got: atom"
        )))
    );
}

#[test]
fn quote_returns_argument_unevaluated() {
    assert_eq!(
        quote(vec![Sexp::Atom(Atom::Symbol(String::from("x")))]),
        Ok(Sexp::Atom(Atom::Symbol(String::from("x"))))
    );
    assert_eq!(quote(vec![]), Err(RuntimeError::WrongArgumentArity(0)));
}
