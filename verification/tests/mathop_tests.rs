use lisp::eval::RuntimeError;
use lisp::sexp::Atom;
use lisp::sexp::Sexp;

fn num(n: i64) -> Sexp {
    Sexp::Atom(Atom::Number(n))
}

#[test]
fn add_folds_with_identity_zero() {
    assert_eq!(lisp::mathop::add(vec![]), Ok(num(0)));
    assert_eq!(lisp::mathop::add(vec![num(7)]), Ok(num(7)));
    assert_eq!(lisp::mathop::add(vec![num(1), num(2), num(3)]), Ok(num(6)));
}

#[test]
fn sub_left_folds_pairwise() {
    assert_eq!(lisp::mathop::sub(vec![num(10), num(3), num(2)]), Ok(num(5)));
    assert_eq!(
        lisp::mathop::sub(vec![num(10)]),
        Err(RuntimeError::BadArity {
            name: String::from("sub"),
            expected: 2,
            actual: 1,
        })
    );
}

#[test]
fn mul_left_folds_pairwise() {
    assert_eq!(lisp::mathop::mul(vec![num(2), num(3), num(4)]), Ok(num(24)));
    assert_eq!(
        lisp::mathop::mul(vec![]),
        Err(RuntimeError::BadArity {
            name: String::from("mul"),
            expected: 2,
            actual: 0,
        })
    );
}

#[test]
fn div_divides_by_folded_divisor() {
    assert_eq!(lisp::mathop::div(vec![num(10), num(2)]), Ok(num(5)));
    assert_eq!(lisp::mathop::div(vec![num(24), num(2), num(3)]), Ok(num(4)));
    assert_eq!(lisp::mathop::div(vec![num(7), num(2)]), Ok(num(3)));
}

#[test]
fn div_rejects_zero_divisor_before_dividing() {
    assert_eq!(
        lisp::mathop::div(vec![num(1), num(0)]),
        Err(RuntimeError::DivideByZero)
    );
    assert_eq!(
        lisp::mathop::div(vec![num(1), num(5), num(0)]),
        Err(RuntimeError::DivideByZero)
    );
    assert_eq!(
        lisp::mathop::div(vec![num(1)]),
        Err(RuntimeError::BadArity {
            name: String::from("div"),
            expected: 2,
            actual: 1,
        })
    );
}

#[test]
fn arithmetic_rejects_non_numbers() {
    assert_eq!(
        lisp::mathop::add(vec![num(1), Sexp::Atom(Atom::T)]),
        Err(RuntimeError::InvalidType {
            expected: String::from("number"),
            actual: String::from("t"),
        })
    );
    assert_eq!(
        lisp::mathop::sub(vec![Sexp::List(vec![]), num(1)]),
        Err(RuntimeError::InvalidType {
            expected: String::from("number"),
            actual: String::from("list"),
        })
    );
}

#[test]
fn arithmetic_wraps_on_overflow() {
    assert_eq!(
        lisp::mathop::add(vec![num(i64::MAX), num(1)]),
        Ok(num(i64::MIN))
    );
    assert_eq!(
        lisp::mathop::div(vec![num(i64::MIN), num(-1)]),
        Ok(num(i64::MIN))
    );
}
