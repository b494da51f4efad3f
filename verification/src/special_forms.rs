//! List constructors and selectors, and the `quote` callable.
//!
//! All of these receive an already-collected argument list and validate
//! arity and argument kinds themselves; they never panic on malformed
//! input.  `Nil` and the empty list are interchangeable as "nothing here":
//! `car` and `cdr` of either yield `Nil`, and `append`/`prepend` treat a
//! `Nil` first argument as the empty list.

use vstd::prelude::*;
use vstd::string::StringExecFns;

use crate::eval::RuntimeError;
use crate::eval::RuntimeErrorView;
use crate::eval::result_view;
use crate::sexp::Atom;
use crate::sexp::AtomView;
use crate::sexp::Sexp;
use crate::sexp::SexpView;
use crate::sexp::lemma_sexps_view;
use crate::sexp::sexps_view;
use crate::sexp::sp_kind_name;

verus! {

pub open spec fn sp_list(args: Seq<SexpView>) -> Result<SexpView, RuntimeErrorView> {
    if args.len() == 0 {
        Result::Err(RuntimeErrorView::WrongArgumentArity(0))
    } else {
        Result::Ok(SexpView::List(args))
    }
}

pub open spec fn sp_car(args: Seq<SexpView>) -> Result<SexpView, RuntimeErrorView> {
    if args.len() != 1 {
        Result::Err(RuntimeErrorView::WrongArgumentArity(args.len() as usize))
    } else {
        match args[0] {
            SexpView::Atom(AtomView::Nil) => Result::Ok(SexpView::Atom(AtomView::Nil)),
            SexpView::List(l) => if l.len() == 0 {
                Result::Ok(SexpView::Atom(AtomView::Nil))
            } else {
                Result::Ok(l[0])
            },
            _ => Result::Err(
                RuntimeErrorView::WrongArgumentKind(
                    "car expects list as an argument instead got: "@ + sp_kind_name(args[0]),
                ),
            ),
        }
    }
}

pub open spec fn sp_cdr(args: Seq<SexpView>) -> Result<SexpView, RuntimeErrorView> {
    if args.len() != 1 {
        Result::Err(RuntimeErrorView::WrongArgumentArity(args.len() as usize))
    } else {
        match args[0] {
            SexpView::Atom(AtomView::Nil) => Result::Ok(SexpView::Atom(AtomView::Nil)),
            SexpView::List(l) => if l.len() == 0 {
                Result::Ok(SexpView::Atom(AtomView::Nil))
            } else {
                Result::Ok(SexpView::List(l.drop_first()))
            },
            _ => Result::Err(
                RuntimeErrorView::WrongArgumentKind(
                    "cdr expects list as an argument instead got: "@ + sp_kind_name(args[0]),
                ),
            ),
        }
    }
}

pub open spec fn sp_append(args: Seq<SexpView>) -> Result<SexpView, RuntimeErrorView> {
    if args.len() != 2 {
        Result::Err(RuntimeErrorView::WrongArgumentArity(args.len() as usize))
    } else {
        match args[0] {
            SexpView::List(l) => Result::Ok(SexpView::List(l.push(args[1]))),
            SexpView::Atom(AtomView::Nil) => Result::Ok(SexpView::List(seq![args[1]])),
            _ => Result::Err(
                RuntimeErrorView::WrongArgumentKind(
                    "append expects list as first argument instead got: "@ + sp_kind_name(args[0]),
                ),
            ),
        }
    }
}

pub open spec fn sp_prepend(args: Seq<SexpView>) -> Result<SexpView, RuntimeErrorView> {
    if args.len() != 2 {
        Result::Err(RuntimeErrorView::WrongArgumentArity(args.len() as usize))
    } else {
        match args[0] {
            SexpView::List(l) => Result::Ok(SexpView::List(seq![args[1]] + l)),
            SexpView::Atom(AtomView::Nil) => Result::Ok(SexpView::List(seq![args[1]])),
            _ => Result::Err(
                RuntimeErrorView::WrongArgumentKind(
                    "prepend expects list as first argument instead got: "@ + sp_kind_name(
                        args[0],
                    ),
                ),
            ),
        }
    }
}

pub open spec fn sp_quote(args: Seq<SexpView>) -> Result<SexpView, RuntimeErrorView> {
    if args.len() != 1 {
        Result::Err(RuntimeErrorView::WrongArgumentArity(args.len() as usize))
    } else {
        Result::Ok(args[0])
    }
}

/// Collects one or more arguments into a `List`; zero arguments is an
/// arity error.
pub fn list(args: Vec<Sexp>) -> (r: Result<Sexp, RuntimeError>)
    ensures
        result_view(r) == sp_list(sexps_view(args@)),
{
    if args.len() == 0 {
        return Result::Err(RuntimeError::WrongArgumentArity(0));
    }
    Result::Ok(Sexp::List(args))
}

/// The head of a list; `Nil` or an empty list yields `Nil`.
pub fn car(args: Vec<Sexp>) -> (r: Result<Sexp, RuntimeError>)
    ensures
        result_view(r) == sp_car(sexps_view(args@)),
{
    proof {
        lemma_sexps_view(args@);
    }
    if args.len() != 1 {
        return Result::Err(RuntimeError::WrongArgumentArity(args.len()));
    }
    let mut args = args;
    let sexp = args.remove(0);
    match sexp {
        Sexp::Atom(Atom::Nil) => Result::Ok(Sexp::Atom(Atom::Nil)),
        Sexp::List(mut l) => {
            proof {
                lemma_sexps_view(l@);
            }
            if l.len() == 0 {
                proof {
                    assert(sexps_view(l@) =~= Seq::<SexpView>::empty());
                }
                Result::Ok(Sexp::Atom(Atom::Nil))
            } else {
                let first = l.remove(0);
                Result::Ok(first)
            }
        },
        other => Result::Err(
            RuntimeError::WrongArgumentKind(
                String::from_str("car expects list as an argument instead got: ").concat(
                    other.kind_name(),
                ),
            ),
        ),
    }
}

/// The tail of a list; `Nil` or an empty list yields `Nil`, and a
/// one-element list yields the empty list.
pub fn cdr(args: Vec<Sexp>) -> (r: Result<Sexp, RuntimeError>)
    ensures
        result_view(r) == sp_cdr(sexps_view(args@)),
{
    proof {
        lemma_sexps_view(args@);
    }
    if args.len() != 1 {
        return Result::Err(RuntimeError::WrongArgumentArity(args.len()));
    }
    let mut args = args;
    let sexp = args.remove(0);
    match sexp {
        Sexp::Atom(Atom::Nil) => Result::Ok(Sexp::Atom(Atom::Nil)),
        Sexp::List(mut l) => {
            let ghost lv = sexps_view(l@);
            proof {
                lemma_sexps_view(l@);
            }
            if l.len() == 0 {
                proof {
                    assert(lv =~= Seq::<SexpView>::empty());
                }
                Result::Ok(Sexp::Atom(Atom::Nil))
            } else {
                l.remove(0);
                proof {
                    lemma_sexps_view(l@);
                    assert(sexps_view(l@) =~= lv.drop_first());
                }
                Result::Ok(Sexp::List(l))
            }
        },
        other => Result::Err(
            RuntimeError::WrongArgumentKind(
                String::from_str("cdr expects list as an argument instead got: ").concat(
                    other.kind_name(),
                ),
            ),
        ),
    }
}

/// Pushes the second argument to the back of the first; a `Nil` first
/// argument counts as the empty list.
pub fn append(args: Vec<Sexp>) -> (r: Result<Sexp, RuntimeError>)
    ensures
        result_view(r) == sp_append(sexps_view(args@)),
{
    let ghost av = sexps_view(args@);
    let ghost a0 = args@;
    proof {
        lemma_sexps_view(args@);
    }
    if args.len() != 2 {
        return Result::Err(RuntimeError::WrongArgumentArity(args.len()));
    }
    let mut args = args;
    let sexp = args.remove(0);
    let appendee = args.remove(0);
    proof {
        assert(a0.remove(0) =~= a0.drop_first());
        assert(appendee == a0[1]);
    }
    match sexp {
        Sexp::List(mut l) => {
            let ghost lv = sexps_view(l@);
            let ghost pre = l@;
            l.push(appendee);
            proof {
                assert(l@.drop_last() =~= pre);
                assert(sexps_view(l@) == lv.push(av[1]));
            }
            Result::Ok(Sexp::List(l))
        },
        Sexp::Atom(Atom::Nil) => {
            let l = vec![appendee];
            proof {
                lemma_sexps_view(l@);
                assert(sexps_view(l@) =~= seq![av[1]]);
            }
            Result::Ok(Sexp::List(l))
        },
        other => Result::Err(
            RuntimeError::WrongArgumentKind(
                String::from_str("append expects list as first argument instead got: ").concat(
                    other.kind_name(),
                ),
            ),
        ),
    }
}

/// Pushes the second argument to the front of the first; a `Nil` first
/// argument counts as the empty list.
pub fn prepend(args: Vec<Sexp>) -> (r: Result<Sexp, RuntimeError>)
    ensures
        result_view(r) == sp_prepend(sexps_view(args@)),
{
    let ghost av = sexps_view(args@);
    let ghost a0 = args@;
    proof {
        lemma_sexps_view(args@);
    }
    if args.len() != 2 {
        return Result::Err(RuntimeError::WrongArgumentArity(args.len()));
    }
    let mut args = args;
    let sexp = args.remove(0);
    let appendee = args.remove(0);
    proof {
        assert(a0.remove(0) =~= a0.drop_first());
        assert(appendee == a0[1]);
    }
    match sexp {
        Sexp::List(mut l) => {
            let ghost lv = sexps_view(l@);
            let ghost pre = l@;
            proof {
                lemma_sexps_view(pre);
            }
            l.insert(0, appendee);
            proof {
                lemma_sexps_view(l@);
                assert(l@ =~= seq![appendee] + pre);
                assert(sexps_view(l@) =~= seq![av[1]] + lv);
            }
            Result::Ok(Sexp::List(l))
        },
        Sexp::Atom(Atom::Nil) => {
            let l = vec![appendee];
            proof {
                lemma_sexps_view(l@);
                assert(sexps_view(l@) =~= seq![av[1]]);
            }
            Result::Ok(Sexp::List(l))
        },
        other => Result::Err(
            RuntimeError::WrongArgumentKind(
                String::from_str("prepend expects list as first argument instead got: ").concat(
                    other.kind_name(),
                ),
            ),
        ),
    }
}

/// Returns its single argument unevaluated; the evaluator hands `quote`
/// the raw forms, so this is what makes quoting suppress evaluation.
pub fn quote(args: Vec<Sexp>) -> (r: Result<Sexp, RuntimeError>)
    ensures
        result_view(r) == sp_quote(sexps_view(args@)),
{
    proof {
        lemma_sexps_view(args@);
    }
    if args.len() != 1 {
        return Result::Err(RuntimeError::WrongArgumentArity(args.len()));
    }
    let mut args = args;
    Result::Ok(args.remove(0))
}

} // verus!
