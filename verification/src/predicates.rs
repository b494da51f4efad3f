//! Type predicates.
//!
//! Each takes exactly one argument and classifies it, returning the `T`
//! atom or the `Nil` atom; any other argument count is an arity error.
//! `is_list` also accepts `Nil` as a positive list match, since the empty
//! list literal and the `Nil` atom are observably equivalent.

use vstd::prelude::*;

use crate::eval::RuntimeError;
use crate::eval::RuntimeErrorView;
use crate::eval::result_view;
use crate::sexp::Atom;
use crate::sexp::AtomView;
use crate::sexp::Sexp;
use crate::sexp::SexpView;
use crate::sexp::lemma_sexps_view;
use crate::sexp::sexps_view;

verus! {

pub open spec fn sp_is_atom(args: Seq<SexpView>) -> Result<SexpView, RuntimeErrorView> {
    if args.len() != 1 {
        Result::Err(RuntimeErrorView::WrongArgumentArity(args.len() as usize))
    } else {
        match args[0] {
            SexpView::Atom(_) => Result::Ok(SexpView::Atom(AtomView::T)),
            _ => Result::Ok(SexpView::Atom(AtomView::Nil)),
        }
    }
}

pub open spec fn sp_is_list(args: Seq<SexpView>) -> Result<SexpView, RuntimeErrorView> {
    if args.len() != 1 {
        Result::Err(RuntimeErrorView::WrongArgumentArity(args.len() as usize))
    } else {
        match args[0] {
            SexpView::List(_) => Result::Ok(SexpView::Atom(AtomView::T)),
            SexpView::Atom(AtomView::Nil) => Result::Ok(SexpView::Atom(AtomView::T)),
            _ => Result::Ok(SexpView::Atom(AtomView::Nil)),
        }
    }
}

pub open spec fn sp_is_function(args: Seq<SexpView>) -> Result<SexpView, RuntimeErrorView> {
    if args.len() != 1 {
        Result::Err(RuntimeErrorView::WrongArgumentArity(args.len() as usize))
    } else {
        match args[0] {
            SexpView::Func { .. } => Result::Ok(SexpView::Atom(AtomView::T)),
            _ => Result::Ok(SexpView::Atom(AtomView::Nil)),
        }
    }
}

pub open spec fn sp_is_string(args: Seq<SexpView>) -> Result<SexpView, RuntimeErrorView> {
    if args.len() != 1 {
        Result::Err(RuntimeErrorView::WrongArgumentArity(args.len() as usize))
    } else {
        match args[0] {
            SexpView::Atom(AtomView::Str(_)) => Result::Ok(SexpView::Atom(AtomView::T)),
            _ => Result::Ok(SexpView::Atom(AtomView::Nil)),
        }
    }
}

pub open spec fn sp_is_symbol(args: Seq<SexpView>) -> Result<SexpView, RuntimeErrorView> {
    if args.len() != 1 {
        Result::Err(RuntimeErrorView::WrongArgumentArity(args.len() as usize))
    } else {
        match args[0] {
            SexpView::Atom(AtomView::Symbol(_)) => Result::Ok(SexpView::Atom(AtomView::T)),
            _ => Result::Ok(SexpView::Atom(AtomView::Nil)),
        }
    }
}

pub open spec fn sp_is_number(args: Seq<SexpView>) -> Result<SexpView, RuntimeErrorView> {
    if args.len() != 1 {
        Result::Err(RuntimeErrorView::WrongArgumentArity(args.len() as usize))
    } else {
        match args[0] {
            SexpView::Atom(AtomView::Number(_)) => Result::Ok(SexpView::Atom(AtomView::T)),
            _ => Result::Ok(SexpView::Atom(AtomView::Nil)),
        }
    }
}

/// `atom?`: is the argument a leaf value?
pub fn is_atom(args: Vec<Sexp>) -> (r: Result<Sexp, RuntimeError>)
    ensures
        result_view(r) == sp_is_atom(sexps_view(args@)),
{
    proof {
        lemma_sexps_view(args@);
    }
    if args.len() != 1 {
        return Result::Err(RuntimeError::WrongArgumentArity(args.len()));
    }
    match &args[0] {
        Sexp::Atom(_) => Result::Ok(Sexp::Atom(Atom::T)),
        _ => Result::Ok(Sexp::Atom(Atom::Nil)),
    }
}

/// `list?`: is the argument a list, counting `Nil` as the empty list?
pub fn is_list(args: Vec<Sexp>) -> (r: Result<Sexp, RuntimeError>)
    ensures
        result_view(r) == sp_is_list(sexps_view(args@)),
{
    proof {
        lemma_sexps_view(args@);
    }
    if args.len() != 1 {
        return Result::Err(RuntimeError::WrongArgumentArity(args.len()));
    }
    match &args[0] {
        Sexp::List(_) => Result::Ok(Sexp::Atom(Atom::T)),
        Sexp::Atom(Atom::Nil) => Result::Ok(Sexp::Atom(Atom::T)),
        _ => Result::Ok(Sexp::Atom(Atom::Nil)),
    }
}

/// `function?`: is the argument a callable value?
pub fn is_function(args: Vec<Sexp>) -> (r: Result<Sexp, RuntimeError>)
    ensures
        result_view(r) == sp_is_function(sexps_view(args@)),
{
    proof {
        lemma_sexps_view(args@);
    }
    if args.len() != 1 {
        return Result::Err(RuntimeError::WrongArgumentArity(args.len()));
    }
    match &args[0] {
        Sexp::Func { .. } => Result::Ok(Sexp::Atom(Atom::T)),
        _ => Result::Ok(Sexp::Atom(Atom::Nil)),
    }
}

/// `string?`: is the argument a string atom?
pub fn is_string(args: Vec<Sexp>) -> (r: Result<Sexp, RuntimeError>)
    ensures
        result_view(r) == sp_is_string(sexps_view(args@)),
{
    proof {
        lemma_sexps_view(args@);
    }
    if args.len() != 1 {
        return Result::Err(RuntimeError::WrongArgumentArity(args.len()));
    }
    match &args[0] {
        Sexp::Atom(Atom::Str(_)) => Result::Ok(Sexp::Atom(Atom::T)),
        _ => Result::Ok(Sexp::Atom(Atom::Nil)),
    }
}

/// `symbol?`: is the argument a symbol atom?
pub fn is_symbol(args: Vec<Sexp>) -> (r: Result<Sexp, RuntimeError>)
    ensures
        result_view(r) == sp_is_symbol(sexps_view(args@)),
{
    proof {
        lemma_sexps_view(args@);
    }
    if args.len() != 1 {
        return Result::Err(RuntimeError::WrongArgumentArity(args.len()));
    }
    match &args[0] {
        Sexp::Atom(Atom::Symbol(_)) => Result::Ok(Sexp::Atom(Atom::T)),
        _ => Result::Ok(Sexp::Atom(Atom::Nil)),
    }
}

/// `number?`: is the argument a number atom?
pub fn is_number(args: Vec<Sexp>) -> (r: Result<Sexp, RuntimeError>)
    ensures
        result_view(r) == sp_is_number(sexps_view(args@)),
{
    proof {
        lemma_sexps_view(args@);
    }
    if args.len() != 1 {
        return Result::Err(RuntimeError::WrongArgumentArity(args.len()));
    }
    match &args[0] {
        Sexp::Atom(Atom::Number(_)) => Result::Ok(Sexp::Atom(Atom::T)),
        _ => Result::Ok(Sexp::Atom(Atom::Nil)),
    }
}

} // verus!
