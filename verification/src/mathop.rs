//! Arithmetic builtins.
//!
//! Every argument must reduce to a number or the call fails with
//! `InvalidType` at the first offending argument.  `add` folds with
//! identity 0 over any arity; `sub`, `mul` and `div` require at least two
//! arguments and left-fold pairwise, with 64-bit wrap-around semantics.
//! `div` folds its divisors into a product and fails with a dedicated
//! divide-by-zero error, checked before dividing.

use vstd::prelude::*;
use vstd::string::StringExecFns;

use crate::eval::RuntimeError;
use crate::eval::RuntimeErrorView;
use crate::eval::result_view;
use crate::sexp::Atom;
use crate::sexp::AtomView;
use crate::sexp::Sexp;
use crate::sexp::SexpView;
use crate::sexp::lemma_sexps_view;
use crate::sexp::sexp_view;
use crate::sexp::sexps_view;
use crate::sexp::sp_typename;

verus! {

broadcast use lemma_sexps_view;

/// The numbers behind the arguments, or the first type mismatch.
pub open spec fn sp_into_ints(args: Seq<SexpView>) -> Result<Seq<i64>, RuntimeErrorView>
    decreases args.len(),
{
    if args.len() == 0 {
        Result::Ok(Seq::empty())
    } else {
        match args[0] {
            SexpView::Atom(AtomView::Number(n)) => match sp_into_ints(args.drop_first()) {
                Result::Ok(rest) => Result::Ok(seq![n] + rest),
                Result::Err(e) => Result::Err(e),
            },
            _ => Result::Err(
                RuntimeErrorView::InvalidType {
                    expected: "number"@,
                    actual: sp_typename(args[0]),
                },
            ),
        }
    }
}

/// Left fold of wrapping addition with identity 0.
pub open spec fn sp_sum_fold(ns: Seq<i64>) -> i64
    decreases ns.len(),
{
    if ns.len() == 0 {
        0
    } else {
        sp_sum_fold(ns.drop_last()).wrapping_add(ns.last())
    }
}

/// Left fold of wrapping subtraction over a non-empty sequence.
pub open spec fn sp_sub_fold(ns: Seq<i64>) -> i64
    recommends
        ns.len() >= 1,
    decreases ns.len(),
{
    if ns.len() <= 1 {
        ns[0]
    } else {
        sp_sub_fold(ns.drop_last()).wrapping_sub(ns.last())
    }
}

/// Left fold of wrapping multiplication over a non-empty sequence.
pub open spec fn sp_mul_fold(ns: Seq<i64>) -> i64
    recommends
        ns.len() >= 1,
    decreases ns.len(),
{
    if ns.len() <= 1 {
        ns[0]
    } else {
        sp_mul_fold(ns.drop_last()).wrapping_mul(ns.last())
    }
}

/// Truncating division with 64-bit wrap-around on overflow.
pub open spec fn sp_div_wrap(a: i64, b: i64) -> i64
    recommends
        b != 0,
{
    match a.checked_div(b) {
        Option::Some(q) => q,
        Option::None => i64::MIN,
    }
}

pub open spec fn sp_add(args: Seq<SexpView>) -> Result<SexpView, RuntimeErrorView> {
    match sp_into_ints(args) {
        Result::Ok(ns) => Result::Ok(SexpView::Atom(AtomView::Number(sp_sum_fold(ns)))),
        Result::Err(e) => Result::Err(e),
    }
}

pub open spec fn sp_sub(args: Seq<SexpView>) -> Result<SexpView, RuntimeErrorView> {
    match sp_into_ints(args) {
        Result::Ok(ns) => if ns.len() < 2 {
            Result::Err(
                RuntimeErrorView::BadArity {
                    name: "sub"@,
                    expected: 2,
                    actual: args.len() as usize,
                },
            )
        } else {
            Result::Ok(SexpView::Atom(AtomView::Number(sp_sub_fold(ns))))
        },
        Result::Err(e) => Result::Err(e),
    }
}

pub open spec fn sp_mul(args: Seq<SexpView>) -> Result<SexpView, RuntimeErrorView> {
    match sp_into_ints(args) {
        Result::Ok(ns) => if ns.len() < 2 {
            Result::Err(
                RuntimeErrorView::BadArity {
                    name: "mul"@,
                    expected: 2,
                    actual: args.len() as usize,
                },
            )
        } else {
            Result::Ok(SexpView::Atom(AtomView::Number(sp_mul_fold(ns))))
        },
        Result::Err(e) => Result::Err(e),
    }
}

pub open spec fn sp_div(args: Seq<SexpView>) -> Result<SexpView, RuntimeErrorView> {
    match sp_into_ints(args) {
        Result::Ok(ns) => if ns.len() < 2 {
            Result::Err(
                RuntimeErrorView::BadArity {
                    name: "div"@,
                    expected: 2,
                    actual: args.len() as usize,
                },
            )
        } else {
            let divisor = sp_mul_fold(ns.drop_first());
            if divisor == 0 {
                Result::Err(RuntimeErrorView::DivideByZero)
            } else {
                Result::Ok(SexpView::Atom(AtomView::Number(sp_div_wrap(ns[0], divisor))))
            }
        },
        Result::Err(e) => Result::Err(e),
    }
}

pub open spec fn ints_result_view(r: Result<Vec<i64>, RuntimeError>) -> Result<
    Seq<i64>,
    RuntimeErrorView,
> {
    match r {
        Result::Ok(v) => Result::Ok(v@),
        Result::Err(e) => Result::Err(e@),
    }
}

/// On success, `sp_into_ints` keeps the argument count.
pub proof fn lemma_sp_into_ints_len(args: Seq<SexpView>)
    ensures
        sp_into_ints(args) matches Result::Ok(ns) ==> ns.len() == args.len(),
    decreases args.len(),
{
    if args.len() > 0 {
        lemma_sp_into_ints_len(args.drop_first());
    }
}

fn into_ints(args: &Vec<Sexp>) -> (r: Result<Vec<i64>, RuntimeError>)
    ensures
        ints_result_view(r) == sp_into_ints(sexps_view(args@)),
{
    let ghost av = sexps_view(args@);
    proof {
        lemma_sexps_view(args@);
        assert(av.skip(0) =~= av);
        assert(forall|rest: Seq<i64>| Seq::<i64>::empty() + rest =~= rest);
    }
    let mut out: Vec<i64> = Vec::new();
    let n = args.len();
    let mut i: usize = 0;
    while i < n
        invariant
            n == args.len(),
            av == sexps_view(args@),
            av.len() == n,
            forall|j: int| 0 <= j < n ==> av[j] == sexp_view(args@[j]),
            i <= n,
            sp_into_ints(av) == match sp_into_ints(av.skip(i as int)) {
                Result::Ok(rest) => Result::Ok(out@ + rest),
                Result::Err(e) => Result::<Seq<i64>, RuntimeErrorView>::Err(e),
            },
        decreases n - i,
    {
        proof {
            assert(av.skip(i as int)[0] == av[i as int]);
            assert(av.skip(i as int).drop_first() =~= av.skip(i as int + 1));
        }
        match &args[i] {
            Sexp::Atom(Atom::Number(k)) => {
                let ghost pre = out@;
                out.push(*k);
                proof {
                    assert(forall|rest: Seq<i64>| pre + (seq![*k] + rest) =~= out@ + rest);
                }
            },
            other => {
                return Result::Err(
                    RuntimeError::InvalidType {
                        expected: String::from_str("number"),
                        actual: String::from_str(other.typename()),
                    },
                );
            },
        }
        i += 1;
    }
    proof {
        assert(av.skip(n as int) =~= Seq::<SexpView>::empty());
        assert(out@ + Seq::<i64>::empty() =~= out@);
    }
    Result::Ok(out)
}

/// Folds its arguments with wrapping addition, identity 0 for no arguments.
pub fn add(args: Vec<Sexp>) -> (r: Result<Sexp, RuntimeError>)
    ensures
        result_view(r) == sp_add(sexps_view(args@)),
{
    let ints = match into_ints(&args) {
        Result::Ok(v) => v,
        Result::Err(e) => {
            return Result::Err(e);
        },
    };
    let mut acc: i64 = 0;
    let mut i: usize = 0;
    while i < ints.len()
        invariant
            i <= ints.len(),
            acc == sp_sum_fold(ints@.take(i as int)),
        decreases ints.len() - i,
    {
        acc = acc.wrapping_add(ints[i]);
        proof {
            assert(ints@.take(i as int + 1).drop_last() =~= ints@.take(i as int));
        }
        i += 1;
    }
    proof {
        assert(ints@.take(ints@.len() as int) =~= ints@);
    }
    Result::Ok(Sexp::Atom(Atom::Number(acc)))
}

/// Left-folds its arguments with wrapping subtraction; fewer than two
/// arguments is an arity error naming the operator.
pub fn sub(args: Vec<Sexp>) -> (r: Result<Sexp, RuntimeError>)
    ensures
        result_view(r) == sp_sub(sexps_view(args@)),
{
    let ints = match into_ints(&args) {
        Result::Ok(v) => v,
        Result::Err(e) => {
            return Result::Err(e);
        },
    };
    if ints.len() < 2 {
        return Result::Err(
            RuntimeError::BadArity {
                name: String::from_str("sub"),
                expected: 2,
                actual: args.len(),
            },
        );
    }
    proof {
        lemma_sp_into_ints_len(sexps_view(args@));
    }
    let mut acc: i64 = ints[0];
    let mut i: usize = 1;
    while i < ints.len()
        invariant
            1 <= i <= ints.len(),
            acc == sp_sub_fold(ints@.take(i as int)),
        decreases ints.len() - i,
    {
        acc = acc.wrapping_sub(ints[i]);
        proof {
            assert(ints@.take(i as int + 1).drop_last() =~= ints@.take(i as int));
        }
        i += 1;
    }
    proof {
        assert(ints@.take(ints@.len() as int) =~= ints@);
    }
    Result::Ok(Sexp::Atom(Atom::Number(acc)))
}

/// Left-folds its arguments with wrapping multiplication; fewer than two
/// arguments is an arity error naming the operator.
pub fn mul(args: Vec<Sexp>) -> (r: Result<Sexp, RuntimeError>)
    ensures
        result_view(r) == sp_mul(sexps_view(args@)),
{
    let ints = match into_ints(&args) {
        Result::Ok(v) => v,
        Result::Err(e) => {
            return Result::Err(e);
        },
    };
    if ints.len() < 2 {
        return Result::Err(
            RuntimeError::BadArity {
                name: String::from_str("mul"),
                expected: 2,
                actual: args.len(),
            },
        );
    }
    proof {
        lemma_sp_into_ints_len(sexps_view(args@));
    }
    let mut acc: i64 = ints[0];
    let mut i: usize = 1;
    while i < ints.len()
        invariant
            1 <= i <= ints.len(),
            acc == sp_mul_fold(ints@.take(i as int)),
        decreases ints.len() - i,
    {
        acc = acc.wrapping_mul(ints[i]);
        proof {
            assert(ints@.take(i as int + 1).drop_last() =~= ints@.take(i as int));
        }
        i += 1;
    }
    proof {
        assert(ints@.take(ints@.len() as int) =~= ints@);
    }
    Result::Ok(Sexp::Atom(Atom::Number(acc)))
}

/// Divides the first argument by the product of the rest, failing before
/// the division if that folded divisor is zero.
pub fn div(args: Vec<Sexp>) -> (r: Result<Sexp, RuntimeError>)
    ensures
        result_view(r) == sp_div(sexps_view(args@)),
{
    let ints = match into_ints(&args) {
        Result::Ok(v) => v,
        Result::Err(e) => {
            return Result::Err(e);
        },
    };
    if ints.len() < 2 {
        return Result::Err(
            RuntimeError::BadArity {
                name: String::from_str("div"),
                expected: 2,
                actual: args.len(),
            },
        );
    }
    proof {
        lemma_sp_into_ints_len(sexps_view(args@));
    }
    let ghost divisors = ints@.drop_first();
    let mut acc: i64 = ints[1];
    let mut i: usize = 2;
    proof {
        assert(divisors.take(1) =~= seq![ints@[1]]);
    }
    while i < ints.len()
        invariant
            2 <= i <= ints.len(),
            divisors == ints@.drop_first(),
            acc == sp_mul_fold(divisors.take(i as int - 1)),
        decreases ints.len() - i,
    {
        proof {
            assert(divisors.take(i as int).drop_last() =~= divisors.take(i as int - 1));
            assert(divisors.take(i as int).last() == ints@[i as int]);
        }
        acc = acc.wrapping_mul(ints[i]);
        i += 1;
    }
    proof {
        assert(divisors.take(divisors.len() as int) =~= divisors);
    }
    if acc == 0 {
        return Result::Err(RuntimeError::DivideByZero);
    }
    let q = match ints[0].checked_div(acc) {
        Option::Some(q) => q,
        Option::None => i64::MIN,
    };
    Result::Ok(Sexp::Atom(Atom::Number(q)))
}

} // verus!
