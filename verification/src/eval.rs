//! The recursive evaluator and its error taxonomy.
//!
//! A runtime error is fatal only for the form currently being evaluated;
//! environment mutations performed before the failing sub-expression
//! persist (evaluation is not transactional).

use vstd::prelude::*;
use vstd::string::StringExecFns;

use crate::sexp::Atom;
use crate::sexp::AtomView;
use crate::sexp::Builtin;
use crate::sexp::Callable;
use crate::sexp::CallableView;
use crate::sexp::Env;
use crate::sexp::EnvView;
use crate::sexp::Sexp;
use crate::sexp::SexpView;
use crate::sexp::lemma_sexps_view;
use crate::sexp::names_view;
use crate::sexp::sexp_view;
use crate::sexp::sexps_view;
use crate::sexp::sp_env_get;
use crate::sexp::sp_kind_name;

verus! {

/// The errors of the evaluation stage.  Arity and kind mismatches, lookup
/// failures and division by zero are checked before the corresponding
/// operation executes; `DepthExceeded` reports exhaustion of the nesting
/// budget for closure invocations.
#[derive(Debug, PartialEq)]
pub enum RuntimeError {
    WrongArgumentArity(usize),
    WrongArgumentKind(String),
    UndefinedSymbol(String),
    InvalidType { expected: String, actual: String },
    BadArity { name: String, expected: usize, actual: usize },
    DivideByZero,
    DepthExceeded,
}

/// Model of a `RuntimeError`: message and name text as character sequences.
#[verifier::ext_equal]
pub enum RuntimeErrorView {
    WrongArgumentArity(usize),
    WrongArgumentKind(Seq<char>),
    UndefinedSymbol(Seq<char>),
    InvalidType { expected: Seq<char>, actual: Seq<char> },
    BadArity { name: Seq<char>, expected: usize, actual: usize },
    DivideByZero,
    DepthExceeded,
}

pub open spec fn runtime_error_view(e: RuntimeError) -> RuntimeErrorView {
    match e {
        RuntimeError::WrongArgumentArity(n) => RuntimeErrorView::WrongArgumentArity(n),
        RuntimeError::WrongArgumentKind(s) => RuntimeErrorView::WrongArgumentKind(s@),
        RuntimeError::UndefinedSymbol(s) => RuntimeErrorView::UndefinedSymbol(s@),
        RuntimeError::InvalidType { expected, actual } => RuntimeErrorView::InvalidType {
            expected: expected@,
            actual: actual@,
        },
        RuntimeError::BadArity { name, expected, actual } => RuntimeErrorView::BadArity {
            name: name@,
            expected,
            actual,
        },
        RuntimeError::DivideByZero => RuntimeErrorView::DivideByZero,
        RuntimeError::DepthExceeded => RuntimeErrorView::DepthExceeded,
    }
}

impl View for RuntimeError {
    type V = RuntimeErrorView;

    open spec fn view(&self) -> RuntimeErrorView {
        runtime_error_view(*self)
    }
}

/// Model of what a builtin or the evaluator hands back.
pub open spec fn result_view(r: Result<Sexp, RuntimeError>) -> Result<SexpView, RuntimeErrorView> {
    match r {
        Result::Ok(v) => Result::Ok(v@),
        Result::Err(e) => Result::Err(e@),
    }
}

/// The nesting budget for closure invocations: each call of a closure
/// body consumes one unit, and exhausting the budget is reported as a
/// fatal resource error rather than overrunning the call stack.
pub const MAX_DEPTH: u64 = 1024;

/// What applying a builtin to a fully-evaluated argument list yields.
pub open spec fn sp_apply(b: Builtin, args: Seq<SexpView>) -> Result<SexpView, RuntimeErrorView> {
    match b {
        Builtin::Add => crate::mathop::sp_add(args),
        Builtin::Sub => crate::mathop::sp_sub(args),
        Builtin::Mul => crate::mathop::sp_mul(args),
        Builtin::Div => crate::mathop::sp_div(args),
        Builtin::IsAtom => crate::predicates::sp_is_atom(args),
        Builtin::IsList => crate::predicates::sp_is_list(args),
        Builtin::IsFunction => crate::predicates::sp_is_function(args),
        Builtin::IsString => crate::predicates::sp_is_string(args),
        Builtin::IsSymbol => crate::predicates::sp_is_symbol(args),
        Builtin::IsNumber => crate::predicates::sp_is_number(args),
        Builtin::List => crate::special_forms::sp_list(args),
        Builtin::Car => crate::special_forms::sp_car(args),
        Builtin::Cdr => crate::special_forms::sp_cdr(args),
        Builtin::Append => crate::special_forms::sp_append(args),
        Builtin::Prepend => crate::special_forms::sp_prepend(args),
    }
}

/// Resolving the head of a list: a symbol head is looked up once; any
/// other head stands for itself.
pub open spec fn sp_resolve_head(h: SexpView, env: EnvView) -> Result<
    SexpView,
    RuntimeErrorView,
> {
    match h {
        SexpView::Atom(AtomView::Symbol(name)) => match sp_env_get(env, name) {
            Option::Some(v) => Result::Ok(v),
            Option::None => Result::Err(RuntimeErrorView::UndefinedSymbol(name)),
        },
        _ => Result::Ok(h),
    }
}

/// The parameter names of a lambda's parameter list, if every element is
/// a symbol.
pub open spec fn sp_param_names(l: Seq<SexpView>, i: int) -> Option<Seq<Seq<char>>>
    decreases l.len() - i,
{
    if i < 0 || i >= l.len() {
        Option::Some(Seq::empty())
    } else {
        match l[i] {
            SexpView::Atom(AtomView::Symbol(nm)) => match sp_param_names(l, i + 1) {
                Option::Some(rest) => Option::Some(seq![nm] + rest),
                Option::None => Option::None,
            },
            _ => Option::None,
        }
    }
}

/// A lambda's parameters: the `Nil` atom stands for no parameters, a list
/// must consist of symbols.
pub open spec fn sp_params(p: SexpView) -> Option<Seq<Seq<char>>> {
    match p {
        SexpView::Atom(AtomView::Nil) => Option::Some(Seq::empty()),
        SexpView::List(l) => sp_param_names(l, 0),
        _ => Option::None,
    }
}

/// What the `lambda` special form builds: a closure over the defining
/// environment.  The environment is captured as it stands at definition
/// time; later bindings in the defining frame are not seen by the body.
pub open spec fn sp_make_closure(elems: Seq<SexpView>, env: EnvView) -> Result<
    SexpView,
    RuntimeErrorView,
> {
    if elems.len() != 3 {
        Result::Err(RuntimeErrorView::WrongArgumentArity((elems.len() - 1) as usize))
    } else {
        match sp_params(elems[1]) {
            Option::Some(ps) => Result::Ok(
                SexpView::Func {
                    callable: CallableView::Closure {
                        params: ps,
                        body: Box::new(elems[2]),
                        captured: env,
                    },
                    name: "lambda"@,
                },
            ),
            Option::None => Result::Err(
                RuntimeErrorView::WrongArgumentKind(
                    "lambda expects a list of symbols as parameters"@,
                ),
            ),
        }
    }
}

/// The specification-level evaluator.  An atom that is a symbol reduces
/// by lookup; any other atom and any callable reduces to itself; the
/// empty list reduces to `Nil`; any other list is dispatched by its head.
/// The result is paired with the environment after the call, since a
/// top-level binding mutates the current frame.
pub open spec fn sp_eval(e: SexpView, env: EnvView, fuel: nat) -> (Result<
    SexpView,
    RuntimeErrorView,
>, EnvView)
    decreases fuel, e, 2int, 0int,
{
    match e {
        SexpView::Atom(AtomView::Symbol(name)) => match sp_env_get(env, name) {
            Option::Some(v) => (Result::Ok(v), env),
            Option::None => (Result::Err(RuntimeErrorView::UndefinedSymbol(name)), env),
        },
        SexpView::List(elems) => if elems.len() == 0 {
            (Result::Ok(SexpView::Atom(AtomView::Nil)), env)
        } else {
            sp_eval_list(elems, env, fuel)
        },
        _ => (Result::Ok(e), env),
    }
}

/// Evaluating a non-empty list: resolve the head, then dispatch on the
/// callable it denotes.  `quote` receives its argument raw; `let` and
/// `lambda` receive their forms raw; builtins and closures receive their
/// arguments evaluated left to right, errors short-circuiting.
pub open spec fn sp_eval_list(elems: Seq<SexpView>, env: EnvView, fuel: nat) -> (Result<
    SexpView,
    RuntimeErrorView,
>, EnvView)
    decreases fuel, elems, 1int, 0int,
{
    match sp_resolve_head(elems[0], env) {
        Result::Err(e) => (Result::Err(e), env),
        Result::Ok(h) => match h {
            SexpView::Func { callable, name: _ } => match callable {
                CallableView::Quote => (
                    crate::special_forms::sp_quote(elems.drop_first()),
                    env,
                ),
                CallableView::Let => sp_eval_let(elems, env, fuel),
                CallableView::Lambda => (sp_make_closure(elems, env), env),
                CallableView::Builtin(b) => {
                    let (r, env2) = sp_eval_args(elems, 1, env, fuel);
                    match r {
                        Result::Ok(vals) => (sp_apply(b, vals), env2),
                        Result::Err(e) => (Result::Err(e), env2),
                    }
                },
                CallableView::Closure { params, body, captured } => {
                    let (r, env2) = sp_eval_args(elems, 1, env, fuel);
                    match r {
                        Result::Err(e) => (Result::Err(e), env2),
                        Result::Ok(vals) => if vals.len() != params.len() {
                            (
                                Result::Err(
                                    RuntimeErrorView::BadArity {
                                        name: "lambda"@,
                                        expected: params.len() as usize,
                                        actual: vals.len() as usize,
                                    },
                                ),
                                env2,
                            )
                        } else if fuel == 0 {
                            (Result::Err(RuntimeErrorView::DepthExceeded), env2)
                        } else {
                            let frame = Seq::new(
                                params.len(),
                                |k: int| (params[k], vals[k]),
                            );
                            let (r2, _env3) = sp_eval(
                                *body,
                                seq![frame] + captured,
                                (fuel - 1) as nat,
                            );
                            (r2, env2)
                        },
                    }
                },
            },
            _ => (
                Result::Err(
                    RuntimeErrorView::WrongArgumentKind(
                        "eval list, expected function, got: "@ + sp_kind_name(h),
                    ),
                ),
                env,
            ),
        },
    }
}

/// The `let` special form: `(let <symbol> <expr>)` evaluates the
/// expression, binds the symbol to it in the current frame, and reduces
/// to the bound value.
pub open spec fn sp_eval_let(elems: Seq<SexpView>, env: EnvView, fuel: nat) -> (Result<
    SexpView,
    RuntimeErrorView,
>, EnvView)
    decreases fuel, elems, 0int, 0int,
{
    if elems.len() != 3 {
        (Result::Err(RuntimeErrorView::WrongArgumentArity((elems.len() - 1) as usize)), env)
    } else {
        match elems[1] {
            SexpView::Atom(AtomView::Symbol(nm)) => {
                let (r, env2) = sp_eval(elems[2], env, fuel);
                match r {
                    Result::Ok(v) => (
                        Result::Ok(v),
                        env2.update(0, env2[0].push((nm, v))),
                    ),
                    Result::Err(e) => (Result::Err(e), env2),
                }
            },
            _ => (
                Result::Err(
                    RuntimeErrorView::WrongArgumentKind(
                        "let expects a symbol as its first argument"@,
                    ),
                ),
                env,
            ),
        }
    }
}

/// Evaluating the elements from index `i` onward, left to right, the
/// environment threaded through; the first error stops the rest.
pub open spec fn sp_eval_args(elems: Seq<SexpView>, i: int, env: EnvView, fuel: nat) -> (Result<
    Seq<SexpView>,
    RuntimeErrorView,
>, EnvView)
    decreases fuel, elems, 0int, elems.len() - i,
{
    if i < 0 || i >= elems.len() {
        (Result::Ok(Seq::empty()), env)
    } else {
        let (r, env2) = sp_eval(elems[i], env, fuel);
        match r {
            Result::Err(e) => (Result::Err(e), env2),
            Result::Ok(v) => {
                let (r2, env3) = sp_eval_args(elems, i + 1, env2, fuel);
                match r2 {
                    Result::Err(e) => (Result::Err(e), env3),
                    Result::Ok(vs) => (Result::Ok(seq![v] + vs), env3),
                }
            },
        }
    }
}

/// Applies a builtin to its already-collected, already-evaluated
/// argument list.
pub fn apply(b: &Builtin, args: Vec<Sexp>) -> (r: Result<Sexp, RuntimeError>)
    ensures
        result_view(r) == sp_apply(*b, sexps_view(args@)),
{
    match b {
        Builtin::Add => crate::mathop::add(args),
        Builtin::Sub => crate::mathop::sub(args),
        Builtin::Mul => crate::mathop::mul(args),
        Builtin::Div => crate::mathop::div(args),
        Builtin::IsAtom => crate::predicates::is_atom(args),
        Builtin::IsList => crate::predicates::is_list(args),
        Builtin::IsFunction => crate::predicates::is_function(args),
        Builtin::IsString => crate::predicates::is_string(args),
        Builtin::IsSymbol => crate::predicates::is_symbol(args),
        Builtin::IsNumber => crate::predicates::is_number(args),
        Builtin::List => crate::special_forms::list(args),
        Builtin::Car => crate::special_forms::car(args),
        Builtin::Cdr => crate::special_forms::cdr(args),
        Builtin::Append => crate::special_forms::append(args),
        Builtin::Prepend => crate::special_forms::prepend(args),
    }
}

/// Copies of the elements after the head, for a special form that takes
/// its arguments raw.
fn dup_tail(elems: &Vec<Sexp>) -> (r: Vec<Sexp>)
    requires
        elems.len() >= 1,
    ensures
        sexps_view(r@) == sexps_view(elems@).drop_first(),
{
    proof {
        lemma_sexps_view(elems@);
    }
    let mut out: Vec<Sexp> = Vec::new();
    let n = elems.len();
    let mut i: usize = 1;
    while i < n
        invariant
            1 <= i <= n,
            n == elems.len(),
            out@.len() == i - 1,
            forall|j: int| 0 <= j < i - 1 ==> sexp_view(out@[j]) == sexp_view(elems@[j + 1]),
        decreases n - i,
    {
        out.push(elems[i].duplicate());
        i += 1;
    }
    proof {
        lemma_sexps_view(out@);
        assert(sexps_view(out@) =~= sexps_view(elems@).drop_first());
    }
    out
}

fn eval_let(elems: &Vec<Sexp>, env: &mut Env, fuel: u64) -> (r: Result<Sexp, RuntimeError>)
    requires
        elems.len() >= 1,
    ensures
        ({
            let (sr, senv) = sp_eval_let(sexps_view(elems@), old(env)@, fuel as nat);
            result_view(r) == sr && final(env)@ == senv
        }),
    decreases fuel, *elems, 0int, 0int,
{
    proof {
        lemma_sexps_view(elems@);
    }
    if elems.len() != 3 {
        return Result::Err(RuntimeError::WrongArgumentArity(elems.len() - 1));
    }
    let nm: String = match &elems[1] {
        Sexp::Atom(Atom::Symbol(s)) => s.clone(),
        _ => {
            return Result::Err(
                RuntimeError::WrongArgumentKind(
                    String::from_str("let expects a symbol as its first argument"),
                ),
            );
        },
    };
    let v = match eval_depth(&elems[2], env, fuel) {
        Result::Ok(v) => v,
        Result::Err(e) => {
            return Result::Err(e);
        },
    };
    let bound = v.duplicate();
    env.insert(nm, bound);
    Result::Ok(v)
}

/// The parameter names of a lambda's parameter list, or the kind error
/// if some element is not a symbol.
fn parse_params(l: &Vec<Sexp>) -> (r: Result<Vec<String>, RuntimeError>)
    ensures
        match r {
            Result::Ok(names) => sp_param_names(sexps_view(l@), 0) == Option::Some(
                names_view(names@),
            ),
            Result::Err(e) => sp_param_names(sexps_view(l@), 0) is None && e@
                == RuntimeErrorView::WrongArgumentKind(
                "lambda expects a list of symbols as parameters"@,
            ),
        },
{
    let ghost lv = sexps_view(l@);
    proof {
        lemma_sexps_view(l@);
        assert(names_view(Seq::<String>::empty()) =~= Seq::<Seq<char>>::empty());
        assert(forall|rest: Seq<Seq<char>>| Seq::<Seq<char>>::empty() + rest =~= rest);
    }
    let mut names: Vec<String> = Vec::new();
    let k = l.len();
    let mut i: usize = 0;
    while i < k
        invariant
            i <= k,
            k == l.len(),
            lv == sexps_view(l@),
            lv.len() == k,
            forall|j: int| 0 <= j < k ==> lv[j] == sexp_view(l@[j]),
            sp_param_names(lv, 0) == match sp_param_names(lv, i as int) {
                Option::Some(rest) => Option::Some(names_view(names@) + rest),
                Option::None => Option::<Seq<Seq<char>>>::None,
            },
        decreases k - i,
    {
        proof {
            assert(lv[i as int] == sexp_view(l@[i as int]));
        }
        match &l[i] {
            Sexp::Atom(Atom::Symbol(s)) => {
                let ghost pre = names_view(names@);
                names.push(s.clone());
                proof {
                    assert(names_view(names@) =~= pre.push(s@));
                    assert(forall|rest: Seq<Seq<char>>|
                        pre + (seq![s@] + rest) =~= pre.push(s@) + rest);
                }
            },
            _ => {
                proof {
                    assert(sp_param_names(lv, i as int) is None);
                }
                return Result::Err(
                    RuntimeError::WrongArgumentKind(
                        String::from_str("lambda expects a list of symbols as parameters"),
                    ),
                );
            },
        }
        i += 1;
    }
    proof {
        assert(sp_param_names(lv, k as int) == Option::Some(Seq::<Seq<char>>::empty()));
        assert(names_view(names@) + Seq::<Seq<char>>::empty() =~= names_view(names@));
    }
    Result::Ok(names)
}

fn make_closure(elems: &Vec<Sexp>, env: &Env) -> (r: Result<Sexp, RuntimeError>)
    requires
        elems.len() >= 1,
    ensures
        result_view(r) == sp_make_closure(sexps_view(elems@), env@),
{
    proof {
        lemma_sexps_view(elems@);
    }
    if elems.len() != 3 {
        return Result::Err(RuntimeError::WrongArgumentArity(elems.len() - 1));
    }
    let params: Vec<String> = match &elems[1] {
        Sexp::Atom(Atom::Nil) => {
            proof {
                assert(sexps_view(elems@)[1] == sexp_view(elems@[1]));
                assert(names_view(Seq::<String>::empty()) =~= Seq::<Seq<char>>::empty());
            }
            Vec::new()
        },
        Sexp::List(l) => {
            match parse_params(l) {
                Result::Ok(names) => {
                    proof {
                        assert(sexps_view(elems@)[1] == sexp_view(elems@[1]));
                    }
                    names
                },
                Result::Err(e) => {
                    proof {
                        assert(sexps_view(elems@)[1] == sexp_view(elems@[1]));
                    }
                    return Result::Err(e);
                },
            }
        },
        _ => {
            proof {
                assert(sexps_view(elems@)[1] == sexp_view(elems@[1]));
            }
            return Result::Err(
                RuntimeError::WrongArgumentKind(
                    String::from_str("lambda expects a list of symbols as parameters"),
                ),
            );
        },
    };
    proof {
        assert(sexps_view(elems@)[2] == sexp_view(elems@[2]));
    }
    let body = Box::new(elems[2].duplicate());
    let captured = Box::new(env.duplicate());
    Result::Ok(
        Sexp::Func {
            callable: Callable::Closure { params, body, captured },
            name: String::from_str("lambda"),
        },
    )
}

/// The fresh frame of a closure invocation: each parameter bound to its
/// evaluated argument, the closure's defining environment as outer chain.
fn build_frame(params: Vec<String>, vals: Vec<Sexp>, captured: Box<Env>) -> (r: Env)
    requires
        params.len() == vals.len(),
    ensures
        r@ == seq![Seq::new(params@.len(), |k: int| (params@[k]@, vals@[k]@))] + (*captured)@,
{
    let ghost params0 = params@;
    let ghost vals0 = vals@;
    let ghost capv = (*captured)@;
    let mut e = Env::with_outer(*captured);
    let mut params = params;
    let mut vals = vals;
    let mut i: usize = 0;
    let n = params.len();
    proof {
        assert(e@ == seq![Seq::<(Seq<char>, SexpView)>::empty()] + capv);
        assert(e@[0] =~= Seq::new(0nat, |k: int| (params0[k]@, vals0[k]@)));
        assert(e@ =~= seq![Seq::new(0nat, |k: int| (params0[k]@, vals0[k]@))] + capv);
    }
    while i < n
        invariant
            i <= n,
            n == params0.len(),
            params0.len() == vals0.len(),
            params@ == params0.skip(i as int),
            vals@ == vals0.skip(i as int),
            e@ =~= seq![Seq::new(i as nat, |k: int| (params0[k]@, vals0[k]@))] + capv,
        decreases n - i,
    {
        proof {
            assert(params0.skip(i as int)[0] == params0[i as int]);
            assert(vals0.skip(i as int)[0] == vals0[i as int]);
            assert(params0.skip(i as int).remove(0) =~= params0.skip(i as int + 1));
            assert(vals0.skip(i as int).remove(0) =~= vals0.skip(i as int + 1));
        }
        let p = params.remove(0);
        let v = vals.remove(0);
        let ghost pre = e@;
        let ghost pairadd = (params0[i as int]@, vals0[i as int]@);
        e.insert(p, v);
        proof {
            assert(pre[0] =~= Seq::new(i as nat, |k: int| (params0[k]@, vals0[k]@)));
            assert(e@ == pre.update(0, pre[0].push(pairadd)));
            assert(pre[0].push(pairadd) =~= Seq::new(
                (i + 1) as nat,
                |k: int| (params0[k]@, vals0[k]@),
            ));
            assert(e@ =~= seq![Seq::new((i + 1) as nat, |k: int| (params0[k]@, vals0[k]@))]
                + capv);
        }
        i += 1;
    }
    proof {
        assert(Seq::new(n as nat, |k: int| (params0[k]@, vals0[k]@)) =~= Seq::new(
            params0.len(),
            |k: int| (params0[k]@, vals0[k]@),
        ));
        assert(e@ =~= seq![Seq::new(params0.len(), |k: int| (params0[k]@, vals0[k]@))] + capv);
    }
    e
}

fn eval_args(elems: &Vec<Sexp>, i: usize, env: &mut Env, fuel: u64, out: &mut Vec<Sexp>) -> (r:
    Option<RuntimeError>)
    requires
        i <= elems.len(),
    ensures
        ({
            let (sr, senv) = sp_eval_args(sexps_view(elems@), i as int, old(env)@, fuel as nat);
            final(env)@ == senv && match sr {
                Result::Ok(vals) => r is None && sexps_view(final(out)@) == sexps_view(
                    old(out)@,
                ) + vals,
                Result::Err(e) => r matches Option::Some(err) && err@ == e,
            }
        }),
    decreases fuel, *elems, 0int, elems.len() - i,
{
    proof {
        lemma_sexps_view(elems@);
    }
    let n = elems.len();
    if i >= n {
        proof {
            assert(sexps_view(out@) + Seq::<SexpView>::empty() =~= sexps_view(out@));
        }
        return Option::None;
    }
    let v = match eval_depth(&elems[i], env, fuel) {
        Result::Ok(v) => v,
        Result::Err(e) => {
            return Option::Some(e);
        },
    };
    let ghost vv = v@;
    let ghost pre = sexps_view(out@);
    let ghost preseq = out@;
    out.push(v);
    proof {
        assert(out@.drop_last() =~= preseq);
        assert(sexps_view(out@) == pre.push(vv));
        assert(forall|rest: Seq<SexpView>| pre + (seq![vv] + rest) =~= pre.push(vv) + rest);
    }
    eval_args(elems, i + 1, env, fuel, out)
}

fn eval_list(elems: &Vec<Sexp>, env: &mut Env, fuel: u64) -> (r: Result<Sexp, RuntimeError>)
    requires
        elems.len() >= 1,
    ensures
        ({
            let (sr, senv) = sp_eval_list(sexps_view(elems@), old(env)@, fuel as nat);
            result_view(r) == sr && final(env)@ == senv
        }),
    decreases fuel, *elems, 1int, 0int,
{
    proof {
        lemma_sexps_view(elems@);
    }
    let head: Sexp = match &elems[0] {
        Sexp::Atom(Atom::Symbol(name)) => match env.get(name) {
            Option::Some(v) => v,
            Option::None => {
                return Result::Err(RuntimeError::UndefinedSymbol(name.clone()));
            },
        },
        other => other.duplicate(),
    };
    match head {
        Sexp::Func { callable, name: _ } => match callable {
            Callable::Quote => {
                let raw = dup_tail(elems);
                crate::special_forms::quote(raw)
            },
            Callable::Let => eval_let(elems, env, fuel),
            Callable::Lambda => make_closure(elems, env),
            Callable::Builtin(b) => {
                let mut vals: Vec<Sexp> = Vec::new();
                proof {
                    assert(sexps_view(vals@) =~= Seq::<SexpView>::empty());
                }
                match eval_args(elems, 1, env, fuel, &mut vals) {
                    Option::Some(e) => Result::Err(e),
                    Option::None => {
                        proof {
                            let (sr, _senv) = sp_eval_args(
                                sexps_view(elems@),
                                1,
                                old(env)@,
                                fuel as nat,
                            );
                            assert(Seq::<SexpView>::empty() + sr->Ok_0 =~= sr->Ok_0);
                        }
                        apply(&b, vals)
                    },
                }
            },
            Callable::Closure { params, body, captured } => {
                let mut vals: Vec<Sexp> = Vec::new();
                proof {
                    assert(sexps_view(vals@) =~= Seq::<SexpView>::empty());
                }
                match eval_args(elems, 1, env, fuel, &mut vals) {
                    Option::Some(e) => {
                        return Result::Err(e);
                    },
                    Option::None => {},
                }
                proof {
                    let (sr, _senv) = sp_eval_args(
                        sexps_view(elems@),
                        1,
                        old(env)@,
                        fuel as nat,
                    );
                    assert(Seq::<SexpView>::empty() + sr->Ok_0 =~= sr->Ok_0);
                    lemma_sexps_view(vals@);
                }
                if vals.len() != params.len() {
                    return Result::Err(
                        RuntimeError::BadArity {
                            name: String::from_str("lambda"),
                            expected: params.len(),
                            actual: vals.len(),
                        },
                    );
                }
                if fuel == 0 {
                    return Result::Err(RuntimeError::DepthExceeded);
                }
                let ghost paramsv = names_view(params@);
                let ghost valsv = sexps_view(vals@);
                let mut callenv = build_frame(params, vals, captured);
                proof {
                    assert(Seq::new(paramsv.len(), |k: int| (paramsv[k], valsv[k])) =~= callenv@[
                        0
                    ]);
                    assert(seq![Seq::new(paramsv.len(), |k: int| (paramsv[k], valsv[k]))]
                        + callenv@.drop_first() =~= callenv@);
                }
                eval_depth(&*body, &mut callenv, fuel - 1)
            },
        },
        other => Result::Err(
            RuntimeError::WrongArgumentKind(
                String::from_str("eval list, expected function, got: ").concat(
                    other.kind_name(),
                ),
            ),
        ),
    }
}

fn eval_depth(e: &Sexp, env: &mut Env, fuel: u64) -> (r: Result<Sexp, RuntimeError>)
    ensures
        ({
            let (sr, senv) = sp_eval(sexp_view(*e), old(env)@, fuel as nat);
            result_view(r) == sr && final(env)@ == senv
        }),
    decreases fuel, *e, 2int, 0int,
{
    match e {
        Sexp::Atom(Atom::Symbol(name)) => match env.get(name) {
            Option::Some(v) => Result::Ok(v),
            Option::None => Result::Err(RuntimeError::UndefinedSymbol(name.clone())),
        },
        Sexp::List(elems) => {
            if elems.len() == 0 {
                proof {
                    assert(sexps_view(elems@) =~= Seq::<SexpView>::empty());
                }
                Result::Ok(Sexp::Atom(Atom::Nil))
            } else {
                eval_list(elems, env, fuel)
            }
        },
        _ => Result::Ok(e.duplicate()),
    }
}

/// Reduces one form against the environment, resolving symbols, applying
/// callables and installing top-level bindings, exactly as the
/// specification-level evaluator describes.
pub fn eval(expr: Sexp, env: &mut Env) -> (r: Result<Sexp, RuntimeError>)
    ensures
        ({
            let (sr, senv) = sp_eval(expr@, old(env)@, MAX_DEPTH as nat);
            result_view(r) == sr && final(env)@ == senv
        }),
{
    eval_depth(&expr, env, MAX_DEPTH)
}

} // verus!
