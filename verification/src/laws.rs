//! Library-wide laws, stated over the specification-level models and
//! proved once and for all.

use vstd::prelude::*;

use crate::eval::RuntimeErrorView;
use crate::eval::sp_apply;
use crate::eval::sp_eval;
use crate::eval::sp_eval_args;
use crate::eval::sp_eval_let;
use crate::eval::sp_eval_list;
use crate::mathop::sp_div_wrap;
use crate::mathop::sp_into_ints;
use crate::mathop::sp_mul_fold;
use crate::mathop::sp_sub_fold;
use crate::mathop::sp_sum_fold;
use crate::sexp::AtomView;
use crate::sexp::Builtin;
use crate::sexp::CallableView;
use crate::sexp::EnvView;
use crate::sexp::SexpView;
use crate::sexp::sp_env_get;

verus! {

/// The six type predicates of the builtin catalog.
pub open spec fn sp_is_predicate(b: Builtin) -> bool {
    match b {
        Builtin::IsAtom => true,
        Builtin::IsList => true,
        Builtin::IsFunction => true,
        Builtin::IsString => true,
        Builtin::IsSymbol => true,
        Builtin::IsNumber => true,
        _ => false,
    }
}

/// Predicate totality: on a single argument of any shape, every type
/// predicate returns the `T` atom or the `Nil` atom and never errors; on
/// any other argument count it fails with exactly the arity error.
pub proof fn lemma_predicate_totality(b: Builtin, args: Seq<SexpView>)
    requires
        sp_is_predicate(b),
    ensures
        args.len() == 1 ==> (sp_apply(b, args) matches Result::Ok(v) && (v == SexpView::Atom(
            AtomView::T,
        ) || v == SexpView::Atom(AtomView::Nil))),
        args.len() != 1 ==> sp_apply(b, args) == Result::<SexpView, RuntimeErrorView>::Err(
            RuntimeErrorView::WrongArgumentArity(args.len() as usize),
        ),
{
}

/// Quote suppresses evaluation: wherever `quote` denotes the quote form,
/// a quoted form evaluates to that form itself, unevaluated, and the
/// environment is untouched -- even if the form is a bare unbound symbol
/// or mentions unbound symbols.
pub proof fn lemma_quote_suppresses_evaluation(x: SexpView, env: EnvView, fuel: nat)
    requires
        sp_env_get(env, "quote"@) matches Option::Some(SexpView::Func {
            callable: CallableView::Quote,
            ..
        }),
    ensures
        sp_eval(
            SexpView::List(seq![SexpView::Atom(AtomView::Symbol("quote"@)), x]),
            env,
            fuel,
        ) == (Result::<SexpView, RuntimeErrorView>::Ok(x), env),
{
    let elems = seq![SexpView::Atom(AtomView::Symbol("quote"@)), x];
    assert(elems[0] == SexpView::Atom(AtomView::Symbol("quote"@)));
    assert(elems.drop_first() =~= seq![x]);
    assert(crate::special_forms::sp_quote(seq![x]) == Result::<
        SexpView,
        RuntimeErrorView,
    >::Ok(x));
}

/// The reader's quote sugar: a marker symbol followed by a form reads as
/// an explicit `(quote <form>)`, the form itself rewritten recursively
/// when it is a list and kept as is otherwise.
pub proof fn lemma_rewrite_quote_marker(x: SexpView)
    ensures
        crate::parser::sp_rewrite(seq![SexpView::Atom(AtomView::Symbol("'"@)), x]) == (
        match x {
            SexpView::List(l) => seq![
                SexpView::List(
                    seq![
                        SexpView::Atom(AtomView::Symbol("quote"@)),
                        SexpView::List(crate::parser::sp_rewrite_from(l, 0)),
                    ],
                ),
            ],
            _ => seq![SexpView::List(seq![SexpView::Atom(AtomView::Symbol("quote"@)), x])],
        }),
{
    let ast = seq![SexpView::Atom(AtomView::Symbol("'"@)), x];
    assert(ast[0] == SexpView::Atom(AtomView::Symbol("'"@)));
    assert(ast[1] == x);
    assert(crate::parser::sp_rewrite_from(ast, 2) =~= Seq::<SexpView>::empty());
    assert(forall|y: SexpView| seq![y] + Seq::<SexpView>::empty() =~= seq![y]);
}

/// Evaluating a bare unbound symbol fails with exactly
/// `UndefinedSymbol` naming it, and leaves the environment untouched.
pub proof fn lemma_undefined_symbol(name: Seq<char>, env: EnvView, fuel: nat)
    requires
        sp_env_get(env, name) is None,
    ensures
        sp_eval(SexpView::Atom(AtomView::Symbol(name)), env, fuel) == (Result::<
            SexpView,
            RuntimeErrorView,
        >::Err(RuntimeErrorView::UndefinedSymbol(name)), env),
{
}

/// Evaluation never changes the shape of the frame chain: it can bind
/// names in the current frame, but frames are neither added nor removed
/// by the time a call returns.
pub proof fn lemma_eval_preserves_chain(e: SexpView, env: EnvView, fuel: nat)
    requires
        env.len() > 0,
    ensures
        sp_eval(e, env, fuel).1.len() == env.len(),
    decreases fuel, e, 2int, 0int,
{
    match e {
        SexpView::List(elems) => {
            if elems.len() > 0 {
                lemma_eval_list_preserves_chain(elems, env, fuel);
            }
        },
        _ => {},
    }
}

proof fn lemma_eval_list_preserves_chain(elems: Seq<SexpView>, env: EnvView, fuel: nat)
    requires
        env.len() > 0,
    ensures
        sp_eval_list(elems, env, fuel).1.len() == env.len(),
    decreases fuel, elems, 1int, 0int,
{
    match crate::eval::sp_resolve_head(elems[0], env) {
        Result::Err(_) => {},
        Result::Ok(h) => match h {
            SexpView::Func { callable, name: _ } => match callable {
                CallableView::Quote => {},
                CallableView::Let => {
                    lemma_eval_let_preserves_chain(elems, env, fuel);
                },
                CallableView::Lambda => {},
                CallableView::Builtin(_) => {
                    lemma_eval_args_preserves_chain(elems, 1, env, fuel);
                },
                CallableView::Closure { .. } => {
                    lemma_eval_args_preserves_chain(elems, 1, env, fuel);
                },
            },
            _ => {},
        },
    }
}

proof fn lemma_eval_let_preserves_chain(elems: Seq<SexpView>, env: EnvView, fuel: nat)
    requires
        env.len() > 0,
    ensures
        sp_eval_let(elems, env, fuel).1.len() == env.len(),
    decreases fuel, elems, 0int, 0int,
{
    if elems.len() == 3 {
        if elems[1] matches SexpView::Atom(AtomView::Symbol(_)) {
            let nm = elems[1]->Atom_0->Symbol_0;
            lemma_eval_preserves_chain(elems[2], env, fuel);
            let (r, env3) = sp_eval(elems[2], env, fuel);
            if r is Ok {
                let v = r->Ok_0;
                assert(sp_eval_let(elems, env, fuel).1 == env3.update(0, env3[0].push((nm, v))));
                assert(env3.update(0, env3[0].push((nm, v))).len() == env3.len());
            } else {
                assert(sp_eval_let(elems, env, fuel).1 == env3);
            }
        } else {
            assert(sp_eval_let(elems, env, fuel).1 == env);
        }
    } else {
        assert(sp_eval_let(elems, env, fuel).1 == env);
    }
}

proof fn lemma_eval_args_preserves_chain(elems: Seq<SexpView>, i: int, env: EnvView, fuel: nat)
    requires
        env.len() > 0,
    ensures
        sp_eval_args(elems, i, env, fuel).1.len() == env.len(),
    decreases fuel, elems, 0int, elems.len() - i,
{
    if 0 <= i < elems.len() {
        lemma_eval_preserves_chain(elems[i], env, fuel);
        let (r, env2) = sp_eval(elems[i], env, fuel);
        if r is Ok {
            lemma_eval_args_preserves_chain(elems, i + 1, env2, fuel);
        }
    }
}

/// A top-level binding takes effect: wherever `let` denotes the binding
/// form and the bound expression evaluates successfully, `(let <name>
/// <expr>)` reduces to the expression's value, and afterward the bare
/// symbol evaluates to that same value in the resulting environment.
pub proof fn lemma_bind_then_lookup(
    name: Seq<char>,
    expr: SexpView,
    env: EnvView,
    fuel: nat,
    fuel2: nat,
)
    requires
        env.len() > 0,
        sp_env_get(env, "let"@) matches Option::Some(SexpView::Func {
            callable: CallableView::Let,
            ..
        }),
        sp_eval(expr, env, fuel).0 is Ok,
    ensures
        ({
            let letform = SexpView::List(
                seq![
                    SexpView::Atom(AtomView::Symbol("let"@)),
                    SexpView::Atom(AtomView::Symbol(name)),
                    expr,
                ],
            );
            let (r, env2) = sp_eval(letform, env, fuel);
            r == sp_eval(expr, env, fuel).0 && sp_eval(
                SexpView::Atom(AtomView::Symbol(name)),
                env2,
                fuel2,
            ) == (r, env2)
        }),
{
    let elems = seq![
        SexpView::Atom(AtomView::Symbol("let"@)),
        SexpView::Atom(AtomView::Symbol(name)),
        expr,
    ];
    assert(elems[0] == SexpView::Atom(AtomView::Symbol("let"@)));
    assert(elems[1] == SexpView::Atom(AtomView::Symbol(name)));
    assert(elems[2] == expr);
    let letform = SexpView::List(elems);
    assert(crate::eval::sp_resolve_head(elems[0], env) == Result::<
        SexpView,
        RuntimeErrorView,
    >::Ok(sp_env_get(env, "let"@)->Some_0));
    assert(sp_eval_list(elems, env, fuel) == sp_eval_let(elems, env, fuel));
    assert(sp_eval(letform, env, fuel) == sp_eval_list(elems, env, fuel));
    lemma_eval_preserves_chain(expr, env, fuel);
    let (rv, env3) = sp_eval(expr, env, fuel);
    let v = rv->Ok_0;
    let env2 = env3.update(0, env3[0].push((name, v)));
    assert(env2[0] == env3[0].push((name, v)));
    assert(env2[0].last() == (name, v));
    assert(crate::sexp::sp_frame_get(env2[0], name) == Option::Some(v));
}

/// In one frame, lookup returns the entry at the highest index bearing
/// the name.
proof fn lemma_frame_get_found(f: crate::sexp::FrameView, nm: Seq<char>, i: int)
    requires
        0 <= i < f.len(),
        f[i].0 == nm,
        forall|j: int| i < j < f.len() ==> f[j].0 != nm,
    ensures
        crate::sexp::sp_frame_get(f, nm) == Option::Some(f[i].1),
    decreases f.len(),
{
    if i == f.len() - 1 {
        assert(f.last() == f[i]);
    } else {
        assert(f.last().0 != nm);
        lemma_frame_get_found(f.drop_last(), nm, i);
        assert(f.drop_last()[i] == f[i]);
    }
}

/// The global frame delivers its catalog: looking any of the built-in
/// names up in the default environment yields the callable it was
/// registered with, so the hypotheses of the laws above hold of it.
#[verifier::rlimit(100)]
pub proof fn lemma_default_env_bindings()
    ensures
        sp_env_get(crate::sexp::sp_default_env(), "quote"@) == Option::Some(
            SexpView::Func { callable: CallableView::Quote, name: "quote"@ },
        ),
        sp_env_get(crate::sexp::sp_default_env(), "let"@) == Option::Some(
            SexpView::Func { callable: CallableView::Let, name: "let"@ },
        ),
        sp_env_get(crate::sexp::sp_default_env(), "lambda"@) == Option::Some(
            SexpView::Func { callable: CallableView::Lambda, name: "lambda"@ },
        ),
        sp_env_get(crate::sexp::sp_default_env(), "add"@) == Option::Some(
            crate::sexp::builtin_func_view(Builtin::Add, "add"@),
        ),
        sp_env_get(crate::sexp::sp_default_env(), "sub"@) == Option::Some(
            crate::sexp::builtin_func_view(Builtin::Sub, "sub"@),
        ),
        sp_env_get(crate::sexp::sp_default_env(), "mul"@) == Option::Some(
            crate::sexp::builtin_func_view(Builtin::Mul, "mul"@),
        ),
        sp_env_get(crate::sexp::sp_default_env(), "div"@) == Option::Some(
            crate::sexp::builtin_func_view(Builtin::Div, "div"@),
        ),
        sp_env_get(crate::sexp::sp_default_env(), "atom?"@) == Option::Some(
            crate::sexp::builtin_func_view(Builtin::IsAtom, "atom?"@),
        ),
        sp_env_get(crate::sexp::sp_default_env(), "list?"@) == Option::Some(
            crate::sexp::builtin_func_view(Builtin::IsList, "list?"@),
        ),
        sp_env_get(crate::sexp::sp_default_env(), "function?"@) == Option::Some(
            crate::sexp::builtin_func_view(Builtin::IsFunction, "function?"@),
        ),
        sp_env_get(crate::sexp::sp_default_env(), "string?"@) == Option::Some(
            crate::sexp::builtin_func_view(Builtin::IsString, "string?"@),
        ),
        sp_env_get(crate::sexp::sp_default_env(), "symbol?"@) == Option::Some(
            crate::sexp::builtin_func_view(Builtin::IsSymbol, "symbol?"@),
        ),
        sp_env_get(crate::sexp::sp_default_env(), "number?"@) == Option::Some(
            crate::sexp::builtin_func_view(Builtin::IsNumber, "number?"@),
        ),
        sp_env_get(crate::sexp::sp_default_env(), "list"@) == Option::Some(
            crate::sexp::builtin_func_view(Builtin::List, "list"@),
        ),
        sp_env_get(crate::sexp::sp_default_env(), "car"@) == Option::Some(
            crate::sexp::builtin_func_view(Builtin::Car, "car"@),
        ),
        sp_env_get(crate::sexp::sp_default_env(), "cdr"@) == Option::Some(
            crate::sexp::builtin_func_view(Builtin::Cdr, "cdr"@),
        ),
        sp_env_get(crate::sexp::sp_default_env(), "append"@) == Option::Some(
            crate::sexp::builtin_func_view(Builtin::Append, "append"@),
        ),
        sp_env_get(crate::sexp::sp_default_env(), "prepend"@) == Option::Some(
            crate::sexp::builtin_func_view(Builtin::Prepend, "prepend"@),
        ),
        sp_binds_arithmetic(crate::sexp::sp_default_env()),
{
reveal_strlit("quote");
    reveal_strlit("let");
    reveal_strlit("lambda");
    reveal_strlit("add");
    reveal_strlit("sub");
    reveal_strlit("mul");
    reveal_strlit("div");
    reveal_strlit("atom?");
    reveal_strlit("list?");
    reveal_strlit("function?");
    reveal_strlit("string?");
    reveal_strlit("symbol?");
    reveal_strlit("number?");
    reveal_strlit("list");
    reveal_strlit("car");
    reveal_strlit("cdr");
    reveal_strlit("append");
    reveal_strlit("prepend");
    assert("quote"@.len() == 5 && "quote"@[0] == 'q');
    assert("let"@.len() == 3 && "let"@[0] == 'l');
    assert("lambda"@.len() == 6 && "lambda"@[0] == 'l');
    assert("add"@.len() == 3 && "add"@[0] == 'a');
    assert("sub"@.len() == 3 && "sub"@[0] == 's');
    assert("mul"@.len() == 3 && "mul"@[0] == 'm');
    assert("div"@.len() == 3 && "div"@[0] == 'd');
    assert("atom?"@.len() == 5 && "atom?"@[0] == 'a');
    assert("list?"@.len() == 5 && "list?"@[0] == 'l');
    assert("function?"@.len() == 9 && "function?"@[0] == 'f');
    assert("string?"@.len() == 7 && "string?"@[0] == 's' && "string?"@[1] == 't');
    assert("symbol?"@.len() == 7 && "symbol?"@[0] == 's' && "symbol?"@[1] == 'y');
    assert("number?"@.len() == 7 && "number?"@[0] == 'n');
    assert("list"@.len() == 4 && "list"@[0] == 'l');
    assert("car"@.len() == 3 && "car"@[0] == 'c' && "car"@[1] == 'a');
    assert("cdr"@.len() == 3 && "cdr"@[0] == 'c' && "cdr"@[1] == 'd');
    assert("append"@.len() == 6 && "append"@[0] == 'a');
    assert("prepend"@.len() == 7 && "prepend"@[0] == 'p');
    let env = crate::sexp::sp_default_env();
    let frame = crate::sexp::sp_default_frame();
    assert(env[0] == frame);
    assert(frame.len() == 18);
    assert(forall|j: int| 0 < j < 18 ==> frame[j].0 != "quote"@);
    lemma_frame_get_found(frame, "quote"@, 0);
    assert(forall|j: int| 1 < j < 18 ==> frame[j].0 != "let"@);
    lemma_frame_get_found(frame, "let"@, 1);
    assert(forall|j: int| 2 < j < 18 ==> frame[j].0 != "lambda"@);
    lemma_frame_get_found(frame, "lambda"@, 2);
    assert(forall|j: int| 3 < j < 18 ==> frame[j].0 != "add"@);
    lemma_frame_get_found(frame, "add"@, 3);
    assert(forall|j: int| 4 < j < 18 ==> frame[j].0 != "sub"@);
    lemma_frame_get_found(frame, "sub"@, 4);
    assert(forall|j: int| 5 < j < 18 ==> frame[j].0 != "mul"@);
    lemma_frame_get_found(frame, "mul"@, 5);
    assert(forall|j: int| 6 < j < 18 ==> frame[j].0 != "div"@);
    lemma_frame_get_found(frame, "div"@, 6);
    assert(forall|j: int| 7 < j < 18 ==> frame[j].0 != "atom?"@);
    lemma_frame_get_found(frame, "atom?"@, 7);
    assert(forall|j: int| 8 < j < 18 ==> frame[j].0 != "list?"@);
    lemma_frame_get_found(frame, "list?"@, 8);
    assert(forall|j: int| 9 < j < 18 ==> frame[j].0 != "function?"@);
    lemma_frame_get_found(frame, "function?"@, 9);
    assert(forall|j: int| 10 < j < 18 ==> frame[j].0 != "string?"@);
    lemma_frame_get_found(frame, "string?"@, 10);
    assert(forall|j: int| 11 < j < 18 ==> frame[j].0 != "symbol?"@);
    lemma_frame_get_found(frame, "symbol?"@, 11);
    assert(forall|j: int| 12 < j < 18 ==> frame[j].0 != "number?"@);
    lemma_frame_get_found(frame, "number?"@, 12);
    assert(forall|j: int| 13 < j < 18 ==> frame[j].0 != "list"@);
    lemma_frame_get_found(frame, "list"@, 13);
    assert(forall|j: int| 14 < j < 18 ==> frame[j].0 != "car"@);
    lemma_frame_get_found(frame, "car"@, 14);
    assert(forall|j: int| 15 < j < 18 ==> frame[j].0 != "cdr"@);
    lemma_frame_get_found(frame, "cdr"@, 15);
    assert(forall|j: int| 16 < j < 18 ==> frame[j].0 != "append"@);
    lemma_frame_get_found(frame, "append"@, 16);
    assert(forall|j: int| 17 < j < 18 ==> frame[j].0 != "prepend"@);
    lemma_frame_get_found(frame, "prepend"@, 17);
}

/// A well-formed parenthesized numeric expression: a numeric literal, or
/// one of the four arithmetic operators applied to numeric expressions.
pub open spec fn sp_is_numeric_expr(e: SexpView) -> bool
    decreases e, 0int,
{
    match e {
        SexpView::Atom(AtomView::Number(_)) => true,
        SexpView::List(elems) => elems.len() >= 1 && (elems[0] == SexpView::Atom(
            AtomView::Symbol("add"@),
        ) || elems[0] == SexpView::Atom(AtomView::Symbol("sub"@)) || elems[0] == SexpView::Atom(
            AtomView::Symbol("mul"@),
        ) || elems[0] == SexpView::Atom(AtomView::Symbol("div"@))) && sp_all_numeric(elems, 1),
        _ => false,
    }
}

pub open spec fn sp_all_numeric(elems: Seq<SexpView>, i: int) -> bool
    decreases elems, elems.len() - i + 1,
{
    if i < 0 || i >= elems.len() {
        true
    } else {
        sp_is_numeric_expr(elems[i]) && sp_all_numeric(elems, i + 1)
    }
}

/// Direct arithmetic evaluation of a numeric expression: the same folds
/// and the same error conditions as the arithmetic builtins, applied
/// structurally to the tree.
pub open spec fn sp_numeric_value(e: SexpView) -> Result<i64, RuntimeErrorView>
    decreases e, 0int,
{
    match e {
        SexpView::Atom(AtomView::Number(n)) => Result::Ok(n),
        SexpView::List(elems) => match sp_numeric_args(elems, 1) {
            Result::Ok(ns) => if elems[0] == SexpView::Atom(AtomView::Symbol("add"@)) {
                Result::Ok(sp_sum_fold(ns))
            } else if elems[0] == SexpView::Atom(AtomView::Symbol("sub"@)) {
                if ns.len() < 2 {
                    Result::Err(
                        RuntimeErrorView::BadArity {
                            name: "sub"@,
                            expected: 2,
                            actual: ns.len() as usize,
                        },
                    )
                } else {
                    Result::Ok(sp_sub_fold(ns))
                }
            } else if elems[0] == SexpView::Atom(AtomView::Symbol("mul"@)) {
                if ns.len() < 2 {
                    Result::Err(
                        RuntimeErrorView::BadArity {
                            name: "mul"@,
                            expected: 2,
                            actual: ns.len() as usize,
                        },
                    )
                } else {
                    Result::Ok(sp_mul_fold(ns))
                }
            } else {
                if ns.len() < 2 {
                    Result::Err(
                        RuntimeErrorView::BadArity {
                            name: "div"@,
                            expected: 2,
                            actual: ns.len() as usize,
                        },
                    )
                } else if sp_mul_fold(ns.drop_first()) == 0 {
                    Result::Err(RuntimeErrorView::DivideByZero)
                } else {
                    Result::Ok(sp_div_wrap(ns[0], sp_mul_fold(ns.drop_first())))
                }
            },
            Result::Err(e) => Result::Err(e),
        },
        _ => Result::Ok(0),
    }
}

pub open spec fn sp_numeric_args(elems: Seq<SexpView>, i: int) -> Result<
    Seq<i64>,
    RuntimeErrorView,
>
    decreases elems, elems.len() - i + 1,
{
    if i < 0 || i >= elems.len() {
        Result::Ok(Seq::empty())
    } else {
        match sp_numeric_value(elems[i]) {
            Result::Ok(n) => match sp_numeric_args(elems, i + 1) {
                Result::Ok(ns) => Result::Ok(seq![n] + ns),
                Result::Err(e) => Result::Err(e),
            },
            Result::Err(e) => Result::Err(e),
        }
    }
}

pub open spec fn sp_numbers_to_atoms(ns: Seq<i64>) -> Seq<SexpView> {
    ns.map_values(|n: i64| SexpView::Atom(AtomView::Number(n)))
}

/// Turning numbers into number atoms and reading them back is the
/// identity.
proof fn lemma_into_ints_of_numbers(ns: Seq<i64>)
    ensures
        sp_into_ints(sp_numbers_to_atoms(ns)) == Result::<Seq<i64>, RuntimeErrorView>::Ok(ns),
    decreases ns.len(),
{
    let atoms = sp_numbers_to_atoms(ns);
    assert(atoms.len() == ns.len());
    if ns.len() > 0 {
        lemma_into_ints_of_numbers(ns.drop_first());
        assert(atoms[0] == SexpView::Atom(AtomView::Number(ns[0])));
        assert(atoms.drop_first() =~= sp_numbers_to_atoms(ns.drop_first()));
        assert(seq![ns[0]] + ns.drop_first() =~= ns);
    } else {
        assert(Seq::<i64>::empty() =~= ns);
    }
}

/// An environment in which the four arithmetic names denote the four
/// arithmetic builtins.
pub open spec fn sp_binds_arithmetic(env: EnvView) -> bool {
    &&& sp_env_get(env, "add"@) matches Option::Some(SexpView::Func {
        callable: CallableView::Builtin(Builtin::Add),
        ..
    })
    &&& sp_env_get(env, "sub"@) matches Option::Some(SexpView::Func {
        callable: CallableView::Builtin(Builtin::Sub),
        ..
    })
    &&& sp_env_get(env, "mul"@) matches Option::Some(SexpView::Func {
        callable: CallableView::Builtin(Builtin::Mul),
        ..
    })
    &&& sp_env_get(env, "div"@) matches Option::Some(SexpView::Func {
        callable: CallableView::Builtin(Builtin::Div),
        ..
    })
}

/// Round trip for arithmetic: in any environment where `add`, `sub`,
/// `mul` and `div` denote the arithmetic builtins, evaluating a
/// well-formed numeric expression yields exactly what direct arithmetic
/// evaluation of the tree yields -- the same number on success, the same
/// arity or divide-by-zero error on failure -- and the environment is
/// untouched.
pub proof fn lemma_numeric_round_trip(e: SexpView, env: EnvView, fuel: nat)
    requires
        sp_is_numeric_expr(e),
        sp_binds_arithmetic(env),
    ensures
        sp_eval(e, env, fuel) == (
            match sp_numeric_value(e) {
                Result::Ok(n) => Result::<SexpView, RuntimeErrorView>::Ok(
                    SexpView::Atom(AtomView::Number(n)),
                ),
                Result::Err(er) => Result::<SexpView, RuntimeErrorView>::Err(er),
            },
            env,
        ),
    decreases e, 0int,
{
    match e {
        SexpView::Atom(AtomView::Number(_)) => {},
        SexpView::List(elems) => {
            lemma_numeric_args_round_trip(elems, 1, env, fuel);
            let (rv, env2) = sp_eval_args(elems, 1, env, fuel);
            assert(env2 == env);
            if elems[0] == SexpView::Atom(AtomView::Symbol("add"@)) {
                assert(crate::eval::sp_resolve_head(elems[0], env) == Result::<
                    SexpView,
                    RuntimeErrorView,
                >::Ok(sp_env_get(env, "add"@)->Some_0));
                match sp_numeric_args(elems, 1) {
                    Result::Ok(ns) => {
                        lemma_into_ints_of_numbers(ns);
                        assert(sp_numbers_to_atoms(ns).len() == ns.len());
                    },
                    Result::Err(_) => {},
                }
            } else if elems[0] == SexpView::Atom(AtomView::Symbol("sub"@)) {
                assert(crate::eval::sp_resolve_head(elems[0], env) == Result::<
                    SexpView,
                    RuntimeErrorView,
                >::Ok(sp_env_get(env, "sub"@)->Some_0));
                match sp_numeric_args(elems, 1) {
                    Result::Ok(ns) => {
                        lemma_into_ints_of_numbers(ns);
                        assert(sp_numbers_to_atoms(ns).len() == ns.len());
                    },
                    Result::Err(_) => {},
                }
            } else if elems[0] == SexpView::Atom(AtomView::Symbol("mul"@)) {
                assert(crate::eval::sp_resolve_head(elems[0], env) == Result::<
                    SexpView,
                    RuntimeErrorView,
                >::Ok(sp_env_get(env, "mul"@)->Some_0));
                match sp_numeric_args(elems, 1) {
                    Result::Ok(ns) => {
                        lemma_into_ints_of_numbers(ns);
                        assert(sp_numbers_to_atoms(ns).len() == ns.len());
                    },
                    Result::Err(_) => {},
                }
            } else {
                assert(elems[0] == SexpView::Atom(AtomView::Symbol("div"@)));
                assert(crate::eval::sp_resolve_head(elems[0], env) == Result::<
                    SexpView,
                    RuntimeErrorView,
                >::Ok(sp_env_get(env, "div"@)->Some_0));
                match sp_numeric_args(elems, 1) {
                    Result::Ok(ns) => {
                        lemma_into_ints_of_numbers(ns);
                        assert(sp_numbers_to_atoms(ns).len() == ns.len());
                    },
                    Result::Err(_) => {},
                }
            }
        },
        _ => {},
    }
}

proof fn lemma_numeric_args_round_trip(elems: Seq<SexpView>, i: int, env: EnvView, fuel: nat)
    requires
        sp_all_numeric(elems, i),
        sp_binds_arithmetic(env),
    ensures
        sp_eval_args(elems, i, env, fuel) == (
            match sp_numeric_args(elems, i) {
                Result::Ok(ns) => Result::<Seq<SexpView>, RuntimeErrorView>::Ok(
                    sp_numbers_to_atoms(ns),
                ),
                Result::Err(er) => Result::<Seq<SexpView>, RuntimeErrorView>::Err(er),
            },
            env,
        ),
    decreases elems, elems.len() - i + 1,
{
    if i < 0 || i >= elems.len() {
        assert(sp_numbers_to_atoms(Seq::empty()) =~= Seq::<SexpView>::empty());
    } else {
        lemma_numeric_round_trip(elems[i], env, fuel);
        lemma_numeric_args_round_trip(elems, i + 1, env, fuel);
        match sp_numeric_value(elems[i]) {
            Result::Ok(n) => {
                match sp_numeric_args(elems, i + 1) {
                    Result::Ok(ns) => {
                        assert(sp_numbers_to_atoms(seq![n] + ns) =~= seq![
                            SexpView::Atom(AtomView::Number(n)),
                        ] + sp_numbers_to_atoms(ns));
                    },
                    Result::Err(_) => {},
                }
            },
            Result::Err(_) => {},
        }
    }
}

/// A frame whose keys all differ from `y` cannot resolve `y`.
proof fn lemma_frame_get_absent(f: crate::sexp::FrameView, y: Seq<char>)
    requires
        forall|k: int| 0 <= k < f.len() ==> f[k].0 != y,
    ensures
        crate::sexp::sp_frame_get(f, y) is None,
    decreases f.len(),
{
    if f.len() > 0 {
        assert(f.last().0 != y);
        assert(forall|k: int| 0 <= k < f.drop_last().len() ==> f.drop_last()[k] == f[k]);
        lemma_frame_get_absent(f.drop_last(), y);
    }
}

/// In a closure's call frame, a name that is not one of the parameters
/// resolves in the defining chain alone: the argument frame is
/// transparent for it.
pub proof fn lemma_argframe_lookup(
    params: Seq<Seq<char>>,
    vals: Seq<SexpView>,
    captured: EnvView,
    y: Seq<char>,
)
    requires
        params.len() == vals.len(),
        forall|k: int| 0 <= k < params.len() ==> params[k] != y,
    ensures
        ({
            let frame = Seq::new(params.len(), |k: int| (params[k], vals[k]));
            sp_env_get(seq![frame] + captured, y) == sp_env_get(captured, y)
        }),
{
    let frame = Seq::new(params.len(), |k: int| (params[k], vals[k]));
    assert(forall|k: int| 0 <= k < frame.len() ==> frame[k].0 != y);
    lemma_frame_get_absent(frame, y);
    assert((seq![frame] + captured)[0] == frame);
    assert((seq![frame] + captured).drop_first() =~= captured);
}

/// Lexical scoping, in general: invoking a closure evaluates its body in
/// a fresh frame -- each parameter bound to its evaluated argument --
/// whose outer chain is the closure's captured (defining) chain, never
/// the caller's frames.
pub proof fn lemma_closure_call_uses_defining_chain(
    elems: Seq<SexpView>,
    env: EnvView,
    fuel: nat,
)
    requires
        elems.len() >= 1,
        elems[0] matches SexpView::Func { callable: CallableView::Closure { .. }, .. },
        sp_eval_args(elems, 1, env, fuel).0 matches Result::Ok(vals) && vals.len()
            == elems[0]->callable->params.len(),
        fuel > 0,
    ensures
        ({
            let params = elems[0]->callable->params;
            let body = elems[0]->callable->body;
            let captured = elems[0]->callable->captured;
            let (r, env2) = sp_eval_args(elems, 1, env, fuel);
            let vals = r->Ok_0;
            let frame = Seq::new(params.len(), |k: int| (params[k], vals[k]));
            sp_eval_list(elems, env, fuel) == (
                sp_eval(*body, seq![frame] + captured, (fuel - 1) as nat).0,
                env2,
            )
        }),
{
    assert(crate::eval::sp_resolve_head(elems[0], env) == Result::<
        SexpView,
        RuntimeErrorView,
    >::Ok(elems[0]));
}

/// Lexical scoping, noninterference: with a closure in call position and
/// argument forms that evaluate to the same values under two caller
/// environments, the call's result is the same under both -- the
/// caller's own bindings reach the call only through its arguments.
pub proof fn lemma_closure_call_ignores_caller_env(
    elems: Seq<SexpView>,
    env1: EnvView,
    env2: EnvView,
    fuel: nat,
)
    requires
        elems.len() >= 1,
        elems[0] matches SexpView::Func { callable: CallableView::Closure { .. }, .. },
        sp_eval_args(elems, 1, env1, fuel).0 == sp_eval_args(elems, 1, env2, fuel).0,
    ensures
        sp_eval_list(elems, env1, fuel).0 == sp_eval_list(elems, env2, fuel).0,
{
    assert(crate::eval::sp_resolve_head(elems[0], env1) == Result::<
        SexpView,
        RuntimeErrorView,
    >::Ok(elems[0]));
    assert(crate::eval::sp_resolve_head(elems[0], env2) == Result::<
        SexpView,
        RuntimeErrorView,
    >::Ok(elems[0]));
}

/// Lexical scoping, negative side in general: a closure whose body is a
/// free symbol -- one that is neither a parameter nor bound in the
/// defining chain -- fails with `UndefinedSymbol`, whatever the caller's
/// environment binds that symbol to.
pub proof fn lemma_closure_free_symbol_fails(
    elems: Seq<SexpView>,
    y: Seq<char>,
    env: EnvView,
    fuel: nat,
)
    requires
        elems.len() >= 1,
        elems[0] matches SexpView::Func { callable: CallableView::Closure { body, .. }, .. }
            && *body == SexpView::Atom(AtomView::Symbol(y)),
        forall|k: int| 0 <= k < elems[0]->callable->params.len()
            ==> elems[0]->callable->params[k] != y,
        sp_env_get(elems[0]->callable->captured, y) is None,
        sp_eval_args(elems, 1, env, fuel).0 matches Result::Ok(vals) && vals.len()
            == elems[0]->callable->params.len(),
        fuel > 0,
    ensures
        sp_eval_list(elems, env, fuel).0 == Result::<SexpView, RuntimeErrorView>::Err(
            RuntimeErrorView::UndefinedSymbol(y),
        ),
{
    lemma_closure_call_uses_defining_chain(elems, env, fuel);
    let params = elems[0]->callable->params;
    let captured = elems[0]->callable->captured;
    let vals = sp_eval_args(elems, 1, env, fuel).0->Ok_0;
    lemma_argframe_lookup(params, vals, captured, y);
    let frame = Seq::new(params.len(), |k: int| (params[k], vals[k]));
    assert(sp_eval(
        SexpView::Atom(AtomView::Symbol(y)),
        seq![frame] + captured,
        (fuel - 1) as nat,
    ).0 == Result::<SexpView, RuntimeErrorView>::Err(RuntimeErrorView::UndefinedSymbol(y)));
}

/// Lexical scoping, negative side: a closure invoked from a call site
/// does not see bindings local to the caller.  A closure whose body is a
/// free symbol that its defining environment does not bind fails with
/// `UndefinedSymbol`, whatever the caller's environment binds.
pub proof fn lemma_closure_ignores_caller(
    y: Seq<char>,
    captured: EnvView,
    env: EnvView,
    fuel: nat,
    name: Seq<char>,
)
    requires
        sp_env_get(captured, y) is None,
        fuel > 0,
    ensures
        ({
            let clos = SexpView::Func {
                callable: CallableView::Closure {
                    params: Seq::empty(),
                    body: Box::new(SexpView::Atom(AtomView::Symbol(y))),
                    captured: captured,
                },
                name: name,
            };
            sp_eval(SexpView::List(seq![clos]), env, fuel) == (Result::<
                SexpView,
                RuntimeErrorView,
            >::Err(RuntimeErrorView::UndefinedSymbol(y)), env)
        }),
{
    let clos = SexpView::Func {
        callable: CallableView::Closure {
            params: Seq::empty(),
            body: Box::new(SexpView::Atom(AtomView::Symbol(y))),
            captured: captured,
        },
        name: name,
    };
    let elems = seq![clos];
    assert(elems[0] == clos);
    assert(crate::eval::sp_resolve_head(elems[0], env) == Result::<
        SexpView,
        RuntimeErrorView,
    >::Ok(clos));
    assert(sp_eval_args(elems, 1, env, fuel) == (Result::<
        Seq<SexpView>,
        RuntimeErrorView,
    >::Ok(Seq::empty()), env));
    let params = Seq::<Seq<char>>::empty();
    let vals = sp_eval_args(elems, 1, env, fuel).0->Ok_0;
    assert(vals.len() == params.len());
    let frame = Seq::new(params.len(), |k: int| (params[k], vals[k]));
    let callenv = seq![frame] + captured;
    assert(frame.len() == 0);
    assert(callenv[0] == frame);
    assert(crate::sexp::sp_frame_get(frame, y) is None);
    assert(callenv.drop_first() =~= captured);
    assert(sp_env_get(callenv, y) is None);
    assert(sp_eval(SexpView::Atom(AtomView::Symbol(y)), callenv, (fuel - 1) as nat) == (
    Result::<SexpView, RuntimeErrorView>::Err(RuntimeErrorView::UndefinedSymbol(y)), callenv));
    assert(sp_eval_list(elems, env, fuel) == (Result::<SexpView, RuntimeErrorView>::Err(
        RuntimeErrorView::UndefinedSymbol(y),
    ), env));
}

/// Lexical scoping, positive side: a closure sees its own parameters.  A
/// one-parameter closure whose body is that parameter returns its
/// argument, whatever the caller's environment holds.
pub proof fn lemma_closure_sees_param(
    x: Seq<char>,
    arg: AtomView,
    captured: EnvView,
    env: EnvView,
    fuel: nat,
    name: Seq<char>,
)
    requires
        !(arg matches AtomView::Symbol(_)),
        fuel > 0,
    ensures
        ({
            let clos = SexpView::Func {
                callable: CallableView::Closure {
                    params: seq![x],
                    body: Box::new(SexpView::Atom(AtomView::Symbol(x))),
                    captured: captured,
                },
                name: name,
            };
            sp_eval(SexpView::List(seq![clos, SexpView::Atom(arg)]), env, fuel) == (Result::<
                SexpView,
                RuntimeErrorView,
            >::Ok(SexpView::Atom(arg)), env)
        }),
{
    let clos = SexpView::Func {
        callable: CallableView::Closure {
            params: seq![x],
            body: Box::new(SexpView::Atom(AtomView::Symbol(x))),
            captured: captured,
        },
        name: name,
    };
    let elems = seq![clos, SexpView::Atom(arg)];
    assert(elems[0] == clos);
    assert(elems[1] == SexpView::Atom(arg));
    assert(sp_eval(elems[1], env, fuel) == (Result::<SexpView, RuntimeErrorView>::Ok(
        SexpView::Atom(arg),
    ), env));
    assert(sp_eval_args(elems, 2, env, fuel) == (Result::<
        Seq<SexpView>,
        RuntimeErrorView,
    >::Ok(Seq::empty()), env));
    assert(sp_eval_args(elems, 1, env, fuel).0 == Result::<
        Seq<SexpView>,
        RuntimeErrorView,
    >::Ok(seq![SexpView::Atom(arg)] + Seq::empty()));
    let params = seq![x];
    let vals = sp_eval_args(elems, 1, env, fuel).0->Ok_0;
    assert(vals == seq![SexpView::Atom(arg)] + Seq::<SexpView>::empty());
    assert(vals =~= seq![SexpView::Atom(arg)]);
    assert(vals.len() == params.len());
    let frame = Seq::new(params.len(), |k: int| (params[k], vals[k]));
    let callenv = seq![frame] + captured;
    assert(callenv[0] == frame);
    assert(frame.len() == 1);
    assert(frame.last() == (x, SexpView::Atom(arg)));
    assert(crate::sexp::sp_frame_get(frame, x) == Option::Some(SexpView::Atom(arg)));
    assert(sp_env_get(callenv, x) == Option::Some(SexpView::Atom(arg)));
    assert(sp_eval(SexpView::Atom(AtomView::Symbol(x)), callenv, (fuel - 1) as nat) == (
    Result::<SexpView, RuntimeErrorView>::Ok(SexpView::Atom(arg)), callenv));
    assert(crate::eval::sp_resolve_head(elems[0], env) == Result::<
        SexpView,
        RuntimeErrorView,
    >::Ok(clos));
    assert(sp_eval_list(elems, env, fuel) == (Result::<SexpView, RuntimeErrorView>::Ok(
        SexpView::Atom(arg),
    ), env));
}

} // verus!
