//! The reader: tokens to s-expression trees, plus the quote rewrite.
//!
//! Top-level forms are read left to right.  An empty parenthesized form
//! `()` reads as the `Nil` atom, not an empty list.  Symbol tokens go
//! through literal recognition: boolean spellings, nil spellings, an
//! integer literal, else a bare symbol.  After the raw tree is built a
//! second pass rewrites each occurrence of the quote marker `'` together
//! with its next sibling into an explicit `(quote <form>)` form.

use vstd::prelude::*;
use vstd::string::StrSliceExecFns;
use vstd::string::StringExecFns;

use crate::lexer::Token;
use crate::lexer::TokenView;
use crate::lexer::lemma_tokens_view;
use crate::lexer::tokens_view;
use crate::sexp::Atom;
use crate::sexp::AtomView;
use crate::sexp::Sexp;
use crate::sexp::SexpView;
use crate::sexp::lemma_sexps_view;
use crate::sexp::sexp_view;
use crate::sexp::sexps_view;

verus! {

/// A fatal error of the reading stage; no partial form list is produced.
#[derive(Debug, PartialEq)]
pub struct ParserError {
    pub message: String,
}

/// Model of a `ParserError`.
#[verifier::ext_equal]
pub struct ParserErrorView {
    pub message: Seq<char>,
}

impl View for ParserError {
    type V = ParserErrorView;

    open spec fn view(&self) -> ParserErrorView {
        ParserErrorView { message: self.message@ }
    }
}

pub open spec fn sp_is_digit(c: char) -> bool {
    '0' <= c && c <= '9'
}

pub open spec fn sp_digit_val(c: char) -> int {
    c as int - '0' as int
}

/// The value of a digit string, most significant digit first.
pub open spec fn sp_digits_val(s: Seq<char>) -> int
    decreases s.len(),
{
    if s.len() == 0 {
        0
    } else {
        sp_digits_val(s.drop_last()) * 10 + sp_digit_val(s.last())
    }
}

pub open spec fn sp_all_digits(s: Seq<char>) -> bool {
    forall|i: int| 0 <= i < s.len() ==> sp_is_digit(s[i])
}

/// The digit part of a numeric literal: everything after an optional
/// leading sign.
pub open spec fn sp_literal_digits(s: Seq<char>) -> Seq<char> {
    if s.len() > 0 && (s[0] == '+' || s[0] == '-') {
        s.drop_first()
    } else {
        s
    }
}

pub open spec fn sp_literal_value(s: Seq<char>) -> int {
    if s.len() > 0 && s[0] == '-' {
        -sp_digits_val(sp_literal_digits(s))
    } else {
        sp_digits_val(sp_literal_digits(s))
    }
}

/// A numeric literal: an optional sign, then one or more digits, with a
/// value that fits in 64 signed bits.
pub open spec fn sp_is_int_literal(s: Seq<char>) -> bool {
    &&& sp_literal_digits(s).len() > 0
    &&& sp_all_digits(sp_literal_digits(s))
    &&& i64::MIN <= sp_literal_value(s) <= i64::MAX
}

/// Literal recognition for a symbol token, in its fixed order: boolean
/// spellings, nil spellings, integer literal, bare symbol.
pub open spec fn sp_parse_atom(s: Seq<char>) -> AtomView {
    if s == "t"@ || s == "T"@ || s == "true"@ {
        AtomView::T
    } else if s == "nil"@ || s == "NIL"@ || s == "false"@ {
        AtomView::Nil
    } else if sp_is_int_literal(s) {
        AtomView::Number(sp_literal_value(s) as i64)
    } else {
        AtomView::Symbol(s)
    }
}

/// A digit string has a non-negative value.
proof fn lemma_digits_val_nonneg(s: Seq<char>)
    requires
        sp_all_digits(s),
    ensures
        sp_digits_val(s) >= 0,
    decreases s.len(),
{
    if s.len() > 0 {
        assert(sp_all_digits(s.drop_last()));
        lemma_digits_val_nonneg(s.drop_last());
    }
}

/// The value of a digit string is at least the value of any of its
/// prefixes.
proof fn lemma_digits_val_prefix(s: Seq<char>, k: int)
    requires
        sp_all_digits(s),
        0 <= k <= s.len(),
    ensures
        sp_digits_val(s) >= sp_digits_val(s.take(k)),
    decreases s.len() - k,
{
    if k == s.len() {
        assert(s.take(k) =~= s);
    } else {
        lemma_digits_val_prefix(s, k + 1);
        assert(s.take(k + 1).drop_last() =~= s.take(k));
        assert(sp_all_digits(s.take(k)));
        lemma_digits_val_nonneg(s.take(k));
        assert(sp_digits_val(s.take(k + 1)) == sp_digits_val(s.take(k)) * 10 + sp_digit_val(
            s[k],
        ));
    }
}

/// Reads `s` as an integer literal, or reports that it is not one.
fn parse_int(s: &str) -> (r: Option<i64>)
    ensures
        match r {
            Option::Some(n) => sp_is_int_literal(s@) && n == sp_literal_value(s@),
            Option::None => !sp_is_int_literal(s@),
        },
{
    let n = s.unicode_len();
    if n == 0 {
        return Option::None;
    }
    let c0 = s.get_char(0);
    let neg = c0 == '-';
    let start: usize = if c0 == '-' || c0 == '+' {
        1
    } else {
        0
    };
    let ghost d = sp_literal_digits(s@);
    proof {
        assert(d =~= s@.subrange(start as int, n as int));
    }
    if n == start {
        return Option::None;
    }
    // Accumulate the negated magnitude so that `i64::MIN` stays
    // representable along the way.
    let mut acc: i64 = 0;
    let mut i: usize = start;
    while i < n
        invariant
            start <= i <= n,
            n == s@.len(),
            start == if s@.len() > 0 && (s@[0] == '+' || s@[0] == '-') {
                1int
            } else {
                0int
            },
            d == sp_literal_digits(s@),
            d == s@.subrange(start as int, n as int),
            sp_all_digits(d.take(i - start)),
            acc == -sp_digits_val(d.take(i - start)),
            i64::MIN <= acc <= 0,
        decreases n - i,
    {
        let c = s.get_char(i);
        proof {
            assert(d[i - start] == s@[i as int]);
            assert(d.take(i - start + 1).drop_last() =~= d.take(i - start));
            assert(d.take(i - start + 1).last() == d[i - start]);
        }
        if !(c >= '0' && c <= '9') {
            proof {
                assert(!sp_is_digit(d[i - start]));
                assert(!sp_all_digits(d));
            }
            return Option::None;
        }
        let dv = (c as u32 - '0' as u32) as i64;
        proof {
            assert(dv == sp_digit_val(s@[i as int]));
        }
        let step = match acc.checked_mul(10) {
            Option::Some(a) => match a.checked_sub(dv) {
                Option::Some(b) => Option::Some(b),
                Option::None => Option::None,
            },
            Option::None => Option::None,
        };
        match step {
            Option::Some(b) => {
                acc = b;
            },
            Option::None => {
                // The magnitude has outgrown 64 signed bits, and more
                // digits can only make it larger.
                proof {
                    assert(sp_all_digits(d.take(i - start + 1)));
                    assert(sp_digits_val(d.take(i - start + 1)) > -(i64::MIN as int));
                    if sp_all_digits(d) {
                        lemma_digits_val_prefix(d, i - start + 1);
                        assert(sp_digits_val(d) > -(i64::MIN as int));
                    }
                }
                return Option::None;
            },
        }
        i += 1;
    }
    proof {
        assert(d.take(n - start) =~= d);
    }
    if neg {
        Option::Some(acc)
    } else {
        if acc == i64::MIN {
            proof {
                assert(sp_digits_val(d) > i64::MAX as int);
            }
            return Option::None;
        }
        Option::Some(-acc)
    }
}

/// Resolves raw symbol text into `T`, `Nil`, a number or a bare symbol.
pub fn parse(token: String) -> (r: Sexp)
    ensures
        r@ == SexpView::Atom(sp_parse_atom(token@)),
{
    if token == String::from_str("t") || token == String::from_str("T") || token
        == String::from_str("true") {
        return Sexp::Atom(Atom::T);
    }
    if token == String::from_str("nil") || token == String::from_str("NIL") || token
        == String::from_str("false") {
        return Sexp::Atom(Atom::Nil);
    }
    match parse_int(token.as_str()) {
        Option::Some(n) => Sexp::Atom(Atom::Number(n)),
        Option::None => Sexp::Atom(Atom::Symbol(token)),
    }
}

/// One step of reading: the forms read so far sit in `top`, and `stack`
/// holds the accumulated elements of each unclosed parenthesized list,
/// outermost first.
pub open spec fn sp_read_step(
    toks: Seq<TokenView>,
    i: int,
    stack: Seq<Seq<SexpView>>,
    top: Seq<SexpView>,
) -> Result<Seq<SexpView>, ParserErrorView>
    decreases toks.len() - i,
{
    if i < 0 || i >= toks.len() {
        if stack.len() == 0 {
            Result::Ok(top)
        } else {
            Result::Err(ParserErrorView { message: "missing closing parenthesis"@ })
        }
    } else {
        match toks[i] {
            TokenView::LParen => sp_read_step(toks, i + 1, stack.push(top), Seq::empty()),
            TokenView::RParen => {
                if stack.len() == 0 {
                    Result::Err(ParserErrorView { message: "unexpected closing paren"@ })
                } else {
                    let form = if top.len() == 0 {
                        SexpView::Atom(AtomView::Nil)
                    } else {
                        SexpView::List(top)
                    };
                    sp_read_step(toks, i + 1, stack.drop_last(), stack.last().push(form))
                }
            },
            TokenView::Symbol(s) => sp_read_step(
                toks,
                i + 1,
                stack,
                top.push(SexpView::Atom(sp_parse_atom(s))),
            ),
            TokenView::Str(s) => sp_read_step(
                toks,
                i + 1,
                stack,
                top.push(SexpView::Atom(AtomView::Str(s))),
            ),
        }
    }
}

/// What reading a token list into raw forms (before the quote rewrite)
/// yields.
pub open spec fn sp_read_raw(toks: Seq<TokenView>) -> Result<Seq<SexpView>, ParserErrorView> {
    sp_read_step(toks, 0, Seq::empty(), Seq::empty())
}

pub open spec fn stack_view(s: Seq<Vec<Sexp>>) -> Seq<Seq<SexpView>> {
    s.map_values(|v: Vec<Sexp>| sexps_view(v@))
}

fn read_raw(tokens: &Vec<Token>) -> (r: Result<Vec<Sexp>, ParserError>)
    ensures
        match r {
            Result::Ok(v) => sp_read_raw(tokens_view(tokens@)) == Result::<
                Seq<SexpView>,
                ParserErrorView,
            >::Ok(sexps_view(v@)),
            Result::Err(e) => sp_read_raw(tokens_view(tokens@)) == Result::<
                Seq<SexpView>,
                ParserErrorView,
            >::Err(e@),
        },
{
    let ghost tv = tokens_view(tokens@);
    proof {
        lemma_tokens_view(tokens@);
    }
    let mut stack: Vec<Vec<Sexp>> = Vec::new();
    let mut top: Vec<Sexp> = Vec::new();
    let n = tokens.len();
    let mut i: usize = 0;
    proof {
        assert(stack_view(stack@) =~= Seq::<Seq<SexpView>>::empty());
        assert(sexps_view(top@) =~= Seq::<SexpView>::empty());
    }
    while i < n
        invariant
            n == tokens.len(),
            tv == tokens_view(tokens@),
            tv.len() == n,
            forall|j: int| 0 <= j < n ==> tv[j] == #[trigger] tokens@[j]@,
            i <= n,
            sp_read_raw(tv) == sp_read_step(tv, i as int, stack_view(stack@), sexps_view(top@)),
        decreases n - i,
    {
        let ghost pre_stack = stack_view(stack@);
        let ghost pre_top = sexps_view(top@);
        proof {
            assert(tv[i as int] == tokens@[i as int]@);
        }
        match &tokens[i] {
            Token::LParen => {
                stack.push(top);
                top = Vec::new();
                proof {
                    assert(stack_view(stack@) =~= pre_stack.push(pre_top));
                    assert(sexps_view(top@) =~= Seq::<SexpView>::empty());
                }
            },
            Token::RParen => {
                if stack.len() == 0 {
                    proof {
                        assert(pre_stack.len() == 0);
                    }
                    return Result::Err(
                        ParserError { message: String::from_str("unexpected closing paren") },
                    );
                }
                let finished = top;
                let form = if finished.len() == 0 {
                    proof {
                        assert(sexps_view(finished@) =~= Seq::<SexpView>::empty());
                    }
                    Sexp::Atom(Atom::Nil)
                } else {
                    Sexp::List(finished)
                };
                top = match stack.pop() {
                    Option::Some(t) => t,
                    Option::None => {
                        proof {
                            assert(false);
                        }
                        Vec::new()
                    },
                };
                let ghost popped = sexps_view(top@);
                let ghost pre2 = top@;
                let ghost fv = form@;
                top.push(form);
                proof {
                    assert(stack_view(stack@) =~= pre_stack.drop_last());
                    assert(popped == pre_stack.last());
                    assert(top@.drop_last() =~= pre2);
                    assert(sexps_view(top@) == popped.push(fv));
                }
            },
            Token::Symbol(s) => {
                let atom = parse(s.clone());
                let ghost pre = top@;
                top.push(atom);
                proof {
                    assert(top@.drop_last() =~= pre);
                    assert(sexps_view(top@) == pre_top.push(
                        SexpView::Atom(sp_parse_atom(s@)),
                    ));
                }
            },
            Token::Str(s) => {
                let text = s.clone();
                let ghost textv = text@;
                let ghost pre = top@;
                top.push(Sexp::Atom(Atom::Str(text)));
                proof {
                    assert(textv == s@);
                    assert(top@.drop_last() =~= pre);
                    assert(sexp_view(top@.last()) == SexpView::Atom(AtomView::Str(textv)));
                    assert(sexps_view(top@) == pre_top.push(SexpView::Atom(AtomView::Str(s@))));
                }
            },
        }
        i += 1;
    }
    if stack.len() > 0 {
        return Result::Err(
            ParserError { message: String::from_str("missing closing parenthesis") },
        );
    }
    proof {
        assert(stack_view(stack@).len() == 0);
    }
    Result::Ok(top)
}

/// The quote rewrite of `ast` from position `i` onward: each occurrence
/// of the marker symbol `'` consumes the next sibling form (recursing into
/// it first if it is a list) and becomes `(quote <form>)`; a trailing
/// marker with nothing after it becomes a bare `(quote)` placeholder.
/// Lists without a marker are still entered recursively.
pub open spec fn sp_rewrite_from(ast: Seq<SexpView>, i: int) -> Seq<SexpView>
    decreases ast, ast.len() - i,
{
    if i < 0 || i >= ast.len() {
        Seq::empty()
    } else if ast[i] == SexpView::Atom(AtomView::Symbol("'"@)) {
        if i + 1 < ast.len() {
            match ast[i + 1] {
                SexpView::List(l) => seq![
                    SexpView::List(
                        seq![
                            SexpView::Atom(AtomView::Symbol("quote"@)),
                            SexpView::List(sp_rewrite_from(l, 0)),
                        ],
                    ),
                ] + sp_rewrite_from(ast, i + 2),
                other => seq![
                    SexpView::List(seq![SexpView::Atom(AtomView::Symbol("quote"@)), other]),
                ] + sp_rewrite_from(ast, i + 2),
            }
        } else {
            seq![SexpView::List(seq![SexpView::Atom(AtomView::Symbol("quote"@))])]
        }
    } else {
        match ast[i] {
            SexpView::List(l) => seq![SexpView::List(sp_rewrite_from(l, 0))] + sp_rewrite_from(
                ast,
                i + 1,
            ),
            other => seq![other] + sp_rewrite_from(ast, i + 1),
        }
    }
}

/// The quote rewrite of a whole form sequence.
pub open spec fn sp_rewrite(ast: Seq<SexpView>) -> Seq<SexpView> {
    sp_rewrite_from(ast, 0)
}

fn rewrite_ref(v: &Vec<Sexp>) -> (r: Vec<Sexp>)
    ensures
        sexps_view(r@) == sp_rewrite(sexps_view(v@)),
    decreases *v,
{
    let ghost av = sexps_view(v@);
    proof {
        lemma_sexps_view(v@);
    }
    let mut out: Vec<Sexp> = Vec::new();
    let n = v.len();
    let mut i: usize = 0;
    proof {
        assert(sexps_view(out@) =~= Seq::<SexpView>::empty());
        assert(sexps_view(out@) + sp_rewrite_from(av, 0) =~= sp_rewrite_from(av, 0));
    }
    while i < n
        invariant
            n == v.len(),
            av == sexps_view(v@),
            av.len() == n,
            forall|j: int| 0 <= j < n ==> av[j] == sexp_view(v@[j]),
            i <= n,
            sp_rewrite(av) == sexps_view(out@) + sp_rewrite_from(av, i as int),
        decreases n - i,
    {
        let ghost pre_out = sexps_view(out@);
        proof {
            assert(av[i as int] == sexp_view(v@[i as int]));
            if i + 1 < n {
                assert(av[i as int + 1] == sexp_view(v@[i as int + 1]));
            }
        }
        let marker = match &v[i] {
            Sexp::Atom(Atom::Symbol(s)) => *s == String::from_str("'"),
            _ => false,
        };
        if marker {
            if i + 1 < n {
                let quoted = match &v[i + 1] {
                    Sexp::List(l) => Sexp::List(rewrite_ref(l)),
                    other => other.duplicate(),
                };
                let ghost quotedv = quoted@;
                let mut form: Vec<Sexp> = Vec::new();
                form.push(Sexp::Atom(Atom::Symbol(String::from_str("quote"))));
                let ghost form1 = form@;
                form.push(quoted);
                proof {
                    assert(form@.drop_last() =~= form1);
                    assert(form1.drop_last() =~= Seq::<Sexp>::empty());
                    assert(sexps_view(Seq::<Sexp>::empty()) == Seq::<SexpView>::empty());
                    assert(sexp_view(form1.last()) == SexpView::Atom(AtomView::Symbol("quote"@)));
                    assert(sexps_view(form1) == Seq::<SexpView>::empty().push(
                        SexpView::Atom(AtomView::Symbol("quote"@)),
                    ));
                    assert(sexps_view(form@) == sexps_view(form1).push(quotedv));
                    assert(sexps_view(form@) =~= seq![
                        SexpView::Atom(AtomView::Symbol("quote"@)),
                        quotedv,
                    ]);
                }
                let ghost formv = sexps_view(form@);
                let ghost pre = out@;
                out.push(Sexp::List(form));
                proof {
                    assert(out@.drop_last() =~= pre);
                    assert(sexp_view(out@.last()) == SexpView::List(formv));
                    assert(sexps_view(out@) == pre_out.push(SexpView::List(formv)));
                    assert(forall|rest: Seq<SexpView>, x: SexpView|
                        pre_out + (seq![x] + rest) =~= pre_out.push(x) + rest);
                }
                i += 2;
            } else {
                let mut form: Vec<Sexp> = Vec::new();
                form.push(Sexp::Atom(Atom::Symbol(String::from_str("quote"))));
                proof {
                    assert(form@.drop_last() =~= Seq::<Sexp>::empty());
                    assert(sexps_view(Seq::<Sexp>::empty()) == Seq::<SexpView>::empty());
                    assert(sexp_view(form@.last()) == SexpView::Atom(AtomView::Symbol("quote"@)));
                    assert(sexps_view(form@) =~= seq![SexpView::Atom(AtomView::Symbol("quote"@))]);
                }
                let ghost formv = sexps_view(form@);
                let ghost pre = out@;
                out.push(Sexp::List(form));
                proof {
                    assert(out@.drop_last() =~= pre);
                    assert(sexp_view(out@.last()) == SexpView::List(formv));
                    assert(sexps_view(out@) == pre_out.push(SexpView::List(formv)));
                    assert(sexps_view(out@) =~= pre_out + seq![
                        SexpView::List(seq![SexpView::Atom(AtomView::Symbol("quote"@))]),
                    ]);
                }
                i = n;
            }
        } else {
            let rewritten = match &v[i] {
                Sexp::List(l) => Sexp::List(rewrite_ref(l)),
                other => other.duplicate(),
            };
            let ghost pre = out@;
            out.push(rewritten);
            proof {
                assert(out@.drop_last() =~= pre);
                assert(forall|rest: Seq<SexpView>, x: SexpView|
                    pre_out + (seq![x] + rest) =~= pre_out.push(x) + rest);
            }
            i += 1;
        }
    }
    proof {
        assert(sexps_view(out@) + Seq::<SexpView>::empty() =~= sexps_view(out@));
    }
    out
}

/// The quote-desugaring rewrite pass over a form sequence.
pub fn rewrite_quotes(ast: Vec<Sexp>) -> (r: Vec<Sexp>)
    ensures
        sexps_view(r@) == sp_rewrite(sexps_view(ast@)),
{
    rewrite_ref(&ast)
}

/// What reading a token list yields: the raw trees with the quote rewrite
/// applied.
pub open spec fn sp_read_from_tokens(toks: Seq<TokenView>) -> Result<
    Seq<SexpView>,
    ParserErrorView,
> {
    match sp_read_raw(toks) {
        Result::Ok(forms) => Result::Ok(sp_rewrite(forms)),
        Result::Err(e) => Result::Err(e),
    }
}

/// Reads the token list into a sequence of top-level forms, quote sugar
/// already expanded, or fails at an unmatched parenthesis.
pub fn read_from_tokens(tokens: Vec<Token>) -> (r: Result<Vec<Sexp>, ParserError>)
    ensures
        match r {
            Result::Ok(v) => sp_read_from_tokens(tokens_view(tokens@)) == Result::<
                Seq<SexpView>,
                ParserErrorView,
            >::Ok(sexps_view(v@)),
            Result::Err(e) => sp_read_from_tokens(tokens_view(tokens@)) == Result::<
                Seq<SexpView>,
                ParserErrorView,
            >::Err(e@),
        },
{
    let raw = match read_raw(&tokens) {
        Result::Ok(v) => v,
        Result::Err(e) => {
            return Result::Err(e);
        },
    };
    Result::Ok(rewrite_quotes(raw))
}

} // verus!
