//! The universal value / AST node of the dialect, and the environment.
//!
//! `Sexp` is polymorphic over three shapes: a leaf `Atom`, an ordered `List`
//! of sub-expressions, and a callable `Func`.  A callable is an explicit
//! tagged variant (`Callable`), so that being a special form is a property of
//! the value, not of its display name.  `Env` is a chained mapping from
//! symbol name to value: each frame owns its local bindings and links to an
//! optional outer frame, giving lexical scoping.
//!
//! Every exec type has a specification-level model (`AtomView`, `SexpView`,
//! `CallableView`, `EnvView`) over `Seq` and plain values; the view functions
//! here relate the two, and all contracts in the crate speak of views.

use vstd::prelude::*;
use vstd::string::StringExecFns;

verus! {

/// The leaf value kind.  `Nil` is the canonical false/empty value, `T` the
/// canonical true value.  Numbers are 64-bit integers.
#[derive(Debug, PartialEq)]
pub enum Atom {
    Nil,
    T,
    Symbol(String),
    Str(String),
    Number(i64),
}

/// The fixed catalog of builtin primitives reachable by name from the
/// global environment.  Each receives its fully-evaluated argument list.
#[derive(Debug, PartialEq, Eq, Structural, Clone, Copy)]
pub enum Builtin {
    Add,
    Sub,
    Mul,
    Div,
    IsAtom,
    IsList,
    IsFunction,
    IsString,
    IsSymbol,
    IsNumber,
    List,
    Car,
    Cdr,
    Append,
    Prepend,
}

/// What a `Func` value does when applied.  `Quote`, `Let` and `Lambda` are
/// the special forms: their arguments are handed over unevaluated.  A
/// `Closure` is a user-defined function capturing the frame chain that was
/// visible where it was defined.
///
/// The capture is an owned copy of the defining chain, in keeping with the
/// dialect's value semantics (no graph sharing): the closure sees exactly
/// what was visible at its definition, and a top-level binding made after
/// the definition -- including a binding of the closure's own name -- is
/// not visible inside its body at call time.
#[derive(Debug, PartialEq)]
pub enum Callable {
    Builtin(Builtin),
    Quote,
    Let,
    Lambda,
    Closure { params: Vec<String>, body: Box<Sexp>, captured: Box<Env> },
}

/// The s-expression: the uniform tree value and AST representation.
#[derive(Debug, PartialEq)]
pub enum Sexp {
    Atom(Atom),
    List(Vec<Sexp>),
    Func { callable: Callable, name: String },
}

/// A lexical frame: a name-to-value mapping plus an optional link to an
/// enclosing frame.  Lookup walks outward until found or the chain is
/// exhausted; insertion always writes into the current frame.
#[derive(Debug, PartialEq)]
pub struct Env {
    data: Vec<(String, Sexp)>,
    outer: Option<Box<Env>>,
}

/// Model of an `Atom`: symbol and string text as character sequences.
#[verifier::ext_equal]
pub enum AtomView {
    Nil,
    T,
    Symbol(Seq<char>),
    Str(Seq<char>),
    Number(i64),
}

/// Model of a `Callable`.
#[verifier::ext_equal]
pub enum CallableView {
    Builtin(Builtin),
    Quote,
    Let,
    Lambda,
    Closure { params: Seq<Seq<char>>, body: Box<SexpView>, captured: EnvView },
}

/// Model of a `Sexp`.
#[verifier::ext_equal]
pub enum SexpView {
    Atom(AtomView),
    List(Seq<SexpView>),
    Func { callable: CallableView, name: Seq<char> },
}

/// Model of one frame's bindings, in insertion order (a later entry for the
/// same name shadows an earlier one).
pub type FrameView = Seq<(Seq<char>, SexpView)>;

/// Model of an environment: the frame chain from the innermost frame
/// outward.  The global frame is the last element.
pub type EnvView = Seq<FrameView>;

pub open spec fn atom_view(a: Atom) -> AtomView {
    match a {
        Atom::Nil => AtomView::Nil,
        Atom::T => AtomView::T,
        Atom::Symbol(s) => AtomView::Symbol(s@),
        Atom::Str(s) => AtomView::Str(s@),
        Atom::Number(n) => AtomView::Number(n),
    }
}

pub open spec fn sexp_view(s: Sexp) -> SexpView
    decreases s,
{
    match s {
        Sexp::Atom(a) => SexpView::Atom(atom_view(a)),
        Sexp::List(v) => SexpView::List(sexps_view(v@)),
        Sexp::Func { callable, name } => SexpView::Func {
            callable: callable_view(callable),
            name: name@,
        },
    }
}

pub open spec fn sexps_view(s: Seq<Sexp>) -> Seq<SexpView>
    decreases s,
{
    if s.len() == 0 {
        Seq::empty()
    } else {
        sexps_view(s.drop_last()).push(sexp_view(s.last()))
    }
}

pub open spec fn callable_view(c: Callable) -> CallableView
    decreases c,
{
    match c {
        Callable::Builtin(b) => CallableView::Builtin(b),
        Callable::Quote => CallableView::Quote,
        Callable::Let => CallableView::Let,
        Callable::Lambda => CallableView::Lambda,
        Callable::Closure { params, body, captured } => CallableView::Closure {
            params: names_view(params@),
            body: Box::new(sexp_view(*body)),
            captured: env_view(*captured),
        },
    }
}

pub open spec fn names_view(s: Seq<String>) -> Seq<Seq<char>> {
    s.map_values(|n: String| n@)
}

pub open spec fn frame_view(s: Seq<(String, Sexp)>) -> FrameView
    decreases s,
{
    if s.len() == 0 {
        Seq::empty()
    } else {
        frame_view(s.drop_last()).push((s.last().0@, sexp_view(s.last().1)))
    }
}

pub closed spec fn env_view(e: Env) -> EnvView
    decreases e,
{
    match e.outer {
        Option::None => seq![frame_view(e.data@)],
        Option::Some(o) => seq![frame_view(e.data@)] + env_view(*o),
    }
}

impl View for Sexp {
    type V = SexpView;

    open spec fn view(&self) -> SexpView {
        sexp_view(*self)
    }
}

impl View for Env {
    type V = EnvView;

    open spec fn view(&self) -> EnvView {
        env_view(*self)
    }
}

/// The elements of `sexps_view(s)` are the views of the elements of `s`.
pub broadcast proof fn lemma_sexps_view(s: Seq<Sexp>)
    ensures
        #[trigger] sexps_view(s).len() == s.len(),
        forall|i: int| 0 <= i < s.len() ==> sexps_view(s)[i] == sexp_view(s[i]),
    decreases s.len(),
{
    if s.len() > 0 {
        lemma_sexps_view(s.drop_last());
    }
}

/// The entries of `frame_view(s)` are the views of the entries of `s`.
pub broadcast proof fn lemma_frame_view(s: Seq<(String, Sexp)>)
    ensures
        #[trigger] frame_view(s).len() == s.len(),
        forall|i: int| 0 <= i < s.len() ==> frame_view(s)[i] == (s[i].0@, sexp_view(s[i].1)),
    decreases s.len(),
{
    if s.len() > 0 {
        lemma_frame_view(s.drop_last());
    }
}

pub open spec fn opt_sexp_view(o: Option<Sexp>) -> Option<SexpView> {
    match o {
        Option::Some(v) => Option::Some(sexp_view(v)),
        Option::None => Option::None,
    }
}

/// Name lookup in one frame: the entry inserted last wins.
pub open spec fn sp_frame_get(f: FrameView, name: Seq<char>) -> Option<SexpView>
    decreases f.len(),
{
    if f.len() == 0 {
        Option::None
    } else if f.last().0 == name {
        Option::Some(f.last().1)
    } else {
        sp_frame_get(f.drop_last(), name)
    }
}

/// Name lookup along the frame chain, innermost frame first.
pub open spec fn sp_env_get(env: EnvView, name: Seq<char>) -> Option<SexpView>
    decreases env.len(),
{
    if env.len() == 0 {
        Option::None
    } else {
        match sp_frame_get(env[0], name) {
            Option::Some(v) => Option::Some(v),
            Option::None => sp_env_get(env.drop_first(), name),
        }
    }
}

/// The fine-grained name of a value's shape, as used in type errors.
pub open spec fn sp_typename(s: SexpView) -> Seq<char> {
    match s {
        SexpView::Atom(AtomView::Nil) => "nil"@,
        SexpView::Atom(AtomView::T) => "t"@,
        SexpView::Atom(AtomView::Symbol(_)) => "symbol"@,
        SexpView::Atom(AtomView::Str(_)) => "string"@,
        SexpView::Atom(AtomView::Number(_)) => "number"@,
        SexpView::List(_) => "list"@,
        SexpView::Func { .. } => "function"@,
    }
}

/// The coarse name of a value's shape, as used in argument-kind errors.
pub open spec fn sp_kind_name(s: SexpView) -> Seq<char> {
    match s {
        SexpView::Atom(_) => "atom"@,
        SexpView::List(_) => "list"@,
        SexpView::Func { .. } => "function"@,
    }
}

impl Atom {
    pub fn duplicate(&self) -> (r: Atom)
        ensures
            atom_view(r) == atom_view(*self),
    {
        match self {
            Atom::Nil => Atom::Nil,
            Atom::T => Atom::T,
            Atom::Symbol(s) => Atom::Symbol(s.clone()),
            Atom::Str(s) => Atom::Str(s.clone()),
            Atom::Number(n) => Atom::Number(*n),
        }
    }
}

impl Sexp {
    /// The fine-grained shape name: `nil`, `t`, `symbol`, `string`,
    /// `number`, `list` or `function`.
    pub fn typename(&self) -> (r: &'static str)
        ensures
            r@ == sp_typename(self@),
    {
        match self {
            Sexp::Atom(Atom::Nil) => "nil",
            Sexp::Atom(Atom::T) => "t",
            Sexp::Atom(Atom::Symbol(_)) => "symbol",
            Sexp::Atom(Atom::Str(_)) => "string",
            Sexp::Atom(Atom::Number(_)) => "number",
            Sexp::List(_) => "list",
            Sexp::Func { .. } => "function",
        }
    }

    /// The coarse shape name: `atom`, `list` or `function`.
    pub fn kind_name(&self) -> (r: &'static str)
        ensures
            r@ == sp_kind_name(self@),
    {
        match self {
            Sexp::Atom(_) => "atom",
            Sexp::List(_) => "list",
            Sexp::Func { .. } => "function",
        }
    }

    /// An independent logical copy: passing a `Sexp` around always yields a
    /// value with the same view.
    pub fn duplicate(&self) -> (r: Sexp)
        ensures
            r@ == self@,
        decreases *self,
    {
        match self {
            Sexp::Atom(a) => Sexp::Atom(a.duplicate()),
            Sexp::List(v) => Sexp::List(dup_sexps(v)),
            Sexp::Func { callable, name } => Sexp::Func {
                callable: callable.duplicate(),
                name: name.clone(),
            },
        }
    }
}

fn dup_sexps(v: &Vec<Sexp>) -> (r: Vec<Sexp>)
    ensures
        sexps_view(r@) == sexps_view(v@),
    decreases *v,
{
    let mut out: Vec<Sexp> = Vec::new();
    let n = v.len();
    let mut i: usize = 0;
    while i < n
        invariant
            n == v.len(),
            i <= n,
            out@.len() == i,
            forall|j: int| 0 <= j < i ==> sexp_view(out@[j]) == sexp_view(v@[j]),
        decreases n - i,
    {
        out.push(v[i].duplicate());
        i += 1;
    }
    proof {
        lemma_sexps_view(out@);
        lemma_sexps_view(v@);
        assert(sexps_view(out@) =~= sexps_view(v@));
    }
    out
}

fn dup_names(v: &Vec<String>) -> (r: Vec<String>)
    ensures
        names_view(r@) == names_view(v@),
{
    let mut out: Vec<String> = Vec::new();
    let n = v.len();
    let mut i: usize = 0;
    while i < n
        invariant
            n == v.len(),
            i <= n,
            out@.len() == i,
            forall|j: int| 0 <= j < i ==> out@[j]@ == v@[j]@,
        decreases n - i,
    {
        out.push(v[i].clone());
        i += 1;
    }
    proof {
        assert(names_view(out@) =~= names_view(v@));
    }
    out
}

impl Callable {
    pub fn duplicate(&self) -> (r: Callable)
        ensures
            callable_view(r) == callable_view(*self),
        decreases *self,
    {
        match self {
            Callable::Builtin(b) => Callable::Builtin(*b),
            Callable::Quote => Callable::Quote,
            Callable::Let => Callable::Let,
            Callable::Lambda => Callable::Lambda,
            Callable::Closure { params, body, captured } => Callable::Closure {
                params: dup_names(params),
                body: Box::new(body.duplicate()),
                captured: Box::new(captured.duplicate()),
            },
        }
    }
}

fn dup_frame(v: &Vec<(String, Sexp)>) -> (r: Vec<(String, Sexp)>)
    ensures
        frame_view(r@) == frame_view(v@),
    decreases *v,
{
    let mut out: Vec<(String, Sexp)> = Vec::new();
    let n = v.len();
    let mut i: usize = 0;
    while i < n
        invariant
            n == v.len(),
            i <= n,
            out@.len() == i,
            forall|j: int| 0 <= j < i ==> out@[j].0@ == v@[j].0@ && sexp_view(out@[j].1)
                == sexp_view(v@[j].1),
        decreases n - i,
    {
        out.push((v[i].0.clone(), v[i].1.duplicate()));
        i += 1;
    }
    proof {
        lemma_frame_view(out@);
        lemma_frame_view(v@);
        assert(frame_view(out@) =~= frame_view(v@));
    }
    out
}

impl Env {
    /// A fresh frame with the given outer chain.
    pub fn new(outer: Option<Box<Env>>) -> (r: Env)
        ensures
            r@ == match outer {
                Option::Some(o) => seq![Seq::<(Seq<char>, SexpView)>::empty()] + (*o)@,
                Option::None => seq![Seq::<(Seq<char>, SexpView)>::empty()],
            },
    {
        let r = Env { data: Vec::new(), outer };
        proof {
            assert(frame_view(r.data@) =~= Seq::<(Seq<char>, SexpView)>::empty());
        }
        r
    }

    /// A child lexical frame whose lookups fall back to `outer`.
    pub fn with_outer(outer: Env) -> (r: Env)
        ensures
            r@ == seq![Seq::<(Seq<char>, SexpView)>::empty()] + outer@,
    {
        Env::new(Option::Some(Box::new(outer)))
    }

    /// Binds `symbol` in the current frame, shadowing any earlier binding
    /// of the same name in this frame and never touching an outer one.
    pub fn insert(&mut self, symbol: String, expr: Sexp)
        ensures
            final(self)@ == old(self)@.update(0, old(self)@[0].push((symbol@, expr@))),
    {
        let ghost oldenv = *self;
        self.data.push((symbol, expr));
        proof {
            assert(self.data@.drop_last() =~= oldenv.data@);
            assert(frame_view(self.data@) == frame_view(oldenv.data@).push(
                (symbol@, sexp_view(expr)),
            ));
            assert(env_view(*self) =~= env_view(oldenv).update(
                0,
                env_view(oldenv)[0].push((symbol@, sexp_view(expr))),
            ));
        }
    }

    /// Looks `symbol` up in this frame, then along the outer chain,
    /// returning a copy of the first match.
    pub fn get(&self, symbol: &String) -> (r: Option<Sexp>)
        ensures
            opt_sexp_view(r) == sp_env_get(self@, symbol@),
        decreases *self,
    {
        let ghost fv = frame_view(self.data@);
        proof {
            lemma_frame_view(self.data@);
            assert(fv.take(self.data@.len() as int) =~= fv);
        }
        let mut i = self.data.len();
        while i > 0
            invariant
                i <= self.data.len(),
                fv == frame_view(self.data@),
                fv.len() == self.data@.len(),
                forall|j: int| 0 <= j < self.data@.len() ==> fv[j] == (
                    self.data@[j].0@,
                    sexp_view(self.data@[j].1),
                ),
                sp_frame_get(fv, symbol@) == sp_frame_get(fv.take(i as int), symbol@),
            decreases i,
        {
            i -= 1;
            if self.data[i].0 == *symbol {
                let found = self.data[i].1.duplicate();
                proof {
                    assert(fv.take(i as int + 1).last() == fv[i as int]);
                    assert(sp_frame_get(fv, symbol@) == Option::Some(fv[i as int].1));
                }
                return Option::Some(found);
            }
            proof {
                assert(fv.take(i as int + 1).drop_last() =~= fv.take(i as int));
                assert(fv.take(i as int + 1).last() == fv[i as int]);
            }
        }
        proof {
            assert(fv.take(0) =~= Seq::<(Seq<char>, SexpView)>::empty());
            assert(sp_frame_get(fv, symbol@) is None);
            assert(self@[0] == fv);
        }
        match &self.outer {
            Option::Some(o) => {
                let r = o.get(symbol);
                proof {
                    assert(self@ == seq![fv] + env_view(*(*o)));
                    assert(self@[0] == fv);
                    assert(self@.drop_first() =~= env_view(*(*o)));
                }
                r
            },
            Option::None => {
                proof {
                    assert(self@ == seq![fv]);
                    assert(self@.drop_first() =~= Seq::<FrameView>::empty());
                    assert(sp_env_get(self@.drop_first(), symbol@) is None);
                }
                Option::None
            },
        }
    }

    /// An independent logical copy of the whole frame chain.
    pub fn duplicate(&self) -> (r: Env)
        ensures
            r@ == self@,
        decreases *self,
    {
        let data = dup_frame(&self.data);
        let outer = match &self.outer {
            Option::Some(o) => Option::Some(Box::new(o.duplicate())),
            Option::None => Option::None,
        };
        Env { data, outer }
    }
}

/// A `Func` value wrapping a builtin, as bound in the global frame.
pub open spec fn builtin_func_view(b: Builtin, name: Seq<char>) -> SexpView {
    SexpView::Func { callable: CallableView::Builtin(b), name: name }
}

/// The bindings of the global frame: the three special forms and the
/// builtin catalog, keyed by their surface names.
pub open spec fn sp_default_frame() -> FrameView {
    seq![
        ("quote"@, SexpView::Func { callable: CallableView::Quote, name: "quote"@ }),
        ("let"@, SexpView::Func { callable: CallableView::Let, name: "let"@ }),
        ("lambda"@, SexpView::Func { callable: CallableView::Lambda, name: "lambda"@ }),
        ("add"@, builtin_func_view(Builtin::Add, "add"@)),
        ("sub"@, builtin_func_view(Builtin::Sub, "sub"@)),
        ("mul"@, builtin_func_view(Builtin::Mul, "mul"@)),
        ("div"@, builtin_func_view(Builtin::Div, "div"@)),
        ("atom?"@, builtin_func_view(Builtin::IsAtom, "atom?"@)),
        ("list?"@, builtin_func_view(Builtin::IsList, "list?"@)),
        ("function?"@, builtin_func_view(Builtin::IsFunction, "function?"@)),
        ("string?"@, builtin_func_view(Builtin::IsString, "string?"@)),
        ("symbol?"@, builtin_func_view(Builtin::IsSymbol, "symbol?"@)),
        ("number?"@, builtin_func_view(Builtin::IsNumber, "number?"@)),
        ("list"@, builtin_func_view(Builtin::List, "list"@)),
        ("car"@, builtin_func_view(Builtin::Car, "car"@)),
        ("cdr"@, builtin_func_view(Builtin::Cdr, "cdr"@)),
        ("append"@, builtin_func_view(Builtin::Append, "append"@)),
        ("prepend"@, builtin_func_view(Builtin::Prepend, "prepend"@)),
    ]
}

/// The global environment: a single frame holding the builtin catalog.
pub open spec fn sp_default_env() -> EnvView {
    seq![sp_default_frame()]
}

/// Appends one callable binding to a frame under construction.
fn bind_callable(data: &mut Vec<(String, Sexp)>, name: &str, c: Callable)
    ensures
        frame_view(final(data)@) == frame_view(old(data)@).push(
            (name@, SexpView::Func { callable: callable_view(c), name: name@ }),
        ),
{
    let key = String::from_str(name);
    let fname = String::from_str(name);
    data.push((key, Sexp::Func { callable: c, name: fname }));
    proof {
        assert(data@.drop_last() =~= old(data)@);
        assert(data@.last().0@ == name@);
        assert(sexp_view(data@.last().1) == (SexpView::Func {
            callable: callable_view(c),
            name: name@,
        }));
        assert(frame_view(data@) == frame_view(old(data)@).push(
            (name@, SexpView::Func { callable: callable_view(c), name: name@ }),
        ));
    }
}

impl Default for Env {
    /// The global frame, pre-populated with the builtin catalog and with no
    /// outer frame.
    fn default() -> (r: Env)
        ensures
            r@ == sp_default_env(),
    {
        let mut data: Vec<(String, Sexp)> = Vec::new();
        proof {
            assert(frame_view(data@) =~= Seq::<(Seq<char>, SexpView)>::empty());
        }
        bind_callable(&mut data, "quote", Callable::Quote);
        bind_callable(&mut data, "let", Callable::Let);
        bind_callable(&mut data, "lambda", Callable::Lambda);
        bind_callable(&mut data, "add", Callable::Builtin(Builtin::Add));
        bind_callable(&mut data, "sub", Callable::Builtin(Builtin::Sub));
        bind_callable(&mut data, "mul", Callable::Builtin(Builtin::Mul));
        bind_callable(&mut data, "div", Callable::Builtin(Builtin::Div));
        bind_callable(&mut data, "atom?", Callable::Builtin(Builtin::IsAtom));
        bind_callable(&mut data, "list?", Callable::Builtin(Builtin::IsList));
        bind_callable(&mut data, "function?", Callable::Builtin(Builtin::IsFunction));
        bind_callable(&mut data, "string?", Callable::Builtin(Builtin::IsString));
        bind_callable(&mut data, "symbol?", Callable::Builtin(Builtin::IsSymbol));
        bind_callable(&mut data, "number?", Callable::Builtin(Builtin::IsNumber));
        bind_callable(&mut data, "list", Callable::Builtin(Builtin::List));
        bind_callable(&mut data, "car", Callable::Builtin(Builtin::Car));
        bind_callable(&mut data, "cdr", Callable::Builtin(Builtin::Cdr));
        bind_callable(&mut data, "append", Callable::Builtin(Builtin::Append));
        bind_callable(&mut data, "prepend", Callable::Builtin(Builtin::Prepend));
        let r = Env { data, outer: Option::None };
        proof {
            assert(frame_view(r.data@) =~= sp_default_frame());
            assert(r@ =~= sp_default_env());
        }
        r
    }
}

} // verus!
