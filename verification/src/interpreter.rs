//! The evaluator: typed values, a lexically scoped environment, and
//! the statement and expression semantics, including the units-as-
//! values arithmetic resolved against the canvas dimensions.
//!
//! The semantics is stated by spec functions over a mathematical view
//! of values and environments; every executable evaluation function is
//! proved to return exactly what the spec semantics says.

use vstd::prelude::*;
use std::rc::Rc;
use crate::ast::{BinOpKind, Block, FnDef, Idents, Num, Stmt, Term, Unit};

verus! {

/// The width of the canvas in pixels.
pub const CANVAS_WIDTH: i64 = 1920;

/// The height of the canvas in pixels.
pub const CANVAS_HEIGHT: i64 = 1080;

/// The default `font_size` binding: one tenth of the canvas height.
pub const DEFAULT_FONT_SIZE: i64 = 108;

/// A runtime value.
///
/// Scalars (`Num`) and absolute canvas lengths (`Len`) are distinct
/// kinds and never implicitly interchangeable. A `Scope` exposes an
/// environment as a first-class value; a `Func` carries its definition
/// together with the environment captured at its definition site.
#[derive(Debug)]
pub enum Val {
    Num(i64),
    Len(i64),
    Str(String),
    Col(i64, i64, i64),
    NumCoord(i64, i64),
    LenCoord(i64, i64),
    Scope(Rc<Env>),
    Func(Rc<FnDef>, Rc<Env>),
}

/// The mathematical view of a runtime value: integers for scalars,
/// character sequences for strings, and maps for environments.
pub enum SpecVal {
    Num(int),
    Len(int),
    Str(Seq<char>),
    Col(int, int, int),
    NumCoord(int, int),
    LenCoord(int, int),
    Scope(Map<Seq<char>, SpecVal>),
    Func(FnDef, Map<Seq<char>, SpecVal>),
}

/// A scoped binding store: identifiers mapped to values, where a later
/// binding of the same identifier shadows an earlier one.
#[derive(Debug)]
pub struct Env {
    bindings: Vec<(String, Val)>,
}

/// The view of a value.
pub closed spec fn val_view(v: Val) -> SpecVal
    decreases v,
{
    match v {
        Val::Num(x) => SpecVal::Num(x as int),
        Val::Len(x) => SpecVal::Len(x as int),
        Val::Str(s) => SpecVal::Str(s@),
        Val::Col(r, g, b) => SpecVal::Col(r as int, g as int, b as int),
        Val::NumCoord(x, y) => SpecVal::NumCoord(x as int, y as int),
        Val::LenCoord(x, y) => SpecVal::LenCoord(x as int, y as int),
        Val::Scope(e) => SpecVal::Scope(map_of(e.bindings@)),
        Val::Func(d, e) => SpecVal::Func(*d, map_of(e.bindings@)),
    }
}

/// The map a binding list denotes: a later entry wins over an earlier
/// one of the same identifier.
pub closed spec fn map_of(s: Seq<(String, Val)>) -> Map<Seq<char>, SpecVal>
    decreases s,
{
    if s.len() == 0 {
        Map::empty()
    } else {
        map_of(s.subrange(0, s.len() - 1)).insert(s[s.len() - 1].0@, val_view(s[s.len() - 1].1))
    }
}

impl View for Val {
    type V = SpecVal;

    open spec fn view(&self) -> SpecVal {
        val_view(*self)
    }
}

impl View for Env {
    type V = Map<Seq<char>, SpecVal>;

    closed spec fn view(&self) -> Map<Seq<char>, SpecVal> {
        map_of(self.bindings@)
    }
}

/// An evaluation error, generic in how it spells an identifier so
/// that the same shape serves the executable error and its view.
#[derive(Debug, PartialEq, Eq)]
pub enum EvalErrorG<S> {
    /// An identifier with no binding in the consulted environment.
    Undefined(S),
    /// A binding that was expected to be a scalar number.
    NotANum(S),
    /// A binding that was expected to be a length.
    NotALen(S),
    /// A path segment that was chained through a non-scope value.
    NotAScope(S),
    /// A coordinate whose two components are of different kinds.
    CoordKindMismatch,
    /// A binary operator applied to operands it is not defined on.
    OperandMismatch,
    /// A call of a value that is not a function.
    NotAFunc,
    /// A call with a number of arguments other than the parameters.
    ArityMismatch,
    /// `return` outside of a block expression.
    ReturnOutsideBlock,
    /// An arithmetic result that does not fit the scalar type.
    Overflow,
    /// Evaluation nested deeper than the given fuel allows.
    RecursionLimit,
    /// An `import` statement, which only the surrounding driver can
    /// resolve.
    ImportUnsupported(S),
    /// A `put ... at ...` statement, an open extension point.
    PutAtUnsupported,
}

/// The executable evaluation error, carrying identifiers as strings.
pub type EvalError = EvalErrorG<String>;

impl View for EvalErrorG<String> {
    type V = EvalErrorG<Seq<char>>;

    open spec fn view(&self) -> EvalErrorG<Seq<char>> {
        match self {
            EvalErrorG::Undefined(s) => EvalErrorG::Undefined(s@),
            EvalErrorG::NotANum(s) => EvalErrorG::NotANum(s@),
            EvalErrorG::NotALen(s) => EvalErrorG::NotALen(s@),
            EvalErrorG::NotAScope(s) => EvalErrorG::NotAScope(s@),
            EvalErrorG::CoordKindMismatch => EvalErrorG::CoordKindMismatch,
            EvalErrorG::OperandMismatch => EvalErrorG::OperandMismatch,
            EvalErrorG::NotAFunc => EvalErrorG::NotAFunc,
            EvalErrorG::ArityMismatch => EvalErrorG::ArityMismatch,
            EvalErrorG::ReturnOutsideBlock => EvalErrorG::ReturnOutsideBlock,
            EvalErrorG::Overflow => EvalErrorG::Overflow,
            EvalErrorG::RecursionLimit => EvalErrorG::RecursionLimit,
            EvalErrorG::ImportUnsupported(s) => EvalErrorG::ImportUnsupported(s@),
            EvalErrorG::PutAtUnsupported => EvalErrorG::PutAtUnsupported,
        }
    }
}

/// The view of an evaluation result.
pub open spec fn res_view(r: Result<Val, EvalError>) -> Result<SpecVal, EvalErrorG<Seq<char>>> {
    match r {
        Ok(v) => Ok(v@),
        Err(e) => Err(e@),
    }
}

/// A value is a color exactly when its view is, with the same
/// channels.
pub proof fn lemma_col_view(v: Val)
    ensures
        v matches Val::Col(r, g, b) ==> v@ == SpecVal::Col(r as int, g as int, b as int),
        !(v matches Val::Col(r, g, b)) ==> !(v@ is Col),
{
}

/// Relies on `Rc::clone`: the clone is a pointer to the same value.
#[verifier::external_body]
fn rc_clone<T>(rc: &Rc<T>) -> (r: Rc<T>)
    ensures
        r == *rc,
{
    Rc::clone(rc)
}

impl Val {
    /// An exact copy of the value; environments held by scopes and
    /// functions are shared, as they are immutable once captured.
    pub fn dup(&self) -> (r: Val)
        ensures
            r == *self,
    {
        match self {
            Val::Num(x) => Val::Num(*x),
            Val::Len(x) => Val::Len(*x),
            Val::Str(s) => Val::Str(s.clone()),
            Val::Col(r, g, b) => Val::Col(*r, *g, *b),
            Val::NumCoord(x, y) => Val::NumCoord(*x, *y),
            Val::LenCoord(x, y) => Val::LenCoord(*x, *y),
            Val::Scope(e) => Val::Scope(rc_clone(e)),
            Val::Func(d, e) => Val::Func(rc_clone(d), rc_clone(e)),
        }
    }
}

proof fn lemma_map_of_push(s: Seq<(String, Val)>, entry: (String, Val))
    ensures
        map_of(s.push(entry)) == map_of(s).insert(entry.0@, val_view(entry.1)),
{
    let t = s.push(entry);
    assert(t.subrange(0, t.len() - 1) =~= s);
    assert(t[t.len() - 1] == entry);
}

/// Entries at or after position `i` do not bind `k`, so the denoted
/// map agrees with the one of the first `i` entries on `k`.
proof fn lemma_map_of_take(s: Seq<(String, Val)>, i: int, k: Seq<char>)
    requires
        0 <= i <= s.len(),
        forall|j: int| i <= j < s.len() ==> s[j].0@ != k,
    ensures
        map_of(s).contains_key(k) == map_of(s.take(i)).contains_key(k),
        map_of(s.take(i)).contains_key(k) ==> map_of(s)[k] == map_of(s.take(i))[k],
    decreases s.len() - i,
{
    if i == s.len() {
        assert(s.take(i) =~= s);
    } else {
        let s1 = s.subrange(0, s.len() - 1);
        assert(s1.take(i) =~= s.take(i));
        lemma_map_of_take(s1, i, k);
    }
}

impl Env {
    /// The root environment: only `font_size` is bound, to one tenth
    /// of the canvas height.
    pub fn new() -> (e: Env)
        ensures
            e@ == Map::<Seq<char>, SpecVal>::empty().insert(
                "font_size"@,
                SpecVal::Len(DEFAULT_FONT_SIZE as int),
            ),
    {
        let mut bindings: Vec<(String, Val)> = Vec::new();
        bindings.push((String::from_str("font_size"), Val::Len(DEFAULT_FONT_SIZE)));
        proof {
            let s = bindings@;
            assert(s.subrange(0, 0) =~= Seq::<(String, Val)>::empty());
            assert(s.len() == 1);
            assert(s[0].0@ == "font_size"@);
            assert(val_view(s[0].1) == SpecVal::Len(DEFAULT_FONT_SIZE as int));
            assert(map_of(s) == map_of(s.subrange(0, 0)).insert(s[0].0@, val_view(s[0].1)));
        }
        Env { bindings }
    }

    /// The value bound to `name`, if any, as a shared reference.
    fn get<'a>(&'a self, name: &String) -> (r: Option<&'a Val>)
        ensures
            match r {
                Some(v) => self@.contains_key(name@) && v@ == self@[name@],
                None => !self@.contains_key(name@),
            },
    {
        let n = self.bindings.len();
        let mut i: usize = n;
        while i > 0
            invariant
                i <= n,
                n == self.bindings.len(),
                forall|j: int| i <= j < n ==> self.bindings@[j].0@ != name@,
            decreases i,
        {
            if self.bindings[i - 1].0 == *name {
                proof {
                    lemma_map_of_take(self.bindings@, i as int, name@);
                    let t = self.bindings@.take(i as int);
                    assert(t.subrange(0, t.len() - 1) =~= self.bindings@.take(i - 1));
                    assert(t[t.len() - 1] == self.bindings@[i - 1]);
                }
                return Some(&self.bindings[i - 1].1);
            }
            i = i - 1;
        }
        proof {
            lemma_map_of_take(self.bindings@, 0, name@);
            assert(self.bindings@.take(0) =~= Seq::<(String, Val)>::empty());
        }
        None
    }

    /// Binds `ident` to `val`, shadowing any earlier binding.
    pub fn put(&mut self, ident: String, val: Val)
        ensures
            final(self)@ == old(self)@.insert(ident@, val@),
    {
        let ghost s0 = self.bindings@;
        let ghost entry = (ident, val);
        proof {
            lemma_map_of_push(s0, entry);
        }
        self.bindings.push((ident, val));
        proof {
            assert(self.bindings@ =~= s0.push(entry));
        }
    }

    /// An exact copy: writes to the copy never affect the original.
    pub fn duplicate(&self) -> (e: Env)
        ensures
            e@ == self@,
    {
        let n = self.bindings.len();
        let mut bindings: Vec<(String, Val)> = Vec::new();
        let mut i: usize = 0;
        while i < n
            invariant
                i <= n,
                n == self.bindings.len(),
                bindings@.len() == i,
                forall|j: int| 0 <= j < i ==> bindings@[j] == self.bindings@[j],
            decreases n - i,
        {
            let name = self.bindings[i].0.clone();
            let value = self.bindings[i].1.dup();
            bindings.push((name, value));
            i = i + 1;
        }
        proof {
            assert(bindings@ =~= self.bindings@);
        }
        Env { bindings }
    }
}

/// Whether `x` fits the scalar type of the executable evaluator.
pub open spec fn in_i64(x: int) -> bool {
    i64::MIN <= x <= i64::MAX
}

/// The view of a unit result.
pub open spec fn unit_res_view(r: Result<(), EvalError>) -> Result<(), EvalErrorG<Seq<char>>> {
    match r {
        Ok(u) => Ok(u),
        Err(e) => Err(e@),
    }
}

/// A string literal with its enclosing quotes stripped.
pub open spec fn unquoted(s: Seq<char>) -> Seq<char> {
    if s.len() >= 2 {
        s.subrange(1, s.len() - 1)
    } else {
        Seq::empty()
    }
}

/// Resolving an identifier path from segment `i` on: a single segment
/// is a direct binding fetch; further segments chain through nested
/// scope values.
pub open spec fn spec_lookup_path(
    m: Map<Seq<char>, SpecVal>,
    segs: Seq<String>,
    i: int,
) -> Result<SpecVal, EvalErrorG<Seq<char>>>
    decreases segs.len() - i,
{
    if i < 0 || i >= segs.len() {
        Err(EvalErrorG::Undefined(Seq::empty()))
    } else {
        let key = segs[i]@;
        if !m.contains_key(key) {
            Err(EvalErrorG::Undefined(key))
        } else if i == segs.len() - 1 {
            Ok(m[key])
        } else {
            match m[key] {
                SpecVal::Scope(m2) => spec_lookup_path(m2, segs, i + 1),
                _ => Err(EvalErrorG::NotAScope(key)),
            }
        }
    }
}

/// Evaluating a numeric literal: without a unit it is a scalar; with
/// one it is a length, resolved against the canvas dimensions, and for
/// `Em` against the `font_size` binding of the active environment.
pub open spec fn spec_eval_num(m: Map<Seq<char>, SpecVal>, x: i64, unit: Option<Unit>) -> Result<
    SpecVal,
    EvalErrorG<Seq<char>>,
> {
    match unit {
        None => Ok(SpecVal::Num(x as int)),
        Some(Unit::W) => if in_i64(x * CANVAS_WIDTH) {
            Ok(SpecVal::Len(x * CANVAS_WIDTH))
        } else {
            Err(EvalErrorG::Overflow)
        },
        Some(Unit::H) => if in_i64(x * CANVAS_HEIGHT) {
            Ok(SpecVal::Len(x * CANVAS_HEIGHT))
        } else {
            Err(EvalErrorG::Overflow)
        },
        Some(Unit::Pt) => Ok(SpecVal::Len(x as int)),
        Some(Unit::Em) => if !m.contains_key("font_size"@) {
            Err(EvalErrorG::Undefined("font_size"@))
        } else {
            match m["font_size"@] {
                SpecVal::Len(e) => if in_i64(x * e) {
                    Ok(SpecVal::Len(x * e))
                } else {
                    Err(EvalErrorG::Overflow)
                },
                _ => Err(EvalErrorG::NotALen("font_size"@)),
            }
        },
    }
}

/// A coordinate of two components, which must be of one kind.
pub open spec fn spec_make_coord(a: SpecVal, b: SpecVal) -> Result<
    SpecVal,
    EvalErrorG<Seq<char>>,
> {
    match (a, b) {
        (SpecVal::Num(x), SpecVal::Num(y)) => Ok(SpecVal::NumCoord(x, y)),
        (SpecVal::Len(x), SpecVal::Len(y)) => Ok(SpecVal::LenCoord(x, y)),
        _ => Err(EvalErrorG::CoordKindMismatch),
    }
}

/// A binary operator applied to two values: addition and subtraction
/// on two scalars or two lengths, multiplication on two scalars or on
/// a scalar and a length.
pub open spec fn spec_apply_binop(op: BinOpKind, a: SpecVal, b: SpecVal) -> Result<
    SpecVal,
    EvalErrorG<Seq<char>>,
> {
    match op {
        BinOpKind::Add => match (a, b) {
            (SpecVal::Num(x), SpecVal::Num(y)) => if in_i64(x + y) {
                Ok(SpecVal::Num(x + y))
            } else {
                Err(EvalErrorG::Overflow)
            },
            (SpecVal::Len(x), SpecVal::Len(y)) => if in_i64(x + y) {
                Ok(SpecVal::Len(x + y))
            } else {
                Err(EvalErrorG::Overflow)
            },
            _ => Err(EvalErrorG::OperandMismatch),
        },
        BinOpKind::Sub => match (a, b) {
            (SpecVal::Num(x), SpecVal::Num(y)) => if in_i64(x - y) {
                Ok(SpecVal::Num(x - y))
            } else {
                Err(EvalErrorG::Overflow)
            },
            (SpecVal::Len(x), SpecVal::Len(y)) => if in_i64(x - y) {
                Ok(SpecVal::Len(x - y))
            } else {
                Err(EvalErrorG::Overflow)
            },
            _ => Err(EvalErrorG::OperandMismatch),
        },
        BinOpKind::Mul => match (a, b) {
            (SpecVal::Num(x), SpecVal::Num(y)) => if in_i64(x * y) {
                Ok(SpecVal::Num(x * y))
            } else {
                Err(EvalErrorG::Overflow)
            },
            (SpecVal::Num(x), SpecVal::Len(y)) => if in_i64(x * y) {
                Ok(SpecVal::Len(x * y))
            } else {
                Err(EvalErrorG::Overflow)
            },
            (SpecVal::Len(x), SpecVal::Num(y)) => if in_i64(x * y) {
                Ok(SpecVal::Len(x * y))
            } else {
                Err(EvalErrorG::Overflow)
            },
            _ => Err(EvalErrorG::OperandMismatch),
        },
    }
}

/// The parameters bound to the argument values, from position `i` on.
pub open spec fn spec_bind_args(
    m: Map<Seq<char>, SpecVal>,
    params: Seq<String>,
    vals: Seq<SpecVal>,
    i: int,
) -> Map<Seq<char>, SpecVal>
    decreases params.len() - i,
{
    if i < 0 || i >= params.len() {
        m
    } else {
        spec_bind_args(m.insert(params[i]@, vals[i]), params, vals, i + 1)
    }
}

/// Evaluating an expression in environment `m` with the given fuel.
pub open spec fn spec_eval_term(m: Map<Seq<char>, SpecVal>, t: Term, fuel: nat) -> Result<
    SpecVal,
    EvalErrorG<Seq<char>>,
>
    decreases fuel, 0int,
{
    if fuel == 0 {
        Err(EvalErrorG::RecursionLimit)
    } else {
        let f = (fuel - 1) as nat;
        match t {
            Term::Str(s) => Ok(SpecVal::Str(unquoted(s@))),
            Term::Number(n) => spec_eval_num(m, n.0, n.1),
            Term::Color(r, g, b) => Ok(SpecVal::Col(r as int, g as int, b as int)),
            Term::Idents(ids) => spec_lookup_path(m, ids.0@, 0),
            Term::Coord(a, b) => match spec_eval_term(m, *a, f) {
                Err(e) => Err(e),
                Ok(va) => match spec_eval_term(m, *b, f) {
                    Err(e) => Err(e),
                    Ok(vb) => spec_make_coord(va, vb),
                },
            },
            Term::BinOp(op, a, b) => match spec_eval_term(m, *a, f) {
                Err(e) => Err(e),
                Ok(va) => match spec_eval_term(m, *b, f) {
                    Err(e) => Err(e),
                    Ok(vb) => spec_apply_binop(op, va, vb),
                },
            },
            Term::FnCall(c, args) => match spec_eval_term(m, *c, f) {
                Err(e) => Err(e),
                Ok(SpecVal::Func(d, cm)) => match spec_eval_args(m, args@, f) {
                    Err(e) => Err(e),
                    Ok(vs) => if vs.len() != d.params@.len() {
                        Err(EvalErrorG::ArityMismatch)
                    } else {
                        spec_eval_block(spec_bind_args(cm, d.params@, vs, 0), d.body.0@, f)
                    },
                },
                Ok(_) => Err(EvalErrorG::NotAFunc),
            },
            Term::FnDef(d) => Ok(SpecVal::Func(*d, m)),
            Term::Block(b) => spec_eval_block(m, b.0@, f),
        }
    }
}

/// Evaluating a list of argument expressions in order; the first
/// error wins.
pub open spec fn spec_eval_args(m: Map<Seq<char>, SpecVal>, args: Seq<Term>, fuel: nat) -> Result<
    Seq<SpecVal>,
    EvalErrorG<Seq<char>>,
>
    decreases fuel, 1int,
{
    if args.len() == 0 {
        Ok(Seq::empty())
    } else if fuel == 0 {
        Err(EvalErrorG::RecursionLimit)
    } else {
        let f = (fuel - 1) as nat;
        match spec_eval_term(m, args[0], f) {
            Err(e) => Err(e),
            Ok(v) => match spec_eval_args(m, args.subrange(1, args.len() as int), f) {
                Err(e) => Err(e),
                Ok(rest) => Ok(seq![v] + rest),
            },
        }
    }
}

/// Evaluating a block expression: the statements run in order against
/// an isolated copy of the enclosing environment; a `return` yields
/// the returned value, and without one the block yields the copy as a
/// scope value.
pub open spec fn spec_eval_block(m: Map<Seq<char>, SpecVal>, stmts: Seq<Stmt>, fuel: nat) -> Result<
    SpecVal,
    EvalErrorG<Seq<char>>,
>
    decreases fuel, 1int,
{
    if stmts.len() == 0 {
        Ok(SpecVal::Scope(m))
    } else if fuel == 0 {
        Err(EvalErrorG::RecursionLimit)
    } else {
        let f = (fuel - 1) as nat;
        match stmts[0] {
            Stmt::Return(r) => spec_eval_term(m, r, f),
            _ => {
                let sr = spec_eval_stmt(m, stmts[0], f);
                match sr.1 {
                    Err(e) => Err(e),
                    Ok(u) => spec_eval_block(sr.0, stmts.subrange(1, stmts.len() as int), f),
                }
            },
        }
    }
}

/// Evaluating one statement: the new environment, and the outcome.
pub open spec fn spec_eval_stmt(m: Map<Seq<char>, SpecVal>, s: Stmt, fuel: nat) -> (
    Map<Seq<char>, SpecVal>,
    Result<(), EvalErrorG<Seq<char>>>,
)
    decreases fuel, 2int,
{
    if fuel == 0 {
        (m, Err(EvalErrorG::RecursionLimit))
    } else {
        let f = (fuel - 1) as nat;
        match s {
            Stmt::Import(p) => (m, Err(EvalErrorG::ImportUnsupported(p@))),
            Stmt::Assign(name, t) => match spec_eval_term(m, t, f) {
                Ok(v) => (m.insert(name@, v), Ok(())),
                Err(e) => (m, Err(e)),
            },
            Stmt::Return(r) => (m, Err(EvalErrorG::ReturnOutsideBlock)),
            Stmt::Block(b) => spec_eval_stmts(m, b.0@, f),
            Stmt::PutAt(t, p) => (m, Err(EvalErrorG::PutAtUnsupported)),
        }
    }
}

impl Env {
    /// Resolves an identifier path: the first segment is fetched from
    /// this environment, and each further segment from the scope value
    /// the previous one resolved to.
    pub fn lookup(&self, idents: &Idents) -> (r: Result<Val, EvalError>)
        ensures
            res_view(r) == spec_lookup_path(self@, idents.0@, 0),
    {
        let ghost segs = idents.0@;
        let n = idents.0.len();
        let mut cur: &Env = self;
        let mut k: usize = 0;
        while k < n
            invariant
                segs == idents.0@,
                n == segs.len(),
                0 <= k <= n,
                n > 0 ==> k < n,
                spec_lookup_path(self@, segs, 0) == spec_lookup_path(cur@, segs, k as int),
            decreases n - k,
        {
            let seg = &idents.0[k];
            match cur.get(seg) {
                None => {
                    return Err(EvalError::Undefined(seg.clone()));
                },
                Some(v) => {
                    if k == n - 1 {
                        return Ok(v.dup());
                    }
                    match v {
                        Val::Scope(e) => {
                            cur = &**e;
                            k = k + 1;
                        },
                        _ => {
                            return Err(EvalError::NotAScope(seg.clone()));
                        },
                    }
                },
            }
        }
        Err(EvalError::Undefined(String::new()))
    }

    /// Resolves a path that must denote a scalar number.
    pub fn lookup_num(&self, idents: &Idents) -> (r: Result<i64, EvalError>)
        ensures
            match r {
                Ok(x) => spec_lookup_path(self@, idents.0@, 0) == Ok::<_, EvalErrorG<Seq<char>>>(
                    SpecVal::Num(x as int),
                ),
                Err(e) => match spec_lookup_path(self@, idents.0@, 0) {
                    Ok(v) => !(v is Num) && idents.0@.len() > 0 && e@ == EvalErrorG::NotANum(
                        idents.0@.last()@,
                    ),
                    Err(e2) => e@ == e2,
                },
            },
    {
        match self.lookup(idents) {
            Ok(v) => match v {
                Val::Num(x) => Ok(x),
                _ => {
                    proof {
                        lemma_lookup_nonempty(self@, idents.0@);
                    }
                    Err(EvalError::NotANum(idents.0[idents.0.len() - 1].clone()))
                },
            },
            Err(e) => Err(e),
        }
    }

    /// Resolves a path that must denote a length.
    pub fn lookup_len(&self, idents: &Idents) -> (r: Result<i64, EvalError>)
        ensures
            match r {
                Ok(x) => spec_lookup_path(self@, idents.0@, 0) == Ok::<_, EvalErrorG<Seq<char>>>(
                    SpecVal::Len(x as int),
                ),
                Err(e) => match spec_lookup_path(self@, idents.0@, 0) {
                    Ok(v) => !(v is Len) && idents.0@.len() > 0 && e@ == EvalErrorG::NotALen(
                        idents.0@.last()@,
                    ),
                    Err(e2) => e@ == e2,
                },
            },
    {
        match self.lookup(idents) {
            Ok(v) => match v {
                Val::Len(x) => Ok(x),
                _ => {
                    proof {
                        lemma_lookup_nonempty(self@, idents.0@);
                    }
                    Err(EvalError::NotALen(idents.0[idents.0.len() - 1].clone()))
                },
            },
            Err(e) => Err(e),
        }
    }
}

/// A successful path lookup means the path was not empty.
proof fn lemma_lookup_nonempty(m: Map<Seq<char>, SpecVal>, segs: Seq<String>)
    requires
        spec_lookup_path(m, segs, 0) is Ok,
    ensures
        segs.len() > 0,
{
}

/// Evaluating a string literal term: the quotes are stripped; escape
/// decoding is the lexer's task, before the term is built.
fn eval_string(s: &String) -> (v: Val)
    ensures
        v@ == SpecVal::Str(unquoted(s@)),
{
    let st = s.as_str();
    let n = st.unicode_len();
    if n >= 2 {
        Val::Str(String::from_str(st.substring_char(1, n - 1)))
    } else {
        Val::Str(String::new())
    }
}

/// Evaluating a numeric literal against the active environment.
fn eval_num(env: &Env, num: &Num) -> (r: Result<Val, EvalError>)
    ensures
        res_view(r) == spec_eval_num(env@, num.0, num.1),
{
    let Num(x, opt_unit) = *num;
    match opt_unit {
        None => Ok(Val::Num(x)),
        Some(Unit::W) => match x.checked_mul(CANVAS_WIDTH) {
            Some(v) => Ok(Val::Len(v)),
            None => Err(EvalError::Overflow),
        },
        Some(Unit::H) => match x.checked_mul(CANVAS_HEIGHT) {
            Some(v) => Ok(Val::Len(v)),
            None => Err(EvalError::Overflow),
        },
        Some(Unit::Pt) => Ok(Val::Len(x)),
        Some(Unit::Em) => {
            let key = String::from_str("font_size");
            match env.get(&key) {
                None => Err(EvalError::Undefined(key)),
                Some(v) => match v {
                    Val::Len(e) => match x.checked_mul(*e) {
                        Some(l) => Ok(Val::Len(l)),
                        None => Err(EvalError::Overflow),
                    },
                    _ => Err(EvalError::NotALen(key)),
                },
            }
        },
    }
}

/// Builds a coordinate value of two components of one kind.
fn make_coord(a: Val, b: Val) -> (r: Result<Val, EvalError>)
    ensures
        res_view(r) == spec_make_coord(a@, b@),
{
    match (a, b) {
        (Val::Num(x), Val::Num(y)) => Ok(Val::NumCoord(x, y)),
        (Val::Len(x), Val::Len(y)) => Ok(Val::LenCoord(x, y)),
        _ => Err(EvalError::CoordKindMismatch),
    }
}

/// Applies a binary operator to two evaluated operands.
fn apply_binop(op: BinOpKind, a: Val, b: Val) -> (r: Result<Val, EvalError>)
    ensures
        res_view(r) == spec_apply_binop(op, a@, b@),
{
    match op {
        BinOpKind::Add => match (a, b) {
            (Val::Num(x), Val::Num(y)) => match x.checked_add(y) {
                Some(v) => Ok(Val::Num(v)),
                None => Err(EvalError::Overflow),
            },
            (Val::Len(x), Val::Len(y)) => match x.checked_add(y) {
                Some(v) => Ok(Val::Len(v)),
                None => Err(EvalError::Overflow),
            },
            _ => Err(EvalError::OperandMismatch),
        },
        BinOpKind::Sub => match (a, b) {
            (Val::Num(x), Val::Num(y)) => match x.checked_sub(y) {
                Some(v) => Ok(Val::Num(v)),
                None => Err(EvalError::Overflow),
            },
            (Val::Len(x), Val::Len(y)) => match x.checked_sub(y) {
                Some(v) => Ok(Val::Len(v)),
                None => Err(EvalError::Overflow),
            },
            _ => Err(EvalError::OperandMismatch),
        },
        BinOpKind::Mul => match (a, b) {
            (Val::Num(x), Val::Num(y)) => match x.checked_mul(y) {
                Some(v) => Ok(Val::Num(v)),
                None => Err(EvalError::Overflow),
            },
            (Val::Num(x), Val::Len(y)) => match x.checked_mul(y) {
                Some(v) => Ok(Val::Len(v)),
                None => Err(EvalError::Overflow),
            },
            (Val::Len(x), Val::Num(y)) => match x.checked_mul(y) {
                Some(v) => Ok(Val::Len(v)),
                None => Err(EvalError::Overflow),
            },
            _ => Err(EvalError::OperandMismatch),
        },
    }
}

/// Evaluating a statement list against the current environment, as a
/// block statement does: a `return` ends the list, its value
/// discarded.
pub open spec fn spec_eval_stmts(m: Map<Seq<char>, SpecVal>, stmts: Seq<Stmt>, fuel: nat) -> (
    Map<Seq<char>, SpecVal>,
    Result<(), EvalErrorG<Seq<char>>>,
)
    decreases fuel, 3int,
{
    if stmts.len() == 0 {
        (m, Ok(()))
    } else if fuel == 0 {
        (m, Err(EvalErrorG::RecursionLimit))
    } else {
        let f = (fuel - 1) as nat;
        match stmts[0] {
            Stmt::Return(r) => match spec_eval_term(m, r, f) {
                Ok(v) => (m, Ok(())),
                Err(e) => (m, Err(e)),
            },
            _ => {
                let sr = spec_eval_stmt(m, stmts[0], f);
                match sr.1 {
                    Err(e) => (sr.0, Err(e)),
                    Ok(u) => spec_eval_stmts(sr.0, stmts.subrange(1, stmts.len() as int), f),
                }
            },
        }
    }
}

/// The views of a list of values.
pub open spec fn vals_view(s: Seq<Val>) -> Seq<SpecVal> {
    s.map_values(|v: Val| v@)
}

/// Evaluating the argument expressions from position `k` on.
fn eval_args_from(env: &Env, args: &Vec<Term>, k: usize, fuel: u32) -> (r: Result<
    Vec<Val>,
    EvalError,
>)
    requires
        k <= args@.len(),
    ensures
        match r {
            Ok(vs) => spec_eval_args(env@, args@.subrange(k as int, args@.len() as int), fuel as nat)
                == Ok::<_, EvalErrorG<Seq<char>>>(vals_view(vs@)),
            Err(e) => spec_eval_args(env@, args@.subrange(k as int, args@.len() as int), fuel as nat)
                == Err::<Seq<SpecVal>, _>(e@),
        },
    decreases fuel, 1int,
{
    let ghost whole = args@.subrange(k as int, args@.len() as int);
    if k == args.len() {
        let vs: Vec<Val> = Vec::new();
        proof {
            assert(whole =~= Seq::<Term>::empty());
            assert(vals_view(vs@) =~= Seq::<SpecVal>::empty());
        }
        Ok(vs)
    } else if fuel == 0 {
        proof {
            assert(whole[0] == args@[k as int]);
        }
        Err(EvalError::RecursionLimit)
    } else {
        proof {
            assert(whole[0] == args@[k as int]);
            assert(whole.subrange(1, whole.len() as int) =~= args@.subrange(
                k + 1,
                args@.len() as int,
            ));
        }
        match eval_expr(env, &args[k], fuel - 1) {
            Err(e) => Err(e),
            Ok(v) => match eval_args_from(env, args, k + 1, fuel - 1) {
                Err(e) => Err(e),
                Ok(mut rest) => {
                    let ghost rest0 = rest@;
                    rest.insert(0, v);
                    proof {
                        assert(vals_view(rest@) =~= seq![v@] + vals_view(rest0));
                    }
                    Ok(rest)
                },
            },
        }
    }
}

/// Evaluates an expression in the given environment. The fuel bounds
/// the depth of nested evaluation; exhausting it is an error.
#[verifier::rlimit(60)]
pub fn eval_expr(env: &Env, term: &Term, fuel: u32) -> (r: Result<Val, EvalError>)
    ensures
        res_view(r) == spec_eval_term(env@, *term, fuel as nat),
    decreases fuel, 0int,
{
    if fuel == 0 {
        return Err(EvalError::RecursionLimit);
    }
    let f = fuel - 1;
    match term {
        Term::Str(s) => Ok(eval_string(s)),
        Term::Number(n) => eval_num(env, n),
        Term::Color(r, g, b) => Ok(Val::Col(*r, *g, *b)),
        Term::Idents(ids) => env.lookup(ids),
        Term::Coord(a, b) => match eval_expr(env, a, f) {
            Err(e) => Err(e),
            Ok(va) => match eval_expr(env, b, f) {
                Err(e) => Err(e),
                Ok(vb) => make_coord(va, vb),
            },
        },
        Term::BinOp(op, a, b) => match eval_expr(env, a, f) {
            Err(e) => Err(e),
            Ok(va) => match eval_expr(env, b, f) {
                Err(e) => Err(e),
                Ok(vb) => apply_binop(*op, va, vb),
            },
        },
        Term::FnCall(c, args) => match eval_expr(env, c, f) {
            Err(e) => Err(e),
            Ok(vc) => match vc {
                Val::Func(d, cenv) => match eval_args_from(env, args, 0, f) {
                    Err(e) => {
                        proof {
                            assert(args@.subrange(0, args@.len() as int) =~= args@);
                        }
                        Err(e)
                    },
                    Ok(vs) => {
                        proof {
                            assert(args@.subrange(0, args@.len() as int) =~= args@);
                        }
                        let ghost vsv = vals_view(vs@);
                        if vs.len() != d.params.len() {
                            Err(EvalError::ArityMismatch)
                        } else {
                            let mut env2 = cenv.duplicate();
                            let n = vs.len();
                            let mut i: usize = 0;
                            while i < n
                                invariant
                                    i <= n,
                                    n == vs@.len(),
                                    n == d.params@.len(),
                                    vsv == vals_view(vs@),
                                    spec_bind_args(map_of(cenv.bindings@), d.params@, vsv, 0)
                                        == spec_bind_args(env2@, d.params@, vsv, i as int),
                                decreases n - i,
                            {
                                env2.put(d.params[i].clone(), vs[i].dup());
                                i = i + 1;
                            }
                            eval_block(&env2, &d.body, f)
                        }
                    },
                },
                _ => Err(EvalError::NotAFunc),
            },
        },
        Term::FnDef(d) => Ok(Val::Func(rc_clone(d), Rc::new(env.duplicate()))),
        Term::Block(b) => eval_block(env, b, f),
    }
}

/// Evaluates a block expression: the statements run against an
/// isolated copy of `env`, so bindings made inside the block never
/// escape it; a `return` yields the returned value, and without one
/// the block yields its environment as a scope value.
pub fn eval_block(env: &Env, block: &Block, fuel: u32) -> (r: Result<Val, EvalError>)
    ensures
        res_view(r) == spec_eval_block(env@, block.0@, fuel as nat),
    decreases fuel, 0int,
{
    let ghost stmts = block.0@;
    let n = block.0.len();
    let mut inner = env.duplicate();
    let mut cf = fuel;
    let mut k: usize = 0;
    proof {
        assert(stmts.subrange(0, stmts.len() as int) =~= stmts);
    }
    while k < n
        invariant
            stmts == block.0@,
            n == stmts.len(),
            k <= n,
            cf <= fuel,
            spec_eval_block(env@, stmts, fuel as nat) == spec_eval_block(
                inner@,
                stmts.subrange(k as int, n as int),
                cf as nat,
            ),
        decreases n - k,
    {
        let ghost rest = stmts.subrange(k as int, n as int);
        proof {
            assert(rest[0] == stmts[k as int]);
            assert(rest.subrange(1, rest.len() as int) =~= stmts.subrange(k + 1, n as int));
        }
        if cf == 0 {
            return Err(EvalError::RecursionLimit);
        }
        match &block.0[k] {
            Stmt::Return(r) => {
                return eval_expr(&inner, r, cf - 1);
            },
            stmt => {
                match eval_statement(&mut inner, stmt, cf - 1) {
                    Err(e) => {
                        return Err(e);
                    },
                    Ok(u) => {},
                }
            },
        }
        cf = cf - 1;
        k = k + 1;
    }
    Ok(Val::Scope(Rc::new(inner)))
}

/// Evaluates one statement against the current environment: an
/// assignment binds, a block runs for its side effects, and `return`,
/// `import` and placement report their errors.
pub fn eval_statement(env: &mut Env, stmt: &Stmt, fuel: u32) -> (r: Result<(), EvalError>)
    ensures
        final(env)@ == spec_eval_stmt(old(env)@, *stmt, fuel as nat).0,
        unit_res_view(r) == spec_eval_stmt(old(env)@, *stmt, fuel as nat).1,
    decreases fuel, 0int,
{
    if fuel == 0 {
        return Err(EvalError::RecursionLimit);
    }
    let f = fuel - 1;
    match stmt {
        Stmt::Import(p) => Err(EvalError::ImportUnsupported(p.clone())),
        Stmt::Assign(name, t) => eval_assign(env, name, t, f),
        Stmt::Return(r) => Err(EvalError::ReturnOutsideBlock),
        Stmt::Block(b) => eval_stmts(env, &b.0, f),
        Stmt::PutAt(t, p) => Err(EvalError::PutAtUnsupported),
    }
}

/// Evaluates the expression and binds the result to the identifier,
/// overwriting any earlier binding of the same name.
fn eval_assign(env: &mut Env, name: &String, t: &Term, fuel: u32) -> (r: Result<(), EvalError>)
    ensures
        match r {
            Ok(u) => spec_eval_term(old(env)@, *t, fuel as nat) matches Ok(v)
                && final(env)@ == old(env)@.insert(name@, v),
            Err(e) => spec_eval_term(old(env)@, *t, fuel as nat) == Err::<SpecVal, _>(e@)
                && final(env)@ == old(env)@,
        },
    decreases fuel, 1int,
{
    match eval_expr(env, t, fuel) {
        Ok(v) => {
            env.put(name.clone(), v);
            Ok(())
        },
        Err(e) => Err(e),
    }
}

/// Runs a statement list against the current environment, as a block
/// statement does; a `return` ends the list with its value discarded.
fn eval_stmts(env: &mut Env, stmts: &Vec<Stmt>, fuel: u32) -> (r: Result<(), EvalError>)
    ensures
        final(env)@ == spec_eval_stmts(old(env)@, stmts@, fuel as nat).0,
        unit_res_view(r) == spec_eval_stmts(old(env)@, stmts@, fuel as nat).1,
    decreases fuel, 0int,
{
    let ghost ss = stmts@;
    let n = stmts.len();
    let mut cf = fuel;
    let mut k: usize = 0;
    proof {
        assert(ss.subrange(0, ss.len() as int) =~= ss);
    }
    while k < n
        invariant
            ss == stmts@,
            n == ss.len(),
            k <= n,
            cf <= fuel,
            spec_eval_stmts(old(env)@, ss, fuel as nat) == spec_eval_stmts(
                env@,
                ss.subrange(k as int, n as int),
                cf as nat,
            ),
        decreases n - k,
    {
        let ghost rest = ss.subrange(k as int, n as int);
        proof {
            assert(rest[0] == ss[k as int]);
            assert(rest.subrange(1, rest.len() as int) =~= ss.subrange(k + 1, n as int));
        }
        if cf == 0 {
            return Err(EvalError::RecursionLimit);
        }
        match &stmts[k] {
            Stmt::Return(r) => {
                match eval_expr(env, r, cf - 1) {
                    Ok(v) => {
                        return Ok(());
                    },
                    Err(e) => {
                        return Err(e);
                    },
                }
            },
            stmt => {
                match eval_statement(env, stmt, cf - 1) {
                    Err(e) => {
                        return Err(e);
                    },
                    Ok(u) => {},
                }
            },
        }
        cf = cf - 1;
        k = k + 1;
    }
    Ok(())
}

/// The root environment's view: `font_size` bound to one tenth of the
/// canvas height.
pub open spec fn root_env() -> Map<Seq<char>, SpecVal> {
    Map::<Seq<char>, SpecVal>::empty().insert("font_size"@, SpecVal::Len(DEFAULT_FONT_SIZE as int))
}

/// Running a whole document: each top-level statement is evaluated in
/// order against the root environment, each with the full fuel; the
/// first error aborts the run.
pub open spec fn spec_run_document(
    m: Map<Seq<char>, SpecVal>,
    stmts: Seq<Stmt>,
    fuel: nat,
) -> (Map<Seq<char>, SpecVal>, Result<(), EvalErrorG<Seq<char>>>)
    decreases stmts.len(),
{
    if stmts.len() == 0 {
        (m, Ok(()))
    } else {
        let sr = spec_eval_stmt(m, stmts[0], fuel);
        match sr.1 {
            Err(e) => (sr.0, Err(e)),
            Ok(u) => spec_run_document(sr.0, stmts.subrange(1, stmts.len() as int), fuel),
        }
    }
}

/// Evaluates a whole document against a fresh root environment and
/// returns the final environment, or the first evaluation error.
pub fn eval_document(doc: &crate::ast::Document, fuel: u32) -> (r: Result<Env, EvalError>)
    ensures
        match r {
            Ok(e) => spec_run_document(root_env(), doc.0@, fuel as nat) == (
                e@,
                Ok::<(), EvalErrorG<Seq<char>>>(()),
            ),
            Err(err) => spec_run_document(root_env(), doc.0@, fuel as nat).1 == Err::<(), _>(err@),
        },
{
    let ghost ss = doc.0@;
    let n = doc.0.len();
    let mut env = Env::new();
    let mut k: usize = 0;
    proof {
        assert(ss.subrange(0, ss.len() as int) =~= ss);
    }
    while k < n
        invariant
            ss == doc.0@,
            n == ss.len(),
            k <= n,
            spec_run_document(root_env(), ss, fuel as nat) == spec_run_document(
                env@,
                ss.subrange(k as int, n as int),
                fuel as nat,
            ),
        decreases n - k,
    {
        let ghost rest = ss.subrange(k as int, n as int);
        proof {
            assert(rest[0] == ss[k as int]);
            assert(rest.subrange(1, rest.len() as int) =~= ss.subrange(k + 1, n as int));
        }
        match eval_statement(&mut env, &doc.0[k], fuel) {
            Err(e) => {
                return Err(e);
            },
            Ok(u) => {},
        }
        k = k + 1;
    }
    Ok(env)
}

/// Unit resolution law: a width-relative literal evaluates to the
/// scalar times the canvas width, a height-relative one to the scalar
/// times the canvas height, a point literal to the scalar itself, and
/// a font-relative literal in the root environment to the scalar
/// times one tenth of the canvas height. A unitless literal stays a
/// scalar.
pub proof fn lemma_unit_literal_semantics(m: Map<Seq<char>, SpecVal>, x: i64)
    requires
        in_i64(x * CANVAS_WIDTH),
        in_i64(x * CANVAS_HEIGHT),
        in_i64(x * DEFAULT_FONT_SIZE),
    ensures
        spec_eval_num(m, x, None) == Ok::<SpecVal, EvalErrorG<Seq<char>>>(SpecVal::Num(x as int)),
        spec_eval_num(m, x, Some(Unit::W)) == Ok::<SpecVal, EvalErrorG<Seq<char>>>(
            SpecVal::Len(x * CANVAS_WIDTH),
        ),
        spec_eval_num(m, x, Some(Unit::H)) == Ok::<SpecVal, EvalErrorG<Seq<char>>>(
            SpecVal::Len(x * CANVAS_HEIGHT),
        ),
        spec_eval_num(m, x, Some(Unit::Pt)) == Ok::<SpecVal, EvalErrorG<Seq<char>>>(
            SpecVal::Len(x as int),
        ),
        m == root_env() ==> spec_eval_num(m, x, Some(Unit::Em)) == Ok::<
            SpecVal,
            EvalErrorG<Seq<char>>,
        >(SpecVal::Len(x * ((CANVAS_HEIGHT as int) / 10))),
{
}

/// Block isolation law: a block expression that assigns `name` and
/// then returns it yields the assigned value, whatever `name` was
/// bound to outside. The enclosing environment itself cannot change:
/// a block expression is evaluated against a copy (`eval_block` takes
/// the environment by shared reference), and its spec is a function
/// of the environment value.
pub proof fn lemma_block_isolation(
    m: Map<Seq<char>, SpecVal>,
    stmts: Seq<Stmt>,
    name: String,
    t: Term,
    fuel: nat,
)
    requires
        stmts.len() == 2,
        stmts[0] == Stmt::Assign(name, t),
        stmts[1] matches Stmt::Return(rt) && rt matches Term::Idents(ids) && ids.0@.len() == 1
            && ids.0@[0]@ == name@,
        fuel >= 3,
    ensures
        spec_eval_term(m, t, (fuel - 2) as nat) matches Ok(v) ==> spec_eval_block(m, stmts, fuel)
            == Ok::<SpecVal, EvalErrorG<Seq<char>>>(v),
{
    if spec_eval_term(m, t, (fuel - 2) as nat) is Ok {
        let v = spec_eval_term(m, t, (fuel - 2) as nat)->Ok_0;
        let m2 = m.insert(name@, v);
        let rest = stmts.subrange(1, 2);
        assert(rest[0] == stmts[1]);
        assert(rest.subrange(1, 1) =~= Seq::<Stmt>::empty());
        assert(spec_eval_stmt(m, stmts[0], (fuel - 1) as nat) == (
            m2,
            Ok::<(), EvalErrorG<Seq<char>>>(()),
        ));
        assert(m2.contains_key(name@));
        assert(spec_eval_block(m, stmts, fuel) == spec_eval_block(m2, rest, (fuel - 1) as nat));
        match stmts[1] {
            Stmt::Return(rt) => {
                assert(spec_eval_block(m2, rest, (fuel - 1) as nat) == spec_eval_term(
                    m2,
                    rt,
                    (fuel - 2) as nat,
                ));
                match rt {
                    Term::Idents(ids) => {
                        assert(spec_eval_term(m2, rt, (fuel - 2) as nat) == spec_lookup_path(
                            m2,
                            ids.0@,
                            0,
                        ));
                        assert(spec_lookup_path(m2, ids.0@, 0) == Ok::<
                            SpecVal,
                            EvalErrorG<Seq<char>>,
                        >(m2[name@]));
                        assert(m2[name@] == v);
                    },
                    _ => {},
                }
            },
            _ => {},
        }
    }
}

/// Error naming law: evaluating a reference to an identifier with no
/// binding fails with an error that names exactly that identifier.
pub proof fn lemma_undefined_identifier(m: Map<Seq<char>, SpecVal>, ids: Idents, fuel: nat)
    requires
        fuel >= 1,
        ids.0@.len() >= 1,
        !m.contains_key(ids.0@[0]@),
    ensures
        spec_eval_term(m, Term::Idents(ids), fuel) == Err::<SpecVal, EvalErrorG<Seq<char>>>(
            EvalErrorG::Undefined(ids.0@[0]@),
        ),
{
}

} // verus!
