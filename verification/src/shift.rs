//! Shifting the indices of free variables, and substituting a term for a variable.
//!
//! Both walk a term and treat `Lam`, `Pi` and `Let` as binders: below a binder
//! of the name they look for, the index they look for is one higher.

use crate::syntax::{Expr, Label, Term, V};
use vstd::prelude::*;

verus! {

/// Whether an index can be held by an executable variable.
pub open spec fn index_in_range(n: int) -> bool {
    0 <= n <= usize::MAX
}

/// The index to look for below a binder named `y`, when `V(x, m)` is looked for above it.
pub open spec fn below(x: Seq<char>, m: int, y: Seq<char>) -> int {
    if x == y {
        m + 1
    } else {
        m
    }
}

/// The index that shifting by `delta` over `V(x, m)` gives to the variable `V(y, n)`.
pub open spec fn shift_index(delta: int, x: Seq<char>, m: int, y: Seq<char>, n: int) -> int {
    if y == x && n >= m {
        n + delta
    } else {
        n
    }
}

/// The term `t` with `delta` added to the index of every free variable named `x`
/// whose index is at least `m`.
pub open spec fn shift_term(delta: int, x: Seq<char>, m: int, t: Term) -> Term
    decreases t,
{
    match t {
        Term::Const(_) => t,
        Term::Var(y, n) => Term::Var(y, shift_index(delta, x, m, y, n)),
        Term::Lam(y, a, b) => Term::Lam(
            y,
            Box::new(shift_term(delta, x, m, *a)),
            Box::new(shift_term(delta, x, below(x, m, y), *b)),
        ),
        Term::Pi(y, a, b) => Term::Pi(
            y,
            Box::new(shift_term(delta, x, m, *a)),
            Box::new(shift_term(delta, x, below(x, m, y), *b)),
        ),
        Term::App(f, args) => Term::App(
            Box::new(shift_term(delta, x, m, *f)),
            shift_terms(delta, x, m, args),
        ),
        Term::Let(y, ty, r, b) => Term::Let(
            y,
            match ty {
                Some(u) => Some(Box::new(shift_term(delta, x, m, *u))),
                None => None,
            },
            Box::new(shift_term(delta, x, m, *r)),
            Box::new(shift_term(delta, x, below(x, m, y), *b)),
        ),
        Term::Annot(e, u) => Term::Annot(
            Box::new(shift_term(delta, x, m, *e)),
            Box::new(shift_term(delta, x, m, *u)),
        ),
        Term::BoolIf(c, u, e) => Term::BoolIf(
            Box::new(shift_term(delta, x, m, *c)),
            Box::new(shift_term(delta, x, m, *u)),
            Box::new(shift_term(delta, x, m, *e)),
        ),
        Term::EmptyListLit(u) => Term::EmptyListLit(Box::new(shift_term(delta, x, m, *u))),
        Term::NEListLit(first, rest) => Term::NEListLit(
            Box::new(shift_term(delta, x, m, *first)),
            shift_terms(delta, x, m, rest),
        ),
        Term::EmptyOptionalLit(u) => Term::EmptyOptionalLit(Box::new(shift_term(delta, x, m, *u))),
        Term::NEOptionalLit(e) => Term::NEOptionalLit(Box::new(shift_term(delta, x, m, *e))),
        Term::RecordType(kts) => Term::RecordType(shift_fields(delta, x, m, kts)),
        Term::RecordLit(kvs) => Term::RecordLit(shift_fields(delta, x, m, kvs)),
        Term::UnionType(kts) => Term::UnionType(shift_alternatives(delta, x, m, kts)),
        Term::Field(r, l) => Term::Field(Box::new(shift_term(delta, x, m, *r)), l),
        Term::Builtin(_) => t,
        Term::BoolLit(_) => t,
        Term::NaturalLit(_) => t,
        Term::IntegerLit(_) => t,
        Term::DoubleLit(_) => t,
        Term::TextLit(_) => t,
        Term::BinOp(o, l, r) => Term::BinOp(
            o,
            Box::new(shift_term(delta, x, m, *l)),
            Box::new(shift_term(delta, x, m, *r)),
        ),
    }
}

/// [`shift_term`] on each term of a list.
pub open spec fn shift_terms(delta: int, x: Seq<char>, m: int, s: Seq<Term>) -> Seq<Term>
    decreases s,
{
    Seq::new(
        s.len(),
        |i: int|
            if 0 <= i < s.len() {
                shift_term(delta, x, m, s[i])
            } else {
                arbitrary()
            },
    )
}

/// [`shift_term`] on the term of each entry of a record.
pub open spec fn shift_fields(delta: int, x: Seq<char>, m: int, s: Seq<(Seq<char>, Term)>) -> Seq<
    (Seq<char>, Term),
>
    decreases s,
{
    Seq::new(
        s.len(),
        |i: int|
            if 0 <= i < s.len() {
                (s[i].0, shift_term(delta, x, m, s[i].1))
            } else {
                arbitrary()
            },
    )
}

/// [`shift_term`] on the payload of each alternative of a union.
pub open spec fn shift_alternatives(
    delta: int,
    x: Seq<char>,
    m: int,
    s: Seq<(Seq<char>, Option<Term>)>,
) -> Seq<(Seq<char>, Option<Term>)>
    decreases s,
{
    Seq::new(
        s.len(),
        |i: int|
            if 0 <= i < s.len() {
                (
                    s[i].0,
                    match s[i].1 {
                        Some(u) => Some(shift_term(delta, x, m, u)),
                        None => None,
                    },
                )
            } else {
                arbitrary()
            },
    )
}

/// Whether every index that [`shift_term`] computes on the way through `t`,
/// for a variable or for a binder it passes, can be held by an executable
/// variable: none is negative, none exceeds `usize::MAX`.
pub open spec fn shift_fits(delta: int, x: Seq<char>, m: int, t: Term) -> bool
    decreases t,
{
    match t {
        Term::Const(_) => true,
        Term::Var(y, n) => index_in_range(shift_index(delta, x, m, y, n)),
        Term::Lam(y, a, b) => shift_fits(delta, x, m, *a) && index_in_range(below(x, m, y))
            && shift_fits(delta, x, below(x, m, y), *b),
        Term::Pi(y, a, b) => shift_fits(delta, x, m, *a) && index_in_range(below(x, m, y))
            && shift_fits(delta, x, below(x, m, y), *b),
        Term::App(f, args) => shift_fits(delta, x, m, *f) && forall|i: int|
            0 <= i < args.len() ==> shift_fits(delta, x, m, #[trigger] args[i]),
        Term::Let(y, ty, r, b) => (match ty {
            Some(u) => shift_fits(delta, x, m, *u),
            None => true,
        }) && shift_fits(delta, x, m, *r) && index_in_range(below(x, m, y)) && shift_fits(
            delta,
            x,
            below(x, m, y),
            *b,
        ),
        Term::Annot(e, u) => shift_fits(delta, x, m, *e) && shift_fits(delta, x, m, *u),
        Term::BoolIf(c, u, e) => shift_fits(delta, x, m, *c) && shift_fits(delta, x, m, *u)
            && shift_fits(delta, x, m, *e),
        Term::EmptyListLit(u) => shift_fits(delta, x, m, *u),
        Term::NEListLit(first, rest) => shift_fits(delta, x, m, *first) && forall|i: int|
            0 <= i < rest.len() ==> shift_fits(delta, x, m, #[trigger] rest[i]),
        Term::EmptyOptionalLit(u) => shift_fits(delta, x, m, *u),
        Term::NEOptionalLit(e) => shift_fits(delta, x, m, *e),
        Term::RecordType(kts) => forall|i: int|
            0 <= i < kts.len() ==> shift_fits(delta, x, m, (#[trigger] kts[i]).1),
        Term::RecordLit(kvs) => forall|i: int|
            0 <= i < kvs.len() ==> shift_fits(delta, x, m, (#[trigger] kvs[i]).1),
        Term::UnionType(kts) => forall|i: int|
            0 <= i < kts.len() ==> match (#[trigger] kts[i]).1 {
                Some(u) => shift_fits(delta, x, m, u),
                None => true,
            },
        Term::Field(r, _) => shift_fits(delta, x, m, *r),
        Term::Builtin(_) => true,
        Term::BoolLit(_) => true,
        Term::NaturalLit(_) => true,
        Term::IntegerLit(_) => true,
        Term::DoubleLit(_) => true,
        Term::TextLit(_) => true,
        Term::BinOp(_, l, r) => shift_fits(delta, x, m, *l) && shift_fits(delta, x, m, *r),
    }
}

/// `n + delta`, where that is an index.
pub fn offset_index(n: usize, delta: isize) -> (res: Option<usize>)
    ensures
        res is Some <==> index_in_range(n + delta),
        res matches Some(k) ==> k == n + delta,
{
    if delta >= 0 {
        let d: usize = delta as usize;
        if n <= usize::MAX - d {
            Some(n + d)
        } else {
            None
        }
    } else {
        let d: usize = (-(delta + 1)) as usize;
        if n > d {
            Some(n - d - 1)
        } else {
            None
        }
    }
}

impl V {
    /// The variable to look for below a binder named `y` in place of this one.
    /// `None` where its index would exceed `usize::MAX`.
    pub fn below(&self, y: &Label) -> (res: Option<V>)
        ensures
            res is Some <==> index_in_range(below(self.0@, self.1 as int, y@)),
            res matches Some(v) ==> v@ == (self.0@, below(self.0@, self.1 as int, y@)),
    {
        if self.0.same(y) {
            if self.1 < usize::MAX {
                Some(V(self.0.clone(), self.1 + 1))
            } else {
                None
            }
        } else {
            Some(self.clone())
        }
    }
}

/// Shifts each expression of a list; `None` as soon as one does not fit.
pub fn shift_list(delta: isize, var: &V, list: &Vec<Expr>) -> (res: Option<Vec<Expr>>)
    ensures
        res is Some <==> (forall|i: int|
            0 <= i < list@.len() ==> shift_fits(
                delta as int,
                var.0@,
                var.1 as int,
                #[trigger] Expr::terms(list@)[i],
            )),
        res matches Some(r) ==> Expr::terms(r@) == shift_terms(
            delta as int,
            var.0@,
            var.1 as int,
            Expr::terms(list@),
        ),
    decreases list,
{
    let mut out: Vec<Expr> = Vec::new();
    let mut i: usize = 0;
    while i < list.len()
        invariant
            i <= list.len(),
            out@.len() == i,
            forall|j: int|
                0 <= j < i ==> shift_fits(
                    delta as int,
                    var.0@,
                    var.1 as int,
                    #[trigger] Expr::terms(list@)[j],
                ),
            forall|j: int|
                0 <= j < i ==> (#[trigger] out@[j])@ == shift_term(
                    delta as int,
                    var.0@,
                    var.1 as int,
                    list@[j]@,
                ),
        decreases list.len() - i,
    {
        assert(Expr::terms(list@)[i as int] == list@[i as int]@);
        match shift(delta, var, &list[i]) {
            Some(e) => out.push(e),
            None => {
                return None;
            },
        }
        i += 1;
    }
    assert(Expr::terms(out@) =~= shift_terms(
        delta as int,
        var.0@,
        var.1 as int,
        Expr::terms(list@),
    ));
    Some(out)
}

/// Shifts the expression of each entry of a record; `None` as soon as one does not fit.
pub fn shift_record(delta: isize, var: &V, list: &Vec<(Label, Expr)>) -> (res: Option<
    Vec<(Label, Expr)>,
>)
    ensures
        res is Some <==> (forall|i: int|
            0 <= i < list@.len() ==> shift_fits(
                delta as int,
                var.0@,
                var.1 as int,
                (#[trigger] Expr::fields(list@)[i]).1,
            )),
        res matches Some(r) ==> Expr::fields(r@) == shift_fields(
            delta as int,
            var.0@,
            var.1 as int,
            Expr::fields(list@),
        ),
    decreases list,
{
    let mut out: Vec<(Label, Expr)> = Vec::new();
    let mut i: usize = 0;
    while i < list.len()
        invariant
            i <= list.len(),
            out@.len() == i,
            forall|j: int|
                0 <= j < i ==> shift_fits(
                    delta as int,
                    var.0@,
                    var.1 as int,
                    (#[trigger] Expr::fields(list@)[j]).1,
                ),
            forall|j: int|
                0 <= j < i ==> (#[trigger] out@[j]).0@ == list@[j].0@ && out@[j].1@ == shift_term(
                    delta as int,
                    var.0@,
                    var.1 as int,
                    list@[j].1@,
                ),
        decreases list.len() - i,
    {
        assert(Expr::fields(list@)[i as int].1 == list@[i as int].1@);
        match shift(delta, var, &list[i].1) {
            Some(e) => out.push((list[i].0.clone(), e)),
            None => {
                return None;
            },
        }
        i += 1;
    }
    assert(Expr::fields(out@) =~= shift_fields(
        delta as int,
        var.0@,
        var.1 as int,
        Expr::fields(list@),
    ));
    Some(out)
}

/// Shifts the payload of each alternative of a union; `None` as soon as one does not fit.
pub fn shift_union(delta: isize, var: &V, list: &Vec<(Label, Option<Expr>)>) -> (res: Option<
    Vec<(Label, Option<Expr>)>,
>)
    ensures
        res is Some <==> (forall|i: int|
            0 <= i < list@.len() ==> match (#[trigger] Expr::alternatives(list@)[i]).1 {
                Some(u) => shift_fits(delta as int, var.0@, var.1 as int, u),
                None => true,
            }),
        res matches Some(r) ==> Expr::alternatives(r@) == shift_alternatives(
            delta as int,
            var.0@,
            var.1 as int,
            Expr::alternatives(list@),
        ),
    decreases list,
{
    let mut out: Vec<(Label, Option<Expr>)> = Vec::new();
    let mut i: usize = 0;
    while i < list.len()
        invariant
            i <= list.len(),
            out@.len() == i,
            forall|j: int|
                0 <= j < i ==> match (#[trigger] Expr::alternatives(list@)[j]).1 {
                    Some(u) => shift_fits(delta as int, var.0@, var.1 as int, u),
                    None => true,
                },
            forall|j: int|
                0 <= j < i ==> (#[trigger] out@[j]).0@ == list@[j].0@ && Expr::optional(out@[j].1)
                    == (match Expr::optional(list@[j].1) {
                    Some(u) => Some(shift_term(delta as int, var.0@, var.1 as int, u)),
                    None => None,
                }),
        decreases list.len() - i,
    {
        assert(Expr::alternatives(list@)[i as int].1 == Expr::optional(list@[i as int].1));
        match &list[i].1 {
            Some(u) => match shift(delta, var, u) {
                Some(e) => out.push((list[i].0.clone(), Some(e))),
                None => {
                    return None;
                },
            },
            None => out.push((list[i].0.clone(), None)),
        }
        i += 1;
    }
    assert(Expr::alternatives(out@) =~= shift_alternatives(
        delta as int,
        var.0@,
        var.1 as int,
        Expr::alternatives(list@),
    ));
    Some(out)
}

/// Adds `delta` to the index of every free variable of `e` that has the name of
/// `var` and an index of at least that of `var`.
///
/// Returns `None` exactly where an index computed on the way would be negative
/// or would exceed `usize::MAX`.
pub fn shift(delta: isize, var: &V, e: &Expr) -> (res: Option<Expr>)
    ensures
        res is Some <==> shift_fits(delta as int, var.0@, var.1 as int, e@),
        res matches Some(r) ==> r@ == shift_term(delta as int, var.0@, var.1 as int, e@),
    decreases e,
{
    match e {
        Expr::Const(c) => Some(Expr::Const(*c)),
        Expr::Var(v) => {
            if v.0.same(&var.0) && v.1 >= var.1 {
                match offset_index(v.1, delta) {
                    Some(k) => Some(Expr::Var(V(v.0.clone(), k))),
                    None => None,
                }
            } else {
                Some(Expr::Var(v.clone()))
            }
        },
        Expr::Lam(y, a, b) => {
            let a2 = shift(delta, var, a)?;
            let inner = var.below(y)?;
            let b2 = shift(delta, &inner, b)?;
            Some(Expr::Lam(y.clone(), Box::new(a2), Box::new(b2)))
        },
        Expr::Pi(y, a, b) => {
            let a2 = shift(delta, var, a)?;
            let inner = var.below(y)?;
            let b2 = shift(delta, &inner, b)?;
            Some(Expr::Pi(y.clone(), Box::new(a2), Box::new(b2)))
        },
        Expr::App(f, args) => {
            let f2 = shift(delta, var, f)?;
            let args2 = shift_list(delta, var, args)?;
            Some(Expr::App(Box::new(f2), args2))
        },
        Expr::Let(y, ty, r, b) => {
            let ty2 = match ty {
                Some(u) => Some(Box::new(shift(delta, var, u)?)),
                None => None,
            };
            let r2 = shift(delta, var, r)?;
            let inner = var.below(y)?;
            let b2 = shift(delta, &inner, b)?;
            Some(Expr::Let(y.clone(), ty2, Box::new(r2), Box::new(b2)))
        },
        Expr::Annot(x, u) => {
            let x2 = shift(delta, var, x)?;
            let u2 = shift(delta, var, u)?;
            Some(Expr::Annot(Box::new(x2), Box::new(u2)))
        },
        Expr::BoolIf(c, u, x) => {
            let c2 = shift(delta, var, c)?;
            let u2 = shift(delta, var, u)?;
            let x2 = shift(delta, var, x)?;
            Some(Expr::BoolIf(Box::new(c2), Box::new(u2), Box::new(x2)))
        },
        Expr::EmptyListLit(u) => {
            let u2 = shift(delta, var, u)?;
            Some(Expr::EmptyListLit(Box::new(u2)))
        },
        Expr::NEListLit(first, rest) => {
            let first2 = shift(delta, var, first)?;
            let rest2 = shift_list(delta, var, rest)?;
            Some(Expr::NEListLit(Box::new(first2), rest2))
        },
        Expr::EmptyOptionalLit(u) => {
            let u2 = shift(delta, var, u)?;
            Some(Expr::EmptyOptionalLit(Box::new(u2)))
        },
        Expr::NEOptionalLit(x) => {
            let x2 = shift(delta, var, x)?;
            Some(Expr::NEOptionalLit(Box::new(x2)))
        },
        Expr::RecordType(kts) => {
            let kts2 = shift_record(delta, var, kts)?;
            Some(Expr::RecordType(kts2))
        },
        Expr::RecordLit(kvs) => {
            let kvs2 = shift_record(delta, var, kvs)?;
            Some(Expr::RecordLit(kvs2))
        },
        Expr::UnionType(kts) => {
            let kts2 = shift_union(delta, var, kts)?;
            Some(Expr::UnionType(kts2))
        },
        Expr::Field(r, l) => {
            let r2 = shift(delta, var, r)?;
            Some(Expr::Field(Box::new(r2), l.clone()))
        },
        Expr::Builtin(b) => Some(Expr::Builtin(*b)),
        Expr::BoolLit(b) => Some(Expr::BoolLit(*b)),
        Expr::NaturalLit(n) => Some(Expr::NaturalLit(*n)),
        Expr::IntegerLit(n) => Some(Expr::IntegerLit(*n)),
        Expr::DoubleLit(bits) => Some(Expr::DoubleLit(*bits)),
        Expr::TextLit(s) => Some(Expr::TextLit(s.clone())),
        Expr::BinOp(o, l, r) => {
            let l2 = shift(delta, var, l)?;
            let r2 = shift(delta, var, r)?;
            Some(Expr::BinOp(*o, Box::new(l2), Box::new(r2)))
        },
    }
}

} // verus!
