//! Capture-avoiding substitution of a term for a free variable.

use crate::shift::{below, index_in_range, shift, shift_fits, shift_term};
use crate::syntax::{Expr, Label, Term, V};
use vstd::prelude::*;

verus! {

/// The term `t` with `value` in place of every free occurrence of `V(x, n)`.
///
/// Below a binder named `y` the value is shifted by one over `V(y, 0)`, so that
/// its own free variables still mean what they meant above the binder.
pub open spec fn subst_term(x: Seq<char>, n: int, value: Term, t: Term) -> Term
    decreases t,
{
    match t {
        Term::Const(_) => t,
        Term::Var(y, k) => if y == x && k == n {
            value
        } else {
            t
        },
        Term::Lam(y, a, b) => Term::Lam(
            y,
            Box::new(subst_term(x, n, value, *a)),
            Box::new(subst_term(x, below(x, n, y), shift_term(1, y, 0, value), *b)),
        ),
        Term::Pi(y, a, b) => Term::Pi(
            y,
            Box::new(subst_term(x, n, value, *a)),
            Box::new(subst_term(x, below(x, n, y), shift_term(1, y, 0, value), *b)),
        ),
        Term::App(f, args) => Term::App(
            Box::new(subst_term(x, n, value, *f)),
            subst_terms(x, n, value, args),
        ),
        Term::Let(y, ty, r, b) => Term::Let(
            y,
            match ty {
                Some(u) => Some(Box::new(subst_term(x, n, value, *u))),
                None => None,
            },
            Box::new(subst_term(x, n, value, *r)),
            Box::new(subst_term(x, below(x, n, y), shift_term(1, y, 0, value), *b)),
        ),
        Term::Annot(e, u) => Term::Annot(
            Box::new(subst_term(x, n, value, *e)),
            Box::new(subst_term(x, n, value, *u)),
        ),
        Term::BoolIf(c, u, e) => Term::BoolIf(
            Box::new(subst_term(x, n, value, *c)),
            Box::new(subst_term(x, n, value, *u)),
            Box::new(subst_term(x, n, value, *e)),
        ),
        Term::EmptyListLit(u) => Term::EmptyListLit(Box::new(subst_term(x, n, value, *u))),
        Term::NEListLit(first, rest) => Term::NEListLit(
            Box::new(subst_term(x, n, value, *first)),
            subst_terms(x, n, value, rest),
        ),
        Term::EmptyOptionalLit(u) => Term::EmptyOptionalLit(Box::new(subst_term(x, n, value, *u))),
        Term::NEOptionalLit(e) => Term::NEOptionalLit(Box::new(subst_term(x, n, value, *e))),
        Term::RecordType(kts) => Term::RecordType(subst_fields(x, n, value, kts)),
        Term::RecordLit(kvs) => Term::RecordLit(subst_fields(x, n, value, kvs)),
        Term::UnionType(kts) => Term::UnionType(subst_alternatives(x, n, value, kts)),
        Term::Field(r, l) => Term::Field(Box::new(subst_term(x, n, value, *r)), l),
        Term::Builtin(_) => t,
        Term::BoolLit(_) => t,
        Term::NaturalLit(_) => t,
        Term::IntegerLit(_) => t,
        Term::DoubleLit(_) => t,
        Term::TextLit(_) => t,
        Term::BinOp(o, l, r) => Term::BinOp(
            o,
            Box::new(subst_term(x, n, value, *l)),
            Box::new(subst_term(x, n, value, *r)),
        ),
    }
}

/// [`subst_term`] on each term of a list.
pub open spec fn subst_terms(x: Seq<char>, n: int, value: Term, s: Seq<Term>) -> Seq<Term>
    decreases s,
{
    Seq::new(
        s.len(),
        |i: int|
            if 0 <= i < s.len() {
                subst_term(x, n, value, s[i])
            } else {
                arbitrary()
            },
    )
}

/// [`subst_term`] on the term of each entry of a record.
pub open spec fn subst_fields(x: Seq<char>, n: int, value: Term, s: Seq<(Seq<char>, Term)>) -> Seq<
    (Seq<char>, Term),
>
    decreases s,
{
    Seq::new(
        s.len(),
        |i: int|
            if 0 <= i < s.len() {
                (s[i].0, subst_term(x, n, value, s[i].1))
            } else {
                arbitrary()
            },
    )
}

/// [`subst_term`] on the payload of each alternative of a union.
pub open spec fn subst_alternatives(
    x: Seq<char>,
    n: int,
    value: Term,
    s: Seq<(Seq<char>, Option<Term>)>,
) -> Seq<(Seq<char>, Option<Term>)>
    decreases s,
{
    Seq::new(
        s.len(),
        |i: int|
            if 0 <= i < s.len() {
                (
                    s[i].0,
                    match s[i].1 {
                        Some(u) => Some(subst_term(x, n, value, u)),
                        None => None,
                    },
                )
            } else {
                arbitrary()
            },
    )
}

/// Whether substitution can be carried out below a binder named `y`: the index
/// looked for below it and the shifted value both stay in range, and the
/// substitution fits the body.
pub open spec fn subst_fits_below(x: Seq<char>, n: int, value: Term, y: Seq<char>, b: Term) -> bool
    decreases b, 1int,
{
    index_in_range(below(x, n, y)) && shift_fits(1, y, 0, value) && subst_fits(
        x,
        below(x, n, y),
        shift_term(1, y, 0, value),
        b,
    )
}

/// Whether every index that [`subst_term`] computes on the way through `t`,
/// for a binder it passes or in shifting the value, can be held by an
/// executable variable.
pub open spec fn subst_fits(x: Seq<char>, n: int, value: Term, t: Term) -> bool
    decreases t, 0int,
{
    match t {
        Term::Const(_) => true,
        Term::Var(_, _) => true,
        Term::Lam(y, a, b) => subst_fits(x, n, value, *a) && subst_fits_below(x, n, value, y, *b),
        Term::Pi(y, a, b) => subst_fits(x, n, value, *a) && subst_fits_below(x, n, value, y, *b),
        Term::App(f, args) => subst_fits(x, n, value, *f) && forall|i: int|
            0 <= i < args.len() ==> subst_fits(x, n, value, #[trigger] args[i]),
        Term::Let(y, ty, r, b) => (match ty {
            Some(u) => subst_fits(x, n, value, *u),
            None => true,
        }) && subst_fits(x, n, value, *r) && subst_fits_below(x, n, value, y, *b),
        Term::Annot(e, u) => subst_fits(x, n, value, *e) && subst_fits(x, n, value, *u),
        Term::BoolIf(c, u, e) => subst_fits(x, n, value, *c) && subst_fits(x, n, value, *u)
            && subst_fits(x, n, value, *e),
        Term::EmptyListLit(u) => subst_fits(x, n, value, *u),
        Term::NEListLit(first, rest) => subst_fits(x, n, value, *first) && forall|i: int|
            0 <= i < rest.len() ==> subst_fits(x, n, value, #[trigger] rest[i]),
        Term::EmptyOptionalLit(u) => subst_fits(x, n, value, *u),
        Term::NEOptionalLit(e) => subst_fits(x, n, value, *e),
        Term::RecordType(kts) => forall|i: int|
            0 <= i < kts.len() ==> subst_fits(x, n, value, (#[trigger] kts[i]).1),
        Term::RecordLit(kvs) => forall|i: int|
            0 <= i < kvs.len() ==> subst_fits(x, n, value, (#[trigger] kvs[i]).1),
        Term::UnionType(kts) => forall|i: int|
            0 <= i < kts.len() ==> match (#[trigger] kts[i]).1 {
                Some(u) => subst_fits(x, n, value, u),
                None => true,
            },
        Term::Field(r, _) => subst_fits(x, n, value, *r),
        Term::Builtin(_) => true,
        Term::BoolLit(_) => true,
        Term::NaturalLit(_) => true,
        Term::IntegerLit(_) => true,
        Term::DoubleLit(_) => true,
        Term::TextLit(_) => true,
        Term::BinOp(_, l, r) => subst_fits(x, n, value, *l) && subst_fits(x, n, value, *r),
    }
}

/// Substitutes in the body of a binder named `y`.
pub fn subst_below(var: &V, value: &Expr, y: &Label, body: &Expr) -> (res: Option<Expr>)
    ensures
        res is Some <==> subst_fits_below(var.0@, var.1 as int, value@, y@, body@),
        res matches Some(r) ==> r@ == subst_term(
            var.0@,
            below(var.0@, var.1 as int, y@),
            shift_term(1, y@, 0, value@),
            body@,
        ),
    decreases body, 1int,
{
    let inner = var.below(y)?;
    let lifted = shift(1, &V(y.clone(), 0), value)?;
    subst(&inner, &lifted, body)
}

/// Substitutes in each expression of a list; `None` as soon as one does not fit.
pub fn subst_list(var: &V, value: &Expr, list: &Vec<Expr>) -> (res: Option<Vec<Expr>>)
    ensures
        res is Some <==> (forall|i: int|
            0 <= i < list@.len() ==> subst_fits(
                var.0@,
                var.1 as int,
                value@,
                #[trigger] Expr::terms(list@)[i],
            )),
        res matches Some(r) ==> Expr::terms(r@) == subst_terms(
            var.0@,
            var.1 as int,
            value@,
            Expr::terms(list@),
        ),
    decreases list, 0int,
{
    let mut out: Vec<Expr> = Vec::new();
    let mut i: usize = 0;
    while i < list.len()
        invariant
            i <= list.len(),
            out@.len() == i,
            forall|j: int|
                0 <= j < i ==> subst_fits(
                    var.0@,
                    var.1 as int,
                    value@,
                    #[trigger] Expr::terms(list@)[j],
                ),
            forall|j: int|
                0 <= j < i ==> (#[trigger] out@[j])@ == subst_term(
                    var.0@,
                    var.1 as int,
                    value@,
                    list@[j]@,
                ),
        decreases list.len() - i,
    {
        assert(Expr::terms(list@)[i as int] == list@[i as int]@);
        match subst(var, value, &list[i]) {
            Some(e) => out.push(e),
            None => {
                return None;
            },
        }
        i += 1;
    }
    assert(Expr::terms(out@) =~= subst_terms(var.0@, var.1 as int, value@, Expr::terms(list@)));
    Some(out)
}

/// Substitutes in the expression of each entry of a record; `None` as soon as one does not fit.
pub fn subst_record(var: &V, value: &Expr, list: &Vec<(Label, Expr)>) -> (res: Option<
    Vec<(Label, Expr)>,
>)
    ensures
        res is Some <==> (forall|i: int|
            0 <= i < list@.len() ==> subst_fits(
                var.0@,
                var.1 as int,
                value@,
                (#[trigger] Expr::fields(list@)[i]).1,
            )),
        res matches Some(r) ==> Expr::fields(r@) == subst_fields(
            var.0@,
            var.1 as int,
            value@,
            Expr::fields(list@),
        ),
    decreases list, 0int,
{
    let mut out: Vec<(Label, Expr)> = Vec::new();
    let mut i: usize = 0;
    while i < list.len()
        invariant
            i <= list.len(),
            out@.len() == i,
            forall|j: int|
                0 <= j < i ==> subst_fits(
                    var.0@,
                    var.1 as int,
                    value@,
                    (#[trigger] Expr::fields(list@)[j]).1,
                ),
            forall|j: int|
                0 <= j < i ==> (#[trigger] out@[j]).0@ == list@[j].0@ && out@[j].1@ == subst_term(
                    var.0@,
                    var.1 as int,
                    value@,
                    list@[j].1@,
                ),
        decreases list.len() - i,
    {
        assert(Expr::fields(list@)[i as int].1 == list@[i as int].1@);
        match subst(var, value, &list[i].1) {
            Some(e) => out.push((list[i].0.clone(), e)),
            None => {
                return None;
            },
        }
        i += 1;
    }
    assert(Expr::fields(out@) =~= subst_fields(var.0@, var.1 as int, value@, Expr::fields(list@)));
    Some(out)
}

/// Substitutes in the payload of each alternative of a union; `None` as soon as one does not fit.
pub fn subst_union(var: &V, value: &Expr, list: &Vec<(Label, Option<Expr>)>) -> (res: Option<
    Vec<(Label, Option<Expr>)>,
>)
    ensures
        res is Some <==> (forall|i: int|
            0 <= i < list@.len() ==> match (#[trigger] Expr::alternatives(list@)[i]).1 {
                Some(u) => subst_fits(var.0@, var.1 as int, value@, u),
                None => true,
            }),
        res matches Some(r) ==> Expr::alternatives(r@) == subst_alternatives(
            var.0@,
            var.1 as int,
            value@,
            Expr::alternatives(list@),
        ),
    decreases list, 0int,
{
    let mut out: Vec<(Label, Option<Expr>)> = Vec::new();
    let mut i: usize = 0;
    while i < list.len()
        invariant
            i <= list.len(),
            out@.len() == i,
            forall|j: int|
                0 <= j < i ==> match (#[trigger] Expr::alternatives(list@)[j]).1 {
                    Some(u) => subst_fits(var.0@, var.1 as int, value@, u),
                    None => true,
                },
            forall|j: int|
                0 <= j < i ==> (#[trigger] out@[j]).0@ == list@[j].0@ && Expr::optional(out@[j].1)
                    == (match Expr::optional(list@[j].1) {
                    Some(u) => Some(subst_term(var.0@, var.1 as int, value@, u)),
                    None => None,
                }),
        decreases list.len() - i,
    {
        assert(Expr::alternatives(list@)[i as int].1 == Expr::optional(list@[i as int].1));
        match &list[i].1 {
            Some(u) => match subst(var, value, u) {
                Some(e) => out.push((list[i].0.clone(), Some(e))),
                None => {
                    return None;
                },
            },
            None => out.push((list[i].0.clone(), None)),
        }
        i += 1;
    }
    assert(Expr::alternatives(out@) =~= subst_alternatives(
        var.0@,
        var.1 as int,
        value@,
        Expr::alternatives(list@),
    ));
    Some(out)
}

/// Puts `value` in place of every free occurrence of `var` in `e`, shifting
/// `value` as it passes under binders.
///
/// Returns `None` exactly where an index computed on the way would exceed
/// `usize::MAX`.
pub fn subst(var: &V, value: &Expr, e: &Expr) -> (res: Option<Expr>)
    ensures
        res is Some <==> subst_fits(var.0@, var.1 as int, value@, e@),
        res matches Some(r) ==> r@ == subst_term(var.0@, var.1 as int, value@, e@),
    decreases e, 0int,
{
    match e {
        Expr::Const(c) => Some(Expr::Const(*c)),
        Expr::Var(v) => {
            if v.same(var) {
                Some(value.clone())
            } else {
                Some(Expr::Var(v.clone()))
            }
        },
        Expr::Lam(y, a, b) => {
            let a2 = subst(var, value, a)?;
            let b2 = subst_below(var, value, y, b)?;
            Some(Expr::Lam(y.clone(), Box::new(a2), Box::new(b2)))
        },
        Expr::Pi(y, a, b) => {
            let a2 = subst(var, value, a)?;
            let b2 = subst_below(var, value, y, b)?;
            Some(Expr::Pi(y.clone(), Box::new(a2), Box::new(b2)))
        },
        Expr::App(f, args) => {
            let f2 = subst(var, value, f)?;
            let args2 = subst_list(var, value, args)?;
            Some(Expr::App(Box::new(f2), args2))
        },
        Expr::Let(y, ty, r, b) => {
            let ty2 = match ty {
                Some(u) => Some(Box::new(subst(var, value, u)?)),
                None => None,
            };
            let r2 = subst(var, value, r)?;
            let b2 = subst_below(var, value, y, b)?;
            Some(Expr::Let(y.clone(), ty2, Box::new(r2), Box::new(b2)))
        },
        Expr::Annot(x, u) => {
            let x2 = subst(var, value, x)?;
            let u2 = subst(var, value, u)?;
            Some(Expr::Annot(Box::new(x2), Box::new(u2)))
        },
        Expr::BoolIf(c, u, x) => {
            let c2 = subst(var, value, c)?;
            let u2 = subst(var, value, u)?;
            let x2 = subst(var, value, x)?;
            Some(Expr::BoolIf(Box::new(c2), Box::new(u2), Box::new(x2)))
        },
        Expr::EmptyListLit(u) => {
            let u2 = subst(var, value, u)?;
            Some(Expr::EmptyListLit(Box::new(u2)))
        },
        Expr::NEListLit(first, rest) => {
            let first2 = subst(var, value, first)?;
            let rest2 = subst_list(var, value, rest)?;
            Some(Expr::NEListLit(Box::new(first2), rest2))
        },
        Expr::EmptyOptionalLit(u) => {
            let u2 = subst(var, value, u)?;
            Some(Expr::EmptyOptionalLit(Box::new(u2)))
        },
        Expr::NEOptionalLit(x) => {
            let x2 = subst(var, value, x)?;
            Some(Expr::NEOptionalLit(Box::new(x2)))
        },
        Expr::RecordType(kts) => {
            let kts2 = subst_record(var, value, kts)?;
            Some(Expr::RecordType(kts2))
        },
        Expr::RecordLit(kvs) => {
            let kvs2 = subst_record(var, value, kvs)?;
            Some(Expr::RecordLit(kvs2))
        },
        Expr::UnionType(kts) => {
            let kts2 = subst_union(var, value, kts)?;
            Some(Expr::UnionType(kts2))
        },
        Expr::Field(r, l) => {
            let r2 = subst(var, value, r)?;
            Some(Expr::Field(Box::new(r2), l.clone()))
        },
        Expr::Builtin(b) => Some(Expr::Builtin(*b)),
        Expr::BoolLit(b) => Some(Expr::BoolLit(*b)),
        Expr::NaturalLit(n) => Some(Expr::NaturalLit(*n)),
        Expr::IntegerLit(n) => Some(Expr::IntegerLit(*n)),
        Expr::DoubleLit(bits) => Some(Expr::DoubleLit(*bits)),
        Expr::TextLit(s) => Some(Expr::TextLit(s.clone())),
        Expr::BinOp(o, l, r) => {
            let l2 = subst(var, value, l)?;
            let r2 = subst(var, value, r)?;
            Some(Expr::BinOp(*o, Box::new(l2), Box::new(r2)))
        },
    }
}

/// Whether [`subst_shifted`] can be computed without an index leaving its range.
pub open spec fn subst_shift_fits(x: Seq<char>, n: int, value: Term, t: Term) -> bool {
    shift_fits(1, x, n, value) && subst_fits(x, n, shift_term(1, x, n, value), t) && shift_fits(
        -1,
        x,
        n,
        subst_term(x, n, shift_term(1, x, n, value), t),
    )
}

/// The term `t` taken out of the binder that `V(x, n)` refers to, with `value`
/// for that variable: `value`, shifted to stand below the binder, takes the
/// place of `V(x, n)`, and the result is shifted back out of the binder.
pub open spec fn subst_shifted(x: Seq<char>, n: int, value: Term, t: Term) -> Term {
    shift_term(-1, x, n, subst_term(x, n, shift_term(1, x, n, value), t))
}

/// Takes `e` out of the binder that `var` refers to, with `value` for that variable.
///
/// Returns `None` exactly where an index would leave the range of `usize` on the way.
pub fn subst_shift(var: &V, value: &Expr, e: &Expr) -> (res: Option<Expr>)
    ensures
        res is Some <==> subst_shift_fits(var.0@, var.1 as int, value@, e@),
        res matches Some(r) ==> r@ == subst_shifted(var.0@, var.1 as int, value@, e@),
{
    let lifted = match shift(1, var, value) {
        Some(lifted) => lifted,
        None => {
            return None;
        },
    };
    let replaced = match subst(var, &lifted, e) {
        Some(replaced) => replaced,
        None => {
            return None;
        },
    };
    shift(-1, var, &replaced)
}

} // verus!
