//! How shifts compose, and which variables are free in a shifted term.

use crate::shift::{below, shift_alternatives, shift_fields, shift_term, shift_terms};
use crate::syntax::Term;
use vstd::prelude::*;

verus! {

/// Whether a shift by `delta` over `V(x, m)` leaves every index that it
/// changes in `t` at or above the index from which it shifts: none of the
/// variables it moves comes to refer to a binder further in.
pub open spec fn shift_keeps(delta: int, x: Seq<char>, m: int, t: Term) -> bool
    decreases t,
{
    match t {
        Term::Const(_) => true,
        Term::Var(y, n) => !(y == x && n >= m) || n + delta >= m,
        Term::Lam(y, a, b) => shift_keeps(delta, x, m, *a) && shift_keeps(
            delta,
            x,
            below(x, m, y),
            *b,
        ),
        Term::Pi(y, a, b) => shift_keeps(delta, x, m, *a) && shift_keeps(
            delta,
            x,
            below(x, m, y),
            *b,
        ),
        Term::App(f, args) => shift_keeps(delta, x, m, *f) && forall|i: int|
            0 <= i < args.len() ==> shift_keeps(delta, x, m, #[trigger] args[i]),
        Term::Let(y, ty, r, b) => (match ty {
            Some(u) => shift_keeps(delta, x, m, *u),
            None => true,
        }) && shift_keeps(delta, x, m, *r) && shift_keeps(delta, x, below(x, m, y), *b),
        Term::Annot(e, u) => shift_keeps(delta, x, m, *e) && shift_keeps(delta, x, m, *u),
        Term::BoolIf(c, u, e) => shift_keeps(delta, x, m, *c) && shift_keeps(delta, x, m, *u)
            && shift_keeps(delta, x, m, *e),
        Term::EmptyListLit(u) => shift_keeps(delta, x, m, *u),
        Term::NEListLit(first, rest) => shift_keeps(delta, x, m, *first) && forall|i: int|
            0 <= i < rest.len() ==> shift_keeps(delta, x, m, #[trigger] rest[i]),
        Term::EmptyOptionalLit(u) => shift_keeps(delta, x, m, *u),
        Term::NEOptionalLit(e) => shift_keeps(delta, x, m, *e),
        Term::RecordType(kts) => forall|i: int|
            0 <= i < kts.len() ==> shift_keeps(delta, x, m, (#[trigger] kts[i]).1),
        Term::RecordLit(kvs) => forall|i: int|
            0 <= i < kvs.len() ==> shift_keeps(delta, x, m, (#[trigger] kvs[i]).1),
        Term::UnionType(kts) => forall|i: int|
            0 <= i < kts.len() ==> match (#[trigger] kts[i]).1 {
                Some(u) => shift_keeps(delta, x, m, u),
                None => true,
            },
        Term::Field(r, _) => shift_keeps(delta, x, m, *r),
        Term::Builtin(_) => true,
        Term::BoolLit(_) => true,
        Term::NaturalLit(_) => true,
        Term::IntegerLit(_) => true,
        Term::DoubleLit(_) => true,
        Term::TextLit(_) => true,
        Term::BinOp(_, l, r) => shift_keeps(delta, x, m, *l) && shift_keeps(delta, x, m, *r),
    }
}

/// Whether the variable `V(x, n)` occurs free in `t`.
pub open spec fn mentions(x: Seq<char>, n: int, t: Term) -> bool
    decreases t,
{
    match t {
        Term::Const(_) => false,
        Term::Var(y, k) => y == x && k == n,
        Term::Lam(y, a, b) => mentions(x, n, *a) || mentions(x, below(x, n, y), *b),
        Term::Pi(y, a, b) => mentions(x, n, *a) || mentions(x, below(x, n, y), *b),
        Term::App(f, args) => mentions(x, n, *f) || mentions_in_terms(x, n, args),
        Term::Let(y, ty, r, b) => (match ty {
            Some(u) => mentions(x, n, *u),
            None => false,
        }) || mentions(x, n, *r) || mentions(x, below(x, n, y), *b),
        Term::Annot(e, u) => mentions(x, n, *e) || mentions(x, n, *u),
        Term::BoolIf(c, u, e) => mentions(x, n, *c) || mentions(x, n, *u) || mentions(x, n, *e),
        Term::EmptyListLit(u) => mentions(x, n, *u),
        Term::NEListLit(first, rest) => mentions(x, n, *first) || mentions_in_terms(x, n, rest),
        Term::EmptyOptionalLit(u) => mentions(x, n, *u),
        Term::NEOptionalLit(e) => mentions(x, n, *e),
        Term::RecordType(kts) => mentions_in_fields(x, n, kts),
        Term::RecordLit(kvs) => mentions_in_fields(x, n, kvs),
        Term::UnionType(kts) => mentions_in_alternatives(x, n, kts),
        Term::Field(r, _) => mentions(x, n, *r),
        Term::Builtin(_) => false,
        Term::BoolLit(_) => false,
        Term::NaturalLit(_) => false,
        Term::IntegerLit(_) => false,
        Term::DoubleLit(_) => false,
        Term::TextLit(_) => false,
        Term::BinOp(_, l, r) => mentions(x, n, *l) || mentions(x, n, *r),
    }
}

/// Whether the variable `V(x, n)` occurs free in a term of the list.
pub open spec fn mentions_in_terms(x: Seq<char>, n: int, s: Seq<Term>) -> bool
    decreases s,
{
    exists|i: int| 0 <= i < s.len() && mentions(x, n, #[trigger] s[i])
}

/// Whether the variable `V(x, n)` occurs free in the term of an entry of the record.
pub open spec fn mentions_in_fields(x: Seq<char>, n: int, s: Seq<(Seq<char>, Term)>) -> bool
    decreases s,
{
    exists|i: int| 0 <= i < s.len() && mentions(x, n, (#[trigger] s[i]).1)
}

/// Whether the variable `V(x, n)` occurs free in the payload of an alternative of the union.
pub open spec fn mentions_in_alternatives(
    x: Seq<char>,
    n: int,
    s: Seq<(Seq<char>, Option<Term>)>,
) -> bool
    decreases s,
{
    exists|i: int|
        0 <= i < s.len() && match (#[trigger] s[i]).1 {
            Some(u) => mentions(x, n, u),
            None => false,
        }
}

/// Whether the variable `V(x, n)` occurs free in a payload.
pub open spec fn mentions_in_payload(x: Seq<char>, n: int, payload: Option<Term>) -> bool {
    match payload {
        Some(u) => mentions(x, n, u),
        None => false,
    }
}

/// A shift that adds nothing or that adds to the indices keeps them at or
/// above the index from which it shifts.
pub proof fn shift_up_keeps(delta: int, x: Seq<char>, m: int, t: Term)
    requires
        delta >= 0,
    ensures
        shift_keeps(delta, x, m, t),
    decreases t,
{
    match t {
        Term::Lam(y, a, b) => {
            shift_up_keeps(delta, x, m, *a);
            shift_up_keeps(delta, x, below(x, m, y), *b);
        },
        Term::Pi(y, a, b) => {
            shift_up_keeps(delta, x, m, *a);
            shift_up_keeps(delta, x, below(x, m, y), *b);
        },
        Term::App(f, args) => {
            shift_up_keeps(delta, x, m, *f);
            assert forall|i: int| 0 <= i < args.len() implies shift_keeps(
                delta,
                x,
                m,
                #[trigger] args[i],
            ) by {
                shift_up_keeps(delta, x, m, args[i]);
            }
        },
        Term::Let(y, ty, r, b) => {
            match ty {
                Some(u) => shift_up_keeps(delta, x, m, *u),
                None => {},
            }
            shift_up_keeps(delta, x, m, *r);
            shift_up_keeps(delta, x, below(x, m, y), *b);
        },
        Term::Annot(e, u) => {
            shift_up_keeps(delta, x, m, *e);
            shift_up_keeps(delta, x, m, *u);
        },
        Term::BoolIf(c, u, e) => {
            shift_up_keeps(delta, x, m, *c);
            shift_up_keeps(delta, x, m, *u);
            shift_up_keeps(delta, x, m, *e);
        },
        Term::EmptyListLit(u) => shift_up_keeps(delta, x, m, *u),
        Term::NEListLit(first, rest) => {
            shift_up_keeps(delta, x, m, *first);
            assert forall|i: int| 0 <= i < rest.len() implies shift_keeps(
                delta,
                x,
                m,
                #[trigger] rest[i],
            ) by {
                shift_up_keeps(delta, x, m, rest[i]);
            }
        },
        Term::EmptyOptionalLit(u) => shift_up_keeps(delta, x, m, *u),
        Term::NEOptionalLit(e) => shift_up_keeps(delta, x, m, *e),
        Term::RecordType(kts) => {
            assert forall|i: int| 0 <= i < kts.len() implies shift_keeps(
                delta,
                x,
                m,
                (#[trigger] kts[i]).1,
            ) by {
                shift_up_keeps(delta, x, m, kts[i].1);
            }
        },
        Term::RecordLit(kvs) => {
            assert forall|i: int| 0 <= i < kvs.len() implies shift_keeps(
                delta,
                x,
                m,
                (#[trigger] kvs[i]).1,
            ) by {
                shift_up_keeps(delta, x, m, kvs[i].1);
            }
        },
        Term::UnionType(kts) => {
            assert forall|i: int| 0 <= i < kts.len() implies match (#[trigger] kts[i]).1 {
                Some(u) => shift_keeps(delta, x, m, u),
                None => true,
            } by {
                match kts[i].1 {
                    Some(u) => shift_up_keeps(delta, x, m, u),
                    None => {},
                }
            }
        },
        Term::Field(r, _) => shift_up_keeps(delta, x, m, *r),
        Term::BinOp(_, l, r) => {
            shift_up_keeps(delta, x, m, *l);
            shift_up_keeps(delta, x, m, *r);
        },
        _ => {},
    }
}

/// A shift by nothing changes nothing.
pub proof fn shift_by_zero(x: Seq<char>, m: int, t: Term)
    ensures
        shift_term(0, x, m, t) == t,
    decreases t,
{
    match t {
        Term::Lam(y, a, b) => {
            shift_by_zero(x, m, *a);
            shift_by_zero(x, below(x, m, y), *b);
        },
        Term::Pi(y, a, b) => {
            shift_by_zero(x, m, *a);
            shift_by_zero(x, below(x, m, y), *b);
        },
        Term::App(f, args) => {
            shift_by_zero(x, m, *f);
            assert forall|i: int| 0 <= i < args.len() implies shift_term(0, x, m, args[i])
                == #[trigger] args[i] by {
                shift_by_zero(x, m, args[i]);
            }
            assert(shift_terms(0, x, m, args) =~= args);
        },
        Term::Let(y, ty, r, b) => {
            match ty {
                Some(u) => shift_by_zero(x, m, *u),
                None => {},
            }
            shift_by_zero(x, m, *r);
            shift_by_zero(x, below(x, m, y), *b);
        },
        Term::Annot(e, u) => {
            shift_by_zero(x, m, *e);
            shift_by_zero(x, m, *u);
        },
        Term::BoolIf(c, u, e) => {
            shift_by_zero(x, m, *c);
            shift_by_zero(x, m, *u);
            shift_by_zero(x, m, *e);
        },
        Term::EmptyListLit(u) => shift_by_zero(x, m, *u),
        Term::NEListLit(first, rest) => {
            shift_by_zero(x, m, *first);
            assert forall|i: int| 0 <= i < rest.len() implies shift_term(0, x, m, rest[i])
                == #[trigger] rest[i] by {
                shift_by_zero(x, m, rest[i]);
            }
            assert(shift_terms(0, x, m, rest) =~= rest);
        },
        Term::EmptyOptionalLit(u) => shift_by_zero(x, m, *u),
        Term::NEOptionalLit(e) => shift_by_zero(x, m, *e),
        Term::RecordType(kts) => {
            assert forall|i: int| 0 <= i < kts.len() implies shift_term(
                0,
                x,
                m,
                (#[trigger] kts[i]).1,
            ) == kts[i].1 by {
                shift_by_zero(x, m, kts[i].1);
            }
            assert(shift_fields(0, x, m, kts) =~= kts);
        },
        Term::RecordLit(kvs) => {
            assert forall|i: int| 0 <= i < kvs.len() implies shift_term(
                0,
                x,
                m,
                (#[trigger] kvs[i]).1,
            ) == kvs[i].1 by {
                shift_by_zero(x, m, kvs[i].1);
            }
            assert(shift_fields(0, x, m, kvs) =~= kvs);
        },
        Term::UnionType(kts) => {
            assert forall|i: int| 0 <= i < kts.len() implies (match (#[trigger] kts[i]).1 {
                Some(u) => shift_term(0, x, m, u) == u,
                None => true,
            }) by {
                match kts[i].1 {
                    Some(u) => shift_by_zero(x, m, u),
                    None => {},
                }
            }
            assert(shift_alternatives(0, x, m, kts) =~= kts);
        },
        Term::Field(r, _) => shift_by_zero(x, m, *r),
        Term::BinOp(_, l, r) => {
            shift_by_zero(x, m, *l);
            shift_by_zero(x, m, *r);
        },
        _ => {},
    }
}

/// A shift after a shift that keeps the indices at or above the index from
/// which it shifts is one shift by the sum.
pub proof fn shift_after_keeping(d1: int, d2: int, x: Seq<char>, m: int, t: Term)
    requires
        shift_keeps(d2, x, m, t),
    ensures
        shift_term(d1, x, m, shift_term(d2, x, m, t)) == shift_term(d1 + d2, x, m, t),
    decreases t,
{
    match t {
        Term::Lam(y, a, b) => {
            shift_after_keeping(d1, d2, x, m, *a);
            shift_after_keeping(d1, d2, x, below(x, m, y), *b);
        },
        Term::Pi(y, a, b) => {
            shift_after_keeping(d1, d2, x, m, *a);
            shift_after_keeping(d1, d2, x, below(x, m, y), *b);
        },
        Term::App(f, args) => {
            shift_after_keeping(d1, d2, x, m, *f);
            assert forall|i: int| 0 <= i < args.len() implies shift_term(
                d1,
                x,
                m,
                shift_term(d2, x, m, #[trigger] args[i]),
            ) == shift_term(d1 + d2, x, m, args[i]) by {
                shift_after_keeping(d1, d2, x, m, args[i]);
            }
            assert(shift_terms(d1, x, m, shift_terms(d2, x, m, args)) =~= shift_terms(
                d1 + d2,
                x,
                m,
                args,
            ));
        },
        Term::Let(y, ty, r, b) => {
            match ty {
                Some(u) => shift_after_keeping(d1, d2, x, m, *u),
                None => {},
            }
            shift_after_keeping(d1, d2, x, m, *r);
            shift_after_keeping(d1, d2, x, below(x, m, y), *b);
        },
        Term::Annot(e, u) => {
            shift_after_keeping(d1, d2, x, m, *e);
            shift_after_keeping(d1, d2, x, m, *u);
        },
        Term::BoolIf(c, u, e) => {
            shift_after_keeping(d1, d2, x, m, *c);
            shift_after_keeping(d1, d2, x, m, *u);
            shift_after_keeping(d1, d2, x, m, *e);
        },
        Term::EmptyListLit(u) => shift_after_keeping(d1, d2, x, m, *u),
        Term::NEListLit(first, rest) => {
            shift_after_keeping(d1, d2, x, m, *first);
            assert forall|i: int| 0 <= i < rest.len() implies shift_term(
                d1,
                x,
                m,
                shift_term(d2, x, m, #[trigger] rest[i]),
            ) == shift_term(d1 + d2, x, m, rest[i]) by {
                shift_after_keeping(d1, d2, x, m, rest[i]);
            }
            assert(shift_terms(d1, x, m, shift_terms(d2, x, m, rest)) =~= shift_terms(
                d1 + d2,
                x,
                m,
                rest,
            ));
        },
        Term::EmptyOptionalLit(u) => shift_after_keeping(d1, d2, x, m, *u),
        Term::NEOptionalLit(e) => shift_after_keeping(d1, d2, x, m, *e),
        Term::RecordType(kts) => {
            assert forall|i: int| 0 <= i < kts.len() implies shift_term(
                d1,
                x,
                m,
                shift_term(d2, x, m, (#[trigger] kts[i]).1),
            ) == shift_term(d1 + d2, x, m, kts[i].1) by {
                shift_after_keeping(d1, d2, x, m, kts[i].1);
            }
            assert(shift_fields(d1, x, m, shift_fields(d2, x, m, kts)) =~= shift_fields(
                d1 + d2,
                x,
                m,
                kts,
            ));
        },
        Term::RecordLit(kvs) => {
            assert forall|i: int| 0 <= i < kvs.len() implies shift_term(
                d1,
                x,
                m,
                shift_term(d2, x, m, (#[trigger] kvs[i]).1),
            ) == shift_term(d1 + d2, x, m, kvs[i].1) by {
                shift_after_keeping(d1, d2, x, m, kvs[i].1);
            }
            assert(shift_fields(d1, x, m, shift_fields(d2, x, m, kvs)) =~= shift_fields(
                d1 + d2,
                x,
                m,
                kvs,
            ));
        },
        Term::UnionType(kts) => {
            assert forall|i: int| 0 <= i < kts.len() implies (match (#[trigger] kts[i]).1 {
                Some(u) => shift_term(d1, x, m, shift_term(d2, x, m, u)) == shift_term(
                    d1 + d2,
                    x,
                    m,
                    u,
                ),
                None => true,
            }) by {
                match kts[i].1 {
                    Some(u) => shift_after_keeping(d1, d2, x, m, u),
                    None => {},
                }
            }
            assert(shift_alternatives(d1, x, m, shift_alternatives(d2, x, m, kts))
                =~= shift_alternatives(d1 + d2, x, m, kts));
        },
        Term::Field(r, _) => shift_after_keeping(d1, d2, x, m, *r),
        Term::BinOp(_, l, r) => {
            shift_after_keeping(d1, d2, x, m, *l);
            shift_after_keeping(d1, d2, x, m, *r);
        },
        _ => {},
    }
}

/// Shifts compose: a shift by `d1` after a shift by `d2` over the same
/// variable is one shift by `d1 + d2`, provided that the second shift adds
/// nothing or that the first leaves no index it changes below the index from
/// which it shifts.
pub proof fn shift_composition(d1: int, d2: int, x: Seq<char>, m: int, t: Term)
    requires
        d1 == 0 || shift_keeps(d2, x, m, t),
    ensures
        shift_term(d1, x, m, shift_term(d2, x, m, t)) == shift_term(d1 + d2, x, m, t),
{
    if shift_keeps(d2, x, m, t) {
        shift_after_keeping(d1, d2, x, m, t);
    } else {
        shift_by_zero(x, m, shift_term(d2, x, m, t));
    }
}

/// Shifts that add to the indices always compose: no index can fall below
/// the index from which they shift.
pub proof fn shift_up_composition(d1: int, d2: int, x: Seq<char>, m: int, t: Term)
    requires
        d2 >= 0,
    ensures
        shift_term(d1, x, m, shift_term(d2, x, m, t)) == shift_term(d1 + d2, x, m, t),
{
    shift_up_keeps(d2, x, m, t);
    shift_after_keeping(d1, d2, x, m, t);
}

/// Whether `V(y, k)` is what a shift by `delta` over `V(x, c)` makes of a
/// variable that is free in `t`: of `V(x, k - delta)`, where that is shifted,
/// or of `V(y, k)` itself, where that is not.
pub open spec fn mentions_before_shift(
    delta: int,
    x: Seq<char>,
    c: int,
    y: Seq<char>,
    k: int,
    t: Term,
) -> bool {
    if y == x {
        (k - delta >= c && mentions(x, k - delta, t)) || (k < c && mentions(x, k, t))
    } else {
        mentions(y, k, t)
    }
}

/// The free variables of a shifted term are the shifted free variables of the term.
pub proof fn mentions_of_shifted(delta: int, x: Seq<char>, c: int, y: Seq<char>, k: int, t: Term)
    ensures
        mentions(y, k, shift_term(delta, x, c, t)) == mentions_before_shift(delta, x, c, y, k, t),
    decreases t,
{
    match t {
        Term::Lam(z, a, b) => {
            mentions_of_shifted(delta, x, c, y, k, *a);
            mentions_of_shifted(delta, x, below(x, c, z), y, below(y, k, z), *b);
        },
        Term::Pi(z, a, b) => {
            mentions_of_shifted(delta, x, c, y, k, *a);
            mentions_of_shifted(delta, x, below(x, c, z), y, below(y, k, z), *b);
        },
        Term::App(f, args) => {
            mentions_of_shifted(delta, x, c, y, k, *f);
            mentions_of_shifted_terms(delta, x, c, y, k, args);
        },
        Term::Let(z, ty, r, b) => {
            match ty {
                Some(u) => mentions_of_shifted(delta, x, c, y, k, *u),
                None => {},
            }
            mentions_of_shifted(delta, x, c, y, k, *r);
            mentions_of_shifted(delta, x, below(x, c, z), y, below(y, k, z), *b);
        },
        Term::Annot(e, u) => {
            mentions_of_shifted(delta, x, c, y, k, *e);
            mentions_of_shifted(delta, x, c, y, k, *u);
        },
        Term::BoolIf(b, u, e) => {
            mentions_of_shifted(delta, x, c, y, k, *b);
            mentions_of_shifted(delta, x, c, y, k, *u);
            mentions_of_shifted(delta, x, c, y, k, *e);
        },
        Term::EmptyListLit(u) => mentions_of_shifted(delta, x, c, y, k, *u),
        Term::NEListLit(first, rest) => {
            mentions_of_shifted(delta, x, c, y, k, *first);
            mentions_of_shifted_terms(delta, x, c, y, k, rest);
        },
        Term::EmptyOptionalLit(u) => mentions_of_shifted(delta, x, c, y, k, *u),
        Term::NEOptionalLit(e) => mentions_of_shifted(delta, x, c, y, k, *e),
        Term::RecordType(kts) => mentions_of_shifted_fields(delta, x, c, y, k, kts),
        Term::RecordLit(kvs) => mentions_of_shifted_fields(delta, x, c, y, k, kvs),
        Term::UnionType(kts) => mentions_of_shifted_alternatives(delta, x, c, y, k, kts),
        Term::Field(r, _) => mentions_of_shifted(delta, x, c, y, k, *r),
        Term::BinOp(_, l, r) => {
            mentions_of_shifted(delta, x, c, y, k, *l);
            mentions_of_shifted(delta, x, c, y, k, *r);
        },
        _ => {},
    }
}

/// [`mentions_of_shifted`] for the terms of a list.
pub proof fn mentions_of_shifted_terms(
    delta: int,
    x: Seq<char>,
    c: int,
    y: Seq<char>,
    k: int,
    s: Seq<Term>,
)
    ensures
        mentions_in_terms(y, k, shift_terms(delta, x, c, s)) == (if y == x {
            (k - delta >= c && mentions_in_terms(x, k - delta, s)) || (k < c && mentions_in_terms(
                x,
                k,
                s,
            ))
        } else {
            mentions_in_terms(y, k, s)
        }),
    decreases s,
{
    let s2 = shift_terms(delta, x, c, s);
    assert forall|i: int| 0 <= i < s.len() implies mentions(y, k, s2[i]) == mentions_before_shift(
        delta,
        x,
        c,
        y,
        k,
        s[i],
    ) by {
        mentions_of_shifted(delta, x, c, y, k, s[i]);
    }
    if mentions_in_terms(y, k, s2) {
        let i = choose|i: int| 0 <= i < s2.len() && mentions(y, k, #[trigger] s2[i]);
        assert(mentions_before_shift(delta, x, c, y, k, s[i]));
    }
    if y == x {
        if mentions_in_terms(x, k - delta, s) && k - delta >= c {
            let i = choose|i: int| 0 <= i < s.len() && mentions(x, k - delta, #[trigger] s[i]);
            assert(mentions(y, k, s2[i]));
        }
        if mentions_in_terms(x, k, s) && k < c {
            let i = choose|i: int| 0 <= i < s.len() && mentions(x, k, #[trigger] s[i]);
            assert(mentions(y, k, s2[i]));
        }
    } else {
        if mentions_in_terms(y, k, s) {
            let i = choose|i: int| 0 <= i < s.len() && mentions(y, k, #[trigger] s[i]);
            assert(mentions(y, k, s2[i]));
        }
    }
}

/// [`mentions_of_shifted`] for the terms of the entries of a record.
pub proof fn mentions_of_shifted_fields(
    delta: int,
    x: Seq<char>,
    c: int,
    y: Seq<char>,
    k: int,
    s: Seq<(Seq<char>, Term)>,
)
    ensures
        mentions_in_fields(y, k, shift_fields(delta, x, c, s)) == (if y == x {
            (k - delta >= c && mentions_in_fields(x, k - delta, s)) || (k < c
                && mentions_in_fields(x, k, s))
        } else {
            mentions_in_fields(y, k, s)
        }),
    decreases s,
{
    let s2 = shift_fields(delta, x, c, s);
    assert forall|i: int| 0 <= i < s.len() implies mentions(y, k, s2[i].1)
        == mentions_before_shift(delta, x, c, y, k, s[i].1) by {
        mentions_of_shifted(delta, x, c, y, k, s[i].1);
    }
    if mentions_in_fields(y, k, s2) {
        let i = choose|i: int| 0 <= i < s2.len() && mentions(y, k, (#[trigger] s2[i]).1);
        assert(mentions_before_shift(delta, x, c, y, k, s[i].1));
    }
    if y == x {
        if mentions_in_fields(x, k - delta, s) && k - delta >= c {
            let i = choose|i: int| 0 <= i < s.len() && mentions(x, k - delta, (#[trigger] s[i]).1);
            assert(mentions(y, k, s2[i].1));
        }
        if mentions_in_fields(x, k, s) && k < c {
            let i = choose|i: int| 0 <= i < s.len() && mentions(x, k, (#[trigger] s[i]).1);
            assert(mentions(y, k, s2[i].1));
        }
    } else {
        if mentions_in_fields(y, k, s) {
            let i = choose|i: int| 0 <= i < s.len() && mentions(y, k, (#[trigger] s[i]).1);
            assert(mentions(y, k, s2[i].1));
        }
    }
}

/// [`mentions_of_shifted`] for the payloads of the alternatives of a union.
pub proof fn mentions_of_shifted_alternatives(
    delta: int,
    x: Seq<char>,
    c: int,
    y: Seq<char>,
    k: int,
    s: Seq<(Seq<char>, Option<Term>)>,
)
    ensures
        mentions_in_alternatives(y, k, shift_alternatives(delta, x, c, s)) == (if y == x {
            (k - delta >= c && mentions_in_alternatives(x, k - delta, s)) || (k < c
                && mentions_in_alternatives(x, k, s))
        } else {
            mentions_in_alternatives(y, k, s)
        }),
    decreases s,
{
    let s2 = shift_alternatives(delta, x, c, s);
    assert forall|i: int| 0 <= i < s.len() implies mentions_in_payload(y, k, s2[i].1) == (if y
        == x {
        (k - delta >= c && mentions_in_payload(x, k - delta, s[i].1)) || (k < c
            && mentions_in_payload(x, k, s[i].1))
    } else {
        mentions_in_payload(y, k, s[i].1)
    }) by {
        match s[i].1 {
            Some(u) => mentions_of_shifted(delta, x, c, y, k, u),
            None => {},
        }
    }
    if mentions_in_alternatives(y, k, s2) {
        let i = choose|i: int|
            0 <= i < s2.len() && match (#[trigger] s2[i]).1 {
                Some(u) => mentions(y, k, u),
                None => false,
            };
        assert(mentions_in_payload(y, k, s2[i].1));
        assert(mentions_in_payload(x, k - delta, s[i].1) || mentions_in_payload(x, k, s[i].1)
            || mentions_in_payload(y, k, s[i].1));
    }
    if y == x {
        if mentions_in_alternatives(x, k - delta, s) && k - delta >= c {
            let i = choose|i: int|
                0 <= i < s.len() && match (#[trigger] s[i]).1 {
                    Some(u) => mentions(x, k - delta, u),
                    None => false,
                };
            assert(mentions_in_payload(y, k, s2[i].1));
        }
        if mentions_in_alternatives(x, k, s) && k < c {
            let i = choose|i: int|
                0 <= i < s.len() && match (#[trigger] s[i]).1 {
                    Some(u) => mentions(x, k, u),
                    None => false,
                };
            assert(mentions_in_payload(y, k, s2[i].1));
        }
    } else {
        if mentions_in_alternatives(y, k, s) {
            let i = choose|i: int|
                0 <= i < s.len() && match (#[trigger] s[i]).1 {
                    Some(u) => mentions(y, k, u),
                    None => false,
                };
            assert(mentions_in_payload(y, k, s2[i].1));
        }
    }
}

/// A term shifted up by one over a variable does not mention that variable.
pub proof fn shifted_does_not_mention(x: Seq<char>, n: int, t: Term)
    ensures
        !mentions(x, n, shift_term(1, x, n, t)),
{
    mentions_of_shifted(1, x, n, x, n, t);
}

/// A shift down by one over a variable that a term does not mention keeps
/// every index it changes at or above the index of that variable.
pub proof fn shift_down_keeps(x: Seq<char>, n: int, t: Term)
    requires
        !mentions(x, n, t),
    ensures
        shift_keeps(-1, x, n, t),
    decreases t,
{
    match t {
        Term::Lam(z, a, b) => {
            shift_down_keeps(x, n, *a);
            shift_down_keeps(x, below(x, n, z), *b);
        },
        Term::Pi(z, a, b) => {
            shift_down_keeps(x, n, *a);
            shift_down_keeps(x, below(x, n, z), *b);
        },
        Term::App(f, args) => {
            shift_down_keeps(x, n, *f);
            assert(!mentions_in_terms(x, n, args));
            assert forall|i: int| 0 <= i < args.len() implies shift_keeps(
                -1,
                x,
                n,
                #[trigger] args[i],
            ) by {
                shift_down_keeps(x, n, args[i]);
            }
        },
        Term::Let(z, ty, r, b) => {
            match ty {
                Some(u) => shift_down_keeps(x, n, *u),
                None => {},
            }
            shift_down_keeps(x, n, *r);
            shift_down_keeps(x, below(x, n, z), *b);
        },
        Term::Annot(e, u) => {
            shift_down_keeps(x, n, *e);
            shift_down_keeps(x, n, *u);
        },
        Term::BoolIf(c, u, e) => {
            shift_down_keeps(x, n, *c);
            shift_down_keeps(x, n, *u);
            shift_down_keeps(x, n, *e);
        },
        Term::EmptyListLit(u) => shift_down_keeps(x, n, *u),
        Term::NEListLit(first, rest) => {
            shift_down_keeps(x, n, *first);
            assert(!mentions_in_terms(x, n, rest));
            assert forall|i: int| 0 <= i < rest.len() implies shift_keeps(
                -1,
                x,
                n,
                #[trigger] rest[i],
            ) by {
                shift_down_keeps(x, n, rest[i]);
            }
        },
        Term::EmptyOptionalLit(u) => shift_down_keeps(x, n, *u),
        Term::NEOptionalLit(e) => shift_down_keeps(x, n, *e),
        Term::RecordType(kts) => {
            assert(!mentions_in_fields(x, n, kts));
            assert forall|i: int| 0 <= i < kts.len() implies shift_keeps(
                -1,
                x,
                n,
                (#[trigger] kts[i]).1,
            ) by {
                shift_down_keeps(x, n, kts[i].1);
            }
        },
        Term::RecordLit(kvs) => {
            assert(!mentions_in_fields(x, n, kvs));
            assert forall|i: int| 0 <= i < kvs.len() implies shift_keeps(
                -1,
                x,
                n,
                (#[trigger] kvs[i]).1,
            ) by {
                shift_down_keeps(x, n, kvs[i].1);
            }
        },
        Term::UnionType(kts) => {
            assert(!mentions_in_alternatives(x, n, kts));
            assert forall|i: int| 0 <= i < kts.len() implies match (#[trigger] kts[i]).1 {
                Some(u) => shift_keeps(-1, x, n, u),
                None => true,
            } by {
                match kts[i].1 {
                    Some(u) => shift_down_keeps(x, n, u),
                    None => {},
                }
            }
        },
        Term::Field(r, _) => shift_down_keeps(x, n, *r),
        Term::BinOp(_, l, r) => {
            shift_down_keeps(x, n, *l);
            shift_down_keeps(x, n, *r);
        },
        _ => {},
    }
}

} // verus!
