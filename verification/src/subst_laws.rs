//! Where a substitution finds nothing to replace, and what it leaves behind.

use crate::shift::{below, shift_term};
use crate::shift_laws::{
    mentions, mentions_in_alternatives, mentions_in_fields, mentions_in_terms, mentions_of_shifted,
    shift_by_zero, shift_composition, shift_down_keeps, shift_keeps, shifted_does_not_mention,
};
use crate::subst::{subst_alternatives, subst_fields, subst_shifted, subst_term, subst_terms};
use crate::syntax::Term;
use vstd::prelude::*;

verus! {

/// A substitution for a variable that does not occur changes nothing.
pub proof fn subst_absent(x: Seq<char>, n: int, value: Term, t: Term)
    requires
        !mentions(x, n, t),
    ensures
        subst_term(x, n, value, t) == t,
    decreases t,
{
    match t {
        Term::Lam(y, a, b) => {
            subst_absent(x, n, value, *a);
            subst_absent(x, below(x, n, y), shift_term(1, y, 0, value), *b);
        },
        Term::Pi(y, a, b) => {
            subst_absent(x, n, value, *a);
            subst_absent(x, below(x, n, y), shift_term(1, y, 0, value), *b);
        },
        Term::App(f, args) => {
            subst_absent(x, n, value, *f);
            assert(!mentions_in_terms(x, n, args));
            assert forall|i: int| 0 <= i < args.len() implies subst_term(x, n, value, args[i])
                == #[trigger] args[i] by {
                subst_absent(x, n, value, args[i]);
            }
            assert(subst_terms(x, n, value, args) =~= args);
        },
        Term::Let(y, ty, r, b) => {
            match ty {
                Some(u) => subst_absent(x, n, value, *u),
                None => {},
            }
            subst_absent(x, n, value, *r);
            subst_absent(x, below(x, n, y), shift_term(1, y, 0, value), *b);
        },
        Term::Annot(e, u) => {
            subst_absent(x, n, value, *e);
            subst_absent(x, n, value, *u);
        },
        Term::BoolIf(c, u, e) => {
            subst_absent(x, n, value, *c);
            subst_absent(x, n, value, *u);
            subst_absent(x, n, value, *e);
        },
        Term::EmptyListLit(u) => subst_absent(x, n, value, *u),
        Term::NEListLit(first, rest) => {
            subst_absent(x, n, value, *first);
            assert(!mentions_in_terms(x, n, rest));
            assert forall|i: int| 0 <= i < rest.len() implies subst_term(x, n, value, rest[i])
                == #[trigger] rest[i] by {
                subst_absent(x, n, value, rest[i]);
            }
            assert(subst_terms(x, n, value, rest) =~= rest);
        },
        Term::EmptyOptionalLit(u) => subst_absent(x, n, value, *u),
        Term::NEOptionalLit(e) => subst_absent(x, n, value, *e),
        Term::RecordType(kts) => {
            assert(!mentions_in_fields(x, n, kts));
            assert forall|i: int| 0 <= i < kts.len() implies subst_term(
                x,
                n,
                value,
                (#[trigger] kts[i]).1,
            ) == kts[i].1 by {
                subst_absent(x, n, value, kts[i].1);
            }
            assert(subst_fields(x, n, value, kts) =~= kts);
        },
        Term::RecordLit(kvs) => {
            assert(!mentions_in_fields(x, n, kvs));
            assert forall|i: int| 0 <= i < kvs.len() implies subst_term(
                x,
                n,
                value,
                (#[trigger] kvs[i]).1,
            ) == kvs[i].1 by {
                subst_absent(x, n, value, kvs[i].1);
            }
            assert(subst_fields(x, n, value, kvs) =~= kvs);
        },
        Term::UnionType(kts) => {
            assert(!mentions_in_alternatives(x, n, kts));
            assert forall|i: int| 0 <= i < kts.len() implies (match (#[trigger] kts[i]).1 {
                Some(u) => subst_term(x, n, value, u) == u,
                None => true,
            }) by {
                match kts[i].1 {
                    Some(u) => subst_absent(x, n, value, u),
                    None => {},
                }
            }
            assert(subst_alternatives(x, n, value, kts) =~= kts);
        },
        Term::Field(r, _) => subst_absent(x, n, value, *r),
        Term::BinOp(_, l, r) => {
            subst_absent(x, n, value, *l);
            subst_absent(x, n, value, *r);
        },
        _ => {},
    }
}

/// A substitution for `V(x, 0)` in a function whose parameter is named `x`
/// looks for `V(x, 1)` in the body: the occurrences of `V(x, 0)` there refer
/// to the parameter and stay. A body that mentions no `V(x, 1)` stays as a whole.
pub proof fn subst_under_binder(x: Seq<char>, a: Term, body: Term, value: Term)
    ensures
        subst_term(x, 0, value, Term::Lam(x, Box::new(a), Box::new(body))) == Term::Lam(
            x,
            Box::new(subst_term(x, 0, value, a)),
            Box::new(subst_term(x, 1, shift_term(1, x, 0, value), body)),
        ),
        subst_term(x, 1, shift_term(1, x, 0, value), Term::Var(x, 0)) == Term::Var(x, 0),
        !mentions(x, 1, body) ==> subst_term(
            x,
            0,
            value,
            Term::Lam(x, Box::new(a), Box::new(body)),
        ) == Term::Lam(x, Box::new(subst_term(x, 0, value, a)), Box::new(body)),
{
    if !mentions(x, 1, body) {
        subst_absent(x, 1, shift_term(1, x, 0, value), body);
    }
}

/// A substitution of a value that does not mention the variable leaves no
/// occurrence of the variable.
pub proof fn subst_removes(x: Seq<char>, n: int, value: Term, t: Term)
    requires
        n >= 0,
        !mentions(x, n, value),
    ensures
        !mentions(x, n, subst_term(x, n, value, t)),
    decreases t,
{
    match t {
        Term::Lam(z, a, b) => {
            subst_removes(x, n, value, *a);
            mentions_of_shifted(1, z, 0, x, below(x, n, z), value);
            subst_removes(x, below(x, n, z), shift_term(1, z, 0, value), *b);
        },
        Term::Pi(z, a, b) => {
            subst_removes(x, n, value, *a);
            mentions_of_shifted(1, z, 0, x, below(x, n, z), value);
            subst_removes(x, below(x, n, z), shift_term(1, z, 0, value), *b);
        },
        Term::App(f, args) => {
            subst_removes(x, n, value, *f);
            subst_removes_terms(x, n, value, args);
        },
        Term::Let(z, ty, r, b) => {
            match ty {
                Some(u) => subst_removes(x, n, value, *u),
                None => {},
            }
            subst_removes(x, n, value, *r);
            mentions_of_shifted(1, z, 0, x, below(x, n, z), value);
            subst_removes(x, below(x, n, z), shift_term(1, z, 0, value), *b);
        },
        Term::Annot(e, u) => {
            subst_removes(x, n, value, *e);
            subst_removes(x, n, value, *u);
        },
        Term::BoolIf(c, u, e) => {
            subst_removes(x, n, value, *c);
            subst_removes(x, n, value, *u);
            subst_removes(x, n, value, *e);
        },
        Term::EmptyListLit(u) => subst_removes(x, n, value, *u),
        Term::NEListLit(first, rest) => {
            subst_removes(x, n, value, *first);
            subst_removes_terms(x, n, value, rest);
        },
        Term::EmptyOptionalLit(u) => subst_removes(x, n, value, *u),
        Term::NEOptionalLit(e) => subst_removes(x, n, value, *e),
        Term::RecordType(kts) => subst_removes_fields(x, n, value, kts),
        Term::RecordLit(kvs) => subst_removes_fields(x, n, value, kvs),
        Term::UnionType(kts) => {
            let s2 = subst_alternatives(x, n, value, kts);
            if mentions_in_alternatives(x, n, s2) {
                let i = choose|i: int|
                    0 <= i < s2.len() && match (#[trigger] s2[i]).1 {
                        Some(u) => mentions(x, n, u),
                        None => false,
                    };
                match kts[i].1 {
                    Some(u) => subst_removes(x, n, value, u),
                    None => {},
                }
            }
        },
        Term::Field(r, _) => subst_removes(x, n, value, *r),
        Term::BinOp(_, l, r) => {
            subst_removes(x, n, value, *l);
            subst_removes(x, n, value, *r);
        },
        _ => {},
    }
}

/// [`subst_removes`] for the terms of a list.
pub proof fn subst_removes_terms(x: Seq<char>, n: int, value: Term, s: Seq<Term>)
    requires
        n >= 0,
        !mentions(x, n, value),
    ensures
        !mentions_in_terms(x, n, subst_terms(x, n, value, s)),
    decreases s,
{
    let s2 = subst_terms(x, n, value, s);
    if mentions_in_terms(x, n, s2) {
        let i = choose|i: int| 0 <= i < s2.len() && mentions(x, n, #[trigger] s2[i]);
        subst_removes(x, n, value, s[i]);
    }
}

/// [`subst_removes`] for the terms of the entries of a record.
pub proof fn subst_removes_fields(x: Seq<char>, n: int, value: Term, s: Seq<(Seq<char>, Term)>)
    requires
        n >= 0,
        !mentions(x, n, value),
    ensures
        !mentions_in_fields(x, n, subst_fields(x, n, value, s)),
    decreases s,
{
    let s2 = subst_fields(x, n, value, s);
    if mentions_in_fields(x, n, s2) {
        let i = choose|i: int| 0 <= i < s2.len() && mentions(x, n, (#[trigger] s2[i]).1);
        subst_removes(x, n, value, s[i].1);
    }
}

/// Taking a term out of a binder captures nothing: once the value, shifted
/// up, has taken the place of the variable, the variable is gone, and the
/// shift back down moves no index below that of the variable. Shifting the
/// result up again gives back the term after the substitution.
pub proof fn subst_shift_captures_nothing(x: Seq<char>, n: int, value: Term, t: Term)
    requires
        n >= 0,
    ensures
        !mentions(x, n, subst_term(x, n, shift_term(1, x, n, value), t)),
        shift_keeps(-1, x, n, subst_term(x, n, shift_term(1, x, n, value), t)),
        shift_term(1, x, n, subst_shifted(x, n, value, t)) == subst_term(
            x,
            n,
            shift_term(1, x, n, value),
            t,
        ),
{
    let lifted = shift_term(1, x, n, value);
    shifted_does_not_mention(x, n, value);
    subst_removes(x, n, lifted, t);
    shift_down_keeps(x, n, subst_term(x, n, lifted, t));
    shift_composition(1, -1, x, n, subst_term(x, n, lifted, t));
    shift_by_zero(x, n, subst_term(x, n, lifted, t));
}

/// A substitution brings in no variable: a variable that is free in the
/// result is free in the term or in the value.
pub proof fn subst_adds_no_variable(
    x: Seq<char>,
    n: int,
    value: Term,
    t: Term,
    y: Seq<char>,
    j: int,
)
    requires
        j >= 0,
        mentions(y, j, subst_term(x, n, value, t)),
    ensures
        mentions(y, j, t) || mentions(y, j, value),
    decreases t, 0nat,
{
    match t {
        Term::Lam(z, a, b) => {
            if mentions(y, j, subst_term(x, n, value, *a)) {
                subst_adds_no_variable(x, n, value, *a, y, j);
            } else {
                subst_adds_no_variable_below(x, n, value, z, *b, y, j);
            }
        },
        Term::Pi(z, a, b) => {
            if mentions(y, j, subst_term(x, n, value, *a)) {
                subst_adds_no_variable(x, n, value, *a, y, j);
            } else {
                subst_adds_no_variable_below(x, n, value, z, *b, y, j);
            }
        },
        Term::App(f, args) => {
            if mentions(y, j, subst_term(x, n, value, *f)) {
                subst_adds_no_variable(x, n, value, *f, y, j);
            } else {
                subst_adds_no_variable_terms(x, n, value, args, y, j);
            }
        },
        Term::Let(z, ty, r, b) => {
            if ty is Some && mentions(y, j, subst_term(x, n, value, *ty->0)) {
                subst_adds_no_variable(x, n, value, *ty->0, y, j);
            } else if mentions(y, j, subst_term(x, n, value, *r)) {
                subst_adds_no_variable(x, n, value, *r, y, j);
            } else {
                subst_adds_no_variable_below(x, n, value, z, *b, y, j);
            }
        },
        Term::Annot(e, u) => {
            if mentions(y, j, subst_term(x, n, value, *e)) {
                subst_adds_no_variable(x, n, value, *e, y, j);
            } else {
                subst_adds_no_variable(x, n, value, *u, y, j);
            }
        },
        Term::BoolIf(c, u, e) => {
            if mentions(y, j, subst_term(x, n, value, *c)) {
                subst_adds_no_variable(x, n, value, *c, y, j);
            } else if mentions(y, j, subst_term(x, n, value, *u)) {
                subst_adds_no_variable(x, n, value, *u, y, j);
            } else {
                subst_adds_no_variable(x, n, value, *e, y, j);
            }
        },
        Term::EmptyListLit(u) => subst_adds_no_variable(x, n, value, *u, y, j),
        Term::NEListLit(first, rest) => {
            if mentions(y, j, subst_term(x, n, value, *first)) {
                subst_adds_no_variable(x, n, value, *first, y, j);
            } else {
                subst_adds_no_variable_terms(x, n, value, rest, y, j);
            }
        },
        Term::EmptyOptionalLit(u) => subst_adds_no_variable(x, n, value, *u, y, j),
        Term::NEOptionalLit(e) => subst_adds_no_variable(x, n, value, *e, y, j),
        Term::RecordType(kts) => subst_adds_no_variable_fields(x, n, value, kts, y, j),
        Term::RecordLit(kvs) => subst_adds_no_variable_fields(x, n, value, kvs, y, j),
        Term::UnionType(kts) => {
            let s2 = subst_alternatives(x, n, value, kts);
            assert(mentions_in_alternatives(y, j, s2));
            let i = choose|i: int|
                0 <= i < s2.len() && match (#[trigger] s2[i]).1 {
                    Some(u) => mentions(y, j, u),
                    None => false,
                };
            match kts[i].1 {
                Some(u) => {
                    subst_adds_no_variable(x, n, value, u, y, j);
                    if mentions(y, j, u) {
                        assert(mentions_in_alternatives(y, j, kts));
                    }
                },
                None => {},
            }
        },
        Term::Field(r, _) => subst_adds_no_variable(x, n, value, *r, y, j),
        Term::BinOp(_, l, r) => {
            if mentions(y, j, subst_term(x, n, value, *l)) {
                subst_adds_no_variable(x, n, value, *l, y, j);
            } else {
                subst_adds_no_variable(x, n, value, *r, y, j);
            }
        },
        _ => {},
    }
}

/// [`subst_adds_no_variable`] for the body of a binder named `z`.
pub proof fn subst_adds_no_variable_below(
    x: Seq<char>,
    n: int,
    value: Term,
    z: Seq<char>,
    body: Term,
    y: Seq<char>,
    j: int,
)
    requires
        j >= 0,
        mentions(
            y,
            below(y, j, z),
            subst_term(x, below(x, n, z), shift_term(1, z, 0, value), body),
        ),
    ensures
        mentions(y, below(y, j, z), body) || mentions(y, j, value),
    decreases body, 1nat,
{
    subst_adds_no_variable(
        x,
        below(x, n, z),
        shift_term(1, z, 0, value),
        body,
        y,
        below(y, j, z),
    );
    mentions_of_shifted(1, z, 0, y, below(y, j, z), value);
}

/// [`subst_adds_no_variable`] for the terms of a list.
pub proof fn subst_adds_no_variable_terms(
    x: Seq<char>,
    n: int,
    value: Term,
    s: Seq<Term>,
    y: Seq<char>,
    j: int,
)
    requires
        j >= 0,
        mentions_in_terms(y, j, subst_terms(x, n, value, s)),
    ensures
        mentions_in_terms(y, j, s) || mentions(y, j, value),
    decreases s, 0nat,
{
    let s2 = subst_terms(x, n, value, s);
    let i = choose|i: int| 0 <= i < s2.len() && mentions(y, j, #[trigger] s2[i]);
    subst_adds_no_variable(x, n, value, s[i], y, j);
    if mentions(y, j, s[i]) {
        assert(mentions_in_terms(y, j, s));
    }
}

/// [`subst_adds_no_variable`] for the terms of the entries of a record.
pub proof fn subst_adds_no_variable_fields(
    x: Seq<char>,
    n: int,
    value: Term,
    s: Seq<(Seq<char>, Term)>,
    y: Seq<char>,
    j: int,
)
    requires
        j >= 0,
        mentions_in_fields(y, j, subst_fields(x, n, value, s)),
    ensures
        mentions_in_fields(y, j, s) || mentions(y, j, value),
    decreases s, 0nat,
{
    let s2 = subst_fields(x, n, value, s);
    let i = choose|i: int| 0 <= i < s2.len() && mentions(y, j, (#[trigger] s2[i]).1);
    subst_adds_no_variable(x, n, value, s[i].1, y, j);
    if mentions(y, j, s[i].1) {
        assert(mentions_in_fields(y, j, s));
    }
}

/// The free variables of a term taken out of a binder named `x` are free in
/// the value, or are, seen from below the binder, free in the term.
pub proof fn subst_shift_adds_no_variable(
    x: Seq<char>,
    value: Term,
    t: Term,
    y: Seq<char>,
    k: int,
)
    requires
        k >= 0,
        mentions(y, k, subst_shifted(x, 0, value, t)),
    ensures
        mentions(y, below(y, k, x), t) || mentions(y, k, value),
{
    let lifted = shift_term(1, x, 0, value);
    let replaced = subst_term(x, 0, lifted, t);
    mentions_of_shifted(-1, x, 0, y, k, replaced);
    subst_adds_no_variable(x, 0, lifted, t, y, below(y, k, x));
    mentions_of_shifted(1, x, 0, y, below(y, k, x), value);
}

} // verus!
