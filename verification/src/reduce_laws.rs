//! What the reducing normalizer keeps: the order of the entries of records
//! and unions, and the variables of a term.

use crate::normalize::{normalizer_adds_no_variable, normalizer_keeps_form, Normalizer};
use crate::records::{alternative_labels, field_labels, well_formed, well_formed_fields};
use crate::records_laws::{field_found, subst_shift_keeps_form};
use crate::reduce::{
    applied_all, reduced, reduced_alternatives, reduced_fields, reduced_terms, selected, stuck,
    Reducer,
};
use crate::shift::below;
use crate::shift_laws::{
    mentions, mentions_in_alternatives, mentions_in_fields, mentions_in_terms,
};
use crate::subst::subst_shifted;
use crate::subst_laws::subst_shift_adds_no_variable;
use crate::syntax::Term;
use crate::typecheck::field_from;
use vstd::prelude::*;

verus! {

/// An application that is not reduced further is well formed where its
/// head and its arguments are.
pub proof fn stuck_keeps_form(head: Term, rest: Seq<Term>)
    requires
        well_formed(head),
        forall|i: int| 0 <= i < rest.len() ==> well_formed(#[trigger] rest[i]),
    ensures
        well_formed(stuck(head, rest)),
{
    match head {
        Term::App(g, gs) => {
            let all = gs + rest;
            assert forall|i: int| 0 <= i < all.len() implies well_formed(#[trigger] all[i]) by {
                if i < gs.len() {
                    assert(all[i] == gs[i]);
                } else {
                    assert(all[i] == rest[i - gs.len()]);
                }
            }
            assert(stuck(head, rest)->App_1 == all);
        },
        _ => {
            assert(stuck(head, rest)->App_1 == rest);
        },
    }
}

/// The field selected from a well-formed term is well formed.
pub proof fn selected_keeps_form(r: Term, l: Seq<char>)
    requires
        well_formed(r),
    ensures
        well_formed(selected(r, l)),
{
    match r {
        Term::RecordLit(kvs) => {
            assert(well_formed_fields(kvs));
            if field_from(kvs, l, 0) is Some {
                let i = field_found(kvs, l, 0);
                assert(well_formed(kvs[i].1));
            } else {
                assert(selected(r, l) == Term::Field(Box::new(r), l));
            }
        },
        _ => {
            assert(selected(r, l) == Term::Field(Box::new(r), l));
        },
    }
}

/// Applying a well-formed head to well-formed arguments gives a well-formed term.
pub proof fn applied_all_keeps_form(fuel: nat, head: Term, args: Seq<Term>, i: int)
    requires
        well_formed(head),
        forall|j: int| 0 <= j < args.len() ==> well_formed(#[trigger] args[j]),
    ensures
        well_formed(applied_all(fuel, head, args, i)),
    decreases fuel, 0nat, head,
{
    if 0 <= i < args.len() {
        let rest = args.skip(i);
        assert forall|j: int| 0 <= j < rest.len() implies well_formed(#[trigger] rest[j]) by {
            assert(rest[j] == args[i + j]);
        }
        stuck_keeps_form(head, rest);
        match head {
            Term::Lam(x, _, b) => {
                if fuel > 0 {
                    subst_shift_keeps_form(x, 0, args[i], *b);
                    reduced_keeps_form((fuel - 1) as nat, subst_shifted(x, 0, args[i], *b));
                    applied_all_keeps_form(
                        (fuel - 1) as nat,
                        reduced((fuel - 1) as nat, subst_shifted(x, 0, args[i], *b)),
                        args,
                        i + 1,
                    );
                }
            },
            _ => {},
        }
    }
}

/// Reducing keeps the entries of records and unions in order.
pub proof fn reduced_keeps_form(fuel: nat, t: Term)
    requires
        well_formed(t),
    ensures
        well_formed(reduced(fuel, t)),
    decreases fuel, 1nat, t,
{
    match t {
        Term::Lam(_, a, b) => {
            reduced_keeps_form(fuel, *a);
            reduced_keeps_form(fuel, *b);
        },
        Term::Pi(_, a, b) => {
            reduced_keeps_form(fuel, *a);
            reduced_keeps_form(fuel, *b);
        },
        Term::App(f, args) => {
            reduced_keeps_form(fuel, *f);
            let s2 = reduced_terms(fuel, args);
            assert forall|i: int| 0 <= i < s2.len() implies well_formed(#[trigger] s2[i]) by {
                reduced_keeps_form(fuel, args[i]);
            }
            applied_all_keeps_form(fuel, reduced(fuel, *f), s2, 0);
        },
        Term::Let(x, ty, r, b) => {
            if fuel > 0 {
                subst_shift_keeps_form(x, 0, *r, *b);
                reduced_keeps_form((fuel - 1) as nat, subst_shifted(x, 0, *r, *b));
            }
            match ty {
                Some(u) => reduced_keeps_form(fuel, *u),
                None => {},
            }
            reduced_keeps_form(fuel, *r);
            reduced_keeps_form(fuel, *b);
        },
        Term::Annot(e, _) => reduced_keeps_form(fuel, *e),
        Term::BoolIf(c, y, z) => {
            reduced_keeps_form(fuel, *c);
            reduced_keeps_form(fuel, *y);
            reduced_keeps_form(fuel, *z);
        },
        Term::EmptyListLit(u) => reduced_keeps_form(fuel, *u),
        Term::NEListLit(first, rest) => {
            reduced_keeps_form(fuel, *first);
            let s2 = reduced_terms(fuel, rest);
            assert(s2.len() == rest.len());
            assert forall|i: int| 0 <= i < s2.len() implies well_formed(#[trigger] s2[i]) by {
                reduced_keeps_form(fuel, rest[i]);
            }
            assert(reduced(fuel, t)->NEListLit_1 == s2);
        },
        Term::EmptyOptionalLit(u) => reduced_keeps_form(fuel, *u),
        Term::NEOptionalLit(e) => reduced_keeps_form(fuel, *e),
        Term::RecordType(kts) => reduced_keeps_fields(fuel, kts),
        Term::RecordLit(kvs) => reduced_keeps_fields(fuel, kvs),
        Term::UnionType(kts) => {
            let s2 = reduced_alternatives(fuel, kts);
            assert(alternative_labels(s2) =~= alternative_labels(kts));
            assert forall|i: int| 0 <= i < s2.len() implies match (#[trigger] s2[i]).1 {
                Some(u) => well_formed(u),
                None => true,
            } by {
                match kts[i].1 {
                    Some(u) => reduced_keeps_form(fuel, u),
                    None => {},
                }
            }
        },
        Term::Field(r, l) => {
            reduced_keeps_form(fuel, *r);
            selected_keeps_form(reduced(fuel, *r), l);
        },
        Term::BinOp(_, l, r) => {
            reduced_keeps_form(fuel, *l);
            reduced_keeps_form(fuel, *r);
        },
        _ => {},
    }
}

/// [`reduced_keeps_form`] for the entries of a record.
pub proof fn reduced_keeps_fields(fuel: nat, s: Seq<(Seq<char>, Term)>)
    requires
        well_formed_fields(s),
    ensures
        well_formed_fields(reduced_fields(fuel, s)),
    decreases fuel, 1nat, s,
{
    let s2 = reduced_fields(fuel, s);
    assert(field_labels(s2) =~= field_labels(s));
    assert forall|i: int| 0 <= i < s2.len() implies well_formed((#[trigger] s2[i]).1) by {
        reduced_keeps_form(fuel, s[i].1);
    }
}

/// The reducing normalizer keeps the entries of records and unions in order.
pub proof fn reducer_keeps_form(reducer: Reducer)
    ensures
        normalizer_keeps_form(reducer),
{
    assert forall|t: Term| well_formed(t) implies well_formed(
        #[trigger] reducer.normal_form(t),
    ) by {
        reduced_keeps_form(reducer.fuel as nat, t);
    }
}

/// The variables of an application that is not reduced further are those
/// of its head and of its arguments.
pub proof fn stuck_adds_no_variable(head: Term, rest: Seq<Term>, y: Seq<char>, k: int)
    requires
        mentions(y, k, stuck(head, rest)),
    ensures
        mentions(y, k, head) || mentions_in_terms(y, k, rest),
{
    match head {
        Term::App(g, gs) => {
            let all = gs + rest;
            if !mentions(y, k, *g) {
                assert(mentions_in_terms(y, k, all));
                let i = choose|i: int| 0 <= i < all.len() && mentions(y, k, #[trigger] all[i]);
                if i < gs.len() {
                    assert(all[i] == gs[i]);
                    assert(mentions_in_terms(y, k, gs));
                } else {
                    assert(all[i] == rest[i - gs.len()]);
                    assert(mentions_in_terms(y, k, rest));
                }
            }
        },
        _ => {},
    }
}

/// The variables of a selected field are variables of the term it is selected from.
pub proof fn selected_adds_no_variable(r: Term, l: Seq<char>, y: Seq<char>, k: int)
    requires
        mentions(y, k, selected(r, l)),
    ensures
        mentions(y, k, r),
{
    match r {
        Term::RecordLit(kvs) => {
            if field_from(kvs, l, 0) is Some {
                let i = field_found(kvs, l, 0);
                assert(mentions(y, k, kvs[i].1));
                assert(mentions_in_fields(y, k, kvs));
            }
        },
        _ => {},
    }
}

/// Applying a head to arguments brings in no variable.
pub proof fn applied_all_adds_no_variable(
    fuel: nat,
    head: Term,
    args: Seq<Term>,
    i: int,
    y: Seq<char>,
    k: int,
)
    requires
        k >= 0,
        mentions(y, k, applied_all(fuel, head, args, i)),
    ensures
        mentions(y, k, head) || mentions_in_terms(y, k, args),
    decreases fuel, 0nat, head,
{
    if 0 <= i < args.len() {
        let rest = args.skip(i);
        let reduces = match head {
            Term::Lam(x, _, b) => fuel > 0 && crate::subst::subst_shift_fits(x, 0, args[i], *b),
            _ => false,
        };
        if reduces {
            let x = head->Lam_0;
            let b = *head->Lam_2;
            let body = subst_shifted(x, 0, args[i], b);
            let next = reduced((fuel - 1) as nat, body);
            applied_all_adds_no_variable((fuel - 1) as nat, next, args, i + 1, y, k);
            if mentions(y, k, next) {
                reduced_adds_no_variable((fuel - 1) as nat, body, y, k);
                subst_shift_adds_no_variable(x, args[i], b, y, k);
                if mentions(y, k, args[i]) {
                    assert(mentions_in_terms(y, k, args));
                }
            }
        } else {
            stuck_adds_no_variable(head, rest, y, k);
            if mentions_in_terms(y, k, rest) {
                let j = choose|j: int| 0 <= j < rest.len() && mentions(y, k, #[trigger] rest[j]);
                assert(rest[j] == args[i + j]);
                assert(mentions_in_terms(y, k, args));
            }
        }
    }
}

/// Reducing brings in no variable: a variable that is free in the reduced
/// term is free in the term.
pub proof fn reduced_adds_no_variable(fuel: nat, t: Term, y: Seq<char>, k: int)
    requires
        k >= 0,
        mentions(y, k, reduced(fuel, t)),
    ensures
        mentions(y, k, t),
    decreases fuel, 1nat, t,
{
    match t {
        Term::Lam(x, a, b) => {
            if mentions(y, k, reduced(fuel, *a)) {
                reduced_adds_no_variable(fuel, *a, y, k);
            } else {
                reduced_adds_no_variable(fuel, *b, y, below(y, k, x));
            }
        },
        Term::Pi(x, a, b) => {
            if mentions(y, k, reduced(fuel, *a)) {
                reduced_adds_no_variable(fuel, *a, y, k);
            } else {
                reduced_adds_no_variable(fuel, *b, y, below(y, k, x));
            }
        },
        Term::App(f, args) => {
            let s2 = reduced_terms(fuel, args);
            applied_all_adds_no_variable(fuel, reduced(fuel, *f), s2, 0, y, k);
            if mentions(y, k, reduced(fuel, *f)) {
                reduced_adds_no_variable(fuel, *f, y, k);
            } else {
                let i = choose|i: int| 0 <= i < s2.len() && mentions(y, k, #[trigger] s2[i]);
                reduced_adds_no_variable(fuel, args[i], y, k);
                assert(mentions_in_terms(y, k, args));
            }
        },
        Term::Let(x, ty, r, b) => {
            if fuel > 0 && crate::subst::subst_shift_fits(x, 0, *r, *b) {
                reduced_adds_no_variable((fuel - 1) as nat, subst_shifted(x, 0, *r, *b), y, k);
                subst_shift_adds_no_variable(x, *r, *b, y, k);
            } else {
                if ty is Some && mentions(y, k, reduced(fuel, *ty->0)) {
                    reduced_adds_no_variable(fuel, *ty->0, y, k);
                } else if mentions(y, k, reduced(fuel, *r)) {
                    reduced_adds_no_variable(fuel, *r, y, k);
                } else {
                    reduced_adds_no_variable(fuel, *b, y, below(y, k, x));
                }
            }
        },
        Term::Annot(e, _) => reduced_adds_no_variable(fuel, *e, y, k),
        Term::BoolIf(c, a, b) => {
            let c2 = reduced(fuel, *c);
            if c2 == Term::BoolLit(true) {
                reduced_adds_no_variable(fuel, *a, y, k);
            } else if c2 == Term::BoolLit(false) {
                reduced_adds_no_variable(fuel, *b, y, k);
            } else if mentions(y, k, c2) {
                reduced_adds_no_variable(fuel, *c, y, k);
            } else if mentions(y, k, reduced(fuel, *a)) {
                reduced_adds_no_variable(fuel, *a, y, k);
            } else {
                reduced_adds_no_variable(fuel, *b, y, k);
            }
        },
        Term::EmptyListLit(u) => reduced_adds_no_variable(fuel, *u, y, k),
        Term::NEListLit(first, rest) => {
            if mentions(y, k, reduced(fuel, *first)) {
                reduced_adds_no_variable(fuel, *first, y, k);
            } else {
                let s2 = reduced_terms(fuel, rest);
                assert(mentions_in_terms(y, k, s2));
                let i = choose|i: int| 0 <= i < s2.len() && mentions(y, k, #[trigger] s2[i]);
                reduced_adds_no_variable(fuel, rest[i], y, k);
                assert(mentions_in_terms(y, k, rest));
            }
        },
        Term::EmptyOptionalLit(u) => reduced_adds_no_variable(fuel, *u, y, k),
        Term::NEOptionalLit(e) => reduced_adds_no_variable(fuel, *e, y, k),
        Term::RecordType(kts) => reduced_fields_add_no_variable(fuel, kts, y, k),
        Term::RecordLit(kvs) => reduced_fields_add_no_variable(fuel, kvs, y, k),
        Term::UnionType(kts) => {
            let s2 = reduced_alternatives(fuel, kts);
            assert(mentions_in_alternatives(y, k, s2));
            let i = choose|i: int|
                0 <= i < s2.len() && match (#[trigger] s2[i]).1 {
                    Some(u) => mentions(y, k, u),
                    None => false,
                };
            match kts[i].1 {
                Some(u) => {
                    reduced_adds_no_variable(fuel, u, y, k);
                    assert(mentions_in_alternatives(y, k, kts));
                },
                None => {},
            }
        },
        Term::Field(r, l) => {
            selected_adds_no_variable(reduced(fuel, *r), l, y, k);
            reduced_adds_no_variable(fuel, *r, y, k);
        },
        Term::BinOp(_, l, r) => {
            if mentions(y, k, reduced(fuel, *l)) {
                reduced_adds_no_variable(fuel, *l, y, k);
            } else {
                reduced_adds_no_variable(fuel, *r, y, k);
            }
        },
        _ => {},
    }
}

/// [`reduced_adds_no_variable`] for the entries of a record.
pub proof fn reduced_fields_add_no_variable(
    fuel: nat,
    s: Seq<(Seq<char>, Term)>,
    y: Seq<char>,
    k: int,
)
    requires
        k >= 0,
        mentions_in_fields(y, k, reduced_fields(fuel, s)),
    ensures
        mentions_in_fields(y, k, s),
    decreases fuel, 1nat, s,
{
    let s2 = reduced_fields(fuel, s);
    let i = choose|i: int| 0 <= i < s2.len() && mentions(y, k, (#[trigger] s2[i]).1);
    reduced_adds_no_variable(fuel, s[i].1, y, k);
}

/// The reducing normalizer brings in no variable.
pub proof fn reducer_adds_no_variable(reducer: Reducer)
    ensures
        normalizer_adds_no_variable(reducer),
{
    assert forall|y: Seq<char>, k: int, t: Term| k >= 0 && #[trigger] mentions(
        y,
        k,
        reducer.normal_form(t),
    ) implies mentions(y, k, t) by {
        reduced_adds_no_variable(reducer.fuel as nat, t, y, k);
    }
}

} // verus!
