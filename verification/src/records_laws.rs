//! The order of labels is a strict order, ordered entries are found by their
//! label alone, and shifting and substituting keep entries in order.

use crate::builtins::builtin_type;
use crate::records::{
    alternative_labels, field_labels, increasing, name_before, well_formed, well_formed_fields,
};
use crate::shift::{below, shift_alternatives, shift_fields, shift_term, shift_terms};
use crate::subst::{
    subst_alternatives, subst_fields, subst_shifted, subst_term, subst_terms,
};
use crate::syntax::{Builtin, Term};
use crate::typecheck::field_from;
use vstd::prelude::*;

verus! {

/// No name comes before itself.
pub proof fn name_before_irreflexive(a: Seq<char>)
    ensures
        !name_before(a, a),
    decreases a.len(),
{
    if a.len() > 0 {
        name_before_irreflexive(a.skip(1));
    }
}

/// A name that comes before a second, which comes before a third, comes
/// before the third.
pub proof fn name_before_transitive(a: Seq<char>, b: Seq<char>, c: Seq<char>)
    requires
        name_before(a, b),
        name_before(b, c),
    ensures
        name_before(a, c),
    decreases a.len(),
{
    if a.len() > 0 && a[0] == b[0] && b[0] == c[0] {
        name_before_transitive(a.skip(1), b.skip(1), c.skip(1));
    }
}

/// Of two different names, one comes before the other.
pub proof fn name_before_total(a: Seq<char>, b: Seq<char>)
    ensures
        a == b || name_before(a, b) || name_before(b, a),
    decreases a.len(),
{
    if a.len() > 0 && b.len() > 0 && a[0] == b[0] {
        name_before_total(a.skip(1), b.skip(1));
        if a.skip(1) == b.skip(1) {
            assert(a =~= seq![a[0]] + a.skip(1));
            assert(b =~= seq![b[0]] + b.skip(1));
        }
    } else if a.len() == 0 && b.len() == 0 {
        assert(a =~= b);
    } else if a.len() > 0 && b.len() > 0 {
        assert((a[0] as int) != (b[0] as int));
    }
}

/// In labels of which each comes before the next, an earlier label comes
/// before a later one.
pub proof fn increasing_is_pairwise(labels: Seq<Seq<char>>, i: int, j: int)
    requires
        increasing(labels),
        0 <= i < j < labels.len(),
    ensures
        name_before(labels[i], labels[j]),
    decreases j - i,
{
    if j - 1 > i {
        increasing_is_pairwise(labels, i, j - 1);
        assert(name_before(labels[j - 1], labels[j]));
        name_before_transitive(labels[i], labels[j - 1], labels[j]);
    } else {
        assert(name_before(labels[j - 1], labels[j]));
    }
}

/// In labels of which each comes before the next, no label occurs twice.
pub proof fn increasing_has_no_duplicates(labels: Seq<Seq<char>>, i: int, j: int)
    requires
        increasing(labels),
        0 <= i < labels.len(),
        0 <= j < labels.len(),
        labels[i] == labels[j],
    ensures
        i == j,
{
    name_before_irreflexive(labels[i]);
    if i < j {
        increasing_is_pairwise(labels, i, j);
    } else if j < i {
        increasing_is_pairwise(labels, j, i);
    }
}

/// Among entries in order, the search for a label finds the one entry that has it.
pub proof fn field_is_unique(kts: Seq<(Seq<char>, Term)>, x: Seq<char>, i: int, from: int)
    requires
        increasing(field_labels(kts)),
        0 <= from <= i < kts.len(),
        kts[i].0 == x,
    ensures
        field_from(kts, x, from) == Some(kts[i].1),
    decreases i - from,
{
    if from < i {
        if kts[from].0 == x {
            assert(field_labels(kts)[from] == field_labels(kts)[i]);
            increasing_has_no_duplicates(field_labels(kts), from, i);
        }
        field_is_unique(kts, x, i, from + 1);
    }
}

/// Whether two records hold the same entries.
pub open spec fn same_entries(s1: Seq<(Seq<char>, Term)>, s2: Seq<(Seq<char>, Term)>) -> bool {
    forall|e: (Seq<char>, Term)| s1.contains(e) <==> s2.contains(e)
}

/// Two records in order that hold the same entries are the same list: a
/// list in order stands for one map, and a map for one list in order.
pub proof fn ordered_entries_are_equal(s1: Seq<(Seq<char>, Term)>, s2: Seq<(Seq<char>, Term)>)
    requires
        increasing(field_labels(s1)),
        increasing(field_labels(s2)),
        same_entries(s1, s2),
    ensures
        s1 == s2,
    decreases s1.len(),
{
    if s1.len() == 0 {
        if s2.len() > 0 {
            assert(s2.contains(s2[0]));
            assert(s1.contains(s2[0]));
        }
        assert(s1 =~= s2);
    } else if s2.len() == 0 {
        assert(s1.contains(s1[0]));
        assert(s2.contains(s1[0]));
    } else {
        let n1 = s1.len() - 1;
        let n2 = s2.len() - 1;
        let l1 = field_labels(s1);
        let l2 = field_labels(s2);
        assert(s1.contains(s1[n1]));
        assert(s2.contains(s1[n1]));
        let j = choose|j: int| 0 <= j < s2.len() && s2[j] == s1[n1];
        assert(s2.contains(s2[n2]));
        assert(s1.contains(s2[n2]));
        let i = choose|i: int| 0 <= i < s1.len() && s1[i] == s2[n2];
        assert(l1[i] == s1[i].0 && l1[n1] == s1[n1].0);
        assert(l2[j] == s2[j].0 && l2[n2] == s2[n2].0);
        // The last entry of each list has the greatest label of both.
        if j < n2 {
            increasing_is_pairwise(l2, j, n2);
            if i < n1 {
                increasing_is_pairwise(l1, i, n1);
                name_before_transitive(l1[n1], l1[i], l1[n1]);
            }
            name_before_irreflexive(l1[n1]);
        }
        assert(j == n2);
        assert(s1[n1] == s2[n2]);
        let r1 = s1.drop_last();
        let r2 = s2.drop_last();
        assert(field_labels(r1) =~= l1.drop_last());
        assert(field_labels(r2) =~= l2.drop_last());
        assert forall|e: (Seq<char>, Term)| r1.contains(e) <==> r2.contains(e) by {
            if r1.contains(e) {
                let a = choose|a: int| 0 <= a < r1.len() && r1[a] == e;
                assert(s1[a] == e);
                assert(s1.contains(e));
                let b = choose|b: int| 0 <= b < s2.len() && s2[b] == e;
                if b == n2 {
                    assert(l1[a] == l1[n1]);
                    increasing_has_no_duplicates(l1, a, n1);
                }
                assert(r2[b] == e);
            }
            if r2.contains(e) {
                let b = choose|b: int| 0 <= b < r2.len() && r2[b] == e;
                assert(s2[b] == e);
                assert(s2.contains(e));
                let a = choose|a: int| 0 <= a < s1.len() && s1[a] == e;
                if a == n1 {
                    assert(l2[b] == l2[n2]);
                    increasing_has_no_duplicates(l2, b, n2);
                }
                assert(r1[a] == e);
            }
        }
        ordered_entries_are_equal(r1, r2);
        assert(s1 =~= r1.push(s1[n1]));
        assert(s2 =~= r2.push(s2[n2]));
    }
}

/// What the search for a label finds is the term of an entry with that label.
pub proof fn field_found(kts: Seq<(Seq<char>, Term)>, x: Seq<char>, from: int) -> (i: int)
    requires
        field_from(kts, x, from) is Some,
    ensures
        0 <= i < kts.len(),
        from <= i,
        kts[i].0 == x,
        field_from(kts, x, from) == Some(kts[i].1),
    decreases kts.len() - from,
{
    if kts[from].0 == x {
        from
    } else {
        field_found(kts, x, from + 1)
    }
}

/// A shift keeps the entries of records and unions in order.
pub proof fn shift_keeps_form(delta: int, x: Seq<char>, m: int, t: Term)
    requires
        well_formed(t),
    ensures
        well_formed(shift_term(delta, x, m, t)),
    decreases t,
{
    match t {
        Term::Lam(y, a, b) => {
            shift_keeps_form(delta, x, m, *a);
            shift_keeps_form(delta, x, below(x, m, y), *b);
        },
        Term::Pi(y, a, b) => {
            shift_keeps_form(delta, x, m, *a);
            shift_keeps_form(delta, x, below(x, m, y), *b);
        },
        Term::App(f, args) => {
            shift_keeps_form(delta, x, m, *f);
            let s2 = shift_terms(delta, x, m, args);
            assert(s2.len() == args.len());
            assert forall|i: int| 0 <= i < s2.len() implies well_formed(#[trigger] s2[i]) by {
                shift_keeps_form(delta, x, m, args[i]);
            }
            assert(shift_term(delta, x, m, t)->App_1 == s2);
        },
        Term::Let(y, ty, r, b) => {
            match ty {
                Some(u) => shift_keeps_form(delta, x, m, *u),
                None => {},
            }
            shift_keeps_form(delta, x, m, *r);
            shift_keeps_form(delta, x, below(x, m, y), *b);
        },
        Term::Annot(e, u) => {
            shift_keeps_form(delta, x, m, *e);
            shift_keeps_form(delta, x, m, *u);
        },
        Term::BoolIf(c, u, e) => {
            shift_keeps_form(delta, x, m, *c);
            shift_keeps_form(delta, x, m, *u);
            shift_keeps_form(delta, x, m, *e);
        },
        Term::EmptyListLit(u) => shift_keeps_form(delta, x, m, *u),
        Term::NEListLit(first, rest) => {
            shift_keeps_form(delta, x, m, *first);
            let s2 = shift_terms(delta, x, m, rest);
            assert(s2.len() == rest.len());
            assert forall|i: int| 0 <= i < s2.len() implies well_formed(#[trigger] s2[i]) by {
                shift_keeps_form(delta, x, m, rest[i]);
            }
            assert(shift_term(delta, x, m, t)->NEListLit_1 == s2);
        },
        Term::EmptyOptionalLit(u) => shift_keeps_form(delta, x, m, *u),
        Term::NEOptionalLit(e) => shift_keeps_form(delta, x, m, *e),
        Term::RecordType(kts) => shift_keeps_fields(delta, x, m, kts),
        Term::RecordLit(kvs) => shift_keeps_fields(delta, x, m, kvs),
        Term::UnionType(kts) => {
            let s2 = shift_alternatives(delta, x, m, kts);
            assert(alternative_labels(s2) =~= alternative_labels(kts));
            assert forall|i: int| 0 <= i < s2.len() implies match (#[trigger] s2[i]).1 {
                Some(u) => well_formed(u),
                None => true,
            } by {
                match kts[i].1 {
                    Some(u) => shift_keeps_form(delta, x, m, u),
                    None => {},
                }
            }
        },
        Term::Field(r, _) => shift_keeps_form(delta, x, m, *r),
        Term::BinOp(_, l, r) => {
            shift_keeps_form(delta, x, m, *l);
            shift_keeps_form(delta, x, m, *r);
        },
        _ => {},
    }
}

/// [`shift_keeps_form`] for the entries of a record.
pub proof fn shift_keeps_fields(delta: int, x: Seq<char>, m: int, s: Seq<(Seq<char>, Term)>)
    requires
        well_formed_fields(s),
    ensures
        well_formed_fields(shift_fields(delta, x, m, s)),
    decreases s,
{
    let s2 = shift_fields(delta, x, m, s);
    assert(field_labels(s2) =~= field_labels(s));
    assert forall|i: int| 0 <= i < s2.len() implies well_formed((#[trigger] s2[i]).1) by {
        shift_keeps_form(delta, x, m, s[i].1);
    }
}

/// A substitution of a well-formed value keeps the entries of records and
/// unions in order.
pub proof fn subst_keeps_form(x: Seq<char>, n: int, value: Term, t: Term)
    requires
        well_formed(value),
        well_formed(t),
    ensures
        well_formed(subst_term(x, n, value, t)),
    decreases t,
{
    match t {
        Term::Lam(y, a, b) => {
            subst_keeps_form(x, n, value, *a);
            shift_keeps_form(1, y, 0, value);
            subst_keeps_form(x, below(x, n, y), shift_term(1, y, 0, value), *b);
        },
        Term::Pi(y, a, b) => {
            subst_keeps_form(x, n, value, *a);
            shift_keeps_form(1, y, 0, value);
            subst_keeps_form(x, below(x, n, y), shift_term(1, y, 0, value), *b);
        },
        Term::App(f, args) => {
            subst_keeps_form(x, n, value, *f);
            let s2 = subst_terms(x, n, value, args);
            assert(s2.len() == args.len());
            assert forall|i: int| 0 <= i < s2.len() implies well_formed(#[trigger] s2[i]) by {
                subst_keeps_form(x, n, value, args[i]);
            }
            assert(subst_term(x, n, value, t)->App_1 == s2);
        },
        Term::Let(y, ty, r, b) => {
            match ty {
                Some(u) => subst_keeps_form(x, n, value, *u),
                None => {},
            }
            subst_keeps_form(x, n, value, *r);
            shift_keeps_form(1, y, 0, value);
            subst_keeps_form(x, below(x, n, y), shift_term(1, y, 0, value), *b);
        },
        Term::Annot(e, u) => {
            subst_keeps_form(x, n, value, *e);
            subst_keeps_form(x, n, value, *u);
        },
        Term::BoolIf(c, u, e) => {
            subst_keeps_form(x, n, value, *c);
            subst_keeps_form(x, n, value, *u);
            subst_keeps_form(x, n, value, *e);
        },
        Term::EmptyListLit(u) => subst_keeps_form(x, n, value, *u),
        Term::NEListLit(first, rest) => {
            subst_keeps_form(x, n, value, *first);
            let s2 = subst_terms(x, n, value, rest);
            assert(s2.len() == rest.len());
            assert forall|i: int| 0 <= i < s2.len() implies well_formed(#[trigger] s2[i]) by {
                subst_keeps_form(x, n, value, rest[i]);
            }
            assert(subst_term(x, n, value, t)->NEListLit_1 == s2);
        },
        Term::EmptyOptionalLit(u) => subst_keeps_form(x, n, value, *u),
        Term::NEOptionalLit(e) => subst_keeps_form(x, n, value, *e),
        Term::RecordType(kts) => subst_keeps_fields(x, n, value, kts),
        Term::RecordLit(kvs) => subst_keeps_fields(x, n, value, kvs),
        Term::UnionType(kts) => {
            let s2 = subst_alternatives(x, n, value, kts);
            assert(alternative_labels(s2) =~= alternative_labels(kts));
            assert forall|i: int| 0 <= i < s2.len() implies match (#[trigger] s2[i]).1 {
                Some(u) => well_formed(u),
                None => true,
            } by {
                match kts[i].1 {
                    Some(u) => subst_keeps_form(x, n, value, u),
                    None => {},
                }
            }
        },
        Term::Field(r, _) => subst_keeps_form(x, n, value, *r),
        Term::BinOp(_, l, r) => {
            subst_keeps_form(x, n, value, *l);
            subst_keeps_form(x, n, value, *r);
        },
        _ => {},
    }
}

/// [`subst_keeps_form`] for the entries of a record.
pub proof fn subst_keeps_fields(x: Seq<char>, n: int, value: Term, s: Seq<(Seq<char>, Term)>)
    requires
        well_formed(value),
        well_formed_fields(s),
    ensures
        well_formed_fields(subst_fields(x, n, value, s)),
    decreases s,
{
    let s2 = subst_fields(x, n, value, s);
    assert(field_labels(s2) =~= field_labels(s));
    assert forall|i: int| 0 <= i < s2.len() implies well_formed((#[trigger] s2[i]).1) by {
        subst_keeps_form(x, n, value, s[i].1);
    }
}

/// Taking a well-formed term out of a binder, with a well-formed value for
/// the variable, gives a well-formed term.
pub proof fn subst_shift_keeps_form(x: Seq<char>, n: int, value: Term, t: Term)
    requires
        well_formed(value),
        well_formed(t),
    ensures
        well_formed(subst_shifted(x, n, value, t)),
{
    shift_keeps_form(1, x, n, value);
    subst_keeps_form(x, n, shift_term(1, x, n, value), t);
    shift_keeps_form(-1, x, n, subst_term(x, n, shift_term(1, x, n, value), t));
}

/// An application to one well-formed argument is well formed where its head is.
pub proof fn applied_is_well_formed(f: Term, a: Term)
    requires
        well_formed(f),
        well_formed(a),
    ensures
        well_formed(Term::applied(f, a)),
{
    assert forall|i: int| 0 <= i < seq![a].len() implies well_formed(#[trigger] seq![a][i]) by {
        assert(seq![a][i] == a);
    }
}

/// The type of every built-in constant is well formed.
pub proof fn builtin_type_is_well_formed(b: Builtin)
    ensures
        well_formed(builtin_type(b)),
{
    reveal_with_fuel(well_formed, 8);
    reveal_strlit("index");
    reveal_strlit("value");
    let a = Term::named("a"@);
    let entries = seq![("index"@, Term::Builtin(Builtin::Natural)), ("value"@, a)];
    assert(field_labels(entries)[0] == "index"@);
    assert(field_labels(entries)[1] == "value"@);
    assert(name_before("index"@, "value"@));
    assert(increasing(field_labels(entries)));
    assert(well_formed_fields(entries));
    assert(well_formed(Term::indexed_type()));
    applied_is_well_formed(Term::Builtin(Builtin::List), a);
    applied_is_well_formed(Term::Builtin(Builtin::Optional), a);
    applied_is_well_formed(Term::Builtin(Builtin::List), Term::indexed_type());
}

} // verus!
