//! Equivalence of terms up to the names of the binders of function types.

use crate::syntax::{Expr, Label, Term, V};
use vstd::prelude::*;

verus! {

/// The names of a stack of paired labels.
pub open spec fn pair_names(s: Seq<(Label, Label)>) -> Seq<(Seq<char>, Seq<char>)> {
    Seq::new(s.len(), |i: int| (s[i].0@, s[i].1@))
}

/// Whether `V(xl, nl)` on the left and `V(xr, nr)` on the right are the same
/// variable below the paired binders `pairs`, innermost last.
///
/// A frame binds a side's variable when it has that variable's name and the
/// index has come down to zero. The two are the same variable when one frame
/// binds both. Where a frame binds only one of them they differ. A frame of a
/// variable's name that does not bind it lowers its index by one. Where no
/// frame binds either, what is left of them must be equal.
pub open spec fn vars_match(
    xl: Seq<char>,
    nl: int,
    xr: Seq<char>,
    nr: int,
    pairs: Seq<(Seq<char>, Seq<char>)>,
) -> bool
    decreases pairs.len(),
{
    if pairs.len() == 0 {
        xl == xr && nl == nr
    } else {
        let bound_l = xl == pairs.last().0 && nl == 0;
        let bound_r = xr == pairs.last().1 && nr == 0;
        if bound_l || bound_r {
            bound_l && bound_r
        } else {
            vars_match(
                xl,
                if xl == pairs.last().0 {
                    nl - 1
                } else {
                    nl
                },
                xr,
                if xr == pairs.last().1 {
                    nr - 1
                } else {
                    nr
                },
                pairs.drop_last(),
            )
        }
    }
}

/// Whether `l` and `r` are equal up to the names of the binders of function
/// types, below the paired binders `pairs`.
///
/// Universes and built-ins are compared as such, variables by [`vars_match`],
/// function types with their binders paired, applications, record types and
/// union types part by part. Every other pair is compared as written.
pub open spec fn alpha_eq(pairs: Seq<(Seq<char>, Seq<char>)>, l: Term, r: Term) -> bool
    decreases l,
{
    match (l, r) {
        (Term::Const(a), Term::Const(b)) => a == b,
        (Term::Builtin(a), Term::Builtin(b)) => a == b,
        (Term::Var(xl, nl), Term::Var(xr, nr)) => vars_match(xl, nl, xr, nr, pairs),
        (Term::Pi(xl, tl, bl), Term::Pi(xr, tr, br)) => alpha_eq(pairs, *tl, *tr) && alpha_eq(
            pairs.push((xl, xr)),
            *bl,
            *br,
        ),
        (Term::App(fl, al), Term::App(fr, ar)) => alpha_eq(pairs, *fl, *fr) && al.len() == ar.len()
            && forall|i: int| 0 <= i < al.len() ==> alpha_eq(pairs, #[trigger] al[i], ar[i]),
        (Term::RecordType(kl), Term::RecordType(kr)) => kl.len() == kr.len() && forall|i: int|
            0 <= i < kl.len() ==> (#[trigger] kl[i]).0 == kr[i].0 && alpha_eq(
                pairs,
                kl[i].1,
                kr[i].1,
            ),
        (Term::UnionType(kl), Term::UnionType(kr)) => kl.len() == kr.len() && forall|i: int|
            0 <= i < kl.len() ==> (#[trigger] kl[i]).0 == kr[i].0 && alpha_eq_optional(
                pairs,
                kl[i].1,
                kr[i].1,
            ),
        _ => l == r,
    }
}

/// [`alpha_eq`] on two payloads of union alternatives: both absent, or both
/// present and equivalent.
pub open spec fn alpha_eq_optional(
    pairs: Seq<(Seq<char>, Seq<char>)>,
    l: Option<Term>,
    r: Option<Term>,
) -> bool
    decreases l,
{
    match (l, r) {
        (Some(a), Some(b)) => alpha_eq(pairs, a, b),
        (None, None) => true,
        _ => false,
    }
}

/// Whether the variables `vl` and `vr` are the same below the paired binders
/// `pairs`, innermost last.
pub fn match_vars(vl: &V, vr: &V, pairs: &Vec<(Label, Label)>) -> (res: bool)
    ensures
        res == vars_match(vl.0@, vl.1 as int, vr.0@, vr.1 as int, pair_names(pairs@)),
{
    let mut i: usize = pairs.len();
    let mut nl: usize = vl.1;
    let mut nr: usize = vr.1;
    assert(pair_names(pairs@).take(i as int) =~= pair_names(pairs@));
    while i > 0
        invariant
            i <= pairs.len(),
            vars_match(vl.0@, vl.1 as int, vr.0@, vr.1 as int, pair_names(pairs@)) == vars_match(
                vl.0@,
                nl as int,
                vr.0@,
                nr as int,
                pair_names(pairs@).take(i as int),
            ),
        decreases i,
    {
        i -= 1;
        assert(pair_names(pairs@).take(i + 1).drop_last() =~= pair_names(pairs@).take(i as int));
        assert(pair_names(pairs@).take(i + 1).last() == (pairs@[i as int].0@, pairs@[i as int].1@));
        let named_l = vl.0.same(&pairs[i].0);
        let named_r = vr.0.same(&pairs[i].1);
        let bound_l = named_l && nl == 0;
        let bound_r = named_r && nr == 0;
        if bound_l || bound_r {
            return bound_l && bound_r;
        }
        if named_l {
            nl -= 1;
        }
        if named_r {
            nr -= 1;
        }
    }
    vl.0.same(&vr.0) && nl == nr
}

/// [`prop_equal`] below the paired binders `pairs`, which are left as they were.
#[verifier::loop_isolation(false)]
pub fn prop_equal_below(pairs: &mut Vec<(Label, Label)>, l: &Expr, r: &Expr) -> (res: bool)
    ensures
        final(pairs)@ == old(pairs)@,
        res == alpha_eq(pair_names(old(pairs)@), l@, r@),
    decreases l,
{
    match (l, r) {
        (Expr::Const(a), Expr::Const(b)) => *a == *b,
        (Expr::Builtin(a), Expr::Builtin(b)) => *a == *b,
        (Expr::Var(vl), Expr::Var(vr)) => match_vars(vl, vr, pairs),
        (Expr::Pi(xl, tl, bl), Expr::Pi(xr, tr, br)) => {
            if prop_equal_below(pairs, tl, tr) {
                let ghost before = pairs@;
                pairs.push((xl.clone(), xr.clone()));
                assert(pair_names(pairs@) =~= pair_names(before).push((xl@, xr@)));
                let res = prop_equal_below(pairs, bl, br);
                let _ = pairs.pop();
                assert(pairs@ =~= before);
                res
            } else {
                false
            }
        },
        (Expr::App(fl, al), Expr::App(fr, ar)) => {
            if !prop_equal_below(pairs, fl, fr) {
                return false;
            }
            assert(Expr::terms(al@).len() == al.len() && Expr::terms(ar@).len() == ar.len());
            if al.len() != ar.len() {
                return false;
            }
            let mut i: usize = 0;
            while i < al.len()
                invariant
                    pairs@ == old(pairs)@,
                    al.len() == ar.len(),
                    i <= al.len(),
                    forall|j: int|
                        0 <= j < i ==> alpha_eq(
                            pair_names(old(pairs)@),
                            #[trigger] Expr::terms(al@)[j],
                            Expr::terms(ar@)[j],
                        ),
                decreases al.len() - i,
            {
                if !prop_equal_below(pairs, &al[i], &ar[i]) {
                    assert(!alpha_eq(
                        pair_names(old(pairs)@),
                        Expr::terms(al@)[i as int],
                        Expr::terms(ar@)[i as int],
                    ));
                    return false;
                }
                i += 1;
            }
            true
        },
        (Expr::RecordType(kl), Expr::RecordType(kr)) => {
            assert(Expr::fields(kl@).len() == kl.len() && Expr::fields(kr@).len() == kr.len());
            if kl.len() != kr.len() {
                return false;
            }
            let mut i: usize = 0;
            while i < kl.len()
                invariant
                    pairs@ == old(pairs)@,
                    kl.len() == kr.len(),
                    i <= kl.len(),
                    forall|j: int|
                        0 <= j < i ==> (#[trigger] Expr::fields(kl@)[j]).0 == Expr::fields(kr@)[j].0
                            && alpha_eq(
                            pair_names(old(pairs)@),
                            Expr::fields(kl@)[j].1,
                            Expr::fields(kr@)[j].1,
                        ),
                decreases kl.len() - i,
            {
                if !(kl[i].0.same(&kr[i].0) && prop_equal_below(pairs, &kl[i].1, &kr[i].1)) {
                    assert(!(Expr::fields(kl@)[i as int].0 == Expr::fields(kr@)[i as int].0
                        && alpha_eq(
                        pair_names(old(pairs)@),
                        Expr::fields(kl@)[i as int].1,
                        Expr::fields(kr@)[i as int].1,
                    )));
                    return false;
                }
                i += 1;
            }
            true
        },
        (Expr::UnionType(kl), Expr::UnionType(kr)) => {
            assert(Expr::alternatives(kl@).len() == kl.len() && Expr::alternatives(kr@).len()
                == kr.len());
            if kl.len() != kr.len() {
                return false;
            }
            let mut i: usize = 0;
            while i < kl.len()
                invariant
                    pairs@ == old(pairs)@,
                    kl.len() == kr.len(),
                    i <= kl.len(),
                    forall|j: int|
                        0 <= j < i ==> (#[trigger] Expr::alternatives(kl@)[j]).0
                            == Expr::alternatives(kr@)[j].0 && alpha_eq_optional(
                            pair_names(old(pairs)@),
                            Expr::alternatives(kl@)[j].1,
                            Expr::alternatives(kr@)[j].1,
                        ),
                decreases kl.len() - i,
            {
                let payloads = match (&kl[i].1, &kr[i].1) {
                    (Some(a), Some(b)) => prop_equal_below(pairs, a, b),
                    (None, None) => true,
                    _ => false,
                };
                if !(kl[i].0.same(&kr[i].0) && payloads) {
                    assert(!(Expr::alternatives(kl@)[i as int].0 == Expr::alternatives(
                        kr@,
                    )[i as int].0 && alpha_eq_optional(
                        pair_names(old(pairs)@),
                        Expr::alternatives(kl@)[i as int].1,
                        Expr::alternatives(kr@)[i as int].1,
                    )));
                    return false;
                }
                i += 1;
            }
            true
        },
        _ => l.same(r),
    }
}

/// Whether two expressions are equal up to the names of the binders of
/// function types. It is meant for expressions in normal form.
pub fn prop_equal(l: &Expr, r: &Expr) -> (res: bool)
    ensures
        res == alpha_eq(Seq::empty(), l@, r@),
{
    let mut pairs: Vec<(Label, Label)> = Vec::new();
    assert(pair_names(pairs@) =~= Seq::empty());
    prop_equal_below(&mut pairs, l, r)
}

} // verus!
