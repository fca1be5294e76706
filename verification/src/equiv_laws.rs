//! Equivalence up to the names of binders is an equivalence relation.

use crate::equiv::{alpha_eq, alpha_eq_optional, vars_match};
use crate::syntax::Term;
use vstd::prelude::*;

verus! {

/// Whether every frame pairs a name with itself.
pub open spec fn diagonal(pairs: Seq<(Seq<char>, Seq<char>)>) -> bool {
    forall|i: int| 0 <= i < pairs.len() ==> (#[trigger] pairs[i]).0 == pairs[i].1
}

/// The frames with the two sides exchanged.
pub open spec fn swapped(pairs: Seq<(Seq<char>, Seq<char>)>) -> Seq<(Seq<char>, Seq<char>)> {
    Seq::new(pairs.len(), |i: int| (pairs[i].1, pairs[i].0))
}

/// Whether the right names of `first` are the left names of `second`, frame by frame.
pub open spec fn composable(
    first: Seq<(Seq<char>, Seq<char>)>,
    second: Seq<(Seq<char>, Seq<char>)>,
) -> bool {
    first.len() == second.len() && forall|i: int|
        0 <= i < first.len() ==> (#[trigger] first[i]).1 == second[i].0
}

/// The frames that pair the left names of `first` with the right names of `second`.
pub open spec fn composed(
    first: Seq<(Seq<char>, Seq<char>)>,
    second: Seq<(Seq<char>, Seq<char>)>,
) -> Seq<(Seq<char>, Seq<char>)> {
    Seq::new(first.len(), |i: int| (first[i].0, second[i].1))
}

/// A variable matches itself below frames that pair each name with itself.
pub proof fn vars_match_diagonal(x: Seq<char>, n: int, pairs: Seq<(Seq<char>, Seq<char>)>)
    requires
        diagonal(pairs),
    ensures
        vars_match(x, n, x, n, pairs),
    decreases pairs.len(),
{
    if pairs.len() > 0 {
        assert(pairs.last() == pairs[pairs.len() - 1]);
        assert(diagonal(pairs.drop_last()));
        if !(x == pairs.last().0 && n == 0) {
            vars_match_diagonal(
                x,
                if x == pairs.last().0 {
                    n - 1
                } else {
                    n
                },
                pairs.drop_last(),
            );
        }
    }
}

/// A term is equivalent to itself below frames that pair each name with itself.
pub proof fn alpha_eq_diagonal(pairs: Seq<(Seq<char>, Seq<char>)>, t: Term)
    requires
        diagonal(pairs),
    ensures
        alpha_eq(pairs, t, t),
    decreases t,
{
    match t {
        Term::Var(x, n) => vars_match_diagonal(x, n, pairs),
        Term::Pi(x, a, b) => {
            alpha_eq_diagonal(pairs, *a);
            assert(diagonal(pairs.push((x, x))));
            alpha_eq_diagonal(pairs.push((x, x)), *b);
        },
        Term::App(f, args) => {
            alpha_eq_diagonal(pairs, *f);
            assert forall|i: int| 0 <= i < args.len() implies alpha_eq(
                pairs,
                #[trigger] args[i],
                args[i],
            ) by {
                alpha_eq_diagonal(pairs, args[i]);
            }
        },
        Term::RecordType(kts) => {
            assert forall|i: int| 0 <= i < kts.len() implies alpha_eq(
                pairs,
                (#[trigger] kts[i]).1,
                kts[i].1,
            ) by {
                alpha_eq_diagonal(pairs, kts[i].1);
            }
        },
        Term::UnionType(kts) => {
            assert forall|i: int| 0 <= i < kts.len() implies alpha_eq_optional(
                pairs,
                (#[trigger] kts[i]).1,
                kts[i].1,
            ) by {
                match kts[i].1 {
                    Some(u) => alpha_eq_diagonal(pairs, u),
                    None => {},
                }
            }
        },
        _ => {},
    }
}

/// Two variables match exactly where they match with the sides exchanged.
pub proof fn vars_match_swapped(
    xl: Seq<char>,
    nl: int,
    xr: Seq<char>,
    nr: int,
    pairs: Seq<(Seq<char>, Seq<char>)>,
)
    ensures
        vars_match(xl, nl, xr, nr, pairs) == vars_match(xr, nr, xl, nl, swapped(pairs)),
    decreases pairs.len(),
{
    if pairs.len() > 0 {
        assert(swapped(pairs).drop_last() =~= swapped(pairs.drop_last()));
        assert(swapped(pairs).last() == (pairs.last().1, pairs.last().0));
        vars_match_swapped(
            xl,
            if xl == pairs.last().0 {
                nl - 1
            } else {
                nl
            },
            xr,
            if xr == pairs.last().1 {
                nr - 1
            } else {
                nr
            },
            pairs.drop_last(),
        );
    }
}

/// Two terms are equivalent exactly where they are with the sides exchanged.
pub proof fn alpha_eq_swapped(pairs: Seq<(Seq<char>, Seq<char>)>, l: Term, r: Term)
    ensures
        alpha_eq(pairs, l, r) == alpha_eq(swapped(pairs), r, l),
    decreases l,
{
    match (l, r) {
        (Term::Var(xl, nl), Term::Var(xr, nr)) => vars_match_swapped(xl, nl, xr, nr, pairs),
        (Term::Pi(xl, tl, bl), Term::Pi(xr, tr, br)) => {
            alpha_eq_swapped(pairs, *tl, *tr);
            assert(swapped(pairs.push((xl, xr))) =~= swapped(pairs).push((xr, xl)));
            alpha_eq_swapped(pairs.push((xl, xr)), *bl, *br);
        },
        (Term::App(fl, al), Term::App(fr, ar)) => {
            alpha_eq_swapped(pairs, *fl, *fr);
            if al.len() == ar.len() {
                assert forall|i: int| 0 <= i < al.len() implies alpha_eq(pairs, al[i], ar[i])
                    == alpha_eq(swapped(pairs), #[trigger] ar[i], al[i]) by {
                    alpha_eq_swapped(pairs, al[i], ar[i]);
                }
                assert forall|i: int| 0 <= i < al.len() implies alpha_eq(
                    pairs,
                    #[trigger] al[i],
                    ar[i],
                ) == alpha_eq(swapped(pairs), ar[i], al[i]) by {
                    alpha_eq_swapped(pairs, al[i], ar[i]);
                }
            }
        },
        (Term::RecordType(kl), Term::RecordType(kr)) => {
            if kl.len() == kr.len() {
                assert forall|i: int| 0 <= i < kl.len() implies alpha_eq(pairs, kl[i].1, kr[i].1)
                    == alpha_eq(swapped(pairs), (#[trigger] kr[i]).1, kl[i].1) by {
                    alpha_eq_swapped(pairs, kl[i].1, kr[i].1);
                }
                assert forall|i: int| 0 <= i < kl.len() implies alpha_eq(
                    pairs,
                    (#[trigger] kl[i]).1,
                    kr[i].1,
                ) == alpha_eq(swapped(pairs), kr[i].1, kl[i].1) by {
                    alpha_eq_swapped(pairs, kl[i].1, kr[i].1);
                }
            }
        },
        (Term::UnionType(kl), Term::UnionType(kr)) => {
            if kl.len() == kr.len() {
                assert forall|i: int| 0 <= i < kl.len() implies alpha_eq_optional(
                    pairs,
                    kl[i].1,
                    kr[i].1,
                ) == alpha_eq_optional(swapped(pairs), (#[trigger] kr[i]).1, kl[i].1) by {
                    alpha_eq_optional_swapped(pairs, kl[i].1, kr[i].1);
                }
                assert forall|i: int| 0 <= i < kl.len() implies alpha_eq_optional(
                    pairs,
                    (#[trigger] kl[i]).1,
                    kr[i].1,
                ) == alpha_eq_optional(swapped(pairs), kr[i].1, kl[i].1) by {
                    alpha_eq_optional_swapped(pairs, kl[i].1, kr[i].1);
                }
            }
        },
        _ => {},
    }
}

/// Two payloads are equivalent exactly where they are with the sides exchanged.
pub proof fn alpha_eq_optional_swapped(
    pairs: Seq<(Seq<char>, Seq<char>)>,
    l: Option<Term>,
    r: Option<Term>,
)
    ensures
        alpha_eq_optional(pairs, l, r) == alpha_eq_optional(swapped(pairs), r, l),
    decreases l,
{
    match (l, r) {
        (Some(a), Some(b)) => alpha_eq_swapped(pairs, a, b),
        _ => {},
    }
}

/// Where a first variable matches a second and the second a third, the first
/// matches the third below the composed frames.
pub proof fn vars_match_composed(
    xa: Seq<char>,
    na: int,
    xb: Seq<char>,
    nb: int,
    xc: Seq<char>,
    nc: int,
    first: Seq<(Seq<char>, Seq<char>)>,
    second: Seq<(Seq<char>, Seq<char>)>,
)
    requires
        composable(first, second),
        vars_match(xa, na, xb, nb, first),
        vars_match(xb, nb, xc, nc, second),
    ensures
        vars_match(xa, na, xc, nc, composed(first, second)),
    decreases first.len(),
{
    if first.len() > 0 {
        assert(first.last() == first[first.len() - 1]);
        assert(second.last() == second[first.len() - 1]);
        assert(composed(first, second).last() == (first.last().0, second.last().1));
        assert(composed(first, second).drop_last() =~= composed(
            first.drop_last(),
            second.drop_last(),
        ));
        assert(composable(first.drop_last(), second.drop_last()));
        let bound_a = xa == first.last().0 && na == 0;
        let bound_b = xb == first.last().1 && nb == 0;
        let bound_c = xc == second.last().1 && nc == 0;
        if !(bound_a || bound_b || bound_c) {
            vars_match_composed(
                xa,
                if xa == first.last().0 {
                    na - 1
                } else {
                    na
                },
                xb,
                if xb == first.last().1 {
                    nb - 1
                } else {
                    nb
                },
                xc,
                if xc == second.last().1 {
                    nc - 1
                } else {
                    nc
                },
                first.drop_last(),
                second.drop_last(),
            );
        }
    }
}

/// Where a first term is equivalent to a second and the second to a third,
/// the first is equivalent to the third below the composed frames.
pub proof fn alpha_eq_composed(
    first: Seq<(Seq<char>, Seq<char>)>,
    second: Seq<(Seq<char>, Seq<char>)>,
    a: Term,
    b: Term,
    c: Term,
)
    requires
        composable(first, second),
        alpha_eq(first, a, b),
        alpha_eq(second, b, c),
    ensures
        alpha_eq(composed(first, second), a, c),
    decreases a,
{
    match (a, b, c) {
        (Term::Var(xa, na), Term::Var(xb, nb), Term::Var(xc, nc)) => {
            vars_match_composed(xa, na, xb, nb, xc, nc, first, second);
        },
        (Term::Pi(xa, ta, ba), Term::Pi(xb, tb, bb), Term::Pi(xc, tc, bc)) => {
            alpha_eq_composed(first, second, *ta, *tb, *tc);
            assert(composable(first.push((xa, xb)), second.push((xb, xc))));
            assert(composed(first.push((xa, xb)), second.push((xb, xc))) =~= composed(
                first,
                second,
            ).push((xa, xc)));
            alpha_eq_composed(first.push((xa, xb)), second.push((xb, xc)), *ba, *bb, *bc);
        },
        (Term::App(fa, aa), Term::App(fb, ab), Term::App(fc, ac)) => {
            alpha_eq_composed(first, second, *fa, *fb, *fc);
            assert forall|i: int| 0 <= i < aa.len() implies alpha_eq(
                composed(first, second),
                #[trigger] aa[i],
                ac[i],
            ) by {
                assert(alpha_eq(first, aa[i], ab[i]));
                assert(alpha_eq(second, ab[i], ac[i]));
                alpha_eq_composed(first, second, aa[i], ab[i], ac[i]);
            }
        },
        (Term::RecordType(ka), Term::RecordType(kb), Term::RecordType(kc)) => {
            assert forall|i: int| 0 <= i < ka.len() implies (#[trigger] ka[i]).0 == kc[i].0
                && alpha_eq(composed(first, second), ka[i].1, kc[i].1) by {
                assert(ka[i].0 == kb[i].0 && alpha_eq(first, ka[i].1, kb[i].1));
                assert(kb[i].0 == kc[i].0 && alpha_eq(second, kb[i].1, kc[i].1));
                alpha_eq_composed(first, second, ka[i].1, kb[i].1, kc[i].1);
            }
        },
        (Term::UnionType(ka), Term::UnionType(kb), Term::UnionType(kc)) => {
            assert forall|i: int| 0 <= i < ka.len() implies (#[trigger] ka[i]).0 == kc[i].0
                && alpha_eq_optional(composed(first, second), ka[i].1, kc[i].1) by {
                assert(ka[i].0 == kb[i].0 && alpha_eq_optional(first, ka[i].1, kb[i].1));
                assert(kb[i].0 == kc[i].0 && alpha_eq_optional(second, kb[i].1, kc[i].1));
                match (ka[i].1, kb[i].1, kc[i].1) {
                    (Some(ua), Some(ub), Some(uc)) => {
                        alpha_eq_composed(first, second, ua, ub, uc);
                    },
                    _ => {},
                }
            }
        },
        _ => {},
    }
}

/// Equivalence is reflexive: every term is equivalent to itself.
pub proof fn alpha_eq_reflexive(t: Term)
    ensures
        alpha_eq(Seq::empty(), t, t),
{
    alpha_eq_diagonal(Seq::empty(), t);
}

/// Equivalence is symmetric: two terms are equivalent in one order exactly
/// where they are in the other.
pub proof fn alpha_eq_symmetric(l: Term, r: Term)
    ensures
        alpha_eq(Seq::empty(), l, r) == alpha_eq(Seq::empty(), r, l),
{
    alpha_eq_swapped(Seq::empty(), l, r);
    assert(swapped(Seq::empty()) =~= Seq::empty());
}

/// Equivalence is transitive: a term equivalent to a second that is
/// equivalent to a third is equivalent to the third.
pub proof fn alpha_eq_transitive(a: Term, b: Term, c: Term)
    requires
        alpha_eq(Seq::empty(), a, b),
        alpha_eq(Seq::empty(), b, c),
    ensures
        alpha_eq(Seq::empty(), a, c),
{
    alpha_eq_composed(Seq::empty(), Seq::empty(), a, b, c);
    assert(composed(Seq::empty(), Seq::empty()) =~= Seq::empty());
}

} // verus!
