//! What a lookup finds after a binder is entered, and which contexts keep
//! their types in scope.

use crate::context::{insert_frames, lookup_frames};
use crate::equiv::alpha_eq;
use crate::equiv_laws::alpha_eq_reflexive;
use crate::shift::{shift_fields, shift_term};
use crate::shift_laws::{mentions, mentions_of_shifted};
use crate::syntax::Term;
use vstd::prelude::*;

verus! {

/// The type that a lookup gives, shifted by `delta` over `V(x, m)`.
pub open spec fn shift_found(delta: int, x: Seq<char>, m: int, found: Option<Term>) -> Option<
    Term,
> {
    match found {
        Some(t) => Some(shift_term(delta, x, m, t)),
        None => None,
    }
}

/// A lookup in frames whose types were all shifted gives the shifted type of
/// the lookup in the frames as they were.
pub proof fn lookup_in_shifted(
    frames: Seq<(Seq<char>, Term)>,
    delta: int,
    x: Seq<char>,
    m: int,
    y: Seq<char>,
    n: int,
)
    ensures
        lookup_frames(shift_fields(delta, x, m, frames), y, n) == shift_found(
            delta,
            x,
            m,
            lookup_frames(frames, y, n),
        ),
    decreases frames.len(),
{
    if frames.len() > 0 {
        assert(shift_fields(delta, x, m, frames).drop_last() =~= shift_fields(
            delta,
            x,
            m,
            frames.drop_last(),
        ));
        if frames.last().0 == y {
            if n != 0 {
                lookup_in_shifted(frames.drop_last(), delta, x, m, y, n - 1);
            }
        } else {
            lookup_in_shifted(frames.drop_last(), delta, x, m, y, n);
        }
    }
}

/// Directly below a binder `x` of type `a`, the variable `V(x, 0)` has the
/// type `a` shifted by one over `V(x, 0)`, to which it is therefore equivalent.
pub proof fn lookup_after_insert(frames: Seq<(Seq<char>, Term)>, x: Seq<char>, a: Term)
    ensures
        lookup_frames(insert_frames(frames, x, a), x, 0) == Some(shift_term(1, x, 0, a)),
        alpha_eq(
            Seq::empty(),
            lookup_frames(insert_frames(frames, x, a), x, 0)->0,
            shift_term(1, x, 0, a),
        ),
{
    lookup_in_shifted(frames.push((x, a)), 1, x, 0, x, 0);
    alpha_eq_reflexive(shift_term(1, x, 0, a));
}

/// Below a binder `x`, a variable that refers to a binder further out has the
/// type it had above, shifted by one over `V(x, 0)`. From below, such a
/// variable is `V(x, n + 1)` where it was `V(x, n)`, and itself where it has
/// another name.
pub proof fn lookup_outer_after_insert(
    frames: Seq<(Seq<char>, Term)>,
    x: Seq<char>,
    a: Term,
    y: Seq<char>,
    n: int,
)
    requires
        y == x ==> n != -1,
    ensures
        lookup_frames(
            insert_frames(frames, x, a),
            y,
            if y == x {
                n + 1
            } else {
                n
            },
        ) == shift_found(1, x, 0, lookup_frames(frames, y, n)),
{
    let inner = if y == x {
        n + 1
    } else {
        n
    };
    lookup_in_shifted(frames.push((x, a)), 1, x, 0, y, inner);
    assert(frames.push((x, a)).drop_last() =~= frames);
}

/// The frames bind no variable with a negative index.
pub proof fn lookup_needs_an_index(frames: Seq<(Seq<char>, Term)>, y: Seq<char>, k: int)
    requires
        k < 0,
    ensures
        lookup_frames(frames, y, k) is None,
    decreases frames.len(),
{
    if frames.len() > 0 {
        if frames.last().0 == y {
            lookup_needs_an_index(frames.drop_last(), y, k - 1);
        } else {
            lookup_needs_an_index(frames.drop_last(), y, k);
        }
    }
}

/// What a lookup finds is the type of one of the frames.
pub proof fn lookup_finds_a_frame(frames: Seq<(Seq<char>, Term)>, y: Seq<char>, k: int) -> (i: int)
    requires
        lookup_frames(frames, y, k) is Some,
    ensures
        0 <= i < frames.len(),
        frames[i].0 == y,
        lookup_frames(frames, y, k) == Some(frames[i].1),
    decreases frames.len(),
{
    if frames.last().0 == y {
        if k == 0 {
            frames.len() - 1
        } else {
            lookup_finds_a_frame(frames.drop_last(), y, k - 1)
        }
    } else {
        lookup_finds_a_frame(frames.drop_last(), y, k)
    }
}

/// Whether the frames bind every free variable of `t`.
pub open spec fn closed_in(frames: Seq<(Seq<char>, Term)>, t: Term) -> bool {
    forall|y: Seq<char>, k: int|
        k >= 0 && #[trigger] mentions(y, k, t) ==> lookup_frames(frames, y, k) is Some
}

/// Whether every type that the frames hold is closed in them: the types are
/// stored as they read from below all the binders.
pub open spec fn well_scoped(frames: Seq<(Seq<char>, Term)>) -> bool {
    forall|i: int| 0 <= i < frames.len() ==> closed_in(frames, (#[trigger] frames[i]).1)
}

/// A term that is closed in the frames is, shifted by one over `V(x, 0)`,
/// closed in the frames below a binder named `x`.
pub proof fn closed_below_binder(frames: Seq<(Seq<char>, Term)>, x: Seq<char>, a: Term, t: Term)
    requires
        closed_in(frames, t),
    ensures
        closed_in(insert_frames(frames, x, a), shift_term(1, x, 0, t)),
{
    let inner = insert_frames(frames, x, a);
    assert forall|y: Seq<char>, k: int| k >= 0 && #[trigger] mentions(
        y,
        k,
        shift_term(1, x, 0, t),
    ) implies lookup_frames(inner, y, k) is Some by {
        mentions_of_shifted(1, x, 0, y, k, t);
        lookup_in_shifted(frames.push((x, a)), 1, x, 0, y, k);
        assert(frames.push((x, a)).drop_last() =~= frames);
        if y == x {
            assert(mentions(x, k - 1, t));
        } else {
            assert(mentions(y, k, t));
        }
    }
}

/// The context without binders is well scoped.
pub proof fn empty_is_well_scoped()
    ensures
        well_scoped(Seq::empty()),
{
}

/// Entering a binder whose type is closed in a well-scoped context gives a
/// well-scoped context.
pub proof fn insert_keeps_scope(frames: Seq<(Seq<char>, Term)>, x: Seq<char>, a: Term)
    requires
        well_scoped(frames),
        closed_in(frames, a),
    ensures
        well_scoped(insert_frames(frames, x, a)),
{
    let inner = insert_frames(frames, x, a);
    assert forall|i: int| 0 <= i < inner.len() implies closed_in(inner, (#[trigger] inner[i]).1) by {
        let t = frames.push((x, a))[i].1;
        if i < frames.len() {
            assert(t == frames[i].1);
        }
        closed_below_binder(frames, x, a, t);
    }
}

/// In a well-scoped context, the type that a lookup gives is valid in that
/// context: each of its free variables is bound there.
pub proof fn lookup_is_closed(frames: Seq<(Seq<char>, Term)>, y: Seq<char>, k: int)
    requires
        well_scoped(frames),
        lookup_frames(frames, y, k) is Some,
    ensures
        closed_in(frames, lookup_frames(frames, y, k)->0),
{
    let i = lookup_finds_a_frame(frames, y, k);
}

} // verus!
