//! The typing context: the binders in force, innermost last, each with its type.

use crate::shift::{shift_fields, shift_fits, shift_record};
use crate::syntax::{clone_fields, Expr, Label, Term, V};
use vstd::prelude::*;

verus! {

/// The type that the frames give to `V(x, n)`: that of the frame named `x`
/// which is reached, from the innermost outwards, after `n` others of that
/// name. `None` where there are not that many.
pub open spec fn lookup_frames(frames: Seq<(Seq<char>, Term)>, x: Seq<char>, n: int) -> Option<Term>
    decreases frames.len(),
{
    if frames.len() == 0 {
        None
    } else if frames.last().0 == x {
        if n == 0 {
            Some(frames.last().1)
        } else {
            lookup_frames(frames.drop_last(), x, n - 1)
        }
    } else {
        lookup_frames(frames.drop_last(), x, n)
    }
}

/// The frames after the binder `x` of type `a` is entered: the new frame is
/// the innermost, and every type, that of the new frame too, is shifted by one
/// over `V(x, 0)`, since it is now read from below that binder.
pub open spec fn insert_frames(frames: Seq<(Seq<char>, Term)>, x: Seq<char>, a: Term) -> Seq<
    (Seq<char>, Term),
> {
    shift_fields(1, x, 0, frames.push((x, a)))
}

/// Whether every type of the frames, and `a`, can be shifted by one over `V(x, 0)`.
pub open spec fn insert_fits(frames: Seq<(Seq<char>, Term)>, x: Seq<char>, a: Term) -> bool {
    forall|i: int|
        0 <= i < frames.push((x, a)).len() ==> shift_fits(
            1,
            x,
            0,
            (#[trigger] frames.push((x, a))[i]).1,
        )
}

/// A typing context.
#[derive(Debug, PartialEq, Eq)]
pub struct Context {
    pub frames: Vec<(Label, Expr)>,
}

impl View for Context {
    type V = Seq<(Seq<char>, Term)>;

    open spec fn view(&self) -> Seq<(Seq<char>, Term)> {
        Expr::fields(self.frames@)
    }
}

impl Clone for Context {
    fn clone(&self) -> (res: Context)
        ensures
            res@ == self@,
    {
        Context { frames: clone_fields(&self.frames) }
    }
}

impl Context {
    /// The context without binders.
    pub fn new() -> (res: Context)
        ensures
            res@ == Seq::<(Seq<char>, Term)>::empty(),
    {
        let res = Context { frames: Vec::new() };
        assert(res@ =~= Seq::<(Seq<char>, Term)>::empty());
        res
    }

    /// The number of binders in force.
    pub fn len(&self) -> (res: usize)
        ensures
            res == self@.len(),
    {
        self.frames.len()
    }

    /// The context below the binder `x` of type `a`.
    ///
    /// Returns `None` exactly where shifting a type would take an index past
    /// `usize::MAX`.
    pub fn insert(&self, x: Label, a: Expr) -> (res: Option<Context>)
        ensures
            res is Some <==> insert_fits(self@, x@, a@),
            res matches Some(c) ==> c@ == insert_frames(self@, x@, a@),
    {
        let mut frames = clone_fields(&self.frames);
        let var = V(x.clone(), 0);
        frames.push((x, a));
        assert(Expr::fields(frames@) =~= self@.push((x@, a@)));
        match shift_record(1, &var, &frames) {
            Some(shifted) => Some(Context { frames: shifted }),
            None => None,
        }
    }

    /// The type of the variable `V(x, n)`, where the context binds it.
    pub fn lookup(&self, x: &Label, n: usize) -> (res: Option<&Expr>)
        ensures
            res is Some <==> lookup_frames(self@, x@, n as int) is Some,
            res matches Some(t) ==> Some(t@) == lookup_frames(self@, x@, n as int),
    {
        let mut i: usize = self.frames.len();
        let mut k: usize = n;
        assert(self@.take(i as int) =~= self@);
        while i > 0
            invariant
                i <= self.frames.len(),
                lookup_frames(self@, x@, n as int) == lookup_frames(
                    self@.take(i as int),
                    x@,
                    k as int,
                ),
            decreases i,
        {
            i -= 1;
            assert(self@.take(i + 1).drop_last() =~= self@.take(i as int));
            assert(self@.take(i + 1).last() == self@[i as int]);
            if self.frames[i].0.same(x) {
                if k == 0 {
                    return Some(&self.frames[i].1);
                }
                k -= 1;
            }
        }
        None
    }
}

} // verus!
