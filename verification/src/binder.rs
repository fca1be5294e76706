//! Binders with an identity of their own, and variables that refer to them.
//!
//! A [`Binder`] carries, beside its name, an id that tells it from every other
//! binder of the same derivation. An [`AlphaVar`] holds two indices for one
//! variable: the one that counts binders of its name, and the one that counts
//! all binders.

use crate::shift::{index_in_range, offset_index, shift_index};
use crate::syntax::{Label, V};
use vstd::prelude::*;

verus! {

impl V {
    /// This variable after `delta` is added to the indices of the variables
    /// with the name of `var` and an index of at least that of `var`; `None`
    /// where its index would leave the range of `usize`.
    pub fn shift(&self, delta: isize, var: &V) -> (res: Option<V>)
        ensures
            res is Some <==> index_in_range(
                shift_index(delta as int, var.0@, var.1 as int, self.0@, self.1 as int),
            ),
            res matches Some(v) ==> v@ == (
                self.0@,
                shift_index(delta as int, var.0@, var.1 as int, self.0@, self.1 as int),
            ),
    {
        if self.0.same(&var.0) && var.1 <= self.1 {
            match offset_index(self.1, delta) {
                Some(k) => Some(V(self.0.clone(), k)),
                None => None,
            }
        } else {
            Some(self.clone())
        }
    }
}

/// A binder: a name, and an id that no other binder of the derivation has.
#[derive(Debug, PartialEq, Eq)]
pub struct Binder {
    pub name: Label,
    pub uid: u64,
}

/// A [`Binder`] as a mathematical value.
pub struct BinderModel {
    pub name: Seq<char>,
    pub uid: int,
}

impl View for Binder {
    type V = BinderModel;

    open spec fn view(&self) -> BinderModel {
        BinderModel { name: self.name@, uid: self.uid as int }
    }
}

impl Clone for Binder {
    fn clone(&self) -> (res: Binder)
        ensures
            res@ == self@,
    {
        Binder { name: self.name.clone(), uid: self.uid }
    }
}

impl Binder {
    pub fn new(name: Label, uid: u64) -> (res: Binder)
        ensures
            res@ == (BinderModel { name: name@, uid: uid as int }),
    {
        Binder { name, uid }
    }

    /// The name of the binder.
    pub fn name(&self) -> (res: &Label)
        ensures
            res@ == self@.name,
    {
        &self.name
    }

    /// A copy of the name of the binder.
    pub fn to_label(&self) -> (res: Label)
        ensures
            res@ == self@.name,
    {
        self.name.clone()
    }

    /// Whether this is the binder `other`: whether they have the same id.
    pub fn same_binder(&self, other: &Binder) -> (res: bool)
        ensures
            res == (self@.uid == other@.uid),
    {
        self.uid == other.uid
    }
}

/// The source of the ids of the binders of one derivation: a counter, of
/// which there is one for all the contexts that are made from one another.
/// It only counts upwards, and it cannot be copied: every id it hands out is
/// greater than those it has handed out before.
#[derive(Debug, PartialEq, Eq)]
pub struct BinderIds {
    next: u64,
}

impl View for BinderIds {
    type V = int;

    /// The id that the next new binder gets.
    closed spec fn view(&self) -> int {
        self.next as int
    }
}

impl BinderIds {
    /// The ids of a new derivation: the first binder gets the id 0.
    pub fn new() -> (res: BinderIds)
        ensures
            res@ == 0,
    {
        BinderIds { next: 0 }
    }

    /// The ids of a new derivation whose first binder gets the id `first`.
    pub fn starting_at(first: u64) -> (res: BinderIds)
        ensures
            res@ == first,
    {
        BinderIds { next: first }
    }

    /// The id that the next new binder gets.
    pub fn upcoming(&self) -> (res: u64)
        ensures
            res == self@,
    {
        self.next
    }

    /// A new binder named `l`, with an id that no binder made before has:
    /// the id is the one that was upcoming, and the next one is one greater.
    ///
    /// Returns `None` exactly where the ids are used up.
    pub fn next_binder(&mut self, l: &Label) -> (res: Option<Binder>)
        ensures
            match res {
                Some(b) => old(self)@ < u64::MAX && b@ == (BinderModel {
                    name: l@,
                    uid: old(self)@,
                }) && final(self)@ == old(self)@ + 1,
                None => old(self)@ == u64::MAX && final(self)@ == old(self)@,
            },
    {
        if self.next == u64::MAX {
            return None;
        }
        let uid = self.next;
        self.next = uid + 1;
        Some(Binder::new(l.clone(), uid))
    }
}

/// A variable with its two indices: `normal` counts the binders of its name
/// that are skipped, `alpha` counts all binders that are skipped.
#[derive(Debug, PartialEq, Eq)]
pub struct AlphaVar {
    pub normal: V,
    pub alpha: usize,
}

/// An [`AlphaVar`] as a mathematical value.
pub struct AlphaVarModel {
    pub name: Seq<char>,
    pub index: int,
    pub alpha: int,
}

impl View for AlphaVar {
    type V = AlphaVarModel;

    open spec fn view(&self) -> AlphaVarModel {
        AlphaVarModel { name: self.normal.0@, index: self.normal.1 as int, alpha: self.alpha as int }
    }
}

impl Clone for AlphaVar {
    fn clone(&self) -> (res: AlphaVar)
        ensures
            res@ == self@,
    {
        AlphaVar { normal: self.normal.clone(), alpha: self.alpha }
    }
}

/// The variable that refers to the innermost binder, which has the name `name`.
pub open spec fn innermost(name: Seq<char>) -> AlphaVarModel {
    AlphaVarModel { name, index: 0, alpha: 0 }
}

/// The variable `v` after a shift by `delta` over `var`. Its first index moves
/// where it has the name of `var` and is at least that of `var`; its second
/// where it is at least that of `var`. `None` where one of them would leave
/// the range of `usize`.
pub open spec fn alpha_shifted(v: AlphaVarModel, delta: int, var: AlphaVarModel) -> Option<
    AlphaVarModel,
> {
    let index = shift_index(delta, var.name, var.index, v.name, v.index);
    let alpha = if var.alpha <= v.alpha {
        v.alpha + delta
    } else {
        v.alpha
    };
    if index_in_range(index) && index_in_range(alpha) {
        Some(AlphaVarModel { name: v.name, index, alpha })
    } else {
        None
    }
}

impl AlphaVar {
    /// The variable that refers to `b` from directly below it.
    pub fn from_binder(b: &Binder) -> (res: AlphaVar)
        ensures
            res@ == innermost(b@.name),
    {
        AlphaVar { normal: V(b.name.clone(), 0), alpha: 0 }
    }

    /// The variable that refers to a binder named `l` from directly below it.
    pub fn from_label(l: &Label) -> (res: AlphaVar)
        ensures
            res@ == innermost(l@),
    {
        AlphaVar { normal: V(l.clone(), 0), alpha: 0 }
    }

    /// This variable after a shift by `delta` over `var`.
    pub fn shift(&self, delta: isize, var: &AlphaVar) -> (res: Option<AlphaVar>)
        ensures
            res is Some <==> alpha_shifted(self@, delta as int, var@) is Some,
            res matches Some(v) ==> Some(v@) == alpha_shifted(self@, delta as int, var@),
    {
        let normal = match self.normal.shift(delta, &var.normal) {
            Some(v) => v,
            None => {
                return None;
            },
        };
        let alpha = if var.alpha <= self.alpha {
            match offset_index(self.alpha, delta) {
                Some(k) => k,
                None => {
                    return None;
                },
            }
        } else {
            self.alpha
        };
        Some(AlphaVar { normal, alpha })
    }

    /// This variable as seen from above the binder `b`; `None` where it refers to `b`.
    pub fn over_binder(&self, b: &Binder) -> (res: Option<AlphaVar>)
        ensures
            res is Some <==> alpha_shifted(self@, -1, innermost(b@.name)) is Some,
            res matches Some(v) ==> Some(v@) == alpha_shifted(self@, -1, innermost(b@.name)),
    {
        self.shift(-1, &AlphaVar::from_binder(b))
    }
}

/// The binders in force, innermost last, for finding the index of one of them.
#[derive(Debug)]
pub struct VarCtx<'b> {
    pub ctx: Vec<&'b Binder>,
}

/// The binders that a list of references points to.
pub open spec fn binder_models(s: Seq<&Binder>) -> Seq<BinderModel> {
    Seq::new(s.len(), |i: int| s[i]@)
}

impl<'b> View for VarCtx<'b> {
    type V = Seq<BinderModel>;

    open spec fn view(&self) -> Seq<BinderModel> {
        binder_models(self.ctx@)
    }
}

/// How many binders named `name` stand inside the innermost binder that has
/// this name and the id `uid`; `None` where the binders hold none such.
pub open spec fn index_by_name(s: Seq<BinderModel>, name: Seq<char>, uid: int) -> Option<int>
    decreases s.len(),
{
    if s.len() == 0 {
        None
    } else if s.last().name == name {
        if s.last().uid == uid {
            Some(0)
        } else {
            match index_by_name(s.drop_last(), name, uid) {
                Some(k) => Some(k + 1),
                None => None,
            }
        }
    } else {
        index_by_name(s.drop_last(), name, uid)
    }
}

impl<'b> VarCtx<'b> {
    /// No binders.
    pub fn new() -> (res: VarCtx<'b>)
        ensures
            res@ == Seq::<BinderModel>::empty(),
    {
        let res = VarCtx { ctx: Vec::new() };
        assert(res@ =~= Seq::<BinderModel>::empty());
        res
    }

    /// The binders with `binder` as the new innermost one.
    pub fn insert(&self, binder: &'b Binder) -> (res: VarCtx<'b>)
        ensures
            res@ == self@.push(binder@),
    {
        let mut ctx: Vec<&'b Binder> = Vec::new();
        let mut i: usize = 0;
        while i < self.ctx.len()
            invariant
                i <= self.ctx.len(),
                ctx@.len() == i,
                forall|j: int| 0 <= j < i ==> ctx@[j] == self.ctx@[j],
            decreases self.ctx.len() - i,
        {
            ctx.push(self.ctx[i]);
            i += 1;
        }
        ctx.push(binder);
        let res = VarCtx { ctx };
        assert(res@ =~= self@.push(binder@));
        res
    }

    /// How many binders stand inside the innermost one that is `binder`;
    /// `None` where none is.
    pub fn lookup(&self, binder: &Binder) -> (res: Option<usize>)
        ensures
            match res {
                Some(i) => i < self@.len() && self@[self@.len() - 1 - i].uid == binder@.uid
                    && forall|j: int|
                    0 <= j < i ==> (#[trigger] self@[self@.len() - 1 - j]).uid != binder@.uid,
                None => forall|j: int| 0 <= j < self@.len() ==> (#[trigger] self@[j]).uid != binder@.uid,
            },
    {
        let n = self.ctx.len();
        let mut i: usize = 0;
        while i < n
            invariant
                n == self.ctx.len(),
                i <= n,
                forall|j: int| 0 <= j < i ==> (#[trigger] self@[n - 1 - j]).uid != binder@.uid,
            decreases n - i,
        {
            if binder.same_binder(self.ctx[n - 1 - i]) {
                return Some(i);
            }
            i += 1;
        }
        assert forall|j: int| 0 <= j < self@.len() implies (#[trigger] self@[j]).uid
            != binder@.uid by {
            assert(self@[n - 1 - (n - 1 - j)].uid != binder@.uid);
        }
        None
    }

    /// How many binders with the name of `binder` stand inside the innermost
    /// one that has this name and is `binder`; `None` where none is.
    pub fn lookup_by_name(&self, binder: &Binder) -> (res: Option<usize>)
        ensures
            res is Some <==> index_by_name(self@, binder@.name, binder@.uid) is Some,
            res matches Some(k) ==> Some(k as int) == index_by_name(
                self@,
                binder@.name,
                binder@.uid,
            ),
    {
        let mut i: usize = self.ctx.len();
        let mut k: usize = 0;
        assert(self@.take(i as int) =~= self@);
        while i > 0
            invariant
                i <= self.ctx.len(),
                k <= self.ctx.len() - i,
                index_by_name(self@, binder@.name, binder@.uid) == (match index_by_name(
                    self@.take(i as int),
                    binder@.name,
                    binder@.uid,
                ) {
                    Some(m) => Some(m + k),
                    None => None,
                }),
            decreases i,
        {
            i -= 1;
            assert(self@.take(i + 1).drop_last() =~= self@.take(i as int));
            assert(self@.take(i + 1).last() == self@[i as int]);
            if binder.name().same(self.ctx[i].name()) {
                if binder.same_binder(self.ctx[i]) {
                    return Some(k);
                }
                k += 1;
            }
        }
        None
    }
}

} // verus!
