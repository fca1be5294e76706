//! A typing context over binders with ids, which holds for each binder either
//! its type or the value that has taken its place.

use crate::binder::{
    alpha_shifted, innermost, AlphaVar, AlphaVarModel, Binder, BinderIds, BinderModel,
};
use crate::error::TypeError;
use crate::shift::{shift, shift_fits, shift_term};
use crate::subst::{subst_shift, subst_shift_fits, subst_shifted};
use crate::syntax::{Expr, Label, Term, V};
use vstd::prelude::*;

verus! {

/// A term together with its type, where that is known.
#[derive(Debug, PartialEq, Eq)]
pub struct Value {
    pub term: Expr,
    pub ty: Option<Expr>,
}

/// A [`Value`] as a mathematical value.
pub struct ValueModel {
    pub term: Term,
    pub ty: Option<Term>,
}

impl View for Value {
    type V = ValueModel;

    open spec fn view(&self) -> ValueModel {
        ValueModel { term: self.term@, ty: Expr::optional(self.ty) }
    }
}

impl Clone for Value {
    fn clone(&self) -> (res: Value)
        ensures
            res@ == self@,
    {
        Value {
            term: self.term.clone(),
            ty: match &self.ty {
                Some(t) => Some(t.clone()),
                None => None,
            },
        }
    }
}

/// The value `v` after a shift by `delta` over `var`, in its term and in its
/// type; `None` where an index would leave the range of `usize`.
pub open spec fn value_shifted(v: ValueModel, delta: int, var: AlphaVarModel) -> Option<ValueModel> {
    if shift_fits(delta, var.name, var.index, v.term) && (match v.ty {
        Some(t) => shift_fits(delta, var.name, var.index, t),
        None => true,
    }) {
        Some(
            ValueModel {
                term: shift_term(delta, var.name, var.index, v.term),
                ty: match v.ty {
                    Some(t) => Some(shift_term(delta, var.name, var.index, t)),
                    None => None,
                },
            },
        )
    } else {
        None
    }
}

/// The value `v` taken out of the binder that `var` refers to, with the term
/// of `val` for that variable, in its term and in its type; `None` where an
/// index would leave the range of `usize`.
pub open spec fn value_subst(v: ValueModel, var: AlphaVarModel, val: ValueModel) -> Option<
    ValueModel,
> {
    if subst_shift_fits(var.name, var.index, val.term, v.term) && (match v.ty {
        Some(t) => subst_shift_fits(var.name, var.index, val.term, t),
        None => true,
    }) {
        Some(
            ValueModel {
                term: subst_shifted(var.name, var.index, val.term, v.term),
                ty: match v.ty {
                    Some(t) => Some(subst_shifted(var.name, var.index, val.term, t)),
                    None => None,
                },
            },
        )
    } else {
        None
    }
}

impl Value {
    /// The variable `var` as a value of type `t`.
    pub fn from_kind_and_type(var: AlphaVar, t: Value) -> (res: Value)
        ensures
            res@ == (ValueModel { term: Term::Var(var@.name, var@.index), ty: Some(t@.term) }),
    {
        Value { term: Expr::Var(var.normal), ty: Some(t.term) }
    }

    /// This value after a shift by `delta` over `var`.
    pub fn shift(&self, delta: isize, var: &AlphaVar) -> (res: Option<Value>)
        ensures
            res is Some <==> value_shifted(self@, delta as int, var@) is Some,
            res matches Some(v) ==> Some(v@) == value_shifted(self@, delta as int, var@),
    {
        let term = match shift(delta, &var.normal, &self.term) {
            Some(t) => t,
            None => {
                return None;
            },
        };
        let ty = match &self.ty {
            Some(t) => match shift(delta, &var.normal, t) {
                Some(t) => Some(t),
                None => {
                    return None;
                },
            },
            None => None,
        };
        Some(Value { term, ty })
    }

    /// This value as seen from below the binder `x`.
    pub fn under_binder(&self, x: &Binder) -> (res: Option<Value>)
        ensures
            res is Some <==> value_shifted(self@, 1, innermost(x@.name)) is Some,
            res matches Some(v) ==> Some(v@) == value_shifted(self@, 1, innermost(x@.name)),
    {
        self.shift(1, &AlphaVar::from_binder(x))
    }

    /// This value taken out of the binder that `var` refers to, with `val` for that variable.
    pub fn subst_shift(&self, var: &AlphaVar, val: &Value) -> (res: Option<Value>)
        ensures
            res is Some <==> value_subst(self@, var@, val@) is Some,
            res matches Some(v) ==> Some(v@) == value_subst(self@, var@, val@),
    {
        let term = match subst_shift(&var.normal, &val.term, &self.term) {
            Some(t) => t,
            None => {
                return None;
            },
        };
        let ty = match &self.ty {
            Some(t) => match subst_shift(&var.normal, &val.term, t) {
                Some(t) => Some(t),
                None => {
                    return None;
                },
            },
            None => None,
        };
        Some(Value { term, ty })
    }
}

/// What a context holds for a binder: the variable that refers to it and its
/// type, or the value that has taken the place of the variable.
#[derive(Debug, PartialEq, Eq)]
pub enum CtxItem {
    Kept(AlphaVar, Value),
    Replaced(Value),
}

/// A [`CtxItem`] as a mathematical value.
pub enum ItemModel {
    Kept(AlphaVarModel, ValueModel),
    Replaced(ValueModel),
}

impl View for CtxItem {
    type V = ItemModel;

    open spec fn view(&self) -> ItemModel {
        match self {
            CtxItem::Kept(v, t) => ItemModel::Kept(v@, t@),
            CtxItem::Replaced(e) => ItemModel::Replaced(e@),
        }
    }
}

impl Clone for CtxItem {
    fn clone(&self) -> (res: CtxItem)
        ensures
            res@ == self@,
    {
        match self {
            CtxItem::Kept(v, t) => CtxItem::Kept(v.clone(), t.clone()),
            CtxItem::Replaced(e) => CtxItem::Replaced(e.clone()),
        }
    }
}

/// The item after a shift by `delta` over `var`; `None` where an index would
/// leave the range of `usize`.
pub open spec fn item_shifted(item: ItemModel, delta: int, var: AlphaVarModel) -> Option<ItemModel> {
    match item {
        ItemModel::Kept(v, t) => match (alpha_shifted(v, delta, var), value_shifted(t, delta, var)) {
            (Some(v2), Some(t2)) => Some(ItemModel::Kept(v2, t2)),
            _ => None,
        },
        ItemModel::Replaced(e) => match value_shifted(e, delta, var) {
            Some(e2) => Some(ItemModel::Replaced(e2)),
            None => None,
        },
    }
}

/// The item after `val` has taken the place of `var`. An item kept for `var`
/// itself becomes `val`; `None` where an index would leave the range of `usize`.
pub open spec fn item_subst(item: ItemModel, var: AlphaVarModel, val: ValueModel) -> Option<
    ItemModel,
> {
    match item {
        ItemModel::Replaced(e) => match value_subst(e, var, val) {
            Some(e2) => Some(ItemModel::Replaced(e2)),
            None => None,
        },
        ItemModel::Kept(v, t) => match alpha_shifted(v, -1, var) {
            None => Some(ItemModel::Replaced(val)),
            Some(v2) => match value_subst(t, var, val) {
                Some(t2) => Some(ItemModel::Kept(v2, t2)),
                None => None,
            },
        },
    }
}

/// The item as seen from below binders with the names `passed[k..]`, entered
/// in that order; `None` where an index would leave the range of `usize`.
pub open spec fn item_under(item: ItemModel, passed: Seq<Seq<char>>, k: int) -> Option<ItemModel>
    decreases passed.len() - k,
{
    if k < 0 || k >= passed.len() {
        Some(item)
    } else {
        match item_shifted(item, 1, innermost(passed[k])) {
            Some(item2) => item_under(item2, passed, k + 1),
            None => None,
        }
    }
}

/// The value that a lookup gives for an item: the variable with its type, or
/// the value in its place.
pub open spec fn item_value(item: ItemModel) -> ValueModel {
    match item {
        ItemModel::Kept(v, t) => ValueModel { term: Term::Var(v.name, v.index), ty: Some(t.term) },
        ItemModel::Replaced(e) => e,
    }
}

/// The names of a list of labels.
pub open spec fn names(s: Seq<Label>) -> Seq<Seq<char>> {
    Seq::new(s.len(), |i: int| s[i]@)
}

impl CtxItem {
    /// This item after a shift by `delta` over `var`.
    pub fn shift(&self, delta: isize, var: &AlphaVar) -> (res: Option<CtxItem>)
        ensures
            res is Some <==> item_shifted(self@, delta as int, var@) is Some,
            res matches Some(i) ==> Some(i@) == item_shifted(self@, delta as int, var@),
    {
        match self {
            CtxItem::Kept(v, t) => {
                let v2 = v.shift(delta, var);
                let t2 = t.shift(delta, var);
                match (v2, t2) {
                    (Some(v2), Some(t2)) => Some(CtxItem::Kept(v2, t2)),
                    _ => None,
                }
            },
            CtxItem::Replaced(e) => match e.shift(delta, var) {
                Some(e2) => Some(CtxItem::Replaced(e2)),
                None => None,
            },
        }
    }

    /// This item after `val` has taken the place of `var`.
    pub fn subst_shift(&self, var: &AlphaVar, val: &Value) -> (res: Option<CtxItem>)
        ensures
            res is Some <==> item_subst(self@, var@, val@) is Some,
            res matches Some(i) ==> Some(i@) == item_subst(self@, var@, val@),
    {
        match self {
            CtxItem::Replaced(e) => match e.subst_shift(var, val) {
                Some(e2) => Some(CtxItem::Replaced(e2)),
                None => None,
            },
            CtxItem::Kept(v, t) => match v.shift(-1, var) {
                None => Some(CtxItem::Replaced(val.clone())),
                Some(v2) => match t.subst_shift(var, val) {
                    Some(t2) => Some(CtxItem::Kept(v2, t2)),
                    None => None,
                },
            },
        }
    }

    /// This item as seen from below binders with the names `passed`, entered in that order.
    pub fn under_multiple_binders(&self, passed: &Vec<Label>) -> (res: Option<CtxItem>)
        ensures
            res is Some <==> item_under(self@, names(passed@), 0) is Some,
            res matches Some(i) ==> Some(i@) == item_under(self@, names(passed@), 0),
    {
        let mut item = self.clone();
        let mut k: usize = 0;
        while k < passed.len()
            invariant
                k <= passed.len(),
                item_under(self@, names(passed@), 0) == item_under(item@, names(passed@), k as int),
            decreases passed.len() - k,
        {
            item = match item.shift(1, &AlphaVar::from_label(&passed[k])) {
                Some(i) => i,
                None => {
                    return None;
                },
            };
            k += 1;
        }
        Some(item)
    }
}

/// What is done to the items of a context: a shift by some amount, or a
/// value that takes the place of a variable.
#[derive(Debug, PartialEq, Eq)]
pub enum Change {
    Shift(isize),
    Subst(Value),
}

/// A [`Change`] as a mathematical value.
pub enum ChangeModel {
    Shift(int),
    Subst(ValueModel),
}

impl View for Change {
    type V = ChangeModel;

    open spec fn view(&self) -> ChangeModel {
        match self {
            Change::Shift(delta) => ChangeModel::Shift(*delta as int),
            Change::Subst(val) => ChangeModel::Subst(val@),
        }
    }
}

/// The item after the change, made for the variable `var`.
pub open spec fn item_changed(item: ItemModel, change: ChangeModel, var: AlphaVarModel) -> Option<
    ItemModel,
> {
    match change {
        ChangeModel::Shift(delta) => item_shifted(item, delta, var),
        ChangeModel::Subst(val) => item_subst(item, var, val),
    }
}

/// The frames of a context as mathematical values.
pub open spec fn frame_models(s: Seq<(Binder, CtxItem)>) -> Seq<(BinderModel, ItemModel)> {
    Seq::new(s.len(), |i: int| (s[i].0@, s[i].1@))
}

/// The value that the frames give to the variable `V(x, n)`, where `passed`
/// holds the names of the binders with a type that stand inside `frames`: the
/// item of the frame named `x` that is reached after `n` others of that name,
/// seen from below the binders passed on the way. `None` where no frame binds
/// the variable, or where an index would leave the range of `usize`.
pub open spec fn lookup_items(
    frames: Seq<(BinderModel, ItemModel)>,
    x: Seq<char>,
    n: int,
    passed: Seq<Seq<char>>,
) -> Option<ValueModel>
    decreases frames.len(),
{
    if frames.len() == 0 {
        None
    } else if frames.last().0.name == x && n == 0 {
        match item_under(frames.last().1, passed, 0) {
            Some(item) => Some(item_value(item)),
            None => None,
        }
    } else {
        lookup_items(
            frames.drop_last(),
            x,
            if frames.last().0.name == x {
                n - 1
            } else {
                n
            },
            if frames.last().1 is Kept {
                passed.push(frames.last().0.name)
            } else {
                passed
            },
        )
    }
}

/// The first `n` frames after a change made for the variable `var`, which
/// makes sense below all of them. Each item is changed for the variable as it
/// is seen from that item. Beyond the binder that the variable refers to it
/// means nothing, and the frames further out stay as they are. `None` where
/// an index would leave the range of `usize`.
pub open spec fn changed_frames(
    frames: Seq<(BinderModel, ItemModel)>,
    n: int,
    change: ChangeModel,
    var: AlphaVarModel,
) -> Option<Seq<(BinderModel, ItemModel)>>
    decreases n,
{
    if n <= 0 || n > frames.len() {
        Some(Seq::empty())
    } else {
        let b = frames[n - 1].0;
        let item = frames[n - 1].1;
        match item_changed(item, change, var) {
            None => None,
            Some(item2) => {
                let outer = if item is Kept {
                    match alpha_shifted(var, -1, innermost(b.name)) {
                        None => Some(frames.take(n - 1)),
                        Some(var2) => changed_frames(frames, n - 1, change, var2),
                    }
                } else {
                    changed_frames(frames, n - 1, change, var)
                };
                match outer {
                    Some(s) => Some(s.push((b, item2))),
                    None => None,
                }
            },
        }
    }
}

/// A typing context over binders with ids.
///
/// It holds no counter of ids: the ids of one derivation come from one
/// [`BinderIds`], which is handed to [`TyCtx::new_binder`] by every context
/// of that derivation.
#[derive(Debug, PartialEq, Eq)]
pub struct TyCtx {
    pub ctx: Vec<(Binder, CtxItem)>,
}

impl View for TyCtx {
    type V = Seq<(BinderModel, ItemModel)>;

    open spec fn view(&self) -> Seq<(BinderModel, ItemModel)> {
        frame_models(self.ctx@)
    }
}

/// What an optional context says, as a mathematical value.
pub open spec fn optional_frames(r: Option<TyCtx>) -> Option<Seq<(BinderModel, ItemModel)>> {
    match r {
        Some(c) => Some(c@),
        None => None,
    }
}

impl TyCtx {
    /// The context without binders.
    pub fn new() -> (res: TyCtx)
        ensures
            res@ == Seq::<(BinderModel, ItemModel)>::empty(),
    {
        let res = TyCtx { ctx: Vec::new() };
        assert(res@ =~= Seq::<(BinderModel, ItemModel)>::empty());
        res
    }

    /// A context of the frames `vec`, in the derivation of this one.
    pub fn with_vec(&self, vec: Vec<(Binder, CtxItem)>) -> (res: TyCtx)
        ensures
            res@ == frame_models(vec@),
    {
        TyCtx { ctx: vec }
    }

    /// A copy of the first `n` frames.
    pub fn frames_before(&self, n: usize) -> (res: Vec<(Binder, CtxItem)>)
        requires
            n <= self.ctx@.len(),
        ensures
            frame_models(res@) == self@.take(n as int),
    {
        let mut vec: Vec<(Binder, CtxItem)> = Vec::new();
        let mut i: usize = 0;
        while i < n
            invariant
                i <= n,
                n <= self.ctx@.len(),
                vec@.len() == i,
                forall|j: int|
                    0 <= j < i ==> (#[trigger] vec@[j]).0@ == self.ctx@[j].0@ && vec@[j].1@
                        == self.ctx@[j].1@,
            decreases n - i,
        {
            vec.push((self.ctx[i].0.clone(), self.ctx[i].1.clone()));
            i += 1;
        }
        assert(frame_models(vec@) =~= self@.take(n as int));
        vec
    }

    /// The context below the binder `x` of type `t`: the new frame keeps the
    /// variable that refers to `x`, with `t` as seen from below `x`.
    ///
    /// Returns `None` exactly where shifting `t` would take an index out of
    /// the range of `usize`.
    pub fn insert_type(&self, x: &Binder, t: Value) -> (res: Option<TyCtx>)
        ensures
            res is Some <==> value_shifted(t@, 1, innermost(x@.name)) is Some,
            res matches Some(c) ==> c@ == self@.push(
                (
                    x@,
                    ItemModel::Kept(
                        innermost(x@.name),
                        value_shifted(t@, 1, innermost(x@.name))->0,
                    ),
                ),
            ),
    {
        let t2 = match t.under_binder(x) {
            Some(t2) => t2,
            None => {
                return None;
            },
        };
        let mut vec = self.frames_before(self.ctx.len());
        assert(self@.take(self.ctx@.len() as int) =~= self@);
        let ghost before = frame_models(vec@);
        vec.push((x.clone(), CtxItem::Kept(AlphaVar::from_binder(x), t2)));
        assert(frame_models(vec@) =~= before.push(
            (x@, ItemModel::Kept(innermost(x@.name), t2@)),
        ));
        Some(self.with_vec(vec))
    }

    /// The context below the binder `x`, whose place the value `e` has taken.
    /// It never fails.
    pub fn insert_value(&self, x: &Binder, e: Value) -> (res: Result<TyCtx, TypeError>)
        ensures
            res matches Ok(c) && c@ == self@.push((x@, ItemModel::Replaced(e@))),
    {
        let mut vec = self.frames_before(self.ctx.len());
        assert(self@.take(self.ctx@.len() as int) =~= self@);
        let ghost before = frame_models(vec@);
        vec.push((x.clone(), CtxItem::Replaced(e)));
        assert(frame_models(vec@) =~= before.push((x@, ItemModel::Replaced(e@))));
        Ok(self.with_vec(vec))
    }

    /// The value of the variable `var`: for a binder with a type, the variable
    /// with that type; for a binder whose place a value has taken, that
    /// value; each as seen from below the binders passed on the way to it.
    ///
    /// Returns `None` where no binder of the context binds the variable, or
    /// where an index would leave the range of `usize`.
    pub fn lookup(&self, var: &V) -> (res: Option<Value>)
        ensures
            res is Some <==> lookup_items(self@, var.0@, var.1 as int, Seq::empty()) is Some,
            res matches Some(v) ==> Some(v@) == lookup_items(
                self@,
                var.0@,
                var.1 as int,
                Seq::empty(),
            ),
    {
        let mut n: usize = var.1;
        let mut passed: Vec<Label> = Vec::new();
        let mut i: usize = self.ctx.len();
        assert(self@.take(i as int) =~= self@);
        assert(names(passed@) =~= Seq::empty());
        while i > 0
            invariant
                i <= self.ctx.len(),
                lookup_items(self@, var.0@, var.1 as int, Seq::empty()) == lookup_items(
                    self@.take(i as int),
                    var.0@,
                    n as int,
                    names(passed@),
                ),
            decreases i,
        {
            i -= 1;
            assert(self@.take(i + 1).drop_last() =~= self@.take(i as int));
            assert(self@.take(i + 1).last() == self@[i as int]);
            let named = self.ctx[i].0.name().same(&var.0);
            if named && n == 0 {
                return match self.ctx[i].1.under_multiple_binders(&passed) {
                    Some(CtxItem::Kept(newvar, t)) => Some(Value::from_kind_and_type(newvar, t)),
                    Some(CtxItem::Replaced(v)) => Some(v),
                    None => None,
                };
            }
            if named {
                n -= 1;
            }
            if let CtxItem::Kept(_, _) = &self.ctx[i].1 {
                let ghost before = names(passed@);
                passed.push(self.ctx[i].0.to_label());
                assert(names(passed@) =~= before.push(self.ctx[i as int].0@.name));
            }
        }
        None
    }

    /// A new binder named `l`, with the next id of the derivation: the ids
    /// come from `ids`, which every context of one derivation is given, so
    /// that no two binders of the derivation have the same id and a later
    /// binder has the greater one.
    ///
    /// Returns `None` exactly where the ids are used up.
    pub fn new_binder(&self, ids: &mut BinderIds, l: &Label) -> (res: Option<Binder>)
        ensures
            match res {
                Some(b) => old(ids)@ < u64::MAX && b@ == (BinderModel { name: l@, uid: old(ids)@ })
                    && final(ids)@ == old(ids)@ + 1,
                None => old(ids)@ == u64::MAX && final(ids)@ == old(ids)@,
            },
    {
        ids.next_binder(l)
    }

    /// The first `n` frames after `change`, made for the variable `var`.
    pub fn changed_before(&self, n: usize, change: &Change, var: &AlphaVar) -> (res: Option<
        Vec<(Binder, CtxItem)>,
    >)
        requires
            n <= self.ctx@.len(),
        ensures
            res is Some <==> changed_frames(self@, n as int, change@, var@) is Some,
            res matches Some(vec) ==> Some(frame_models(vec@)) == changed_frames(
                self@,
                n as int,
                change@,
                var@,
            ),
        decreases n,
    {
        if n == 0 {
            let vec: Vec<(Binder, CtxItem)> = Vec::new();
            assert(frame_models(vec@) =~= Seq::empty());
            return Some(vec);
        }
        let item2 = match change {
            Change::Shift(delta) => self.ctx[n - 1].1.shift(*delta, var),
            Change::Subst(val) => self.ctx[n - 1].1.subst_shift(var, val),
        };
        let item2 = match item2 {
            Some(item2) => item2,
            None => {
                return None;
            },
        };
        let kept = match &self.ctx[n - 1].1 {
            CtxItem::Kept(_, _) => true,
            CtxItem::Replaced(_) => false,
        };
        let outer = if kept {
            match var.over_binder(&self.ctx[n - 1].0) {
                None => Some(self.frames_before(n - 1)),
                Some(var2) => self.changed_before(n - 1, change, &var2),
            }
        } else {
            self.changed_before(n - 1, change, var)
        };
        match outer {
            Some(mut vec) => {
                let ghost before = frame_models(vec@);
                vec.push((self.ctx[n - 1].0.clone(), item2));
                assert(frame_models(vec@) =~= before.push((self.ctx@[n - 1].0@, item2@)));
                Some(vec)
            },
            None => None,
        }
    }

    /// The context after `change`, made for the variable `var`, which makes
    /// sense below all its binders. Each item is changed for the variable as
    /// it is seen from that item; the frames beyond the binder that the
    /// variable refers to stay as they are.
    pub fn do_with_var(&self, var: &AlphaVar, change: &Change) -> (res: Option<TyCtx>)
        ensures
            optional_frames(res) == changed_frames(
                self@,
                self@.len() as int,
                change@,
                var@,
            ),
    {
        match self.changed_before(self.ctx.len(), change, var) {
            Some(vec) => Some(self.with_vec(vec)),
            None => None,
        }
    }

    /// The context after a shift by `delta` over `var`, which makes sense
    /// below all its binders. The shift stops at the binder that `var` refers
    /// to: each item from the innermost to that binder is shifted over the
    /// variable as it is seen from that item, and the frames beyond stay as
    /// they are.
    pub fn shift(&self, delta: isize, var: &AlphaVar) -> (res: Option<TyCtx>)
        ensures
            optional_frames(res) == changed_frames(
                self@,
                self@.len() as int,
                ChangeModel::Shift(delta as int),
                var@,
            ),
    {
        self.do_with_var(var, &Change::Shift(delta))
    }

    /// The context after `val` has taken the place of `var`.
    pub fn subst_shift(&self, var: &AlphaVar, val: &Value) -> (res: Option<TyCtx>)
        ensures
            optional_frames(res) == changed_frames(
                self@,
                self@.len() as int,
                ChangeModel::Subst(val@),
                var@,
            ),
    {
        self.do_with_var(var, &Change::Subst(val.clone()))
    }
}

} // verus!
