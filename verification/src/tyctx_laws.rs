//! The two contexts agree: binders entered with their types give, in the
//! context over binders with ids, the types that the context of frames gives.

use crate::binder::{alpha_shifted, innermost, AlphaVarModel, BinderModel};
use crate::context::{insert_frames, lookup_frames};
use crate::shift::{below, shift_alternatives, shift_fields, shift_term, shift_terms};
use crate::syntax::Term;
use crate::shift_laws::{shift_after_keeping, shift_by_zero, shift_keeps, shift_up_keeps};
use crate::tyctx::{
    changed_frames, item_shifted, item_under, lookup_items, value_shifted, ChangeModel, ItemModel,
    ValueModel,
};
use vstd::prelude::*;

verus! {

/// Shifts over variables of different names can be made in either order.
pub proof fn shift_commutes(
    d1: int,
    x: Seq<char>,
    m: int,
    d2: int,
    y: Seq<char>,
    n: int,
    t: Term,
)
    requires
        x != y,
    ensures
        shift_term(d1, x, m, shift_term(d2, y, n, t)) == shift_term(
            d2,
            y,
            n,
            shift_term(d1, x, m, t),
        ),
    decreases t,
{
    match t {
        Term::Lam(z, a, b) => {
            shift_commutes(d1, x, m, d2, y, n, *a);
            shift_commutes(d1, x, below(x, m, z), d2, y, below(y, n, z), *b);
        },
        Term::Pi(z, a, b) => {
            shift_commutes(d1, x, m, d2, y, n, *a);
            shift_commutes(d1, x, below(x, m, z), d2, y, below(y, n, z), *b);
        },
        Term::App(f, args) => {
            shift_commutes(d1, x, m, d2, y, n, *f);
            shift_commutes_terms(d1, x, m, d2, y, n, args);
        },
        Term::Let(z, ty, r, b) => {
            match ty {
                Some(u) => shift_commutes(d1, x, m, d2, y, n, *u),
                None => {},
            }
            shift_commutes(d1, x, m, d2, y, n, *r);
            shift_commutes(d1, x, below(x, m, z), d2, y, below(y, n, z), *b);
        },
        Term::Annot(e, u) => {
            shift_commutes(d1, x, m, d2, y, n, *e);
            shift_commutes(d1, x, m, d2, y, n, *u);
        },
        Term::BoolIf(c, u, e) => {
            shift_commutes(d1, x, m, d2, y, n, *c);
            shift_commutes(d1, x, m, d2, y, n, *u);
            shift_commutes(d1, x, m, d2, y, n, *e);
        },
        Term::EmptyListLit(u) => shift_commutes(d1, x, m, d2, y, n, *u),
        Term::NEListLit(first, rest) => {
            shift_commutes(d1, x, m, d2, y, n, *first);
            shift_commutes_terms(d1, x, m, d2, y, n, rest);
        },
        Term::EmptyOptionalLit(u) => shift_commutes(d1, x, m, d2, y, n, *u),
        Term::NEOptionalLit(e) => shift_commutes(d1, x, m, d2, y, n, *e),
        Term::RecordType(kts) => shift_commutes_fields(d1, x, m, d2, y, n, kts),
        Term::RecordLit(kvs) => shift_commutes_fields(d1, x, m, d2, y, n, kvs),
        Term::UnionType(kts) => {
            assert forall|i: int| 0 <= i < kts.len() implies (match (#[trigger] kts[i]).1 {
                Some(u) => shift_term(d1, x, m, shift_term(d2, y, n, u)) == shift_term(
                    d2,
                    y,
                    n,
                    shift_term(d1, x, m, u),
                ),
                None => true,
            }) by {
                match kts[i].1 {
                    Some(u) => shift_commutes(d1, x, m, d2, y, n, u),
                    None => {},
                }
            }
            assert(shift_alternatives(d1, x, m, shift_alternatives(d2, y, n, kts))
                =~= shift_alternatives(d2, y, n, shift_alternatives(d1, x, m, kts)));
        },
        Term::Field(r, _) => shift_commutes(d1, x, m, d2, y, n, *r),
        Term::BinOp(_, l, r) => {
            shift_commutes(d1, x, m, d2, y, n, *l);
            shift_commutes(d1, x, m, d2, y, n, *r);
        },
        _ => {},
    }
}

/// [`shift_commutes`] for the terms of a list.
pub proof fn shift_commutes_terms(
    d1: int,
    x: Seq<char>,
    m: int,
    d2: int,
    y: Seq<char>,
    n: int,
    s: Seq<Term>,
)
    requires
        x != y,
    ensures
        shift_terms(d1, x, m, shift_terms(d2, y, n, s)) == shift_terms(
            d2,
            y,
            n,
            shift_terms(d1, x, m, s),
        ),
    decreases s,
{
    assert forall|i: int| 0 <= i < s.len() implies shift_term(
        d1,
        x,
        m,
        shift_term(d2, y, n, #[trigger] s[i]),
    ) == shift_term(d2, y, n, shift_term(d1, x, m, s[i])) by {
        shift_commutes(d1, x, m, d2, y, n, s[i]);
    }
    assert(shift_terms(d1, x, m, shift_terms(d2, y, n, s)) =~= shift_terms(
        d2,
        y,
        n,
        shift_terms(d1, x, m, s),
    ));
}

/// [`shift_commutes`] for the terms of the entries of a record.
pub proof fn shift_commutes_fields(
    d1: int,
    x: Seq<char>,
    m: int,
    d2: int,
    y: Seq<char>,
    n: int,
    s: Seq<(Seq<char>, Term)>,
)
    requires
        x != y,
    ensures
        shift_fields(d1, x, m, shift_fields(d2, y, n, s)) == shift_fields(
            d2,
            y,
            n,
            shift_fields(d1, x, m, s),
        ),
    decreases s,
{
    assert forall|i: int| 0 <= i < s.len() implies shift_term(
        d1,
        x,
        m,
        shift_term(d2, y, n, (#[trigger] s[i]).1),
    ) == shift_term(d2, y, n, shift_term(d1, x, m, s[i].1)) by {
        shift_commutes(d1, x, m, d2, y, n, s[i].1);
    }
    assert(shift_fields(d1, x, m, shift_fields(d2, y, n, s)) =~= shift_fields(
        d2,
        y,
        n,
        shift_fields(d1, x, m, s),
    ));
}

/// The term as it reads from below a binder named `x`.
pub open spec fn lift(x: Seq<char>, t: Term) -> Term {
    shift_term(1, x, 0, t)
}

/// Binders can be entered in either order.
pub proof fn lift_commutes(x: Seq<char>, y: Seq<char>, t: Term)
    ensures
        lift(x, lift(y, t)) == lift(y, lift(x, t)),
{
    if x != y {
        shift_commutes(1, x, 0, 1, y, 0, t);
    }
}

/// The term as it reads from below the binders `names[from..]`, entered in
/// that order.
pub open spec fn lifted_up_to(t: Term, names: Seq<Seq<char>>, from: int) -> Term
    decreases names.len() - from,
{
    if from < 0 || from >= names.len() {
        t
    } else {
        lifted_up_to(lift(names[from], t), names, from + 1)
    }
}

/// The term as it reads from below the binders `names[from..]`, entered in
/// the opposite order.
pub open spec fn lifted_down_to(t: Term, names: Seq<Seq<char>>, from: int) -> Term
    decreases names.len() - from,
{
    if from < 0 || from >= names.len() {
        t
    } else {
        lift(names[from], lifted_down_to(t, names, from + 1))
    }
}

/// Entering one more binder first is entering it last.
pub proof fn lift_passes_through(z: Seq<char>, t: Term, names: Seq<Seq<char>>, from: int)
    ensures
        lifted_down_to(lift(z, t), names, from) == lift(z, lifted_down_to(t, names, from)),
    decreases names.len() - from,
{
    if 0 <= from < names.len() {
        lift_passes_through(z, t, names, from + 1);
        lift_commutes(names[from], z, lifted_down_to(t, names, from + 1));
    }
}

/// The order in which binders are entered does not matter to how a term
/// reads from below them.
pub proof fn up_is_down(t: Term, names: Seq<Seq<char>>, from: int)
    ensures
        lifted_up_to(t, names, from) == lifted_down_to(t, names, from),
    decreases names.len() - from,
{
    if 0 <= from < names.len() {
        up_is_down(lift(names[from], t), names, from + 1);
        lift_passes_through(names[from], t, names, from + 1);
    }
}

/// A binder that is entered after all others is entered last.
pub proof fn up_with_one_more(t: Term, names: Seq<Seq<char>>, z: Seq<char>, from: int)
    requires
        0 <= from <= names.len(),
    ensures
        lifted_up_to(t, names.push(z), from) == lift(z, lifted_up_to(t, names, from)),
    decreases names.len() - from,
{
    if from < names.len() {
        assert(names.push(z)[from] == names[from]);
        up_with_one_more(lift(names[from], t), names, z, from + 1);
    } else {
        assert(names.push(z)[from] == z);
        assert(lifted_up_to(lift(z, t), names.push(z), from + 1) == lift(z, t));
        assert(lifted_up_to(t, names, from) == t);
    }
}

/// How many of the names `passed[k..]` are the name `x`.
pub open spec fn count_from(passed: Seq<Seq<char>>, x: Seq<char>, k: int) -> int
    decreases passed.len() - k,
{
    if k < 0 || k >= passed.len() {
        0
    } else if passed[k] == x {
        1 + count_from(passed, x, k + 1)
    } else {
        count_from(passed, x, k + 1)
    }
}

/// One more name at the end is counted where it is the name looked for.
pub proof fn count_with_one_more(passed: Seq<Seq<char>>, z: Seq<char>, x: Seq<char>, k: int)
    requires
        0 <= k <= passed.len(),
    ensures
        count_from(passed.push(z), x, k) == count_from(passed, x, k) + (if z == x {
            1int
        } else {
            0int
        }),
    decreases passed.len() - k,
{
    if k < passed.len() {
        assert(passed.push(z)[k] == passed[k]);
        count_with_one_more(passed, z, x, k + 1);
    } else {
        assert(passed.push(z)[k] == z);
        assert(count_from(passed.push(z), x, k + 1) == 0);
        assert(count_from(passed, x, k) == 0);
    }
}

/// The item kept for a binder, seen from below the binders passed: its type
/// reads as from below them, and its variable skips those of its name.
pub proof fn kept_under(v: AlphaVarModel, value: ValueModel, passed: Seq<Seq<char>>, k: int)
    requires
        v.index >= 0,
        0 <= k,
        item_under(ItemModel::Kept(v, value), passed, k) is Some,
    ensures
        item_under(ItemModel::Kept(v, value), passed, k)->0 is Kept,
        item_under(ItemModel::Kept(v, value), passed, k)->0->Kept_0.name == v.name,
        item_under(ItemModel::Kept(v, value), passed, k)->0->Kept_0.index == v.index + count_from(
            passed,
            v.name,
            k,
        ),
        item_under(ItemModel::Kept(v, value), passed, k)->0->Kept_1.term == lifted_up_to(
            value.term,
            passed,
            k,
        ),
    decreases passed.len() - k,
{
    if k < passed.len() {
        let next = item_shifted(ItemModel::Kept(v, value), 1, innermost(passed[k]));
        assert(next is Some);
        let v2 = alpha_shifted(v, 1, innermost(passed[k]))->0;
        let value2 = value_shifted(value, 1, innermost(passed[k]))->0;
        assert(next == Some(ItemModel::Kept(v2, value2)));
        kept_under(v2, value2, passed, k + 1);
    }
}

/// Whether every frame keeps the variable of its binder with a type.
pub open spec fn all_kept(frames: Seq<(BinderModel, ItemModel)>) -> bool {
    forall|i: int|
        0 <= i < frames.len() ==> (#[trigger] frames[i]).1 is Kept && frames[i].1->Kept_0
            == innermost(frames[i].0.name)
}

/// The names of the binders of the frames.
pub open spec fn binder_names(frames: Seq<(BinderModel, ItemModel)>) -> Seq<Seq<char>> {
    Seq::new(frames.len(), |i: int| frames[i].0.name)
}

/// The frames of names and types that hold what the frames over binders
/// hold: each type as it reads from below the binders entered after its own.
pub open spec fn nominal_frames(frames: Seq<(BinderModel, ItemModel)>) -> Seq<(Seq<char>, Term)> {
    Seq::new(
        frames.len(),
        |i: int|
            (
                frames[i].0.name,
                lifted_up_to(frames[i].1->Kept_1.term, binder_names(frames), i + 1),
            ),
    )
}

/// Entering a binder with its type in the one context is entering it in the
/// other: the new frame keeps the variable of the binder `b` with the value
/// `stored`, whose term is the type `t` as it reads from below the binder.
pub proof fn insert_agrees(
    frames: Seq<(BinderModel, ItemModel)>,
    b: BinderModel,
    t: Term,
    stored: ValueModel,
)
    requires
        all_kept(frames),
        stored.term == lift(b.name, t),
    ensures
        all_kept(frames.push((b, ItemModel::Kept(innermost(b.name), stored)))),
        nominal_frames(frames.push((b, ItemModel::Kept(innermost(b.name), stored))))
            == insert_frames(nominal_frames(frames), b.name, t),
{
    let item = ItemModel::Kept(innermost(b.name), stored);
    let after = frames.push((b, item));
    let names = binder_names(frames);
    assert(binder_names(after) =~= names.push(b.name));
    let left = nominal_frames(after);
    let right = insert_frames(nominal_frames(frames), b.name, t);
    assert(left.len() == right.len());
    assert forall|i: int| 0 <= i < left.len() implies left[i] == right[i] by {
        if i < frames.len() {
            assert(after[i] == frames[i]);
            up_with_one_more(frames[i].1->Kept_1.term, names, b.name, i + 1);
            assert(nominal_frames(frames).push((b.name, t))[i] == nominal_frames(frames)[i]);
        } else {
            assert(after[i] == (b, item));
            assert(nominal_frames(frames).push((b.name, t))[i] == (b.name, t));
        }
    }
    assert(left =~= right);
}

/// A lookup in the first `i` frames, after the binders `passed` were passed.
/// Where the one context finds the variable, the other finds the type of
/// what the first has found.
pub proof fn lookup_agrees_within(
    frames: Seq<(BinderModel, ItemModel)>,
    i: int,
    x: Seq<char>,
    n: int,
    rest: int,
    passed: Seq<Seq<char>>,
)
    requires
        all_kept(frames),
        0 <= i <= frames.len(),
        rest >= 0,
        rest + count_from(passed, x, 0) == n,
        forall|t: Term| #[trigger]
            lifted_up_to(t, passed, 0) == lifted_down_to(t, binder_names(frames), i),
        lookup_items(frames.take(i), x, rest, passed) is Some,
    ensures
        lookup_items(frames.take(i), x, rest, passed)->0.term == Term::Var(x, n),
        Some(lookup_items(frames.take(i), x, rest, passed)->0.ty->0) == lookup_frames(
            nominal_frames(frames).take(i),
            x,
            rest,
        ),
        lookup_items(frames.take(i), x, rest, passed)->0.ty is Some,
    decreases i,
{
    let names = binder_names(frames);
    let nominal = nominal_frames(frames);
    if i > 0 {
        let last = frames[i - 1];
        assert(frames.take(i).last() == last);
        assert(frames.take(i).drop_last() =~= frames.take(i - 1));
        assert(nominal.take(i).last() == nominal[i - 1]);
        assert(nominal.take(i).drop_last() =~= nominal.take(i - 1));
        assert(last.1 is Kept && last.1->Kept_0 == innermost(last.0.name));
        let value = last.1->Kept_1;
        if last.0.name == x && rest == 0 {
            kept_under(innermost(x), value, passed, 0);
            up_is_down(value.term, names, i);
        } else {
            let next = passed.push(last.0.name);
            count_with_one_more(passed, last.0.name, x, 0);
            assert forall|t: Term| #[trigger]
                lifted_up_to(t, next, 0) == lifted_down_to(t, names, i - 1) by {
                up_with_one_more(t, passed, last.0.name, 0);
                assert(lifted_up_to(t, passed, 0) == lifted_down_to(t, names, i));
                assert(names[i - 1] == last.0.name);
            }
            let rest2 = if last.0.name == x {
                rest - 1
            } else {
                rest
            };
            if rest2 < 0 {
                lookup_items_needs_an_index(frames.take(i - 1), x, rest2, next);
            }
            lookup_agrees_within(frames, i - 1, x, n, rest2, next);
        }
    }
}

/// The frames bind no variable with a negative index.
pub proof fn lookup_items_needs_an_index(
    frames: Seq<(BinderModel, ItemModel)>,
    x: Seq<char>,
    n: int,
    passed: Seq<Seq<char>>,
)
    requires
        n < 0,
    ensures
        lookup_items(frames, x, n, passed) is None,
    decreases frames.len(),
{
    if frames.len() > 0 {
        lookup_items_needs_an_index(
            frames.drop_last(),
            x,
            if frames.last().0.name == x {
                n - 1
            } else {
                n
            },
            if frames.last().1 is Kept {
                passed.push(frames.last().0.name)
            } else {
                passed
            },
        );
    }
}

/// The two contexts agree on every variable: where the context over binders
/// with ids, which holds a type for each binder, finds a variable, it finds
/// the variable itself, with the type that the context of frames gives it.
pub proof fn lookup_agrees(frames: Seq<(BinderModel, ItemModel)>, x: Seq<char>, n: int)
    requires
        all_kept(frames),
        n >= 0,
        lookup_items(frames, x, n, Seq::empty()) is Some,
    ensures
        lookup_items(frames, x, n, Seq::empty())->0.term == Term::Var(x, n),
        lookup_items(frames, x, n, Seq::empty())->0.ty == lookup_frames(
            nominal_frames(frames),
            x,
            n,
        ),
{
    assert(frames.take(frames.len() as int) =~= frames);
    assert(nominal_frames(frames).take(frames.len() as int) =~= nominal_frames(frames));
    lookup_agrees_within(frames, frames.len() as int, x, n, n, Seq::empty());
}

/// Whether a shift by `delta` over `var` leaves each index of the variable
/// `v` that it changes at or above the index from which it shifts.
pub open spec fn alpha_keeps(v: AlphaVarModel, delta: int, var: AlphaVarModel) -> bool {
    (!(v.name == var.name && v.index >= var.index) || v.index + delta >= var.index) && (!(
    var.alpha <= v.alpha) || v.alpha + delta >= var.alpha)
}

/// Whether a shift by `delta` over `var` leaves every index that it changes
/// in the item at or above the index from which it shifts.
pub open spec fn item_keeps(item: ItemModel, delta: int, var: AlphaVarModel) -> bool {
    match item {
        ItemModel::Kept(v, t) => alpha_keeps(v, delta, var) && value_keeps(t, delta, var),
        ItemModel::Replaced(e) => value_keeps(e, delta, var),
    }
}

/// Whether a shift by `delta` over `var` leaves every index that it changes
/// in the term and in the type of the value at or above the index from which
/// it shifts.
pub open spec fn value_keeps(v: ValueModel, delta: int, var: AlphaVarModel) -> bool {
    shift_keeps(delta, var.name, var.index, v.term) && (match v.ty {
        Some(t) => shift_keeps(delta, var.name, var.index, t),
        None => true,
    })
}

/// Whether a shift of the first `n` frames by `delta` over `var` leaves, in
/// every item that it reaches, every index that it changes at or above the
/// index from which it shifts.
pub open spec fn frames_keep(
    frames: Seq<(BinderModel, ItemModel)>,
    n: int,
    delta: int,
    var: AlphaVarModel,
) -> bool
    decreases n,
{
    if n <= 0 || n > frames.len() {
        true
    } else {
        item_keeps(frames[n - 1].1, delta, var) && (if frames[n - 1].1 is Kept {
            match alpha_shifted(var, -1, innermost(frames[n - 1].0.name)) {
                None => true,
                Some(var2) => frames_keep(frames, n - 1, delta, var2),
            }
        } else {
            frames_keep(frames, n - 1, delta, var)
        })
    }
}

/// A shift that adds to the indices keeps them where they are asked to stay.
pub proof fn frames_keep_going_up(
    frames: Seq<(BinderModel, ItemModel)>,
    n: int,
    delta: int,
    var: AlphaVarModel,
)
    requires
        delta >= 0,
    ensures
        frames_keep(frames, n, delta, var),
    decreases n,
{
    if 0 < n <= frames.len() {
        let item = frames[n - 1].1;
        let value = match item {
            ItemModel::Kept(_, t) => t,
            ItemModel::Replaced(e) => e,
        };
        shift_up_keeps(delta, var.name, var.index, value.term);
        match value.ty {
            Some(t) => shift_up_keeps(delta, var.name, var.index, t),
            None => {},
        }
        if item is Kept {
            match alpha_shifted(var, -1, innermost(frames[n - 1].0.name)) {
                None => {},
                Some(var2) => frames_keep_going_up(frames, n - 1, delta, var2),
            }
        } else {
            frames_keep_going_up(frames, n - 1, delta, var);
        }
    }
}

/// Shifts of an item compose, where the first keeps the indices it changes
/// at or above the index from which it shifts.
pub proof fn item_shift_composition(item: ItemModel, d1: int, d2: int, var: AlphaVarModel)
    requires
        item_keeps(item, d2, var),
        item_shifted(item, d2, var) is Some,
        item_shifted(item_shifted(item, d2, var)->0, d1, var) is Some,
        item_shifted(item, d1 + d2, var) is Some,
    ensures
        item_shifted(item_shifted(item, d2, var)->0, d1, var) == item_shifted(item, d1 + d2, var),
{
    let value = match item {
        ItemModel::Kept(_, t) => t,
        ItemModel::Replaced(e) => e,
    };
    shift_after_keeping(d1, d2, var.name, var.index, value.term);
    match value.ty {
        Some(t) => shift_after_keeping(d1, d2, var.name, var.index, t),
        None => {},
    }
}

/// A shift of an item by nothing changes nothing.
pub proof fn item_shift_by_zero(item: ItemModel, var: AlphaVarModel)
    requires
        item_shifted(item, 0, var) is Some,
    ensures
        item_shifted(item, 0, var) == Some(item),
{
    let value = match item {
        ItemModel::Kept(_, t) => t,
        ItemModel::Replaced(e) => e,
    };
    shift_by_zero(var.name, var.index, value.term);
    match value.ty {
        Some(t) => shift_by_zero(var.name, var.index, t),
        None => {},
    }
}

/// A shift of a context keeps its binders: the frames that result are as
/// many, in the same order, each with the binder it had, and each holds a
/// type where it held one.
pub proof fn shift_keeps_binders(
    frames: Seq<(BinderModel, ItemModel)>,
    n: int,
    delta: int,
    var: AlphaVarModel,
)
    requires
        0 <= n <= frames.len(),
        changed_frames(frames, n, ChangeModel::Shift(delta), var) is Some,
    ensures
        changed_frames(frames, n, ChangeModel::Shift(delta), var)->0.len() == n,
        forall|i: int|
            0 <= i < n ==> (#[trigger] changed_frames(
                frames,
                n,
                ChangeModel::Shift(delta),
                var,
            )->0[i]).0 == frames[i].0 && (changed_frames(
                frames,
                n,
                ChangeModel::Shift(delta),
                var,
            )->0[i].1 is Kept <==> frames[i].1 is Kept),
    decreases n,
{
    if n > 0 {
        let b = frames[n - 1].0;
        let item = frames[n - 1].1;
        let item2 = item_shifted(item, delta, var)->0;
        let stops = item is Kept && alpha_shifted(var, -1, innermost(b.name)) is None;
        let var2 = if item is Kept {
            alpha_shifted(var, -1, innermost(b.name))->0
        } else {
            var
        };
        let outer = if stops {
            frames.take(n - 1)
        } else {
            changed_frames(frames, n - 1, ChangeModel::Shift(delta), var2)->0
        };
        if !stops {
            shift_keeps_binders(frames, n - 1, delta, var2);
        }
        let all = changed_frames(frames, n, ChangeModel::Shift(delta), var)->0;
        assert(all == outer.push((b, item2)));
        assert forall|i: int| 0 <= i < n implies (#[trigger] all[i]).0 == frames[i].0 && (all[i].1
            is Kept <==> frames[i].1 is Kept) by {
            if i < n - 1 {
                assert(all[i] == outer[i]);
            }
        }
    }
}

/// A change of the first `n` frames reads those frames alone.
pub proof fn shift_reads_a_prefix(
    frames: Seq<(BinderModel, ItemModel)>,
    other: Seq<(BinderModel, ItemModel)>,
    n: int,
    delta: int,
    var: AlphaVarModel,
)
    requires
        0 <= n <= frames.len(),
        n <= other.len(),
        frames.take(n) == other.take(n),
    ensures
        changed_frames(frames, n, ChangeModel::Shift(delta), var) == changed_frames(
            other,
            n,
            ChangeModel::Shift(delta),
            var,
        ),
    decreases n,
{
    if n > 0 {
        assert(frames[n - 1] == frames.take(n)[n - 1]);
        assert(other[n - 1] == other.take(n)[n - 1]);
        assert(frames.take(n - 1) =~= frames.take(n).take(n - 1));
        assert(other.take(n - 1) =~= other.take(n).take(n - 1));
        let b = frames[n - 1].0;
        let item = frames[n - 1].1;
        if item is Kept {
            match alpha_shifted(var, -1, innermost(b.name)) {
                None => {},
                Some(var2) => shift_reads_a_prefix(frames, other, n - 1, delta, var2),
            }
        } else {
            shift_reads_a_prefix(frames, other, n - 1, delta, var);
        }
    }
}

/// A shift of a context by nothing changes nothing.
pub proof fn context_shift_by_zero(
    frames: Seq<(BinderModel, ItemModel)>,
    n: int,
    var: AlphaVarModel,
)
    requires
        0 <= n <= frames.len(),
        changed_frames(frames, n, ChangeModel::Shift(0), var) is Some,
    ensures
        changed_frames(frames, n, ChangeModel::Shift(0), var) == Some(frames.take(n)),
    decreases n,
{
    if n > 0 {
        let b = frames[n - 1].0;
        let item = frames[n - 1].1;
        item_shift_by_zero(item, var);
        if item is Kept {
            match alpha_shifted(var, -1, innermost(b.name)) {
                None => {},
                Some(var2) => context_shift_by_zero(frames, n - 1, var2),
            }
        } else {
            context_shift_by_zero(frames, n - 1, var);
        }
        assert(frames.take(n - 1).push(frames[n - 1]) =~= frames.take(n));
    } else {
        assert(frames.take(n) =~= Seq::empty());
    }
}

/// [`context_shift_composition`] on the first `n` frames.
pub proof fn context_shift_composition_within(
    frames: Seq<(BinderModel, ItemModel)>,
    n: int,
    d1: int,
    d2: int,
    var: AlphaVarModel,
)
    requires
        0 <= n <= frames.len(),
        frames_keep(frames, n, d2, var),
        changed_frames(frames, n, ChangeModel::Shift(d2), var) is Some,
        changed_frames(
            changed_frames(frames, n, ChangeModel::Shift(d2), var)->0,
            n,
            ChangeModel::Shift(d1),
            var,
        ) is Some,
        changed_frames(frames, n, ChangeModel::Shift(d1 + d2), var) is Some,
    ensures
        changed_frames(
            changed_frames(frames, n, ChangeModel::Shift(d2), var)->0,
            n,
            ChangeModel::Shift(d1),
            var,
        ) == changed_frames(frames, n, ChangeModel::Shift(d1 + d2), var),
    decreases n,
{
    if n > 0 {
        let b = frames[n - 1].0;
        let item = frames[n - 1].1;
        let first = changed_frames(frames, n, ChangeModel::Shift(d2), var)->0;
        shift_keeps_binders(frames, n, d2, var);
        let item2 = item_shifted(item, d2, var)->0;
        let stops = item is Kept && alpha_shifted(var, -1, innermost(b.name)) is None;
        let var2 = if item is Kept {
            alpha_shifted(var, -1, innermost(b.name))->0
        } else {
            var
        };
        let outer = if stops {
            frames.take(n - 1)
        } else {
            changed_frames(frames, n - 1, ChangeModel::Shift(d2), var2)->0
        };
        assert(first == outer.push((b, item2)));
        assert(first[n - 1] == (b, item2));
        assert(first.take(n - 1) =~= outer);
        item_shift_composition(item, d1, d2, var);
        if stops {
            assert(first.take(n - 1) =~= frames.take(n - 1));
        } else {
            shift_keeps_binders(frames, n - 1, d2, var2);
            assert(outer.take(n - 1) =~= outer);
            shift_reads_a_prefix(first, outer, n - 1, d1, var2);
            context_shift_composition_within(frames, n - 1, d1, d2, var2);
        }
    }
}

/// Shifts of a context compose: a shift by `d1` after a shift by `d2` over
/// the same variable is one shift by `d1 + d2`, where all three are defined,
/// provided that the second shift adds nothing or that the first leaves no
/// index it changes below the index from which it shifts.
pub proof fn context_shift_composition(
    frames: Seq<(BinderModel, ItemModel)>,
    d1: int,
    d2: int,
    var: AlphaVarModel,
)
    requires
        d1 == 0 || frames_keep(frames, frames.len() as int, d2, var),
        changed_frames(frames, frames.len() as int, ChangeModel::Shift(d2), var) is Some,
        changed_frames(
            changed_frames(frames, frames.len() as int, ChangeModel::Shift(d2), var)->0,
            frames.len() as int,
            ChangeModel::Shift(d1),
            var,
        ) is Some,
        changed_frames(frames, frames.len() as int, ChangeModel::Shift(d1 + d2), var) is Some,
    ensures
        changed_frames(
            changed_frames(frames, frames.len() as int, ChangeModel::Shift(d2), var)->0,
            frames.len() as int,
            ChangeModel::Shift(d1),
            var,
        ) == changed_frames(frames, frames.len() as int, ChangeModel::Shift(d1 + d2), var),
{
    let n = frames.len() as int;
    if frames_keep(frames, n, d2, var) {
        context_shift_composition_within(frames, n, d1, d2, var);
    } else {
        let first = changed_frames(frames, n, ChangeModel::Shift(d2), var)->0;
        shift_keeps_binders(frames, n, d2, var);
        context_shift_by_zero(first, n, var);
        assert(first.take(n) =~= first);
    }
}

/// Shifts of a context that add to the indices always compose.
pub proof fn context_shift_up_composition(
    frames: Seq<(BinderModel, ItemModel)>,
    d1: int,
    d2: int,
    var: AlphaVarModel,
)
    requires
        d2 >= 0,
        changed_frames(frames, frames.len() as int, ChangeModel::Shift(d2), var) is Some,
        changed_frames(
            changed_frames(frames, frames.len() as int, ChangeModel::Shift(d2), var)->0,
            frames.len() as int,
            ChangeModel::Shift(d1),
            var,
        ) is Some,
        changed_frames(frames, frames.len() as int, ChangeModel::Shift(d1 + d2), var) is Some,
    ensures
        changed_frames(
            changed_frames(frames, frames.len() as int, ChangeModel::Shift(d2), var)->0,
            frames.len() as int,
            ChangeModel::Shift(d1),
            var,
        ) == changed_frames(frames, frames.len() as int, ChangeModel::Shift(d1 + d2), var),
{
    frames_keep_going_up(frames, frames.len() as int, d2, var);
    context_shift_composition(frames, d1, d2, var);
}

} // verus!
