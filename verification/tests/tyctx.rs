use dhall_typecheck::binder::{AlphaVar, Binder, BinderIds};
use dhall_typecheck::context::Context;
use dhall_typecheck::syntax::{Builtin, Const, Expr, Label, V};
use dhall_typecheck::tyctx::{Change, CtxItem, TyCtx, Value};

fn l(name: &str) -> Label {
    Label::new(name)
}

fn var(name: &str, index: usize) -> Expr {
    Expr::Var(V(l(name), index))
}

fn natural() -> Expr {
    Expr::Builtin(Builtin::Natural)
}

fn ty() -> Expr {
    Expr::Const(Const::Type)
}

fn typed(term: Expr, t: Expr) -> Value {
    Value { term, ty: Some(t) }
}

fn alpha(name: &str, index: usize, depth: usize) -> AlphaVar {
    AlphaVar { normal: V(l(name), index), alpha: depth }
}

#[test]
fn new_context_is_empty() {
    let ctx = TyCtx::new();
    assert_eq!(ctx.ctx.len(), 0);
    assert_eq!(ctx.lookup(&V(l("x"), 0)), None);
}

#[test]
fn new_binders_get_new_ids() {
    let ctx = TyCtx::new();
    let mut ids = BinderIds::new();
    assert_eq!(ids.upcoming(), 0);
    let x = ctx.new_binder(&mut ids, &l("x")).unwrap();
    let y = ctx.new_binder(&mut ids, &l("x")).unwrap();
    assert_eq!(x, Binder::new(l("x"), 0));
    assert_eq!(y, Binder::new(l("x"), 1));
    assert!(!x.same_binder(&y));
    assert_eq!(x.to_label(), l("x"));
    assert_eq!(ids.upcoming(), 2);
    assert_eq!(ctx.ctx.len(), 0);
    assert_eq!(ids.next_binder(&l("z")), Some(Binder::new(l("z"), 2)));
}

#[test]
fn ids_can_be_used_up() {
    let ctx = TyCtx::new();
    let mut ids = BinderIds::starting_at(u64::MAX - 1);
    assert_eq!(ctx.new_binder(&mut ids, &l("x")), Some(Binder::new(l("x"), u64::MAX - 1)));
    assert_eq!(ctx.new_binder(&mut ids, &l("x")), None);
    assert_eq!(ids.upcoming(), u64::MAX);
}

#[test]
fn the_contexts_of_one_derivation_share_the_ids() {
    let root = TyCtx::new();
    let mut ids = BinderIds::new();
    let x = root.new_binder(&mut ids, &l("x")).unwrap();
    // Two contexts made from the same root, and one made from the first.
    let first = root.insert_value(&x, typed(Expr::NaturalLit(1), natural())).unwrap();
    let second = root.insert_value(&x, typed(Expr::NaturalLit(2), natural())).unwrap();
    let below = first.insert_type(&x, typed(natural(), ty())).unwrap();
    let shifted = below.shift(1, &alpha("q", 0, 1)).unwrap();
    let a = first.new_binder(&mut ids, &l("y")).unwrap();
    let b = second.new_binder(&mut ids, &l("y")).unwrap();
    let c = below.new_binder(&mut ids, &l("y")).unwrap();
    let d = root.new_binder(&mut ids, &l("y")).unwrap();
    let e = shifted.new_binder(&mut ids, &l("y")).unwrap();
    let all = [&x, &a, &b, &c, &d, &e];
    for i in 0..all.len() {
        assert_eq!(all[i].uid, i as u64);
        for j in 0..all.len() {
            assert_eq!(all[i].same_binder(all[j]), i == j);
        }
    }
}

#[test]
fn lookup_of_a_binder_with_a_type_gives_the_variable() {
    let ctx = TyCtx::new();
    let x = ctx.new_binder(&mut BinderIds::new(), &l("x")).unwrap();
    let below = ctx.insert_type(&x, typed(natural(), ty())).unwrap();
    assert_eq!(below.lookup(&V(l("x"), 0)), Some(typed(var("x", 0), natural())));
    assert_eq!(below.lookup(&V(l("x"), 1)), None);
    assert_eq!(below.lookup(&V(l("y"), 0)), None);
    // The context that was extended is as it was.
    assert_eq!(ctx.lookup(&V(l("x"), 0)), None);
}

#[test]
fn insert_type_stores_the_type_as_seen_from_below() {
    let ctx = TyCtx::new();
    let x = Binder::new(l("x"), 0);
    let below = ctx.insert_type(&x, typed(var("x", 0), ty())).unwrap();
    assert_eq!(
        below.ctx,
        vec![(x.clone(), CtxItem::Kept(alpha("x", 0, 0), typed(var("x", 1), ty())))]
    );
    assert_eq!(below.lookup(&V(l("x"), 0)), Some(typed(var("x", 0), var("x", 1))));
    assert_eq!(ctx.insert_type(&x, typed(var("x", usize::MAX), ty())), None);
}

#[test]
fn lookup_of_a_replaced_binder_gives_the_value() {
    let ctx = TyCtx::new();
    let x = Binder::new(l("x"), 0);
    let value = typed(Expr::NaturalLit(1), natural());
    let below = ctx.insert_value(&x, value.clone()).unwrap();
    assert_eq!(below.lookup(&V(l("x"), 0)), Some(value));
}

#[test]
fn lookup_shifts_over_the_binders_passed() {
    let x = Binder::new(l("x"), 0);
    let y = Binder::new(l("y"), 1);
    let x2 = Binder::new(l("x"), 2);
    // y := x@0, then a new binder x with a type: from below it, y is x@1.
    let ctx = TyCtx::new()
        .insert_type(&x, typed(ty(), Expr::Const(Const::Kind)))
        .unwrap()
        .insert_value(&y, typed(var("x", 0), ty()))
        .unwrap();
    assert_eq!(ctx.lookup(&V(l("y"), 0)), Some(typed(var("x", 0), ty())));
    let below = ctx.insert_type(&x2, typed(natural(), ty())).unwrap();
    assert_eq!(below.lookup(&V(l("y"), 0)), Some(typed(var("x", 1), ty())));
    assert_eq!(below.lookup(&V(l("x"), 0)), Some(typed(var("x", 0), natural())));
    // The outer x, seen from below the inner one.
    assert_eq!(below.lookup(&V(l("x"), 1)), Some(typed(var("x", 1), ty())));
}

#[test]
fn replaced_binders_are_counted_but_not_shifted_over() {
    let x = Binder::new(l("x"), 0);
    let x2 = Binder::new(l("x"), 1);
    let ctx = TyCtx::new()
        .insert_value(&x, typed(var("x", 0), ty()))
        .unwrap()
        .insert_value(&x2, typed(Expr::NaturalLit(1), natural()))
        .unwrap();
    assert_eq!(ctx.lookup(&V(l("x"), 0)), Some(typed(Expr::NaturalLit(1), natural())));
    assert_eq!(ctx.lookup(&V(l("x"), 1)), Some(typed(var("x", 0), ty())));
}

#[test]
fn value_shift_and_subst() {
    let v = typed(var("x", 0), var("x", 1));
    assert_eq!(v.shift(1, &alpha("x", 0, 0)), Some(typed(var("x", 1), var("x", 2))));
    assert_eq!(v.shift(-1, &alpha("x", 0, 0)), None);
    assert_eq!(v.under_binder(&Binder::new(l("x"), 0)), Some(typed(var("x", 1), var("x", 2))));
    assert_eq!(v.under_binder(&Binder::new(l("y"), 0)), Some(v.clone()));
    let one = typed(Expr::NaturalLit(1), natural());
    assert_eq!(
        v.subst_shift(&alpha("x", 0, 0), &one),
        Some(typed(Expr::NaturalLit(1), var("x", 0)))
    );
    assert_eq!(
        Value::from_kind_and_type(alpha("x", 2, 5), typed(natural(), ty())),
        typed(var("x", 2), natural())
    );
}

#[test]
fn item_shift_and_subst() {
    let kept = CtxItem::Kept(alpha("x", 0, 0), typed(var("y", 0), ty()));
    assert_eq!(
        kept.shift(1, &alpha("y", 0, 0)),
        Some(CtxItem::Kept(alpha("x", 0, 1), typed(var("y", 1), ty())))
    );
    let one = typed(Expr::NaturalLit(1), natural());
    // The item kept for the variable itself takes the value.
    assert_eq!(kept.subst_shift(&alpha("x", 0, 0), &one), Some(CtxItem::Replaced(one.clone())));
    // For a variable that refers to a binder further out, the value is put into the type.
    assert_eq!(
        kept.subst_shift(&alpha("y", 0, 1), &one),
        Some(CtxItem::Kept(alpha("x", 0, 0), typed(Expr::NaturalLit(1), ty())))
    );
    let replaced = CtxItem::Replaced(typed(var("y", 0), ty()));
    assert_eq!(
        replaced.subst_shift(&alpha("y", 0, 0), &one),
        Some(CtxItem::Replaced(typed(Expr::NaturalLit(1), ty())))
    );
    assert_eq!(
        replaced.under_multiple_binders(&vec![l("y"), l("x"), l("y")]),
        Some(CtxItem::Replaced(typed(var("y", 2), ty())))
    );
    assert_eq!(replaced.under_multiple_binders(&vec![]), Some(replaced.clone()));
}

#[test]
fn shift_up_follows_the_variable_outwards() {
    let x = Binder::new(l("x"), 0);
    let y = Binder::new(l("y"), 1);
    let ctx = TyCtx {
        ctx: vec![
            (x.clone(), CtxItem::Replaced(typed(var("z", 0), ty()))),
            (y.clone(), CtxItem::Kept(alpha("y", 0, 0), typed(var("z", 1), ty()))),
        ],
    };
    // The variable z@0 refers to a binder outside the context: one binder
    // with a type stands between.
    let shifted = ctx.shift(1, &alpha("z", 0, 1)).unwrap();
    assert_eq!(
        shifted.ctx,
        vec![
            (x, CtxItem::Replaced(typed(var("z", 1), ty()))),
            (y, CtxItem::Kept(alpha("y", 0, 0), typed(var("z", 2), ty()))),
        ]
    );
    assert_eq!(ctx.shift(0, &alpha("z", 0, 1)), Some(ctx));
}

#[test]
fn shift_up_stops_at_the_binder_of_the_variable() {
    let y = Binder::new(l("y"), 0);
    let x = Binder::new(l("x"), 1);
    let w = Binder::new(l("w"), 2);
    let ctx = TyCtx {
        ctx: vec![
            (y.clone(), CtxItem::Replaced(typed(var("x", 0), ty()))),
            (x.clone(), CtxItem::Kept(alpha("x", 0, 0), typed(var("x", 3), ty()))),
            (w.clone(), CtxItem::Replaced(typed(var("x", 0), ty()))),
        ],
    };
    let up = ctx.shift(1, &alpha("x", 0, 0)).unwrap();
    assert_eq!(
        up.ctx,
        vec![
            // Beyond the binder of the variable the frames stay as they are.
            (y.clone(), CtxItem::Replaced(typed(var("x", 0), ty()))),
            (x.clone(), CtxItem::Kept(alpha("x", 1, 1), typed(var("x", 4), ty()))),
            (w.clone(), CtxItem::Replaced(typed(var("x", 1), ty()))),
        ]
    );
    assert_eq!(ctx.do_with_var(&alpha("x", 0, 0), &Change::Shift(1)), Some(up));
}

#[test]
fn shifts_of_a_context_compose() {
    let y = Binder::new(l("y"), 0);
    let x = Binder::new(l("x"), 1);
    let ctx = TyCtx {
        ctx: vec![
            (y.clone(), CtxItem::Replaced(typed(var("x", 0), ty()))),
            (x.clone(), CtxItem::Kept(alpha("x", 0, 0), typed(var("x", 2), var("q", 0)))),
        ],
    };
    let v = alpha("x", 0, 0);
    let up = ctx.shift(1, &v).unwrap();
    assert_eq!(up.shift(-1, &v), ctx.shift(0, &v));
    assert_eq!(ctx.shift(0, &v).as_ref(), Some(&ctx));
    assert_eq!(up.shift(2, &v), ctx.shift(3, &v));
    let w = alpha("q", 0, 1);
    assert_eq!(ctx.shift(2, &w).unwrap().shift(3, &w), ctx.shift(5, &w));
    assert_eq!(ctx.shift(2, &w).unwrap().shift(-2, &w), Some(ctx));
}

#[test]
fn shift_down_follows_the_variable_outwards() {
    let z = Binder::new(l("z"), 0);
    let y = Binder::new(l("y"), 1);
    let w = Binder::new(l("w"), 2);
    // Innermost last. The variable q@0 refers to a binder outside the context:
    // two binders with a type stand between.
    let ctx = TyCtx {
        ctx: vec![
            (z.clone(), CtxItem::Kept(alpha("z", 0, 0), typed(var("q", 5), ty()))),
            (y.clone(), CtxItem::Kept(alpha("y", 0, 0), typed(var("q", 5), ty()))),
            (w.clone(), CtxItem::Replaced(typed(var("q", 5), ty()))),
        ],
    };
    let shifted = ctx.shift(-1, &alpha("q", 0, 2)).unwrap();
    assert_eq!(
        shifted.ctx,
        vec![
            (z, CtxItem::Kept(alpha("z", 0, 0), typed(var("q", 4), ty()))),
            (y, CtxItem::Kept(alpha("y", 0, 0), typed(var("q", 4), ty()))),
            (w, CtxItem::Replaced(typed(var("q", 4), ty()))),
        ]
    );
    assert_eq!(
        ctx.do_with_var(&alpha("q", 0, 2), &Change::Shift(-1)),
        Some(shifted)
    );
    // A variable that refers to a binder of the context cannot be shifted away.
    assert_eq!(ctx.shift(-1, &alpha("y", 0, 0)), None);
}

#[test]
fn a_change_stops_at_the_binder_of_the_variable() {
    let z = Binder::new(l("z"), 0);
    let x = Binder::new(l("x"), 1);
    let w = Binder::new(l("w"), 2);
    let ctx = TyCtx {
        ctx: vec![
            (z.clone(), CtxItem::Kept(alpha("z", 0, 0), typed(var("x", 0), ty()))),
            (x.clone(), CtxItem::Kept(alpha("x", 0, 0), typed(natural(), ty()))),
            (w.clone(), CtxItem::Replaced(typed(var("x", 0), natural()))),
        ],
    };
    let one = typed(Expr::NaturalLit(1), natural());
    let after = ctx.subst_shift(&alpha("x", 0, 0), &one).unwrap();
    assert_eq!(
        after.ctx,
        vec![
            // Beyond the binder of the variable the frames stay as they are.
            (z, CtxItem::Kept(alpha("z", 0, 0), typed(var("x", 0), ty()))),
            (x, CtxItem::Replaced(one.clone())),
            (w, CtxItem::Replaced(typed(Expr::NaturalLit(1), natural()))),
        ]
    );
}

#[test]
fn subst_shift_replaces_the_item_of_the_variable() {
    let x = Binder::new(l("x"), 0);
    let y = Binder::new(l("y"), 1);
    let ctx = TyCtx::new()
        .insert_type(&x, typed(natural(), ty()))
        .unwrap()
        .insert_value(&y, typed(var("x", 0), natural()))
        .unwrap();
    let one = typed(Expr::NaturalLit(1), natural());
    let after = ctx.subst_shift(&alpha("x", 0, 0), &one).unwrap();
    assert_eq!(
        after.ctx,
        vec![
            (x.clone(), CtxItem::Replaced(one.clone())),
            (y.clone(), CtxItem::Replaced(typed(Expr::NaturalLit(1), natural()))),
        ]
    );
    assert_eq!(after.lookup(&V(l("y"), 0)), Some(typed(Expr::NaturalLit(1), natural())));
    assert_eq!(
        ctx.do_with_var(&alpha("x", 0, 0), &Change::Subst(one)),
        Some(after)
    );
}

#[test]
fn with_vec_holds_the_frames_given() {
    let ctx = TyCtx::new();
    let x = Binder::new(l("x"), 0);
    let other = ctx.with_vec(vec![(x.clone(), CtxItem::Replaced(typed(natural(), ty())))]);
    assert_eq!(other.ctx.len(), 1);
    assert_eq!(other.frames_before(0), vec![]);
    assert_eq!(other.frames_before(1), other.ctx);
}

#[test]
fn both_contexts_give_the_same_types() {
    // The same binders, entered in the same order, with types that mention
    // the binders before them.
    let binders: Vec<(&str, Expr)> = vec![
        ("x", ty()),
        ("y", var("x", 0)),
        ("x", var("y", 0)),
        ("z", Expr::App(Box::new(var("x", 0)), vec![var("x", 1), var("y", 0)])),
        ("x", var("z", 0)),
    ];
    let mut nominal = Context::new();
    let mut valued = TyCtx::new();
    let mut ids = BinderIds::new();
    for (name, t) in binders {
        nominal = nominal.insert(l(name), t.clone()).unwrap();
        let b = valued.new_binder(&mut ids, &l(name)).unwrap();
        valued = valued.insert_type(&b, Value { term: t, ty: None }).unwrap();
    }
    for name in ["x", "y", "z", "w"] {
        for n in 0..4 {
            let found = nominal.lookup(&l(name), n);
            let value = valued.lookup(&V(l(name), n));
            match (found, value) {
                (Some(t), Some(v)) => {
                    assert_eq!(v.term, var(name, n));
                    assert_eq!(v.ty.as_ref(), Some(t));
                }
                (None, None) => {}
                (found, value) => panic!("{} {}: {:?} / {:?}", name, n, found, value),
            }
        }
    }
}
