use dhall_typecheck::binder::{AlphaVar, Binder, VarCtx};
use dhall_typecheck::syntax::{Label, V};

fn l(name: &str) -> Label {
    Label::new(name)
}

fn binder(name: &str, uid: u64) -> Binder {
    Binder::new(l(name), uid)
}

fn alpha(name: &str, index: usize, depth: usize) -> AlphaVar {
    AlphaVar { normal: V(l(name), index), alpha: depth }
}

#[test]
fn binder_accessors() {
    let b = binder("x", 7);
    assert_eq!(b.name(), &l("x"));
    assert_eq!(b.to_label(), l("x"));
    assert_eq!(b.uid, 7);
    assert!(b.same_binder(&binder("y", 7)));
    assert!(!b.same_binder(&binder("x", 8)));
    assert_eq!(b.clone(), b);
}

#[test]
fn variable_shift() {
    let x0 = V(l("x"), 0);
    assert_eq!(V(l("x"), 2).shift(3, &x0), Some(V(l("x"), 5)));
    assert_eq!(V(l("y"), 2).shift(3, &x0), Some(V(l("y"), 2)));
    assert_eq!(V(l("x"), 1).shift(3, &V(l("x"), 2)), Some(V(l("x"), 1)));
    assert_eq!(V(l("x"), 0).shift(-1, &x0), None);
    assert_eq!(V(l("x"), 1).shift(-1, &x0), Some(V(l("x"), 0)));
    assert_eq!(V(l("x"), usize::MAX).shift(1, &x0), None);
}

#[test]
fn alpha_variable_from_a_binder() {
    assert_eq!(AlphaVar::from_binder(&binder("x", 3)), alpha("x", 0, 0));
    assert_eq!(AlphaVar::from_label(&l("y")), alpha("y", 0, 0));
}

#[test]
fn alpha_variable_shift_moves_both_indices() {
    // Over a binder of the same name, both indices move.
    assert_eq!(alpha("x", 1, 2).shift(1, &alpha("x", 0, 0)), Some(alpha("x", 2, 3)));
    // Over a binder of another name, only the count of all binders moves.
    assert_eq!(alpha("x", 1, 2).shift(1, &alpha("y", 0, 0)), Some(alpha("x", 1, 3)));
    // Below the variable shifted over, nothing moves.
    assert_eq!(alpha("x", 1, 2).shift(1, &alpha("x", 2, 3)), Some(alpha("x", 1, 2)));
    assert_eq!(alpha("x", 0, 0).shift(-1, &alpha("x", 0, 0)), None);
    assert_eq!(alpha("x", 0, usize::MAX).shift(1, &alpha("y", 0, 0)), None);
}

#[test]
fn alpha_variable_over_a_binder() {
    assert_eq!(alpha("x", 1, 2).over_binder(&binder("x", 0)), Some(alpha("x", 0, 1)));
    assert_eq!(alpha("x", 1, 2).over_binder(&binder("y", 0)), Some(alpha("x", 1, 1)));
    // The variable refers to the binder itself.
    assert_eq!(alpha("x", 0, 0).over_binder(&binder("x", 0)), None);
}

#[test]
fn lookup_counts_all_binders_inside() {
    let x = binder("x", 0);
    let y = binder("y", 1);
    let x2 = binder("x", 2);
    let ctx = VarCtx::new().insert(&x).insert(&y).insert(&x2);
    assert_eq!(ctx.lookup(&x2), Some(0));
    assert_eq!(ctx.lookup(&y), Some(1));
    assert_eq!(ctx.lookup(&x), Some(2));
    assert_eq!(ctx.lookup(&binder("z", 9)), None);
    assert_eq!(VarCtx::new().lookup(&x), None);
}

#[test]
fn lookup_by_name_counts_binders_of_the_name() {
    let x = binder("x", 0);
    let y = binder("y", 1);
    let x2 = binder("x", 2);
    let ctx = VarCtx::new().insert(&x).insert(&y).insert(&x2);
    assert_eq!(ctx.lookup_by_name(&x2), Some(0));
    assert_eq!(ctx.lookup_by_name(&y), Some(0));
    assert_eq!(ctx.lookup_by_name(&x), Some(1));
    assert_eq!(ctx.lookup_by_name(&binder("x", 9)), None);
    assert_eq!(ctx.lookup_by_name(&binder("z", 0)), None);
    assert_eq!(VarCtx::new().lookup_by_name(&x), None);
}

#[test]
fn insert_leaves_the_outer_binders() {
    let x = binder("x", 0);
    let y = binder("y", 1);
    let outer = VarCtx::new().insert(&x);
    let inner = outer.insert(&y);
    assert_eq!(outer.lookup(&x), Some(0));
    assert_eq!(outer.lookup(&y), None);
    assert_eq!(inner.lookup(&x), Some(1));
    assert_eq!(inner.ctx.len(), 2);
}

#[test]
fn the_innermost_of_equal_binders_is_found() {
    let x = binder("x", 0);
    let ctx = VarCtx::new().insert(&x).insert(&x);
    assert_eq!(ctx.lookup(&x), Some(0));
    assert_eq!(ctx.lookup_by_name(&x), Some(0));
}
