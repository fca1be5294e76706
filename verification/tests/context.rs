use dhall_typecheck::context::Context;
use dhall_typecheck::shift::shift;
use dhall_typecheck::syntax::{Builtin, Const, Expr, Label, V};

fn l(name: &str) -> Label {
    Label::new(name)
}

fn var(name: &str, index: usize) -> Expr {
    Expr::Var(V(l(name), index))
}

#[test]
fn empty_context_binds_nothing() {
    let ctx = Context::new();
    assert_eq!(ctx.len(), 0);
    assert_eq!(ctx.lookup(&l("x"), 0), None);
}

#[test]
fn lookup_after_insert_gives_the_shifted_type() {
    let a = Expr::App(Box::new(var("f", 0)), vec![var("x", 0), var("y", 0)]);
    let ctx = Context::new().insert(l("x"), a.clone()).unwrap();
    let expected = shift(1, &V(l("x"), 0), &a).unwrap();
    assert_eq!(expected, Expr::App(Box::new(var("f", 0)), vec![var("x", 1), var("y", 0)]));
    assert_eq!(ctx.lookup(&l("x"), 0), Some(&expected));
}

#[test]
fn lookup_counts_binders_of_the_name() {
    let ctx = Context::new()
        .insert(l("x"), Expr::Builtin(Builtin::Natural))
        .unwrap()
        .insert(l("y"), Expr::Builtin(Builtin::Text))
        .unwrap()
        .insert(l("x"), Expr::Builtin(Builtin::Bool))
        .unwrap();
    assert_eq!(ctx.len(), 3);
    assert_eq!(ctx.lookup(&l("x"), 0), Some(&Expr::Builtin(Builtin::Bool)));
    assert_eq!(ctx.lookup(&l("x"), 1), Some(&Expr::Builtin(Builtin::Natural)));
    assert_eq!(ctx.lookup(&l("x"), 2), None);
    assert_eq!(ctx.lookup(&l("y"), 0), Some(&Expr::Builtin(Builtin::Text)));
    assert_eq!(ctx.lookup(&l("y"), 1), None);
    assert_eq!(ctx.lookup(&l("z"), 0), None);
}

#[test]
fn insert_shifts_the_types_of_outer_binders() {
    // y : x@0, then a new x: the type of y now mentions x@1.
    let ctx = Context::new()
        .insert(l("x"), Expr::Const(Const::Type))
        .unwrap()
        .insert(l("y"), var("x", 0))
        .unwrap();
    assert_eq!(ctx.lookup(&l("y"), 0), Some(&var("x", 0)));
    let below = ctx.insert(l("x"), Expr::Builtin(Builtin::Natural)).unwrap();
    assert_eq!(below.lookup(&l("y"), 0), Some(&var("x", 1)));
    assert_eq!(below.lookup(&l("x"), 0), Some(&Expr::Builtin(Builtin::Natural)));
    assert_eq!(below.lookup(&l("x"), 1), Some(&Expr::Const(Const::Type)));
    // The context that was extended is as it was.
    assert_eq!(ctx.len(), 2);
    assert_eq!(ctx.lookup(&l("y"), 0), Some(&var("x", 0)));
}

#[test]
fn insert_fails_where_a_type_cannot_be_shifted() {
    assert_eq!(Context::new().insert(l("x"), var("x", usize::MAX)), None);
    let ctx = Context::new().insert(l("y"), var("x", usize::MAX)).unwrap();
    assert_eq!(ctx.insert(l("x"), Expr::Const(Const::Type)), None);
    assert!(ctx.insert(l("z"), Expr::Const(Const::Type)).is_some());
}

#[test]
fn a_copy_is_equal() {
    let ctx = Context::new().insert(l("x"), var("y", 3)).unwrap();
    assert_eq!(ctx.clone(), ctx);
}
