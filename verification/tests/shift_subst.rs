use dhall_typecheck::shift::{offset_index, shift};
use dhall_typecheck::subst::{subst, subst_shift};
use dhall_typecheck::syntax::{BinOp, Builtin, Const, Expr, Label, V};

fn l(name: &str) -> Label {
    Label::new(name)
}

fn v(name: &str, index: usize) -> V {
    V(l(name), index)
}

fn var(name: &str, index: usize) -> Expr {
    Expr::Var(v(name, index))
}

fn lam(name: &str, a: Expr, b: Expr) -> Expr {
    Expr::Lam(l(name), Box::new(a), Box::new(b))
}

fn pi(name: &str, a: Expr, b: Expr) -> Expr {
    Expr::Pi(l(name), Box::new(a), Box::new(b))
}

fn natural() -> Expr {
    Expr::Builtin(Builtin::Natural)
}

#[test]
fn offset_index_adds_within_range() {
    assert_eq!(offset_index(3, 4), Some(7));
    assert_eq!(offset_index(3, -3), Some(0));
    assert_eq!(offset_index(3, -4), None);
    assert_eq!(offset_index(0, isize::MIN), None);
    assert_eq!(offset_index(usize::MAX, 1), None);
    assert_eq!(offset_index(usize::MAX, 0), Some(usize::MAX));
    assert_eq!(offset_index(usize::MAX, isize::MIN), Some(usize::MAX - (1usize << (usize::BITS - 1))));
    assert_eq!(offset_index(0, isize::MAX), Some(isize::MAX as usize));
}

#[test]
fn shift_moves_free_variables_of_the_name() {
    assert_eq!(shift(1, &v("x", 0), &var("x", 0)), Some(var("x", 1)));
    assert_eq!(shift(5, &v("x", 0), &var("x", 2)), Some(var("x", 7)));
    assert_eq!(shift(1, &v("x", 0), &var("y", 0)), Some(var("y", 0)));
    // Indices below the one shifted from stay.
    assert_eq!(shift(1, &v("x", 2), &var("x", 1)), Some(var("x", 1)));
    assert_eq!(shift(1, &v("x", 2), &var("x", 2)), Some(var("x", 3)));
}

#[test]
fn shift_leaves_bound_variables() {
    let e = lam("x", var("x", 0), Expr::App(Box::new(var("x", 0)), vec![var("x", 1), var("y", 0)]));
    let expected =
        lam("x", var("x", 1), Expr::App(Box::new(var("x", 0)), vec![var("x", 2), var("y", 0)]));
    assert_eq!(shift(1, &v("x", 0), &e), Some(expected));
    // A binder of another name does not bind.
    let e = pi("y", natural(), var("x", 0));
    assert_eq!(shift(1, &v("x", 0), &e), Some(pi("y", natural(), var("x", 1))));
    let e = Expr::Let(l("x"), Some(Box::new(var("x", 0))), Box::new(var("x", 0)), Box::new(var("x", 0)));
    let expected =
        Expr::Let(l("x"), Some(Box::new(var("x", 1))), Box::new(var("x", 1)), Box::new(var("x", 0)));
    assert_eq!(shift(1, &v("x", 0), &e), Some(expected));
}

#[test]
fn shift_reaches_every_part() {
    let e = Expr::RecordLit(vec![
        (l("a"), Expr::NEListLit(Box::new(var("x", 0)), vec![var("x", 1)])),
        (l("b"), Expr::BoolIf(Box::new(var("x", 0)), Box::new(var("x", 0)), Box::new(var("x", 0)))),
        (l("c"), Expr::Field(Box::new(var("x", 0)), l("x"))),
        (l("d"), Expr::UnionType(vec![(l("x"), Some(var("x", 0))), (l("y"), None)])),
        (l("e"), Expr::BinOp(BinOp::BoolAnd, Box::new(var("x", 0)), Box::new(Expr::BoolLit(true)))),
        (l("f"), Expr::Annot(Box::new(var("x", 0)), Box::new(var("x", 0)))),
        (l("g"), Expr::EmptyListLit(Box::new(var("x", 0)))),
        (l("h"), Expr::NEOptionalLit(Box::new(var("x", 0)))),
        (l("i"), Expr::EmptyOptionalLit(Box::new(var("x", 0)))),
        (l("j"), Expr::RecordType(vec![(l("x"), var("x", 0))])),
    ]);
    let expected = Expr::RecordLit(vec![
        (l("a"), Expr::NEListLit(Box::new(var("x", 2)), vec![var("x", 3)])),
        (l("b"), Expr::BoolIf(Box::new(var("x", 2)), Box::new(var("x", 2)), Box::new(var("x", 2)))),
        (l("c"), Expr::Field(Box::new(var("x", 2)), l("x"))),
        (l("d"), Expr::UnionType(vec![(l("x"), Some(var("x", 2))), (l("y"), None)])),
        (l("e"), Expr::BinOp(BinOp::BoolAnd, Box::new(var("x", 2)), Box::new(Expr::BoolLit(true)))),
        (l("f"), Expr::Annot(Box::new(var("x", 2)), Box::new(var("x", 2)))),
        (l("g"), Expr::EmptyListLit(Box::new(var("x", 2)))),
        (l("h"), Expr::NEOptionalLit(Box::new(var("x", 2)))),
        (l("i"), Expr::EmptyOptionalLit(Box::new(var("x", 2)))),
        (l("j"), Expr::RecordType(vec![(l("x"), var("x", 2))])),
    ]);
    assert_eq!(shift(2, &v("x", 0), &e), Some(expected));
}

#[test]
fn shift_fails_where_an_index_leaves_its_range() {
    assert_eq!(shift(-1, &v("x", 0), &var("x", 0)), None);
    assert_eq!(shift(1, &v("x", 0), &var("x", usize::MAX)), None);
    assert_eq!(shift(-1, &v("x", 0), &var("x", 1)), Some(var("x", 0)));
    // The variable to look for below the binder would be x@(MAX + 1).
    assert_eq!(shift(1, &v("x", usize::MAX), &lam("x", natural(), natural())), None);
    assert_eq!(
        shift(1, &v("x", usize::MAX), &lam("y", natural(), natural())),
        Some(lam("y", natural(), natural()))
    );
}

#[test]
fn shifts_up_compose() {
    let e = lam("x", var("x", 0), Expr::App(Box::new(var("x", 1)), vec![var("x", 4), var("y", 0)]));
    let twice = shift(2, &v("x", 0), &shift(3, &v("x", 0), &e).unwrap());
    assert_eq!(twice, shift(5, &v("x", 0), &e));
    let back = shift(-3, &v("x", 0), &shift(3, &v("x", 0), &e).unwrap());
    assert_eq!(back, Some(e));
}

#[test]
fn shift_down_into_a_binder_does_not_compose() {
    // x@1 below the binder refers to a binder outside; shifted down it is captured.
    let e = lam("x", natural(), var("x", 1));
    let down = shift(-1, &v("x", 0), &e).unwrap();
    assert_eq!(down, lam("x", natural(), var("x", 0)));
    let up_again = shift(1, &v("x", 0), &down).unwrap();
    assert_eq!(up_again, lam("x", natural(), var("x", 0)));
    assert_eq!(shift(0, &v("x", 0), &e), Some(e));
}

#[test]
fn subst_replaces_the_variable() {
    let one = Expr::NaturalLit(1);
    assert_eq!(subst(&v("x", 0), &one, &var("x", 0)), Some(one.clone()));
    assert_eq!(subst(&v("x", 0), &one, &var("x", 1)), Some(var("x", 1)));
    assert_eq!(subst(&v("x", 0), &one, &var("y", 0)), Some(var("y", 0)));
    let e = Expr::App(Box::new(var("f", 0)), vec![var("x", 0), var("x", 1)]);
    assert_eq!(
        subst(&v("x", 0), &one, &e),
        Some(Expr::App(Box::new(var("f", 0)), vec![one, var("x", 1)]))
    );
}

#[test]
fn subst_under_a_binder_of_the_same_name() {
    let one = Expr::NaturalLit(1);
    // The body's x@0 is the parameter; x@1 is the variable substituted for.
    let e = lam("x", var("x", 0), Expr::App(Box::new(var("x", 0)), vec![var("x", 1)]));
    let expected = lam("x", one.clone(), Expr::App(Box::new(var("x", 0)), vec![one.clone()]));
    assert_eq!(subst(&v("x", 0), &one, &e), Some(expected));
    let e = lam("x", natural(), var("x", 0));
    assert_eq!(subst(&v("x", 0), &one, &e), Some(e.clone()));
    let e = pi("x", natural(), var("x", 0));
    assert_eq!(subst(&v("x", 0), &one, &e), Some(e.clone()));
}

#[test]
fn subst_avoids_capture() {
    // y for x in \(y : T) -> x  gives  \(y : T) -> y@1
    let e = lam("y", natural(), var("x", 0));
    assert_eq!(
        subst(&v("x", 0), &var("y", 0), &e),
        Some(lam("y", natural(), var("y", 1)))
    );
    let e = Expr::Let(l("y"), None, Box::new(var("x", 0)), Box::new(var("x", 0)));
    assert_eq!(
        subst(&v("x", 0), &var("y", 0), &e),
        Some(Expr::Let(l("y"), None, Box::new(var("y", 0)), Box::new(var("y", 1))))
    );
}

#[test]
fn subst_fails_where_the_value_cannot_be_shifted() {
    let e = lam("y", natural(), var("x", 0));
    assert_eq!(subst(&v("x", 0), &var("y", usize::MAX), &e), None);
    assert_eq!(subst(&v("x", usize::MAX), &natural(), &lam("x", natural(), natural())), None);
}

#[test]
fn subst_shift_takes_a_body_out_of_its_binder() {
    // The body of \(x : T) -> f x y x@1, applied to x@0 from outside.
    let body = Expr::App(Box::new(var("f", 0)), vec![var("x", 0), var("y", 0), var("x", 1)]);
    assert_eq!(
        subst_shift(&v("x", 0), &var("x", 0), &body),
        Some(Expr::App(Box::new(var("f", 0)), vec![var("x", 0), var("y", 0), var("x", 0)]))
    );
    assert_eq!(
        subst_shift(&v("x", 0), &Expr::Const(Const::Type), &var("x", 3)),
        Some(var("x", 2))
    );
    assert_eq!(subst_shift(&v("x", 0), &var("x", usize::MAX), &body), None);
}
