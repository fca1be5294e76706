use dhall_typecheck::normalize::Normalizer;
use dhall_typecheck::reduce::{reduce, Reducer};
use dhall_typecheck::syntax::{BinOp, Builtin, Const, Expr, Label, V};

fn l(name: &str) -> Label {
    Label::new(name)
}

fn var(name: &str, index: usize) -> Expr {
    Expr::Var(V(l(name), index))
}

fn lam(name: &str, a: Expr, b: Expr) -> Expr {
    Expr::Lam(l(name), Box::new(a), Box::new(b))
}

fn app(f: Expr, args: Vec<Expr>) -> Expr {
    Expr::App(Box::new(f), args)
}

fn natural() -> Expr {
    Expr::Builtin(Builtin::Natural)
}

fn ty() -> Expr {
    Expr::Const(Const::Type)
}

#[test]
fn a_function_takes_its_argument() {
    let e = app(lam("x", natural(), var("x", 0)), vec![Expr::NaturalLit(1)]);
    assert_eq!(reduce(8, &e), Expr::NaturalLit(1));
}

#[test]
fn arguments_are_taken_one_by_one() {
    let id = lam("a", ty(), lam("x", var("a", 0), var("x", 0)));
    let e = app(id.clone(), vec![natural(), Expr::NaturalLit(3)]);
    assert_eq!(reduce(8, &e), Expr::NaturalLit(3));
    let partly = app(id, vec![natural()]);
    assert_eq!(reduce(8, &partly), lam("x", natural(), var("x", 0)));
}

#[test]
fn the_argument_is_not_captured() {
    // (\(x : T) -> \(y : T) -> x) y  reduces to  \(y : T) -> y@1
    let e = app(
        lam("x", natural(), lam("y", natural(), var("x", 0))),
        vec![var("y", 0)],
    );
    assert_eq!(reduce(8, &e), lam("y", natural(), var("y", 1)));
}

#[test]
fn variables_bound_further_out_come_back_down() {
    // (\(x : T) -> x@1) 1  reduces to  x@0
    let e = app(lam("x", natural(), var("x", 1)), vec![Expr::NaturalLit(1)]);
    assert_eq!(reduce(8, &e), var("x", 0));
}

#[test]
fn an_application_that_is_stuck_is_flattened() {
    let e = app(app(var("f", 0), vec![var("a", 0)]), vec![var("b", 0)]);
    assert_eq!(reduce(8, &e), app(var("f", 0), vec![var("a", 0), var("b", 0)]));
    let e = app(var("f", 0), vec![]);
    assert_eq!(reduce(8, &e), var("f", 0));
    let e = app(Expr::Builtin(Builtin::List), vec![natural()]);
    assert_eq!(reduce(8, &e), e.clone());
}

#[test]
fn a_function_that_returns_a_stuck_application() {
    // (\(x : T) -> f x) a b  reduces to  f a b
    let e = app(
        lam("x", natural(), app(var("f", 0), vec![var("x", 0)])),
        vec![var("a", 0), var("b", 0)],
    );
    assert_eq!(reduce(8, &e), app(var("f", 0), vec![var("a", 0), var("b", 0)]));
}

#[test]
fn without_fuel_an_application_stays() {
    let f = lam("x", natural(), var("x", 0));
    let e = app(f.clone(), vec![Expr::NaturalLit(1)]);
    assert_eq!(reduce(0, &e), e.clone());
    assert_eq!(reduce(1, &e), Expr::NaturalLit(1));
    // Two applications need two units.
    let twice = app(f.clone(), vec![app(f.clone(), vec![Expr::NaturalLit(1)])]);
    assert_eq!(reduce(2, &twice), Expr::NaturalLit(1));
}

#[test]
fn definitions_are_unfolded() {
    let e = Expr::Let(
        l("x"),
        Some(Box::new(natural())),
        Box::new(Expr::NaturalLit(1)),
        Box::new(Expr::NEListLit(Box::new(var("x", 0)), vec![var("x", 0)])),
    );
    assert_eq!(
        reduce(8, &e),
        Expr::NEListLit(Box::new(Expr::NaturalLit(1)), vec![Expr::NaturalLit(1)])
    );
    assert_eq!(reduce(0, &e), e.clone());
}

#[test]
fn annotations_are_dropped() {
    let e = Expr::Annot(Box::new(Expr::NaturalLit(1)), Box::new(natural()));
    assert_eq!(reduce(0, &e), Expr::NaturalLit(1));
}

#[test]
fn conditionals_on_literals_choose_a_branch() {
    let choose = |c: Expr| {
        Expr::BoolIf(Box::new(c), Box::new(Expr::NaturalLit(1)), Box::new(Expr::NaturalLit(2)))
    };
    assert_eq!(reduce(8, &choose(Expr::BoolLit(true))), Expr::NaturalLit(1));
    assert_eq!(reduce(8, &choose(Expr::BoolLit(false))), Expr::NaturalLit(2));
    assert_eq!(reduce(8, &choose(var("c", 0))), choose(var("c", 0)));
    let computed = app(lam("x", Expr::Builtin(Builtin::Bool), var("x", 0)), vec![Expr::BoolLit(false)]);
    assert_eq!(reduce(8, &choose(computed)), Expr::NaturalLit(2));
}

#[test]
fn fields_of_record_literals_are_selected() {
    let r = Expr::RecordLit(vec![(l("a"), Expr::NaturalLit(1)), (l("b"), Expr::BoolLit(true))]);
    assert_eq!(reduce(8, &Expr::Field(Box::new(r.clone()), l("b"))), Expr::BoolLit(true));
    let missing = Expr::Field(Box::new(r), l("c"));
    assert_eq!(reduce(8, &missing), missing.clone());
    let open = Expr::Field(Box::new(var("r", 0)), l("a"));
    assert_eq!(reduce(8, &open), open.clone());
}

#[test]
fn every_part_is_reduced() {
    let redex = app(lam("x", ty(), var("x", 0)), vec![natural()]);
    let e = Expr::RecordType(vec![
        (l("a"), Expr::Pi(l("x"), Box::new(redex.clone()), Box::new(redex.clone()))),
        (l("b"), Expr::UnionType(vec![(l("A"), Some(redex.clone())), (l("B"), None)])),
        (l("c"), Expr::EmptyListLit(Box::new(redex.clone()))),
        (l("d"), Expr::BinOp(BinOp::NaturalPlus, Box::new(redex.clone()), Box::new(redex.clone()))),
        (l("e"), Expr::NEOptionalLit(Box::new(redex.clone()))),
        (l("f"), lam("y", redex.clone(), redex.clone())),
    ]);
    let expected = Expr::RecordType(vec![
        (l("a"), Expr::Pi(l("x"), Box::new(natural()), Box::new(natural()))),
        (l("b"), Expr::UnionType(vec![(l("A"), Some(natural())), (l("B"), None)])),
        (l("c"), Expr::EmptyListLit(Box::new(natural()))),
        (l("d"), Expr::BinOp(BinOp::NaturalPlus, Box::new(natural()), Box::new(natural()))),
        (l("e"), Expr::NEOptionalLit(Box::new(natural()))),
        (l("f"), lam("y", natural(), natural())),
    ]);
    assert_eq!(reduce(8, &e), expected);
}

#[test]
fn operators_and_builtin_functions_stay() {
    let e = Expr::BinOp(
        BinOp::NaturalPlus,
        Box::new(Expr::NaturalLit(1)),
        Box::new(Expr::NaturalLit(2)),
    );
    assert_eq!(reduce(8, &e), e.clone());
    let e = app(Expr::Builtin(Builtin::NaturalIsZero), vec![Expr::NaturalLit(0)]);
    assert_eq!(reduce(8, &e), e.clone());
}

#[test]
fn reducing_twice_changes_nothing_more() {
    let id = lam("a", ty(), lam("x", var("a", 0), var("x", 0)));
    let e = Expr::Pi(
        l("f"),
        Box::new(app(id.clone(), vec![ty(), natural()])),
        Box::new(app(id, vec![natural()])),
    );
    let once = reduce(16, &e);
    assert_eq!(reduce(16, &once), once);
}

#[test]
fn the_reducer_is_a_normalizer() {
    let e = app(lam("x", natural(), var("x", 0)), vec![Expr::NaturalLit(1)]);
    assert_eq!(Reducer { fuel: 4 }.normalize(&e), Expr::NaturalLit(1));
    assert_eq!(Reducer { fuel: 0 }.normalize(&e), e);
}
