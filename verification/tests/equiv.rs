use dhall_typecheck::equiv::{match_vars, prop_equal, prop_equal_below};
use dhall_typecheck::syntax::{Builtin, Const, Expr, Label, V};

fn l(name: &str) -> Label {
    Label::new(name)
}

fn v(name: &str, index: usize) -> V {
    V(l(name), index)
}

fn var(name: &str, index: usize) -> Expr {
    Expr::Var(v(name, index))
}

fn pi(name: &str, a: Expr, b: Expr) -> Expr {
    Expr::Pi(l(name), Box::new(a), Box::new(b))
}

fn lam(name: &str, a: Expr, b: Expr) -> Expr {
    Expr::Lam(l(name), Box::new(a), Box::new(b))
}

fn natural() -> Expr {
    Expr::Builtin(Builtin::Natural)
}

fn pairs(names: &[(&str, &str)]) -> Vec<(Label, Label)> {
    names.iter().map(|(a, b)| (l(a), l(b))).collect()
}

#[test]
fn variables_without_binders_match_when_equal() {
    assert!(match_vars(&v("x", 0), &v("x", 0), &vec![]));
    assert!(match_vars(&v("x", 3), &v("x", 3), &vec![]));
    assert!(!match_vars(&v("x", 0), &v("y", 0), &vec![]));
    assert!(!match_vars(&v("x", 0), &v("x", 1), &vec![]));
}

#[test]
fn variables_bound_by_the_same_frame_match() {
    assert!(match_vars(&v("x", 0), &v("y", 0), &pairs(&[("x", "y")])));
    assert!(match_vars(&v("x", 1), &v("y", 0), &pairs(&[("x", "y"), ("x", "z")])));
    assert!(match_vars(&v("a", 0), &v("b", 0), &pairs(&[("a", "b"), ("x", "y")])));
    assert!(match_vars(&v("x", 0), &v("y", 0), &pairs(&[("x", "y"), ("x", "y")])));
}

#[test]
fn variables_bound_by_different_frames_differ() {
    // Left refers to the inner frame, right to the outer one.
    assert!(!match_vars(&v("x", 0), &v("y", 0), &pairs(&[("a", "y"), ("x", "b")])));
    // Bound on one side, free on the other.
    assert!(!match_vars(&v("x", 0), &v("x", 0), &pairs(&[("x", "z")])));
    assert!(!match_vars(&v("x", 0), &v("x", 0), &pairs(&[("z", "x")])));
    // Each side is bound by a frame that does not bind the other.
    assert!(!match_vars(&v("x", 0), &v("x", 0), &pairs(&[("y", "x"), ("x", "y")])));
}

#[test]
fn free_variables_are_compared_past_the_binders() {
    assert!(match_vars(&v("x", 1), &v("x", 1), &pairs(&[("x", "x")])));
    assert!(match_vars(&v("x", 1), &v("x", 0), &pairs(&[("x", "y")])));
    assert!(!match_vars(&v("x", 1), &v("x", 1), &pairs(&[("x", "y")])));
    assert!(match_vars(&v("z", 2), &v("z", 2), &pairs(&[("x", "y"), ("a", "b")])));
}

#[test]
fn function_types_up_to_binder_names() {
    let left = pi("x", natural(), var("x", 0));
    let right = pi("y", natural(), var("y", 0));
    assert!(prop_equal(&left, &right));
    assert!(prop_equal(&right, &left));
    let left = pi("x", natural(), pi("y", natural(), var("x", 0)));
    let right = pi("a", natural(), pi("b", natural(), var("a", 0)));
    assert!(prop_equal(&left, &right));
    let other = pi("a", natural(), pi("b", natural(), var("b", 0)));
    assert!(!prop_equal(&left, &other));
    assert!(!prop_equal(&other, &left));
}

#[test]
fn shadowed_binders() {
    let left = pi("x", natural(), pi("x", natural(), var("x", 1)));
    let right = pi("a", natural(), pi("b", natural(), var("a", 0)));
    assert!(prop_equal(&left, &right));
    let left = pi("x", natural(), pi("x", natural(), var("x", 0)));
    assert!(!prop_equal(&left, &right));
}

#[test]
fn one_sided_capture_is_no_match() {
    let left = pi("x", natural(), var("x", 0));
    let right = pi("y", natural(), var("x", 0));
    assert!(!prop_equal(&left, &right));
    assert!(!prop_equal(&right, &left));
    // The inner binders name what the outer binders of the other side name.
    let left = pi("y", natural(), pi("x", natural(), var("x", 0)));
    let right = pi("x", natural(), pi("y", natural(), var("x", 0)));
    assert!(!prop_equal(&left, &right));
}

#[test]
fn input_types_are_compared() {
    let left = pi("x", natural(), natural());
    let right = pi("x", Expr::Builtin(Builtin::Bool), natural());
    assert!(!prop_equal(&left, &right));
}

#[test]
fn constants_and_builtins() {
    assert!(prop_equal(&Expr::Const(Const::Type), &Expr::Const(Const::Type)));
    assert!(!prop_equal(&Expr::Const(Const::Type), &Expr::Const(Const::Kind)));
    assert!(prop_equal(&natural(), &natural()));
    assert!(!prop_equal(&natural(), &Expr::Builtin(Builtin::Integer)));
    assert!(!prop_equal(&natural(), &Expr::Const(Const::Type)));
}

#[test]
fn applications_argument_by_argument() {
    let list = |a: Expr| Expr::App(Box::new(Expr::Builtin(Builtin::List)), vec![a]);
    assert!(prop_equal(&list(natural()), &list(natural())));
    assert!(!prop_equal(&list(natural()), &list(Expr::Builtin(Builtin::Bool))));
    let one = Expr::App(Box::new(var("f", 0)), vec![natural()]);
    let two = Expr::App(Box::new(var("f", 0)), vec![natural(), natural()]);
    assert!(!prop_equal(&one, &two));
    assert!(!prop_equal(&two, &one));
    let left = pi("x", natural(), list(var("x", 0)));
    let right = pi("y", natural(), list(var("y", 0)));
    assert!(prop_equal(&left, &right));
}

#[test]
fn record_types_in_order() {
    let ab = Expr::RecordType(vec![(l("a"), natural()), (l("b"), Expr::Builtin(Builtin::Bool))]);
    let ba = Expr::RecordType(vec![(l("b"), Expr::Builtin(Builtin::Bool)), (l("a"), natural())]);
    let a = Expr::RecordType(vec![(l("a"), natural())]);
    assert!(prop_equal(&ab, &ab.clone()));
    assert!(!prop_equal(&ab, &ba));
    assert!(!prop_equal(&ab, &a));
    let left = pi("x", natural(), Expr::RecordType(vec![(l("a"), var("x", 0))]));
    let right = pi("y", natural(), Expr::RecordType(vec![(l("a"), var("y", 0))]));
    assert!(prop_equal(&left, &right));
}

#[test]
fn union_types_in_order() {
    let u = Expr::UnionType(vec![(l("A"), Some(natural())), (l("B"), None)]);
    let no_payload = Expr::UnionType(vec![(l("A"), None), (l("B"), None)]);
    let other_label = Expr::UnionType(vec![(l("A"), Some(natural())), (l("C"), None)]);
    assert!(prop_equal(&u, &u.clone()));
    assert!(!prop_equal(&u, &no_payload));
    assert!(!prop_equal(&no_payload, &u));
    assert!(!prop_equal(&u, &other_label));
}

#[test]
fn other_terms_are_compared_as_written() {
    let f = lam("x", natural(), var("x", 0));
    assert!(prop_equal(&f, &f.clone()));
    // Functions are not compared up to the names of their parameters.
    assert!(!prop_equal(&f, &lam("y", natural(), var("y", 0))));
    assert!(prop_equal(&Expr::NaturalLit(3), &Expr::NaturalLit(3)));
    assert!(!prop_equal(&Expr::NaturalLit(3), &Expr::NaturalLit(4)));
    assert!(!prop_equal(&Expr::NaturalLit(3), &Expr::IntegerLit(3)));
    assert!(prop_equal(
        &Expr::TextLit("a".to_string()),
        &Expr::TextLit("a".to_string())
    ));
    let list = Expr::NEListLit(Box::new(Expr::NaturalLit(1)), vec![Expr::NaturalLit(2)]);
    assert!(prop_equal(&list, &list.clone()));
}

#[test]
fn equivalence_on_examples() {
    let a = pi("x", natural(), pi("y", var("x", 0), var("y", 0)));
    let b = pi("u", natural(), pi("v", var("u", 0), var("v", 0)));
    let c = pi("p", natural(), pi("p", var("p", 0), var("p", 0)));
    for t in [&a, &b, &c] {
        assert!(prop_equal(t, t));
    }
    assert!(prop_equal(&a, &b) && prop_equal(&b, &a));
    assert!(prop_equal(&b, &c) && prop_equal(&c, &b));
    assert!(prop_equal(&a, &c) && prop_equal(&c, &a));
}

#[test]
fn the_stack_of_pairs_is_left_as_it_was() {
    let mut stack = pairs(&[("x", "y")]);
    let left = pi("a", natural(), var("x", 0));
    let right = pi("b", natural(), var("y", 0));
    assert!(prop_equal_below(&mut stack, &left, &right));
    assert_eq!(stack, pairs(&[("x", "y")]));
    assert!(!prop_equal_below(&mut stack, &var("x", 0), &var("x", 0)));
    assert_eq!(stack, pairs(&[("x", "y")]));
}

#[test]
fn structural_equality() {
    let a = pi("x", natural(), var("x", 0));
    assert!(a.same(&a.clone()));
    assert!(!a.same(&pi("y", natural(), var("y", 0))));
    assert!(l("x").same(&l("x")));
    assert!(!l("x").same(&l("y")));
    assert!(v("x", 1).same(&v("x", 1)));
    assert!(!v("x", 1).same(&v("x", 2)));
    let r = Expr::RecordLit(vec![(l("a"), Expr::NaturalLit(1))]);
    assert!(r.same(&r.clone()));
    assert!(!r.same(&Expr::RecordType(vec![(l("a"), Expr::NaturalLit(1))])));
    let with = Expr::Let(l("x"), Some(Box::new(natural())), Box::new(natural()), Box::new(natural()));
    let without = Expr::Let(l("x"), None, Box::new(natural()), Box::new(natural()));
    assert!(with.same(&with.clone()));
    assert!(!with.same(&without));
}
