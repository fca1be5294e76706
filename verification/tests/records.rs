use dhall_typecheck::builtins::type_of_builtin;
use dhall_typecheck::records::{alternatives_increasing, fields_increasing};
use dhall_typecheck::reduce::{reduce, Reducer};
use dhall_typecheck::shift::shift;
use dhall_typecheck::syntax::{Builtin, Expr, Label, V};
use dhall_typecheck::typecheck::type_of;

fn l(name: &str) -> Label {
    Label::new(name)
}

fn one() -> Expr {
    Expr::NaturalLit(1)
}

#[test]
fn labels_are_ordered_like_words() {
    assert!(l("a").before(&l("b")));
    assert!(!l("b").before(&l("a")));
    assert!(!l("a").before(&l("a")));
    assert!(l("").before(&l("a")));
    assert!(!l("a").before(&l("")));
    assert!(!l("").before(&l("")));
    assert!(l("ab").before(&l("abc")));
    assert!(!l("abc").before(&l("ab")));
    assert!(l("abc").before(&l("abd")));
    assert!(l("Z").before(&l("a")));
    assert!(l("index").before(&l("value")));
    assert!(l("z").before(&l("é")));
    assert!(l("é").before(&l("∀")));
}

#[test]
fn the_order_of_labels_is_that_of_strings() {
    let names = ["", "a", "ab", "abc", "b", "B", "é", "∀x", "zz", "a b", "a\u{10000}"];
    for a in names {
        for b in names {
            assert_eq!(l(a).before(&l(b)), a < b, "{:?} {:?}", a, b);
        }
    }
}

#[test]
fn entries_in_order() {
    assert!(fields_increasing(&vec![]));
    assert!(fields_increasing(&vec![(l("a"), one())]));
    assert!(fields_increasing(&vec![(l("a"), one()), (l("b"), one()), (l("c"), one())]));
    assert!(!fields_increasing(&vec![(l("b"), one()), (l("a"), one())]));
    assert!(!fields_increasing(&vec![(l("a"), one()), (l("a"), one())]));
    assert!(!fields_increasing(&vec![(l("a"), one()), (l("c"), one()), (l("b"), one())]));
    assert!(alternatives_increasing(&vec![(l("A"), None), (l("B"), Some(one()))]));
    assert!(!alternatives_increasing(&vec![(l("B"), None), (l("A"), Some(one()))]));
}

#[test]
fn well_formed_expressions() {
    let sorted = Expr::RecordLit(vec![(l("a"), one()), (l("b"), one())]);
    let unsorted = Expr::RecordLit(vec![(l("b"), one()), (l("a"), one())]);
    let twice = Expr::RecordType(vec![(l("a"), one()), (l("a"), one())]);
    let union = Expr::UnionType(vec![(l("B"), None), (l("A"), None)]);
    assert!(sorted.is_well_formed());
    assert!(!unsorted.is_well_formed());
    assert!(!twice.is_well_formed());
    assert!(!union.is_well_formed());
    assert!(one().is_well_formed());
    // A part that is out of order makes the whole ill formed.
    let inside = |e: Expr| {
        Expr::Lam(
            l("x"),
            Box::new(Expr::Builtin(Builtin::Natural)),
            Box::new(Expr::App(
                Box::new(one()),
                vec![one(), Expr::NEListLit(Box::new(one()), vec![e])],
            )),
        )
    };
    assert!(inside(sorted.clone()).is_well_formed());
    assert!(!inside(unsorted).is_well_formed());
    let nested = Expr::RecordLit(vec![(l("k"), twice)]);
    assert!(!nested.is_well_formed());
    let payload = Expr::UnionType(vec![(l("A"), Some(union))]);
    assert!(!payload.is_well_formed());
}

#[test]
fn the_operations_keep_entries_in_order() {
    let e = Expr::RecordLit(vec![
        (l("a"), Expr::Var(V(l("x"), 0))),
        (l("b"), Expr::RecordLit(vec![(l("c"), one()), (l("d"), Expr::BoolLit(true))])),
    ]);
    assert!(e.is_well_formed());
    assert!(shift(1, &V(l("x"), 0), &e).unwrap().is_well_formed());
    assert!(reduce(4, &e).is_well_formed());
    let closed = Expr::RecordLit(vec![
        (l("a"), one()),
        (l("b"), Expr::RecordLit(vec![(l("c"), one()), (l("d"), Expr::BoolLit(true))])),
    ]);
    let t = type_of(&Reducer { fuel: 8 }, &closed, 32).unwrap();
    assert!(t.is_well_formed());
    assert_eq!(
        t,
        Expr::RecordType(vec![
            (l("a"), Expr::Builtin(Builtin::Natural)),
            (
                l("b"),
                Expr::RecordType(vec![
                    (l("c"), Expr::Builtin(Builtin::Natural)),
                    (l("d"), Expr::Builtin(Builtin::Bool)),
                ])
            ),
        ])
    );
}

#[test]
fn builtin_types_are_well_formed() {
    for b in [
        Builtin::ListIndexed,
        Builtin::ListBuild,
        Builtin::NaturalFold,
        Builtin::OptionalBuild,
        Builtin::Bool,
    ] {
        assert!(type_of_builtin(b).is_well_formed());
    }
}
