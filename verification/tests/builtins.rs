use dhall_typecheck::builtins::type_of_builtin;
use dhall_typecheck::reduce::Reducer;
use dhall_typecheck::syntax::{Builtin, Const, Expr, Label, V};
use dhall_typecheck::typecheck::type_of;

fn l(name: &str) -> Label {
    Label::new(name)
}

fn var(name: &str) -> Expr {
    Expr::Var(V(l(name), 0))
}

fn pi(name: &str, a: Expr, b: Expr) -> Expr {
    Expr::Pi(l(name), Box::new(a), Box::new(b))
}

fn arrow(a: Expr, b: Expr) -> Expr {
    pi("_", a, b)
}

fn b(x: Builtin) -> Expr {
    Expr::Builtin(x)
}

fn ty() -> Expr {
    Expr::Const(Const::Type)
}

fn list(a: Expr) -> Expr {
    Expr::App(Box::new(b(Builtin::List)), vec![a])
}

fn optional(a: Expr) -> Expr {
    Expr::App(Box::new(b(Builtin::Optional)), vec![a])
}

fn all_builtins() -> Vec<Builtin> {
    vec![
        Builtin::Bool,
        Builtin::Natural,
        Builtin::Integer,
        Builtin::Double,
        Builtin::Text,
        Builtin::List,
        Builtin::Optional,
        Builtin::NaturalBuild,
        Builtin::NaturalFold,
        Builtin::NaturalIsZero,
        Builtin::NaturalEven,
        Builtin::NaturalOdd,
        Builtin::NaturalToInteger,
        Builtin::NaturalShow,
        Builtin::IntegerToDouble,
        Builtin::IntegerShow,
        Builtin::DoubleShow,
        Builtin::ListBuild,
        Builtin::ListFold,
        Builtin::ListLength,
        Builtin::ListHead,
        Builtin::ListLast,
        Builtin::ListIndexed,
        Builtin::ListReverse,
        Builtin::OptionalFold,
        Builtin::OptionalBuild,
        Builtin::TextShow,
    ]
}

#[test]
fn base_types_are_types() {
    for x in [Builtin::Bool, Builtin::Natural, Builtin::Integer, Builtin::Double, Builtin::Text] {
        assert_eq!(type_of_builtin(x), ty());
    }
}

#[test]
fn type_constructors() {
    assert_eq!(type_of_builtin(Builtin::List), arrow(ty(), ty()));
    assert_eq!(type_of_builtin(Builtin::Optional), arrow(ty(), ty()));
}

#[test]
fn natural_functions() {
    let fold = pi(
        "natural",
        ty(),
        pi(
            "succ",
            arrow(var("natural"), var("natural")),
            pi("zero", var("natural"), var("natural")),
        ),
    );
    assert_eq!(
        type_of_builtin(Builtin::NaturalFold),
        arrow(b(Builtin::Natural), fold.clone())
    );
    assert_eq!(type_of_builtin(Builtin::NaturalBuild), arrow(fold, b(Builtin::Natural)));
    for x in [Builtin::NaturalIsZero, Builtin::NaturalEven, Builtin::NaturalOdd] {
        assert_eq!(type_of_builtin(x), arrow(b(Builtin::Natural), b(Builtin::Bool)));
    }
    assert_eq!(
        type_of_builtin(Builtin::NaturalToInteger),
        arrow(b(Builtin::Natural), b(Builtin::Integer))
    );
    assert_eq!(
        type_of_builtin(Builtin::NaturalShow),
        arrow(b(Builtin::Natural), b(Builtin::Text))
    );
}

#[test]
fn conversions() {
    assert_eq!(
        type_of_builtin(Builtin::IntegerToDouble),
        arrow(b(Builtin::Integer), b(Builtin::Double))
    );
    assert_eq!(
        type_of_builtin(Builtin::IntegerShow),
        arrow(b(Builtin::Integer), b(Builtin::Text))
    );
    assert_eq!(type_of_builtin(Builtin::DoubleShow), arrow(b(Builtin::Double), b(Builtin::Text)));
    assert_eq!(type_of_builtin(Builtin::TextShow), arrow(b(Builtin::Text), b(Builtin::Text)));
}

#[test]
fn list_functions() {
    let fold = pi(
        "list",
        ty(),
        pi(
            "cons",
            arrow(var("a"), arrow(var("list"), var("list"))),
            pi("nil", var("list"), var("list")),
        ),
    );
    assert_eq!(
        type_of_builtin(Builtin::ListBuild),
        pi("a", ty(), arrow(fold.clone(), list(var("a"))))
    );
    assert_eq!(
        type_of_builtin(Builtin::ListFold),
        pi("a", ty(), arrow(list(var("a")), fold))
    );
    assert_eq!(
        type_of_builtin(Builtin::ListLength),
        pi("a", ty(), arrow(list(var("a")), b(Builtin::Natural)))
    );
    for x in [Builtin::ListHead, Builtin::ListLast] {
        assert_eq!(
            type_of_builtin(x),
            pi("a", ty(), arrow(list(var("a")), optional(var("a"))))
        );
    }
    let indexed =
        Expr::RecordType(vec![(l("index"), b(Builtin::Natural)), (l("value"), var("a"))]);
    assert_eq!(
        type_of_builtin(Builtin::ListIndexed),
        pi("a", ty(), arrow(list(var("a")), list(indexed)))
    );
    assert_eq!(
        type_of_builtin(Builtin::ListReverse),
        pi("a", ty(), arrow(list(var("a")), list(var("a"))))
    );
}

#[test]
fn optional_functions() {
    let fold = pi(
        "optional",
        ty(),
        pi(
            "just",
            arrow(var("a"), var("optional")),
            pi("nothing", var("optional"), var("optional")),
        ),
    );
    assert_eq!(
        type_of_builtin(Builtin::OptionalFold),
        pi("a", ty(), arrow(optional(var("a")), fold.clone()))
    );
    assert_eq!(
        type_of_builtin(Builtin::OptionalBuild),
        pi("a", ty(), arrow(fold, optional(var("a"))))
    );
}

#[test]
fn every_builtin_type_is_closed_and_has_a_type() {
    let norm = Reducer { fuel: 16 };
    for x in all_builtins() {
        // The type of the constant is the oracle's entry.
        assert_eq!(type_of(&norm, &b(x), 64), Ok(type_of_builtin(x)));
        // The entry is well-formed without any binder in force.
        let sort = type_of(&norm, &type_of_builtin(x), 64);
        assert!(
            sort == Ok(Expr::Const(Const::Type)) || sort == Ok(Expr::Const(Const::Kind)),
            "{:?}",
            x
        );
    }
}

#[test]
fn convenience_constructors() {
    assert_eq!(Expr::named("x"), Expr::Var(V(l("x"), 0)));
    assert_eq!(Expr::ty(), ty());
    assert_eq!(Expr::arrow(ty(), ty()), pi("_", ty(), ty()));
    assert_eq!(Expr::forall_type("a", var("a")), pi("a", ty(), var("a")));
    assert_eq!(Expr::applied(var("f"), var("x")), Expr::App(Box::new(var("f")), vec![var("x")]));
    assert_eq!(Expr::list_of(var("a")), list(var("a")));
    assert_eq!(Expr::optional_of(var("a")), optional(var("a")));
}
