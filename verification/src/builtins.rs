//! The types of the built-in constants.

use crate::syntax::{Builtin, Const, Expr, Label, Term, V};
use vstd::prelude::*;

verus! {

impl Term {
    /// The universe `Type`.
    pub open spec fn ty() -> Term {
        Term::Const(Const::Type)
    }

    /// The variable `x`, as it is written where no binder of that name is to be skipped.
    pub open spec fn named(x: Seq<char>) -> Term {
        Term::Var(x, 0)
    }

    /// The function type `forall (x : a) -> b`.
    pub open spec fn pi(x: Seq<char>, a: Term, b: Term) -> Term {
        Term::Pi(x, Box::new(a), Box::new(b))
    }

    /// The function type `a -> b`, whose binder has the name `_`.
    pub open spec fn arrow(a: Term, b: Term) -> Term {
        Term::pi("_"@, a, b)
    }

    /// The function type `forall (x : Type) -> b`.
    pub open spec fn forall_type(x: Seq<char>, b: Term) -> Term {
        Term::pi(x, Term::ty(), b)
    }

    /// The application of `f` to the one argument `a`.
    pub open spec fn applied(f: Term, a: Term) -> Term {
        Term::App(Box::new(f), seq![a])
    }

    /// The type `List a`.
    pub open spec fn list_of(a: Term) -> Term {
        Term::applied(Term::Builtin(Builtin::List), a)
    }

    /// The type `Optional a`.
    pub open spec fn optional_of(a: Term) -> Term {
        Term::applied(Term::Builtin(Builtin::Optional), a)
    }

    /// The type of a fold over a carrier type named `carrier`:
    /// `forall (carrier : Type) -> forall (step : step_type) -> forall (base : carrier) -> carrier`.
    pub open spec fn fold_type(
        carrier: Seq<char>,
        step: Seq<char>,
        step_type: Term,
        base: Seq<char>,
    ) -> Term {
        Term::forall_type(
            carrier,
            Term::pi(step, step_type, Term::pi(base, Term::named(carrier), Term::named(carrier))),
        )
    }

    /// The type of a fold over naturals, with the carrier named `natural`.
    pub open spec fn natural_fold_type() -> Term {
        Term::fold_type(
            "natural"@,
            "succ"@,
            Term::arrow(Term::named("natural"@), Term::named("natural"@)),
            "zero"@,
        )
    }

    /// The type of a fold over lists of `a`, with the carrier named `list`.
    pub open spec fn list_fold_type() -> Term {
        Term::fold_type(
            "list"@,
            "cons"@,
            Term::arrow(
                Term::named("a"@),
                Term::arrow(Term::named("list"@), Term::named("list"@)),
            ),
            "nil"@,
        )
    }

    /// The type of a fold over optional values of `a`, with the carrier named `optional`.
    pub open spec fn optional_fold_type() -> Term {
        Term::fold_type(
            "optional"@,
            "just"@,
            Term::arrow(Term::named("a"@), Term::named("optional"@)),
            "nothing"@,
        )
    }

    /// The record type `{ index : Natural, value : a }`.
    pub open spec fn indexed_type() -> Term {
        Term::RecordType(
            seq![
                ("index"@, Term::Builtin(Builtin::Natural)),
                ("value"@, Term::named("a"@)),
            ],
        )
    }
}

/// The type of each built-in constant, a closed term.
pub open spec fn builtin_type(b: Builtin) -> Term {
    let natural = Term::Builtin(Builtin::Natural);
    let a = Term::named("a"@);
    match b {
        Builtin::Bool | Builtin::Natural | Builtin::Integer | Builtin::Double | Builtin::Text =>
            Term::ty(),
        Builtin::List | Builtin::Optional => Term::arrow(Term::ty(), Term::ty()),
        Builtin::NaturalFold => Term::arrow(natural, Term::natural_fold_type()),
        Builtin::NaturalBuild => Term::arrow(Term::natural_fold_type(), natural),
        Builtin::NaturalIsZero | Builtin::NaturalEven | Builtin::NaturalOdd => Term::arrow(
            natural,
            Term::Builtin(Builtin::Bool),
        ),
        Builtin::NaturalToInteger => Term::arrow(natural, Term::Builtin(Builtin::Integer)),
        Builtin::NaturalShow => Term::arrow(natural, Term::Builtin(Builtin::Text)),
        Builtin::IntegerToDouble => Term::arrow(
            Term::Builtin(Builtin::Integer),
            Term::Builtin(Builtin::Double),
        ),
        Builtin::IntegerShow => Term::arrow(
            Term::Builtin(Builtin::Integer),
            Term::Builtin(Builtin::Text),
        ),
        Builtin::DoubleShow => Term::arrow(
            Term::Builtin(Builtin::Double),
            Term::Builtin(Builtin::Text),
        ),
        Builtin::TextShow => Term::arrow(
            Term::Builtin(Builtin::Text),
            Term::Builtin(Builtin::Text),
        ),
        Builtin::ListBuild => Term::forall_type(
            "a"@,
            Term::arrow(Term::list_fold_type(), Term::list_of(a)),
        ),
        Builtin::ListFold => Term::forall_type(
            "a"@,
            Term::arrow(Term::list_of(a), Term::list_fold_type()),
        ),
        Builtin::ListLength => Term::forall_type("a"@, Term::arrow(Term::list_of(a), natural)),
        Builtin::ListHead | Builtin::ListLast => Term::forall_type(
            "a"@,
            Term::arrow(Term::list_of(a), Term::optional_of(a)),
        ),
        Builtin::ListIndexed => Term::forall_type(
            "a"@,
            Term::arrow(Term::list_of(a), Term::list_of(Term::indexed_type())),
        ),
        Builtin::ListReverse => Term::forall_type(
            "a"@,
            Term::arrow(Term::list_of(a), Term::list_of(a)),
        ),
        Builtin::OptionalFold => Term::forall_type(
            "a"@,
            Term::arrow(Term::optional_of(a), Term::optional_fold_type()),
        ),
        Builtin::OptionalBuild => Term::forall_type(
            "a"@,
            Term::arrow(Term::optional_fold_type(), Term::optional_of(a)),
        ),
    }
}

impl Expr {
    /// The universe `Type`.
    pub fn ty() -> (res: Expr)
        ensures
            res@ == Term::ty(),
    {
        Expr::Const(Const::Type)
    }

    /// The variable `x`, with nothing to skip.
    pub fn named(x: &str) -> (res: Expr)
        ensures
            res@ == Term::named(x@),
    {
        Expr::Var(V(Label::new(x), 0))
    }

    /// The function type `forall (x : a) -> b`.
    pub fn pi(x: &str, a: Expr, b: Expr) -> (res: Expr)
        ensures
            res@ == Term::pi(x@, a@, b@),
    {
        Expr::Pi(Label::new(x), Box::new(a), Box::new(b))
    }

    /// The function type `a -> b`.
    pub fn arrow(a: Expr, b: Expr) -> (res: Expr)
        ensures
            res@ == Term::arrow(a@, b@),
    {
        Expr::pi("_", a, b)
    }

    /// The function type `forall (x : Type) -> b`.
    pub fn forall_type(x: &str, b: Expr) -> (res: Expr)
        ensures
            res@ == Term::forall_type(x@, b@),
    {
        Expr::pi(x, Expr::ty(), b)
    }

    /// The application of `f` to the one argument `a`.
    pub fn applied(f: Expr, a: Expr) -> (res: Expr)
        ensures
            res@ == Term::applied(f@, a@),
    {
        let mut args: Vec<Expr> = Vec::new();
        args.push(a);
        assert(Expr::terms(args@) =~= seq![a@]);
        Expr::App(Box::new(f), args)
    }

    /// The type `List a`.
    pub fn list_of(a: Expr) -> (res: Expr)
        ensures
            res@ == Term::list_of(a@),
    {
        Expr::applied(Expr::Builtin(Builtin::List), a)
    }

    /// The type `Optional a`.
    pub fn optional_of(a: Expr) -> (res: Expr)
        ensures
            res@ == Term::optional_of(a@),
    {
        Expr::applied(Expr::Builtin(Builtin::Optional), a)
    }

    /// The type of a fold over a carrier type named `carrier`.
    pub fn fold_type(carrier: &str, step: &str, step_type: Expr, base: &str) -> (res: Expr)
        ensures
            res@ == Term::fold_type(carrier@, step@, step_type@, base@),
    {
        Expr::forall_type(
            carrier,
            Expr::pi(step, step_type, Expr::pi(base, Expr::named(carrier), Expr::named(carrier))),
        )
    }

    /// The type of a fold over naturals.
    pub fn natural_fold_type() -> (res: Expr)
        ensures
            res@ == Term::natural_fold_type(),
    {
        Expr::fold_type(
            "natural",
            "succ",
            Expr::arrow(Expr::named("natural"), Expr::named("natural")),
            "zero",
        )
    }

    /// The type of a fold over lists of `a`.
    pub fn list_fold_type() -> (res: Expr)
        ensures
            res@ == Term::list_fold_type(),
    {
        Expr::fold_type(
            "list",
            "cons",
            Expr::arrow(Expr::named("a"), Expr::arrow(Expr::named("list"), Expr::named("list"))),
            "nil",
        )
    }

    /// The type of a fold over optional values of `a`.
    pub fn optional_fold_type() -> (res: Expr)
        ensures
            res@ == Term::optional_fold_type(),
    {
        Expr::fold_type(
            "optional",
            "just",
            Expr::arrow(Expr::named("a"), Expr::named("optional")),
            "nothing",
        )
    }

    /// The record type `{ index : Natural, value : a }`.
    pub fn indexed_type() -> (res: Expr)
        ensures
            res@ == Term::indexed_type(),
    {
        let mut kts: Vec<(Label, Expr)> = Vec::new();
        kts.push((Label::new("index"), Expr::Builtin(Builtin::Natural)));
        kts.push((Label::new("value"), Expr::named("a")));
        assert(Expr::fields(kts@) =~= seq![
            ("index"@, Term::Builtin(Builtin::Natural)),
            ("value"@, Term::named("a"@)),
        ]);
        Expr::RecordType(kts)
    }
}

/// The type of a built-in constant.
pub fn type_of_builtin(b: Builtin) -> (res: Expr)
    ensures
        res@ == builtin_type(b),
{
    match b {
        Builtin::Bool | Builtin::Natural | Builtin::Integer | Builtin::Double | Builtin::Text =>
            Expr::ty(),
        Builtin::List | Builtin::Optional => Expr::arrow(Expr::ty(), Expr::ty()),
        Builtin::NaturalFold => Expr::arrow(
            Expr::Builtin(Builtin::Natural),
            Expr::natural_fold_type(),
        ),
        Builtin::NaturalBuild => Expr::arrow(
            Expr::natural_fold_type(),
            Expr::Builtin(Builtin::Natural),
        ),
        Builtin::NaturalIsZero | Builtin::NaturalEven | Builtin::NaturalOdd => Expr::arrow(
            Expr::Builtin(Builtin::Natural),
            Expr::Builtin(Builtin::Bool),
        ),
        Builtin::NaturalToInteger => Expr::arrow(
            Expr::Builtin(Builtin::Natural),
            Expr::Builtin(Builtin::Integer),
        ),
        Builtin::NaturalShow => Expr::arrow(
            Expr::Builtin(Builtin::Natural),
            Expr::Builtin(Builtin::Text),
        ),
        Builtin::IntegerToDouble => Expr::arrow(
            Expr::Builtin(Builtin::Integer),
            Expr::Builtin(Builtin::Double),
        ),
        Builtin::IntegerShow => Expr::arrow(
            Expr::Builtin(Builtin::Integer),
            Expr::Builtin(Builtin::Text),
        ),
        Builtin::DoubleShow => Expr::arrow(
            Expr::Builtin(Builtin::Double),
            Expr::Builtin(Builtin::Text),
        ),
        Builtin::TextShow => Expr::arrow(
            Expr::Builtin(Builtin::Text),
            Expr::Builtin(Builtin::Text),
        ),
        Builtin::ListBuild => Expr::forall_type(
            "a",
            Expr::arrow(Expr::list_fold_type(), Expr::list_of(Expr::named("a"))),
        ),
        Builtin::ListFold => Expr::forall_type(
            "a",
            Expr::arrow(Expr::list_of(Expr::named("a")), Expr::list_fold_type()),
        ),
        Builtin::ListLength => Expr::forall_type(
            "a",
            Expr::arrow(Expr::list_of(Expr::named("a")), Expr::Builtin(Builtin::Natural)),
        ),
        Builtin::ListHead | Builtin::ListLast => Expr::forall_type(
            "a",
            Expr::arrow(Expr::list_of(Expr::named("a")), Expr::optional_of(Expr::named("a"))),
        ),
        Builtin::ListIndexed => Expr::forall_type(
            "a",
            Expr::arrow(Expr::list_of(Expr::named("a")), Expr::list_of(Expr::indexed_type())),
        ),
        Builtin::ListReverse => Expr::forall_type(
            "a",
            Expr::arrow(Expr::list_of(Expr::named("a")), Expr::list_of(Expr::named("a"))),
        ),
        Builtin::OptionalFold => Expr::forall_type(
            "a",
            Expr::arrow(Expr::optional_of(Expr::named("a")), Expr::optional_fold_type()),
        ),
        Builtin::OptionalBuild => Expr::forall_type(
            "a",
            Expr::arrow(Expr::optional_fold_type(), Expr::optional_of(Expr::named("a"))),
        ),
    }
}

} // verus!
