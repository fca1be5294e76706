use dhall_typecheck::context::Context;
use dhall_typecheck::error::TypeMessage;
use dhall_typecheck::reduce::Reducer;
use dhall_typecheck::syntax::{BinOp, Builtin, Const, Expr, Label, V};
use dhall_typecheck::typecheck::{
    applied, normalized_type_with, rule, type_of, type_with, universe_of,
};

const DEPTH: usize = 64;

fn norm() -> Reducer {
    Reducer { fuel: 64 }
}

fn l(name: &str) -> Label {
    Label::new(name)
}

fn var(name: &str, index: usize) -> Expr {
    Expr::Var(V(l(name), index))
}

fn lam(name: &str, a: Expr, b: Expr) -> Expr {
    Expr::Lam(l(name), Box::new(a), Box::new(b))
}

fn pi(name: &str, a: Expr, b: Expr) -> Expr {
    Expr::Pi(l(name), Box::new(a), Box::new(b))
}

fn app(f: Expr, args: Vec<Expr>) -> Expr {
    Expr::App(Box::new(f), args)
}

fn b(x: Builtin) -> Expr {
    Expr::Builtin(x)
}

fn ty() -> Expr {
    Expr::Const(Const::Type)
}

fn kind() -> Expr {
    Expr::Const(Const::Kind)
}

fn natural(n: usize) -> Expr {
    Expr::NaturalLit(n)
}

fn check(e: &Expr) -> Result<Expr, TypeMessage> {
    type_of(&norm(), e, DEPTH).map_err(|err| err.type_message)
}

#[test]
fn bool_literal_has_type_bool() {
    assert_eq!(type_of(&norm(), &Expr::BoolLit(true), DEPTH), Ok(b(Builtin::Bool)));
}

#[test]
fn identity_on_natural() {
    let e = lam("x", b(Builtin::Natural), var("x", 0));
    assert_eq!(
        type_of(&norm(), &e, DEPTH),
        Ok(pi("x", b(Builtin::Natural), b(Builtin::Natural)))
    );
}

#[test]
fn application_returns_the_type_only() {
    let e = app(lam("x", b(Builtin::Bool), var("x", 0)), vec![Expr::BoolLit(true)]);
    assert_eq!(type_of(&norm(), &e, DEPTH), Ok(b(Builtin::Bool)));
}

#[test]
fn free_variable_is_unbound() {
    let e = var("x", 0);
    let err = type_of(&norm(), &e, DEPTH).unwrap_err();
    assert_eq!(err.type_message, TypeMessage::UnboundVariable);
    assert_eq!(err.current, e);
    assert_eq!(err.context.len(), 0);
}

#[test]
fn applying_a_literal_is_not_a_function() {
    let e = app(Expr::BoolLit(true), vec![Expr::BoolLit(false)]);
    let err = type_of(&norm(), &e, DEPTH).unwrap_err();
    assert_eq!(
        err.type_message,
        TypeMessage::NotAFunction(Expr::BoolLit(true), b(Builtin::Bool))
    );
    assert_eq!(err.current, e);
}

#[test]
fn branches_of_different_types() {
    let e = Expr::BoolIf(
        Box::new(Expr::BoolLit(true)),
        Box::new(natural(1)),
        Box::new(Expr::BoolLit(false)),
    );
    assert_eq!(
        check(&e),
        Err(TypeMessage::IfBranchMismatch(
            natural(1),
            Expr::BoolLit(false),
            b(Builtin::Natural),
            b(Builtin::Bool),
        ))
    );
}

#[test]
fn polymorphic_identity() {
    let e = lam("a", ty(), lam("x", var("a", 0), var("x", 0)));
    assert_eq!(check(&e), Ok(pi("a", ty(), pi("x", var("a", 0), var("a", 0)))));
}

#[test]
fn no_function_from_a_term_to_a_type() {
    let e = pi("x", b(Builtin::Natural), ty());
    assert_eq!(
        check(&e),
        Err(TypeMessage::NoDependentTypes(b(Builtin::Natural), kind()))
    );
}

#[test]
fn the_rule_table() {
    assert_eq!(rule(Const::Type, Const::Type), Ok(Const::Type));
    assert_eq!(rule(Const::Kind, Const::Type), Ok(Const::Type));
    assert_eq!(rule(Const::Kind, Const::Kind), Ok(Const::Kind));
    assert_eq!(rule(Const::Type, Const::Kind), Err(()));
}

#[test]
fn function_types_of_each_allowed_universe() {
    // Natural -> Natural : Type
    assert_eq!(check(&pi("_", b(Builtin::Natural), b(Builtin::Natural))), Ok(ty()));
    // forall (a : Type) -> a : Type
    assert_eq!(check(&pi("a", ty(), var("a", 0))), Ok(ty()));
    // Type -> Type : Kind
    assert_eq!(check(&pi("_", ty(), ty())), Ok(kind()));
}

#[test]
fn type_has_type_kind_and_kind_has_none() {
    assert_eq!(check(&ty()), Ok(kind()));
    let err = type_of(&norm(), &kind(), DEPTH).unwrap_err();
    assert_eq!(err.type_message, TypeMessage::Untyped);
    assert_eq!(err.current, kind());
    assert_eq!(err.context.len(), 0);
    assert_eq!(universe_of(Const::Type), Ok(Const::Kind));
    assert_eq!(universe_of(Const::Kind).unwrap_err().type_message, TypeMessage::Untyped);
}

#[test]
fn untyped_error_has_an_empty_context() {
    let ctx = Context::new().insert(l("x"), b(Builtin::Natural)).unwrap();
    let err = type_with(&norm(), &ctx, &kind(), DEPTH).unwrap_err();
    assert_eq!(err.type_message, TypeMessage::Untyped);
    assert_eq!(err.context.len(), 0);
}

#[test]
fn variable_bound_by_the_context() {
    let ctx = Context::new().insert(l("x"), b(Builtin::Natural)).unwrap();
    assert_eq!(type_with(&norm(), &ctx, &var("x", 0), DEPTH), Ok(b(Builtin::Natural)));
    let err = type_with(&norm(), &ctx, &var("x", 1), DEPTH).unwrap_err();
    assert_eq!(err.type_message, TypeMessage::UnboundVariable);
    assert_eq!(err.context, ctx);
}

#[test]
fn shadowing_binders_shift_the_stored_types() {
    // \(x : Type) -> \(x : x) -> x  has type  forall (x : Type) -> forall (x : x) -> x@1
    let e = lam("x", ty(), lam("x", var("x", 0), var("x", 0)));
    assert_eq!(check(&e), Ok(pi("x", ty(), pi("x", var("x", 0), var("x", 1)))));
}

#[test]
fn application_substitutes_the_argument() {
    let id = lam("a", ty(), lam("x", var("a", 0), var("x", 0)));
    let once = app(id.clone(), vec![b(Builtin::Natural)]);
    assert_eq!(
        check(&once),
        Ok(pi("x", b(Builtin::Natural), b(Builtin::Natural)))
    );
    let twice = app(id, vec![b(Builtin::Natural), natural(3)]);
    assert_eq!(check(&twice), Ok(b(Builtin::Natural)));
}

#[test]
fn application_without_arguments_is_its_head() {
    assert_eq!(check(&app(natural(1), vec![])), Ok(b(Builtin::Natural)));
}

#[test]
fn argument_of_the_wrong_type() {
    let f = lam("x", b(Builtin::Bool), var("x", 0));
    let e = app(f.clone(), vec![natural(1)]);
    assert_eq!(
        check(&e),
        Err(TypeMessage::TypeMismatch(f, b(Builtin::Bool), natural(1), b(Builtin::Natural)))
    );
}

#[test]
fn applied_compares_and_substitutes() {
    let ctx = Context::new();
    let f = var("f", 0);
    let e = app(f.clone(), vec![natural(1)]);
    // f : forall (x : Natural) -> List x, applied to 1, gives List 1.
    let tb = app(b(Builtin::List), vec![var("x", 0)]);
    let ok = applied(&ctx, &e, &f, &l("x"), b(Builtin::Natural), &tb, &natural(1), b(Builtin::Natural));
    assert_eq!(ok, Ok(app(b(Builtin::List), vec![natural(1)])));
    let bad = applied(&ctx, &e, &f, &l("x"), b(Builtin::Bool), &tb, &natural(1), b(Builtin::Natural));
    assert_eq!(
        bad.unwrap_err().type_message,
        TypeMessage::TypeMismatch(f, b(Builtin::Bool), natural(1), b(Builtin::Natural))
    );
}

#[test]
fn input_type_that_is_no_type() {
    let e = pi("x", Expr::BoolLit(true), b(Builtin::Natural));
    assert_eq!(check(&e), Err(TypeMessage::InvalidInputType(Expr::BoolLit(true))));
}

#[test]
fn output_type_that_is_no_type() {
    let e = pi("x", b(Builtin::Natural), Expr::BoolLit(true));
    let err = type_of(&norm(), &e, DEPTH).unwrap_err();
    assert_eq!(err.type_message, TypeMessage::InvalidOutputType(b(Builtin::Bool)));
    // The error is raised below the binder.
    assert_eq!(err.context.len(), 1);
    assert_eq!(err.current, e);
}

#[test]
fn let_has_the_type_of_its_body() {
    let e = Expr::Let(l("x"), None, Box::new(natural(1)), Box::new(var("x", 0)));
    assert_eq!(check(&e), Ok(b(Builtin::Natural)));
    let annotated = Expr::Let(
        l("x"),
        Some(Box::new(b(Builtin::Natural))),
        Box::new(natural(1)),
        Box::new(Expr::BoolLit(true)),
    );
    assert_eq!(check(&annotated), Ok(b(Builtin::Bool)));
}

#[test]
fn let_with_a_wrong_annotation() {
    let e = Expr::Let(
        l("x"),
        Some(Box::new(b(Builtin::Bool))),
        Box::new(natural(1)),
        Box::new(var("x", 0)),
    );
    let err = type_of(&norm(), &e, DEPTH).unwrap_err();
    assert_eq!(
        err.type_message,
        TypeMessage::AnnotMismatch(natural(1), b(Builtin::Bool), b(Builtin::Natural))
    );
    assert_eq!(
        err.current,
        Expr::Annot(Box::new(natural(1)), Box::new(b(Builtin::Bool)))
    );
}

#[test]
fn let_of_a_term_with_a_type_as_body() {
    let e = Expr::Let(l("x"), None, Box::new(natural(1)), Box::new(b(Builtin::Natural)));
    assert_eq!(
        check(&e),
        Err(TypeMessage::NoDependentLet(b(Builtin::Natural), ty()))
    );
}

#[test]
fn let_of_a_type_with_a_term_as_body() {
    let e = Expr::Let(l("t"), None, Box::new(b(Builtin::Natural)), Box::new(natural(1)));
    assert_eq!(check(&e), Ok(b(Builtin::Natural)));
}

#[test]
fn annotation_gives_the_normal_form_of_the_declared_type() {
    let e = Expr::Annot(Box::new(natural(1)), Box::new(b(Builtin::Natural)));
    assert_eq!(check(&e), Ok(b(Builtin::Natural)));
    // 1 : (\(t : Type) -> t) Natural
    let declared = app(lam("t", ty(), var("t", 0)), vec![b(Builtin::Natural)]);
    let e = Expr::Annot(Box::new(natural(1)), Box::new(declared));
    assert_eq!(check(&e), Ok(b(Builtin::Natural)));
}

#[test]
fn annotation_that_does_not_fit() {
    let e = Expr::Annot(Box::new(natural(1)), Box::new(b(Builtin::Bool)));
    assert_eq!(
        check(&e),
        Err(TypeMessage::AnnotMismatch(natural(1), b(Builtin::Bool), b(Builtin::Natural)))
    );
}

#[test]
fn annotation_with_kind_is_untyped() {
    let e = Expr::Annot(Box::new(ty()), Box::new(kind()));
    assert_eq!(check(&e), Err(TypeMessage::Untyped));
}

#[test]
fn conditional_has_the_type_of_its_branches() {
    let e = Expr::BoolIf(Box::new(Expr::BoolLit(true)), Box::new(natural(1)), Box::new(natural(2)));
    assert_eq!(check(&e), Ok(b(Builtin::Natural)));
}

#[test]
fn condition_that_is_no_bool() {
    let e = Expr::BoolIf(Box::new(natural(1)), Box::new(natural(1)), Box::new(natural(2)));
    assert_eq!(
        check(&e),
        Err(TypeMessage::InvalidPredicate(natural(1), b(Builtin::Natural)))
    );
}

#[test]
fn branch_that_is_a_type() {
    let e = Expr::BoolIf(
        Box::new(Expr::BoolLit(true)),
        Box::new(b(Builtin::Natural)),
        Box::new(b(Builtin::Natural)),
    );
    assert_eq!(
        check(&e),
        Err(TypeMessage::IfBranchMustBeTerm(true, b(Builtin::Natural), ty(), kind()))
    );
    let e = Expr::BoolIf(
        Box::new(Expr::BoolLit(true)),
        Box::new(natural(1)),
        Box::new(b(Builtin::Natural)),
    );
    assert_eq!(
        check(&e),
        Err(TypeMessage::IfBranchMustBeTerm(false, b(Builtin::Natural), ty(), kind()))
    );
}

#[test]
fn empty_list_and_absent_optional() {
    let e = Expr::EmptyListLit(Box::new(b(Builtin::Natural)));
    assert_eq!(check(&e), Ok(app(b(Builtin::List), vec![b(Builtin::Natural)])));
    let e = Expr::EmptyOptionalLit(Box::new(b(Builtin::Bool)));
    assert_eq!(check(&e), Ok(app(b(Builtin::Optional), vec![b(Builtin::Bool)])));
}

#[test]
fn empty_list_normalizes_its_element_type() {
    let element = app(lam("t", ty(), var("t", 0)), vec![b(Builtin::Natural)]);
    let e = Expr::EmptyListLit(Box::new(element));
    assert_eq!(check(&e), Ok(app(b(Builtin::List), vec![b(Builtin::Natural)])));
}

#[test]
fn element_type_that_is_no_type() {
    let e = Expr::EmptyListLit(Box::new(natural(1)));
    assert_eq!(check(&e), Err(TypeMessage::InvalidListType(natural(1))));
    let e = Expr::EmptyOptionalLit(Box::new(Expr::BoolLit(true)));
    assert_eq!(check(&e), Err(TypeMessage::InvalidOptionalType(Expr::BoolLit(true))));
    // A list of types: the type of its first element is `Type`, which is no type of terms.
    let e = Expr::NEListLit(Box::new(b(Builtin::Natural)), vec![]);
    assert_eq!(check(&e), Err(TypeMessage::InvalidListType(ty())));
    let e = Expr::NEOptionalLit(Box::new(b(Builtin::Natural)));
    assert_eq!(check(&e), Err(TypeMessage::InvalidOptionalType(ty())));
}

#[test]
fn list_of_equal_elements() {
    let e = Expr::NEListLit(Box::new(natural(1)), vec![natural(2), natural(3)]);
    assert_eq!(check(&e), Ok(app(b(Builtin::List), vec![b(Builtin::Natural)])));
    let e = Expr::NEListLit(Box::new(Expr::BoolLit(true)), vec![]);
    assert_eq!(check(&e), Ok(app(b(Builtin::List), vec![b(Builtin::Bool)])));
}

#[test]
fn list_element_of_another_type() {
    let e = Expr::NEListLit(Box::new(natural(1)), vec![natural(2), Expr::BoolLit(true), natural(4)]);
    assert_eq!(
        check(&e),
        Err(TypeMessage::InvalidListElement(
            2,
            b(Builtin::Natural),
            Expr::BoolLit(true),
            b(Builtin::Bool),
        ))
    );
}

#[test]
fn present_optional() {
    let e = Expr::NEOptionalLit(Box::new(natural(1)));
    assert_eq!(check(&e), Ok(app(b(Builtin::Optional), vec![b(Builtin::Natural)])));
}

#[test]
fn record_type_and_record_literal() {
    let t = Expr::RecordType(vec![(l("a"), b(Builtin::Natural)), (l("b"), b(Builtin::Bool))]);
    assert_eq!(check(&t), Ok(ty()));
    let v = Expr::RecordLit(vec![(l("a"), natural(1)), (l("b"), Expr::BoolLit(true))]);
    assert_eq!(check(&v), Ok(t));
    assert_eq!(check(&Expr::RecordType(vec![])), Ok(ty()));
    assert_eq!(check(&Expr::RecordLit(vec![])), Ok(Expr::RecordType(vec![])));
}

#[test]
fn record_fields_that_are_no_terms() {
    let t = Expr::RecordType(vec![(l("a"), b(Builtin::Natural)), (l("b"), natural(1))]);
    assert_eq!(check(&t), Err(TypeMessage::InvalidFieldType(l("b"), natural(1))));
    let v = Expr::RecordLit(vec![(l("a"), b(Builtin::Natural))]);
    assert_eq!(check(&v), Err(TypeMessage::InvalidField(l("a"), b(Builtin::Natural))));
}

#[test]
fn first_error_from_the_left_is_reported() {
    let v = Expr::RecordLit(vec![
        (l("a"), var("missing", 0)),
        (l("b"), b(Builtin::Natural)),
    ]);
    let err = type_of(&norm(), &v, DEPTH).unwrap_err();
    assert_eq!(err.type_message, TypeMessage::UnboundVariable);
    assert_eq!(err.current, var("missing", 0));
}

#[test]
fn union_type() {
    let t = Expr::UnionType(vec![(l("A"), Some(b(Builtin::Natural))), (l("B"), None)]);
    assert_eq!(check(&t), Ok(ty()));
    let t = Expr::UnionType(vec![(l("A"), Some(natural(1)))]);
    assert_eq!(check(&t), Err(TypeMessage::InvalidAlternativeType(l("A"), natural(1))));
}

#[test]
fn field_selection() {
    let r = Expr::RecordLit(vec![(l("a"), natural(1)), (l("b"), Expr::BoolLit(true))]);
    let e = Expr::Field(Box::new(r.clone()), l("b"));
    assert_eq!(check(&e), Ok(b(Builtin::Bool)));
    let e = Expr::Field(Box::new(r), l("c"));
    assert_eq!(
        check(&e),
        Err(TypeMessage::MissingField(
            l("c"),
            Expr::RecordType(vec![(l("a"), b(Builtin::Natural)), (l("b"), b(Builtin::Bool))]),
        ))
    );
    let e = Expr::Field(Box::new(natural(1)), l("a"));
    assert_eq!(
        check(&e),
        Err(TypeMessage::NotARecord(l("a"), natural(1), b(Builtin::Natural)))
    );
}

#[test]
fn literals() {
    assert_eq!(check(&natural(7)), Ok(b(Builtin::Natural)));
    assert_eq!(check(&Expr::IntegerLit(-7)), Ok(b(Builtin::Integer)));
    assert_eq!(check(&Expr::DoubleLit(1.5f64.to_bits())), Ok(b(Builtin::Double)));
    assert_eq!(check(&Expr::TextLit("hello".to_string())), Ok(b(Builtin::Text)));
}

#[test]
fn operators() {
    let plus = Expr::BinOp(BinOp::NaturalPlus, Box::new(natural(1)), Box::new(natural(2)));
    assert_eq!(check(&plus), Ok(b(Builtin::Natural)));
    let times = Expr::BinOp(BinOp::NaturalTimes, Box::new(natural(1)), Box::new(natural(2)));
    assert_eq!(check(&times), Ok(b(Builtin::Natural)));
    for o in [BinOp::BoolAnd, BinOp::BoolOr, BinOp::BoolEQ, BinOp::BoolNE] {
        let e = Expr::BinOp(o, Box::new(Expr::BoolLit(true)), Box::new(Expr::BoolLit(false)));
        assert_eq!(check(&e), Ok(b(Builtin::Bool)));
    }
    let append = Expr::BinOp(
        BinOp::TextAppend,
        Box::new(Expr::TextLit("a".to_string())),
        Box::new(Expr::TextLit("b".to_string())),
    );
    assert_eq!(check(&append), Ok(b(Builtin::Text)));
}

#[test]
fn operands_of_the_wrong_type() {
    let e = Expr::BinOp(BinOp::BoolAnd, Box::new(natural(1)), Box::new(Expr::BoolLit(true)));
    assert_eq!(
        check(&e),
        Err(TypeMessage::BinOpTypeMismatch(BinOp::BoolAnd, natural(1), b(Builtin::Natural)))
    );
    let e = Expr::BinOp(BinOp::NaturalPlus, Box::new(natural(1)), Box::new(Expr::BoolLit(true)));
    assert_eq!(
        check(&e),
        Err(TypeMessage::BinOpTypeMismatch(
            BinOp::NaturalPlus,
            Expr::BoolLit(true),
            b(Builtin::Bool),
        ))
    );
}

#[test]
fn builtin_applied_to_a_type() {
    // List/length Natural : List Natural -> Natural
    let e = app(b(Builtin::ListLength), vec![b(Builtin::Natural)]);
    assert_eq!(
        check(&e),
        Ok(pi(
            "_",
            app(b(Builtin::List), vec![b(Builtin::Natural)]),
            b(Builtin::Natural),
        ))
    );
    // List/length Natural [1, 2] : Natural
    let list = Expr::NEListLit(Box::new(natural(1)), vec![natural(2)]);
    let e = app(b(Builtin::ListLength), vec![b(Builtin::Natural), list]);
    assert_eq!(check(&e), Ok(b(Builtin::Natural)));
}

#[test]
fn normalized_type_is_reduced() {
    // \(x : (\(t : Type) -> t) Natural) -> x
    let annotated = app(lam("t", ty(), var("t", 0)), vec![b(Builtin::Natural)]);
    let e = lam("x", annotated.clone(), var("x", 0));
    let ctx = Context::new();
    assert_eq!(
        type_with(&norm(), &ctx, &e, DEPTH),
        Ok(pi("x", annotated.clone(), annotated))
    );
    assert_eq!(
        normalized_type_with(&norm(), &ctx, &e, DEPTH),
        Ok(pi("x", b(Builtin::Natural), b(Builtin::Natural)))
    );
}

#[test]
fn types_are_compared_in_normal_form() {
    let annotated = app(lam("t", ty(), var("t", 0)), vec![b(Builtin::Natural)]);
    let f = lam("x", annotated, var("x", 0));
    assert_eq!(check(&app(f, vec![natural(1)])), Ok(b(Builtin::Natural)));
}

#[test]
fn types_are_compared_up_to_binder_names() {
    // (\(f : forall (a : Type) -> a) -> 1) : (forall (g : forall (b : Type) -> b) -> Natural)
    let f = lam("f", pi("a", ty(), var("a", 0)), natural(1));
    let declared = pi("g", pi("b", ty(), var("b", 0)), b(Builtin::Natural));
    let e = Expr::Annot(Box::new(f), Box::new(declared.clone()));
    assert_eq!(check(&e), Ok(declared));
}

#[test]
fn depth_that_is_used_up() {
    let e = natural(1);
    let err = type_of(&norm(), &e, 0).unwrap_err();
    assert_eq!(err.type_message, TypeMessage::LimitExceeded);
    assert_eq!(err.current, e);
    assert_eq!(type_of(&norm(), &e, 1), Ok(b(Builtin::Natural)));

    let nested = lam("x", b(Builtin::Natural), var("x", 0));
    assert_eq!(
        type_of(&norm(), &nested, 2).unwrap_err().type_message,
        TypeMessage::LimitExceeded
    );
    let at_three = type_of(&norm(), &nested, 3);
    assert_eq!(at_three, Ok(pi("x", b(Builtin::Natural), b(Builtin::Natural))));
    assert_eq!(type_of(&norm(), &nested, 4), at_three);
    assert_eq!(type_of(&norm(), &nested, 1000), at_three);
}

#[test]
fn index_that_cannot_be_shifted() {
    // Below the binder, the type of the parameter would have to mention x@(MAX + 1).
    let e = lam("y", ty(), lam("x", var("x", usize::MAX), var("x", 0)));
    let ctx = Context::new().insert(l("x"), ty()).unwrap();
    let err = type_with(&norm(), &ctx, &e, DEPTH).unwrap_err();
    assert_eq!(err.type_message, TypeMessage::LimitExceeded);
}
