use dhall_typecheck::context::Context;
use dhall_typecheck::error::{slot, TypeError, TypeMessage, SLOTS};
use dhall_typecheck::syntax::{BinOp, Builtin, Expr, Label, V};

fn l(name: &str) -> Label {
    Label::new(name)
}

fn one() -> Expr {
    Expr::NaturalLit(1)
}

fn two() -> Expr {
    Expr::NaturalLit(2)
}

fn three() -> Expr {
    Expr::NaturalLit(3)
}

fn four() -> Expr {
    Expr::NaturalLit(4)
}

#[test]
fn descriptions() {
    assert_eq!(TypeMessage::UnboundVariable.description(), "Unbound variable");
    assert_eq!(TypeMessage::InvalidInputType(one()).description(), "Invalid function input");
    assert_eq!(TypeMessage::InvalidOutputType(one()).description(), "Invalid function output");
    assert_eq!(TypeMessage::NotAFunction(one(), two()).description(), "Not a function");
    assert_eq!(
        TypeMessage::TypeMismatch(one(), two(), three(), four()).description(),
        "Wrong type of function argument"
    );
    assert_eq!(TypeMessage::Untyped.description(), "Unhandled error");
    assert_eq!(TypeMessage::MissingField(l("a"), one()).description(), "Unhandled error");
    assert_eq!(TypeMessage::LimitExceeded.description(), "Unhandled error");
}

#[test]
fn templates() {
    let unbound = TypeMessage::UnboundVariable.template();
    assert!(unbound.starts_with("Error: Unbound variable\n"));
    assert!(!unbound.contains("$txt"));
    let mismatch = TypeMessage::TypeMismatch(one(), two(), three(), four()).template();
    assert!(mismatch.starts_with("Error: Wrong type of function argument\n"));
    for i in 0..SLOTS {
        assert_eq!(mismatch.matches(slot(i)).count(), 1);
    }
    assert_eq!(TypeMessage::Untyped.template(), "Unhandled error message");
    assert_eq!(
        TypeMessage::AnnotMismatch(one(), two(), three()).template(),
        "Unhandled error message"
    );
}

#[test]
fn slot_names() {
    assert_eq!(SLOTS, 4);
    assert_eq!(slot(0), "$txt0");
    assert_eq!(slot(1), "$txt1");
    assert_eq!(slot(2), "$txt2");
    assert_eq!(slot(3), "$txt3");
}

#[test]
fn slots_hold_the_terms_in_order() {
    assert_eq!(TypeMessage::UnboundVariable.slots(), vec![]);
    assert_eq!(
        TypeMessage::TypeMismatch(one(), two(), three(), four()).slots(),
        vec![one(), two(), three(), four()]
    );
    assert_eq!(
        TypeMessage::InvalidListElement(7, one(), two(), three()).slots(),
        vec![one(), two(), three()]
    );
    assert_eq!(
        TypeMessage::IfBranchMustBeTerm(true, one(), two(), three()).slots(),
        vec![one(), two(), three()]
    );
    assert_eq!(TypeMessage::NotARecord(l("a"), one(), two()).slots(), vec![one(), two()]);
    assert_eq!(
        TypeMessage::BinOpTypeMismatch(BinOp::BoolAnd, one(), two()).slots(),
        vec![one(), two()]
    );
    assert_eq!(TypeMessage::UnusedHandler(vec![l("a")]).slots(), vec![]);
    assert_eq!(TypeMessage::InvalidOptionalLiteral(2).slots(), vec![]);
    assert_eq!(TypeMessage::NoDependentTypes(one(), two()).slots(), vec![one(), two()]);
}

#[test]
fn render_fills_the_slots() {
    let m = TypeMessage::TypeMismatch(one(), two(), three(), four());
    let printed: Vec<String> =
        vec!["FUNCTION".into(), "EXPECTED".into(), "ARGUMENT".into(), "ACTUAL".into()];
    let text = m.render(&printed);
    assert!(!text.contains("$txt"));
    assert_ne!(text, m.template());
    let expected = m
        .template()
        .replace("$txt0", "FUNCTION")
        .replace("$txt1", "EXPECTED")
        .replace("$txt2", "ARGUMENT")
        .replace("$txt3", "ACTUAL");
    assert_eq!(text, expected);
    assert!(text.contains("You tried to apply this function:\n\n    FUNCTION\n"));
    assert!(text.contains("to this argument:\n\n    ARGUMENT\n"));
    assert!(text.contains("expects an argument of type:\n\n    EXPECTED\n"));
    assert!(text.contains("but the argument has type:\n\n    ACTUAL\n"));
}

#[test]
fn render_replaces_one_slot_after_the_other() {
    // What is put into the first slot is itself searched for the second.
    let m = TypeMessage::TypeMismatch(one(), two(), three(), four());
    let printed: Vec<String> = vec!["<$txt1>".into(), "B".into()];
    let text = m.render(&printed);
    assert!(text.contains("<B>"));
    assert!(text.contains("$txt2"));
    assert!(text.contains("$txt3"));
}

#[test]
fn render_without_slots_is_the_template() {
    assert_eq!(
        TypeMessage::UnboundVariable.render(&vec![]),
        TypeMessage::UnboundVariable.template()
    );
    assert_eq!(TypeMessage::Untyped.render(&vec!["x".to_string()]), "Unhandled error message");
    // Only the explanation of a wrong argument type has slots to fill.
    let printed: Vec<String> = vec!["Unbound".into(), "$txt1".into()];
    assert_eq!(
        TypeMessage::UnboundVariable.render(&printed),
        TypeMessage::UnboundVariable.template()
    );
    assert_eq!(
        TypeMessage::NotAFunction(one(), two()).render(&printed),
        "Unhandled error message"
    );
    let m = TypeMessage::TypeMismatch(one(), two(), three(), four());
    assert_eq!(m.render(&vec![]), m.template());
    // More printed terms than slots: the first four are used.
    let many: Vec<String> = (0..6).map(|i| format!("T{}", i)).collect();
    let text = m.render(&many);
    assert!(text.contains("T0") && text.contains("T3"));
    assert!(!text.contains("T4") && !text.contains("T5"));
}

#[test]
fn an_error_holds_context_term_and_message() {
    let ctx = Context::new().insert(l("x"), Expr::Builtin(Builtin::Natural)).unwrap();
    let current = Expr::Var(V(l("y"), 0));
    let err = TypeError::new(&ctx, current.clone(), TypeMessage::UnboundVariable);
    assert_eq!(err.context, ctx);
    assert_eq!(err.current, current);
    assert_eq!(err.type_message, TypeMessage::UnboundVariable);
}
