use dhall_typecheck::quote::{
    binds, quote_binop, quote_builtin, quote_const, quote_expr, quote_exprf, quote_integer,
    quote_label, quote_map, quote_number, quote_opt, quote_opt_map, quote_subexpr, quote_text,
    quote_var, quote_vec, rc, scope_below,
};
use dhall_typecheck::syntax::{BinOp, Builtin, Const, Expr, Label, V};

fn l(name: &str) -> Label {
    Label::new(name)
}

fn var(name: &str, index: usize) -> Expr {
    Expr::Var(V(l(name), index))
}

fn parses(text: &str) -> bool {
    text.parse::<proc_macro2::TokenStream>().is_ok()
}

const E: &str = "dhall_typecheck::syntax::Expr::";

#[test]
fn numbers_in_decimal() {
    assert_eq!(quote_number(0), "0");
    assert_eq!(quote_number(7), "7");
    assert_eq!(quote_number(10), "10");
    assert_eq!(quote_number(1234567890), "1234567890");
    assert_eq!(quote_number(u64::MAX), "18446744073709551615");
    assert_eq!(quote_integer(0), "0isize");
    assert_eq!(quote_integer(42), "42isize");
    assert_eq!(quote_integer(-42), "-42isize");
    assert_eq!(quote_integer(isize::MIN), format!("{}isize", isize::MIN));
    assert_eq!(quote_integer(isize::MAX), format!("{}isize", isize::MAX));
}

#[test]
fn string_literals_are_escaped() {
    assert_eq!(quote_text("abc"), "\"abc\"");
    assert_eq!(quote_text(""), "\"\"");
    assert_eq!(quote_text("a\"b"), "\"a\\\"b\"");
    assert_eq!(quote_text("a\\b"), "\"a\\\\b\"");
    assert_eq!(quote_text("a\rb"), "\"a\\rb\"");
    assert_eq!(quote_text("é∀ b"), "\"é∀ b\"");
    for s in ["abc", "a\"b", "a\\b", "a\rb", "a\nb", "\\\"", "é∀"] {
        // The text is one token, a literal.
        let tokens: proc_macro2::TokenStream = quote_text(s).parse().unwrap();
        let all: Vec<proc_macro2::TokenTree> = tokens.into_iter().collect();
        assert_eq!(all.len(), 1);
        assert!(matches!(all[0], proc_macro2::TokenTree::Literal(_)));
    }
}

#[test]
fn labels_and_names() {
    assert_eq!(quote_label(&l("x")), "dhall_typecheck::syntax::Label::new(\"x\")");
    assert_eq!(quote_const(Const::Type), "dhall_typecheck::syntax::Const::Type");
    assert_eq!(quote_const(Const::Kind), "dhall_typecheck::syntax::Const::Kind");
    assert_eq!(
        quote_builtin(Builtin::NaturalFold),
        "dhall_typecheck::syntax::Builtin::NaturalFold"
    );
    assert_eq!(
        quote_builtin(Builtin::ListIndexed),
        format!("dhall_typecheck::syntax::Builtin::{:?}", Builtin::ListIndexed)
    );
    assert_eq!(
        quote_binop(BinOp::TextAppend),
        format!("dhall_typecheck::syntax::BinOp::{:?}", BinOp::TextAppend)
    );
}

#[test]
fn small_pieces() {
    assert_eq!(rc("x".to_string()), "Box::new(x)");
    assert_eq!(quote_opt(Some("x".to_string())), "Some(x)");
    assert_eq!(quote_opt(None), "None");
    assert_eq!(quote_vec(vec![]), "vec![]");
    assert_eq!(quote_vec(vec!["a".to_string()]), "vec![a]");
    assert_eq!(
        quote_vec(vec!["a".to_string(), "b".to_string(), "c".to_string()]),
        "vec![a, b, c]"
    );
    assert_eq!(
        quote_map(vec![(l("k"), "v".to_string()), (l("m"), "w".to_string())]),
        "vec![(dhall_typecheck::syntax::Label::new(\"k\"), v), (dhall_typecheck::syntax::Label::new(\"m\"), w)]"
    );
    assert_eq!(
        quote_opt_map(&vec![(l("k"), Some("v".to_string())), (l("m"), None)]),
        "vec![(dhall_typecheck::syntax::Label::new(\"k\"), Some(v)), (dhall_typecheck::syntax::Label::new(\"m\"), None)]"
    );
}

#[test]
fn scopes_bind_by_counting_names() {
    let scope = vec![l("x"), l("y"), l("x")];
    assert!(binds(&scope, &V(l("x"), 0)));
    assert!(binds(&scope, &V(l("x"), 1)));
    assert!(!binds(&scope, &V(l("x"), 2)));
    assert!(binds(&scope, &V(l("y"), 0)));
    assert!(!binds(&scope, &V(l("y"), 1)));
    assert!(!binds(&scope, &V(l("z"), 0)));
    assert!(!binds(&vec![], &V(l("x"), 0)));
    assert_eq!(scope_below(&vec![l("a")], &l("b")), vec![l("a"), l("b")]);
}

#[test]
fn bound_variables_are_written_out() {
    let scope = vec![l("x")];
    let text = quote_var(&V(l("x"), 0), &scope);
    assert_eq!(
        text,
        format!(
            "{}Var(dhall_typecheck::syntax::V(dhall_typecheck::syntax::Label::new(\"x\"), 0usize))",
            E
        )
    );
    assert_eq!(quote_expr(&var("x", 0), &scope), text);
    assert_eq!(quote_exprf(&var("x", 0), &scope), text);
}

#[test]
fn free_variables_are_rust_variables() {
    let text = quote_var(&V(l("t"), 0), &vec![]);
    assert_eq!(text, "{ let x: dhall_typecheck::syntax::Expr = t.clone(); x }");
    // One binder of the name does not bind the second index.
    let text = quote_expr(&var("t", 1), &vec![l("t")]);
    assert_eq!(text, "{ let x: dhall_typecheck::syntax::Expr = t.clone(); x }");
}

#[test]
fn binders_extend_the_scope_of_their_body() {
    // \(x : a) -> x : the type mentions a Rust variable, the body the parameter.
    let e = Expr::Lam(l("x"), Box::new(var("a", 0)), Box::new(var("x", 0)));
    let label = "dhall_typecheck::syntax::Label::new(\"x\")";
    let free = "{ let x: dhall_typecheck::syntax::Expr = a.clone(); x }";
    let bound =
        format!("{}Var(dhall_typecheck::syntax::V({}, 0usize))", E, label);
    assert_eq!(
        quote_expr(&e, &vec![]),
        format!("{}Lam({}, Box::new({}), Box::new({}))", E, label, free, bound)
    );
    let e = Expr::Pi(l("x"), Box::new(var("x", 0)), Box::new(var("x", 0)));
    let free_x = "{ let x: dhall_typecheck::syntax::Expr = x.clone(); x }";
    assert_eq!(
        quote_expr(&e, &vec![]),
        format!("{}Pi({}, Box::new({}), Box::new({}))", E, label, free_x, bound)
    );
    let e = Expr::Let(l("x"), None, Box::new(var("x", 0)), Box::new(var("x", 0)));
    assert_eq!(
        quote_expr(&e, &vec![]),
        format!("{}Let({}, None, Box::new({}), Box::new({}))", E, label, free_x, bound)
    );
}

#[test]
fn literals_and_constants() {
    assert_eq!(quote_expr(&Expr::BoolLit(true), &vec![]), format!("{}BoolLit(true)", E));
    assert_eq!(quote_expr(&Expr::BoolLit(false), &vec![]), format!("{}BoolLit(false)", E));
    assert_eq!(quote_expr(&Expr::NaturalLit(12), &vec![]), format!("{}NaturalLit(12usize)", E));
    assert_eq!(quote_expr(&Expr::IntegerLit(-3), &vec![]), format!("{}IntegerLit(-3isize)", E));
    assert_eq!(
        quote_expr(&Expr::DoubleLit(1.5f64.to_bits()), &vec![]),
        format!("{}DoubleLit({}u64)", E, 1.5f64.to_bits())
    );
    assert_eq!(
        quote_expr(&Expr::TextLit("hi \"you\"".to_string()), &vec![]),
        format!("{}TextLit(\"hi \\\"you\\\"\".to_string())", E)
    );
    assert_eq!(
        quote_expr(&Expr::Const(Const::Type), &vec![]),
        format!("{}Const(dhall_typecheck::syntax::Const::Type)", E)
    );
    assert_eq!(
        quote_expr(&Expr::Builtin(Builtin::Natural), &vec![]),
        format!("{}Builtin(dhall_typecheck::syntax::Builtin::Natural)", E)
    );
}

#[test]
fn compound_forms() {
    let one = format!("{}NaturalLit(1usize)", E);
    let two = format!("{}NaturalLit(2usize)", E);
    let e = Expr::App(Box::new(Expr::NaturalLit(1)), vec![Expr::NaturalLit(2), Expr::NaturalLit(1)]);
    assert_eq!(
        quote_expr(&e, &vec![]),
        format!("{}App(Box::new({}), vec![{}, {}])", E, one, two, one)
    );
    let e = Expr::NEListLit(Box::new(Expr::NaturalLit(1)), vec![]);
    assert_eq!(quote_expr(&e, &vec![]), format!("{}NEListLit(Box::new({}), vec![])", E, one));
    let e = Expr::BinOp(
        BinOp::NaturalPlus,
        Box::new(Expr::NaturalLit(1)),
        Box::new(Expr::NaturalLit(2)),
    );
    assert_eq!(
        quote_expr(&e, &vec![]),
        format!(
            "{}BinOp(dhall_typecheck::syntax::BinOp::NaturalPlus, Box::new({}), Box::new({}))",
            E, one, two
        )
    );
    let e = Expr::RecordLit(vec![(l("a"), Expr::NaturalLit(1))]);
    assert_eq!(
        quote_expr(&e, &vec![]),
        format!(
            "{}RecordLit(vec![(dhall_typecheck::syntax::Label::new(\"a\"), {})])",
            E, one
        )
    );
    let e = Expr::UnionType(vec![(l("A"), Some(Expr::NaturalLit(1))), (l("B"), None)]);
    assert_eq!(
        quote_expr(&e, &vec![]),
        format!(
            "{}UnionType(vec![(dhall_typecheck::syntax::Label::new(\"A\"), Some({})), (dhall_typecheck::syntax::Label::new(\"B\"), None)])",
            E, one
        )
    );
    let e = Expr::Field(Box::new(Expr::NaturalLit(1)), l("a"));
    assert_eq!(
        quote_expr(&e, &vec![]),
        format!(
            "{}Field(Box::new({}), dhall_typecheck::syntax::Label::new(\"a\"))",
            E, one
        )
    );
    assert_eq!(
        quote_subexpr(&Expr::NaturalLit(1), &vec![]),
        format!("Box::new({})", one)
    );
}

#[test]
fn the_code_is_rust_tokens() {
    let e = Expr::Let(
        l("f"),
        Some(Box::new(Expr::Pi(
            l("a"),
            Box::new(Expr::Const(Const::Type)),
            Box::new(var("a", 0)),
        ))),
        Box::new(Expr::Lam(
            l("x"),
            Box::new(Expr::EmptyListLit(Box::new(var("t", 0)))),
            Box::new(Expr::BoolIf(
                Box::new(Expr::BoolLit(true)),
                Box::new(Expr::NEOptionalLit(Box::new(var("x", 0)))),
                Box::new(Expr::EmptyOptionalLit(Box::new(Expr::TextLit("a\"\\b".to_string())))),
            )),
        )),
        Box::new(Expr::Annot(
            Box::new(Expr::RecordType(vec![(l("k\"ey"), Expr::IntegerLit(isize::MIN))])),
            Box::new(Expr::UnionType(vec![(l("A"), None)])),
        )),
    );
    let text = quote_expr(&e, &vec![]);
    assert!(parses(&text), "{}", text);
    assert!(parses(&quote_subexpr(&e, &vec![])));
}
