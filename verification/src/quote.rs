//! Rust source text that builds a given expression.
//!
//! A variable that a binder of the expression binds is written out. A free
//! variable is taken to be a Rust variable of that name, which holds an
//! expression: its name is written as it stands.

use crate::syntax::{BinOp, Builtin, Const, Expr, Label, Term, V};
use vstd::prelude::*;

verus! {

/// The text of a digit.
pub open spec fn digit_text(d: nat) -> Seq<char> {
    if d == 0 {
        "0"@
    } else if d == 1 {
        "1"@
    } else if d == 2 {
        "2"@
    } else if d == 3 {
        "3"@
    } else if d == 4 {
        "4"@
    } else if d == 5 {
        "5"@
    } else if d == 6 {
        "6"@
    } else if d == 7 {
        "7"@
    } else if d == 8 {
        "8"@
    } else {
        "9"@
    }
}

/// The decimal text of a number, without leading zeros.
pub open spec fn decimal(n: nat) -> Seq<char>
    decreases n,
{
    if n < 10 {
        digit_text(n)
    } else {
        decimal(n / 10) + digit_text(n % 10)
    }
}

/// The text of a character inside a string literal.
pub open spec fn escaped_char(c: char) -> Seq<char> {
    if c == '"' {
        "\\\""@
    } else if c == '\\' {
        "\\\\"@
    } else if c == '\r' {
        "\\r"@
    } else {
        seq![c]
    }
}

/// The text of a string inside a string literal.
pub open spec fn escaped(s: Seq<char>) -> Seq<char>
    decreases s.len(),
{
    if s.len() == 0 {
        Seq::empty()
    } else {
        escaped(s.drop_last()) + escaped_char(s.last())
    }
}

/// The text of a string literal.
pub open spec fn literal_text(s: Seq<char>) -> Seq<char> {
    "\""@ + escaped(s) + "\""@
}

/// The code for a label.
pub open spec fn label_text(l: Seq<char>) -> Seq<char> {
    "dhall_typecheck::syntax::Label::new("@ + literal_text(l) + ")"@
}

/// The code for a boxed value.
pub open spec fn boxed_text(x: Seq<char>) -> Seq<char> {
    "Box::new("@ + x + ")"@
}

/// The code for an optional value.
pub open spec fn optional_text(x: Option<Seq<char>>) -> Seq<char> {
    match x {
        Some(x) => "Some("@ + x + ")"@,
        None => "None"@,
    }
}

/// The first `n` items, separated by commas.
pub open spec fn joined(items: Seq<Seq<char>>, n: nat) -> Seq<char>
    decreases n,
{
    if n == 0 || n > items.len() {
        Seq::empty()
    } else if n == 1 {
        items[0]
    } else {
        joined(items, (n - 1) as nat) + ", "@ + items[n - 1]
    }
}

/// The code for a vector of the items.
pub open spec fn vec_text(items: Seq<Seq<char>>) -> Seq<char> {
    "vec!["@ + joined(items, items.len()) + "]"@
}

/// The code for an entry of a record or a union.
pub open spec fn entry_text(label: Seq<char>, value: Seq<char>) -> Seq<char> {
    "("@ + label_text(label) + ", "@ + value + ")"@
}

/// The code for the entries of a record or a union.
pub open spec fn map_text(entries: Seq<(Seq<char>, Seq<char>)>) -> Seq<char> {
    vec_text(Seq::new(entries.len(), |i: int| entry_text(entries[i].0, entries[i].1)))
}

/// The name of a universe.
pub open spec fn const_name(c: Const) -> Seq<char> {
    match c {
        Const::Type => "Type"@,
        Const::Kind => "Kind"@,
    }
}

/// The name of a built-in constant.
pub open spec fn builtin_name(b: Builtin) -> Seq<char> {
    match b {
        Builtin::Bool => "Bool"@,
        Builtin::Natural => "Natural"@,
        Builtin::Integer => "Integer"@,
        Builtin::Double => "Double"@,
        Builtin::Text => "Text"@,
        Builtin::List => "List"@,
        Builtin::Optional => "Optional"@,
        Builtin::NaturalBuild => "NaturalBuild"@,
        Builtin::NaturalFold => "NaturalFold"@,
        Builtin::NaturalIsZero => "NaturalIsZero"@,
        Builtin::NaturalEven => "NaturalEven"@,
        Builtin::NaturalOdd => "NaturalOdd"@,
        Builtin::NaturalToInteger => "NaturalToInteger"@,
        Builtin::NaturalShow => "NaturalShow"@,
        Builtin::IntegerToDouble => "IntegerToDouble"@,
        Builtin::IntegerShow => "IntegerShow"@,
        Builtin::DoubleShow => "DoubleShow"@,
        Builtin::ListBuild => "ListBuild"@,
        Builtin::ListFold => "ListFold"@,
        Builtin::ListLength => "ListLength"@,
        Builtin::ListHead => "ListHead"@,
        Builtin::ListLast => "ListLast"@,
        Builtin::ListIndexed => "ListIndexed"@,
        Builtin::ListReverse => "ListReverse"@,
        Builtin::OptionalFold => "OptionalFold"@,
        Builtin::OptionalBuild => "OptionalBuild"@,
        Builtin::TextShow => "TextShow"@,
    }
}

/// The name of an operator.
pub open spec fn binop_name(o: BinOp) -> Seq<char> {
    match o {
        BinOp::BoolAnd => "BoolAnd"@,
        BinOp::BoolOr => "BoolOr"@,
        BinOp::BoolEQ => "BoolEQ"@,
        BinOp::BoolNE => "BoolNE"@,
        BinOp::NaturalPlus => "NaturalPlus"@,
        BinOp::NaturalTimes => "NaturalTimes"@,
        BinOp::TextAppend => "TextAppend"@,
    }
}

/// The code for a universe.
pub open spec fn const_text(c: Const) -> Seq<char> {
    "dhall_typecheck::syntax::Const::"@ + const_name(c)
}

/// The code for a built-in constant.
pub open spec fn builtin_text(b: Builtin) -> Seq<char> {
    "dhall_typecheck::syntax::Builtin::"@ + builtin_name(b)
}

/// The code for an operator.
pub open spec fn binop_text(o: BinOp) -> Seq<char> {
    "dhall_typecheck::syntax::BinOp::"@ + binop_name(o)
}

/// The code for the form `name` of an expression with one part.
pub open spec fn form1(name: Seq<char>, a: Seq<char>) -> Seq<char> {
    "dhall_typecheck::syntax::Expr::"@ + name + "("@ + a + ")"@
}

/// The code for the form `name` of an expression with two parts.
pub open spec fn form2(name: Seq<char>, a: Seq<char>, b: Seq<char>) -> Seq<char> {
    "dhall_typecheck::syntax::Expr::"@ + name + "("@ + a + ", "@ + b + ")"@
}

/// The code for the form `name` of an expression with three parts.
pub open spec fn form3(name: Seq<char>, a: Seq<char>, b: Seq<char>, c: Seq<char>) -> Seq<char> {
    "dhall_typecheck::syntax::Expr::"@ + name + "("@ + a + ", "@ + b + ", "@ + c + ")"@
}

/// The code for the form `name` of an expression with four parts.
pub open spec fn form4(
    name: Seq<char>,
    a: Seq<char>,
    b: Seq<char>,
    c: Seq<char>,
    d: Seq<char>,
) -> Seq<char> {
    "dhall_typecheck::syntax::Expr::"@ + name + "("@ + a + ", "@ + b + ", "@ + c + ", "@ + d
        + ")"@
}

/// Whether the binders `scope`, innermost last, bind the variable `V(x, n)`:
/// whether more than `n` of them are named `x`.
pub open spec fn bound(scope: Seq<Seq<char>>, x: Seq<char>, n: int) -> bool
    decreases scope.len(),
{
    if scope.len() == 0 {
        false
    } else if scope.last() == x {
        n == 0 || bound(scope.drop_last(), x, n - 1)
    } else {
        bound(scope.drop_last(), x, n)
    }
}

/// The code for a variable: written out where it is bound, else the Rust
/// variable of its name.
pub open spec fn var_text(scope: Seq<Seq<char>>, x: Seq<char>, n: int) -> Seq<char> {
    if bound(scope, x, n) {
        form1(
            "Var"@,
            "dhall_typecheck::syntax::V("@ + label_text(x) + ", "@ + decimal(n as nat)
                + "usize)"@,
        )
    } else {
        "{ let x: dhall_typecheck::syntax::Expr = "@ + x + ".clone(); x }"@
    }
}

/// The code for an integer literal.
pub open spec fn integer_text(n: int) -> Seq<char> {
    if n < 0 {
        "-"@ + decimal((-n) as nat) + "isize"@
    } else {
        decimal(n as nat) + "isize"@
    }
}

/// The code that builds the term `t` below the binders `scope`.
pub open spec fn quoted(scope: Seq<Seq<char>>, t: Term) -> Seq<char>
    decreases t,
{
    match t {
        Term::Const(c) => form1("Const"@, const_text(c)),
        Term::Var(x, n) => var_text(scope, x, n),
        Term::Lam(x, a, b) => form3(
            "Lam"@,
            label_text(x),
            boxed_text(quoted(scope, *a)),
            boxed_text(quoted(scope.push(x), *b)),
        ),
        Term::Pi(x, a, b) => form3(
            "Pi"@,
            label_text(x),
            boxed_text(quoted(scope, *a)),
            boxed_text(quoted(scope.push(x), *b)),
        ),
        Term::App(f, args) => form2(
            "App"@,
            boxed_text(quoted(scope, *f)),
            vec_text(quoted_terms(scope, args)),
        ),
        Term::Let(x, ty, r, b) => form4(
            "Let"@,
            label_text(x),
            optional_text(
                match ty {
                    Some(u) => Some(boxed_text(quoted(scope, *u))),
                    None => None,
                },
            ),
            boxed_text(quoted(scope, *r)),
            boxed_text(quoted(scope.push(x), *b)),
        ),
        Term::Annot(e, u) => form2(
            "Annot"@,
            boxed_text(quoted(scope, *e)),
            boxed_text(quoted(scope, *u)),
        ),
        Term::BoolIf(c, y, z) => form3(
            "BoolIf"@,
            boxed_text(quoted(scope, *c)),
            boxed_text(quoted(scope, *y)),
            boxed_text(quoted(scope, *z)),
        ),
        Term::EmptyListLit(u) => form1("EmptyListLit"@, boxed_text(quoted(scope, *u))),
        Term::NEListLit(first, rest) => form2(
            "NEListLit"@,
            boxed_text(quoted(scope, *first)),
            vec_text(quoted_terms(scope, rest)),
        ),
        Term::EmptyOptionalLit(u) => form1("EmptyOptionalLit"@, boxed_text(quoted(scope, *u))),
        Term::NEOptionalLit(e) => form1("NEOptionalLit"@, boxed_text(quoted(scope, *e))),
        Term::RecordType(kts) => form1("RecordType"@, map_text(quoted_fields(scope, kts))),
        Term::RecordLit(kvs) => form1("RecordLit"@, map_text(quoted_fields(scope, kvs))),
        Term::UnionType(kts) => form1("UnionType"@, map_text(quoted_alternatives(scope, kts))),
        Term::Field(r, l) => form2("Field"@, boxed_text(quoted(scope, *r)), label_text(l)),
        Term::Builtin(b) => form1("Builtin"@, builtin_text(b)),
        Term::BoolLit(b) => form1(
            "BoolLit"@,
            if b {
                "true"@
            } else {
                "false"@
            },
        ),
        Term::NaturalLit(n) => form1("NaturalLit"@, decimal(n as nat) + "usize"@),
        Term::IntegerLit(n) => form1("IntegerLit"@, integer_text(n)),
        Term::DoubleLit(bits) => form1("DoubleLit"@, decimal(bits as nat) + "u64"@),
        Term::TextLit(s) => form1("TextLit"@, literal_text(s) + ".to_string()"@),
        Term::BinOp(o, l, r) => form3(
            "BinOp"@,
            binop_text(o),
            boxed_text(quoted(scope, *l)),
            boxed_text(quoted(scope, *r)),
        ),
    }
}

/// [`quoted`] for each term of a list.
pub open spec fn quoted_terms(scope: Seq<Seq<char>>, s: Seq<Term>) -> Seq<Seq<char>>
    decreases s,
{
    Seq::new(
        s.len(),
        |i: int|
            if 0 <= i < s.len() {
                quoted(scope, s[i])
            } else {
                arbitrary()
            },
    )
}

/// [`quoted`] for the term of each entry of a record.
pub open spec fn quoted_fields(scope: Seq<Seq<char>>, s: Seq<(Seq<char>, Term)>) -> Seq<
    (Seq<char>, Seq<char>),
>
    decreases s,
{
    Seq::new(
        s.len(),
        |i: int|
            if 0 <= i < s.len() {
                (s[i].0, quoted(scope, s[i].1))
            } else {
                arbitrary()
            },
    )
}

/// The code for the payload of each alternative of a union.
pub open spec fn quoted_alternatives(
    scope: Seq<Seq<char>>,
    s: Seq<(Seq<char>, Option<Term>)>,
) -> Seq<(Seq<char>, Seq<char>)>
    decreases s,
{
    Seq::new(
        s.len(),
        |i: int|
            if 0 <= i < s.len() {
                (
                    s[i].0,
                    optional_text(
                        match s[i].1 {
                            Some(u) => Some(quoted(scope, u)),
                            None => None,
                        },
                    ),
                )
            } else {
                arbitrary()
            },
    )
}

/// The names of a list of labels.
pub open spec fn scope_names(s: Seq<Label>) -> Seq<Seq<char>> {
    Seq::new(s.len(), |i: int| s[i]@)
}

/// The texts of a list of strings.
pub open spec fn texts(s: Seq<String>) -> Seq<Seq<char>> {
    Seq::new(s.len(), |i: int| s[i]@)
}

/// The texts of a list of labelled strings.
pub open spec fn entry_texts(s: Seq<(Label, String)>) -> Seq<(Seq<char>, Seq<char>)> {
    Seq::new(s.len(), |i: int| (s[i].0@, s[i].1@))
}

/// The text of a digit.
pub fn digit(d: u64) -> (res: &'static str)
    requires
        d < 10,
    ensures
        res@ == digit_text(d as nat),
{
    if d == 0 {
        "0"
    } else if d == 1 {
        "1"
    } else if d == 2 {
        "2"
    } else if d == 3 {
        "3"
    } else if d == 4 {
        "4"
    } else if d == 5 {
        "5"
    } else if d == 6 {
        "6"
    } else if d == 7 {
        "7"
    } else if d == 8 {
        "8"
    } else {
        "9"
    }
}

/// The decimal text of a number.
pub fn quote_number(n: u64) -> (res: String)
    ensures
        res@ == decimal(n as nat),
    decreases n,
{
    if n < 10 {
        String::from_str(digit(n))
    } else {
        let mut out = quote_number(n / 10);
        out.append(digit(n % 10));
        out
    }
}

/// The text of a string literal that holds `s`.
pub fn quote_text(s: &str) -> (res: String)
    ensures
        res@ == literal_text(s@),
{
    let mut out = String::from_str("\"");
    let n = s.unicode_len();
    let mut i: usize = 0;
    assert(s@.take(0) =~= Seq::empty());
    assert("\""@ + escaped(s@.take(0)) =~= "\""@);
    while i < n
        invariant
            n == s@.len(),
            i <= n,
            out@ == "\""@ + escaped(s@.take(i as int)),
        decreases n - i,
    {
        let c = s.get_char(i);
        assert(s@.take(i + 1).drop_last() =~= s@.take(i as int));
        assert(s@.take(i + 1).last() == c);
        let ghost before = out@;
        if c == '"' {
            out.append("\\\"");
        } else if c == '\\' {
            out.append("\\\\");
        } else if c == '\r' {
            out.append("\\r");
        } else {
            let one = s.substring_char(i, i + 1);
            assert(one@ =~= seq![c]);
            out.append(one);
        }
        assert(out@ == before + escaped_char(c));
        assert(out@ =~= "\""@ + escaped(s@.take(i + 1)));
        i += 1;
    }
    assert(s@.take(n as int) =~= s@);
    out.append("\"");
    out
}

/// The code for a label.
pub fn quote_label(l: &Label) -> (res: String)
    ensures
        res@ == label_text(l@),
{
    let mut out = String::from_str("dhall_typecheck::syntax::Label::new(");
    let text = quote_text(l.name.as_str());
    out.append(text.as_str());
    out.append(")");
    out
}

/// The code for a built-in constant.
pub fn quote_builtin(b: Builtin) -> (res: String)
    ensures
        res@ == builtin_text(b),
{
    let mut out = String::from_str("dhall_typecheck::syntax::Builtin::");
    out.append(
        match b {
            Builtin::Bool => "Bool",
            Builtin::Natural => "Natural",
            Builtin::Integer => "Integer",
            Builtin::Double => "Double",
            Builtin::Text => "Text",
            Builtin::List => "List",
            Builtin::Optional => "Optional",
            Builtin::NaturalBuild => "NaturalBuild",
            Builtin::NaturalFold => "NaturalFold",
            Builtin::NaturalIsZero => "NaturalIsZero",
            Builtin::NaturalEven => "NaturalEven",
            Builtin::NaturalOdd => "NaturalOdd",
            Builtin::NaturalToInteger => "NaturalToInteger",
            Builtin::NaturalShow => "NaturalShow",
            Builtin::IntegerToDouble => "IntegerToDouble",
            Builtin::IntegerShow => "IntegerShow",
            Builtin::DoubleShow => "DoubleShow",
            Builtin::ListBuild => "ListBuild",
            Builtin::ListFold => "ListFold",
            Builtin::ListLength => "ListLength",
            Builtin::ListHead => "ListHead",
            Builtin::ListLast => "ListLast",
            Builtin::ListIndexed => "ListIndexed",
            Builtin::ListReverse => "ListReverse",
            Builtin::OptionalFold => "OptionalFold",
            Builtin::OptionalBuild => "OptionalBuild",
            Builtin::TextShow => "TextShow",
        },
    );
    out
}

/// The code for a universe.
pub fn quote_const(c: Const) -> (res: String)
    ensures
        res@ == const_text(c),
{
    let mut out = String::from_str("dhall_typecheck::syntax::Const::");
    out.append(
        match c {
            Const::Type => "Type",
            Const::Kind => "Kind",
        },
    );
    out
}

/// The code for an operator.
pub fn quote_binop(o: BinOp) -> (res: String)
    ensures
        res@ == binop_text(o),
{
    let mut out = String::from_str("dhall_typecheck::syntax::BinOp::");
    out.append(
        match o {
            BinOp::BoolAnd => "BoolAnd",
            BinOp::BoolOr => "BoolOr",
            BinOp::BoolEQ => "BoolEQ",
            BinOp::BoolNE => "BoolNE",
            BinOp::NaturalPlus => "NaturalPlus",
            BinOp::NaturalTimes => "NaturalTimes",
            BinOp::TextAppend => "TextAppend",
        },
    );
    out
}

/// The code for a boxed value.
pub fn rc(x: String) -> (res: String)
    ensures
        res@ == boxed_text(x@),
{
    let mut out = String::from_str("Box::new(");
    out.append(x.as_str());
    out.append(")");
    out
}

/// The code for an optional value.
pub fn quote_opt(x: Option<String>) -> (res: String)
    ensures
        res@ == optional_text(
            match x {
                Some(x) => Some(x@),
                None => None,
            },
        ),
{
    match x {
        Some(x) => {
            let mut out = String::from_str("Some(");
            out.append(x.as_str());
            out.append(")");
            out
        },
        None => String::from_str("None"),
    }
}

/// The code for a vector of the items.
pub fn quote_vec(e: Vec<String>) -> (res: String)
    ensures
        res@ == vec_text(texts(e@)),
{
    let mut out = String::from_str("vec![");
    let mut i: usize = 0;
    assert("vec!["@ + joined(texts(e@), 0) =~= "vec!["@);
    while i < e.len()
        invariant
            i <= e.len(),
            out@ == "vec!["@ + joined(texts(e@), i as nat),
        decreases e.len() - i,
    {
        if i > 0 {
            out.append(", ");
        }
        out.append(e[i].as_str());
        assert(out@ =~= "vec!["@ + joined(texts(e@), (i + 1) as nat));
        i += 1;
    }
    out.append("]");
    out
}

/// The code for the entries of a record or a union.
pub fn quote_map(m: Vec<(Label, String)>) -> (res: String)
    ensures
        res@ == map_text(entry_texts(m@)),
{
    let mut entries: Vec<String> = Vec::new();
    let mut i: usize = 0;
    while i < m.len()
        invariant
            i <= m.len(),
            entries@.len() == i,
            forall|j: int|
                0 <= j < i ==> (#[trigger] entries@[j])@ == entry_text(m@[j].0@, m@[j].1@),
        decreases m.len() - i,
    {
        let mut entry = String::from_str("(");
        let label = quote_label(&m[i].0);
        entry.append(label.as_str());
        entry.append(", ");
        entry.append(m[i].1.as_str());
        entry.append(")");
        entries.push(entry);
        i += 1;
    }
    assert(texts(entries@) =~= Seq::new(
        entry_texts(m@).len(),
        |i: int| entry_text(entry_texts(m@)[i].0, entry_texts(m@)[i].1),
    ));
    quote_vec(entries)
}

/// The text of each payload of a union.
pub open spec fn payload_texts(s: Seq<(Label, Option<String>)>) -> Seq<(Seq<char>, Seq<char>)> {
    Seq::new(
        s.len(),
        |i: int|
            (
                s[i].0@,
                optional_text(
                    match s[i].1 {
                        Some(x) => Some(x@),
                        None => None,
                    },
                ),
            ),
    )
}

/// The code for the entries of a union, whose payloads are optional.
pub fn quote_opt_map(m: &Vec<(Label, Option<String>)>) -> (res: String)
    ensures
        res@ == map_text(payload_texts(m@)),
{
    let mut entries: Vec<(Label, String)> = Vec::new();
    let mut i: usize = 0;
    while i < m.len()
        invariant
            i <= m.len(),
            entries@.len() == i,
            forall|j: int|
                0 <= j < i ==> (#[trigger] entries@[j]).0@ == m@[j].0@ && entries@[j].1@
                    == optional_text(
                    match m@[j].1 {
                        Some(x) => Some(x@),
                        None => None,
                    },
                ),
        decreases m.len() - i,
    {
        let payload = match &m[i].1 {
            Some(x) => Some(x.clone()),
            None => None,
        };
        entries.push((m[i].0.clone(), quote_opt(payload)));
        i += 1;
    }
    assert(entry_texts(entries@) =~= payload_texts(m@));
    quote_map(entries)
}

/// The code for the form `name` of an expression with the given parts.
pub fn quote_form(name: &str, parts: Vec<String>) -> (res: String)
    requires
        1 <= parts@.len() <= 4,
    ensures
        parts@.len() == 1 ==> res@ == form1(name@, parts@[0]@),
        parts@.len() == 2 ==> res@ == form2(name@, parts@[0]@, parts@[1]@),
        parts@.len() == 3 ==> res@ == form3(name@, parts@[0]@, parts@[1]@, parts@[2]@),
        parts@.len() == 4 ==> res@ == form4(
            name@,
            parts@[0]@,
            parts@[1]@,
            parts@[2]@,
            parts@[3]@,
        ),
{
    let mut out = String::from_str("dhall_typecheck::syntax::Expr::");
    out.append(name);
    out.append("(");
    out.append(parts[0].as_str());
    if parts.len() > 1 {
        out.append(", ");
        out.append(parts[1].as_str());
    }
    if parts.len() > 2 {
        out.append(", ");
        out.append(parts[2].as_str());
    }
    if parts.len() > 3 {
        out.append(", ");
        out.append(parts[3].as_str());
    }
    out.append(")");
    out
}

/// Whether the binders `scope`, innermost last, bind the variable `v`.
pub fn binds(scope: &Vec<Label>, v: &V) -> (res: bool)
    ensures
        res == bound(scope_names(scope@), v.0@, v.1 as int),
{
    let mut i: usize = scope.len();
    let mut n: usize = v.1;
    assert(scope_names(scope@).take(i as int) =~= scope_names(scope@));
    while i > 0
        invariant
            i <= scope.len(),
            bound(scope_names(scope@), v.0@, v.1 as int) == bound(
                scope_names(scope@).take(i as int),
                v.0@,
                n as int,
            ),
        decreases i,
    {
        i -= 1;
        assert(scope_names(scope@).take(i + 1).drop_last() =~= scope_names(scope@).take(
            i as int,
        ));
        assert(scope_names(scope@).take(i + 1).last() == scope@[i as int]@);
        if scope[i].same(&v.0) {
            if n == 0 {
                return true;
            }
            n -= 1;
        }
    }
    false
}

/// The code for a variable.
pub fn quote_var(v: &V, scope: &Vec<Label>) -> (res: String)
    ensures
        res@ == var_text(scope_names(scope@), v.0@, v.1 as int),
{
    if binds(scope, v) {
        let mut var = String::from_str("dhall_typecheck::syntax::V(");
        let label = quote_label(&v.0);
        var.append(label.as_str());
        var.append(", ");
        let index = quote_number(v.1 as u64);
        var.append(index.as_str());
        var.append("usize)");
        let mut parts: Vec<String> = Vec::new();
        parts.push(var);
        quote_form("Var", parts)
    } else {
        let mut out = String::from_str("{ let x: dhall_typecheck::syntax::Expr = ");
        out.append(v.0.name.as_str());
        out.append(".clone(); x }");
        out
    }
}

/// The code for an integer literal.
pub fn quote_integer(n: isize) -> (res: String)
    ensures
        res@ == integer_text(n as int),
{
    if n < 0 {
        let magnitude: u64 = (-(n + 1)) as u64 + 1;
        let mut out = String::from_str("-");
        let digits = quote_number(magnitude);
        out.append(digits.as_str());
        out.append("isize");
        out
    } else {
        let mut out = quote_number(n as u64);
        out.append("isize");
        out
    }
}

/// The scope below a binder named `x`.
pub fn scope_below(scope: &Vec<Label>, x: &Label) -> (res: Vec<Label>)
    ensures
        scope_names(res@) == scope_names(scope@).push(x@),
{
    let mut inner: Vec<Label> = Vec::new();
    let mut i: usize = 0;
    while i < scope.len()
        invariant
            i <= scope.len(),
            inner@.len() == i,
            forall|j: int| 0 <= j < i ==> (#[trigger] inner@[j])@ == scope@[j]@,
        decreases scope.len() - i,
    {
        inner.push(scope[i].clone());
        i += 1;
    }
    inner.push(x.clone());
    assert(scope_names(inner@) =~= scope_names(scope@).push(x@));
    inner
}

/// The code for each expression of a list.
pub fn quote_list(list: &Vec<Expr>, scope: &Vec<Label>) -> (res: Vec<String>)
    ensures
        texts(res@) == quoted_terms(scope_names(scope@), Expr::terms(list@)),
    decreases list, 0nat,
{
    let mut out: Vec<String> = Vec::new();
    let mut i: usize = 0;
    while i < list.len()
        invariant
            i <= list.len(),
            out@.len() == i,
            forall|j: int|
                0 <= j < i ==> (#[trigger] out@[j])@ == quoted(scope_names(scope@), list@[j]@),
        decreases list.len() - i,
    {
        out.push(quote_expr(&list[i], scope));
        i += 1;
    }
    assert(texts(out@) =~= quoted_terms(scope_names(scope@), Expr::terms(list@)));
    out
}

/// The code for the expression of each entry of a record.
pub fn quote_record(list: &Vec<(Label, Expr)>, scope: &Vec<Label>) -> (res: Vec<(Label, String)>)
    ensures
        entry_texts(res@) == quoted_fields(scope_names(scope@), Expr::fields(list@)),
    decreases list, 0nat,
{
    let mut out: Vec<(Label, String)> = Vec::new();
    let mut i: usize = 0;
    while i < list.len()
        invariant
            i <= list.len(),
            out@.len() == i,
            forall|j: int|
                0 <= j < i ==> (#[trigger] out@[j]).0@ == list@[j].0@ && out@[j].1@ == quoted(
                    scope_names(scope@),
                    list@[j].1@,
                ),
        decreases list.len() - i,
    {
        out.push((list[i].0.clone(), quote_expr(&list[i].1, scope)));
        i += 1;
    }
    assert(entry_texts(out@) =~= quoted_fields(scope_names(scope@), Expr::fields(list@)));
    out
}

/// The code for the payload of each alternative of a union, where it has one.
pub fn quote_union(list: &Vec<(Label, Option<Expr>)>, scope: &Vec<Label>) -> (res: Vec<
    (Label, Option<String>),
>)
    ensures
        payload_texts(res@) == quoted_alternatives(scope_names(scope@), Expr::alternatives(list@)),
    decreases list, 0nat,
{
    let mut out: Vec<(Label, Option<String>)> = Vec::new();
    let mut i: usize = 0;
    while i < list.len()
        invariant
            i <= list.len(),
            out@.len() == i,
            forall|j: int|
                0 <= j < i ==> (#[trigger] out@[j]).0@ == list@[j].0@ && (match out@[j].1 {
                    Some(x) => Some(x@),
                    None => None,
                }) == (match Expr::optional(list@[j].1) {
                    Some(u) => Some(quoted(scope_names(scope@), u)),
                    None => None,
                }),
        decreases list.len() - i,
    {
        let payload = match &list[i].1 {
            Some(u) => Some(quote_expr(u, scope)),
            None => None,
        };
        out.push((list[i].0.clone(), payload));
        i += 1;
    }
    assert(payload_texts(out@) =~= quoted_alternatives(
        scope_names(scope@),
        Expr::alternatives(list@),
    ));
    out
}

/// The code for a boxed expression.
pub fn quote_subexpr(e: &Expr, scope: &Vec<Label>) -> (res: String)
    ensures
        res@ == boxed_text(quoted(scope_names(scope@), e@)),
    decreases e, 2nat,
{
    rc(quote_expr(e, scope))
}

/// The code that builds the expression `e` below the binders `scope`.
pub fn quote_expr(e: &Expr, scope: &Vec<Label>) -> (res: String)
    ensures
        res@ == quoted(scope_names(scope@), e@),
    decreases e, 1nat,
{
    match e {
        Expr::Var(v) => quote_var(v, scope),
        _ => quote_exprf(e, scope),
    }
}

/// The code for an expression, form by form.
pub fn quote_exprf(e: &Expr, scope: &Vec<Label>) -> (res: String)
    ensures
        res@ == quoted(scope_names(scope@), e@),
    decreases e, 0nat,
{
    let mut parts: Vec<String> = Vec::new();
    match e {
        Expr::Var(v) => quote_var(v, scope),
        Expr::Const(c) => {
            parts.push(quote_const(*c));
            quote_form("Const", parts)
        },
        Expr::Lam(x, a, b) => {
            parts.push(quote_label(x));
            parts.push(quote_subexpr(a, scope));
            parts.push(quote_subexpr(b, &scope_below(scope, x)));
            quote_form("Lam", parts)
        },
        Expr::Pi(x, a, b) => {
            parts.push(quote_label(x));
            parts.push(quote_subexpr(a, scope));
            parts.push(quote_subexpr(b, &scope_below(scope, x)));
            quote_form("Pi", parts)
        },
        Expr::App(f, args) => {
            parts.push(quote_subexpr(f, scope));
            parts.push(quote_vec(quote_list(args, scope)));
            quote_form("App", parts)
        },
        Expr::Let(x, ty, r, b) => {
            parts.push(quote_label(x));
            let annotation = match ty {
                Some(u) => Some(quote_subexpr(u, scope)),
                None => None,
            };
            parts.push(quote_opt(annotation));
            parts.push(quote_subexpr(r, scope));
            parts.push(quote_subexpr(b, &scope_below(scope, x)));
            quote_form("Let", parts)
        },
        Expr::Annot(x, u) => {
            parts.push(quote_subexpr(x, scope));
            parts.push(quote_subexpr(u, scope));
            quote_form("Annot", parts)
        },
        Expr::BoolIf(c, y, z) => {
            parts.push(quote_subexpr(c, scope));
            parts.push(quote_subexpr(y, scope));
            parts.push(quote_subexpr(z, scope));
            quote_form("BoolIf", parts)
        },
        Expr::EmptyListLit(u) => {
            parts.push(quote_subexpr(u, scope));
            quote_form("EmptyListLit", parts)
        },
        Expr::NEListLit(first, rest) => {
            parts.push(quote_subexpr(first, scope));
            parts.push(quote_vec(quote_list(rest, scope)));
            quote_form("NEListLit", parts)
        },
        Expr::EmptyOptionalLit(u) => {
            parts.push(quote_subexpr(u, scope));
            quote_form("EmptyOptionalLit", parts)
        },
        Expr::NEOptionalLit(x) => {
            parts.push(quote_subexpr(x, scope));
            quote_form("NEOptionalLit", parts)
        },
        Expr::RecordType(kts) => {
            parts.push(quote_map(quote_record(kts, scope)));
            quote_form("RecordType", parts)
        },
        Expr::RecordLit(kvs) => {
            parts.push(quote_map(quote_record(kvs, scope)));
            quote_form("RecordLit", parts)
        },
        Expr::UnionType(kts) => {
            parts.push(quote_opt_map(&quote_union(kts, scope)));
            quote_form("UnionType", parts)
        },
        Expr::Field(r, l) => {
            parts.push(quote_subexpr(r, scope));
            parts.push(quote_label(l));
            quote_form("Field", parts)
        },
        Expr::Builtin(b) => {
            parts.push(quote_builtin(*b));
            quote_form("Builtin", parts)
        },
        Expr::BoolLit(b) => {
            parts.push(
                String::from_str(
                    if *b {
                        "true"
                    } else {
                        "false"
                    },
                ),
            );
            quote_form("BoolLit", parts)
        },
        Expr::NaturalLit(n) => {
            let mut text = quote_number(*n as u64);
            text.append("usize");
            parts.push(text);
            quote_form("NaturalLit", parts)
        },
        Expr::IntegerLit(n) => {
            parts.push(quote_integer(*n));
            quote_form("IntegerLit", parts)
        },
        Expr::DoubleLit(bits) => {
            let mut text = quote_number(*bits);
            text.append("u64");
            parts.push(text);
            quote_form("DoubleLit", parts)
        },
        Expr::TextLit(s) => {
            let mut text = quote_text(s.as_str());
            text.append(".to_string()");
            parts.push(text);
            quote_form("TextLit", parts)
        },
        Expr::BinOp(o, l, r) => {
            parts.push(quote_binop(*o));
            parts.push(quote_subexpr(l, scope));
            parts.push(quote_subexpr(r, scope));
            quote_form("BinOp", parts)
        },
    }
}

} // verus!
