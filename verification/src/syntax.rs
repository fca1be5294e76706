//! Terms of the language, and the mathematical terms they stand for.
//!
//! Executable values ([`Expr`]) own their labels and children. Contracts speak of
//! their views ([`Term`]), in which a label is a sequence of characters, an index
//! is an integer and a list of children is a sequence.

use vstd::prelude::*;

verus! {

/// An identifier. Two labels are the same when they spell the same name.
#[derive(Debug, PartialEq, Eq)]
pub struct Label {
    pub name: String,
}

impl View for Label {
    type V = Seq<char>;

    open spec fn view(&self) -> Seq<char> {
        self.name@
    }
}

impl Clone for Label {
    fn clone(&self) -> (res: Label)
        ensures
            res@ == self@,
    {
        Label { name: self.name.clone() }
    }
}

impl Label {
    pub fn new(name: &str) -> (res: Label)
        ensures
            res@ == name@,
    {
        Label { name: String::from_str(name) }
    }

    /// Whether two labels spell the same name.
    pub fn same(&self, other: &Label) -> (res: bool)
        ensures
            res == (self@ == other@),
    {
        self.name == other.name
    }
}

/// A variable `V(x, n)`: the binder named `x` that is reached after skipping
/// `n` binders of that name, counted from the innermost.
#[derive(Debug, PartialEq, Eq)]
pub struct V(pub Label, pub usize);

impl View for V {
    type V = (Seq<char>, int);

    open spec fn view(&self) -> (Seq<char>, int) {
        (self.0@, self.1 as int)
    }
}

impl Clone for V {
    fn clone(&self) -> (res: V)
        ensures
            res@ == self@,
    {
        V(self.0.clone(), self.1)
    }
}

impl V {
    /// Whether two variables have the same name and the same index.
    pub fn same(&self, other: &V) -> (res: bool)
        ensures
            res == (self@ == other@),
    {
        self.0.same(&other.0) && self.1 == other.1
    }
}

/// The two universes.
#[derive(Debug, Clone, Copy, PartialEq, Eq, Structural)]
pub enum Const {
    Type,
    Kind,
}

/// The built-in constants of the language.
#[derive(Debug, Clone, Copy, PartialEq, Eq, Structural)]
pub enum Builtin {
    Bool,
    Natural,
    Integer,
    Double,
    Text,
    List,
    Optional,
    NaturalBuild,
    NaturalFold,
    NaturalIsZero,
    NaturalEven,
    NaturalOdd,
    NaturalToInteger,
    NaturalShow,
    IntegerToDouble,
    IntegerShow,
    DoubleShow,
    ListBuild,
    ListFold,
    ListLength,
    ListHead,
    ListLast,
    ListIndexed,
    ListReverse,
    OptionalFold,
    OptionalBuild,
    TextShow,
}

/// The binary operators that have a typing rule.
#[derive(Debug, Clone, Copy, PartialEq, Eq, Structural)]
pub enum BinOp {
    BoolAnd,
    BoolOr,
    BoolEQ,
    BoolNE,
    NaturalPlus,
    NaturalTimes,
    TextAppend,
}

/// A term of the language as a mathematical value.
///
/// An index is an `int`: a term that results from shifting may hold a negative
/// index, which no executable expression has.
pub enum Term {
    Const(Const),
    Var(Seq<char>, int),
    Lam(Seq<char>, Box<Term>, Box<Term>),
    Pi(Seq<char>, Box<Term>, Box<Term>),
    App(Box<Term>, Seq<Term>),
    Let(Seq<char>, Option<Box<Term>>, Box<Term>, Box<Term>),
    Annot(Box<Term>, Box<Term>),
    BoolIf(Box<Term>, Box<Term>, Box<Term>),
    EmptyListLit(Box<Term>),
    NEListLit(Box<Term>, Seq<Term>),
    EmptyOptionalLit(Box<Term>),
    NEOptionalLit(Box<Term>),
    RecordType(Seq<(Seq<char>, Term)>),
    RecordLit(Seq<(Seq<char>, Term)>),
    UnionType(Seq<(Seq<char>, Option<Term>)>),
    Field(Box<Term>, Seq<char>),
    Builtin(Builtin),
    BoolLit(bool),
    NaturalLit(int),
    IntegerLit(int),
    DoubleLit(u64),
    TextLit(Seq<char>),
    BinOp(BinOp, Box<Term>, Box<Term>),
}

/// An expression.
///
/// A non-empty list literal holds its first element apart from the others, so
/// that no value of this type is a non-empty list without elements. A double
/// literal holds the bits of its IEEE 754 representation. The entries of a
/// record or a union stand in the order in which they were given.
#[derive(Debug, PartialEq, Eq)]
pub enum Expr {
    Const(Const),
    Var(V),
    Lam(Label, Box<Expr>, Box<Expr>),
    Pi(Label, Box<Expr>, Box<Expr>),
    App(Box<Expr>, Vec<Expr>),
    Let(Label, Option<Box<Expr>>, Box<Expr>, Box<Expr>),
    Annot(Box<Expr>, Box<Expr>),
    BoolIf(Box<Expr>, Box<Expr>, Box<Expr>),
    EmptyListLit(Box<Expr>),
    NEListLit(Box<Expr>, Vec<Expr>),
    EmptyOptionalLit(Box<Expr>),
    NEOptionalLit(Box<Expr>),
    RecordType(Vec<(Label, Expr)>),
    RecordLit(Vec<(Label, Expr)>),
    UnionType(Vec<(Label, Option<Expr>)>),
    Field(Box<Expr>, Label),
    Builtin(Builtin),
    BoolLit(bool),
    NaturalLit(usize),
    IntegerLit(isize),
    DoubleLit(u64),
    TextLit(String),
    BinOp(BinOp, Box<Expr>, Box<Expr>),
}

impl Expr {
    /// The term that this expression stands for.
    pub open spec fn term(&self) -> Term
        decreases self,
    {
        match self {
            Expr::Const(c) => Term::Const(*c),
            Expr::Var(v) => Term::Var(v.0@, v.1 as int),
            Expr::Lam(x, a, b) => Term::Lam(x@, Box::new(a.term()), Box::new(b.term())),
            Expr::Pi(x, a, b) => Term::Pi(x@, Box::new(a.term()), Box::new(b.term())),
            Expr::App(f, args) => Term::App(Box::new(f.term()), Expr::terms(args@)),
            Expr::Let(x, t, r, b) => Term::Let(
                x@,
                match t {
                    Some(t) => Some(Box::new(t.term())),
                    None => None,
                },
                Box::new(r.term()),
                Box::new(b.term()),
            ),
            Expr::Annot(e, t) => Term::Annot(Box::new(e.term()), Box::new(t.term())),
            Expr::BoolIf(c, t, e) => Term::BoolIf(
                Box::new(c.term()),
                Box::new(t.term()),
                Box::new(e.term()),
            ),
            Expr::EmptyListLit(t) => Term::EmptyListLit(Box::new(t.term())),
            Expr::NEListLit(first, rest) => Term::NEListLit(
                Box::new(first.term()),
                Expr::terms(rest@),
            ),
            Expr::EmptyOptionalLit(t) => Term::EmptyOptionalLit(Box::new(t.term())),
            Expr::NEOptionalLit(e) => Term::NEOptionalLit(Box::new(e.term())),
            Expr::RecordType(kts) => Term::RecordType(Expr::fields(kts@)),
            Expr::RecordLit(kvs) => Term::RecordLit(Expr::fields(kvs@)),
            Expr::UnionType(kts) => Term::UnionType(Expr::alternatives(kts@)),
            Expr::Field(r, x) => Term::Field(Box::new(r.term()), x@),
            Expr::Builtin(b) => Term::Builtin(*b),
            Expr::BoolLit(b) => Term::BoolLit(*b),
            Expr::NaturalLit(n) => Term::NaturalLit(*n as int),
            Expr::IntegerLit(n) => Term::IntegerLit(*n as int),
            Expr::DoubleLit(bits) => Term::DoubleLit(*bits),
            Expr::TextLit(s) => Term::TextLit(s@),
            Expr::BinOp(o, l, r) => Term::BinOp(*o, Box::new(l.term()), Box::new(r.term())),
        }
    }

    /// The terms of a list of expressions, in order.
    pub open spec fn terms(s: Seq<Expr>) -> Seq<Term>
        decreases s,
    {
        Seq::new(
            s.len(),
            |i: int|
                if 0 <= i < s.len() {
                    s[i].term()
                } else {
                    arbitrary()
                },
        )
    }

    /// The entries of a record as labelled terms, in order.
    pub open spec fn fields(s: Seq<(Label, Expr)>) -> Seq<(Seq<char>, Term)>
        decreases s,
    {
        Seq::new(
            s.len(),
            |i: int|
                if 0 <= i < s.len() {
                    (s[i].0@, s[i].1.term())
                } else {
                    arbitrary()
                },
        )
    }

    /// The alternatives of a union as labelled optional terms, in order.
    pub open spec fn alternatives(s: Seq<(Label, Option<Expr>)>) -> Seq<(Seq<char>, Option<Term>)>
        decreases s,
    {
        Seq::new(
            s.len(),
            |i: int|
                if 0 <= i < s.len() {
                    (
                        s[i].0@,
                        match s[i].1 {
                            Some(t) => Some(t.term()),
                            None => None,
                        },
                    )
                } else {
                    arbitrary()
                },
        )
    }

    /// The term of an optional expression.
    pub open spec fn optional(o: Option<Expr>) -> Option<Term> {
        match o {
            Some(t) => Some(t.term()),
            None => None,
        }
    }
}

impl View for Expr {
    type V = Term;

    open spec fn view(&self) -> Term {
        self.term()
    }
}

/// A copy of a list of expressions.
pub fn clone_list(list: &Vec<Expr>) -> (res: Vec<Expr>)
    ensures
        Expr::terms(res@) == Expr::terms(list@),
    decreases list,
{
    let mut out: Vec<Expr> = Vec::new();
    let mut i: usize = 0;
    while i < list.len()
        invariant
            i <= list.len(),
            out@.len() == i,
            forall|j: int| 0 <= j < i ==> out@[j]@ == list@[j]@,
        decreases list.len() - i,
    {
        out.push(list[i].clone());
        i += 1;
    }
    assert(Expr::terms(out@) =~= Expr::terms(list@));
    out
}

/// A copy of the first `n` expressions of a list.
pub fn clone_prefix(list: &Vec<Expr>, n: usize) -> (res: Vec<Expr>)
    requires
        n <= list@.len(),
    ensures
        Expr::terms(res@) == Expr::terms(list@).take(n as int),
{
    let mut out: Vec<Expr> = Vec::new();
    let mut i: usize = 0;
    while i < n
        invariant
            i <= n,
            n <= list@.len(),
            out@.len() == i,
            forall|j: int| 0 <= j < i ==> out@[j]@ == list@[j]@,
        decreases n - i,
    {
        out.push(list[i].clone());
        i += 1;
    }
    assert(Expr::terms(out@) =~= Expr::terms(list@).take(n as int));
    out
}

/// A copy of the expressions of a list from position `i` on.
pub fn clone_suffix(list: &Vec<Expr>, i: usize) -> (res: Vec<Expr>)
    requires
        i <= list@.len(),
    ensures
        Expr::terms(res@) == Expr::terms(list@).skip(i as int),
{
    let mut out: Vec<Expr> = Vec::new();
    let mut j: usize = i;
    while j < list.len()
        invariant
            i <= j <= list.len(),
            out@.len() == j - i,
            forall|k: int| 0 <= k < j - i ==> out@[k]@ == list@[i + k]@,
        decreases list.len() - j,
    {
        out.push(list[j].clone());
        j += 1;
    }
    assert(Expr::terms(out@) =~= Expr::terms(list@).skip(i as int));
    out
}

/// A copy of the entries of a record.
pub fn clone_fields(list: &Vec<(Label, Expr)>) -> (res: Vec<(Label, Expr)>)
    ensures
        Expr::fields(res@) == Expr::fields(list@),
    decreases list,
{
    let mut out: Vec<(Label, Expr)> = Vec::new();
    let mut i: usize = 0;
    while i < list.len()
        invariant
            i <= list.len(),
            out@.len() == i,
            forall|j: int| 0 <= j < i ==> out@[j].0@ == list@[j].0@ && out@[j].1@ == list@[j].1@,
        decreases list.len() - i,
    {
        out.push((list[i].0.clone(), list[i].1.clone()));
        i += 1;
    }
    assert(Expr::fields(out@) =~= Expr::fields(list@));
    out
}

/// A copy of the alternatives of a union.
pub fn clone_alternatives(list: &Vec<(Label, Option<Expr>)>) -> (res: Vec<(Label, Option<Expr>)>)
    ensures
        Expr::alternatives(res@) == Expr::alternatives(list@),
    decreases list,
{
    let mut out: Vec<(Label, Option<Expr>)> = Vec::new();
    let mut i: usize = 0;
    while i < list.len()
        invariant
            i <= list.len(),
            out@.len() == i,
            forall|j: int|
                0 <= j < i ==> out@[j].0@ == list@[j].0@ && Expr::optional(out@[j].1)
                    == Expr::optional(list@[j].1),
        decreases list.len() - i,
    {
        let t = match &list[i].1 {
            Some(t) => Some(t.clone()),
            None => None,
        };
        out.push((list[i].0.clone(), t));
        i += 1;
    }
    assert(Expr::alternatives(out@) =~= Expr::alternatives(list@));
    out
}

impl Clone for Expr {
    fn clone(&self) -> (res: Expr)
        ensures
            res@ == self@,
        decreases self,
    {
        match self {
            Expr::Const(c) => Expr::Const(*c),
            Expr::Var(v) => Expr::Var(v.clone()),
            Expr::Lam(x, a, b) => Expr::Lam(
                x.clone(),
                Box::new((&**a).clone()),
                Box::new((&**b).clone()),
            ),
            Expr::Pi(x, a, b) => Expr::Pi(
                x.clone(),
                Box::new((&**a).clone()),
                Box::new((&**b).clone()),
            ),
            Expr::App(f, args) => Expr::App(Box::new((&**f).clone()), clone_list(args)),
            Expr::Let(x, t, r, b) => {
                let t2 = match t {
                    Some(t) => Some(Box::new((&**t).clone())),
                    None => None,
                };
                Expr::Let(x.clone(), t2, Box::new((&**r).clone()), Box::new((&**b).clone()))
            },
            Expr::Annot(e, t) => Expr::Annot(Box::new((&**e).clone()), Box::new((&**t).clone())),
            Expr::BoolIf(c, t, e) => Expr::BoolIf(
                Box::new((&**c).clone()),
                Box::new((&**t).clone()),
                Box::new((&**e).clone()),
            ),
            Expr::EmptyListLit(t) => Expr::EmptyListLit(Box::new((&**t).clone())),
            Expr::NEListLit(first, rest) => Expr::NEListLit(
                Box::new((&**first).clone()),
                clone_list(rest),
            ),
            Expr::EmptyOptionalLit(t) => Expr::EmptyOptionalLit(Box::new((&**t).clone())),
            Expr::NEOptionalLit(e) => Expr::NEOptionalLit(Box::new((&**e).clone())),
            Expr::RecordType(kts) => Expr::RecordType(clone_fields(kts)),
            Expr::RecordLit(kvs) => Expr::RecordLit(clone_fields(kvs)),
            Expr::UnionType(kts) => Expr::UnionType(clone_alternatives(kts)),
            Expr::Field(r, x) => Expr::Field(Box::new((&**r).clone()), x.clone()),
            Expr::Builtin(b) => Expr::Builtin(*b),
            Expr::BoolLit(b) => Expr::BoolLit(*b),
            Expr::NaturalLit(n) => Expr::NaturalLit(*n),
            Expr::IntegerLit(n) => Expr::IntegerLit(*n),
            Expr::DoubleLit(bits) => Expr::DoubleLit(*bits),
            Expr::TextLit(s) => Expr::TextLit(s.clone()),
            Expr::BinOp(o, l, r) => Expr::BinOp(
                *o,
                Box::new((&**l).clone()),
                Box::new((&**r).clone()),
            ),
        }
    }
}

/// Whether two lists of expressions stand for the same terms.
pub fn same_list(left: &Vec<Expr>, right: &Vec<Expr>) -> (res: bool)
    ensures
        res == (Expr::terms(left@) == Expr::terms(right@)),
    decreases left,
{
    if left.len() != right.len() {
        assert(Expr::terms(left@).len() != Expr::terms(right@).len());
        return false;
    }
    let mut i: usize = 0;
    while i < left.len()
        invariant
            left.len() == right.len(),
            i <= left.len(),
            forall|j: int| 0 <= j < i ==> left@[j]@ == right@[j]@,
        decreases left.len() - i,
    {
        if !left[i].same(&right[i]) {
            assert(Expr::terms(left@)[i as int] != Expr::terms(right@)[i as int]);
            return false;
        }
        i += 1;
    }
    assert(Expr::terms(left@) =~= Expr::terms(right@));
    true
}

/// Whether two records have the same labels and stand for the same terms, entry by entry.
pub fn same_fields(left: &Vec<(Label, Expr)>, right: &Vec<(Label, Expr)>) -> (res: bool)
    ensures
        res == (Expr::fields(left@) == Expr::fields(right@)),
    decreases left,
{
    if left.len() != right.len() {
        assert(Expr::fields(left@).len() != Expr::fields(right@).len());
        return false;
    }
    let mut i: usize = 0;
    while i < left.len()
        invariant
            left.len() == right.len(),
            i <= left.len(),
            forall|j: int|
                0 <= j < i ==> left@[j].0@ == right@[j].0@ && left@[j].1@ == right@[j].1@,
        decreases left.len() - i,
    {
        if !(left[i].0.same(&right[i].0) && left[i].1.same(&right[i].1)) {
            assert(Expr::fields(left@)[i as int] != Expr::fields(right@)[i as int]);
            return false;
        }
        i += 1;
    }
    assert(Expr::fields(left@) =~= Expr::fields(right@));
    true
}

/// Whether two optional expressions are both absent or stand for the same term.
pub fn same_optional(left: &Option<Expr>, right: &Option<Expr>) -> (res: bool)
    ensures
        res == (Expr::optional(*left) == Expr::optional(*right)),
    decreases left,
{
    match (left, right) {
        (Some(l), Some(r)) => l.same(r),
        (None, None) => true,
        _ => false,
    }
}

/// Whether two unions have the same labels and the same payloads, alternative by alternative.
pub fn same_alternatives(
    left: &Vec<(Label, Option<Expr>)>,
    right: &Vec<(Label, Option<Expr>)>,
) -> (res: bool)
    ensures
        res == (Expr::alternatives(left@) == Expr::alternatives(right@)),
    decreases left,
{
    if left.len() != right.len() {
        assert(Expr::alternatives(left@).len() != Expr::alternatives(right@).len());
        return false;
    }
    let mut i: usize = 0;
    while i < left.len()
        invariant
            left.len() == right.len(),
            i <= left.len(),
            forall|j: int|
                0 <= j < i ==> left@[j].0@ == right@[j].0@ && Expr::optional(left@[j].1)
                    == Expr::optional(right@[j].1),
        decreases left.len() - i,
    {
        if !(left[i].0.same(&right[i].0) && same_optional(&left[i].1, &right[i].1)) {
            assert(Expr::alternatives(left@)[i as int] != Expr::alternatives(right@)[i as int]);
            return false;
        }
        i += 1;
    }
    assert(Expr::alternatives(left@) =~= Expr::alternatives(right@));
    true
}

impl Expr {
    /// Structural equality: whether two expressions stand for the same term.
    pub fn same(&self, other: &Expr) -> (res: bool)
        ensures
            res == (self@ == other@),
        decreases self,
    {
        match (self, other) {
            (Expr::Const(a), Expr::Const(b)) => *a == *b,
            (Expr::Var(a), Expr::Var(b)) => a.same(b),
            (Expr::Lam(x, a, b), Expr::Lam(y, c, d)) => x.same(y) && a.same(c) && b.same(d),
            (Expr::Pi(x, a, b), Expr::Pi(y, c, d)) => x.same(y) && a.same(c) && b.same(d),
            (Expr::App(f, a), Expr::App(g, b)) => f.same(g) && same_list(a, b),
            (Expr::Let(x, t, r, b), Expr::Let(y, u, s, c)) => {
                let annotations = match (t, u) {
                    (Some(t), Some(u)) => t.same(u),
                    (None, None) => true,
                    _ => false,
                };
                x.same(y) && annotations && r.same(s) && b.same(c)
            },
            (Expr::Annot(e, t), Expr::Annot(f, u)) => e.same(f) && t.same(u),
            (Expr::BoolIf(c, t, e), Expr::BoolIf(d, u, f)) => c.same(d) && t.same(u) && e.same(f),
            (Expr::EmptyListLit(t), Expr::EmptyListLit(u)) => t.same(u),
            (Expr::NEListLit(a, r), Expr::NEListLit(b, s)) => a.same(b) && same_list(r, s),
            (Expr::EmptyOptionalLit(t), Expr::EmptyOptionalLit(u)) => t.same(u),
            (Expr::NEOptionalLit(e), Expr::NEOptionalLit(f)) => e.same(f),
            (Expr::RecordType(a), Expr::RecordType(b)) => same_fields(a, b),
            (Expr::RecordLit(a), Expr::RecordLit(b)) => same_fields(a, b),
            (Expr::UnionType(a), Expr::UnionType(b)) => same_alternatives(a, b),
            (Expr::Field(r, x), Expr::Field(s, y)) => r.same(s) && x.same(y),
            (Expr::Builtin(a), Expr::Builtin(b)) => *a == *b,
            (Expr::BoolLit(a), Expr::BoolLit(b)) => *a == *b,
            (Expr::NaturalLit(a), Expr::NaturalLit(b)) => *a == *b,
            (Expr::IntegerLit(a), Expr::IntegerLit(b)) => *a == *b,
            (Expr::DoubleLit(a), Expr::DoubleLit(b)) => *a == *b,
            (Expr::TextLit(a), Expr::TextLit(b)) => *a == *b,
            (Expr::BinOp(o, l, r), Expr::BinOp(p, m, s)) => *o == *p && l.same(m) && r.same(s),
            _ => false,
        }
    }
}

} // verus!
