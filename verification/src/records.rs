//! The order of the entries of records and unions.
//!
//! A record or a union is a map from labels to terms. It is held as a list of
//! entries, and that list stands for a map where its labels stand in strictly
//! increasing order: then no label occurs twice, and two lists hold the same
//! entries exactly where they are equal.

use crate::syntax::{Expr, Label, Term};
use vstd::prelude::*;

verus! {

/// Whether the name `a` comes before the name `b`: the order of words in a
/// dictionary, over the code points of the characters.
pub open spec fn name_before(a: Seq<char>, b: Seq<char>) -> bool
    decreases a.len(),
{
    if b.len() == 0 {
        false
    } else if a.len() == 0 {
        true
    } else if a[0] != b[0] {
        (a[0] as int) < (b[0] as int)
    } else {
        name_before(a.skip(1), b.skip(1))
    }
}

/// Whether each label comes before the next.
pub open spec fn increasing(labels: Seq<Seq<char>>) -> bool {
    forall|i: int| 0 < i < labels.len() ==> name_before(labels[i - 1], #[trigger] labels[i])
}

/// The labels of the entries of a record.
pub open spec fn field_labels(s: Seq<(Seq<char>, Term)>) -> Seq<Seq<char>> {
    Seq::new(s.len(), |i: int| s[i].0)
}

/// The labels of the alternatives of a union.
pub open spec fn alternative_labels(s: Seq<(Seq<char>, Option<Term>)>) -> Seq<Seq<char>> {
    Seq::new(s.len(), |i: int| s[i].0)
}

/// Whether every record and every union of the term has its labels in
/// strictly increasing order.
pub open spec fn well_formed(t: Term) -> bool
    decreases t,
{
    match t {
        Term::Const(_) => true,
        Term::Var(_, _) => true,
        Term::Lam(_, a, b) => well_formed(*a) && well_formed(*b),
        Term::Pi(_, a, b) => well_formed(*a) && well_formed(*b),
        Term::App(f, args) => well_formed(*f) && forall|i: int|
            0 <= i < args.len() ==> well_formed(#[trigger] args[i]),
        Term::Let(_, ty, r, b) => (match ty {
            Some(u) => well_formed(*u),
            None => true,
        }) && well_formed(*r) && well_formed(*b),
        Term::Annot(e, u) => well_formed(*e) && well_formed(*u),
        Term::BoolIf(c, u, e) => well_formed(*c) && well_formed(*u) && well_formed(*e),
        Term::EmptyListLit(u) => well_formed(*u),
        Term::NEListLit(first, rest) => well_formed(*first) && forall|i: int|
            0 <= i < rest.len() ==> well_formed(#[trigger] rest[i]),
        Term::EmptyOptionalLit(u) => well_formed(*u),
        Term::NEOptionalLit(e) => well_formed(*e),
        Term::RecordType(kts) => well_formed_fields(kts),
        Term::RecordLit(kvs) => well_formed_fields(kvs),
        Term::UnionType(kts) => increasing(alternative_labels(kts)) && forall|i: int|
            0 <= i < kts.len() ==> match (#[trigger] kts[i]).1 {
                Some(u) => well_formed(u),
                None => true,
            },
        Term::Field(r, _) => well_formed(*r),
        Term::Builtin(_) => true,
        Term::BoolLit(_) => true,
        Term::NaturalLit(_) => true,
        Term::IntegerLit(_) => true,
        Term::DoubleLit(_) => true,
        Term::TextLit(_) => true,
        Term::BinOp(_, l, r) => well_formed(*l) && well_formed(*r),
    }
}

/// Whether the entries of a record have their labels in strictly increasing
/// order, and well-formed terms.
pub open spec fn well_formed_fields(s: Seq<(Seq<char>, Term)>) -> bool
    decreases s,
{
    increasing(field_labels(s)) && forall|i: int|
        0 <= i < s.len() ==> well_formed((#[trigger] s[i]).1)
}

impl Label {
    /// Whether this label comes before `other`.
    pub fn before(&self, other: &Label) -> (res: bool)
        ensures
            res == name_before(self@, other@),
    {
        let a = self.name.as_str();
        let b = other.name.as_str();
        let n = a.unicode_len();
        let m = b.unicode_len();
        let mut i: usize = 0;
        assert(self@.skip(0) =~= self@);
        assert(other@.skip(0) =~= other@);
        while i < n && i < m
            invariant
                n == self@.len(),
                m == other@.len(),
                a@ == self@,
                b@ == other@,
                i <= n,
                i <= m,
                name_before(self@, other@) == name_before(self@.skip(i as int), other@.skip(i as int)),
            decreases n - i,
        {
            let x = a.get_char(i);
            let y = b.get_char(i);
            assert(self@.skip(i as int)[0] == x);
            assert(other@.skip(i as int)[0] == y);
            assert(self@.skip(i as int).skip(1) =~= self@.skip(i + 1));
            assert(other@.skip(i as int).skip(1) =~= other@.skip(i + 1));
            if x != y {
                return (x as u32) < (y as u32);
            }
            i += 1;
        }
        i < m
    }
}

/// Whether each label of the entries comes before the next.
pub fn fields_increasing(list: &Vec<(Label, Expr)>) -> (res: bool)
    ensures
        res == increasing(field_labels(Expr::fields(list@))),
{
    let mut i: usize = 1;
    while i < list.len()
        invariant
            1 <= i,
            forall|j: int|
                0 < j < i && j < list@.len() ==> name_before(
                    field_labels(Expr::fields(list@))[j - 1],
                    #[trigger] field_labels(Expr::fields(list@))[j],
                ),
        decreases list.len() - i,
    {
        assert(field_labels(Expr::fields(list@))[i as int] == list@[i as int].0@);
        assert(field_labels(Expr::fields(list@))[i - 1] == list@[i - 1].0@);
        if !list[i - 1].0.before(&list[i].0) {
            return false;
        }
        i += 1;
    }
    true
}

/// Whether each label of the alternatives comes before the next.
pub fn alternatives_increasing(list: &Vec<(Label, Option<Expr>)>) -> (res: bool)
    ensures
        res == increasing(alternative_labels(Expr::alternatives(list@))),
{
    let mut i: usize = 1;
    while i < list.len()
        invariant
            1 <= i,
            forall|j: int|
                0 < j < i && j < list@.len() ==> name_before(
                    alternative_labels(Expr::alternatives(list@))[j - 1],
                    #[trigger] alternative_labels(Expr::alternatives(list@))[j],
                ),
        decreases list.len() - i,
    {
        assert(alternative_labels(Expr::alternatives(list@))[i as int] == list@[i as int].0@);
        assert(alternative_labels(Expr::alternatives(list@))[i - 1] == list@[i - 1].0@);
        if !list[i - 1].0.before(&list[i].0) {
            return false;
        }
        i += 1;
    }
    true
}

/// Whether every expression of the list is well formed.
pub fn all_well_formed(list: &Vec<Expr>) -> (res: bool)
    ensures
        res == (forall|i: int|
            0 <= i < Expr::terms(list@).len() ==> well_formed(#[trigger] Expr::terms(list@)[i])),
    decreases list,
{
    let mut i: usize = 0;
    while i < list.len()
        invariant
            i <= list.len(),
            forall|j: int| 0 <= j < i ==> well_formed(#[trigger] Expr::terms(list@)[j]),
        decreases list.len() - i,
    {
        assert(Expr::terms(list@)[i as int] == list@[i as int]@);
        if !list[i].is_well_formed() {
            return false;
        }
        i += 1;
    }
    assert(Expr::terms(list@).len() == list@.len());
    true
}

/// Whether the entries of a record are in order and well formed.
pub fn fields_well_formed(list: &Vec<(Label, Expr)>) -> (res: bool)
    ensures
        res == well_formed_fields(Expr::fields(list@)),
    decreases list,
{
    if !fields_increasing(list) {
        return false;
    }
    let mut i: usize = 0;
    while i < list.len()
        invariant
            i <= list.len(),
            increasing(field_labels(Expr::fields(list@))),
            forall|j: int| 0 <= j < i ==> well_formed((#[trigger] Expr::fields(list@)[j]).1),
        decreases list.len() - i,
    {
        assert(Expr::fields(list@)[i as int].1 == list@[i as int].1@);
        if !list[i].1.is_well_formed() {
            return false;
        }
        i += 1;
    }
    true
}

/// Whether the alternatives of a union are in order and their payloads well formed.
pub fn alternatives_well_formed(list: &Vec<(Label, Option<Expr>)>) -> (res: bool)
    ensures
        res == (increasing(alternative_labels(Expr::alternatives(list@))) && forall|i: int|
            0 <= i < list@.len() ==> match (#[trigger] Expr::alternatives(list@)[i]).1 {
                Some(u) => well_formed(u),
                None => true,
            }),
    decreases list,
{
    if !alternatives_increasing(list) {
        return false;
    }
    let mut i: usize = 0;
    while i < list.len()
        invariant
            i <= list.len(),
            increasing(alternative_labels(Expr::alternatives(list@))),
            forall|j: int|
                0 <= j < i ==> match (#[trigger] Expr::alternatives(list@)[j]).1 {
                    Some(u) => well_formed(u),
                    None => true,
                },
        decreases list.len() - i,
    {
        assert(Expr::alternatives(list@)[i as int].1 == Expr::optional(list@[i as int].1));
        match &list[i].1 {
            Some(u) => {
                if !u.is_well_formed() {
                    return false;
                }
            },
            None => {},
        }
        i += 1;
    }
    true
}

impl Expr {
    /// Whether every record and every union of the expression has its labels
    /// in strictly increasing order.
    pub fn is_well_formed(&self) -> (res: bool)
        ensures
            res == well_formed(self@),
        decreases self,
    {
        match self {
            Expr::Lam(_, a, b) => a.is_well_formed() && b.is_well_formed(),
            Expr::Pi(_, a, b) => a.is_well_formed() && b.is_well_formed(),
            Expr::App(f, args) => {
                assert(self@->App_1 == Expr::terms(args@));
                f.is_well_formed() && all_well_formed(args)
            },
            Expr::Let(_, ty, r, b) => {
                let annotation = match ty {
                    Some(u) => u.is_well_formed(),
                    None => true,
                };
                annotation && r.is_well_formed() && b.is_well_formed()
            },
            Expr::Annot(e, u) => e.is_well_formed() && u.is_well_formed(),
            Expr::BoolIf(c, u, e) => c.is_well_formed() && u.is_well_formed()
                && e.is_well_formed(),
            Expr::EmptyListLit(u) => u.is_well_formed(),
            Expr::NEListLit(first, rest) => {
                assert(self@->NEListLit_1 == Expr::terms(rest@));
                first.is_well_formed() && all_well_formed(rest)
            },
            Expr::EmptyOptionalLit(u) => u.is_well_formed(),
            Expr::NEOptionalLit(e) => e.is_well_formed(),
            Expr::RecordType(kts) => fields_well_formed(kts),
            Expr::RecordLit(kvs) => fields_well_formed(kvs),
            Expr::UnionType(kts) => alternatives_well_formed(kts),
            Expr::Field(r, _) => r.is_well_formed(),
            Expr::BinOp(_, l, r) => l.is_well_formed() && r.is_well_formed(),
            _ => true,
        }
    }
}

} // verus!
