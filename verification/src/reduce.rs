//! A normalizer that reduces what the syntax alone can reduce.
//!
//! It applies functions to their arguments, unfolds definitions, drops
//! annotations, chooses the branch of a conditional on a literal, and selects
//! fields of record literals. Built-in functions and operators are left as
//! they stand.

use crate::normalize::Normalizer;
use crate::subst::{subst_shift, subst_shift_fits, subst_shifted};
use crate::syntax::{clone_suffix, Expr, Label, Term, V};
use crate::typecheck::{field_from, find_field};
use vstd::prelude::*;

verus! {

/// The application of `head` to `rest`, which is not reduced further: an
/// application as head takes the further arguments behind its own.
pub open spec fn stuck(head: Term, rest: Seq<Term>) -> Term {
    match head {
        Term::App(g, gs) => Term::App(g, gs + rest),
        _ => Term::App(Box::new(head), rest),
    }
}

/// `head`, which is reduced, applied to the reduced arguments `args[i..]`, one
/// after the other. A function takes its argument for its parameter, at the
/// cost of one unit of `fuel`, and the result is reduced before it meets the
/// next argument. Where the head is no function, the fuel is used up or an
/// index would leave the range of `usize`, the application stays.
pub open spec fn applied_all(fuel: nat, head: Term, args: Seq<Term>, i: int) -> Term
    decreases fuel, 0nat, head,
{
    if i < 0 || i >= args.len() {
        head
    } else {
        match head {
            Term::Lam(x, _, b) => if fuel > 0 && subst_shift_fits(x, 0, args[i], *b) {
                applied_all(
                    (fuel - 1) as nat,
                    reduced((fuel - 1) as nat, subst_shifted(x, 0, args[i], *b)),
                    args,
                    i + 1,
                )
            } else {
                stuck(head, args.skip(i))
            },
            _ => stuck(head, args.skip(i)),
        }
    }
}

/// The term `t` reduced with `fuel` units: each application of a function
/// and each unfolding of a definition uses up one.
pub open spec fn reduced(fuel: nat, t: Term) -> Term
    decreases fuel, 1nat, t,
{
    match t {
        Term::Const(_) => t,
        Term::Var(_, _) => t,
        Term::Lam(x, a, b) => Term::Lam(
            x,
            Box::new(reduced(fuel, *a)),
            Box::new(reduced(fuel, *b)),
        ),
        Term::Pi(x, a, b) => Term::Pi(x, Box::new(reduced(fuel, *a)), Box::new(reduced(fuel, *b))),
        Term::App(f, args) => applied_all(fuel, reduced(fuel, *f), reduced_terms(fuel, args), 0),
        Term::Let(x, ty, r, b) => if fuel > 0 && subst_shift_fits(x, 0, *r, *b) {
            reduced((fuel - 1) as nat, subst_shifted(x, 0, *r, *b))
        } else {
            Term::Let(
                x,
                match ty {
                    Some(u) => Some(Box::new(reduced(fuel, *u))),
                    None => None,
                },
                Box::new(reduced(fuel, *r)),
                Box::new(reduced(fuel, *b)),
            )
        },
        Term::Annot(e, _) => reduced(fuel, *e),
        Term::BoolIf(c, y, z) => match reduced(fuel, *c) {
            Term::BoolLit(true) => reduced(fuel, *y),
            Term::BoolLit(false) => reduced(fuel, *z),
            c2 => Term::BoolIf(
                Box::new(c2),
                Box::new(reduced(fuel, *y)),
                Box::new(reduced(fuel, *z)),
            ),
        },
        Term::EmptyListLit(u) => Term::EmptyListLit(Box::new(reduced(fuel, *u))),
        Term::NEListLit(first, rest) => Term::NEListLit(
            Box::new(reduced(fuel, *first)),
            reduced_terms(fuel, rest),
        ),
        Term::EmptyOptionalLit(u) => Term::EmptyOptionalLit(Box::new(reduced(fuel, *u))),
        Term::NEOptionalLit(e) => Term::NEOptionalLit(Box::new(reduced(fuel, *e))),
        Term::RecordType(kts) => Term::RecordType(reduced_fields(fuel, kts)),
        Term::RecordLit(kvs) => Term::RecordLit(reduced_fields(fuel, kvs)),
        Term::UnionType(kts) => Term::UnionType(reduced_alternatives(fuel, kts)),
        Term::Field(r, l) => selected(reduced(fuel, *r), l),
        Term::Builtin(_) => t,
        Term::BoolLit(_) => t,
        Term::NaturalLit(_) => t,
        Term::IntegerLit(_) => t,
        Term::DoubleLit(_) => t,
        Term::TextLit(_) => t,
        Term::BinOp(o, l, r) => Term::BinOp(
            o,
            Box::new(reduced(fuel, *l)),
            Box::new(reduced(fuel, *r)),
        ),
    }
}

/// The field `l` of the reduced term `r`: the value of the first field of
/// that name where `r` is a record literal that has one, else the selection.
pub open spec fn selected(r: Term, l: Seq<char>) -> Term {
    match r {
        Term::RecordLit(kvs) => match field_from(kvs, l, 0) {
            Some(v) => v,
            None => Term::Field(Box::new(r), l),
        },
        _ => Term::Field(Box::new(r), l),
    }
}

/// [`reduced`] on each term of a list.
pub open spec fn reduced_terms(fuel: nat, s: Seq<Term>) -> Seq<Term>
    decreases fuel, 1nat, s,
{
    Seq::new(
        s.len(),
        |i: int|
            if 0 <= i < s.len() {
                reduced(fuel, s[i])
            } else {
                arbitrary()
            },
    )
}

/// [`reduced`] on the term of each entry of a record.
pub open spec fn reduced_fields(fuel: nat, s: Seq<(Seq<char>, Term)>) -> Seq<(Seq<char>, Term)>
    decreases fuel, 1nat, s,
{
    Seq::new(
        s.len(),
        |i: int|
            if 0 <= i < s.len() {
                (s[i].0, reduced(fuel, s[i].1))
            } else {
                arbitrary()
            },
    )
}

/// [`reduced`] on the payload of each alternative of a union.
pub open spec fn reduced_alternatives(fuel: nat, s: Seq<(Seq<char>, Option<Term>)>) -> Seq<
    (Seq<char>, Option<Term>),
>
    decreases fuel, 1nat, s,
{
    Seq::new(
        s.len(),
        |i: int|
            if 0 <= i < s.len() {
                (
                    s[i].0,
                    match s[i].1 {
                        Some(u) => Some(reduced(fuel, u)),
                        None => None,
                    },
                )
            } else {
                arbitrary()
            },
    )
}

/// The application of `head` to the arguments `args[i..]`, not reduced further.
pub fn stick(head: Expr, args: &Vec<Expr>, i: usize) -> (res: Expr)
    requires
        i <= args@.len(),
    ensures
        res@ == stuck(head@, Expr::terms(args@).skip(i as int)),
{
    match head {
        Expr::App(g, mut gs) => {
            let ghost own = Expr::terms(gs@);
            let mut j: usize = i;
            assert(Expr::terms(gs@) =~= own + Expr::terms(args@).subrange(i as int, j as int));
            while j < args.len()
                invariant
                    i <= j <= args.len(),
                    Expr::terms(gs@) == own + Expr::terms(args@).subrange(i as int, j as int),
                decreases args.len() - j,
            {
                let ghost before = Expr::terms(gs@);
                gs.push(args[j].clone());
                assert(Expr::terms(gs@) =~= before.push(args@[j as int]@));
                j += 1;
                assert(Expr::terms(gs@) =~= own + Expr::terms(args@).subrange(i as int, j as int));
            }
            assert(Expr::terms(args@).subrange(i as int, j as int) =~= Expr::terms(args@).skip(
                i as int,
            ));
            Expr::App(g, gs)
        },
        other => Expr::App(Box::new(other), clone_suffix(args, i)),
    }
}

/// `head`, which is reduced, applied to the reduced arguments `args[i..]`.
pub fn apply_all(fuel: usize, head: Expr, args: &Vec<Expr>, i: usize) -> (res: Expr)
    ensures
        res@ == applied_all(fuel as nat, head@, Expr::terms(args@), i as int),
    decreases fuel, 0nat, head,
{
    assert(Expr::terms(args@).len() == args@.len());
    if i >= args.len() {
        return head;
    }
    assert(Expr::terms(args@)[i as int] == args@[i as int]@);
    if fuel > 0 {
        if let Expr::Lam(x, _, b) = &head {
            if let Some(body) = subst_shift(&V(x.clone(), 0), &args[i], b) {
                let next = reduce(fuel - 1, &body);
                return apply_all(fuel - 1, next, args, i + 1);
            }
        }
    }
    stick(head, args, i)
}

/// Reduces each expression of a list.
pub fn reduce_list(fuel: usize, list: &Vec<Expr>) -> (res: Vec<Expr>)
    ensures
        Expr::terms(res@) == reduced_terms(fuel as nat, Expr::terms(list@)),
    decreases fuel, 1nat, list,
{
    let mut out: Vec<Expr> = Vec::new();
    let mut i: usize = 0;
    while i < list.len()
        invariant
            i <= list.len(),
            out@.len() == i,
            forall|j: int|
                0 <= j < i ==> (#[trigger] out@[j])@ == reduced(fuel as nat, list@[j]@),
        decreases list.len() - i,
    {
        out.push(reduce(fuel, &list[i]));
        i += 1;
    }
    assert(Expr::terms(out@) =~= reduced_terms(fuel as nat, Expr::terms(list@)));
    out
}

/// Reduces the expression of each entry of a record.
pub fn reduce_record(fuel: usize, list: &Vec<(Label, Expr)>) -> (res: Vec<(Label, Expr)>)
    ensures
        Expr::fields(res@) == reduced_fields(fuel as nat, Expr::fields(list@)),
    decreases fuel, 1nat, list,
{
    let mut out: Vec<(Label, Expr)> = Vec::new();
    let mut i: usize = 0;
    while i < list.len()
        invariant
            i <= list.len(),
            out@.len() == i,
            forall|j: int|
                0 <= j < i ==> (#[trigger] out@[j]).0@ == list@[j].0@ && out@[j].1@ == reduced(
                    fuel as nat,
                    list@[j].1@,
                ),
        decreases list.len() - i,
    {
        out.push((list[i].0.clone(), reduce(fuel, &list[i].1)));
        i += 1;
    }
    assert(Expr::fields(out@) =~= reduced_fields(fuel as nat, Expr::fields(list@)));
    out
}

/// Reduces the payload of each alternative of a union.
pub fn reduce_union(fuel: usize, list: &Vec<(Label, Option<Expr>)>) -> (res: Vec<
    (Label, Option<Expr>),
>)
    ensures
        Expr::alternatives(res@) == reduced_alternatives(fuel as nat, Expr::alternatives(list@)),
    decreases fuel, 1nat, list,
{
    let mut out: Vec<(Label, Option<Expr>)> = Vec::new();
    let mut i: usize = 0;
    while i < list.len()
        invariant
            i <= list.len(),
            out@.len() == i,
            forall|j: int|
                0 <= j < i ==> (#[trigger] out@[j]).0@ == list@[j].0@ && Expr::optional(out@[j].1)
                    == (match Expr::optional(list@[j].1) {
                    Some(u) => Some(reduced(fuel as nat, u)),
                    None => None,
                }),
        decreases list.len() - i,
    {
        let payload = match &list[i].1 {
            Some(u) => Some(reduce(fuel, u)),
            None => None,
        };
        out.push((list[i].0.clone(), payload));
        i += 1;
    }
    assert(Expr::alternatives(out@) =~= reduced_alternatives(
        fuel as nat,
        Expr::alternatives(list@),
    ));
    out
}

/// The field `l` of the reduced expression `r`.
pub fn select(r: Expr, l: &Label) -> (res: Expr)
    ensures
        res@ == selected(r@, l@),
{
    if let Expr::RecordLit(kvs) = &r {
        if let Some(v) = find_field(kvs, l) {
            return v.clone();
        }
    }
    Expr::Field(Box::new(r), l.clone())
}

/// Reduces an expression with `fuel` units.
pub fn reduce(fuel: usize, e: &Expr) -> (res: Expr)
    ensures
        res@ == reduced(fuel as nat, e@),
    decreases fuel, 1nat, e,
{
    match e {
        Expr::Const(c) => Expr::Const(*c),
        Expr::Var(v) => Expr::Var(v.clone()),
        Expr::Lam(x, a, b) => Expr::Lam(
            x.clone(),
            Box::new(reduce(fuel, a)),
            Box::new(reduce(fuel, b)),
        ),
        Expr::Pi(x, a, b) => Expr::Pi(
            x.clone(),
            Box::new(reduce(fuel, a)),
            Box::new(reduce(fuel, b)),
        ),
        Expr::App(f, args) => {
            let head = reduce(fuel, f);
            let args2 = reduce_list(fuel, args);
            apply_all(fuel, head, &args2, 0)
        },
        Expr::Let(x, ty, r, b) => {
            if fuel > 0 {
                if let Some(body) = subst_shift(&V(x.clone(), 0), r, b) {
                    return reduce(fuel - 1, &body);
                }
            }
            let ty2 = match ty {
                Some(u) => Some(Box::new(reduce(fuel, u))),
                None => None,
            };
            Expr::Let(x.clone(), ty2, Box::new(reduce(fuel, r)), Box::new(reduce(fuel, b)))
        },
        Expr::Annot(x, _) => reduce(fuel, x),
        Expr::BoolIf(c, y, z) => {
            let c2 = reduce(fuel, c);
            match c2 {
                Expr::BoolLit(true) => reduce(fuel, y),
                Expr::BoolLit(false) => reduce(fuel, z),
                c2 => Expr::BoolIf(
                    Box::new(c2),
                    Box::new(reduce(fuel, y)),
                    Box::new(reduce(fuel, z)),
                ),
            }
        },
        Expr::EmptyListLit(u) => Expr::EmptyListLit(Box::new(reduce(fuel, u))),
        Expr::NEListLit(first, rest) => Expr::NEListLit(
            Box::new(reduce(fuel, first)),
            reduce_list(fuel, rest),
        ),
        Expr::EmptyOptionalLit(u) => Expr::EmptyOptionalLit(Box::new(reduce(fuel, u))),
        Expr::NEOptionalLit(x) => Expr::NEOptionalLit(Box::new(reduce(fuel, x))),
        Expr::RecordType(kts) => Expr::RecordType(reduce_record(fuel, kts)),
        Expr::RecordLit(kvs) => Expr::RecordLit(reduce_record(fuel, kvs)),
        Expr::UnionType(kts) => Expr::UnionType(reduce_union(fuel, kts)),
        Expr::Field(r, l) => select(reduce(fuel, r), l),
        Expr::Builtin(b) => Expr::Builtin(*b),
        Expr::BoolLit(b) => Expr::BoolLit(*b),
        Expr::NaturalLit(n) => Expr::NaturalLit(*n),
        Expr::IntegerLit(n) => Expr::IntegerLit(*n),
        Expr::DoubleLit(bits) => Expr::DoubleLit(*bits),
        Expr::TextLit(s) => Expr::TextLit(s.clone()),
        Expr::BinOp(o, l, r) => Expr::BinOp(
            *o,
            Box::new(reduce(fuel, l)),
            Box::new(reduce(fuel, r)),
        ),
    }
}

/// The normalizer that [`reduce`] is, with a fixed amount of fuel.
#[derive(Debug, Clone, Copy, PartialEq, Eq)]
pub struct Reducer {
    pub fuel: usize,
}

impl Normalizer for Reducer {
    open spec fn normal_form(&self, t: Term) -> Term {
        reduced(self.fuel as nat, t)
    }

    fn normalize(&self, e: &Expr) -> (res: Expr) {
        reduce(self.fuel, e)
    }
}

} // verus!
