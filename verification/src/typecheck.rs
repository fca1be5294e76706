//! Type synthesis: one rule for each form of term.

use crate::builtins::{builtin_type, type_of_builtin};
use crate::context::{insert_fits, insert_frames, lookup_frames, Context};
use crate::equiv::{alpha_eq, prop_equal};
use crate::error::{ErrorModel, Message, TypeError, TypeMessage};
use crate::normalize::Normalizer;
use crate::subst::{subst_shift, subst_shift_fits, subst_shifted};
use crate::syntax::{clone_prefix, BinOp, Builtin, Const, Expr, Label, Term, V};
use vstd::prelude::*;

verus! {

/// The error for the term `e`, checked below the frames `ctx`.
pub open spec fn failure(ctx: Seq<(Seq<char>, Term)>, e: Term, m: Message) -> ErrorModel {
    ErrorModel { context: ctx, current: e, message: m }
}

/// What a result of type synthesis says, as a mathematical value.
pub open spec fn outcome(r: Result<Expr, TypeError>) -> Result<Term, ErrorModel> {
    match r {
        Ok(t) => Ok(t@),
        Err(err) => Err(err@),
    }
}

/// The universe that a universe belongs to: `Type` belongs to `Kind`, and
/// `Kind` to none.
pub open spec fn universe_above(c: Const) -> Result<Const, ErrorModel> {
    match c {
        Const::Type => Ok(Const::Kind),
        Const::Kind => Err(failure(Seq::empty(), Term::Const(Const::Kind), Message::Untyped)),
    }
}

/// The universe of a function type whose input type is of universe `a` and
/// whose output type is of universe `b`. A function from a term to a type has
/// none.
pub open spec fn function_universe(a: Const, b: Const) -> Result<Const, ()> {
    match (a, b) {
        (Const::Type, Const::Kind) => Err(()),
        (Const::Kind, Const::Kind) => Ok(Const::Kind),
        (Const::Type, Const::Type) => Ok(Const::Type),
        (Const::Kind, Const::Type) => Ok(Const::Type),
    }
}

/// The built-in type that both operands of an operator must have, and that
/// its result has.
pub open spec fn operand_type(o: BinOp) -> Builtin {
    match o {
        BinOp::BoolAnd | BinOp::BoolOr | BinOp::BoolEQ | BinOp::BoolNE => Builtin::Bool,
        BinOp::NaturalPlus | BinOp::NaturalTimes => Builtin::Natural,
        BinOp::TextAppend => Builtin::Text,
    }
}

/// The type of the first entry named `x` among those from position `i` on.
pub open spec fn field_from(kts: Seq<(Seq<char>, Term)>, x: Seq<char>, i: int) -> Option<Term>
    decreases kts.len() - i,
{
    if i < 0 || i >= kts.len() {
        None
    } else if kts[i].0 == x {
        Some(kts[i].1)
    } else {
        field_from(kts, x, i + 1)
    }
}

/// The type of `e` below the frames `ctx`, or the first error on the way, as
/// found with the normalizer `norm` in at most `depth` nested judgements.
pub open spec fn typing<N: Normalizer>(
    norm: N,
    ctx: Seq<(Seq<char>, Term)>,
    e: Term,
    depth: nat,
) -> Result<Term, ErrorModel>
    decreases depth, 0nat, 0nat,
{
    if depth == 0 {
        Err(failure(ctx, e, Message::LimitExceeded))
    } else {
        let d = (depth - 1) as nat;
        match e {
            Term::Const(c) => match universe_above(c) {
                Ok(k) => Ok(Term::Const(k)),
                Err(err) => Err(err),
            },
            Term::Var(x, n) => match lookup_frames(ctx, x, n) {
                Some(t) => Ok(t),
                None => Err(failure(ctx, e, Message::UnboundVariable)),
            },
            Term::Lam(x, a, b) => typing_lam(norm, ctx, e, x, *a, *b, d),
            Term::Pi(x, a, b) => typing_pi(norm, ctx, e, x, *a, *b, d),
            Term::App(f, args) => typing_app(norm, ctx, e, *f, args, d),
            Term::Let(x, t, r, b) => typing_let(
                norm,
                ctx,
                e,
                x,
                match t {
                    Some(t) => Term::Annot(r, t),
                    None => *r,
                },
                *b,
                d,
            ),
            Term::Annot(x, t) => typing_annot(norm, ctx, e, *x, *t, d),
            Term::BoolIf(c, y, z) => typing_if(norm, ctx, e, *c, *y, *z, d),
            Term::EmptyListLit(t) => typing_empty(norm, ctx, e, Builtin::List, *t, d),
            Term::NEListLit(first, rest) => typing_list(norm, ctx, e, *first, rest, d),
            Term::EmptyOptionalLit(t) => typing_empty(norm, ctx, e, Builtin::Optional, *t, d),
            Term::NEOptionalLit(x) => typing_some(norm, ctx, e, *x, d),
            Term::RecordType(kts) => match fields_checked(norm, ctx, e, kts, 0, d) {
                Some(err) => Err(err),
                None => Ok(Term::Const(Const::Type)),
            },
            Term::RecordLit(kvs) => match field_types(norm, ctx, e, kvs, 0, Seq::empty(), d) {
                Err(err) => Err(err),
                Ok(kts) => Ok(Term::RecordType(kts)),
            },
            Term::UnionType(kts) => match alternatives_checked(norm, ctx, e, kts, 0, d) {
                Some(err) => Err(err),
                None => Ok(Term::Const(Const::Type)),
            },
            Term::Field(r, x) => typing_field(norm, ctx, e, *r, x, d),
            Term::Builtin(b) => Ok(builtin_type(b)),
            Term::BoolLit(_) => Ok(Term::Builtin(Builtin::Bool)),
            Term::NaturalLit(_) => Ok(Term::Builtin(Builtin::Natural)),
            Term::IntegerLit(_) => Ok(Term::Builtin(Builtin::Integer)),
            Term::DoubleLit(_) => Ok(Term::Builtin(Builtin::Double)),
            Term::TextLit(_) => Ok(Term::Builtin(Builtin::Text)),
            Term::BinOp(o, l, r) => typing_binop(norm, ctx, e, o, *l, *r, d),
        }
    }
}

/// The normal form of the type of `e`, or the first error on the way.
pub open spec fn normalized_typing<N: Normalizer>(
    norm: N,
    ctx: Seq<(Seq<char>, Term)>,
    e: Term,
    depth: nat,
) -> Result<Term, ErrorModel>
    decreases depth, 1nat, 0nat,
{
    match typing(norm, ctx, e, depth) {
        Ok(t) => Ok(norm.normal_form(t)),
        Err(err) => Err(err),
    }
}

/// Holds `t` to be a type of terms: `None` where the normal form of its type
/// is `Type`; else the error found in typing `t`, or the error `m` for `e`.
pub open spec fn checked_type<N: Normalizer>(
    norm: N,
    ctx: Seq<(Seq<char>, Term)>,
    e: Term,
    t: Term,
    m: Message,
    depth: nat,
) -> Option<ErrorModel>
    decreases depth, 2nat, 0nat,
{
    match normalized_typing(norm, ctx, t, depth) {
        Err(err) => Some(err),
        Ok(s) => if s == Term::Const(Const::Type) {
            None
        } else {
            Some(failure(ctx, e, m))
        },
    }
}

/// A function `fun (x : a) -> b`: its type is `forall (x : a) -> tb` for the
/// type `tb` of `b` below the binder, and that function type must itself have
/// a type.
pub open spec fn typing_lam<N: Normalizer>(
    norm: N,
    ctx: Seq<(Seq<char>, Term)>,
    e: Term,
    x: Seq<char>,
    a: Term,
    b: Term,
    depth: nat,
) -> Result<Term, ErrorModel>
    decreases depth, 3nat, 0nat,
{
    if !insert_fits(ctx, x, a) {
        Err(failure(ctx, e, Message::LimitExceeded))
    } else {
        match typing(norm, insert_frames(ctx, x, a), b, depth) {
            Err(err) => Err(err),
            Ok(tb) => {
                let p = Term::Pi(x, Box::new(a), Box::new(tb));
                match typing(norm, ctx, p, depth) {
                    Err(err) => Err(err),
                    Ok(_) => Ok(p),
                }
            },
        }
    }
}

/// A function type `forall (x : a) -> b`: the types of `a` and of `b` must be
/// universes that a function type may join, and its type is that of `b`.
pub open spec fn typing_pi<N: Normalizer>(
    norm: N,
    ctx: Seq<(Seq<char>, Term)>,
    e: Term,
    x: Seq<char>,
    a: Term,
    b: Term,
    depth: nat,
) -> Result<Term, ErrorModel>
    decreases depth, 3nat, 0nat,
{
    match normalized_typing(norm, ctx, a, depth) {
        Err(err) => Err(err),
        Ok(ta) => match ta {
            Term::Const(ka) => if !insert_fits(ctx, x, a) {
                Err(failure(ctx, e, Message::LimitExceeded))
            } else {
                match normalized_typing(norm, insert_frames(ctx, x, a), b, depth) {
                    Err(err) => Err(err),
                    Ok(tb) => match tb {
                        Term::Const(kb) => match function_universe(ka, kb) {
                            Err(_) => Err(failure(ctx, e, Message::NoDependentTypes(a, tb))),
                            Ok(_) => Ok(Term::Const(kb)),
                        },
                        _ => Err(
                            failure(insert_frames(ctx, x, a), e, Message::InvalidOutputType(tb)),
                        ),
                    },
                }
            },
            _ => Err(failure(ctx, e, Message::InvalidInputType(a))),
        },
    }
}

/// An application of `f` to `args`. Without arguments it is `f`. Else the
/// type of `f` applied to all but the last argument must be a function type
/// whose input type is equivalent to the type of the last argument, and the
/// type is its output type with that argument for the bound variable.
pub open spec fn typing_app<N: Normalizer>(
    norm: N,
    ctx: Seq<(Seq<char>, Term)>,
    e: Term,
    f: Term,
    args: Seq<Term>,
    depth: nat,
) -> Result<Term, ErrorModel>
    decreases depth, 3nat, 0nat,
{
    if args.len() == 0 {
        typing(norm, ctx, f, depth)
    } else {
        let a = args.last();
        match normalized_typing(norm, ctx, Term::App(Box::new(f), args.drop_last()), depth) {
            Err(err) => Err(err),
            Ok(tf) => match tf {
                Term::Pi(x, ta, tb) => match normalized_typing(norm, ctx, a, depth) {
                    Err(err) => Err(err),
                    Ok(ta2) => applied_type(ctx, e, f, x, norm.normal_form(*ta), *tb, a, ta2),
                },
                _ => Err(failure(ctx, e, Message::NotAFunction(f, tf))),
            },
        }
    }
}

/// The type of the application `e` of `f` to a last argument `a` of type
/// `ta2`, where what `f` is applied to has the type `forall (x : ta) -> tb`.
pub open spec fn applied_type(
    ctx: Seq<(Seq<char>, Term)>,
    e: Term,
    f: Term,
    x: Seq<char>,
    ta: Term,
    tb: Term,
    a: Term,
    ta2: Term,
) -> Result<Term, ErrorModel> {
    if !alpha_eq(Seq::empty(), ta, ta2) {
        Err(failure(ctx, e, Message::TypeMismatch(f, ta, a, ta2)))
    } else if !subst_shift_fits(x, 0, a, tb) {
        Err(failure(ctx, e, Message::LimitExceeded))
    } else {
        Ok(subst_shifted(x, 0, a, tb))
    }
}

/// A definition `let x = r in b`, where `r` carries the annotation if there
/// is one: the type of `r` and the type of `b` below the binder must be of
/// universes that a function type may join, and the type is that of `b`.
pub open spec fn typing_let<N: Normalizer>(
    norm: N,
    ctx: Seq<(Seq<char>, Term)>,
    e: Term,
    x: Seq<char>,
    r: Term,
    b: Term,
    depth: nat,
) -> Result<Term, ErrorModel>
    decreases depth, 3nat, 0nat,
{
    match typing(norm, ctx, r, depth) {
        Err(err) => Err(err),
        Ok(tr) => match normalized_typing(norm, ctx, tr, depth) {
            Err(err) => Err(err),
            Ok(ttr) => match ttr {
                Term::Const(kr) => if !insert_fits(ctx, x, tr) {
                    Err(failure(ctx, e, Message::LimitExceeded))
                } else {
                    match typing(norm, insert_frames(ctx, x, tr), b, depth) {
                        Err(err) => Err(err),
                        Ok(tb) => match normalized_typing(norm, ctx, tb, depth) {
                            Err(err) => Err(err),
                            Ok(ttb) => match ttb {
                                Term::Const(kb) => match function_universe(kr, kb) {
                                    Err(_) => Err(
                                        failure(ctx, e, Message::NoDependentLet(tr, tb)),
                                    ),
                                    Ok(_) => Ok(tb),
                                },
                                _ => Err(failure(ctx, e, Message::InvalidOutputType(tb))),
                            },
                        },
                    }
                },
                _ => Err(failure(ctx, e, Message::InvalidInputType(tr))),
            },
        },
    }
}

/// An annotated term `x : t`: `t` must have a type, and its normal form must
/// be equivalent to the type of `x`; that normal form is the type.
pub open spec fn typing_annot<N: Normalizer>(
    norm: N,
    ctx: Seq<(Seq<char>, Term)>,
    e: Term,
    x: Term,
    t: Term,
    depth: nat,
) -> Result<Term, ErrorModel>
    decreases depth, 3nat, 0nat,
{
    match typing(norm, ctx, t, depth) {
        Err(err) => Err(err),
        Ok(_) => match normalized_typing(norm, ctx, x, depth) {
            Err(err) => Err(err),
            Ok(t2) => if alpha_eq(Seq::empty(), norm.normal_form(t), t2) {
                Ok(norm.normal_form(t))
            } else {
                Err(failure(ctx, e, Message::AnnotMismatch(x, norm.normal_form(t), t2)))
            },
        },
    }
}

/// The type of a branch `y` of the conditional `e`, which must be a type of terms.
pub open spec fn typing_branch<N: Normalizer>(
    norm: N,
    ctx: Seq<(Seq<char>, Term)>,
    e: Term,
    first: bool,
    y: Term,
    depth: nat,
) -> Result<Term, ErrorModel>
    decreases depth, 2nat, 0nat,
{
    match normalized_typing(norm, ctx, y, depth) {
        Err(err) => Err(err),
        Ok(ty) => match normalized_typing(norm, ctx, ty, depth) {
            Err(err) => Err(err),
            Ok(tty) => if tty == Term::Const(Const::Type) {
                Ok(ty)
            } else {
                Err(failure(ctx, e, Message::IfBranchMustBeTerm(first, y, ty, tty)))
            },
        },
    }
}

/// A conditional `if c then y else z`: `c` must be a `Bool`, and the branches
/// terms of equivalent types; the type is that of the first branch.
pub open spec fn typing_if<N: Normalizer>(
    norm: N,
    ctx: Seq<(Seq<char>, Term)>,
    e: Term,
    c: Term,
    y: Term,
    z: Term,
    depth: nat,
) -> Result<Term, ErrorModel>
    decreases depth, 3nat, 0nat,
{
    match normalized_typing(norm, ctx, c, depth) {
        Err(err) => Err(err),
        Ok(tc) => if tc != Term::Builtin(Builtin::Bool) {
            Err(failure(ctx, e, Message::InvalidPredicate(c, tc)))
        } else {
            match typing_branch(norm, ctx, e, true, y, depth) {
                Err(err) => Err(err),
                Ok(ty) => match typing_branch(norm, ctx, e, false, z, depth) {
                    Err(err) => Err(err),
                    Ok(tz) => if alpha_eq(Seq::empty(), ty, tz) {
                        Ok(ty)
                    } else {
                        Err(failure(ctx, e, Message::IfBranchMismatch(y, z, ty, tz)))
                    },
                },
            }
        },
    }
}

/// The error for an element type `t` that is no type of terms, for a list or
/// for an optional value.
pub open spec fn invalid_element_type(container: Builtin, t: Term) -> Message {
    if container == Builtin::List {
        Message::InvalidListType(t)
    } else {
        Message::InvalidOptionalType(t)
    }
}

/// An empty list or an absent optional value with the element type `t`, which
/// must be a type of terms: the type is the container applied to the normal
/// form of `t`.
pub open spec fn typing_empty<N: Normalizer>(
    norm: N,
    ctx: Seq<(Seq<char>, Term)>,
    e: Term,
    container: Builtin,
    t: Term,
    depth: nat,
) -> Result<Term, ErrorModel>
    decreases depth, 3nat, 0nat,
{
    match checked_type(norm, ctx, e, t, invalid_element_type(container, t), depth) {
        Some(err) => Err(err),
        None => Ok(Term::applied(Term::Builtin(container), norm.normal_form(t))),
    }
}

/// A present optional value `x`, whose type must be a type of terms.
pub open spec fn typing_some<N: Normalizer>(
    norm: N,
    ctx: Seq<(Seq<char>, Term)>,
    e: Term,
    x: Term,
    depth: nat,
) -> Result<Term, ErrorModel>
    decreases depth, 3nat, 0nat,
{
    match typing(norm, ctx, x, depth) {
        Err(err) => Err(err),
        Ok(t) => match checked_type(norm, ctx, e, t, Message::InvalidOptionalType(t), depth) {
            Some(err) => Err(err),
            None => Ok(Term::optional_of(norm.normal_form(t))),
        },
    }
}

/// The first error among the elements of `rest` from position `i` on, where
/// `rest` holds the elements of a list after its first: each must have a type
/// equivalent to `t`. The element `rest[i]` stands at position `i + 1` of the
/// list.
pub open spec fn elements_checked<N: Normalizer>(
    norm: N,
    ctx: Seq<(Seq<char>, Term)>,
    e: Term,
    t: Term,
    rest: Seq<Term>,
    i: nat,
    depth: nat,
) -> Option<ErrorModel>
    decreases depth, 2nat, rest.len() - i,
{
    if i >= rest.len() {
        None
    } else {
        match normalized_typing(norm, ctx, rest[i as int], depth) {
            Err(err) => Some(err),
            Ok(t2) => if alpha_eq(Seq::empty(), t, t2) {
                elements_checked(norm, ctx, e, t, rest, i + 1, depth)
            } else {
                Some(failure(ctx, e, Message::InvalidListElement(i as int + 1, t, rest[i as int], t2)))
            },
        }
    }
}

/// A list of `first` and `rest`: the type of `first` must be a type of terms,
/// and every other element must have a type equivalent to its normal form.
pub open spec fn typing_list<N: Normalizer>(
    norm: N,
    ctx: Seq<(Seq<char>, Term)>,
    e: Term,
    first: Term,
    rest: Seq<Term>,
    depth: nat,
) -> Result<Term, ErrorModel>
    decreases depth, 3nat, 0nat,
{
    match typing(norm, ctx, first, depth) {
        Err(err) => Err(err),
        Ok(t) => match checked_type(norm, ctx, e, t, Message::InvalidListType(t), depth) {
            Some(err) => Err(err),
            None => match elements_checked(norm, ctx, e, norm.normal_form(t), rest, 0, depth) {
                Some(err) => Err(err),
                None => Ok(Term::list_of(norm.normal_form(t))),
            },
        },
    }
}

/// The first error among the fields of a record type from position `i` on:
/// the type of each must be a type of terms.
pub open spec fn fields_checked<N: Normalizer>(
    norm: N,
    ctx: Seq<(Seq<char>, Term)>,
    e: Term,
    kts: Seq<(Seq<char>, Term)>,
    i: nat,
    depth: nat,
) -> Option<ErrorModel>
    decreases depth, 2nat, kts.len() - i,
{
    if i >= kts.len() {
        None
    } else {
        match checked_type(
            norm,
            ctx,
            e,
            kts[i as int].1,
            Message::InvalidFieldType(kts[i as int].0, kts[i as int].1),
            depth,
        ) {
            Some(err) => Some(err),
            None => fields_checked(norm, ctx, e, kts, i + 1, depth),
        }
    }
}

/// The first error among the alternatives of a union type from position `i`
/// on: the payload type of each that has one must be a type of terms.
pub open spec fn alternatives_checked<N: Normalizer>(
    norm: N,
    ctx: Seq<(Seq<char>, Term)>,
    e: Term,
    kts: Seq<(Seq<char>, Option<Term>)>,
    i: nat,
    depth: nat,
) -> Option<ErrorModel>
    decreases depth, 2nat, kts.len() - i,
{
    if i >= kts.len() {
        None
    } else {
        match (match kts[i as int].1 {
            Some(t) => checked_type(
                norm,
                ctx,
                e,
                t,
                Message::InvalidAlternativeType(kts[i as int].0, t),
                depth,
            ),
            None => None,
        }) {
            Some(err) => Some(err),
            None => alternatives_checked(norm, ctx, e, kts, i + 1, depth),
        }
    }
}

/// The fields of the type of a record literal: `done`, the types of the
/// fields before position `i`, followed by the types of the fields from `i`
/// on, each of which must be a type of terms; or the first error among these.
pub open spec fn field_types<N: Normalizer>(
    norm: N,
    ctx: Seq<(Seq<char>, Term)>,
    e: Term,
    kvs: Seq<(Seq<char>, Term)>,
    i: nat,
    done: Seq<(Seq<char>, Term)>,
    depth: nat,
) -> Result<Seq<(Seq<char>, Term)>, ErrorModel>
    decreases depth, 2nat, kvs.len() - i,
{
    if i >= kvs.len() {
        Ok(done)
    } else {
        match typing(norm, ctx, kvs[i as int].1, depth) {
            Err(err) => Err(err),
            Ok(t) => match checked_type(
                norm,
                ctx,
                e,
                t,
                Message::InvalidField(kvs[i as int].0, kvs[i as int].1),
                depth,
            ) {
                Some(err) => Err(err),
                None => field_types(
                    norm,
                    ctx,
                    e,
                    kvs,
                    i + 1,
                    done.push((kvs[i as int].0, t)),
                    depth,
                ),
            },
        }
    }
}

/// A selection `r.x`: the type of `r` must be a record type with a field `x`,
/// whose type is the type.
pub open spec fn typing_field<N: Normalizer>(
    norm: N,
    ctx: Seq<(Seq<char>, Term)>,
    e: Term,
    r: Term,
    x: Seq<char>,
    depth: nat,
) -> Result<Term, ErrorModel>
    decreases depth, 3nat, 0nat,
{
    match normalized_typing(norm, ctx, r, depth) {
        Err(err) => Err(err),
        Ok(t) => match t {
            Term::RecordType(kts) => match field_from(kts, x, 0) {
                Some(ft) => Ok(ft),
                None => Err(failure(ctx, e, Message::MissingField(x, t))),
            },
            _ => Err(failure(ctx, e, Message::NotARecord(x, r, t))),
        },
    }
}

/// An operator `o` on `l` and `r`: both must have the built-in type that the
/// operator takes, which is also the type.
pub open spec fn typing_binop<N: Normalizer>(
    norm: N,
    ctx: Seq<(Seq<char>, Term)>,
    e: Term,
    o: BinOp,
    l: Term,
    r: Term,
    depth: nat,
) -> Result<Term, ErrorModel>
    decreases depth, 3nat, 0nat,
{
    match normalized_typing(norm, ctx, l, depth) {
        Err(err) => Err(err),
        Ok(tl) => if tl != Term::Builtin(operand_type(o)) {
            Err(failure(ctx, e, Message::BinOpTypeMismatch(o, l, tl)))
        } else {
            match normalized_typing(norm, ctx, r, depth) {
                Err(err) => Err(err),
                Ok(tr) => if tr != Term::Builtin(operand_type(o)) {
                    Err(failure(ctx, e, Message::BinOpTypeMismatch(o, r, tr)))
                } else {
                    Ok(Term::Builtin(operand_type(o)))
                },
            }
        },
    }
}


/// What a check without a result says, as a mathematical value: the error, if there is one.
pub open spec fn raised(r: Result<(), TypeError>) -> Option<ErrorModel> {
    match r {
        Ok(_) => None,
        Err(err) => Some(err@),
    }
}

/// The error `m` for the term `e`, checked in `ctx`.
pub fn error_at(ctx: &Context, e: &Expr, m: TypeMessage) -> (res: TypeError)
    ensures
        res@ == failure(ctx@, e@, m@),
{
    TypeError::new(ctx, e.clone(), m)
}

/// The universe that a universe belongs to. `Kind` belongs to none: for it
/// the error `Untyped` is returned, with an empty context.
pub fn universe_of(c: Const) -> (res: Result<Const, TypeError>)
    ensures
        match res {
            Ok(k) => universe_above(c) == Ok::<Const, ErrorModel>(k),
            Err(err) => universe_above(c) == Err::<Const, ErrorModel>(err@),
        },
{
    match c {
        Const::Type => Ok(Const::Kind),
        Const::Kind => Err(
            TypeError::new(&Context::new(), Expr::Const(Const::Kind), TypeMessage::Untyped),
        ),
    }
}

/// The universe of a function type from a type of universe `a` to a type of
/// universe `b`; an error for a function from a term to a type.
pub fn rule(a: Const, b: Const) -> (res: Result<Const, ()>)
    ensures
        res == function_universe(a, b),
{
    match (a, b) {
        (Const::Type, Const::Kind) => Err(()),
        (Const::Kind, Const::Kind) => Ok(Const::Kind),
        (Const::Type, Const::Type) => Ok(Const::Type),
        (Const::Kind, Const::Type) => Ok(Const::Type),
    }
}

/// The built-in type that the operands and the result of an operator have.
pub fn operand_builtin(o: BinOp) -> (res: Builtin)
    ensures
        res == operand_type(o),
{
    match o {
        BinOp::BoolAnd | BinOp::BoolOr | BinOp::BoolEQ | BinOp::BoolNE => Builtin::Bool,
        BinOp::NaturalPlus | BinOp::NaturalTimes => Builtin::Natural,
        BinOp::TextAppend => Builtin::Text,
    }
}

/// The type of the first field named `x` of a record type with the fields `kts`.
pub fn find_field<'a>(kts: &'a Vec<(Label, Expr)>, x: &Label) -> (res: Option<&'a Expr>)
    ensures
        res is Some <==> field_from(Expr::fields(kts@), x@, 0) is Some,
        res matches Some(t) ==> Some(t@) == field_from(Expr::fields(kts@), x@, 0),
{
    let mut i: usize = 0;
    while i < kts.len()
        invariant
            i <= kts.len(),
            field_from(Expr::fields(kts@), x@, 0) == field_from(Expr::fields(kts@), x@, i as int),
        decreases kts.len() - i,
    {
        if kts[i].0.same(x) {
            return Some(&kts[i].1);
        }
        i += 1;
    }
    None
}

/// The type of the application `e` of `f` to a last argument `a` of type
/// `ta2`, where what `f` is applied to has the type `forall (x : ta) -> tb`:
/// `ta` and `ta2`, both in normal form, must be equivalent.
pub fn applied(
    ctx: &Context,
    e: &Expr,
    f: &Expr,
    x: &Label,
    ta: Expr,
    tb: &Expr,
    a: &Expr,
    ta2: Expr,
) -> (res: Result<Expr, TypeError>)
    ensures
        outcome(res) == applied_type(ctx@, e@, f@, x@, ta@, tb@, a@, ta2@),
{
    if !prop_equal(&ta, &ta2) {
        return Err(error_at(ctx, e, TypeMessage::TypeMismatch(f.clone(), ta, a.clone(), ta2)));
    }
    match subst_shift(&V(x.clone(), 0), a, tb) {
        Some(t) => Ok(t),
        None => Err(error_at(ctx, e, TypeMessage::LimitExceeded)),
    }
}

/// Checks a term and returns its type, or the first error on the way.
///
/// The type is not brought to normal form. `depth` bounds how many judgements
/// may be nested: where it is used up, or where an index leaves the range of
/// `usize`, the error is `LimitExceeded`.
pub fn type_with<N: Normalizer>(norm: &N, ctx: &Context, e: &Expr, depth: usize) -> (res: Result<
    Expr,
    TypeError,
>)
    ensures
        outcome(res) == typing(*norm, ctx@, e@, depth as nat),
    decreases depth, 0nat, 0nat,
{
    if depth == 0 {
        return Err(error_at(ctx, e, TypeMessage::LimitExceeded));
    }
    let d: usize = depth - 1;
    match e {
        Expr::Const(c) => match universe_of(*c) {
            Ok(k) => Ok(Expr::Const(k)),
            Err(err) => Err(err),
        },
        Expr::Var(v) => match ctx.lookup(&v.0, v.1) {
            Some(t) => Ok(t.clone()),
            None => Err(error_at(ctx, e, TypeMessage::UnboundVariable)),
        },
        Expr::Lam(x, a, b) => type_lam(norm, ctx, e, x, a, b, d),
        Expr::Pi(x, a, b) => type_pi(norm, ctx, e, x, a, b, d),
        Expr::App(f, args) => type_app(norm, ctx, e, f, args, d),
        Expr::Let(x, t, r, b) => {
            let bound = match t {
                Some(t) => Expr::Annot(Box::new((&**r).clone()), Box::new((&**t).clone())),
                None => (&**r).clone(),
            };
            type_let(norm, ctx, e, x, &bound, b, d)
        },
        Expr::Annot(x, t) => type_annot(norm, ctx, e, x, t, d),
        Expr::BoolIf(c, y, z) => type_if(norm, ctx, e, c, y, z, d),
        Expr::EmptyListLit(t) => type_empty(norm, ctx, e, Builtin::List, t, d),
        Expr::NEListLit(first, rest) => type_list(norm, ctx, e, first, rest, d),
        Expr::EmptyOptionalLit(t) => type_empty(norm, ctx, e, Builtin::Optional, t, d),
        Expr::NEOptionalLit(x) => type_some(norm, ctx, e, x, d),
        Expr::RecordType(kts) => match check_fields(norm, ctx, e, kts, d) {
            Err(err) => Err(err),
            Ok(_) => Ok(Expr::Const(Const::Type)),
        },
        Expr::RecordLit(kvs) => match type_fields(norm, ctx, e, kvs, d) {
            Err(err) => Err(err),
            Ok(kts) => Ok(Expr::RecordType(kts)),
        },
        Expr::UnionType(kts) => match check_alternatives(norm, ctx, e, kts, d) {
            Err(err) => Err(err),
            Ok(_) => Ok(Expr::Const(Const::Type)),
        },
        Expr::Field(r, x) => type_field(norm, ctx, e, r, x, d),
        Expr::Builtin(b) => Ok(type_of_builtin(*b)),
        Expr::BoolLit(_) => Ok(Expr::Builtin(Builtin::Bool)),
        Expr::NaturalLit(_) => Ok(Expr::Builtin(Builtin::Natural)),
        Expr::IntegerLit(_) => Ok(Expr::Builtin(Builtin::Integer)),
        Expr::DoubleLit(_) => Ok(Expr::Builtin(Builtin::Double)),
        Expr::TextLit(_) => Ok(Expr::Builtin(Builtin::Text)),
        Expr::BinOp(o, l, r) => type_binop(norm, ctx, e, *o, l, r, d),
    }
}

/// Checks a term and returns the normal form of its type, or the first error
/// on the way.
pub fn normalized_type_with<N: Normalizer>(norm: &N, ctx: &Context, e: &Expr, depth: usize) -> (res:
    Result<Expr, TypeError>)
    ensures
        outcome(res) == normalized_typing(*norm, ctx@, e@, depth as nat),
    decreases depth, 1nat, 0nat,
{
    match type_with(norm, ctx, e, depth) {
        Ok(t) => Ok(norm.normalize(&t)),
        Err(err) => Err(err),
    }
}

/// Checks a closed term: [`type_with`] in the context without binders.
pub fn type_of<N: Normalizer>(norm: &N, e: &Expr, depth: usize) -> (res: Result<Expr, TypeError>)
    ensures
        outcome(res) == typing(*norm, Seq::empty(), e@, depth as nat),
{
    let ctx = Context::new();
    type_with(norm, &ctx, e, depth)
}

/// Holds `t` to be a type of terms: the normal form of its type must be
/// `Type`, else the error is `m`, for `e`.
pub fn ensure_type<N: Normalizer>(
    norm: &N,
    ctx: &Context,
    e: &Expr,
    t: &Expr,
    m: TypeMessage,
    depth: usize,
) -> (res: Result<(), TypeError>)
    ensures
        raised(res) == checked_type(*norm, ctx@, e@, t@, m@, depth as nat),
    decreases depth, 2nat, 0nat,
{
    match normalized_type_with(norm, ctx, t, depth) {
        Err(err) => Err(err),
        Ok(s) => match s {
            Expr::Const(Const::Type) => Ok(()),
            _ => Err(error_at(ctx, e, m)),
        },
    }
}

fn type_lam<N: Normalizer>(
    norm: &N,
    ctx: &Context,
    e: &Expr,
    x: &Label,
    a: &Expr,
    b: &Expr,
    depth: usize,
) -> (res: Result<Expr, TypeError>)
    ensures
        outcome(res) == typing_lam(*norm, ctx@, e@, x@, a@, b@, depth as nat),
    decreases depth, 3nat, 0nat,
{
    let ctx2 = match ctx.insert(x.clone(), a.clone()) {
        Some(c) => c,
        None => {
            return Err(error_at(ctx, e, TypeMessage::LimitExceeded));
        },
    };
    let tb = match type_with(norm, &ctx2, b, depth) {
        Ok(t) => t,
        Err(err) => {
            return Err(err);
        },
    };
    let p = Expr::Pi(x.clone(), Box::new(a.clone()), Box::new(tb));
    match type_with(norm, ctx, &p, depth) {
        Ok(_) => Ok(p),
        Err(err) => Err(err),
    }
}

fn type_pi<N: Normalizer>(
    norm: &N,
    ctx: &Context,
    e: &Expr,
    x: &Label,
    a: &Expr,
    b: &Expr,
    depth: usize,
) -> (res: Result<Expr, TypeError>)
    ensures
        outcome(res) == typing_pi(*norm, ctx@, e@, x@, a@, b@, depth as nat),
    decreases depth, 3nat, 0nat,
{
    let ta = match normalized_type_with(norm, ctx, a, depth) {
        Ok(t) => t,
        Err(err) => {
            return Err(err);
        },
    };
    let ka = match ta {
        Expr::Const(k) => k,
        _ => {
            return Err(error_at(ctx, e, TypeMessage::InvalidInputType(a.clone())));
        },
    };
    let ctx2 = match ctx.insert(x.clone(), a.clone()) {
        Some(c) => c,
        None => {
            return Err(error_at(ctx, e, TypeMessage::LimitExceeded));
        },
    };
    let tb = match normalized_type_with(norm, &ctx2, b, depth) {
        Ok(t) => t,
        Err(err) => {
            return Err(err);
        },
    };
    let kb = match tb {
        Expr::Const(k) => k,
        _ => {
            return Err(error_at(&ctx2, e, TypeMessage::InvalidOutputType(tb)));
        },
    };
    match rule(ka, kb) {
        Err(_) => Err(error_at(ctx, e, TypeMessage::NoDependentTypes(a.clone(), tb))),
        Ok(_) => Ok(Expr::Const(kb)),
    }
}

fn type_app<N: Normalizer>(
    norm: &N,
    ctx: &Context,
    e: &Expr,
    f: &Expr,
    args: &Vec<Expr>,
    depth: usize,
) -> (res: Result<Expr, TypeError>)
    ensures
        outcome(res) == typing_app(*norm, ctx@, e@, f@, Expr::terms(args@), depth as nat),
    decreases depth, 3nat, 0nat,
{
    let n = args.len();
    assert(Expr::terms(args@).len() == n);
    if n == 0 {
        return type_with(norm, ctx, f, depth);
    }
    let a = &args[n - 1];
    let init = Expr::App(Box::new(f.clone()), clone_prefix(args, n - 1));
    assert(Expr::terms(args@).take(n - 1) =~= Expr::terms(args@).drop_last());
    assert(a@ == Expr::terms(args@).last());
    let tf = match normalized_type_with(norm, ctx, &init, depth) {
        Ok(t) => t,
        Err(err) => {
            return Err(err);
        },
    };
    if let Expr::Pi(x, ta, tb) = &tf {
        let ta1 = norm.normalize(ta);
        let ta2 = match normalized_type_with(norm, ctx, a, depth) {
            Ok(t) => t,
            Err(err) => {
                return Err(err);
            },
        };
        return applied(ctx, e, f, x, ta1, tb, a, ta2);
    }
    Err(error_at(ctx, e, TypeMessage::NotAFunction(f.clone(), tf)))
}

fn type_let<N: Normalizer>(
    norm: &N,
    ctx: &Context,
    e: &Expr,
    x: &Label,
    r: &Expr,
    b: &Expr,
    depth: usize,
) -> (res: Result<Expr, TypeError>)
    ensures
        outcome(res) == typing_let(*norm, ctx@, e@, x@, r@, b@, depth as nat),
    decreases depth, 3nat, 0nat,
{
    let tr = match type_with(norm, ctx, r, depth) {
        Ok(t) => t,
        Err(err) => {
            return Err(err);
        },
    };
    let ttr = match normalized_type_with(norm, ctx, &tr, depth) {
        Ok(t) => t,
        Err(err) => {
            return Err(err);
        },
    };
    let kr = match ttr {
        Expr::Const(k) => k,
        _ => {
            return Err(error_at(ctx, e, TypeMessage::InvalidInputType(tr)));
        },
    };
    let ctx2 = match ctx.insert(x.clone(), tr.clone()) {
        Some(c) => c,
        None => {
            return Err(error_at(ctx, e, TypeMessage::LimitExceeded));
        },
    };
    let tb = match type_with(norm, &ctx2, b, depth) {
        Ok(t) => t,
        Err(err) => {
            return Err(err);
        },
    };
    let ttb = match normalized_type_with(norm, ctx, &tb, depth) {
        Ok(t) => t,
        Err(err) => {
            return Err(err);
        },
    };
    let kb = match ttb {
        Expr::Const(k) => k,
        _ => {
            return Err(error_at(ctx, e, TypeMessage::InvalidOutputType(tb)));
        },
    };
    match rule(kr, kb) {
        Err(_) => Err(error_at(ctx, e, TypeMessage::NoDependentLet(tr, tb))),
        Ok(_) => Ok(tb),
    }
}

fn type_annot<N: Normalizer>(
    norm: &N,
    ctx: &Context,
    e: &Expr,
    x: &Expr,
    t: &Expr,
    depth: usize,
) -> (res: Result<Expr, TypeError>)
    ensures
        outcome(res) == typing_annot(*norm, ctx@, e@, x@, t@, depth as nat),
    decreases depth, 3nat, 0nat,
{
    match type_with(norm, ctx, t, depth) {
        Ok(_) => {},
        Err(err) => {
            return Err(err);
        },
    }
    let t2 = match normalized_type_with(norm, ctx, x, depth) {
        Ok(t) => t,
        Err(err) => {
            return Err(err);
        },
    };
    let t1 = norm.normalize(t);
    if prop_equal(&t1, &t2) {
        Ok(t1)
    } else {
        Err(error_at(ctx, e, TypeMessage::AnnotMismatch(x.clone(), t1, t2)))
    }
}

fn type_branch<N: Normalizer>(
    norm: &N,
    ctx: &Context,
    e: &Expr,
    first: bool,
    y: &Expr,
    depth: usize,
) -> (res: Result<Expr, TypeError>)
    ensures
        outcome(res) == typing_branch(*norm, ctx@, e@, first, y@, depth as nat),
    decreases depth, 2nat, 0nat,
{
    let ty = match normalized_type_with(norm, ctx, y, depth) {
        Ok(t) => t,
        Err(err) => {
            return Err(err);
        },
    };
    let tty = match normalized_type_with(norm, ctx, &ty, depth) {
        Ok(t) => t,
        Err(err) => {
            return Err(err);
        },
    };
    match tty {
        Expr::Const(Const::Type) => Ok(ty),
        _ => Err(error_at(ctx, e, TypeMessage::IfBranchMustBeTerm(first, y.clone(), ty, tty))),
    }
}

fn type_if<N: Normalizer>(
    norm: &N,
    ctx: &Context,
    e: &Expr,
    c: &Expr,
    y: &Expr,
    z: &Expr,
    depth: usize,
) -> (res: Result<Expr, TypeError>)
    ensures
        outcome(res) == typing_if(*norm, ctx@, e@, c@, y@, z@, depth as nat),
    decreases depth, 3nat, 0nat,
{
    let tc = match normalized_type_with(norm, ctx, c, depth) {
        Ok(t) => t,
        Err(err) => {
            return Err(err);
        },
    };
    match tc {
        Expr::Builtin(Builtin::Bool) => {},
        _ => {
            return Err(error_at(ctx, e, TypeMessage::InvalidPredicate(c.clone(), tc)));
        },
    }
    let ty = match type_branch(norm, ctx, e, true, y, depth) {
        Ok(t) => t,
        Err(err) => {
            return Err(err);
        },
    };
    let tz = match type_branch(norm, ctx, e, false, z, depth) {
        Ok(t) => t,
        Err(err) => {
            return Err(err);
        },
    };
    if prop_equal(&ty, &tz) {
        Ok(ty)
    } else {
        Err(error_at(ctx, e, TypeMessage::IfBranchMismatch(y.clone(), z.clone(), ty, tz)))
    }
}

fn type_empty<N: Normalizer>(
    norm: &N,
    ctx: &Context,
    e: &Expr,
    container: Builtin,
    t: &Expr,
    depth: usize,
) -> (res: Result<Expr, TypeError>)
    ensures
        outcome(res) == typing_empty(*norm, ctx@, e@, container, t@, depth as nat),
    decreases depth, 3nat, 0nat,
{
    let m = match container {
        Builtin::List => TypeMessage::InvalidListType(t.clone()),
        _ => TypeMessage::InvalidOptionalType(t.clone()),
    };
    match ensure_type(norm, ctx, e, t, m, depth) {
        Err(err) => Err(err),
        Ok(_) => Ok(Expr::applied(Expr::Builtin(container), norm.normalize(t))),
    }
}

fn type_some<N: Normalizer>(norm: &N, ctx: &Context, e: &Expr, x: &Expr, depth: usize) -> (res:
    Result<Expr, TypeError>)
    ensures
        outcome(res) == typing_some(*norm, ctx@, e@, x@, depth as nat),
    decreases depth, 3nat, 0nat,
{
    let t = match type_with(norm, ctx, x, depth) {
        Ok(t) => t,
        Err(err) => {
            return Err(err);
        },
    };
    match ensure_type(norm, ctx, e, &t, TypeMessage::InvalidOptionalType(t.clone()), depth) {
        Err(err) => Err(err),
        Ok(_) => Ok(Expr::optional_of(norm.normalize(&t))),
    }
}

#[verifier::loop_isolation(false)]
fn check_elements<N: Normalizer>(
    norm: &N,
    ctx: &Context,
    e: &Expr,
    t: &Expr,
    rest: &Vec<Expr>,
    depth: usize,
) -> (res: Result<(), TypeError>)
    ensures
        raised(res) == elements_checked(
            *norm,
            ctx@,
            e@,
            t@,
            Expr::terms(rest@),
            0,
            depth as nat,
        ),
    decreases depth, 2nat, rest@.len() + 1,
{
    let mut i: usize = 0;
    while i < rest.len()
        invariant
            i <= rest.len(),
            elements_checked(*norm, ctx@, e@, t@, Expr::terms(rest@), 0, depth as nat)
                == elements_checked(
                *norm,
                ctx@,
                e@,
                t@,
                Expr::terms(rest@),
                i as nat,
                depth as nat,
            ),
        decreases rest.len() - i,
    {
        assert(Expr::terms(rest@)[i as int] == rest@[i as int]@);
        let t2 = match normalized_type_with(norm, ctx, &rest[i], depth) {
            Ok(t2) => t2,
            Err(err) => {
                return Err(err);
            },
        };
        if !prop_equal(t, &t2) {
            return Err(
                error_at(
                    ctx,
                    e,
                    TypeMessage::InvalidListElement(i + 1, t.clone(), rest[i].clone(), t2),
                ),
            );
        }
        i += 1;
    }
    Ok(())
}

fn type_list<N: Normalizer>(
    norm: &N,
    ctx: &Context,
    e: &Expr,
    first: &Expr,
    rest: &Vec<Expr>,
    depth: usize,
) -> (res: Result<Expr, TypeError>)
    ensures
        outcome(res) == typing_list(*norm, ctx@, e@, first@, Expr::terms(rest@), depth as nat),
    decreases depth, 3nat, 0nat,
{
    let t = match type_with(norm, ctx, first, depth) {
        Ok(t) => t,
        Err(err) => {
            return Err(err);
        },
    };
    match ensure_type(norm, ctx, e, &t, TypeMessage::InvalidListType(t.clone()), depth) {
        Err(err) => {
            return Err(err);
        },
        Ok(_) => {},
    }
    let t1 = norm.normalize(&t);
    match check_elements(norm, ctx, e, &t1, rest, depth) {
        Err(err) => Err(err),
        Ok(_) => Ok(Expr::list_of(t1)),
    }
}

#[verifier::loop_isolation(false)]
fn check_fields<N: Normalizer>(
    norm: &N,
    ctx: &Context,
    e: &Expr,
    kts: &Vec<(Label, Expr)>,
    depth: usize,
) -> (res: Result<(), TypeError>)
    ensures
        raised(res) == fields_checked(*norm, ctx@, e@, Expr::fields(kts@), 0, depth as nat),
    decreases depth, 2nat, kts@.len() + 1,
{
    let mut i: usize = 0;
    while i < kts.len()
        invariant
            i <= kts.len(),
            fields_checked(*norm, ctx@, e@, Expr::fields(kts@), 0, depth as nat) == fields_checked(
                *norm,
                ctx@,
                e@,
                Expr::fields(kts@),
                i as nat,
                depth as nat,
            ),
        decreases kts.len() - i,
    {
        assert(Expr::fields(kts@)[i as int] == (kts@[i as int].0@, kts@[i as int].1@));
        let m = TypeMessage::InvalidFieldType(kts[i].0.clone(), kts[i].1.clone());
        match ensure_type(norm, ctx, e, &kts[i].1, m, depth) {
            Err(err) => {
                return Err(err);
            },
            Ok(_) => {},
        }
        i += 1;
    }
    Ok(())
}

#[verifier::loop_isolation(false)]
fn check_alternatives<N: Normalizer>(
    norm: &N,
    ctx: &Context,
    e: &Expr,
    kts: &Vec<(Label, Option<Expr>)>,
    depth: usize,
) -> (res: Result<(), TypeError>)
    ensures
        raised(res) == alternatives_checked(
            *norm,
            ctx@,
            e@,
            Expr::alternatives(kts@),
            0,
            depth as nat,
        ),
    decreases depth, 2nat, kts@.len() + 1,
{
    let mut i: usize = 0;
    while i < kts.len()
        invariant
            i <= kts.len(),
            alternatives_checked(*norm, ctx@, e@, Expr::alternatives(kts@), 0, depth as nat)
                == alternatives_checked(
                *norm,
                ctx@,
                e@,
                Expr::alternatives(kts@),
                i as nat,
                depth as nat,
            ),
        decreases kts.len() - i,
    {
        assert(Expr::alternatives(kts@)[i as int] == (
            kts@[i as int].0@,
            Expr::optional(kts@[i as int].1),
        ));
        match &kts[i].1 {
            Some(t) => {
                let m = TypeMessage::InvalidAlternativeType(kts[i].0.clone(), t.clone());
                match ensure_type(norm, ctx, e, t, m, depth) {
                    Err(err) => {
                        return Err(err);
                    },
                    Ok(_) => {},
                }
            },
            None => {},
        }
        i += 1;
    }
    Ok(())
}

#[verifier::loop_isolation(false)]
fn type_fields<N: Normalizer>(
    norm: &N,
    ctx: &Context,
    e: &Expr,
    kvs: &Vec<(Label, Expr)>,
    depth: usize,
) -> (res: Result<Vec<(Label, Expr)>, TypeError>)
    ensures
        match res {
            Ok(kts) => field_types(
                *norm,
                ctx@,
                e@,
                Expr::fields(kvs@),
                0,
                Seq::empty(),
                depth as nat,
            ) == Ok::<Seq<(Seq<char>, Term)>, ErrorModel>(Expr::fields(kts@)),
            Err(err) => field_types(
                *norm,
                ctx@,
                e@,
                Expr::fields(kvs@),
                0,
                Seq::empty(),
                depth as nat,
            ) == Err::<Seq<(Seq<char>, Term)>, ErrorModel>(err@),
        },
    decreases depth, 2nat, kvs@.len() + 1,
{
    let mut kts: Vec<(Label, Expr)> = Vec::new();
    let mut i: usize = 0;
    assert(Expr::fields(kts@) =~= Seq::empty());
    while i < kvs.len()
        invariant
            i <= kvs.len(),
            field_types(*norm, ctx@, e@, Expr::fields(kvs@), 0, Seq::empty(), depth as nat)
                == field_types(
                *norm,
                ctx@,
                e@,
                Expr::fields(kvs@),
                i as nat,
                Expr::fields(kts@),
                depth as nat,
            ),
        decreases kvs.len() - i,
    {
        assert(Expr::fields(kvs@)[i as int] == (kvs@[i as int].0@, kvs@[i as int].1@));
        let t = match type_with(norm, ctx, &kvs[i].1, depth) {
            Ok(t) => t,
            Err(err) => {
                return Err(err);
            },
        };
        let m = TypeMessage::InvalidField(kvs[i].0.clone(), kvs[i].1.clone());
        match ensure_type(norm, ctx, e, &t, m, depth) {
            Err(err) => {
                return Err(err);
            },
            Ok(_) => {},
        }
        let ghost before = Expr::fields(kts@);
        kts.push((kvs[i].0.clone(), t));
        assert(Expr::fields(kts@) =~= before.push((kvs@[i as int].0@, t@)));
        i += 1;
    }
    Ok(kts)
}

fn type_field<N: Normalizer>(
    norm: &N,
    ctx: &Context,
    e: &Expr,
    r: &Expr,
    x: &Label,
    depth: usize,
) -> (res: Result<Expr, TypeError>)
    ensures
        outcome(res) == typing_field(*norm, ctx@, e@, r@, x@, depth as nat),
    decreases depth, 3nat, 0nat,
{
    let t = match normalized_type_with(norm, ctx, r, depth) {
        Ok(t) => t,
        Err(err) => {
            return Err(err);
        },
    };
    if let Expr::RecordType(kts) = &t {
        if let Some(ft) = find_field(kts, x) {
            return Ok(ft.clone());
        }
        return Err(error_at(ctx, e, TypeMessage::MissingField(x.clone(), t.clone())));
    }
    Err(error_at(ctx, e, TypeMessage::NotARecord(x.clone(), r.clone(), t)))
}

fn type_binop<N: Normalizer>(
    norm: &N,
    ctx: &Context,
    e: &Expr,
    o: BinOp,
    l: &Expr,
    r: &Expr,
    depth: usize,
) -> (res: Result<Expr, TypeError>)
    ensures
        outcome(res) == typing_binop(*norm, ctx@, e@, o, l@, r@, depth as nat),
    decreases depth, 3nat, 0nat,
{
    let t = operand_builtin(o);
    let tl = match normalized_type_with(norm, ctx, l, depth) {
        Ok(t) => t,
        Err(err) => {
            return Err(err);
        },
    };
    let left_fits = match &tl {
        Expr::Builtin(b) => *b == t,
        _ => false,
    };
    if !left_fits {
        return Err(error_at(ctx, e, TypeMessage::BinOpTypeMismatch(o, l.clone(), tl)));
    }
    let tr = match normalized_type_with(norm, ctx, r, depth) {
        Ok(t) => t,
        Err(err) => {
            return Err(err);
        },
    };
    let right_fits = match &tr {
        Expr::Builtin(b) => *b == t,
        _ => false,
    };
    if !right_fits {
        return Err(error_at(ctx, e, TypeMessage::BinOpTypeMismatch(o, r.clone(), tr)));
    }
    Ok(Expr::Builtin(t))
}

} // verus!
