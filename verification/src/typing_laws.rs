//! What holds of the types that the rules give.

use crate::context::{insert_frames, lookup_frames};
use crate::context_laws::lookup_finds_a_frame;
use crate::equiv::alpha_eq;
use crate::equiv_laws::alpha_eq_reflexive;
use crate::error::{ErrorModel, Message};
use crate::normalize::{normalizer_keeps_form, Normalizer};
use crate::records::{field_labels, well_formed, well_formed_fields};
use crate::records_laws::{
    applied_is_well_formed, builtin_type_is_well_formed, field_found, shift_keeps_form,
    subst_shift_keeps_form,
};
use crate::syntax::{Builtin, Const, Term};
use crate::typecheck::{
    alternatives_checked, checked_type, elements_checked, field_from, field_types, fields_checked,
    normalized_typing, typing, typing_app, typing_branch, typing_field, typing_if, typing_lam,
    typing_let, typing_list, typing_some,
};
use vstd::prelude::*;

verus! {

/// The type of an annotated term is equivalent to the normal form of the
/// annotation; it is that normal form.
pub proof fn annotation_round_trip<N: Normalizer>(
    norm: N,
    ctx: Seq<(Seq<char>, Term)>,
    e: Term,
    t: Term,
    depth: nat,
)
    ensures
        typing(norm, ctx, Term::Annot(Box::new(e), Box::new(t)), depth) matches Ok(found)
            ==> found == norm.normal_form(t) && alpha_eq(
            Seq::empty(),
            found,
            norm.normal_form(t),
        ),
{
    alpha_eq_reflexive(norm.normal_form(t));
}

/// The type given to a function is a function type that itself has a type,
/// and that type is a universe.
pub proof fn function_type_has_type<N: Normalizer>(
    norm: N,
    ctx: Seq<(Seq<char>, Term)>,
    x: Seq<char>,
    a: Term,
    b: Term,
    depth: nat,
)
    ensures
        typing(norm, ctx, Term::Lam(x, Box::new(a), Box::new(b)), depth) matches Ok(p) ==> (depth
            >= 2 && p is Pi && (typing(norm, ctx, p, (depth - 1) as nat) matches Ok(k)
            && k is Const)),
{
}

/// The type given to a literal is a built-in type whose type is `Type`.
pub proof fn literal_type_has_type<N: Normalizer>(
    norm: N,
    ctx: Seq<(Seq<char>, Term)>,
    e: Term,
    depth: nat,
)
    requires
        e is BoolLit || e is NaturalLit || e is IntegerLit || e is DoubleLit || e is TextLit,
        depth >= 1,
    ensures
        typing(norm, ctx, e, depth) matches Ok(t) && typing(norm, ctx, t, depth) == Ok::<
            Term,
            ErrorModel,
        >(Term::Const(Const::Type)),
{
}

/// The type given to a conditional is a type of terms: its own type has the
/// normal form `Type`.
pub proof fn conditional_type_is_a_type<N: Normalizer>(
    norm: N,
    ctx: Seq<(Seq<char>, Term)>,
    c: Term,
    y: Term,
    z: Term,
    depth: nat,
)
    ensures
        typing(norm, ctx, Term::BoolIf(Box::new(c), Box::new(y), Box::new(z)), depth) matches Ok(
            t,
        ) ==> (depth >= 2 && normalized_typing(norm, ctx, t, (depth - 1) as nat) == Ok::<
            Term,
            ErrorModel,
        >(Term::Const(Const::Type))),
{
    if depth > 0 {
        let e = Term::BoolIf(Box::new(c), Box::new(y), Box::new(z));
        let d = (depth - 1) as nat;
        assert(typing(norm, ctx, e, depth) == typing_if(norm, ctx, e, c, y, z, d));
        if typing_if(norm, ctx, e, c, y, z, d) is Ok {
            assert(typing_branch(norm, ctx, e, true, y, d) is Ok);
        }
    }
}

/// The type given to a definition has a type, whose normal form is a universe.
pub proof fn definition_type_has_universe<N: Normalizer>(
    norm: N,
    ctx: Seq<(Seq<char>, Term)>,
    x: Seq<char>,
    annotation: Option<Term>,
    r: Term,
    b: Term,
    depth: nat,
)
    ensures
        typing(
            norm,
            ctx,
            Term::Let(
                x,
                match annotation {
                    Some(t) => Some(Box::new(t)),
                    None => None,
                },
                Box::new(r),
                Box::new(b),
            ),
            depth,
        ) matches Ok(t) ==> (depth >= 2 && (normalized_typing(
            norm,
            ctx,
            t,
            (depth - 1) as nat,
        ) matches Ok(k) && k is Const)),
{
    if depth > 0 {
        let e = Term::Let(
            x,
            match annotation {
                Some(t) => Some(Box::new(t)),
                None => None,
            },
            Box::new(r),
            Box::new(b),
        );
        let bound = match annotation {
            Some(t) => Term::Annot(Box::new(r), Box::new(t)),
            None => r,
        };
        let d = (depth - 1) as nat;
        assert(typing(norm, ctx, e, depth) == typing_let(norm, ctx, e, x, bound, b, d));
    }
}

/// Whether a result says something of the term: a type, or an error other
/// than that a limit was reached.
pub open spec fn settled(r: Result<Term, ErrorModel>) -> bool {
    match r {
        Ok(_) => true,
        Err(err) => err.message != Message::LimitExceeded,
    }
}

/// Whether a check has passed, or has failed for another reason than that a
/// limit was reached.
pub open spec fn settled_check(r: Option<ErrorModel>) -> bool {
    match r {
        None => true,
        Some(err) => err.message != Message::LimitExceeded,
    }
}

/// Whether the types of the fields of a record literal were found, or the
/// search failed for another reason than that a limit was reached.
pub open spec fn settled_fields(r: Result<Seq<(Seq<char>, Term)>, ErrorModel>) -> bool {
    match r {
        Ok(_) => true,
        Err(err) => err.message != Message::LimitExceeded,
    }
}

/// A settled check of a type stays what it is with more depth.
pub proof fn checked_type_stable<N: Normalizer>(
    norm: N,
    ctx: Seq<(Seq<char>, Term)>,
    e: Term,
    t: Term,
    m: Message,
    depth: nat,
)
    requires
        m != Message::LimitExceeded,
    ensures
        settled_check(checked_type(norm, ctx, e, t, m, depth)) ==> checked_type(
            norm,
            ctx,
            e,
            t,
            m,
            depth + 1,
        ) == checked_type(norm, ctx, e, t, m, depth),
    decreases depth, 1nat, 0nat,
{
    typing_stable(norm, ctx, t, depth);
}

/// A settled type of a branch stays what it is with more depth.
pub proof fn typing_branch_stable<N: Normalizer>(
    norm: N,
    ctx: Seq<(Seq<char>, Term)>,
    e: Term,
    first: bool,
    y: Term,
    depth: nat,
)
    ensures
        settled(typing_branch(norm, ctx, e, first, y, depth)) ==> typing_branch(
            norm,
            ctx,
            e,
            first,
            y,
            depth + 1,
        ) == typing_branch(norm, ctx, e, first, y, depth),
    decreases depth, 1nat, 0nat,
{
    typing_stable(norm, ctx, y, depth);
    match normalized_typing(norm, ctx, y, depth) {
        Ok(ty) => typing_stable(norm, ctx, ty, depth),
        Err(_) => {},
    }
}

/// A settled check of the elements of a list stays what it is with more depth.
pub proof fn elements_checked_stable<N: Normalizer>(
    norm: N,
    ctx: Seq<(Seq<char>, Term)>,
    e: Term,
    t: Term,
    rest: Seq<Term>,
    i: nat,
    depth: nat,
)
    ensures
        settled_check(elements_checked(norm, ctx, e, t, rest, i, depth)) ==> elements_checked(
            norm,
            ctx,
            e,
            t,
            rest,
            i,
            depth + 1,
        ) == elements_checked(norm, ctx, e, t, rest, i, depth),
    decreases depth, 1nat, rest.len() - i,
{
    if i < rest.len() {
        typing_stable(norm, ctx, rest[i as int], depth);
        elements_checked_stable(norm, ctx, e, t, rest, i + 1, depth);
    }
}

/// A settled check of the fields of a record type stays what it is with more depth.
pub proof fn fields_checked_stable<N: Normalizer>(
    norm: N,
    ctx: Seq<(Seq<char>, Term)>,
    e: Term,
    kts: Seq<(Seq<char>, Term)>,
    i: nat,
    depth: nat,
)
    ensures
        settled_check(fields_checked(norm, ctx, e, kts, i, depth)) ==> fields_checked(
            norm,
            ctx,
            e,
            kts,
            i,
            depth + 1,
        ) == fields_checked(norm, ctx, e, kts, i, depth),
    decreases depth, 1nat, kts.len() - i,
{
    if i < kts.len() {
        checked_type_stable(
            norm,
            ctx,
            e,
            kts[i as int].1,
            Message::InvalidFieldType(kts[i as int].0, kts[i as int].1),
            depth,
        );
        fields_checked_stable(norm, ctx, e, kts, i + 1, depth);
    }
}

/// A settled check of the alternatives of a union type stays what it is with more depth.
pub proof fn alternatives_checked_stable<N: Normalizer>(
    norm: N,
    ctx: Seq<(Seq<char>, Term)>,
    e: Term,
    kts: Seq<(Seq<char>, Option<Term>)>,
    i: nat,
    depth: nat,
)
    ensures
        settled_check(alternatives_checked(norm, ctx, e, kts, i, depth)) ==> alternatives_checked(
            norm,
            ctx,
            e,
            kts,
            i,
            depth + 1,
        ) == alternatives_checked(norm, ctx, e, kts, i, depth),
    decreases depth, 1nat, kts.len() - i,
{
    if i < kts.len() {
        match kts[i as int].1 {
            Some(t) => checked_type_stable(
                norm,
                ctx,
                e,
                t,
                Message::InvalidAlternativeType(kts[i as int].0, t),
                depth,
            ),
            None => {},
        }
        alternatives_checked_stable(norm, ctx, e, kts, i + 1, depth);
    }
}

/// Settled types of the fields of a record literal stay what they are with more depth.
pub proof fn field_types_stable<N: Normalizer>(
    norm: N,
    ctx: Seq<(Seq<char>, Term)>,
    e: Term,
    kvs: Seq<(Seq<char>, Term)>,
    i: nat,
    done: Seq<(Seq<char>, Term)>,
    depth: nat,
)
    ensures
        settled_fields(field_types(norm, ctx, e, kvs, i, done, depth)) ==> field_types(
            norm,
            ctx,
            e,
            kvs,
            i,
            done,
            depth + 1,
        ) == field_types(norm, ctx, e, kvs, i, done, depth),
    decreases depth, 1nat, kvs.len() - i,
{
    if i < kvs.len() {
        typing_stable(norm, ctx, kvs[i as int].1, depth);
        match typing(norm, ctx, kvs[i as int].1, depth) {
            Ok(t) => {
                checked_type_stable(
                    norm,
                    ctx,
                    e,
                    t,
                    Message::InvalidField(kvs[i as int].0, kvs[i as int].1),
                    depth,
                );
                field_types_stable(
                    norm,
                    ctx,
                    e,
                    kvs,
                    i + 1,
                    done.push((kvs[i as int].0, t)),
                    depth,
                );
            },
            Err(_) => {},
        }
    }
}

/// A settled result does not depend on the depth: with one more nested
/// judgement allowed, a term that was given a type keeps it, and a term that
/// was rejected for another reason than a limit is rejected in the same way.
pub proof fn typing_stable<N: Normalizer>(
    norm: N,
    ctx: Seq<(Seq<char>, Term)>,
    e: Term,
    depth: nat,
)
    ensures
        settled(typing(norm, ctx, e, depth)) ==> typing(norm, ctx, e, depth + 1) == typing(
            norm,
            ctx,
            e,
            depth,
        ),
        settled(normalized_typing(norm, ctx, e, depth)) ==> normalized_typing(
            norm,
            ctx,
            e,
            depth + 1,
        ) == normalized_typing(norm, ctx, e, depth),
    decreases depth, 0nat, 0nat,
{
    if depth > 0 {
        let d = (depth - 1) as nat;
        match e {
            Term::Lam(x, a, b) => {
                typing_stable(norm, insert_frames(ctx, x, *a), *b, d);
                match typing(norm, insert_frames(ctx, x, *a), *b, d) {
                    Ok(tb) => typing_stable(norm, ctx, Term::Pi(x, a, Box::new(tb)), d),
                    Err(_) => {},
                }
            },
            Term::Pi(x, a, b) => {
                typing_stable(norm, ctx, *a, d);
                typing_stable(norm, insert_frames(ctx, x, *a), *b, d);
            },
            Term::App(f, args) => {
                if args.len() == 0 {
                    typing_stable(norm, ctx, *f, d);
                } else {
                    typing_stable(norm, ctx, Term::App(f, args.drop_last()), d);
                    typing_stable(norm, ctx, args.last(), d);
                }
            },
            Term::Let(x, t, r, b) => {
                let bound = match t {
                    Some(t) => Term::Annot(r, t),
                    None => *r,
                };
                typing_stable(norm, ctx, bound, d);
                match typing(norm, ctx, bound, d) {
                    Ok(tr) => {
                        typing_stable(norm, ctx, tr, d);
                        typing_stable(norm, insert_frames(ctx, x, tr), *b, d);
                        match typing(norm, insert_frames(ctx, x, tr), *b, d) {
                            Ok(tb) => typing_stable(norm, ctx, tb, d),
                            Err(_) => {},
                        }
                    },
                    Err(_) => {},
                }
            },
            Term::Annot(x, t) => {
                typing_stable(norm, ctx, *t, d);
                typing_stable(norm, ctx, *x, d);
            },
            Term::BoolIf(c, y, z) => {
                typing_stable(norm, ctx, *c, d);
                typing_branch_stable(norm, ctx, e, true, *y, d);
                typing_branch_stable(norm, ctx, e, false, *z, d);
            },
            Term::EmptyListLit(t) => {
                checked_type_stable(norm, ctx, e, *t, Message::InvalidListType(*t), d);
            },
            Term::NEListLit(first, rest) => {
                typing_stable(norm, ctx, *first, d);
                match typing(norm, ctx, *first, d) {
                    Ok(t) => {
                        checked_type_stable(norm, ctx, e, t, Message::InvalidListType(t), d);
                        elements_checked_stable(norm, ctx, e, norm.normal_form(t), rest, 0, d);
                    },
                    Err(_) => {},
                }
            },
            Term::EmptyOptionalLit(t) => {
                checked_type_stable(norm, ctx, e, *t, Message::InvalidOptionalType(*t), d);
            },
            Term::NEOptionalLit(x) => {
                typing_stable(norm, ctx, *x, d);
                match typing(norm, ctx, *x, d) {
                    Ok(t) => checked_type_stable(
                        norm,
                        ctx,
                        e,
                        t,
                        Message::InvalidOptionalType(t),
                        d,
                    ),
                    Err(_) => {},
                }
            },
            Term::RecordType(kts) => fields_checked_stable(norm, ctx, e, kts, 0, d),
            Term::RecordLit(kvs) => field_types_stable(norm, ctx, e, kvs, 0, Seq::empty(), d),
            Term::UnionType(kts) => alternatives_checked_stable(norm, ctx, e, kts, 0, d),
            Term::Field(r, _) => typing_stable(norm, ctx, *r, d),
            Term::BinOp(_, l, r) => {
                typing_stable(norm, ctx, *l, d);
                typing_stable(norm, ctx, *r, d);
            },
            _ => {},
        }
    }
}

/// A settled result is the result for every greater depth.
pub proof fn typing_settled_for_good<N: Normalizer>(
    norm: N,
    ctx: Seq<(Seq<char>, Term)>,
    e: Term,
    depth: nat,
    more: nat,
)
    requires
        settled(typing(norm, ctx, e, depth)),
    ensures
        typing(norm, ctx, e, depth + more) == typing(norm, ctx, e, depth),
    decreases more,
{
    if more > 0 {
        typing_settled_for_good(norm, ctx, e, depth, (more - 1) as nat);
        typing_stable(norm, ctx, e, (depth + more - 1) as nat);
    }
}

/// Whether every type that the frames hold is well formed.
pub open spec fn well_formed_frames(frames: Seq<(Seq<char>, Term)>) -> bool {
    forall|i: int| 0 <= i < frames.len() ==> well_formed((#[trigger] frames[i]).1)
}

/// Entering a binder with a well-formed type keeps the types of the frames well formed.
pub proof fn insert_keeps_form(frames: Seq<(Seq<char>, Term)>, x: Seq<char>, a: Term)
    requires
        well_formed_frames(frames),
        well_formed(a),
    ensures
        well_formed_frames(insert_frames(frames, x, a)),
{
    let pushed = frames.push((x, a));
    let inner = insert_frames(frames, x, a);
    assert forall|i: int| 0 <= i < inner.len() implies well_formed((#[trigger] inner[i]).1) by {
        if i < frames.len() {
            assert(pushed[i] == frames[i]);
        }
        shift_keeps_form(1, x, 0, pushed[i].1);
    }
}

/// The types found for the fields of a well-formed record literal, behind
/// well-formed types `done` whose labels are those of the fields before
/// position `i`, are the entries of a well-formed record type.
pub proof fn field_types_keep_form<N: Normalizer>(
    norm: N,
    ctx: Seq<(Seq<char>, Term)>,
    e: Term,
    kvs: Seq<(Seq<char>, Term)>,
    i: nat,
    done: Seq<(Seq<char>, Term)>,
    depth: nat,
)
    requires
        normalizer_keeps_form(norm),
        well_formed_frames(ctx),
        well_formed_fields(kvs),
        i <= kvs.len(),
        done.len() == i,
        forall|j: int| 0 <= j < i ==> (#[trigger] done[j]).0 == kvs[j].0 && well_formed(done[j].1),
    ensures
        field_types(norm, ctx, e, kvs, i, done, depth) matches Ok(kts) ==> well_formed_fields(kts),
    decreases depth, 1nat, kvs.len() - i,
{
    if i >= kvs.len() {
        assert(field_labels(done) =~= field_labels(kvs));
    } else {
        typing_keeps_form(norm, ctx, kvs[i as int].1, depth);
        match typing(norm, ctx, kvs[i as int].1, depth) {
            Ok(t) => {
                field_types_keep_form(
                    norm,
                    ctx,
                    e,
                    kvs,
                    i + 1,
                    done.push((kvs[i as int].0, t)),
                    depth,
                );
            },
            Err(_) => {},
        }
    }
}

/// [`typing_keeps_form`] for a function.
pub proof fn lam_keeps_form<N: Normalizer>(
    norm: N,
    ctx: Seq<(Seq<char>, Term)>,
    e: Term,
    x: Seq<char>,
    a: Term,
    b: Term,
    depth: nat,
)
    requires
        normalizer_keeps_form(norm),
        well_formed_frames(ctx),
        well_formed(a),
        well_formed(b),
    ensures
        typing_lam(norm, ctx, e, x, a, b, depth) matches Ok(t) ==> well_formed(t),
    decreases depth, 2nat, 0nat,
{
    insert_keeps_form(ctx, x, a);
    typing_keeps_form(norm, insert_frames(ctx, x, a), b, depth);
}

/// [`typing_keeps_form`] for an application.
pub proof fn app_keeps_form<N: Normalizer>(
    norm: N,
    ctx: Seq<(Seq<char>, Term)>,
    e: Term,
    f: Term,
    args: Seq<Term>,
    depth: nat,
)
    requires
        normalizer_keeps_form(norm),
        well_formed_frames(ctx),
        well_formed(f),
        forall|i: int| 0 <= i < args.len() ==> well_formed(#[trigger] args[i]),
    ensures
        typing_app(norm, ctx, e, f, args, depth) matches Ok(t) ==> well_formed(t),
    decreases depth, 2nat, 0nat,
{
    if args.len() == 0 {
        typing_keeps_form(norm, ctx, f, depth);
    } else {
        let init = Term::App(Box::new(f), args.drop_last());
        assert forall|i: int| 0 <= i < args.drop_last().len() implies well_formed(
            #[trigger] args.drop_last()[i],
        ) by {
            assert(args.drop_last()[i] == args[i]);
        }
        assert(init->App_1 == args.drop_last());
        assert(well_formed(init));
        assert(well_formed(args.last()));
        typing_keeps_form(norm, ctx, init, depth);
        match normalized_typing(norm, ctx, init, depth) {
            Ok(Term::Pi(x, ta, tb)) => {
                assert(well_formed(*tb));
                subst_shift_keeps_form(x, 0, args.last(), *tb);
            },
            _ => {},
        }
    }
}

/// [`typing_keeps_form`] for a definition.
pub proof fn let_keeps_form<N: Normalizer>(
    norm: N,
    ctx: Seq<(Seq<char>, Term)>,
    e: Term,
    x: Seq<char>,
    r: Term,
    b: Term,
    depth: nat,
)
    requires
        normalizer_keeps_form(norm),
        well_formed_frames(ctx),
        well_formed(r),
        well_formed(b),
    ensures
        typing_let(norm, ctx, e, x, r, b, depth) matches Ok(t) ==> well_formed(t),
    decreases depth, 2nat, 0nat,
{
    typing_keeps_form(norm, ctx, r, depth);
    match typing(norm, ctx, r, depth) {
        Ok(tr) => {
            insert_keeps_form(ctx, x, tr);
            typing_keeps_form(norm, insert_frames(ctx, x, tr), b, depth);
        },
        Err(_) => {},
    }
}

/// [`typing_keeps_form`] for a conditional.
pub proof fn if_keeps_form<N: Normalizer>(
    norm: N,
    ctx: Seq<(Seq<char>, Term)>,
    e: Term,
    c: Term,
    y: Term,
    z: Term,
    depth: nat,
)
    requires
        normalizer_keeps_form(norm),
        well_formed_frames(ctx),
        well_formed(y),
    ensures
        typing_if(norm, ctx, e, c, y, z, depth) matches Ok(t) ==> well_formed(t),
    decreases depth, 2nat, 0nat,
{
    typing_keeps_form(norm, ctx, y, depth);
}

/// [`typing_keeps_form`] for a list and for a present optional value.
pub proof fn list_keeps_form<N: Normalizer>(
    norm: N,
    ctx: Seq<(Seq<char>, Term)>,
    e: Term,
    first: Term,
    rest: Seq<Term>,
    depth: nat,
)
    requires
        normalizer_keeps_form(norm),
        well_formed_frames(ctx),
        well_formed(first),
    ensures
        typing_list(norm, ctx, e, first, rest, depth) matches Ok(t) ==> well_formed(t),
        typing_some(norm, ctx, e, first, depth) matches Ok(t) ==> well_formed(t),
    decreases depth, 2nat, 0nat,
{
    typing_keeps_form(norm, ctx, first, depth);
    match typing(norm, ctx, first, depth) {
        Ok(t) => {
            applied_is_well_formed(Term::Builtin(Builtin::List), norm.normal_form(t));
            applied_is_well_formed(Term::Builtin(Builtin::Optional), norm.normal_form(t));
        },
        Err(_) => {},
    }
}

/// [`typing_keeps_form`] for a selection.
pub proof fn field_keeps_form<N: Normalizer>(
    norm: N,
    ctx: Seq<(Seq<char>, Term)>,
    e: Term,
    r: Term,
    x: Seq<char>,
    depth: nat,
)
    requires
        normalizer_keeps_form(norm),
        well_formed_frames(ctx),
        well_formed(r),
    ensures
        typing_field(norm, ctx, e, r, x, depth) matches Ok(t) ==> well_formed(t),
    decreases depth, 2nat, 0nat,
{
    typing_keeps_form(norm, ctx, r, depth);
    match normalized_typing(norm, ctx, r, depth) {
        Ok(Term::RecordType(kts)) => {
            if field_from(kts, x, 0) is Some {
                let i = field_found(kts, x, 0);
                assert(well_formed_fields(kts));
                assert(well_formed(kts[i].1));
            }
        },
        _ => {},
    }
}

/// Well-formed terms have well-formed types: where the normalizer keeps the
/// entries of records and unions in order, and the types of the context and
/// the term have them in order, so has the type of the term.
pub proof fn typing_keeps_form<N: Normalizer>(
    norm: N,
    ctx: Seq<(Seq<char>, Term)>,
    e: Term,
    depth: nat,
)
    requires
        normalizer_keeps_form(norm),
        well_formed_frames(ctx),
        well_formed(e),
    ensures
        typing(norm, ctx, e, depth) matches Ok(t) ==> well_formed(t),
        normalized_typing(norm, ctx, e, depth) matches Ok(t) ==> well_formed(t),
    decreases depth, 0nat, 0nat,
{
    if depth > 0 {
        let d = (depth - 1) as nat;
        match e {
            Term::Var(x, n) => {
                if lookup_frames(ctx, x, n) is Some {
                    let i = lookup_finds_a_frame(ctx, x, n);
                }
            },
            Term::Lam(x, a, b) => lam_keeps_form(norm, ctx, e, x, *a, *b, d),
            Term::App(f, args) => app_keeps_form(norm, ctx, e, *f, args, d),
            Term::Let(x, t, r, b) => {
                let bound = match t {
                    Some(t) => Term::Annot(r, t),
                    None => *r,
                };
                let_keeps_form(norm, ctx, e, x, bound, *b, d);
            },
            Term::BoolIf(c, y, z) => if_keeps_form(norm, ctx, e, *c, *y, *z, d),
            Term::EmptyListLit(t) => {
                applied_is_well_formed(Term::Builtin(Builtin::List), norm.normal_form(*t));
            },
            Term::NEListLit(first, rest) => list_keeps_form(norm, ctx, e, *first, rest, d),
            Term::EmptyOptionalLit(t) => {
                applied_is_well_formed(Term::Builtin(Builtin::Optional), norm.normal_form(*t));
            },
            Term::NEOptionalLit(x) => list_keeps_form(norm, ctx, e, *x, Seq::empty(), d),
            Term::RecordLit(kvs) => {
                field_types_keep_form(norm, ctx, e, kvs, 0, Seq::empty(), d);
            },
            Term::Field(r, x) => field_keeps_form(norm, ctx, e, *r, x, d),
            Term::Builtin(b) => builtin_type_is_well_formed(b),
            _ => {},
        }
    }
}

} // verus!
