//! A term that has a type mentions no unbound variable, and neither does its type.

use crate::context::{insert_frames, lookup_frames};
use crate::builtins::builtin_type;
use crate::context_laws::{
    closed_in, insert_keeps_scope, lookup_finds_a_frame, lookup_outer_after_insert, well_scoped,
};
use crate::records_laws::field_found;
use crate::subst::subst_shifted;
use crate::subst_laws::subst_shift_adds_no_variable;
use crate::normalize::{normalizer_adds_no_variable, Normalizer};
use crate::shift::below;
use crate::shift_laws::{
    mentions, mentions_in_alternatives, mentions_in_fields, mentions_in_terms,
};
use crate::syntax::{Builtin, Term};
use crate::typecheck::{
    alternatives_checked, checked_type, elements_checked, field_from, field_types, fields_checked,
    normalized_typing, typing, typing_annot, typing_app, typing_binop, typing_branch,
    typing_empty, typing_field, typing_if, typing_lam, typing_let, typing_list, typing_pi,
    typing_some,
};
use vstd::prelude::*;

verus! {

/// A variable that is bound below a binder named `x`, as it is seen from
/// below, is bound above it, as it is seen from above.
pub proof fn bound_above_binder(
    ctx: Seq<(Seq<char>, Term)>,
    x: Seq<char>,
    a: Term,
    y: Seq<char>,
    k: int,
)
    requires
        k >= 0,
        lookup_frames(insert_frames(ctx, x, a), y, below(y, k, x)) is Some,
    ensures
        lookup_frames(ctx, y, k) is Some,
{
    lookup_outer_after_insert(ctx, x, a, y, k);
}

/// [`typed_is_closed`] for a function and for a function type: a variable
/// that is free in the input type or, seen from below the binder, in the
/// body, is bound where both have a type.
pub proof fn binder_is_closed<N: Normalizer>(
    norm: N,
    ctx: Seq<(Seq<char>, Term)>,
    x: Seq<char>,
    a: Term,
    b: Term,
    depth_a: nat,
    depth_b: nat,
    depth: nat,
    y: Seq<char>,
    k: int,
)
    requires
        k >= 0,
        depth_a <= depth,
        depth_b <= depth,
        typing(norm, ctx, a, depth_a) is Ok,
        typing(norm, insert_frames(ctx, x, a), b, depth_b) is Ok,
        mentions(y, k, a) || mentions(y, below(y, k, x), b),
    ensures
        lookup_frames(ctx, y, k) is Some,
    decreases depth, 1nat, 0nat,
{
    if mentions(y, k, a) {
        typed_is_closed(norm, ctx, a, depth_a, y, k);
    } else {
        typed_is_closed(norm, insert_frames(ctx, x, a), b, depth_b, y, below(y, k, x));
        bound_above_binder(ctx, x, a, y, k);
    }
}

/// [`typed_is_closed`] for a function.
pub proof fn lam_is_closed<N: Normalizer>(
    norm: N,
    ctx: Seq<(Seq<char>, Term)>,
    e: Term,
    x: Seq<char>,
    a: Term,
    b: Term,
    depth: nat,
    y: Seq<char>,
    k: int,
)
    requires
        k >= 0,
        typing_lam(norm, ctx, e, x, a, b, depth) is Ok,
        mentions(y, k, a) || mentions(y, below(y, k, x), b),
    ensures
        lookup_frames(ctx, y, k) is Some,
    decreases depth, 2nat, 0nat,
{
    let tb = typing(norm, insert_frames(ctx, x, a), b, depth)->Ok_0;
    let p = Term::Pi(x, Box::new(a), Box::new(tb));
    assert(typing(norm, ctx, p, depth) is Ok);
    assert(depth > 0);
    assert(typing_pi(norm, ctx, p, x, a, tb, (depth - 1) as nat) is Ok);
    assert(normalized_typing(norm, ctx, a, (depth - 1) as nat) is Ok);
    assert(typing(norm, ctx, a, (depth - 1) as nat) is Ok);
    binder_is_closed(norm, ctx, x, a, b, (depth - 1) as nat, depth, depth, y, k);
}

/// [`typed_is_closed`] for a function type.
pub proof fn pi_is_closed<N: Normalizer>(
    norm: N,
    ctx: Seq<(Seq<char>, Term)>,
    e: Term,
    x: Seq<char>,
    a: Term,
    b: Term,
    depth: nat,
    y: Seq<char>,
    k: int,
)
    requires
        k >= 0,
        typing_pi(norm, ctx, e, x, a, b, depth) is Ok,
        mentions(y, k, a) || mentions(y, below(y, k, x), b),
    ensures
        lookup_frames(ctx, y, k) is Some,
    decreases depth, 2nat, 0nat,
{
    assert(normalized_typing(norm, ctx, a, depth) is Ok);
    assert(typing(norm, ctx, a, depth) is Ok);
    assert(normalized_typing(norm, insert_frames(ctx, x, a), b, depth) is Ok);
    assert(typing(norm, insert_frames(ctx, x, a), b, depth) is Ok);
    binder_is_closed(norm, ctx, x, a, b, depth, depth, depth, y, k);
}

/// Where the check of the elements of a list from position `from` on has
/// passed, each of them has a type.
pub proof fn elements_are_typed<N: Normalizer>(
    norm: N,
    ctx: Seq<(Seq<char>, Term)>,
    e: Term,
    t: Term,
    rest: Seq<Term>,
    from: nat,
    i: int,
    depth: nat,
)
    requires
        elements_checked(norm, ctx, e, t, rest, from, depth) is None,
        from <= i < rest.len(),
    ensures
        typing(norm, ctx, rest[i], depth) is Ok,
    decreases i - from,
{
    assert(normalized_typing(norm, ctx, rest[from as int], depth) is Ok);
    if from < i {
        elements_are_typed(norm, ctx, e, t, rest, from + 1, i, depth);
    }
}

/// Where the check of the fields of a record type from position `from` on
/// has passed, each of them has a type.
pub proof fn fields_are_typed<N: Normalizer>(
    norm: N,
    ctx: Seq<(Seq<char>, Term)>,
    e: Term,
    kts: Seq<(Seq<char>, Term)>,
    from: nat,
    i: int,
    depth: nat,
)
    requires
        fields_checked(norm, ctx, e, kts, from, depth) is None,
        from <= i < kts.len(),
    ensures
        typing(norm, ctx, kts[i].1, depth) is Ok,
    decreases i - from,
{
    let m = crate::error::Message::InvalidFieldType(kts[from as int].0, kts[from as int].1);
    assert(checked_type(norm, ctx, e, kts[from as int].1, m, depth) is None);
    assert(normalized_typing(norm, ctx, kts[from as int].1, depth) is Ok);
    if from < i {
        fields_are_typed(norm, ctx, e, kts, from + 1, i, depth);
    }
}

/// Where the check of the alternatives of a union type from position `from`
/// on has passed, each payload has a type.
pub proof fn alternatives_are_typed<N: Normalizer>(
    norm: N,
    ctx: Seq<(Seq<char>, Term)>,
    e: Term,
    kts: Seq<(Seq<char>, Option<Term>)>,
    from: nat,
    i: int,
    depth: nat,
)
    requires
        alternatives_checked(norm, ctx, e, kts, from, depth) is None,
        from <= i < kts.len(),
        kts[i].1 is Some,
    ensures
        typing(norm, ctx, kts[i].1->0, depth) is Ok,
    decreases i - from,
{
    if from < i {
        alternatives_are_typed(norm, ctx, e, kts, from + 1, i, depth);
    } else {
        let t = kts[i].1->0;
        let m = crate::error::Message::InvalidAlternativeType(kts[i].0, t);
        assert(checked_type(norm, ctx, e, t, m, depth) is None);
        assert(normalized_typing(norm, ctx, t, depth) is Ok);
    }
}

/// Where the types of the fields of a record literal from position `from` on
/// were found, each of the fields has a type.
pub proof fn field_values_are_typed<N: Normalizer>(
    norm: N,
    ctx: Seq<(Seq<char>, Term)>,
    e: Term,
    kvs: Seq<(Seq<char>, Term)>,
    from: nat,
    done: Seq<(Seq<char>, Term)>,
    i: int,
    depth: nat,
)
    requires
        field_types(norm, ctx, e, kvs, from, done, depth) is Ok,
        from <= i < kvs.len(),
    ensures
        typing(norm, ctx, kvs[i].1, depth) is Ok,
    decreases i - from,
{
    if from < i {
        field_values_are_typed(
            norm,
            ctx,
            e,
            kvs,
            from + 1,
            done.push((kvs[from as int].0, typing(norm, ctx, kvs[from as int].1, depth)->Ok_0)),
            i,
            depth,
        );
    }
}

/// [`typed_is_closed`] for an application.
pub proof fn app_is_closed<N: Normalizer>(
    norm: N,
    ctx: Seq<(Seq<char>, Term)>,
    e: Term,
    f: Term,
    args: Seq<Term>,
    depth: nat,
    y: Seq<char>,
    k: int,
)
    requires
        k >= 0,
        typing_app(norm, ctx, e, f, args, depth) is Ok,
        mentions(y, k, f) || mentions_in_terms(y, k, args),
    ensures
        lookup_frames(ctx, y, k) is Some,
    decreases depth, 2nat, 0nat,
{
    if args.len() == 0 {
        assert(!mentions_in_terms(y, k, args));
        typed_is_closed(norm, ctx, f, depth, y, k);
    } else {
        let init = Term::App(Box::new(f), args.drop_last());
        assert(normalized_typing(norm, ctx, init, depth) is Ok);
        assert(typing(norm, ctx, init, depth) is Ok);
        let tf = normalized_typing(norm, ctx, init, depth)->Ok_0;
        assert(tf is Pi);
        assert(normalized_typing(norm, ctx, args.last(), depth) is Ok);
        assert(typing(norm, ctx, args.last(), depth) is Ok);
        if mentions(y, k, f) {
            typed_is_closed(norm, ctx, init, depth, y, k);
        } else {
            let i = choose|i: int| 0 <= i < args.len() && mentions(y, k, #[trigger] args[i]);
            if i == args.len() - 1 {
                typed_is_closed(norm, ctx, args.last(), depth, y, k);
            } else {
                assert(args.drop_last()[i] == args[i]);
                assert(mentions_in_terms(y, k, args.drop_last()));
                typed_is_closed(norm, ctx, init, depth, y, k);
            }
        }
    }
}

/// [`typed_is_closed`] for a definition.
pub proof fn let_is_closed<N: Normalizer>(
    norm: N,
    ctx: Seq<(Seq<char>, Term)>,
    e: Term,
    x: Seq<char>,
    r: Term,
    b: Term,
    depth: nat,
    y: Seq<char>,
    k: int,
)
    requires
        k >= 0,
        typing_let(norm, ctx, e, x, r, b, depth) is Ok,
        mentions(y, k, r) || mentions(y, below(y, k, x), b),
    ensures
        lookup_frames(ctx, y, k) is Some,
    decreases depth, 2nat, 0nat,
{
    assert(typing(norm, ctx, r, depth) is Ok);
    let tr = typing(norm, ctx, r, depth)->Ok_0;
    assert(normalized_typing(norm, ctx, tr, depth) is Ok);
    assert(normalized_typing(norm, ctx, tr, depth)->Ok_0 is Const);
    assert(typing(norm, insert_frames(ctx, x, tr), b, depth) is Ok);
    if mentions(y, k, r) {
        typed_is_closed(norm, ctx, r, depth, y, k);
    } else {
        typed_is_closed(norm, insert_frames(ctx, x, tr), b, depth, y, below(y, k, x));
        bound_above_binder(ctx, x, tr, y, k);
    }
}

/// [`typed_is_closed`] for a conditional.
pub proof fn if_is_closed<N: Normalizer>(
    norm: N,
    ctx: Seq<(Seq<char>, Term)>,
    e: Term,
    c: Term,
    a: Term,
    b: Term,
    depth: nat,
    y: Seq<char>,
    k: int,
)
    requires
        k >= 0,
        typing_if(norm, ctx, e, c, a, b, depth) is Ok,
        mentions(y, k, c) || mentions(y, k, a) || mentions(y, k, b),
    ensures
        lookup_frames(ctx, y, k) is Some,
    decreases depth, 2nat, 0nat,
{
    assert(normalized_typing(norm, ctx, c, depth) is Ok);
    assert(typing(norm, ctx, c, depth) is Ok);
    assert(typing_branch(norm, ctx, e, true, a, depth) is Ok);
    assert(normalized_typing(norm, ctx, a, depth) is Ok);
    assert(typing(norm, ctx, a, depth) is Ok);
    assert(typing_branch(norm, ctx, e, false, b, depth) is Ok);
    assert(normalized_typing(norm, ctx, b, depth) is Ok);
    assert(typing(norm, ctx, b, depth) is Ok);
    if mentions(y, k, c) {
        typed_is_closed(norm, ctx, c, depth, y, k);
    } else if mentions(y, k, a) {
        typed_is_closed(norm, ctx, a, depth, y, k);
    } else {
        typed_is_closed(norm, ctx, b, depth, y, k);
    }
}

/// [`typed_is_closed`] for a list.
pub proof fn list_is_closed<N: Normalizer>(
    norm: N,
    ctx: Seq<(Seq<char>, Term)>,
    e: Term,
    first: Term,
    rest: Seq<Term>,
    depth: nat,
    y: Seq<char>,
    k: int,
)
    requires
        k >= 0,
        typing_list(norm, ctx, e, first, rest, depth) is Ok,
        mentions(y, k, first) || mentions_in_terms(y, k, rest),
    ensures
        lookup_frames(ctx, y, k) is Some,
    decreases depth, 2nat, 0nat,
{
    assert(typing(norm, ctx, first, depth) is Ok);
    let t = typing(norm, ctx, first, depth)->Ok_0;
    assert(checked_type(norm, ctx, e, t, crate::error::Message::InvalidListType(t), depth)
        is None);
    assert(elements_checked(norm, ctx, e, norm.normal_form(t), rest, 0, depth) is None);
    if mentions(y, k, first) {
        typed_is_closed(norm, ctx, first, depth, y, k);
    } else {
        let i = choose|i: int| 0 <= i < rest.len() && mentions(y, k, #[trigger] rest[i]);
        elements_are_typed(norm, ctx, e, norm.normal_form(t), rest, 0, i, depth);
        typed_is_closed(norm, ctx, rest[i], depth, y, k);
    }
}

/// [`typed_is_closed`] for the forms that are typed part by part in the
/// context of the whole.
pub proof fn parts_are_closed<N: Normalizer>(
    norm: N,
    ctx: Seq<(Seq<char>, Term)>,
    e: Term,
    depth: nat,
    y: Seq<char>,
    k: int,
)
    requires
        k >= 0,
        depth > 0,
        e is Annot || e is EmptyListLit || e is EmptyOptionalLit || e is NEOptionalLit || e
            is Field || e is BinOp,
        typing(norm, ctx, e, depth) is Ok,
        mentions(y, k, e),
    ensures
        lookup_frames(ctx, y, k) is Some,
    decreases depth, 0nat, 1nat,
{
    let d = (depth - 1) as nat;
    match e {
        Term::Annot(x, t) => {
            assert(typing_annot(norm, ctx, e, *x, *t, d) is Ok);
            assert(typing(norm, ctx, *t, d) is Ok);
            assert(normalized_typing(norm, ctx, *x, d) is Ok);
            assert(typing(norm, ctx, *x, d) is Ok);
            if mentions(y, k, *x) {
                typed_is_closed(norm, ctx, *x, d, y, k);
            } else {
                typed_is_closed(norm, ctx, *t, d, y, k);
            }
        },
        Term::EmptyListLit(t) => {
            assert(typing_empty(norm, ctx, e, Builtin::List, *t, d) is Ok);
            let m = crate::typecheck::invalid_element_type(Builtin::List, *t);
            assert(checked_type(norm, ctx, e, *t, m, d) is None);
            assert(normalized_typing(norm, ctx, *t, d) is Ok);
            typed_is_closed(norm, ctx, *t, d, y, k);
        },
        Term::EmptyOptionalLit(t) => {
            assert(typing_empty(norm, ctx, e, Builtin::Optional, *t, d) is Ok);
            let m = crate::typecheck::invalid_element_type(Builtin::Optional, *t);
            assert(checked_type(norm, ctx, e, *t, m, d) is None);
            assert(normalized_typing(norm, ctx, *t, d) is Ok);
            typed_is_closed(norm, ctx, *t, d, y, k);
        },
        Term::NEOptionalLit(x) => {
            assert(typing_some(norm, ctx, e, *x, d) is Ok);
            assert(typing(norm, ctx, *x, d) is Ok);
            typed_is_closed(norm, ctx, *x, d, y, k);
        },
        Term::Field(r, x) => {
            assert(typing_field(norm, ctx, e, *r, x, d) is Ok);
            assert(normalized_typing(norm, ctx, *r, d) is Ok);
            typed_is_closed(norm, ctx, *r, d, y, k);
        },
        Term::BinOp(o, l, r) => {
            assert(typing_binop(norm, ctx, e, o, *l, *r, d) is Ok);
            assert(normalized_typing(norm, ctx, *l, d) is Ok);
            assert(normalized_typing(norm, ctx, *r, d) is Ok);
            if mentions(y, k, *l) {
                typed_is_closed(norm, ctx, *l, d, y, k);
            } else {
                typed_is_closed(norm, ctx, *r, d, y, k);
            }
        },
        _ => {},
    }
}

/// [`typed_is_closed`] for records and unions.
pub proof fn entries_are_closed<N: Normalizer>(
    norm: N,
    ctx: Seq<(Seq<char>, Term)>,
    e: Term,
    depth: nat,
    y: Seq<char>,
    k: int,
)
    requires
        k >= 0,
        depth > 0,
        e is RecordType || e is RecordLit || e is UnionType,
        typing(norm, ctx, e, depth) is Ok,
        mentions(y, k, e),
    ensures
        lookup_frames(ctx, y, k) is Some,
    decreases depth, 0nat, 1nat,
{
    let d = (depth - 1) as nat;
    match e {
        Term::RecordType(kts) => {
            assert(mentions_in_fields(y, k, kts));
            assert(fields_checked(norm, ctx, e, kts, 0, d) is None);
            let i = choose|i: int| 0 <= i < kts.len() && mentions(y, k, (#[trigger] kts[i]).1);
            fields_are_typed(norm, ctx, e, kts, 0, i, d);
            typed_is_closed(norm, ctx, kts[i].1, d, y, k);
        },
        Term::RecordLit(kvs) => {
            assert(mentions_in_fields(y, k, kvs));
            assert(field_types(norm, ctx, e, kvs, 0, Seq::empty(), d) is Ok);
            let i = choose|i: int| 0 <= i < kvs.len() && mentions(y, k, (#[trigger] kvs[i]).1);
            field_values_are_typed(norm, ctx, e, kvs, 0, Seq::empty(), i, d);
            typed_is_closed(norm, ctx, kvs[i].1, d, y, k);
        },
        Term::UnionType(kts) => {
            assert(mentions_in_alternatives(y, k, kts));
            assert(alternatives_checked(norm, ctx, e, kts, 0, d) is None);
            let i = choose|i: int|
                0 <= i < kts.len() && match (#[trigger] kts[i]).1 {
                    Some(u) => mentions(y, k, u),
                    None => false,
                };
            alternatives_are_typed(norm, ctx, e, kts, 0, i, d);
            typed_is_closed(norm, ctx, kts[i].1->0, d, y, k);
        },
        _ => {},
    }
}

/// A term that has a type mentions no unbound variable: every variable that
/// is free in it is bound by the context.
pub proof fn typed_is_closed<N: Normalizer>(
    norm: N,
    ctx: Seq<(Seq<char>, Term)>,
    e: Term,
    depth: nat,
    y: Seq<char>,
    k: int,
)
    requires
        k >= 0,
        typing(norm, ctx, e, depth) is Ok,
        mentions(y, k, e),
    ensures
        lookup_frames(ctx, y, k) is Some,
    decreases depth, 0nat, 2nat,
{
    let d = (depth - 1) as nat;
    match e {
        Term::Lam(x, a, b) => lam_is_closed(norm, ctx, e, x, *a, *b, d, y, k),
        Term::Pi(x, a, b) => pi_is_closed(norm, ctx, e, x, *a, *b, d, y, k),
        Term::App(f, args) => app_is_closed(norm, ctx, e, *f, args, d, y, k),
        Term::Let(x, t, r, b) => {
            let bound = match t {
                Some(t) => Term::Annot(r, t),
                None => *r,
            };
            assert(mentions(y, k, bound) || mentions(y, below(y, k, x), *b));
            let_is_closed(norm, ctx, e, x, bound, *b, d, y, k);
        },
        Term::BoolIf(c, a, b) => if_is_closed(norm, ctx, e, *c, *a, *b, d, y, k),
        Term::NEListLit(first, rest) => list_is_closed(norm, ctx, e, *first, rest, d, y, k),
        Term::Annot(_, _) | Term::EmptyListLit(_) | Term::EmptyOptionalLit(_) | Term::NEOptionalLit(
            _,
        ) | Term::Field(_, _) | Term::BinOp(_, _, _) => parts_are_closed(
            norm,
            ctx,
            e,
            depth,
            y,
            k,
        ),
        Term::RecordType(_) | Term::RecordLit(_) | Term::UnionType(_) => entries_are_closed(
            norm,
            ctx,
            e,
            depth,
            y,
            k,
        ),
        _ => {},
    }
}

/// The type of a built-in constant mentions no variable.
pub proof fn builtin_type_is_closed(b: Builtin, y: Seq<char>, k: int)
    requires
        k >= 0,
    ensures
        !mentions(y, k, builtin_type(b)),
{
    reveal_with_fuel(mentions, 8);
    let a = Term::named("a"@);
    let entries = seq![("index"@, Term::Builtin(Builtin::Natural)), ("value"@, a)];
    let indexed = seq![Term::indexed_type()];
    assert forall|m: int| #[trigger] mentions_in_terms(y, m, seq![a]) implies mentions(y, m, a) by {
        let i = choose|i: int| 0 <= i < seq![a].len() && mentions(y, m, #[trigger] seq![a][i]);
        assert(seq![a][i] == a);
    }
    assert forall|m: int| #[trigger] mentions_in_fields(y, m, entries) implies mentions(
        y,
        m,
        a,
    ) by {
        let i = choose|i: int|
            0 <= i < entries.len() && mentions(y, m, (#[trigger] entries[i]).1);
        assert(entries[i].1 == a || entries[i].1 == Term::Builtin(Builtin::Natural));
    }
    assert forall|m: int| #[trigger] mentions_in_terms(y, m, indexed) implies mentions(
        y,
        m,
        a,
    ) by {
        let i = choose|i: int| 0 <= i < indexed.len() && mentions(y, m, #[trigger] indexed[i]);
        assert(indexed[i] == Term::indexed_type());
        assert(mentions_in_fields(y, m, entries));
    }
}

/// [`type_is_closed`] for the types of the fields of a record literal.
pub proof fn field_types_are_closed<N: Normalizer>(
    norm: N,
    ctx: Seq<(Seq<char>, Term)>,
    e: Term,
    kvs: Seq<(Seq<char>, Term)>,
    from: nat,
    done: Seq<(Seq<char>, Term)>,
    depth: nat,
    y: Seq<char>,
    k: int,
)
    requires
        normalizer_adds_no_variable(norm),
        well_scoped(ctx),
        k >= 0,
        field_types(norm, ctx, e, kvs, from, done, depth) is Ok,
        mentions_in_fields(y, k, field_types(norm, ctx, e, kvs, from, done, depth)->Ok_0),
        mentions_in_fields(y, k, done) ==> lookup_frames(ctx, y, k) is Some,
    ensures
        lookup_frames(ctx, y, k) is Some,
    decreases depth, 1nat, kvs.len() - from,
{
    if from < kvs.len() {
        let t = typing(norm, ctx, kvs[from as int].1, depth)->Ok_0;
        let next = done.push((kvs[from as int].0, t));
        assert(typing(norm, ctx, kvs[from as int].1, depth) is Ok);
        if mentions_in_fields(y, k, next) {
            let i = choose|i: int| 0 <= i < next.len() && mentions(y, k, (#[trigger] next[i]).1);
            if i < done.len() {
                assert(next[i] == done[i]);
                assert(mentions_in_fields(y, k, done));
            } else {
                assert(next[i].1 == t);
                type_is_closed(norm, ctx, kvs[from as int].1, depth, y, k);
            }
        }
        field_types_are_closed(norm, ctx, e, kvs, from + 1, next, depth, y, k);
    }
}

/// The context below a binder whose type has a type is well scoped where the
/// context above is.
pub proof fn typed_binder_keeps_scope<N: Normalizer>(
    norm: N,
    ctx: Seq<(Seq<char>, Term)>,
    x: Seq<char>,
    a: Term,
    depth: nat,
)
    requires
        well_scoped(ctx),
        typing(norm, ctx, a, depth) is Ok,
    ensures
        well_scoped(insert_frames(ctx, x, a)),
{
    assert forall|y: Seq<char>, k: int| k >= 0 && #[trigger] mentions(
        y,
        k,
        a,
    ) implies lookup_frames(ctx, y, k) is Some by {
        typed_is_closed(norm, ctx, a, depth, y, k);
    }
    insert_keeps_scope(ctx, x, a);
}

/// [`type_is_closed`] for a function.
pub proof fn lam_type_is_closed<N: Normalizer>(
    norm: N,
    ctx: Seq<(Seq<char>, Term)>,
    e: Term,
    x: Seq<char>,
    a: Term,
    b: Term,
    depth: nat,
    y: Seq<char>,
    k: int,
)
    requires
        normalizer_adds_no_variable(norm),
        well_scoped(ctx),
        k >= 0,
        typing_lam(norm, ctx, e, x, a, b, depth) is Ok,
        mentions(y, k, typing_lam(norm, ctx, e, x, a, b, depth)->Ok_0),
    ensures
        lookup_frames(ctx, y, k) is Some,
    decreases depth, 2nat, 0nat,
{
    let inner = insert_frames(ctx, x, a);
    let tb = typing(norm, inner, b, depth)->Ok_0;
    let p = Term::Pi(x, Box::new(a), Box::new(tb));
    assert(typing_lam(norm, ctx, e, x, a, b, depth) == Ok::<Term, crate::error::ErrorModel>(p));
    assert(typing(norm, ctx, p, depth) is Ok);
    assert(typing_pi(norm, ctx, p, x, a, tb, (depth - 1) as nat) is Ok);
    assert(normalized_typing(norm, ctx, a, (depth - 1) as nat) is Ok);
    assert(typing(norm, ctx, a, (depth - 1) as nat) is Ok);
    if mentions(y, k, a) {
        typed_is_closed(norm, ctx, a, (depth - 1) as nat, y, k);
    } else {
        assert(mentions(y, below(y, k, x), tb));
        typed_binder_keeps_scope(norm, ctx, x, a, (depth - 1) as nat);
        type_is_closed(norm, inner, b, depth, y, below(y, k, x));
        bound_above_binder(ctx, x, a, y, k);
    }
}

/// [`type_is_closed`] for an application.
pub proof fn app_type_is_closed<N: Normalizer>(
    norm: N,
    ctx: Seq<(Seq<char>, Term)>,
    e: Term,
    f: Term,
    args: Seq<Term>,
    depth: nat,
    y: Seq<char>,
    k: int,
)
    requires
        normalizer_adds_no_variable(norm),
        well_scoped(ctx),
        k >= 0,
        typing_app(norm, ctx, e, f, args, depth) is Ok,
        mentions(y, k, typing_app(norm, ctx, e, f, args, depth)->Ok_0),
    ensures
        lookup_frames(ctx, y, k) is Some,
    decreases depth, 2nat, 0nat,
{
    if args.len() == 0 {
        type_is_closed(norm, ctx, f, depth, y, k);
    } else {
        let init = Term::App(Box::new(f), args.drop_last());
        let a = args.last();
        assert(normalized_typing(norm, ctx, init, depth) is Ok);
        assert(typing(norm, ctx, init, depth) is Ok);
        let found = typing(norm, ctx, init, depth)->Ok_0;
        let tf = norm.normal_form(found);
        assert(normalized_typing(norm, ctx, init, depth) == Ok::<Term, crate::error::ErrorModel>(
            tf,
        ));
        assert(tf is Pi);
        let x = tf->Pi_0;
        let tb = *tf->Pi_2;
        assert(normalized_typing(norm, ctx, a, depth) is Ok);
        assert(typing(norm, ctx, a, depth) is Ok);
        assert(typing_app(norm, ctx, e, f, args, depth) == Ok::<Term, crate::error::ErrorModel>(
            subst_shifted(x, 0, a, tb),
        ));
        subst_shift_adds_no_variable(x, a, tb, y, k);
        if mentions(y, k, a) {
            typed_is_closed(norm, ctx, a, depth, y, k);
        } else {
            assert(mentions(y, below(y, k, x), tb));
            assert(mentions(y, k, tf));
            assert(mentions(y, k, found));
            type_is_closed(norm, ctx, init, depth, y, k);
        }
    }
}

/// [`type_is_closed`] for a definition.
pub proof fn let_type_is_closed<N: Normalizer>(
    norm: N,
    ctx: Seq<(Seq<char>, Term)>,
    e: Term,
    x: Seq<char>,
    r: Term,
    b: Term,
    depth: nat,
    y: Seq<char>,
    k: int,
)
    requires
        normalizer_adds_no_variable(norm),
        well_scoped(ctx),
        k >= 0,
        typing_let(norm, ctx, e, x, r, b, depth) is Ok,
        mentions(y, k, typing_let(norm, ctx, e, x, r, b, depth)->Ok_0),
    ensures
        lookup_frames(ctx, y, k) is Some,
    decreases depth, 2nat, 0nat,
{
    assert(typing(norm, ctx, r, depth) is Ok);
    let tr = typing(norm, ctx, r, depth)->Ok_0;
    assert(normalized_typing(norm, ctx, tr, depth) is Ok);
    assert(normalized_typing(norm, ctx, tr, depth)->Ok_0 is Const);
    let inner = insert_frames(ctx, x, tr);
    assert(typing(norm, inner, b, depth) is Ok);
    let tb = typing(norm, inner, b, depth)->Ok_0;
    assert(normalized_typing(norm, ctx, tb, depth) is Ok);
    assert(typing(norm, ctx, tb, depth) is Ok);
    assert(typing_let(norm, ctx, e, x, r, b, depth) == Ok::<Term, crate::error::ErrorModel>(tb));
    typed_is_closed(norm, ctx, tb, depth, y, k);
}

/// [`type_is_closed`] for the forms whose type is the normal form of a type
/// found for a part, or holds such a normal form.
pub proof fn part_type_is_closed<N: Normalizer>(
    norm: N,
    ctx: Seq<(Seq<char>, Term)>,
    e: Term,
    depth: nat,
    y: Seq<char>,
    k: int,
)
    requires
        normalizer_adds_no_variable(norm),
        well_scoped(ctx),
        k >= 0,
        depth > 0,
        e is Annot || e is BoolIf || e is EmptyListLit || e is EmptyOptionalLit || e
            is NEOptionalLit || e is NEListLit || e is Field,
        typing(norm, ctx, e, depth) is Ok,
        mentions(y, k, typing(norm, ctx, e, depth)->Ok_0),
    ensures
        lookup_frames(ctx, y, k) is Some,
    decreases depth, 0nat, 1nat,
{
    let d = (depth - 1) as nat;
    match e {
        Term::Annot(x, t) => {
            assert(typing_annot(norm, ctx, e, *x, *t, d) is Ok);
            assert(typing(norm, ctx, *t, d) is Ok);
            assert(typing(norm, ctx, e, depth) == Ok::<Term, crate::error::ErrorModel>(
                norm.normal_form(*t),
            ));
            assert(mentions(y, k, *t));
            typed_is_closed(norm, ctx, *t, d, y, k);
        },
        Term::BoolIf(c, a, b) => {
            assert(typing_if(norm, ctx, e, *c, *a, *b, d) is Ok);
            assert(typing_branch(norm, ctx, e, true, *a, d) is Ok);
            assert(normalized_typing(norm, ctx, *a, d) is Ok);
            assert(typing(norm, ctx, *a, d) is Ok);
            let found = typing(norm, ctx, *a, d)->Ok_0;
            assert(typing(norm, ctx, e, depth) == Ok::<Term, crate::error::ErrorModel>(
                norm.normal_form(found),
            ));
            assert(mentions(y, k, found));
            type_is_closed(norm, ctx, *a, d, y, k);
        },
        Term::EmptyListLit(t) => {
            assert(typing_empty(norm, ctx, e, Builtin::List, *t, d) is Ok);
            let m = crate::typecheck::invalid_element_type(Builtin::List, *t);
            assert(checked_type(norm, ctx, e, *t, m, d) is None);
            assert(normalized_typing(norm, ctx, *t, d) is Ok);
            assert(typing(norm, ctx, *t, d) is Ok);
            applied_mentions(Term::Builtin(Builtin::List), norm.normal_form(*t), y, k);
            assert(mentions(y, k, *t));
            typed_is_closed(norm, ctx, *t, d, y, k);
        },
        Term::EmptyOptionalLit(t) => {
            assert(typing_empty(norm, ctx, e, Builtin::Optional, *t, d) is Ok);
            let m = crate::typecheck::invalid_element_type(Builtin::Optional, *t);
            assert(checked_type(norm, ctx, e, *t, m, d) is None);
            assert(normalized_typing(norm, ctx, *t, d) is Ok);
            assert(typing(norm, ctx, *t, d) is Ok);
            applied_mentions(Term::Builtin(Builtin::Optional), norm.normal_form(*t), y, k);
            assert(mentions(y, k, *t));
            typed_is_closed(norm, ctx, *t, d, y, k);
        },
        Term::NEOptionalLit(x) => {
            assert(typing_some(norm, ctx, e, *x, d) is Ok);
            assert(typing(norm, ctx, *x, d) is Ok);
            let found = typing(norm, ctx, *x, d)->Ok_0;
            applied_mentions(Term::Builtin(Builtin::Optional), norm.normal_form(found), y, k);
            assert(mentions(y, k, found));
            type_is_closed(norm, ctx, *x, d, y, k);
        },
        Term::NEListLit(first, rest) => {
            assert(typing_list(norm, ctx, e, *first, rest, d) is Ok);
            assert(typing(norm, ctx, *first, d) is Ok);
            let found = typing(norm, ctx, *first, d)->Ok_0;
            applied_mentions(Term::Builtin(Builtin::List), norm.normal_form(found), y, k);
            assert(mentions(y, k, found));
            type_is_closed(norm, ctx, *first, d, y, k);
        },
        Term::Field(r, x) => {
            assert(typing_field(norm, ctx, e, *r, x, d) is Ok);
            assert(normalized_typing(norm, ctx, *r, d) is Ok);
            assert(typing(norm, ctx, *r, d) is Ok);
            let found = typing(norm, ctx, *r, d)->Ok_0;
            let t = norm.normal_form(found);
            assert(normalized_typing(norm, ctx, *r, d) == Ok::<Term, crate::error::ErrorModel>(
                t,
            ));
            assert(t is RecordType);
            let kts = t->RecordType_0;
            assert(field_from(kts, x, 0) is Some);
            let i = field_found(kts, x, 0);
            assert(mentions(y, k, kts[i].1));
            assert(mentions_in_fields(y, k, kts));
            assert(mentions(y, k, t));
            assert(mentions(y, k, found));
            type_is_closed(norm, ctx, *r, d, y, k);
        },
        _ => {},
    }
}

/// The variables of an application to one argument are those of the head
/// and of the argument.
pub proof fn applied_mentions(f: Term, a: Term, y: Seq<char>, k: int)
    ensures
        mentions(y, k, Term::applied(f, a)) == (mentions(y, k, f) || mentions(y, k, a)),
{
    let args = seq![a];
    if mentions_in_terms(y, k, args) {
        let i = choose|i: int| 0 <= i < args.len() && mentions(y, k, #[trigger] args[i]);
        assert(args[i] == a);
    }
    if mentions(y, k, a) {
        assert(args[0] == a);
        assert(mentions_in_terms(y, k, args));
    }
}

/// The type of a term is valid in the context of the term: in a well-scoped
/// context, and with a normalizer that brings in no variable, every variable
/// that is free in the type is bound by the context.
pub proof fn type_is_closed<N: Normalizer>(
    norm: N,
    ctx: Seq<(Seq<char>, Term)>,
    e: Term,
    depth: nat,
    y: Seq<char>,
    k: int,
)
    requires
        normalizer_adds_no_variable(norm),
        well_scoped(ctx),
        k >= 0,
        typing(norm, ctx, e, depth) is Ok,
        mentions(y, k, typing(norm, ctx, e, depth)->Ok_0),
    ensures
        lookup_frames(ctx, y, k) is Some,
    decreases depth, 0nat, 2nat,
{
    let d = (depth - 1) as nat;
    match e {
        Term::Var(x, n) => {
            let i = lookup_finds_a_frame(ctx, x, n);
            assert(closed_in(ctx, ctx[i].1));
        },
        Term::Lam(x, a, b) => lam_type_is_closed(norm, ctx, e, x, *a, *b, d, y, k),
        Term::App(f, args) => app_type_is_closed(norm, ctx, e, *f, args, d, y, k),
        Term::Let(x, t, r, b) => {
            let bound = match t {
                Some(t) => Term::Annot(r, t),
                None => *r,
            };
            let_type_is_closed(norm, ctx, e, x, bound, *b, d, y, k);
        },
        Term::Annot(_, _) | Term::BoolIf(_, _, _) | Term::EmptyListLit(_) | Term::EmptyOptionalLit(
            _,
        ) | Term::NEOptionalLit(_) | Term::NEListLit(_, _) | Term::Field(
            _,
            _,
        ) => part_type_is_closed(norm, ctx, e, depth, y, k),
        Term::RecordLit(kvs) => {
            assert(field_types(norm, ctx, e, kvs, 0, Seq::empty(), d) is Ok);
            let kts = field_types(norm, ctx, e, kvs, 0, Seq::empty(), d)->Ok_0;
            assert(typing(norm, ctx, e, depth) == Ok::<Term, crate::error::ErrorModel>(
                Term::RecordType(kts),
            ));
            assert(mentions_in_fields(y, k, kts));
            assert(!mentions_in_fields(y, k, Seq::<(Seq<char>, Term)>::empty()));
            field_types_are_closed(norm, ctx, e, kvs, 0, Seq::empty(), d, y, k);
        },
        Term::Builtin(b) => builtin_type_is_closed(b, y, k),
        _ => {},
    }
}

/// In a well-scoped context, the type of a term is closed in that context.
pub proof fn type_is_valid<N: Normalizer>(
    norm: N,
    ctx: Seq<(Seq<char>, Term)>,
    e: Term,
    depth: nat,
)
    requires
        normalizer_adds_no_variable(norm),
        well_scoped(ctx),
    ensures
        typing(norm, ctx, e, depth) matches Ok(t) ==> closed_in(ctx, e) && closed_in(ctx, t),
{
    if typing(norm, ctx, e, depth) is Ok {
        let t = typing(norm, ctx, e, depth)->Ok_0;
        assert forall|y: Seq<char>, k: int| k >= 0 && #[trigger] mentions(
            y,
            k,
            e,
        ) implies lookup_frames(ctx, y, k) is Some by {
            typed_is_closed(norm, ctx, e, depth, y, k);
        }
        assert forall|y: Seq<char>, k: int| k >= 0 && #[trigger] mentions(
            y,
            k,
            t,
        ) implies lookup_frames(ctx, y, k) is Some by {
            type_is_closed(norm, ctx, e, depth, y, k);
        }
    }
}

} // verus!
