//! What type synthesis asks of a normalizer.

use crate::records::well_formed;
use crate::shift_laws::mentions;
use crate::syntax::{Expr, Term};
use vstd::prelude::*;

verus! {

/// A normalizer: a function from terms to terms in normal form.
///
/// Type synthesis normalizes a type before it takes it apart and before it
/// compares it with another. It asks one thing of a normalizer: that the term
/// it returns depends on the term it was given alone, so that
/// [`Normalizer::normal_form`] names it.
pub trait Normalizer {
    /// The normal form that this normalizer gives to a term.
    spec fn normal_form(&self, t: Term) -> Term;

    /// Brings `e` to normal form.
    fn normalize(&self, e: &Expr) -> (res: Expr)
        ensures
            res@ == self.normal_form(e@),
    ;
}

/// Whether the normalizer gives well-formed terms for well-formed terms.
pub open spec fn normalizer_keeps_form<N: Normalizer>(norm: N) -> bool {
    forall|t: Term| well_formed(t) ==> well_formed(#[trigger] norm.normal_form(t))
}

/// Whether the normalizer brings in no variable: whether every variable
/// that is free in a normal form is free in the term it is the normal form of.
pub open spec fn normalizer_adds_no_variable<N: Normalizer>(norm: N) -> bool {
    forall|y: Seq<char>, k: int, t: Term|
        k >= 0 && #[trigger] mentions(y, k, norm.normal_form(t)) ==> mentions(y, k, t)
}

} // verus!
