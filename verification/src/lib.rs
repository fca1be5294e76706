//! Type checking for a small dependently typed configuration language.
//!
//! - `syntax`: expressions, and the terms they stand for in contracts.
//! - `shift`, `subst`: shifting the indices of free variables, substitution.
//! - `context`: the typing context of names and types; `binder`, `tyctx`: a
//!   typing context over binders with ids, which agrees with the first.
//! - `equiv`: equivalence of types up to the names of binders.
//! - `builtins`: the types of the built-in constants.
//! - `normalize`: what is asked of a normalizer; `reduce`: one that reduces
//!   what the syntax alone can reduce.
//! - `typecheck`: type synthesis; `error`: what it reports.
//! - `records`: the order of the entries of records and unions.
//! - `quote`: Rust source text that builds an expression.
//! - the modules whose names end in `_laws`: what is proved of the others.

pub mod binder;
pub mod builtins;
pub mod context;
pub mod context_laws;
pub mod equiv;
pub mod equiv_laws;
pub mod error;
pub mod normalize;
pub mod quote;
pub mod records;
pub mod records_laws;
pub mod reduce;
pub mod reduce_laws;
pub mod scope_laws;
pub mod shift;
pub mod shift_laws;
pub mod subst;
pub mod subst_laws;
pub mod syntax;
pub mod tyctx;
pub mod tyctx_laws;
pub mod typecheck;
pub mod typing_laws;
