//! The type checker of the Nether language, and the rules of its runtime.
//!
//! [`check`] takes a parsed module and its resolved names. It gives every
//! expression a type, enforces ownership, borrowing, generic bounds, traits,
//! existentials, unsafe code and concurrency, and reports what it finds wrong.
//! Its contract says exactly which tables and which errors come out.
//!
//! The modules `ast`, `names`, `ids` and `diagnostics` hold what goes in and
//! out. `ty`, `sig`, `subst`, `rules` and `send_sync` hold types, signatures
//! and what can be said of a type. `lower`, `declarations`, `owners`,
//! `traits`, `impls`, `associated`, `origins`, `layout` and `casing` turn
//! declarations into signatures. [`mod@check`] checks bodies. [`runtime`] is
//! about compiled programs. `conformance`, `inheritance`, `structural` and
//! `written` state what follows for implementations, for what traits hand down,
//! for the structure of types, and for what declarations denote.
use vstd::prelude::*;

pub mod associated;
pub mod ast;
pub mod casing;
pub mod check;
pub mod conformance;
pub mod datum;
pub mod declarations;
pub mod describe;
pub mod diagnostics;
pub mod ids;
pub mod impls;
pub mod inheritance;
pub mod layout;
pub mod lower;
pub mod names;
pub mod origin_laws;
pub mod origins;
pub mod owners;
pub mod representation;
pub mod rules;
pub mod runtime;
pub mod send_sync;
pub mod sig;
pub mod structural;
pub mod subst;
pub mod table;
pub mod text;
pub mod traits;
pub mod ty;
pub mod uses;
pub mod written;

pub use check::entry::{check, TypedTables};
pub use ids::DefId;
pub use representation::{alloc_kind, AllocKind};
pub use sig::{EnumSig, FnSig, GenericBound, ParamSig, ReceiverDomain, ReturnOrigin, Signatures, TypeShape};
pub use ty::{PrimitiveKind, Type};

verus! {

} // verus!
