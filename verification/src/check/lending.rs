//! What a value that is lent without an error is: of the type that the
//! reference declares, still there, and not lent in a way that conflicts.
use crate::ast::{Expr, LetStmt, Stmt};
use crate::check::borrows::{borrow_arg, lent, reborrows, referent, relent};
use crate::check::facts::bare_local;
use crate::check::growth::{group_grows, group_steps, lemma_one_error};
use crate::check::model::{expr, stmt};
use crate::check::record::{run_expr, run_stored_borrow};
use crate::check::rules::stored_owned;
use crate::check::state::{Env, St};
use crate::check::typing::no_error;
use crate::ids::LocalId;
use crate::rules::normal;
use crate::ty::{fits, Ty};
use vstd::prelude::*;

verus! {

broadcast use {group_grows, group_steps, lemma_one_error};

/// Whether a local can be lent: it has not been moved away, nothing that was
/// lent of it is in use exclusively and, to lend it exclusively, nothing of it
/// is in use at all.
pub open spec fn can_lend(st: St, local: LocalId, exclusively: bool) -> bool {
    &&& !st.moved.contains_key(local)
    &&& st.borrows.contains_key(local) ==> st.borrows[local].1 is None
    &&& exclusively && st.borrows.contains_key(local) ==> st.borrows[local].0 == 0
}

/// What a reference type refers to, and whether exclusively.
pub open spec fn refers_to(t: Ty, to: Ty, exclusively: bool) -> bool {
    t == (if exclusively {
        Ty::MutRef(Box::new(to))
    } else {
        Ty::Ref(Box::new(to))
    })
}

/// A reference to an owned local is stored without an error exactly if it
/// refers to a value of the type that it declares, the local can be lent that
/// way, and for an exclusive reference is mutable.
pub proof fn law_stored_owned_values_fit(
    e: Env,
    st: St,
    value: Expr,
    origin: LocalId,
    owned: Ty,
    mutable: bool,
    declared: Ty,
    to: Ty,
    exclusively: bool,
)
    requires
        !st.silent,
        refers_to(declared, to, exclusively),
    ensures
        ({
            let after = stored_owned(e, st, value, origin, owned, mutable, declared).0;
            no_error(st, after) <==> owned is Unique && fits(*(owned->Unique_0), to) && (exclusively ==> mutable)
                && can_lend(st, origin, exclusively)
        }),
{
    reveal(stored_owned);
    reveal(St::used);
}

/// A `let` that stores a reference to an owned local and adds no error: the
/// local is of an owned type, and what it owns fits the type that the reference
/// declares to refer to.
pub proof fn law_stored_references_refer_to_their_type(
    e: Env,
    st: St,
    l: LetStmt,
    origin: LocalId,
    held: Ty,
    mutable: bool,
    to: Ty,
    exclusively: bool,
)
    requires
        !st.silent,
        l.ty is Some,
        refers_to(normal(e.sigs, st.lowered(e.sc, l.ty->0).0), to, exclusively),
        bare_local(e.sc.names, l.value) == Some(origin),
        st.locals.get(origin) == Some((held, mutable)),
        !(held is Ref) && !(held is MutRef),
        stmt(e, st, Stmt::Let(l)).0.diags.len() == st.diags.len(),
    ensures
        held is Unique,
        fits(*(held->Unique_0), to),
        exclusively ==> mutable,
        can_lend(st, origin, exclusively),
{
    let (t, st1) = st.lowered(e.sc, l.ty->0);
    let declared = normal(e.sigs, t);
    assert(st1 == (St { diags: st1.diags, ..st }));
    run_stored_borrow(e, st1, l.value, declared);
    law_stored_owned_values_fit(e, st1, l.value, origin, held, mutable, declared, to, exclusively);
}

/// Whether a local may be lent to a parameter of a reference type in a call that
/// has already borrowed `borrowed`: exclusively at most once and not beside
/// another.
pub open spec fn can_lend_once_more(borrowed: Map<LocalId, bool>, local: LocalId, exclusively: bool) -> bool {
    borrowed.contains_key(local) ==> !exclusively && !borrowed[local]
}

/// An argument for a reference parameter adds no error exactly if it is a
/// local that owns a value of the type that the parameter refers to, which can
/// be lent that way once more, or a reference of which another one can be made:
/// an exclusive one only from an exclusive one.
pub proof fn law_lent_arguments_fit(
    e: Env,
    st: St,
    arg: Expr,
    t: Ty,
    to: Ty,
    exclusively: bool,
    borrowed: Map<LocalId, bool>,
    local: LocalId,
    held: Ty,
    mutable: bool,
)
    requires
        !st.silent,
        refers_to(t, to, exclusively),
        bare_local(e.sc.names, arg) == Some(local),
        st.locals.get(local) == Some((held, mutable)),
    ensures
        ({
            let (after, given, _) = borrow_arg(e, st, arg, t, borrowed);
            match held {
                Ty::Unique(inner) => {
                    &&& no_error(st, after) <==> fits(*inner, to) && (exclusively ==> mutable) && can_lend(
                        st,
                        local,
                        exclusively,
                    ) && can_lend_once_more(borrowed, local, exclusively)
                    &&& refers_to(given, *inner, exclusively)
                },
                Ty::Ref(inner) => {
                    &&& no_error(st, after) <==> fits(*inner, to) && !exclusively
                    &&& no_error(st, after) ==> given == t
                },
                Ty::MutRef(inner) => {
                    &&& no_error(st, after) <==> fits(*inner, to) && (exclusively ==> mutable)
                    &&& no_error(st, after) ==> given == t
                },
                _ => !no_error(st, after) && given is Error,
            }
        }),
{
    reveal(borrow_arg);
    reveal(lent);
    reveal(relent);
    reveal(St::used);
    reveal(reborrows);
    reveal(referent);
}

/// Only a local can be lent to a reference parameter.
pub proof fn law_only_locals_are_lent(e: Env, st: St, arg: Expr, t: Ty, borrowed: Map<LocalId, bool>)
    requires
        !st.silent,
        bare_local(e.sc.names, arg) is None,
    ensures
        !no_error(st, borrow_arg(e, st, arg, t, borrowed).0),
        borrow_arg(e, st, arg, t, borrowed).1 is Error,
{
    reveal(borrow_arg);
}

/// A call remembers what it has borrowed: after an argument is lent exclusively
/// nothing more can be lent of the same local, and after it is lent shared,
/// nothing exclusively.
pub proof fn law_calls_remember_what_they_borrow(
    e: Env,
    st: St,
    arg: Expr,
    t: Ty,
    borrowed: Map<LocalId, bool>,
    local: LocalId,
    inner: Ty,
    mutable: bool,
    exclusively: bool,
)
    requires
        bare_local(e.sc.names, arg) == Some(local),
        st.locals.get(local) == Some((Ty::Unique(Box::new(inner)), mutable)),
        t is Ref || t is MutRef,
    ensures
        ({
            let after = borrow_arg(e, st, arg, t, borrowed).2;
            &&& t is MutRef ==> !can_lend_once_more(after, local, exclusively)
            &&& !can_lend_once_more(after, local, true)
            &&& forall|other: LocalId| #![trigger after.contains_key(other)]
                other != local ==> after.contains_key(other) == borrowed.contains_key(other) && (after.contains_key(
                    other,
                ) ==> after[other] == borrowed[other])
            &&& !can_lend_once_more(borrowed, local, false) ==> !can_lend_once_more(after, local, false)
        }),
{
    reveal(borrow_arg);
    reveal(lent);
}

/// A `let` with a declared type that adds no error binds a value that fits it:
/// what the initializer was found to be, read where a value of the declared type
/// is expected.
pub proof fn law_let_values_fit(e: Env, st: St, l: LetStmt)
    requires
        !st.silent,
        l.ty is Some,
        stmt(e, st, Stmt::Let(l)).0.diags.len() == st.diags.len(),
    ensures
        ({
            let (t, st1) = st.lowered(e.sc, l.ty->0);
            let declared = normal(e.sigs, t);
            !(declared is Ref) && !(declared is MutRef) ==> fits(expr(e, st1, l.value, Some(declared)).1, declared)
        }),
{
    let (t, st1) = st.lowered(e.sc, l.ty->0);
    let declared = normal(e.sigs, t);
    if !(declared is Ref) && !(declared is MutRef) {
        run_expr(e, st1, l.value, Some(declared));
        let (st3, value) = expr(e, st1, l.value, Some(declared));
        crate::check::laws::law_bound_values_fit(e, st3, l, declared, None, value);
    }
}

} // verus!
