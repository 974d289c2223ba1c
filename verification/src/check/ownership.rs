//! What holds of moves and borrows, of the types of control flow, and of
//! private fields.
use crate::ast::{Block, Expr, Literal};
use crate::check::borrows::{borrow_conflict, reference_origins, returned_reference, some_local};
use crate::check::facts::{bare_local, field_of, field_read, field_type, literal_type, private_field};
use crate::check::model::{assign, block, conditional, stmts, synth};
use crate::check::rules::{call_allowed, call_result, deref_allowed, exhaustive, uncovered};
use crate::check::state::{BorrowOrigin, Env, St};
use crate::datum::drop_one;
use crate::diagnostics::{diag, diag2};
use crate::ids::{DefId, LocalId, NodeId, Span, Visibility};
use crate::names::ResolvedNames;
use crate::sig::Sig;
use crate::ty::{ty_direct, ty_unit, PrimitiveKind, Ty};
use crate::uses::less;
use vstd::prelude::*;

verus! {

// ---------------------------------------------------------------------
// Moves
// ---------------------------------------------------------------------

/// Values that are not uniquely owned are shared freely: using one changes
/// nothing, however often it is used.
pub proof fn law_shared_values_never_move(st: St, local: LocalId, t: Ty, span: Span, consumes: bool)
    requires
        !(t is Unique),
    ensures
        st.used(local, t, span, consumes) == st,
{
    reveal(St::used);
}

/// The first consuming use of an owned local that is not borrowed is no error
/// and moves it.
pub proof fn law_consuming_moves(st: St, local: LocalId, t: Ty, span: Span)
    requires
        t is Unique,
        !st.borrows.contains_key(local),
        !st.moved.contains_key(local),
    ensures
        st.used(local, t, span, true) == (St { moved: st.moved.insert(local, span), ..st }),
{
    reveal(St::used);
}

/// Any use of a moved local is reported, with the place where it was moved.
pub proof fn law_use_after_move_is_reported(st: St, local: LocalId, t: Ty, span: Span, consumes: bool)
    requires
        t is Unique,
        !st.silent,
        !st.borrows.contains_key(local),
        st.moved.contains_key(local),
    ensures
        st.used(local, t, span, consumes) == (St {
            diags: st.diags.push(
                diag2(
                    "use of a value after it was moved"@,
                    st.moved[local],
                    "value moved here"@,
                    span,
                    "used again here, after the move"@,
                ),
            ),
            ..st
        }),
{
    reveal(St::used);
}

/// A second consuming use is always reported.
pub proof fn law_second_move_is_reported(st: St, local: LocalId, t: Ty, first: Span, second: Span)
    requires
        t is Unique,
        !st.silent,
        !st.borrows.contains_key(local),
    ensures
        st.used(local, t, first, true).used(local, t, second, true).diags.len() > st.diags.len(),
{
    reveal(St::used);
}

/// Reading an owned local never moves it.
pub proof fn law_reading_never_moves(st: St, local: LocalId, t: Ty, span: Span)
    ensures
        st.used(local, t, span, false).moved == st.moved,
{
    reveal(St::used);
    reveal(St::fail);
}

/// A borrowed local cannot be moved: the attempt is reported and nothing is
/// moved.
pub proof fn law_borrowed_value_stays(st: St, local: LocalId, t: Ty, span: Span)
    requires
        t is Unique,
        !st.silent,
        st.borrows.contains_key(local),
    ensures
        st.used(local, t, span, true) == (St {
            diags: st.diags.push(diag("cannot move a value while it is borrowed"@, span, "here"@)),
            ..st
        }),
{
    reveal(St::used);
    reveal(St::fail);
}

/// An exclusively borrowed local cannot even be read.
pub proof fn law_exclusive_borrow_excludes(st: St, local: LocalId, t: Ty, span: Span)
    requires
        t is Unique,
        !st.silent,
        st.borrows_of(local).1 is Some,
    ensures
        st.used(local, t, span, false) == (St {
            diags: st.diags.push(
                diag("cannot access a value directly while it is mutably borrowed"@, span, "here"@),
            ),
            ..st
        }),
{
    reveal(St::used);
    reveal(St::fail);
}

/// What a branch has moved counts as moved after it, unless the branch never
/// gets there; then nothing of it counts.
pub proof fn law_branches_merge(st: St, diverges: bool, moved: Map<LocalId, Span>, local: LocalId)
    ensures
        st.merged(diverges, moved).moved.contains_key(local) <==> st.moved.contains_key(local) || (!diverges
            && moved.contains_key(local)),
{
}

/// Assigning to a local makes it usable again.
pub proof fn law_assignment_revives(e: Env, st: St, target: Expr, value: Expr, local: LocalId)
    requires
        bare_local(e.sc.names, target) == Some(local),
    ensures
        !assign(e, st, target, value).0.moved.contains_key(local),
{
}

// ---------------------------------------------------------------------
// Borrows
// ---------------------------------------------------------------------

/// Shared borrows live side by side; an exclusive one lives alone.
pub proof fn law_borrows_exclude(shared: usize, exclusive: Option<Span>)
    ensures
        borrow_conflict((shared, exclusive), false) <==> exclusive is Some,
        borrow_conflict((shared, exclusive), true) <==> shared > 0 || exclusive is Some,
{
}

/// A stored borrow is live at once, and ends when its reference is released:
/// the owner's borrows are then what they were before.
pub proof fn law_borrow_ends_with_its_reference(
    st: St,
    names: ResolvedNames,
    site: NodeId,
    reference: LocalId,
    origin: LocalId,
    mutable: bool,
    span: Span,
)
    requires
        names.local(site) == Some(reference),
        !borrow_conflict(st.borrows_of(origin), mutable),
        st.borrows_of(origin).0 < usize::MAX,
        st.borrows.contains_key(origin) ==> st.borrows_of(origin).0 > 0 || st.borrows_of(origin).1 is Some,
    ensures
        ({
            let held = st.borrowed(names, site, origin, mutable, span);
            &&& held.borrows.contains_key(origin)
            &&& borrow_conflict(held.borrows_of(origin), true)
            &&& held.reference_origins.get(reference) == Some(BorrowOrigin::Local(origin))
            &&& held.reference_released(reference).borrows == st.borrows
        }),
{
    reveal(St::borrowed);
    let held = st.borrowed(names, site, origin, mutable, span);
    assert(held.reference_released(reference).borrows =~= st.borrows);
}

/// Whether no borrow is held in one state that is not held in another.
pub open spec fn fewer_borrows(a: St, b: St) -> bool {
    forall|l: LocalId| #![trigger b.borrow_origins.contains_key(l)] b.borrow_origins.contains_key(l)
        ==> a.borrow_origins.contains_key(l)
}

proof fn lemma_captures_released(st: St, captures: Seq<(LocalId, usize)>, i: int)
    ensures
        fewer_borrows(st, st.captures_released(captures, i)),
        st.captures_released(captures, i).pending_references == st.pending_references,
    decreases captures.len() - i,
{
    if 0 <= i < captures.len() {
        let reference = captures[i].0;
        let s = match st.remaining.get(reference) {
            None => st,
            Some(n) => {
                let n1 = less(n, captures[i].1);
                let s1 = St { remaining: st.remaining.insert(reference, n1), ..st };
                if n1 == 0 {
                    (St { pinned: drop_one(s1.pinned, reference), ..s1 }).reference_released(reference)
                } else {
                    s1
                }
            },
        };
        assert(fewer_borrows(st, s));
        lemma_captures_released(s, captures, i + 1);
    }
}

proof fn lemma_callable_released(st: St, callable: LocalId)
    ensures
        fewer_borrows(st, st.callable_released(callable)),
        st.callable_released(callable).pending_references == st.pending_references,
{
    if let Some(captures) = st.callable_uses.get(callable) {
        lemma_captures_released(St { callable_uses: st.callable_uses.remove(callable), ..st }, captures, 0);
    }
}

proof fn lemma_callables_released(st: St, locals: Seq<LocalId>, i: int)
    ensures
        fewer_borrows(st, st.callables_released(locals, i)),
        st.callables_released(locals, i).pending_references == st.pending_references,
    decreases locals.len() - i,
{
    if 0 <= i < locals.len() {
        lemma_callable_released(st, locals[i]);
        lemma_callables_released(st.callable_released(locals[i]), locals, i + 1);
    }
}

proof fn lemma_references_released(st: St, locals: Seq<LocalId>, i: int)
    requires
        0 <= i,
    ensures
        fewer_borrows(st, st.references_released(locals, i)),
        forall|j: int|
            #![trigger locals[j]]
            i <= j < locals.len() ==> !st.references_released(locals, i).borrow_origins.contains_key(locals[j]),
    decreases locals.len() - i,
{
    if i < locals.len() {
        let s = st.reference_released(locals[i]);
        assert(fewer_borrows(st, s));
        assert(!s.borrow_origins.contains_key(locals[i]));
        lemma_references_released(s, locals, i + 1);
    }
}

/// The last of a reference's uses marks it for release, unless a closure or a
/// loop still holds on to it.
pub proof fn law_last_use_is_noted(st: St, local: LocalId)
    requires
        !st.silent,
        !st.is_deferred(local),
        st.remaining.get(local) == Some(1usize),
    ensures
        !st.pinned.contains(local) ==> st.noted(local).pending_references.contains(local),
        st.pinned.contains(local) ==> st.noted(local).pending_references == st.pending_references,
{
    reveal(St::noted);
    let list = st.pending_references;
    if !list.contains(local) {
        assert(list.push(local)[list.len() as int] == local);
    }
}

/// At the end of a statement every reference that is marked for release holds
/// no borrow any more, and no borrow is new.
pub proof fn law_borrows_end_after_the_last_use(st: St, local: LocalId)
    requires
        st.pending_references.contains(local),
    ensures
        !st.flushed().borrow_origins.contains_key(local),
        fewer_borrows(st, st.flushed()),
{
    reveal(St::flushed);
    let s0 = St { pending_callables: Seq::empty(), ..st };
    lemma_callables_released(s0, st.pending_callables, 0);
    let s = s0.callables_released(st.pending_callables, 0);
    let s1 = St { pending_references: Seq::empty(), ..s };
    lemma_references_released(s1, s.pending_references, 0);
    let j = choose|j: int| 0 <= j < st.pending_references.len() && st.pending_references[j] == local;
    assert(s.pending_references[j] == local);
}

proof fn lemma_locals_closed(st: St, locals: Seq<LocalId>, n: int)
    ensures
        fewer_borrows(st, st.locals_closed(locals, n)),
        n <= locals.len() ==> forall|j: int|
            #![trigger locals[j]]
            0 <= j < n ==> !st.locals_closed(locals, n).borrow_origins.contains_key(locals[j]),
    decreases n,
{
    if 0 < n <= locals.len() {
        let local = locals[n - 1];
        let s = St {
            reference_origins: st.reference_origins.remove(local),
            callable_origins: st.callable_origins.remove(local),
            ..st
        };
        lemma_callable_released(s, local);
        let s1 = st.local_closed(local);
        assert(fewer_borrows(st, s1));
        assert(!s1.borrow_origins.contains_key(local));
        lemma_locals_closed(s1, locals, n - 1);
    }
}

/// At the end of a scope none of its locals holds a borrow any more.
pub proof fn law_borrows_end_with_the_scope(st: St, local: LocalId)
    requires
        st.scopes.len() > 0,
        st.scopes.last().contains(local),
    ensures
        !st.closed().borrow_origins.contains_key(local),
        fewer_borrows(st, st.closed()),
{
    reveal(St::closed);
    let locals = st.scopes.last();
    lemma_locals_closed(St { scopes: st.scopes.drop_last(), ..st }, locals, locals.len() as int);
    let j = choose|j: int| 0 <= j < locals.len() && locals[j] == local;
    assert(locals[j] == local);
}

/// A reference is returned without an error exactly when it comes from one
/// parameter: not from a local, not from several parameters, and not from an
/// unknown place.
pub proof fn law_returned_references_have_one_origin(e: Env, st: St, value: Expr, span: Span)
    requires
        !st.silent,
    ensures
        ({
            let origins = reference_origins(e, st, value);
            returned_reference(e, st, Some(Box::new(value)), span) == st <==> origins.len() == 1 && !some_local(
                origins,
                0,
            )
        }),
{
    reveal(returned_reference);
    reveal(St::fail);
    let origins = reference_origins(e, st, value);
    if !(origins.len() == 1 && !some_local(origins, 0)) {
        assert(returned_reference(e, st, Some(Box::new(value)), span).diags.len() == st.diags.len() + 1);
    }
}

// ---------------------------------------------------------------------
// Control flow
// ---------------------------------------------------------------------

/// Without a more specific expectation an integer literal is an `i32` and a
/// float literal an `f64`.
pub proof fn law_literal_defaults()
    ensures
        literal_type(Literal::Int, None) == Ty::Primitive(PrimitiveKind::I32),
        literal_type(Literal::Float, None) == Ty::Primitive(PrimitiveKind::F64),
{
    reveal(literal_type);
}

/// Loops and assignments are `()`, whatever is in them; `break`, `continue`
/// and `return` never yield a value.
pub proof fn law_statement_like_expressions(e: Env, st: St, x: Expr, expected: Option<Ty>)
    ensures
        x.kind is Loop || x.kind is While || x.kind is ForIn || x.kind is Assign ==> synth(e, st, x, expected).1
            == ty_unit(),
        x.kind is Break || x.kind is Continue || x.kind is Return ==> synth(e, st, x, expected).1 is Never,
{
}

/// An `if` without `else` is `()`.
pub proof fn law_if_without_else(e: Env, st: St, cond: Expr, then_branch: Block, expected: Option<Ty>)
    ensures
        conditional(e, st, cond, then_branch, None, expected).1 == ty_unit(),
{
}

/// A block without a last expression is `()`, or yields no value if one of its
/// statements never ends.
pub proof fn law_block_without_tail(e: Env, st: St, b: Block, expected: Option<Ty>)
    requires
        b.tail is None,
    ensures
        block(e, st, b, expected).1 == (if stmts(e, st.opened(), b.stmts@, 0, false).1 {
            Ty::Never
        } else {
            ty_unit()
        }),
{
}

/// A call of an `async` function is a task of what the function returns.
pub proof fn law_async_calls_are_tasks(sig: Sig, output: Ty)
    ensures
        sig.is_async ==> call_result(sig, output) == Ty::Task(Box::new(output)),
        !sig.is_async ==> call_result(sig, output) == output,
{
}

/// Calling an unsafe or foreign function and dereferencing a raw pointer are
/// reported outside unsafe code, and never inside it.
pub proof fn law_unsafe_operations_need_permission(st: St, sig: Sig, span: Span)
    requires
        !st.silent,
    ensures
        call_allowed(st, sig, span) == st <==> st.in_unsafe || !(sig.is_unsafe || sig.is_foreign),
        deref_allowed(st, span) == st <==> st.in_unsafe,
{
    reveal(call_allowed);
    reveal(deref_allowed);
    reveal(St::fail);
    if !st.in_unsafe {
        assert(deref_allowed(st, span).diags.len() == st.diags.len() + 1);
        if sig.is_unsafe || sig.is_foreign {
            assert(call_allowed(st, sig, span).diags.len() == st.diags.len() + 1);
        }
    }
}

/// Whether the arms cover the `j`-th variant.
pub open spec fn covers_variant(covered: Seq<u32>, j: int) -> bool {
    0 <= j <= u32::MAX && covered.contains(j as u32)
}

/// Whether the arms cover the variants from the `i`-th up to the `n`-th.
pub open spec fn covers_variants(covered: Seq<u32>, i: int, n: int) -> bool {
    forall|j: int| #![trigger covers_variant(covered, j)] i <= j < n ==> covers_variant(covered, j)
}

proof fn lemma_uncovered(vs: Seq<(Seq<char>, Seq<Ty>)>, covered: Seq<u32>, i: int, acc: Seq<Seq<char>>)
    requires
        0 <= i,
    ensures
        uncovered(vs, covered, i, acc).len() >= acc.len(),
        uncovered(vs, covered, i, acc).len() == acc.len() <==> covers_variants(covered, i, vs.len() as int),
    decreases vs.len() - i,
{
    if i < vs.len() {
        let acc1 = if i <= u32::MAX && covered.contains(i as u32) {
            acc
        } else {
            acc.push(vs[i].0)
        };
        lemma_uncovered(vs, covered, i + 1, acc1);
        assert(covers_variant(covered, i) == (acc1 == acc)) by {
            if acc1 == acc {
                assert(acc.len() == acc1.len());
            }
        }
        if covers_variants(covered, i + 1, vs.len() as int) && covers_variant(covered, i) {
            assert forall|j: int| i <= j < vs.len() implies covers_variant(covered, j) by {
                if j > i {
                    assert(i + 1 <= j);
                }
            }
        }
    }
}

/// A `match` on an enum is reported exactly when no arm catches everything and
/// some variant has no arm.
pub proof fn law_match_must_cover(e: Env, st: St, id: DefId, args: Seq<Ty>, covered: Seq<u32>, catch_all: bool, span: Span)
    requires
        !st.silent,
        e.sigs.enum_sigs.contains_key(id),
    ensures
        exhaustive(e, st, Ty::Enum(id, args), covered, catch_all, span) == st <==> catch_all || covers_variants(
            covered,
            0,
            e.sigs.enum_sigs[id].variants.len() as int,
        ),
{
    reveal(exhaustive);
    reveal(St::fail);
    let vs = e.sigs.enum_sigs[id].variants;
    lemma_uncovered(vs, covered, 0, Seq::empty());
    let after = exhaustive(e, st, Ty::Enum(id, args), covered, catch_all, span);
    if !catch_all && uncovered(vs, covered, 0, Seq::empty()).len() > 0 {
        assert(after.diags.len() == st.diags.len() + 1);
    } else {
        assert(after == st);
    }
}

// ---------------------------------------------------------------------
// Visibility
// ---------------------------------------------------------------------

/// Naming a field of a struct is reported exactly when the field is not public
/// and the struct is declared in another file, and nothing else of the state
/// changes.
pub proof fn law_private_fields_stay_in_their_file(e: Env, st: St, base: Ty, id: DefId, name: Seq<char>, span: Span)
    requires
        !st.silent,
        ty_direct(base) matches Ty::Struct(i, _) && i == id,
        field_of(e, ty_direct(base), name) is Some,
    ensures
        field_type(e, st, base, name, span).0 == (if private_field(e, id, name, span) {
            (St { diags: st.diags.push(diag("field `"@ + name + "` is private"@, span, "here"@)), ..st })
        } else {
            st
        }),
        field_read(e, st, base, name, span).0 == field_type(e, st, base, name, span).0,
        e.sc.defs().file_of(id) == Some(span.file) ==> field_type(e, st, base, name, span).0 == st,
        e.sigs.field_visibility.get((id, name)) == Some(Visibility::Public) ==> field_type(
            e,
            st,
            base,
            name,
            span,
        ).0 == st,
{
    reveal(field_type);
    reveal(field_read);
    reveal(St::fail);
}

} // verus!
