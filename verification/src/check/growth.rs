//! Checking only ever adds: errors are appended, and a recorded type stays
//! recorded.
use crate::ast::{
    pattern_size, patterns_size, type_size, types_size, BinaryOp, Block, Expr, Ident, LetStmt, MatchArm, Param, Path,
    Pattern, TraitDecl, TypeExpr, UnaryOp,
};
use crate::check::borrows::{
    borrow_arg, lent, relent, returned_closure, returned_reference, spawn_borrows, spawn_captures,
};
use crate::check::facts::{
    all_validated, arg_bounds_checked, args_bounds_checked, const_arg_checked, const_args_checked, field_read,
    field_type, index_read, mut_arg_checked, nominal_checked, parameter_projection_checked, projection_checked,
    require_bool, require_string, validated, writable,
};
use crate::check::model::{
    captures_recorded, captures_sendable, missing_fields, owner_const, parameter_const, receiver_checked,
};
use crate::check::patterns::{pattern, patterns, variant_pattern, PatSt};
use crate::check::rules::{
    all_merged, args_counted, arms_retyped, assigned_fields, binary, call_allowed, call_bounds_checked,
    callable_bound, choices_checked, choices_recorded, closure_bound, closure_done, closure_params, converted,
    deref_allowed, element, exhaustive, explicit_args, explicit_chosen, inferred_origin, let_bound, origin_bound,
    packed, path_fields, pointee, reference_param, settled, stored_owned, tail_retyped, unary, unpinned,
    writable_pointee, Stored,
};
use crate::check::state::{BorrowOrigin, Env, St};
use crate::diagnostics::Diag;
use crate::ids::{DefId, LocalId, NodeId, Span};
use crate::lower::{
    lower, lower_all, lower_def, lower_existential, lower_named, witness_errors, witness_method_errors,
    witness_methods_errors, witness_parents, witness_types_errors, Sc,
};
use crate::names::ResolvedNames;
use crate::sig::{Bound, Sig};
use crate::subst::Subst;
use crate::table::{lemma_pair_index, lemma_unseen, unseen};
use crate::ty::Ty;
use vstd::prelude::*;

verus! {

// ---------------------------------------------------------------------
// Lists and tables that grow
// ---------------------------------------------------------------------

/// Whether a list starts with another.
#[verifier::opaque]
pub open spec fn extends(a: Seq<Diag>, b: Seq<Diag>) -> bool {
    a.len() <= b.len() && forall|i: int| #![trigger b[i]] 0 <= i < a.len() ==> a[i] == b[i]
}

/// Whether a table has every key of another.
#[verifier::opaque]
pub open spec fn within(a: Map<NodeId, Ty>, b: Map<NodeId, Ty>) -> bool {
    forall|id: NodeId| #![trigger b.contains_key(id)] a.contains_key(id) ==> b.contains_key(id)
}

/// Whether a table has all of these keys.
#[verifier::opaque]
pub open spec fn has_all(m: Map<NodeId, Ty>, ids: Set<NodeId>) -> bool {
    forall|id: NodeId| #![trigger m.contains_key(id)] ids.contains(id) ==> m.contains_key(id)
}

/// Whether the results of one state are kept in another: errors are appended,
/// recorded types stay recorded, and errors are dropped in both or in neither.
pub open spec fn kept(a: St, b: St) -> bool {
    &&& extends(a.diags, b.diags)
    &&& within(a.expr_types, b.expr_types)
    &&& a.silent == b.silent
}

/// Whether the same may be done in two states: awaiting, unsafe operations and
/// leaving a loop.
pub open spec fn same_place(a: St, b: St) -> bool {
    &&& a.in_async == b.in_async
    &&& a.in_unsafe == b.in_unsafe
    &&& a.in_loop == b.in_loop
}

/// Whether one state can follow another at the same place.
pub open spec fn grows(a: St, b: St) -> bool {
    kept(a, b) && same_place(a, b)
}

pub broadcast proof fn lemma_extends_self(d: Seq<Diag>)
    ensures
        #[trigger] extends(d, d),
{
    reveal(extends);
}

pub broadcast proof fn lemma_extends_push(d: Seq<Diag>, x: Diag)
    ensures
        extends(d, #[trigger] d.push(x)),
{
    reveal(extends);
}

pub broadcast proof fn lemma_extends_on(a: Seq<Diag>, b: Seq<Diag>, c: Seq<Diag>)
    requires
        #[trigger] extends(a, b),
        #[trigger] extends(b, c),
    ensures
        extends(a, c),
{
    reveal(extends);
}

pub broadcast proof fn lemma_extends_len(a: Seq<Diag>, b: Seq<Diag>)
    requires
        #[trigger] extends(a, b),
    ensures
        a.len() <= b.len(),
{
    reveal(extends);
}

pub broadcast proof fn lemma_within_self(m: Map<NodeId, Ty>)
    ensures
        #[trigger] within(m, m),
{
    reveal(within);
}

pub broadcast proof fn lemma_within_insert(m: Map<NodeId, Ty>, id: NodeId, t: Ty)
    ensures
        within(m, #[trigger] m.insert(id, t)),
{
    reveal(within);
}

pub broadcast proof fn lemma_within_on(a: Map<NodeId, Ty>, b: Map<NodeId, Ty>, c: Map<NodeId, Ty>)
    requires
        #[trigger] within(a, b),
        #[trigger] within(b, c),
    ensures
        within(a, c),
{
    reveal(within);
    assert forall|id: NodeId| a.contains_key(id) implies c.contains_key(id) by {
        assert(b.contains_key(id));
    }
}

pub broadcast proof fn lemma_has_within(a: Map<NodeId, Ty>, b: Map<NodeId, Ty>, ids: Set<NodeId>)
    requires
        #[trigger] has_all(a, ids),
        #[trigger] within(a, b),
    ensures
        has_all(b, ids),
{
    reveal(has_all);
    reveal(within);
    assert forall|id: NodeId| ids.contains(id) implies b.contains_key(id) by {
        assert(a.contains_key(id));
    }
}

pub broadcast proof fn lemma_has_none(m: Map<NodeId, Ty>)
    ensures
        #[trigger] has_all(m, Set::empty()),
{
    reveal(has_all);
}

pub broadcast proof fn lemma_has_both(m: Map<NodeId, Ty>, a: Set<NodeId>, b: Set<NodeId>)
    ensures
        #[trigger] has_all(m, a.union(b)) == (has_all(m, a) && has_all(m, b)),
{
    reveal(has_all);
    if has_all(m, a.union(b)) {
        assert forall|id: NodeId| a.contains(id) implies m.contains_key(id) by {
            assert(a.union(b).contains(id));
        }
        assert forall|id: NodeId| b.contains(id) implies m.contains_key(id) by {
            assert(a.union(b).contains(id));
        }
    }
}

pub broadcast proof fn lemma_has_one_more(m: Map<NodeId, Ty>, ids: Set<NodeId>, id: NodeId)
    ensures
        #[trigger] has_all(m, ids.insert(id)) == (has_all(m, ids) && m.contains_key(id)),
{
    reveal(has_all);
    if has_all(m, ids.insert(id)) {
        assert(ids.insert(id).contains(id));
        assert forall|i: NodeId| ids.contains(i) implies m.contains_key(i) by {
            assert(ids.insert(id).contains(i));
        }
    }
}

pub broadcast group group_grows {
    lemma_extends_self,
    lemma_extends_push,
    lemma_extends_on,
    lemma_extends_len,
    lemma_within_self,
    lemma_within_insert,
    lemma_within_on,
}

pub broadcast group group_has {
    lemma_has_within,
    lemma_has_none,
    lemma_has_both,
    lemma_has_one_more,
}

// ---------------------------------------------------------------------
// Types
// ---------------------------------------------------------------------

proof fn lemma_witness_methods(t: TraitDecl, i: int, d: Seq<Diag>)
    ensures
        extends(d, witness_methods_errors(t, i, d)),
    decreases t.methods@.len() - i,
{
    broadcast use group_grows;

    if 0 <= i < t.methods@.len() {
        let d1 = witness_method_errors(t.name.name@, t.methods@[i], d);
        assert(extends(d, d1));
        lemma_witness_methods(t, i + 1, d1);
    }
}

proof fn lemma_witness_types(t: TraitDecl, i: int, d: Seq<Diag>)
    ensures
        extends(d, witness_types_errors(t, i, d)),
    decreases t.associated_types@.len() - i,
{
    broadcast use group_grows;

    if 0 <= i < t.associated_types@.len() {
        let a = t.associated_types@[i];
        let d1 = if a.value is None {
            d.push(
                crate::diagnostics::diag(
                    crate::lower::unsafe_trait(t.name.name@),
                    a.name.span,
                    "an existential associated type needs a default binding"@,
                ),
            )
        } else {
            d
        };
        lemma_witness_types(t, i + 1, d1);
    }
}

proof fn lemma_witness(sc: Sc, id: DefId, seen: Seq<DefId>, d: Seq<Diag>, depth: nat)
    ensures
        extends(d, witness_errors(sc, id, seen, d, depth).1),
    decreases depth, 1nat, 0int,
{
    broadcast use group_grows;

    if !seen.contains(id) && depth > 0 {
        if let Some(t) = sc.trait_decl(id) {
            lemma_witness_methods(t, 0, d);
            let d1 = witness_methods_errors(t, 0, d);
            lemma_witness_types(t, 0, d1);
            let d2 = witness_types_errors(t, 0, d1);
            lemma_witness_parents(sc, t.parents@, 0, seen.push(id), d2, (depth - 1) as nat);
        }
    }
}

proof fn lemma_witness_parents(sc: Sc, parents: Seq<TypeExpr>, i: int, seen: Seq<DefId>, d: Seq<Diag>, depth: nat)
    ensures
        extends(d, witness_parents(sc, parents, i, seen, d, depth).1),
    decreases depth, 2nat, parents.len() - i,
{
    broadcast use group_grows;

    if 0 <= i < parents.len() {
        match crate::lower::named_def(sc, parents[i]) {
            Some(id) => {
                lemma_witness(sc, id, seen, d, depth);
                let (seen1, d1) = witness_errors(sc, id, seen, d, depth);
                lemma_witness_parents(sc, parents, i + 1, seen1, d1, depth);
            },
            None => {
                lemma_witness_parents(sc, parents, i + 1, seen, d, depth);
            },
        }
    }
}

/// Lowering a type appends errors.
pub proof fn lemma_lower(sc: Sc, t: TypeExpr, seen: Seq<DefId>, d: Seq<Diag>)
    ensures
        extends(d, lower(sc, t, seen, d).1),
    decreases unseen(sc.decls.aliases, seen), type_size(t), 0nat,
{
    broadcast use group_grows;

    match t {
        TypeExpr::Const(_, _) => {},
        TypeExpr::Named { path, generics, span: _ } => {
            lemma_lower_named(sc, path, generics@, seen, d);
        },
        TypeExpr::Tuple(ts, _) => {
            lemma_lower_all(sc, ts@, 0, seen, Seq::empty(), d);
        },
        TypeExpr::Array(a, _) => {
            lemma_lower(sc, *a, seen, d);
        },
        TypeExpr::FixedArray { element, length, span } => {
            lemma_lower(sc, *element, seen, d);
            let d1 = lower(sc, *element, seen, d).1;
            lemma_lower(sc, *length, seen, d1);
            let d2 = lower(sc, *length, seen, d1).1;
            assert(extends(d, d2));
        },
        TypeExpr::Weak(a, _) => {
            lemma_lower(sc, *a, seen, d);
        },
        TypeExpr::Any(a, span) => {
            lemma_lower_existential(sc, *a, span, false, seen, d);
        },
        TypeExpr::Opaque(a, span) => {
            lemma_lower_existential(sc, *a, span, true, seen, d);
        },
        TypeExpr::Unique(a, _) => {
            lemma_lower(sc, *a, seen, d);
        },
        TypeExpr::Ref(a, _) => {
            lemma_lower(sc, *a, seen, d);
        },
        TypeExpr::MutRef(a, _) => {
            lemma_lower(sc, *a, seen, d);
        },
        TypeExpr::RawConst(a, _) => {
            lemma_lower(sc, *a, seen, d);
        },
        TypeExpr::RawMut(a, _) => {
            lemma_lower(sc, *a, seen, d);
        },
        TypeExpr::Function { params, ret, span: _ } => {
            lemma_lower_all(sc, params@, 0, seen, Seq::empty(), d);
            let d1 = lower_all(sc, params@, 0, seen, Seq::empty(), d).1;
            lemma_lower(sc, *ret, seen, d1);
        },
    }
}

proof fn lemma_lower_all(sc: Sc, ts: Seq<TypeExpr>, i: int, seen: Seq<DefId>, acc: Seq<Ty>, d: Seq<Diag>)
    ensures
        extends(d, lower_all(sc, ts, i, seen, acc, d).1),
    decreases unseen(sc.decls.aliases, seen), types_size(ts, i), 1nat,
{
    broadcast use group_grows;

    if 0 <= i < ts.len() {
        lemma_lower(sc, ts[i], seen, d);
        let (x, d1) = lower(sc, ts[i], seen, d);
        lemma_lower_all(sc, ts, i + 1, seen, acc.push(x), d1);
    }
}

proof fn lemma_lower_named(sc: Sc, path: Path, generics: Seq<TypeExpr>, seen: Seq<DefId>, d: Seq<Diag>)
    ensures
        extends(d, lower_named(sc, path, generics, seen, d).1),
    decreases unseen(sc.decls.aliases, seen), types_size(generics, 0), 4nat,
{
    broadcast use group_grows;

    if let Some(res) = sc.names.path(path.id) {
        if let crate::names::Resolution::Def(id) = res.base {
            if !(res.consumed == 1 && path.segments@.len() == 2) {
                lemma_lower_def(sc, id, path, generics, seen, d);
            }
        }
    }
}

proof fn lemma_lower_def(sc: Sc, id: DefId, path: Path, generics: Seq<TypeExpr>, seen: Seq<DefId>, d: Seq<Diag>)
    ensures
        extends(d, lower_def(sc, id, path, generics, seen, d).1),
    decreases unseen(sc.decls.aliases, seen), types_size(generics, 0), 3nat,
{
    broadcast use group_grows;

    if generics.len() == 1 {
        lemma_lower(sc, generics[0], seen, d);
    }
    lemma_lower_all(sc, generics, 0, seen, Seq::empty(), d);
    if sc.defs().kind_of(id) is TypeAlias && !seen.contains(id) {
        if let Some(decl) = sc.alias_decl(id) {
            lemma_pair_index(sc.decls.aliases, id);
            lemma_unseen(sc.decls.aliases, seen, id);
            lemma_lower(sc, decl.ty, seen.push(id), d);
        }
    }
}

proof fn lemma_lower_existential(sc: Sc, t: TypeExpr, span: Span, opaque: bool, seen: Seq<DefId>, d: Seq<Diag>)
    ensures
        extends(d, lower_existential(sc, t, span, opaque, seen, d).1),
    decreases unseen(sc.decls.aliases, seen), type_size(t), 5nat,
{
    broadcast use group_grows;

    if let TypeExpr::Named { path, generics, span: _ } = t {
        if let Some(res) = sc.names.path(path.id) {
            if let crate::names::Resolution::Def(id) = res.base {
                let n = (sc.decls.traits.len() + 1) as nat;
                lemma_witness(sc, id, Seq::empty(), d, n);
                let d1 = witness_errors(sc, id, Seq::empty(), d, n).1;
                lemma_lower_all(sc, generics@, 0, seen, Seq::empty(), d1);
            }
        }
    }
}

// ---------------------------------------------------------------------
// Steps
// ---------------------------------------------------------------------

pub broadcast proof fn step_fail(st: St, span: Span, message: Seq<char>)
    ensures
        grows(st, #[trigger] st.fail(span, message)),
        !st.silent ==> st.fail(span, message).diags.len() > 0,
        st.fail(span, message).expr_types == st.expr_types,
{
    broadcast use group_grows;

    reveal(St::fail);
}

/// An error that is not dropped is one error more.
pub broadcast proof fn lemma_one_error(st: St, span: Span, message: Seq<char>)
    ensures
        !st.silent ==> (#[trigger] st.fail(span, message)).diags.len() == st.diags.len() + 1,
        st.fail(span, message) == (St { diags: st.fail(span, message).diags, ..st }),
        st.silent ==> st.fail(span, message) == st,
{
    reveal(St::fail);
}

pub broadcast proof fn step_lowered(st: St, sc: Sc, t: TypeExpr)
    ensures
        grows(st, (#[trigger] st.lowered(sc, t)).1),
{
    broadcast use group_grows;

    lemma_lower(sc, t, Seq::empty(), st.diags);
}

pub broadcast proof fn step_bound(st: St, names: ResolvedNames, site: NodeId, t: Ty, mutable: bool)
    ensures
        grows(st, #[trigger] st.bound(names, site, t, mutable)),
{
    broadcast use group_grows;

    reveal(St::bound);
}

proof fn step_captures_released(st: St, captures: Seq<(LocalId, usize)>, i: int)
    ensures
        grows(st, st.captures_released(captures, i)),
    decreases captures.len() - i,
{
    broadcast use group_grows;

    if 0 <= i < captures.len() {
        let reference = captures[i].0;
        let s = match st.remaining.get(reference) {
            None => st,
            Some(n) => {
                let n1 = crate::uses::less(n, captures[i].1);
                let s1 = St { remaining: st.remaining.insert(reference, n1), ..st };
                if n1 == 0 {
                    (St { pinned: crate::datum::drop_one(s1.pinned, reference), ..s1 }).reference_released(reference)
                } else {
                    s1
                }
            },
        };
        assert(grows(st, s));
        step_captures_released(s, captures, i + 1);
    }
}

proof fn step_callable_released(st: St, callable: LocalId)
    ensures
        grows(st, st.callable_released(callable)),
{
    broadcast use group_grows;

    if let Some(captures) = st.callable_uses.get(callable) {
        step_captures_released(St { callable_uses: st.callable_uses.remove(callable), ..st }, captures, 0);
    }
}

proof fn step_locals_closed(st: St, locals: Seq<LocalId>, n: int)
    ensures
        grows(st, st.locals_closed(locals, n)),
    decreases n,
{
    broadcast use group_grows;

    if 0 < n <= locals.len() {
        let local = locals[n - 1];
        let s = St {
            reference_origins: st.reference_origins.remove(local),
            callable_origins: st.callable_origins.remove(local),
            ..st
        };
        step_callable_released(s, local);
        assert(grows(st, st.local_closed(local)));
        step_locals_closed(st.local_closed(local), locals, n - 1);
    }
}

pub broadcast proof fn step_closed(st: St)
    ensures
        grows(st, #[trigger] st.closed()),
{
    broadcast use group_grows;

    reveal(St::closed);
    if st.scopes.len() > 0 {
        let locals = st.scopes.last();
        step_locals_closed(St { scopes: st.scopes.drop_last(), ..st }, locals, locals.len() as int);
    }
}

pub broadcast proof fn step_borrowed(st: St, names: ResolvedNames, site: NodeId, origin: LocalId, mutable: bool, span: Span)
    ensures
        grows(st, #[trigger] st.borrowed(names, site, origin, mutable, span)),
{
    broadcast use group_grows;

    reveal(St::borrowed);
}

pub broadcast proof fn step_used(st: St, local: LocalId, t: Ty, span: Span, consumes: bool)
    ensures
        grows(st, #[trigger] st.used(local, t, span, consumes)),
{
    broadcast use {group_grows, step_fail};

    reveal(St::used);
}

pub broadcast proof fn step_noted(st: St, local: LocalId)
    ensures
        grows(st, #[trigger] st.noted(local)),
{
    broadcast use group_grows;

    reveal(St::noted);
}

proof fn step_callables_released(st: St, locals: Seq<LocalId>, i: int)
    ensures
        grows(st, st.callables_released(locals, i)),
    decreases locals.len() - i,
{
    broadcast use group_grows;

    if 0 <= i < locals.len() {
        step_callable_released(st, locals[i]);
        step_callables_released(st.callable_released(locals[i]), locals, i + 1);
    }
}

proof fn step_references_released(st: St, locals: Seq<LocalId>, i: int)
    ensures
        grows(st, st.references_released(locals, i)),
    decreases locals.len() - i,
{
    broadcast use group_grows;

    if 0 <= i < locals.len() {
        let s = st.reference_released(locals[i]);
        assert(grows(st, s));
        step_references_released(s, locals, i + 1);
    }
}

pub broadcast proof fn step_flushed(st: St)
    ensures
        grows(st, #[trigger] st.flushed()),
{
    broadcast use group_grows;

    reveal(St::flushed);
    let callables = st.pending_callables;
    let s0 = St { pending_callables: Seq::empty(), ..st };
    step_callables_released(s0, callables, 0);
    let s = s0.callables_released(callables, 0);
    step_references_released(St { pending_references: Seq::empty(), ..s }, s.pending_references, 0);
}

pub broadcast group group_state_steps {
    step_fail,
    step_lowered,
    step_bound,
    step_closed,
    step_borrowed,
    step_used,
    step_noted,
    step_flushed,
}

pub broadcast proof fn step_require_string(e: Env, st: St, t: Ty, span: Span)
    ensures
        grows(st, #[trigger] require_string(e, st, t, span)),
{
    broadcast use {group_grows, group_state_steps};

    reveal(require_string);
}

pub broadcast proof fn step_require_bool(st: St, t: Ty, span: Span, what: Seq<char>)
    ensures
        grows(st, #[trigger] require_bool(st, t, span, what)),
{
    broadcast use {group_grows, group_state_steps};

    reveal(require_bool);
}

pub broadcast proof fn step_const_arg(st: St, is_const: bool, name: Seq<char>, arg: Ty, span: Span)
    ensures
        grows(st, #[trigger] const_arg_checked(st, is_const, name, arg, span)),
{
    broadcast use {group_grows, group_state_steps};

    reveal(const_arg_checked);
}

pub proof fn step_const_args(e: Env, st: St, id: DefId, names: Seq<Seq<char>>, args: Seq<Ty>, i: int, span: Span)
    ensures
        grows(st, const_args_checked(e, st, id, names, args, i, span)),
    decreases names.len() - i,
{
    broadcast use {group_grows, step_const_arg};

    if 0 <= i < names.len() && i < args.len() {
        let is_const = match e.sigs.const_type_params.get(id) {
            Some(params) => params.contains_key(names[i]),
            None => false,
        };
        step_const_args(e, const_arg_checked(st, is_const, names[i], args[i], span), id, names, args, i + 1, span);
    }
}

pub proof fn step_arg_bounds(e: Env, st: St, arg: Ty, bs: Seq<Bound>, m: Subst, i: int, span: Span)
    ensures
        grows(st, arg_bounds_checked(e, st, arg, bs, m, i, span)),
    decreases bs.len() - i,
{
    broadcast use {group_grows, group_state_steps};

    if 0 <= i < bs.len() {
        let b = crate::rules::bound_subst(bs[i], m);
        let st1 = st.fail_if(
            !crate::check::facts::satisfied(e, st, arg, b),
            span,
            "`"@ + crate::describe::shown(arg, e.sc.defs()) + "` does not implement `"@
                + crate::describe::shown_bound(b, e.sc.defs()) + "`, required by this generic type"@,
        );
        step_arg_bounds(e, st1, arg, bs, m, i + 1, span);
    }
}

pub proof fn step_args_bounds(e: Env, st: St, bs: Seq<Seq<Bound>>, args: Seq<Ty>, m: Subst, i: int, span: Span)
    ensures
        grows(st, args_bounds_checked(e, st, bs, args, m, i, span)),
    decreases bs.len() - i,
{
    broadcast use group_grows;

    if 0 <= i < bs.len() {
        if i < args.len() {
            step_arg_bounds(e, st, args[i], bs[i], m, 0, span);
        }
        let st1 = if i < args.len() && !crate::ty::has_error(args[i]) {
            arg_bounds_checked(e, st, args[i], bs[i], m, 0, span)
        } else {
            st
        };
        step_args_bounds(e, st1, bs, args, m, i + 1, span);
    }
}

pub broadcast proof fn step_nominal(e: Env, st: St, id: DefId, args: Seq<Ty>, span: Span)
    ensures
        grows(st, #[trigger] nominal_checked(e, st, id, args, span)),
{
    broadcast use group_grows;

    reveal(nominal_checked);
    let names = e.sigs.owner_generics(id);
    let bounds = match e.sigs.generic_type_bounds.get(id) {
        Some(bs) => bs,
        None => Seq::empty(),
    };
    step_const_args(e, st, id, names, args, 0, span);
    step_args_bounds(
        e,
        const_args_checked(e, st, id, names, args, 0, span),
        bounds,
        args,
        crate::subst::zip_subst(names, args),
        0,
        span,
    );
}

pub broadcast proof fn step_projection(e: Env, st: St, owner: Ty, name: Seq<char>, span: Span)
    ensures
        grows(st, #[trigger] projection_checked(e, st, owner, name, span)),
{
    broadcast use {group_grows, group_state_steps};

    reveal(projection_checked);
    reveal(parameter_projection_checked);
}

proof fn step_validated_type(e: Env, st: St, t: Ty, span: Span)
    ensures
        grows(st, validated(e, st, t, span)),
    decreases t,
{
    broadcast use {group_grows, step_nominal, step_projection};

    match t {
        Ty::Struct(id, args) => {
            step_all_validated(e, nominal_checked(e, st, id, args, span), args, 0, span);
        },
        Ty::TupleStruct(id, args) => {
            step_all_validated(e, nominal_checked(e, st, id, args, span), args, 0, span);
        },
        Ty::Enum(id, args) => {
            step_all_validated(e, nominal_checked(e, st, id, args, span), args, 0, span);
        },
        Ty::Tuple(items) => {
            step_all_validated(e, st, items, 0, span);
        },
        Ty::Array(inner) => {
            step_validated_type(e, st, *inner, span);
        },
        Ty::Weak(inner) => {
            step_validated_type(e, st, *inner, span);
        },
        Ty::Associated(owner, name) => {
            step_validated_type(e, projection_checked(e, st, *owner, name, span), *owner, span);
        },
        Ty::Function(params, ret) => {
            step_all_validated(e, st, params, 0, span);
            step_validated_type(e, all_validated(e, st, params, 0, span), *ret, span);
        },
        _ => {},
    }
}

pub proof fn step_all_validated(e: Env, st: St, ts: Seq<Ty>, i: int, span: Span)
    ensures
        grows(st, all_validated(e, st, ts, i, span)),
    decreases ts, ts.len() - i,
{
    broadcast use group_grows;

    if 0 <= i < ts.len() {
        step_validated_type(e, st, ts[i], span);
        step_all_validated(e, validated(e, st, ts[i], span), ts, i + 1, span);
    }
}

pub broadcast proof fn step_validated(e: Env, st: St, t: Ty, span: Span)
    ensures
        grows(st, #[trigger] validated(e, st, t, span)),
{
    step_validated_type(e, st, t, span);
}

pub broadcast proof fn step_field_type(e: Env, st: St, base: Ty, name: Seq<char>, span: Span)
    ensures
        grows(st, (#[trigger] field_type(e, st, base, name, span)).0),
{
    broadcast use {group_grows, group_state_steps};

    reveal(field_type);
}

pub broadcast proof fn step_field_read(e: Env, st: St, base: Ty, name: Seq<char>, span: Span)
    ensures
        grows(st, (#[trigger] field_read(e, st, base, name, span)).0),
{
    broadcast use {group_grows, group_state_steps, step_field_type};

    reveal(field_read);
}

pub broadcast proof fn step_index_read(e: Env, st: St, base: Ty, idx: u32, span: Span)
    ensures
        grows(st, (#[trigger] index_read(e, st, base, idx, span)).0),
{
    broadcast use {group_grows, group_state_steps};

    reveal(index_read);
}

pub broadcast proof fn step_writable(e: Env, st: St, target: Expr)
    ensures
        grows(st, #[trigger] writable(e, st, target)),
{
    broadcast use {group_grows, group_state_steps};

    reveal(writable);
}

pub broadcast proof fn step_mut_arg(e: Env, st: St, x: Expr)
    ensures
        grows(st, #[trigger] mut_arg_checked(e, st, x)),
{
    broadcast use {group_grows, group_state_steps};

    reveal(mut_arg_checked);
}

pub broadcast proof fn step_packed(e: Env, st: St, id: NodeId, span: Span, t: Ty, want: Ty, trait_id: DefId, args: Seq<Ty>)
    ensures
        grows(st, (#[trigger] packed(e, st, id, span, t, want, trait_id, args)).0),
{
    broadcast use {group_grows, group_state_steps};

    reveal(packed);
}

pub broadcast proof fn step_settled(e: Env, st: St, id: NodeId, span: Span, t: Ty, expected: Option<Ty>)
    ensures
        grows(st, (#[trigger] settled(e, st, id, span, t, expected)).0),
        settled(e, st, id, span, t, expected).0.expr_types.contains_key(id),
        settled(e, st, id, span, t, expected).0.expr_types[id] == settled(e, st, id, span, t, expected).1,
{
    broadcast use {group_grows, step_packed, step_validated};

    reveal(settled);
}

pub broadcast proof fn step_unary(st: St, op: UnaryOp, t: Ty, span: Span)
    ensures
        grows(st, (#[trigger] unary(st, op, t, span)).0),
{
    broadcast use {group_grows, group_state_steps, step_require_bool};

    reveal(unary);
}

pub broadcast proof fn step_binary(e: Env, st: St, op: BinaryOp, a: Ty, left: Span, b: Ty, right: Span)
    ensures
        grows(st, (#[trigger] binary(e, st, op, a, left, b, right)).0),
{
    broadcast use {group_grows, group_state_steps, step_require_bool};

    reveal(binary);
}

pub broadcast proof fn step_pointee(e: Env, st: St, t: Ty, span: Span)
    ensures
        grows(st, (#[trigger] pointee(e, st, t, span)).0),
{
    broadcast use {group_grows, group_state_steps};

    reveal(pointee);
}

pub broadcast proof fn step_writable_pointee(e: Env, st: St, t: Ty, target: Span, span: Span)
    ensures
        grows(st, (#[trigger] writable_pointee(e, st, t, target, span)).0),
{
    broadcast use {group_grows, group_state_steps};

    reveal(writable_pointee);
}

pub broadcast proof fn step_deref_allowed(st: St, span: Span)
    ensures
        grows(st, #[trigger] deref_allowed(st, span)),
{
    broadcast use {group_grows, group_state_steps};

    reveal(deref_allowed);
}

pub broadcast proof fn step_call_allowed(st: St, sig: Sig, span: Span)
    ensures
        grows(st, #[trigger] call_allowed(st, sig, span)),
{
    broadcast use {group_grows, group_state_steps};

    reveal(call_allowed);
}

pub broadcast proof fn step_element(e: Env, st: St, base: Ty, base_span: Span, index: Ty, index_span: Span)
    ensures
        grows(st, (#[trigger] element(e, st, base, base_span, index, index_span)).0),
{
    broadcast use {group_grows, group_state_steps};

    reveal(element);
}

proof fn step_path_fields_from(e: Env, st: St, path: Path, i: int, n: int, t: Ty)
    ensures
        grows(st, path_fields(e, st, path, i, n, t).0),
    decreases n - i,
{
    broadcast use {group_grows, step_field_read};

    if 0 <= i < n && i < path.segments@.len() {
        let seg = path.segments@[i];
        let (st1, t1) = field_read(e, st, t, seg.name@, seg.span);
        step_path_fields_from(e, st1, path, i + 1, n, t1);
    }
}

pub broadcast proof fn step_path_fields(e: Env, st: St, path: Path, i: int, n: int, t: Ty)
    ensures
        grows(st, (#[trigger] path_fields(e, st, path, i, n, t)).0),
{
    step_path_fields_from(e, st, path, i, n, t);
}

pub broadcast proof fn step_assigned_fields(e: Env, st: St, path: Path, i: int, t: Ty)
    ensures
        grows(st, (#[trigger] assigned_fields(e, st, path, i, t)).0),
{
    broadcast use {group_grows, step_path_fields, step_field_type};

    reveal(assigned_fields);
}

pub proof fn step_call_bounds(e: Env, st: St, name: Seq<char>, t: Ty, bs: Seq<Bound>, m: Subst, i: int, span: Span)
    ensures
        grows(st, call_bounds_checked(e, st, name, t, bs, m, i, span)),
    decreases bs.len() - i,
{
    broadcast use {group_grows, group_state_steps};

    if 0 <= i < bs.len() {
        let b = crate::rules::bound_subst(bs[i], m);
        let st1 = st.fail_if(
            !crate::check::facts::satisfied(e, st, t, b),
            span,
            "`"@ + crate::describe::shown(t, e.sc.defs()) + "` does not implement `"@
                + crate::describe::shown_bound(b, e.sc.defs()) + "`, required by generic parameter `"@ + name + "`"@,
        );
        step_call_bounds(e, st1, name, t, bs, m, i + 1, span);
    }
}

proof fn step_choices_from(e: Env, st: St, sig: Sig, m: Subst, i: int, span: Span)
    ensures
        grows(st, choices_checked(e, st, sig, m, i, span)),
    decreases sig.generics.len() - i,
{
    broadcast use {group_grows, group_state_steps, step_const_arg};

    if 0 <= i < sig.generics.len() {
        let name = sig.generics[i].0;
        let st1 = match m.get(name) {
            None => st.fail(span, "cannot infer generic parameter `"@ + name + "` from this call's arguments"@),
            Some(t) => {
                call_bounds_checked(
                    e,
                    const_arg_checked(st, sig.const_params.contains_key(name), name, t, span),
                    name,
                    t,
                    sig.generics[i].1,
                    m,
                    0,
                    span,
                )
            },
        };
        if let Some(t) = m.get(name) {
            step_call_bounds(
                e,
                const_arg_checked(st, sig.const_params.contains_key(name), name, t, span),
                name,
                t,
                sig.generics[i].1,
                m,
                0,
                span,
            );
        }
        step_choices_from(e, st1, sig, m, i + 1, span);
    }
}

pub broadcast proof fn step_choices_checked(e: Env, st: St, sig: Sig, m: Subst, i: int, span: Span)
    ensures
        grows(st, #[trigger] choices_checked(e, st, sig, m, i, span)),
{
    step_choices_from(e, st, sig, m, i, span);
}

pub broadcast proof fn step_choices_recorded(st: St, id: Option<NodeId>, sig: Sig, m: Subst)
    ensures
        grows(st, #[trigger] choices_recorded(st, id, sig, m)),
{
    broadcast use group_grows;

    reveal(choices_recorded);
}

pub broadcast proof fn step_args_counted(st: St, sig: Sig, n: nat, span: Span)
    ensures
        grows(st, #[trigger] args_counted(st, sig, n, span)),
        !st.silent && args_counted(st, sig, n, span).diags.len() == 0 ==> if crate::check::rules::variadic(sig) {
            n >= crate::check::rules::fixed_params(sig)
        } else {
            n == sig.params.len()
        },
{
    broadcast use {group_grows, group_state_steps};

    reveal(args_counted);
}

pub broadcast proof fn step_explicit_chosen(st: St, sig: Sig, m: Subst, args: Seq<Ty>, span: Span)
    ensures
        grows(st, (#[trigger] explicit_chosen(st, sig, m, args, span)).0),
{
    broadcast use {group_grows, group_state_steps};

    reveal(explicit_chosen);
}

pub broadcast proof fn step_converted(e: Env, st: St, arg: Ty, target: Ty, span: Span)
    ensures
        grows(st, #[trigger] converted(e, st, arg, target, span)),
{
    broadcast use {group_grows, group_state_steps};

    reveal(converted);
}

pub broadcast proof fn step_tail_retyped(st: St, b: Block, result: Ty)
    ensures
        grows(st, #[trigger] tail_retyped(st, b, result)),
{
    broadcast use group_grows;

    reveal(tail_retyped);
}

proof fn step_arms_from(st: St, arms: Seq<MatchArm>, i: int, result: Ty)
    ensures
        grows(st, arms_retyped(st, arms, i, result)),
    decreases arms.len() - i,
{
    broadcast use group_grows;

    if 0 <= i < arms.len() {
        let id = arms[i].body.id;
        let st1 = match st.expr_types.get(id) {
            Some(t) => if crate::ty::fits(t, result) && crate::check::rules::unknown_enum(t) {
                st.typed(id, result)
            } else {
                st
            },
            None => st,
        };
        assert(grows(st, st1));
        step_arms_from(st1, arms, i + 1, result);
    }
}

pub broadcast proof fn step_arms_retyped(st: St, arms: Seq<MatchArm>, i: int, result: Ty)
    ensures
        grows(st, #[trigger] arms_retyped(st, arms, i, result)),
{
    step_arms_from(st, arms, i, result);
}

proof fn step_merged_from(st: St, moves: Seq<(bool, Map<LocalId, Span>)>, i: int)
    ensures
        grows(st, all_merged(st, moves, i)),
    decreases moves.len() - i,
{
    broadcast use group_grows;

    if 0 <= i < moves.len() {
        step_merged_from(st.merged(moves[i].0, moves[i].1), moves, i + 1);
    }
}

pub broadcast proof fn step_all_merged(st: St, moves: Seq<(bool, Map<LocalId, Span>)>, i: int)
    ensures
        grows(st, #[trigger] all_merged(st, moves, i)),
{
    step_merged_from(st, moves, i);
}

pub broadcast proof fn step_exhaustive(e: Env, st: St, t: Ty, covered: Seq<u32>, catch_all: bool, span: Span)
    ensures
        grows(st, #[trigger] exhaustive(e, st, t, covered, catch_all, span)),
{
    broadcast use {group_grows, group_state_steps};

    reveal(exhaustive);
}

proof fn step_explicit_from(e: Env, st: St, ts: Seq<TypeExpr>, i: int, acc: Seq<Ty>)
    ensures
        grows(st, explicit_args(e, st, ts, i, acc).0),
    decreases ts.len() - i,
{
    broadcast use {group_grows, group_state_steps, step_validated};

    if 0 <= i < ts.len() {
        let (t, st1) = st.lowered(e.sc, ts[i]);
        step_explicit_from(e, validated(e, st1, t, crate::ast::type_span(ts[i])), ts, i + 1, acc.push(t));
    }
}

pub broadcast proof fn step_explicit_args(e: Env, st: St, ts: Seq<TypeExpr>, i: int, acc: Seq<Ty>)
    ensures
        grows(st, (#[trigger] explicit_args(e, st, ts, i, acc)).0),
{
    step_explicit_from(e, st, ts, i, acc);
}

proof fn step_closure_params_from(e: Env, st: St, ps: Seq<Param>, i: int, acc: Seq<Ty>)
    ensures
        grows(st, closure_params(e, st, ps, i, acc).0),
    decreases ps.len() - i,
{
    broadcast use {group_grows, group_state_steps};

    if 0 <= i < ps.len() {
        let (t, st1) = st.lowered(e.sc, ps[i].ty);
        step_closure_params_from(e, st1, ps, i + 1, acc.push(t));
    }
}

pub broadcast proof fn step_closure_params(e: Env, st: St, ps: Seq<Param>, i: int, acc: Seq<Ty>)
    ensures
        grows(st, (#[trigger] closure_params(e, st, ps, i, acc)).0),
{
    step_closure_params_from(e, st, ps, i, acc);
}

pub broadcast proof fn step_reference_param(st: St, names: ResolvedNames, site: NodeId, t: Ty)
    ensures
        grows(st, #[trigger] reference_param(st, names, site, t)),
{
    broadcast use group_grows;

    reveal(reference_param);
}

proof fn step_closure_bound_from(e: Env, st: St, ps: Seq<Param>, ts: Seq<Ty>, i: int)
    ensures
        grows(st, closure_bound(e, st, ps, ts, i)),
    decreases ps.len() - i,
{
    broadcast use {group_grows, group_state_steps, step_reference_param};

    if 0 <= i < ps.len() && i < ts.len() {
        let st1 = st.bound(e.sc.names, ps[i].id, ts[i], ps[i].mutable);
        step_closure_bound_from(e, reference_param(st1, e.sc.names, ps[i].id, ts[i]), ps, ts, i + 1);
    }
}

pub broadcast proof fn step_closure_bound(e: Env, st: St, ps: Seq<Param>, ts: Seq<Ty>, i: int)
    ensures
        grows(st, #[trigger] closure_bound(e, st, ps, ts, i)),
{
    step_closure_bound_from(e, st, ps, ts, i);
}

pub broadcast proof fn step_closure_done(e: Env, st: St, id: NodeId, ps: Seq<Param>, body: Expr, ret: Ty)
    ensures
        grows(st, #[trigger] closure_done(e, st, id, ps, body, ret)),
{
    broadcast use group_grows;

    reveal(closure_done);
}

proof fn step_unpinned(st: St, captures: Seq<(LocalId, usize)>, i: int)
    ensures
        grows(st, unpinned(st, captures, i)),
    decreases captures.len() - i,
{
    broadcast use group_grows;

    if 0 <= i < captures.len() {
        step_unpinned(
            St { pinned: crate::datum::drop_one(st.pinned, captures[i].0), ..st },
            captures,
            i + 1,
        );
    }
}

pub broadcast proof fn step_callable_bound(st: St, local: LocalId, value: NodeId)
    ensures
        grows(st, #[trigger] callable_bound(st, local, value)),
{
    broadcast use group_grows;

    reveal(callable_bound);
    let st1 = match st.closure_origins.get(value) {
        Some(os) => St { callable_origins: st.callable_origins.insert(local, os), ..st },
        None => st,
    };
    if let Some(captures) = st1.closure_uses.get(value) {
        step_unpinned(st1, captures, 0);
    }
}

pub broadcast proof fn step_origin_bound(e: Env, st: St, site: NodeId, origin: BorrowOrigin, mutable: bool, span: Span)
    ensures
        grows(st, #[trigger] origin_bound(e, st, site, origin, mutable, span)),
{
    broadcast use {group_grows, group_state_steps};

    reveal(origin_bound);
}

pub broadcast proof fn step_inferred_origin(e: Env, st: St, value: Expr)
    ensures
        grows(st, (#[trigger] inferred_origin(e, st, value)).0),
{
    broadcast use {group_grows, group_state_steps};

    reveal(inferred_origin);
}

pub broadcast proof fn step_let_bound(e: Env, st: St, l: LetStmt, declared: Option<Ty>, stored: Stored, value: Ty)
    ensures
        grows(st, (#[trigger] let_bound(e, st, l, declared, stored, value)).0),
{
    broadcast use {group_grows, group_state_steps, step_inferred_origin, step_callable_bound, step_origin_bound};

    reveal(let_bound);
}

pub broadcast proof fn step_stored_owned(e: Env, st: St, value: Expr, origin: LocalId, owned: Ty, mutable_local: bool, declared: Ty)
    ensures
        grows(st, (#[trigger] stored_owned(e, st, value, origin, owned, mutable_local, declared)).0),
        stored_owned(e, st, value, origin, owned, mutable_local, declared).0.expr_types.contains_key(value.id),
        stored_owned(e, st, value, origin, owned, mutable_local, declared).1 is Some,
{
    broadcast use {group_grows, group_state_steps};

    reveal(stored_owned);
}

pub broadcast proof fn step_returned_reference(e: Env, st: St, value: Option<Box<Expr>>, span: Span)
    ensures
        grows(st, #[trigger] returned_reference(e, st, value, span)),
{
    broadcast use {group_grows, group_state_steps};

    reveal(returned_reference);
}

pub broadcast proof fn step_returned_closure(st: St, value: Option<Box<Expr>>, span: Span)
    ensures
        grows(st, #[trigger] returned_closure(st, value, span)),
{
    broadcast use {group_grows, group_state_steps};

    reveal(returned_closure);
}

proof fn step_spawn_borrows(st: St, locals: Seq<LocalId>, i: int, span: Span, kind: Seq<char>)
    ensures
        grows(st, spawn_borrows(st, locals, i, span, kind)),
    decreases locals.len() - i,
{
    broadcast use {group_grows, group_state_steps};

    if 0 <= i < locals.len() {
        let wrong = match st.reference_origins.get(locals[i]) {
            Some(BorrowOrigin::Local(_)) => true,
            _ => false,
        };
        let st1 = st.fail_if(wrong, span, crate::check::borrows::spawn_borrow_message(kind));
        step_spawn_borrows(st1, locals, i + 1, span, kind);
    }
}

pub broadcast proof fn step_spawn_captures(e: Env, st: St, x: Expr, kind: Seq<char>)
    ensures
        grows(st, (#[trigger] spawn_captures(e, st, x, kind)).0),
{
    reveal(spawn_captures);
    step_spawn_borrows(st, spawn_captures(e, st, x, kind).1, 0, x.span, kind);
}

pub broadcast proof fn step_borrow_arg(e: Env, st: St, arg: Expr, t: Ty, borrowed: Map<LocalId, bool>)
    ensures
        grows(st, (#[trigger] borrow_arg(e, st, arg, t, borrowed)).0),
        borrow_arg(e, st, arg, t, borrowed).0.expr_types.contains_key(arg.id),
        !st.silent && borrow_arg(e, st, arg, t, borrowed).0.diags.len() == 0
            ==> crate::check::facts::bare_local(e.sc.names, arg) is Some,
{
    broadcast use {group_grows, group_state_steps};

    reveal(borrow_arg);
    reveal(lent);
    reveal(relent);
}

proof fn step_captures_sendable_from(e: Env, st: St, locals: Seq<LocalId>, i: int, span: Span)
    ensures
        grows(st, captures_sendable(e, st, locals, i, span)),
    decreases locals.len() - i,
{
    broadcast use {group_grows, group_state_steps};

    if 0 <= i < locals.len() {
        let st1 = match st.locals.get(locals[i]) {
            Some((t, _)) => st.fail_if(
                !crate::send_sync::sendable(e.sigs, e.sc.defs(), t, crate::rules::NESTING_LIMIT as nat),
                span,
                crate::check::model::not_send(e, t),
            ),
            None => st,
        };
        step_captures_sendable_from(e, st1, locals, i + 1, span);
    }
}

pub broadcast proof fn step_captures_sendable(e: Env, st: St, locals: Seq<LocalId>, i: int, span: Span)
    ensures
        grows(st, #[trigger] captures_sendable(e, st, locals, i, span)),
{
    step_captures_sendable_from(e, st, locals, i, span);
}

pub broadcast proof fn step_parameter_const(e: Env, st: St, generic: Ident, constant: Ident)
    ensures
        grows(st, (#[trigger] parameter_const(e, st, generic, constant)).0),
{
    broadcast use {group_grows, group_state_steps};

    reveal(parameter_const);
}

pub broadcast proof fn step_owner_const(e: Env, st: St, owner: DefId, idx: u32, span: Span)
    ensures
        (#[trigger] owner_const(e, st, owner, idx, span)) matches Some(r) ==> grows(st, r.0),
{
    broadcast use {group_grows, group_state_steps};

    reveal(owner_const);
}

pub broadcast proof fn step_receiver_checked(st: St, t: Ty, sig: Sig, span: Span, mutable: Option<bool>, local: Option<LocalId>)
    ensures
        grows(st, #[trigger] receiver_checked(st, t, sig, span, mutable, local)),
{
    broadcast use {group_grows, group_state_steps};

    reveal(receiver_checked);
}

proof fn step_missing_from(e: Env, st: St, def: DefId, declared: Seq<(Seq<char>, Ty)>, seen: Seq<Seq<char>>, i: int, span: Span)
    ensures
        grows(st, missing_fields(e, st, def, declared, seen, i, span)),
    decreases declared.len() - i,
{
    broadcast use {group_grows, group_state_steps};

    if 0 <= i < declared.len() {
        let st1 = st.fail_if(
            !seen.contains(declared[i].0),
            span,
            "missing field `"@ + declared[i].0 + "` in struct literal for `"@ + e.sc.name(def) + "`"@,
        );
        step_missing_from(e, st1, def, declared, seen, i + 1, span);
    }
}

pub broadcast proof fn step_missing_fields(e: Env, st: St, def: DefId, declared: Seq<(Seq<char>, Ty)>, seen: Seq<Seq<char>>, i: int, span: Span)
    ensures
        grows(st, #[trigger] missing_fields(e, st, def, declared, seen, i, span)),
{
    step_missing_from(e, st, def, declared, seen, i, span);
}

pub broadcast proof fn step_captures_recorded(e: Env, st: St, id: NodeId, mut_capture: bool, body: Expr)
    ensures
        grows(st, #[trigger] captures_recorded(e, st, id, mut_capture, body)),
{
    broadcast use group_grows;

    reveal(captures_recorded);
}

proof fn step_pattern_at(e: Env, ps: PatSt, p: Pattern, t: Ty, top: bool)
    ensures
        grows(ps.st, pattern(e, ps, p, t, top).st),
    decreases pattern_size(p), 1nat,
{
    broadcast use {group_grows, group_state_steps};

    match p {
        Pattern::Wildcard(_) => {},
        Pattern::Binding(id, _) => {
            if let Some(res) = e.sc.names.path(id) {
                if let crate::names::Resolution::EnumVariant(enum_id, idx) = res.base {
                    step_variant_pattern(e, ps, crate::ast::pattern_span(p), enum_id, idx, Seq::empty(), t, top);
                }
            }
        },
        Pattern::Literal(_, _) => {},
        Pattern::Tuple(elems, span) => match t {
            Ty::Tuple(ts) => {
                let ps1 = PatSt {
                    st: ps.st.fail_if(
                        ts.len() != elems@.len(),
                        span,
                        "tuple pattern has "@ + crate::text::decimal(elems@.len())
                            + " element(s), but the scrutinee has "@ + crate::text::decimal(ts.len()),
                    ),
                    ..ps
                };
                step_patterns(e, ps1, elems@, ts, 0);
            },
            Ty::Error => {
                step_patterns(e, ps, elems@, Seq::empty(), 0);
            },
            _ => {
                let ps1 = PatSt {
                    st: ps.st.fail(
                        span,
                        "tuple pattern requires a tuple, found `"@ + crate::describe::shown(t, e.sc.defs()) + "`"@,
                    ),
                    ..ps
                };
                step_patterns(e, ps1, elems@, Seq::empty(), 0);
            },
        },
        Pattern::Variant { path, payload, span: _ } => {
            if let Some(res) = e.sc.names.path(path.id) {
                if let crate::names::Resolution::EnumVariant(enum_id, idx) = res.base {
                    step_variant_pattern(e, ps, crate::ast::pattern_span(p), enum_id, idx, payload@, t, top);
                }
            }
        },
    }
}

pub proof fn step_patterns(e: Env, ps: PatSt, qs: Seq<Pattern>, ts: Seq<Ty>, i: int)
    ensures
        grows(ps.st, patterns(e, ps, qs, ts, i).st),
    decreases patterns_size(qs, i), 0nat,
{
    broadcast use group_grows;

    if 0 <= i < qs.len() {
        let t = if i < ts.len() {
            ts[i]
        } else {
            Ty::Error
        };
        step_pattern_at(e, ps, qs[i], t, false);
        step_patterns(e, pattern(e, ps, qs[i], t, false), qs, ts, i + 1);
    }
}

proof fn step_variant_pattern(
    e: Env,
    ps: PatSt,
    span: Span,
    enum_id: DefId,
    variant: u32,
    payload: Seq<Pattern>,
    t: Ty,
    top: bool,
)
    ensures
        grows(ps.st, variant_pattern(e, ps, span, enum_id, variant, payload, t, top).st),
    decreases patterns_size(payload, 0), 2nat,
{
    broadcast use {group_grows, group_state_steps};

    let same = crate::check::patterns::is_enum(t, enum_id);
    let ps1 = if !same {
        PatSt {
            st: ps.st.fail_if(
                !(t is Error),
                span,
                "variant pattern from enum `"@ + e.sc.name(enum_id) + "` cannot match `"@
                    + crate::describe::shown(t, e.sc.defs()) + "`"@,
            ),
            ..ps
        }
    } else if top {
        PatSt { covered: crate::datum::push_new(ps.covered, variant), ..ps }
    } else {
        ps
    };
    let arity = crate::check::patterns::variant_arity(e, enum_id, variant);
    let ps2 = PatSt {
        st: ps1.st.fail_if(
            payload.len() != arity,
            span,
            "variant pattern expects "@ + crate::text::decimal(arity) + " payload field(s), found "@
                + crate::text::decimal(payload.len()),
        ),
        ..ps1
    };
    let ts = if same {
        match crate::rules::payload_of(e.sigs, t, variant as int) {
            Some(ts) => ts,
            None => Seq::empty(),
        }
    } else {
        Seq::empty()
    };
    step_patterns(e, ps2, payload, ts, 0);
}

pub broadcast proof fn step_pattern(e: Env, ps: PatSt, p: Pattern, t: Ty, top: bool)
    ensures
        grows(ps.st, (#[trigger] pattern(e, ps, p, t, top)).st),
{
    step_pattern_at(e, ps, p, t, top);
}

pub broadcast group group_steps {
    group_state_steps,
    step_require_string,
    step_require_bool,
    step_validated,
    step_field_type,
    step_field_read,
    step_index_read,
    step_writable,
    step_mut_arg,
    step_settled,
    step_unary,
    step_binary,
    step_pointee,
    step_writable_pointee,
    step_deref_allowed,
    step_call_allowed,
    step_element,
    step_path_fields,
    step_assigned_fields,
    step_choices_checked,
    step_choices_recorded,
    step_args_counted,
    step_explicit_chosen,
    step_converted,
    step_tail_retyped,
    step_arms_retyped,
    step_all_merged,
    step_exhaustive,
    step_explicit_args,
    step_closure_params,
    step_closure_bound,
    step_closure_done,
    step_inferred_origin,
    step_let_bound,
    step_stored_owned,
    step_returned_reference,
    step_returned_closure,
    step_spawn_captures,
    step_borrow_arg,
    step_captures_sendable,
    step_parameter_const,
    step_owner_const,
    step_receiver_checked,
    step_missing_fields,
    step_captures_recorded,
    step_pattern,
}

} // verus!
