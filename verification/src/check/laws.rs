//! What holds of checking as a whole.
use crate::associated::{with_associated_types, with_constants};
use crate::ast::{AssociatedConst, Block, Expr, FnDecl, GenericParam, Item, LetStmt, Module, TraitDecl, TypeExpr};
use crate::check::entry::{
    body_checked, bounds_by_name, checked, const_checked, ending, ends_by_tail, fn_checked, item_checked,
    items_checked, member_owner, member_sig, owner_consts_checked, owner_methods_checked, params_bound, restarted,
    scope_of, self_bound, signatures_of, trait_consts_checked, trait_methods_checked,
};
use crate::check::facts::{const_arg_checked, satisfied, validated};
use crate::check::growth::{
    extends, group_grows, group_has, group_steps, grows, has_all, kept, lemma_lower, same_place,
    step_callable_bound, step_origin_bound, step_reference_param, within,
};
use crate::check::model::{expr, fn_body, returning};
use crate::check::record::{block_ids, clean, expr_ids, ran, run_expr, run_fn_body};
use crate::check::rules::{call_bounds_checked, choices_checked, let_bound, reference_param, Stored};
use crate::check::state::{Env, St};
use crate::declarations::{
    bounded_params_from, foreign_errors, param_names, signature_of, with_enums_from, with_fns_from,
    with_types_from,
};
use crate::diagnostics::{diag, Diag};
use crate::ids::{DefId, NodeId, Span};
use crate::impls::{
    all_needs, all_requests, clashing_default, distinct_requests, met_needs, raw_block, raw_from, static_clash,
    with_all_impls, with_owner_params, with_written_methods, MethodKey, Need, Raw,
};
use crate::lower::{lowered, lowered_all, lowered_bound, lowered_bounds, Sc};
use crate::names::ResolvedNames;
use crate::origin_laws::{
    law_summaries_reach_no_others, law_summaries_touch_references_alone, law_summary_is_what_the_body_returns,
    returns_reference,
};
use crate::origins::{
    body_summary, cleared_from, fn_of, known_of, lemma_rounds_end, next_round, room, settled, summaries_of,
    with_body_origins, with_fn_summaries, with_impls_from, with_methods_from, Known,
};
use crate::owners::concrete_args;
use crate::rules::bound_subst;
use crate::sig::{domain_of_self, Bound, Methods, Sig, Sigs};
use crate::subst::Subst;
use crate::table::{pair_get, pair_map};
use crate::traits::{methods_in, with_all_traits, with_trait_heads, TraitLists};
use crate::ty::{fits, Ty};
use vstd::prelude::*;

verus! {

broadcast use {group_grows, group_has, group_steps, step_reference_param};

// ---------------------------------------------------------------------
// One expression
// ---------------------------------------------------------------------

/// Checking an expression records the type that it is given.
pub proof fn law_checked_expression_is_recorded(e: Env, st: St, x: Expr, expected: Option<Ty>)
    ensures
        expr(e, st, x, expected).0.expr_types.get(x.id) == Some(expr(e, st, x, expected).1),
{
    run_expr(e, st, x, expected);
}

/// Checking an expression only appends errors and never forgets a recorded
/// type.
pub proof fn law_checking_only_adds(e: Env, st: St, x: Expr, expected: Option<Ty>)
    ensures
        st.diags.is_prefix_of(expr(e, st, x, expected).0.diags),
        st.expr_types.dom().subset_of(expr(e, st, x, expected).0.expr_types.dom()),
{
    run_expr(e, st, x, expected);
    reveal(extends);
    reveal(within);
    let st1 = expr(e, st, x, expected).0;
    assert(st.diags =~= st1.diags.subrange(0, st.diags.len() as int));
    assert forall|id: NodeId| st.expr_types.dom().contains(id) implies st1.expr_types.dom().contains(id) by {
        assert(st.expr_types.contains_key(id));
        assert(st1.expr_types.contains_key(id));
    }
}

/// After an expression the same may be done as before it: an `unsafe` block
/// gives its permission to what is inside it alone, and a loop can be left
/// only from inside it.
pub proof fn law_place_is_restored(e: Env, st: St, x: Expr, expected: Option<Ty>)
    ensures
        same_place(st, expr(e, st, x, expected).0),
{
    run_expr(e, st, x, expected);
}

/// If no error has been reported after an expression, every expression in it
/// has a recorded type.
pub proof fn law_clean_expression_is_recorded(e: Env, st: St, x: Expr, expected: Option<Ty>)
    requires
        !st.silent,
        expr(e, st, x, expected).0.diags.len() == 0,
    ensures
        expr_ids(x).subset_of(expr(e, st, x, expected).0.expr_types.dom()),
{
    run_expr(e, st, x, expected);
    lemma_has_dom(expr(e, st, x, expected).0.expr_types, expr_ids(x));
}

pub proof fn lemma_has_dom(m: Map<NodeId, Ty>, ids: Set<NodeId>)
    requires
        has_all(m, ids),
    ensures
        ids.subset_of(m.dom()),
{
    reveal(has_all);
    assert forall|id: NodeId| ids.contains(id) implies m.dom().contains(id) by {
        assert(m.contains_key(id));
    }
}

// ---------------------------------------------------------------------
// Values where they are expected
// ---------------------------------------------------------------------

/// An initializer that is bound without an error fits the declared type.
pub proof fn law_bound_values_fit(e: Env, st: St, l: LetStmt, declared: Ty, stored: Stored, value: Ty)
    requires
        !st.silent,
        let_bound(e, st, l, Some(declared), stored, value).0.diags.len() == st.diags.len(),
    ensures
        fits(value, declared),
{
    reveal(let_bound);
    reveal(St::fail);
    let st1 = st.fail_if(
        !fits(value, declared),
        l.value.span,
        crate::check::facts::mismatch(e, declared, value),
    );
    let (st3, inferred) = if stored is None && crate::check::rules::is_ref(declared) {
        crate::check::rules::inferred_origin(e, st1, l.value)
    } else {
        (st1, None)
    };
    let st4 = st3.bound(e.sc.names, l.id, declared, l.mutable || declared is MutRef);
    let st5 = match e.sc.names.local(l.id) {
        Some(local) => crate::check::rules::callable_bound(st4, local, l.value.id),
        None => st4,
    };
    if let Some(local) = e.sc.names.local(l.id) {
        step_callable_bound(st4, local, l.value.id);
    }
    let st6 = match crate::check::rules::stored_origin(stored, inferred, value is MutRef) {
        Some((o, m)) => crate::check::rules::origin_bound(e, st5, l.id, o, m, l.value.span),
        None => st5,
    };
    if let Some((o, m)) = crate::check::rules::stored_origin(stored, inferred, value is MutRef) {
        step_origin_bound(e, st5, l.id, o, m, l.value.span);
    }
    assert(extends(st1.diags, st6.flushed().diags));
}

/// A value that is returned without an error fits the return type.
pub proof fn law_returned_values_fit(e: Env, st: St, value: Expr, span: Span)
    requires
        !st.silent,
        returning(e, st, Some(Box::new(value)), span).0.diags.len() == expr(
            e,
            st,
            value,
            Some(st.return_ty),
        ).0.diags.len(),
    ensures
        fits(expr(e, st, value, Some(st.return_ty)).1, st.return_ty),
{
    run_expr(e, st, value, Some(st.return_ty));
    reveal(St::fail);
    let (st1, t) = expr(e, st, value, Some(st.return_ty));
    if !fits(t, st.return_ty) {
        let st2 = st1.fail(
            span,
            "expected return type `"@ + crate::describe::shown(st.return_ty, e.sc.defs()) + "`, found `"@
                + crate::describe::shown(t, e.sc.defs()) + "`"@,
        );
        assert(st2.diags.len() == st1.diags.len() + 1);
        assert(extends(st2.diags, returning(e, st, Some(Box::new(value)), span).0.diags));
    }
}

/// What a function body that is checked without an error ends with fits its
/// return type.
pub proof fn law_bodies_fit(e: Env, st: St, f: FnDecl, b: Block, by_tail: bool)
    requires
        !st.silent,
        f.body == Some(b),
        body_checked(e, st, f, by_tail).diags.len() == st.diags.len(),
    ensures
        ({
            let u = crate::uses::uses_block(e.sc.names, b, crate::uses::no_uses(), false);
            let (st1, t) = fn_body(e, St { remaining: pair_map(u.counts), pinned: u.pinned, ..st }, b);
            fits(ending(st1, b, t, by_tail), st1.return_ty)
        }),
{
    reveal(St::fail);
    let u = crate::uses::uses_block(e.sc.names, b, crate::uses::no_uses(), false);
    run_fn_body(e, St { remaining: pair_map(u.counts), pinned: u.pinned, ..st }, b);
}

// ---------------------------------------------------------------------
// Generic calls
// ---------------------------------------------------------------------

/// Whether a chosen type satisfies the bounds of its parameter from the `i`-th
/// on.
pub open spec fn meets_bounds(e: Env, st: St, t: Ty, bs: Seq<Bound>, m: Subst, i: int) -> bool {
    forall|j: int| #![trigger bs[j]] i <= j < bs.len() ==> satisfied(e, st, t, bound_subst(bs[j], m))
}

/// Whether the choices for the parameters from the `i`-th on are complete and
/// meet their bounds.
pub open spec fn choices_hold(e: Env, st: St, sig: Sig, m: Subst, i: int) -> bool {
    forall|j: int|
        #![trigger sig.generics[j]]
        i <= j < sig.generics.len() ==> m.contains_key(sig.generics[j].0) && meets_bounds(
            e,
            st,
            m[sig.generics[j].0],
            sig.generics[j].1,
            m,
            0,
        ) && (sig.const_params.contains_key(sig.generics[j].0) <==> m[sig.generics[j].0] is Const)
}

proof fn lemma_bounds_met(e: Env, st: St, name: Seq<char>, t: Ty, bs: Seq<Bound>, m: Subst, i: int, span: Span)
    requires
        !st.silent,
        0 <= i,
    ensures
        call_bounds_checked(e, st, name, t, bs, m, i, span).diags.len() >= st.diags.len(),
        call_bounds_checked(e, st, name, t, bs, m, i, span).silent == st.silent,
        call_bounds_checked(e, st, name, t, bs, m, i, span).diags.len() == st.diags.len() ==> call_bounds_checked(
            e,
            st,
            name,
            t,
            bs,
            m,
            i,
            span,
        ) == st && meets_bounds(e, st, t, bs, m, i),
    decreases bs.len() - i,
{
    reveal(St::fail);
    if i < bs.len() {
        let b = bound_subst(bs[i], m);
        let st1 = st.fail_if(
            !satisfied(e, st, t, b),
            span,
            "`"@ + crate::describe::shown(t, e.sc.defs()) + "` does not implement `"@
                + crate::describe::shown_bound(b, e.sc.defs()) + "`, required by generic parameter `"@ + name + "`"@,
        );
        lemma_bounds_met(e, st1, name, t, bs, m, i + 1, span);
    }
}

proof fn lemma_choices_hold(e: Env, st: St, sig: Sig, m: Subst, i: int, span: Span)
    requires
        !st.silent,
        0 <= i,
    ensures
        choices_checked(e, st, sig, m, i, span).diags.len() >= st.diags.len(),
        choices_checked(e, st, sig, m, i, span).diags.len() == st.diags.len() ==> choices_checked(
            e,
            st,
            sig,
            m,
            i,
            span,
        ) == st && choices_hold(e, st, sig, m, i),
    decreases sig.generics.len() - i,
{
    reveal(St::fail);
    reveal(const_arg_checked);
    if i < sig.generics.len() {
        let name = sig.generics[i].0;
        match m.get(name) {
            None => {
                let st1 = st.fail(
                    span,
                    "cannot infer generic parameter `"@ + name + "` from this call's arguments"@,
                );
                lemma_choices_hold(e, st1, sig, m, i + 1, span);
            },
            Some(t) => {
                let st1 = const_arg_checked(st, sig.const_params.contains_key(name), name, t, span);
                lemma_bounds_met(e, st1, name, t, sig.generics[i].1, m, 0, span);
                let st2 = call_bounds_checked(e, st1, name, t, sig.generics[i].1, m, 0, span);
                lemma_choices_hold(e, st2, sig, m, i + 1, span);
            },
        }
    }
}

/// In a generic call that passes without an error every parameter has a chosen
/// type, constants stand for constants alone, and every chosen type satisfies
/// its bounds.
pub proof fn law_generic_calls_meet_their_bounds(e: Env, st: St, sig: Sig, m: Subst, span: Span)
    requires
        !st.silent,
        choices_checked(e, st, sig, m, 0, span).diags.len() == st.diags.len(),
    ensures
        choices_hold(e, st, sig, m, 0),
        choices_checked(e, st, sig, m, 0, span) == st,
{
    lemma_choices_hold(e, st, sig, m, 0, span);
}

// ---------------------------------------------------------------------
// A module
// ---------------------------------------------------------------------

/// The ids in a function's body.
pub open spec fn body_ids(f: FnDecl) -> Set<NodeId> {
    match f.body {
        Some(b) => block_ids(b),
        None => Set::empty(),
    }
}

/// The ids in an associated constant's value.
pub open spec fn value_ids(c: AssociatedConst) -> Set<NodeId> {
    match c.value {
        Some(x) => expr_ids(x),
        None => Set::empty(),
    }
}

/// Whether every expression in the bodies and values of an item has a type
/// in the table, for each that has a signature.
pub open spec fn item_recorded(sc: Sc, sigs: Sigs, table: TraitLists, item: Item, m: Map<NodeId, Ty>) -> bool {
    match item {
        Item::Fn(f) => match sc.defs().found_in(f.span.file, f.name.name@) {
            Some(id) => sigs.fns.contains_key(id) ==> has_all(m, body_ids(f)),
            None => true,
        },
        Item::Impl(b) => match sc.defs().found_in(b.span.file, b.target.name@) {
            Some(owner) => {
                &&& forall|i: int|
                    #![trigger b.associated_consts@[i]]
                    0 <= i < b.associated_consts@.len() && sigs.associated_consts.contains_key(
                        (owner, b.associated_consts@[i].name.name@),
                    ) ==> has_all(m, value_ids(b.associated_consts@[i]))
                &&& forall|i: int|
                    #![trigger b.methods@[i]]
                    0 <= i < b.methods@.len() && member_sig(
                        sigs,
                        owner,
                        b.methods@[i],
                        concrete_args(sc, b, owner),
                    ) is Some ==> has_all(m, body_ids(b.methods@[i]))
            },
            None => true,
        },
        Item::Trait(t) => match sc.defs().found_in(t.span.file, t.name.name@) {
            Some(id) => {
                &&& forall|i: int|
                    #![trigger t.associated_consts@[i]]
                    0 <= i < t.associated_consts@.len() && sigs.trait_associated_consts.contains_key(
                        (id, t.associated_consts@[i].name.name@),
                    ) ==> has_all(m, value_ids(t.associated_consts@[i]))
                &&& forall|i: int|
                    #![trigger t.methods@[i]]
                    0 <= i < t.methods@.len() && pair_get(methods_in(table, id), t.methods@[i].name.name@) is Some
                        ==> has_all(m, body_ids(t.methods@[i]))
            },
            None => true,
        },
        _ => true,
    }
}

proof fn run_params(e: Env, st: St, f: FnDecl, sig: Sig, i: int)
    ensures
        grows(st, params_bound(e, st, f, sig, i)),
    decreases sig.params.len() - i,
{
    if 0 <= i < sig.params.len() && i < f.params@.len() {
        let p = sig.params[i];
        let site = f.params@[i];
        let st1 = validated(e, st, p.ty, crate::ast::type_span(site.ty));
        let ty = if p.variadic {
            Ty::Array(Box::new(p.ty))
        } else {
            p.ty
        };
        let st2 = st1.bound(e.sc.names, site.id, ty, site.mutable || p.ty is MutRef);
        run_params(e, reference_param(st2, e.sc.names, site.id, p.ty), f, sig, i + 1);
    }
}

proof fn run_body(e: Env, st: St, f: FnDecl, by_tail: bool)
    ensures
        ran(st, body_checked(e, st, f, by_tail), body_ids(f)),
{
    if let Some(b) = f.body {
        let u = crate::uses::uses_block(e.sc.names, b, crate::uses::no_uses(), false);
        run_fn_body(e, St { remaining: pair_map(u.counts), pinned: u.pinned, ..st }, b);
    }
}

/// Whether the results of one state are kept in another and, if no error has
/// been reported, these expressions have recorded types.
pub open spec fn covers(a: St, b: St, ids: Set<NodeId>) -> bool {
    kept(a, b) && (clean(a, b) ==> has_all(b.expr_types, ids))
}

proof fn run_fn(e: Env, st: St, f: FnDecl, sig: Sig, self_ty: Option<Ty>, by_tail: bool)
    requires
        !st.silent,
    ensures
        covers(st, fn_checked(e, st, f, sig, self_ty, by_tail), body_ids(f)),
{
    let st0 = (St {
        in_async: f.is_async,
        in_unsafe: f.is_unsafe,
        generics: bounds_by_name(sig.generics, sig.generics.len()),
        const_generics: sig.const_params,
        ..restarted(st)
    }).opened();
    let st1 = match self_ty {
        Some(t) => self_bound(e, st0, f, t),
        None => st0,
    };
    assert(grows(st0, st1));
    run_params(e, st1, f, sig, 0);
    let st2 = St { return_ty: sig.ret, ..params_bound(e, st1, f, sig, 0) };
    let st3 = match f.ret {
        Some(r) => validated(e, st2, sig.ret, crate::ast::type_span(r)),
        None => st2,
    };
    assert(kept(st, st3));
    run_body(e, st3, f, by_tail);
}

proof fn run_const(e: Env, st: St, value: Expr, ty: Ty)
    requires
        !st.silent,
    ensures
        covers(st, const_checked(e, st, value, ty), expr_ids(value)),
{
    run_expr(e, restarted(st), value, Some(ty));
}

proof fn run_owner_consts(e: Env, st: St, owner: DefId, cs: Seq<AssociatedConst>, i: int)
    requires
        !st.silent,
        0 <= i,
    ensures
        kept(st, owner_consts_checked(e, st, owner, cs, i)),
        owner_consts_checked(e, st, owner, cs, i).diags.len() == 0 ==> forall|j: int|
            #![trigger cs[j]]
            i <= j < cs.len() && e.sigs.associated_consts.contains_key((owner, cs[j].name.name@)) ==> has_all(
                owner_consts_checked(e, st, owner, cs, i).expr_types,
                value_ids(cs[j]),
            ),
    decreases cs.len() - i,
{
    if i < cs.len() {
        let st1 = match e.sigs.associated_consts.get((owner, cs[i].name.name@)) {
            Some(sig) => match cs[i].value {
                Some(v) => const_checked(e, st, v, sig.ty),
                None => st,
            },
            None => st,
        };
        if let Some(sig) = e.sigs.associated_consts.get((owner, cs[i].name.name@)) {
            if let Some(v) = cs[i].value {
                run_const(e, st, v, sig.ty);
            }
        }
        assert(kept(st, st1));
        run_owner_consts(e, st1, owner, cs, i + 1);
    }
}

proof fn run_owner_methods(e: Env, st: St, owner: DefId, args: Option<Seq<Ty>>, ms: Seq<FnDecl>, i: int)
    requires
        !st.silent,
        0 <= i,
    ensures
        kept(st, owner_methods_checked(e, st, owner, args, ms, i)),
        owner_methods_checked(e, st, owner, args, ms, i).diags.len() == 0 ==> forall|j: int|
            #![trigger ms[j]]
            i <= j < ms.len() && member_sig(e.sigs, owner, ms[j], args) is Some ==> has_all(
                owner_methods_checked(e, st, owner, args, ms, i).expr_types,
                body_ids(ms[j]),
            ),
    decreases ms.len() - i,
{
    if i < ms.len() {
        let found = member_sig(e.sigs, owner, ms[i], args);
        let self_ty = Some(member_owner(e.sc, owner, args));
        let by_tail = ends_by_tail(e.sigs, owner, ms[i]);
        let st1 = match found {
            Some(sig) => fn_checked(e, st, ms[i], sig, self_ty, by_tail),
            None => st,
        };
        if let Some(sig) = found {
            run_fn(e, st, ms[i], sig, self_ty, by_tail);
        }
        assert(kept(st, st1));
        run_owner_methods(e, st1, owner, args, ms, i + 1);
    }
}

proof fn run_trait_consts(e: Env, st: St, id: DefId, cs: Seq<AssociatedConst>, i: int)
    requires
        !st.silent,
        0 <= i,
    ensures
        kept(st, trait_consts_checked(e, st, id, cs, i)),
        trait_consts_checked(e, st, id, cs, i).diags.len() == 0 ==> forall|j: int|
            #![trigger cs[j]]
            i <= j < cs.len() && e.sigs.trait_associated_consts.contains_key((id, cs[j].name.name@)) ==> has_all(
                trait_consts_checked(e, st, id, cs, i).expr_types,
                value_ids(cs[j]),
            ),
    decreases cs.len() - i,
{
    if i < cs.len() {
        let st1 = match cs[i].value {
            Some(v) => match e.sigs.trait_associated_consts.get((id, cs[i].name.name@)) {
                Some(sig) => const_checked(e, st, v, sig.ty),
                None => st,
            },
            None => st,
        };
        if let Some(v) = cs[i].value {
            if let Some(sig) = e.sigs.trait_associated_consts.get((id, cs[i].name.name@)) {
                run_const(e, st, v, sig.ty);
            }
        }
        assert(kept(st, st1));
        run_trait_consts(e, st1, id, cs, i + 1);
    }
}

pub proof fn lemma_lowered_all(sc: Sc, ts: Seq<TypeExpr>, i: int, acc: Seq<Ty>, d: Seq<Diag>)
    ensures
        extends(d, lowered_all(sc, ts, i, acc, d).1),
    decreases ts.len() - i,
{
    if 0 <= i < ts.len() {
        lemma_lower(sc, ts[i], Seq::empty(), d);
        let (x, d1) = lowered(sc, ts[i], d);
        lemma_lowered_all(sc, ts, i + 1, acc.push(x), d1);
    }
}

pub proof fn lemma_lowered_bounds(sc: Sc, ts: Seq<TypeExpr>, i: int, acc: Seq<Bound>, d: Seq<Diag>)
    ensures
        extends(d, lowered_bounds(sc, ts, i, acc, d).1),
    decreases ts.len() - i,
{
    if 0 <= i < ts.len() {
        if let TypeExpr::Named { path: _, generics, span: _ } = ts[i] {
            lemma_lowered_all(sc, generics@, 0, Seq::empty(), d);
        }
        let (b, d1) = lowered_bound(sc, ts[i], d);
        assert(extends(d, d1));
        let acc1 = match b {
            Some(bound) => acc.push(bound),
            None => acc,
        };
        lemma_lowered_bounds(sc, ts, i + 1, acc1, d1);
    }
}

pub proof fn lemma_bounded_params(sc: Sc, gs: Seq<GenericParam>, i: int, acc: Seq<(Seq<char>, Seq<Bound>)>, d: Seq<Diag>)
    ensures
        extends(d, bounded_params_from(sc, gs, i, acc, d).1),
    decreases gs.len() - i,
{
    if 0 <= i < gs.len() {
        lemma_lowered_bounds(sc, gs[i].bounds@, 0, Seq::empty(), d);
        let (bounds, d1) = lowered_bounds(sc, gs[i].bounds@, 0, Seq::empty(), d);
        lemma_bounded_params(sc, gs, i + 1, acc.push((gs[i].name.name@, bounds)), d1);
    }
}

proof fn run_trait_methods(e: Env, st: St, table: TraitLists, id: DefId, t: TraitDecl, i: int)
    requires
        !st.silent,
        0 <= i,
    ensures
        kept(st, trait_methods_checked(e, st, table, id, t, i)),
        trait_methods_checked(e, st, table, id, t, i).diags.len() == 0 ==> forall|j: int|
            #![trigger t.methods@[j]]
            i <= j < t.methods@.len() && pair_get(methods_in(table, id), t.methods@[j].name.name@) is Some
                ==> has_all(trait_methods_checked(e, st, table, id, t, i).expr_types, body_ids(t.methods@[j])),
    decreases t.methods@.len() - i,
{
    if i < t.methods@.len() {
        let m = t.methods@[i];
        let found = pair_get(methods_in(table, id), m.name.name@);
        lemma_bounded_params(e.sc, t.generics@, 0, Seq::empty(), st.diags);
        let (params, d) = bounded_params_from(e.sc, t.generics@, 0, Seq::empty(), st.diags);
        let st0 = St { diags: d, ..st };
        let st1 = match found {
            Some(method) => if m.body is Some {
                fn_checked(e, st0, m, with_owner_params(method.sig, params), Some(Ty::Trait(id)), false)
            } else {
                st
            },
            None => st,
        };
        if let Some(method) = found {
            if m.body is Some {
                run_fn(e, st0, m, with_owner_params(method.sig, params), Some(Ty::Trait(id)), false);
            }
        }
        assert(kept(st, st1));
        run_trait_methods(e, st1, table, id, t, i + 1);
    }
}

proof fn run_item(e: Env, st: St, table: TraitLists, item: Item)
    requires
        !st.silent,
    ensures
        kept(st, item_checked(e, st, table, item)),
        item_checked(e, st, table, item).diags.len() == 0 ==> item_recorded(
            e.sc,
            e.sigs,
            table,
            item,
            item_checked(e, st, table, item).expr_types,
        ),
{
    match item {
        Item::Fn(f) => {
            if let Some(id) = e.sc.defs().found_in(f.span.file, f.name.name@) {
                if let Some(sig) = e.sigs.fns.get(id) {
                    run_fn(e, st, f, sig, None, false);
                }
            }
        },
        Item::Impl(b) => {
            if let Some(owner) = e.sc.defs().found_in(b.span.file, b.target.name@) {
                run_owner_consts(e, st, owner, b.associated_consts@, 0);
                let st1 = owner_consts_checked(e, st, owner, b.associated_consts@, 0);
                run_owner_methods(e, st1, owner, concrete_args(e.sc, b, owner), b.methods@, 0);
            }
        },
        Item::Trait(t) => {
            if let Some(id) = e.sc.defs().found_in(t.span.file, t.name.name@) {
                run_trait_consts(e, st, id, t.associated_consts@, 0);
                let st1 = trait_consts_checked(e, st, id, t.associated_consts@, 0);
                run_trait_methods(e, st1, table, id, t, 0);
            }
        },
        _ => {},
    }
}

proof fn lemma_item_stays(sc: Sc, sigs: Sigs, table: TraitLists, item: Item, a: Map<NodeId, Ty>, b: Map<NodeId, Ty>)
    requires
        item_recorded(sc, sigs, table, item, a),
        within(a, b),
    ensures
        item_recorded(sc, sigs, table, item, b),
{
}

proof fn run_items(e: Env, st: St, table: TraitLists, i: int)
    requires
        !st.silent,
        0 <= i,
    ensures
        kept(st, items_checked(e, st, table, i)),
        items_checked(e, st, table, i).diags.len() == 0 ==> forall|j: int|
            #![trigger e.sc.module.items@[j]]
            i <= j < e.sc.module.items@.len() ==> item_recorded(
                e.sc,
                e.sigs,
                table,
                e.sc.module.items@[j],
                items_checked(e, st, table, i).expr_types,
            ),
    decreases e.sc.module.items@.len() - i,
{
    if i < e.sc.module.items@.len() {
        let item = e.sc.module.items@[i];
        run_item(e, st, table, item);
        let st1 = item_checked(e, st, table, item);
        run_items(e, st1, table, i + 1);
        let st2 = items_checked(e, st1, table, i + 1);
        if st2.diags.len() == 0 {
            lemma_item_stays(e.sc, e.sigs, table, item, st1.expr_types, st2.expr_types);
        }
    }
}

/// After a check without errors, every expression in the body of every
/// function, method and default method, and in the value of every associated
/// constant, has a recorded type: for each of these that has a signature.
pub proof fn law_every_expression_is_recorded(module: Module, names: ResolvedNames, i: int)
    requires
        checked(module, names).diags.len() == 0,
        0 <= i < module.items@.len(),
    ensures
        item_recorded(
            scope_of(module, names),
            checked(module, names).signatures,
            signatures_of(scope_of(module, names)).0,
            module.items@[i],
            checked(module, names).expr_types,
        ),
{
    let sc = scope_of(module, names);
    let (table, sigs, d) = signatures_of(sc);
    let st = St::fresh(d, Map::empty(), Map::empty(), Map::empty(), Map::empty());
    run_items(Env { sc, sigs }, st, table, 0);
}

/// Checking bodies only adds to the errors of the declarations.
pub proof fn law_declaration_errors_stay(module: Module, names: ResolvedNames)
    ensures
        signatures_of(scope_of(module, names)).2.is_prefix_of(checked(module, names).diags),
{
    let sc = scope_of(module, names);
    let (table, sigs, d) = signatures_of(sc);
    let st = St::fresh(d, Map::empty(), Map::empty(), Map::empty(), Map::empty());
    run_items(Env { sc, sigs }, st, table, 0);
    reveal(extends);
    assert(d =~= checked(module, names).diags.subrange(0, d.len() as int));
}

// ---------------------------------------------------------------------
// Signatures
// ---------------------------------------------------------------------

/// Whether every function with a signature in one table has one in another.
pub open spec fn fns_stay(a: Sigs, b: Sigs) -> bool {
    forall|id: DefId| #![trigger b.fns.contains_key(id)] a.fns.contains_key(id) ==> b.fns.contains_key(id)
}

proof fn lemma_fns_added(sc: Sc, i: int, s: Sigs, d: Seq<Diag>)
    requires
        0 <= i,
    ensures
        fns_stay(s, with_fns_from(sc, i, s, d).0),
        forall|j: int|
            #![trigger sc.module.items@[j]]
            i <= j < sc.module.items@.len() ==> (match sc.module.items@[j] {
                Item::Fn(f) => match sc.defs().found_in(f.span.file, f.name.name@) {
                    Some(id) => with_fns_from(sc, i, s, d).0.fns.contains_key(id),
                    None => true,
                },
                _ => true,
            }),
    decreases sc.module.items@.len() - i,
{
    if i < sc.module.items@.len() {
        let (s1, d1) = match sc.module.items@[i] {
            Item::Fn(f) => match sc.defs().found_in(f.span.file, f.name.name@) {
                Some(id) => {
                    let (sig, d1) = signature_of(sc, f, d);
                    (Sigs { fns: s.fns.insert(id, sig), ..s }, foreign_errors(sc, f, sig, d1))
                },
                None => (s, d),
            },
            _ => (s, d),
        };
        assert(fns_stay(s, s1));
        lemma_fns_added(sc, i + 1, s1, d1);
    }
}

proof fn lemma_rounds_keep_fns(sc: Sc, s: Sigs)
    ensures
        fns_stay(s, settled(sc, s)),
    decreases room(sc, s, 0),
{
    if next_round(sc, s) != s {
        lemma_rounds_end(sc, s);
        assert(fns_stay(s, next_round(sc, s)));
        lemma_rounds_keep_fns(sc, next_round(sc, s));
    }
}

proof fn lemma_summaries_keep_fns(sc: Sc, s: Sigs)
    ensures
        fns_stay(s, with_fn_summaries(sc, s)),
{
    let t = cleared_from(sc, s, 0);
    assert(fns_stay(s, t));
    lemma_rounds_keep_fns(sc, t);
}

proof fn lemma_heads_keep_fns(sc: Sc, i: int, s: Sigs, d: Seq<Diag>)
    ensures
        with_trait_heads(sc, i, s, d).0.fns == s.fns,
    decreases sc.decls.traits.len() - i,
{
    if 0 <= i < sc.decls.traits.len() {
        let id = sc.decls.traits[i].0;
        match sc.trait_decl(id) {
            None => {
                lemma_heads_keep_fns(sc, i + 1, s, d);
            },
            Some(t) => {
                let (parents, d1) = lowered_bounds(sc, t.parents@, 0, Seq::empty(), d);
                let s1 = Sigs {
                    trait_generics: s.trait_generics.insert(id, param_names(t.generics@)),
                    trait_parents: s.trait_parents.insert(id, parents),
                    ..s
                };
                lemma_heads_keep_fns(sc, i + 1, s1, d1);
            },
        }
    }
}

proof fn lemma_raw_keeps_fns(sc: Sc, i: int, acc: Seq<Raw>, s: Sigs, d: Seq<Diag>)
    ensures
        raw_from(sc, i, acc, s, d).1.fns == s.fns,
    decreases sc.module.items@.len() - i,
{
    if 0 <= i < sc.module.items@.len() {
        let (acc1, s1, d1) = match sc.module.items@[i] {
            Item::Impl(b) => match sc.defs().found_in(b.span.file, b.target.name@) {
                Some(owner) => raw_block(sc, b, owner, acc, s, d),
                None => (acc, s, d),
            },
            _ => (acc, s, d),
        };
        lemma_raw_keeps_fns(sc, i + 1, acc1, s1, d1);
    }
}

proof fn lemma_needs_keep_fns(needs: Seq<(MethodKey, Need)>, i: int, s: Sigs, d: Seq<Diag>)
    ensures
        met_needs(needs, i, s, d).0.fns == s.fns,
    decreases needs.len() - i,
{
    reveal_with_fuel(met_needs, 2);
    if 0 <= i < needs.len() {
        let key = needs[i].0;
        let need = needs[i].1;
        if need.ambiguous || need.defaults.len() > 1 {
            let d1 = d.push(
                diag(
                    "multiple default implementations of method `"@ + key.1 + "` are available for `"@
                        + need.owner_name + "`; provide an explicit implementation"@,
                    need.span,
                    "ambiguous default"@,
                ),
            );
            lemma_needs_keep_fns(needs, i + 1, s, d1);
        } else if need.defaults.len() == 1 && static_clash(s.methods, key) {
            lemma_needs_keep_fns(needs, i + 1, s, d.push(clashing_default(key, need)));
        } else if need.defaults.len() == 1 {
            let c = need.defaults[0];
            let set = match s.methods.get(key) {
                Some(set) => set,
                None => Methods::none(),
            };
            let s1 = Sigs {
                methods: s.methods.insert(key, Methods { generic: Some(c.sig), ..set }),
                default_method_substitutions: s.default_method_substitutions.insert(key, c.subst),
                default_method_sources: s.default_method_sources.insert(key, c.source),
                ..s
            };
            lemma_needs_keep_fns(needs, i + 1, s1, d);
        } else {
            let d1 = d.push(
                diag(
                    "`"@ + need.owner_name + "` does not implement required method `"@ + key.1 + "` of trait `"@
                        + need.trait_name + "`"@,
                    need.span,
                    "missing implementation"@,
                ),
            );
            lemma_needs_keep_fns(needs, i + 1, s, d1);
        }
    }
}

proof fn lemma_methods_keep_fns(k: Known, owner: DefId, args: Option<Seq<Ty>>, ms: Seq<FnDecl>, i: int, s: Sigs)
    ensures
        with_methods_from(k, owner, args, ms, i, s).fns == s.fns,
    decreases ms.len() - i,
{
    if 0 <= i < ms.len() {
        let key = (owner, ms[i].name.name@, domain_of_self(ms[i].self_param));
        let s1 = match s.methods.get(key) {
            Some(set) => Sigs {
                methods: s.methods.insert(key, with_body_origins(set, args, body_summary(k, ms[i], true))),
                ..s
            },
            None => s,
        };
        lemma_methods_keep_fns(k, owner, args, ms, i + 1, s1);
    }
}

/// Summaries of methods leave the signatures of functions alone.
pub proof fn lemma_impls_keep_fns(sc: Sc, k: Known, i: int, s: Sigs)
    ensures
        with_impls_from(sc, k, i, s).fns == s.fns,
    decreases sc.module.items@.len() - i,
{
    if 0 <= i < sc.module.items@.len() {
        let s1 = match sc.module.items@[i] {
            Item::Impl(b) => match sc.defs().found_in(b.span.file, b.target.name@) {
                Some(owner) => with_methods_from(k, owner, concrete_args(sc, b, owner), b.methods@, 0, s),
                None => s,
            },
            _ => s,
        };
        if let Item::Impl(b) = sc.module.items@[i] {
            if let Some(owner) = sc.defs().found_in(b.span.file, b.target.name@) {
                lemma_methods_keep_fns(k, owner, concrete_args(sc, b, owner), b.methods@, 0, s);
            }
        }
        lemma_impls_keep_fns(sc, k, i + 1, s1);
    }
}

/// The signatures of functions before their summaries are known.
pub open spec fn plain_signatures(module: Module, names: ResolvedNames) -> Sigs {
    let sc = scope_of(module, names);
    let (s1, d1) = with_types_from(sc, 0, Sigs::none(), Seq::empty());
    let (s2, d2) = with_enums_from(sc, 0, s1, d1);
    with_fns_from(sc, 0, s2, d2).0
}

/// Nothing changes the signatures of functions after their summaries.
proof fn lemma_function_signatures(module: Module, names: ResolvedNames)
    ensures
        checked(module, names).signatures.fns == with_fn_summaries(
            scope_of(module, names),
            plain_signatures(module, names),
        ).fns,
{
    let sc = scope_of(module, names);
    let (s1, d1) = with_types_from(sc, 0, Sigs::none(), Seq::empty());
    let (s2, d2) = with_enums_from(sc, 0, s1, d1);
    let (s3, d3) = with_fns_from(sc, 0, s2, d2);
    let s3a = with_fn_summaries(sc, s3);
    let (table, s4, d4) = with_all_traits(sc, s3a, d3);
    lemma_heads_keep_fns(sc, 0, s3a, d3);
    let (s5, d5) = with_all_impls(sc, table, s4, d4);
    let (w1, e1) = with_written_methods(sc, s4, d4);
    lemma_raw_keeps_fns(sc, 0, Seq::empty(), s4, d4);
    let (rs, e2) = all_requests(sc, e1);
    let (impls, keep, e3) = distinct_requests(sc, rs, 0, Seq::empty(), w1.impls, Seq::empty(), e2);
    let w2 = Sigs { impls, ..w1 };
    let (needs, e4) = all_needs(sc, w2, table, rs, keep, 0, Seq::empty(), e3);
    lemma_needs_keep_fns(needs, 0, w2, e4);
    let (s6, d6) = with_constants(sc, s5, d5);
    let (s7, d7) = with_associated_types(sc, s6, d6);
    lemma_impls_keep_fns(sc, Known { names: sc.names, summaries: summaries_of(s7) }, 0, s7);
}

/// Every function item that the names know has a signature.
pub proof fn law_functions_have_signatures(module: Module, names: ResolvedNames, i: int)
    requires
        0 <= i < module.items@.len(),
    ensures
        match module.items@[i] {
            Item::Fn(f) => match names.definitions.found_in(f.span.file, f.name.name@) {
                Some(id) => checked(module, names).signatures.fns.contains_key(id),
                None => true,
            },
            _ => true,
        },
{
    let sc = scope_of(module, names);
    let (s1, d1) = with_types_from(sc, 0, Sigs::none(), Seq::empty());
    let (s2, d2) = with_enums_from(sc, 0, s1, d1);
    lemma_fns_added(sc, 0, s2, d2);
    lemma_summaries_keep_fns(sc, plain_signatures(module, names));
    lemma_function_signatures(module, names);
    assert(sc.module.items@[i] == module.items@[i]);
}

/// In a checked module, the origins of a function that returns a reference are
/// those that its body returns, given the origins of all functions.
pub proof fn law_origins_are_what_bodies_return(module: Module, names: ResolvedNames, id: DefId, f: FnDecl)
    requires
        fn_of(scope_of(module, names), id) == Some(f),
        returns_reference(checked(module, names).signatures, id),
    ensures
        checked(module, names).signatures.fns[id].return_origins == body_summary(
            known_of(scope_of(module, names), checked(module, names).signatures),
            f,
            false,
        ),
{
    let sc = scope_of(module, names);
    let s = plain_signatures(module, names);
    let t = with_fn_summaries(sc, s);
    let last = checked(module, names).signatures;
    lemma_function_signatures(module, names);
    law_summaries_reach_no_others(sc, s);
    law_summaries_touch_references_alone(sc, s, id);
    law_summary_is_what_the_body_returns(sc, s, id, f);
    assert(summaries_of(last) =~= summaries_of(t));
}

/// After a check without errors, every expression in the body of every
/// function that the names know has a recorded type.
pub proof fn law_function_bodies_are_recorded(module: Module, names: ResolvedNames, i: int, f: FnDecl)
    requires
        checked(module, names).diags.len() == 0,
        0 <= i < module.items@.len(),
        module.items@[i] == Item::Fn(f),
        names.definitions.found_in(f.span.file, f.name.name@) is Some,
    ensures
        body_ids(f).subset_of(checked(module, names).expr_types.dom()),
{
    law_functions_have_signatures(module, names, i);
    law_every_expression_is_recorded(module, names, i);
    lemma_has_dom(checked(module, names).expr_types, body_ids(f));
}

} // verus!
