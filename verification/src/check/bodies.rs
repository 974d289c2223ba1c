//! What a body is checked with: its parameters, its receiver and its constants; and
//! what a path in it stands for.
use crate::ast::{Expr, FnDecl, Ident, Path};
use crate::check::entry::{bounds_by_name, const_checked, fn_item, params_bound, restarted, self_bound};
use crate::check::facts::{
    all_validated, arg_bounds_checked, args_bounds_checked, const_arg_checked, const_args_checked, field_read,
    nominal_checked, parameter_projection_checked, projection_checked, root_local, validated, writable,
};
use crate::check::growth::{group_grows, group_steps, grows, lemma_one_error};
use crate::check::model::{
    bound_consts, def_value, expected_args, expr, owner_const, parameter_const, value_path,
};
use crate::check::record::run_expr;
use crate::check::rules::{local_read, path_fields, reference_param};
use crate::check::state::{BorrowOrigin, Env, St};
use crate::check::typing::{is_unit, no_error};
use crate::ids::{DefId, LocalId, NodeId, SelfParam, Span, Visibility};
use crate::names::{PathResolution, Resolution};
use crate::sig::{Bound, Sig};
use crate::subst::{subst, zip_subst, Subst};
use crate::ty::{fits, Ty};
use vstd::prelude::*;

verus! {

broadcast use {group_grows, group_steps, lemma_one_error};

// ---------------------------------------------------------------------
// Validity
// ---------------------------------------------------------------------

/// Whether a state differs from another only in the errors that are reported.
pub open spec fn only_reports(a: St, b: St) -> bool {
    b == (St { diags: b.diags, ..a })
}

proof fn lemma_const_args(e: Env, st: St, id: DefId, names: Seq<Seq<char>>, args: Seq<Ty>, i: int, span: Span)
    ensures
        only_reports(st, const_args_checked(e, st, id, names, args, i, span)),
    decreases names.len() - i,
{
    reveal(const_arg_checked);
    reveal(St::fail);
    if 0 <= i < names.len() && i < args.len() {
        let is_const = match e.sigs.const_type_params.get(id) {
            Some(params) => params.contains_key(names[i]),
            None => false,
        };
        lemma_const_args(e, const_arg_checked(st, is_const, names[i], args[i], span), id, names, args, i + 1, span);
    }
}

proof fn lemma_arg_bounds(e: Env, st: St, arg: Ty, bs: Seq<Bound>, m: Subst, i: int, span: Span)
    ensures
        only_reports(st, arg_bounds_checked(e, st, arg, bs, m, i, span)),
    decreases bs.len() - i,
{
    reveal(St::fail);
    if 0 <= i < bs.len() {
        let b = crate::rules::bound_subst(bs[i], m);
        let st1 = st.fail_if(
            !crate::check::facts::satisfied(e, st, arg, b),
            span,
            "`"@ + crate::describe::shown(arg, e.sc.defs()) + "` does not implement `"@
                + crate::describe::shown_bound(b, e.sc.defs()) + "`, required by this generic type"@,
        );
        lemma_arg_bounds(e, st1, arg, bs, m, i + 1, span);
    }
}

proof fn lemma_args_bounds(e: Env, st: St, bs: Seq<Seq<Bound>>, args: Seq<Ty>, m: Subst, i: int, span: Span)
    ensures
        only_reports(st, args_bounds_checked(e, st, bs, args, m, i, span)),
    decreases bs.len() - i,
{
    if 0 <= i < bs.len() {
        let st1 = if i < args.len() && !crate::ty::has_error(args[i]) {
            arg_bounds_checked(e, st, args[i], bs[i], m, 0, span)
        } else {
            st
        };
        if i < args.len() {
            lemma_arg_bounds(e, st, args[i], bs[i], m, 0, span);
        }
        lemma_args_bounds(e, st1, bs, args, m, i + 1, span);
    }
}

/// Checking that a type is valid changes nothing but the errors that are reported.
pub proof fn law_validating_only_reports(e: Env, st: St, t: Ty, span: Span)
    ensures
        only_reports(st, validated(e, st, t, span)),
    decreases t, 0nat, 0int,
{
    reveal(nominal_checked);
    reveal(projection_checked);
    reveal(parameter_projection_checked);
    reveal(St::fail);
    match t {
        Ty::Struct(id, args) | Ty::TupleStruct(id, args) | Ty::Enum(id, args) => {
            let names = e.sigs.owner_generics(id);
            let bounds = match e.sigs.generic_type_bounds.get(id) {
                Some(bs) => bs,
                None => Seq::empty(),
            };
            lemma_const_args(e, st, id, names, args, 0, span);
            let st1 = const_args_checked(e, st, id, names, args, 0, span);
            lemma_args_bounds(e, st1, bounds, args, zip_subst(names, args), 0, span);
            lemma_all_validated(e, nominal_checked(e, st, id, args, span), args, 0, span);
        },
        Ty::Tuple(items) => lemma_all_validated(e, st, items, 0, span),
        Ty::Array(inner) | Ty::Weak(inner) => law_validating_only_reports(e, st, *inner, span),
        Ty::Associated(owner, name) => {
            law_validating_only_reports(e, projection_checked(e, st, *owner, name, span), *owner, span);
        },
        Ty::Function(params, ret) => {
            lemma_all_validated(e, st, params, 0, span);
            law_validating_only_reports(e, all_validated(e, st, params, 0, span), *ret, span);
        },
        _ => {},
    }
}

proof fn lemma_all_validated(e: Env, st: St, ts: Seq<Ty>, i: int, span: Span)
    ensures
        only_reports(st, all_validated(e, st, ts, i, span)),
    decreases ts, 0nat, ts.len() - i,
{
    if 0 <= i < ts.len() {
        law_validating_only_reports(e, st, ts[i], span);
        lemma_all_validated(e, validated(e, st, ts[i], span), ts, i + 1, span);
    }
}

// ---------------------------------------------------------------------
// Parameters
// ---------------------------------------------------------------------

/// Inside a method `self` is of the owner's type, owned or as a reference as the method
/// takes it, can be changed if the method says so, and is there. A reference to it comes
/// from it.
pub proof fn law_self_is_bound(e: Env, st: St, f: FnDecl, t: Ty, local: LocalId)
    requires
        e.sc.names.local(f.id) == Some(local),
    ensures
        ({
            let after = self_bound(e, st, f, t);
            let ty = match f.self_param {
                Some(SelfParam::Owned) => Ty::Unique(Box::new(t)),
                Some(SelfParam::OwnedRef) => Ty::Ref(Box::new(t)),
                Some(SelfParam::OwnedMutRef) => Ty::MutRef(Box::new(t)),
                _ => t,
            };
            let mutable = f.self_param == Some(SelfParam::ByMutRef) || f.self_param == Some(SelfParam::OwnedMutRef);
            &&& after.locals == st.locals.insert(local, (ty, mutable))
            &&& after.local_types.get(f.id) == Some(ty)
            &&& !after.moved.contains_key(local)
            &&& f.self_param == Some(SelfParam::OwnedRef) || f.self_param == Some(SelfParam::OwnedMutRef)
                ==> after.reference_origins.get(local) == Some(BorrowOrigin::Parameter(local))
            &&& after.diags == st.diags
        }),
{
    reveal(St::bound);
    reveal(reference_param);
}

/// Whether the parameters from the `i`-th on are locals of their own.
pub open spec fn own_locals(e: Env, f: FnDecl, i: int) -> bool {
    forall|j: int, k: int|
        #![trigger f.params@[j], f.params@[k]]
        i <= j < k < f.params@.len() ==> e.sc.names.local(f.params@[j].id) is Some && e.sc.names.local(f.params@[j].id)
            != e.sc.names.local(f.params@[k].id)
}

/// Inside a function each parameter is of its declared type, an array of it if it is
/// variadic, and can be changed if it is declared so or is an exclusive reference; a
/// reference comes from the parameter.
pub proof fn law_parameters_are_bound(e: Env, st: St, f: FnDecl, sig: Sig, i: int, k: int, local: LocalId)
    requires
        0 <= i <= k < sig.params.len(),
        sig.params.len() == f.params@.len(),
        own_locals(e, f, i),
        e.sc.names.local(f.params@[k].id) == Some(local),
    ensures
        ({
            let after = params_bound(e, st, f, sig, i);
            let p = sig.params[k];
            let ty = if p.variadic {
                Ty::Array(Box::new(p.ty))
            } else {
                p.ty
            };
            &&& after.locals.get(local) == Some((ty, f.params@[k].mutable || p.ty is MutRef))
            &&& !after.moved.contains_key(local)
            &&& p.ty is Ref || p.ty is MutRef ==> after.reference_origins.get(local) == Some(
                BorrowOrigin::Parameter(local),
            )
        }),
    decreases sig.params.len() - i,
{
    reveal(St::bound);
    reveal(reference_param);
    let p = sig.params[i];
    let site = f.params@[i];
    let st1 = validated(e, st, p.ty, crate::ast::type_span(site.ty));
    law_validating_only_reports(e, st, p.ty, crate::ast::type_span(site.ty));
    let ty = if p.variadic {
        Ty::Array(Box::new(p.ty))
    } else {
        p.ty
    };
    let st2 = st1.bound(e.sc.names, site.id, ty, site.mutable || p.ty is MutRef);
    let st3 = reference_param(st2, e.sc.names, site.id, p.ty);
    if i < k {
        law_parameters_are_bound(e, st3, f, sig, i + 1, k, local);
    } else {
        lemma_bound_stays(e, st3, f, sig, i + 1, local);
    }
}

proof fn lemma_bound_stays(e: Env, st: St, f: FnDecl, sig: Sig, i: int, local: LocalId)
    requires
        0 <= i,
        sig.params.len() == f.params@.len(),
        forall|j: int|
            #![trigger f.params@[j]]
            i <= j < f.params@.len() ==> e.sc.names.local(f.params@[j].id) != Some(local),
        !st.moved.contains_key(local),
    ensures
        ({
            let after = params_bound(e, st, f, sig, i);
            &&& after.locals.get(local) == st.locals.get(local)
            &&& after.reference_origins.get(local) == st.reference_origins.get(local)
            &&& !after.moved.contains_key(local)
        }),
    decreases sig.params.len() - i,
{
    reveal(St::bound);
    reveal(reference_param);
    if i < sig.params.len() {
        let p = sig.params[i];
        let site = f.params@[i];
        let st1 = validated(e, st, p.ty, crate::ast::type_span(site.ty));
        law_validating_only_reports(e, st, p.ty, crate::ast::type_span(site.ty));
        let ty = if p.variadic {
            Ty::Array(Box::new(p.ty))
        } else {
            p.ty
        };
        let st2 = st1.bound(e.sc.names, site.id, ty, site.mutable || p.ty is MutRef);
        lemma_bound_stays(e, reference_param(st2, e.sc.names, site.id, p.ty), f, sig, i + 1, local);
    }
}

/// The bounds of generic parameters with different names are found by name.
pub proof fn law_bounds_by_name(gs: Seq<(Seq<char>, Seq<Bound>)>, n: nat, k: int)
    requires
        n <= gs.len(),
        0 <= k < n,
        forall|i: int, j: int| #![trigger gs[i], gs[j]] 0 <= i < j < gs.len() ==> gs[i].0 != gs[j].0,
    ensures
        bounds_by_name(gs, n).get(gs[k].0) == Some(gs[k].1),
    decreases n,
{
    if k < n - 1 {
        law_bounds_by_name(gs, (n - 1) as nat, k);
        assert(gs[k].0 != gs[n - 1].0);
    }
}

// ---------------------------------------------------------------------
// Items
// ---------------------------------------------------------------------

/// An associated constant is checked without an error exactly if its value is, and has
/// the declared type.
pub proof fn law_constants_fit(e: Env, st: St, value: Expr, ty: Ty)
    ensures
        ({
            let (st1, t) = expr(e, restarted(st), value, Some(ty));
            no_error(st, const_checked(e, st, value, ty)) <==> no_error(st, st1) && fits(ty, t)
        }),
{
    run_expr(e, restarted(st), value, Some(ty));
}

/// A program starts without an error only in a `main` without parameters, generic
/// parameters and a result.
pub proof fn law_main_takes_and_gives_nothing(e: Env, st: St, f: FnDecl, id: DefId, sig: Sig)
    requires
        f.name.name@ == "main"@,
        e.sc.defs().found_in(f.span.file, f.name.name@) == Some(id),
        e.sigs.fns.get(id) == Some(sig),
        fn_item(e, st, f).diags.len() == st.diags.len(),
    ensures
        sig.params.len() == 0,
        sig.generics.len() == 0,
        is_unit(sig.ret),
{
}

// ---------------------------------------------------------------------
// Paths
// ---------------------------------------------------------------------

/// A path that is a whole local uses it up if it is owned, and reads as its value.
pub proof fn law_whole_locals_are_used_up(e: Env, st: St, path: Path, local: LocalId, t: Ty, mutable: bool, expected: Option<Ty>, id: Option<NodeId>, gargs: Seq<Ty>)
    requires
        e.sc.names.path(path.id) matches Some(res) && res.base == Resolution::Local(local) && res.consumed
            == path.segments@.len(),
        st.locals.get(local) == Some((t, mutable)),
    ensures
        value_path(e, st, path, None, expected, id, gargs) == (
            st.used(local, t, path.span, true).noted(local),
            local_read(e, t, true, expected),
        ),
{
}

/// A path through a local's fields only looks at the local, and goes from field to
/// field.
pub proof fn law_paths_go_through_fields(e: Env, st: St, path: Path, local: LocalId, t: Ty, mutable: bool, consumed: int, expected: Option<Ty>, id: Option<NodeId>, gargs: Seq<Ty>)
    requires
        e.sc.names.path(path.id) matches Some(res) && res.base == Resolution::Local(local) && res.consumed == consumed,
        consumed < path.segments@.len(),
        st.locals.get(local) == Some((t, mutable)),
    ensures
        value_path(e, st, path, None, expected, id, gargs) == path_fields(
            e,
            st.used(local, t, path.span, false).noted(local),
            path,
            consumed,
            path.segments@.len() as int,
            local_read(e, t, false, expected),
        ),
{
}

/// Going through a path's fields reads the first one of what it stands on, and goes on
/// from there.
pub proof fn law_fields_of_a_path_in_order(e: Env, st: St, path: Path, i: int, n: int, t: Ty)
    requires
        0 <= i <= n <= path.segments@.len(),
    ensures
        i == n ==> path_fields(e, st, path, i, n, t) == (st, t),
        i < n ==> ({
            let (st1, t1) = field_read(e, st, t, path.segments@[i].name@, path.segments@[i].span);
            &&& path_fields(e, st, path, i, n, t) == path_fields(e, st1, path, i + 1, n, t1)
            &&& no_error(st, path_fields(e, st, path, i, n, t).0) <==> no_error(st, st1) && no_error(
                st1,
                path_fields(e, st1, path, i + 1, n, t1).0,
            )
        }),
{
    if i < n {
        let (st1, t1) = field_read(e, st, t, path.segments@[i].name@, path.segments@[i].span);
        assert(grows(st, st1));
        assert(grows(st1, path_fields(e, st1, path, i + 1, n, t1).0));
    }
}

/// Types, traits and enums are no values.
pub proof fn law_types_are_no_values(
    e: Env,
    st: St,
    def: DefId,
    span: Span,
    args: Option<Seq<Expr>>,
    expected: Option<Ty>,
    id: Option<NodeId>,
    gargs: Seq<Ty>,
)
    requires
        !st.silent,
        no_error(st, def_value(e, st, def, span, args, expected, id, gargs).0),
    ensures
        e.sc.defs().kind_of(def) is Fn || e.sc.defs().kind_of(def) is Type || e.sc.defs().kind_of(def) is Imported,
{
}

proof fn lemma_bound_consts(e: Env, bs: Seq<Bound>, name: Seq<char>, i: int, acc: Seq<Ty>)
    requires
        0 <= i <= bs.len(),
    ensures
        ({
            let r = bound_consts(e, bs, name, i, acc);
            &&& r.len() >= acc.len()
            &&& forall|k: int| #![trigger r[k]] 0 <= k < acc.len() ==> r[k] == acc[k]
            &&& r.len() == acc.len() <==> forall|k: int|
                #![trigger bs[k]]
                i <= k < bs.len() ==> !e.sigs.trait_associated_consts.contains_key((bs[k].trait_id, name))
            &&& r.len() == acc.len() + 1 ==> exists|k: int|
                #![trigger bs[k]]
                i <= k < bs.len() && gives_const(e, bs[k], name, r[acc.len() as int]) && forall|j: int|
                    #![trigger bs[j]]
                    i <= j < bs.len() && j != k ==> !e.sigs.trait_associated_consts.contains_key((bs[j].trait_id, name))
        }),
    decreases bs.len() - i,
{
    if i < bs.len() {
        let r = bound_consts(e, bs, name, i, acc);
        match e.sigs.trait_associated_consts.get((bs[i].trait_id, name)) {
            Some(sig) => {
                let t = subst(sig.ty, zip_subst(e.sigs.generics_of_trait(bs[i].trait_id), bs[i].args));
                let acc1 = acc.push(t);
                lemma_bound_consts(e, bs, name, i + 1, acc1);
                assert(r[acc.len() as int] == acc1[acc.len() as int]);
                assert forall|k: int| #![trigger r[k]] 0 <= k < acc.len() implies r[k] == acc[k] by {
                    assert(acc1[k] == acc[k]);
                }
                assert(gives_const(e, bs[i], name, t));
            },
            None => {
                lemma_bound_consts(e, bs, name, i + 1, acc);
            },
        }
    }
}

/// Whether a bound has a constant of this type, with the bound's arguments put in.
pub open spec fn gives_const(e: Env, b: Bound, name: Seq<char>, t: Ty) -> bool {
    e.sigs.trait_associated_consts.get((b.trait_id, name)) matches Some(sig) && t == subst(
        sig.ty,
        zip_subst(e.sigs.generics_of_trait(b.trait_id), b.args),
    )
}

/// A constant of a generic parameter is named without an error only if exactly one of
/// the parameter's bounds has it; it is of that bound's type.
pub proof fn law_constants_of_parameters(e: Env, st: St, generic: Ident, constant: Ident)
    requires
        !st.silent,
        no_error(st, parameter_const(e, st, generic, constant).0),
    ensures
        st.generics.contains_key(generic.name@),
        ({
            let bs = st.generics[generic.name@];
            exists|k: int|
                #![trigger bs[k]]
                0 <= k < bs.len() && gives_const(e, bs[k], constant.name@, parameter_const(e, st, generic, constant).1)
                    && forall|j: int|
                    #![trigger bs[j]]
                    0 <= j < bs.len() && j != k ==> !e.sigs.trait_associated_consts.contains_key(
                        (bs[j].trait_id, constant.name@),
                    )
        }),
{
    reveal(parameter_const);
    let bs = match st.generics.get(generic.name@) {
        Some(bs) => bs,
        None => Seq::empty(),
    };
    lemma_bound_consts(e, bs, constant.name@, 0, Seq::empty());
}

/// A constant of a declared type is named without an error exactly where it may be, and
/// is of its declared type.
pub proof fn law_constants_of_types(e: Env, st: St, owner: DefId, idx: u32, span: Span, name: Seq<char>)
    requires
        !st.silent,
        e.sc.defs().constant_name_of(owner, idx) == Some(name),
        e.sigs.associated_consts.contains_key((owner, name)),
    ensures
        ({
            let sig = e.sigs.associated_consts[(owner, name)];
            owner_const(e, st, owner, idx, span) matches Some((after, t)) && t == sig.ty && (no_error(st, after) <==> (
            sig.file == span.file || sig.visibility == Visibility::Public))
        }),
{
    reveal(owner_const);
}

/// What is expected of a declared type's arguments is taken from an expected type of the
/// same declaration, in order, and from no other.
pub proof fn law_expected_arguments(def: DefId, names: Seq<Seq<char>>, expected: Option<Ty>)
    ensures
        match expected {
            Some(Ty::Struct(id, args)) | Some(Ty::TupleStruct(id, args)) | Some(Ty::Enum(id, args)) => expected_args(
                def,
                names,
                expected,
            ) == (if id == def && args.len() == names.len() {
                zip_subst(names, args)
            } else {
                Map::empty()
            }),
            _ => expected_args(def, names, expected) == Map::<Seq<char>, Ty>::empty(),
        },
{
}

/// A place is written without an error exactly if the local that it belongs to is not
/// lent, and is not declared without `mut`.
pub proof fn law_written_places_are_free(e: Env, st: St, target: Expr)
    requires
        !st.silent,
    ensures
        no_error(st, writable(e, st, target)) <==> (root_local(e.sc.names, target) matches Some(local)
            ==> !st.borrows.contains_key(local) && (st.locals.get(local) matches Some((_, mutable)) ==> mutable)),
{
    reveal(writable);
    reveal(St::fail);
}

/// A field or an element belongs to the local that what it is taken of belongs to.
pub proof fn law_places_belong_to_their_base(names: crate::names::ResolvedNames, x: Expr)
    ensures
        match x.kind {
            crate::ast::ExprKind::Field { base, field: _ } => root_local(names, x) == root_local(names, *base),
            crate::ast::ExprKind::Index { base, index: _ } => root_local(names, x) == root_local(names, *base),
            crate::ast::ExprKind::Path(path) => root_local(names, x) == (match names.path(path.id) {
                Some(PathResolution { base: Resolution::Local(local), .. }) => Some(local),
                _ => None,
            }),
            _ => root_local(names, x) is None,
        },
{
}

} // verus!
