//! Checking of a whole module.
use crate::associated::{with_associated_types, with_constants};
use crate::ast::{type_span, AssociatedConst, Block, Expr, FnDecl, ImplBlock, Item, Module, TraitDecl};
use crate::casing::casing_errors;
use crate::check::facts::validated;
use crate::check::model::{expr, fn_body};
use crate::check::rules::reference_param;
use crate::check::state::{Checker, Cx, Env, St};
use crate::datum::{copy_then, lemma_deep_len, Datum, Dup};
use crate::declarations::{bounded_params_from, with_enums_from, with_fns_from, with_types_from};
use crate::describe::shown;
use crate::diagnostics::{diag, Diag, Diagnostic};
use crate::ids::{DefId, NodeId, SelfParam, Symbol};
use crate::impls::{with_all_impls, with_owner_params};
use crate::layout::layout_errors;
use crate::lower::{decls_of, index_decls, Sc, Scope};
use crate::names::ResolvedNames;
use crate::origins::{with_fn_summaries, with_method_summaries};
use crate::owners::{concrete_args, declared_owner_type, owner_type};
use crate::sig::{domain_of_self, specialized, Bound, FnSig, GenericBound, ReceiverDomain, Sig, Signatures, Sigs};
use crate::table::{pair_get, pair_map, Table};
use crate::text::cat5;
use crate::traits::{methods_in, with_all_traits, TraitLists, TraitMethodTable};
use crate::ty::{fits, group_tys, str_eq, ty_unit, Ty, Type};
use crate::uses::{no_uses, uses_block, UseCounts};
use vstd::prelude::*;

verus! {

broadcast use group_tys, lemma_deep_len;

/// The results of checking a module.
pub struct TypedTables {
    /// By the id of an expression.
    pub expr_types: Table<NodeId, Type>,
    /// By the id of a binding site.
    pub local_types: Table<NodeId, Type>,
    /// The generic arguments of each generic call, in the order of the
    /// callee's parameters.
    pub call_generic_args: Table<NodeId, Vec<Type>>,
    /// The concrete type of each value that is packed into an existential.
    pub existential_coercions: Table<NodeId, Type>,
    pub signatures: Signatures,
}

/// What checking a module finds.
pub struct Checked {
    pub expr_types: Map<NodeId, Ty>,
    pub local_types: Map<NodeId, Ty>,
    pub call_generic_args: Map<NodeId, Seq<Ty>>,
    pub existential_coercions: Map<NodeId, Ty>,
    pub signatures: Sigs,
    pub diags: Seq<Diag>,
}

/// What the results and the reported errors denote.
pub open spec fn found(tables: TypedTables, diags: Vec<Diagnostic>) -> Checked {
    Checked {
        expr_types: tables.expr_types@,
        local_types: tables.local_types@,
        call_generic_args: tables.call_generic_args@,
        existential_coercions: tables.existential_coercions@,
        signatures: tables.signatures@,
        diags: diags.deep_view(),
    }
}

/// The bounds of the first `n` generic parameters by name; a later parameter
/// of the same name replaces an earlier one.
pub open spec fn bounds_by_name(gs: Seq<(Seq<char>, Seq<Bound>)>, n: nat) -> Map<Seq<char>, Seq<Bound>>
    decreases n,
{
    if n == 0 || n > gs.len() {
        Map::empty()
    } else {
        bounds_by_name(gs, (n - 1) as nat).insert(gs[n - 1].0, gs[n - 1].1)
    }
}

/// The type of `self` inside a method.
pub open spec fn self_type(p: Option<SelfParam>, t: Ty) -> Ty {
    match p {
        Some(SelfParam::Owned) => Ty::Unique(Box::new(t)),
        Some(SelfParam::OwnedRef) => Ty::Ref(Box::new(t)),
        Some(SelfParam::OwnedMutRef) => Ty::MutRef(Box::new(t)),
        _ => t,
    }
}

/// Whether a method may mutate its receiver.
pub open spec fn self_mutable(p: Option<SelfParam>) -> bool {
    p == Some(SelfParam::ByMutRef) || p == Some(SelfParam::OwnedMutRef)
}

/// After binding `self`.
pub open spec fn self_bound(e: Env, st: St, f: FnDecl, t: Ty) -> St {
    let ty = self_type(f.self_param, t);
    let st1 = st.bound(e.sc.names, f.id, ty, self_mutable(f.self_param));
    if f.self_param == Some(SelfParam::OwnedRef) || f.self_param == Some(SelfParam::OwnedMutRef) {
        reference_param(st1, e.sc.names, f.id, ty)
    } else {
        st1
    }
}

/// After binding the parameters from the `i`-th on. A variadic one is an
/// array.
pub open spec fn params_bound(e: Env, st: St, f: FnDecl, sig: Sig, i: int) -> St
    decreases sig.params.len() - i,
{
    if 0 <= i < sig.params.len() && i < f.params@.len() {
        let p = sig.params[i];
        let site = f.params@[i];
        let st1 = validated(e, st, p.ty, type_span(site.ty));
        let ty = if p.variadic {
            Ty::Array(Box::new(p.ty))
        } else {
            p.ty
        };
        let st2 = st1.bound(e.sc.names, site.id, ty, site.mutable || p.ty is MutRef);
        params_bound(e, reference_param(st2, e.sc.names, site.id, p.ty), f, sig, i + 1)
    } else {
        st
    }
}

/// What a body ends with: nothing, or, where its last expression may stand for
/// a `return`, that expression's type.
pub open spec fn ending(st: St, b: Block, t: Ty, by_tail: bool) -> Ty {
    match b.tail {
        Some(tail) => if by_tail && !(t is Never) {
            match st.expr_types.get(tail.id) {
                Some(u) => u,
                None => t,
            }
        } else {
            t
        },
        None => t,
    }
}

/// After a function's body.
pub open spec fn body_checked(e: Env, st: St, f: FnDecl, by_tail: bool) -> St {
    match f.body {
        None => st,
        Some(b) => {
            let u = uses_block(e.sc.names, b, no_uses(), false);
            let (st1, t0) = fn_body(e, St { remaining: pair_map(u.counts), pinned: u.pinned, ..st }, b);
            let t = ending(st1, b, t0, by_tail);
            st1.fail_if(
                !fits(t, st1.return_ty),
                b.span,
                "expected return type `"@ + shown(st1.return_ty, e.sc.defs()) + "`, found `"@ + shown(t, e.sc.defs())
                    + "`"@,
            )
        },
    }
}

/// After checking a function from scratch, with this signature.
pub open spec fn fn_checked(e: Env, st: St, f: FnDecl, sig: Sig, self_ty: Option<Ty>, by_tail: bool) -> St {
    let st0 = (St {
        in_async: f.is_async,
        in_unsafe: f.is_unsafe,
        generics: bounds_by_name(sig.generics, sig.generics.len()),
        const_generics: sig.const_params,
        ..restarted(st)
    }).opened();
    let st1 = match self_ty {
        Some(t) => self_bound(e, st0, f, t),
        None => st0,
    };
    let st2 = St { return_ty: sig.ret, ..params_bound(e, st1, f, sig, 0) };
    let st3 = match f.ret {
        Some(r) => validated(e, st2, sig.ret, type_span(r)),
        None => st2,
    };
    body_checked(e, st3, f, by_tail).closed()
}

/// Only the results so far.
pub open spec fn restarted(st: St) -> St {
    St::fresh(st.diags, st.expr_types, st.local_types, st.call_generic_args, st.coercions)
}

/// After checking an associated constant's value from scratch.
pub open spec fn const_checked(e: Env, st: St, value: Expr, ty: Ty) -> St {
    let (st1, t) = expr(e, restarted(st), value, Some(ty));
    st1.fail_if(
        !fits(ty, t),
        value.span,
        "associated constant has type `"@ + shown(t, e.sc.defs()) + "`, expected `"@ + shown(ty, e.sc.defs()) + "`"@,
    )
}

/// After a function item.
pub open spec fn fn_item(e: Env, st: St, f: FnDecl) -> St {
    match e.sc.defs().found_in(f.span.file, f.name.name@) {
        None => st,
        Some(id) => match e.sigs.fns.get(id) {
            None => st,
            Some(sig) => if f.name.name@ == "main"@ && (sig.params.len() > 0 || sig.generics.len() > 0 || sig.ret
                != ty_unit()) {
                St {
                    diags: st.diags.push(
                        diag("`main` must have signature `fn main()`"@, f.span, "invalid entry point"@),
                    ),
                    ..st
                }
            } else {
                fn_checked(e, st, f, sig, None, false)
            },
        },
    }
}

/// After an owner's associated constants from the `i`-th on.
pub open spec fn owner_consts_checked(e: Env, st: St, owner: DefId, cs: Seq<AssociatedConst>, i: int) -> St
    decreases cs.len() - i,
{
    if 0 <= i < cs.len() {
        let st1 = match e.sigs.associated_consts.get((owner, cs[i].name.name@)) {
            Some(sig) => match cs[i].value {
                Some(v) => const_checked(e, st, v, sig.ty),
                None => st,
            },
            None => st,
        };
        owner_consts_checked(e, st1, owner, cs, i + 1)
    } else {
        st
    }
}

/// The signature that a method of an impl block is checked against: in a block
/// for concrete arguments its own, else the general one.
pub open spec fn member_sig(sigs: Sigs, owner: DefId, m: FnDecl, args: Option<Seq<Ty>>) -> Option<Sig> {
    match args {
        None => sigs.method_of(owner, m.name.name@, domain_of_self(m.self_param)),
        Some(a) => match sigs.methods.get((owner, m.name.name@, domain_of_self(m.self_param))) {
            Some(set) => specialized(set.specializations, a, 0),
            None => None,
        },
    }
}

/// Whether a method's last expression may stand for a `return`: that of one
/// that only blocks for concrete arguments have may, no other.
pub open spec fn ends_by_tail(sigs: Sigs, owner: DefId, m: FnDecl) -> bool {
    sigs.method_of(owner, m.name.name@, domain_of_self(m.self_param)) is None
}

/// What `self` is in an impl block.
pub open spec fn member_owner(sc: Sc, owner: DefId, args: Option<Seq<Ty>>) -> Ty {
    match args {
        None => declared_owner_type(sc, owner),
        Some(a) => owner_type(sc, owner, a),
    }
}

/// After an owner's methods from the `i`-th on, in an impl block for these
/// arguments or for all.
pub open spec fn owner_methods_checked(e: Env, st: St, owner: DefId, args: Option<Seq<Ty>>, ms: Seq<FnDecl>, i: int) -> St
    decreases ms.len() - i,
{
    if 0 <= i < ms.len() {
        let st1 = match member_sig(e.sigs, owner, ms[i], args) {
            Some(sig) => fn_checked(
                e,
                st,
                ms[i],
                sig,
                Some(member_owner(e.sc, owner, args)),
                ends_by_tail(e.sigs, owner, ms[i]),
            ),
            None => st,
        };
        owner_methods_checked(e, st1, owner, args, ms, i + 1)
    } else {
        st
    }
}

/// After a trait's associated constants from the `i`-th on.
pub open spec fn trait_consts_checked(e: Env, st: St, id: DefId, cs: Seq<AssociatedConst>, i: int) -> St
    decreases cs.len() - i,
{
    if 0 <= i < cs.len() {
        let st1 = match cs[i].value {
            Some(v) => match e.sigs.trait_associated_consts.get((id, cs[i].name.name@)) {
                Some(sig) => const_checked(e, st, v, sig.ty),
                None => st,
            },
            None => st,
        };
        trait_consts_checked(e, st1, id, cs, i + 1)
    } else {
        st
    }
}

/// After a trait's default methods from the `i`-th on.
pub open spec fn trait_methods_checked(e: Env, st: St, table: TraitLists, id: DefId, t: TraitDecl, i: int) -> St
    decreases t.methods@.len() - i,
{
    if 0 <= i < t.methods@.len() {
        let m = t.methods@[i];
        let st1 = match pair_get(methods_in(table, id), m.name.name@) {
            Some(method) => if m.body is Some {
                let (params, d) = bounded_params_from(e.sc, t.generics@, 0, Seq::empty(), st.diags);
                fn_checked(
                    e,
                    St { diags: d, ..st },
                    m,
                    with_owner_params(method.sig, params),
                    Some(Ty::Trait(id)),
                    false,
                )
            } else {
                st
            },
            None => st,
        };
        trait_methods_checked(e, st1, table, id, t, i + 1)
    } else {
        st
    }
}

/// After an item.
pub open spec fn item_checked(e: Env, st: St, table: TraitLists, item: Item) -> St {
    match item {
        Item::Fn(f) => fn_item(e, st, f),
        Item::Impl(b) => match e.sc.defs().found_in(b.span.file, b.target.name@) {
            Some(owner) => owner_methods_checked(
                e,
                owner_consts_checked(e, st, owner, b.associated_consts@, 0),
                owner,
                concrete_args(e.sc, b, owner),
                b.methods@,
                0,
            ),
            None => st,
        },
        Item::Trait(t) => match e.sc.defs().found_in(t.span.file, t.name.name@) {
            Some(id) => trait_methods_checked(
                e,
                trait_consts_checked(e, st, id, t.associated_consts@, 0),
                table,
                id,
                t,
                0,
            ),
            None => st,
        },
        _ => st,
    }
}

/// After the items from the `i`-th on.
pub open spec fn items_checked(e: Env, st: St, table: TraitLists, i: int) -> St
    decreases e.sc.module.items@.len() - i,
{
    if 0 <= i < e.sc.module.items@.len() {
        items_checked(e, item_checked(e, st, table, e.sc.module.items@[i]), table, i + 1)
    } else {
        st
    }
}

/// A module with its declarations.
pub open spec fn scope_of(module: Module, names: ResolvedNames) -> Sc {
    Sc { module, names, decls: decls_of(module, names) }
}

/// The trait methods, signatures and errors of a module, before its bodies
/// are checked.
pub open spec fn signatures_of(sc: Sc) -> (TraitLists, Sigs, Seq<Diag>) {
    let (s1, d1) = with_types_from(sc, 0, Sigs::none(), Seq::empty());
    let (s2, d2) = with_enums_from(sc, 0, s1, d1);
    let (s3, d3) = with_fns_from(sc, 0, s2, d2);
    let (table, s4, d4) = with_all_traits(sc, with_fn_summaries(sc, s3), d3);
    let (s5, d5) = with_all_impls(sc, table, s4, d4);
    let (s6, d6) = with_constants(sc, s5, d5);
    let (s7, d7) = with_associated_types(sc, s6, d6);
    let s8 = with_method_summaries(sc, s7);
    (table, s8, casing_errors(sc, 0, layout_errors(sc, s8, d7)))
}

/// What checking a module finds.
pub open spec fn checked(module: Module, names: ResolvedNames) -> Checked {
    let sc = scope_of(module, names);
    let (table, sigs, d) = signatures_of(sc);
    let st = items_checked(
        Env { sc, sigs },
        St::fresh(d, Map::empty(), Map::empty(), Map::empty(), Map::empty()),
        table,
        0,
    );
    Checked {
        expr_types: st.expr_types,
        local_types: st.local_types,
        call_generic_args: st.call_generic_args,
        existential_coercions: st.coercions,
        signatures: sigs,
        diags: st.diags,
    }
}

/// The bounds of generic parameters by name.
fn bounds_of(gs: &Vec<(Symbol, Vec<GenericBound>)>) -> (r: Table<Symbol, Vec<GenericBound>>)
    ensures
        r@ == bounds_by_name(gs.deep_view(), gs.deep_view().len()),
{
    let ghost all = gs.deep_view();
    let mut m: Table<Symbol, Vec<GenericBound>> = Table::new();
    let mut i: usize = 0;
    while i < gs.len()
        invariant
            i <= gs.len(),
            all == gs.deep_view(),
            m@ == bounds_by_name(all, i as nat),
        decreases gs.len() - i,
    {
        assert(all[i as int] == gs@[i as int].deep_view());
        m.insert(gs[i].0.clone(), gs[i].1.dup());
        i += 1;
    }
    m
}

/// The signature that a method of an impl block is checked against.
fn signature_of_member<'a>(cx: &Cx<'a>, owner: DefId, m: &FnDecl, args: &Option<Vec<Type>>) -> (r: Option<&'a FnSig>)
    ensures
        r.deep_view() == member_sig(cx@.sigs, owner, *m, args.deep_view()),
{
    let domain = ReceiverDomain::of_self_param(m.self_param.as_ref());
    match args {
        None => cx.sigs.method(owner, &m.name.name, domain),
        Some(a) => {
            let key: (DefId, Symbol, ReceiverDomain) = (owner, m.name.name.clone(), domain);
            match cx.sigs.methods.get(&key) {
                Some(set) => set.exact(a),
                None => None,
            }
        },
    }
}

/// The type of `self` inside a method.
fn type_of_self(p: Option<SelfParam>, t: Type) -> (r: Type)
    ensures
        r@ == self_type(p, t@),
{
    match p {
        Some(SelfParam::Owned) => Type::owned(t),
        Some(SelfParam::OwnedRef) => Type::reference(t, false),
        Some(SelfParam::OwnedMutRef) => Type::reference(t, true),
        _ => t,
    }
}

impl Checker {
    fn bind_self(&mut self, cx: &Cx<'_>, f: &FnDecl, t: Type)
        ensures
            final(self)@ == self_bound(cx@, old(self)@, *f, t@),
    {
        let ty = type_of_self(f.self_param, t);
        let mutable = matches!(f.self_param, Some(SelfParam::ByMutRef | SelfParam::OwnedMutRef));
        self.bind_local(cx.scope.names, f.id, ty.clone(), mutable);
        if matches!(f.self_param, Some(SelfParam::OwnedRef | SelfParam::OwnedMutRef)) {
            self.note_reference_param(cx.scope.names, f.id, &ty);
        }
    }

    fn bind_params(&mut self, cx: &Cx<'_>, f: &FnDecl, sig: &FnSig)
        ensures
            final(self)@ == params_bound(cx@, old(self)@, *f, sig.deep_view(), 0),
    {
        let ghost s = sig.deep_view();
        let mut i: usize = 0;
        while i < sig.params.len() && i < f.params.len()
            invariant
                i <= sig.params.len(),
                s == sig.deep_view(),
                params_bound(cx@, self@, *f, s, i as int) == params_bound(cx@, old(self)@, *f, s, 0),
            decreases sig.params.len() - i,
        {
            let p = &sig.params[i];
            let site = &f.params[i];
            assert(s.params[i as int] == p.deep_view());
            self.validate_type_bounds(cx, &p.ty, site.ty.span());
            let ty = if p.variadic {
                Type::array(p.ty.clone())
            } else {
                p.ty.clone()
            };
            let mutable = site.mutable || matches!(p.ty, Type::MutRef(_));
            self.bind_local(cx.scope.names, site.id, ty, mutable);
            self.note_reference_param(cx.scope.names, site.id, &p.ty);
            i += 1;
        }
    }

    fn ending_of(&self, b: &Block, t: Type, by_tail: bool) -> (r: Type)
        ensures
            r@ == ending(self@, *b, t@, by_tail),
    {
        match &b.tail {
            Some(tail) => if by_tail && !t.is_never() {
                match self.type_at(tail.id) {
                    Some(u) => u.clone(),
                    None => t,
                }
            } else {
                t
            },
            None => t,
        }
    }

    fn check_body(&mut self, cx: &Cx<'_>, f: &FnDecl, by_tail: bool)
        ensures
            final(self)@ == body_checked(cx@, old(self)@, *f, by_tail),
    {
        if let Some(b) = &f.body {
            let mut u = UseCounts::new();
            u.count_local_uses_in_block(b, cx.scope.names, false);
            self.set_uses(u.counts, u.pinned);
            let t0 = self.check_fn_body(cx, b);
            let t = self.ending_of(b, t0, by_tail);
            if !t.compatible(self.return_type()) {
                let expected = cx.describe(self.return_type());
                let found = cx.describe(&t);
                let message = cat5(
                    "expected return type `",
                    expected.as_str(),
                    "`, found `",
                    found.as_str(),
                    "`",
                );
                self.err(b.span, message.as_str());
            }
        }
    }

    /// Checks a function from scratch.
    pub fn check_fn_decl(&mut self, cx: &Cx<'_>, f: &FnDecl, sig: &FnSig, self_ty: Option<Type>, by_tail: bool)
        ensures
            final(self)@ == fn_checked(cx@, old(self)@, *f, sig.deep_view(), self_ty.deep_view(), by_tail),
    {
        self.restart();
        self.set_async(f.is_async);
        self.set_unsafe(f.is_unsafe);
        self.set_generics(bounds_of(&sig.generics), sig.const_params.dup());
        self.push_local_scope();
        if let Some(t) = self_ty {
            self.bind_self(cx, f, t);
        }
        self.bind_params(cx, f, sig);
        self.set_return_type(sig.ret.clone());
        if let Some(r) = &f.ret {
            self.validate_type_bounds(cx, &sig.ret, r.span());
        }
        self.check_body(cx, f, by_tail);
        self.pop_local_scope();
    }

    fn check_const(&mut self, cx: &Cx<'_>, value: &Expr, ty: &Type)
        ensures
            final(self)@ == const_checked(cx@, old(self)@, *value, ty@),
    {
        self.restart();
        let t = self.check_expr_with_expected(cx, value, Some(ty));
        if !ty.compatible(&t) {
            let found = cx.describe(&t);
            let expected = cx.describe(ty);
            let message = cat5(
                "associated constant has type `",
                found.as_str(),
                "`, expected `",
                expected.as_str(),
                "`",
            );
            self.err(value.span, message.as_str());
        }
    }

    fn check_fn_item(&mut self, cx: &Cx<'_>, f: &FnDecl)
        ensures
            final(self)@ == fn_item(cx@, old(self)@, *f),
    {
        let id = match cx.scope.names.definitions.lookup_in(f.span.file, &f.name.name) {
            Some(id) => id,
            None => {
                return;
            },
        };
        let sig = match cx.sigs.fns.get(&id) {
            Some(sig) => sig,
            None => {
                return;
            },
        };
        if str_eq(f.name.name.as_str(), "main") && (sig.params.len() > 0 || sig.generics.len() > 0 || !sig.ret.same(
            &Type::unit(),
        )) {
            self.report_always("`main` must have signature `fn main()`", f.span, "invalid entry point");
            return;
        }
        self.check_fn_decl(cx, f, sig, None, false);
    }

    fn check_impl(&mut self, cx: &Cx<'_>, owner: DefId, b: &ImplBlock)
        ensures
            final(self)@ == owner_methods_checked(
                cx@,
                owner_consts_checked(cx@, old(self)@, owner, b.associated_consts@, 0),
                owner,
                concrete_args(cx@.sc, *b, owner),
                b.methods@,
                0,
            ),
    {
        let mut i: usize = 0;
        while i < b.associated_consts.len()
            invariant
                i <= b.associated_consts.len(),
                owner_consts_checked(cx@, self@, owner, b.associated_consts@, i as int) == owner_consts_checked(
                    cx@,
                    old(self)@,
                    owner,
                    b.associated_consts@,
                    0,
                ),
            decreases b.associated_consts.len() - i,
        {
            let c = &b.associated_consts[i];
            let key: (DefId, Symbol) = (owner, c.name.name.clone());
            if let Some(sig) = cx.sigs.associated_consts.get(&key) {
                if let Some(v) = &c.value {
                    self.check_const(cx, v, &sig.ty);
                }
            }
            i += 1;
        }
        let ghost st1 = self@;
        let mut ignored: Vec<Diagnostic> = Vec::new();
        proof {
            assert(ignored.deep_view() =~= Seq::empty());
        }
        let args = cx.scope.impl_specialization_args(b, owner, &mut ignored);
        let ghost av = concrete_args(cx@.sc, *b, owner);
        let mut j: usize = 0;
        while j < b.methods.len()
            invariant
                j <= b.methods.len(),
                args.deep_view() == av,
                owner_methods_checked(cx@, self@, owner, av, b.methods@, j as int) == owner_methods_checked(
                    cx@,
                    st1,
                    owner,
                    av,
                    b.methods@,
                    0,
                ),
            decreases b.methods.len() - j,
        {
            let m = &b.methods[j];
            if let Some(sig) = signature_of_member(cx, owner, m, &args) {
                let self_ty = match &args {
                    Some(a) => cx.scope.owner_with_args(owner, crate::ty::dup_types(a)),
                    None => cx.scope.owner_as_type(owner),
                };
                let domain = ReceiverDomain::of_self_param(m.self_param.as_ref());
                let by_tail = cx.sigs.method(owner, &m.name.name, domain).is_none();
                self.check_fn_decl(cx, m, sig, Some(self_ty), by_tail);
            }
            j += 1;
        }
    }

    fn check_trait(&mut self, cx: &Cx<'_>, table: &TraitMethodTable, id: DefId, t: &TraitDecl)
        ensures
            final(self)@ == trait_methods_checked(
                cx@,
                trait_consts_checked(cx@, old(self)@, id, t.associated_consts@, 0),
                table.pairs(),
                id,
                *t,
                0,
            ),
    {
        let mut i: usize = 0;
        while i < t.associated_consts.len()
            invariant
                i <= t.associated_consts.len(),
                trait_consts_checked(cx@, self@, id, t.associated_consts@, i as int) == trait_consts_checked(
                    cx@,
                    old(self)@,
                    id,
                    t.associated_consts@,
                    0,
                ),
            decreases t.associated_consts.len() - i,
        {
            let c = &t.associated_consts[i];
            let key: (DefId, Symbol) = (id, c.name.name.clone());
            if let Some(v) = &c.value {
                if let Some(sig) = cx.sigs.trait_associated_consts.get(&key) {
                    self.check_const(cx, v, &sig.ty);
                }
            }
            i += 1;
        }
        let ghost st1 = self@;
        let mut j: usize = 0;
        while j < t.methods.len()
            invariant
                j <= t.methods.len(),
                trait_methods_checked(cx@, self@, table.pairs(), id, *t, j as int) == trait_methods_checked(
                    cx@,
                    st1,
                    table.pairs(),
                    id,
                    *t,
                    0,
                ),
            decreases t.methods.len() - j,
        {
            let m = &t.methods[j];
            if m.body.is_some() {
                if let Some(method) = table_method(table, id, &m.name.name) {
                    let mut sig = method.dup();
                    let params = self.lower_bounded_params(cx, &t.generics);
                    let mut own: Vec<(Symbol, Vec<GenericBound>)> = Vec::new();
                    std::mem::swap(&mut own, &mut sig.generics);
                    sig.generics = copy_then(&params, own);
                    self.check_fn_decl(cx, m, &sig, Some(Type::Trait(id)), false);
                }
            }
            j += 1;
        }
    }

    fn check_item(&mut self, cx: &Cx<'_>, table: &TraitMethodTable, item: &Item)
        ensures
            final(self)@ == item_checked(cx@, old(self)@, table.pairs(), *item),
    {
        match item {
            Item::Fn(f) => self.check_fn_item(cx, f),
            Item::Impl(b) => {
                if let Some(owner) = cx.scope.names.definitions.lookup_in(b.span.file, &b.target.name) {
                    self.check_impl(cx, owner, b);
                }
            },
            Item::Trait(t) => {
                if let Some(id) = cx.scope.names.definitions.lookup_in(t.span.file, &t.name.name) {
                    self.check_trait(cx, table, id, t);
                }
            },
            _ => {},
        }
    }
}

/// The signature of a trait's method.
fn table_method<'b>(table: &'b TraitMethodTable, id: DefId, name: &Symbol) -> (r: Option<&'b FnSig>)
    ensures
        r.deep_view() == (match pair_get(methods_in(table.pairs(), id), name@) {
            Some(m) => Some(m.sig),
            None => None::<Sig>,
        }),
{
    let list = match table.get(&id) {
        Some(list) => list,
        None => {
            return None;
        },
    };
    let ghost ms = list.methods.deep_view();
    let mut i: usize = 0;
    while i < list.methods.len()
        invariant
            i <= list.methods.len(),
            ms == list.methods.deep_view(),
            ms == methods_in(table.pairs(), id),
            forall|j: int| 0 <= j < i ==> (#[trigger] ms[j]).0 != name@,
        decreases list.methods.len() - i,
    {
        assert(ms[i as int] == list.methods@[i as int].deep_view());
        if list.methods[i].0 == *name {
            proof {
                crate::table::lemma_pair_index_unique(ms, name@, i as int);
            }
            return Some(&list.methods[i].1.sig);
        }
        i += 1;
    }
    proof {
        crate::table::lemma_pair_index_unique(ms, name@, ms.len() as int);
    }
    None
}

/// Type-checks a module whose names are resolved.
pub fn check(module: &Module, resolved: &ResolvedNames) -> (r: (TypedTables, Vec<Diagnostic>))
    ensures
        found(r.0, r.1) == checked(*module, *resolved),
{
    let decls = index_decls(module, resolved);
    let scope = Scope { module, names: resolved, decls };
    assert(scope@ == scope_of(*module, *resolved));
    let mut diags: Vec<Diagnostic> = Vec::new();
    proof {
        assert(diags.deep_view() =~= Seq::<Diag>::empty());
    }
    let mut sigs = Signatures::new();
    scope.build_type_shapes(&mut sigs, &mut diags);
    scope.build_enum_sigs(&mut sigs, &mut diags);
    scope.build_fn_sigs(&mut sigs, &mut diags);
    scope.infer_return_origin_summaries(&mut sigs);
    let table = scope.build_trait_method_table(&mut sigs, &mut diags);
    scope.build_impl_methods(&table, &mut sigs, &mut diags);
    scope.build_associated_constants(&mut sigs, &mut diags);
    scope.build_associated_types(&mut sigs, &mut diags);
    scope.infer_method_origin_summaries(&mut sigs);
    scope.validate_finite_value_layouts(&sigs, &mut diags);
    scope.validate_alias_casing(&mut diags);
    assert(signatures_of(scope@) == (table.pairs(), sigs@, diags.deep_view()));
    let checker = check_items(&scope, &sigs, &table, diags);
    let (expr_types, local_types, call_generic_args, existential_coercions, diagnostics) = checker.finish();
    (
        TypedTables { expr_types, local_types, call_generic_args, existential_coercions, signatures: sigs },
        diagnostics,
    )
}

fn check_items(scope: &Scope<'_>, sigs: &Signatures, table: &TraitMethodTable, diags: Vec<Diagnostic>) -> (r: Checker)
    ensures
        r@ == items_checked(
            Env { sc: scope@, sigs: sigs@ },
            St::fresh(diags.deep_view(), Map::empty(), Map::empty(), Map::empty(), Map::empty()),
            table.pairs(),
            0,
        ),
{
    let cx = Cx { scope, sigs };
    let mut checker = Checker::with_reports(diags);
    let ghost st0 = checker@;
    let mut i: usize = 0;
    while i < scope.module.items.len()
        invariant
            i <= scope.module.items.len(),
            cx@ == (Env { sc: scope@, sigs: sigs@ }),
            items_checked(cx@, checker@, table.pairs(), i as int) == items_checked(cx@, st0, table.pairs(), 0),
        decreases scope.module.items.len() - i,
    {
        checker.check_item(&cx, table, &scope.module.items[i]);
        i += 1;
    }
    checker
}

} // verus!
