//! Every method and constant of an impl block has a signature, unless an
//! error says why not.
use crate::associated::{
    all_owner_consts, all_owner_types, all_trait_consts, all_trait_types, consts_of_items, consts_of_refs,
    effective_from, implementing, owner_consts, owner_types, required_consts, required_types, trait_consts,
    trait_types, types_of_items, types_of_refs, with_associated_types, with_constants, ItemKey,
};
use crate::ast::{
    type_span, AssociatedConst, AssociatedType, FnDecl, GenericParam, ImplBlock, Item, Module, Param, TypeExpr,
};
use crate::casing::{alias_errors, casing_errors};
use crate::check::entry::{checked, member_sig, scope_of, signatures_of};
use crate::check::growth::{extends, group_grows, lemma_lower};
use crate::check::laws::{
    body_ids, law_declaration_errors_stay, law_every_expression_is_recorded, lemma_bounded_params, lemma_has_dom,
    lemma_impls_keep_fns, lemma_lowered_all, lemma_lowered_bounds, value_ids,
};
use crate::declarations::{
    bounded_params_from, const_params_from, params_from, signature_of, with_enums_from, with_fns_from,
    with_types_from,
};
use crate::describe::shown;
use crate::diagnostics::{diag, Diag};
use crate::ids::{DefId, Span};
use crate::impls::{
    all_needs, all_requests, all_specialization_errors, block_requests, clashing_default, distinct_requests,
    enum_requests, has_general, impl_requests, law_methods_do_not_clash, listed_requests, marker_rules, met_needs,
    no_static_clash, raw_block, raw_from, raw_key, raw_methods, registered, registered_from, safe_marker_error,
    specialization_errors, static_clash, struct_requests, thread_marker, with_all_impls, with_need,
    with_owner_params, with_trait_needs, with_written_methods, MethodKey, Need, Raw, Req,
};
use crate::layout::{endless, enum_layout_errors, layout_errors, struct_layout_errors};
use crate::lower::{lowered, lowered_bound, lowered_bounds, Sc};
use crate::names::ResolvedNames;
use crate::origin_laws::{law_method_summary_is_what_the_body_returns, method_key, sig_in, writes, written_last};
use crate::origins::{
    body_summary, known_of, summaries_of, with_body_origins, with_fn_summaries, with_impls_from,
    with_method_summaries, with_methods_from, Known,
};
use crate::owners::{
    as_parameters, concrete_args, declared_owner_type, declared_params, impl_params, names_in, ordered_params,
    owner_type, param_named, renamed_params, specialization_args, Params,
};
use crate::representation::kind_of_alloc;
use crate::sig::{
    domain_of_self, specialized, Bound, ConstSig, Methods, PSig, ReceiverDomain, Sig, Sigs,
    TraitAssociatedConstSig, TypeSig,
};
use crate::subst::{subst, zip_subst, Subst};
use crate::table::{pair_get, pair_set};
use crate::traits::{methods_in, with_all_traits, MethodList, TraitLists};
use crate::ty::Ty;
use vstd::prelude::*;

verus! {

broadcast use group_grows;

// ---------------------------------------------------------------------
// Errors of declarations only add up
// ---------------------------------------------------------------------

pub proof fn ext_specializations(
    sc: Sc,
    rs: Seq<Raw>,
    i: int,
    sets: Map<MethodKey, Methods>,
    defaults: Seq<MethodKey>,
    d: Seq<Diag>,
)
    ensures
        extends(d, all_specialization_errors(sc, rs, i, sets, defaults, d)),
    decreases rs.len() - i,
{
    if 0 <= i < rs.len() {
        let d1 = specialization_errors(sc, rs[i], sets, defaults, d);
        assert(extends(d, d1));
        ext_specializations(sc, rs, i + 1, sets, defaults, d1);
    }
}

proof fn ext_listed(sc: Sc, owner: DefId, name: Seq<char>, refs: Seq<TypeExpr>, i: int, acc: Seq<Req>, d: Seq<Diag>)
    ensures
        extends(d, listed_requests(sc, owner, name, refs, i, acc, d).1),
    decreases refs.len() - i,
{
    if 0 <= i < refs.len() {
        ext_bound(sc, refs[i], d);
        let (b, d1) = lowered_bound(sc, refs[i], d);
        match b {
            None => {
                ext_listed(sc, owner, name, refs, i + 1, acc, d1);
            },
            Some(bound) => {
                if thread_marker(sc, bound.trait_id) {
                    let d2 = d1.push(safe_marker_error(type_span(refs[i])));
                    ext_listed(sc, owner, name, refs, i + 1, acc, d2);
                } else {
                    lemma_bounded_params(sc, declared_params(sc, owner), 0, Seq::empty(), d1);
                    let (params, d2) = bounded_params_from(sc, declared_params(sc, owner), 0, Seq::empty(), d1);
                    let req = Req {
                        owner,
                        owner_ty: owner_type(sc, owner, as_parameters(names_in(params))),
                        owner_name: name,
                        span: type_span(refs[i]),
                        params,
                        bound,
                        allow_defaults: true,
                    };
                    ext_listed(sc, owner, name, refs, i + 1, acc.push(req), d2);
                }
            },
        }
    }
}

proof fn ext_bound(sc: Sc, t: TypeExpr, d: Seq<Diag>)
    ensures
        extends(d, lowered_bound(sc, t, d).1),
{
    if let TypeExpr::Named { path: _, generics, span: _ } = t {
        lemma_lowered_all(sc, generics@, 0, Seq::empty(), d);
    }
}

proof fn ext_structs(sc: Sc, i: int, acc: Seq<Req>, d: Seq<Diag>)
    ensures
        extends(d, struct_requests(sc, i, acc, d).1),
    decreases sc.decls.types.len() - i,
{
    if 0 <= i < sc.decls.types.len() {
        let id = sc.decls.types[i].0;
        match sc.struct_decl(id) {
            Some(t) => {
                ext_listed(sc, id, t.name.name@, t.traits@, 0, acc, d);
                let (acc1, d1) = listed_requests(sc, id, t.name.name@, t.traits@, 0, acc, d);
                ext_structs(sc, i + 1, acc1, d1);
            },
            None => {
                ext_structs(sc, i + 1, acc, d);
            },
        }
    }
}

proof fn ext_enums(sc: Sc, i: int, acc: Seq<Req>, d: Seq<Diag>)
    ensures
        extends(d, enum_requests(sc, i, acc, d).1),
    decreases sc.decls.enums.len() - i,
{
    if 0 <= i < sc.decls.enums.len() {
        let id = sc.decls.enums[i].0;
        match sc.enum_decl(id) {
            Some(t) => {
                ext_listed(sc, id, t.name.name@, t.traits@, 0, acc, d);
                let (acc1, d1) = listed_requests(sc, id, t.name.name@, t.traits@, 0, acc, d);
                ext_enums(sc, i + 1, acc1, d1);
            },
            None => {
                ext_enums(sc, i + 1, acc, d);
            },
        }
    }
}

proof fn ext_ordered(b: ImplBlock, i: int, acc: Seq<Seq<char>>, ok: bool, d: Seq<Diag>)
    ensures
        extends(d, ordered_params(b, i, acc, ok, d).2),
    decreases b.target_args@.len() - i,
{
    if 0 <= i < b.target_args@.len() {
        let arg = b.target_args@[i];
        let named = crate::owners::impl_parameter(b, arg);
        if named is Some && !acc.contains(named->0) {
            ext_ordered(b, i + 1, acc.push(named->0), ok, d);
        } else {
            let d1 = d.push(
                diag(
                    "an explicit `impl<...> Target<...>` argument list must name each of the impl's own generic parameters exactly once (no concrete types, no repeats)"@,
                    type_span(arg),
                    "not one of this impl's generic parameters"@,
                ),
            );
            ext_ordered(b, i + 1, acc, false, d1);
        }
    }
}

proof fn ext_renamed(sc: Sc, gs: Seq<GenericParam>, names: Seq<Seq<char>>, i: int, acc: Params, d: Seq<Diag>)
    ensures
        extends(d, renamed_params(sc, gs, names, i, acc, d).1),
    decreases names.len() - i,
{
    if 0 <= i < names.len() {
        match param_named(gs, names[i], 0) {
            Some(g) => {
                lemma_lowered_bounds(sc, g.bounds@, 0, Seq::empty(), d);
                let (bounds, d1) = lowered_bounds(sc, g.bounds@, 0, Seq::empty(), d);
                ext_renamed(sc, gs, names, i + 1, acc.push((names[i], bounds)), d1);
            },
            None => {
                ext_renamed(sc, gs, names, i + 1, acc.push((names[i], Seq::empty())), d);
            },
        }
    }
}

pub proof fn ext_impl_params(sc: Sc, b: ImplBlock, owner: DefId, d: Seq<Diag>)
    ensures
        extends(d, impl_params(sc, b, owner, d).1),
{
    if b.generics@.len() > 0 {
        let expected = declared_params(sc, owner).len();
        if b.target_args@.len() != expected {
            let d1 = d.push(
                diag(
                    crate::lower::arity_message(sc.name(owner), expected, b.target_args@.len()),
                    b.span,
                    "in this `impl` block"@,
                ),
            );
            lemma_bounded_params(sc, b.generics@, 0, Seq::empty(), d1);
        } else {
            ext_ordered(b, 0, Seq::empty(), true, d);
            let (names, ok, d1) = ordered_params(b, 0, Seq::empty(), true, d);
            if !ok {
                lemma_bounded_params(sc, b.generics@, 0, Seq::empty(), d1);
            } else if names.len() != b.generics@.len() {
                let d2 = d1.push(
                    diag(
                        "every one of this `impl`'s generic parameters must appear in `"@ + sc.name(owner) + "<...>`"@,
                        b.span,
                        "in this `impl` block"@,
                    ),
                );
                lemma_bounded_params(sc, b.generics@, 0, Seq::empty(), d2);
            } else {
                ext_renamed(sc, b.generics@, names, 0, Seq::empty(), d1);
            }
        }
    } else if b.target_args@.len() == 0 {
        lemma_bounded_params(sc, declared_params(sc, owner), 0, Seq::empty(), d);
    }
}

proof fn ext_block(sc: Sc, b: ImplBlock, owner: DefId, i: int, acc: Seq<Req>, d: Seq<Diag>)
    ensures
        extends(d, block_requests(sc, b, owner, i, acc, d).1),
    decreases b.traits@.len() - i,
{
    if 0 <= i < b.traits@.len() {
        let span = type_span(b.traits@[i]);
        ext_bound(sc, b.traits@[i], d);
        let (lowered, d1) = lowered_bound(sc, b.traits@[i], d);
        match lowered {
            None => {
                ext_block(sc, b, owner, i + 1, acc, d1);
            },
            Some(bound) => {
                let (allowed, d2) = marker_rules(sc, b, bound.trait_id, span, d1);
                assert(extends(d1, d2));
                if !allowed {
                    ext_block(sc, b, owner, i + 1, acc, d2);
                } else {
                    ext_impl_params(sc, b, owner, d2);
                    let (params, d3) = impl_params(sc, b, owner, d2);
                    let req = Req {
                        owner,
                        owner_ty: owner_type(sc, owner, as_parameters(names_in(params))),
                        owner_name: b.target.name@,
                        span,
                        params,
                        bound,
                        allow_defaults: false,
                    };
                    ext_block(sc, b, owner, i + 1, acc.push(req), d3);
                }
            },
        }
    }
}

proof fn ext_impls(sc: Sc, i: int, acc: Seq<Req>, d: Seq<Diag>)
    ensures
        extends(d, impl_requests(sc, i, acc, d).1),
    decreases sc.module.items@.len() - i,
{
    if 0 <= i < sc.module.items@.len() {
        if let Item::Impl(b) = sc.module.items@[i] {
            if let Some(owner) = sc.defs().found_in(b.span.file, b.target.name@) {
                let d0 = if b.is_unsafe && b.traits@.len() == 0 {
                    d.push(
                        diag(
                            "`unsafe impl` is only allowed for the `Send`/`Sync` marker traits"@,
                            b.span,
                            "not a marker trait"@,
                        ),
                    )
                } else {
                    d
                };
                ext_block(sc, b, owner, 0, acc, d0);
                let (acc1, d1) = block_requests(sc, b, owner, 0, acc, d0);
                ext_impls(sc, i + 1, acc1, d1);
            } else {
                ext_impls(sc, i + 1, acc, d);
            }
        } else {
            ext_impls(sc, i + 1, acc, d);
        }
    }
}

pub proof fn ext_requests(sc: Sc, d: Seq<Diag>)
    ensures
        extends(d, all_requests(sc, d).1),
{
    ext_structs(sc, 0, Seq::empty(), d);
    let (a, d1) = struct_requests(sc, 0, Seq::empty(), d);
    ext_enums(sc, 0, a, d1);
    let (b, d2) = enum_requests(sc, 0, a, d1);
    ext_impls(sc, 0, b, d2);
}

pub proof fn ext_distinct(
    sc: Sc,
    rs: Seq<Req>,
    i: int,
    seen: Seq<(DefId, Bound)>,
    impls: Seq<(Ty, Bound)>,
    keep: Seq<bool>,
    d: Seq<Diag>,
)
    ensures
        extends(d, distinct_requests(sc, rs, i, seen, impls, keep, d).2),
    decreases rs.len() - i,
{
    if 0 <= i < rs.len() {
        let r = rs[i];
        if seen.contains((r.owner, r.bound)) {
            let d1 = d.push(
                diag(
                    "`"@ + r.owner_name + "` already implements `"@ + sc.name(r.bound.trait_id) + "`"@,
                    r.span,
                    "duplicate implementation"@,
                ),
            );
            ext_distinct(sc, rs, i + 1, seen, impls, keep.push(false), d1);
        } else {
            ext_distinct(
                sc,
                rs,
                i + 1,
                seen.push((r.owner, r.bound)),
                impls.push((r.owner_ty, r.bound)),
                keep.push(true),
                d,
            );
        }
    }
}

proof fn ext_trait_needs(
    sc: Sc,
    s: Sigs,
    r: Req,
    ms: MethodList,
    by: Subst,
    i: int,
    needs: Seq<(MethodKey, Need)>,
    d: Seq<Diag>,
)
    ensures
        extends(d, with_trait_needs(sc, s, r, ms, by, i, needs, d).1),
    decreases ms.len() - i,
{
    if 0 <= i < ms.len() {
        let (needs1, d1) = with_need(sc, s, r, ms[i].0, ms[i].1, by, needs, d);
        assert(extends(d, d1));
        ext_trait_needs(sc, s, r, ms, by, i + 1, needs1, d1);
    }
}

pub proof fn ext_needs(
    sc: Sc,
    s: Sigs,
    table: TraitLists,
    rs: Seq<Req>,
    keep: Seq<bool>,
    i: int,
    needs: Seq<(MethodKey, Need)>,
    d: Seq<Diag>,
)
    ensures
        extends(d, all_needs(sc, s, table, rs, keep, i, needs, d).1),
    decreases rs.len() - i,
{
    if 0 <= i < rs.len() && i < keep.len() {
        if keep[i] {
            let id = rs[i].bound.trait_id;
            let by = zip_subst(s.generics_of_trait(id), rs[i].bound.args);
            ext_trait_needs(sc, s, rs[i], methods_in(table, id), by, 0, needs, d);
            let (needs1, d1) = with_trait_needs(sc, s, rs[i], methods_in(table, id), by, 0, needs, d);
            ext_needs(sc, s, table, rs, keep, i + 1, needs1, d1);
        } else {
            ext_needs(sc, s, table, rs, keep, i + 1, needs, d);
        }
    }
}

/// Whether a table has a signature for the concrete arguments of a method.
pub open spec fn has_special(sets: Map<MethodKey, Methods>, key: MethodKey, args: Seq<Ty>) -> bool {
    match sets.get(key) {
        Some(set) => specialized(set.specializations, args, 0) is Some,
        None => false,
    }
}

/// Whether every concrete signature in one table is in another.
pub open spec fn specials_stay(a: Map<MethodKey, Methods>, b: Map<MethodKey, Methods>) -> bool {
    forall|key: MethodKey, args: Seq<Ty>|
        #![trigger has_special(b, key, args)]
        has_special(a, key, args) ==> has_special(b, key, args)
}

/// Whether the same methods have a general signature in two tables.
pub open spec fn same_generals(a: Map<MethodKey, Methods>, b: Map<MethodKey, Methods>) -> bool {
    forall|key: MethodKey| #![trigger has_general(b, key)] has_general(a, key) == has_general(b, key)
}

/// A list with one more entry has what it had.
proof fn lemma_more_special(s: Seq<(Seq<Ty>, Sig)>, x: (Seq<Ty>, Sig), args: Seq<Ty>, i: int)
    requires
        0 <= i,
    ensures
        specialized(s, args, i) is Some ==> specialized(s.push(x), args, i) is Some,
        x.0 == args && i <= s.len() ==> specialized(s.push(x), args, i) is Some,
    decreases s.len() - i,
{
    if i < s.len() {
        assert(s.push(x)[i] == s[i]);
        lemma_more_special(s, x, args, i + 1);
    } else if i == s.len() {
        assert(s.push(x)[i] == x);
    }
}

/// Summaries do not change which arguments a list is for.
proof fn lemma_same_special(a: Seq<(Seq<Ty>, Sig)>, b: Seq<(Seq<Ty>, Sig)>, args: Seq<Ty>, i: int)
    requires
        a.len() == b.len(),
        forall|k: int| #![trigger b[k]] 0 <= k < a.len() ==> a[k].0 == b[k].0,
    ensures
        specialized(a, args, i) is Some == specialized(b, args, i) is Some,
    decreases a.len() - i,
{
    if 0 <= i < a.len() {
        assert(a[i].0 == b[i].0);
        lemma_same_special(a, b, args, i + 1);
    }
}

/// Whether every method with a general signature in one table has one in
/// another.
pub open spec fn methods_stay(a: Map<MethodKey, Methods>, b: Map<MethodKey, Methods>) -> bool {
    forall|key: MethodKey| #![trigger has_general(b, key)] has_general(a, key) ==> has_general(b, key)
}

pub proof fn ext_met(needs: Seq<(MethodKey, Need)>, i: int, s: Sigs, d: Seq<Diag>)
    ensures
        extends(d, met_needs(needs, i, s, d).1),
        methods_stay(s.methods, met_needs(needs, i, s, d).0.methods),
        specials_stay(s.methods, met_needs(needs, i, s, d).0.methods),
    decreases needs.len() - i,
{
    if 0 <= i < needs.len() {
        let key = needs[i].0;
        let need = needs[i].1;
        if need.ambiguous || need.defaults.len() > 1 {
            let d1 = d.push(
                diag(
                    "multiple default implementations of method `"@ + key.1 + "` are available for `"@
                        + need.owner_name + "`; provide an explicit implementation"@,
                    need.span,
                    "ambiguous default"@,
                ),
            );
            ext_met(needs, i + 1, s, d1);
        } else if need.defaults.len() == 1 && static_clash(s.methods, key) {
            ext_met(needs, i + 1, s, d.push(clashing_default(key, need)));
        } else if need.defaults.len() == 1 {
            let c = need.defaults[0];
            let set = match s.methods.get(key) {
                Some(set) => set,
                None => Methods::none(),
            };
            let s1 = Sigs {
                methods: s.methods.insert(key, Methods { generic: Some(c.sig), ..set }),
                default_method_substitutions: s.default_method_substitutions.insert(key, c.subst),
                default_method_sources: s.default_method_sources.insert(key, c.source),
                ..s
            };
            assert(methods_stay(s.methods, s1.methods));
            assert(specials_stay(s.methods, s1.methods));
            ext_met(needs, i + 1, s1, d);
        } else {
            let d1 = d.push(
                diag(
                    "`"@ + need.owner_name + "` does not implement required method `"@ + key.1 + "` of trait `"@
                        + need.trait_name + "`"@,
                    need.span,
                    "missing implementation"@,
                ),
            );
            ext_met(needs, i + 1, s, d1);
        }
    }
}

/// Whether every constant of one table is in another.
pub open spec fn consts_stay(a: Map<ItemKey, ConstSig>, b: Map<ItemKey, ConstSig>) -> bool {
    forall|key: ItemKey| #![trigger b.contains_key(key)] a.contains_key(key) ==> b.contains_key(key)
}

proof fn ext_trait_consts(sc: Sc, id: DefId, cs: Seq<AssociatedConst>, i: int, m: Map<ItemKey, ConstSig>, d: Seq<Diag>)
    ensures
        extends(d, trait_consts(sc, id, cs, i, m, d).1),
    decreases cs.len() - i,
{
    if 0 <= i < cs.len() {
        lemma_lower(sc, cs[i].ty, Seq::empty(), d);
        let (ty, d1) = lowered(sc, cs[i].ty, d);
        let sig = ConstSig {
            visibility: cs[i].visibility,
            file: cs[i].span.file,
            ty,
            value: match cs[i].value {
                Some(x) => Some(x.id),
                None => None,
            },
        };
        ext_trait_consts(sc, id, cs, i + 1, m.insert((id, cs[i].name.name@), sig), d1);
    }
}

proof fn ext_all_trait_consts(sc: Sc, i: int, m: Map<ItemKey, ConstSig>, d: Seq<Diag>)
    ensures
        extends(d, all_trait_consts(sc, i, m, d).1),
    decreases sc.decls.traits.len() - i,
{
    if 0 <= i < sc.decls.traits.len() {
        let id = sc.decls.traits[i].0;
        match sc.trait_decl(id) {
            Some(t) => {
                ext_trait_consts(sc, id, t.associated_consts@, 0, m, d);
                let (m1, d1) = trait_consts(sc, id, t.associated_consts@, 0, m, d);
                ext_all_trait_consts(sc, i + 1, m1, d1);
            },
            None => {
                ext_all_trait_consts(sc, i + 1, m, d);
            },
        }
    }
}

proof fn ext_owner_consts(sc: Sc, owner: DefId, cs: Seq<AssociatedConst>, i: int, m: Map<ItemKey, ConstSig>, d: Seq<Diag>)
    requires
        0 <= i,
    ensures
        extends(d, owner_consts(sc, owner, cs, i, m, d).1),
        consts_stay(m, owner_consts(sc, owner, cs, i, m, d).0),
        forall|j: int|
            #![trigger cs[j]]
            i <= j < cs.len() && cs[j].value is Some ==> owner_consts(sc, owner, cs, i, m, d).0.contains_key(
                (owner, cs[j].name.name@),
            ),
    decreases cs.len() - i,
{
    if i < cs.len() {
        lemma_lower(sc, cs[i].ty, Seq::empty(), d);
        let (ty, d1) = lowered(sc, cs[i].ty, d);
        match cs[i].value {
            Some(x) => {
                let m1 = m.insert(
                    (owner, cs[i].name.name@),
                    ConstSig { visibility: cs[i].visibility, file: cs[i].span.file, ty, value: Some(x.id) },
                );
                ext_owner_consts(sc, owner, cs, i + 1, m1, d1);
                assert(m1.contains_key((owner, cs[i].name.name@)));
            },
            None => {
                let d2 = d1.push(
                    diag(
                        "associated constant `"@ + cs[i].name.name@ + "` must have a value"@,
                        cs[i].name.span,
                        "declared here"@,
                    ),
                );
                ext_owner_consts(sc, owner, cs, i + 1, m, d2);
            },
        }
    }
}

/// Whether each constant of an impl block that has a value is in the table.
pub open spec fn block_consts_in(sc: Sc, item: Item, m: Map<ItemKey, ConstSig>) -> bool {
    match item {
        Item::Impl(b) => match sc.defs().found_in(b.span.file, b.target.name@) {
            Some(owner) => forall|j: int|
                #![trigger b.associated_consts@[j]]
                0 <= j < b.associated_consts@.len() && b.associated_consts@[j].value is Some ==> m.contains_key(
                    (owner, b.associated_consts@[j].name.name@),
                ),
            None => true,
        },
        _ => true,
    }
}

proof fn ext_all_owner_consts(sc: Sc, i: int, m: Map<ItemKey, ConstSig>, d: Seq<Diag>)
    requires
        0 <= i,
    ensures
        extends(d, all_owner_consts(sc, i, m, d).1),
        consts_stay(m, all_owner_consts(sc, i, m, d).0),
        forall|k: int|
            #![trigger sc.module.items@[k]]
            i <= k < sc.module.items@.len() ==> block_consts_in(
                sc,
                sc.module.items@[k],
                all_owner_consts(sc, i, m, d).0,
            ),
    decreases sc.module.items@.len() - i,
{
    if i < sc.module.items@.len() {
        let (m1, d1) = match sc.module.items@[i] {
            Item::Impl(b) => match sc.defs().found_in(b.span.file, b.target.name@) {
                Some(owner) => owner_consts(sc, owner, b.associated_consts@, 0, m, d),
                None => (m, d),
            },
            _ => (m, d),
        };
        if let Item::Impl(b) = sc.module.items@[i] {
            if let Some(owner) = sc.defs().found_in(b.span.file, b.target.name@) {
                ext_owner_consts(sc, owner, b.associated_consts@, 0, m, d);
            }
        }
        assert(block_consts_in(sc, sc.module.items@[i], m1));
        ext_all_owner_consts(sc, i + 1, m1, d1);
    }
}

proof fn ext_required_consts(
    sc: Sc,
    owner: DefId,
    bound: Bound,
    by: Subst,
    span: Span,
    all: Seq<(ItemKey, ConstSig)>,
    i: int,
    m: Map<ItemKey, ConstSig>,
    d: Seq<Diag>,
)
    ensures
        extends(d, required_consts(sc, owner, bound, by, span, all, i, m, d).1),
        consts_stay(m, required_consts(sc, owner, bound, by, span, all, i, m, d).0),
    decreases all.len() - i,
{
    if 0 <= i < all.len() {
        let name = all[i].0.1;
        let declared = all[i].1;
        let ty = subst(declared.ty, by);
        if all[i].0.0 != bound.trait_id {
            ext_required_consts(sc, owner, bound, by, span, all, i + 1, m, d);
        } else {
            match m.get((owner, name)) {
                Some(actual) => {
                    let d1 = if actual.ty == ty {
                        d
                    } else {
                        d.push(
                            diag(
                                "associated constant `"@ + name + "` has type `"@ + shown(actual.ty, sc.defs())
                                    + "`, expected `"@ + shown(ty, sc.defs()) + "`"@,
                                span,
                                "implementation is here"@,
                            ),
                        )
                    };
                    ext_required_consts(sc, owner, bound, by, span, all, i + 1, m, d1);
                },
                None => match declared.value {
                    Some(_) => {
                        let m1 = m.insert((owner, name), ConstSig { ty, ..declared });
                        ext_required_consts(sc, owner, bound, by, span, all, i + 1, m1, d);
                    },
                    None => {
                        let d1 = d.push(
                            diag(
                                "missing associated constant `"@ + name + "` of trait `"@ + sc.name(bound.trait_id)
                                    + "`"@,
                                span,
                                "implementation is here"@,
                            ),
                        );
                        ext_required_consts(sc, owner, bound, by, span, all, i + 1, m, d1);
                    },
                },
            }
        }
    }
}

proof fn ext_consts_of_refs(
    sc: Sc,
    s: Sigs,
    all: Seq<(ItemKey, ConstSig)>,
    owner: DefId,
    refs: Seq<TypeExpr>,
    i: int,
    m: Map<ItemKey, ConstSig>,
    d: Seq<Diag>,
)
    ensures
        extends(d, consts_of_refs(sc, s, all, owner, refs, i, m, d).1),
        consts_stay(m, consts_of_refs(sc, s, all, owner, refs, i, m, d).0),
    decreases refs.len() - i,
{
    if 0 <= i < refs.len() {
        match lowered_bound(sc, refs[i], Seq::empty()).0 {
            Some(bound) => {
                let by = zip_subst(s.generics_of_trait(bound.trait_id), bound.args);
                ext_required_consts(sc, owner, bound, by, type_span(refs[i]), all, 0, m, d);
                let (m1, d1) = required_consts(sc, owner, bound, by, type_span(refs[i]), all, 0, m, d);
                ext_consts_of_refs(sc, s, all, owner, refs, i + 1, m1, d1);
            },
            None => {
                ext_consts_of_refs(sc, s, all, owner, refs, i + 1, m, d);
            },
        }
    }
}

proof fn ext_consts_of_items(sc: Sc, s: Sigs, all: Seq<(ItemKey, ConstSig)>, i: int, m: Map<ItemKey, ConstSig>, d: Seq<Diag>)
    ensures
        extends(d, consts_of_items(sc, s, all, i, m, d).1),
        consts_stay(m, consts_of_items(sc, s, all, i, m, d).0),
    decreases sc.module.items@.len() - i,
{
    if 0 <= i < sc.module.items@.len() {
        match implementing(sc, sc.module.items@[i]) {
            Some((owner, refs)) => {
                ext_consts_of_refs(sc, s, all, owner, refs, 0, m, d);
                let (m1, d1) = consts_of_refs(sc, s, all, owner, refs, 0, m, d);
                ext_consts_of_items(sc, s, all, i + 1, m1, d1);
            },
            None => {
                ext_consts_of_items(sc, s, all, i + 1, m, d);
            },
        }
    }
}

proof fn ext_constants(sc: Sc, s: Sigs, d: Seq<Diag>, k: int)
    requires
        0 <= k < sc.module.items@.len(),
    ensures
        extends(d, with_constants(sc, s, d).1),
        block_consts_in(sc, sc.module.items@[k], with_constants(sc, s, d).0.associated_consts),
{
    ext_all_trait_consts(sc, 0, Map::empty(), d);
    let (own, d1) = all_trait_consts(sc, 0, Map::empty(), d);
    let all = effective_from::<TraitAssociatedConstSig>(sc, s, own, 0, Seq::empty());
    ext_all_owner_consts(sc, 0, Map::empty(), d1);
    let (m, d2) = all_owner_consts(sc, 0, Map::empty(), d1);
    ext_consts_of_items(sc, s, all, 0, m, d2);
}

/// The errors of associated constants only add to those before.
pub proof fn ext_constants_errors(sc: Sc, s: Sigs, d: Seq<Diag>)
    ensures
        extends(d, with_constants(sc, s, d).1),
{
    ext_all_trait_consts(sc, 0, Map::empty(), d);
    let (own, d1) = all_trait_consts(sc, 0, Map::empty(), d);
    let all = effective_from::<TraitAssociatedConstSig>(sc, s, own, 0, Seq::empty());
    ext_all_owner_consts(sc, 0, Map::empty(), d1);
    let (m, d2) = all_owner_consts(sc, 0, Map::empty(), d1);
    ext_consts_of_items(sc, s, all, 0, m, d2);
}

proof fn ext_trait_types(sc: Sc, id: DefId, ts: Seq<AssociatedType>, i: int, m: Map<ItemKey, TypeSig>, d: Seq<Diag>)
    ensures
        extends(d, trait_types(sc, id, ts, i, m, d).1),
    decreases ts.len() - i,
{
    if 0 <= i < ts.len() {
        if let Some(syntax) = ts[i].value {
            lemma_lower(sc, syntax, Seq::empty(), d);
        }
        let (ty, d1) = match ts[i].value {
            Some(syntax) => {
                let (t, d1) = lowered(sc, syntax, d);
                (Some(t), d1)
            },
            None => (None, d),
        };
        let sig = TypeSig { visibility: ts[i].visibility, file: ts[i].span.file, ty };
        ext_trait_types(sc, id, ts, i + 1, m.insert((id, ts[i].name.name@), sig), d1);
    }
}

proof fn ext_all_trait_types(sc: Sc, i: int, m: Map<ItemKey, TypeSig>, d: Seq<Diag>)
    ensures
        extends(d, all_trait_types(sc, i, m, d).1),
    decreases sc.decls.traits.len() - i,
{
    if 0 <= i < sc.decls.traits.len() {
        let id = sc.decls.traits[i].0;
        match sc.trait_decl(id) {
            Some(t) => {
                ext_trait_types(sc, id, t.associated_types@, 0, m, d);
                let (m1, d1) = trait_types(sc, id, t.associated_types@, 0, m, d);
                ext_all_trait_types(sc, i + 1, m1, d1);
            },
            None => {
                ext_all_trait_types(sc, i + 1, m, d);
            },
        }
    }
}

proof fn ext_owner_types(sc: Sc, owner: DefId, ts: Seq<AssociatedType>, i: int, m: Seq<(ItemKey, TypeSig)>, d: Seq<Diag>)
    ensures
        extends(d, owner_types(sc, owner, ts, i, m, d).1),
    decreases ts.len() - i,
{
    if 0 <= i < ts.len() {
        match ts[i].value {
            Some(syntax) => {
                lemma_lower(sc, syntax, Seq::empty(), d);
                let (t, d1) = lowered(sc, syntax, d);
                let sig = TypeSig { visibility: ts[i].visibility, file: ts[i].span.file, ty: Some(t) };
                ext_owner_types(sc, owner, ts, i + 1, pair_set(m, (owner, ts[i].name.name@), sig), d1);
            },
            None => {
                let d1 = d.push(
                    diag(
                        "associated type `"@ + ts[i].name.name@ + "` must name a type"@,
                        ts[i].name.span,
                        "declared here"@,
                    ),
                );
                ext_owner_types(sc, owner, ts, i + 1, m, d1);
            },
        }
    }
}

proof fn ext_all_owner_types(sc: Sc, i: int, m: Seq<(ItemKey, TypeSig)>, d: Seq<Diag>)
    ensures
        extends(d, all_owner_types(sc, i, m, d).1),
    decreases sc.module.items@.len() - i,
{
    if 0 <= i < sc.module.items@.len() {
        let (m1, d1) = match sc.module.items@[i] {
            Item::Impl(b) => match sc.defs().found_in(b.span.file, b.target.name@) {
                Some(owner) => owner_types(sc, owner, b.associated_types@, 0, m, d),
                None => (m, d),
            },
            _ => (m, d),
        };
        if let Item::Impl(b) = sc.module.items@[i] {
            if let Some(owner) = sc.defs().found_in(b.span.file, b.target.name@) {
                ext_owner_types(sc, owner, b.associated_types@, 0, m, d);
            }
        }
        ext_all_owner_types(sc, i + 1, m1, d1);
    }
}

proof fn ext_required_types(
    sc: Sc,
    owner: DefId,
    bound: Bound,
    by: Subst,
    span: Span,
    all: Seq<(ItemKey, TypeSig)>,
    i: int,
    m: Seq<(ItemKey, TypeSig)>,
    d: Seq<Diag>,
)
    ensures
        extends(d, required_types(sc, owner, bound, by, span, all, i, m, d).1),
    decreases all.len() - i,
{
    if 0 <= i < all.len() {
        let name = all[i].0.1;
        let declared = all[i].1;
        if all[i].0.0 != bound.trait_id || pair_get(m, (owner, name)) is Some {
            ext_required_types(sc, owner, bound, by, span, all, i + 1, m, d);
        } else {
            match declared.ty {
                Some(t) => {
                    let m1 = pair_set(m, (owner, name), TypeSig { ty: Some(subst(t, by)), ..declared });
                    ext_required_types(sc, owner, bound, by, span, all, i + 1, m1, d);
                },
                None => {
                    let d1 = d.push(
                        diag(
                            "missing associated type `"@ + name + "` of trait `"@ + sc.name(bound.trait_id) + "`"@,
                            span,
                            "implementation is here"@,
                        ),
                    );
                    ext_required_types(sc, owner, bound, by, span, all, i + 1, m, d1);
                },
            }
        }
    }
}

proof fn ext_types_of_refs(
    sc: Sc,
    s: Sigs,
    all: Seq<(ItemKey, TypeSig)>,
    owner: DefId,
    refs: Seq<TypeExpr>,
    i: int,
    m: Seq<(ItemKey, TypeSig)>,
    d: Seq<Diag>,
)
    ensures
        extends(d, types_of_refs(sc, s, all, owner, refs, i, m, d).1),
    decreases refs.len() - i,
{
    if 0 <= i < refs.len() {
        match lowered_bound(sc, refs[i], Seq::empty()).0 {
            Some(bound) => {
                let by = zip_subst(s.generics_of_trait(bound.trait_id), bound.args);
                ext_required_types(sc, owner, bound, by, type_span(refs[i]), all, 0, m, d);
                let (m1, d1) = required_types(sc, owner, bound, by, type_span(refs[i]), all, 0, m, d);
                ext_types_of_refs(sc, s, all, owner, refs, i + 1, m1, d1);
            },
            None => {
                ext_types_of_refs(sc, s, all, owner, refs, i + 1, m, d);
            },
        }
    }
}

proof fn ext_types_of_items(sc: Sc, s: Sigs, all: Seq<(ItemKey, TypeSig)>, i: int, m: Seq<(ItemKey, TypeSig)>, d: Seq<Diag>)
    ensures
        extends(d, types_of_items(sc, s, all, i, m, d).1),
    decreases sc.module.items@.len() - i,
{
    if 0 <= i < sc.module.items@.len() {
        match implementing(sc, sc.module.items@[i]) {
            Some((owner, refs)) => {
                ext_types_of_refs(sc, s, all, owner, refs, 0, m, d);
                let (m1, d1) = types_of_refs(sc, s, all, owner, refs, 0, m, d);
                ext_types_of_items(sc, s, all, i + 1, m1, d1);
            },
            None => {
                ext_types_of_items(sc, s, all, i + 1, m, d);
            },
        }
    }
}

pub proof fn ext_types(sc: Sc, s: Sigs, d: Seq<Diag>)
    ensures
        extends(d, with_associated_types(sc, s, d).1),
{
    ext_all_trait_types(sc, 0, Map::empty(), d);
    let (own, d1) = all_trait_types(sc, 0, Map::empty(), d);
    let all = effective_from::<crate::sig::TraitAssociatedTypeSig>(sc, s, own, 0, Seq::empty());
    ext_all_owner_types(sc, 0, Seq::empty(), d1);
    let (m, d2) = all_owner_types(sc, 0, Seq::empty(), d1);
    ext_types_of_items(sc, s, all, 0, m, d2);
}

pub proof fn ext_struct_layouts(sc: Sc, s: Sigs, i: int, d: Seq<Diag>)
    ensures
        extends(d, struct_layout_errors(sc, s, i, d)),
    decreases sc.decls.types.len() - i,
{
    if 0 <= i < sc.decls.types.len() {
        let id = sc.decls.types[i].0;
        let t = declared_owner_type(sc, id);
        let d1 = match sc.struct_decl(id) {
            Some(decl) => if !(kind_of_alloc(t, sc.defs()) is Heap) && endless(sc, s, t, Seq::empty()) {
                d.push(
                    diag(
                        "value type `"@ + decl.name.name@ + "` has an infinitely recursive layout"@,
                        decl.span,
                        "introduce a heap-allocated PascalCase type or another indirection"@,
                    ),
                )
            } else {
                d
            },
            None => d,
        };
        ext_struct_layouts(sc, s, i + 1, d1);
    }
}

pub proof fn ext_enum_layouts(sc: Sc, s: Sigs, i: int, d: Seq<Diag>)
    ensures
        extends(d, enum_layout_errors(sc, s, i, d)),
    decreases sc.decls.enums.len() - i,
{
    if 0 <= i < sc.decls.enums.len() {
        let id = sc.decls.enums[i].0;
        let d1 = match sc.enum_decl(id) {
            Some(decl) => if endless(sc, s, declared_owner_type(sc, id), Seq::empty()) {
                d.push(
                    diag(
                        "enum `"@ + decl.name.name@ + "` has an infinitely recursive layout"@,
                        decl.span,
                        "introduce a heap-allocated PascalCase type or another indirection"@,
                    ),
                )
            } else {
                d
            },
            None => d,
        };
        ext_enum_layouts(sc, s, i + 1, d1);
    }
}

pub proof fn ext_casing(sc: Sc, i: int, d: Seq<Diag>)
    ensures
        extends(d, casing_errors(sc, i, d)),
    decreases sc.module.items@.len() - i,
{
    if 0 <= i < sc.module.items@.len() {
        if let Item::TypeAlias(a) = sc.module.items@[i] {
            lemma_lower(sc, a.ty, Seq::empty(), d);
            let d1 = alias_errors(sc, a, d);
            assert(extends(d, d1));
            ext_casing(sc, i + 1, d1);
        } else {
            ext_casing(sc, i + 1, d);
        }
    }
}

proof fn ext_const_params(sc: Sc, gs: Seq<GenericParam>, i: int, acc: Subst, d: Seq<Diag>)
    ensures
        extends(d, const_params_from(sc, gs, i, acc, d).1),
    decreases gs.len() - i,
{
    if 0 <= i < gs.len() {
        match gs[i].const_ty {
            None => {
                ext_const_params(sc, gs, i + 1, acc, d);
            },
            Some(syntax) => {
                lemma_lower(sc, syntax, Seq::empty(), d);
                let (t, d1) = lowered(sc, syntax, d);
                let d2 = if crate::declarations::ty_integer(t) {
                    d1
                } else {
                    d1.push(
                        diag(
                            "a const generic parameter must have an integer type"@,
                            crate::ast::type_span(syntax),
                            "not an integer type"@,
                        ),
                    )
                };
                ext_const_params(sc, gs, i + 1, acc.insert(gs[i].name.name@, t), d2);
            },
        }
    }
}

proof fn ext_params(sc: Sc, ps: Seq<Param>, i: int, acc: Seq<PSig>, d: Seq<Diag>)
    ensures
        extends(d, params_from(sc, ps, i, acc, d).1),
    decreases ps.len() - i,
{
    if 0 <= i < ps.len() {
        lemma_lower(sc, ps[i].ty, Seq::empty(), d);
        let (ty, d1) = lowered(sc, ps[i].ty, d);
        let p = PSig { name: ps[i].name.name@, mutable: ps[i].mutable, variadic: ps[i].variadic, ty };
        ext_params(sc, ps, i + 1, acc.push(p), d1);
    }
}

/// The errors of a signature only add to those before.
pub proof fn ext_signature(sc: Sc, f: FnDecl, d: Seq<Diag>)
    ensures
        extends(d, signature_of(sc, f, d).1),
{
    ext_const_params(sc, f.generics@, 0, Map::empty(), d);
    let (consts, d1) = const_params_from(sc, f.generics@, 0, Map::empty(), d);
    lemma_bounded_params(sc, f.generics@, 0, Seq::empty(), d1);
    let (generics, d2) = bounded_params_from(sc, f.generics@, 0, Seq::empty(), d1);
    ext_params(sc, f.params@, 0, Seq::empty(), d2);
    let (params, d3) = params_from(sc, f.params@, 0, Seq::empty(), d2);
    if let Some(t) = f.ret {
        lemma_lower(sc, t, Seq::empty(), d3);
    }
}

// ---------------------------------------------------------------------
// Methods
// ---------------------------------------------------------------------

/// Whether a list has the method, as one for these arguments or for all.
pub open spec fn lists(rs: Seq<Raw>, key: MethodKey, args: Option<Seq<Ty>>) -> bool {
    exists|k: int| #![trigger rs[k]] 0 <= k < rs.len() && raw_key(rs[k]) == key && rs[k].specialization == args
}

proof fn lemma_lists_more(rs: Seq<Raw>, more: Seq<Raw>, key: MethodKey, args: Option<Seq<Ty>>)
    requires
        lists(rs, key, args),
        rs.len() <= more.len(),
        forall|k: int| #![trigger more[k]] 0 <= k < rs.len() ==> more[k] == rs[k],
    ensures
        lists(more, key, args),
{
    let k = choose|k: int| #![trigger rs[k]] 0 <= k < rs.len() && raw_key(rs[k]) == key && rs[k].specialization == args;
    assert(more[k] == rs[k]);
}

/// Whether a list starts with another.
pub open spec fn starts(a: Seq<Raw>, b: Seq<Raw>) -> bool {
    a.len() <= b.len() && forall|k: int| #![trigger b[k]] 0 <= k < a.len() ==> b[k] == a[k]
}

proof fn raw_lists(
    sc: Sc,
    b: ImplBlock,
    owner: DefId,
    params: Params,
    specialization: Option<Seq<Ty>>,
    i: int,
    acc: Seq<Raw>,
    d: Seq<Diag>,
)
    requires
        0 <= i,
    ensures
        starts(acc, raw_methods(sc, b, owner, params, specialization, i, acc, d).0),
        extends(d, raw_methods(sc, b, owner, params, specialization, i, acc, d).1),
        raw_methods(sc, b, owner, params, specialization, i, acc, d).1.len() == 0 ==> forall|j: int|
            #![trigger b.methods@[j]]
            i <= j < b.methods@.len() ==> lists(
                raw_methods(sc, b, owner, params, specialization, i, acc, d).0,
                method_key(owner, b.methods@[j]),
                specialization,
            ),
    decreases b.methods@.len() - i,
{
    if i < b.methods@.len() {
        let m = b.methods@[i];
        if specialization is Some && m.self_param is None {
            let d1 = d.push(
                diag(
                    "a concrete specialization cannot override a static method yet — only `self`/`mut self` methods"@,
                    m.name.span,
                    "here"@,
                ),
            );
            raw_lists(sc, b, owner, params, specialization, i + 1, acc, d1);
        } else {
            ext_signature(sc, m, d);
            let (sig, d1) = signature_of(sc, m, d);
            let raw = Raw {
                owner,
                owner_name: b.target.name@,
                name: m.name.name@,
                name_span: m.name.span,
                specialization,
                sig: with_owner_params(sig, params),
                is_default: b.is_default,
            };
            let acc1 = acc.push(raw);
            raw_lists(sc, b, owner, params, specialization, i + 1, acc1, d1);
            let all = raw_methods(sc, b, owner, params, specialization, i + 1, acc1, d1).0;
            assert(all[acc.len() as int] == acc1[acc.len() as int]);
            assert(raw_key(raw) == method_key(owner, m));
            assert(lists(all, method_key(owner, m), specialization));
            assert(starts(acc, all)) by {
                assert forall|k: int| 0 <= k < acc.len() implies all[k] == acc[k] by {
                    assert(all[k] == acc1[k]);
                }
            }
        }
    }
}

/// Whether a list has every method of an impl block.
pub open spec fn block_listed(sc: Sc, item: Item, rs: Seq<Raw>) -> bool {
    match item {
        Item::Impl(b) => match sc.defs().found_in(b.span.file, b.target.name@) {
            Some(owner) => forall|j: int|
                #![trigger b.methods@[j]]
                0 <= j < b.methods@.len() ==> lists(
                    rs,
                    method_key(owner, b.methods@[j]),
                    concrete_args(sc, b, owner),
                ),
            None => true,
        },
        _ => true,
    }
}

/// The errors of a block's arguments only add to those before.
proof fn ext_args(sc: Sc, b: ImplBlock, owner: DefId, d: Seq<Diag>)
    ensures
        extends(d, specialization_args(sc, b, owner, d).1),
        d.len() == 0 ==> specialization_args(sc, b, owner, d).0 == concrete_args(sc, b, owner),
{
    lemma_lowered_all(sc, b.target_args@, 0, Seq::empty(), d);
    if d.len() == 0 {
        assert(d =~= Seq::empty());
    }
}

proof fn raw_from_lists(sc: Sc, i: int, acc: Seq<Raw>, s: Sigs, d: Seq<Diag>)
    requires
        0 <= i,
    ensures
        starts(acc, raw_from(sc, i, acc, s, d).0),
        extends(d, raw_from(sc, i, acc, s, d).2),
        raw_from(sc, i, acc, s, d).2.len() == 0 ==> forall|k: int|
            #![trigger sc.module.items@[k]]
            i <= k < sc.module.items@.len() ==> block_listed(sc, sc.module.items@[k], raw_from(sc, i, acc, s, d).0),
        raw_from(sc, i, acc, s, d).1.methods == s.methods,
    decreases sc.module.items@.len() - i,
{
    if i < sc.module.items@.len() {
        let item = sc.module.items@[i];
        let (acc1, s1, d1) = match item {
            Item::Impl(b) => match sc.defs().found_in(b.span.file, b.target.name@) {
                Some(owner) => raw_block(sc, b, owner, acc, s, d),
                None => (acc, s, d),
            },
            _ => (acc, s, d),
        };
        if let Item::Impl(b) = item {
            if let Some(owner) = sc.defs().found_in(b.span.file, b.target.name@) {
                ext_impl_params(sc, b, owner, d);
                let (params, e1) = impl_params(sc, b, owner, d);
                ext_args(sc, b, owner, e1);
                let (specialization, e2) = specialization_args(sc, b, owner, e1);
                let e3 = if b.is_default && params.len() == 0 {
                    e2.push(
                        diag(
                            "a `default` impl must be a generic fallback implementation"@,
                            b.span,
                            "in this `impl` block"@,
                        ),
                    )
                } else {
                    e2
                };
                let e4 = if specialization is Some && b.traits@.len() > 0 {
                    e3.push(
                        diag(
                            "a concrete specialization (`impl Owner<ConcreteArgs>`) cannot also implement a trait yet"@,
                            b.span,
                            "in this `impl` block"@,
                        ),
                    )
                } else {
                    e3
                };
                raw_lists(sc, b, owner, params, specialization, 0, acc, e4);
                assert((acc1, d1) == raw_methods(sc, b, owner, params, specialization, 0, acc, e4));
                assert(extends(d, d1));
            }
        }
        assert(starts(acc, acc1));
        assert(d1.len() == 0 ==> block_listed(sc, item, acc1));
        raw_from_lists(sc, i + 1, acc1, s1, d1);
        let (all, _, d2) = raw_from(sc, i + 1, acc1, s1, d1);
        if d2.len() == 0 {
            assert(block_listed(sc, item, all)) by {
                if let Item::Impl(b) = item {
                    if let Some(owner) = sc.defs().found_in(b.span.file, b.target.name@) {
                        let args = concrete_args(sc, b, owner);
                        assert forall|j: int| #![trigger b.methods@[j]] 0 <= j < b.methods@.len() implies lists(
                            all,
                            method_key(owner, b.methods@[j]),
                            args,
                        ) by {
                            lemma_lists_more(acc1, all, method_key(owner, b.methods@[j]), args);
                        }
                    }
                }
            }
        }
        assert(starts(acc, all)) by {
            assert forall|k: int| 0 <= k < acc.len() implies all[k] == acc[k] by {
                assert(all[k] == acc1[k]);
            }
        }
    }
}

/// Whether a table has the signature of a written method.
pub open spec fn has_written(sets: Map<MethodKey, Methods>, key: MethodKey, args: Option<Seq<Ty>>) -> bool {
    match args {
        None => has_general(sets, key),
        Some(a) => has_special(sets, key, a),
    }
}

/// A written method is registered beside the concrete ones that are there.
proof fn registered_specials(r: Raw, sets: Map<MethodKey, Methods>, defaults: Seq<MethodKey>, d: Seq<Diag>)
    ensures
        specials_stay(sets, registered(r, sets, defaults, d).0),
        r.specialization matches Some(args) ==> has_special(registered(r, sets, defaults, d).0, raw_key(r), args),
{
    let sets1 = registered(r, sets, defaults, d).0;
    let key = raw_key(r);
    let set = match sets.get(key) {
        Some(set) => set,
        None => Methods::none(),
    };
    assert forall|k: MethodKey, args: Seq<Ty>|
        #![trigger has_special(sets1, k, args)]
        has_special(sets, k, args) implies has_special(sets1, k, args) by {
        if let Some(mine) = r.specialization {
            lemma_more_special(set.specializations, (mine, r.sig), args, 0);
        }
    }
    if let Some(mine) = r.specialization {
        lemma_more_special(set.specializations, (mine, r.sig), mine, 0);
    }
}

/// A written method is registered, or an error is reported.
pub proof fn registered_keeps(rs: Seq<Raw>, i: int, sets: Map<MethodKey, Methods>, defaults: Seq<MethodKey>, d: Seq<Diag>)
    requires
        0 <= i,
    ensures
        extends(d, registered_from(rs, i, sets, defaults, d).2),
        methods_stay(sets, registered_from(rs, i, sets, defaults, d).0),
        specials_stay(sets, registered_from(rs, i, sets, defaults, d).0),
        registered_from(rs, i, sets, defaults, d).2.len() == 0 ==> forall|k: int|
            #![trigger rs[k]]
            i <= k < rs.len() ==> has_written(
                registered_from(rs, i, sets, defaults, d).0,
                raw_key(rs[k]),
                rs[k].specialization,
            ),
    decreases rs.len() - i,
{
    if i < rs.len() {
        let (sets1, defaults1, d1) = registered(rs[i], sets, defaults, d);
        assert(extends(d, d1));
        assert(methods_stay(sets, sets1));
        registered_specials(rs[i], sets, defaults, d);
        registered_keeps(rs, i + 1, sets1, defaults1, d1);
        let (sets2, _, d2) = registered_from(rs, i + 1, sets1, defaults1, d1);
        if d2.len() == 0 {
            assert(d1.len() == 0);
            match rs[i].specialization {
                None => {
                    assert(has_general(sets1, raw_key(rs[i])));
                    assert(has_general(sets2, raw_key(rs[i])));
                },
                Some(args) => {
                    assert(has_special(sets1, raw_key(rs[i]), args));
                    assert(has_special(sets2, raw_key(rs[i]), args));
                },
            }
        }
    }
}

proof fn summaries_keep_methods(k: Known, owner: DefId, args: Option<Seq<Ty>>, ms: Seq<FnDecl>, i: int, s: Sigs)
    ensures
        same_generals(s.methods, with_methods_from(k, owner, args, ms, i, s).methods),
        specials_stay(s.methods, with_methods_from(k, owner, args, ms, i, s).methods),
        with_methods_from(k, owner, args, ms, i, s).associated_consts == s.associated_consts,
    decreases ms.len() - i,
{
    if 0 <= i < ms.len() {
        let key = (owner, ms[i].name.name@, domain_of_self(ms[i].self_param));
        let s1 = match s.methods.get(key) {
            Some(set) => Sigs {
                methods: s.methods.insert(key, with_body_origins(set, args, body_summary(k, ms[i], true))),
                ..s
            },
            None => s,
        };
        assert(same_generals(s.methods, s1.methods));
        assert forall|q: MethodKey, a: Seq<Ty>|
            #![trigger has_special(s1.methods, q, a)]
            has_special(s.methods, q, a) implies has_special(s1.methods, q, a) by {
            if let Some(set) = s.methods.get(key) {
                let o = body_summary(k, ms[i], true);
                lemma_same_special(set.specializations, with_body_origins(set, args, o).specializations, a, 0);
            }
        }
        summaries_keep_methods(k, owner, args, ms, i + 1, s1);
    }
}

proof fn all_summaries_keep_methods(sc: Sc, k: Known, i: int, s: Sigs)
    ensures
        same_generals(s.methods, with_impls_from(sc, k, i, s).methods),
        specials_stay(s.methods, with_impls_from(sc, k, i, s).methods),
        with_impls_from(sc, k, i, s).associated_consts == s.associated_consts,
    decreases sc.module.items@.len() - i,
{
    if 0 <= i < sc.module.items@.len() {
        let s1 = match sc.module.items@[i] {
            Item::Impl(b) => match sc.defs().found_in(b.span.file, b.target.name@) {
                Some(owner) => with_methods_from(k, owner, concrete_args(sc, b, owner), b.methods@, 0, s),
                None => s,
            },
            _ => s,
        };
        if let Item::Impl(b) = sc.module.items@[i] {
            if let Some(owner) = sc.defs().found_in(b.span.file, b.target.name@) {
                summaries_keep_methods(k, owner, concrete_args(sc, b, owner), b.methods@, 0, s);
            }
        }
        all_summaries_keep_methods(sc, k, i + 1, s1);
    }
}

proof fn summaries_keep_trait_consts(k: Known, owner: DefId, args: Option<Seq<Ty>>, ms: Seq<FnDecl>, i: int, s: Sigs)
    ensures
        with_methods_from(k, owner, args, ms, i, s).trait_associated_consts == s.trait_associated_consts,
    decreases ms.len() - i,
{
    if 0 <= i < ms.len() {
        let key = (owner, ms[i].name.name@, domain_of_self(ms[i].self_param));
        let s1 = match s.methods.get(key) {
            Some(set) => Sigs {
                methods: s.methods.insert(key, with_body_origins(set, args, body_summary(k, ms[i], true))),
                ..s
            },
            None => s,
        };
        summaries_keep_trait_consts(k, owner, args, ms, i + 1, s1);
    }
}

/// Summaries leave the constants of traits alone.
pub proof fn all_summaries_keep_trait_consts(sc: Sc, k: Known, i: int, s: Sigs)
    ensures
        with_impls_from(sc, k, i, s).trait_associated_consts == s.trait_associated_consts,
    decreases sc.module.items@.len() - i,
{
    if 0 <= i < sc.module.items@.len() {
        let s1 = match sc.module.items@[i] {
            Item::Impl(b) => match sc.defs().found_in(b.span.file, b.target.name@) {
                Some(owner) => with_methods_from(k, owner, concrete_args(sc, b, owner), b.methods@, 0, s),
                None => s,
            },
            _ => s,
        };
        if let Item::Impl(b) = sc.module.items@[i] {
            if let Some(owner) = sc.defs().found_in(b.span.file, b.target.name@) {
                summaries_keep_trait_consts(k, owner, concrete_args(sc, b, owner), b.methods@, 0, s);
            }
        }
        all_summaries_keep_trait_consts(sc, k, i + 1, s1);
    }
}

/// The traits, the signatures and the errors before impl blocks are regarded.
pub open spec fn before_impls(sc: Sc) -> (TraitLists, Sigs, Seq<Diag>) {
    let (s1, d1) = with_types_from(sc, 0, Sigs::none(), Seq::empty());
    let (s2, d2) = with_enums_from(sc, 0, s1, d1);
    let (s3, d3) = with_fns_from(sc, 0, s2, d2);
    with_all_traits(sc, with_fn_summaries(sc, s3), d3)
}

/// Without errors in the end, none is reported of what is written in impl
/// blocks.
proof fn lemma_clean_registration(module: Module, names: ResolvedNames, i: int)
    requires
        checked(module, names).diags.len() == 0,
        0 <= i < module.items@.len(),
    ensures
        ({
            let sc = scope_of(module, names);
            let (table, s4, d4) = before_impls(sc);
            let (rs, w0, e0) = raw_from(sc, 0, Seq::empty(), s4, d4);
            e0.len() == 0 && registered_from(rs, 0, Map::empty(), Seq::empty(), e0).2.len() == 0
        }),
{
    let sc = scope_of(module, names);
    law_declaration_errors_stay(module, names);
    let (table, s4, d4) = before_impls(sc);
    let (s5, d5) = with_all_impls(sc, table, s4, d4);
    let (rs, w0, e0) = raw_from(sc, 0, Seq::empty(), s4, d4);
    raw_from_lists(sc, 0, Seq::empty(), s4, d4);
    registered_keeps(rs, 0, Map::empty(), Seq::empty(), e0);
    let (sets, defaults, e1) = registered_from(rs, 0, Map::empty(), Seq::empty(), e0);
    ext_specializations(sc, rs, 0, sets, defaults, e1);
    let (w1, e2) = with_written_methods(sc, s4, d4);
    ext_requests(sc, e2);
    let (reqs, e3) = all_requests(sc, e2);
    ext_distinct(sc, reqs, 0, Seq::empty(), w1.impls, Seq::empty(), e3);
    let (impls, keep, e4) = distinct_requests(sc, reqs, 0, Seq::empty(), w1.impls, Seq::empty(), e3);
    let w2 = Sigs { impls, ..w1 };
    ext_needs(sc, w2, table, reqs, keep, 0, Seq::empty(), e4);
    let (needs, e5) = all_needs(sc, w2, table, reqs, keep, 0, Seq::empty(), e4);
    ext_met(needs, 0, w2, e5);
    ext_constants(sc, s5, d5, i);
    let (s6, d6) = with_constants(sc, s5, d5);
    ext_types(sc, s6, d6);
    let (s7, d7) = with_associated_types(sc, s6, d6);
    let k = Known { names: sc.names, summaries: summaries_of(s7) };
    all_summaries_keep_methods(sc, k, 0, s7);
    let s8 = with_method_summaries(sc, s7);
    ext_struct_layouts(sc, s8, 0, d7);
    let d8 = struct_layout_errors(sc, s8, 0, d7);
    ext_enum_layouts(sc, s8, 0, d8);
    ext_casing(sc, 0, layout_errors(sc, s8, d7));
    let all = signatures_of(sc).2;
    assert(all.len() == 0);
    assert(extends(e1, all));
}

/// After declarations without errors, every method of an impl block has the
/// signature that it is checked against, and so has every constant with a
/// value.
pub proof fn law_members_have_signatures(module: Module, names: ResolvedNames, i: int, b: ImplBlock, owner: DefId)
    requires
        checked(module, names).diags.len() == 0,
        0 <= i < module.items@.len(),
        module.items@[i] == Item::Impl(b),
        names.definitions.found_in(b.span.file, b.target.name@) == Some(owner),
    ensures
        forall|j: int|
            #![trigger b.methods@[j]]
            0 <= j < b.methods@.len() ==> member_sig(
                checked(module, names).signatures,
                owner,
                b.methods@[j],
                concrete_args(scope_of(module, names), b, owner),
            ) is Some,
        forall|j: int|
            #![trigger b.associated_consts@[j]]
            0 <= j < b.associated_consts@.len() && b.associated_consts@[j].value is Some ==> checked(
                module,
                names,
            ).signatures.associated_consts.contains_key((owner, b.associated_consts@[j].name.name@)),
{
    let sc = scope_of(module, names);
    law_declaration_errors_stay(module, names);
    let (table, s4, d4) = before_impls(sc);
    let (s5, d5) = with_all_impls(sc, table, s4, d4);
    let (rs, w0, e0) = raw_from(sc, 0, Seq::empty(), s4, d4);
    raw_from_lists(sc, 0, Seq::empty(), s4, d4);
    registered_keeps(rs, 0, Map::empty(), Seq::empty(), e0);
    let (sets, defaults, e1) = registered_from(rs, 0, Map::empty(), Seq::empty(), e0);
    ext_specializations(sc, rs, 0, sets, defaults, e1);
    let (w1, e2) = with_written_methods(sc, s4, d4);
    ext_requests(sc, e2);
    let (reqs, e3) = all_requests(sc, e2);
    ext_distinct(sc, reqs, 0, Seq::empty(), w1.impls, Seq::empty(), e3);
    let (impls, keep, e4) = distinct_requests(sc, reqs, 0, Seq::empty(), w1.impls, Seq::empty(), e3);
    let w2 = Sigs { impls, ..w1 };
    ext_needs(sc, w2, table, reqs, keep, 0, Seq::empty(), e4);
    let (needs, e5) = all_needs(sc, w2, table, reqs, keep, 0, Seq::empty(), e4);
    ext_met(needs, 0, w2, e5);
    ext_constants(sc, s5, d5, i);
    let (s6, d6) = with_constants(sc, s5, d5);
    ext_types(sc, s6, d6);
    let (s7, d7) = with_associated_types(sc, s6, d6);
    let k = Known { names: sc.names, summaries: summaries_of(s7) };
    all_summaries_keep_methods(sc, k, 0, s7);
    let s8 = with_method_summaries(sc, s7);
    ext_struct_layouts(sc, s8, 0, d7);
    let d8 = struct_layout_errors(sc, s8, 0, d7);
    ext_enum_layouts(sc, s8, 0, d8);
    ext_casing(sc, 0, layout_errors(sc, s8, d7));
    let all = signatures_of(sc).2;
    assert(all.len() == 0);
    assert(extends(e1, all));
    assert(block_listed(sc, sc.module.items@[i], rs));
    let args = concrete_args(sc, b, owner);
    assert forall|j: int| #![trigger b.methods@[j]] 0 <= j < b.methods@.len() implies member_sig(
        s8,
        owner,
        b.methods@[j],
        args,
    ) is Some by {
        let key = method_key(owner, b.methods@[j]);
        assert(lists(rs, key, args));
        let n = choose|n: int|
            #![trigger rs[n]]
            0 <= n < rs.len() && raw_key(rs[n]) == key && rs[n].specialization == args;
        assert(has_written(sets, key, args));
        match args {
            None => {
                assert(has_general(w2.methods, key));
                assert(has_general(s5.methods, key));
                assert(has_general(s8.methods, key));
            },
            Some(a) => {
                assert(has_special(w2.methods, key, a));
                assert(has_special(s5.methods, key, a));
                assert(has_special(s8.methods, key, a));
            },
        }
    }
    assert(block_consts_in(sc, sc.module.items@[i], s6.associated_consts));
}

/// After a check without errors, every expression in the methods of an impl
/// block and in its constants has a recorded type.
pub proof fn law_member_bodies_are_recorded(module: Module, names: ResolvedNames, i: int, b: ImplBlock, owner: DefId)
    requires
        checked(module, names).diags.len() == 0,
        0 <= i < module.items@.len(),
        module.items@[i] == Item::Impl(b),
        names.definitions.found_in(b.span.file, b.target.name@) == Some(owner),
    ensures
        forall|j: int|
            #![trigger b.methods@[j]]
            0 <= j < b.methods@.len() ==> body_ids(b.methods@[j]).subset_of(
                checked(module, names).expr_types.dom(),
            ),
        forall|j: int|
            #![trigger b.associated_consts@[j]]
            0 <= j < b.associated_consts@.len() ==> value_ids(b.associated_consts@[j]).subset_of(
                checked(module, names).expr_types.dom(),
            ),
{
    law_members_have_signatures(module, names, i, b, owner);
    law_every_expression_is_recorded(module, names, i);
    let m = checked(module, names).expr_types;
    assert forall|j: int| #![trigger b.methods@[j]] 0 <= j < b.methods@.len() implies body_ids(
        b.methods@[j],
    ).subset_of(m.dom()) by {
        lemma_has_dom(m, body_ids(b.methods@[j]));
    }
    assert forall|j: int| #![trigger b.associated_consts@[j]] 0 <= j < b.associated_consts@.len() implies value_ids(
        b.associated_consts@[j],
    ).subset_of(m.dom()) by {
        if b.associated_consts@[j].value is Some {
            lemma_has_dom(m, value_ids(b.associated_consts@[j]));
        }
    }
}

/// Among all methods of a checked module no name is both a static and an
/// instance method of one owner.
pub proof fn law_static_methods_stand_alone(module: Module, names: ResolvedNames)
    ensures
        no_static_clash(checked(module, names).signatures.methods),
{
    let sc = scope_of(module, names);
    let (s1, d1) = with_types_from(sc, 0, Sigs::none(), Seq::empty());
    let (s2, d2) = with_enums_from(sc, 0, s1, d1);
    let (s3, d3) = with_fns_from(sc, 0, s2, d2);
    let (table, s4, d4) = with_all_traits(sc, with_fn_summaries(sc, s3), d3);
    law_methods_do_not_clash(sc, table, s4, d4);
    let (s5, d5) = with_all_impls(sc, table, s4, d4);
    let (s6, d6) = with_constants(sc, s5, d5);
    let (s7, d7) = with_associated_types(sc, s6, d6);
    all_summaries_keep_methods(sc, Known { names: sc.names, summaries: summaries_of(s7) }, 0, s7);
    let a = s7.methods;
    let b = checked(module, names).signatures.methods;
    assert forall|owner: DefId, name: Seq<char>|
        #![trigger has_general(b, (owner, name, ReceiverDomain::Static))]
        has_general(b, (owner, name, ReceiverDomain::Static)) implies !has_general(
        b,
        (owner, name, ReceiverDomain::Arc),
    ) && !has_general(b, (owner, name, ReceiverDomain::Owned)) by {
        assert(has_general(a, (owner, name, ReceiverDomain::Static)));
    }
}

// ---------------------------------------------------------------------
// Methods are written once
// ---------------------------------------------------------------------

/// Whether no two entries are of one method for the same arguments.
pub open spec fn listed_once(rs: Seq<Raw>) -> bool {
    forall|k: int, n: int|
        #![trigger rs[k], rs[n]]
        0 <= k < n < rs.len() ==> !(raw_key(rs[k]) == raw_key(rs[n]) && rs[k].specialization == rs[n].specialization)
}

/// Without errors, nothing that is registered was there before, and nothing is
/// registered twice.
proof fn lemma_registered_once(
    rs: Seq<Raw>,
    i: int,
    sets: Map<MethodKey, Methods>,
    defaults: Seq<MethodKey>,
    d: Seq<Diag>,
)
    requires
        0 <= i,
        registered_from(rs, i, sets, defaults, d).2.len() == 0,
    ensures
        forall|n: int|
            #![trigger rs[n]]
            i <= n < rs.len() ==> !has_written(sets, raw_key(rs[n]), rs[n].specialization),
        forall|k: int, n: int|
            #![trigger rs[k], rs[n]]
            i <= k < n < rs.len() ==> !(raw_key(rs[k]) == raw_key(rs[n]) && rs[k].specialization
                == rs[n].specialization),
    decreases rs.len() - i,
{
    if i < rs.len() {
        let r = rs[i];
        let (sets1, defaults1, d1) = registered(r, sets, defaults, d);
        registered_keeps(rs, i + 1, sets1, defaults1, d1);
        registered_specials(r, sets, defaults, d);
        lemma_registered_once(rs, i + 1, sets1, defaults1, d1);
        assert(d1.len() == 0);
        assert(!has_written(sets, raw_key(r), r.specialization));
        assert(has_written(sets1, raw_key(r), r.specialization));
        assert(methods_stay(sets, sets1));
        assert forall|n: int| #![trigger rs[n]] i <= n < rs.len() implies !has_written(
            sets,
            raw_key(rs[n]),
            rs[n].specialization,
        ) by {
            if n > i {
                let key = raw_key(rs[n]);
                match rs[n].specialization {
                    None => {
                        assert(has_general(sets, key) ==> has_general(sets1, key));
                    },
                    Some(a) => {
                        assert(has_special(sets, key, a) ==> has_special(sets1, key, a));
                    },
                }
            }
        }
        assert forall|k: int, n: int| #![trigger rs[k], rs[n]] i <= k < n < rs.len() implies !(raw_key(rs[k])
            == raw_key(rs[n]) && rs[k].specialization == rs[n].specialization) by {
            if k == i {
                assert(!has_written(sets1, raw_key(rs[n]), rs[n].specialization));
            }
        }
    }
}

/// Where nothing is listed twice, a block has no method that is listed already,
/// and none twice.
proof fn lemma_block_once(
    sc: Sc,
    b: ImplBlock,
    owner: DefId,
    params: Params,
    specialization: Option<Seq<Ty>>,
    i: int,
    acc: Seq<Raw>,
    d: Seq<Diag>,
)
    requires
        0 <= i,
        raw_methods(sc, b, owner, params, specialization, i, acc, d).1.len() == 0,
        listed_once(raw_methods(sc, b, owner, params, specialization, i, acc, d).0),
    ensures
        forall|k: int, n: int|
            #![trigger acc[k], b.methods@[n]]
            0 <= k < acc.len() && i <= n < b.methods@.len() ==> !(raw_key(acc[k]) == method_key(owner, b.methods@[n])
                && acc[k].specialization == specialization),
        forall|j: int, n: int|
            #![trigger b.methods@[j], b.methods@[n]]
            i <= j < n < b.methods@.len() ==> method_key(owner, b.methods@[j]) != method_key(owner, b.methods@[n]),
    decreases b.methods@.len() - i,
{
    if i < b.methods@.len() {
        let m = b.methods@[i];
        raw_lists(sc, b, owner, params, specialization, i, acc, d);
        if specialization is Some && m.self_param is None {
            let d1 = d.push(
                diag(
                    "a concrete specialization cannot override a static method yet — only `self`/`mut self` methods"@,
                    m.name.span,
                    "here"@,
                ),
            );
            raw_lists(sc, b, owner, params, specialization, i + 1, acc, d1);
            assert(d1.len() == 0);
        } else {
            let (sig, d1) = signature_of(sc, m, d);
            let raw = Raw {
                owner,
                owner_name: b.target.name@,
                name: m.name.name@,
                name_span: m.name.span,
                specialization,
                sig: with_owner_params(sig, params),
                is_default: b.is_default,
            };
            let acc1 = acc.push(raw);
            raw_lists(sc, b, owner, params, specialization, i + 1, acc1, d1);
            lemma_block_once(sc, b, owner, params, specialization, i + 1, acc1, d1);
            let all = raw_methods(sc, b, owner, params, specialization, i + 1, acc1, d1).0;
            let last = acc.len() as int;
            assert(acc1[last] == raw);
            assert(all[last] == raw);
            assert(raw_key(raw) == method_key(owner, m));
            assert forall|k: int, n: int| #![trigger acc[k], b.methods@[n]] 0 <= k < acc.len() && i <= n
                < b.methods@.len() implies !(raw_key(acc[k]) == method_key(owner, b.methods@[n])
                && acc[k].specialization == specialization) by {
                assert(acc1[k] == acc[k]);
                assert(all[k] == acc1[k]);
            }
            assert forall|j: int, n: int| #![trigger b.methods@[j], b.methods@[n]] i <= j < n
                < b.methods@.len() implies method_key(owner, b.methods@[j]) != method_key(owner, b.methods@[n]) by {
                if j == i {
                    assert(acc1[last].specialization == specialization);
                }
            }
        }
    }
}

/// Where nothing is listed twice, no item has a method that is listed already,
/// and no method is written twice.
proof fn lemma_module_once(sc: Sc, i: int, acc: Seq<Raw>, s: Sigs, d: Seq<Diag>)
    requires
        0 <= i,
        raw_from(sc, i, acc, s, d).2.len() == 0,
        listed_once(raw_from(sc, i, acc, s, d).0),
    ensures
        forall|k: int, n: int|
            #![trigger acc[k], sc.module.items@[n]]
            0 <= k < acc.len() && i <= n < sc.module.items@.len() ==> !writes(
                sc,
                sc.module.items@[n],
                raw_key(acc[k]),
                acc[k].specialization,
            ),
        forall|n: int, b: ImplBlock, owner: DefId, j: int|
            #![trigger written_last(sc, n, b, owner, j)]
            i <= n < sc.module.items@.len() && sc.module.items@[n] == Item::Impl(b) && sc.defs().found_in(
                b.span.file,
                b.target.name@,
            ) == Some(owner) && 0 <= j < b.methods@.len() ==> written_last(sc, n, b, owner, j),
    decreases sc.module.items@.len() - i,
{
    if i < sc.module.items@.len() {
        let item = sc.module.items@[i];
        let (acc1, s1, d1) = match item {
            Item::Impl(b) => match sc.defs().found_in(b.span.file, b.target.name@) {
                Some(owner) => raw_block(sc, b, owner, acc, s, d),
                None => (acc, s, d),
            },
            _ => (acc, s, d),
        };
        raw_from_lists(sc, i + 1, acc1, s1, d1);
        let all = raw_from(sc, i + 1, acc1, s1, d1).0;
        assert(d1.len() == 0);
        assert(listed_once(acc1)) by {
            assert forall|k: int, n: int| #![trigger acc1[k], acc1[n]] 0 <= k < n < acc1.len() implies !(raw_key(
                acc1[k],
            ) == raw_key(acc1[n]) && acc1[k].specialization == acc1[n].specialization) by {
                assert(all[k] == acc1[k] && all[n] == acc1[n]);
            }
        }
        lemma_module_once(sc, i + 1, acc1, s1, d1);
        lemma_item_once(sc, i, acc, s, d);
        assert forall|k: int, n: int| #![trigger acc[k], sc.module.items@[n]] 0 <= k < acc.len() && i <= n
            < sc.module.items@.len() implies !writes(
            sc,
            sc.module.items@[n],
            raw_key(acc[k]),
            acc[k].specialization,
        ) by {
            assert(acc1[k] == acc[k]);
        }
        assert forall|n: int, b: ImplBlock, owner: DefId, j: int|
            #![trigger written_last(sc, n, b, owner, j)]
            i <= n < sc.module.items@.len() && sc.module.items@[n] == Item::Impl(b) && sc.defs().found_in(
                b.span.file,
                b.target.name@,
            ) == Some(owner) && 0 <= j < b.methods@.len() implies written_last(sc, n, b, owner, j) by {
            if n == i {
                let key = method_key(owner, b.methods@[j]);
                let args = concrete_args(sc, b, owner);
                assert(lists(acc1, key, args));
                let k = choose|k: int|
                    #![trigger acc1[k]]
                    0 <= k < acc1.len() && raw_key(acc1[k]) == key && acc1[k].specialization == args;
                assert(acc1[k].specialization == args);
            }
        }
    }
}

/// The same for one item.
proof fn lemma_item_once(sc: Sc, i: int, acc: Seq<Raw>, s: Sigs, d: Seq<Diag>)
    requires
        0 <= i < sc.module.items@.len(),
        ({
            let (acc1, _, d1) = match sc.module.items@[i] {
                Item::Impl(b) => match sc.defs().found_in(b.span.file, b.target.name@) {
                    Some(owner) => raw_block(sc, b, owner, acc, s, d),
                    None => (acc, s, d),
                },
                _ => (acc, s, d),
            };
            d1.len() == 0 && listed_once(acc1)
        }),
    ensures
        forall|k: int|
            #![trigger acc[k]]
            0 <= k < acc.len() ==> !writes(sc, sc.module.items@[i], raw_key(acc[k]), acc[k].specialization),
        ({
            let (acc1, _, d1) = match sc.module.items@[i] {
                Item::Impl(b) => match sc.defs().found_in(b.span.file, b.target.name@) {
                    Some(owner) => raw_block(sc, b, owner, acc, s, d),
                    None => (acc, s, d),
                },
                _ => (acc, s, d),
            };
            starts(acc, acc1) && block_listed(sc, sc.module.items@[i], acc1)
        }),
        forall|b: ImplBlock, owner: DefId, j: int, n: int|
            #![trigger method_key(owner, b.methods@[j]), method_key(owner, b.methods@[n])]
            sc.module.items@[i] == Item::Impl(b) && sc.defs().found_in(b.span.file, b.target.name@) == Some(owner)
                && 0 <= j < n < b.methods@.len() ==> method_key(owner, b.methods@[j]) != method_key(
                owner,
                b.methods@[n],
            ),
{
    if let Item::Impl(b) = sc.module.items@[i] {
        if let Some(owner) = sc.defs().found_in(b.span.file, b.target.name@) {
            let (acc1, _, d1) = raw_block(sc, b, owner, acc, s, d);
            ext_impl_params(sc, b, owner, d);
            let (params, e1) = impl_params(sc, b, owner, d);
            ext_args(sc, b, owner, e1);
            let (specialization, e2) = specialization_args(sc, b, owner, e1);
            let e3 = if b.is_default && params.len() == 0 {
                e2.push(
                    diag("a `default` impl must be a generic fallback implementation"@, b.span, "in this `impl` block"@),
                )
            } else {
                e2
            };
            let e4 = if specialization is Some && b.traits@.len() > 0 {
                e3.push(
                    diag(
                        "a concrete specialization (`impl Owner<ConcreteArgs>`) cannot also implement a trait yet"@,
                        b.span,
                        "in this `impl` block"@,
                    ),
                )
            } else {
                e3
            };
            raw_lists(sc, b, owner, params, specialization, 0, acc, e4);
            assert((acc1, d1) == raw_methods(sc, b, owner, params, specialization, 0, acc, e4));
            lemma_block_once(sc, b, owner, params, specialization, 0, acc, e4);
            assert(specialization == concrete_args(sc, b, owner));
        }
    }
}

/// After a check without errors, no method is written twice for the same
/// arguments.
pub proof fn law_methods_are_written_once(
    module: Module,
    names: ResolvedNames,
    i: int,
    b: ImplBlock,
    owner: DefId,
    j: int,
)
    requires
        checked(module, names).diags.len() == 0,
        0 <= i < module.items@.len(),
        module.items@[i] == Item::Impl(b),
        names.definitions.found_in(b.span.file, b.target.name@) == Some(owner),
        0 <= j < b.methods@.len(),
    ensures
        written_last(scope_of(module, names), i, b, owner, j),
{
    let sc = scope_of(module, names);
    let (table, s4, d4) = before_impls(sc);
    let (rs, w0, e0) = raw_from(sc, 0, Seq::empty(), s4, d4);
    lemma_clean_registration(module, names, i);
    registered_keeps(rs, 0, Map::empty(), Seq::empty(), e0);
    lemma_registered_once(rs, 0, Map::empty(), Seq::empty(), e0);
    lemma_module_once(sc, 0, Seq::empty(), s4, d4);
    assert(sc.module.items@[i] == Item::Impl(b));
}

/// In a checked module, the signature that a method of an impl block is checked
/// against carries, where it returns a reference, exactly what the method's own
/// body returns, given the origins of all functions. In a block for concrete
/// arguments it is the one that a receiver with these arguments chooses. Only a
/// method that is written again for the same arguments, which is an error, is
/// left out.
pub proof fn law_method_origins_are_what_bodies_return(
    module: Module,
    names: ResolvedNames,
    i: int,
    b: ImplBlock,
    owner: DefId,
    j: int,
    sig: Sig,
)
    requires
        0 <= i < module.items@.len(),
        module.items@[i] == Item::Impl(b),
        names.definitions.found_in(b.span.file, b.target.name@) == Some(owner),
        0 <= j < b.methods@.len(),
        checked(module, names).diags.len() == 0 || written_last(scope_of(module, names), i, b, owner, j),
        member_sig(
            checked(module, names).signatures,
            owner,
            b.methods@[j],
            concrete_args(scope_of(module, names), b, owner),
        ) == Some(sig),
        sig.ret is Ref || sig.ret is MutRef,
    ensures
        sig.return_origins == body_summary(
            known_of(scope_of(module, names), checked(module, names).signatures),
            b.methods@[j],
            true,
        ),
        concrete_args(scope_of(module, names), b, owner) matches Some(a) ==> checked(
            module,
            names,
        ).signatures.methods[method_key(owner, b.methods@[j])].chosen(a) == Some(sig),
{
    let sc = scope_of(module, names);
    if checked(module, names).diags.len() == 0 {
        law_methods_are_written_once(module, names, i, b, owner, j);
    }
    let (table, s4, d4) = before_impls(sc);
    let (s5, d5) = with_all_impls(sc, table, s4, d4);
    let (s6, d6) = with_constants(sc, s5, d5);
    let (s7, d7) = with_associated_types(sc, s6, d6);
    let last = checked(module, names).signatures;
    assert(last == with_method_summaries(sc, s7));
    law_method_summary_is_what_the_body_returns(sc, s7, i, b, owner, j);
    lemma_impls_keep_fns(sc, known_of(sc, s7), 0, s7);
    assert(summaries_of(last) =~= summaries_of(s7));
    let key = method_key(owner, b.methods@[j]);
    let args = concrete_args(sc, b, owner);
    assert(sig_in(last.methods, key, args) == member_sig(last, owner, b.methods@[j], args));
}

} // verus!
