//! Every default method and every constant of a trait has a signature, unless
//! an error says why not.
use crate::associated::{
    all_trait_consts, effective_from, trait_consts, with_ancestors, with_ancestors_from, with_associated_types,
    with_constants, with_named, Inherited, ItemKey,
};
use crate::ast::{AssociatedConst, ImplBlock, Item, Module, TraitDecl};
use crate::check::entry::{checked, scope_of, signatures_of};
use crate::check::growth::{extends, group_grows};
use crate::check::laws::{
    body_ids, law_declaration_errors_stay, law_every_expression_is_recorded, lemma_has_dom, lemma_lowered_all,
    value_ids,
};
use crate::check::members::{
    all_summaries_keep_trait_consts, ext_casing, ext_constants_errors, ext_distinct, ext_enum_layouts,
    ext_impl_params, ext_met, ext_needs, ext_requests, ext_signature, ext_specializations, ext_struct_layouts,
    ext_types, registered_keeps,
};
use crate::declarations::{signature_of, with_enums_from, with_fns_from, with_types_from};
use crate::diagnostics::{diag, Diag};
use crate::ids::DefId;
use crate::impls::{
    all_needs, all_requests, distinct_requests, raw_block, raw_from, raw_methods, registered_from, with_all_impls,
    with_owner_params, with_written_methods, Raw,
};
use crate::layout::{layout_errors, struct_layout_errors};
use crate::lower::{lowered, Sc};
use crate::names::ResolvedNames;
use crate::origins::{summaries_of, with_fn_summaries, with_method_summaries, Known};
use crate::owners::{as_parameters, impl_params, specialization_args, Params};
use crate::rules::bound_subst;
use crate::sig::{Bound, ConstSig, Sigs, TraitAssociatedConstSig};
use crate::subst::{zip_subst, Subst};
use crate::table::{lemma_pair_index, lemma_pair_set_map, lemma_unseen, pair_get, pair_map, pair_set, unseen};
use crate::traits::{
    inherited, methods_in, with_all_inherited, with_all_traits, with_inherited, with_own_methods, with_parents,
    with_trait, with_trait_heads, with_traits_from, DefaultV, MethodList, MethodV, TraitLists,
};
use crate::ty::Ty;
use vstd::prelude::*;

verus! {

broadcast use group_grows;

/// Storing under a key leaves the other keys alone.
proof fn lemma_stored<K, V>(s: Seq<(K, V)>, k: K, v: V, q: K)
    ensures
        pair_get(pair_set(s, k, v), q) == (if q == k {
            Some(v)
        } else {
            pair_get(s, q)
        }),
{
    lemma_pair_set_map(s, k, v);
    let a = pair_map(pair_set(s, k, v));
    let b = pair_map(s).insert(k, v);
    assert(a.contains_key(q) == b.contains_key(q));
    assert(a.contains_key(q) ==> a[q] == b[q]);
    lemma_pair_index(s, q);
    lemma_pair_index(pair_set(s, k, v), q);
}

// ---------------------------------------------------------------------
// Errors of signatures only add up
// ---------------------------------------------------------------------

proof fn ext_raw_methods(
    sc: Sc,
    b: ImplBlock,
    owner: DefId,
    params: Params,
    specialization: Option<Seq<Ty>>,
    i: int,
    acc: Seq<Raw>,
    d: Seq<Diag>,
)
    ensures
        extends(d, raw_methods(sc, b, owner, params, specialization, i, acc, d).1),
    decreases b.methods@.len() - i,
{
    if 0 <= i < b.methods@.len() {
        let m = b.methods@[i];
        if specialization is Some && m.self_param is None {
            let d1 = d.push(
                diag(
                    "a concrete specialization cannot override a static method yet — only `self`/`mut self` methods"@,
                    m.name.span,
                    "here"@,
                ),
            );
            ext_raw_methods(sc, b, owner, params, specialization, i + 1, acc, d1);
        } else {
            ext_signature(sc, m, d);
            let (sig, d1) = signature_of(sc, m, d);
            let raw = Raw {
                owner,
                owner_name: b.target.name@,
                name: m.name.name@,
                name_span: m.name.span,
                specialization,
                sig: with_owner_params(sig, params),
                is_default: b.is_default,
            };
            ext_raw_methods(sc, b, owner, params, specialization, i + 1, acc.push(raw), d1);
        }
    }
}

proof fn ext_raw_block(sc: Sc, b: ImplBlock, owner: DefId, acc: Seq<Raw>, s: Sigs, d: Seq<Diag>)
    ensures
        extends(d, raw_block(sc, b, owner, acc, s, d).2),
        raw_block(sc, b, owner, acc, s, d).1.trait_associated_consts == s.trait_associated_consts,
{
    ext_impl_params(sc, b, owner, d);
    let (params, e1) = impl_params(sc, b, owner, d);
    lemma_lowered_all(sc, b.target_args@, 0, Seq::empty(), e1);
    let (specialization, e2) = specialization_args(sc, b, owner, e1);
    assert(extends(e1, e2));
    let e3 = if b.is_default && params.len() == 0 {
        e2.push(
            diag("a `default` impl must be a generic fallback implementation"@, b.span, "in this `impl` block"@),
        )
    } else {
        e2
    };
    let e4 = if specialization is Some && b.traits@.len() > 0 {
        e3.push(
            diag(
                "a concrete specialization (`impl Owner<ConcreteArgs>`) cannot also implement a trait yet"@,
                b.span,
                "in this `impl` block"@,
            ),
        )
    } else {
        e3
    };
    ext_raw_methods(sc, b, owner, params, specialization, 0, acc, e4);
}

proof fn ext_raw(sc: Sc, i: int, acc: Seq<Raw>, s: Sigs, d: Seq<Diag>)
    ensures
        extends(d, raw_from(sc, i, acc, s, d).2),
    decreases sc.module.items@.len() - i,
{
    if 0 <= i < sc.module.items@.len() {
        let (acc1, s1, d1) = match sc.module.items@[i] {
            Item::Impl(b) => match sc.defs().found_in(b.span.file, b.target.name@) {
                Some(owner) => raw_block(sc, b, owner, acc, s, d),
                None => (acc, s, d),
            },
            _ => (acc, s, d),
        };
        if let Item::Impl(b) = sc.module.items@[i] {
            if let Some(owner) = sc.defs().found_in(b.span.file, b.target.name@) {
                ext_raw_block(sc, b, owner, acc, s, d);
            }
        }
        ext_raw(sc, i + 1, acc1, s1, d1);
    }
}

/// The errors of impl blocks only add to those before.
proof fn ext_all_impls(sc: Sc, table: TraitLists, s: Sigs, d: Seq<Diag>)
    ensures
        extends(d, with_all_impls(sc, table, s, d).1),
{
    ext_raw(sc, 0, Seq::empty(), s, d);
    let (rs, w0, e0) = raw_from(sc, 0, Seq::empty(), s, d);
    registered_keeps(rs, 0, Map::empty(), Seq::empty(), e0);
    let (sets, defaults, e1) = registered_from(rs, 0, Map::empty(), Seq::empty(), e0);
    ext_specializations(sc, rs, 0, sets, defaults, e1);
    let (w1, e2) = with_written_methods(sc, s, d);
    ext_requests(sc, e2);
    let (reqs, e3) = all_requests(sc, e2);
    ext_distinct(sc, reqs, 0, Seq::empty(), w1.impls, Seq::empty(), e3);
    let (impls, keep, e4) = distinct_requests(sc, reqs, 0, Seq::empty(), w1.impls, Seq::empty(), e3);
    let w2 = Sigs { impls, ..w1 };
    ext_needs(sc, w2, table, reqs, keep, 0, Seq::empty(), e4);
    let (needs, e5) = all_needs(sc, w2, table, reqs, keep, 0, Seq::empty(), e4);
    ext_met(needs, 0, w2, e5);
}

// ---------------------------------------------------------------------
// Default methods
// ---------------------------------------------------------------------

/// Whether a list has all methods of a trait from the `i`-th on.
pub open spec fn has_own(t: TraitDecl, ms: MethodList, n: int) -> bool {
    forall|j: int|
        #![trigger t.methods@[j]]
        0 <= j < n && j < t.methods@.len() ==> pair_get(ms, t.methods@[j].name.name@) is Some
}

proof fn own_methods_listed(sc: Sc, id: DefId, t: TraitDecl, i: int, ms: MethodList, d: Seq<Diag>)
    requires
        0 <= i,
        has_own(t, ms, i),
    ensures
        extends(d, with_own_methods(sc, id, t, i, ms, d).1),
        has_own(t, with_own_methods(sc, id, t, i, ms, d).0, t.methods@.len() as int),
    decreases t.methods@.len() - i,
{
    if i < t.methods@.len() {
        let m = t.methods@[i];
        ext_signature(sc, m, d);
        let (sig, d1) = signature_of(sc, m, d);
        let names = crate::declarations::param_names(t.generics@);
        let own = MethodV {
            sig,
            default: match m.body {
                Some(_) => Some(DefaultV { source: id, subst: zip_subst(names, as_parameters(names)) }),
                None => None,
            },
            ambiguous_default: false,
        };
        let ms1 = pair_set(ms, m.name.name@, own);
        assert forall|j: int| #![trigger t.methods@[j]] 0 <= j < i + 1 && j < t.methods@.len() implies pair_get(
            ms1,
            t.methods@[j].name.name@,
        ) is Some by {
            lemma_stored(ms, m.name.name@, own, t.methods@[j].name.name@);
        }
        own_methods_listed(sc, id, t, i + 1, ms1, d1);
    }
}

proof fn ext_inherited(t: TraitDecl, from: MethodList, by: Subst, i: int, ms: MethodList, d: Seq<Diag>)
    ensures
        extends(d, with_all_inherited(t, from, by, i, ms, d).1),
    decreases from.len() - i,
{
    if 0 <= i < from.len() {
        let (ms1, d1) = with_inherited(t, ms, from[i].0, inherited(from[i].1, by), d);
        assert(extends(d, d1));
        ext_inherited(t, from, by, i + 1, ms1, d1);
    }
}

/// Whether each trait in the table is there with all its own methods.
pub open spec fn tabled(sc: Sc, table: TraitLists) -> bool {
    forall|id: DefId|
        #![trigger pair_get(table, id)]
        pair_get(table, id) is Some ==> (match sc.trait_decl(id) {
            Some(t) => has_own(t, methods_in(table, id), t.methods@.len() as int),
            None => true,
        })
}

/// Whether every trait of one table is in another.
pub open spec fn traits_stay(a: TraitLists, b: TraitLists) -> bool {
    forall|id: DefId| #![trigger pair_get(b, id)] pair_get(a, id) is Some ==> pair_get(b, id) is Some
}

proof fn trait_is_tabled(sc: Sc, s: Sigs, id: DefId, path: Seq<DefId>, table: TraitLists, d: Seq<Diag>)
    requires
        tabled(sc, table),
    ensures
        extends(d, with_trait(sc, s, id, path, table, d).1),
        tabled(sc, with_trait(sc, s, id, path, table, d).0),
        traits_stay(table, with_trait(sc, s, id, path, table, d).0),
        sc.trait_decl(id) is Some && with_trait(sc, s, id, path, table, d).1.len() == 0 ==> pair_get(
            with_trait(sc, s, id, path, table, d).0,
            id,
        ) is Some,
    decreases unseen(sc.decls.traits, path), 0nat, 0int,
{
    if pair_get(table, id) is None {
        if let Some(t) = sc.trait_decl(id) {
            if !path.contains(id) {
                lemma_pair_index(sc.decls.traits, id);
                lemma_unseen(sc.decls.traits, path, id);
                let parents = s.parents_of(id);
                parents_are_tabled(sc, s, t, parents, 0, path.push(id), Seq::empty(), table, d);
                let (ms, table1, d1) = with_parents(sc, s, t, parents, 0, path.push(id), Seq::empty(), table, d);
                own_methods_listed(sc, id, t, 0, ms, d1);
                let (ms1, d2) = with_own_methods(sc, id, t, 0, ms, d1);
                let table2 = pair_set(table1, id, ms1);
                assert forall|q: DefId| #![trigger pair_get(table2, q)] pair_get(table2, q) == (if q == id {
                    Some(ms1)
                } else {
                    pair_get(table1, q)
                }) by {
                    lemma_stored(table1, id, ms1, q);
                }
                assert forall|q: DefId|
                    #![trigger pair_get(table2, q)]
                    pair_get(table2, q) is Some implies (match sc.trait_decl(q) {
                    Some(t) => has_own(t, methods_in(table2, q), t.methods@.len() as int),
                    None => true,
                }) by {
                    if q != id {
                        assert(pair_get(table1, q) is Some);
                    }
                }
                assert forall|q: DefId| #![trigger pair_get(table2, q)] pair_get(table, q) is Some implies pair_get(
                    table2,
                    q,
                ) is Some by {
                    assert(pair_get(table1, q) is Some);
                }
                assert(pair_get(table2, id) is Some);
            }
        }
    }
}

proof fn parents_are_tabled(
    sc: Sc,
    s: Sigs,
    t: TraitDecl,
    parents: Seq<Bound>,
    i: int,
    path: Seq<DefId>,
    ms: MethodList,
    table: TraitLists,
    d: Seq<Diag>,
)
    requires
        tabled(sc, table),
    ensures
        extends(d, with_parents(sc, s, t, parents, i, path, ms, table, d).2),
        tabled(sc, with_parents(sc, s, t, parents, i, path, ms, table, d).1),
        traits_stay(table, with_parents(sc, s, t, parents, i, path, ms, table, d).1),
    decreases unseen(sc.decls.traits, path), 1nat, parents.len() - i,
{
    if 0 <= i < parents.len() {
        let p = parents[i];
        trait_is_tabled(sc, s, p.trait_id, path, table, d);
        let (table1, d1) = with_trait(sc, s, p.trait_id, path, table, d);
        let by = zip_subst(s.generics_of_trait(p.trait_id), p.args);
        ext_inherited(t, methods_in(table1, p.trait_id), by, 0, ms, d1);
        let (ms1, d2) = with_all_inherited(t, methods_in(table1, p.trait_id), by, 0, ms, d1);
        parents_are_tabled(sc, s, t, parents, i + 1, path, ms1, table1, d2);
        let table2 = with_parents(sc, s, t, parents, i + 1, path, ms1, table1, d2).1;
        assert forall|q: DefId| #![trigger pair_get(table2, q)] pair_get(table, q) is Some implies pair_get(
            table2,
            q,
        ) is Some by {
            assert(pair_get(table1, q) is Some);
        }
    }
}

proof fn traits_are_tabled(sc: Sc, s: Sigs, i: int, table: TraitLists, d: Seq<Diag>)
    requires
        tabled(sc, table),
        0 <= i,
    ensures
        extends(d, with_traits_from(sc, s, i, table, d).1),
        tabled(sc, with_traits_from(sc, s, i, table, d).0),
        traits_stay(table, with_traits_from(sc, s, i, table, d).0),
        with_traits_from(sc, s, i, table, d).1.len() == 0 ==> forall|j: int|
            #![trigger sc.decls.traits[j]]
            i <= j < sc.decls.traits.len() && sc.trait_decl(sc.decls.traits[j].0) is Some ==> pair_get(
                with_traits_from(sc, s, i, table, d).0,
                sc.decls.traits[j].0,
            ) is Some,
    decreases sc.decls.traits.len() - i,
{
    if i < sc.decls.traits.len() {
        let id = sc.decls.traits[i].0;
        trait_is_tabled(sc, s, id, Seq::empty(), table, d);
        let (table1, d1) = with_trait(sc, s, id, Seq::empty(), table, d);
        traits_are_tabled(sc, s, i + 1, table1, d1);
        let (table2, d2) = with_traits_from(sc, s, i + 1, table1, d1);
        assert forall|q: DefId| #![trigger pair_get(table2, q)] pair_get(table, q) is Some implies pair_get(
            table2,
            q,
        ) is Some by {
            assert(pair_get(table1, q) is Some);
        }
        if d2.len() == 0 && sc.trait_decl(id) is Some {
            assert(pair_get(table1, id) is Some);
            assert(pair_get(table2, id) is Some);
        }
    }
}

// ---------------------------------------------------------------------
// Constants
// ---------------------------------------------------------------------

/// Whether every key of one list is in another.
pub open spec fn keys_stay<V>(a: Seq<(ItemKey, V)>, b: Seq<(ItemKey, V)>) -> bool {
    forall|key: ItemKey| #![trigger pair_get(b, key)] pair_get(a, key) is Some ==> pair_get(b, key) is Some
}

proof fn named_are_added(
    own: Map<ItemKey, ConstSig>,
    into: DefId,
    id: DefId,
    names: Seq<Seq<char>>,
    by: Subst,
    i: int,
    all: Seq<(ItemKey, ConstSig)>,
)
    requires
        0 <= i,
    ensures
        keys_stay(all, with_named::<TraitAssociatedConstSig>(own, into, id, names, by, i, all)),
        forall|j: int|
            #![trigger names[j]]
            i <= j < names.len() && own.contains_key((id, names[j])) ==> pair_get(
                with_named::<TraitAssociatedConstSig>(own, into, id, names, by, i, all),
                (into, names[j]),
            ) is Some,
    decreases names.len() - i,
{
    if i < names.len() {
        let key = (into, names[i]);
        let all1 = if pair_get(all, key) is Some {
            all
        } else {
            match own.get((id, names[i])) {
                Some(v) => pair_set(all, key, <TraitAssociatedConstSig as Inherited>::replaced(v, by)),
                None => all,
            }
        };
        assert forall|q: ItemKey| #![trigger pair_get(all1, q)] pair_get(all, q) is Some implies pair_get(all1, q) is Some by {
            if let Some(v) = own.get((id, names[i])) {
                lemma_stored(all, key, <TraitAssociatedConstSig as Inherited>::replaced(v, by), q);
            }
        }
        if own.contains_key((id, names[i])) && pair_get(all, key) is None {
            lemma_stored(
                all,
                key,
                <TraitAssociatedConstSig as Inherited>::replaced(own[(id, names[i])], by),
                key,
            );
        }
        named_are_added(own, into, id, names, by, i + 1, all1);
        let all2 = with_named::<TraitAssociatedConstSig>(own, into, id, names, by, i + 1, all1);
        if own.contains_key((id, names[i])) {
            assert(pair_get(all1, key) is Some);
            assert(pair_get(all2, key) is Some);
        }
        assert forall|q: ItemKey| #![trigger pair_get(all2, q)] pair_get(all, q) is Some implies pair_get(all2, q) is Some by {
            assert(pair_get(all1, q) is Some);
        }
    }
}

proof fn ancestors_keep(
    sc: Sc,
    s: Sigs,
    own: Map<ItemKey, ConstSig>,
    into: DefId,
    id: DefId,
    by: Subst,
    path: Seq<DefId>,
    all: Seq<(ItemKey, ConstSig)>,
)
    ensures
        keys_stay(all, with_ancestors::<TraitAssociatedConstSig>(sc, s, own, into, id, by, path, all)),
    decreases unseen(sc.decls.traits, path), 0nat, 0int,
{
    if let Some(t) = sc.trait_decl(id) {
        if !path.contains(id) {
            lemma_pair_index(sc.decls.traits, id);
            lemma_unseen(sc.decls.traits, path, id);
            let names = <TraitAssociatedConstSig as Inherited>::declared(t);
            named_are_added(own, into, id, names, by, 0, all);
            let all1 = with_named::<TraitAssociatedConstSig>(own, into, id, names, by, 0, all);
            ancestors_from_keep(sc, s, own, into, s.parents_of(id), 0, by, path.push(id), all1);
            let all2 = with_ancestors_from::<TraitAssociatedConstSig>(
                sc,
                s,
                own,
                into,
                s.parents_of(id),
                0,
                by,
                path.push(id),
                all1,
            );
            assert forall|q: ItemKey| #![trigger pair_get(all2, q)] pair_get(all, q) is Some implies pair_get(all2, q) is Some by {
                assert(pair_get(all1, q) is Some);
            }
        }
    }
}

proof fn ancestors_from_keep(
    sc: Sc,
    s: Sigs,
    own: Map<ItemKey, ConstSig>,
    into: DefId,
    parents: Seq<Bound>,
    i: int,
    by: Subst,
    path: Seq<DefId>,
    all: Seq<(ItemKey, ConstSig)>,
)
    ensures
        keys_stay(all, with_ancestors_from::<TraitAssociatedConstSig>(sc, s, own, into, parents, i, by, path, all)),
    decreases unseen(sc.decls.traits, path), 1nat, parents.len() - i,
{
    if 0 <= i < parents.len() {
        let p = bound_subst(parents[i], by);
        let m = zip_subst(s.generics_of_trait(p.trait_id), p.args);
        ancestors_keep(sc, s, own, into, p.trait_id, m, path, all);
        let all1 = with_ancestors::<TraitAssociatedConstSig>(sc, s, own, into, p.trait_id, m, path, all);
        ancestors_from_keep(sc, s, own, into, parents, i + 1, by, path, all1);
        let all2 = with_ancestors_from::<TraitAssociatedConstSig>(sc, s, own, into, parents, i + 1, by, path, all1);
        assert forall|q: ItemKey| #![trigger pair_get(all2, q)] pair_get(all, q) is Some implies pair_get(all2, q) is Some by {
            assert(pair_get(all1, q) is Some);
        }
    }
}

/// Whether a list has all constants of a trait.
pub open spec fn has_own_consts(own: Map<ItemKey, ConstSig>, id: DefId, t: TraitDecl, all: Seq<(ItemKey, ConstSig)>) -> bool {
    forall|j: int|
        #![trigger t.associated_consts@[j]]
        0 <= j < t.associated_consts@.len() && own.contains_key((id, t.associated_consts@[j].name.name@)) ==> pair_get(
            all,
            (id, t.associated_consts@[j].name.name@),
        ) is Some
}

proof fn own_consts_are_added(
    sc: Sc,
    s: Sigs,
    own: Map<ItemKey, ConstSig>,
    id: DefId,
    t: TraitDecl,
    all: Seq<(ItemKey, ConstSig)>,
)
    requires
        sc.trait_decl(id) == Some(t),
    ensures
        has_own_consts(
            own,
            id,
            t,
            with_ancestors::<TraitAssociatedConstSig>(sc, s, own, id, id, Map::empty(), Seq::empty(), all),
        ),
{
    let names = <TraitAssociatedConstSig as Inherited>::declared(t);
    named_are_added(own, id, id, names, Map::empty(), 0, all);
    let all1 = with_named::<TraitAssociatedConstSig>(own, id, id, names, Map::empty(), 0, all);
    let path = Seq::<DefId>::empty().push(id);
    ancestors_from_keep(sc, s, own, id, s.parents_of(id), 0, Map::empty(), path, all1);
    let all2 = with_ancestors_from::<TraitAssociatedConstSig>(
        sc,
        s,
        own,
        id,
        s.parents_of(id),
        0,
        Map::empty(),
        path,
        all1,
    );
    assert forall|j: int|
        #![trigger t.associated_consts@[j]]
        0 <= j < t.associated_consts@.len() && own.contains_key(
            (id, t.associated_consts@[j].name.name@),
        ) implies pair_get(all2, (id, t.associated_consts@[j].name.name@)) is Some by {
        assert(names[j] == t.associated_consts@[j].name.name@);
        assert(pair_get(all1, (id, names[j])) is Some);
    }
}

proof fn effective_has_own(
    sc: Sc,
    s: Sigs,
    own: Map<ItemKey, ConstSig>,
    i: int,
    all: Seq<(ItemKey, ConstSig)>,
    k: int,
    t: TraitDecl,
)
    requires
        0 <= i,
        0 <= k < sc.decls.traits.len(),
        sc.trait_decl(sc.decls.traits[k].0) == Some(t),
    ensures
        keys_stay(all, effective_from::<TraitAssociatedConstSig>(sc, s, own, i, all)),
        i <= k ==> has_own_consts(
            own,
            sc.decls.traits[k].0,
            t,
            effective_from::<TraitAssociatedConstSig>(sc, s, own, i, all),
        ),
    decreases sc.decls.traits.len() - i,
{
    if i < sc.decls.traits.len() {
        let id = sc.decls.traits[i].0;
        ancestors_keep(sc, s, own, id, id, Map::empty(), Seq::empty(), all);
        let all1 = with_ancestors::<TraitAssociatedConstSig>(sc, s, own, id, id, Map::empty(), Seq::empty(), all);
        effective_has_own(sc, s, own, i + 1, all1, k, t);
        let all2 = effective_from::<TraitAssociatedConstSig>(sc, s, own, i + 1, all1);
        if i == k {
            own_consts_are_added(sc, s, own, id, t, all);
            assert forall|j: int|
                #![trigger t.associated_consts@[j]]
                0 <= j < t.associated_consts@.len() && own.contains_key(
                    (id, t.associated_consts@[j].name.name@),
                ) implies pair_get(all2, (id, t.associated_consts@[j].name.name@)) is Some by {
                assert(pair_get(all1, (id, t.associated_consts@[j].name.name@)) is Some);
            }
        }
        assert forall|q: ItemKey| #![trigger pair_get(all2, q)] pair_get(all, q) is Some implies pair_get(all2, q) is Some by {
            assert(pair_get(all1, q) is Some);
        }
    }
}

/// Whether a table has the constants of a trait from the `i`-th up to the
/// `n`-th.
pub open spec fn trait_consts_in(id: DefId, cs: Seq<AssociatedConst>, i: int, m: Map<ItemKey, ConstSig>) -> bool {
    forall|j: int| #![trigger cs[j]] i <= j < cs.len() ==> m.contains_key((id, cs[j].name.name@))
}

proof fn trait_consts_are_added(sc: Sc, id: DefId, cs: Seq<AssociatedConst>, i: int, m: Map<ItemKey, ConstSig>, d: Seq<Diag>)
    requires
        0 <= i,
    ensures
        crate::check::members::consts_stay(m, trait_consts(sc, id, cs, i, m, d).0),
        trait_consts_in(id, cs, i, trait_consts(sc, id, cs, i, m, d).0),
    decreases cs.len() - i,
{
    if i < cs.len() {
        let (ty, d1) = lowered(sc, cs[i].ty, d);
        let sig = ConstSig {
            visibility: cs[i].visibility,
            file: cs[i].span.file,
            ty,
            value: match cs[i].value {
                Some(x) => Some(x.id),
                None => None,
            },
        };
        let m1 = m.insert((id, cs[i].name.name@), sig);
        trait_consts_are_added(sc, id, cs, i + 1, m1, d1);
        assert(m1.contains_key((id, cs[i].name.name@)));
    }
}

proof fn all_trait_consts_are_added(sc: Sc, i: int, m: Map<ItemKey, ConstSig>, d: Seq<Diag>, k: int, t: TraitDecl)
    requires
        0 <= i,
        0 <= k < sc.decls.traits.len(),
        sc.trait_decl(sc.decls.traits[k].0) == Some(t),
    ensures
        crate::check::members::consts_stay(m, all_trait_consts(sc, i, m, d).0),
        i <= k ==> trait_consts_in(sc.decls.traits[k].0, t.associated_consts@, 0, all_trait_consts(sc, i, m, d).0),
    decreases sc.decls.traits.len() - i,
{
    if i < sc.decls.traits.len() {
        let id = sc.decls.traits[i].0;
        let (m1, d1) = match sc.trait_decl(id) {
            Some(u) => trait_consts(sc, id, u.associated_consts@, 0, m, d),
            None => (m, d),
        };
        if let Some(u) = sc.trait_decl(id) {
            trait_consts_are_added(sc, id, u.associated_consts@, 0, m, d);
        }
        all_trait_consts_are_added(sc, i + 1, m1, d1, k, t);
    }
}

/// After declarations without errors, every method and every constant of a
/// declared trait has a signature.
pub proof fn law_traits_have_signatures(module: Module, names: ResolvedNames, id: DefId, t: TraitDecl)
    requires
        checked(module, names).diags.len() == 0,
        scope_of(module, names).trait_decl(id) == Some(t),
    ensures
        has_own(t, methods_in(signatures_of(scope_of(module, names)).0, id), t.methods@.len() as int),
        forall|j: int|
            #![trigger t.associated_consts@[j]]
            0 <= j < t.associated_consts@.len() ==> checked(
                module,
                names,
            ).signatures.trait_associated_consts.contains_key((id, t.associated_consts@[j].name.name@)),
{
    let sc = scope_of(module, names);
    law_declaration_errors_stay(module, names);
    lemma_pair_index(sc.decls.traits, id);
    let k = crate::table::pair_index(sc.decls.traits, id);
    let (s1, d1) = with_types_from(sc, 0, Sigs::none(), Seq::empty());
    let (s2, d2) = with_enums_from(sc, 0, s1, d1);
    let (s3, d3) = with_fns_from(sc, 0, s2, d2);
    let s3a = with_fn_summaries(sc, s3);
    let (h, hd) = with_trait_heads(sc, 0, s3a, d3);
    traits_are_tabled(sc, h, 0, Seq::empty(), hd);
    let (table, s4, d4) = with_all_traits(sc, s3a, d3);
    ext_all_impls(sc, table, s4, d4);
    let (s5, d5) = with_all_impls(sc, table, s4, d4);
    ext_constants_errors(sc, s5, d5);
    let (s6, d6) = with_constants(sc, s5, d5);
    ext_types(sc, s6, d6);
    let (s7, d7) = with_associated_types(sc, s6, d6);
    let known = Known { names: sc.names, summaries: summaries_of(s7) };
    all_summaries_keep_trait_consts(sc, known, 0, s7);
    let s8 = with_method_summaries(sc, s7);
    ext_struct_layouts(sc, s8, 0, d7);
    let d8 = struct_layout_errors(sc, s8, 0, d7);
    ext_enum_layouts(sc, s8, 0, d8);
    ext_casing(sc, 0, layout_errors(sc, s8, d7));
    let all = signatures_of(sc).2;
    assert(all.len() == 0);
    assert(extends(d4, all));
    assert(sc.decls.traits[k].0 == id);
    assert(pair_get(table, id) is Some);
    let (own, c1) = all_trait_consts(sc, 0, Map::empty(), d5);
    all_trait_consts_are_added(sc, 0, Map::empty(), d5, k, t);
    effective_has_own(sc, s5, own, 0, Seq::empty(), k, t);
    let consts = effective_from::<TraitAssociatedConstSig>(sc, s5, own, 0, Seq::empty());
    assert forall|j: int| #![trigger t.associated_consts@[j]] 0 <= j < t.associated_consts@.len() implies pair_map(
        consts,
    ).contains_key((id, t.associated_consts@[j].name.name@)) by {
        assert(own.contains_key((id, t.associated_consts@[j].name.name@)));
        assert(pair_get(consts, (id, t.associated_consts@[j].name.name@)) is Some);
        lemma_pair_index(consts, (id, t.associated_consts@[j].name.name@));
    }
}

/// After a check without errors, every expression in the default methods of a
/// declared trait, and in its constants, has a recorded type.
pub proof fn law_trait_bodies_are_recorded(module: Module, names: ResolvedNames, i: int, t: TraitDecl, id: DefId)
    requires
        checked(module, names).diags.len() == 0,
        0 <= i < module.items@.len(),
        module.items@[i] == Item::Trait(t),
        names.definitions.found_in(t.span.file, t.name.name@) == Some(id),
        scope_of(module, names).trait_decl(id) == Some(t),
    ensures
        forall|j: int|
            #![trigger t.methods@[j]]
            0 <= j < t.methods@.len() ==> body_ids(t.methods@[j]).subset_of(checked(module, names).expr_types.dom()),
        forall|j: int|
            #![trigger t.associated_consts@[j]]
            0 <= j < t.associated_consts@.len() ==> value_ids(t.associated_consts@[j]).subset_of(
                checked(module, names).expr_types.dom(),
            ),
{
    law_traits_have_signatures(module, names, id, t);
    law_every_expression_is_recorded(module, names, i);
    let m = checked(module, names).expr_types;
    assert forall|j: int| #![trigger t.methods@[j]] 0 <= j < t.methods@.len() implies body_ids(
        t.methods@[j],
    ).subset_of(m.dom()) by {
        lemma_has_dom(m, body_ids(t.methods@[j]));
    }
    assert forall|j: int| #![trigger t.associated_consts@[j]] 0 <= j < t.associated_consts@.len() implies value_ids(
        t.associated_consts@[j],
    ).subset_of(m.dom()) by {
        lemma_has_dom(m, value_ids(t.associated_consts@[j]));
    }
}

} // verus!
