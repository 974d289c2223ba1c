//! What traits hand down: methods to child traits, constants and types to child
//! traits and to the types that implement them.
use vstd::prelude::*;

use crate::associated::{
    consts_of_items, consts_of_refs, implementing, owner_consts, required_consts, required_types, trait_consts,
    with_constants, Inherited, ItemKey,
};
use crate::ast::{AssociatedConst, TraitDecl, TypeExpr};
use crate::conformance::alike;
use crate::declarations::signature_of;
use crate::diagnostics::Diag;
use crate::ids::{DefId, Span};
use crate::lower::{lowered, lowered_bound, Sc};
use crate::sig::{Bound, ConstSig, Sigs, TypeSig};
use crate::subst::{subst, zip_subst, Subst};
use crate::table::{lemma_pair_index, lemma_pair_set_map, pair_get, pair_index, pair_map, pair_set};
use crate::traits::{
    inherited, joined_method, with_all_inherited, with_inherited, with_own_methods, MethodList, MethodV,
};

verus! {

// ---------------------------------------------------------------------
// Constants
// ---------------------------------------------------------------------

/// Whether everything in one map is in another, unchanged.
pub open spec fn constants_stay(a: Map<ItemKey, ConstSig>, b: Map<ItemKey, ConstSig>) -> bool {
    forall|k: ItemKey| #![trigger b.contains_key(k)] a.contains_key(k) ==> b.contains_key(k) && b[k] == a[k]
}

/// Whether an owner has a constant that a trait declares, of the declared type with
/// the trait's arguments put in.
pub open spec fn has_constant(m: Map<ItemKey, ConstSig>, owner: DefId, name: Seq<char>, declared: ConstSig, by: Subst) -> bool {
    m.contains_key((owner, name)) && m[(owner, name)].ty == subst(declared.ty, by)
}

/// Where the constants of an implemented trait are checked without an error, the
/// owner has each of them, of the declared type with the trait's arguments put in:
/// its own, which stay as they are, or else the trait's default.
pub proof fn law_constants_are_implemented(
    sc: Sc,
    owner: DefId,
    bound: Bound,
    by: Subst,
    span: Span,
    all: Seq<(ItemKey, ConstSig)>,
    i: int,
    m: Map<ItemKey, ConstSig>,
    d: Seq<Diag>,
)
    requires
        0 <= i,
    ensures
        ({
            let (m1, d1) = required_consts(sc, owner, bound, by, span, all, i, m, d);
            &&& d1.len() >= d.len()
            &&& constants_stay(m, m1)
            &&& d1.len() == d.len() ==> forall|k: int|
                #![trigger all[k]]
                i <= k < all.len() && all[k].0.0 == bound.trait_id ==> has_constant(m1, owner, all[k].0.1, all[k].1, by)
        }),
    decreases all.len() - i,
{
    if i < all.len() {
        let name = all[i].0.1;
        let declared = all[i].1;
        let ty = subst(declared.ty, by);
        let (m1, d1) = required_consts(sc, owner, bound, by, span, all, i, m, d);
        if all[i].0.0 != bound.trait_id {
            law_constants_are_implemented(sc, owner, bound, by, span, all, i + 1, m, d);
        } else {
            match m.get((owner, name)) {
                Some(actual) => {
                    let e = crate::diagnostics::diag(
                        "associated constant `"@ + name + "` has type `"@ + crate::describe::shown(
                            actual.ty,
                            sc.defs(),
                        ) + "`, expected `"@ + crate::describe::shown(ty, sc.defs()) + "`"@,
                        span,
                        "implementation is here"@,
                    );
                    if actual.ty == ty {
                        law_constants_are_implemented(sc, owner, bound, by, span, all, i + 1, m, d);
                        assert(m1.contains_key((owner, name)));
                    } else {
                        law_constants_are_implemented(sc, owner, bound, by, span, all, i + 1, m, d.push(e));
                    }
                },
                None => match declared.value {
                    Some(_) => {
                        let m2 = m.insert((owner, name), ConstSig { ty, ..declared });
                        law_constants_are_implemented(sc, owner, bound, by, span, all, i + 1, m2, d);
                        assert(m1.contains_key((owner, name)));
                        assert forall|k: ItemKey| #![trigger m1.contains_key(k)] m.contains_key(k) implies m1.contains_key(
                            k,
                        ) && m1[k] == m[k] by {
                            assert(m2.contains_key(k) && m2[k] == m[k]);
                        }
                    },
                    None => {
                        let e = crate::diagnostics::diag(
                            "missing associated constant `"@ + name + "` of trait `"@ + sc.name(bound.trait_id) + "`"@,
                            span,
                            "implementation is here"@,
                        );
                        law_constants_are_implemented(sc, owner, bound, by, span, all, i + 1, m, d.push(e));
                    },
                },
            }
        }
    }
}

/// Whether an owner has all the constants of a trait.
pub open spec fn has_constants(m: Map<ItemKey, ConstSig>, s: Sigs, owner: DefId, bound: Bound, all: Seq<(ItemKey, ConstSig)>) -> bool {
    forall|k: int|
        #![trigger all[k]]
        0 <= k < all.len() && all[k].0.0 == bound.trait_id ==> has_constant(
            m,
            owner,
            all[k].0.1,
            all[k].1,
            zip_subst(s.generics_of_trait(bound.trait_id), bound.args),
        )
}

proof fn lemma_constants_of_refs(
    sc: Sc,
    s: Sigs,
    all: Seq<(ItemKey, ConstSig)>,
    owner: DefId,
    refs: Seq<TypeExpr>,
    i: int,
    m: Map<ItemKey, ConstSig>,
    d: Seq<Diag>,
)
    requires
        0 <= i,
    ensures
        ({
            let (m1, d1) = consts_of_refs(sc, s, all, owner, refs, i, m, d);
            &&& d1.len() >= d.len()
            &&& constants_stay(m, m1)
            &&& d1.len() == d.len() ==> forall|k: int|
                #![trigger refs[k]]
                i <= k < refs.len() ==> (lowered_bound(sc, refs[k], Seq::empty()).0 matches Some(bound) ==> has_constants(
                    m1,
                    s,
                    owner,
                    bound,
                    all,
                ))
        }),
    decreases refs.len() - i,
{
    if i < refs.len() {
        let (m1, d1) = consts_of_refs(sc, s, all, owner, refs, i, m, d);
        match lowered_bound(sc, refs[i], Seq::empty()).0 {
            Some(bound) => {
                let by = zip_subst(s.generics_of_trait(bound.trait_id), bound.args);
                let span = crate::ast::type_span(refs[i]);
                law_constants_are_implemented(sc, owner, bound, by, span, all, 0, m, d);
                let (m2, d2) = required_consts(sc, owner, bound, by, span, all, 0, m, d);
                lemma_constants_of_refs(sc, s, all, owner, refs, i + 1, m2, d2);
                assert forall|k: ItemKey| #![trigger m1.contains_key(k)] m.contains_key(k) implies m1.contains_key(k)
                    && m1[k] == m[k] by {
                    assert(m2.contains_key(k));
                }
                if d1.len() == d.len() {
                    assert forall|k: int| #![trigger all[k]] 0 <= k < all.len() && all[k].0.0
                        == bound.trait_id implies has_constant(m1, owner, all[k].0.1, all[k].1, by) by {
                        assert(m2.contains_key((owner, all[k].0.1)));
                        assert(m1.contains_key((owner, all[k].0.1)));
                    }
                    assert(has_constants(m1, s, owner, bound, all));
                }
            },
            None => lemma_constants_of_refs(sc, s, all, owner, refs, i + 1, m, d),
        }
    }
}

proof fn lemma_constants_of_items(sc: Sc, s: Sigs, all: Seq<(ItemKey, ConstSig)>, i: int, m: Map<ItemKey, ConstSig>, d: Seq<Diag>, at: int, k: int)
    requires
        0 <= i,
    ensures
        ({
            let (m1, d1) = consts_of_items(sc, s, all, i, m, d);
            &&& d1.len() >= d.len()
            &&& constants_stay(m, m1)
            &&& d1.len() == d.len() && i <= at < sc.module.items@.len() ==> (implementing(sc, sc.module.items@[at])
                matches Some((owner, refs)) ==> (0 <= k < refs.len() ==> (lowered_bound(sc, refs[k], Seq::empty()).0
                matches Some(bound) ==> has_constants(m1, s, owner, bound, all))))
        }),
    decreases sc.module.items@.len() - i,
{
    if i < sc.module.items@.len() {
        let (m1, d1) = consts_of_items(sc, s, all, i, m, d);
        match implementing(sc, sc.module.items@[i]) {
            Some((owner, refs)) => {
                lemma_constants_of_refs(sc, s, all, owner, refs, 0, m, d);
                let (m2, d2) = consts_of_refs(sc, s, all, owner, refs, 0, m, d);
                lemma_constants_of_items(sc, s, all, i + 1, m2, d2, at, k);
                assert forall|q: ItemKey| #![trigger m1.contains_key(q)] m.contains_key(q) implies m1.contains_key(q)
                    && m1[q] == m[q] by {
                    assert(m2.contains_key(q));
                }
                if d1.len() == d.len() && at == i && 0 <= k < refs.len() {
                    if let Some(bound) = lowered_bound(sc, refs[k], Seq::empty()).0 {
                        assert(has_constants(m2, s, owner, bound, all)) by {
                            assert(refs[k] == refs[k]);
                        }
                        let by = zip_subst(s.generics_of_trait(bound.trait_id), bound.args);
                        assert forall|j: int| #![trigger all[j]] 0 <= j < all.len() && all[j].0.0
                            == bound.trait_id implies has_constant(m1, owner, all[j].0.1, all[j].1, by) by {
                            assert(m2.contains_key((owner, all[j].0.1)));
                            assert(m1.contains_key((owner, all[j].0.1)));
                        }
                    }
                }
            },
            None => lemma_constants_of_items(sc, s, all, i + 1, m, d, at, k),
        }
    }
}

/// Where the constants of a module are checked without an error, every type that is
/// declared to implement a trait, in its own declaration or in an impl block, has
/// each constant that the trait declares or inherits, of the declared type with the
/// trait's arguments put in.
pub proof fn law_every_constant_is_there(
    sc: Sc,
    s: Sigs,
    d: Seq<Diag>,
    at: int,
    k: int,
    owner: DefId,
    refs: Seq<TypeExpr>,
    bound: Bound,
    name: Seq<char>,
)
    requires
        with_constants(sc, s, d).1.len() == 0,
        0 <= at < sc.module.items@.len(),
        implementing(sc, sc.module.items@[at]) == Some((owner, refs)),
        0 <= k < refs.len(),
        lowered_bound(sc, refs[k], Seq::empty()).0 == Some(bound),
        with_constants(sc, s, d).0.trait_associated_consts.contains_key((bound.trait_id, name)),
    ensures
        has_constant(
            with_constants(sc, s, d).0.associated_consts,
            owner,
            name,
            with_constants(sc, s, d).0.trait_associated_consts[(bound.trait_id, name)],
            zip_subst(s.generics_of_trait(bound.trait_id), bound.args),
        ),
{
    let (own, d1) = crate::associated::all_trait_consts(sc, 0, Map::empty(), d);
    let all = crate::associated::effective_from::<crate::sig::TraitAssociatedConstSig>(sc, s, own, 0, Seq::empty());
    let (m, d2) = crate::associated::all_owner_consts(sc, 0, Map::empty(), d1);
    lemma_constants_of_items(sc, s, all, 0, m, d2, at, k);
    lemma_pair_index(all, (bound.trait_id, name));
    let j = pair_index(all, (bound.trait_id, name));
    assert(all[j].0 == (bound.trait_id, name));
}

// ---------------------------------------------------------------------
// Types
// ---------------------------------------------------------------------

/// Whether everything in one map is in another, unchanged.
pub open spec fn types_stay(a: Map<ItemKey, TypeSig>, b: Map<ItemKey, TypeSig>) -> bool {
    forall|k: ItemKey| #![trigger b.contains_key(k)] a.contains_key(k) ==> b.contains_key(k) && b[k] == a[k]
}

/// Whether an item is the first of its key from the `i`-th on.
pub open spec fn is_first(all: Seq<(ItemKey, TypeSig)>, i: int, k: int) -> bool {
    forall|j: int| #![trigger all[j]] i <= j < k ==> all[j].0 != all[k].0
}

/// Whether an owner has a type that a trait declares, and if it had none before, the
/// trait's default with the trait's arguments put in.
pub open spec fn has_type(
    before: Map<ItemKey, TypeSig>,
    after: Map<ItemKey, TypeSig>,
    owner: DefId,
    all: Seq<(ItemKey, TypeSig)>,
    by: Subst,
    i: int,
    k: int,
) -> bool {
    let key = (owner, all[k].0.1);
    &&& after.contains_key(key)
    &&& !before.contains_key(key) && is_first(all, i, k) ==> all[k].1.ty is Some && after[key].ty == Some(
        subst(all[k].1.ty->Some_0, by),
    )
}

/// Where the types of an implemented trait are checked without an error, the owner
/// has each of them: its own, which stay as they are, or else the trait's default with
/// the trait's arguments put in.
pub proof fn law_types_are_implemented(
    sc: Sc,
    owner: DefId,
    bound: Bound,
    by: Subst,
    span: Span,
    all: Seq<(ItemKey, TypeSig)>,
    i: int,
    m: Seq<(ItemKey, TypeSig)>,
    d: Seq<Diag>,
)
    requires
        0 <= i,
    ensures
        ({
            let (m1, d1) = required_types(sc, owner, bound, by, span, all, i, m, d);
            &&& d1.len() >= d.len()
            &&& types_stay(pair_map(m), pair_map(m1))
            &&& d1.len() == d.len() ==> forall|k: int|
                #![trigger all[k]]
                i <= k < all.len() && all[k].0.0 == bound.trait_id ==> has_type(
                    pair_map(m),
                    pair_map(m1),
                    owner,
                    all,
                    by,
                    i,
                    k,
                )
        }),
    decreases all.len() - i,
{
    if i < all.len() {
        let name = all[i].0.1;
        let declared = all[i].1;
        let (m1, d1) = required_types(sc, owner, bound, by, span, all, i, m, d);
        if all[i].0.0 != bound.trait_id || pair_get(m, (owner, name)) is Some {
            law_types_are_implemented(sc, owner, bound, by, span, all, i + 1, m, d);
            assert(types_stay(pair_map(m), pair_map(m1)));
            if all[i].0.0 == bound.trait_id {
                assert(pair_map(m).contains_key((owner, name)));
                assert(pair_map(m1).contains_key((owner, name)));
            }
            assert forall|k: int| #![trigger all[k]] d1.len() == d.len() && i <= k < all.len() && all[k].0.0
                == bound.trait_id implies has_type(pair_map(m), pair_map(m1), owner, all, by, i, k) by {
                if k > i {
                    assert(has_type(pair_map(m), pair_map(m1), owner, all, by, i + 1, k));
                    assert(is_first(all, i, k) ==> is_first(all, i + 1, k));
                }
            }
        } else {
            match declared.ty {
                Some(t) => {
                    let sig = TypeSig { ty: Some(subst(t, by)), ..declared };
                    let m2 = pair_set(m, (owner, name), sig);
                    lemma_pair_set_map(m, (owner, name), sig);
                    law_types_are_implemented(sc, owner, bound, by, span, all, i + 1, m2, d);
                    assert(pair_map(m2).contains_key((owner, name)));
                    assert(pair_map(m1).contains_key((owner, name)));
                    let (a, c) = (pair_map(m), pair_map(m1));
                    assert forall|q: ItemKey| #![trigger c.contains_key(q)] a.contains_key(q) implies c.contains_key(q)
                        && c[q] == a[q] by {
                        assert(pair_map(m2).contains_key(q) && pair_map(m2)[q] == a[q]);
                    }
                    assert(types_stay(a, c));
                    assert forall|k: int| #![trigger all[k]] d1.len() == d.len() && i <= k < all.len() && all[k].0.0
                        == bound.trait_id implies has_type(pair_map(m), pair_map(m1), owner, all, by, i, k) by {
                        if k > i {
                            assert(has_type(pair_map(m2), pair_map(m1), owner, all, by, i + 1, k));
                            assert(is_first(all, i, k) ==> is_first(all, i + 1, k) && all[i].0 != all[k].0);
                        }
                    }
                },
                None => {
                    let e = crate::diagnostics::diag(
                        "missing associated type `"@ + name + "` of trait `"@ + sc.name(bound.trait_id) + "`"@,
                        span,
                        "implementation is here"@,
                    );
                    law_types_are_implemented(sc, owner, bound, by, span, all, i + 1, m, d.push(e));
                    assert(types_stay(pair_map(m), pair_map(m1)));
                },
            }
        }
        assert(types_stay(pair_map(m), pair_map(m1)));
    } else {
        assert(types_stay(pair_map(m), pair_map(m)));
    }
}

// ---------------------------------------------------------------------
// Methods
// ---------------------------------------------------------------------

/// What is inherited of a method is the method with the parent's arguments put in:
/// in its parameters, its result and what its default was chosen for.
pub proof fn law_inherited_methods(m: MethodV, by: Subst)
    ensures
        ({
            let r = inherited(m, by);
            &&& crate::conformance::stands_for(r.sig, m.sig, by, 0)
            &&& r.ambiguous_default == m.ambiguous_default
            &&& r.default is Some <==> m.default is Some
            &&& m.default matches Some(a) ==> (r.default matches Some(b) && b.source == a.source && forall|n: Seq<char>|
                #![trigger b.subst.contains_key(n)]
                (b.subst.contains_key(n) <==> a.subst.contains_key(n)) && (a.subst.contains_key(n) ==> b.subst[n]
                    == subst(a.subst[n], by)))
        }),
{
}

/// A method that two parents have is inherited without an error exactly if both
/// declare it alike. Whatever the order, two different defaults leave none, and it is
/// then ambiguous; one default alone is taken, and equal ones are one.
pub proof fn law_inherited_twice(t: TraitDecl, ms: MethodList, name: Seq<char>, a: MethodV, b: MethodV, d: Seq<Diag>)
    requires
        pair_map(ms).contains_key(name),
        pair_map(ms)[name] == a,
    ensures
        ({
            let (ms1, d1) = with_inherited(t, ms, name, b, d);
            &&& d1.len() == d.len() <==> alike(a.sig, b.sig)
            &&& pair_map(ms1).contains_key(name)
            &&& pair_map(ms1)[name].sig == a.sig
            &&& pair_map(ms1)[name].ambiguous_default <==> a.ambiguous_default || b.ambiguous_default || (a.default is Some
                && b.default is Some && a.default != b.default)
            &&& pair_map(ms1)[name].default == (if a.default is Some && b.default is Some && a.default != b.default {
                None
            } else if a.default is Some {
                a.default
            } else if a.ambiguous_default || b.ambiguous_default {
                None
            } else {
                b.default
            })
            &&& forall|other: Seq<char>|
                #![trigger pair_map(ms1).contains_key(other)]
                other != name ==> (pair_map(ms1).contains_key(other) <==> pair_map(ms).contains_key(other)) && (pair_map(
                    ms,
                ).contains_key(other) ==> pair_map(ms1)[other] == pair_map(ms)[other])
        }),
{
    lemma_pair_set_map(ms, name, joined_method(a, b));
    assert(d.push(
        crate::diagnostics::diag(
            "inherited method `"@ + name + "` has incompatible signatures in trait `"@ + t.name.name@ + "`"@,
            t.span,
            "conflicting parent traits"@,
        ),
    ).len() == d.len() + 1);
    let x = a.sig;
    let y = b.sig;
    assert(crate::owners::sigs_match(x, y) <==> alike(x, y)) by {
        if crate::owners::sigs_match(x, y) {
            assert forall|i: int| #![trigger x.params[i]] #![trigger y.params[i]] 0 <= i < x.params.len() implies x.params[i].ty
                == y.params[i].ty && x.params[i].mutable == y.params[i].mutable by {
                assert(x.params[i] == x.params[i]);
            }
        }
    }
}

/// A method that no parent had before is inherited as it is.
pub proof fn law_inherited_once(t: TraitDecl, ms: MethodList, name: Seq<char>, m: MethodV, d: Seq<Diag>)
    requires
        !pair_map(ms).contains_key(name),
    ensures
        with_inherited(t, ms, name, m, d).1 == d,
        pair_map(with_inherited(t, ms, name, m, d).0) == pair_map(ms).insert(name, m),
{
    lemma_pair_set_map(ms, name, m);
}

/// Whether every method in one map is in another, with its signature.
pub open spec fn methods_stay(a: Map<Seq<char>, MethodV>, b: Map<Seq<char>, MethodV>) -> bool {
    forall|n: Seq<char>| #![trigger b.contains_key(n)] a.contains_key(n) ==> b.contains_key(n) && b[n].sig == a[n].sig
}

/// The methods that a parent has are all inherited, and none that was there is lost.
pub proof fn law_every_method_is_inherited(
    t: TraitDecl,
    from: MethodList,
    by: Subst,
    i: int,
    ms: MethodList,
    d: Seq<Diag>,
)
    requires
        0 <= i,
    ensures
        ({
            let (ms1, d1) = with_all_inherited(t, from, by, i, ms, d);
            &&& d1.len() >= d.len()
            &&& methods_stay(pair_map(ms), pair_map(ms1))
            &&& forall|k: int|
                #![trigger from[k]]
                i <= k < from.len() ==> pair_map(ms1).contains_key(from[k].0)
            &&& d1.len() == d.len() ==> forall|k: int|
                #![trigger from[k]]
                i <= k < from.len() ==> crate::conformance::stands_for(
                    pair_map(ms1)[from[k].0].sig,
                    from[k].1.sig,
                    by,
                    0,
                )
        }),
    decreases from.len() - i,
{
    if i < from.len() {
        let name = from[i].0;
        let m = inherited(from[i].1, by);
        law_inherited_methods(from[i].1, by);
        let (ms2, d2) = with_inherited(t, ms, name, m, d);
        if pair_map(ms).contains_key(name) {
            law_inherited_twice(t, ms, name, pair_map(ms)[name], m, d);
        } else {
            law_inherited_once(t, ms, name, m, d);
        }
        law_every_method_is_inherited(t, from, by, i + 1, ms2, d2);
        let (ms1, d1) = with_all_inherited(t, from, by, i, ms, d);
        assert(pair_map(ms2).contains_key(name));
        assert(pair_map(ms1).contains_key(name));
        let (a, b, c) = (pair_map(ms), pair_map(ms2), pair_map(ms1));
        assert(methods_stay(b, c));
        assert(methods_stay(a, b));
        assert forall|n: Seq<char>| #![trigger c.contains_key(n)] a.contains_key(n) implies c.contains_key(n) && c[n].sig
            == a[n].sig by {
            assert(b.contains_key(n));
        }
        if d1.len() == d.len() {
            assert(alike(pair_map(ms2)[name].sig, m.sig));
            let found = c[name].sig;
            assert(found == b[name].sig);
            assert(crate::conformance::stands_for(found, from[i].1.sig, by, 0)) by {
                assert forall|p: int| #![trigger found.params[p]] 0 <= p < found.params.len() implies found.params[p].ty
                    == subst(from[i].1.sig.params[p].ty, by) && found.params[p].mutable
                    == from[i].1.sig.params[p].mutable by {
                    assert(m.sig.params[p].ty == found.params[p].ty);
                }
            }
        }
    }
}

/// A trait's own method stands as it is declared, with a default of its own exactly
/// if it has a body, whatever was inherited under its name.
pub proof fn law_own_methods_stand(sc: Sc, id: DefId, t: TraitDecl, i: int, ms: MethodList, d: Seq<Diag>, k: int)
    requires
        0 <= i <= k < t.methods@.len(),
        forall|j: int| #![trigger t.methods@[j]] k < j < t.methods@.len() ==> t.methods@[j].name.name@
            != t.methods@[k].name.name@,
    ensures
        ({
            let ms1 = with_own_methods(sc, id, t, i, ms, d).0;
            let name = t.methods@[k].name.name@;
            &&& pair_map(ms1).contains_key(name)
            &&& !pair_map(ms1)[name].ambiguous_default
            &&& pair_map(ms1)[name].default is Some <==> t.methods@[k].body is Some
            &&& pair_map(ms1)[name].default matches Some(default) ==> default.source == id
            &&& exists|at: Seq<Diag>| #[trigger]
                signature_of(sc, t.methods@[k], at).0 == pair_map(ms1)[name].sig
        }),
    decreases t.methods@.len() - i,
{
    let m = t.methods@[i];
    let (sig, d1) = signature_of(sc, m, d);
    let names = crate::declarations::param_names(t.generics@);
    let own = MethodV {
        sig,
        default: match m.body {
            Some(_) => Some(
                crate::traits::DefaultV { source: id, subst: zip_subst(names, crate::owners::as_parameters(names)) },
            ),
            None => None,
        },
        ambiguous_default: false,
    };
    let ms2 = pair_set(ms, m.name.name@, own);
    lemma_pair_set_map(ms, m.name.name@, own);
    if i < k {
        law_own_methods_stand(sc, id, t, i + 1, ms2, d1, k);
    } else {
        lemma_own_methods_stay(sc, id, t, i + 1, ms2, d1, m.name.name@);
        assert(signature_of(sc, t.methods@[k], d).0 == own.sig);
    }
}

proof fn lemma_own_methods_stay(sc: Sc, id: DefId, t: TraitDecl, i: int, ms: MethodList, d: Seq<Diag>, name: Seq<char>)
    requires
        0 <= i,
        pair_map(ms).contains_key(name),
        forall|j: int| #![trigger t.methods@[j]] i <= j < t.methods@.len() ==> t.methods@[j].name.name@ != name,
    ensures
        ({
            let ms1 = with_own_methods(sc, id, t, i, ms, d).0;
            pair_map(ms1).contains_key(name) && pair_map(ms1)[name] == pair_map(ms)[name]
        }),
    decreases t.methods@.len() - i,
{
    if i < t.methods@.len() {
        let m = t.methods@[i];
        let (sig, d1) = signature_of(sc, m, d);
        let names = crate::declarations::param_names(t.generics@);
        let own = MethodV {
            sig,
            default: match m.body {
                Some(_) => Some(
                    crate::traits::DefaultV {
                        source: id,
                        subst: zip_subst(names, crate::owners::as_parameters(names)),
                    },
                ),
                None => None,
            },
            ambiguous_default: false,
        };
        lemma_pair_set_map(ms, m.name.name@, own);
        lemma_own_methods_stay(sc, id, t, i + 1, pair_set(ms, m.name.name@, own), d1, name);
    }
}

// ---------------------------------------------------------------------
// Declared items
// ---------------------------------------------------------------------

/// A constant that a trait declares is of the type that is written, with the value that
/// is written, if there is one.
pub proof fn law_trait_constants_are_as_declared(
    sc: Sc,
    id: DefId,
    cs: Seq<AssociatedConst>,
    i: int,
    m: Map<ItemKey, ConstSig>,
    d: Seq<Diag>,
    k: int,
)
    requires
        0 <= i <= k < cs.len(),
        forall|j: int| #![trigger cs[j]] k < j < cs.len() ==> cs[j].name.name@ != cs[k].name.name@,
    ensures
        trait_consts(sc, id, cs, i, m, d).0.get((id, cs[k].name.name@)) matches Some(sig) && sig.ty
            == crate::written::type_of(sc, cs[k].ty) && sig.visibility == cs[k].visibility && sig.file
            == cs[k].span.file && (sig.value is Some <==> cs[k].value is Some),
    decreases cs.len() - i,
{
    let (ty, d1) = lowered(sc, cs[i].ty, d);
    crate::written::law_types_do_not_depend_on_errors(sc, cs[i].ty, Seq::empty(), d);
    let sig = ConstSig {
        visibility: cs[i].visibility,
        file: cs[i].span.file,
        ty,
        value: match cs[i].value {
            Some(x) => Some(x.id),
            None => None,
        },
    };
    let m1 = m.insert((id, cs[i].name.name@), sig);
    if i < k {
        law_trait_constants_are_as_declared(sc, id, cs, i + 1, m1, d1, k);
    } else {
        lemma_trait_constants_stay(sc, id, cs, i + 1, m1, d1, (id, cs[k].name.name@));
    }
}

proof fn lemma_trait_constants_stay(
    sc: Sc,
    id: DefId,
    cs: Seq<AssociatedConst>,
    i: int,
    m: Map<ItemKey, ConstSig>,
    d: Seq<Diag>,
    key: ItemKey,
)
    requires
        0 <= i,
        forall|j: int| #![trigger cs[j]] i <= j < cs.len() ==> (id, cs[j].name.name@) != key,
    ensures
        trait_consts(sc, id, cs, i, m, d).0.get(key) == m.get(key),
    decreases cs.len() - i,
{
    if i < cs.len() {
        let (ty, d1) = lowered(sc, cs[i].ty, d);
        let sig = ConstSig {
            visibility: cs[i].visibility,
            file: cs[i].span.file,
            ty,
            value: match cs[i].value {
                Some(x) => Some(x.id),
                None => None,
            },
        };
        lemma_trait_constants_stay(sc, id, cs, i + 1, m.insert((id, cs[i].name.name@), sig), d1, key);
    }
}

/// A constant of an impl block has a value, or is reported; it is of the type that is
/// written.
pub proof fn law_constants_of_owners_are_as_declared(
    sc: Sc,
    owner: DefId,
    cs: Seq<AssociatedConst>,
    i: int,
    m: Map<ItemKey, ConstSig>,
    d: Seq<Diag>,
    k: int,
)
    requires
        0 <= i <= k < cs.len(),
        forall|j: int| #![trigger cs[j]] k < j < cs.len() ==> cs[j].name.name@ != cs[k].name.name@,
        owner_consts(sc, owner, cs, i, m, d).1.len() == d.len(),
    ensures
        cs[k].value is Some,
        owner_consts(sc, owner, cs, i, m, d).0.get((owner, cs[k].name.name@)) matches Some(sig) && sig.ty
            == crate::written::type_of(sc, cs[k].ty) && sig.visibility == cs[k].visibility && sig.file
            == cs[k].span.file,
    decreases cs.len() - i,
{
    let (ty, d1) = lowered(sc, cs[i].ty, d);
    crate::written::law_types_do_not_depend_on_errors(sc, cs[i].ty, Seq::empty(), d);
    match cs[i].value {
        Some(x) => {
            let m1 = m.insert(
                (owner, cs[i].name.name@),
                ConstSig { visibility: cs[i].visibility, file: cs[i].span.file, ty, value: Some(x.id) },
            );
            lemma_owner_constants(sc, owner, cs, i + 1, m1, d1, (owner, cs[k].name.name@));
            if i < k {
                law_constants_of_owners_are_as_declared(sc, owner, cs, i + 1, m1, d1, k);
            }
        },
        None => {
            let d2 = d1.push(
                crate::diagnostics::diag(
                    "associated constant `"@ + cs[i].name.name@ + "` must have a value"@,
                    cs[i].name.span,
                    "declared here"@,
                ),
            );
            lemma_owner_constants(sc, owner, cs, i + 1, m, d2, (owner, cs[k].name.name@));
        },
    }
}

proof fn lemma_owner_constants(
    sc: Sc,
    owner: DefId,
    cs: Seq<AssociatedConst>,
    i: int,
    m: Map<ItemKey, ConstSig>,
    d: Seq<Diag>,
    key: ItemKey,
)
    requires
        0 <= i,
    ensures
        owner_consts(sc, owner, cs, i, m, d).1.len() >= d.len(),
        (forall|j: int| #![trigger cs[j]] i <= j < cs.len() ==> (owner, cs[j].name.name@) != key) ==> owner_consts(
            sc,
            owner,
            cs,
            i,
            m,
            d,
        ).0.get(key) == m.get(key),
    decreases cs.len() - i,
{
    if i < cs.len() {
        let (ty, d1) = lowered(sc, cs[i].ty, d);
        crate::written::law_types_do_not_depend_on_errors(sc, cs[i].ty, Seq::empty(), d);
        match cs[i].value {
            Some(x) => {
                let sig = ConstSig { visibility: cs[i].visibility, file: cs[i].span.file, ty, value: Some(x.id) };
                lemma_owner_constants(sc, owner, cs, i + 1, m.insert((owner, cs[i].name.name@), sig), d1, key);
            },
            None => {
                let d2 = d1.push(
                    crate::diagnostics::diag(
                        "associated constant `"@ + cs[i].name.name@ + "` must have a value"@,
                        cs[i].name.span,
                        "declared here"@,
                    ),
                );
                lemma_owner_constants(sc, owner, cs, i + 1, m, d2, key);
            },
        }
    }
}

} // verus!
