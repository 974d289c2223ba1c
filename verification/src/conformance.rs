//! Implementations conform to their traits: what a clean check of the impl blocks
//! shows of the methods that it leaves.
use vstd::prelude::*;

use crate::ast::{ImplBlock, Item, TypeExpr};
use crate::diagnostics::Diag;
use crate::ids::DefId;
use crate::impls::{
    all_needs, all_requests, block_requests, distinct_requests, enum_requests, impl_requests, listed_requests,
    met_needs, required_sig, struct_requests, thread_marker, with_all_impls, with_need, with_requirement,
    with_trait_needs, with_written_methods, MethodKey, Need, Req,
};
use crate::lower::{lowered_bound, Sc};
use crate::sig::{domain_of_self, Bound, Methods, Sig, Sigs};
use crate::subst::{subst, zip_subst, Subst};
use crate::table::{lemma_pair_index, pair_get, pair_index, pair_set};
use crate::traits::{methods_in, MethodList, TraitLists};
use crate::ty::Ty;
use crate::written::law_bounds_name_traits;

verus! {

/// Whether a method has the receiver, the asynchrony, the parameters, the result
/// and the number of generic parameters of a declaration in which types are put
/// in for generic parameters, after `own` generic parameters of its owner.
pub open spec fn stands_for(actual: Sig, declared: Sig, by: Subst, own: nat) -> bool {
    &&& actual.self_param == declared.self_param
    &&& actual.is_async == declared.is_async
    &&& actual.ret == subst(declared.ret, by)
    &&& actual.generics.len() == own + declared.generics.len()
    &&& actual.params.len() == declared.params.len()
    &&& forall|i: int|
        #![trigger actual.params[i]]
        0 <= i < actual.params.len() ==> actual.params[i].ty == subst(declared.params[i].ty, by)
            && actual.params[i].mutable == declared.params[i].mutable
}

/// Whether two methods are the same to a caller.
pub open spec fn alike(a: Sig, b: Sig) -> bool {
    &&& a.self_param == b.self_param
    &&& a.is_async == b.is_async
    &&& a.ret == b.ret
    &&& a.generics.len() == b.generics.len()
    &&& a.params.len() == b.params.len()
    &&& forall|i: int|
        #![trigger a.params[i]]
        #![trigger b.params[i]]
        0 <= i < a.params.len() ==> a.params[i].ty == b.params[i].ty && a.params[i].mutable == b.params[i].mutable
}

/// Whether a method of a type that implements a trait is as the trait declares
/// it, with the trait's arguments put in.
pub open spec fn conforms(s: Sigs, r: Req, name: Seq<char>, declared: Sig) -> bool {
    s.method_of(r.owner, name, domain_of_self(declared.self_param)) matches Some(actual) && stands_for(
        actual,
        declared,
        zip_subst(s.generics_of_trait(r.bound.trait_id), r.bound.args),
        r.params.len(),
    )
}

/// What is gathered of the missing methods of owners: none of them is written,
/// each stands once, and a default that can be taken is what is asked for.
pub open spec fn sound_needs(needs: Seq<(MethodKey, Need)>, s: Sigs) -> bool {
    &&& forall|i: int| #![trigger needs[i]] 0 <= i < needs.len() ==> s.method_of(needs[i].0.0, needs[i].0.1, needs[i].0.2) is None
    &&& forall|i: int, j: int| #![trigger needs[i], needs[j]] 0 <= i < j < needs.len() ==> needs[i].0 != needs[j].0
    &&& forall|i: int, k: int|
        #![trigger needs[i].1.defaults[k]]
        0 <= i < needs.len() && !needs[i].1.ambiguous && 0 <= k < needs[i].1.defaults.len() ==> alike(
            needs[i].1.defaults[k].sig,
            needs[i].1.sig,
        )
}

/// Whether a method is gathered as missing with this signature.
pub open spec fn asked_for(needs: Seq<(MethodKey, Need)>, key: MethodKey, expected: Sig) -> bool {
    exists|i: int| #![trigger needs[i]] 0 <= i < needs.len() && needs[i].0 == key && alike(needs[i].1.sig, expected)
}

/// Whether a method is written or gathered with this signature.
pub open spec fn provided(needs: Seq<(MethodKey, Need)>, s: Sigs, key: MethodKey, expected: Sig) -> bool {
    (s.method_of(key.0, key.1, key.2) matches Some(actual) && alike(actual, expected)) || asked_for(needs, key, expected)
}

/// Whether everything that was provided still is.
pub open spec fn still_provided(before: Seq<(MethodKey, Need)>, after: Seq<(MethodKey, Need)>, s: Sigs) -> bool {
    forall|key: MethodKey, expected: Sig|
        #![trigger provided(after, s, key, expected)]
        provided(before, s, key, expected) ==> provided(after, s, key, expected)
}

proof fn lemma_add_need(sc: Sc, s: Sigs, r: Req, name: Seq<char>, m: crate::traits::MethodV, by: Subst, needs: Seq<(MethodKey, Need)>, d: Seq<Diag>)
    requires
        sound_needs(needs, s),
    ensures
        ({
            let (needs1, d1) = with_need(sc, s, r, name, m, by, needs, d);
            let expected = required_sig(r, m, by);
            &&& sound_needs(needs1, s)
            &&& still_provided(needs, needs1, s)
            &&& d1.len() >= d.len()
            &&& d1.len() == d.len() ==> provided(
                needs1,
                s,
                (r.owner, name, domain_of_self(m.sig.self_param)),
                expected,
            )
        }),
{
    let (needs1, d1) = with_need(sc, s, r, name, m, by, needs, d);
    let expected = required_sig(r, m, by);
    let key = (r.owner, name, domain_of_self(expected.self_param));
    if s.method_of(key.0, key.1, key.2) is None && r.allow_defaults {
        lemma_pair_index(needs, key);
        let at = pair_index(needs, key);
        let need = match pair_get(needs, key) {
            Some(need) => need,
            None => Need {
                owner_name: r.owner_name,
                span: r.span,
                trait_name: sc.name(r.bound.trait_id),
                sig: expected,
                defaults: Seq::empty(),
                ambiguous: false,
            },
        };
        let need1 = with_requirement(need, expected, m, by);
        assert(needs1 == pair_set(needs, key, need1));
        assert(need1.sig == need.sig);
        assert(forall|k: int|
            #![trigger need1.defaults[k]]
            !need1.ambiguous && 0 <= k < need1.defaults.len() ==> alike(need1.defaults[k].sig, need1.sig)) by {
            assert(at < needs.len() ==> needs[at].1 == need);
            assert(forall|k: int|
                #![trigger need.defaults[k]]
                !need.ambiguous && 0 <= k < need.defaults.len() ==> alike(need.defaults[k].sig, need.sig));
            assert(forall|k: int|
                #![trigger need1.defaults[k]]
                0 <= k < need1.defaults.len() ==> (k < need.defaults.len() && need1.defaults[k] == need.defaults[k])
                    || need1.defaults[k].sig == expected);
        }
        assert(needs1[at] == (key, need1));
        assert(forall|i: int| #![trigger needs1[i]] 0 <= i < needs1.len() && i != at ==> i < needs.len() && needs1[i] == needs[i]);
        assert forall|k: MethodKey, e: Sig| #![trigger provided(needs1, s, k, e)] provided(needs, s, k, e) implies provided(
            needs1,
            s,
            k,
            e,
        ) by {
            if asked_for(needs, k, e) {
                let i = choose|i: int| #![trigger needs[i]] 0 <= i < needs.len() && needs[i].0 == k && alike(needs[i].1.sig, e);
                assert(needs1[i].0 == k && alike(needs1[i].1.sig, e));
                assert(asked_for(needs1, k, e));
            }
        }
        if d1.len() == d.len() {
            assert(alike(needs1[at].1.sig, expected));
            assert(asked_for(needs1, key, expected));
        }
    }
}

/// Whether the methods of a trait from the `i`-th to before the `end`-th are
/// provided for an owner.
pub open spec fn trait_provided(needs: Seq<(MethodKey, Need)>, s: Sigs, r: Req, ms: MethodList, by: Subst, i: int, end: int) -> bool {
    forall|k: int|
        #![trigger ms[k]]
        i <= k < end ==> provided(
            needs,
            s,
            (r.owner, ms[k].0, domain_of_self(ms[k].1.sig.self_param)),
            required_sig(r, ms[k].1, by),
        )
}

proof fn lemma_add_trait_needs(sc: Sc, s: Sigs, r: Req, ms: MethodList, by: Subst, i: int, needs: Seq<(MethodKey, Need)>, d: Seq<Diag>)
    requires
        0 <= i <= ms.len(),
        sound_needs(needs, s),
    ensures
        ({
            let (needs1, d1) = with_trait_needs(sc, s, r, ms, by, i, needs, d);
            &&& sound_needs(needs1, s)
            &&& still_provided(needs, needs1, s)
            &&& d1.len() >= d.len()
            &&& d1.len() == d.len() ==> trait_provided(needs1, s, r, ms, by, i, ms.len() as int)
        }),
    decreases ms.len() - i,
{
    if i < ms.len() {
        lemma_add_need(sc, s, r, ms[i].0, ms[i].1, by, needs, d);
        let (needs1, d1) = with_need(sc, s, r, ms[i].0, ms[i].1, by, needs, d);
        lemma_add_trait_needs(sc, s, r, ms, by, i + 1, needs1, d1);
    }
}

/// The choice that a declared implementation makes for its trait's parameters.
pub open spec fn chosen_args(s: Sigs, r: Req) -> Subst {
    zip_subst(s.generics_of_trait(r.bound.trait_id), r.bound.args)
}

/// Whether every method of the trait of a declared implementation is provided.
pub open spec fn request_provided(needs: Seq<(MethodKey, Need)>, s: Sigs, table: TraitLists, r: Req) -> bool {
    let ms = methods_in(table, r.bound.trait_id);
    trait_provided(needs, s, r, ms, chosen_args(s, r), 0, ms.len() as int)
}

proof fn lemma_still_provided(a: Seq<(MethodKey, Need)>, b: Seq<(MethodKey, Need)>, s: Sigs, table: TraitLists, r: Req)
    requires
        still_provided(a, b, s),
        request_provided(a, s, table, r),
    ensures
        request_provided(b, s, table, r),
{
}

proof fn lemma_all_needs(
    sc: Sc,
    s: Sigs,
    table: TraitLists,
    rs: Seq<Req>,
    keep: Seq<bool>,
    i: int,
    needs: Seq<(MethodKey, Need)>,
    d: Seq<Diag>,
)
    requires
        0 <= i <= rs.len(),
        keep.len() == rs.len(),
        sound_needs(needs, s),
    ensures
        ({
            let (needs1, d1) = all_needs(sc, s, table, rs, keep, i, needs, d);
            &&& sound_needs(needs1, s)
            &&& still_provided(needs, needs1, s)
            &&& d1.len() >= d.len()
            &&& d1.len() == d.len() ==> forall|j: int|
                #![trigger rs[j]]
                i <= j < rs.len() && keep[j] ==> request_provided(needs1, s, table, rs[j])
        }),
    decreases rs.len() - i,
{
    if i < rs.len() {
        let (needs2, d2) = all_needs(sc, s, table, rs, keep, i, needs, d);
        if keep[i] {
            let id = rs[i].bound.trait_id;
            let by = zip_subst(s.generics_of_trait(id), rs[i].bound.args);
            lemma_add_trait_needs(sc, s, rs[i], methods_in(table, id), by, 0, needs, d);
            let (needs1, d1) = with_trait_needs(sc, s, rs[i], methods_in(table, id), by, 0, needs, d);
            lemma_all_needs(sc, s, table, rs, keep, i + 1, needs1, d1);
            if d2.len() == d.len() {
                assert(request_provided(needs1, s, table, rs[i]));
                lemma_still_provided(needs1, needs2, s, table, rs[i]);
            }
            assert forall|key: MethodKey, e: Sig| #![trigger provided(needs2, s, key, e)] provided(
                needs,
                s,
                key,
                e,
            ) implies provided(needs2, s, key, e) by {
                assert(provided(needs1, s, key, e));
            }
        } else {
            lemma_all_needs(sc, s, table, rs, keep, i + 1, needs, d);
        }
    }
}

/// Whether the gathered methods from the `i`-th on are there as asked for.
pub open spec fn all_met(needs: Seq<(MethodKey, Need)>, i: int, s: Sigs) -> bool {
    forall|j: int|
        #![trigger needs[j]]
        i <= j < needs.len() ==> (s.method_of(needs[j].0.0, needs[j].0.1, needs[j].0.2) matches Some(actual) && alike(
            actual,
            needs[j].1.sig,
        ))
}

/// Whether the methods that are not gathered from the `i`-th on stay.
pub open spec fn others_stay(needs: Seq<(MethodKey, Need)>, i: int, before: Sigs, after: Sigs) -> bool {
    forall|key: MethodKey|
        #![trigger after.methods.get(key)]
        (forall|j: int| #![trigger needs[j]] i <= j < needs.len() ==> needs[j].0 != key) ==> after.methods.get(key)
            == before.methods.get(key)
}

proof fn lemma_needs_met(needs: Seq<(MethodKey, Need)>, i: int, s0: Sigs, s: Sigs, d: Seq<Diag>)
    requires
        0 <= i <= needs.len(),
        sound_needs(needs, s0),
    ensures
        ({
            let (s1, d1) = met_needs(needs, i, s, d);
            &&& d1.len() >= d.len()
            &&& d1.len() == d.len() ==> all_met(needs, i, s1)
            &&& others_stay(needs, i, s, s1)
            &&& s1.trait_generics == s.trait_generics
            &&& s1.impls == s.impls
        }),
    decreases needs.len() - i,
{
    if i < needs.len() {
        let key = needs[i].0;
        let need = needs[i].1;
        let (s1, d1) = met_needs(needs, i, s, d);
        if need.ambiguous || need.defaults.len() != 1 || crate::impls::static_clash(s.methods, key) {
            let e = choose|e: Diag| met_needs(needs, i, s, d) == met_needs(needs, i + 1, s, d.push(e));
            lemma_needs_met(needs, i + 1, s0, s, d.push(e));
            assert(others_stay(needs, i, s, s1));
        } else {
            let c = need.defaults[0];
            let set = match s.methods.get(key) {
                Some(set) => set,
                None => Methods::none(),
            };
            let s2 = Sigs {
                methods: s.methods.insert(key, Methods { generic: Some(c.sig), ..set }),
                default_method_substitutions: s.default_method_substitutions.insert(key, c.subst),
                default_method_sources: s.default_method_sources.insert(key, c.source),
                ..s
            };
            lemma_needs_met(needs, i + 1, s0, s2, d);
            assert(alike(needs[i].1.defaults[0].sig, needs[i].1.sig));
            assert(forall|j: int| #![trigger needs[j]] i + 1 <= j < needs.len() ==> needs[j].0 != key);
            assert(s1.methods.get(key) == s2.methods.get(key));
            assert forall|k: MethodKey| #![trigger s1.methods.get(k)] (forall|j: int|
                #![trigger needs[j]]
                i <= j < needs.len() ==> needs[j].0 != k) implies s1.methods.get(k) == s.methods.get(k) by {
                assert(needs[i].0 != k);
            }
        }
    }
}

proof fn lemma_kept(
    sc: Sc,
    rs: Seq<Req>,
    i: int,
    seen: Seq<(DefId, Bound)>,
    impls: Seq<(Ty, Bound)>,
    keep: Seq<bool>,
    d: Seq<Diag>,
)
    requires
        0 <= i <= rs.len(),
        keep.len() == i,
    ensures
        ({
            let (impls1, keep1, d1) = distinct_requests(sc, rs, i, seen, impls, keep, d);
            &&& d1.len() >= d.len()
            &&& keep1.len() == rs.len()
            &&& forall|j: int| #![trigger keep1[j]] 0 <= j < i ==> keep1[j] == keep[j]
            &&& d1.len() == d.len() ==> forall|j: int| #![trigger keep1[j]] i <= j < rs.len() ==> keep1[j]
            &&& impls1.len() >= impls.len()
            &&& forall|j: int| #![trigger impls1[j]] 0 <= j < impls.len() ==> impls1[j] == impls[j]
        }),
    decreases rs.len() - i,
{
    if i < rs.len() {
        let r = rs[i];
        if seen.contains((r.owner, r.bound)) {
            let e = choose|e: Diag| distinct_requests(sc, rs, i, seen, impls, keep, d) == distinct_requests(
                sc,
                rs,
                i + 1,
                seen,
                impls,
                keep.push(false),
                d.push(e),
            );
            lemma_kept(sc, rs, i + 1, seen, impls, keep.push(false), d.push(e));
        } else {
            lemma_kept(
                sc,
                rs,
                i + 1,
                seen.push((r.owner, r.bound)),
                impls.push((r.owner_ty, r.bound)),
                keep.push(true),
                d,
            );
            let (impls1, keep1, d1) = distinct_requests(sc, rs, i, seen, impls, keep, d);
            assert(keep1[i] == keep.push(true)[i]);
        }
    }
}

/// Where the implementations are checked without an error, every type that is
/// declared to implement a trait has each method that the trait asks for, with the
/// receiver, the asynchrony, the number and the types and mutability of the
/// parameters, and the result of the trait's declaration, once the trait's
/// arguments are put in.
pub proof fn law_implementations_conform(sc: Sc, table: TraitLists, s: Sigs, d: Seq<Diag>, i: int, k: int)
    requires
        with_all_impls(sc, table, s, d).1.len() == 0,
        0 <= i < all_requests(sc, with_written_methods(sc, s, d).1).0.len(),
        0 <= k < methods_in(table, all_requests(sc, with_written_methods(sc, s, d).1).0[i].bound.trait_id).len(),
    ensures
        ({
            let r = all_requests(sc, with_written_methods(sc, s, d).1).0[i];
            let m = methods_in(table, r.bound.trait_id)[k];
            conforms(with_all_impls(sc, table, s, d).0, r, m.0, m.1.sig)
        }),
{
    let (s1, d1) = with_written_methods(sc, s, d);
    let (rs, d2) = all_requests(sc, d1);
    lemma_kept(sc, rs, 0, Seq::empty(), s1.impls, Seq::empty(), d2);
    let (impls, keep, d3) = distinct_requests(sc, rs, 0, Seq::empty(), s1.impls, Seq::empty(), d2);
    let s2 = Sigs { impls, ..s1 };
    lemma_all_needs(sc, s2, table, rs, keep, 0, Seq::empty(), d3);
    let (needs, d4) = all_needs(sc, s2, table, rs, keep, 0, Seq::empty(), d3);
    lemma_needs_met(needs, 0, s2, s2, d4);
    let (out, d5) = met_needs(needs, 0, s2, d4);
    let r = rs[i];
    let ms = methods_in(table, r.bound.trait_id);
    let m = ms[k];
    let by = chosen_args(s2, r);
    assert(keep[i]);
    assert(request_provided(needs, s2, table, r));
    let expected = required_sig(r, m.1, by);
    let key = (r.owner, m.0, domain_of_self(m.1.sig.self_param));
    assert(provided(needs, s2, key, expected));
    if asked_for(needs, key, expected) {
        let j = choose|j: int| #![trigger needs[j]] 0 <= j < needs.len() && needs[j].0 == key && alike(needs[j].1.sig, expected);
        let actual = out.method_of(key.0, key.1, key.2)->Some_0;
        assert(alike(actual, needs[j].1.sig));
        assert(alike(actual, expected));
    } else {
        assert(forall|j: int| #![trigger needs[j]] 0 <= j < needs.len() ==> needs[j].0 != key);
        assert(out.methods.get(key) == s2.methods.get(key));
    }
    let actual = out.method_of(key.0, key.1, key.2)->Some_0;
    assert(alike(actual, expected));
    assert(forall|p: int|
        #![trigger actual.params[p]]
        0 <= p < actual.params.len() ==> expected.params[p].ty == subst(m.1.sig.params[p].ty, by)
            && expected.params[p].mutable == m.1.sig.params[p].mutable);
}

// ---------------------------------------------------------------------
// Declared implementations
// ---------------------------------------------------------------------

/// Whether the first list is the beginning of the second.
pub open spec fn begins(a: Seq<Req>, b: Seq<Req>) -> bool {
    a.len() <= b.len() && forall|j: int| #![trigger b[j]] 0 <= j < a.len() ==> b[j] == a[j]
}

/// Whether an implementation of a trait for an owner is among the requests; `whole`
/// says whether it may take over default methods.
pub open spec fn requested(rs: Seq<Req>, owner: DefId, bound: Bound, whole: bool) -> bool {
    exists|j: int|
        #![trigger rs[j]]
        0 <= j < rs.len() && rs[j].owner == owner && rs[j].bound == bound && rs[j].allow_defaults == whole
}

proof fn lemma_requested(a: Seq<Req>, b: Seq<Req>, owner: DefId, bound: Bound, whole: bool)
    requires
        begins(a, b),
        requested(a, owner, bound, whole),
    ensures
        requested(b, owner, bound, whole),
{
    let j = choose|j: int|
        #![trigger a[j]]
        0 <= j < a.len() && a[j].owner == owner && a[j].bound == bound && a[j].allow_defaults == whole;
    assert(b[j] == a[j]);
}

/// The trait that a syntax names does not depend on what was reported before.
pub proof fn law_bounds_do_not_depend_on_errors(sc: Sc, t: TypeExpr, d: Seq<Diag>)
    ensures
        lowered_bound(sc, t, d).0 == lowered_bound(sc, t, Seq::empty()).0,
{
    law_bounds_name_traits(sc, t, d);
    law_bounds_name_traits(sc, t, Seq::empty());
    match (lowered_bound(sc, t, d).0, lowered_bound(sc, t, Seq::empty()).0) {
        (Some(a), Some(b)) => {
            assert(a.args =~= b.args);
        },
        _ => {},
    }
}

/// Whether a trait is `Send` or `Sync`.
pub open spec fn is_thread_marker(sc: Sc, id: DefId) -> bool {
    sc.name(id) == "Send"@ || sc.name(id) == "Sync"@
}

/// An impl block may implement a trait without an error exactly if it is `unsafe`
/// for `Send` and `Sync`, which then have no body, and not `unsafe` for any other.
pub proof fn law_markers_are_promised(sc: Sc, b: ImplBlock, id: DefId, span: crate::ids::Span, d: Seq<Diag>)
    ensures
        ({
            let (allowed, d1) = crate::impls::marker_rules(sc, b, id, span, d);
            &&& d1.len() == d.len() <==> b.is_unsafe == is_thread_marker(sc, id) && (is_thread_marker(sc, id)
                ==> b.methods@.len() == 0 && b.associated_consts@.len() == 0 && b.associated_types@.len() == 0)
            &&& allowed <==> b.is_unsafe == is_thread_marker(sc, id)
        }),
{
}

proof fn lemma_block_requests(sc: Sc, b: ImplBlock, owner: DefId, i: int, acc: Seq<Req>, d: Seq<Diag>, k: int)
    requires
        0 <= i,
    ensures
        begins(acc, block_requests(sc, b, owner, i, acc, d).0),
        i <= k < b.traits@.len() ==> (lowered_bound(sc, b.traits@[k], Seq::empty()).0 matches Some(bound) ==> (b.is_unsafe
            == is_thread_marker(sc, bound.trait_id) ==> requested(
            block_requests(sc, b, owner, i, acc, d).0,
            owner,
            bound,
            false,
        ))),
    decreases b.traits@.len() - i,
{
    if i < b.traits@.len() {
        let span = crate::ast::type_span(b.traits@[i]);
        let (low, d1) = lowered_bound(sc, b.traits@[i], d);
        law_bounds_do_not_depend_on_errors(sc, b.traits@[i], d);
        match low {
            None => lemma_block_requests(sc, b, owner, i + 1, acc, d1, k),
            Some(bound) => {
                let (allowed, d2) = crate::impls::marker_rules(sc, b, bound.trait_id, span, d1);
                law_markers_are_promised(sc, b, bound.trait_id, span, d1);
                if !allowed {
                    lemma_block_requests(sc, b, owner, i + 1, acc, d2, k);
                } else {
                    let (params, d3) = crate::owners::impl_params(sc, b, owner, d2);
                    let req = Req {
                        owner,
                        owner_ty: crate::owners::owner_type(
                            sc,
                            owner,
                            crate::owners::as_parameters(crate::owners::names_in(params)),
                        ),
                        owner_name: b.target.name@,
                        span,
                        params,
                        bound,
                        allow_defaults: false,
                    };
                    let acc1 = acc.push(req);
                    lemma_block_requests(sc, b, owner, i + 1, acc1, d3, k);
                    let rs = block_requests(sc, b, owner, i, acc, d).0;
                    assert forall|j: int| #![trigger rs[j]] 0 <= j < acc.len() implies rs[j] == acc[j] by {
                        assert(acc1[j] == acc[j]);
                    }
                    assert(acc1[acc.len() as int] == req);
                    assert(requested(acc1, owner, bound, false));
                    lemma_requested(acc1, rs, owner, bound, false);
                }
            },
        }
    }
}

proof fn lemma_impl_requests(sc: Sc, i: int, acc: Seq<Req>, d: Seq<Diag>, at: int, k: int)
    requires
        0 <= i,
    ensures
        begins(acc, impl_requests(sc, i, acc, d).0),
        i <= at < sc.module.items@.len() ==> (sc.module.items@[at] matches Item::Impl(b) ==> (sc.defs().found_in(
            b.span.file,
            b.target.name@,
        ) matches Some(owner) ==> (0 <= k < b.traits@.len() ==> (lowered_bound(sc, b.traits@[k], Seq::empty()).0
            matches Some(bound) ==> (b.is_unsafe == is_thread_marker(sc, bound.trait_id) ==> requested(
            impl_requests(sc, i, acc, d).0,
            owner,
            bound,
            false,
        )))))),
    decreases sc.module.items@.len() - i,
{
    if i < sc.module.items@.len() {
        let rs = impl_requests(sc, i, acc, d).0;
        match sc.module.items@[i] {
            Item::Impl(b) => match sc.defs().found_in(b.span.file, b.target.name@) {
                Some(owner) => {
                    let d0 = if b.is_unsafe && b.traits@.len() == 0 {
                        d.push(
                            crate::diagnostics::diag(
                                "`unsafe impl` is only allowed for the `Send`/`Sync` marker traits"@,
                                b.span,
                                "not a marker trait"@,
                            ),
                        )
                    } else {
                        d
                    };
                    lemma_block_requests(sc, b, owner, 0, acc, d0, k);
                    let (acc1, d1) = block_requests(sc, b, owner, 0, acc, d0);
                    lemma_impl_requests(sc, i + 1, acc1, d1, at, k);
                    assert forall|j: int| #![trigger rs[j]] 0 <= j < acc.len() implies rs[j] == acc[j] by {
                        assert(acc1[j] == acc[j]);
                    }
                    if at == i && 0 <= k < b.traits@.len() {
                        if let Some(bound) = lowered_bound(sc, b.traits@[k], Seq::empty()).0 {
                            if b.is_unsafe == is_thread_marker(sc, bound.trait_id) {
                                lemma_requested(acc1, rs, owner, bound, false);
                            }
                        }
                    }
                },
                None => lemma_impl_requests(sc, i + 1, acc, d, at, k),
            },
            _ => lemma_impl_requests(sc, i + 1, acc, d, at, k),
        }
    }
}

proof fn lemma_listed_requests(sc: Sc, owner: DefId, name: Seq<char>, refs: Seq<TypeExpr>, i: int, acc: Seq<Req>, d: Seq<Diag>, k: int)
    requires
        0 <= i,
    ensures
        begins(acc, listed_requests(sc, owner, name, refs, i, acc, d).0),
        i <= k < refs.len() ==> (lowered_bound(sc, refs[k], Seq::empty()).0 matches Some(bound) ==> (!is_thread_marker(
            sc,
            bound.trait_id,
        ) ==> requested(listed_requests(sc, owner, name, refs, i, acc, d).0, owner, bound, true))),
    decreases refs.len() - i,
{
    if i < refs.len() {
        let (b, d1) = lowered_bound(sc, refs[i], d);
        law_bounds_do_not_depend_on_errors(sc, refs[i], d);
        match b {
            None => lemma_listed_requests(sc, owner, name, refs, i + 1, acc, d1, k),
            Some(bound) => if thread_marker(sc, bound.trait_id) {
                let d2 = d1.push(crate::impls::safe_marker_error(crate::ast::type_span(refs[i])));
                lemma_listed_requests(sc, owner, name, refs, i + 1, acc, d2, k);
            } else {
                let (params, d2) = crate::declarations::bounded_params_from(
                    sc,
                    crate::owners::declared_params(sc, owner),
                    0,
                    Seq::empty(),
                    d1,
                );
                let req = Req {
                    owner,
                    owner_ty: crate::owners::owner_type(
                        sc,
                        owner,
                        crate::owners::as_parameters(crate::owners::names_in(params)),
                    ),
                    owner_name: name,
                    span: crate::ast::type_span(refs[i]),
                    params,
                    bound,
                    allow_defaults: true,
                };
                let acc1 = acc.push(req);
                lemma_listed_requests(sc, owner, name, refs, i + 1, acc1, d2, k);
                let rs = listed_requests(sc, owner, name, refs, i, acc, d).0;
                assert forall|j: int| #![trigger rs[j]] 0 <= j < acc.len() implies rs[j] == acc[j] by {
                    assert(acc1[j] == acc[j]);
                }
                assert(acc1[acc.len() as int] == req);
                assert(requested(acc1, owner, bound, true));
                lemma_requested(acc1, rs, owner, bound, true);
            },
        }
    }
}

proof fn lemma_struct_requests(sc: Sc, i: int, acc: Seq<Req>, d: Seq<Diag>, at: int, k: int)
    requires
        0 <= i,
    ensures
        begins(acc, struct_requests(sc, i, acc, d).0),
        i <= at < sc.decls.types.len() ==> (sc.struct_decl(sc.decls.types[at].0) matches Some(t) ==> (0 <= k
            < t.traits@.len() ==> (lowered_bound(sc, t.traits@[k], Seq::empty()).0 matches Some(bound) ==> (
        !is_thread_marker(sc, bound.trait_id) ==> requested(
            struct_requests(sc, i, acc, d).0,
            sc.decls.types[at].0,
            bound,
            true,
        ))))),
    decreases sc.decls.types.len() - i,
{
    if i < sc.decls.types.len() {
        let id = sc.decls.types[i].0;
        let rs = struct_requests(sc, i, acc, d).0;
        match sc.struct_decl(id) {
            Some(t) => {
                lemma_listed_requests(sc, id, t.name.name@, t.traits@, 0, acc, d, k);
                let (acc1, d1) = listed_requests(sc, id, t.name.name@, t.traits@, 0, acc, d);
                lemma_struct_requests(sc, i + 1, acc1, d1, at, k);
                assert forall|j: int| #![trigger rs[j]] 0 <= j < acc.len() implies rs[j] == acc[j] by {
                    assert(acc1[j] == acc[j]);
                }
                if at == i && 0 <= k < t.traits@.len() {
                    if let Some(bound) = lowered_bound(sc, t.traits@[k], Seq::empty()).0 {
                        if !is_thread_marker(sc, bound.trait_id) {
                            lemma_requested(acc1, rs, id, bound, true);
                        }
                    }
                }
            },
            None => lemma_struct_requests(sc, i + 1, acc, d, at, k),
        }
    }
}

proof fn lemma_enum_requests(sc: Sc, i: int, acc: Seq<Req>, d: Seq<Diag>, at: int, k: int)
    requires
        0 <= i,
    ensures
        begins(acc, enum_requests(sc, i, acc, d).0),
        i <= at < sc.decls.enums.len() ==> (sc.enum_decl(sc.decls.enums[at].0) matches Some(t) ==> (0 <= k
            < t.traits@.len() ==> (lowered_bound(sc, t.traits@[k], Seq::empty()).0 matches Some(bound) ==> (
        !is_thread_marker(sc, bound.trait_id) ==> requested(
            enum_requests(sc, i, acc, d).0,
            sc.decls.enums[at].0,
            bound,
            true,
        ))))),
    decreases sc.decls.enums.len() - i,
{
    if i < sc.decls.enums.len() {
        let id = sc.decls.enums[i].0;
        let rs = enum_requests(sc, i, acc, d).0;
        match sc.enum_decl(id) {
            Some(t) => {
                lemma_listed_requests(sc, id, t.name.name@, t.traits@, 0, acc, d, k);
                let (acc1, d1) = listed_requests(sc, id, t.name.name@, t.traits@, 0, acc, d);
                lemma_enum_requests(sc, i + 1, acc1, d1, at, k);
                assert forall|j: int| #![trigger rs[j]] 0 <= j < acc.len() implies rs[j] == acc[j] by {
                    assert(acc1[j] == acc[j]);
                }
                if at == i && 0 <= k < t.traits@.len() {
                    if let Some(bound) = lowered_bound(sc, t.traits@[k], Seq::empty()).0 {
                        if !is_thread_marker(sc, bound.trait_id) {
                            lemma_requested(acc1, rs, id, bound, true);
                        }
                    }
                }
            },
            None => lemma_enum_requests(sc, i + 1, acc, d, at, k),
        }
    }
}

/// Whether an owner has every method that a trait asks for, as the trait declares
/// it, with these arguments of the trait put in.
pub open spec fn fulfils(s: Sigs, table: TraitLists, owner: DefId, bound: Bound) -> bool {
    forall|k: int|
        #![trigger methods_in(table, bound.trait_id)[k]]
        0 <= k < methods_in(table, bound.trait_id).len() ==> {
            let m = methods_in(table, bound.trait_id)[k];
            s.method_of(owner, m.0, domain_of_self(m.1.sig.self_param)) matches Some(actual) && exists|own: nat| #[trigger]
                stands_for(actual, m.1.sig, zip_subst(s.generics_of_trait(bound.trait_id), bound.args), own)
        }
}

proof fn lemma_requested_fulfils(sc: Sc, table: TraitLists, s: Sigs, d: Seq<Diag>, owner: DefId, bound: Bound, whole: bool)
    requires
        with_all_impls(sc, table, s, d).1.len() == 0,
        requested(all_requests(sc, with_written_methods(sc, s, d).1).0, owner, bound, whole),
    ensures
        fulfils(with_all_impls(sc, table, s, d).0, table, owner, bound),
        exists|j: int|
            #![trigger with_all_impls(sc, table, s, d).0.impls[j]]
            0 <= j < with_all_impls(sc, table, s, d).0.impls.len() && with_all_impls(sc, table, s, d).0.impls[j].1
                == bound,
{
    let rs = all_requests(sc, with_written_methods(sc, s, d).1).0;
    let out = with_all_impls(sc, table, s, d).0;
    let i = choose|i: int|
        #![trigger rs[i]]
        0 <= i < rs.len() && rs[i].owner == owner && rs[i].bound == bound && rs[i].allow_defaults == whole;
    assert forall|k: int| #![trigger methods_in(table, bound.trait_id)[k]] 0 <= k < methods_in(
        table,
        bound.trait_id,
    ).len() implies {
        let m = methods_in(table, bound.trait_id)[k];
        out.method_of(owner, m.0, domain_of_self(m.1.sig.self_param)) matches Some(actual) && exists|own: nat| #[trigger]
            stands_for(actual, m.1.sig, zip_subst(out.generics_of_trait(bound.trait_id), bound.args), own)
    } by {
        law_implementations_conform(sc, table, s, d, i, k);
        let m = methods_in(table, bound.trait_id)[k];
        let actual = out.method_of(owner, m.0, domain_of_self(m.1.sig.self_param))->Some_0;
        assert(stands_for(
            actual,
            m.1.sig,
            zip_subst(out.generics_of_trait(bound.trait_id), bound.args),
            rs[i].params.len(),
        ));
    }
    let (s1, d1) = with_written_methods(sc, s, d);
    let d2 = all_requests(sc, d1).1;
    lemma_kept(sc, rs, 0, Seq::empty(), s1.impls, Seq::empty(), d2);
    let (impls, keep, d3) = distinct_requests(sc, rs, 0, Seq::empty(), s1.impls, Seq::empty(), d2);
    let s2 = Sigs { impls, ..s1 };
    lemma_all_needs(sc, s2, table, rs, keep, 0, Seq::empty(), d3);
    let (needs, d4) = all_needs(sc, s2, table, rs, keep, 0, Seq::empty(), d3);
    lemma_needs_met(needs, 0, s2, s2, d4);
    lemma_listed_impls(sc, rs, 0, Seq::empty(), s1.impls, Seq::empty(), d2, i);
    let j = choose|j: int| #![trigger impls[j]] 0 <= j < impls.len() && impls[j] == (rs[i].owner_ty, rs[i].bound);
    assert(out.impls[j].1 == bound);
}

proof fn lemma_listed_impls(
    sc: Sc,
    rs: Seq<Req>,
    i: int,
    seen: Seq<(DefId, Bound)>,
    impls: Seq<(Ty, Bound)>,
    keep: Seq<bool>,
    d: Seq<Diag>,
    k: int,
)
    requires
        0 <= i <= k < rs.len(),
        keep.len() == i,
        distinct_requests(sc, rs, i, seen, impls, keep, d).2.len() == d.len(),
    ensures
        ({
            let impls1 = distinct_requests(sc, rs, i, seen, impls, keep, d).0;
            exists|j: int| #![trigger impls1[j]] 0 <= j < impls1.len() && impls1[j] == (rs[k].owner_ty, rs[k].bound)
        }),
    decreases rs.len() - i,
{
    let r = rs[i];
    let impls1 = distinct_requests(sc, rs, i, seen, impls, keep, d).0;
    if seen.contains((r.owner, r.bound)) {
        let e = choose|e: Diag| distinct_requests(sc, rs, i, seen, impls, keep, d) == distinct_requests(
            sc,
            rs,
            i + 1,
            seen,
            impls,
            keep.push(false),
            d.push(e),
        );
        lemma_kept(sc, rs, i + 1, seen, impls, keep.push(false), d.push(e));
    } else {
        let seen2 = seen.push((r.owner, r.bound));
        let impls2 = impls.push((r.owner_ty, r.bound));
        lemma_kept(sc, rs, i + 1, seen2, impls2, keep.push(true), d);
        if i == k {
            assert(impls2[impls.len() as int] == (r.owner_ty, r.bound));
            assert(impls1[impls.len() as int] == (rs[k].owner_ty, rs[k].bound));
        } else {
            lemma_listed_impls(sc, rs, i + 1, seen2, impls2, keep.push(true), d, k);
        }
    }
}

/// Where the implementations are checked without an error, the owner of every impl
/// block has what each trait of the block asks for, as the trait declares it, with
/// the arguments that the block gives the trait put in.
pub proof fn law_impl_blocks_fulfil_their_traits(
    sc: Sc,
    table: TraitLists,
    s: Sigs,
    d: Seq<Diag>,
    i: int,
    k: int,
    b: ImplBlock,
    owner: DefId,
    bound: Bound,
)
    requires
        with_all_impls(sc, table, s, d).1.len() == 0,
        0 <= i < sc.module.items@.len(),
        sc.module.items@[i] == Item::Impl(b),
        sc.defs().found_in(b.span.file, b.target.name@) == Some(owner),
        0 <= k < b.traits@.len(),
        lowered_bound(sc, b.traits@[k], Seq::empty()).0 == Some(bound),
        b.is_unsafe == is_thread_marker(sc, bound.trait_id),
    ensures
        fulfils(with_all_impls(sc, table, s, d).0, table, owner, bound),
{
    let d1 = with_written_methods(sc, s, d).1;
    let (a, d2) = struct_requests(sc, 0, Seq::empty(), d1);
    let (c, d3) = enum_requests(sc, 0, a, d2);
    lemma_impl_requests(sc, 0, c, d3, i, k);
    lemma_requested_fulfils(sc, table, s, d, owner, bound, false);
}

/// The same of the traits that a struct's declaration lists, from defaults where
/// the owner writes no method.
pub proof fn law_structs_fulfil_their_traits(sc: Sc, table: TraitLists, s: Sigs, d: Seq<Diag>, i: int, k: int, bound: Bound)
    requires
        with_all_impls(sc, table, s, d).1.len() == 0,
        0 <= i < sc.decls.types.len(),
        sc.struct_decl(sc.decls.types[i].0) matches Some(t) && 0 <= k < t.traits@.len() && lowered_bound(
            sc,
            t.traits@[k],
            Seq::empty(),
        ).0 == Some(bound),
        !is_thread_marker(sc, bound.trait_id),
    ensures
        fulfils(with_all_impls(sc, table, s, d).0, table, sc.decls.types[i].0, bound),
{
    let d1 = with_written_methods(sc, s, d).1;
    lemma_struct_requests(sc, 0, Seq::empty(), d1, i, k);
    let (a, d2) = struct_requests(sc, 0, Seq::empty(), d1);
    lemma_enum_requests(sc, 0, a, d2, 0, 0);
    let (c, d3) = enum_requests(sc, 0, a, d2);
    lemma_impl_requests(sc, 0, c, d3, 0, 0);
    lemma_requested(a, c, sc.decls.types[i].0, bound, true);
    lemma_requested(c, impl_requests(sc, 0, c, d3).0, sc.decls.types[i].0, bound, true);
    lemma_requested_fulfils(sc, table, s, d, sc.decls.types[i].0, bound, true);
}

/// The same of the traits that an enum's declaration lists.
pub proof fn law_enums_fulfil_their_traits(sc: Sc, table: TraitLists, s: Sigs, d: Seq<Diag>, i: int, k: int, bound: Bound)
    requires
        with_all_impls(sc, table, s, d).1.len() == 0,
        0 <= i < sc.decls.enums.len(),
        sc.enum_decl(sc.decls.enums[i].0) matches Some(t) && 0 <= k < t.traits@.len() && lowered_bound(
            sc,
            t.traits@[k],
            Seq::empty(),
        ).0 == Some(bound),
        !is_thread_marker(sc, bound.trait_id),
    ensures
        fulfils(with_all_impls(sc, table, s, d).0, table, sc.decls.enums[i].0, bound),
{
    let d1 = with_written_methods(sc, s, d).1;
    let (a, d2) = struct_requests(sc, 0, Seq::empty(), d1);
    lemma_enum_requests(sc, 0, a, d2, i, k);
    let (c, d3) = enum_requests(sc, 0, a, d2);
    lemma_impl_requests(sc, 0, c, d3, 0, 0);
    lemma_requested(c, impl_requests(sc, 0, c, d3).0, sc.decls.enums[i].0, bound, true);
    lemma_requested_fulfils(sc, table, s, d, sc.decls.enums[i].0, bound, true);
}

// ---------------------------------------------------------------------
// Specializations
// ---------------------------------------------------------------------

/// A specialization of a method has the receiver, the parameters and the result of
/// the general method, with its concrete arguments put in for the owner's
/// parameters: that and that the general method is a default are its only errors.
pub proof fn law_specializations_conform(
    sc: Sc,
    r: crate::impls::Raw,
    args: Seq<Ty>,
    general: Sig,
    sets: Map<MethodKey, Methods>,
    defaults: Seq<MethodKey>,
    d: Seq<Diag>,
)
    requires
        r.specialization == Some(args),
        sets.contains_key(crate::impls::raw_key(r)),
        sets[crate::impls::raw_key(r)].generic == Some(general),
        crate::impls::specialization_errors(sc, r, sets, defaults, d).len() == d.len(),
    ensures
        defaults.contains(crate::impls::raw_key(r)),
        r.sig.self_param == general.self_param,
        r.sig.params.len() == general.params.len(),
        general.generics.len() == r.sig.generics.len() + crate::owners::declared_params(sc, r.owner).len(),
        exists|by: Subst| #[trigger]
            same_under(r.sig, general, by) && by == zip_subst(
                crate::owners::names_in(general.generics.take(crate::owners::declared_params(sc, r.owner).len() as int)),
                args,
            ),
{
    let n = crate::owners::declared_params(sc, r.owner).len();
    let by = zip_subst(crate::owners::names_in(general.generics.take(n as int)), args);
    assert(crate::owners::specialization_fits(sc, r.owner, general, args, r.sig));
    let expected = crate::owners::sig_subst(general, by);
    assert forall|i: int| #![trigger r.sig.params[i]] 0 <= i < r.sig.params.len() implies r.sig.params[i].ty == subst(
        general.params[i].ty,
        by,
    ) && r.sig.params[i].mutable == general.params[i].mutable by {
        assert(expected.params[i].ty == subst(general.params[i].ty, by));
    }
    assert(same_under(r.sig, general, by));
}

/// Whether a method's parameters and result are those of another with types put in.
pub open spec fn same_under(a: Sig, b: Sig, by: Subst) -> bool {
    &&& a.ret == subst(b.ret, by)
    &&& a.params.len() == b.params.len()
    &&& forall|i: int|
        #![trigger a.params[i]]
        0 <= i < a.params.len() ==> a.params[i].ty == subst(b.params[i].ty, by) && a.params[i].mutable
            == b.params[i].mutable
}

// ---------------------------------------------------------------------
// Defaults
// ---------------------------------------------------------------------

/// Asking for a method once more keeps what was asked for. It is ambiguous if it was, if
/// the two askings differ, or if the trait's default is; and a default that was not
/// offered before is offered, with the trait's arguments put in.
pub proof fn law_offered_defaults(need: Need, expected: Sig, m: crate::traits::MethodV, by: Subst)
    ensures
        ({
            let r = with_requirement(need, expected, m, by);
            &&& r.sig == need.sig
            &&& r.ambiguous <==> need.ambiguous || m.ambiguous_default || !alike(need.sig, expected)
            &&& forall|k: int|
                #![trigger r.defaults[k]]
                0 <= k < need.defaults.len() ==> r.defaults[k] == need.defaults[k]
            &&& m.default is None ==> r.defaults == need.defaults
            &&& m.default matches Some(default) ==> exists|k: int|
                #![trigger r.defaults[k]]
                0 <= k < r.defaults.len() && r.defaults[k].source == default.source && forall|n: Seq<char>|
                    #![trigger r.defaults[k].subst.contains_key(n)]
                    (r.defaults[k].subst.contains_key(n) <==> default.subst.contains_key(n)) && (
                    default.subst.contains_key(n) ==> r.defaults[k].subst[n] == subst(default.subst[n], by))
        }),
{
    let r = with_requirement(need, expected, m, by);
    let (x, y) = (need.sig, expected);
    assert(crate::owners::sigs_match(x, y) <==> alike(x, y)) by {
        if crate::owners::sigs_match(x, y) {
            assert forall|i: int| #![trigger x.params[i]] #![trigger y.params[i]] 0 <= i < x.params.len() implies x.params[i].ty
                == y.params[i].ty && x.params[i].mutable == y.params[i].mutable by {
                assert(x.params[i] == x.params[i]);
            }
        }
    }
    if let Some(default) = m.default {
        let choice = crate::traits::subst_values(default.subst, by);
        if crate::impls::has_candidate(need.defaults, default.source, choice, 0) {
            lemma_candidate(need.defaults, default.source, choice, 0);
            let k = choose|k: int|
                #![trigger need.defaults[k]]
                0 <= k < need.defaults.len() && need.defaults[k].source == default.source && need.defaults[k].subst
                    == choice;
            assert(r.defaults[k] == need.defaults[k]);
        } else {
            let k = need.defaults.len() as int;
            assert(r.defaults[k].source == default.source && r.defaults[k].subst == choice);
        }
    }
}

proof fn lemma_candidate(cs: Seq<crate::impls::Candidate>, source: DefId, m: Subst, i: int)
    requires
        0 <= i,
        crate::impls::has_candidate(cs, source, m, i),
    ensures
        exists|k: int| #![trigger cs[k]] i <= k < cs.len() && cs[k].source == source && cs[k].subst == m,
    decreases cs.len() - i,
{
    if !(cs[i].source == source && cs[i].subst == m) {
        lemma_candidate(cs, source, m, i + 1);
    }
}

/// Missing methods are met without an error only if each is asked for without ambiguity
/// and has exactly one default; the method is then that default, and it is noted where it
/// comes from and with which choices.
pub proof fn law_missing_methods_take_the_one_default(needs: Seq<(MethodKey, Need)>, i: int, s: Sigs, d: Seq<Diag>, k: int)
    requires
        0 <= i <= k < needs.len(),
        forall|a: int, b: int| #![trigger needs[a], needs[b]] 0 <= a < b < needs.len() ==> needs[a].0 != needs[b].0,
        met_needs(needs, i, s, d).1.len() == d.len(),
    ensures
        ({
            let out = met_needs(needs, i, s, d).0;
            let (key, need) = needs[k];
            &&& !need.ambiguous
            &&& need.defaults.len() == 1
            &&& out.method_of(key.0, key.1, key.2) == Some(need.defaults[0].sig)
            &&& out.default_method_sources.get(key) == Some(need.defaults[0].source)
            &&& out.default_method_substitutions.get(key) == Some(need.defaults[0].subst)
        }),
    decreases needs.len() - i,
{
    let key = needs[i].0;
    let need = needs[i].1;
    if need.ambiguous || need.defaults.len() != 1 || crate::impls::static_clash(s.methods, key) {
        let e = choose|e: Diag| met_needs(needs, i, s, d) == met_needs(needs, i + 1, s, d.push(e));
        lemma_met_reports(needs, i + 1, s, d.push(e));
    } else {
        let c = need.defaults[0];
        let set = match s.methods.get(key) {
            Some(set) => set,
            None => Methods::none(),
        };
        let s2 = Sigs {
            methods: s.methods.insert(key, Methods { generic: Some(c.sig), ..set }),
            default_method_substitutions: s.default_method_substitutions.insert(key, c.subst),
            default_method_sources: s.default_method_sources.insert(key, c.source),
            ..s
        };
        if i < k {
            law_missing_methods_take_the_one_default(needs, i + 1, s2, d, k);
        } else {
            assert(forall|j: int| #![trigger needs[j]] i + 1 <= j < needs.len() ==> needs[j].0 != key);
            lemma_met_elsewhere(needs, i + 1, s2, d, key);
        }
    }
}

proof fn lemma_met_reports(needs: Seq<(MethodKey, Need)>, i: int, s: Sigs, d: Seq<Diag>)
    ensures
        met_needs(needs, i, s, d).1.len() >= d.len(),
    decreases needs.len() - i,
{
    if 0 <= i < needs.len() {
        let key = needs[i].0;
        let need = needs[i].1;
        if need.ambiguous || need.defaults.len() != 1 || crate::impls::static_clash(s.methods, key) {
            let e = choose|e: Diag| met_needs(needs, i, s, d) == met_needs(needs, i + 1, s, d.push(e));
            lemma_met_reports(needs, i + 1, s, d.push(e));
        } else {
            let c = need.defaults[0];
            let set = match s.methods.get(key) {
                Some(set) => set,
                None => Methods::none(),
            };
            let s2 = Sigs {
                methods: s.methods.insert(key, Methods { generic: Some(c.sig), ..set }),
                default_method_substitutions: s.default_method_substitutions.insert(key, c.subst),
                default_method_sources: s.default_method_sources.insert(key, c.source),
                ..s
            };
            lemma_met_reports(needs, i + 1, s2, d);
        }
    }
}

proof fn lemma_met_elsewhere(needs: Seq<(MethodKey, Need)>, i: int, s: Sigs, d: Seq<Diag>, key: MethodKey)
    requires
        0 <= i,
        forall|j: int| #![trigger needs[j]] i <= j < needs.len() ==> needs[j].0 != key,
    ensures
        met_needs(needs, i, s, d).0.methods.get(key) == s.methods.get(key),
        met_needs(needs, i, s, d).0.default_method_sources.get(key) == s.default_method_sources.get(key),
        met_needs(needs, i, s, d).0.default_method_substitutions.get(key) == s.default_method_substitutions.get(key),
    decreases needs.len() - i,
{
    if i < needs.len() {
        let at = needs[i].0;
        let need = needs[i].1;
        if need.ambiguous || need.defaults.len() != 1 || crate::impls::static_clash(s.methods, at) {
            let e = choose|e: Diag| met_needs(needs, i, s, d) == met_needs(needs, i + 1, s, d.push(e));
            lemma_met_elsewhere(needs, i + 1, s, d.push(e), key);
        } else {
            let c = need.defaults[0];
            let set = match s.methods.get(at) {
                Some(set) => set,
                None => Methods::none(),
            };
            let s2 = Sigs {
                methods: s.methods.insert(at, Methods { generic: Some(c.sig), ..set }),
                default_method_substitutions: s.default_method_substitutions.insert(at, c.subst),
                default_method_sources: s.default_method_sources.insert(at, c.source),
                ..s
            };
            lemma_met_elsewhere(needs, i + 1, s2, d, key);
        }
    }
}

/// Implementations are told apart without an error only if no owner implements a trait
/// with the same arguments twice.
pub proof fn law_nothing_is_implemented_twice(
    sc: Sc,
    rs: Seq<Req>,
    i: int,
    seen: Seq<(DefId, Bound)>,
    impls: Seq<(Ty, Bound)>,
    keep: Seq<bool>,
    d: Seq<Diag>,
    a: int,
    b: int,
)
    requires
        0 <= i,
        i <= b < rs.len(),
        0 <= a < b,
        keep.len() == i,
        forall|j: int| #![trigger rs[j]] 0 <= j < i ==> seen.contains((rs[j].owner, rs[j].bound)),
        distinct_requests(sc, rs, i, seen, impls, keep, d).2.len() == d.len(),
    ensures
        rs[a].owner != rs[b].owner || rs[a].bound != rs[b].bound,
    decreases rs.len() - i,
{
    let r = rs[i];
    if seen.contains((r.owner, r.bound)) {
        let e = choose|e: Diag| distinct_requests(sc, rs, i, seen, impls, keep, d) == distinct_requests(
            sc,
            rs,
            i + 1,
            seen,
            impls,
            keep.push(false),
            d.push(e),
        );
        lemma_kept(sc, rs, i + 1, seen, impls, keep.push(false), d.push(e));
    } else if i == b {
        assert(seen.contains((rs[a].owner, rs[a].bound)));
    } else {
        let seen2 = seen.push((r.owner, r.bound));
        assert forall|j: int| #![trigger rs[j]] 0 <= j < i + 1 implies seen2.contains((rs[j].owner, rs[j].bound)) by {
            if j < i {
                let q = choose|q: int| 0 <= q < seen.len() && seen[q] == (rs[j].owner, rs[j].bound);
                assert(seen2[q] == seen[q]);
            } else {
                assert(seen2[seen.len() as int] == (r.owner, r.bound));
            }
        }
        law_nothing_is_implemented_twice(
            sc,
            rs,
            i + 1,
            seen2,
            impls.push((r.owner_ty, r.bound)),
            keep.push(true),
            d,
            a,
            b,
        );
    }
}

} // verus!
