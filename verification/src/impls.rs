//! The methods of types, from impl blocks and trait defaults.
use crate::ast::{type_span, ImplBlock, Item, TypeExpr};
use crate::datum::{copy_then, lemma_deep_len, occurs, put, Datum, Dup};
use crate::declarations::{bounded_params_from, signature_of};
use crate::diagnostics::{diag, report, Diag, Diagnostic};
use crate::ids::{DefId, Span, Symbol};
use crate::lower::{lowered_bound, Sc, Scope};
use crate::owners::{
    as_parameters, declared_params, impl_params, method_signatures_match, names_in, owner_type, sig_subst, sigs_match,
    specialization_args, specialization_fits, specialize_fn_sig, Params,
};
use crate::sig::{
    domain_of_self, specialized, Bound, FnSig, GenericBound, MethodSet, Methods, ReceiverDomain, Sig, Signatures, Sigs,
};
use crate::subst::{zip_subst, zip_types, Subst};
use crate::table::{pair_get, pair_set, Table};
use crate::text::{cat3, cat5, cat7};
use crate::traits::{
    methods_in, subst_values, substitute_values, MethodList, MethodV, TraitLists, TraitMethod, TraitMethodTable,
};
use crate::ty::{group_tys, str_eq, Ty, Type};
use vstd::prelude::*;

verus! {

broadcast use group_tys, lemma_deep_len;

/// A method of a type: its owner, its name and its receiver's domain.
pub type MethodKey = (DefId, Seq<char>, ReceiverDomain);

/// A method as it is written.
pub struct RawMethod {
    pub owner: DefId,
    pub owner_name: Symbol,
    pub name: Symbol,
    pub name_span: Span,
    pub specialization: Option<Vec<Type>>,
    pub sig: FnSig,
    pub is_default: bool,
}

/// What a [`RawMethod`] denotes.
pub struct Raw {
    pub owner: DefId,
    pub owner_name: Seq<char>,
    pub name: Seq<char>,
    pub name_span: Span,
    pub specialization: Option<Seq<Ty>>,
    pub sig: Sig,
    pub is_default: bool,
}

impl DeepView for RawMethod {
    type V = Raw;

    open spec fn deep_view(&self) -> Raw {
        Raw {
            owner: self.owner,
            owner_name: self.owner_name@,
            name: self.name@,
            name_span: self.name_span,
            specialization: self.specialization.deep_view(),
            sig: self.sig.deep_view(),
            is_default: self.is_default,
        }
    }
}

/// A signature with an owner's parameters put before its own.
pub open spec fn with_owner_params(sig: Sig, params: Params) -> Sig {
    Sig { generics: params + sig.generics, ..sig }
}

/// The methods of an impl block from the `i`-th on, after `acc`.
pub open spec fn raw_methods(
    sc: Sc,
    b: ImplBlock,
    owner: DefId,
    params: Params,
    specialization: Option<Seq<Ty>>,
    i: int,
    acc: Seq<Raw>,
    d: Seq<Diag>,
) -> (Seq<Raw>, Seq<Diag>)
    decreases b.methods@.len() - i,
{
    if 0 <= i < b.methods@.len() {
        let m = b.methods@[i];
        if specialization is Some && m.self_param is None {
            raw_methods(
                sc,
                b,
                owner,
                params,
                specialization,
                i + 1,
                acc,
                d.push(
                    diag(
                        "a concrete specialization cannot override a static method yet — only `self`/`mut self` methods"@,
                        m.name.span,
                        "here"@,
                    ),
                ),
            )
        } else {
            let (sig, d1) = signature_of(sc, m, d);
            let raw = Raw {
                owner,
                owner_name: b.target.name@,
                name: m.name.name@,
                name_span: m.name.span,
                specialization,
                sig: with_owner_params(sig, params),
                is_default: b.is_default,
            };
            raw_methods(sc, b, owner, params, specialization, i + 1, acc.push(raw), d1)
        }
    } else {
        (acc, d)
    }
}

/// The methods of an impl block, after `acc`.
pub open spec fn raw_block(sc: Sc, b: ImplBlock, owner: DefId, acc: Seq<Raw>, s: Sigs, d: Seq<Diag>) -> (
    Seq<Raw>,
    Sigs,
    Seq<Diag>,
) {
    let (params, d1) = impl_params(sc, b, owner, d);
    let (specialization, d2) = specialization_args(sc, b, owner, d1);
    let d3 = if b.is_default && params.len() == 0 {
        d2.push(
            diag("a `default` impl must be a generic fallback implementation"@, b.span, "in this `impl` block"@),
        )
    } else {
        d2
    };
    let (s1, d4) = match specialization {
        Some(args) => (
            Sigs { impl_specializations: s.impl_specializations.insert(b.id, args), ..s },
            if b.traits@.len() > 0 {
                d3.push(
                    diag(
                        "a concrete specialization (`impl Owner<ConcreteArgs>`) cannot also implement a trait yet"@,
                        b.span,
                        "in this `impl` block"@,
                    ),
                )
            } else {
                d3
            },
        ),
        None => (s, d3),
    };
    let (raws, d5) = raw_methods(sc, b, owner, params, specialization, 0, acc, d4);
    (raws, s1, d5)
}

/// The methods of the impl blocks from the `i`-th item on, after `acc`.
pub open spec fn raw_from(sc: Sc, i: int, acc: Seq<Raw>, s: Sigs, d: Seq<Diag>) -> (Seq<Raw>, Sigs, Seq<Diag>)
    decreases sc.module.items@.len() - i,
{
    if 0 <= i < sc.module.items@.len() {
        let (acc1, s1, d1) = match sc.module.items@[i] {
            Item::Impl(b) => match sc.defs().found_in(b.span.file, b.target.name@) {
                Some(owner) => raw_block(sc, b, owner, acc, s, d),
                None => (acc, s, d),
            },
            _ => (acc, s, d),
        };
        raw_from(sc, i + 1, acc1, s1, d1)
    } else {
        (acc, s, d)
    }
}

/// Whether a method has a general signature.
pub open spec fn has_general(sets: Map<MethodKey, Methods>, key: MethodKey) -> bool {
    match sets.get(key) {
        Some(set) => set.generic is Some,
        None => false,
    }
}

/// The key of a written method.
pub open spec fn raw_key(r: Raw) -> MethodKey {
    (r.owner, r.name, domain_of_self(r.sig.self_param))
}

/// Whether a static and an instance method of one name meet.
pub open spec fn static_clash(sets: Map<MethodKey, Methods>, key: MethodKey) -> bool {
    if key.2 == ReceiverDomain::Static {
        has_general(sets, (key.0, key.1, ReceiverDomain::Arc)) || has_general(
            sets,
            (key.0, key.1, ReceiverDomain::Owned),
        )
    } else {
        has_general(sets, (key.0, key.1, ReceiverDomain::Static))
    }
}

/// The method sets with one written method added. `defaults` are the keys
/// whose general signature stands in a `default` impl.
pub open spec fn registered(r: Raw, sets: Map<MethodKey, Methods>, defaults: Seq<MethodKey>, d: Seq<Diag>) -> (
    Map<MethodKey, Methods>,
    Seq<MethodKey>,
    Seq<Diag>,
) {
    let key = raw_key(r);
    let set = match sets.get(key) {
        Some(set) => set,
        None => Methods::none(),
    };
    match r.specialization {
        None => if set.generic is Some || static_clash(sets, key) {
            (
                sets.insert(key, set),
                defaults,
                d.push(
                    diag(
                        "method `"@ + r.name + "` is defined more than once for `"@ + r.owner_name + "`"@,
                        r.name_span,
                        "redefined here"@,
                    ),
                ),
            )
        } else {
            (
                sets.insert(key, Methods { generic: Some(r.sig), ..set }),
                if r.is_default {
                    defaults.push(key)
                } else {
                    defaults
                },
                d,
            )
        },
        Some(args) => if specialized(set.specializations, args, 0) is Some {
            (
                sets.insert(key, set),
                defaults,
                d.push(
                    diag(
                        "method `"@ + r.name + "` is defined more than once for this specialization of `"@ + r.owner_name
                            + "`"@,
                        r.name_span,
                        "redefined here"@,
                    ),
                ),
            )
        } else {
            (
                sets.insert(key, Methods { specializations: set.specializations.push((args, r.sig)), ..set }),
                defaults,
                d,
            )
        },
    }
}

/// The method sets with the written methods from the `i`-th on added.
pub open spec fn registered_from(
    rs: Seq<Raw>,
    i: int,
    sets: Map<MethodKey, Methods>,
    defaults: Seq<MethodKey>,
    d: Seq<Diag>,
) -> (Map<MethodKey, Methods>, Seq<MethodKey>, Seq<Diag>)
    decreases rs.len() - i,
{
    if 0 <= i < rs.len() {
        let (sets1, defaults1, d1) = registered(rs[i], sets, defaults, d);
        registered_from(rs, i + 1, sets1, defaults1, d1)
    } else {
        (sets, defaults, d)
    }
}

/// The errors of one written method as a specialization: it may only replace
/// the body of a method that a `default` impl offers.
pub open spec fn specialization_errors(
    sc: Sc,
    r: Raw,
    sets: Map<MethodKey, Methods>,
    defaults: Seq<MethodKey>,
    d: Seq<Diag>,
) -> Seq<Diag> {
    match r.specialization {
        None => d,
        Some(args) => match sets.get(raw_key(r)) {
            None => d,
            Some(set) => match set.generic {
                None => d,
                Some(general) => {
                    let d1 = if defaults.contains(raw_key(r)) {
                        d
                    } else {
                        d.push(
                            diag(
                                "method `"@ + r.name + "` of `"@ + r.owner_name
                                    + "` cannot be specialized: its generic implementation is not `default`"@,
                                r.name_span,
                                "specialized here"@,
                            ),
                        )
                    };
                    if specialization_fits(sc, r.owner, general, args, r.sig) {
                        d1
                    } else {
                        d1.push(
                            diag(
                                "method `"@ + r.name + "` on this specialization of `"@ + r.owner_name
                                    + "` must have the same signature as the generic `impl<...> "@ + r.owner_name
                                    + "<...>` version"@,
                                r.name_span,
                                "signature does not match"@,
                            ),
                        )
                    }
                },
            },
        },
    }
}

/// The errors of the specializations from the `i`-th written method on.
pub open spec fn all_specialization_errors(
    sc: Sc,
    rs: Seq<Raw>,
    i: int,
    sets: Map<MethodKey, Methods>,
    defaults: Seq<MethodKey>,
    d: Seq<Diag>,
) -> Seq<Diag>
    decreases rs.len() - i,
{
    if 0 <= i < rs.len() {
        all_specialization_errors(sc, rs, i + 1, sets, defaults, specialization_errors(sc, rs[i], sets, defaults, d))
    } else {
        d
    }
}

// ---------------------------------------------------------------------
// Implemented traits
// ---------------------------------------------------------------------

/// A declared implementation of a trait.
pub struct Request {
    pub owner: DefId,
    pub owner_ty: Type,
    pub owner_name: Symbol,
    pub span: Span,
    pub params: Vec<(Symbol, Vec<GenericBound>)>,
    pub bound: GenericBound,
    /// Whether default methods are taken over.
    pub allow_defaults: bool,
}

/// What a [`Request`] denotes.
pub struct Req {
    pub owner: DefId,
    pub owner_ty: Ty,
    pub owner_name: Seq<char>,
    pub span: Span,
    pub params: Params,
    pub bound: Bound,
    pub allow_defaults: bool,
}

impl DeepView for Request {
    type V = Req;

    open spec fn deep_view(&self) -> Req {
        Req {
            owner: self.owner,
            owner_ty: self.owner_ty@,
            owner_name: self.owner_name@,
            span: self.span,
            params: self.params.deep_view(),
            bound: self.bound.deep_view(),
            allow_defaults: self.allow_defaults,
        }
    }
}

/// Whether a trait is one of the markers that only `unsafe` can promise.
pub open spec fn thread_marker(sc: Sc, id: DefId) -> bool {
    sc.name(id) == "Send"@ || sc.name(id) == "Sync"@
}

/// The error for a marker that is promised without `unsafe`.
pub open spec fn safe_marker_error(span: Span) -> Diag {
    diag("`Send`/`Sync` can only be implemented via `unsafe impl`"@, span, "this promise cannot be verified"@)
}

/// The traits that a declaration lists from the `i`-th on, after `acc`.
pub open spec fn listed_requests(
    sc: Sc,
    owner: DefId,
    name: Seq<char>,
    refs: Seq<TypeExpr>,
    i: int,
    acc: Seq<Req>,
    d: Seq<Diag>,
) -> (Seq<Req>, Seq<Diag>)
    decreases refs.len() - i,
{
    if 0 <= i < refs.len() {
        let (b, d1) = lowered_bound(sc, refs[i], d);
        match b {
            None => listed_requests(sc, owner, name, refs, i + 1, acc, d1),
            Some(bound) => if thread_marker(sc, bound.trait_id) {
                listed_requests(sc, owner, name, refs, i + 1, acc, d1.push(safe_marker_error(type_span(refs[i]))))
            } else {
                let (params, d2) = bounded_params_from(sc, declared_params(sc, owner), 0, Seq::empty(), d1);
                let req = Req {
                    owner,
                    owner_ty: owner_type(sc, owner, as_parameters(names_in(params))),
                    owner_name: name,
                    span: type_span(refs[i]),
                    params,
                    bound,
                    allow_defaults: true,
                };
                listed_requests(sc, owner, name, refs, i + 1, acc.push(req), d2)
            },
        }
    } else {
        (acc, d)
    }
}

/// The traits that struct declarations list from the `i`-th on, after `acc`.
pub open spec fn struct_requests(sc: Sc, i: int, acc: Seq<Req>, d: Seq<Diag>) -> (Seq<Req>, Seq<Diag>)
    decreases sc.decls.types.len() - i,
{
    if 0 <= i < sc.decls.types.len() {
        let id = sc.decls.types[i].0;
        let (acc1, d1) = match sc.struct_decl(id) {
            Some(t) => listed_requests(sc, id, t.name.name@, t.traits@, 0, acc, d),
            None => (acc, d),
        };
        struct_requests(sc, i + 1, acc1, d1)
    } else {
        (acc, d)
    }
}

/// The traits that enum declarations list from the `i`-th on, after `acc`.
pub open spec fn enum_requests(sc: Sc, i: int, acc: Seq<Req>, d: Seq<Diag>) -> (Seq<Req>, Seq<Diag>)
    decreases sc.decls.enums.len() - i,
{
    if 0 <= i < sc.decls.enums.len() {
        let id = sc.decls.enums[i].0;
        let (acc1, d1) = match sc.enum_decl(id) {
            Some(t) => listed_requests(sc, id, t.name.name@, t.traits@, 0, acc, d),
            None => (acc, d),
        };
        enum_requests(sc, i + 1, acc1, d1)
    } else {
        (acc, d)
    }
}

/// Whether an impl block has nothing in its body.
pub open spec fn empty_body(b: ImplBlock) -> bool {
    b.methods@.len() == 0 && b.associated_consts@.len() == 0 && b.associated_types@.len() == 0
}

/// Whether an impl block may implement the trait, and the errors if not.
/// `unsafe impl` is for the thread markers, which need it and have no body.
pub open spec fn marker_rules(sc: Sc, b: ImplBlock, id: DefId, span: Span, d: Seq<Diag>) -> (bool, Seq<Diag>) {
    if thread_marker(sc, id) {
        if !b.is_unsafe {
            (false, d.push(safe_marker_error(span)))
        } else if !empty_body(b) {
            (
                true,
                d.push(
                    diag(
                        "`unsafe impl` of `"@ + sc.name(id) + "` must have an empty body"@,
                        b.span,
                        "in this `impl` block"@,
                    ),
                ),
            )
        } else {
            (true, d)
        }
    } else if b.is_unsafe {
        (
            false,
            d.push(
                diag(
                    "`unsafe impl` is only allowed for the `Send`/`Sync` marker traits"@,
                    span,
                    "not a marker trait"@,
                ),
            ),
        )
    } else {
        (true, d)
    }
}

/// The traits that an impl block implements from the `i`-th on, after `acc`.
pub open spec fn block_requests(sc: Sc, b: ImplBlock, owner: DefId, i: int, acc: Seq<Req>, d: Seq<Diag>) -> (
    Seq<Req>,
    Seq<Diag>,
)
    decreases b.traits@.len() - i,
{
    if 0 <= i < b.traits@.len() {
        let span = type_span(b.traits@[i]);
        let (lowered, d1) = lowered_bound(sc, b.traits@[i], d);
        match lowered {
            None => block_requests(sc, b, owner, i + 1, acc, d1),
            Some(bound) => {
                let (allowed, d2) = marker_rules(sc, b, bound.trait_id, span, d1);
                if !allowed {
                    block_requests(sc, b, owner, i + 1, acc, d2)
                } else {
                    let (params, d3) = impl_params(sc, b, owner, d2);
                    let req = Req {
                        owner,
                        owner_ty: owner_type(sc, owner, as_parameters(names_in(params))),
                        owner_name: b.target.name@,
                        span,
                        params,
                        bound,
                        allow_defaults: false,
                    };
                    block_requests(sc, b, owner, i + 1, acc.push(req), d3)
                }
            },
        }
    } else {
        (acc, d)
    }
}

/// The traits that impl blocks implement from the `i`-th item on, after `acc`.
pub open spec fn impl_requests(sc: Sc, i: int, acc: Seq<Req>, d: Seq<Diag>) -> (Seq<Req>, Seq<Diag>)
    decreases sc.module.items@.len() - i,
{
    if 0 <= i < sc.module.items@.len() {
        let (acc1, d1) = match sc.module.items@[i] {
            Item::Impl(b) => match sc.defs().found_in(b.span.file, b.target.name@) {
                Some(owner) => block_requests(
                    sc,
                    b,
                    owner,
                    0,
                    acc,
                    if b.is_unsafe && b.traits@.len() == 0 {
                        d.push(
                            diag(
                                "`unsafe impl` is only allowed for the `Send`/`Sync` marker traits"@,
                                b.span,
                                "not a marker trait"@,
                            ),
                        )
                    } else {
                        d
                    },
                ),
                None => (acc, d),
            },
            _ => (acc, d),
        };
        impl_requests(sc, i + 1, acc1, d1)
    } else {
        (acc, d)
    }
}

/// All declared implementations.
pub open spec fn all_requests(sc: Sc, d: Seq<Diag>) -> (Seq<Req>, Seq<Diag>) {
    let (a, d1) = struct_requests(sc, 0, Seq::empty(), d);
    let (b, d2) = enum_requests(sc, 0, a, d1);
    impl_requests(sc, 0, b, d2)
}

/// The implementations, each only once: which of the requests from the `i`-th
/// on are the first of their kind.
pub open spec fn distinct_requests(
    sc: Sc,
    rs: Seq<Req>,
    i: int,
    seen: Seq<(DefId, Bound)>,
    impls: Seq<(Ty, Bound)>,
    keep: Seq<bool>,
    d: Seq<Diag>,
) -> (Seq<(Ty, Bound)>, Seq<bool>, Seq<Diag>)
    decreases rs.len() - i,
{
    if 0 <= i < rs.len() {
        let r = rs[i];
        if seen.contains((r.owner, r.bound)) {
            distinct_requests(
                sc,
                rs,
                i + 1,
                seen,
                impls,
                keep.push(false),
                d.push(
                    diag(
                        "`"@ + r.owner_name + "` already implements `"@ + sc.name(r.bound.trait_id) + "`"@,
                        r.span,
                        "duplicate implementation"@,
                    ),
                ),
            )
        } else {
            distinct_requests(
                sc,
                rs,
                i + 1,
                seen.push((r.owner, r.bound)),
                impls.push((r.owner_ty, r.bound)),
                keep.push(true),
                d,
            )
        }
    } else {
        (impls, keep, d)
    }
}

/// A default method that an owner may take over.
pub struct DefaultCandidate {
    pub source: DefId,
    pub subst: Table<Symbol, Type>,
    pub sig: FnSig,
}

/// What a [`DefaultCandidate`] denotes.
pub struct Candidate {
    pub source: DefId,
    pub subst: Subst,
    pub sig: Sig,
}

impl DeepView for DefaultCandidate {
    type V = Candidate;

    open spec fn deep_view(&self) -> Candidate {
        Candidate { source: self.source, subst: self.subst@, sig: self.sig.deep_view() }
    }
}

impl Dup for DefaultCandidate {
    fn dup(&self) -> (r: Self) {
        DefaultCandidate { source: self.source, subst: self.subst.dup(), sig: self.sig.dup() }
    }
}

/// A method that an owner needs but does not write.
pub struct DeclaredNeed {
    pub owner_name: Symbol,
    pub span: Span,
    pub trait_name: Symbol,
    pub sig: FnSig,
    pub defaults: Vec<DefaultCandidate>,
    pub ambiguous: bool,
}

/// What a [`DeclaredNeed`] denotes.
pub struct Need {
    pub owner_name: Seq<char>,
    pub span: Span,
    pub trait_name: Seq<char>,
    pub sig: Sig,
    pub defaults: Seq<Candidate>,
    pub ambiguous: bool,
}

impl DeepView for DeclaredNeed {
    type V = Need;

    open spec fn deep_view(&self) -> Need {
        Need {
            owner_name: self.owner_name@,
            span: self.span,
            trait_name: self.trait_name@,
            sig: self.sig.deep_view(),
            defaults: self.defaults.deep_view(),
            ambiguous: self.ambiguous,
        }
    }
}

impl Dup for DeclaredNeed {
    fn dup(&self) -> (r: Self) {
        DeclaredNeed {
            owner_name: self.owner_name.clone(),
            span: self.span,
            trait_name: self.trait_name.clone(),
            sig: self.sig.dup(),
            defaults: self.defaults.dup(),
            ambiguous: self.ambiguous,
        }
    }
}

/// Whether a candidate from the `i`-th on has this source and choice.
pub open spec fn has_candidate(cs: Seq<Candidate>, source: DefId, m: Subst, i: int) -> bool
    decreases cs.len() - i,
{
    0 <= i < cs.len() && ((cs[i].source == source && cs[i].subst == m) || has_candidate(cs, source, m, i + 1))
}

/// The signature that an implementation of a trait method must have.
pub open spec fn required_sig(r: Req, m: MethodV, by: Subst) -> Sig {
    with_owner_params(sig_subst(m.sig, by), r.params)
}

/// A need with another trait's requirement of the same method added.
pub open spec fn with_requirement(need: Need, expected: Sig, m: MethodV, by: Subst) -> Need {
    let ambiguous = need.ambiguous || !sigs_match(need.sig, expected) || m.ambiguous_default;
    match m.default {
        Some(default) => {
            let choice = subst_values(default.subst, by);
            if has_candidate(need.defaults, default.source, choice, 0) {
                Need { ambiguous, ..need }
            } else {
                Need {
                    ambiguous,
                    defaults: need.defaults.push(
                        Candidate { source: default.source, subst: choice, sig: expected },
                    ),
                    ..need
                }
            }
        },
        None => Need { ambiguous, ..need },
    }
}

/// The needs after one required method of a trait.
pub open spec fn with_need(
    sc: Sc,
    s: Sigs,
    r: Req,
    name: Seq<char>,
    m: MethodV,
    by: Subst,
    needs: Seq<(MethodKey, Need)>,
    d: Seq<Diag>,
) -> (Seq<(MethodKey, Need)>, Seq<Diag>) {
    let expected = required_sig(r, m, by);
    let key = (r.owner, name, domain_of_self(expected.self_param));
    let trait_name = sc.name(r.bound.trait_id);
    match s.method_of(key.0, key.1, key.2) {
        Some(actual) => (
            needs,
            if sigs_match(actual, expected) {
                d
            } else {
                d.push(
                    diag(
                        "method `"@ + name + "` does not match its declaration in trait `"@ + trait_name + "`"@,
                        r.span,
                        "implementation is here"@,
                    ),
                )
            },
        ),
        None => if !r.allow_defaults {
            (
                needs,
                d.push(
                    diag(
                        "`"@ + r.owner_name + "` must explicitly implement method `"@ + name + "` of trait `"@
                            + trait_name + "`"@,
                        r.span,
                        "explicit implementation is here"@,
                    ),
                ),
            )
        } else {
            let need = match pair_get(needs, key) {
                Some(need) => need,
                None => Need {
                    owner_name: r.owner_name,
                    span: r.span,
                    trait_name,
                    sig: expected,
                    defaults: Seq::empty(),
                    ambiguous: false,
                },
            };
            (
                pair_set(needs, key, with_requirement(need, expected, m, by)),
                if sigs_match(need.sig, expected) {
                    d
                } else {
                    d.push(
                        diag(
                            "method `"@ + name + "` has incompatible signatures in implemented traits"@,
                            r.span,
                            "conflicting trait"@,
                        ),
                    )
                },
            )
        },
    }
}

/// The needs after a trait's methods from the `i`-th on.
pub open spec fn with_trait_needs(
    sc: Sc,
    s: Sigs,
    r: Req,
    ms: MethodList,
    by: Subst,
    i: int,
    needs: Seq<(MethodKey, Need)>,
    d: Seq<Diag>,
) -> (Seq<(MethodKey, Need)>, Seq<Diag>)
    decreases ms.len() - i,
{
    if 0 <= i < ms.len() {
        let (needs1, d1) = with_need(sc, s, r, ms[i].0, ms[i].1, by, needs, d);
        with_trait_needs(sc, s, r, ms, by, i + 1, needs1, d1)
    } else {
        (needs, d)
    }
}

/// The needs after the kept requests from the `i`-th on.
pub open spec fn all_needs(
    sc: Sc,
    s: Sigs,
    table: TraitLists,
    rs: Seq<Req>,
    keep: Seq<bool>,
    i: int,
    needs: Seq<(MethodKey, Need)>,
    d: Seq<Diag>,
) -> (Seq<(MethodKey, Need)>, Seq<Diag>)
    decreases rs.len() - i,
{
    if 0 <= i < rs.len() && i < keep.len() {
        if keep[i] {
            let id = rs[i].bound.trait_id;
            let by = zip_subst(s.generics_of_trait(id), rs[i].bound.args);
            let (needs1, d1) = with_trait_needs(sc, s, rs[i], methods_in(table, id), by, 0, needs, d);
            all_needs(sc, s, table, rs, keep, i + 1, needs1, d1)
        } else {
            all_needs(sc, s, table, rs, keep, i + 1, needs, d)
        }
    } else {
        (needs, d)
    }
}

/// The error for a default that would stand beside a method of the same name
/// that takes its receiver otherwise.
pub open spec fn clashing_default(key: MethodKey, need: Need) -> Diag {
    diag(
        "method `"@ + key.1 + "` is defined more than once for `"@ + need.owner_name + "`"@,
        need.span,
        "a default takes this name again"@,
    )
}

/// The signatures after the needs from the `i`-th on are met by the one
/// default there is, or reported. A static default never stands beside an
/// instance method of the same name, nor the other way round.
pub open spec fn met_needs(needs: Seq<(MethodKey, Need)>, i: int, s: Sigs, d: Seq<Diag>) -> (Sigs, Seq<Diag>)
    decreases needs.len() - i,
{
    if 0 <= i < needs.len() {
        let key = needs[i].0;
        let need = needs[i].1;
        if need.ambiguous || need.defaults.len() > 1 {
            met_needs(
                needs,
                i + 1,
                s,
                d.push(
                    diag(
                        "multiple default implementations of method `"@ + key.1 + "` are available for `"@
                            + need.owner_name + "`; provide an explicit implementation"@,
                        need.span,
                        "ambiguous default"@,
                    ),
                ),
            )
        } else if need.defaults.len() == 1 && static_clash(s.methods, key) {
            met_needs(needs, i + 1, s, d.push(clashing_default(key, need)))
        } else if need.defaults.len() == 1 {
            let c = need.defaults[0];
            let set = match s.methods.get(key) {
                Some(set) => set,
                None => Methods::none(),
            };
            met_needs(
                needs,
                i + 1,
                Sigs {
                    methods: s.methods.insert(key, Methods { generic: Some(c.sig), ..set }),
                    default_method_substitutions: s.default_method_substitutions.insert(key, c.subst),
                    default_method_sources: s.default_method_sources.insert(key, c.source),
                    ..s
                },
                d,
            )
        } else {
            met_needs(
                needs,
                i + 1,
                s,
                d.push(
                    diag(
                        "`"@ + need.owner_name + "` does not implement required method `"@ + key.1 + "` of trait `"@
                            + need.trait_name + "`"@,
                        need.span,
                        "missing implementation"@,
                    ),
                ),
            )
        }
    } else {
        (s, d)
    }
}

/// The signatures with the written methods added.
pub open spec fn with_written_methods(sc: Sc, s: Sigs, d: Seq<Diag>) -> (Sigs, Seq<Diag>) {
    let (rs, s1, d1) = raw_from(sc, 0, Seq::empty(), s, d);
    let (sets, defaults, d2) = registered_from(rs, 0, Map::empty(), Seq::empty(), d1);
    (Sigs { methods: sets, ..s1 }, all_specialization_errors(sc, rs, 0, sets, defaults, d2))
}

/// The signatures with the methods and implementations of all types added.
pub open spec fn with_all_impls(sc: Sc, table: TraitLists, s: Sigs, d: Seq<Diag>) -> (Sigs, Seq<Diag>) {
    let (s1, d1) = with_written_methods(sc, s, d);
    let (rs, d2) = all_requests(sc, d1);
    let (impls, keep, d3) = distinct_requests(sc, rs, 0, Seq::empty(), s1.impls, Seq::empty(), d2);
    let s2 = Sigs { impls, ..s1 };
    let (needs, d4) = all_needs(sc, s2, table, rs, keep, 0, Seq::empty(), d3);
    met_needs(needs, 0, s2, d4)
}

impl<'a> Scope<'a> {
    fn raw_methods_of(
        &self,
        b: &ImplBlock,
        owner: DefId,
        params: &Vec<(Symbol, Vec<GenericBound>)>,
        specialization: &Option<Vec<Type>>,
        raw: &mut Vec<RawMethod>,
        diags: &mut Vec<Diagnostic>,
    )
        ensures
            (final(raw).deep_view(), final(diags).deep_view()) == raw_methods(
                self@,
                *b,
                owner,
                params.deep_view(),
                specialization.deep_view(),
                0,
                old(raw).deep_view(),
                old(diags).deep_view(),
            ),
    {
        let mut i: usize = 0;
        while i < b.methods.len()
            invariant
                i <= b.methods.len(),
                raw_methods(
                    self@,
                    *b,
                    owner,
                    params.deep_view(),
                    specialization.deep_view(),
                    i as int,
                    raw.deep_view(),
                    diags.deep_view(),
                ) == raw_methods(
                    self@,
                    *b,
                    owner,
                    params.deep_view(),
                    specialization.deep_view(),
                    0,
                    old(raw).deep_view(),
                    old(diags).deep_view(),
                ),
            decreases b.methods.len() - i,
        {
            let m = &b.methods[i];
            if specialization.is_some() && m.self_param.is_none() {
                report(
                    diags,
                    "a concrete specialization cannot override a static method yet — only `self`/`mut self` methods",
                    m.name.span,
                    "here",
                );
            } else {
                let mut sig = self.build_fn_sig(m, diags);
                let mut own: Vec<(Symbol, Vec<GenericBound>)> = Vec::new();
                std::mem::swap(&mut own, &mut sig.generics);
                sig.generics = copy_then(params, own);
                put(
                    raw,
                    RawMethod {
                        owner,
                        owner_name: b.target.name.clone(),
                        name: m.name.name.clone(),
                        name_span: m.name.span,
                        specialization: specialization.dup(),
                        sig,
                        is_default: b.is_default,
                    },
                );
            }
            i += 1;
        }
    }

    fn raw_methods_of_block(
        &self,
        b: &ImplBlock,
        owner: DefId,
        raw: &mut Vec<RawMethod>,
        sigs: &mut Signatures,
        diags: &mut Vec<Diagnostic>,
    )
        ensures
            (final(raw).deep_view(), final(sigs)@, final(diags).deep_view()) == raw_block(
                self@,
                *b,
                owner,
                old(raw).deep_view(),
                old(sigs)@,
                old(diags).deep_view(),
            ),
    {
        let params = self.owner_generics_for_impl(b, owner, diags);
        let specialization = self.impl_specialization_args(b, owner, diags);
        if b.is_default && params.len() == 0 {
            report(
                diags,
                "a `default` impl must be a generic fallback implementation",
                b.span,
                "in this `impl` block",
            );
        }
        if let Some(args) = &specialization {
            sigs.impl_specializations.insert(b.id, args.dup());
            if b.traits.len() > 0 {
                report(
                    diags,
                    "a concrete specialization (`impl Owner<ConcreteArgs>`) cannot also implement a trait yet",
                    b.span,
                    "in this `impl` block",
                );
            }
        }
        self.raw_methods_of(b, owner, &params, &specialization, raw, diags);
    }

    fn collect_raw_methods(&self, sigs: &mut Signatures, diags: &mut Vec<Diagnostic>) -> (raw: Vec<RawMethod>)
        ensures
            (raw.deep_view(), final(sigs)@, final(diags).deep_view()) == raw_from(
                self@,
                0,
                Seq::empty(),
                old(sigs)@,
                old(diags).deep_view(),
            ),
    {
        let mut raw: Vec<RawMethod> = Vec::new();
        proof {
            assert(raw.deep_view() =~= Seq::empty());
        }
        let mut i: usize = 0;
        while i < self.module.items.len()
            invariant
                i <= self.module.items.len(),
                raw_from(self@, i as int, raw.deep_view(), sigs@, diags.deep_view()) == raw_from(
                    self@,
                    0,
                    Seq::empty(),
                    old(sigs)@,
                    old(diags).deep_view(),
                ),
            decreases self.module.items.len() - i,
        {
            if let Item::Impl(b) = &self.module.items[i] {
                if let Some(owner) = self.names.definitions.lookup_in(b.span.file, &b.target.name) {
                    self.raw_methods_of_block(b, owner, &mut raw, sigs, diags);
                }
            }
            i += 1;
        }
        raw
    }

    fn check_specialization(
        &self,
        r: &RawMethod,
        sets: &Table<(DefId, Symbol, ReceiverDomain), MethodSet>,
        defaults: &Vec<(DefId, Symbol, ReceiverDomain)>,
        diags: &mut Vec<Diagnostic>,
    )
        ensures
            final(diags).deep_view() == specialization_errors(
                self@,
                r.deep_view(),
                sets@,
                defaults.deep_view(),
                old(diags).deep_view(),
            ),
    {
        let args = match &r.specialization {
            Some(args) => args,
            None => {
                return;
            },
        };
        let key = raw_method_key(r);
        let set = match sets.get(&key) {
            Some(set) => set,
            None => {
                return;
            },
        };
        let general = match &set.generic {
            Some(sig) => sig,
            None => {
                return;
            },
        };
        if !occurs(defaults, &key) {
            let message = cat5(
                "method `",
                r.name.as_str(),
                "` of `",
                r.owner_name.as_str(),
                "` cannot be specialized: its generic implementation is not `default`",
            );
            report(diags, message.as_str(), r.name_span, "specialized here");
        }
        if !self.specialization_matches_generic(r.owner, general, args, &r.sig) {
            let message = cat7(
                "method `",
                r.name.as_str(),
                "` on this specialization of `",
                r.owner_name.as_str(),
                "` must have the same signature as the generic `impl<...> ",
                r.owner_name.as_str(),
                "<...>` version",
            );
            report(diags, message.as_str(), r.name_span, "signature does not match");
        }
    }

    fn build_written_methods(&self, sigs: &mut Signatures, diags: &mut Vec<Diagnostic>)
        ensures
            (final(sigs)@, final(diags).deep_view()) == with_written_methods(
                self@,
                old(sigs)@,
                old(diags).deep_view(),
            ),
    {
        let raw = self.collect_raw_methods(sigs, diags);
        let ghost rs = raw.deep_view();
        let ghost d1 = diags.deep_view();
        let mut sets: Table<(DefId, Symbol, ReceiverDomain), MethodSet> = Table::new();
        let mut defaults: Vec<(DefId, Symbol, ReceiverDomain)> = Vec::new();
        proof {
            assert(defaults.deep_view() =~= Seq::empty());
        }
        let mut i: usize = 0;
        while i < raw.len()
            invariant
                i <= raw.len(),
                rs == raw.deep_view(),
                registered_from(rs, i as int, sets@, defaults.deep_view(), diags.deep_view()) == registered_from(
                    rs,
                    0,
                    Map::empty(),
                    Seq::empty(),
                    d1,
                ),
            decreases raw.len() - i,
        {
            assert(rs[i as int] == raw@[i as int].deep_view());
            register(&raw[i], &mut sets, &mut defaults, diags);
            i += 1;
        }
        let ghost d2 = diags.deep_view();
        let mut k: usize = 0;
        while k < raw.len()
            invariant
                k <= raw.len(),
                rs == raw.deep_view(),
                all_specialization_errors(self@, rs, k as int, sets@, defaults.deep_view(), diags.deep_view())
                    == all_specialization_errors(self@, rs, 0, sets@, defaults.deep_view(), d2),
            decreases raw.len() - k,
        {
            assert(rs[k as int] == raw@[k as int].deep_view());
            self.check_specialization(&raw[k], &sets, &defaults, diags);
            k += 1;
        }
        sigs.methods = sets;
    }

    fn is_thread_marker(&self, id: DefId) -> (r: bool)
        ensures
            r == thread_marker(self@, id),
    {
        let name = self.names.definitions.name(id);
        str_eq(name, "Send") || str_eq(name, "Sync")
    }

    fn requests_of_declaration(
        &self,
        owner: DefId,
        name: &Symbol,
        refs: &Vec<TypeExpr>,
        requests: &mut Vec<Request>,
        diags: &mut Vec<Diagnostic>,
    )
        ensures
            (final(requests).deep_view(), final(diags).deep_view()) == listed_requests(
                self@,
                owner,
                name@,
                refs@,
                0,
                old(requests).deep_view(),
                old(diags).deep_view(),
            ),
    {
        let mut i: usize = 0;
        while i < refs.len()
            invariant
                i <= refs.len(),
                listed_requests(self@, owner, name@, refs@, i as int, requests.deep_view(), diags.deep_view())
                    == listed_requests(
                    self@,
                    owner,
                    name@,
                    refs@,
                    0,
                    old(requests).deep_view(),
                    old(diags).deep_view(),
                ),
            decreases refs.len() - i,
        {
            if let Some(bound) = self.lower_generic_bound(&refs[i], diags) {
                if self.is_thread_marker(bound.trait_id) {
                    report(
                        diags,
                        "`Send`/`Sync` can only be implemented via `unsafe impl`",
                        refs[i].span(),
                        "this promise cannot be verified",
                    );
                } else {
                    let params = self.owner_generic_params(owner, diags);
                    put(
                        requests,
                        Request {
                            owner,
                            owner_ty: self.owner_as_type_from_generics(owner, &params),
                            owner_name: name.clone(),
                            span: refs[i].span(),
                            params,
                            bound,
                            allow_defaults: true,
                        },
                    );
                }
            }
            i += 1;
        }
    }

    fn check_marker_rules(&self, b: &ImplBlock, id: DefId, span: Span, diags: &mut Vec<Diagnostic>) -> (r: bool)
        ensures
            (r, final(diags).deep_view()) == marker_rules(self@, *b, id, span, old(diags).deep_view()),
    {
        if self.is_thread_marker(id) {
            if !b.is_unsafe {
                report(
                    diags,
                    "`Send`/`Sync` can only be implemented via `unsafe impl`",
                    span,
                    "this promise cannot be verified",
                );
                return false;
            }
            if b.methods.len() > 0 || b.associated_consts.len() > 0 || b.associated_types.len() > 0 {
                let message = cat3("`unsafe impl` of `", self.names.definitions.name(id), "` must have an empty body");
                report(diags, message.as_str(), b.span, "in this `impl` block");
            }
            true
        } else if b.is_unsafe {
            report(
                diags,
                "`unsafe impl` is only allowed for the `Send`/`Sync` marker traits",
                span,
                "not a marker trait",
            );
            false
        } else {
            true
        }
    }

    fn requests_of_block(&self, b: &ImplBlock, owner: DefId, requests: &mut Vec<Request>, diags: &mut Vec<Diagnostic>)
        ensures
            (final(requests).deep_view(), final(diags).deep_view()) == block_requests(
                self@,
                *b,
                owner,
                0,
                old(requests).deep_view(),
                old(diags).deep_view(),
            ),
    {
        let mut i: usize = 0;
        while i < b.traits.len()
            invariant
                i <= b.traits.len(),
                block_requests(self@, *b, owner, i as int, requests.deep_view(), diags.deep_view()) == block_requests(
                    self@,
                    *b,
                    owner,
                    0,
                    old(requests).deep_view(),
                    old(diags).deep_view(),
                ),
            decreases b.traits.len() - i,
        {
            let span = b.traits[i].span();
            if let Some(bound) = self.lower_generic_bound(&b.traits[i], diags) {
                if self.check_marker_rules(b, bound.trait_id, span, diags) {
                    let params = self.owner_generics_for_impl(b, owner, diags);
                    put(
                        requests,
                        Request {
                            owner,
                            owner_ty: self.owner_as_type_from_generics(owner, &params),
                            owner_name: b.target.name.clone(),
                            span,
                            params,
                            bound,
                            allow_defaults: false,
                        },
                    );
                }
            }
            i += 1;
        }
    }

    fn collect_requests(&self, diags: &mut Vec<Diagnostic>) -> (r: Vec<Request>)
        ensures
            (r.deep_view(), final(diags).deep_view()) == all_requests(self@, old(diags).deep_view()),
    {
        let mut requests: Vec<Request> = Vec::new();
        proof {
            assert(requests.deep_view() =~= Seq::empty());
        }
        let mut i: usize = 0;
        while i < self.decls.type_decls.entries.len()
            invariant
                i <= self.decls.type_decls.entries.len(),
                struct_requests(self@, i as int, requests.deep_view(), diags.deep_view()) == struct_requests(
                    self@,
                    0,
                    Seq::empty(),
                    old(diags).deep_view(),
                ),
            decreases self.decls.type_decls.entries.len() - i,
        {
            let id = self.decls.type_decls.entries[i].0;
            assert(self@.decls.types[i as int].0 == id);
            if let Some(t) = self.struct_decl(id) {
                self.requests_of_declaration(id, &t.name.name, &t.traits, &mut requests, diags);
            }
            i += 1;
        }
        let ghost a = requests.deep_view();
        let ghost d1 = diags.deep_view();
        let mut j: usize = 0;
        while j < self.decls.enum_decls.entries.len()
            invariant
                j <= self.decls.enum_decls.entries.len(),
                enum_requests(self@, j as int, requests.deep_view(), diags.deep_view()) == enum_requests(
                    self@,
                    0,
                    a,
                    d1,
                ),
            decreases self.decls.enum_decls.entries.len() - j,
        {
            let id = self.decls.enum_decls.entries[j].0;
            assert(self@.decls.enums[j as int].0 == id);
            if let Some(t) = self.enum_decl(id) {
                self.requests_of_declaration(id, &t.name.name, &t.traits, &mut requests, diags);
            }
            j += 1;
        }
        let ghost b0 = requests.deep_view();
        let ghost d2 = diags.deep_view();
        let mut k: usize = 0;
        while k < self.module.items.len()
            invariant
                k <= self.module.items.len(),
                impl_requests(self@, k as int, requests.deep_view(), diags.deep_view()) == impl_requests(
                    self@,
                    0,
                    b0,
                    d2,
                ),
            decreases self.module.items.len() - k,
        {
            if let Item::Impl(b) = &self.module.items[k] {
                if let Some(owner) = self.names.definitions.lookup_in(b.span.file, &b.target.name) {
                    if b.is_unsafe && b.traits.len() == 0 {
                        report(
                            diags,
                            "`unsafe impl` is only allowed for the `Send`/`Sync` marker traits",
                            b.span,
                            "not a marker trait",
                        );
                    }
                    self.requests_of_block(b, owner, &mut requests, diags);
                }
            }
            k += 1;
        }
        requests
    }

    fn keep_distinct(&self, requests: &Vec<Request>, sigs: &mut Signatures, diags: &mut Vec<Diagnostic>) -> (keep: Vec<bool>)
        ensures
            (final(sigs)@.impls, keep.deep_view(), final(diags).deep_view()) == distinct_requests(
                self@,
                requests.deep_view(),
                0,
                Seq::empty(),
                old(sigs)@.impls,
                Seq::empty(),
                old(diags).deep_view(),
            ),
            final(sigs)@ == (Sigs { impls: final(sigs)@.impls, ..old(sigs)@ }),
    {
        let mut seen: Vec<(DefId, GenericBound)> = Vec::new();
        let mut keep: Vec<bool> = Vec::new();
        proof {
            assert(seen.deep_view() =~= Seq::empty());
            assert(keep.deep_view() =~= Seq::empty());
        }
        let ghost rs = requests.deep_view();
        let mut i: usize = 0;
        while i < requests.len()
            invariant
                i <= requests.len(),
                rs == requests.deep_view(),
                sigs@ == (Sigs { impls: sigs@.impls, ..old(sigs)@ }),
                distinct_requests(
                    self@,
                    rs,
                    i as int,
                    seen.deep_view(),
                    sigs@.impls,
                    keep.deep_view(),
                    diags.deep_view(),
                ) == distinct_requests(
                    self@,
                    rs,
                    0,
                    Seq::empty(),
                    old(sigs)@.impls,
                    Seq::empty(),
                    old(diags).deep_view(),
                ),
            decreases requests.len() - i,
        {
            let r = &requests[i];
            assert(rs[i as int] == r.deep_view());
            let entry: (DefId, GenericBound) = (r.owner, r.bound.dup());
            if occurs(&seen, &entry) {
                let message = cat5(
                    "`",
                    r.owner_name.as_str(),
                    "` already implements `",
                    self.names.definitions.name(r.bound.trait_id),
                    "`",
                );
                report(diags, message.as_str(), r.span, "duplicate implementation");
                put(&mut keep, false);
            } else {
                put(&mut seen, entry);
                put(&mut sigs.impls, (r.owner_ty.clone(), r.bound.dup()));
                put(&mut keep, true);
            }
            i += 1;
        }
        keep
    }

    fn add_need(
        &self,
        sigs: &Signatures,
        r: &Request,
        name: &Symbol,
        m: &TraitMethod,
        by: &Table<Symbol, Type>,
        needs: &mut Table<(DefId, Symbol, ReceiverDomain), DeclaredNeed>,
        diags: &mut Vec<Diagnostic>,
    )
        ensures
            (final(needs).pairs(), final(diags).deep_view()) == with_need(
                self@,
                sigs@,
                r.deep_view(),
                name@,
                m.deep_view(),
                by@,
                old(needs).pairs(),
                old(diags).deep_view(),
            ),
    {
        let mut expected = specialize_fn_sig(&m.sig, by);
        let mut own: Vec<(Symbol, Vec<GenericBound>)> = Vec::new();
        std::mem::swap(&mut own, &mut expected.generics);
        expected.generics = copy_then(&r.params, own);
        assert(expected.deep_view() == required_sig(r.deep_view(), m.deep_view(), by@));
        let domain = ReceiverDomain::of_self_param(expected.self_param.as_ref());
        let trait_name = self.names.definitions.name(r.bound.trait_id);
        if let Some(actual) = sigs.method(r.owner, name, domain) {
            if !method_signatures_match(actual, &expected) {
                let message = cat5(
                    "method `",
                    name.as_str(),
                    "` does not match its declaration in trait `",
                    trait_name,
                    "`",
                );
                report(diags, message.as_str(), r.span, "implementation is here");
            }
            return;
        }
        if !r.allow_defaults {
            let message = cat7(
                "`",
                r.owner_name.as_str(),
                "` must explicitly implement method `",
                name.as_str(),
                "` of trait `",
                trait_name,
                "`",
            );
            report(diags, message.as_str(), r.span, "explicit implementation is here");
            return;
        }
        let key: (DefId, Symbol, ReceiverDomain) = (r.owner, name.clone(), domain);
        let mut need = match needs.get(&key) {
            Some(need) => need.dup(),
            None => {
                let fresh = DeclaredNeed {
                    owner_name: r.owner_name.clone(),
                    span: r.span,
                    trait_name: trait_name.to_owned(),
                    sig: expected.dup(),
                    defaults: Vec::new(),
                    ambiguous: false,
                };
                proof {
                    assert(fresh.deep_view().defaults =~= Seq::empty());
                }
                fresh
            },
        };
        if !method_signatures_match(&need.sig, &expected) {
            let message = cat3("method `", name.as_str(), "` has incompatible signatures in implemented traits");
            report(diags, message.as_str(), r.span, "conflicting trait");
        }
        add_requirement(&mut need, expected, m, by);
        needs.insert(key, need);
    }

    fn collect_needs(
        &self,
        sigs: &Signatures,
        table: &TraitMethodTable,
        requests: &Vec<Request>,
        keep: &Vec<bool>,
        diags: &mut Vec<Diagnostic>,
    ) -> (needs: Table<(DefId, Symbol, ReceiverDomain), DeclaredNeed>)
        ensures
            (needs.pairs(), final(diags).deep_view()) == all_needs(
                self@,
                sigs@,
                table.pairs(),
                requests.deep_view(),
                keep.deep_view(),
                0,
                Seq::empty(),
                old(diags).deep_view(),
            ),
    {
        let mut needs: Table<(DefId, Symbol, ReceiverDomain), DeclaredNeed> = Table::new();
        let ghost rs = requests.deep_view();
        let ghost ks = keep.deep_view();
        let ghost start = all_needs(self@, sigs@, table.pairs(), rs, ks, 0, Seq::empty(), diags.deep_view());
        let mut i: usize = 0;
        while i < requests.len() && i < keep.len()
            invariant
                i <= requests.len(),
                i <= keep.len(),
                rs == requests.deep_view(),
                ks == keep.deep_view(),
                all_needs(self@, sigs@, table.pairs(), rs, ks, i as int, needs.pairs(), diags.deep_view()) == start,
            decreases requests.len() - i,
        {
            assert(rs[i as int] == requests@[i as int].deep_view());
            assert(ks[i as int] == keep@[i as int]);
            if keep[i] {
                self.needs_of_request(sigs, table, &requests[i], &mut needs, diags);
            }
            i += 1;
        }
        needs
    }

    fn needs_of_request(
        &self,
        sigs: &Signatures,
        table: &TraitMethodTable,
        r: &Request,
        needs: &mut Table<(DefId, Symbol, ReceiverDomain), DeclaredNeed>,
        diags: &mut Vec<Diagnostic>,
    )
        ensures
            (final(needs).pairs(), final(diags).deep_view()) == with_trait_needs(
                self@,
                sigs@,
                r.deep_view(),
                methods_in(table.pairs(), r.bound.trait_id),
                zip_subst(sigs@.generics_of_trait(r.bound.trait_id), r.deep_view().bound.args),
                0,
                old(needs).pairs(),
                old(diags).deep_view(),
            ),
    {
        let list = match table.get(&r.bound.trait_id) {
            Some(list) => list,
            None => {
                return;
            },
        };
        let names = sigs.generics_of_trait(r.bound.trait_id);
        let by = zip_types(&names, &r.bound.args);
        let ghost ms = list.methods.deep_view();
        let ghost rv = r.deep_view();
        let mut i: usize = 0;
        while i < list.methods.len()
            invariant
                i <= list.methods.len(),
                ms == list.methods.deep_view(),
                rv == r.deep_view(),
                with_trait_needs(self@, sigs@, rv, ms, by@, i as int, needs.pairs(), diags.deep_view())
                    == with_trait_needs(
                    self@,
                    sigs@,
                    rv,
                    ms,
                    by@,
                    0,
                    old(needs).pairs(),
                    old(diags).deep_view(),
                ),
            decreases list.methods.len() - i,
        {
            assert(ms[i as int] == list.methods@[i as int].deep_view());
            self.add_need(sigs, r, &list.methods[i].0, &list.methods[i].1, &by, needs, diags);
            i += 1;
        }
    }

    /// Adds the methods and implementations of all types.
    pub fn build_impl_methods(&self, table: &TraitMethodTable, sigs: &mut Signatures, diags: &mut Vec<Diagnostic>)
        ensures
            (final(sigs)@, final(diags).deep_view()) == with_all_impls(
                self@,
                table.pairs(),
                old(sigs)@,
                old(diags).deep_view(),
            ),
            no_static_clash(final(sigs)@.methods),
    {
        proof {
            law_methods_do_not_clash(self@, table.pairs(), sigs@, diags.deep_view());
        }
        self.build_written_methods(sigs, diags);
        let requests = self.collect_requests(diags);
        let keep = self.keep_distinct(&requests, sigs, diags);
        let needs = self.collect_needs(sigs, table, &requests, &keep, diags);
        meet_needs(&needs, sigs, diags);
    }
}

fn raw_method_key(r: &RawMethod) -> (key: (DefId, Symbol, ReceiverDomain))
    ensures
        key.deep_view() == raw_key(r.deep_view()),
{
    (r.owner, r.name.clone(), ReceiverDomain::of_self_param(r.sig.self_param.as_ref()))
}

fn generally_defined(sets: &Table<(DefId, Symbol, ReceiverDomain), MethodSet>, owner: DefId, name: &Symbol, domain: ReceiverDomain) -> (r: bool)
    ensures
        r == has_general(sets@, (owner, name@, domain)),
{
    let key: (DefId, Symbol, ReceiverDomain) = (owner, name.clone(), domain);
    match sets.get(&key) {
        Some(set) => set.generic.is_some(),
        None => false,
    }
}

/// Whether a static and an instance method of one name meet.
fn clashes_statically(
    sets: &Table<(DefId, Symbol, ReceiverDomain), MethodSet>,
    key: &(DefId, Symbol, ReceiverDomain),
) -> (r: bool)
    ensures
        r == static_clash(sets@, key.deep_view()),
{
    if matches!(key.2, ReceiverDomain::Static) {
        generally_defined(sets, key.0, &key.1, ReceiverDomain::Arc) || generally_defined(
            sets,
            key.0,
            &key.1,
            ReceiverDomain::Owned,
        )
    } else {
        generally_defined(sets, key.0, &key.1, ReceiverDomain::Static)
    }
}

fn register(
    r: &RawMethod,
    sets: &mut Table<(DefId, Symbol, ReceiverDomain), MethodSet>,
    defaults: &mut Vec<(DefId, Symbol, ReceiverDomain)>,
    diags: &mut Vec<Diagnostic>,
)
    ensures
        (final(sets)@, final(defaults).deep_view(), final(diags).deep_view()) == registered(
            r.deep_view(),
            old(sets)@,
            old(defaults).deep_view(),
            old(diags).deep_view(),
        ),
{
    let key = raw_method_key(r);
    let clash = clashes_statically(sets, &key);
    let mut set = match sets.get(&key) {
        Some(set) => set.dup(),
        None => MethodSet::new(),
    };
    match &r.specialization {
        None => {
            if set.generic.is_some() || clash {
                let message = cat5(
                    "method `",
                    r.name.as_str(),
                    "` is defined more than once for `",
                    r.owner_name.as_str(),
                    "`",
                );
                report(diags, message.as_str(), r.name_span, "redefined here");
            } else {
                set.generic = Some(r.sig.dup());
                if r.is_default {
                    put(defaults, key.dup());
                }
            }
        },
        Some(args) => {
            if set.exact(args).is_some() {
                let message = cat5(
                    "method `",
                    r.name.as_str(),
                    "` is defined more than once for this specialization of `",
                    r.owner_name.as_str(),
                    "`",
                );
                report(diags, message.as_str(), r.name_span, "redefined here");
            } else {
                put(&mut set.specializations, (args.dup(), r.sig.dup()));
            }
        },
    }
    sets.insert(key, set);
}

fn candidate_known(cs: &Vec<DefaultCandidate>, source: DefId, m: &Table<Symbol, Type>) -> (r: bool)
    ensures
        r == has_candidate(cs.deep_view(), source, m@, 0),
{
    let ghost all = cs.deep_view();
    let mut i: usize = 0;
    while i < cs.len()
        invariant
            i <= cs.len(),
            all == cs.deep_view(),
            has_candidate(all, source, m@, i as int) == has_candidate(all, source, m@, 0),
        decreases cs.len() - i,
    {
        assert(all[i as int] == cs@[i as int].deep_view());
        if cs[i].source == source && cs[i].subst.same(m) {
            return true;
        }
        i += 1;
    }
    false
}

fn add_requirement(need: &mut DeclaredNeed, expected: FnSig, m: &TraitMethod, by: &Table<Symbol, Type>)
    ensures
        final(need).deep_view() == with_requirement(old(need).deep_view(), expected.deep_view(), m.deep_view(), by@),
{
    if !method_signatures_match(&need.sig, &expected) || m.ambiguous_default {
        need.ambiguous = true;
    }
    if let Some(default) = &m.default {
        let choice = substitute_values(&default.subst, by);
        if !candidate_known(&need.defaults, default.source, &choice) {
            put(
                &mut need.defaults,
                DefaultCandidate { source: default.source, subst: choice, sig: expected },
            );
        }
    }
}

fn meet_needs(
    needs: &Table<(DefId, Symbol, ReceiverDomain), DeclaredNeed>,
    sigs: &mut Signatures,
    diags: &mut Vec<Diagnostic>,
)
    ensures
        (final(sigs)@, final(diags).deep_view()) == met_needs(needs.pairs(), 0, old(sigs)@, old(diags).deep_view()),
{
    let ghost all = needs.pairs();
    let mut i: usize = 0;
    while i < needs.entries.len()
        invariant
            i <= needs.entries.len(),
            all == needs.pairs(),
            met_needs(all, i as int, sigs@, diags.deep_view()) == met_needs(
                all,
                0,
                old(sigs)@,
                old(diags).deep_view(),
            ),
        decreases needs.entries.len() - i,
    {
        let key = &needs.entries[i].0;
        let need = &needs.entries[i].1;
        assert(all[i as int].0 == key.deep_view());
        assert(all[i as int].1 == need.deep_view());
        if need.ambiguous || need.defaults.len() > 1 {
            let message = cat5(
                "multiple default implementations of method `",
                key.1.as_str(),
                "` are available for `",
                need.owner_name.as_str(),
                "`; provide an explicit implementation",
            );
            report(diags, message.as_str(), need.span, "ambiguous default");
        } else if need.defaults.len() == 1 && clashes_statically(&sigs.methods, key) {
            let message = cat5(
                "method `",
                key.1.as_str(),
                "` is defined more than once for `",
                need.owner_name.as_str(),
                "`",
            );
            report(diags, message.as_str(), need.span, "a default takes this name again");
        } else if need.defaults.len() == 1 {
            let c = &need.defaults[0];
            assert(need.deep_view().defaults[0] == c.deep_view());
            let mut set = match sigs.methods.get(key) {
                Some(set) => set.dup(),
                None => MethodSet::new(),
            };
            set.generic = Some(c.sig.dup());
            sigs.methods.insert(key.dup(), set);
            sigs.default_method_substitutions.insert(key.dup(), c.subst.dup());
            sigs.default_method_sources.insert(key.dup(), c.source);
        } else {
            let message = cat7(
                "`",
                need.owner_name.as_str(),
                "` does not implement required method `",
                key.1.as_str(),
                "` of trait `",
                need.trait_name.as_str(),
                "`",
            );
            report(diags, message.as_str(), need.span, "missing implementation");
        }
        i += 1;
    }
}

/// Whether no name is both a static and an instance method of one owner.
pub open spec fn no_static_clash(sets: Map<MethodKey, Methods>) -> bool {
    forall|owner: DefId, name: Seq<char>|
        #![trigger has_general(sets, (owner, name, ReceiverDomain::Static))]
        has_general(sets, (owner, name, ReceiverDomain::Static)) ==> !has_general(
            sets,
            (owner, name, ReceiverDomain::Arc),
        ) && !has_general(sets, (owner, name, ReceiverDomain::Owned))
}

/// Among the written methods no name is both a static and an instance method
/// of one owner, whatever was written: a second one is refused.
pub proof fn law_written_methods_do_not_clash(
    rs: Seq<Raw>,
    i: int,
    sets: Map<MethodKey, Methods>,
    defaults: Seq<MethodKey>,
    d: Seq<Diag>,
)
    requires
        no_static_clash(sets),
    ensures
        no_static_clash(registered_from(rs, i, sets, defaults, d).0),
    decreases rs.len() - i,
{
    if 0 <= i < rs.len() {
        let (sets1, defaults1, d1) = registered(rs[i], sets, defaults, d);
        let key = raw_key(rs[i]);
        assert forall|k: MethodKey| k != key implies has_general(sets1, k) == has_general(sets, k) by {}
        assert forall|owner: DefId, name: Seq<char>|
            #![trigger has_general(sets1, (owner, name, ReceiverDomain::Static))]
            has_general(sets1, (owner, name, ReceiverDomain::Static)) implies !has_general(
            sets1,
            (owner, name, ReceiverDomain::Arc),
        ) && !has_general(sets1, (owner, name, ReceiverDomain::Owned)) by {
            assert(has_general(sets, (owner, name, ReceiverDomain::Static)) ==> !has_general(
                sets,
                (owner, name, ReceiverDomain::Arc),
            ) && !has_general(sets, (owner, name, ReceiverDomain::Owned)));
        }
        law_written_methods_do_not_clash(rs, i + 1, sets1, defaults1, d1);
    }
}

proof fn lemma_defaults_do_not_clash(needs: Seq<(MethodKey, Need)>, i: int, s: Sigs, d: Seq<Diag>)
    requires
        no_static_clash(s.methods),
    ensures
        no_static_clash(met_needs(needs, i, s, d).0.methods),
    decreases needs.len() - i,
{
    if 0 <= i < needs.len() {
        let key = needs[i].0;
        let need = needs[i].1;
        if need.ambiguous || need.defaults.len() > 1 {
            let d1 = d.push(
                diag(
                    "multiple default implementations of method `"@ + key.1 + "` are available for `"@
                        + need.owner_name + "`; provide an explicit implementation"@,
                    need.span,
                    "ambiguous default"@,
                ),
            );
            lemma_defaults_do_not_clash(needs, i + 1, s, d1);
        } else if need.defaults.len() == 1 && static_clash(s.methods, key) {
            lemma_defaults_do_not_clash(needs, i + 1, s, d.push(clashing_default(key, need)));
        } else if need.defaults.len() == 1 {
            let c = need.defaults[0];
            let set = match s.methods.get(key) {
                Some(set) => set,
                None => Methods::none(),
            };
            let s1 = Sigs {
                methods: s.methods.insert(key, Methods { generic: Some(c.sig), ..set }),
                default_method_substitutions: s.default_method_substitutions.insert(key, c.subst),
                default_method_sources: s.default_method_sources.insert(key, c.source),
                ..s
            };
            assert forall|k: MethodKey| k != key implies has_general(s1.methods, k) == has_general(s.methods, k) by {}
            assert forall|owner: DefId, name: Seq<char>|
                #![trigger has_general(s1.methods, (owner, name, ReceiverDomain::Static))]
                has_general(s1.methods, (owner, name, ReceiverDomain::Static)) implies !has_general(
                s1.methods,
                (owner, name, ReceiverDomain::Arc),
            ) && !has_general(s1.methods, (owner, name, ReceiverDomain::Owned)) by {
                assert(has_general(s.methods, (owner, name, ReceiverDomain::Static)) ==> !has_general(
                    s.methods,
                    (owner, name, ReceiverDomain::Arc),
                ) && !has_general(s.methods, (owner, name, ReceiverDomain::Owned)));
            }
            lemma_defaults_do_not_clash(needs, i + 1, s1, d);
        } else {
            let d1 = d.push(
                diag(
                    "`"@ + need.owner_name + "` does not implement required method `"@ + key.1 + "` of trait `"@
                        + need.trait_name + "`"@,
                    need.span,
                    "missing implementation"@,
                ),
            );
            lemma_defaults_do_not_clash(needs, i + 1, s, d1);
        }
    }
}

/// Among the methods of all impl blocks, the defaults that types take over
/// among them, no name is both a static and an instance method of one owner.
pub proof fn law_methods_do_not_clash(sc: Sc, table: TraitLists, s: Sigs, d: Seq<Diag>)
    ensures
        no_static_clash(with_all_impls(sc, table, s, d).0.methods),
{
    let (rs, w0, e0) = raw_from(sc, 0, Seq::empty(), s, d);
    law_written_methods_do_not_clash(rs, 0, Map::empty(), Seq::empty(), e0);
    let (w1, e2) = with_written_methods(sc, s, d);
    let (reqs, e3) = all_requests(sc, e2);
    let (impls, keep, e4) = distinct_requests(sc, reqs, 0, Seq::empty(), w1.impls, Seq::empty(), e3);
    let w2 = Sigs { impls, ..w1 };
    let (needs, e5) = all_needs(sc, w2, table, reqs, keep, 0, Seq::empty(), e4);
    lemma_defaults_do_not_clash(needs, 0, w2, e5);
}

} // verus!
