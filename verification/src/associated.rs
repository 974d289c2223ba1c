//! Associated constants and types.
use crate::ast::{type_span, AssociatedConst, AssociatedType, Item, TraitDecl, TypeExpr};
use crate::datum::{lemma_deep_len, occurs, put, Datum, Dup};
use crate::describe::{describe_type, shown};
use crate::diagnostics::{diag, report, Diag, Diagnostic};
use crate::ids::{DefId, Span, Symbol};
use crate::lower::{lowered, lowered_bound, Sc, Scope};
use crate::rules::{bound_subst, substitute_bound};
use crate::sig::{
    AssociatedConstSig, AssociatedTypeSig, Bound, ConstSig, GenericBound, Signatures, Sigs, TraitAssociatedConstSig,
    TraitAssociatedTypeSig, TypeSig,
};
use crate::subst::{subst, substitute_generic, zip_subst, zip_types, Subst};
use crate::table::{lemma_pair_index, lemma_unseen, pair_get, pair_map, pair_set, unseen, Table};
use crate::text::{cat3, cat5, cat7};
use crate::ty::{group_tys, Ty, Type};
use vstd::prelude::*;

verus! {

broadcast use group_tys, lemma_deep_len;

/// An associated item: its owner and its name.
pub type ItemKey = (DefId, Seq<char>);

/// What traits declare and children inherit.
pub trait Inherited: Dup {
    /// The item with generic parameters replaced.
    spec fn replaced(v: Self::V, by: Subst) -> Self::V;

    /// The names of the items that a trait declares itself.
    spec fn declared(t: TraitDecl) -> Seq<Seq<char>>;

    fn substituted(&self, by: &Table<Symbol, Type>) -> (r: Self)
        ensures
            r.deep_view() == Self::replaced(self.deep_view(), by@),
    ;

    fn declared_names(t: &TraitDecl) -> (r: Vec<Symbol>)
        ensures
            r.deep_view() == Self::declared(*t),
    ;
}

impl Dup for TraitAssociatedConstSig {
    fn dup(&self) -> (r: Self) {
        TraitAssociatedConstSig {
            visibility: self.visibility,
            file: self.file,
            ty: self.ty.clone(),
            default: self.default,
        }
    }
}

impl Inherited for TraitAssociatedConstSig {
    open spec fn replaced(v: ConstSig, by: Subst) -> ConstSig {
        ConstSig { ty: subst(v.ty, by), ..v }
    }

    open spec fn declared(t: TraitDecl) -> Seq<Seq<char>> {
        Seq::new(t.associated_consts@.len(), |i: int| t.associated_consts@[i].name.name@)
    }

    fn substituted(&self, by: &Table<Symbol, Type>) -> (r: Self) {
        TraitAssociatedConstSig {
            visibility: self.visibility,
            file: self.file,
            ty: substitute_generic(&self.ty, by),
            default: self.default,
        }
    }

    fn declared_names(t: &TraitDecl) -> (r: Vec<Symbol>) {
        let mut out: Vec<Symbol> = Vec::new();
        let mut i: usize = 0;
        while i < t.associated_consts.len()
            invariant
                i <= t.associated_consts.len(),
                out.len() == i,
                forall|j: int| 0 <= j < i ==> (#[trigger] out@[j])@ == t.associated_consts@[j].name.name@,
            decreases t.associated_consts.len() - i,
        {
            out.push(t.associated_consts[i].name.name.clone());
            i += 1;
        }
        proof {
            assert(out.deep_view() =~= Self::declared(*t));
        }
        out
    }
}

impl Dup for TraitAssociatedTypeSig {
    fn dup(&self) -> (r: Self) {
        TraitAssociatedTypeSig {
            visibility: self.visibility,
            file: self.file,
            default: self.default.dup(),
        }
    }
}

impl Inherited for TraitAssociatedTypeSig {
    open spec fn replaced(v: TypeSig, by: Subst) -> TypeSig {
        TypeSig {
            ty: match v.ty {
                Some(t) => Some(subst(t, by)),
                None => None,
            },
            ..v
        }
    }

    open spec fn declared(t: TraitDecl) -> Seq<Seq<char>> {
        Seq::new(t.associated_types@.len(), |i: int| t.associated_types@[i].name.name@)
    }

    fn substituted(&self, by: &Table<Symbol, Type>) -> (r: Self) {
        TraitAssociatedTypeSig {
            visibility: self.visibility,
            file: self.file,
            default: match &self.default {
                Some(t) => Some(substitute_generic(t, by)),
                None => None,
            },
        }
    }

    fn declared_names(t: &TraitDecl) -> (r: Vec<Symbol>) {
        let mut out: Vec<Symbol> = Vec::new();
        let mut i: usize = 0;
        while i < t.associated_types.len()
            invariant
                i <= t.associated_types.len(),
                out.len() == i,
                forall|j: int| 0 <= j < i ==> (#[trigger] out@[j])@ == t.associated_types@[j].name.name@,
            decreases t.associated_types.len() - i,
        {
            out.push(t.associated_types[i].name.name.clone());
            i += 1;
        }
        proof {
            assert(out.deep_view() =~= Self::declared(*t));
        }
        out
    }
}

/// The items of `into` with those that trait `id` declares, from the `i`-th
/// name on, added where `into` has none of that name.
pub open spec fn with_named<V: Inherited>(
    own: Map<ItemKey, V::V>,
    into: DefId,
    id: DefId,
    names: Seq<Seq<char>>,
    by: Subst,
    i: int,
    all: Seq<(ItemKey, V::V)>,
) -> Seq<(ItemKey, V::V)>
    decreases names.len() - i,
{
    if 0 <= i < names.len() {
        let all1 = if pair_get(all, (into, names[i])) is Some {
            all
        } else {
            match own.get((id, names[i])) {
                Some(v) => pair_set(all, (into, names[i]), V::replaced(v, by)),
                None => all,
            }
        };
        with_named::<V>(own, into, id, names, by, i + 1, all1)
    } else {
        all
    }
}

/// The items of `into` with those of trait `id` and its ancestors added.
/// `path` are the traits whose parents are being added.
pub open spec fn with_ancestors<V: Inherited>(
    sc: Sc,
    s: Sigs,
    own: Map<ItemKey, V::V>,
    into: DefId,
    id: DefId,
    by: Subst,
    path: Seq<DefId>,
    all: Seq<(ItemKey, V::V)>,
) -> Seq<(ItemKey, V::V)>
    decreases unseen(sc.decls.traits, path), 0nat, 0int,
{
    match sc.trait_decl(id) {
        None => all,
        Some(t) => if path.contains(id) {
            all
        } else {
            proof {
                lemma_pair_index(sc.decls.traits, id);
                lemma_unseen(sc.decls.traits, path, id);
            }
            with_ancestors_from::<V>(
                sc,
                s,
                own,
                into,
                s.parents_of(id),
                0,
                by,
                path.push(id),
                with_named::<V>(own, into, id, V::declared(t), by, 0, all),
            )
        },
    }
}

/// The same for the parents from the `i`-th on.
pub open spec fn with_ancestors_from<V: Inherited>(
    sc: Sc,
    s: Sigs,
    own: Map<ItemKey, V::V>,
    into: DefId,
    parents: Seq<Bound>,
    i: int,
    by: Subst,
    path: Seq<DefId>,
    all: Seq<(ItemKey, V::V)>,
) -> Seq<(ItemKey, V::V)>
    decreases unseen(sc.decls.traits, path), 1nat, parents.len() - i,
{
    if 0 <= i < parents.len() {
        let p = bound_subst(parents[i], by);
        let all1 = with_ancestors::<V>(
            sc,
            s,
            own,
            into,
            p.trait_id,
            zip_subst(s.generics_of_trait(p.trait_id), p.args),
            path,
            all,
        );
        with_ancestors_from::<V>(sc, s, own, into, parents, i + 1, by, path, all1)
    } else {
        all
    }
}

/// The items of the traits from the `i`-th on, inherited ones among them.
pub open spec fn effective_from<V: Inherited>(
    sc: Sc,
    s: Sigs,
    own: Map<ItemKey, V::V>,
    i: int,
    all: Seq<(ItemKey, V::V)>,
) -> Seq<(ItemKey, V::V)>
    decreases sc.decls.traits.len() - i,
{
    if 0 <= i < sc.decls.traits.len() {
        let id = sc.decls.traits[i].0;
        effective_from::<V>(
            sc,
            s,
            own,
            i + 1,
            with_ancestors::<V>(sc, s, own, id, id, Map::empty(), Seq::empty(), all),
        )
    } else {
        all
    }
}

/// The constants that a trait declares from the `i`-th on, added to `m`.
pub open spec fn trait_consts(
    sc: Sc,
    id: DefId,
    cs: Seq<AssociatedConst>,
    i: int,
    m: Map<ItemKey, ConstSig>,
    d: Seq<Diag>,
) -> (Map<ItemKey, ConstSig>, Seq<Diag>)
    decreases cs.len() - i,
{
    if 0 <= i < cs.len() {
        let (ty, d1) = lowered(sc, cs[i].ty, d);
        let sig = ConstSig {
            visibility: cs[i].visibility,
            file: cs[i].span.file,
            ty,
            value: match cs[i].value {
                Some(x) => Some(x.id),
                None => None,
            },
        };
        trait_consts(sc, id, cs, i + 1, m.insert((id, cs[i].name.name@), sig), d1)
    } else {
        (m, d)
    }
}

/// The constants that the traits from the `i`-th on declare, added to `m`.
pub open spec fn all_trait_consts(sc: Sc, i: int, m: Map<ItemKey, ConstSig>, d: Seq<Diag>) -> (
    Map<ItemKey, ConstSig>,
    Seq<Diag>,
)
    decreases sc.decls.traits.len() - i,
{
    if 0 <= i < sc.decls.traits.len() {
        let id = sc.decls.traits[i].0;
        let (m1, d1) = match sc.trait_decl(id) {
            Some(t) => trait_consts(sc, id, t.associated_consts@, 0, m, d),
            None => (m, d),
        };
        all_trait_consts(sc, i + 1, m1, d1)
    } else {
        (m, d)
    }
}

/// The types that a trait declares from the `i`-th on, added to `m`.
pub open spec fn trait_types(
    sc: Sc,
    id: DefId,
    ts: Seq<AssociatedType>,
    i: int,
    m: Map<ItemKey, TypeSig>,
    d: Seq<Diag>,
) -> (Map<ItemKey, TypeSig>, Seq<Diag>)
    decreases ts.len() - i,
{
    if 0 <= i < ts.len() {
        let (ty, d1) = match ts[i].value {
            Some(syntax) => {
                let (t, d1) = lowered(sc, syntax, d);
                (Some(t), d1)
            },
            None => (None, d),
        };
        let sig = TypeSig { visibility: ts[i].visibility, file: ts[i].span.file, ty };
        trait_types(sc, id, ts, i + 1, m.insert((id, ts[i].name.name@), sig), d1)
    } else {
        (m, d)
    }
}

/// The types that the traits from the `i`-th on declare, added to `m`.
pub open spec fn all_trait_types(sc: Sc, i: int, m: Map<ItemKey, TypeSig>, d: Seq<Diag>) -> (
    Map<ItemKey, TypeSig>,
    Seq<Diag>,
)
    decreases sc.decls.traits.len() - i,
{
    if 0 <= i < sc.decls.traits.len() {
        let id = sc.decls.traits[i].0;
        let (m1, d1) = match sc.trait_decl(id) {
            Some(t) => trait_types(sc, id, t.associated_types@, 0, m, d),
            None => (m, d),
        };
        all_trait_types(sc, i + 1, m1, d1)
    } else {
        (m, d)
    }
}

/// The constants that an impl block gives its owner from the `i`-th on,
/// added to `m`.
pub open spec fn owner_consts(
    sc: Sc,
    owner: DefId,
    cs: Seq<AssociatedConst>,
    i: int,
    m: Map<ItemKey, ConstSig>,
    d: Seq<Diag>,
) -> (Map<ItemKey, ConstSig>, Seq<Diag>)
    decreases cs.len() - i,
{
    if 0 <= i < cs.len() {
        let (ty, d1) = lowered(sc, cs[i].ty, d);
        match cs[i].value {
            Some(x) => owner_consts(
                sc,
                owner,
                cs,
                i + 1,
                m.insert(
                    (owner, cs[i].name.name@),
                    ConstSig { visibility: cs[i].visibility, file: cs[i].span.file, ty, value: Some(x.id) },
                ),
                d1,
            ),
            None => owner_consts(
                sc,
                owner,
                cs,
                i + 1,
                m,
                d1.push(
                    diag(
                        "associated constant `"@ + cs[i].name.name@ + "` must have a value"@,
                        cs[i].name.span,
                        "declared here"@,
                    ),
                ),
            ),
        }
    } else {
        (m, d)
    }
}

/// The constants of the impl blocks from the `i`-th item on, added to `m`.
pub open spec fn all_owner_consts(sc: Sc, i: int, m: Map<ItemKey, ConstSig>, d: Seq<Diag>) -> (
    Map<ItemKey, ConstSig>,
    Seq<Diag>,
)
    decreases sc.module.items@.len() - i,
{
    if 0 <= i < sc.module.items@.len() {
        let (m1, d1) = match sc.module.items@[i] {
            Item::Impl(b) => match sc.defs().found_in(b.span.file, b.target.name@) {
                Some(owner) => owner_consts(sc, owner, b.associated_consts@, 0, m, d),
                None => (m, d),
            },
            _ => (m, d),
        };
        all_owner_consts(sc, i + 1, m1, d1)
    } else {
        (m, d)
    }
}

/// The types that an impl block gives its owner from the `i`-th on, added to
/// `m`.
pub open spec fn owner_types(
    sc: Sc,
    owner: DefId,
    ts: Seq<AssociatedType>,
    i: int,
    m: Seq<(ItemKey, TypeSig)>,
    d: Seq<Diag>,
) -> (Seq<(ItemKey, TypeSig)>, Seq<Diag>)
    decreases ts.len() - i,
{
    if 0 <= i < ts.len() {
        match ts[i].value {
            Some(syntax) => {
                let (t, d1) = lowered(sc, syntax, d);
                let sig = TypeSig { visibility: ts[i].visibility, file: ts[i].span.file, ty: Some(t) };
                owner_types(sc, owner, ts, i + 1, pair_set(m, (owner, ts[i].name.name@), sig), d1)
            },
            None => owner_types(
                sc,
                owner,
                ts,
                i + 1,
                m,
                d.push(
                    diag(
                        "associated type `"@ + ts[i].name.name@ + "` must name a type"@,
                        ts[i].name.span,
                        "declared here"@,
                    ),
                ),
            ),
        }
    } else {
        (m, d)
    }
}

/// The types of the impl blocks from the `i`-th item on, added to `m`.
pub open spec fn all_owner_types(sc: Sc, i: int, m: Seq<(ItemKey, TypeSig)>, d: Seq<Diag>) -> (
    Seq<(ItemKey, TypeSig)>,
    Seq<Diag>,
)
    decreases sc.module.items@.len() - i,
{
    if 0 <= i < sc.module.items@.len() {
        let (m1, d1) = match sc.module.items@[i] {
            Item::Impl(b) => match sc.defs().found_in(b.span.file, b.target.name@) {
                Some(owner) => owner_types(sc, owner, b.associated_types@, 0, m, d),
                None => (m, d),
            },
            _ => (m, d),
        };
        all_owner_types(sc, i + 1, m1, d1)
    } else {
        (m, d)
    }
}

/// The owner's constants after those of an implemented trait, from the `i`-th
/// on: a missing one takes the default or is an error, a present one must
/// have the declared type.
pub open spec fn required_consts(
    sc: Sc,
    owner: DefId,
    bound: Bound,
    by: Subst,
    span: Span,
    all: Seq<(ItemKey, ConstSig)>,
    i: int,
    m: Map<ItemKey, ConstSig>,
    d: Seq<Diag>,
) -> (Map<ItemKey, ConstSig>, Seq<Diag>)
    decreases all.len() - i,
{
    if 0 <= i < all.len() {
        let name = all[i].0.1;
        let declared = all[i].1;
        let ty = subst(declared.ty, by);
        if all[i].0.0 != bound.trait_id {
            required_consts(sc, owner, bound, by, span, all, i + 1, m, d)
        } else {
            match m.get((owner, name)) {
                Some(actual) => required_consts(
                    sc,
                    owner,
                    bound,
                    by,
                    span,
                    all,
                    i + 1,
                    m,
                    if actual.ty == ty {
                        d
                    } else {
                        d.push(
                            diag(
                                "associated constant `"@ + name + "` has type `"@ + shown(actual.ty, sc.defs())
                                    + "`, expected `"@ + shown(ty, sc.defs()) + "`"@,
                                span,
                                "implementation is here"@,
                            ),
                        )
                    },
                ),
                None => match declared.value {
                    Some(_) => required_consts(
                        sc,
                        owner,
                        bound,
                        by,
                        span,
                        all,
                        i + 1,
                        m.insert((owner, name), ConstSig { ty, ..declared }),
                        d,
                    ),
                    None => required_consts(
                        sc,
                        owner,
                        bound,
                        by,
                        span,
                        all,
                        i + 1,
                        m,
                        d.push(
                            diag(
                                "missing associated constant `"@ + name + "` of trait `"@ + sc.name(bound.trait_id)
                                    + "`"@,
                                span,
                                "implementation is here"@,
                            ),
                        ),
                    ),
                },
            }
        }
    } else {
        (m, d)
    }
}

/// The owner's types after those of an implemented trait, from the `i`-th on.
pub open spec fn required_types(
    sc: Sc,
    owner: DefId,
    bound: Bound,
    by: Subst,
    span: Span,
    all: Seq<(ItemKey, TypeSig)>,
    i: int,
    m: Seq<(ItemKey, TypeSig)>,
    d: Seq<Diag>,
) -> (Seq<(ItemKey, TypeSig)>, Seq<Diag>)
    decreases all.len() - i,
{
    if 0 <= i < all.len() {
        let name = all[i].0.1;
        let declared = all[i].1;
        if all[i].0.0 != bound.trait_id || pair_get(m, (owner, name)) is Some {
            required_types(sc, owner, bound, by, span, all, i + 1, m, d)
        } else {
            match declared.ty {
                Some(t) => required_types(
                    sc,
                    owner,
                    bound,
                    by,
                    span,
                    all,
                    i + 1,
                    pair_set(m, (owner, name), TypeSig { ty: Some(subst(t, by)), ..declared }),
                    d,
                ),
                None => required_types(
                    sc,
                    owner,
                    bound,
                    by,
                    span,
                    all,
                    i + 1,
                    m,
                    d.push(
                        diag(
                            "missing associated type `"@ + name + "` of trait `"@ + sc.name(bound.trait_id) + "`"@,
                            span,
                            "implementation is here"@,
                        ),
                    ),
                ),
            }
        }
    } else {
        (m, d)
    }
}

/// A declared implementation: the owner and the listed traits.
pub open spec fn implementing(sc: Sc, item: Item) -> Option<(DefId, Seq<TypeExpr>)> {
    match item {
        Item::Struct(t) => match sc.defs().found_in(t.span.file, t.name.name@) {
            Some(id) => Some((id, t.traits@)),
            None => None,
        },
        Item::Enum(t) => match sc.defs().found_in(t.span.file, t.name.name@) {
            Some(id) => Some((id, t.traits@)),
            None => None,
        },
        Item::Impl(b) => match sc.defs().found_in(b.span.file, b.target.name@) {
            Some(id) => Some((id, b.traits@)),
            None => None,
        },
        _ => None,
    }
}

/// The constants after the listed traits from the `i`-th on.
pub open spec fn consts_of_refs(
    sc: Sc,
    s: Sigs,
    all: Seq<(ItemKey, ConstSig)>,
    owner: DefId,
    refs: Seq<TypeExpr>,
    i: int,
    m: Map<ItemKey, ConstSig>,
    d: Seq<Diag>,
) -> (Map<ItemKey, ConstSig>, Seq<Diag>)
    decreases refs.len() - i,
{
    if 0 <= i < refs.len() {
        let (m1, d1) = match lowered_bound(sc, refs[i], Seq::empty()).0 {
            Some(bound) => required_consts(
                sc,
                owner,
                bound,
                zip_subst(s.generics_of_trait(bound.trait_id), bound.args),
                type_span(refs[i]),
                all,
                0,
                m,
                d,
            ),
            None => (m, d),
        };
        consts_of_refs(sc, s, all, owner, refs, i + 1, m1, d1)
    } else {
        (m, d)
    }
}

/// The constants after the implementations of the items from the `i`-th on.
pub open spec fn consts_of_items(
    sc: Sc,
    s: Sigs,
    all: Seq<(ItemKey, ConstSig)>,
    i: int,
    m: Map<ItemKey, ConstSig>,
    d: Seq<Diag>,
) -> (Map<ItemKey, ConstSig>, Seq<Diag>)
    decreases sc.module.items@.len() - i,
{
    if 0 <= i < sc.module.items@.len() {
        let (m1, d1) = match implementing(sc, sc.module.items@[i]) {
            Some((owner, refs)) => consts_of_refs(sc, s, all, owner, refs, 0, m, d),
            None => (m, d),
        };
        consts_of_items(sc, s, all, i + 1, m1, d1)
    } else {
        (m, d)
    }
}

/// The types after the listed traits from the `i`-th on.
pub open spec fn types_of_refs(
    sc: Sc,
    s: Sigs,
    all: Seq<(ItemKey, TypeSig)>,
    owner: DefId,
    refs: Seq<TypeExpr>,
    i: int,
    m: Seq<(ItemKey, TypeSig)>,
    d: Seq<Diag>,
) -> (Seq<(ItemKey, TypeSig)>, Seq<Diag>)
    decreases refs.len() - i,
{
    if 0 <= i < refs.len() {
        let (m1, d1) = match lowered_bound(sc, refs[i], Seq::empty()).0 {
            Some(bound) => required_types(
                sc,
                owner,
                bound,
                zip_subst(s.generics_of_trait(bound.trait_id), bound.args),
                type_span(refs[i]),
                all,
                0,
                m,
                d,
            ),
            None => (m, d),
        };
        types_of_refs(sc, s, all, owner, refs, i + 1, m1, d1)
    } else {
        (m, d)
    }
}

/// The types after the implementations of the items from the `i`-th on.
pub open spec fn types_of_items(
    sc: Sc,
    s: Sigs,
    all: Seq<(ItemKey, TypeSig)>,
    i: int,
    m: Seq<(ItemKey, TypeSig)>,
    d: Seq<Diag>,
) -> (Seq<(ItemKey, TypeSig)>, Seq<Diag>)
    decreases sc.module.items@.len() - i,
{
    if 0 <= i < sc.module.items@.len() {
        let (m1, d1) = match implementing(sc, sc.module.items@[i]) {
            Some((owner, refs)) => types_of_refs(sc, s, all, owner, refs, 0, m, d),
            None => (m, d),
        };
        types_of_items(sc, s, all, i + 1, m1, d1)
    } else {
        (m, d)
    }
}

/// The signatures with the associated constants added.
pub open spec fn with_constants(sc: Sc, s: Sigs, d: Seq<Diag>) -> (Sigs, Seq<Diag>) {
    let (own, d1) = all_trait_consts(sc, 0, Map::empty(), d);
    let all = effective_from::<TraitAssociatedConstSig>(sc, s, own, 0, Seq::empty());
    let (m, d2) = all_owner_consts(sc, 0, Map::empty(), d1);
    let (m1, d3) = consts_of_items(sc, s, all, 0, m, d2);
    (Sigs { trait_associated_consts: pair_map(all), associated_consts: m1, ..s }, d3)
}

/// The signatures with the associated types added.
pub open spec fn with_associated_types(sc: Sc, s: Sigs, d: Seq<Diag>) -> (Sigs, Seq<Diag>) {
    let (own, d1) = all_trait_types(sc, 0, Map::empty(), d);
    let all = effective_from::<TraitAssociatedTypeSig>(sc, s, own, 0, Seq::empty());
    let (m, d2) = all_owner_types(sc, 0, Seq::empty(), d1);
    let (m1, d3) = types_of_items(sc, s, all, 0, m, d2);
    (Sigs { trait_associated_types: pair_map(all), associated_types: m1, ..s }, d3)
}

fn add_named<V: Inherited>(
    own: &Table<(DefId, Symbol), V>,
    into: DefId,
    id: DefId,
    names: &Vec<Symbol>,
    by: &Table<Symbol, Type>,
    all: &mut Table<(DefId, Symbol), V>,
)
    ensures
        final(all).pairs() == with_named::<V>(own@, into, id, names.deep_view(), by@, 0, old(all).pairs()),
{
    let mut i: usize = 0;
    while i < names.len()
        invariant
            i <= names.len(),
            with_named::<V>(own@, into, id, names.deep_view(), by@, i as int, all.pairs()) == with_named::<V>(
                own@,
                into,
                id,
                names.deep_view(),
                by@,
                0,
                old(all).pairs(),
            ),
        decreases names.len() - i,
    {
        let key: (DefId, Symbol) = (into, names[i].clone());
        if all.get(&key).is_none() {
            let source: (DefId, Symbol) = (id, names[i].clone());
            if let Some(v) = own.get(&source) {
                all.insert(key, v.substituted(by));
            }
        }
        i += 1;
    }
}

impl<'a> Scope<'a> {
    fn add_ancestors<V: Inherited>(
        &self,
        sigs: &Signatures,
        own: &Table<(DefId, Symbol), V>,
        into: DefId,
        id: DefId,
        by: &Table<Symbol, Type>,
        path: &Vec<DefId>,
        all: &mut Table<(DefId, Symbol), V>,
    )
        ensures
            final(all).pairs() == with_ancestors::<V>(
                self@,
                sigs@,
                own@,
                into,
                id,
                by@,
                path.deep_view(),
                old(all).pairs(),
            ),
        decreases unseen(self@.decls.traits, path.deep_view()),
    {
        let t = match self.trait_decl(id) {
            Some(t) => t,
            None => {
                return;
            },
        };
        if occurs(path, &id) {
            return;
        }
        let names = V::declared_names(t);
        add_named(own, into, id, &names, by, all);
        let mut deeper = path.dup();
        put(&mut deeper, id);
        proof {
            lemma_pair_index(self@.decls.traits, id);
            lemma_unseen(self@.decls.traits, path.deep_view(), id);
        }
        let parents = sigs.parents_of(id);
        let ghost ps = parents.deep_view();
        let ghost all0 = all.pairs();
        let mut i: usize = 0;
        while i < parents.len()
            invariant
                i <= parents.len(),
                ps == parents.deep_view(),
                unseen(self@.decls.traits, deeper.deep_view()) < unseen(self@.decls.traits, path.deep_view()),
                with_ancestors_from::<V>(
                    self@,
                    sigs@,
                    own@,
                    into,
                    ps,
                    i as int,
                    by@,
                    deeper.deep_view(),
                    all.pairs(),
                ) == with_ancestors_from::<V>(self@, sigs@, own@, into, ps, 0, by@, deeper.deep_view(), all0),
            decreases parents.len() - i,
        {
            assert(ps[i as int] == parents@[i as int].deep_view());
            let p = substitute_bound(&parents[i], by);
            let names = sigs.generics_of_trait(p.trait_id);
            let m = zip_types(&names, &p.args);
            self.add_ancestors(sigs, own, into, p.trait_id, &m, &deeper, all);
            i += 1;
        }
    }

    fn effective<V: Inherited>(&self, sigs: &Signatures, own: &Table<(DefId, Symbol), V>) -> (all: Table<(DefId, Symbol), V>)
        ensures
            all.pairs() == effective_from::<V>(self@, sigs@, own@, 0, Seq::empty()),
    {
        let mut all: Table<(DefId, Symbol), V> = Table::new();
        let by: Table<Symbol, Type> = Table::new();
        let path: Vec<DefId> = Vec::new();
        proof {
            assert(path.deep_view() =~= Seq::<DefId>::empty());
        }
        let mut i: usize = 0;
        while i < self.decls.trait_decls.entries.len()
            invariant
                i <= self.decls.trait_decls.entries.len(),
                by@ == Map::<Seq<char>, Ty>::empty(),
                path.deep_view() == Seq::<DefId>::empty(),
                effective_from::<V>(self@, sigs@, own@, i as int, all.pairs()) == effective_from::<V>(
                    self@,
                    sigs@,
                    own@,
                    0,
                    Seq::empty(),
                ),
            decreases self.decls.trait_decls.entries.len() - i,
        {
            let id = self.decls.trait_decls.entries[i].0;
            assert(self@.decls.traits[i as int].0 == id);
            self.add_ancestors(sigs, own, id, id, &by, &path, &mut all);
            i += 1;
        }
        all
    }

    fn own_trait_consts(&self, diags: &mut Vec<Diagnostic>) -> (m: Table<(DefId, Symbol), TraitAssociatedConstSig>)
        ensures
            (m@, final(diags).deep_view()) == all_trait_consts(self@, 0, Map::empty(), old(diags).deep_view()),
    {
        let mut m: Table<(DefId, Symbol), TraitAssociatedConstSig> = Table::new();
        let mut i: usize = 0;
        while i < self.decls.trait_decls.entries.len()
            invariant
                i <= self.decls.trait_decls.entries.len(),
                all_trait_consts(self@, i as int, m@, diags.deep_view()) == all_trait_consts(
                    self@,
                    0,
                    Map::empty(),
                    old(diags).deep_view(),
                ),
            decreases self.decls.trait_decls.entries.len() - i,
        {
            let id = self.decls.trait_decls.entries[i].0;
            assert(self@.decls.traits[i as int].0 == id);
            if let Some(t) = self.trait_decl(id) {
                let ghost m0 = m@;
                let ghost d0 = diags.deep_view();
                let mut j: usize = 0;
                while j < t.associated_consts.len()
                    invariant
                        j <= t.associated_consts.len(),
                        trait_consts(self@, id, t.associated_consts@, j as int, m@, diags.deep_view()) == trait_consts(
                            self@,
                            id,
                            t.associated_consts@,
                            0,
                            m0,
                            d0,
                        ),
                    decreases t.associated_consts.len() - j,
                {
                    let c = &t.associated_consts[j];
                    let ty = self.lower_type_expr(&c.ty, diags);
                    let default = match &c.value {
                        Some(x) => Some(x.id),
                        None => None,
                    };
                    m.insert(
                        (id, c.name.name.clone()),
                        TraitAssociatedConstSig { visibility: c.visibility, file: c.span.file, ty, default },
                    );
                    j += 1;
                }
            }
            i += 1;
        }
        m
    }

    fn own_trait_types(&self, diags: &mut Vec<Diagnostic>) -> (m: Table<(DefId, Symbol), TraitAssociatedTypeSig>)
        ensures
            (m@, final(diags).deep_view()) == all_trait_types(self@, 0, Map::empty(), old(diags).deep_view()),
    {
        let mut m: Table<(DefId, Symbol), TraitAssociatedTypeSig> = Table::new();
        let mut i: usize = 0;
        while i < self.decls.trait_decls.entries.len()
            invariant
                i <= self.decls.trait_decls.entries.len(),
                all_trait_types(self@, i as int, m@, diags.deep_view()) == all_trait_types(
                    self@,
                    0,
                    Map::empty(),
                    old(diags).deep_view(),
                ),
            decreases self.decls.trait_decls.entries.len() - i,
        {
            let id = self.decls.trait_decls.entries[i].0;
            assert(self@.decls.traits[i as int].0 == id);
            if let Some(t) = self.trait_decl(id) {
                let ghost m0 = m@;
                let ghost d0 = diags.deep_view();
                let mut j: usize = 0;
                while j < t.associated_types.len()
                    invariant
                        j <= t.associated_types.len(),
                        trait_types(self@, id, t.associated_types@, j as int, m@, diags.deep_view()) == trait_types(
                            self@,
                            id,
                            t.associated_types@,
                            0,
                            m0,
                            d0,
                        ),
                    decreases t.associated_types.len() - j,
                {
                    let a = &t.associated_types[j];
                    let default = match &a.value {
                        Some(syntax) => Some(self.lower_type_expr(syntax, diags)),
                        None => None,
                    };
                    m.insert(
                        (id, a.name.name.clone()),
                        TraitAssociatedTypeSig { visibility: a.visibility, file: a.span.file, default },
                    );
                    j += 1;
                }
            }
            i += 1;
        }
        m
    }

    fn own_consts(&self, diags: &mut Vec<Diagnostic>) -> (m: Table<(DefId, Symbol), AssociatedConstSig>)
        ensures
            (m@, final(diags).deep_view()) == all_owner_consts(self@, 0, Map::empty(), old(diags).deep_view()),
    {
        let mut m: Table<(DefId, Symbol), AssociatedConstSig> = Table::new();
        let mut i: usize = 0;
        while i < self.module.items.len()
            invariant
                i <= self.module.items.len(),
                all_owner_consts(self@, i as int, m@, diags.deep_view()) == all_owner_consts(
                    self@,
                    0,
                    Map::empty(),
                    old(diags).deep_view(),
                ),
            decreases self.module.items.len() - i,
        {
            if let Item::Impl(b) = &self.module.items[i] {
                if let Some(owner) = self.names.definitions.lookup_in(b.span.file, &b.target.name) {
                    self.add_owner_consts(owner, &b.associated_consts, &mut m, diags);
                }
            }
            i += 1;
        }
        m
    }

    fn add_owner_consts(
        &self,
        owner: DefId,
        cs: &Vec<AssociatedConst>,
        m: &mut Table<(DefId, Symbol), AssociatedConstSig>,
        diags: &mut Vec<Diagnostic>,
    )
        ensures
            (final(m)@, final(diags).deep_view()) == owner_consts(
                self@,
                owner,
                cs@,
                0,
                old(m)@,
                old(diags).deep_view(),
            ),
    {
        let mut j: usize = 0;
        while j < cs.len()
            invariant
                j <= cs.len(),
                owner_consts(self@, owner, cs@, j as int, m@, diags.deep_view()) == owner_consts(
                    self@,
                    owner,
                    cs@,
                    0,
                    old(m)@,
                    old(diags).deep_view(),
                ),
            decreases cs.len() - j,
        {
            let c = &cs[j];
            let ty = self.lower_type_expr(&c.ty, diags);
            match &c.value {
                Some(x) => {
                    m.insert(
                        (owner, c.name.name.clone()),
                        AssociatedConstSig { visibility: c.visibility, file: c.span.file, ty, value: x.id },
                    );
                },
                None => {
                    let message = cat3("associated constant `", c.name.name.as_str(), "` must have a value");
                    report(diags, message.as_str(), c.name.span, "declared here");
                },
            }
            j += 1;
        }
    }

    fn own_types(&self, diags: &mut Vec<Diagnostic>) -> (m: Table<(DefId, Symbol), AssociatedTypeSig>)
        ensures
            (m.pairs(), final(diags).deep_view()) == all_owner_types(self@, 0, Seq::empty(), old(diags).deep_view()),
    {
        let mut m: Table<(DefId, Symbol), AssociatedTypeSig> = Table::new();
        let mut i: usize = 0;
        while i < self.module.items.len()
            invariant
                i <= self.module.items.len(),
                all_owner_types(self@, i as int, m.pairs(), diags.deep_view()) == all_owner_types(
                    self@,
                    0,
                    Seq::empty(),
                    old(diags).deep_view(),
                ),
            decreases self.module.items.len() - i,
        {
            if let Item::Impl(b) = &self.module.items[i] {
                if let Some(owner) = self.names.definitions.lookup_in(b.span.file, &b.target.name) {
                    self.add_owner_types(owner, &b.associated_types, &mut m, diags);
                }
            }
            i += 1;
        }
        m
    }

    fn add_owner_types(
        &self,
        owner: DefId,
        ts: &Vec<AssociatedType>,
        m: &mut Table<(DefId, Symbol), AssociatedTypeSig>,
        diags: &mut Vec<Diagnostic>,
    )
        ensures
            (final(m).pairs(), final(diags).deep_view()) == owner_types(
                self@,
                owner,
                ts@,
                0,
                old(m).pairs(),
                old(diags).deep_view(),
            ),
    {
        let mut j: usize = 0;
        while j < ts.len()
            invariant
                j <= ts.len(),
                owner_types(self@, owner, ts@, j as int, m.pairs(), diags.deep_view()) == owner_types(
                    self@,
                    owner,
                    ts@,
                    0,
                    old(m).pairs(),
                    old(diags).deep_view(),
                ),
            decreases ts.len() - j,
        {
            let a = &ts[j];
            match &a.value {
                Some(syntax) => {
                    let ty = self.lower_type_expr(syntax, diags);
                    m.insert(
                        (owner, a.name.name.clone()),
                        AssociatedTypeSig { visibility: a.visibility, file: a.span.file, ty },
                    );
                },
                None => {
                    let message = cat3("associated type `", a.name.name.as_str(), "` must name a type");
                    report(diags, message.as_str(), a.name.span, "declared here");
                },
            }
            j += 1;
        }
    }

    fn require_consts(
        &self,
        owner: DefId,
        bound: &GenericBound,
        by: &Table<Symbol, Type>,
        span: Span,
        all: &Table<(DefId, Symbol), TraitAssociatedConstSig>,
        m: &mut Table<(DefId, Symbol), AssociatedConstSig>,
        diags: &mut Vec<Diagnostic>,
    )
        ensures
            (final(m)@, final(diags).deep_view()) == required_consts(
                self@,
                owner,
                bound.deep_view(),
                by@,
                span,
                all.pairs(),
                0,
                old(m)@,
                old(diags).deep_view(),
            ),
    {
        let ghost ps = all.pairs();
        let ghost bv = bound.deep_view();
        let mut i: usize = 0;
        while i < all.entries.len()
            invariant
                i <= all.entries.len(),
                ps == all.pairs(),
                bv == bound.deep_view(),
                required_consts(self@, owner, bv, by@, span, ps, i as int, m@, diags.deep_view()) == required_consts(
                    self@,
                    owner,
                    bv,
                    by@,
                    span,
                    ps,
                    0,
                    old(m)@,
                    old(diags).deep_view(),
                ),
            decreases all.entries.len() - i,
        {
            let entry = &all.entries[i];
            assert(ps[i as int] == entry.deep_view());
            if entry.0.0 == bound.trait_id {
                let name = &entry.0.1;
                let key: (DefId, Symbol) = (owner, name.clone());
                let ty = substitute_generic(&entry.1.ty, by);
                let missing = match m.get(&key) {
                    Some(actual) => {
                        if !actual.ty.same(&ty) {
                            let found = describe_type(&actual.ty, &self.names.definitions);
                            let expected = describe_type(&ty, &self.names.definitions);
                            let message = cat7(
                                "associated constant `",
                                name.as_str(),
                                "` has type `",
                                found.as_str(),
                                "`, expected `",
                                expected.as_str(),
                                "`",
                            );
                            report(diags, message.as_str(), span, "implementation is here");
                        }
                        false
                    },
                    None => true,
                };
                if missing {
                    match entry.1.default {
                        Some(value) => {
                            m.insert(
                                key,
                                AssociatedConstSig {
                                    visibility: entry.1.visibility,
                                    file: entry.1.file,
                                    ty,
                                    value,
                                },
                            );
                        },
                        None => {
                            let message = cat5(
                                "missing associated constant `",
                                name.as_str(),
                                "` of trait `",
                                self.names.definitions.name(bound.trait_id),
                                "`",
                            );
                            report(diags, message.as_str(), span, "implementation is here");
                        },
                    }
                }
            }
            i += 1;
        }
    }

    fn require_types(
        &self,
        owner: DefId,
        bound: &GenericBound,
        by: &Table<Symbol, Type>,
        span: Span,
        all: &Table<(DefId, Symbol), TraitAssociatedTypeSig>,
        m: &mut Table<(DefId, Symbol), AssociatedTypeSig>,
        diags: &mut Vec<Diagnostic>,
    )
        ensures
            (final(m).pairs(), final(diags).deep_view()) == required_types(
                self@,
                owner,
                bound.deep_view(),
                by@,
                span,
                all.pairs(),
                0,
                old(m).pairs(),
                old(diags).deep_view(),
            ),
    {
        let ghost ps = all.pairs();
        let ghost bv = bound.deep_view();
        let mut i: usize = 0;
        while i < all.entries.len()
            invariant
                i <= all.entries.len(),
                ps == all.pairs(),
                bv == bound.deep_view(),
                required_types(self@, owner, bv, by@, span, ps, i as int, m.pairs(), diags.deep_view())
                    == required_types(
                    self@,
                    owner,
                    bv,
                    by@,
                    span,
                    ps,
                    0,
                    old(m).pairs(),
                    old(diags).deep_view(),
                ),
            decreases all.entries.len() - i,
        {
            let entry = &all.entries[i];
            assert(ps[i as int] == entry.deep_view());
            if entry.0.0 == bound.trait_id {
                let name = &entry.0.1;
                let key: (DefId, Symbol) = (owner, name.clone());
                if m.get(&key).is_none() {
                    match &entry.1.default {
                        Some(t) => {
                            let ty = substitute_generic(t, by);
                            m.insert(
                                key,
                                AssociatedTypeSig { visibility: entry.1.visibility, file: entry.1.file, ty },
                            );
                        },
                        None => {
                            let message = cat5(
                                "missing associated type `",
                                name.as_str(),
                                "` of trait `",
                                self.names.definitions.name(bound.trait_id),
                                "`",
                            );
                            report(diags, message.as_str(), span, "implementation is here");
                        },
                    }
                }
            }
            i += 1;
        }
    }

    fn implementing_item(&self, item: &'a Item) -> (r: Option<(DefId, &'a Vec<TypeExpr>)>)
        ensures
            r matches Some((id, refs)) ==> implementing(self@, *item) == Some((id, refs@)),
            r is None ==> implementing(self@, *item) is None,
    {
        match item {
            Item::Struct(t) => match self.names.definitions.lookup_in(t.span.file, &t.name.name) {
                Some(id) => Some((id, &t.traits)),
                None => None,
            },
            Item::Enum(t) => match self.names.definitions.lookup_in(t.span.file, &t.name.name) {
                Some(id) => Some((id, &t.traits)),
                None => None,
            },
            Item::Impl(b) => match self.names.definitions.lookup_in(b.span.file, &b.target.name) {
                Some(id) => Some((id, &b.traits)),
                None => None,
            },
            _ => None,
        }
    }

    /// The bound that a syntax denotes, without a second report of its errors.
    fn quiet_bound(&self, ty: &TypeExpr) -> (r: Option<GenericBound>)
        ensures
            r.deep_view() == lowered_bound(self@, *ty, Seq::empty()).0,
    {
        let mut unused: Vec<Diagnostic> = Vec::new();
        proof {
            assert(unused.deep_view() =~= Seq::<Diag>::empty());
        }
        self.lower_generic_bound(ty, &mut unused)
    }

    /// Adds the associated constants.
    pub fn build_associated_constants(&self, sigs: &mut Signatures, diags: &mut Vec<Diagnostic>)
        ensures
            (final(sigs)@, final(diags).deep_view()) == with_constants(self@, old(sigs)@, old(diags).deep_view()),
    {
        let own = self.own_trait_consts(diags);
        let all = self.effective(sigs, &own);
        let mut m = self.own_consts(diags);
        let ghost m0 = m@;
        let ghost d0 = diags.deep_view();
        let mut i: usize = 0;
        while i < self.module.items.len()
            invariant
                i <= self.module.items.len(),
                sigs@ == old(sigs)@,
                consts_of_items(self@, sigs@, all.pairs(), i as int, m@, diags.deep_view()) == consts_of_items(
                    self@,
                    sigs@,
                    all.pairs(),
                    0,
                    m0,
                    d0,
                ),
            decreases self.module.items.len() - i,
        {
            if let Some((owner, refs)) = self.implementing_item(&self.module.items[i]) {
                self.consts_of_implementation(sigs, &all, owner, refs, &mut m, diags);
            }
            i += 1;
        }
        sigs.trait_associated_consts = all;
        sigs.associated_consts = m;
    }

    fn consts_of_implementation(
        &self,
        sigs: &Signatures,
        all: &Table<(DefId, Symbol), TraitAssociatedConstSig>,
        owner: DefId,
        refs: &Vec<TypeExpr>,
        m: &mut Table<(DefId, Symbol), AssociatedConstSig>,
        diags: &mut Vec<Diagnostic>,
    )
        ensures
            (final(m)@, final(diags).deep_view()) == consts_of_refs(
                self@,
                sigs@,
                all.pairs(),
                owner,
                refs@,
                0,
                old(m)@,
                old(diags).deep_view(),
            ),
    {
        let mut j: usize = 0;
        while j < refs.len()
            invariant
                j <= refs.len(),
                consts_of_refs(self@, sigs@, all.pairs(), owner, refs@, j as int, m@, diags.deep_view())
                    == consts_of_refs(
                    self@,
                    sigs@,
                    all.pairs(),
                    owner,
                    refs@,
                    0,
                    old(m)@,
                    old(diags).deep_view(),
                ),
            decreases refs.len() - j,
        {
            if let Some(bound) = self.quiet_bound(&refs[j]) {
                let names = sigs.generics_of_trait(bound.trait_id);
                let by = zip_types(&names, &bound.args);
                self.require_consts(owner, &bound, &by, refs[j].span(), all, m, diags);
            }
            j += 1;
        }
    }

    /// Adds the associated types.
    pub fn build_associated_types(&self, sigs: &mut Signatures, diags: &mut Vec<Diagnostic>)
        ensures
            (final(sigs)@, final(diags).deep_view()) == with_associated_types(
                self@,
                old(sigs)@,
                old(diags).deep_view(),
            ),
    {
        let own = self.own_trait_types(diags);
        let all = self.effective(sigs, &own);
        let mut m = self.own_types(diags);
        let ghost m0 = m.pairs();
        let ghost d0 = diags.deep_view();
        let mut i: usize = 0;
        while i < self.module.items.len()
            invariant
                i <= self.module.items.len(),
                sigs@ == old(sigs)@,
                types_of_items(self@, sigs@, all.pairs(), i as int, m.pairs(), diags.deep_view()) == types_of_items(
                    self@,
                    sigs@,
                    all.pairs(),
                    0,
                    m0,
                    d0,
                ),
            decreases self.module.items.len() - i,
        {
            if let Some((owner, refs)) = self.implementing_item(&self.module.items[i]) {
                self.types_of_implementation(sigs, &all, owner, refs, &mut m, diags);
            }
            i += 1;
        }
        sigs.trait_associated_types = all;
        sigs.associated_types = m;
    }

    fn types_of_implementation(
        &self,
        sigs: &Signatures,
        all: &Table<(DefId, Symbol), TraitAssociatedTypeSig>,
        owner: DefId,
        refs: &Vec<TypeExpr>,
        m: &mut Table<(DefId, Symbol), AssociatedTypeSig>,
        diags: &mut Vec<Diagnostic>,
    )
        ensures
            (final(m).pairs(), final(diags).deep_view()) == types_of_refs(
                self@,
                sigs@,
                all.pairs(),
                owner,
                refs@,
                0,
                old(m).pairs(),
                old(diags).deep_view(),
            ),
    {
        let mut j: usize = 0;
        while j < refs.len()
            invariant
                j <= refs.len(),
                types_of_refs(self@, sigs@, all.pairs(), owner, refs@, j as int, m.pairs(), diags.deep_view())
                    == types_of_refs(
                    self@,
                    sigs@,
                    all.pairs(),
                    owner,
                    refs@,
                    0,
                    old(m).pairs(),
                    old(diags).deep_view(),
                ),
            decreases refs.len() - j,
        {
            if let Some(bound) = self.quiet_bound(&refs[j]) {
                let names = sigs.generics_of_trait(bound.trait_id);
                let by = zip_types(&names, &bound.args);
                self.require_types(owner, &bound, &by, refs[j].span(), all, m, diags);
            }
            j += 1;
        }
    }
}

} // verus!
