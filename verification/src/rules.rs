//! What signatures imply of types: fields, implementations, derivations.
use crate::datum::{lemma_deep_len, occurs, put, Datum, Dup};
use crate::ids::{DefId, SelfParam, Symbol};
use crate::names::Definitions;
use crate::representation::{alloc_kind, kind_of_alloc, AllocKind};
use crate::sig::{Bound, GenericBound, ReceiverDomain, Shape, Sig, Signatures, Sigs, TypeShape};
use crate::subst::{
    collect_pattern_bindings, subst, substitute_all, substitute_generic, substs, unify, zip_subst, zip_types, Subst,
};
use crate::table::{lemma_pair_index, lemma_unseen, pair_get, unseen, Table};
use crate::ty::{group_tys, prim_float, tys, ty_view, Ty, Type};
use vstd::prelude::*;

verus! {

broadcast use group_tys, lemma_deep_len;

/// How deep declared types and trait parents are followed into each other: as
/// far as a machine counts. Types and traits that lead back to themselves are
/// told by what has been seen on the way.
pub const NESTING_LIMIT: usize = usize::MAX;

/// A nominal type's declaration and arguments.
pub open spec fn nominal(t: Ty) -> Option<(DefId, Seq<Ty>)> {
    match t {
        Ty::Struct(id, args) => Some((id, args)),
        Ty::TupleStruct(id, args) => Some((id, args)),
        Ty::Enum(id, args) => Some((id, args)),
        _ => None,
    }
}

/// `t` with the associated types of nominal owners replaced by what the
/// owner declares. A projection that leads back to itself is poison.
pub open spec fn normalize(s: Sigs, t: Ty, seen: Seq<(DefId, Seq<char>)>) -> Ty
    decreases unseen(s.associated_types, seen), t,
{
    match t {
        Ty::Associated(owner, name) => {
            let o = normalize(s, *owner, seen);
            match nominal(o) {
                None => Ty::Associated(Box::new(o), name),
                Some((id, args)) => {
                    let key = (id, name);
                    match pair_get(s.associated_types, key) {
                        None => Ty::Associated(Box::new(o), name),
                        Some(sig) => if seen.contains(key) {
                            Ty::Error
                        } else {
                            proof {
                                lemma_unseen(s.associated_types, seen, key);
                            }
                            match sig.ty {
                                None => Ty::Error,
                                Some(declared) => normalize(
                                    s,
                                    subst(declared, zip_subst(s.owner_generics(id), args)),
                                    seen.push(key),
                                ),
                            }
                        },
                    }
                },
            }
        },
        Ty::Struct(id, args) => Ty::Struct(id, normalize_all(s, args, seen)),
        Ty::TupleStruct(id, args) => Ty::TupleStruct(id, normalize_all(s, args, seen)),
        Ty::Enum(id, args) => Ty::Enum(id, normalize_all(s, args, seen)),
        Ty::Tuple(args) => Ty::Tuple(normalize_all(s, args, seen)),
        Ty::Array(a) => Ty::Array(Box::new(normalize(s, *a, seen))),
        Ty::FixedArray(a, n) => Ty::FixedArray(Box::new(normalize(s, *a, seen)), Box::new(normalize(s, *n, seen))),
        Ty::Weak(a) => Ty::Weak(Box::new(normalize(s, *a, seen))),
        Ty::Unique(a) => Ty::Unique(Box::new(normalize(s, *a, seen))),
        Ty::Ref(a) => Ty::Ref(Box::new(normalize(s, *a, seen))),
        Ty::MutRef(a) => Ty::MutRef(Box::new(normalize(s, *a, seen))),
        Ty::Function(ps, r) => Ty::Function(normalize_all(s, ps, seen), Box::new(normalize(s, *r, seen))),
        _ => t,
    }
}

/// The types with their associated types replaced.
pub open spec fn normalize_all(s: Sigs, ts: Seq<Ty>, seen: Seq<(DefId, Seq<char>)>) -> Seq<Ty>
    decreases unseen(s.associated_types, seen), ts,
{
    Seq::new(ts.len(), |i: int| if 0 <= i < ts.len() { normalize(s, ts[i], seen) } else { Ty::Error })
}

/// `t` with its associated types replaced.
pub open spec fn normal(s: Sigs, t: Ty) -> Ty {
    normalize(s, t, Seq::empty())
}

/// Whether `actual` is `required` or has it among its ancestors.
pub open spec fn implies_bound(s: Sigs, actual: Bound, required: Bound, seen: Seq<Bound>, depth: nat) -> bool
    decreases depth,
{
    actual == required || (depth > 0 && !seen.contains(actual) && exists|i: int|
        #![trigger s.parents_of(actual.trait_id)[i]]
        0 <= i < s.parents_of(actual.trait_id).len() && implies_bound(
            s,
            bound_subst(
                s.parents_of(actual.trait_id)[i],
                zip_subst(s.generics_of_trait(actual.trait_id), actual.args),
            ),
            required,
            seen.push(actual),
            (depth - 1) as nat,
        ))
}

/// A bound with the generic parameters of `m` replaced in its arguments.
pub open spec fn bound_subst(b: Bound, m: Subst) -> Bound {
    Bound { trait_id: b.trait_id, args: substs(b.args, m) }
}

/// Whether `actual` is `required` or has it among its ancestors.
pub open spec fn bound_gives(s: Sigs, actual: Bound, required: Bound) -> bool {
    implies_bound(s, actual, required, Seq::empty(), NESTING_LIMIT as nat)
}

/// Whether one declared implementation gives `t` the trait.
pub open spec fn impl_gives(s: Sigs, declared: (Ty, Bound), t: Ty, required: Bound) -> bool {
    match unify(declared.0, t, Map::empty()) {
        Some(m) => bound_gives(s, bound_subst(declared.1, m), required),
        None => false,
    }
}

/// Whether some declared implementation gives `t` the trait.
pub open spec fn implements(s: Sigs, t: Ty, required: Bound) -> bool {
    exists|i: int| #![trigger s.impls[i]] 0 <= i < s.impls.len() && impl_gives(s, s.impls[i], t, required)
}

/// Whether `t` implements the built-in trait with this name.
pub open spec fn marked(s: Sigs, defs: Definitions, t: Ty, name: Seq<char>) -> bool {
    match defs.trait_from(name, 0) {
        Some(id) => implements(s, t, Bound { trait_id: id, args: Seq::empty() }),
        None => false,
    }
}

/// The field types of a struct type, with its arguments filled in.
pub open spec fn fields_of(s: Sigs, t: Ty) -> Option<Seq<Ty>> {
    match t {
        Ty::Struct(id, args) => fields_with(s, id, args),
        Ty::TupleStruct(id, args) => fields_with(s, id, args),
        _ => None,
    }
}

/// The field types of a declaration with these arguments; none if their
/// number is not the declared one.
pub open spec fn fields_with(s: Sigs, id: DefId, args: Seq<Ty>) -> Option<Seq<Ty>> {
    if s.generics_of(id).len() != args.len() {
        None
    } else {
        let m = zip_subst(s.generics_of(id), args);
        match s.type_shapes.get(id) {
            Some(Shape::Struct(fields)) => Some(Seq::new(fields.len(), |i: int| subst(fields[i].1, m))),
            Some(Shape::TupleStruct(fields)) => Some(substs(fields, m)),
            Some(Shape::Unit) => Some(Seq::empty()),
            None => None,
        }
    }
}

/// The named fields of a struct type, with its arguments filled in.
pub open spec fn named_fields_of(s: Sigs, t: Ty) -> Option<Seq<(Seq<char>, Ty)>> {
    match t {
        Ty::Struct(id, args) => match s.type_shapes.get(id) {
            Some(Shape::Struct(fields)) => if s.generics_of(id).len() != args.len() {
                None
            } else {
                let m = zip_subst(s.generics_of(id), args);
                Some(Seq::new(fields.len(), |i: int| (fields[i].0, subst(fields[i].1, m))))
            },
            _ => None,
        },
        _ => None,
    }
}

/// The payload types of an enum type's variant, with its arguments filled in.
pub open spec fn payload_of(s: Sigs, t: Ty, variant: int) -> Option<Seq<Ty>> {
    match t {
        Ty::Enum(id, args) => match s.enum_sigs.get(id) {
            Some(sig) => if 0 <= variant < sig.variants.len() {
                Some(substs(sig.variants[variant].1, zip_subst(sig.generics, args)))
            } else {
                None
            },
            None => None,
        },
        _ => None,
    }
}

/// The number of variants of an enum type.
pub open spec fn variant_count(s: Sigs, t: Ty) -> nat {
    match t {
        Ty::Enum(id, _) => match s.enum_sigs.get(id) {
            Some(sig) => sig.variants.len(),
            None => 0,
        },
        _ => 0,
    }
}

/// The traits whose meaning follows from the fields.
#[derive(Clone, Copy, Debug, PartialEq, Eq, Structural)]
pub enum Derived {
    Eq,
    Hash,
}

/// The source name of a derived trait.
pub open spec fn derived_name(d: Derived) -> Seq<char> {
    match d {
        Derived::Eq => "Eq"@,
        Derived::Hash => "Hash"@,
    }
}

/// Whether a struct type declares the trait and all its fields take part in
/// it, without leading back to a type in `seen`.
pub open spec fn derives(s: Sigs, defs: Definitions, d: Derived, t: Ty, seen: Seq<Ty>, depth: nat) -> bool
    decreases depth, t, 0nat,
{
    (t is Struct || t is TupleStruct) && depth > 0 && !seen.contains(t) && marked(s, defs, t, derived_name(d)) && match fields_of(s, t) {
        Some(fields) => derives_all(s, defs, d, fields, seen.push(t), (depth - 1) as nat),
        None => false,
    }
}

/// Whether a field of this type takes part in a derived trait.
pub open spec fn derives_field(s: Sigs, defs: Definitions, d: Derived, t: Ty, seen: Seq<Ty>, depth: nat) -> bool
    decreases depth, t, 1nat,
{
    match t {
        Ty::Primitive(p) => d is Eq || !prim_float(p),
        Ty::String => d is Hash,
        Ty::Unique(inner) => derives_field(s, defs, d, *inner, seen, depth),
        Ty::Struct(_, _) => derives(s, defs, d, t, seen, depth),
        Ty::TupleStruct(_, _) => derives(s, defs, d, t, seen, depth),
        Ty::Tuple(items) => derives_all(s, defs, d, items, seen, depth),
        Ty::FixedArray(element, _) => derives_field(s, defs, d, *element, seen, depth),
        _ => false,
    }
}

/// Whether all these field types take part in a derived trait.
pub open spec fn derives_all(s: Sigs, defs: Definitions, d: Derived, ts: Seq<Ty>, seen: Seq<Ty>, depth: nat) -> bool
    decreases depth, ts, 2nat,
{
    forall|i: int| #![trigger ts[i]] 0 <= i < ts.len() ==> derives_field(s, defs, d, ts[i], seen, depth)
}

/// Whether the structural form of a derived trait exists for `t`.
pub open spec fn derivable(s: Sigs, defs: Definitions, d: Derived, t: Ty) -> bool {
    derives(s, defs, d, crate::ty::ty_owned_of(t), Seq::empty(), NESTING_LIMIT as nat)
}

/// The declaration of a struct type.
pub open spec fn struct_owner(t: Ty) -> Option<DefId> {
    match t {
        Ty::Struct(id, _) => Some(id),
        Ty::TupleStruct(id, _) => Some(id),
        _ => None,
    }
}

/// Whether a struct type has a method `clone` on its owned form.
pub open spec fn clone_candidate(s: Sigs, t: Ty) -> bool {
    match struct_owner(t) {
        Some(owner) => s.methods.contains_key((owner, "clone"@, ReceiverDomain::Owned)),
        None => false,
    }
}

/// Whether a signature is `clone(: &self): Owner` without further parameters.
pub open spec fn clone_signature(sig: Sig, t: Ty) -> bool {
    sig.self_param == Some(SelfParam::OwnedRef) && sig.params.len() == 0 && sig.generics.len() == 0 && sig.ret
        == Ty::Unique(Box::new(t))
}

/// Whether a struct type has a usable `clone` override.
pub open spec fn clone_override(s: Sigs, t: Ty) -> bool {
    match struct_owner(t) {
        Some(owner) => match s.method_of(owner, "clone"@, ReceiverDomain::Owned) {
            Some(sig) => clone_signature(sig, t),
            None => false,
        },
        None => false,
    }
}

/// Whether a struct type may be copied into a fresh owned allocation.
pub open spec fn cloneable(s: Sigs, defs: Definitions, t: Ty, seen: Seq<Ty>, depth: nat) -> bool
    decreases depth, t, 0nat,
{
    (t is Struct || t is TupleStruct) && depth > 0 && !seen.contains(t) && marked(s, defs, t, "Clone"@) && (
        if clone_candidate(s, t) {
            clone_override(s, t)
        } else {
            match fields_of(s, t) {
                Some(fields) => cloneable_all(s, defs, fields, seen.push(t), (depth - 1) as nat),
                None => false,
            }
        })
}

/// Whether a field of this type may be copied structurally.
pub open spec fn cloneable_field(s: Sigs, defs: Definitions, t: Ty, seen: Seq<Ty>, depth: nat) -> bool
    decreases depth, t, 1nat,
{
    match t {
        Ty::Unique(inner) => if kind_of_alloc(*inner, defs) is Heap {
            cloneable(s, defs, *inner, seen, depth)
        } else {
            *inner is Primitive
        },
        Ty::Generic(_) => false,
        Ty::Error => false,
        Ty::Ref(_) => false,
        Ty::MutRef(_) => false,
        Ty::Tuple(items) => cloneable_all(s, defs, items, seen, depth),
        Ty::FixedArray(element, _) => cloneable_field(s, defs, *element, seen, depth),
        Ty::Struct(_, _) => cloneable_aggregate(s, defs, t, seen, depth),
        Ty::TupleStruct(_, _) => cloneable_aggregate(s, defs, t, seen, depth),
        Ty::Enum(id, _) => s.enum_sigs.contains_key(id) && depth > 0 && !seen.contains(t) && forall|v: int|
            #![trigger payload_of(s, t, v)]
            0 <= v < variant_count(s, t) ==> (match payload_of(s, t, v) {
                Some(fields) => cloneable_all(s, defs, fields, seen.push(t), (depth - 1) as nat),
                None => false,
            }),
        _ => true,
    }
}

/// Whether a struct stored in a field may be copied: a shared one always, an
/// inline one field by field, if it does not hold itself.
pub open spec fn cloneable_aggregate(s: Sigs, defs: Definitions, t: Ty, seen: Seq<Ty>, depth: nat) -> bool
    decreases depth, t, 0nat,
{
    kind_of_alloc(t, defs) is Heap || (depth > 0 && !seen.contains(t) && match fields_of(s, t) {
        Some(fields) => cloneable_all(s, defs, fields, seen.push(t), (depth - 1) as nat),
        None => false,
    })
}

/// Whether all these field types may be copied structurally.
pub open spec fn cloneable_all(s: Sigs, defs: Definitions, ts: Seq<Ty>, seen: Seq<Ty>, depth: nat) -> bool
    decreases depth, ts, 2nat,
{
    forall|i: int| #![trigger ts[i]] 0 <= i < ts.len() ==> cloneable_field(s, defs, ts[i], seen, depth)
}

/// Whether owning or copying a value of type `t` needs reference counting. A
/// type that holds itself inline adds nothing to itself.
pub open spec fn managed(s: Sigs, defs: Definitions, t: Ty, seen: Seq<Ty>, depth: nat) -> bool
    decreases depth, t, 1nat,
{
    match t {
        Ty::String => true,
        Ty::Array(_) => true,
        Ty::Function(_, _) => true,
        Ty::Weak(_) => true,
        Ty::Any(_, _) => true,
        Ty::Opaque(_, _) => true,
        Ty::Task(_) => true,
        Ty::Thread(_) => true,
        Ty::Struct(_, _) => managed_aggregate(s, defs, t, seen, depth),
        Ty::TupleStruct(_, _) => managed_aggregate(s, defs, t, seen, depth),
        Ty::Tuple(items) => managed_any(s, defs, items, seen, depth),
        Ty::FixedArray(element, _) => managed(s, defs, *element, seen, depth),
        Ty::Enum(id, _) => s.enum_sigs.contains_key(id) && depth > 0 && !seen.contains(t) && exists|v: int|
            #![trigger payload_of(s, t, v)]
            0 <= v < variant_count(s, t) && (match payload_of(s, t, v) {
                Some(fields) => managed_any(s, defs, fields, seen.push(t), (depth - 1) as nat),
                None => false,
            }),
        _ => false,
    }
}

/// Whether a struct type is shared or holds something managed.
pub open spec fn managed_aggregate(s: Sigs, defs: Definitions, t: Ty, seen: Seq<Ty>, depth: nat) -> bool
    decreases depth, t, 0nat,
{
    kind_of_alloc(t, defs) is Heap || (depth > 0 && !seen.contains(t) && match fields_of(s, t) {
        Some(fields) => managed_any(s, defs, fields, seen.push(t), (depth - 1) as nat),
        None => false,
    })
}

/// Whether one of the types is managed.
pub open spec fn managed_any(s: Sigs, defs: Definitions, ts: Seq<Ty>, seen: Seq<Ty>, depth: nat) -> bool
    decreases depth, ts, 2nat,
{
    exists|i: int| #![trigger ts[i]] 0 <= i < ts.len() && managed(s, defs, ts[i], seen, depth)
}

/// The declaration of a struct type.
pub fn type_owner(ty: &Type) -> (r: Option<DefId>)
    ensures
        r == struct_owner(ty@),
{
    match ty {
        Type::Struct(id, _) | Type::TupleStruct(id, _) => Some(*id),
        _ => None,
    }
}

/// A bound with generic parameters replaced.
pub fn substitute_bound(b: &GenericBound, m: &Table<Symbol, Type>) -> (r: GenericBound)
    ensures
        r.deep_view() == bound_subst(b.deep_view(), m@),
{
    GenericBound { trait_id: b.trait_id, args: substitute_all(&b.args, m) }
}

impl Signatures {
    /// Replaces the associated types in `ty`.
    pub fn normalize_associated(&self, ty: &Type) -> (r: Type)
        ensures
            r@ == normal(self@, ty@),
    {
        let seen: Vec<(DefId, Symbol)> = Vec::new();
        proof {
            assert(seen.deep_view() =~= Seq::empty());
        }
        self.normalize_associated_inner(ty, &seen)
    }

    fn normalize_associated_inner(&self, ty: &Type, seen: &Vec<(DefId, Symbol)>) -> (r: Type)
        ensures
            r@ == normalize(self@, ty@, seen.deep_view()),
        decreases unseen(self@.associated_types, seen.deep_view()), ty,
    {
        match ty {
            Type::Associated(owner, name) => {
                let owner = self.normalize_associated_inner(owner, seen);
                let projected = match &owner {
                    Type::Struct(id, args) | Type::TupleStruct(id, args) | Type::Enum(id, args) => {
                        let key: (DefId, Symbol) = (*id, name.clone());
                        match self.associated_types.get(&key) {
                            None => None,
                            Some(sig) => {
                                if occurs(seen, &key) {
                                    return Type::Error;
                                }
                                let names = self.owner_generics(*id);
                                let m = zip_types(&names, args);
                                let projected = substitute_generic(&sig.ty, &m);
                                let mut deeper = seen.dup();
                                put(&mut deeper, key);
                                proof {
                                    lemma_pair_index(self@.associated_types, (*id, name@));
                                    lemma_unseen(self@.associated_types, seen.deep_view(), (*id, name@));
                                }
                                Some(self.normalize_associated_inner(&projected, &deeper))
                            },
                        }
                    },
                    _ => None,
                };
                match projected {
                    Some(t) => t,
                    None => Type::Associated(Box::new(owner), name.clone()),
                }
            },
            Type::Struct(id, args) => Type::Struct(*id, self.normalize_list(args, seen)),
            Type::TupleStruct(id, args) => Type::TupleStruct(*id, self.normalize_list(args, seen)),
            Type::Enum(id, args) => Type::Enum(*id, self.normalize_list(args, seen)),
            Type::Tuple(args) => Type::Tuple(self.normalize_list(args, seen)),
            Type::Array(a) => Type::Array(Box::new(self.normalize_associated_inner(a, seen))),
            Type::FixedArray(a, n) => Type::FixedArray(
                Box::new(self.normalize_associated_inner(a, seen)),
                Box::new(self.normalize_associated_inner(n, seen)),
            ),
            Type::Weak(a) => Type::Weak(Box::new(self.normalize_associated_inner(a, seen))),
            Type::Unique(a) => Type::Unique(Box::new(self.normalize_associated_inner(a, seen))),
            Type::Ref(a) => Type::Ref(Box::new(self.normalize_associated_inner(a, seen))),
            Type::MutRef(a) => Type::MutRef(Box::new(self.normalize_associated_inner(a, seen))),
            Type::Function(ps, r) => Type::Function(
                self.normalize_list(ps, seen),
                Box::new(self.normalize_associated_inner(r, seen)),
            ),
            other => other.clone(),
        }
    }

    fn normalize_list(&self, v: &Vec<Type>, seen: &Vec<(DefId, Symbol)>) -> (r: Vec<Type>)
        ensures
            tys(r@) == normalize_all(self@, tys(v@), seen.deep_view()),
        decreases unseen(self@.associated_types, seen.deep_view()), v,
    {
        let mut out: Vec<Type> = Vec::new();
        let mut k: usize = 0;
        while k < v.len()
            invariant
                k <= v.len(),
                out.len() == k,
                forall|i: int|
                    0 <= i < k ==> ty_view(#[trigger] out@[i]) == normalize(self@, ty_view(v@[i]), seen.deep_view()),
            decreases v.len() - k,
        {
            out.push(self.normalize_associated_inner(&v[k], seen));
            k += 1;
        }
        proof {
            assert(tys(out@) =~= normalize_all(self@, tys(v@), seen.deep_view()));
        }
        out
    }

    /// Whether `actual` is `required` or has it among its ancestors.
    pub fn bound_satisfies(&self, actual: &GenericBound, required: &GenericBound) -> (r: bool)
        ensures
            r == bound_gives(self@, actual.deep_view(), required.deep_view()),
    {
        let seen: Vec<GenericBound> = Vec::new();
        proof {
            assert(seen.deep_view() =~= Seq::empty());
        }
        self.bound_satisfies_inner(actual, required, &seen, NESTING_LIMIT)
    }

    fn bound_satisfies_inner(
        &self,
        actual: &GenericBound,
        required: &GenericBound,
        seen: &Vec<GenericBound>,
        depth: usize,
    ) -> (r: bool)
        ensures
            r == implies_bound(self@, actual.deep_view(), required.deep_view(), seen.deep_view(), depth as nat),
        decreases depth,
    {
        if actual.same(required) {
            return true;
        }
        if depth == 0 || occurs(seen, actual) {
            return false;
        }
        let names = self.generics_of_trait(actual.trait_id);
        let m = zip_types(&names, &actual.args);
        let parents = self.parents_of(actual.trait_id);
        let mut deeper = seen.dup();
        put(&mut deeper, actual.dup());
        let ghost av = actual.deep_view();
        let ghost ps = self@.parents_of(av.trait_id);
        let ghost mv = zip_subst(self@.generics_of_trait(av.trait_id), av.args);
        let ghost next = seen.deep_view().push(av);
        let mut k: usize = 0;
        while k < parents.len()
            invariant
                k <= parents.len(),
                depth > 0,
                parents.deep_view() == ps,
                av == actual.deep_view(),
                ps == self@.parents_of(av.trait_id),
                mv == zip_subst(self@.generics_of_trait(av.trait_id), av.args),
                next == seen.deep_view().push(av),
                !seen.deep_view().contains(av),
                m@ == mv,
                deeper.deep_view() == next,
                forall|i: int|
                    #![trigger ps[i]]
                    0 <= i < k ==> !implies_bound(
                        self@,
                        bound_subst(ps[i], mv),
                        required.deep_view(),
                        next,
                        (depth - 1) as nat,
                    ),
            decreases parents.len() - k,
        {
            let parent = substitute_bound(&parents[k], &m);
            if self.bound_satisfies_inner(&parent, required, &deeper, depth - 1) {
                assert(implies_bound(
                    self@,
                    bound_subst(ps[k as int], mv),
                    required.deep_view(),
                    next,
                    (depth - 1) as nat,
                ));
                return true;
            }
            k += 1;
        }
        false
    }

    /// Whether some declared implementation gives `ty` the trait.
    pub fn satisfies(&self, ty: &Type, bound: &GenericBound) -> (r: bool)
        ensures
            r == implements(self@, ty@, bound.deep_view()),
    {
        let mut k: usize = 0;
        while k < self.impls.len()
            invariant
                k <= self.impls.len(),
                forall|i: int|
                    #![trigger self@.impls[i]]
                    0 <= i < k ==> !impl_gives(self@, self@.impls[i], ty@, bound.deep_view()),
            decreases self.impls.len() - k,
        {
            let mut m: Table<Symbol, Type> = Table::new();
            if collect_pattern_bindings(&self.impls[k].0, ty, &mut m) {
                let implemented = substitute_bound(&self.impls[k].1, &m);
                if self.bound_satisfies(&implemented, bound) {
                    assert(impl_gives(self@, self@.impls[k as int], ty@, bound.deep_view()));
                    return true;
                }
            }
            assert(!impl_gives(self@, self@.impls[k as int], ty@, bound.deep_view()));
            k += 1;
        }
        false
    }

    /// Whether `ty` implements the built-in trait `name`.
    pub fn implements_marker(&self, ty: &Type, defs: &Definitions, name: &str) -> (r: bool)
        ensures
            r == marked(self@, *defs, ty@, name@),
    {
        match defs.find_trait(name) {
            Some(trait_id) => {
                let args: Vec<Type> = Vec::new();
                let bound = GenericBound { trait_id, args };
                proof {
                    assert(bound.deep_view().args =~= Seq::<Ty>::empty());
                }
                self.satisfies(ty, &bound)
            },
            None => false,
        }
    }

    /// The field types of a struct type, with its arguments filled in.
    pub fn type_fields(&self, ty: &Type) -> (r: Option<Vec<Type>>)
        ensures
            r.deep_view() == fields_of(self@, ty@),
    {
        match ty {
            Type::Struct(id, args) | Type::TupleStruct(id, args) => {
                let names = self.generics_of(*id);
                assert(args.deep_view().len() == args.len());
                if names.len() != args.len() {
                    return None;
                }
                let m = zip_types(&names, args);
                match self.type_shapes.get(id) {
                    Some(TypeShape::Struct(fields)) => {
                        let ghost fs = fields.deep_view();
                        let mut out: Vec<Type> = Vec::new();
                        let mut k: usize = 0;
                        while k < fields.len()
                            invariant
                                k <= fields.len(),
                                out.len() == k,
                                fs == fields.deep_view(),
                                forall|i: int| 0 <= i < k ==> ty_view(#[trigger] out@[i]) == subst(fs[i].1, m@),
                            decreases fields.len() - k,
                        {
                            out.push(substitute_generic(&fields[k].1, &m));
                            k += 1;
                        }
                        proof {
                            assert(tys(out@) =~= Seq::new(fs.len(), |i: int| subst(fs[i].1, m@)));
                        }
                        Some(out)
                    },
                    Some(TypeShape::TupleStruct(fields)) => Some(substitute_all(fields, &m)),
                    Some(TypeShape::Unit) => Some(Vec::new()),
                    None => None,
                }
            },
            _ => None,
        }
    }

    /// The named fields of a struct type, with its arguments filled in.
    pub fn named_type_fields(&self, ty: &Type) -> (r: Option<Vec<(Symbol, Type)>>)
        ensures
            r.deep_view() == named_fields_of(self@, ty@),
    {
        match ty {
            Type::Struct(id, args) => {
                let names = self.generics_of(*id);
                assert(args.deep_view().len() == args.len());
                if names.len() != args.len() {
                    return None;
                }
                let m = zip_types(&names, args);
                match self.type_shapes.get(id) {
                    Some(TypeShape::Struct(fields)) => {
                        let ghost fs = fields.deep_view();
                        let mut out: Vec<(Symbol, Type)> = Vec::new();
                        let mut k: usize = 0;
                        while k < fields.len()
                            invariant
                                k <= fields.len(),
                                out.len() == k,
                                fs == fields.deep_view(),
                                forall|i: int|
                                    0 <= i < k ==> (#[trigger] out@[i]).deep_view() == (fs[i].0, subst(fs[i].1, m@)),
                            decreases fields.len() - k,
                        {
                            out.push((fields[k].0.clone(), substitute_generic(&fields[k].1, &m)));
                            k += 1;
                        }
                        proof {
                            assert(out.deep_view() =~= Seq::new(fs.len(), |i: int| (fs[i].0, subst(fs[i].1, m@))));
                        }
                        Some(out)
                    },
                    _ => None,
                }
            },
            _ => None,
        }
    }

    /// The payload types of an enum type's variant, with its arguments
    /// filled in.
    pub fn enum_payload(&self, enum_ty: &Type, variant: u32) -> (r: Option<Vec<Type>>)
        ensures
            r.deep_view() == payload_of(self@, enum_ty@, variant as int),
    {
        match enum_ty {
            Type::Enum(id, args) => match self.enum_sigs.get(id) {
                Some(sig) => {
                    let v: usize = variant as usize;
                    if v < sig.variants.len() {
                        let m = zip_types(&sig.generics, args);
                        Some(substitute_all(&sig.variants[v].1, &m))
                    } else {
                        None
                    }
                },
                None => None,
            },
            _ => None,
        }
    }

    /// The payload types of the `v`-th variant.
    pub fn payload_at(&self, enum_ty: &Type, v: usize) -> (r: Option<Vec<Type>>)
        ensures
            r.deep_view() == payload_of(self@, enum_ty@, v as int),
    {
        match enum_ty {
            Type::Enum(id, args) => match self.enum_sigs.get(id) {
                Some(sig) => {
                    if v < sig.variants.len() {
                        let m = zip_types(&sig.generics, args);
                        Some(substitute_all(&sig.variants[v].1, &m))
                    } else {
                        None
                    }
                },
                None => None,
            },
            _ => None,
        }
    }

    /// The number of variants of an enum type.
    pub fn variants_in(&self, ty: &Type) -> (r: usize)
        ensures
            r == variant_count(self@, ty@),
    {
        match ty {
            Type::Enum(id, _) => match self.enum_sigs.get(id) {
                Some(sig) => sig.variants.len(),
                None => 0,
            },
            _ => 0,
        }
    }

    /// Whether `ty` has compiler-derived structural equality.
    pub fn can_derive_eq(&self, ty: &Type, defs: &Definitions) -> (r: bool)
        ensures
            r == derivable(self@, *defs, Derived::Eq, ty@),
    {
        self.can_derive(Derived::Eq, ty, defs)
    }

    /// Whether `ty` has compiler-derived structural hashing.
    pub fn can_derive_hash(&self, ty: &Type, defs: &Definitions) -> (r: bool)
        ensures
            r == derivable(self@, *defs, Derived::Hash, ty@),
    {
        self.can_derive(Derived::Hash, ty, defs)
    }

    fn can_derive(&self, d: Derived, ty: &Type, defs: &Definitions) -> (r: bool)
        ensures
            r == derivable(self@, *defs, d, ty@),
    {
        let seen: Vec<Type> = Vec::new();
        proof {
            assert(seen.deep_view() =~= Seq::empty());
        }
        self.can_derive_inner(d, ty.strip_unique(), defs, &seen, NESTING_LIMIT)
    }

    fn can_derive_inner(&self, d: Derived, ty: &Type, defs: &Definitions, seen: &Vec<Type>, depth: usize) -> (r: bool)
        ensures
            r == derives(self@, *defs, d, ty@, seen.deep_view(), depth as nat),
        decreases depth, ty, 0nat,
    {
        if !matches!(ty, Type::Struct(_, _) | Type::TupleStruct(_, _)) {
            return false;
        }
        if depth == 0 || occurs(seen, ty) {
            return false;
        }
        let name = match d {
            Derived::Eq => "Eq",
            Derived::Hash => "Hash",
        };
        if !self.implements_marker(ty, defs, name) {
            return false;
        }
        let mut deeper = seen.dup();
        put(&mut deeper, ty.clone());
        match self.type_fields(ty) {
            Some(fields) => self.all_derive(d, &fields, defs, &deeper, depth - 1),
            None => false,
        }
    }

    fn derives_structurally(&self, d: Derived, ty: &Type, defs: &Definitions, seen: &Vec<Type>, depth: usize) -> (r: bool)
        ensures
            r == derives_field(self@, *defs, d, ty@, seen.deep_view(), depth as nat),
        decreases depth, ty, 1nat,
    {
        match ty {
            Type::Primitive(p) => matches!(d, Derived::Eq) || !p.is_float(),
            Type::String => matches!(d, Derived::Hash),
            Type::Unique(inner) => self.derives_structurally(d, inner, defs, seen, depth),
            Type::Struct(_, _) => self.can_derive_inner(d, ty, defs, seen, depth),
            Type::TupleStruct(_, _) => self.can_derive_inner(d, ty, defs, seen, depth),
            Type::Tuple(items) => self.all_derive(d, items, defs, seen, depth),
            Type::FixedArray(element, _) => self.derives_structurally(d, element, defs, seen, depth),
            _ => false,
        }
    }

    fn all_derive(&self, d: Derived, items: &Vec<Type>, defs: &Definitions, seen: &Vec<Type>, depth: usize) -> (r: bool)
        ensures
            r == derives_all(self@, *defs, d, items.deep_view(), seen.deep_view(), depth as nat),
        decreases depth, items, 2nat,
    {
        let mut k: usize = 0;
        let ghost ts = items.deep_view();
        while k < items.len()
            invariant
                k <= items.len(),
                ts == items.deep_view(),
                forall|i: int|
                    #![trigger ts[i]]
                    0 <= i < k ==> derives_field(self@, *defs, d, ts[i], seen.deep_view(), depth as nat),
            decreases items.len() - k,
        {
            if !self.derives_structurally(d, &items[k], defs, seen, depth) {
                assert(!derives_field(self@, *defs, d, ts[k as int], seen.deep_view(), depth as nat));
                return false;
            }
            k += 1;
        }
        true
    }

    /// Whether `ty` declares `Eq`.
    pub fn declares_eq(&self, ty: &Type, defs: &Definitions) -> (r: bool)
        ensures
            r == marked(self@, *defs, crate::ty::ty_owned_of(ty@), "Eq"@),
    {
        self.implements_marker(ty.strip_unique(), defs, "Eq")
    }

    /// Whether `ty` is promised to be `Send`.
    pub fn declares_send(&self, ty: &Type, defs: &Definitions) -> (r: bool)
        ensures
            r == marked(self@, *defs, crate::ty::ty_owned_of(ty@), "Send"@),
    {
        self.implements_marker(ty.strip_unique(), defs, "Send")
    }

    /// Whether `ty` is promised to be `Sync`.
    pub fn declares_sync(&self, ty: &Type, defs: &Definitions) -> (r: bool)
        ensures
            r == marked(self@, *defs, crate::ty::ty_owned_of(ty@), "Sync"@),
    {
        self.implements_marker(ty.strip_unique(), defs, "Sync")
    }

    /// Whether `ty` has a method `clone` on its owned form.
    pub fn has_user_clone_candidate(&self, ty: &Type) -> (r: bool)
        ensures
            r == clone_candidate(self@, ty@),
    {
        match type_owner(ty) {
            Some(owner) => {
                let key: (DefId, Symbol, ReceiverDomain) = (owner, "clone".to_owned(), ReceiverDomain::Owned);
                self.methods.contains(&key)
            },
            None => false,
        }
    }

    /// Whether `ty` has an override `clone(: &self): Owner`.
    pub fn has_user_clone_method(&self, ty: &Type) -> (r: bool)
        ensures
            r == clone_override(self@, ty@),
    {
        match type_owner(ty) {
            Some(owner) => {
                let name: Symbol = "clone".to_owned();
                match self.method(owner, &name, ReceiverDomain::Owned) {
                    Some(sig) => {
                        let owned = Type::Unique(Box::new(ty.clone()));
                        matches!(sig.self_param, Some(SelfParam::OwnedRef)) && sig.params.len() == 0
                            && sig.generics.len() == 0 && sig.ret.same(&owned)
                    },
                    None => false,
                }
            },
            None => false,
        }
    }

    /// Whether `ty` may be copied into a fresh owned allocation.
    pub fn can_clone_to_unique(&self, ty: &Type, defs: &Definitions) -> (r: bool)
        ensures
            r == cloneable(self@, *defs, ty@, Seq::empty(), NESTING_LIMIT as nat),
    {
        let seen: Vec<Type> = Vec::new();
        proof {
            assert(seen.deep_view() =~= Seq::empty());
        }
        self.can_clone_to_unique_inner(ty, defs, &seen, NESTING_LIMIT)
    }

    fn can_clone_to_unique_inner(&self, ty: &Type, defs: &Definitions, seen: &Vec<Type>, depth: usize) -> (r: bool)
        ensures
            r == cloneable(self@, *defs, ty@, seen.deep_view(), depth as nat),
        decreases depth, ty, 0nat,
    {
        if !matches!(ty, Type::Struct(_, _) | Type::TupleStruct(_, _)) {
            return false;
        }
        if depth == 0 || occurs(seen, ty) {
            return false;
        }
        if !self.implements_marker(ty, defs, "Clone") {
            return false;
        }
        if self.has_user_clone_candidate(ty) {
            return self.has_user_clone_method(ty);
        }
        let mut deeper = seen.dup();
        put(&mut deeper, ty.clone());
        match self.type_fields(ty) {
            Some(fields) => self.all_clone(&fields, defs, &deeper, depth - 1),
            None => false,
        }
    }

    fn clones_structurally(&self, ty: &Type, defs: &Definitions, seen: &Vec<Type>, depth: usize) -> (r: bool)
        ensures
            r == cloneable_field(self@, *defs, ty@, seen.deep_view(), depth as nat),
        decreases depth, ty, 1nat,
    {
        match ty {
            Type::Unique(inner) => if matches!(alloc_kind(inner, defs), AllocKind::Heap) {
                self.can_clone_to_unique_inner(inner, defs, seen, depth)
            } else {
                matches!(&**inner, Type::Primitive(_))
            },
            Type::Generic(_) | Type::Error | Type::Ref(_) | Type::MutRef(_) => false,
            Type::Tuple(items) => self.all_clone(items, defs, seen, depth),
            Type::FixedArray(element, _) => self.clones_structurally(element, defs, seen, depth),
            Type::Struct(_, _) | Type::TupleStruct(_, _) => self.clones_aggregate(ty, defs, seen, depth),
            Type::Enum(id, _) => {
                if !self.enum_sigs.contains(id) || depth == 0 || occurs(seen, ty) {
                    return false;
                }
                let mut deeper = seen.dup();
                put(&mut deeper, ty.clone());
                let n: usize = self.variants_in(ty);
                let mut v: usize = 0;
                while v < n
                    invariant
                        v <= n,
                        depth > 0,
                        deeper.deep_view() == seen.deep_view().push(ty@),
                        n == variant_count(self@, ty@),
                        forall|w: int|
                            #![trigger payload_of(self@, ty@, w)]
                            0 <= w < v ==> (match payload_of(self@, ty@, w) {
                                Some(fields) => cloneable_all(
                                    self@,
                                    *defs,
                                    fields,
                                    seen.deep_view().push(ty@),
                                    (depth - 1) as nat,
                                ),
                                None => false,
                            }),
                    decreases n - v,
                {
                    let fine = match self.payload_at(ty, v) {
                        Some(fields) => self.all_clone(&fields, defs, &deeper, depth - 1),
                        None => false,
                    };
                    if !fine {
                        return false;
                    }
                    v += 1;
                }
                true
            },
            _ => true,
        }
    }

    fn clones_aggregate(&self, ty: &Type, defs: &Definitions, seen: &Vec<Type>, depth: usize) -> (r: bool)
        ensures
            r == cloneable_aggregate(self@, *defs, ty@, seen.deep_view(), depth as nat),
        decreases depth, ty, 0nat,
    {
        if matches!(alloc_kind(ty, defs), AllocKind::Heap) {
            return true;
        }
        if depth == 0 || occurs(seen, ty) {
            return false;
        }
        let mut deeper = seen.dup();
        put(&mut deeper, ty.clone());
        match self.type_fields(ty) {
            Some(fields) => self.all_clone(&fields, defs, &deeper, depth - 1),
            None => false,
        }
    }

    fn all_clone(&self, items: &Vec<Type>, defs: &Definitions, seen: &Vec<Type>, depth: usize) -> (r: bool)
        ensures
            r == cloneable_all(self@, *defs, items.deep_view(), seen.deep_view(), depth as nat),
        decreases depth, items, 2nat,
    {
        let mut k: usize = 0;
        let ghost ts = items.deep_view();
        while k < items.len()
            invariant
                k <= items.len(),
                ts == items.deep_view(),
                forall|i: int|
                    #![trigger ts[i]]
                    0 <= i < k ==> cloneable_field(self@, *defs, ts[i], seen.deep_view(), depth as nat),
            decreases items.len() - k,
        {
            if !self.clones_structurally(&items[k], defs, seen, depth) {
                assert(!cloneable_field(self@, *defs, ts[k as int], seen.deep_view(), depth as nat));
                return false;
            }
            k += 1;
        }
        true
    }

    /// Whether owning or copying a value of type `ty` needs reference
    /// counting.
    pub fn has_managed_content(&self, ty: &Type, defs: &Definitions) -> (r: bool)
        ensures
            r == managed(self@, *defs, ty@, Seq::empty(), NESTING_LIMIT as nat),
    {
        let seen: Vec<Type> = Vec::new();
        proof {
            assert(seen.deep_view() =~= Seq::empty());
        }
        self.managed_inner(ty, defs, &seen, NESTING_LIMIT)
    }

    fn managed_inner(&self, ty: &Type, defs: &Definitions, seen: &Vec<Type>, depth: usize) -> (r: bool)
        ensures
            r == managed(self@, *defs, ty@, seen.deep_view(), depth as nat),
        decreases depth, ty, 1nat,
    {
        match ty {
            Type::String | Type::Array(_) | Type::Function(_, _) | Type::Weak(_) | Type::Any(_, _)
            | Type::Opaque(_, _) | Type::Task(_) | Type::Thread(_) => true,
            Type::Struct(_, _) | Type::TupleStruct(_, _) => self.manages_aggregate(ty, defs, seen, depth),
            Type::Tuple(items) => self.any_managed(items, defs, seen, depth),
            Type::FixedArray(element, _) => self.managed_inner(element, defs, seen, depth),
            Type::Enum(id, _) => {
                if !self.enum_sigs.contains(id) || depth == 0 || occurs(seen, ty) {
                    return false;
                }
                let mut deeper = seen.dup();
                put(&mut deeper, ty.clone());
                let n: usize = self.variants_in(ty);
                let mut v: usize = 0;
                while v < n
                    invariant
                        v <= n,
                        depth > 0,
                        deeper.deep_view() == seen.deep_view().push(ty@),
                        !seen.deep_view().contains(ty@),
                        n == variant_count(self@, ty@),
                        forall|w: int|
                            #![trigger payload_of(self@, ty@, w)]
                            0 <= w < v ==> !(match payload_of(self@, ty@, w) {
                                Some(fields) => managed_any(
                                    self@,
                                    *defs,
                                    fields,
                                    seen.deep_view().push(ty@),
                                    (depth - 1) as nat,
                                ),
                                None => false,
                            }),
                    decreases n - v,
                {
                    let found = match self.payload_at(ty, v) {
                        Some(fields) => self.any_managed(&fields, defs, &deeper, depth - 1),
                        None => false,
                    };
                    if found {
                        return true;
                    }
                    v += 1;
                }
                false
            },
            _ => false,
        }
    }

    fn manages_aggregate(&self, ty: &Type, defs: &Definitions, seen: &Vec<Type>, depth: usize) -> (r: bool)
        ensures
            r == managed_aggregate(self@, *defs, ty@, seen.deep_view(), depth as nat),
        decreases depth, ty, 0nat,
    {
        if matches!(alloc_kind(ty, defs), AllocKind::Heap) {
            return true;
        }
        if depth == 0 || occurs(seen, ty) {
            return false;
        }
        let mut deeper = seen.dup();
        put(&mut deeper, ty.clone());
        match self.type_fields(ty) {
            Some(fields) => self.any_managed(&fields, defs, &deeper, depth - 1),
            None => false,
        }
    }

    fn any_managed(&self, items: &Vec<Type>, defs: &Definitions, seen: &Vec<Type>, depth: usize) -> (r: bool)
        ensures
            r == managed_any(self@, *defs, items.deep_view(), seen.deep_view(), depth as nat),
        decreases depth, items, 2nat,
    {
        let mut k: usize = 0;
        let ghost ts = items.deep_view();
        while k < items.len()
            invariant
                k <= items.len(),
                ts == items.deep_view(),
                forall|i: int|
                    #![trigger ts[i]]
                    0 <= i < k ==> !managed(self@, *defs, ts[i], seen.deep_view(), depth as nat),
            decreases items.len() - k,
        {
            if self.managed_inner(&items[k], defs, seen, depth) {
                assert(managed(self@, *defs, ts[k as int], seen.deep_view(), depth as nat));
                return true;
            }
            k += 1;
        }
        false
    }
}

// ---------------------------------------------------------------------
// Laws
// ---------------------------------------------------------------------

/// Whatever is shared is managed; an owned value alone is not.
pub proof fn law_shared_types_are_managed(s: Sigs, defs: Definitions, t: Ty, seen: Seq<Ty>, depth: nat)
    requires
        kind_of_alloc(t, defs) is Heap,
        !(t is Unique),
    ensures
        managed(s, defs, t, seen, depth),
{
    assert(t is Struct || t is TupleStruct ==> managed_aggregate(s, defs, t, seen, depth));
}

/// Copying into a fresh allocation is opt-in: only a struct that implements
/// `Clone` has it, and where the struct writes `clone` itself, only in the
/// right form.
pub proof fn law_clone_is_opt_in(s: Sigs, defs: Definitions, t: Ty, seen: Seq<Ty>, depth: nat)
    requires
        cloneable(s, defs, t, seen, depth),
    ensures
        marked(s, defs, t, "Clone"@),
        clone_candidate(s, t) ==> clone_override(s, t),
{
}

/// One step of inheritance: the `i`-th parent of a bound, with the bound's
/// arguments put in.
pub open spec fn parent_bound(s: Sigs, b: Bound, i: int) -> Bound {
    bound_subst(s.parents_of(b.trait_id)[i], zip_subst(s.generics_of_trait(b.trait_id), b.args))
}

/// Whether a bound is a parent of another.
pub open spec fn is_parent(s: Sigs, b: Bound, parent: Bound) -> bool {
    exists|i: int|
        #![trigger s.parents_of(b.trait_id)[i]]
        0 <= i < s.parents_of(b.trait_id).len() && parent == parent_bound(s, b, i)
}

/// Whether a list goes from a bound to its ancestors, one step at a time.
pub open spec fn is_lineage(s: Sigs, path: Seq<Bound>) -> bool {
    path.len() > 0 && forall|i: int|
        #![trigger path[i]]
        0 <= i < path.len() - 1 ==> is_parent(s, path[i], path[i + 1])
}

/// Whether one bound is reached from another by any number of steps.
pub open spec fn reaches(s: Sigs, a: Bound, b: Bound) -> bool {
    exists|path: Seq<Bound>| #[trigger] is_lineage(s, path) && path[0] == a && path.last() == b
}

/// Whether only finitely many bounds are reached from those in a set, no more
/// than a machine counts: the arguments of traits do not grow along
/// inheritance.
pub open spec fn bounded_lineage(s: Sigs, all: Set<Bound>) -> bool {
    &&& all.finite()
    &&& all.len() <= usize::MAX
    &&& forall|b: Bound, i: int|
        #![trigger all.contains(b), s.parents_of(b.trait_id)[i]]
        all.contains(b) && 0 <= i < s.parents_of(b.trait_id).len() ==> all.contains(parent_bound(s, b, i))
}

/// A lineage without repetition that is not too long is found.
proof fn lemma_lineage_found(s: Sigs, path: Seq<Bound>, seen: Seq<Bound>, depth: nat)
    requires
        is_lineage(s, path),
        path.no_duplicates(),
        path.len() <= depth + 1,
        forall|i: int| #![trigger path[i]] 0 <= i < path.len() ==> !seen.contains(path[i]),
    ensures
        implies_bound(s, path[0], path.last(), seen, depth),
    decreases path.len(),
{
    if path.len() > 1 {
        let rest = path.drop_first();
        let next = seen.push(path[0]);
        assert forall|i: int| #![trigger rest[i]] 0 <= i < rest.len() - 1 implies is_parent(s, rest[i], rest[i + 1]) by {
            assert(is_parent(s, path[i + 1], path[i + 2]));
        }
        assert forall|i: int| #![trigger rest[i]] 0 <= i < rest.len() implies !next.contains(rest[i]) by {
            assert(rest[i] == path[i + 1]);
            assert(path[i + 1] != path[0]);
            if next.contains(rest[i]) {
                let k = choose|k: int| 0 <= k < next.len() && next[k] == rest[i];
                if k < seen.len() {
                    assert(seen[k] == rest[i]);
                }
            }
        }
        lemma_lineage_found(s, rest, next, (depth - 1) as nat);
        assert(is_parent(s, path[0], path[1]));
        let i = choose|i: int|
            #![trigger s.parents_of(path[0].trait_id)[i]]
            0 <= i < s.parents_of(path[0].trait_id).len() && path[1] == parent_bound(s, path[0], i);
        assert(!seen.contains(path[0]));
        assert(implies_bound(
            s,
            bound_subst(
                s.parents_of(path[0].trait_id)[i],
                zip_subst(s.generics_of_trait(path[0].trait_id), path[0].args),
            ),
            path.last(),
            next,
            (depth - 1) as nat,
        ));
    }
}

/// What is found is reached.
proof fn lemma_found_is_reached(s: Sigs, a: Bound, b: Bound, seen: Seq<Bound>, depth: nat)
    requires
        implies_bound(s, a, b, seen, depth),
    ensures
        reaches(s, a, b),
    decreases depth,
{
    if a == b {
        let path = seq![a];
        assert(is_lineage(s, path) && path[0] == a && path.last() == b);
    } else {
        let i = choose|i: int|
            #![trigger s.parents_of(a.trait_id)[i]]
            0 <= i < s.parents_of(a.trait_id).len() && implies_bound(
                s,
                bound_subst(s.parents_of(a.trait_id)[i], zip_subst(s.generics_of_trait(a.trait_id), a.args)),
                b,
                seen.push(a),
                (depth - 1) as nat,
            );
        let p = parent_bound(s, a, i);
        lemma_found_is_reached(s, p, b, seen.push(a), (depth - 1) as nat);
        let rest = choose|path: Seq<Bound>| #[trigger] is_lineage(s, path) && path[0] == p && path.last() == b;
        let path = seq![a] + rest;
        assert forall|k: int| #![trigger path[k]] 0 <= k < path.len() - 1 implies is_parent(s, path[k], path[k + 1]) by {
            if k > 0 {
                assert(path[k] == rest[k - 1]);
                assert(path[k + 1] == rest[k]);
            } else {
                assert(path[1] == rest[0]);
            }
        }
        assert(is_lineage(s, path));
        assert(path.last() == b);
    }
}

/// A lineage can do without repetition.
proof fn lemma_shortest_lineage(s: Sigs, path: Seq<Bound>) -> (short: Seq<Bound>)
    requires
        is_lineage(s, path),
    ensures
        is_lineage(s, short),
        short.no_duplicates(),
        short[0] == path[0],
        short.last() == path.last(),
    decreases path.len(),
{
    if path.no_duplicates() {
        path
    } else {
        let (i, j) = choose|i: int, j: int| 0 <= i < path.len() && 0 <= j < path.len() && i != j && path[i] == path[j];
        let (i, j) = if i < j {
            (i, j)
        } else {
            (j, i)
        };
        let cut = path.take(i) + path.skip(j);
        assert forall|k: int| #![trigger cut[k]] 0 <= k < cut.len() - 1 implies is_parent(s, cut[k], cut[k + 1]) by {
            if k + 1 < i {
                assert(cut[k] == path[k] && cut[k + 1] == path[k + 1]);
            } else if k + 1 == i {
                assert(cut[k] == path[k] && cut[k + 1] == path[j]);
                assert(is_parent(s, path[k], path[k + 1]));
            } else {
                assert(cut[k] == path[k - i + j] && cut[k + 1] == path[k - i + j + 1]);
            }
        }
        assert(cut[0] == path[0]);
        assert(cut.last() == path.last());
        lemma_shortest_lineage(s, cut)
    }
}

/// A lineage stays inside a set that inheritance does not leave.
proof fn lemma_lineage_inside(s: Sigs, path: Seq<Bound>, all: Set<Bound>, n: int)
    requires
        is_lineage(s, path),
        bounded_lineage(s, all),
        all.contains(path[0]),
        0 <= n < path.len(),
    ensures
        all.contains(path[n]),
    decreases n,
{
    if n > 0 {
        lemma_lineage_inside(s, path, all, n - 1);
        assert(is_parent(s, path[n - 1], path[n]));
        let i = choose|i: int|
            #![trigger s.parents_of(path[n - 1].trait_id)[i]]
            0 <= i < s.parents_of(path[n - 1].trait_id).len() && path[n] == parent_bound(s, path[n - 1], i);
        assert(all.contains(parent_bound(s, path[n - 1], i)));
    }
}

/// A bound gives exactly the bounds that are reached from it by inheritance,
/// however long the way, round cycles as well, as long as the arguments of
/// traits do not grow without end.
pub proof fn law_bounds_are_reached(s: Sigs, a: Bound, b: Bound, all: Set<Bound>)
    requires
        bounded_lineage(s, all),
        all.contains(a),
    ensures
        bound_gives(s, a, b) <==> reaches(s, a, b),
{
    if bound_gives(s, a, b) {
        lemma_found_is_reached(s, a, b, Seq::empty(), NESTING_LIMIT as nat);
    }
    if reaches(s, a, b) {
        let path = choose|path: Seq<Bound>| #[trigger] is_lineage(s, path) && path[0] == a && path.last() == b;
        let short = lemma_shortest_lineage(s, path);
        assert forall|x: Bound| short.to_set().contains(x) implies all.contains(x) by {
            let n = choose|n: int| 0 <= n < short.len() && short[n] == x;
            lemma_lineage_inside(s, short, all, n);
        }
        short.unique_seq_to_set();
        vstd::set_lib::lemma_len_subset(short.to_set(), all);
        lemma_lineage_found(s, short, Seq::empty(), NESTING_LIMIT as nat);
    }
}

/// A lineage without repetition is found whatever the arguments do.
pub proof fn law_lineages_are_found(s: Sigs, path: Seq<Bound>)
    requires
        is_lineage(s, path),
        path.no_duplicates(),
        path.len() <= usize::MAX,
    ensures
        bound_gives(s, path[0], path.last()),
{
    lemma_lineage_found(s, path, Seq::empty(), NESTING_LIMIT as nat);
}

/// Whether no trait passes arguments on to its parents.
pub open spec fn plain_parents(s: Sigs) -> bool {
    forall|id: DefId, i: int|
        #![trigger s.parents_of(id)[i]]
        0 <= i < s.parents_of(id).len() ==> s.parents_of(id)[i].args.len() == 0
}

proof fn lemma_plain_lineage(s: Sigs, path: Seq<Bound>, n: int)
    requires
        plain_parents(s),
        is_lineage(s, path),
        path[0].args.len() == 0,
        0 <= n < path.len(),
    ensures
        path[n].args.len() == 0,
        n < path.len() - 1 ==> s.trait_parents.contains_key(path[n].trait_id),
    decreases n,
{
    if n > 0 {
        lemma_plain_lineage(s, path, n - 1);
        assert(is_parent(s, path[n - 1], path[n]));
        let i = choose|i: int|
            #![trigger s.parents_of(path[n - 1].trait_id)[i]]
            0 <= i < s.parents_of(path[n - 1].trait_id).len() && path[n] == parent_bound(s, path[n - 1], i);
        assert(s.parents_of(path[n - 1].trait_id)[i].args.len() == 0);
    }
    if n < path.len() - 1 {
        assert(is_parent(s, path[n], path[n + 1]));
    }
}

/// Where traits pass no arguments on, a bound gives exactly the bounds that are
/// reached from it by inheritance, whatever the number of traits.
pub proof fn law_plain_bounds_are_reached(s: Sigs, a: Bound, b: Bound)
    requires
        plain_parents(s),
        a.args.len() == 0,
        s.trait_parents.dom().finite(),
        s.trait_parents.dom().len() < usize::MAX,
    ensures
        bound_gives(s, a, b) <==> reaches(s, a, b),
{
    if bound_gives(s, a, b) {
        lemma_found_is_reached(s, a, b, Seq::empty(), NESTING_LIMIT as nat);
    }
    if reaches(s, a, b) {
        let path = choose|path: Seq<Bound>| #[trigger] is_lineage(s, path) && path[0] == a && path.last() == b;
        let short = lemma_shortest_lineage(s, path);
        let ids = Seq::new((short.len() - 1) as nat, |n: int| short[n].trait_id);
        assert forall|i: int, j: int| 0 <= i < ids.len() && 0 <= j < ids.len() && i != j implies ids[i] != ids[j] by {
            lemma_plain_lineage(s, short, i);
            lemma_plain_lineage(s, short, j);
            if ids[i] == ids[j] {
                assert(short[i].args =~= short[j].args);
                assert(short[i] == short[j]);
            }
        }
        assert forall|x: DefId| ids.to_set().contains(x) implies s.trait_parents.dom().contains(x) by {
            let n = choose|n: int| 0 <= n < ids.len() && ids[n] == x;
            lemma_plain_lineage(s, short, n);
        }
        ids.unique_seq_to_set();
        vstd::set_lib::lemma_len_subset(ids.to_set(), s.trait_parents.dom());
        law_lineages_are_found(s, short);
    }
}

/// A bound gives itself.
pub proof fn law_bounds_give_themselves(s: Sigs, a: Bound)
    ensures
        bound_gives(s, a, a),
{
}

/// What a bound gives, it also gives on.
pub proof fn law_bounds_are_transitive(s: Sigs, a: Bound, b: Bound, c: Bound, all: Set<Bound>)
    requires
        bounded_lineage(s, all),
        all.contains(a),
        bound_gives(s, a, b),
        bound_gives(s, b, c),
    ensures
        bound_gives(s, a, c),
{
    lemma_found_is_reached(s, a, b, Seq::empty(), NESTING_LIMIT as nat);
    lemma_found_is_reached(s, b, c, Seq::empty(), NESTING_LIMIT as nat);
    let p = choose|path: Seq<Bound>| #[trigger] is_lineage(s, path) && path[0] == a && path.last() == b;
    let q = choose|path: Seq<Bound>| #[trigger] is_lineage(s, path) && path[0] == b && path.last() == c;
    let path = p + q.drop_first();
    assert forall|k: int| #![trigger path[k]] 0 <= k < path.len() - 1 implies is_parent(s, path[k], path[k + 1]) by {
        if k + 1 < p.len() {
            assert(path[k] == p[k] && path[k + 1] == p[k + 1]);
        } else {
            assert(path[k + 1] == q[k + 2 - p.len()]);
            if k + 1 == p.len() {
                assert(path[k] == p.last() && q[0] == b);
                assert(is_parent(s, q[0], q[1]));
            } else {
                assert(path[k] == q[k + 1 - p.len()]);
            }
        }
    }
    assert(is_lineage(s, path));
    assert(path[0] == a);
    if q.len() == 1 {
        assert(path =~= p);
        assert(b == c);
    } else {
        assert(path.last() == q.last());
    }
    law_bounds_are_reached(s, a, c, all);
}

// ---------------------------------------------------------------------
// Normal forms
// ---------------------------------------------------------------------

/// Whether no associated type in `t` could be replaced any more.
pub open spec fn is_normal(s: Sigs, t: Ty) -> bool
    decreases t,
{
    match t {
        Ty::Associated(owner, name) => is_normal(s, *owner) && (match nominal(*owner) {
            None => true,
            Some((id, _)) => pair_get(s.associated_types, (id, name)) is None,
        }),
        Ty::Struct(_, args) | Ty::TupleStruct(_, args) | Ty::Enum(_, args) | Ty::Tuple(args) => all_normal(s, args),
        Ty::Array(a) | Ty::Weak(a) | Ty::Unique(a) | Ty::Ref(a) | Ty::MutRef(a) => is_normal(s, *a),
        Ty::FixedArray(a, n) => is_normal(s, *a) && is_normal(s, *n),
        Ty::Function(ps, r) => all_normal(s, ps) && is_normal(s, *r),
        _ => true,
    }
}

/// The same of each type of a list.
pub open spec fn all_normal(s: Sigs, ts: Seq<Ty>) -> bool
    decreases ts,
{
    forall|i: int| #![trigger ts[i]] 0 <= i < ts.len() ==> is_normal(s, ts[i])
}

proof fn lemma_normalized(s: Sigs, t: Ty, seen: Seq<(DefId, Seq<char>)>)
    ensures
        is_normal(s, normalize(s, t, seen)),
    decreases unseen(s.associated_types, seen), t,
{
    match t {
        Ty::Associated(owner, name) => {
            lemma_normalized(s, *owner, seen);
            let o = normalize(s, *owner, seen);
            if let Some((id, args)) = nominal(o) {
                let key = (id, name);
                if let Some(sig) = pair_get(s.associated_types, key) {
                    if !seen.contains(key) {
                        lemma_pair_index(s.associated_types, key);
                        lemma_unseen(s.associated_types, seen, key);
                        if let Some(declared) = sig.ty {
                            lemma_normalized(
                                s,
                                subst(declared, zip_subst(s.owner_generics(id), args)),
                                seen.push(key),
                            );
                        }
                    }
                }
            }
        },
        Ty::Struct(_, args) => lemma_all_normalized(s, args, seen),
        Ty::TupleStruct(_, args) => lemma_all_normalized(s, args, seen),
        Ty::Enum(_, args) => lemma_all_normalized(s, args, seen),
        Ty::Tuple(args) => lemma_all_normalized(s, args, seen),
        Ty::Array(a) => lemma_normalized(s, *a, seen),
        Ty::FixedArray(a, n) => {
            lemma_normalized(s, *a, seen);
            lemma_normalized(s, *n, seen);
        },
        Ty::Weak(a) => lemma_normalized(s, *a, seen),
        Ty::Unique(a) => lemma_normalized(s, *a, seen),
        Ty::Ref(a) => lemma_normalized(s, *a, seen),
        Ty::MutRef(a) => lemma_normalized(s, *a, seen),
        Ty::Function(ps, r) => {
            lemma_all_normalized(s, ps, seen);
            lemma_normalized(s, *r, seen);
        },
        _ => {},
    }
}

proof fn lemma_all_normalized(s: Sigs, ts: Seq<Ty>, seen: Seq<(DefId, Seq<char>)>)
    ensures
        all_normal(s, normalize_all(s, ts, seen)),
    decreases unseen(s.associated_types, seen), ts,
{
    assert forall|i: int| 0 <= i < ts.len() implies is_normal(s, #[trigger] normalize_all(s, ts, seen)[i]) by {
        lemma_normalized(s, ts[i], seen);
    }
}

proof fn lemma_normal_stays(s: Sigs, t: Ty, seen: Seq<(DefId, Seq<char>)>)
    requires
        is_normal(s, t),
    ensures
        normalize(s, t, seen) == t,
    decreases t,
{
    match t {
        Ty::Associated(owner, _) => lemma_normal_stays(s, *owner, seen),
        Ty::Struct(_, args) => lemma_all_normal_stay(s, args, seen),
        Ty::TupleStruct(_, args) => lemma_all_normal_stay(s, args, seen),
        Ty::Enum(_, args) => lemma_all_normal_stay(s, args, seen),
        Ty::Tuple(args) => lemma_all_normal_stay(s, args, seen),
        Ty::Array(a) => lemma_normal_stays(s, *a, seen),
        Ty::FixedArray(a, n) => {
            lemma_normal_stays(s, *a, seen);
            lemma_normal_stays(s, *n, seen);
        },
        Ty::Weak(a) => lemma_normal_stays(s, *a, seen),
        Ty::Unique(a) => lemma_normal_stays(s, *a, seen),
        Ty::Ref(a) => lemma_normal_stays(s, *a, seen),
        Ty::MutRef(a) => lemma_normal_stays(s, *a, seen),
        Ty::Function(ps, r) => {
            lemma_all_normal_stay(s, ps, seen);
            lemma_normal_stays(s, *r, seen);
        },
        _ => {},
    }
}

proof fn lemma_all_normal_stay(s: Sigs, ts: Seq<Ty>, seen: Seq<(DefId, Seq<char>)>)
    requires
        all_normal(s, ts),
    ensures
        normalize_all(s, ts, seen) == ts,
    decreases ts,
{
    assert forall|i: int| 0 <= i < ts.len() implies normalize_all(s, ts, seen)[i] == ts[i] by {
        assert(is_normal(s, ts[i]));
        lemma_normal_stays(s, ts[i], seen);
    }
    assert(normalize_all(s, ts, seen) =~= ts);
}

/// Replacing associated types leaves none that could be replaced, so doing it
/// again changes nothing, for types that are defined through each other as
/// well.
pub proof fn law_normal_form_is_final(s: Sigs, t: Ty)
    ensures
        is_normal(s, normal(s, t)),
        normal(s, normal(s, t)) == normal(s, t),
{
    lemma_normalized(s, t, Seq::empty());
    lemma_normal_stays(s, normal(s, t), Seq::empty());
}

/// An associated type that is defined as itself is poison.
pub proof fn law_circular_projection_is_poison(s: Sigs, id: DefId, name: Seq<char>)
    requires
        pair_get(s.associated_types, (id, name)) matches Some(sig) && sig.ty == Some(
            Ty::Associated(Box::new(Ty::Struct(id, Seq::empty())), name),
        ),
    ensures
        normal(s, Ty::Associated(Box::new(Ty::Struct(id, Seq::empty())), name)) is Error,
{
    let owner = Ty::Struct(id, Seq::empty());
    let t = Ty::Associated(Box::new(owner), name);
    let key = (id, name);
    let next = Seq::<(DefId, Seq<char>)>::empty().push(key);
    assert(next[0] == key);
    assert(next.contains(key));
    let m = zip_subst(s.owner_generics(id), Seq::empty());
    assert(substs(Seq::empty(), m) =~= Seq::<Ty>::empty());
    assert(subst(owner, m) == owner);
    assert(subst(t, m) == t);
    assert(normalize_all(s, Seq::empty(), next) =~= Seq::<Ty>::empty());
    assert(normalize_all(s, Seq::empty(), Seq::empty()) =~= Seq::<Ty>::empty());
    assert(normalize(s, owner, next) == owner);
    assert(normalize(s, t, next) is Error);
    assert(normalize(s, owner, Seq::empty()) == owner);
    assert(nominal(owner) == Some((id, Seq::<Ty>::empty())));
    assert(normalize(s, t, Seq::empty()) == normalize(s, subst(t, m), next));
}

} // verus!
