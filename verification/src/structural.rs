//! What follows from the structure of types: their fields, the traits that they derive,
//! their copies, and their layout.
use vstd::prelude::*;

use crate::ast::{ImplBlock, TypeAliasDecl, TypeExpr};
use crate::casing::alias_errors;
use crate::describe::shown;
use crate::diagnostics::Diag;
use crate::ids::DefId;
use crate::layout::{endless, endless_any, enum_layout_errors, layout_errors, struct_layout_errors};
use crate::lower::Sc;
use crate::names::Definitions;
use crate::owners::{declared_owner_type, ordered_params};
use crate::representation::{kind_of_alloc, pascal_case};
use crate::rules::{
    bound_gives, bound_subst, clone_candidate, cloneable, cloneable_field, derives, derives_field, fields_of,
    implements, managed, marked, named_fields_of, normal, payload_of, variant_count, Derived,
};
use crate::send_sync::{sendable, shareable};
use crate::sig::{Bound, Shape, Sigs};
use crate::subst::{subst, unify, zip_subst, Subst};
use crate::table::pair_get;
use crate::text::{decimal, digit, join};
use crate::ty::{fits, has_generic, Ty};
use crate::written::type_of;

verus! {

// ---------------------------------------------------------------------
// Fields
// ---------------------------------------------------------------------

/// The fields of a struct type are the declared ones, in order, with the type's
/// arguments put in; without an argument for every parameter there are none.
pub proof fn law_fields_are_the_declared_ones(s: Sigs, id: DefId, args: Seq<Ty>)
    ensures
        ({
            let m = zip_subst(s.generics_of(id), args);
            let t = Ty::Struct(id, args);
            &&& s.generics_of(id).len() != args.len() ==> fields_of(s, t) is None && named_fields_of(s, t) is None
            &&& s.generics_of(id).len() == args.len() ==> match s.type_shapes.get(id) {
                Some(Shape::Struct(declared)) => {
                    &&& fields_of(s, t) matches Some(fs) && fs.len() == declared.len() && forall|k: int|
                        #![trigger fs[k]]
                        0 <= k < fs.len() ==> fs[k] == subst(declared[k].1, m)
                    &&& named_fields_of(s, t) matches Some(fs) && fs.len() == declared.len() && forall|k: int|
                        #![trigger fs[k]]
                        0 <= k < fs.len() ==> fs[k] == (declared[k].0, subst(declared[k].1, m))
                },
                Some(Shape::TupleStruct(declared)) => {
                    &&& fields_of(s, t) matches Some(fs) && fs.len() == declared.len() && forall|k: int|
                        #![trigger fs[k]]
                        0 <= k < fs.len() ==> fs[k] == subst(declared[k], m)
                    &&& named_fields_of(s, t) is None
                },
                Some(Shape::Unit) => fields_of(s, t) matches Some(fs) && fs.len() == 0,
                None => fields_of(s, t) is None && named_fields_of(s, t) is None,
            }
            &&& fields_of(s, Ty::TupleStruct(id, args)) == fields_of(s, t)
        }),
{
    let m = zip_subst(s.generics_of(id), args);
    if let Some(Shape::TupleStruct(declared)) = s.type_shapes.get(id) {
        assert(forall|k: int|
            #![trigger crate::subst::substs(declared, m)[k]]
            0 <= k < declared.len() ==> crate::subst::substs(declared, m)[k] == subst(declared[k], m));
    }
}

// ---------------------------------------------------------------------
// Implementations
// ---------------------------------------------------------------------

/// A type without parameters implements a trait only through a declared implementation
/// that a choice of types turns into one for it, and whose trait, under that choice, is
/// the trait or has it among its ancestors.
pub proof fn law_implementations_are_declared(s: Sigs, t: Ty, required: Bound)
    requires
        !has_generic(t),
        implements(s, t, required),
    ensures
        exists|i: int, m: Subst|
            #![trigger s.impls[i], subst(s.impls[i].0, m)]
            0 <= i < s.impls.len() && subst(s.impls[i].0, m) == t && bound_gives(
                s,
                bound_subst(s.impls[i].1, m),
                required,
            ),
{
    let i = choose|i: int| #![trigger s.impls[i]] 0 <= i < s.impls.len() && crate::rules::impl_gives(
        s,
        s.impls[i],
        t,
        required,
    );
    let m = unify(s.impls[i].0, t, Map::empty())->Some_0;
    crate::subst::law_matching_a_closed_type_gives_it(s.impls[i].0, t, Map::empty());
    assert(subst(s.impls[i].0, m) == t);
}

/// A declared implementation holds: for every type that a choice makes of its own, of
/// the trait that the choice makes of its trait.
pub proof fn law_declared_implementations_hold(s: Sigs, i: int, g: Subst)
    requires
        0 <= i < s.impls.len(),
        crate::subst::all_chosen(s.impls[i].0, g),
        crate::subst::wholes_stay(s.impls[i].0, g),
        forall|n: Seq<char>|
            #![trigger g.contains_key(n)]
            g.contains_key(n) ==> crate::subst::mentions(s.impls[i].0, n),
    ensures
        exists|m: Subst|
            #![trigger bound_subst(s.impls[i].1, m)]
            crate::subst::choices_stay(m, g) && implements(
                s,
                subst(s.impls[i].0, g),
                bound_subst(s.impls[i].1, m),
            ),
{
    let t = subst(s.impls[i].0, g);
    crate::subst::law_matching_is_complete(s.impls[i].0, g, Map::empty());
    let m = unify(s.impls[i].0, t, Map::empty())->Some_0;
    let b = bound_subst(s.impls[i].1, m);
    assert(bound_gives(s, b, b));
    assert(crate::rules::impl_gives(s, s.impls[i], t, b));
    assert(implements(s, t, b));
}

// ---------------------------------------------------------------------
// Derived traits
// ---------------------------------------------------------------------

/// A struct derives a trait exactly if it declares it, its fields are known, all of them
/// take part, and it is not one of those that are being looked at.
pub proof fn law_derived_traits_need_every_field(s: Sigs, defs: Definitions, d: Derived, t: Ty, seen: Seq<Ty>, depth: nat)
    requires
        t is Struct || t is TupleStruct,
        depth > 0,
    ensures
        derives(s, defs, d, t, seen, depth) <==> !seen.contains(t) && (match d {
            Derived::Eq => marked(s, defs, t, "Eq"@),
            Derived::Hash => marked(s, defs, t, "Hash"@),
        }) && (fields_of(s, t) matches Some(fs) && forall|k: int|
            #![trigger fs[k]]
            0 <= k < fs.len() ==> derives_field(s, defs, d, fs[k], seen.push(t), (depth - 1) as nat)),
{
}

/// Which fields take part: primitive values, but floats only in `Eq`; strings only in
/// `Hash`; tuples and fixed arrays of such; and structs that derive the trait
/// themselves. Collections, references, functions, enums and parameters never do.
pub proof fn law_fields_that_take_part(s: Sigs, defs: Definitions, d: Derived, t: Ty, seen: Seq<Ty>, depth: nat)
    ensures
        match t {
            Ty::Primitive(p) => derives_field(s, defs, d, t, seen, depth) <==> d is Eq || !(p is F32 || p is F64),
            Ty::String => derives_field(s, defs, d, t, seen, depth) <==> d is Hash,
            Ty::Unique(a) => derives_field(s, defs, d, t, seen, depth) <==> derives_field(s, defs, d, *a, seen, depth),
            Ty::FixedArray(a, _) => derives_field(s, defs, d, t, seen, depth) <==> derives_field(
                s,
                defs,
                d,
                *a,
                seen,
                depth,
            ),
            Ty::Tuple(items) => derives_field(s, defs, d, t, seen, depth) <==> forall|k: int|
                #![trigger items[k]]
                0 <= k < items.len() ==> derives_field(s, defs, d, items[k], seen, depth),
            Ty::Struct(_, _) | Ty::TupleStruct(_, _) => derives_field(s, defs, d, t, seen, depth) <==> derives(
                s,
                defs,
                d,
                t,
                seen,
                depth,
            ),
            _ => !derives_field(s, defs, d, t, seen, depth),
        },
{
    reveal_with_fuel(derives_field, 2);
}

// ---------------------------------------------------------------------
// Copies
// ---------------------------------------------------------------------

/// A struct without a `clone` of its own can be copied exactly if it declares `Clone`,
/// its fields are known, and each can be copied.
pub proof fn law_copies_need_every_field(s: Sigs, defs: Definitions, t: Ty, seen: Seq<Ty>, depth: nat)
    requires
        t is Struct || t is TupleStruct,
        depth > 0,
        !clone_candidate(s, t),
    ensures
        cloneable(s, defs, t, seen, depth) <==> !seen.contains(t) && marked(s, defs, t, "Clone"@) && (fields_of(s, t)
            matches Some(fs) && forall|k: int|
            #![trigger fs[k]]
            0 <= k < fs.len() ==> cloneable_field(s, defs, fs[k], seen.push(t), (depth - 1) as nat)),
{
}

/// Which fields can be copied: no references, parameters or reported types; what is
/// owned on the heap only if it can be copied itself; a shared value always; tuples and
/// fixed arrays as their items.
pub proof fn law_fields_that_can_be_copied(s: Sigs, defs: Definitions, t: Ty, seen: Seq<Ty>, depth: nat)
    ensures
        match t {
            Ty::Ref(_) | Ty::MutRef(_) | Ty::Generic(_) | Ty::Error => !cloneable_field(s, defs, t, seen, depth),
            Ty::Primitive(_) | Ty::String | Ty::Array(_) => cloneable_field(s, defs, t, seen, depth),
            Ty::Unique(a) => cloneable_field(s, defs, t, seen, depth) <==> (if kind_of_alloc(*a, defs) is Heap {
                cloneable(s, defs, *a, seen, depth)
            } else {
                *a is Primitive
            }),
            Ty::FixedArray(a, _) => cloneable_field(s, defs, t, seen, depth) <==> cloneable_field(
                s,
                defs,
                *a,
                seen,
                depth,
            ),
            Ty::Tuple(items) => cloneable_field(s, defs, t, seen, depth) <==> forall|k: int|
                #![trigger items[k]]
                0 <= k < items.len() ==> cloneable_field(s, defs, items[k], seen, depth),
            Ty::Struct(_, _) | Ty::TupleStruct(_, _) => kind_of_alloc(t, defs) is Heap ==> cloneable_field(
                s,
                defs,
                t,
                seen,
                depth,
            ),
            _ => true,
        },
{
    reveal_with_fuel(cloneable_field, 2);
}

/// Which values are counted: strings, collections, functions, weak and existential
/// values, tasks and threads always; primitive values, owned values, references and
/// pointers never; tuples and fixed arrays if an item is; a struct if it is shared or a
/// field is.
pub proof fn law_counted_values(s: Sigs, defs: Definitions, t: Ty, seen: Seq<Ty>, depth: nat)
    requires
        depth > 0,
    ensures
        match t {
            Ty::String | Ty::Array(_) | Ty::Function(_, _) | Ty::Weak(_) | Ty::Any(_, _) | Ty::Opaque(_, _) | Ty::Task(_)
            | Ty::Thread(_) => managed(s, defs, t, seen, depth),
            Ty::Tuple(items) => managed(s, defs, t, seen, depth) <==> exists|k: int|
                #![trigger items[k]]
                0 <= k < items.len() && managed(s, defs, items[k], seen, depth),
            Ty::FixedArray(a, _) => managed(s, defs, t, seen, depth) <==> managed(s, defs, *a, seen, depth),
            Ty::Struct(_, _) | Ty::TupleStruct(_, _) => managed(s, defs, t, seen, depth) <==> kind_of_alloc(t, defs)
                is Heap || (!seen.contains(t) && (fields_of(s, t) matches Some(fs) && exists|k: int|
                #![trigger fs[k]]
                0 <= k < fs.len() && managed(s, defs, fs[k], seen.push(t), (depth - 1) as nat))),
            Ty::Enum(_, _) => true,
            _ => !managed(s, defs, t, seen, depth),
        },
{
    match t {
        Ty::Tuple(items) => {
            assert(managed(s, defs, t, seen, depth) == crate::rules::managed_any(s, defs, items, seen, depth));
        },
        Ty::Struct(_, _) | Ty::TupleStruct(_, _) => {
            assert(managed(s, defs, t, seen, depth) == crate::rules::managed_aggregate(s, defs, t, seen, depth));
            if let Some(fs) = fields_of(s, t) {
                let n = (depth - 1) as nat;
                assert(crate::rules::managed_any(s, defs, fs, seen.push(t), n) <==> exists|k: int|
                    #![trigger fs[k]]
                    0 <= k < fs.len() && managed(s, defs, fs[k], seen.push(t), n));
            }
        },
        _ => {},
    }
}

/// A struct that does not promise `Send` may be moved to another thread exactly if its
/// fields are known and each may be both moved and shared.
pub proof fn law_structs_cross_by_their_fields(s: Sigs, defs: Definitions, t: Ty, depth: nat)
    requires
        t is Struct || t is TupleStruct,
        depth > 0,
        !marked(s, defs, t, "Send"@),
    ensures
        sendable(s, defs, t, depth) <==> (fields_of(s, t) matches Some(fs) && forall|k: int|
            #![trigger fs[k]]
            0 <= k < fs.len() ==> sendable(s, defs, fs[k], (depth - 1) as nat) && shareable(
                s,
                defs,
                fs[k],
                (depth - 1) as nat,
            )),
{
    let n = (depth - 1) as nat;
    assert(sendable(s, defs, t, depth) == crate::send_sync::fields_cross(s, defs, t, depth));
    if let Some(fs) = fields_of(s, t) {
        assert(crate::send_sync::all_cross(s, defs, fs, n) <==> forall|k: int|
            #![trigger fs[k]]
            0 <= k < fs.len() ==> sendable(s, defs, fs[k], n) && shareable(s, defs, fs[k], n));
    }
}

/// An enum that does not promise `Send` may be moved to another thread exactly if it is
/// known and every part of every payload may be both moved and shared.
pub proof fn law_enums_cross_by_their_payloads(s: Sigs, defs: Definitions, id: DefId, args: Seq<Ty>, depth: nat)
    requires
        depth > 0,
        !marked(s, defs, Ty::Enum(id, args), "Send"@),
    ensures
        sendable(s, defs, Ty::Enum(id, args), depth) <==> s.enum_sigs.contains_key(id) && forall|v: int|
            #![trigger payload_of(s, Ty::Enum(id, args), v)]
            0 <= v < s.enum_sigs[id].variants.len() ==> (payload_of(s, Ty::Enum(id, args), v) matches Some(ps)
                && forall|k: int|
                #![trigger ps[k]]
                0 <= k < ps.len() ==> sendable(s, defs, ps[k], (depth - 1) as nat) && shareable(
                    s,
                    defs,
                    ps[k],
                    (depth - 1) as nat,
                )),
{
    let n = (depth - 1) as nat;
    let t = Ty::Enum(id, args);
    assert(sendable(s, defs, t, depth) == crate::send_sync::variants_cross(s, defs, t, depth));
    assert forall|v: int| #![trigger payload_of(s, t, v)] 0 <= v < variant_count(s, t) implies (payload_of(s, t, v)
        matches Some(ps) && (crate::send_sync::all_cross(s, defs, ps, n) <==> forall|k: int|
        #![trigger ps[k]]
        0 <= k < ps.len() ==> sendable(s, defs, ps[k], n) && shareable(s, defs, ps[k], n))) by {
    }
}

// ---------------------------------------------------------------------
// Layout
// ---------------------------------------------------------------------

/// What holds itself: a tuple or a fixed array if an item does, an inline struct or an
/// enum if it is being laid out already or a part does; never what is held by reference.
pub proof fn law_endless_values(sc: Sc, s: Sigs, t: Ty, stack: Seq<DefId>)
    ensures
        match t {
            Ty::Tuple(items) => endless(sc, s, t, stack) <==> exists|k: int|
                #![trigger items[k]]
                0 <= k < items.len() && endless(sc, s, items[k], stack),
            Ty::FixedArray(a, _) => endless(sc, s, t, stack) <==> endless(sc, s, *a, stack),
            Ty::Unique(a) => endless(sc, s, t, stack) <==> endless(sc, s, *a, stack),
            Ty::Struct(id, _) | Ty::TupleStruct(id, _) => {
                &&& kind_of_alloc(t, sc.defs()) is Heap ==> !endless(sc, s, t, stack)
                &&& !(kind_of_alloc(t, sc.defs()) is Heap) && stack.contains(id) ==> endless(sc, s, t, stack)
                &&& !(kind_of_alloc(t, sc.defs()) is Heap) && !stack.contains(id) && pair_get(sc.decls.types, id) is Some
                    ==> (endless(sc, s, t, stack) <==> (fields_of(s, t) matches Some(fs) && exists|k: int|
                    #![trigger fs[k]]
                    0 <= k < fs.len() && endless(sc, s, fs[k], stack.push(id))))
            },
            Ty::Enum(id, _) => stack.contains(id) ==> endless(sc, s, t, stack),
            _ => !endless(sc, s, t, stack),
        },
{
    match t {
        Ty::Tuple(items) => {
            assert(endless(sc, s, t, stack) == endless_any(sc, s, items, stack));
        },
        Ty::Struct(id, _) | Ty::TupleStruct(id, _) => {
            assert(endless(sc, s, t, stack) == crate::layout::endless_struct(sc, s, t, id, stack));
            if let Some(fs) = fields_of(s, t) {
                assert(endless_any(sc, s, fs, stack.push(id)) <==> exists|k: int|
                    #![trigger fs[k]]
                    0 <= k < fs.len() && endless(sc, s, fs[k], stack.push(id)));
            }
        },
        _ => {},
    }
}

/// An enum that is not being laid out yet holds itself exactly if a part of a payload
/// does.
pub proof fn law_endless_enums(sc: Sc, s: Sigs, id: DefId, args: Seq<Ty>, stack: Seq<DefId>)
    requires
        !stack.contains(id),
        pair_get(sc.decls.enums, id) is Some,
    ensures
        endless(sc, s, Ty::Enum(id, args), stack) <==> exists|v: int, k: int|
            #![trigger payload_of(s, Ty::Enum(id, args), v)->Some_0[k]]
            0 <= v < variant_count(s, Ty::Enum(id, args)) && (payload_of(s, Ty::Enum(id, args), v) matches Some(ps) && 0
                <= k < ps.len() && endless(sc, s, ps[k], stack.push(id))),
{
    let t = Ty::Enum(id, args);
    if endless(sc, s, t, stack) {
        let v = choose|v: int|
            #![trigger payload_of(s, t, v)]
            0 <= v < variant_count(s, t) && (match payload_of(s, t, v) {
                Some(fields) => endless_any(sc, s, fields, stack.push(id)),
                None => false,
            });
        let ps = payload_of(s, t, v)->Some_0;
        let k = choose|k: int| #![trigger ps[k]] 0 <= k < ps.len() && endless(sc, s, ps[k], stack.push(id));
        assert(payload_of(s, t, v)->Some_0[k] == ps[k]);
    }
    if exists|v: int, k: int|
        #![trigger payload_of(s, t, v)->Some_0[k]]
        0 <= v < variant_count(s, t) && (payload_of(s, t, v) matches Some(ps) && 0 <= k < ps.len() && endless(
            sc,
            s,
            ps[k],
            stack.push(id),
        )) {
        let (v, k) = choose|v: int, k: int|
            #![trigger payload_of(s, t, v)->Some_0[k]]
            0 <= v < variant_count(s, t) && (payload_of(s, t, v) matches Some(ps) && 0 <= k < ps.len() && endless(
                sc,
                s,
                ps[k],
                stack.push(id),
            ));
        let ps = payload_of(s, t, v)->Some_0;
        assert(endless(sc, s, ps[k], stack.push(id)));
        assert(endless_any(sc, s, ps, stack.push(id)));
    }
}

proof fn lemma_struct_layouts(sc: Sc, s: Sigs, i: int, d: Seq<Diag>)
    requires
        0 <= i,
    ensures
        struct_layout_errors(sc, s, i, d).len() >= d.len(),
        struct_layout_errors(sc, s, i, d).len() == d.len() <==> forall|k: int|
            #![trigger sc.decls.types[k]]
            i <= k < sc.decls.types.len() && sc.struct_decl(sc.decls.types[k].0) is Some && !(kind_of_alloc(
                declared_owner_type(sc, sc.decls.types[k].0),
                sc.defs(),
            ) is Heap) ==> !endless(sc, s, declared_owner_type(sc, sc.decls.types[k].0), Seq::empty()),
    decreases sc.decls.types.len() - i,
{
    if i < sc.decls.types.len() {
        let id = sc.decls.types[i].0;
        let t = declared_owner_type(sc, id);
        let d1 = match sc.struct_decl(id) {
            Some(decl) => if !(kind_of_alloc(t, sc.defs()) is Heap) && endless(sc, s, t, Seq::empty()) {
                d.push(
                    crate::diagnostics::diag(
                        "value type `"@ + decl.name.name@ + "` has an infinitely recursive layout"@,
                        decl.span,
                        "introduce a heap-allocated PascalCase type or another indirection"@,
                    ),
                )
            } else {
                d
            },
            None => d,
        };
        lemma_struct_layouts(sc, s, i + 1, d1);
    }
}

proof fn lemma_enum_layouts(sc: Sc, s: Sigs, i: int, d: Seq<Diag>)
    requires
        0 <= i,
    ensures
        enum_layout_errors(sc, s, i, d).len() >= d.len(),
        enum_layout_errors(sc, s, i, d).len() == d.len() <==> forall|k: int|
            #![trigger sc.decls.enums[k]]
            i <= k < sc.decls.enums.len() && sc.enum_decl(sc.decls.enums[k].0) is Some ==> !endless(
                sc,
                s,
                declared_owner_type(sc, sc.decls.enums[k].0),
                Seq::empty(),
            ),
    decreases sc.decls.enums.len() - i,
{
    if i < sc.decls.enums.len() {
        let id = sc.decls.enums[i].0;
        let d1 = match sc.enum_decl(id) {
            Some(decl) => if endless(sc, s, declared_owner_type(sc, id), Seq::empty()) {
                d.push(
                    crate::diagnostics::diag(
                        "enum `"@ + decl.name.name@ + "` has an infinitely recursive layout"@,
                        decl.span,
                        "introduce a heap-allocated PascalCase type or another indirection"@,
                    ),
                )
            } else {
                d
            },
            None => d,
        };
        lemma_enum_layouts(sc, s, i + 1, d1);
    }
}

/// The layouts of a module are accepted exactly if no declared inline struct and no
/// declared enum holds itself.
pub proof fn law_accepted_layouts_are_finite(sc: Sc, s: Sigs, d: Seq<Diag>)
    ensures
        layout_errors(sc, s, d).len() == d.len() <==> {
            &&& forall|k: int|
                #![trigger sc.decls.types[k]]
                0 <= k < sc.decls.types.len() && sc.struct_decl(sc.decls.types[k].0) is Some && !(kind_of_alloc(
                    declared_owner_type(sc, sc.decls.types[k].0),
                    sc.defs(),
                ) is Heap) ==> !endless(sc, s, declared_owner_type(sc, sc.decls.types[k].0), Seq::empty())
            &&& forall|k: int|
                #![trigger sc.decls.enums[k]]
                0 <= k < sc.decls.enums.len() && sc.enum_decl(sc.decls.enums[k].0) is Some ==> !endless(
                    sc,
                    s,
                    declared_owner_type(sc, sc.decls.enums[k].0),
                    Seq::empty(),
                )
        },
{
    lemma_struct_layouts(sc, s, 0, d);
    lemma_enum_layouts(sc, s, 0, struct_layout_errors(sc, s, 0, d));
}

// ---------------------------------------------------------------------
// Names
// ---------------------------------------------------------------------

/// An alias is accepted exactly if its type is, and its name is in upper case exactly if
/// the type is on the heap; any name goes for an enum, a tuple and what was already
/// reported, and for an alias that says so.
pub proof fn law_alias_names_show_the_representation(sc: Sc, a: TypeAliasDecl, d: Seq<Diag>)
    requires
        !a.allow_pascal_case,
    ensures
        ({
            let t = type_of(sc, a.ty);
            alias_errors(sc, a, d).len() == d.len() <==> crate::written::errors_of(sc, a.ty).len() == 0 && (t is Error
                || t is Enum || t is Tuple || (pascal_case(a.name.name@) <==> kind_of_alloc(t, sc.defs()) is Heap))
        }),
{
    crate::written::law_types_do_not_depend_on_errors(sc, a.ty, Seq::empty(), d);
}

// ---------------------------------------------------------------------
// Normal forms
// ---------------------------------------------------------------------

/// Replacing associated types goes into every part of a type, and changes nothing but
/// them.
pub proof fn law_normal_forms_keep_the_shape(s: Sigs, t: Ty)
    ensures
        match t {
            Ty::Struct(id, args) => normal(s, t) matches Ty::Struct(j, us) && j == id && us.len() == args.len() && forall|
                k: int,
            |
                #![trigger us[k]]
                0 <= k < us.len() ==> us[k] == normal(s, args[k]),
            Ty::TupleStruct(id, args) => normal(s, t) matches Ty::TupleStruct(j, us) && j == id && us.len() == args.len()
                && forall|k: int| #![trigger us[k]] 0 <= k < us.len() ==> us[k] == normal(s, args[k]),
            Ty::Enum(id, args) => normal(s, t) matches Ty::Enum(j, us) && j == id && us.len() == args.len() && forall|
                k: int,
            |
                #![trigger us[k]]
                0 <= k < us.len() ==> us[k] == normal(s, args[k]),
            Ty::Tuple(args) => normal(s, t) matches Ty::Tuple(us) && us.len() == args.len() && forall|k: int|
                #![trigger us[k]]
                0 <= k < us.len() ==> us[k] == normal(s, args[k]),
            Ty::Function(ps, r) => normal(s, t) matches Ty::Function(us, q) && us.len() == ps.len() && *q == normal(s, *r)
                && forall|k: int| #![trigger us[k]] 0 <= k < us.len() ==> us[k] == normal(s, ps[k]),
            Ty::Array(a) => normal(s, t) == Ty::Array(Box::new(normal(s, *a))),
            Ty::Weak(a) => normal(s, t) == Ty::Weak(Box::new(normal(s, *a))),
            Ty::Unique(a) => normal(s, t) == Ty::Unique(Box::new(normal(s, *a))),
            Ty::Ref(a) => normal(s, t) == Ty::Ref(Box::new(normal(s, *a))),
            Ty::MutRef(a) => normal(s, t) == Ty::MutRef(Box::new(normal(s, *a))),
            Ty::FixedArray(a, n) => normal(s, t) == Ty::FixedArray(Box::new(normal(s, *a)), Box::new(normal(s, *n))),
            Ty::Associated(_, _) => true,
            _ => normal(s, t) == t,
        },
{
    let none: Seq<(DefId, Seq<char>)> = Seq::empty();
    match t {
        Ty::Struct(_, args) | Ty::TupleStruct(_, args) | Ty::Enum(_, args) | Ty::Tuple(args) | Ty::Function(args, _) => {
            let us = crate::rules::normalize_all(s, args, none);
            assert(us.len() == args.len());
            assert(forall|k: int| #![trigger us[k]] 0 <= k < us.len() ==> us[k] == normal(s, args[k]));
        },
        _ => {},
    }
}

/// An associated type of a declared type is what the type declares it to be, with the
/// type's arguments put in; one that is not declared stays as it is.
pub proof fn law_associated_types_are_replaced(s: Sigs, id: DefId, args: Seq<Ty>, owner: Ty, name: Seq<char>)
    requires
        normal(s, owner) == Ty::Struct(id, args) || normal(s, owner) == Ty::TupleStruct(id, args) || normal(s, owner)
            == Ty::Enum(id, args),
    ensures
        match pair_get(s.associated_types, (id, name)) {
            None => normal(s, Ty::Associated(Box::new(owner), name)) == Ty::Associated(Box::new(normal(s, owner)), name),
            Some(sig) => match sig.ty {
                None => normal(s, Ty::Associated(Box::new(owner), name)) is Error,
                Some(declared) => normal(s, Ty::Associated(Box::new(owner), name)) == crate::rules::normalize(
                    s,
                    subst(declared, zip_subst(s.owner_generics(id), args)),
                    seq![(id, name)],
                ),
            },
        },
{
    let none: Seq<(DefId, Seq<char>)> = Seq::empty();
    assert(none.push((id, name)) =~= seq![(id, name)]);
}

// ---------------------------------------------------------------------
// Text
// ---------------------------------------------------------------------

/// The number that a decimal digit stands for.
pub open spec fn digit_value(c: char) -> nat {
    (c as u32 - '0' as u32) as nat
}

/// The number that decimal digits stand for.
pub open spec fn read_decimal(s: Seq<char>) -> nat
    decreases s.len(),
{
    if s.len() == 0 {
        0
    } else {
        read_decimal(s.drop_last()) * 10 + digit_value(s.last())
    }
}

/// A number that is written in decimal reads back as itself, in digits only and without
/// a leading zero.
pub proof fn law_decimals_read_back(n: nat)
    ensures
        read_decimal(decimal(n)) == n,
        decimal(n).len() > 0,
        n > 0 ==> decimal(n)[0] != '0',
        forall|i: int| #![trigger decimal(n)[i]] 0 <= i < decimal(n).len() ==> '0' <= decimal(n)[i] <= '9',
    decreases n,
{
    if n < 10 {
        assert(decimal(n) =~= seq![digit(n)]);
        assert(decimal(n).drop_last() =~= Seq::empty());
        reveal_with_fuel(read_decimal, 2);
    } else {
        law_decimals_read_back(n / 10);
        let s = decimal(n / 10).push(digit(n % 10));
        assert(s.drop_last() =~= decimal(n / 10));
        assert(s.last() == digit(n % 10));
        assert(digit_value(digit(n % 10)) == n % 10);
        assert(s[0] == decimal(n / 10)[0]);
        assert forall|i: int| #![trigger decimal(n)[i]] 0 <= i < decimal(n).len() implies '0' <= decimal(n)[i] <= '9' by {
            if i < decimal(n / 10).len() {
                assert(decimal(n)[i] == decimal(n / 10)[i]);
            }
        }
    }
}

/// Joined text is as long as its items and the separators between them; one item more
/// comes after one separator more.
pub proof fn law_joined_text(items: Seq<Seq<char>>, x: Seq<char>, sep: Seq<char>)
    ensures
        join(Seq::empty(), sep).len() == 0,
        join(seq![x], sep) == x,
        items.len() > 0 ==> join(items.push(x), sep) == join(items, sep) + sep + x,
{
    if items.len() > 0 {
        assert(items.push(x).drop_last() =~= items);
    }
}

// ---------------------------------------------------------------------
// Fitting
// ---------------------------------------------------------------------

/// Types of one form fit each other exactly if their parts do, in order and in number; a
/// fixed array only with the same length, and a nominal type only of the same declaration.
pub proof fn law_types_fit_by_their_parts(a: Ty, b: Ty)
    ensures
        match (a, b) {
            (Ty::Array(x), Ty::Array(y)) => fits(a, b) <==> fits(*x, *y),
            (Ty::Task(x), Ty::Task(y)) => fits(a, b) <==> fits(*x, *y),
            (Ty::Thread(x), Ty::Thread(y)) => fits(a, b) <==> fits(*x, *y),
            (Ty::Unique(x), Ty::Unique(y)) => fits(a, b) <==> fits(*x, *y),
            (Ty::Ref(x), Ty::Ref(y)) => fits(a, b) <==> fits(*x, *y),
            (Ty::MutRef(x), Ty::MutRef(y)) => fits(a, b) <==> fits(*x, *y),
            (Ty::RawConstPtr(x), Ty::RawConstPtr(y)) => fits(a, b) <==> fits(*x, *y),
            (Ty::RawMutPtr(x), Ty::RawMutPtr(y)) => fits(a, b) <==> fits(*x, *y),
            (Ty::RawMutPtr(x), Ty::RawConstPtr(y)) => fits(a, b) <==> fits(*x, *y),
            (Ty::FixedArray(x, n), Ty::FixedArray(y, k)) => fits(a, b) <==> fits(*x, *y) && *n == *k,
            (Ty::Associated(x, n), Ty::Associated(y, k)) => fits(a, b) <==> fits(*x, *y) && n == k,
            (Ty::Tuple(x), Ty::Tuple(y)) => fits(a, b) <==> fit_pairwise(x, y),
            (Ty::Struct(i, x), Ty::Struct(j, y)) => fits(a, b) <==> i == j && fit_pairwise(x, y),
            (Ty::TupleStruct(i, x), Ty::TupleStruct(j, y)) => fits(a, b) <==> i == j && fit_pairwise(x, y),
            (Ty::Enum(i, x), Ty::Enum(j, y)) => fits(a, b) <==> i == j && fit_pairwise(x, y),
            (Ty::Function(x, p), Ty::Function(y, q)) => fits(a, b) <==> fit_pairwise(x, y) && fits(*p, *q),
            _ => true,
        },
{
    match (a, b) {
        (Ty::Tuple(x), Ty::Tuple(y))
        | (Ty::Struct(_, x), Ty::Struct(_, y))
        | (Ty::TupleStruct(_, x), Ty::TupleStruct(_, y))
        | (Ty::Enum(_, x), Ty::Enum(_, y))
        | (Ty::Function(x, _), Ty::Function(y, _)) => {
            assert(crate::ty::all_fit(x, y) <==> fit_pairwise(x, y));
            if x == y {
                assert forall|k: int| #![trigger x[k]] 0 <= k < x.len() implies fits(x[k], y[k]) by {
                    crate::ty::law_fits_itself(x[k]);
                }
            }
        },
        _ => {},
    }
    if let (Ty::Function(_, p), Ty::Function(_, q)) = (a, b) {
        crate::ty::law_fits_itself(*p);
    }
}

/// Whether two lists are equally long and fit pairwise.
pub open spec fn fit_pairwise(x: Seq<Ty>, y: Seq<Ty>) -> bool {
    x.len() == y.len() && forall|k: int| #![trigger x[k]] 0 <= k < x.len() ==> fits(x[k], y[k])
}

/// A type of which parts are unknown fits the type that it is a part of.
pub proof fn law_unknown_parts_fit(t: Ty, u: Ty)
    requires
        crate::subst::less_known(t, u),
    ensures
        fits(t, u),
    decreases t,
{
    if t != u && !(t is Error) {
        match (t, u) {
            (Ty::Tuple(a), Ty::Tuple(b))
            | (Ty::Struct(_, a), Ty::Struct(_, b))
            | (Ty::TupleStruct(_, a), Ty::TupleStruct(_, b))
            | (Ty::Enum(_, a), Ty::Enum(_, b)) => lemma_unknown_parts_fit(a, b),
            (Ty::Array(a), Ty::Array(b)) | (Ty::Weak(a), Ty::Weak(b)) => law_unknown_parts_fit(*a, *b),
            (Ty::Function(a, r), Ty::Function(b, q)) => {
                lemma_unknown_parts_fit(a, b);
                law_unknown_parts_fit(*r, *q);
            },
            _ => {},
        }
    }
}

proof fn lemma_unknown_parts_fit(a: Seq<Ty>, b: Seq<Ty>)
    requires
        crate::subst::all_less_known(a, b),
    ensures
        crate::ty::all_fit(a, b),
    decreases a,
{
    assert forall|i: int| #![trigger a[i]] 0 <= i < a.len() implies fits(a[i], b[i]) by {
        assert(crate::subst::less_known(a[i], b[i]));
        law_unknown_parts_fit(a[i], b[i]);
    }
}

/// How types are printed: a type's form shows in what stands before, behind or around its
/// parts.
pub proof fn law_printed_types(t: Ty, defs: Definitions)
    ensures
        match t {
            Ty::Array(a) => shown(t, defs) == "["@ + shown(*a, defs) + "]"@,
            Ty::FixedArray(a, n) => shown(t, defs) == "{"@ + shown(*a, defs) + ", "@ + shown(*n, defs) + "}"@,
            Ty::Unique(a) => shown(t, defs) == ":"@ + shown(*a, defs),
            Ty::Ref(a) => shown(t, defs) == ":&"@ + shown(*a, defs),
            Ty::MutRef(a) => shown(t, defs) == ":&mut "@ + shown(*a, defs),
            Ty::RawConstPtr(a) => shown(t, defs) == "*const "@ + shown(*a, defs),
            Ty::RawMutPtr(a) => shown(t, defs) == "*mut "@ + shown(*a, defs),
            Ty::Weak(a) => shown(t, defs) == "weak "@ + shown(*a, defs),
            Ty::Task(a) => shown(t, defs) == "Task<"@ + shown(*a, defs) + ">"@,
            Ty::Thread(a) => shown(t, defs) == "Thread<"@ + shown(*a, defs) + ">"@,
            Ty::Associated(a, name) => shown(t, defs) == shown(*a, defs) + "."@ + name,
            Ty::Generic(name) => shown(t, defs) == name,
            Ty::String => shown(t, defs) == "String"@,
            Ty::Never => shown(t, defs) == "!"@,
            Ty::Error => shown(t, defs) == "<error>"@,
            Ty::Struct(id, args) | Ty::TupleStruct(id, args) | Ty::Enum(id, args) => args.len() == 0 ==> shown(t, defs)
                == defs.name_of(id),
            _ => true,
        },
{
    match t {
        Ty::Struct(_, args) | Ty::TupleStruct(_, args) | Ty::Enum(_, args) => {
            assert(crate::describe::shown_all(args, defs).len() == args.len());
        },
        _ => {},
    }
}

/// A constant is printed as its number.
pub proof fn law_printed_constants(n: u128, defs: Definitions)
    ensures
        read_decimal(shown(Ty::Const(n), defs)) == n,
{
    law_decimals_read_back(n as nat);
}

/// A trait is found by its name exactly if it is the first one of that name.
pub proof fn law_found_traits(defs: Definitions, name: Seq<char>, i: int)
    requires
        0 <= i,
        defs.items@.len() <= u32::MAX,
    ensures
        match defs.trait_from(name, i) {
            Some(id) => {
                &&& i <= id.0 < defs.items@.len()
                &&& defs.items@[id.0 as int].kind is Trait
                &&& defs.items@[id.0 as int].name@ == name
                &&& forall|k: int|
                    #![trigger defs.items@[k]]
                    i <= k < id.0 ==> !(defs.items@[k].kind is Trait && defs.items@[k].name@ == name)
            },
            None => forall|k: int|
                #![trigger defs.items@[k]]
                i <= k < defs.items@.len() ==> !(defs.items@[k].kind is Trait && defs.items@[k].name@ == name),
        },
    decreases defs.items@.len() - i,
{
    if i < defs.items@.len() && !(defs.items@[i].kind is Trait && defs.items@[i].name@ == name) {
        law_found_traits(defs, name, i + 1);
    }
}

// ---------------------------------------------------------------------
// Parameters of impl blocks
// ---------------------------------------------------------------------

/// Whether a target's argument is one of an impl block's own parameters, by this name.
pub open spec fn names_parameter(b: ImplBlock, arg: TypeExpr, name: Seq<char>) -> bool {
    arg matches TypeExpr::Named { path, generics, span: _ } && generics@.len() == 0 && path.segments@.len() == 1
        && path.segments@[0].name@ == name && exists|k: int|
        #![trigger b.generics@[k]]
        0 <= k < b.generics@.len() && b.generics@[k].name.name@ == name
}

proof fn lemma_ordered(b: ImplBlock, i: int, acc: Seq<Seq<char>>, ok: bool, d: Seq<Diag>)
    requires
        0 <= i <= b.target_args@.len(),
        acc.no_duplicates(),
    ensures
        ({
            let (names, ok1, d1) = ordered_params(b, i, acc, ok, d);
            &&& d1.len() >= d.len()
            &&& names.no_duplicates()
            &&& ok1 <==> ok && d1.len() == d.len()
            &&& d1.len() == d.len() ==> names.len() == acc.len() + b.target_args@.len() - i
            &&& forall|k: int| #![trigger names[k]] 0 <= k < acc.len() ==> names[k] == acc[k]
            &&& names.len() >= acc.len()
            &&& d1.len() == d.len() ==> forall|k: int|
                #![trigger b.target_args@[k]]
                i <= k < b.target_args@.len() ==> names_parameter(b, b.target_args@[k], names[acc.len() + k - i])
        }),
    decreases b.target_args@.len() - i,
{
    if i < b.target_args@.len() {
        let arg = b.target_args@[i];
        let named = crate::owners::impl_parameter(b, arg);
        let (names, ok1, d1) = ordered_params(b, i, acc, ok, d);
        if named is Some && !acc.contains(named->0) {
            let acc1 = acc.push(named->0);
            assert(acc1.no_duplicates());
            lemma_ordered(b, i + 1, acc1, ok, d);
            assert(names[acc.len() as int] == acc1[acc.len() as int]);
            let all = crate::declarations::param_names(b.generics@);
            let k = choose|k: int| 0 <= k < all.len() && all[k] == named->0;
            assert(b.generics@[k].name.name@ == named->0);
            assert(names_parameter(b, arg, named->0));
            assert forall|k: int| #![trigger names[k]] 0 <= k < acc.len() implies names[k] == acc[k] by {
                assert(acc1[k] == acc[k]);
            }
        } else {
            let d2 = d.push(
                crate::diagnostics::diag(
                    "an explicit `impl<...> Target<...>` argument list must name each of the impl's own generic parameters exactly once (no concrete types, no repeats)"@,
                    crate::ast::type_span(arg),
                    "not one of this impl's generic parameters"@,
                ),
            );
            lemma_ordered(b, i + 1, acc, false, d2);
        }
    }
}

/// The arguments of `impl<T> Target<T>` are in order exactly if each names one of the
/// block's own parameters, and none twice; the parameters are then taken in the order of
/// the arguments.
pub proof fn law_impl_arguments_name_parameters(b: ImplBlock, d: Seq<Diag>)
    ensures
        ({
            let (names, ok, d1) = ordered_params(b, 0, Seq::empty(), true, d);
            &&& ok <==> d1.len() == d.len()
            &&& ok ==> names.len() == b.target_args@.len() && names.no_duplicates() && forall|k: int|
                #![trigger b.target_args@[k]]
                0 <= k < b.target_args@.len() ==> names_parameter(b, b.target_args@[k], names[k])
        }),
{
    lemma_ordered(b, 0, Seq::empty(), true, d);
}

} // verus!
