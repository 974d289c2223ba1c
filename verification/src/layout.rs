//! Inline types must have a finite layout.
use crate::datum::{lemma_deep_len, occurs, put, Dup};
use crate::diagnostics::{diag, report, Diag, Diagnostic};
use crate::ids::DefId;
use crate::lower::{Sc, Scope};
use crate::owners::declared_owner_type;
use crate::representation::{is_heap, kind_of_alloc};
use crate::rules::{fields_of, payload_of, variant_count};
use crate::sig::{Signatures, Sigs};
use crate::table::{lemma_pair_index, lemma_unseen, pair_get, unseen};
use crate::text::cat3;
use crate::ty::{group_tys, Ty, Type};
use vstd::prelude::*;

verus! {

broadcast use group_tys, lemma_deep_len;

/// The number of declared aggregates that are not in `stack`.
pub open spec fn unstacked(sc: Sc, stack: Seq<DefId>) -> nat {
    unseen(sc.decls.types, stack) + unseen(sc.decls.enums, stack)
}

/// Stacking a declared aggregate leaves fewer.
pub proof fn lemma_unstacked(sc: Sc, stack: Seq<DefId>, id: DefId)
    requires
        pair_get(sc.decls.types, id) is Some || pair_get(sc.decls.enums, id) is Some,
        !stack.contains(id),
    ensures
        unstacked(sc, stack.push(id)) < unstacked(sc, stack),
{
    lemma_pair_index(sc.decls.types, id);
    lemma_pair_index(sc.decls.enums, id);
    lemma_unseen(sc.decls.types, stack, id);
    lemma_unseen(sc.decls.enums, stack, id);
}

/// Whether a value of type `t` would hold inline a value of an aggregate in
/// `stack`, or of one that holds itself.
pub open spec fn endless(sc: Sc, s: Sigs, t: Ty, stack: Seq<DefId>) -> bool
    decreases unstacked(sc, stack), t, 1nat,
{
    match t {
        Ty::Struct(id, _) => endless_struct(sc, s, t, id, stack),
        Ty::TupleStruct(id, _) => endless_struct(sc, s, t, id, stack),
        Ty::Enum(id, _) => stack.contains(id) || (pair_get(sc.decls.enums, id) is Some && {
            proof {
                if !stack.contains(id) && pair_get(sc.decls.enums, id) is Some {
                    lemma_unstacked(sc, stack, id);
                }
            }
            exists|v: int|
                #![trigger payload_of(s, t, v)]
                0 <= v < variant_count(s, t) && (match payload_of(s, t, v) {
                    Some(fields) => endless_any(sc, s, fields, stack.push(id)),
                    None => false,
                })
        }),
        Ty::Tuple(items) => endless_any(sc, s, items, stack),
        Ty::FixedArray(element, _) => endless(sc, s, *element, stack),
        Ty::Unique(inner) => endless(sc, s, *inner, stack),
        _ => false,
    }
}

/// The same for a struct type; a shared one is held by reference.
pub open spec fn endless_struct(sc: Sc, s: Sigs, t: Ty, id: DefId, stack: Seq<DefId>) -> bool
    decreases unstacked(sc, stack), t, 0nat,
{
    !(kind_of_alloc(t, sc.defs()) is Heap) && (stack.contains(id) || (pair_get(sc.decls.types, id) is Some && {
        proof {
            if !stack.contains(id) && pair_get(sc.decls.types, id) is Some {
                lemma_unstacked(sc, stack, id);
            }
        }
        match fields_of(s, t) {
            Some(fields) => endless_any(sc, s, fields, stack.push(id)),
            None => false,
        }
    }))
}

/// The same for one of the types.
pub open spec fn endless_any(sc: Sc, s: Sigs, ts: Seq<Ty>, stack: Seq<DefId>) -> bool
    decreases unstacked(sc, stack), ts, 2nat,
{
    exists|i: int| #![trigger ts[i]] 0 <= i < ts.len() && endless(sc, s, ts[i], stack)
}

/// The errors of the inline structs from the `i`-th declaration on.
pub open spec fn struct_layout_errors(sc: Sc, s: Sigs, i: int, d: Seq<Diag>) -> Seq<Diag>
    decreases sc.decls.types.len() - i,
{
    if 0 <= i < sc.decls.types.len() {
        let id = sc.decls.types[i].0;
        let t = declared_owner_type(sc, id);
        let d1 = match sc.struct_decl(id) {
            Some(decl) => if !(kind_of_alloc(t, sc.defs()) is Heap) && endless(sc, s, t, Seq::empty()) {
                d.push(
                    diag(
                        "value type `"@ + decl.name.name@ + "` has an infinitely recursive layout"@,
                        decl.span,
                        "introduce a heap-allocated PascalCase type or another indirection"@,
                    ),
                )
            } else {
                d
            },
            None => d,
        };
        struct_layout_errors(sc, s, i + 1, d1)
    } else {
        d
    }
}

/// The errors of the enums from the `i`-th declaration on.
pub open spec fn enum_layout_errors(sc: Sc, s: Sigs, i: int, d: Seq<Diag>) -> Seq<Diag>
    decreases sc.decls.enums.len() - i,
{
    if 0 <= i < sc.decls.enums.len() {
        let id = sc.decls.enums[i].0;
        let d1 = match sc.enum_decl(id) {
            Some(decl) => if endless(sc, s, declared_owner_type(sc, id), Seq::empty()) {
                d.push(
                    diag(
                        "enum `"@ + decl.name.name@ + "` has an infinitely recursive layout"@,
                        decl.span,
                        "introduce a heap-allocated PascalCase type or another indirection"@,
                    ),
                )
            } else {
                d
            },
            None => d,
        };
        enum_layout_errors(sc, s, i + 1, d1)
    } else {
        d
    }
}

/// The errors of all declared aggregates.
pub open spec fn layout_errors(sc: Sc, s: Sigs, d: Seq<Diag>) -> Seq<Diag> {
    enum_layout_errors(sc, s, 0, struct_layout_errors(sc, s, 0, d))
}

impl<'a> Scope<'a> {
    fn value_layout_reaches_cycle(&self, ty: &Type, sigs: &Signatures, stack: &Vec<DefId>) -> (r: bool)
        ensures
            r == endless(self@, sigs@, ty@, stack.deep_view()),
        decreases unstacked(self@, stack.deep_view()), ty, 1nat,
    {
        match ty {
            Type::Struct(id, _) => self.struct_reaches_cycle(ty, *id, sigs, stack),
            Type::TupleStruct(id, _) => self.struct_reaches_cycle(ty, *id, sigs, stack),
            Type::Enum(id, _) => {
                if occurs(stack, id) {
                    return true;
                }
                if self.decls.enum_decls.get(id).is_none() {
                    return false;
                }
                let mut deeper = stack.dup();
                put(&mut deeper, *id);
                proof {
                    lemma_unstacked(self@, stack.deep_view(), *id);
                }
                let n: usize = sigs.variants_in(ty);
                let ghost next = stack.deep_view().push(*id);
                let mut v: usize = 0;
                while v < n
                    invariant
                        v <= n,
                        n == variant_count(sigs@, ty@),
                        deeper.deep_view() == next,
                        next == stack.deep_view().push(*id),
                        !stack.deep_view().contains(*id),
                        pair_get(self@.decls.enums, *id) is Some,
                        ty@ is Enum,
                        ty@->Enum_0 == *id,
                        unstacked(self@, next) < unstacked(self@, stack.deep_view()),
                        forall|w: int|
                            #![trigger payload_of(sigs@, ty@, w)]
                            0 <= w < v ==> !(match payload_of(sigs@, ty@, w) {
                                Some(fields) => endless_any(self@, sigs@, fields, next),
                                None => false,
                            }),
                    decreases n - v,
                {
                    let found = match sigs.payload_at(ty, v) {
                        Some(fields) => self.any_reaches_cycle(&fields, sigs, &deeper),
                        None => false,
                    };
                    if found {
                        return true;
                    }
                    v += 1;
                }
                false
            },
            Type::Tuple(items) => self.any_reaches_cycle(items, sigs, stack),
            Type::FixedArray(element, _) => self.value_layout_reaches_cycle(element, sigs, stack),
            Type::Unique(inner) => self.value_layout_reaches_cycle(inner, sigs, stack),
            _ => false,
        }
    }

    fn struct_reaches_cycle(&self, ty: &Type, id: DefId, sigs: &Signatures, stack: &Vec<DefId>) -> (r: bool)
        ensures
            r == endless_struct(self@, sigs@, ty@, id, stack.deep_view()),
        decreases unstacked(self@, stack.deep_view()), ty, 0nat,
    {
        if is_heap(ty, &self.names.definitions) {
            return false;
        }
        if occurs(stack, &id) {
            return true;
        }
        if self.decls.type_decls.get(&id).is_none() {
            return false;
        }
        let mut deeper = stack.dup();
        put(&mut deeper, id);
        proof {
            lemma_unstacked(self@, stack.deep_view(), id);
        }
        match sigs.type_fields(ty) {
            Some(fields) => self.any_reaches_cycle(&fields, sigs, &deeper),
            None => false,
        }
    }

    fn any_reaches_cycle(&self, items: &Vec<Type>, sigs: &Signatures, stack: &Vec<DefId>) -> (r: bool)
        ensures
            r == endless_any(self@, sigs@, items.deep_view(), stack.deep_view()),
        decreases unstacked(self@, stack.deep_view()), items, 2nat,
    {
        let ghost ts = items.deep_view();
        let mut k: usize = 0;
        while k < items.len()
            invariant
                k <= items.len(),
                ts == items.deep_view(),
                forall|i: int| #![trigger ts[i]] 0 <= i < k ==> !endless(self@, sigs@, ts[i], stack.deep_view()),
            decreases items.len() - k,
        {
            if self.value_layout_reaches_cycle(&items[k], sigs, stack) {
                assert(endless(self@, sigs@, ts[k as int], stack.deep_view()));
                return true;
            }
            k += 1;
        }
        false
    }

    fn is_endless(&self, ty: &Type, sigs: &Signatures) -> (r: bool)
        ensures
            r == endless(self@, sigs@, ty@, Seq::empty()),
    {
        let stack: Vec<DefId> = Vec::new();
        proof {
            assert(stack.deep_view() =~= Seq::<DefId>::empty());
        }
        self.value_layout_reaches_cycle(ty, sigs, &stack)
    }

    /// Reports the inline types without a finite layout.
    pub fn validate_finite_value_layouts(&self, sigs: &Signatures, diags: &mut Vec<Diagnostic>)
        ensures
            final(diags).deep_view() == layout_errors(self@, sigs@, old(diags).deep_view()),
    {
        let mut i: usize = 0;
        while i < self.decls.type_decls.entries.len()
            invariant
                i <= self.decls.type_decls.entries.len(),
                struct_layout_errors(self@, sigs@, i as int, diags.deep_view()) == struct_layout_errors(
                    self@,
                    sigs@,
                    0,
                    old(diags).deep_view(),
                ),
            decreases self.decls.type_decls.entries.len() - i,
        {
            let id = self.decls.type_decls.entries[i].0;
            assert(self@.decls.types[i as int].0 == id);
            if let Some(decl) = self.struct_decl(id) {
                let ty = self.owner_as_type(id);
                if !is_heap(&ty, &self.names.definitions) && self.is_endless(&ty, sigs) {
                    let message = cat3(
                        "value type `",
                        decl.name.name.as_str(),
                        "` has an infinitely recursive layout",
                    );
                    report(
                        diags,
                        message.as_str(),
                        decl.span,
                        "introduce a heap-allocated PascalCase type or another indirection",
                    );
                }
            }
            i += 1;
        }
        let ghost d1 = diags.deep_view();
        let mut k: usize = 0;
        while k < self.decls.enum_decls.entries.len()
            invariant
                k <= self.decls.enum_decls.entries.len(),
                enum_layout_errors(self@, sigs@, k as int, diags.deep_view()) == enum_layout_errors(
                    self@,
                    sigs@,
                    0,
                    d1,
                ),
            decreases self.decls.enum_decls.entries.len() - k,
        {
            let id = self.decls.enum_decls.entries[k].0;
            assert(self@.decls.enums[k as int].0 == id);
            if let Some(decl) = self.enum_decl(id) {
                let ty = self.owner_as_type(id);
                if self.is_endless(&ty, sigs) {
                    let message = cat3("enum `", decl.name.name.as_str(), "` has an infinitely recursive layout");
                    report(
                        diags,
                        message.as_str(),
                        decl.span,
                        "introduce a heap-allocated PascalCase type or another indirection",
                    );
                }
            }
            k += 1;
        }
    }
}

} // verus!
