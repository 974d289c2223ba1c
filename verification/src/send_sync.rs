//! Which values may cross threads.
//!
//! `Send` holds by default and fails where a field makes it unsafe. `Sync`
//! of a nominal type is never derived: any handle of a shared object may
//! mutate it, so only an `unsafe impl` can promise it.
use crate::datum::lemma_deep_len;
use crate::names::Definitions;
use crate::rules::{fields_of, marked, payload_of, variant_count, NESTING_LIMIT};
use crate::sig::{Signatures, Sigs};
use crate::ty::{group_tys, Ty, Type};
use vstd::prelude::*;

verus! {

broadcast use group_tys, lemma_deep_len;

/// Whether a value of type `t` may be moved to another thread. A type nested
/// beyond the limit may not.
pub open spec fn sendable(s: Sigs, defs: Definitions, t: Ty, depth: nat) -> bool
    decreases depth, t, 2nat,
{
    match t {
        Ty::Primitive(_) => true,
        Ty::Const(_) => true,
        Ty::String => true,
        Ty::Never => true,
        Ty::Error => true,
        Ty::Tuple(items) => all_sendable(s, defs, items, depth),
        Ty::FixedArray(element, _) => sendable(s, defs, *element, depth),
        Ty::Struct(_, _) => marked(s, defs, t, "Send"@) || fields_cross(s, defs, t, depth),
        Ty::TupleStruct(_, _) => marked(s, defs, t, "Send"@) || fields_cross(s, defs, t, depth),
        Ty::Enum(_, _) => marked(s, defs, t, "Send"@) || variants_cross(s, defs, t, depth),
        Ty::Array(element) => marked(s, defs, t, "Send"@) || (sendable(s, defs, *element, depth) && shareable(
            s,
            defs,
            *element,
            depth,
        )),
        Ty::Unique(inner) => marked(s, defs, *inner, "Send"@) || sendable(s, defs, *inner, depth),
        Ty::Weak(inner) => sendable(s, defs, *inner, depth) && shareable(s, defs, *inner, depth),
        Ty::Thread(output) => sendable(s, defs, *output, depth),
        _ => false,
    }
}

/// Whether a shared handle to a value of type `t` may be used from two
/// threads.
pub open spec fn shareable(s: Sigs, defs: Definitions, t: Ty, depth: nat) -> bool
    decreases depth, t, 2nat,
{
    match t {
        Ty::Primitive(_) => true,
        Ty::Const(_) => true,
        Ty::String => true,
        Ty::Never => true,
        Ty::Error => true,
        Ty::Tuple(items) => all_shareable(s, defs, items, depth),
        Ty::FixedArray(element, _) => shareable(s, defs, *element, depth),
        Ty::Struct(_, _) => marked(s, defs, t, "Sync"@),
        Ty::TupleStruct(_, _) => marked(s, defs, t, "Sync"@),
        Ty::Enum(_, _) => marked(s, defs, t, "Sync"@),
        Ty::Array(_) => marked(s, defs, t, "Sync"@),
        Ty::Unique(inner) => marked(s, defs, *inner, "Sync"@) || shareable(s, defs, *inner, depth),
        Ty::Weak(inner) => sendable(s, defs, *inner, depth) && shareable(s, defs, *inner, depth),
        _ => false,
    }
}

/// Whether all the types may be moved to another thread.
pub open spec fn all_sendable(s: Sigs, defs: Definitions, ts: Seq<Ty>, depth: nat) -> bool
    decreases depth, ts, 3nat,
{
    forall|i: int| #![trigger ts[i]] 0 <= i < ts.len() ==> sendable(s, defs, ts[i], depth)
}

/// Whether all the types may be used from two threads.
pub open spec fn all_shareable(s: Sigs, defs: Definitions, ts: Seq<Ty>, depth: nat) -> bool
    decreases depth, ts, 3nat,
{
    forall|i: int| #![trigger ts[i]] 0 <= i < ts.len() ==> shareable(s, defs, ts[i], depth)
}

/// Whether all the types may be both moved and shared.
pub open spec fn all_cross(s: Sigs, defs: Definitions, ts: Seq<Ty>, depth: nat) -> bool
    decreases depth, ts, 3nat,
{
    forall|i: int|
        #![trigger ts[i]]
        0 <= i < ts.len() ==> sendable(s, defs, ts[i], depth) && shareable(s, defs, ts[i], depth)
}

/// Whether all fields of a struct type may be both moved and shared.
pub open spec fn fields_cross(s: Sigs, defs: Definitions, t: Ty, depth: nat) -> bool
    decreases depth, t, 1nat,
{
    depth > 0 && match fields_of(s, t) {
        Some(fields) => all_cross(s, defs, fields, (depth - 1) as nat),
        None => false,
    }
}

/// Whether all payloads of an enum type may be both moved and shared.
pub open spec fn variants_cross(s: Sigs, defs: Definitions, t: Ty, depth: nat) -> bool
    decreases depth, t, 1nat,
{
    depth > 0 && enum_known(s, t) && forall|v: int|
        #![trigger payload_of(s, t, v)]
        0 <= v < variant_count(s, t) ==> (match payload_of(s, t, v) {
            Some(fields) => all_cross(s, defs, fields, (depth - 1) as nat),
            None => true,
        })
}

/// Whether an enum type has a signature.
pub open spec fn enum_known(s: Sigs, t: Ty) -> bool {
    match t {
        Ty::Enum(id, _) => s.enum_sigs.contains_key(id),
        _ => false,
    }
}

/// Whether a value of type `ty` may be moved to another thread.
pub fn is_send(ty: &Type, defs: &Definitions, sigs: &Signatures) -> (r: bool)
    ensures
        r == sendable(sigs@, *defs, ty@, NESTING_LIMIT as nat),
{
    send_inner(ty, defs, sigs, NESTING_LIMIT)
}

/// Whether a shared handle to a value of type `ty` may be used from two
/// threads.
pub fn is_sync(ty: &Type, defs: &Definitions, sigs: &Signatures) -> (r: bool)
    ensures
        r == shareable(sigs@, *defs, ty@, NESTING_LIMIT as nat),
{
    sync_inner(ty, defs, sigs, NESTING_LIMIT)
}

fn send_inner(ty: &Type, defs: &Definitions, sigs: &Signatures, depth: usize) -> (r: bool)
    ensures
        r == sendable(sigs@, *defs, ty@, depth as nat),
    decreases depth, ty, 2nat,
{
    match ty {
        Type::Primitive(_) | Type::Const(_) | Type::String | Type::Never | Type::Error => true,
        Type::Tuple(items) => all_send(items, defs, sigs, depth),
        Type::FixedArray(element, _) => send_inner(element, defs, sigs, depth),
        Type::Struct(_, _) | Type::TupleStruct(_, _) => sigs.declares_send(ty, defs) || fields_send(ty, defs, sigs, depth),
        Type::Enum(_, _) => sigs.declares_send(ty, defs) || variants_send(ty, defs, sigs, depth),
        Type::Array(element) => sigs.declares_send(ty, defs) || (sync_inner(element, defs, sigs, depth) && send_inner(
            element,
            defs,
            sigs,
            depth,
        )),
        Type::Unique(inner) => sigs.declares_send(ty, defs) || send_inner(inner, defs, sigs, depth),
        Type::Weak(inner) => sync_inner(inner, defs, sigs, depth) && send_inner(inner, defs, sigs, depth),
        Type::Thread(output) => send_inner(output, defs, sigs, depth),
        _ => false,
    }
}

fn sync_inner(ty: &Type, defs: &Definitions, sigs: &Signatures, depth: usize) -> (r: bool)
    ensures
        r == shareable(sigs@, *defs, ty@, depth as nat),
    decreases depth, ty, 2nat,
{
    match ty {
        Type::Primitive(_) | Type::Const(_) | Type::String | Type::Never | Type::Error => true,
        Type::Tuple(items) => all_sync(items, defs, sigs, depth),
        Type::FixedArray(element, _) => sync_inner(element, defs, sigs, depth),
        Type::Struct(_, _) | Type::TupleStruct(_, _) | Type::Enum(_, _) | Type::Array(_) => sigs.declares_sync(
            ty,
            defs,
        ),
        Type::Unique(inner) => sigs.declares_sync(ty, defs) || sync_inner(inner, defs, sigs, depth),
        Type::Weak(inner) => sync_inner(inner, defs, sigs, depth) && send_inner(inner, defs, sigs, depth),
        _ => false,
    }
}

fn all_send(items: &Vec<Type>, defs: &Definitions, sigs: &Signatures, depth: usize) -> (r: bool)
    ensures
        r == all_sendable(sigs@, *defs, items.deep_view(), depth as nat),
    decreases depth, items, 3nat,
{
    let ghost ts = items.deep_view();
    let mut k: usize = 0;
    while k < items.len()
        invariant
            k <= items.len(),
            ts == items.deep_view(),
            forall|i: int| #![trigger ts[i]] 0 <= i < k ==> sendable(sigs@, *defs, ts[i], depth as nat),
        decreases items.len() - k,
    {
        if !send_inner(&items[k], defs, sigs, depth) {
            assert(!sendable(sigs@, *defs, ts[k as int], depth as nat));
            return false;
        }
        k += 1;
    }
    true
}

fn all_sync(items: &Vec<Type>, defs: &Definitions, sigs: &Signatures, depth: usize) -> (r: bool)
    ensures
        r == all_shareable(sigs@, *defs, items.deep_view(), depth as nat),
    decreases depth, items, 3nat,
{
    let ghost ts = items.deep_view();
    let mut k: usize = 0;
    while k < items.len()
        invariant
            k <= items.len(),
            ts == items.deep_view(),
            forall|i: int| #![trigger ts[i]] 0 <= i < k ==> shareable(sigs@, *defs, ts[i], depth as nat),
        decreases items.len() - k,
    {
        if !sync_inner(&items[k], defs, sigs, depth) {
            assert(!shareable(sigs@, *defs, ts[k as int], depth as nat));
            return false;
        }
        k += 1;
    }
    true
}

fn list_crosses(items: &Vec<Type>, defs: &Definitions, sigs: &Signatures, depth: usize) -> (r: bool)
    ensures
        r == all_cross(sigs@, *defs, items.deep_view(), depth as nat),
    decreases depth, items, 3nat,
{
    let ghost ts = items.deep_view();
    let mut k: usize = 0;
    while k < items.len()
        invariant
            k <= items.len(),
            ts == items.deep_view(),
            forall|i: int|
                #![trigger ts[i]]
                0 <= i < k ==> sendable(sigs@, *defs, ts[i], depth as nat) && shareable(sigs@, *defs, ts[i], depth as nat),
        decreases items.len() - k,
    {
        if !(sync_inner(&items[k], defs, sigs, depth) && send_inner(&items[k], defs, sigs, depth)) {
            assert(!(sendable(sigs@, *defs, ts[k as int], depth as nat) && shareable(
                sigs@,
                *defs,
                ts[k as int],
                depth as nat,
            )));
            return false;
        }
        k += 1;
    }
    true
}

fn fields_send(ty: &Type, defs: &Definitions, sigs: &Signatures, depth: usize) -> (r: bool)
    ensures
        r == fields_cross(sigs@, *defs, ty@, depth as nat),
    decreases depth, ty, 1nat,
{
    if depth == 0 {
        return false;
    }
    match sigs.type_fields(ty) {
        Some(fields) => list_crosses(&fields, defs, sigs, depth - 1),
        None => false,
    }
}

fn variants_send(ty: &Type, defs: &Definitions, sigs: &Signatures, depth: usize) -> (r: bool)
    ensures
        r == variants_cross(sigs@, *defs, ty@, depth as nat),
    decreases depth, ty, 1nat,
{
    if depth == 0 {
        return false;
    }
    let known = match ty {
        Type::Enum(id, _) => sigs.enum_sigs.contains(id),
        _ => false,
    };
    if !known {
        return false;
    }
    let n: usize = sigs.variants_in(ty);
    let mut v: usize = 0;
    while v < n
        invariant
            v <= n,
            depth > 0,
            n == variant_count(sigs@, ty@),
            forall|w: int|
                #![trigger payload_of(sigs@, ty@, w)]
                0 <= w < v ==> (match payload_of(sigs@, ty@, w) {
                    Some(fields) => all_cross(sigs@, *defs, fields, (depth - 1) as nat),
                    None => true,
                }),
        decreases n - v,
    {
        let fine = match sigs.payload_at(ty, v) {
            Some(fields) => list_crosses(&fields, defs, sigs, depth - 1),
            None => true,
        };
        if !fine {
            return false;
        }
        v += 1;
    }
    true
}

/// A nominal type is `Sync` only where that is promised for it, whatever its
/// fields are.
pub proof fn law_sync_of_nominal_types_is_promised(s: Sigs, defs: Definitions, t: Ty, depth: nat)
    requires
        t is Struct || t is TupleStruct || t is Enum || t is Array,
    ensures
        shareable(s, defs, t, depth) == marked(s, defs, t, "Sync"@),
{
}

/// References, raw pointers, closures, existential packages and tasks never
/// cross threads.
pub proof fn law_borrows_never_cross(s: Sigs, defs: Definitions, t: Ty, depth: nat)
    requires
        t is Ref || t is MutRef || t is RawConstPtr || t is RawMutPtr || t is Function || t is Any || t is Opaque
            || t is Task,
    ensures
        !sendable(s, defs, t, depth),
        !shareable(s, defs, t, depth),
{
}

/// A promise of `Send` on a nominal type is decisive.
pub proof fn law_promised_send_holds(s: Sigs, defs: Definitions, t: Ty, depth: nat)
    requires
        t is Struct || t is TupleStruct || t is Enum || t is Array,
        marked(s, defs, t, "Send"@),
    ensures
        sendable(s, defs, t, depth),
        sendable(s, defs, Ty::Unique(Box::new(t)), depth),
{
    reveal_with_fuel(sendable, 2);
}

/// Tuples and fixed arrays have no identity of their own: they cross threads
/// exactly as their items do.
pub proof fn law_composites_cross_as_their_items(s: Sigs, defs: Definitions, items: Seq<Ty>, element: Ty, n: Ty, depth: nat)
    ensures
        sendable(s, defs, Ty::Tuple(items), depth) <==> (forall|i: int|
            #![trigger items[i]]
            0 <= i < items.len() ==> sendable(s, defs, items[i], depth)),
        shareable(s, defs, Ty::Tuple(items), depth) <==> (forall|i: int|
            #![trigger items[i]]
            0 <= i < items.len() ==> shareable(s, defs, items[i], depth)),
        sendable(s, defs, Ty::FixedArray(Box::new(element), Box::new(n)), depth) <==> sendable(
            s,
            defs,
            element,
            depth,
        ),
        shareable(s, defs, Ty::FixedArray(Box::new(element), Box::new(n)), depth) <==> shareable(
            s,
            defs,
            element,
            depth,
        ),
{
    reveal_with_fuel(sendable, 2);
    reveal_with_fuel(shareable, 2);
}

/// Moving a weak reference, or an array that makes no promise, shares what it
/// refers to: both conditions are needed.
pub proof fn law_shared_handles_need_both(s: Sigs, defs: Definitions, t: Ty, depth: nat)
    ensures
        sendable(s, defs, Ty::Weak(Box::new(t)), depth) <==> sendable(s, defs, t, depth) && shareable(
            s,
            defs,
            t,
            depth,
        ),
        !marked(s, defs, Ty::Array(Box::new(t)), "Send"@) ==> (sendable(s, defs, Ty::Array(Box::new(t)), depth)
            <==> sendable(s, defs, t, depth) && shareable(s, defs, t, depth)),
{
    reveal_with_fuel(sendable, 2);
}

} // verus!
