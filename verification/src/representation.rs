//! How values of a type are represented.
use crate::ids::DefId;
use crate::names::Definitions;
use crate::ty::{Ty, Type};
use vstd::prelude::*;

verus! {

/// A type's representation category.
#[derive(Debug, Clone, Copy, PartialEq, Eq, Structural)]
pub enum AllocKind {
    /// Counted and shared.
    Heap,
    /// Inline.
    Stack,
}

/// Whether a character is an upper-case letter, in the sense of the Unicode
/// property `Uppercase`.
pub uninterp spec fn char_is_uppercase(c: char) -> bool;

/// Calls `char::is_uppercase`. The contract claims only that the answer is a
/// fixed property of the character.
#[verifier::external_body]
fn upper(c: char) -> (r: bool)
    ensures
        r == char_is_uppercase(c),
{
    c.is_uppercase()
}

/// Whether a name starts with an upper-case letter.
pub open spec fn pascal_case(name: Seq<char>) -> bool {
    name.len() > 0 && char_is_uppercase(name[0])
}

/// Whether `name` starts with an upper-case letter.
pub fn is_pascal_case(name: &str) -> (r: bool)
    ensures
        r == pascal_case(name@),
{
    starts_upper(first_char(name))
}

/// The first character of `name`.
pub fn first_char(name: &str) -> (r: Option<char>)
    ensures
        r == (if name@.len() > 0 { Some(name@[0]) } else { None }),
{
    if name.unicode_len() > 0 {
        Some(name.get_char(0))
    } else {
        None
    }
}

/// Whether there is a first character and it is upper-case.
pub fn starts_upper(first: Option<char>) -> (r: bool)
    ensures
        r == (first is Some && char_is_uppercase(first->0)),
{
    match first {
        Some(c) => upper(c),
        None => false,
    }
}

/// The representation category of a type: named aggregates by the casing of
/// their name, enums and tuples always inline, owned types as what they own.
pub open spec fn kind_of_alloc(t: Ty, defs: Definitions) -> AllocKind
    decreases t,
{
    match t {
        Ty::String => AllocKind::Heap,
        Ty::Array(_) => AllocKind::Heap,
        Ty::Any(_, _) => AllocKind::Heap,
        Ty::Opaque(_, _) => AllocKind::Heap,
        Ty::Task(_) => AllocKind::Heap,
        Ty::Thread(_) => AllocKind::Heap,
        Ty::Function(_, _) => AllocKind::Heap,
        Ty::Struct(id, _) => kind_of_named(id, defs),
        Ty::TupleStruct(id, _) => kind_of_named(id, defs),
        Ty::Unique(inner) => kind_of_alloc(*inner, defs),
        _ => AllocKind::Stack,
    }
}

/// The representation category of a named aggregate.
pub open spec fn kind_of_named(id: DefId, defs: Definitions) -> AllocKind {
    if pascal_case(defs.name_of(id)) {
        AllocKind::Heap
    } else {
        AllocKind::Stack
    }
}

/// The representation category of `ty`.
pub fn alloc_kind(ty: &Type, defs: &Definitions) -> (r: AllocKind)
    ensures
        r == kind_of_alloc(ty@, *defs),
    decreases ty,
{
    match ty {
        Type::String | Type::Array(_) | Type::Any(_, _) | Type::Opaque(_, _) | Type::Task(_)
        | Type::Thread(_) | Type::Function(_, _) => AllocKind::Heap,
        Type::Struct(id, _) | Type::TupleStruct(id, _) => {
            if is_pascal_case(defs.name(*id)) {
                AllocKind::Heap
            } else {
                AllocKind::Stack
            }
        },
        Type::Unique(inner) => alloc_kind(inner, defs),
        _ => AllocKind::Stack,
    }
}

/// Whether values of `ty` are counted and shared.
pub fn is_heap(ty: &Type, defs: &Definitions) -> (r: bool)
    ensures
        r == (kind_of_alloc(ty@, *defs) is Heap),
{
    matches!(alloc_kind(ty, defs), AllocKind::Heap)
}

/// Owning a value uniquely does not change its representation category.
pub proof fn law_unique_keeps_representation(t: Ty, defs: Definitions)
    ensures
        kind_of_alloc(Ty::Unique(Box::new(t)), defs) == kind_of_alloc(t, defs),
{
}

/// Enums and tuples are inline whatever they are named and hold.
pub proof fn law_enums_and_tuples_are_inline(id: DefId, args: Seq<Ty>, defs: Definitions)
    ensures
        kind_of_alloc(Ty::Enum(id, args), defs) is Stack,
        kind_of_alloc(Ty::Tuple(args), defs) is Stack,
{
}

/// Whether a struct is shared depends on its name alone, not on its form or
/// its arguments.
pub proof fn law_structs_go_by_their_names(id: DefId, a: Seq<Ty>, b: Seq<Ty>, defs: Definitions)
    ensures
        kind_of_alloc(Ty::Struct(id, a), defs) == kind_of_alloc(Ty::TupleStruct(id, b), defs),
        kind_of_alloc(Ty::Struct(id, a), defs) is Heap <==> pascal_case(defs.name_of(id)),
{
}

/// References are inline whatever they refer to.
pub proof fn law_references_are_inline(t: Ty, defs: Definitions)
    ensures
        kind_of_alloc(Ty::Ref(Box::new(t)), defs) is Stack,
        kind_of_alloc(Ty::MutRef(Box::new(t)), defs) is Stack,
        kind_of_alloc(Ty::Weak(Box::new(t)), defs) is Stack,
{
}

} // verus!
