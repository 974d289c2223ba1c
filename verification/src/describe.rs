//! The printed form of types.
use crate::ids::DefId;
use crate::names::Definitions;
use crate::sig::{Bound, GenericBound};
use crate::text::{cat2, cat3, cat4, cat5, decimal, join, join_all, number};
use crate::ty::{group_tys, prim_name, tys, Ty, Type};
use vstd::prelude::*;

verus! {

broadcast use group_tys;

/// A name with its type arguments, if it has any.
pub open spec fn with_args(name: Seq<char>, args: Seq<Seq<char>>) -> Seq<char> {
    if args.len() == 0 {
        name
    } else {
        name + "<"@ + join(args, ", "@) + ">"@
    }
}

/// How a type is printed.
pub open spec fn shown(t: Ty, defs: Definitions) -> Seq<char>
    decreases t,
{
    match t {
        Ty::Const(n) => decimal(n as nat),
        Ty::Primitive(p) => prim_name(p),
        Ty::Struct(id, args) => with_args(defs.name_of(id), shown_all(args, defs)),
        Ty::TupleStruct(id, args) => with_args(defs.name_of(id), shown_all(args, defs)),
        Ty::Enum(id, args) => with_args(defs.name_of(id), shown_all(args, defs)),
        Ty::Tuple(args) => "("@ + join(shown_all(args, defs), ", "@) + ")"@,
        Ty::Array(a) => "["@ + shown(*a, defs) + "]"@,
        Ty::FixedArray(a, n) => "{"@ + shown(*a, defs) + ", "@ + shown(*n, defs) + "}"@,
        Ty::String => "String"@,
        Ty::Function(ps, r) => "("@ + join(shown_all(ps, defs), ", "@) + ") => "@ + shown(*r, defs),
        Ty::Trait(id) => defs.name_of(id),
        Ty::Any(id, args) => "any "@ + with_args(defs.name_of(id), shown_all(args, defs)),
        Ty::Opaque(id, args) => "some "@ + with_args(defs.name_of(id), shown_all(args, defs)),
        Ty::Task(a) => "Task<"@ + shown(*a, defs) + ">"@,
        Ty::Thread(a) => "Thread<"@ + shown(*a, defs) + ">"@,
        Ty::Generic(name) => name,
        Ty::Associated(a, name) => shown(*a, defs) + "."@ + name,
        Ty::Weak(a) => "weak "@ + shown(*a, defs),
        Ty::Unique(a) => ":"@ + shown(*a, defs),
        Ty::Ref(a) => ":&"@ + shown(*a, defs),
        Ty::MutRef(a) => ":&mut "@ + shown(*a, defs),
        Ty::RawConstPtr(a) => "*const "@ + shown(*a, defs),
        Ty::RawMutPtr(a) => "*mut "@ + shown(*a, defs),
        Ty::Never => "!"@,
        Ty::Error => "<error>"@,
    }
}

/// How each of the types is printed.
pub open spec fn shown_all(ts: Seq<Ty>, defs: Definitions) -> Seq<Seq<char>>
    decreases ts,
{
    Seq::new(ts.len(), |i: int| if 0 <= i < ts.len() { shown(ts[i], defs) } else { Seq::empty() })
}

/// How a bound is printed.
pub open spec fn shown_bound(b: Bound, defs: Definitions) -> Seq<char> {
    with_args(defs.name_of(b.trait_id), shown_all(b.args, defs))
}

fn show_with_args(id: DefId, args: &Vec<Type>, defs: &Definitions) -> (r: String)
    ensures
        r@ == with_args(defs.name_of(id), shown_all(tys(args@), *defs)),
    decreases args, 1nat,
{
    let shown_args = describe_all(args, defs);
    if args.len() == 0 {
        defs.name(id).to_owned()
    } else {
        let joined: String = join_all(&shown_args, ", ");
        cat4(defs.name(id), "<", joined.as_str(), ">")
    }
}

fn describe_all(v: &Vec<Type>, defs: &Definitions) -> (r: Vec<String>)
    ensures
        r.len() == v.len(),
        r.deep_view() == shown_all(tys(v@), *defs),
    decreases v, 0nat,
{
    let mut out: Vec<String> = Vec::new();
    let mut k: usize = 0;
    while k < v.len()
        invariant
            k <= v.len(),
            out.len() == k,
            forall|i: int| 0 <= i < k ==> (#[trigger] out@[i])@ == shown(tys(v@)[i], *defs),
        decreases v.len() - k,
    {
        out.push(describe_type(&v[k], defs));
        k += 1;
    }
    proof {
        assert(out.deep_view() =~= shown_all(tys(v@), *defs));
    }
    out
}

/// The printed form of `ty`.
pub fn describe_type(ty: &Type, defs: &Definitions) -> (r: String)
    ensures
        r@ == shown(ty@, *defs),
    decreases ty, 2nat,
{
    match ty {
        Type::Const(n) => number(*n),
        Type::Primitive(p) => p.name().to_owned(),
        Type::Struct(id, args) | Type::TupleStruct(id, args) | Type::Enum(id, args) => show_with_args(*id, args, defs),
        Type::Tuple(args) => {
            let parts = describe_all(args, defs);
            cat3("(", join_all(&parts, ", ").as_str(), ")")
        },
        Type::Array(a) => cat3("[", describe_type(a, defs).as_str(), "]"),
        Type::FixedArray(a, n) => {
            let element: String = describe_type(a, defs);
            let length: String = describe_type(n, defs);
            cat5("{", element.as_str(), ", ", length.as_str(), "}")
        },
        Type::String => "String".to_owned(),
        Type::Function(ps, r) => {
            let parts = describe_all(ps, defs);
            let params: String = join_all(&parts, ", ");
            let ret: String = describe_type(r, defs);
            cat4("(", params.as_str(), ") => ", ret.as_str())
        },
        Type::Trait(id) => defs.name(*id).to_owned(),
        Type::Any(id, args) => cat2("any ", show_with_args(*id, args, defs).as_str()),
        Type::Opaque(id, args) => cat2("some ", show_with_args(*id, args, defs).as_str()),
        Type::Task(a) => cat3("Task<", describe_type(a, defs).as_str(), ">"),
        Type::Thread(a) => cat3("Thread<", describe_type(a, defs).as_str(), ">"),
        Type::Generic(name) => name.clone(),
        Type::Associated(a, name) => cat3(describe_type(a, defs).as_str(), ".", name.as_str()),
        Type::Weak(a) => cat2("weak ", describe_type(a, defs).as_str()),
        Type::Unique(a) => cat2(":", describe_type(a, defs).as_str()),
        Type::Ref(a) => cat2(":&", describe_type(a, defs).as_str()),
        Type::MutRef(a) => cat2(":&mut ", describe_type(a, defs).as_str()),
        Type::RawConstPtr(a) => cat2("*const ", describe_type(a, defs).as_str()),
        Type::RawMutPtr(a) => cat2("*mut ", describe_type(a, defs).as_str()),
        Type::Never => "!".to_owned(),
        Type::Error => "<error>".to_owned(),
    }
}

/// The printed form of a bound.
pub fn describe_bound(bound: &GenericBound, defs: &Definitions) -> (r: String)
    ensures
        r@ == shown_bound(bound.deep_view(), *defs),
{
    show_with_args(bound.trait_id, &bound.args, defs)
}

} // verus!
