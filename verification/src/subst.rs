//! Substitution and matching of generic parameters.
use crate::datum::Datum;
use crate::ids::Symbol;
use crate::table::Table;
use crate::ty::{group_tys, has_error, has_generic, lemma_tys, some_error, some_generic, tys, ty_view, Ty, Type};
use vstd::prelude::*;

verus! {

broadcast use group_tys;

/// A choice of types for generic parameters.
pub type Subst = Map<Seq<char>, Ty>;

/// `t` with the generic parameters of `m` replaced.
pub open spec fn subst(t: Ty, m: Subst) -> Ty
    decreases t,
{
    match t {
        Ty::Generic(name) => if m.contains_key(name) { m[name] } else { t },
        Ty::Struct(id, args) => Ty::Struct(id, substs(args, m)),
        Ty::TupleStruct(id, args) => Ty::TupleStruct(id, substs(args, m)),
        Ty::Tuple(args) => Ty::Tuple(substs(args, m)),
        Ty::Enum(id, args) => Ty::Enum(id, substs(args, m)),
        Ty::Any(id, args) => Ty::Any(id, substs(args, m)),
        Ty::Opaque(id, args) => Ty::Opaque(id, substs(args, m)),
        Ty::Array(a) => Ty::Array(Box::new(subst(*a, m))),
        Ty::FixedArray(a, n) => Ty::FixedArray(Box::new(subst(*a, m)), Box::new(subst(*n, m))),
        Ty::Function(ps, r) => Ty::Function(substs(ps, m), Box::new(subst(*r, m))),
        Ty::Task(a) => Ty::Task(Box::new(subst(*a, m))),
        Ty::Thread(a) => Ty::Thread(Box::new(subst(*a, m))),
        Ty::Associated(a, n) => Ty::Associated(Box::new(subst(*a, m)), n),
        Ty::Weak(a) => Ty::Weak(Box::new(subst(*a, m))),
        Ty::Unique(a) => Ty::Unique(Box::new(subst(*a, m))),
        Ty::Ref(a) => Ty::Ref(Box::new(subst(*a, m))),
        Ty::MutRef(a) => Ty::MutRef(Box::new(subst(*a, m))),
        Ty::RawConstPtr(a) => Ty::RawConstPtr(Box::new(subst(*a, m))),
        Ty::RawMutPtr(a) => Ty::RawMutPtr(Box::new(subst(*a, m))),
        _ => t,
    }
}

/// The types with the generic parameters of `m` replaced.
pub open spec fn substs(s: Seq<Ty>, m: Subst) -> Seq<Ty>
    decreases s,
{
    Seq::new(s.len(), |i: int| if 0 <= i < s.len() { subst(s[i], m) } else { Ty::Error })
}

/// The first `n` names bound to the first `n` types; a later binding of a
/// name replaces an earlier one.
pub open spec fn zip_first(names: Seq<Seq<char>>, args: Seq<Ty>, n: nat) -> Subst
    decreases n,
{
    if n == 0 {
        Map::empty()
    } else {
        zip_first(names, args, (n - 1) as nat).insert(names[n - 1], args[n - 1])
    }
}

/// The shorter of two lengths.
pub open spec fn min_len<A, B>(a: Seq<A>, b: Seq<B>) -> nat {
    if a.len() <= b.len() {
        a.len()
    } else {
        b.len()
    }
}

/// The names bound to the types pairwise, as far as both lists go.
pub open spec fn zip_subst(names: Seq<Seq<char>>, args: Seq<Ty>) -> Subst {
    zip_first(names, args, min_len(names, args))
}

/// `m` extended so that `declared` matches `actual`: a parameter takes the
/// type that stands at its place unless it already has a complete one.
pub open spec fn infer(declared: Ty, actual: Ty, m: Subst) -> Subst
    decreases declared,
{
    match declared {
        Ty::Generic(name) => if !has_error(actual) && !has_generic(actual) && (!m.contains_key(name)
            || has_error(m[name]) || has_generic(m[name])) {
            m.insert(name, actual)
        } else {
            m
        },
        Ty::Array(a) => match actual {
            Ty::Array(b) => infer(*a, *b, m),
            _ => m,
        },
        Ty::Weak(a) => match actual {
            Ty::Weak(b) => infer(*a, *b, m),
            _ => m,
        },
        Ty::Unique(a) => match actual {
            Ty::Unique(b) => infer(*a, *b, m),
            _ => m,
        },
        Ty::Ref(a) => match actual {
            Ty::Ref(b) => infer(*a, *b, m),
            _ => m,
        },
        Ty::MutRef(a) => match actual {
            Ty::MutRef(b) => infer(*a, *b, m),
            _ => m,
        },
        Ty::FixedArray(a, n) => match actual {
            Ty::FixedArray(b, k) => infer(*n, *k, infer(*a, *b, m)),
            _ => m,
        },
        Ty::Tuple(a) => match actual {
            Ty::Tuple(b) => infer_all(a, b, m, 0),
            _ => m,
        },
        Ty::Enum(_, a) => match actual {
            Ty::Enum(_, b) => infer_all(a, b, m, 0),
            _ => m,
        },
        Ty::Struct(_, a) => match actual {
            Ty::Struct(_, b) => infer_all(a, b, m, 0),
            _ => m,
        },
        Ty::TupleStruct(_, a) => match actual {
            Ty::TupleStruct(_, b) => infer_all(a, b, m, 0),
            _ => m,
        },
        Ty::Function(a, r) => match actual {
            Ty::Function(b, s) => infer(*r, *s, infer_all(a, b, m, 0)),
            _ => m,
        },
        _ => m,
    }
}

/// `m` extended pairwise from the `i`-th types on.
pub open spec fn infer_all(declared: Seq<Ty>, actual: Seq<Ty>, m: Subst, i: int) -> Subst
    decreases declared, declared.len() - i,
{
    if 0 <= i < declared.len() && i < actual.len() {
        infer_all(declared, actual, infer(declared[i], actual[i], m), i + 1)
    } else {
        m
    }
}

/// `m` extended so that `pattern` becomes exactly `concrete`, if it can be.
pub open spec fn unify(pattern: Ty, concrete: Ty, m: Subst) -> Option<Subst>
    decreases pattern,
{
    match pattern {
        Ty::Generic(name) => if !m.contains_key(name) {
            Some(m.insert(name, concrete))
        } else if m[name] == concrete {
            Some(m)
        } else {
            None
        },
        Ty::Struct(i, a) => match concrete {
            Ty::Struct(j, b) => if i == j && a.len() == b.len() { unify_all(a, b, m, 0) } else { None },
            _ => None,
        },
        Ty::TupleStruct(i, a) => match concrete {
            Ty::TupleStruct(j, b) => if i == j && a.len() == b.len() { unify_all(a, b, m, 0) } else { None },
            _ => None,
        },
        Ty::Enum(i, a) => match concrete {
            Ty::Enum(j, b) => if i == j && a.len() == b.len() { unify_all(a, b, m, 0) } else { None },
            _ => None,
        },
        Ty::Tuple(a) => match concrete {
            Ty::Tuple(b) => if a.len() == b.len() { unify_all(a, b, m, 0) } else { None },
            _ => None,
        },
        Ty::Array(a) => match concrete {
            Ty::Array(b) => unify(*a, *b, m),
            _ => None,
        },
        Ty::Weak(a) => match concrete {
            Ty::Weak(b) => unify(*a, *b, m),
            _ => None,
        },
        Ty::FixedArray(a, n) => match concrete {
            Ty::FixedArray(b, k) => match unify(*a, *b, m) {
                Some(m1) => unify(*n, *k, m1),
                None => None,
            },
            _ => None,
        },
        Ty::Function(a, r) => match concrete {
            Ty::Function(b, s) => if a.len() == b.len() {
                match unify_all(a, b, m, 0) {
                    Some(m1) => unify(*r, *s, m1),
                    None => None,
                }
            } else {
                None
            },
            _ => None,
        },
        _ => if pattern == concrete { Some(m) } else { None },
    }
}

/// `m` extended pairwise from the `i`-th types on, if it can be.
pub open spec fn unify_all(pattern: Seq<Ty>, concrete: Seq<Ty>, m: Subst, i: int) -> Option<Subst>
    decreases pattern, pattern.len() - i,
{
    if 0 <= i < pattern.len() && i < concrete.len() {
        match unify(pattern[i], concrete[i], m) {
            Some(m1) => unify_all(pattern, concrete, m1, i + 1),
            None => None,
        }
    } else {
        Some(m)
    }
}

/// `actual` with its unknown components taken from `expected` where the two
/// have the same shape and the expectation is complete.
pub open spec fn in_context(actual: Ty, expected: Ty) -> Ty
    decreases actual,
{
    match actual {
        Ty::Error => if !has_error(expected) && !has_generic(expected) { expected } else { actual },
        Ty::Tuple(a) => match expected {
            Ty::Tuple(b) => if a.len() == b.len() { Ty::Tuple(all_in_context(a, b)) } else { actual },
            _ => actual,
        },
        Ty::Enum(i, a) => match expected {
            Ty::Enum(j, b) => if i == j && a.len() == b.len() { Ty::Enum(i, all_in_context(a, b)) } else { actual },
            _ => actual,
        },
        Ty::Struct(i, a) => match expected {
            Ty::Struct(j, b) => if i == j && a.len() == b.len() { Ty::Struct(i, all_in_context(a, b)) } else { actual },
            _ => actual,
        },
        Ty::TupleStruct(i, a) => match expected {
            Ty::TupleStruct(j, b) => if i == j && a.len() == b.len() {
                Ty::TupleStruct(i, all_in_context(a, b))
            } else {
                actual
            },
            _ => actual,
        },
        Ty::Array(a) => match expected {
            Ty::Array(b) => Ty::Array(Box::new(in_context(*a, *b))),
            _ => actual,
        },
        Ty::Weak(a) => match expected {
            Ty::Weak(b) => Ty::Weak(Box::new(in_context(*a, *b))),
            _ => actual,
        },
        Ty::Function(a, r) => match expected {
            Ty::Function(b, s) => if a.len() == b.len() {
                Ty::Function(all_in_context(a, b), Box::new(in_context(*r, *s)))
            } else {
                actual
            },
            _ => actual,
        },
        _ => actual,
    }
}

/// The types with their unknown components taken pairwise from `expected`.
pub open spec fn all_in_context(actual: Seq<Ty>, expected: Seq<Ty>) -> Seq<Ty>
    decreases actual,
{
    Seq::new(
        actual.len(),
        |i: int| if 0 <= i < actual.len() { in_context(actual[i], expected[i]) } else { Ty::Error },
    )
}

/// `first`, unless only `second` is complete.
pub open spec fn more_concrete(first: Ty, second: Ty) -> Ty {
    if has_error(first) && !has_error(second) {
        second
    } else {
        first
    }
}

/// Replaces the generic parameters of `m` in `ty`.
pub fn substitute_generic(ty: &Type, m: &Table<Symbol, Type>) -> (r: Type)
    ensures
        r@ == subst(ty@, m@),
    decreases ty,
{
    match ty {
        Type::Generic(name) => match m.get(name) {
            Some(t) => t.clone(),
            None => ty.clone(),
        },
        Type::Struct(id, args) => Type::Struct(*id, substitute_all(args, m)),
        Type::TupleStruct(id, args) => Type::TupleStruct(*id, substitute_all(args, m)),
        Type::Tuple(args) => Type::Tuple(substitute_all(args, m)),
        Type::Enum(id, args) => Type::Enum(*id, substitute_all(args, m)),
        Type::Any(id, args) => Type::Any(*id, substitute_all(args, m)),
        Type::Opaque(id, args) => Type::Opaque(*id, substitute_all(args, m)),
        Type::Array(a) => Type::Array(Box::new(substitute_generic(a, m))),
        Type::FixedArray(a, n) => Type::FixedArray(
            Box::new(substitute_generic(a, m)),
            Box::new(substitute_generic(n, m)),
        ),
        Type::Function(ps, r) => Type::Function(substitute_all(ps, m), Box::new(substitute_generic(r, m))),
        Type::Task(a) => Type::Task(Box::new(substitute_generic(a, m))),
        Type::Thread(a) => Type::Thread(Box::new(substitute_generic(a, m))),
        Type::Associated(a, n) => Type::Associated(Box::new(substitute_generic(a, m)), n.clone()),
        Type::Weak(a) => Type::Weak(Box::new(substitute_generic(a, m))),
        Type::Unique(a) => Type::Unique(Box::new(substitute_generic(a, m))),
        Type::Ref(a) => Type::Ref(Box::new(substitute_generic(a, m))),
        Type::MutRef(a) => Type::MutRef(Box::new(substitute_generic(a, m))),
        Type::RawConstPtr(a) => Type::RawConstPtr(Box::new(substitute_generic(a, m))),
        Type::RawMutPtr(a) => Type::RawMutPtr(Box::new(substitute_generic(a, m))),
        other => other.clone(),
    }
}

/// Replaces the generic parameters of `m` in each type.
pub fn substitute_all(v: &Vec<Type>, m: &Table<Symbol, Type>) -> (r: Vec<Type>)
    ensures
        tys(r@) == substs(tys(v@), m@),
        r.deep_view() == substs(v.deep_view(), m@),
    decreases v,
{
    let mut out: Vec<Type> = Vec::new();
    let mut k: usize = 0;
    while k < v.len()
        invariant
            k <= v.len(),
            out.len() == k,
            forall|i: int| 0 <= i < k ==> ty_view(#[trigger] out@[i]) == subst(ty_view(v@[i]), m@),
        decreases v.len() - k,
    {
        out.push(substitute_generic(&v[k], m));
        k += 1;
    }
    proof {
        assert(tys(out@) =~= substs(tys(v@), m@));
        lemma_tys(out);
        lemma_tys(*v);
    }
    out
}

/// Binds the names to the types pairwise.
pub fn zip_types(names: &Vec<Symbol>, args: &Vec<Type>) -> (r: Table<Symbol, Type>)
    ensures
        r@ == zip_subst(names.deep_view(), args.deep_view()),
{
    let mut m: Table<Symbol, Type> = Table::new();
    let n: usize = if names.len() <= args.len() { names.len() } else { args.len() };
    let mut k: usize = 0;
    while k < n
        invariant
            k <= n,
            n <= names.len(),
            n <= args.len(),
            m@ == zip_first(names.deep_view(), args.deep_view(), k as nat),
        decreases n - k,
    {
        m.insert(names[k].clone(), args[k].clone());
        k += 1;
    }
    m
}

/// Extends `m` so that `declared` matches `actual`.
pub fn collect_generic_bindings(declared: &Type, actual: &Type, m: &mut Table<Symbol, Type>)
    ensures
        final(m)@ == infer(declared@, actual@, old(m)@),
    decreases declared,
{
    match (declared, actual) {
        (Type::Generic(name), _) => {
            if !actual.contains_error() && !actual.contains_generic() {
                let open = match m.get(name) {
                    Some(t) => t.contains_error() || t.contains_generic(),
                    None => true,
                };
                if open {
                    m.insert(name.clone(), actual.clone());
                }
            }
        },
        (Type::Array(a), Type::Array(b)) => collect_generic_bindings(a, b, m),
        (Type::Weak(a), Type::Weak(b)) => collect_generic_bindings(a, b, m),
        (Type::Unique(a), Type::Unique(b)) => collect_generic_bindings(a, b, m),
        (Type::Ref(a), Type::Ref(b)) => collect_generic_bindings(a, b, m),
        (Type::MutRef(a), Type::MutRef(b)) => collect_generic_bindings(a, b, m),
        (Type::FixedArray(a, n), Type::FixedArray(b, k)) => {
            collect_generic_bindings(a, b, m);
            collect_generic_bindings(n, k, m);
        },
        (Type::Tuple(a), Type::Tuple(b)) => collect_all_bindings(a, b, m),
        (Type::Enum(_, a), Type::Enum(_, b)) => collect_all_bindings(a, b, m),
        (Type::Struct(_, a), Type::Struct(_, b)) => collect_all_bindings(a, b, m),
        (Type::TupleStruct(_, a), Type::TupleStruct(_, b)) => collect_all_bindings(a, b, m),
        (Type::Function(a, r), Type::Function(b, s)) => {
            collect_all_bindings(a, b, m);
            collect_generic_bindings(r, s, m);
        },
        _ => {},
    }
}

/// Extends `m` pairwise.
pub fn collect_all_bindings(declared: &Vec<Type>, actual: &Vec<Type>, m: &mut Table<Symbol, Type>)
    ensures
        final(m)@ == infer_all(tys(declared@), tys(actual@), old(m)@, 0),
    decreases declared,
{
    let mut k: usize = 0;
    while k < declared.len() && k < actual.len()
        invariant
            k <= declared.len(),
            k <= actual.len(),
            infer_all(tys(declared@), tys(actual@), old(m)@, 0) == infer_all(
                tys(declared@),
                tys(actual@),
                m@,
                k as int,
            ),
        decreases declared.len() - k,
    {
        collect_generic_bindings(&declared[k], &actual[k], m);
        k += 1;
    }
}

/// Extends `m` so that `pattern` becomes exactly `concrete`. The answer says
/// whether that is possible; if not, `m` is left with part of the bindings.
pub fn collect_pattern_bindings(pattern: &Type, concrete: &Type, m: &mut Table<Symbol, Type>) -> (r: bool)
    ensures
        r == (unify(pattern@, concrete@, old(m)@) is Some),
        r ==> unify(pattern@, concrete@, old(m)@) == Some(final(m)@),
    decreases pattern,
{
    match (pattern, concrete) {
        (Type::Generic(name), _) => {
            let known = match m.get(name) {
                Some(t) => Some(t.same(concrete)),
                None => None,
            };
            match known {
                Some(equal) => equal,
                None => {
                    m.insert(name.clone(), concrete.clone());
                    true
                },
            }
        },
        (Type::Struct(i, a), Type::Struct(j, b)) => *i == *j && a.len() == b.len() && collect_all_pattern_bindings(a, b, m),
        (Type::TupleStruct(i, a), Type::TupleStruct(j, b)) => *i == *j && a.len() == b.len()
            && collect_all_pattern_bindings(a, b, m),
        (Type::Enum(i, a), Type::Enum(j, b)) => *i == *j && a.len() == b.len() && collect_all_pattern_bindings(a, b, m),
        (Type::Tuple(a), Type::Tuple(b)) => a.len() == b.len() && collect_all_pattern_bindings(a, b, m),
        (Type::Array(a), Type::Array(b)) => collect_pattern_bindings(a, b, m),
        (Type::Weak(a), Type::Weak(b)) => collect_pattern_bindings(a, b, m),
        (Type::FixedArray(a, n), Type::FixedArray(b, k)) => collect_pattern_bindings(a, b, m)
            && collect_pattern_bindings(n, k, m),
        (Type::Function(a, r), Type::Function(b, s)) => a.len() == b.len() && collect_all_pattern_bindings(a, b, m)
            && collect_pattern_bindings(r, s, m),
        _ => pattern.same(concrete),
    }
}

fn collect_all_pattern_bindings(pattern: &Vec<Type>, concrete: &Vec<Type>, m: &mut Table<Symbol, Type>) -> (r: bool)
    ensures
        r == (unify_all(tys(pattern@), tys(concrete@), old(m)@, 0) is Some),
        r ==> unify_all(tys(pattern@), tys(concrete@), old(m)@, 0) == Some(final(m)@),
    decreases pattern,
{
    let mut k: usize = 0;
    while k < pattern.len() && k < concrete.len()
        invariant
            k <= pattern.len(),
            k <= concrete.len(),
            unify_all(tys(pattern@), tys(concrete@), old(m)@, 0) == unify_all(
                tys(pattern@),
                tys(concrete@),
                m@,
                k as int,
            ),
        decreases pattern.len() - k,
    {
        if !collect_pattern_bindings(&pattern[k], &concrete[k], m) {
            return false;
        }
        k += 1;
    }
    true
}

/// Takes the unknown components of `actual` from `expected`.
pub fn contextualize_unknowns(actual: &Type, expected: &Type) -> (r: Type)
    ensures
        r@ == in_context(actual@, expected@),
    decreases actual,
{
    match (actual, expected) {
        (Type::Error, _) => if !expected.contains_error() && !expected.contains_generic() {
            expected.clone()
        } else {
            Type::Error
        },
        (Type::Tuple(a), Type::Tuple(b)) => if a.len() == b.len() {
            Type::Tuple(contextualize_all(a, b))
        } else {
            actual.clone()
        },
        (Type::Enum(i, a), Type::Enum(j, b)) => if *i == *j && a.len() == b.len() {
            Type::Enum(*i, contextualize_all(a, b))
        } else {
            actual.clone()
        },
        (Type::Struct(i, a), Type::Struct(j, b)) => if *i == *j && a.len() == b.len() {
            Type::Struct(*i, contextualize_all(a, b))
        } else {
            actual.clone()
        },
        (Type::TupleStruct(i, a), Type::TupleStruct(j, b)) => if *i == *j && a.len() == b.len() {
            Type::TupleStruct(*i, contextualize_all(a, b))
        } else {
            actual.clone()
        },
        (Type::Array(a), Type::Array(b)) => Type::Array(Box::new(contextualize_unknowns(a, b))),
        (Type::Weak(a), Type::Weak(b)) => Type::Weak(Box::new(contextualize_unknowns(a, b))),
        (Type::Function(a, r), Type::Function(b, s)) => if a.len() == b.len() {
            Type::Function(contextualize_all(a, b), Box::new(contextualize_unknowns(r, s)))
        } else {
            actual.clone()
        },
        _ => actual.clone(),
    }
}

fn contextualize_all(actual: &Vec<Type>, expected: &Vec<Type>) -> (r: Vec<Type>)
    requires
        actual.len() == expected.len(),
    ensures
        tys(r@) == all_in_context(tys(actual@), tys(expected@)),
    decreases actual,
{
    let mut out: Vec<Type> = Vec::new();
    let mut k: usize = 0;
    while k < actual.len()
        invariant
            k <= actual.len(),
            actual.len() == expected.len(),
            out.len() == k,
            forall|i: int|
                0 <= i < k ==> ty_view(#[trigger] out@[i]) == in_context(ty_view(actual@[i]), ty_view(expected@[i])),
        decreases actual.len() - k,
    {
        out.push(contextualize_unknowns(&actual[k], &expected[k]));
        k += 1;
    }
    proof {
        assert(tys(out@) =~= all_in_context(tys(actual@), tys(expected@)));
    }
    out
}

/// `first`, unless only `second` is complete.
pub fn prefer_concrete_type(first: Type, second: Type) -> (r: Type)
    ensures
        r@ == more_concrete(first@, second@),
{
    if first.contains_error() && !second.contains_error() {
        second
    } else {
        first
    }
}

// ---------------------------------------------------------------------
// Laws
// ---------------------------------------------------------------------

/// A type without generic parameters is left alone by any substitution.
pub proof fn law_substitution_needs_parameters(t: Ty, m: Subst)
    requires
        !has_generic(t),
    ensures
        subst(t, m) == t,
    decreases t,
{
    match t {
        Ty::Struct(_, args) => lemma_substs_same(args, m),
        Ty::TupleStruct(_, args) => lemma_substs_same(args, m),
        Ty::Tuple(args) => lemma_substs_same(args, m),
        Ty::Enum(_, args) => lemma_substs_same(args, m),
        Ty::Any(_, args) => lemma_substs_same(args, m),
        Ty::Opaque(_, args) => lemma_substs_same(args, m),
        Ty::Array(a) => law_substitution_needs_parameters(*a, m),
        Ty::FixedArray(a, n) => {
            law_substitution_needs_parameters(*a, m);
            law_substitution_needs_parameters(*n, m);
        },
        Ty::Function(ps, r) => {
            lemma_substs_same(ps, m);
            law_substitution_needs_parameters(*r, m);
        },
        Ty::Task(a) => law_substitution_needs_parameters(*a, m),
        Ty::Thread(a) => law_substitution_needs_parameters(*a, m),
        Ty::Associated(a, _) => law_substitution_needs_parameters(*a, m),
        Ty::Weak(a) => law_substitution_needs_parameters(*a, m),
        Ty::Unique(a) => law_substitution_needs_parameters(*a, m),
        Ty::Ref(a) => law_substitution_needs_parameters(*a, m),
        Ty::MutRef(a) => law_substitution_needs_parameters(*a, m),
        Ty::RawConstPtr(a) => law_substitution_needs_parameters(*a, m),
        Ty::RawMutPtr(a) => law_substitution_needs_parameters(*a, m),
        _ => {},
    }
}

proof fn lemma_substs_same(s: Seq<Ty>, m: Subst)
    requires
        !some_generic(s),
    ensures
        substs(s, m) == s,
    decreases s,
{
    assert forall|i: int| 0 <= i < s.len() implies substs(s, m)[i] == s[i] by {
        assert(!has_generic(s[i]));
        law_substitution_needs_parameters(s[i], m);
    }
    assert(substs(s, m) =~= s);
}

/// The empty substitution leaves every type alone.
pub proof fn law_empty_substitution(t: Ty)
    ensures
        subst(t, Map::empty()) == t,
    decreases t,
{
    match t {
        Ty::Struct(_, args) => lemma_substs_empty(args),
        Ty::TupleStruct(_, args) => lemma_substs_empty(args),
        Ty::Tuple(args) => lemma_substs_empty(args),
        Ty::Enum(_, args) => lemma_substs_empty(args),
        Ty::Any(_, args) => lemma_substs_empty(args),
        Ty::Opaque(_, args) => lemma_substs_empty(args),
        Ty::Array(a) => law_empty_substitution(*a),
        Ty::FixedArray(a, n) => {
            law_empty_substitution(*a);
            law_empty_substitution(*n);
        },
        Ty::Function(ps, r) => {
            lemma_substs_empty(ps);
            law_empty_substitution(*r);
        },
        Ty::Task(a) => law_empty_substitution(*a),
        Ty::Thread(a) => law_empty_substitution(*a),
        Ty::Associated(a, _) => law_empty_substitution(*a),
        Ty::Weak(a) => law_empty_substitution(*a),
        Ty::Unique(a) => law_empty_substitution(*a),
        Ty::Ref(a) => law_empty_substitution(*a),
        Ty::MutRef(a) => law_empty_substitution(*a),
        Ty::RawConstPtr(a) => law_empty_substitution(*a),
        Ty::RawMutPtr(a) => law_empty_substitution(*a),
        _ => {},
    }
}

proof fn lemma_substs_empty(s: Seq<Ty>)
    ensures
        substs(s, Map::empty()) == s,
    decreases s,
{
    assert forall|i: int| 0 <= i < s.len() implies substs(s, Map::empty())[i] == s[i] by {
        law_empty_substitution(s[i]);
    }
    assert(substs(s, Map::empty()) =~= s);
}

/// Whether a substitution gives every parameter of a type a type without
/// parameters.
pub open spec fn closes(t: Ty, m: Subst) -> bool
    decreases t,
{
    match t {
        Ty::Generic(name) => m.contains_key(name) && !has_generic(m[name]),
        Ty::Struct(_, args) | Ty::TupleStruct(_, args) | Ty::Tuple(args) | Ty::Enum(_, args)
        | Ty::Any(_, args) | Ty::Opaque(_, args) => closes_all(args, m),
        Ty::FixedArray(a, n) => closes(*a, m) && closes(*n, m),
        Ty::Array(a) | Ty::Associated(a, _) | Ty::Weak(a) | Ty::Unique(a) | Ty::Ref(a) | Ty::MutRef(a)
        | Ty::RawConstPtr(a) | Ty::RawMutPtr(a) | Ty::Task(a) | Ty::Thread(a) => closes(*a, m),
        Ty::Function(ps, r) => closes_all(ps, m) && closes(*r, m),
        _ => true,
    }
}

/// The same of each type of a list.
pub open spec fn closes_all(s: Seq<Ty>, m: Subst) -> bool
    decreases s,
{
    forall|i: int| #![trigger s[i]] 0 <= i < s.len() ==> closes(s[i], m)
}

/// A substitution that gives every parameter of a type a type without
/// parameters leaves no parameter.
pub proof fn law_substitution_closes(t: Ty, m: Subst)
    requires
        closes(t, m),
    ensures
        !has_generic(subst(t, m)),
    decreases t,
{
    match t {
        Ty::Struct(_, args) => lemma_substs_close(args, m),
        Ty::TupleStruct(_, args) => lemma_substs_close(args, m),
        Ty::Tuple(args) => lemma_substs_close(args, m),
        Ty::Enum(_, args) => lemma_substs_close(args, m),
        Ty::Any(_, args) => lemma_substs_close(args, m),
        Ty::Opaque(_, args) => lemma_substs_close(args, m),
        Ty::Array(a) => law_substitution_closes(*a, m),
        Ty::FixedArray(a, n) => {
            law_substitution_closes(*a, m);
            law_substitution_closes(*n, m);
        },
        Ty::Function(ps, r) => {
            lemma_substs_close(ps, m);
            law_substitution_closes(*r, m);
        },
        Ty::Task(a) => law_substitution_closes(*a, m),
        Ty::Thread(a) => law_substitution_closes(*a, m),
        Ty::Associated(a, _) => law_substitution_closes(*a, m),
        Ty::Weak(a) => law_substitution_closes(*a, m),
        Ty::Unique(a) => law_substitution_closes(*a, m),
        Ty::Ref(a) => law_substitution_closes(*a, m),
        Ty::MutRef(a) => law_substitution_closes(*a, m),
        Ty::RawConstPtr(a) => law_substitution_closes(*a, m),
        Ty::RawMutPtr(a) => law_substitution_closes(*a, m),
        _ => {},
    }
}

proof fn lemma_substs_close(s: Seq<Ty>, m: Subst)
    requires
        closes_all(s, m),
    ensures
        !some_generic(substs(s, m)),
    decreases s,
{
    assert forall|i: int| 0 <= i < s.len() implies !has_generic(#[trigger] substs(s, m)[i]) by {
        assert(closes(s[i], m));
        law_substitution_closes(s[i], m);
    }
}

/// Inference keeps what it has: a parameter with a complete type keeps it.
pub proof fn law_inference_keeps_choices(declared: Ty, actual: Ty, m: Subst, name: Seq<char>)
    requires
        m.contains_key(name),
        !has_error(m[name]),
        !has_generic(m[name]),
    ensures
        infer(declared, actual, m).contains_key(name),
        infer(declared, actual, m)[name] == m[name],
    decreases declared,
{
    match declared {
        Ty::Array(a) => if let Ty::Array(b) = actual {
            law_inference_keeps_choices(*a, *b, m, name);
        },
        Ty::Weak(a) => if let Ty::Weak(b) = actual {
            law_inference_keeps_choices(*a, *b, m, name);
        },
        Ty::Unique(a) => if let Ty::Unique(b) = actual {
            law_inference_keeps_choices(*a, *b, m, name);
        },
        Ty::Ref(a) => if let Ty::Ref(b) = actual {
            law_inference_keeps_choices(*a, *b, m, name);
        },
        Ty::MutRef(a) => if let Ty::MutRef(b) = actual {
            law_inference_keeps_choices(*a, *b, m, name);
        },
        Ty::FixedArray(a, n) => if let Ty::FixedArray(b, k) = actual {
            law_inference_keeps_choices(*a, *b, m, name);
            law_inference_keeps_choices(*n, *k, infer(*a, *b, m), name);
        },
        Ty::Tuple(a) => if let Ty::Tuple(b) = actual {
            lemma_inference_keeps(a, b, m, 0, name);
        },
        Ty::Enum(_, a) => if let Ty::Enum(_, b) = actual {
            lemma_inference_keeps(a, b, m, 0, name);
        },
        Ty::Struct(_, a) => if let Ty::Struct(_, b) = actual {
            lemma_inference_keeps(a, b, m, 0, name);
        },
        Ty::TupleStruct(_, a) => if let Ty::TupleStruct(_, b) = actual {
            lemma_inference_keeps(a, b, m, 0, name);
        },
        Ty::Function(a, r) => if let Ty::Function(b, s) = actual {
            lemma_inference_keeps(a, b, m, 0, name);
            law_inference_keeps_choices(*r, *s, infer_all(a, b, m, 0), name);
        },
        _ => {},
    }
}

proof fn lemma_inference_keeps(declared: Seq<Ty>, actual: Seq<Ty>, m: Subst, i: int, name: Seq<char>)
    requires
        m.contains_key(name),
        !has_error(m[name]),
        !has_generic(m[name]),
    ensures
        infer_all(declared, actual, m, i).contains_key(name),
        infer_all(declared, actual, m, i)[name] == m[name],
    decreases declared, declared.len() - i,
{
    if 0 <= i < declared.len() && i < actual.len() {
        law_inference_keeps_choices(declared[i], actual[i], m, name);
        lemma_inference_keeps(declared, actual, infer(declared[i], actual[i], m), i + 1, name);
    }
}

/// What is expected only fills in what is unknown: a complete type stays as it
/// is.
pub proof fn law_context_only_fills_unknowns(actual: Ty, expected: Ty)
    requires
        !has_error(actual),
    ensures
        in_context(actual, expected) == actual,
    decreases actual,
{
    match actual {
        Ty::Tuple(a) => if let Ty::Tuple(b) = expected {
            if a.len() == b.len() {
                lemma_context_fills(a, b);
            }
        },
        Ty::Enum(_, a) => if let Ty::Enum(_, b) = expected {
            if a.len() == b.len() {
                lemma_context_fills(a, b);
            }
        },
        Ty::Struct(_, a) => if let Ty::Struct(_, b) = expected {
            if a.len() == b.len() {
                lemma_context_fills(a, b);
            }
        },
        Ty::TupleStruct(_, a) => if let Ty::TupleStruct(_, b) = expected {
            if a.len() == b.len() {
                lemma_context_fills(a, b);
            }
        },
        Ty::Array(a) => if let Ty::Array(b) = expected {
            law_context_only_fills_unknowns(*a, *b);
        },
        Ty::Weak(a) => if let Ty::Weak(b) = expected {
            law_context_only_fills_unknowns(*a, *b);
        },
        Ty::Function(a, r) => if let Ty::Function(b, s) = expected {
            if a.len() == b.len() {
                lemma_context_fills(a, b);
                law_context_only_fills_unknowns(*r, *s);
            }
        },
        _ => {},
    }
}

proof fn lemma_context_fills(actual: Seq<Ty>, expected: Seq<Ty>)
    requires
        !some_error(actual),
        actual.len() == expected.len(),
    ensures
        all_in_context(actual, expected) == actual,
    decreases actual,
{
    assert forall|i: int| 0 <= i < actual.len() implies all_in_context(actual, expected)[i] == actual[i] by {
        assert(!has_error(actual[i]));
        law_context_only_fills_unknowns(actual[i], expected[i]);
    }
    assert(all_in_context(actual, expected) =~= actual);
}

/// Whether every choice of the first is one of the second.
pub open spec fn choices_stay(a: Subst, b: Subst) -> bool {
    forall|name: Seq<char>|
        #![trigger a.contains_key(name)]
        #![trigger b.contains_key(name)]
        a.contains_key(name) ==> b.contains_key(name) && b[name] == a[name]
}

/// Matching keeps the choices made before.
pub proof fn law_matching_keeps_choices(pattern: Ty, concrete: Ty, m: Subst)
    ensures
        unify(pattern, concrete, m) matches Some(m1) ==> choices_stay(m, m1),
    decreases pattern, 0nat,
{
    match (pattern, concrete) {
        (Ty::Struct(_, a), Ty::Struct(_, b)) => lemma_matching_keeps(a, b, m, 0),
        (Ty::TupleStruct(_, a), Ty::TupleStruct(_, b)) => lemma_matching_keeps(a, b, m, 0),
        (Ty::Enum(_, a), Ty::Enum(_, b)) => lemma_matching_keeps(a, b, m, 0),
        (Ty::Tuple(a), Ty::Tuple(b)) => lemma_matching_keeps(a, b, m, 0),
        (Ty::Array(a), Ty::Array(b)) => law_matching_keeps_choices(*a, *b, m),
        (Ty::Weak(a), Ty::Weak(b)) => law_matching_keeps_choices(*a, *b, m),
        (Ty::FixedArray(a, n), Ty::FixedArray(b, k)) => {
            law_matching_keeps_choices(*a, *b, m);
            if let Some(m1) = unify(*a, *b, m) {
                law_matching_keeps_choices(*n, *k, m1);
            }
        },
        (Ty::Function(a, r), Ty::Function(b, q)) => {
            lemma_matching_keeps(a, b, m, 0);
            if let Some(m1) = unify_all(a, b, m, 0) {
                law_matching_keeps_choices(*r, *q, m1);
            }
        },
        _ => {},
    }
}

proof fn lemma_matching_keeps(pattern: Seq<Ty>, concrete: Seq<Ty>, m: Subst, i: int)
    ensures
        unify_all(pattern, concrete, m, i) matches Some(m1) ==> choices_stay(m, m1),
    decreases pattern, pattern.len() - i,
{
    if 0 <= i < pattern.len() && i < concrete.len() {
        law_matching_keeps_choices(pattern[i], concrete[i], m);
        if let Some(m1) = unify(pattern[i], concrete[i], m) {
            lemma_matching_keeps(pattern, concrete, m1, i + 1);
        }
    }
}

/// Whether the parts of a pattern that matching compares as wholes stay as
/// they are under `m`.
pub open spec fn wholes_stay(pattern: Ty, m: Subst) -> bool
    decreases pattern,
{
    match pattern {
        Ty::Generic(_) => true,
        Ty::Struct(_, a) | Ty::TupleStruct(_, a) | Ty::Enum(_, a) | Ty::Tuple(a) => all_wholes_stay(a, m),
        Ty::Array(a) | Ty::Weak(a) => wholes_stay(*a, m),
        Ty::FixedArray(a, n) => wholes_stay(*a, m) && wholes_stay(*n, m),
        Ty::Function(a, r) => all_wholes_stay(a, m) && wholes_stay(*r, m),
        _ => subst(pattern, m) == pattern,
    }
}

/// The same for each of the patterns.
pub open spec fn all_wholes_stay(s: Seq<Ty>, m: Subst) -> bool
    decreases s,
{
    forall|i: int| #![trigger s[i]] 0 <= i < s.len() ==> wholes_stay(s[i], m)
}

/// After a match, the choices turn the pattern into the concrete type, if and
/// only if they leave alone the parts of it that were compared as wholes.
pub proof fn law_matching_gives_the_concrete_type(pattern: Ty, concrete: Ty, m: Subst)
    ensures
        unify(pattern, concrete, m) matches Some(m1) ==> (subst(pattern, m1) == concrete) == wholes_stay(pattern, m1),
{
    if let Some(m1) = unify(pattern, concrete, m) {
        lemma_match_result(pattern, concrete, m, m1);
    }
}

/// After a match with a type without parameters, the choices turn the pattern
/// into that type.
pub proof fn law_matching_a_closed_type_gives_it(pattern: Ty, concrete: Ty, m: Subst)
    requires
        !has_generic(concrete),
    ensures
        unify(pattern, concrete, m) matches Some(m1) ==> subst(pattern, m1) == concrete,
{
    if let Some(m1) = unify(pattern, concrete, m) {
        lemma_match_result(pattern, concrete, m, m1);
        lemma_closed_wholes_stay(pattern, concrete, m, m1);
    }
}

proof fn lemma_match_result(pattern: Ty, concrete: Ty, m: Subst, last: Subst)
    requires
        unify(pattern, concrete, m) is Some,
        choices_stay(unify(pattern, concrete, m)->0, last),
    ensures
        (subst(pattern, last) == concrete) == wholes_stay(pattern, last),
    decreases pattern, 0nat,
{
    match (pattern, concrete) {
        (Ty::Struct(_, a), Ty::Struct(_, b)) => lemma_match_results(a, b, m, last),
        (Ty::TupleStruct(_, a), Ty::TupleStruct(_, b)) => lemma_match_results(a, b, m, last),
        (Ty::Enum(_, a), Ty::Enum(_, b)) => lemma_match_results(a, b, m, last),
        (Ty::Tuple(a), Ty::Tuple(b)) => lemma_match_results(a, b, m, last),
        (Ty::Array(a), Ty::Array(b)) => lemma_match_result(*a, *b, m, last),
        (Ty::Weak(a), Ty::Weak(b)) => lemma_match_result(*a, *b, m, last),
        (Ty::FixedArray(a, n), Ty::FixedArray(b, k)) => {
            let m1 = unify(*a, *b, m)->0;
            law_matching_keeps_choices(*n, *k, m1);
            lemma_match_result(*a, *b, m, last);
            lemma_match_result(*n, *k, m1, last);
        },
        (Ty::Function(a, r), Ty::Function(b, q)) => {
            let m1 = unify_all(a, b, m, 0)->0;
            law_matching_keeps_choices(*r, *q, m1);
            lemma_match_results(a, b, m, last);
            lemma_match_result(*r, *q, m1, last);
        },
        _ => {},
    }
}

proof fn lemma_match_results(pattern: Seq<Ty>, concrete: Seq<Ty>, m: Subst, last: Subst)
    requires
        pattern.len() == concrete.len(),
        unify_all(pattern, concrete, m, 0) is Some,
        choices_stay(unify_all(pattern, concrete, m, 0)->0, last),
    ensures
        (substs(pattern, last) == concrete) == all_wholes_stay(pattern, last),
    decreases pattern, pattern.len() + 1,
{
    lemma_match_results_from(pattern, concrete, m, last, 0);
    if all_wholes_stay(pattern, last) {
        assert(substs(pattern, last) =~= concrete);
    }
    if substs(pattern, last) == concrete {
        assert forall|i: int| #![trigger pattern[i]] 0 <= i < pattern.len() implies wholes_stay(pattern[i], last) by {
            assert(substs(pattern, last)[i] == concrete[i]);
        }
    }
}

proof fn lemma_match_results_from(pattern: Seq<Ty>, concrete: Seq<Ty>, m: Subst, last: Subst, i: int)
    requires
        0 <= i <= pattern.len(),
        pattern.len() == concrete.len(),
        unify_all(pattern, concrete, m, i) is Some,
        choices_stay(unify_all(pattern, concrete, m, i)->0, last),
    ensures
        forall|j: int|
            #![trigger pattern[j]]
            i <= j < pattern.len() ==> (subst(pattern[j], last) == concrete[j]) == wholes_stay(pattern[j], last),
    decreases pattern, pattern.len() - i,
{
    if i < pattern.len() {
        let m1 = unify(pattern[i], concrete[i], m)->0;
        lemma_matching_keeps(pattern, concrete, m1, i + 1);
        lemma_match_result(pattern[i], concrete[i], m, last);
        lemma_match_results_from(pattern, concrete, m1, last, i + 1);
    }
}

proof fn lemma_closed_wholes_stay(pattern: Ty, concrete: Ty, m: Subst, last: Subst)
    requires
        !has_generic(concrete),
        unify(pattern, concrete, m) is Some,
    ensures
        wholes_stay(pattern, last),
    decreases pattern, 0nat,
{
    match (pattern, concrete) {
        (Ty::Struct(_, a), Ty::Struct(_, b)) => lemma_closed_stay(a, b, m, last, 0),
        (Ty::TupleStruct(_, a), Ty::TupleStruct(_, b)) => lemma_closed_stay(a, b, m, last, 0),
        (Ty::Enum(_, a), Ty::Enum(_, b)) => lemma_closed_stay(a, b, m, last, 0),
        (Ty::Tuple(a), Ty::Tuple(b)) => lemma_closed_stay(a, b, m, last, 0),
        (Ty::Array(a), Ty::Array(b)) => lemma_closed_wholes_stay(*a, *b, m, last),
        (Ty::Weak(a), Ty::Weak(b)) => lemma_closed_wholes_stay(*a, *b, m, last),
        (Ty::FixedArray(a, n), Ty::FixedArray(b, k)) => {
            lemma_closed_wholes_stay(*a, *b, m, last);
            lemma_closed_wholes_stay(*n, *k, unify(*a, *b, m)->0, last);
        },
        (Ty::Function(a, r), Ty::Function(b, q)) => {
            lemma_closed_stay(a, b, m, last, 0);
            lemma_closed_wholes_stay(*r, *q, unify_all(a, b, m, 0)->0, last);
        },
        _ => {
            law_substitution_needs_parameters(concrete, last);
        },
    }
}

proof fn lemma_closed_stay(pattern: Seq<Ty>, concrete: Seq<Ty>, m: Subst, last: Subst, i: int)
    requires
        0 <= i <= pattern.len(),
        pattern.len() == concrete.len(),
        !some_generic(concrete),
        unify_all(pattern, concrete, m, i) is Some,
    ensures
        forall|j: int| #![trigger pattern[j]] i <= j < pattern.len() ==> wholes_stay(pattern[j], last),
        i == 0 ==> all_wholes_stay(pattern, last),
    decreases pattern, pattern.len() - i,
{
    if i < pattern.len() {
        assert(!has_generic(concrete[i]));
        lemma_closed_wholes_stay(pattern[i], concrete[i], m, last);
        lemma_closed_stay(pattern, concrete, unify(pattern[i], concrete[i], m)->0, last, i + 1);
    }
}

// ---------------------------------------------------------------------
// Inference finds what there is to find
// ---------------------------------------------------------------------

/// Whether a parameter occurs where inference looks: inside arrays, references,
/// owned and weak types, tuples, nominal types, and the parameters and the
/// result of functions.
pub open spec fn inferable(t: Ty, name: Seq<char>) -> bool
    decreases t,
{
    match t {
        Ty::Generic(n) => n == name,
        Ty::Array(a) | Ty::Weak(a) | Ty::Unique(a) | Ty::Ref(a) | Ty::MutRef(a) => inferable(*a, name),
        Ty::FixedArray(a, n) => inferable(*a, name) || inferable(*n, name),
        Ty::Tuple(ts) | Ty::Enum(_, ts) | Ty::Struct(_, ts) | Ty::TupleStruct(_, ts) => some_inferable(ts, name),
        Ty::Function(ps, r) => some_inferable(ps, name) || inferable(*r, name),
        _ => false,
    }
}

/// The same in one of the types.
pub open spec fn some_inferable(s: Seq<Ty>, name: Seq<char>) -> bool
    decreases s,
{
    exists|i: int| #![trigger s[i]] 0 <= i < s.len() && inferable(s[i], name)
}

/// Whether every chosen type is closed and has no unknown part.
pub open spec fn closed_choices(g: Subst) -> bool {
    forall|n: Seq<char>| #![trigger g.contains_key(n)] g.contains_key(n) ==> !has_error(g[n]) && !has_generic(g[n])
}

/// Whether two choices agree where both have one.
pub open spec fn agree(a: Subst, b: Subst) -> bool {
    forall|n: Seq<char>|
        #![trigger a.contains_key(n)]
        #![trigger b.contains_key(n)]
        a.contains_key(n) && b.contains_key(n) ==> a[n] == b[n]
}

/// Whether every parameter that is chosen in one is in another.
pub open spec fn chosen_stay(a: Subst, b: Subst) -> bool {
    forall|n: Seq<char>| #![trigger b.contains_key(n)] a.contains_key(n) ==> b.contains_key(n)
}

proof fn lemma_inferred(t: Ty, g: Subst, m: Subst)
    requires
        closed_choices(g),
        agree(m, g),
    ensures
        ({
            let r = infer(t, subst(t, g), m);
            &&& agree(r, g)
            &&& chosen_stay(m, r)
            &&& forall|n: Seq<char>| #![trigger r.contains_key(n)] inferable(t, n) && g.contains_key(n) ==> r.contains_key(n)
        }),
    decreases t, 0nat,
{
    match t {
        Ty::Generic(n) => {
            if !g.contains_key(n) {
                assert(has_generic(subst(t, g)));
            }
        },
        Ty::Array(a) => lemma_inferred(*a, g, m),
        Ty::Weak(a) => lemma_inferred(*a, g, m),
        Ty::Unique(a) => lemma_inferred(*a, g, m),
        Ty::Ref(a) => lemma_inferred(*a, g, m),
        Ty::MutRef(a) => lemma_inferred(*a, g, m),
        Ty::FixedArray(a, n) => {
            lemma_inferred(*a, g, m);
            lemma_inferred(*n, g, infer(*a, subst(*a, g), m));
        },
        Ty::Tuple(ts) => lemma_all_inferred(ts, g, m, 0),
        Ty::Enum(_, ts) => lemma_all_inferred(ts, g, m, 0),
        Ty::Struct(_, ts) => lemma_all_inferred(ts, g, m, 0),
        Ty::TupleStruct(_, ts) => lemma_all_inferred(ts, g, m, 0),
        Ty::Function(ps, r) => {
            lemma_all_inferred(ps, g, m, 0);
            lemma_inferred(*r, g, infer_all(ps, substs(ps, g), m, 0));
        },
        _ => {},
    }
}

proof fn lemma_all_inferred(ts: Seq<Ty>, g: Subst, m: Subst, i: int)
    requires
        0 <= i <= ts.len(),
        closed_choices(g),
        agree(m, g),
    ensures
        ({
            let r = infer_all(ts, substs(ts, g), m, i);
            &&& agree(r, g)
            &&& chosen_stay(m, r)
            &&& forall|n: Seq<char>, k: int|
                #![trigger r.contains_key(n), ts[k]]
                i <= k < ts.len() && inferable(ts[k], n) && g.contains_key(n) ==> r.contains_key(n)
            &&& i == 0 ==> forall|n: Seq<char>|
                #![trigger r.contains_key(n)]
                some_inferable(ts, n) && g.contains_key(n) ==> r.contains_key(n)
        }),
    decreases ts, ts.len() - i,
{
    if i < ts.len() {
        assert(substs(ts, g)[i] == subst(ts[i], g));
        lemma_inferred(ts[i], g, m);
        let m1 = infer(ts[i], subst(ts[i], g), m);
        lemma_all_inferred(ts, g, m1, i + 1);
        let r = infer_all(ts, substs(ts, g), m, i);
        assert(r == infer_all(ts, substs(ts, g), m1, i + 1));
        assert forall|n: Seq<char>, k: int|
            #![trigger r.contains_key(n), ts[k]]
            i <= k < ts.len() && inferable(ts[k], n) && g.contains_key(n) implies r.contains_key(n) by {
            if k == i {
                assert(m1.contains_key(n));
            }
        }
        if i == 0 {
            assert forall|n: Seq<char>| #![trigger r.contains_key(n)] some_inferable(ts, n) && g.contains_key(
                n,
            ) implies r.contains_key(n) by {
                let k = choose|k: int| #![trigger ts[k]] 0 <= k < ts.len() && inferable(ts[k], n);
                assert(i <= k && inferable(ts[k], n));
            }
        }
    }
}

/// Inference is complete: where what was given is what a choice of closed types
/// makes of what was declared, every parameter that occurs where inference looks
/// is found, and is found to be that choice; no choice that was made before and
/// agrees with it is changed or lost.
pub proof fn law_inference_is_complete(declared: Ty, actual: Ty, g: Subst, m: Subst, name: Seq<char>)
    requires
        actual == subst(declared, g),
        closed_choices(g),
        agree(m, g),
    ensures
        inferable(declared, name) && g.contains_key(name) ==> infer(declared, actual, m).get(name) == Some(g[name]),
        m.contains_key(name) && g.contains_key(name) ==> infer(declared, actual, m).get(name) == Some(g[name]),
{
    lemma_inferred(declared, g, m);
    let r = infer(declared, actual, m);
    if inferable(declared, name) && g.contains_key(name) {
        assert(r.contains_key(name));
    }
    if m.contains_key(name) && g.contains_key(name) {
        assert(r.contains_key(name));
    }
}

/// Whether a parameter occurs in a type.
pub open spec fn mentions(t: Ty, name: Seq<char>) -> bool
    decreases t,
{
    match t {
        Ty::Generic(n) => n == name,
        Ty::Struct(_, ts) | Ty::TupleStruct(_, ts) | Ty::Tuple(ts) | Ty::Enum(_, ts) | Ty::Any(_, ts)
        | Ty::Opaque(_, ts) => some_mentions(ts, name),
        Ty::FixedArray(a, n) => mentions(*a, name) || mentions(*n, name),
        Ty::Array(a) | Ty::Associated(a, _) | Ty::Weak(a) | Ty::Unique(a) | Ty::Ref(a) | Ty::MutRef(a)
        | Ty::RawConstPtr(a) | Ty::RawMutPtr(a) | Ty::Task(a) | Ty::Thread(a) => mentions(*a, name),
        Ty::Function(ps, r) => some_mentions(ps, name) || mentions(*r, name),
        _ => false,
    }
}

/// The same of one of the types.
pub open spec fn some_mentions(s: Seq<Ty>, name: Seq<char>) -> bool
    decreases s,
{
    exists|i: int| #![trigger s[i]] 0 <= i < s.len() && mentions(s[i], name)
}

/// Only the parameters that occur in a type decide what becomes of it.
pub proof fn law_substitution_reads_what_occurs(t: Ty, a: Subst, b: Subst)
    requires
        forall|n: Seq<char>| #![trigger mentions(t, n)] mentions(t, n) ==> a.get(n) == b.get(n),
    ensures
        subst(t, a) == subst(t, b),
    decreases t, 0nat,
{
    match t {
        Ty::Generic(n) => {
            assert(mentions(t, n));
            assert(a.get(n) == b.get(n));
        },
        Ty::Struct(_, ts) | Ty::TupleStruct(_, ts) | Ty::Tuple(ts) | Ty::Enum(_, ts) | Ty::Any(_, ts)
        | Ty::Opaque(_, ts) => {
            assert forall|n: Seq<char>| #![trigger some_mentions(ts, n)] some_mentions(ts, n) implies a.get(n) == b.get(
                n,
            ) by {
                assert(mentions(t, n));
            }
            lemma_substs_read(ts, a, b);
        },
        Ty::FixedArray(x, y) => {
            assert forall|n: Seq<char>| #![trigger mentions(*x, n)] mentions(*x, n) implies a.get(n) == b.get(n) by {
                assert(mentions(t, n));
            }
            assert forall|n: Seq<char>| #![trigger mentions(*y, n)] mentions(*y, n) implies a.get(n) == b.get(n) by {
                assert(mentions(t, n));
            }
            law_substitution_reads_what_occurs(*x, a, b);
            law_substitution_reads_what_occurs(*y, a, b);
        },
        Ty::Array(x) | Ty::Associated(x, _) | Ty::Weak(x) | Ty::Unique(x) | Ty::Ref(x) | Ty::MutRef(x)
        | Ty::RawConstPtr(x) | Ty::RawMutPtr(x) | Ty::Task(x) | Ty::Thread(x) => {
            assert forall|n: Seq<char>| #![trigger mentions(*x, n)] mentions(*x, n) implies a.get(n) == b.get(n) by {
                assert(mentions(t, n));
            }
            law_substitution_reads_what_occurs(*x, a, b);
        },
        Ty::Function(ps, r) => {
            assert forall|n: Seq<char>| #![trigger some_mentions(ps, n)] some_mentions(ps, n) implies a.get(n) == b.get(
                n,
            ) by {
                assert(mentions(t, n));
            }
            assert forall|n: Seq<char>| #![trigger mentions(*r, n)] mentions(*r, n) implies a.get(n) == b.get(n) by {
                assert(mentions(t, n));
            }
            lemma_substs_read(ps, a, b);
            law_substitution_reads_what_occurs(*r, a, b);
        },
        _ => {},
    }
}

proof fn lemma_substs_read(ts: Seq<Ty>, a: Subst, b: Subst)
    requires
        forall|n: Seq<char>| #![trigger some_mentions(ts, n)] some_mentions(ts, n) ==> a.get(n) == b.get(n),
    ensures
        substs(ts, a) == substs(ts, b),
    decreases ts, 1nat,
{
    assert forall|i: int| 0 <= i < ts.len() implies substs(ts, a)[i] == substs(ts, b)[i] by {
        assert forall|n: Seq<char>| #![trigger mentions(ts[i], n)] mentions(ts[i], n) implies a.get(n) == b.get(n) by {
            assert(some_mentions(ts, n));
        }
        law_substitution_reads_what_occurs(ts[i], a, b);
    }
    assert(substs(ts, a) =~= substs(ts, b));
}

/// What is inferred turns what was declared into what was given, wherever a
/// choice of closed types does, and every parameter occurs where inference
/// looks.
pub proof fn law_inference_gives_the_actual_type(declared: Ty, actual: Ty, g: Subst, m: Subst)
    requires
        actual == subst(declared, g),
        closed_choices(g),
        agree(m, g),
        forall|n: Seq<char>| #![trigger mentions(declared, n)] mentions(declared, n) ==> inferable(declared, n)
            && g.contains_key(n),
    ensures
        subst(declared, infer(declared, actual, m)) == actual,
{
    let r = infer(declared, actual, m);
    assert forall|n: Seq<char>| #![trigger mentions(declared, n)] mentions(declared, n) implies r.get(n) == g.get(n) by {
        law_inference_is_complete(declared, actual, g, m, n);
    }
    law_substitution_reads_what_occurs(declared, r, g);
}

/// Substitution replaces a parameter by what is chosen for it, keeps what is
/// not chosen, and goes into every part of a type.
pub proof fn law_substitution_replaces(name: Seq<char>, a: Ty, b: Ty, ts: Seq<Ty>, id: crate::ids::DefId, m: Subst)
    ensures
        m.contains_key(name) ==> subst(Ty::Generic(name), m) == m[name],
        !m.contains_key(name) ==> subst(Ty::Generic(name), m) == Ty::Generic(name),
        subst(Ty::Array(Box::new(a)), m) == Ty::Array(Box::new(subst(a, m))),
        subst(Ty::FixedArray(Box::new(a), Box::new(b)), m) == Ty::FixedArray(Box::new(subst(a, m)), Box::new(subst(b, m))),
        subst(Ty::Unique(Box::new(a)), m) == Ty::Unique(Box::new(subst(a, m))),
        subst(Ty::Weak(Box::new(a)), m) == Ty::Weak(Box::new(subst(a, m))),
        subst(Ty::Ref(Box::new(a)), m) == Ty::Ref(Box::new(subst(a, m))),
        subst(Ty::MutRef(Box::new(a)), m) == Ty::MutRef(Box::new(subst(a, m))),
        subst(Ty::RawConstPtr(Box::new(a)), m) == Ty::RawConstPtr(Box::new(subst(a, m))),
        subst(Ty::RawMutPtr(Box::new(a)), m) == Ty::RawMutPtr(Box::new(subst(a, m))),
        subst(Ty::Task(Box::new(a)), m) == Ty::Task(Box::new(subst(a, m))),
        subst(Ty::Thread(Box::new(a)), m) == Ty::Thread(Box::new(subst(a, m))),
        subst(Ty::Associated(Box::new(a), name), m) == Ty::Associated(Box::new(subst(a, m)), name),
        subst(Ty::Function(ts, Box::new(a)), m) matches Ty::Function(us, r) && *r == subst(a, m) && us.len() == ts.len()
            && forall|i: int| #![trigger us[i]] 0 <= i < us.len() ==> us[i] == subst(ts[i], m),
        subst(Ty::Tuple(ts), m) matches Ty::Tuple(us) && us.len() == ts.len() && forall|i: int|
            #![trigger us[i]]
            0 <= i < us.len() ==> us[i] == subst(ts[i], m),
        subst(Ty::Struct(id, ts), m) matches Ty::Struct(j, us) && j == id && us.len() == ts.len() && forall|i: int|
            #![trigger us[i]]
            0 <= i < us.len() ==> us[i] == subst(ts[i], m),
        subst(Ty::TupleStruct(id, ts), m) matches Ty::TupleStruct(j, us) && j == id && us.len() == ts.len() && forall|
            i: int,
        |
            #![trigger us[i]]
            0 <= i < us.len() ==> us[i] == subst(ts[i], m),
        subst(Ty::Enum(id, ts), m) matches Ty::Enum(j, us) && j == id && us.len() == ts.len() && forall|i: int|
            #![trigger us[i]]
            0 <= i < us.len() ==> us[i] == subst(ts[i], m),
        subst(Ty::Any(id, ts), m) matches Ty::Any(j, us) && j == id && us.len() == ts.len() && forall|i: int|
            #![trigger us[i]]
            0 <= i < us.len() ==> us[i] == subst(ts[i], m),
        subst(Ty::Opaque(id, ts), m) matches Ty::Opaque(j, us) && j == id && us.len() == ts.len() && forall|i: int|
            #![trigger us[i]]
            0 <= i < us.len() ==> us[i] == subst(ts[i], m),
{
    let us = substs(ts, m);
    assert(us.len() == ts.len());
    assert(forall|i: int| #![trigger us[i]] 0 <= i < us.len() ==> us[i] == subst(ts[i], m));
}

/// Matching distinct names to types pairwise: each name's type is its choice, and
/// nothing else is chosen.
pub proof fn law_zipped_choices(names: Seq<Seq<char>>, args: Seq<Ty>, k: int)
    requires
        names.no_duplicates(),
        names.len() == args.len(),
        0 <= k < names.len(),
    ensures
        zip_subst(names, args).get(names[k]) == Some(args[k]),
        forall|n: Seq<char>| #![trigger zip_subst(names, args).contains_key(n)]
            zip_subst(names, args).contains_key(n) ==> names.contains(n),
{
    lemma_zip_first(names, args, names.len());
    assert(zip_subst(names, args).contains_key(names[k]));
}

proof fn lemma_zip_first(names: Seq<Seq<char>>, args: Seq<Ty>, n: nat)
    requires
        names.no_duplicates(),
        n <= names.len(),
        n <= args.len(),
    ensures
        forall|k: int| #![trigger names[k]] 0 <= k < n ==> zip_first(names, args, n).contains_key(names[k]) && zip_first(
            names,
            args,
            n,
        )[names[k]] == args[k],
        forall|x: Seq<char>| #![trigger zip_first(names, args, n).contains_key(x)]
            zip_first(names, args, n).contains_key(x) ==> exists|k: int| 0 <= k < n && #[trigger] names[k] == x,
    decreases n,
{
    if n > 0 {
        lemma_zip_first(names, args, (n - 1) as nat);
        assert forall|x: Seq<char>| #![trigger zip_first(names, args, n).contains_key(x)] zip_first(
            names,
            args,
            n,
        ).contains_key(x) implies exists|k: int| 0 <= k < n && #[trigger] names[k] == x by {
            if x == names[n - 1] {
                let k = n - 1;
                assert(0 <= k < n && names[k] == x);
            } else {
                assert(zip_first(names, args, (n - 1) as nat).contains_key(x));
            }
        }
    }
}

// ---------------------------------------------------------------------
// Matching and context find what there is to find
// ---------------------------------------------------------------------

/// Whether every parameter that occurs in a type has a choice.
pub open spec fn all_chosen(t: Ty, g: Subst) -> bool {
    forall|n: Seq<char>| #![trigger mentions(t, n)] mentions(t, n) ==> g.contains_key(n)
}

/// Matching is complete: a type that a choice makes of a pattern matches it, with no
/// other choices, if the choices made before are among them and the parts that are
/// compared as wholes stay as they are.
pub proof fn law_matching_is_complete(pattern: Ty, g: Subst, m: Subst)
    requires
        all_chosen(pattern, g),
        wholes_stay(pattern, g),
        choices_stay(m, g),
    ensures
        unify(pattern, subst(pattern, g), m) is Some,
        choices_stay(unify(pattern, subst(pattern, g), m)->Some_0, g),
    decreases pattern, 0nat, 0int,
{
    match pattern {
        Ty::Generic(n) => {
            assert(mentions(pattern, n));
            let m1 = unify(pattern, subst(pattern, g), m)->Some_0;
            assert(m.contains_key(n) ==> g.contains_key(n));
            assert(choices_stay(m1, g));
        },
        Ty::Struct(_, a) | Ty::TupleStruct(_, a) | Ty::Enum(_, a) | Ty::Tuple(a) => {
            assert forall|n: Seq<char>| #![trigger some_mentions(a, n)] some_mentions(a, n) implies g.contains_key(n) by {
                assert(mentions(pattern, n));
            }
            lemma_all_match(a, g, m, 0);
        },
        Ty::Array(a) | Ty::Weak(a) => {
            assert forall|n: Seq<char>| #![trigger mentions(*a, n)] mentions(*a, n) implies g.contains_key(n) by {
                assert(mentions(pattern, n));
            }
            law_matching_is_complete(*a, g, m);
        },
        Ty::FixedArray(a, k) => {
            assert forall|n: Seq<char>| #![trigger mentions(*a, n)] mentions(*a, n) implies g.contains_key(n) by {
                assert(mentions(pattern, n));
            }
            assert forall|n: Seq<char>| #![trigger mentions(*k, n)] mentions(*k, n) implies g.contains_key(n) by {
                assert(mentions(pattern, n));
            }
            law_matching_is_complete(*a, g, m);
            law_matching_is_complete(*k, g, unify(*a, subst(*a, g), m)->Some_0);
        },
        Ty::Function(a, r) => {
            assert forall|n: Seq<char>| #![trigger some_mentions(a, n)] some_mentions(a, n) implies g.contains_key(n) by {
                assert(mentions(pattern, n));
            }
            assert forall|n: Seq<char>| #![trigger mentions(*r, n)] mentions(*r, n) implies g.contains_key(n) by {
                assert(mentions(pattern, n));
            }
            lemma_all_match(a, g, m, 0);
            law_matching_is_complete(*r, g, unify_all(a, substs(a, g), m, 0)->Some_0);
        },
        _ => {},
    }
}

proof fn lemma_all_match(ts: Seq<Ty>, g: Subst, m: Subst, i: int)
    requires
        0 <= i <= ts.len(),
        forall|n: Seq<char>| #![trigger some_mentions(ts, n)] some_mentions(ts, n) ==> g.contains_key(n),
        all_wholes_stay(ts, g),
        choices_stay(m, g),
    ensures
        unify_all(ts, substs(ts, g), m, i) is Some,
        choices_stay(unify_all(ts, substs(ts, g), m, i)->Some_0, g),
    decreases ts, 0nat, ts.len() - i,
{
    if i < ts.len() {
        assert forall|n: Seq<char>| #![trigger mentions(ts[i], n)] mentions(ts[i], n) implies g.contains_key(n) by {
            assert(some_mentions(ts, n));
        }
        law_matching_is_complete(ts[i], g, m);
        assert(substs(ts, g)[i] == subst(ts[i], g));
        lemma_all_match(ts, g, unify(ts[i], subst(ts[i], g), m)->Some_0, i + 1);
    }
}

/// Whether a type is another one of which parts are unknown: inside tuples, nominal
/// types, arrays, weak types and functions.
pub open spec fn less_known(t: Ty, u: Ty) -> bool
    decreases t,
{
    t is Error || t == u || match (t, u) {
        (Ty::Tuple(a), Ty::Tuple(b)) => all_less_known(a, b),
        (Ty::Struct(i, a), Ty::Struct(j, b)) => i == j && all_less_known(a, b),
        (Ty::TupleStruct(i, a), Ty::TupleStruct(j, b)) => i == j && all_less_known(a, b),
        (Ty::Enum(i, a), Ty::Enum(j, b)) => i == j && all_less_known(a, b),
        (Ty::Array(a), Ty::Array(b)) => less_known(*a, *b),
        (Ty::Weak(a), Ty::Weak(b)) => less_known(*a, *b),
        (Ty::Function(a, r), Ty::Function(b, q)) => all_less_known(a, b) && less_known(*r, *q),
        _ => false,
    }
}

/// The same pairwise.
pub open spec fn all_less_known(a: Seq<Ty>, b: Seq<Ty>) -> bool
    decreases a,
{
    a.len() == b.len() && forall|i: int| #![trigger a[i]] 0 <= i < a.len() ==> less_known(a[i], b[i])
}

/// What is expected fills in all that is unknown, if it is complete itself.
pub proof fn law_context_fills_every_unknown(actual: Ty, expected: Ty)
    requires
        less_known(actual, expected),
        !has_error(expected),
        !has_generic(expected),
    ensures
        in_context(actual, expected) == expected,
    decreases actual,
{
    if actual == expected {
        law_context_only_fills_unknowns(actual, expected);
    } else {
        match (actual, expected) {
            (Ty::Tuple(a), Ty::Tuple(b)) => lemma_all_filled(a, b),
            (Ty::Struct(_, a), Ty::Struct(_, b)) => lemma_all_filled(a, b),
            (Ty::TupleStruct(_, a), Ty::TupleStruct(_, b)) => lemma_all_filled(a, b),
            (Ty::Enum(_, a), Ty::Enum(_, b)) => lemma_all_filled(a, b),
            (Ty::Array(a), Ty::Array(b)) => law_context_fills_every_unknown(*a, *b),
            (Ty::Weak(a), Ty::Weak(b)) => law_context_fills_every_unknown(*a, *b),
            (Ty::Function(a, r), Ty::Function(b, q)) => {
                lemma_all_filled(a, b);
                law_context_fills_every_unknown(*r, *q);
            },
            _ => {},
        }
    }
}

proof fn lemma_all_filled(a: Seq<Ty>, b: Seq<Ty>)
    requires
        all_less_known(a, b),
        !some_error(b),
        !some_generic(b),
    ensures
        all_in_context(a, b) == b,
    decreases a,
{
    assert forall|i: int| 0 <= i < a.len() implies all_in_context(a, b)[i] == b[i] by {
        assert(less_known(a[i], b[i]));
        assert(!has_error(b[i]) && !has_generic(b[i]));
        law_context_fills_every_unknown(a[i], b[i]);
    }
    assert(all_in_context(a, b) =~= b);
}

/// Of two types the first is taken, unless it has an unknown part and the second has
/// none.
pub proof fn law_more_concrete(a: Ty, b: Ty)
    ensures
        more_concrete(a, b) == a || more_concrete(a, b) == b,
        !has_error(a) ==> more_concrete(a, b) == a,
        !has_error(b) ==> !has_error(more_concrete(a, b)),
        has_error(a) && has_error(b) ==> more_concrete(a, b) == a,
{
}

} // verus!
