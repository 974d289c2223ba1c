//! What declarations denote: the types, parameters, fields and bounds that are
//! written, in their order, whatever was reported before.
use vstd::prelude::*;

use crate::ast::{
    type_size, types_size, EnumVariant, FieldDecl, FnDecl, GenericParam, Param, Path, StructDeclKind, TraitDecl, TypeExpr,
};
use crate::declarations::{
    bounded_params_from, const_params_from, fields_from, foreign_errors, foreign_param_errors, params_from, shape_of,
    signature_of, variants_from, with_type,
};
use crate::diagnostics::{diag, Diag};
use crate::ids::{DefId, Span};
use crate::lower::{
    lower, lower_all, lower_def, lower_existential, lower_named, lower_parameter, lowered, lowered_all, lowered_bound,
    lowered_bounds, named_def, unsafe_trait, witness_errors, witness_method_errors, witness_methods_errors,
    witness_parents, witness_types_errors, Sc,
};
use crate::names::{DefKind, Resolution};
use crate::sig::{Bound, PSig, Shape, Sig, Sigs};
use crate::subst::Subst;
use crate::table::{lemma_pair_index, lemma_unseen, unseen};
use crate::ty::Ty;

verus! {

/// No errors.
pub open spec fn clean() -> Seq<Diag> {
    Seq::empty()
}

broadcast proof fn lemma_one_more(d: Seq<Diag>, x: Diag)
    ensures
        #[trigger] d.push(x) == d + clean().push(x),
{
    assert(d.push(x) =~= d + clean().push(x));
}

broadcast proof fn lemma_then(a: Seq<Diag>, b: Seq<Diag>, c: Seq<Diag>)
    ensures
        #[trigger] ((a + b) + c) == a + (b + c),
{
    assert((a + b) + c =~= a + (b + c));
}

broadcast proof fn lemma_nothing_more(d: Seq<Diag>)
    ensures
        #[trigger] (d + clean()) == d,
{
    assert(d + clean() =~= d);
}

proof fn lemma_witness_method(name: Seq<char>, m: FnDecl, d: Seq<Diag>)
    ensures
        witness_method_errors(name, m, d) == d + witness_method_errors(name, m, clean()),
{
    broadcast use {lemma_one_more, lemma_then, lemma_nothing_more};

    assert(clean() + clean() =~= clean());
    assert(witness_method_errors(name, m, d) =~= d + witness_method_errors(name, m, clean()));
}

proof fn lemma_witness_methods(t: TraitDecl, i: int, d: Seq<Diag>)
    ensures
        witness_methods_errors(t, i, d) == d + witness_methods_errors(t, i, clean()),
    decreases t.methods@.len() - i,
{
    broadcast use {lemma_then, lemma_nothing_more};

    if 0 <= i < t.methods@.len() {
        lemma_witness_method(t.name.name@, t.methods@[i], d);
        let e = witness_method_errors(t.name.name@, t.methods@[i], clean());
        lemma_witness_methods(t, i + 1, d + e);
        lemma_witness_methods(t, i + 1, e);
    }
}

proof fn lemma_witness_types(t: TraitDecl, i: int, d: Seq<Diag>)
    ensures
        witness_types_errors(t, i, d) == d + witness_types_errors(t, i, clean()),
    decreases t.associated_types@.len() - i,
{
    broadcast use {lemma_one_more, lemma_then, lemma_nothing_more};

    if 0 <= i < t.associated_types@.len() {
        let a = t.associated_types@[i];
        let e = if a.value is None {
            clean().push(
                diag(
                    unsafe_trait(t.name.name@),
                    a.name.span,
                    "an existential associated type needs a default binding"@,
                ),
            )
        } else {
            clean()
        };
        lemma_witness_types(t, i + 1, d + e);
        lemma_witness_types(t, i + 1, e);
    }
}

proof fn lemma_witness(sc: Sc, id: DefId, seen: Seq<DefId>, d: Seq<Diag>, depth: nat)
    ensures
        witness_errors(sc, id, seen, d, depth).0 == witness_errors(sc, id, seen, clean(), depth).0,
        witness_errors(sc, id, seen, d, depth).1 == d + witness_errors(sc, id, seen, clean(), depth).1,
    decreases depth, 1nat, 0int,
{
    broadcast use {lemma_then, lemma_nothing_more};

    if !seen.contains(id) && depth > 0 {
        if let Some(t) = sc.trait_decl(id) {
            lemma_witness_methods(t, 0, d);
            let e1 = witness_methods_errors(t, 0, clean());
            lemma_witness_types(t, 0, d + e1);
            lemma_witness_types(t, 0, e1);
            let e2 = witness_types_errors(t, 0, clean());
            lemma_witness_parents(sc, t.parents@, 0, seen.push(id), d + (e1 + e2), (depth - 1) as nat);
            lemma_witness_parents(sc, t.parents@, 0, seen.push(id), e1 + e2, (depth - 1) as nat);
        }
    }
}

proof fn lemma_witness_parents(sc: Sc, parents: Seq<TypeExpr>, i: int, seen: Seq<DefId>, d: Seq<Diag>, depth: nat)
    ensures
        witness_parents(sc, parents, i, seen, d, depth).0 == witness_parents(sc, parents, i, seen, clean(), depth).0,
        witness_parents(sc, parents, i, seen, d, depth).1 == d + witness_parents(sc, parents, i, seen, clean(), depth).1,
    decreases depth, 2nat, parents.len() - i,
{
    broadcast use {lemma_then, lemma_nothing_more};

    if 0 <= i < parents.len() {
        match named_def(sc, parents[i]) {
            Some(id) => {
                lemma_witness(sc, id, seen, d, depth);
                let (seen1, e) = witness_errors(sc, id, seen, clean(), depth);
                lemma_witness_parents(sc, parents, i + 1, seen1, d + e, depth);
                lemma_witness_parents(sc, parents, i + 1, seen1, e, depth);
            },
            None => {
                lemma_witness_parents(sc, parents, i + 1, seen, d, depth);
            },
        }
    }
}

/// The type that a syntax denotes does not depend on what was reported before, and
/// what is reported of it comes after that.
pub proof fn law_types_do_not_depend_on_errors(sc: Sc, t: TypeExpr, seen: Seq<DefId>, d: Seq<Diag>)
    ensures
        lower(sc, t, seen, d).0 == lower(sc, t, seen, clean()).0,
        lower(sc, t, seen, d).1 == d + lower(sc, t, seen, clean()).1,
    decreases unseen(sc.decls.aliases, seen), type_size(t), 0nat,
{
    broadcast use {lemma_one_more, lemma_then, lemma_nothing_more};

    match t {
        TypeExpr::Const(_, _) => {},
        TypeExpr::Named { path, generics, span: _ } => {
            lemma_named(sc, path, generics@, seen, d);
        },
        TypeExpr::Tuple(ts, _) => {
            lemma_all(sc, ts@, 0, seen, Seq::empty(), d);
        },
        TypeExpr::Array(a, _) => {
            law_types_do_not_depend_on_errors(sc, *a, seen, d);
        },
        TypeExpr::FixedArray { element, length, span } => {
            law_types_do_not_depend_on_errors(sc, *element, seen, d);
            let e1 = lower(sc, *element, seen, clean()).1;
            law_types_do_not_depend_on_errors(sc, *length, seen, d + e1);
            law_types_do_not_depend_on_errors(sc, *length, seen, e1);
        },
        TypeExpr::Weak(a, _) => {
            law_types_do_not_depend_on_errors(sc, *a, seen, d);
        },
        TypeExpr::Any(a, span) => {
            lemma_existential(sc, *a, span, false, seen, d);
        },
        TypeExpr::Opaque(a, span) => {
            lemma_existential(sc, *a, span, true, seen, d);
        },
        TypeExpr::Unique(a, _) => {
            law_types_do_not_depend_on_errors(sc, *a, seen, d);
        },
        TypeExpr::Ref(a, _) => {
            law_types_do_not_depend_on_errors(sc, *a, seen, d);
        },
        TypeExpr::MutRef(a, _) => {
            law_types_do_not_depend_on_errors(sc, *a, seen, d);
        },
        TypeExpr::RawConst(a, _) => {
            law_types_do_not_depend_on_errors(sc, *a, seen, d);
        },
        TypeExpr::RawMut(a, _) => {
            law_types_do_not_depend_on_errors(sc, *a, seen, d);
        },
        TypeExpr::Function { params, ret, span: _ } => {
            lemma_all(sc, params@, 0, seen, Seq::empty(), d);
            let e1 = lower_all(sc, params@, 0, seen, Seq::empty(), clean()).1;
            law_types_do_not_depend_on_errors(sc, *ret, seen, d + e1);
            law_types_do_not_depend_on_errors(sc, *ret, seen, e1);
        },
    }
}

proof fn lemma_all(sc: Sc, ts: Seq<TypeExpr>, i: int, seen: Seq<DefId>, acc: Seq<Ty>, d: Seq<Diag>)
    ensures
        lower_all(sc, ts, i, seen, acc, d).0 == lower_all(sc, ts, i, seen, acc, clean()).0,
        lower_all(sc, ts, i, seen, acc, d).1 == d + lower_all(sc, ts, i, seen, acc, clean()).1,
    decreases unseen(sc.decls.aliases, seen), types_size(ts, i), 1nat,
{
    broadcast use {lemma_then, lemma_nothing_more};

    if 0 <= i < ts.len() {
        law_types_do_not_depend_on_errors(sc, ts[i], seen, d);
        let (x, e) = lower(sc, ts[i], seen, clean());
        lemma_all(sc, ts, i + 1, seen, acc.push(x), d + e);
        lemma_all(sc, ts, i + 1, seen, acc.push(x), e);
    }
}

proof fn lemma_named(sc: Sc, path: Path, generics: Seq<TypeExpr>, seen: Seq<DefId>, d: Seq<Diag>)
    ensures
        lower_named(sc, path, generics, seen, d).0 == lower_named(sc, path, generics, seen, clean()).0,
        lower_named(sc, path, generics, seen, d).1 == d + lower_named(sc, path, generics, seen, clean()).1,
    decreases unseen(sc.decls.aliases, seen), types_size(generics, 0), 4nat,
{
    broadcast use {lemma_one_more, lemma_then, lemma_nothing_more};

    if let Some(res) = sc.names.path(path.id) {
        if let Resolution::Def(id) = res.base {
            if !(res.consumed == 1 && path.segments@.len() == 2) {
                lemma_def(sc, id, path, generics, seen, d);
            }
        }
    }
}

proof fn lemma_def(sc: Sc, id: DefId, path: Path, generics: Seq<TypeExpr>, seen: Seq<DefId>, d: Seq<Diag>)
    ensures
        lower_def(sc, id, path, generics, seen, d).0 == lower_def(sc, id, path, generics, seen, clean()).0,
        lower_def(sc, id, path, generics, seen, d).1 == d + lower_def(sc, id, path, generics, seen, clean()).1,
    decreases unseen(sc.decls.aliases, seen), types_size(generics, 0), 3nat,
{
    broadcast use {lemma_one_more, lemma_nothing_more};

    if generics.len() == 1 {
        law_types_do_not_depend_on_errors(sc, generics[0], seen, d);
    }
    lemma_all(sc, generics, 0, seen, Seq::empty(), d);
    if sc.defs().kind_of(id) is TypeAlias && !seen.contains(id) {
        if let Some(decl) = sc.alias_decl(id) {
            lemma_pair_index(sc.decls.aliases, id);
            lemma_unseen(sc.decls.aliases, seen, id);
            law_types_do_not_depend_on_errors(sc, decl.ty, seen.push(id), d);
        }
    }
}

proof fn lemma_existential(sc: Sc, t: TypeExpr, span: Span, opaque: bool, seen: Seq<DefId>, d: Seq<Diag>)
    ensures
        lower_existential(sc, t, span, opaque, seen, d).0 == lower_existential(sc, t, span, opaque, seen, clean()).0,
        lower_existential(sc, t, span, opaque, seen, d).1 == d + lower_existential(
            sc,
            t,
            span,
            opaque,
            seen,
            clean(),
        ).1,
    decreases unseen(sc.decls.aliases, seen), type_size(t), 5nat,
{
    broadcast use {lemma_one_more, lemma_then, lemma_nothing_more};

    if let TypeExpr::Named { path, generics, span: _ } = t {
        if let Some(res) = sc.names.path(path.id) {
            if let Resolution::Def(id) = res.base {
                let n = (sc.decls.traits.len() + 1) as nat;
                lemma_witness(sc, id, Seq::empty(), d, n);
                let e1 = witness_errors(sc, id, Seq::empty(), clean(), n).1;
                lemma_all(sc, generics@, 0, seen, Seq::empty(), d + e1);
                lemma_all(sc, generics@, 0, seen, Seq::empty(), e1);
            }
        }
    }
}

/// The type that a syntax denotes.
pub open spec fn type_of(sc: Sc, t: TypeExpr) -> Ty {
    lowered(sc, t, clean()).0
}

/// The errors in a type's syntax.
pub open spec fn errors_of(sc: Sc, t: TypeExpr) -> Seq<Diag> {
    lowered(sc, t, clean()).1
}

proof fn lemma_types_in_order(sc: Sc, ts: Seq<TypeExpr>, i: int, seen: Seq<DefId>, acc: Seq<Ty>, d: Seq<Diag>)
    requires
        0 <= i <= ts.len(),
    ensures
        ({
            let r = lower_all(sc, ts, i, seen, acc, d).0;
            &&& r.len() == acc.len() + ts.len() - i
            &&& forall|k: int| #![trigger r[k]] 0 <= k < acc.len() ==> r[k] == acc[k]
            &&& forall|k: int|
                #![trigger ts[k]]
                i <= k < ts.len() ==> r[acc.len() + k - i] == lower(sc, ts[k], seen, clean()).0
        }),
    decreases ts.len() - i,
{
    if i < ts.len() {
        let (x, d1) = lower(sc, ts[i], seen, d);
        law_types_do_not_depend_on_errors(sc, ts[i], seen, d);
        lemma_types_in_order(sc, ts, i + 1, seen, acc.push(x), d1);
        let r = lower_all(sc, ts, i, seen, acc, d).0;
        assert(r[acc.len() as int] == acc.push(x)[acc.len() as int]);
        assert forall|k: int| #![trigger r[k]] 0 <= k < acc.len() implies r[k] == acc[k] by {
            assert(acc.push(x)[k] == acc[k]);
        }
    }
}

proof fn lemma_lowered_in_order(sc: Sc, ts: Seq<TypeExpr>, i: int, acc: Seq<Ty>, d: Seq<Diag>)
    requires
        0 <= i <= ts.len(),
    ensures
        ({
            let r = lowered_all(sc, ts, i, acc, d).0;
            &&& r.len() == acc.len() + ts.len() - i
            &&& forall|k: int| #![trigger r[k]] 0 <= k < acc.len() ==> r[k] == acc[k]
            &&& forall|k: int| #![trigger ts[k]] i <= k < ts.len() ==> r[acc.len() + k - i] == type_of(sc, ts[k])
        }),
    decreases ts.len() - i,
{
    if i < ts.len() {
        let (x, d1) = lowered(sc, ts[i], d);
        law_types_do_not_depend_on_errors(sc, ts[i], Seq::empty(), d);
        lemma_lowered_in_order(sc, ts, i + 1, acc.push(x), d1);
        let r = lowered_all(sc, ts, i, acc, d).0;
        assert(r[acc.len() as int] == acc.push(x)[acc.len() as int]);
        assert forall|k: int| #![trigger r[k]] 0 <= k < acc.len() implies r[k] == acc[k] by {
            assert(acc.push(x)[k] == acc[k]);
        }
    }
}

/// Types in a list stand in the order in which they are written.
pub proof fn law_listed_types_in_order(sc: Sc, ts: Seq<TypeExpr>, d: Seq<Diag>, k: int)
    requires
        0 <= k < ts.len(),
    ensures
        lowered_all(sc, ts, 0, Seq::empty(), d).0.len() == ts.len(),
        lowered_all(sc, ts, 0, Seq::empty(), d).0[k] == type_of(sc, ts[k]),
{
    lemma_lowered_in_order(sc, ts, 0, Seq::empty(), d);
    assert(ts[k] == ts[k]);
}

/// Whether types are those that the syntaxes denote, in order.
pub open spec fn denoted(sc: Sc, us: Seq<Ty>, ts: Seq<TypeExpr>) -> bool {
    us.len() == ts.len() && forall|k: int| #![trigger us[k]] 0 <= k < us.len() ==> us[k] == type_of(sc, ts[k])
}

/// Compound types are made of the types of their parts.
pub proof fn law_compound_types(sc: Sc, t: TypeExpr, d: Seq<Diag>)
    ensures
        match t {
            TypeExpr::Const(n, _) => lowered(sc, t, d).0 == Ty::Const(n),
            TypeExpr::Tuple(ts, _) => lowered(sc, t, d).0 matches Ty::Tuple(us) && denoted(sc, us, ts@),
            TypeExpr::Array(a, _) => lowered(sc, t, d).0 == Ty::Array(Box::new(type_of(sc, *a))),
            TypeExpr::Weak(a, _) => lowered(sc, t, d).0 == Ty::Weak(Box::new(type_of(sc, *a))),
            TypeExpr::Unique(a, _) => lowered(sc, t, d).0 == Ty::Unique(Box::new(type_of(sc, *a))),
            TypeExpr::Ref(a, _) => lowered(sc, t, d).0 == Ty::Ref(Box::new(type_of(sc, *a))),
            TypeExpr::MutRef(a, _) => lowered(sc, t, d).0 == Ty::MutRef(Box::new(type_of(sc, *a))),
            TypeExpr::RawConst(a, _) => lowered(sc, t, d).0 == Ty::RawConstPtr(Box::new(type_of(sc, *a))),
            TypeExpr::RawMut(a, _) => lowered(sc, t, d).0 == Ty::RawMutPtr(Box::new(type_of(sc, *a))),
            TypeExpr::Function { params, ret, span: _ } => lowered(sc, t, d).0 matches Ty::Function(us, r) && denoted(
                sc,
                us,
                params@,
            ) && *r == type_of(sc, *ret),
            TypeExpr::FixedArray { element, length, span: _ } => {
                let n = type_of(sc, *length);
                if n is Const || n is Generic || n is Error {
                    lowered(sc, t, d).0 == Ty::FixedArray(Box::new(type_of(sc, *element)), Box::new(n))
                } else {
                    lowered(sc, t, d).0 is Error && lowered(sc, t, d).1.len() > d.len()
                }
            },
            _ => true,
        },
{
    let none: Seq<DefId> = Seq::empty();
    match t {
        TypeExpr::Tuple(ts, _) => lemma_types_in_order(sc, ts@, 0, none, Seq::empty(), d),
        TypeExpr::Array(a, _) => law_types_do_not_depend_on_errors(sc, *a, none, d),
        TypeExpr::Weak(a, _) => law_types_do_not_depend_on_errors(sc, *a, none, d),
        TypeExpr::Unique(a, _) => law_types_do_not_depend_on_errors(sc, *a, none, d),
        TypeExpr::Ref(a, _) => law_types_do_not_depend_on_errors(sc, *a, none, d),
        TypeExpr::MutRef(a, _) => law_types_do_not_depend_on_errors(sc, *a, none, d),
        TypeExpr::RawConst(a, _) => law_types_do_not_depend_on_errors(sc, *a, none, d),
        TypeExpr::RawMut(a, _) => law_types_do_not_depend_on_errors(sc, *a, none, d),
        TypeExpr::Function { params, ret, span: _ } => {
            lemma_types_in_order(sc, params@, 0, none, Seq::empty(), d);
            law_types_do_not_depend_on_errors(
                sc,
                *ret,
                none,
                lower_all(sc, params@, 0, none, Seq::empty(), d).1,
            );
        },
        TypeExpr::FixedArray { element, length, span: _ } => {
            law_types_do_not_depend_on_errors(sc, *element, none, d);
            law_types_do_not_depend_on_errors(sc, *length, none, lower(sc, *element, none, d).1);
        },
        _ => {},
    }
}

/// A weak type is of a heap type, or is reported.
pub proof fn law_weak_types_are_of_heap_types(sc: Sc, a: Box<TypeExpr>, span: Span)
    requires
        errors_of(sc, TypeExpr::Weak(a, span)).len() == 0,
    ensures
        type_of(sc, *a) is Error || crate::representation::kind_of_alloc(type_of(sc, *a), sc.defs()) is Heap,
{
}

proof fn lemma_params_in_order(sc: Sc, ps: Seq<Param>, i: int, acc: Seq<PSig>, d: Seq<Diag>)
    requires
        0 <= i <= ps.len(),
    ensures
        ({
            let r = params_from(sc, ps, i, acc, d).0;
            &&& r.len() == acc.len() + ps.len() - i
            &&& forall|k: int| #![trigger r[k]] 0 <= k < acc.len() ==> r[k] == acc[k]
            &&& forall|k: int|
                #![trigger ps[k]]
                i <= k < ps.len() ==> r[acc.len() + k - i] == (PSig {
                    name: ps[k].name.name@,
                    mutable: ps[k].mutable,
                    variadic: ps[k].variadic,
                    ty: type_of(sc, ps[k].ty),
                })
        }),
    decreases ps.len() - i,
{
    if i < ps.len() {
        let (ty, d1) = lowered(sc, ps[i].ty, d);
        law_types_do_not_depend_on_errors(sc, ps[i].ty, Seq::empty(), d);
        let p = PSig { name: ps[i].name.name@, mutable: ps[i].mutable, variadic: ps[i].variadic, ty };
        lemma_params_in_order(sc, ps, i + 1, acc.push(p), d1);
        let r = params_from(sc, ps, i, acc, d).0;
        assert(r[acc.len() as int] == acc.push(p)[acc.len() as int]);
        assert forall|k: int| #![trigger r[k]] 0 <= k < acc.len() implies r[k] == acc[k] by {
            assert(acc.push(p)[k] == acc[k]);
        }
    }
}

/// Whether bounds are what the syntaxes denote, in order, without those that name
/// no trait.
pub open spec fn bounds_denoted(sc: Sc, bs: Seq<Bound>, ts: Seq<TypeExpr>, n: nat) -> bool
    decreases n,
{
    if n == 0 || n > ts.len() {
        bs.len() == 0
    } else {
        match named_def(sc, ts[n - 1]) {
            Some(id) if sc.defs().kind_of(id) is Trait && (ts[n - 1] matches TypeExpr::Named { generics, .. }
                && generics@.len() == sc.trait_arity(id)) => {
                &&& bs.len() > 0
                &&& bs.last().trait_id == id
                &&& ts[n - 1] matches TypeExpr::Named { generics, .. } && denoted(sc, bs.last().args, generics@)
                &&& bounds_denoted(sc, bs.drop_last(), ts, (n - 1) as nat)
            },
            _ => bounds_denoted(sc, bs, ts, (n - 1) as nat),
        }
    }
}

/// A bound is the trait that its syntax names, with the arguments that are written,
/// if there is one for each of the trait's parameters.
pub proof fn law_bounds_name_traits(sc: Sc, t: TypeExpr, d: Seq<Diag>)
    ensures
        match lowered_bound(sc, t, d).0 {
            Some(b) => named_def(sc, t) == Some(b.trait_id) && sc.defs().kind_of(b.trait_id) is Trait && (t
                matches TypeExpr::Named { generics, .. } && generics@.len() == sc.trait_arity(b.trait_id) && denoted(
                sc,
                b.args,
                generics@,
            )),
            None => match named_def(sc, t) {
                Some(id) => lowered_bound(sc, t, d).1.len() > d.len() && (sc.defs().kind_of(id) is Trait ==> (t
                    matches TypeExpr::Named { generics, .. } && generics@.len() != sc.trait_arity(id))),
                None => true,
            },
        },
{
    if let TypeExpr::Named { path: _, generics, span: _ } = t {
        lemma_lowered_in_order(sc, generics@, 0, Seq::empty(), d);
    }
}

proof fn lemma_bounded_in_order(sc: Sc, gs: Seq<GenericParam>, i: int, acc: Seq<(Seq<char>, Seq<Bound>)>, d: Seq<Diag>)
    requires
        0 <= i <= gs.len(),
    ensures
        ({
            let r = bounded_params_from(sc, gs, i, acc, d).0;
            &&& r.len() == acc.len() + gs.len() - i
            &&& forall|k: int| #![trigger r[k]] 0 <= k < acc.len() ==> r[k] == acc[k]
            &&& forall|k: int|
                #![trigger gs[k]]
                i <= k < gs.len() ==> r[acc.len() + k - i].0 == gs[k].name.name@ && exists|at: Seq<Diag>|
                    #![trigger lowered_bounds(sc, gs[k].bounds@, 0, Seq::empty(), at)]
                    r[acc.len() + k - i].1 == lowered_bounds(sc, gs[k].bounds@, 0, Seq::empty(), at).0
        }),
    decreases gs.len() - i,
{
    if i < gs.len() {
        let (bounds, d1) = lowered_bounds(sc, gs[i].bounds@, 0, Seq::empty(), d);
        let x = (gs[i].name.name@, bounds);
        lemma_bounded_in_order(sc, gs, i + 1, acc.push(x), d1);
        let r = bounded_params_from(sc, gs, i, acc, d).0;
        assert(r[acc.len() as int] == acc.push(x)[acc.len() as int]);
        assert forall|k: int| #![trigger r[k]] 0 <= k < acc.len() implies r[k] == acc[k] by {
            assert(acc.push(x)[k] == acc[k]);
        }
    }
}

/// A function's signature is what its declaration says: the receiver, the
/// parameters in order with their names, types and mutability, the result, which
/// without one is `()`, the generic parameters in order, and how it may be called.
pub proof fn law_signatures_are_as_declared(sc: Sc, f: FnDecl, d: Seq<Diag>, k: int, g: int)
    ensures
        ({
            let sig = signature_of(sc, f, d).0;
            &&& sig.self_param == f.self_param
            &&& sig.is_async == f.is_async
            &&& sig.is_unsafe == f.is_unsafe
            &&& sig.is_foreign == f.is_foreign
            &&& sig.visibility == f.visibility
            &&& sig.file == f.span.file
            &&& sig.params.len() == f.params@.len()
            &&& 0 <= k < sig.params.len() ==> sig.params[k] == (PSig {
                name: f.params@[k].name.name@,
                mutable: f.params@[k].mutable,
                variadic: f.params@[k].variadic,
                ty: type_of(sc, f.params@[k].ty),
            })
            &&& match f.ret {
                Some(t) => sig.ret == type_of(sc, t),
                None => sig.ret matches Ty::Tuple(items) && items.len() == 0,
            }
            &&& sig.generics.len() == f.generics@.len() + if f.params@.len() > 0 && f.params@.last().variadic {
                1nat
            } else {
                0nat
            }
            &&& 0 <= g < f.generics@.len() ==> sig.generics[g].0 == f.generics@[g].name.name@
        }),
{
    let (consts, d1) = const_params_from(sc, f.generics@, 0, Map::empty(), d);
    let (generics, d2) = bounded_params_from(sc, f.generics@, 0, Seq::empty(), d1);
    lemma_bounded_in_order(sc, f.generics@, 0, Seq::empty(), d1);
    lemma_params_in_order(sc, f.params@, 0, Seq::empty(), d2);
    let (params, d3) = params_from(sc, f.params@, 0, Seq::empty(), d2);
    if let Some(t) = f.ret {
        law_types_do_not_depend_on_errors(sc, t, Seq::empty(), d3);
    }
    if 0 <= k < f.params@.len() {
        assert(f.params@[k] == f.params@[k]);
    }
    if 0 <= g < f.generics@.len() {
        assert(f.generics@[g] == f.generics@[g]);
    }
}

proof fn lemma_fields_in_order(sc: Sc, fs: Seq<FieldDecl>, i: int, acc: Seq<(Seq<char>, Ty)>, d: Seq<Diag>)
    requires
        0 <= i <= fs.len(),
    ensures
        ({
            let r = fields_from(sc, fs, i, acc, d).0;
            &&& r.len() == acc.len() + fs.len() - i
            &&& forall|k: int| #![trigger r[k]] 0 <= k < acc.len() ==> r[k] == acc[k]
            &&& forall|k: int|
                #![trigger fs[k]]
                i <= k < fs.len() ==> r[acc.len() + k - i] == (fs[k].name.name@, type_of(sc, fs[k].ty))
        }),
    decreases fs.len() - i,
{
    if i < fs.len() {
        let (t, d1) = lowered(sc, fs[i].ty, d);
        law_types_do_not_depend_on_errors(sc, fs[i].ty, Seq::empty(), d);
        let x = (fs[i].name.name@, t);
        lemma_fields_in_order(sc, fs, i + 1, acc.push(x), d1);
        let r = fields_from(sc, fs, i, acc, d).0;
        assert(r[acc.len() as int] == acc.push(x)[acc.len() as int]);
        assert forall|k: int| #![trigger r[k]] 0 <= k < acc.len() implies r[k] == acc[k] by {
            assert(acc.push(x)[k] == acc[k]);
        }
    }
}

/// A type's shape has the fields that are declared, in order, with their names and
/// types.
pub proof fn law_shapes_are_as_declared(sc: Sc, kind: StructDeclKind, d: Seq<Diag>)
    ensures
        match kind {
            StructDeclKind::Unit => shape_of(sc, kind, d).0 is Unit,
            StructDeclKind::TupleStruct(ts) => shape_of(sc, kind, d).0 matches Shape::TupleStruct(us) && denoted(
                sc,
                us,
                ts@,
            ),
            StructDeclKind::Struct(fs) => shape_of(sc, kind, d).0 matches Shape::Struct(us) && us.len() == fs@.len()
                && forall|k: int|
                #![trigger us[k]]
                0 <= k < us.len() ==> us[k] == (fs@[k].name.name@, type_of(sc, fs@[k].ty)),
        },
{
    match kind {
        StructDeclKind::TupleStruct(ts) => lemma_lowered_in_order(sc, ts@, 0, Seq::empty(), d),
        StructDeclKind::Struct(fs) => lemma_fields_in_order(sc, fs@, 0, Seq::empty(), d),
        _ => {},
    }
}

proof fn lemma_variants_in_order(sc: Sc, vs: Seq<EnumVariant>, i: int, acc: Seq<(Seq<char>, Seq<Ty>)>, d: Seq<Diag>)
    requires
        0 <= i <= vs.len(),
    ensures
        ({
            let r = variants_from(sc, vs, i, acc, d).0;
            &&& r.len() == acc.len() + vs.len() - i
            &&& forall|k: int| #![trigger r[k]] 0 <= k < acc.len() ==> r[k] == acc[k]
            &&& forall|k: int|
                #![trigger vs[k]]
                i <= k < vs.len() ==> r[acc.len() + k - i].0 == vs[k].name.name@ && denoted(
                    sc,
                    r[acc.len() + k - i].1,
                    vs[k].payload@,
                )
        }),
    decreases vs.len() - i,
{
    if i < vs.len() {
        let (payload, d1) = lowered_all(sc, vs[i].payload@, 0, Seq::empty(), d);
        lemma_lowered_in_order(sc, vs[i].payload@, 0, Seq::empty(), d);
        let x = (vs[i].name.name@, payload);
        assert(denoted(sc, payload, vs[i].payload@));
        lemma_variants_in_order(sc, vs, i + 1, acc.push(x), d1);
        let r = variants_from(sc, vs, i, acc, d).0;
        assert(r[acc.len() as int] == acc.push(x)[acc.len() as int]);
        assert forall|k: int| #![trigger r[k]] 0 <= k < acc.len() implies r[k] == acc[k] by {
            assert(acc.push(x)[k] == acc[k]);
        }
    }
}

/// An enum's variants are those that are declared, in order, with their names and
/// payload types.
pub proof fn law_variants_are_as_declared(sc: Sc, vs: Seq<EnumVariant>, d: Seq<Diag>, k: int)
    requires
        0 <= k < vs.len(),
    ensures
        ({
            let r = variants_from(sc, vs, 0, Seq::empty(), d).0;
            &&& r.len() == vs.len()
            &&& r[k].0 == vs[k].name.name@
            &&& denoted(sc, r[k].1, vs[k].payload@)
        }),
{
    lemma_variants_in_order(sc, vs, 0, Seq::empty(), d);
    assert(vs[k] == vs[k]);
}

/// A const parameter that is accepted has an integer type, and that is its type.
pub proof fn law_const_parameters_are_integers(sc: Sc, gs: Seq<GenericParam>, i: int, acc: Subst, d: Seq<Diag>, k: int)
    requires
        0 <= i <= k < gs.len(),
        gs[k].const_ty is Some,
    ensures
        const_params_from(sc, gs, i, acc, d).0.contains_key(gs[k].name.name@),
        const_params_from(sc, gs, i, acc, d).1.len() >= d.len(),
        const_params_from(sc, gs, i, acc, d).1.len() == d.len() ==> crate::check::typing::is_whole(
            type_of(sc, gs[k].const_ty->Some_0),
        ),
    decreases gs.len() - i,
{
    lemma_const_params(sc, gs, i, acc, d);
    match gs[i].const_ty {
        None => law_const_parameters_are_integers(sc, gs, i + 1, acc, d, k),
        Some(syntax) => {
            let (t, d1) = lowered(sc, syntax, d);
            law_types_do_not_depend_on_errors(sc, syntax, Seq::empty(), d);
            let d2 = if crate::declarations::ty_integer(t) {
                d1
            } else {
                d1.push(
                    diag(
                        "a const generic parameter must have an integer type"@,
                        crate::ast::type_span(syntax),
                        "not an integer type"@,
                    ),
                )
            };
            lemma_const_params(sc, gs, i + 1, acc.insert(gs[i].name.name@, t), d2);
            if i < k {
                law_const_parameters_are_integers(sc, gs, i + 1, acc.insert(gs[i].name.name@, t), d2, k);
            }
        },
    }
}

proof fn lemma_const_params(sc: Sc, gs: Seq<GenericParam>, i: int, acc: Subst, d: Seq<Diag>)
    ensures
        const_params_from(sc, gs, i, acc, d).1.len() >= d.len(),
        forall|n: Seq<char>|
            #![trigger const_params_from(sc, gs, i, acc, d).0.contains_key(n)]
            acc.contains_key(n) ==> const_params_from(sc, gs, i, acc, d).0.contains_key(n),
    decreases gs.len() - i,
{
    if 0 <= i < gs.len() {
        match gs[i].const_ty {
            None => lemma_const_params(sc, gs, i + 1, acc, d),
            Some(syntax) => {
                let (t, d1) = lowered(sc, syntax, d);
                law_types_do_not_depend_on_errors(sc, syntax, Seq::empty(), d);
                let d2 = if crate::declarations::ty_integer(t) {
                    d1
                } else {
                    d1.push(
                        diag(
                            "a const generic parameter must have an integer type"@,
                            crate::ast::type_span(syntax),
                            "not an integer type"@,
                        ),
                    )
                };
                lemma_const_params(sc, gs, i + 1, acc.insert(gs[i].name.name@, t), d2);
            },
        }
    }
}

/// A foreign function is accepted exactly if it is not generic and takes only
/// primitive values and raw pointers, or what was already reported.
pub proof fn law_foreign_functions_take_plain_values(sc: Sc, f: FnDecl, sig: Sig, d: Seq<Diag>)
    requires
        f.is_foreign,
        f.params@.len() == sig.params.len(),
    ensures
        foreign_errors(sc, f, sig, d).len() == d.len() <==> f.generics@.len() == 0 && forall|k: int|
            #![trigger sig.params[k]]
            0 <= k < sig.params.len() ==> sig.params[k].ty is Primitive || sig.params[k].ty is RawConstPtr
                || sig.params[k].ty is RawMutPtr || sig.params[k].ty is Error,
{
    let d1 = if f.generics@.len() > 0 {
        d.push(diag("an `extern` function cannot be generic"@, f.name.span, "declared generic here"@))
    } else {
        d
    };
    lemma_foreign_params(sc, f, sig, 0, d1);
}

proof fn lemma_foreign_params(sc: Sc, f: FnDecl, sig: Sig, i: int, d: Seq<Diag>)
    requires
        0 <= i,
        f.params@.len() == sig.params.len(),
    ensures
        foreign_param_errors(sc, f, sig, i, d).len() >= d.len(),
        foreign_param_errors(sc, f, sig, i, d).len() == d.len() <==> forall|k: int|
            #![trigger sig.params[k]]
            i <= k < sig.params.len() ==> sig.params[k].ty is Primitive || sig.params[k].ty is RawConstPtr
                || sig.params[k].ty is RawMutPtr || sig.params[k].ty is Error,
    decreases sig.params.len() - i,
{
    if i < sig.params.len() {
        let d1 = if crate::declarations::foreign_safe(sig.params[i].ty) {
            d
        } else {
            d.push(
                diag(
                    "`"@ + crate::describe::shown(sig.params[i].ty, sc.defs())
                        + "` is not a valid `extern \"C\"` parameter type"@,
                    crate::ast::type_span(f.params@[i].ty),
                    "use a primitive or a raw pointer"@,
                ),
            )
        };
        lemma_foreign_params(sc, f, sig, i + 1, d1);
    }
}

// ---------------------------------------------------------------------
// Bounds
// ---------------------------------------------------------------------

proof fn lemma_bounds_denoted(sc: Sc, ts: Seq<TypeExpr>, i: int, acc: Seq<Bound>, d: Seq<Diag>)
    requires
        0 <= i <= ts.len(),
        bounds_denoted(sc, acc, ts, i as nat),
    ensures
        bounds_denoted(sc, lowered_bounds(sc, ts, i, acc, d).0, ts, ts.len()),
    decreases ts.len() - i,
{
    if i < ts.len() {
        law_bounds_name_traits(sc, ts[i], d);
        let (b, d1) = lowered_bound(sc, ts[i], d);
        let acc1 = match b {
            Some(bound) => acc.push(bound),
            None => acc,
        };
        if b is Some {
            assert(acc1.drop_last() =~= acc);
        }
        lemma_bounds_denoted(sc, ts, i + 1, acc1, d1);
    }
}

/// The bounds of a parameter are those that are written, in order, but for those
/// that name no trait or have the wrong number of arguments.
pub proof fn law_bounds_are_as_written(sc: Sc, ts: Seq<TypeExpr>, d: Seq<Diag>)
    ensures
        bounds_denoted(sc, lowered_bounds(sc, ts, 0, Seq::empty(), d).0, ts, ts.len()),
{
    lemma_bounds_denoted(sc, ts, 0, Seq::empty(), d);
}

// ---------------------------------------------------------------------
// Names
// ---------------------------------------------------------------------

/// Whether a name is one of a built-in type.
pub open spec fn is_built_in(name: Seq<char>) -> bool {
    name == "String"@ || name == "Array"@ || crate::ty::prim_of_name(name) is Some
}

/// A declared enum or struct with arguments denotes that type with the arguments
/// that are written, exactly if there is one for each parameter; otherwise it is
/// reported. A trait is no type.
pub proof fn law_named_types(sc: Sc, id: DefId, path: Path, generics: Seq<TypeExpr>, d: Seq<Diag>)
    requires
        !is_built_in(sc.name(id)),
    ensures
        ({
            let (t, d1) = lower_def(sc, id, path, generics, Seq::empty(), d);
            match sc.defs().kind_of(id) {
                DefKind::Enum => match sc.enum_decl(id) {
                    Some(decl) => if generics.len() == decl.generics@.len() {
                        t matches Ty::Enum(i, args) && i == id && denoted(sc, args, generics)
                    } else {
                        t is Error && d1.len() > d.len()
                    },
                    None => true,
                },
                DefKind::Type => match sc.struct_decl(id) {
                    Some(decl) => if generics.len() == decl.generics@.len() {
                        if decl.kind is TupleStruct {
                            t matches Ty::TupleStruct(i, args) && i == id && denoted(sc, args, generics)
                        } else {
                            t matches Ty::Struct(i, args) && i == id && denoted(sc, args, generics)
                        }
                    } else {
                        t is Error && d1.len() > d.len()
                    },
                    None => true,
                },
                DefKind::Trait => t is Error && d1.len() > d.len(),
                _ => true,
            }
        }),
{
    lemma_types_in_order(sc, generics, 0, Seq::empty(), Seq::empty(), d);
}

/// An alias denotes what it is declared to be; one that leads back to itself is
/// reported.
pub proof fn law_aliases_are_what_they_name(sc: Sc, id: DefId, path: Path, generics: Seq<TypeExpr>, seen: Seq<DefId>, d: Seq<Diag>)
    requires
        !is_built_in(sc.name(id)),
        sc.defs().kind_of(id) is TypeAlias,
        sc.alias_decl(id) is Some,
    ensures
        ({
            let (t, d1) = lower_def(sc, id, path, generics, seen, d);
            if seen.contains(id) {
                t is Error && d1.len() > d.len()
            } else {
                t == lower(sc, sc.alias_decl(id)->Some_0.ty, seen.push(id), clean()).0
            }
        }),
{
    if !seen.contains(id) {
        law_types_do_not_depend_on_errors(sc, sc.alias_decl(id)->Some_0.ty, seen.push(id), d);
    }
}

/// A generic parameter denotes itself, and a parameter with a name behind it that
/// associated type of the parameter.
pub proof fn law_parameters_denote_themselves(path: Path, generics: Seq<TypeExpr>, d: Seq<Diag>)
    ensures
        path.segments@.len() == 1 ==> lower_parameter(path, generics, d) == (Ty::Generic(path.segments@[0].name@), d),
        path.segments@.len() == 2 && generics.len() == 0 ==> lower_parameter(path, generics, d) == (
            Ty::Associated(Box::new(Ty::Generic(path.segments@[0].name@)), path.segments@[1].name@),
            d,
        ),
        path.segments@.len() > 2 ==> lower_parameter(path, generics, d).1.len() > d.len(),
{
}

// ---------------------------------------------------------------------
// Existentials
// ---------------------------------------------------------------------

/// Whether a trait's methods can be called through a value of unknown type: each
/// takes a shared receiver and is not generic, and every associated type is bound.
pub open spec fn dispatchable(t: TraitDecl) -> bool {
    &&& forall|k: int|
        #![trigger t.methods@[k]]
        0 <= k < t.methods@.len() ==> {
            &&& t.methods@[k].generics@.len() == 0
            &&& t.methods@[k].self_param == Some(crate::ids::SelfParam::ByRef) || t.methods@[k].self_param == Some(
                crate::ids::SelfParam::ByMutRef,
            )
        }
    &&& forall|k: int|
        #![trigger t.associated_types@[k]]
        0 <= k < t.associated_types@.len() ==> t.associated_types@[k].value is Some
}

proof fn lemma_dispatch_methods(t: TraitDecl, i: int, d: Seq<Diag>)
    requires
        0 <= i,
    ensures
        witness_methods_errors(t, i, d).len() >= d.len(),
        witness_methods_errors(t, i, d).len() == d.len() <==> forall|k: int|
            #![trigger t.methods@[k]]
            i <= k < t.methods@.len() ==> {
                &&& t.methods@[k].generics@.len() == 0
                &&& t.methods@[k].self_param == Some(crate::ids::SelfParam::ByRef) || t.methods@[k].self_param == Some(
                    crate::ids::SelfParam::ByMutRef,
                )
            },
    decreases t.methods@.len() - i,
{
    if i < t.methods@.len() {
        let m = t.methods@[i];
        let d1 = witness_method_errors(t.name.name@, m, d);
        assert(d1.len() == d.len() <==> m.generics@.len() == 0 && (m.self_param == Some(
            crate::ids::SelfParam::ByRef,
        ) || m.self_param == Some(crate::ids::SelfParam::ByMutRef))) by {
            match m.self_param {
                None => {},
                Some(crate::ids::SelfParam::ByRef) => {},
                Some(crate::ids::SelfParam::ByMutRef) => {},
                Some(_) => {},
            }
        }
        lemma_dispatch_methods(t, i + 1, d1);
    }
}

proof fn lemma_dispatch_types(t: TraitDecl, i: int, d: Seq<Diag>)
    requires
        0 <= i,
    ensures
        witness_types_errors(t, i, d).len() >= d.len(),
        witness_types_errors(t, i, d).len() == d.len() <==> forall|k: int|
            #![trigger t.associated_types@[k]]
            i <= k < t.associated_types@.len() ==> t.associated_types@[k].value is Some,
    decreases t.associated_types@.len() - i,
{
    if i < t.associated_types@.len() {
        let a = t.associated_types@[i];
        let d1 = if a.value is None {
            d.push(
                diag(
                    unsafe_trait(t.name.name@),
                    a.name.span,
                    "an existential associated type needs a default binding"@,
                ),
            )
        } else {
            d
        };
        lemma_dispatch_types(t, i + 1, d1);
    }
}

/// Whether the declared traits in a list can all be dispatched, but for those in
/// another list.
pub open spec fn all_dispatchable(sc: Sc, looked: Seq<DefId>, but: Seq<DefId>) -> bool {
    forall|id: DefId|
        #![trigger looked.contains(id)]
        looked.contains(id) && !but.contains(id) ==> (sc.trait_decl(id) matches Some(t) ==> dispatchable(t))
}

/// Whether every trait in one list is in another.
pub open spec fn all_kept(a: Seq<DefId>, b: Seq<DefId>) -> bool {
    forall|id: DefId| #![trigger b.contains(id)] a.contains(id) ==> b.contains(id)
}

proof fn lemma_contains_push(s: Seq<DefId>, x: DefId, y: DefId)
    ensures
        s.push(x).contains(y) <==> s.contains(y) || y == x,
{
    if s.contains(y) {
        let k = choose|k: int| 0 <= k < s.len() && s[k] == y;
        assert(s.push(x)[k] == y);
    }
    assert(s.push(x)[s.len() as int] == x);
    if s.push(x).contains(y) && y != x {
        let k = choose|k: int| 0 <= k < s.push(x).len() && s.push(x)[k] == y;
        assert(s[k] == y);
    }
}

/// Looking at a trait for an existential without an error looks at the trait itself,
/// and every trait that is looked at can be dispatched.
pub proof fn law_existentials_are_dispatchable(sc: Sc, id: DefId, seen: Seq<DefId>, d: Seq<Diag>, depth: nat)
    ensures
        ({
            let (seen1, d1) = witness_errors(sc, id, seen, d, depth);
            &&& d1.len() >= d.len()
            &&& all_kept(seen, seen1)
            &&& depth > 0 ==> seen1.contains(id)
            &&& d1.len() == d.len() ==> all_dispatchable(sc, seen1, seen)
        }),
    decreases depth, 1nat, 0int,
{
    if !seen.contains(id) && depth > 0 {
        let seen0 = seen.push(id);
        assert forall|x: DefId| #![trigger seen0.contains(x)] seen0.contains(x) <==> seen.contains(x) || x == id by {
            lemma_contains_push(seen, id, x);
        }
        match sc.trait_decl(id) {
            None => {
                assert(seen0.contains(id));
            },
            Some(t) => {
                let d1 = witness_methods_errors(t, 0, d);
                lemma_dispatch_methods(t, 0, d);
                let d2 = witness_types_errors(t, 0, d1);
                lemma_dispatch_types(t, 0, d1);
                lemma_existential_parents(sc, t.parents@, 0, seen0, d2, (depth - 1) as nat);
                let (seen1, d3) = witness_errors(sc, id, seen, d, depth);
                assert(seen0.contains(id));
                assert(seen1.contains(id));
                if d3.len() == d.len() {
                    assert(dispatchable(t));
                    assert forall|x: DefId|
                        #![trigger seen1.contains(x)]
                        seen1.contains(x) && !seen.contains(x) implies (sc.trait_decl(x) matches Some(u) ==> dispatchable(
                        u,
                    )) by {
                        assert(seen0.contains(x) <==> seen.contains(x) || x == id);
                    }
                }
                assert forall|x: DefId| #![trigger seen1.contains(x)] seen.contains(x) implies seen1.contains(x) by {
                    assert(seen0.contains(x));
                }
            },
        }
    }
}

proof fn lemma_existential_parents(sc: Sc, parents: Seq<TypeExpr>, i: int, seen: Seq<DefId>, d: Seq<Diag>, depth: nat)
    ensures
        ({
            let (seen1, d1) = witness_parents(sc, parents, i, seen, d, depth);
            &&& d1.len() >= d.len()
            &&& all_kept(seen, seen1)
            &&& d1.len() == d.len() ==> all_dispatchable(sc, seen1, seen)
            &&& depth > 0 && 0 <= i ==> forall|k: int|
                #![trigger parents[k]]
                i <= k < parents.len() ==> (named_def(sc, parents[k]) matches Some(parent) ==> seen1.contains(parent))
        }),
    decreases depth, 2nat, parents.len() - i,
{
    if 0 <= i < parents.len() {
        match named_def(sc, parents[i]) {
            Some(id) => {
                law_existentials_are_dispatchable(sc, id, seen, d, depth);
                let (seen1, d1) = witness_errors(sc, id, seen, d, depth);
                lemma_existential_parents(sc, parents, i + 1, seen1, d1, depth);
                let (seen2, d2) = witness_parents(sc, parents, i + 1, seen1, d1, depth);
                assert forall|x: DefId| #![trigger seen2.contains(x)] seen.contains(x) implies seen2.contains(x) by {
                    assert(seen1.contains(x));
                }
                if d2.len() == d.len() {
                    assert forall|x: DefId|
                        #![trigger seen2.contains(x)]
                        seen2.contains(x) && !seen.contains(x) implies (sc.trait_decl(x) matches Some(u) ==> dispatchable(
                        u,
                    )) by {
                        if seen1.contains(x) {
                        }
                    }
                }
            },
            None => {
                lemma_existential_parents(sc, parents, i + 1, seen, d, depth);
            },
        }
    }
}

/// An existential type without an error names a trait that can be dispatched, with
/// an argument for each of its parameters.
pub proof fn law_existential_types(sc: Sc, t: TypeExpr, span: Span, opaque: bool, d: Seq<Diag>)
    requires
        lower_existential(sc, t, span, opaque, Seq::empty(), d).1.len() == d.len(),
        !(lower_existential(sc, t, span, opaque, Seq::empty(), d).0 is Error),
    ensures
        ({
            let r = lower_existential(sc, t, span, opaque, Seq::empty(), d).0;
            t matches TypeExpr::Named { path: _, generics, span: _ } && (named_def(sc, t) matches Some(id) && {
                &&& sc.defs().kind_of(id) is Trait
                &&& sc.trait_decl(id) matches Some(decl) ==> dispatchable(decl) && generics@.len()
                    == decl.generics@.len()
                &&& match r {
                    Ty::Any(i, args) => !opaque && i == id && denoted(sc, args, generics@),
                    Ty::Opaque(i, args) => opaque && i == id && denoted(sc, args, generics@),
                    _ => false,
                }
            })
        }),
{
    if let TypeExpr::Named { path, generics, span: _ } = t {
        if let Some(res) = sc.names.path(path.id) {
            if let Resolution::Def(id) = res.base {
                let n = (sc.decls.traits.len() + 1) as nat;
                law_existentials_are_dispatchable(sc, id, Seq::empty(), d, n);
                let (seen1, d1) = witness_errors(sc, id, Seq::empty(), d, n);
                lemma_all(sc, generics@, 0, Seq::empty(), Seq::empty(), d1);
                lemma_types_in_order(sc, generics@, 0, Seq::empty(), Seq::empty(), d1);
                assert(seen1.contains(id));
            }
        }
    }
}

// ---------------------------------------------------------------------
// Declared types
// ---------------------------------------------------------------------

proof fn lemma_visibilities(
    id: DefId,
    fs: Seq<FieldDecl>,
    i: int,
    m: Map<(DefId, Seq<char>), crate::ids::Visibility>,
    k: int,
)
    requires
        0 <= i,
        0 <= k < fs.len(),
        forall|j: int| #![trigger fs[j]] k < j < fs.len() ==> fs[j].name.name@ != fs[k].name.name@,
        i > k ==> m.get((id, fs[k].name.name@)) == Some(fs[k].visibility),
    ensures
        crate::declarations::visibilities_from(id, fs, i, m).get((id, fs[k].name.name@)) == Some(fs[k].visibility),
    decreases fs.len() - i,
{
    if i < fs.len() {
        assert(i > k ==> fs[i].name.name@ != fs[k].name.name@);
        lemma_visibilities(id, fs, i + 1, m.insert((id, fs[i].name.name@), fs[i].visibility), k);
    }
}

/// A declared struct is known by its parameters' names, in order, by its shape, and by the
/// visibility of its fields; no other type is changed.
pub proof fn law_structs_are_known(sc: Sc, id: DefId, s: Sigs, d: Seq<Diag>, t: crate::ast::StructDecl, k: int, other: DefId)
    requires
        sc.struct_decl(id) == Some(t),
    ensures
        ({
            let out = with_type(sc, id, s, d).0;
            &&& out.generics_of(id).len() == t.generics@.len()
            &&& 0 <= k < t.generics@.len() ==> out.generics_of(id)[k] == t.generics@[k].name.name@
            &&& out.type_shapes.contains_key(id)
            &&& match t.kind {
                StructDeclKind::Unit => out.type_shapes[id] is Unit,
                StructDeclKind::TupleStruct(ts) => out.type_shapes[id] matches Shape::TupleStruct(us) && denoted(
                    sc,
                    us,
                    ts@,
                ),
                StructDeclKind::Struct(fs) => out.type_shapes[id] matches Shape::Struct(us) && us.len() == fs@.len()
                    && forall|j: int|
                    #![trigger us[j]]
                    0 <= j < us.len() ==> us[j] == (fs@[j].name.name@, type_of(sc, fs@[j].ty)),
            }
            &&& t.kind matches StructDeclKind::Struct(fs) ==> (0 <= k < fs@.len() && (forall|j: int|
                #![trigger fs@[j]]
                k < j < fs@.len() ==> fs@[j].name.name@ != fs@[k].name.name@) ==> out.field_visibility.get(
                (id, fs@[k].name.name@),
            ) == Some(fs@[k].visibility))
            &&& other != id ==> out.type_shapes.get(other) == s.type_shapes.get(other) && out.type_generics.get(other)
                == s.type_generics.get(other)
        }),
{
    let (consts, d1) = const_params_from(sc, t.generics@, 0, Map::empty(), d);
    let (bounds, d2) = crate::declarations::bounds_from(sc, t.generics@, 0, Seq::empty(), d1);
    law_shapes_are_as_declared(sc, t.kind, d2);
    if let StructDeclKind::Struct(fs) = t.kind {
        if 0 <= k < fs@.len() && (forall|j: int|
            #![trigger fs@[j]]
            k < j < fs@.len() ==> fs@[j].name.name@ != fs@[k].name.name@) {
            lemma_visibilities(id, fs@, 0, s.field_visibility, k);
        }
    }
}

} // verus!
