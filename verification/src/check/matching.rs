//! What a pattern matches that is checked without an error, and what is made of the
//! type of an expression.
use crate::ast::{Literal, Pattern};
use crate::check::facts::{
    all_validated, arg_bounds_checked, args_bounds_checked, const_arg_checked, const_args_checked, into_string,
    nominal_checked, satisfied, validated,
};
use crate::check::growth::{
    group_grows, group_steps, grows, lemma_one_error, step_all_validated, step_arg_bounds, step_args_bounds,
    step_const_args, step_patterns,
};
use crate::check::patterns::{pattern, patterns, variant_pattern, PatSt};
use crate::check::rules::{packed, settled};
use crate::check::state::{Env, St};
use crate::check::typing::no_error;
use crate::ids::{DefId, NodeId, Span};
use crate::names::Resolution;
use crate::rules::{bound_subst, normal};
use crate::sig::Bound;
use crate::subst::{in_context, subst, zip_subst, Subst};
use crate::ty::{has_error, PrimitiveKind, Ty};
use vstd::prelude::*;

verus! {

broadcast use {group_grows, group_steps, lemma_one_error};

// ---------------------------------------------------------------------
// Patterns
// ---------------------------------------------------------------------

/// A tuple pattern is checked without an error exactly against a tuple of as many
/// items, or a value that was already reported, if its inner patterns are, each
/// against the item in its place.
pub proof fn law_tuple_patterns_match_tuples(e: Env, ps: PatSt, elems: Vec<Pattern>, span: Span, t: Ty, top: bool)
    requires
        !ps.st.silent,
    ensures
        ({
            let after = pattern(e, ps, Pattern::Tuple(elems, span), t, top);
            match t {
                Ty::Tuple(ts) => no_error(ps.st, after.st) <==> ts.len() == elems@.len() && no_error(
                    ps.st,
                    patterns(e, ps, elems@, ts, 0).st,
                ),
                Ty::Error => after == patterns(e, ps, elems@, Seq::empty(), 0),
                _ => !no_error(ps.st, after.st),
            }
        }),
{
    let ts = match t {
        Ty::Tuple(ts) => ts,
        _ => Seq::empty(),
    };
    step_patterns(e, ps, elems@, ts, 0);
    let wrong = PatSt {
        st: ps.st.fail_if(
            ts.len() != elems@.len(),
            span,
            "tuple pattern has "@ + crate::text::decimal(elems@.len()) + " element(s), but the scrutinee has "@
                + crate::text::decimal(ts.len()),
        ),
        ..ps
    };
    step_patterns(e, wrong, elems@, ts, 0);
    let other = PatSt {
        st: ps.st.fail(span, "tuple pattern requires a tuple, found `"@ + crate::describe::shown(t, e.sc.defs()) + "`"@),
        ..ps
    };
    step_patterns(e, other, elems@, Seq::empty(), 0);
}

/// Inner patterns are checked without an error exactly if the first one is, against
/// the type in its place, and the others are after it.
pub proof fn law_inner_patterns_in_order(e: Env, ps: PatSt, qs: Seq<Pattern>, ts: Seq<Ty>, i: int)
    requires
        0 <= i < qs.len(),
        i < ts.len(),
    ensures
        ({
            let first = pattern(e, ps, qs[i], ts[i], false);
            let after = patterns(e, ps, qs, ts, i);
            &&& after == patterns(e, first, qs, ts, i + 1)
            &&& no_error(ps.st, after.st) <==> no_error(ps.st, first.st) && no_error(first.st, after.st)
        }),
{
    let first = pattern(e, ps, qs[i], ts[i], false);
    assert(grows(ps.st, first.st));
    step_patterns(e, first, qs, ts, i + 1);
}

/// A literal pattern is checked without an error exactly against a value that the
/// literal can be, or one that was already reported.
pub proof fn law_literal_patterns_match_their_types(e: Env, ps: PatSt, l: Literal, span: Span, t: Ty, top: bool)
    requires
        !ps.st.silent,
    ensures
        ({
            let after = pattern(e, ps, Pattern::Literal(l, span), t, top);
            no_error(ps.st, after.st) <==> t is Error || match l {
                Literal::Int => crate::check::typing::is_whole(t),
                Literal::Float => t == Ty::Primitive(PrimitiveKind::F32) || t == Ty::Primitive(PrimitiveKind::F64),
                Literal::Bool => t == Ty::Primitive(PrimitiveKind::Bool),
                Literal::Char => t == Ty::Primitive(PrimitiveKind::Char),
                Literal::Str => t is String,
            }
        }),
{
}

/// A name in a pattern binds what it stands for: the local has the value's type and
/// cannot be changed, and is there even if one of its name was moved before. At the
/// top of an arm a name matches everything.
pub proof fn law_bound_names_are_the_value(e: Env, ps: PatSt, id: NodeId, ident: crate::ast::Ident, t: Ty, top: bool)
    requires
        e.sc.names.local(id) is Some,
    ensures
        ({
            let after = pattern(e, ps, Pattern::Binding(id, ident), t, top);
            let local = e.sc.names.local(id)->Some_0;
            &&& after.st.locals == ps.st.locals.insert(local, (t, false))
            &&& after.st.moved == ps.st.moved.remove(local)
            &&& after.st.local_types == ps.st.local_types.insert(id, t)
            &&& after.st.diags == ps.st.diags
            &&& after.catch_all == (ps.catch_all || top)
            &&& after.covered == ps.covered
        }),
{
    reveal(St::bound);
}

/// A variant pattern is checked without an error exactly against a value of the
/// variant's enum, or one that was already reported, with a pattern for every part
/// of the payload, each checked against the part's type with the enum's arguments
/// put in.
pub proof fn law_variant_patterns_match_their_enum(
    e: Env,
    ps: PatSt,
    span: Span,
    enum_id: DefId,
    variant: u32,
    payload: Seq<Pattern>,
    t: Ty,
    top: bool,
)
    requires
        !ps.st.silent,
        e.sigs.enum_sigs.contains_key(enum_id),
        variant < e.sigs.enum_sigs[enum_id].variants.len(),
    ensures
        ({
            let after = variant_pattern(e, ps, span, enum_id, variant, payload, t, top);
            let sig = e.sigs.enum_sigs[enum_id];
            let declared = sig.variants[variant as int].1;
            match t {
                Ty::Enum(id, args) if id == enum_id => {
                    let ts = Seq::new(declared.len(), |k: int| subst(declared[k], zip_subst(sig.generics, args)));
                    &&& no_error(ps.st, after.st) <==> payload.len() == declared.len() && no_error(
                        ps.st,
                        patterns(
                            e,
                            PatSt {
                                covered: if top {
                                    crate::datum::push_new(ps.covered, variant)
                                } else {
                                    ps.covered
                                },
                                ..ps
                            },
                            payload,
                            ts,
                            0,
                        ).st,
                    )
                },
                Ty::Error => no_error(ps.st, after.st) ==> payload.len() == declared.len(),
                _ => !no_error(ps.st, after.st),
            }
        }),
{
    let sig = e.sigs.enum_sigs[enum_id];
    let declared = sig.variants[variant as int].1;
    let same = crate::check::patterns::is_enum(t, enum_id);
    let ps1 = if !same {
        PatSt {
            st: ps.st.fail_if(
                !(t is Error),
                span,
                "variant pattern from enum `"@ + e.sc.name(enum_id) + "` cannot match `"@
                    + crate::describe::shown(t, e.sc.defs()) + "`"@,
            ),
            ..ps
        }
    } else if top {
        PatSt { covered: crate::datum::push_new(ps.covered, variant), ..ps }
    } else {
        ps
    };
    let arity = crate::check::patterns::variant_arity(e, enum_id, variant);
    let ps2 = PatSt {
        st: ps1.st.fail_if(
            payload.len() != arity,
            span,
            "variant pattern expects "@ + crate::text::decimal(arity) + " payload field(s), found "@
                + crate::text::decimal(payload.len()),
        ),
        ..ps1
    };
    assert(grows(ps.st, ps1.st) && grows(ps1.st, ps2.st));
    match t {
        Ty::Enum(id, args) if id == enum_id => {
            let ts = Seq::new(declared.len(), |k: int| subst(declared[k], zip_subst(sig.generics, args)));
            assert(crate::subst::substs(declared, zip_subst(sig.generics, args)) =~= ts);
            step_patterns(e, ps2, payload, ts, 0);
            step_patterns(e, ps1, payload, ts, 0);
        },
        _ => {
            step_patterns(e, ps2, payload, Seq::empty(), 0);
        },
    }
}

/// A variant pattern at the top of an arm covers its variant, and nothing else.
pub proof fn law_variant_patterns_cover_their_variant(
    e: Env,
    ps: PatSt,
    span: Span,
    enum_id: DefId,
    variant: u32,
    payload: Seq<Pattern>,
    t: Ty,
    top: bool,
    other: u32,
)
    ensures
        ({
            let after = variant_pattern(e, ps, span, enum_id, variant, payload, t, top);
            &&& after.catch_all == ps.catch_all
            &&& after.covered.contains(other) <==> ps.covered.contains(other) || (other == variant && top && (t
                matches Ty::Enum(id, _) && id == enum_id))
        }),
{
    let same = crate::check::patterns::is_enum(t, enum_id);
    let ps1 = if !same {
        PatSt {
            st: ps.st.fail_if(
                !(t is Error),
                span,
                "variant pattern from enum `"@ + e.sc.name(enum_id) + "` cannot match `"@
                    + crate::describe::shown(t, e.sc.defs()) + "`"@,
            ),
            ..ps
        }
    } else if top {
        PatSt { covered: crate::datum::push_new(ps.covered, variant), ..ps }
    } else {
        ps
    };
    let arity = crate::check::patterns::variant_arity(e, enum_id, variant);
    let ps2 = PatSt {
        st: ps1.st.fail_if(
            payload.len() != arity,
            span,
            "variant pattern expects "@ + crate::text::decimal(arity) + " payload field(s), found "@
                + crate::text::decimal(payload.len()),
        ),
        ..ps1
    };
    let ts = if same {
        match crate::rules::payload_of(e.sigs, t, variant as int) {
            Some(ts) => ts,
            None => Seq::empty(),
        }
    } else {
        Seq::empty()
    };
    lemma_inner_patterns(e, ps2, payload, ts, 0);
    if same && top && !ps.covered.contains(variant) {
        let pushed = ps.covered.push(variant);
        assert(pushed[ps.covered.len() as int] == variant);
        if ps.covered.contains(other) {
            let k = choose|k: int| 0 <= k < ps.covered.len() && ps.covered[k] == other;
            assert(pushed[k] == other);
        }
    }
}

/// What stands inside another pattern covers nothing of its own: neither a variant
/// nor everything.
pub proof fn law_inner_patterns_cover_nothing(e: Env, ps: PatSt, p: Pattern, t: Ty)
    ensures
        pattern(e, ps, p, t, false).covered == ps.covered,
        pattern(e, ps, p, t, false).catch_all == ps.catch_all,
    decreases crate::ast::pattern_size(p), 1nat,
{
    match p {
        Pattern::Wildcard(_) => {},
        Pattern::Binding(id, _) => {
            if let Some(res) = e.sc.names.path(id) {
                if let Resolution::EnumVariant(enum_id, idx) = res.base {
                    lemma_inner_variant(e, ps, crate::ast::pattern_span(p), enum_id, idx, Seq::empty(), t);
                }
            }
        },
        Pattern::Literal(_, _) => {},
        Pattern::Tuple(elems, span) => {
            let (st, ts) = match t {
                Ty::Tuple(ts) => (
                    ps.st.fail_if(
                        ts.len() != elems@.len(),
                        span,
                        "tuple pattern has "@ + crate::text::decimal(elems@.len())
                            + " element(s), but the scrutinee has "@ + crate::text::decimal(ts.len()),
                    ),
                    ts,
                ),
                Ty::Error => (ps.st, Seq::empty()),
                _ => (
                    ps.st.fail(
                        span,
                        "tuple pattern requires a tuple, found `"@ + crate::describe::shown(t, e.sc.defs()) + "`"@,
                    ),
                    Seq::empty(),
                ),
            };
            lemma_inner_patterns(e, PatSt { st, ..ps }, elems@, ts, 0);
        },
        Pattern::Variant { path, payload, span: _ } => {
            if let Some(res) = e.sc.names.path(path.id) {
                if let Resolution::EnumVariant(enum_id, idx) = res.base {
                    lemma_inner_variant(e, ps, crate::ast::pattern_span(p), enum_id, idx, payload@, t);
                }
            }
        },
    }
}

proof fn lemma_inner_patterns(e: Env, ps: PatSt, qs: Seq<Pattern>, ts: Seq<Ty>, i: int)
    ensures
        patterns(e, ps, qs, ts, i).covered == ps.covered,
        patterns(e, ps, qs, ts, i).catch_all == ps.catch_all,
    decreases crate::ast::patterns_size(qs, i), 0nat,
{
    if 0 <= i < qs.len() {
        let t = if i < ts.len() {
            ts[i]
        } else {
            Ty::Error
        };
        law_inner_patterns_cover_nothing(e, ps, qs[i], t);
        lemma_inner_patterns(e, pattern(e, ps, qs[i], t, false), qs, ts, i + 1);
    }
}

proof fn lemma_inner_variant(e: Env, ps: PatSt, span: Span, enum_id: DefId, variant: u32, payload: Seq<Pattern>, t: Ty)
    ensures
        variant_pattern(e, ps, span, enum_id, variant, payload, t, false).covered == ps.covered,
        variant_pattern(e, ps, span, enum_id, variant, payload, t, false).catch_all == ps.catch_all,
    decreases crate::ast::patterns_size(payload, 0), 2nat,
{
    let same = crate::check::patterns::is_enum(t, enum_id);
    let ps1 = if !same {
        PatSt {
            st: ps.st.fail_if(
                !(t is Error),
                span,
                "variant pattern from enum `"@ + e.sc.name(enum_id) + "` cannot match `"@
                    + crate::describe::shown(t, e.sc.defs()) + "`"@,
            ),
            ..ps
        }
    } else {
        ps
    };
    let arity = crate::check::patterns::variant_arity(e, enum_id, variant);
    let ps2 = PatSt {
        st: ps1.st.fail_if(
            payload.len() != arity,
            span,
            "variant pattern expects "@ + crate::text::decimal(arity) + " payload field(s), found "@
                + crate::text::decimal(payload.len()),
        ),
        ..ps1
    };
    let ts = if same {
        match crate::rules::payload_of(e.sigs, t, variant as int) {
            Some(ts) => ts,
            None => Seq::empty(),
        }
    } else {
        Seq::empty()
    };
    lemma_inner_patterns(e, ps2, payload, ts, 0);
}

// ---------------------------------------------------------------------
// Settled types
// ---------------------------------------------------------------------

/// A value is packed into an existential without an error exactly if it already is
/// one, was already reported, or implements the trait and, for an opaque result, is
/// of the one type that all results have. What it was is then noted, and the result
/// is the existential.
pub proof fn law_packed_values_implement(e: Env, st: St, id: NodeId, span: Span, t: Ty, want: Ty, trait_id: DefId, args: Seq<Ty>)
    requires
        !st.silent,
        t != want,
        !(t is Error),
    ensures
        ({
            let (after, r) = packed(e, st, id, span, t, want, trait_id, args);
            &&& no_error(st, after) <==> satisfied(e, st, t, Bound { trait_id, args }) && (want is Opaque
                && st.witness is Some ==> st.witness == Some(t))
            &&& no_error(st, after) ==> r == want && after.coercions == st.coercions.insert(id, t)
            &&& no_error(st, after) && want is Opaque ==> after.witness == Some(t)
            &&& !satisfied(e, st, t, Bound { trait_id, args }) ==> r is Error && after.coercions == st.coercions
        }),
{
    reveal(packed);
    reveal(St::fail);
}

/// The type of an expression is recorded under it. Without an expected type it is
/// its own with associated types replaced; with one, the expected type fills what
/// is unknown, and an existential is packed.
pub proof fn law_settled_types_are_recorded(e: Env, st: St, id: NodeId, span: Span, t: Ty, expected: Option<Ty>)
    ensures
        ({
            let (after, r) = settled(e, st, id, span, t, expected);
            &&& after.expr_types.get(id) == Some(r)
            &&& expected is None ==> r == normal(e.sigs, t)
            &&& expected matches Some(w) ==> (!(normal(e.sigs, w) is Any) && !(normal(e.sigs, w) is Opaque) ==> r
                == in_context(normal(e.sigs, t), normal(e.sigs, w)))
            &&& expected is None && !st.silent ==> (no_error(st, after) <==> no_error(
                st,
                validated(e, st, normal(e.sigs, t), span),
            ))
        }),
{
    reveal(settled);
}

// ---------------------------------------------------------------------
// Valid types
// ---------------------------------------------------------------------

proof fn lemma_const_args(e: Env, st: St, id: DefId, names: Seq<Seq<char>>, args: Seq<Ty>, i: int, span: Span)
    requires
        !st.silent,
        0 <= i,
    ensures
        ({
            let after = const_args_checked(e, st, id, names, args, i, span);
            let consts = e.sigs.const_type_params.get(id);
            &&& no_error(st, after) <==> forall|k: int|
                #![trigger args[k]]
                i <= k < names.len() && k < args.len() ==> (args[k] is Const <==> (consts matches Some(ps)
                    && ps.contains_key(names[k])))
            &&& no_error(st, after) ==> after == st
        }),
    decreases names.len() - i,
{
    reveal(const_arg_checked);
    if i < names.len() && i < args.len() {
        let is_const = match e.sigs.const_type_params.get(id) {
            Some(params) => params.contains_key(names[i]),
            None => false,
        };
        let st1 = const_arg_checked(st, is_const, names[i], args[i], span);
        assert(grows(st, st1));
        step_const_args(e, st1, id, names, args, i + 1, span);
        lemma_const_args(e, st1, id, names, args, i + 1, span);
        if no_error(st, st1) {
            assert(st1 == st);
        }
    }
}

proof fn lemma_arg_bounds(e: Env, st: St, arg: Ty, bs: Seq<Bound>, m: Subst, i: int, span: Span)
    requires
        !st.silent,
        0 <= i,
    ensures
        ({
            let after = arg_bounds_checked(e, st, arg, bs, m, i, span);
            &&& no_error(st, after) <==> forall|k: int|
                #![trigger bs[k]]
                i <= k < bs.len() ==> satisfied(e, st, arg, bound_subst(bs[k], m))
            &&& no_error(st, after) ==> after == st
        }),
    decreases bs.len() - i,
{
    if i < bs.len() {
        let b = bound_subst(bs[i], m);
        let st1 = st.fail_if(
            !satisfied(e, st, arg, b),
            span,
            "`"@ + crate::describe::shown(arg, e.sc.defs()) + "` does not implement `"@
                + crate::describe::shown_bound(b, e.sc.defs()) + "`, required by this generic type"@,
        );
        assert(grows(st, st1));
        step_arg_bounds(e, st1, arg, bs, m, i + 1, span);
        lemma_arg_bounds(e, st1, arg, bs, m, i + 1, span);
    }
}

/// Whether a type satisfies all the bounds, with these types put in.
pub open spec fn meets(e: Env, st: St, t: Ty, bs: Seq<Bound>, m: Subst) -> bool {
    forall|k: int| #![trigger bs[k]] 0 <= k < bs.len() ==> satisfied(e, st, t, bound_subst(bs[k], m))
}

proof fn lemma_args_bounds(e: Env, st: St, bs: Seq<Seq<Bound>>, args: Seq<Ty>, m: Subst, i: int, span: Span)
    requires
        !st.silent,
        0 <= i,
    ensures
        ({
            let after = args_bounds_checked(e, st, bs, args, m, i, span);
            &&& no_error(st, after) <==> forall|k: int|
                #![trigger bs[k]]
                i <= k < bs.len() && k < args.len() && !has_error(args[k]) ==> meets(e, st, args[k], bs[k], m)
            &&& no_error(st, after) ==> after == st
        }),
    decreases bs.len() - i,
{
    if i < bs.len() {
        let st1 = if i < args.len() && !has_error(args[i]) {
            arg_bounds_checked(e, st, args[i], bs[i], m, 0, span)
        } else {
            st
        };
        if i < args.len() {
            step_arg_bounds(e, st, args[i], bs[i], m, 0, span);
            lemma_arg_bounds(e, st, args[i], bs[i], m, 0, span);
        }
        step_args_bounds(e, st1, bs, args, m, i + 1, span);
        lemma_args_bounds(e, st1, bs, args, m, i + 1, span);
        if no_error(st, st1) {
            assert(st1 == st);
        } else {
            assert(bs[i] == bs[i]);
        }
    }
}

/// The bounds of a declared type's parameters.
pub open spec fn declared_bounds(e: Env, id: DefId) -> Seq<Seq<Bound>> {
    match e.sigs.generic_type_bounds.get(id) {
        Some(bs) => bs,
        None => Seq::empty(),
    }
}

/// The arguments of a declared type are accepted exactly if constants stand where
/// the declaration has constants, and nowhere else, and every other argument that is
/// known satisfies the bounds of its parameter, with the arguments put in.
pub proof fn law_type_arguments_are_as_declared(e: Env, st: St, id: DefId, args: Seq<Ty>, span: Span)
    requires
        !st.silent,
    ensures
        ({
            let names = e.sigs.owner_generics(id);
            let bounds = declared_bounds(e, id);
            let consts = e.sigs.const_type_params.get(id);
            let after = nominal_checked(e, st, id, args, span);
            no_error(st, after) <==> {
                &&& forall|k: int|
                    #![trigger args[k]]
                    0 <= k < names.len() && k < args.len() ==> (args[k] is Const <==> (consts matches Some(ps)
                        && ps.contains_key(names[k])))
                &&& forall|k: int|
                    #![trigger bounds[k]]
                    0 <= k < bounds.len() && k < args.len() && !has_error(args[k]) ==> meets(
                        e,
                        st,
                        args[k],
                        bounds[k],
                        zip_subst(names, args),
                    )
            }
        }),
{
    reveal(nominal_checked);
    let names = e.sigs.owner_generics(id);
    let bounds = declared_bounds(e, id);
    let st1 = const_args_checked(e, st, id, names, args, 0, span);
    step_const_args(e, st, id, names, args, 0, span);
    lemma_const_args(e, st, id, names, args, 0, span);
    step_args_bounds(e, st1, bounds, args, zip_subst(names, args), 0, span);
    lemma_args_bounds(e, st1, bounds, args, zip_subst(names, args), 0, span);
}

/// A declared type is accepted exactly if its arguments are as declared and are
/// accepted themselves.
pub proof fn law_accepted_types_have_accepted_arguments(e: Env, st: St, id: DefId, args: Seq<Ty>, t: Ty, span: Span)
    requires
        t == Ty::Struct(id, args) || t == Ty::TupleStruct(id, args) || t == Ty::Enum(id, args),
    ensures
        ({
            let after = nominal_checked(e, st, id, args, span);
            no_error(st, validated(e, st, t, span)) <==> no_error(st, after) && no_error(
                after,
                all_validated(e, after, args, 0, span),
            )
        }),
{
    let after = nominal_checked(e, st, id, args, span);
    crate::check::growth::step_nominal(e, st, id, args, span);
    assert(grows(st, after));
    step_all_validated(e, after, args, 0, span);
}

/// A list of types is accepted exactly if the first one is, and the others are.
pub proof fn law_every_part_is_accepted(e: Env, st: St, ts: Seq<Ty>, i: int, span: Span)
    requires
        0 <= i < ts.len(),
    ensures
        ({
            let first = validated(e, st, ts[i], span);
            no_error(st, all_validated(e, st, ts, i, span)) <==> no_error(st, first) && no_error(
                first,
                all_validated(e, first, ts, i + 1, span),
            )
        }),
{
    let first = validated(e, st, ts[i], span);
    assert(grows(st, first));
    step_all_validated(e, first, ts, i + 1, span);
}

/// An array, a weak type, a tuple or a function is accepted exactly if its parts
/// are.
pub proof fn law_accepted_types_have_accepted_parts(e: Env, st: St, t: Ty, span: Span)
    ensures
        match t {
            Ty::Array(a) | Ty::Weak(a) => no_error(st, validated(e, st, t, span)) <==> no_error(
                st,
                validated(e, st, *a, span),
            ),
            Ty::Tuple(ts) => no_error(st, validated(e, st, t, span)) <==> no_error(
                st,
                all_validated(e, st, ts, 0, span),
            ),
            Ty::Function(ps, r) => {
                let params = all_validated(e, st, ps, 0, span);
                no_error(st, validated(e, st, t, span)) <==> no_error(st, params) && no_error(
                    params,
                    validated(e, params, *r, span),
                )
            },
            _ => true,
        },
{
    if let Ty::Function(ps, r) = t {
        let params = all_validated(e, st, ps, 0, span);
        step_all_validated(e, st, ps, 0, span);
        assert(grows(params, validated(e, params, *r, span)));
    }
}

proof fn lemma_some_into_string(e: Env, bs: Seq<Bound>, i: int)
    requires
        0 <= i <= bs.len(),
    ensures
        crate::check::facts::some_into_string(e, bs, i) <==> exists|k: int|
            #![trigger bs[k]]
            i <= k < bs.len() && e.sc.name(bs[k].trait_id) == "Into"@ && bs[k].args == seq![Ty::String],
    decreases bs.len() - i,
{
    if i < bs.len() {
        lemma_some_into_string(e, bs, i + 1);
        if e.sc.name(bs[i].trait_id) == "Into"@ && bs[i].args == seq![Ty::String] {
            assert(bs[i] == bs[i]);
        }
    }
}

/// Which values become text: strings, primitive values, what was already reported,
/// owned forms of these, and values of parameters that are bounded so; no
/// collections, references, functions or tasks.
pub proof fn law_values_that_become_text(e: Env, st: St, t: Ty)
    ensures
        match t {
            Ty::String | Ty::Primitive(_) | Ty::Error => into_string(e, st, t),
            Ty::Unique(inner) => into_string(e, st, t) == into_string(e, st, *inner),
            Ty::Generic(name) => into_string(e, st, t) <==> st.generics.contains_key(name) && exists|k: int|
                #![trigger st.generics[name][k]]
                0 <= k < st.generics[name].len() && e.sc.name(st.generics[name][k].trait_id) == "Into"@
                    && st.generics[name][k].args == seq![Ty::String],
            Ty::Struct(id, _) | Ty::TupleStruct(id, _) | Ty::Enum(id, _) => into_string(e, st, t)
                ==> e.sc.defs().found("Into"@) is Some && (e.sigs.method_of(
                id,
                "into_string"@,
                crate::sig::ReceiverDomain::Arc,
            ) matches Some(sig) && sig.self_param is Some && sig.ret is String),
            _ => !into_string(e, st, t),
        },
{
    reveal(into_string);
    reveal(crate::check::facts::declares_into_string);
    reveal_with_fuel(into_string, 2);
    if let Ty::Generic(name) = t {
        if st.generics.contains_key(name) {
            lemma_some_into_string(e, st.generics[name], 0);
        }
    }
}

} // verus!
