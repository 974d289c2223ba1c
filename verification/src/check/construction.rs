//! What values are made of that are made without an error: constructors, literals,
//! and the built-in functions.
use crate::ast::{Expr, FieldInit, TemplatePart};
use crate::check::facts::{field_named, into_string, mismatch, private_field, require_string};
use crate::check::growth::{group_grows, group_steps, grows, lemma_one_error};
use crate::check::model::{
    array, array_rest, conversion, ctor_args, expr, hash_args, initialized, literal_fields, missing_fields,
    print_args, template, timer_args, timer_sleep, tuple_items, type_value, variant_value,
};
use crate::check::record::{
    run_array_rest, run_ctor_args, run_expr, run_free_args, run_hash_args, run_literal_fields, run_print_args,
    run_template, run_timer_args, run_tuple_items,
};
use crate::check::rules::converted;
use crate::check::state::{Env, St};
use crate::check::typing::{is_whole, no_error};
use crate::ids::{DefId, Span, Visibility};
use crate::representation::kind_of_alloc;
use crate::rules::{cloneable, derivable, Derived};
use crate::sig::Shape;
use crate::subst::{infer, subst, Subst};
use crate::ty::{fits, Ty};
use vstd::prelude::*;

verus! {

broadcast use {group_grows, group_steps, lemma_one_error};

// ---------------------------------------------------------------------
// Constructors
// ---------------------------------------------------------------------

/// The arguments of a constructor are checked without an error exactly if the
/// first one has the type of its field, with what is inferred from it put in, and
/// the others are checked after it.
pub proof fn law_constructor_arguments_fit(e: Env, st: St, args: Seq<Expr>, ts: Seq<Ty>, i: int, m: Subst)
    requires
        !st.silent,
        0 <= i < args.len(),
        i < ts.len(),
    ensures
        ({
            let (after, m2) = ctor_args(e, st, args, ts, i, m);
            let (st1, t) = expr(e, st, args[i], Some(subst(ts[i], m)));
            let m1 = infer(ts[i], t, m);
            let (rest, m3) = ctor_args(e, st1, args, ts, i + 1, m1);
            &&& no_error(st, after) <==> no_error(st, st1) && fits(t, subst(ts[i], m1)) && no_error(st1, rest)
            &&& no_error(st, after) ==> after == rest && m2 == m3
        }),
{
    let (st1, t) = expr(e, st, args[i], Some(subst(ts[i], m)));
    run_expr(e, st, args[i], Some(subst(ts[i], m)));
    let m1 = infer(ts[i], t, m);
    let st2 = st1.fail_if(!fits(t, subst(ts[i], m1)), args[i].span, mismatch(e, subst(ts[i], m1), t));
    run_ctor_args(e, st1, args, ts, i + 1, m1);
    run_ctor_args(e, st2, args, ts, i + 1, m1);
}

/// Whether types are those that are chosen for the names, in their order.
pub open spec fn chosen_in_order(ts: Seq<Ty>, names: Seq<Seq<char>>, m: Subst) -> bool {
    ts.len() == names.len() && forall|i: int|
        #![trigger ts[i]]
        0 <= i < ts.len() ==> (if m.contains_key(names[i]) {
            ts[i] == m[names[i]]
        } else {
            ts[i] is Error
        })
}

/// A tuple struct is made without an error exactly if it is given a value for
/// each of its fields; what results is of the declared type, with what is inferred
/// for its parameters.
pub proof fn law_tuple_structs_are_complete(e: Env, st: St, def: DefId, span: Span, args: Seq<Expr>, ts: Seq<Ty>)
    requires
        !st.silent,
        e.sigs.type_shapes.get(def) == Some(Shape::TupleStruct(ts)),
    ensures
        ({
            let (after, t) = type_value(e, st, def, span, Some(args), None);
            let (made, m) = ctor_args(e, st, args, ts, 0, Map::empty());
            &&& no_error(st, after) <==> args.len() == ts.len() && no_error(st, made)
            &&& t matches Ty::TupleStruct(id, chosen) && id == def && (no_error(st, after) ==> chosen_in_order(
                chosen,
                e.sigs.generics_of(def),
                m,
            ))
        }),
{
    let st1 = st.fail_if(args.len() != ts.len(), span, crate::check::facts::arg_count(ts.len(), args.len()));
    run_ctor_args(e, st, args, ts, 0, Map::empty());
    run_ctor_args(e, st1, args, ts, 0, Map::empty());
}

/// A type is named as a value without an error exactly if it has no fields and is
/// not called, or has positional fields and is.
pub proof fn law_types_are_made_as_declared(e: Env, st: St, def: DefId, span: Span, args: Option<Seq<Expr>>, expected: Option<Ty>)
    requires
        !st.silent,
        no_error(st, type_value(e, st, def, span, args, expected).0),
    ensures
        match e.sigs.type_shapes.get(def) {
            Some(Shape::Unit) => args is None,
            Some(Shape::TupleStruct(_)) => args is Some,
            _ => false,
        },
{
}

/// A variant with a payload is made without an error exactly if it is given a
/// value for each part of the payload; what results is the variant's enum, with
/// what is inferred for its parameters.
pub proof fn law_variants_are_complete(e: Env, st: St, def: DefId, idx: u32, span: Span, args: Option<Seq<Expr>>)
    requires
        !st.silent,
        e.sigs.enum_sigs.contains_key(def),
        idx < e.sigs.enum_sigs[def].variants.len(),
        e.sigs.enum_sigs[def].variants[idx as int].1.len() > 0,
    ensures
        ({
            let (after, t) = variant_value(e, st, def, idx, span, args, None);
            let payload = e.sigs.enum_sigs[def].variants[idx as int].1;
            match args {
                Some(xs) => {
                    let (made, m) = ctor_args(e, st, xs, payload, 0, Map::empty());
                    &&& no_error(st, after) <==> xs.len() == payload.len() && no_error(st, made)
                    &&& t matches Ty::Enum(id, chosen) && id == def && (no_error(st, after) ==> chosen_in_order(
                        chosen,
                        e.sigs.enum_sigs[def].generics,
                        m,
                    ))
                },
                None => !no_error(st, after),
            }
        }),
{
    if args is Some {
        let xs = args->Some_0;
        let payload = e.sigs.enum_sigs[def].variants[idx as int].1;
        let st1 = st.fail_if(
            xs.len() != payload.len(),
            span,
            "variant expects "@ + crate::text::decimal(payload.len()) + " argument(s), found "@
                + crate::text::decimal(xs.len()),
        );
        run_ctor_args(e, st, xs, payload, 0, Map::empty());
        run_ctor_args(e, st1, xs, payload, 0, Map::empty());
    }
}

/// Only a variant that its enum declares is made without an error.
pub proof fn law_variants_are_declared(e: Env, st: St, def: DefId, idx: u32, span: Span, args: Option<Seq<Expr>>, expected: Option<Ty>)
    requires
        !st.silent,
        no_error(st, variant_value(e, st, def, idx, span, args, expected).0),
    ensures
        e.sigs.enum_sigs.contains_key(def),
        idx < e.sigs.enum_sigs[def].variants.len(),
{
}

// ---------------------------------------------------------------------
// Struct literals
// ---------------------------------------------------------------------

/// Whether a field may be named in a file: in that of its struct, or if it is
/// public.
pub open spec fn may_name(e: Env, def: DefId, name: Seq<char>, span: Span) -> bool {
    e.sc.defs().file_of(def) is None || e.sc.defs().file_of(def) == Some(span.file) || e.sigs.field_visibility.get(
        (def, name),
    ) == Some(Visibility::Public)
}

/// The first field of this name is of this type.
pub open spec fn declares_field(declared: Seq<(Seq<char>, Ty)>, name: Seq<char>, ty: Ty) -> bool {
    exists|k: int|
        #![trigger declared[k]]
        0 <= k < declared.len() && declared[k] == (name, ty) && forall|j: int|
            #![trigger declared[j]]
            0 <= j < k ==> declared[j].0 != name
}

pub proof fn lemma_field_named(fs: Seq<(Seq<char>, Ty)>, name: Seq<char>, i: int)
    requires
        0 <= i <= fs.len(),
        forall|j: int| #![trigger fs[j]] 0 <= j < i ==> fs[j].0 != name,
    ensures
        field_named(fs, name, i) matches Some(ty) ==> declares_field(fs, name, ty),
        field_named(fs, name, i) is None ==> forall|j: int| #![trigger fs[j]] 0 <= j < fs.len() ==> fs[j].0 != name,
    decreases fs.len() - i,
{
    if i < fs.len() {
        if fs[i].0 == name {
            assert(fs[i] == (name, fs[i].1));
        } else {
            lemma_field_named(fs, name, i + 1);
        }
    }
}

/// The fields of a struct literal are checked without an error exactly if the
/// first one is declared, may be named there, and has the declared type with what
/// is inferred from it put in, and the others are checked after it.
pub proof fn law_initialized_fields_fit(
    e: Env,
    st: St,
    def: DefId,
    declared: Seq<(Seq<char>, Ty)>,
    fields: Seq<FieldInit>,
    i: int,
    m: Subst,
)
    requires
        !st.silent,
        0 <= i < fields.len(),
        no_error(st, literal_fields(e, st, def, declared, fields, i, m).0),
    ensures
        may_name(e, def, fields[i].name.name@, fields[i].name.span),
        exists|ty: Ty|
            #![trigger declares_field(declared, fields[i].name.name@, ty)]
            {
                let (after, m2) = literal_fields(e, st, def, declared, fields, i, m);
                let (st1, t) = expr(e, st, fields[i].value, Some(subst(ty, m)));
                let m1 = infer(ty, t, m);
                let (rest, m3) = literal_fields(e, st1, def, declared, fields, i + 1, m1);
                &&& declares_field(declared, fields[i].name.name@, ty)
                &&& no_error(st, st1)
                &&& fits(t, subst(ty, m1))
                &&& no_error(st1, rest)
                &&& after == rest && m2 == m3
            },
{
    let name = fields[i].name.name@;
    let span = fields[i].name.span;
    let value = fields[i].value;
    lemma_field_named(declared, name, 0);
    match field_named(declared, name, 0) {
        Some(ty) => {
            let st0 = st.fail_if(private_field(e, def, name, span), span, "field `"@ + name + "` is private"@);
            let (st1, t) = expr(e, st0, value, Some(subst(ty, m)));
            run_expr(e, st0, value, Some(subst(ty, m)));
            let m1 = infer(ty, t, m);
            let want = subst(ty, m1);
            let st2 = st1.fail_if(!fits(t, want), value.span, mismatch(e, want, t) + " for field `"@ + name + "`"@);
            run_literal_fields(e, st2, def, declared, fields, i + 1, m1);
            assert(grows(st, st0) && grows(st0, st1) && grows(st1, st2));
            assert(declares_field(declared, name, ty));
        },
        None => {
            let st0 = st.fail(span, "`"@ + e.sc.name(def) + "` has no field named `"@ + name + "`"@);
            run_expr(e, st0, value, None);
            let st1 = expr(e, st0, value, None).0;
            run_literal_fields(e, st1, def, declared, fields, i + 1, m);
            assert(grows(st0, st1));
        },
    }
}

/// A struct literal misses no field exactly if every declared field is given.
pub proof fn law_struct_literals_are_complete(
    e: Env,
    st: St,
    def: DefId,
    declared: Seq<(Seq<char>, Ty)>,
    fields: Seq<FieldInit>,
    i: int,
    span: Span,
)
    requires
        !st.silent,
        0 <= i <= declared.len(),
    ensures
        no_error(st, missing_fields(e, st, def, declared, initialized(fields), i, span)) <==> forall|k: int|
            #![trigger declared[k]]
            i <= k < declared.len() ==> exists|j: int|
                #![trigger fields[j]]
                0 <= j < fields.len() && fields[j].name.name@ == declared[k].0,
    decreases declared.len() - i,
{
    let seen = initialized(fields);
    if i < declared.len() {
        let st1 = st.fail_if(
            !seen.contains(declared[i].0),
            span,
            "missing field `"@ + declared[i].0 + "` in struct literal for `"@ + e.sc.name(def) + "`"@,
        );
        assert(grows(st, st1));
        assert(grows(st1, missing_fields(e, st1, def, declared, seen, i + 1, span)));
        law_struct_literals_are_complete(e, st1, def, declared, fields, i + 1, span);
        if seen.contains(declared[i].0) {
            let j = choose|j: int| 0 <= j < seen.len() && seen[j] == declared[i].0;
            assert(fields[j].name.name@ == declared[i].0);
        } else {
            assert(!(exists|j: int|
                #![trigger fields[j]]
                0 <= j < fields.len() && fields[j].name.name@ == declared[i].0)) by {
                if exists|j: int| #![trigger fields[j]] 0 <= j < fields.len() && fields[j].name.name@ == declared[i].0 {
                    let j = choose|j: int| #![trigger fields[j]] 0 <= j < fields.len() && fields[j].name.name@ == declared[i].0;
                    assert(seen[j] == declared[i].0);
                }
            }
            assert(declared[i].0 == declared[i].0);
        }
    }
}

// ---------------------------------------------------------------------
// Lists
// ---------------------------------------------------------------------

/// The items of a tuple are checked one after the other, each against the item
/// that is expected in its place; the types that result are theirs, in order.
pub proof fn law_tuple_items_in_order(e: Env, st: St, xs: Seq<Expr>, i: int, want: Option<Seq<Ty>>, acc: Seq<Ty>)
    requires
        0 <= i <= xs.len(),
    ensures
        ({
            let (after, ts) = tuple_items(e, st, xs, i, want, acc);
            &&& ts.len() == acc.len() + xs.len() - i
            &&& forall|k: int| #![trigger ts[k]] 0 <= k < acc.len() ==> ts[k] == acc[k]
            &&& i < xs.len() ==> {
                let (st1, t) = expr(
                    e,
                    st,
                    xs[i],
                    match want {
                        Some(ws) if i < ws.len() => Some(ws[i]),
                        _ => None,
                    },
                );
                ts[acc.len() as int] == t && after == tuple_items(e, st1, xs, i + 1, want, acc.push(t)).0 && (no_error(
                    st,
                    after,
                ) <==> no_error(st, st1) && no_error(st1, after))
            }
        }),
    decreases xs.len() - i,
{
    if i < xs.len() {
        let w = match want {
            Some(ts) => if i < ts.len() {
                Some(ts[i])
            } else {
                None
            },
            None => None,
        };
        let (st1, t) = expr(e, st, xs[i], w);
        law_tuple_items_in_order(e, st1, xs, i + 1, want, acc.push(t));
        run_expr(e, st, xs[i], w);
        run_tuple_items(e, st1, xs, i + 1, want, acc.push(t));
        let (after, ts) = tuple_items(e, st, xs, i, want, acc);
        assert(ts[acc.len() as int] == acc.push(t)[acc.len() as int]);
        assert forall|k: int| #![trigger ts[k]] 0 <= k < acc.len() implies ts[k] == acc[k] by {
            assert(acc.push(t)[k] == acc[k]);
        }
    }
}

/// The elements of an array after the first are checked without an error exactly
/// if each has the first one's type.
pub proof fn law_array_elements_fit(e: Env, st: St, xs: Seq<Expr>, i: int, first: Ty, what: Seq<char>)
    requires
        !st.silent,
        0 <= i < xs.len(),
    ensures
        ({
            let after = array_rest(e, st, xs, i, first, what);
            let (st1, t) = expr(e, st, xs[i], Some(first));
            let rest = array_rest(e, st1, xs, i + 1, first, what);
            &&& no_error(st, after) <==> no_error(st, st1) && fits(t, first) && no_error(st1, rest)
            &&& no_error(st, after) ==> after == rest
        }),
{
    let (st1, t) = expr(e, st, xs[i], Some(first));
    run_expr(e, st, xs[i], Some(first));
    let st2 = st1.fail_if(!fits(t, first), xs[i].span, mismatch(e, first, t) + " in "@ + what + " literal"@);
    run_array_rest(e, st1, xs, i + 1, first, what);
    run_array_rest(e, st2, xs, i + 1, first, what);
}

/// An array is one of its first element's type. Without elements its type must be
/// expected. Where a fixed array is expected it is one of as many elements.
pub proof fn law_arrays_are_of_their_elements(e: Env, st: St, xs: Seq<Expr>, expected: Option<Ty>, span: Span)
    requires
        !st.silent,
    ensures
        ({
            let (after, t) = array(e, st, xs, expected, span);
            let element = match expected {
                Some(Ty::Array(inner)) => Some(*inner),
                Some(Ty::FixedArray(inner, _)) => Some(*inner),
                _ => None,
            };
            if xs.len() == 0 {
                &&& no_error(st, after) <==> match expected {
                    Some(Ty::Array(_)) => true,
                    Some(Ty::FixedArray(_, n)) => *n == Ty::Const(0),
                    _ => false,
                }
                &&& no_error(st, after) ==> Some(t) == expected
            } else {
                let (st1, first) = expr(e, st, xs[0], element);
                let rest = array_rest(
                    e,
                    st1,
                    xs,
                    1,
                    first,
                    if expected matches Some(Ty::FixedArray(_, _)) {
                        "fixed-array"@
                    } else {
                        "array"@
                    },
                );
                match expected {
                    Some(Ty::FixedArray(_, n)) => {
                        &&& no_error(st, after) <==> no_error(st, st1) && no_error(st1, rest) && (*n matches Ty::Const(
                            k,
                        ) ==> k == xs.len())
                        &&& t == Ty::FixedArray(Box::new(first), Box::new(Ty::Const(xs.len() as u128)))
                    },
                    _ => {
                        &&& no_error(st, after) <==> no_error(st, st1) && no_error(st1, rest)
                        &&& t == Ty::Array(Box::new(first))
                    },
                }
            }
        }),
{
    if xs.len() > 0 {
        let element = match expected {
            Some(Ty::Array(inner)) => Some(*inner),
            Some(Ty::FixedArray(inner, _)) => Some(*inner),
            _ => None,
        };
        run_expr(e, st, xs[0], element);
        let (st1, first) = expr(e, st, xs[0], element);
        run_array_rest(e, st1, xs, 1, first, "array"@);
        run_array_rest(e, st1, xs, 1, first, "fixed-array"@);
    }
}

/// The parts of a template are checked without an error exactly if the first one
/// is text, or a value that can become a `String`, and the others are checked after
/// it.
pub proof fn law_template_parts_become_text(e: Env, st: St, parts: Seq<TemplatePart>, i: int)
    requires
        !st.silent,
        0 <= i < parts.len(),
    ensures
        ({
            let after = template(e, st, parts, i);
            match parts[i] {
                TemplatePart::Text => after == template(e, st, parts, i + 1),
                TemplatePart::Expr(x) => {
                    let (st1, t) = expr(e, st, x, None);
                    no_error(st, after) <==> no_error(st, st1) && into_string(e, st1, t) && no_error(
                        st1,
                        template(e, st1, parts, i + 1),
                    )
                },
            }
        }),
{
    reveal(require_string);
    if parts[i] is Expr {
        let x = parts[i]->Expr_0;
        let (st1, t) = expr(e, st, x, None);
        run_expr(e, st, x, None);
        run_template(e, st1, parts, i + 1);
        run_template(e, require_string(e, st1, t, x.span), parts, i + 1);
    }
}

// ---------------------------------------------------------------------
// Built-in functions
// ---------------------------------------------------------------------

/// What is printed is checked without an error exactly if the first argument can
/// become a `String`, and the others are checked after it.
pub proof fn law_printed_values_become_text(e: Env, st: St, args: Seq<Expr>, i: int)
    requires
        !st.silent,
        0 <= i < args.len(),
    ensures
        ({
            let (st1, t) = expr(e, st, args[i], None);
            no_error(st, print_args(e, st, args, i)) <==> no_error(st, st1) && into_string(e, st1, t) && no_error(
                st1,
                print_args(e, st1, args, i + 1),
            )
        }),
{
    reveal(require_string);
    let (st1, t) = expr(e, st, args[i], None);
    run_expr(e, st, args[i], None);
    run_print_args(e, st1, args, i + 1);
    run_print_args(e, require_string(e, st1, t, args[i].span), args, i + 1);
}

/// What is hashed is checked without an error exactly if the first argument is of
/// a type that can be hashed by its structure, and the others are checked after it.
pub proof fn law_hashed_values_are_hashable(e: Env, st: St, args: Seq<Expr>, i: int)
    requires
        !st.silent,
        0 <= i < args.len(),
    ensures
        ({
            let (st1, t) = expr(e, st, args[i], None);
            no_error(st, hash_args(e, st, args, i)) <==> no_error(st, st1) && derivable(
                e.sigs,
                e.sc.defs(),
                Derived::Hash,
                t,
            ) && no_error(st1, hash_args(e, st1, args, i + 1))
        }),
{
    let (st1, t) = expr(e, st, args[i], None);
    run_expr(e, st, args[i], None);
    run_hash_args(e, st1, args, i + 1);
    let st2 = st1.fail_if(
        !derivable(e.sigs, e.sc.defs(), Derived::Hash, t),
        args[i].span,
        "cannot derive `Hash` for `"@ + crate::describe::shown(t, e.sc.defs())
            + "`: every field must be structurally hashable"@,
    );
    run_hash_args(e, st2, args, i + 1);
}

/// `timer.sleep` is called without an error exactly with one integer and without
/// generic arguments; it gives a task without a result.
pub proof fn law_sleeps_take_a_number(e: Env, st: St, gargs: Seq<crate::ast::TypeExpr>, name_span: Span, arg: Expr, args: Seq<Expr>, span: Span)
    requires
        !st.silent,
        args.len() >= 1,
        args[0] == arg,
    ensures
        ({
            let (after, t) = timer_sleep(e, st, gargs, name_span, args, span);
            let (st1, n) = expr(e, st, arg, None);
            &&& no_error(st, after) <==> gargs.len() == 0 && args.len() == 1 && no_error(st, st1) && is_whole(n)
            &&& t matches Ty::Task(output) && (*output matches Ty::Tuple(items) && items.len() == 0)
        }),
{
    reveal_with_fuel(timer_args, 3);
    let st0 = st.fail_if(gargs.len() > 0, name_span, "`timer.sleep` is not generic"@).fail_if(
        args.len() != 1,
        span,
        "`timer.sleep` expects 1 argument, found "@ + crate::text::decimal(args.len()),
    );
    run_expr(e, st, arg, None);
    run_timer_args(e, st0, args, 0);
    let (st1, n) = expr(e, st, arg, None);
    if args.len() == 1 && gargs.len() == 0 {
        let st2 = st1.fail_if(
            !crate::declarations::ty_integer(n),
            arg.span,
            "`timer.sleep` expects integer milliseconds"@,
        );
        assert(timer_args(e, st2, args, 1) == st2);
    }
}

/// Conversions go between the owned and the plain form of one type; from the plain
/// to the owned form of a heap type only where the value can be cloned.
pub proof fn law_conversions_change_ownership(e: Env, st: St, arg: Ty, target: Ty, span: Span)
    requires
        !st.silent,
    ensures
        no_error(st, converted(e, st, arg, target, span)) <==> match (arg, target) {
            (Ty::Unique(_), Ty::Unique(_)) => false,
            (Ty::Unique(inner), _) => fits(*inner, target),
            (_, Ty::Unique(inner)) => fits(arg, *inner) && (kind_of_alloc(arg, e.sc.defs()) is Heap ==> cloneable(
                e.sigs,
                e.sc.defs(),
                arg,
                Seq::empty(),
                crate::rules::NESTING_LIMIT as nat,
            )),
            _ => arg is Error || target is Error,
        },
{
    reveal(converted);
}

/// `to` is called without an error only with one value and at most one type, which
/// must be known; a type that is given must be the one that is expected, the result
/// is of that type, and the value can be converted to it.
pub proof fn law_conversions_have_a_target(e: Env, st: St, span: Span, args: Option<Seq<Expr>>, expected: Option<Ty>, gargs: Seq<Ty>)
    requires
        !st.silent,
        no_error(st, conversion(e, st, span, args, expected, gargs).0),
    ensures
        gargs.len() <= 1,
        args matches Some(xs) && xs.len() == 1,
        ({
            let (after, t) = conversion(e, st, span, args, expected, gargs);
            let x = args->Some_0[0];
            let (st1, a) = expr(e, st, x, Some(t));
            &&& gargs.len() == 1 ==> t == gargs[0]
            &&& gargs.len() == 0 ==> expected == Some(t)
            &&& gargs.len() == 1 && expected is Some ==> fits(t, expected->Some_0)
            &&& no_error(st, st1)
            &&& no_error(st1, converted(e, st1, a, t, x.span))
        }),
{
    let st1 = st.fail_if(
        gargs.len() > 1,
        span,
        "`to<T>(value)` takes exactly 1 type argument, found "@ + crate::text::decimal(gargs.len()),
    );
    assert(grows(st, st1));
    if args is Some {
        let xs = args->Some_0;
        if xs.len() != 1 {
            let st2 = st1.fail(span, "`to` takes exactly 1 argument, found "@ + crate::text::decimal(xs.len()));
            run_free_args(e, st2, xs, 0);
        } else {
            let target = if gargs.len() > 0 {
                Some(gargs[0])
            } else {
                expected
            };
            match target {
                None => {
                    let st2 = st1.fail(span, "cannot infer the target type of `to(value)`; add a type annotation"@);
                    run_expr(e, st2, xs[0], None);
                },
                Some(t) => {
                    let st2 = match expected {
                        Some(w) => st1.fail_if(
                            gargs.len() > 0 && !fits(t, w),
                            span,
                            "explicit `to` target `"@ + crate::describe::shown(t, e.sc.defs())
                                + "` does not match expected type `"@ + crate::describe::shown(w, e.sc.defs()) + "`"@,
                        ),
                        None => st1,
                    };
                    run_expr(e, st2, xs[0], Some(t));
                    let (st3, a) = expr(e, st2, xs[0], Some(t));
                    assert(grows(st1, st2) && grows(st2, st3));
                    assert(grows(st3, converted(e, st3, a, t, xs[0].span)));
                },
            }
        }
    }
}

} // verus!
