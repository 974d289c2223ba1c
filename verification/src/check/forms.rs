//! What the forms of an expression come to: calls through paths, method calls, literals
//! and generic arguments.
use crate::ast::{Expr, ExprKind, Ident, Literal, Path, Stmt, TypeExpr};
use crate::check::borrows::methods_on;
use crate::check::facts::{
    bare_local, literal_type, parameter_projection_checked, projection_checked, projections, root_local, root_mutable,
    validated,
};
use crate::check::growth::{group_grows, group_steps, grows, lemma_one_error};
use crate::check::model::{
    call_value, def_value, expr, fn_value, hash_args, initialized, literal_fields, method_call, missing_fields,
    print_args, receiver_choice, static_member, stmt, struct_literal, synth, template, tuple_items, value_path, variant_value,
};
use crate::check::record::{
    run_call_value, run_expr, run_hash_args, run_literal_fields, run_print_args, run_variant_value,
};
use crate::check::rules::{assigned_through, explicit_args, explicit_chosen, open_params, origin_bound};
use crate::check::state::{BorrowOrigin, Env, St};
use crate::check::typing::no_error;
use crate::ids::{DefId, LocalId, NodeId, SelfParam, Span, Visibility};
use crate::names::Resolution;
use crate::sig::{Bound, Shape, Sig};
use crate::subst::{zip_subst, Subst};
use crate::table::pair_get;
use crate::ty::{PrimitiveKind, Ty};
use crate::written::type_of;
use vstd::prelude::*;

verus! {

broadcast use {group_grows, group_steps, lemma_one_error};

// ---------------------------------------------------------------------
// Paths that are called
// ---------------------------------------------------------------------

/// Whether a path is one item as a whole.
pub open spec fn is_whole_item(e: Env, path: Path, base: Resolution) -> bool {
    e.sc.names.path(path.id) matches Some(res) && res.base == base && res.consumed == path.segments@.len()
}

/// Calling a declared item by its path is calling the item.
pub proof fn law_called_items(
    e: Env,
    st: St,
    path: Path,
    args: Seq<Expr>,
    expected: Option<Ty>,
    id: Option<NodeId>,
    gargs: Seq<Ty>,
    def: DefId,
)
    requires
        is_whole_item(e, path, Resolution::Def(def)),
    ensures
        value_path(e, st, path, Some(args), expected, id, gargs) == def_value(
            e,
            st,
            def,
            path.span,
            Some(args),
            expected,
            id,
            gargs,
        ),
{
}

/// A variant is made by its path without an error exactly if it is given no function's
/// generic arguments, and is made.
pub proof fn law_called_variants(
    e: Env,
    st: St,
    path: Path,
    args: Seq<Expr>,
    expected: Option<Ty>,
    id: Option<NodeId>,
    gargs: Seq<Ty>,
    def: DefId,
    idx: u32,
)
    requires
        !st.silent,
        is_whole_item(e, path, Resolution::EnumVariant(def, idx)),
    ensures
        ({
            let (after, t) = value_path(e, st, path, Some(args), expected, id, gargs);
            let (made, u) = variant_value(e, st, def, idx, path.span, Some(args), expected);
            &&& no_error(st, after) <==> gargs.len() == 0 && no_error(st, made)
            &&& gargs.len() == 0 ==> after == made && t == u
        }),
{
    let st0 = st.fail_if(
        gargs.len() > 0,
        path.span,
        "enum variants do not accept function generic arguments"@,
    );
    run_variant_value(e, st0, def, idx, path.span, Some(args), expected);
    run_variant_value(e, st, def, idx, path.span, Some(args), expected);
    assert(grows(st, st0));
}

/// A method is called through its type by its path.
pub proof fn law_called_static_members(
    e: Env,
    st: St,
    path: Path,
    args: Seq<Expr>,
    expected: Option<Ty>,
    id: Option<NodeId>,
    gargs: Seq<Ty>,
    owner: DefId,
    idx: u32,
)
    requires
        is_whole_item(e, path, Resolution::StaticMember(owner, idx)),
    ensures
        value_path(e, st, path, Some(args), expected, id, gargs) == static_member(
            e,
            st,
            owner,
            idx,
            path.span,
            Some(args),
            id,
            gargs,
        ),
{
}

/// A local is called without an error exactly if it is given no generic arguments, may be
/// used, and its value is called.
pub proof fn law_called_locals(
    e: Env,
    st: St,
    path: Path,
    args: Seq<Expr>,
    expected: Option<Ty>,
    id: Option<NodeId>,
    gargs: Seq<Ty>,
    local: LocalId,
    t: Ty,
    mutable: bool,
)
    requires
        !st.silent,
        is_whole_item(e, path, Resolution::Local(local)),
        st.locals.get(local) == Some((t, mutable)),
    ensures
        ({
            let (after, r) = value_path(e, st, path, Some(args), expected, id, gargs);
            let st1 = st.used(local, t, path.span, true).noted(local);
            let (done, u) = call_value(e, st1, t, args, path.span);
            &&& no_error(st, after) <==> gargs.len() == 0 && no_error(st, st1) && no_error(st1, done)
            &&& gargs.len() == 0 ==> after == done && r == u
        }),
{
    let st0 = st.used(local, t, path.span, true);
    let st1 = st0.noted(local);
    let st2 = st1.fail_if(
        gargs.len() > 0,
        path.span,
        "explicit generic arguments cannot be applied to a function value"@,
    );
    run_call_value(e, st1, t, args, path.span);
    run_call_value(e, st2, t, args, path.span);
    assert(grows(st, st0) && grows(st0, st1) && grows(st1, st2));
}

/// A constant is not called.
pub proof fn law_constants_are_not_called(
    e: Env,
    st: St,
    path: Path,
    args: Seq<Expr>,
    expected: Option<Ty>,
    id: Option<NodeId>,
    gargs: Seq<Ty>,
    owner: DefId,
    idx: u32,
)
    requires
        !st.silent,
        is_whole_item(e, path, Resolution::StaticConst(owner, idx)),
    ensures
        !no_error(st, value_path(e, st, path, Some(args), expected, id, gargs).0),
{
    reveal(crate::check::model::owner_const);
    let st0 = st.fail_if(
        true,
        path.span,
        "an associated constant cannot be called"@,
    );
    assert(!no_error(st, st0));
}

// ---------------------------------------------------------------------
// Methods
// ---------------------------------------------------------------------

/// A method that changes its receiver is called without an error only on what belongs to
/// a mutable local; one that consumes it not through a reference.
pub proof fn law_changed_receivers_are_mutable(
    e: Env,
    st: St,
    x: Expr,
    receiver: Box<Expr>,
    method: Ident,
    generic_args: Vec<TypeExpr>,
    args: Vec<Expr>,
    expected: Option<Ty>,
    owner: DefId,
    targs: Seq<Ty>,
    sig: Sig,
)
    requires
        !st.silent,
        x.kind == (ExprKind::MethodCall { receiver, method, generic_args, args }),
        generic_args@.len() == 0,
        method.name@ != "sleep"@,
        no_error(expr(e, st, *receiver, None).0, synth(e, st, x, expected).0),
        ({
            let t = expr(e, st, *receiver, None).1;
            let base = crate::ty::ty_direct(t);
            &&& base == Ty::Struct(owner, targs) || base == Ty::TupleStruct(owner, targs) || base == Ty::Enum(owner, targs)
            &&& methods_on(e, t, method.name@) matches Some(set) && set.chosen(targs) == Some(sig)
        }),
    ensures
        ({
            let (ready, t) = expr(e, st, *receiver, None);
            &&& sig.self_param == Some(SelfParam::ByMutRef) || sig.self_param == Some(SelfParam::OwnedMutRef) ==> (
            root_local(e.sc.names, *receiver) matches Some(local) && (ready.locals.get(local) matches Some((_, mutable))
                && mutable))
            &&& sig.self_param == Some(SelfParam::Owned) ==> !(t is Ref) && !(t is MutRef)
            &&& sig.is_unsafe || sig.is_foreign ==> ready.in_unsafe
        }),
{
    let (ready, t) = expr(e, st, *receiver, None);
    run_expr(e, st, *receiver, None);
    let mutable = root_mutable(e.sc.names, ready, *receiver);
    let local = bare_local(e.sc.names, *receiver);
    assert(explicit_args(e, st, generic_args@, 0, Seq::empty()) == (st, Seq::<Ty>::empty()));
    crate::check::dispatch::law_methods_are_found(
        e,
        ready,
        t,
        crate::ty::ty_direct(t),
        owner,
        targs,
        method,
        Seq::empty(),
        args@,
        Some(x.id),
        mutable,
        local,
    );
    crate::check::dispatch::law_receivers_go_with_methods(ready, t, sig, method.span, mutable, local);
}

/// A thread is joined without an error exactly without arguments; that gives what the
/// thread gives. A thread has no other method.
pub proof fn law_threads_are_joined(
    e: Env,
    st: St,
    output: Ty,
    method: Ident,
    gargs: Seq<Ty>,
    args: Seq<Expr>,
    id: Option<NodeId>,
    mutable: Option<bool>,
    local: Option<LocalId>,
)
    requires
        !st.silent,
    ensures
        ({
            let (after, r) = method_call(e, st, Ty::Thread(Box::new(output)), method, gargs, args, id, mutable, local);
            &&& no_error(st, after) <==> method.name@ == "join"@ && gargs.len() == 0 && args.len() == 0
            &&& method.name@ == "join"@ ==> r == output
        }),
{
}

// ---------------------------------------------------------------------
// Literals
// ---------------------------------------------------------------------

/// Whether a literal can be of a type.
pub open spec fn can_be(l: Literal, t: Ty) -> bool {
    match l {
        Literal::Int => crate::check::typing::is_whole(t),
        Literal::Float => t == Ty::Primitive(PrimitiveKind::F32) || t == Ty::Primitive(PrimitiveKind::F64),
        Literal::Bool => t == Ty::Primitive(PrimitiveKind::Bool),
        Literal::Char => t == Ty::Primitive(PrimitiveKind::Char),
        Literal::Str => t is String,
    }
}

/// A literal is of the expected type, owned or not, where it can be; elsewhere it is of
/// its own type, which it can be.
pub proof fn law_literals_take_the_expected_type(l: Literal, expected: Option<Ty>)
    ensures
        match expected {
            Some(Ty::Unique(t)) => if can_be(l, *t) {
                literal_type(l, expected) == Ty::Unique(t)
            } else {
                literal_type(l, expected) == literal_type(l, None)
            },
            Some(t) => if can_be(l, t) {
                literal_type(l, expected) == t
            } else {
                literal_type(l, expected) == literal_type(l, None)
            },
            None => can_be(l, literal_type(l, None)),
        },
{
    reveal(literal_type);
}

/// A template is a string.
pub proof fn law_templates_are_strings(e: Env, st: St, x: Expr, parts: Vec<crate::ast::TemplatePart>, expected: Option<Ty>)
    requires
        x.kind == ExprKind::StringTemplate(parts),
    ensures
        synth(e, st, x, expected) == (template(e, st, parts@, 0), Ty::String),
{
}

/// A tuple is of its items' types, each expected to be what the expected tuple of as many
/// items has in its place.
pub proof fn law_tuples_are_of_their_items(e: Env, st: St, x: Expr, xs: Vec<Expr>, expected: Option<Ty>)
    requires
        x.kind == ExprKind::Tuple(xs),
    ensures
        ({
            let want = match expected {
                Some(Ty::Tuple(ts)) => if ts.len() == xs@.len() {
                    Some(ts)
                } else {
                    None
                },
                _ => None,
            };
            let (after, ts) = tuple_items(e, st, xs@, 0, want, Seq::empty());
            synth(e, st, x, expected) == (after, Ty::Tuple(ts)) && ts.len() == xs@.len()
        }),
{
    let want = match expected {
        Some(Ty::Tuple(ts)) => if ts.len() == xs@.len() {
            Some(ts)
        } else {
            None
        },
        _ => None,
    };
    crate::check::construction::law_tuple_items_in_order(e, st, xs@, 0, want, Seq::empty());
}

// ---------------------------------------------------------------------
// Generic arguments
// ---------------------------------------------------------------------

/// Explicit generic arguments are the types that are written, in order, and each is
/// checked to be valid.
pub proof fn law_explicit_arguments_in_order(e: Env, st: St, ts: Seq<TypeExpr>, i: int, acc: Seq<Ty>)
    requires
        0 <= i <= ts.len(),
    ensures
        ({
            let (after, us) = explicit_args(e, st, ts, i, acc);
            &&& us.len() == acc.len() + ts.len() - i
            &&& forall|k: int| #![trigger us[k]] 0 <= k < acc.len() ==> us[k] == acc[k]
            &&& forall|k: int| #![trigger ts[k]] i <= k < ts.len() ==> us[acc.len() + k - i] == type_of(e.sc, ts[k])
            &&& i < ts.len() ==> {
                let (t, st1) = st.lowered(e.sc, ts[i]);
                let st2 = validated(e, st1, t, crate::ast::type_span(ts[i]));
                no_error(st, after) <==> no_error(st, st1) && no_error(st1, st2) && no_error(st2, after)
            }
        }),
    decreases ts.len() - i,
{
    if i < ts.len() {
        let (t, st1) = st.lowered(e.sc, ts[i]);
        crate::written::law_types_do_not_depend_on_errors(e.sc, ts[i], Seq::empty(), st.diags);
        let st2 = validated(e, st1, t, crate::ast::type_span(ts[i]));
        law_explicit_arguments_in_order(e, st2, ts, i + 1, acc.push(t));
        let (after, us) = explicit_args(e, st, ts, i, acc);
        assert(grows(st, st1) && grows(st1, st2) && grows(st2, after));
        assert(us[acc.len() as int] == acc.push(t)[acc.len() as int]);
        assert forall|k: int| #![trigger us[k]] 0 <= k < acc.len() implies us[k] == acc[k] by {
            assert(acc.push(t)[k] == acc[k]);
        }
    }
}

proof fn lemma_open_params(generics: Seq<(Seq<char>, Seq<Bound>)>, m: Subst, i: int, acc: Seq<Seq<char>>)
    requires
        0 <= i <= generics.len(),
        forall|k: int| #![trigger generics[k]] 0 <= k < generics.len() ==> !m.contains_key(generics[k].0) && generics[k].0
            != "$variadic_len"@,
    ensures
        ({
            let r = open_params(generics, m, i, acc);
            &&& r.len() == acc.len() + generics.len() - i
            &&& forall|k: int| #![trigger r[k]] 0 <= k < acc.len() ==> r[k] == acc[k]
            &&& forall|k: int| #![trigger generics[k]] i <= k < generics.len() ==> r[acc.len() + k - i] == generics[k].0
        }),
    decreases generics.len() - i,
{
    if i < generics.len() {
        let name = generics[i].0;
        assert(generics[i] == generics[i]);
        lemma_open_params(generics, m, i + 1, acc.push(name));
        let r = open_params(generics, m, i, acc);
        assert(r[acc.len() as int] == acc.push(name)[acc.len() as int]);
        assert forall|k: int| #![trigger r[k]] 0 <= k < acc.len() implies r[k] == acc[k] by {
            assert(acc.push(name)[k] == acc[k]);
        }
    }
}

/// Explicit generic arguments are taken without an error exactly if there is one for each
/// parameter that is not chosen yet; each is then chosen for the parameter in its place.
pub proof fn law_explicit_arguments_are_chosen(st: St, sig: Sig, m: Subst, args: Seq<Ty>, span: Span, k: int)
    requires
        !st.silent,
        args.len() > 0,
        0 <= k < sig.generics.len(),
        forall|i: int, j: int|
            #![trigger sig.generics[i], sig.generics[j]]
            0 <= i < j < sig.generics.len() ==> sig.generics[i].0 != sig.generics[j].0,
        forall|i: int|
            #![trigger sig.generics[i]]
            0 <= i < sig.generics.len() ==> !m.contains_key(sig.generics[i].0) && sig.generics[i].0 != "$variadic_len"@,
    ensures
        ({
            let (after, m1) = explicit_chosen(st, sig, m, args, span);
            &&& no_error(st, after) <==> args.len() == sig.generics.len()
            &&& no_error(st, after) ==> m1.get(sig.generics[k].0) == Some(args[k])
        }),
{
    reveal(explicit_chosen);
    lemma_open_params(sig.generics, m, 0, Seq::empty());
    let names = open_params(sig.generics, m, 0, Seq::empty());
    assert(sig.generics[k] == sig.generics[k]);
    assert(names[k] == sig.generics[k].0);
    if args.len() == names.len() {
        assert(names.no_duplicates()) by {
            assert forall|i: int, j: int| 0 <= i < names.len() && 0 <= j < names.len() && i != j implies names[i] != names[j] by {
                assert(names[i] == sig.generics[i].0);
                assert(names[j] == sig.generics[j].0);
            }
        }
        crate::subst::law_zipped_choices(names, args, k);
        assert(zip_subst(names, args).contains_key(names[k]));
    }
}

// ---------------------------------------------------------------------
// Built-in functions
// ---------------------------------------------------------------------

/// Printing is called without an error exactly without generic arguments, and if what is
/// printed can be; it gives nothing. It is no value.
pub proof fn law_printing(
    e: Env,
    st: St,
    def: DefId,
    span: Span,
    args: Option<Seq<Expr>>,
    expected: Option<Ty>,
    id: Option<NodeId>,
    gargs: Seq<Ty>,
)
    requires
        !st.silent,
        e.sc.name(def) == "println"@ || e.sc.name(def) == "print"@,
    ensures
        ({
            let (after, t) = fn_value(e, st, def, span, args, expected, id, gargs);
            match args {
                Some(xs) => (no_error(st, after) <==> gargs.len() == 0 && no_error(st, print_args(e, st, xs, 0)))
                    && crate::check::typing::is_unit(t),
                None => !no_error(st, after),
            }
        }),
{
    let st1 = st.fail_if(gargs.len() > 0, span, "builtin function `"@ + e.sc.name(def) + "` is not generic"@);
    assert(grows(st, st1));
    if let Some(xs) = args {
        run_print_args(e, st1, xs, 0);
        run_print_args(e, st, xs, 0);
    }
}

/// Hashing is called without an error exactly without generic arguments and with one
/// value that can be hashed; it gives a `u64`. It is no value.
pub proof fn law_hashing(
    e: Env,
    st: St,
    def: DefId,
    span: Span,
    args: Option<Seq<Expr>>,
    expected: Option<Ty>,
    id: Option<NodeId>,
    gargs: Seq<Ty>,
)
    requires
        !st.silent,
        e.sc.name(def) == "hash"@,
    ensures
        ({
            let (after, t) = fn_value(e, st, def, span, args, expected, id, gargs);
            match args {
                Some(xs) => (no_error(st, after) <==> gargs.len() == 0 && xs.len() == 1 && no_error(
                    st,
                    hash_args(e, st, xs, 0),
                )) && t == Ty::Primitive(PrimitiveKind::U64),
                None => !no_error(st, after),
            }
        }),
{
    reveal_strlit("hash");
    reveal_strlit("println");
    reveal_strlit("print");
    reveal_strlit("to");
    assert("hash"@.len() == 4 && "println"@.len() == 7 && "print"@.len() == 5 && "to"@.len() == 2);
    let st1 = st.fail_if(gargs.len() > 0, span, "builtin function `hash` is not generic"@);
    assert(grows(st, st1));
    if let Some(xs) = args {
        let st2 = st1.fail_if(
            xs.len() != 1,
            span,
            "`hash` takes exactly 1 argument, found "@ + crate::text::decimal(xs.len()),
        );
        assert(grows(st1, st2));
        run_hash_args(e, st2, xs, 0);
        run_hash_args(e, st, xs, 0);
    }
}

// ---------------------------------------------------------------------
// Struct literals and statements
// ---------------------------------------------------------------------

/// A struct literal without an error names a struct with named fields, gives each of them
/// a value, and is of that struct's type, owned if it says so, with what its fields choose
/// for the struct's parameters.
pub proof fn law_struct_literals(
    e: Env,
    st: St,
    path: Path,
    fields: Seq<crate::ast::FieldInit>,
    owned: bool,
    def: DefId,
)
    requires
        !st.silent,
        e.sc.names.path(path.id) matches Some(res) && res.base == Resolution::Def(def),
        no_error(st, struct_literal(e, st, path, fields, owned, None).0),
    ensures
        e.sc.defs().kind_of(def) is Type,
        e.sigs.type_shapes.get(def) matches Some(Shape::Struct(declared)) && {
            let (after, t) = struct_literal(e, st, path, fields, owned, None);
            let (given, m) = literal_fields(e, st, def, declared, fields, 0, Map::empty());
            &&& no_error(st, given)
            &&& forall|k: int|
                #![trigger declared[k]]
                0 <= k < declared.len() ==> exists|j: int|
                    #![trigger fields[j]]
                    0 <= j < fields.len() && fields[j].name.name@ == declared[k].0
            &&& exists|args: Seq<Ty>| #[trigger]
                crate::check::construction::chosen_in_order(args, e.sigs.generics_of(def), m) && t == (if owned {
                    Ty::Unique(Box::new(Ty::Struct(def, args)))
                } else {
                    Ty::Struct(def, args)
                })
        },
{
    match e.sigs.type_shapes.get(def) {
        Some(Shape::Struct(declared)) => {
            if e.sc.defs().kind_of(def) is Type {
                let (given, m) = literal_fields(e, st, def, declared, fields, 0, Map::empty());
                run_literal_fields(e, st, def, declared, fields, 0, Map::empty());
                let after = missing_fields(e, given, def, declared, initialized(fields), 0, path.span);
                assert(grows(given, after));
                crate::check::construction::law_struct_literals_are_complete(
                    e,
                    given,
                    def,
                    declared,
                    fields,
                    0,
                    path.span,
                );
                let args = crate::check::rules::chosen_types(e.sigs.generics_of(def), m);
                assert(crate::check::construction::chosen_in_order(args, e.sigs.generics_of(def), m));
            }
        },
        _ => {},
    }
}

/// A statement is checked without an error exactly if its expression is, and the type of
/// that has no unknown part, unless it was already reported.
pub proof fn law_statements_are_known(e: Env, st: St, x: Expr)
    requires
        !st.silent,
    ensures
        ({
            let (st1, t) = expr(e, st, x, None);
            let (after, u) = stmt(e, st, Stmt::Expr(x));
            &&& no_error(st, after) <==> no_error(st, st1) && (t is Error || !crate::ty::has_error(t))
            &&& u == t
        }),
{
    run_expr(e, st, x, None);
    let (st1, t) = expr(e, st, x, None);
    let st2 = st1.fail_if(
        !(t is Error) && crate::ty::has_error(t),
        x.span,
        "cannot infer all generic type arguments for this expression"@,
    );
    crate::check::provenance::law_ended_borrows_change_no_results(st2);
}

// ---------------------------------------------------------------------
// Associated types
// ---------------------------------------------------------------------

proof fn lemma_projections(e: Env, bs: Seq<Bound>, name: Seq<char>, i: int, acc: Seq<crate::sig::TypeSig>)
    requires
        0 <= i <= bs.len(),
    ensures
        ({
            let r = projections(e, bs, name, i, acc);
            &&& r.len() >= acc.len()
            &&& forall|k: int| #![trigger r[k]] 0 <= k < acc.len() ==> r[k] == acc[k]
            &&& r.len() == acc.len() + 1 ==> exists|k: int|
                #![trigger bs[k]]
                i <= k < bs.len() && e.sigs.trait_associated_types.get((bs[k].trait_id, name)) == Some(
                    r[acc.len() as int],
                ) && forall|j: int|
                    #![trigger bs[j]]
                    i <= j < bs.len() && j != k ==> !e.sigs.trait_associated_types.contains_key((bs[j].trait_id, name))
            &&& r.len() == acc.len() ==> forall|j: int|
                #![trigger bs[j]]
                i <= j < bs.len() ==> !e.sigs.trait_associated_types.contains_key((bs[j].trait_id, name))
        }),
    decreases bs.len() - i,
{
    if i < bs.len() {
        let r = projections(e, bs, name, i, acc);
        match e.sigs.trait_associated_types.get((bs[i].trait_id, name)) {
            Some(sig) => {
                let acc1 = acc.push(sig);
                lemma_projections(e, bs, name, i + 1, acc1);
                assert(r[acc.len() as int] == acc1[acc.len() as int]);
                assert forall|k: int| #![trigger r[k]] 0 <= k < acc.len() implies r[k] == acc[k] by {
                    assert(acc1[k] == acc[k]);
                }
                assert(e.sigs.trait_associated_types.get((bs[i].trait_id, name)) == Some(sig));
            },
            None => lemma_projections(e, bs, name, i + 1, acc),
        }
    }
}

/// An associated type of a generic parameter is named without an error only if exactly
/// one of the parameter's bounds has it, and it may be named there.
pub proof fn law_associated_types_of_parameters(e: Env, st: St, generic: Seq<char>, name: Seq<char>, span: Span)
    requires
        !st.silent,
        no_error(st, parameter_projection_checked(e, st, generic, name, span)),
    ensures
        st.generics.contains_key(generic),
        ({
            let bs = st.generics[generic];
            exists|k: int|
                #![trigger bs[k]]
                0 <= k < bs.len() && (e.sigs.trait_associated_types.get((bs[k].trait_id, name)) matches Some(sig) && (
                sig.file == span.file || sig.visibility == Visibility::Public)) && forall|j: int|
                    #![trigger bs[j]]
                    0 <= j < bs.len() && j != k ==> !e.sigs.trait_associated_types.contains_key((bs[j].trait_id, name))
        }),
{
    reveal(parameter_projection_checked);
    let bs = match st.generics.get(generic) {
        Some(bs) => bs,
        None => Seq::empty(),
    };
    lemma_projections(e, bs, name, 0, Seq::empty());
}

/// An associated type of a declared type is named without an error exactly if the type has
/// it and it may be named there.
pub proof fn law_associated_types_of_types(e: Env, st: St, owner: Ty, id: DefId, args: Seq<Ty>, name: Seq<char>, span: Span)
    requires
        !st.silent,
        owner == Ty::Struct(id, args) || owner == Ty::TupleStruct(id, args) || owner == Ty::Enum(id, args),
    ensures
        no_error(st, projection_checked(e, st, owner, name, span)) <==> (pair_get(e.sigs.associated_types, (id, name))
            matches Some(sig) && (sig.file == span.file || sig.visibility == Visibility::Public)),
{
    reveal(projection_checked);
}

// ---------------------------------------------------------------------
// Receivers and bindings
// ---------------------------------------------------------------------

proof fn lemma_receiver_args(names: Seq<Seq<char>>, args: Seq<Ty>, m: Subst, i: int, k: int)
    requires
        names.no_duplicates(),
        names.len() <= args.len(),
        0 <= i <= names.len(),
        0 <= k < names.len(),
        forall|j: int| #![trigger args[j]] 0 <= j < args.len() ==> !crate::ty::has_error(args[j]) && !crate::ty::has_generic(
            args[j],
        ),
        k < i ==> m.get(names[k]) == Some(args[k]),
        k >= i ==> !m.contains_key(names[k]),
    ensures
        crate::subst::infer_all(crate::owners::as_parameters(names), args, m, i).get(names[k]) == Some(args[k]),
    decreases names.len() - i,
{
    let ps = crate::owners::as_parameters(names);
    if i < names.len() {
        assert(ps[i] == Ty::Generic(names[i]));
        let m1 = crate::subst::infer(ps[i], args[i], m);
        assert(args[i] == args[i]);
        assert(i != k ==> names[i] != names[k]);
        if i < k {
            assert(!m1.contains_key(names[k]));
        }
        lemma_receiver_args(names, args, m1, i + 1, k);
    }
}

/// The arguments of a receiver's type are chosen for the first generic parameters of its
/// general methods, in order.
pub proof fn law_receivers_choose_their_arguments(owner: DefId, args: Seq<Ty>, base: Ty, set: crate::sig::Methods, sig: Sig, k: int)
    requires
        base == Ty::Struct(owner, args) || base == Ty::TupleStruct(owner, args) || base == Ty::Enum(owner, args),
        set.specializations.len() == 0,
        args.len() <= sig.generics.len(),
        0 <= k < args.len(),
        forall|j: int| #![trigger args[j]] 0 <= j < args.len() ==> !crate::ty::has_error(args[j]) && !crate::ty::has_generic(
            args[j],
        ),
        forall|i: int, j: int|
            #![trigger sig.generics[i], sig.generics[j]]
            0 <= i < j < sig.generics.len() ==> sig.generics[i].0 != sig.generics[j].0,
    ensures
        receiver_choice(base, set, sig).get(sig.generics[k].0) == Some(args[k]),
{
    reveal(receiver_choice);
    let names = crate::owners::names_in(sig.generics.take(args.len() as int));
    assert(forall|j: int| #![trigger names[j]] 0 <= j < names.len() ==> names[j] == sig.generics[j].0);
    assert(names.no_duplicates()) by {
        assert forall|i: int, j: int| 0 <= i < names.len() && 0 <= j < names.len() && i != j implies names[i] != names[j] by {
            assert(names[i] == sig.generics[i].0);
            assert(names[j] == sig.generics[j].0);
        }
    }
    lemma_receiver_args(names, args, Map::empty(), 0, k);
    assert(names[k] == sig.generics[k].0);
}

/// A local that is bound to a reference to another local borrows it until it ends:
/// exclusively, or once more. A reference to a parameter borrows no local.
pub proof fn law_bound_references_borrow(e: Env, st: St, site: NodeId, origin: BorrowOrigin, mutable: bool, span: Span, local: LocalId)
    requires
        e.sc.names.local(site) == Some(local),
    ensures
        ({
            let after = origin_bound(e, st, site, origin, mutable, span);
            &&& after.reference_origins.get(local) == Some(origin)
            &&& after.diags == st.diags
            &&& match origin {
                BorrowOrigin::Local(o) => {
                    &&& after.borrow_origins.get(local) == Some((o, mutable))
                    &&& after.borrows.contains_key(o)
                    &&& mutable ==> after.borrows[o].1 == Some(span)
                    &&& !mutable ==> after.borrows[o].0 > 0 && (st.borrows.contains_key(o) && st.borrows[o].0
                        < usize::MAX ==> after.borrows[o].0 == st.borrows[o].0 + 1)
                },
                BorrowOrigin::Parameter(_) => after.borrows == st.borrows && after.borrow_origins == st.borrow_origins,
            }
        }),
{
    reveal(origin_bound);
    reveal(St::borrowed);
}

/// An assigned exclusive reference to an inline value stands for the value, anything else
/// for itself.
pub proof fn law_assigned_references_stand_for_values(e: Env, t: Ty)
    ensures
        match t {
            Ty::MutRef(inner) => assigned_through(e, t) == (if crate::representation::kind_of_alloc(
                *inner,
                e.sc.defs(),
            ) is Heap {
                t
            } else {
                *inner
            }),
            _ => assigned_through(e, t) == t,
        },
{
    reveal(assigned_through);
}

} // verus!
