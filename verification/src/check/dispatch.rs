//! What a method, a function or a field is that is named without an error, and what
//! may be handed to a task or a thread.
use crate::ast::{Expr, ExprKind, Ident, TypeExpr};
use crate::check::borrows::{bound_method_index, captured_locals, counts_in, spawn_captures};
use crate::check::facts::{field_read, field_type, into_string_bound, upgraded};
use crate::check::growth::{group_grows, group_steps, grows, lemma_one_error};
use crate::check::model::{
    array_method, call_args, captures_sendable, closure, declared_method, expr, fn_value, method_call, parameter_method,
    receiver_checked, receiver_choice, static_member, task_spawn, thread_spawn, trait_method,
};
use crate::check::record::{run_call_args, run_expr};
use crate::check::rules::{call_allowed, local_read};
use crate::check::state::{BorrowOrigin, Env, St};
use crate::check::typing::{is_unit, no_error};
use crate::ids::{DefId, LocalId, NodeId, SelfParam, Span, Visibility};
use crate::owners::sig_subst;
use crate::representation::kind_of_alloc;
use crate::rules::named_fields_of;
use crate::sig::{ReceiverDomain, Sig};
use crate::subst::{subst, zip_subst, Subst};
use crate::ty::{fits, PrimitiveKind, Ty};
use vstd::prelude::*;

verus! {

broadcast use {group_grows, group_steps, lemma_one_error};

// ---------------------------------------------------------------------
// Receivers
// ---------------------------------------------------------------------

/// Whether a local of an owned type may be used: it has not been moved, is not lent
/// exclusively and, to be consumed, is not lent at all.
pub open spec fn may_use(st: St, local: LocalId, t: Ty, consumes: bool) -> bool {
    t is Unique ==> {
        &&& !st.moved.contains_key(local)
        &&& consumes ==> !st.borrows.contains_key(local)
        &&& st.borrows.contains_key(local) ==> st.borrows[local].1 is None
    }
}

/// A local is used without an error exactly if it may be; consuming it moves it if
/// it is owned, and any other use moves nothing.
pub proof fn law_used_locals_are_there(st: St, local: LocalId, t: Ty, span: Span, consumes: bool)
    requires
        !st.silent,
    ensures
        ({
            let after = st.used(local, t, span, consumes);
            &&& no_error(st, after) <==> may_use(st, local, t, consumes)
            &&& forall|other: LocalId|
                #![trigger after.moved.contains_key(other)]
                after.moved.contains_key(other) <==> st.moved.contains_key(other) || (other == local && t is Unique
                    && consumes && no_error(st, after))
        }),
{
    reveal(St::used);
}

/// A receiver goes with a method exactly if it is mutable for one that changes it,
/// owned for one that consumes it, and, if it is a local, may be used that way.
pub proof fn law_receivers_go_with_methods(
    st: St,
    t: Ty,
    sig: Sig,
    span: Span,
    mutable: Option<bool>,
    local: Option<LocalId>,
)
    requires
        !st.silent,
    ensures
        ({
            let after = receiver_checked(st, t, sig, span, mutable, local);
            let consumes = sig.self_param == Some(SelfParam::Owned);
            &&& no_error(st, after) <==> {
                &&& sig.self_param == Some(SelfParam::ByMutRef) || sig.self_param == Some(SelfParam::OwnedMutRef)
                    ==> mutable == Some(true)
                &&& consumes ==> !(t is Ref) && !(t is MutRef)
                &&& local matches Some(l) ==> may_use(st, l, t, consumes)
            }
            &&& no_error(st, after) && consumes && t is Unique && local is Some ==> after.moved.contains_key(
                local->Some_0,
            )
            &&& no_error(st, after) && !(consumes && t is Unique && local is Some) ==> after.moved == st.moved
        }),
{
    reveal(receiver_checked);
    reveal(St::used);
}

// ---------------------------------------------------------------------
// Methods and functions
// ---------------------------------------------------------------------

/// Whether an item may be named at a place: in its own file, or if it is public.
pub open spec fn is_visible(sig: Sig, span: Span) -> bool {
    sig.file == span.file || sig.visibility == Visibility::Public
}

/// What a call gives: for an `async` function a task of its result.
pub open spec fn is_result_of(r: Ty, sig: Sig, m: Subst) -> bool {
    r == if sig.is_async {
        Ty::Task(Box::new(subst(sig.ret, m)))
    } else {
        subst(sig.ret, m)
    }
}

/// The type that declares the methods of a receiver, and its arguments.
pub open spec fn is_receiver_of(e: Env, t: Ty, owner: DefId, args: Seq<Ty>) -> bool {
    match t {
        Ty::Struct(id, ts) | Ty::TupleStruct(id, ts) | Ty::Enum(id, ts) => owner == id && args == ts,
        Ty::Array(item) => e.sc.defs().found("Array"@) == Some(owner) && args == seq![*item],
        _ => false,
    }
}

/// A method of a declared type is called without an error only if the type has it
/// in the form in which the receiver is held, or as a static one, it may be named
/// there, called there and used on the receiver, and the arguments go with it. The
/// result is the method's, with what the receiver and the arguments choose put in.
pub proof fn law_methods_are_found(
    e: Env,
    st: St,
    t: Ty,
    base: Ty,
    owner: DefId,
    targs: Seq<Ty>,
    method: Ident,
    gargs: Seq<Ty>,
    args: Seq<Expr>,
    id: Option<NodeId>,
    mutable: Option<bool>,
    local: Option<LocalId>,
)
    requires
        !st.silent,
        match t {
            Ty::Unique(a) | Ty::Ref(a) | Ty::MutRef(a) => base == *a,
            _ => base == t,
        },
        is_receiver_of(e, base, owner, targs),
        no_error(st, declared_method(e, st, t, method, gargs, args, id, mutable, local).0),
    ensures
        ({
            let held = if t is Unique || t is Ref || t is MutRef {
                ReceiverDomain::Owned
            } else {
                ReceiverDomain::Arc
            };
            let own = (owner, method.name@, held);
            let fixed = (owner, method.name@, ReceiverDomain::Static);
            let set = if e.sigs.methods.contains_key(own) {
                e.sigs.methods[own]
            } else {
                e.sigs.methods[fixed]
            };
            let (after, r) = declared_method(e, st, t, method, gargs, args, id, mutable, local);
            &&& e.sigs.methods.contains_key(own) || e.sigs.methods.contains_key(fixed)
            &&& set.chosen(targs) matches Some(sig) && {
                let ready = receiver_checked(st, t, sig, method.span, mutable, local);
                let (called, m) = call_args(
                    e,
                    ready,
                    sig,
                    args,
                    method.span,
                    None,
                    receiver_choice(base, set, sig),
                    gargs,
                    id,
                );
                &&& is_visible(sig, method.span)
                &&& sig.is_unsafe || sig.is_foreign ==> st.in_unsafe
                &&& no_error(st, ready)
                &&& no_error(ready, called)
                &&& after == called
                &&& is_result_of(r, sig, m)
            }
        }),
{
    reveal(call_allowed);
    match crate::check::borrows::methods_on(e, t, method.name@) {
        None => {},
        Some(set) => match set.chosen(targs) {
            None => {},
            Some(sig) => {
                let st0 = call_allowed(st, sig, method.span);
                let ready = receiver_checked(st0, t, sig, method.span, mutable, local);
                run_call_args(
                    e,
                    ready,
                    sig,
                    args,
                    method.span,
                    None,
                    receiver_choice(base, set, sig),
                    gargs,
                    id,
                );
                assert(grows(st, st0));
                assert(grows(st0, ready));
            },
        },
    }
}

/// A method is called on a value of a type that has no methods only with an error,
/// unless the value was already reported.
pub proof fn law_other_values_have_no_methods(
    e: Env,
    st: St,
    t: Ty,
    method: Ident,
    gargs: Seq<Ty>,
    args: Seq<Expr>,
    id: Option<NodeId>,
    mutable: Option<bool>,
    local: Option<LocalId>,
)
    requires
        !st.silent,
        t is String || t is Primitive || t is Tuple || t is Function || t is Task || t is Weak || t is FixedArray
            || t is RawConstPtr || t is RawMutPtr || t is Never,
    ensures
        !no_error(st, method_call(e, st, t, method, gargs, args, id, mutable, local).0),
{
}

/// A method of an existential is called without an error only if its trait has it,
/// it may be used on the receiver, and the arguments go with it, with the trait's
/// arguments put in.
pub proof fn law_methods_of_existentials_are_their_traits(
    e: Env,
    st: St,
    base: Ty,
    trait_id: DefId,
    targs: Seq<Ty>,
    method: Ident,
    gargs: Seq<Ty>,
    args: Seq<Expr>,
    id: Option<NodeId>,
    mutable: Option<bool>,
)
    requires
        !st.silent,
        no_error(st, trait_method(e, st, base, trait_id, targs, method, gargs, args, id, mutable).0),
    ensures
        ({
            let (after, r) = trait_method(e, st, base, trait_id, targs, method, gargs, args, id, mutable);
            e.sigs.trait_methods.get((trait_id, method.name@)) matches Some(declared) && {
                let sig = sig_subst(declared, zip_subst(e.sigs.generics_of_trait(trait_id), targs));
                let ready = receiver_checked(st, base, sig, method.span, mutable, None);
                let (called, m) = call_args(e, ready, sig, args, method.span, None, Map::empty(), gargs, id);
                &&& sig.is_unsafe || sig.is_foreign ==> st.in_unsafe
                &&& no_error(st, ready)
                &&& no_error(ready, called)
                &&& after == called
                &&& is_result_of(r, sig, m)
            }
        }),
{
    reveal(call_allowed);
    match e.sigs.trait_methods.get((trait_id, method.name@)) {
        None => {},
        Some(declared) => {
            let sig = sig_subst(declared, zip_subst(e.sigs.generics_of_trait(trait_id), targs));
            let st0 = call_allowed(st, sig, method.span);
            let ready = receiver_checked(st0, base, sig, method.span, mutable, None);
            run_call_args(e, ready, sig, args, method.span, None, Map::empty(), gargs, id);
            assert(grows(st, st0));
            assert(grows(st0, ready));
        },
    }
}

proof fn lemma_first_bound(e: Env, bs: Seq<crate::sig::Bound>, name: Seq<char>, i: int)
    requires
        0 <= i <= bs.len(),
    ensures
        match bound_method_index(e, bs, name, i) {
            Some(k) => {
                &&& i <= k < bs.len()
                &&& (into_string_bound(e, bs[k as int]) && name == "into_string"@) || e.sigs.trait_methods.contains_key(
                    (bs[k as int].trait_id, name),
                )
                &&& forall|j: int|
                    #![trigger bs[j]]
                    i <= j < k ==> !e.sigs.trait_methods.contains_key((bs[j].trait_id, name))
            },
            None => forall|j: int|
                #![trigger bs[j]]
                i <= j < bs.len() ==> !e.sigs.trait_methods.contains_key((bs[j].trait_id, name)),
        },
    decreases bs.len() - i,
{
    if i < bs.len() {
        lemma_first_bound(e, bs, name, i + 1);
    }
}

/// A method is called on a value of a generic parameter's type without an error
/// only if one of the parameter's bounds has it; the first such bound gives the
/// signature, with its arguments put in.
pub proof fn law_methods_of_parameters_are_their_bounds(
    e: Env,
    st: St,
    generic: Seq<char>,
    method: Ident,
    gargs: Seq<Ty>,
    args: Seq<Expr>,
    id: Option<NodeId>,
)
    requires
        !st.silent,
        method.name@ != "into_string"@,
        no_error(st, parameter_method(e, st, generic, method, gargs, args, id).0),
    ensures
        st.generics.contains_key(generic),
        exists|k: int|
            #![trigger st.generics[generic][k]]
            {
                let (after, r) = parameter_method(e, st, generic, method, gargs, args, id);
                let bs = st.generics[generic];
                let declared = e.sigs.trait_methods[(bs[k].trait_id, method.name@)];
                let sig = sig_subst(declared, zip_subst(e.sigs.generics_of_trait(bs[k].trait_id), bs[k].args));
                let (called, m) = call_args(e, st, sig, args, method.span, None, Map::empty(), gargs, id);
                &&& 0 <= k < bs.len()
                &&& e.sigs.trait_methods.contains_key((bs[k].trait_id, method.name@))
                &&& forall|j: int|
                    #![trigger bs[j]]
                    0 <= j < k ==> !e.sigs.trait_methods.contains_key((bs[j].trait_id, method.name@))
                &&& sig.is_unsafe || sig.is_foreign ==> st.in_unsafe
                &&& no_error(st, called)
                &&& after == called
                &&& is_result_of(r, sig, m)
            },
{
    reveal(call_allowed);
    let bs = match st.generics.get(generic) {
        Some(bs) => bs,
        None => Seq::empty(),
    };
    lemma_first_bound(e, bs, method.name@, 0);
    match bound_method_index(e, bs, method.name@, 0) {
        None => {},
        Some(k) => {
            let b = bs[k as int];
            let declared = e.sigs.trait_methods[(b.trait_id, method.name@)];
            let sig = sig_subst(declared, zip_subst(e.sigs.generics_of_trait(b.trait_id), b.args));
            let st0 = call_allowed(st, sig, method.span);
            run_call_args(e, st0, sig, args, method.span, None, Map::empty(), gargs, id);
            assert(grows(st, st0));
            assert(st.generics[generic][k as int] == b);
        },
    }
}

/// A method is called through its type without an error only if it has no receiver,
/// may be named there and called there, and the arguments go with it.
pub proof fn law_static_members_have_no_receiver(
    e: Env,
    st: St,
    owner: DefId,
    idx: u32,
    span: Span,
    args: Seq<Expr>,
    id: Option<NodeId>,
    gargs: Seq<Ty>,
    name: Seq<char>,
    sig: Sig,
)
    requires
        !st.silent,
        e.sc.defs().method_name_of(owner, idx) == Some(name),
        e.sigs.method_in_any_domain(owner, name) == Some(sig),
    ensures
        ({
            let (after, r) = static_member(e, st, owner, idx, span, Some(args), id, gargs);
            let (called, m) = call_args(e, st, sig, args, span, None, Map::empty(), gargs, id);
            &&& no_error(st, after) <==> {
                &&& is_visible(sig, span)
                &&& sig.self_param is None
                &&& sig.is_unsafe || sig.is_foreign ==> st.in_unsafe
                &&& no_error(st, called)
            }
            &&& no_error(st, after) ==> is_result_of(r, sig, m) && after == called
        }),
{
    reveal(call_allowed);
    let st0 = call_allowed(st, sig, span);
    run_call_args(e, st0, sig, args, span, None, Map::empty(), gargs, id);
    run_call_args(e, st, sig, args, span, None, Map::empty(), gargs, id);
    assert(grows(st, st0));
}

/// A declared function is called without an error exactly if it may be called there
/// and the arguments go with it; the result is the function's, with what the
/// arguments choose put in.
pub proof fn law_called_functions_give_their_result(
    e: Env,
    st: St,
    def: DefId,
    span: Span,
    args: Seq<Expr>,
    expected: Option<Ty>,
    id: Option<NodeId>,
    gargs: Seq<Ty>,
    sig: Sig,
)
    requires
        !st.silent,
        e.sc.name(def) != "println"@,
        e.sc.name(def) != "print"@,
        e.sc.name(def) != "to"@,
        e.sc.name(def) != "hash"@,
        e.sigs.fns.get(def) == Some(sig),
    ensures
        ({
            let (after, r) = fn_value(e, st, def, span, Some(args), expected, id, gargs);
            let (called, m) = call_args(e, st, sig, args, span, expected, Map::empty(), gargs, id);
            &&& no_error(st, after) <==> (sig.is_unsafe || sig.is_foreign ==> st.in_unsafe) && no_error(st, called)
            &&& no_error(st, after) ==> is_result_of(r, sig, m) && after == called
        }),
{
    reveal(call_allowed);
    let st0 = call_allowed(st, sig, span);
    run_call_args(e, st0, sig, args, span, expected, Map::empty(), gargs, id);
    run_call_args(e, st, sig, args, span, expected, Map::empty(), gargs, id);
    assert(grows(st, st0));
}

/// A function without generic parameters is a value of its parameters' and its
/// result's types; a generic one is no value.
pub proof fn law_functions_as_values(
    e: Env,
    st: St,
    def: DefId,
    span: Span,
    expected: Option<Ty>,
    id: Option<NodeId>,
    gargs: Seq<Ty>,
    sig: Sig,
)
    requires
        !st.silent,
        e.sc.name(def) != "println"@,
        e.sc.name(def) != "print"@,
        e.sc.name(def) != "to"@,
        e.sc.name(def) != "hash"@,
        e.sigs.fns.get(def) == Some(sig),
    ensures
        ({
            let (after, r) = fn_value(e, st, def, span, None, expected, id, gargs);
            &&& no_error(st, after) <==> sig.generics.len() == 0
            &&& no_error(st, after) ==> (r matches Ty::Function(params, ret) && params.len() == sig.params.len() && *ret
                == (if sig.is_async {
                Ty::Task(Box::new(sig.ret))
            } else {
                sig.ret
            }) && forall|i: int| #![trigger params[i]] 0 <= i < params.len() ==> params[i] == sig.params[i].ty)
        }),
{
    reveal(crate::check::model::fn_type);
}

proof fn lemma_array_names()
    ensures
        "len"@ != "push"@,
        "len"@ != "pop"@,
        "push"@ != "pop"@,
{
    reveal_strlit("len");
    reveal_strlit("push");
    reveal_strlit("pop");
    assert("len"@[0] == 'l');
    assert("pop"@[0] == 'p');
    assert("push"@.len() == 4);
    assert("pop"@.len() == 3);
}

/// What an array's own methods take and give: `len` nothing and a number, `push` one
/// value of the element type, and `pop` nothing and an element that may be missing.
pub proof fn law_array_methods(e: Env, st: St, item: Ty, method: Ident, args: Seq<Expr>)
    requires
        !st.silent,
        method.name@ == "len"@ || method.name@ == "push"@ || method.name@ == "pop"@,
    ensures
        ({
            let (after, r) = array_method(e, st, item, method, args);
            &&& method.name@ == "len"@ ==> (no_error(st, after) <==> args.len() == 0) && r == Ty::Primitive(
                PrimitiveKind::Usize,
            )
            &&& method.name@ == "push"@ ==> {
                let (st1, t) = expr(e, st, args[0], Some(item));
                &&& no_error(st, after) <==> args.len() == 1 && no_error(st, st1) && fits(t, item)
                &&& is_unit(r)
            }
            &&& method.name@ == "pop"@ ==> {
                &&& no_error(st, after) <==> args.len() == 0
                &&& e.sc.defs().found("Option"@) matches Some(option) ==> r == Ty::Enum(option, seq![item])
            }
        }),
{
    lemma_array_names();
    if method.name@ == "push"@ && args.len() > 0 {
        run_expr(e, st, args[0], Some(item));
        let st1 = st.fail_if(args.len() != 1, method.span, crate::check::facts::arg_count(1, args.len()));
        run_expr(e, st1, args[0], Some(item));
        assert(grows(st, st1));
    }
}

/// An array is changed by `push` or `pop` without an error only through a mutable
/// receiver.
pub proof fn law_changed_arrays_are_mutable(
    e: Env,
    st: St,
    t: Ty,
    item: Ty,
    method: Ident,
    gargs: Seq<Ty>,
    args: Seq<Expr>,
    id: Option<NodeId>,
    mutable: Option<bool>,
    local: Option<LocalId>,
)
    requires
        !st.silent,
        t == Ty::Array(Box::new(item)),
        method.name@ == "push"@ || method.name@ == "pop"@,
        no_error(st, method_call(e, st, t, method, gargs, args, id, mutable, local).0),
    ensures
        mutable == Some(true),
        gargs.len() == 0,
        no_error(st, array_method(e, st, item, method, args).0),
{
    lemma_array_names();
    let st1 = st.fail_if(gargs.len() > 0, method.span, "array methods are not generic"@);
    let st2 = st1.fail_if(
        mutable != Some(true),
        method.span,
        "cannot call a `mut self` method through an immutable receiver — declare it with `let mut`"@,
    );
    assert(grows(st, st1) && grows(st1, st2));
    crate::check::record::run_array_method(e, st2, item, method, args);
}

// ---------------------------------------------------------------------
// Fields
// ---------------------------------------------------------------------

/// A field is read without an error exactly if the value's type declares it and it
/// may be named there; a weak one reads as a value that may be missing.
pub proof fn law_read_fields_are_declared(e: Env, st: St, base: Ty, t: Ty, name: Seq<char>, span: Span)
    requires
        !st.silent,
        match base {
            Ty::Unique(a) | Ty::Ref(a) | Ty::MutRef(a) => t == *a,
            _ => t == base,
        },
        !(t is Error),
    ensures
        ({
            let (after, r) = field_type(e, st, base, name, span);
            let (after1, r1) = field_read(e, st, base, name, span);
            &&& after1 == after
            &&& no_error(st, after) <==> (exists|f: Ty| #[trigger]
                has_field(e, t, name, f)) && (t matches Ty::Struct(id, _) ==> crate::check::construction::may_name(
                e,
                id,
                name,
                span,
            ))
            &&& no_error(st, after) ==> has_field(e, t, name, r)
            &&& no_error(st, after) ==> match r {
                Ty::Weak(inner) => match e.sc.defs().found("Option"@) {
                    Some(option) => r1 == Ty::Enum(option, seq![*inner]),
                    None => r1 is Error,
                },
                _ => r1 == r,
            }
        }),
{
    reveal(field_type);
    reveal(field_read);
    reveal(upgraded);
    match named_fields_of(e.sigs, t) {
        Some(fs) => {
            crate::check::construction::lemma_field_named(fs, name, 0);
            match crate::check::facts::field_named(fs, name, 0) {
                Some(f) => {
                    assert(has_field(e, t, name, f));
                },
                None => {
                    assert(!exists|f: Ty| #[trigger] has_field(e, t, name, f));
                },
            }
        },
        None => {},
    }
}

/// Whether the named fields of a type are known and the first of this name is of
/// this type.
pub open spec fn has_field(e: Env, t: Ty, name: Seq<char>, f: Ty) -> bool {
    named_fields_of(e.sigs, t) matches Some(fs) && crate::check::construction::declares_field(fs, name, f)
}

/// A reference to an inline value reads as the value, where no reference is
/// expected; a weak value as one that may be missing; anything else as itself.
pub proof fn law_locals_read_as_their_values(e: Env, t: Ty, whole: bool, expected: Option<Ty>)
    ensures
        ({
            let r = local_read(e, t, whole, expected);
            let wanted = expected matches Some(w) && (w is Ref || w is MutRef);
            match t {
                Ty::Ref(inner) | Ty::MutRef(inner) => r == (if whole && !wanted && !(kind_of_alloc(
                    *inner,
                    e.sc.defs(),
                ) is Heap) {
                    *inner
                } else {
                    t
                }),
                Ty::Weak(inner) => match e.sc.defs().found("Option"@) {
                    Some(option) => r == Ty::Enum(option, seq![*inner]),
                    None => r is Error,
                },
                _ => r == t,
            }
        }),
{
    reveal(local_read);
    reveal(upgraded);
}

// ---------------------------------------------------------------------
// Tasks and threads
// ---------------------------------------------------------------------

proof fn lemma_spawn_borrows(st: St, locals: Seq<LocalId>, i: int, span: Span, kind: Seq<char>)
    requires
        !st.silent,
        0 <= i <= locals.len(),
    ensures
        ({
            let after = crate::check::borrows::spawn_borrows(st, locals, i, span, kind);
            &&& grows(st, after)
            &&& no_error(st, after) <==> forall|k: int|
                #![trigger locals[k]]
                i <= k < locals.len() ==> !(st.reference_origins.get(locals[k]) matches Some(BorrowOrigin::Local(_)))
        }),
    decreases locals.len() - i,
{
    reveal(St::fail);
    if i < locals.len() {
        let wrong = st.reference_origins.get(locals[i]) matches Some(BorrowOrigin::Local(_));
        let st1 = st.fail_if(wrong, span, crate::check::borrows::spawn_borrow_message(kind));
        assert(st1.reference_origins == st.reference_origins);
        lemma_spawn_borrows(st1, locals, i + 1, span, kind);
    }
}

/// What is spawned captures no reference to a local: that is the only error of what
/// it captures.
pub proof fn law_spawned_code_borrows_no_locals(e: Env, st: St, x: Expr, kind: Seq<char>)
    requires
        !st.silent,
    ensures
        ({
            let (after, captured) = spawn_captures(e, st, x, kind);
            no_error(st, after) <==> forall|k: int|
                #![trigger captured[k]]
                0 <= k < captured.len() ==> !(st.reference_origins.get(captured[k]) matches Some(BorrowOrigin::Local(_)))
        }),
{
    reveal(spawn_captures);
    let locals = captured_locals(st, counts_in(e, x), 0, Seq::empty());
    lemma_spawn_borrows(st, locals, 0, x.span, kind);
}

/// What a thread captures may cross to it: that is the only error of sending it.
pub proof fn law_captured_values_may_cross(e: Env, st: St, locals: Seq<LocalId>, i: int, span: Span)
    requires
        !st.silent,
        0 <= i <= locals.len(),
    ensures
        ({
            let after = captures_sendable(e, st, locals, i, span);
            no_error(st, after) <==> forall|k: int|
                #![trigger locals[k]]
                i <= k < locals.len() && st.locals.contains_key(locals[k]) ==> crate::send_sync::sendable(
                    e.sigs,
                    e.sc.defs(),
                    st.locals[locals[k]].0,
                    crate::rules::NESTING_LIMIT as nat,
                )
        }),
    decreases locals.len() - i,
{
    reveal(St::fail);
    if i < locals.len() {
        let st1 = match st.locals.get(locals[i]) {
            Some((t, _)) => st.fail_if(
                !crate::send_sync::sendable(e.sigs, e.sc.defs(), t, crate::rules::NESTING_LIMIT as nat),
                span,
                crate::check::model::not_send(e, t),
            ),
            None => st,
        };
        assert(st1.locals == st.locals);
        assert(grows(st, st1));
        assert(grows(st1, captures_sendable(e, st1, locals, i + 1, span)));
        law_captured_values_may_cross(e, st1, locals, i + 1, span);
    }
}

/// A task is spawned without an error exactly inside an `async` function, without
/// generic arguments, and with one task that captures no reference to a local; what
/// results is that task.
pub proof fn law_spawned_tasks_are_tasks(e: Env, st: St, callee: Expr, gargs: Seq<TypeExpr>, args: Seq<Expr>, span: Span)
    requires
        !st.silent,
        no_error(st, task_spawn(e, st, callee, gargs, args, span).0),
    ensures
        st.in_async,
        gargs.len() == 0,
        args.len() == 1,
        ({
            let (after, r) = task_spawn(e, st, callee, gargs, args, span);
            let (st1, t) = expr(e, st, args[0], None);
            &&& no_error(st, st1)
            &&& r == t
            &&& t is Task || t is Error
            &&& t is Task ==> no_error(st1, spawn_captures(e, st1, args[0], "task"@).0)
        }),
{
    let st1 = st.fail_if(!st.in_async, span, "`task.spawn` is only allowed inside an `async fn`"@);
    let st2 = st1.fail_if(gargs.len() > 0, crate::check::model::second_span(callee), "`task.spawn` is not generic"@);
    assert(grows(st, st1) && grows(st1, st2));
    if args.len() == 1 {
        run_expr(e, st2, args[0], None);
        let (st3, t) = expr(e, st2, args[0], None);
        assert(grows(st3, spawn_captures(e, st3, args[0], "task"@).0));
    }
}

/// A thread is spawned without an error only with a closure that takes what it
/// captures, has no parameters and gives no result, and whose captured values may
/// cross to another thread and borrow no local.
pub proof fn law_spawned_threads_take_what_they_use(e: Env, st: St, arg: Expr)
    requires
        !st.silent,
        no_error(st, thread_spawn(e, st, arg).0),
    ensures
        thread_spawn(e, st, arg).1 matches Ty::Thread(output) && is_unit(*output),
        arg.kind matches ExprKind::Closure { move_capture, mut_capture: _, params, body } && {
            let (st1, captured) = spawn_captures(e, st, *body, "thread"@);
            let st2 = captures_sendable(e, st1, captured, 0, arg.span);
            let (st3, t) = expr(e, st2, arg, None);
            &&& move_capture
            &&& params@.len() == 0
            &&& no_error(st, st1)
            &&& no_error(st1, st2)
            &&& no_error(st2, st3)
            &&& t matches Ty::Function(_, ret) ==> *ret is Error || *ret is Never || is_unit(*ret)
        },
{
    match arg.kind {
        ExprKind::Closure { move_capture, mut_capture: _, params, body } => {
            let st1 = st.fail_if(!move_capture, arg.span, "a `thread.spawn` closure must be `move`"@);
            let st2 = st1.fail_if(params@.len() > 0, arg.span, "a `thread.spawn` closure takes no parameters"@);
            let (st3, captured) = spawn_captures(e, st2, *body, "thread"@);
            let st4 = captures_sendable(e, st3, captured, 0, arg.span);
            run_expr(e, st4, arg, None);
            let (st5, t) = expr(e, st4, arg, None);
            assert(grows(st, st1) && grows(st1, st2) && grows(st2, st3) && grows(st3, st4) && grows(st4, st5));
            if t is Function {
                let ret = *(t->Function_1);
                assert(fits(ret, crate::ty::ty_unit()) ==> ret is Error || ret is Never || is_unit(ret)) by {
                    reveal_with_fuel(fits, 2);
                }
            }
        },
        _ => {
            let st1 = st.fail(
                arg.span,
                "`thread.spawn` requires a `move` closure literal argument, e.g. `thread.spawn(move () => { ... })`"@,
            );
            run_expr(e, st1, arg, None);
        },
    }
}

} // verus!
