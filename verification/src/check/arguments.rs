//! What the arguments of a call, the fields of a literal and the items of a list
//! are that are checked without an error.
use crate::ast::{Expr, ExprKind, Path};
use crate::check::borrows::borrow_arg;
use crate::check::facts::{into_string, mut_arg_checked, require_string};
use crate::check::growth::{group_grows, group_steps, grows, lemma_one_error};
use crate::check::model::{call_args, call_value, expr, fixed_arg, fixed_args, value_args, variadic_args};
use crate::check::record::{run_expr, run_fixed_arg, run_fixed_args, run_value_args, run_variadic_args};
use crate::check::rules::{
    args_counted, call_allowed, choices_checked, choices_recorded, explicit_chosen, fixed_params, variadic,
};
use crate::check::state::{Env, St};
use crate::check::typing::no_error;
use crate::ids::{LocalId, NodeId, Span};
use crate::names::Resolution;
use crate::rules::normal;
use crate::sig::{PSig, Sig};
use crate::subst::{infer, subst, Subst};
use crate::ty::{fits, Ty};
use vstd::prelude::*;

verus! {

broadcast use {group_grows, group_steps, lemma_one_error};

// ---------------------------------------------------------------------
// Calls
// ---------------------------------------------------------------------

/// A call has the right number of arguments exactly if it has one for every
/// parameter; a variadic parameter takes any number.
pub proof fn law_arguments_are_counted(st: St, sig: Sig, n: nat, span: Span)
    requires
        !st.silent,
    ensures
        no_error(st, args_counted(st, sig, n, span)) <==> (n == sig.params.len() || (sig.params.len() > 0
            && sig.params.last().variadic && n + 1 >= sig.params.len())),
{
    reveal(args_counted);
}

/// An unsafe or a foreign function is called without an error exactly where
/// unsafe code is permitted.
pub proof fn law_unsafe_calls_need_permission(st: St, sig: Sig, span: Span)
    requires
        !st.silent,
    ensures
        no_error(st, call_allowed(st, sig, span)) <==> (sig.is_unsafe || sig.is_foreign ==> st.in_unsafe),
{
    reveal(call_allowed);
}

/// Whether an expression names a whole local that is declared `mut`.
pub open spec fn is_mutable_local(e: Env, st: St, x: Expr) -> bool {
    x.kind matches ExprKind::Path(path) && (e.sc.names.path(path.id) matches Some(res) && (res.base
        matches Resolution::Local(id) && (st.locals.get(id) matches Some((_, mutable)) && mutable && res.consumed
        == path.segments@.len())))
}

/// A value is passed for a parameter that does not borrow without an error
/// exactly if the call and the parameter agree on `mut`, what is passed as `mut`
/// is a mutable local, and the value has the parameter's type, with what is
/// inferred from the value put in for generic parameters.
#[verifier::rlimit(40)]
pub proof fn law_arguments_fit(e: Env, st: St, p: PSig, arg: Expr, inner: Expr, m: Subst, borrowed: Map<LocalId, bool>)
    requires
        !st.silent,
        !(normal(e.sigs, subst(p.ty, m)) is Ref),
        !(normal(e.sigs, subst(p.ty, m)) is MutRef),
        match arg.kind {
            ExprKind::MutArg(x) => inner == *x,
            _ => inner == arg,
        },
    ensures
        ({
            let marked = arg.kind is MutArg;
            let (after, m1, borrowed1) = fixed_arg(e, st, p, arg, m, borrowed);
            let (st1, t) = expr(e, st, inner, Some(normal(e.sigs, subst(p.ty, m))));
            &&& no_error(st, after) <==> p.mutable == marked && (marked ==> is_mutable_local(e, st, inner)) && no_error(
                st,
                st1,
            ) && fits(t, normal(e.sigs, subst(p.ty, m1)))
            &&& p.mutable == marked && (marked ==> is_mutable_local(e, st, inner)) ==> m1 == infer(p.ty, t, m)
            &&& borrowed1 == borrowed
        }),
{
    reveal(mut_arg_checked);
    run_expr(e, st, inner, Some(normal(e.sigs, subst(p.ty, m))));
    let st0 = if p.mutable != (arg.kind is MutArg) {
        st.fail(arg.span, crate::check::rules::mut_disagrees(p.name, p.mutable))
    } else if p.mutable {
        mut_arg_checked(e, st, inner)
    } else {
        st
    };
    run_expr(e, st0, inner, Some(normal(e.sigs, subst(p.ty, m))));
}

/// A reference is passed without an error only without a `mut` of the call's own.
pub proof fn law_borrowed_arguments_are_not_marked(e: Env, st: St, p: PSig, arg: Expr, m: Subst, borrowed: Map<LocalId, bool>)
    requires
        !st.silent,
        normal(e.sigs, subst(p.ty, m)) is Ref || normal(e.sigs, subst(p.ty, m)) is MutRef,
    ensures
        ({
            let (after, m1, borrowed1) = fixed_arg(e, st, p, arg, m, borrowed);
            let (lent, t, borrowed2) = borrow_arg(e, st, arg, normal(e.sigs, subst(p.ty, m)), borrowed);
            &&& no_error(st, after) <==> !(arg.kind is MutArg) && no_error(st, lent)
            &&& !(arg.kind is MutArg) ==> m1 == infer(p.ty, t, m) && borrowed1 == borrowed2 && after == lent
        }),
{
}

/// The arguments of a call are checked without an error exactly if the first one
/// is, and the others are after it, with what was inferred from it.
pub proof fn law_every_argument_is_checked(
    e: Env,
    st: St,
    sig: Sig,
    args: Seq<Expr>,
    i: int,
    n: int,
    m: Subst,
    borrowed: Map<LocalId, bool>,
)
    requires
        0 <= i < n <= args.len(),
        n <= sig.params.len(),
    ensures
        ({
            let (st1, m1, borrowed1) = fixed_arg(e, st, sig.params[i], args[i], m, borrowed);
            let (after, m2) = fixed_args(e, st, sig, args, i, n, m, borrowed);
            let (rest, m3) = fixed_args(e, st1, sig, args, i + 1, n, m1, borrowed1);
            &&& no_error(st, after) <==> no_error(st, st1) && no_error(st1, rest)
            &&& m2 == m3
            &&& after == rest
        }),
{
    let (st1, m1, borrowed1) = fixed_arg(e, st, sig.params[i], args[i], m, borrowed);
    run_fixed_arg(e, st, sig.params[i], args[i], m, borrowed);
    run_fixed_args(e, st1, sig, args, i + 1, n, m1, borrowed1);
}

/// A variadic argument is checked without an error exactly if it is not passed
/// as `mut` and has the parameter's type, or for a `String` can become one.
pub proof fn law_variadic_arguments_fit(e: Env, st: St, item: Ty, args: Seq<Expr>, i: int, m: Subst)
    requires
        !st.silent,
        0 <= i < args.len(),
    ensures
        ({
            let (after, m2) = variadic_args(e, st, item, args, i, m);
            let (st1, t) = expr(e, st, args[i], Some(subst(item, m)));
            let m1 = if subst(item, m) is String {
                m
            } else {
                infer(item, t, m)
            };
            let (rest, m3) = variadic_args(e, st1, item, args, i + 1, m1);
            no_error(st, after) <==> !(args[i].kind is MutArg) && no_error(st, st1) && (if subst(item, m) is String {
                into_string(e, st1, t)
            } else {
                fits(t, subst(item, m1))
            }) && no_error(st1, rest)
        }),
{
    reveal(require_string);
    let (st1, t) = expr(e, st, args[i], Some(subst(item, m)));
    run_expr(e, st, args[i], Some(subst(item, m)));
    let st0 = st.fail(args[i].span, "`mut` is not valid for a variadic argument"@);
    run_variadic_args(e, st0, item, args, i + 1, m);
    let m1 = infer(item, t, m);
    run_variadic_args(e, require_string(e, st1, t, args[i].span), item, args, i + 1, m);
    let st2 = st1.fail_if(
        !fits(t, subst(item, m1)),
        args[i].span,
        crate::check::facts::mismatch(e, subst(item, m1), t),
    );
    run_variadic_args(e, st2, item, args, i + 1, m1);
    run_variadic_args(e, st1, item, args, i + 1, m1);
    run_variadic_args(e, st1, item, args, i + 1, m);
}

/// A function value is called without an error exactly if there is an argument
/// for every parameter and each is checked; the result is the function's. Only
/// functions are called.
pub proof fn law_called_values_are_functions(e: Env, st: St, t: Ty, args: Seq<Expr>, span: Span)
    requires
        !st.silent,
    ensures
        ({
            let (after, r) = call_value(e, st, t, args, span);
            match t {
                Ty::Function(params, ret) => {
                    &&& no_error(st, after) <==> args.len() == params.len() && no_error(
                        st,
                        value_args(e, st, params, args, 0, Map::empty()),
                    )
                    &&& r == *ret
                },
                Ty::Error => r is Error,
                _ => !no_error(st, after),
            }
        }),
{
    if t is Function {
        let params = t->Function_0;
        run_value_args(e, st, params, args, 0, Map::empty());
        let st1 = st.fail_if(
            args.len() != params.len(),
            span,
            crate::check::facts::arg_count(params.len(), args.len()),
        );
        run_value_args(e, st1, params, args, 0, Map::empty());
    }
}

/// The arguments of a function value are checked without an error exactly if the
/// first one has its parameter's type, or is lent as it, and the others are
/// checked after it.
pub proof fn law_arguments_of_values_fit(e: Env, st: St, params: Seq<Ty>, args: Seq<Expr>, i: int, borrowed: Map<LocalId, bool>)
    requires
        !st.silent,
        0 <= i < args.len(),
        i < params.len(),
    ensures
        ({
            let after = value_args(e, st, params, args, i, borrowed);
            if params[i] is Ref || params[i] is MutRef {
                let (st1, t, borrowed1) = borrow_arg(e, st, args[i], params[i], borrowed);
                no_error(st, after) <==> no_error(st, st1) && fits(t, params[i]) && no_error(
                    st1,
                    value_args(e, st1, params, args, i + 1, borrowed1),
                )
            } else {
                let (st1, t) = expr(e, st, args[i], Some(params[i]));
                no_error(st, after) <==> no_error(st, st1) && fits(t, params[i]) && no_error(
                    st1,
                    value_args(e, st1, params, args, i + 1, borrowed),
                )
            }
        }),
{
    let p = params[i];
    let (st1, t, borrowed1) = if p is Ref || p is MutRef {
        borrow_arg(e, st, args[i], p, borrowed)
    } else {
        let (st1, t) = expr(e, st, args[i], Some(p));
        (st1, t, borrowed)
    };
    run_expr(e, st, args[i], Some(p));
    let st2 = st1.fail_if(!fits(t, p), args[i].span, crate::check::facts::mismatch(e, p, t));
    run_value_args(e, st2, params, args, i + 1, borrowed1);
    run_value_args(e, st1, params, args, i + 1, borrowed1);
}

/// A call without an error has the right number of arguments, each of which is
/// checked, and chooses a type for every generic parameter.
pub proof fn law_calls_are_complete(
    e: Env,
    st: St,
    sig: Sig,
    args: Seq<Expr>,
    span: Span,
    m: Subst,
    id: Option<NodeId>,
    k: int,
)
    requires
        !st.silent,
        sig.params.len() == 0 || !sig.params.last().variadic,
        no_error(st, call_args(e, st, sig, args, span, None, m, Seq::empty(), id).0),
        0 <= k < sig.generics.len(),
    ensures
        args.len() == sig.params.len(),
        ({
            let (after, chosen) = call_args(e, st, sig, args, span, None, m, Seq::empty(), id);
            let (checked, inferred) = fixed_args(e, st, sig, args, 0, args.len() as int, m, Map::empty());
            &&& no_error(st, checked)
            &&& chosen == inferred
            &&& chosen.contains_key(sig.generics[k].0)
            &&& chosen[sig.generics[k].0] is Const <==> sig.const_params.contains_key(sig.generics[k].0)
            &&& id matches Some(call) ==> after.call_generic_args.contains_key(call)
                && after.call_generic_args[call].len() == sig.generics.len() && after.call_generic_args[call][k]
                == chosen[sig.generics[k].0]
        }),
{
    reveal(args_counted);
    reveal(explicit_chosen);
    reveal(choices_recorded);
    let st0 = args_counted(st, sig, args.len(), span);
    let n = crate::check::rules::smaller(args.len(), fixed_params(sig));
    let (checked, inferred) = fixed_args(e, st0, sig, args, 0, n as int, m, Map::empty());
    run_fixed_args(e, st0, sig, args, 0, n as int, m, Map::empty());
    assert(grows(st, st0));
    assert(grows(st0, checked));
    let st3 = choices_checked(e, checked, sig, inferred, 0, span);
    assert(grows(checked, st3));
    assert(no_error(st, st0) && no_error(st0, checked) && no_error(checked, st3));
    lemma_choices(e, checked, sig, inferred, 0, span, k);
}

proof fn lemma_choices(e: Env, st: St, sig: Sig, m: Subst, i: int, span: Span, k: int)
    requires
        !st.silent,
        0 <= i <= k < sig.generics.len(),
        no_error(st, choices_checked(e, st, sig, m, i, span)),
    ensures
        m.contains_key(sig.generics[k].0),
        m[sig.generics[k].0] is Const <==> sig.const_params.contains_key(sig.generics[k].0),
    decreases sig.generics.len() - i,
{
    reveal(crate::check::facts::const_arg_checked);
    let name = sig.generics[i].0;
    let st1 = match m.get(name) {
        None => st.fail(span, "cannot infer generic parameter `"@ + name + "` from this call's arguments"@),
        Some(t) => crate::check::rules::call_bounds_checked(
            e,
            crate::check::facts::const_arg_checked(st, sig.const_params.contains_key(name), name, t, span),
            name,
            t,
            sig.generics[i].1,
            m,
            0,
            span,
        ),
    };
    if m.get(name) is Some {
        let t = m[name];
        let s0 = crate::check::facts::const_arg_checked(st, sig.const_params.contains_key(name), name, t, span);
        crate::check::growth::step_call_bounds(e, s0, name, t, sig.generics[i].1, m, 0, span);
        assert(grows(s0, st1));
        assert(grows(st, s0));
    }
    assert(grows(st, st1));
    assert(grows(st1, choices_checked(e, st1, sig, m, i + 1, span)));
    if i < k {
        lemma_choices(e, st1, sig, m, i + 1, span, k);
    }
}

} // verus!
