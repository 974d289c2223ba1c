//! What checking an expression, a statement or a block does: the state after
//! it, and the type it has.
use crate::ast::{
    args_size, arms_size, block_size, expr_size, exprs_size, fields_size, lemma_exprs_size, lemma_exprs_tail,
    opt_size, parts_size, stmt_size, stmts_size, Block, Expr, ExprKind, FieldAccessor, FieldInit, Ident, MatchArm,
    Param, Path, Pattern, Stmt, TemplatePart, TypeExpr,
};
use crate::check::borrows::{
    bound_method_index, borrow_arg, captured_mutably, captured_references, counted, counts_in, method_args,
    methods_on, returned_closure, returned_reference, spawn_captures,
};
use crate::check::facts::{
    arg_count, bare_local, field_read, field_type, has_local_root, hidden, index_read, into_string_bound, literal_type,
    mismatch, mut_arg_checked, private_field, require_bool, require_string, root_mutable, writable,
};
use crate::check::patterns::{pattern, PatSt};
use crate::check::rules::{
    all_merged, args_counted, arms_retyped, assigned_fields, assigned_through, binary, branch_type, call_allowed,
    call_result, choices_checked, choices_recorded, chosen_types, closure_bound, closure_done, closure_expected,
    closure_params, converted, deref_allowed, element, exhaustive, explicit_args, explicit_chosen, fixed_params,
    inferred_origin, is_ref, let_bound, local_read, mut_disagrees, path_fields, pointee, rest_count, settled, smaller,
    stored_owned, tail_retyped, unary, variadic, writable_pointee, Stored,
};
use crate::check::state::{Env, St};
use crate::declarations::ty_integer;
use crate::describe::shown;
use crate::ids::{DefId, LocalId, NodeId, SelfParam, Span};
use crate::names::{DefKind, PathResolution, Resolution};
use crate::owners::{as_parameters, names_in, sig_subst};
use crate::rules::{derivable, normal, Derived, NESTING_LIMIT};
use crate::send_sync::sendable;
use crate::sig::{specialized, Bound, Methods, PSig, Shape, Sig};
use crate::subst::{infer, infer_all, subst, zip_subst, Subst};
use crate::text::decimal;
use crate::ty::{fits, has_error, ty_direct, ty_unit, PrimitiveKind, Ty};
use vstd::prelude::*;

verus! {

/// After checking an expression against what is expected of it.
pub open spec fn expr(e: Env, st: St, x: Expr, expected: Option<Ty>) -> (St, Ty)
    decreases expr_size(x), 9nat,
{
    let (st1, t) = synth(e, st, x, expected);
    settled(e, st1, x.id, x.span, t, expected)
}

/// After finding an expression's type, before it is settled.
pub open spec fn synth(e: Env, st: St, x: Expr, expected: Option<Ty>) -> (St, Ty)
    decreases expr_size(x), 8nat,
{
    match x.kind {
        ExprKind::Literal(l) => (st, literal_type(l, expected)),
        ExprKind::Path(path) => value_path(e, st, path, None, expected, None, Seq::empty()),
        ExprKind::Tuple(xs) => {
            let want = match expected {
                Some(Ty::Tuple(ts)) => if ts.len() == xs@.len() {
                    Some(ts)
                } else {
                    None
                },
                _ => None,
            };
            let (st1, ts) = tuple_items(e, st, xs@, 0, want, Seq::empty());
            (st1, Ty::Tuple(ts))
        },
        ExprKind::Array(xs) => array(e, st, xs@, expected, x.span),
        ExprKind::FixedArray(xs) => fixed_array(e, st, xs@, expected, x.span),
        ExprKind::Await(a) => {
            let st0 = st.fail_if(!st.in_async, x.span, "`await` is only allowed inside an `async fn`"@);
            let (st1, t) = expr(e, st0, *a, None);
            match t {
                Ty::Task(output) => (st1, *output),
                Ty::Error => (st1, Ty::Error),
                _ => (
                    st1.fail(a.span, "cannot await `"@ + shown(t, e.sc.defs()) + "`; expected a task"@),
                    Ty::Error,
                ),
            }
        },
        ExprKind::StringTemplate(parts) => (template(e, st, parts@, 0), Ty::String),
        ExprKind::RawBorrow { mutable, place } => {
            let st0 = st.fail_if(
                !has_local_root(e.sc.names, *place),
                place.span,
                "`&raw const`/`&raw mut` requires a place expression — a local binding or one of its fields/elements/dereferences"@,
            );
            let (st1, t) = expr(e, st0, *place, None);
            (
                st1,
                if mutable {
                    Ty::RawMutPtr(Box::new(t))
                } else {
                    Ty::RawConstPtr(Box::new(t))
                },
            )
        },
        ExprKind::RawDeref(a) => {
            let (st1, t) = expr(e, deref_allowed(st, x.span), *a, None);
            pointee(e, st1, t, a.span)
        },
        ExprKind::Unary { op, expr: a } => {
            let (st1, t) = expr(e, st, *a, None);
            unary(st1, op, t, a.span)
        },
        ExprKind::Binary { op, lhs, rhs } => {
            let (st1, a) = expr(e, st, *lhs, None);
            let (st2, b) = expr(e, st1, *rhs, Some(a));
            binary(e, st2, op, a, lhs.span, b, rhs.span)
        },
        ExprKind::Assign { target, value } => assign(e, st, *target, *value),
        ExprKind::Call { callee, generic_args, args } => if named_call(*callee, "task"@, "spawn"@) {
            called(task_spawn(e, st, *callee, generic_args@, args@, x.span), *callee)
        } else if named_call(*callee, "thread"@, "spawn"@) {
            let st1 = st.fail_if(
                generic_args@.len() > 0,
                second_span(*callee),
                "`thread.spawn` is not generic"@,
            );
            if args@.len() != 1 {
                (
                    st1.fail(x.span, "`thread.spawn` expects 1 argument, found "@ + decimal(args@.len())),
                    Ty::Error,
                )
            } else {
                proof {
                    lemma_exprs_size(args@, 0, 0);
                }
                called(thread_spawn(e, st1, args@[0]), *callee)
            }
        } else if named_call(*callee, "timer"@, "sleep"@) {
            called(timer_sleep(e, st, generic_args@, second_span(*callee), args@, x.span), *callee)
        } else {
            let (st1, gargs) = explicit_args(e, st, generic_args@, 0, Seq::empty());
            call(e, st1, x.id, *callee, gargs, args@, expected)
        },
        ExprKind::MutArg(a) => expr(e, st, *a, None),
        ExprKind::MethodCall { receiver, method, generic_args, args } => if bare_name(*receiver, "timer"@)
            && method.name@ == "sleep"@ {
            called(timer_sleep(e, st, generic_args@, method.span, args@, x.span), *receiver)
        } else {
            let (st1, gargs) = explicit_args(e, st, generic_args@, 0, Seq::empty());
            let (st2, t) = expr(e, st1, *receiver, None);
            method_call(
                e,
                st2,
                t,
                method,
                gargs,
                args@,
                Some(x.id),
                root_mutable(e.sc.names, st2, *receiver),
                bare_local(e.sc.names, *receiver),
            )
        },
        ExprKind::Field { base, field } => {
            let (st1, t) = expr(e, st, *base, None);
            match field {
                FieldAccessor::Named(ident) => field_read(e, st1, t, ident.name@, ident.span),
                FieldAccessor::Index(idx, span) => index_read(e, st1, t, idx, span),
            }
        },
        ExprKind::Index { base, index } => {
            let (st1, a) = expr(e, st, *base, None);
            let (st2, b) = expr(e, st1, *index, None);
            element(e, st2, a, base.span, b, index.span)
        },
        ExprKind::If { cond, then_branch, else_branch } => conditional(
            e,
            st,
            *cond,
            then_branch,
            else_branch,
            expected,
        ),
        ExprKind::Match { scrutinee, arms } => matching(e, st, *scrutinee, arms@, x.span, expected),
        ExprKind::Block(b) => block(e, st, b, expected),
        ExprKind::Unsafe(b) => {
            let (st1, t) = block(e, St { in_unsafe: true, ..st }, b, expected);
            (St { in_unsafe: st.in_unsafe, ..st1 }, t)
        },
        ExprKind::While { cond, body } => {
            let (st1, t) = expr(e, st, *cond, None);
            (loop_body(e, require_bool(st1, t, cond.span, "`while` condition"@), body), ty_unit())
        },
        ExprKind::ForIn { pattern: p, iter, body } => for_in(e, st, p, *iter, body),
        ExprKind::Loop { body } => (loop_body(e, st, body), ty_unit()),
        ExprKind::Break(v) => {
            let st1 = st.fail_if(!st.in_loop, x.span, "`break` is only valid inside a loop"@);
            match v {
                Some(a) => (expr(e, st1, *a, None).0, Ty::Never),
                None => (st1, Ty::Never),
            }
        },
        ExprKind::Continue => (
            st.fail_if(!st.in_loop, x.span, "`continue` is only valid inside a loop"@),
            Ty::Never,
        ),
        ExprKind::Return(v) => returning(e, st, v, x.span),
        ExprKind::Closure { move_capture: _, mut_capture, params, body } => closure(
            e,
            st,
            x.id,
            mut_capture,
            params@,
            *body,
            expected,
        ),
        ExprKind::StructLit { path, fields, owned } => struct_literal(e, st, path, fields@, owned, expected),
    }
}

/// After a call of something built in, whose name has the type of the call.
pub open spec fn called(r: (St, Ty), name: Expr) -> (St, Ty) {
    (r.0.typed(name.id, r.1), r.1)
}

/// Whether an expression is the path `a.b`.
pub open spec fn named_call(callee: Expr, a: Seq<char>, b: Seq<char>) -> bool {
    match callee.kind {
        ExprKind::Path(path) => path.segments@.len() == 2 && path.segments@[0].name@ == a && path.segments@[1].name@
            == b,
        _ => false,
    }
}

/// Whether an expression is the path `a`.
pub open spec fn bare_name(x: Expr, a: Seq<char>) -> bool {
    match x.kind {
        ExprKind::Path(path) => path.segments@.len() == 1 && path.segments@[0].name@ == a,
        _ => false,
    }
}

/// The position of a path's second segment.
pub open spec fn second_span(x: Expr) -> Span {
    match x.kind {
        ExprKind::Path(path) => if path.segments@.len() > 1 {
            path.segments@[1].span
        } else {
            path.span
        },
        _ => x.span,
    }
}

// ---------------------------------------------------------------------
// Literals of several parts
// ---------------------------------------------------------------------

/// After the items of a tuple from the `i`-th on, after `acc`.
pub open spec fn tuple_items(e: Env, st: St, xs: Seq<Expr>, i: int, want: Option<Seq<Ty>>, acc: Seq<Ty>) -> (St, Seq<Ty>)
    decreases exprs_size(xs, i), 1nat,
{
    if 0 <= i < xs.len() {
        let w = match want {
            Some(ts) => if i < ts.len() {
                Some(ts[i])
            } else {
                None
            },
            None => None,
        };
        let (st1, t) = expr(e, st, xs[i], w);
        tuple_items(e, st1, xs, i + 1, want, acc.push(t))
    } else {
        (st, acc)
    }
}

/// After the elements of an array from the `i`-th on, of which the first has
/// type `first`.
pub open spec fn array_rest(e: Env, st: St, xs: Seq<Expr>, i: int, first: Ty, what: Seq<char>) -> St
    decreases exprs_size(xs, i), 1nat,
{
    if 0 <= i < xs.len() {
        let (st1, t) = expr(e, st, xs[i], Some(first));
        array_rest(
            e,
            st1.fail_if(
                !fits(t, first),
                xs[i].span,
                mismatch(e, first, t) + " in "@ + what + " literal"@,
            ),
            xs,
            i + 1,
            first,
            what,
        )
    } else {
        st
    }
}

/// After the elements of an array that has some.
pub open spec fn array_items(e: Env, st: St, xs: Seq<Expr>, want: Option<Ty>, what: Seq<char>) -> (St, Ty)
    decreases exprs_size(xs, 0), 2nat,
{
    if xs.len() == 0 {
        (st, Ty::Error)
    } else {
        let (st1, first) = expr(e, st, xs[0], want);
        (array_rest(e, st1, xs, 1, first, what), first)
    }
}

/// After `[..]`; where a fixed array is expected it is one.
pub open spec fn array(e: Env, st: St, xs: Seq<Expr>, expected: Option<Ty>, span: Span) -> (St, Ty)
    decreases exprs_size(xs, 0), 4nat,
{
    match expected {
        Some(Ty::FixedArray(_, _)) => fixed_array(e, st, xs, expected, span),
        _ => {
            let want = match expected {
                Some(Ty::Array(inner)) => Some(*inner),
                _ => None,
            };
            if xs.len() == 0 {
                match want {
                    Some(inner) => (st, Ty::Array(Box::new(inner))),
                    None => (
                        st.fail(
                            span,
                            "cannot infer the element type of an empty array literal without context"@,
                        ),
                        Ty::Error,
                    ),
                }
            } else {
                let (st1, first) = array_items(e, st, xs, want, "array"@);
                (st1, Ty::Array(Box::new(first)))
            }
        },
    }
}

/// After `{..}`.
pub open spec fn fixed_array(e: Env, st: St, xs: Seq<Expr>, expected: Option<Ty>, span: Span) -> (St, Ty)
    decreases exprs_size(xs, 0), 3nat,
{
    let want = match expected {
        Some(Ty::FixedArray(inner, n)) => Some((*inner, *n)),
        _ => None,
    };
    if xs.len() == 0 {
        match want {
            Some((inner, n)) if n == Ty::Const(0) => (st, Ty::FixedArray(Box::new(inner), Box::new(n))),
            _ => (
                st.fail(
                    span,
                    "cannot infer the element type of an empty fixed-array literal without context"@,
                ),
                Ty::Error,
            ),
        }
    } else {
        let element = match want {
            Some((inner, _)) => Some(inner),
            None => None,
        };
        let (st1, first) = array_items(e, st, xs, element, "fixed-array"@);
        let st2 = match want {
            Some((_, Ty::Const(n))) => st1.fail_if(
                n != xs.len(),
                span,
                "fixed array expects "@ + decimal(n as nat) + " element(s), found "@ + decimal(xs.len()),
            ),
            _ => st1,
        };
        (st2, Ty::FixedArray(Box::new(first), Box::new(Ty::Const(xs.len() as u128))))
    }
}

/// After the parts of a template string from the `i`-th on.
pub open spec fn template(e: Env, st: St, parts: Seq<TemplatePart>, i: int) -> St
    decreases parts_size(parts, i), 1nat,
{
    if 0 <= i < parts.len() {
        let st1 = match parts[i] {
            TemplatePart::Expr(x) => {
                let (st1, t) = expr(e, st, x, None);
                require_string(e, st1, t, x.span)
            },
            TemplatePart::Text => st,
        };
        template(e, st1, parts, i + 1)
    } else {
        st
    }
}

// ---------------------------------------------------------------------
// Assignment
// ---------------------------------------------------------------------

/// After an assignment.
pub open spec fn assign(e: Env, st: St, target: Expr, value: Expr) -> (St, Ty)
    decreases expr_size(target) + expr_size(value), 10nat,
{
    match target.kind {
        ExprKind::RawDeref(pointer) => {
            let (st1, t) = expr(e, deref_allowed(st, target.span), *pointer, None);
            let (st2, p) = writable_pointee(e, st1, t, target.span, pointer.span);
            let (st3, v) = expr(e, st2.typed(target.id, p), value, Some(p));
            (st3.fail_if(!(p is Error) && !fits(v, p), value.span, mismatch(e, p, v)), ty_unit())
        },
        _ => {
            let st1 = st.fail_if(
                !has_local_root(e.sc.names, target),
                target.span,
                "assignment target must be a local binding or one of its fields/elements"@,
            );
            let (st2, t) = assign_target(e, st1, target);
            let (st3, v) = expr(e, st2.typed(target.id, t), value, Some(t));
            let st4 = writable(e, st3.fail_if(!fits(v, t), value.span, mismatch(e, t, v)), target);
            (
                match bare_local(e.sc.names, target) {
                    Some(local) => St { moved: st4.moved.remove(local), ..st4 },
                    None => st4,
                },
                ty_unit(),
            )
        },
    }
}

/// After finding the type of an assignment target's storage.
pub open spec fn assign_target(e: Env, st: St, target: Expr) -> (St, Ty)
    decreases expr_size(target), 10nat,
{
    match target.kind {
        ExprKind::Path(path) => assign_path(e, st, path),
        ExprKind::Field { base, field } => match field {
            FieldAccessor::Named(ident) => {
                let (st1, t) = expr(e, st, *base, None);
                field_type(e, st1, t, ident.name@, ident.span)
            },
            _ => expr(e, st, target, None),
        },
        _ => expr(e, st, target, None),
    }
}

/// The same for a path.
pub open spec fn assign_path(e: Env, st: St, path: Path) -> (St, Ty)
    decreases 0nat, 7nat,
{
    match e.sc.names.path(path.id) {
        None => (st, Ty::Error),
        Some(res) => match res.base {
            Resolution::Local(id) => {
                let t = match st.locals.get(id) {
                    Some((t, _)) => t,
                    None => Ty::Error,
                };
                let (st1, t1) = assigned_fields(e, st, path, res.consumed as int, t);
                (
                    st1,
                    if res.consumed == path.segments@.len() {
                        assigned_through(e, t1)
                    } else {
                        t1
                    },
                )
            },
            _ => value_path(e, st, path, None, None, None, Seq::empty()),
        },
    }
}

// ---------------------------------------------------------------------
// Tasks and threads
// ---------------------------------------------------------------------

/// After `task.spawn(..)`.
pub open spec fn task_spawn(e: Env, st: St, callee: Expr, gargs: Seq<TypeExpr>, args: Seq<Expr>, span: Span) -> (St, Ty)
    decreases exprs_size(args, 0), 10nat,
{
    let st1 = st.fail_if(!st.in_async, span, "`task.spawn` is only allowed inside an `async fn`"@);
    let st2 = st1.fail_if(gargs.len() > 0, second_span(callee), "`task.spawn` is not generic"@);
    if args.len() != 1 {
        (st2.fail(span, "`task.spawn` expects 1 argument, found "@ + decimal(args.len())), Ty::Error)
    } else {
        let (st3, t) = expr(e, st2, args[0], None);
        match t {
            Ty::Task(_) => (spawn_captures(e, st3, args[0], "task"@).0, t),
            Ty::Error => (st3, Ty::Error),
            _ => (
                st3.fail(
                    args[0].span,
                    "`task.spawn` expects a task, found `"@ + shown(t, e.sc.defs()) + "`"@,
                ),
                Ty::Error,
            ),
        }
    }
}

/// The error for a captured value that may not be moved to another thread.
pub open spec fn not_send(e: Env, t: Ty) -> Seq<char> {
    "cannot spawn a thread capturing a value of type `"@ + shown(t, e.sc.defs())
        + "` — it is not `Send` (does it need `unsafe impl "@ + shown(t, e.sc.defs()) + " Send { }`?)"@
}

/// After checking that the captured locals from the `i`-th on may be moved
/// to another thread.
pub open spec fn captures_sendable(e: Env, st: St, locals: Seq<LocalId>, i: int, span: Span) -> St
    decreases locals.len() - i,
{
    if 0 <= i < locals.len() {
        let st1 = match st.locals.get(locals[i]) {
            Some((t, _)) => st.fail_if(
                !sendable(e.sigs, e.sc.defs(), t, NESTING_LIMIT as nat),
                span,
                not_send(e, t),
            ),
            None => st,
        };
        captures_sendable(e, st1, locals, i + 1, span)
    } else {
        st
    }
}

/// After `thread.spawn(arg)`.
pub open spec fn thread_spawn(e: Env, st: St, arg: Expr) -> (St, Ty)
    decreases expr_size(arg), 10nat,
{
    match arg.kind {
        ExprKind::Closure { move_capture, mut_capture: _, params, body } => {
            let st1 = st.fail_if(!move_capture, arg.span, "a `thread.spawn` closure must be `move`"@);
            let st2 = st1.fail_if(params@.len() > 0, arg.span, "a `thread.spawn` closure takes no parameters"@);
            let (st3, captured) = spawn_captures(e, st2, *body, "thread"@);
            let (st4, t) = expr(e, captures_sendable(e, st3, captured, 0, arg.span), arg, None);
            let st5 = match t {
                Ty::Function(_, ret) => st4.fail_if(
                    !(*ret is Error) && !fits(*ret, ty_unit()),
                    arg.span,
                    "a `thread.spawn` closure must return `()`, found `"@ + shown(*ret, e.sc.defs())
                        + "` — returning a value from a spawned thread is not yet supported"@,
                ),
                _ => st4,
            };
            (st5, Ty::Thread(Box::new(ty_unit())))
        },
        _ => {
            let st1 = st.fail(
                arg.span,
                "`thread.spawn` requires a `move` closure literal argument, e.g. `thread.spawn(move () => { ... })`"@,
            );
            (expr(e, st1, arg, None).0, Ty::Error)
        },
    }
}

/// After the arguments of `timer.sleep` from the `i`-th on.
pub open spec fn timer_args(e: Env, st: St, args: Seq<Expr>, i: int) -> St
    decreases exprs_size(args, i), 1nat,
{
    if 0 <= i < args.len() {
        let (st1, t) = expr(e, st, args[i], None);
        timer_args(
            e,
            st1.fail_if(!ty_integer(t), args[i].span, "`timer.sleep` expects integer milliseconds"@),
            args,
            i + 1,
        )
    } else {
        st
    }
}

/// After `timer.sleep(..)`.
pub open spec fn timer_sleep(e: Env, st: St, gargs: Seq<TypeExpr>, name_span: Span, args: Seq<Expr>, span: Span) -> (St, Ty)
    decreases exprs_size(args, 0), 2nat,
{
    let st1 = st.fail_if(gargs.len() > 0, name_span, "`timer.sleep` is not generic"@);
    let st2 = st1.fail_if(
        args.len() != 1,
        span,
        "`timer.sleep` expects 1 argument, found "@ + decimal(args.len()),
    );
    (timer_args(e, st2, args, 0), Ty::Task(Box::new(ty_unit())))
}

// ---------------------------------------------------------------------
// Paths and calls
// ---------------------------------------------------------------------

/// After a call.
pub open spec fn call(e: Env, st: St, id: NodeId, callee: Expr, gargs: Seq<Ty>, args: Seq<Expr>, expected: Option<Ty>) -> (St, Ty)
    decreases expr_size(callee) + exprs_size(args, 0), 10nat,
{
    match callee.kind {
        ExprKind::Path(path) => {
            let (st1, t) = value_path(e, st, path, Some(args), expected, Some(id), gargs);
            (st1.typed(callee.id, t), t)
        },
        _ => {
            let st1 = st.fail_if(
                gargs.len() > 0,
                callee.span,
                "explicit generic arguments require a named function or method"@,
            );
            let (st2, t) = expr(e, st1, callee, None);
            call_value(e, st2, t, args, callee.span)
        },
    }
}

/// After the arguments of a function value from the `i`-th on.
pub open spec fn value_args(e: Env, st: St, params: Seq<Ty>, args: Seq<Expr>, i: int, borrowed: Map<LocalId, bool>) -> St
    decreases exprs_size(args, i), 1nat,
{
    if 0 <= i < args.len() && i < params.len() {
        let p = params[i];
        let (st1, t, borrowed1) = if is_ref(p) {
            borrow_arg(e, st, args[i], p, borrowed)
        } else {
            let (st1, t) = expr(e, st, args[i], Some(p));
            (st1, t, borrowed)
        };
        value_args(
            e,
            st1.fail_if(!fits(t, p), args[i].span, mismatch(e, p, t)),
            params,
            args,
            i + 1,
            borrowed1,
        )
    } else {
        st
    }
}

/// After a call of a function value of type `t`.
pub open spec fn call_value(e: Env, st: St, t: Ty, args: Seq<Expr>, span: Span) -> (St, Ty)
    decreases exprs_size(args, 0), 4nat,
{
    match t {
        Ty::Function(params, ret) => (
            value_args(
                e,
                st.fail_if(args.len() != params.len(), span, arg_count(params.len(), args.len())),
                params,
                args,
                0,
                Map::empty(),
            ),
            *ret,
        ),
        Ty::Error => (idle_args(e, st, args), Ty::Error),
        _ => (st.fail(span, "`"@ + shown(t, e.sc.defs()) + "` is not callable"@), Ty::Error),
    }
}

/// The types of an associated constant in the bounds from the `i`-th on,
/// after `acc`.
pub open spec fn bound_consts(e: Env, bs: Seq<Bound>, name: Seq<char>, i: int, acc: Seq<Ty>) -> Seq<Ty>
    decreases bs.len() - i,
{
    if 0 <= i < bs.len() {
        bound_consts(
            e,
            bs,
            name,
            i + 1,
            match e.sigs.trait_associated_consts.get((bs[i].trait_id, name)) {
                Some(sig) => acc.push(
                    subst(sig.ty, zip_subst(e.sigs.generics_of_trait(bs[i].trait_id), bs[i].args)),
                ),
                None => acc,
            },
        )
    } else {
        acc
    }
}

/// After `T.NAME` of a generic parameter.
#[verifier::opaque]
pub open spec fn parameter_const(e: Env, st: St, generic: Ident, constant: Ident) -> (St, Ty) {
    let bs = match st.generics.get(generic.name@) {
        Some(bs) => bs,
        None => Seq::empty(),
    };
    let found = bound_consts(e, bs, constant.name@, 0, Seq::empty());
    if found.len() == 1 {
        (st, found[0])
    } else if found.len() == 0 {
        (
            st.fail(
                constant.span,
                "generic parameter `"@ + generic.name@ + "` has no associated constant `"@ + constant.name@
                    + "` in its bounds"@,
            ),
            Ty::Error,
        )
    } else {
        (
            st.fail(
                constant.span,
                "associated constant `"@ + constant.name@ + "` is ambiguous across bounds of `"@ + generic.name@
                    + "`"@,
            ),
            Ty::Error,
        )
    }
}

/// After an associated constant of a declared type; nothing if it is unknown.
#[verifier::opaque]
pub open spec fn owner_const(e: Env, st: St, owner: DefId, idx: u32, span: Span) -> Option<(St, Ty)> {
    match e.sc.defs().constant_name_of(owner, idx) {
        None => None,
        Some(name) => match e.sigs.associated_consts.get((owner, name)) {
            None => None,
            Some(sig) => Some(
                (
                    st.fail_if(
                        hidden(sig.file, sig.visibility, span),
                        span,
                        "associated constant `"@ + name + "` is private"@,
                    ),
                    sig.ty,
                ),
            ),
        },
    }
}

/// After what follows a path's head, of type `t`: fields, and a method if the
/// path is called.
pub open spec fn path_rest(
    e: Env,
    st: St,
    path: Path,
    res: PathResolution,
    t: Ty,
    args: Option<Seq<Expr>>,
    id: Option<NodeId>,
    gargs: Seq<Ty>,
) -> (St, Ty)
    decreases args_size(args), 5nat,
{
    let total = path.segments@.len();
    match args {
        Some(xs) => if res.consumed < total {
            let (st1, t1) = path_fields(e, st, path, res.consumed as int, total - 1, t);
            let (local, mutable) = match res.base {
                Resolution::Local(l) => (
                    if total - res.consumed == 1 {
                        Some(l)
                    } else {
                        None
                    },
                    match st1.locals.get(l) {
                        Some((_, m)) => Some(m),
                        None => None,
                    },
                ),
                _ => (None, None),
            };
            method_call(e, st1, t1, path.segments@[total - 1], gargs, xs, id, mutable, local)
        } else {
            (st, t)
        },
        None => path_fields(e, st, path, res.consumed as int, total as int, t),
    }
}

/// After a path in value position, called with `args` or not.
pub open spec fn value_path(
    e: Env,
    st: St,
    path: Path,
    args: Option<Seq<Expr>>,
    expected: Option<Ty>,
    id: Option<NodeId>,
    gargs: Seq<Ty>,
) -> (St, Ty)
    decreases args_size(args), 6nat,
{
    let total = path.segments@.len();
    match e.sc.names.path(path.id) {
        None => (idle_list(e, st, args), Ty::Error),
        Some(res) => {
            let direct = if res.consumed >= total {
                args
            } else {
                None
            };
            match res.base {
                Resolution::GenericParam => if total == 2 && args is None {
                    parameter_const(e, st, path.segments@[0], path.segments@[1])
                } else {
                    path_rest(e, idle_list(e, st, direct), path, res, Ty::Error, args, id, gargs)
                },
                Resolution::Local(local) => {
                    let t = match st.locals.get(local) {
                        Some((t, _)) => t,
                        None => Ty::Error,
                    };
                    let st1 = st.used(local, t, path.span, res.consumed == total).noted(local);
                    match direct {
                        Some(xs) => call_value(
                            e,
                            st1.fail_if(
                                gargs.len() > 0,
                                path.span,
                                "explicit generic arguments cannot be applied to a function value"@,
                            ),
                            t,
                            xs,
                            path.span,
                        ),
                        None => path_rest(
                            e,
                            st1,
                            path,
                            res,
                            local_read(e, t, res.consumed == total, expected),
                            args,
                            id,
                            gargs,
                        ),
                    }
                },
                Resolution::Def(def) => {
                    let (st1, t) = def_value(e, st, def, path.span, direct, expected, id, gargs);
                    path_rest(e, st1, path, res, t, args, id, gargs)
                },
                Resolution::EnumVariant(enum_id, idx) => {
                    let st0 = st.fail_if(
                        gargs.len() > 0,
                        path.span,
                        "enum variants do not accept function generic arguments"@,
                    );
                    let (st1, t) = variant_value(e, st0, enum_id, idx, path.span, direct, expected);
                    path_rest(e, st1, path, res, t, args, id, gargs)
                },
                Resolution::StaticMember(owner, idx) => {
                    let (st1, t) = static_member(e, st, owner, idx, path.span, direct, id, gargs);
                    path_rest(e, st1, path, res, t, args, id, gargs)
                },
                Resolution::StaticConst(owner, idx) => {
                    let st0 = st.fail_if(
                        args is Some || gargs.len() > 0,
                        path.span,
                        "an associated constant cannot be called"@,
                    );
                    match owner_const(e, st0, owner, idx, path.span) {
                        None => (st0, Ty::Error),
                        Some((st1, t)) => path_rest(e, st1, path, res, t, args, id, gargs),
                    }
                },
                Resolution::ConstParam => {
                    let t = if total > 0 {
                        match st.const_generics.get(path.segments@[0].name@) {
                            Some(t) => t,
                            None => Ty::Error,
                        }
                    } else {
                        Ty::Error
                    };
                    path_rest(e, idle_list(e, st, direct), path, res, t, args, id, gargs)
                },
                Resolution::Error => path_rest(e, idle_list(e, st, direct), path, res, Ty::Error, args, id, gargs),
            }
        },
    }
}

/// After a declared item in value position.
pub open spec fn def_value(
    e: Env,
    st: St,
    def: DefId,
    span: Span,
    args: Option<Seq<Expr>>,
    expected: Option<Ty>,
    id: Option<NodeId>,
    gargs: Seq<Ty>,
) -> (St, Ty)
    decreases args_size(args), 4nat,
{
    let name = e.sc.name(def);
    match e.sc.defs().kind_of(def) {
        DefKind::Primitive => (st.fail(span, "`"@ + name + "` is a type, not a value"@), Ty::Error),
        DefKind::TypeAlias => (st.fail(span, "`"@ + name + "` is a type, not a value"@), Ty::Error),
        DefKind::Trait => (st.fail(span, "`"@ + name + "` is a trait and has no value form"@), Ty::Error),
        DefKind::Imported => (idle_list(e, st, args), Ty::Error),
        DefKind::Enum => (
            st.fail(span, "`"@ + name + "` is an enum type, not a value — use one of its variants"@),
            Ty::Error,
        ),
        DefKind::Fn => fn_value(e, st, def, span, args, expected, id, gargs),
        DefKind::Type => type_value(
            e,
            st.fail_if(
                gargs.len() > 0,
                span,
                "type constructors do not accept function generic arguments"@,
            ),
            def,
            span,
            args,
            expected,
        ),
    }
}

/// After the printed arguments from the `i`-th on.
pub open spec fn print_args(e: Env, st: St, args: Seq<Expr>, i: int) -> St
    decreases exprs_size(args, i), 1nat,
{
    if 0 <= i < args.len() {
        let (st1, t) = expr(e, st, args[i], None);
        print_args(e, require_string(e, st1, t, args[i].span), args, i + 1)
    } else {
        st
    }
}

/// After the hashed arguments from the `i`-th on.
pub open spec fn hash_args(e: Env, st: St, args: Seq<Expr>, i: int) -> St
    decreases exprs_size(args, i), 1nat,
{
    if 0 <= i < args.len() {
        let (st1, t) = expr(e, st, args[i], None);
        hash_args(
            e,
            st1.fail_if(
                !derivable(e.sigs, e.sc.defs(), Derived::Hash, t),
                args[i].span,
                "cannot derive `Hash` for `"@ + shown(t, e.sc.defs())
                    + "`: every field must be structurally hashable"@,
            ),
            args,
            i + 1,
        )
    } else {
        st
    }
}

/// After the arguments from the `i`-th on, with nothing expected of them.
pub open spec fn free_args(e: Env, st: St, args: Seq<Expr>, i: int) -> St
    decreases exprs_size(args, i), 1nat,
{
    if 0 <= i < args.len() {
        free_args(e, expr(e, st, args[i], None).0, args, i + 1)
    } else {
        st
    }
}

/// After arguments that are passed to something unknown. Once an error has
/// been reported they are left alone: the unknown is its consequence.
pub open spec fn idle_args(e: Env, st: St, args: Seq<Expr>) -> St
    decreases exprs_size(args, 0), 2nat,
{
    if st.diags.len() == 0 {
        free_args(e, st, args, 0)
    } else {
        st
    }
}

/// The same for arguments that there may be none of.
pub open spec fn idle_list(e: Env, st: St, args: Option<Seq<Expr>>) -> St
    decreases args_size(args), 2nat,
{
    match args {
        Some(xs) => if st.diags.len() == 0 {
            free_args(e, st, xs, 0)
        } else {
            st
        },
        None => st,
    }
}

/// A function as a value.
#[verifier::opaque]
pub open spec fn fn_type(sig: Sig) -> Ty {
    Ty::Function(
        Seq::new(sig.params.len(), |i: int| sig.params[i].ty),
        Box::new(call_result(sig, sig.ret)),
    )
}

/// After a declared function in value position.
pub open spec fn fn_value(
    e: Env,
    st: St,
    def: DefId,
    span: Span,
    args: Option<Seq<Expr>>,
    expected: Option<Ty>,
    id: Option<NodeId>,
    gargs: Seq<Ty>,
) -> (St, Ty)
    decreases args_size(args), 3nat,
{
    let name = e.sc.name(def);
    if name == "println"@ || name == "print"@ {
        let st1 = st.fail_if(gargs.len() > 0, span, "builtin function `"@ + name + "` is not generic"@);
        match args {
            Some(xs) => (print_args(e, st1, xs, 0), ty_unit()),
            None => (st1.fail(span, "`"@ + name + "` must be called"@), Ty::Error),
        }
    } else if name == "to"@ {
        conversion(e, st, span, args, expected, gargs)
    } else if name == "hash"@ {
        let st1 = st.fail_if(gargs.len() > 0, span, "builtin function `hash` is not generic"@);
        match args {
            None => (st1.fail(span, "`hash` must be called"@), Ty::Error),
            Some(xs) => (
                hash_args(
                    e,
                    st1.fail_if(
                        xs.len() != 1,
                        span,
                        "`hash` takes exactly 1 argument, found "@ + decimal(xs.len()),
                    ),
                    xs,
                    0,
                ),
                Ty::Primitive(PrimitiveKind::U64),
            ),
        }
    } else {
        match e.sigs.fns.get(def) {
            None => (idle_list(e, st, args), Ty::Error),
            Some(sig) => match args {
                Some(xs) => {
                    let (st1, m) = call_args(
                        e,
                        call_allowed(st, sig, span),
                        sig,
                        xs,
                        span,
                        expected,
                        Map::empty(),
                        gargs,
                        id,
                    );
                    (st1, call_result(sig, subst(sig.ret, m)))
                },
                None => if sig.generics.len() == 0 {
                    (st, fn_type(sig))
                } else {
                    (
                        st.fail(
                            span,
                            "generic function `"@ + name
                                + "` cannot be used as a value because its type arguments cannot be inferred"@,
                        ),
                        Ty::Error,
                    )
                },
            },
        }
    }
}

/// After `to(value)` or `to<T>(value)`.
pub open spec fn conversion(e: Env, st: St, span: Span, args: Option<Seq<Expr>>, expected: Option<Ty>, gargs: Seq<Ty>) -> (St, Ty)
    decreases args_size(args), 2nat,
{
    let st1 = st.fail_if(
        gargs.len() > 1,
        span,
        "`to<T>(value)` takes exactly 1 type argument, found "@ + decimal(gargs.len()),
    );
    match args {
        None => (st1.fail(span, "`to` must be called"@), Ty::Error),
        Some(xs) => if xs.len() != 1 {
            (
                free_args(
                    e,
                    st1.fail(span, "`to` takes exactly 1 argument, found "@ + decimal(xs.len())),
                    xs,
                    0,
                ),
                Ty::Error,
            )
        } else {
            let target = if gargs.len() > 0 {
                Some(gargs[0])
            } else {
                expected
            };
            match target {
                None => (
                    expr(
                        e,
                        st1.fail(
                            span,
                            "cannot infer the target type of `to(value)`; add a type annotation"@,
                        ),
                        xs[0],
                        None,
                    ).0,
                    Ty::Error,
                ),
                Some(t) => {
                    let st2 = match expected {
                        Some(w) => st1.fail_if(
                            gargs.len() > 0 && !fits(t, w),
                            span,
                            "explicit `to` target `"@ + shown(t, e.sc.defs()) + "` does not match expected type `"@
                                + shown(w, e.sc.defs()) + "`"@,
                        ),
                        None => st1,
                    };
                    let (st3, a) = expr(e, st2, xs[0], Some(t));
                    (converted(e, st3, a, t, xs[0].span), t)
                },
            }
        },
    }
}

/// After constructor arguments from the `i`-th on, for fields of these
/// declared types: what the parameters are chosen to be.
pub open spec fn ctor_args(e: Env, st: St, args: Seq<Expr>, ts: Seq<Ty>, i: int, m: Subst) -> (St, Subst)
    decreases exprs_size(args, i), 1nat,
{
    if 0 <= i < args.len() && i < ts.len() {
        let (st1, t) = expr(e, st, args[i], Some(subst(ts[i], m)));
        let m1 = infer(ts[i], t, m);
        let want = subst(ts[i], m1);
        ctor_args(e, st1.fail_if(!fits(t, want), args[i].span, mismatch(e, want, t)), args, ts, i + 1, m1)
    } else {
        (st, m)
    }
}

/// The arguments that an expected type of this declaration gives.
pub open spec fn expected_args(def: DefId, names: Seq<Seq<char>>, expected: Option<Ty>) -> Subst {
    match expected {
        Some(Ty::Struct(i, args)) => if i == def && args.len() == names.len() {
            zip_subst(names, args)
        } else {
            Map::empty()
        },
        Some(Ty::TupleStruct(i, args)) => if i == def && args.len() == names.len() {
            zip_subst(names, args)
        } else {
            Map::empty()
        },
        Some(Ty::Enum(i, args)) => if i == def && args.len() == names.len() {
            zip_subst(names, args)
        } else {
            Map::empty()
        },
        _ => Map::empty(),
    }
}

/// After a declared type in value position.
pub open spec fn type_value(e: Env, st: St, def: DefId, span: Span, args: Option<Seq<Expr>>, expected: Option<Ty>) -> (St, Ty)
    decreases args_size(args), 3nat,
{
    let names = e.sigs.generics_of(def);
    let m = expected_args(def, names, expected);
    let misuse = "`"@ + e.sc.name(def)
        + "` cannot be used this way — construct it with `{ .. }` (struct) or `(..)` (tuple-struct) syntax matching its declaration"@;
    match e.sigs.type_shapes.get(def) {
        Some(Shape::Unit) => match args {
            None => (st, Ty::Struct(def, chosen_types(names, m))),
            Some(_) => (st.fail(span, misuse), Ty::Error),
        },
        Some(Shape::TupleStruct(ts)) => match args {
            Some(xs) => {
                let (st1, m1) = ctor_args(
                    e,
                    st.fail_if(xs.len() != ts.len(), span, arg_count(ts.len(), xs.len())),
                    xs,
                    ts,
                    0,
                    m,
                );
                (st1, Ty::TupleStruct(def, chosen_types(names, m1)))
            },
            None => (st.fail(span, misuse), Ty::Error),
        },
        _ => (st.fail(span, misuse), Ty::Error),
    }
}

/// After an enum variant in value position.
pub open spec fn variant_value(e: Env, st: St, def: DefId, idx: u32, span: Span, args: Option<Seq<Expr>>, expected: Option<Ty>) -> (St, Ty)
    decreases args_size(args), 4nat,
{
    match e.sigs.enum_sigs.get(def) {
        None => (
            st.fail(span, "internal type information for this enum is unavailable"@),
            Ty::Error,
        ),
        Some(sig) => if idx >= sig.variants.len() {
            (st.fail(span, "unknown enum variant"@), Ty::Error)
        } else {
            let payload = sig.variants[idx as int].1;
            let m = match expected {
                Some(Ty::Enum(_, _)) => expected_args(def, sig.generics, expected),
                _ => Map::empty(),
            };
            let (st1, m1) = if payload.len() == 0 {
                (idle_list(e, st, args), m)
            } else {
                match args {
                    Some(xs) => ctor_args(
                        e,
                        st.fail_if(
                            xs.len() != payload.len(),
                            span,
                            "variant expects "@ + decimal(payload.len()) + " argument(s), found "@ + decimal(xs.len()),
                        ),
                        xs,
                        payload,
                        0,
                        m,
                    ),
                    None => (st.fail(span, "this variant requires payload arguments"@), m),
                }
            };
            (st1, Ty::Enum(def, chosen_types(sig.generics, m1)))
        },
    }
}

/// After a method named through its type.
pub open spec fn static_member(
    e: Env,
    st: St,
    owner: DefId,
    idx: u32,
    span: Span,
    args: Option<Seq<Expr>>,
    id: Option<NodeId>,
    gargs: Seq<Ty>,
) -> (St, Ty)
    decreases args_size(args), 4nat,
{
    match e.sc.defs().method_name_of(owner, idx) {
        None => (idle_list(e, st, args), Ty::Error),
        Some(name) => match e.sigs.method_in_any_domain(owner, name) {
            None => (idle_list(e, st, args), Ty::Error),
            Some(sig) => if hidden(sig.file, sig.visibility, span) {
                (st.fail(span, "method `"@ + name + "` is private"@), Ty::Error)
            } else if sig.self_param is Some {
                (
                    st.fail(
                        span,
                        "`"@ + name + "` is an instance method and cannot be called as a static member"@,
                    ),
                    Ty::Error,
                )
            } else {
                match args {
                    Some(xs) => {
                        let (st1, m) = call_args(
                            e,
                            call_allowed(st, sig, span),
                            sig,
                            xs,
                            span,
                            None,
                            Map::empty(),
                            gargs,
                            id,
                        );
                        (st1, call_result(sig, subst(sig.ret, m)))
                    },
                    None => (st, fn_type(sig)),
                }
            },
        },
    }
}

// ---------------------------------------------------------------------
// Methods
// ---------------------------------------------------------------------

/// After a method call on a receiver of type `t`.
pub open spec fn method_call(
    e: Env,
    st: St,
    t: Ty,
    method: Ident,
    gargs: Seq<Ty>,
    args: Seq<Expr>,
    id: Option<NodeId>,
    mutable: Option<bool>,
    local: Option<LocalId>,
) -> (St, Ty)
    decreases exprs_size(args, 0), 4nat,
{
    let base = ty_direct(t);
    let name = method.name@;
    match base {
        Ty::Generic(generic) => parameter_method(e, st, generic, method, gargs, args, id),
        Ty::Any(trait_id, targs) => trait_method(e, st, base, trait_id, targs, method, gargs, args, id, mutable),
        Ty::Opaque(trait_id, targs) => trait_method(e, st, base, trait_id, targs, method, gargs, args, id, mutable),
        Ty::Thread(output) => if name == "join"@ {
            let st1 = st.fail_if(gargs.len() > 0, method.span, "`join` is not generic"@);
            (
                st1.fail_if(args.len() > 0, method.span, arg_count(0, args.len())),
                *output,
            )
        } else {
            (st.fail(method.span, no_method(e, base, name)), Ty::Error)
        },
        Ty::Array(item) => if name == "len"@ || name == "push"@ || name == "pop"@ {
            let st1 = st.fail_if(gargs.len() > 0, method.span, "array methods are not generic"@);
            let st2 = st1.fail_if(
                name != "len"@ && mutable != Some(true),
                method.span,
                "cannot call a `mut self` method through an immutable receiver — declare it with `let mut`"@,
            );
            array_method(e, st2, *item, method, args)
        } else {
            declared_method(e, st, t, method, gargs, args, id, mutable, local)
        },
        _ => declared_method(e, st, t, method, gargs, args, id, mutable, local),
    }
}

/// "`T` has no method named `m`"
pub open spec fn no_method(e: Env, t: Ty, name: Seq<char>) -> Seq<char> {
    "`"@ + shown(t, e.sc.defs()) + "` has no method named `"@ + name + "`"@
}

/// After checking that a receiver may be used as a method takes it.
#[verifier::opaque]
pub open spec fn receiver_checked(st: St, t: Ty, sig: Sig, span: Span, mutable: Option<bool>, local: Option<LocalId>) -> St {
    let st1 = st.fail_if(
        (sig.self_param == Some(SelfParam::ByMutRef) || sig.self_param == Some(SelfParam::OwnedMutRef)) && mutable
            != Some(true),
        span,
        "cannot call a `mut self` method (or `: &mut self`) through an immutable receiver — declare it with `let mut`"@,
    );
    let st2 = st1.fail_if(
        sig.self_param == Some(SelfParam::Owned) && is_ref(t),
        span,
        "cannot call a consuming (`: self`) method through a borrowed reference"@,
    );
    match local {
        Some(l) => st2.used(l, t, span, sig.self_param == Some(SelfParam::Owned)),
        None => st2,
    }
}

/// What a receiver's arguments choose for the owner's parameters of a method.
#[verifier::opaque]
pub open spec fn receiver_choice(base: Ty, set: Methods, sig: Sig) -> Subst {
    let args = method_args(base);
    if specialized(set.specializations, args, 0) is Some {
        Map::empty()
    } else {
        infer_all(
            as_parameters(names_in(sig.generics.take(smaller(args.len(), sig.generics.len()) as int))),
            args,
            Map::empty(),
            0,
        )
    }
}

/// After a call of a declared method.
pub open spec fn declared_method(
    e: Env,
    st: St,
    t: Ty,
    method: Ident,
    gargs: Seq<Ty>,
    args: Seq<Expr>,
    id: Option<NodeId>,
    mutable: Option<bool>,
    local: Option<LocalId>,
) -> (St, Ty)
    decreases exprs_size(args, 0), 3nat,
{
    let base = ty_direct(t);
    let name = method.name@;
    match methods_on(e, t, name) {
        None => if base is Error {
            (idle_args(e, st, args), Ty::Error)
        } else {
            (st.fail(method.span, no_method(e, base, name)), Ty::Error)
        },
        Some(set) => match set.chosen(method_args(base)) {
            None => (st.fail(method.span, no_method(e, base, name)), Ty::Error),
            Some(sig) => if hidden(sig.file, sig.visibility, method.span) {
                (st.fail(method.span, "method `"@ + name + "` is private"@), Ty::Error)
            } else {
                let st1 = receiver_checked(
                    call_allowed(st, sig, method.span),
                    t,
                    sig,
                    method.span,
                    mutable,
                    local,
                );
                let (st2, m) = call_args(
                    e,
                    st1,
                    sig,
                    args,
                    method.span,
                    None,
                    receiver_choice(base, set, sig),
                    gargs,
                    id,
                );
                (st2, call_result(sig, subst(sig.ret, m)))
            },
        },
    }
}

/// After a method call on a value of a generic parameter's type: the first
/// bound that has the method gives it.
pub open spec fn parameter_method(e: Env, st: St, generic: Seq<char>, method: Ident, gargs: Seq<Ty>, args: Seq<Expr>, id: Option<NodeId>) -> (St, Ty)
    decreases exprs_size(args, 0), 3nat,
{
    let name = method.name@;
    let bs = match st.generics.get(generic) {
        Some(bs) => bs,
        None => Seq::empty(),
    };
    match bound_method_index(e, bs, name, 0) {
        None => (
            st.fail(
                method.span,
                "no method named `"@ + name + "` found for generic type `"@ + generic + "`"@,
            ),
            Ty::Error,
        ),
        Some(i) => {
            let b = bs[i as int];
            if into_string_bound(e, b) && name == "into_string"@ {
                let st1 = st.fail_if(gargs.len() > 0, method.span, "`into_string` is not generic"@);
                (st1.fail_if(args.len() > 0, method.span, arg_count(0, args.len())), Ty::String)
            } else {
                match e.sigs.trait_methods.get((b.trait_id, name)) {
                    None => (idle_args(e, st, args), Ty::Error),
                    Some(raw) => {
                        let sig = sig_subst(raw, zip_subst(e.sigs.generics_of_trait(b.trait_id), b.args));
                        let (st1, m) = call_args(
                            e,
                            call_allowed(st, sig, method.span),
                            sig,
                            args,
                            method.span,
                            None,
                            Map::empty(),
                            gargs,
                            id,
                        );
                        (st1, call_result(sig, subst(sig.ret, m)))
                    },
                }
            }
        },
    }
}

/// After a method call on an existential.
pub open spec fn trait_method(
    e: Env,
    st: St,
    base: Ty,
    trait_id: DefId,
    targs: Seq<Ty>,
    method: Ident,
    gargs: Seq<Ty>,
    args: Seq<Expr>,
    id: Option<NodeId>,
    mutable: Option<bool>,
) -> (St, Ty)
    decreases exprs_size(args, 0), 3nat,
{
    match e.sigs.trait_methods.get((trait_id, method.name@)) {
        None => (st.fail(method.span, no_method(e, base, method.name@)), Ty::Error),
        Some(raw) => {
            let sig = sig_subst(raw, zip_subst(e.sigs.generics_of_trait(trait_id), targs));
            let st1 = receiver_checked(
                call_allowed(st, sig, method.span),
                base,
                sig,
                method.span,
                mutable,
                None,
            );
            let (st2, m) = call_args(e, st1, sig, args, method.span, None, Map::empty(), gargs, id);
            (st2, call_result(sig, subst(sig.ret, m)))
        },
    }
}

/// After `len`, `push` or `pop` of an array.
pub open spec fn array_method(e: Env, st: St, item: Ty, method: Ident, args: Seq<Expr>) -> (St, Ty)
    decreases exprs_size(args, 0), 3nat,
{
    let name = method.name@;
    if name == "len"@ {
        (
            st.fail_if(args.len() > 0, method.span, arg_count(0, args.len())),
            Ty::Primitive(PrimitiveKind::Usize),
        )
    } else if name == "push"@ {
        let st1 = st.fail_if(args.len() != 1, method.span, arg_count(1, args.len()));
        if args.len() == 0 {
            (st1, ty_unit())
        } else {
            let (st2, t) = expr(e, st1, args[0], Some(item));
            (st2.fail_if(!fits(t, item), args[0].span, mismatch(e, item, t)), ty_unit())
        }
    } else {
        (
            st.fail_if(args.len() > 0, method.span, arg_count(0, args.len())),
            match e.sc.defs().found("Option"@) {
                Some(option) => Ty::Enum(option, seq![item]),
                None => Ty::Error,
            },
        )
    }
}

// ---------------------------------------------------------------------
// Arguments
// ---------------------------------------------------------------------

/// An argument without its `mut`.
pub open spec fn plain_arg(x: Expr) -> Expr {
    match x.kind {
        ExprKind::MutArg(inner) => *inner,
        _ => x,
    }
}

/// An argument without its `mut` is no larger.
pub proof fn lemma_plain_arg(x: Expr)
    ensures
        expr_size(plain_arg(x)) <= expr_size(x),
{
}

/// After one argument for one parameter: what the generic parameters are
/// chosen to be, and what the call has borrowed so far.
pub open spec fn fixed_arg(e: Env, st: St, p: PSig, arg: Expr, m: Subst, borrowed: Map<LocalId, bool>) -> (
    St,
    Subst,
    Map<LocalId, bool>,
)
    decreases expr_size(arg), 10nat,
{
    let want = normal(e.sigs, subst(p.ty, m));
    let is_mut = arg.kind is MutArg;
    if is_ref(want) {
        let st1 = st.fail_if(
            is_mut,
            arg.span,
            "`mut` is not valid for a `:&T`/`:&mut T` argument — the parameter's own type already says whether it borrows mutably"@,
        );
        let (st2, t, borrowed1) = borrow_arg(e, st1, arg, want, borrowed);
        (st2, infer(p.ty, t, m), borrowed1)
    } else {
        let inner = plain_arg(arg);
        let st1 = if p.mutable != is_mut {
            st.fail(arg.span, mut_disagrees(p.name, p.mutable))
        } else if p.mutable {
            mut_arg_checked(e, st, inner)
        } else {
            st
        };
        proof {
            lemma_plain_arg(arg);
        }
        let (st2, t) = expr(e, st1, inner, Some(want));
        let st3 = if is_mut {
            st2.typed(arg.id, t)
        } else {
            st2
        };
        let m1 = infer(p.ty, t, m);
        let want1 = normal(e.sigs, subst(p.ty, m1));
        (st3.fail_if(!fits(t, want1), inner.span, mismatch(e, want1, t)), m1, borrowed)
    }
}

/// After the arguments from the `i`-th up to the `n`-th, for one parameter
/// each: what the generic parameters are chosen to be.
pub open spec fn fixed_args(e: Env, st: St, sig: Sig, args: Seq<Expr>, i: int, n: int, m: Subst, borrowed: Map<LocalId, bool>) -> (
    St,
    Subst,
)
    decreases exprs_size(args, i), 1nat,
{
    if 0 <= i < n && i < args.len() && i < sig.params.len() {
        let (st1, m1, borrowed1) = fixed_arg(e, st, sig.params[i], args[i], m, borrowed);
        fixed_args(e, st1, sig, args, i + 1, n, m1, borrowed1)
    } else {
        (st, m)
    }
}

/// After the variadic arguments from the `i`-th on.
pub open spec fn variadic_args(e: Env, st: St, item: Ty, args: Seq<Expr>, i: int, m: Subst) -> (St, Subst)
    decreases exprs_size(args, i), 1nat,
{
    if 0 <= i < args.len() {
        let arg = args[i];
        if arg.kind is MutArg {
            variadic_args(
                e,
                st.fail(arg.span, "`mut` is not valid for a variadic argument"@),
                item,
                args,
                i + 1,
                m,
            )
        } else {
            let want = subst(item, m);
            let (st1, t) = expr(e, st, arg, Some(want));
            if want is String {
                variadic_args(e, require_string(e, st1, t, arg.span), item, args, i + 1, m)
            } else {
                let m1 = infer(item, t, m);
                let want1 = subst(item, m1);
                variadic_args(
                    e,
                    st1.fail_if(!fits(t, want1), arg.span, mismatch(e, want1, t)),
                    item,
                    args,
                    i + 1,
                    m1,
                )
            }
        }
    } else {
        (st, m)
    }
}

/// After the arguments of a call: what the generic parameters are chosen to
/// be, starting from `m`.
pub open spec fn call_args(
    e: Env,
    st: St,
    sig: Sig,
    args: Seq<Expr>,
    span: Span,
    expected: Option<Ty>,
    m: Subst,
    gargs: Seq<Ty>,
    id: Option<NodeId>,
) -> (St, Subst)
    decreases exprs_size(args, 0), 2nat,
{
    let (st1, m1) = explicit_chosen(args_counted(st, sig, args.len(), span), sig, m, gargs, span);
    let m2 = match expected {
        Some(w) => infer(sig.ret, w, m1),
        None => m1,
    };
    let m3 = if variadic(sig) {
        m2.insert("$variadic_len"@, Ty::Const(rest_count(args.len(), fixed_params(sig))))
    } else {
        m2
    };
    let n = smaller(args.len(), fixed_params(sig));
    let (st2, m4) = fixed_args(e, st1, sig, args, 0, n as int, m3, Map::empty());
    proof {
        lemma_exprs_tail(args, 0, n as int);
    }
    let (st3, m5) = if variadic(sig) {
        variadic_args(e, st2, sig.params[sig.params.len() - 1].ty, args, n as int, m4)
    } else {
        (st2, m4)
    };
    (choices_recorded(choices_checked(e, st3, sig, m5, 0, span), id, sig, m5), m5)
}

// ---------------------------------------------------------------------
// Struct literals
// ---------------------------------------------------------------------

/// After the field initializers from the `i`-th on.
pub open spec fn literal_fields(
    e: Env,
    st: St,
    def: DefId,
    declared: Seq<(Seq<char>, Ty)>,
    fields: Seq<FieldInit>,
    i: int,
    m: Subst,
) -> (St, Subst)
    decreases fields_size(fields, i), 1nat,
{
    if 0 <= i < fields.len() {
        let name = fields[i].name.name@;
        let span = fields[i].name.span;
        let value = fields[i].value;
        match crate::check::facts::field_named(declared, name, 0) {
            Some(ty) => {
                let st0 = st.fail_if(
                    private_field(e, def, name, span),
                    span,
                    "field `"@ + name + "` is private"@,
                );
                let (st1, t) = expr(e, st0, value, Some(subst(ty, m)));
                let m1 = infer(ty, t, m);
                let want = subst(ty, m1);
                literal_fields(
                    e,
                    st1.fail_if(
                        !fits(t, want),
                        value.span,
                        mismatch(e, want, t) + " for field `"@ + name + "`"@,
                    ),
                    def,
                    declared,
                    fields,
                    i + 1,
                    m1,
                )
            },
            None => literal_fields(
                e,
                expr(
                    e,
                    st.fail(span, "`"@ + e.sc.name(def) + "` has no field named `"@ + name + "`"@),
                    value,
                    None,
                ).0,
                def,
                declared,
                fields,
                i + 1,
                m,
            ),
        }
    } else {
        (st, m)
    }
}

/// After the field initializers from the `i`-th on, with nothing expected of
/// them.
pub open spec fn free_fields(e: Env, st: St, fields: Seq<FieldInit>, i: int) -> St
    decreases fields_size(fields, i), 1nat,
{
    if 0 <= i < fields.len() {
        free_fields(e, expr(e, st, fields[i].value, None).0, fields, i + 1)
    } else {
        st
    }
}

/// After the field initializers of something unknown.
pub open spec fn idle_fields(e: Env, st: St, fields: Seq<FieldInit>) -> St
    decreases fields_size(fields, 0), 2nat,
{
    if st.diags.len() == 0 {
        free_fields(e, st, fields, 0)
    } else {
        st
    }
}

/// The names of the initialized fields.
pub open spec fn initialized(fields: Seq<FieldInit>) -> Seq<Seq<char>> {
    Seq::new(fields.len(), |i: int| fields[i].name.name@)
}

/// After reporting the declared fields from the `i`-th on that are missing.
pub open spec fn missing_fields(e: Env, st: St, def: DefId, declared: Seq<(Seq<char>, Ty)>, seen: Seq<Seq<char>>, i: int, span: Span) -> St
    decreases declared.len() - i,
{
    if 0 <= i < declared.len() {
        missing_fields(
            e,
            st.fail_if(
                !seen.contains(declared[i].0),
                span,
                "missing field `"@ + declared[i].0 + "` in struct literal for `"@ + e.sc.name(def) + "`"@,
            ),
            def,
            declared,
            seen,
            i + 1,
            span,
        )
    } else {
        st
    }
}

/// What is expected inside the owned form, if the literal is owned.
pub open spec fn inner_expected(owned: bool, expected: Option<Ty>) -> Option<Ty> {
    if owned {
        match expected {
            Some(Ty::Unique(inner)) => Some(*inner),
            _ => None,
        }
    } else {
        expected
    }
}

/// After a struct literal.
pub open spec fn struct_literal(e: Env, st: St, path: Path, fields: Seq<FieldInit>, owned: bool, expected: Option<Ty>) -> (St, Ty)
    decreases fields_size(fields, 0), 3nat,
{
    match e.sc.names.path(path.id) {
        None => (idle_fields(e, st, fields), Ty::Error),
        Some(res) => match res.base {
            Resolution::Def(def) => {
                let name = e.sc.name(def);
                if !(e.sc.defs().kind_of(def) is Type) {
                    (st.fail(path.span, "`"@ + name + "` is not a struct type"@), Ty::Error)
                } else {
                    match e.sigs.type_shapes.get(def) {
                        Some(Shape::Struct(declared)) => {
                            let names = e.sigs.generics_of(def);
                            let m = match inner_expected(owned, expected) {
                                Some(Ty::Struct(i, targs)) => expected_args(def, names, Some(Ty::Struct(i, targs))),
                                _ => Map::empty(),
                            };
                            let (st1, m1) = literal_fields(e, st, def, declared, fields, 0, m);
                            let t = Ty::Struct(def, chosen_types(names, m1));
                            (
                                missing_fields(e, st1, def, declared, initialized(fields), 0, path.span),
                                if owned {
                                    Ty::Unique(Box::new(t))
                                } else {
                                    t
                                },
                            )
                        },
                        _ => (
                            st.fail(path.span, "`"@ + name + "` is not a struct with named fields"@),
                            Ty::Error,
                        ),
                    }
                }
            },
            Resolution::Error => (idle_fields(e, st, fields), Ty::Error),
            _ => (st.fail(path.span, "struct literal path does not name a type"@), Ty::Error),
        },
    }
}

// ---------------------------------------------------------------------
// Control flow
// ---------------------------------------------------------------------

/// After an `if`. The branches start from the same moves.
pub open spec fn conditional(e: Env, st: St, cond: Expr, then_branch: Block, else_branch: Option<Box<Expr>>, expected: Option<Ty>) -> (St, Ty)
    decreases expr_size(cond) + block_size(then_branch) + opt_size(else_branch), 10nat,
{
    let (st1, c) = expr(e, st, cond, None);
    let st2 = require_bool(st1, c, cond.span, "`if` condition"@);
    let (st3, a) = block(e, st2, then_branch, expected);
    let st4 = St { moved: st2.moved, ..st3 };
    match else_branch {
        None => (st4.merged(a is Never, st3.moved), ty_unit()),
        Some(other) => {
            let want = match expected {
                Some(w) => Some(w),
                None => Some(a),
            };
            let (st5, b) = expr(e, st4, *other, want);
            let st6 = (St { moved: st2.moved, ..st5 }).merged(a is Never, st3.moved).merged(b is Never, st5.moved);
            let st7 = st6.fail_if(
                !fits(a, b),
                other.span,
                "`if`/`else` branches have incompatible types: `"@ + shown(a, e.sc.defs()) + "` vs `"@ + shown(
                    b,
                    e.sc.defs(),
                ) + "`"@,
            );
            let result = branch_type(a, b);
            (tail_retyped(st7, then_branch, result), result)
        },
    }
}

/// The state of a `match` between two arms.
pub struct ArmSt {
    pub ps: PatSt,
    pub result: Option<Ty>,
    pub moves: Seq<(bool, Map<LocalId, Span>)>,
}

/// After the arms from the `i`-th on. They start from the same moves.
pub open spec fn match_arms(e: Env, a: ArmSt, arms: Seq<MatchArm>, i: int, t: Ty, expected: Option<Ty>) -> ArmSt
    decreases arms_size(arms, i), 1nat,
{
    if 0 <= i < arms.len() {
        let before = a.ps.st.moved;
        let ps = pattern(e, a.ps, arms[i].pattern, t, true);
        let want = match expected {
            Some(w) => Some(w),
            None => a.result,
        };
        let (st1, b) = expr(e, ps.st, arms[i].body, want);
        let st2 = St { moved: before, ..st1 };
        let moves = a.moves.push((b is Never, st1.moved));
        let (st3, result) = match a.result {
            None => (st2, b),
            Some(prior) => (
                st2.fail_if(
                    !fits(prior, b),
                    arms[i].body.span,
                    "`match` arms have incompatible types: `"@ + shown(prior, e.sc.defs()) + "` vs `"@ + shown(
                        b,
                        e.sc.defs(),
                    ) + "`"@,
                ),
                branch_type(prior, b),
            ),
        };
        match_arms(
            e,
            ArmSt { ps: PatSt { st: st3, ..ps }, result: Some(result), moves },
            arms,
            i + 1,
            t,
            expected,
        )
    } else {
        a
    }
}

/// After a `match`.
pub open spec fn matching(e: Env, st: St, scrutinee: Expr, arms: Seq<MatchArm>, span: Span, expected: Option<Ty>) -> (St, Ty)
    decreases expr_size(scrutinee) + arms_size(arms, 0), 10nat,
{
    let (st1, t) = expr(e, st, scrutinee, None);
    let a = match_arms(
        e,
        ArmSt {
            ps: PatSt { st: st1, covered: Seq::empty(), catch_all: false },
            result: None,
            moves: Seq::empty(),
        },
        arms,
        0,
        t,
        expected,
    );
    let st2 = exhaustive(e, all_merged(a.ps.st, a.moves, 0), t, a.ps.covered, a.ps.catch_all, span);
    let result = match a.result {
        Some(r) => r,
        None => ty_unit(),
    };
    (arms_retyped(st2, arms, 0, result), result)
}

/// After a loop body: once silently, to find what it moves, then once more
/// as a later iteration. The loop may not run at all.
pub open spec fn loop_body(e: Env, st: St, body: Block) -> St
    decreases block_size(body), 1nat,
{
    let st1 = block(e, St { in_loop: true, silent: true, ..st }, body, None).0;
    let st2 = block(
        e,
        St { silent: st.silent, moved: st1.moved.union_prefer_right(st.moved), ..st1 },
        body,
        None,
    ).0;
    St { moved: st2.moved.union_prefer_right(st.moved), in_loop: st.in_loop, ..st2 }
}

/// After a `for`.
pub open spec fn for_in(e: Env, st: St, p: Pattern, iter: Expr, body: Block) -> (St, Ty)
    decreases expr_size(iter) + block_size(body), 10nat,
{
    let (st1, t) = expr(e, st, iter, None);
    let (st2, item) = match t {
        Ty::Array(inner) => (st1, *inner),
        Ty::Error => (st1, Ty::Error),
        _ => (
            st1.fail(
                iter.span,
                "`for`-`in` requires an `Array`, found `"@ + shown(t, e.sc.defs()) + "`"@,
            ),
            Ty::Error,
        ),
    };
    let st3 = pattern(e, PatSt { st: st2, covered: Seq::empty(), catch_all: false }, p, item, true).st;
    (loop_body(e, st3, body), ty_unit())
}

/// After a `return`.
pub open spec fn returning(e: Env, st: St, value: Option<Box<Expr>>, span: Span) -> (St, Ty)
    decreases opt_size(value), 10nat,
{
    let want = st.return_ty;
    let (st1, t) = match value {
        Some(x) => expr(e, st, *x, Some(want)),
        None => (st, ty_unit()),
    };
    let st2 = if !fits(t, want) {
        st1.fail(
            span,
            "expected return type `"@ + shown(want, e.sc.defs()) + "`, found `"@ + shown(t, e.sc.defs()) + "`"@,
        )
    } else if is_ref(want) {
        returned_reference(e, st1, value, span)
    } else {
        st1
    };
    (returned_closure(st2, value, span), Ty::Never)
}

/// After recording what a closure captures.
#[verifier::opaque]
pub open spec fn captures_recorded(e: Env, st: St, id: NodeId, mut_capture: bool, body: Expr) -> St {
    let counts = counts_in(e, body);
    let references = captured_references(st, counts, 0, Seq::empty());
    let st1 = St {
        closure_uses: st.closure_uses.insert(id, references),
        deferred: st.deferred.push(counted(references)),
        ..st
    };
    if mut_capture {
        St {
            closure_mut_captures: st1.closure_mut_captures.insert(
                id,
                captured_mutably(e, st, counts, 0, Seq::empty()),
            ),
            ..st1
        }
    } else {
        st1
    }
}

/// After a closure. Uses of captured references count when it is called.
pub open spec fn closure(e: Env, st: St, id: NodeId, mut_capture: bool, params: Seq<Param>, body: Expr, expected: Option<Ty>) -> (St, Ty)
    decreases expr_size(body), 10nat,
{
    let (st1, ts) = closure_params(e, st, params, 0, Seq::empty());
    let st2 = closure_bound(e, captures_recorded(e, st1, id, mut_capture, body), params, ts, 0);
    let (st3, ret) = expr(e, St { in_loop: false, ..st2 }, body, closure_expected(expected, ts));
    let st4 = St {
        in_loop: st2.in_loop,
        deferred: if st3.deferred.len() > 0 {
            st3.deferred.drop_last()
        } else {
            st3.deferred
        },
        ..st3
    };
    (closure_done(e, st4, id, params, body, ret), Ty::Function(ts, Box::new(ret)))
}

// ---------------------------------------------------------------------
// Blocks
// ---------------------------------------------------------------------

/// After an initializer that a reference type is declared for.
pub open spec fn stored_borrow(e: Env, st: St, value: Expr, declared: Ty) -> (St, Stored)
    decreases expr_size(value), 10nat,
{
    let mutable = declared is MutRef;
    if !is_ref(declared) {
        (st, None)
    } else {
        match bare_local(e.sc.names, value) {
            None => {
                let (st1, t) = expr(e, st, value, Some(declared));
                let (st2, o) = inferred_origin(e, st1, value);
                (st2, Some((t, o, mutable)))
            },
            Some(origin) => match st.locals.get(origin) {
                None => (st.typed(value.id, Ty::Error), Some((Ty::Error, None, mutable))),
                Some((owned, mutable_local)) => if is_ref(owned) {
                    let (st1, t) = expr(e, st, value, Some(declared));
                    (st1, Some((t, st1.reference_origins.get(origin), mutable)))
                } else {
                    stored_owned(e, st, value, origin, owned, mutable_local, declared)
                },
            },
        }
    }
}

/// After a statement.
pub open spec fn stmt(e: Env, st: St, s: Stmt) -> (St, Ty)
    decreases stmt_size(s), 0nat,
{
    match s {
        Stmt::Let(l) => {
            let (declared, st1) = match l.ty {
                Some(syntax) => {
                    let (t, st1) = st.lowered(e.sc, syntax);
                    (Some(normal(e.sigs, t)), st1)
                },
                None => (None, st),
            };
            let (st2, stored) = match declared {
                Some(d) => stored_borrow(e, st1, l.value, d),
                None => (st1, None),
            };
            let (st3, value) = match stored {
                Some((t, _, _)) => (st2, t),
                None => expr(e, st2, l.value, declared),
            };
            let_bound(e, st3, l, declared, stored, value)
        },
        Stmt::Expr(x) => {
            let (st1, t) = expr(e, st, x, None);
            (
                st1.fail_if(
                    !(t is Error) && has_error(t),
                    x.span,
                    "cannot infer all generic type arguments for this expression"@,
                ).flushed(),
                t,
            )
        },
    }
}

/// After the statements from the `i`-th on, and whether one of them never
/// ends.
pub open spec fn stmts(e: Env, st: St, s: Seq<Stmt>, i: int, diverges: bool) -> (St, bool)
    decreases stmts_size(s, i), 1nat,
{
    if 0 <= i < s.len() {
        let (st1, t) = stmt(e, st, s[i]);
        stmts(e, st1, s, i + 1, diverges || t is Never)
    } else {
        (st, diverges)
    }
}

/// After a block.
pub open spec fn block(e: Env, st: St, b: Block, expected: Option<Ty>) -> (St, Ty)
    decreases block_size(b), 0nat,
{
    let (st1, diverges) = stmts(e, st.opened(), b.stmts@, 0, false);
    let (st2, t) = match b.tail {
        Some(tail) => expr(e, st1, *tail, expected),
        None => (
            st1,
            if diverges {
                Ty::Never
            } else {
                ty_unit()
            },
        ),
    };
    (st2.closed(), t)
}

/// After a function's outermost block, which never yields its last
/// expression.
pub open spec fn fn_body(e: Env, st: St, b: Block) -> (St, Ty) {
    let (st1, d1) = stmts(e, st, b.stmts@, 0, false);
    let (st2, d2) = match b.tail {
        Some(tail) => {
            let (st2, t) = expr(e, st1, *tail, None);
            (st2, d1 || t is Never)
        },
        None => (st1, d1),
    };
    (
        st2,
        if d2 {
            Ty::Never
        } else {
            ty_unit()
        },
    )
}

} // verus!
