//! After a check without errors every expression has a recorded type.
use crate::ast::{
    args_size, arms_size, block_size, expr_size, exprs_size, fields_size, lemma_exprs_size, lemma_exprs_tail, opt_size,
    parts_size, stmt_size, stmts_size, Block, Expr, ExprKind, FieldAccessor, FieldInit, Ident, MatchArm, Param, Path,
    Pattern, Stmt, TemplatePart, TypeExpr,
};
use crate::check::borrows::{borrow_arg, bound_method_index, method_args, methods_on, spawn_captures};
use crate::check::facts::{
    bare_local, field_named, into_string_bound, mismatch, mut_arg_checked, private_field, require_bool, require_string,
};
use crate::check::growth::{group_grows, group_has, group_steps, grows, has_all, step_converted};
use crate::check::model::{
    array, array_items, array_method, array_rest, assign, assign_path, assign_target, block, call, call_args,
    call_value, called, captures_recorded, captures_sendable, closure, conditional, conversion, ctor_args,
    declared_method, def_value, expr, fixed_arg, fixed_args, fixed_array, fn_body, fn_value, for_in, free_args,
    free_fields, hash_args, idle_args, idle_fields, idle_list, lemma_plain_arg, literal_fields, loop_body, match_arms,
    matching, method_call, named_call, owner_const, parameter_method, path_rest, plain_arg, print_args,
    receiver_checked, receiver_choice, returning, second_span, static_member, stmt, stmts, stored_borrow,
    struct_literal, synth, task_spawn, template, thread_spawn, timer_args, timer_sleep, trait_method, tuple_items,
    type_value, value_args, value_path, variadic_args, variant_value, ArmSt,
};
use crate::check::patterns::{pattern, PatSt};
use crate::check::rules::{
    args_counted, branch_type, call_allowed, closure_bound, closure_expected, closure_params, deref_allowed,
    explicit_args, explicit_chosen, fixed_params, is_ref, local_read, mut_disagrees, path_fields, rest_count, smaller,
    variadic, writable_pointee,
};
use crate::check::state::{Env, St};
use crate::declarations::ty_integer;
use crate::describe::shown;
use crate::ids::{DefId, LocalId, NodeId, Span};
use crate::names::{DefKind, PathResolution, Resolution};
use crate::owners::sig_subst;
use crate::rules::{derivable, normal, Derived};
use crate::sig::{PSig, Shape, Sig};
use crate::subst::{infer, subst, zip_subst, Subst};
use crate::text::decimal;
use crate::ty::{fits, ty_direct, Ty};
use vstd::prelude::*;

verus! {

broadcast use {group_grows, group_has, group_steps};

// ---------------------------------------------------------------------
// The expressions of a body
// ---------------------------------------------------------------------

/// The ids of an expression and all expressions in it.
pub open spec fn expr_ids(x: Expr) -> Set<NodeId>
    decreases x,
{
    (match x.kind {
        ExprKind::Literal(_) => Set::empty(),
        ExprKind::Path(_) => Set::empty(),
        ExprKind::Tuple(xs) => exprs_ids(xs@, 0, xs@.len() as int),
        ExprKind::Array(xs) => exprs_ids(xs@, 0, xs@.len() as int),
        ExprKind::FixedArray(xs) => exprs_ids(xs@, 0, xs@.len() as int),
        ExprKind::Await(a) => expr_ids(*a),
        ExprKind::StringTemplate(parts) => parts_ids(parts@, 0),
        ExprKind::RawBorrow { mutable: _, place } => expr_ids(*place),
        ExprKind::RawDeref(a) => expr_ids(*a),
        ExprKind::Unary { op: _, expr } => expr_ids(*expr),
        ExprKind::Binary { op: _, lhs, rhs } => expr_ids(*lhs).union(expr_ids(*rhs)),
        ExprKind::Assign { target, value } => expr_ids(*target).union(expr_ids(*value)),
        ExprKind::Call { callee, generic_args: _, args } => expr_ids(*callee).union(
            exprs_ids(args@, 0, args@.len() as int),
        ),
        ExprKind::MutArg(a) => expr_ids(*a),
        ExprKind::MethodCall { receiver, method: _, generic_args: _, args } => expr_ids(*receiver).union(
            exprs_ids(args@, 0, args@.len() as int),
        ),
        ExprKind::Field { base, field: _ } => expr_ids(*base),
        ExprKind::Index { base, index } => expr_ids(*base).union(expr_ids(*index)),
        ExprKind::If { cond, then_branch, else_branch } => expr_ids(*cond).union(block_ids(then_branch)).union(
            match else_branch {
                Some(a) => expr_ids(*a),
                None => Set::empty(),
            },
        ),
        ExprKind::Match { scrutinee, arms } => expr_ids(*scrutinee).union(arms_ids(arms@, 0)),
        ExprKind::Block(b) => block_ids(b),
        ExprKind::Unsafe(b) => block_ids(b),
        ExprKind::While { cond, body } => expr_ids(*cond).union(block_ids(body)),
        ExprKind::ForIn { pattern: _, iter, body } => expr_ids(*iter).union(block_ids(body)),
        ExprKind::Loop { body } => block_ids(body),
        ExprKind::Break(v) => match v {
            Some(a) => expr_ids(*a),
            None => Set::empty(),
        },
        ExprKind::Continue => Set::empty(),
        ExprKind::Return(v) => match v {
            Some(a) => expr_ids(*a),
            None => Set::empty(),
        },
        ExprKind::Closure { move_capture: _, mut_capture: _, params: _, body } => expr_ids(*body),
        ExprKind::StructLit { path: _, fields, owned: _ } => fields_ids(fields@, 0),
    }).insert(x.id)
}

/// The ids in the expressions from the `i`-th up to the `n`-th.
pub open spec fn exprs_ids(s: Seq<Expr>, i: int, n: int) -> Set<NodeId>
    decreases s, n - i,
{
    if 0 <= i < n && i < s.len() {
        expr_ids(s[i]).union(exprs_ids(s, i + 1, n))
    } else {
        Set::empty()
    }
}

/// The ids in the template parts from the `i`-th on.
pub open spec fn parts_ids(s: Seq<TemplatePart>, i: int) -> Set<NodeId>
    decreases s, s.len() - i,
{
    if 0 <= i < s.len() {
        (match s[i] {
            TemplatePart::Expr(x) => expr_ids(x),
            TemplatePart::Text => Set::empty(),
        }).union(parts_ids(s, i + 1))
    } else {
        Set::empty()
    }
}

/// The ids in the bodies of the arms from the `i`-th on.
pub open spec fn arms_ids(s: Seq<MatchArm>, i: int) -> Set<NodeId>
    decreases s, s.len() - i,
{
    if 0 <= i < s.len() {
        expr_ids(s[i].body).union(arms_ids(s, i + 1))
    } else {
        Set::empty()
    }
}

/// The ids in the field initializers from the `i`-th on.
pub open spec fn fields_ids(s: Seq<FieldInit>, i: int) -> Set<NodeId>
    decreases s, s.len() - i,
{
    if 0 <= i < s.len() {
        expr_ids(s[i].value).union(fields_ids(s, i + 1))
    } else {
        Set::empty()
    }
}

/// The ids in the statements from the `i`-th on.
pub open spec fn stmts_ids(s: Seq<Stmt>, i: int) -> Set<NodeId>
    decreases s, s.len() - i,
{
    if 0 <= i < s.len() {
        (match s[i] {
            Stmt::Let(l) => expr_ids(l.value),
            Stmt::Expr(x) => expr_ids(x),
        }).union(stmts_ids(s, i + 1))
    } else {
        Set::empty()
    }
}

/// The ids in a block.
pub open spec fn block_ids(b: Block) -> Set<NodeId>
    decreases b,
{
    stmts_ids(b.stmts@, 0).union(
        match b.tail {
            Some(a) => expr_ids(*a),
            None => Set::empty(),
        },
    )
}

/// The ids in all expressions of a list.
pub open spec fn list_ids(s: Seq<Expr>) -> Set<NodeId> {
    exprs_ids(s, 0, s.len() as int)
}

/// The ids in the arguments of a call, if there is one.
pub open spec fn args_ids(args: Option<Seq<Expr>>) -> Set<NodeId> {
    match args {
        Some(xs) => list_ids(xs),
        None => Set::empty(),
    }
}

/// What a statement holds.
pub open spec fn stmt_ids(s: Stmt) -> Set<NodeId> {
    match s {
        Stmt::Let(l) => expr_ids(l.value),
        Stmt::Expr(x) => expr_ids(x),
    }
}

/// The ids of two runs of a list are those of both together.
proof fn lemma_ids_split(m: Map<NodeId, Ty>, s: Seq<Expr>, i: int, n: int, k: int)
    requires
        0 <= i <= n <= k,
        has_all(m, exprs_ids(s, i, n)),
        has_all(m, exprs_ids(s, n, k)),
    ensures
        has_all(m, exprs_ids(s, i, k)),
    decreases n - i,
{
    if i < n && i < s.len() {
        lemma_ids_split(m, s, i + 1, n, k);
    }
}

/// Whether errors are reported, and none has been up to the second state.
pub open spec fn clean(a: St, b: St) -> bool {
    !a.silent && b.diags.len() == 0
}

/// What checking does from one state to the next: nothing is lost, and if no
/// error has been reported, these expressions have recorded types.
pub open spec fn ran(a: St, b: St, ids: Set<NodeId>) -> bool {
    grows(a, b) && (clean(a, b) ==> has_all(b.expr_types, ids))
}

/// One run after another.
proof fn lemma_ran_on(a: St, b: St, c: St, i: Set<NodeId>, j: Set<NodeId>)
    requires
        ran(a, b, i),
        ran(b, c, j),
    ensures
        ran(a, c, i.union(j)),
{
}

/// A run and then an error, if there is one.
proof fn lemma_ran_then(a: St, b: St, ids: Set<NodeId>, wrong: bool, span: Span, message: Seq<char>)
    requires
        ran(a, b, ids),
    ensures
        ran(a, b.fail_if(wrong, span, message), ids),
{
}

/// A step and then a run.
proof fn lemma_then_ran(a: St, b: St, c: St, ids: Set<NodeId>)
    requires
        grows(a, b),
        ran(b, c, ids),
    ensures
        ran(a, c, ids),
{
}

// ---------------------------------------------------------------------
// Expressions
// ---------------------------------------------------------------------

/// Checking an expression loses nothing, records its type and, without
/// errors, the types of all expressions in it.
pub proof fn run_expr(e: Env, st: St, x: Expr, expected: Option<Ty>)
    ensures
        ran(st, expr(e, st, x, expected).0, expr_ids(x)),
        expr(e, st, x, expected).0.expr_types.contains_key(x.id),
        expr(e, st, x, expected).0.expr_types[x.id] == expr(e, st, x, expected).1,
    decreases expr_size(x), 9nat,
{
    run_synth(e, st, x, expected);
}

/// The ids below an expression.
pub open spec fn inner_ids(x: Expr) -> Set<NodeId> {
    match x.kind {
        ExprKind::Literal(_) => Set::empty(),
        ExprKind::Path(_) => Set::empty(),
        ExprKind::Tuple(xs) => list_ids(xs@),
        ExprKind::Array(xs) => list_ids(xs@),
        ExprKind::FixedArray(xs) => list_ids(xs@),
        ExprKind::Await(a) => expr_ids(*a),
        ExprKind::StringTemplate(parts) => parts_ids(parts@, 0),
        ExprKind::RawBorrow { mutable: _, place } => expr_ids(*place),
        ExprKind::RawDeref(a) => expr_ids(*a),
        ExprKind::Unary { op: _, expr } => expr_ids(*expr),
        ExprKind::Binary { op: _, lhs, rhs } => expr_ids(*lhs).union(expr_ids(*rhs)),
        ExprKind::Assign { target, value } => expr_ids(*target).union(expr_ids(*value)),
        ExprKind::Call { callee, generic_args: _, args } => expr_ids(*callee).union(list_ids(args@)),
        ExprKind::MutArg(a) => expr_ids(*a),
        ExprKind::MethodCall { receiver, method: _, generic_args: _, args } => expr_ids(*receiver).union(
            list_ids(args@),
        ),
        ExprKind::Field { base, field: _ } => expr_ids(*base),
        ExprKind::Index { base, index } => expr_ids(*base).union(expr_ids(*index)),
        ExprKind::If { cond, then_branch, else_branch } => expr_ids(*cond).union(block_ids(then_branch)).union(
            opt_ids(else_branch),
        ),
        ExprKind::Match { scrutinee, arms } => expr_ids(*scrutinee).union(arms_ids(arms@, 0)),
        ExprKind::Block(b) => block_ids(b),
        ExprKind::Unsafe(b) => block_ids(b),
        ExprKind::While { cond, body } => expr_ids(*cond).union(block_ids(body)),
        ExprKind::ForIn { pattern: _, iter, body } => expr_ids(*iter).union(block_ids(body)),
        ExprKind::Loop { body } => block_ids(body),
        ExprKind::Break(v) => opt_ids(v),
        ExprKind::Continue => Set::empty(),
        ExprKind::Return(v) => opt_ids(v),
        ExprKind::Closure { move_capture: _, mut_capture: _, params: _, body } => expr_ids(*body),
        ExprKind::StructLit { path: _, fields, owned: _ } => fields_ids(fields@, 0),
    }
}

/// The ids in an optional expression.
pub open spec fn opt_ids(v: Option<Box<Expr>>) -> Set<NodeId> {
    match v {
        Some(a) => expr_ids(*a),
        None => Set::empty(),
    }
}

/// An expression's ids are its own and those below it.
proof fn lemma_expr_ids(x: Expr)
    ensures
        expr_ids(x) == inner_ids(x).insert(x.id),
{
}

#[verifier::rlimit(40)]
pub proof fn run_synth(e: Env, st: St, x: Expr, expected: Option<Ty>)
    ensures
        ran(st, synth(e, st, x, expected).0, inner_ids(x)),
        expr_ids(x) == inner_ids(x).insert(x.id),
    decreases expr_size(x), 8nat,
{
    lemma_expr_ids(x);
    match x.kind {
        ExprKind::Literal(_) => {},
        ExprKind::Path(path) => {
            run_value_path(e, st, path, None, expected, None, Seq::empty());
        },
        ExprKind::Tuple(xs) => {
            let want = match expected {
                Some(Ty::Tuple(ts)) => if ts.len() == xs@.len() {
                    Some(ts)
                } else {
                    None
                },
                _ => None,
            };
            run_tuple_items(e, st, xs@, 0, want, Seq::empty());
        },
        ExprKind::Array(xs) => {
            run_array(e, st, xs@, expected, x.span);
        },
        ExprKind::FixedArray(xs) => {
            run_fixed_array(e, st, xs@, expected, x.span);
        },
        ExprKind::Await(a) => {
            let st0 = st.fail_if(!st.in_async, x.span, "`await` is only allowed inside an `async fn`"@);
            run_expr(e, st0, *a, None);
        },
        ExprKind::StringTemplate(parts) => {
            run_template(e, st, parts@, 0);
        },
        ExprKind::RawBorrow { mutable: _, place } => {
            let st0 = st.fail_if(
                !crate::check::facts::has_local_root(e.sc.names, *place),
                place.span,
                "`&raw const`/`&raw mut` requires a place expression — a local binding or one of its fields/elements/dereferences"@,
            );
            run_expr(e, st0, *place, None);
        },
        ExprKind::RawDeref(a) => {
            run_expr(e, deref_allowed(st, x.span), *a, None);
        },
        ExprKind::Unary { op: _, expr: a } => {
            run_expr(e, st, *a, None);
        },
        ExprKind::Binary { op: _, lhs, rhs } => {
            run_expr(e, st, *lhs, None);
            let (st1, a) = expr(e, st, *lhs, None);
            run_expr(e, st1, *rhs, Some(a));
        },
        ExprKind::Assign { target, value } => {
            run_assign(e, st, *target, *value);
        },
        ExprKind::Call { callee, generic_args, args } => {
            run_call_expr(e, st, x, *callee, generic_args@, args@, expected);
        },
        ExprKind::MutArg(a) => {
            run_expr(e, st, *a, None);
        },
        ExprKind::MethodCall { receiver, method, generic_args, args } => {
            if crate::check::model::bare_name(*receiver, "timer"@) && method.name@ == "sleep"@ {
                run_timer_sleep(e, st, generic_args@, method.span, args@, x.span);
            } else {
                let (st1, gargs) = explicit_args(e, st, generic_args@, 0, Seq::empty());
                run_expr(e, st1, *receiver, None);
                let (st2, t) = expr(e, st1, *receiver, None);
                run_method_call(
                    e,
                    st2,
                    t,
                    method,
                    gargs,
                    args@,
                    Some(x.id),
                    crate::check::facts::root_mutable(e.sc.names, st2, *receiver),
                    bare_local(e.sc.names, *receiver),
                );
            }
        },
        ExprKind::Field { base, field: _ } => {
            run_expr(e, st, *base, None);
        },
        ExprKind::Index { base, index } => {
            run_expr(e, st, *base, None);
            run_expr(e, expr(e, st, *base, None).0, *index, None);
        },
        ExprKind::If { cond, then_branch, else_branch } => {
            run_conditional(e, st, *cond, then_branch, else_branch, expected);
        },
        ExprKind::Match { scrutinee, arms } => {
            run_matching(e, st, *scrutinee, arms@, x.span, expected);
        },
        ExprKind::Block(b) => {
            run_block(e, st, b, expected);
        },
        ExprKind::Unsafe(b) => {
            run_block(e, St { in_unsafe: true, ..st }, b, expected);
        },
        ExprKind::While { cond, body } => {
            run_expr(e, st, *cond, None);
            let (st1, t) = expr(e, st, *cond, None);
            run_loop_body(e, require_bool(st1, t, cond.span, "`while` condition"@), body);
        },
        ExprKind::ForIn { pattern: p, iter, body } => {
            run_for_in(e, st, p, *iter, body);
        },
        ExprKind::Loop { body } => {
            run_loop_body(e, st, body);
        },
        ExprKind::Break(v) => {
            let st1 = st.fail_if(!st.in_loop, x.span, "`break` is only valid inside a loop"@);
            if let Some(a) = v {
                run_expr(e, st1, *a, None);
            }
        },
        ExprKind::Continue => {},
        ExprKind::Return(v) => {
            run_returning(e, st, v, x.span);
        },
        ExprKind::Closure { move_capture: _, mut_capture, params, body } => {
            run_closure(e, st, x.id, mut_capture, params@, *body, expected);
        },
        ExprKind::StructLit { path, fields, owned } => {
            run_struct_literal(e, st, path, fields@, owned, expected);
        },
    }
}

pub proof fn run_call_expr(
    e: Env,
    st: St,
    x: Expr,
    callee: Expr,
    generic_args: Seq<TypeExpr>,
    args: Seq<Expr>,
    expected: Option<Ty>,
)
    requires
        x.kind matches ExprKind::Call { callee: c, generic_args: g, args: a } && *c == callee && g@ == generic_args && a@
            == args,
    ensures
        ran(st, synth(e, st, x, expected).0, expr_ids(callee).union(list_ids(args))),
    decreases expr_size(callee) + exprs_size(args, 0), 11nat,
{
    lemma_expr_ids(callee);
    if named_call(callee, "task"@, "spawn"@) {
        run_task_spawn(e, st, callee, generic_args, args, x.span);
    } else if named_call(callee, "thread"@, "spawn"@) {
        let st1 = st.fail_if(generic_args.len() > 0, second_span(callee), "`thread.spawn` is not generic"@);
        if args.len() == 1 {
            lemma_exprs_size(args, 0, 0);
            run_thread_spawn(e, st1, args[0]);
            assert(exprs_ids(args, 1, 1) == Set::<NodeId>::empty());
        }
    } else if named_call(callee, "timer"@, "sleep"@) {
        run_timer_sleep(e, st, generic_args, second_span(callee), args, x.span);
    } else {
        let (st1, gargs) = explicit_args(e, st, generic_args, 0, Seq::empty());
        run_call(e, st1, x.id, callee, gargs, args, expected);
    }
}

// ---------------------------------------------------------------------
// Literals of several parts
// ---------------------------------------------------------------------

pub proof fn run_tuple_items(e: Env, st: St, xs: Seq<Expr>, i: int, want: Option<Seq<Ty>>, acc: Seq<Ty>)
    ensures
        ran(st, tuple_items(e, st, xs, i, want, acc).0, exprs_ids(xs, i, xs.len() as int)),
    decreases exprs_size(xs, i), 1nat,
{
    if 0 <= i < xs.len() {
        let w = match want {
            Some(ts) => if i < ts.len() {
                Some(ts[i])
            } else {
                None
            },
            None => None,
        };
        run_expr(e, st, xs[i], w);
        let (st1, t) = expr(e, st, xs[i], w);
        run_tuple_items(e, st1, xs, i + 1, want, acc.push(t));
    }
}

pub proof fn run_array_rest(e: Env, st: St, xs: Seq<Expr>, i: int, first: Ty, what: Seq<char>)
    ensures
        ran(st, array_rest(e, st, xs, i, first, what), exprs_ids(xs, i, xs.len() as int)),
    decreases exprs_size(xs, i), 1nat,
{
    if 0 <= i < xs.len() {
        run_expr(e, st, xs[i], Some(first));
        let (st1, t) = expr(e, st, xs[i], Some(first));
        let st2 = st1.fail_if(!fits(t, first), xs[i].span, mismatch(e, first, t) + " in "@ + what + " literal"@);
        run_array_rest(e, st2, xs, i + 1, first, what);
    }
}

pub proof fn run_array_items(e: Env, st: St, xs: Seq<Expr>, want: Option<Ty>, what: Seq<char>)
    ensures
        ran(st, array_items(e, st, xs, want, what).0, list_ids(xs)),
    decreases exprs_size(xs, 0), 2nat,
{
    if xs.len() > 0 {
        run_expr(e, st, xs[0], want);
        let (st1, first) = expr(e, st, xs[0], want);
        run_array_rest(e, st1, xs, 1, first, what);
    }
}

pub proof fn run_array(e: Env, st: St, xs: Seq<Expr>, expected: Option<Ty>, span: Span)
    ensures
        ran(st, array(e, st, xs, expected, span).0, list_ids(xs)),
    decreases exprs_size(xs, 0), 4nat,
{
    match expected {
        Some(Ty::FixedArray(_, _)) => {
            run_fixed_array(e, st, xs, expected, span);
        },
        _ => {
            let want = match expected {
                Some(Ty::Array(inner)) => Some(*inner),
                _ => None,
            };
            run_array_items(e, st, xs, want, "array"@);
        },
    }
}

pub proof fn run_fixed_array(e: Env, st: St, xs: Seq<Expr>, expected: Option<Ty>, span: Span)
    ensures
        ran(st, fixed_array(e, st, xs, expected, span).0, list_ids(xs)),
    decreases exprs_size(xs, 0), 3nat,
{
    let element = match expected {
        Some(Ty::FixedArray(inner, n)) => Some(*inner),
        _ => None,
    };
    run_array_items(e, st, xs, element, "fixed-array"@);
}

pub proof fn run_template(e: Env, st: St, parts: Seq<TemplatePart>, i: int)
    ensures
        ran(st, template(e, st, parts, i), parts_ids(parts, i)),
    decreases parts_size(parts, i), 1nat,
{
    if 0 <= i < parts.len() {
        match parts[i] {
            TemplatePart::Expr(x) => {
                run_expr(e, st, x, None);
                let (st1, t) = expr(e, st, x, None);
                run_template(e, require_string(e, st1, t, x.span), parts, i + 1);
            },
            TemplatePart::Text => {
                run_template(e, st, parts, i + 1);
            },
        }
    }
}

// ---------------------------------------------------------------------
// Assignment
// ---------------------------------------------------------------------

pub proof fn run_assign_through(e: Env, st: St, target: Expr, pointer: Expr, value: Expr)
    requires
        target.kind matches ExprKind::RawDeref(p) && *p == pointer,
    ensures
        ran(st, assign(e, st, target, value).0, expr_ids(target).union(expr_ids(value))),
    decreases expr_size(target) + expr_size(value), 9nat,
{
    lemma_expr_ids(target);
    let st0 = deref_allowed(st, target.span);
    run_expr(e, st0, pointer, None);
    let (st1, t) = expr(e, st0, pointer, None);
    let (st2, p) = writable_pointee(e, st1, t, target.span, pointer.span);
    let st3 = st2.typed(target.id, p);
    assert(ran(st, st3, expr_ids(target)));
    run_expr(e, st3, value, Some(p));
    let (st4, v) = expr(e, st3, value, Some(p));
    let st5 = st4.fail_if(!(p is Error) && !fits(v, p), value.span, mismatch(e, p, v));
    lemma_ran_on(st, st3, st4, expr_ids(target), expr_ids(value));
}

pub proof fn run_assign_place(e: Env, st: St, target: Expr, value: Expr)
    requires
        !(target.kind is RawDeref),
    ensures
        ran(st, assign(e, st, target, value).0, expr_ids(target).union(expr_ids(value))),
    decreases expr_size(target) + expr_size(value), 9nat,
{
    lemma_expr_ids(target);
    let st1 = st.fail_if(
        !crate::check::facts::has_local_root(e.sc.names, target),
        target.span,
        "assignment target must be a local binding or one of its fields/elements"@,
    );
    run_assign_target(e, st1, target);
    let (st2, t) = assign_target(e, st1, target);
    let st3 = st2.typed(target.id, t);
    assert(ran(st, st3, expr_ids(target)));
    run_expr(e, st3, value, Some(t));
    let (st4, v) = expr(e, st3, value, Some(t));
    lemma_ran_on(st, st3, st4, expr_ids(target), expr_ids(value));
}

pub proof fn run_assign(e: Env, st: St, target: Expr, value: Expr)
    ensures
        ran(st, assign(e, st, target, value).0, expr_ids(target).union(expr_ids(value))),
    decreases expr_size(target) + expr_size(value), 10nat,
{
    match target.kind {
        ExprKind::RawDeref(pointer) => {
            run_assign_through(e, st, target, *pointer, value);
        },
        _ => {
            run_assign_place(e, st, target, value);
        },
    }
}

pub proof fn run_assign_target(e: Env, st: St, target: Expr)
    ensures
        ran(st, assign_target(e, st, target).0, inner_ids(target)),
    decreases expr_size(target), 10nat,
{
    lemma_expr_ids(target);
    match target.kind {
        ExprKind::Path(path) => {
            run_assign_path(e, st, path);
        },
        ExprKind::Field { base, field } => match field {
            FieldAccessor::Named(_) => {
                run_expr(e, st, *base, None);
            },
            _ => {
                run_expr(e, st, target, None);
            },
        },
        _ => {
            run_expr(e, st, target, None);
        },
    }
}

pub proof fn run_assign_path(e: Env, st: St, path: Path)
    ensures
        grows(st, assign_path(e, st, path).0),
    decreases 0nat, 7nat,
{
    run_value_path(e, st, path, None, None, None, Seq::empty());
}

// ---------------------------------------------------------------------
// Tasks and threads
// ---------------------------------------------------------------------

pub proof fn run_task_spawn(e: Env, st: St, callee: Expr, gargs: Seq<TypeExpr>, args: Seq<Expr>, span: Span)
    ensures
        ran(st, task_spawn(e, st, callee, gargs, args, span).0, list_ids(args)),
    decreases exprs_size(args, 0), 10nat,
{
    let st1 = st.fail_if(!st.in_async, span, "`task.spawn` is only allowed inside an `async fn`"@);
    let st2 = st1.fail_if(gargs.len() > 0, second_span(callee), "`task.spawn` is not generic"@);
    if args.len() == 1 {
        run_expr(e, st2, args[0], None);
        assert(exprs_ids(args, 1, 1) == Set::<NodeId>::empty());
    }
}

pub proof fn run_thread_spawn(e: Env, st: St, arg: Expr)
    ensures
        ran(st, thread_spawn(e, st, arg).0, expr_ids(arg)),
    decreases expr_size(arg), 10nat,
{
    match arg.kind {
        ExprKind::Closure { move_capture, mut_capture: _, params, body } => {
            let st1 = st.fail_if(!move_capture, arg.span, "a `thread.spawn` closure must be `move`"@);
            let st2 = st1.fail_if(params@.len() > 0, arg.span, "a `thread.spawn` closure takes no parameters"@);
            let (st3, captured) = spawn_captures(e, st2, *body, "thread"@);
            run_expr(e, captures_sendable(e, st3, captured, 0, arg.span), arg, None);
        },
        _ => {
            let st1 = st.fail(
                arg.span,
                "`thread.spawn` requires a `move` closure literal argument, e.g. `thread.spawn(move () => { ... })`"@,
            );
            run_expr(e, st1, arg, None);
        },
    }
}

pub proof fn run_timer_args(e: Env, st: St, args: Seq<Expr>, i: int)
    ensures
        ran(st, timer_args(e, st, args, i), exprs_ids(args, i, args.len() as int)),
    decreases exprs_size(args, i), 1nat,
{
    if 0 <= i < args.len() {
        run_expr(e, st, args[i], None);
        let (st1, t) = expr(e, st, args[i], None);
        let st2 = st1.fail_if(!ty_integer(t), args[i].span, "`timer.sleep` expects integer milliseconds"@);
        run_timer_args(e, st2, args, i + 1);
    }
}

pub proof fn run_timer_sleep(e: Env, st: St, gargs: Seq<TypeExpr>, name_span: Span, args: Seq<Expr>, span: Span)
    ensures
        ran(st, timer_sleep(e, st, gargs, name_span, args, span).0, list_ids(args)),
    decreases exprs_size(args, 0), 2nat,
{
    let st1 = st.fail_if(gargs.len() > 0, name_span, "`timer.sleep` is not generic"@);
    let st2 = st1.fail_if(
        args.len() != 1,
        span,
        "`timer.sleep` expects 1 argument, found "@ + decimal(args.len()),
    );
    run_timer_args(e, st2, args, 0);
}

// ---------------------------------------------------------------------
// Paths and calls
// ---------------------------------------------------------------------

pub proof fn run_call(e: Env, st: St, id: NodeId, callee: Expr, gargs: Seq<Ty>, args: Seq<Expr>, expected: Option<Ty>)
    ensures
        ran(st, call(e, st, id, callee, gargs, args, expected).0, expr_ids(callee).union(list_ids(args))),
    decreases expr_size(callee) + exprs_size(args, 0), 10nat,
{
    lemma_expr_ids(callee);
    match callee.kind {
        ExprKind::Path(path) => {
            run_value_path(e, st, path, Some(args), expected, Some(id), gargs);
        },
        _ => {
            let st1 = st.fail_if(
                gargs.len() > 0,
                callee.span,
                "explicit generic arguments require a named function or method"@,
            );
            run_expr(e, st1, callee, None);
            let (st2, t) = expr(e, st1, callee, None);
            run_call_value(e, st2, t, args, callee.span);
        },
    }
}

/// What an argument that is lent holds: itself alone.
proof fn lemma_lent_ids(e: Env, arg: Expr)
    requires
        bare_local(e.sc.names, arg) is Some,
    ensures
        expr_ids(arg) == Set::<NodeId>::empty().insert(arg.id),
{
}

pub proof fn run_value_args(e: Env, st: St, params: Seq<Ty>, args: Seq<Expr>, i: int, borrowed: Map<LocalId, bool>)
    ensures
        grows(st, value_args(e, st, params, args, i, borrowed)),
        clean(st, value_args(e, st, params, args, i, borrowed)) && args.len() <= params.len() ==> has_all(
            value_args(e, st, params, args, i, borrowed).expr_types,
            exprs_ids(args, i, args.len() as int),
        ),
    decreases exprs_size(args, i), 1nat,
{
    if 0 <= i < args.len() && i < params.len() {
        let p = params[i];
        if is_ref(p) {
            let (st1, t, borrowed1) = borrow_arg(e, st, args[i], p, borrowed);
            let st2 = st1.fail_if(!fits(t, p), args[i].span, mismatch(e, p, t));
            if clean(st, st1) {
                lemma_lent_ids(e, args[i]);
                assert(has_all(st1.expr_types, expr_ids(args[i])));
            }
            run_value_args(e, st2, params, args, i + 1, borrowed1);
        } else {
            run_expr(e, st, args[i], Some(p));
            let (st1, t) = expr(e, st, args[i], Some(p));
            let st2 = st1.fail_if(!fits(t, p), args[i].span, mismatch(e, p, t));
            run_value_args(e, st2, params, args, i + 1, borrowed);
        }
    }
}

pub proof fn run_call_value(e: Env, st: St, t: Ty, args: Seq<Expr>, span: Span)
    ensures
        ran(st, call_value(e, st, t, args, span).0, list_ids(args)),
    decreases exprs_size(args, 0), 4nat,
{
    match t {
        Ty::Function(params, ret) => {
            let st1 = st.fail_if(
                args.len() != params.len(),
                span,
                crate::check::facts::arg_count(params.len(), args.len()),
            );
            run_value_args(e, st1, params, args, 0, Map::empty());
        },
        Ty::Error => {
            run_idle_args(e, st, args);
        },
        _ => {},
    }
}

pub proof fn run_path_rest(
    e: Env,
    st: St,
    path: Path,
    res: PathResolution,
    t: Ty,
    args: Option<Seq<Expr>>,
    id: Option<NodeId>,
    gargs: Seq<Ty>,
)
    ensures
        grows(st, path_rest(e, st, path, res, t, args, id, gargs).0),
        res.consumed < path.segments@.len() ==> ran(
            st,
            path_rest(e, st, path, res, t, args, id, gargs).0,
            args_ids(args),
        ),
    decreases args_size(args), 5nat,
{
    let total = path.segments@.len();
    if let Some(xs) = args {
        if res.consumed < total {
            let (st1, t1) = path_fields(e, st, path, res.consumed as int, total - 1, t);
            let (local, mutable) = match res.base {
                Resolution::Local(l) => (
                    if total - res.consumed == 1 {
                        Some(l)
                    } else {
                        None
                    },
                    match st1.locals.get(l) {
                        Some((_, m)) => Some(m),
                        None => None,
                    },
                ),
                _ => (None, None),
            };
            run_method_call(e, st1, t1, path.segments@[total - 1], gargs, xs, id, mutable, local);
        }
    }
}

#[verifier::rlimit(40)]
pub proof fn run_value_path(
    e: Env,
    st: St,
    path: Path,
    args: Option<Seq<Expr>>,
    expected: Option<Ty>,
    id: Option<NodeId>,
    gargs: Seq<Ty>,
)
    ensures
        ran(st, value_path(e, st, path, args, expected, id, gargs).0, args_ids(args)),
    decreases args_size(args), 6nat,
{
    let total = path.segments@.len();
    match e.sc.names.path(path.id) {
        None => {
            run_idle_list(e, st, args);
        },
        Some(res) => {
            let direct = if res.consumed >= total {
                args
            } else {
                None
            };
            match res.base {
                Resolution::GenericParam => {
                    if !(total == 2 && args is None) {
                        run_idle_list(e, st, direct);
                        run_path_rest(e, idle_list(e, st, direct), path, res, Ty::Error, args, id, gargs);
                    }
                },
                Resolution::Local(local) => {
                    let t = match st.locals.get(local) {
                        Some((t, _)) => t,
                        None => Ty::Error,
                    };
                    let st1 = st.used(local, t, path.span, res.consumed == total).noted(local);
                    match direct {
                        Some(xs) => {
                            let st2 = st1.fail_if(
                                gargs.len() > 0,
                                path.span,
                                "explicit generic arguments cannot be applied to a function value"@,
                            );
                            run_call_value(e, st2, t, xs, path.span);
                        },
                        None => {
                            run_path_rest(
                                e,
                                st1,
                                path,
                                res,
                                local_read(e, t, res.consumed == total, expected),
                                args,
                                id,
                                gargs,
                            );
                        },
                    }
                },
                Resolution::Def(def) => {
                    run_def_value(e, st, def, path.span, direct, expected, id, gargs);
                    let (st1, t) = def_value(e, st, def, path.span, direct, expected, id, gargs);
                    run_path_rest(e, st1, path, res, t, args, id, gargs);
                },
                Resolution::EnumVariant(enum_id, idx) => {
                    let st0 = st.fail_if(
                        gargs.len() > 0,
                        path.span,
                        "enum variants do not accept function generic arguments"@,
                    );
                    run_variant_value(e, st0, enum_id, idx, path.span, direct, expected);
                    let (st1, t) = variant_value(e, st0, enum_id, idx, path.span, direct, expected);
                    run_path_rest(e, st1, path, res, t, args, id, gargs);
                },
                Resolution::StaticMember(owner, idx) => {
                    run_static_member(e, st, owner, idx, path.span, direct, id, gargs);
                    let (st1, t) = static_member(e, st, owner, idx, path.span, direct, id, gargs);
                    run_path_rest(e, st1, path, res, t, args, id, gargs);
                },
                Resolution::StaticConst(owner, idx) => {
                    let st0 = st.fail_if(
                        args is Some || gargs.len() > 0,
                        path.span,
                        "an associated constant cannot be called"@,
                    );
                    if let Some((st1, t)) = owner_const(e, st0, owner, idx, path.span) {
                        run_path_rest(e, st1, path, res, t, args, id, gargs);
                    }
                },
                Resolution::ConstParam => {
                    let t = if total > 0 {
                        match st.const_generics.get(path.segments@[0].name@) {
                            Some(t) => t,
                            None => Ty::Error,
                        }
                    } else {
                        Ty::Error
                    };
                    run_idle_list(e, st, direct);
                    run_path_rest(e, idle_list(e, st, direct), path, res, t, args, id, gargs);
                },
                Resolution::Error => {
                    run_idle_list(e, st, direct);
                    run_path_rest(e, idle_list(e, st, direct), path, res, Ty::Error, args, id, gargs);
                },
            }
        },
    }
}

pub proof fn run_def_value(
    e: Env,
    st: St,
    def: DefId,
    span: Span,
    args: Option<Seq<Expr>>,
    expected: Option<Ty>,
    id: Option<NodeId>,
    gargs: Seq<Ty>,
)
    ensures
        ran(st, def_value(e, st, def, span, args, expected, id, gargs).0, args_ids(args)),
    decreases args_size(args), 4nat,
{
    match e.sc.defs().kind_of(def) {
        DefKind::Imported => {
            run_idle_list(e, st, args);
        },
        DefKind::Fn => {
            run_fn_value(e, st, def, span, args, expected, id, gargs);
        },
        DefKind::Type => {
            let st1 = st.fail_if(
                gargs.len() > 0,
                span,
                "type constructors do not accept function generic arguments"@,
            );
            run_type_value(e, st1, def, span, args, expected);
        },
        _ => {},
    }
}

pub proof fn run_print_args(e: Env, st: St, args: Seq<Expr>, i: int)
    ensures
        ran(st, print_args(e, st, args, i), exprs_ids(args, i, args.len() as int)),
    decreases exprs_size(args, i), 1nat,
{
    if 0 <= i < args.len() {
        run_expr(e, st, args[i], None);
        let (st1, t) = expr(e, st, args[i], None);
        run_print_args(e, require_string(e, st1, t, args[i].span), args, i + 1);
    }
}

pub proof fn run_hash_args(e: Env, st: St, args: Seq<Expr>, i: int)
    ensures
        ran(st, hash_args(e, st, args, i), exprs_ids(args, i, args.len() as int)),
    decreases exprs_size(args, i), 1nat,
{
    if 0 <= i < args.len() {
        run_expr(e, st, args[i], None);
        let (st1, t) = expr(e, st, args[i], None);
        let st2 = st1.fail_if(
            !derivable(e.sigs, e.sc.defs(), Derived::Hash, t),
            args[i].span,
            "cannot derive `Hash` for `"@ + shown(t, e.sc.defs())
                + "`: every field must be structurally hashable"@,
        );
        run_hash_args(e, st2, args, i + 1);
    }
}

pub proof fn run_free_args(e: Env, st: St, args: Seq<Expr>, i: int)
    ensures
        ran(st, free_args(e, st, args, i), exprs_ids(args, i, args.len() as int)),
    decreases exprs_size(args, i), 1nat,
{
    if 0 <= i < args.len() {
        run_expr(e, st, args[i], None);
        run_free_args(e, expr(e, st, args[i], None).0, args, i + 1);
    }
}

pub proof fn run_idle_args(e: Env, st: St, args: Seq<Expr>)
    ensures
        ran(st, idle_args(e, st, args), list_ids(args)),
    decreases exprs_size(args, 0), 2nat,
{
    run_free_args(e, st, args, 0);
}

pub proof fn run_idle_list(e: Env, st: St, args: Option<Seq<Expr>>)
    ensures
        ran(st, idle_list(e, st, args), args_ids(args)),
    decreases args_size(args), 2nat,
{
    if let Some(xs) = args {
        run_free_args(e, st, xs, 0);
    }
}

pub proof fn run_fn_value(
    e: Env,
    st: St,
    def: DefId,
    span: Span,
    args: Option<Seq<Expr>>,
    expected: Option<Ty>,
    id: Option<NodeId>,
    gargs: Seq<Ty>,
)
    ensures
        ran(st, fn_value(e, st, def, span, args, expected, id, gargs).0, args_ids(args)),
    decreases args_size(args), 3nat,
{
    let name = e.sc.name(def);
    if name == "println"@ || name == "print"@ {
        let st1 = st.fail_if(gargs.len() > 0, span, "builtin function `"@ + name + "` is not generic"@);
        if let Some(xs) = args {
            run_print_args(e, st1, xs, 0);
        }
    } else if name == "to"@ {
        run_conversion(e, st, span, args, expected, gargs);
    } else if name == "hash"@ {
        let st1 = st.fail_if(gargs.len() > 0, span, "builtin function `hash` is not generic"@);
        if let Some(xs) = args {
            let st2 = st1.fail_if(
                xs.len() != 1,
                span,
                "`hash` takes exactly 1 argument, found "@ + decimal(xs.len()),
            );
            run_hash_args(e, st2, xs, 0);
        }
    } else {
        match e.sigs.fns.get(def) {
            None => {
                run_idle_list(e, st, args);
            },
            Some(sig) => {
                if let Some(xs) = args {
                    run_call_args(e, call_allowed(st, sig, span), sig, xs, span, expected, Map::empty(), gargs, id);
                }
            },
        }
    }
}

pub proof fn run_converted(e: Env, st: St, x: Expr, t: Ty)
    ensures
        ran(st, crate::check::rules::converted(e, expr(e, st, x, Some(t)).0, expr(e, st, x, Some(t)).1, t, x.span), expr_ids(x)),
    decreases expr_size(x), 10nat,
{
    broadcast use step_converted;

    run_expr(e, st, x, Some(t));
}

/// After checking an explicit target against what is expected.
spec fn target_agreed(e: Env, st: St, t: Ty, expected: Option<Ty>, explicit: bool, span: Span) -> St {
    match expected {
        Some(w) => st.fail_if(
            explicit && !fits(t, w),
            span,
            "explicit `to` target `"@ + shown(t, e.sc.defs()) + "` does not match expected type `"@ + shown(
                w,
                e.sc.defs(),
            ) + "`"@,
        ),
        None => st,
    }
}

proof fn run_target_agreed(e: Env, st: St, t: Ty, expected: Option<Ty>, explicit: bool, span: Span)
    ensures
        grows(st, target_agreed(e, st, t, expected, explicit, span)),
{
    if let Some(w) = expected {
        lemma_ran_then(
            st,
            st,
            Set::empty(),
            explicit && !fits(t, w),
            span,
            "explicit `to` target `"@ + shown(t, e.sc.defs()) + "` does not match expected type `"@ + shown(
                w,
                e.sc.defs(),
            ) + "`"@,
        );
    }
}

pub proof fn run_conversion(e: Env, st: St, span: Span, args: Option<Seq<Expr>>, expected: Option<Ty>, gargs: Seq<Ty>)
    ensures
        ran(st, conversion(e, st, span, args, expected, gargs).0, args_ids(args)),
    decreases args_size(args), 2nat,
{
    let st1 = st.fail_if(
        gargs.len() > 1,
        span,
        "`to<T>(value)` takes exactly 1 type argument, found "@ + decimal(gargs.len()),
    );
    if let Some(xs) = args {
        if xs.len() != 1 {
            let st2 = st1.fail(span, "`to` takes exactly 1 argument, found "@ + decimal(xs.len()));
            run_free_args(e, st2, xs, 0);
        } else {
            let target = if gargs.len() > 0 {
                Some(gargs[0])
            } else {
                expected
            };
            match target {
                None => {
                    let st2 = st1.fail(
                        span,
                        "cannot infer the target type of `to(value)`; add a type annotation"@,
                    );
                    run_expr(e, st2, xs[0], None);
                },
                Some(t) => {
                    let st2 = target_agreed(e, st1, t, expected, gargs.len() > 0, span);
                    let (st3, a) = expr(e, st2, xs[0], Some(t));
                    let st4 = crate::check::rules::converted(e, st3, a, t, xs[0].span);
                    assert(ran(st, st4, list_ids(xs))) by {
                        run_target_agreed(e, st1, t, expected, gargs.len() > 0, span);
                        run_converted(e, st2, xs[0], t);
                        lemma_then_ran(st, st2, st4, expr_ids(xs[0]));
                        assert(exprs_ids(xs, 1, 1) == Set::<NodeId>::empty());
                    }
                },
            }
        }
    }
}

pub proof fn run_ctor_args(e: Env, st: St, args: Seq<Expr>, ts: Seq<Ty>, i: int, m: Subst)
    ensures
        grows(st, ctor_args(e, st, args, ts, i, m).0),
        clean(st, ctor_args(e, st, args, ts, i, m).0) && args.len() <= ts.len() ==> has_all(
            ctor_args(e, st, args, ts, i, m).0.expr_types,
            exprs_ids(args, i, args.len() as int),
        ),
    decreases exprs_size(args, i), 1nat,
{
    if 0 <= i < args.len() && i < ts.len() {
        run_expr(e, st, args[i], Some(subst(ts[i], m)));
        let (st1, t) = expr(e, st, args[i], Some(subst(ts[i], m)));
        let m1 = infer(ts[i], t, m);
        let want = subst(ts[i], m1);
        let st2 = st1.fail_if(!fits(t, want), args[i].span, mismatch(e, want, t));
        run_ctor_args(e, st2, args, ts, i + 1, m1);
    }
}

pub proof fn run_type_value(e: Env, st: St, def: DefId, span: Span, args: Option<Seq<Expr>>, expected: Option<Ty>)
    ensures
        ran(st, type_value(e, st, def, span, args, expected).0, args_ids(args)),
    decreases args_size(args), 3nat,
{
    let names = e.sigs.generics_of(def);
    let m = crate::check::model::expected_args(def, names, expected);
    if let Some(Shape::TupleStruct(ts)) = e.sigs.type_shapes.get(def) {
        if let Some(xs) = args {
            let st1 = st.fail_if(
                xs.len() != ts.len(),
                span,
                crate::check::facts::arg_count(ts.len(), xs.len()),
            );
            run_ctor_args(e, st1, xs, ts, 0, m);
        }
    }
}

pub proof fn run_variant_value(e: Env, st: St, def: DefId, idx: u32, span: Span, args: Option<Seq<Expr>>, expected: Option<Ty>)
    ensures
        ran(st, variant_value(e, st, def, idx, span, args, expected).0, args_ids(args)),
    decreases args_size(args), 4nat,
{
    if let Some(sig) = e.sigs.enum_sigs.get(def) {
        if idx < sig.variants.len() {
            let payload = sig.variants[idx as int].1;
            let m = match expected {
                Some(Ty::Enum(_, _)) => crate::check::model::expected_args(def, sig.generics, expected),
                _ => Map::empty(),
            };
            if payload.len() == 0 {
                run_idle_list(e, st, args);
            } else if let Some(xs) = args {
                let st1 = st.fail_if(
                    xs.len() != payload.len(),
                    span,
                    "variant expects "@ + decimal(payload.len()) + " argument(s), found "@ + decimal(xs.len()),
                );
                run_ctor_args(e, st1, xs, payload, 0, m);
            }
        }
    }
}

pub proof fn run_static_member(
    e: Env,
    st: St,
    owner: DefId,
    idx: u32,
    span: Span,
    args: Option<Seq<Expr>>,
    id: Option<NodeId>,
    gargs: Seq<Ty>,
)
    ensures
        ran(st, static_member(e, st, owner, idx, span, args, id, gargs).0, args_ids(args)),
    decreases args_size(args), 4nat,
{
    run_idle_list(e, st, args);
    if let Some(name) = e.sc.defs().method_name_of(owner, idx) {
        if let Some(sig) = e.sigs.method_in_any_domain(owner, name) {
            if let Some(xs) = args {
                run_call_args(e, call_allowed(st, sig, span), sig, xs, span, None, Map::empty(), gargs, id);
            }
        }
    }
}

// ---------------------------------------------------------------------
// Methods
// ---------------------------------------------------------------------

pub proof fn run_method_call(
    e: Env,
    st: St,
    t: Ty,
    method: Ident,
    gargs: Seq<Ty>,
    args: Seq<Expr>,
    id: Option<NodeId>,
    mutable: Option<bool>,
    local: Option<LocalId>,
)
    ensures
        ran(st, method_call(e, st, t, method, gargs, args, id, mutable, local).0, list_ids(args)),
    decreases exprs_size(args, 0), 4nat,
{
    let base = ty_direct(t);
    let name = method.name@;
    match base {
        Ty::Generic(generic) => {
            run_parameter_method(e, st, generic, method, gargs, args, id);
        },
        Ty::Any(trait_id, targs) => {
            run_trait_method(e, st, base, trait_id, targs, method, gargs, args, id, mutable);
        },
        Ty::Opaque(trait_id, targs) => {
            run_trait_method(e, st, base, trait_id, targs, method, gargs, args, id, mutable);
        },
        Ty::Thread(_) => {},
        Ty::Array(item) => {
            if name == "len"@ || name == "push"@ || name == "pop"@ {
                let st1 = st.fail_if(gargs.len() > 0, method.span, "array methods are not generic"@);
                let st2 = st1.fail_if(
                    name != "len"@ && mutable != Some(true),
                    method.span,
                    "cannot call a `mut self` method through an immutable receiver — declare it with `let mut`"@,
                );
                run_array_method(e, st2, *item, method, args);
            } else {
                run_declared_method(e, st, t, method, gargs, args, id, mutable, local);
            }
        },
        _ => {
            run_declared_method(e, st, t, method, gargs, args, id, mutable, local);
        },
    }
}

pub proof fn run_declared_method(
    e: Env,
    st: St,
    t: Ty,
    method: Ident,
    gargs: Seq<Ty>,
    args: Seq<Expr>,
    id: Option<NodeId>,
    mutable: Option<bool>,
    local: Option<LocalId>,
)
    ensures
        ran(st, declared_method(e, st, t, method, gargs, args, id, mutable, local).0, list_ids(args)),
    decreases exprs_size(args, 0), 3nat,
{
    let base = ty_direct(t);
    match methods_on(e, t, method.name@) {
        None => {
            run_idle_args(e, st, args);
        },
        Some(set) => {
            if let Some(sig) = set.chosen(method_args(base)) {
                let st1 = receiver_checked(
                    call_allowed(st, sig, method.span),
                    t,
                    sig,
                    method.span,
                    mutable,
                    local,
                );
                run_call_args(e, st1, sig, args, method.span, None, receiver_choice(base, set, sig), gargs, id);
            }
        },
    }
}

pub proof fn run_parameter_method(e: Env, st: St, generic: Seq<char>, method: Ident, gargs: Seq<Ty>, args: Seq<Expr>, id: Option<NodeId>)
    ensures
        ran(st, parameter_method(e, st, generic, method, gargs, args, id).0, list_ids(args)),
    decreases exprs_size(args, 0), 3nat,
{
    let name = method.name@;
    let bs = match st.generics.get(generic) {
        Some(bs) => bs,
        None => Seq::empty(),
    };
    if let Some(i) = bound_method_index(e, bs, name, 0) {
        let b = bs[i as int];
        if !(into_string_bound(e, b) && name == "into_string"@) {
            match e.sigs.trait_methods.get((b.trait_id, name)) {
                None => {
                    run_idle_args(e, st, args);
                },
                Some(raw) => {
                    let sig = sig_subst(raw, zip_subst(e.sigs.generics_of_trait(b.trait_id), b.args));
                    run_call_args(
                        e,
                        call_allowed(st, sig, method.span),
                        sig,
                        args,
                        method.span,
                        None,
                        Map::empty(),
                        gargs,
                        id,
                    );
                },
            }
        }
    }
}

pub proof fn run_trait_method(
    e: Env,
    st: St,
    base: Ty,
    trait_id: DefId,
    targs: Seq<Ty>,
    method: Ident,
    gargs: Seq<Ty>,
    args: Seq<Expr>,
    id: Option<NodeId>,
    mutable: Option<bool>,
)
    ensures
        ran(st, trait_method(e, st, base, trait_id, targs, method, gargs, args, id, mutable).0, list_ids(args)),
    decreases exprs_size(args, 0), 3nat,
{
    if let Some(raw) = e.sigs.trait_methods.get((trait_id, method.name@)) {
        let sig = sig_subst(raw, zip_subst(e.sigs.generics_of_trait(trait_id), targs));
        let st1 = receiver_checked(
            call_allowed(st, sig, method.span),
            base,
            sig,
            method.span,
            mutable,
            None,
        );
        run_call_args(e, st1, sig, args, method.span, None, Map::empty(), gargs, id);
    }
}

pub proof fn run_array_method(e: Env, st: St, item: Ty, method: Ident, args: Seq<Expr>)
    ensures
        ran(st, array_method(e, st, item, method, args).0, list_ids(args)),
    decreases exprs_size(args, 0), 3nat,
{
    if method.name@ == "push"@ && method.name@ != "len"@ {
        let st1 = st.fail_if(
            args.len() != 1,
            method.span,
            crate::check::facts::arg_count(1, args.len()),
        );
        if args.len() > 0 {
            run_expr(e, st1, args[0], Some(item));
            if args.len() == 1 {
                assert(exprs_ids(args, 1, 1) == Set::<NodeId>::empty());
            }
        }
    }
}

// ---------------------------------------------------------------------
// Arguments
// ---------------------------------------------------------------------

pub proof fn run_lent_arg(e: Env, st: St, p: PSig, arg: Expr, m: Subst, borrowed: Map<LocalId, bool>)
    requires
        is_ref(normal(e.sigs, subst(p.ty, m))),
    ensures
        ran(st, fixed_arg(e, st, p, arg, m, borrowed).0, expr_ids(arg)),
{
    let want = normal(e.sigs, subst(p.ty, m));
    let st1 = st.fail_if(
        arg.kind is MutArg,
        arg.span,
        "`mut` is not valid for a `:&T`/`:&mut T` argument — the parameter's own type already says whether it borrows mutably"@,
    );
    let st2 = borrow_arg(e, st1, arg, want, borrowed).0;
    if clean(st1, st2) {
        lemma_lent_ids(e, arg);
    }
}

/// After checking whether `mut` stands where it is wanted.
spec fn mut_agreed(e: Env, st: St, p: PSig, arg: Expr) -> St {
    if p.mutable != (arg.kind is MutArg) {
        st.fail(arg.span, mut_disagrees(p.name, p.mutable))
    } else if p.mutable {
        mut_arg_checked(e, st, plain_arg(arg))
    } else {
        st
    }
}

proof fn run_mut_agreed(e: Env, st: St, p: PSig, arg: Expr)
    ensures
        grows(st, mut_agreed(e, st, p, arg)),
{
}

/// After an argument's value.
spec fn arg_read(e: Env, st: St, arg: Expr, want: Ty) -> St {
    let (st1, t) = expr(e, st, plain_arg(arg), Some(want));
    if arg.kind is MutArg {
        st1.typed(arg.id, t)
    } else {
        st1
    }
}

proof fn run_arg_read(e: Env, st: St, arg: Expr, want: Ty)
    ensures
        ran(st, arg_read(e, st, arg, want), expr_ids(arg)),
    decreases expr_size(arg), 10nat,
{
    lemma_plain_arg(arg);
    lemma_expr_ids(arg);
    run_expr(e, st, plain_arg(arg), Some(want));
}

pub proof fn run_given_arg(e: Env, st: St, p: PSig, arg: Expr, m: Subst, borrowed: Map<LocalId, bool>)
    requires
        !is_ref(normal(e.sigs, subst(p.ty, m))),
    ensures
        ran(st, fixed_arg(e, st, p, arg, m, borrowed).0, expr_ids(arg)),
    decreases expr_size(arg), 11nat,
{
    let want = normal(e.sigs, subst(p.ty, m));
    let st1 = mut_agreed(e, st, p, arg);
    let t = expr(e, st1, plain_arg(arg), Some(want)).1;
    let st2 = arg_read(e, st1, arg, want);
    let want1 = normal(e.sigs, subst(p.ty, infer(p.ty, t, m)));
    let wrong = !fits(t, want1);
    let message = mismatch(e, want1, t);
    assert(ran(st, st2.fail_if(wrong, plain_arg(arg).span, message), expr_ids(arg))) by {
        run_mut_agreed(e, st, p, arg);
        run_arg_read(e, st1, arg, want);
        lemma_then_ran(st, st1, st2, expr_ids(arg));
        lemma_ran_then(st, st2, expr_ids(arg), wrong, plain_arg(arg).span, message);
    }
}

pub proof fn run_fixed_arg(e: Env, st: St, p: PSig, arg: Expr, m: Subst, borrowed: Map<LocalId, bool>)
    ensures
        ran(st, fixed_arg(e, st, p, arg, m, borrowed).0, expr_ids(arg)),
    decreases expr_size(arg), 12nat,
{
    if is_ref(normal(e.sigs, subst(p.ty, m))) {
        run_lent_arg(e, st, p, arg, m, borrowed);
    } else {
        run_given_arg(e, st, p, arg, m, borrowed);
    }
}

pub proof fn run_fixed_args(e: Env, st: St, sig: Sig, args: Seq<Expr>, i: int, n: int, m: Subst, borrowed: Map<LocalId, bool>)
    requires
        n <= args.len(),
        n <= sig.params.len(),
    ensures
        ran(st, fixed_args(e, st, sig, args, i, n, m, borrowed).0, exprs_ids(args, i, n)),
    decreases exprs_size(args, i), 1nat,
{
    if 0 <= i < n {
        run_fixed_arg(e, st, sig.params[i], args[i], m, borrowed);
        let (st1, m1, borrowed1) = fixed_arg(e, st, sig.params[i], args[i], m, borrowed);
        run_fixed_args(e, st1, sig, args, i + 1, n, m1, borrowed1);
    }
}

pub proof fn run_variadic_args(e: Env, st: St, item: Ty, args: Seq<Expr>, i: int, m: Subst)
    ensures
        ran(st, variadic_args(e, st, item, args, i, m).0, exprs_ids(args, i, args.len() as int)),
    decreases exprs_size(args, i), 1nat,
{
    if 0 <= i < args.len() {
        let arg = args[i];
        if arg.kind is MutArg {
            let st1 = st.fail(arg.span, "`mut` is not valid for a variadic argument"@);
            run_variadic_args(e, st1, item, args, i + 1, m);
        } else {
            let want = subst(item, m);
            run_expr(e, st, arg, Some(want));
            let (st1, t) = expr(e, st, arg, Some(want));
            if want is String {
                run_variadic_args(e, require_string(e, st1, t, arg.span), item, args, i + 1, m);
            } else {
                let m1 = infer(item, t, m);
                let want1 = subst(item, m1);
                let st2 = st1.fail_if(!fits(t, want1), arg.span, mismatch(e, want1, t));
                run_variadic_args(e, st2, item, args, i + 1, m1);
            }
        }
    }
}

pub proof fn run_call_args(
    e: Env,
    st: St,
    sig: Sig,
    args: Seq<Expr>,
    span: Span,
    expected: Option<Ty>,
    m: Subst,
    gargs: Seq<Ty>,
    id: Option<NodeId>,
)
    ensures
        ran(st, call_args(e, st, sig, args, span, expected, m, gargs, id).0, list_ids(args)),
    decreases exprs_size(args, 0), 2nat,
{
    let st0 = args_counted(st, sig, args.len(), span);
    let (st1, m1) = explicit_chosen(st0, sig, m, gargs, span);
    let m2 = match expected {
        Some(w) => infer(sig.ret, w, m1),
        None => m1,
    };
    let m3 = if variadic(sig) {
        m2.insert("$variadic_len"@, Ty::Const(rest_count(args.len(), fixed_params(sig))))
    } else {
        m2
    };
    let n = smaller(args.len(), fixed_params(sig));
    run_fixed_args(e, st1, sig, args, 0, n as int, m3, Map::empty());
    let (st2, m4) = fixed_args(e, st1, sig, args, 0, n as int, m3, Map::empty());
    lemma_exprs_tail(args, 0, n as int);
    let (st3, m5) = if variadic(sig) {
        variadic_args(e, st2, sig.params[sig.params.len() - 1].ty, args, n as int, m4)
    } else {
        (st2, m4)
    };
    if variadic(sig) {
        run_variadic_args(e, st2, sig.params[sig.params.len() - 1].ty, args, n as int, m4);
    }
    assert(grows(st, st3));
    if clean(st, st3) {
        if variadic(sig) {
            lemma_ids_split(st3.expr_types, args, 0, n as int, args.len() as int);
        }
        assert(has_all(st3.expr_types, list_ids(args)));
    }
}

// ---------------------------------------------------------------------
// Struct literals
// ---------------------------------------------------------------------

pub proof fn run_literal_fields(e: Env, st: St, def: DefId, declared: Seq<(Seq<char>, Ty)>, fields: Seq<FieldInit>, i: int, m: Subst)
    ensures
        ran(st, literal_fields(e, st, def, declared, fields, i, m).0, fields_ids(fields, i)),
    decreases fields_size(fields, i), 1nat,
{
    if 0 <= i < fields.len() {
        let name = fields[i].name.name@;
        let span = fields[i].name.span;
        let value = fields[i].value;
        match field_named(declared, name, 0) {
            Some(ty) => {
                let st0 = st.fail_if(
                    private_field(e, def, name, span),
                    span,
                    "field `"@ + name + "` is private"@,
                );
                run_expr(e, st0, value, Some(subst(ty, m)));
                let (st1, t) = expr(e, st0, value, Some(subst(ty, m)));
                let m1 = infer(ty, t, m);
                let want = subst(ty, m1);
                let st2 = st1.fail_if(
                    !fits(t, want),
                    value.span,
                    mismatch(e, want, t) + " for field `"@ + name + "`"@,
                );
                run_literal_fields(e, st2, def, declared, fields, i + 1, m1);
            },
            None => {
                let st0 = st.fail(span, "`"@ + e.sc.name(def) + "` has no field named `"@ + name + "`"@);
                run_expr(e, st0, value, None);
                run_literal_fields(e, expr(e, st0, value, None).0, def, declared, fields, i + 1, m);
            },
        }
    }
}

pub proof fn run_free_fields(e: Env, st: St, fields: Seq<FieldInit>, i: int)
    ensures
        ran(st, free_fields(e, st, fields, i), fields_ids(fields, i)),
    decreases fields_size(fields, i), 1nat,
{
    if 0 <= i < fields.len() {
        run_expr(e, st, fields[i].value, None);
        run_free_fields(e, expr(e, st, fields[i].value, None).0, fields, i + 1);
    }
}

pub proof fn run_struct_literal(e: Env, st: St, path: Path, fields: Seq<FieldInit>, owned: bool, expected: Option<Ty>)
    ensures
        ran(st, struct_literal(e, st, path, fields, owned, expected).0, fields_ids(fields, 0)),
    decreases fields_size(fields, 0), 3nat,
{
    run_free_fields(e, st, fields, 0);
    assert(ran(st, idle_fields(e, st, fields), fields_ids(fields, 0)));
    if let Some(res) = e.sc.names.path(path.id) {
        if let Resolution::Def(def) = res.base {
            if let Some(Shape::Struct(declared)) = e.sigs.type_shapes.get(def) {
                let names = e.sigs.generics_of(def);
                let m = match crate::check::model::inner_expected(owned, expected) {
                    Some(Ty::Struct(i, targs)) => crate::check::model::expected_args(
                        def,
                        names,
                        Some(Ty::Struct(i, targs)),
                    ),
                    _ => Map::empty(),
                };
                run_literal_fields(e, st, def, declared, fields, 0, m);
            }
        }
    }
}

// ---------------------------------------------------------------------
// Control flow
// ---------------------------------------------------------------------

pub proof fn run_condition(e: Env, st: St, cond: Expr, then_branch: Block, expected: Option<Ty>)
    ensures
        ({
            let (st1, c) = expr(e, st, cond, None);
            let st2 = require_bool(st1, c, cond.span, "`if` condition"@);
            ran(st, block(e, st2, then_branch, expected).0, expr_ids(cond).union(block_ids(then_branch)))
        }),
    decreases expr_size(cond) + block_size(then_branch), 9nat,
{
    run_expr(e, st, cond, None);
    let (st1, c) = expr(e, st, cond, None);
    let st2 = require_bool(st1, c, cond.span, "`if` condition"@);
    run_block(e, st2, then_branch, expected);
    let st3 = block(e, st2, then_branch, expected).0;
    lemma_ran_on(st, st2, st3, expr_ids(cond), block_ids(then_branch));
}

pub proof fn run_conditional(e: Env, st: St, cond: Expr, then_branch: Block, else_branch: Option<Box<Expr>>, expected: Option<Ty>)
    ensures
        ran(
            st,
            conditional(e, st, cond, then_branch, else_branch, expected).0,
            expr_ids(cond).union(block_ids(then_branch)).union(opt_ids(else_branch)),
        ),
    decreases expr_size(cond) + block_size(then_branch) + opt_size(else_branch), 10nat,
{
    run_condition(e, st, cond, then_branch, expected);
    let ids = expr_ids(cond).union(block_ids(then_branch));
    let (st1, c) = expr(e, st, cond, None);
    let st2 = require_bool(st1, c, cond.span, "`if` condition"@);
    let (st3, a) = block(e, st2, then_branch, expected);
    let st4 = St { moved: st2.moved, ..st3 };
    assert(ran(st, st4, ids));
    if let Some(other) = else_branch {
        let want = match expected {
            Some(w) => Some(w),
            None => Some(a),
        };
        run_expr(e, st4, *other, want);
        let (st5, b) = expr(e, st4, *other, want);
        lemma_ran_on(st, st4, st5, ids, expr_ids(*other));
        let st6 = (St { moved: st2.moved, ..st5 }).merged(a is Never, st3.moved).merged(b is Never, st5.moved);
        assert(ran(st, st6, ids.union(expr_ids(*other))));
    }
}

pub proof fn run_arm(e: Env, a: ArmSt, arm: MatchArm, t: Ty, want: Option<Ty>)
    ensures
        ran(
            a.ps.st,
            expr(e, pattern(e, a.ps, arm.pattern, t, true).st, arm.body, want).0,
            expr_ids(arm.body),
        ),
    decreases expr_size(arm.body), 10nat,
{
    let ps = pattern(e, a.ps, arm.pattern, t, true);
    run_expr(e, ps.st, arm.body, want);
}

pub proof fn run_match_arms(e: Env, a: ArmSt, arms: Seq<MatchArm>, i: int, t: Ty, expected: Option<Ty>)
    ensures
        ran(a.ps.st, match_arms(e, a, arms, i, t, expected).ps.st, arms_ids(arms, i)),
    decreases arms_size(arms, i), 1nat,
{
    if 0 <= i < arms.len() {
        let before = a.ps.st.moved;
        let ps = pattern(e, a.ps, arms[i].pattern, t, true);
        let want = match expected {
            Some(w) => Some(w),
            None => a.result,
        };
        run_arm(e, a, arms[i], t, want);
        let (st1, b) = expr(e, ps.st, arms[i].body, want);
        let st2 = St { moved: before, ..st1 };
        let moves = a.moves.push((b is Never, st1.moved));
        let (st3, result) = match a.result {
            None => (st2, b),
            Some(prior) => (
                st2.fail_if(
                    !fits(prior, b),
                    arms[i].body.span,
                    "`match` arms have incompatible types: `"@ + shown(prior, e.sc.defs()) + "` vs `"@ + shown(
                        b,
                        e.sc.defs(),
                    ) + "`"@,
                ),
                branch_type(prior, b),
            ),
        };
        assert(ran(a.ps.st, st3, expr_ids(arms[i].body)));
        let next = ArmSt { ps: PatSt { st: st3, ..ps }, result: Some(result), moves };
        run_match_arms(e, next, arms, i + 1, t, expected);
        let st4 = match_arms(e, next, arms, i + 1, t, expected).ps.st;
        lemma_ran_on(a.ps.st, st3, st4, expr_ids(arms[i].body), arms_ids(arms, i + 1));
    }
}

pub proof fn run_matching(e: Env, st: St, scrutinee: Expr, arms: Seq<MatchArm>, span: Span, expected: Option<Ty>)
    ensures
        ran(
            st,
            matching(e, st, scrutinee, arms, span, expected).0,
            expr_ids(scrutinee).union(arms_ids(arms, 0)),
        ),
    decreases expr_size(scrutinee) + arms_size(arms, 0), 10nat,
{
    run_expr(e, st, scrutinee, None);
    let (st1, t) = expr(e, st, scrutinee, None);
    run_match_arms(
        e,
        ArmSt {
            ps: PatSt { st: st1, covered: Seq::empty(), catch_all: false },
            result: None,
            moves: Seq::empty(),
        },
        arms,
        0,
        t,
        expected,
    );
}

pub proof fn run_loop_body(e: Env, st: St, body: Block)
    ensures
        ran(st, loop_body(e, st, body), block_ids(body)),
    decreases block_size(body), 1nat,
{
    let st0 = St { in_loop: true, silent: true, ..st };
    run_block(e, st0, body, None);
    let st1 = block(e, st0, body, None).0;
    run_block(
        e,
        St { silent: st.silent, moved: st1.moved.union_prefer_right(st.moved), ..st1 },
        body,
        None,
    );
}

pub proof fn run_for_in(e: Env, st: St, p: Pattern, iter: Expr, body: Block)
    ensures
        ran(st, for_in(e, st, p, iter, body).0, expr_ids(iter).union(block_ids(body))),
    decreases expr_size(iter) + block_size(body), 10nat,
{
    run_expr(e, st, iter, None);
    let (st1, t) = expr(e, st, iter, None);
    let (st2, item) = match t {
        Ty::Array(inner) => (st1, *inner),
        Ty::Error => (st1, Ty::Error),
        _ => (
            st1.fail(
                iter.span,
                "`for`-`in` requires an `Array`, found `"@ + shown(t, e.sc.defs()) + "`"@,
            ),
            Ty::Error,
        ),
    };
    let st3 = pattern(e, PatSt { st: st2, covered: Seq::empty(), catch_all: false }, p, item, true).st;
    run_loop_body(e, st3, body);
}

pub proof fn run_returning(e: Env, st: St, value: Option<Box<Expr>>, span: Span)
    ensures
        ran(st, returning(e, st, value, span).0, opt_ids(value)),
    decreases opt_size(value), 10nat,
{
    if let Some(x) = value {
        run_expr(e, st, *x, Some(st.return_ty));
    }
}

pub proof fn run_closure(e: Env, st: St, id: NodeId, mut_capture: bool, params: Seq<Param>, body: Expr, expected: Option<Ty>)
    ensures
        ran(st, closure(e, st, id, mut_capture, params, body, expected).0, expr_ids(body)),
    decreases expr_size(body), 10nat,
{
    let (st1, ts) = closure_params(e, st, params, 0, Seq::empty());
    let st2 = closure_bound(e, captures_recorded(e, st1, id, mut_capture, body), params, ts, 0);
    run_expr(e, St { in_loop: false, ..st2 }, body, closure_expected(expected, ts));
}

// ---------------------------------------------------------------------
// Blocks
// ---------------------------------------------------------------------

pub proof fn run_stored_borrow(e: Env, st: St, value: Expr, declared: Ty)
    ensures
        grows(st, stored_borrow(e, st, value, declared).0),
        stored_borrow(e, st, value, declared).1 is Some ==> ran(
            st,
            stored_borrow(e, st, value, declared).0,
            expr_ids(value),
        ),
    decreases expr_size(value), 10nat,
{
    if is_ref(declared) {
        run_expr(e, st, value, Some(declared));
        if bare_local(e.sc.names, value) is Some {
            lemma_lent_ids(e, value);
        }
    }
}

pub proof fn run_value(e: Env, st: St, value: Expr, declared: Option<Ty>)
    ensures
        ({
            let (st2, stored) = match declared {
                Some(d) => stored_borrow(e, st, value, d),
                None => (st, None),
            };
            ran(
                st,
                match stored {
                    Some(_) => st2,
                    None => expr(e, st2, value, declared).0,
                },
                expr_ids(value),
            )
        }),
    decreases expr_size(value), 11nat,
{
    if let Some(d) = declared {
        run_stored_borrow(e, st, value, d);
    }
    let (st2, stored) = match declared {
        Some(d) => stored_borrow(e, st, value, d),
        None => (st, None),
    };
    if stored is None {
        run_expr(e, st2, value, declared);
    }
}

pub proof fn run_stmt(e: Env, st: St, s: Stmt)
    ensures
        ran(st, stmt(e, st, s).0, stmt_ids(s)),
    decreases stmt_size(s), 0nat,
{
    match s {
        Stmt::Let(l) => {
            let (declared, st1) = match l.ty {
                Some(syntax) => {
                    let (t, st1) = st.lowered(e.sc, syntax);
                    (Some(normal(e.sigs, t)), st1)
                },
                None => (None, st),
            };
            assert(grows(st, st1));
            run_value(e, st1, l.value, declared);
        },
        Stmt::Expr(x) => {
            run_expr(e, st, x, None);
        },
    }
}

pub proof fn run_stmts(e: Env, st: St, s: Seq<Stmt>, i: int, diverges: bool)
    ensures
        ran(st, stmts(e, st, s, i, diverges).0, stmts_ids(s, i)),
    decreases stmts_size(s, i), 1nat,
{
    if 0 <= i < s.len() {
        run_stmt(e, st, s[i]);
        let (st1, t) = stmt(e, st, s[i]);
        run_stmts(e, st1, s, i + 1, diverges || t is Never);
    }
}

pub proof fn run_block(e: Env, st: St, b: Block, expected: Option<Ty>)
    ensures
        ran(st, block(e, st, b, expected).0, block_ids(b)),
    decreases block_size(b), 0nat,
{
    run_stmts(e, st.opened(), b.stmts@, 0, false);
    let (st1, diverges) = stmts(e, st.opened(), b.stmts@, 0, false);
    if let Some(tail) = b.tail {
        run_expr(e, st1, *tail, expected);
    }
}

/// Checking a function's outermost block loses nothing and, without errors,
/// records the types of all expressions in it.
pub proof fn run_fn_body(e: Env, st: St, b: Block)
    ensures
        ran(st, fn_body(e, st, b).0, block_ids(b)),
{
    run_stmts(e, st, b.stmts@, 0, false);
    let (st1, d1) = stmts(e, st, b.stmts@, 0, false);
    if let Some(tail) = b.tail {
        run_expr(e, st1, *tail, None);
    }
}

} // verus!
