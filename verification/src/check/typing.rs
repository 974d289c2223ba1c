//! What an expression that is checked without an error is made of.
use crate::ast::{BinaryOp, Block, Expr, ExprKind, FieldAccessor, UnaryOp};
use crate::check::facts::{has_local_root, index_read, require_bool};
use crate::check::growth::{group_grows, group_steps, lemma_one_error};
use crate::check::model::{assign, assign_target, block, conditional, expr, returning, synth};
use crate::check::record::{run_block, run_expr};
use crate::check::rules::{binary, deref_allowed, element, pointee, unary, writable_pointee};
use crate::check::state::{Env, St};
use crate::ids::Span;
use crate::rules::{derivable, marked, Derived};
use crate::ty::{fits, has_error, PrimitiveKind, Ty};
use vstd::prelude::*;

verus! {

broadcast use {group_grows, group_steps, lemma_one_error};

/// Whether no error was added.
pub open spec fn no_error(before: St, after: St) -> bool {
    after.diags.len() == before.diags.len()
}

/// Whether a type is a number's: any primitive type but `bool` and `char`.
pub open spec fn is_number(t: Ty) -> bool {
    t matches Ty::Primitive(p) && !(p is Bool) && !(p is Char)
}

/// Whether a type is an integer's: a number's, but not a float's.
pub open spec fn is_whole(t: Ty) -> bool {
    t matches Ty::Primitive(p) && !(p is Bool) && !(p is Char) && !(p is F32) && !(p is F64)
}

/// Whether a type is `bool`.
pub open spec fn is_bool(t: Ty) -> bool {
    t == Ty::Primitive(PrimitiveKind::Bool)
}

/// Whether a type is `()`.
pub open spec fn is_unit(t: Ty) -> bool {
    t matches Ty::Tuple(items) && items.len() == 0
}

// ---------------------------------------------------------------------
// Operators
// ---------------------------------------------------------------------

/// A binary operator adds no error to those of its operands exactly if the
/// operands have types that go together: numbers of one type for arithmetic and
/// for comparisons by order, one type that can be compared for `==` and `!=`,
/// and `bool`s for `&&` and `||`. The result of arithmetic has the type of its
/// operands, that of anything else is `bool`. (What was already reported goes
/// with anything.)
pub proof fn law_operands_go_together(
    e: Env,
    st: St,
    x: Expr,
    op: BinaryOp,
    lhs: Box<Expr>,
    rhs: Box<Expr>,
    expected: Option<Ty>,
)
    requires
        !st.silent,
        x.kind == (ExprKind::Binary { op, lhs, rhs }),
    ensures
        ({
            let (st1, a) = expr(e, st, *lhs, None);
            let (st2, b) = expr(e, st1, *rhs, Some(a));
            let (after, t) = synth(e, st, x, expected);
            match op {
                BinaryOp::Add | BinaryOp::Sub | BinaryOp::Mul | BinaryOp::Div | BinaryOp::Rem => {
                    &&& no_error(st2, after) <==> (is_number(a) || a is Error) && fits(a, b)
                    &&& no_error(st2, after) ==> t == a
                    &&& !no_error(st2, after) ==> t is Error
                },
                BinaryOp::Eq | BinaryOp::Ne => {
                    &&& no_error(st2, after) <==> fits(a, b) && (marked(
                        e.sigs,
                        e.sc.defs(),
                        (match a {
                            Ty::Unique(inner) => *inner,
                            _ => a,
                        }),
                        "Eq"@,
                    ) ==> derivable(e.sigs, e.sc.defs(), Derived::Eq, a))
                    &&& is_bool(t)
                },
                BinaryOp::Lt | BinaryOp::Le | BinaryOp::Gt | BinaryOp::Ge => {
                    &&& no_error(st2, after) <==> (is_number(a) || a is Error) && fits(a, b)
                    &&& is_bool(t)
                },
                BinaryOp::And | BinaryOp::Or => {
                    &&& no_error(st2, after) <==> (is_bool(a) || a is Error) && (is_bool(b) || b is Error)
                    &&& is_bool(t)
                },
            }
        }),
{
    run_expr(e, st, *lhs, None);
    let (st1, a) = expr(e, st, *lhs, None);
    run_expr(e, st1, *rhs, Some(a));
    reveal(binary);
    reveal(require_bool);
}

/// `-` is for numbers and keeps their type; `!` is for `bool`s and gives one.
pub proof fn law_operand_of_unary(e: Env, st: St, x: Expr, op: UnaryOp, a: Box<Expr>, expected: Option<Ty>)
    requires
        !st.silent,
        x.kind == (ExprKind::Unary { op, expr: a }),
    ensures
        ({
            let (st1, t) = expr(e, st, *a, None);
            let (after, r) = synth(e, st, x, expected);
            match op {
                UnaryOp::Neg => {
                    &&& no_error(st1, after) <==> is_number(t) || t is Error
                    &&& no_error(st1, after) ==> r == t
                },
                UnaryOp::Not => {
                    &&& no_error(st1, after) <==> is_bool(t) || t is Error
                    &&& is_bool(r)
                },
            }
        }),
{
    run_expr(e, st, *a, None);
    reveal(unary);
    reveal(require_bool);
}

// ---------------------------------------------------------------------
// Single operands
// ---------------------------------------------------------------------

/// Only a task can be awaited, and only inside an `async fn`; the result is
/// what the task yields.
pub proof fn law_awaited_values_are_tasks(e: Env, st: St, x: Expr, a: Box<Expr>, expected: Option<Ty>)
    requires
        !st.silent,
        x.kind == ExprKind::Await(a),
        synth(e, st, x, expected).0.diags.len() == st.diags.len(),
    ensures
        st.in_async,
        expr(e, st, *a, None).1 is Task || expr(e, st, *a, None).1 is Error,
        expr(e, st, *a, None).1 matches Ty::Task(output) ==> synth(e, st, x, expected).1 == *output,
        expr(e, st, *a, None).1 is Error ==> synth(e, st, x, expected).1 is Error,
{
    let st0 = st.fail_if(!st.in_async, x.span, "`await` is only allowed inside an `async fn`"@);
    run_expr(e, st0, *a, None);
}

/// An error is reported wherever `await` stands outside an `async fn`.
pub proof fn law_await_needs_async(e: Env, st: St, x: Expr, a: Box<Expr>, expected: Option<Ty>)
    requires
        !st.silent,
        !st.in_async,
        x.kind == ExprKind::Await(a),
    ensures
        synth(e, st, x, expected).0.diags.len() > st.diags.len(),
{
    let st0 = st.fail_if(!st.in_async, x.span, "`await` is only allowed inside an `async fn`"@);
    run_expr(e, st0, *a, None);
}

/// A raw borrow is of a place, and is a pointer to what the place holds, a
/// `*mut` one if it says so.
pub proof fn law_raw_borrows_are_of_places(
    e: Env,
    st: St,
    x: Expr,
    mutable: bool,
    place: Box<Expr>,
    expected: Option<Ty>,
)
    requires
        !st.silent,
        x.kind == (ExprKind::RawBorrow { mutable, place }),
        synth(e, st, x, expected).0.diags.len() == st.diags.len(),
    ensures
        has_local_root(e.sc.names, *place),
        synth(e, st, x, expected).1 == (if mutable {
            Ty::RawMutPtr(Box::new(expr(e, st, *place, None).1))
        } else {
            Ty::RawConstPtr(Box::new(expr(e, st, *place, None).1))
        }),
{
    let st0 = st.fail_if(
        !has_local_root(e.sc.names, *place),
        place.span,
        "`&raw const`/`&raw mut` requires a place expression — a local binding or one of its fields/elements/dereferences"@,
    );
    run_expr(e, st0, *place, None);
}

/// Reading through a raw pointer needs a pointer and unsafe code; the result
/// is what the pointer points to.
pub proof fn law_dereferenced_values_are_pointers(e: Env, st: St, x: Expr, a: Box<Expr>, expected: Option<Ty>)
    requires
        !st.silent,
        x.kind == ExprKind::RawDeref(a),
        synth(e, st, x, expected).0.diags.len() == st.diags.len(),
    ensures
        st.in_unsafe,
        match expr(e, st, *a, None).1 {
            Ty::RawConstPtr(inner) => synth(e, st, x, expected).1 == *inner,
            Ty::RawMutPtr(inner) => synth(e, st, x, expected).1 == *inner,
            Ty::Error => synth(e, st, x, expected).1 is Error,
            _ => false,
        },
{
    reveal(deref_allowed);
    reveal(pointee);
    let st0 = deref_allowed(st, x.span);
    run_expr(e, st0, *a, None);
}

/// Arrays are indexed by integers, and an element has the array's element
/// type.
pub proof fn law_indexed_values_are_arrays(
    e: Env,
    st: St,
    x: Expr,
    base: Box<Expr>,
    index: Box<Expr>,
    expected: Option<Ty>,
)
    requires
        !st.silent,
        x.kind == (ExprKind::Index { base, index }),
    ensures
        ({
            let (st1, a) = expr(e, st, *base, None);
            let (st2, i) = expr(e, st1, *index, None);
            let (after, t) = synth(e, st, x, expected);
            &&& no_error(st2, after) <==> (a is Array || a is Error) && (is_whole(i) || i is Error)
            &&& a matches Ty::Array(inner) ==> t == *inner
            &&& !(a is Array) ==> t is Error
        }),
{
    run_expr(e, st, *base, None);
    let (st1, a) = expr(e, st, *base, None);
    run_expr(e, st1, *index, None);
    reveal(element);
}

/// A position of a tuple has the type that stands there, and there is none
/// beyond its last.
pub proof fn law_tuple_positions(
    e: Env,
    st: St,
    x: Expr,
    base: Box<Expr>,
    idx: u32,
    span: Span,
    expected: Option<Ty>,
    items: Seq<Ty>,
)
    requires
        !st.silent,
        x.kind == (ExprKind::Field { base, field: FieldAccessor::Index(idx, span) }),
        expr(e, st, *base, None).1 == Ty::Tuple(items),
    ensures
        no_error(expr(e, st, *base, None).0, synth(e, st, x, expected).0) <==> idx < items.len(),
        idx < items.len() ==> synth(e, st, x, expected).1 == items[idx as int],
{
    run_expr(e, st, *base, None);
    reveal(index_read);
}

// ---------------------------------------------------------------------
// Control flow
// ---------------------------------------------------------------------

/// A condition is a `bool`, the branches of an `if` with `else` have types that
/// go together, and the whole has the type of a branch that yields a value.
pub proof fn law_branches_go_together(
    e: Env,
    st: St,
    cond: Expr,
    then_branch: Block,
    other: Box<Expr>,
    expected: Option<Ty>,
)
    requires
        !st.silent,
        conditional(e, st, cond, then_branch, Some(other), expected).0.diags.len() == st.diags.len(),
    ensures
        ({
            let (st1, c) = expr(e, st, cond, None);
            let (st2, a) = block(e, st1, then_branch, expected);
            let (st3, b) = expr(
                e,
                St { moved: st1.moved, ..st2 },
                *other,
                if expected is Some {
                    expected
                } else {
                    Some(a)
                },
            );
            let t = conditional(e, st, cond, then_branch, Some(other), expected).1;
            &&& is_bool(c) || c is Error
            &&& fits(a, b)
            &&& t == a || t == b
            &&& a is Never ==> t == b
            &&& has_error(t) ==> has_error(b) || a is Never
        }),
{
    run_expr(e, st, cond, None);
    let (st1, c) = expr(e, st, cond, None);
    let st2 = require_bool(st1, c, cond.span, "`if` condition"@);
    run_block(e, st2, then_branch, expected);
    let (st3, a) = block(e, st2, then_branch, expected);
    let st4 = St { moved: st2.moved, ..st3 };
    let want = match expected {
        Some(w) => Some(w),
        None => Some(a),
    };
    run_expr(e, st4, *other, want);
    reveal(require_bool);
}

/// Without `else` the condition is a `bool` too.
pub proof fn law_condition_is_bool(
    e: Env,
    st: St,
    cond: Expr,
    then_branch: Block,
    other: Option<Box<Expr>>,
    expected: Option<Ty>,
)
    requires
        !st.silent,
    ensures
        ({
            let c = expr(e, st, cond, None).1;
            !(is_bool(c) || c is Error) ==> conditional(e, st, cond, then_branch, other, expected).0.diags.len()
                > st.diags.len()
        }),
{
    run_expr(e, st, cond, None);
    let (st1, c) = expr(e, st, cond, None);
    let st2 = require_bool(st1, c, cond.span, "`if` condition"@);
    run_block(e, st2, then_branch, expected);
    let (st3, a) = block(e, st2, then_branch, expected);
    let st4 = St { moved: st2.moved, ..st3 };
    if let Some(o) = other {
        let want = match expected {
            Some(w) => Some(w),
            None => Some(a),
        };
        run_expr(e, st4, *o, want);
    }
    reveal(require_bool);
}

/// `break` and `continue` stand inside a loop.
pub proof fn law_loops_are_left_from_inside(e: Env, st: St, x: Expr, expected: Option<Ty>)
    requires
        !st.silent,
        x.kind is Break || x.kind is Continue,
        !st.in_loop,
    ensures
        synth(e, st, x, expected).0.diags.len() > st.diags.len(),
{
    let st1 = st.fail_if(!st.in_loop, x.span, "`break` is only valid inside a loop"@);
    if let ExprKind::Break(Some(a)) = x.kind {
        run_expr(e, st1, *a, None);
    }
}

/// Inside a loop they are no error of their own.
pub proof fn law_loops_can_be_left(e: Env, st: St, x: Expr, expected: Option<Ty>)
    requires
        st.in_loop,
        x.kind is Continue || x.kind == ExprKind::Break(None),
    ensures
        synth(e, st, x, expected) == (st, Ty::Never),
{
}

/// A returned value fits the return type, and only a function that returns `()`
/// returns without one.
pub proof fn law_returns_fit(e: Env, st: St, value: Option<Box<Expr>>, span: Span)
    requires
        !st.silent,
        returning(e, st, value, span).0.diags.len() == st.diags.len(),
    ensures
        value matches Some(x) ==> fits(expr(e, st, *x, Some(st.return_ty)).1, st.return_ty),
        value is None ==> exists|t: Ty| is_unit(t) && fits(t, st.return_ty),
{
    if let Some(x) = value {
        run_expr(e, st, *x, Some(st.return_ty));
    } else {
        assert(is_unit(crate::ty::ty_unit()));
    }
}

// ---------------------------------------------------------------------
// Assignment
// ---------------------------------------------------------------------

/// An assignment that adds no error stores a value that fits the place, and the
/// place belongs to a local.
pub proof fn law_assigned_values_fit(e: Env, st: St, target: Expr, value: Expr)
    requires
        !st.silent,
        assign(e, st, target, value).0.diags.len() == st.diags.len(),
    ensures
        !(target.kind is RawDeref) ==> has_local_root(e.sc.names, target) && ({
            let (st1, t) = assign_target(e, st, target);
            let v = expr(e, st1.typed(target.id, t), value, Some(t)).1;
            fits(v, t)
        }),
        target.kind matches ExprKind::RawDeref(pointer) ==> st.in_unsafe && ({
            let (st1, p) = expr(e, st, *pointer, None);
            match p {
                Ty::RawMutPtr(inner) => fits(expr(e, st1.typed(target.id, *inner), value, Some(*inner)).1, *inner),
                Ty::Error => true,
                _ => false,
            }
        }),
{
    reveal(deref_allowed);
    reveal(writable_pointee);
    match target.kind {
        ExprKind::RawDeref(pointer) => {
            let st0 = deref_allowed(st, target.span);
            run_expr(e, st0, *pointer, None);
            let (st1, t) = expr(e, st0, *pointer, None);
            let (st2, p) = writable_pointee(e, st1, t, target.span, pointer.span);
            run_expr(e, st2.typed(target.id, p), value, Some(p));
        },
        _ => {
            let st1 = st.fail_if(
                !has_local_root(e.sc.names, target),
                target.span,
                "assignment target must be a local binding or one of its fields/elements"@,
            );
            crate::check::record::run_assign_target(e, st1, target);
            let (st2, t) = assign_target(e, st1, target);
            run_expr(e, st2.typed(target.id, t), value, Some(t));
        },
    }
}

} // verus!
