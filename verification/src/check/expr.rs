//! Checking of expressions.
use crate::ast::{
    arms_size, block_size, expr_size, exprs_size, lemma_exprs_size, opt_size, parts_size, stmt_size, stmts_size,
    Block, Expr, ExprKind, FieldAccessor, MatchArm, Param, Path, Pattern, Stmt, TemplatePart, TypeExpr,
};
use crate::check::borrows::counted;
use crate::check::facts::{assign_target_has_local_root, bare_local_of, type_of_literal};
use crate::check::model::{
    array, array_items, array_rest, assign, assign_path, assign_target, bare_name, captures_recorded,
    captures_sendable, closure, conditional, expr, fixed_array, for_in, loop_body, match_arms, matching, named_call,
    returning, second_span, stmt, stmts, stored_borrow, synth, task_spawn, template, thread_spawn, timer_args,
    timer_sleep, tuple_items, ArmSt, block, fn_body,
};
use crate::check::patterns::{pat_st, Coverage};
use crate::check::state::{Checker, Cx};
use crate::check::steps::{expected_of_closure, join_branches, StoredBorrow};
use crate::datum::{lemma_deep_len, put, Datum, Dup};
use crate::declarations::is_integer_type;
use crate::ids::{LocalId, NodeId, Span};
use crate::names::Resolution;
use crate::send_sync::is_send;
use crate::table::Table;
use crate::text::{cat2, cat3, cat4, cat5, count, number};
use crate::ty::{group_tys, no_types, str_eq, tys, Ty, Type};
use vstd::prelude::*;

verus! {

broadcast use group_tys, lemma_deep_len;

/// The items that are expected of a tuple of this length.
fn expected_items<'b>(expected: Option<&'b Type>, n: usize) -> (r: Option<&'b Vec<Type>>)
    ensures
        r.deep_view() == (match expected.deep_view() {
            Some(Ty::Tuple(ts)) => if ts.len() == n {
                Some(ts)
            } else {
                None::<Seq<Ty>>
            },
            _ => None::<Seq<Ty>>,
        }),
{
    match expected {
        Some(Type::Tuple(ts)) => {
            assert(ts.deep_view().len() == ts.len());
            if ts.len() == n {
                Some(ts)
            } else {
                None
            }
        },
        _ => None,
    }
}

/// Whether an expression is the path `a.b`.
fn is_named_call(callee: &Expr, a: &str, b: &str) -> (r: bool)
    ensures
        r == named_call(*callee, a@, b@),
{
    match &callee.kind {
        ExprKind::Path(path) => path.segments.len() == 2 && str_eq(path.segments[0].name.as_str(), a) && str_eq(
            path.segments[1].name.as_str(),
            b,
        ),
        _ => false,
    }
}

/// Whether an expression is the path `a`.
fn is_bare_name(x: &Expr, a: &str) -> (r: bool)
    ensures
        r == bare_name(*x, a@),
{
    match &x.kind {
        ExprKind::Path(path) => path.segments.len() == 1 && str_eq(path.segments[0].name.as_str(), a),
        _ => false,
    }
}

fn second_segment_span(x: &Expr) -> (r: Span)
    ensures
        r == second_span(*x),
{
    match &x.kind {
        ExprKind::Path(path) => if path.segments.len() > 1 {
            path.segments[1].span
        } else {
            path.span
        },
        _ => x.span,
    }
}

impl Checker {
    /// Checks an expression of which nothing is expected.
    pub fn check_expr(&mut self, cx: &Cx<'_>, x: &Expr) -> (r: Type)
        ensures
            (final(self)@, r@) == expr(cx@, old(self)@, *x, None),
        decreases expr_size(*x), 10nat,
    {
        self.check_expr_with_expected(cx, x, None)
    }

    /// Checks an expression against what is expected of it.
    pub fn check_expr_with_expected(&mut self, cx: &Cx<'_>, x: &Expr, expected: Option<&Type>) -> (r: Type)
        ensures
            (final(self)@, r@) == expr(cx@, old(self)@, *x, expected.deep_view()),
        decreases expr_size(*x), 9nat,
    {
        let t = self.synth_expr(cx, x, expected);
        self.settle(cx, x.id, x.span, t, expected)
    }

    fn synth_expr(&mut self, cx: &Cx<'_>, x: &Expr, expected: Option<&Type>) -> (r: Type)
        ensures
            (final(self)@, r@) == synth(cx@, old(self)@, *x, expected.deep_view()),
        decreases expr_size(*x), 8nat,
    {
        match &x.kind {
            ExprKind::Literal(l) => type_of_literal(*l, expected),
            ExprKind::Path(path) => self.check_value_path(cx, path, None, expected, None, &no_types()),
            ExprKind::Tuple(xs) => {
                let want = expected_items(expected, xs.len());
                let ts = self.check_tuple_items(cx, xs, want);
                Type::Tuple(ts)
            },
            ExprKind::Array(xs) => self.check_array(cx, xs, expected, x.span),
            ExprKind::FixedArray(xs) => self.check_fixed_array(cx, xs, expected, x.span),
            ExprKind::Await(a) => self.check_await(cx, x, a),
            ExprKind::StringTemplate(parts) => {
                self.check_template(cx, parts);
                Type::String
            },
            ExprKind::RawBorrow { mutable, place } => {
                if !assign_target_has_local_root(cx.scope.names, place) {
                    self.err(
                        place.span,
                        "`&raw const`/`&raw mut` requires a place expression — a local binding or one of its fields/elements/dereferences",
                    );
                }
                let t = self.check_expr_with_expected(cx, place, None);
                Type::raw_pointer(t, *mutable)
            },
            ExprKind::RawDeref(a) => {
                self.check_deref_allowed(x.span);
                let t = self.check_expr_with_expected(cx, a, None);
                self.read_pointee(cx, &t, a.span)
            },
            ExprKind::Unary { op, expr: a } => {
                let t = self.check_expr_with_expected(cx, a, None);
                self.apply_unary(*op, t, a.span)
            },
            ExprKind::Binary { op, lhs, rhs } => {
                let a = self.check_expr_with_expected(cx, lhs, None);
                let b = self.check_expr_with_expected(cx, rhs, Some(&a));
                self.apply_binary(cx, *op, a, lhs.span, &b, rhs.span)
            },
            ExprKind::Assign { target, value } => self.check_assign(cx, target, value),
            ExprKind::Call { callee, generic_args, args } => self.check_call_expr(
                cx,
                x,
                callee,
                generic_args,
                args,
                expected,
            ),
            ExprKind::MutArg(a) => self.check_expr_with_expected(cx, a, None),
            ExprKind::MethodCall { receiver, method, generic_args, args } => {
                if is_bare_name(receiver, "timer") && str_eq(method.name.as_str(), "sleep") {
                    let t = self.check_timer_sleep(cx, generic_args, method.span, args, x.span);
                    self.set_type(receiver.id, t.clone());
                    return t;
                }
                let gargs = self.lower_call_generic_args(cx, generic_args);
                let t = self.check_expr_with_expected(cx, receiver, None);
                let mutable = self.place_root_mutable(cx.scope.names, receiver);
                let local = bare_local_of(cx.scope.names, receiver);
                self.check_method_call_on(cx, &t, method, &gargs, args, Some(x.id), mutable, local)
            },
            ExprKind::Field { base, field } => {
                let t = self.check_expr_with_expected(cx, base, None);
                match field {
                    FieldAccessor::Named(ident) => self.check_field_access_named(cx, &t, ident),
                    FieldAccessor::Index(idx, span) => self.check_tuple_index(cx, &t, *idx, *span),
                }
            },
            ExprKind::Index { base, index } => {
                let a = self.check_expr_with_expected(cx, base, None);
                let b = self.check_expr_with_expected(cx, index, None);
                self.read_element(cx, &a, base.span, &b, index.span)
            },
            ExprKind::If { cond, then_branch, else_branch } => self.check_if(
                cx,
                cond,
                then_branch,
                else_branch,
                expected,
            ),
            ExprKind::Match { scrutinee, arms } => self.check_match(cx, scrutinee, arms, x.span, expected),
            ExprKind::Block(b) => self.check_block_with_expected(cx, b, expected),
            ExprKind::Unsafe(b) => {
                let was = self.is_unsafe();
                self.set_unsafe(true);
                let t = self.check_block_with_expected(cx, b, expected);
                self.set_unsafe(was);
                t
            },
            ExprKind::While { cond, body } => {
                let t = self.check_expr_with_expected(cx, cond, None);
                self.require_bool(&t, cond.span, "`while` condition");
                self.check_loop_body_with_fixpoint(cx, body);
                Type::unit()
            },
            ExprKind::ForIn { pattern, iter, body } => self.check_for_in(cx, pattern, iter, body),
            ExprKind::Loop { body } => {
                self.check_loop_body_with_fixpoint(cx, body);
                Type::unit()
            },
            ExprKind::Break(v) => {
                if !self.is_in_loop() {
                    self.err(x.span, "`break` is only valid inside a loop");
                }
                if let Some(a) = v {
                    self.check_expr_with_expected(cx, a, None);
                }
                Type::Never
            },
            ExprKind::Continue => {
                if !self.is_in_loop() {
                    self.err(x.span, "`continue` is only valid inside a loop");
                }
                Type::Never
            },
            ExprKind::Return(v) => self.check_return(cx, v, x.span),
            ExprKind::Closure { move_capture: _, mut_capture, params, body } => self.check_closure(
                cx,
                x.id,
                *mut_capture,
                params,
                body,
                expected,
            ),
            ExprKind::StructLit { path, fields, owned } => self.check_struct_lit(cx, path, fields, *owned, expected),
        }
    }

    fn check_await(&mut self, cx: &Cx<'_>, x: &Expr, a: &Expr) -> (r: Type)
        requires
            x.kind matches ExprKind::Await(inner) && *inner == *a,
        ensures
            forall|w: Option<Ty>| (final(self)@, r@) == #[trigger] synth(cx@, old(self)@, *x, w),
        decreases expr_size(*a), 10nat,
    {
        if !self.is_async() {
            self.err(x.span, "`await` is only allowed inside an `async fn`");
        }
        let t = self.check_expr_with_expected(cx, a, None);
        match t {
            Type::Task(output) => *output,
            Type::Error => Type::Error,
            other => {
                let found = cx.describe(&other);
                let message = cat3("cannot await `", found.as_str(), "`; expected a task");
                self.err(a.span, message.as_str());
                Type::Error
            },
        }
    }

    fn check_call_expr(
        &mut self,
        cx: &Cx<'_>,
        x: &Expr,
        callee: &Expr,
        generic_args: &Vec<TypeExpr>,
        args: &Vec<Expr>,
        expected: Option<&Type>,
    ) -> (r: Type)
        requires
            x.kind matches ExprKind::Call { callee: c, generic_args: g, args: a } && *c == *callee && g == *generic_args && a
                == *args,
        ensures
            (final(self)@, r@) == synth(cx@, old(self)@, *x, expected.deep_view()),
        decreases expr_size(*callee) + exprs_size(args@, 0), 11nat,
    {
        if is_named_call(callee, "task", "spawn") {
            let t = self.check_task_spawn(cx, callee, generic_args, args, x.span);
            self.set_type(callee.id, t.clone());
            return t;
        }
        if is_named_call(callee, "thread", "spawn") {
            if generic_args.len() > 0 {
                self.err(second_segment_span(callee), "`thread.spawn` is not generic");
            }
            if args.len() != 1 {
                let n = count(args.len());
                let message = cat2("`thread.spawn` expects 1 argument, found ", n.as_str());
                self.err(x.span, message.as_str());
                return Type::Error;
            }
            proof {
                lemma_exprs_size(args@, 0, 0);
            }
            let t = self.check_thread_spawn(cx, &args[0]);
            self.set_type(callee.id, t.clone());
            return t;
        }
        if is_named_call(callee, "timer", "sleep") {
            let t = self.check_timer_sleep(cx, generic_args, second_segment_span(callee), args, x.span);
            self.set_type(callee.id, t.clone());
            return t;
        }
        let gargs = self.lower_call_generic_args(cx, generic_args);
        self.check_call(cx, x.id, callee, &gargs, args, expected)
    }

    // -----------------------------------------------------------------
    // Literals of several parts
    // -----------------------------------------------------------------

    fn check_tuple_items(&mut self, cx: &Cx<'_>, xs: &Vec<Expr>, want: Option<&Vec<Type>>) -> (r: Vec<Type>)
        ensures
            (final(self)@, tys(r@)) == tuple_items(cx@, old(self)@, xs@, 0, want.deep_view(), Seq::empty()),
        decreases exprs_size(xs@, 0), 1nat,
    {
        let mut out: Vec<Type> = Vec::new();
        let ghost w = want.deep_view();
        let mut i: usize = 0;
        while i < xs.len()
            invariant
                i <= xs.len(),
                w == want.deep_view(),
                exprs_size(xs@, i as int) <= exprs_size(xs@, 0),
                tuple_items(cx@, self@, xs@, i as int, w, tys(out@)) == tuple_items(
                    cx@,
                    old(self)@,
                    xs@,
                    0,
                    w,
                    Seq::empty(),
                ),
            decreases xs.len() - i,
        {
            let item = match want {
                Some(ts) => {
                    assert(ts.deep_view().len() == ts.len());
                    if i < ts.len() {
                        assert(ts.deep_view()[i as int] == ts@[i as int]@);
                        Some(&ts[i])
                    } else {
                        None
                    }
                },
                None => None,
            };
            let t = self.check_expr_with_expected(cx, &xs[i], item);
            out.push(t);
            i += 1;
        }
        out
    }

    fn check_array_elems(&mut self, cx: &Cx<'_>, xs: &Vec<Expr>, want: Option<&Type>, what: &str) -> (r: Type)
        requires
            xs.len() > 0,
        ensures
            (final(self)@, r@) == array_items(cx@, old(self)@, xs@, want.deep_view(), what@),
        decreases exprs_size(xs@, 0), 2nat,
    {
        proof {
            lemma_exprs_size(xs@, 0, 0);
        }
        let first = self.check_expr_with_expected(cx, &xs[0], want);
        let ghost st1 = self@;
        let mut i: usize = 1;
        while i < xs.len()
            invariant
                1 <= i <= xs.len(),
                exprs_size(xs@, i as int) < exprs_size(xs@, 0),
                array_rest(cx@, self@, xs@, i as int, first@, what@) == array_rest(
                    cx@,
                    st1,
                    xs@,
                    1,
                    first@,
                    what@,
                ),
            decreases xs.len() - i,
        {
            let t = self.check_expr_with_expected(cx, &xs[i], Some(&first));
            if !t.compatible(&first) {
                let text = cx.mismatch_text(&first, &t);
                let message = cat4(text.as_str(), " in ", what, " literal");
                self.err(xs[i].span, message.as_str());
            }
            i += 1;
        }
        first
    }

    fn check_array(&mut self, cx: &Cx<'_>, xs: &Vec<Expr>, expected: Option<&Type>, span: Span) -> (r: Type)
        ensures
            (final(self)@, r@) == array(cx@, old(self)@, xs@, expected.deep_view(), span),
        decreases exprs_size(xs@, 0), 4nat,
    {
        if let Some(Type::FixedArray(_, _)) = expected {
            return self.check_fixed_array(cx, xs, expected, span);
        }
        let want = match expected {
            Some(Type::Array(inner)) => Some(&**inner),
            _ => None,
        };
        if xs.len() == 0 {
            return match want {
                Some(inner) => Type::array(inner.clone()),
                None => {
                    self.err(
                        span,
                        "cannot infer the element type of an empty array literal without context",
                    );
                    Type::Error
                },
            };
        }
        let first = self.check_array_elems(cx, xs, want, "array");
        Type::array(first)
    }

    fn check_fixed_array(&mut self, cx: &Cx<'_>, xs: &Vec<Expr>, expected: Option<&Type>, span: Span) -> (r: Type)
        ensures
            (final(self)@, r@) == fixed_array(cx@, old(self)@, xs@, expected.deep_view(), span),
        decreases exprs_size(xs@, 0), 3nat,
    {
        let want = match expected {
            Some(Type::FixedArray(inner, n)) => Some((&**inner, &**n)),
            _ => None,
        };
        if xs.len() == 0 {
            if let Some((inner, n)) = want {
                if matches!(n, Type::Const(0)) {
                    assert(n@ == Ty::Const(0));
                    return Type::fixed_array(inner.clone(), n.clone());
                }
                assert(n@ != Ty::Const(0));
            }
            self.err(
                span,
                "cannot infer the element type of an empty fixed-array literal without context",
            );
            return Type::Error;
        }
        let element = match want {
            Some((inner, _)) => Some(inner),
            None => None,
        };
        let first = self.check_array_elems(cx, xs, element, "fixed-array");
        if let Some((_, n)) = want {
            if let Type::Const(k) = n {
                assert(n@ == Ty::Const(*k));
                if *k != xs.len() as u128 {
                    let a = number(*k);
                    let b = count(xs.len());
                    let message = cat4("fixed array expects ", a.as_str(), " element(s), found ", b.as_str());
                    self.err(span, message.as_str());
                }
            }
        }
        Type::fixed_array(first, Type::Const(xs.len() as u128))
    }

    fn check_template(&mut self, cx: &Cx<'_>, parts: &Vec<TemplatePart>)
        ensures
            final(self)@ == template(cx@, old(self)@, parts@, 0),
        decreases parts_size(parts@, 0), 1nat,
    {
        let mut i: usize = 0;
        while i < parts.len()
            invariant
                i <= parts.len(),
                parts_size(parts@, i as int) <= parts_size(parts@, 0),
                template(cx@, self@, parts@, i as int) == template(cx@, old(self)@, parts@, 0),
            decreases parts.len() - i,
        {
            if let TemplatePart::Expr(x) = &parts[i] {
                let t = self.check_expr_with_expected(cx, x, None);
                self.require_into_string(cx, &t, x.span);
            }
            i += 1;
        }
    }

    // -----------------------------------------------------------------
    // Assignment
    // -----------------------------------------------------------------

    fn check_assign(&mut self, cx: &Cx<'_>, target: &Expr, value: &Expr) -> (r: Type)
        ensures
            (final(self)@, r@) == assign(cx@, old(self)@, *target, *value),
        decreases expr_size(*target) + expr_size(*value), 10nat,
    {
        if let ExprKind::RawDeref(pointer) = &target.kind {
            self.check_deref_allowed(target.span);
            let t = self.check_expr_with_expected(cx, pointer, None);
            let p = self.write_pointee(cx, &t, target.span, pointer.span);
            self.set_type(target.id, p.clone());
            let v = self.check_expr_with_expected(cx, value, Some(&p));
            if !p.is_error() && !v.compatible(&p) {
                let message = cx.mismatch_text(&p, &v);
                self.err(value.span, message.as_str());
            }
            return Type::unit();
        }
        if !assign_target_has_local_root(cx.scope.names, target) {
            self.err(
                target.span,
                "assignment target must be a local binding or one of its fields/elements",
            );
        }
        let t = self.check_assign_target_type(cx, target);
        self.set_type(target.id, t.clone());
        let v = self.check_expr_with_expected(cx, value, Some(&t));
        if !v.compatible(&t) {
            let message = cx.mismatch_text(&t, &v);
            self.err(value.span, message.as_str());
        }
        self.check_assign_target_mutable(cx, target);
        if let Some(local) = bare_local_of(cx.scope.names, target) {
            self.unmove(local);
        }
        Type::unit()
    }

    fn check_assign_target_type(&mut self, cx: &Cx<'_>, target: &Expr) -> (r: Type)
        ensures
            (final(self)@, r@) == assign_target(cx@, old(self)@, *target),
        decreases expr_size(*target), 10nat,
    {
        match &target.kind {
            ExprKind::Path(path) => self.check_assign_path_type(cx, path),
            ExprKind::Field { base, field } => match field {
                FieldAccessor::Named(ident) => {
                    let t = self.check_expr_with_expected(cx, base, None);
                    self.field_type_named(cx, &t, ident)
                },
                _ => self.check_expr_with_expected(cx, target, None),
            },
            _ => self.check_expr_with_expected(cx, target, None),
        }
    }

    fn check_assign_path_type(&mut self, cx: &Cx<'_>, path: &Path) -> (r: Type)
        ensures
            (final(self)@, r@) == assign_path(cx@, old(self)@, *path),
        decreases 0nat, 7nat,
    {
        let res = match cx.scope.names.path_of(path.id) {
            Some(res) => res,
            None => {
                return Type::Error;
            },
        };
        match res.base {
            Resolution::Local(id) => {
                let t = match self.local(id) {
                    Some(l) => l.0.clone(),
                    None => Type::Error,
                };
                let t1 = self.assigned_field_type(cx, path, res.consumed, t);
                if res.consumed == path.segments.len() {
                    cx.assigned_inline(t1)
                } else {
                    t1
                }
            },
            _ => self.check_value_path(cx, path, None, None, None, &no_types()),
        }
    }

    // -----------------------------------------------------------------
    // Tasks and threads
    // -----------------------------------------------------------------

    fn check_task_spawn(&mut self, cx: &Cx<'_>, callee: &Expr, gargs: &Vec<TypeExpr>, args: &Vec<Expr>, span: Span) -> (r: Type)
        ensures
            (final(self)@, r@) == task_spawn(cx@, old(self)@, *callee, gargs@, args@, span),
        decreases exprs_size(args@, 0), 10nat,
    {
        if !self.is_async() {
            self.err(span, "`task.spawn` is only allowed inside an `async fn`");
        }
        if gargs.len() > 0 {
            self.err(second_segment_span(callee), "`task.spawn` is not generic");
        }
        if args.len() != 1 {
            let n = count(args.len());
            let message = cat2("`task.spawn` expects 1 argument, found ", n.as_str());
            self.err(span, message.as_str());
            return Type::Error;
        }
        proof {
            lemma_exprs_size(args@, 0, 0);
        }
        let t = self.check_expr_with_expected(cx, &args[0], None);
        match &t {
            Type::Task(_) => {
                self.check_spawn_capture_borrows(cx, &args[0], "task");
                t
            },
            Type::Error => Type::Error,
            _ => {
                let found = cx.describe(&t);
                let message = cat3("`task.spawn` expects a task, found `", found.as_str(), "`");
                self.err(args[0].span, message.as_str());
                Type::Error
            },
        }
    }

    fn check_captures_send(&mut self, cx: &Cx<'_>, locals: &Vec<LocalId>, span: Span)
        ensures
            final(self)@ == captures_sendable(cx@, old(self)@, locals.deep_view(), 0, span),
    {
        let ghost ls = locals.deep_view();
        let mut i: usize = 0;
        while i < locals.len()
            invariant
                i <= locals.len(),
                ls == locals.deep_view(),
                captures_sendable(cx@, self@, ls, i as int, span) == captures_sendable(
                    cx@,
                    old(self)@,
                    ls,
                    0,
                    span,
                ),
            decreases locals.len() - i,
        {
            assert(ls[i as int] == locals@[i as int]);
            let problem = match self.local(locals[i]) {
                Some(l) => if is_send(&l.0, &cx.scope.names.definitions, cx.sigs) {
                    None
                } else {
                    let found = cx.describe(&l.0);
                    Some(
                        cat5(
                            "cannot spawn a thread capturing a value of type `",
                            found.as_str(),
                            "` — it is not `Send` (does it need `unsafe impl ",
                            found.as_str(),
                            " Send { }`?)",
                        ),
                    )
                },
                None => None,
            };
            if let Some(message) = problem {
                self.err(span, message.as_str());
            }
            i += 1;
        }
    }

    fn check_thread_spawn(&mut self, cx: &Cx<'_>, arg: &Expr) -> (r: Type)
        ensures
            (final(self)@, r@) == thread_spawn(cx@, old(self)@, *arg),
        decreases expr_size(*arg), 10nat,
    {
        match &arg.kind {
            ExprKind::Closure { move_capture, mut_capture: _, params, body } => {
                if !*move_capture {
                    self.err(arg.span, "a `thread.spawn` closure must be `move`");
                }
                if params.len() > 0 {
                    self.err(arg.span, "a `thread.spawn` closure takes no parameters");
                }
                let captured = self.check_spawn_capture_borrows(cx, body, "thread");
                self.check_captures_send(cx, &captured, arg.span);
                let t = self.check_expr_with_expected(cx, arg, None);
                if let Type::Function(_, ret) = &t {
                    if !ret.is_error() && !ret.compatible(&Type::unit()) {
                        let found = cx.describe(ret);
                        let message = cat3(
                            "a `thread.spawn` closure must return `()`, found `",
                            found.as_str(),
                            "` — returning a value from a spawned thread is not yet supported",
                        );
                        self.err(arg.span, message.as_str());
                    }
                }
                Type::thread(Type::unit())
            },
            _ => {
                self.err(
                    arg.span,
                    "`thread.spawn` requires a `move` closure literal argument, e.g. `thread.spawn(move () => { ... })`",
                );
                self.check_expr_with_expected(cx, arg, None);
                Type::Error
            },
        }
    }

    fn check_timer_sleep(&mut self, cx: &Cx<'_>, gargs: &Vec<TypeExpr>, name_span: Span, args: &Vec<Expr>, span: Span) -> (r: Type)
        ensures
            (final(self)@, r@) == timer_sleep(cx@, old(self)@, gargs@, name_span, args@, span),
        decreases exprs_size(args@, 0), 2nat,
    {
        if gargs.len() > 0 {
            self.err(name_span, "`timer.sleep` is not generic");
        }
        if args.len() != 1 {
            let n = count(args.len());
            let message = cat2("`timer.sleep` expects 1 argument, found ", n.as_str());
            self.err(span, message.as_str());
        }
        let ghost st2 = self@;
        let mut i: usize = 0;
        while i < args.len()
            invariant
                i <= args.len(),
                exprs_size(args@, i as int) <= exprs_size(args@, 0),
                timer_args(cx@, self@, args@, i as int) == timer_args(cx@, st2, args@, 0),
            decreases args.len() - i,
        {
            let t = self.check_expr_with_expected(cx, &args[i], None);
            if !is_integer_type(&t) {
                self.err(args[i].span, "`timer.sleep` expects integer milliseconds");
            }
            i += 1;
        }
        Type::task(Type::unit())
    }

    // -----------------------------------------------------------------
    // Control flow
    // -----------------------------------------------------------------

    fn check_if(&mut self, cx: &Cx<'_>, cond: &Expr, then_branch: &Block, else_branch: &Option<Box<Expr>>, expected: Option<&Type>) -> (r: Type)
        ensures
            (final(self)@, r@) == conditional(
                cx@,
                old(self)@,
                *cond,
                *then_branch,
                *else_branch,
                expected.deep_view(),
            ),
        decreases expr_size(*cond) + block_size(*then_branch) + opt_size(*else_branch), 10nat,
    {
        let c = self.check_expr_with_expected(cx, cond, None);
        self.require_bool(&c, cond.span, "`if` condition");
        let before = self.moved_locals();
        let a = self.check_block_with_expected(cx, then_branch, expected);
        let then_moved = self.replace_moved(before.copy());
        match else_branch {
            None => {
                self.merge_branch(a.is_never(), &then_moved);
                Type::unit()
            },
            Some(other) => {
                let want = match expected {
                    Some(w) => Some(w),
                    None => Some(&a),
                };
                let b = self.check_expr_with_expected(cx, other, want);
                let else_moved = self.replace_moved(before);
                self.merge_branch(a.is_never(), &then_moved);
                self.merge_branch(b.is_never(), &else_moved);
                if !a.compatible(&b) {
                    let x = cx.describe(&a);
                    let y = cx.describe(&b);
                    let message = cat5(
                        "`if`/`else` branches have incompatible types: `",
                        x.as_str(),
                        "` vs `",
                        y.as_str(),
                        "`",
                    );
                    self.err(other.span, message.as_str());
                }
                let result = join_branches(a, b);
                self.retype_tail(then_branch, &result);
                result
            },
        }
    }

    fn check_match(&mut self, cx: &Cx<'_>, scrutinee: &Expr, arms: &Vec<MatchArm>, span: Span, expected: Option<&Type>) -> (r: Type)
        ensures
            (final(self)@, r@) == matching(cx@, old(self)@, *scrutinee, arms@, span, expected.deep_view()),
        decreases expr_size(*scrutinee) + arms_size(arms@, 0), 10nat,
    {
        let t = self.check_expr_with_expected(cx, scrutinee, None);
        let mut c = Coverage::new();
        let mut result: Option<Type> = None;
        let mut moves: Vec<(bool, Table<LocalId, Span>)> = Vec::new();
        proof {
            assert(moves.deep_view() =~= Seq::empty());
        }
        self.check_arms(cx, arms, &t, expected, &mut c, &mut result, &mut moves);
        self.merge_branches(&moves);
        self.check_exhaustive(cx, &t, &c.covered, c.catch_all, span);
        let result = match result {
            Some(r) => r,
            None => Type::unit(),
        };
        self.retype_arms(arms, &result);
        result
    }

    fn check_arms(
        &mut self,
        cx: &Cx<'_>,
        arms: &Vec<MatchArm>,
        t: &Type,
        expected: Option<&Type>,
        c: &mut Coverage,
        result: &mut Option<Type>,
        moves: &mut Vec<(bool, Table<LocalId, Span>)>,
    )
        ensures
            (ArmSt {
                ps: pat_st(final(self)@, *final(c)),
                result: final(result).deep_view(),
                moves: final(moves).deep_view(),
            }) == match_arms(
                cx@,
                ArmSt {
                    ps: pat_st(old(self)@, *old(c)),
                    result: old(result).deep_view(),
                    moves: old(moves).deep_view(),
                },
                arms@,
                0,
                t@,
                expected.deep_view(),
            ),
        decreases arms_size(arms@, 0), 1nat,
    {
        let ghost a0 = ArmSt {
            ps: pat_st(self@, *c),
            result: result.deep_view(),
            moves: moves.deep_view(),
        };
        let mut i: usize = 0;
        while i < arms.len()
            invariant
                i <= arms.len(),
                arms_size(arms@, i as int) <= arms_size(arms@, 0),
                match_arms(
                    cx@,
                    ArmSt { ps: pat_st(self@, *c), result: result.deep_view(), moves: moves.deep_view() },
                    arms@,
                    i as int,
                    t@,
                    expected.deep_view(),
                ) == match_arms(cx@, a0, arms@, 0, t@, expected.deep_view()),
            decreases arms.len() - i,
        {
            let before = self.moved_locals();
            self.check_pattern_inner(cx, &arms[i].pattern, t, c, true);
            let want = match expected {
                Some(w) => Some(w),
                None => result.as_ref(),
            };
            let b = self.check_expr_with_expected(cx, &arms[i].body, want);
            let moved = self.replace_moved(before);
            put(moves, (b.is_never(), moved));
            let prior = result.take();
            *result = match prior {
                None => Some(b),
                Some(p) => {
                    if !p.compatible(&b) {
                        let x = cx.describe(&p);
                        let y = cx.describe(&b);
                        let message = cat5(
                            "`match` arms have incompatible types: `",
                            x.as_str(),
                            "` vs `",
                            y.as_str(),
                            "`",
                        );
                        self.err(arms[i].body.span, message.as_str());
                    }
                    Some(join_branches(p, b))
                },
            };
            i += 1;
        }
    }

    fn check_loop_body_with_fixpoint(&mut self, cx: &Cx<'_>, body: &Block)
        ensures
            final(self)@ == loop_body(cx@, old(self)@, *body),
        decreases block_size(*body), 1nat,
    {
        let was_loop = self.is_in_loop();
        let was_silent = self.is_silent();
        let before = self.moved_locals();
        self.set_in_loop(true);
        self.set_silent(true);
        self.check_block_with_expected(cx, body, None);
        self.set_silent(was_silent);
        let discovered = self.replace_moved(before.copy());
        self.merge_branch(false, &discovered);
        self.check_block_with_expected(cx, body, None);
        let after = self.replace_moved(before);
        self.merge_branch(false, &after);
        self.set_in_loop(was_loop);
    }

    fn check_for_in(&mut self, cx: &Cx<'_>, p: &Pattern, iter: &Expr, body: &Block) -> (r: Type)
        ensures
            (final(self)@, r@) == for_in(cx@, old(self)@, *p, *iter, *body),
        decreases expr_size(*iter) + block_size(*body), 10nat,
    {
        let t = self.check_expr_with_expected(cx, iter, None);
        let item = match &t {
            Type::Array(inner) => (**inner).clone(),
            Type::Error => Type::Error,
            _ => {
                let described = cx.describe(&t);
                let message = cat3("`for`-`in` requires an `Array`, found `", described.as_str(), "`");
                self.err(iter.span, message.as_str());
                Type::Error
            },
        };
        let mut c = Coverage::new();
        self.check_pattern_inner(cx, p, &item, &mut c, true);
        self.check_loop_body_with_fixpoint(cx, body);
        Type::unit()
    }

    fn check_return(&mut self, cx: &Cx<'_>, value: &Option<Box<Expr>>, span: Span) -> (r: Type)
        ensures
            (final(self)@, r@) == returning(cx@, old(self)@, *value, span),
        decreases opt_size(*value), 10nat,
    {
        let want = self.return_type().clone();
        let t = match value {
            Some(x) => self.check_expr_with_expected(cx, x, Some(&want)),
            None => Type::unit(),
        };
        if !t.compatible(&want) {
            let a = cx.describe(&want);
            let b = cx.describe(&t);
            let message = cat5("expected return type `", a.as_str(), "`, found `", b.as_str(), "`");
            self.err(span, message.as_str());
        } else if want.is_reference() {
            self.check_returned_reference_origin(cx, value, span);
        }
        self.check_returned_closure_mut_captures(value, span);
        Type::Never
    }

    fn record_captures(&mut self, cx: &Cx<'_>, id: NodeId, mut_capture: bool, body: &Expr)
        ensures
            final(self)@ == captures_recorded(cx@, old(self)@, id, mut_capture, *body),
    {
        proof {
            reveal(captures_recorded);
        }
        let references = self.captured_references(cx, body);
        let ghost rs = references.deep_view();
        let mut locals: Vec<LocalId> = Vec::new();
        let mut i: usize = 0;
        while i < references.len()
            invariant
                i <= references.len(),
                rs == references.deep_view(),
                locals.len() == i,
                forall|j: int| 0 <= j < i ==> (#[trigger] locals@[j]) == rs[j].0,
            decreases references.len() - i,
        {
            assert(rs[i as int].0 == references@[i as int].0);
            locals.push(references[i].0);
            i += 1;
        }
        proof {
            assert(locals.deep_view() =~= counted(rs));
        }
        let by_ref = if mut_capture {
            Some(self.captured_mutably(cx, body))
        } else {
            None
        };
        self.set_closure_uses(id, references);
        self.defer(locals);
        if let Some(captured) = by_ref {
            self.set_closure_mut_captures(id, captured);
        }
    }

    fn check_closure(&mut self, cx: &Cx<'_>, id: NodeId, mut_capture: bool, params: &Vec<Param>, body: &Expr, expected: Option<&Type>) -> (r: Type)
        ensures
            (final(self)@, r@) == closure(
                cx@,
                old(self)@,
                id,
                mut_capture,
                params@,
                *body,
                expected.deep_view(),
            ),
        decreases expr_size(*body), 10nat,
    {
        let ts = self.lower_closure_params(cx, params);
        self.record_captures(cx, id, mut_capture, body);
        self.bind_closure_params(cx, params, &ts);
        let want = expected_of_closure(expected, &ts);
        let was_loop = self.is_in_loop();
        self.set_in_loop(false);
        let ret = self.check_expr_with_expected(cx, body, want);
        self.set_in_loop(was_loop);
        self.undefer();
        self.finish_closure(cx, id, params, body, &ret);
        Type::function(ts, ret)
    }

    // -----------------------------------------------------------------
    // Blocks
    // -----------------------------------------------------------------

    fn check_stored_borrow_initializer(&mut self, cx: &Cx<'_>, value: &Expr, declared: &Type) -> (r: StoredBorrow)
        ensures
            (final(self)@, r.deep_view()) == stored_borrow(cx@, old(self)@, *value, declared@),
        decreases expr_size(*value), 10nat,
    {
        if !declared.is_reference() {
            return None;
        }
        let mutable = matches!(declared, Type::MutRef(_));
        let origin = match bare_local_of(cx.scope.names, value) {
            Some(origin) => origin,
            None => {
                let t = self.check_expr_with_expected(cx, value, Some(declared));
                let o = self.infer_origin(cx, value);
                return Some((t, o, mutable));
            },
        };
        let (owned, mutable_local) = match self.local(origin) {
            Some(l) => (l.0.clone(), l.1),
            None => {
                self.set_type(value.id, Type::Error);
                return Some((Type::Error, None, mutable));
            },
        };
        if owned.is_reference() {
            let t = self.check_expr_with_expected(cx, value, Some(declared));
            let o = self.reference_origin(origin);
            return Some((t, o, mutable));
        }
        self.store_owned(cx, value, origin, &owned, mutable_local, declared)
    }

    fn check_stmt(&mut self, cx: &Cx<'_>, s: &Stmt) -> (r: Type)
        ensures
            (final(self)@, r@) == stmt(cx@, old(self)@, *s),
        decreases stmt_size(*s), 0nat,
    {
        match s {
            Stmt::Let(l) => {
                let declared = match &l.ty {
                    Some(syntax) => {
                        let t = self.lower(cx, syntax);
                        Some(cx.sigs.normalize_associated(&t))
                    },
                    None => None,
                };
                let stored = match &declared {
                    Some(d) => self.check_stored_borrow_initializer(cx, &l.value, d),
                    None => None,
                };
                let value = match &stored {
                    Some((t, _, _)) => t.clone(),
                    None => self.check_expr_with_expected(cx, &l.value, declared.as_ref()),
                };
                self.finish_let(cx, l, declared, &stored, value)
            },
            Stmt::Expr(x) => {
                let t = self.check_expr_with_expected(cx, x, None);
                if !t.is_error() && t.contains_error() {
                    self.err(x.span, "cannot infer all generic type arguments for this expression");
                }
                self.flush_nll_releases();
                t
            },
        }
    }

    fn check_stmts(&mut self, cx: &Cx<'_>, s: &Vec<Stmt>) -> (r: bool)
        ensures
            (final(self)@, r) == stmts(cx@, old(self)@, s@, 0, false),
        decreases stmts_size(s@, 0), 1nat,
    {
        let mut diverges: bool = false;
        let mut i: usize = 0;
        while i < s.len()
            invariant
                i <= s.len(),
                stmts_size(s@, i as int) <= stmts_size(s@, 0),
                stmts(cx@, self@, s@, i as int, diverges) == stmts(cx@, old(self)@, s@, 0, false),
            decreases s.len() - i,
        {
            let t = self.check_stmt(cx, &s[i]);
            if t.is_never() {
                diverges = true;
            }
            i += 1;
        }
        diverges
    }

    fn check_block_with_expected(&mut self, cx: &Cx<'_>, b: &Block, expected: Option<&Type>) -> (r: Type)
        ensures
            (final(self)@, r@) == block(cx@, old(self)@, *b, expected.deep_view()),
        decreases block_size(*b), 0nat,
    {
        self.push_local_scope();
        let diverges = self.check_stmts(cx, &b.stmts);
        let t = match &b.tail {
            Some(tail) => self.check_expr_with_expected(cx, tail, expected),
            None => if diverges {
                Type::Never
            } else {
                Type::unit()
            },
        };
        self.pop_local_scope();
        t
    }

    /// Checks a function's outermost block.
    pub fn check_fn_body(&mut self, cx: &Cx<'_>, b: &Block) -> (r: Type)
        ensures
            (final(self)@, r@) == fn_body(cx@, old(self)@, *b),
    {
        let mut diverges = self.check_stmts(cx, &b.stmts);
        if let Some(tail) = &b.tail {
            let t = self.check_expr_with_expected(cx, tail, None);
            if t.is_never() {
                diverges = true;
            }
        }
        if diverges {
            Type::Never
        } else {
            Type::unit()
        }
    }
}

} // verus!
