//! Where references come from, and what closures capture.
use crate::ast::{Block, Expr, ExprKind, LetStmt, MatchArm, Param, Path};
use crate::check::borrows::{
    arg_origin, arms_reference_origins, captured_locals, captured_mutably, captured_references, closure_call_origins,
    counts_in, method_call_origins, method_sig, path_call_origins, reference_origins, returned_closure,
    returned_reference, summary_origins, tail_reference_origins, Borrows,
};
use crate::check::facts::bare_local;
use crate::check::growth::{group_grows, group_steps, grows, lemma_one_error};
use crate::check::model::{captures_recorded, closure, expr};
use crate::check::record::run_expr;
use crate::check::rules::{
    callable_bound, closure_bound, closure_done, closure_expected, closure_origin, closure_params, inferred_origin,
    let_bound, origin_bound,
};
use crate::check::state::{BorrowOrigin, ClosureOrigin, Env, St};
use crate::check::typing::no_error;
use crate::ids::{LocalId, NodeId, Span};
use crate::names::Resolution;
use crate::origins::{joined, lemma_joined};
use crate::representation::kind_of_alloc;
use crate::sig::ReturnOrigin;
use crate::ty::{fits, has_error, Ty};
use crate::written::type_of;
use vstd::prelude::*;

verus! {

broadcast use {group_grows, group_steps, lemma_one_error};

// ---------------------------------------------------------------------
// Origins
// ---------------------------------------------------------------------

/// Joining origins loses none and invents none.
pub proof fn law_joined_origins(a: Borrows, b: Borrows, o: BorrowOrigin)
    ensures
        joined(a, b, 0).contains(o) <==> a.contains(o) || b.contains(o),
{
    lemma_joined(a, b, 0, o);
    if b.contains(o) {
        let j = choose|j: int| 0 <= j < b.len() && b[j] == o;
        assert(b[j] == o);
    }
}

/// What a local lends comes from the local itself if it is owned, and otherwise from
/// where the reference that it holds comes from.
pub proof fn law_locals_lend_their_own(e: Env, st: St, x: Expr, local: LocalId, o: BorrowOrigin)
    requires
        bare_local(e.sc.names, x) == Some(local),
    ensures
        arg_origin(e, st, x).contains(o) <==> (st.locals.get(local) matches Some((t, _)) && (if t is Unique {
            o == BorrowOrigin::Local(local)
        } else {
            st.reference_origins.get(local) == Some(o)
        })),
{
    assert(seq![BorrowOrigin::Local(local)][0] == BorrowOrigin::Local(local));
    if let Some(p) = st.reference_origins.get(local) {
        assert(seq![p][0] == p);
    }
}

/// Whether an entry of a summary gives an origin: that of the receiver, or that of
/// the argument for a parameter.
pub open spec fn entry_gives(e: Env, st: St, receiver: Borrows, args: Seq<Expr>, entry: ReturnOrigin, o: BorrowOrigin) -> bool {
    match entry {
        ReturnOrigin::SelfValue => receiver.contains(o),
        ReturnOrigin::Parameter(p) => p < args.len() && arg_origin(e, st, args[p as int]).contains(o),
    }
}

/// A call's result comes from what the callee's summary names, and from nothing else.
pub proof fn law_results_come_from_what_the_summary_names(
    e: Env,
    st: St,
    receiver: Borrows,
    args: Seq<Expr>,
    summary: Seq<ReturnOrigin>,
    i: int,
    acc: Borrows,
    o: BorrowOrigin,
)
    requires
        0 <= i <= summary.len(),
    ensures
        summary_origins(e, st, receiver, args, summary, i, acc).contains(o) <==> acc.contains(o) || exists|k: int|
            #![trigger summary[k]]
            i <= k < summary.len() && entry_gives(e, st, receiver, args, summary[k], o),
    decreases summary.len() - i,
{
    if i < summary.len() {
        let more = match summary[i] {
            ReturnOrigin::SelfValue => receiver,
            ReturnOrigin::Parameter(p) => if p < args.len() {
                arg_origin(e, st, args[p as int])
            } else {
                Seq::empty()
            },
        };
        law_joined_origins(acc, more, o);
        law_results_come_from_what_the_summary_names(
            e,
            st,
            receiver,
            args,
            summary,
            i + 1,
            joined(acc, more, 0),
            o,
        );
        assert(more.contains(o) <==> entry_gives(e, st, receiver, args, summary[i], o));
    }
}

/// Whether an origin of what a closure returns gives an origin at a call.
pub open spec fn closure_gives(e: Env, st: St, args: Seq<Expr>, entry: ClosureOrigin, o: BorrowOrigin) -> bool {
    match entry {
        ClosureOrigin::Captured(c) => c == o,
        ClosureOrigin::Parameter(p) => p < args.len() && arg_origin(e, st, args[p as int]).contains(o),
    }
}

/// A closure call's result comes from what the closure captured or from the arguments
/// for the parameters that its body returns.
pub proof fn law_results_come_from_what_the_closure_returns(
    e: Env,
    st: St,
    args: Seq<Expr>,
    os: Seq<ClosureOrigin>,
    i: int,
    acc: Borrows,
    o: BorrowOrigin,
)
    requires
        0 <= i <= os.len(),
    ensures
        closure_call_origins(e, st, args, os, i, acc).contains(o) <==> acc.contains(o) || exists|k: int|
            #![trigger os[k]]
            i <= k < os.len() && closure_gives(e, st, args, os[k], o),
    decreases os.len() - i,
{
    if i < os.len() {
        let more = match os[i] {
            ClosureOrigin::Captured(c) => seq![c],
            ClosureOrigin::Parameter(p) => if p < args.len() {
                arg_origin(e, st, args[p as int])
            } else {
                Seq::empty()
            },
        };
        law_joined_origins(acc, more, o);
        law_results_come_from_what_the_closure_returns(e, st, args, os, i + 1, joined(acc, more, 0), o);
        assert(more.contains(o) <==> closure_gives(e, st, args, os[i], o)) by {
            if let ClosureOrigin::Captured(c) = os[i] {
                assert(more[0] == c);
            }
        }
    }
}

/// The result of a call of a declared function comes from what the function's
/// summary names among the arguments.
pub proof fn law_function_results_come_from_arguments(e: Env, st: St, path: Path, args: Seq<Expr>, id: crate::ids::DefId, o: BorrowOrigin)
    requires
        e.sc.names.path(path.id) matches Some(res) && res.base == Resolution::Def(id) && res.consumed
            == path.segments@.len(),
        e.sigs.fns.contains_key(id),
    ensures
        ({
            let summary = e.sigs.fns[id].return_origins;
            path_call_origins(e, st, path, args).contains(o) <==> exists|k: int|
                #![trigger summary[k]]
                0 <= k < summary.len() && entry_gives(e, st, Seq::empty(), args, summary[k], o)
        }),
{
    reveal(path_call_origins);
    law_results_come_from_what_the_summary_names(
        e,
        st,
        Seq::empty(),
        args,
        e.sigs.fns[id].return_origins,
        0,
        Seq::empty(),
        o,
    );
}

/// The result of a method call comes from what the method's summary names: the
/// receiver's origin or that of an argument.
pub proof fn law_method_results_come_from_receiver_or_arguments(
    e: Env,
    st: St,
    t: Ty,
    receiver: Borrows,
    name: Seq<char>,
    args: Seq<Expr>,
    o: BorrowOrigin,
)
    ensures
        method_call_origins(e, st, t, receiver, name, args).contains(o) <==> (method_sig(e, t, name) matches Some(sig)
            && exists|k: int|
            #![trigger sig.return_origins[k]]
            0 <= k < sig.return_origins.len() && entry_gives(e, st, receiver, args, sig.return_origins[k], o)),
{
    reveal(method_call_origins);
    if let Some(sig) = method_sig(e, t, name) {
        law_results_come_from_what_the_summary_names(e, st, receiver, args, sig.return_origins, 0, Seq::empty(), o);
    }
}

/// Whether the last expression of a block gives an origin.
pub open spec fn block_gives(e: Env, st: St, b: Block, o: BorrowOrigin) -> bool {
    b.tail matches Some(tail) && reference_origins(e, st, *tail).contains(o)
}

/// The value of an `if` comes from what either branch gives.
pub proof fn law_values_come_from_every_branch(
    e: Env,
    st: St,
    x: Expr,
    cond: Box<Expr>,
    then_branch: Block,
    else_branch: Box<Expr>,
    o: BorrowOrigin,
)
    requires
        x.kind == (ExprKind::If { cond, then_branch, else_branch: Some(else_branch) }),
    ensures
        reference_origins(e, st, x).contains(o) <==> block_gives(e, st, then_branch, o) || reference_origins(
            e,
            st,
            *else_branch,
        ).contains(o),
{
    let a = tail_reference_origins(e, st, then_branch);
    law_joined_origins(a, reference_origins(e, st, *else_branch), o);
    assert(a.contains(o) <==> block_gives(e, st, then_branch, o));
}

/// The value of a block comes from what its last expression gives, and that of a
/// `match` from what its arms give.
pub proof fn law_values_come_from_the_last_expression(e: Env, st: St, x: Expr, b: Block, scrutinee: Box<Expr>, arms: Vec<MatchArm>, o: BorrowOrigin)
    ensures
        x.kind == ExprKind::Block(b) ==> (reference_origins(e, st, x).contains(o) <==> block_gives(e, st, b, o)),
        x.kind == (ExprKind::Match { scrutinee, arms }) ==> (reference_origins(e, st, x).contains(o) <==> exists|k: int|
            #![trigger arms@[k]]
            0 <= k < arms@.len() && reference_origins(e, st, arms@[k].body).contains(o)),
{
    lemma_arms(e, st, arms@, 0, Seq::empty(), o);
    let a = tail_reference_origins(e, st, b);
    assert(a.contains(o) <==> block_gives(e, st, b, o));
    assert(x.kind == ExprKind::Block(b) ==> reference_origins(e, st, x) == a);
}

/// A local gives the origin of the reference that it holds, and a call through a path
/// what the call's result comes from.
pub proof fn law_values_of_locals_and_calls(e: Env, st: St, x: Expr, path: Path, o: BorrowOrigin)
    ensures
        x.kind == ExprKind::Path(path) ==> (reference_origins(e, st, x).contains(o) <==> (bare_local(e.sc.names, x)
            matches Some(local) && st.reference_origins.get(local) == Some(o))),
        x.kind matches ExprKind::Call { callee, generic_args: _, args } ==> (callee.kind == ExprKind::Path(path)
            ==> reference_origins(e, st, x) == path_call_origins(e, st, path, args@)),
{
    if let Some(local) = bare_local(e.sc.names, x) {
        if let Some(p) = st.reference_origins.get(local) {
            assert(seq![p][0] == p);
        }
    }
}

proof fn lemma_arms(e: Env, st: St, arms: Seq<MatchArm>, i: int, acc: Borrows, o: BorrowOrigin)
    requires
        0 <= i <= arms.len(),
    ensures
        arms_reference_origins(e, st, arms, i, acc).contains(o) <==> acc.contains(o) || exists|k: int|
            #![trigger arms[k]]
            i <= k < arms.len() && reference_origins(e, st, arms[k].body).contains(o),
    decreases arms.len() - i,
{
    if i < arms.len() {
        let more = reference_origins(e, st, arms[i].body);
        law_joined_origins(acc, more, o);
        lemma_arms(e, st, arms, i + 1, joined(acc, more, 0), o);
    }
}

/// A reference is returned without an error exactly if it comes from one place, and
/// that is a parameter.
pub proof fn law_returned_references_come_from_a_parameter(e: Env, st: St, value: Box<Expr>, span: Span)
    requires
        !st.silent,
    ensures
        no_error(st, returned_reference(e, st, Some(value), span)) <==> reference_origins(e, st, *value).len() == 1
            && reference_origins(e, st, *value)[0] is Parameter,
{
    reveal(returned_reference);
    reveal_with_fuel(crate::check::borrows::some_local, 3);
}

/// A closure is returned without an error exactly if it changes no local of the
/// function that it captures.
pub proof fn law_returned_closures_change_no_local(st: St, value: Box<Expr>, span: Span)
    requires
        !st.silent,
    ensures
        no_error(st, returned_closure(st, Some(value), span)) <==> !(st.closure_mut_captures.contains_key(value.id)
            && st.closure_mut_captures[value.id].len() > 0),
{
    reveal(returned_closure);
}

/// A stored reference without an origin of its own is stored without an error exactly
/// if what it is made of comes from one place.
pub proof fn law_stored_references_have_one_origin(e: Env, st: St, value: Expr)
    requires
        !st.silent,
    ensures
        ({
            let (after, o) = inferred_origin(e, st, value);
            &&& no_error(st, after) <==> reference_origins(e, st, value).len() == 1
            &&& no_error(st, after) ==> o == Some(reference_origins(e, st, value)[0])
        }),
{
    reveal(inferred_origin);
}

// ---------------------------------------------------------------------
// Captures
// ---------------------------------------------------------------------

/// A closure captures exactly the references that it uses, with the number of uses.
pub proof fn law_captured_references_are_used(
    st: St,
    counts: Seq<(LocalId, usize)>,
    i: int,
    acc: Seq<(LocalId, usize)>,
    local: LocalId,
    n: usize,
)
    requires
        0 <= i <= counts.len(),
    ensures
        captured_references(st, counts, i, acc).contains((local, n)) <==> acc.contains((local, n)) || (st.locals.get(local)
            matches Some((t, _)) && (t is Ref || t is MutRef) && exists|k: int|
            #![trigger counts[k]]
            i <= k < counts.len() && counts[k] == (local, n)),
    decreases counts.len() - i,
{
    if i < counts.len() {
        let captured = match st.locals.get(counts[i].0) {
            Some((t, _)) => t is Ref || t is MutRef,
            None => false,
        };
        let acc1 = if captured {
            acc.push(counts[i])
        } else {
            acc
        };
        law_captured_references_are_used(st, counts, i + 1, acc1, local, n);
        if captured {
            lemma_pushed(acc, counts[i], (local, n));
        }
    }
}

proof fn lemma_pushed<A>(s: Seq<A>, x: A, y: A)
    ensures
        s.push(x).contains(y) <==> s.contains(y) || x == y,
{
    assert(s.push(x)[s.len() as int] == x);
    if s.contains(y) {
        let k = choose|k: int| 0 <= k < s.len() && s[k] == y;
        assert(s.push(x)[k] == y);
    }
    if s.push(x).contains(y) && x != y {
        let k = choose|k: int| 0 <= k < s.push(x).len() && s.push(x)[k] == y;
        assert(s[k] == y);
    }
}

/// A `mut` closure captures by reference exactly the mutable locals that it uses and
/// that are not on the heap.
pub proof fn law_changed_captures_are_inline(
    e: Env,
    st: St,
    counts: Seq<(LocalId, usize)>,
    i: int,
    acc: Seq<LocalId>,
    local: LocalId,
)
    requires
        0 <= i <= counts.len(),
    ensures
        captured_mutably(e, st, counts, i, acc).contains(local) <==> acc.contains(local) || (st.locals.get(local) matches Some(
            (t, mutable),
        ) && mutable && !(kind_of_alloc(t, e.sc.defs()) is Heap) && exists|k: int|
            #![trigger counts[k]]
            i <= k < counts.len() && counts[k].0 == local),
    decreases counts.len() - i,
{
    if i < counts.len() {
        let captured = match st.locals.get(counts[i].0) {
            Some((t, mutable)) => mutable && !(kind_of_alloc(t, e.sc.defs()) is Heap),
            None => false,
        };
        let acc1 = if captured {
            acc.push(counts[i].0)
        } else {
            acc
        };
        law_changed_captures_are_inline(e, st, counts, i + 1, acc1, local);
        if captured {
            lemma_pushed(acc, counts[i].0, local);
        }
    }
}

/// What is spawned captures exactly the locals that it uses.
pub proof fn law_captured_locals_are_used(st: St, counts: Seq<(LocalId, usize)>, i: int, acc: Seq<LocalId>, local: LocalId)
    requires
        0 <= i <= counts.len(),
    ensures
        captured_locals(st, counts, i, acc).contains(local) <==> acc.contains(local) || (st.locals.contains_key(local)
            && exists|k: int| #![trigger counts[k]] i <= k < counts.len() && counts[k].0 == local),
    decreases counts.len() - i,
{
    if i < counts.len() {
        let captured = st.locals.contains_key(counts[i].0);
        let acc1 = if captured {
            acc.push(counts[i].0)
        } else {
            acc
        };
        law_captured_locals_are_used(st, counts, i + 1, acc1, local);
        if captured {
            lemma_pushed(acc, counts[i].0, local);
        }
    }
}

/// What a closure captures is noted under it: the references that its body uses, and
/// for a `mut` closure the locals that it changes.
pub proof fn law_captures_are_noted(e: Env, st: St, id: NodeId, mut_capture: bool, body: Expr)
    ensures
        ({
            let after = captures_recorded(e, st, id, mut_capture, body);
            let counts = counts_in(e, body);
            &&& after.closure_uses.get(id) == Some(captured_references(st, counts, 0, Seq::empty()))
            &&& mut_capture ==> after.closure_mut_captures.get(id) == Some(
                captured_mutably(e, st, counts, 0, Seq::empty()),
            )
            &&& !mut_capture ==> after.closure_mut_captures == st.closure_mut_captures
            &&& after.deferred.len() == st.deferred.len() + 1
            &&& after.diags == st.diags
            &&& after.locals == st.locals
        }),
{
    reveal(captures_recorded);
}

proof fn lemma_closure_params(e: Env, st: St, ps: Seq<Param>, i: int, acc: Seq<Ty>)
    requires
        0 <= i <= ps.len(),
    ensures
        ({
            let (after, ts) = closure_params(e, st, ps, i, acc);
            &&& ts.len() == acc.len() + ps.len() - i
            &&& forall|k: int| #![trigger ts[k]] 0 <= k < acc.len() ==> ts[k] == acc[k]
            &&& forall|k: int| #![trigger ps[k]] i <= k < ps.len() ==> ts[acc.len() + k - i] == type_of(e.sc, ps[k].ty)
        }),
    decreases ps.len() - i,
{
    if i < ps.len() {
        let (t, st1) = st.lowered(e.sc, ps[i].ty);
        crate::written::law_types_do_not_depend_on_errors(e.sc, ps[i].ty, Seq::empty(), st.diags);
        lemma_closure_params(e, st1, ps, i + 1, acc.push(t));
        let (after, ts) = closure_params(e, st, ps, i, acc);
        assert(ts[acc.len() as int] == acc.push(t)[acc.len() as int]);
        assert forall|k: int| #![trigger ts[k]] 0 <= k < acc.len() implies ts[k] == acc[k] by {
            assert(acc.push(t)[k] == acc[k]);
        }
    }
}

/// A closure is a function from the declared types of its parameters to the type of
/// its body. It is no part of the loop that it stands in.
pub proof fn law_closures_are_functions(e: Env, st: St, id: NodeId, mut_capture: bool, params: Seq<Param>, body: Expr, expected: Option<Ty>)
    ensures
        closure(e, st, id, mut_capture, params, body, expected).1 matches Ty::Function(ts, ret) && {
            let (st1, us) = closure_params(e, st, params, 0, Seq::empty());
            let st2 = closure_bound(e, captures_recorded(e, st1, id, mut_capture, body), params, ts, 0);
            let (st3, t) = expr(e, St { in_loop: false, ..st2 }, body, closure_expected(expected, ts));
            &&& *ret == t
            &&& ts.len() == params.len()
            &&& forall|k: int| #![trigger ts[k]] 0 <= k < ts.len() ==> ts[k] == type_of(e.sc, params[k].ty)
            &&& no_error(st, closure(e, st, id, mut_capture, params, body, expected).0) <==> no_error(st, st1) && no_error(
                st1,
                st3,
            )
        },
{
    lemma_closure_params(e, st, params, 0, Seq::empty());
    let (st1, ts) = closure_params(e, st, params, 0, Seq::empty());
    let st2 = closure_bound(e, captures_recorded(e, st1, id, mut_capture, body), params, ts, 0);
    let (st3, ret) = expr(e, St { in_loop: false, ..st2 }, body, closure_expected(expected, ts));
    run_expr(e, St { in_loop: false, ..st2 }, body, closure_expected(expected, ts));
    assert(grows(st, st1));
    assert(grows(st1, st2));
    reveal(closure_done);
}

/// The result of a closure is expected to be that of the expected function, if the
/// closure's parameters go with it.
pub proof fn law_expected_closure_results(expected: Option<Ty>, ts: Seq<Ty>)
    ensures
        closure_expected(expected, ts) == match expected {
            Some(Ty::Function(ps, r)) => if ts.len() == ps.len() && forall|k: int|
                #![trigger ts[k]]
                0 <= k < ts.len() ==> fits(ts[k], ps[k]) {
                Some(*r)
            } else {
                None
            },
            _ => None,
        },
{
    reveal(closure_expected);
}

/// What a closure returns of a reference parameter is known by the parameter's place;
/// anything else it returns it has captured.
pub proof fn law_closure_origins(names: crate::names::ResolvedNames, ps: Seq<Param>, o: BorrowOrigin)
    requires
        ps.len() <= usize::MAX,
    ensures
        match closure_origin(names, ps, o) {
            ClosureOrigin::Parameter(i) => i < ps.len() && (o matches BorrowOrigin::Parameter(local) && names.local(
                ps[i as int].id,
            ) == Some(local)),
            ClosureOrigin::Captured(c) => c == o && (o matches BorrowOrigin::Parameter(local) ==> forall|k: int|
                #![trigger ps[k]]
                0 <= k < ps.len() ==> names.local(ps[k].id) != Some(local)),
        },
{
    if let BorrowOrigin::Parameter(local) = o {
        lemma_param_of(names, ps, local, 0);
    }
}

proof fn lemma_param_of(names: crate::names::ResolvedNames, ps: Seq<Param>, local: LocalId, i: int)
    requires
        0 <= i <= ps.len(),
        ps.len() <= usize::MAX,
    ensures
        match crate::check::rules::param_of(names, ps, local, i) {
            Some(k) => k < ps.len() && names.local(ps[k as int].id) == Some(local),
            None => forall|k: int| #![trigger ps[k]] i <= k < ps.len() ==> names.local(ps[k].id) != Some(local),
        },
    decreases ps.len() - i,
{
    if i < ps.len() && names.local(ps[i].id) != Some(local) {
        lemma_param_of(names, ps, local, i + 1);
    }
}

/// A local that is bound to a closure is called as that closure: what the closure
/// returns, and the references that it uses, are the local's.
pub proof fn law_bound_closures_are_remembered(st: St, local: LocalId, value: NodeId)
    ensures
        ({
            let after = callable_bound(st, local, value);
            &&& st.closure_origins.contains_key(value) ==> after.callable_origins.get(local) == Some(
                st.closure_origins[value],
            )
            &&& st.closure_uses.contains_key(value) ==> after.callable_uses.get(local) == Some(st.closure_uses[value])
            &&& after.diags == st.diags
            &&& after.locals == st.locals
            &&& after.borrows == st.borrows
        }),
{
    reveal(callable_bound);
    if st.closure_uses.contains_key(value) {
        let st1 = match st.closure_origins.get(value) {
            Some(os) => St { callable_origins: st.callable_origins.insert(local, os), ..st },
            None => st,
        };
        lemma_unpinned(st1, st.closure_uses[value], 0);
    }
}

proof fn lemma_unpinned(st: St, captures: Seq<(LocalId, usize)>, i: int)
    ensures
        ({
            let after = crate::check::rules::unpinned(st, captures, i);
            after == (St { pinned: after.pinned, ..st })
        }),
    decreases captures.len() - i,
{
    if 0 <= i < captures.len() {
        lemma_unpinned(St { pinned: crate::datum::drop_one(st.pinned, captures[i].0), ..st }, captures, i + 1);
    }
}

/// A `let` is checked without an error exactly if the value has the declared type or,
/// without one, a type that is known, and a reference that was not lent by the `let`
/// itself has one origin. The local is then of the declared type, or the value's, and
/// can be changed if it is declared so or is an exclusive reference.
pub proof fn law_let_binds_its_value(
    e: Env,
    st: St,
    l: LetStmt,
    declared: Option<Ty>,
    stored: crate::check::rules::Stored,
    value: Ty,
)
    requires
        !st.silent,
    ensures
        ({
            let (after, r) = let_bound(e, st, l, declared, stored, value);
            let ty = match declared {
                Some(d) => d,
                None => value,
            };
            &&& no_error(st, after) <==> {
                &&& declared matches Some(d) ==> fits(value, d)
                &&& declared is None ==> value is Error || !has_error(value)
                &&& stored is None && (ty is Ref || ty is MutRef) ==> reference_origins(e, st, l.value).len() == 1
            }
            &&& after.local_types.get(l.id) == Some(ty)
            &&& e.sc.names.local(l.id) matches Some(local) ==> after.locals.get(local) == Some(
                (ty, l.mutable || ty is MutRef),
            )
            &&& r is Never <==> value is Never
            &&& !(value is Never) ==> crate::check::typing::is_unit(r)
        }),
{
    reveal(let_bound);
    reveal(inferred_origin);
    reveal(St::bound);
    reveal(St::fail);
    reveal(origin_bound);
    reveal(St::borrowed);
    let (st1, ty) = match declared {
        Some(d) => (st.fail_if(!fits(value, d), l.value.span, crate::check::facts::mismatch(e, d, value)), d),
        None => (st, value),
    };
    let st2 = st1.fail_if(
        declared is None && !(ty is Error) && has_error(ty),
        l.value.span,
        "cannot infer all generic type arguments from this initializer; add a type annotation"@,
    );
    let (st3, inferred) = if stored is None && (ty is Ref || ty is MutRef) {
        inferred_origin(e, st2, l.value)
    } else {
        (st2, None)
    };
    let st4 = st3.bound(e.sc.names, l.id, ty, l.mutable || ty is MutRef);
    let st5 = match e.sc.names.local(l.id) {
        Some(local) => callable_bound(st4, local, l.value.id),
        None => st4,
    };
    if let Some(local) = e.sc.names.local(l.id) {
        lemma_callable_bound(st4, local, l.value.id);
    }
    let st6 = match crate::check::rules::stored_origin(stored, inferred, value is MutRef) {
        Some((o, m)) => origin_bound(e, st5, l.id, o, m, l.value.span),
        None => st5,
    };
    lemma_flushed(st6);
}

proof fn lemma_callable_bound(st: St, local: LocalId, value: NodeId)
    ensures
        callable_bound(st, local, value).diags == st.diags,
        callable_bound(st, local, value).locals == st.locals,
        callable_bound(st, local, value).local_types == st.local_types,
{
    reveal(callable_bound);
    if st.closure_uses.contains_key(value) {
        let st1 = match st.closure_origins.get(value) {
            Some(os) => St { callable_origins: st.callable_origins.insert(local, os), ..st },
            None => st,
        };
        lemma_unpinned(st1, st.closure_uses[value], 0);
    }
}

/// Whether two states agree on what was found: the errors, the types and the locals.
pub open spec fn same_results(a: St, b: St) -> bool {
    &&& a.diags == b.diags
    &&& a.locals == b.locals
    &&& a.local_types == b.local_types
    &&& a.expr_types == b.expr_types
    &&& a.moved == b.moved
}

proof fn lemma_captures_released(st: St, captures: Seq<(LocalId, usize)>, i: int)
    ensures
        same_results(st, st.captures_released(captures, i)),
    decreases captures.len() - i,
{
    if 0 <= i < captures.len() {
        let reference = captures[i].0;
        let s = match st.remaining.get(reference) {
            None => st,
            Some(n) => {
                let n1 = crate::uses::less(n, captures[i].1);
                let s1 = St { remaining: st.remaining.insert(reference, n1), ..st };
                if n1 == 0 {
                    (St { pinned: crate::datum::drop_one(s1.pinned, reference), ..s1 }).reference_released(reference)
                } else {
                    s1
                }
            },
        };
        lemma_captures_released(s, captures, i + 1);
    }
}

proof fn lemma_callables_released(st: St, locals: Seq<LocalId>, i: int)
    ensures
        same_results(st, st.callables_released(locals, i)),
    decreases locals.len() - i,
{
    if 0 <= i < locals.len() {
        if let Some(captures) = st.callable_uses.get(locals[i]) {
            lemma_captures_released(St { callable_uses: st.callable_uses.remove(locals[i]), ..st }, captures, 0);
        }
        lemma_callables_released(st.callable_released(locals[i]), locals, i + 1);
    }
}

proof fn lemma_references_released(st: St, locals: Seq<LocalId>, i: int)
    ensures
        same_results(st, st.references_released(locals, i)),
    decreases locals.len() - i,
{
    if 0 <= i < locals.len() {
        lemma_references_released(st.reference_released(locals[i]), locals, i + 1);
    }
}

proof fn lemma_flushed(st: St)
    ensures
        same_results(st, st.flushed()),
{
    reveal(St::flushed);
    let s0 = St { pending_callables: Seq::empty(), ..st };
    lemma_callables_released(s0, st.pending_callables, 0);
    let s = s0.callables_released(st.pending_callables, 0);
    lemma_references_released(St { pending_references: Seq::empty(), ..s }, s.pending_references, 0);
}

/// Ending borrows changes nothing that was found: no error, no type, no local, and
/// nothing that was moved.
pub proof fn law_ended_borrows_change_no_results(st: St)
    ensures
        same_results(st, st.flushed()),
{
    lemma_flushed(st);
}

} // verus!
