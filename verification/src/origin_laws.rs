//! Laws of the summaries of returned references.
use crate::ast::{
    arms_size, block_size, expr_size, lemma_exprs_size, stmts_size, Block, Expr, ExprKind, FnDecl, ImplBlock, Item,
    MatchArm, Param, Stmt,
};
use crate::ids::{DefId, LocalId};
use crate::impls::MethodKey;
use crate::lower::Sc;
use crate::names::{Resolution, ResolvedNames};
use crate::origins::{
    arms_origins, arms_return, block_returns, body_summary, call_origins, called, cleared_from, covers,
    expr_origins, expr_returns, fn_from, fn_of, in_range, initial_origins, joined, known_of, lemma_join,
    lemma_ordered, lemma_rounds_end, next_round, ordered, ordered_from, param_origins, regarded, room, settled,
    stmts_return, tail_origins, with_body_origins, with_concrete_origins, with_fn_summaries, with_impls_from,
    with_method_summaries, with_methods_from, Known, LocalOrigins, Origins,
};
use crate::owners::concrete_args;
use crate::sig::{domain_of_self, specialized, Methods, ReturnOrigin, Sig, Sigs};
use crate::ty::Ty;
use vstd::prelude::*;

verus! {

// ---------------------------------------------------------------------
// More known gives more origins
// ---------------------------------------------------------------------

/// The origins under a key; none if it is missing.
pub open spec fn under<K>(m: Map<K, Origins>, k: K) -> Origins {
    match m.get(k) {
        Some(o) => o,
        None => Seq::empty(),
    }
}

/// Whether every local has in the first map at least its origins in the
/// second.
pub open spec fn env_covers(a: LocalOrigins, b: LocalOrigins) -> bool {
    forall|l: LocalId| covers(#[trigger] under(a, l), under(b, l))
}

/// Whether two are of the same names, and every function has in the first at
/// least its origins in the second.
pub open spec fn known_covers(a: Known, b: Known) -> bool {
    &&& a.names == b.names
    &&& forall|id: DefId| covers(#[trigger] under(a.summaries, id), under(b.summaries, id))
}

/// Joining keeps the order.
proof fn lemma_joins_cover(a: Origins, b: Origins, x: Origins, y: Origins)
    requires
        covers(a, x),
        covers(b, y),
    ensures
        covers(joined(a, b, 0), joined(x, y, 0)),
{
    assert forall|o: ReturnOrigin| joined(x, y, 0).contains(o) implies joined(a, b, 0).contains(o) by {
        lemma_join(a, b, o);
        lemma_join(x, y, o);
    }
}

/// With more known of the locals and of the functions, an expression's value
/// has all the origins that it had.
pub proof fn law_origins_are_monotone(a: Known, b: Known, x: Expr, p: LocalOrigins, q: LocalOrigins)
    requires
        known_covers(a, b),
        env_covers(p, q),
    ensures
        covers(expr_origins(a, x, p), expr_origins(b, x, q)),
    decreases expr_size(x), 2nat,
{
    match x.kind {
        ExprKind::Path(path) => {
            if let Some(res) = a.names.path(path.id) {
                if let Resolution::Local(local) = res.base {
                    assert(expr_origins(a, x, p) == under(p, local));
                    assert(expr_origins(b, x, q) == under(q, local));
                }
            }
        },
        ExprKind::Call { callee, generic_args: _, args } => {
            assert(called(a, *callee) == called(b, *callee));
            if let Some(id) = called(b, *callee) {
                let m = under(a.summaries, id);
                let n = under(b.summaries, id);
                assert(covers(m, n));
                assert forall|o: ReturnOrigin| call_origins(b, args@, n, 0, Seq::empty(), q).contains(
                    o,
                ) implies call_origins(a, args@, m, 0, Seq::empty(), p).contains(o) by {
                    call_gives(b, args@, n, 0, Seq::empty(), q, o);
                    let i = choose|i: int| 0 <= i < n.len() && #[trigger] arg_has(b, args@, n[i], q, o);
                    assert(n.contains(n[i]));
                    assert(m.contains(n[i]));
                    let j = choose|j: int| 0 <= j < m.len() && m[j] == n[i];
                    let k = n[i]->Parameter_0;
                    lemma_exprs_size(args@, 0, k as int);
                    law_origins_are_monotone(a, b, args@[k as int], p, q);
                    assert(arg_has(a, args@, m[j], p, o));
                    call_has(a, args@, m, 0, Seq::empty(), p, o, j);
                }
                assert(expr_origins(a, x, p) == call_origins(a, args@, m, 0, Seq::empty(), p));
                assert(expr_origins(b, x, q) == call_origins(b, args@, n, 0, Seq::empty(), q));
            }
        },
        ExprKind::If { cond: _, then_branch, else_branch } => {
            tails_are_monotone(a, b, then_branch, p, q);
            if let Some(e) = else_branch {
                law_origins_are_monotone(a, b, *e, p, q);
                lemma_joins_cover(
                    tail_origins(a, then_branch, p),
                    expr_origins(a, *e, p),
                    tail_origins(b, then_branch, q),
                    expr_origins(b, *e, q),
                );
            }
        },
        ExprKind::Match { scrutinee: _, arms } => {
            arms_are_monotone(a, b, arms@, 0, Seq::empty(), Seq::empty(), p, q);
        },
        ExprKind::Block(block) => {
            tails_are_monotone(a, b, block, p, q);
        },
        _ => {},
    }
}

proof fn tails_are_monotone(a: Known, b: Known, block: Block, p: LocalOrigins, q: LocalOrigins)
    requires
        known_covers(a, b),
        env_covers(p, q),
    ensures
        covers(tail_origins(a, block, p), tail_origins(b, block, q)),
    decreases block_size(block), 0nat,
{
    if let Some(tail) = block.tail {
        law_origins_are_monotone(a, b, *tail, p, q);
    }
}

proof fn arms_are_monotone(
    a: Known,
    b: Known,
    arms: Seq<MatchArm>,
    i: int,
    x: Origins,
    y: Origins,
    p: LocalOrigins,
    q: LocalOrigins,
)
    requires
        known_covers(a, b),
        env_covers(p, q),
        covers(x, y),
    ensures
        covers(arms_origins(a, arms, i, x, p), arms_origins(b, arms, i, y, q)),
    decreases arms_size(arms, i), 1nat,
{
    if 0 <= i < arms.len() {
        let u = expr_origins(a, arms[i].body, p);
        let v = expr_origins(b, arms[i].body, q);
        law_origins_are_monotone(a, b, arms[i].body, p, q);
        lemma_joins_cover(x, u, y, v);
        arms_are_monotone(a, b, arms, i + 1, joined(x, u, 0), joined(y, v, 0), p, q);
    }
}

/// Whether the argument that an entry of a summary names has an origin.
pub open spec fn arg_has(k: Known, args: Seq<Expr>, entry: ReturnOrigin, env: LocalOrigins, o: ReturnOrigin) -> bool {
    match entry {
        ReturnOrigin::Parameter(p) => p < args.len() && expr_origins(k, args[p as int], env).contains(o),
        ReturnOrigin::SelfValue => false,
    }
}

/// An origin of a call's value is one of an argument that the summary names.
proof fn call_gives(
    k: Known,
    args: Seq<Expr>,
    summary: Origins,
    i: int,
    acc: Origins,
    env: LocalOrigins,
    o: ReturnOrigin,
)
    requires
        0 <= i,
        call_origins(k, args, summary, i, acc, env).contains(o),
    ensures
        acc.contains(o) || exists|j: int|
            i <= j < summary.len() && #[trigger] arg_has(k, args, summary[j], env, o),
    decreases summary.len() - i,
{
    if i < summary.len() {
        let acc1 = match summary[i] {
            ReturnOrigin::Parameter(p) => if p < args.len() {
                joined(acc, expr_origins(k, args[p as int], env), 0)
            } else {
                acc
            },
            ReturnOrigin::SelfValue => acc,
        };
        if let ReturnOrigin::Parameter(p) = summary[i] {
            if p < args.len() {
                lemma_join(acc, expr_origins(k, args[p as int], env), o);
            }
        }
        call_gives(k, args, summary, i + 1, acc1, env, o);
        if acc1.contains(o) && !acc.contains(o) {
            assert(arg_has(k, args, summary[i], env, o));
        }
    }
}

/// Whatever an argument that the summary names has, the call's value has.
proof fn call_has(
    k: Known,
    args: Seq<Expr>,
    summary: Origins,
    i: int,
    acc: Origins,
    env: LocalOrigins,
    o: ReturnOrigin,
    j: int,
)
    requires
        0 <= i,
        acc.contains(o) || i <= j < summary.len() && arg_has(k, args, summary[j], env, o),
    ensures
        call_origins(k, args, summary, i, acc, env).contains(o),
    decreases summary.len() - i,
{
    if i < summary.len() {
        let acc1 = match summary[i] {
            ReturnOrigin::Parameter(p) => if p < args.len() {
                joined(acc, expr_origins(k, args[p as int], env), 0)
            } else {
                acc
            },
            ReturnOrigin::SelfValue => acc,
        };
        if let ReturnOrigin::Parameter(p) = summary[i] {
            if p < args.len() {
                lemma_join(acc, expr_origins(k, args[p as int], env), o);
            }
        }
        call_has(k, args, summary, i + 1, acc1, env, o, j);
    }
}

/// With more known of the locals and of the functions, a block returns all
/// the origins that it did.
pub proof fn law_returns_are_monotone(a: Known, b: Known, block: Block, p: LocalOrigins, q: LocalOrigins)
    requires
        known_covers(a, b),
        env_covers(p, q),
    ensures
        covers(block_returns(a, block, p), block_returns(b, block, q)),
    decreases block_size(block), 0nat,
{
    stmts_are_monotone(a, b, block.stmts@, 0, Seq::empty(), Seq::empty(), p, q);
    let (x, p1) = stmts_return(a, block.stmts@, 0, Seq::empty(), p);
    let (y, q1) = stmts_return(b, block.stmts@, 0, Seq::empty(), q);
    if let Some(tail) = block.tail {
        inner_returns_are_monotone(a, b, *tail, p1, q1);
        lemma_joins_cover(x, expr_returns(a, *tail, p1), y, expr_returns(b, *tail, q1));
    }
}

proof fn stmts_are_monotone(
    a: Known,
    b: Known,
    s: Seq<Stmt>,
    i: int,
    x: Origins,
    y: Origins,
    p: LocalOrigins,
    q: LocalOrigins,
)
    requires
        known_covers(a, b),
        env_covers(p, q),
        covers(x, y),
    ensures
        covers(stmts_return(a, s, i, x, p).0, stmts_return(b, s, i, y, q).0),
        env_covers(stmts_return(a, s, i, x, p).1, stmts_return(b, s, i, y, q).1),
    decreases stmts_size(s, i), 1nat,
{
    if 0 <= i < s.len() {
        let value = match s[i] {
            Stmt::Let(l) => l.value,
            Stmt::Expr(e) => e,
        };
        inner_returns_are_monotone(a, b, value, p, q);
        law_origins_are_monotone(a, b, value, p, q);
        let x1 = joined(x, expr_returns(a, value, p), 0);
        let y1 = joined(y, expr_returns(b, value, q), 0);
        lemma_joins_cover(x, expr_returns(a, value, p), y, expr_returns(b, value, q));
        match s[i] {
            Stmt::Let(l) => {
                let p1 = match a.names.local(l.id) {
                    Some(local) => p.insert(local, expr_origins(a, l.value, p)),
                    None => p,
                };
                let q1 = match b.names.local(l.id) {
                    Some(local) => q.insert(local, expr_origins(b, l.value, q)),
                    None => q,
                };
                assert forall|l: LocalId| covers(#[trigger] under(p1, l), under(q1, l)) by {
                    assert(covers(under(p, l), under(q, l)));
                }
                stmts_are_monotone(a, b, s, i + 1, x1, y1, p1, q1);
            },
            Stmt::Expr(_) => {
                stmts_are_monotone(a, b, s, i + 1, x1, y1, p, q);
            },
        }
    }
}

proof fn inner_returns_are_monotone(a: Known, b: Known, x: Expr, p: LocalOrigins, q: LocalOrigins)
    requires
        known_covers(a, b),
        env_covers(p, q),
    ensures
        covers(expr_returns(a, x, p), expr_returns(b, x, q)),
    decreases expr_size(x), 2nat,
{
    match x.kind {
        ExprKind::Return(v) => {
            if let Some(value) = v {
                law_origins_are_monotone(a, b, *value, p, q);
            }
        },
        ExprKind::If { cond: _, then_branch, else_branch } => {
            law_returns_are_monotone(a, b, then_branch, p, q);
            if let Some(e) = else_branch {
                inner_returns_are_monotone(a, b, *e, p, q);
                lemma_joins_cover(
                    block_returns(a, then_branch, p),
                    expr_returns(a, *e, p),
                    block_returns(b, then_branch, q),
                    expr_returns(b, *e, q),
                );
            }
        },
        ExprKind::Match { scrutinee: _, arms } => {
            arm_returns_are_monotone(a, b, arms@, 0, Seq::empty(), Seq::empty(), p, q);
        },
        ExprKind::Block(block) => {
            law_returns_are_monotone(a, b, block, p, q);
        },
        ExprKind::Loop { body } => {
            law_returns_are_monotone(a, b, body, p, q);
        },
        ExprKind::While { cond: _, body } => {
            law_returns_are_monotone(a, b, body, p, q);
        },
        ExprKind::ForIn { pattern: _, iter: _, body } => {
            law_returns_are_monotone(a, b, body, p, q);
        },
        _ => {},
    }
}

proof fn arm_returns_are_monotone(
    a: Known,
    b: Known,
    arms: Seq<MatchArm>,
    i: int,
    x: Origins,
    y: Origins,
    p: LocalOrigins,
    q: LocalOrigins,
)
    requires
        known_covers(a, b),
        env_covers(p, q),
        covers(x, y),
    ensures
        covers(arms_return(a, arms, i, x, p), arms_return(b, arms, i, y, q)),
    decreases arms_size(arms, i), 1nat,
{
    if 0 <= i < arms.len() {
        let u = expr_returns(a, arms[i].body, p);
        let v = expr_returns(b, arms[i].body, q);
        inner_returns_are_monotone(a, b, arms[i].body, p, q);
        lemma_joins_cover(x, u, y, v);
        arm_returns_are_monotone(a, b, arms, i + 1, joined(x, u, 0), joined(y, v, 0), p, q);
    }
}

// ---------------------------------------------------------------------
// Origins come from the locals
// ---------------------------------------------------------------------

/// Whether no local has this origin.
pub open spec fn nowhere(env: LocalOrigins, o: ReturnOrigin) -> bool {
    forall|l: LocalId| #![trigger env.contains_key(l)] env.contains_key(l) ==> !env[l].contains(o)
}

/// An expression's value has only origins that a local has.
pub proof fn law_origins_are_inherited(k: Known, x: Expr, env: LocalOrigins, o: ReturnOrigin)
    requires
        nowhere(env, o),
    ensures
        !expr_origins(k, x, env).contains(o),
    decreases expr_size(x), 2nat,
{
    match x.kind {
        ExprKind::Path(path) => {
            if let Some(res) = k.names.path(path.id) {
                if let Resolution::Local(local) = res.base {
                    assert(env.contains_key(local) ==> !env[local].contains(o));
                }
            }
        },
        ExprKind::Call { callee, generic_args: _, args } => {
            if let Some(id) = called(k, *callee) {
                if k.summaries.contains_key(id) {
                    let n = k.summaries[id];
                    if call_origins(k, args@, n, 0, Seq::empty(), env).contains(o) {
                        call_gives(k, args@, n, 0, Seq::empty(), env, o);
                        let i = choose|i: int| 0 <= i < n.len() && #[trigger] arg_has(k, args@, n[i], env, o);
                        let p = n[i]->Parameter_0;
                        lemma_exprs_size(args@, 0, p as int);
                        law_origins_are_inherited(k, args@[p as int], env, o);
                    }
                }
            }
        },
        ExprKind::If { cond: _, then_branch, else_branch } => {
            tails_are_inherited(k, then_branch, env, o);
            if let Some(e) = else_branch {
                law_origins_are_inherited(k, *e, env, o);
                lemma_join(tail_origins(k, then_branch, env), expr_origins(k, *e, env), o);
            }
        },
        ExprKind::Match { scrutinee: _, arms } => {
            arms_are_inherited(k, arms@, 0, Seq::empty(), env, o);
        },
        ExprKind::Block(block) => {
            tails_are_inherited(k, block, env, o);
        },
        _ => {},
    }
}

proof fn tails_are_inherited(k: Known, block: Block, env: LocalOrigins, o: ReturnOrigin)
    requires
        nowhere(env, o),
    ensures
        !tail_origins(k, block, env).contains(o),
    decreases block_size(block), 0nat,
{
    if let Some(tail) = block.tail {
        law_origins_are_inherited(k, *tail, env, o);
    }
}

proof fn arms_are_inherited(
    k: Known,
    arms: Seq<MatchArm>,
    i: int,
    acc: Origins,
    env: LocalOrigins,
    o: ReturnOrigin,
)
    requires
        nowhere(env, o),
        !acc.contains(o),
    ensures
        !arms_origins(k, arms, i, acc, env).contains(o),
    decreases arms_size(arms, i), 1nat,
{
    if 0 <= i < arms.len() {
        let u = expr_origins(k, arms[i].body, env);
        law_origins_are_inherited(k, arms[i].body, env, o);
        lemma_join(acc, u, o);
        arms_are_inherited(k, arms, i + 1, joined(acc, u, 0), env, o);
    }
}

/// A block returns only origins that a local has at its start.
pub proof fn law_returns_are_inherited(k: Known, block: Block, env: LocalOrigins, o: ReturnOrigin)
    requires
        nowhere(env, o),
    ensures
        !block_returns(k, block, env).contains(o),
    decreases block_size(block), 0nat,
{
    stmts_are_inherited(k, block.stmts@, 0, Seq::empty(), env, o);
    let (acc, env1) = stmts_return(k, block.stmts@, 0, Seq::empty(), env);
    if let Some(tail) = block.tail {
        inner_returns_are_inherited(k, *tail, env1, o);
        lemma_join(acc, expr_returns(k, *tail, env1), o);
    }
}

proof fn stmts_are_inherited(k: Known, s: Seq<Stmt>, i: int, acc: Origins, env: LocalOrigins, o: ReturnOrigin)
    requires
        nowhere(env, o),
        !acc.contains(o),
    ensures
        !stmts_return(k, s, i, acc, env).0.contains(o),
        nowhere(stmts_return(k, s, i, acc, env).1, o),
    decreases stmts_size(s, i), 1nat,
{
    if 0 <= i < s.len() {
        let value = match s[i] {
            Stmt::Let(l) => l.value,
            Stmt::Expr(e) => e,
        };
        inner_returns_are_inherited(k, value, env, o);
        law_origins_are_inherited(k, value, env, o);
        let acc1 = joined(acc, expr_returns(k, value, env), 0);
        lemma_join(acc, expr_returns(k, value, env), o);
        match s[i] {
            Stmt::Let(l) => {
                let env1 = match k.names.local(l.id) {
                    Some(local) => env.insert(local, expr_origins(k, l.value, env)),
                    None => env,
                };
                assert(nowhere(env1, o));
                stmts_are_inherited(k, s, i + 1, acc1, env1, o);
            },
            Stmt::Expr(_) => {
                stmts_are_inherited(k, s, i + 1, acc1, env, o);
            },
        }
    }
}

proof fn inner_returns_are_inherited(k: Known, x: Expr, env: LocalOrigins, o: ReturnOrigin)
    requires
        nowhere(env, o),
    ensures
        !expr_returns(k, x, env).contains(o),
    decreases expr_size(x), 2nat,
{
    match x.kind {
        ExprKind::Return(v) => {
            if let Some(value) = v {
                law_origins_are_inherited(k, *value, env, o);
            }
        },
        ExprKind::If { cond: _, then_branch, else_branch } => {
            law_returns_are_inherited(k, then_branch, env, o);
            if let Some(e) = else_branch {
                inner_returns_are_inherited(k, *e, env, o);
                lemma_join(block_returns(k, then_branch, env), expr_returns(k, *e, env), o);
            }
        },
        ExprKind::Match { scrutinee: _, arms } => {
            arm_returns_are_inherited(k, arms@, 0, Seq::empty(), env, o);
        },
        ExprKind::Block(block) => {
            law_returns_are_inherited(k, block, env, o);
        },
        ExprKind::Loop { body } => {
            law_returns_are_inherited(k, body, env, o);
        },
        ExprKind::While { cond: _, body } => {
            law_returns_are_inherited(k, body, env, o);
        },
        ExprKind::ForIn { pattern: _, iter: _, body } => {
            law_returns_are_inherited(k, body, env, o);
        },
        _ => {},
    }
}

proof fn arm_returns_are_inherited(
    k: Known,
    arms: Seq<MatchArm>,
    i: int,
    acc: Origins,
    env: LocalOrigins,
    o: ReturnOrigin,
)
    requires
        nowhere(env, o),
        !acc.contains(o),
    ensures
        !arms_return(k, arms, i, acc, env).contains(o),
    decreases arms_size(arms, i), 1nat,
{
    if 0 <= i < arms.len() {
        let u = expr_returns(k, arms[i].body, env);
        inner_returns_are_inherited(k, arms[i].body, env, o);
        lemma_join(acc, u, o);
        arm_returns_are_inherited(k, arms, i + 1, joined(acc, u, 0), env, o);
    }
}

// ---------------------------------------------------------------------
// The summaries of functions
// ---------------------------------------------------------------------

/// With more known of the functions, a body's summary has all the origins
/// that it had.
pub proof fn law_summary_is_monotone(a: Known, b: Known, f: FnDecl, with_self: bool)
    requires
        known_covers(a, b),
    ensures
        covers(body_summary(a, f, with_self), body_summary(b, f, with_self)),
{
    if let Some(block) = f.body {
        let env = initial_origins(a.names, f, with_self);
        let n = f.params@.len() as int;
        law_returns_are_monotone(a, b, block, env, env);
        assert forall|o: ReturnOrigin| body_summary(b, f, with_self).contains(o) implies body_summary(
            a,
            f,
            with_self,
        ).contains(o) by {
            lemma_ordered(block_returns(a, block, env), n, o);
            lemma_ordered(block_returns(b, block, env), n, o);
        }
    }
}

proof fn lemma_params_have_no_self(names: ResolvedNames, ps: Seq<Param>, i: int, env: LocalOrigins)
    requires
        0 <= i,
        nowhere(env, ReturnOrigin::SelfValue),
    ensures
        nowhere(param_origins(names, ps, i, env), ReturnOrigin::SelfValue),
    decreases ps.len() - i,
{
    if i < ps.len() {
        let env1 = match names.local(ps[i].id) {
            Some(local) => env.insert(local, seq![ReturnOrigin::Parameter(i as usize)]),
            None => env,
        };
        assert(nowhere(env1, ReturnOrigin::SelfValue));
        lemma_params_have_no_self(names, ps, i + 1, env1);
    }
}

/// Where an origin stands in the fixed order.
pub open spec fn rank(o: ReturnOrigin) -> int {
    match o {
        ReturnOrigin::SelfValue => -1,
        ReturnOrigin::Parameter(p) => p as int,
    }
}

/// Whether each origin of a list stands behind the one before.
pub open spec fn increasing(o: Origins) -> bool {
    forall|i: int, j: int| #![trigger o[i], o[j]] 0 <= i < j < o.len() ==> rank(o[i]) < rank(o[j])
}

proof fn lemma_ordered_increases(o: Origins, i: int, n: int, acc: Origins)
    requires
        0 <= i,
        increasing(acc),
        forall|j: int| #![trigger acc[j]] 0 <= j < acc.len() ==> rank(acc[j]) < i,
    ensures
        increasing(ordered_from(o, i, n, acc)),
    decreases n - i,
{
    if i < n && i <= usize::MAX {
        let p = ReturnOrigin::Parameter(i as usize);
        let acc1 = if o.contains(p) {
            acc.push(p)
        } else {
            acc
        };
        lemma_ordered_increases(o, i + 1, n, acc1);
    }
}

/// A body's summary is in order and without repetition, and names only
/// parameters of the function, or the receiver of a method.
pub proof fn law_summary_is_ordered(k: Known, f: FnDecl, with_self: bool)
    ensures
        increasing(body_summary(k, f, with_self)),
        forall|o: ReturnOrigin|
            #![trigger body_summary(k, f, with_self).contains(o)]
            body_summary(k, f, with_self).contains(o) ==> (match o {
                ReturnOrigin::Parameter(p) => p < f.params@.len(),
                ReturnOrigin::SelfValue => with_self && f.self_param is Some,
            }),
{
    if let Some(block) = f.body {
        let env = initial_origins(k.names, f, with_self);
        let found = block_returns(k, block, env);
        let n = f.params@.len() as int;
        let acc = if found.contains(ReturnOrigin::SelfValue) {
            seq![ReturnOrigin::SelfValue]
        } else {
            Seq::empty()
        };
        lemma_ordered_increases(found, 0, n, acc);
        if !(with_self && f.self_param is Some) {
            assert(nowhere(Map::<LocalId, Origins>::empty(), ReturnOrigin::SelfValue));
            lemma_params_have_no_self(k.names, f.params@, 0, Map::empty());
            law_returns_are_inherited(k, block, env, ReturnOrigin::SelfValue);
        }
        assert forall|o: ReturnOrigin| #![trigger body_summary(k, f, with_self).contains(o)] body_summary(
            k,
            f,
            with_self,
        ).contains(o) implies (match o {
            ReturnOrigin::Parameter(p) => p < f.params@.len(),
            ReturnOrigin::SelfValue => with_self && f.self_param is Some,
        }) by {
            lemma_ordered(found, n, o);
        }
    }
}

proof fn lemma_same_order_from(a: Origins, b: Origins, i: int, n: int, acc: Origins)
    requires
        0 <= i,
        forall|o: ReturnOrigin| #![trigger a.contains(o)] in_range(o, n) ==> a.contains(o) == b.contains(o),
    ensures
        ordered_from(a, i, n, acc) == ordered_from(b, i, n, acc),
    decreases n - i,
{
    if i < n && i <= usize::MAX {
        let p = ReturnOrigin::Parameter(i as usize);
        assert(in_range(p, n));
        assert(a.contains(p) == b.contains(p));
        lemma_same_order_from(
            a,
            b,
            i + 1,
            n,
            if a.contains(p) {
                acc.push(p)
            } else {
                acc
            },
        );
    }
}

/// Two lists of the same origins are the same in order.
proof fn lemma_same_order(a: Origins, b: Origins, n: int)
    requires
        forall|o: ReturnOrigin| #![trigger a.contains(o)] in_range(o, n) ==> a.contains(o) == b.contains(o),
    ensures
        ordered(a, n) == ordered(b, n),
{
    assert(in_range(ReturnOrigin::SelfValue, n));
    assert(a.contains(ReturnOrigin::SelfValue) == b.contains(ReturnOrigin::SelfValue));
    let acc = if a.contains(ReturnOrigin::SelfValue) {
        seq![ReturnOrigin::SelfValue]
    } else {
        Seq::empty()
    };
    lemma_same_order_from(a, b, 0, n, acc);
}

/// A body's summary is in order already.
proof fn lemma_summary_order(k: Known, f: FnDecl)
    ensures
        ordered(body_summary(k, f, false), f.params@.len() as int) == body_summary(k, f, false),
{
    let n = f.params@.len() as int;
    let found = match f.body {
        Some(block) => block_returns(k, block, initial_origins(k.names, f, false)),
        None => Seq::empty(),
    };
    let o = body_summary(k, f, false);
    assert forall|x: ReturnOrigin| #![trigger o.contains(x)] in_range(x, n) implies o.contains(x) == found.contains(
        x,
    ) by {
        lemma_ordered(found, n, x);
    }
    lemma_same_order(o, found, n);
    if f.body is None {
        assert forall|x: ReturnOrigin| !ordered(o, n).contains(x) by {
            lemma_ordered(o, n, x);
        }
        if ordered(o, n).len() > 0 {
            assert(ordered(o, n).contains(ordered(o, n)[0]));
        }
        assert(ordered(o, n) =~= o);
    }
}

/// Whether a function returns a reference.
pub open spec fn returns_reference(s: Sigs, id: DefId) -> bool {
    s.fns.contains_key(id) && (s.fns[id].ret is Ref || s.fns[id].ret is MutRef)
}

/// Whether every summary of a function that returns a reference is in order
/// and has only what the function's body returns.
pub open spec fn grounded(sc: Sc, s: Sigs) -> bool {
    forall|id: DefId|
        #![trigger returns_reference(s, id)]
        returns_reference(s, id) ==> (match fn_of(sc, id) {
            Some(f) => {
                &&& ordered(s.fns[id].return_origins, f.params@.len() as int) == s.fns[id].return_origins
                &&& covers(body_summary(known_of(sc, s), f, false), s.fns[id].return_origins)
            },
            None => true,
        })
}

/// A round only adds to what is known.
proof fn lemma_round_adds(sc: Sc, s: Sigs)
    requires
        grounded(sc, s),
    ensures
        known_covers(known_of(sc, next_round(sc, s)), known_of(sc, s)),
        forall|id: DefId|
            #![trigger returns_reference(s, id)]
            returns_reference(s, id) && fn_of(sc, id) is Some ==> regarded(sc, s, id).return_origins == body_summary(
                known_of(sc, s),
                fn_of(sc, id)->0,
                false,
            ),
{
    let t = next_round(sc, s);
    let k = known_of(sc, s);
    assert forall|id: DefId| #![trigger returns_reference(s, id)] returns_reference(s, id) && fn_of(
        sc,
        id,
    ) is Some implies regarded(sc, s, id).return_origins == body_summary(k, fn_of(sc, id)->0, false) by {
        let f = fn_of(sc, id)->0;
        let n = f.params@.len() as int;
        let a = s.fns[id].return_origins;
        let o = body_summary(k, f, false);
        lemma_summary_order(k, f);
        if covers(a, o) {
            assert forall|x: ReturnOrigin| #![trigger a.contains(x)] in_range(x, n) implies a.contains(x) == o.contains(
                x,
            ) by {}
            lemma_same_order(a, o, n);
        } else {
            let j = joined(a, o, 0);
            assert forall|x: ReturnOrigin| #![trigger j.contains(x)] in_range(x, n) implies j.contains(x) == o.contains(
                x,
            ) by {
                lemma_join(a, o, x);
            }
            lemma_same_order(j, o, n);
        }
    }
    assert forall|id: DefId| s.fns.contains_key(id) implies covers(
        #[trigger] t.fns[id].return_origins,
        s.fns[id].return_origins,
    ) by {
        assert(t.fns[id] == regarded(sc, s, id));
        if returns_reference(s, id) && fn_of(sc, id) is Some {
            assert(covers(body_summary(k, fn_of(sc, id)->0, false), s.fns[id].return_origins));
        } else {
            assert(t.fns[id] == s.fns[id]);
        }
    }
    let kt = known_of(sc, t);
    assert forall|id: DefId| covers(#[trigger] under(kt.summaries, id), under(k.summaries, id)) by {
        if s.fns.contains_key(id) {
            assert(covers(t.fns[id].return_origins, s.fns[id].return_origins));
        }
    }
}

proof fn lemma_grounded_stays(sc: Sc, s: Sigs)
    requires
        grounded(sc, s),
    ensures
        grounded(sc, next_round(sc, s)),
{
    let t = next_round(sc, s);
    lemma_round_adds(sc, s);
    assert forall|id: DefId| #![trigger returns_reference(t, id)] returns_reference(t, id) implies (match fn_of(sc, id) {
        Some(f) => {
            &&& ordered(t.fns[id].return_origins, f.params@.len() as int) == t.fns[id].return_origins
            &&& covers(body_summary(known_of(sc, t), f, false), t.fns[id].return_origins)
        },
        None => true,
    }) by {
        if let Some(f) = fn_of(sc, id) {
            assert(returns_reference(s, id));
            lemma_summary_order(known_of(sc, s), f);
            law_summary_is_monotone(known_of(sc, t), known_of(sc, s), f, false);
        }
    }
}

proof fn lemma_start_is_grounded(sc: Sc, s: Sigs)
    ensures
        grounded(sc, cleared_from(sc, s, 0)),
{
    let c = cleared_from(sc, s, 0);
    assert forall|id: DefId| #![trigger returns_reference(c, id)] returns_reference(c, id) implies (match fn_of(sc, id) {
        Some(f) => {
            &&& ordered(c.fns[id].return_origins, f.params@.len() as int) == c.fns[id].return_origins
            &&& covers(body_summary(known_of(sc, c), f, false), c.fns[id].return_origins)
        },
        None => true,
    }) by {
        if let Some(f) = fn_of(sc, id) {
            let n = f.params@.len() as int;
            let a = c.fns[id].return_origins;
            assert forall|x: ReturnOrigin| !ordered(a, n).contains(x) by {
                lemma_ordered(a, n, x);
            }
            if ordered(a, n).len() > 0 {
                assert(ordered(a, n).contains(ordered(a, n)[0]));
            }
            assert(ordered(a, n) =~= a);
        }
    }
}

proof fn lemma_exact(sc: Sc, s: Sigs, id: DefId, f: FnDecl)
    requires
        grounded(sc, s),
        returns_reference(s, id),
        fn_of(sc, id) == Some(f),
    ensures
        settled(sc, s).fns[id].return_origins == body_summary(
            known_of(sc, settled(sc, s)),
            f,
            false,
        ),
    decreases room(sc, s, 0),
{
    let t = next_round(sc, s);
    lemma_round_adds(sc, s);
    if t == s {
        assert(t.fns[id] == regarded(sc, s, id));
    } else {
        lemma_rounds_end(sc, s);
        lemma_grounded_stays(sc, s);
        assert(returns_reference(t, id));
        lemma_exact(sc, t, id, f);
    }
}

/// The summary of a function that returns a reference is what its body
/// returns, given the summaries of all functions: in order, without
/// repetition, and of parameters of the function alone.
pub proof fn law_summary_is_what_the_body_returns(sc: Sc, s: Sigs, id: DefId, f: FnDecl)
    requires
        returns_reference(s, id),
        fn_of(sc, id) == Some(f),
    ensures
        with_fn_summaries(sc, s).fns[id].return_origins == body_summary(
            known_of(sc, with_fn_summaries(sc, s)),
            f,
            false,
        ),
        increasing(with_fn_summaries(sc, s).fns[id].return_origins),
        forall|o: ReturnOrigin|
            #![trigger with_fn_summaries(sc, s).fns[id].return_origins.contains(o)]
            with_fn_summaries(sc, s).fns[id].return_origins.contains(o) ==> (o matches ReturnOrigin::Parameter(p)
                && p < f.params@.len()),
{
    let c = cleared_from(sc, s, 0);
    lemma_start_is_grounded(sc, s);
    assert(returns_reference(c, id));
    lemma_exact(sc, c, id, f);
    law_summary_is_ordered(known_of(sc, with_fn_summaries(sc, s)), f, false);
}

proof fn lemma_rounds_touch_references_alone(sc: Sc, s: Sigs, id: DefId)
    requires
        s.fns.contains_key(id),
    ensures
        settled(sc, s).fns.contains_key(id),
        !returns_reference(s, id) || fn_of(sc, id) is None ==> settled(sc, s).fns[id] == s.fns[id],
        settled(sc, s).fns[id] == (Sig { return_origins: settled(sc, s).fns[id].return_origins, ..s.fns[id] }),
    decreases room(sc, s, 0),
{
    let t = next_round(sc, s);
    if t != s {
        lemma_rounds_end(sc, s);
        lemma_rounds_touch_references_alone(sc, t, id);
    }
}

/// Summaries change nothing of a signature but the origins, and nothing at all
/// of a function that returns no reference or is not one of the module.
pub proof fn law_summaries_touch_references_alone(sc: Sc, s: Sigs, id: DefId)
    requires
        s.fns.contains_key(id),
    ensures
        with_fn_summaries(sc, s).fns.contains_key(id),
        !returns_reference(s, id) || fn_of(sc, id) is None ==> with_fn_summaries(sc, s).fns[id] == s.fns[id],
        with_fn_summaries(sc, s).fns[id] == (Sig {
            return_origins: with_fn_summaries(sc, s).fns[id].return_origins,
            ..s.fns[id]
        }),
{
    lemma_rounds_touch_references_alone(sc, cleared_from(sc, s, 0), id);
}

/// Summaries are for the functions that have signatures, and for no others.
pub proof fn law_summaries_reach_no_others(sc: Sc, s: Sigs)
    ensures
        with_fn_summaries(sc, s).fns.dom() =~= s.fns.dom(),
        with_fn_summaries(sc, s) == (Sigs { fns: with_fn_summaries(sc, s).fns, ..s }),
{
    lemma_rounds_keep_the_rest(sc, cleared_from(sc, s, 0));
}

/// Computing the summaries again changes nothing.
pub proof fn law_summaries_are_final(sc: Sc, s: Sigs)
    ensures
        with_fn_summaries(sc, with_fn_summaries(sc, s)) == with_fn_summaries(sc, s),
{
    let t = with_fn_summaries(sc, s);
    let c = cleared_from(sc, s, 0);
    lemma_rounds_keep_the_rest(sc, c);
    assert forall|id: DefId| s.fns.contains_key(id) implies #[trigger] cleared_from(sc, t, 0).fns[id] == c.fns[id] by {
        law_summaries_touch_references_alone(sc, s, id);
    }
    assert(cleared_from(sc, t, 0).fns =~= c.fns);
    assert(cleared_from(sc, t, 0) == c);
}

proof fn lemma_rounds_keep_the_rest(sc: Sc, s: Sigs)
    ensures
        settled(sc, s) == (Sigs { fns: settled(sc, s).fns, ..s }),
        settled(sc, s).fns.dom() =~= s.fns.dom(),
    decreases room(sc, s, 0),
{
    let t = next_round(sc, s);
    if t != s {
        lemma_rounds_end(sc, s);
        lemma_rounds_keep_the_rest(sc, t);
    }
}

/// Whether no two items are functions of one definition.
pub open spec fn named_once(sc: Sc) -> bool {
    forall|i: int, j: int, id: DefId|
        #![trigger is_fn_at(sc, i, id), is_fn_at(sc, j, id)]
        is_fn_at(sc, i, id) && is_fn_at(sc, j, id) ==> i == j
}

/// Whether the `i`-th item is a function of this definition.
pub open spec fn is_fn_at(sc: Sc, i: int, id: DefId) -> bool {
    0 <= i < sc.module.items@.len() && (match sc.module.items@[i] {
        Item::Fn(f) => sc.defs().found_in(f.span.file, f.name.name@) == Some(id),
        _ => false,
    })
}

proof fn lemma_found_at(sc: Sc, id: DefId, i: int) -> (at: int)
    requires
        0 <= i,
        fn_from(sc, id, i) is Some,
    ensures
        i <= at,
        is_fn_at(sc, at, id),
        sc.module.items@[at] == Item::Fn(fn_from(sc, id, i)->0),
    decreases sc.module.items@.len() - i,
{
    if fn_from(sc, id, i + 1) is Some {
        lemma_found_at(sc, id, i + 1)
    } else {
        i
    }
}

proof fn lemma_is_found(sc: Sc, id: DefId, i: int, at: int)
    requires
        0 <= i <= at,
        is_fn_at(sc, at, id),
    ensures
        fn_from(sc, id, i) is Some,
    decreases at - i,
{
    if i < at {
        lemma_is_found(sc, id, i + 1, at);
    }
}

/// Whether two modules have the same functions, in whatever order.
pub open spec fn same_functions(a: Sc, b: Sc) -> bool {
    forall|f: FnDecl|
        #![trigger a.module.items@.contains(Item::Fn(f))]
        #![trigger b.module.items@.contains(Item::Fn(f))]
        a.module.items@.contains(Item::Fn(f)) == b.module.items@.contains(Item::Fn(f))
}

proof fn lemma_same_fn_one_way(a: Sc, b: Sc, id: DefId)
    requires
        a.names == b.names,
        same_functions(a, b),
        named_once(b),
        fn_of(a, id) is Some,
    ensures
        fn_of(b, id) == fn_of(a, id),
{
    let f = fn_of(a, id)->0;
    let at = lemma_found_at(a, id, 0);
    assert(a.module.items@.contains(Item::Fn(f)));
    assert(b.module.items@.contains(Item::Fn(f)));
    let j = choose|j: int| 0 <= j < b.module.items@.len() && b.module.items@[j] == Item::Fn(f);
    assert(is_fn_at(b, j, id));
    lemma_is_found(b, id, 0, j);
    let k = lemma_found_at(b, id, 0);
    assert(k == j);
}

proof fn lemma_same_fn(a: Sc, b: Sc, id: DefId)
    requires
        a.names == b.names,
        same_functions(a, b),
        named_once(a),
        named_once(b),
    ensures
        fn_of(b, id) == fn_of(a, id),
{
    if fn_of(a, id) is Some {
        lemma_same_fn_one_way(a, b, id);
    } else if fn_of(b, id) is Some {
        lemma_same_fn_one_way(b, a, id);
    }
}

proof fn lemma_same_rounds(a: Sc, b: Sc, s: Sigs)
    requires
        a.names == b.names,
        same_functions(a, b),
        named_once(a),
        named_once(b),
    ensures
        settled(a, s) == settled(b, s),
    decreases room(a, s, 0),
{
    assert forall|id: DefId| s.fns.contains_key(id) implies #[trigger] regarded(a, s, id) == regarded(b, s, id) by {
        lemma_same_fn(a, b, id);
    }
    assert(next_round(a, s).fns =~= next_round(b, s).fns);
    if next_round(a, s) != s {
        lemma_rounds_end(a, s);
        lemma_same_rounds(a, b, next_round(a, s));
    }
}

/// The summaries do not depend on the order in which functions are declared.
pub proof fn law_order_of_functions_does_not_matter(a: Sc, b: Sc, s: Sigs)
    requires
        a.names == b.names,
        same_functions(a, b),
        named_once(a),
        named_once(b),
    ensures
        with_fn_summaries(a, s) == with_fn_summaries(b, s),
{
    let c = cleared_from(a, s, 0);
    let d = cleared_from(b, s, 0);
    assert forall|id: DefId| s.fns.contains_key(id) implies #[trigger] c.fns[id] == d.fns[id] by {
        lemma_same_fn(a, b, id);
    }
    assert(c.fns =~= d.fns);
    lemma_same_rounds(a, b, c);
}

// ---------------------------------------------------------------------
// The summaries of methods
// ---------------------------------------------------------------------

/// The key of a method in an impl block.
pub open spec fn method_key(owner: DefId, m: FnDecl) -> MethodKey {
    (owner, m.name.name@, domain_of_self(m.self_param))
}

/// A method's signature for exactly these arguments, or its general one.
pub open spec fn sig_in(sets: Map<MethodKey, Methods>, key: MethodKey, args: Option<Seq<Ty>>) -> Option<Sig> {
    match sets.get(key) {
        Some(set) => match args {
            None => set.generic,
            Some(a) => specialized(set.specializations, a, 0),
        },
        None => None,
    }
}

/// A signature with this summary, if it returns a reference.
pub open spec fn summed(sig: Option<Sig>, o: Origins) -> Option<Sig> {
    match sig {
        Some(x) => if x.ret is Ref || x.ret is MutRef {
            Some(Sig { return_origins: o, ..x })
        } else {
            Some(x)
        },
        None => None,
    }
}

/// Whether an item is an impl block for these arguments, or for all, that has
/// this method.
pub open spec fn writes(sc: Sc, item: Item, key: MethodKey, args: Option<Seq<Ty>>) -> bool {
    match item {
        Item::Impl(b) => match sc.defs().found_in(b.span.file, b.target.name@) {
            Some(owner) => concrete_args(sc, b, owner) == args && exists|j: int|
                #![trigger b.methods@[j]]
                0 <= j < b.methods@.len() && method_key(owner, b.methods@[j]) == key,
            None => false,
        },
        _ => false,
    }
}

proof fn lemma_concrete_summary(m: Methods, a: Seq<Ty>, o: Origins, b: Seq<Ty>, i: int)
    ensures
        specialized(with_concrete_origins(m, a, o).specializations, b, i) == (if a == b {
            summed(specialized(m.specializations, b, i), o)
        } else {
            specialized(m.specializations, b, i)
        }),
    decreases m.specializations.len() - i,
{
    if 0 <= i < m.specializations.len() {
        lemma_concrete_summary(m, a, o, b, i + 1);
    }
}

/// The summary of a block's method is for the block's own signature alone: it
/// changes neither the general signature, nor one for other arguments, nor one
/// of another method.
pub proof fn law_method_summary_stays_in_its_block(
    sets: Map<MethodKey, Methods>,
    key: MethodKey,
    args: Option<Seq<Ty>>,
    o: Origins,
    other: MethodKey,
    for_args: Option<Seq<Ty>>,
)
    requires
        sets.contains_key(key),
    ensures
        sig_in(sets.insert(key, with_body_origins(sets[key], args, o)), other, for_args) == (if key == other && args
            == for_args {
            summed(sig_in(sets, other, for_args), o)
        } else {
            sig_in(sets, other, for_args)
        }),
{
    if let Some(a) = args {
        if let Some(b) = for_args {
            lemma_concrete_summary(sets[key], a, o, b, 0);
        }
    }
}

/// Whether two signatures differ in their summaries at most, and not even
/// there if they return no reference.
pub open spec fn same_but_summary(a: Option<Sig>, b: Option<Sig>) -> bool {
    match a {
        Some(x) => b matches Some(y) && b == summed(a, y.return_origins),
        None => b is None,
    }
}

/// What a method of a block leaves of a signature.
proof fn lemma_method_step(
    k: Known,
    owner: DefId,
    args: Option<Seq<Ty>>,
    m: FnDecl,
    s: Sigs,
    key: MethodKey,
    for_args: Option<Seq<Ty>>,
) -> (s1: Sigs)
    ensures
        s1 == (match s.methods.get(method_key(owner, m)) {
            Some(set) => Sigs {
                methods: s.methods.insert(method_key(owner, m), with_body_origins(set, args, body_summary(k, m, true))),
                ..s
            },
            None => s,
        }),
        method_key(owner, m) == key && args == for_args ==> sig_in(s1.methods, key, for_args) == summed(
            sig_in(s.methods, key, for_args),
            body_summary(k, m, true),
        ),
        !(method_key(owner, m) == key && args == for_args) ==> sig_in(s1.methods, key, for_args) == sig_in(
            s.methods,
            key,
            for_args,
        ),
        same_but_summary(sig_in(s.methods, key, for_args), sig_in(s1.methods, key, for_args)),
{
    let here = method_key(owner, m);
    let o = body_summary(k, m, true);
    match s.methods.get(here) {
        Some(set) => {
            law_method_summary_stays_in_its_block(s.methods, here, args, o, key, for_args);
            Sigs { methods: s.methods.insert(here, with_body_origins(set, args, o)), ..s }
        },
        None => s,
    }
}

proof fn lemma_methods_from(
    k: Known,
    owner: DefId,
    args: Option<Seq<Ty>>,
    ms: Seq<FnDecl>,
    i: int,
    s: Sigs,
    key: MethodKey,
    for_args: Option<Seq<Ty>>,
)
    requires
        0 <= i,
    ensures
        same_but_summary(
            sig_in(s.methods, key, for_args),
            sig_in(with_methods_from(k, owner, args, ms, i, s).methods, key, for_args),
        ),
        args != for_args || (forall|n: int| #![trigger ms[n]] i <= n < ms.len() ==> method_key(owner, ms[n]) != key)
            ==> sig_in(with_methods_from(k, owner, args, ms, i, s).methods, key, for_args) == sig_in(
            s.methods,
            key,
            for_args,
        ),
    decreases ms.len() - i,
{
    if i < ms.len() {
        let s1 = lemma_method_step(k, owner, args, ms[i], s, key, for_args);
        lemma_methods_from(k, owner, args, ms, i + 1, s1, key, for_args);
    }
}

proof fn lemma_last_method(
    k: Known,
    owner: DefId,
    args: Option<Seq<Ty>>,
    ms: Seq<FnDecl>,
    i: int,
    s: Sigs,
    key: MethodKey,
    j: int,
)
    requires
        0 <= i <= j < ms.len(),
        method_key(owner, ms[j]) == key,
        forall|n: int| #![trigger ms[n]] j < n < ms.len() ==> method_key(owner, ms[n]) != key,
    ensures
        sig_in(with_methods_from(k, owner, args, ms, i, s).methods, key, args) == summed(
            sig_in(s.methods, key, args),
            body_summary(k, ms[j], true),
        ),
    decreases j - i,
{
    let s1 = lemma_method_step(k, owner, args, ms[i], s, key, args);
    if i < j {
        lemma_last_method(k, owner, args, ms, i + 1, s1, key, j);
    } else {
        lemma_methods_from(k, owner, args, ms, i + 1, s1, key, args);
    }
}

proof fn lemma_impls_from(sc: Sc, k: Known, i: int, s: Sigs, key: MethodKey, args: Option<Seq<Ty>>)
    requires
        0 <= i,
    ensures
        same_but_summary(
            sig_in(s.methods, key, args),
            sig_in(with_impls_from(sc, k, i, s).methods, key, args),
        ),
        (forall|n: int|
            #![trigger sc.module.items@[n]]
            i <= n < sc.module.items@.len() ==> !writes(sc, sc.module.items@[n], key, args)) ==> sig_in(
            with_impls_from(sc, k, i, s).methods,
            key,
            args,
        ) == sig_in(s.methods, key, args),
    decreases sc.module.items@.len() - i,
{
    if i < sc.module.items@.len() {
        let item = sc.module.items@[i];
        let s1 = match item {
            Item::Impl(b) => match sc.defs().found_in(b.span.file, b.target.name@) {
                Some(owner) => with_methods_from(k, owner, concrete_args(sc, b, owner), b.methods@, 0, s),
                None => s,
            },
            _ => s,
        };
        if let Item::Impl(b) = item {
            if let Some(owner) = sc.defs().found_in(b.span.file, b.target.name@) {
                lemma_methods_from(k, owner, concrete_args(sc, b, owner), b.methods@, 0, s, key, args);
                if !writes(sc, item, key, args) && concrete_args(sc, b, owner) == args {
                    assert forall|n: int| #![trigger b.methods@[n]] 0 <= n < b.methods@.len() implies method_key(
                        owner,
                        b.methods@[n],
                    ) != key by {}
                }
            }
        }
        lemma_impls_from(sc, k, i + 1, s1, key, args);
    }
}

proof fn lemma_last_impl(
    sc: Sc,
    k: Known,
    at: int,
    s: Sigs,
    i: int,
    b: ImplBlock,
    owner: DefId,
    j: int,
)
    requires
        0 <= at <= i < sc.module.items@.len(),
        sc.module.items@[i] == Item::Impl(b),
        sc.defs().found_in(b.span.file, b.target.name@) == Some(owner),
        written_last(sc, i, b, owner, j),
    ensures
        ({
            let key = method_key(owner, b.methods@[j]);
            let args = concrete_args(sc, b, owner);
            sig_in(with_impls_from(sc, k, at, s).methods, key, args) == summed(
                sig_in(s.methods, key, args),
                body_summary(k, b.methods@[j], true),
            )
        }),
    decreases i - at,
{
    let key = method_key(owner, b.methods@[j]);
    let args = concrete_args(sc, b, owner);
    let s1 = match sc.module.items@[at] {
        Item::Impl(c) => match sc.defs().found_in(c.span.file, c.target.name@) {
            Some(other) => with_methods_from(k, other, concrete_args(sc, c, other), c.methods@, 0, s),
            None => s,
        },
        _ => s,
    };
    if at < i {
        if let Item::Impl(c) = sc.module.items@[at] {
            if let Some(other) = sc.defs().found_in(c.span.file, c.target.name@) {
                lemma_methods_from(k, other, concrete_args(sc, c, other), c.methods@, 0, s, key, args);
            }
        }
        lemma_last_impl(sc, k, at + 1, s1, i, b, owner, j);
    } else {
        lemma_last_method(k, owner, args, b.methods@, 0, s, key, j);
        lemma_impls_from(sc, k, at + 1, s1, key, args);
    }
}

/// Whether a block's `j`-th method is the last of the module with this owner,
/// name and receiver for the block's arguments: a second one is an error.
pub open spec fn written_last(sc: Sc, i: int, b: ImplBlock, owner: DefId, j: int) -> bool {
    &&& 0 <= j < b.methods@.len()
    &&& forall|n: int|
        #![trigger b.methods@[n]]
        j < n < b.methods@.len() ==> method_key(owner, b.methods@[n]) != method_key(owner, b.methods@[j])
    &&& forall|n: int|
        #![trigger sc.module.items@[n]]
        i < n < sc.module.items@.len() ==> !writes(
            sc,
            sc.module.items@[n],
            method_key(owner, b.methods@[j]),
            concrete_args(sc, b, owner),
        )
}

/// The signature of a method that returns a reference, in the impl block that
/// has the method, carries what the method's own body returns, and is
/// otherwise as it was; one that returns none stays as it was.
pub proof fn law_method_summary_is_what_the_body_returns(
    sc: Sc,
    s: Sigs,
    i: int,
    b: ImplBlock,
    owner: DefId,
    j: int,
)
    requires
        0 <= i < sc.module.items@.len(),
        sc.module.items@[i] == Item::Impl(b),
        sc.defs().found_in(b.span.file, b.target.name@) == Some(owner),
        written_last(sc, i, b, owner, j),
    ensures
        ({
            let key = method_key(owner, b.methods@[j]);
            let args = concrete_args(sc, b, owner);
            sig_in(with_method_summaries(sc, s).methods, key, args) == summed(
                sig_in(s.methods, key, args),
                body_summary(known_of(sc, s), b.methods@[j], true),
            )
        }),
{
    lemma_last_impl(sc, known_of(sc, s), 0, s, i, b, owner, j);
}

/// A signature that no impl block of the module writes stays as it was.
pub proof fn law_method_summaries_reach_no_others(sc: Sc, s: Sigs, key: MethodKey, args: Option<Seq<Ty>>)
    requires
        forall|n: int|
            #![trigger sc.module.items@[n]]
            0 <= n < sc.module.items@.len() ==> !writes(sc, sc.module.items@[n], key, args),
    ensures
        sig_in(with_method_summaries(sc, s).methods, key, args) == sig_in(s.methods, key, args),
{
    lemma_impls_from(sc, known_of(sc, s), 0, s, key, args);
}

} // verus!
