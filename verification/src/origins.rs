//! Which parameters a returned reference may originate from.
use crate::ast::{
    arms_size, block_size, expr_size, exprs_size, lemma_exprs_size, stmt_size, stmts_size, Block, Expr, ExprKind,
    FnDecl, Item, MatchArm, Param, Stmt,
};
use crate::datum::{add_new, lemma_deep_len, occurs, push_new, put, Datum, Dup};
use crate::diagnostics::Diagnostic;
use crate::ids::{DefId, LocalId, Symbol};
use crate::lower::{Sc, Scope};
use crate::names::{Resolution, ResolvedNames};
use crate::owners::concrete_args;
use crate::sig::{domain_of_self, FnSig, MethodSet, Methods, ReceiverDomain, ReturnOrigin, Sig, Signatures, Sigs};
use crate::table::Table;
use crate::ty::{Ty, Type};
use vstd::prelude::*;

verus! {

broadcast use lemma_deep_len;

/// Origins without repetition, in the order they were found.
pub type Origins = Seq<ReturnOrigin>;

/// `a` with the elements of `b` from the `i`-th on added.
pub open spec fn joined<A>(a: Seq<A>, b: Seq<A>, i: int) -> Seq<A>
    decreases b.len() - i,
{
    if 0 <= i < b.len() {
        joined(push_new(a, b[i]), b, i + 1)
    } else {
        a
    }
}

/// Adds the elements of `b` to `a`.
pub fn join_new<A: Datum>(a: &mut Vec<A>, b: &Vec<A>)
    ensures
        final(a).deep_view() == joined(old(a).deep_view(), b.deep_view(), 0),
{
    let mut i: usize = 0;
    while i < b.len()
        invariant
            i <= b.len(),
            joined(a.deep_view(), b.deep_view(), i as int) == joined(old(a).deep_view(), b.deep_view(), 0),
        decreases b.len() - i,
    {
        add_new(a, b[i].dup());
        i += 1;
    }
}

/// What is known of a function body: what paths and locals denote, and the
/// summaries of the functions it may call.
pub struct Known {
    pub names: ResolvedNames,
    pub summaries: Map<DefId, Origins>,
}

/// The origins of each local.
pub type LocalOrigins = Map<LocalId, Origins>;

/// The origins that a block returns.
pub open spec fn block_returns(k: Known, b: Block, env: LocalOrigins) -> Origins
    decreases block_size(b), 0nat,
{
    let (acc, env1) = stmts_return(k, b.stmts@, 0, Seq::empty(), env);
    match b.tail {
        Some(tail) => joined(acc, expr_returns(k, *tail, env1), 0),
        None => acc,
    }
}

/// The origins that the statements from the `i`-th on return, added to `acc`,
/// and the origins of the locals after them.
pub open spec fn stmts_return(k: Known, s: Seq<Stmt>, i: int, acc: Origins, env: LocalOrigins) -> (
    Origins,
    LocalOrigins,
)
    decreases stmts_size(s, i), 1nat,
{
    if 0 <= i < s.len() {
        match s[i] {
            Stmt::Let(l) => {
                let acc1 = joined(acc, expr_returns(k, l.value, env), 0);
                let env1 = match k.names.local(l.id) {
                    Some(local) => env.insert(local, expr_origins(k, l.value, env)),
                    None => env,
                };
                stmts_return(k, s, i + 1, acc1, env1)
            },
            Stmt::Expr(x) => stmts_return(k, s, i + 1, joined(acc, expr_returns(k, x, env), 0), env),
        }
    } else {
        (acc, env)
    }
}

/// The origins that `return`s inside an expression return.
pub open spec fn expr_returns(k: Known, x: Expr, env: LocalOrigins) -> Origins
    decreases expr_size(x), 2nat,
{
    match x.kind {
        ExprKind::Return(v) => match v {
            Some(value) => expr_origins(k, *value, env),
            None => Seq::empty(),
        },
        ExprKind::If { cond: _, then_branch, else_branch } => {
            let a = block_returns(k, then_branch, env);
            match else_branch {
                Some(e) => joined(a, expr_returns(k, *e, env), 0),
                None => a,
            }
        },
        ExprKind::Match { scrutinee: _, arms } => arms_return(k, arms@, 0, Seq::empty(), env),
        ExprKind::Block(b) => block_returns(k, b, env),
        ExprKind::Loop { body } => block_returns(k, body, env),
        ExprKind::While { cond: _, body } => block_returns(k, body, env),
        ExprKind::ForIn { pattern: _, iter: _, body } => block_returns(k, body, env),
        _ => Seq::empty(),
    }
}

/// The origins that the arms from the `i`-th on return, added to `acc`.
pub open spec fn arms_return(k: Known, arms: Seq<MatchArm>, i: int, acc: Origins, env: LocalOrigins) -> Origins
    decreases arms_size(arms, i), 1nat,
{
    if 0 <= i < arms.len() {
        arms_return(k, arms, i + 1, joined(acc, expr_returns(k, arms[i].body, env), 0), env)
    } else {
        acc
    }
}

/// The function that a call names.
pub open spec fn called(k: Known, callee: Expr) -> Option<DefId> {
    match callee.kind {
        ExprKind::Path(path) => match k.names.path(path.id) {
            Some(res) => match res.base {
                Resolution::Def(id) => Some(id),
                _ => None,
            },
            None => None,
        },
        _ => None,
    }
}

/// The origins of an expression's value.
pub open spec fn expr_origins(k: Known, x: Expr, env: LocalOrigins) -> Origins
    decreases expr_size(x), 2nat,
{
    match x.kind {
        ExprKind::Path(path) => match k.names.path(path.id) {
            Some(res) => match res.base {
                Resolution::Local(local) => match env.get(local) {
                    Some(o) => o,
                    None => Seq::empty(),
                },
                _ => Seq::empty(),
            },
            None => Seq::empty(),
        },
        ExprKind::Call { callee, generic_args: _, args } => match called(k, *callee) {
            Some(id) => match k.summaries.get(id) {
                Some(summary) => call_origins(k, args@, summary, 0, Seq::empty(), env),
                None => Seq::empty(),
            },
            None => Seq::empty(),
        },
        ExprKind::If { cond: _, then_branch, else_branch } => {
            let a = tail_origins(k, then_branch, env);
            match else_branch {
                Some(e) => joined(a, expr_origins(k, *e, env), 0),
                None => a,
            }
        },
        ExprKind::Match { scrutinee: _, arms } => arms_origins(k, arms@, 0, Seq::empty(), env),
        ExprKind::Block(b) => tail_origins(k, b, env),
        _ => Seq::empty(),
    }
}

/// The origins of a block's value.
pub open spec fn tail_origins(k: Known, b: Block, env: LocalOrigins) -> Origins
    decreases block_size(b), 0nat,
{
    match b.tail {
        Some(tail) => expr_origins(k, *tail, env),
        None => Seq::empty(),
    }
}

/// The origins of the arms' values from the `i`-th on, added to `acc`.
pub open spec fn arms_origins(k: Known, arms: Seq<MatchArm>, i: int, acc: Origins, env: LocalOrigins) -> Origins
    decreases arms_size(arms, i), 1nat,
{
    if 0 <= i < arms.len() {
        arms_origins(k, arms, i + 1, joined(acc, expr_origins(k, arms[i].body, env), 0), env)
    } else {
        acc
    }
}

/// The origins of a call's value: those of the arguments that the callee's
/// summary names, from its `i`-th entry on, added to `acc`.
pub open spec fn call_origins(k: Known, args: Seq<Expr>, summary: Origins, i: int, acc: Origins, env: LocalOrigins) -> Origins
    decreases exprs_size(args, 0), 3nat, summary.len() - i,
{
    if 0 <= i < summary.len() {
        match summary[i] {
            ReturnOrigin::Parameter(p) => if p < args.len() {
                proof {
                    lemma_exprs_size(args, 0, p as int);
                }
                call_origins(k, args, summary, i + 1, joined(acc, expr_origins(k, args[p as int], env), 0), env)
            } else {
                call_origins(k, args, summary, i + 1, acc, env)
            },
            ReturnOrigin::SelfValue => call_origins(k, args, summary, i + 1, acc, env),
        }
    } else {
        acc
    }
}

/// The origins in their fixed order: the receiver, then the parameters from
/// the `i`-th of `n` on.
pub open spec fn ordered_from(o: Origins, i: int, n: int, acc: Origins) -> Origins
    decreases n - i,
{
    if i < n && i <= usize::MAX {
        let p = ReturnOrigin::Parameter(i as usize);
        ordered_from(o, i + 1, n, if o.contains(p) { acc.push(p) } else { acc })
    } else {
        acc
    }
}

/// The origins in their fixed order.
pub open spec fn ordered(o: Origins, n: int) -> Origins {
    ordered_from(
        o,
        0,
        n,
        if o.contains(ReturnOrigin::SelfValue) {
            seq![ReturnOrigin::SelfValue]
        } else {
            Seq::empty()
        },
    )
}

/// The origins of the parameters from the `i`-th on, added to `env`.
pub open spec fn param_origins(names: ResolvedNames, ps: Seq<Param>, i: int, env: LocalOrigins) -> LocalOrigins
    decreases ps.len() - i,
{
    if 0 <= i < ps.len() {
        let env1 = match names.local(ps[i].id) {
            Some(local) => env.insert(local, seq![ReturnOrigin::Parameter(i as usize)]),
            None => env,
        };
        param_origins(names, ps, i + 1, env1)
    } else {
        env
    }
}

/// The origins of a function's parameters and receiver.
pub open spec fn initial_origins(names: ResolvedNames, f: FnDecl, with_self: bool) -> LocalOrigins {
    let env = match names.local(f.id) {
        Some(local) => if with_self && f.self_param is Some {
            Map::empty().insert(local, seq![ReturnOrigin::SelfValue])
        } else {
            Map::empty()
        },
        None => Map::empty(),
    };
    param_origins(names, f.params@, 0, env)
}

/// The summary of a function body.
pub open spec fn body_summary(k: Known, f: FnDecl, with_self: bool) -> Origins {
    match f.body {
        Some(b) => ordered(block_returns(k, b, initial_origins(k.names, f, with_self)), f.params@.len() as int),
        None => Seq::empty(),
    }
}

/// The summaries of all functions.
pub open spec fn summaries_of(s: Sigs) -> Map<DefId, Origins> {
    Map::new(|id: DefId| s.fns.contains_key(id), |id: DefId| s.fns[id].return_origins)
}

/// The last function of this definition among the items from the `i`-th on.
pub open spec fn fn_from(sc: Sc, id: DefId, i: int) -> Option<FnDecl>
    decreases sc.module.items@.len() - i,
{
    if 0 <= i < sc.module.items@.len() {
        match fn_from(sc, id, i + 1) {
            Some(f) => Some(f),
            None => match sc.module.items@[i] {
                Item::Fn(f) => if sc.defs().found_in(f.span.file, f.name.name@) == Some(id) {
                    Some(f)
                } else {
                    None
                },
                _ => None,
            },
        }
    } else {
        None
    }
}

/// The function of a definition.
pub open spec fn fn_of(sc: Sc, id: DefId) -> Option<FnDecl> {
    fn_from(sc, id, 0)
}

/// Whether a list has all origins of another.
pub open spec fn covers(a: Origins, b: Origins) -> bool {
    forall|o: ReturnOrigin| #![trigger a.contains(o)] #![trigger b.contains(o)] b.contains(o) ==> a.contains(o)
}

/// The origins of `a` and `b`, of a function with `n` parameters.
pub open spec fn widened(a: Origins, b: Origins, n: int) -> Origins {
    if covers(a, b) {
        a
    } else {
        ordered(joined(a, b, 0), n)
    }
}

/// What is known of the functions with these signatures.
pub open spec fn known_of(sc: Sc, s: Sigs) -> Known {
    Known { names: sc.names, summaries: summaries_of(s) }
}

/// A function's signature with what its body returns added to its summary.
pub open spec fn regarded(sc: Sc, s: Sigs, id: DefId) -> Sig {
    let sig = s.fns[id];
    match fn_of(sc, id) {
        Some(f) => if sig.ret is Ref || sig.ret is MutRef {
            Sig {
                return_origins: widened(
                    sig.return_origins,
                    body_summary(known_of(sc, s), f, false),
                    f.params@.len() as int,
                ),
                ..sig
            }
        } else {
            sig
        },
        None => sig,
    }
}

/// The signatures once the functions before the `i`-th item have been
/// regarded.
pub open spec fn regarded_before(sc: Sc, s: Sigs, i: int) -> Sigs {
    Sigs {
        fns: Map::new(
            |id: DefId| s.fns.contains_key(id),
            |id: DefId|
                if fn_from(sc, id, i) is None {
                    regarded(sc, s, id)
                } else {
                    s.fns[id]
                },
        ),
        ..s
    }
}

/// The signatures once every function has been regarded.
pub open spec fn next_round(sc: Sc, s: Sigs) -> Sigs {
    Sigs {
        fns: Map::new(|id: DefId| s.fns.contains_key(id), |id: DefId| regarded(sc, s, id)),
        ..s
    }
}

/// How many of the parameters from the `i`-th of `n` on a list lacks.
pub open spec fn missing(o: Origins, i: int, n: int) -> nat
    decreases n - i,
{
    if i < n && i <= usize::MAX {
        missing(o, i + 1, n) + (if o.contains(ReturnOrigin::Parameter(i as usize)) {
            0nat
        } else {
            1nat
        })
    } else {
        0
    }
}

/// How many origins of a function with `n` parameters a list lacks.
pub open spec fn lacking(o: Origins, n: int) -> nat {
    missing(o, 0, n) + (if o.contains(ReturnOrigin::SelfValue) {
        0nat
    } else {
        1nat
    })
}

/// How many origins the functions from the `i`-th item on lack.
pub open spec fn room(sc: Sc, s: Sigs, i: int) -> nat
    decreases sc.module.items@.len() - i,
{
    if 0 <= i < sc.module.items@.len() {
        room(sc, s, i + 1) + (match sc.module.items@[i] {
            Item::Fn(f) => match sc.defs().found_in(f.span.file, f.name.name@) {
                Some(id) => if s.fns.contains_key(id) && fn_from(sc, id, i + 1) is None {
                    lacking(s.fns[id].return_origins, f.params@.len() as int)
                } else {
                    0nat
                },
                None => 0nat,
            },
            _ => 0nat,
        })
    } else {
        0
    }
}

/// The signatures after rounds until one changes nothing.
pub open spec fn settled(sc: Sc, s: Sigs) -> Sigs
    decreases room(sc, s, 0),
{
    if next_round(sc, s) == s {
        s
    } else {
        proof {
            lemma_rounds_end(sc, s);
        }
        settled(sc, next_round(sc, s))
    }
}

/// The signatures without the summaries of the functions from the `i`-th item
/// on that return a reference.
pub open spec fn cleared_from(sc: Sc, s: Sigs, i: int) -> Sigs {
    Sigs {
        fns: Map::new(
            |id: DefId| s.fns.contains_key(id),
            |id: DefId|
                if fn_from(sc, id, i) is Some && (s.fns[id].ret is Ref || s.fns[id].ret is MutRef) {
                    Sig { return_origins: Seq::empty(), ..s.fns[id] }
                } else {
                    s.fns[id]
                },
        ),
        ..s
    }
}

/// The signatures with the summaries of all functions, so that chains of
/// calls are followed whatever the order of declaration.
pub open spec fn with_fn_summaries(sc: Sc, s: Sigs) -> Sigs {
    settled(sc, cleared_from(sc, s, 0))
}

/// What a list has after another's elements have been added.
pub proof fn lemma_joined<A>(a: Seq<A>, b: Seq<A>, i: int, x: A)
    requires
        0 <= i,
    ensures
        joined(a, b, i).contains(x) == (a.contains(x) || exists|j: int| i <= j < b.len() && #[trigger] b[j] == x),
    decreases b.len() - i,
{
    if i < b.len() {
        let a1 = push_new(a, b[i]);
        lemma_joined(a1, b, i + 1, x);
        assert(a1.contains(x) == (a.contains(x) || b[i] == x)) by {
            if a.contains(x) && !a.contains(b[i]) {
                let j = choose|j: int| 0 <= j < a.len() && a[j] == x;
                assert(a1[j] == x);
            }
            if b[i] == x && !a.contains(b[i]) {
                assert(a1[a.len() as int] == x);
            }
        }
    }
}

/// Joining two lists gives the elements of both.
pub proof fn lemma_join<A>(a: Seq<A>, b: Seq<A>, x: A)
    ensures
        joined(a, b, 0).contains(x) == (a.contains(x) || b.contains(x)),
{
    lemma_joined(a, b, 0, x);
}

proof fn lemma_pushed<A>(a: Seq<A>, p: A, x: A)
    ensures
        a.push(p).contains(x) == (a.contains(x) || p == x),
{
    if a.contains(x) {
        let j = choose|j: int| 0 <= j < a.len() && a[j] == x;
        assert(a.push(p)[j] == x);
    }
    assert(a.push(p)[a.len() as int] == p);
}

proof fn lemma_ordered_from(o: Origins, i: int, n: int, acc: Origins, x: ReturnOrigin)
    requires
        0 <= i,
    ensures
        ordered_from(o, i, n, acc).contains(x) == (acc.contains(x) || o.contains(x) && (x matches ReturnOrigin::Parameter(
            p,
        ) && i <= p < n)),
    decreases n - i,
{
    if i < n && i <= usize::MAX {
        let p = ReturnOrigin::Parameter(i as usize);
        lemma_pushed(acc, p, x);
        lemma_ordered_from(
            o,
            i + 1,
            n,
            if o.contains(p) {
                acc.push(p)
            } else {
                acc
            },
            x,
        );
    }
}

/// Whether an origin can be one of a function with `n` parameters.
pub open spec fn in_range(o: ReturnOrigin, n: int) -> bool {
    match o {
        ReturnOrigin::SelfValue => true,
        ReturnOrigin::Parameter(p) => p < n,
    }
}

/// Putting origins in order keeps those of the function, and only those.
pub proof fn lemma_ordered(o: Origins, n: int, x: ReturnOrigin)
    ensures
        ordered(o, n).contains(x) == (o.contains(x) && in_range(x, n)),
{
    let acc = if o.contains(ReturnOrigin::SelfValue) {
        seq![ReturnOrigin::SelfValue]
    } else {
        Seq::empty()
    };
    if o.contains(ReturnOrigin::SelfValue) {
        assert(acc[0] == ReturnOrigin::SelfValue);
    }
    lemma_ordered_from(o, 0, n, acc, x);
}

/// A function's summary has only origins of the function.
pub proof fn lemma_summary_in_range(k: Known, f: FnDecl, with_self: bool, x: ReturnOrigin)
    ensures
        body_summary(k, f, with_self).contains(x) ==> in_range(x, f.params@.len() as int),
{
    if let Some(b) = f.body {
        lemma_ordered(block_returns(k, b, initial_origins(k.names, f, with_self)), f.params@.len() as int, x);
    }
}

/// What a widened list has.
pub proof fn lemma_widened(a: Origins, b: Origins, n: int, x: ReturnOrigin)
    ensures
        in_range(x, n) ==> widened(a, b, n).contains(x) == (a.contains(x) || b.contains(x)),
{
    lemma_join(a, b, x);
    lemma_ordered(joined(a, b, 0), n, x);
}

proof fn lemma_missing(a: Origins, b: Origins, i: int, n: int)
    requires
        0 <= i,
        forall|x: ReturnOrigin| #![trigger b.contains(x)] in_range(x, n) && a.contains(x) ==> b.contains(x),
    ensures
        missing(b, i, n) <= missing(a, i, n),
        forall|p: usize|
            #![trigger b.contains(ReturnOrigin::Parameter(p))]
            i <= p < n && b.contains(ReturnOrigin::Parameter(p)) && !a.contains(ReturnOrigin::Parameter(p))
                ==> missing(b, i, n) < missing(a, i, n),
    decreases n - i,
{
    if i < n && i <= usize::MAX {
        lemma_missing(a, b, i + 1, n);
        let p = ReturnOrigin::Parameter(i as usize);
        assert(in_range(p, n));
        assert(a.contains(p) ==> b.contains(p));
    }
}

proof fn lemma_lacking(a: Origins, b: Origins, n: int)
    requires
        forall|x: ReturnOrigin| #![trigger b.contains(x)] in_range(x, n) && a.contains(x) ==> b.contains(x),
    ensures
        lacking(b, n) <= lacking(a, n),
        forall|x: ReturnOrigin|
            #![trigger b.contains(x)]
            in_range(x, n) && b.contains(x) && !a.contains(x) ==> lacking(b, n) < lacking(a, n),
{
    lemma_missing(a, b, 0, n);
    assert(in_range(ReturnOrigin::SelfValue, n));
    assert(a.contains(ReturnOrigin::SelfValue) ==> b.contains(ReturnOrigin::SelfValue));
    assert forall|x: ReturnOrigin|
        #![trigger b.contains(x)]
        in_range(x, n) && b.contains(x) && !a.contains(x) implies lacking(b, n) < lacking(a, n) by {
        if let ReturnOrigin::Parameter(p) = x {
            assert(b.contains(ReturnOrigin::Parameter(p)));
        }
    }
}

/// What is found from an item on is found from the start.
pub proof fn lemma_fn_from(sc: Sc, id: DefId, i: int)
    requires
        0 <= i,
        fn_from(sc, id, i) is Some,
    ensures
        fn_of(sc, id) == fn_from(sc, id, i),
    decreases i,
{
    if i > 0 {
        lemma_fn_from(sc, id, i - 1);
    }
}

proof fn lemma_fn_earlier(sc: Sc, id: DefId, i: int, j: int)
    requires
        0 <= i <= j,
        fn_from(sc, id, j) is Some,
    ensures
        fn_from(sc, id, i) is Some,
    decreases j - i,
{
    if i < j {
        lemma_fn_earlier(sc, id, i, j - 1);
    }
}

/// A function that is regarded lacks no more than before, and less if its
/// signature changes.
proof fn lemma_regarded(sc: Sc, s: Sigs, id: DefId, f: FnDecl)
    requires
        s.fns.contains_key(id),
        fn_of(sc, id) == Some(f),
    ensures
        lacking(regarded(sc, s, id).return_origins, f.params@.len() as int) <= lacking(
            s.fns[id].return_origins,
            f.params@.len() as int,
        ),
        regarded(sc, s, id) != s.fns[id] ==> lacking(regarded(sc, s, id).return_origins, f.params@.len() as int)
            < lacking(s.fns[id].return_origins, f.params@.len() as int),
{
    let n = f.params@.len() as int;
    let a = s.fns[id].return_origins;
    let o = body_summary(known_of(sc, s), f, false);
    let b = widened(a, o, n);
    assert forall|x: ReturnOrigin| #![trigger b.contains(x)] in_range(x, n) && a.contains(x) implies b.contains(x) by {
        lemma_widened(a, o, n, x);
    }
    lemma_lacking(a, b, n);
    if !covers(a, o) {
        let x = choose|x: ReturnOrigin| #![trigger o.contains(x)] o.contains(x) && !a.contains(x);
        lemma_summary_in_range(known_of(sc, s), f, false, x);
        lemma_widened(a, o, n, x);
        assert(b.contains(x));
    }
}

proof fn lemma_room(sc: Sc, s: Sigs, id: DefId, i: int)
    requires
        0 <= i,
        s.fns.contains_key(id),
        regarded(sc, s, id) != s.fns[id],
    ensures
        room(sc, next_round(sc, s), i) <= room(sc, s, i),
        fn_from(sc, id, i) is Some ==> room(sc, next_round(sc, s), i) < room(sc, s, i),
    decreases sc.module.items@.len() - i,
{
    if i < sc.module.items@.len() {
        lemma_room(sc, s, id, i + 1);
        if let Item::Fn(f) = sc.module.items@[i] {
            if let Some(here) = sc.defs().found_in(f.span.file, f.name.name@) {
                if s.fns.contains_key(here) && fn_from(sc, here, i + 1) is None {
                    lemma_fn_from(sc, here, i);
                    lemma_regarded(sc, s, here, f);
                }
            }
        }
    }
}

/// A round that changes something leaves less to add.
pub proof fn lemma_rounds_end(sc: Sc, s: Sigs)
    requires
        next_round(sc, s) != s,
    ensures
        room(sc, next_round(sc, s), 0) < room(sc, s, 0),
{
    let t = next_round(sc, s);
    if forall|id: DefId| #![trigger s.fns.contains_key(id)] s.fns.contains_key(id) ==> regarded(sc, s, id) == s.fns[id] {
        assert(t.fns =~= s.fns);
        assert(t == s);
    }
    let id = choose|id: DefId|
        #![trigger s.fns.contains_key(id)]
        s.fns.contains_key(id) && regarded(sc, s, id) != s.fns[id];
    lemma_room(sc, s, id, 0);
}

/// Once rounds have ended, another changes nothing.
pub proof fn lemma_settled(sc: Sc, s: Sigs)
    ensures
        next_round(sc, settled(sc, s)) == settled(sc, s),
    decreases room(sc, s, 0),
{
    if next_round(sc, s) != s {
        lemma_rounds_end(sc, s);
        lemma_settled(sc, next_round(sc, s));
    }
}

/// Once the summaries have been computed, another round changes nothing.
pub proof fn law_summaries_are_settled(sc: Sc, s: Sigs)
    ensures
        next_round(sc, with_fn_summaries(sc, s)) == with_fn_summaries(sc, s),
{
    lemma_settled(sc, cleared_from(sc, s, 0));
}

/// The set with the summary of its general signature replaced, where that
/// returns a reference.
pub open spec fn with_general_origins(m: Methods, o: Origins) -> Methods {
    Methods {
        generic: match m.generic {
            Some(sig) => if sig.ret is Ref || sig.ret is MutRef {
                Some(Sig { return_origins: o, ..sig })
            } else {
                Some(sig)
            },
            None => None,
        },
        ..m
    }
}

/// The set with the summary of its signatures for these arguments replaced,
/// where they return a reference.
pub open spec fn with_concrete_origins(m: Methods, args: Seq<Ty>, o: Origins) -> Methods {
    Methods {
        specializations: Seq::new(
            m.specializations.len(),
            |i: int|
                if m.specializations[i].0 == args && (m.specializations[i].1.ret is Ref
                    || m.specializations[i].1.ret is MutRef) {
                    (m.specializations[i].0, Sig { return_origins: o, ..m.specializations[i].1 })
                } else {
                    m.specializations[i]
                },
        ),
        ..m
    }
}

/// The set with the summary of a method that an impl block for these
/// arguments, or for all, has: it is for the block's own signature alone.
pub open spec fn with_body_origins(m: Methods, args: Option<Seq<Ty>>, o: Origins) -> Methods {
    match args {
        Some(a) => with_concrete_origins(m, a, o),
        None => with_general_origins(m, o),
    }
}

/// The signatures with the summaries of an owner's methods from the `i`-th on,
/// in an impl block for these arguments or for all.
pub open spec fn with_methods_from(k: Known, owner: DefId, args: Option<Seq<Ty>>, ms: Seq<FnDecl>, i: int, s: Sigs) -> Sigs
    decreases ms.len() - i,
{
    if 0 <= i < ms.len() {
        let key = (owner, ms[i].name.name@, domain_of_self(ms[i].self_param));
        let s1 = match s.methods.get(key) {
            Some(set) => Sigs {
                methods: s.methods.insert(key, with_body_origins(set, args, body_summary(k, ms[i], true))),
                ..s
            },
            None => s,
        };
        with_methods_from(k, owner, args, ms, i + 1, s1)
    } else {
        s
    }
}

/// The signatures with the summaries of the methods of the impl blocks from
/// the `i`-th item on.
pub open spec fn with_impls_from(sc: Sc, k: Known, i: int, s: Sigs) -> Sigs
    decreases sc.module.items@.len() - i,
{
    if 0 <= i < sc.module.items@.len() {
        let s1 = match sc.module.items@[i] {
            Item::Impl(b) => match sc.defs().found_in(b.span.file, b.target.name@) {
                Some(owner) => with_methods_from(k, owner, concrete_args(sc, b, owner), b.methods@, 0, s),
                None => s,
            },
            _ => s,
        };
        with_impls_from(sc, k, i + 1, s1)
    } else {
        s
    }
}

/// The signatures with the summaries of all methods.
pub open spec fn with_method_summaries(sc: Sc, s: Sigs) -> Sigs {
    with_impls_from(sc, Known { names: sc.names, summaries: summaries_of(s) }, 0, s)
}

/// The names and summaries that a body is looked at with.
pub struct Summaries<'a> {
    pub names: &'a ResolvedNames,
    pub fns: Table<DefId, Vec<ReturnOrigin>>,
}

impl View for Summaries<'_> {
    type V = Known;

    open spec fn view(&self) -> Known {
        Known { names: *self.names, summaries: self.fns@ }
    }
}

fn no_origins() -> (r: Vec<ReturnOrigin>)
    ensures
        r.deep_view() == Seq::<ReturnOrigin>::empty(),
{
    let r: Vec<ReturnOrigin> = Vec::new();
    proof {
        assert(r.deep_view() =~= Seq::<ReturnOrigin>::empty());
    }
    r
}

fn one_origin(o: ReturnOrigin) -> (r: Vec<ReturnOrigin>)
    ensures
        r.deep_view() == seq![o],
{
    let mut r: Vec<ReturnOrigin> = Vec::new();
    r.push(o);
    proof {
        assert(r.deep_view() =~= seq![o]);
    }
    r
}

impl<'a> Summaries<'a> {
    /// The origins that a block returns.
    pub fn summary_block(&self, block: &Block, env: Table<LocalId, Vec<ReturnOrigin>>) -> (r: Vec<ReturnOrigin>)
        ensures
            r.deep_view() == block_returns(self@, *block, env@),
        decreases block_size(*block), 0nat,
    {
        let mut env = env;
        let ghost env0 = env@;
        let mut acc = no_origins();
        let mut i: usize = 0;
        while i < block.stmts.len()
            invariant
                i <= block.stmts.len(),
                stmts_size(block.stmts@, i as int) <= stmts_size(block.stmts@, 0),
                stmts_return(self@, block.stmts@, i as int, acc.deep_view(), env@) == stmts_return(
                    self@,
                    block.stmts@,
                    0,
                    Seq::empty(),
                    env0,
                ),
            decreases block.stmts.len() - i,
        {
            match &block.stmts[i] {
                Stmt::Let(l) => {
                    assert(stmt_size(block.stmts@[i as int]) == 1 + expr_size(l.value));
                    let returned = self.summary_returns_in_expr(&l.value, &env);
                    join_new(&mut acc, &returned);
                    if let Some(local) = self.names.local_of(l.id) {
                        let o = self.summary_expr(&l.value, &env);
                        env.insert(local, o);
                    }
                },
                Stmt::Expr(x) => {
                    assert(stmt_size(block.stmts@[i as int]) == 1 + expr_size(*x));
                    let returned = self.summary_returns_in_expr(x, &env);
                    join_new(&mut acc, &returned);
                },
            }
            i += 1;
        }
        if let Some(tail) = &block.tail {
            let returned = self.summary_returns_in_expr(tail, &env);
            join_new(&mut acc, &returned);
        }
        acc
    }

    /// The origins that `return`s inside an expression return.
    pub fn summary_returns_in_expr(&self, expr: &Expr, env: &Table<LocalId, Vec<ReturnOrigin>>) -> (r: Vec<ReturnOrigin>)
        ensures
            r.deep_view() == expr_returns(self@, *expr, env@),
        decreases expr_size(*expr), 2nat,
    {
        match &expr.kind {
            ExprKind::Return(v) => match v {
                Some(value) => self.summary_expr(value, env),
                None => no_origins(),
            },
            ExprKind::If { cond: _, then_branch, else_branch } => {
                let mut acc = self.summary_block(then_branch, env.dup());
                if let Some(e) = else_branch {
                    let more = self.summary_returns_in_expr(e, env);
                    join_new(&mut acc, &more);
                }
                acc
            },
            ExprKind::Match { scrutinee: _, arms } => {
                let mut acc = no_origins();
                let mut i: usize = 0;
                while i < arms.len()
                    invariant
                        i <= arms.len(),
                        arms_size(arms@, i as int) <= arms_size(arms@, 0),
                        arms_size(arms@, 0) < expr_size(*expr),
                        arms_return(self@, arms@, i as int, acc.deep_view(), env@) == arms_return(
                            self@,
                            arms@,
                            0,
                            Seq::empty(),
                            env@,
                        ),
                    decreases arms.len() - i,
                {
                    let more = self.summary_returns_in_expr(&arms[i].body, env);
                    join_new(&mut acc, &more);
                    i += 1;
                }
                acc
            },
            ExprKind::Block(b) => self.summary_block(b, env.dup()),
            ExprKind::Loop { body } => self.summary_block(body, env.dup()),
            ExprKind::While { cond: _, body } => self.summary_block(body, env.dup()),
            ExprKind::ForIn { pattern: _, iter: _, body } => self.summary_block(body, env.dup()),
            _ => no_origins(),
        }
    }

    fn called_fn(&self, callee: &Expr) -> (r: Option<DefId>)
        ensures
            r == called(self@, *callee),
    {
        match &callee.kind {
            ExprKind::Path(path) => match self.names.path_of(path.id) {
                Some(res) => match res.base {
                    Resolution::Def(id) => Some(id),
                    _ => None,
                },
                None => None,
            },
            _ => None,
        }
    }

    /// The origins of an expression's value.
    pub fn summary_expr(&self, expr: &Expr, env: &Table<LocalId, Vec<ReturnOrigin>>) -> (r: Vec<ReturnOrigin>)
        ensures
            r.deep_view() == expr_origins(self@, *expr, env@),
        decreases expr_size(*expr), 2nat,
    {
        match &expr.kind {
            ExprKind::Path(path) => match self.names.path_of(path.id) {
                Some(res) => match res.base {
                    Resolution::Local(local) => match env.get(&local) {
                        Some(o) => o.dup(),
                        None => no_origins(),
                    },
                    _ => no_origins(),
                },
                None => no_origins(),
            },
            ExprKind::Call { callee, generic_args: _, args } => match self.called_fn(callee) {
                Some(id) => match self.fns.get(&id) {
                    Some(summary) => self.summary_call(args, summary, env),
                    None => no_origins(),
                },
                None => no_origins(),
            },
            ExprKind::If { cond: _, then_branch, else_branch } => {
                let mut acc = self.summary_tail(then_branch, env);
                if let Some(e) = else_branch {
                    let more = self.summary_expr(e, env);
                    join_new(&mut acc, &more);
                }
                acc
            },
            ExprKind::Match { scrutinee: _, arms } => {
                let mut acc = no_origins();
                let mut i: usize = 0;
                while i < arms.len()
                    invariant
                        i <= arms.len(),
                        arms_size(arms@, i as int) <= arms_size(arms@, 0),
                        arms_size(arms@, 0) < expr_size(*expr),
                        arms_origins(self@, arms@, i as int, acc.deep_view(), env@) == arms_origins(
                            self@,
                            arms@,
                            0,
                            Seq::empty(),
                            env@,
                        ),
                    decreases arms.len() - i,
                {
                    let more = self.summary_expr(&arms[i].body, env);
                    join_new(&mut acc, &more);
                    i += 1;
                }
                acc
            },
            ExprKind::Block(b) => self.summary_tail(b, env),
            _ => no_origins(),
        }
    }

    fn summary_tail(&self, block: &Block, env: &Table<LocalId, Vec<ReturnOrigin>>) -> (r: Vec<ReturnOrigin>)
        ensures
            r.deep_view() == tail_origins(self@, *block, env@),
        decreases block_size(*block), 0nat,
    {
        match &block.tail {
            Some(tail) => self.summary_expr(tail, env),
            None => no_origins(),
        }
    }

    fn summary_call(&self, args: &Vec<Expr>, summary: &Vec<ReturnOrigin>, env: &Table<LocalId, Vec<ReturnOrigin>>) -> (r: Vec<ReturnOrigin>)
        ensures
            r.deep_view() == call_origins(self@, args@, summary.deep_view(), 0, Seq::empty(), env@),
        decreases exprs_size(args@, 0), 3nat,
    {
        let mut acc = no_origins();
        let mut i: usize = 0;
        while i < summary.len()
            invariant
                i <= summary.len(),
                call_origins(self@, args@, summary.deep_view(), i as int, acc.deep_view(), env@) == call_origins(
                    self@,
                    args@,
                    summary.deep_view(),
                    0,
                    Seq::empty(),
                    env@,
                ),
            decreases summary.len() - i,
        {
            if let ReturnOrigin::Parameter(p) = summary[i] {
                if p < args.len() {
                    proof {
                        lemma_exprs_size(args@, 0, p as int);
                    }
                    let more = self.summary_expr(&args[p], env);
                    join_new(&mut acc, &more);
                }
            }
            i += 1;
        }
        acc
    }

    fn summary_body(&self, f: &FnDecl, with_self: bool) -> (r: Vec<ReturnOrigin>)
        ensures
            r.deep_view() == body_summary(self@, *f, with_self),
    {
        let body = match &f.body {
            Some(b) => b,
            None => {
                return no_origins();
            },
        };
        let mut env: Table<LocalId, Vec<ReturnOrigin>> = Table::new();
        if let Some(local) = self.names.local_of(f.id) {
            if with_self && f.self_param.is_some() {
                env.insert(local, one_origin(ReturnOrigin::SelfValue));
            }
        }
        let ghost env0 = env@;
        let mut i: usize = 0;
        while i < f.params.len()
            invariant
                i <= f.params.len(),
                param_origins(*self.names, f.params@, i as int, env@) == param_origins(*self.names, f.params@, 0, env0),
            decreases f.params.len() - i,
        {
            if let Some(local) = self.names.local_of(f.params[i].id) {
                env.insert(local, one_origin(ReturnOrigin::Parameter(i)));
            }
            i += 1;
        }
        let found = self.summary_block(body, env);
        in_order(&found, f.params.len())
    }
}

/// The origins in their fixed order.
fn in_order(found: &Vec<ReturnOrigin>, n: usize) -> (r: Vec<ReturnOrigin>)
    ensures
        r.deep_view() == ordered(found.deep_view(), n as int),
{
    let mut out = if occurs(found, &ReturnOrigin::SelfValue) {
        one_origin(ReturnOrigin::SelfValue)
    } else {
        no_origins()
    };
    let ghost out0 = out.deep_view();
    let mut j: usize = 0;
    while j < n
        invariant
            j <= n,
            ordered_from(found.deep_view(), j as int, n as int, out.deep_view()) == ordered_from(
                found.deep_view(),
                0,
                n as int,
                out0,
            ),
        decreases n - j,
    {
        let p = ReturnOrigin::Parameter(j);
        if occurs(found, &p) {
            put(&mut out, p);
        }
        j += 1;
    }
    out
}

/// Whether a list has all origins of another.
fn has_all_origins(a: &Vec<ReturnOrigin>, b: &Vec<ReturnOrigin>) -> (r: bool)
    ensures
        r == covers(a.deep_view(), b.deep_view()),
{
    let ghost bv = b.deep_view();
    let mut i: usize = 0;
    while i < b.len()
        invariant
            i <= b.len(),
            bv == b.deep_view(),
            forall|j: int| 0 <= j < i ==> a.deep_view().contains(#[trigger] bv[j]),
        decreases b.len() - i,
    {
        if !occurs(a, &b[i]) {
            proof {
                assert(bv[i as int] == b[i as int].deep_view());
                assert(bv.contains(bv[i as int]));
            }
            return false;
        }
        i += 1;
    }
    true
}

impl Signatures {
    fn fn_summaries(&self) -> (r: Table<DefId, Vec<ReturnOrigin>>)
        ensures
            r@ == summaries_of(self@),
    {
        let mut out: Table<DefId, Vec<ReturnOrigin>> = Table::new();
        let mut i: usize = 0;
        while i < self.fns.entries.len()
            invariant
                i <= self.fns.entries.len(),
                forall|id: DefId| #[trigger] out@.contains_key(id) ==> self@.fns.contains_key(id) && out@[id]
                    == self@.fns[id].return_origins,
                forall|j: int| 0 <= j < i ==> out@.contains_key((#[trigger] self.fns.pairs()[j]).0),
            decreases self.fns.entries.len() - i,
        {
            let id = self.fns.entries[i].0;
            assert(self.fns.pairs()[i as int].0 == id);
            if let Some(sig) = self.fns.get(&id) {
                out.insert(id, sig.return_origins.dup());
            }
            proof {
                crate::table::lemma_pair_index(self.fns.pairs(), id);
                assert(self@.fns.contains_key(id));
            }
            i += 1;
        }
        proof {
            assert forall|id: DefId| self@.fns.contains_key(id) implies out@.contains_key(id) by {
                crate::table::lemma_pair_index(self.fns.pairs(), id);
                let j = crate::table::pair_index(self.fns.pairs(), id);
                assert(self.fns.pairs()[j].0 == id);
            }
            assert(out@ =~= summaries_of(self@));
        }
        out
    }
}

impl<'a> Scope<'a> {
    /// Computes the summaries of all functions.
    pub fn infer_return_origin_summaries(&self, sigs: &mut Signatures)
        ensures
            final(sigs)@ == with_fn_summaries(self@, old(sigs)@),
            next_round(self@, final(sigs)@) == final(sigs)@,
    {
        let ghost s = sigs@;
        self.clear_summaries(sigs);
        loop
            invariant
                settled(self@, sigs@) == with_fn_summaries(self@, s),
            ensures
                next_round(self@, sigs@) == sigs@,
                sigs@ == with_fn_summaries(self@, s),
            decreases room(self@, sigs@, 0),
        {
            let ghost before = sigs@;
            if !self.summary_round(sigs) {
                break;
            }
            proof {
                lemma_rounds_end(self@, before);
            }
        }
    }

    /// Forgets the summaries of the module's functions.
    fn clear_summaries(&self, sigs: &mut Signatures)
        ensures
            final(sigs)@ == cleared_from(self@, old(sigs)@, 0),
    {
        let ghost s = sigs@;
        let mut i: usize = self.module.items.len();
        proof {
            assert(cleared_from(self@, s, i as int).fns =~= s.fns);
        }
        while i > 0
            invariant
                i <= self.module.items.len(),
                sigs@ == cleared_from(self@, s, i as int),
            decreases i,
        {
            i -= 1;
            let mut here: Option<DefId> = None;
            if let Item::Fn(f) = &self.module.items[i] {
                if let Some(id) = self.names.definitions.lookup_in(f.span.file, &f.name.name) {
                    here = Some(id);
                    forget_origins(id, sigs);
                }
            }
            proof {
                let t = cleared_from(self@, s, i as int);
                assert forall|id: DefId| here != Some(id) implies fn_from(self@, id, i as int) == fn_from(
                    self@,
                    id,
                    i + 1,
                ) by {}
                assert(sigs@.fns =~= t.fns);
                assert(sigs@ == t);
            }
        }
    }

    /// Whether an item from the `i`-th on is a function of this definition.
    fn is_fn_from(&self, id: DefId, i: usize) -> (r: bool)
        requires
            i <= self.module.items.len(),
        ensures
            r == (fn_from(self@, id, i as int) is Some),
    {
        let mut j: usize = self.module.items.len();
        while j > i
            invariant
                i <= j <= self.module.items.len(),
                fn_from(self@, id, j as int) is None,
            decreases j,
        {
            j -= 1;
            if let Item::Fn(f) = &self.module.items[j] {
                if let Some(found) = self.names.definitions.lookup_in(f.span.file, &f.name.name) {
                    if found == id {
                        proof {
                            lemma_fn_earlier(self@, id, i as int, j as int);
                        }
                        return true;
                    }
                }
            }
        }
        false
    }

    /// Regards every function once.
    fn summary_round(&self, sigs: &mut Signatures) -> (changed: bool)
        ensures
            final(sigs)@ == next_round(self@, old(sigs)@),
            changed == (final(sigs)@ != old(sigs)@),
    {
        let known = Summaries { names: self.names, fns: sigs.fn_summaries() };
        let ghost s = sigs@;
        let ghost mut which: DefId = arbitrary();
        let mut changed: bool = false;
        let mut i: usize = 0;
        proof {
            assert(regarded_before(self@, s, 0).fns =~= s.fns);
        }
        while i < self.module.items.len()
            invariant
                i <= self.module.items.len(),
                known@ == known_of(self@, s),
                sigs@ == regarded_before(self@, s, i as int),
                !changed ==> sigs@ == s,
                changed ==> s.fns.contains_key(which) && regarded(self@, s, which) != s.fns[which],
            decreases self.module.items.len() - i,
        {
            let ghost before = sigs@;
            let mut here: Option<DefId> = None;
            if let Item::Fn(f) = &self.module.items[i] {
                if let Some(id) = self.names.definitions.lookup_in(f.span.file, &f.name.name) {
                    if !self.is_fn_from(id, i + 1) {
                        here = Some(id);
                        proof {
                            lemma_fn_from(self@, id, i as int);
                        }
                        if summarize(&known, f, id, sigs) {
                            changed = true;
                            proof {
                                which = id;
                            }
                        }
                    }
                }
            }
            proof {
                let t = regarded_before(self@, s, i + 1);
                assert forall|id: DefId| s.fns.contains_key(id) && here != Some(id) implies (fn_from(
                    self@,
                    id,
                    i as int,
                ) is None) == (fn_from(self@, id, i + 1) is None) by {}
                assert(sigs@.fns =~= t.fns);
                assert(sigs@ == t);
            }
            i += 1;
        }
        proof {
            let t = next_round(self@, s);
            assert(sigs@.fns =~= t.fns);
            if changed {
                assert(sigs@.fns[which] != s.fns[which]);
            }
        }
        changed
    }

    /// Computes the summaries of all methods.
    pub fn infer_method_origin_summaries(&self, sigs: &mut Signatures)
        ensures
            final(sigs)@ == with_method_summaries(self@, old(sigs)@),
    {
        let known = Summaries { names: self.names, fns: sigs.fn_summaries() };
        let mut i: usize = 0;
        while i < self.module.items.len()
            invariant
                i <= self.module.items.len(),
                with_impls_from(self@, known@, i as int, sigs@) == with_impls_from(self@, known@, 0, old(sigs)@),
            decreases self.module.items.len() - i,
        {
            if let Item::Impl(b) = &self.module.items[i] {
                if let Some(owner) = self.names.definitions.lookup_in(b.span.file, &b.target.name) {
                    let mut ignored: Vec<Diagnostic> = Vec::new();
                    proof {
                        assert(ignored.deep_view() =~= Seq::empty());
                    }
                    let args = self.impl_specialization_args(b, owner, &mut ignored);
                    summarize_methods(&known, owner, &args, &b.methods, sigs);
                }
            }
            i += 1;
        }
    }
}

/// The signatures without the summary of a function that returns a reference.
pub open spec fn forgotten(id: DefId, s: Sigs) -> Sigs {
    match s.fns.get(id) {
        Some(sig) => if sig.ret is Ref || sig.ret is MutRef {
            Sigs { fns: s.fns.insert(id, Sig { return_origins: Seq::empty(), ..sig }), ..s }
        } else {
            s
        },
        None => s,
    }
}

fn forget_origins(id: DefId, sigs: &mut Signatures)
    ensures
        final(sigs)@ == forgotten(id, old(sigs)@),
{
    let updated = match sigs.fns.get(&id) {
        Some(sig) => {
            if !sig.ret.is_reference() {
                return;
            }
            let mut updated = sig.dup();
            updated.return_origins = no_origins();
            updated
        },
        None => {
            return;
        },
    };
    sigs.fns.insert(id, updated);
}

/// The signatures with what a function's body returns added to its summary.
pub open spec fn summarized(k: Known, f: FnDecl, id: DefId, s: Sigs) -> Sigs {
    match s.fns.get(id) {
        Some(sig) => if sig.ret is Ref || sig.ret is MutRef {
            Sigs {
                fns: s.fns.insert(
                    id,
                    Sig {
                        return_origins: widened(
                            sig.return_origins,
                            body_summary(k, f, false),
                            f.params@.len() as int,
                        ),
                        ..sig
                    },
                ),
                ..s
            }
        } else {
            s
        },
        None => s,
    }
}

fn summarize(known: &Summaries<'_>, f: &FnDecl, id: DefId, sigs: &mut Signatures) -> (changed: bool)
    ensures
        final(sigs)@ == summarized(known@, *f, id, old(sigs)@),
        changed == (final(sigs)@ != old(sigs)@),
        changed ==> old(sigs)@.fns.contains_key(id) && final(sigs)@.fns[id] != old(sigs)@.fns[id],
{
    let ghost s = sigs@;
    let updated = match sigs.fns.get(&id) {
        Some(sig) => {
            if !sig.ret.is_reference() {
                return false;
            }
            let o = known.summary_body(f, false);
            if has_all_origins(&sig.return_origins, &o) {
                proof {
                    assert(summarized(known@, *f, id, s).fns =~= s.fns);
                }
                return false;
            }
            let mut all = sig.return_origins.dup();
            join_new(&mut all, &o);
            let mut updated = sig.dup();
            updated.return_origins = in_order(&all, f.params.len());
            proof {
                let a = s.fns[id].return_origins;
                let b = o.deep_view();
                let x = choose|x: ReturnOrigin| #![trigger b.contains(x)] b.contains(x) && !a.contains(x);
                lemma_summary_in_range(known@, *f, false, x);
                lemma_widened(a, b, f.params@.len() as int, x);
            }
            updated
        },
        None => {
            return false;
        },
    };
    sigs.fns.insert(id, updated);
    true
}

fn summarize_methods(
    known: &Summaries<'_>,
    owner: DefId,
    args: &Option<Vec<Type>>,
    ms: &Vec<FnDecl>,
    sigs: &mut Signatures,
)
    ensures
        final(sigs)@ == with_methods_from(known@, owner, args.deep_view(), ms@, 0, old(sigs)@),
{
    let ghost av = args.deep_view();
    let mut i: usize = 0;
    while i < ms.len()
        invariant
            i <= ms.len(),
            av == args.deep_view(),
            with_methods_from(known@, owner, av, ms@, i as int, sigs@) == with_methods_from(
                known@,
                owner,
                av,
                ms@,
                0,
                old(sigs)@,
            ),
        decreases ms.len() - i,
    {
        let domain = ReceiverDomain::of_self_param(ms[i].self_param.as_ref());
        let key: (DefId, Symbol, ReceiverDomain) = (owner, ms[i].name.name.clone(), domain);
        let updated = match sigs.methods.get(&key) {
            Some(set) => {
                let o = known.summary_body(&ms[i], true);
                Some(body_origins(set, args, &o))
            },
            None => None,
        };
        if let Some(set) = updated {
            sigs.methods.insert(key, set);
        }
        i += 1;
    }
}

fn body_origins(set: &MethodSet, args: &Option<Vec<Type>>, o: &Vec<ReturnOrigin>) -> (r: MethodSet)
    ensures
        r.deep_view() == with_body_origins(set.deep_view(), args.deep_view(), o.deep_view()),
{
    match args {
        Some(a) => replace_concrete_origins(set, a, o),
        None => replace_general_origins(set, o),
    }
}

fn replace_concrete_origins(set: &MethodSet, args: &Vec<Type>, o: &Vec<ReturnOrigin>) -> (r: MethodSet)
    ensures
        r.deep_view() == with_concrete_origins(set.deep_view(), args.deep_view(), o.deep_view()),
{
    let ghost all = set.deep_view().specializations;
    let ghost want = with_concrete_origins(set.deep_view(), args.deep_view(), o.deep_view()).specializations;
    let mut specializations: Vec<(Vec<Type>, FnSig)> = Vec::new();
    let mut i: usize = 0;
    while i < set.specializations.len()
        invariant
            i <= set.specializations.len(),
            all == set.specializations.deep_view(),
            all == set.deep_view().specializations,
            want == with_concrete_origins(set.deep_view(), args.deep_view(), o.deep_view()).specializations,
            specializations.len() == i,
            forall|j: int| 0 <= j < i ==> (#[trigger] specializations@[j]).deep_view() == want[j],
        decreases set.specializations.len() - i,
    {
        let mut copy = set.specializations[i].1.dup();
        if set.specializations[i].0.same(args) && copy.ret.is_reference() {
            copy.return_origins = o.dup();
        }
        specializations.push((set.specializations[i].0.dup(), copy));
        proof {
            assert(all[i as int] == set.specializations@[i as int].deep_view());
        }
        i += 1;
    }
    let generic = match &set.generic {
        Some(sig) => Some(sig.dup()),
        None => None,
    };
    let r = MethodSet { generic, specializations };
    proof {
        assert(r.deep_view().specializations =~= want);
    }
    r
}

fn replace_general_origins(set: &MethodSet, o: &Vec<ReturnOrigin>) -> (r: MethodSet)
    ensures
        r.deep_view() == with_general_origins(set.deep_view(), o.deep_view()),
{
    let generic = match &set.generic {
        Some(sig) => {
            let mut copy = sig.dup();
            if sig.ret.is_reference() {
                copy.return_origins = o.dup();
            }
            Some(copy)
        },
        None => None,
    };
    MethodSet { generic, specializations: set.specializations.dup() }
}

} // verus!
