//! How moves and types flow through branches, arms and loops.
use crate::ast::{Block, Expr, MatchArm, Pattern};
use crate::check::facts::require_bool;
use crate::check::growth::{group_grows, group_steps, grows, lemma_one_error};
use crate::check::model::{block, conditional, expr, for_in, loop_body, match_arms, matching, ArmSt};
use crate::check::patterns::{pattern, PatSt};
use crate::check::record::{run_arm, run_expr, run_loop_body};
use crate::check::rules::{all_merged, arms_retyped, exhaustive, tail_retyped};
use crate::check::state::{Env, St};
use crate::check::typing::{is_unit, no_error};
use crate::ids::{LocalId, Span};
use crate::ty::{fits, has_error, law_rigid_types_fit_only_themselves, rigid, some_error, Ty};
use vstd::prelude::*;

verus! {

broadcast use {group_grows, group_steps, lemma_one_error};

/// What an arm comes to on a value of type `t`: its pattern is bound, then its
/// body is checked.
#[verifier::opaque]
pub open spec fn arm_result(e: Env, start: PatSt, arm: MatchArm, t: Ty, want: Option<Ty>) -> (St, Ty) {
    expr(e, pattern(e, start, arm.pattern, t, true).st, arm.body, want)
}

/// How the arms of a `match` are checked one after the other.
pub struct ArmsRun {
    /// The state before each arm's pattern.
    pub starts: Seq<PatSt>,
    /// What is expected of each arm.
    pub wants: Seq<Option<Ty>>,
    /// The state at the end of each arm, and the arm's type.
    pub ends: Seq<(St, Ty)>,
}

/// Whether the `k`-th arm starts from the state that the one before it ended
/// in, but for what that one moved.
pub open spec fn follows(moved: Map<LocalId, Span>, run: ArmsRun, k: int) -> bool {
    run.starts[k].st == (St { moved, diags: run.starts[k].st.diags, ..run.ends[k - 1].0 })
}

/// Whether the `k`-th end of a run is what the arm comes to, which starts with
/// these locals moved.
pub open spec fn ends_at(
    e: Env,
    moved: Map<LocalId, Span>,
    arm: MatchArm,
    t: Ty,
    expected: Option<Ty>,
    run: ArmsRun,
    k: int,
) -> bool {
    &&& run.ends[k] == arm_result(e, run.starts[k], arm, t, run.wants[k])
    &&& run.starts[k].st.moved == moved
    &&& expected is Some ==> run.wants[k] == expected
}

/// Whether arms are checked this way on a value of type `t`: each binds its
/// pattern and then checks its body, and starts from what was moved before all
/// of them.
pub open spec fn arms_run(
    e: Env,
    st: St,
    arms: Seq<MatchArm>,
    t: Ty,
    expected: Option<Ty>,
    run: ArmsRun,
) -> bool {
    &&& run.starts.len() == arms.len()
    &&& run.wants.len() == arms.len()
    &&& run.ends.len() == arms.len()
    &&& arms.len() > 0 ==> run.starts[0] == (PatSt { st, covered: Seq::empty(), catch_all: false })
    &&& forall|k: int| 0 <= k < arms.len() ==> #[trigger] ends_at(e, st.moved, arms[k], t, expected, run, k)
    &&& forall|k: int| 0 < k < arms.len() ==> #[trigger] follows(st.moved, run, k)
}

/// Whether an arm that reaches the end of its `match` has moved a local.
pub open spec fn moved_in_some(ends: Seq<(St, Ty)>, l: LocalId) -> bool {
    exists|k: int| #![trigger ends[k]] 0 <= k < ends.len() && !(ends[k].1 is Never) && ends[k].0.moved.contains_key(l)
}

/// The parts of a run, from the `i`-th arm on.
pub open spec fn run_from(
    e: Env,
    a: ArmSt,
    arms: Seq<MatchArm>,
    i: int,
    t: Ty,
    expected: Option<Ty>,
    run: ArmsRun,
) -> bool {
    let n = arms.len() - i;
    &&& run.starts.len() == n
    &&& run.wants.len() == n
    &&& run.ends.len() == n
    &&& n > 0 ==> run.starts[0] == a.ps
    &&& forall|k: int| 0 <= k < n ==> #[trigger] ends_at(e, a.ps.st.moved, arms[i + k], t, expected, run, k)
    &&& forall|k: int| 0 < k < n ==> #[trigger] follows(a.ps.st.moved, run, k)
}

/// What is expected of an arm.
pub open spec fn arm_want(a: ArmSt, expected: Option<Ty>) -> Option<Ty> {
    match expected {
        Some(w) => Some(w),
        None => a.result,
    }
}

/// The end of one arm.
pub open spec fn arm_end(e: Env, a: ArmSt, arm: MatchArm, t: Ty, expected: Option<Ty>) -> (St, Ty) {
    arm_result(e, a.ps, arm, t, arm_want(a, expected))
}

/// After one arm.
#[verifier::opaque]
pub open spec fn arm_step(e: Env, a: ArmSt, arm: MatchArm, t: Ty, expected: Option<Ty>) -> ArmSt {
    match_arms(e, a, seq![arm], 0, t, expected)
}

/// The run of the arms from the `i`-th on.
pub open spec fn run_of(e: Env, a: ArmSt, arms: Seq<MatchArm>, i: int, t: Ty, expected: Option<Ty>) -> ArmsRun
    decreases arms.len() - i,
{
    if 0 <= i < arms.len() {
        let rest = run_of(e, arm_step(e, a, arms[i], t, expected), arms, i + 1, t, expected);
        ArmsRun {
            starts: seq![a.ps] + rest.starts,
            wants: seq![arm_want(a, expected)] + rest.wants,
            ends: seq![arm_end(e, a, arms[i], t, expected)] + rest.ends,
        }
    } else {
        ArmsRun { starts: Seq::empty(), wants: Seq::empty(), ends: Seq::empty() }
    }
}

/// What one arm does.
proof fn lemma_arm_step(e: Env, a: ArmSt, arms: Seq<MatchArm>, i: int, t: Ty, expected: Option<Ty>)
    requires
        0 <= i < arms.len(),
        !a.ps.st.silent,
    ensures
        ({
            let next = arm_step(e, a, arms[i], t, expected);
            let (st1, b) = arm_end(e, a, arms[i], t, expected);
            &&& match_arms(e, a, arms, i, t, expected) == match_arms(e, next, arms, i + 1, t, expected)
            &&& next.ps.st == (St { moved: a.ps.st.moved, diags: next.ps.st.diags, ..st1 })
            &&& !next.ps.st.silent
            &&& next.ps.st.diags.len() >= st1.diags.len() >= a.ps.st.diags.len()
            &&& next.moves == a.moves.push((b is Never, st1.moved))
            &&& next.result == Some(
                match a.result {
                    None => b,
                    Some(p) => if p is Never || has_error(p) && !has_error(b) {
                        b
                    } else {
                        p
                    },
                },
            )
            &&& no_error(a.ps.st, next.ps.st) ==> (a.result matches Some(p) ==> fits(p, b))
        }),
{
    reveal(arm_step);
    reveal(arm_result);
    reveal_with_fuel(match_arms, 3);
    run_arm(e, a, arms[i], t, arm_want(a, expected));
    let one = seq![arms[i]];
    assert(one[0] == arms[i]);
    assert(one.len() == 1);
}

proof fn lemma_run_from(e: Env, a: ArmSt, arms: Seq<MatchArm>, i: int, t: Ty, expected: Option<Ty>)
    requires
        0 <= i <= arms.len(),
        !a.ps.st.silent,
    ensures
        run_from(e, a, arms, i, t, expected, run_of(e, a, arms, i, t, expected)),
    decreases arms.len() - i,
{
    if i < arms.len() {
        lemma_arm_step(e, a, arms, i, t, expected);
        let next = arm_step(e, a, arms[i], t, expected);
        lemma_run_from(e, next, arms, i + 1, t, expected);
        let rest = run_of(e, next, arms, i + 1, t, expected);
        let run = run_of(e, a, arms, i, t, expected);
        let moved = a.ps.st.moved;
        assert forall|k: int| 0 < k < arms.len() - i implies #[trigger] follows(moved, run, k) by {
            if k > 1 {
                assert(follows(moved, rest, k - 1));
            } else {
                assert(rest.starts[0] == next.ps);
            }
        }
        assert forall|k: int| 0 <= k < arms.len() - i implies #[trigger] ends_at(
            e,
            moved,
            arms[i + k],
            t,
            expected,
            run,
            k,
        ) by {
            if k > 0 {
                assert(arms[i + k] == arms[(i + 1) + (k - 1)]);
                assert(ends_at(e, moved, arms[(i + 1) + (k - 1)], t, expected, rest, k - 1));
            }
        }
    }
}

proof fn lemma_run_moves(e: Env, a: ArmSt, arms: Seq<MatchArm>, i: int, t: Ty, expected: Option<Ty>)
    requires
        0 <= i <= arms.len(),
        !a.ps.st.silent,
    ensures
        ({
            let run = run_of(e, a, arms, i, t, expected);
            let b = match_arms(e, a, arms, i, t, expected);
            &&& run.ends.len() == arms.len() - i
            &&& b.ps.st.moved == a.ps.st.moved
            &&& !b.ps.st.silent
            &&& b.moves.len() == a.moves.len() + (arms.len() - i)
            &&& forall|k: int| #![trigger b.moves[k]] 0 <= k < a.moves.len() ==> b.moves[k] == a.moves[k]
            &&& forall|k: int|
                #![trigger run.ends[k]]
                0 <= k < arms.len() - i ==> b.moves[a.moves.len() + k] == (
                    run.ends[k].1 is Never,
                    run.ends[k].0.moved,
                )
            &&& b.ps.st.diags.len() >= a.ps.st.diags.len()
        }),
    decreases arms.len() - i,
{
    if i < arms.len() {
        lemma_arm_step(e, a, arms, i, t, expected);
        let next = arm_step(e, a, arms[i], t, expected);
        lemma_run_moves(e, next, arms, i + 1, t, expected);
        let rest = run_of(e, next, arms, i + 1, t, expected);
        let run = run_of(e, a, arms, i, t, expected);
        let last = match_arms(e, a, arms, i, t, expected);
        assert forall|k: int|
            #![trigger run.ends[k]]
            0 <= k < arms.len() - i implies last.moves[a.moves.len() + k] == (
            run.ends[k].1 is Never,
            run.ends[k].0.moved,
        ) by {
            if k == 0 {
                assert(last.moves[a.moves.len() as int] == next.moves[a.moves.len() as int]);
            } else {
                assert(rest.ends[k - 1] == run.ends[k]);
                assert(last.moves[next.moves.len() + (k - 1)] == (
                    rest.ends[k - 1].1 is Never,
                    rest.ends[k - 1].0.moved,
                ));
            }
        }
        assert forall|k: int| #![trigger last.moves[k]] 0 <= k < a.moves.len() implies last.moves[k] == a.moves[k] by {
            assert(last.moves[k] == next.moves[k]);
        }
    }
}

/// Whether every arm's type is fully known, or the arm yields nothing.
pub open spec fn known_ends(ends: Seq<(St, Ty)>) -> bool {
    forall|k: int| #![trigger ends[k]] 0 <= k < ends.len() ==> ends[k].1 is Never || rigid(ends[k].1)
}

/// Whether every arm yields this type, or nothing.
pub open spec fn ends_are(ends: Seq<(St, Ty)>, r: Ty) -> bool {
    forall|k: int| #![trigger ends[k]] 0 <= k < ends.len() ==> ends[k].1 is Never || ends[k].1 == r
}

proof fn lemma_run_types(e: Env, a: ArmSt, arms: Seq<MatchArm>, i: int, t: Ty, expected: Option<Ty>)
    requires
        0 <= i <= arms.len(),
        !a.ps.st.silent,
        no_error(a.ps.st, match_arms(e, a, arms, i, t, expected).ps.st),
        known_ends(run_of(e, a, arms, i, t, expected).ends),
        a.result matches Some(p) ==> p is Never || rigid(p),
    ensures
        ({
            let b = match_arms(e, a, arms, i, t, expected);
            &&& i < arms.len() ==> b.result is Some
            &&& i == arms.len() ==> b.result == a.result
            &&& b.result matches Some(r) ==> ends_are(run_of(e, a, arms, i, t, expected).ends, r) && (
            a.result matches Some(p) ==> p is Never || p == r)
        }),
    decreases arms.len() - i,
{
    if i < arms.len() {
        lemma_arm_step(e, a, arms, i, t, expected);
        let next = arm_step(e, a, arms[i], t, expected);
        let rest = run_of(e, next, arms, i + 1, t, expected);
        let run = run_of(e, a, arms, i, t, expected);
        let b = arm_end(e, a, arms[i], t, expected).1;
        lemma_run_moves(e, next, arms, i + 1, t, expected);
        assert(run.ends[0].1 == b);
        if let Some(prior) = a.result {
            assert(fits(prior, b));
            if !(prior is Never) {
                lemma_rigid_is_known(prior);
                if !(b is Never) {
                    law_rigid_types_fit_only_themselves(prior, b);
                }
            }
        }
        assert forall|k: int| #![trigger rest.ends[k]] 0 <= k < rest.ends.len() implies rest.ends[k].1 is Never
            || rigid(rest.ends[k].1) by {
            assert(rest.ends[k] == run.ends[k + 1]);
        }
        lemma_run_types(e, next, arms, i + 1, t, expected);
        let r = match_arms(e, a, arms, i, t, expected).result->0;
        assert forall|k: int| #![trigger run.ends[k]] 0 <= k < run.ends.len() implies run.ends[k].1 is Never
            || run.ends[k].1 == r by {
            if k > 0 {
                assert(run.ends[k] == rest.ends[k - 1]);
            }
        }
    }
}

/// A type in which everything is known has nothing unknown.
pub proof fn lemma_rigid_is_known(t: Ty)
    requires
        rigid(t),
    ensures
        !has_error(t),
    decreases t,
{
    match t {
        Ty::Struct(_, args) | Ty::TupleStruct(_, args) | Ty::Tuple(args) | Ty::Enum(_, args) | Ty::Any(_, args)
        | Ty::Opaque(_, args) => lemma_rigid_are_known(args),
        Ty::FixedArray(a, n) => {
            lemma_rigid_is_known(*a);
            lemma_rigid_is_known(*n);
        },
        Ty::Array(a) | Ty::Associated(a, _) | Ty::Unique(a) | Ty::Ref(a) | Ty::MutRef(a) | Ty::Task(a)
        | Ty::Thread(a) => lemma_rigid_is_known(*a),
        Ty::Function(ps, r) => {
            lemma_rigid_are_known(ps);
            lemma_rigid_is_known(*r);
        },
        _ => {},
    }
}

proof fn lemma_rigid_are_known(s: Seq<Ty>)
    requires
        crate::ty::all_rigid(s),
    ensures
        !some_error(s),
    decreases s,
{
    assert forall|i: int| #![trigger s[i]] 0 <= i < s.len() implies !has_error(s[i]) by {
        lemma_rigid_is_known(s[i]);
    }
}

proof fn lemma_all_merged(st: St, moves: Seq<(bool, Map<LocalId, Span>)>, i: int, l: LocalId)
    requires
        0 <= i,
    ensures
        all_merged(st, moves, i).moved.contains_key(l) <==> st.moved.contains_key(l) || exists|k: int|
            #![trigger moves[k]]
            i <= k < moves.len() && !moves[k].0 && moves[k].1.contains_key(l),
    decreases moves.len() - i,
{
    if i < moves.len() {
        let s = st.merged(moves[i].0, moves[i].1);
        assert(s.moved.contains_key(l) <==> st.moved.contains_key(l) || (!moves[i].0 && moves[i].1.contains_key(l)));
        lemma_all_merged(s, moves, i + 1, l);
    }
}

proof fn lemma_retyped_moves_nothing(st: St, arms: Seq<MatchArm>, i: int, result: Ty)
    ensures
        arms_retyped(st, arms, i, result).moved == st.moved,
    decreases arms.len() - i,
{
    if 0 <= i < arms.len() {
        let id = arms[i].body.id;
        let st1 = match st.expr_types.get(id) {
            Some(t) => if fits(t, result) && crate::check::rules::unknown_enum(t) {
                st.typed(id, result)
            } else {
                st
            },
            None => st,
        };
        lemma_retyped_moves_nothing(st1, arms, i + 1, result);
    }
}

/// After a `match` a local is moved exactly if it was after the scrutinee, or if
/// an arm that comes to its end has moved it; each arm starts from what was
/// moved after the scrutinee, whatever the arms before it moved.
pub proof fn law_match_moves_what_an_arm_moves(
    e: Env,
    st: St,
    scrutinee: Expr,
    arms: Seq<MatchArm>,
    span: Span,
    expected: Option<Ty>,
) -> (run: ArmsRun)
    requires
        !st.silent,
    ensures
        ({
            let (st1, t) = expr(e, st, scrutinee, None);
            arms_run(e, st1, arms, t, expected, run)
        }),
        forall|l: LocalId|
            #![trigger matching(e, st, scrutinee, arms, span, expected).0.moved.contains_key(l)]
            matching(e, st, scrutinee, arms, span, expected).0.moved.contains_key(l) <==> expr(
                e,
                st,
                scrutinee,
                None,
            ).0.moved.contains_key(l) || moved_in_some(run.ends, l),
{
    run_expr(e, st, scrutinee, None);
    let (st1, t) = expr(e, st, scrutinee, None);
    let a = ArmSt { ps: PatSt { st: st1, covered: Seq::empty(), catch_all: false }, result: None, moves: Seq::empty() };
    let run = run_of(e, a, arms, 0, t, expected);
    lemma_run_from(e, a, arms, 0, t, expected);
    lemma_run_moves(e, a, arms, 0, t, expected);
    let b = match_arms(e, a, arms, 0, t, expected);
    let after = matching(e, st, scrutinee, arms, span, expected).0;
    reveal(exhaustive);
    let merged = all_merged(b.ps.st, b.moves, 0);
    let st2 = exhaustive(e, merged, t, b.ps.covered, b.ps.catch_all, span);
    let result = match b.result {
        Some(r) => r,
        None => crate::ty::ty_unit(),
    };
    lemma_retyped_moves_nothing(st2, arms, 0, result);
    assert(after.moved == merged.moved);
    assert forall|l: LocalId| #![trigger after.moved.contains_key(l)] after.moved.contains_key(l)
        <==> st1.moved.contains_key(l) || moved_in_some(run.ends, l) by {
        lemma_all_merged(b.ps.st, b.moves, 0, l);
        if moved_in_some(run.ends, l) {
            let k = choose|k: int|
                #![trigger run.ends[k]]
                0 <= k < run.ends.len() && !(run.ends[k].1 is Never) && run.ends[k].0.moved.contains_key(l);
            assert(b.moves[0 + k] == (run.ends[k].1 is Never, run.ends[k].0.moved));
        }
        if exists|k: int|
            #![trigger b.moves[k]]
            0 <= k < b.moves.len() && !b.moves[k].0 && b.moves[k].1.contains_key(l) {
            let k = choose|k: int|
                #![trigger b.moves[k]]
                0 <= k < b.moves.len() && !b.moves[k].0 && b.moves[k].1.contains_key(l);
            assert(run.ends[k].0.moved == b.moves[0 + k].1);
        }
    }
    assert forall|k: int| 0 <= k < arms.len() implies #[trigger] ends_at(
        e,
        st1.moved,
        arms[k],
        t,
        expected,
        run,
        k,
    ) by {
        assert(ends_at(e, st1.moved, arms[0 + k], t, expected, run, k));
    }
    run
}

/// In a `match` that adds no error all arms that yield a value yield one of the
/// same type, which is the type of the whole, as far as their types are fully
/// known.
pub proof fn law_arms_go_together(
    e: Env,
    st: St,
    scrutinee: Expr,
    arms: Seq<MatchArm>,
    span: Span,
    expected: Option<Ty>,
) -> (run: ArmsRun)
    requires
        !st.silent,
        matching(e, st, scrutinee, arms, span, expected).0.diags.len() == st.diags.len(),
    ensures
        ({
            let (st1, t) = expr(e, st, scrutinee, None);
            arms_run(e, st1, arms, t, expected, run)
        }),
        arms.len() == 0 ==> is_unit(matching(e, st, scrutinee, arms, span, expected).1),
        known_ends(run.ends) ==> ends_are(run.ends, matching(e, st, scrutinee, arms, span, expected).1),
{
    run_expr(e, st, scrutinee, None);
    let (st1, t) = expr(e, st, scrutinee, None);
    let a = ArmSt { ps: PatSt { st: st1, covered: Seq::empty(), catch_all: false }, result: None, moves: Seq::empty() };
    let run = run_of(e, a, arms, 0, t, expected);
    lemma_run_from(e, a, arms, 0, t, expected);
    lemma_run_moves(e, a, arms, 0, t, expected);
    let b = match_arms(e, a, arms, 0, t, expected);
    let merged = all_merged(b.ps.st, b.moves, 0);
    let st2 = exhaustive(e, merged, t, b.ps.covered, b.ps.catch_all, span);
    assert(grows(b.ps.st, merged));
    assert(grows(merged, st2));
    if known_ends(run.ends) {
        lemma_run_types(e, a, arms, 0, t, expected);
    }
    assert forall|k: int| 0 <= k < arms.len() implies #[trigger] ends_at(
        e,
        st1.moved,
        arms[k],
        t,
        expected,
        run,
        k,
    ) by {
        assert(ends_at(e, st1.moved, arms[0 + k], t, expected, run, k));
    }
    run
}

/// After an `if` a local is moved exactly if it was after the condition, or if a
/// branch that comes to its end has moved it. Both branches start from what was
/// moved after the condition.
pub proof fn law_if_moves_what_a_branch_moves(
    e: Env,
    st: St,
    cond: Expr,
    then_branch: Block,
    other: Option<Box<Expr>>,
    expected: Option<Ty>,
    l: LocalId,
)
    ensures
        ({
            let (st1, c) = expr(e, st, cond, None);
            let st2 = require_bool(st1, c, cond.span, "`if` condition"@);
            let (st3, a) = block(e, st2, then_branch, expected);
            let by_then = !(a is Never) && st3.moved.contains_key(l);
            let after = conditional(e, st, cond, then_branch, other, expected).0;
            match other {
                None => after.moved.contains_key(l) <==> st1.moved.contains_key(l) || by_then,
                Some(o) => {
                    let (st5, b) = expr(
                        e,
                        St { moved: st1.moved, ..st3 },
                        *o,
                        if expected is Some {
                            expected
                        } else {
                            Some(a)
                        },
                    );
                    after.moved.contains_key(l) <==> st1.moved.contains_key(l) || by_then || (!(b is Never)
                        && st5.moved.contains_key(l))
                },
            }
        }),
{
    reveal(tail_retyped);
    reveal(require_bool);
}

/// A loop's body is checked as a second time through it, with all that the
/// first time moves already moved; after the loop, which may not run at all,
/// what was moved before it or by its body is moved.
pub proof fn law_loops_run_again(e: Env, st: St, body: Block)
    ensures
        ({
            let first = block(e, St { in_loop: true, silent: true, ..st }, body, None).0;
            let again = St { silent: st.silent, moved: first.moved.union_prefer_right(st.moved), ..first };
            let second = block(e, again, body, None).0;
            let after = loop_body(e, st, body);
            &&& forall|l: LocalId|
                #![trigger again.moved.contains_key(l)]
                again.moved.contains_key(l) <==> st.moved.contains_key(l) || first.moved.contains_key(l)
            &&& after.diags == second.diags
            &&& forall|l: LocalId|
                #![trigger after.moved.contains_key(l)]
                after.moved.contains_key(l) <==> st.moved.contains_key(l) || second.moved.contains_key(l)
            &&& after.in_loop == st.in_loop
            &&& after.borrows == second.borrows
        }),
{
}

/// A `for` runs over an array and binds its pattern to an element.
pub proof fn law_iterated_values_are_arrays(e: Env, st: St, p: Pattern, iter: Expr, body: Block)
    requires
        !st.silent,
        for_in(e, st, p, iter, body).0.diags.len() == st.diags.len(),
    ensures
        ({
            let (st1, t) = expr(e, st, iter, None);
            &&& t is Array || t is Error
            &&& t matches Ty::Array(item) ==> for_in(e, st, p, iter, body).0 == loop_body(
                e,
                pattern(e, PatSt { st: st1, covered: Seq::empty(), catch_all: false }, p, *item, true).st,
                body,
            )
        }),
{
    run_expr(e, st, iter, None);
    let (st1, t) = expr(e, st, iter, None);
    let (st2, item) = match t {
        Ty::Array(inner) => (st1, *inner),
        Ty::Error => (st1, Ty::Error),
        _ => (
            st1.fail(
                iter.span,
                "`for`-`in` requires an `Array`, found `"@ + crate::describe::shown(t, e.sc.defs()) + "`"@,
            ),
            Ty::Error,
        ),
    };
    let st3 = pattern(e, PatSt { st: st2, covered: Seq::empty(), catch_all: false }, p, item, true).st;
    run_loop_body(e, st3, body);
}

} // verus!
