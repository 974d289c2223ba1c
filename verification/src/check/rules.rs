//! The typing rules of single constructs, given what their parts have.
use crate::ast::{type_span, BinaryOp, Block, Expr, MatchArm, Param, Path, TypeExpr, UnaryOp, LetStmt};
use crate::check::borrows::{reference_origins, Borrows};
use crate::check::facts::{const_arg_checked, field_read, field_type, mismatch, require_bool, satisfied, validated};
use crate::check::state::{BorrowOrigin, ClosureOrigin, Env, St};
use crate::datum::{drop_one, push_new};
use crate::describe::{shown, shown_bound};
use crate::ids::{DefId, LocalId, NodeId, Span};
use crate::names::ResolvedNames;
use crate::representation::kind_of_alloc;
use crate::rules::{
    bound_subst, clone_candidate, cloneable, derivable, marked, normal, Derived, NESTING_LIMIT,
};
use crate::sig::{Bound, Sig};
use crate::subst::{in_context, more_concrete, Subst};
use crate::text::{decimal, join};
use crate::ty::{fits, has_error, prim_numeric, ty_owned_of, ty_unit, PrimitiveKind, Ty};
use vstd::prelude::*;

verus! {

/// `bool`
pub open spec fn ty_bool() -> Ty {
    Ty::Primitive(PrimitiveKind::Bool)
}

/// Whether arithmetic is defined on a type.
pub open spec fn ty_numeric(t: Ty) -> bool {
    match t {
        Ty::Primitive(p) => prim_numeric(p),
        _ => false,
    }
}

/// What a call of a function yields: an `async` one a task.
pub open spec fn call_result(sig: Sig, output: Ty) -> Ty {
    if sig.is_async {
        Ty::Task(Box::new(output))
    } else {
        output
    }
}

/// After packing a value of type `t` into an expected existential.
#[verifier::opaque]
pub open spec fn packed(e: Env, st: St, id: NodeId, span: Span, t: Ty, want: Ty, trait_id: DefId, args: Seq<Ty>) -> (St, Ty) {
    let bound = Bound { trait_id, args };
    if t == want {
        (st, t)
    } else if satisfied(e, st, t, bound) {
        let st1 = if want is Opaque {
            match st.witness {
                Some(existing) => st.fail_if(
                    existing != t,
                    span,
                    "all returns of an opaque `some` type must use one concrete type; found `"@ + shown(t, e.sc.defs())
                        + "` after `"@ + shown(existing, e.sc.defs()) + "`"@,
                ),
                None => St { witness: Some(t), ..st },
            }
        } else {
            st
        };
        (St { coercions: st1.coercions.insert(id, t), ..st1 }, want)
    } else if t is Error {
        (st, t)
    } else {
        (
            st.fail(
                span,
                "`"@ + shown(t, e.sc.defs()) + "` does not implement `"@ + shown_bound(bound, e.sc.defs()) + "`"@,
            ),
            Ty::Error,
        )
    }
}

/// After settling an expression's type against what is expected: associated
/// types are replaced, existentials packed, unknowns filled in, bounds
/// checked, and the type recorded.
#[verifier::opaque]
pub open spec fn settled(e: Env, st: St, id: NodeId, span: Span, t: Ty, expected: Option<Ty>) -> (St, Ty) {
    let t0 = normal(e.sigs, t);
    match expected {
        None => (validated(e, st, t0, span).typed(id, t0), t0),
        Some(w) => {
            let want = normal(e.sigs, w);
            let (st1, t1) = match want {
                Ty::Any(trait_id, args) => packed(e, st, id, span, t0, want, trait_id, args),
                Ty::Opaque(trait_id, args) => packed(e, st, id, span, t0, want, trait_id, args),
                _ => (st, t0),
            };
            let t2 = in_context(t1, want);
            (validated(e, st1, t2, span).typed(id, t2), t2)
        },
    }
}

/// After lowering explicit generic arguments from the `i`-th on, after `acc`.
pub open spec fn explicit_args(e: Env, st: St, ts: Seq<TypeExpr>, i: int, acc: Seq<Ty>) -> (St, Seq<Ty>)
    decreases ts.len() - i,
{
    if 0 <= i < ts.len() {
        let (t, st1) = st.lowered(e.sc, ts[i]);
        explicit_args(e, validated(e, st1, t, type_span(ts[i])), ts, i + 1, acc.push(t))
    } else {
        (st, acc)
    }
}

/// After a unary operator on an operand of type `t`.
#[verifier::opaque]
pub open spec fn unary(st: St, op: UnaryOp, t: Ty, span: Span) -> (St, Ty) {
    match op {
        UnaryOp::Neg => if !ty_numeric(t) && !(t is Error) {
            (st.fail(span, "`-` requires a numeric operand"@), Ty::Error)
        } else {
            (st, t)
        },
        UnaryOp::Not => (require_bool(st, t, span, "`!` operand"@), ty_bool()),
    }
}

/// Whether an operator computes a number.
pub open spec fn arithmetic(op: BinaryOp) -> bool {
    op is Add || op is Sub || op is Mul || op is Div || op is Rem
}

/// Whether an operator compares by equality.
pub open spec fn equality(op: BinaryOp) -> bool {
    op is Eq || op is Ne
}

/// Whether an operator compares by order.
pub open spec fn comparison(op: BinaryOp) -> bool {
    op is Lt || op is Le || op is Gt || op is Ge
}

/// After a binary operator on operands of types `a` and `b`.
#[verifier::opaque]
pub open spec fn binary(e: Env, st: St, op: BinaryOp, a: Ty, left: Span, b: Ty, right: Span) -> (St, Ty) {
    if arithmetic(op) {
        if !ty_numeric(a) && !(a is Error) {
            (st.fail(left, "arithmetic operators require numeric operands"@), Ty::Error)
        } else if !fits(a, b) {
            (st.fail(right, "both operands of an arithmetic operator must have the same type"@), Ty::Error)
        } else {
            (st, a)
        }
    } else if equality(op) {
        (
            if !fits(a, b) {
                st.fail(right, "both operands of `==`/`!=` must have the same type"@)
            } else {
                st.fail_if(
                    marked(e.sigs, e.sc.defs(), ty_owned_of(a), "Eq"@) && !derivable(
                        e.sigs,
                        e.sc.defs(),
                        Derived::Eq,
                        a,
                    ),
                    left,
                    "cannot derive `Eq` for this type — every field must be primitive or another finite `Eq` struct"@,
                )
            },
            ty_bool(),
        )
    } else if comparison(op) {
        (
            if !ty_numeric(a) && !(a is Error) {
                st.fail(left, "comparison operators require numeric operands"@)
            } else {
                st.fail_if(!fits(a, b), right, "both operands of a comparison must have the same type"@)
            },
            ty_bool(),
        )
    } else {
        (
            require_bool(
                require_bool(st, a, left, "`&&`/`||` operand"@),
                b,
                right,
                "`&&`/`||` operand"@,
            ),
            ty_bool(),
        )
    }
}

/// After reading through a raw pointer of type `t`.
#[verifier::opaque]
pub open spec fn pointee(e: Env, st: St, t: Ty, span: Span) -> (St, Ty) {
    match t {
        Ty::RawConstPtr(inner) => (st, *inner),
        Ty::RawMutPtr(inner) => (st, *inner),
        Ty::Error => (st, Ty::Error),
        _ => (
            st.fail(span, "cannot dereference `"@ + shown(t, e.sc.defs()) + "`; expected a raw pointer"@),
            Ty::Error,
        ),
    }
}

/// After finding what a write through a raw pointer of type `t` writes.
#[verifier::opaque]
pub open spec fn writable_pointee(e: Env, st: St, t: Ty, target: Span, span: Span) -> (St, Ty) {
    match t {
        Ty::RawMutPtr(inner) => (st, *inner),
        Ty::RawConstPtr(_) => (
            st.fail(target, "cannot assign through a `*const` pointer — expected `*mut`"@),
            Ty::Error,
        ),
        Ty::Error => (st, Ty::Error),
        _ => (
            st.fail(span, "cannot dereference `"@ + shown(t, e.sc.defs()) + "`; expected a raw pointer"@),
            Ty::Error,
        ),
    }
}

/// The error for a raw pointer used outside an unsafe context.
#[verifier::opaque]
pub open spec fn deref_allowed(st: St, span: Span) -> St {
    st.fail_if(
        !st.in_unsafe,
        span,
        "dereferencing a raw pointer is only allowed inside an `unsafe` block or function"@,
    )
}

/// After checking that an unsafe or foreign function may be called here.
#[verifier::opaque]
pub open spec fn call_allowed(st: St, sig: Sig, span: Span) -> St {
    st.fail_if(
        (sig.is_unsafe || sig.is_foreign) && !st.in_unsafe,
        span,
        "calling "@ + (if sig.is_foreign {
            "an `extern` function"@
        } else {
            "an `unsafe fn`"@
        }) + " is only allowed inside an `unsafe` block or function"@,
    )
}

/// After an element access.
#[verifier::opaque]
pub open spec fn element(e: Env, st: St, base: Ty, base_span: Span, index: Ty, index_span: Span) -> (St, Ty) {
    let st1 = st.fail_if(
        !crate::declarations::ty_integer(index) && !(index is Error),
        index_span,
        "array index must be an integer type"@,
    );
    match base {
        Ty::Array(inner) => (st1, *inner),
        Ty::Error => (st1, Ty::Error),
        _ => (st1.fail(base_span, "`"@ + shown(base, e.sc.defs()) + "` cannot be indexed"@), Ty::Error),
    }
}

/// After a path's fields from the `i`-th segment up to the `n`-th, on a base
/// of type `t`.
pub open spec fn path_fields(e: Env, st: St, path: Path, i: int, n: int, t: Ty) -> (St, Ty)
    decreases n - i,
{
    if 0 <= i < n && i < path.segments@.len() {
        let seg = path.segments@[i];
        let (st1, t1) = field_read(e, st, t, seg.name@, seg.span);
        path_fields(e, st1, path, i + 1, n, t1)
    } else {
        (st, t)
    }
}

/// After an assigned path's fields from the `i`-th segment on: the last one
/// is not read.
#[verifier::opaque]
pub open spec fn assigned_fields(e: Env, st: St, path: Path, i: int, t: Ty) -> (St, Ty) {
    let total = path.segments@.len();
    if i < total {
        let (st1, t1) = path_fields(e, st, path, i, total - 1, t);
        let seg = path.segments@[total - 1];
        field_type(e, st1, t1, seg.name@, seg.span)
    } else {
        (st, t)
    }
}

/// Whether a type is a reference.
pub open spec fn is_ref(t: Ty) -> bool {
    t is Ref || t is MutRef
}

/// The value that a local reads as: a reference to an inline value reads as
/// the value, unless a reference is expected.
#[verifier::opaque]
pub open spec fn local_read(e: Env, t: Ty, whole: bool, expected: Option<Ty>) -> Ty {
    let inner = crate::check::borrows::referent(t);
    let wants_ref = match expected {
        Some(w) => is_ref(w),
        None => false,
    };
    if is_ref(t) && whole && !wants_ref && !(kind_of_alloc(inner, e.sc.defs()) is Heap) {
        inner
    } else {
        crate::check::facts::upgraded(e, t)
    }
}

/// What an assigned reference to an inline value stands for: the value.
#[verifier::opaque]
pub open spec fn assigned_through(e: Env, t: Ty) -> Ty {
    match t {
        Ty::MutRef(inner) => if kind_of_alloc(*inner, e.sc.defs()) is Heap {
            t
        } else {
            *inner
        },
        _ => t,
    }
}

// ---------------------------------------------------------------------
// Calls
// ---------------------------------------------------------------------

/// The types chosen for generic parameters; unknown ones are poison.
pub open spec fn chosen_types(names: Seq<Seq<char>>, m: Subst) -> Seq<Ty> {
    Seq::new(
        names.len(),
        |i: int| match m.get(names[i]) {
            Some(t) => t,
            None => Ty::Error,
        },
    )
}

/// The generic parameters that are still to be chosen, from the `i`-th on,
/// after `acc`.
pub open spec fn open_params(generics: Seq<(Seq<char>, Seq<Bound>)>, m: Subst, i: int, acc: Seq<Seq<char>>) -> Seq<Seq<char>>
    decreases generics.len() - i,
{
    if 0 <= i < generics.len() {
        let name = generics[i].0;
        open_params(
            generics,
            m,
            i + 1,
            if name != "$variadic_len"@ && !m.contains_key(name) {
                acc.push(name)
            } else {
                acc
            },
        )
    } else {
        acc
    }
}

/// After checking one chosen type's bounds from the `i`-th on.
pub open spec fn call_bounds_checked(e: Env, st: St, name: Seq<char>, t: Ty, bs: Seq<Bound>, m: Subst, i: int, span: Span) -> St
    decreases bs.len() - i,
{
    if 0 <= i < bs.len() {
        let b = bound_subst(bs[i], m);
        call_bounds_checked(
            e,
            st.fail_if(
                !satisfied(e, st, t, b),
                span,
                "`"@ + shown(t, e.sc.defs()) + "` does not implement `"@ + shown_bound(b, e.sc.defs())
                    + "`, required by generic parameter `"@ + name + "`"@,
            ),
            name,
            t,
            bs,
            m,
            i + 1,
            span,
        )
    } else {
        st
    }
}

/// After checking what was chosen for the generic parameters from the `i`-th
/// on.
pub open spec fn choices_checked(e: Env, st: St, sig: Sig, m: Subst, i: int, span: Span) -> St
    decreases sig.generics.len() - i,
{
    if 0 <= i < sig.generics.len() {
        let name = sig.generics[i].0;
        let st1 = match m.get(name) {
            None => st.fail(span, "cannot infer generic parameter `"@ + name + "` from this call's arguments"@),
            Some(t) => call_bounds_checked(
                e,
                const_arg_checked(st, sig.const_params.contains_key(name), name, t, span),
                name,
                t,
                sig.generics[i].1,
                m,
                0,
                span,
            ),
        };
        choices_checked(e, st1, sig, m, i + 1, span)
    } else {
        st
    }
}

/// After recording what was chosen for a call.
#[verifier::opaque]
pub open spec fn choices_recorded(st: St, id: Option<NodeId>, sig: Sig, m: Subst) -> St {
    match id {
        Some(call) => if sig.generics.len() > 0 {
            St {
                call_generic_args: st.call_generic_args.insert(
                    call,
                    chosen_types(crate::owners::names_in(sig.generics), m),
                ),
                ..st
            }
        } else {
            st
        },
        None => st,
    }
}

/// Whether the last parameter collects the rest of the arguments.
pub open spec fn variadic(sig: Sig) -> bool {
    sig.params.len() > 0 && sig.params[sig.params.len() - 1].variadic
}

/// The number of parameters that take one argument each.
pub open spec fn fixed_params(sig: Sig) -> nat {
    if variadic(sig) {
        (sig.params.len() - 1) as nat
    } else {
        sig.params.len()
    }
}

/// After checking the number of arguments.
#[verifier::opaque]
pub open spec fn args_counted(st: St, sig: Sig, n: nat, span: Span) -> St {
    if variadic(sig) {
        st.fail_if(
            n < fixed_params(sig),
            span,
            "expected at least "@ + decimal(fixed_params(sig)) + " argument(s), found "@ + decimal(n),
        )
    } else {
        st.fail_if(n != sig.params.len(), span, crate::check::facts::arg_count(sig.params.len(), n))
    }
}

/// After taking the explicit generic arguments.
#[verifier::opaque]
pub open spec fn explicit_chosen(st: St, sig: Sig, m: Subst, args: Seq<Ty>, span: Span) -> (St, Subst) {
    if args.len() == 0 {
        (st, m)
    } else {
        let names = open_params(sig.generics, m, 0, Seq::empty());
        (
            st.fail_if(
                args.len() != names.len(),
                span,
                "expected "@ + decimal(names.len()) + " explicit generic argument(s), found "@ + decimal(args.len()),
            ),
            m.union_prefer_right(crate::subst::zip_subst(names, args)),
        )
    }
}

/// The error for `mut` at a call site that disagrees with the parameter.
pub open spec fn mut_disagrees(name: Seq<char>, mutable: bool) -> Seq<char> {
    if mutable {
        "parameter `"@ + name + "` is `mut`; the caller must also write `mut` at the call site"@
    } else {
        "`mut` is only valid for arguments passed to a `mut` parameter"@
    }
}

/// The number of variadic arguments.
pub open spec fn rest_count(n: nat, fixed: nat) -> u128 {
    if n >= fixed {
        (n - fixed) as u128
    } else {
        0
    }
}

/// The smaller of two numbers.
pub open spec fn smaller(a: nat, b: nat) -> nat {
    if a <= b {
        a
    } else {
        b
    }
}

/// After converting between the owned and the plain form of a type.
#[verifier::opaque]
pub open spec fn converted(e: Env, st: St, arg: Ty, target: Ty, span: Span) -> St {
    if arg is Unique && !(target is Unique) {
        let inner = *(arg->Unique_0);
        st.fail_if(!fits(inner, target), span, mismatch(e, target, inner))
    } else if target is Unique && !(arg is Unique) {
        let inner = *(target->Unique_0);
        if !fits(arg, inner) {
            st.fail(span, mismatch(e, inner, arg))
        } else if kind_of_alloc(arg, e.sc.defs()) is Heap && !cloneable(
            e.sigs,
            e.sc.defs(),
            arg,
            Seq::empty(),
            NESTING_LIMIT as nat,
        ) {
            let name = shown(arg, e.sc.defs());
            if clone_candidate(e.sigs, arg) {
                st.fail(
                    span,
                    "invalid `clone` override for `"@ + name + "` — expected `clone(: &self): "@ + name
                        + "` with no additional parameters or generics"@,
                )
            } else {
                st.fail(
                    span,
                    "`to()` cannot clone `"@ + name
                        + "` into its owned form — this requires `Clone`: every structurally cloned heap type, including unique fields, must implement `Clone` and the clone graph must be finite"@,
                )
            }
        } else {
            st
        }
    } else {
        st.fail_if(
            !(arg is Error) && !(target is Error),
            span,
            "`to(value)` must convert between the owned and ordinary form of the same type — one side must be `:T`/`:t` and the other its plain counterpart"@,
        )
    }
}

// ---------------------------------------------------------------------
// Branches
// ---------------------------------------------------------------------

/// The type of two branches.
pub open spec fn branch_type(a: Ty, b: Ty) -> Ty {
    if a is Never {
        b
    } else {
        more_concrete(a, b)
    }
}

/// After giving the value of the first branch its final type.
#[verifier::opaque]
pub open spec fn tail_retyped(st: St, b: Block, result: Ty) -> St {
    match b.tail {
        Some(tail) => match st.expr_types.get(tail.id) {
            Some(t) => if fits(t, result) && has_error(t) {
                st.typed(tail.id, result)
            } else {
                st
            },
            None => st,
        },
        None => st,
    }
}

/// Whether an enum type's arguments are not all known.
pub open spec fn unknown_enum(t: Ty) -> bool {
    match t {
        Ty::Enum(_, args) => exists|i: int| #![trigger args[i]] 0 <= i < args.len() && args[i] is Error,
        _ => false,
    }
}

/// After giving the arms from the `i`-th on their final type.
pub open spec fn arms_retyped(st: St, arms: Seq<MatchArm>, i: int, result: Ty) -> St
    decreases arms.len() - i,
{
    if 0 <= i < arms.len() {
        let id = arms[i].body.id;
        let st1 = match st.expr_types.get(id) {
            Some(t) => if fits(t, result) && unknown_enum(t) {
                st.typed(id, result)
            } else {
                st
            },
            None => st,
        };
        arms_retyped(st1, arms, i + 1, result)
    } else {
        st
    }
}

/// After merging the branches from the `i`-th on.
pub open spec fn all_merged(st: St, moves: Seq<(bool, Map<LocalId, Span>)>, i: int) -> St
    decreases moves.len() - i,
{
    if 0 <= i < moves.len() {
        all_merged(st.merged(moves[i].0, moves[i].1), moves, i + 1)
    } else {
        st
    }
}

/// The variants from the `i`-th on that are not covered, after `acc`.
pub open spec fn uncovered(vs: Seq<(Seq<char>, Seq<Ty>)>, covered: Seq<u32>, i: int, acc: Seq<Seq<char>>) -> Seq<Seq<char>>
    decreases vs.len() - i,
{
    if 0 <= i < vs.len() {
        uncovered(
            vs,
            covered,
            i + 1,
            if i <= u32::MAX && covered.contains(i as u32) {
                acc
            } else {
                acc.push(vs[i].0)
            },
        )
    } else {
        acc
    }
}

/// After checking that a `match` on an enum covers all its variants.
#[verifier::opaque]
pub open spec fn exhaustive(e: Env, st: St, t: Ty, covered: Seq<u32>, catch_all: bool, span: Span) -> St {
    match t {
        Ty::Enum(id, _) => match e.sigs.enum_sigs.get(id) {
            Some(sig) => {
                let missing = uncovered(sig.variants, covered, 0, Seq::empty());
                st.fail_if(
                    !catch_all && missing.len() > 0,
                    span,
                    "match is not exhaustive: missing variant(s) "@ + join(missing, ", "@),
                )
            },
            None => st,
        },
        _ => st,
    }
}

// ---------------------------------------------------------------------
// Closures
// ---------------------------------------------------------------------

/// After lowering a closure's parameter types from the `i`-th on, after `acc`.
pub open spec fn closure_params(e: Env, st: St, ps: Seq<Param>, i: int, acc: Seq<Ty>) -> (St, Seq<Ty>)
    decreases ps.len() - i,
{
    if 0 <= i < ps.len() {
        let (t, st1) = st.lowered(e.sc, ps[i].ty);
        closure_params(e, st1, ps, i + 1, acc.push(t))
    } else {
        (st, acc)
    }
}

/// After a reference parameter is bound.
#[verifier::opaque]
pub open spec fn reference_param(st: St, names: ResolvedNames, site: NodeId, t: Ty) -> St {
    match names.local(site) {
        Some(local) => if is_ref(t) {
            St { reference_origins: st.reference_origins.insert(local, BorrowOrigin::Parameter(local)), ..st }
        } else {
            st
        },
        None => st,
    }
}

/// After binding a closure's parameters from the `i`-th on.
pub open spec fn closure_bound(e: Env, st: St, ps: Seq<Param>, ts: Seq<Ty>, i: int) -> St
    decreases ps.len() - i,
{
    if 0 <= i < ps.len() && i < ts.len() {
        let st1 = st.bound(e.sc.names, ps[i].id, ts[i], ps[i].mutable);
        closure_bound(e, reference_param(st1, e.sc.names, ps[i].id, ts[i]), ps, ts, i + 1)
    } else {
        st
    }
}

/// The return type that is expected of a closure.
#[verifier::opaque]
pub open spec fn closure_expected(expected: Option<Ty>, ts: Seq<Ty>) -> Option<Ty> {
    match expected {
        Some(Ty::Function(ps, r)) => if crate::ty::all_fit(ts, ps) {
            Some(*r)
        } else {
            None
        },
        _ => None,
    }
}

/// Which of a closure's parameters a local is, from the `i`-th on.
pub open spec fn param_of(names: ResolvedNames, ps: Seq<Param>, local: LocalId, i: int) -> Option<usize>
    decreases ps.len() - i,
{
    if 0 <= i < ps.len() && i <= usize::MAX {
        if names.local(ps[i].id) == Some(local) {
            Some(i as usize)
        } else {
            param_of(names, ps, local, i + 1)
        }
    } else {
        None
    }
}

/// An origin as a closure's caller sees it.
pub open spec fn closure_origin(names: ResolvedNames, ps: Seq<Param>, o: BorrowOrigin) -> ClosureOrigin {
    match o {
        BorrowOrigin::Parameter(local) => match param_of(names, ps, local, 0) {
            Some(i) => ClosureOrigin::Parameter(i),
            None => ClosureOrigin::Captured(o),
        },
        BorrowOrigin::Local(_) => ClosureOrigin::Captured(o),
    }
}

/// The origins of what a closure returns.
pub open spec fn closure_origins_of(names: ResolvedNames, ps: Seq<Param>, os: Borrows) -> Seq<ClosureOrigin> {
    Seq::new(os.len(), |i: int| closure_origin(names, ps, os[i]))
}

/// After a closure's body, of which `ret` is the type.
#[verifier::opaque]
pub open spec fn closure_done(e: Env, st: St, id: NodeId, ps: Seq<Param>, body: Expr, ret: Ty) -> St {
    if is_ref(ret) {
        St {
            closure_origins: st.closure_origins.insert(
                id,
                closure_origins_of(e.sc.names, ps, reference_origins(e, st, body)),
            ),
            ..st
        }
    } else {
        st
    }
}

// ---------------------------------------------------------------------
// Bindings
// ---------------------------------------------------------------------

/// What an initializer borrows: its type, the origin, and whether mutably.
pub type Stored = Option<(Ty, Option<BorrowOrigin>, bool)>;

/// After unpinning the captured references from the `i`-th on.
pub open spec fn unpinned(st: St, captures: Seq<(LocalId, usize)>, i: int) -> St
    decreases captures.len() - i,
{
    if 0 <= i < captures.len() {
        unpinned(St { pinned: drop_one(st.pinned, captures[i].0), ..st }, captures, i + 1)
    } else {
        st
    }
}

/// After a local is bound to what a closure expression yields.
#[verifier::opaque]
pub open spec fn callable_bound(st: St, local: LocalId, value: NodeId) -> St {
    let st1 = match st.closure_origins.get(value) {
        Some(os) => St { callable_origins: st.callable_origins.insert(local, os), ..st },
        None => st,
    };
    match st1.closure_uses.get(value) {
        None => st1,
        Some(captures) => {
            let st2 = unpinned(st1, captures, 0);
            let st3 = St { callable_uses: st2.callable_uses.insert(local, captures), ..st2 };
            let left = match st3.remaining.get(local) {
                Some(n) => n,
                None => 0usize,
            };
            if left == 0 {
                St { pending_callables: push_new(st3.pending_callables, local), ..st3 }
            } else {
                st3
            }
        },
    }
}

/// After a local is bound to a reference with this origin.
#[verifier::opaque]
pub open spec fn origin_bound(e: Env, st: St, site: NodeId, origin: BorrowOrigin, mutable: bool, span: Span) -> St {
    match origin {
        BorrowOrigin::Local(o) => st.borrowed(e.sc.names, site, o, mutable, span),
        BorrowOrigin::Parameter(_) => match e.sc.names.local(site) {
            Some(local) => St { reference_origins: st.reference_origins.insert(local, origin), ..st },
            None => st,
        },
    }
}

/// The one origin of an inferred reference, after an error if there is not
/// one.
#[verifier::opaque]
pub open spec fn inferred_origin(e: Env, st: St, value: Expr) -> (St, Option<BorrowOrigin>) {
    let os = reference_origins(e, st, value);
    if os.len() == 1 {
        (st, Some(os[0]))
    } else {
        (st.fail(value.span, "cannot infer one unambiguous origin for this stored reference"@), None)
    }
}

/// The origin and mutability of what a binding stores.
pub open spec fn stored_origin(stored: Stored, inferred: Option<BorrowOrigin>, inferred_mutable: bool) -> Option<(BorrowOrigin, bool)> {
    match stored {
        Some((_, Some(o), m)) => Some((o, m)),
        _ => match inferred {
            Some(o) => Some((o, inferred_mutable)),
            None => None,
        },
    }
}

/// After a `let`, of which the initializer has type `value`.
#[verifier::opaque]
pub open spec fn let_bound(e: Env, st: St, l: LetStmt, declared: Option<Ty>, stored: Stored, value: Ty) -> (St, Ty) {
    let (st1, ty) = match declared {
        Some(d) => (st.fail_if(!fits(value, d), l.value.span, mismatch(e, d, value)), d),
        None => (st, value),
    };
    let st2 = st1.fail_if(
        declared is None && !(ty is Error) && has_error(ty),
        l.value.span,
        "cannot infer all generic type arguments from this initializer; add a type annotation"@,
    );
    let (st3, inferred) = if stored is None && is_ref(ty) {
        inferred_origin(e, st2, l.value)
    } else {
        (st2, None)
    };
    let st4 = st3.bound(e.sc.names, l.id, ty, l.mutable || ty is MutRef);
    let st5 = match e.sc.names.local(l.id) {
        Some(local) => callable_bound(st4, local, l.value.id),
        None => st4,
    };
    let st6 = match stored_origin(stored, inferred, value is MutRef) {
        Some((o, m)) => origin_bound(e, st5, l.id, o, m, l.value.span),
        None => st5,
    };
    (
        st6.flushed(),
        if value is Never {
            Ty::Never
        } else {
            ty_unit()
        },
    )
}

/// After storing a borrow of an owned local of type `owned`.
#[verifier::opaque]
pub open spec fn stored_owned(e: Env, st: St, value: Expr, origin: LocalId, owned: Ty, mutable_local: bool, declared: Ty) -> (St, Stored) {
    let mutable = declared is MutRef;
    let want = crate::check::borrows::referent(declared);
    match owned {
        Ty::Unique(inner) => {
            let st1 = st.fail_if(!fits(*inner, want), value.span, mismatch(e, want, *inner));
            let st2 = st1.fail_if(
                mutable && !mutable_local,
                value.span,
                "cannot mutably borrow an immutable binding"@,
            );
            let st3 = st2.fail_if(
                crate::check::borrows::borrow_conflict(st2.borrows_of(origin), mutable),
                value.span,
                "borrow conflicts with an already-live stored borrow"@,
            );
            (
                st3.used(origin, owned, value.span, false).typed(value.id, declared),
                Some((declared, Some(BorrowOrigin::Local(origin)), mutable)),
            )
        },
        _ => (
            st.fail(value.span, "a stored borrow requires an owned (`:T`) source local"@).typed(value.id, Ty::Error),
            Some((Ty::Error, None, mutable)),
        ),
    }
}

} // verus!
