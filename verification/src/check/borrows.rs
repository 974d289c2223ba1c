//! References: what they borrow and where they come from.
use crate::ast::{
    arms_size, block_size, expr_size, Block, Expr, ExprKind, MatchArm, Path,
};
use crate::check::facts::{bare_local, bare_local_of, mismatch};
use crate::check::state::{BorrowOrigin, Checker, ClosureOrigin, Cx, Env, St};
use crate::datum::{lemma_deep_len, put, Datum, Dup};
use crate::describe::shown;
use crate::ids::{DefId, LocalId, Span, Symbol};
use crate::names::Resolution;
use crate::origins::{join_new, joined};
use crate::representation::{is_heap, kind_of_alloc};
use crate::sig::{domain_of_value, FnSig, ReceiverDomain, ReturnOrigin, Sig};
use crate::table::Table;
use crate::text::cat3;
use crate::ty::{fits, group_tys, no_types, one_type, ty_direct, Ty, Type};
use crate::uses::{no_uses, uses_expr, UseCounts};
use vstd::prelude::*;

verus! {

broadcast use group_tys, lemma_deep_len;

/// Origins without repetition.
pub type Borrows = Seq<BorrowOrigin>;

/// The origin of an argument that is borrowed: an owned local itself, or
/// where a reference local comes from.
pub open spec fn arg_origin(e: Env, st: St, x: Expr) -> Borrows {
    match bare_local(e.sc.names, x) {
        Some(local) => local_origin(st, local),
        None => Seq::empty(),
    }
}

/// The origin of what a local lends.
pub open spec fn local_origin(st: St, local: LocalId) -> Borrows {
    match st.locals.get(local) {
        Some((t, _)) => if t is Unique {
            seq![BorrowOrigin::Local(local)]
        } else {
            match st.reference_origins.get(local) {
                Some(o) => seq![o],
                None => Seq::empty(),
            }
        },
        None => Seq::empty(),
    }
}

/// The origins of a call's result, from the `i`-th entry of the callee's
/// summary on, added to `acc`.
pub open spec fn summary_origins(
    e: Env,
    st: St,
    receiver: Borrows,
    args: Seq<Expr>,
    summary: Seq<ReturnOrigin>,
    i: int,
    acc: Borrows,
) -> Borrows
    decreases summary.len() - i,
{
    if 0 <= i < summary.len() {
        let more = match summary[i] {
            ReturnOrigin::SelfValue => receiver,
            ReturnOrigin::Parameter(p) => if p < args.len() {
                arg_origin(e, st, args[p as int])
            } else {
                Seq::empty()
            },
        };
        summary_origins(e, st, receiver, args, summary, i + 1, joined(acc, more, 0))
    } else {
        acc
    }
}

/// The origins of a closure call's result, from the `i`-th origin on, added
/// to `acc`.
pub open spec fn closure_call_origins(e: Env, st: St, args: Seq<Expr>, os: Seq<ClosureOrigin>, i: int, acc: Borrows) -> Borrows
    decreases os.len() - i,
{
    if 0 <= i < os.len() {
        let more = match os[i] {
            ClosureOrigin::Captured(o) => seq![o],
            ClosureOrigin::Parameter(p) => if p < args.len() {
                arg_origin(e, st, args[p as int])
            } else {
                Seq::empty()
            },
        };
        closure_call_origins(e, st, args, os, i + 1, joined(acc, more, 0))
    } else {
        acc
    }
}

/// The owner whose methods a value of this type has.
pub open spec fn method_owner(e: Env, t: Ty) -> Option<DefId> {
    match t {
        Ty::Struct(id, _) => Some(id),
        Ty::TupleStruct(id, _) => Some(id),
        Ty::Enum(id, _) => Some(id),
        Ty::Array(_) => e.sc.defs().found("Array"@),
        _ => None,
    }
}

/// The owner arguments of a value of this type.
pub open spec fn method_args(t: Ty) -> Seq<Ty> {
    match t {
        Ty::Struct(_, args) => args,
        Ty::TupleStruct(_, args) => args,
        Ty::Enum(_, args) => args,
        Ty::Array(element) => seq![*element],
        _ => Seq::empty(),
    }
}

/// The methods of this name that a receiver of type `t` has: those of its
/// domain, else static ones.
pub open spec fn methods_on(e: Env, t: Ty, name: Seq<char>) -> Option<crate::sig::Methods> {
    match method_owner(e, ty_direct(t)) {
        Some(owner) => match e.sigs.methods.get((owner, name, domain_of_value(t))) {
            Some(set) => Some(set),
            None => e.sigs.methods.get((owner, name, ReceiverDomain::Static)),
        },
        None => None,
    }
}

/// The signature of a method of this name on a receiver of type `t`.
pub open spec fn method_sig(e: Env, t: Ty, name: Seq<char>) -> Option<Sig> {
    match methods_on(e, t, name) {
        Some(set) => set.chosen(method_args(ty_direct(t))),
        None => None,
    }
}

/// The first bound from the `i`-th on that has a method of this name.
pub open spec fn bound_method_index(e: Env, bs: Seq<crate::sig::Bound>, name: Seq<char>, i: int) -> Option<nat>
    decreases bs.len() - i,
{
    if 0 <= i < bs.len() {
        if (crate::check::facts::into_string_bound(e, bs[i]) && name == "into_string"@)
            || e.sigs.trait_methods.contains_key((bs[i].trait_id, name)) {
            Some(i as nat)
        } else {
            bound_method_index(e, bs, name, i + 1)
        }
    } else {
        None
    }
}

/// The origins of a method call's result.
#[verifier::opaque]
pub open spec fn method_call_origins(e: Env, st: St, t: Ty, receiver: Borrows, name: Seq<char>, args: Seq<Expr>) -> Borrows {
    match method_sig(e, t, name) {
        Some(sig) => summary_origins(e, st, receiver, args, sig.return_origins, 0, Seq::empty()),
        None => Seq::empty(),
    }
}

/// The origins of a call through a path.
#[verifier::opaque]
pub open spec fn path_call_origins(e: Env, st: St, path: Path, args: Seq<Expr>) -> Borrows {
    match e.sc.names.path(path.id) {
        None => Seq::empty(),
        Some(res) => {
            let total = path.segments@.len();
            match res.base {
                Resolution::Def(id) => if res.consumed == total {
                    match e.sigs.fns.get(id) {
                        Some(sig) => summary_origins(e, st, Seq::empty(), args, sig.return_origins, 0, Seq::empty()),
                        None => Seq::empty(),
                    }
                } else {
                    Seq::empty()
                },
                Resolution::StaticMember(owner, idx) => if res.consumed == total {
                    match e.sc.defs().method_name_of(owner, idx) {
                        Some(name) => match e.sigs.method_in_any_domain(owner, name) {
                            Some(sig) => summary_origins(
                                e,
                                st,
                                Seq::empty(),
                                args,
                                sig.return_origins,
                                0,
                                Seq::empty(),
                            ),
                            None => Seq::empty(),
                        },
                        None => Seq::empty(),
                    }
                } else {
                    Seq::empty()
                },
                Resolution::Local(local) => if res.consumed == total {
                    match st.callable_origins.get(local) {
                        Some(os) => closure_call_origins(e, st, args, os, 0, Seq::empty()),
                        None => Seq::empty(),
                    }
                } else if res.consumed + 1 == total {
                    match st.locals.get(local) {
                        Some((t, _)) => method_call_origins(
                            e,
                            st,
                            t,
                            local_origin(st, local),
                            path.segments@[total - 1].name@,
                            args,
                        ),
                        None => Seq::empty(),
                    }
                } else {
                    Seq::empty()
                },
                _ => Seq::empty(),
            }
        },
    }
}

/// Where the reference that an expression yields comes from.
pub open spec fn reference_origins(e: Env, st: St, x: Expr) -> Borrows
    decreases expr_size(x), 1nat,
{
    match x.kind {
        ExprKind::Path(_) => match bare_local(e.sc.names, x) {
            Some(local) => match st.reference_origins.get(local) {
                Some(o) => seq![o],
                None => Seq::empty(),
            },
            None => Seq::empty(),
        },
        ExprKind::Call { callee, generic_args: _, args } => match callee.kind {
            ExprKind::Path(path) => path_call_origins(e, st, path, args@),
            _ => Seq::empty(),
        },
        ExprKind::MethodCall { receiver, method, generic_args: _, args } => match st.expr_types.get(receiver.id) {
            Some(t) => method_call_origins(
                e,
                st,
                t,
                match bare_local(e.sc.names, *receiver) {
                    Some(local) => local_origin(st, local),
                    None => reference_origins(e, st, *receiver),
                },
                method.name@,
                args@,
            ),
            None => Seq::empty(),
        },
        ExprKind::If { cond: _, then_branch, else_branch } => {
            let a = tail_reference_origins(e, st, then_branch);
            match else_branch {
                Some(b) => joined(a, reference_origins(e, st, *b), 0),
                None => a,
            }
        },
        ExprKind::Match { scrutinee: _, arms } => arms_reference_origins(e, st, arms@, 0, Seq::empty()),
        ExprKind::Block(b) => tail_reference_origins(e, st, b),
        _ => Seq::empty(),
    }
}

/// The same for a block's value.
pub open spec fn tail_reference_origins(e: Env, st: St, b: Block) -> Borrows
    decreases block_size(b), 0nat,
{
    match b.tail {
        Some(tail) => reference_origins(e, st, *tail),
        None => Seq::empty(),
    }
}

/// The same for the arms from the `i`-th on, added to `acc`.
pub open spec fn arms_reference_origins(e: Env, st: St, arms: Seq<MatchArm>, i: int, acc: Borrows) -> Borrows
    decreases arms_size(arms, i), 0nat,
{
    if 0 <= i < arms.len() {
        arms_reference_origins(e, st, arms, i + 1, joined(acc, reference_origins(e, st, arms[i].body), 0))
    } else {
        acc
    }
}

fn no_borrows() -> (r: Vec<BorrowOrigin>)
    ensures
        r.deep_view() == Seq::<BorrowOrigin>::empty(),
{
    let r: Vec<BorrowOrigin> = Vec::new();
    proof {
        assert(r.deep_view() =~= Seq::<BorrowOrigin>::empty());
    }
    r
}

fn one_borrow(o: BorrowOrigin) -> (r: Vec<BorrowOrigin>)
    ensures
        r.deep_view() == seq![o],
{
    let mut r: Vec<BorrowOrigin> = Vec::new();
    r.push(o);
    proof {
        assert(r.deep_view() =~= seq![o]);
    }
    r
}

impl<'a> Cx<'a> {
    /// The owner whose methods a value of this type has.
    pub fn method_owner(&self, ty: &Type) -> (r: Option<DefId>)
        ensures
            r == method_owner(self@, ty@),
    {
        match ty {
            Type::Struct(id, _) | Type::TupleStruct(id, _) | Type::Enum(id, _) => Some(*id),
            Type::Array(_) => self.scope.names.definitions.lookup("Array"),
            _ => None,
        }
    }

    /// The methods of this name that a receiver of type `ty` has.
    pub fn methods_on(&self, ty: &Type, name: &Symbol) -> (r: Option<&'a crate::sig::MethodSet>)
        ensures
            r.deep_view() == methods_on(self@, ty@, name@),
    {
        let owner = match self.method_owner(ty.strip_indirection()) {
            Some(id) => id,
            None => {
                return None;
            },
        };
        let key: (DefId, Symbol, ReceiverDomain) = (owner, name.clone(), ReceiverDomain::of_receiver_ty(ty));
        match self.sigs.methods.get(&key) {
            Some(set) => Some(set),
            None => {
                let other: (DefId, Symbol, ReceiverDomain) = (owner, name.clone(), ReceiverDomain::Static);
                self.sigs.methods.get(&other)
            },
        }
    }

    /// The signature of a method of this name on a receiver of type `ty`.
    pub fn method_sig(&self, ty: &Type, name: &Symbol) -> (r: Option<&'a FnSig>)
        ensures
            r.deep_view() == method_sig(self@, ty@, name@),
    {
        match self.methods_on(ty, name) {
            Some(set) => set.for_args(&owner_args(ty.strip_indirection())),
            None => None,
        }
    }
}

/// The owner arguments of a value of this type.
pub fn owner_args(ty: &Type) -> (r: Vec<Type>)
    ensures
        r.deep_view() == method_args(ty@),
        r.len() == method_args(ty@).len(),
{
    let r = match ty {
        Type::Struct(_, args) | Type::TupleStruct(_, args) | Type::Enum(_, args) => args.dup(),
        Type::Array(element) => one_type((**element).clone()),
        _ => no_types(),
    };
    assert(r.deep_view().len() == r.len());
    r
}

impl Checker {
    fn origin_of_local(&self, local: LocalId) -> (r: Vec<BorrowOrigin>)
        ensures
            r.deep_view() == local_origin(self@, local),
    {
        match self.local(local) {
            Some(l) => if matches!(l.0, Type::Unique(_)) {
                one_borrow(BorrowOrigin::Local(local))
            } else {
                match self.reference_origin(local) {
                    Some(o) => one_borrow(o),
                    None => no_borrows(),
                }
            },
            None => no_borrows(),
        }
    }

    fn origin_of_arg(&self, cx: &Cx<'_>, x: &Expr) -> (r: Vec<BorrowOrigin>)
        ensures
            r.deep_view() == arg_origin(cx@, self@, *x),
    {
        match bare_local_of(cx.scope.names, x) {
            Some(local) => self.origin_of_local(local),
            None => no_borrows(),
        }
    }

    fn origins_from_summary(&self, cx: &Cx<'_>, receiver: &Vec<BorrowOrigin>, args: &Vec<Expr>, summary: &Vec<ReturnOrigin>) -> (r: Vec<BorrowOrigin>)
        ensures
            r.deep_view() == summary_origins(
                cx@,
                self@,
                receiver.deep_view(),
                args@,
                summary.deep_view(),
                0,
                Seq::empty(),
            ),
    {
        let mut acc = no_borrows();
        let ghost s = summary.deep_view();
        let mut i: usize = 0;
        while i < summary.len()
            invariant
                i <= summary.len(),
                s == summary.deep_view(),
                summary_origins(cx@, self@, receiver.deep_view(), args@, s, i as int, acc.deep_view())
                    == summary_origins(cx@, self@, receiver.deep_view(), args@, s, 0, Seq::empty()),
            decreases summary.len() - i,
        {
            assert(s[i as int] == summary@[i as int]);
            let more = match summary[i] {
                ReturnOrigin::SelfValue => receiver.dup(),
                ReturnOrigin::Parameter(p) => if p < args.len() {
                    self.origin_of_arg(cx, &args[p])
                } else {
                    no_borrows()
                },
            };
            join_new(&mut acc, &more);
            i += 1;
        }
        acc
    }

    fn origins_from_closure(&self, cx: &Cx<'_>, args: &Vec<Expr>, os: &Vec<ClosureOrigin>) -> (r: Vec<BorrowOrigin>)
        ensures
            r.deep_view() == closure_call_origins(cx@, self@, args@, os.deep_view(), 0, Seq::empty()),
    {
        let mut acc = no_borrows();
        let ghost s = os.deep_view();
        let mut i: usize = 0;
        while i < os.len()
            invariant
                i <= os.len(),
                s == os.deep_view(),
                closure_call_origins(cx@, self@, args@, s, i as int, acc.deep_view()) == closure_call_origins(
                    cx@,
                    self@,
                    args@,
                    s,
                    0,
                    Seq::empty(),
                ),
            decreases os.len() - i,
        {
            assert(s[i as int] == os@[i as int]);
            let more = match os[i] {
                ClosureOrigin::Captured(o) => one_borrow(o),
                ClosureOrigin::Parameter(p) => if p < args.len() {
                    self.origin_of_arg(cx, &args[p])
                } else {
                    no_borrows()
                },
            };
            join_new(&mut acc, &more);
            i += 1;
        }
        acc
    }

    fn origins_of_method_call(&self, cx: &Cx<'_>, ty: &Type, receiver: &Vec<BorrowOrigin>, name: &Symbol, args: &Vec<Expr>) -> (r: Vec<BorrowOrigin>)
        ensures
            r.deep_view() == method_call_origins(cx@, self@, ty@, receiver.deep_view(), name@, args@),
    {
        proof {
            reveal(method_call_origins);
        }
        match cx.method_sig(ty, name) {
            Some(sig) => self.origins_from_summary(cx, receiver, args, &sig.return_origins),
            None => no_borrows(),
        }
    }

    fn origins_of_path_call(&self, cx: &Cx<'_>, path: &Path, args: &Vec<Expr>) -> (r: Vec<BorrowOrigin>)
        ensures
            r.deep_view() == path_call_origins(cx@, self@, *path, args@),
    {
        proof {
            reveal(path_call_origins);
        }
        let res = match cx.scope.names.path_of(path.id) {
            Some(res) => res,
            None => {
                return no_borrows();
            },
        };
        let total: usize = path.segments.len();
        match res.base {
            Resolution::Def(id) => {
                if res.consumed != total {
                    return no_borrows();
                }
                match cx.sigs.fns.get(&id) {
                    Some(sig) => self.origins_from_summary(cx, &no_borrows(), args, &sig.return_origins),
                    None => no_borrows(),
                }
            },
            Resolution::StaticMember(owner, idx) => {
                if res.consumed != total {
                    return no_borrows();
                }
                match cx.scope.names.definitions.method_name(owner, idx) {
                    Some(name) => match cx.sigs.method_any_domain(owner, name) {
                        Some(sig) => self.origins_from_summary(cx, &no_borrows(), args, &sig.return_origins),
                        None => no_borrows(),
                    },
                    None => no_borrows(),
                }
            },
            Resolution::Local(local) => {
                if res.consumed == total {
                    match self.callable_origins_at(local) {
                        Some(os) => self.origins_from_closure(cx, args, os),
                        None => no_borrows(),
                    }
                } else if res.consumed < total && total - res.consumed == 1 {
                    match self.local(local) {
                        Some(l) => {
                            let receiver = self.origin_of_local(local);
                            self.origins_of_method_call(cx, &l.0, &receiver, &path.segments[total - 1].name, args)
                        },
                        None => no_borrows(),
                    }
                } else {
                    no_borrows()
                }
            },
            _ => no_borrows(),
        }
    }

    /// Where the reference that an expression yields comes from.
    pub fn reference_origins_of_expr(&self, cx: &Cx<'_>, x: &Expr) -> (r: Vec<BorrowOrigin>)
        ensures
            r.deep_view() == reference_origins(cx@, self@, *x),
        decreases expr_size(*x), 1nat,
    {
        match &x.kind {
            ExprKind::Path(_) => match bare_local_of(cx.scope.names, x) {
                Some(local) => match self.reference_origin(local) {
                    Some(o) => one_borrow(o),
                    None => no_borrows(),
                },
                None => no_borrows(),
            },
            ExprKind::Call { callee, generic_args: _, args } => match &callee.kind {
                ExprKind::Path(path) => self.origins_of_path_call(cx, path, args),
                _ => no_borrows(),
            },
            ExprKind::MethodCall { receiver, method, generic_args: _, args } => match self.type_at(receiver.id) {
                Some(t) => {
                    let from = match bare_local_of(cx.scope.names, receiver) {
                        Some(local) => self.origin_of_local(local),
                        None => self.reference_origins_of_expr(cx, receiver),
                    };
                    self.origins_of_method_call(cx, t, &from, &method.name, args)
                },
                None => no_borrows(),
            },
            ExprKind::If { cond: _, then_branch, else_branch } => {
                let mut acc = self.reference_origins_of_block_tail(cx, then_branch);
                if let Some(b) = else_branch {
                    let more = self.reference_origins_of_expr(cx, b);
                    join_new(&mut acc, &more);
                }
                acc
            },
            ExprKind::Match { scrutinee: _, arms } => self.reference_origins_of_arms(cx, arms),
            ExprKind::Block(b) => self.reference_origins_of_block_tail(cx, b),
            _ => no_borrows(),
        }
    }

    fn reference_origins_of_block_tail(&self, cx: &Cx<'_>, b: &Block) -> (r: Vec<BorrowOrigin>)
        ensures
            r.deep_view() == tail_reference_origins(cx@, self@, *b),
        decreases block_size(*b), 0nat,
    {
        match &b.tail {
            Some(tail) => self.reference_origins_of_expr(cx, tail),
            None => no_borrows(),
        }
    }

    fn reference_origins_of_arms(&self, cx: &Cx<'_>, arms: &Vec<MatchArm>) -> (r: Vec<BorrowOrigin>)
        ensures
            r.deep_view() == arms_reference_origins(cx@, self@, arms@, 0, Seq::empty()),
        decreases arms_size(arms@, 0), 0nat,
    {
        let mut acc = no_borrows();
        let mut i: usize = 0;
        while i < arms.len()
            invariant
                i <= arms.len(),
                arms_size(arms@, i as int) <= arms_size(arms@, 0),
                arms_reference_origins(cx@, self@, arms@, i as int, acc.deep_view()) == arms_reference_origins(
                    cx@,
                    self@,
                    arms@,
                    0,
                    Seq::empty(),
                ),
            decreases arms.len() - i,
        {
            let more = self.reference_origins_of_expr(cx, &arms[i].body);
            join_new(&mut acc, &more);
            i += 1;
        }
        acc
    }
}

// ---------------------------------------------------------------------
// Returned references and closures
// ---------------------------------------------------------------------

/// Whether one of the origins is a local of the function.
pub open spec fn some_local(os: Borrows, i: int) -> bool
    decreases os.len() - i,
{
    0 <= i < os.len() && (os[i] is Local || some_local(os, i + 1))
}

/// After checking where a returned reference comes from: one parameter.
#[verifier::opaque]
pub open spec fn returned_reference(e: Env, st: St, value: Option<Box<Expr>>, span: Span) -> St {
    match value {
        None => st,
        Some(x) => {
            let os = reference_origins(e, st, *x);
            if os.len() == 0 {
                st.fail(
                    span,
                    "cannot infer the origin of this returned reference; return a reference parameter directly"@,
                )
            } else if some_local(os, 0) {
                st.fail(span, "cannot return a reference borrowed from a local owned value"@)
            } else {
                st.fail_if(
                    os.len() > 1,
                    span,
                    "returned reference has ambiguous origins from multiple parameters"@,
                )
            }
        },
    }
}

/// After checking that a returned closure captures no local by reference.
#[verifier::opaque]
pub open spec fn returned_closure(st: St, value: Option<Box<Expr>>, span: Span) -> St {
    match value {
        None => st,
        Some(x) => st.fail_if(
            match st.closure_mut_captures.get(x.id) {
                Some(locals) => locals.len() > 0,
                None => false,
            },
            span,
            "cannot return a closure that mutably captures a local owned by this function"@,
        ),
    }
}

impl Checker {
    /// Checks where a returned reference comes from.
    pub fn check_returned_reference_origin(&mut self, cx: &Cx<'_>, value: &Option<Box<Expr>>, span: Span)
        ensures
            final(self)@ == returned_reference(cx@, old(self)@, *value, span),
    {
        proof {
            reveal(returned_reference);
        }
        let x = match value {
            Some(x) => x,
            None => {
                return;
            },
        };
        let os = self.reference_origins_of_expr(cx, x);
        let ghost all = os.deep_view();
        if os.len() == 0 {
            self.err(
                span,
                "cannot infer the origin of this returned reference; return a reference parameter directly",
            );
            return;
        }
        let mut i: usize = 0;
        let mut local: bool = false;
        while i < os.len() && !local
            invariant
                i <= os.len(),
                all == os.deep_view(),
                !local ==> some_local(all, i as int) == some_local(all, 0),
                local ==> some_local(all, 0),
            decreases os.len() - i,
        {
            assert(all[i as int] == os@[i as int]);
            if matches!(os[i], BorrowOrigin::Local(_)) {
                local = true;
            }
            i += 1;
        }
        if local {
            self.err(span, "cannot return a reference borrowed from a local owned value");
        } else if os.len() > 1 {
            self.err(span, "returned reference has ambiguous origins from multiple parameters");
        }
    }

    /// Checks that a returned closure captures no local by reference.
    pub fn check_returned_closure_mut_captures(&mut self, value: &Option<Box<Expr>>, span: Span)
        ensures
            final(self)@ == returned_closure(old(self)@, *value, span),
    {
        proof {
            reveal(returned_closure);
        }
        if let Some(x) = value {
            let captures = match self.closure_mut_captures_at(x.id) {
                Some(locals) => locals.len() > 0,
                None => false,
            };
            if captures {
                self.err(span, "cannot return a closure that mutably captures a local owned by this function");
            }
        }
    }
}

// ---------------------------------------------------------------------
// Captures
// ---------------------------------------------------------------------

/// The captured reference locals among the counts from the `i`-th on, with
/// their uses, after `acc`.
pub open spec fn captured_references(st: St, counts: Seq<(LocalId, usize)>, i: int, acc: Seq<(LocalId, usize)>) -> Seq<(LocalId, usize)>
    decreases counts.len() - i,
{
    if 0 <= i < counts.len() {
        let captured = match st.locals.get(counts[i].0) {
            Some((t, _)) => t is Ref || t is MutRef,
            None => false,
        };
        captured_references(
            st,
            counts,
            i + 1,
            if captured {
                acc.push(counts[i])
            } else {
                acc
            },
        )
    } else {
        acc
    }
}

/// The locals that a `mut` closure captures by reference, among the counts
/// from the `i`-th on, after `acc`: mutable ones that are stored inline.
pub open spec fn captured_mutably(e: Env, st: St, counts: Seq<(LocalId, usize)>, i: int, acc: Seq<LocalId>) -> Seq<LocalId>
    decreases counts.len() - i,
{
    if 0 <= i < counts.len() {
        let captured = match st.locals.get(counts[i].0) {
            Some((t, mutable)) => mutable && !(kind_of_alloc(t, e.sc.defs()) is Heap),
            None => false,
        };
        captured_mutably(
            e,
            st,
            counts,
            i + 1,
            if captured {
                acc.push(counts[i].0)
            } else {
                acc
            },
        )
    } else {
        acc
    }
}

/// The captured locals among the counts from the `i`-th on, after `acc`.
pub open spec fn captured_locals(st: St, counts: Seq<(LocalId, usize)>, i: int, acc: Seq<LocalId>) -> Seq<LocalId>
    decreases counts.len() - i,
{
    if 0 <= i < counts.len() {
        captured_locals(
            st,
            counts,
            i + 1,
            if st.locals.contains_key(counts[i].0) {
                acc.push(counts[i].0)
            } else {
                acc
            },
        )
    } else {
        acc
    }
}

/// The locals of counted uses.
pub open spec fn counted(s: Seq<(LocalId, usize)>) -> Seq<LocalId> {
    Seq::new(s.len(), |i: int| s[i].0)
}

/// The use counts of an expression.
pub open spec fn counts_in(e: Env, x: Expr) -> Seq<(LocalId, usize)> {
    uses_expr(e.sc.names, x, no_uses(), false).counts
}

/// The error for a borrow that may outlive its local.
pub open spec fn spawn_borrow_message(kind: Seq<char>) -> Seq<char> {
    "cannot spawn a "@ + kind + " capturing a borrow of a local owned by this function — it may not outlive the spawned "@
        + kind
}

/// After checking that no captured reference from the `i`-th on borrows a
/// local of this function.
pub open spec fn spawn_borrows(st: St, locals: Seq<LocalId>, i: int, span: Span, kind: Seq<char>) -> St
    decreases locals.len() - i,
{
    if 0 <= i < locals.len() {
        let wrong = match st.reference_origins.get(locals[i]) {
            Some(BorrowOrigin::Local(_)) => true,
            _ => false,
        };
        spawn_borrows(st.fail_if(wrong, span, spawn_borrow_message(kind)), locals, i + 1, span, kind)
    } else {
        st
    }
}

/// After checking what a spawned expression captures, with the captured
/// locals.
#[verifier::opaque]
pub open spec fn spawn_captures(e: Env, st: St, x: Expr, kind: Seq<char>) -> (St, Seq<LocalId>) {
    let locals = captured_locals(st, counts_in(e, x), 0, Seq::empty());
    (spawn_borrows(st, locals, 0, x.span, kind), locals)
}

fn uses_in(cx: &Cx<'_>, x: &Expr) -> (r: Table<LocalId, usize>)
    ensures
        r.pairs() == counts_in(cx@, *x),
{
    let mut u = UseCounts::new();
    u.count_local_uses_in_expr(x, cx.scope.names, false);
    u.counts
}

impl Checker {
    /// The references that a closure body captures, with their uses.
    pub fn captured_references(&self, cx: &Cx<'_>, body: &Expr) -> (r: Vec<(LocalId, usize)>)
        ensures
            r.deep_view() == captured_references(self@, counts_in(cx@, *body), 0, Seq::empty()),
    {
        let counts = uses_in(cx, body);
        let ghost cs = counts.pairs();
        let mut out: Vec<(LocalId, usize)> = Vec::new();
        proof {
            assert(out.deep_view() =~= Seq::empty());
        }
        let mut i: usize = 0;
        while i < counts.entries.len()
            invariant
                i <= counts.entries.len(),
                cs == counts.pairs(),
                captured_references(self@, cs, i as int, out.deep_view()) == captured_references(
                    self@,
                    cs,
                    0,
                    Seq::empty(),
                ),
            decreases counts.entries.len() - i,
        {
            let entry = (counts.entries[i].0, counts.entries[i].1);
            assert(cs[i as int] == entry);
            let captured = match self.local(entry.0) {
                Some(l) => l.0.is_reference(),
                None => false,
            };
            if captured {
                put(&mut out, entry);
            }
            i += 1;
        }
        out
    }

    /// The locals that a `mut` closure body captures by reference.
    pub fn captured_mutably(&self, cx: &Cx<'_>, body: &Expr) -> (r: Vec<LocalId>)
        ensures
            r.deep_view() == captured_mutably(cx@, self@, counts_in(cx@, *body), 0, Seq::empty()),
    {
        let counts = uses_in(cx, body);
        let ghost cs = counts.pairs();
        let mut out: Vec<LocalId> = Vec::new();
        proof {
            assert(out.deep_view() =~= Seq::empty());
        }
        let mut i: usize = 0;
        while i < counts.entries.len()
            invariant
                i <= counts.entries.len(),
                cs == counts.pairs(),
                captured_mutably(cx@, self@, cs, i as int, out.deep_view()) == captured_mutably(
                    cx@,
                    self@,
                    cs,
                    0,
                    Seq::empty(),
                ),
            decreases counts.entries.len() - i,
        {
            let local = counts.entries[i].0;
            assert(cs[i as int].0 == local);
            let captured = match self.local(local) {
                Some(l) => l.1 && !is_heap(&l.0, &cx.scope.names.definitions),
                None => false,
            };
            if captured {
                put(&mut out, local);
            }
            i += 1;
        }
        out
    }

    /// Checks what a spawned expression captures; the captured locals.
    pub fn check_spawn_capture_borrows(&mut self, cx: &Cx<'_>, x: &Expr, kind: &str) -> (r: Vec<LocalId>)
        ensures
            (final(self)@, r.deep_view()) == spawn_captures(cx@, old(self)@, *x, kind@),
    {
        proof {
            reveal(spawn_captures);
        }
        let counts = uses_in(cx, x);
        let ghost cs = counts.pairs();
        let mut out: Vec<LocalId> = Vec::new();
        proof {
            assert(out.deep_view() =~= Seq::empty());
        }
        let mut i: usize = 0;
        while i < counts.entries.len()
            invariant
                i <= counts.entries.len(),
                cs == counts.pairs(),
                self@ == old(self)@,
                captured_locals(self@, cs, i as int, out.deep_view()) == captured_locals(
                    self@,
                    cs,
                    0,
                    Seq::empty(),
                ),
            decreases counts.entries.len() - i,
        {
            let local = counts.entries[i].0;
            assert(cs[i as int].0 == local);
            if self.local(local).is_some() {
                put(&mut out, local);
            }
            i += 1;
        }
        let ghost ls = out.deep_view();
        let mut j: usize = 0;
        while j < out.len()
            invariant
                j <= out.len(),
                ls == out.deep_view(),
                spawn_borrows(self@, ls, j as int, x.span, kind@) == spawn_borrows(
                    old(self)@,
                    ls,
                    0,
                    x.span,
                    kind@,
                ),
            decreases out.len() - j,
        {
            assert(ls[j as int] == out@[j as int]);
            if let Some(BorrowOrigin::Local(_)) = self.reference_origin(out[j]) {
                let message = crate::text::cat4(
                    "cannot spawn a ",
                    kind,
                    " capturing a borrow of a local owned by this function — it may not outlive the spawned ",
                    kind,
                );
                self.err(x.span, message.as_str());
            }
            j += 1;
        }
        out
    }
}

// ---------------------------------------------------------------------
// Borrowed arguments
// ---------------------------------------------------------------------

/// The type that a reference type refers to.
pub open spec fn referent(t: Ty) -> Ty {
    match t {
        Ty::Ref(inner) => *inner,
        Ty::MutRef(inner) => *inner,
        _ => t,
    }
}

/// Whether a reference of type `actual` may be passed as `expected`: a
/// mutable one also as a shared one.
pub open spec fn reborrows(actual: Ty, expected: Ty) -> bool {
    match (actual, expected) {
        (Ty::Ref(a), Ty::Ref(b)) => fits(*a, *b),
        (Ty::MutRef(a), Ty::Ref(b)) => fits(*a, *b),
        (Ty::MutRef(a), Ty::MutRef(b)) => fits(*a, *b),
        _ => false,
    }
}

/// Whether a new borrow meets a live one.
pub open spec fn borrow_conflict(b: (usize, Option<Span>), mutable: bool) -> bool {
    if mutable {
        b.0 > 0 || b.1 is Some
    } else {
        b.1 is Some
    }
}

/// After passing an owned local as a reference.
#[verifier::opaque]
pub open spec fn lent(e: Env, st: St, arg: Expr, id: LocalId, inner: Ty, mutable: bool, t: Ty, borrowed: Map<LocalId, bool>) -> (
    St,
    Ty,
    Map<LocalId, bool>,
) {
    let is_mut = t is MutRef;
    let local_ty = Ty::Unique(Box::new(inner));
    let st1 = st.fail_if(!fits(inner, referent(t)), arg.span, mismatch(e, referent(t), inner));
    let st2 = st1.fail_if(
        is_mut && !mutable,
        arg.span,
        "cannot borrow an immutable binding as `:&mut` — declare it with `let mut`"@,
    );
    let st3 = st2.fail_if(
        borrow_conflict(st2.borrows_of(id), is_mut),
        arg.span,
        "call borrow conflicts with an already-live stored borrow"@,
    );
    let prior = borrowed.get(id);
    let st4 = st3.fail_if(
        prior is Some && (prior->0 || is_mut),
        arg.span,
        "cannot borrow a value as mutable more than once, or as both mutable and immutable, within the same call"@,
    );
    let result = if is_mut {
        Ty::MutRef(Box::new(inner))
    } else {
        Ty::Ref(Box::new(inner))
    };
    (
        st4.used(id, local_ty, arg.span, false).typed(arg.id, result),
        result,
        borrowed.insert(id, (prior is Some && prior->0) || is_mut),
    )
}

/// After passing an argument to a reference parameter of type `t`: its type,
/// and what the call has borrowed so far.
#[verifier::opaque]
pub open spec fn borrow_arg(e: Env, st: St, arg: Expr, t: Ty, borrowed: Map<LocalId, bool>) -> (
    St,
    Ty,
    Map<LocalId, bool>,
) {
    match bare_local(e.sc.names, arg) {
        None => (
            st.fail(
                arg.span,
                "a `:&T`/`:&mut T` argument must be a plain local variable holding an owned (`:T`) value — there is no `&expr` operator to borrow anything else"@,
            ).typed(arg.id, Ty::Error),
            Ty::Error,
            borrowed,
        ),
        Some(id) => match st.locals.get(id) {
            None => (st.typed(arg.id, Ty::Error), Ty::Error, borrowed),
            Some((local_ty, mutable)) => match local_ty {
                Ty::Ref(_) => relent(e, st, arg, local_ty, mutable, t, borrowed),
                Ty::MutRef(_) => relent(e, st, arg, local_ty, mutable, t, borrowed),
                Ty::Unique(inner) => lent(e, st, arg, id, *inner, mutable, t, borrowed),
                _ => (
                    st.fail(
                        arg.span,
                        "expected an owned (`:{Type}`) value to borrow, found `"@ + shown(local_ty, e.sc.defs()) + "`"@,
                    ).typed(arg.id, Ty::Error),
                    Ty::Error,
                    borrowed,
                ),
            },
        },
    }
}

/// After passing a reference on.
#[verifier::opaque]
pub open spec fn relent(e: Env, st: St, arg: Expr, local_ty: Ty, mutable: bool, t: Ty, borrowed: Map<LocalId, bool>) -> (
    St,
    Ty,
    Map<LocalId, bool>,
) {
    if !reborrows(local_ty, t) {
        (
            st.fail(arg.span, mismatch(e, t, local_ty)).typed(arg.id, Ty::Error),
            Ty::Error,
            borrowed,
        )
    } else {
        (
            st.fail_if(
                t is MutRef && !mutable,
                arg.span,
                "cannot pass an immutable reference as `:&mut`"@,
            ).typed(arg.id, t),
            t,
            borrowed,
        )
    }
}

fn may_reborrow(actual: &Type, expected: &Type) -> (r: bool)
    ensures
        r == reborrows(actual@, expected@),
{
    match (actual, expected) {
        (Type::Ref(a), Type::Ref(b)) => a.compatible(b),
        (Type::MutRef(a), Type::Ref(b)) => a.compatible(b),
        (Type::MutRef(a), Type::MutRef(b)) => a.compatible(b),
        _ => false,
    }
}

/// The type that a reference type refers to.
pub fn referent_of(ty: &Type) -> (r: &Type)
    ensures
        r@ == referent(ty@),
{
    match ty {
        Type::Ref(inner) => &**inner,
        Type::MutRef(inner) => &**inner,
        other => other,
    }
}

/// Whether a new borrow meets a live one.
pub fn conflicts(b: (usize, Option<Span>), mutable: bool) -> (r: bool)
    ensures
        r == borrow_conflict(b, mutable),
{
    if mutable {
        b.0 > 0 || b.1.is_some()
    } else {
        b.1.is_some()
    }
}

impl Checker {
    fn lend(&mut self, cx: &Cx<'_>, arg: &Expr, id: LocalId, inner: &Type, mutable: bool, ty: &Type, borrowed: &mut Table<LocalId, bool>) -> (r: Type)
        ensures
            (final(self)@, r@, final(borrowed)@) == lent(
                cx@,
                old(self)@,
                *arg,
                id,
                inner@,
                mutable,
                ty@,
                old(borrowed)@,
            ),
    {
        proof {
            reveal(lent);
        }
        let is_mut = matches!(ty, Type::MutRef(_));
        let expected = referent_of(ty);
        if !inner.compatible(expected) {
            let message = cx.mismatch_text(expected, inner);
            self.err(arg.span, message.as_str());
        }
        if is_mut && !mutable {
            self.err(arg.span, "cannot borrow an immutable binding as `:&mut` — declare it with `let mut`");
        }
        if conflicts(self.borrow_state(id), is_mut) {
            self.err(arg.span, "call borrow conflicts with an already-live stored borrow");
        }
        let prior = match borrowed.get(&id) {
            Some(b) => Some(*b),
            None => None,
        };
        let before = match prior {
            Some(b) => b,
            None => false,
        };
        if prior.is_some() && (before || is_mut) {
            self.err(
                arg.span,
                "cannot borrow a value as mutable more than once, or as both mutable and immutable, within the same call",
            );
        }
        borrowed.insert(id, before || is_mut);
        let owned = Type::owned(inner.clone());
        self.check_move(id, &owned, arg.span, false);
        let result = Type::reference(inner.clone(), is_mut);
        self.set_type(arg.id, result.clone());
        result
    }

    fn relend(&mut self, cx: &Cx<'_>, arg: &Expr, local_ty: &Type, mutable: bool, ty: &Type) -> (r: Type)
        ensures
            forall|b: Map<LocalId, bool>|
                #![trigger relent(cx@, old(self)@, *arg, local_ty@, mutable, ty@, b)]
                (final(self)@, r@, b) == relent(cx@, old(self)@, *arg, local_ty@, mutable, ty@, b),
    {
        proof {
            reveal(relent);
        }
        if !may_reborrow(local_ty, ty) {
            let message = cx.mismatch_text(ty, local_ty);
            self.err(arg.span, message.as_str());
            self.set_type(arg.id, Type::Error);
            return Type::Error;
        }
        if matches!(ty, Type::MutRef(_)) && !mutable {
            self.err(arg.span, "cannot pass an immutable reference as `:&mut`");
        }
        self.set_type(arg.id, ty.clone());
        ty.clone()
    }

    /// Passes an argument to a reference parameter.
    pub fn check_borrow_arg(&mut self, cx: &Cx<'_>, arg: &Expr, ty: &Type, borrowed: &mut Table<LocalId, bool>) -> (r: Type)
        ensures
            (final(self)@, r@, final(borrowed)@) == borrow_arg(cx@, old(self)@, *arg, ty@, old(borrowed)@),
    {
        proof {
            reveal(borrow_arg);
        }
        let id = match bare_local_of(cx.scope.names, arg) {
            Some(id) => id,
            None => {
                self.err(
                    arg.span,
                    "a `:&T`/`:&mut T` argument must be a plain local variable holding an owned (`:T`) value — there is no `&expr` operator to borrow anything else",
                );
                self.set_type(arg.id, Type::Error);
                return Type::Error;
            },
        };
        let (local_ty, mutable) = match self.local(id) {
            Some(l) => (l.0.clone(), l.1),
            None => {
                self.set_type(arg.id, Type::Error);
                return Type::Error;
            },
        };
        match &local_ty {
            Type::Ref(_) => self.relend(cx, arg, &local_ty, mutable, ty),
            Type::MutRef(_) => self.relend(cx, arg, &local_ty, mutable, ty),
            Type::Unique(inner) => self.lend(cx, arg, id, inner, mutable, ty, borrowed),
            _ => {
                let described = cx.describe(&local_ty);
                let message = cat3(
                    "expected an owned (`:{Type}`) value to borrow, found `",
                    described.as_str(),
                    "`",
                );
                self.err(arg.span, message.as_str());
                self.set_type(arg.id, Type::Error);
                Type::Error
            },
        }
    }
}

} // verus!
