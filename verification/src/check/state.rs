//! What the checker knows while it walks a body.
use crate::ast::TypeExpr;
use crate::datum::{add_new, drop_one, lemma_deep_len, occurs, push_new, put, take_out, Datum, Dup};
use crate::diagnostics::{diag, diag2, report, report2, Diag, Diagnostic};
use crate::ids::{LocalId, NodeId, Span, Symbol};
use crate::lower::{lowered, Sc, Scope};
use crate::names::ResolvedNames;
use crate::sig::{Bound, GenericBound, Signatures, Sigs};
use crate::table::{pair_map, Table};
use crate::ty::{group_tys, ty_unit, Ty, Type};
use crate::uses::{decrement, increment, less, one_more};
use vstd::prelude::*;

verus! {

broadcast use group_tys, lemma_deep_len;

/// Where a reference comes from.
#[derive(Debug, Clone, Copy, PartialEq, Eq, Hash, Structural)]
pub enum BorrowOrigin {
    /// The caller supplied it: it outlives the call.
    Parameter(LocalId),
    /// It borrows an owned local: it must not leave the function.
    Local(LocalId),
}

impl DeepView for BorrowOrigin {
    type V = BorrowOrigin;

    open spec fn deep_view(&self) -> BorrowOrigin {
        *self
    }
}

impl Dup for BorrowOrigin {
    fn dup(&self) -> (r: Self) {
        *self
    }
}

impl Datum for BorrowOrigin {
    fn same(&self, other: &Self) -> (r: bool) {
        *self == *other
    }
}

/// Where a reference that a closure returns comes from.
#[derive(Debug, Clone, Copy, PartialEq, Eq, Hash, Structural)]
pub enum ClosureOrigin {
    Parameter(usize),
    Captured(BorrowOrigin),
}

impl DeepView for ClosureOrigin {
    type V = ClosureOrigin;

    open spec fn deep_view(&self) -> ClosureOrigin {
        *self
    }
}

impl Dup for ClosureOrigin {
    fn dup(&self) -> (r: Self) {
        *self
    }
}

impl Datum for ClosureOrigin {
    fn same(&self, other: &Self) -> (r: bool) {
        *self == *other
    }
}

/// The module and its signatures.
pub struct Cx<'a> {
    pub scope: &'a Scope<'a>,
    pub sigs: &'a Signatures,
}

/// What a [`Cx`] denotes.
pub struct Env {
    pub sc: Sc,
    pub sigs: Sigs,
}

impl View for Cx<'_> {
    type V = Env;

    open spec fn view(&self) -> Env {
        Env { sc: self.scope@, sigs: self.sigs@ }
    }
}

/// The state of the checker.
pub struct St {
    /// The reported errors.
    pub diags: Seq<Diag>,
    /// The type of each checked expression.
    pub expr_types: Map<NodeId, Ty>,
    /// The type of each binding site.
    pub local_types: Map<NodeId, Ty>,
    /// The generic arguments of each generic call.
    pub call_generic_args: Map<NodeId, Seq<Ty>>,
    /// The concrete type of each value that is packed into an existential.
    pub coercions: Map<NodeId, Ty>,
    /// The type of each local, and whether it is mutable.
    pub locals: Map<LocalId, (Ty, bool)>,
    /// Where each moved local was moved.
    pub moved: Map<LocalId, Span>,
    /// The locals of each open scope.
    pub scopes: Seq<Seq<LocalId>>,
    /// What each reference local borrows, and whether mutably.
    pub borrow_origins: Map<LocalId, (LocalId, bool)>,
    /// The ultimate origin of each reference local.
    pub reference_origins: Map<LocalId, BorrowOrigin>,
    /// The origins of what a closure expression returns.
    pub closure_origins: Map<NodeId, Seq<ClosureOrigin>>,
    /// The origins of what a local callable returns.
    pub callable_origins: Map<LocalId, Seq<ClosureOrigin>>,
    /// How often a closure expression uses each reference it captures.
    pub closure_uses: Map<NodeId, Seq<(LocalId, usize)>>,
    /// The locals that a `mut` closure captures by reference.
    pub closure_mut_captures: Map<NodeId, Seq<LocalId>>,
    /// How often a local callable uses each reference it captures.
    pub callable_uses: Map<LocalId, Seq<(LocalId, usize)>>,
    /// The captured references of the closures being checked.
    pub deferred: Seq<Seq<LocalId>>,
    /// Callables after their last use.
    pub pending_callables: Seq<LocalId>,
    /// How many uses of each local are still to come.
    pub remaining: Map<LocalId, usize>,
    /// Locals that closures use.
    pub pinned: Seq<LocalId>,
    /// References after their last use.
    pub pending_references: Seq<LocalId>,
    /// The live shared borrows of each owned local, and its live mutable one.
    pub borrows: Map<LocalId, (usize, Option<Span>)>,
    /// Whether errors are dropped.
    pub silent: bool,
    pub generics: Map<Seq<char>, Seq<Bound>>,
    pub const_generics: Map<Seq<char>, Ty>,
    /// The concrete type behind the returned `some` type.
    pub witness: Option<Ty>,
    pub return_ty: Ty,
    pub in_async: bool,
    pub in_unsafe: bool,
    pub in_loop: bool,
}

/// The checker.
pub struct Checker {
    diagnostics: Vec<Diagnostic>,
    expr_types: Table<NodeId, Type>,
    local_types: Table<NodeId, Type>,
    call_generic_args: Table<NodeId, Vec<Type>>,
    coercions: Table<NodeId, Type>,
    locals: Table<LocalId, (Type, bool)>,
    moved: Table<LocalId, Span>,
    scopes: Vec<Vec<LocalId>>,
    borrow_origins: Table<LocalId, (LocalId, bool)>,
    reference_origins: Table<LocalId, BorrowOrigin>,
    closure_origins: Table<NodeId, Vec<ClosureOrigin>>,
    callable_origins: Table<LocalId, Vec<ClosureOrigin>>,
    closure_uses: Table<NodeId, Vec<(LocalId, usize)>>,
    closure_mut_captures: Table<NodeId, Vec<LocalId>>,
    callable_uses: Table<LocalId, Vec<(LocalId, usize)>>,
    deferred: Vec<Vec<LocalId>>,
    pending_callables: Vec<LocalId>,
    remaining: Table<LocalId, usize>,
    pinned: Vec<LocalId>,
    pending_references: Vec<LocalId>,
    borrows: Table<LocalId, (usize, Option<Span>)>,
    silent: bool,
    generics: Table<Symbol, Vec<GenericBound>>,
    const_generics: Table<Symbol, Type>,
    witness: Option<Type>,
    return_ty: Type,
    in_async: bool,
    in_unsafe: bool,
    in_loop: bool,
}

impl View for Checker {
    type V = St;

    closed spec fn view(&self) -> St {
        St {
            diags: self.diagnostics.deep_view(),
            expr_types: self.expr_types@,
            local_types: self.local_types@,
            call_generic_args: self.call_generic_args@,
            coercions: self.coercions@,
            locals: self.locals@,
            moved: self.moved@,
            scopes: self.scopes.deep_view(),
            borrow_origins: self.borrow_origins@,
            reference_origins: self.reference_origins@,
            closure_origins: self.closure_origins@,
            callable_origins: self.callable_origins@,
            closure_uses: self.closure_uses@,
            closure_mut_captures: self.closure_mut_captures@,
            callable_uses: self.callable_uses@,
            deferred: self.deferred.deep_view(),
            pending_callables: self.pending_callables.deep_view(),
            remaining: self.remaining@,
            pinned: self.pinned.deep_view(),
            pending_references: self.pending_references.deep_view(),
            borrows: self.borrows@,
            silent: self.silent,
            generics: self.generics@,
            const_generics: self.const_generics@,
            witness: self.witness.deep_view(),
            return_ty: self.return_ty@,
            in_async: self.in_async,
            in_unsafe: self.in_unsafe,
            in_loop: self.in_loop,
        }
    }
}

// ---------------------------------------------------------------------
// Transitions
// ---------------------------------------------------------------------

impl St {
    /// Nothing checked, with these results so far.
    pub open spec fn fresh(
        diags: Seq<Diag>,
        expr_types: Map<NodeId, Ty>,
        local_types: Map<NodeId, Ty>,
        call_generic_args: Map<NodeId, Seq<Ty>>,
        coercions: Map<NodeId, Ty>,
    ) -> St {
        St {
            diags,
            expr_types,
            local_types,
            call_generic_args,
            coercions,
            locals: Map::empty(),
            moved: Map::empty(),
            scopes: Seq::empty(),
            borrow_origins: Map::empty(),
            reference_origins: Map::empty(),
            closure_origins: Map::empty(),
            callable_origins: Map::empty(),
            closure_uses: Map::empty(),
            closure_mut_captures: Map::empty(),
            callable_uses: Map::empty(),
            deferred: Seq::empty(),
            pending_callables: Seq::empty(),
            remaining: Map::empty(),
            pinned: Seq::empty(),
            pending_references: Seq::empty(),
            borrows: Map::empty(),
            silent: false,
            generics: Map::empty(),
            const_generics: Map::empty(),
            witness: None,
            return_ty: ty_unit(),
            in_async: false,
            in_unsafe: false,
            in_loop: false,
        }
    }

    /// After an error, unless errors are dropped.
    #[verifier::opaque]
    pub open spec fn fail(self, span: Span, message: Seq<char>) -> St {
        if self.silent {
            self
        } else {
            St { diags: self.diags.push(diag(message, span, "here"@)), ..self }
        }
    }

    /// After an error, if the condition holds.
    pub open spec fn fail_if(self, wrong: bool, span: Span, message: Seq<char>) -> St {
        if wrong {
            self.fail(span, message)
        } else {
            self
        }
    }

    /// After recording an expression's type.
    pub open spec fn typed(self, id: NodeId, t: Ty) -> St {
        St { expr_types: self.expr_types.insert(id, t), ..self }
    }

    /// After a site binds a local: it starts live.
    #[verifier::opaque]
    pub open spec fn bound(self, names: ResolvedNames, site: NodeId, t: Ty, mutable: bool) -> St {
        let s = match names.local(site) {
            Some(local) => St {
                locals: self.locals.insert(local, (t, mutable)),
                scopes: if self.scopes.len() > 0 {
                    self.scopes.update(self.scopes.len() - 1, self.scopes.last().push(local))
                } else {
                    self.scopes
                },
                moved: self.moved.remove(local),
                ..self
            },
            None => self,
        };
        St { local_types: s.local_types.insert(site, t), ..s }
    }

    /// After opening a scope.
    pub open spec fn opened(self) -> St {
        St { scopes: self.scopes.push(Seq::empty()), ..self }
    }

    /// After the borrow that a reference local holds ends.
    pub open spec fn reference_released(self, local: LocalId) -> St {
        match self.borrow_origins.get(local) {
            None => self,
            Some((origin, mutable)) => St {
                borrow_origins: self.borrow_origins.remove(local),
                borrows: match self.borrows.get(origin) {
                    None => self.borrows,
                    Some((shared, exclusive)) => {
                        let shared1 = if mutable {
                            shared
                        } else {
                            less(shared, 1)
                        };
                        let exclusive1 = if mutable {
                            None
                        } else {
                            exclusive
                        };
                        if shared1 == 0 && exclusive1 is None {
                            self.borrows.remove(origin)
                        } else {
                            self.borrows.insert(origin, (shared1, exclusive1))
                        }
                    },
                },
                ..self
            },
        }
    }

    /// After a callable gives up the uses it captured, from the `i`-th on.
    pub open spec fn captures_released(self, captures: Seq<(LocalId, usize)>, i: int) -> St
        decreases captures.len() - i,
    {
        if 0 <= i < captures.len() {
            let reference = captures[i].0;
            let s = match self.remaining.get(reference) {
                None => self,
                Some(n) => {
                    let n1 = less(n, captures[i].1);
                    let s1 = St { remaining: self.remaining.insert(reference, n1), ..self };
                    if n1 == 0 {
                        (St { pinned: drop_one(s1.pinned, reference), ..s1 }).reference_released(reference)
                    } else {
                        s1
                    }
                },
            };
            s.captures_released(captures, i + 1)
        } else {
            self
        }
    }

    /// After a callable's last use.
    pub open spec fn callable_released(self, callable: LocalId) -> St {
        match self.callable_uses.get(callable) {
            None => self,
            Some(captures) => (St { callable_uses: self.callable_uses.remove(callable), ..self }).captures_released(
                captures,
                0,
            ),
        }
    }

    /// After a local leaves its scope.
    pub open spec fn local_closed(self, local: LocalId) -> St {
        (St {
            reference_origins: self.reference_origins.remove(local),
            callable_origins: self.callable_origins.remove(local),
            ..self
        }).callable_released(local).reference_released(local)
    }

    /// After the first `n` locals leave their scope, the last one first.
    pub open spec fn locals_closed(self, locals: Seq<LocalId>, n: int) -> St
        decreases n,
    {
        if 0 < n <= locals.len() {
            self.local_closed(locals[n - 1]).locals_closed(locals, n - 1)
        } else {
            self
        }
    }

    /// After closing the innermost scope.
    #[verifier::opaque]
    pub open spec fn closed(self) -> St {
        if self.scopes.len() == 0 {
            self
        } else {
            let locals = self.scopes.last();
            (St { scopes: self.scopes.drop_last(), ..self }).locals_closed(locals, locals.len() as int)
        }
    }

    /// After a reference is stored in a binding.
    #[verifier::opaque]
    pub open spec fn borrowed(self, names: ResolvedNames, site: NodeId, origin: LocalId, mutable: bool, span: Span) -> St {
        match names.local(site) {
            None => self,
            Some(reference) => {
                let (shared, exclusive) = match self.borrows.get(origin) {
                    Some(b) => b,
                    None => (0usize, None),
                };
                St {
                    borrows: self.borrows.insert(
                        origin,
                        if mutable {
                            (shared, Some(span))
                        } else {
                            (one_more(shared), exclusive)
                        },
                    ),
                    borrow_origins: self.borrow_origins.insert(reference, (origin, mutable)),
                    reference_origins: self.reference_origins.insert(reference, BorrowOrigin::Local(origin)),
                    ..self
                }
            },
        }
    }

    /// After a use of an owned local, which consumes it or not. Other values
    /// are shared freely.
    #[verifier::opaque]
    pub open spec fn used(self, local: LocalId, t: Ty, span: Span, consumes: bool) -> St {
        if !(t is Unique) {
            self
        } else {
            let exclusive = match self.borrows.get(local) {
                Some((_, e)) => e,
                None => None,
            };
            if self.borrows.contains_key(local) && consumes {
                self.fail(span, "cannot move a value while it is borrowed"@)
            } else if exclusive is Some {
                self.fail(span, "cannot access a value directly while it is mutably borrowed"@)
            } else {
                match self.moved.get(local) {
                    Some(prior) => if self.silent {
                        self
                    } else {
                        St {
                            diags: self.diags.push(
                                diag2(
                                    "use of a value after it was moved"@,
                                    prior,
                                    "value moved here"@,
                                    span,
                                    "used again here, after the move"@,
                                ),
                            ),
                            ..self
                        }
                    },
                    None => if consumes {
                        St { moved: self.moved.insert(local, span), ..self }
                    } else {
                        self
                    },
                }
            }
        }
    }

    /// Whether a closure being checked captures the local.
    pub open spec fn is_deferred(self, local: LocalId) -> bool {
        exists|i: int| #![trigger self.deferred[i]] 0 <= i < self.deferred.len() && self.deferred[i].contains(local)
    }

    /// After one of a local's uses has gone by.
    #[verifier::opaque]
    pub open spec fn noted(self, local: LocalId) -> St {
        if self.silent || self.is_deferred(local) {
            self
        } else {
            match self.remaining.get(local) {
                None => self,
                Some(n) => {
                    let n1 = less(n, 1);
                    let s = St { remaining: self.remaining.insert(local, n1), ..self };
                    if n1 != 0 {
                        s
                    } else {
                        St {
                            pending_callables: if s.callable_uses.contains_key(local) {
                                push_new(s.pending_callables, local)
                            } else {
                                s.pending_callables
                            },
                            pending_references: if s.pinned.contains(local) {
                                s.pending_references
                            } else {
                                push_new(s.pending_references, local)
                            },
                            ..s
                        }
                    }
                },
            }
        }
    }

    /// After the callables from the `i`-th on are released.
    pub open spec fn callables_released(self, locals: Seq<LocalId>, i: int) -> St
        decreases locals.len() - i,
    {
        if 0 <= i < locals.len() {
            self.callable_released(locals[i]).callables_released(locals, i + 1)
        } else {
            self
        }
    }

    /// After the references from the `i`-th on are released.
    pub open spec fn references_released(self, locals: Seq<LocalId>, i: int) -> St
        decreases locals.len() - i,
    {
        if 0 <= i < locals.len() {
            self.reference_released(locals[i]).references_released(locals, i + 1)
        } else {
            self
        }
    }

    /// After a statement: what has seen its last use is released.
    #[verifier::opaque]
    pub open spec fn flushed(self) -> St {
        let callables = self.pending_callables;
        let s = (St { pending_callables: Seq::empty(), ..self }).callables_released(callables, 0);
        let references = s.pending_references;
        (St { pending_references: Seq::empty(), ..s }).references_released(references, 0)
    }

    /// The borrows of a local.
    pub open spec fn borrows_of(self, local: LocalId) -> (usize, Option<Span>) {
        match self.borrows.get(local) {
            Some(b) => b,
            None => (0usize, None),
        }
    }

    /// After merging in what another branch has moved, unless that branch
    /// never gets here.
    pub open spec fn merged(self, diverges: bool, moved: Map<LocalId, Span>) -> St {
        if diverges {
            self
        } else {
            St { moved: moved.union_prefer_right(self.moved), ..self }
        }
    }

    /// After lowering a type's syntax.
    pub open spec fn lowered(self, sc: Sc, t: TypeExpr) -> (Ty, St) {
        let (ty, d) = lowered(sc, t, self.diags);
        (ty, St { diags: d, ..self })
    }
}

impl Checker {
    /// A checker with nothing checked yet.
    pub fn new() -> (r: Self)
        ensures
            r@ == St::fresh(Seq::empty(), Map::empty(), Map::empty(), Map::empty(), Map::empty()),
    {
        let r = Checker {
            diagnostics: Vec::new(),
            expr_types: Table::new(),
            local_types: Table::new(),
            call_generic_args: Table::new(),
            coercions: Table::new(),
            locals: Table::new(),
            moved: Table::new(),
            scopes: Vec::new(),
            borrow_origins: Table::new(),
            reference_origins: Table::new(),
            closure_origins: Table::new(),
            callable_origins: Table::new(),
            closure_uses: Table::new(),
            closure_mut_captures: Table::new(),
            callable_uses: Table::new(),
            deferred: Vec::new(),
            pending_callables: Vec::new(),
            remaining: Table::new(),
            pinned: Vec::new(),
            pending_references: Vec::new(),
            borrows: Table::new(),
            silent: false,
            generics: Table::new(),
            const_generics: Table::new(),
            witness: None,
            return_ty: Type::unit(),
            in_async: false,
            in_unsafe: false,
            in_loop: false,
        };
        proof {
            assert(r@.diags =~= Seq::empty());
            assert(r@.scopes =~= Seq::empty());
            assert(r@.deferred =~= Seq::empty());
            assert(r@.pending_callables =~= Seq::empty());
            assert(r@.pinned =~= Seq::empty());
            assert(r@.pending_references =~= Seq::empty());
        }
        r
    }

    /// Forgets everything but the results.
    pub fn restart(&mut self)
        ensures
            final(self)@ == St::fresh(
                old(self)@.diags,
                old(self)@.expr_types,
                old(self)@.local_types,
                old(self)@.call_generic_args,
                old(self)@.coercions,
            ),
    {
        let mut fresh = Checker::new();
        std::mem::swap(&mut fresh.diagnostics, &mut self.diagnostics);
        std::mem::swap(&mut fresh.expr_types, &mut self.expr_types);
        std::mem::swap(&mut fresh.local_types, &mut self.local_types);
        std::mem::swap(&mut fresh.call_generic_args, &mut self.call_generic_args);
        std::mem::swap(&mut fresh.coercions, &mut self.coercions);
        std::mem::swap(&mut fresh, self);
    }

    /// Reports an error.
    pub fn err(&mut self, span: Span, message: &str)
        ensures
            final(self)@ == old(self)@.fail(span, message@),
    {
        proof {
            reveal(St::fail);
        }
        if !self.silent {
            report(&mut self.diagnostics, message, span, "here");
        }
    }

    /// The type that a syntax denotes.
    pub fn lower(&mut self, cx: &Cx<'_>, t: &TypeExpr) -> (r: Type)
        ensures
            (r@, final(self)@) == old(self)@.lowered(cx@.sc, *t),
    {
        cx.scope.lower_type_expr(t, &mut self.diagnostics)
    }

    /// Reports an error that no position silences.
    pub fn report_always(&mut self, message: &str, span: Span, label: &str)
        ensures
            final(self)@ == (St { diags: old(self)@.diags.push(diag(message@, span, label@)), ..old(self)@ }),
    {
        report(&mut self.diagnostics, message, span, label);
    }

    /// The generic parameters with their bounds.
    pub fn lower_bounded_params(&mut self, cx: &Cx<'_>, gs: &Vec<crate::ast::GenericParam>) -> (r: Vec<(Symbol, Vec<GenericBound>)>)
        ensures
            (r.deep_view(), final(self)@.diags) == crate::declarations::bounded_params_from(
                cx@.sc,
                gs@,
                0,
                Seq::empty(),
                old(self)@.diags,
            ),
            final(self)@ == (St { diags: final(self)@.diags, ..old(self)@ }),
    {
        cx.scope.bounded_params(gs, &mut self.diagnostics)
    }

    /// Records an expression's type.
    pub fn set_type(&mut self, id: NodeId, ty: Type)
        ensures
            final(self)@ == old(self)@.typed(id, ty@),
    {
        self.expr_types.insert(id, ty);
    }

    /// The recorded type of an expression.
    pub fn type_at(&self, id: NodeId) -> (r: Option<&Type>)
        ensures
            r.deep_view() == self@.expr_types.get(id),
    {
        self.expr_types.get(&id)
    }

    /// Records the generic arguments of a call.
    pub fn set_call_args(&mut self, id: NodeId, args: Vec<Type>)
        ensures
            final(self)@ == (St {
                call_generic_args: old(self)@.call_generic_args.insert(id, args.deep_view()),
                ..old(self)@
            }),
    {
        self.call_generic_args.insert(id, args);
    }

    /// Records what is packed into an existential.
    pub fn set_coercion(&mut self, id: NodeId, ty: Type)
        ensures
            final(self)@ == (St { coercions: old(self)@.coercions.insert(id, ty@), ..old(self)@ }),
    {
        self.coercions.insert(id, ty);
    }

    /// A local's type and mutability.
    pub fn local(&self, id: LocalId) -> (r: Option<&(Type, bool)>)
        ensures
            r.deep_view() == self@.locals.get(id),
    {
        self.locals.get(&id)
    }

    /// The bounds of a generic parameter.
    pub fn bounds(&self, name: &Symbol) -> (r: Option<&Vec<GenericBound>>)
        ensures
            r.deep_view() == self@.generics.get(name@),
    {
        self.generics.get(name)
    }

    /// The type of a compile-time integer parameter.
    pub fn const_generic(&self, name: &Symbol) -> (r: Option<&Type>)
        ensures
            r.deep_view() == self@.const_generics.get(name@),
    {
        self.const_generics.get(name)
    }

    /// Whether no error has been reported.
    pub fn is_clean(&self) -> (r: bool)
        ensures
            r == (self@.diags.len() == 0),
    {
        self.diagnostics.len() == 0
    }

    pub fn is_async(&self) -> (r: bool)
        ensures
            r == self@.in_async,
    {
        self.in_async
    }

    pub fn is_unsafe(&self) -> (r: bool)
        ensures
            r == self@.in_unsafe,
    {
        self.in_unsafe
    }

    pub fn set_unsafe(&mut self, b: bool)
        ensures
            final(self)@ == (St { in_unsafe: b, ..old(self)@ }),
    {
        self.in_unsafe = b;
    }

    pub fn set_async(&mut self, b: bool)
        ensures
            final(self)@ == (St { in_async: b, ..old(self)@ }),
    {
        self.in_async = b;
    }

    pub fn is_in_loop(&self) -> (r: bool)
        ensures
            r == self@.in_loop,
    {
        self.in_loop
    }

    pub fn set_in_loop(&mut self, b: bool)
        ensures
            final(self)@ == (St { in_loop: b, ..old(self)@ }),
    {
        self.in_loop = b;
    }

    pub fn is_silent(&self) -> (r: bool)
        ensures
            r == self@.silent,
    {
        self.silent
    }

    pub fn set_silent(&mut self, b: bool)
        ensures
            final(self)@ == (St { silent: b, ..old(self)@ }),
    {
        self.silent = b;
    }

    pub fn return_type(&self) -> (r: &Type)
        ensures
            r@ == self@.return_ty,
    {
        &self.return_ty
    }

    pub fn set_return_type(&mut self, t: Type)
        ensures
            final(self)@ == (St { return_ty: t@, ..old(self)@ }),
    {
        self.return_ty = t;
    }

    pub fn set_generics(&mut self, generics: Table<Symbol, Vec<GenericBound>>, consts: Table<Symbol, Type>)
        ensures
            final(self)@ == (St { generics: generics@, const_generics: consts@, ..old(self)@ }),
    {
        self.generics = generics;
        self.const_generics = consts;
    }

    /// The concrete type behind the returned `some` type.
    pub fn opaque_witness(&self) -> (r: &Option<Type>)
        ensures
            r.deep_view() == self@.witness,
    {
        &self.witness
    }

    pub fn set_witness(&mut self, t: Type)
        ensures
            final(self)@ == (St { witness: Some(t@), ..old(self)@ }),
    {
        self.witness = Some(t);
    }

    /// The borrows of a local.
    pub fn borrow_state(&self, local: LocalId) -> (r: (usize, Option<Span>))
        ensures
            r == self@.borrows_of(local),
    {
        match self.borrows.get(&local) {
            Some(b) => (b.0, b.1),
            None => (0, None),
        }
    }

    /// Whether a local is borrowed.
    pub fn is_borrowed(&self, local: LocalId) -> (r: bool)
        ensures
            r == self@.borrows.contains_key(local),
    {
        self.borrows.contains(&local)
    }

    /// The ultimate origin of a reference local.
    pub fn reference_origin(&self, local: LocalId) -> (r: Option<BorrowOrigin>)
        ensures
            r == self@.reference_origins.get(local),
    {
        match self.reference_origins.get(&local) {
            Some(o) => Some(*o),
            None => None,
        }
    }

    pub fn set_reference_origin(&mut self, local: LocalId, origin: BorrowOrigin)
        ensures
            final(self)@ == (St {
                reference_origins: old(self)@.reference_origins.insert(local, origin),
                ..old(self)@
            }),
    {
        self.reference_origins.insert(local, origin);
    }

    /// The origins of what a closure expression returns.
    pub fn closure_origins_at(&self, id: NodeId) -> (r: Option<&Vec<ClosureOrigin>>)
        ensures
            r.deep_view() == self@.closure_origins.get(id),
    {
        self.closure_origins.get(&id)
    }

    pub fn set_closure_origins(&mut self, id: NodeId, o: Vec<ClosureOrigin>)
        ensures
            final(self)@ == (St {
                closure_origins: old(self)@.closure_origins.insert(id, o.deep_view()),
                ..old(self)@
            }),
    {
        self.closure_origins.insert(id, o);
    }

    /// The origins of what a local callable returns.
    pub fn callable_origins_at(&self, local: LocalId) -> (r: Option<&Vec<ClosureOrigin>>)
        ensures
            r.deep_view() == self@.callable_origins.get(local),
    {
        self.callable_origins.get(&local)
    }

    pub fn set_callable_origins(&mut self, local: LocalId, o: Vec<ClosureOrigin>)
        ensures
            final(self)@ == (St {
                callable_origins: old(self)@.callable_origins.insert(local, o.deep_view()),
                ..old(self)@
            }),
    {
        self.callable_origins.insert(local, o);
    }

    /// How often a closure expression uses each reference it captures.
    pub fn closure_uses_at(&self, id: NodeId) -> (r: Option<&Vec<(LocalId, usize)>>)
        ensures
            r.deep_view() == self@.closure_uses.get(id),
    {
        self.closure_uses.get(&id)
    }

    pub fn set_closure_uses(&mut self, id: NodeId, uses: Vec<(LocalId, usize)>)
        ensures
            final(self)@ == (St {
                closure_uses: old(self)@.closure_uses.insert(id, uses.deep_view()),
                ..old(self)@
            }),
    {
        self.closure_uses.insert(id, uses);
    }

    /// The locals that a `mut` closure captures by reference.
    pub fn closure_mut_captures_at(&self, id: NodeId) -> (r: Option<&Vec<LocalId>>)
        ensures
            r.deep_view() == self@.closure_mut_captures.get(id),
    {
        self.closure_mut_captures.get(&id)
    }

    pub fn set_closure_mut_captures(&mut self, id: NodeId, locals: Vec<LocalId>)
        ensures
            final(self)@ == (St {
                closure_mut_captures: old(self)@.closure_mut_captures.insert(id, locals.deep_view()),
                ..old(self)@
            }),
    {
        self.closure_mut_captures.insert(id, locals);
    }

    pub fn set_callable_uses(&mut self, local: LocalId, uses: Vec<(LocalId, usize)>)
        ensures
            final(self)@ == (St {
                callable_uses: old(self)@.callable_uses.insert(local, uses.deep_view()),
                ..old(self)@
            }),
    {
        self.callable_uses.insert(local, uses);
    }

    pub fn unpin(&mut self, local: LocalId)
        ensures
            final(self)@ == (St { pinned: drop_one(old(self)@.pinned, local), ..old(self)@ }),
    {
        take_out(&mut self.pinned, &local);
    }

    pub fn remaining_uses(&self, local: LocalId) -> (r: Option<usize>)
        ensures
            r == self@.remaining.get(local),
    {
        match self.remaining.get(&local) {
            Some(n) => Some(*n),
            None => None,
        }
    }

    pub fn set_uses(&mut self, remaining: Table<LocalId, usize>, pinned: Vec<LocalId>)
        ensures
            final(self)@ == (St { remaining: pair_map(remaining.pairs()), pinned: pinned.deep_view(), ..old(self)@ }),
    {
        self.remaining = remaining;
        self.pinned = pinned;
    }

    pub fn pend_callable(&mut self, local: LocalId)
        ensures
            final(self)@ == (St { pending_callables: push_new(old(self)@.pending_callables, local), ..old(self)@ }),
    {
        add_new(&mut self.pending_callables, local);
    }

    pub fn defer(&mut self, locals: Vec<LocalId>)
        ensures
            final(self)@ == (St { deferred: old(self)@.deferred.push(locals.deep_view()), ..old(self)@ }),
    {
        put(&mut self.deferred, locals);
    }

    pub fn undefer(&mut self)
        ensures
            final(self)@ == (St {
                deferred: if old(self)@.deferred.len() > 0 {
                    old(self)@.deferred.drop_last()
                } else {
                    old(self)@.deferred
                },
                ..old(self)@
            }),
    {
        let ghost before = self.deferred.deep_view();
        let gone = self.deferred.pop();
        proof {
            if before.len() > 0 {
                assert(self.deferred.deep_view() =~= before.drop_last());
            } else {
                assert(self.deferred.deep_view() =~= before);
            }
        }
    }

    /// A copy of what is moved.
    pub fn moved_locals(&self) -> (r: Table<LocalId, Span>)
        ensures
            r@ == self@.moved,
    {
        self.moved.copy()
    }

    /// Replaces what is moved; gives back what was.
    pub fn replace_moved(&mut self, m: Table<LocalId, Span>) -> (r: Table<LocalId, Span>)
        ensures
            r@ == old(self)@.moved,
            final(self)@ == (St { moved: m@, ..old(self)@ }),
    {
        let mut other = m;
        std::mem::swap(&mut other, &mut self.moved);
        other
    }

    pub fn unmove(&mut self, local: LocalId)
        ensures
            final(self)@ == (St { moved: old(self)@.moved.remove(local), ..old(self)@ }),
    {
        self.moved.remove(&local);
    }

    /// Merges in what another branch has moved.
    pub fn merge_branch(&mut self, diverges: bool, moved: &Table<LocalId, Span>)
        ensures
            final(self)@ == old(self)@.merged(diverges, moved@),
    {
        if !diverges {
            self.moved.absorb(moved);
        }
    }

    /// Binds a local.
    pub fn bind_local(&mut self, names: &ResolvedNames, site: NodeId, ty: Type, mutable: bool)
        ensures
            final(self)@ == old(self)@.bound(*names, site, ty@, mutable),
    {
        proof {
            reveal(St::bound);
        }
        if let Some(local) = names.local_of(site) {
            self.locals.insert(local, (ty.clone(), mutable));
            let n: usize = self.scopes.len();
            if n > 0 {
                let ghost before = self.scopes.deep_view();
                let mut innermost: Vec<LocalId> = self.scopes[n - 1].dup();
                put(&mut innermost, local);
                self.scopes.set(n - 1, innermost);
                proof {
                    assert(self.scopes.deep_view() =~= before.update(n - 1, before.last().push(local)));
                }
            }
            self.moved.remove(&local);
        }
        self.local_types.insert(site, ty);
    }

    pub fn push_local_scope(&mut self)
        ensures
            final(self)@ == old(self)@.opened(),
    {
        let empty: Vec<LocalId> = Vec::new();
        proof {
            assert(empty.deep_view() =~= Seq::<LocalId>::empty());
        }
        put(&mut self.scopes, empty);
    }

    fn release_reference_local(&mut self, local: LocalId)
        ensures
            final(self)@ == old(self)@.reference_released(local),
    {
        let found = match self.borrow_origins.get(&local) {
            Some(b) => Some((b.0, b.1)),
            None => None,
        };
        if let Some((origin, mutable)) = found {
            self.borrow_origins.remove(&local);
            let state = match self.borrows.get(&origin) {
                Some(b) => Some((b.0, b.1)),
                None => None,
            };
            if let Some((shared, exclusive)) = state {
                let shared1: usize = if mutable { shared } else { decrement(shared, 1) };
                let exclusive1: Option<Span> = if mutable { None } else { exclusive };
                if shared1 == 0 && exclusive1.is_none() {
                    self.borrows.remove(&origin);
                } else {
                    self.borrows.insert(origin, (shared1, exclusive1));
                }
            }
        }
    }

    fn release_callable_captures(&mut self, callable: LocalId)
        ensures
            final(self)@ == old(self)@.callable_released(callable),
    {
        let captures = match self.callable_uses.get(&callable) {
            Some(c) => c.dup(),
            None => {
                return;
            },
        };
        self.callable_uses.remove(&callable);
        let ghost cs = captures.deep_view();
        let ghost s0 = self@;
        let mut i: usize = 0;
        while i < captures.len()
            invariant
                i <= captures.len(),
                cs == captures.deep_view(),
                self@.captures_released(cs, i as int) == s0.captures_released(cs, 0),
            decreases captures.len() - i,
        {
            let reference = captures[i].0;
            let uses: usize = captures[i].1;
            assert(cs[i as int] == (reference, uses));
            let remaining = match self.remaining.get(&reference) {
                Some(n) => Some(*n),
                None => None,
            };
            if let Some(n) = remaining {
                let n1: usize = decrement(n, uses);
                self.remaining.insert(reference, n1);
                if n1 == 0 {
                    take_out(&mut self.pinned, &reference);
                    self.release_reference_local(reference);
                }
            }
            i += 1;
        }
    }

    pub fn pop_local_scope(&mut self)
        ensures
            final(self)@ == old(self)@.closed(),
    {
        proof {
            reveal(St::closed);
        }
        let ghost before = self.scopes.deep_view();
        let locals = match self.scopes.pop() {
            Some(locals) => locals,
            None => {
                return;
            },
        };
        proof {
            assert(self.scopes.deep_view() =~= before.drop_last());
            assert(before.last() == locals.deep_view());
        }
        let ghost ls = locals.deep_view();
        let ghost s0 = self@;
        let mut n: usize = locals.len();
        while n > 0
            invariant
                n <= locals.len(),
                ls == locals.deep_view(),
                self@.locals_closed(ls, n as int) == s0.locals_closed(ls, ls.len() as int),
            decreases n,
        {
            let local = locals[n - 1];
            assert(ls[n - 1] == local);
            self.reference_origins.remove(&local);
            self.callable_origins.remove(&local);
            self.release_callable_captures(local);
            self.release_reference_local(local);
            n -= 1;
        }
    }

    pub fn register_stored_borrow(&mut self, names: &ResolvedNames, site: NodeId, origin: LocalId, mutable: bool, span: Span)
        ensures
            final(self)@ == old(self)@.borrowed(*names, site, origin, mutable, span),
    {
        proof {
            reveal(St::borrowed);
        }
        if let Some(reference) = names.local_of(site) {
            let (shared, exclusive) = match self.borrows.get(&origin) {
                Some(b) => (b.0, b.1),
                None => (0, None),
            };
            if mutable {
                self.borrows.insert(origin, (shared, Some(span)));
            } else {
                self.borrows.insert(origin, (increment(shared), exclusive));
            }
            self.borrow_origins.insert(reference, (origin, mutable));
            self.reference_origins.insert(reference, BorrowOrigin::Local(origin));
        }
    }

    /// Checks a use of an owned local, which consumes it or not.
    pub fn check_move(&mut self, local: LocalId, ty: &Type, span: Span, consumes: bool)
        ensures
            final(self)@ == old(self)@.used(local, ty@, span, consumes),
    {
        proof {
            reveal(St::used);
        }
        if !matches!(ty, Type::Unique(_)) {
            return;
        }
        let state = match self.borrows.get(&local) {
            Some(b) => Some(b.1),
            None => None,
        };
        if let Some(exclusive) = state {
            if consumes {
                self.err(span, "cannot move a value while it is borrowed");
                return;
            }
            if exclusive.is_some() {
                self.err(span, "cannot access a value directly while it is mutably borrowed");
                return;
            }
        }
        let prior = match self.moved.get(&local) {
            Some(p) => Some(*p),
            None => None,
        };
        if let Some(prior) = prior {
            if !self.silent {
                report2(
                    &mut self.diagnostics,
                    "use of a value after it was moved",
                    prior,
                    "value moved here",
                    span,
                    "used again here, after the move",
                );
            }
            return;
        }
        if consumes {
            self.moved.insert(local, span);
        }
    }

    fn is_deferred(&self, local: LocalId) -> (r: bool)
        ensures
            r == self@.is_deferred(local),
    {
        let ghost all = self@.deferred;
        let mut i: usize = 0;
        while i < self.deferred.len()
            invariant
                i <= self.deferred.len(),
                all == self@.deferred,
                forall|j: int| #![trigger all[j]] 0 <= j < i ==> !all[j].contains(local),
            decreases self.deferred.len() - i,
        {
            assert(all[i as int] == self.deferred@[i as int].deep_view());
            if occurs(&self.deferred[i], &local) {
                return true;
            }
            i += 1;
        }
        false
    }

    /// Notes that one of a local's uses has gone by.
    pub fn note_local_use(&mut self, local: LocalId)
        ensures
            final(self)@ == old(self)@.noted(local),
    {
        proof {
            reveal(St::noted);
        }
        if self.silent || self.is_deferred(local) {
            return;
        }
        let remaining = match self.remaining.get(&local) {
            Some(n) => *n,
            None => {
                return;
            },
        };
        let n1: usize = decrement(remaining, 1);
        self.remaining.insert(local, n1);
        if n1 != 0 {
            return;
        }
        if self.callable_uses.contains(&local) {
            add_new(&mut self.pending_callables, local);
        }
        if !occurs(&self.pinned, &local) {
            add_new(&mut self.pending_references, local);
        }
    }

    /// Releases what has seen its last use.
    pub fn flush_nll_releases(&mut self)
        ensures
            final(self)@ == old(self)@.flushed(),
    {
        proof {
            reveal(St::flushed);
        }
        let mut callables: Vec<LocalId> = Vec::new();
        proof {
            assert(callables.deep_view() =~= Seq::<LocalId>::empty());
        }
        std::mem::swap(&mut callables, &mut self.pending_callables);
        let ghost cs = callables.deep_view();
        let ghost s0 = self@;
        let mut i: usize = 0;
        while i < callables.len()
            invariant
                i <= callables.len(),
                cs == callables.deep_view(),
                self@.callables_released(cs, i as int) == s0.callables_released(cs, 0),
            decreases callables.len() - i,
        {
            assert(cs[i as int] == callables@[i as int]);
            self.release_callable_captures(callables[i]);
            i += 1;
        }
        let mut references: Vec<LocalId> = Vec::new();
        proof {
            assert(references.deep_view() =~= Seq::<LocalId>::empty());
        }
        std::mem::swap(&mut references, &mut self.pending_references);
        let ghost rs = references.deep_view();
        let ghost s1 = self@;
        let mut j: usize = 0;
        while j < references.len()
            invariant
                j <= references.len(),
                rs == references.deep_view(),
                self@.references_released(rs, j as int) == s1.references_released(rs, 0),
            decreases references.len() - j,
        {
            assert(rs[j as int] == references@[j as int]);
            self.release_reference_local(references[j]);
            j += 1;
        }
    }

    /// The results.
    pub fn finish(self) -> (r: (
        Table<NodeId, Type>,
        Table<NodeId, Type>,
        Table<NodeId, Vec<Type>>,
        Table<NodeId, Type>,
        Vec<Diagnostic>,
    ))
        ensures
            r.0@ == self@.expr_types,
            r.1@ == self@.local_types,
            r.2@ == self@.call_generic_args,
            r.3@ == self@.coercions,
            r.4.deep_view() == self@.diags,
    {
        (self.expr_types, self.local_types, self.call_generic_args, self.coercions, self.diagnostics)
    }

    /// Continues after other reports.
    pub fn with_reports(diagnostics: Vec<Diagnostic>) -> (r: Self)
        ensures
            r@ == St::fresh(diagnostics.deep_view(), Map::empty(), Map::empty(), Map::empty(), Map::empty()),
    {
        let mut r = Checker::new();
        r.diagnostics = diagnostics;
        r
    }
}

} // verus!
