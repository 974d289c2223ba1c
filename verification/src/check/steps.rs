//! The steps of single constructs, once their parts are checked.
use crate::ast::{BinaryOp, Block, Expr, LetStmt, MatchArm, Param, Path, TypeExpr, UnaryOp};
use crate::check::borrows::{conflicts, referent_of};
use crate::check::facts::arg_count_text;
use crate::check::rules::{
    all_merged, args_counted, arms_retyped, assigned_fields, assigned_through, binary, branch_type, call_allowed,
    call_bounds_checked, call_result, callable_bound, choices_checked, choices_recorded, chosen_types, closure_bound,
    closure_done, closure_expected, closure_origin, closure_origins_of, closure_params, converted, deref_allowed,
    element, exhaustive, explicit_args, explicit_chosen, fixed_params, inferred_origin, let_bound, local_read,
    mut_disagrees, open_params, origin_bound, packed, param_of, path_fields, pointee, reference_param, settled,
    stored_owned, tail_retyped, ty_bool, ty_numeric, unary, uncovered, unknown_enum, unpinned, variadic,
    writable_pointee,
};
use crate::check::state::{BorrowOrigin, Checker, ClosureOrigin, Cx};
use crate::datum::{lemma_deep_len, occurs, put, Datum, Dup};
use crate::declarations::is_integer_type;
use crate::describe::{describe_bound, shown};
use crate::ids::{DefId, LocalId, NodeId, Span, Symbol};
use crate::names::ResolvedNames;
use crate::owners::bounded_names;
use crate::representation::is_heap;
use crate::rules::substitute_bound;
use crate::sig::{FnSig, GenericBound};
use crate::subst::{contextualize_unknowns, prefer_concrete_type, zip_types};
use crate::table::Table;
use crate::text::{cat2, cat3, cat4, cat5, cat7, count, join_all};
use crate::ty::{dup_types, group_tys, tys, PrimitiveKind, Ty, Type};
use vstd::prelude::*;

verus! {

broadcast use group_tys, lemma_deep_len;

/// `bool`
pub fn bool_type() -> (r: Type)
    ensures
        r@ == ty_bool(),
{
    Type::Primitive(PrimitiveKind::Bool)
}

fn is_numeric_type(ty: &Type) -> (r: bool)
    ensures
        r == ty_numeric(ty@),
{
    match ty {
        Type::Primitive(p) => p.is_numeric(),
        _ => false,
    }
}

/// What a call of a function yields.
pub fn call_result_type(sig: &FnSig, output: Type) -> (r: Type)
    ensures
        r@ == call_result(sig.deep_view(), output@),
{
    if sig.is_async {
        Type::task(output)
    } else {
        output
    }
}

impl Checker {
    fn pack(&mut self, cx: &Cx<'_>, id: NodeId, span: Span, t: Type, want: &Type, trait_id: DefId, args: &Vec<Type>) -> (r: Type)
        ensures
            (final(self)@, r@) == packed(
                cx@,
                old(self)@,
                id,
                span,
                t@,
                want@,
                trait_id,
                args.deep_view(),
            ),
    {
        proof {
            reveal(packed);
        }
        if t.same(want) {
            return t;
        }
        let bound = GenericBound { trait_id, args: dup_types(args) };
        if self.type_satisfies_bound(cx, &t, &bound) {
            if matches!(want, Type::Opaque(_, _)) {
                let clash = match self.opaque_witness() {
                    Some(existing) => if existing.same(&t) {
                        None
                    } else {
                        let a = cx.describe(&t);
                        let b = cx.describe(existing);
                        Some(
                            cat5(
                                "all returns of an opaque `some` type must use one concrete type; found `",
                                a.as_str(),
                                "` after `",
                                b.as_str(),
                                "`",
                            ),
                        )
                    },
                    None => None,
                };
                if self.opaque_witness().is_none() {
                    self.set_witness(t.clone());
                }
                if let Some(message) = clash {
                    self.err(span, message.as_str());
                }
            }
            self.set_coercion(id, t);
            return want.clone();
        }
        if t.is_error() {
            return t;
        }
        let a = cx.describe(&t);
        let b = describe_bound(&bound, &cx.scope.names.definitions);
        let message = cat5("`", a.as_str(), "` does not implement `", b.as_str(), "`");
        self.err(span, message.as_str());
        Type::Error
    }

    /// Settles an expression's type against what is expected.
    pub fn settle(&mut self, cx: &Cx<'_>, id: NodeId, span: Span, t: Type, expected: Option<&Type>) -> (r: Type)
        ensures
            (final(self)@, r@) == settled(cx@, old(self)@, id, span, t@, expected.deep_view()),
    {
        proof {
            reveal(settled);
        }
        let t0 = cx.sigs.normalize_associated(&t);
        match expected {
            None => {
                self.validate_type_bounds(cx, &t0, span);
                self.set_type(id, t0.clone());
                t0
            },
            Some(w) => {
                let want = cx.sigs.normalize_associated(w);
                let t1 = match &want {
                    Type::Any(trait_id, args) => self.pack(cx, id, span, t0, &want, *trait_id, args),
                    Type::Opaque(trait_id, args) => self.pack(cx, id, span, t0, &want, *trait_id, args),
                    _ => t0,
                };
                let t2 = contextualize_unknowns(&t1, &want);
                self.validate_type_bounds(cx, &t2, span);
                self.set_type(id, t2.clone());
                t2
            },
        }
    }

    /// Lowers explicit generic arguments.
    pub fn lower_call_generic_args(&mut self, cx: &Cx<'_>, ts: &Vec<TypeExpr>) -> (r: Vec<Type>)
        ensures
            (final(self)@, r.deep_view()) == explicit_args(cx@, old(self)@, ts@, 0, Seq::empty()),
    {
        let mut out: Vec<Type> = Vec::new();
        proof {
            assert(out.deep_view() =~= Seq::empty());
        }
        let mut i: usize = 0;
        while i < ts.len()
            invariant
                i <= ts.len(),
                explicit_args(cx@, self@, ts@, i as int, out.deep_view()) == explicit_args(
                    cx@,
                    old(self)@,
                    ts@,
                    0,
                    Seq::empty(),
                ),
            decreases ts.len() - i,
        {
            let t = self.lower(cx, &ts[i]);
            self.validate_type_bounds(cx, &t, ts[i].span());
            put(&mut out, t);
            i += 1;
        }
        out
    }

    pub fn apply_unary(&mut self, op: UnaryOp, t: Type, span: Span) -> (r: Type)
        ensures
            (final(self)@, r@) == unary(old(self)@, op, t@, span),
    {
        proof {
            reveal(unary);
        }
        match op {
            UnaryOp::Neg => {
                if !is_numeric_type(&t) && !t.is_error() {
                    self.err(span, "`-` requires a numeric operand");
                    return Type::Error;
                }
                t
            },
            UnaryOp::Not => {
                self.require_bool(&t, span, "`!` operand");
                bool_type()
            },
        }
    }

    pub fn apply_binary(&mut self, cx: &Cx<'_>, op: BinaryOp, a: Type, left: Span, b: &Type, right: Span) -> (r: Type)
        ensures
            (final(self)@, r@) == binary(cx@, old(self)@, op, a@, left, b@, right),
    {
        proof {
            reveal(binary);
        }
        match op {
            BinaryOp::Add | BinaryOp::Sub | BinaryOp::Mul | BinaryOp::Div | BinaryOp::Rem => {
                if !is_numeric_type(&a) && !a.is_error() {
                    self.err(left, "arithmetic operators require numeric operands");
                    return Type::Error;
                }
                if !a.compatible(b) {
                    self.err(right, "both operands of an arithmetic operator must have the same type");
                    return Type::Error;
                }
                a
            },
            BinaryOp::Eq | BinaryOp::Ne => {
                if !a.compatible(b) {
                    self.err(right, "both operands of `==`/`!=` must have the same type");
                } else if cx.sigs.declares_eq(&a, &cx.scope.names.definitions) && !cx.sigs.can_derive_eq(
                    &a,
                    &cx.scope.names.definitions,
                ) {
                    self.err(
                        left,
                        "cannot derive `Eq` for this type — every field must be primitive or another finite `Eq` struct",
                    );
                }
                bool_type()
            },
            BinaryOp::Lt | BinaryOp::Le | BinaryOp::Gt | BinaryOp::Ge => {
                if !is_numeric_type(&a) && !a.is_error() {
                    self.err(left, "comparison operators require numeric operands");
                } else if !a.compatible(b) {
                    self.err(right, "both operands of a comparison must have the same type");
                }
                bool_type()
            },
            BinaryOp::And | BinaryOp::Or => {
                self.require_bool(&a, left, "`&&`/`||` operand");
                self.require_bool(b, right, "`&&`/`||` operand");
                bool_type()
            },
        }
    }

    fn not_a_pointer(&mut self, cx: &Cx<'_>, t: &Type, span: Span)
        ensures
            final(self)@ == old(self)@.fail(
                span,
                "cannot dereference `"@ + shown(t@, cx@.sc.defs()) + "`; expected a raw pointer"@,
            ),
    {
        let found = cx.describe(t);
        let message = cat3("cannot dereference `", found.as_str(), "`; expected a raw pointer");
        self.err(span, message.as_str());
    }

    pub fn read_pointee(&mut self, cx: &Cx<'_>, t: &Type, span: Span) -> (r: Type)
        ensures
            (final(self)@, r@) == pointee(cx@, old(self)@, t@, span),
    {
        proof {
            reveal(pointee);
        }
        match t {
            Type::RawConstPtr(inner) => (**inner).clone(),
            Type::RawMutPtr(inner) => (**inner).clone(),
            Type::Error => Type::Error,
            _ => {
                self.not_a_pointer(cx, t, span);
                Type::Error
            },
        }
    }

    pub fn write_pointee(&mut self, cx: &Cx<'_>, t: &Type, target: Span, span: Span) -> (r: Type)
        ensures
            (final(self)@, r@) == writable_pointee(cx@, old(self)@, t@, target, span),
    {
        proof {
            reveal(writable_pointee);
        }
        match t {
            Type::RawMutPtr(inner) => (**inner).clone(),
            Type::RawConstPtr(_) => {
                self.err(target, "cannot assign through a `*const` pointer — expected `*mut`");
                Type::Error
            },
            Type::Error => Type::Error,
            _ => {
                self.not_a_pointer(cx, t, span);
                Type::Error
            },
        }
    }

    pub fn check_deref_allowed(&mut self, span: Span)
        ensures
            final(self)@ == deref_allowed(old(self)@, span),
    {
        proof {
            reveal(deref_allowed);
        }
        if !self.is_unsafe() {
            self.err(
                span,
                "dereferencing a raw pointer is only allowed inside an `unsafe` block or function",
            );
        }
    }

    /// Checks that an unsafe or foreign function may be called here.
    pub fn check_unsafe_call_permission(&mut self, sig: &FnSig, span: Span)
        ensures
            final(self)@ == call_allowed(old(self)@, sig.deep_view(), span),
    {
        proof {
            reveal(call_allowed);
        }
        if (sig.is_unsafe || sig.is_foreign) && !self.is_unsafe() {
            let what = if sig.is_foreign {
                "an `extern` function"
            } else {
                "an `unsafe fn`"
            };
            let message = cat3("calling ", what, " is only allowed inside an `unsafe` block or function");
            self.err(span, message.as_str());
        }
    }

    pub fn read_element(&mut self, cx: &Cx<'_>, base: &Type, base_span: Span, index: &Type, index_span: Span) -> (r: Type)
        ensures
            (final(self)@, r@) == element(cx@, old(self)@, base@, base_span, index@, index_span),
    {
        proof {
            reveal(element);
        }
        if !is_integer_type(index) && !index.is_error() {
            self.err(index_span, "array index must be an integer type");
        }
        match base {
            Type::Array(inner) => (**inner).clone(),
            Type::Error => Type::Error,
            _ => {
                let described = cx.describe(base);
                let message = cat3("`", described.as_str(), "` cannot be indexed");
                self.err(base_span, message.as_str());
                Type::Error
            },
        }
    }

    /// Reads a path's fields from the `from`-th segment up to the `to`-th.
    pub fn read_path_fields(&mut self, cx: &Cx<'_>, path: &Path, from: usize, to: usize, t: Type) -> (r: Type)
        ensures
            (final(self)@, r@) == path_fields(cx@, old(self)@, *path, from as int, to as int, t@),
    {
        let mut t = t;
        let ghost t0 = t@;
        let mut i: usize = from;
        while i < to && i < path.segments.len()
            invariant
                from <= i,
                path_fields(cx@, self@, *path, i as int, to as int, t@) == path_fields(
                    cx@,
                    old(self)@,
                    *path,
                    from as int,
                    to as int,
                    t0,
                ),
            decreases path.segments.len() - i,
        {
            t = self.check_field_access_named(cx, &t, &path.segments[i]);
            i += 1;
        }
        t
    }

    pub fn assigned_field_type(&mut self, cx: &Cx<'_>, path: &Path, from: usize, t: Type) -> (r: Type)
        ensures
            (final(self)@, r@) == assigned_fields(cx@, old(self)@, *path, from as int, t@),
    {
        proof {
            reveal(assigned_fields);
        }
        let total: usize = path.segments.len();
        if from < total {
            let t1 = self.read_path_fields(cx, path, from, total - 1, t);
            self.field_type_named(cx, &t1, &path.segments[total - 1])
        } else {
            t
        }
    }
}

impl<'a> Cx<'a> {
    pub fn local_reads_as(&self, t: Type, whole: bool, expected: Option<&Type>) -> (r: Type)
        ensures
            r@ == local_read(self@, t@, whole, expected.deep_view()),
    {
        proof {
            reveal(local_read);
        }
        let wants_ref = match expected {
            Some(w) => w.is_reference(),
            None => false,
        };
        if t.is_reference() && whole && !wants_ref && !is_heap(referent_of(&t), &self.scope.names.definitions) {
            return referent_of(&t).clone();
        }
        self.upgrade_weak(t)
    }

    pub fn assigned_inline(&self, t: Type) -> (r: Type)
        ensures
            r@ == assigned_through(self@, t@),
    {
        proof {
            reveal(assigned_through);
        }
        if let Type::MutRef(inner) = &t {
            if !is_heap(inner, &self.scope.names.definitions) {
                return (**inner).clone();
            }
        }
        t
    }
}

// ---------------------------------------------------------------------
// Calls
// ---------------------------------------------------------------------

/// The types chosen for generic parameters.
pub fn chosen(names: &Vec<Symbol>, m: &Table<Symbol, Type>) -> (r: Vec<Type>)
    ensures
        r.deep_view() == chosen_types(names.deep_view(), m@),
        tys(r@) == chosen_types(names.deep_view(), m@),
{
    let mut out: Vec<Type> = Vec::new();
    let mut i: usize = 0;
    while i < names.len()
        invariant
            i <= names.len(),
            out.len() == i,
            forall|j: int|
                0 <= j < i ==> crate::ty::ty_view(#[trigger] out@[j]) == chosen_types(names.deep_view(), m@)[j],
        decreases names.len() - i,
    {
        let t = match m.get(&names[i]) {
            Some(t) => t.clone(),
            None => Type::Error,
        };
        assert(t@ == chosen_types(names.deep_view(), m@)[i as int]);
        out.push(t);
        i += 1;
    }
    proof {
        assert(tys(out@) =~= chosen_types(names.deep_view(), m@));
    }
    out
}

fn still_open(generics: &Vec<(Symbol, Vec<GenericBound>)>, m: &Table<Symbol, Type>) -> (r: Vec<Symbol>)
    ensures
        r.deep_view() == open_params(generics.deep_view(), m@, 0, Seq::empty()),
        r.len() == r.deep_view().len(),
{
    let hidden = crate::sig::variadic_len_param();
    let mut out: Vec<Symbol> = Vec::new();
    proof {
        assert(out.deep_view() =~= Seq::empty());
    }
    let ghost gs = generics.deep_view();
    let mut i: usize = 0;
    while i < generics.len()
        invariant
            i <= generics.len(),
            gs == generics.deep_view(),
            hidden@ == "$variadic_len"@,
            open_params(gs, m@, i as int, out.deep_view()) == open_params(gs, m@, 0, Seq::empty()),
        decreases generics.len() - i,
    {
        assert(gs[i as int].0 == generics@[i as int].0@);
        if generics[i].0 != hidden && !m.contains(&generics[i].0) {
            put(&mut out, generics[i].0.clone());
        }
        i += 1;
    }
    out
}

/// Whether the last parameter collects the rest of the arguments.
pub fn is_variadic(sig: &FnSig) -> (r: bool)
    ensures
        r == variadic(sig.deep_view()),
{
    let n: usize = sig.params.len();
    if n > 0 {
        assert(sig.deep_view().params[n - 1] == sig.params@[n - 1].deep_view());
        sig.params[n - 1].variadic
    } else {
        false
    }
}

/// The number of parameters that take one argument each.
pub fn fixed_count(sig: &FnSig) -> (r: usize)
    ensures
        r == fixed_params(sig.deep_view()),
        r <= sig.params.len(),
{
    if is_variadic(sig) {
        sig.params.len() - 1
    } else {
        sig.params.len()
    }
}

/// The error for `mut` at a call site that disagrees with the parameter.
pub fn mut_disagreement(name: &Symbol, mutable: bool) -> (r: String)
    ensures
        r@ == mut_disagrees(name@, mutable),
{
    if mutable {
        cat3(
            "parameter `",
            name.as_str(),
            "` is `mut`; the caller must also write `mut` at the call site",
        )
    } else {
        "`mut` is only valid for arguments passed to a `mut` parameter".to_owned()
    }
}

impl Checker {
    fn check_call_bounds(&mut self, cx: &Cx<'_>, name: &Symbol, t: &Type, bs: &Vec<GenericBound>, m: &Table<Symbol, Type>, span: Span)
        ensures
            final(self)@ == call_bounds_checked(cx@, old(self)@, name@, t@, bs.deep_view(), m@, 0, span),
    {
        let ghost all = bs.deep_view();
        let mut i: usize = 0;
        while i < bs.len()
            invariant
                i <= bs.len(),
                all == bs.deep_view(),
                call_bounds_checked(cx@, self@, name@, t@, all, m@, i as int, span) == call_bounds_checked(
                    cx@,
                    old(self)@,
                    name@,
                    t@,
                    all,
                    m@,
                    0,
                    span,
                ),
            decreases bs.len() - i,
        {
            assert(all[i as int] == bs@[i as int].deep_view());
            let b = substitute_bound(&bs[i], m);
            if !self.type_satisfies_bound(cx, t, &b) {
                let actual = cx.describe(t);
                let bound = describe_bound(&b, &cx.scope.names.definitions);
                let message = cat7(
                    "`",
                    actual.as_str(),
                    "` does not implement `",
                    bound.as_str(),
                    "`, required by generic parameter `",
                    name.as_str(),
                    "`",
                );
                self.err(span, message.as_str());
            }
            i += 1;
        }
    }

    pub fn check_choices(&mut self, cx: &Cx<'_>, sig: &FnSig, m: &Table<Symbol, Type>, span: Span)
        ensures
            final(self)@ == choices_checked(cx@, old(self)@, sig.deep_view(), m@, 0, span),
    {
        let ghost s = sig.deep_view();
        let mut i: usize = 0;
        while i < sig.generics.len()
            invariant
                i <= sig.generics.len(),
                s == sig.deep_view(),
                choices_checked(cx@, self@, s, m@, i as int, span) == choices_checked(
                    cx@,
                    old(self)@,
                    s,
                    m@,
                    0,
                    span,
                ),
            decreases sig.generics.len() - i,
        {
            let entry = &sig.generics[i];
            assert(s.generics[i as int] == entry.deep_view());
            match m.get(&entry.0) {
                None => {
                    let message = cat3(
                        "cannot infer generic parameter `",
                        entry.0.as_str(),
                        "` from this call's arguments",
                    );
                    self.err(span, message.as_str());
                },
                Some(t) => {
                    let is_const = sig.const_params.contains(&entry.0);
                    self.check_const_arg(is_const, &entry.0, t, span);
                    self.check_call_bounds(cx, &entry.0, t, &entry.1, m, span);
                },
            }
            i += 1;
        }
    }

    pub fn record_choices(&mut self, id: Option<NodeId>, sig: &FnSig, m: &Table<Symbol, Type>)
        ensures
            final(self)@ == choices_recorded(old(self)@, id, sig.deep_view(), m@),
    {
        proof {
            reveal(choices_recorded);
        }
        if let Some(call) = id {
            if sig.generics.len() > 0 {
                let names = bounded_names(&sig.generics, sig.generics.len());
                proof {
                    assert(sig.generics.deep_view().take(sig.generics.len() as int) =~= sig.generics.deep_view());
                }
                let types = chosen(&names, m);
                self.set_call_args(call, types);
            }
        }
    }

    pub fn check_arg_count(&mut self, sig: &FnSig, n: usize, span: Span)
        ensures
            final(self)@ == args_counted(old(self)@, sig.deep_view(), n as nat, span),
    {
        proof {
            reveal(args_counted);
        }
        if is_variadic(sig) {
            let fixed: usize = fixed_count(sig);
            if n < fixed {
                let a = count(fixed);
                let b = count(n);
                let message = cat4("expected at least ", a.as_str(), " argument(s), found ", b.as_str());
                self.err(span, message.as_str());
            }
        } else if n != sig.params.len() {
            let message = arg_count_text(sig.params.len(), n);
            self.err(span, message.as_str());
        }
    }

    pub fn take_explicit_args(&mut self, sig: &FnSig, m: &mut Table<Symbol, Type>, args: &Vec<Type>, span: Span)
        ensures
            (final(self)@, final(m)@) == explicit_chosen(
                old(self)@,
                sig.deep_view(),
                old(m)@,
                args.deep_view(),
                span,
            ),
    {
        proof {
            reveal(explicit_chosen);
        }
        if args.len() == 0 {
            return;
        }
        let names = still_open(&sig.generics, m);
        if args.len() != names.len() {
            let a = count(names.len());
            let b = count(args.len());
            let message = cat4("expected ", a.as_str(), " explicit generic argument(s), found ", b.as_str());
            self.err(span, message.as_str());
        }
        let mut more = zip_types(&names, args);
        more.absorb(m);
        std::mem::swap(m, &mut more);
    }

    /// Checks a conversion between the owned and the plain form of a type.
    pub fn check_converted(&mut self, cx: &Cx<'_>, arg: &Type, target: &Type, span: Span)
        ensures
            final(self)@ == converted(cx@, old(self)@, arg@, target@, span),
    {
        proof {
            reveal(converted);
        }
        match (arg, target) {
            (Type::Unique(_), Type::Unique(_)) => {
                self.wrong_conversion(span);
            },
            (Type::Unique(inner), _) => {
                if !inner.compatible(target) {
                    let message = cx.mismatch_text(target, inner);
                    self.err(span, message.as_str());
                }
            },
            (_, Type::Unique(inner)) => self.check_clone(cx, arg, inner, span),
            _ => {
                if !arg.is_error() && !target.is_error() {
                    self.wrong_conversion(span);
                }
            },
        }
    }

    fn wrong_conversion(&mut self, span: Span)
        ensures
            final(self)@ == old(self)@.fail(
                span,
                "`to(value)` must convert between the owned and ordinary form of the same type — one side must be `:T`/`:t` and the other its plain counterpart"@,
            ),
    {
        self.err(
            span,
            "`to(value)` must convert between the owned and ordinary form of the same type — one side must be `:T`/`:t` and the other its plain counterpart",
        );
    }

    fn check_clone(&mut self, cx: &Cx<'_>, arg: &Type, inner: &Type, span: Span)
        requires
            !(arg@ is Unique),
        ensures
            final(self)@ == converted(cx@, old(self)@, arg@, Ty::Unique(Box::new(inner@)), span),
    {
        proof {
            reveal(converted);
        }
        if !arg.compatible(inner) {
            let message = cx.mismatch_text(inner, arg);
            self.err(span, message.as_str());
        } else if is_heap(arg, &cx.scope.names.definitions) && !cx.sigs.can_clone_to_unique(
            arg,
            &cx.scope.names.definitions,
        ) {
            let name = cx.describe(arg);
            if cx.sigs.has_user_clone_candidate(arg) {
                let message = cat5(
                    "invalid `clone` override for `",
                    name.as_str(),
                    "` — expected `clone(: &self): ",
                    name.as_str(),
                    "` with no additional parameters or generics",
                );
                self.err(span, message.as_str());
            } else {
                let message = cat3(
                    "`to()` cannot clone `",
                    name.as_str(),
                    "` into its owned form — this requires `Clone`: every structurally cloned heap type, including unique fields, must implement `Clone` and the clone graph must be finite",
                );
                self.err(span, message.as_str());
            }
        }
    }
}

// ---------------------------------------------------------------------
// Branches
// ---------------------------------------------------------------------

/// The type of two branches.
pub fn join_branches(a: Type, b: Type) -> (r: Type)
    ensures
        r@ == branch_type(a@, b@),
{
    if a.is_never() {
        b
    } else {
        prefer_concrete_type(a, b)
    }
}

fn has_unknown_args(t: &Type) -> (r: bool)
    ensures
        r == unknown_enum(t@),
{
    match t {
        Type::Enum(_, args) => {
            let ghost ts = args.deep_view();
            let mut i: usize = 0;
            while i < args.len()
                invariant
                    i <= args.len(),
                    ts == args.deep_view(),
                    t@ is Enum,
                    t@->Enum_1 == ts,
                    forall|j: int| #![trigger ts[j]] 0 <= j < i ==> !(ts[j] is Error),
                decreases args.len() - i,
            {
                assert(ts[i as int] == args@[i as int]@);
                if args[i].is_error() {
                    return true;
                }
                i += 1;
            }
            false
        },
        _ => false,
    }
}

impl Checker {
    pub fn retype_tail(&mut self, b: &Block, result: &Type)
        ensures
            final(self)@ == tail_retyped(old(self)@, *b, result@),
    {
        proof {
            reveal(tail_retyped);
        }
        if let Some(tail) = &b.tail {
            let open = match self.type_at(tail.id) {
                Some(t) => t.compatible(result) && t.contains_error(),
                None => false,
            };
            if open {
                self.set_type(tail.id, result.clone());
            }
        }
    }

    pub fn retype_arms(&mut self, arms: &Vec<MatchArm>, result: &Type)
        ensures
            final(self)@ == arms_retyped(old(self)@, arms@, 0, result@),
    {
        let mut i: usize = 0;
        while i < arms.len()
            invariant
                i <= arms.len(),
                arms_retyped(self@, arms@, i as int, result@) == arms_retyped(old(self)@, arms@, 0, result@),
            decreases arms.len() - i,
        {
            let open = match self.type_at(arms[i].body.id) {
                Some(t) => t.compatible(result) && has_unknown_args(t),
                None => false,
            };
            if open {
                self.set_type(arms[i].body.id, result.clone());
            }
            i += 1;
        }
    }

    pub fn merge_branches(&mut self, moves: &Vec<(bool, Table<LocalId, Span>)>)
        ensures
            final(self)@ == all_merged(old(self)@, moves.deep_view(), 0),
    {
        let ghost ms = moves.deep_view();
        let mut i: usize = 0;
        while i < moves.len()
            invariant
                i <= moves.len(),
                ms == moves.deep_view(),
                all_merged(self@, ms, i as int) == all_merged(old(self)@, ms, 0),
            decreases moves.len() - i,
        {
            assert(ms[i as int] == moves@[i as int].deep_view());
            self.merge_branch(moves[i].0, &moves[i].1);
            i += 1;
        }
    }

    pub fn check_exhaustive(&mut self, cx: &Cx<'_>, t: &Type, covered: &Vec<u32>, catch_all: bool, span: Span)
        ensures
            final(self)@ == exhaustive(cx@, old(self)@, t@, covered.deep_view(), catch_all, span),
    {
        proof {
            reveal(exhaustive);
        }
        if let Type::Enum(id, _) = t {
            if let Some(sig) = cx.sigs.enum_sigs.get(id) {
                let mut missing: Vec<String> = Vec::new();
                proof {
                    assert(missing.deep_view() =~= Seq::<Seq<char>>::empty());
                }
                let ghost vs = sig.deep_view().variants;
                let ghost cv = covered.deep_view();
                let mut i: usize = 0;
                while i < sig.variants.len()
                    invariant
                        i <= sig.variants.len(),
                        vs == sig.variants.deep_view(),
                        cv == covered.deep_view(),
                        uncovered(vs, cv, i as int, missing.deep_view()) == uncovered(vs, cv, 0, Seq::empty()),
                    decreases sig.variants.len() - i,
                {
                    assert(vs[i as int].0 == sig.variants@[i as int].0@);
                    let seen = if i <= 0xffff_ffff {
                        let v: u32 = i as u32;
                        occurs(covered, &v)
                    } else {
                        false
                    };
                    if !seen {
                        put(&mut missing, sig.variants[i].0.clone());
                    }
                    i += 1;
                }
                if !catch_all && missing.len() > 0 {
                    let names = join_all(&missing, ", ");
                    let message = cat2("match is not exhaustive: missing variant(s) ", names.as_str());
                    self.err(span, message.as_str());
                }
            }
        }
    }
}

// ---------------------------------------------------------------------
// Closures
// ---------------------------------------------------------------------

/// The return type that is expected of a closure.
pub fn expected_of_closure<'b>(expected: Option<&'b Type>, ts: &Vec<Type>) -> (r: Option<&'b Type>)
    ensures
        r.deep_view() == closure_expected(expected.deep_view(), ts.deep_view()),
{
    proof {
        reveal(closure_expected);
    }
    match expected {
        Some(Type::Function(ps, r)) => if crate::ty::all_compatible(ts, ps) {
            Some(&**r)
        } else {
            None
        },
        _ => None,
    }
}

fn closure_param_of(names: &ResolvedNames, ps: &Vec<Param>, local: LocalId) -> (r: Option<usize>)
    ensures
        r == param_of(*names, ps@, local, 0),
{
    let mut i: usize = 0;
    while i < ps.len()
        invariant
            i <= ps.len(),
            param_of(*names, ps@, local, i as int) == param_of(*names, ps@, local, 0),
        decreases ps.len() - i,
    {
        if let Some(l) = names.local_of(ps[i].id) {
            if l == local {
                return Some(i);
            }
        }
        i += 1;
    }
    None
}

impl Checker {
    pub fn lower_closure_params(&mut self, cx: &Cx<'_>, ps: &Vec<Param>) -> (r: Vec<Type>)
        ensures
            (final(self)@, r.deep_view()) == closure_params(cx@, old(self)@, ps@, 0, Seq::empty()),
    {
        let mut out: Vec<Type> = Vec::new();
        proof {
            assert(out.deep_view() =~= Seq::empty());
        }
        let mut i: usize = 0;
        while i < ps.len()
            invariant
                i <= ps.len(),
                closure_params(cx@, self@, ps@, i as int, out.deep_view()) == closure_params(
                    cx@,
                    old(self)@,
                    ps@,
                    0,
                    Seq::empty(),
                ),
            decreases ps.len() - i,
        {
            let t = self.lower(cx, &ps[i].ty);
            put(&mut out, t);
            i += 1;
        }
        out
    }

    /// Notes that a bound parameter is a reference.
    pub fn note_reference_param(&mut self, names: &ResolvedNames, site: NodeId, t: &Type)
        ensures
            final(self)@ == reference_param(old(self)@, *names, site, t@),
    {
        proof {
            reveal(reference_param);
        }
        if let Some(local) = names.local_of(site) {
            if t.is_reference() {
                self.set_reference_origin(local, BorrowOrigin::Parameter(local));
            }
        }
    }

    pub fn bind_closure_params(&mut self, cx: &Cx<'_>, ps: &Vec<Param>, ts: &Vec<Type>)
        ensures
            final(self)@ == closure_bound(cx@, old(self)@, ps@, ts.deep_view(), 0),
    {
        let ghost tv = ts.deep_view();
        let mut i: usize = 0;
        while i < ps.len() && i < ts.len()
            invariant
                i <= ps.len(),
                tv == ts.deep_view(),
                closure_bound(cx@, self@, ps@, tv, i as int) == closure_bound(cx@, old(self)@, ps@, tv, 0),
            decreases ps.len() - i,
        {
            assert(tv[i as int] == ts@[i as int]@);
            self.bind_local(cx.scope.names, ps[i].id, ts[i].clone(), ps[i].mutable);
            self.note_reference_param(cx.scope.names, ps[i].id, &ts[i]);
            i += 1;
        }
    }

    pub fn finish_closure(&mut self, cx: &Cx<'_>, id: NodeId, ps: &Vec<Param>, body: &Expr, ret: &Type)
        ensures
            final(self)@ == closure_done(cx@, old(self)@, id, ps@, *body, ret@),
    {
        proof {
            reveal(closure_done);
        }
        if ret.is_reference() {
            let os = self.reference_origins_of_expr(cx, body);
            let ghost all = os.deep_view();
            let mut out: Vec<ClosureOrigin> = Vec::new();
            let mut i: usize = 0;
            while i < os.len()
                invariant
                    i <= os.len(),
                    all == os.deep_view(),
                    out.len() == i,
                    forall|j: int| 0 <= j < i ==> (#[trigger] out@[j]) == closure_origin(cx@.sc.names, ps@, all[j]),
                decreases os.len() - i,
            {
                let o = os[i];
                assert(all[i as int] == o);
                let c = match o {
                    BorrowOrigin::Parameter(local) => match closure_param_of(cx.scope.names, ps, local) {
                        Some(p) => ClosureOrigin::Parameter(p),
                        None => ClosureOrigin::Captured(o),
                    },
                    BorrowOrigin::Local(_) => ClosureOrigin::Captured(o),
                };
                out.push(c);
                i += 1;
            }
            proof {
                assert(out.deep_view() =~= closure_origins_of(cx@.sc.names, ps@, all));
            }
            self.set_closure_origins(id, out);
        }
    }
}

// ---------------------------------------------------------------------
// Bindings
// ---------------------------------------------------------------------

/// What an initializer borrows.
pub type StoredBorrow = Option<(Type, Option<BorrowOrigin>, bool)>;

impl Checker {
    fn bind_callable(&mut self, local: LocalId, value: NodeId)
        ensures
            final(self)@ == callable_bound(old(self)@, local, value),
    {
        proof {
            reveal(callable_bound);
        }
        let origins = match self.closure_origins_at(value) {
            Some(os) => Some(os.dup()),
            None => None,
        };
        if let Some(os) = origins {
            self.set_callable_origins(local, os);
        }
        let captures = match self.closure_uses_at(value) {
            Some(c) => c.dup(),
            None => {
                return;
            },
        };
        let ghost cs = captures.deep_view();
        let ghost st1 = self@;
        let mut i: usize = 0;
        while i < captures.len()
            invariant
                i <= captures.len(),
                cs == captures.deep_view(),
                unpinned(self@, cs, i as int) == unpinned(st1, cs, 0),
            decreases captures.len() - i,
        {
            assert(cs[i as int].0 == captures@[i as int].0);
            self.unpin(captures[i].0);
            i += 1;
        }
        self.set_callable_uses(local, captures);
        let left: usize = match self.remaining_uses(local) {
            Some(n) => n,
            None => 0,
        };
        if left == 0 {
            self.pend_callable(local);
        }
    }

    fn bind_origin(&mut self, cx: &Cx<'_>, site: NodeId, origin: BorrowOrigin, mutable: bool, span: Span)
        ensures
            final(self)@ == origin_bound(cx@, old(self)@, site, origin, mutable, span),
    {
        proof {
            reveal(origin_bound);
        }
        match origin {
            BorrowOrigin::Local(o) => self.register_stored_borrow(cx.scope.names, site, o, mutable, span),
            BorrowOrigin::Parameter(_) => {
                if let Some(local) = cx.scope.names.local_of(site) {
                    self.set_reference_origin(local, origin);
                }
            },
        }
    }

    pub fn infer_origin(&mut self, cx: &Cx<'_>, value: &Expr) -> (r: Option<BorrowOrigin>)
        ensures
            (final(self)@, r) == inferred_origin(cx@, old(self)@, *value),
    {
        proof {
            reveal(inferred_origin);
        }
        let os = self.reference_origins_of_expr(cx, value);
        if os.len() == 1 {
            assert(os.deep_view()[0] == os@[0]);
            Some(os[0])
        } else {
            self.err(value.span, "cannot infer one unambiguous origin for this stored reference");
            None
        }
    }

    /// Binds what a `let` declares.
    pub fn finish_let(&mut self, cx: &Cx<'_>, l: &LetStmt, declared: Option<Type>, stored: &StoredBorrow, value: Type) -> (r: Type)
        ensures
            (final(self)@, r@) == let_bound(
                cx@,
                old(self)@,
                *l,
                declared.deep_view(),
                stored.deep_view(),
                value@,
            ),
    {
        proof {
            reveal(let_bound);
        }
        let diverges = value.is_never();
        let value_mut = matches!(value, Type::MutRef(_));
        let undeclared = declared.is_none();
        let ty = match declared {
            Some(d) => {
                if !value.compatible(&d) {
                    let message = cx.mismatch_text(&d, &value);
                    self.err(l.value.span, message.as_str());
                }
                d
            },
            None => value,
        };
        if undeclared && !ty.is_error() && ty.contains_error() {
            self.err(
                l.value.span,
                "cannot infer all generic type arguments from this initializer; add a type annotation",
            );
        }
        let inferred = if stored.is_none() && ty.is_reference() {
            self.infer_origin(cx, &l.value)
        } else {
            None
        };
        let mutable = l.mutable || matches!(ty, Type::MutRef(_));
        self.bind_local(cx.scope.names, l.id, ty, mutable);
        if let Some(local) = cx.scope.names.local_of(l.id) {
            self.bind_callable(local, l.value.id);
        }
        let from = match stored {
            Some((_, Some(o), m)) => Some((*o, *m)),
            _ => match inferred {
                Some(o) => Some((o, value_mut)),
                None => None,
            },
        };
        if let Some((o, m)) = from {
            self.bind_origin(cx, l.id, o, m, l.value.span);
        }
        self.flush_nll_releases();
        if diverges {
            Type::Never
        } else {
            Type::unit()
        }
    }

    /// Stores a borrow of an owned local.
    pub fn store_owned(&mut self, cx: &Cx<'_>, value: &Expr, origin: LocalId, owned: &Type, mutable_local: bool, declared: &Type) -> (r: StoredBorrow)
        ensures
            (final(self)@, r.deep_view()) == stored_owned(
                cx@,
                old(self)@,
                *value,
                origin,
                owned@,
                mutable_local,
                declared@,
            ),
    {
        proof {
            reveal(stored_owned);
        }
        let mutable = matches!(declared, Type::MutRef(_));
        match owned {
            Type::Unique(inner) => {
                let want = referent_of(declared);
                if !inner.compatible(want) {
                    let message = cx.mismatch_text(want, inner);
                    self.err(value.span, message.as_str());
                }
                if mutable && !mutable_local {
                    self.err(value.span, "cannot mutably borrow an immutable binding");
                }
                if conflicts(self.borrow_state(origin), mutable) {
                    self.err(value.span, "borrow conflicts with an already-live stored borrow");
                }
                self.check_move(origin, owned, value.span, false);
                self.set_type(value.id, declared.clone());
                Some((declared.clone(), Some(BorrowOrigin::Local(origin)), mutable))
            },
            _ => {
                self.err(value.span, "a stored borrow requires an owned (`:T`) source local");
                self.set_type(value.id, Type::Error);
                Some((Type::Error, None, mutable))
            },
        }
    }
}

} // verus!
