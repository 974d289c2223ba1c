//! What the checker reads off types and places.
use crate::ast::{expr_size, Expr, ExprKind, Ident, Literal, Path};
use crate::check::state::{Checker, Cx, Env, St};
use crate::datum::{lemma_deep_len, Datum, Dup};
use crate::describe::{describe_bound, describe_type, shown, shown_bound};
use crate::ids::{DefId, LocalId, Span, Symbol, Visibility};
use crate::names::{Resolution, ResolvedNames};
use crate::rules::{
    bound_gives, bound_subst, fields_of, implements, named_fields_of, nominal, substitute_bound,
};
use crate::sig::{Bound, GenericBound, ReceiverDomain, TypeSig};
use crate::subst::{zip_subst, zip_types, Subst};
use crate::table::{pair_get, Table};
use crate::text::{cat3, cat5, count, decimal};
use crate::ty::{group_tys, has_error, one_type, prim_float, prim_integer, str_eq, ty_direct, PrimitiveKind, Ty, Type};
use vstd::prelude::*;

verus! {

broadcast use group_tys, lemma_deep_len;

/// "expected `a`, found `b`"
#[verifier::opaque]
pub open spec fn mismatch(e: Env, expected: Ty, found: Ty) -> Seq<char> {
    "expected `"@ + shown(expected, e.sc.defs()) + "`, found `"@ + shown(found, e.sc.defs()) + "`"@
}

/// "expected n argument(s), found m"
#[verifier::opaque]
pub open spec fn arg_count(expected: nat, found: nat) -> Seq<char> {
    "expected "@ + decimal(expected) + " argument(s), found "@ + decimal(found)
}

impl<'a> Cx<'a> {
    /// The printed form of a type.
    pub fn describe(&self, ty: &Type) -> (r: String)
        ensures
            r@ == shown(ty@, self@.sc.defs()),
    {
        describe_type(ty, &self.scope.names.definitions)
    }

    /// "expected `a`, found `b`"
    pub fn mismatch_text(&self, expected: &Type, found: &Type) -> (r: String)
        ensures
            r@ == mismatch(self@, expected@, found@),
    {
        proof {
            reveal(mismatch);
        }
        let a = self.describe(expected);
        let b = self.describe(found);
        cat5("expected `", a.as_str(), "`, found `", b.as_str(), "`")
    }

    /// The printed name of an item.
    pub fn name_of(&self, id: DefId) -> (r: &str)
        ensures
            r@ == self@.sc.name(id),
    {
        self.scope.names.definitions.name(id)
    }
}

/// "expected n argument(s), found m"
pub fn arg_count_text(expected: usize, found: usize) -> (r: String)
    ensures
        r@ == arg_count(expected as nat, found as nat),
{
    proof {
        reveal(arg_count);
    }
    let a = count(expected);
    let b = count(found);
    let mut s = cat3("expected ", a.as_str(), " argument(s), found ");
    s.append(b.as_str());
    s
}

// ---------------------------------------------------------------------
// Bounds
// ---------------------------------------------------------------------

/// Whether a bound is `Into<String>`.
pub open spec fn into_string_bound(e: Env, b: Bound) -> bool {
    e.sc.name(b.trait_id) == "Into"@ && b.args == seq![Ty::String]
}

/// Whether one of the bounds is `Into<String>`.
pub open spec fn some_into_string(e: Env, bs: Seq<Bound>, i: int) -> bool
    decreases bs.len() - i,
{
    0 <= i < bs.len() && (into_string_bound(e, bs[i]) || some_into_string(e, bs, i + 1))
}

/// Whether a declared type implements `Into<String>` with its method.
#[verifier::opaque]
pub open spec fn declares_into_string(e: Env, t: Ty, id: DefId) -> bool {
    match e.sc.defs().found("Into"@) {
        None => false,
        Some(into) => implements(e.sigs, t, Bound { trait_id: into, args: seq![Ty::String] }) && match e.sigs.method_of(
            id,
            "into_string"@,
            ReceiverDomain::Arc,
        ) {
            Some(sig) => sig.self_param is Some && sig.ret == Ty::String,
            None => false,
        },
    }
}

/// Whether a value of type `t` can become a `String`.
#[verifier::opaque]
pub open spec fn into_string(e: Env, st: St, t: Ty) -> bool
    decreases t,
{
    match t {
        Ty::String => true,
        Ty::Primitive(_) => true,
        Ty::Error => true,
        Ty::Unique(inner) => into_string(e, st, *inner),
        Ty::Struct(id, _) => declares_into_string(e, t, id),
        Ty::TupleStruct(id, _) => declares_into_string(e, t, id),
        Ty::Enum(id, _) => declares_into_string(e, t, id),
        Ty::Generic(name) => match st.generics.get(name) {
            Some(bs) => some_into_string(e, bs, 0),
            None => false,
        },
        _ => false,
    }
}

/// Whether one of the bounds gives the required one.
pub open spec fn some_gives(e: Env, bs: Seq<Bound>, required: Bound, i: int) -> bool
    decreases bs.len() - i,
{
    0 <= i < bs.len() && (bound_gives(e.sigs, bs[i], required) || some_gives(e, bs, required, i + 1))
}

/// Whether a type satisfies a bound where it is checked.
#[verifier::opaque]
pub open spec fn satisfied(e: Env, st: St, t: Ty, b: Bound) -> bool {
    if into_string_bound(e, b) {
        into_string(e, st, t)
    } else {
        match t {
            Ty::Struct(_, _) => implements(e.sigs, t, b),
            Ty::TupleStruct(_, _) => implements(e.sigs, t, b),
            Ty::Enum(_, _) => implements(e.sigs, t, b),
            Ty::Generic(name) => match st.generics.get(name) {
                Some(bs) => some_gives(e, bs, b, 0),
                None => false,
            },
            Ty::Error => true,
            _ => false,
        }
    }
}

impl<'a> Cx<'a> {
    /// Whether a bound is `Into<String>`.
    pub fn is_into_string_bound(&self, b: &GenericBound) -> (r: bool)
        ensures
            r == into_string_bound(self@, b.deep_view()),
    {
        if b.args.len() != 1 || !str_eq(self.name_of(b.trait_id), "Into") {
            assert(b.deep_view().args.len() == b.args.len());
            return false;
        }
        let r = matches!(b.args[0], Type::String);
        proof {
            assert(b.deep_view().args[0] == b.args@[0]@);
            if r {
                assert(b.deep_view().args =~= seq![Ty::String]);
            } else {
                assert(b.deep_view().args[0] != Ty::String);
            }
        }
        r
    }

    fn any_into_string(&self, bs: &Vec<GenericBound>) -> (r: bool)
        ensures
            r == some_into_string(self@, bs.deep_view(), 0),
    {
        let ghost all = bs.deep_view();
        let mut i: usize = 0;
        while i < bs.len()
            invariant
                i <= bs.len(),
                all == bs.deep_view(),
                some_into_string(self@, all, i as int) == some_into_string(self@, all, 0),
            decreases bs.len() - i,
        {
            assert(all[i as int] == bs@[i as int].deep_view());
            if self.is_into_string_bound(&bs[i]) {
                return true;
            }
            i += 1;
        }
        false
    }

    fn any_gives(&self, bs: &Vec<GenericBound>, required: &GenericBound) -> (r: bool)
        ensures
            r == some_gives(self@, bs.deep_view(), required.deep_view(), 0),
    {
        let ghost all = bs.deep_view();
        let mut i: usize = 0;
        while i < bs.len()
            invariant
                i <= bs.len(),
                all == bs.deep_view(),
                some_gives(self@, all, required.deep_view(), i as int) == some_gives(
                    self@,
                    all,
                    required.deep_view(),
                    0,
                ),
            decreases bs.len() - i,
        {
            assert(all[i as int] == bs@[i as int].deep_view());
            if self.sigs.bound_satisfies(&bs[i], required) {
                return true;
            }
            i += 1;
        }
        false
    }

    fn declares_into_string(&self, ty: &Type, id: DefId) -> (r: bool)
        ensures
            r == declares_into_string(self@, ty@, id),
    {
        proof {
            reveal(declares_into_string);
        }
        match self.scope.names.definitions.lookup("Into") {
            None => false,
            Some(into) => {
                let bound = GenericBound { trait_id: into, args: one_type(Type::String) };
                proof {
                    assert(bound.deep_view().args == seq![Ty::String]);
                }
                if !self.sigs.satisfies(ty, &bound) {
                    return false;
                }
                let name: Symbol = "into_string".to_owned();
                match self.sigs.method(id, &name, ReceiverDomain::Arc) {
                    Some(sig) => sig.self_param.is_some() && matches!(sig.ret, Type::String),
                    None => false,
                }
            },
        }
    }
}

impl Checker {
    /// Whether a value of type `ty` can become a `String`.
    pub fn is_into_string_convertible(&self, cx: &Cx<'_>, ty: &Type) -> (r: bool)
        ensures
            r == into_string(cx@, self@, ty@),
        decreases ty,
    {
        proof {
            reveal(into_string);
        }
        match ty {
            Type::String | Type::Primitive(_) | Type::Error => true,
            Type::Unique(inner) => self.is_into_string_convertible(cx, inner),
            Type::Struct(id, _) => cx.declares_into_string(ty, *id),
            Type::TupleStruct(id, _) => cx.declares_into_string(ty, *id),
            Type::Enum(id, _) => cx.declares_into_string(ty, *id),
            Type::Generic(name) => match self.bounds(name) {
                Some(bs) => cx.any_into_string(bs),
                None => false,
            },
            _ => false,
        }
    }

    /// Whether a type satisfies a bound here.
    pub fn type_satisfies_bound(&self, cx: &Cx<'_>, ty: &Type, b: &GenericBound) -> (r: bool)
        ensures
            r == satisfied(cx@, self@, ty@, b.deep_view()),
    {
        proof {
            reveal(satisfied);
        }
        if cx.is_into_string_bound(b) {
            return self.is_into_string_convertible(cx, ty);
        }
        match ty {
            Type::Struct(_, _) | Type::TupleStruct(_, _) | Type::Enum(_, _) => cx.sigs.satisfies(ty, b),
            Type::Generic(name) => match self.bounds(name) {
                Some(bs) => cx.any_gives(bs, b),
                None => false,
            },
            Type::Error => true,
            _ => false,
        }
    }
}

/// After requiring that a value can become a `String`.
#[verifier::opaque]
pub open spec fn require_string(e: Env, st: St, t: Ty, span: Span) -> St {
    st.fail_if(
        !into_string(e, st, t),
        span,
        "`"@ + shown(t, e.sc.defs()) + "` cannot be converted to `String`; implement `Into<String>`"@,
    )
}

/// After requiring a `bool`.
#[verifier::opaque]
pub open spec fn require_bool(st: St, t: Ty, span: Span, what: Seq<char>) -> St {
    st.fail_if(t != Ty::Primitive(PrimitiveKind::Bool) && !(t is Error), span, what + " must be `bool`"@)
}

impl Checker {
    /// Requires that a value can become a `String`.
    pub fn require_into_string(&mut self, cx: &Cx<'_>, ty: &Type, span: Span)
        ensures
            final(self)@ == require_string(cx@, old(self)@, ty@, span),
    {
        proof {
            reveal(require_string);
        }
        if !self.is_into_string_convertible(cx, ty) {
            let described = cx.describe(ty);
            let message = cat3(
                "`",
                described.as_str(),
                "` cannot be converted to `String`; implement `Into<String>`",
            );
            self.err(span, message.as_str());
        }
    }

    /// Requires a `bool`.
    pub fn require_bool(&mut self, ty: &Type, span: Span, what: &str)
        ensures
            final(self)@ == require_bool(old(self)@, ty@, span, what@),
    {
        proof {
            reveal(require_bool);
        }
        if !matches!(ty, Type::Primitive(PrimitiveKind::Bool)) && !ty.is_error() {
            let message = crate::text::cat2(what, " must be `bool`");
            self.err(span, message.as_str());
        }
    }
}

// ---------------------------------------------------------------------
// Validity of types
// ---------------------------------------------------------------------

/// After checking which arguments of a generic type are constants, from the
/// `i`-th on.
pub open spec fn const_args_checked(e: Env, st: St, id: DefId, names: Seq<Seq<char>>, args: Seq<Ty>, i: int, span: Span) -> St
    decreases names.len() - i,
{
    if 0 <= i < names.len() && i < args.len() {
        let is_const = match e.sigs.const_type_params.get(id) {
            Some(params) => params.contains_key(names[i]),
            None => false,
        };
        const_args_checked(e, const_arg_checked(st, is_const, names[i], args[i], span), id, names, args, i + 1, span)
    } else {
        st
    }
}

/// After checking that an argument is a constant exactly where one is due.
#[verifier::opaque]
pub open spec fn const_arg_checked(st: St, is_const: bool, name: Seq<char>, arg: Ty, span: Span) -> St {
    if is_const {
        st.fail_if(
            !(arg is Const),
            span,
            "const generic parameter `"@ + name + "` requires an integer constant"@,
        )
    } else {
        st.fail_if(arg is Const, span, "type generic parameter `"@ + name + "` requires a type, not a constant"@)
    }
}

/// After checking one argument's bounds from the `i`-th on.
pub open spec fn arg_bounds_checked(e: Env, st: St, arg: Ty, bs: Seq<Bound>, m: Subst, i: int, span: Span) -> St
    decreases bs.len() - i,
{
    if 0 <= i < bs.len() {
        let b = bound_subst(bs[i], m);
        arg_bounds_checked(
            e,
            st.fail_if(
                !satisfied(e, st, arg, b),
                span,
                "`"@ + shown(arg, e.sc.defs()) + "` does not implement `"@ + shown_bound(b, e.sc.defs())
                    + "`, required by this generic type"@,
            ),
            arg,
            bs,
            m,
            i + 1,
            span,
        )
    } else {
        st
    }
}

/// After checking the arguments' bounds from the `i`-th on.
pub open spec fn args_bounds_checked(e: Env, st: St, bs: Seq<Seq<Bound>>, args: Seq<Ty>, m: Subst, i: int, span: Span) -> St
    decreases bs.len() - i,
{
    if 0 <= i < bs.len() {
        let st1 = if i < args.len() && !has_error(args[i]) {
            arg_bounds_checked(e, st, args[i], bs[i], m, 0, span)
        } else {
            st
        };
        args_bounds_checked(e, st1, bs, args, m, i + 1, span)
    } else {
        st
    }
}

/// After checking a nominal type's own arguments.
#[verifier::opaque]
pub open spec fn nominal_checked(e: Env, st: St, id: DefId, args: Seq<Ty>, span: Span) -> St {
    let names = e.sigs.owner_generics(id);
    let bounds = match e.sigs.generic_type_bounds.get(id) {
        Some(bs) => bs,
        None => Seq::empty(),
    };
    args_bounds_checked(
        e,
        const_args_checked(e, st, id, names, args, 0, span),
        bounds,
        args,
        zip_subst(names, args),
        0,
        span,
    )
}

/// The declarations of an associated type in the bounds from the `i`-th on,
/// after `acc`.
pub open spec fn projections(e: Env, bs: Seq<Bound>, name: Seq<char>, i: int, acc: Seq<TypeSig>) -> Seq<TypeSig>
    decreases bs.len() - i,
{
    if 0 <= i < bs.len() {
        projections(
            e,
            bs,
            name,
            i + 1,
            match e.sigs.trait_associated_types.get((bs[i].trait_id, name)) {
                Some(sig) => acc.push(sig),
                None => acc,
            },
        )
    } else {
        acc
    }
}

/// Whether an item may not be named in a file.
pub open spec fn hidden(file: crate::ids::FileId, visibility: Visibility, span: Span) -> bool {
    file != span.file && !(visibility is Public)
}

/// After checking an associated type of a generic parameter.
#[verifier::opaque]
pub open spec fn parameter_projection_checked(e: Env, st: St, generic: Seq<char>, name: Seq<char>, span: Span) -> St {
    let bs = match st.generics.get(generic) {
        Some(bs) => bs,
        None => Seq::empty(),
    };
    let found = projections(e, bs, name, 0, Seq::empty());
    if found.len() == 0 {
        st.fail(
            span,
            "generic parameter `"@ + generic + "` has no associated type `"@ + name + "` in its bounds"@,
        )
    } else if found.len() > 1 {
        st.fail(span, "associated type `"@ + name + "` is ambiguous across bounds of `"@ + generic + "`"@)
    } else {
        st.fail_if(
            hidden(found[0].file, found[0].visibility, span),
            span,
            "associated type `"@ + name + "` is private"@,
        )
    }
}

/// After checking an associated type's own declaration.
#[verifier::opaque]
pub open spec fn projection_checked(e: Env, st: St, owner: Ty, name: Seq<char>, span: Span) -> St {
    match owner {
        Ty::Generic(generic) => parameter_projection_checked(e, st, generic, name, span),
        _ => match nominal(owner) {
            Some((id, _)) => match pair_get(e.sigs.associated_types, (id, name)) {
                None => st.fail(span, "type has no associated type `"@ + name + "`"@),
                Some(sig) => st.fail_if(
                    hidden(sig.file, sig.visibility, span),
                    span,
                    "associated type `"@ + name + "` is private"@,
                ),
            },
            None => st,
        },
    }
}

/// After checking that a type's arguments are what its declarations ask for.
pub open spec fn validated(e: Env, st: St, t: Ty, span: Span) -> St
    decreases t,
{
    match t {
        Ty::Struct(id, args) => all_validated(e, nominal_checked(e, st, id, args, span), args, 0, span),
        Ty::TupleStruct(id, args) => all_validated(e, nominal_checked(e, st, id, args, span), args, 0, span),
        Ty::Enum(id, args) => all_validated(e, nominal_checked(e, st, id, args, span), args, 0, span),
        Ty::Tuple(items) => all_validated(e, st, items, 0, span),
        Ty::Array(inner) => validated(e, st, *inner, span),
        Ty::Weak(inner) => validated(e, st, *inner, span),
        Ty::Associated(owner, name) => validated(e, projection_checked(e, st, *owner, name, span), *owner, span),
        Ty::Function(params, ret) => validated(e, all_validated(e, st, params, 0, span), *ret, span),
        _ => st,
    }
}

/// The same for the types from the `i`-th on.
pub open spec fn all_validated(e: Env, st: St, ts: Seq<Ty>, i: int, span: Span) -> St
    decreases ts, ts.len() - i,
{
    if 0 <= i < ts.len() {
        all_validated(e, validated(e, st, ts[i], span), ts, i + 1, span)
    } else {
        st
    }
}

/// Whether a visibility is public.
pub fn is_public(v: Visibility) -> (r: bool)
    ensures
        r == (v is Public),
{
    matches!(v, Visibility::Public)
}

/// Whether an item may not be named in a file.
pub fn is_hidden(file: crate::ids::FileId, visibility: Visibility, span: Span) -> (r: bool)
    ensures
        r == hidden(file, visibility, span),
{
    file != span.file && !is_public(visibility)
}

impl Checker {
    /// Reports an error if the condition holds.
    pub fn err_if(&mut self, wrong: bool, span: Span, message: &str)
        ensures
            final(self)@ == old(self)@.fail_if(wrong, span, message@),
    {
        if wrong {
            self.err(span, message);
        }
    }

    pub fn check_const_arg(&mut self, is_const: bool, name: &Symbol, arg: &Type, span: Span)
        ensures
            final(self)@ == const_arg_checked(old(self)@, is_const, name@, arg@, span),
    {
        proof {
            reveal(const_arg_checked);
        }
        if is_const {
            if !matches!(arg, Type::Const(_)) {
                let message = cat3("const generic parameter `", name.as_str(), "` requires an integer constant");
                self.err(span, message.as_str());
            }
        } else if matches!(arg, Type::Const(_)) {
            let message = cat3("type generic parameter `", name.as_str(), "` requires a type, not a constant");
            self.err(span, message.as_str());
        }
    }

    fn check_const_args(&mut self, cx: &Cx<'_>, id: DefId, names: &Vec<Symbol>, args: &Vec<Type>, span: Span)
        ensures
            final(self)@ == const_args_checked(
                cx@,
                old(self)@,
                id,
                names.deep_view(),
                args.deep_view(),
                0,
                span,
            ),
    {
        let ghost ns = names.deep_view();
        let ghost ts = args.deep_view();
        let mut i: usize = 0;
        while i < names.len() && i < args.len()
            invariant
                i <= names.len(),
                ns == names.deep_view(),
                ts == args.deep_view(),
                const_args_checked(cx@, self@, id, ns, ts, i as int, span) == const_args_checked(
                    cx@,
                    old(self)@,
                    id,
                    ns,
                    ts,
                    0,
                    span,
                ),
            decreases names.len() - i,
        {
            assert(ns[i as int] == names@[i as int]@);
            assert(ts[i as int] == args@[i as int]@);
            let is_const = match cx.sigs.const_type_params.get(&id) {
                Some(params) => params.contains(&names[i]),
                None => false,
            };
            self.check_const_arg(is_const, &names[i], &args[i], span);
            i += 1;
        }
    }

    fn check_arg_bounds(&mut self, cx: &Cx<'_>, arg: &Type, bs: &Vec<GenericBound>, m: &Table<Symbol, Type>, span: Span)
        ensures
            final(self)@ == arg_bounds_checked(cx@, old(self)@, arg@, bs.deep_view(), m@, 0, span),
    {
        let ghost all = bs.deep_view();
        let mut i: usize = 0;
        while i < bs.len()
            invariant
                i <= bs.len(),
                all == bs.deep_view(),
                arg_bounds_checked(cx@, self@, arg@, all, m@, i as int, span) == arg_bounds_checked(
                    cx@,
                    old(self)@,
                    arg@,
                    all,
                    m@,
                    0,
                    span,
                ),
            decreases bs.len() - i,
        {
            assert(all[i as int] == bs@[i as int].deep_view());
            let b = substitute_bound(&bs[i], m);
            if !self.type_satisfies_bound(cx, arg, &b) {
                let actual = cx.describe(arg);
                let bound = describe_bound(&b, &cx.scope.names.definitions);
                let message = cat5(
                    "`",
                    actual.as_str(),
                    "` does not implement `",
                    bound.as_str(),
                    "`, required by this generic type",
                );
                self.err(span, message.as_str());
            }
            i += 1;
        }
    }

    fn check_nominal(&mut self, cx: &Cx<'_>, id: DefId, args: &Vec<Type>, span: Span)
        ensures
            final(self)@ == nominal_checked(cx@, old(self)@, id, args.deep_view(), span),
    {
        proof {
            reveal(nominal_checked);
        }
        let names = cx.sigs.owner_generics(id);
        self.check_const_args(cx, id, &names, args, span);
        let bounds = match cx.sigs.generic_type_bounds.get(&id) {
            Some(bs) => bs,
            None => {
                return;
            },
        };
        let m = zip_types(&names, args);
        let ghost bs = bounds.deep_view();
        let ghost ts = args.deep_view();
        let ghost st1 = self@;
        let mut i: usize = 0;
        while i < bounds.len()
            invariant
                i <= bounds.len(),
                bs == bounds.deep_view(),
                ts == args.deep_view(),
                args_bounds_checked(cx@, self@, bs, ts, m@, i as int, span) == args_bounds_checked(
                    cx@,
                    st1,
                    bs,
                    ts,
                    m@,
                    0,
                    span,
                ),
            decreases bounds.len() - i,
        {
            assert(bs[i as int] == bounds@[i as int].deep_view());
            if i < args.len() {
                assert(ts[i as int] == args@[i as int]@);
                if !args[i].contains_error() {
                    self.check_arg_bounds(cx, &args[i], &bounds[i], &m, span);
                }
            }
            i += 1;
        }
    }

    fn check_parameter_projection(&mut self, cx: &Cx<'_>, generic: &Symbol, name: &Symbol, span: Span)
        ensures
            final(self)@ == parameter_projection_checked(cx@, old(self)@, generic@, name@, span),
    {
        proof {
            reveal(parameter_projection_checked);
        }
        let bs = match self.bounds(generic) {
            Some(bs) => bs.dup(),
            None => crate::owners::no_bounds(),
        };
        let ghost all = bs.deep_view();
        let mut found: usize = 0;
        let mut private: bool = false;
        let ghost mut list: Seq<TypeSig> = Seq::empty();
        let mut i: usize = 0;
        while i < bs.len()
            invariant
                i <= bs.len(),
                found <= i,
                all == bs.deep_view(),
                found == list.len(),
                found > 0 ==> private == hidden(list[found - 1].file, list[found - 1].visibility, span),
                projections(cx@, all, name@, i as int, list) == projections(cx@, all, name@, 0, Seq::empty()),
            decreases bs.len() - i,
        {
            assert(all[i as int] == bs@[i as int].deep_view());
            let key: (DefId, Symbol) = (bs[i].trait_id, name.clone());
            if let Some(sig) = cx.sigs.trait_associated_types.get(&key) {
                private = is_hidden(sig.file, sig.visibility, span);
                found += 1;
                proof {
                    list = list.push(sig.deep_view());
                }
            }
            i += 1;
        }
        if found == 0 {
            let message = cat5(
                "generic parameter `",
                generic.as_str(),
                "` has no associated type `",
                name.as_str(),
                "` in its bounds",
            );
            self.err(span, message.as_str());
        } else if found > 1 {
            let message = cat5(
                "associated type `",
                name.as_str(),
                "` is ambiguous across bounds of `",
                generic.as_str(),
                "`",
            );
            self.err(span, message.as_str());
        } else if private {
            let message = cat3("associated type `", name.as_str(), "` is private");
            self.err(span, message.as_str());
        }
    }

    fn check_projection(&mut self, cx: &Cx<'_>, owner: &Type, name: &Symbol, span: Span)
        ensures
            final(self)@ == projection_checked(cx@, old(self)@, owner@, name@, span),
    {
        proof {
            reveal(projection_checked);
        }
        match owner {
            Type::Generic(generic) => self.check_parameter_projection(cx, generic, name, span),
            Type::Struct(id, _) | Type::TupleStruct(id, _) | Type::Enum(id, _) => {
                let key: (DefId, Symbol) = (*id, name.clone());
                match cx.sigs.associated_types.get(&key) {
                    None => {
                        let message = cat3("type has no associated type `", name.as_str(), "`");
                        self.err(span, message.as_str());
                    },
                    Some(sig) => {
                        if is_hidden(sig.file, sig.visibility, span) {
                            let message = cat3("associated type `", name.as_str(), "` is private");
                            self.err(span, message.as_str());
                        }
                    },
                }
            },
            _ => {},
        }
    }

    /// Checks that a type's arguments are what its declarations ask for.
    pub fn validate_type_bounds(&mut self, cx: &Cx<'_>, ty: &Type, span: Span)
        ensures
            final(self)@ == validated(cx@, old(self)@, ty@, span),
        decreases ty,
    {
        match ty {
            Type::Struct(id, args) => {
                self.check_nominal(cx, *id, args, span);
                self.validate_all(cx, args, span);
            },
            Type::TupleStruct(id, args) => {
                self.check_nominal(cx, *id, args, span);
                self.validate_all(cx, args, span);
            },
            Type::Enum(id, args) => {
                self.check_nominal(cx, *id, args, span);
                self.validate_all(cx, args, span);
            },
            Type::Tuple(items) => self.validate_all(cx, items, span),
            Type::Array(inner) => self.validate_type_bounds(cx, inner, span),
            Type::Weak(inner) => self.validate_type_bounds(cx, inner, span),
            Type::Associated(owner, name) => {
                self.check_projection(cx, owner, name, span);
                self.validate_type_bounds(cx, owner, span);
            },
            Type::Function(params, ret) => {
                self.validate_all(cx, params, span);
                self.validate_type_bounds(cx, ret, span);
            },
            _ => {},
        }
    }

    fn validate_all(&mut self, cx: &Cx<'_>, items: &Vec<Type>, span: Span)
        ensures
            final(self)@ == all_validated(cx@, old(self)@, items.deep_view(), 0, span),
        decreases items,
    {
        let ghost ts = items.deep_view();
        let mut i: usize = 0;
        while i < items.len()
            invariant
                i <= items.len(),
                ts == items.deep_view(),
                all_validated(cx@, self@, ts, i as int, span) == all_validated(cx@, old(self)@, ts, 0, span),
            decreases items.len() - i,
        {
            assert(ts[i as int] == items@[i as int]@);
            self.validate_type_bounds(cx, &items[i], span);
            i += 1;
        }
    }
}

// ---------------------------------------------------------------------
// Fields
// ---------------------------------------------------------------------

/// The type of a read of a place: a `weak T` place reads as `Option<T>`.
#[verifier::opaque]
pub open spec fn upgraded(e: Env, t: Ty) -> Ty {
    match t {
        Ty::Weak(inner) => match e.sc.defs().found("Option"@) {
            Some(id) => Ty::Enum(id, seq![*inner]),
            None => Ty::Error,
        },
        _ => t,
    }
}

/// The type of the first field with this name from the `i`-th on.
pub open spec fn field_named(fs: Seq<(Seq<char>, Ty)>, name: Seq<char>, i: int) -> Option<Ty>
    decreases fs.len() - i,
{
    if 0 <= i < fs.len() {
        if fs[i].0 == name {
            Some(fs[i].1)
        } else {
            field_named(fs, name, i + 1)
        }
    } else {
        None
    }
}

/// The declared type of a field of a struct type.
pub open spec fn field_of(e: Env, t: Ty, name: Seq<char>) -> Option<Ty> {
    match named_fields_of(e.sigs, t) {
        Some(fs) => field_named(fs, name, 0),
        None => None,
    }
}

/// Whether a field may not be named in a file.
pub open spec fn private_field(e: Env, def: DefId, name: Seq<char>, span: Span) -> bool {
    e.sc.defs().file_of(def) is Some && e.sc.defs().file_of(def) != Some(span.file) && e.sigs.field_visibility.get(
        (def, name),
    ) != Some(Visibility::Public)
}

/// Whether a field of a type may not be named in a file.
pub open spec fn private_in(e: Env, t: Ty, name: Seq<char>, span: Span) -> bool {
    match t {
        Ty::Struct(id, _) => private_field(e, id, name, span),
        _ => false,
    }
}

/// After a field access: the field's declared type.
#[verifier::opaque]
pub open spec fn field_type(e: Env, st: St, base: Ty, name: Seq<char>, span: Span) -> (St, Ty) {
    let t = ty_direct(base);
    match field_of(e, t, name) {
        Some(f) => (st.fail_if(private_in(e, t, name, span), span, "field `"@ + name + "` is private"@), f),
        None => if t is Error {
            (st, Ty::Error)
        } else {
            (st.fail(span, "`"@ + shown(t, e.sc.defs()) + "` has no field named `"@ + name + "`"@), Ty::Error)
        },
    }
}

/// After a field read.
#[verifier::opaque]
pub open spec fn field_read(e: Env, st: St, base: Ty, name: Seq<char>, span: Span) -> (St, Ty) {
    let (st1, t) = field_type(e, st, base, name, span);
    (st1, upgraded(e, t))
}

/// After a positional field read.
#[verifier::opaque]
pub open spec fn index_read(e: Env, st: St, base: Ty, idx: u32, span: Span) -> (St, Ty) {
    let elems = match base {
        Ty::Tuple(items) => Some(items),
        Ty::TupleStruct(_, _) => fields_of(e.sigs, base),
        _ => None,
    };
    match elems {
        Some(ts) if idx < ts.len() => (st, ts[idx as int]),
        _ => (
            st.fail_if(
                !(base is Error),
                span,
                "`"@ + shown(base, e.sc.defs()) + "` has no field `."@ + decimal(idx as nat) + "`"@,
            ),
            Ty::Error,
        ),
    }
}

pub fn is_private_field(cx: &Cx<'_>, def: DefId, name: &Ident) -> (r: bool)
    ensures
        r == private_field(cx@, def, name.name@, name.span),
{
    let elsewhere = match cx.scope.names.definitions.file(def) {
        Some(file) => file != name.span.file,
        None => false,
    };
    if !elsewhere {
        return false;
    }
    let key: (DefId, Symbol) = (def, name.name.clone());
    match cx.sigs.field_visibility.get(&key) {
        Some(Visibility::Public) => false,
        _ => true,
    }
}

impl<'a> Cx<'a> {
    /// The type of a read of a place.
    pub fn upgrade_weak(&self, ty: Type) -> (r: Type)
        ensures
            r@ == upgraded(self@, ty@),
    {
        proof {
            reveal(upgraded);
        }
        match ty {
            Type::Weak(inner) => match self.scope.names.definitions.lookup("Option") {
                Some(id) => Type::Enum(id, one_type(*inner)),
                None => Type::Error,
            },
            other => other,
        }
    }

    fn field_of(&self, ty: &Type, name: &Symbol) -> (r: Option<Type>)
        ensures
            r.deep_view() == field_of(self@, ty@, name@),
    {
        let fields = match self.sigs.named_type_fields(ty) {
            Some(fields) => fields,
            None => {
                return None;
            },
        };
        let ghost fs = fields.deep_view();
        let mut i: usize = 0;
        while i < fields.len()
            invariant
                i <= fields.len(),
                fs == fields.deep_view(),
                named_fields_of(self@.sigs, ty@) == Some(fs),
                field_named(fs, name@, i as int) == field_named(fs, name@, 0),
            decreases fields.len() - i,
        {
            assert(fs[i as int] == fields@[i as int].deep_view());
            if fields[i].0 == *name {
                return Some(fields[i].1.clone());
            }
            i += 1;
        }
        None
    }
}

impl Checker {
    /// The declared type of a field.
    pub fn field_type_named(&mut self, cx: &Cx<'_>, base: &Type, ident: &Ident) -> (r: Type)
        ensures
            (final(self)@, r@) == field_type(cx@, old(self)@, base@, ident.name@, ident.span),
    {
        proof {
            reveal(field_type);
        }
        let ty = base.strip_indirection();
        match cx.field_of(ty, &ident.name) {
            Some(t) => {
                let private = match ty {
                    Type::Struct(id, _) => is_private_field(cx, *id, ident),
                    _ => false,
                };
                if private {
                    let message = cat3("field `", ident.name.as_str(), "` is private");
                    self.err(ident.span, message.as_str());
                }
                t
            },
            None => {
                if !ty.is_error() {
                    let described = cx.describe(ty);
                    let message = cat5(
                        "`",
                        described.as_str(),
                        "` has no field named `",
                        ident.name.as_str(),
                        "`",
                    );
                    self.err(ident.span, message.as_str());
                }
                Type::Error
            },
        }
    }

    /// The type that a field reads as.
    pub fn check_field_access_named(&mut self, cx: &Cx<'_>, base: &Type, ident: &Ident) -> (r: Type)
        ensures
            (final(self)@, r@) == field_read(cx@, old(self)@, base@, ident.name@, ident.span),
    {
        proof {
            reveal(field_read);
        }
        let t = self.field_type_named(cx, base, ident);
        cx.upgrade_weak(t)
    }

    /// The type of a positional field.
    pub fn check_tuple_index(&mut self, cx: &Cx<'_>, base: &Type, idx: u32, span: Span) -> (r: Type)
        ensures
            (final(self)@, r@) == index_read(cx@, old(self)@, base@, idx, span),
    {
        proof {
            reveal(index_read);
        }
        let i: usize = idx as usize;
        match base {
            Type::Tuple(items) => {
                assert(items.deep_view().len() == items.len());
                if i < items.len() {
                    assert(items.deep_view()[i as int] == items@[i as int]@);
                    return items[i].clone();
                }
            },
            Type::TupleStruct(_, _) => {
                if let Some(fields) = cx.sigs.type_fields(base) {
                    assert(fields.deep_view().len() == fields.len());
                    if i < fields.len() {
                        assert(fields.deep_view()[i as int] == fields@[i as int]@);
                        return fields[i].clone();
                    }
                }
            },
            _ => {},
        }
        if !base.is_error() {
            let described = cx.describe(base);
            let n = crate::text::number(idx as u128);
            let message = cat5("`", described.as_str(), "` has no field `.", n.as_str(), "`");
            self.err(span, message.as_str());
        }
        Type::Error
    }
}

// ---------------------------------------------------------------------
// Places
// ---------------------------------------------------------------------

/// The local that a path's head denotes.
pub open spec fn path_local(names: ResolvedNames, path: Path) -> Option<LocalId> {
    match names.path(path.id) {
        Some(res) => match res.base {
            Resolution::Local(id) => Some(id),
            _ => None,
        },
        None => None,
    }
}

/// Whether an assignment target is a local, or a field or element of one, or
/// reached through a raw pointer.
pub open spec fn has_local_root(names: ResolvedNames, x: Expr) -> bool
    decreases expr_size(x),
{
    match x.kind {
        ExprKind::Path(path) => path_local(names, path) is Some,
        ExprKind::Field { base, field: _ } => has_local_root(names, *base),
        ExprKind::Index { base, index: _ } => has_local_root(names, *base),
        ExprKind::RawDeref(_) => true,
        _ => false,
    }
}

/// The local that an expression is, if it is nothing more.
pub open spec fn bare_local(names: ResolvedNames, x: Expr) -> Option<LocalId> {
    match x.kind {
        ExprKind::Path(path) => if path.segments@.len() == 1 {
            path_local(names, path)
        } else {
            None
        },
        _ => None,
    }
}

/// The local that a place belongs to.
pub open spec fn root_local(names: ResolvedNames, x: Expr) -> Option<LocalId>
    decreases expr_size(x),
{
    match x.kind {
        ExprKind::Path(path) => path_local(names, path),
        ExprKind::Field { base, field: _ } => root_local(names, *base),
        ExprKind::Index { base, index: _ } => root_local(names, *base),
        _ => None,
    }
}

/// Whether a place belongs to a mutable local; none for what is no place.
pub open spec fn root_mutable(names: ResolvedNames, st: St, x: Expr) -> Option<bool> {
    match root_local(names, x) {
        Some(id) => match st.locals.get(id) {
            Some((_, mutable)) => Some(mutable),
            None => None,
        },
        None => None,
    }
}

/// The local that a path's head denotes.
pub fn local_of_path(names: &ResolvedNames, path: &Path) -> (r: Option<LocalId>)
    ensures
        r == path_local(*names, *path),
{
    match names.path_of(path.id) {
        Some(res) => match res.base {
            Resolution::Local(id) => Some(id),
            _ => None,
        },
        None => None,
    }
}

/// Whether an assignment target belongs to a local or a raw pointer.
pub fn assign_target_has_local_root(names: &ResolvedNames, target: &Expr) -> (r: bool)
    ensures
        r == has_local_root(*names, *target),
    decreases expr_size(*target),
{
    match &target.kind {
        ExprKind::Path(path) => local_of_path(names, path).is_some(),
        ExprKind::Field { base, field: _ } => assign_target_has_local_root(names, base),
        ExprKind::Index { base, index: _ } => assign_target_has_local_root(names, base),
        ExprKind::RawDeref(_) => true,
        _ => false,
    }
}

/// The local that an expression is, if it is nothing more.
pub fn bare_local_of(names: &ResolvedNames, expr: &Expr) -> (r: Option<LocalId>)
    ensures
        r == bare_local(*names, *expr),
{
    match &expr.kind {
        ExprKind::Path(path) => if path.segments.len() == 1 {
            local_of_path(names, path)
        } else {
            None
        },
        _ => None,
    }
}

/// The local that a place belongs to.
pub fn place_root_local(names: &ResolvedNames, expr: &Expr) -> (r: Option<LocalId>)
    ensures
        r == root_local(*names, *expr),
    decreases expr_size(*expr),
{
    match &expr.kind {
        ExprKind::Path(path) => local_of_path(names, path),
        ExprKind::Field { base, field: _ } => place_root_local(names, base),
        ExprKind::Index { base, index: _ } => place_root_local(names, base),
        _ => None,
    }
}

/// After checking that a place may be written.
#[verifier::opaque]
pub open spec fn writable(e: Env, st: St, target: Expr) -> St {
    let st1 = st.fail_if(
        match root_local(e.sc.names, target) {
            Some(id) => st.borrows.contains_key(id),
            None => false,
        },
        target.span,
        "cannot mutate a value while it is borrowed"@,
    );
    st1.fail_if(
        root_mutable(e.sc.names, st1, target) == Some(false),
        target.span,
        "cannot assign to an immutable binding — declare it with `let mut`"@,
    )
}

/// After checking that an argument may be passed as `mut`.
#[verifier::opaque]
pub open spec fn mut_arg_checked(e: Env, st: St, x: Expr) -> St {
    let known = match x.kind {
        ExprKind::Path(path) => match e.sc.names.path(path.id) {
            Some(res) => if res.consumed == path.segments@.len() {
                match res.base {
                    Resolution::Local(id) => match st.locals.get(id) {
                        Some((_, mutable)) => Some(mutable),
                        None => None,
                    },
                    _ => None,
                }
            } else {
                None
            },
            None => None,
        },
        _ => None,
    };
    match known {
        Some(true) => st,
        Some(false) => st.fail(
            x.span,
            "cannot pass an immutable binding as a `mut` argument — declare it with `let mut`"@,
        ),
        None => st.fail(x.span, "a `mut` argument must be a plain mutable local variable"@),
    }
}

impl Checker {
    /// Whether a place belongs to a mutable local.
    pub fn place_root_mutable(&self, names: &ResolvedNames, expr: &Expr) -> (r: Option<bool>)
        ensures
            r == root_mutable(*names, self@, *expr),
    {
        match place_root_local(names, expr) {
            Some(id) => match self.local(id) {
                Some(l) => Some(l.1),
                None => None,
            },
            None => None,
        }
    }

    /// Checks that a place may be written.
    pub fn check_assign_target_mutable(&mut self, cx: &Cx<'_>, target: &Expr)
        ensures
            final(self)@ == writable(cx@, old(self)@, *target),
    {
        proof {
            reveal(writable);
        }
        let borrowed = match place_root_local(cx.scope.names, target) {
            Some(id) => self.is_borrowed(id),
            None => false,
        };
        self.err_if(borrowed, target.span, "cannot mutate a value while it is borrowed");
        let fixed = matches!(self.place_root_mutable(cx.scope.names, target), Some(false));
        self.err_if(
            fixed,
            target.span,
            "cannot assign to an immutable binding — declare it with `let mut`",
        );
    }

    /// Checks that an argument may be passed as `mut`.
    pub fn check_mut_arg_target(&mut self, cx: &Cx<'_>, expr: &Expr)
        ensures
            final(self)@ == mut_arg_checked(cx@, old(self)@, *expr),
    {
        proof {
            reveal(mut_arg_checked);
        }
        let known = match &expr.kind {
            ExprKind::Path(path) => match cx.scope.names.path_of(path.id) {
                Some(res) => if res.consumed == path.segments.len() {
                    match res.base {
                        Resolution::Local(id) => match self.local(id) {
                            Some(l) => Some(l.1),
                            None => None,
                        },
                        _ => None,
                    }
                } else {
                    None
                },
                None => None,
            },
            _ => None,
        };
        match known {
            Some(true) => {},
            Some(false) => self.err(
                expr.span,
                "cannot pass an immutable binding as a `mut` argument — declare it with `let mut`",
            ),
            None => self.err(expr.span, "a `mut` argument must be a plain mutable local variable"),
        }
    }
}

// ---------------------------------------------------------------------
// Literals
// ---------------------------------------------------------------------

/// Whether a literal may have the primitive type.
pub open spec fn literal_fits(l: Literal, p: PrimitiveKind) -> bool {
    match l {
        Literal::Int => prim_integer(p),
        Literal::Float => prim_float(p),
        Literal::Bool => p is Bool,
        Literal::Char => p is Char,
        Literal::Str => false,
    }
}

/// The type of a literal without context.
pub open spec fn literal_default(l: Literal) -> Ty {
    match l {
        Literal::Int => Ty::Primitive(PrimitiveKind::I32),
        Literal::Float => Ty::Primitive(PrimitiveKind::F64),
        Literal::Bool => Ty::Primitive(PrimitiveKind::Bool),
        Literal::Char => Ty::Primitive(PrimitiveKind::Char),
        Literal::Str => Ty::String,
    }
}

/// Whether a literal may have the type.
pub open spec fn literal_of(l: Literal, t: Ty) -> bool {
    match t {
        Ty::Primitive(p) => literal_fits(l, p),
        Ty::String => l is Str,
        _ => false,
    }
}

/// The type of a literal: the expected one, owned or not, where it fits.
#[verifier::opaque]
pub open spec fn literal_type(l: Literal, expected: Option<Ty>) -> Ty {
    match expected {
        Some(t) => if literal_of(l, crate::ty::ty_owned_of(t)) {
            t
        } else {
            literal_default(l)
        },
        None => literal_default(l),
    }
}

/// Whether a literal may have the type.
pub fn literal_may_be(l: Literal, ty: &Type) -> (r: bool)
    ensures
        r == literal_of(l, ty@),
{
    match ty {
        Type::Primitive(p) => match l {
            Literal::Int => p.is_integer(),
            Literal::Float => p.is_float(),
            Literal::Bool => matches!(*p, PrimitiveKind::Bool),
            Literal::Char => matches!(*p, PrimitiveKind::Char),
            Literal::Str => false,
        },
        Type::String => matches!(l, Literal::Str),
        _ => false,
    }
}

/// The type of a literal.
pub fn type_of_literal(l: Literal, expected: Option<&Type>) -> (r: Type)
    ensures
        r@ == literal_type(l, expected.deep_view()),
{
    proof {
        reveal(literal_type);
    }
    if let Some(t) = expected {
        if literal_may_be(l, t.strip_unique()) {
            return t.clone();
        }
    }
    match l {
        Literal::Int => Type::Primitive(PrimitiveKind::I32),
        Literal::Float => Type::Primitive(PrimitiveKind::F64),
        Literal::Bool => Type::Primitive(PrimitiveKind::Bool),
        Literal::Char => Type::Primitive(PrimitiveKind::Char),
        Literal::Str => Type::String,
    }
}

} // verus!
