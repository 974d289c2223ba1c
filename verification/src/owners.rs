//! The owners of impl blocks, and the forms of method signatures.
use crate::ast::{GenericParam, ImplBlock, TypeExpr};
use crate::datum::{lemma_deep_len, occurs, put, Datum, Dup};
use crate::declarations::{bounded_params_from, param_names};
use crate::diagnostics::{diag, report, Diag, Diagnostic};
use crate::ids::{DefId, Symbol};
use crate::lower::{arity_message, arity_text, lowered_all, lowered_bounds, nominal_type, Sc, Scope};
use crate::names::DefKind;
use crate::rules::{bound_subst, substitute_bound};
use crate::sig::{Bound, FnSig, GenericBound, PSig, ParamSig, Sig};
use crate::subst::{subst, substitute_generic, zip_subst, zip_types, Subst};
use crate::table::Table;
use crate::text::cat3;
use crate::ty::{group_tys, str_eq, tys, Ty, Type};
use vstd::prelude::*;

verus! {

broadcast use group_tys, lemma_deep_len;

/// Generic parameters with their bounds.
pub type Params = Seq<(Seq<char>, Seq<Bound>)>;

/// The bounds with generic parameters replaced.
pub open spec fn bounds_subst(bs: Seq<Bound>, m: Subst) -> Seq<Bound> {
    Seq::new(bs.len(), |i: int| bound_subst(bs[i], m))
}

/// A signature with generic parameters replaced.
pub open spec fn sig_subst(sig: Sig, m: Subst) -> Sig {
    Sig {
        params: Seq::new(sig.params.len(), |i: int| PSig { ty: subst(sig.params[i].ty, m), ..sig.params[i] }),
        ret: subst(sig.ret, m),
        generics: Seq::new(
            sig.generics.len(),
            |i: int| (sig.generics[i].0, bounds_subst(sig.generics[i].1, m)),
        ),
        ..sig
    }
}

/// Whether a method's signature is the required one, up to parameter names
/// and bounds.
pub open spec fn sigs_match(actual: Sig, required: Sig) -> bool {
    actual.self_param == required.self_param && actual.is_async == required.is_async && actual.params.len()
        == required.params.len() && actual.generics.len() == required.generics.len() && params_match(
        actual.params,
        required.params,
    ) && actual.ret == required.ret
}

/// Whether parameters agree in mutability and type as far as both lists go.
pub open spec fn params_match(a: Seq<PSig>, b: Seq<PSig>) -> bool {
    forall|i: int|
        #![trigger a[i]]
        0 <= i < a.len() && i < b.len() ==> a[i].mutable == b[i].mutable && a[i].ty == b[i].ty
}

fn bounds_substituted(bs: &Vec<GenericBound>, m: &Table<Symbol, Type>) -> (r: Vec<GenericBound>)
    ensures
        r.deep_view() == bounds_subst(bs.deep_view(), m@),
{
    let mut out: Vec<GenericBound> = Vec::new();
    let mut i: usize = 0;
    while i < bs.len()
        invariant
            i <= bs.len(),
            out.len() == i,
            forall|j: int| 0 <= j < i ==> (#[trigger] out@[j]).deep_view() == bound_subst(bs@[j].deep_view(), m@),
        decreases bs.len() - i,
    {
        out.push(substitute_bound(&bs[i], m));
        i += 1;
    }
    proof {
        assert(out.deep_view() =~= bounds_subst(bs.deep_view(), m@));
    }
    out
}

/// A signature with generic parameters replaced.
pub fn specialize_fn_sig(sig: &FnSig, m: &Table<Symbol, Type>) -> (r: FnSig)
    ensures
        r.deep_view() == sig_subst(sig.deep_view(), m@),
{
    let ghost s = sig.deep_view();
    let mut params: Vec<ParamSig> = Vec::new();
    let mut i: usize = 0;
    while i < sig.params.len()
        invariant
            i <= sig.params.len(),
            s == sig.deep_view(),
            params.len() == i,
            forall|j: int|
                0 <= j < i ==> (#[trigger] params@[j]).deep_view() == (PSig {
                    ty: subst(s.params[j].ty, m@),
                    ..s.params[j]
                }),
        decreases sig.params.len() - i,
    {
        params.push(
            ParamSig {
                name: sig.params[i].name.clone(),
                mutable: sig.params[i].mutable,
                variadic: sig.params[i].variadic,
                ty: substitute_generic(&sig.params[i].ty, m),
            },
        );
        i += 1;
    }
    let mut generics: Vec<(Symbol, Vec<GenericBound>)> = Vec::new();
    let mut k: usize = 0;
    while k < sig.generics.len()
        invariant
            k <= sig.generics.len(),
            s == sig.deep_view(),
            generics.len() == k,
            forall|j: int|
                0 <= j < k ==> (#[trigger] generics@[j]).deep_view() == (
                    s.generics[j].0,
                    bounds_subst(s.generics[j].1, m@),
                ),
        decreases sig.generics.len() - k,
    {
        generics.push((sig.generics[k].0.clone(), bounds_substituted(&sig.generics[k].1, m)));
        k += 1;
    }
    let mut r = sig.dup();
    r.params = params;
    r.generics = generics;
    r.ret = substitute_generic(&sig.ret, m);
    proof {
        assert(r.deep_view().params =~= sig_subst(s, m@).params);
        assert(r.deep_view().generics =~= sig_subst(s, m@).generics);
    }
    r
}

fn same_params(a: &Vec<ParamSig>, b: &Vec<ParamSig>) -> (r: bool)
    ensures
        r == params_match(a.deep_view(), b.deep_view()),
{
    let ghost x = a.deep_view();
    let ghost y = b.deep_view();
    let mut i: usize = 0;
    while i < a.len() && i < b.len()
        invariant
            i <= a.len(),
            x == a.deep_view(),
            y == b.deep_view(),
            forall|j: int| #![trigger x[j]] 0 <= j < i ==> x[j].mutable == y[j].mutable && x[j].ty == y[j].ty,
        decreases a.len() - i,
    {
        if a[i].mutable != b[i].mutable || !a[i].ty.same(&b[i].ty) {
            assert(!(x[i as int].mutable == y[i as int].mutable && x[i as int].ty == y[i as int].ty));
            return false;
        }
        i += 1;
    }
    true
}

/// Whether a method's signature is the required one.
pub fn method_signatures_match(actual: &FnSig, required: &FnSig) -> (r: bool)
    ensures
        r == sigs_match(actual.deep_view(), required.deep_view()),
{
    actual.self_param.same(&required.self_param) && actual.is_async == required.is_async && actual.params.len()
        == required.params.len() && actual.generics.len() == required.generics.len() && same_params(
        &actual.params,
        &required.params,
    ) && actual.ret.same(&required.ret)
}

// ---------------------------------------------------------------------
// Owners
// ---------------------------------------------------------------------

/// The generic parameters that an owner's declaration gives.
pub open spec fn declared_params(sc: Sc, owner: DefId) -> Seq<GenericParam> {
    match sc.struct_decl(owner) {
        Some(t) => t.generics@,
        None => match sc.enum_decl(owner) {
            Some(e) => e.generics@,
            None => Seq::empty(),
        },
    }
}

/// The declared parameters as types.
pub open spec fn as_parameters(names: Seq<Seq<char>>) -> Seq<Ty> {
    Seq::new(names.len(), |i: int| Ty::Generic(names[i]))
}

/// An owner with these arguments as a type.
pub open spec fn owner_type(sc: Sc, id: DefId, args: Seq<Ty>) -> Ty {
    if sc.name(id) == "Array"@ {
        Ty::Array(Box::new(if args.len() > 0 { args[0] } else { Ty::Error }))
    } else if sc.defs().kind_of(id) is Enum {
        Ty::Enum(id, args)
    } else {
        nominal_type(sc, id, args)
    }
}

/// An owner as a type, in terms of its declared parameters.
pub open spec fn declared_owner_type(sc: Sc, id: DefId) -> Ty {
    owner_type(sc, id, as_parameters(param_names(declared_params(sc, id))))
}

/// The names of bounded parameters.
pub open spec fn names_in(ps: Params) -> Seq<Seq<char>> {
    Seq::new(ps.len(), |i: int| ps[i].0)
}

/// The name of the impl parameter that an argument is.
pub open spec fn impl_parameter(b: ImplBlock, arg: TypeExpr) -> Option<Seq<char>> {
    match arg {
        TypeExpr::Named { path, generics, span: _ } => if generics@.len() == 0 && path.segments@.len() == 1
            && param_names(b.generics@).contains(path.segments@[0].name@) {
            Some(path.segments@[0].name@)
        } else {
            None
        },
        _ => None,
    }
}

/// The impl parameters in the order of the target's arguments from the
/// `i`-th on, after `acc`, and whether all arguments are in order.
pub open spec fn ordered_params(b: ImplBlock, i: int, acc: Seq<Seq<char>>, ok: bool, d: Seq<Diag>) -> (
    Seq<Seq<char>>,
    bool,
    Seq<Diag>,
)
    decreases b.target_args@.len() - i,
{
    if 0 <= i < b.target_args@.len() {
        let arg = b.target_args@[i];
        let named = impl_parameter(b, arg);
        if named is Some && !acc.contains(named->0) {
            ordered_params(b, i + 1, acc.push(named->0), ok, d)
        } else {
            ordered_params(
                b,
                i + 1,
                acc,
                false,
                d.push(
                    diag(
                        "an explicit `impl<...> Target<...>` argument list must name each of the impl's own generic parameters exactly once (no concrete types, no repeats)"@,
                        crate::ast::type_span(arg),
                        "not one of this impl's generic parameters"@,
                    ),
                ),
            )
        }
    } else {
        (acc, ok, d)
    }
}

/// The first generic parameter with this name from the `i`-th on.
pub open spec fn param_named(gs: Seq<GenericParam>, name: Seq<char>, i: int) -> Option<GenericParam>
    decreases gs.len() - i,
{
    if 0 <= i < gs.len() {
        if gs[i].name.name@ == name {
            Some(gs[i])
        } else {
            param_named(gs, name, i + 1)
        }
    } else {
        None
    }
}

/// The named parameters with their bounds from the `i`-th on, after `acc`.
pub open spec fn renamed_params(sc: Sc, gs: Seq<GenericParam>, names: Seq<Seq<char>>, i: int, acc: Params, d: Seq<Diag>) -> (
    Params,
    Seq<Diag>,
)
    decreases names.len() - i,
{
    if 0 <= i < names.len() {
        match param_named(gs, names[i], 0) {
            Some(g) => {
                let (bounds, d1) = lowered_bounds(sc, g.bounds@, 0, Seq::empty(), d);
                renamed_params(sc, gs, names, i + 1, acc.push((names[i], bounds)), d1)
            },
            None => renamed_params(sc, gs, names, i + 1, acc.push((names[i], Seq::empty())), d),
        }
    } else {
        (acc, d)
    }
}

/// The owner's parameters under `impl<T> Target<T>`: the impl's own ones in
/// the order in which the target takes them.
pub open spec fn explicit_params(sc: Sc, b: ImplBlock, owner: DefId, d: Seq<Diag>) -> (Params, Seq<Diag>) {
    let expected = declared_params(sc, owner).len();
    if b.target_args@.len() != expected {
        bounded_params_from(
            sc,
            b.generics@,
            0,
            Seq::empty(),
            d.push(
                diag(arity_message(sc.name(owner), expected, b.target_args@.len()), b.span, "in this `impl` block"@),
            ),
        )
    } else {
        let (names, ok, d1) = ordered_params(b, 0, Seq::empty(), true, d);
        if !ok {
            bounded_params_from(sc, b.generics@, 0, Seq::empty(), d1)
        } else if names.len() != b.generics@.len() {
            bounded_params_from(
                sc,
                b.generics@,
                0,
                Seq::empty(),
                d1.push(
                    diag(
                        "every one of this `impl`'s generic parameters must appear in `"@ + sc.name(owner) + "<...>`"@,
                        b.span,
                        "in this `impl` block"@,
                    ),
                ),
            )
        } else {
            renamed_params(sc, b.generics@, names, 0, Seq::empty(), d1)
        }
    }
}

/// The owner's parameters in an impl block: explicit ones, else the declared
/// ones, none for a specialization.
pub open spec fn impl_params(sc: Sc, b: ImplBlock, owner: DefId, d: Seq<Diag>) -> (Params, Seq<Diag>) {
    if b.generics@.len() > 0 {
        explicit_params(sc, b, owner, d)
    } else if b.target_args@.len() == 0 {
        bounded_params_from(sc, declared_params(sc, owner), 0, Seq::empty(), d)
    } else {
        (Seq::empty(), d)
    }
}

/// The concrete owner arguments of a specializing impl block.
pub open spec fn specialization_args(sc: Sc, b: ImplBlock, owner: DefId, d: Seq<Diag>) -> (Option<Seq<Ty>>, Seq<Diag>) {
    let expected = declared_params(sc, owner).len();
    if b.generics@.len() > 0 || b.target_args@.len() == 0 {
        (None, d)
    } else if b.target_args@.len() != expected {
        (
            None,
            d.push(
                diag(arity_message(sc.name(owner), expected, b.target_args@.len()), b.span, "in this `impl` block"@),
            ),
        )
    } else {
        let (args, d1) = lowered_all(sc, b.target_args@, 0, Seq::empty(), d);
        (Some(args), d1)
    }
}

/// The owner's arguments that an impl block is for alone; none if it is for
/// all.
pub open spec fn concrete_args(sc: Sc, b: ImplBlock, owner: DefId) -> Option<Seq<Ty>> {
    specialization_args(sc, b, owner, Seq::empty()).0
}

/// Whether a specialization's signature is that of the general method with
/// the owner's arguments filled in.
pub open spec fn specialization_fits(sc: Sc, owner: DefId, general: Sig, args: Seq<Ty>, concrete: Sig) -> bool {
    let arity = declared_params(sc, owner).len();
    general.self_param == concrete.self_param && general.params.len() == concrete.params.len()
        && general.generics.len() == arity + concrete.generics.len() && {
        let expected = sig_subst(general, zip_subst(names_in(general.generics.take(arity as int)), args));
        params_match(expected.params, concrete.params) && expected.ret == concrete.ret
    }
}

/// The names of bounded parameters.
pub fn bounded_names(ps: &Vec<(Symbol, Vec<GenericBound>)>, n: usize) -> (r: Vec<Symbol>)
    requires
        n <= ps.len(),
    ensures
        r.deep_view() == names_in(ps.deep_view().take(n as int)),
{
    let mut out: Vec<Symbol> = Vec::new();
    let mut i: usize = 0;
    while i < n
        invariant
            i <= n,
            n <= ps.len(),
            out.len() == i,
            forall|j: int| 0 <= j < i ==> (#[trigger] out@[j])@ == ps@[j].0@,
        decreases n - i,
    {
        out.push(ps[i].0.clone());
        i += 1;
    }
    proof {
        assert(out.deep_view() =~= names_in(ps.deep_view().take(n as int)));
    }
    out
}

/// The names as types.
pub fn parameter_types(names: &Vec<Symbol>) -> (r: Vec<Type>)
    ensures
        tys(r@) == as_parameters(names.deep_view()),
{
    let mut out: Vec<Type> = Vec::new();
    let mut i: usize = 0;
    while i < names.len()
        invariant
            i <= names.len(),
            out.len() == i,
            forall|j: int| 0 <= j < i ==> crate::ty::ty_view(#[trigger] out@[j]) == Ty::Generic(names@[j]@),
        decreases names.len() - i,
    {
        out.push(Type::parameter(&names[i]));
        i += 1;
    }
    proof {
        assert(tys(out@) =~= as_parameters(names.deep_view()));
    }
    out
}

impl<'a> Scope<'a> {
    /// The generic parameters that an owner's declaration gives.
    pub fn owner_declared_params(&self, owner: DefId) -> (r: Option<&'a Vec<GenericParam>>)
        ensures
            declared_params(self@, owner) == (match r {
                Some(gs) => gs@,
                None => Seq::<GenericParam>::empty(),
            }),
    {
        match self.struct_decl(owner) {
            Some(t) => Some(&t.generics),
            None => match self.enum_decl(owner) {
                Some(e) => Some(&e.generics),
                None => None,
            },
        }
    }

    /// The number of type arguments that an owner takes.
    pub fn owner_arity(&self, owner: DefId) -> (r: usize)
        ensures
            r == declared_params(self@, owner).len(),
    {
        match self.owner_declared_params(owner) {
            Some(gs) => gs.len(),
            None => 0,
        }
    }

    /// The owner's declared parameters with their bounds.
    pub fn owner_generic_params(&self, owner: DefId, diags: &mut Vec<Diagnostic>) -> (r: Vec<(Symbol, Vec<GenericBound>)>)
        ensures
            (r.deep_view(), final(diags).deep_view()) == bounded_params_from(
                self@,
                declared_params(self@, owner),
                0,
                Seq::empty(),
                old(diags).deep_view(),
            ),
    {
        match self.owner_declared_params(owner) {
            Some(gs) => self.bounded_params(gs, diags),
            None => no_params(),
        }
    }

    /// An owner with these arguments as a type.
    pub fn owner_with_args(&self, id: DefId, args: Vec<Type>) -> (r: Type)
        ensures
            r@ == owner_type(self@, id, tys(args@)),
    {
        if str_eq(self.names.definitions.name(id), "Array") {
            let element = if args.len() > 0 {
                args[0].clone()
            } else {
                Type::Error
            };
            return Type::array(element);
        }
        match self.names.definitions.kind(id) {
            DefKind::Enum => Type::Enum(id, args),
            _ => self.nominal(id, args),
        }
    }

    /// An owner as a type, in terms of its declared parameters.
    pub fn owner_as_type(&self, id: DefId) -> (r: Type)
        ensures
            r@ == declared_owner_type(self@, id),
    {
        let names = match self.owner_declared_params(id) {
            Some(gs) => crate::declarations::generic_names(gs),
            None => crate::sig::names_of(None),
        };
        proof {
            assert(names.deep_view() =~= param_names(declared_params(self@, id)));
        }
        self.owner_with_args(id, parameter_types(&names))
    }

    /// An owner as a type, in terms of these parameters.
    pub fn owner_as_type_from_generics(&self, id: DefId, ps: &Vec<(Symbol, Vec<GenericBound>)>) -> (r: Type)
        ensures
            r@ == owner_type(self@, id, as_parameters(names_in(ps.deep_view()))),
    {
        let names = bounded_names(ps, ps.len());
        proof {
            assert(ps.deep_view().take(ps.len() as int) =~= ps.deep_view());
        }
        self.owner_with_args(id, parameter_types(&names))
    }

    fn explicit_impl_owner_generics(&self, b: &ImplBlock, owner: DefId, diags: &mut Vec<Diagnostic>) -> (r: Vec<(Symbol, Vec<GenericBound>)>)
        ensures
            (r.deep_view(), final(diags).deep_view()) == explicit_params(self@, *b, owner, old(diags).deep_view()),
    {
        let expected: usize = self.owner_arity(owner);
        let owner_name = self.names.definitions.name(owner);
        if b.target_args.len() != expected {
            let message = arity_text(owner_name, expected, b.target_args.len());
            report(diags, message.as_str(), b.span, "in this `impl` block");
            return self.bounded_params(&b.generics, diags);
        }
        let mut ordered: Vec<Symbol> = Vec::new();
        let mut ok: bool = true;
        let own = crate::declarations::generic_names(&b.generics);
        proof {
            assert(ordered.deep_view() =~= Seq::empty());
        }
        let mut i: usize = 0;
        while i < b.target_args.len()
            invariant
                i <= b.target_args.len(),
                own.deep_view() == param_names(b.generics@),
                ordered_params(*b, i as int, ordered.deep_view(), ok, diags.deep_view()) == ordered_params(
                    *b,
                    0,
                    Seq::empty(),
                    true,
                    old(diags).deep_view(),
                ),
            decreases b.target_args.len() - i,
        {
            let named = match &b.target_args[i] {
                TypeExpr::Named { path, generics, span: _ } => if generics.len() == 0 && path.segments.len() == 1
                    && occurs(&own, &path.segments[0].name) {
                    Some(path.segments[0].name.clone())
                } else {
                    None
                },
                _ => None,
            };
            let fresh = match &named {
                Some(name) => !occurs(&ordered, name),
                None => false,
            };
            match named {
                Some(name) if fresh => {
                    put(&mut ordered, name);
                },
                _ => {
                    ok = false;
                    report(
                        diags,
                        "an explicit `impl<...> Target<...>` argument list must name each of the impl's own generic parameters exactly once (no concrete types, no repeats)",
                        b.target_args[i].span(),
                        "not one of this impl's generic parameters",
                    );
                },
            }
            i += 1;
        }
        if ok && ordered.len() != b.generics.len() {
            ok = false;
            let message = cat3(
                "every one of this `impl`'s generic parameters must appear in `",
                owner_name,
                "<...>`",
            );
            report(diags, message.as_str(), b.span, "in this `impl` block");
        }
        if !ok {
            return self.bounded_params(&b.generics, diags);
        }
        self.rename_params(&b.generics, &ordered, diags)
    }

    fn rename_params(&self, gs: &Vec<GenericParam>, names: &Vec<Symbol>, diags: &mut Vec<Diagnostic>) -> (r: Vec<(Symbol, Vec<GenericBound>)>)
        ensures
            (r.deep_view(), final(diags).deep_view()) == renamed_params(
                self@,
                gs@,
                names.deep_view(),
                0,
                Seq::empty(),
                old(diags).deep_view(),
            ),
    {
        let mut out = no_params();
        let mut i: usize = 0;
        while i < names.len()
            invariant
                i <= names.len(),
                renamed_params(self@, gs@, names.deep_view(), i as int, out.deep_view(), diags.deep_view())
                    == renamed_params(self@, gs@, names.deep_view(), 0, Seq::empty(), old(diags).deep_view()),
            decreases names.len() - i,
        {
            let bounds = match find_param(gs, &names[i]) {
                Some(g) => self.lower_bounds(&g.bounds, diags),
                None => no_bounds(),
            };
            put(&mut out, (names[i].clone(), bounds));
            i += 1;
        }
        out
    }

    /// The owner's parameters in an impl block.
    pub fn owner_generics_for_impl(&self, b: &ImplBlock, owner: DefId, diags: &mut Vec<Diagnostic>) -> (r: Vec<(Symbol, Vec<GenericBound>)>)
        ensures
            (r.deep_view(), final(diags).deep_view()) == impl_params(self@, *b, owner, old(diags).deep_view()),
    {
        if b.generics.len() > 0 {
            self.explicit_impl_owner_generics(b, owner, diags)
        } else if b.target_args.len() == 0 {
            self.owner_generic_params(owner, diags)
        } else {
            no_params()
        }
    }

    /// The concrete owner arguments of a specializing impl block.
    pub fn impl_specialization_args(&self, b: &ImplBlock, owner: DefId, diags: &mut Vec<Diagnostic>) -> (r: Option<Vec<Type>>)
        ensures
            (r.deep_view(), final(diags).deep_view()) == specialization_args(self@, *b, owner, old(diags).deep_view()),
    {
        if b.generics.len() > 0 || b.target_args.len() == 0 {
            return None;
        }
        let expected: usize = self.owner_arity(owner);
        if b.target_args.len() != expected {
            let message = arity_text(self.names.definitions.name(owner), expected, b.target_args.len());
            report(diags, message.as_str(), b.span, "in this `impl` block");
            return None;
        }
        Some(self.lower_types(&b.target_args, diags))
    }

    /// Whether a specialization's signature is that of the general method.
    pub fn specialization_matches_generic(&self, owner: DefId, general: &FnSig, args: &Vec<Type>, concrete: &FnSig) -> (r: bool)
        ensures
            r == specialization_fits(
                self@,
                owner,
                general.deep_view(),
                args.deep_view(),
                concrete.deep_view(),
            ),
    {
        let arity: usize = self.owner_arity(owner);
        if !general.self_param.same(&concrete.self_param) || general.params.len() != concrete.params.len() {
            return false;
        }
        if general.generics.len() < concrete.generics.len() || general.generics.len() - concrete.generics.len() != arity {
            return false;
        }
        let names = bounded_names(&general.generics, arity);
        let m = zip_types(&names, args);
        let expected = specialize_fn_sig(general, &m);
        same_params(&expected.params, &concrete.params) && expected.ret.same(&concrete.ret)
    }
}

/// No generic parameters.
pub fn no_params() -> (r: Vec<(Symbol, Vec<GenericBound>)>)
    ensures
        r.deep_view() == Seq::<(Seq<char>, Seq<Bound>)>::empty(),
{
    let r: Vec<(Symbol, Vec<GenericBound>)> = Vec::new();
    proof {
        assert(r.deep_view() =~= Seq::<(Seq<char>, Seq<Bound>)>::empty());
    }
    r
}

/// No bounds.
pub fn no_bounds() -> (r: Vec<GenericBound>)
    ensures
        r.deep_view() == Seq::<Bound>::empty(),
{
    let r: Vec<GenericBound> = Vec::new();
    proof {
        assert(r.deep_view() =~= Seq::<Bound>::empty());
    }
    r
}

fn find_param<'b>(gs: &'b Vec<GenericParam>, name: &Symbol) -> (r: Option<&'b GenericParam>)
    ensures
        r matches Some(g) ==> param_named(gs@, name@, 0) == Some(*g),
        r is None ==> param_named(gs@, name@, 0) is None,
{
    let mut i: usize = 0;
    while i < gs.len()
        invariant
            i <= gs.len(),
            param_named(gs@, name@, i as int) == param_named(gs@, name@, 0),
        decreases gs.len() - i,
    {
        if gs[i].name.name == *name {
            return Some(&gs[i]);
        }
        i += 1;
    }
    None
}

} // verus!
