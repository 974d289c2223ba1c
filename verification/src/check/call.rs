//! Checking of paths, calls and constructors.
use crate::ast::{
    args_size, expr_size, exprs_size, fields_size, lemma_exprs_size, lemma_exprs_tail, Expr, ExprKind, FieldInit, Ident,
    Path,
};
use crate::check::borrows::{bound_method_index, method_args, methods_on, owner_args};
use crate::check::facts::{arg_count_text, field_named, is_hidden, is_private_field};
use crate::check::model::{
    array_method, bound_consts, call, call_args, call_value, conversion, ctor_args, declared_method, def_value,
    expected_args, fixed_arg, fixed_args, fn_type, fn_value, free_args, free_fields, hash_args, idle_args, idle_fields, idle_list, initialized, inner_expected, lemma_plain_arg,
    literal_fields, method_call, missing_fields, no_method, owner_const, parameter_const, parameter_method, path_rest,
    plain_arg, print_args, receiver_checked, receiver_choice, static_member, struct_literal,
    trait_method, type_value, value_args, value_path, variadic_args, variant_value,
};
use crate::check::rules::variadic;
use crate::check::state::{Checker, Cx};
use crate::check::steps::{
    call_result_type, chosen, fixed_count, is_variadic, mut_disagreement,
};
use crate::datum::{lemma_deep_len, occurs, put, Datum, Dup};
use crate::ids::{DefId, LocalId, NodeId, SelfParam, Span, Symbol};
use crate::names::{DefKind, PathResolution, Resolution};
use crate::owners::{bounded_names, parameter_types, specialize_fn_sig};
use crate::sig::{FnSig, GenericBound, MethodSet, TypeShape};
use crate::subst::{collect_all_bindings, collect_generic_bindings, infer, substitute_generic, zip_types};
use crate::table::Table;
use crate::text::{cat2, cat3, cat4, cat5, count};
use crate::ty::{group_tys, one_type, str_eq, tys, PrimitiveKind, Type};
use vstd::prelude::*;

verus! {

broadcast use group_tys, lemma_deep_len;

/// The expressions of an argument list.
pub open spec fn listed(args: Option<&Vec<Expr>>) -> Option<Seq<Expr>> {
    match args {
        Some(xs) => Some(xs@),
        None => None,
    }
}

impl Checker {
    /// Checks a call.
    pub fn check_call(&mut self, cx: &Cx<'_>, id: NodeId, callee: &Expr, gargs: &Vec<Type>, args: &Vec<Expr>, expected: Option<&Type>) -> (r: Type)
        ensures
            (final(self)@, r@) == call(
                cx@,
                old(self)@,
                id,
                *callee,
                gargs.deep_view(),
                args@,
                expected.deep_view(),
            ),
        decreases expr_size(*callee) + exprs_size(args@, 0), 10nat,
    {
        match &callee.kind {
            ExprKind::Path(path) => {
                let t = self.check_value_path(cx, path, Some(args), expected, Some(id), gargs);
                self.set_type(callee.id, t.clone());
                t
            },
            _ => {
                if gargs.len() > 0 {
                    self.err(
                        callee.span,
                        "explicit generic arguments require a named function or method",
                    );
                }
                let t = self.check_expr_with_expected(cx, callee, None);
                self.check_call_value(cx, &t, args, callee.span)
            },
        }
    }

    fn check_value_args(&mut self, cx: &Cx<'_>, params: &Vec<Type>, args: &Vec<Expr>)
        ensures
            final(self)@ == value_args(cx@, old(self)@, params.deep_view(), args@, 0, Map::empty()),
        decreases exprs_size(args@, 0), 1nat,
    {
        let mut borrowed: Table<LocalId, bool> = Table::new();
        let ghost ps = params.deep_view();
        let mut i: usize = 0;
        while i < args.len() && i < params.len()
            invariant
                i <= args.len(),
                ps == params.deep_view(),
                exprs_size(args@, i as int) <= exprs_size(args@, 0),
                value_args(cx@, self@, ps, args@, i as int, borrowed@) == value_args(
                    cx@,
                    old(self)@,
                    ps,
                    args@,
                    0,
                    Map::empty(),
                ),
            decreases args.len() - i,
        {
            let p = &params[i];
            assert(ps[i as int] == p@);
            let t = if p.is_reference() {
                self.check_borrow_arg(cx, &args[i], p, &mut borrowed)
            } else {
                self.check_expr_with_expected(cx, &args[i], Some(p))
            };
            if !t.compatible(p) {
                let message = cx.mismatch_text(p, &t);
                self.err(args[i].span, message.as_str());
            }
            i += 1;
        }
    }

    fn check_call_value(&mut self, cx: &Cx<'_>, t: &Type, args: &Vec<Expr>, span: Span) -> (r: Type)
        ensures
            (final(self)@, r@) == call_value(cx@, old(self)@, t@, args@, span),
        decreases exprs_size(args@, 0), 4nat,
    {
        match t {
            Type::Function(params, ret) => {
                assert(params.deep_view().len() == params.len());
                if args.len() != params.len() {
                    let message = arg_count_text(params.len(), args.len());
                    self.err(span, message.as_str());
                }
                self.check_value_args(cx, params, args);
                (**ret).clone()
            },
            Type::Error => {
                self.check_idle_args(cx, args);
                Type::Error
            },
            _ => {
                let described = cx.describe(t);
                let message = cat3("`", described.as_str(), "` is not callable");
                self.err(span, message.as_str());
                Type::Error
            },
        }
    }

    fn parameter_constant(&mut self, cx: &Cx<'_>, generic: &Ident, constant: &Ident) -> (r: Type)
        ensures
            (final(self)@, r@) == parameter_const(cx@, old(self)@, *generic, *constant),
    {
        proof {
            reveal(parameter_const);
        }
        let bs = match self.bounds(&generic.name) {
            Some(bs) => bs.dup(),
            None => crate::owners::no_bounds(),
        };
        let ghost all = bs.deep_view();
        let mut found: Vec<Type> = Vec::new();
        proof {
            assert(found.deep_view() =~= Seq::empty());
        }
        let mut i: usize = 0;
        while i < bs.len()
            invariant
                i <= bs.len(),
                all == bs.deep_view(),
                bound_consts(cx@, all, constant.name@, i as int, found.deep_view()) == bound_consts(
                    cx@,
                    all,
                    constant.name@,
                    0,
                    Seq::empty(),
                ),
            decreases bs.len() - i,
        {
            assert(all[i as int] == bs@[i as int].deep_view());
            let key: (DefId, Symbol) = (bs[i].trait_id, constant.name.clone());
            if let Some(sig) = cx.sigs.trait_associated_consts.get(&key) {
                let names = cx.sigs.generics_of_trait(bs[i].trait_id);
                let m = zip_types(&names, &bs[i].args);
                put(&mut found, substitute_generic(&sig.ty, &m));
            }
            i += 1;
        }
        if found.len() == 1 {
            assert(found.deep_view()[0] == found@[0]@);
            found[0].clone()
        } else if found.len() == 0 {
            let message = cat5(
                "generic parameter `",
                generic.name.as_str(),
                "` has no associated constant `",
                constant.name.as_str(),
                "` in its bounds",
            );
            self.err(constant.span, message.as_str());
            Type::Error
        } else {
            let message = cat5(
                "associated constant `",
                constant.name.as_str(),
                "` is ambiguous across bounds of `",
                generic.name.as_str(),
                "`",
            );
            self.err(constant.span, message.as_str());
            Type::Error
        }
    }

    fn owner_constant(&mut self, cx: &Cx<'_>, owner: DefId, idx: u32, span: Span) -> (r: Option<Type>)
        ensures
            match r {
                Some(t) => owner_const(cx@, old(self)@, owner, idx, span) == Some((final(self)@, t@)),
                None => owner_const(cx@, old(self)@, owner, idx, span) is None && final(self)@ == old(self)@,
            },
    {
        proof {
            reveal(owner_const);
        }
        let name = match cx.scope.names.definitions.constant_name(owner, idx) {
            Some(name) => name,
            None => {
                return None;
            },
        };
        let key: (DefId, Symbol) = (owner, name.clone());
        match cx.sigs.associated_consts.get(&key) {
            None => None,
            Some(sig) => {
                if is_hidden(sig.file, sig.visibility, span) {
                    let message = cat3("associated constant `", name.as_str(), "` is private");
                    self.err(span, message.as_str());
                }
                Some(sig.ty.clone())
            },
        }
    }

    fn check_path_rest(
        &mut self,
        cx: &Cx<'_>,
        path: &Path,
        res: PathResolution,
        t: Type,
        args: Option<&Vec<Expr>>,
        id: Option<NodeId>,
        gargs: &Vec<Type>,
    ) -> (r: Type)
        ensures
            (final(self)@, r@) == path_rest(
                cx@,
                old(self)@,
                *path,
                res,
                t@,
                listed(args),
                id,
                gargs.deep_view(),
            ),
        decreases args_size(listed(args)), 5nat,
    {
        let total: usize = path.segments.len();
        match args {
            Some(xs) => {
                if res.consumed >= total {
                    return t;
                }
                let t1 = self.read_path_fields(cx, path, res.consumed, total - 1, t);
                let (local, mutable) = match res.base {
                    Resolution::Local(l) => (
                        if total - res.consumed == 1 {
                            Some(l)
                        } else {
                            None
                        },
                        match self.local(l) {
                            Some(entry) => Some(entry.1),
                            None => None,
                        },
                    ),
                    _ => (None, None),
                };
                self.check_method_call_on(cx, &t1, &path.segments[total - 1], gargs, xs, id, mutable, local)
            },
            None => self.read_path_fields(cx, path, res.consumed, total, t),
        }
    }

    /// Checks a path in value position, called or not.
    pub fn check_value_path(
        &mut self,
        cx: &Cx<'_>,
        path: &Path,
        args: Option<&Vec<Expr>>,
        expected: Option<&Type>,
        id: Option<NodeId>,
        gargs: &Vec<Type>,
    ) -> (r: Type)
        ensures
            (final(self)@, r@) == value_path(
                cx@,
                old(self)@,
                *path,
                listed(args),
                expected.deep_view(),
                id,
                gargs.deep_view(),
            ),
        decreases args_size(listed(args)), 6nat,
    {
        let total: usize = path.segments.len();
        let res = match cx.scope.names.path_of(path.id) {
            Some(res) => res,
            None => {
                self.check_idle_list(cx, args);
                return Type::Error;
            },
        };
        let direct = if res.consumed >= total {
            args
        } else {
            None
        };
        match res.base {
            Resolution::GenericParam => {
                if total == 2 && args.is_none() {
                    return self.parameter_constant(cx, &path.segments[0], &path.segments[1]);
                }
                self.check_idle_list(cx, direct);
                self.check_path_rest(cx, path, res, Type::Error, args, id, gargs)
            },
            Resolution::Local(local) => {
                let t = match self.local(local) {
                    Some(l) => l.0.clone(),
                    None => Type::Error,
                };
                self.check_move(local, &t, path.span, res.consumed == total);
                self.note_local_use(local);
                if let Some(xs) = direct {
                    if gargs.len() > 0 {
                        self.err(
                            path.span,
                            "explicit generic arguments cannot be applied to a function value",
                        );
                    }
                    return self.check_call_value(cx, &t, xs, path.span);
                }
                let read = cx.local_reads_as(t, res.consumed == total, expected);
                self.check_path_rest(cx, path, res, read, args, id, gargs)
            },
            Resolution::Def(def) => {
                let t = self.resolve_def_value(cx, def, path.span, direct, expected, id, gargs);
                self.check_path_rest(cx, path, res, t, args, id, gargs)
            },
            Resolution::EnumVariant(enum_id, idx) => {
                if gargs.len() > 0 {
                    self.err(path.span, "enum variants do not accept function generic arguments");
                }
                let t = self.enum_variant_value_type(cx, enum_id, idx, path.span, direct, expected);
                self.check_path_rest(cx, path, res, t, args, id, gargs)
            },
            Resolution::StaticMember(owner, idx) => {
                let t = self.static_member_call_or_value(cx, owner, idx, path.span, direct, id, gargs);
                self.check_path_rest(cx, path, res, t, args, id, gargs)
            },
            Resolution::StaticConst(owner, idx) => {
                if args.is_some() || gargs.len() > 0 {
                    self.err(path.span, "an associated constant cannot be called");
                }
                match self.owner_constant(cx, owner, idx, path.span) {
                    None => Type::Error,
                    Some(t) => self.check_path_rest(cx, path, res, t, args, id, gargs),
                }
            },
            Resolution::ConstParam => {
                let t = if total > 0 {
                    match self.const_generic(&path.segments[0].name) {
                        Some(t) => t.clone(),
                        None => Type::Error,
                    }
                } else {
                    Type::Error
                };
                self.check_idle_list(cx, direct);
                self.check_path_rest(cx, path, res, t, args, id, gargs)
            },
            Resolution::Error => {
                self.check_idle_list(cx, direct);
                self.check_path_rest(cx, path, res, Type::Error, args, id, gargs)
            },
        }
    }

    fn resolve_def_value(
        &mut self,
        cx: &Cx<'_>,
        def: DefId,
        span: Span,
        args: Option<&Vec<Expr>>,
        expected: Option<&Type>,
        id: Option<NodeId>,
        gargs: &Vec<Type>,
    ) -> (r: Type)
        ensures
            (final(self)@, r@) == def_value(
                cx@,
                old(self)@,
                def,
                span,
                listed(args),
                expected.deep_view(),
                id,
                gargs.deep_view(),
            ),
        decreases args_size(listed(args)), 4nat,
    {
        let name = cx.name_of(def);
        match cx.scope.names.definitions.kind(def) {
            DefKind::Primitive | DefKind::TypeAlias => {
                let message = cat3("`", name, "` is a type, not a value");
                self.err(span, message.as_str());
                Type::Error
            },
            DefKind::Trait => {
                let message = cat3("`", name, "` is a trait and has no value form");
                self.err(span, message.as_str());
                Type::Error
            },
            DefKind::Imported => {
                self.check_idle_list(cx, args);
                Type::Error
            },
            DefKind::Enum => {
                let message = cat3("`", name, "` is an enum type, not a value — use one of its variants");
                self.err(span, message.as_str());
                Type::Error
            },
            DefKind::Fn => self.resolve_fn_value(cx, def, span, args, expected, id, gargs),
            DefKind::Type => {
                if gargs.len() > 0 {
                    self.err(span, "type constructors do not accept function generic arguments");
                }
                self.resolve_type_value(cx, def, span, args, expected)
            },
        }
    }

    fn check_print_args(&mut self, cx: &Cx<'_>, args: &Vec<Expr>)
        ensures
            final(self)@ == print_args(cx@, old(self)@, args@, 0),
        decreases exprs_size(args@, 0), 1nat,
    {
        let mut i: usize = 0;
        while i < args.len()
            invariant
                i <= args.len(),
                exprs_size(args@, i as int) <= exprs_size(args@, 0),
                print_args(cx@, self@, args@, i as int) == print_args(cx@, old(self)@, args@, 0),
            decreases args.len() - i,
        {
            let t = self.check_expr_with_expected(cx, &args[i], None);
            self.require_into_string(cx, &t, args[i].span);
            i += 1;
        }
    }

    fn check_hash_args(&mut self, cx: &Cx<'_>, args: &Vec<Expr>)
        ensures
            final(self)@ == hash_args(cx@, old(self)@, args@, 0),
        decreases exprs_size(args@, 0), 1nat,
    {
        let mut i: usize = 0;
        while i < args.len()
            invariant
                i <= args.len(),
                exprs_size(args@, i as int) <= exprs_size(args@, 0),
                hash_args(cx@, self@, args@, i as int) == hash_args(cx@, old(self)@, args@, 0),
            decreases args.len() - i,
        {
            let t = self.check_expr_with_expected(cx, &args[i], None);
            if !cx.sigs.can_derive_hash(&t, &cx.scope.names.definitions) {
                let described = cx.describe(&t);
                let message = cat3(
                    "cannot derive `Hash` for `",
                    described.as_str(),
                    "`: every field must be structurally hashable",
                );
                self.err(args[i].span, message.as_str());
            }
            i += 1;
        }
    }

    fn check_free_args(&mut self, cx: &Cx<'_>, args: &Vec<Expr>)
        ensures
            final(self)@ == free_args(cx@, old(self)@, args@, 0),
        decreases exprs_size(args@, 0), 1nat,
    {
        let mut i: usize = 0;
        while i < args.len()
            invariant
                i <= args.len(),
                exprs_size(args@, i as int) <= exprs_size(args@, 0),
                free_args(cx@, self@, args@, i as int) == free_args(cx@, old(self)@, args@, 0),
            decreases args.len() - i,
        {
            self.check_expr_with_expected(cx, &args[i], None);
            i += 1;
        }
    }

    fn check_idle_args(&mut self, cx: &Cx<'_>, args: &Vec<Expr>)
        ensures
            final(self)@ == idle_args(cx@, old(self)@, args@),
        decreases exprs_size(args@, 0), 2nat,
    {
        if self.is_clean() {
            self.check_free_args(cx, args);
        }
    }

    fn check_idle_list(&mut self, cx: &Cx<'_>, args: Option<&Vec<Expr>>)
        ensures
            final(self)@ == idle_list(cx@, old(self)@, listed(args)),
        decreases args_size(listed(args)), 2nat,
    {
        if let Some(xs) = args {
            if self.is_clean() {
                self.check_free_args(cx, xs);
            }
        }
    }

    fn resolve_fn_value(
        &mut self,
        cx: &Cx<'_>,
        def: DefId,
        span: Span,
        args: Option<&Vec<Expr>>,
        expected: Option<&Type>,
        id: Option<NodeId>,
        gargs: &Vec<Type>,
    ) -> (r: Type)
        ensures
            (final(self)@, r@) == fn_value(
                cx@,
                old(self)@,
                def,
                span,
                listed(args),
                expected.deep_view(),
                id,
                gargs.deep_view(),
            ),
        decreases args_size(listed(args)), 3nat,
    {
        let name = cx.name_of(def);
        if str_eq(name, "println") || str_eq(name, "print") {
            if gargs.len() > 0 {
                let message = cat3("builtin function `", name, "` is not generic");
                self.err(span, message.as_str());
            }
            return match args {
                Some(xs) => {
                    self.check_print_args(cx, xs);
                    Type::unit()
                },
                None => {
                    let message = cat3("`", name, "` must be called");
                    self.err(span, message.as_str());
                    Type::Error
                },
            };
        }
        if str_eq(name, "to") {
            return self.check_to_conversion(cx, span, args, expected, gargs);
        }
        if str_eq(name, "hash") {
            if gargs.len() > 0 {
                self.err(span, "builtin function `hash` is not generic");
            }
            return match args {
                None => {
                    self.err(span, "`hash` must be called");
                    Type::Error
                },
                Some(xs) => {
                    if xs.len() != 1 {
                        let n = count(xs.len());
                        let message = cat2("`hash` takes exactly 1 argument, found ", n.as_str());
                        self.err(span, message.as_str());
                    }
                    self.check_hash_args(cx, xs);
                    Type::Primitive(PrimitiveKind::U64)
                },
            };
        }
        match cx.sigs.fns.get(&def) {
            None => {
                self.check_idle_list(cx, args);
                Type::Error
            },
            Some(sig) => match args {
                Some(xs) => {
                    self.check_unsafe_call_permission(sig, span);
                    let m = self.check_call_args(cx, sig, xs, span, expected, Table::new(), gargs, id);
                    call_result_type(sig, substitute_generic(&sig.ret, &m))
                },
                None => {
                    if sig.generics.len() == 0 {
                        return value_type_of(sig);
                    }
                    let message = cat3(
                        "generic function `",
                        name,
                        "` cannot be used as a value because its type arguments cannot be inferred",
                    );
                    self.err(span, message.as_str());
                    Type::Error
                },
            },
        }
    }

    fn check_to_conversion(&mut self, cx: &Cx<'_>, span: Span, args: Option<&Vec<Expr>>, expected: Option<&Type>, gargs: &Vec<Type>) -> (r: Type)
        ensures
            (final(self)@, r@) == conversion(
                cx@,
                old(self)@,
                span,
                listed(args),
                expected.deep_view(),
                gargs.deep_view(),
            ),
        decreases args_size(listed(args)), 2nat,
    {
        if gargs.len() > 1 {
            let n = count(gargs.len());
            let message = cat2("`to<T>(value)` takes exactly 1 type argument, found ", n.as_str());
            self.err(span, message.as_str());
        }
        let xs = match args {
            Some(xs) => xs,
            None => {
                self.err(span, "`to` must be called");
                return Type::Error;
            },
        };
        if xs.len() != 1 {
            let n = count(xs.len());
            let message = cat2("`to` takes exactly 1 argument, found ", n.as_str());
            self.err(span, message.as_str());
            self.check_free_args(cx, xs);
            return Type::Error;
        }
        proof {
            lemma_exprs_size(xs@, 0, 0);
        }
        let target = if gargs.len() > 0 {
            assert(gargs.deep_view()[0] == gargs@[0]@);
            Some(gargs[0].clone())
        } else {
            match expected {
                Some(w) => Some(w.clone()),
                None => None,
            }
        };
        let t = match target {
            Some(t) => t,
            None => {
                self.err(span, "cannot infer the target type of `to(value)`; add a type annotation");
                self.check_expr_with_expected(cx, &xs[0], None);
                return Type::Error;
            },
        };
        if let Some(w) = expected {
            if gargs.len() > 0 && !t.compatible(w) {
                let a = cx.describe(&t);
                let b = cx.describe(w);
                let message = cat5(
                    "explicit `to` target `",
                    a.as_str(),
                    "` does not match expected type `",
                    b.as_str(),
                    "`",
                );
                self.err(span, message.as_str());
            }
        }
        let a = self.check_expr_with_expected(cx, &xs[0], Some(&t));
        self.check_converted(cx, &a, &t, xs[0].span);
        t
    }

    fn check_ctor_args(&mut self, cx: &Cx<'_>, args: &Vec<Expr>, ts: &Vec<Type>, m: &mut Table<Symbol, Type>)
        ensures
            (final(self)@, final(m)@) == ctor_args(cx@, old(self)@, args@, ts.deep_view(), 0, old(m)@),
        decreases exprs_size(args@, 0), 1nat,
    {
        let ghost tv = ts.deep_view();
        let mut i: usize = 0;
        while i < args.len() && i < ts.len()
            invariant
                i <= args.len(),
                tv == ts.deep_view(),
                exprs_size(args@, i as int) <= exprs_size(args@, 0),
                ctor_args(cx@, self@, args@, tv, i as int, m@) == ctor_args(
                    cx@,
                    old(self)@,
                    args@,
                    tv,
                    0,
                    old(m)@,
                ),
            decreases args.len() - i,
        {
            assert(tv[i as int] == ts@[i as int]@);
            let want = substitute_generic(&ts[i], m);
            let t = self.check_expr_with_expected(cx, &args[i], Some(&want));
            collect_generic_bindings(&ts[i], &t, m);
            let want = substitute_generic(&ts[i], m);
            if !t.compatible(&want) {
                let message = cx.mismatch_text(&want, &t);
                self.err(args[i].span, message.as_str());
            }
            i += 1;
        }
    }

    fn misused(&mut self, cx: &Cx<'_>, def: DefId, span: Span)
        ensures
            final(self)@ == old(self)@.fail(
                span,
                "`"@ + cx@.sc.name(def)
                    + "` cannot be used this way — construct it with `{ .. }` (struct) or `(..)` (tuple-struct) syntax matching its declaration"@,
            ),
    {
        let message = cat3(
            "`",
            cx.name_of(def),
            "` cannot be used this way — construct it with `{ .. }` (struct) or `(..)` (tuple-struct) syntax matching its declaration",
        );
        self.err(span, message.as_str());
    }

    fn resolve_type_value(&mut self, cx: &Cx<'_>, def: DefId, span: Span, args: Option<&Vec<Expr>>, expected: Option<&Type>) -> (r: Type)
        ensures
            (final(self)@, r@) == type_value(cx@, old(self)@, def, span, listed(args), expected.deep_view()),
        decreases args_size(listed(args)), 3nat,
    {
        let names = cx.sigs.generics_of(def);
        let mut m = args_of_expected(def, &names, expected);
        match cx.sigs.type_shapes.get(&def) {
            Some(TypeShape::Unit) => match args {
                None => Type::Struct(def, chosen(&names, &m)),
                Some(_) => {
                    self.misused(cx, def, span);
                    Type::Error
                },
            },
            Some(TypeShape::TupleStruct(ts)) => match args {
                Some(xs) => {
                    if xs.len() != ts.len() {
                        let message = arg_count_text(ts.len(), xs.len());
                        self.err(span, message.as_str());
                    }
                    self.check_ctor_args(cx, xs, ts, &mut m);
                    Type::TupleStruct(def, chosen(&names, &m))
                },
                None => {
                    self.misused(cx, def, span);
                    Type::Error
                },
            },
            _ => {
                self.misused(cx, def, span);
                Type::Error
            },
        }
    }

    fn enum_variant_value_type(&mut self, cx: &Cx<'_>, def: DefId, idx: u32, span: Span, args: Option<&Vec<Expr>>, expected: Option<&Type>) -> (r: Type)
        ensures
            (final(self)@, r@) == variant_value(
                cx@,
                old(self)@,
                def,
                idx,
                span,
                listed(args),
                expected.deep_view(),
            ),
        decreases args_size(listed(args)), 4nat,
    {
        let sig = match cx.sigs.enum_sigs.get(&def) {
            Some(sig) => sig,
            None => {
                self.err(span, "internal type information for this enum is unavailable");
                return Type::Error;
            },
        };
        let v: usize = idx as usize;
        if v >= sig.variants.len() {
            self.err(span, "unknown enum variant");
            return Type::Error;
        }
        assert(sig.deep_view().variants[v as int] == sig.variants@[v as int].deep_view());
        let payload = &sig.variants[v].1;
        let mut m = match expected {
            Some(Type::Enum(_, _)) => args_of_expected(def, &sig.generics, expected),
            _ => Table::new(),
        };
        if payload.len() > 0 {
            match args {
                Some(xs) => {
                    if xs.len() != payload.len() {
                        let a = count(payload.len());
                        let b = count(xs.len());
                        let message = cat4("variant expects ", a.as_str(), " argument(s), found ", b.as_str());
                        self.err(span, message.as_str());
                    }
                    self.check_ctor_args(cx, xs, payload, &mut m);
                },
                None => self.err(span, "this variant requires payload arguments"),
            }
        } else {
            self.check_idle_list(cx, args);
        }
        Type::Enum(def, chosen(&sig.generics, &m))
    }

    fn static_member_call_or_value(
        &mut self,
        cx: &Cx<'_>,
        owner: DefId,
        idx: u32,
        span: Span,
        args: Option<&Vec<Expr>>,
        id: Option<NodeId>,
        gargs: &Vec<Type>,
    ) -> (r: Type)
        ensures
            (final(self)@, r@) == static_member(
                cx@,
                old(self)@,
                owner,
                idx,
                span,
                listed(args),
                id,
                gargs.deep_view(),
            ),
        decreases args_size(listed(args)), 4nat,
    {
        let name = match cx.scope.names.definitions.method_name(owner, idx) {
            Some(name) => name,
            None => {
                self.check_idle_list(cx, args);
                return Type::Error;
            },
        };
        let sig = match cx.sigs.method_any_domain(owner, name) {
            Some(sig) => sig,
            None => {
                self.check_idle_list(cx, args);
                return Type::Error;
            },
        };
        if is_hidden(sig.file, sig.visibility, span) {
            let message = cat3("method `", name.as_str(), "` is private");
            self.err(span, message.as_str());
            return Type::Error;
        }
        if sig.self_param.is_some() {
            let message = cat3(
                "`",
                name.as_str(),
                "` is an instance method and cannot be called as a static member",
            );
            self.err(span, message.as_str());
            return Type::Error;
        }
        match args {
            Some(xs) => {
                self.check_unsafe_call_permission(sig, span);
                let m = self.check_call_args(cx, sig, xs, span, None, Table::new(), gargs, id);
                call_result_type(sig, substitute_generic(&sig.ret, &m))
            },
            None => value_type_of(sig),
        }
    }

    // -----------------------------------------------------------------
    // Methods
    // -----------------------------------------------------------------

    fn no_such_method(&mut self, cx: &Cx<'_>, t: &Type, method: &Ident)
        ensures
            final(self)@ == old(self)@.fail(method.span, no_method(cx@, t@, method.name@)),
    {
        let described = cx.describe(t);
        let message = cat5("`", described.as_str(), "` has no method named `", method.name.as_str(), "`");
        self.err(method.span, message.as_str());
    }

    /// Checks a method call on a receiver of type `t`.
    pub fn check_method_call_on(
        &mut self,
        cx: &Cx<'_>,
        t: &Type,
        method: &Ident,
        gargs: &Vec<Type>,
        args: &Vec<Expr>,
        id: Option<NodeId>,
        mutable: Option<bool>,
        local: Option<LocalId>,
    ) -> (r: Type)
        ensures
            (final(self)@, r@) == method_call(
                cx@,
                old(self)@,
                t@,
                *method,
                gargs.deep_view(),
                args@,
                id,
                mutable,
                local,
            ),
        decreases exprs_size(args@, 0), 4nat,
    {
        let base = t.strip_indirection();
        match base {
            Type::Generic(generic) => self.check_generic_method_call(cx, generic, method, gargs, args, id),
            Type::Any(trait_id, targs) => self.check_trait_method_call(
                cx,
                base,
                *trait_id,
                targs,
                method,
                gargs,
                args,
                id,
                mutable,
            ),
            Type::Opaque(trait_id, targs) => self.check_trait_method_call(
                cx,
                base,
                *trait_id,
                targs,
                method,
                gargs,
                args,
                id,
                mutable,
            ),
            Type::Thread(output) => {
                if !str_eq(method.name.as_str(), "join") {
                    self.no_such_method(cx, base, method);
                    return Type::Error;
                }
                if gargs.len() > 0 {
                    self.err(method.span, "`join` is not generic");
                }
                if args.len() > 0 {
                    let message = arg_count_text(0, args.len());
                    self.err(method.span, message.as_str());
                }
                (**output).clone()
            },
            Type::Array(item) => {
                let name = method.name.as_str();
                if str_eq(name, "len") || str_eq(name, "push") || str_eq(name, "pop") {
                    if gargs.len() > 0 {
                        self.err(method.span, "array methods are not generic");
                    }
                    if !str_eq(name, "len") && !matches!(mutable, Some(true)) {
                        self.err(
                            method.span,
                            "cannot call a `mut self` method through an immutable receiver — declare it with `let mut`",
                        );
                    }
                    return self.check_array_method_call(cx, item, method, args);
                }
                self.check_declared_method(cx, t, method, gargs, args, id, mutable, local)
            },
            _ => self.check_declared_method(cx, t, method, gargs, args, id, mutable, local),
        }
    }

    fn check_receiver(&mut self, t: &Type, sig: &FnSig, span: Span, mutable: Option<bool>, local: Option<LocalId>)
        ensures
            final(self)@ == receiver_checked(old(self)@, t@, sig.deep_view(), span, mutable, local),
    {
        proof {
            reveal(receiver_checked);
        }
        if matches!(sig.self_param, Some(SelfParam::ByMutRef | SelfParam::OwnedMutRef)) && !matches!(mutable, Some(true)) {
            self.err(
                span,
                "cannot call a `mut self` method (or `: &mut self`) through an immutable receiver — declare it with `let mut`",
            );
        }
        let consumes = matches!(sig.self_param, Some(SelfParam::Owned));
        if consumes && t.is_reference() {
            self.err(span, "cannot call a consuming (`: self`) method through a borrowed reference");
        }
        if let Some(l) = local {
            self.check_move(l, t, span, consumes);
        }
    }

    fn check_declared_method(
        &mut self,
        cx: &Cx<'_>,
        t: &Type,
        method: &Ident,
        gargs: &Vec<Type>,
        args: &Vec<Expr>,
        id: Option<NodeId>,
        mutable: Option<bool>,
        local: Option<LocalId>,
    ) -> (r: Type)
        ensures
            (final(self)@, r@) == declared_method(
                cx@,
                old(self)@,
                t@,
                *method,
                gargs.deep_view(),
                args@,
                id,
                mutable,
                local,
            ),
        decreases exprs_size(args@, 0), 3nat,
    {
        let base = t.strip_indirection();
        let set = match cx.methods_on(t, &method.name) {
            Some(set) => set,
            None => {
                if base.is_error() {
                    self.check_idle_args(cx, args);
                } else {
                    self.no_such_method(cx, base, method);
                }
                return Type::Error;
            },
        };
        let owner = owner_args(base);
        let sig = match set.for_args(&owner) {
            Some(sig) => sig,
            None => {
                self.no_such_method(cx, base, method);
                return Type::Error;
            },
        };
        if is_hidden(sig.file, sig.visibility, method.span) {
            let message = cat3("method `", method.name.as_str(), "` is private");
            self.err(method.span, message.as_str());
            return Type::Error;
        }
        self.check_unsafe_call_permission(sig, method.span);
        self.check_receiver(t, sig, method.span, mutable, local);
        let choice = choice_of_receiver(base, set, sig, &owner);
        let m = self.check_call_args(cx, sig, args, method.span, None, choice, gargs, id);
        call_result_type(sig, substitute_generic(&sig.ret, &m))
    }

    fn check_generic_method_call(&mut self, cx: &Cx<'_>, generic: &Symbol, method: &Ident, gargs: &Vec<Type>, args: &Vec<Expr>, id: Option<NodeId>) -> (r: Type)
        ensures
            (final(self)@, r@) == parameter_method(
                cx@,
                old(self)@,
                generic@,
                *method,
                gargs.deep_view(),
                args@,
                id,
            ),
        decreases exprs_size(args@, 0), 3nat,
    {
        let bs = match self.bounds(generic) {
            Some(bs) => bs.dup(),
            None => crate::owners::no_bounds(),
        };
        let ghost all = bs.deep_view();
        let i = match bound_with_method(cx, &bs, &method.name) {
            Some(i) => i,
            None => {
                let message = cat5(
                    "no method named `",
                    method.name.as_str(),
                    "` found for generic type `",
                    generic.as_str(),
                    "`",
                );
                self.err(method.span, message.as_str());
                return Type::Error;
            },
        };
        let b = &bs[i];
        assert(all[i as int] == b.deep_view());
        if cx.is_into_string_bound(b) && str_eq(method.name.as_str(), "into_string") {
            if gargs.len() > 0 {
                self.err(method.span, "`into_string` is not generic");
            }
            if args.len() > 0 {
                let message = arg_count_text(0, args.len());
                self.err(method.span, message.as_str());
            }
            return Type::String;
        }
        let key: (DefId, Symbol) = (b.trait_id, method.name.clone());
        match cx.sigs.trait_methods.get(&key) {
            None => {
                self.check_idle_args(cx, args);
                Type::Error
            },
            Some(raw) => {
                let names = cx.sigs.generics_of_trait(b.trait_id);
                let by = zip_types(&names, &b.args);
                let sig = specialize_fn_sig(raw, &by);
                self.check_unsafe_call_permission(&sig, method.span);
                let m = self.check_call_args(cx, &sig, args, method.span, None, Table::new(), gargs, id);
                call_result_type(&sig, substitute_generic(&sig.ret, &m))
            },
        }
    }

    fn check_trait_method_call(
        &mut self,
        cx: &Cx<'_>,
        base: &Type,
        trait_id: DefId,
        targs: &Vec<Type>,
        method: &Ident,
        gargs: &Vec<Type>,
        args: &Vec<Expr>,
        id: Option<NodeId>,
        mutable: Option<bool>,
    ) -> (r: Type)
        ensures
            (final(self)@, r@) == trait_method(
                cx@,
                old(self)@,
                base@,
                trait_id,
                targs.deep_view(),
                *method,
                gargs.deep_view(),
                args@,
                id,
                mutable,
            ),
        decreases exprs_size(args@, 0), 3nat,
    {
        let key: (DefId, Symbol) = (trait_id, method.name.clone());
        match cx.sigs.trait_methods.get(&key) {
            None => {
                self.no_such_method(cx, base, method);
                Type::Error
            },
            Some(raw) => {
                let names = cx.sigs.generics_of_trait(trait_id);
                let by = zip_types(&names, targs);
                let sig = specialize_fn_sig(raw, &by);
                self.check_unsafe_call_permission(&sig, method.span);
                self.check_receiver(base, &sig, method.span, mutable, None);
                let m = self.check_call_args(cx, &sig, args, method.span, None, Table::new(), gargs, id);
                call_result_type(&sig, substitute_generic(&sig.ret, &m))
            },
        }
    }

    fn check_array_method_call(&mut self, cx: &Cx<'_>, item: &Type, method: &Ident, args: &Vec<Expr>) -> (r: Type)
        ensures
            (final(self)@, r@) == array_method(cx@, old(self)@, item@, *method, args@),
        decreases exprs_size(args@, 0), 3nat,
    {
        let name = method.name.as_str();
        if str_eq(name, "len") {
            if args.len() > 0 {
                let message = arg_count_text(0, args.len());
                self.err(method.span, message.as_str());
            }
            Type::Primitive(PrimitiveKind::Usize)
        } else if str_eq(name, "push") {
            if args.len() != 1 {
                let message = arg_count_text(1, args.len());
                self.err(method.span, message.as_str());
            }
            if args.len() > 0 {
                proof {
                    lemma_exprs_size(args@, 0, 0);
                }
                let t = self.check_expr_with_expected(cx, &args[0], Some(item));
                if !t.compatible(item) {
                    let message = cx.mismatch_text(item, &t);
                    self.err(args[0].span, message.as_str());
                }
            }
            Type::unit()
        } else {
            if args.len() > 0 {
                let message = arg_count_text(0, args.len());
                self.err(method.span, message.as_str());
            }
            match cx.scope.names.definitions.lookup("Option") {
                Some(option) => Type::Enum(option, one_type(item.clone())),
                None => Type::Error,
            }
        }
    }

    // -----------------------------------------------------------------
    // Arguments
    // -----------------------------------------------------------------

    fn check_fixed_args(&mut self, cx: &Cx<'_>, sig: &FnSig, args: &Vec<Expr>, n: usize, m: &mut Table<Symbol, Type>)
        requires
            n <= args.len(),
            n <= sig.params.len(),
        ensures
            (final(self)@, final(m)@) == fixed_args(
                cx@,
                old(self)@,
                sig.deep_view(),
                args@,
                0,
                n as int,
                old(m)@,
                Map::empty(),
            ),
        decreases exprs_size(args@, 0), 1nat,
    {
        let ghost s = sig.deep_view();
        let mut borrowed: Table<LocalId, bool> = Table::new();
        let mut i: usize = 0;
        while i < n
            invariant
                i <= n,
                n <= args.len(),
                n <= sig.params.len(),
                s == sig.deep_view(),
                exprs_size(args@, i as int) <= exprs_size(args@, 0),
                fixed_args(cx@, self@, s, args@, i as int, n as int, m@, borrowed@) == fixed_args(
                    cx@,
                    old(self)@,
                    s,
                    args@,
                    0,
                    n as int,
                    old(m)@,
                    Map::empty(),
                ),
            decreases n - i,
        {
            let p = &sig.params[i];
            let arg = &args[i];
            assert(s.params[i as int] == p.deep_view());
            self.check_fixed_arg(cx, p, arg, m, &mut borrowed);
            i += 1;
        }
    }

    fn check_fixed_arg(&mut self, cx: &Cx<'_>, p: &crate::sig::ParamSig, arg: &Expr, m: &mut Table<Symbol, Type>, borrowed: &mut Table<LocalId, bool>)
        ensures
            (final(self)@, final(m)@, final(borrowed)@) == fixed_arg(
                cx@,
                old(self)@,
                p.deep_view(),
                *arg,
                old(m)@,
                old(borrowed)@,
            ),
        decreases expr_size(*arg), 10nat,
    {
        let want = cx.sigs.normalize_associated(&substitute_generic(&p.ty, m));
        let is_mut = matches!(arg.kind, ExprKind::MutArg(_));
        if want.is_reference() {
            if is_mut {
                self.err(
                    arg.span,
                    "`mut` is not valid for a `:&T`/`:&mut T` argument — the parameter's own type already says whether it borrows mutably",
                );
            }
            let t = self.check_borrow_arg(cx, arg, &want, borrowed);
            collect_generic_bindings(&p.ty, &t, m);
            return;
        }
        let inner = without_mut(arg);
        if p.mutable != is_mut {
            let message = mut_disagreement(&p.name, p.mutable);
            self.err(arg.span, message.as_str());
        } else if p.mutable {
            self.check_mut_arg_target(cx, inner);
        }
        proof {
            lemma_plain_arg(*arg);
        }
        let t = self.check_expr_with_expected(cx, inner, Some(&want));
        if is_mut {
            self.set_type(arg.id, t.clone());
        }
        collect_generic_bindings(&p.ty, &t, m);
        let want = cx.sigs.normalize_associated(&substitute_generic(&p.ty, m));
        if !t.compatible(&want) {
            let message = cx.mismatch_text(&want, &t);
            self.err(inner.span, message.as_str());
        }
    }

    fn check_variadic_args(&mut self, cx: &Cx<'_>, item: &Type, args: &Vec<Expr>, from: usize, m: &mut Table<Symbol, Type>)
        ensures
            (final(self)@, final(m)@) == variadic_args(
                cx@,
                old(self)@,
                item@,
                args@,
                from as int,
                old(m)@,
            ),
        decreases exprs_size(args@, from as int), 1nat,
    {
        let mut i: usize = from;
        while i < args.len()
            invariant
                from <= i,
                exprs_size(args@, i as int) <= exprs_size(args@, from as int),
                variadic_args(cx@, self@, item@, args@, i as int, m@) == variadic_args(
                    cx@,
                    old(self)@,
                    item@,
                    args@,
                    from as int,
                    old(m)@,
                ),
            decreases args.len() - i,
        {
            let arg = &args[i];
            if matches!(arg.kind, ExprKind::MutArg(_)) {
                self.err(arg.span, "`mut` is not valid for a variadic argument");
            } else {
                let want = substitute_generic(item, m);
                let t = self.check_expr_with_expected(cx, arg, Some(&want));
                if matches!(want, Type::String) {
                    self.require_into_string(cx, &t, arg.span);
                } else {
                    collect_generic_bindings(item, &t, m);
                    let want = substitute_generic(item, m);
                    if !t.compatible(&want) {
                        let message = cx.mismatch_text(&want, &t);
                        self.err(arg.span, message.as_str());
                    }
                }
            }
            i += 1;
        }
    }

    /// Checks the arguments of a call: what the generic parameters are chosen
    /// to be.
    fn check_call_args(
        &mut self,
        cx: &Cx<'_>,
        sig: &FnSig,
        args: &Vec<Expr>,
        span: Span,
        expected: Option<&Type>,
        initial: Table<Symbol, Type>,
        gargs: &Vec<Type>,
        id: Option<NodeId>,
    ) -> (r: Table<Symbol, Type>)
        ensures
            (final(self)@, r@) == call_args(
                cx@,
                old(self)@,
                sig.deep_view(),
                args@,
                span,
                expected.deep_view(),
                initial@,
                gargs.deep_view(),
                id,
            ),
        decreases exprs_size(args@, 0), 2nat,
    {
        let mut m = initial;
        self.check_arg_count(sig, args.len(), span);
        self.take_explicit_args(sig, &mut m, gargs, span);
        if let Some(w) = expected {
            collect_generic_bindings(&sig.ret, w, &mut m);
        }
        let more = is_variadic(sig);
        let fixed: usize = fixed_count(sig);
        if more {
            let rest: usize = if args.len() >= fixed { args.len() - fixed } else { 0 };
            m.insert(crate::sig::variadic_len_param(), Type::Const(rest as u128));
        }
        let n: usize = if args.len() <= fixed { args.len() } else { fixed };
        self.check_fixed_args(cx, sig, args, n, &mut m);
        if more {
            proof {
                lemma_exprs_tail(args@, 0, n as int);
            }
            let last: usize = sig.params.len() - 1;
            assert(sig.deep_view().params[last as int] == sig.params@[last as int].deep_view());
            self.check_variadic_args(cx, &sig.params[last].ty, args, n, &mut m);
        }
        self.check_choices(cx, sig, &m, span);
        self.record_choices(id, sig, &m);
        m
    }

    // -----------------------------------------------------------------
    // Struct literals
    // -----------------------------------------------------------------

    fn check_literal_fields(&mut self, cx: &Cx<'_>, def: DefId, declared: &Vec<(Symbol, Type)>, fields: &Vec<FieldInit>, m: &mut Table<Symbol, Type>)
        ensures
            (final(self)@, final(m)@) == literal_fields(
                cx@,
                old(self)@,
                def,
                declared.deep_view(),
                fields@,
                0,
                old(m)@,
            ),
        decreases fields_size(fields@, 0), 1nat,
    {
        let ghost ds = declared.deep_view();
        let mut i: usize = 0;
        while i < fields.len()
            invariant
                i <= fields.len(),
                ds == declared.deep_view(),
                fields_size(fields@, i as int) <= fields_size(fields@, 0),
                literal_fields(cx@, self@, def, ds, fields@, i as int, m@) == literal_fields(
                    cx@,
                    old(self)@,
                    def,
                    ds,
                    fields@,
                    0,
                    old(m)@,
                ),
            decreases fields.len() - i,
        {
            let name = &fields[i].name;
            let value = &fields[i].value;
            match declared_field(declared, &name.name) {
                Some(ty) => {
                    if is_private_field(cx, def, name) {
                        let message = cat3("field `", name.name.as_str(), "` is private");
                        self.err(name.span, message.as_str());
                    }
                    let want = substitute_generic(ty, m);
                    let t = self.check_expr_with_expected(cx, value, Some(&want));
                    collect_generic_bindings(ty, &t, m);
                    let want = substitute_generic(ty, m);
                    if !t.compatible(&want) {
                        let text = cx.mismatch_text(&want, &t);
                        let message = cat4(text.as_str(), " for field `", name.name.as_str(), "`");
                        self.err(value.span, message.as_str());
                    }
                },
                None => {
                    let message = cat5(
                        "`",
                        cx.name_of(def),
                        "` has no field named `",
                        name.name.as_str(),
                        "`",
                    );
                    self.err(name.span, message.as_str());
                    self.check_expr_with_expected(cx, value, None);
                },
            }
            i += 1;
        }
    }

    fn report_missing_fields(&mut self, cx: &Cx<'_>, def: DefId, declared: &Vec<(Symbol, Type)>, fields: &Vec<FieldInit>, span: Span)
        ensures
            final(self)@ == missing_fields(
                cx@,
                old(self)@,
                def,
                declared.deep_view(),
                initialized(fields@),
                0,
                span,
            ),
    {
        let mut seen: Vec<Symbol> = Vec::new();
        let mut k: usize = 0;
        while k < fields.len()
            invariant
                k <= fields.len(),
                seen.len() == k,
                forall|j: int| 0 <= j < k ==> (#[trigger] seen@[j])@ == fields@[j].name.name@,
            decreases fields.len() - k,
        {
            seen.push(fields[k].name.name.clone());
            k += 1;
        }
        proof {
            assert(seen.deep_view() =~= initialized(fields@));
        }
        let ghost ds = declared.deep_view();
        let ghost sv = seen.deep_view();
        let mut i: usize = 0;
        while i < declared.len()
            invariant
                i <= declared.len(),
                ds == declared.deep_view(),
                sv == seen.deep_view(),
                missing_fields(cx@, self@, def, ds, sv, i as int, span) == missing_fields(
                    cx@,
                    old(self)@,
                    def,
                    ds,
                    sv,
                    0,
                    span,
                ),
            decreases declared.len() - i,
        {
            assert(ds[i as int].0 == declared@[i as int].0@);
            if !occurs(&seen, &declared[i].0) {
                let message = cat5(
                    "missing field `",
                    declared[i].0.as_str(),
                    "` in struct literal for `",
                    cx.name_of(def),
                    "`",
                );
                self.err(span, message.as_str());
            }
            i += 1;
        }
    }

    fn check_idle_fields(&mut self, cx: &Cx<'_>, fields: &Vec<FieldInit>)
        ensures
            final(self)@ == idle_fields(cx@, old(self)@, fields@),
        decreases fields_size(fields@, 0), 2nat,
    {
        if !self.is_clean() {
            return;
        }
        let mut i: usize = 0;
        while i < fields.len()
            invariant
                i <= fields.len(),
                fields_size(fields@, i as int) <= fields_size(fields@, 0),
                free_fields(cx@, self@, fields@, i as int) == free_fields(cx@, old(self)@, fields@, 0),
            decreases fields.len() - i,
        {
            self.check_expr_with_expected(cx, &fields[i].value, None);
            i += 1;
        }
    }

    /// Checks a struct literal.
    pub fn check_struct_lit(&mut self, cx: &Cx<'_>, path: &Path, fields: &Vec<FieldInit>, owned: bool, expected: Option<&Type>) -> (r: Type)
        ensures
            (final(self)@, r@) == struct_literal(
                cx@,
                old(self)@,
                *path,
                fields@,
                owned,
                expected.deep_view(),
            ),
        decreases fields_size(fields@, 0), 3nat,
    {
        let res = match cx.scope.names.path_of(path.id) {
            Some(res) => res,
            None => {
                self.check_idle_fields(cx, fields);
                return Type::Error;
            },
        };
        let def = match res.base {
            Resolution::Def(def) => def,
            Resolution::Error => {
                self.check_idle_fields(cx, fields);
                return Type::Error;
            },
            _ => {
                self.err(path.span, "struct literal path does not name a type");
                return Type::Error;
            },
        };
        if !matches!(cx.scope.names.definitions.kind(def), DefKind::Type) {
            let message = cat3("`", cx.name_of(def), "` is not a struct type");
            self.err(path.span, message.as_str());
            return Type::Error;
        }
        match cx.sigs.type_shapes.get(&def) {
            Some(TypeShape::Struct(declared)) => {
                let names = cx.sigs.generics_of(def);
                let inner = expected_inside(owned, expected);
                let mut m = match inner {
                    Some(Type::Struct(_, _)) => args_of_expected(def, &names, inner),
                    _ => Table::new(),
                };
                self.check_literal_fields(cx, def, declared, fields, &mut m);
                self.report_missing_fields(cx, def, declared, fields, path.span);
                let t = Type::Struct(def, chosen(&names, &m));
                if owned {
                    Type::owned(t)
                } else {
                    t
                }
            },
            _ => {
                let message = cat3("`", cx.name_of(def), "` is not a struct with named fields");
                self.err(path.span, message.as_str());
                Type::Error
            },
        }
    }
}

/// An argument without its `mut`.
fn without_mut(x: &Expr) -> (r: &Expr)
    ensures
        *r == plain_arg(*x),
{
    match &x.kind {
        ExprKind::MutArg(inner) => &**inner,
        _ => x,
    }
}

/// A function as a value.
fn value_type_of(sig: &FnSig) -> (r: Type)
    ensures
        r@ == fn_type(sig.deep_view()),
{
    proof {
        reveal(fn_type);
    }
    let ghost s = sig.deep_view();
    let mut params: Vec<Type> = Vec::new();
    let mut i: usize = 0;
    while i < sig.params.len()
        invariant
            i <= sig.params.len(),
            s == sig.deep_view(),
            params.len() == i,
            forall|j: int| 0 <= j < i ==> crate::ty::ty_view(#[trigger] params@[j]) == s.params[j].ty,
        decreases sig.params.len() - i,
    {
        assert(s.params[i as int] == sig.params@[i as int].deep_view());
        params.push(sig.params[i].ty.clone());
        i += 1;
    }
    proof {
        assert(tys(params@) =~= Seq::new(s.params.len(), |i: int| s.params[i].ty));
    }
    Type::function(params, call_result_type(sig, sig.ret.clone()))
}

/// The arguments that an expected type of this declaration gives.
fn args_of_expected(def: DefId, names: &Vec<Symbol>, expected: Option<&Type>) -> (r: Table<Symbol, Type>)
    ensures
        r@ == expected_args(def, names.deep_view(), expected.deep_view()),
{
    match expected {
        Some(Type::Struct(i, args)) | Some(Type::TupleStruct(i, args)) | Some(Type::Enum(i, args)) => {
            assert(args.deep_view().len() == args.len());
            if *i == def && args.len() == names.len() {
                zip_types(names, args)
            } else {
                Table::new()
            }
        },
        _ => Table::new(),
    }
}

/// What is expected inside the owned form.
fn expected_inside<'b>(owned: bool, expected: Option<&'b Type>) -> (r: Option<&'b Type>)
    ensures
        r.deep_view() == inner_expected(owned, expected.deep_view()),
{
    if owned {
        match expected {
            Some(Type::Unique(inner)) => Some(&**inner),
            _ => None,
        }
    } else {
        expected
    }
}

fn declared_field<'b>(declared: &'b Vec<(Symbol, Type)>, name: &Symbol) -> (r: Option<&'b Type>)
    ensures
        r.deep_view() == field_named(declared.deep_view(), name@, 0),
{
    let ghost ds = declared.deep_view();
    let mut i: usize = 0;
    while i < declared.len()
        invariant
            i <= declared.len(),
            ds == declared.deep_view(),
            field_named(ds, name@, i as int) == field_named(ds, name@, 0),
        decreases declared.len() - i,
    {
        assert(ds[i as int] == declared@[i as int].deep_view());
        if declared[i].0 == *name {
            return Some(&declared[i].1);
        }
        i += 1;
    }
    None
}

/// What a receiver's arguments choose for the owner's parameters.
fn choice_of_receiver(base: &Type, set: &MethodSet, sig: &FnSig, owner: &Vec<Type>) -> (r: Table<Symbol, Type>)
    requires
        owner.deep_view() == method_args(base@),
        owner.len() == method_args(base@).len(),
    ensures
        r@ == receiver_choice(base@, set.deep_view(), sig.deep_view()),
{
    proof {
        reveal(receiver_choice);
    }
    if set.exact(owner).is_some() {
        return Table::new();
    }
    let n: usize = if owner.len() <= sig.generics.len() { owner.len() } else { sig.generics.len() };
    let names = bounded_names(&sig.generics, n);
    let params = parameter_types(&names);
    let mut m: Table<Symbol, Type> = Table::new();
    collect_all_bindings(&params, owner, &mut m);
    m
}

/// The first bound that has a method of this name.
fn bound_with_method(cx: &Cx<'_>, bs: &Vec<GenericBound>, name: &Symbol) -> (r: Option<usize>)
    ensures
        match r {
            Some(i) => i < bs.len() && bound_method_index(cx@, bs.deep_view(), name@, 0) == Some(i as nat),
            None => bound_method_index(cx@, bs.deep_view(), name@, 0) is None,
        },
{
    let ghost all = bs.deep_view();
    let mut i: usize = 0;
    while i < bs.len()
        invariant
            i <= bs.len(),
            all == bs.deep_view(),
            bound_method_index(cx@, all, name@, i as int) == bound_method_index(cx@, all, name@, 0),
        decreases bs.len() - i,
    {
        assert(all[i as int] == bs@[i as int].deep_view());
        let key: (DefId, Symbol) = (bs[i].trait_id, name.clone());
        if (cx.is_into_string_bound(&bs[i]) && str_eq(name.as_str(), "into_string")) || cx.sigs.trait_methods.contains(
            &key,
        ) {
            return Some(i);
        }
        i += 1;
    }
    None
}

} // verus!
