//! Signatures of declared types and functions.
use crate::ast::{type_span, FnDecl, GenericParam, Item, Param, StructDeclKind, EnumVariant, FieldDecl};
use crate::datum::{lemma_deep_len, put, Datum, Dup};
use crate::diagnostics::{diag, report, Diag, Diagnostic};
use crate::ids::{DefId, Symbol};
use crate::lower::{lowered, lowered_all, lowered_bounds, Sc, Scope};
use crate::sig::{
    variadic_len_param, Bound, EnumShape, EnumSig, FnSig, GenericBound, PSig, ParamSig, Shape, Sig, Signatures, Sigs,
    TypeShape,
};
use crate::describe::{describe_type, shown};
use crate::subst::Subst;
use crate::table::Table;
use crate::text::cat3;
use crate::ty::{group_tys, prim_integer, ty_unit, PrimitiveKind, Ty, Type};
use vstd::prelude::*;

verus! {

broadcast use group_tys, lemma_deep_len;

/// The names of generic parameters.
pub open spec fn param_names(gs: Seq<GenericParam>) -> Seq<Seq<char>> {
    Seq::new(gs.len(), |i: int| gs[i].name.name@)
}

/// The names of generic parameters.
pub fn generic_names(gs: &Vec<GenericParam>) -> (r: Vec<Symbol>)
    ensures
        r.deep_view() == param_names(gs@),
{
    let mut out: Vec<Symbol> = Vec::new();
    let mut i: usize = 0;
    while i < gs.len()
        invariant
            i <= gs.len(),
            out.len() == i,
            forall|j: int| 0 <= j < i ==> (#[trigger] out@[j])@ == gs@[j].name.name@,
        decreases gs.len() - i,
    {
        out.push(gs[i].name.name.clone());
        i += 1;
    }
    proof {
        assert(out.deep_view() =~= param_names(gs@));
    }
    out
}

/// Whether a type is an integer type.
pub open spec fn ty_integer(t: Ty) -> bool {
    t is Primitive && prim_integer(t->Primitive_0)
}

/// Whether `ty` is an integer type.
pub fn is_integer_type(ty: &Type) -> (r: bool)
    ensures
        r == ty_integer(ty@),
{
    match ty {
        Type::Primitive(p) => p.is_integer(),
        _ => false,
    }
}

/// The types of the compile-time integer parameters from the `i`-th on.
pub open spec fn const_params_from(sc: Sc, gs: Seq<GenericParam>, i: int, acc: Subst, d: Seq<Diag>) -> (
    Subst,
    Seq<Diag>,
)
    decreases gs.len() - i,
{
    if 0 <= i < gs.len() {
        match gs[i].const_ty {
            None => const_params_from(sc, gs, i + 1, acc, d),
            Some(syntax) => {
                let (t, d1) = lowered(sc, syntax, d);
                let d2 = if ty_integer(t) {
                    d1
                } else {
                    d1.push(
                        diag(
                            "a const generic parameter must have an integer type"@,
                            type_span(syntax),
                            "not an integer type"@,
                        ),
                    )
                };
                const_params_from(sc, gs, i + 1, acc.insert(gs[i].name.name@, t), d2)
            },
        }
    } else {
        (acc, d)
    }
}

/// The generic parameters with their bounds from the `i`-th on, after `acc`.
pub open spec fn bounded_params_from(
    sc: Sc,
    gs: Seq<GenericParam>,
    i: int,
    acc: Seq<(Seq<char>, Seq<Bound>)>,
    d: Seq<Diag>,
) -> (Seq<(Seq<char>, Seq<Bound>)>, Seq<Diag>)
    decreases gs.len() - i,
{
    if 0 <= i < gs.len() {
        let (bounds, d1) = lowered_bounds(sc, gs[i].bounds@, 0, Seq::empty(), d);
        bounded_params_from(sc, gs, i + 1, acc.push((gs[i].name.name@, bounds)), d1)
    } else {
        (acc, d)
    }
}

/// The bounds of the generic parameters from the `i`-th on, after `acc`.
pub open spec fn bounds_from(sc: Sc, gs: Seq<GenericParam>, i: int, acc: Seq<Seq<Bound>>, d: Seq<Diag>) -> (
    Seq<Seq<Bound>>,
    Seq<Diag>,
)
    decreases gs.len() - i,
{
    if 0 <= i < gs.len() {
        let (bounds, d1) = lowered_bounds(sc, gs[i].bounds@, 0, Seq::empty(), d);
        bounds_from(sc, gs, i + 1, acc.push(bounds), d1)
    } else {
        (acc, d)
    }
}

/// The parameters from the `i`-th on, after `acc`.
pub open spec fn params_from(sc: Sc, ps: Seq<Param>, i: int, acc: Seq<PSig>, d: Seq<Diag>) -> (Seq<PSig>, Seq<Diag>)
    decreases ps.len() - i,
{
    if 0 <= i < ps.len() {
        let (ty, d1) = lowered(sc, ps[i].ty, d);
        let p = PSig { name: ps[i].name.name@, mutable: ps[i].mutable, variadic: ps[i].variadic, ty };
        params_from(sc, ps, i + 1, acc.push(p), d1)
    } else {
        (acc, d)
    }
}

/// Whether the last parameter is variadic.
pub open spec fn ends_variadic(ps: Seq<Param>) -> bool {
    ps.len() > 0 && ps[ps.len() - 1].variadic
}

/// The signature of a function declaration.
pub open spec fn signature_of(sc: Sc, f: FnDecl, d: Seq<Diag>) -> (Sig, Seq<Diag>) {
    let (consts, d1) = const_params_from(sc, f.generics@, 0, Map::empty(), d);
    let (generics, d2) = bounded_params_from(sc, f.generics@, 0, Seq::empty(), d1);
    let (params, d3) = params_from(sc, f.params@, 0, Seq::empty(), d2);
    let (ret, d4) = match f.ret {
        Some(t) => lowered(sc, t, d3),
        None => (ty_unit(), d3),
    };
    (
        Sig {
            visibility: f.visibility,
            file: f.span.file,
            self_param: f.self_param,
            is_async: f.is_async,
            is_unsafe: f.is_unsafe,
            is_foreign: f.is_foreign,
            params,
            ret,
            generics: if ends_variadic(f.params@) {
                generics.push(("$variadic_len"@, Seq::empty()))
            } else {
                generics
            },
            const_params: if ends_variadic(f.params@) {
                consts.insert("$variadic_len"@, Ty::Primitive(PrimitiveKind::Usize))
            } else {
                consts
            },
            return_origins: Seq::empty(),
        },
        d4,
    )
}

impl<'a> Scope<'a> {
    /// The types of the compile-time integer parameters.
    pub fn const_params(&self, gs: &Vec<GenericParam>, diags: &mut Vec<Diagnostic>) -> (r: Table<Symbol, Type>)
        ensures
            (r@, final(diags).deep_view()) == const_params_from(self@, gs@, 0, Map::empty(), old(diags).deep_view()),
    {
        let mut out: Table<Symbol, Type> = Table::new();
        let mut i: usize = 0;
        while i < gs.len()
            invariant
                i <= gs.len(),
                const_params_from(self@, gs@, i as int, out@, diags.deep_view()) == const_params_from(
                    self@,
                    gs@,
                    0,
                    Map::empty(),
                    old(diags).deep_view(),
                ),
            decreases gs.len() - i,
        {
            if let Some(syntax) = &gs[i].const_ty {
                let ty = self.lower_type_expr(syntax, diags);
                if !is_integer_type(&ty) {
                    report(
                        diags,
                        "a const generic parameter must have an integer type",
                        syntax.span(),
                        "not an integer type",
                    );
                }
                out.insert(gs[i].name.name.clone(), ty);
            }
            i += 1;
        }
        out
    }

    /// The generic parameters with their bounds.
    pub fn bounded_params(&self, gs: &Vec<GenericParam>, diags: &mut Vec<Diagnostic>) -> (r: Vec<(Symbol, Vec<GenericBound>)>)
        ensures
            (r.deep_view(), final(diags).deep_view()) == bounded_params_from(
                self@,
                gs@,
                0,
                Seq::empty(),
                old(diags).deep_view(),
            ),
    {
        let mut out: Vec<(Symbol, Vec<GenericBound>)> = Vec::new();
        proof {
            assert(out.deep_view() =~= Seq::empty());
        }
        let mut i: usize = 0;
        while i < gs.len()
            invariant
                i <= gs.len(),
                bounded_params_from(self@, gs@, i as int, out.deep_view(), diags.deep_view()) == bounded_params_from(
                    self@,
                    gs@,
                    0,
                    Seq::empty(),
                    old(diags).deep_view(),
                ),
            decreases gs.len() - i,
        {
            let bounds = self.lower_bounds(&gs[i].bounds, diags);
            put(&mut out, (gs[i].name.name.clone(), bounds));
            i += 1;
        }
        out
    }

    /// The bounds of the generic parameters.
    pub fn bound_lists(&self, gs: &Vec<GenericParam>, diags: &mut Vec<Diagnostic>) -> (r: Vec<Vec<GenericBound>>)
        ensures
            (r.deep_view(), final(diags).deep_view()) == bounds_from(
                self@,
                gs@,
                0,
                Seq::empty(),
                old(diags).deep_view(),
            ),
    {
        let mut out: Vec<Vec<GenericBound>> = Vec::new();
        proof {
            assert(out.deep_view() =~= Seq::empty());
        }
        let mut i: usize = 0;
        while i < gs.len()
            invariant
                i <= gs.len(),
                bounds_from(self@, gs@, i as int, out.deep_view(), diags.deep_view()) == bounds_from(
                    self@,
                    gs@,
                    0,
                    Seq::empty(),
                    old(diags).deep_view(),
                ),
            decreases gs.len() - i,
        {
            let bounds = self.lower_bounds(&gs[i].bounds, diags);
            put(&mut out, bounds);
            i += 1;
        }
        out
    }

    fn param_sigs(&self, ps: &Vec<Param>, diags: &mut Vec<Diagnostic>) -> (r: Vec<ParamSig>)
        ensures
            (r.deep_view(), final(diags).deep_view()) == params_from(
                self@,
                ps@,
                0,
                Seq::empty(),
                old(diags).deep_view(),
            ),
    {
        let mut out: Vec<ParamSig> = Vec::new();
        proof {
            assert(out.deep_view() =~= Seq::empty());
        }
        let mut i: usize = 0;
        while i < ps.len()
            invariant
                i <= ps.len(),
                params_from(self@, ps@, i as int, out.deep_view(), diags.deep_view()) == params_from(
                    self@,
                    ps@,
                    0,
                    Seq::empty(),
                    old(diags).deep_view(),
                ),
            decreases ps.len() - i,
        {
            let ty = self.lower_type_expr(&ps[i].ty, diags);
            put(
                &mut out,
                ParamSig {
                    name: ps[i].name.name.clone(),
                    mutable: ps[i].mutable,
                    variadic: ps[i].variadic,
                    ty,
                },
            );
            i += 1;
        }
        out
    }

    /// The signature of a function declaration.
    pub fn build_fn_sig(&self, f: &FnDecl, diags: &mut Vec<Diagnostic>) -> (r: FnSig)
        ensures
            (r.deep_view(), final(diags).deep_view()) == signature_of(self@, *f, old(diags).deep_view()),
    {
        let mut const_params = self.const_params(&f.generics, diags);
        let mut generics = self.bounded_params(&f.generics, diags);
        let params = self.param_sigs(&f.params, diags);
        let ret = match &f.ret {
            Some(t) => self.lower_type_expr(t, diags),
            None => Type::unit(),
        };
        if f.params.len() > 0 && f.params[f.params.len() - 1].variadic {
            let none: Vec<GenericBound> = Vec::new();
            proof {
                assert(none.deep_view() =~= Seq::<Bound>::empty());
            }
            put(&mut generics, (variadic_len_param(), none));
            const_params.insert(variadic_len_param(), Type::Primitive(PrimitiveKind::Usize));
        }
        let r = FnSig {
            visibility: f.visibility,
            file: f.span.file,
            self_param: f.self_param,
            is_async: f.is_async,
            is_unsafe: f.is_unsafe,
            is_foreign: f.is_foreign,
            params,
            ret,
            generics,
            const_params,
            return_origins: Vec::new(),
        };
        proof {
            assert(r.deep_view().return_origins =~= Seq::empty());
        }
        r
    }
}

// ---------------------------------------------------------------------
// Declared types
// ---------------------------------------------------------------------

/// The fields from the `i`-th on, after `acc`.
pub open spec fn fields_from(sc: Sc, fs: Seq<FieldDecl>, i: int, acc: Seq<(Seq<char>, Ty)>, d: Seq<Diag>) -> (
    Seq<(Seq<char>, Ty)>,
    Seq<Diag>,
)
    decreases fs.len() - i,
{
    if 0 <= i < fs.len() {
        let (t, d1) = lowered(sc, fs[i].ty, d);
        fields_from(sc, fs, i + 1, acc.push((fs[i].name.name@, t)), d1)
    } else {
        (acc, d)
    }
}

/// The visibilities of the fields from the `i`-th on, added to `m`.
pub open spec fn visibilities_from(
    id: DefId,
    fs: Seq<FieldDecl>,
    i: int,
    m: Map<(DefId, Seq<char>), crate::ids::Visibility>,
) -> Map<(DefId, Seq<char>), crate::ids::Visibility>
    decreases fs.len() - i,
{
    if 0 <= i < fs.len() {
        visibilities_from(id, fs, i + 1, m.insert((id, fs[i].name.name@), fs[i].visibility))
    } else {
        m
    }
}

/// The shape of a declared type.
pub open spec fn shape_of(sc: Sc, kind: StructDeclKind, d: Seq<Diag>) -> (Shape, Seq<Diag>) {
    match kind {
        StructDeclKind::Struct(fs) => {
            let (fields, d1) = fields_from(sc, fs@, 0, Seq::empty(), d);
            (Shape::Struct(fields), d1)
        },
        StructDeclKind::TupleStruct(ts) => {
            let (fields, d1) = lowered_all(sc, ts@, 0, Seq::empty(), d);
            (Shape::TupleStruct(fields), d1)
        },
        StructDeclKind::Unit => (Shape::Unit, d),
    }
}

/// The signatures with one declared type added.
pub open spec fn with_type(sc: Sc, id: DefId, s: Sigs, d: Seq<Diag>) -> (Sigs, Seq<Diag>) {
    match sc.struct_decl(id) {
        None => (s, d),
        Some(t) => {
            let (consts, d1) = const_params_from(sc, t.generics@, 0, Map::empty(), d);
            let (bounds, d2) = bounds_from(sc, t.generics@, 0, Seq::empty(), d1);
            let (shape, d3) = shape_of(sc, t.kind, d2);
            (
                Sigs {
                    field_visibility: match t.kind {
                        StructDeclKind::Struct(fs) => visibilities_from(id, fs@, 0, s.field_visibility),
                        _ => s.field_visibility,
                    },
                    type_generics: s.type_generics.insert(id, param_names(t.generics@)),
                    const_type_params: s.const_type_params.insert(id, consts),
                    generic_type_bounds: s.generic_type_bounds.insert(id, bounds),
                    type_shapes: s.type_shapes.insert(id, shape),
                    ..s
                },
                d3,
            )
        },
    }
}

/// The signatures with the declared types from the `i`-th on added.
pub open spec fn with_types_from(sc: Sc, i: int, s: Sigs, d: Seq<Diag>) -> (Sigs, Seq<Diag>)
    decreases sc.decls.types.len() - i,
{
    if 0 <= i < sc.decls.types.len() {
        let (s1, d1) = with_type(sc, sc.decls.types[i].0, s, d);
        with_types_from(sc, i + 1, s1, d1)
    } else {
        (s, d)
    }
}

/// The variants from the `i`-th on, after `acc`.
pub open spec fn variants_from(sc: Sc, vs: Seq<EnumVariant>, i: int, acc: Seq<(Seq<char>, Seq<Ty>)>, d: Seq<Diag>) -> (
    Seq<(Seq<char>, Seq<Ty>)>,
    Seq<Diag>,
)
    decreases vs.len() - i,
{
    if 0 <= i < vs.len() {
        let (payload, d1) = lowered_all(sc, vs[i].payload@, 0, Seq::empty(), d);
        variants_from(sc, vs, i + 1, acc.push((vs[i].name.name@, payload)), d1)
    } else {
        (acc, d)
    }
}

/// The signatures with the enums among the items from the `i`-th on added.
pub open spec fn with_enums_from(sc: Sc, i: int, s: Sigs, d: Seq<Diag>) -> (Sigs, Seq<Diag>)
    decreases sc.module.items@.len() - i,
{
    if 0 <= i < sc.module.items@.len() {
        let (s1, d1) = match sc.module.items@[i] {
            Item::Enum(e) => match sc.defs().found_in(e.span.file, e.name.name@) {
                Some(id) => {
                    let (consts, d1) = const_params_from(sc, e.generics@, 0, Map::empty(), d);
                    let (bounds, d2) = bounds_from(sc, e.generics@, 0, Seq::empty(), d1);
                    let (variants, d3) = variants_from(sc, e.variants@, 0, Seq::empty(), d2);
                    (
                        Sigs {
                            const_type_params: s.const_type_params.insert(id, consts),
                            generic_type_bounds: s.generic_type_bounds.insert(id, bounds),
                            enum_sigs: s.enum_sigs.insert(
                                id,
                                EnumShape { generics: param_names(e.generics@), variants },
                            ),
                            ..s
                        },
                        d3,
                    )
                },
                None => (s, d),
            },
            _ => (s, d),
        };
        with_enums_from(sc, i + 1, s1, d1)
    } else {
        (s, d)
    }
}

/// Whether a type may cross a foreign function boundary.
pub open spec fn foreign_safe(t: Ty) -> bool {
    t is Primitive || t is RawConstPtr || t is RawMutPtr || t is Error
}

/// The errors of a foreign function's parameters from the `i`-th on.
pub open spec fn foreign_param_errors(sc: Sc, f: FnDecl, sig: Sig, i: int, d: Seq<Diag>) -> Seq<Diag>
    decreases sig.params.len() - i,
{
    if 0 <= i < sig.params.len() && i < f.params@.len() {
        foreign_param_errors(
            sc,
            f,
            sig,
            i + 1,
            if foreign_safe(sig.params[i].ty) {
                d
            } else {
                d.push(
                    diag(
                        "`"@ + shown(sig.params[i].ty, sc.defs()) + "` is not a valid `extern \"C\"` parameter type"@,
                        type_span(f.params@[i].ty),
                        "use a primitive or a raw pointer"@,
                    ),
                )
            },
        )
    } else {
        d
    }
}

/// The errors of a foreign function's signature.
pub open spec fn foreign_errors(sc: Sc, f: FnDecl, sig: Sig, d: Seq<Diag>) -> Seq<Diag> {
    if !f.is_foreign {
        d
    } else {
        let d1 = if f.generics@.len() > 0 {
            d.push(diag("an `extern` function cannot be generic"@, f.name.span, "declared generic here"@))
        } else {
            d
        };
        foreign_param_errors(sc, f, sig, 0, d1)
    }
}

/// The signatures with the functions among the items from the `i`-th on
/// added.
pub open spec fn with_fns_from(sc: Sc, i: int, s: Sigs, d: Seq<Diag>) -> (Sigs, Seq<Diag>)
    decreases sc.module.items@.len() - i,
{
    if 0 <= i < sc.module.items@.len() {
        let (s1, d1) = match sc.module.items@[i] {
            Item::Fn(f) => match sc.defs().found_in(f.span.file, f.name.name@) {
                Some(id) => {
                    let (sig, d1) = signature_of(sc, f, d);
                    (Sigs { fns: s.fns.insert(id, sig), ..s }, foreign_errors(sc, f, sig, d1))
                },
                None => (s, d),
            },
            _ => (s, d),
        };
        with_fns_from(sc, i + 1, s1, d1)
    } else {
        (s, d)
    }
}

impl<'a> Scope<'a> {
    fn named_fields(&self, fs: &Vec<FieldDecl>, diags: &mut Vec<Diagnostic>) -> (r: Vec<(Symbol, Type)>)
        ensures
            (r.deep_view(), final(diags).deep_view()) == fields_from(
                self@,
                fs@,
                0,
                Seq::empty(),
                old(diags).deep_view(),
            ),
    {
        let mut out: Vec<(Symbol, Type)> = Vec::new();
        proof {
            assert(out.deep_view() =~= Seq::empty());
        }
        let mut i: usize = 0;
        while i < fs.len()
            invariant
                i <= fs.len(),
                fields_from(self@, fs@, i as int, out.deep_view(), diags.deep_view()) == fields_from(
                    self@,
                    fs@,
                    0,
                    Seq::empty(),
                    old(diags).deep_view(),
                ),
            decreases fs.len() - i,
        {
            let t = self.lower_type_expr(&fs[i].ty, diags);
            put(&mut out, (fs[i].name.name.clone(), t));
            i += 1;
        }
        out
    }

    /// Adds the declared types.
    pub fn build_type_shapes(&self, sigs: &mut Signatures, diags: &mut Vec<Diagnostic>)
        ensures
            (final(sigs)@, final(diags).deep_view()) == with_types_from(self@, 0, old(sigs)@, old(diags).deep_view()),
    {
        let mut i: usize = 0;
        while i < self.decls.type_decls.entries.len()
            invariant
                i <= self.decls.type_decls.entries.len(),
                with_types_from(self@, i as int, sigs@, diags.deep_view()) == with_types_from(
                    self@,
                    0,
                    old(sigs)@,
                    old(diags).deep_view(),
                ),
            decreases self.decls.type_decls.entries.len() - i,
        {
            let id = self.decls.type_decls.entries[i].0;
            assert(self@.decls.types[i as int].0 == id);
            self.build_type_shape(id, sigs, diags);
            i += 1;
        }
    }

    fn build_type_shape(&self, id: DefId, sigs: &mut Signatures, diags: &mut Vec<Diagnostic>)
        ensures
            (final(sigs)@, final(diags).deep_view()) == with_type(self@, id, old(sigs)@, old(diags).deep_view()),
    {
        if let Some(t) = self.struct_decl(id) {
            if let StructDeclKind::Struct(fs) = &t.kind {
                let ghost before = sigs@;
                let mut j: usize = 0;
                while j < fs.len()
                    invariant
                        j <= fs.len(),
                        sigs@ == (Sigs { field_visibility: sigs@.field_visibility, ..before }),
                        visibilities_from(id, fs@, j as int, sigs@.field_visibility) == visibilities_from(
                            id,
                            fs@,
                            0,
                            before.field_visibility,
                        ),
                    decreases fs.len() - j,
                {
                    sigs.field_visibility.insert((id, fs[j].name.name.clone()), fs[j].visibility);
                    j += 1;
                }
            }
            let const_params = self.const_params(&t.generics, diags);
            let bounds = self.bound_lists(&t.generics, diags);
            let shape = match &t.kind {
                StructDeclKind::Struct(fs) => TypeShape::Struct(self.named_fields(fs, diags)),
                StructDeclKind::TupleStruct(ts) => TypeShape::TupleStruct(self.lower_types(ts, diags)),
                StructDeclKind::Unit => TypeShape::Unit,
            };
            sigs.type_generics.insert(id, generic_names(&t.generics));
            sigs.const_type_params.insert(id, const_params);
            sigs.generic_type_bounds.insert(id, bounds);
            sigs.type_shapes.insert(id, shape);
        }
    }

    fn enum_variants(&self, vs: &Vec<EnumVariant>, diags: &mut Vec<Diagnostic>) -> (r: Vec<(Symbol, Vec<Type>)>)
        ensures
            (r.deep_view(), final(diags).deep_view()) == variants_from(
                self@,
                vs@,
                0,
                Seq::empty(),
                old(diags).deep_view(),
            ),
    {
        let mut out: Vec<(Symbol, Vec<Type>)> = Vec::new();
        proof {
            assert(out.deep_view() =~= Seq::empty());
        }
        let mut i: usize = 0;
        while i < vs.len()
            invariant
                i <= vs.len(),
                variants_from(self@, vs@, i as int, out.deep_view(), diags.deep_view()) == variants_from(
                    self@,
                    vs@,
                    0,
                    Seq::empty(),
                    old(diags).deep_view(),
                ),
            decreases vs.len() - i,
        {
            let payload = self.lower_types(&vs[i].payload, diags);
            put(&mut out, (vs[i].name.name.clone(), payload));
            i += 1;
        }
        out
    }

    /// Adds the declared enums.
    pub fn build_enum_sigs(&self, sigs: &mut Signatures, diags: &mut Vec<Diagnostic>)
        ensures
            (final(sigs)@, final(diags).deep_view()) == with_enums_from(self@, 0, old(sigs)@, old(diags).deep_view()),
    {
        let mut i: usize = 0;
        while i < self.module.items.len()
            invariant
                i <= self.module.items.len(),
                with_enums_from(self@, i as int, sigs@, diags.deep_view()) == with_enums_from(
                    self@,
                    0,
                    old(sigs)@,
                    old(diags).deep_view(),
                ),
            decreases self.module.items.len() - i,
        {
            if let Item::Enum(e) = &self.module.items[i] {
                if let Some(id) = self.names.definitions.lookup_in(e.span.file, &e.name.name) {
                    let const_params = self.const_params(&e.generics, diags);
                    let bounds = self.bound_lists(&e.generics, diags);
                    let variants = self.enum_variants(&e.variants, diags);
                    sigs.const_type_params.insert(id, const_params);
                    sigs.generic_type_bounds.insert(id, bounds);
                    sigs.enum_sigs.insert(id, EnumSig { generics: generic_names(&e.generics), variants });
                }
            }
            i += 1;
        }
    }

    fn check_foreign(&self, f: &FnDecl, sig: &FnSig, diags: &mut Vec<Diagnostic>)
        ensures
            final(diags).deep_view() == foreign_errors(self@, *f, sig.deep_view(), old(diags).deep_view()),
    {
        if !f.is_foreign {
            return;
        }
        if f.generics.len() > 0 {
            report(diags, "an `extern` function cannot be generic", f.name.span, "declared generic here");
        }
        let ghost d1 = diags.deep_view();
        let mut i: usize = 0;
        while i < sig.params.len() && i < f.params.len()
            invariant
                i <= sig.params.len(),
                foreign_param_errors(self@, *f, sig.deep_view(), i as int, diags.deep_view()) == foreign_param_errors(
                    self@,
                    *f,
                    sig.deep_view(),
                    0,
                    d1,
                ),
            decreases sig.params.len() - i,
        {
            if !matches!(
                sig.params[i].ty,
                Type::Primitive(_) | Type::RawConstPtr(_) | Type::RawMutPtr(_) | Type::Error
            ) {
                let described = describe_type(&sig.params[i].ty, &self.names.definitions);
                let message = cat3("`", described.as_str(), "` is not a valid `extern \"C\"` parameter type");
                report(diags, message.as_str(), f.params[i].ty.span(), "use a primitive or a raw pointer");
            }
            i += 1;
        }
    }

    /// Adds the declared functions.
    pub fn build_fn_sigs(&self, sigs: &mut Signatures, diags: &mut Vec<Diagnostic>)
        ensures
            (final(sigs)@, final(diags).deep_view()) == with_fns_from(self@, 0, old(sigs)@, old(diags).deep_view()),
    {
        let mut i: usize = 0;
        while i < self.module.items.len()
            invariant
                i <= self.module.items.len(),
                with_fns_from(self@, i as int, sigs@, diags.deep_view()) == with_fns_from(
                    self@,
                    0,
                    old(sigs)@,
                    old(diags).deep_view(),
                ),
            decreases self.module.items.len() - i,
        {
            if let Item::Fn(f) = &self.module.items[i] {
                if let Some(id) = self.names.definitions.lookup_in(f.span.file, &f.name.name) {
                    let sig = self.build_fn_sig(f, diags);
                    self.check_foreign(f, &sig, diags);
                    sigs.fns.insert(id, sig);
                }
            }
            i += 1;
        }
    }
}

} // verus!
