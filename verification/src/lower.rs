//! From the syntax of types to types.
use crate::ast::{
    type_size, type_span, types_size, EnumDecl, FnDecl, GenericParam, Item, Module, Path, StructDecl, StructDeclKind,
    TraitDecl, TypeAliasDecl, TypeExpr,
};
use crate::datum::{lemma_deep_len, occurs, put, Datum, Dup};
use crate::diagnostics::{diag, report, Diag, Diagnostic};
use crate::ids::{DefId, SelfParam, Span};
use crate::names::{DefKind, Definitions, Resolution, ResolvedNames};
use crate::representation::{is_heap, kind_of_alloc};
use crate::sig::{Bound, GenericBound};
use crate::table::{lemma_pair_index, lemma_unseen, pair_get, pair_set, unseen, Table};
use crate::text::{cat3, count, decimal};
use crate::ty::{group_tys, no_types, prim_of_name, str_eq, tys, PrimitiveKind, Ty, Type};
use vstd::prelude::*;

verus! {

broadcast use group_tys, lemma_deep_len;

/// Where each declared type, enum, trait and alias stands in its module.
pub struct DeclIndex {
    pub type_decls: Table<DefId, usize>,
    pub enum_decls: Table<DefId, usize>,
    pub trait_decls: Table<DefId, usize>,
    pub type_aliases: Table<DefId, usize>,
}

/// What a [`DeclIndex`] denotes, in declaration order.
pub struct Decls {
    pub types: Seq<(DefId, usize)>,
    pub enums: Seq<(DefId, usize)>,
    pub traits: Seq<(DefId, usize)>,
    pub aliases: Seq<(DefId, usize)>,
}

impl View for DeclIndex {
    type V = Decls;

    open spec fn view(&self) -> Decls {
        Decls {
            types: self.type_decls.pairs(),
            enums: self.enum_decls.pairs(),
            traits: self.trait_decls.pairs(),
            aliases: self.type_aliases.pairs(),
        }
    }
}

/// A module with its resolved names and declarations.
pub struct Scope<'a> {
    pub module: &'a Module,
    pub names: &'a ResolvedNames,
    pub decls: DeclIndex,
}

/// What a [`Scope`] denotes.
pub struct Sc {
    pub module: Module,
    pub names: ResolvedNames,
    pub decls: Decls,
}

impl View for Scope<'_> {
    type V = Sc;

    open spec fn view(&self) -> Sc {
        Sc { module: *self.module, names: *self.names, decls: self.decls@ }
    }
}

/// The declarations from the `i`-th item on, added to `d`.
pub open spec fn indexed(items: Seq<Item>, names: ResolvedNames, i: int, d: Decls) -> Decls
    decreases items.len() - i,
{
    if 0 <= i < items.len() {
        let at = i as usize;
        let next = match items[i] {
            Item::Struct(t) => match names.definitions.found_in(t.span.file, t.name.name@) {
                Some(id) => Decls { types: pair_set(d.types, id, at), ..d },
                None => d,
            },
            Item::Enum(t) => match names.definitions.found_in(t.span.file, t.name.name@) {
                Some(id) => Decls { enums: pair_set(d.enums, id, at), ..d },
                None => d,
            },
            Item::Trait(t) => match names.definitions.found_in(t.span.file, t.name.name@) {
                Some(id) => Decls { traits: pair_set(d.traits, id, at), ..d },
                None => d,
            },
            Item::TypeAlias(t) => match names.definitions.found_in(t.span.file, t.name.name@) {
                Some(id) => Decls { aliases: pair_set(d.aliases, id, at), ..d },
                None => d,
            },
            _ => d,
        };
        indexed(items, names, i + 1, next)
    } else {
        d
    }
}

/// The declarations of a module.
pub open spec fn decls_of(module: Module, names: ResolvedNames) -> Decls {
    indexed(
        module.items@,
        names,
        0,
        Decls { types: Seq::empty(), enums: Seq::empty(), traits: Seq::empty(), aliases: Seq::empty() },
    )
}

/// Indexes the declarations of a module.
pub fn index_decls(module: &Module, names: &ResolvedNames) -> (r: DeclIndex)
    ensures
        r@ == decls_of(*module, *names),
{
    let mut d = DeclIndex {
        type_decls: Table::new(),
        enum_decls: Table::new(),
        trait_decls: Table::new(),
        type_aliases: Table::new(),
    };
    let mut i: usize = 0;
    while i < module.items.len()
        invariant
            i <= module.items.len(),
            indexed(module.items@, *names, i as int, d@) == decls_of(*module, *names),
        decreases module.items.len() - i,
    {
        match &module.items[i] {
            Item::Struct(t) => {
                if let Some(id) = names.definitions.lookup_in(t.span.file, &t.name.name) {
                    d.type_decls.insert(id, i);
                }
            },
            Item::Enum(t) => {
                if let Some(id) = names.definitions.lookup_in(t.span.file, &t.name.name) {
                    d.enum_decls.insert(id, i);
                }
            },
            Item::Trait(t) => {
                if let Some(id) = names.definitions.lookup_in(t.span.file, &t.name.name) {
                    d.trait_decls.insert(id, i);
                }
            },
            Item::TypeAlias(t) => {
                if let Some(id) = names.definitions.lookup_in(t.span.file, &t.name.name) {
                    d.type_aliases.insert(id, i);
                }
            },
            _ => {},
        }
        i += 1;
    }
    d
}

impl Sc {
    /// The struct declaration of an item.
    pub open spec fn struct_decl(self, id: DefId) -> Option<StructDecl> {
        match pair_get(self.decls.types, id) {
            Some(i) => if i < self.module.items@.len() {
                match self.module.items@[i as int] {
                    Item::Struct(t) => Some(t),
                    _ => None,
                }
            } else {
                None
            },
            None => None,
        }
    }

    /// The enum declaration of an item.
    pub open spec fn enum_decl(self, id: DefId) -> Option<EnumDecl> {
        match pair_get(self.decls.enums, id) {
            Some(i) => if i < self.module.items@.len() {
                match self.module.items@[i as int] {
                    Item::Enum(t) => Some(t),
                    _ => None,
                }
            } else {
                None
            },
            None => None,
        }
    }

    /// The trait declaration of an item.
    pub open spec fn trait_decl(self, id: DefId) -> Option<TraitDecl> {
        match pair_get(self.decls.traits, id) {
            Some(i) => if i < self.module.items@.len() {
                match self.module.items@[i as int] {
                    Item::Trait(t) => Some(t),
                    _ => None,
                }
            } else {
                None
            },
            None => None,
        }
    }

    /// The alias declaration of an item.
    pub open spec fn alias_decl(self, id: DefId) -> Option<TypeAliasDecl> {
        match pair_get(self.decls.aliases, id) {
            Some(i) => if i < self.module.items@.len() {
                match self.module.items@[i as int] {
                    Item::TypeAlias(t) => Some(t),
                    _ => None,
                }
            } else {
                None
            },
            None => None,
        }
    }

    /// All declared items.
    pub open spec fn defs(self) -> Definitions {
        self.names.definitions
    }

    /// The printed name of an item.
    pub open spec fn name(self, id: DefId) -> Seq<char> {
        self.names.definitions.name_of(id)
    }

    /// The number of arguments that a trait takes.
    pub open spec fn trait_arity(self, id: DefId) -> nat {
        match self.trait_decl(id) {
            Some(t) => t.generics@.len(),
            None => if self.name(id) == "Into"@ { 1 } else { 0 },
        }
    }
}

impl<'a> Scope<'a> {
    pub fn struct_decl(&self, id: DefId) -> (r: Option<&'a StructDecl>)
        ensures
            r matches Some(t) ==> self@.struct_decl(id) == Some(*t),
            r is None ==> self@.struct_decl(id) is None,
    {
        match self.decls.type_decls.get(&id) {
            Some(i) => if *i < self.module.items.len() {
                match &self.module.items[*i] {
                    Item::Struct(t) => Some(t),
                    _ => None,
                }
            } else {
                None
            },
            None => None,
        }
    }

    pub fn enum_decl(&self, id: DefId) -> (r: Option<&'a EnumDecl>)
        ensures
            r matches Some(t) ==> self@.enum_decl(id) == Some(*t),
            r is None ==> self@.enum_decl(id) is None,
    {
        match self.decls.enum_decls.get(&id) {
            Some(i) => if *i < self.module.items.len() {
                match &self.module.items[*i] {
                    Item::Enum(t) => Some(t),
                    _ => None,
                }
            } else {
                None
            },
            None => None,
        }
    }

    pub fn trait_decl(&self, id: DefId) -> (r: Option<&'a TraitDecl>)
        ensures
            r matches Some(t) ==> self@.trait_decl(id) == Some(*t),
            r is None ==> self@.trait_decl(id) is None,
    {
        match self.decls.trait_decls.get(&id) {
            Some(i) => if *i < self.module.items.len() {
                match &self.module.items[*i] {
                    Item::Trait(t) => Some(t),
                    _ => None,
                }
            } else {
                None
            },
            None => None,
        }
    }

    pub fn alias_decl(&self, id: DefId) -> (r: Option<&'a TypeAliasDecl>)
        ensures
            r matches Some(t) ==> self@.alias_decl(id) == Some(*t),
            r is None ==> self@.alias_decl(id) is None,
    {
        match self.decls.type_aliases.get(&id) {
            Some(i) => if *i < self.module.items.len() {
                match &self.module.items[*i] {
                    Item::TypeAlias(t) => Some(t),
                    _ => None,
                }
            } else {
                None
            },
            None => None,
        }
    }

    fn trait_arity(&self, id: DefId) -> (r: usize)
        ensures
            r == self@.trait_arity(id),
    {
        match self.trait_decl(id) {
            Some(t) => t.generics.len(),
            None => if str_eq(self.names.definitions.name(id), "Into") {
                1
            } else {
                0
            },
        }
    }
}

// ---------------------------------------------------------------------
// Types
// ---------------------------------------------------------------------

/// "`name` takes `expected` type argument(s), found `found`"
pub open spec fn arity_message(name: Seq<char>, expected: nat, found: nat) -> Seq<char> {
    "`"@ + name + "` takes "@ + decimal(expected) + " type argument(s), found "@ + decimal(found)
}

pub fn arity_text(name: &str, expected: usize, found: usize) -> (r: String)
    ensures
        r@ == arity_message(name@, expected as nat, found as nat),
{
    let mut s: String = cat3("`", name, "` takes ");
    s.append(count(expected).as_str());
    s.append(" type argument(s), found ");
    s.append(count(found).as_str());
    s
}

/// The type that a syntax denotes, and the reported errors. `seen` are the
/// aliases being expanded.
pub open spec fn lower(sc: Sc, t: TypeExpr, seen: Seq<DefId>, d: Seq<Diag>) -> (Ty, Seq<Diag>)
    decreases unseen(sc.decls.aliases, seen), type_size(t), 0nat,
{
    match t {
        TypeExpr::Const(n, _) => (Ty::Const(n), d),
        TypeExpr::Named { path, generics, span: _ } => lower_named(sc, path, generics@, seen, d),
        TypeExpr::Tuple(ts, _) => {
            let (args, d1) = lower_all(sc, ts@, 0, seen, Seq::empty(), d);
            (Ty::Tuple(args), d1)
        },
        TypeExpr::Array(a, _) => {
            let (x, d1) = lower(sc, *a, seen, d);
            (Ty::Array(Box::new(x)), d1)
        },
        TypeExpr::FixedArray { element, length, span } => {
            let (x, d1) = lower(sc, *element, seen, d);
            let (n, d2) = lower(sc, *length, seen, d1);
            if n is Const || n is Generic || n is Error {
                (Ty::FixedArray(Box::new(x), Box::new(n)), d2)
            } else {
                (
                    Ty::Error,
                    d2.push(
                        diag("fixed-array length must be a compile-time integer"@, span, "invalid fixed-array length"@),
                    ),
                )
            }
        },
        TypeExpr::Weak(a, span) => {
            let (x, d1) = lower(sc, *a, seen, d);
            let d2 = if !(x is Error) && !(kind_of_alloc(x, sc.defs()) is Heap) {
                d1.push(
                    diag("`weak` can only wrap a heap-allocated type"@, span, "this type is not heap-allocated"@),
                )
            } else {
                d1
            };
            (Ty::Weak(Box::new(x)), d2)
        },
        TypeExpr::Any(a, span) => lower_existential(sc, *a, span, false, seen, d),
        TypeExpr::Opaque(a, span) => lower_existential(sc, *a, span, true, seen, d),
        TypeExpr::Unique(a, _) => {
            let (x, d1) = lower(sc, *a, seen, d);
            (Ty::Unique(Box::new(x)), d1)
        },
        TypeExpr::Ref(a, _) => {
            let (x, d1) = lower(sc, *a, seen, d);
            (Ty::Ref(Box::new(x)), d1)
        },
        TypeExpr::MutRef(a, _) => {
            let (x, d1) = lower(sc, *a, seen, d);
            (Ty::MutRef(Box::new(x)), d1)
        },
        TypeExpr::RawConst(a, _) => {
            let (x, d1) = lower(sc, *a, seen, d);
            (Ty::RawConstPtr(Box::new(x)), d1)
        },
        TypeExpr::RawMut(a, _) => {
            let (x, d1) = lower(sc, *a, seen, d);
            (Ty::RawMutPtr(Box::new(x)), d1)
        },
        TypeExpr::Function { params, ret, span: _ } => {
            let (ps, d1) = lower_all(sc, params@, 0, seen, Seq::empty(), d);
            let (r, d2) = lower(sc, *ret, seen, d1);
            (Ty::Function(ps, Box::new(r)), d2)
        },
    }
}

/// The types from the `i`-th syntax on, after `acc`.
pub open spec fn lower_all(sc: Sc, ts: Seq<TypeExpr>, i: int, seen: Seq<DefId>, acc: Seq<Ty>, d: Seq<Diag>) -> (
    Seq<Ty>,
    Seq<Diag>,
)
    decreases unseen(sc.decls.aliases, seen), types_size(ts, i), 1nat,
{
    if 0 <= i < ts.len() {
        let (x, d1) = lower(sc, ts[i], seen, d);
        lower_all(sc, ts, i + 1, seen, acc.push(x), d1)
    } else {
        (acc, d)
    }
}

/// The type that a name with arguments denotes.
pub open spec fn lower_named(sc: Sc, path: Path, generics: Seq<TypeExpr>, seen: Seq<DefId>, d: Seq<Diag>) -> (
    Ty,
    Seq<Diag>,
)
    decreases unseen(sc.decls.aliases, seen), types_size(generics, 0), 4nat,
{
    match sc.names.path(path.id) {
        None => (Ty::Error, d),
        Some(res) => match res.base {
            Resolution::GenericParam => lower_parameter(path, generics, d),
            Resolution::ConstParam => lower_parameter(path, generics, d),
            Resolution::Def(id) => if res.consumed == 1 && path.segments@.len() == 2 {
                lower_projection(sc, id, path, generics, d)
            } else {
                lower_def(sc, id, path, generics, seen, d)
            },
            _ => (Ty::Error, d),
        },
    }
}

/// A generic parameter, or an associated type of one.
pub open spec fn lower_parameter(path: Path, generics: Seq<TypeExpr>, d: Seq<Diag>) -> (Ty, Seq<Diag>) {
    if path.segments@.len() == 0 {
        (Ty::Error, d)
    } else if path.segments@.len() == 1 {
        (Ty::Generic(path.segments@[0].name@), d)
    } else if path.segments@.len() == 2 && generics.len() == 0 {
        (Ty::Associated(Box::new(Ty::Generic(path.segments@[0].name@)), path.segments@[1].name@), d)
    } else {
        (
            Ty::Error,
            d.push(diag("an associated type projection has exactly two segments"@, path.span, "invalid projection"@)),
        )
    }
}

/// An associated type of a declared type.
pub open spec fn lower_projection(sc: Sc, id: DefId, path: Path, generics: Seq<TypeExpr>, d: Seq<Diag>) -> (
    Ty,
    Seq<Diag>,
)
    recommends
        path.segments@.len() == 2,
{
    if generics.len() > 0 {
        (
            Ty::Error,
            d.push(
                diag(
                    "generic arguments belong on the projection owner"@,
                    path.span,
                    "write the owner type before `.Associated`"@,
                ),
            ),
        )
    } else if sc.defs().kind_of(id) is Type {
        (Ty::Associated(Box::new(nominal_type(sc, id, Seq::empty())), path.segments@[1].name@), d)
    } else if sc.defs().kind_of(id) is Enum {
        (Ty::Associated(Box::new(Ty::Enum(id, Seq::empty())), path.segments@[1].name@), d)
    } else {
        (
            Ty::Error,
            d.push(
                diag(
                    "only a concrete type can own an associated type"@,
                    path.span,
                    "invalid associated type owner"@,
                ),
            ),
        )
    }
}

/// A declared struct type with its arguments, in the form it was declared.
pub open spec fn nominal_type(sc: Sc, id: DefId, args: Seq<Ty>) -> Ty {
    match sc.struct_decl(id) {
        Some(decl) => match decl.kind {
            StructDeclKind::TupleStruct(_) => Ty::TupleStruct(id, args),
            _ => Ty::Struct(id, args),
        },
        None => Ty::Struct(id, args),
    }
}

/// The type that a declared item with arguments denotes.
pub open spec fn lower_def(sc: Sc, id: DefId, path: Path, generics: Seq<TypeExpr>, seen: Seq<DefId>, d: Seq<Diag>) -> (
    Ty,
    Seq<Diag>,
)
    decreases unseen(sc.decls.aliases, seen), types_size(generics, 0), 3nat,
{
    let name = sc.name(id);
    if name == "String"@ {
        (Ty::String, d)
    } else if name == "Array"@ {
        if generics.len() == 1 {
            let (x, d1) = lower(sc, generics[0], seen, d);
            (Ty::Array(Box::new(x)), d1)
        } else {
            (Ty::Error, d.push(diag("`Array` takes exactly one type argument"@, path.span, "here"@)))
        }
    } else if prim_of_name(name) is Some {
        (Ty::Primitive(prim_of_name(name)->0), d)
    } else {
        match sc.defs().kind_of(id) {
            DefKind::Enum => {
                let expected = match sc.enum_decl(id) {
                    Some(decl) => decl.generics@.len(),
                    None => 0,
                };
                if generics.len() != expected {
                    (Ty::Error, d.push(diag(arity_message(name, expected, generics.len()), path.span, "here"@)))
                } else {
                    let (args, d1) = lower_all(sc, generics, 0, seen, Seq::empty(), d);
                    (Ty::Enum(id, args), d1)
                }
            },
            DefKind::Type => match sc.struct_decl(id) {
                None => if generics.len() == 0 {
                    (Ty::Struct(id, Seq::empty()), d)
                } else {
                    (
                        Ty::Error,
                        d.push(diag("`"@ + name + "` does not take type arguments"@, path.span, "here"@)),
                    )
                },
                Some(decl) => if generics.len() != decl.generics@.len() {
                    (
                        Ty::Error,
                        d.push(diag(arity_message(name, decl.generics@.len(), generics.len()), path.span, "here"@)),
                    )
                } else {
                    let (args, d1) = lower_all(sc, generics, 0, seen, Seq::empty(), d);
                    (nominal_type(sc, id, args), d1)
                },
            },
            DefKind::Trait => (
                Ty::Error,
                d.push(
                    diag(
                        "`"@ + name + "` is a trait and cannot be used as a value type"@,
                        path.span,
                        "use it as a generic bound instead"@,
                    ),
                ),
            ),
            DefKind::TypeAlias => if seen.contains(id) {
                (
                    Ty::Error,
                    d.push(
                        diag("type alias `"@ + name + "` is defined in terms of itself"@, path.span, "cyclic alias"@),
                    ),
                )
            } else {
                match sc.alias_decl(id) {
                    Some(decl) => {
                        proof {
                            lemma_pair_index(sc.decls.aliases, id);
                            lemma_unseen(sc.decls.aliases, seen, id);
                        }
                        lower(sc, decl.ty, seen.push(id), d)
                    },
                    None => (Ty::Error, d),
                }
            },
            _ => (Ty::Error, d),
        }
    }
}

/// The error for an `any`/`some` that names no trait.
pub open spec fn not_a_trait(span: Span, label: Seq<char>) -> Diag {
    diag("`any`/`some` must be followed by a trait name"@, span, label)
}

/// The existential type over a trait.
pub open spec fn lower_existential(sc: Sc, t: TypeExpr, span: Span, opaque: bool, seen: Seq<DefId>, d: Seq<Diag>) -> (
    Ty,
    Seq<Diag>,
)
    decreases unseen(sc.decls.aliases, seen), type_size(t), 5nat,
{
    match t {
        TypeExpr::Named { path, generics, span: _ } => match sc.names.path(path.id) {
            None => (Ty::Error, d),
            Some(res) => match res.base {
                Resolution::Def(id) => if !(sc.defs().kind_of(id) is Trait) {
                    (Ty::Error, d.push(not_a_trait(span, "this is not a trait"@)))
                } else {
                    let d1 = witness_errors(sc, id, Seq::empty(), d, (sc.decls.traits.len() + 1) as nat).1;
                    let expected = match sc.trait_decl(id) {
                        Some(decl) => decl.generics@.len(),
                        None => 0,
                    };
                    if generics@.len() != expected {
                        (
                            Ty::Error,
                            d1.push(
                                diag(
                                    "trait "@ + arity_message(sc.name(id), expected, generics@.len()),
                                    span,
                                    "wrong number of trait arguments"@,
                                ),
                            ),
                        )
                    } else {
                        let (args, d2) = lower_all(sc, generics@, 0, seen, Seq::empty(), d1);
                        (if opaque { Ty::Opaque(id, args) } else { Ty::Any(id, args) }, d2)
                    }
                },
                _ => (Ty::Error, d.push(not_a_trait(span, "not a trait"@))),
            },
        },
        _ => (Ty::Error, d.push(not_a_trait(span, "not a trait"@))),
    }
}

/// "trait `name` is not existential-safe"
pub open spec fn unsafe_trait(name: Seq<char>) -> Seq<char> {
    "trait `"@ + name + "` is not existential-safe"@
}

/// Whether a receiver belongs to the owned domain.
pub open spec fn owned_receiver(p: Option<SelfParam>) -> bool {
    p == Some(SelfParam::Owned) || p == Some(SelfParam::OwnedRef) || p == Some(SelfParam::OwnedMutRef)
}

/// The errors of a method that a witness table cannot hold.
pub open spec fn witness_method_errors(name: Seq<char>, m: FnDecl, d: Seq<Diag>) -> Seq<Diag> {
    let d1 = if owned_receiver(m.self_param) {
        d.push(
            diag(
                unsafe_trait(name) + ": owned-domain receivers cannot be stored in a reusable witness package"@,
                m.name.span,
                "owned-domain receivers cannot be stored in a reusable witness package"@,
            ),
        )
    } else {
        d
    };
    let d2 = if m.self_param is None {
        d1.push(
            diag(unsafe_trait(name), m.name.span, "static methods cannot be dispatched through `any`/`some`"@),
        )
    } else {
        d1
    };
    if m.generics@.len() > 0 {
        d2.push(
            diag(unsafe_trait(name), m.name.span, "generic methods cannot appear in an existential witness table"@),
        )
    } else {
        d2
    }
}

/// The errors of the trait's methods from the `i`-th on.
pub open spec fn witness_methods_errors(t: TraitDecl, i: int, d: Seq<Diag>) -> Seq<Diag>
    decreases t.methods@.len() - i,
{
    if 0 <= i < t.methods@.len() {
        witness_methods_errors(t, i + 1, witness_method_errors(t.name.name@, t.methods@[i], d))
    } else {
        d
    }
}

/// The errors of the trait's associated types from the `i`-th on.
pub open spec fn witness_types_errors(t: TraitDecl, i: int, d: Seq<Diag>) -> Seq<Diag>
    decreases t.associated_types@.len() - i,
{
    if 0 <= i < t.associated_types@.len() {
        let a = t.associated_types@[i];
        witness_types_errors(
            t,
            i + 1,
            if a.value is None {
                d.push(
                    diag(
                        unsafe_trait(t.name.name@),
                        a.name.span,
                        "an existential associated type needs a default binding"@,
                    ),
                )
            } else {
                d
            },
        )
    } else {
        d
    }
}

/// The traits looked at and the errors reported where a trait or one of its
/// ancestors cannot be dispatched through a witness table. Each trait is
/// looked at once; `depth` bounds how far parents are followed.
pub open spec fn witness_errors(sc: Sc, id: DefId, seen: Seq<DefId>, d: Seq<Diag>, depth: nat) -> (
    Seq<DefId>,
    Seq<Diag>,
)
    decreases depth, 1nat, 0int,
{
    if seen.contains(id) || depth == 0 {
        (seen, d)
    } else {
        match sc.trait_decl(id) {
            None => (seen.push(id), d),
            Some(t) => witness_parents(
                sc,
                t.parents@,
                0,
                seen.push(id),
                witness_types_errors(t, 0, witness_methods_errors(t, 0, d)),
                (depth - 1) as nat,
            ),
        }
    }
}

/// The same for the parents from the `i`-th on.
pub open spec fn witness_parents(
    sc: Sc,
    parents: Seq<TypeExpr>,
    i: int,
    seen: Seq<DefId>,
    d: Seq<Diag>,
    depth: nat,
) -> (Seq<DefId>, Seq<Diag>)
    decreases depth, 2nat, parents.len() - i,
{
    if 0 <= i < parents.len() {
        match named_def(sc, parents[i]) {
            Some(id) => {
                let (seen1, d1) = witness_errors(sc, id, seen, d, depth);
                witness_parents(sc, parents, i + 1, seen1, d1, depth)
            },
            None => witness_parents(sc, parents, i + 1, seen, d, depth),
        }
    } else {
        (seen, d)
    }
}

/// The item that a type's syntax names.
pub open spec fn named_def(sc: Sc, t: TypeExpr) -> Option<DefId> {
    match t {
        TypeExpr::Named { path, .. } => match sc.names.path(path.id) {
            Some(res) => match res.base {
                Resolution::Def(id) => Some(id),
                _ => None,
            },
            None => None,
        },
        _ => None,
    }
}

/// The type that a syntax denotes, from scratch.
pub open spec fn lowered(sc: Sc, t: TypeExpr, d: Seq<Diag>) -> (Ty, Seq<Diag>) {
    lower(sc, t, Seq::empty(), d)
}

/// The types that the syntaxes from the `i`-th on denote, after `acc`.
pub open spec fn lowered_all(sc: Sc, ts: Seq<TypeExpr>, i: int, acc: Seq<Ty>, d: Seq<Diag>) -> (Seq<Ty>, Seq<Diag>)
    decreases ts.len() - i,
{
    if 0 <= i < ts.len() {
        let (x, d1) = lowered(sc, ts[i], d);
        lowered_all(sc, ts, i + 1, acc.push(x), d1)
    } else {
        (acc, d)
    }
}

/// The bound that a syntax denotes.
pub open spec fn lowered_bound(sc: Sc, t: TypeExpr, d: Seq<Diag>) -> (Option<Bound>, Seq<Diag>) {
    match t {
        TypeExpr::Named { path, generics, span } => match named_def(sc, t) {
            None => (None, d),
            Some(id) => if !(sc.defs().kind_of(id) is Trait) {
                (None, d.push(diag("`"@ + sc.name(id) + "` is not a trait"@, span, "used as a bound here"@)))
            } else if generics@.len() != sc.trait_arity(id) {
                (
                    None,
                    d.push(
                        diag(arity_message(sc.name(id), sc.trait_arity(id), generics@.len()), path.span, "here"@),
                    ),
                )
            } else {
                let (args, d1) = lowered_all(sc, generics@, 0, Seq::empty(), d);
                (Some(Bound { trait_id: id, args }), d1)
            },
        },
        _ => (None, d.push(diag("a generic bound must name a trait"@, type_span(t), "not a trait"@))),
    }
}

/// The bounds that the syntaxes from the `i`-th on denote, after `acc`.
pub open spec fn lowered_bounds(sc: Sc, ts: Seq<TypeExpr>, i: int, acc: Seq<Bound>, d: Seq<Diag>) -> (
    Seq<Bound>,
    Seq<Diag>,
)
    decreases ts.len() - i,
{
    if 0 <= i < ts.len() {
        let (b, d1) = lowered_bound(sc, ts[i], d);
        lowered_bounds(
            sc,
            ts,
            i + 1,
            match b {
                Some(bound) => acc.push(bound),
                None => acc,
            },
            d1,
        )
    } else {
        (acc, d)
    }
}

impl<'a> Scope<'a> {
    /// The type that `ty` denotes.
    pub fn lower_type_expr(&self, ty: &TypeExpr, diags: &mut Vec<Diagnostic>) -> (r: Type)
        ensures
            (r@, final(diags).deep_view()) == lowered(self@, *ty, old(diags).deep_view()),
    {
        let seen: Vec<DefId> = Vec::new();
        proof {
            assert(seen.deep_view() =~= Seq::<DefId>::empty());
        }
        self.lower_type_expr_inner(ty, &seen, diags)
    }

    fn lower_type_expr_inner(&self, ty: &TypeExpr, seen: &Vec<DefId>, diags: &mut Vec<Diagnostic>) -> (r: Type)
        ensures
            (r@, final(diags).deep_view()) == lower(self@, *ty, seen.deep_view(), old(diags).deep_view()),
        decreases unseen(self@.decls.aliases, seen.deep_view()), type_size(*ty), 0nat,
    {
        match ty {
            TypeExpr::Const(n, _) => Type::Const(*n),
            TypeExpr::Named { path, generics, span: _ } => self.lower_named_type(path, generics, seen, diags),
            TypeExpr::Tuple(ts, _) => Type::Tuple(self.lower_list(ts, seen, diags)),
            TypeExpr::Array(a, _) => Type::Array(Box::new(self.lower_type_expr_inner(a, seen, diags))),
            TypeExpr::FixedArray { element, length, span } => {
                let element = self.lower_type_expr_inner(element, seen, diags);
                let length = self.lower_type_expr_inner(length, seen, diags);
                if matches!(length, Type::Const(_) | Type::Generic(_) | Type::Error) {
                    Type::FixedArray(Box::new(element), Box::new(length))
                } else {
                    report(
                        diags,
                        "fixed-array length must be a compile-time integer",
                        *span,
                        "invalid fixed-array length",
                    );
                    Type::Error
                }
            },
            TypeExpr::Weak(a, span) => {
                let inner = self.lower_type_expr_inner(a, seen, diags);
                if !inner.is_error() && !is_heap(&inner, &self.names.definitions) {
                    report(
                        diags,
                        "`weak` can only wrap a heap-allocated type",
                        *span,
                        "this type is not heap-allocated",
                    );
                }
                Type::Weak(Box::new(inner))
            },
            TypeExpr::Any(a, span) => self.lower_existential_type(a, *span, false, seen, diags),
            TypeExpr::Opaque(a, span) => self.lower_existential_type(a, *span, true, seen, diags),
            TypeExpr::Unique(a, _) => Type::Unique(Box::new(self.lower_type_expr_inner(a, seen, diags))),
            TypeExpr::Ref(a, _) => Type::Ref(Box::new(self.lower_type_expr_inner(a, seen, diags))),
            TypeExpr::MutRef(a, _) => Type::MutRef(Box::new(self.lower_type_expr_inner(a, seen, diags))),
            TypeExpr::RawConst(a, _) => Type::RawConstPtr(Box::new(self.lower_type_expr_inner(a, seen, diags))),
            TypeExpr::RawMut(a, _) => Type::RawMutPtr(Box::new(self.lower_type_expr_inner(a, seen, diags))),
            TypeExpr::Function { params, ret, span: _ } => {
                let ps = self.lower_list(params, seen, diags);
                let r = self.lower_type_expr_inner(ret, seen, diags);
                Type::Function(ps, Box::new(r))
            },
        }
    }

    fn lower_list(&self, ts: &Vec<TypeExpr>, seen: &Vec<DefId>, diags: &mut Vec<Diagnostic>) -> (r: Vec<Type>)
        ensures
            (tys(r@), final(diags).deep_view()) == lower_all(
                self@,
                ts@,
                0,
                seen.deep_view(),
                Seq::empty(),
                old(diags).deep_view(),
            ),
        decreases unseen(self@.decls.aliases, seen.deep_view()), types_size(ts@, 0), 1nat,
    {
        let mut out: Vec<Type> = Vec::new();
        let mut i: usize = 0;
        while i < ts.len()
            invariant
                i <= ts.len(),
                types_size(ts@, i as int) <= types_size(ts@, 0),
                lower_all(self@, ts@, i as int, seen.deep_view(), tys(out@), diags.deep_view()) == lower_all(
                    self@,
                    ts@,
                    0,
                    seen.deep_view(),
                    Seq::empty(),
                    old(diags).deep_view(),
                ),
            decreases ts.len() - i,
        {
            let t = self.lower_type_expr_inner(&ts[i], seen, diags);
            out.push(t);
            i += 1;
        }
        out
    }

    fn lower_named_type(&self, path: &Path, generics: &Vec<TypeExpr>, seen: &Vec<DefId>, diags: &mut Vec<Diagnostic>) -> (r: Type)
        ensures
            (r@, final(diags).deep_view()) == lower_named(
                self@,
                *path,
                generics@,
                seen.deep_view(),
                old(diags).deep_view(),
            ),
        decreases unseen(self@.decls.aliases, seen.deep_view()), types_size(generics@, 0), 4nat,
    {
        match self.names.path_of(path.id) {
            None => Type::Error,
            Some(res) => match res.base {
                Resolution::GenericParam | Resolution::ConstParam => lower_parameter_type(path, generics, diags),
                Resolution::Def(id) => if res.consumed == 1 && path.segments.len() == 2 {
                    self.lower_projected_type(id, path, generics, diags)
                } else {
                    self.lower_declared_type(id, path, generics, seen, diags)
                },
                _ => Type::Error,
            },
        }
    }

    fn lower_projected_type(&self, id: DefId, path: &Path, generics: &Vec<TypeExpr>, diags: &mut Vec<Diagnostic>) -> (r: Type)
        requires
            path.segments@.len() == 2,
        ensures
            (r@, final(diags).deep_view()) == lower_projection(self@, id, *path, generics@, old(diags).deep_view()),
    {
        if generics.len() > 0 {
            report(
                diags,
                "generic arguments belong on the projection owner",
                path.span,
                "write the owner type before `.Associated`",
            );
            return Type::Error;
        }
        match self.names.definitions.kind(id) {
            DefKind::Type => {
                let owner = self.nominal(id, no_types());
                Type::projection(owner, &path.segments[1].name)
            },
            DefKind::Enum => Type::projection(Type::Enum(id, no_types()), &path.segments[1].name),
            _ => {
                report(
                    diags,
                    "only a concrete type can own an associated type",
                    path.span,
                    "invalid associated type owner",
                );
                Type::Error
            },
        }
    }

    /// A declared struct type with its arguments.
    pub fn nominal(&self, id: DefId, args: Vec<Type>) -> (r: Type)
        ensures
            r@ == nominal_type(self@, id, tys(args@)),
    {
        match self.struct_decl(id) {
            Some(decl) => match &decl.kind {
                StructDeclKind::TupleStruct(_) => Type::TupleStruct(id, args),
                _ => Type::Struct(id, args),
            },
            None => Type::Struct(id, args),
        }
    }

    fn lower_declared_type(
        &self,
        id: DefId,
        path: &Path,
        generics: &Vec<TypeExpr>,
        seen: &Vec<DefId>,
        diags: &mut Vec<Diagnostic>,
    ) -> (r: Type)
        ensures
            (r@, final(diags).deep_view()) == lower_def(
                self@,
                id,
                *path,
                generics@,
                seen.deep_view(),
                old(diags).deep_view(),
            ),
        decreases unseen(self@.decls.aliases, seen.deep_view()), types_size(generics@, 0), 3nat,
    {
        let name = self.names.definitions.name(id);
        if str_eq(name, "String") {
            return Type::String;
        }
        if str_eq(name, "Array") {
            if generics.len() == 1 {
                let t = self.lower_type_expr_inner(&generics[0], seen, diags);
                return Type::Array(Box::new(t));
            }
            report(diags, "`Array` takes exactly one type argument", path.span, "here");
            return Type::Error;
        }
        if let Some(p) = PrimitiveKind::from_name(name) {
            return Type::Primitive(p);
        }
        match self.names.definitions.kind(id) {
            DefKind::Enum => {
                let expected: usize = match self.enum_decl(id) {
                    Some(decl) => decl.generics.len(),
                    None => 0,
                };
                if generics.len() != expected {
                    let message = arity_text(name, expected, generics.len());
                    report(diags, message.as_str(), path.span, "here");
                    return Type::Error;
                }
                Type::Enum(id, self.lower_list(generics, seen, diags))
            },
            DefKind::Type => match self.struct_decl(id) {
                None => {
                    if generics.len() == 0 {
                        return Type::Struct(id, no_types());
                    }
                    let message = cat3("`", name, "` does not take type arguments");
                    report(diags, message.as_str(), path.span, "here");
                    Type::Error
                },
                Some(decl) => {
                    if generics.len() != decl.generics.len() {
                        let message = arity_text(name, decl.generics.len(), generics.len());
                        report(diags, message.as_str(), path.span, "here");
                        return Type::Error;
                    }
                    let args = self.lower_list(generics, seen, diags);
                    self.nominal(id, args)
                },
            },
            DefKind::Trait => {
                let message = cat3("`", name, "` is a trait and cannot be used as a value type");
                report(diags, message.as_str(), path.span, "use it as a generic bound instead");
                Type::Error
            },
            DefKind::TypeAlias => {
                if occurs(seen, &id) {
                    let message = cat3("type alias `", name, "` is defined in terms of itself");
                    report(diags, message.as_str(), path.span, "cyclic alias");
                    return Type::Error;
                }
                match self.alias_decl(id) {
                    Some(decl) => {
                        let mut deeper = seen.dup();
                        put(&mut deeper, id);
                        proof {
                            lemma_pair_index(self@.decls.aliases, id);
                            lemma_unseen(self@.decls.aliases, seen.deep_view(), id);
                        }
                        self.lower_type_expr_inner(&decl.ty, &deeper, diags)
                    },
                    None => Type::Error,
                }
            },
            _ => Type::Error,
        }
    }

    fn lower_existential_type(
        &self,
        syntax: &TypeExpr,
        span: Span,
        opaque: bool,
        seen: &Vec<DefId>,
        diags: &mut Vec<Diagnostic>,
    ) -> (r: Type)
        ensures
            (r@, final(diags).deep_view()) == lower_existential(
                self@,
                *syntax,
                span,
                opaque,
                seen.deep_view(),
                old(diags).deep_view(),
            ),
        decreases unseen(self@.decls.aliases, seen.deep_view()), type_size(*syntax), 5nat,
    {
        match syntax {
            TypeExpr::Named { path, generics, span: _ } => {
                let res = match self.names.path_of(path.id) {
                    Some(res) => res,
                    None => {
                        return Type::Error;
                    },
                };
                match res.base {
                    Resolution::Def(id) => {
                        if !matches!(self.names.definitions.kind(id), DefKind::Trait) {
                            report(
                                diags,
                                "`any`/`some` must be followed by a trait name",
                                span,
                                "this is not a trait",
                            );
                            return Type::Error;
                        }
                        let mut visited: Vec<DefId> = Vec::new();
                        proof {
                            assert(visited.deep_view() =~= Seq::<DefId>::empty());
                        }
                        let depth: usize = self.decls.trait_decls.entries.len();
                        self.validate_existential_safety(id, &mut visited, diags, depth as u128 + 1);
                        let expected: usize = match self.trait_decl(id) {
                            Some(decl) => decl.generics.len(),
                            None => 0,
                        };
                        if generics.len() != expected {
                            let mut message: String = "trait ".to_owned();
                            message.append(
                                arity_text(self.names.definitions.name(id), expected, generics.len()).as_str(),
                            );
                            report(diags, message.as_str(), span, "wrong number of trait arguments");
                            return Type::Error;
                        }
                        let args = self.lower_list(generics, seen, diags);
                        if opaque {
                            Type::Opaque(id, args)
                        } else {
                            Type::Any(id, args)
                        }
                    },
                    _ => {
                        report(diags, "`any`/`some` must be followed by a trait name", span, "not a trait");
                        Type::Error
                    },
                }
            },
            _ => {
                report(diags, "`any`/`some` must be followed by a trait name", span, "not a trait");
                Type::Error
            },
        }
    }

    /// Reports what keeps a trait and its ancestors out of a witness table.
    fn validate_existential_safety(&self, id: DefId, seen: &mut Vec<DefId>, diags: &mut Vec<Diagnostic>, depth: u128)
        ensures
            (final(seen).deep_view(), final(diags).deep_view()) == witness_errors(
                self@,
                id,
                old(seen).deep_view(),
                old(diags).deep_view(),
                depth as nat,
            ),
        decreases depth, 1nat,
    {
        if occurs(seen, &id) || depth == 0 {
            return;
        }
        put(seen, id);
        match self.trait_decl(id) {
            None => {},
            Some(decl) => {
                let ghost d0 = diags.deep_view();
                let mut i: usize = 0;
                while i < decl.methods.len()
                    invariant
                        i <= decl.methods.len(),
                        witness_methods_errors(*decl, i as int, diags.deep_view()) == witness_methods_errors(*decl, 0, d0),
                    decreases decl.methods.len() - i,
                {
                    witness_method_check(decl.name.name.as_str(), &decl.methods[i], diags);
                    i += 1;
                }
                let ghost d1 = diags.deep_view();
                let mut j: usize = 0;
                while j < decl.associated_types.len()
                    invariant
                        j <= decl.associated_types.len(),
                        witness_types_errors(*decl, j as int, diags.deep_view()) == witness_types_errors(*decl, 0, d1),
                    decreases decl.associated_types.len() - j,
                {
                    if decl.associated_types[j].value.is_none() {
                        let message = unsafe_trait_text(decl.name.name.as_str());
                        report(
                            diags,
                            message.as_str(),
                            decl.associated_types[j].name.span,
                            "an existential associated type needs a default binding",
                        );
                    }
                    j += 1;
                }
                let ghost d2 = diags.deep_view();
                let ghost s2 = seen.deep_view();
                let mut k: usize = 0;
                while k < decl.parents.len()
                    invariant
                        k <= decl.parents.len(),
                        depth > 0,
                        witness_parents(
                            self@,
                            decl.parents@,
                            k as int,
                            seen.deep_view(),
                            diags.deep_view(),
                            (depth - 1) as nat,
                        ) == witness_parents(self@, decl.parents@, 0, s2, d2, (depth - 1) as nat),
                    decreases decl.parents.len() - k,
                {
                    if let Some(parent) = self.type_expr_def_id(&decl.parents[k]) {
                        self.validate_existential_safety(parent, seen, diags, depth - 1);
                    }
                    k += 1;
                }
            },
        }
    }

    /// The item that a type's syntax names.
    pub fn type_expr_def_id(&self, ty: &TypeExpr) -> (r: Option<DefId>)
        ensures
            r == named_def(self@, *ty),
    {
        match ty {
            TypeExpr::Named { path, .. } => match self.names.path_of(path.id) {
                Some(res) => match res.base {
                    Resolution::Def(id) => Some(id),
                    _ => None,
                },
                None => None,
            },
            _ => None,
        }
    }

    /// The types that the syntaxes denote.
    pub fn lower_types(&self, ts: &Vec<TypeExpr>, diags: &mut Vec<Diagnostic>) -> (r: Vec<Type>)
        ensures
            (r.deep_view(), final(diags).deep_view()) == lowered_all(
                self@,
                ts@,
                0,
                Seq::empty(),
                old(diags).deep_view(),
            ),
    {
        let mut out: Vec<Type> = Vec::new();
        proof {
            assert(out.deep_view() =~= Seq::empty());
        }
        let mut i: usize = 0;
        while i < ts.len()
            invariant
                i <= ts.len(),
                lowered_all(self@, ts@, i as int, out.deep_view(), diags.deep_view()) == lowered_all(
                    self@,
                    ts@,
                    0,
                    Seq::empty(),
                    old(diags).deep_view(),
                ),
            decreases ts.len() - i,
        {
            let t = self.lower_type_expr(&ts[i], diags);
            put(&mut out, t);
            i += 1;
        }
        out
    }

    /// The bound that a syntax denotes.
    pub fn lower_generic_bound(&self, ty: &TypeExpr, diags: &mut Vec<Diagnostic>) -> (r: Option<GenericBound>)
        ensures
            (r.deep_view(), final(diags).deep_view()) == lowered_bound(self@, *ty, old(diags).deep_view()),
    {
        match ty {
            TypeExpr::Named { path, generics, span } => {
                let id = match self.type_expr_def_id(ty) {
                    Some(id) => id,
                    None => {
                        return None;
                    },
                };
                let name = self.names.definitions.name(id);
                if !matches!(self.names.definitions.kind(id), DefKind::Trait) {
                    let message = cat3("`", name, "` is not a trait");
                    report(diags, message.as_str(), *span, "used as a bound here");
                    return None;
                }
                let expected: usize = self.trait_arity(id);
                if generics.len() != expected {
                    let message = arity_text(name, expected, generics.len());
                    report(diags, message.as_str(), path.span, "here");
                    return None;
                }
                let args = self.lower_types(generics, diags);
                Some(GenericBound { trait_id: id, args })
            },
            _ => {
                report(diags, "a generic bound must name a trait", ty.span(), "not a trait");
                None
            },
        }
    }

    /// The bounds that the syntaxes denote.
    pub fn lower_bounds(&self, ts: &Vec<TypeExpr>, diags: &mut Vec<Diagnostic>) -> (r: Vec<GenericBound>)
        ensures
            (r.deep_view(), final(diags).deep_view()) == lowered_bounds(
                self@,
                ts@,
                0,
                Seq::empty(),
                old(diags).deep_view(),
            ),
    {
        let mut out: Vec<GenericBound> = Vec::new();
        proof {
            assert(out.deep_view() =~= Seq::empty());
        }
        let mut i: usize = 0;
        while i < ts.len()
            invariant
                i <= ts.len(),
                lowered_bounds(self@, ts@, i as int, out.deep_view(), diags.deep_view()) == lowered_bounds(
                    self@,
                    ts@,
                    0,
                    Seq::empty(),
                    old(diags).deep_view(),
                ),
            decreases ts.len() - i,
        {
            if let Some(b) = self.lower_generic_bound(&ts[i], diags) {
                put(&mut out, b);
            }
            i += 1;
        }
        out
    }
}

fn lower_parameter_type(path: &Path, generics: &Vec<TypeExpr>, diags: &mut Vec<Diagnostic>) -> (r: Type)
    ensures
        (r@, final(diags).deep_view()) == lower_parameter(*path, generics@, old(diags).deep_view()),
{
    if path.segments.len() == 0 {
        return Type::Error;
    }
    let owner = Type::parameter(&path.segments[0].name);
    if path.segments.len() == 1 {
        owner
    } else if path.segments.len() == 2 && generics.len() == 0 {
        Type::projection(owner, &path.segments[1].name)
    } else {
        report(
            diags,
            "an associated type projection has exactly two segments",
            path.span,
            "invalid projection",
        );
        Type::Error
    }
}

fn unsafe_trait_text(name: &str) -> (r: String)
    ensures
        r@ == unsafe_trait(name@),
{
    cat3("trait `", name, "` is not existential-safe")
}

fn witness_method_check(name: &str, m: &FnDecl, diags: &mut Vec<Diagnostic>)
    ensures
        final(diags).deep_view() == witness_method_errors(name@, *m, old(diags).deep_view()),
{
    if matches!(m.self_param, Some(SelfParam::Owned | SelfParam::OwnedRef | SelfParam::OwnedMutRef)) {
        let mut message: String = unsafe_trait_text(name);
        message.append(": owned-domain receivers cannot be stored in a reusable witness package");
        report(
            diags,
            message.as_str(),
            m.name.span,
            "owned-domain receivers cannot be stored in a reusable witness package",
        );
    }
    if m.self_param.is_none() {
        let message = unsafe_trait_text(name);
        report(
            diags,
            message.as_str(),
            m.name.span,
            "static methods cannot be dispatched through `any`/`some`",
        );
    }
    if m.generics.len() > 0 {
        let message = unsafe_trait_text(name);
        report(
            diags,
            message.as_str(),
            m.name.span,
            "generic methods cannot appear in an existential witness table",
        );
    }
}

} // verus!
