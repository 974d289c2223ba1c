//! Resolved signatures of declarations.
use crate::datum::{Datum, Dup};
use crate::ids::{DefId, FileId, NodeId, SelfParam, Symbol, Visibility};
use crate::table::Table;
use crate::ty::{dup_types, group_tys, same_types, Ty, Type};
use vstd::prelude::*;

verus! {

broadcast use group_tys;

/// The implicit generic parameter that counts the arguments of a variadic
/// parameter.
pub fn variadic_len_param() -> (r: Symbol)
    ensures
        r@ == "$variadic_len"@,
{
    "$variadic_len".to_owned()
}

/// A trait with its type arguments.
#[derive(Debug)]
pub struct GenericBound {
    pub trait_id: DefId,
    pub args: Vec<Type>,
}

/// What a [`GenericBound`] denotes.
pub struct Bound {
    pub trait_id: DefId,
    pub args: Seq<Ty>,
}

impl DeepView for GenericBound {
    type V = Bound;

    open spec fn deep_view(&self) -> Bound {
        Bound { trait_id: self.trait_id, args: self.args.deep_view() }
    }
}

impl Dup for GenericBound {
    fn dup(&self) -> (r: Self) {
        GenericBound { trait_id: self.trait_id, args: dup_types(&self.args) }
    }
}

impl Datum for GenericBound {
    fn same(&self, other: &Self) -> (r: bool) {
        self.trait_id == other.trait_id && same_types(&self.args, &other.args)
    }
}

/// Which ownership domain a method's receiver belongs to. `f(self)` and
/// `f(: self)` are distinct overloads of one type.
#[derive(Debug, Clone, Copy, PartialEq, Eq, Hash, Structural)]
pub enum ReceiverDomain {
    /// No receiver.
    Static,
    /// `self` and `mut self`
    Arc,
    /// `: self`, `: &self` and `: &mut self`
    Owned,
}

impl DeepView for ReceiverDomain {
    type V = ReceiverDomain;

    open spec fn deep_view(&self) -> ReceiverDomain {
        *self
    }
}

impl Dup for ReceiverDomain {
    fn dup(&self) -> (r: Self) {
        *self
    }
}

impl Datum for ReceiverDomain {
    fn same(&self, other: &Self) -> (r: bool) {
        *self == *other
    }
}

/// The domain of a declared receiver.
pub open spec fn domain_of_self(self_param: Option<SelfParam>) -> ReceiverDomain {
    match self_param {
        None => ReceiverDomain::Static,
        Some(SelfParam::ByRef) => ReceiverDomain::Arc,
        Some(SelfParam::ByMutRef) => ReceiverDomain::Arc,
        Some(_) => ReceiverDomain::Owned,
    }
}

/// The domain of a receiver value.
pub open spec fn domain_of_value(t: Ty) -> ReceiverDomain {
    if t is Unique || t is Ref || t is MutRef {
        ReceiverDomain::Owned
    } else {
        ReceiverDomain::Arc
    }
}

impl ReceiverDomain {
    /// The domain of a declared receiver.
    pub fn of_self_param(self_param: Option<&SelfParam>) -> (r: Self)
        ensures
            r == domain_of_self(self_param.deep_view()),
    {
        match self_param {
            None => ReceiverDomain::Static,
            Some(SelfParam::ByRef) | Some(SelfParam::ByMutRef) => ReceiverDomain::Arc,
            Some(_) => ReceiverDomain::Owned,
        }
    }

    /// The domain of a receiver value of type `ty`; never `Static`.
    pub fn of_receiver_ty(ty: &Type) -> (r: Self)
        ensures
            r == domain_of_value(ty@),
            r != ReceiverDomain::Static,
    {
        match ty {
            Type::Unique(_) | Type::Ref(_) | Type::MutRef(_) => ReceiverDomain::Owned,
            _ => ReceiverDomain::Arc,
        }
    }
}

/// A parameter that a returned reference may originate from.
#[derive(Debug, Clone, Copy, PartialEq, Eq, Hash, Structural)]
pub enum ReturnOrigin {
    SelfValue,
    Parameter(usize),
}

impl DeepView for ReturnOrigin {
    type V = ReturnOrigin;

    open spec fn deep_view(&self) -> ReturnOrigin {
        *self
    }
}

impl Dup for ReturnOrigin {
    fn dup(&self) -> (r: Self) {
        *self
    }
}

impl Datum for ReturnOrigin {
    fn same(&self, other: &Self) -> (r: bool) {
        *self == *other
    }
}

/// A parameter of a signature. For the variadic parameter, which is the last
/// one, `ty` is the element type.
#[derive(Debug)]
pub struct ParamSig {
    pub name: Symbol,
    pub mutable: bool,
    pub variadic: bool,
    pub ty: Type,
}

/// What a [`ParamSig`] denotes.
pub struct PSig {
    pub name: Seq<char>,
    pub mutable: bool,
    pub variadic: bool,
    pub ty: Ty,
}

impl DeepView for ParamSig {
    type V = PSig;

    open spec fn deep_view(&self) -> PSig {
        PSig { name: self.name@, mutable: self.mutable, variadic: self.variadic, ty: self.ty@ }
    }
}

impl Dup for ParamSig {
    fn dup(&self) -> (r: Self) {
        ParamSig {
            name: self.name.clone(),
            mutable: self.mutable,
            variadic: self.variadic,
            ty: self.ty.clone(),
        }
    }
}

/// The signature of a function or method.
pub struct FnSig {
    pub visibility: Visibility,
    pub file: FileId,
    pub self_param: Option<SelfParam>,
    pub is_async: bool,
    pub is_unsafe: bool,
    pub is_foreign: bool,
    pub params: Vec<ParamSig>,
    pub ret: Type,
    /// Generic parameters with their bounds; an owner's come first.
    pub generics: Vec<(Symbol, Vec<GenericBound>)>,
    /// The types of the compile-time integer parameters.
    pub const_params: Table<Symbol, Type>,
    /// Which parameters a returned reference may originate from.
    pub return_origins: Vec<ReturnOrigin>,
}

/// What a [`FnSig`] denotes.
pub struct Sig {
    pub visibility: Visibility,
    pub file: FileId,
    pub self_param: Option<SelfParam>,
    pub is_async: bool,
    pub is_unsafe: bool,
    pub is_foreign: bool,
    pub params: Seq<PSig>,
    pub ret: Ty,
    pub generics: Seq<(Seq<char>, Seq<Bound>)>,
    pub const_params: Map<Seq<char>, Ty>,
    pub return_origins: Seq<ReturnOrigin>,
}

impl DeepView for FnSig {
    type V = Sig;

    open spec fn deep_view(&self) -> Sig {
        Sig {
            visibility: self.visibility,
            file: self.file,
            self_param: self.self_param,
            is_async: self.is_async,
            is_unsafe: self.is_unsafe,
            is_foreign: self.is_foreign,
            params: self.params.deep_view(),
            ret: self.ret@,
            generics: self.generics.deep_view(),
            const_params: self.const_params@,
            return_origins: self.return_origins.deep_view(),
        }
    }
}

impl Dup for FnSig {
    fn dup(&self) -> (r: Self) {
        FnSig {
            visibility: self.visibility,
            file: self.file,
            self_param: self.self_param,
            is_async: self.is_async,
            is_unsafe: self.is_unsafe,
            is_foreign: self.is_foreign,
            params: self.params.dup(),
            ret: self.ret.clone(),
            generics: self.generics.dup(),
            const_params: self.const_params.dup(),
            return_origins: self.return_origins.dup(),
        }
    }
}

/// The signatures of one method name in one domain: the one for every
/// instance of the owner, and those for particular owner arguments.
pub struct MethodSet {
    pub generic: Option<FnSig>,
    pub specializations: Vec<(Vec<Type>, FnSig)>,
}

/// What a [`MethodSet`] denotes.
pub struct Methods {
    pub generic: Option<Sig>,
    pub specializations: Seq<(Seq<Ty>, Sig)>,
}

impl DeepView for MethodSet {
    type V = Methods;

    open spec fn deep_view(&self) -> Methods {
        Methods { generic: self.generic.deep_view(), specializations: self.specializations.deep_view() }
    }
}

impl Dup for MethodSet {
    fn dup(&self) -> (r: Self) {
        MethodSet { generic: self.generic.dup(), specializations: self.specializations.dup() }
    }
}

/// The first signature from the `i`-th on that is for exactly these arguments.
pub open spec fn specialized(s: Seq<(Seq<Ty>, Sig)>, args: Seq<Ty>, i: int) -> Option<Sig>
    decreases s.len() - i,
{
    if 0 <= i < s.len() {
        if s[i].0 == args {
            Some(s[i].1)
        } else {
            specialized(s, args, i + 1)
        }
    } else {
        None
    }
}

impl Methods {
    /// No signatures.
    pub open spec fn none() -> Methods {
        Methods { generic: None, specializations: Seq::empty() }
    }

    /// The signature for an owner with these arguments: an exactly matching
    /// specialization, else the general one.
    pub open spec fn chosen(self, args: Seq<Ty>) -> Option<Sig> {
        match specialized(self.specializations, args, 0) {
            Some(sig) => Some(sig),
            None => self.generic,
        }
    }
}

impl MethodSet {
    pub fn new() -> (r: Self)
        ensures
            r.deep_view() == Methods::none(),
    {
        let r = MethodSet { generic: None, specializations: Vec::new() };
        proof {
            assert(r.deep_view().specializations =~= Seq::empty());
        }
        r
    }

    /// The specialization for exactly these arguments.
    pub fn exact(&self, args: &Vec<Type>) -> (r: Option<&FnSig>)
        ensures
            r.deep_view() == specialized(self.specializations.deep_view(), args.deep_view(), 0),
    {
        let mut i: usize = 0;
        while i < self.specializations.len()
            invariant
                i <= self.specializations.len(),
                specialized(self.specializations.deep_view(), args.deep_view(), 0) == specialized(
                    self.specializations.deep_view(),
                    args.deep_view(),
                    i as int,
                ),
            decreases self.specializations.len() - i,
        {
            if same_types(&self.specializations[i].0, args) {
                return Some(&self.specializations[i].1);
            }
            i += 1;
        }
        None
    }

    /// The signature for an owner with these arguments.
    pub fn for_args(&self, args: &Vec<Type>) -> (r: Option<&FnSig>)
        ensures
            r.deep_view() == self.deep_view().chosen(args.deep_view()),
    {
        match self.exact(args) {
            Some(sig) => Some(sig),
            None => match &self.generic {
                Some(sig) => Some(sig),
                None => None,
            },
        }
    }
}

/// The fields of a declared type.
pub enum TypeShape {
    Struct(Vec<(Symbol, Type)>),
    TupleStruct(Vec<Type>),
    Unit,
}

/// What a [`TypeShape`] denotes.
pub enum Shape {
    Struct(Seq<(Seq<char>, Ty)>),
    TupleStruct(Seq<Ty>),
    Unit,
}

impl DeepView for TypeShape {
    type V = Shape;

    open spec fn deep_view(&self) -> Shape {
        match *self {
            TypeShape::Struct(fields) => Shape::Struct(fields.deep_view()),
            TypeShape::TupleStruct(fields) => Shape::TupleStruct(fields.deep_view()),
            TypeShape::Unit => Shape::Unit,
        }
    }
}

/// The variants of an enum, with payloads in terms of its parameters.
pub struct EnumSig {
    pub generics: Vec<Symbol>,
    pub variants: Vec<(Symbol, Vec<Type>)>,
}

/// What an [`EnumSig`] denotes.
pub struct EnumShape {
    pub generics: Seq<Seq<char>>,
    pub variants: Seq<(Seq<char>, Seq<Ty>)>,
}

impl DeepView for EnumSig {
    type V = EnumShape;

    open spec fn deep_view(&self) -> EnumShape {
        EnumShape { generics: self.generics.deep_view(), variants: self.variants.deep_view() }
    }
}

/// An associated constant of a concrete owner.
pub struct AssociatedConstSig {
    pub visibility: Visibility,
    pub file: FileId,
    pub ty: Type,
    /// The expression that gives the value.
    pub value: NodeId,
}

/// An associated constant of a trait.
pub struct TraitAssociatedConstSig {
    pub visibility: Visibility,
    pub file: FileId,
    pub ty: Type,
    /// The expression that gives the default value.
    pub default: Option<NodeId>,
}

/// What an associated constant's signature denotes; a concrete owner's
/// always has a value.
pub struct ConstSig {
    pub visibility: Visibility,
    pub file: FileId,
    pub ty: Ty,
    pub value: Option<NodeId>,
}

impl DeepView for AssociatedConstSig {
    type V = ConstSig;

    open spec fn deep_view(&self) -> ConstSig {
        ConstSig { visibility: self.visibility, file: self.file, ty: self.ty@, value: Some(self.value) }
    }
}

impl DeepView for TraitAssociatedConstSig {
    type V = ConstSig;

    open spec fn deep_view(&self) -> ConstSig {
        ConstSig { visibility: self.visibility, file: self.file, ty: self.ty@, value: self.default }
    }
}

/// An associated type of a concrete owner.
pub struct AssociatedTypeSig {
    pub visibility: Visibility,
    pub file: FileId,
    pub ty: Type,
}

/// An associated type of a trait.
pub struct TraitAssociatedTypeSig {
    pub visibility: Visibility,
    pub file: FileId,
    pub default: Option<Type>,
}

/// What an associated type's signature denotes; a concrete owner's always
/// has a type.
pub struct TypeSig {
    pub visibility: Visibility,
    pub file: FileId,
    pub ty: Option<Ty>,
}

impl DeepView for AssociatedTypeSig {
    type V = TypeSig;

    open spec fn deep_view(&self) -> TypeSig {
        TypeSig { visibility: self.visibility, file: self.file, ty: Some(self.ty@) }
    }
}

impl DeepView for TraitAssociatedTypeSig {
    type V = TypeSig;

    open spec fn deep_view(&self) -> TypeSig {
        TypeSig { visibility: self.visibility, file: self.file, ty: self.default.deep_view() }
    }
}

/// The signatures of a module.
pub struct Signatures {
    pub type_shapes: Table<DefId, TypeShape>,
    pub field_visibility: Table<(DefId, Symbol), Visibility>,
    /// Generic parameters of each declared type, in declaration order.
    pub type_generics: Table<DefId, Vec<Symbol>>,
    /// Bounds of the generic parameters of types and enums, in that order.
    pub generic_type_bounds: Table<DefId, Vec<Vec<GenericBound>>>,
    pub const_type_params: Table<DefId, Table<Symbol, Type>>,
    pub enum_sigs: Table<DefId, EnumSig>,
    pub fns: Table<DefId, FnSig>,
    pub methods: Table<(DefId, Symbol, ReceiverDomain), MethodSet>,
    /// The owner arguments of each specializing impl block.
    pub impl_specializations: Table<NodeId, Vec<Type>>,
    /// Trait methods, inherited ones among them.
    pub trait_methods: Table<(DefId, Symbol), FnSig>,
    pub associated_consts: Table<(DefId, Symbol), AssociatedConstSig>,
    pub trait_associated_consts: Table<(DefId, Symbol), TraitAssociatedConstSig>,
    pub associated_types: Table<(DefId, Symbol), AssociatedTypeSig>,
    pub trait_associated_types: Table<(DefId, Symbol), TraitAssociatedTypeSig>,
    pub trait_generics: Table<DefId, Vec<Symbol>>,
    pub trait_parents: Table<DefId, Vec<GenericBound>>,
    /// Declared implementations. An owner may hold generic parameters, and
    /// the implementation is then for every instance.
    pub impls: Vec<(Type, GenericBound)>,
    /// How an inherited default's trait parameters are chosen.
    pub default_method_substitutions: Table<(DefId, Symbol, ReceiverDomain), Table<Symbol, Type>>,
    /// The trait that supplies an inherited default.
    pub default_method_sources: Table<(DefId, Symbol, ReceiverDomain), DefId>,
}

/// What [`Signatures`] denote.
pub struct Sigs {
    pub type_shapes: Map<DefId, Shape>,
    pub field_visibility: Map<(DefId, Seq<char>), Visibility>,
    pub type_generics: Map<DefId, Seq<Seq<char>>>,
    pub generic_type_bounds: Map<DefId, Seq<Seq<Bound>>>,
    pub const_type_params: Map<DefId, Map<Seq<char>, Ty>>,
    pub enum_sigs: Map<DefId, EnumShape>,
    pub fns: Map<DefId, Sig>,
    pub methods: Map<(DefId, Seq<char>, ReceiverDomain), Methods>,
    pub impl_specializations: Map<NodeId, Seq<Ty>>,
    pub trait_methods: Map<(DefId, Seq<char>), Sig>,
    pub associated_consts: Map<(DefId, Seq<char>), ConstSig>,
    pub trait_associated_consts: Map<(DefId, Seq<char>), ConstSig>,
    pub associated_types: Seq<((DefId, Seq<char>), TypeSig)>,
    pub trait_associated_types: Map<(DefId, Seq<char>), TypeSig>,
    pub trait_generics: Map<DefId, Seq<Seq<char>>>,
    pub trait_parents: Map<DefId, Seq<Bound>>,
    pub impls: Seq<(Ty, Bound)>,
    pub default_method_substitutions: Map<(DefId, Seq<char>, ReceiverDomain), Map<Seq<char>, Ty>>,
    pub default_method_sources: Map<(DefId, Seq<char>, ReceiverDomain), DefId>,
}

impl View for Signatures {
    type V = Sigs;

    open spec fn view(&self) -> Sigs {
        Sigs {
            type_shapes: self.type_shapes@,
            field_visibility: self.field_visibility@,
            type_generics: self.type_generics@,
            generic_type_bounds: self.generic_type_bounds@,
            const_type_params: self.const_type_params@,
            enum_sigs: self.enum_sigs@,
            fns: self.fns@,
            methods: self.methods@,
            impl_specializations: self.impl_specializations@,
            trait_methods: self.trait_methods@,
            associated_consts: self.associated_consts@,
            trait_associated_consts: self.trait_associated_consts@,
            associated_types: self.associated_types.pairs(),
            trait_associated_types: self.trait_associated_types@,
            trait_generics: self.trait_generics@,
            trait_parents: self.trait_parents@,
            impls: self.impls.deep_view(),
            default_method_substitutions: self.default_method_substitutions@,
            default_method_sources: self.default_method_sources@,
        }
    }
}

impl Sigs {
    /// No signatures.
    pub open spec fn none() -> Sigs {
        Sigs {
            type_shapes: Map::empty(),
            field_visibility: Map::empty(),
            type_generics: Map::empty(),
            generic_type_bounds: Map::empty(),
            const_type_params: Map::empty(),
            enum_sigs: Map::empty(),
            fns: Map::empty(),
            methods: Map::empty(),
            impl_specializations: Map::empty(),
            trait_methods: Map::empty(),
            associated_consts: Map::empty(),
            trait_associated_consts: Map::empty(),
            associated_types: Seq::empty(),
            trait_associated_types: Map::empty(),
            trait_generics: Map::empty(),
            trait_parents: Map::empty(),
            impls: Seq::empty(),
            default_method_substitutions: Map::empty(),
            default_method_sources: Map::empty(),
        }
    }

    /// The generic parameters of a declared type.
    pub open spec fn generics_of(self, id: DefId) -> Seq<Seq<char>> {
        match self.type_generics.get(id) {
            Some(names) => names,
            None => Seq::empty(),
        }
    }

    /// The generic parameters of a declared type or enum.
    pub open spec fn owner_generics(self, id: DefId) -> Seq<Seq<char>> {
        match self.type_generics.get(id) {
            Some(names) => names,
            None => match self.enum_sigs.get(id) {
                Some(sig) => sig.generics,
                None => Seq::empty(),
            },
        }
    }

    /// The generic parameters of a trait.
    pub open spec fn generics_of_trait(self, id: DefId) -> Seq<Seq<char>> {
        match self.trait_generics.get(id) {
            Some(names) => names,
            None => Seq::empty(),
        }
    }

    /// The parents of a trait, in terms of its parameters.
    pub open spec fn parents_of(self, id: DefId) -> Seq<Bound> {
        match self.trait_parents.get(id) {
            Some(parents) => parents,
            None => Seq::empty(),
        }
    }

    /// The general signature of a method.
    pub open spec fn method_of(self, owner: DefId, name: Seq<char>, domain: ReceiverDomain) -> Option<Sig> {
        match self.methods.get((owner, name, domain)) {
            Some(set) => set.generic,
            None => None,
        }
    }

    /// The general signature of a method in whichever domain has one.
    pub open spec fn method_in_any_domain(self, owner: DefId, name: Seq<char>) -> Option<Sig> {
        match self.method_of(owner, name, ReceiverDomain::Static) {
            Some(sig) => Some(sig),
            None => match self.method_of(owner, name, ReceiverDomain::Arc) {
                Some(sig) => Some(sig),
                None => self.method_of(owner, name, ReceiverDomain::Owned),
            },
        }
    }
}

/// A copy of a list of names.
pub fn names_of(v: Option<&Vec<Symbol>>) -> (r: Vec<Symbol>)
    ensures
        r.deep_view() == (match v.deep_view() {
            Some(names) => names,
            None => Seq::<Seq<char>>::empty(),
        }),
{
    match v {
        Some(names) => names.dup(),
        None => {
            let r: Vec<Symbol> = Vec::new();
            proof {
                assert(r.deep_view() =~= Seq::<Seq<char>>::empty());
            }
            r
        },
    }
}

impl Signatures {
    pub fn new() -> (r: Self)
        ensures
            r@ == Sigs::none(),
    {
        let r = Signatures {
            type_shapes: Table::new(),
            field_visibility: Table::new(),
            type_generics: Table::new(),
            generic_type_bounds: Table::new(),
            const_type_params: Table::new(),
            enum_sigs: Table::new(),
            fns: Table::new(),
            methods: Table::new(),
            impl_specializations: Table::new(),
            trait_methods: Table::new(),
            associated_consts: Table::new(),
            trait_associated_consts: Table::new(),
            associated_types: Table::new(),
            trait_associated_types: Table::new(),
            trait_generics: Table::new(),
            trait_parents: Table::new(),
            impls: Vec::new(),
            default_method_substitutions: Table::new(),
            default_method_sources: Table::new(),
        };
        proof {
            assert(r@.impls =~= Seq::empty());
        }
        r
    }

    /// The generic parameters of a declared type.
    pub fn generics_of(&self, id: DefId) -> (r: Vec<Symbol>)
        ensures
            r.deep_view() == self@.generics_of(id),
    {
        names_of(self.type_generics.get(&id))
    }

    /// The generic parameters of a declared type or enum.
    pub fn owner_generics(&self, id: DefId) -> (r: Vec<Symbol>)
        ensures
            r.deep_view() == self@.owner_generics(id),
    {
        match self.type_generics.get(&id) {
            Some(names) => names.dup(),
            None => match self.enum_sigs.get(&id) {
                Some(sig) => sig.generics.dup(),
                None => names_of(None),
            },
        }
    }

    /// The generic parameters of a trait.
    pub fn generics_of_trait(&self, id: DefId) -> (r: Vec<Symbol>)
        ensures
            r.deep_view() == self@.generics_of_trait(id),
    {
        names_of(self.trait_generics.get(&id))
    }

    /// The parents of a trait, in terms of its parameters.
    pub fn parents_of(&self, id: DefId) -> (r: Vec<GenericBound>)
        ensures
            r.deep_view() == self@.parents_of(id),
    {
        match self.trait_parents.get(&id) {
            Some(parents) => parents.dup(),
            None => {
                let r: Vec<GenericBound> = Vec::new();
                proof {
                    assert(r.deep_view() =~= Seq::<Bound>::empty());
                }
                r
            },
        }
    }

    /// The general signature of a method in a known domain.
    pub fn method(&self, owner: DefId, name: &Symbol, domain: ReceiverDomain) -> (r: Option<&FnSig>)
        ensures
            r.deep_view() == self@.method_of(owner, name@, domain),
    {
        let key: (DefId, Symbol, ReceiverDomain) = (owner, name.clone(), domain);
        match self.methods.get(&key) {
            Some(set) => match &set.generic {
                Some(sig) => Some(sig),
                None => None,
            },
            None => None,
        }
    }

    /// The general signature of a method in whichever domain has one.
    pub fn method_any_domain(&self, owner: DefId, name: &Symbol) -> (r: Option<&FnSig>)
        ensures
            r.deep_view() == self@.method_in_any_domain(owner, name@),
    {
        match self.method(owner, name, ReceiverDomain::Static) {
            Some(sig) => Some(sig),
            None => match self.method(owner, name, ReceiverDomain::Arc) {
                Some(sig) => Some(sig),
                None => self.method(owner, name, ReceiverDomain::Owned),
            },
        }
    }

    /// The signature for a call on an owner with these arguments.
    pub fn method_for(&self, owner: DefId, name: &Symbol, domain: ReceiverDomain, args: &Vec<Type>) -> (r: Option<&FnSig>)
        ensures
            r.deep_view() == (match self@.methods.get((owner, name@, domain)) {
                Some(set) => set.chosen(args.deep_view()),
                None => None::<Sig>,
            }),
    {
        let key: (DefId, Symbol, ReceiverDomain) = (owner, name.clone(), domain);
        match self.methods.get(&key) {
            Some(set) => set.for_args(args),
            None => None,
        }
    }
}

/// A specialization is chosen only by the owner's exact arguments: for
/// arguments that no specialization names, the general signature is.
pub proof fn law_general_signature_without_specialization(set: Methods, args: Seq<Ty>)
    requires
        forall|i: int| 0 <= i < set.specializations.len() ==> (#[trigger] set.specializations[i]).0 != args,
    ensures
        set.chosen(args) == set.generic,
{
    lemma_unspecialized(set.specializations, args, 0);
}

proof fn lemma_unspecialized(s: Seq<(Seq<Ty>, Sig)>, args: Seq<Ty>, i: int)
    requires
        0 <= i,
        forall|j: int| 0 <= j < s.len() ==> (#[trigger] s[j]).0 != args,
    ensures
        specialized(s, args, i) is None,
    decreases s.len() - i,
{
    if i < s.len() {
        lemma_unspecialized(s, args, i + 1);
    }
}

/// A specialization for the owner's exact arguments is chosen before the
/// general signature; of several the first.
pub proof fn law_specialization_is_chosen(set: Methods, args: Seq<Ty>, i: int)
    requires
        0 <= i < set.specializations.len(),
        set.specializations[i].0 == args,
        forall|j: int| 0 <= j < i ==> (#[trigger] set.specializations[j]).0 != args,
    ensures
        set.chosen(args) == Some(set.specializations[i].1),
{
    lemma_specialized(set.specializations, args, 0, i);
}

proof fn lemma_specialized(s: Seq<(Seq<Ty>, Sig)>, args: Seq<Ty>, k: int, i: int)
    requires
        0 <= k <= i < s.len(),
        s[i].0 == args,
        forall|j: int| 0 <= j < i ==> (#[trigger] s[j]).0 != args,
    ensures
        specialized(s, args, k) == Some(s[i].1),
    decreases i - k,
{
    if k < i {
        lemma_specialized(s, args, k + 1, i);
    }
}

} // verus!
