//! The structured representation of types.
use crate::datum::{Datum, Dup};
use crate::ids::{DefId, Symbol};
use vstd::prelude::*;

verus! {

/// The primitive types.
#[derive(Debug, Clone, Copy, PartialEq, Eq, Hash, Structural)]
pub enum PrimitiveKind {
    Bool,
    Char,
    I8,
    I16,
    I32,
    I64,
    U8,
    U16,
    U32,
    U64,
    Usize,
    Isize,
    F32,
    F64,
}

/// The source name of a primitive type.
pub open spec fn prim_name(p: PrimitiveKind) -> Seq<char> {
    match p {
        PrimitiveKind::Bool => "bool"@,
        PrimitiveKind::Char => "char"@,
        PrimitiveKind::I8 => "i8"@,
        PrimitiveKind::I16 => "i16"@,
        PrimitiveKind::I32 => "i32"@,
        PrimitiveKind::I64 => "i64"@,
        PrimitiveKind::U8 => "u8"@,
        PrimitiveKind::U16 => "u16"@,
        PrimitiveKind::U32 => "u32"@,
        PrimitiveKind::U64 => "u64"@,
        PrimitiveKind::Usize => "usize"@,
        PrimitiveKind::Isize => "isize"@,
        PrimitiveKind::F32 => "f32"@,
        PrimitiveKind::F64 => "f64"@,
    }
}

/// The primitive type that a source name denotes.
pub open spec fn prim_of_name(name: Seq<char>) -> Option<PrimitiveKind> {
    if exists|p: PrimitiveKind| prim_name(p) == name {
        Some(choose|p: PrimitiveKind| prim_name(p) == name)
    } else {
        None
    }
}

proof fn lemma_prim_texts()
    ensures
        "bool"@ == seq!['b', 'o', 'o', 'l'],
        "char"@ == seq!['c', 'h', 'a', 'r'],
        "i8"@ == seq!['i', '8'],
        "i16"@ == seq!['i', '1', '6'],
        "i32"@ == seq!['i', '3', '2'],
        "i64"@ == seq!['i', '6', '4'],
        "u8"@ == seq!['u', '8'],
        "u16"@ == seq!['u', '1', '6'],
        "u32"@ == seq!['u', '3', '2'],
        "u64"@ == seq!['u', '6', '4'],
        "usize"@ == seq!['u', 's', 'i', 'z', 'e'],
        "isize"@ == seq!['i', 's', 'i', 'z', 'e'],
        "f32"@ == seq!['f', '3', '2'],
        "f64"@ == seq!['f', '6', '4'],
{
    reveal_strlit("bool");
    reveal_strlit("char");
    reveal_strlit("i8");
    reveal_strlit("i16");
    reveal_strlit("i32");
    reveal_strlit("i64");
    reveal_strlit("u8");
    reveal_strlit("u16");
    reveal_strlit("u32");
    reveal_strlit("u64");
    reveal_strlit("usize");
    reveal_strlit("isize");
    reveal_strlit("f32");
    reveal_strlit("f64");
    assert("bool"@ =~= seq!['b', 'o', 'o', 'l']);
    assert("char"@ =~= seq!['c', 'h', 'a', 'r']);
    assert("i8"@ =~= seq!['i', '8']);
    assert("i16"@ =~= seq!['i', '1', '6']);
    assert("i32"@ =~= seq!['i', '3', '2']);
    assert("i64"@ =~= seq!['i', '6', '4']);
    assert("u8"@ =~= seq!['u', '8']);
    assert("u16"@ =~= seq!['u', '1', '6']);
    assert("u32"@ =~= seq!['u', '3', '2']);
    assert("u64"@ =~= seq!['u', '6', '4']);
    assert("usize"@ =~= seq!['u', 's', 'i', 'z', 'e']);
    assert("isize"@ =~= seq!['i', 's', 'i', 'z', 'e']);
    assert("f32"@ =~= seq!['f', '3', '2']);
    assert("f64"@ =~= seq!['f', '6', '4']);
}

/// The primitive names are pairwise different.
pub proof fn lemma_prim_names_distinct(p: PrimitiveKind, q: PrimitiveKind)
    requires
        prim_name(p) == prim_name(q),
    ensures
        p == q,
{
    lemma_prim_texts();
    let a = prim_name(p);
    let b = prim_name(q);
    assert(a.len() == b.len());
    assert(a[0] == b[0]);
    assert(a[1] == b[1]);
    if a.len() > 2 {
        assert(a[2] == b[2]);
    }
}

/// The integer types.
pub open spec fn prim_integer(p: PrimitiveKind) -> bool {
    !(p is Bool) && !(p is Char) && !(p is F32) && !(p is F64)
}

/// The floating-point types.
pub open spec fn prim_float(p: PrimitiveKind) -> bool {
    p is F32 || p is F64
}

/// The types that take part in arithmetic.
pub open spec fn prim_numeric(p: PrimitiveKind) -> bool {
    prim_integer(p) || prim_float(p)
}

impl PrimitiveKind {
    /// The primitive type with this source name.
    pub fn from_name(name: &str) -> (r: Option<Self>)
        ensures
            r == prim_of_name(name@),
            r is Some ==> prim_name(r->0) == name@,
            r is None ==> forall|p: PrimitiveKind| #[trigger] prim_name(p) != name@,
    {
        let r: Option<Self> = if str_eq(name, "bool") { Some(PrimitiveKind::Bool) }
            else if str_eq(name, "char") { Some(PrimitiveKind::Char) }
            else if str_eq(name, "i8") { Some(PrimitiveKind::I8) }
            else if str_eq(name, "i16") { Some(PrimitiveKind::I16) }
            else if str_eq(name, "i32") { Some(PrimitiveKind::I32) }
            else if str_eq(name, "i64") { Some(PrimitiveKind::I64) }
            else if str_eq(name, "u8") { Some(PrimitiveKind::U8) }
            else if str_eq(name, "u16") { Some(PrimitiveKind::U16) }
            else if str_eq(name, "u32") { Some(PrimitiveKind::U32) }
            else if str_eq(name, "u64") { Some(PrimitiveKind::U64) }
            else if str_eq(name, "usize") { Some(PrimitiveKind::Usize) }
            else if str_eq(name, "isize") { Some(PrimitiveKind::Isize) }
            else if str_eq(name, "f32") { Some(PrimitiveKind::F32) }
            else if str_eq(name, "f64") { Some(PrimitiveKind::F64) }
            else { None };
        proof {
            if let Some(p) = r {
                assert(prim_name(p) == name@);
                let q = choose|q: PrimitiveKind| prim_name(q) == name@;
                lemma_prim_names_distinct(p, q);
            }
        }
        r
    }

    /// Whether this is an integer type.
    pub fn is_integer(self) -> (r: bool)
        ensures
            r == prim_integer(self),
    {
        !matches!(self, PrimitiveKind::Bool | PrimitiveKind::Char | PrimitiveKind::F32 | PrimitiveKind::F64)
    }

    /// Whether this is a floating-point type.
    pub fn is_float(self) -> (r: bool)
        ensures
            r == prim_float(self),
    {
        matches!(self, PrimitiveKind::F32 | PrimitiveKind::F64)
    }

    /// Whether arithmetic is defined on this type.
    pub fn is_numeric(self) -> (r: bool)
        ensures
            r == prim_numeric(self),
    {
        self.is_integer() || self.is_float()
    }

    /// The source name of this type.
    pub fn name(self) -> (r: &'static str)
        ensures
            r@ == prim_name(self),
    {
        match self {
            PrimitiveKind::Bool => "bool",
            PrimitiveKind::Char => "char",
            PrimitiveKind::I8 => "i8",
            PrimitiveKind::I16 => "i16",
            PrimitiveKind::I32 => "i32",
            PrimitiveKind::I64 => "i64",
            PrimitiveKind::U8 => "u8",
            PrimitiveKind::U16 => "u16",
            PrimitiveKind::U32 => "u32",
            PrimitiveKind::U64 => "u64",
            PrimitiveKind::Usize => "usize",
            PrimitiveKind::Isize => "isize",
            PrimitiveKind::F32 => "f32",
            PrimitiveKind::F64 => "f64",
        }
    }
}

/// Whether two texts are equal.
pub fn str_eq(a: &str, b: &str) -> (r: bool)
    ensures
        r == (a@ == b@),
{
    a.to_owned() == b.to_owned()
}

/// How a closure captures one free variable from its enclosing scope.
#[derive(Debug, Clone, Copy, PartialEq, Eq, Structural)]
pub enum CaptureMode {
    /// Copies the value into the closure's own environment at creation
    /// time: mutating it inside the body never affects the outer binding.
    ByValue,
    /// A `mut` closure's capture of a local declared `mut`: the environment
    /// holds the address of the outer local's own storage.
    ByRef,
}

/// A type. Compared structurally, never by its printed form.
#[derive(Debug, PartialEq, Eq, Hash)]
pub enum Type {
    /// A compile-time integer in a generic argument list.
    Const(u128),
    Primitive(PrimitiveKind),
    /// A declaration with named fields.
    Struct(DefId, Vec<Type>),
    /// A declaration with positional fields.
    TupleStruct(DefId, Vec<Type>),
    /// An anonymous tuple; always stored inline.
    Tuple(Vec<Type>),
    /// An enum; always stored inline.
    Enum(DefId, Vec<Type>),
    Array(Box<Type>),
    /// `{T, N}`: inline, with its length in the type.
    FixedArray(Box<Type>, Box<Type>),
    String,
    /// A closure's parameter types and return type.
    Function(Vec<Type>, Box<Type>),
    /// The type of `self` in a trait's default method.
    Trait(DefId),
    /// `any Trait<...>`
    Any(DefId, Vec<Type>),
    /// `some Trait<...>`
    Opaque(DefId, Vec<Type>),
    /// A suspended computation.
    Task(Box<Type>),
    /// A handle to a spawned thread.
    Thread(Box<Type>),
    /// A generic parameter of the item being checked.
    Generic(Symbol),
    /// `T.Item`
    Associated(Box<Type>, Symbol),
    Weak(Box<Type>),
    /// `:T`, the uniquely owned form.
    Unique(Box<Type>),
    /// `:&T`
    Ref(Box<Type>),
    /// `:&mut T`
    MutRef(Box<Type>),
    /// `*const T`
    RawConstPtr(Box<Type>),
    /// `*mut T`
    RawMutPtr(Box<Type>),
    /// The type of an expression that never produces a value.
    Never,
    /// Stands in where a diagnostic has already been reported.
    Error,
}

/// The meaning of a [`Type`].
pub enum Ty {
    Const(u128),
    Primitive(PrimitiveKind),
    Struct(DefId, Seq<Ty>),
    TupleStruct(DefId, Seq<Ty>),
    Tuple(Seq<Ty>),
    Enum(DefId, Seq<Ty>),
    Array(Box<Ty>),
    FixedArray(Box<Ty>, Box<Ty>),
    String,
    Function(Seq<Ty>, Box<Ty>),
    Trait(DefId),
    Any(DefId, Seq<Ty>),
    Opaque(DefId, Seq<Ty>),
    Task(Box<Ty>),
    Thread(Box<Ty>),
    Generic(Seq<char>),
    Associated(Box<Ty>, Seq<char>),
    Weak(Box<Ty>),
    Unique(Box<Ty>),
    Ref(Box<Ty>),
    MutRef(Box<Ty>),
    RawConstPtr(Box<Ty>),
    RawMutPtr(Box<Ty>),
    Never,
    Error,
}

/// What a type denotes.
pub open spec fn ty_view(t: Type) -> Ty
    decreases t,
{
    match t {
        Type::Const(n) => Ty::Const(n),
        Type::Primitive(p) => Ty::Primitive(p),
        Type::Struct(id, args) => Ty::Struct(id, tys(args@)),
        Type::TupleStruct(id, args) => Ty::TupleStruct(id, tys(args@)),
        Type::Tuple(args) => Ty::Tuple(tys(args@)),
        Type::Enum(id, args) => Ty::Enum(id, tys(args@)),
        Type::Array(a) => Ty::Array(Box::new(ty_view(*a))),
        Type::FixedArray(a, n) => Ty::FixedArray(Box::new(ty_view(*a)), Box::new(ty_view(*n))),
        Type::String => Ty::String,
        Type::Function(ps, r) => Ty::Function(tys(ps@), Box::new(ty_view(*r))),
        Type::Trait(id) => Ty::Trait(id),
        Type::Any(id, args) => Ty::Any(id, tys(args@)),
        Type::Opaque(id, args) => Ty::Opaque(id, tys(args@)),
        Type::Task(a) => Ty::Task(Box::new(ty_view(*a))),
        Type::Thread(a) => Ty::Thread(Box::new(ty_view(*a))),
        Type::Generic(n) => Ty::Generic(n@),
        Type::Associated(a, n) => Ty::Associated(Box::new(ty_view(*a)), n@),
        Type::Weak(a) => Ty::Weak(Box::new(ty_view(*a))),
        Type::Unique(a) => Ty::Unique(Box::new(ty_view(*a))),
        Type::Ref(a) => Ty::Ref(Box::new(ty_view(*a))),
        Type::MutRef(a) => Ty::MutRef(Box::new(ty_view(*a))),
        Type::RawConstPtr(a) => Ty::RawConstPtr(Box::new(ty_view(*a))),
        Type::RawMutPtr(a) => Ty::RawMutPtr(Box::new(ty_view(*a))),
        Type::Never => Ty::Never,
        Type::Error => Ty::Error,
    }
}

/// What a list of types denotes.
pub open spec fn tys(s: Seq<Type>) -> Seq<Ty>
    decreases s,
{
    Seq::new(s.len(), |i: int| if 0 <= i < s.len() { ty_view(s[i]) } else { Ty::Error })
}

impl View for Type {
    type V = Ty;

    open spec fn view(&self) -> Ty {
        ty_view(*self)
    }
}

impl DeepView for Type {
    type V = Ty;

    open spec fn deep_view(&self) -> Ty {
        ty_view(*self)
    }
}

/// The deep view of a vector of types is the list of what they denote.
pub broadcast proof fn lemma_tys(v: Vec<Type>)
    ensures
        #[trigger] v.deep_view() == tys(v@),
{
    assert(v.deep_view() =~= tys(v@));
}

/// A list of types denotes as many.
pub broadcast proof fn lemma_tys_len(s: Seq<Type>)
    ensures
        (#[trigger] tys(s)).len() == s.len(),
{
}

/// The empty list of types denotes the empty sequence.
pub broadcast proof fn lemma_tys_empty(s: Seq<Type>)
    requires
        s.len() == 0,
    ensures
        #[trigger] tys(s) == Seq::<Ty>::empty(),
{
    assert(tys(s) =~= Seq::<Ty>::empty());
}

/// Appending a type appends what it denotes.
pub broadcast proof fn lemma_tys_push(s: Seq<Type>, t: Type)
    ensures
        #[trigger] tys(s.push(t)) == tys(s).push(ty_view(t)),
{
    assert(tys(s.push(t)) =~= tys(s).push(ty_view(t)));
}

pub broadcast group group_tys {
    lemma_tys,
    lemma_tys_len,
    lemma_tys_empty,
    lemma_tys_push,
}

/// `()`
pub open spec fn ty_unit() -> Ty {
    Ty::Tuple(Seq::empty())
}

/// Whether a poison component occurs in `t`.
pub open spec fn has_error(t: Ty) -> bool
    decreases t,
{
    match t {
        Ty::Error => true,
        Ty::Struct(_, args) | Ty::TupleStruct(_, args) | Ty::Tuple(args) | Ty::Enum(_, args)
        | Ty::Any(_, args) | Ty::Opaque(_, args) =>
            some_error(args),
        Ty::FixedArray(a, n) => has_error(*a) || has_error(*n),
        Ty::Array(a) | Ty::Associated(a, _) | Ty::Weak(a) | Ty::Unique(a) | Ty::Ref(a) | Ty::MutRef(a)
        | Ty::RawConstPtr(a) | Ty::RawMutPtr(a) | Ty::Task(a) | Ty::Thread(a) => has_error(*a),
        Ty::Function(ps, r) => some_error(ps) || has_error(*r),
        _ => false,
    }
}

/// Whether a poison component occurs in one of the types.
pub open spec fn some_error(s: Seq<Ty>) -> bool
    decreases s,
{
    exists|i: int| #![trigger s[i]] 0 <= i < s.len() && has_error(s[i])
}

/// Whether a generic parameter occurs in `t`.
pub open spec fn has_generic(t: Ty) -> bool
    decreases t,
{
    match t {
        Ty::Generic(_) => true,
        Ty::Struct(_, args) | Ty::TupleStruct(_, args) | Ty::Tuple(args) | Ty::Enum(_, args)
        | Ty::Any(_, args) | Ty::Opaque(_, args) =>
            some_generic(args),
        Ty::FixedArray(a, n) => has_generic(*a) || has_generic(*n),
        Ty::Array(a) | Ty::Associated(a, _) | Ty::Weak(a) | Ty::Unique(a) | Ty::Ref(a) | Ty::MutRef(a)
        | Ty::RawConstPtr(a) | Ty::RawMutPtr(a) | Ty::Task(a) | Ty::Thread(a) => has_generic(*a),
        Ty::Function(ps, r) => some_generic(ps) || has_generic(*r),
        _ => false,
    }
}

/// Whether a generic parameter occurs in one of the types.
pub open spec fn some_generic(s: Seq<Ty>) -> bool
    decreases s,
{
    exists|i: int| #![trigger s[i]] 0 <= i < s.len() && has_generic(s[i])
}

/// Whether a value of type `a` may stand where `b` is expected.
pub open spec fn fits(a: Ty, b: Ty) -> bool
    decreases a,
{
    a is Error || a is Never || b is Error || b is Never || a == b || match (a, b) {
        (Ty::Tuple(x), Ty::Tuple(y)) => all_fit(x, y),
        (Ty::Enum(i, x), Ty::Enum(j, y)) => i == j && all_fit(x, y),
        (Ty::Struct(i, x), Ty::Struct(j, y)) => i == j && all_fit(x, y),
        (Ty::TupleStruct(i, x), Ty::TupleStruct(j, y)) => i == j && all_fit(x, y),
        (Ty::Array(x), Ty::Array(y)) => fits(*x, *y),
        (Ty::Weak(x), Ty::Weak(y)) => fits(*x, *y),
        (Ty::Task(x), Ty::Task(y)) => fits(*x, *y),
        (Ty::Thread(x), Ty::Thread(y)) => fits(*x, *y),
        (Ty::FixedArray(x, n), Ty::FixedArray(y, m)) => *n == *m && fits(*x, *y),
        (Ty::Associated(x, n), Ty::Associated(y, m)) => n == m && fits(*x, *y),
        (Ty::Function(ps, r), Ty::Function(qs, s)) => all_fit(ps, qs) && fits(*r, *s),
        (Ty::Unique(x), Ty::Unique(y)) => fits(*x, *y),
        (Ty::Ref(x), Ty::Ref(y)) => fits(*x, *y),
        (Ty::MutRef(x), Ty::MutRef(y)) => fits(*x, *y),
        (Ty::RawConstPtr(x), Ty::RawConstPtr(y)) => fits(*x, *y),
        (Ty::RawMutPtr(x), Ty::RawMutPtr(y)) => fits(*x, *y),
        (Ty::RawMutPtr(x), Ty::RawConstPtr(y)) => fits(*x, *y),
        (_, Ty::Weak(y)) => *y == a,
        _ => false,
    }
}

/// Whether two lists of types have the same length and fit pairwise.
pub open spec fn all_fit(x: Seq<Ty>, y: Seq<Ty>) -> bool
    decreases x,
{
    x.len() == y.len() && forall|i: int| #![trigger x[i]] 0 <= i < x.len() ==> fits(x[i], y[i])
}

/// `t` without one layer of unique ownership.
pub open spec fn ty_owned_of(t: Ty) -> Ty {
    match t {
        Ty::Unique(a) => *a,
        _ => t,
    }
}

/// `t` without one layer of unique ownership or reference.
pub open spec fn ty_direct(t: Ty) -> Ty {
    match t {
        Ty::Unique(a) => *a,
        Ty::Ref(a) => *a,
        Ty::MutRef(a) => *a,
        _ => t,
    }
}

impl Clone for Type {
    fn clone(&self) -> (r: Type)
        ensures
            r@ == self@,
        decreases self,
    {
        match self {
            Type::Const(n) => Type::Const(*n),
            Type::Primitive(p) => Type::Primitive(*p),
            Type::Struct(id, args) => Type::Struct(*id, dup_types(args)),
            Type::TupleStruct(id, args) => Type::TupleStruct(*id, dup_types(args)),
            Type::Tuple(args) => Type::Tuple(dup_types(args)),
            Type::Enum(id, args) => Type::Enum(*id, dup_types(args)),
            Type::Array(a) => Type::Array(Box::new((**a).clone())),
            Type::FixedArray(a, n) => Type::FixedArray(Box::new((**a).clone()), Box::new((**n).clone())),
            Type::String => Type::String,
            Type::Function(ps, r) => Type::Function(dup_types(ps), Box::new((**r).clone())),
            Type::Trait(id) => Type::Trait(*id),
            Type::Any(id, args) => Type::Any(*id, dup_types(args)),
            Type::Opaque(id, args) => Type::Opaque(*id, dup_types(args)),
            Type::Task(a) => Type::Task(Box::new((**a).clone())),
            Type::Thread(a) => Type::Thread(Box::new((**a).clone())),
            Type::Generic(n) => Type::Generic(n.clone()),
            Type::Associated(a, n) => Type::Associated(Box::new((**a).clone()), n.clone()),
            Type::Weak(a) => Type::Weak(Box::new((**a).clone())),
            Type::Unique(a) => Type::Unique(Box::new((**a).clone())),
            Type::Ref(a) => Type::Ref(Box::new((**a).clone())),
            Type::MutRef(a) => Type::MutRef(Box::new((**a).clone())),
            Type::RawConstPtr(a) => Type::RawConstPtr(Box::new((**a).clone())),
            Type::RawMutPtr(a) => Type::RawMutPtr(Box::new((**a).clone())),
            Type::Never => Type::Never,
            Type::Error => Type::Error,
        }
    }
}

/// A second list that denotes the same types.
pub fn dup_types(v: &Vec<Type>) -> (r: Vec<Type>)
    ensures
        tys(r@) == tys(v@),
    decreases v,
{
    let mut out: Vec<Type> = Vec::new();
    let mut k: usize = 0;
    while k < v.len()
        invariant
            k <= v.len(),
            out.len() == k,
            forall|i: int| 0 <= i < k ==> ty_view(#[trigger] out@[i]) == ty_view(v@[i]),
        decreases v.len() - k,
    {
        out.push(v[k].clone());
        k += 1;
    }
    proof {
        assert(tys(out@) =~= tys(v@));
    }
    out
}

/// The empty list of types.
pub fn no_types() -> (r: Vec<Type>)
    ensures
        tys(r@) == Seq::<Ty>::empty(),
{
    let v: Vec<Type> = Vec::new();
    proof {
        lemma_tys_empty(v@);
    }
    v
}

/// A list of one type.
pub fn one_type(t: Type) -> (r: Vec<Type>)
    ensures
        tys(r@) == seq![t@],
{
    let mut v: Vec<Type> = Vec::new();
    v.push(t);
    proof {
        assert(tys(v@) =~= seq![t@]);
    }
    v
}

/// Whether two lists denote the same types.
pub fn same_types(a: &Vec<Type>, b: &Vec<Type>) -> (r: bool)
    ensures
        r == (tys(a@) == tys(b@)),
    decreases a,
{
    if a.len() != b.len() {
        assert(tys(a@).len() != tys(b@).len());
        return false;
    }
    let mut k: usize = 0;
    while k < a.len()
        invariant
            k <= a.len(),
            a.len() == b.len(),
            forall|i: int| 0 <= i < k ==> tys(a@)[i] == #[trigger] tys(b@)[i],
        decreases a.len() - k,
    {
        if !a[k].same(&b[k]) {
            assert(tys(a@)[k as int] != tys(b@)[k as int]);
            return false;
        }
        k += 1;
    }
    proof {
        assert(tys(a@) =~= tys(b@));
    }
    true
}

impl Type {
    /// Whether two types are structurally equal.
    pub fn same(&self, other: &Type) -> (r: bool)
        ensures
            r == (self@ == other@),
        decreases self,
    {
        match (self, other) {
            (Type::Const(a), Type::Const(b)) => *a == *b,
            (Type::Primitive(a), Type::Primitive(b)) => *a == *b,
            (Type::Struct(i, a), Type::Struct(j, b)) => *i == *j && same_types(a, b),
            (Type::TupleStruct(i, a), Type::TupleStruct(j, b)) => *i == *j && same_types(a, b),
            (Type::Tuple(a), Type::Tuple(b)) => same_types(a, b),
            (Type::Enum(i, a), Type::Enum(j, b)) => *i == *j && same_types(a, b),
            (Type::Array(a), Type::Array(b)) => a.same(b),
            (Type::FixedArray(a, n), Type::FixedArray(b, m)) => a.same(b) && n.same(m),
            (Type::String, Type::String) => true,
            (Type::Function(a, r), Type::Function(b, s)) => same_types(a, b) && r.same(s),
            (Type::Trait(i), Type::Trait(j)) => *i == *j,
            (Type::Any(i, a), Type::Any(j, b)) => *i == *j && same_types(a, b),
            (Type::Opaque(i, a), Type::Opaque(j, b)) => *i == *j && same_types(a, b),
            (Type::Task(a), Type::Task(b)) => a.same(b),
            (Type::Thread(a), Type::Thread(b)) => a.same(b),
            (Type::Generic(a), Type::Generic(b)) => *a == *b,
            (Type::Associated(a, n), Type::Associated(b, m)) => a.same(b) && *n == *m,
            (Type::Weak(a), Type::Weak(b)) => a.same(b),
            (Type::Unique(a), Type::Unique(b)) => a.same(b),
            (Type::Ref(a), Type::Ref(b)) => a.same(b),
            (Type::MutRef(a), Type::MutRef(b)) => a.same(b),
            (Type::RawConstPtr(a), Type::RawConstPtr(b)) => a.same(b),
            (Type::RawMutPtr(a), Type::RawMutPtr(b)) => a.same(b),
            (Type::Never, Type::Never) => true,
            (Type::Error, Type::Error) => true,
            _ => false,
        }
    }

    /// `()`
    pub fn unit() -> (r: Type)
        ensures
            r@ == ty_unit(),
    {
        let v: Vec<Type> = Vec::new();
        proof {
            lemma_tys_empty(v@);
        }
        Type::Tuple(v)
    }

    /// A generic parameter.
    pub fn parameter(name: &Symbol) -> (r: Type)
        ensures
            r@ == Ty::Generic(name@),
    {
        Type::Generic(name.clone())
    }

    /// An associated type of `owner`.
    pub fn projection(owner: Type, name: &Symbol) -> (r: Type)
        ensures
            r@ == Ty::Associated(Box::new(owner@), name@),
    {
        Type::Associated(Box::new(owner), name.clone())
    }

    /// An array of `element`s.
    pub fn array(element: Type) -> (r: Type)
        ensures
            r@ == Ty::Array(Box::new(element@)),
    {
        Type::Array(Box::new(element))
    }

    /// A fixed array of `element`s.
    pub fn fixed_array(element: Type, length: Type) -> (r: Type)
        ensures
            r@ == Ty::FixedArray(Box::new(element@), Box::new(length@)),
    {
        Type::FixedArray(Box::new(element), Box::new(length))
    }

    /// A function type.
    pub fn function(params: Vec<Type>, ret: Type) -> (r: Type)
        ensures
            r@ == Ty::Function(tys(params@), Box::new(ret@)),
    {
        Type::Function(params, Box::new(ret))
    }

    /// A task with this output.
    pub fn task(output: Type) -> (r: Type)
        ensures
            r@ == Ty::Task(Box::new(output@)),
    {
        Type::Task(Box::new(output))
    }

    /// A thread with this output.
    pub fn thread(output: Type) -> (r: Type)
        ensures
            r@ == Ty::Thread(Box::new(output@)),
    {
        Type::Thread(Box::new(output))
    }

    /// A reference to `inner`.
    pub fn reference(inner: Type, mutable: bool) -> (r: Type)
        ensures
            r@ == (if mutable {
                Ty::MutRef(Box::new(inner@))
            } else {
                Ty::Ref(Box::new(inner@))
            }),
    {
        if mutable {
            Type::MutRef(Box::new(inner))
        } else {
            Type::Ref(Box::new(inner))
        }
    }

    /// A raw pointer to `inner`.
    pub fn raw_pointer(inner: Type, mutable: bool) -> (r: Type)
        ensures
            r@ == (if mutable {
                Ty::RawMutPtr(Box::new(inner@))
            } else {
                Ty::RawConstPtr(Box::new(inner@))
            }),
    {
        if mutable {
            Type::RawMutPtr(Box::new(inner))
        } else {
            Type::RawConstPtr(Box::new(inner))
        }
    }

    /// The owned form of `inner`.
    pub fn owned(inner: Type) -> (r: Type)
        ensures
            r@ == Ty::Unique(Box::new(inner@)),
    {
        Type::Unique(Box::new(inner))
    }

    /// The type without one layer of unique ownership.
    pub fn strip_unique(&self) -> (r: &Type)
        ensures
            r@ == ty_owned_of(self@),
    {
        match self {
            Type::Unique(inner) => &**inner,
            other => other,
        }
    }

    /// The type without one layer of unique ownership or reference.
    pub fn strip_indirection(&self) -> (r: &Type)
        ensures
            r@ == ty_direct(self@),
    {
        match self {
            Type::Unique(inner) => &**inner,
            Type::Ref(inner) => &**inner,
            Type::MutRef(inner) => &**inner,
            other => other,
        }
    }

    /// Whether this is the poison type.
    pub fn is_error(&self) -> (r: bool)
        ensures
            r == (self@ is Error),
    {
        matches!(self, Type::Error)
    }

    /// Whether this is the type of an expression without a value.
    pub fn is_never(&self) -> (r: bool)
        ensures
            r == (self@ is Never),
    {
        matches!(self, Type::Never)
    }

    /// Whether this is a reference type.
    pub fn is_reference(&self) -> (r: bool)
        ensures
            r == (self@ is Ref || self@ is MutRef),
    {
        matches!(self, Type::Ref(_) | Type::MutRef(_))
    }

    /// Whether a poison component occurs in this type.
    pub fn contains_error(&self) -> (r: bool)
        ensures
            r == has_error(self@),
        decreases self,
    {
        match self {
            Type::Error => true,
            Type::Struct(_, args) | Type::TupleStruct(_, args) | Type::Tuple(args) | Type::Enum(_, args)
            | Type::Any(_, args) | Type::Opaque(_, args) => any_error(args),
            Type::FixedArray(a, n) => a.contains_error() || n.contains_error(),
            Type::Array(a) | Type::Associated(a, _) | Type::Weak(a) | Type::Unique(a) | Type::Ref(a)
            | Type::MutRef(a) | Type::RawConstPtr(a) | Type::RawMutPtr(a) | Type::Task(a)
            | Type::Thread(a) => a.contains_error(),
            Type::Function(ps, r) => any_error(ps) || r.contains_error(),
            _ => false,
        }
    }

    /// Whether a generic parameter occurs in this type.
    pub fn contains_generic(&self) -> (r: bool)
        ensures
            r == has_generic(self@),
        decreases self,
    {
        match self {
            Type::Generic(_) => true,
            Type::Struct(_, args) | Type::TupleStruct(_, args) | Type::Tuple(args) | Type::Enum(_, args)
            | Type::Any(_, args) | Type::Opaque(_, args) => any_generic(args),
            Type::FixedArray(a, n) => a.contains_generic() || n.contains_generic(),
            Type::Array(a) | Type::Associated(a, _) | Type::Weak(a) | Type::Unique(a) | Type::Ref(a)
            | Type::MutRef(a) | Type::RawConstPtr(a) | Type::RawMutPtr(a) | Type::Task(a)
            | Type::Thread(a) => a.contains_generic(),
            Type::Function(ps, r) => any_generic(ps) || r.contains_generic(),
            _ => false,
        }
    }

    /// Whether a value of this type may stand where `other` is expected.
    ///
    /// Poison and divergence fit everything. Owned and shared forms never
    /// convert into each other; `*mut T` fits `*const T`, and a `T` fits
    /// `weak T`, neither the other way round.
    pub fn compatible(&self, other: &Type) -> (r: bool)
        ensures
            r == fits(self@, other@),
        decreases self,
    {
        if matches!(self, Type::Error | Type::Never) || matches!(other, Type::Error | Type::Never)
            || self.same(other) {
            return true;
        }
        match (self, other) {
            (Type::Tuple(a), Type::Tuple(b)) => all_compatible(a, b),
            (Type::Enum(i, a), Type::Enum(j, b)) => *i == *j && all_compatible(a, b),
            (Type::Struct(i, a), Type::Struct(j, b)) => *i == *j && all_compatible(a, b),
            (Type::TupleStruct(i, a), Type::TupleStruct(j, b)) => *i == *j && all_compatible(a, b),
            (Type::Array(a), Type::Array(b)) => a.compatible(b),
            (Type::Weak(a), Type::Weak(b)) => a.compatible(b),
            (Type::Task(a), Type::Task(b)) => a.compatible(b),
            (Type::Thread(a), Type::Thread(b)) => a.compatible(b),
            (Type::FixedArray(a, n), Type::FixedArray(b, m)) => n.same(m) && a.compatible(b),
            (Type::Associated(a, n), Type::Associated(b, m)) => *n == *m && a.compatible(b),
            (Type::Function(a, r), Type::Function(b, s)) => all_compatible(a, b) && r.compatible(s),
            (Type::Unique(a), Type::Unique(b)) => a.compatible(b),
            (Type::Ref(a), Type::Ref(b)) => a.compatible(b),
            (Type::MutRef(a), Type::MutRef(b)) => a.compatible(b),
            (Type::RawConstPtr(a), Type::RawConstPtr(b)) => a.compatible(b),
            (Type::RawMutPtr(a), Type::RawMutPtr(b)) => a.compatible(b),
            (Type::RawMutPtr(a), Type::RawConstPtr(b)) => a.compatible(b),
            (_, Type::Weak(inner)) => inner.same(self),
            _ => false,
        }
    }
}

fn any_error(v: &Vec<Type>) -> (r: bool)
    ensures
        r == some_error(tys(v@)),
    decreases v,
{
    let mut k: usize = 0;
    while k < v.len()
        invariant
            k <= v.len(),
            forall|i: int| #![trigger tys(v@)[i]] 0 <= i < k ==> !has_error(tys(v@)[i]),
        decreases v.len() - k,
    {
        if v[k].contains_error() {
            assert(has_error(tys(v@)[k as int]));
            return true;
        }
        k += 1;
    }
    false
}

fn any_generic(v: &Vec<Type>) -> (r: bool)
    ensures
        r == some_generic(tys(v@)),
    decreases v,
{
    let mut k: usize = 0;
    while k < v.len()
        invariant
            k <= v.len(),
            forall|i: int| #![trigger tys(v@)[i]] 0 <= i < k ==> !has_generic(tys(v@)[i]),
        decreases v.len() - k,
    {
        if v[k].contains_generic() {
            assert(has_generic(tys(v@)[k as int]));
            return true;
        }
        k += 1;
    }
    false
}

/// Whether two lists of types fit pairwise.
pub fn all_compatible(a: &Vec<Type>, b: &Vec<Type>) -> (r: bool)
    ensures
        r == all_fit(tys(a@), tys(b@)),
    decreases a,
{
    if a.len() != b.len() {
        return false;
    }
    let mut k: usize = 0;
    while k < a.len()
        invariant
            k <= a.len(),
            a.len() == b.len(),
            forall|i: int| #![trigger tys(a@)[i]] 0 <= i < k ==> fits(tys(a@)[i], tys(b@)[i]),
        decreases a.len() - k,
    {
        if !a[k].compatible(&b[k]) {
            assert(!fits(tys(a@)[k as int], tys(b@)[k as int]));
            return false;
        }
        k += 1;
    }
    true
}

impl Dup for Type {
    fn dup(&self) -> (r: Self) {
        self.clone()
    }
}

impl Datum for Type {
    fn same(&self, other: &Self) -> (r: bool) {
        Type::same(self, other)
    }
}

// ---------------------------------------------------------------------
// Laws
// ---------------------------------------------------------------------

/// A primitive type's name denotes it, and nothing else denotes it.
pub proof fn law_primitive_names(p: PrimitiveKind, name: Seq<char>)
    ensures
        prim_of_name(name) == Some(p) <==> name == prim_name(p),
{
    if name == prim_name(p) {
        let q = choose|q: PrimitiveKind| prim_name(q) == name;
        assert(prim_name(q) == name);
        lemma_prim_names_distinct(p, q);
    }
    if prim_of_name(name) == Some(p) {
        let q = choose|q: PrimitiveKind| prim_name(q) == name;
        assert(prim_name(q) == name);
    }
}

/// The numeric types are the integers and the floats, and no type is both.
pub proof fn law_numeric_types(p: PrimitiveKind)
    ensures
        prim_numeric(p) == (prim_integer(p) || prim_float(p)),
        !(prim_integer(p) && prim_float(p)),
        !prim_numeric(p) <==> (p is Bool || p is Char),
{
}

/// A value fits where its own type is expected.
pub proof fn law_fits_itself(t: Ty)
    ensures
        fits(t, t),
{
}

/// The type of an expression that was already reported, or that never yields
/// a value, fits anywhere, and anything fits where it is expected.
pub proof fn law_error_and_never_fit(t: Ty)
    ensures
        fits(Ty::Error, t),
        fits(t, Ty::Error),
        fits(Ty::Never, t),
        fits(t, Ty::Never),
{
}

/// Whether a type says something: neither reported nor without a value.
pub open spec fn definite(t: Ty) -> bool {
    !(t is Error) && !(t is Never)
}

/// The shared and the owned form of a type never fit each other. (Owned types
/// are not owned once more.)
pub proof fn law_no_ownership_coercion(t: Ty)
    requires
        definite(t),
        !(t is Unique),
    ensures
        !fits(t, Ty::Unique(Box::new(t))),
        !fits(Ty::Unique(Box::new(t)), t),
{
}

/// A shared value fits where a weak reference to it is expected, and a weak
/// reference never fits where the value is expected.
pub proof fn law_weak_is_made_from_shared(t: Ty)
    ensures
        fits(t, Ty::Weak(Box::new(t))),
        definite(t) && !(t is Weak) ==> !fits(Ty::Weak(Box::new(t)), t),
    decreases t,
{
    if let Ty::Weak(inner) = t {
        law_weak_is_made_from_shared(*inner);
    }
}

/// A `*mut` pointer fits where a `*const` one is expected, and not the other
/// way round.
pub proof fn law_mutable_pointers_weaken(t: Ty)
    ensures
        fits(Ty::RawMutPtr(Box::new(t)), Ty::RawConstPtr(Box::new(t))),
        !fits(Ty::RawConstPtr(Box::new(t)), Ty::RawMutPtr(Box::new(t))),
{
    law_fits_itself(t);
}

/// A shared and an exclusive reference never fit each other.
pub proof fn law_references_do_not_convert(a: Ty, b: Ty)
    ensures
        !fits(Ty::Ref(Box::new(a)), Ty::MutRef(Box::new(b))),
        !fits(Ty::MutRef(Box::new(a)), Ty::Ref(Box::new(b))),
{
}

/// Types without unknown or valueless parts, weak references and pointers fit
/// only if they are the same.
pub open spec fn rigid(t: Ty) -> bool
    decreases t,
{
    match t {
        Ty::Error | Ty::Never | Ty::Weak(_) | Ty::RawConstPtr(_) | Ty::RawMutPtr(_) => false,
        Ty::Struct(_, args) | Ty::TupleStruct(_, args) | Ty::Tuple(args) | Ty::Enum(_, args)
        | Ty::Any(_, args) | Ty::Opaque(_, args) => all_rigid(args),
        Ty::FixedArray(a, n) => rigid(*a) && rigid(*n),
        Ty::Array(a) | Ty::Associated(a, _) | Ty::Unique(a) | Ty::Ref(a) | Ty::MutRef(a) | Ty::Task(a)
        | Ty::Thread(a) => rigid(*a),
        Ty::Function(ps, r) => all_rigid(ps) && rigid(*r),
        _ => true,
    }
}

/// The same of each type of a list.
pub open spec fn all_rigid(s: Seq<Ty>) -> bool
    decreases s,
{
    forall|i: int| #![trigger s[i]] 0 <= i < s.len() ==> rigid(s[i])
}

/// Where nothing is unknown and no conversion applies, fitting is equality.
pub proof fn law_rigid_types_fit_only_themselves(a: Ty, b: Ty)
    requires
        rigid(a),
        rigid(b),
    ensures
        fits(a, b) <==> a == b,
    decreases a,
{
    if fits(a, b) {
        match (a, b) {
            (Ty::Tuple(x), Ty::Tuple(y)) => lemma_rigid_lists(x, y),
            (Ty::Enum(_, x), Ty::Enum(_, y)) => lemma_rigid_lists(x, y),
            (Ty::Struct(_, x), Ty::Struct(_, y)) => lemma_rigid_lists(x, y),
            (Ty::TupleStruct(_, x), Ty::TupleStruct(_, y)) => lemma_rigid_lists(x, y),
            (Ty::Array(x), Ty::Array(y)) => law_rigid_types_fit_only_themselves(*x, *y),
            (Ty::Task(x), Ty::Task(y)) => law_rigid_types_fit_only_themselves(*x, *y),
            (Ty::Thread(x), Ty::Thread(y)) => law_rigid_types_fit_only_themselves(*x, *y),
            (Ty::FixedArray(x, _), Ty::FixedArray(y, _)) => law_rigid_types_fit_only_themselves(*x, *y),
            (Ty::Associated(x, _), Ty::Associated(y, _)) => law_rigid_types_fit_only_themselves(*x, *y),
            (Ty::Function(ps, r), Ty::Function(qs, s)) => {
                if a != b {
                    lemma_rigid_lists(ps, qs);
                    law_rigid_types_fit_only_themselves(*r, *s);
                }
            },
            (Ty::Unique(x), Ty::Unique(y)) => law_rigid_types_fit_only_themselves(*x, *y),
            (Ty::Ref(x), Ty::Ref(y)) => law_rigid_types_fit_only_themselves(*x, *y),
            (Ty::MutRef(x), Ty::MutRef(y)) => law_rigid_types_fit_only_themselves(*x, *y),
            _ => {},
        }
    }
}

proof fn lemma_rigid_lists(x: Seq<Ty>, y: Seq<Ty>)
    requires
        all_rigid(x),
        all_rigid(y),
        all_fit(x, y) || x == y,
    ensures
        x == y,
    decreases x,
{
    if x != y {
        assert forall|i: int| 0 <= i < x.len() implies x[i] == y[i] by {
            assert(fits(x[i], y[i]));
            assert(rigid(y[i]));
            law_rigid_types_fit_only_themselves(x[i], y[i]);
        }
        assert(x =~= y);
    }
}

} // verus!
