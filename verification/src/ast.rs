//! The syntax tree that is checked.
use crate::ids::{NodeId, SelfParam, Span, Symbol, Visibility};
use vstd::prelude::*;

verus! {

/// A name with its position.
#[derive(Debug)]
pub struct Ident {
    pub name: Symbol,
    pub span: Span,
}

/// A dotted name.
#[derive(Debug)]
pub struct Path {
    pub id: NodeId,
    pub segments: Vec<Ident>,
    pub span: Span,
}

/// The syntax of a type.
#[derive(Debug)]
pub enum TypeExpr {
    Const(u128, Span),
    Named { path: Path, generics: Vec<TypeExpr>, span: Span },
    Tuple(Vec<TypeExpr>, Span),
    Array(Box<TypeExpr>, Span),
    FixedArray { element: Box<TypeExpr>, length: Box<TypeExpr>, span: Span },
    Weak(Box<TypeExpr>, Span),
    /// `any Trait`
    Any(Box<TypeExpr>, Span),
    /// `some Trait`
    Opaque(Box<TypeExpr>, Span),
    Unique(Box<TypeExpr>, Span),
    Ref(Box<TypeExpr>, Span),
    MutRef(Box<TypeExpr>, Span),
    /// `*const T`
    RawConst(Box<TypeExpr>, Span),
    /// `*mut T`
    RawMut(Box<TypeExpr>, Span),
    Function { params: Vec<TypeExpr>, ret: Box<TypeExpr>, span: Span },
}

/// The position of a type's syntax.
pub open spec fn type_span(t: TypeExpr) -> Span {
    match t {
        TypeExpr::Const(_, span) => span,
        TypeExpr::Named { span, .. } => span,
        TypeExpr::Tuple(_, span) => span,
        TypeExpr::Array(_, span) => span,
        TypeExpr::FixedArray { span, .. } => span,
        TypeExpr::Weak(_, span) => span,
        TypeExpr::Any(_, span) => span,
        TypeExpr::Opaque(_, span) => span,
        TypeExpr::Unique(_, span) => span,
        TypeExpr::Ref(_, span) => span,
        TypeExpr::MutRef(_, span) => span,
        TypeExpr::RawConst(_, span) => span,
        TypeExpr::RawMut(_, span) => span,
        TypeExpr::Function { span, .. } => span,
    }
}

impl TypeExpr {
    /// The position of this syntax.
    pub fn span(&self) -> (r: Span)
        ensures
            r == type_span(*self),
    {
        match self {
            TypeExpr::Const(_, span) => *span,
            TypeExpr::Named { span, .. } => *span,
            TypeExpr::Tuple(_, span) => *span,
            TypeExpr::Array(_, span) => *span,
            TypeExpr::FixedArray { span, .. } => *span,
            TypeExpr::Weak(_, span) => *span,
            TypeExpr::Any(_, span) => *span,
            TypeExpr::Opaque(_, span) => *span,
            TypeExpr::Unique(_, span) => *span,
            TypeExpr::Ref(_, span) => *span,
            TypeExpr::MutRef(_, span) => *span,
            TypeExpr::RawConst(_, span) => *span,
            TypeExpr::RawMut(_, span) => *span,
            TypeExpr::Function { span, .. } => *span,
        }
    }
}

/// The kind of a literal. Its digits play no part in its type.
#[derive(Clone, Copy, Debug, PartialEq, Eq, Structural)]
pub enum Literal {
    Int,
    Float,
    Bool,
    Char,
    Str,
}

#[derive(Clone, Copy, Debug, PartialEq, Eq, Structural)]
pub enum UnaryOp {
    Neg,
    Not,
}

#[derive(Clone, Copy, Debug, PartialEq, Eq, Structural)]
pub enum BinaryOp {
    Add,
    Sub,
    Mul,
    Div,
    Rem,
    Eq,
    Ne,
    Lt,
    Le,
    Gt,
    Ge,
    And,
    Or,
}

#[derive(Debug)]
pub enum Pattern {
    Wildcard(Span),
    Binding(NodeId, Ident),
    Literal(Literal, Span),
    Tuple(Vec<Pattern>, Span),
    Variant { path: Path, payload: Vec<Pattern>, span: Span },
}

/// The position of a pattern.
pub open spec fn pattern_span(p: Pattern) -> Span {
    match p {
        Pattern::Wildcard(span) => span,
        Pattern::Binding(_, ident) => ident.span,
        Pattern::Literal(_, span) => span,
        Pattern::Tuple(_, span) => span,
        Pattern::Variant { span, .. } => span,
    }
}

impl Pattern {
    /// The position of this pattern.
    pub fn span(&self) -> (r: Span)
        ensures
            r == pattern_span(*self),
    {
        match self {
            Pattern::Wildcard(span) => *span,
            Pattern::Binding(_, ident) => ident.span,
            Pattern::Literal(_, span) => *span,
            Pattern::Tuple(_, span) => *span,
            Pattern::Variant { span, .. } => *span,
        }
    }
}

#[derive(Debug)]
pub enum FieldAccessor {
    Named(Ident),
    Index(u32, Span),
}

#[derive(Debug)]
pub enum TemplatePart {
    Text,
    Expr(Expr),
}

#[derive(Debug)]
pub struct MatchArm {
    pub pattern: Pattern,
    pub body: Expr,
}

#[derive(Debug)]
pub struct FieldInit {
    pub name: Ident,
    pub value: Expr,
}

#[derive(Debug)]
pub struct Param {
    pub id: NodeId,
    pub name: Ident,
    pub mutable: bool,
    pub variadic: bool,
    pub ty: TypeExpr,
}

#[derive(Debug)]
pub struct LetStmt {
    pub id: NodeId,
    pub mutable: bool,
    pub ty: Option<TypeExpr>,
    pub value: Expr,
}

#[derive(Debug)]
pub enum Stmt {
    Let(LetStmt),
    Expr(Expr),
}

#[derive(Debug)]
pub struct Block {
    pub stmts: Vec<Stmt>,
    pub tail: Option<Box<Expr>>,
    pub span: Span,
}

#[derive(Debug)]
pub struct Expr {
    pub id: NodeId,
    pub kind: ExprKind,
    pub span: Span,
}

#[allow(inconsistent_fields)]
#[derive(Debug)]
pub enum ExprKind {
    Literal(Literal),
    Path(Path),
    Tuple(Vec<Expr>),
    Array(Vec<Expr>),
    FixedArray(Vec<Expr>),
    Await(Box<Expr>),
    StringTemplate(Vec<TemplatePart>),
    RawBorrow { mutable: bool, place: Box<Expr> },
    RawDeref(Box<Expr>),
    Unary { op: UnaryOp, expr: Box<Expr> },
    Binary { op: BinaryOp, lhs: Box<Expr>, rhs: Box<Expr> },
    Assign { target: Box<Expr>, value: Box<Expr> },
    Call { callee: Box<Expr>, generic_args: Vec<TypeExpr>, args: Vec<Expr> },
    /// An argument written `mut x`.
    MutArg(Box<Expr>),
    MethodCall { receiver: Box<Expr>, method: Ident, generic_args: Vec<TypeExpr>, args: Vec<Expr> },
    Field { base: Box<Expr>, field: FieldAccessor },
    Index { base: Box<Expr>, index: Box<Expr> },
    If { cond: Box<Expr>, then_branch: Block, else_branch: Option<Box<Expr>> },
    Match { scrutinee: Box<Expr>, arms: Vec<MatchArm> },
    Block(Block),
    Unsafe(Block),
    While { cond: Box<Expr>, body: Block },
    ForIn { pattern: Pattern, iter: Box<Expr>, body: Block },
    Loop { body: Block },
    Break(Option<Box<Expr>>),
    Continue,
    Return(Option<Box<Expr>>),
    Closure { move_capture: bool, mut_capture: bool, params: Vec<Param>, body: Box<Expr> },
    StructLit { path: Path, fields: Vec<FieldInit>, owned: bool },
}

#[derive(Debug)]
pub struct GenericParam {
    pub name: Ident,
    pub bounds: Vec<TypeExpr>,
    pub const_ty: Option<TypeExpr>,
}

#[derive(Debug)]
pub struct FnDecl {
    pub id: NodeId,
    pub visibility: Visibility,
    pub is_async: bool,
    pub is_unsafe: bool,
    /// Declared with a foreign calling convention.
    pub is_foreign: bool,
    pub name: Ident,
    pub generics: Vec<GenericParam>,
    pub self_param: Option<SelfParam>,
    pub params: Vec<Param>,
    pub ret: Option<TypeExpr>,
    pub body: Option<Block>,
    pub span: Span,
}

#[derive(Debug)]
pub struct FieldDecl {
    pub name: Ident,
    pub visibility: Visibility,
    pub ty: TypeExpr,
}

#[derive(Debug)]
pub enum StructDeclKind {
    Struct(Vec<FieldDecl>),
    TupleStruct(Vec<TypeExpr>),
    Unit,
}

#[derive(Debug)]
pub struct StructDecl {
    pub name: Ident,
    pub generics: Vec<GenericParam>,
    pub traits: Vec<TypeExpr>,
    pub kind: StructDeclKind,
    pub span: Span,
}

#[derive(Debug)]
pub struct EnumVariant {
    pub name: Ident,
    pub payload: Vec<TypeExpr>,
}

#[derive(Debug)]
pub struct EnumDecl {
    pub name: Ident,
    pub generics: Vec<GenericParam>,
    pub traits: Vec<TypeExpr>,
    pub variants: Vec<EnumVariant>,
    pub span: Span,
}

#[derive(Debug)]
pub struct AssociatedConst {
    pub visibility: Visibility,
    pub name: Ident,
    pub ty: TypeExpr,
    pub value: Option<Expr>,
    pub span: Span,
}

#[derive(Debug)]
pub struct AssociatedType {
    pub visibility: Visibility,
    pub name: Ident,
    pub value: Option<TypeExpr>,
    pub span: Span,
}

#[derive(Debug)]
pub struct TraitDecl {
    pub name: Ident,
    pub generics: Vec<GenericParam>,
    pub parents: Vec<TypeExpr>,
    pub methods: Vec<FnDecl>,
    pub associated_consts: Vec<AssociatedConst>,
    pub associated_types: Vec<AssociatedType>,
    pub span: Span,
}

#[derive(Debug)]
pub struct ImplBlock {
    pub id: NodeId,
    pub is_unsafe: bool,
    pub is_default: bool,
    pub generics: Vec<GenericParam>,
    pub target: Ident,
    pub target_args: Vec<TypeExpr>,
    pub traits: Vec<TypeExpr>,
    pub methods: Vec<FnDecl>,
    pub associated_consts: Vec<AssociatedConst>,
    pub associated_types: Vec<AssociatedType>,
    pub span: Span,
}

#[derive(Debug)]
pub struct TypeAliasDecl {
    pub name: Ident,
    /// Exempts the alias from the casing rule.
    pub allow_pascal_case: bool,
    pub ty: TypeExpr,
    pub span: Span,
}

#[derive(Debug)]
pub enum Item {
    Fn(FnDecl),
    Struct(StructDecl),
    Enum(EnumDecl),
    Trait(TraitDecl),
    Impl(ImplBlock),
    TypeAlias(TypeAliasDecl),
    Use(Span),
    Mod(Span),
}

#[derive(Debug)]
pub struct Module {
    pub items: Vec<Item>,
}

/// The number of nodes of an expression.
pub open spec fn expr_size(x: Expr) -> nat
    decreases x,
{
    1 + match x.kind {
        ExprKind::Literal(_) => 0,
        ExprKind::Path(_) => 0,
        ExprKind::Tuple(xs) => exprs_size(xs@, 0),
        ExprKind::Array(xs) => exprs_size(xs@, 0),
        ExprKind::FixedArray(xs) => exprs_size(xs@, 0),
        ExprKind::Await(a) => expr_size(*a),
        ExprKind::StringTemplate(parts) => parts_size(parts@, 0),
        ExprKind::RawBorrow { mutable: _, place } => expr_size(*place),
        ExprKind::RawDeref(a) => expr_size(*a),
        ExprKind::Unary { op: _, expr } => expr_size(*expr),
        ExprKind::Binary { op: _, lhs, rhs } => expr_size(*lhs) + expr_size(*rhs),
        ExprKind::Assign { target, value } => expr_size(*target) + expr_size(*value),
        ExprKind::Call { callee, generic_args: _, args } => expr_size(*callee) + exprs_size(args@, 0),
        ExprKind::MutArg(a) => expr_size(*a),
        ExprKind::MethodCall { receiver, method: _, generic_args: _, args } =>
            expr_size(*receiver) + exprs_size(args@, 0),
        ExprKind::Field { base, field: _ } => expr_size(*base),
        ExprKind::Index { base, index } => expr_size(*base) + expr_size(*index),
        ExprKind::If { cond, then_branch, else_branch } =>
            expr_size(*cond) + block_size(then_branch) + (match else_branch {
                Some(a) => 1 + expr_size(*a),
                None => 0,
            }),
        ExprKind::Match { scrutinee, arms } => expr_size(*scrutinee) + arms_size(arms@, 0),
        ExprKind::Block(b) => block_size(b),
        ExprKind::Unsafe(b) => block_size(b),
        ExprKind::While { cond, body } => expr_size(*cond) + block_size(body),
        ExprKind::ForIn { pattern: _, iter, body } => expr_size(*iter) + block_size(body),
        ExprKind::Loop { body } => block_size(body),
        ExprKind::Break(v) => match v {
            Some(a) => 1 + expr_size(*a),
            None => 0,
        },
        ExprKind::Continue => 0,
        ExprKind::Return(v) => match v {
            Some(a) => 1 + expr_size(*a),
            None => 0,
        },
        ExprKind::Closure { move_capture: _, mut_capture: _, params: _, body } => expr_size(*body),
        ExprKind::StructLit { path: _, fields, owned: _ } => fields_size(fields@, 0),
    }
}

/// The number of nodes of an optional expression.
pub open spec fn opt_size(v: Option<Box<Expr>>) -> nat {
    match v {
        Some(a) => 1 + expr_size(*a),
        None => 0,
    }
}

/// The number of nodes from the `i`-th expression on.
pub open spec fn exprs_size(s: Seq<Expr>, i: int) -> nat
    decreases s, s.len() - i,
{
    if 0 <= i < s.len() {
        1 + expr_size(s[i]) + exprs_size(s, i + 1)
    } else {
        0
    }
}

/// The number of nodes from the `i`-th template part on.
pub open spec fn parts_size(s: Seq<TemplatePart>, i: int) -> nat
    decreases s, s.len() - i,
{
    if 0 <= i < s.len() {
        1 + (match s[i] {
            TemplatePart::Expr(x) => expr_size(x),
            TemplatePart::Text => 0,
        }) + parts_size(s, i + 1)
    } else {
        0
    }
}

/// The number of nodes from the `i`-th arm on.
pub open spec fn arms_size(s: Seq<MatchArm>, i: int) -> nat
    decreases s, s.len() - i,
{
    if 0 <= i < s.len() {
        1 + expr_size(s[i].body) + arms_size(s, i + 1)
    } else {
        0
    }
}

/// The number of nodes from the `i`-th field initializer on.
pub open spec fn fields_size(s: Seq<FieldInit>, i: int) -> nat
    decreases s, s.len() - i,
{
    if 0 <= i < s.len() {
        1 + expr_size(s[i].value) + fields_size(s, i + 1)
    } else {
        0
    }
}

/// The number of nodes of a statement.
pub open spec fn stmt_size(s: Stmt) -> nat {
    match s {
        Stmt::Let(l) => 1 + expr_size(l.value),
        Stmt::Expr(x) => 1 + expr_size(x),
    }
}

/// The number of nodes from the `i`-th statement on.
pub open spec fn stmts_size(s: Seq<Stmt>, i: int) -> nat
    decreases s, s.len() - i,
{
    if 0 <= i < s.len() {
        2 + (match s[i] {
            Stmt::Let(l) => expr_size(l.value),
            Stmt::Expr(x) => expr_size(x),
        }) + stmts_size(s, i + 1)
    } else {
        0
    }
}

/// The number of nodes of a block.
pub open spec fn block_size(b: Block) -> nat
    decreases b,
{
    1 + stmts_size(b.stmts@, 0) + (match b.tail {
        Some(a) => 1 + expr_size(*a),
        None => 0,
    })
}

/// The number of nodes of a pattern.
pub open spec fn pattern_size(p: Pattern) -> nat
    decreases p,
{
    match p {
        Pattern::Wildcard(_) => 1,
        Pattern::Binding(_, _) => 1,
        Pattern::Literal(_, _) => 1,
        Pattern::Tuple(ps, _) => 1 + patterns_size(ps@, 0),
        Pattern::Variant { path: _, payload, span: _ } => 1 + patterns_size(payload@, 0),
    }
}

/// The number of nodes from the `i`-th pattern on.
pub open spec fn patterns_size(s: Seq<Pattern>, i: int) -> nat
    decreases s, s.len() - i,
{
    if 0 <= i < s.len() {
        1 + pattern_size(s[i]) + patterns_size(s, i + 1)
    } else {
        0
    }
}

/// The number of nodes of a type's syntax.
pub open spec fn type_size(t: TypeExpr) -> nat
    decreases t,
{
    1 + match t {
        TypeExpr::Const(_, _) => 0,
        TypeExpr::Named { path: _, generics, span: _ } => types_size(generics@, 0),
        TypeExpr::Tuple(ts, _) => types_size(ts@, 0),
        TypeExpr::Array(a, _) => type_size(*a),
        TypeExpr::FixedArray { element, length, span: _ } => type_size(*element) + type_size(*length),
        TypeExpr::Weak(a, _) => type_size(*a),
        TypeExpr::Any(a, _) => type_size(*a),
        TypeExpr::Opaque(a, _) => type_size(*a),
        TypeExpr::Unique(a, _) => type_size(*a),
        TypeExpr::Ref(a, _) => type_size(*a),
        TypeExpr::MutRef(a, _) => type_size(*a),
        TypeExpr::RawConst(a, _) => type_size(*a),
        TypeExpr::RawMut(a, _) => type_size(*a),
        TypeExpr::Function { params, ret, span: _ } => types_size(params@, 0) + type_size(*ret),
    }
}

/// The number of nodes from the `i`-th type on.
pub open spec fn types_size(s: Seq<TypeExpr>, i: int) -> nat
    decreases s, s.len() - i,
{
    if 0 <= i < s.len() {
        1 + type_size(s[i]) + types_size(s, i + 1)
    } else {
        0
    }
}

/// Each expression of a list is smaller than the list.
pub proof fn lemma_exprs_size(s: Seq<Expr>, k: int, i: int)
    requires
        0 <= k <= i < s.len(),
    ensures
        expr_size(s[i]) < exprs_size(s, k),
    decreases i - k,
{
    if k < i {
        lemma_exprs_size(s, k + 1, i);
    }
}

/// A list has as many nodes as any of its tails, or more.
pub proof fn lemma_exprs_tail(s: Seq<Expr>, i: int, k: int)
    requires
        0 <= i <= k,
    ensures
        exprs_size(s, k) <= exprs_size(s, i),
    decreases k - i,
{
    if i < k && i < s.len() {
        lemma_exprs_tail(s, i + 1, k);
    }
}

/// The number of nodes of the arguments of a call, if there is one.
pub open spec fn args_size(args: Option<Seq<Expr>>) -> nat {
    match args {
        Some(xs) => exprs_size(xs, 0),
        None => 0,
    }
}

} // verus!
