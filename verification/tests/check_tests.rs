//! Programs in source form, and what the checker says of them.
use nether_typecheck::ast::{
    AssociatedConst, AssociatedType, BinaryOp, Block, EnumDecl, EnumVariant, Expr, ExprKind, FieldAccessor, FieldDecl,
    FieldInit, FnDecl, GenericParam, Ident, ImplBlock, Item, LetStmt, Literal, MatchArm, Module, Param, Path, Pattern,
    Stmt, StructDecl, StructDeclKind, TemplatePart, TraitDecl, TypeAliasDecl, TypeExpr, UnaryOp,
};
use nether_typecheck::check::entry::{check, TypedTables};
use nether_typecheck::describe::describe_type;
use nether_typecheck::diagnostics::Diagnostic;
use nether_typecheck::ids::{DefId, FileId, LocalId, NodeId, SelfParam, Span, Visibility};
use nether_typecheck::names::{
    DefKind, Definition, Definitions, PathResolution, Resolution, ResolvedNames,
};
use nether_typecheck::send_sync::{is_send, is_sync};
use nether_typecheck::sig::ReturnOrigin;
use nether_typecheck::table::Table;
use nether_typecheck::{PrimitiveKind, ReceiverDomain, Type};

const PRELUDE_STUB: &str = r#"
enum Option<T> {
    Some(T),
    None,
}
enum Result<T, E> {
    Ok(T),
    Error(E),
}
struct Array<T>;
"#;

// ---------------------------------------------------------------------
// Tokens
// ---------------------------------------------------------------------

#[derive(Clone, Debug, PartialEq)]
enum Tok {
    Ident(String),
    Int(String),
    Float,
    Str,
    Char,
    Template(Vec<Option<String>>),
    Punct(String),
    Eof,
}

#[derive(Clone, Debug)]
struct Token {
    tok: Tok,
    start: u32,
    end: u32,
}

fn lex(source: &str) -> Vec<Token> {
    let chars: Vec<char> = source.chars().collect();
    let mut out = Vec::new();
    let mut i = 0;
    let long = ["...", "=>", "==", "!=", "<=", ">=", "&&", "||"];
    while i < chars.len() {
        let c = chars[i];
        if c.is_whitespace() {
            i += 1;
            continue;
        }
        let start = i;
        let tok = if c.is_alphabetic() || c == '_' {
            while i < chars.len() && (chars[i].is_alphanumeric() || chars[i] == '_') {
                i += 1;
            }
            Tok::Ident(chars[start..i].iter().collect())
        } else if c.is_ascii_digit() {
            while i < chars.len() && chars[i].is_ascii_digit() {
                i += 1;
            }
            let after_dot = out.last().map_or(false, |t: &Token| t.tok == Tok::Punct(".".to_string()));
            if !after_dot && i + 1 < chars.len() && chars[i] == '.' && chars[i + 1].is_ascii_digit() {
                i += 1;
                while i < chars.len() && chars[i].is_ascii_digit() {
                    i += 1;
                }
                Tok::Float
            } else {
                Tok::Int(chars[start..i].iter().collect())
            }
        } else if c == '"' {
            i += 1;
            while chars[i] != '"' {
                i += 1;
            }
            i += 1;
            Tok::Str
        } else if c == '\'' {
            i += 1;
            while chars[i] != '\'' {
                i += 1;
            }
            i += 1;
            Tok::Char
        } else if c == '`' {
            i += 1;
            let mut parts = Vec::new();
            while chars[i] != '`' {
                if chars[i] == '$' && chars[i + 1] == '{' {
                    let from = i + 2;
                    let mut depth = 1;
                    i = from;
                    while depth > 0 {
                        if chars[i] == '{' {
                            depth += 1;
                        } else if chars[i] == '}' {
                            depth -= 1;
                        }
                        i += 1;
                    }
                    parts.push(Some(chars[from..i - 1].iter().collect()));
                } else {
                    if parts.last().map_or(true, |p| p.is_some()) {
                        parts.push(None);
                    }
                    i += 1;
                }
            }
            i += 1;
            Tok::Template(parts)
        } else {
            let rest: String = chars[i..].iter().take(3).collect();
            match long.iter().find(|p| rest.starts_with(**p)) {
                Some(p) => {
                    i += p.len();
                    Tok::Punct(p.to_string())
                }
                None => {
                    i += 1;
                    Tok::Punct(c.to_string())
                }
            }
        };
        out.push(Token { tok, start: start as u32, end: i as u32 });
    }
    let n = chars.len() as u32;
    out.push(Token { tok: Tok::Eof, start: n, end: n });
    out
}

// ---------------------------------------------------------------------
// Syntax
// ---------------------------------------------------------------------

struct Parser {
    toks: Vec<Token>,
    at: usize,
    next_id: u32,
    /// The expressions of the program.
    exprs: Vec<NodeId>,
    /// The names that `let` statements bind.
    lets: Vec<(NodeId, String)>,
    /// Whether `name: Type` names a plain type.
    plain_colon: bool,
}

impl Parser {
    fn peek(&self) -> &Tok {
        &self.toks[self.at].tok
    }

    fn ahead(&self, n: usize) -> &Tok {
        let i = (self.at + n).min(self.toks.len() - 1);
        &self.toks[i].tok
    }

    fn is(&self, p: &str) -> bool {
        *self.peek() == Tok::Punct(p.to_string())
    }

    fn is_at(&self, n: usize, p: &str) -> bool {
        *self.ahead(n) == Tok::Punct(p.to_string())
    }

    fn word(&self, w: &str) -> bool {
        *self.peek() == Tok::Ident(w.to_string())
    }

    fn word_at(&self, n: usize, w: &str) -> bool {
        *self.ahead(n) == Tok::Ident(w.to_string())
    }

    fn eat(&mut self, p: &str) -> bool {
        if self.is(p) {
            self.at += 1;
            true
        } else {
            false
        }
    }

    fn eat_word(&mut self, w: &str) -> bool {
        if self.word(w) {
            self.at += 1;
            true
        } else {
            false
        }
    }

    fn expect(&mut self, p: &str) {
        assert!(self.eat(p), "expected {p}, found {:?} at {}", self.peek(), self.toks[self.at].start);
    }

    fn id(&mut self) -> NodeId {
        self.next_id += 1;
        NodeId(self.next_id)
    }

    fn start(&self) -> u32 {
        self.toks[self.at].start
    }

    fn span(&self, start: u32) -> Span {
        let end = if self.at > 0 { self.toks[self.at - 1].end } else { start };
        Span { file: FileId(0), start, end }
    }

    fn ident(&mut self) -> Ident {
        let start = self.start();
        match self.peek().clone() {
            Tok::Ident(name) => {
                self.at += 1;
                Ident { name, span: self.span(start) }
            }
            other => panic!("expected a name, found {other:?} at {start}"),
        }
    }

    fn path(&mut self) -> Path {
        let id = self.id();
        let start = self.start();
        let mut segments = vec![self.ident()];
        while self.is(".") && matches!(self.ahead(1), Tok::Ident(_)) {
            self.at += 1;
            segments.push(self.ident());
        }
        Path { id, segments, span: self.span(start) }
    }

    fn type_list(&mut self, close: &str) -> Vec<TypeExpr> {
        let mut out = Vec::new();
        while !self.is(close) {
            out.push(self.ty());
            if !self.eat(",") {
                break;
            }
        }
        self.expect(close);
        out
    }

    /// The type after a colon.
    fn owned_ty(&mut self, start: u32) -> TypeExpr {
        if self.eat("&") {
            if self.eat_word("mut") {
                let t = self.ty();
                return TypeExpr::MutRef(Box::new(t), self.span(start));
            }
            let t = self.ty();
            return TypeExpr::Ref(Box::new(t), self.span(start));
        }
        let t = self.ty();
        if self.plain_colon {
            return t;
        }
        TypeExpr::Unique(Box::new(t), self.span(start))
    }

    fn ty(&mut self) -> TypeExpr {
        let start = self.start();
        if self.eat(":") {
            return self.owned_ty(start);
        }
        if self.eat("*") {
            if self.eat_word("mut") {
                let t = self.ty();
                return TypeExpr::RawMut(Box::new(t), self.span(start));
            }
            assert!(self.eat_word("const"));
            let t = self.ty();
            return TypeExpr::RawConst(Box::new(t), self.span(start));
        }
        if self.eat("(") {
            let items = self.type_list(")");
            if self.eat("=>") {
                let ret = self.ty();
                return TypeExpr::Function { params: items, ret: Box::new(ret), span: self.span(start) };
            }
            return TypeExpr::Tuple(items, self.span(start));
        }
        if self.eat("[") {
            let t = self.ty();
            self.expect("]");
            return TypeExpr::Array(Box::new(t), self.span(start));
        }
        if self.eat("{") {
            let element = self.ty();
            self.expect(",");
            let length = self.ty();
            self.expect("}");
            return TypeExpr::FixedArray {
                element: Box::new(element),
                length: Box::new(length),
                span: self.span(start),
            };
        }
        if let Tok::Int(n) = self.peek().clone() {
            self.at += 1;
            return TypeExpr::Const(n.parse().unwrap(), self.span(start));
        }
        if self.eat_word("weak") {
            let t = self.ty();
            return TypeExpr::Weak(Box::new(t), self.span(start));
        }
        if self.word("any") && matches!(self.ahead(1), Tok::Ident(_)) {
            self.at += 1;
            let t = self.ty();
            return TypeExpr::Any(Box::new(t), self.span(start));
        }
        if self.word("some") && matches!(self.ahead(1), Tok::Ident(_)) {
            self.at += 1;
            let t = self.ty();
            return TypeExpr::Opaque(Box::new(t), self.span(start));
        }
        let path = self.path();
        let generics = if self.eat("<") { self.type_list(">") } else { Vec::new() };
        TypeExpr::Named { path, generics, span: self.span(start) }
    }

    fn bounds(&mut self) -> Vec<TypeExpr> {
        let mut out = vec![self.ty()];
        while self.eat("+") {
            out.push(self.ty());
        }
        out
    }

    fn generics(&mut self) -> Vec<GenericParam> {
        let mut out = Vec::new();
        if !self.eat("<") {
            return out;
        }
        while !self.is(">") {
            if self.eat_word("const") {
                let name = self.ident();
                let t = self.ty();
                out.push(GenericParam { name, bounds: Vec::new(), const_ty: Some(t) });
            } else {
                let name = self.ident();
                self.eat(":");
                let bounds = if self.is(",") || self.is(">") { Vec::new() } else { self.bounds() };
                out.push(GenericParam { name, bounds, const_ty: None });
            }
            if !self.eat(",") {
                break;
            }
        }
        self.expect(">");
        out
    }

    fn where_clause(&mut self, generics: &mut Vec<GenericParam>) {
        if self.eat_word("where") {
            let name = self.ident();
            let bounds = self.bounds();
            let g = generics.iter_mut().find(|g| g.name.name == name.name).expect("a known parameter");
            g.bounds.extend(bounds);
        }
    }

    fn trait_refs(&mut self) -> Vec<TypeExpr> {
        let mut out = Vec::new();
        while matches!(self.peek(), Tok::Ident(_)) {
            out.push(self.ty());
            if !self.eat(",") {
                break;
            }
        }
        out
    }

    fn visibility(&mut self) -> Visibility {
        if self.eat_word("pub") {
            Visibility::Public
        } else {
            Visibility::Private
        }
    }

    fn param(&mut self) -> Param {
        let id = self.id();
        let name = self.ident();
        let mutable = self.eat_word("mut");
        let variadic = self.eat("...");
        let ty = self.ty();
        Param { id, name, mutable, variadic, ty }
    }

    fn self_param(&mut self) -> Option<SelfParam> {
        if self.word("self") {
            self.at += 1;
            return Some(SelfParam::ByRef);
        }
        if self.word("mut") && self.word_at(1, "self") {
            self.at += 2;
            return Some(SelfParam::ByMutRef);
        }
        if self.is(":") && self.word_at(1, "self") {
            self.at += 2;
            return Some(SelfParam::Owned);
        }
        if self.is(":") && self.is_at(1, "&") && self.word_at(2, "self") {
            self.at += 3;
            return Some(SelfParam::OwnedRef);
        }
        if self.is(":") && self.is_at(1, "&") && self.word_at(2, "mut") && self.word_at(3, "self") {
            self.at += 4;
            return Some(SelfParam::OwnedMutRef);
        }
        None
    }

    fn function(&mut self, visibility: Visibility, is_async: bool, is_unsafe: bool, is_foreign: bool) -> FnDecl {
        let id = self.id();
        let start = self.start();
        let name = self.ident();
        let generics = self.generics();
        self.expect("(");
        let self_param = self.self_param();
        if self_param.is_some() {
            self.eat(",");
        }
        let mut params = Vec::new();
        while !self.is(")") {
            params.push(self.param());
            if !self.eat(",") {
                break;
            }
        }
        self.expect(")");
        let ret = if self.is("{") || self.is(";") { None } else { Some(self.ty()) };
        let body = if self.eat(";") { None } else { Some(self.block()) };
        FnDecl {
            id,
            visibility,
            is_async,
            is_unsafe,
            is_foreign,
            name,
            generics,
            self_param,
            params,
            ret,
            body,
            span: self.span(start),
        }
    }

    fn associated_const(&mut self, visibility: Visibility) -> AssociatedConst {
        let start = self.start();
        let name = self.ident();
        let ty = self.ty();
        let value = if self.eat("=") { Some(self.expr()) } else { None };
        self.expect(";");
        AssociatedConst { visibility, name, ty, value, span: self.span(start) }
    }

    fn associated_type(&mut self, visibility: Visibility) -> AssociatedType {
        let start = self.start();
        let name = self.ident();
        let value = if self.eat("=") { Some(self.ty()) } else { None };
        self.expect(";");
        AssociatedType { visibility, name, value, span: self.span(start) }
    }

    fn members(&mut self) -> (Vec<FnDecl>, Vec<AssociatedConst>, Vec<AssociatedType>) {
        let (mut methods, mut consts, mut types) = (Vec::new(), Vec::new(), Vec::new());
        self.expect("{");
        while !self.eat("}") {
            let visibility = self.visibility();
            if self.eat_word("const") {
                consts.push(self.associated_const(visibility));
            } else if self.eat_word("type") {
                types.push(self.associated_type(visibility));
            } else {
                methods.push(self.function(visibility, false, false, false));
            }
        }
        (methods, consts, types)
    }

    fn structure(&mut self, start: u32) -> Item {
        let name = self.ident();
        let mut generics = self.generics();
        self.where_clause(&mut generics);
        if self.eat("(") {
            let items = self.type_list(")");
            self.expect(";");
            let kind = StructDeclKind::TupleStruct(items);
            return Item::Struct(StructDecl { name, generics, traits: Vec::new(), kind, span: self.span(start) });
        }
        let traits = self.trait_refs();
        let kind = if self.eat(";") {
            StructDeclKind::Unit
        } else {
            self.expect("{");
            let mut fields = Vec::new();
            while !self.is("}") {
                let visibility = self.visibility();
                let name = self.ident();
                let ty = self.ty();
                fields.push(FieldDecl { name, visibility, ty });
                if !self.eat(",") {
                    break;
                }
            }
            self.expect("}");
            StructDeclKind::Struct(fields)
        };
        Item::Struct(StructDecl { name, generics, traits, kind, span: self.span(start) })
    }

    fn items(&mut self) -> Vec<Item> {
        let mut out = Vec::new();
        while *self.peek() != Tok::Eof {
            let start = self.start();
            let mut allow_pascal_case = false;
            if self.eat("#") {
                self.expect("[");
                allow_pascal_case = self.ident().name == "allow_pascal_case";
                self.expect("]");
            }
            let visibility = self.visibility();
            if self.eat_word("use") {
                self.path();
                self.expect(";");
                out.push(Item::Use(self.span(start)));
                continue;
            }
            if self.word("extern") {
                self.at += 2;
                self.expect("{");
                while !self.eat("}") {
                    assert!(self.eat_word("fn"));
                    let f = self.function(Visibility::Private, false, false, true);
                    out.push(Item::Fn(f));
                }
                continue;
            }
            if self.eat_word("struct") {
                let item = self.structure(start);
                out.push(item);
                continue;
            }
            if self.word("type") && (self.is_at(2, "{") || self.is_at(2, "(")) {
                self.at += 1;
                let item = self.structure(start);
                out.push(item);
                continue;
            }
            if self.eat_word("type") {
                let name = self.ident();
                self.expect("=");
                let ty = self.ty();
                self.expect(";");
                out.push(Item::TypeAlias(TypeAliasDecl { name, allow_pascal_case, ty, span: self.span(start) }));
                continue;
            }
            if self.eat_word("enum") {
                let name = self.ident();
                let generics = self.generics();
                let traits = self.trait_refs();
                self.expect("{");
                let mut variants = Vec::new();
                while !self.is("}") {
                    let name = self.ident();
                    let payload = if self.eat("(") { self.type_list(")") } else { Vec::new() };
                    variants.push(EnumVariant { name, payload });
                    if !self.eat(",") {
                        break;
                    }
                }
                self.expect("}");
                out.push(Item::Enum(EnumDecl { name, generics, traits, variants, span: self.span(start) }));
                continue;
            }
            if self.eat_word("trait") {
                let name = self.ident();
                let generics = self.generics();
                let parents = self.trait_refs();
                let (methods, associated_consts, associated_types) = self.members();
                out.push(Item::Trait(TraitDecl {
                    name,
                    generics,
                    parents,
                    methods,
                    associated_consts,
                    associated_types,
                    span: self.span(start),
                }));
                continue;
            }
            let is_default = self.eat_word("default");
            if self.word("impl") || (self.word("unsafe") && self.word_at(1, "impl")) {
                let is_unsafe = self.eat_word("unsafe");
                assert!(self.eat_word("impl"));
                let id = self.id();
                let generics = self.generics();
                let target = self.ident();
                let target_args = if self.eat("<") { self.type_list(">") } else { Vec::new() };
                let traits = self.trait_refs();
                let (methods, associated_consts, associated_types) = self.members();
                out.push(Item::Impl(ImplBlock {
                    id,
                    is_unsafe,
                    is_default,
                    generics,
                    target,
                    target_args,
                    traits,
                    methods,
                    associated_consts,
                    associated_types,
                    span: self.span(start),
                }));
                continue;
            }
            let is_async = self.eat_word("async");
            let is_unsafe = self.eat_word("unsafe");
            assert!(self.eat_word("fn"), "unexpected {:?} at {start}", self.peek());
            let f = self.function(visibility, is_async, is_unsafe, false);
            out.push(Item::Fn(f));
        }
        out
    }

    // -----------------------------------------------------------------
    // Expressions
    // -----------------------------------------------------------------

    fn node(&mut self, start: u32, kind: ExprKind) -> Expr {
        let id = self.id();
        self.exprs.push(id);
        Expr { id, kind, span: self.span(start) }
    }

    fn block(&mut self) -> Block {
        let start = self.start();
        self.expect("{");
        let mut stmts = Vec::new();
        let mut tail = None;
        while !self.is("}") {
            if self.eat_word("let") {
                let id = self.id();
                let mutable = self.eat_word("mut");
                let name = self.ident();
                let ty = if self.is("=") { None } else { Some(self.ty()) };
                self.expect("=");
                let value = self.expr();
                self.expect(";");
                self.lets.push((id, name.name));
                stmts.push(Stmt::Let(LetStmt { id, mutable, ty, value }));
                continue;
            }
            let x = self.expr();
            let closed = matches!(
                x.kind,
                ExprKind::If { .. }
                    | ExprKind::Match { .. }
                    | ExprKind::While { .. }
                    | ExprKind::ForIn { .. }
                    | ExprKind::Loop { .. }
                    | ExprKind::Block(_)
                    | ExprKind::Unsafe(_)
            );
            if self.eat(";") || (closed && !self.is("}")) {
                stmts.push(Stmt::Expr(x));
            } else {
                tail = Some(Box::new(x));
                break;
            }
        }
        self.expect("}");
        Block { stmts, tail, span: self.span(start) }
    }

    fn expr(&mut self) -> Expr {
        self.assignment(true)
    }

    /// An expression before a block: no struct literal at its end.
    fn head(&mut self) -> Expr {
        self.assignment(false)
    }

    fn assignment(&mut self, lit: bool) -> Expr {
        let start = self.start();
        let target = self.binary(0, lit);
        if self.eat("=") {
            let value = self.assignment(lit);
            return self.node(start, ExprKind::Assign { target: Box::new(target), value: Box::new(value) });
        }
        target
    }

    fn operator(&self, level: usize) -> Option<BinaryOp> {
        let levels: [&[(&str, BinaryOp)]; 6] = [
            &[("||", BinaryOp::Or)],
            &[("&&", BinaryOp::And)],
            &[("==", BinaryOp::Eq), ("!=", BinaryOp::Ne)],
            &[("<", BinaryOp::Lt), ("<=", BinaryOp::Le), (">", BinaryOp::Gt), (">=", BinaryOp::Ge)],
            &[("+", BinaryOp::Add), ("-", BinaryOp::Sub)],
            &[("*", BinaryOp::Mul), ("/", BinaryOp::Div), ("%", BinaryOp::Rem)],
        ];
        levels[level].iter().find(|(p, _)| self.is(p)).map(|(_, op)| *op)
    }

    fn binary(&mut self, level: usize, lit: bool) -> Expr {
        if level == 6 {
            return self.unary(lit);
        }
        let start = self.start();
        let mut lhs = self.binary(level + 1, lit);
        while let Some(op) = self.operator(level) {
            self.at += 1;
            let rhs = self.binary(level + 1, lit);
            lhs = self.node(start, ExprKind::Binary { op, lhs: Box::new(lhs), rhs: Box::new(rhs) });
        }
        lhs
    }

    fn unary(&mut self, lit: bool) -> Expr {
        let start = self.start();
        if self.eat("-") {
            let x = self.unary(lit);
            return self.node(start, ExprKind::Unary { op: UnaryOp::Neg, expr: Box::new(x) });
        }
        if self.eat("!") {
            let x = self.unary(lit);
            return self.node(start, ExprKind::Unary { op: UnaryOp::Not, expr: Box::new(x) });
        }
        if self.eat("*") {
            let x = self.unary(lit);
            return self.node(start, ExprKind::RawDeref(Box::new(x)));
        }
        if self.eat("&") {
            assert!(self.eat_word("raw"));
            let mutable = self.eat_word("mut");
            if !mutable {
                assert!(self.eat_word("const"));
            }
            let x = self.unary(lit);
            return self.node(start, ExprKind::RawBorrow { mutable, place: Box::new(x) });
        }
        if self.eat_word("await") {
            let x = self.unary(lit);
            return self.node(start, ExprKind::Await(Box::new(x)));
        }
        self.postfix(lit)
    }

    fn args(&mut self) -> Vec<Expr> {
        self.expect("(");
        let mut out = Vec::new();
        while !self.is(")") {
            let start = self.start();
            if self.word("mut") && !self.is_at(1, "(") {
                self.at += 1;
                let x = self.expr();
                out.push(self.node(start, ExprKind::MutArg(Box::new(x))));
            } else {
                out.push(self.expr());
            }
            if !self.eat(",") {
                break;
            }
        }
        self.expect(")");
        out
    }

    /// The explicit generic arguments of a call, if that is what stands here.
    fn call_generics(&mut self) -> Vec<TypeExpr> {
        if !self.is("<") {
            return Vec::new();
        }
        let mut n = 1;
        let mut depth = 1;
        while depth > 0 {
            match self.ahead(n) {
                Tok::Punct(p) if p == "<" => depth += 1,
                Tok::Punct(p) if p == ">" => depth -= 1,
                Tok::Punct(p) if p == "," || p == ":" || p == "." || p == "&" || p == "(" || p == ")" => {}
                Tok::Ident(_) | Tok::Int(_) => {}
                _ => return Vec::new(),
            }
            n += 1;
        }
        if !self.is_at(n, "(") {
            return Vec::new();
        }
        self.expect("<");
        self.type_list(">")
    }

    fn postfix(&mut self, lit: bool) -> Expr {
        let start = self.start();
        let mut x = self.primary(lit);
        loop {
            if self.is("(") || self.is("<") {
                let generic_args = self.call_generics();
                if !self.is("(") {
                    return x;
                }
                let args = self.args();
                x = self.node(start, ExprKind::Call { callee: Box::new(x), generic_args, args });
            } else if self.eat("[") {
                let index = self.expr();
                self.expect("]");
                x = self.node(start, ExprKind::Index { base: Box::new(x), index: Box::new(index) });
            } else if self.eat(".") {
                if let Tok::Int(n) = self.peek().clone() {
                    let at = self.start();
                    self.at += 1;
                    let field = FieldAccessor::Index(n.parse().unwrap(), self.span(at));
                    x = self.node(start, ExprKind::Field { base: Box::new(x), field });
                    continue;
                }
                let name = self.ident();
                let generic_args = self.call_generics();
                if self.is("(") {
                    let args = self.args();
                    x = self.node(
                        start,
                        ExprKind::MethodCall { receiver: Box::new(x), method: name, generic_args, args },
                    );
                } else {
                    let field = FieldAccessor::Named(name);
                    x = self.node(start, ExprKind::Field { base: Box::new(x), field });
                }
            } else {
                return x;
            }
        }
    }

    fn is_closure(&self) -> bool {
        if !self.is("(") {
            return false;
        }
        let mut n = 1;
        let mut depth = 1;
        while depth > 0 {
            match self.ahead(n) {
                Tok::Punct(p) if p == "(" => depth += 1,
                Tok::Punct(p) if p == ")" => depth -= 1,
                Tok::Eof => return false,
                _ => {}
            }
            n += 1;
        }
        self.is_at(n, "=>")
    }

    fn closure(&mut self, start: u32, move_capture: bool, mut_capture: bool) -> Expr {
        self.expect("(");
        let mut params = Vec::new();
        while !self.is(")") {
            params.push(self.param());
            if !self.eat(",") {
                break;
            }
        }
        self.expect(")");
        self.expect("=>");
        let body = self.expr();
        self.node(start, ExprKind::Closure { move_capture, mut_capture, params, body: Box::new(body) })
    }

    fn pattern(&mut self) -> Pattern {
        let start = self.start();
        match self.peek().clone() {
            Tok::Int(_) => {
                self.at += 1;
                Pattern::Literal(Literal::Int, self.span(start))
            }
            Tok::Str => {
                self.at += 1;
                Pattern::Literal(Literal::Str, self.span(start))
            }
            Tok::Punct(_) => {
                self.expect("(");
                let mut items = Vec::new();
                while !self.is(")") {
                    items.push(self.pattern());
                    if !self.eat(",") {
                        break;
                    }
                }
                self.expect(")");
                Pattern::Tuple(items, self.span(start))
            }
            Tok::Ident(name) if name == "_" => {
                self.at += 1;
                Pattern::Wildcard(self.span(start))
            }
            Tok::Ident(name) if name == "true" || name == "false" => {
                self.at += 1;
                Pattern::Literal(Literal::Bool, self.span(start))
            }
            _ => {
                if !self.is_at(1, ".") && !self.is_at(1, "(") {
                    let id = self.id();
                    return Pattern::Binding(id, self.ident());
                }
                let path = self.path();
                let mut payload = Vec::new();
                if self.eat("(") {
                    while !self.is(")") {
                        payload.push(self.pattern());
                        if !self.eat(",") {
                            break;
                        }
                    }
                    self.expect(")");
                }
                Pattern::Variant { path, payload, span: self.span(start) }
            }
        }
    }

    fn struct_fields(&mut self) -> Vec<FieldInit> {
        self.expect("{");
        let mut fields = Vec::new();
        while !self.is("}") {
            let start = self.start();
            let name = self.ident();
            let value = if self.eat("=") || self.eat(":") {
                self.expr()
            } else {
                let id = self.id();
                let again = Ident { name: name.name.clone(), span: name.span };
                let path = Path { id, segments: vec![again], span: name.span };
                self.node(start, ExprKind::Path(path))
            };
            fields.push(FieldInit { name, value });
            if !self.eat(",") {
                break;
            }
        }
        self.expect("}");
        fields
    }

    fn starts_fields(&self) -> bool {
        self.is("{")
            && matches!(self.ahead(1), Tok::Ident(_))
            && (self.is_at(2, "=") || self.is_at(2, ",") || self.is_at(2, "}") || self.is_at(2, ":"))
    }

    fn primary(&mut self, lit: bool) -> Expr {
        let start = self.start();
        match self.peek().clone() {
            Tok::Int(_) => {
                self.at += 1;
                self.node(start, ExprKind::Literal(Literal::Int))
            }
            Tok::Float => {
                self.at += 1;
                self.node(start, ExprKind::Literal(Literal::Float))
            }
            Tok::Str => {
                self.at += 1;
                self.node(start, ExprKind::Literal(Literal::Str))
            }
            Tok::Char => {
                self.at += 1;
                self.node(start, ExprKind::Literal(Literal::Char))
            }
            Tok::Template(texts) => {
                self.at += 1;
                let mut parts = Vec::new();
                for text in texts {
                    match text {
                        None => parts.push(TemplatePart::Text),
                        Some(source) => {
                            let toks = std::mem::replace(&mut self.toks, lex(&source));
                            let at = std::mem::replace(&mut self.at, 0);
                            let x = self.expr();
                            self.toks = toks;
                            self.at = at;
                            parts.push(TemplatePart::Expr(x));
                        }
                    }
                }
                self.node(start, ExprKind::StringTemplate(parts))
            }
            Tok::Punct(p) => match p.as_str() {
                "(" => {
                    if self.is_closure() {
                        return self.closure(start, false, false);
                    }
                    self.expect("(");
                    let mut items = Vec::new();
                    let mut comma = false;
                    while !self.is(")") {
                        items.push(self.expr());
                        comma = self.eat(",");
                        if !comma {
                            break;
                        }
                    }
                    self.expect(")");
                    if items.len() == 1 && !comma {
                        return items.pop().unwrap();
                    }
                    self.node(start, ExprKind::Tuple(items))
                }
                "[" => {
                    self.expect("[");
                    let mut items = Vec::new();
                    while !self.is("]") {
                        items.push(self.expr());
                        if !self.eat(",") {
                            break;
                        }
                    }
                    self.expect("]");
                    self.node(start, ExprKind::Array(items))
                }
                "{" => {
                    let b = self.block();
                    self.node(start, ExprKind::Block(b))
                }
                ":" => {
                    self.expect(":");
                    let path = self.path();
                    let fields = self.struct_fields();
                    self.node(start, ExprKind::StructLit { path, fields, owned: true })
                }
                other => panic!("unexpected {other} at {start}"),
            },
            Tok::Ident(name) => match name.as_str() {
                "true" | "false" => {
                    self.at += 1;
                    self.node(start, ExprKind::Literal(Literal::Bool))
                }
                "if" => {
                    self.at += 1;
                    let cond = self.head();
                    let then_branch = self.block();
                    let else_branch = if self.eat_word("else") {
                        Some(Box::new(self.primary(true)))
                    } else {
                        None
                    };
                    self.node(start, ExprKind::If { cond: Box::new(cond), then_branch, else_branch })
                }
                "match" => {
                    self.at += 1;
                    let scrutinee = self.head();
                    self.expect("{");
                    let mut arms = Vec::new();
                    while !self.is("}") {
                        let pattern = self.pattern();
                        self.expect("=>");
                        let body = self.expr();
                        arms.push(MatchArm { pattern, body });
                        if !self.eat(",") {
                            break;
                        }
                    }
                    self.expect("}");
                    self.node(start, ExprKind::Match { scrutinee: Box::new(scrutinee), arms })
                }
                "while" => {
                    self.at += 1;
                    let cond = self.head();
                    let body = self.block();
                    self.node(start, ExprKind::While { cond: Box::new(cond), body })
                }
                "for" => {
                    self.at += 1;
                    let pattern = self.pattern();
                    assert!(self.eat_word("in"));
                    let iter = self.head();
                    let body = self.block();
                    self.node(start, ExprKind::ForIn { pattern, iter: Box::new(iter), body })
                }
                "loop" => {
                    self.at += 1;
                    let body = self.block();
                    self.node(start, ExprKind::Loop { body })
                }
                "unsafe" => {
                    self.at += 1;
                    let b = self.block();
                    self.node(start, ExprKind::Unsafe(b))
                }
                "break" => {
                    self.at += 1;
                    let value = self.optional_value();
                    self.node(start, ExprKind::Break(value))
                }
                "continue" => {
                    self.at += 1;
                    self.node(start, ExprKind::Continue)
                }
                "return" => {
                    self.at += 1;
                    let value = self.optional_value();
                    self.node(start, ExprKind::Return(value))
                }
                "move" => {
                    self.at += 1;
                    self.closure(start, true, false)
                }
                "mut" => {
                    self.at += 1;
                    self.closure(start, false, true)
                }
                _ => {
                    let path = self.path();
                    if lit && self.starts_fields() {
                        let fields = self.struct_fields();
                        return self.node(start, ExprKind::StructLit { path, fields, owned: false });
                    }
                    self.node(start, ExprKind::Path(path))
                }
            },
            Tok::Eof => panic!("unexpected end"),
        }
    }

    fn optional_value(&mut self) -> Option<Box<Expr>> {
        if self.is(";") || self.is("}") || self.is(",") {
            None
        } else {
            Some(Box::new(self.expr()))
        }
    }
}

// ---------------------------------------------------------------------
// Names
// ---------------------------------------------------------------------

/// Resolves the names of a module.
struct Names<'a> {
    module: &'a Module,
    lets: &'a [(NodeId, String)],
    names: ResolvedNames,
    next_local: u32,
    locals: Vec<(String, LocalId)>,
    generics: Vec<(String, bool)>,
}

impl<'a> Names<'a> {
    fn define(&mut self, name: &str, kind: DefKind, builtin: bool) {
        let id = DefId(self.names.definitions.items.len() as u32);
        let file = if builtin { None } else { Some(FileId(0)) };
        self.names.definitions.items.push(Definition {
            name: name.to_string(),
            kind,
            file,
            methods: Vec::new(),
            constants: Vec::new(),
        });
        self.names.definitions.global.insert(name.to_string(), id);
        self.names.definitions.scoped.insert((FileId(0), name.to_string()), id);
    }

    fn def(&self, name: &str) -> Option<DefId> {
        let i = self.names.definitions.items.iter().rposition(|d| d.name == name)?;
        Some(DefId(i as u32))
    }

    fn declare(&mut self) {
        for name in [
            "i8", "i16", "i32", "i64", "i128", "isize", "u8", "u16", "u32", "u64", "u128", "usize", "f32", "f64",
            "bool", "char", "String",
        ] {
            self.define(name, DefKind::Primitive, true);
        }
        for name in ["Into", "Eq", "Hash", "Clone", "Send", "Sync"] {
            self.define(name, DefKind::Trait, true);
        }
        for name in ["println", "print", "to", "hash"] {
            self.define(name, DefKind::Fn, true);
        }
        let module = self.module;
        for item in &module.items {
            match item {
                Item::Fn(f) => self.define(&f.name.name, DefKind::Fn, false),
                Item::Struct(s) => self.define(&s.name.name, DefKind::Type, false),
                Item::Enum(e) => self.define(&e.name.name, DefKind::Enum, false),
                Item::Trait(t) => self.define(&t.name.name, DefKind::Trait, false),
                Item::TypeAlias(t) => self.define(&t.name.name, DefKind::TypeAlias, false),
                _ => {}
            }
        }
        for item in &module.items {
            match item {
                Item::Impl(b) => {
                    let owner = self.def(&b.target.name).expect("a known owner");
                    self.own_members(owner, &b.methods, &b.associated_consts);
                    for t in &b.traits {
                        self.trait_members(owner, t);
                    }
                }
                Item::Struct(s) => {
                    let owner = self.def(&s.name.name).unwrap();
                    for t in &s.traits {
                        self.trait_members(owner, t);
                    }
                }
                Item::Enum(e) => {
                    let owner = self.def(&e.name.name).unwrap();
                    for t in &e.traits {
                        self.trait_members(owner, t);
                    }
                }
                _ => {}
            }
        }
    }

    fn own_members(&mut self, owner: DefId, methods: &[FnDecl], consts: &[AssociatedConst]) {
        let d = &mut self.names.definitions.items[owner.0 as usize];
        for m in methods {
            if !d.methods.contains(&m.name.name) {
                d.methods.push(m.name.name.clone());
            }
        }
        for c in consts {
            if !d.constants.contains(&c.name.name) {
                d.constants.push(c.name.name.clone());
            }
        }
    }

    fn trait_members(&mut self, owner: DefId, t: &TypeExpr) {
        let name = match t {
            TypeExpr::Named { path, .. } => path.segments[0].name.clone(),
            _ => return,
        };
        let module = self.module;
        for item in &module.items {
            if let Item::Trait(t) = item {
                if t.name.name == name {
                    self.own_members(owner, &t.methods, &t.associated_consts);
                    for p in &t.parents {
                        self.trait_members(owner, p);
                    }
                }
            }
        }
    }

    fn set(&mut self, id: NodeId, base: Resolution, consumed: usize) {
        self.names.path_res.insert(id, PathResolution { base, consumed });
    }

    fn bind(&mut self, site: NodeId, name: &str) {
        let local = LocalId(self.next_local);
        self.next_local += 1;
        self.locals.push((name.to_string(), local));
        self.names.locals.insert(site, local);
    }

    fn variant(&self, owner: &str, name: &str) -> Option<u32> {
        for item in &self.module.items {
            if let Item::Enum(e) = item {
                if e.name.name == owner {
                    return e.variants.iter().position(|v| v.name.name == name).map(|i| i as u32);
                }
            }
        }
        None
    }

    /// The first declared enum with this variant.
    fn bare_variant(&self, name: &str) -> Option<(DefId, u32)> {
        for item in &self.module.items {
            if let Item::Enum(e) = item {
                if let Some(i) = self.variant(&e.name.name, name) {
                    return Some((self.def(&e.name.name).unwrap(), i));
                }
            }
        }
        None
    }

    fn path(&mut self, p: &Path) {
        let head = p.segments[0].name.clone();
        if let Some((_, local)) = self.locals.iter().rev().find(|(n, _)| *n == head) {
            let local = *local;
            self.set(p.id, Resolution::Local(local), 1);
            return;
        }
        if let Some((_, is_const)) = self.generics.iter().rev().find(|(n, _)| *n == head) {
            let base = if *is_const { Resolution::ConstParam } else { Resolution::GenericParam };
            self.set(p.id, base, 1);
            return;
        }
        if let Some(id) = self.def(&head) {
            if p.segments.len() > 1 {
                let member = p.segments[1].name.clone();
                if let Some(i) = self.variant(&head, &member) {
                    self.set(p.id, Resolution::EnumVariant(id, i), 2);
                    return;
                }
                let d = &self.names.definitions.items[id.0 as usize];
                if let Some(i) = d.methods.iter().position(|m| *m == member) {
                    self.set(p.id, Resolution::StaticMember(id, i as u32), 2);
                    return;
                }
                if let Some(i) = d.constants.iter().position(|m| *m == member) {
                    self.set(p.id, Resolution::StaticConst(id, i as u32), 2);
                    return;
                }
            }
            self.set(p.id, Resolution::Def(id), 1);
            return;
        }
        if let Some((id, i)) = self.bare_variant(&head) {
            self.set(p.id, Resolution::EnumVariant(id, i), 1);
            return;
        }
        assert!(head == "task" || head == "thread" || head == "timer", "unknown name {head}");
        self.set(p.id, Resolution::Error, 1);
    }

    fn types(&mut self, ts: &[TypeExpr]) {
        for t in ts {
            self.ty(t);
        }
    }

    fn ty(&mut self, t: &TypeExpr) {
        match t {
            TypeExpr::Const(_, _) => {}
            TypeExpr::Named { path, generics, .. } => {
                let head = path.segments[0].name.clone();
                match self.generics.iter().rev().find(|(n, _)| *n == head) {
                    Some((_, is_const)) => {
                        let base = if *is_const { Resolution::ConstParam } else { Resolution::GenericParam };
                        self.set(path.id, base, 1);
                    }
                    None => {
                        let id = self.def(&head).unwrap_or_else(|| panic!("unknown type {head}"));
                        self.set(path.id, Resolution::Def(id), 1);
                    }
                }
                self.types(generics);
            }
            TypeExpr::Tuple(ts, _) => self.types(ts),
            TypeExpr::FixedArray { element, length, .. } => {
                self.ty(element);
                self.ty(length);
            }
            TypeExpr::Array(t, _)
            | TypeExpr::Weak(t, _)
            | TypeExpr::Any(t, _)
            | TypeExpr::Opaque(t, _)
            | TypeExpr::Unique(t, _)
            | TypeExpr::Ref(t, _)
            | TypeExpr::MutRef(t, _)
            | TypeExpr::RawConst(t, _)
            | TypeExpr::RawMut(t, _) => self.ty(t),
            TypeExpr::Function { params, ret, .. } => {
                self.types(params);
                self.ty(ret);
            }
        }
    }

    fn open(&mut self, generics: &[GenericParam]) {
        for g in generics {
            self.generics.push((g.name.name.clone(), g.const_ty.is_some()));
        }
        for g in generics {
            self.types(&g.bounds);
            if let Some(t) = &g.const_ty {
                self.ty(t);
            }
        }
    }

    fn function(&mut self, f: &FnDecl) {
        let depth = self.generics.len();
        self.open(&f.generics);
        for p in &f.params {
            self.ty(&p.ty);
        }
        if let Some(t) = &f.ret {
            self.ty(t);
        }
        if let Some(b) = &f.body {
            let locals = self.locals.len();
            if f.self_param.is_some() {
                self.bind(f.id, "self");
            }
            for p in &f.params {
                self.bind(p.id, &p.name.name);
            }
            self.block(b);
            self.locals.truncate(locals);
        }
        self.generics.truncate(depth);
    }

    fn members(&mut self, methods: &[FnDecl], consts: &[AssociatedConst], types: &[AssociatedType]) {
        for c in consts {
            self.ty(&c.ty);
            if let Some(v) = &c.value {
                self.expr(v);
            }
        }
        for t in types {
            if let Some(v) = &t.value {
                self.ty(v);
            }
        }
        for m in methods {
            self.function(m);
        }
    }

    fn owner_generics(&mut self, name: &str) {
        let module = self.module;
        for item in &module.items {
            let (n, gs) = match item {
                Item::Struct(s) => (&s.name.name, &s.generics),
                Item::Enum(e) => (&e.name.name, &e.generics),
                _ => continue,
            };
            if n == name {
                for g in gs {
                    self.generics.push((g.name.name.clone(), g.const_ty.is_some()));
                }
            }
        }
    }

    fn items(&mut self) {
        let module = self.module;
        for item in &module.items {
            match item {
                Item::Fn(f) => self.function(f),
                Item::Struct(s) => {
                    self.open(&s.generics);
                    self.types(&s.traits);
                    match &s.kind {
                        StructDeclKind::Struct(fields) => {
                            for f in fields {
                                self.ty(&f.ty);
                            }
                        }
                        StructDeclKind::TupleStruct(ts) => self.types(ts),
                        StructDeclKind::Unit => {}
                    }
                }
                Item::Enum(e) => {
                    self.open(&e.generics);
                    self.types(&e.traits);
                    for v in &e.variants {
                        self.types(&v.payload);
                    }
                }
                Item::Trait(t) => {
                    self.open(&t.generics);
                    self.types(&t.parents);
                    self.members(&t.methods, &t.associated_consts, &t.associated_types);
                }
                Item::Impl(b) => {
                    if b.generics.is_empty() {
                        self.owner_generics(&b.target.name);
                    }
                    self.open(&b.generics);
                    self.types(&b.target_args);
                    self.types(&b.traits);
                    self.members(&b.methods, &b.associated_consts, &b.associated_types);
                }
                Item::TypeAlias(t) => self.ty(&t.ty),
                Item::Use(_) | Item::Mod(_) => {}
            }
            self.generics.clear();
        }
    }

    fn block(&mut self, b: &Block) {
        let locals = self.locals.len();
        for s in &b.stmts {
            match s {
                Stmt::Let(l) => {
                    if let Some(t) = &l.ty {
                        self.ty(t);
                    }
                    self.expr(&l.value);
                    let lets = self.lets;
                    let (_, name) = lets.iter().find(|(id, _)| *id == l.id).unwrap();
                    self.bind(l.id, name);
                }
                Stmt::Expr(x) => self.expr(x),
            }
        }
        if let Some(x) = &b.tail {
            self.expr(x);
        }
        self.locals.truncate(locals);
    }

    fn pattern(&mut self, p: &Pattern) {
        match p {
            Pattern::Wildcard(_) | Pattern::Literal(_, _) => {}
            Pattern::Binding(id, name) => match self.bare_variant(&name.name) {
                Some((owner, i)) => self.set(*id, Resolution::EnumVariant(owner, i), 1),
                None => self.bind(*id, &name.name),
            },
            Pattern::Tuple(ps, _) => {
                for p in ps {
                    self.pattern(p);
                }
            }
            Pattern::Variant { path, payload, .. } => {
                self.path(path);
                for p in payload {
                    self.pattern(p);
                }
            }
        }
    }

    fn exprs(&mut self, xs: &[Expr]) {
        for x in xs {
            self.expr(x);
        }
    }

    fn expr(&mut self, x: &Expr) {
        match &x.kind {
            ExprKind::Literal(_) | ExprKind::Continue => {}
            ExprKind::Path(p) => self.path(p),
            ExprKind::Tuple(xs) | ExprKind::Array(xs) | ExprKind::FixedArray(xs) => self.exprs(xs),
            ExprKind::Await(x) | ExprKind::RawDeref(x) | ExprKind::MutArg(x) => self.expr(x),
            ExprKind::StringTemplate(parts) => {
                for p in parts {
                    if let TemplatePart::Expr(x) = p {
                        self.expr(x);
                    }
                }
            }
            ExprKind::RawBorrow { place, .. } => self.expr(place),
            ExprKind::Unary { expr, .. } => self.expr(expr),
            ExprKind::Binary { lhs, rhs, .. } => {
                self.expr(lhs);
                self.expr(rhs);
            }
            ExprKind::Assign { target, value } => {
                self.expr(target);
                self.expr(value);
            }
            ExprKind::Call { callee, generic_args, args } => {
                self.expr(callee);
                self.types(generic_args);
                self.exprs(args);
            }
            ExprKind::MethodCall { receiver, generic_args, args, .. } => {
                self.expr(receiver);
                self.types(generic_args);
                self.exprs(args);
            }
            ExprKind::Field { base, .. } => self.expr(base),
            ExprKind::Index { base, index } => {
                self.expr(base);
                self.expr(index);
            }
            ExprKind::If { cond, then_branch, else_branch } => {
                self.expr(cond);
                self.block(then_branch);
                if let Some(x) = else_branch {
                    self.expr(x);
                }
            }
            ExprKind::Match { scrutinee, arms } => {
                self.expr(scrutinee);
                for a in arms {
                    let locals = self.locals.len();
                    self.pattern(&a.pattern);
                    self.expr(&a.body);
                    self.locals.truncate(locals);
                }
            }
            ExprKind::Block(b) | ExprKind::Unsafe(b) => self.block(b),
            ExprKind::While { cond, body } => {
                self.expr(cond);
                self.block(body);
            }
            ExprKind::ForIn { pattern, iter, body } => {
                self.expr(iter);
                let locals = self.locals.len();
                self.pattern(pattern);
                self.block(body);
                self.locals.truncate(locals);
            }
            ExprKind::Loop { body } => self.block(body),
            ExprKind::Break(v) | ExprKind::Return(v) => {
                if let Some(x) = v {
                    self.expr(x);
                }
            }
            ExprKind::Closure { params, body, .. } => {
                for p in params {
                    self.ty(&p.ty);
                }
                let locals = self.locals.len();
                for p in params {
                    self.bind(p.id, &p.name.name);
                }
                self.expr(body);
                self.locals.truncate(locals);
            }
            ExprKind::StructLit { path, fields, .. } => {
                self.path(path);
                for f in fields {
                    self.expr(&f.value);
                }
            }
        }
    }
}

// ---------------------------------------------------------------------
// Checking a source text
// ---------------------------------------------------------------------

/// A checked program, with the ids of its expressions.
struct CheckedProgram {
    tables: TypedTables,
    diags: Vec<Diagnostic>,
    exprs: Vec<NodeId>,
    names: ResolvedNames,
}

fn check_program(source: &str, plain_colon: bool) -> CheckedProgram {
    check_parts(source, plain_colon, &[])
}

/// A checked program in which the items of these names are declared in a file
/// of their own.
fn check_parts(source: &str, plain_colon: bool, elsewhere: &[&str]) -> CheckedProgram {
    let source = format!("{PRELUDE_STUB}\n{source}");
    let mut parser =
        Parser { toks: lex(&source), at: 0, next_id: 0, exprs: Vec::new(), lets: Vec::new(), plain_colon };
    let items = parser.items();
    let module = Module { items };
    let mut names = Names {
        module: &module,
        lets: &parser.lets,
        names: ResolvedNames {
            definitions: Definitions { items: Vec::new(), global: Table::new(), scoped: Table::new() },
            path_res: Table::new(),
            locals: Table::new(),
        },
        next_local: 0,
        locals: Vec::new(),
        generics: Vec::new(),
    };
    names.declare();
    names.items();
    let mut names = names.names;
    for item in &mut names.definitions.items {
        if elsewhere.contains(&item.name.as_str()) {
            item.file = Some(FileId(1));
        }
    }
    let (tables, diags) = check(&module, &names);
    CheckedProgram { tables, diags, exprs: parser.exprs, names }
}

fn check_source(source: &str) -> Vec<Diagnostic> {
    check_program(source, false).diags
}

fn expect_ok(source: &str, diags: Vec<Diagnostic>) {
    assert!(diags.is_empty(), "unexpected typecheck diagnostics: {} in {source}", messages(&diags));
}

fn expect_err(source: &str, diags: Vec<Diagnostic>, needle: &str) {
    assert!(
        diags.iter().any(|d| d.message.contains(needle)),
        "expected a diagnostic containing {needle:?}, got: {} in {source}",
        messages(&diags)
    );
}

fn assert_ok(source: &str) {
    expect_ok(source, check_source(source));
}

fn assert_err(source: &str, needle: &str) {
    expect_err(source, check_source(source), needle);
}

/// As `assert_ok`, with `name: Type` for a plain type.
fn assert_plain_ok(source: &str) {
    expect_ok(source, check_program(source, true).diags);
}

/// As `assert_err`, with `name: Type` for a plain type.
fn assert_plain_err(source: &str, needle: &str) {
    expect_err(source, check_program(source, true).diags, needle);
}

fn messages(diags: &[Diagnostic]) -> String {
    diags.iter().map(|d| d.message.clone()).collect::<Vec<_>>().join("; ")
}

#[test]
fn canonical_spec_example_type_checks_cleanly() {
    assert_ok(
        r#"
use lang.Lang;

fn main() {
    let mut a = Lang.new("Bobby");
    a.set_name("Husky");
    println(a.into_string());
}

struct Lang {
    name String
}

impl Lang {
    new(name String) Lang {
        return Lang { name };
    }

    set_name(mut self, new_name String) {
        self.name = new_name;
    }
}

impl Lang Into<String> {
    into_string(self) String {
        return `name: ${self.name}`;
    }
}

trait Sound {
    sound() String {
        return "...";
    }
}

impl Lang Sound {
    sound() String {
        return "Woof! Ruff!";
    }
}
"#,
    );
}

#[test]
fn let_infers_type_from_initializer() {
    assert_ok("fn main() { let x = 5; let y i32 = x; }");
}

#[test]
fn let_annotation_mismatch_reports_diagnostic() {
    assert_err(
        "fn main() { let x bool = 5; }",
        "expected `bool`, found `i32`",
    );
}

#[test]
fn mut_param_requires_mut_at_call_site() {
    assert_err(
        r#"
fn inc(n mut i32) { n = n + 1; }
fn main() {
    let x = 4;
    inc(x);
}
"#,
        "the caller must also write `mut`",
    );
}

#[test]
fn mut_arg_on_non_mut_param_is_rejected() {
    assert_err(
        r#"
fn show(n i32) { println(n); }
fn main() {
    let mut x = 4;
    show(mut x);
}
"#,
        "only valid for arguments passed to a `mut` parameter",
    );
}

#[test]
fn mut_call_site_succeeds_with_mut_binding() {
    assert_ok(
        r#"
fn inc(n mut i32) { n = n + 1; }
fn main() {
    let mut x = 4;
    inc(mut x);
}
"#,
    );
}

#[test]
fn mut_call_site_rejects_immutable_binding() {
    assert_err(
        r#"
fn inc(n mut i32) { n = n + 1; }
fn main() {
    let x = 4;
    inc(mut x);
}
"#,
        "declare it with `let mut`",
    );
}

#[test]
fn static_and_instance_method_calls_type_check() {
    assert_ok(
        r#"
struct Dog { name String }
impl Dog {
    new(name String) Dog {
        return Dog { name };
    }
    greet(self) String {
        return self.name;
    }
}
fn main() {
    let d = Dog.new("Rex");
    let g = d.greet();
}
"#,
    );
}

#[test]
fn calling_instance_method_as_static_is_rejected() {
    assert_err(
        r#"
struct Dog { name String }
impl Dog {
    greet(self) String { return self.name; }
}
fn main() {
    let g = Dog.greet();
}
"#,
        "instance method",
    );
}

#[test]
fn struct_literal_checks_missing_and_unknown_fields() {
    assert_err(
        r#"
struct Dog { name String, age i32 }
fn main() {
    let d = Dog { name = "Rex" };
}
"#,
        "missing field `age`",
    );
    assert_err(
        r#"
struct Dog { name String }
fn main() {
    let d = Dog { name = "Rex", nickname = "Rexy" };
}
"#,
        "has no field named `nickname`",
    );
}

#[test]
fn struct_literal_field_type_mismatch_reported() {
    assert_err(
        r#"
struct Dog { name String }
fn main() {
    let d = Dog { name = 5 };
}
"#,
        "found `i32`",
    );
}

#[test]
fn tuple_struct_construction_checks_arity_and_types() {
    assert_ok("struct Point(i32, i32);\nfn main() { let p = Point(1, 2); }");
    assert_err(
        "struct Point(i32, i32);\nfn main() { let p = Point(1); }",
        "expected 2 argument(s), found 1",
    );
    assert_err(
        "struct Point(i32, i32);\nfn main() { let p = Point(1, \"x\"); }",
        "found `String`",
    );
}

#[test]
fn enum_match_exhaustiveness_is_checked() {
    assert_err(
        r#"
enum Color { Red, Green, Blue }
fn f(c Color) {
    match c {
        Color.Red => 1,
        Color.Green => 2,
    };
}
"#,
        "not exhaustive",
    );
    assert_ok(
        r#"
enum Color { Red, Green, Blue }
fn f(c Color) {
    match c {
        Color.Red => 1,
        Color.Green => 2,
        Color.Blue => 3,
    };
}
"#,
    );
    assert_ok(
        r#"
enum Color { Red, Green, Blue }
fn f(c Color) {
    match c {
        Color.Red => 1,
        _ => 0,
    };
}
"#,
    );
    assert_err(
        r#"
enum Maybe { Some(i32), None }
fn f(value Maybe) i32 {
    match value {
        Maybe.Some(x) => x,
    }
}
"#,
        "missing variant(s) None",
    );
}

#[test]
fn enum_variant_payload_checked() {
    assert_ok(
        r#"
enum Shape { Circle(i32), Empty }
fn f() {
    let s = Shape.Circle(4);
}
"#,
    );
    assert_err(
        r#"
enum Shape { Circle(i32), Empty }
fn f() {
    let s = Shape.Circle("x");
}
"#,
        "found `String`",
    );
}

#[test]
fn invalid_patterns_are_rejected_before_mir_lowering() {
    assert_err(
        r#"
fn f(value bool) i32 {
    match value {
        1 => 1,
        _ => 0,
    }
}
"#,
        "literal pattern is incompatible",
    );
    assert_err(
        r#"
fn f(value i32) i32 {
    match value {
        (x, y) => x,
        _ => 0,
    }
}
"#,
        "tuple pattern requires a tuple",
    );
    assert_err(
        r#"
fn f(value (i32, bool)) i32 {
    match value {
        (x,) => x,
        _ => 0,
    }
}
"#,
        "tuple pattern has 1 element(s)",
    );
    assert_err(
        r#"
enum Left { Item(i32) }
enum Right { Item2(i32) }
fn f(value Left) i32 {
    match value {
        Right.Item2(x) => x,
        _ => 0,
    }
}
"#,
        "variant pattern from enum `Right` cannot match `Left`",
    );
    assert_err(
        r#"
enum Maybe { Some(i32), None }
fn f(value Maybe) i32 {
    match value {
        Maybe.Some => 1,
        _ => 0,
    }
}
"#,
        "variant pattern expects 1 payload field(s), found 0",
    );
}

#[test]
fn generic_bound_satisfied_and_unsatisfied() {
    assert_ok(
        r#"
trait Sound { sound() String { return "..."; } }
struct Dog { name String }
impl Dog Sound { sound() String { return "Woof"; } }
fn make_noise<T: Sound>(x T) String {
    return x.sound();
}
fn main() {
    let d = Dog { name = "Rex" };
    make_noise(d);
}
"#,
    );
    assert_err(
        r#"
trait Sound { sound() String { return "..."; } }
struct Rock { weight i32 }
fn make_noise<T: Sound>(x T) String {
    return x.sound();
}
fn main() {
    let r = Rock { weight = 1 };
    make_noise(r);
}
"#,
        "does not implement `Sound`",
    );
}

#[test]
fn option_unit_variant_uses_context_and_never_leaks_an_unknown_type() {
    assert_ok(
        r#"
fn none() Option<i32> {
    return Option.None;
}
fn main() {
    let direct Option<i32> = Option.None;
    let conditional = if true { Option.None } else { Option.Some(1) };
}
"#,
    );
    assert_err(
        "fn main() { let unknown = Option.None; }",
        "cannot infer all generic type arguments",
    );
}

#[test]
fn generic_calls_require_every_parameter_to_be_inferred() {
    assert_err(
        r#"
fn opaque<T>(value i32) i32 { return value; }
fn main() { opaque(1); }
"#,
        "cannot infer generic parameter `T`",
    );
    assert_err(
        r#"
fn identity<T>(value T) T { return value; }
fn main() { let f = identity; }
"#,
        "generic function `identity` cannot be used as a value",
    );
}

#[test]
fn associated_constants_work_for_inherent_and_trait_impls() {
    assert_ok(
        r#"
trait SizedValue {
    pub const SIZE u64;
    const FALLBACK i32 = 7;
}
struct Packet;
impl Packet SizedValue {
    pub const SIZE u64 = 12;
}
impl Packet {
    pub const TAG i32 = 3;
}
fn main() {
    let size u64 = Packet.SIZE;
    let fallback i32 = Packet.FALLBACK;
    let tag i32 = Packet.TAG;
}
"#,
    );
}

#[test]
fn missing_required_associated_constant_is_rejected() {
    assert_err(
        r#"
trait SizedValue { const SIZE u64; }
struct Packet;
impl Packet SizedValue {}
fn main() {}
"#,
        "missing associated constant `SIZE`",
    );
}

#[test]
fn associated_constant_type_mismatch_is_rejected() {
    assert_err(
        r#"
trait SizedValue { const SIZE u64; }
struct Packet;
impl Packet SizedValue { const SIZE i32 = 1; }
fn main() {}
"#,
        "has type `i32`, expected `u64`",
    );
}

#[test]
fn ambiguous_generic_associated_constant_is_rejected() {
    assert_err(
        r#"
trait Left { const VALUE i32 = 1; }
trait Right { const VALUE i32 = 2; }
fn value<T Left + Right>() i32 { return T.VALUE; }
fn main() {}
"#,
        "is ambiguous across bounds",
    );
}

#[test]
fn generic_associated_type_projection_type_checks() {
    assert_ok(
        r#"
trait Container { pub type Item; }
struct Box;
impl Box Container { pub type Item = i32; }
fn identity<T Container>(value T.Item) T.Item { return value; }
fn main() { let value i32 = identity<Box>(5); }
"#,
    );
}

#[test]
fn concrete_projection_and_inherited_requirement_type_check() {
    assert_ok(
        r#"
trait Parent { type Item; }
trait Child Parent {}
struct Box;
impl Box Child { type Item = i32; }
fn identity<T Child>(value T.Item) T.Item { return value; }
fn main() {
    let direct Box.Item = 4;
    let generic i32 = identity<Box>(direct);
}
"#,
    );
}

#[test]
fn associated_type_default_is_used() {
    assert_ok(
        r#"
trait Container { type Item = i32; }
struct Box;
impl Box Container {}
fn identity<T Container>(value T.Item) T.Item { return value; }
fn main() { let value i32 = identity<Box>(5); }
"#,
    );
}

#[test]
fn missing_associated_type_is_rejected() {
    assert_err(
        r#"
trait Container { type Item; }
struct Box;
impl Box Container {}
fn main() {}
"#,
        "missing associated type `Item`",
    );
}

#[test]
fn projection_requires_a_declaring_bound() {
    assert_err(
        r#"
fn invalid<T>(value T.Item) T.Item { return value; }
fn main() {}
"#,
        "has no associated type `Item` in its bounds",
    );
}

#[test]
fn async_calls_produce_tasks_and_await_extracts_the_output() {
    assert_ok(
        r#"
async fn fetch() i32 { return 7; }
async fn main() {
    await timer.sleep(1);
    let pending = task.spawn(fetch());
    let value i32 = await pending;
}
"#,
    );
}

#[test]
fn await_requires_an_async_body_and_a_task_operand() {
    assert_err(
        r#"
async fn fetch() i32 { return 7; }
fn main() { let value = await fetch(); }
"#,
        "`await` is only allowed inside an `async fn`",
    );
    assert_err(
        r#"
async fn main() { let value = await 7; }
"#,
        "expected a task",
    );
}

#[test]
fn task_spawn_requires_an_async_body() {
    assert_err(
        r#"
async fn fetch() i32 { return 7; }
fn main() { let pending = task.spawn(fetch()); }
"#,
        "`task.spawn` is only allowed inside an `async fn`",
    );
}

#[test]
fn task_spawn_rejects_capturing_a_borrow_of_a_local_owned_by_the_spawning_function() {
    assert_err(
        r#"
struct Dog { name String }
async fn fetch(d: &Dog) String { return d.name; }
async fn main() {
    let dog: Dog = :Dog { name = "Rex" };
    let r: &Dog = dog;
    let pending = task.spawn(fetch(r));
}
"#,
        "cannot spawn a task capturing a borrow of a local owned by this function",
    );
}

#[test]
fn owned_local_satisfies_a_ref_param_and_is_not_consumed() {
    assert_ok(
        r#"
struct Dog { name String }
fn show(d: &Dog) { println(d.name); }
fn main() {
    let dog: Dog = :Dog { name = "Rex" };
    show(dog);
    show(dog);
}
"#,
    );
}

#[test]
fn owned_local_satisfies_a_mut_ref_param_when_mut() {
    assert_ok(
        r#"
struct Dog { name String }
fn show(d: &mut Dog) { println(d.name); }
fn main() {
    let mut dog: Dog = :Dog { name = "Rex" };
    show(dog);
}
"#,
    );
}

#[test]
fn non_mut_binding_cannot_satisfy_a_mut_ref_param() {
    assert_err(
        r#"
struct Dog { name String }
fn show(d: &mut Dog) { println(d.name); }
fn main() {
    let dog: Dog = :Dog { name = "Rex" };
    show(dog);
}
"#,
        "cannot borrow an immutable binding as `:&mut`",
    );
}

#[test]
fn arc_domain_value_cannot_satisfy_a_ref_param() {
    assert_err(
        r#"
struct Dog { name String }
fn show(d: &Dog) { println(d.name); }
fn main() {
    let dog = Dog { name = "Rex" };
    show(dog);
}
"#,
        "expected an owned",
    );
}

#[test]
fn a_temporary_cannot_satisfy_a_ref_param() {
    assert_err(
        r#"
struct Dog { name String }
fn show(d: &Dog) { println(d.name); }
fn main() {
    show(:Dog { name = "Rex" });
}
"#,
        "must be a plain local variable",
    );
}

#[test]
fn double_mutable_borrow_in_one_call_is_rejected() {
    assert_err(
        r#"
struct Dog { name String }
fn swap_names(a: &mut Dog, b: &mut Dog) { println(a.name); println(b.name); }
fn main() {
    let mut dog: Dog = :Dog { name = "Rex" };
    swap_names(dog, dog);
}
"#,
        "cannot borrow a value as mutable more than once",
    );
}

#[test]
fn mixed_mutable_and_shared_borrow_in_one_call_is_rejected() {
    assert_err(
        r#"
struct Dog { name String }
fn look(a: &Dog, b: &mut Dog) { println(a.name); println(b.name); }
fn main() {
    let mut dog: Dog = :Dog { name = "Rex" };
    look(dog, dog);
}
"#,
        "cannot borrow a value as mutable more than once",
    );
}

#[test]
fn two_shared_borrows_of_the_same_local_in_one_call_are_ok() {
    assert_ok(
        r#"
struct Dog { name String }
fn compare(a: &Dog, b: &Dog) { println(a.name); println(b.name); }
fn main() {
    let dog: Dog = :Dog { name = "Rex" };
    compare(dog, dog);
}
"#,
    );
}

#[test]
fn field_access_through_a_ref_param_works() {
    assert_ok(
        r#"
struct Dog { name String }
fn show(d: &Dog) String { return d.name; }
fn main() {
    let dog: Dog = :Dog { name = "Rex" };
    let n String = show(dog);
    println(n);
}
"#,
    );
}

#[test]
fn borrowing_an_already_moved_local_is_rejected() {
    assert_err(
        r#"
struct Dog { name String }
fn consume(d: Dog) { println(d.name); }
fn show(d: &Dog) { println(d.name); }
fn main() {
    let dog: Dog = :Dog { name = "Rex" };
    consume(dog);
    show(dog);
}
"#,
        "use of a value after it was moved",
    );
}

#[test]
fn borrowing_then_moving_still_works() {
    assert_ok(
        r#"
struct Dog { name String }
fn show(d: &Dog) { println(d.name); }
fn consume(d: Dog) { println(d.name); }
fn main() {
    let dog: Dog = :Dog { name = "Rex" };
    show(dog);
    consume(dog);
}
"#,
    );
}

#[test]
fn borrowing_method_resolves_and_is_callable_through_a_ref_param() {
    assert_ok(
        r#"
struct Dog { name String }
impl Dog {
    get_name(: &self) String { return self.name; }
}
fn show(d: &Dog) String { return d.get_name(); }
fn main() {
    let dog: Dog = :Dog { name = "Rex" };
    println(show(dog));
}
"#,
    );
}

#[test]
fn mut_borrowing_method_resolves_and_is_callable_through_a_mut_ref_param() {
    assert_ok(
        r#"
struct Dog { name String }
impl Dog {
    rename_ref(: &mut self, new_name String) { self.name = new_name; }
}
fn rename(d: &mut Dog) { d.rename_ref("Buddy"); }
fn main() {
    let mut dog: Dog = :Dog { name = "Rex" };
    rename(dog);
}
"#,
    );
}

#[test]
fn mut_borrowing_method_is_rejected_through_a_shared_ref_param() {
    assert_err(
        r#"
struct Dog { name String }
impl Dog {
    rename_ref(: &mut self, new_name String) { self.name = new_name; }
}
fn rename(d: &Dog) { d.rename_ref("Buddy"); }
fn main() {
    let mut dog: Dog = :Dog { name = "Rex" };
    rename(dog);
}
"#,
        "cannot call a `mut self` method",
    );
}

#[test]
fn consuming_method_is_rejected_through_a_ref_param() {
    assert_err(
        r#"
struct Dog { name String }
impl Dog {
    destroy(: self) { println(self.name); }
}
fn show(d: &Dog) { d.destroy(); }
fn main() {
    let dog: Dog = :Dog { name = "Rex" };
    show(dog);
}
"#,
        "cannot call a consuming (`: self`) method through a borrowed reference",
    );
}

#[test]
fn consuming_method_is_rejected_through_a_mut_ref_param() {
    assert_err(
        r#"
struct Dog { name String }
impl Dog {
    destroy(: self) { println(self.name); }
}
fn show(d: &mut Dog) { d.destroy(); }
fn main() {
    let mut dog: Dog = :Dog { name = "Rex" };
    show(dog);
}
"#,
        "cannot call a consuming (`: self`) method through a borrowed reference",
    );
}

#[test]
fn mut_borrowing_method_remains_callable_directly_on_a_bare_owned_local() {
    assert_ok(
        r#"
struct Dog { name String }
impl Dog {
    rename_ref(: &mut self, new_name String) { self.name = new_name; }
}
fn main() {
    let mut dog: Dog = :Dog { name = "Rex" };
    dog.rename_ref("Buddy");
}
"#,
    );
}

#[test]
fn pascal_case_alias_for_a_heap_struct_is_accepted() {
    assert_ok(
        r#"
struct Dog {
    name String
}
type Pet = Dog;

fn main() {
}
"#,
    );
}

#[test]
fn lowercase_alias_for_an_inline_struct_is_accepted() {
    assert_ok(
        r#"
struct point {
    x f32,
    y f32
}
type coord = point;

fn main() {
}
"#,
    );
}

#[test]
fn lowercase_alias_for_a_primitive_tuple_is_accepted() {
    assert_ok(
        r#"
type color = (u32, u32, u32);

fn main() {
}
"#,
    );
}

#[test]
fn pascal_case_alias_lying_about_an_inline_struct_is_rejected() {
    assert_err(
        r#"
struct point {
    x f32,
    y f32
}
type Coord = point;

fn main() {
}
"#,
        "is PascalCase but resolves to inline/value type",
    );
}

#[test]
fn lowercase_alias_lying_about_a_heap_struct_is_rejected() {
    assert_err(
        r#"
struct Dog {
    name String
}
type pet = Dog;

fn main() {
}
"#,
        "is lowercase but resolves to heap/reference type",
    );
}

#[test]
fn allow_pascal_case_suppresses_only_the_alias_casing_diagnostic() {
    assert_ok(
        r#"
struct point {
    x f32,
    y f32
}
#[allow_pascal_case]
type Coord = point;

fn main() {
}
"#,
    );

    assert_ok(
        r#"
struct Dog {
    name String
}
#[allow_pascal_case]
type pet = Dog;

fn main() {
}
"#,
    );
}

#[test]
fn enum_aliases_are_exempt_from_casing_validation_even_when_lowercase() {
    assert_ok(
        r#"
enum choice {
    Yes,
    No,
}
type pick = choice;

fn main() {
}
"#,
    );
}

#[test]
fn unsafe_impl_send_and_sync_on_a_struct_type_checks() {
    assert_ok(
        r#"
struct Handle { value i32 }
unsafe impl Handle Send { }
unsafe impl Handle Sync { }
fn main() {}
"#,
    );
}

#[test]
fn unsafe_impl_is_rejected_for_any_trait_other_than_send_or_sync() {
    assert_err(
        r#"
struct Dog { name String }
unsafe impl Dog Eq { }
fn main() {}
"#,
        "`unsafe impl` is only allowed for the `Send`/`Sync` marker traits",
    );
}

#[test]
fn plain_impl_of_send_or_sync_without_unsafe_is_rejected() {
    assert_err(
        r#"
struct Handle { value i32 }
impl Handle Send { }
fn main() {}
"#,
        "`Send`/`Sync` can only be implemented via `unsafe impl`",
    );
}

#[test]
fn unsafe_impl_send_with_a_method_body_is_rejected() {
    assert_err(
        r#"
struct Handle { value i32 }
unsafe impl Handle Send {
    extra(self) i32 { return self.value; }
}
fn main() {}
"#,
        "must have an empty body",
    );
}

#[test]
fn thread_spawn_requires_a_move_closure_literal() {
    assert_err(
        r#"
fn main() {
    let make = () => { };
    thread.spawn(make);
}
"#,
        "`thread.spawn` requires a `move` closure literal argument",
    );
    assert_err(
        r#"
fn main() {
    thread.spawn(() => { });
}
"#,
        "a `thread.spawn` closure must be `move`",
    );
}

#[test]
fn thread_spawn_and_join_of_a_unit_closure_type_checks() {
    assert_ok(
        r#"
fn main() {
    let handle = thread.spawn(move () => { println("hi"); });
    handle.join();
}
"#,
    );
}

#[test]
fn thread_spawn_closure_must_return_unit() {
    assert_err(
        r#"
fn main() {
    thread.spawn(move () => { 5 });
}
"#,
        "a `thread.spawn` closure must return `()`",
    );
}

#[test]
fn thread_spawn_rejects_capturing_a_non_send_value() {
    assert_err(
        r#"
struct Inner { value i32 }
struct Outer { inner Inner }
fn main() {
    let outer = Outer { inner = Inner { value = 1 } };
    thread.spawn(move () => {
        println(`${outer.inner.value}`);
    });
}
"#,
        "is not `Send`",
    );
}

#[test]
fn thread_spawn_accepts_capturing_an_unsafe_impl_send_value() {
    assert_ok(
        r#"
struct Inner { value i32 }
struct Outer { inner Inner }
unsafe impl Outer Send { }
fn main() {
    let outer = Outer { inner = Inner { value = 1 } };
    thread.spawn(move () => {
        println(`${outer.inner.value}`);
    });
}
"#,
    );
}

#[test]
fn thread_spawn_rejects_capturing_a_borrow_of_a_local_owned_by_the_spawning_function() {
    assert_err(
        r#"
struct Dog { name String }
fn main() {
    let dog: Dog = :Dog { name = "Rex" };
    let r: &Dog = dog;
    thread.spawn(move () => {
        println(r.name);
    });
}
"#,
        "cannot spawn a thread capturing a borrow of a local owned by this function",
    );
}

#[test]
fn const_generic_sizes_a_fixed_array() {
    assert_ok(
        r#"
fn consume<const N usize>(values {i32, N}) i32 { return 7; }
fn main() { let result i32 = consume<3>([1, 2, 3]); }
"#,
    );
}

#[test]
fn const_parameter_is_a_compile_time_value() {
    assert_ok(
        r#"
fn length<const N usize>() usize { return N; }
fn main() { let result usize = length<9>(); }
"#,
    );
}

#[test]
fn fixed_array_length_mismatch_is_rejected() {
    assert_err(
        r#"
fn consume<const N usize>(values {i32, N}) i32 { return 7; }
fn main() { consume<3>([1, 2]); }
"#,
        "fixed array expects 3 element(s), found 2",
    );
}

#[test]
fn const_and_type_generic_arguments_are_distinct() {
    assert_err(
        r#"
fn consume<const N usize>() {}
fn main() { consume<i32>(); }
"#,
        "requires an integer constant",
    );
    assert_err(
        r#"
fn consume<T>() {}
fn main() { consume<3>(); }
"#,
        "requires a type, not a constant",
    );
}

#[test]
fn const_parameter_type_must_be_integer() {
    assert_err(
        r#"
fn consume<const N String>() {}
fn main() {}
"#,
        "must have an integer type",
    );
}

#[test]
fn any_trait_packages_a_conforming_value_and_exposes_safe_methods() {
    assert_ok(
        r#"
trait Sound { sound(self) String; }
struct Dog;
impl Dog Sound { sound(self) String { return "woof"; } }
fn erase(value Dog) any Sound { return value; }
fn main() {
    let value any Sound = erase(Dog);
    let text String = value.sound();
}
"#,
    );
}

#[test]
fn some_trait_requires_one_hidden_concrete_type() {
    assert_ok(
        r#"
trait Sound { sound(self) String; }
struct Dog;
impl Dog Sound { sound(self) String { return "woof"; } }
fn make() some Sound { return Dog; }
fn main() { let text String = make().sound(); }
"#,
    );
    assert_err(
        r#"
trait Sound { sound(self) String; }
struct Dog;
struct Cat;
impl Dog Sound { sound(self) String { return "woof"; } }
impl Cat Sound { sound(self) String { return "meow"; } }
fn make(flag bool) some Sound {
    if flag { return Dog; }
    return Cat;
}
fn main() {}
"#,
        "all returns of an opaque `some` type must use one concrete type",
    );
}

#[test]
fn existential_safety_rejects_static_and_generic_methods() {
    assert_err(
        r#"
trait Unsafe {
    make() i32;
    map<T>(self, value T) T;
}
fn accept(value any Unsafe) {}
fn main() {}
"#,
        "not existential-safe",
    );
    assert_err(
        r#"
trait Consuming { take(: self) i32; }
fn accept(value any Consuming) {}
fn main() {}
"#,
        "owned-domain receivers cannot be stored in a reusable witness package",
    );
}

#[test]
fn existential_requires_trait_conformance() {
    assert_err(
        r#"
trait Sound { sound(self) String; }
struct Rock;
fn main() { let value any Sound = Rock; }
"#,
        "does not implement `Sound`",
    );
}

#[test]
fn arithmetic_requires_matching_numeric_operands() {
    assert_plain_ok("fn main() { let x = 1 + 2; }");
    assert_plain_err("fn main() { let x = 1 + true; }", "must have the same type");
    assert_plain_err(
        "fn main() { let x = true + false; }",
        "require numeric operands",
    );
}

#[test]
fn if_else_branch_type_mismatch_reported() {
    assert_plain_err(
        r#"
fn f(): i32 {
    if true {
        1
    } else {
        "x"
    }
}
"#,
        "incompatible types",
    );
}

#[test]
fn assigning_to_immutable_binding_is_rejected() {
    assert_plain_err(
        "fn main() { let x = 1; x = 2; }",
        "declare it with `let mut`",
    );
    assert_plain_ok("fn main() { let mut x = 1; x = 2; }");
}

#[test]
fn field_assignment_through_an_immutable_binding_is_rejected() {
    assert_plain_err(
        r#"
type Dog { name: String }
impl Dog {
    rename(mut self, new_name: String) {
        self.name = new_name;
    }
}
fn main() {
    let d = Dog { name: "Rex" };
    d.name = "Buddy";
}
"#,
        "declare it with `let mut`",
    );
    assert_plain_ok(
        r#"
type Dog { name: String }
fn main() {
    let mut d = Dog { name: "Rex" };
    d.name = "Buddy";
}
"#,
    );
}

#[test]
fn calling_a_mut_self_method_through_an_immutable_receiver_is_rejected() {
    assert_plain_err(
        r#"
type Dog { name: String }
impl Dog {
    rename(mut self, new_name: String) {
        self.name = new_name;
    }
}
fn main() {
    let d = Dog { name: "Rex" };
    d.rename("Buddy");
}
"#,
        "cannot call a `mut self` method",
    );
    assert_plain_ok(
        r#"
type Dog { name: String }
impl Dog {
    rename(mut self, new_name: String) {
        self.name = new_name;
    }
}
fn main() {
    let mut d = Dog { name: "Rex" };
    d.rename("Buddy");
}
"#,
    );
}

#[test]
fn mut_self_method_call_on_a_field_of_mut_self_is_allowed() {
    assert_plain_ok(
        r#"
type Dog { name: String }
impl Dog {
    rename(mut self, new_name: String) {
        self.name = new_name;
    }
}
type Holder { dog: Dog }
impl Holder {
    rename_dog(mut self, new_name: String) {
        self.dog.rename(new_name);
    }
}
fn main() {
    let mut h = Holder { dog: Dog { name: "Rex" } };
    h.rename_dog("Buddy");
}
"#,
    );
}

#[test]
fn array_push_and_pop_require_a_mutable_binding() {
    assert_plain_err(
        "fn main() { let a = [1, 2]; a.push(3); }",
        "cannot call a `mut self` method",
    );
    assert_plain_err(
        "fn main() { let a = [1, 2]; a.pop(); }",
        "cannot call a `mut self` method",
    );
    assert_plain_ok("fn main() { let mut a = [1, 2]; a.push(3); a.pop(); }");
    assert_plain_ok("fn main() { let a = [1, 2]; let n = a.len(); }");
}

#[test]
fn return_type_mismatch_is_reported() {
    assert_plain_err("fn f(): i32 { return \"x\"; }", "expected return type");
}

#[test]
fn block_with_no_tail_but_a_diverging_last_statement_types_as_never() {
    assert_plain_ok("fn foo(a: i32): i32 { return a; }");
    assert_plain_ok("fn foo(a: i32): i32 { return a; let y = 1; }");
    assert_plain_ok(
        r#"
fn foo(a: i32): i32 {
    if a > 0 {
        return a;
    } else {
        return 0 - a;
    }
}
"#,
    );
    assert_plain_ok("fn foo(a: i32): i32 { let x = return a; }");
}

#[test]
fn array_and_index_type_checks() {
    assert_plain_ok("fn main() { let a = [1, 2, 3]; let x = a[0]; }");
    assert_plain_err(
        "fn main() { let a: [i32] = []; let x = a[\"no\"]; }",
        "must be an integer type",
    );
    assert_plain_err("fn main() { let a = []; }", "cannot infer");
}

#[test]
fn array_builtin_methods_type_check() {
    assert_plain_ok(
        "fn main() { let mut a = [1, 2]; a.push(3); let n: usize = a.len(); let p = a.pop(); }",
    );
    assert_plain_err(
        "fn main() { let mut a = [1, 2]; a.push(\"x\"); }",
        "found `String`",
    );
}

#[test]
fn user_defined_impl_on_array_type_checks_and_self_sees_builtin_operations() {
    assert_plain_ok(
        r#"
impl<T> Array<T> {
    for_each(mut self, f: (T) => ()) {
        let mut i: usize = 0;
        while i < self.len() {
            f(self[i]);
            i = i + 1;
        }
    }
}

fn main() {
    let mut a = [1, 2, 3];
    a.for_each((v: i32) => {
        println(`${v}`);
    });
}
"#,
    );
}

#[test]
fn user_defined_array_method_rejects_a_receiver_type_mismatch() {
    assert_plain_err(
        r#"
impl<T> Array<T> {
    first_or(self, fallback: T): T {
        if self.len() > 0 {
            self[0]
        } else {
            fallback
        }
    }
}

fn main() {
    let a = [1, 2, 3];
    let x = a.first_or("nope");
}
"#,
        "found `String`",
    );
}

#[test]
fn explicit_generic_call_arguments_control_specialization() {
    assert_ok(
        r#"
fn opaque<T>(value i32) i32 { return value; }
fn pair<T, U>(left T, right U) (T, U) { return (left, right); }

struct Boxed<T> { value T }
impl Boxed {
    replace<U>(self, value U) Boxed<U> { return Boxed { value }; }
}

fn main() {
    let value i32 = opaque<String>(2);
    let both (u32, String) = pair<u32, String>(2, "ready");
    let number = Boxed { value = 1 };
    let text Boxed<String> = number.replace<String>("one");
}
"#,
    );
    assert_ok(
        r#"
trait Transform {
    transform<U>(self, value U) U;
}
struct Boxed<T> { value T }
impl Boxed Transform {
    transform<U>(self, value U) U { return value; }
}
fn apply<T Transform>(value T) String {
    return value.transform<String>("ready");
}
fn main() {
    let result String = apply(Boxed { value = 1 });
}
"#,
    );
    assert_err(
        r#"
fn identity<T>(value T) T { return value; }
fn main() { identity<u32, String>(2); }
"#,
        "expected 1 explicit generic argument(s), found 2",
    );
    assert_err(
        r#"
fn identity<T>(value T) T { return value; }
fn main() { identity<String>(2); }
"#,
        "expected `String`, found `i32`",
    );
    assert_err(
        r#"
trait Sound { sound(self) String; }
fn make_noise<T Sound>(value T) String { return value.sound(); }
fn main() { make_noise<u32>(2); }
"#,
        "does not implement `Sound`",
    );
}

#[test]
fn into_string_bound_is_checked_inside_generic_bodies() {
    assert_ok(
        r#"
fn stringify<T Into<String>>(value T) String {
    return value.into_string();
}
fn main() {
    let number = stringify(42);
    let text = stringify("ready");
}
"#,
    );
    assert_err(
        r#"
fn invalid<T>(value T) {
    println(value);
}
"#,
        "cannot be converted to `String`",
    );
}

#[test]
fn generic_traits_preserve_arguments_and_specialize_methods() {
    assert_ok(
        r#"
trait Convert<T> {
    convert(self) T;
}
trait Identity<T> {
    identity(self, value T) T { return value; }
}
struct Dog Identity<String> { name String }
impl Dog Convert<String> {
    convert(self) String { return self.name; }
}
fn convert<U Convert<String>>(value U) String {
    return value.convert();
}
fn identify<U Identity<String>>(value U) String {
    return value.identity("ready");
}
fn main() {
    let dog = Dog { name = "Bobby" };
    let name String = convert(dog);
    let state String = identify(dog);
}
"#,
    );
    assert_err(
        r#"
trait Convert<T> { convert(self) T; }
struct Dog;
impl Dog Convert<i32> { convert(self) i32 { 1 } }
fn convert<U Convert<String>>(value U) String { return value.convert(); }
fn main() { convert(Dog); }
"#,
        "does not implement `Convert<String>`",
    );
    assert_err(
        r#"
trait Convert<T> { convert(self) T; }
struct Dog;
impl Dog Convert<String> { convert(self) i32 { 1 } }
"#,
        "does not match its declaration",
    );
    assert_ok(
        r#"
trait Read<T> { read(self) T; }
struct Boxed<T> { value T }
impl Boxed Read<T> { read(self) T { return self.value; } }
fn read_text<U Read<String>>(value U) String { return value.read(); }
fn main() {
    let text = Boxed { value = "ready" };
    println(read_text(text));
}
"#,
    );
}

#[test]
fn static_methods_can_be_called_through_values() {
    assert_ok(
        r#"
struct Animal { name String }
impl Animal {
    new(name String) Animal { return Animal { name }; }
    static_method() String { return "A"; }
}
fn main() {
    let animal = Animal.new("Cat");
    let value String = animal.static_method();
}
"#,
    );
    assert_ok(
        r#"
trait Static { value() String; }
struct Animal;
impl Animal Static {
    value() String { return "A"; }
}
fn read<T Static>(animal T) String {
    return animal.value();
}
fn main() {
    let value String = read(Animal);
}
"#,
    );
}

#[test]
fn trait_implementations_can_be_mixed_across_blocks() {
    assert_ok(
        r#"
trait B { b(self) String; }
trait C { c(self) String; }
struct A;
impl A B, C {}
impl A { b(self) String { return "b"; } }
impl A { c(self) String { return "c"; } }
fn use_b<T B>(value T) String { return value.b(); }
fn use_c<T C>(value T) String { return value.c(); }
fn main() {
    use_b(A);
    use_c(A);
}
"#,
    );
    assert_err(
        r#"
trait Sound { sound(self) String { return "default"; } }
struct Animal;
impl Animal Sound {}
"#,
        "must explicitly implement method",
    );
}

#[test]
fn declarations_opt_into_defaults_for_types_and_enums() {
    assert_ok(
        r#"
trait Sound { sound(self) String { return "default"; } }
struct Animal Sound { name String }
enum State Sound { Ready }
fn main() {
    Animal { name = "Cat" }.sound();
    State.Ready.sound();
}
"#,
    );
}

#[test]
fn trait_inheritance_is_transitive_and_requires_parent_methods() {
    assert_ok(
        r#"
trait Parent { parent(self) String; }
trait Child Parent { child(self) String; }
struct A;
impl A Child {}
impl A {
    parent(self) String { return "parent"; }
    child(self) String { return "child"; }
}
fn use_parent<T Parent>(value T) String { return value.parent(); }
fn main() { use_parent(A); }
"#,
    );
    assert_err(
        r#"
trait Parent { parent(self) String; }
trait Child Parent { child(self) String; }
struct A;
impl A Child { child(self) String { "child" } }
"#,
        "must explicitly implement method `parent`",
    );
}

#[test]
fn conflicting_defaults_and_trait_cycles_are_diagnostics() {
    assert_err(
        r#"
trait B { value(self) String { return "b"; } }
trait C { value(self) String { return "c"; } }
struct A B, C;
"#,
        "multiple default implementations",
    );
    assert_err(
        r#"
trait A B {}
trait B A {}
"#,
        "trait inheritance cycle",
    );
}

#[test]
fn explicit_generic_impl_block_on_a_builtin_owner_type_checks_and_runs() {
    assert_ok(
        r#"
impl<T> Option<T> {
    unwrap_or(self, fallback T) T {
        return match self {
            Some(item) => item,
            None => fallback,
        };
    }
}
fn main() {
    let value Option<i32> = Option.Some(4);
    println(`${value.unwrap_or(0)}`);
}
"#,
    );
}

#[test]
fn explicit_impl_generics_reject_a_concrete_target_argument_when_impl_has_its_own_generics() {
    assert_err(
        "impl<T> Option<i32> { foo(self) bool { true } }\n",
        "must name each of",
    );
}

#[test]
fn explicit_impl_generics_reject_a_repeated_target_argument() {
    assert_err(
        "impl<T> Result<T, T> { foo(self) bool { true } }\n",
        "must name each of",
    );
}

#[test]
fn explicit_impl_generics_reject_an_unused_impl_parameter() {
    assert_err(
        "impl<T, U> Option<T> { foo(self) bool { true } }\n",
        "must appear",
    );
}

#[test]
fn explicit_impl_generic_owner_infers_from_receiver_with_no_other_use_of_t() {
    assert_ok(
        r#"
impl<T> Option<T> {
    is_some(self) bool {
        return match self {
            Some(_) => true,
            None => false,
        };
    }
}
fn main() {
    let value Option<i32> = Option.Some(4);
    println(`${value.is_some()}`);
}
"#,
    );
}

#[test]
fn explicit_impl_generics_reject_wrong_arity() {
    assert_err(
        "impl<T> Result<T> { foo(self) bool { true } }\n",
        "takes 2 type argument(s), found 1",
    );
}

#[test]
fn impl_concrete_specialization_type_checks_and_runs() {
    assert_ok(
        r#"
default impl<T> Option<T> {
    describe(self) String {
        return "generic";
    }
}
impl Option<i32> {
    describe(self) String {
        return "int";
    }
}
fn main() {
    println(Option.Some(4).describe());
    println(Option.Some("text").describe());
}
"#,
    );
}

#[test]
fn impl_specialization_only_method_is_visible_only_on_its_own_concrete_type() {
    assert_ok(
        r#"
impl Option<i32> {
    double(self) i32 {
        match self {
            Some(item) => item * 2,
            None => 0,
        }
    }
}
fn main() {
    println(`${Option.Some(4).double()}`);
}
"#,
    );
    assert_err(
        r#"
impl Option<i32> {
    double(self) i32 { return 0; }
}
fn main() {
    let value Option<String> = Option.Some("x");
    value.double();
}
"#,
        "has no method named `double`",
    );
}

#[test]
fn impl_specialization_rejects_duplicate_registration() {
    assert_err(
        r#"
impl Option<i32> { double(self) i32 { 0 } }
impl Option<i32> { double(self) i32 { 1 } }
"#,
        "defined more than once for this specialization",
    );
}

#[test]
fn impl_specialization_rejects_a_signature_mismatch_with_the_generic_impl() {
    assert_err(
        r#"
default impl<T> Option<T> {
    describe(self) String { return "generic"; }
}
impl Option<i32> {
    describe(self) i32 { return 0; }
}
"#,
        "must have the same signature",
    );
}

#[test]
fn impl_specialization_rejects_static_methods() {
    assert_err(
        "impl Option<i32> { make() i32 { 0 } }\n",
        "cannot override a static method",
    );
}

#[test]
fn impl_specialization_rejects_traits() {
    assert_err(
        r#"
trait Sound { sound(self) String; }
impl Option<i32> Sound {
    sound(self) String { return "beep"; }
}
"#,
        "cannot also implement a trait",
    );
}

#[test]
fn specialization_requires_an_explicit_default_generic_impl() {
    assert_err(
        r#"
impl<T> Option<T> { describe(self) String { return "generic"; } }
impl Option<i32> { describe(self) String { return "int"; } }
"#,
        "generic implementation is not `default`",
    );
    assert_err(
        "default impl Option<i32> { describe(self) String { return \"int\"; } }",
        "must be a generic fallback implementation",
    );
}

#[test]
fn simple_use_after_move_is_rejected() {
    assert_err(
        r#"
struct Dog { name String }
fn consume(d: Dog) { println(d.name); }
fn main() {
    let dog: Dog = :Dog { name = "Rex" };
    consume(dog);
    consume(dog);
}
"#,
        "use of a value after it was moved",
    );
}

#[test]
fn move_then_reassign_then_use_is_ok() {
    assert_ok(
        r#"
struct Dog { name String }
fn consume(d: Dog) { println(d.name); }
fn main() {
    let mut dog: Dog = :Dog { name = "Rex" };
    consume(dog);
    dog = :Dog { name = "Buddy" };
    consume(dog);
}
"#,
    );
}

#[test]
fn owned_inline_locals_are_tracked_the_same_as_owned_structs() {
    assert_err(
        r#"
fn consume(x: i32) { println(`${x}`); }
fn main() {
    let n: i32 = 10;
    consume(n);
    consume(n);
}
"#,
        "use of a value after it was moved",
    );
}

#[test]
fn move_in_exactly_one_if_arm_then_used_after_is_rejected() {
    assert_err(
        r#"
struct Dog { name String }
fn consume(d: Dog) { println(d.name); }
fn main() {
    let dog: Dog = :Dog { name = "Rex" };
    if true {
        consume(dog);
    }
    consume(dog);
}
"#,
        "use of a value after it was moved",
    );
}

#[test]
fn move_in_neither_if_arm_is_ok() {
    assert_ok(
        r#"
struct Dog { name String }
fn consume(d: Dog) { println(d.name); }
fn main() {
    let dog: Dog = :Dog { name = "Rex" };
    if true {
        println("skip");
    } else {
        println("also skip");
    }
    consume(dog);
}
"#,
    );
}

#[test]
fn move_in_both_if_arms_is_ok_afterward_but_rejected_if_used_again() {
    assert_err(
        r#"
struct Dog { name String }
fn consume(d: Dog) { println(d.name); }
fn main() {
    let dog: Dog = :Dog { name = "Rex" };
    if true {
        consume(dog);
    } else {
        consume(dog);
    }
    consume(dog);
}
"#,
        "use of a value after it was moved",
    );
}

#[test]
fn move_in_a_diverging_if_arm_does_not_count_against_the_other_arm() {
    assert_ok(
        r#"
struct Dog { name String }
fn consume(d: Dog) { println(d.name); }
fn describe(dog: Dog) String {
    if true {
        consume(dog);
        return "consumed";
    }
    println(dog.name);
    return "not consumed";
}
fn main() {}
"#,
    );
}

#[test]
fn move_unconditionally_inside_a_while_loop_body_is_rejected() {
    assert_err(
        r#"
struct Dog { name String }
fn consume(d: Dog) { println(d.name); }
fn main() {
    let dog: Dog = :Dog { name = "Rex" };
    let mut i = 0;
    while i < 3 {
        consume(dog);
        i = i + 1;
    }
}
"#,
        "use of a value after it was moved",
    );
}

#[test]
fn a_fresh_let_inside_a_loop_body_moving_its_own_value_each_iteration_is_ok() {
    assert_ok(
        r#"
struct Dog { name String }
fn consume(d: Dog) { println(d.name); }
fn main() {
    let mut i = 0;
    while i < 3 {
        let dog: Dog = :Dog { name = "Rex" };
        consume(dog);
        i = i + 1;
    }
}
"#,
    );
}

#[test]
fn repeated_field_reads_do_not_consume_the_owning_local() {
    assert_ok(
        r#"
struct Dog { name String }
fn main() {
    let dog: Dog = :Dog { name = "Rex" };
    println(dog.name);
    println(dog.name);
    println(dog.name);
}
"#,
    );
}

#[test]
fn field_reads_do_not_block_a_later_whole_value_move() {
    assert_ok(
        r#"
struct Dog { name String }
fn consume(d: Dog) { println(d.name); }
fn main() {
    let dog: Dog = :Dog { name = "Rex" };
    println(dog.name);
    println(dog.name);
    consume(dog);
}
"#,
    );
}

#[test]
fn owned_consuming_method_call_moves_the_receiver() {
    assert_err(
        r#"
struct Dog { name String }
impl Dog {
    destroy(: self) { println(self.name); }
}
fn main() {
    let dog: Dog = :Dog { name = "Rex" };
    dog.destroy();
    dog.destroy();
}
"#,
        "use of a value after it was moved",
    );
}

#[test]
fn owned_borrowing_method_call_does_not_move_the_receiver() {
    assert_ok(
        r#"
struct Dog { name String }
impl Dog {
    get_name(: &self) String { return self.name; }
}
fn main() {
    let dog: Dog = :Dog { name = "Rex" };
    println(dog.get_name());
    println(dog.get_name());
}
"#,
    );
}

#[test]
fn a_fresh_owned_literal_passed_directly_is_never_flagged() {
    assert_ok(
        r#"
struct Dog { name String }
fn consume(d: Dog) { println(d.name); }
fn main() {
    consume(:Dog { name = "Rex" });
    consume(:Dog { name = "Buddy" });
}
"#,
    );
}

#[test]
fn closure_literal_moves_a_captured_owned_local_even_if_never_called() {
    assert_err(
        r#"
struct Dog { name String }
fn consume(d: Dog) { println(d.name); }
fn main() {
    let dog: Dog = :Dog { name = "Rex" };
    let f = () => { consume(dog); };
    println(dog.name);
}
"#,
        "use of a value after it was moved",
    );
}

#[test]
fn double_move_reports_both_the_original_move_and_the_reuse() {
    let diags = check_source(
        r#"
struct Dog { name String }
fn consume(d: Dog) { println(d.name); }
fn main() {
    let dog: Dog = :Dog { name = "Rex" };
    consume(dog);
    consume(dog);
}
"#,
    );
    let diag = diags
        .iter()
        .find(|d| d.message.contains("use of a value after it was moved"))
        .expect("expected a use-after-move diagnostic");
    assert_eq!(
        diag.labels.len(),
        2,
        "expected two labels (moved here / used again here), got: {:?}",
        diag.labels
    );
}

#[test]
fn mut_closure_capturing_an_inline_mut_local_type_checks() {
    assert_ok(
        r#"
fn main() {
    let mut count = 0;
    let mut inc = mut () => {
        count = count + 1;
    };
    inc();
    println(`${count}`);
}
"#,
    );
}

#[test]
fn mut_closure_capturing_a_heap_typed_mut_local_still_type_checks() {
    assert_ok(
        r#"
struct Counter { value i32 }
impl Counter {
    increment(mut self) {
        self.value = self.value + 1;
    }
}
fn main() {
    let mut c = Counter { value = 1 };
    let mut bump = mut () => {
        c.increment();
    };
    bump();
    println(`${c.value}`);
}
"#,
    );
}

#[test]
fn returning_a_mut_closure_that_captures_a_local_owned_by_this_function_is_rejected() {
    assert_err(
        r#"
fn make_counter() () => i32 {
    let mut count = 0;
    return mut () => {
        count = count + 1;
        return count;
    };
}
fn main() {
    let inc = make_counter();
    println(`${inc()}`);
}
"#,
        "cannot return a closure that mutably captures a local owned by this function",
    );
}

#[test]
fn mut_closure_capturing_only_immutable_locals_does_not_trigger_the_escape_check() {
    assert_ok(
        r#"
fn make_adder(base i32) () => i32 {
    return mut () => { base + 1 };
}
fn main() {
    let add = make_adder(1);
    println(`${add()}`);
}
"#,
    );
}

#[test]
fn ordinary_non_mut_closure_capturing_a_mut_local_does_not_write_back() {
    assert_ok(
        r#"
fn main() {
    let mut count = 0;
    let inc = () => {
        count = count + 1;
    };
    inc();
    println(`${count}`);
}
"#,
    );
}

#[test]
fn shared_borrow_can_be_stored_and_read() {
    assert_ok(
        r#"
struct Dog { name String }
fn main() {
    let dog: Dog = :Dog { name = "Rex" };
    let view: &Dog = dog;
    println(view.name);
    println(dog.name);
}
"#,
    );
}

#[test]
fn mutable_stored_borrow_is_exclusive_and_can_mutate() {
    assert_ok(
        r#"
struct Dog { name String }
fn main() {
    let mut dog: Dog = :Dog { name = "Rex" };
    let view: &mut Dog = dog;
    view.name = "Buddy";
    println(view.name);
}
"#,
    );
    assert_err(
        r#"
struct Dog { name String }
fn main() {
    let mut dog: Dog = :Dog { name = "Rex" };
    let view: &mut Dog = dog;
    println(dog.name);
    println(view.name);
}
"#,
        "mutably borrowed",
    );
}

#[test]
fn live_stored_borrow_prevents_move_and_conflicting_borrow() {
    assert_err(
        r#"
struct Dog { name String }
fn consume(d: Dog) {}
fn main() {
    let mut dog: Dog = :Dog { name = "Rex" };
    let first: &Dog = dog;
    consume(dog);
    println(first.name);
}

"#,
        "while it is borrowed",
    );
    assert_err(
        r#"
struct Dog { name String }
fn main() {
    let mut dog: Dog = :Dog { name = "Rex" };
    let first: &Dog = dog;
    let second: &mut Dog = dog;
    println(first.name);
    println(second.name);
}
"#,
        "already-live stored borrow",
    );
}

#[test]
fn live_borrow_prevents_direct_mutation_and_conflicting_call_borrow() {
    assert_err(
        r#"
struct Dog { name String }
fn main() {
    let mut dog: Dog = :Dog { name = "Rex" };
    let view: &Dog = dog;
    dog.name = "Buddy";
    println(view.name);
}
"#,
        "cannot mutate a value while it is borrowed",
    );
    assert_err(
        r#"
struct Dog { name String }
fn rename(d: &mut Dog) { d.name = "Buddy"; }
fn main() {
    let mut dog: Dog = :Dog { name = "Rex" };
    let view: &Dog = dog;
    rename(dog);
    println(view.name);
}
"#,
        "call borrow conflicts",
    );
}

#[test]
fn borrow_ends_at_lexical_scope_boundary() {
    assert_ok(
        r#"
struct Dog { name String }
fn consume(d: Dog) {}
fn main() {
    let dog: Dog = :Dog { name = "Rex" };
    if true {
        let view: &Dog = dog;
        println(view.name);
    }
    consume(dog);
}
"#,
    );
}

#[test]
fn returned_reference_infers_one_parameter_origin() {
    assert_ok(
        r#"
struct Dog { name String }
fn identity(d: &Dog): &Dog { return d; }
fn choose(flag bool, d: &Dog): &Dog {
    return if flag { d } else { d };
}
fn main() {
    let dog: Dog = :Dog { name = "Rex" };
    println(identity(dog).name);
    println(choose(true, dog).name);
}
"#,
    );
}

#[test]
fn returning_local_borrow_is_rejected() {
    assert_err(
        r#"
struct Dog { name String }
fn invalid(): &Dog {
    let dog: Dog = :Dog { name = "Rex" };
    let view: &Dog = dog;
    return view;
}
"#,
        "borrowed from a local owned value",
    );
}

#[test]
fn returned_reference_with_multiple_parameter_origins_is_ambiguous() {
    assert_err(
        r#"
struct Dog { name String }
fn choose(flag bool, left: &Dog, right: &Dog): &Dog {
    return if flag { left } else { right };
}
"#,
        "ambiguous origins",
    );
}

#[test]
fn arc_and_owned_domain_overloads_of_one_method_name_coexist() {
    assert_ok(
        r#"
struct Dog { name String }
impl Dog {
    greet(self) String { return self.name; }
    greet(: self) String { return self.name; }
}
fn main() {
    let d = Dog { name = "Rex" };
    let g String = d.greet();

    let owned: Dog = :Dog { name = "Buddy" };
    let g2 String = owned.greet();
}
"#,
    );
}

#[test]
fn owned_ref_receiver_overload_resolves_and_is_callable() {
    assert_ok(
        r#"
struct Dog { name String }
impl Dog {
    get_name(: &self) String { return self.name; }
}
fn main() {
    let dog: Dog = :Dog { name = "Rex" };
    let n String = dog.get_name();
}
"#,
    );
}

#[test]
fn same_domain_redefinition_is_still_a_duplicate_error() {
    assert_err(
        r#"
struct Dog { name String }
impl Dog {
    greet(self) String { return self.name; }
    greet(self) String { return self.name; }
}
"#,
        "is defined more than once",
    );
}

#[test]
fn static_and_instance_method_of_the_same_name_still_conflict() {
    assert_err(
        r#"
struct Dog { name String }
impl Dog {
    greet() String { return "static"; }
    greet(self) String { return self.name; }
}
"#,
        "is defined more than once",
    );
}

#[test]
fn trait_default_is_satisfied_only_by_a_matching_domain_implementation() {
    assert_ok(
        r#"
trait Sound { sound(self) String { return "..."; } }
struct Dog Sound {
    name String
}
impl Dog {
    sound(: self) String { return self.name; }
}
fn main() {
    let d = Dog { name = "Rex" };
    let s String = d.sound();

    let owned: Dog = :Dog { name = "Buddy" };
    let s2 String = owned.sound();
}
"#,
    );
}

#[test]
fn owned_to_arc_conversion_consumes_the_source() {
    assert_err(
        r#"
struct Dog { name String }
fn main() {
    let d: Dog = :Dog { name = "Rex" };
    let arc_d Dog = to(d);
    println(arc_d.name);
    println(d.name);
}
"#,
        "use of a value after it was moved",
    );
}

#[test]
fn owned_to_arc_conversion_type_checks_and_runs() {
    assert_ok(
        r#"
struct Dog { name String }
fn main() {
    let d: Dog = :Dog { name = "Rex" };
    let arc_d Dog = to(d);
    println(arc_d.name);
}
"#,
    );
}

#[test]
fn owned_inline_to_ordinary_inline_conversion_works() {
    assert_ok(
        r#"
fn main() {
    let n: i32 = 10;
    let m i32 = to(n);
    println(`${m}`);
}
"#,
    );
}

#[test]
fn ordinary_inline_to_owned_inline_conversion_does_not_consume_the_source() {
    assert_ok(
        r#"
fn main() {
    let n = 10;
    let owned: i32 = to(n);
    println(`${n}`);
    println(`${owned}`);
}
"#,
    );
}

#[test]
fn ordinary_heap_to_owned_heap_conversion_is_rejected() {
    assert_err(
        r#"
struct Dog { name String }
fn main() {
    let d = Dog { name = "Rex" };
    let owned: Dog = to(d);
    println(owned.name);
}
"#,
        "requires `Clone`",
    );
}

#[test]
fn to_with_no_inferrable_target_is_rejected() {
    assert_err(
        r#"
struct Dog { name String }
fn main() {
    let d: Dog = :Dog { name = "Rex" };
    println(to(d).name);
}
"#,
        "cannot infer the target type",
    );
}

#[test]
fn to_between_two_arc_values_is_rejected() {
    assert_err(
        r#"
struct Dog { name String }
fn main() {
    let d = Dog { name = "Rex" };
    let d2 Dog = to(d);
    println(d2.name);
}
"#,
        "must convert between the owned and ordinary form",
    );
}

#[test]
fn to_between_two_owned_values_is_rejected() {
    assert_err(
        r#"
struct Dog { name String }
fn main() {
    let d: Dog = :Dog { name = "Rex" };
    let d2: Dog = to(d);
    println(d2.name);
}
"#,
        "must convert between the owned and ordinary form",
    );
}

#[test]
fn explicit_generic_to_uses_its_target_without_context() {
    assert_ok(
        r#"
struct Dog { name String }
fn main() {
    let d: Dog = :Dog { name = "Rex" };
    let d2 = to<Dog>(d);
    println(d2.name);
}
"#,
    );
}

#[test]
fn explicit_owned_inline_target_is_supported() {
    assert_ok(
        r#"
fn main() {
    let n = 4;
    let owned = to<:i32>(n);
    let plain i32 = to<i32>(owned);
    println(`${plain}`);
}
"#,
    );
}

#[test]
fn explicit_to_target_must_match_context() {
    assert_err(
        r#"
fn main() {
    let n = 4;
    let bad bool = to<:i32>(n);
    println(`${bad}`);
}
"#,
        "does not match expected type",
    );
}

#[test]
fn to_rejects_more_than_one_explicit_target() {
    assert_err(
        r#"
fn main() {
    let n = 4;
    let bad = to<i32, bool>(n);
    println(`${bad}`);
}
"#,
        "takes exactly 1 type argument",
    );
}

#[test]
fn raw_deref_requires_unsafe_context() {
    assert_err(
        r#"
fn main() {
    let mut x = 1;
    let p = &raw mut x;
    let value = *p;
}
"#,
        "dereferencing a raw pointer is only allowed inside an `unsafe` block or function",
    );
}

#[test]
fn unsafe_fn_call_requires_unsafe_context() {
    assert_err(
        r#"
unsafe fn danger() i32 { return 1; }
fn main() { let v = danger(); }
"#,
        "calling an `unsafe fn` is only allowed inside an `unsafe` block or function",
    );
}

#[test]
fn extern_fn_call_requires_unsafe_context() {
    assert_err(
        r#"
extern "C" {
    fn abs(n i32) i32;
}
fn main() { let v = abs(-1); }
"#,
        "calling an `extern` function is only allowed inside an `unsafe` block or function",
    );
}

#[test]
fn raw_borrow_does_not_require_unsafe_context() {
    assert_ok(
        r#"
fn main() {
    let mut x = 1;
    let p = &raw mut x;
    let q = &raw const x;
}
"#,
    );
}

#[test]
fn assigning_through_a_const_raw_pointer_is_rejected() {
    assert_err(
        r#"
fn main() {
    let x = 1;
    let p = &raw const x;
    unsafe { *p = 2; }
}
"#,
        "cannot assign through a `*const` pointer — expected `*mut`",
    );
}

#[test]
fn assigning_through_a_mut_raw_pointer_inside_unsafe_type_checks_and_runs() {
    assert_ok(
        r#"
fn main() {
    let mut x = 1;
    let p = &raw mut x;
    unsafe { *p = 2; }
    let value = unsafe { *p };
}
"#,
    );
}

#[test]
fn extern_fn_rejects_generics() {
    assert_err(
        r#"
extern "C" {
    fn identity<T>(x T) T;
}
fn main() {}
"#,
        "an `extern` function cannot be generic",
    );
}

#[test]
fn extern_fn_rejects_a_non_ffi_safe_parameter_type() {
    assert_err(
        r#"
struct Point { x i32 }
extern "C" {
    fn bad(p Point) i32;
}
fn main() {}
"#,
        "is not a valid `extern \"C\"` parameter type",
    );
}

#[test]
fn extern_fn_rejects_a_bare_reference_parameter_type() {
    assert_err(
        r#"
extern "C" {
    fn bad(p :&i32) i32;
}
fn main() {}
"#,
        "is not a valid `extern \"C\"` parameter type",
    );
}

#[test]
fn extern_fn_accepts_primitives_and_raw_pointers_and_calls_cleanly_inside_unsafe() {
    assert_ok(
        r#"
extern "C" {
    fn abs(n i32) i32;
    fn store(p *mut i32, v i32);
}
fn main() {
    let value = unsafe { abs(-4) };
    println(`${value}`);
    let mut x = 1;
    let p = &raw mut x;
    unsafe { store(p, 9); }
}
"#,
    );
}

#[test]
fn mut_raw_pointer_coerces_to_const_but_not_the_reverse() {
    assert_ok(
        r#"
fn takes_const(p *const i32) {}
fn main() {
    let mut x = 1;
    let p = &raw mut x;
    takes_const(p);
}
"#,
    );
    assert_err(
        r#"
fn takes_mut(p *mut i32) {}
fn main() {
    let x = 1;
    let p = &raw const x;
    takes_mut(p);
}
"#,
        "expected",
    );
}

#[test]
fn variadic_parameter_accepts_zero_or_more_trailing_arguments() {
    assert_ok(
        r#"
fn count(items ...i32) usize {
    return items.len();
}
fn main() {
    let a = count();
    let b = count(1);
    let c = count(1, 2, 3);
}
"#,
    );
}

#[test]
fn variadic_element_type_is_array_inside_the_function_body() {
    assert_ok(
        r#"
fn first_len(items ...i32) usize {
    let arr Array<i32> = items;
    return arr.len();
}
"#,
    );
}

#[test]
fn variadic_string_element_accepts_any_into_string_value() {
    assert_ok(
        r#"
fn show(args ...String) {}
fn main() {
    show(1, true, "text");
}
"#,
    );
}

#[test]
fn variadic_non_string_element_still_requires_a_compatible_type() {
    assert_err(
        r#"
fn count(items ...i32) {}
fn main() {
    count("not a number");
}
"#,
        "expected `i32`, found `String`",
    );
}

#[test]
fn variadic_call_requires_at_least_the_fixed_argument_count() {
    assert_err(
        r#"
fn f(a i32, rest ...i32) {}
fn main() {
    f();
}
"#,
        "expected at least 1 argument(s), found 0",
    );
}

#[test]
fn generic_type_bounds_are_enforced_after_inference() {
    assert_ok(
        r#"
trait Sound { sound(self) String; }
struct Dog;
impl Dog Sound { sound(self) String { return "woof"; } }
struct Cage<T> where T Sound { value T }
fn open<T Sound>(cage Cage<T>) String { return cage.value.sound(); }
fn main() {
    let cage = Cage { value = Dog };
    println(open(cage));
}
"#,
    );
    assert_err(
        r#"
trait Sound { sound(self) String; }
struct Rock;
struct Cage<T> where T Sound { value T }
fn main() { let cage = Cage { value = Rock }; }
"#,
        "required by this generic type",
    );
}

#[test]
fn infinitely_recursive_value_layouts_are_diagnostics_not_codegen_ices() {
    assert_err(
        "struct node { next node }\nfn main() {}",
        "infinitely recursive layout",
    );
    assert_err(
        "enum List { End, Next(List) }\nfn main() {}",
        "infinitely recursive layout",
    );
    assert_err(
        "struct left { right right }\nstruct right { left left }\nfn main() {}",
        "infinitely recursive layout",
    );
    assert_ok(
        r#"
struct Node { next Option<Node> }
struct wrapper { node Node }
fn main() {
    let node = Node { next = Option.None };
    let value = wrapper { node };
}
"#,
    );
}

#[test]
fn invalid_control_flow_and_entry_signatures_stop_before_mir() {
    assert_err(
        "fn main() { break; }",
        "`break` is only valid inside a loop",
    );
    assert_err(
        "fn main() { continue; }",
        "`continue` is only valid inside a loop",
    );
    assert_err(
        "fn main(value i32) {}",
        "`main` must have signature `fn main()`",
    );
    assert_err(
        "trait Sound { sound(self) String; }\nfn use_it(value Sound) {}\nfn main() {}",
        "cannot be used as a value type",
    );
    assert_ok("fn main() { loop { break; } while false { continue; } }");
}

#[test]
fn generic_structs_and_tuple_structs_infer_and_substitute_fields() {
    assert_ok(
        r#"
struct Boxed<T> { value T }
struct pair<T, U>(T, U);
impl Boxed {
    new(value T) Boxed<T> { return Boxed { value }; }
    get(self) T { return self.value; }
    replace<U>(self, value U) Boxed<U> { return Boxed { value }; }
}
fn read_number(value Boxed<i32>) i32 { return value.value; }
fn main() {
    let number = Boxed { value = 42 };
    let text = Boxed { value = "ready" };
    let both = pair(number, text);
    let n i32 = both.0.value;
    let s String = both.1.value;
    let built = Boxed.new(7);
    let built_value i32 = built.get();
    let replaced Boxed<String> = built.replace("new");
    let replaced_value String = replaced.get();
}
"#,
    );
    assert_err(
        r#"
struct Boxed<T> { value T }
fn main() {
    let value Boxed<i32> = Boxed { value = "wrong" };
}
"#,
        "expected `i32`, found `String`",
    );
}

#[test]
fn impl_missing_required_trait_method_reports_diagnostic() {
    assert_err(
        r#"
trait Sound {
    sound() String;
}
struct Dog { name String }
impl Dog Sound {
}
"#,
        "must explicitly implement method",
    );
}

#[test]
fn weak_must_wrap_a_heap_type() {
    assert_ok("struct Node { next weak Node }");
    assert_err(
        "struct point { x i32 }\nstruct Node { p weak point }",
        "can only wrap a heap-allocated type",
    );
}

#[test]
fn a_heap_value_coerces_into_a_weak_field_without_an_explicit_conversion() {
    assert_ok(
        r#"
struct Child { name String }
struct Parent { kid weak Child }
fn main() {
    let c = Child { name = "Rex" };
    let p = Parent { kid = c };
    let mut w weak Child = c;
    w = c;
}
"#,
    );
    assert_err(
        r#"
struct Child { name String }
struct Parent { kid weak Child }
fn main() {
    let p = Parent { kid = 5 };
}
"#,
        "expected `weak Child`, found `i32`",
    );
}

#[test]
fn reading_a_weak_field_produces_an_option_not_a_bare_weak_value() {
    assert_ok(
        r#"
struct Node { next weak Node }
fn describe(n Node) String {
    return match n.next {
        Some(_) => "has next",
        None => "no next",
    };
}
fn main() {}
"#,
    );
    assert_err(
        r#"
struct Node { name String, next weak Node }
fn describe(n Node) String {
    return n.next.name;
}
fn main() {}
"#,
        "has no field named `name`",
    );
}

// ---------------------------------------------------------------------
// Further errors
// ---------------------------------------------------------------------

#[test]
fn misused_names_are_reported() {
    assert_err("fn main() { let x = i32; }", "`i32` is a type, not a value");
    assert_err("trait Sound {} fn main() { let x = Sound; }", "is a trait and has no value form");
    assert_err("enum Side { Left, Right } fn main() { let x = Side; }", "is an enum type, not a value");
    assert_err("struct Dog { name String } fn main() { let d = Dog; }", "cannot be used this way");
    assert_err("struct Dog; fn main() { let d = Dog(1); }", "cannot be used this way");
    assert_err("fn main() { let x = println; }", "`println` must be called");
    assert_err("fn main() { let x = hash; }", "`hash` must be called");
    assert_err("fn main() { let x i32 = to; }", "`to` must be called");
    assert_err("fn id<T>(x T) T { return x; } fn main() { let f = id; }", "type arguments cannot be inferred");
    assert_err("fn main() { let x = 1; x(2); }", "`i32` is not callable");
    assert_err("enum Side { Left } fn main() { let d = Side { a = 1 }; }", "is not a struct type");
    assert_err("struct Pair(i32, i32); fn main() { let d = Pair { a = 1 }; }", "is not a struct with named fields");
    assert_err("fn f<T>(x T) { let d = T { a = 1 }; } fn main() {}", "struct literal path does not name a type");
}

#[test]
fn fields_and_methods_must_exist() {
    assert_err("struct Dog { name String } fn f(d Dog) { let x = d.age; } fn main() {}", "has no field named `age`");
    assert_err("struct Dog { name String } fn main() { let d = Dog { name = \"a\", age = 1 }; }", "has no field named `age`");
    assert_err("struct Dog { name String, age i32 } fn main() { let d = Dog { age = 1 }; }", "missing field `name`");
    assert_err("struct Dog; fn main() { let d = Dog; d.bark(); }", "`Dog` has no method named `bark`");
    assert_err("fn f<T>(x T) { x.bark(); } fn main() {}", "no method named `bark` found for generic type `T`");
    assert_err("fn main() { let t = (1, 2); let x = t.5; }", "has no field `.5`");
    assert_err("fn main() { let x = 1; let y = x[0]; }", "`i32` cannot be indexed");
    assert_err("fn main() { for x in 1 { } }", "`for`-`in` requires an `Array`, found `i32`");
    assert_err("fn main() { 1 + 2 = 3; }", "assignment target must be a local binding");
}

#[test]
fn conditions_and_operators_need_their_types() {
    assert_err("fn main() { while 1 { } }", "`while` condition must be `bool`");
    assert_err("fn main() { if 1 { } }", "`if` condition must be `bool`");
    assert_err("fn main() { let x = 1 && true; }", "`&&`/`||` operand must be `bool`");
    assert_err("fn main() { let x = -true; }", "`-` requires a numeric operand");
    assert_err("fn main() { let x = !1; }", "`!` operand must be `bool`");
    assert_err("fn main() { match (1, 2) { (a,) => a, _ => 3, }; }", "tuple pattern has 1 element(s), but the scrutinee has 2");
}

#[test]
fn type_syntax_is_checked() {
    assert_err("fn f(x Array<i32, i32>) {} fn main() {}", "`Array` takes exactly one type argument");
    assert_err("struct Dog; fn f(x any Dog) {} fn main() {}", "`any`/`some` must be followed by a trait name");
    assert_err("type a = b; type b = a; fn f(x a) {} fn main() {}", "is defined in terms of itself");
    assert_err("fn f(x {i32, String}) {} fn main() {}", "fixed-array length must be a compile-time integer");
    assert_err("struct Dog; fn f<T Dog>(x T) {} fn main() {}", "`Dog` is not a trait");
    assert_err("fn f<T (i32)>(x T) {} fn main() {}", "a generic bound must name a trait");
    assert_err("struct Dog; fn f(x Dog<i32>) {} fn main() {}", "takes 0 type argument(s), found 1");
    assert_err("struct Dog; fn f(x Dog.Item) {} fn main() {}", "type has no associated type `Item`");
    assert_err("trait Sound { type Item; } fn f(x Sound.Item) {} fn main() {}", "only a concrete type can own an associated type");
}

#[test]
fn built_in_calls_are_checked() {
    assert_err("fn main() { println<i32>(\"a\"); }", "builtin function `println` is not generic");
    assert_err("fn main() { let x = hash<i32>(1); }", "builtin function `hash` is not generic");
    assert_err("fn main() { let x = hash(1, 2); }", "`hash` takes exactly 1 argument, found 2");
    assert_err("fn main() { let x String = to(1, 2); }", "`to` takes exactly 1 argument, found 2");
    assert_err("struct Dog { f (i32) => i32 } fn f(d Dog) { let x = hash(d); } fn main() {}", "cannot derive `Hash`");
    assert_err("fn main() { let mut a = [1]; a.push<i32>(2); }", "array methods are not generic");
    assert_err("fn main() { let mut a = [1]; a.push(2, 3); }", "expected 1 argument(s), found 2");
    assert_err("fn main() { let a = [1]; a.len(3); }", "expected 0 argument(s), found 1");
    assert_err("fn g(x i32) {} fn main() { let f = g; f<i32>(1); }", "cannot be applied to a function value");
    assert_err("enum Side { Left(i32) } fn main() { let x = Side.Left<i32>(1); }", "enum variants do not accept");
    assert_err("enum Side { Left(i32) } fn main() { let x = Side.Left; }", "this variant requires payload arguments");
    assert_err("enum Side { Left(i32) } fn main() { let x = Side.Left(1, 2); }", "variant expects 1 argument(s), found 2");
    assert_err("struct Pair(i32); fn main() { let x = Pair<i32>(1); }", "type constructors do not accept");
}

#[test]
fn tasks_and_threads_are_checked() {
    assert_err("async fn main() { task.spawn(1); }", "`task.spawn` expects a task, found `i32`");
    assert_err("async fn main() { task.spawn(); }", "`task.spawn` expects 1 argument, found 0");
    assert_err("async fn f() {} async fn main() { task.spawn<i32>(f()); }", "`task.spawn` is not generic");
    assert_err("async fn main() { await timer.sleep(true); }", "`timer.sleep` expects integer milliseconds");
    assert_err("async fn main() { await timer.sleep(1, 2); }", "`timer.sleep` expects 1 argument, found 2");
    assert_err("async fn main() { await timer.sleep<i32>(1); }", "`timer.sleep` is not generic");
    assert_err("fn main() { let t = thread.spawn(); }", "`thread.spawn` expects 1 argument, found 0");
    assert_err("fn main() { let t = thread.spawn(move (x i32) => { }); }", "takes no parameters");
    assert_err("fn main() { let t = thread.spawn(move () => { 1 }); }", "must return `()`, found `i32`");
    assert_err("fn main() { let t = thread.spawn(move () => { }); t.join<i32>(); }", "`join` is not generic");
    assert_err("fn main() { let t = thread.spawn(move () => { }); t.stop(); }", "has no method named `stop`");
}

#[test]
fn borrows_and_moves_are_checked() {
    assert_err(
        "struct Dog { name String } fn f(d: &mut Dog) {} fn g(d: &Dog) { f(d); } fn main() {}",
        "expected `:&mut Dog`",
    );
    assert_err(
        "struct Dog { name String } fn main() { let dog = Dog { name = \"a\" }; let r: &Dog = dog; }",
        "a stored borrow requires an owned",
    );
    assert_err(
        "struct Dog { name String } fn main() { let dog: Dog = :Dog { name = \"a\" }; let r: &mut Dog = dog; }",
        "cannot mutably borrow an immutable binding",
    );
    assert_err(
        "struct Dog { name String } fn f(d: &Dog) {} fn main() { let dog: Dog = :Dog { name = \"a\" }; f(mut dog); }",
        "`mut` is not valid for a",
    );
    assert_err("fn f(x mut i32) {} fn main() { f(mut 1 + 2); }", "a `mut` argument must be a plain mutable local");
    assert_err("fn f(x ...i32) {} fn main() { let mut a = 1; f(mut a); }", "`mut` is not valid for a variadic argument");
}

#[test]
fn a_moved_value_names_both_places() {
    let diags = check_source(
        "struct Dog { name String } fn eat(d: Dog) {} fn main() { let d: Dog = :Dog { name = \"a\" }; eat(d); eat(d); }",
    );
    assert_eq!(diags.len(), 1);
    assert_eq!(diags[0].message, "use of a value after it was moved");
    assert_eq!(diags[0].labels.len(), 2);
    assert_eq!(diags[0].labels[0].text, "value moved here");
    assert_eq!(diags[0].labels[1].text, "used again here, after the move");
    assert!(diags[0].labels[0].span.start < diags[0].labels[1].span.start);
}

#[test]
fn a_moved_value_is_usable_after_assignment() {
    assert_ok(
        "struct Dog { name String } fn eat(d: Dog) {} fn main() { let mut d: Dog = :Dog { name = \"a\" }; eat(d); d = :Dog { name = \"b\" }; eat(d); }",
    );
}

#[test]
fn a_diverging_branch_moves_nothing() {
    assert_ok(
        "struct Dog { name String } fn eat(d: Dog) {} fn main() { let d: Dog = :Dog { name = \"a\" }; if true { eat(d); return; } eat(d); }",
    );
    assert_err(
        "struct Dog { name String } fn eat(d: Dog) {} fn main() { let d: Dog = :Dog { name = \"a\" }; if true { eat(d); } eat(d); }",
        "use of a value after it was moved",
    );
}

#[test]
fn implementations_are_checked() {
    assert_err("trait A { f(self) i32; } struct Dog A; fn main() {}", "does not implement required method `f`");
    assert_err("trait A { f(self) i32; } struct Dog; impl Dog A {} fn main() {}", "must explicitly implement method `f`");
    assert_err(
        "trait A { f(self) i32 { return 1; } } trait B { f(self) i32 { return 2; } } struct Dog A, B; fn main() {}",
        "provide an explicit implementation",
    );
    assert_err("trait A {} struct Dog; impl Dog A {} impl Dog A {} fn main() {}", "already implements");
    assert_err("trait A B {} trait B A {} fn main() {}", "trait inheritance cycle");
    assert_err("struct Dog; impl Dog { f(self) {} f(self) {} } fn main() {}", "is defined more than once for `Dog`");
    assert_err("struct Dog; impl Dog { f(self) {} f() {} } fn main() {}", "is defined more than once for `Dog`");
    assert_err("struct Dog; impl Dog { const N i32; } fn main() {}", "must have a value");
    assert_err("struct Dog; impl Dog { const N i32 = true; } fn main() {}", "associated constant has type `bool`");
    assert_err("struct Dog; impl Dog { const N i32 = 1; } fn main() { Dog.N(2); }", "an associated constant cannot be called");
}

#[test]
fn raw_pointers_are_checked() {
    assert_err("fn main() { let p = &raw const 1; }", "requires a place expression");
    assert_err("fn main() { unsafe { let x = *1; } }", "cannot dereference `i32`");
    assert_err("fn main() { let x = 1; let p = &raw const x; unsafe { *p = 2; } }", "cannot assign through a `*const` pointer");
}

#[test]
fn main_has_no_parameters() {
    assert_err("fn main(x i32) {}", "`main` must have signature `fn main()`");
    assert_err("fn main() i32 { return 1; }", "`main` must have signature `fn main()`");
}

// ---------------------------------------------------------------------
// Recorded types
// ---------------------------------------------------------------------

/// Asserts that a program without errors has a type for each expression.
fn assert_recorded(source: &str) {
    let c = check_program(source, false);
    assert!(c.diags.is_empty(), "{}", messages(&c.diags));
    for id in &c.exprs {
        assert!(c.tables.expr_types.get(id).is_some(), "no type for {id:?} in {source}");
    }
}

#[test]
fn every_expression_of_a_correct_program_has_a_type() {
    assert_recorded(
        r#"
struct Dog Sound { name String, age i32 }
enum Side { Left(i32), Right }
trait Sound { const LOUD i32 = 3; sound(self) String { return "..."; } }
impl Dog { const TAG i32 = 2 + 2; }
impl Dog { new(age i32) Dog { return Dog { name = "a", age }; } }
fn pick(flag bool, s Side) i32 {
    let mut n = 0;
    while n < 10 { n = n + 1; }
    for x in [1, 2, 3] { n = n + x; }
    loop { break; }
    let f = (x i32) => x + n;
    if flag { return f(1); } else { n = -n; }
    let t = (1, "a", n);
    println(`${t.1} and ${Dog.new(3).age}`);
    return match s { Side.Left(k) => k, Side.Right => t.0 };
}
fn read(p *mut i32) i32 { unsafe { *p = 3; return *p; } }
async fn fetch() i32 { return 7; }
async fn main() {
    await timer.sleep(1);
    let pending = task.spawn(fetch());
    let v i32 = await pending;
    let t = thread.spawn(move () => { });
    t.join();
}
"#,
    );
}

#[test]
fn arguments_of_unknown_things_have_types() {
    assert_recorded("enum Side { Left } fn main() { let x = Side.Left(1 + 2); }");
    assert_recorded("fn f<const N usize>() usize { return N(1 + 2); } fn main() {}");
    assert_recorded("fn main() { match Option.None { Some(x) => { x.go(1 + 2); }, None => {} } }");
}

#[test]
fn errors_only_add_up() {
    let one = check_source("fn main() { let x bool = 5; }");
    let two = check_source("fn main() { let x bool = 5; let y bool = 6; }");
    assert_eq!(one.len(), 1);
    assert_eq!(two.len(), 2);
    assert_eq!(one[0].message, two[0].message);
}

#[test]
fn permissions_end_with_their_blocks() {
    let diags = check_source("unsafe fn f() {} fn main() { unsafe { f(); } f(); }");
    assert_eq!(diags.len(), 1);
    assert!(diags[0].message.contains("`unsafe fn` is only allowed inside an `unsafe` block"));
    assert_ok("fn main() { loop { loop { break; } break; } }");
    assert_err("fn main() { loop { break; } break; }", "`break` is only valid inside a loop");
    assert_err("fn main() { loop { let f = () => { continue; }; } }", "`continue` is only valid inside a loop");
}

#[test]
fn borrows_end_with_their_last_use() {
    assert_ok(
        "struct Dog { name String } fn eat(d: Dog) {} fn main() { let d: Dog = :Dog { name = \"a\" }; let r: &Dog = d; println(r.name); eat(d); }",
    );
    assert_err(
        "struct Dog { name String } fn eat(d: Dog) {} fn main() { let d: Dog = :Dog { name = \"a\" }; let r: &Dog = d; eat(d); println(r.name); }",
        "cannot move a value while it is borrowed",
    );
}

#[test]
fn generic_calls_need_a_choice_that_fits() {
    let decls = "trait Sound {} struct Dog; impl Dog Sound {} struct Cat; fn f<T Sound>(x T) {} fn g<T>() {}";
    assert_ok(&format!("{decls} fn main() {{ f(Dog); }}"));
    assert_err(&format!("{decls} fn main() {{ f(Cat); }}"), "`Cat` does not implement `Sound`, required by generic parameter `T`");
    assert_err(&format!("{decls} fn main() {{ g(); }}"), "cannot infer generic parameter `T`");
}

#[test]
fn matches_cover_every_variant() {
    assert_err("enum Side { Left, Right } fn f(s Side) { match s { Side.Left => 1, }; } fn main() {}", "missing variant(s) Right");
    assert_ok("enum Side { Left, Right } fn f(s Side) { match s { Side.Left => 1, _ => 2, }; } fn main() {}");
}

#[test]
fn literals_take_their_context() {
    let c = check_program("fn main() { let a = 1; let b u8 = 2; let c = 1.5; }", false);
    assert!(c.diags.is_empty());
    let types: Vec<Type> = c.exprs.iter().map(|id| c.tables.expr_types.get(id).unwrap().clone()).collect();
    assert_eq!(
        types,
        vec![
            Type::Primitive(PrimitiveKind::I32),
            Type::Primitive(PrimitiveKind::U8),
            Type::Primitive(PrimitiveKind::F64),
        ]
    );
}

#[test]
fn threads_take_what_may_cross() {
    assert_ok("fn main() { let s = (\"a\", 1); let t = thread.spawn(move () => { println(s.0); }); }");
    assert_err(
        "fn f(p *mut i32) { let s = (p, 1); let t = thread.spawn(move () => { let q = s; }); } fn main() {}",
        "is not `Send`",
    );
}

// ---------------------------------------------------------------------
// Questions about signatures
// ---------------------------------------------------------------------

fn def_named(c: &CheckedProgram, name: &str) -> DefId {
    let items = &c.names.definitions.items;
    DefId(items.iter().rposition(|d| d.name == name).unwrap() as u32)
}

#[test]
fn signatures_answer_for_types() {
    let c = check_program(
        r#"
struct Dog Eq, Hash { age i32, tag bool }
struct Cat { name String }
struct point { x i32, y i32 }
struct Boxed<T> { value T }
enum Side { Left(i32), Right }
impl Cat { meow(self) String { return self.name; } make() Cat { return Cat { name = "a" }; } }
fn main() {}
"#,
        false,
    );
    assert!(c.diags.is_empty(), "{}", messages(&c.diags));
    let defs = &c.names.definitions;
    let sigs = &c.tables.signatures;
    let int = Type::Primitive(PrimitiveKind::I32);
    let dog = Type::Struct(def_named(&c, "Dog"), Vec::new());
    let cat = Type::Struct(def_named(&c, "Cat"), Vec::new());
    let point = Type::Struct(def_named(&c, "point"), Vec::new());
    let boxed = Type::Struct(def_named(&c, "Boxed"), vec![Type::String]);
    let side = Type::Enum(def_named(&c, "Side"), Vec::new());

    assert!(sigs.can_derive_eq(&dog, defs));
    assert!(sigs.can_derive_hash(&dog, defs));
    assert!(!sigs.can_derive_eq(&cat, defs));
    assert!(!sigs.can_derive_hash(&point, defs));

    assert_eq!(sigs.type_fields(&boxed), Some(vec![Type::String]));
    assert_eq!(sigs.type_fields(&side), None);
    assert_eq!(
        sigs.named_type_fields(&point),
        Some(vec![("x".to_string(), int.clone()), ("y".to_string(), int.clone())])
    );
    assert_eq!(sigs.enum_payload(&side, 0), Some(vec![int.clone()]));
    assert_eq!(sigs.enum_payload(&side, 1), Some(Vec::new()));
    assert_eq!(sigs.enum_payload(&side, 2), None);

    assert!(sigs.has_managed_content(&cat, defs));
    assert!(!sigs.has_managed_content(&point, defs));
    assert!(sigs.has_managed_content(&Type::Tuple(vec![int.clone(), Type::String]), defs));
    assert!(!sigs.has_managed_content(&side, defs));

    assert!(is_send(&dog, defs, sigs));
    assert!(!is_sync(&dog, defs, sigs));
    assert!(is_sync(&Type::Tuple(vec![int.clone(), Type::String]), defs, sigs));
    assert!(!is_send(&Type::RawMutPtr(Box::new(int.clone())), defs, sigs));

    let owner = def_named(&c, "Cat");
    let meow = "meow".to_string();
    assert!(sigs.method(owner, &meow, ReceiverDomain::Arc).is_some());
    assert!(sigs.method(owner, &meow, ReceiverDomain::Static).is_none());
    assert!(sigs.method_for(owner, &meow, ReceiverDomain::Arc, &Vec::new()).is_some());
    assert!(sigs.method_any_domain(owner, &"make".to_string()).is_some());
    assert!(sigs.method_any_domain(owner, &"bark".to_string()).is_none());

    assert_eq!(describe_type(&boxed, defs), "Boxed<String>");
    assert_eq!(describe_type(&Type::Unique(Box::new(dog)), defs), ":Dog");
    assert_eq!(describe_type(&Type::Function(vec![int], Box::new(Type::String)), defs), "(i32) => String");
}

#[test]
fn private_fields_are_closed_to_other_files() {
    let read = r#"
struct Dog { name String, pub age i32 }
fn show(d Dog) String { return d.name; }
"#;
    let write = r#"
struct Dog { name String, pub age i32 }
fn rename(d mut Dog) { d.name = "Rex"; }
"#;
    let public = r#"
struct Dog { name String, pub age i32 }
fn grow(d mut Dog) i32 { d.age = d.age + 1; return d.age; }
"#;
    let refused = ["field `name` is private"];
    for source in [read, write] {
        let c = check_parts(source, false, &["Dog"]);
        let found: Vec<&str> = c.diags.iter().map(|d| d.message.as_str()).collect();
        assert_eq!(found, refused, "{source}");
        assert_ok(source);
    }
    expect_ok(public, check_parts(public, false, &["Dog"]).diags);
    assert_ok(public);
}

#[test]
fn bodies_in_concrete_blocks_are_checked() {
    assert_err(
        r#"
impl Option<i32> {
    double(self) i32 { return "two"; }
}
fn main() {}
"#,
        "expected return type `i32`, found `String`",
    );
    assert_err(
        r#"
impl Option<i32> {
    first(self) String {
        match self {
            Some(item) => item,
            None => 0,
        }
    }
}
fn main() {}
"#,
        "expected return type `String`, found `i32`",
    );
    assert_err(
        r#"
default impl<T> Option<T> {
    describe(self) String { return "generic"; }
}
impl Option<i32> {
    describe(self) String { "int" }
}
fn main() {}
"#,
        "expected return type `String`, found `()`",
    );
    assert_err(
        r#"
default impl<T> Option<T> {
    describe(self) String { return "generic"; }
}
impl Option<i32> {
    describe(self) String { return 3; }
}
fn main() {}
"#,
        "expected return type `String`, found `i32`",
    );
    assert_recorded(
        r#"
default impl<T> Option<T> {
    describe(self) String { return "generic"; }
}
impl Option<i32> {
    describe(self) String { return "int"; }
    double(self) i32 {
        match self {
            Some(item) => item * 2,
            None => 0,
        }
    }
}
fn main() { println(`${Option.Some(4).double()}`); }
"#,
    );
}

#[test]
fn a_static_default_does_not_stand_beside_a_method() {
    assert_err(
        r#"
trait Make { make() i32 { return 1; } }
struct Dog Make { age i32 }
impl Dog { make(self) i32 { return self.age; } }
fn main() {}
"#,
        "method `make` is defined more than once for `Dog`",
    );
    assert_ok(
        r#"
trait Make { make() i32 { return 1; } }
struct Dog Make { age i32 }
impl Dog { grow(self) i32 { return self.age + 1; } }
fn main() {}
"#,
    );
}

#[test]
fn shared_handles_are_managed() {
    let c = check_program("fn main() {}", false);
    let defs = &c.names.definitions;
    let sigs = &c.tables.signatures;
    let int = Type::Primitive(PrimitiveKind::I32);
    let task = Type::Task(Box::new(int.clone()));
    let thread = Type::Thread(Box::new(int.clone()));
    assert!(sigs.has_managed_content(&task, defs));
    assert!(sigs.has_managed_content(&thread, defs));
    assert!(sigs.has_managed_content(&Type::Tuple(vec![int.clone(), task]), defs));
    assert!(!sigs.has_managed_content(&int, defs));
}

#[test]
fn bounds_are_met_through_many_parents() {
    let mut source = String::from("trait T0 { zero(self) i32; }\n");
    for i in 1..300 {
        source.push_str(&format!("trait T{i} T{} {{}}\n", i - 1));
    }
    let program = format!(
        "{source}struct Dog {{ age i32 }}\nimpl Dog T299 {{ zero(self) i32 {{ return self.age; }} }}\n\
         fn bottom<T T0>(value T) i32 {{ return value.zero(); }}\n\
         fn main() {{ let n i32 = bottom(Dog {{ age = 1 }}); }}\n"
    );
    assert_ok(&program);
    assert_err(&program.replace("trait T150 T149 {}", "trait T150 {}"), "T0");
}

#[test]
fn summaries_are_followed_to_the_end() {
    let c = check_program(
        r#"
struct Dog { name String }
fn turn(a: &Dog, b: &Dog, c: &Dog, n i32): &Dog {
    if n > 0 { return a; }
    return turn(b, c, a, n);
}
fn last(a: &Dog, b: &Dog): &Dog { return middle(a, b); }
fn middle(a: &Dog, b: &Dog): &Dog { return first(b, a); }
fn first(a: &Dog, b: &Dog): &Dog { return a; }
fn count(a: &Dog) i32 { return 1; }
fn main() {}
"#,
        false,
    );
    let origins = |name: &str| {
        let sig = c.tables.signatures.fns.get(&def_named(&c, name)).unwrap();
        sig.return_origins.clone()
    };
    let param = |i: usize| ReturnOrigin::Parameter(i);
    assert_eq!(origins("turn"), vec![param(0), param(1), param(2)]);
    assert_eq!(origins("first"), vec![param(0)]);
    assert_eq!(origins("middle"), vec![param(1)]);
    assert_eq!(origins("last"), vec![param(1)]);
    assert_eq!(origins("count"), Vec::new());
}

#[test]
fn order_of_functions_does_not_matter() {
    let parts = [
        "fn last(a: &Dog, b: &Dog): &Dog { return middle(a, b); }",
        "fn middle(a: &Dog, b: &Dog): &Dog { return first(b, a); }",
        "fn first(a: &Dog, b: &Dog): &Dog { return a; }",
    ];
    for order in [[0, 1, 2], [2, 1, 0], [1, 2, 0]] {
        let text: Vec<&str> = order.iter().map(|i: &usize| parts[*i]).collect();
        let c = check_program(&format!("struct Dog {{ name String }}\n{}", text.join("\n")), false);
        assert!(c.diags.is_empty(), "{}", messages(&c.diags));
        let sig = c.tables.signatures.fns.get(&def_named(&c, "last")).unwrap();
        assert_eq!(sig.return_origins, vec![ReturnOrigin::Parameter(1)]);
    }
}

#[test]
fn methods_of_concrete_blocks_have_summaries() {
    let c = check_program(
        r#"
struct Dog { name String }
struct Pen<T> { value T }
impl Pen<i32> { pick(: &self, n i32, d: &Dog): &Dog { return d; } }
impl<T> Pen<T> { keep(: &self, d: &Dog): &Dog { return d; } }
fn main() {}
"#,
        false,
    );
    assert!(c.diags.is_empty(), "{}", messages(&c.diags));
    let pen = def_named(&c, "Pen");
    let sigs = &c.tables.signatures;
    let args = vec![Type::Primitive(PrimitiveKind::I32)];
    let pick = sigs.method_for(pen, &"pick".to_string(), ReceiverDomain::Owned, &args).unwrap();
    assert_eq!(pick.return_origins, vec![ReturnOrigin::Parameter(1)]);
    let keep = sigs.method(pen, &"keep".to_string(), ReceiverDomain::Owned).unwrap();
    assert_eq!(keep.return_origins, vec![ReturnOrigin::Parameter(0)]);
    assert!(sigs.method(pen, &"pick".to_string(), ReceiverDomain::Owned).is_none());
}

#[test]
fn a_specialized_method_has_a_summary_of_its_own() {
    let source = r#"
struct Dog { name String }
struct Pen<T> { value T }
default impl<T> Pen<T> { pick(: &self, a: &Dog, b: &Dog): &Dog { return a; } }
impl Pen<i32> { pick(: &self, a: &Dog, b: &Dog): &Dog { return b; } }
"#;
    let other_way = r#"
struct Dog { name String }
struct Pen<T> { value T }
impl Pen<i32> { pick(: &self, a: &Dog, b: &Dog): &Dog { return b; } }
default impl<T> Pen<T> { pick(: &self, a: &Dog, b: &Dog): &Dog { return a; } }
"#;
    let concrete = vec![Type::Primitive(PrimitiveKind::I32)];
    let pick = "pick".to_string();
    for text in [source, other_way] {
        let c = check_program(text, false);
        assert!(c.diags.is_empty(), "{}", messages(&c.diags));
        let pen = def_named(&c, "Pen");
        let sigs = &c.tables.signatures;
        let general = sigs.method(pen, &pick, ReceiverDomain::Owned).unwrap();
        assert_eq!(general.return_origins, vec![ReturnOrigin::Parameter(0)]);
        let of_text = sigs.method_for(pen, &pick, ReceiverDomain::Owned, &vec![Type::String]).unwrap();
        assert_eq!(of_text.return_origins, vec![ReturnOrigin::Parameter(0)]);
        let of_int = sigs.method_for(pen, &pick, ReceiverDomain::Owned, &concrete).unwrap();
        assert_eq!(of_int.return_origins, vec![ReturnOrigin::Parameter(1)]);
    }
}

#[test]
fn a_borrow_through_a_method_follows_the_chosen_signature() {
    let program = |pen: &str, moved: &str| {
        format!(
            r#"
struct Dog {{ name String }}
struct Pen<T> {{ value T }}
default impl<T> Pen<T> {{ pick(: &self, a: &Dog, b: &Dog): &Dog {{ return a; }} }}
impl Pen<i32> {{ pick(: &self, a: &Dog, b: &Dog): &Dog {{ return b; }} }}
fn eat(d :Dog) {{}}
fn main() {{
    let pen :Pen<{pen}> = :Pen {{ value = {} }};
    let a :Dog = :Dog {{ name = "a" }};
    let b :Dog = :Dog {{ name = "b" }};
    let r: &Dog = pen.pick(a, b);
    eat({moved});
    println(r.name);
}}
"#,
            if pen == "i32" { "1" } else { "\"x\"" },
        )
    };
    let borrowed = "cannot move a value while it is borrowed";
    assert_err(&program("String", "a"), borrowed);
    assert_ok(&program("String", "b"));
    assert_ok(&program("i32", "a"));
    assert_err(&program("i32", "b"), borrowed);
}
