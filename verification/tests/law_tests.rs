//! Types, representations, signatures and tables on given values.
use nether_typecheck::ast::{Expr, ExprKind, Path};
use nether_typecheck::ids::{DefId, FileId, LocalId, NodeId, SelfParam, Span};
use nether_typecheck::names::{
    DefKind, Definition, Definitions, PathResolution, Resolution, ResolvedNames,
};
use nether_typecheck::representation::{alloc_kind, first_char, is_heap, is_pascal_case, starts_upper, AllocKind};
use nether_typecheck::sig::ReceiverDomain;
use nether_typecheck::subst::{
    collect_generic_bindings, collect_pattern_bindings, contextualize_unknowns, substitute_generic,
};
use nether_typecheck::table::Table;
use nether_typecheck::ty::{CaptureMode, PrimitiveKind, Type};
use nether_typecheck::uses::UseCounts;

fn defs(names: &[&str]) -> Definitions {
    let items = names
        .iter()
        .map(|n| Definition {
            name: n.to_string(),
            kind: DefKind::Type,
            file: Some(FileId(0)),
            methods: Vec::new(),
            constants: Vec::new(),
        })
        .collect();
    Definitions { items, global: Table::new(), scoped: Table::new() }
}

fn i32_type() -> Type {
    Type::Primitive(PrimitiveKind::I32)
}

fn generic(name: &str) -> Type {
    Type::Generic(name.to_string())
}

#[test]
fn primitive_names_denote_primitives() {
    let all = [
        ("bool", PrimitiveKind::Bool),
        ("char", PrimitiveKind::Char),
        ("i8", PrimitiveKind::I8),
        ("i16", PrimitiveKind::I16),
        ("i32", PrimitiveKind::I32),
        ("i64", PrimitiveKind::I64),
        ("u8", PrimitiveKind::U8),
        ("u16", PrimitiveKind::U16),
        ("u32", PrimitiveKind::U32),
        ("u64", PrimitiveKind::U64),
        ("usize", PrimitiveKind::Usize),
        ("isize", PrimitiveKind::Isize),
        ("f32", PrimitiveKind::F32),
        ("f64", PrimitiveKind::F64),
    ];
    for (name, kind) in all {
        assert_eq!(PrimitiveKind::from_name(name), Some(kind));
        assert_eq!(kind.is_numeric(), kind.is_integer() || kind.is_float());
        assert!(!(kind.is_integer() && kind.is_float()));
    }
    assert_eq!(PrimitiveKind::from_name("i128"), None);
    assert_eq!(PrimitiveKind::from_name("String"), None);
    assert_eq!(PrimitiveKind::from_name(""), None);
    assert!(!PrimitiveKind::Bool.is_numeric());
    assert!(!PrimitiveKind::Char.is_numeric());
}

#[test]
fn casing_follows_unicode() {
    assert!(is_pascal_case("Dog"));
    assert!(!is_pascal_case("dog"));
    assert!(!is_pascal_case(""));
    assert!(!is_pascal_case("_Dog"));
    assert!(!is_pascal_case("1Dog"));
    assert!(is_pascal_case("\u{0416}"));
    assert!(!is_pascal_case("\u{0436}"));
    assert_eq!(first_char("ab"), Some('a'));
    assert_eq!(first_char(""), None);
    assert!(starts_upper(Some('A')));
    assert!(!starts_upper(None));
}

#[test]
fn representation_goes_by_name_and_form() {
    let d = defs(&["Dog", "point"]);
    let dog = DefId(0);
    let point = DefId(1);
    assert_eq!(alloc_kind(&Type::Struct(dog, Vec::new()), &d), AllocKind::Heap);
    assert_eq!(alloc_kind(&Type::TupleStruct(dog, Vec::new()), &d), AllocKind::Heap);
    assert_eq!(alloc_kind(&Type::Struct(point, Vec::new()), &d), AllocKind::Stack);
    assert_eq!(alloc_kind(&Type::Enum(dog, Vec::new()), &d), AllocKind::Stack);
    assert_eq!(alloc_kind(&Type::Tuple(vec![Type::String]), &d), AllocKind::Stack);
    assert_eq!(alloc_kind(&Type::String, &d), AllocKind::Heap);
    assert_eq!(alloc_kind(&Type::Unique(Box::new(Type::Struct(dog, Vec::new()))), &d), AllocKind::Heap);
    assert_eq!(alloc_kind(&Type::Unique(Box::new(i32_type())), &d), AllocKind::Stack);
    assert_eq!(alloc_kind(&Type::Ref(Box::new(Type::String)), &d), AllocKind::Stack);
    assert!(is_heap(&Type::Array(Box::new(i32_type())), &d));
}

#[test]
fn compatibility_is_directional_where_it_should_be() {
    let s = Type::String;
    let weak = Type::Weak(Box::new(Type::String));
    let owned = Type::Unique(Box::new(Type::String));
    assert!(s.compatible(&s));
    assert!(s.compatible(&weak));
    assert!(!weak.compatible(&s));
    assert!(!s.compatible(&owned));
    assert!(!owned.compatible(&s));
    let pc = Type::RawConstPtr(Box::new(i32_type()));
    let pm = Type::RawMutPtr(Box::new(i32_type()));
    assert!(pm.compatible(&pc));
    assert!(!pc.compatible(&pm));
    assert!(Type::Error.compatible(&s));
    assert!(s.compatible(&Type::Never));
    assert!(!i32_type().compatible(&s));
    let partly = Type::Enum(DefId(0), vec![Type::Error]);
    let known = Type::Enum(DefId(0), vec![i32_type()]);
    assert!(partly.compatible(&known));
    assert!(!partly.is_error());
    assert!(partly.contains_error());
    assert!(!known.contains_error());
}

#[test]
fn one_layer_is_peeled() {
    let inner = Type::Ref(Box::new(Type::String));
    let outer = Type::Unique(Box::new(Type::Ref(Box::new(Type::String))));
    assert!(outer.strip_unique().compatible(&inner));
    assert!(outer.strip_indirection().compatible(&inner));
    assert!(inner.strip_indirection().compatible(&Type::String));
    assert!(inner.strip_unique().compatible(&inner));
}

#[test]
fn substitution_and_inference() {
    let mut m: Table<String, Type> = Table::new();
    collect_generic_bindings(&Type::Array(Box::new(generic("T"))), &Type::Array(Box::new(i32_type())), &mut m);
    collect_generic_bindings(&generic("T"), &Type::String, &mut m);
    let t = substitute_generic(&Type::Tuple(vec![generic("T"), generic("U")]), &m);
    match t {
        Type::Tuple(items) => {
            assert!(items[0].compatible(&i32_type()));
            assert!(!items[0].compatible(&Type::String));
            assert!(items[1].contains_generic());
        }
        other => panic!("{other:?}"),
    }
    let none = Type::Enum(DefId(3), vec![Type::Error]);
    let want = Type::Enum(DefId(3), vec![Type::String]);
    assert!(!contextualize_unknowns(&none, &want).contains_error());
    let kept = contextualize_unknowns(&i32_type(), &Type::String);
    assert!(kept.compatible(&i32_type()) && !kept.compatible(&Type::String));
}

#[test]
fn receivers_have_domains() {
    assert_eq!(ReceiverDomain::of_self_param(None), ReceiverDomain::Static);
    assert_eq!(ReceiverDomain::of_self_param(Some(&SelfParam::ByRef)), ReceiverDomain::Arc);
    assert_eq!(ReceiverDomain::of_self_param(Some(&SelfParam::ByMutRef)), ReceiverDomain::Arc);
    assert_eq!(ReceiverDomain::of_self_param(Some(&SelfParam::Owned)), ReceiverDomain::Owned);
    assert_eq!(ReceiverDomain::of_self_param(Some(&SelfParam::OwnedRef)), ReceiverDomain::Owned);
    assert_eq!(ReceiverDomain::of_self_param(Some(&SelfParam::OwnedMutRef)), ReceiverDomain::Owned);
    assert_ne!(CaptureMode::ByValue, CaptureMode::ByRef);
}

#[test]
fn matched_patterns_become_the_concrete_type() {
    let pattern = Type::Function(vec![generic("T"), Type::Array(Box::new(generic("U")))], Box::new(generic("T")));
    let concrete = Type::Function(vec![i32_type(), Type::Array(Box::new(Type::String))], Box::new(i32_type()));
    let mut m = Table::new();
    m.insert("V".to_string(), Type::String);
    assert!(collect_pattern_bindings(&pattern, &concrete, &mut m));
    assert_eq!(substitute_generic(&pattern, &m), concrete);
    assert_eq!(m.get(&"V".to_string()), Some(&Type::String));
    assert_eq!(m.get(&"T".to_string()), Some(&i32_type()));

    let other = Type::Function(vec![i32_type(), Type::Array(Box::new(Type::String))], Box::new(Type::String));
    let mut m = Table::new();
    assert!(!collect_pattern_bindings(&pattern, &other, &mut m));

    let whole = Type::Tuple(vec![generic("T"), Type::Ref(Box::new(generic("T")))]);
    let open = Type::Tuple(vec![i32_type(), Type::Ref(Box::new(generic("T")))]);
    let mut m = Table::new();
    assert!(collect_pattern_bindings(&whole, &open, &mut m));
    assert_ne!(substitute_generic(&whole, &m), open);
}

#[test]
fn counts_add_up_whatever_was_counted() {
    let span = Span { file: FileId(0), start: 0, end: 0 };
    let path = |id: u32| Expr {
        id: NodeId(id),
        kind: ExprKind::Path(Path { id: NodeId(id), segments: Vec::new(), span }),
        span,
    };
    let closure = Expr {
        id: NodeId(9),
        kind: ExprKind::Closure {
            move_capture: false,
            mut_capture: false,
            params: Vec::new(),
            body: Box::new(path(2)),
        },
        span,
    };
    let expr = Expr { id: NodeId(8), kind: ExprKind::Tuple(vec![path(0), path(1), path(0), closure]), span };
    let mut names = ResolvedNames { definitions: defs(&[]), path_res: Table::new(), locals: Table::new() };
    for (id, local) in [(0, 7), (1, 5), (2, 7)] {
        let res = PathResolution { base: Resolution::Local(LocalId(local)), consumed: 1 };
        names.path_res.insert(NodeId(id), res);
    }
    for (start, pin) in [(0, false), (4, true), (usize::MAX - 1, false)] {
        let mut uses = UseCounts::new();
        uses.counts.insert(LocalId(7), start);
        uses.count_local_uses_in_expr(&expr, &names, pin);
        assert_eq!(uses.counts.get(&LocalId(7)), Some(&start.saturating_add(3)));
        assert_eq!(uses.counts.get(&LocalId(5)), Some(&1));
        assert!(uses.pinned.contains(&LocalId(7)));
        assert_eq!(uses.pinned.contains(&LocalId(5)), pin);
    }
}
