use lib::aliases::{
    enter_alias_inlining, is_constant_reference, leave_alias_inlining, narrowed_references,
    readonly_property, reference_path, retain_constant_reference_guards, AliasLevel,
    NarrowedReference, ALIAS_INLINE_LIMIT,
};
use lib::symbols::{SymbolEntry, SymbolInfo, SymbolKind, SymbolTable};
use lib::syntax::{BinaryOperator, Expr, LogicalOperator, UnaryOperator};
use lib::types::{union_of, ObjectProperty, ObjectType, Type, TypeReference};

fn ident(name: &str) -> Expr {
    Expr::Identifier(name.to_string())
}

fn member(object: Expr, property: &str) -> Expr {
    Expr::PropertyAccess { object: Box::new(object), property_name: property.to_string() }
}

fn binary(left: Expr, operator: BinaryOperator, right: Expr) -> Expr {
    Expr::Binary { left: Box::new(left), operator, right: Box::new(right) }
}

fn typeof_test(operand: Expr, tag: &str) -> Expr {
    binary(
        Expr::Unary { operator: UnaryOperator::Typeof, operand: Box::new(operand) },
        BinaryOperator::StrictEquals,
        Expr::StringLiteral(tag.to_string()),
    )
}

fn object(properties: &[(&str, Type, bool)]) -> Type {
    let mut props = Vec::new();
    for (name, ty, readonly) in properties {
        props.push(ObjectProperty {
            name: (*name).to_string(),
            ty: lib::types::copy_type(ty),
            optional: false,
            readonly: *readonly,
            method: false,
        });
    }
    Type::Object(ObjectType {
        properties: props,
        string_index: None,
        callable: false,
        alias_name: None,
        synthetic_open_index: false,
    })
}

fn table(bindings: Vec<(&str, Type, SymbolKind)>) -> SymbolTable {
    let mut entries = Vec::new();
    for (name, ty, kind) in bindings {
        entries.push(SymbolEntry {
            name: name.to_string(),
            info: SymbolInfo { ty, kind, function_signature: None },
        });
    }
    SymbolTable { entries, narrowed: Vec::new() }
}

fn strings(v: &[&str]) -> Vec<String> {
    v.iter().map(|s| s.to_string()).collect()
}

#[test]
fn alias_inlining_stops_at_the_limit() {
    let mut level = AliasLevel::new();
    let mut held = Vec::new();
    for _ in 0..ALIAS_INLINE_LIMIT {
        held.push(enter_alias_inlining(&mut level).unwrap());
    }
    assert_eq!(level.level, 5);
    assert!(enter_alias_inlining(&mut level).is_none());
    assert_eq!(level.level, 5);
    while let Some(inlining) = held.pop() {
        leave_alias_inlining(&mut level, inlining);
    }
    assert_eq!(level.level, 0);
    let again = enter_alias_inlining(&mut level).unwrap();
    assert_eq!(again.depth, 1);
}

#[test]
fn reference_paths_read_properties_in_order() {
    let e = Expr::NonNullAssertion(Box::new(member(
        Expr::OptionalPropertyAccess { object: Box::new(ident("a")), property_name: "b".to_string() },
        "c",
    )));
    let (base, path) = reference_path(&e).unwrap();
    assert_eq!(base, "a");
    assert_eq!(path, strings(&["b", "c"]));
    let (base, path) = reference_path(&member(Expr::This, "x")).unwrap();
    assert_eq!(base, "this");
    assert_eq!(path, strings(&["x"]));
    assert!(reference_path(&Expr::StringLiteral("a".to_string())).is_none());
}

#[test]
fn narrowed_reference_object_drops_the_last_read() {
    let r = NarrowedReference::of(&member(member(ident("a"), "b"), "c")).unwrap();
    assert!(!r.element);
    let o = r.object();
    assert_eq!(o.base, "a");
    assert_eq!(o.path, strings(&["b"]));
    let element = NarrowedReference::of(&Expr::IndexAccess {
        object_name: "xs".to_string(),
        index: Box::new(Expr::NumberLiteral("0".to_string())),
    })
    .unwrap();
    assert!(element.element);
    let o = element.object();
    assert!(!o.element);
    assert_eq!(o.base, "xs");
    assert!(o.path.is_empty());
    let bare = NarrowedReference::of(&ident("x")).unwrap().object();
    assert_eq!(bare.base, "x");
    assert!(bare.path.is_empty());
}

#[test]
fn readonly_property_through_a_union() {
    let a = object(&[("p", Type::String, true)]);
    let b = object(&[("p", Type::Number, false)]);
    let union = union_of(vec![a, b, Type::Undefined]);
    let (ty, readonly) = readonly_property(&union, "p").unwrap();
    assert_eq!(ty, union_of(vec![Type::String, Type::Number]));
    assert!(readonly);
    let c = object(&[("q", Type::Number, false)]);
    let missing = union_of(vec![object(&[("p", Type::Number, false)]), c]);
    assert!(readonly_property(&missing, "p").is_none());
}

#[test]
fn constant_references() {
    let o = object(&[("r", Type::String, true), ("w", Type::String, false)]);
    let symbols = table(vec![
        ("c", lib::types::copy_type(&o), SymbolKind::Const),
        ("p", Type::String, SymbolKind::Parameter),
        ("v", Type::String, SymbolKind::Var),
    ]);
    let assigned = strings(&["p"]);
    let check = |e: Expr| is_constant_reference(&NarrowedReference::of(&e).unwrap(), &symbols, &assigned);
    assert!(check(ident("c")));
    assert!(check(member(ident("c"), "r")));
    assert!(!check(member(ident("c"), "w")));
    assert!(!check(ident("p")));
    assert!(!check(ident("v")));
    assert!(check(Expr::This));
    assert!(!check(ident("unbound")));
    let unassigned = strings(&[]);
    assert!(is_constant_reference(&NarrowedReference::of(&ident("p")).unwrap(), &symbols, &unassigned));
}

#[test]
fn element_of_a_readonly_tuple_is_constant() {
    let tuple = Type::Reference(TypeReference {
        id: "test.ts\u{0}T".to_string(),
        display: "readonly [string, number]".to_string(),
        target: Box::new(Type::Tuple(vec![Type::String, Type::Number])),
        enum_owner: false,
        readonly_array: true,
    });
    let symbols = table(vec![
        ("t", tuple, SymbolKind::Const),
        ("m", Type::Tuple(vec![Type::String]), SymbolKind::Const),
    ]);
    let element = |name: &str| Expr::IndexAccess {
        object_name: name.to_string(),
        index: Box::new(Expr::NumberLiteral("0".to_string())),
    };
    let assigned = Vec::new();
    assert!(is_constant_reference(&NarrowedReference::of(&element("t")).unwrap(), &symbols, &assigned));
    assert!(!is_constant_reference(&NarrowedReference::of(&element("m")).unwrap(), &symbols, &assigned));
}

#[test]
fn narrowed_references_of_guards() {
    let symbols = table(vec![]);
    let refs = narrowed_references(&typeof_test(member(ident("a"), "b"), "string"), &symbols);
    assert_eq!(refs.len(), 1);
    assert_eq!(refs[0].base, "a");
    assert_eq!(refs[0].path, strings(&["b"]));
    let eq = binary(ident("x"), BinaryOperator::Less, ident("y"));
    assert!(narrowed_references(&eq, &symbols).is_empty());
    let equality = binary(ident("x"), BinaryOperator::StrictEquals, ident("y"));
    let refs = narrowed_references(&equality, &symbols);
    assert_eq!(refs.len(), 2);
    assert_eq!(refs[1].base, "y");
    let call = Expr::Call {
        callee_name: "isFoo".to_string(),
        type_argument_count: 0,
        arguments: vec![ident("v"), Expr::NumberLiteral("1".to_string())],
    };
    let refs = narrowed_references(&call, &symbols);
    assert_eq!(refs.len(), 1);
    assert_eq!(refs[0].base, "v");
    let method = Expr::PropertyCall {
        type_argument_count: 0,
        object: Box::new(ident("o")),
        property_name: "isFoo".to_string(),
        arguments: vec![],
    };
    let refs = narrowed_references(&method, &symbols);
    assert_eq!(refs.len(), 1);
    assert_eq!(refs[0].base, "o");
    let truthy = narrowed_references(&member(ident("o"), "p"), &symbols);
    assert_eq!(truthy.len(), 1);
    assert_eq!(truthy[0].base, "o");
    assert!(truthy[0].path.is_empty());
}

#[test]
fn retain_drops_guards_on_changing_references() {
    let symbols = table(vec![
        ("c", Type::String, SymbolKind::Const),
        ("v", Type::String, SymbolKind::Var),
    ]);
    let condition = Expr::Logical {
        left: Box::new(typeof_test(ident("c"), "string")),
        operator: LogicalOperator::And,
        right: Box::new(Expr::Unary {
            operator: UnaryOperator::Not,
            operand: Box::new(typeof_test(ident("v"), "string")),
        }),
    };
    let retained = retain_constant_reference_guards(condition, &symbols, &Vec::new());
    match &retained {
        Expr::Logical { left, operator, right } => {
            assert_eq!(*operator, LogicalOperator::And);
            assert!(matches!(**left, Expr::Binary { .. }));
            match &**right {
                Expr::Unary { operator, operand } => {
                    assert_eq!(*operator, UnaryOperator::Not);
                    assert!(matches!(**operand, Expr::Unknown));
                }
                _ => panic!("the negation is kept"),
            }
        }
        _ => panic!("the conjunction is kept"),
    }
    // Retaining again changes nothing.
    let again = retain_constant_reference_guards(retained, &symbols, &Vec::new());
    match &again {
        Expr::Logical { right, .. } => match &**right {
            Expr::Unary { operand, .. } => assert!(matches!(**operand, Expr::Unknown)),
            _ => panic!("the negation is kept"),
        },
        _ => panic!("the conjunction is kept"),
    }
}

#[test]
fn retain_keeps_a_guard_that_narrows_no_reference() {
    let symbols = table(vec![]);
    let literal = Expr::BooleanLiteral(true);
    let retained = retain_constant_reference_guards(literal, &symbols, &Vec::new());
    assert!(matches!(retained, Expr::BooleanLiteral(true)));
}
