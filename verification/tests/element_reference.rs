use lib::element_reference::{
    collect_element_reference_guards, element_access_parts, element_key_is_constant, element_reference_key,
    element_reference_key_named, root_element_accesses,
};
use lib::reference_guard::ReferenceGuard;
use lib::symbols::{SymbolEntry, SymbolInfo, SymbolKind, SymbolTable};
use lib::syntax::{BinaryOperator, Expr, LogicalOperator, UnaryOperator};
use lib::types::Type;

fn ident(name: &str) -> Expr {
    Expr::Identifier(name.to_string())
}

fn member(object: Expr, property: &str) -> Expr {
    Expr::PropertyAccess { object: Box::new(object), property_name: property.to_string() }
}

fn element(object: Expr, index: Expr) -> Expr {
    Expr::ElementAccess { object: Box::new(object), index: Box::new(index) }
}

fn indexed(name: &str, index: Expr) -> Expr {
    Expr::IndexAccess { object_name: name.to_string(), index: Box::new(index) }
}

fn number(v: &str) -> Expr {
    Expr::NumberLiteral(v.to_string())
}

fn binary(left: Expr, operator: BinaryOperator, right: Expr) -> Expr {
    Expr::Binary { left: Box::new(left), operator, right: Box::new(right) }
}

fn logical(left: Expr, operator: LogicalOperator, right: Expr) -> Expr {
    Expr::Logical { left: Box::new(left), operator, right: Box::new(right) }
}

fn not(e: Expr) -> Expr {
    Expr::Unary { operator: UnaryOperator::Not, operand: Box::new(e) }
}

fn table(bindings: Vec<(&str, SymbolKind)>) -> SymbolTable {
    SymbolTable {
        entries: bindings
            .into_iter()
            .map(|(name, kind)| SymbolEntry {
                name: name.to_string(),
                info: SymbolInfo { ty: Type::Number, kind, function_signature: None },
            })
            .collect(),
        narrowed: Vec::new(),
    }
}

fn is_name(e: &Expr, name: &str) -> bool {
    matches!(e, Expr::Identifier(n) if n == name)
}

#[test]
fn element_keys_render_the_path_and_the_index() {
    let path = vec!["posts".to_string()];
    assert_eq!(element_reference_key_named("db", &path, &number("0")), Some("db.posts[0]".to_string()));
    assert_eq!(element_reference_key_named("db", &path, &ident("i")), Some("db.posts[i]".to_string()));
    assert_eq!(element_reference_key_named("xs", &vec![], &number("1")), Some("xs[1]".to_string()));
    assert_eq!(element_reference_key_named("db", &path, &Expr::StringLiteral("k".to_string())), None);
    assert_eq!(element_reference_key(&member(Expr::This, "items"), &ident("i")), Some("this.items[i]".to_string()));
    let call = Expr::Call { callee_name: "f".to_string(), type_argument_count: 0, arguments: vec![] };
    assert_eq!(element_reference_key(&call, &number("0")), None);
}

#[test]
fn element_access_parts_of_each_access_form() {
    assert_eq!(
        element_access_parts(&element(member(ident("db"), "posts"), ident("next"))),
        Some("db.posts[next]".to_string())
    );
    assert_eq!(element_access_parts(&indexed("xs", number("0"))), Some("xs[0]".to_string()));
    let optional = Expr::OptionalIndexAccess { object: Box::new(ident("args")), index: Box::new(number("2")) };
    assert_eq!(element_access_parts(&optional), Some("args[2]".to_string()));
    assert_eq!(element_access_parts(&member(ident("a"), "b")), None);
}

#[test]
fn element_key_constancy() {
    let symbols = table(vec![
        ("c", SymbolKind::Const),
        ("p", SymbolKind::Parameter),
        ("l", SymbolKind::Let),
        ("v", SymbolKind::Var),
    ]);
    let assigned = vec!["l".to_string()];
    assert!(element_key_is_constant(&indexed("xs", number("0")), &symbols, &assigned));
    assert!(element_key_is_constant(&indexed("xs", Expr::StringLiteral("k".to_string())), &symbols, &assigned));
    assert!(element_key_is_constant(&indexed("xs", ident("c")), &symbols, &assigned));
    assert!(element_key_is_constant(&indexed("xs", ident("p")), &symbols, &assigned));
    assert!(!element_key_is_constant(&indexed("xs", ident("l")), &symbols, &assigned));
    assert!(!element_key_is_constant(&indexed("xs", ident("v")), &symbols, &assigned));
    assert!(!element_key_is_constant(&indexed("xs", ident("unbound")), &symbols, &assigned));
    assert!(!element_key_is_constant(&member(ident("xs"), "length"), &symbols, &assigned));
}

#[test]
fn element_accesses_stand_as_names() {
    // `!results[0].success || xs[i] === results[0]`
    let condition = logical(
        not(member(indexed("results", number("0")), "success")),
        LogicalOperator::Or,
        binary(indexed("xs", ident("i")), BinaryOperator::StrictEquals, indexed("results", number("0"))),
    );
    let mut accesses = Vec::new();
    let rooted = root_element_accesses(condition, &mut accesses);
    let keys: Vec<&str> = accesses.iter().map(|(k, _)| k.as_str()).collect();
    assert_eq!(keys, vec!["results[0]", "xs[i]"]);
    assert!(matches!(&accesses[1].1, Expr::IndexAccess { object_name, .. } if object_name == "xs"));
    match rooted {
        Expr::Logical { left, operator: LogicalOperator::Or, right } => {
            match *left {
                Expr::Unary { operand, .. } => match *operand {
                    Expr::PropertyAccess { object, property_name } => {
                        assert!(is_name(&object, "results[0]"));
                        assert_eq!(property_name, "success");
                    }
                    _ => panic!("property read expected"),
                },
                _ => panic!("negation expected"),
            }
            match *right {
                Expr::Binary { left, right, .. } => {
                    assert!(is_name(&left, "xs[i]"));
                    assert!(is_name(&right, "results[0]"));
                }
                _ => panic!("comparison expected"),
            }
        }
        _ => panic!("disjunction expected"),
    }
}

#[test]
fn unkeyed_access_is_kept() {
    let call = Expr::Call { callee_name: "f".to_string(), type_argument_count: 0, arguments: vec![] };
    let access = element(call, number("0"));
    let mut accesses = Vec::new();
    let rooted = root_element_accesses(access, &mut accesses);
    assert!(accesses.is_empty());
    assert!(matches!(rooted, Expr::ElementAccess { .. }));
}

#[test]
fn element_guards_across_a_true_chain() {
    // `xs[0] && typeof args[0] === "string" && ys[i] != null`
    let condition = logical(
        logical(
            indexed("xs", number("0")),
            LogicalOperator::And,
            binary(
                Expr::Unary { operator: UnaryOperator::Typeof, operand: Box::new(indexed("args", number("0"))) },
                BinaryOperator::StrictEquals,
                Expr::StringLiteral("string".to_string()),
            ),
        ),
        LogicalOperator::And,
        binary(indexed("ys", ident("i")), BinaryOperator::NotEquals, Expr::NullLiteral),
    );
    let mut guards = Vec::new();
    collect_element_reference_guards(&condition, true, &mut guards);
    assert_eq!(guards.len(), 3);
    assert!(matches!(guards[0].1, ReferenceGuard::Truthy));
    assert!(matches!(guards[1].1, ReferenceGuard::Typeof { tag: "string", keep_matching: true }));
    assert!(matches!(guards[2].1, ReferenceGuard::Nullish { keep_matching: false, .. }));
    assert!(matches!(guards[2].0, Expr::IndexAccess { object_name, .. } if object_name == "ys"));
    let mut none = Vec::new();
    collect_element_reference_guards(&condition, false, &mut none);
    assert!(none.is_empty());
}

#[test]
fn element_guards_through_negation_and_a_false_disjunction() {
    // `!xs[0] || typeof a[1] !== "number"` in its false branch
    let condition = logical(
        not(indexed("xs", number("0"))),
        LogicalOperator::Or,
        binary(
            Expr::Unary { operator: UnaryOperator::Typeof, operand: Box::new(indexed("a", number("1"))) },
            BinaryOperator::StrictNotEquals,
            Expr::StringLiteral("number".to_string()),
        ),
    );
    let mut guards = Vec::new();
    collect_element_reference_guards(&condition, false, &mut guards);
    assert_eq!(guards.len(), 2);
    assert!(matches!(guards[0].1, ReferenceGuard::Truthy));
    assert!(matches!(guards[1].1, ReferenceGuard::Typeof { tag: "number", keep_matching: true }));
}
