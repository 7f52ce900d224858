use lib::reference_guard::ReferenceGuard;
use lib::reference_guards::{collect_reference_guards, optional_chain_contained_receiver, optional_chain_receiver};
use lib::symbols::{SymbolEntry, SymbolInfo, SymbolKind, SymbolTable};
use lib::syntax::{BinaryOperator, Expr, LogicalOperator, UnaryOperator};
use lib::types::Type;

fn ident(name: &str) -> Expr {
    Expr::Identifier(name.to_string())
}

fn member(object: Expr, property: &str) -> Expr {
    Expr::PropertyAccess { object: Box::new(object), property_name: property.to_string() }
}

fn optional_member(object: Expr, property: &str) -> Expr {
    Expr::OptionalPropertyAccess { object: Box::new(object), property_name: property.to_string() }
}

fn not(e: Expr) -> Expr {
    Expr::Unary { operator: UnaryOperator::Not, operand: Box::new(e) }
}

fn binary(left: Expr, operator: BinaryOperator, right: Expr) -> Expr {
    Expr::Binary { left: Box::new(left), operator, right: Box::new(right) }
}

fn logical(left: Expr, operator: LogicalOperator, right: Expr) -> Expr {
    Expr::Logical { left: Box::new(left), operator, right: Box::new(right) }
}

fn empty() -> SymbolTable {
    SymbolTable { entries: Vec::new(), narrowed: Vec::new() }
}

fn collect<'a>(condition: &'a Expr, branch_is_true: bool, symbols: &SymbolTable) -> Vec<(String, Vec<String>, ReferenceGuard<'a>)> {
    let mut guards = Vec::new();
    collect_reference_guards(condition, branch_is_true, symbols, &mut guards);
    guards
}

fn paths(guards: &[(String, Vec<String>, ReferenceGuard<'_>)]) -> Vec<(String, Vec<String>)> {
    guards.iter().map(|(b, p, _)| (b.clone(), p.clone())).collect()
}

#[test]
fn a_failed_disjunction_of_negations_leaves_both_references_truthy() {
    let condition = logical(not(member(ident("s"), "program")), LogicalOperator::Or, not(member(ident("s"), "map")));
    let guards = collect(&condition, false, &empty());
    assert_eq!(
        paths(&guards),
        vec![("s".to_string(), vec!["program".to_string()]), ("s".to_string(), vec!["map".to_string()])]
    );
    assert!(guards.iter().all(|(_, _, g)| matches!(g, ReferenceGuard::Truthy)));
    assert!(collect(&condition, true, &empty()).is_empty());
}

#[test]
fn a_conjunction_holding_collects_each_operand() {
    let condition = logical(ident("a"), LogicalOperator::And, not(not(member(ident("b"), "c"))));
    let guards = collect(&condition, true, &empty());
    assert_eq!(paths(&guards), vec![("a".to_string(), vec![]), ("b".to_string(), vec!["c".to_string()])]);
    assert!(collect(&condition, false, &empty()).is_empty());
    let a = ident("a");
    let falsy = collect(&a, false, &empty());
    assert!(matches!(falsy[0].2, ReferenceGuard::Falsy));
}

#[test]
fn a_chain_typeof_other_than_undefined_proves_its_receiver() {
    let operand = member(optional_member(ident("o"), "p"), "q");
    let condition = binary(
        Expr::Unary { operator: UnaryOperator::Typeof, operand: Box::new(operand) },
        BinaryOperator::StrictEquals,
        Expr::StringLiteral("string".to_string()),
    );
    let guards = collect(&condition, true, &empty());
    assert_eq!(paths(&guards)[0], ("o".to_string(), vec![]));
    assert!(matches!(guards[0].2, ReferenceGuard::Truthy));
    assert!(matches!(guards[1].2, ReferenceGuard::Typeof { tag: "string", keep_matching: true }));
    assert_eq!(guards.len(), 2);
    assert_eq!(collect(&condition, false, &empty()).len(), 1);
}

#[test]
fn a_chain_compared_with_a_defined_value_proves_its_receiver() {
    let chain = optional_member(ident("o"), "kind");
    assert!(matches!(optional_chain_receiver(&chain), Some(Expr::Identifier(n)) if n == "o"));
    let symbols = SymbolTable {
        entries: vec![SymbolEntry {
            name: "v".to_string(),
            info: SymbolInfo { ty: Type::String, kind: SymbolKind::Const, function_signature: None },
        }],
        narrowed: Vec::new(),
    };
    let condition = binary(chain, BinaryOperator::StrictEquals, ident("v"));
    assert!(optional_chain_contained_receiver(&condition, true, &symbols).is_some());
    assert!(optional_chain_contained_receiver(&condition, false, &symbols).is_none());
    let guards = collect(&condition, true, &symbols);
    assert!(matches!(guards[0].2, ReferenceGuard::Truthy));
    assert_eq!(paths(&guards)[0], ("o".to_string(), vec![]));
    let undefined = binary(optional_member(ident("o"), "kind"), BinaryOperator::StrictNotEquals, Expr::UndefinedLiteral);
    assert!(optional_chain_contained_receiver(&undefined, true, &symbols).is_some());
}
