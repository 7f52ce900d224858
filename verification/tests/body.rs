use lib::body::{body_has_defaultless_switch, BodyStatement, SwitchCase};

fn switch(cases: &[bool]) -> BodyStatement {
    BodyStatement::Switch {
        cases: cases.iter().map(|t| SwitchCase { has_test: *t, consequent: vec![] }).collect(),
    }
}

#[test]
fn top_level_switch_without_default() {
    assert!(body_has_defaultless_switch(&vec![BodyStatement::Other, switch(&[true, true])]));
    assert!(!body_has_defaultless_switch(&vec![switch(&[true, false])]));
    assert!(!body_has_defaultless_switch(&vec![]));
    assert!(body_has_defaultless_switch(&vec![switch(&[])]));
}

#[test]
fn nested_switches_are_found() {
    let in_else = BodyStatement::If {
        then_body: vec![switch(&[false])],
        else_body: vec![BodyStatement::Block(vec![switch(&[true])])],
    };
    assert!(body_has_defaultless_switch(&vec![in_else]));
    let in_handler = BodyStatement::Try {
        block: vec![BodyStatement::Other],
        handler: Some(vec![switch(&[true, true])]),
        finalizer: vec![],
    };
    assert!(body_has_defaultless_switch(&vec![in_handler]));
    let covered = BodyStatement::Try {
        block: vec![switch(&[true, false])],
        handler: None,
        finalizer: vec![BodyStatement::Block(vec![BodyStatement::Other])],
    };
    assert!(!body_has_defaultless_switch(&vec![covered]));
    let in_finalizer = BodyStatement::Try { block: vec![], handler: None, finalizer: vec![switch(&[true])] };
    assert!(body_has_defaultless_switch(&vec![in_finalizer]));
}
