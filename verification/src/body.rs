//! The statements of a function body, as far as the declarations they make
//! and the blocks they nest go.

use vstd::prelude::*;
use crate::syntax::{Expr, TextSpan};

verus! {

/// A statement of a function body.
pub enum BodyStatement {
    /// `const`/`let`/`var name`, one binding of a declaration.
    VariableDeclaration {
        name: String,
        name_span: Option<TextSpan>,
        /// `declare const name`.
        is_declare: bool,
        /// The binding comes out of a destructuring pattern.
        from_binding_pattern: bool,
    },
    /// `type name = ...`.
    TypeAlias { name: String, name_span: Option<TextSpan>, is_declare: bool },
    /// `interface name { ... }`.
    Interface { name: String, name_span: Option<TextSpan>, is_declare: bool },
    /// `{ ... }`.
    Block(Vec<BodyStatement>),
    /// `if (...) { then_body } else { else_body }`.
    If { then_body: Vec<BodyStatement>, else_body: Vec<BodyStatement> },
    /// `while (...) { body }`.
    While { body: Vec<BodyStatement> },
    /// `for (... of ...) { body }`.
    ForOf { body: Vec<BodyStatement> },
    /// `switch (...) { cases }`.
    Switch { cases: Vec<SwitchCase> },
    /// `try { block } catch { handler } finally { finalizer }`.
    Try {
        block: Vec<BodyStatement>,
        handler: Option<Vec<BodyStatement>>,
        finalizer: Vec<BodyStatement>,
    },
    /// `return expression;` (`None` for a bare `return;`).
    Return { expression: Option<Expr> },
    /// An expression evaluated for its effects.
    Expression,
    /// Any other statement.
    Other,
}

/// A `case x:` clause (with a test) or the `default:` clause, with the
/// statements it runs.
pub struct SwitchCase {
    pub has_test: bool,
    pub consequent: Vec<BodyStatement>,
}

/// Whether every case of a `switch` has a test: there is no `default:`.
pub open spec fn spec_every_case_tested(cases: Seq<SwitchCase>) -> bool {
    forall|i: int| 0 <= i < cases.len() ==> #[trigger] cases[i].has_test
}

/// Whether a statement is, or nests in its blocks, branches and `try`
/// clauses, a `switch` without a `default:` clause.
pub open spec fn spec_statement_has_defaultless_switch(s: BodyStatement) -> bool
    decreases s, 0nat,
{
    match s {
        BodyStatement::Switch { cases } => spec_every_case_tested(cases@),
        BodyStatement::Block(block) => spec_body_has_defaultless_switch(block@),
        BodyStatement::If { then_body, else_body } => spec_body_has_defaultless_switch(then_body@)
            || spec_body_has_defaultless_switch(else_body@),
        BodyStatement::Try { block, handler, finalizer } => spec_body_has_defaultless_switch(block@)
            || match handler {
            Some(h) => spec_body_has_defaultless_switch(h@),
            None => false,
        } || spec_body_has_defaultless_switch(finalizer@),
        _ => false,
    }
}

/// Whether some statement of `body` has a `switch` without `default:`.
pub open spec fn spec_body_has_defaultless_switch(body: Seq<BodyStatement>) -> bool
    decreases body, 1nat,
{
    if body.len() == 0 {
        false
    } else {
        spec_body_has_defaultless_switch(body.drop_last()) || spec_statement_has_defaultless_switch(
            body.last(),
        )
    }
}

proof fn lemma_some_statement(body: Seq<BodyStatement>, i: int)
    requires
        0 <= i < body.len(),
        spec_statement_has_defaultless_switch(body[i]),
    ensures
        spec_body_has_defaultless_switch(body),
    decreases body.len(),
{
    if i < body.len() - 1 {
        assert(body.drop_last()[i] == body[i]);
        lemma_some_statement(body.drop_last(), i);
    }
}

proof fn lemma_no_statement(body: Seq<BodyStatement>)
    requires
        forall|i: int| 0 <= i < body.len() ==> !spec_statement_has_defaultless_switch(#[trigger] body[i]),
    ensures
        !spec_body_has_defaultless_switch(body),
    decreases body.len(),
{
    if body.len() > 0 {
        assert forall|i: int| 0 <= i < body.drop_last().len() implies !spec_statement_has_defaultless_switch(
            #[trigger] body.drop_last()[i],
        ) by {
            assert(body.drop_last()[i] == body[i]);
        }
        lemma_no_statement(body.drop_last());
        assert(!spec_statement_has_defaultless_switch(body[body.len() - 1]));
    }
}

fn every_case_tested(cases: &Vec<SwitchCase>) -> (r: bool)
    ensures
        r == spec_every_case_tested(cases@),
{
    let mut i: usize = 0;
    while i < cases.len()
        invariant
            0 <= i <= cases.len(),
            forall|j: int| 0 <= j < i ==> #[trigger] cases@[j].has_test,
        decreases cases.len() - i,
    {
        if !cases[i].has_test {
            assert(!cases@[i as int].has_test);
            return false;
        }
        i = i + 1;
    }
    true
}

fn statement_has_defaultless_switch(s: &BodyStatement) -> (r: bool)
    ensures
        r == spec_statement_has_defaultless_switch(*s),
    decreases s, 0nat,
{
    match s {
        BodyStatement::Switch { cases } => every_case_tested(cases),
        BodyStatement::Block(block) => body_has_defaultless_switch(block),
        BodyStatement::If { then_body, else_body } => body_has_defaultless_switch(then_body)
            || body_has_defaultless_switch(else_body),
        BodyStatement::Try { block, handler, finalizer } => {
            if body_has_defaultless_switch(block) {
                return true;
            }
            let in_handler = match handler {
                Some(h) => body_has_defaultless_switch(h),
                None => false,
            };
            in_handler || body_has_defaultless_switch(finalizer)
        },
        _ => false,
    }
}

/// See [`spec_body_has_defaultless_switch`].
pub fn body_has_defaultless_switch(body: &Vec<BodyStatement>) -> (r: bool)
    ensures
        r == spec_body_has_defaultless_switch(body@),
    decreases body, 1nat,
{
    let mut i: usize = 0;
    while i < body.len()
        invariant
            0 <= i <= body.len(),
            forall|j: int| 0 <= j < i ==> !spec_statement_has_defaultless_switch(#[trigger] body@[j]),
        decreases body.len() - i,
    {
        proof {
            assert(decreases_to!(*body => body@));
            assert(decreases_to!(body@ => body@[i as int]));
        }
        if statement_has_defaultless_switch(&body[i]) {
            proof {
                lemma_some_statement(body@, i as int);
            }
            return true;
        }
        i = i + 1;
    }
    proof {
        lemma_no_statement(body@);
    }
    false
}


/// The expression a body returns when its only statements are expression
/// statements followed by one `return` of an expression: the one shape in
/// which the condition speaks of the parameters as declared.
pub open spec fn spec_single_returned_statement_expression(body: Seq<BodyStatement>) -> Option<Expr> {
    if body.len() == 0 {
        None
    } else {
        match body.last() {
            BodyStatement::Return { expression } => if forall|i: int|
                0 <= i < body.len() - 1 ==> #[trigger] body[i] is Expression {
                expression
            } else {
                None
            },
            _ => None,
        }
    }
}

/// See [`spec_single_returned_statement_expression`].
pub fn single_returned_statement_expression(body: &Vec<BodyStatement>) -> (r: Option<&Expr>)
    ensures
        match r {
            Some(e) => spec_single_returned_statement_expression(body@) == Some(*e),
            None => spec_single_returned_statement_expression(body@) is None,
        },
{
    if body.len() == 0 {
        return None;
    }
    let last = body.len() - 1;
    let expression = match &body[last] {
        BodyStatement::Return { expression } => expression,
        _ => return None,
    };
    let mut i: usize = 0;
    while i < last
        invariant
            0 <= i <= last,
            last == body.len() - 1,
            forall|j: int| 0 <= j < i ==> #[trigger] body@[j] is Expression,
        decreases last - i,
    {
        match &body[i] {
            BodyStatement::Expression => {},
            _ => {
                assert(!(body@[i as int] is Expression));
                return None;
            },
        }
        i = i + 1;
    }
    match expression {
        Some(e) => Some(e),
        None => None,
    }
}

} // verus!
