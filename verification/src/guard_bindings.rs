//! Which bindings a condition guards: the identifiers its guards test, the
//! ones whose guards hold in a branch, and the simple shapes the flow rules
//! read bindings from.

use vstd::prelude::*;
use crate::aliases::{reference_path, spec_reference_path, this_name, this_string, view_strings};
use crate::guards::discriminant::{parse_discriminant_condition_with, spec_parse_discriminant_condition};
use crate::guards::equality::{parse_equality_test, spec_parse_equality_test};
use crate::guards::literal_equality::{parse_identifier_literal_equality, spec_parse_identifier_literal_equality};
use crate::guards::nullish::{parse_nullish_equality_condition, spec_parse_nullish_equality_condition};
use crate::symbols::{spec_get, SymbolTable};
use crate::guards::arrayness::{
    parse_array_isarray_condition, parse_arraybuffer_isview_condition, spec_static_call_argument,
};
use crate::guards::instanceof::{parse_instanceof_condition, spec_parse_instanceof_condition};
use crate::guards::property_presence::{parse_in_condition, spec_parse_in_condition};
use crate::narrowing::{
    parse_typeof_condition, spec_parse_typeof_condition, spec_strip_boolean_literal_comparison,
    strip_boolean_literal_comparison, strip_side, Side,
};
use crate::syntax::{BinaryOperator, Expr, LogicalOperator, UnaryOperator};
use crate::text::{chars_eq, chars_of};
use crate::truthy::{
    collect_and_chain_truthy_targets, spec_collect_and_chain_truthy_targets, SpecTruthyTarget,
    TruthyGuardTarget,
};
use crate::types::{
    copy_type, lemma_peel_height, lemma_seq_height, lemma_view_types, peeled, seq_height, spec_peel,
    type_eq, type_height, view_type, view_types, SpecType, Type,
};

verus! {

/// The operand a single guard tests, when it is a bare identifier: of
/// `instanceof`, `typeof`, `Array.isArray`, `ArrayBuffer.isView` or `in`, the
/// first of them that applies.
pub open spec fn spec_guard_operand_identifier(condition: Expr) -> Option<Seq<char>> {
    let operand = match spec_parse_instanceof_condition(condition) {
        Some((o, _)) => Some(o),
        None => match spec_parse_typeof_condition(condition) {
            Some((o, _, _)) => Some(o),
            None => match spec_static_call_argument(condition, "Array"@, "isArray"@) {
                Some(o) => Some(o),
                None => match spec_static_call_argument(condition, "ArrayBuffer"@, "isView"@) {
                    Some(o) => Some(o),
                    None => match spec_parse_in_condition(condition) {
                        Some((o, _)) => Some(o),
                        None => None,
                    },
                },
            },
        },
    };
    match operand {
        Some(Expr::Identifier(name)) => Some(name@),
        _ => None,
    }
}

/// See [`spec_guard_operand_identifier`].
pub fn guard_operand_identifier(condition: &Expr) -> (r: Option<&str>)
    ensures
        match r {
            Some(n) => spec_guard_operand_identifier(*condition) == Some(n@),
            None => spec_guard_operand_identifier(*condition) is None,
        },
{
    let operand = if let Some((operand, _)) = parse_instanceof_condition(condition) {
        operand
    } else if let Some((operand, _, _)) = parse_typeof_condition(condition) {
        operand
    } else if let Some(operand) = parse_array_isarray_condition(condition) {
        operand
    } else if let Some(operand) = parse_arraybuffer_isview_condition(condition) {
        operand
    } else if let Some((operand, _)) = parse_in_condition(condition) {
        operand
    } else {
        return None;
    };
    match operand {
        Expr::Identifier(name) => Some(name.as_str()),
        _ => None,
    }
}

/// `names` with `name` appended unless it is there already.
pub open spec fn spec_push_unique(names: Seq<Seq<char>>, name: Seq<char>) -> Seq<Seq<char>> {
    if names.contains(name) {
        names
    } else {
        names.push(name)
    }
}

pub(crate) fn push_unique(names: &mut Vec<String>, name: String)
    ensures
        view_strings(final(names)@) == spec_push_unique(view_strings(old(names)@), name@),
{
    let ghost before = view_strings(names@);
    let target = chars_of(name.as_str());
    let mut i: usize = 0;
    while i < names.len()
        invariant
            0 <= i <= names.len(),
            target@ == name@,
            before == view_strings(names@),
            forall|j: int| 0 <= j < i ==> #[trigger] names@[j]@ != name@,
        decreases names.len() - i,
    {
        let n = chars_of(names[i].as_str());
        if chars_eq(&n, &target) {
            assert(before[i as int] == name@);
            return;
        }
        i = i + 1;
    }
    assert(!before.contains(name@)) by {
        assert forall|j: int| 0 <= j < before.len() implies before[j] != name@ by {
            assert(before[j] == names@[j]@);
        }
    }
    names.push(name);
    assert(view_strings(names@) =~= before.push(name@));
}

/// The identifiers a condition's guards test, through `!`, `&&` and `||`,
/// first occurrence first, appended to `acc`.
pub open spec fn spec_collect_guard_operand_identifiers(condition: Expr, acc: Seq<Seq<char>>) -> Seq<Seq<char>>
    decreases condition,
{
    match condition {
        Expr::Unary { operator, operand } => if operator == UnaryOperator::Not {
            spec_collect_guard_operand_identifiers(*operand, acc)
        } else {
            spec_guard_operand_leaf(condition, acc)
        },
        Expr::Logical { left, operator, right } => if operator == LogicalOperator::Or || operator
            == LogicalOperator::And {
            spec_collect_guard_operand_identifiers(
                *right,
                spec_collect_guard_operand_identifiers(*left, acc),
            )
        } else {
            spec_guard_operand_leaf(condition, acc)
        },
        _ => spec_guard_operand_leaf(condition, acc),
    }
}

/// A single guard's tested identifier appended to `acc`.
pub open spec fn spec_guard_operand_leaf(condition: Expr, acc: Seq<Seq<char>>) -> Seq<Seq<char>> {
    match spec_guard_operand_identifier(condition) {
        Some(name) => spec_push_unique(acc, name),
        None => acc,
    }
}

fn guard_operand_leaf(condition: &Expr, names: &mut Vec<String>)
    ensures
        view_strings(final(names)@) == spec_guard_operand_leaf(
            *condition,
            view_strings(old(names)@),
        ),
{
    if let Some(name) = guard_operand_identifier(condition) {
        push_unique(names, name.to_string());
    }
}

/// See [`spec_collect_guard_operand_identifiers`].
pub fn collect_guard_operand_identifiers(condition: &Expr, names: &mut Vec<String>)
    ensures
        view_strings(final(names)@) == spec_collect_guard_operand_identifiers(
            *condition,
            view_strings(old(names)@),
        ),
    decreases condition,
{
    match condition {
        Expr::Unary { operator, operand } => {
            if *operator == UnaryOperator::Not {
                collect_guard_operand_identifiers(operand, names);
            } else {
                guard_operand_leaf(condition, names);
            }
        },
        Expr::Logical { left, operator, right } => {
            if *operator == LogicalOperator::Or || *operator == LogicalOperator::And {
                collect_guard_operand_identifiers(left, names);
                collect_guard_operand_identifiers(right, names);
            } else {
                guard_operand_leaf(condition, names);
            }
        },
        _ => guard_operand_leaf(condition, names),
    }
}

/// `names` with each identifier among `targets` appended unless it is there
/// already; property targets add nothing.
pub open spec fn spec_add_identifier_targets(names: Seq<Seq<char>>, targets: Seq<SpecTruthyTarget>) -> Seq<Seq<char>>
    decreases targets.len(),
{
    if targets.len() == 0 {
        names
    } else {
        let before = spec_add_identifier_targets(names, targets.drop_last());
        match targets.last() {
            SpecTruthyTarget::Identifier(n) => spec_push_unique(before, n),
            _ => before,
        }
    }
}

/// The identifiers whose genuine-`unknown`-ness a condition removes where it
/// holds: the operands its guards test, then each bare identifier an `&&`
/// chain proves truthy.
pub open spec fn spec_guarded_value_identifiers(condition: Expr) -> Seq<Seq<char>> {
    spec_add_identifier_targets(
        spec_collect_guard_operand_identifiers(condition, Seq::empty()),
        spec_collect_and_chain_truthy_targets(condition, Seq::empty()),
    )
}

/// See [`spec_guarded_value_identifiers`].
pub fn guarded_value_identifiers(condition: &Expr) -> (r: Vec<String>)
    ensures
        view_strings(r@) == spec_guarded_value_identifiers(*condition),
{
    let mut names: Vec<String> = Vec::new();
    assert(view_strings(names@) =~= Seq::<Seq<char>>::empty());
    collect_guard_operand_identifiers(condition, &mut names);
    let mut truthy: Vec<TruthyGuardTarget> = Vec::new();
    assert(truthy@.map_values(|t: TruthyGuardTarget| t@) =~= Seq::<SpecTruthyTarget>::empty());
    collect_and_chain_truthy_targets(condition, &mut truthy);
    let ghost ts = truthy@.map_values(|t: TruthyGuardTarget| t@);
    let ghost base = view_strings(names@);
    let mut i: usize = 0;
    assert(ts.take(0) =~= Seq::<SpecTruthyTarget>::empty());
    while i < truthy.len()
        invariant
            0 <= i <= truthy.len(),
            ts == truthy@.map_values(|t: TruthyGuardTarget| t@),
            view_strings(names@) == spec_add_identifier_targets(base, ts.take(i as int)),
        decreases truthy.len() - i,
    {
        proof {
            assert(ts.take(i + 1).drop_last() =~= ts.take(i as int));
            assert(ts.take(i + 1).last() == truthy@[i as int]@);
        }
        match &truthy[i] {
            TruthyGuardTarget::Identifier(name) => {
                push_unique(&mut names, name.clone());
            },
            _ => {},
        }
        i = i + 1;
    }
    assert(ts.take(truthy.len() as int) =~= ts);
    names
}

/// The identifiers whose guards a condition proves to hold in
/// `branch_is_true`, appended to `acc`: through `!` (flipping the branch), a
/// comparison with a boolean literal (flipping it as the comparison does),
/// the `||` operands of a false branch and the `&&` operands of a true one.
/// In a true branch an `||` counts each disjunct's guards; any other
/// `&&`/`||`/`??` proves nothing. A single guard counts its tested identifier
/// in a true branch, and in a false one only `typeof x !== "tag"` (whose
/// being false is a guard that holds) counts `x`.
pub open spec fn spec_collect_holding_guard_identifiers(condition: Expr, branch_is_true: bool, acc: Seq<Seq<char>>) -> Seq<Seq<char>>
    decreases condition,
{
    match condition {
        Expr::Unary { operator, operand } => if operator == UnaryOperator::Not {
            spec_collect_holding_guard_identifiers(*operand, !branch_is_true, acc)
        } else {
            spec_holding_leaf(condition, branch_is_true, acc)
        },
        Expr::Binary { left, right, .. } => match spec_strip_boolean_literal_comparison(condition) {
            Some((side, flip)) => if side == Side::Left {
                spec_collect_holding_guard_identifiers(*left, branch_is_true != flip, acc)
            } else {
                spec_collect_holding_guard_identifiers(*right, branch_is_true != flip, acc)
            },
            None => spec_holding_leaf(condition, branch_is_true, acc),
        },
        Expr::Logical { left, operator, right } => if operator == LogicalOperator::Or
            && !branch_is_true {
            spec_collect_holding_guard_identifiers(
                *right,
                false,
                spec_collect_holding_guard_identifiers(*left, false, acc),
            )
        } else if operator == LogicalOperator::And && branch_is_true {
            spec_collect_holding_guard_identifiers(
                *right,
                true,
                spec_collect_holding_guard_identifiers(*left, true, acc),
            )
        } else if operator == LogicalOperator::Or {
            spec_collect_guard_operand_identifiers(condition, acc)
        } else {
            acc
        },
        _ => spec_holding_leaf(condition, branch_is_true, acc),
    }
}

/// The identifier a single guard proves guarded in the branch, appended.
pub open spec fn spec_holding_leaf(condition: Expr, branch_is_true: bool, acc: Seq<Seq<char>>) -> Seq<Seq<char>> {
    let name = if branch_is_true {
        spec_guard_operand_identifier(condition)
    } else {
        match spec_parse_typeof_condition(condition) {
            Some((Expr::Identifier(n), _, false)) => Some(n@),
            _ => None,
        }
    };
    match name {
        Some(n) => spec_push_unique(acc, n),
        None => acc,
    }
}

fn holding_leaf(condition: &Expr, branch_is_true: bool, names: &mut Vec<String>)
    ensures
        view_strings(final(names)@) == spec_holding_leaf(
            *condition,
            branch_is_true,
            view_strings(old(names)@),
        ),
{
    let name = if branch_is_true {
        match guard_operand_identifier(condition) {
            Some(n) => Some(n.to_string()),
            None => None,
        }
    } else {
        match parse_typeof_condition(condition) {
            Some((Expr::Identifier(n), _, false)) => Some(n.clone()),
            _ => None,
        }
    };
    if let Some(name) = name {
        push_unique(names, name);
    }
}

/// See [`spec_collect_holding_guard_identifiers`].
pub fn collect_holding_guard_identifiers(condition: &Expr, branch_is_true: bool, names: &mut Vec<String>)
    ensures
        view_strings(final(names)@) == spec_collect_holding_guard_identifiers(
            *condition,
            branch_is_true,
            view_strings(old(names)@),
        ),
    decreases condition,
{
    match condition {
        Expr::Unary { operator, operand } => {
            if *operator == UnaryOperator::Not {
                collect_holding_guard_identifiers(operand, !branch_is_true, names);
            } else {
                holding_leaf(condition, branch_is_true, names);
            }
        },
        Expr::Binary { left, right, .. } => match strip_side(condition) {
            Some((side, flip)) => {
                if side == Side::Left {
                    collect_holding_guard_identifiers(left, branch_is_true != flip, names);
                } else {
                    collect_holding_guard_identifiers(right, branch_is_true != flip, names);
                }
            },
            None => holding_leaf(condition, branch_is_true, names),
        },
        Expr::Logical { left, operator, right } => {
            if *operator == LogicalOperator::Or && !branch_is_true {
                collect_holding_guard_identifiers(left, false, names);
                collect_holding_guard_identifiers(right, false, names);
            } else if *operator == LogicalOperator::And && branch_is_true {
                collect_holding_guard_identifiers(left, true, names);
                collect_holding_guard_identifiers(right, true, names);
            } else if *operator == LogicalOperator::Or {
                collect_guard_operand_identifiers(condition, names);
            }
        },
        _ => holding_leaf(condition, branch_is_true, names),
    }
}

/// The binding a condition proves truthy (`true`) or falsy (`false`) in
/// `branch_is_true`, when the condition is that binding under any number of
/// `!`s.
pub open spec fn spec_truthiness_tested_binding(condition: Expr, branch_is_true: bool) -> Option<(Seq<char>, bool)>
    decreases condition,
{
    match condition {
        Expr::Identifier(name) => Some((name@, branch_is_true)),
        Expr::Unary { operator, operand } => if operator == UnaryOperator::Not {
            spec_truthiness_tested_binding(*operand, !branch_is_true)
        } else {
            None
        },
        _ => None,
    }
}

/// See [`spec_truthiness_tested_binding`].
pub fn truthiness_tested_binding(condition: &Expr, branch_is_true: bool) -> (r: Option<(&str, bool)>)
    ensures
        match r {
            Some((n, t)) => spec_truthiness_tested_binding(*condition, branch_is_true) == Some(
                (n@, t),
            ),
            None => spec_truthiness_tested_binding(*condition, branch_is_true) is None,
        },
    decreases condition,
{
    match condition {
        Expr::Identifier(name) => Some((name.as_str(), branch_is_true)),
        Expr::Unary { operator, operand } => if *operator == UnaryOperator::Not {
            truthiness_tested_binding(operand, !branch_is_true)
        } else {
            None
        },
        _ => None,
    }
}

/// The nullish type a literal operand denotes: `null`, or `undefined` (also
/// as `void e`).
pub open spec fn spec_nullish_operand(e: Expr) -> Option<SpecType> {
    match e {
        Expr::NullLiteral => Some(SpecType::Null),
        Expr::UndefinedLiteral => Some(SpecType::Undefined),
        Expr::Unary { operator, .. } => if operator == UnaryOperator::Void {
            Some(SpecType::Undefined)
        } else {
            None
        },
        _ => None,
    }
}

fn nullish_operand(e: &Expr) -> (r: Option<Type>)
    ensures
        crate::types::opt_view(r) == spec_nullish_operand(*e),
{
    match e {
        Expr::NullLiteral => Some(Type::Null),
        Expr::UndefinedLiteral => Some(Type::Undefined),
        Expr::Unary { operator, .. } => if *operator == UnaryOperator::Void {
            Some(Type::Undefined)
        } else {
            None
        },
        _ => None,
    }
}

/// `x === null`, `undefined !== x`, `x == null`: the identifier compared (the
/// left operand when it is one), the nullish types the comparison matches
/// (both under `==`/`!=`), and whether it is an equality.
pub open spec fn spec_identifier_nullish_equality(condition: Expr) -> Option<(Seq<char>, Seq<SpecType>, bool)> {
    match condition {
        Expr::Binary { left, operator, right } => {
            let eq_strict: Option<(bool, bool)> = match operator {
                BinaryOperator::StrictEquals => Some((true, true)),
                BinaryOperator::StrictNotEquals => Some((false, true)),
                BinaryOperator::Equals => Some((true, false)),
                BinaryOperator::NotEquals => Some((false, false)),
                _ => None,
            };
            match eq_strict {
                Some((eq, strict)) => {
                    let named: Option<(Seq<char>, Expr)> = match *left {
                        Expr::Identifier(name) => Some((name@, *right)),
                        _ => match *right {
                            Expr::Identifier(name) => Some((name@, *left)),
                            _ => None,
                        },
                    };
                    match named {
                        Some((name, other)) => match spec_nullish_operand(other) {
                            Some(matched) => Some(
                                (
                                    name,
                                    if strict {
                                        seq![matched]
                                    } else {
                                        seq![SpecType::Null, SpecType::Undefined]
                                    },
                                    eq,
                                ),
                            ),
                            None => None,
                        },
                        None => None,
                    }
                },
                None => None,
            }
        },
        _ => None,
    }
}

/// See [`spec_identifier_nullish_equality`].
pub fn identifier_nullish_equality(condition: &Expr) -> (r: Option<(&str, Vec<Type>, bool)>)
    ensures
        match r {
            Some((n, ts, eq)) => spec_identifier_nullish_equality(*condition) == Some(
                (n@, view_types(ts@), eq),
            ),
            None => spec_identifier_nullish_equality(*condition) is None,
        },
{
    let (left, operator, right) = match condition {
        Expr::Binary { left, operator, right } => (left, operator, right),
        _ => return None,
    };
    let (eq, strict) = match operator {
        BinaryOperator::StrictEquals => (true, true),
        BinaryOperator::StrictNotEquals => (false, true),
        BinaryOperator::Equals => (true, false),
        BinaryOperator::NotEquals => (false, false),
        _ => return None,
    };
    let (name, other): (&str, &Expr) = match &**left {
        Expr::Identifier(name) => (name.as_str(), &**right),
        _ => match &**right {
            Expr::Identifier(name) => (name.as_str(), &**left),
            _ => return None,
        },
    };
    let matched = match nullish_operand(other) {
        Some(t) => t,
        None => return None,
    };
    let mut types: Vec<Type> = Vec::new();
    if strict {
        types.push(matched);
    } else {
        types.push(Type::Null);
        types.push(Type::Undefined);
    }
    proof {
        lemma_view_types(types@);
        if strict {
            assert(view_types(types@) =~= seq![view_type(types@[0])]);
        } else {
            assert(view_types(types@) =~= seq![SpecType::Null, SpecType::Undefined]);
        }
    }
    Some((name, types, eq))
}

/// Whether a value of type `leaf` can be `===` the literal type `literal`:
/// some member of a union leaf can; a literal, or `undefined`, only when it
/// is the literal; `string`, `number` and `boolean` only for a literal of
/// their own kind; anything else can.
pub open spec fn spec_may_equal_literal(leaf: SpecType, literal: SpecType) -> bool
    decreases type_height(leaf), 0nat, 0nat,
{
    let p = spec_peel(leaf);
    proof {
        lemma_peel_height(leaf);
    }
    match p {
        SpecType::Union(ms) => spec_some_may_equal(ms, literal),
        SpecType::StringLiteral(_) | SpecType::NumberLiteral(_) | SpecType::BooleanLiteral(_)
        | SpecType::Undefined => p == literal,
        SpecType::String => literal is StringLiteral,
        SpecType::Number => literal is NumberLiteral,
        SpecType::Boolean => literal is BooleanLiteral,
        _ => true,
    }
}

/// Whether some member of `s` may equal `literal`.
pub open spec fn spec_some_may_equal(s: Seq<SpecType>, literal: SpecType) -> bool
    decreases seq_height(s), 1nat, s.len(),
{
    if s.len() == 0 {
        false
    } else {
        proof {
            lemma_seq_height(s);
        }
        spec_some_may_equal(s.drop_last(), literal) || spec_may_equal_literal(s.last(), literal)
    }
}

/// See [`spec_may_equal_literal`].
pub fn may_equal_literal(leaf: &Type, literal: &Type) -> (r: bool)
    ensures
        r == spec_may_equal_literal(leaf@, literal@),
    decreases type_height(leaf@),
{
    let p = peeled(leaf);
    proof {
        lemma_peel_height(leaf@);
    }
    match p {
        Type::Union(ms) => {
            let ghost s = view_types(ms@);
            proof {
                lemma_view_types(ms@);
                lemma_seq_height(s);
            }
            let mut i: usize = 0;
            assert(s.take(0) =~= Seq::<SpecType>::empty());
            while i < ms.len()
                invariant
                    0 <= i <= ms.len(),
                    s == view_types(ms@),
                    s.len() == ms.len(),
                    p@ == SpecType::Union(s),
                    p@ == spec_peel(leaf@),
                    type_height(spec_peel(leaf@)) <= type_height(leaf@),
                    forall|j: int| 0 <= j < ms.len() ==> #[trigger] s[j] == view_type(ms@[j]),
                    forall|j: int| 0 <= j < s.len() ==> type_height(#[trigger] s[j]) <= seq_height(s),
                    !spec_some_may_equal(s.take(i as int), literal@),
                decreases ms.len() - i,
            {
                proof {
                    assert(s.take(i + 1).drop_last() =~= s.take(i as int));
                    assert(s.take(i + 1).last() == s[i as int]);
                    assert(type_height(ms@[i as int]@) < type_height(leaf@));
                }
                if may_equal_literal(&ms[i], literal) {
                    proof {
                        lemma_some_may_equal_prefix(s, literal@, i as int);
                    }
                    return true;
                }
                i = i + 1;
            }
            assert(s.take(ms.len() as int) =~= s);
            false
        },
        Type::StringLiteral(_) | Type::NumberLiteral(_) | Type::BooleanLiteral(_)
        | Type::Undefined => type_eq(p, literal),
        Type::String => matches!(literal, Type::StringLiteral(_)),
        Type::Number => matches!(literal, Type::NumberLiteral(_)),
        Type::Boolean => matches!(literal, Type::BooleanLiteral(_)),
        _ => true,
    }
}

proof fn lemma_some_may_equal_prefix(s: Seq<SpecType>, literal: SpecType, i: int)
    requires
        0 <= i < s.len(),
        spec_may_equal_literal(s[i], literal),
    ensures
        spec_some_may_equal(s, literal),
    decreases s.len(),
{
    if i < s.len() - 1 {
        assert(s.drop_last()[i] == s[i]);
        lemma_some_may_equal_prefix(s.drop_last(), literal, i);
    }
}

/// `base` followed by the first `k` segments of `path`, joined with `.`.
pub open spec fn spec_joined_prefix(base: Seq<char>, path: Seq<Seq<char>>, k: int) -> Seq<char>
    decreases k,
{
    if k <= 0 {
        base
    } else {
        spec_joined_prefix(base, path, k - 1) + seq!['.'] + path[k - 1]
    }
}

/// The first position from `k` on at which the joined prefix of `path` reads
/// `var_name`.
pub open spec fn spec_first_prefix_match(base: Seq<char>, path: Seq<Seq<char>>, var_name: Seq<char>, k: int) -> Option<int>
    decreases path.len() - k,
{
    if k < 0 || k >= path.len() {
        None
    } else if spec_joined_prefix(base, path, k) == var_name {
        Some(k)
    } else {
        spec_first_prefix_match(base, path, var_name, k + 1)
    }
}

/// The property path from `var_name` down to `reference`, when `reference`
/// is a non-empty member access rooted at that name: `r.a.b` below `r` is
/// `[a, b]`, below `r.a` it is `[b]`.
pub open spec fn spec_property_path_below(reference: Expr, var_name: Seq<char>) -> Option<Seq<Seq<char>>> {
    match spec_reference_path(reference) {
        Some((base, path)) => match spec_first_prefix_match(base, path, var_name, 0) {
            Some(k) => Some(path.skip(k)),
            None => None,
        },
        None => None,
    }
}

/// See [`spec_property_path_below`].
pub fn property_path_below(reference: &Expr, var_name: &str) -> (r: Option<Vec<String>>)
    ensures
        match r {
            Some(p) => spec_property_path_below(*reference, var_name@) == Some(view_strings(p@)),
            None => spec_property_path_below(*reference, var_name@) is None,
        },
{
    let (base, path) = match reference_path(reference) {
        Some(bp) => bp,
        None => return None,
    };
    let ghost vpath = view_strings(path@);
    let target = chars_of(var_name);
    let mut prefix = base;
    let mut index: usize = 0;
    while index < path.len()
        invariant
            0 <= index <= path.len(),
            vpath == view_strings(path@),
            vpath.len() == path.len(),
            target@ == var_name@,
            prefix@ == spec_joined_prefix(base@, vpath, index as int),
            spec_first_prefix_match(base@, vpath, var_name@, 0) == spec_first_prefix_match(
                base@,
                vpath,
                var_name@,
                index as int,
            ),
            spec_reference_path(*reference) == Some((base@, vpath)),
        decreases path.len() - index,
    {
        let current = chars_of(prefix.as_str());
        if chars_eq(&current, &target) {
            let mut rest: Vec<String> = Vec::new();
            let mut j: usize = index;
            while j < path.len()
                invariant
                    index <= j <= path.len(),
                    vpath == view_strings(path@),
                    vpath.len() == path.len(),
                    view_strings(rest@) == vpath.subrange(index as int, j as int),
                decreases path.len() - j,
            {
                let ghost before = rest@;
                assert(vpath[j as int] == path@[j as int]@);
                let item = path[j].clone();
                rest.push(item);
                assert(view_strings(rest@) =~= view_strings(before).push(item@));
                assert(vpath.subrange(index as int, j + 1) =~= vpath.subrange(index as int, j as int).push(vpath[j as int]));
                j = j + 1;
            }
            assert(vpath.subrange(index as int, path.len() as int) =~= vpath.skip(index as int));
            return Some(rest);
        }
        prefix.append(".");
        proof {
            reveal_strlit(".");
        }
        prefix.append(path[index].as_str());
        index = index + 1;
    }
    None
}


/// The binding whose property a single guard tests for truthiness or
/// nullishness: the root of the reference (`env` of `env.result.type`, or of
/// `env.result == null`), when at least one property is read off it and it is
/// not `this`.
pub open spec fn spec_property_guard_base(condition: Expr) -> Option<Seq<char>> {
    let reference = match spec_parse_nullish_equality_condition(condition) {
        Some((r, _, _)) => r,
        None => condition,
    };
    match spec_reference_path(reference) {
        Some((base, path)) => if path.len() > 0 && base != this_name() {
            Some(base)
        } else {
            None
        },
        None => None,
    }
}

/// The bindings whose properties a `||`/`&&`/`!`-composed condition tests,
/// first occurrence first, appended to `acc`.
pub open spec fn spec_collect_property_guard_bases(condition: Expr, acc: Seq<Seq<char>>) -> Seq<Seq<char>>
    decreases condition,
{
    match condition {
        Expr::Logical { left, operator, right } => if operator == LogicalOperator::Or || operator
            == LogicalOperator::And {
            spec_collect_property_guard_bases(*right, spec_collect_property_guard_bases(*left, acc))
        } else {
            spec_property_guard_leaf(condition, acc)
        },
        Expr::Unary { operator, operand } => if operator == UnaryOperator::Not {
            spec_collect_property_guard_bases(*operand, acc)
        } else {
            spec_property_guard_leaf(condition, acc)
        },
        _ => spec_property_guard_leaf(condition, acc),
    }
}

/// A single guard's property base appended to `acc`.
pub open spec fn spec_property_guard_leaf(condition: Expr, acc: Seq<Seq<char>>) -> Seq<Seq<char>> {
    match spec_property_guard_base(condition) {
        Some(base) => spec_push_unique(acc, base),
        None => acc,
    }
}

fn property_guard_leaf(condition: &Expr, names: &mut Vec<String>)
    ensures
        view_strings(final(names)@) == spec_property_guard_leaf(
            *condition,
            view_strings(old(names)@),
        ),
{
    let reference = match parse_nullish_equality_condition(condition) {
        Some((r, _, _)) => r,
        None => condition,
    };
    if let Some((base, path)) = reference_path(reference) {
        let this = this_string();
        let is_this = chars_eq(&chars_of(base.as_str()), &chars_of(this.as_str()));
        if path.len() > 0 && !is_this {
            proof {
                assert(view_strings(path@).len() == path@.len());
            }
            push_unique(names, base);
        } else {
            proof {
                assert(view_strings(path@).len() == path@.len());
            }
        }
    }
}

/// See [`spec_collect_property_guard_bases`].
pub fn collect_property_guard_bases(condition: &Expr, names: &mut Vec<String>)
    ensures
        view_strings(final(names)@) == spec_collect_property_guard_bases(
            *condition,
            view_strings(old(names)@),
        ),
    decreases condition,
{
    match condition {
        Expr::Logical { left, operator, right } => {
            if *operator == LogicalOperator::Or || *operator == LogicalOperator::And {
                collect_property_guard_bases(left, names);
                collect_property_guard_bases(right, names);
            } else {
                property_guard_leaf(condition, names);
            }
        },
        Expr::Unary { operator, operand } => {
            if *operator == UnaryOperator::Not {
                collect_property_guard_bases(operand, names);
            } else {
                property_guard_leaf(condition, names);
            }
        },
        _ => property_guard_leaf(condition, names),
    }
}

/// The views of compared roots: each binding's name with its type.
pub open spec fn view_roots(roots: Seq<(String, Type)>) -> Seq<(Seq<char>, SpecType)> {
    roots.map_values(|r: (String, Type)| (r.0@, r.1@))
}

/// `roots` with the binding `root` and its type in `table` appended, unless
/// a root of that name is there already or `table` does not bind it.
pub open spec fn spec_add_root(roots: Seq<(Seq<char>, SpecType)>, root: Seq<char>, table: SymbolTable) -> Seq<(Seq<char>, SpecType)> {
    if exists|k: int| 0 <= k < roots.len() && #[trigger] roots[k].0 == root {
        roots
    } else {
        match spec_get(table, root) {
            Some(symbol) => roots.push((root, symbol.ty)),
            None => roots,
        }
    }
}

/// The root of a compared operand added to `roots`, when the operand is a
/// reference.
pub open spec fn spec_add_operand_root(roots: Seq<(Seq<char>, SpecType)>, operand: Expr, table: SymbolTable) -> Seq<(Seq<char>, SpecType)> {
    match spec_reference_path(operand) {
        Some((root, _)) => spec_add_root(roots, root, table),
        None => roots,
    }
}

/// The roots a single equality test compares, left operand first.
pub open spec fn spec_compared_leaf(condition: Expr, table: SymbolTable, roots: Seq<(Seq<char>, SpecType)>) -> Seq<(Seq<char>, SpecType)> {
    match spec_parse_equality_test(condition) {
        Some((left, right, _, _)) => spec_add_operand_root(
            spec_add_operand_root(roots, left, table),
            right,
            table,
        ),
        None => roots,
    }
}

/// The roots of the operands every equality test in a `||`/`&&`/`!`-composed
/// condition (through comparisons with a boolean literal) compares, with
/// their types in `table`, appended to `roots`.
pub open spec fn spec_collect_compared_operand_roots(condition: Expr, table: SymbolTable, roots: Seq<(Seq<char>, SpecType)>) -> Seq<(Seq<char>, SpecType)>
    decreases condition,
{
    match condition {
        Expr::Logical { left, operator, right } => if operator == LogicalOperator::Or || operator
            == LogicalOperator::And {
            spec_collect_compared_operand_roots(
                *right,
                table,
                spec_collect_compared_operand_roots(*left, table, roots),
            )
        } else {
            spec_compared_leaf(condition, table, roots)
        },
        Expr::Unary { operator, operand } => if operator == UnaryOperator::Not {
            spec_collect_compared_operand_roots(*operand, table, roots)
        } else {
            spec_compared_leaf(condition, table, roots)
        },
        Expr::Binary { left, right, .. } => match spec_strip_boolean_literal_comparison(condition) {
            Some((side, _)) => if side == Side::Left {
                spec_collect_compared_operand_roots(*left, table, roots)
            } else {
                spec_collect_compared_operand_roots(*right, table, roots)
            },
            None => spec_compared_leaf(condition, table, roots),
        },
        _ => spec_compared_leaf(condition, table, roots),
    }
}

fn add_operand_root(operand: &Expr, symbols: &SymbolTable, roots: &mut Vec<(String, Type)>)
    ensures
        view_roots(final(roots)@) == spec_add_operand_root(view_roots(old(roots)@), *operand, *symbols),
{
    let root = match reference_path(operand) {
        Some((root, _)) => root,
        None => return,
    };
    let ghost before = view_roots(roots@);
    assert(spec_add_operand_root(before, *operand, *symbols) == spec_add_root(before, root@, *symbols));
    let target = chars_of(root.as_str());
    let mut i: usize = 0;
    while i < roots.len()
        invariant
            0 <= i <= roots.len(),
            before == view_roots(roots@),
            spec_add_operand_root(before, *operand, *symbols) == spec_add_root(before, root@, *symbols),
            target@ == root@,
            forall|k: int| 0 <= k < i ==> #[trigger] before[k].0 != root@,
        decreases roots.len() - i,
    {
        let existing = chars_of(roots[i].0.as_str());
        assert(before[i as int].0 == roots@[i as int].0@);
        if chars_eq(&existing, &target) {
            assert(before[i as int].0 == root@);
            return;
        }
        i = i + 1;
    }
    assert(!exists|k: int| 0 <= k < before.len() && #[trigger] before[k].0 == root@);
    match symbols.get(root.as_str()) {
        Some(symbol) => {
            let ty = copy_type(&symbol.ty);
            roots.push((root, ty));
            assert(view_roots(roots@) =~= before.push((root@, symbol.ty@)));
        },
        None => {},
    }
}

fn compared_leaf(condition: &Expr, symbols: &SymbolTable, roots: &mut Vec<(String, Type)>)
    ensures
        view_roots(final(roots)@) == spec_compared_leaf(*condition, *symbols, view_roots(old(roots)@)),
{
    if let Some(test) = parse_equality_test(condition) {
        let (first, second) = test.operand_pairs();
        add_operand_root(first.0, symbols, roots);
        add_operand_root(second.0, symbols, roots);
    }
}

/// See [`spec_collect_compared_operand_roots`]; `symbols` are the bindings
/// visible at the condition.
pub fn collect_compared_operand_roots(condition: &Expr, symbols: &SymbolTable, roots: &mut Vec<(String, Type)>)
    ensures
        view_roots(final(roots)@) == spec_collect_compared_operand_roots(
            *condition,
            *symbols,
            view_roots(old(roots)@),
        ),
    decreases condition,
{
    match condition {
        Expr::Logical { left, operator, right } => {
            if *operator == LogicalOperator::Or || *operator == LogicalOperator::And {
                collect_compared_operand_roots(left, symbols, roots);
                collect_compared_operand_roots(right, symbols, roots);
            } else {
                compared_leaf(condition, symbols, roots);
            }
        },
        Expr::Unary { operator, operand } => {
            if *operator == UnaryOperator::Not {
                collect_compared_operand_roots(operand, symbols, roots);
            } else {
                compared_leaf(condition, symbols, roots);
            }
        },
        Expr::Binary { left, right, .. } => {
            match strip_side(condition) {
                Some((side, _)) => {
                    if side == Side::Left {
                        collect_compared_operand_roots(left, symbols, roots);
                    } else {
                        collect_compared_operand_roots(right, symbols, roots);
                    }
                },
                None => compared_leaf(condition, symbols, roots),
            }
        },
        _ => compared_leaf(condition, symbols, roots),
    }
}


/// The identifier a single equality guard tests: the object of a
/// discriminant test (`x.kind === "a"`), the operand of a nullish test
/// (`x === null`), or the identifier compared with a literal; constants
/// resolve through `table`.
pub open spec fn spec_equality_guard_subject(condition: Expr, table: SymbolTable) -> Option<Seq<char>> {
    match spec_parse_discriminant_condition(condition, table) {
        Some((Expr::Identifier(name), _, _, _)) => Some(name@),
        _ => match spec_parse_nullish_equality_condition(condition) {
            Some((Expr::Identifier(name), _, _)) => Some(name@),
            _ => match spec_parse_identifier_literal_equality(condition, table) {
                Some((name, _, _)) => Some(name),
                None => None,
            },
        },
    }
}

/// The identifiers the equality guards of a `||`/`&&`/`!`-composed condition
/// test, first occurrence first, appended to `acc`.
pub open spec fn spec_collect_equality_guard_subjects(condition: Expr, table: SymbolTable, acc: Seq<Seq<char>>) -> Seq<Seq<char>>
    decreases condition,
{
    match condition {
        Expr::Unary { operator, operand } => if operator == UnaryOperator::Not {
            spec_collect_equality_guard_subjects(*operand, table, acc)
        } else {
            spec_equality_subject_leaf(condition, table, acc)
        },
        Expr::Logical { left, operator, right } => if operator == LogicalOperator::Or || operator
            == LogicalOperator::And {
            spec_collect_equality_guard_subjects(
                *right,
                table,
                spec_collect_equality_guard_subjects(*left, table, acc),
            )
        } else {
            spec_equality_subject_leaf(condition, table, acc)
        },
        _ => spec_equality_subject_leaf(condition, table, acc),
    }
}

/// A single guard's tested identifier appended to `acc`.
pub open spec fn spec_equality_subject_leaf(condition: Expr, table: SymbolTable, acc: Seq<Seq<char>>) -> Seq<Seq<char>> {
    match spec_equality_guard_subject(condition, table) {
        Some(name) => spec_push_unique(acc, name),
        None => acc,
    }
}

fn equality_guard_subject<'a>(condition: &'a Expr, symbols: &SymbolTable) -> (r: Option<&'a str>)
    ensures
        match r {
            Some(n) => spec_equality_guard_subject(*condition, *symbols) == Some(n@),
            None => spec_equality_guard_subject(*condition, *symbols) is None,
        },
{
    if let Some((object, _, _, _)) = parse_discriminant_condition_with(condition, symbols) {
        if let Expr::Identifier(name) = object {
            return Some(name.as_str());
        }
    }
    if let Some((operand, _, _)) = parse_nullish_equality_condition(condition) {
        if let Expr::Identifier(name) = operand {
            return Some(name.as_str());
        }
    }
    match parse_identifier_literal_equality(condition, symbols) {
        Some((name, _, _)) => Some(name),
        None => None,
    }
}

fn equality_subject_leaf(condition: &Expr, symbols: &SymbolTable, names: &mut Vec<String>)
    ensures
        view_strings(final(names)@) == spec_equality_subject_leaf(
            *condition,
            *symbols,
            view_strings(old(names)@),
        ),
{
    if let Some(name) = equality_guard_subject(condition, symbols) {
        push_unique(names, name.to_string());
    }
}

/// See [`spec_collect_equality_guard_subjects`]; `symbols` are the bindings
/// visible at the condition.
pub fn collect_equality_guard_subjects(condition: &Expr, symbols: &SymbolTable, names: &mut Vec<String>)
    ensures
        view_strings(final(names)@) == spec_collect_equality_guard_subjects(
            *condition,
            *symbols,
            view_strings(old(names)@),
        ),
    decreases condition,
{
    match condition {
        Expr::Unary { operator, operand } => {
            if *operator == UnaryOperator::Not {
                collect_equality_guard_subjects(operand, symbols, names);
            } else {
                equality_subject_leaf(condition, symbols, names);
            }
        },
        Expr::Logical { left, operator, right } => {
            if *operator == LogicalOperator::Or || *operator == LogicalOperator::And {
                collect_equality_guard_subjects(left, symbols, names);
                collect_equality_guard_subjects(right, symbols, names);
            } else {
                equality_subject_leaf(condition, symbols, names);
            }
        },
        _ => equality_subject_leaf(condition, symbols, names),
    }
}

} // verus!
