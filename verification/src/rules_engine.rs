//! The rules engine: conditions over a document, and the actions of the
//! first rule whose condition holds.
use vstd::prelude::*;
use crate::json::{
    chars_of,
    Json, JsonV, NumV, NumOrder, f64_order, order_as_f64, json_equal, json_eq, jstr,
};
use crate::text::{starts_with, strs_view, has_prefix, concat, concat3, occurs_at};
use crate::types::{
    Operator, RuleCondition, ConditionV, RuleAction, ActionV, Rule, actions_view,
};
use crate::mapper::{Mapper, reach_safe, get_path, set_path, map_err_text, is_path_safe, unit_res};

verus! {

/// Why evaluating rules failed.
#[derive(Debug)]
pub enum RulesEngineError {
    FieldNotFound(String),
    TypeMismatch(String),
    EvaluationError(String),
    ActionError(String),
}

/// The mathematical value of a rules error.
pub enum RuleErr {
    FieldNotFound(Seq<char>),
    TypeMismatch(Seq<char>),
    EvaluationError(Seq<char>),
    ActionError(Seq<char>),
}

impl View for RulesEngineError {
    type V = RuleErr;

    open spec fn view(&self) -> RuleErr {
        match self {
            RulesEngineError::FieldNotFound(s) => RuleErr::FieldNotFound(s@),
            RulesEngineError::TypeMismatch(s) => RuleErr::TypeMismatch(s@),
            RulesEngineError::EvaluationError(s) => RuleErr::EvaluationError(s@),
            RulesEngineError::ActionError(s) => RuleErr::ActionError(s@),
        }
    }
}

/// The text of a rules error.
pub open spec fn rule_err_text(e: RuleErr) -> Seq<char> {
    match e {
        RuleErr::FieldNotFound(s) => "Field not found: "@ + s,
        RuleErr::TypeMismatch(s) => "Type mismatch: "@ + s,
        RuleErr::EvaluationError(s) => "Evaluation error: "@ + s,
        RuleErr::ActionError(s) => "Action execution error: "@ + s,
    }
}

impl RulesEngineError {
    /// The text of the error.
    pub fn message(&self) -> (s: String)
        ensures
            s@ == rule_err_text(self@),
    {
        match self {
            RulesEngineError::FieldNotFound(s) => concat("Field not found: ", s.as_str()),
            RulesEngineError::TypeMismatch(s) => concat("Type mismatch: ", s.as_str()),
            RulesEngineError::EvaluationError(s) => concat("Evaluation error: ", s.as_str()),
            RulesEngineError::ActionError(s) => concat("Action execution error: ", s.as_str()),
        }
    }
}

/// The mathematical value of a yes/no result.
pub open spec fn bool_rres(r: Result<bool, RulesEngineError>) -> Result<bool, RuleErr> {
    match r {
        Ok(b) => Ok(b),
        Err(e) => Err(e@),
    }
}

// ---------------------------------------------------------------------------
// Outside functions.

/// Does a regular expression compile (as `regex::Regex::new` decides)?
pub uninterp spec fn regex_compiles(pattern: Seq<char>) -> bool;

/// Does a regular expression match somewhere in a text (as `Regex::is_match` decides)?
pub uninterp spec fn regex_finds(pattern: Seq<char>, text: Seq<char>) -> bool;

/// The text of the error that `regex::Regex::new` gives for a pattern.
pub uninterp spec fn regex_error(pattern: Seq<char>) -> Seq<char>;

/// Compiles `pattern` with `regex::Regex::new` and tests `text` with
/// `is_match`. Whether it compiles, the error's text and whether it
/// matches are named.
#[verifier::external_body]
pub(crate) fn regex_match(pattern: &str, text: &str) -> (r: Result<bool, String>)
    ensures
        r is Ok <==> regex_compiles(pattern@),
        r matches Ok(b) ==> b == regex_finds(pattern@, text@),
        r matches Err(m) ==> m@ == regex_error(pattern@),
{
    match regex::Regex::new(pattern) {
        Ok(re) => Ok(re.is_match(text)),
        Err(e) => Err(e.to_string()),
    }
}

/// Does `p` occur somewhere in `s`?
pub open spec fn contains_text(s: Seq<char>, p: Seq<char>) -> bool {
    exists|i: int| 0 <= i <= s.len() - p.len() && #[trigger] s.subrange(i, i + p.len()) == p
}

/// Does `s` end with `p`?
pub open spec fn ends_with(s: Seq<char>, p: Seq<char>) -> bool {
    p.len() <= s.len() && s.skip(s.len() - p.len()) == p
}

/// Does `p` occur in `s`, as `str::contains` says?
pub(crate) fn text_contains(s: &str, p: &str) -> (r: bool)
    ensures
        r == contains_text(s@, p@),
{
    let a = chars_of(s);
    let b = chars_of(p);
    if b.len() > a.len() {
        return false;
    }
    let last = a.len() - b.len();
    let mut i: usize = 0;
    while i <= last
        invariant
            a@ == s@,
            b@ == p@,
            last == a@.len() - b@.len(),
            i <= last + 1,
            forall|j: int| 0 <= j < i ==> #[trigger] a@.subrange(j, j + b@.len()) != b@,
        decreases last + 1 - i,
    {
        if occurs_at(&a, &b, i) {
            return true;
        }
        if i == last {
            return false;
        }
        i = i + 1;
    }
    false
}

/// Does `s` end with `p`, as `str::ends_with` says?
pub(crate) fn text_ends_with(s: &str, p: &str) -> (r: bool)
    ensures
        r == ends_with(s@, p@),
{
    let a = chars_of(s);
    let b = chars_of(p);
    if b.len() > a.len() {
        return false;
    }
    let start = a.len() - b.len();
    let r = occurs_at(&a, &b, start);
    assert(a@.subrange(start as int, start + b@.len()) =~= a@.skip(start as int));
    r
}

// ---------------------------------------------------------------------------
// Conditions.

/// A numeric comparison of two values as `f64`.
pub open spec fn numbers_compare(a: JsonV, b: JsonV, op: Operator) -> Result<bool, RuleErr> {
    match (a, b) {
        (JsonV::Num(x), JsonV::Num(y)) => {
            let o = f64_order(x, y);
            Ok(
                match op {
                    Operator::GreaterThan => o == NumOrder::Greater,
                    Operator::LessThan => o == NumOrder::Less,
                    Operator::GreaterThanOrEqual => o == NumOrder::Greater || o == NumOrder::Equal,
                    _ => o == NumOrder::Less || o == NumOrder::Equal,
                },
            )
        },
        _ => Err(RuleErr::TypeMismatch("Expected numeric value"@)),
    }
}

/// Does the array hold a value equal to `x` (as serde_json compares values)?
pub open spec fn array_has(a: Seq<JsonV>, x: JsonV) -> bool {
    exists|i: int| 0 <= i < a.len() && json_eq(#[trigger] a[i], x)
}

/// The outcome of comparing a field's value with an expected value.
pub open spec fn compare_field(field: JsonV, op: Operator, expected: JsonV) -> Result<bool, RuleErr> {
    match op {
        Operator::Equals => Ok(json_eq(field, expected)),
        Operator::NotEquals => Ok(!json_eq(field, expected)),
        Operator::GreaterThan | Operator::LessThan | Operator::GreaterThanOrEqual
        | Operator::LessThanOrEqual => numbers_compare(field, expected, op),
        Operator::Contains => match (jstr(field), jstr(expected)) {
            (Some(f), Some(e)) => Ok(contains_text(f, e)),
            _ => Err(RuleErr::TypeMismatch("Contains requires string values"@)),
        },
        Operator::StartsWith => match (jstr(field), jstr(expected)) {
            (Some(f), Some(e)) => Ok(starts_with(f, e)),
            _ => Err(RuleErr::TypeMismatch("StartsWith requires string values"@)),
        },
        Operator::EndsWith => match (jstr(field), jstr(expected)) {
            (Some(f), Some(e)) => Ok(ends_with(f, e)),
            _ => Err(RuleErr::TypeMismatch("EndsWith requires string values"@)),
        },
        Operator::Regex => match (jstr(field), jstr(expected)) {
            (Some(f), Some(p)) => if regex_compiles(p) {
                Ok(regex_finds(p, f))
            } else {
                Err(RuleErr::EvaluationError(regex_error_text(p)))
            },
            _ => Err(RuleErr::TypeMismatch("Regex requires string values"@)),
        },
        Operator::In => match expected {
            JsonV::Arr(a) => Ok(array_has(a, field)),
            _ => Err(RuleErr::TypeMismatch("In operator requires array value"@)),
        },
        Operator::NotIn => match expected {
            JsonV::Arr(a) => Ok(!array_has(a, field)),
            _ => Err(RuleErr::TypeMismatch("NotIn operator requires array value"@)),
        },
        Operator::IsNull => Ok(field is Null),
        Operator::IsNotNull => Ok(!(field is Null)),
    }
}

/// The message of a regular expression that does not compile.
pub open spec fn regex_error_text(p: Seq<char>) -> Seq<char> {
    "Invalid regex: "@ + regex_error(p)
}

/// The outcome of a condition on a field.
pub open spec fn field_holds(input: JsonV, path: Seq<char>, op: Operator, expected: JsonV) -> Result<
    bool,
    RuleErr,
> {
    match get_path(input, path) {
        Err(_) => Err(RuleErr::FieldNotFound(path)),
        Ok(field) => compare_field(field, op, expected),
    }
}

/// The outcome of a condition.
pub open spec fn cond_holds(c: ConditionV, input: JsonV) -> Result<bool, RuleErr>
    decreases c,
{
    match c {
        ConditionV::Field(path, op, expected) => field_holds(input, path, op, expected),
        ConditionV::And(cs) => all_hold(cs, input),
        ConditionV::Or(cs) => any_holds(cs, input),
        ConditionV::Not(b) => match cond_holds(*b, input) {
            Ok(x) => Ok(!x),
            Err(e) => Err(e),
        },
    }
}

/// Conditions in order until one fails or is false.
pub open spec fn all_hold(cs: Seq<ConditionV>, input: JsonV) -> Result<bool, RuleErr>
    decreases cs,
{
    if cs.len() == 0 {
        Ok(true)
    } else {
        match all_hold(cs.drop_last(), input) {
            Ok(true) => cond_holds(cs.last(), input),
            other => other,
        }
    }
}

/// Conditions in order until one fails or is true.
pub open spec fn any_holds(cs: Seq<ConditionV>, input: JsonV) -> Result<bool, RuleErr>
    decreases cs,
{
    if cs.len() == 0 {
        Ok(false)
    } else {
        match any_holds(cs.drop_last(), input) {
            Ok(false) => cond_holds(cs.last(), input),
            other => other,
        }
    }
}

/// Evaluating the condition reads only paths that are safe to read.
pub open spec fn cond_safe(c: ConditionV, input: JsonV) -> bool
    decreases c,
{
    match c {
        ConditionV::Field(path, _, _) => reach_safe(input, path),
        ConditionV::And(cs) => all_safe(cs, input),
        ConditionV::Or(cs) => any_safe(cs, input),
        ConditionV::Not(b) => cond_safe(*b, input),
    }
}

/// The conditions that an `and` evaluates read only safe paths.
pub open spec fn all_safe(cs: Seq<ConditionV>, input: JsonV) -> bool
    decreases cs,
{
    if cs.len() == 0 {
        true
    } else {
        all_safe(cs.drop_last(), input) && (all_hold(cs.drop_last(), input) == Ok::<bool, RuleErr>(
            true,
        ) ==> cond_safe(cs.last(), input))
    }
}

/// The conditions that an `or` evaluates read only safe paths.
pub open spec fn any_safe(cs: Seq<ConditionV>, input: JsonV) -> bool
    decreases cs,
{
    if cs.len() == 0 {
        true
    } else {
        any_safe(cs.drop_last(), input) && (any_holds(cs.drop_last(), input) == Ok::<bool, RuleErr>(
            false,
        ) ==> cond_safe(cs.last(), input))
    }
}


/// Evaluates rule conditions and runs rule actions.
pub struct RulesEngine;

/// Does the array hold a value equal to `x`?
fn array_contains(a: &Vec<Json>, x: &Json) -> (r: bool)
    ensures
        r == array_has(Seq::new(a@.len(), |i: int| a@[i]@), x@),
{
    let ghost av = Seq::new(a@.len(), |i: int| a@[i]@);
    let n = a.len();
    let mut i: usize = 0;
    while i < n
        invariant
            n == a@.len(),
            av == Seq::new(a@.len(), |i: int| a@[i]@),
            i <= n,
            forall|j: int| 0 <= j < i ==> !json_eq(#[trigger] av[j], x@),
        decreases n - i,
    {
        if json_equal(&a[i], x) {
            assert(json_eq(av[i as int], x@));
            return true;
        }
        i = i + 1;
    }
    false
}

impl RulesEngine {
    /// Compares two values as numbers.
    fn compare_numbers(a: &Json, b: &Json, op: Operator) -> (r: Result<bool, RulesEngineError>)
        ensures
            bool_rres(r) == numbers_compare(a@, b@, op),
    {
        match (a, b) {
            (Json::Number(x), Json::Number(y)) => {
                let o = order_as_f64(x, y);
                Ok(
                    match op {
                        Operator::GreaterThan => o == NumOrder::Greater,
                        Operator::LessThan => o == NumOrder::Less,
                        Operator::GreaterThanOrEqual => o == NumOrder::Greater || o
                            == NumOrder::Equal,
                        _ => o == NumOrder::Less || o == NumOrder::Equal,
                    },
                )
            },
            _ => Err(RulesEngineError::TypeMismatch("Expected numeric value".to_owned())),
        }
    }

    /// Compares a field's value with an expected value.
    fn compare_field_value(field_value: &Json, operator: &Operator, expected_value: &Json) -> (r:
        Result<bool, RulesEngineError>)
        ensures
            bool_rres(r) == compare_field(field_value@, *operator, expected_value@),
    {
        match operator {
            Operator::Equals => Ok(json_equal(field_value, expected_value)),
            Operator::NotEquals => Ok(!json_equal(field_value, expected_value)),
            Operator::GreaterThan | Operator::LessThan | Operator::GreaterThanOrEqual
            | Operator::LessThanOrEqual => RulesEngine::compare_numbers(
                field_value,
                expected_value,
                *operator,
            ),
            Operator::Contains => match (field_value.as_str(), expected_value.as_str()) {
                (Some(f), Some(e)) => Ok(text_contains(f, e)),
                _ => Err(RulesEngineError::TypeMismatch("Contains requires string values".to_owned())),
            },
            Operator::StartsWith => match (field_value.as_str(), expected_value.as_str()) {
                (Some(f), Some(e)) => Ok(has_prefix(f, e)),
                _ => Err(
                    RulesEngineError::TypeMismatch("StartsWith requires string values".to_owned()),
                ),
            },
            Operator::EndsWith => match (field_value.as_str(), expected_value.as_str()) {
                (Some(f), Some(e)) => Ok(text_ends_with(f, e)),
                _ => Err(RulesEngineError::TypeMismatch("EndsWith requires string values".to_owned())),
            },
            Operator::Regex => match (field_value.as_str(), expected_value.as_str()) {
                (Some(f), Some(p)) => match regex_match(p, f) {
                    Ok(b) => Ok(b),
                    Err(m) => Err(RulesEngineError::EvaluationError(concat("Invalid regex: ", m.as_str()))),
                },
                _ => Err(RulesEngineError::TypeMismatch("Regex requires string values".to_owned())),
            },
            Operator::In => match expected_value.as_array() {
                Some(arr) => {
                    let b = array_contains(arr, field_value);
                    assert(Seq::new(arr@.len(), |i: int| arr@[i]@) =~= expected_value@->Arr_0);
                    Ok(b)
                },
                None => Err(
                    RulesEngineError::TypeMismatch("In operator requires array value".to_owned()),
                ),
            },
            Operator::NotIn => match expected_value.as_array() {
                Some(arr) => {
                    let b = array_contains(arr, field_value);
                    assert(Seq::new(arr@.len(), |i: int| arr@[i]@) =~= expected_value@->Arr_0);
                    Ok(!b)
                },
                None => Err(
                    RulesEngineError::TypeMismatch("NotIn operator requires array value".to_owned()),
                ),
            },
            Operator::IsNull => Ok(field_value.is_null()),
            Operator::IsNotNull => Ok(!field_value.is_null()),
        }
    }

    /// Evaluates a condition on one field of the input.
    fn evaluate_field_condition(
        input: &Json,
        path: &str,
        operator: &Operator,
        expected_value: &Json,
    ) -> (r: Result<bool, RulesEngineError>)
        requires
            reach_safe(input@, path@),
        ensures
            bool_rres(r) == field_holds(input@, path@, *operator, expected_value@),
    {
        let field_value = match Mapper::get_value_at_path(input, path) {
            Ok(v) => v,
            Err(_) => return Err(RulesEngineError::FieldNotFound(path.to_owned())),
        };
        RulesEngine::compare_field_value(&field_value, operator, expected_value)
    }

    /// Evaluates a rule condition against input data.
    #[verifier::loop_isolation(false)]
    pub fn evaluate_condition(condition: &RuleCondition, input: &Json) -> (r: Result<
        bool,
        RulesEngineError,
    >)
        requires
            cond_safe(condition@, input@),
        ensures
            bool_rres(r) == cond_holds(condition@, input@),
        decreases condition,
    {
        match condition {
            RuleCondition::Field { path, operator, value } => {
                RulesEngine::evaluate_field_condition(input, path.as_str(), operator, value)
            },
            RuleCondition::And { conditions } => {
                let ghost cs = condition@->And_0;
                let n = conditions.len();
                let mut i: usize = 0;
                assert(cs.take(0) =~= Seq::<ConditionV>::empty());
                while i < n
                    invariant
                        n == conditions@.len(),
                        cs == condition@->And_0,
                        cs.len() == n,
                        forall|j: int| 0 <= j < n ==> #[trigger] cs[j] == conditions@[j]@,
                        all_safe(cs, input@),
                        i <= n,
                        all_hold(cs.take(i as int), input@) == Ok::<bool, RuleErr>(true),
                    decreases n - i,
                {
                    proof {
                        assert(cs.take(i + 1).drop_last() =~= cs.take(i as int));
                        assert(cs.take(i + 1).last() == cs[i as int]);
                        lemma_all_safe_prefix(cs, input@, i + 1);
                    }
                    let r = RulesEngine::evaluate_condition(&conditions[i], input);
                    assert(all_hold(cs.take(i + 1), input@) == cond_holds(cs[i as int], input@));
                    match r {
                        Err(e) => {
                            proof {
                                lemma_all_hold_stuck(cs, input@, i + 1);
                            }
                            return Err(e);
                        },
                        Ok(false) => {
                            proof {
                                lemma_all_hold_stuck(cs, input@, i + 1);
                            }
                            return Ok(false);
                        },
                        Ok(true) => {},
                    }
                    i = i + 1;
                }
                assert(cs.take(n as int) =~= cs);
                Ok(true)
            },
            RuleCondition::Or { conditions } => {
                let ghost cs = condition@->Or_0;
                let n = conditions.len();
                let mut i: usize = 0;
                assert(cs.take(0) =~= Seq::<ConditionV>::empty());
                while i < n
                    invariant
                        n == conditions@.len(),
                        cs == condition@->Or_0,
                        cs.len() == n,
                        forall|j: int| 0 <= j < n ==> #[trigger] cs[j] == conditions@[j]@,
                        any_safe(cs, input@),
                        i <= n,
                        any_holds(cs.take(i as int), input@) == Ok::<bool, RuleErr>(false),
                    decreases n - i,
                {
                    proof {
                        assert(cs.take(i + 1).drop_last() =~= cs.take(i as int));
                        assert(cs.take(i + 1).last() == cs[i as int]);
                        lemma_any_safe_prefix(cs, input@, i + 1);
                    }
                    let r = RulesEngine::evaluate_condition(&conditions[i], input);
                    assert(any_holds(cs.take(i + 1), input@) == cond_holds(cs[i as int], input@));
                    match r {
                        Err(e) => {
                            proof {
                                lemma_any_holds_stuck(cs, input@, i + 1);
                            }
                            return Err(e);
                        },
                        Ok(true) => {
                            proof {
                                lemma_any_holds_stuck(cs, input@, i + 1);
                            }
                            return Ok(true);
                        },
                        Ok(false) => {},
                    }
                    i = i + 1;
                }
                assert(cs.take(n as int) =~= cs);
                Ok(false)
            },
            RuleCondition::Not { condition: inner } => {
                match RulesEngine::evaluate_condition(inner, input) {
                    Ok(b) => Ok(!b),
                    Err(e) => Err(e),
                }
            },
        }
    }
}

/// The safety of a prefix of an `and`'s conditions.
proof fn lemma_all_safe_prefix(cs: Seq<ConditionV>, input: JsonV, k: int)
    requires
        0 <= k <= cs.len(),
        all_safe(cs, input),
    ensures
        all_safe(cs.take(k), input),
    decreases cs.len(),
{
    if k == cs.len() {
        assert(cs.take(k) =~= cs);
    } else {
        assert(cs.drop_last().take(k) =~= cs.take(k));
        lemma_all_safe_prefix(cs.drop_last(), input, k);
    }
}

/// The safety of a prefix of an `or`'s conditions.
proof fn lemma_any_safe_prefix(cs: Seq<ConditionV>, input: JsonV, k: int)
    requires
        0 <= k <= cs.len(),
        any_safe(cs, input),
    ensures
        any_safe(cs.take(k), input),
    decreases cs.len(),
{
    if k == cs.len() {
        assert(cs.take(k) =~= cs);
    } else {
        assert(cs.drop_last().take(k) =~= cs.take(k));
        lemma_any_safe_prefix(cs.drop_last(), input, k);
    }
}

/// Once an `and` fails or is false on a prefix, later conditions change nothing.
proof fn lemma_all_hold_stuck(cs: Seq<ConditionV>, input: JsonV, k: int)
    requires
        0 <= k <= cs.len(),
        all_hold(cs.take(k), input) != Ok::<bool, RuleErr>(true),
    ensures
        all_hold(cs, input) == all_hold(cs.take(k), input),
    decreases cs.len(),
{
    if k == cs.len() {
        assert(cs.take(k) =~= cs);
    } else {
        assert(cs.drop_last().take(k) =~= cs.take(k));
        lemma_all_hold_stuck(cs.drop_last(), input, k);
    }
}

/// Once an `or` fails or is true on a prefix, later conditions change nothing.
proof fn lemma_any_holds_stuck(cs: Seq<ConditionV>, input: JsonV, k: int)
    requires
        0 <= k <= cs.len(),
        any_holds(cs.take(k), input) != Ok::<bool, RuleErr>(false),
    ensures
        any_holds(cs, input) == any_holds(cs.take(k), input),
    decreases cs.len(),
{
    if k == cs.len() {
        assert(cs.take(k) =~= cs);
    } else {
        assert(cs.drop_last().take(k) =~= cs.take(k));
        lemma_any_holds_stuck(cs.drop_last(), input, k);
    }
}

// ---------------------------------------------------------------------------
// Actions.

/// What running one action did.
#[derive(Debug, Clone)]
pub enum RuleActionResult {
    SetField { path: String },
    Transform,
    Branch { flow_id: String },
    SkipBricks { count: usize },
}

/// The mathematical value of an action's result.
pub enum ActionResultV {
    SetField(Seq<char>),
    Transform,
    Branch(Seq<char>),
    SkipBricks(usize),
}

impl View for RuleActionResult {
    type V = ActionResultV;

    open spec fn view(&self) -> ActionResultV {
        match self {
            RuleActionResult::SetField { path } => ActionResultV::SetField(path@),
            RuleActionResult::Transform => ActionResultV::Transform,
            RuleActionResult::Branch { flow_id } => ActionResultV::Branch(flow_id@),
            RuleActionResult::SkipBricks { count } => ActionResultV::SkipBricks(*count),
        }
    }
}

/// The views of a sequence of action results.
pub open spec fn results_view(s: Seq<RuleActionResult>) -> Seq<ActionResultV> {
    Seq::new(s.len(), |i: int| s[i]@)
}

/// The document after running actions in order, and their results; the
/// first failing action stops the run and leaves the document as that
/// action left it.
pub open spec fn run_actions(input: JsonV, acts: Seq<ActionV>) -> (JsonV, Result<
    Seq<ActionResultV>,
    RuleErr,
>)
    decreases acts.len(),
{
    if acts.len() == 0 {
        (input, Ok(Seq::empty()))
    } else {
        let (v, r) = run_actions(input, acts.drop_last());
        match r {
            Err(e) => (v, Err(e)),
            Ok(done) => match acts.last() {
                ActionV::SetField(p, x) => {
                    let (v2, r2) = set_path(v, p, x);
                    match r2 {
                        Ok(_) => (v2, Ok(done.push(ActionResultV::SetField(p)))),
                        Err(e) => (
                            v2,
                            Err(
                                RuleErr::ActionError(
                                    "Failed to set field "@ + p + ": "@ + map_err_text(e),
                                ),
                            ),
                        ),
                    }
                },
                ActionV::Transform(_) => (v, Ok(done.push(ActionResultV::Transform))),
                ActionV::Branch(f) => (v, Ok(done.push(ActionResultV::Branch(f)))),
                ActionV::SkipBricks(n) => (v, Ok(done.push(ActionResultV::SkipBricks(n)))),
            },
        }
    }
}

/// The mathematical value of the results of running actions.
pub open spec fn results_res(r: Result<Vec<RuleActionResult>, RulesEngineError>) -> Result<
    Seq<ActionResultV>,
    RuleErr,
> {
    match r {
        Ok(v) => Ok(results_view(v@)),
        Err(e) => Err(e@),
    }
}

/// Once an action fails, the later ones change nothing.
proof fn lemma_run_actions_stuck(input: JsonV, acts: Seq<ActionV>, k: int)
    requires
        0 <= k <= acts.len(),
        run_actions(input, acts.take(k)).1 is Err,
    ensures
        run_actions(input, acts) == run_actions(input, acts.take(k)),
    decreases acts.len(),
{
    if k == acts.len() {
        assert(acts.take(k) =~= acts);
    } else {
        assert(acts.drop_last().take(k) =~= acts.take(k));
        lemma_run_actions_stuck(input, acts.drop_last(), k);
    }
}

// ---------------------------------------------------------------------------
// Rules.

/// The conditions of a sequence of rules.
pub open spec fn rule_conditions(rules: Seq<Rule>) -> Seq<ConditionV> {
    Seq::new(rules.len(), |i: int| rules[i].condition@)
}

/// The index of the first condition that holds, stopping at the first
/// condition that fails to evaluate.
pub open spec fn first_match(cs: Seq<ConditionV>, input: JsonV) -> Result<Option<int>, RuleErr>
    decreases cs.len(),
{
    if cs.len() == 0 {
        Ok(None)
    } else {
        match first_match(cs.drop_last(), input) {
            Ok(None) => match cond_holds(cs.last(), input) {
                Ok(true) => Ok(Some(cs.len() - 1)),
                Ok(false) => Ok(None),
                Err(e) => Err(e),
            },
            other => other,
        }
    }
}

/// The conditions that the search for a matching rule evaluates read only
/// safe paths.
pub open spec fn match_safe(cs: Seq<ConditionV>, input: JsonV) -> bool
    decreases cs.len(),
{
    if cs.len() == 0 {
        true
    } else {
        match_safe(cs.drop_last(), input) && (first_match(cs.drop_last(), input) == Ok::<
            Option<int>,
            RuleErr,
        >(None) ==> cond_safe(cs.last(), input))
    }
}

/// An `and` whose evaluated prefix is safe and stopped being true is safe.
proof fn lemma_all_safe_extend(cs: Seq<ConditionV>, input: JsonV, k: int)
    requires
        0 <= k <= cs.len(),
        all_safe(cs.take(k), input),
        all_hold(cs.take(k), input) != Ok::<bool, RuleErr>(true),
    ensures
        all_safe(cs, input),
    decreases cs.len(),
{
    if k == cs.len() {
        assert(cs.take(k) =~= cs);
    } else {
        assert(cs.drop_last().take(k) =~= cs.take(k));
        lemma_all_safe_extend(cs.drop_last(), input, k);
        lemma_all_hold_stuck(cs.drop_last(), input, k);
    }
}

/// An `or` whose evaluated prefix is safe and stopped being false is safe.
proof fn lemma_any_safe_extend(cs: Seq<ConditionV>, input: JsonV, k: int)
    requires
        0 <= k <= cs.len(),
        any_safe(cs.take(k), input),
        any_holds(cs.take(k), input) != Ok::<bool, RuleErr>(false),
    ensures
        any_safe(cs, input),
    decreases cs.len(),
{
    if k == cs.len() {
        assert(cs.take(k) =~= cs);
    } else {
        assert(cs.drop_last().take(k) =~= cs.take(k));
        lemma_any_safe_extend(cs.drop_last(), input, k);
        lemma_any_holds_stuck(cs.drop_last(), input, k);
    }
}

/// A search whose evaluated prefix is safe and has stopped is safe.
proof fn lemma_match_safe_extend(cs: Seq<ConditionV>, input: JsonV, k: int)
    requires
        0 <= k <= cs.len(),
        match_safe(cs.take(k), input),
        first_match(cs.take(k), input) != Ok::<Option<int>, RuleErr>(None),
    ensures
        match_safe(cs, input),
    decreases cs.len(),
{
    if k == cs.len() {
        assert(cs.take(k) =~= cs);
    } else {
        assert(cs.drop_last().take(k) =~= cs.take(k));
        lemma_match_safe_extend(cs.drop_last(), input, k);
        lemma_first_match_stuck(cs.drop_last(), input, k);
    }
}

/// The safety of a prefix of the rules.
proof fn lemma_match_safe_prefix(cs: Seq<ConditionV>, input: JsonV, k: int)
    requires
        0 <= k <= cs.len(),
        match_safe(cs, input),
    ensures
        match_safe(cs.take(k), input),
    decreases cs.len(),
{
    if k == cs.len() {
        assert(cs.take(k) =~= cs);
    } else {
        assert(cs.drop_last().take(k) =~= cs.take(k));
        lemma_match_safe_prefix(cs.drop_last(), input, k);
    }
}

/// Once a rule matches or fails, the later rules change nothing.
proof fn lemma_first_match_stuck(cs: Seq<ConditionV>, input: JsonV, k: int)
    requires
        0 <= k <= cs.len(),
        first_match(cs.take(k), input) != Ok::<Option<int>, RuleErr>(None),
    ensures
        first_match(cs, input) == first_match(cs.take(k), input),
    decreases cs.len(),
{
    if k == cs.len() {
        assert(cs.take(k) =~= cs);
    } else {
        assert(cs.drop_last().take(k) =~= cs.take(k));
        lemma_first_match_stuck(cs.drop_last(), input, k);
    }
}

impl RulesEngine {
    /// Runs rule actions on the input, in order.
    pub fn execute_actions(actions: &[RuleAction], input: &mut Json) -> (r: Result<
        Vec<RuleActionResult>,
        RulesEngineError,
    >)
        ensures
            (final(input)@, results_res(r)) == run_actions(old(input)@, actions_view(actions@)),
    {
        let ghost acts = actions_view(actions@);
        let ghost in0 = old(input)@;
        let mut results: Vec<RuleActionResult> = Vec::new();
        let n = actions.len();
        let mut i: usize = 0;
        assert(acts.take(0) =~= Seq::<ActionV>::empty());
        assert(results_view(results@) =~= Seq::<ActionResultV>::empty());
        while i < n
            invariant
                n == actions@.len(),
                acts == actions_view(actions@),
                in0 == old(input)@,
                i <= n,
                run_actions(in0, acts.take(i as int)) == (
                    input@,
                    Ok::<Seq<ActionResultV>, RuleErr>(results_view(results@)),
                ),
            decreases n - i,
        {
            proof {
                assert(acts.take(i + 1).drop_last() =~= acts.take(i as int));
                assert(acts.take(i + 1).last() == acts[i as int]);
            }
            let ghost before = results_view(results@);
            match &actions[i] {
                RuleAction::SetField { path, value } => {
                    let r = Mapper::set_value_at_path(input, path.as_str(), value.copy());
                    match r {
                        Ok(()) => {
                            results.push(RuleActionResult::SetField { path: path.as_str().to_owned() });
                            assert(results_view(results@) =~= before.push(
                                ActionResultV::SetField(path@),
                            ));
                        },
                        Err(e) => {
                            let m = e.message();
                            let msg = concat3("Failed to set field ", path.as_str(), ": ");
                            let full = concat(msg.as_str(), m.as_str());
                            proof {
                                assert(full@ == "Failed to set field "@ + path@ + ": "@
                                    + map_err_text(e@));
                                lemma_run_actions_stuck(in0, acts, i + 1);
                            }
                            return Err(RulesEngineError::ActionError(full));
                        },
                    }
                },
                RuleAction::Transform { transform: _ } => {
                    results.push(RuleActionResult::Transform);
                    assert(results_view(results@) =~= before.push(ActionResultV::Transform));
                },
                RuleAction::Branch { flow_id } => {
                    results.push(RuleActionResult::Branch { flow_id: flow_id.as_str().to_owned() });
                    assert(results_view(results@) =~= before.push(
                        ActionResultV::Branch(flow_id@),
                    ));
                },
                RuleAction::SkipBricks { count } => {
                    results.push(RuleActionResult::SkipBricks { count: *count });
                    assert(results_view(results@) =~= before.push(
                        ActionResultV::SkipBricks(*count),
                    ));
                },
            }
            i = i + 1;
        }
        assert(acts.take(n as int) =~= acts);
        Ok(results)
    }

    /// Does evaluating the condition on the input take apart only safe
    /// path pieces (those that the evaluation reaches)?
    #[verifier::loop_isolation(false)]
    pub fn condition_reach_safe(condition: &RuleCondition, input: &Json) -> (r: bool)
        ensures
            r == cond_safe(condition@, input@),
        decreases condition,
    {
        match condition {
            RuleCondition::Field { path, .. } => Mapper::path_reach_safe(input, path.as_str()),
            RuleCondition::And { conditions } => {
                let ghost cs = condition@->And_0;
                let n = conditions.len();
                let mut i: usize = 0;
                assert(cs.take(0) =~= Seq::<ConditionV>::empty());
                while i < n
                    invariant
                        n == conditions@.len(),
                        cs == condition@->And_0,
                        cs.len() == n,
                        forall|j: int| 0 <= j < n ==> #[trigger] cs[j] == conditions@[j]@,
                        i <= n,
                        all_safe(cs.take(i as int), input@),
                        all_hold(cs.take(i as int), input@) == Ok::<bool, RuleErr>(true),
                    decreases n - i,
                {
                    proof {
                        assert(cs.take(i + 1).drop_last() =~= cs.take(i as int));
                        assert(cs.take(i + 1).last() == cs[i as int]);
                    }
                    if !RulesEngine::condition_reach_safe(&conditions[i], input) {
                        proof {
                            if all_safe(cs, input@) {
                                lemma_all_safe_prefix(cs, input@, i + 1);
                            }
                        }
                        return false;
                    }
                    let e = RulesEngine::evaluate_condition(&conditions[i], input);
                    assert(all_hold(cs.take(i + 1), input@) == cond_holds(cs[i as int], input@));
                    match e {
                        Ok(true) => {},
                        _ => {
                            proof {
                                lemma_all_safe_extend(cs, input@, i + 1);
                            }
                            return true;
                        },
                    }
                    i = i + 1;
                }
                assert(cs.take(n as int) =~= cs);
                true
            },
            RuleCondition::Or { conditions } => {
                let ghost cs = condition@->Or_0;
                let n = conditions.len();
                let mut i: usize = 0;
                assert(cs.take(0) =~= Seq::<ConditionV>::empty());
                while i < n
                    invariant
                        n == conditions@.len(),
                        cs == condition@->Or_0,
                        cs.len() == n,
                        forall|j: int| 0 <= j < n ==> #[trigger] cs[j] == conditions@[j]@,
                        i <= n,
                        any_safe(cs.take(i as int), input@),
                        any_holds(cs.take(i as int), input@) == Ok::<bool, RuleErr>(false),
                    decreases n - i,
                {
                    proof {
                        assert(cs.take(i + 1).drop_last() =~= cs.take(i as int));
                        assert(cs.take(i + 1).last() == cs[i as int]);
                    }
                    if !RulesEngine::condition_reach_safe(&conditions[i], input) {
                        proof {
                            if any_safe(cs, input@) {
                                lemma_any_safe_prefix(cs, input@, i + 1);
                            }
                        }
                        return false;
                    }
                    let e = RulesEngine::evaluate_condition(&conditions[i], input);
                    assert(any_holds(cs.take(i + 1), input@) == cond_holds(cs[i as int], input@));
                    match e {
                        Ok(false) => {},
                        _ => {
                            proof {
                                lemma_any_safe_extend(cs, input@, i + 1);
                            }
                            return true;
                        },
                    }
                    i = i + 1;
                }
                assert(cs.take(n as int) =~= cs);
                true
            },
            RuleCondition::Not { condition: inner } => RulesEngine::condition_reach_safe(inner, input),
        }
    }

    /// Does the search for the first matching rule take apart only safe path
    /// pieces (those that the search reaches)?
    pub fn rules_reach_safe(rules: &[Rule], input: &Json) -> (r: bool)
        ensures
            r == match_safe(rule_conditions(rules@), input@),
    {
        let ghost cs = rule_conditions(rules@);
        let n = rules.len();
        let mut i: usize = 0;
        assert(cs.take(0) =~= Seq::<ConditionV>::empty());
        while i < n
            invariant
                n == rules@.len(),
                cs == rule_conditions(rules@),
                i <= n,
                match_safe(cs.take(i as int), input@),
                first_match(cs.take(i as int), input@) == Ok::<Option<int>, RuleErr>(None),
            decreases n - i,
        {
            proof {
                assert(cs.take(i + 1).drop_last() =~= cs.take(i as int));
                assert(cs.take(i + 1).last() == cs[i as int]);
            }
            if !RulesEngine::condition_reach_safe(&rules[i].condition, input) {
                proof {
                    if match_safe(cs, input@) {
                        lemma_match_safe_prefix(cs, input@, i + 1);
                    }
                }
                return false;
            }
            let e = RulesEngine::evaluate_condition(&rules[i].condition, input);
            match e {
                Ok(false) => {},
                _ => {
                    proof {
                        lemma_match_safe_extend(cs, input@, i + 1);
                    }
                    return true;
                },
            }
            i = i + 1;
        }
        assert(cs.take(n as int) =~= cs);
        true
    }

    /// The first rule whose condition holds on the input, if any.
    pub fn evaluate_rules<'a>(rules: &'a [Rule], input: &Json) -> (r: Result<
        Option<&'a Rule>,
        RulesEngineError,
    >)
        requires
            match_safe(rule_conditions(rules@), input@),
        ensures
            match (r, first_match(rule_conditions(rules@), input@)) {
                (Ok(Some(rule)), Ok(Some(k))) => 0 <= k < rules@.len() && *rule == rules@[k],
                (Ok(None), Ok(None)) => true,
                (Err(e), Err(e2)) => e@ == e2,
                _ => false,
            },
    {
        let ghost cs = rule_conditions(rules@);
        let n = rules.len();
        let mut i: usize = 0;
        assert(cs.take(0) =~= Seq::<ConditionV>::empty());
        while i < n
            invariant
                n == rules@.len(),
                cs == rule_conditions(rules@),
                match_safe(cs, input@),
                i <= n,
                first_match(cs.take(i as int), input@) == Ok::<Option<int>, RuleErr>(None),
            decreases n - i,
        {
            proof {
                assert(cs.take(i + 1).drop_last() =~= cs.take(i as int));
                assert(cs.take(i + 1).last() == cs[i as int]);
                lemma_match_safe_prefix(cs, input@, i + 1);
            }
            let rule = &rules[i];
            let r = RulesEngine::evaluate_condition(&rule.condition, input);
            match r {
                Err(e) => {
                    proof {
                        lemma_first_match_stuck(cs, input@, i + 1);
                    }
                    return Err(e);
                },
                Ok(true) => {
                    proof {
                        lemma_first_match_stuck(cs, input@, i + 1);
                    }
                    return Ok(Some(rule));
                },
                Ok(false) => {},
            }
            i = i + 1;
        }
        assert(cs.take(n as int) =~= cs);
        Ok(None)
    }
}

// ---------------------------------------------------------------------------
// Laws.

/// The rule that matches is the first whose condition holds: every rule
/// before it evaluates to false, and its own condition evaluates to true.
pub proof fn lemma_first_match_is_first(cs: Seq<ConditionV>, input: JsonV)
    ensures
        first_match(cs, input) matches Ok(Some(k)) ==> {
            &&& 0 <= k < cs.len()
            &&& cond_holds(cs[k], input) == Ok::<bool, RuleErr>(true)
            &&& forall|j: int| 0 <= j < k ==> cond_holds(#[trigger] cs[j], input) == Ok::<bool, RuleErr>(false)
        },
        first_match(cs, input) == Ok::<Option<int>, RuleErr>(None) ==> forall|j: int|
            0 <= j < cs.len() ==> cond_holds(#[trigger] cs[j], input) == Ok::<bool, RuleErr>(false),
    decreases cs.len(),
{
    if cs.len() > 0 {
        let init = cs.drop_last();
        lemma_first_match_is_first(init, input);
        assert forall|j: int| 0 <= j < init.len() implies init[j] == cs[j] by {}
    }
}

/// A condition on a field that is found compares the field's value: equal
/// as serde_json compares values, null or not, held in an array or not
/// (`In` and `NotIn` need an array); a field that is not found fails the
/// condition with `FieldNotFound`.
pub proof fn lemma_field_condition(input: JsonV, path: Seq<char>, expected: JsonV)
    ensures
        get_path(input, path) is Err ==> forall|op: Operator|
            #[trigger] cond_holds(ConditionV::Field(path, op, expected), input) == Err::<bool, RuleErr>(
                RuleErr::FieldNotFound(path),
            ),
        get_path(input, path) matches Ok(v) ==> {
            &&& cond_holds(ConditionV::Field(path, Operator::Equals, expected), input) == Ok::<
                bool,
                RuleErr,
            >(json_eq(v, expected))
            &&& cond_holds(ConditionV::Field(path, Operator::NotEquals, expected), input) == Ok::<
                bool,
                RuleErr,
            >(!json_eq(v, expected))
            &&& cond_holds(ConditionV::Field(path, Operator::IsNull, expected), input) == Ok::<
                bool,
                RuleErr,
            >(v is Null)
            &&& cond_holds(ConditionV::Field(path, Operator::IsNotNull, expected), input) == Ok::<
                bool,
                RuleErr,
            >(!(v is Null))
            &&& expected matches JsonV::Arr(a) ==> cond_holds(
                ConditionV::Field(path, Operator::In, expected),
                input,
            ) == Ok::<bool, RuleErr>(array_has(a, v)) && cond_holds(
                ConditionV::Field(path, Operator::NotIn, expected),
                input,
            ) == Ok::<bool, RuleErr>(!array_has(a, v))
            &&& !(expected is Arr) ==> (cond_holds(
                ConditionV::Field(path, Operator::In, expected),
                input,
            ) matches Err(RuleErr::TypeMismatch(_)))
            &&& !(expected is Arr) ==> (cond_holds(
                ConditionV::Field(path, Operator::NotIn, expected),
                input,
            ) matches Err(RuleErr::TypeMismatch(_)))
        },
{
}

/// `NotEquals`, `NotIn` and `IsNotNull` are the negations of `Equals`, `In`
/// and `IsNull`, and a `Not` condition negates its inner condition.
pub proof fn lemma_negations(field: JsonV, expected: JsonV, c: ConditionV, input: JsonV)
    ensures
        compare_field(field, Operator::NotEquals, expected) == Ok::<bool, RuleErr>(
            !json_eq(field, expected),
        ),
        compare_field(field, Operator::Equals, expected) == Ok::<bool, RuleErr>(
            json_eq(field, expected),
        ),
        compare_field(field, Operator::IsNotNull, expected) matches Ok(b) && compare_field(
            field,
            Operator::IsNull,
            expected,
        ) == Ok::<bool, RuleErr>(!b),
        compare_field(field, Operator::In, expected) is Ok <==> compare_field(
            field,
            Operator::NotIn,
            expected,
        ) is Ok,
        compare_field(field, Operator::In, expected) matches Ok(b) ==> compare_field(
            field,
            Operator::NotIn,
            expected,
        ) == Ok::<bool, RuleErr>(!b),
        cond_holds(ConditionV::Not(Box::new(c)), input) == match cond_holds(c, input) {
            Ok(b) => Ok::<bool, RuleErr>(!b),
            Err(e) => Err(e),
        },
{
}

/// The numeric comparisons of a field that is found, with `x` its number and
/// `y` the expected one, compared as `f64` values: `LessThan` holds when `x`
/// is below `y`, `GreaterThan` when it is above; "or equal" holds exactly
/// when the strict comparison holds or the two are equal; for numbers that
/// are ordered, `LessThanOrEqual` is the negation of `GreaterThan` and
/// `GreaterThanOrEqual` the negation of `LessThan`, and exactly one of
/// `LessThan`, equal, `GreaterThan` holds. A comparison with a value that is
/// no number fails with `TypeMismatch`.
pub proof fn lemma_numeric_conditions(input: JsonV, path: Seq<char>, expected: JsonV)
    requires
        get_path(input, path) is Ok,
    ensures
        ({
            let v = get_path(input, path)->Ok_0;
            let lt = cond_holds(ConditionV::Field(path, Operator::LessThan, expected), input);
            let le = cond_holds(ConditionV::Field(path, Operator::LessThanOrEqual, expected), input);
            let gt = cond_holds(ConditionV::Field(path, Operator::GreaterThan, expected), input);
            let ge = cond_holds(
                ConditionV::Field(path, Operator::GreaterThanOrEqual, expected),
                input,
            );
            match (v, expected) {
                (JsonV::Num(x), JsonV::Num(y)) => {
                    let eq = f64_order(x, y) == NumOrder::Equal;
                    &&& lt is Ok && le is Ok && gt is Ok && ge is Ok
                    &&& lt->Ok_0 == (f64_order(x, y) == NumOrder::Less)
                    &&& gt->Ok_0 == (f64_order(x, y) == NumOrder::Greater)
                    &&& le->Ok_0 == (lt->Ok_0 || eq)
                    &&& ge->Ok_0 == (gt->Ok_0 || eq)
                    &&& !(lt->Ok_0 && gt->Ok_0)
                    &&& !(lt->Ok_0 && eq) && !(gt->Ok_0 && eq)
                    &&& f64_order(x, y) != NumOrder::Unordered ==> {
                        &&& le->Ok_0 == !gt->Ok_0
                        &&& ge->Ok_0 == !lt->Ok_0
                        &&& (lt->Ok_0 || eq || gt->Ok_0)
                    }
                },
                _ => {
                    &&& lt matches Err(RuleErr::TypeMismatch(_))
                    &&& le matches Err(RuleErr::TypeMismatch(_))
                    &&& gt matches Err(RuleErr::TypeMismatch(_))
                    &&& ge matches Err(RuleErr::TypeMismatch(_))
                },
            }
        }),
{
}

} // verus!
