//! The brick that runs the rules engine over a payload: the first rule that
//! holds acts on the payload, or the default actions do when none holds.
use vstd::prelude::*;
use crate::json::{Json, JsonV, empty_obj, empty_arr, NumV, jget, obj_insert};
use crate::text::concat;
use crate::types::{BrickType, Rule, RuleAction, ActionV, actions_view};
use crate::rules_engine::{
    RulesEngine, RuleActionResult, ActionResultV, RuleErr, rule_err_text, first_match,
    rule_conditions, match_safe, run_actions, results_view,
};
use crate::brick_traits::{BrickError, BrickErr, json_bres, unit_bres};

verus! {

/// Runs rules over the payload.
pub struct RulesEngineBrick;

/// The default actions of the config: none (absent or empty), the actions,
/// or why they could not be read.
pub enum DefaultActions {
    Absent,
    Parsed(Vec<RuleAction>),
    Invalid(String),
}

/// The mathematical value of the default actions.
pub enum DefaultActionsV {
    Absent,
    Parsed(Seq<ActionV>),
    Invalid(Seq<char>),
}

impl View for DefaultActions {
    type V = DefaultActionsV;

    open spec fn view(&self) -> DefaultActionsV {
        match self {
            DefaultActions::Absent => DefaultActionsV::Absent,
            DefaultActions::Parsed(v) => DefaultActionsV::Parsed(actions_view(v@)),
            DefaultActions::Invalid(s) => DefaultActionsV::Invalid(s@),
        }
    }
}

/// The skip count of the last `SkipBricks` result, if any.
pub open spec fn last_skip(results: Seq<ActionResultV>) -> Option<usize>
    decreases results.len(),
{
    if results.len() == 0 {
        None
    } else {
        match results.last() {
            ActionResultV::SkipBricks(n) => Some(n),
            _ => last_skip(results.drop_last()),
        }
    }
}

/// The output marked with the rule that matched (`null` when none did) and,
/// when an action asked for it, the number of bricks to skip.
pub open spec fn annotated(out: JsonV, name: Option<Seq<char>>, skip: Option<usize>) -> JsonV {
    match out {
        JsonV::Obj(s) => {
            let s1 = obj_insert(
                s,
                "_matched_rule"@,
                match name {
                    Some(n) => JsonV::Str(n),
                    None => JsonV::Null,
                },
            );
            JsonV::Obj(
                match skip {
                    Some(c) => obj_insert(s1, "_skip_bricks"@, JsonV::Num(NumV::Int(c as int))),
                    None => s1,
                },
            )
        },
        other => other,
    }
}

/// The output of the rules brick.
pub open spec fn rules_brick_output(input: JsonV, rules: Seq<Rule>, defaults: DefaultActionsV) -> Result<
    JsonV,
    BrickErr,
> {
    match first_match(rule_conditions(rules), input) {
        Err(e) => Err(BrickErr::ExecutionError("Rule evaluation error: "@ + rule_err_text(e))),
        Ok(Some(k)) => match run_actions(input, actions_view(rules[k].actions@)) {
            (_, Err(e)) => Err(BrickErr::ExecutionError("Action execution error: "@ + rule_err_text(e))),
            (out, Ok(res)) => Ok(annotated(out, Some(rules[k].name@), last_skip(res))),
        },
        Ok(None) => match defaults {
            DefaultActionsV::Absent => Ok(annotated(input, None, None)),
            DefaultActionsV::Invalid(m) => Err(BrickErr::ConfigError("Invalid default actions: "@ + m)),
            DefaultActionsV::Parsed(acts) => match run_actions(input, acts) {
                (_, Err(e)) => Err(
                    BrickErr::ExecutionError("Default action execution error: "@ + rule_err_text(e)),
                ),
                (out, Ok(res)) => Ok(annotated(out, None, last_skip(res))),
            },
        },
    }
}

/// The skip count of the last `SkipBricks` result.
fn find_last_skip(results: &Vec<RuleActionResult>) -> (r: Option<usize>)
    ensures
        r == last_skip(results_view(results@)),
{
    let ghost rv = results_view(results@);
    let mut found: Option<usize> = None;
    let n = results.len();
    let mut i: usize = 0;
    assert(rv.take(0) =~= Seq::<ActionResultV>::empty());
    while i < n
        invariant
            n == results@.len(),
            rv == results_view(results@),
            i <= n,
            found == last_skip(rv.take(i as int)),
        decreases n - i,
    {
        proof {
            assert(rv.take(i + 1).drop_last() =~= rv.take(i as int));
            assert(rv.take(i + 1).last() == results@[i as int]@);
        }
        match &results[i] {
            RuleActionResult::SkipBricks { count } => {
                found = Some(*count);
            },
            _ => {},
        }
        i = i + 1;
    }
    assert(rv.take(n as int) =~= rv);
    found
}

/// Marks the output with the matched rule and the skip count.
fn annotate(out: &mut Json, name: Option<&str>, skip: Option<usize>)
    ensures
        final(out)@ == annotated(
            old(out)@,
            match name {
                Some(n) => Some(n@),
                None => None,
            },
            skip,
        ),
{
    if out.is_object() {
        let tag = match name {
            Some(n) => Json::from_str(n),
            None => Json::Null,
        };
        out.insert_key("_matched_rule".to_owned(), tag);
        match skip {
            Some(c) => {
                out.insert_key("_skip_bricks".to_owned(), Json::from_u64(c as u64));
            },
            None => {},
        }
    }
}

/// The JSON schema of the rules engine brick's configuration.
pub open spec fn rules_schema() -> JsonV {
    let name = empty_obj()
        .entry("type"@, JsonV::Str("string"@))
        .entry("description"@, JsonV::Str("Rule name"@));
    let actions = empty_obj()
        .entry("type"@, JsonV::Str("array"@))
        .entry("description"@, JsonV::Str("Actions to execute if condition matches"@));
    let items_properties = empty_obj()
        .entry("name"@, name)
        .entry("condition"@, empty_obj()
            .entry("description"@, JsonV::Str("Rule condition"@)))
        .entry("actions"@, actions);
    let items = empty_obj()
        .entry("type"@, JsonV::Str("object"@))
        .entry("properties"@, items_properties)
        .entry("required"@, empty_arr()
            .item(JsonV::Str("name"@))
            .item(JsonV::Str("condition"@))
            .item(JsonV::Str("actions"@)));
    let rules = empty_obj()
        .entry("type"@, JsonV::Str("array"@))
        .entry("items"@, items)
        .entry("description"@, JsonV::Str("Array of rules to evaluate"@));
    let default_actions = empty_obj()
        .entry("type"@, JsonV::Str("array"@))
        .entry("description"@, JsonV::Str("Actions to execute if no rules match"@));
    let properties = empty_obj()
        .entry("rules"@, rules)
        .entry("default_actions"@, default_actions);
    empty_obj()
        .entry("type"@, JsonV::Str("object"@))
        .entry("properties"@, properties)
        .entry("required"@, empty_arr().item(JsonV::Str("rules"@)))
}

impl RulesEngineBrick {
    /// The brick's name.
    pub fn name(&self) -> (s: &'static str)
        ensures
            s@ == "rules_engine"@,
    {
        "rules_engine"
    }

    /// The brick's type.
    pub fn brick_type(&self) -> (t: BrickType)
        ensures
            t == BrickType::RulesEngine,
    {
        BrickType::RulesEngine
    }

    /// The JSON schema of the brick's configuration.
    pub fn config_schema(&self) -> (r: Json)
        ensures
            r@ == rules_schema(),
    {
        let name = Json::empty_object()
            .entry("type", Json::from_str("string"))
            .entry("description", Json::from_str("Rule name"));
        let actions = Json::empty_object()
            .entry("type", Json::from_str("array"))
            .entry("description", Json::from_str("Actions to execute if condition matches"));
        let items_properties = Json::empty_object()
            .entry("name", name)
            .entry("condition", Json::empty_object()
                .entry("description", Json::from_str("Rule condition")))
            .entry("actions", actions);
        let items = Json::empty_object()
            .entry("type", Json::from_str("object"))
            .entry("properties", items_properties)
            .entry("required", Json::empty_array()
                .item(Json::from_str("name"))
                .item(Json::from_str("condition"))
                .item(Json::from_str("actions")));
        let rules = Json::empty_object()
            .entry("type", Json::from_str("array"))
            .entry("items", items)
            .entry("description", Json::from_str("Array of rules to evaluate"));
        let default_actions = Json::empty_object()
            .entry("type", Json::from_str("array"))
            .entry("description", Json::from_str("Actions to execute if no rules match"));
        let properties = Json::empty_object()
            .entry("rules", rules)
            .entry("default_actions", default_actions);
        Json::empty_object()
            .entry("type", Json::from_str("object"))
            .entry("properties", properties)
            .entry("required", Json::empty_array().item(Json::from_str("rules")))
    }

    /// The config must be an object with a `rules` array.
    pub fn validate_config(&self, config: &Json) -> (r: Result<(), BrickError>)
        ensures
            unit_bres(r) == if !(config@ is Obj) {
                Err::<(), BrickErr>(BrickErr::ConfigError("Config must be an object"@))
            } else if !(jget(config@, "rules"@) matches Some(JsonV::Arr(_))) {
                Err(BrickErr::ConfigError("rules array is required"@))
            } else {
                Ok(())
            },
    {
        if !config.is_object() {
            return Err(BrickError::ConfigError("Config must be an object".to_owned()));
        }
        match RulesEngineBrick::rules_array(config) {
            Ok(_) => Ok(()),
            Err(e) => Err(e),
        }
    }

    /// The `rules` array of the config.
    pub fn rules_array(config: &Json) -> (r: Result<&Vec<Json>, BrickError>)
        ensures
            match r {
                Ok(v) => jget(config@, "rules"@) matches Some(JsonV::Arr(a)) && a == Seq::new(
                    v@.len(),
                    |i: int| v@[i]@,
                ),
                Err(e) => !(jget(config@, "rules"@) matches Some(JsonV::Arr(_))) && e@
                    == BrickErr::ConfigError("rules array is required"@),
            },
    {
        match config.get("rules") {
            Some(v) => match v.as_array() {
                Some(a) => {
                    assert(v@->Arr_0 =~= Seq::new(a@.len(), |i: int| a@[i]@));
                    Ok(a)
                },
                None => Err(BrickError::ConfigError("rules array is required".to_owned())),
            },
            None => Err(BrickError::ConfigError("rules array is required".to_owned())),
        }
    }

    /// The error of a rule that could not be read.
    pub fn invalid_rule(reason: &str) -> (e: BrickError)
        ensures
            e@ == BrickErr::ConfigError("Invalid rule: "@ + reason@),
    {
        BrickError::ConfigError(concat("Invalid rule: ", reason))
    }

    /// Runs the first rule that holds on the input, or the default actions
    /// when none holds, and marks the output with what happened.
    pub fn execute_rules(&self, input: Json, rules: &[Rule], defaults: DefaultActions) -> (r: Result<
        Json,
        BrickError,
    >)
        requires
            match_safe(rule_conditions(rules@), input@),
        ensures
            json_bres(r) == rules_brick_output(input@, rules@, defaults@),
    {
        let matched = match RulesEngine::evaluate_rules(rules, &input) {
            Ok(m) => m,
            Err(e) => {
                let m = e.message();
                return Err(BrickError::ExecutionError(concat("Rule evaluation error: ", m.as_str())));
            },
        };
        let mut output = input;
        match matched {
            Some(rule) => {
                let results = match RulesEngine::execute_actions(rule.actions.as_slice(), &mut output) {
                    Ok(res) => res,
                    Err(e) => {
                        let m = e.message();
                        return Err(
                            BrickError::ExecutionError(concat("Action execution error: ", m.as_str())),
                        );
                    },
                };
                let skip = find_last_skip(&results);
                annotate(&mut output, Some(rule.name.as_str()), skip);
                Ok(output)
            },
            None => match defaults {
                DefaultActions::Absent => {
                    annotate(&mut output, None, None);
                    Ok(output)
                },
                DefaultActions::Invalid(m) => Err(
                    BrickError::ConfigError(concat("Invalid default actions: ", m.as_str())),
                ),
                DefaultActions::Parsed(actions) => {
                    let results = match RulesEngine::execute_actions(actions.as_slice(), &mut output) {
                        Ok(res) => res,
                        Err(e) => {
                            let m = e.message();
                            return Err(
                                BrickError::ExecutionError(
                                    concat("Default action execution error: ", m.as_str()),
                                ),
                            );
                        },
                    };
                    let skip = find_last_skip(&results);
                    annotate(&mut output, None, skip);
                    Ok(output)
                },
            },
        }
    }
}

// ---------------------------------------------------------------------------
// Laws.

/// When a rule matches, the output names the first rule whose condition
/// holds; when none matches and there are no default actions, the output is
/// the input marked with `_matched_rule: null`.
pub proof fn lemma_output_names_first_match(input: JsonV, rules: Seq<Rule>, defaults: DefaultActionsV)
    ensures
        first_match(rule_conditions(rules), input) matches Ok(Some(k)) ==> (rules_brick_output(
            input,
            rules,
            defaults,
        ) matches Ok(out) ==> (out is Obj ==> jget(out, "_matched_rule"@) == Some(
            JsonV::Str(rules[k].name@),
        ))),
        (first_match(rule_conditions(rules), input) == Ok::<Option<int>, RuleErr>(None)
            && defaults == DefaultActionsV::Absent) ==> rules_brick_output(input, rules, defaults)
            == Ok::<JsonV, BrickErr>(annotated(input, None, None)),
{
    match first_match(rule_conditions(rules), input) {
        Ok(Some(k)) => {
            match run_actions(input, actions_view(rules[k].actions@)) {
                (out0, Ok(res)) => {
                    match out0 {
                        JsonV::Obj(s) => {
                            let n = JsonV::Str(rules[k].name@);
                            let s1 = obj_insert(s, "_matched_rule"@, n);
                            crate::json::lemma_obj_insert_get(s, "_matched_rule"@, n, "_matched_rule"@);
                            match last_skip(res) {
                                Some(c) => {
                                    crate::json::lemma_obj_insert_get(
                                        s1,
                                        "_skip_bricks"@,
                                        JsonV::Num(NumV::Int(c as int)),
                                        "_matched_rule"@,
                                    );
                                    reveal_strlit("_skip_bricks");
                                    reveal_strlit("_matched_rule");
                                },
                                None => {},
                            }
                        },
                        _ => {},
                    }
                },
                _ => {},
            }
        },
        _ => {},
    }
}

} // verus!
