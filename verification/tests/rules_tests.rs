use flowmason::json::{json_equal, Json, JsonMap, JsonNumber};
use flowmason::rules_brick::{DefaultActions, RulesEngineBrick};
use flowmason::rules_engine::{RuleActionResult, RulesEngine, RulesEngineError};
use flowmason::types::{Operator, Rule, RuleAction, RuleCondition, TransformType};

fn to_json(v: &serde_json::Value) -> Json {
    match v {
        serde_json::Value::Null => Json::Null,
        serde_json::Value::Bool(b) => Json::Bool(*b),
        serde_json::Value::Number(n) => {
            if let Some(u) = n.as_u64() {
                Json::Number(JsonNumber::PosInt(u))
            } else if let Some(i) = n.as_i64() {
                Json::Number(JsonNumber::NegInt(i))
            } else {
                Json::Number(JsonNumber::Float(n.to_string()))
            }
        }
        serde_json::Value::String(s) => Json::String(s.clone()),
        serde_json::Value::Array(a) => Json::Array(a.iter().map(to_json).collect()),
        serde_json::Value::Object(m) => {
            let mut out = JsonMap::new();
            for (k, x) in m {
                out.insert(k.clone(), to_json(x));
            }
            Json::Object(out)
        }
    }
}

fn j(text: &str) -> Json {
    to_json(&serde_json::from_str(text).unwrap())
}

fn field(path: &str, operator: Operator, value: &str) -> RuleCondition {
    RuleCondition::Field { path: path.to_string(), operator, value: j(value) }
}

fn eval(c: &RuleCondition, input: &str) -> Result<bool, RulesEngineError> {
    RulesEngine::evaluate_condition(c, &j(input))
}

#[test]
fn comparison_operators() {
    let doc = r#"{"amount": 1500, "name": "Acme Corp", "tags": "vip", "missing": null}"#;
    assert!(eval(&field("amount", Operator::GreaterThan, "1000"), doc).unwrap());
    assert!(!eval(&field("amount", Operator::LessThan, "1000"), doc).unwrap());
    assert!(eval(&field("amount", Operator::GreaterThanOrEqual, "1500"), doc).unwrap());
    assert!(eval(&field("amount", Operator::LessThanOrEqual, "1500.5"), doc).unwrap());
    assert!(eval(&field("name", Operator::Equals, r#""Acme Corp""#), doc).unwrap());
    assert!(eval(&field("name", Operator::NotEquals, r#""Other""#), doc).unwrap());
    assert!(eval(&field("name", Operator::Contains, r#""Corp""#), doc).unwrap());
    assert!(eval(&field("name", Operator::StartsWith, r#""Acme""#), doc).unwrap());
    assert!(eval(&field("name", Operator::EndsWith, r#""Corp""#), doc).unwrap());
    assert!(eval(&field("name", Operator::Regex, r#""^A.*p$""#), doc).unwrap());
    assert!(eval(&field("tags", Operator::In, r#"["vip", "gold"]"#), doc).unwrap());
    assert!(!eval(&field("tags", Operator::NotIn, r#"["vip", "gold"]"#), doc).unwrap());
    assert!(eval(&field("missing", Operator::IsNull, "null"), doc).unwrap());
    assert!(eval(&field("name", Operator::IsNotNull, "null"), doc).unwrap());
}

#[test]
fn condition_errors() {
    let doc = r#"{"amount": 1500, "name": "Acme"}"#;
    match eval(&field("nope", Operator::Equals, "1"), doc) {
        Err(e) => assert_eq!(e.message(), "Field not found: nope"),
        Ok(_) => panic!("expected an error"),
    }
    match eval(&field("name", Operator::GreaterThan, "1"), doc) {
        Err(e) => assert_eq!(e.message(), "Type mismatch: Expected numeric value"),
        Ok(_) => panic!("expected an error"),
    }
    match eval(&field("amount", Operator::Contains, r#""1""#), doc) {
        Err(e) => assert_eq!(e.message(), "Type mismatch: Contains requires string values"),
        Ok(_) => panic!("expected an error"),
    }
    match eval(&field("amount", Operator::In, "1"), doc) {
        Err(e) => assert_eq!(e.message(), "Type mismatch: In operator requires array value"),
        Ok(_) => panic!("expected an error"),
    }
    match eval(&field("name", Operator::Regex, r#""(""#), doc) {
        Err(RulesEngineError::EvaluationError(m)) => assert!(m.starts_with("Invalid regex: ")),
        other => panic!("unexpected: {:?}", other),
    }
}

#[test]
fn and_or_not_short_circuit() {
    let doc = r#"{"a": 1, "b": 2}"#;
    let and = RuleCondition::And {
        conditions: vec![field("a", Operator::Equals, "2"), field("nope", Operator::Equals, "1")],
    };
    assert!(!eval(&and, doc).unwrap());
    let or = RuleCondition::Or {
        conditions: vec![field("a", Operator::Equals, "1"), field("nope", Operator::Equals, "1")],
    };
    assert!(eval(&or, doc).unwrap());
    let not = RuleCondition::Not { condition: Box::new(field("b", Operator::Equals, "2")) };
    assert!(!eval(&not, doc).unwrap());
    let empty_and = RuleCondition::And { conditions: vec![] };
    assert!(eval(&empty_and, doc).unwrap());
    let empty_or = RuleCondition::Or { conditions: vec![] };
    assert!(!eval(&empty_or, doc).unwrap());
}

#[test]
fn negated_operators_are_complements() {
    let doc = r#"{"x": "v"}"#;
    for expected in [r#""v""#, r#""w""#] {
        let eq = eval(&field("x", Operator::Equals, expected), doc).unwrap();
        let ne = eval(&field("x", Operator::NotEquals, expected), doc).unwrap();
        assert_eq!(eq, !ne);
    }
    let inn = eval(&field("x", Operator::In, r#"["a", "v"]"#), doc).unwrap();
    let notin = eval(&field("x", Operator::NotIn, r#"["a", "v"]"#), doc).unwrap();
    assert_eq!(inn, !notin);
}

#[test]
fn actions_run_in_order() {
    let mut doc = j(r#"{"a": 1}"#);
    let actions = vec![
        RuleAction::SetField { path: "b.c".to_string(), value: j("2") },
        RuleAction::Transform { transform: TransformType::StringToUpper },
        RuleAction::Branch { flow_id: "f2".to_string() },
        RuleAction::SkipBricks { count: 3 },
    ];
    let results = RulesEngine::execute_actions(&actions, &mut doc).unwrap();
    assert!(json_equal(&doc, &j(r#"{"a": 1, "b": {"c": 2}}"#)));
    assert_eq!(results.len(), 4);
    assert!(matches!(&results[0], RuleActionResult::SetField { path } if path == "b.c"));
    assert!(matches!(results[1], RuleActionResult::Transform));
    assert!(matches!(&results[2], RuleActionResult::Branch { flow_id } if flow_id == "f2"));
    assert!(matches!(results[3], RuleActionResult::SkipBricks { count: 3 }));
}

#[test]
fn failing_action_stops() {
    let mut doc = j(r#"{"a": 1}"#);
    let actions = vec![
        RuleAction::SetField { path: "a.b".to_string(), value: j("2") },
        RuleAction::SkipBricks { count: 1 },
    ];
    match RulesEngine::execute_actions(&actions, &mut doc) {
        Err(e) => assert_eq!(
            e.message(),
            "Action execution error: Failed to set field a.b: Type mismatch: Target path does not point to an object"
        ),
        Ok(_) => panic!("expected an error"),
    }
}

fn rule(name: &str, condition: RuleCondition, actions: Vec<RuleAction>) -> Rule {
    Rule { name: name.to_string(), condition, actions }
}

#[test]
fn first_matching_rule_wins() {
    let rules = vec![
        rule("small", field("amount", Operator::LessThan, "100"), vec![]),
        rule("big", field("amount", Operator::GreaterThan, "1000"), vec![]),
        rule("also_big", field("amount", Operator::GreaterThan, "500"), vec![]),
    ];
    let found = RulesEngine::evaluate_rules(&rules, &j(r#"{"amount": 5000}"#)).unwrap();
    assert_eq!(found.unwrap().name, "big");
    let none = RulesEngine::evaluate_rules(&rules, &j(r#"{"amount": 300}"#)).unwrap();
    assert!(none.is_none());
}

#[test]
fn rules_brick_marks_output() {
    let brick = RulesEngineBrick;
    let rules = vec![rule(
        "vip",
        field("tier", Operator::Equals, r#""gold""#),
        vec![
            RuleAction::SetField { path: "discount".to_string(), value: j("10") },
            RuleAction::SkipBricks { count: 2 },
        ],
    )];
    let out = brick.execute_rules(j(r#"{"tier": "gold"}"#), &rules, DefaultActions::Absent).unwrap();
    assert!(json_equal(
        &out,
        &j(r#"{"tier": "gold", "discount": 10, "_matched_rule": "vip", "_skip_bricks": 2}"#)
    ));
    let out = brick.execute_rules(j(r#"{"tier": "silver"}"#), &rules, DefaultActions::Absent).unwrap();
    assert!(json_equal(&out, &j(r#"{"tier": "silver", "_matched_rule": null}"#)));
    let defaults = DefaultActions::Parsed(vec![RuleAction::SetField { path: "d".to_string(), value: j("true") }]);
    let out = brick.execute_rules(j(r#"{"tier": "silver"}"#), &rules, defaults).unwrap();
    assert!(json_equal(&out, &j(r#"{"tier": "silver", "d": true, "_matched_rule": null}"#)));
    let bad = DefaultActions::Invalid("bad".to_string());
    let err = brick.execute_rules(j(r#"{"tier": "silver"}"#), &rules, bad).unwrap_err();
    assert_eq!(err.message(), "Configuration error: Invalid default actions: bad");
}

#[test]
fn rules_brick_config() {
    let brick = RulesEngineBrick;
    assert!(brick.validate_config(&j(r#"{"rules": []}"#)).is_ok());
    assert_eq!(
        brick.validate_config(&j("[]")).unwrap_err().message(),
        "Configuration error: Config must be an object"
    );
    assert_eq!(
        brick.validate_config(&j(r#"{"rules": 1}"#)).unwrap_err().message(),
        "Configuration error: rules array is required"
    );
    assert_eq!(RulesEngineBrick::invalid_rule("x").message(), "Configuration error: Invalid rule: x");
}

/// Numbers compare as serde_json compares them: fractional numbers by
/// their `f64` values, so `0.0` equals `-0.0`; an integer never equals a
/// fractional number.
#[test]
fn number_equality_by_value() {
    let doc = r#"{"a": 0.0, "b": 1, "c": 2.50}"#;
    assert!(eval(&field("a", Operator::Equals, "-0.0"), doc).unwrap());
    assert!(!eval(&field("a", Operator::NotEquals, "-0.0"), doc).unwrap());
    assert!(eval(&field("a", Operator::In, "[-0.0, 7]"), doc).unwrap());
    assert!(!eval(&field("b", Operator::Equals, "1.0"), doc).unwrap());
    assert!(eval(&field("c", Operator::Equals, "2.5"), doc).unwrap());
    assert!(json_equal(&j(r#"{"x": [0.0]}"#), &j(r#"{"x": [-0.0]}"#)));
}

/// A field condition whose path fails before a malformed piece reports the
/// field as not found; the search checks only the pieces it reaches.
#[test]
fn unreached_malformed_piece_is_not_found() {
    let input = j("{}");
    let c = field("m.x[", Operator::Equals, "1");
    assert!(RulesEngine::condition_reach_safe(&c, &input));
    assert!(matches!(RulesEngine::evaluate_condition(&c, &input), Err(RulesEngineError::FieldNotFound(p)) if p == "m.x["));
    assert!(!RulesEngine::condition_reach_safe(&c, &j(r#"{"m": {}}"#)));
}
