use flowmason::json::{json_equal, Json, JsonMap, JsonNumber};
use flowmason::mapper::{Mapper, MappingError};
use flowmason::types::{MappingDirection, MappingRule, MergeStrategy, SplitStrategy, TransformType};

fn to_json(v: &serde_json::Value) -> Json {
    match v {
        serde_json::Value::Null => Json::Null,
        serde_json::Value::Bool(b) => Json::Bool(*b),
        serde_json::Value::Number(n) => {
            if let Some(u) = n.as_u64() {
                Json::Number(JsonNumber::PosInt(u))
            } else if let Some(i) = n.as_i64() {
                Json::Number(JsonNumber::NegInt(i))
            } else {
                Json::Number(JsonNumber::Float(n.to_string()))
            }
        }
        serde_json::Value::String(s) => Json::String(s.clone()),
        serde_json::Value::Array(a) => Json::Array(a.iter().map(to_json).collect()),
        serde_json::Value::Object(m) => {
            let mut out = JsonMap::new();
            for (k, x) in m {
                out.insert(k.clone(), to_json(x));
            }
            Json::Object(out)
        }
    }
}

fn j(text: &str) -> Json {
    to_json(&serde_json::from_str(text).unwrap())
}

fn same(a: &Json, b: &Json) -> bool {
    json_equal(a, b)
}

fn single_rule(source: &str, target: &str) -> MappingRule {
    MappingRule {
        source_path: source.to_string(),
        target_path: target.to_string(),
        source_paths: vec![],
        target_paths: vec![],
        direction: MappingDirection::Forward,
        transform: None,
        merge_strategy: None,
        split_strategy: None,
    }
}

#[test]
fn test_map_field() {
    let input = j(r#"{"user": {"name": "John Doe", "age": 30}}"#);
    let mut output = j("{}");
    let rule = single_rule("user.name", "customer_name");
    Mapper::map_field(&input, &mut output, &rule).unwrap();
    assert!(same(output.get("customer_name").unwrap(), &Json::from_str("John Doe")));
}

#[test]
fn test_combine_text() {
    let _input = j(r#"{"first": "John", "last": "Doe"}"#);
    let _output = j("{}");
    let _rule = MappingRule {
        source_path: "first".to_string(),
        target_path: "full_name".to_string(),
        source_paths: vec![],
        target_paths: vec![],
        direction: MappingDirection::Forward,
        transform: Some(TransformType::StringConcat { separator: " ".to_string() }),
        merge_strategy: None,
        split_strategy: None,
    };
    let array_input = j(r#"["John", "Doe"]"#);
    let result = Mapper::apply_transform(
        array_input,
        &TransformType::StringConcat { separator: " ".to_string() },
    )
    .unwrap();
    assert!(same(&result, &j(r#""John Doe""#)));
}

#[test]
fn test_get_value_at_path_nested() {
    let input = j(r#"{"user": {"profile": {"name": "John"}}}"#);
    let result = Mapper::get_value_at_path(&input, "user.profile.name").unwrap();
    assert!(same(&result, &j(r#""John""#)));
}

#[test]
fn test_get_value_at_path_array() {
    let input = j(r#"{"items": [{"id": 1, "name": "Item 1"}, {"id": 2, "name": "Item 2"}]}"#);
    let result = Mapper::get_value_at_path(&input, "items[0].name").unwrap();
    assert!(same(&result, &j(r#""Item 1""#)));
}

#[test]
fn test_get_value_at_path_not_found() {
    let input = j(r#"{"user": {"name": "John"}}"#);
    let result = Mapper::get_value_at_path(&input, "user.age");
    assert!(result.is_err());
}

#[test]
fn test_set_value_at_path() {
    let mut output = j("{}");
    Mapper::set_value_at_path(&mut output, "user.name", j(r#""John""#)).unwrap();
    assert!(same(output.get("user").unwrap().get("name").unwrap(), &Json::from_str("John")));
}

#[test]
fn test_apply_transform_string_to_upper() {
    let input = j(r#""hello world""#);
    let result = Mapper::apply_transform(input, &TransformType::StringToUpper).unwrap();
    assert!(same(&result, &j(r#""HELLO WORLD""#)));
}

#[test]
fn test_apply_transform_string_to_lower() {
    let input = j(r#""HELLO WORLD""#);
    let result = Mapper::apply_transform(input, &TransformType::StringToLower).unwrap();
    assert!(same(&result, &j(r#""hello world""#)));
}

#[test]
fn test_evaluate_condition_greater_than() {
    let value = j("150");
    let result = Mapper::evaluate_condition(&value, "> 100").unwrap();
    assert!(result);
}

#[test]
fn test_evaluate_condition_equals() {
    let value = j(r#""VIP""#);
    let result = Mapper::evaluate_condition(&value, "== 'VIP'").unwrap();
    assert!(result);
}

#[test]
fn test_merge_sources_concat() {
    let source = j(r#"{"first": "John", "last": "Doe"}"#);
    let result = Mapper::merge_sources(
        &source,
        &["first".to_string(), "last".to_string()],
        Some(&MergeStrategy::Concat),
    )
    .unwrap();
    assert!(same(&result, &j(r#""John Doe""#)));
}

#[test]
fn test_apply_mappings_multiple_rules() {
    let input = j(r#"{"user": {"name": "John", "age": 30}}"#);
    let rules = vec![single_rule("user.name", "customer_name"), single_rule("user.age", "customer_age")];
    let result = Mapper::apply_mappings(&input, &rules).unwrap();
    assert!(same(result.get("customer_name").unwrap(), &Json::from_str("John")));
    assert!(same(result.get("customer_age").unwrap(), &Json::from_u64(30)));
}

// ---------------------------------------------------------------------------
// Further cases.

#[test]
fn read_after_write_gives_value_back() {
    let mut doc = j(r#"{"a": {"b": 1}}"#);
    Mapper::set_value_at_path(&mut doc, "a.c.d", j("[1, 2]")).unwrap();
    let back = Mapper::get_value_at_path(&doc, "a.c.d").unwrap();
    assert!(same(&back, &j("[1, 2]")));
    // the sibling is untouched
    assert!(same(&Mapper::get_value_at_path(&doc, "a.b").unwrap(), &j("1")));
}

#[test]
fn set_through_a_non_object_fails() {
    let mut doc = j(r#"{"a": 5}"#);
    let r = Mapper::set_value_at_path(&mut doc, "a.b", j("1"));
    match r {
        Err(MappingError::TypeMismatch(m)) => assert_eq!(m, "Target path does not point to an object"),
        other => panic!("unexpected: {:?}", other),
    }
}

#[test]
fn get_value_errors_name_the_path() {
    let input = j(r#"{"user": {"name": "John"}}"#);
    match Mapper::get_value_at_path(&input, "user.age") {
        Err(e) => assert_eq!(e.message(), "Value not found at path: Path not found: user.age"),
        Ok(_) => panic!("expected an error"),
    }
    match Mapper::get_value_at_path(&input, "user[x]") {
        Err(e) => assert_eq!(e.message(), "Invalid path: Invalid array index: x"),
        Ok(_) => panic!("expected an error"),
    }
    let arr = j(r#"{"items": [1]}"#);
    match Mapper::get_value_at_path(&arr, "items[3]") {
        Err(e) => assert_eq!(e.message(), "Value not found at path: Index 3 not found in array"),
        Ok(_) => panic!("expected an error"),
    }
    match Mapper::get_value_at_path(&arr, "things[0]") {
        Err(e) => assert_eq!(e.message(), "Value not found at path: Key not found: things"),
        Ok(_) => panic!("expected an error"),
    }
}

#[test]
fn path_safety_check() {
    assert!(flowmason::mapper::is_path_safe("a.b[0].c"));
    assert!(!flowmason::mapper::is_path_safe("a["));
    assert!(!flowmason::mapper::is_path_safe("a[é"));
}

#[test]
fn evaluate_condition_other_forms() {
    assert!(!Mapper::evaluate_condition(&j("50"), "> 100").unwrap());
    assert!(Mapper::evaluate_condition(&j("50"), "< 100").unwrap());
    assert!(Mapper::evaluate_condition(&j(r#""VIP""#), "== \"VIP\"").unwrap());
    assert!(!Mapper::evaluate_condition(&j("5"), "== '5'").unwrap());
    match Mapper::evaluate_condition(&j("5"), "!= 3") {
        Err(e) => assert_eq!(e.message(), "Transform error: Unsupported condition: != 3"),
        Ok(_) => panic!("expected an error"),
    }
    match Mapper::evaluate_condition(&j(r#""x""#), "> 3") {
        Err(e) => assert_eq!(e.message(), "Transform error: Invalid numeric condition"),
        Ok(_) => panic!("expected an error"),
    }
}

#[test]
fn transforms_check_their_input() {
    let r = Mapper::apply_transform(j("3"), &TransformType::StringToUpper);
    match r {
        Err(e) => assert_eq!(e.message(), "Type mismatch: StringToUpper requires a string"),
        Ok(_) => panic!("expected an error"),
    }
    let r = Mapper::apply_transform(j("3"), &TransformType::NumberAdd).unwrap();
    assert!(same(&r, &j("3")));
    let cond = TransformType::Conditional {
        condition: "> 10".to_string(),
        true_value: j(r#""big""#),
        false_value: j(r#""small""#),
    };
    assert!(same(&Mapper::apply_transform(j("42"), &cond).unwrap(), &j(r#""big""#)));
    assert!(same(&Mapper::apply_transform(j("2"), &cond).unwrap(), &j(r#""small""#)));
}

#[test]
fn merge_strategies() {
    let source = j(r#"{"a": {"x": 1}, "b": {"y": 2}, "s": "one", "t": "two"}"#);
    let paths = ["a".to_string(), "b".to_string()];
    let merged = Mapper::merge_sources(&source, &paths, Some(&MergeStrategy::MergeObject)).unwrap();
    assert!(same(&merged, &j(r#"{"x": 1, "y": 2}"#)));
    let arr = Mapper::merge_sources(&source, &paths, Some(&MergeStrategy::Array)).unwrap();
    assert!(same(&arr, &j(r#"[{"x": 1}, {"y": 2}]"#)));
    let st = ["s".to_string(), "missing".to_string(), "t".to_string()];
    assert!(same(&Mapper::merge_sources(&source, &st, Some(&MergeStrategy::First)).unwrap(), &j(r#""one""#)));
    assert!(same(&Mapper::merge_sources(&source, &st, Some(&MergeStrategy::Last)).unwrap(), &j(r#""two""#)));
    assert!(same(
        &Mapper::merge_sources(&source, &st, None).unwrap(),
        &j(r#"{"field_0": "one", "field_1": "two"}"#)
    ));
    let none = ["x".to_string(), "y".to_string()];
    match Mapper::merge_sources(&source, &none, None) {
        Err(e) => assert_eq!(e.message(), "Value not found at path: No values found at source paths"),
        Ok(_) => panic!("expected an error"),
    }
}

#[test]
fn split_to_targets_copy_and_extract() {
    let mut target = j("{}");
    let tps = ["x".to_string(), "y.z".to_string()];
    Mapper::split_to_targets(&mut target, &tps, j(r#""v""#), Some(&SplitStrategy::Copy)).unwrap();
    assert!(same(&target, &j(r#"{"x": "v", "y": {"z": "v"}}"#)));
    let mut target2 = j("{}");
    let keys = ["first".to_string(), "last".to_string()];
    Mapper::split_to_targets(
        &mut target2,
        &keys,
        j(r#"{"first": "A", "last": "B"}"#),
        Some(&SplitStrategy::Extract),
    )
    .unwrap();
    assert!(same(&target2, &j(r#"{"first": "A", "last": "B"}"#)));
}

#[test]
fn multi_path_rules() {
    let input = j(r#"{"first": "John", "last": "Doe"}"#);
    let rule = MappingRule {
        source_path: String::new(),
        target_path: String::new(),
        source_paths: vec!["first".to_string(), "last".to_string()],
        target_paths: vec!["full".to_string()],
        direction: MappingDirection::Forward,
        transform: None,
        merge_strategy: Some(MergeStrategy::Concat),
        split_strategy: None,
    };
    let out = Mapper::apply_mappings(&input, &[rule]).unwrap();
    assert!(same(&out, &j(r#"{"full": "John Doe"}"#)));
    let back = MappingRule {
        source_path: String::new(),
        target_path: String::new(),
        source_paths: vec!["first".to_string()],
        target_paths: vec!["x".to_string()],
        direction: MappingDirection::Backward,
        transform: None,
        merge_strategy: None,
        split_strategy: None,
    };
    match Mapper::apply_mappings(&input, &[back]) {
        Err(MappingError::InvalidPath(m)) => {
            assert_eq!(m, "Backward mapping requires mutable source. Use bidirectional mapping at flow level.")
        }
        other => panic!("unexpected: {:?}", other),
    }
    let empty = single_rule("", "");
    match Mapper::apply_mappings(&input, &[empty]) {
        Err(e) => assert_eq!(e.message(), "Invalid path: No source paths specified"),
        Ok(_) => panic!("expected an error"),
    }
}

/// A malformed piece after one that fails is never read: reading stops at
/// the failure, as the unsafe piece is not reached.
#[test]
fn reading_stops_before_unreached_pieces() {
    let empty = j("{}");
    assert!(Mapper::path_reach_safe(&empty, "m.x["));
    match Mapper::get_value_at_path(&empty, "m.x[") {
        Err(e) => assert_eq!(e.message(), "Value not found at path: Path not found: m.x["),
        Ok(_) => panic!("expected an error"),
    }
    assert!(!Mapper::path_reach_safe(&j(r#"{"m": {}}"#), "m.x["));
    let source = j(r#"{"first": "John"}"#);
    assert!(Mapper::path_reach_safe(&source, "missing.a["));
    let merged = Mapper::merge_sources(
        &source,
        &["first".to_string(), "missing.a[".to_string()],
        Some(&MergeStrategy::First),
    )
    .unwrap();
    assert!(same(&merged, &j(r#""John""#)));
}
