use flowmason::brick_traits::validate_config;
use flowmason::json::{json_equal, Json, JsonMap, JsonNumber};
use flowmason::mapper_bricks::{CombineTextBrick, ConditionalBrick, FieldMappingBrick};
use flowmason::service::{HttpMethod, HttpReply, RequestBody};
use flowmason::n8n_brick::N8nBrick;
use flowmason::hubspot_brick::HubSpotBrick;
use flowmason::notion_brick::NotionBrick;
use flowmason::nvidia_brick::{NvidiaBrick, NvidiaEndpoint};
use flowmason::openai_brick::{replace_placeholders, OpenAiBrick};
use flowmason::odoo_brick::OdooBrick;

fn to_json(v: &serde_json::Value) -> Json {
    match v {
        serde_json::Value::Null => Json::Null,
        serde_json::Value::Bool(b) => Json::Bool(*b),
        serde_json::Value::Number(n) => {
            if let Some(u) = n.as_u64() {
                Json::Number(JsonNumber::PosInt(u))
            } else if let Some(i) = n.as_i64() {
                Json::Number(JsonNumber::NegInt(i))
            } else {
                Json::Number(JsonNumber::Float(n.to_string()))
            }
        }
        serde_json::Value::String(s) => Json::String(s.clone()),
        serde_json::Value::Array(a) => Json::Array(a.iter().map(to_json).collect()),
        serde_json::Value::Object(m) => {
            let mut out = JsonMap::new();
            for (k, x) in m {
                out.insert(k.clone(), to_json(x));
            }
            Json::Object(out)
        }
    }
}

fn j(text: &str) -> Json {
    to_json(&serde_json::from_str(text).unwrap())
}

fn reply(status: u16, text: &str) -> HttpReply {
    HttpReply {
        status,
        status_text: format!("{} Status", status),
        body: Ok(text.to_string()),
        json: serde_json::from_str::<serde_json::Value>(text).map(|v| to_json(&v)).map_err(|e| e.to_string()),
    }
}

#[test]
fn schema_checks() {
    let schema = j(r#"{"type": "object", "properties": {"n": {"type": "integer"}, "mode": {"type": "string", "enum": ["a", "b"]}}, "required": ["n"]}"#);
    assert!(validate_config(&schema, &j(r#"{"n": 3, "mode": "a"}"#)).is_ok());
    assert_eq!(
        validate_config(&schema, &j("3")).unwrap_err().message(),
        "Configuration error: Config must be a JSON object"
    );
    assert_eq!(
        validate_config(&schema, &j(r#"{"mode": "a"}"#)).unwrap_err().message(),
        "Configuration error: Required field 'n' is missing"
    );
    assert_eq!(
        validate_config(&schema, &j(r#"{"n": 1.5}"#)).unwrap_err().message(),
        "Configuration error: Field 'n' must be of type 'integer'"
    );
    assert_eq!(
        validate_config(&schema, &j(r#"{"n": 1, "mode": "c"}"#)).unwrap_err().message(),
        "Configuration error: Field 'mode' must be one of: [\"a\", \"b\"]"
    );
}

#[test]
fn field_mapping_brick() {
    let brick = FieldMappingBrick;
    let config = j(r#"{"mappings": [{"source_path": "user.name", "target_path": "name"}, {"source_paths": ["a", "b"], "target_path": "ab", "merge_strategy": "concat"}]}"#);
    let out = brick.execute(j(r#"{"user": {"name": "Ann"}, "a": "x", "b": "y"}"#), &config).unwrap();
    assert!(json_equal(&out, &j(r#"{"name": "Ann", "ab": "x y"}"#)));
    let err = brick.execute(j("{}"), &j(r#"{"mappings": [{"target_path": "t"}]}"#)).unwrap_err();
    assert_eq!(err.message(), "Configuration error: Either source_path or source_paths is required");
    let err = brick.execute(j("{}"), &j("{}")).unwrap_err();
    assert_eq!(err.message(), "Configuration error: mappings array is required");
    let err = brick.execute(j("{}"), &j(r#"{"mappings": [{"source_path": "q", "target_path": "t"}]}"#)).unwrap_err();
    assert_eq!(err.message(), "Execution error: Mapping error: Value not found at path: Path not found: q");
}

#[test]
fn combine_text_brick() {
    let brick = CombineTextBrick;
    let out = brick
        .execute(j(r#"{"first": "John", "age": 30}"#), &j(r#"{"fields": ["first", "age"], "separator": "-", "output_field": "all"}"#))
        .unwrap();
    assert!(json_equal(&out, &j(r#"{"first": "John", "age": 30, "all": "John-30"}"#)));
    let out = brick.execute(j(r#"{"a": "x", "b": "y"}"#), &j(r#"{"fields": ["a", "b"]}"#)).unwrap();
    assert!(json_equal(&out, &j(r#"{"a": "x", "b": "y", "combined_text": "x y"}"#)));
    let err = brick.execute(j("{}"), &j(r#"{"fields": ["zz"]}"#)).unwrap_err();
    assert_eq!(err.message(), "Invalid input: Failed to get field zz: Value not found at path: Path not found: zz");
    let err = brick.execute(j("{}"), &j(r#"{"fields": [1]}"#)).unwrap_err();
    assert_eq!(err.message(), "Configuration error: Field path must be a string");
}

#[test]
fn conditional_brick() {
    let brick = ConditionalBrick;
    let config = j(r#"{"condition_field": "amount", "condition": "> 1000", "true_value": "high", "false_value": "low", "output_field": "tier"}"#);
    let out = brick.execute(j(r#"{"amount": 5000}"#), &config).unwrap();
    assert!(json_equal(&out, &j(r#"{"amount": 5000, "tier": "high"}"#)));
    let out = brick.execute(j(r#"{"amount": 5}"#), &config).unwrap();
    assert!(json_equal(&out, &j(r#"{"amount": 5, "tier": "low"}"#)));
    let err = brick.execute(j("{}"), &j(r#"{"condition_field": "a"}"#)).unwrap_err();
    assert_eq!(err.message(), "Configuration error: condition is required");
}

#[test]
fn n8n_plan_and_finish() {
    let brick = N8nBrick;
    let input = j(r#"{"k": 1}"#);
    let req = brick.plan(&input, &j(r#"{"webhook_url": "http://h/x", "method": "PUT"}"#)).unwrap();
    assert_eq!(req.method, HttpMethod::Put);
    assert_eq!(req.url, "http://h/x");
    assert!(matches!(&req.body, RequestBody::Json(b) if json_equal(b, &input)));
    let err = brick.plan(&input, &j(r#"{"webhook_url": "u", "method": "DELETE"}"#)).unwrap_err();
    assert_eq!(err.message(), "Configuration error: Unsupported method: DELETE");
    let out = brick.finish(j(r#"{"k": 1}"#), reply(200, "not json")).unwrap();
    assert!(json_equal(&out, &j(r#"{"status": "success", "input": {"k": 1}}"#)));
    let err = brick.finish(j("{}"), reply(500, "boom")).unwrap_err();
    assert_eq!(err.message(), "Execution error: n8n webhook returned error: boom");
}

#[test]
fn hubspot_plan() {
    let brick = HubSpotBrick;
    let req = brick.plan(&j(r#"{"id": "42", "stage": "won"}"#), &j(r#"{"api_key": "k", "operation": "update_deal"}"#)).unwrap();
    assert_eq!(req.method, HttpMethod::Patch);
    assert_eq!(req.url, "https://api.hubapi.com/crm/v3/objects/deals/42");
    assert_eq!(req.query, vec![("hapikey".to_string(), "k".to_string())]);
    assert!(matches!(&req.body, RequestBody::Json(b) if json_equal(b, &j(r#"{"properties": {"stage": "won"}}"#))));
    let err = brick.plan(&j("{}"), &j(r#"{"api_key": "k", "operation": "nope"}"#)).unwrap_err();
    assert_eq!(err.message(), "Configuration error: Unknown operation: nope");
    let err = brick.finish(reply(404, "missing")).unwrap_err();
    assert_eq!(err.message(), "Execution error: HubSpot API error (404 Status): missing");
}

#[test]
fn notion_plan() {
    let brick = NotionBrick;
    let req = brick.plan(&j(r#"{"title": "T"}"#), &j(r#"{"api_key": "k", "operation": "create_page", "database_id": "db"}"#)).unwrap();
    assert_eq!(req.url, "https://api.notion.com/v1/pages");
    assert_eq!(req.headers[0], ("Authorization".to_string(), "Bearer k".to_string()));
    let expected = j(r#"{"parent": {"database_id": "db"}, "properties": {"title": {"title": [{"text": {"content": "T"}}]}}}"#);
    assert!(matches!(&req.body, RequestBody::Json(b) if json_equal(b, &expected)));
    let err = brick.plan(&j("{}"), &j(r#"{"api_key": "k", "operation": "update_page"}"#)).unwrap_err();
    assert_eq!(err.message(), "Configuration error: page_id is required in input");
}

#[test]
fn nvidia_plan_and_finish() {
    let brick = NvidiaBrick;
    let call = brick.plan(&j(r#"{"prompt": "hi"}"#), &j(r#"{"api_key": "k", "endpoint": "text_generation"}"#)).unwrap();
    assert_eq!(call.endpoint, NvidiaEndpoint::TextGeneration);
    assert_eq!(call.model, "nvidia/meta/llama-3-8b-instruct");
    let out = brick.finish(j(r#"{"prompt": "hi"}"#), &call, reply(200, r#"{"text": "yo"}"#)).unwrap();
    assert!(json_equal(&out, &j(r#"{"text": "yo", "model": "nvidia/meta/llama-3-8b-instruct", "input": {"prompt": "hi"}}"#)));
    let err = brick.plan(&j("{}"), &j(r#"{"api_key": "k", "endpoint": "tts"}"#)).unwrap_err();
    assert_eq!(err.message(), "Configuration error: Invalid endpoint: tts. Must be one of: asr, ocr, text_generation");
    let ocr = brick.plan(&j(r#"{"image_url": "u"}"#), &j(r#"{"api_key": "k", "endpoint": "ocr"}"#)).unwrap();
    let out = brick.finish(j("{}"), &ocr, reply(200, "{}")).unwrap();
    assert!(json_equal(&out, &j(r#"{"text": null, "bounding_boxes": [], "input": {}}"#)));
    let err = brick.finish(j("{}"), &ocr, reply(500, "x")).unwrap_err();
    assert_eq!(err.message(), "Execution error: NVIDIA OCR API returned error: x");
}

#[test]
fn openai_prompt_and_output() {
    let p = replace_placeholders("Hi {{name}}, you are {{age}} ({{name}})", &j(r#"{"name": "Bo", "age": 7}"#));
    assert_eq!(p, "Hi Bo, you are 7 (Bo)");
    let brick = OpenAiBrick;
    let call = brick
        .plan(&j(r#"{"x": "1"}"#), &j(r#"{"api_key": "k", "prompt_template": "Say {{x}}"}"#), j("0.7"))
        .unwrap();
    assert_eq!(call.model, "gpt-3.5-turbo");
    let body = j(r#"{"model": "gpt-3.5-turbo", "messages": [{"role": "user", "content": "Say 1"}], "temperature": 0.7, "max_tokens": 1000}"#);
    assert!(matches!(&call.request.body, RequestBody::Json(b) if json_equal(b, &body)));
    let r = reply(200, r#"{"choices": [{"message": {"content": "ok"}}], "usage": {"total_tokens": 12}}"#);
    let out = brick.finish(j("{}"), &call, r).unwrap();
    assert!(json_equal(&out, &j(r#"{"content": "ok", "model": "gpt-3.5-turbo", "token_usage": 12, "input": {}}"#)));
    let err = brick.finish(j("{}"), &call, reply(200, "{}")).unwrap_err();
    assert_eq!(err.message(), "Execution error: Invalid response format");
}

#[test]
fn odoo_login_and_call() {
    let brick = OdooBrick;
    let config = j(r#"{"url": "https://o.example//", "database": "db", "username": "u", "password": "p", "operation": "get_products"}"#);
    let (session, login) = brick.plan_login(&config).unwrap();
    assert_eq!(login.url, "https://o.example/xmlrpc/2/common");
    assert_eq!(session.base_url, "https://o.example");
    let uid = brick
        .read_login(&reply(200, "<methodResponse><params><param><value><i4>7</i4></value></param></params></methodResponse>"))
        .unwrap();
    assert_eq!(uid, 7);
    let int_form = brick
        .read_login(&reply(200, "<methodResponse><params><param><value><int>7</int></value></param></params></methodResponse>"))
        .unwrap_err();
    assert_eq!(int_form.message(), "Execution error: Invalid authentication response");
    let fault = brick.read_login(&reply(200, "<fault>bad</fault>")).unwrap_err();
    assert_eq!(fault.message(), "Execution error: Authentication failed: Invalid credentials");
    let call = brick.plan_call(&session, uid, &j("{}")).unwrap();
    assert_eq!(call.url, "https://o.example/xmlrpc/2/object");
    match &call.body {
        RequestBody::Xml(x) => {
            assert!(x.contains("<param><value><i4>7</i4></value></param>"));
            assert!(x.contains("<string>product.product</string>"));
            assert!(x.contains("<value><array><data><value><string></string></value></data></array></value><value><array><data><value><string>name</string></value><value><string>list_price</string></value></data></array></value>"));
        }
        _ => panic!("expected XML"),
    }
    let out = brick.finish(reply(200, "<ok/>")).unwrap();
    assert!(json_equal(&out, &j(r#"{"result": "success", "raw_response": "<ok/>"}"#)));
    let err = brick.finish(reply(200, "<fault><value/></fault>")).unwrap_err();
    assert_eq!(err.message(), "Execution error: Odoo method call failed");
}

/// Each brick's schema is the JSON it documents, and configurations are
/// checked against it.
#[test]
fn brick_schemas() {
    let n8n = N8nBrick.config_schema();
    assert!(json_equal(
        &n8n,
        &j(r#"{"type": "object", "properties": {"webhook_url": {"type": "string", "description": "n8n webhook URL"}, "method": {"type": "string", "enum": ["POST", "GET", "PUT"], "description": "HTTP method", "default": "POST"}}, "required": ["webhook_url"]}"#)
    ));
    assert!(validate_config(&n8n, &j(r#"{"webhook_url": "http://x"}"#)).is_ok());
    assert_eq!(
        validate_config(&n8n, &j(r#"{"webhook_url": "http://x", "method": "DELETE"}"#)).unwrap_err().message(),
        "Configuration error: Field 'method' must be one of: [\"POST\", \"GET\", \"PUT\"]"
    );
    let mapping = FieldMappingBrick.config_schema();
    assert_eq!(
        validate_config(&mapping, &j("{}")).unwrap_err().message(),
        "Configuration error: Required field 'mappings' is missing"
    );
    assert_eq!(
        validate_config(&mapping, &j(r#"{"mappings": {}}"#)).unwrap_err().message(),
        "Configuration error: Field 'mappings' must be of type 'array'"
    );
    let openai = OpenAiBrick.config_schema();
    let temperature = openai.get("properties").unwrap().get("temperature").unwrap();
    assert!(json_equal(
        temperature,
        &j(r#"{"type": "number", "description": "Temperature for generation", "default": 0.7}"#)
    ));
    assert_eq!(
        validate_config(&openai, &j(r#"{"api_key": "k"}"#)).unwrap_err().message(),
        "Configuration error: Required field 'prompt_template' is missing"
    );
    assert_eq!(
        validate_config(&OdooBrick.config_schema(), &j(r#"{"url": "u", "database": "d", "username": "n", "password": "p", "operation": "x"}"#)).unwrap_err().message(),
        "Configuration error: Field 'operation' must be one of: [\"get_invoices\", \"create_invoice\", \"get_products\"]"
    );
    assert!(validate_config(&HubSpotBrick.config_schema(), &j(r#"{"api_key": "k", "operation": "get_deals"}"#)).is_ok());
    assert!(validate_config(&NotionBrick.config_schema(), &j(r#"{"api_key": "k", "operation": "get_pages"}"#)).is_ok());
    assert_eq!(
        validate_config(&NvidiaBrick.config_schema(), &j(r#"{"api_key": "k"}"#)).unwrap_err().message(),
        "Configuration error: Required field 'endpoint' is missing"
    );
    assert_eq!(
        validate_config(&CombineTextBrick.config_schema(), &j(r#"{"fields": ["a"]}"#)).unwrap_err().message(),
        "Configuration error: Required field 'output_field' is missing"
    );
    assert_eq!(
        validate_config(&ConditionalBrick.config_schema(), &j(r#"{"condition_field": "a", "condition": "> 1", "true_value": 1, "false_value": 0, "output_field": 3}"#)).unwrap_err().message(),
        "Configuration error: Field 'output_field' must be of type 'string'"
    );
}
