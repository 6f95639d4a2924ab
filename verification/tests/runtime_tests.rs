use flowmason::auth::{api_key_admissible, parse_authorization, token_claims, ApiKeyService, AuthError, Credential, JwtService};
use flowmason::flow_runner::{FlowAction, FlowCursor, FlowError, FlowEvent, FlowRun, FlowRunner, FlowStep};
use flowmason::brick_traits::BrickError;
use flowmason::quota::QuotaError;
use flowmason::http_client::{next_delay, AttemptOutcome, CircuitBreaker, RetryConfig, RetryDecision, RetryState};
use flowmason::json::{json_equal, Json, JsonMap, JsonNumber};
use flowmason::storage::{brick_log_name, count_daily, page_bounds, persist_action, positions_equal, summarize, template_query, SchedulePersist, TemplateQuery};
use flowmason::types::{BrickType, ExecutionStatus};

fn to_json(v: &serde_json::Value) -> Json {
    match v {
        serde_json::Value::Null => Json::Null,
        serde_json::Value::Bool(b) => Json::Bool(*b),
        serde_json::Value::Number(n) => {
            if let Some(u) = n.as_u64() {
                Json::Number(JsonNumber::PosInt(u))
            } else if let Some(i) = n.as_i64() {
                Json::Number(JsonNumber::NegInt(i))
            } else {
                Json::Number(JsonNumber::Float(n.to_string()))
            }
        }
        serde_json::Value::String(s) => Json::String(s.clone()),
        serde_json::Value::Array(a) => Json::Array(a.iter().map(to_json).collect()),
        serde_json::Value::Object(m) => {
            let mut out = JsonMap::new();
            for (k, x) in m {
                out.insert(k.clone(), to_json(x));
            }
            Json::Object(out)
        }
    }
}

fn j(text: &str) -> Json {
    to_json(&serde_json::from_str(text).unwrap())
}

#[test]
fn cursor_runs_every_brick_without_skips() {
    let mut c = FlowCursor::new(3);
    assert_eq!(c.advance(), FlowStep::Run(0));
    assert_eq!(c.advance(), FlowStep::Run(1));
    assert_eq!(c.advance(), FlowStep::Run(2));
    assert_eq!(c.advance(), FlowStep::Finished);
    assert_eq!(c.advance(), FlowStep::Finished);
}

#[test]
fn skip_bricks_skips_the_next_ones() {
    let mut c = FlowCursor::new(5);
    assert_eq!(c.advance(), FlowStep::Run(0));
    let mut result = j(r#"{"v": 1, "_skip_bricks": 2}"#);
    c.absorb_result(&mut result);
    assert!(json_equal(&result, &j(r#"{"v": 1}"#)));
    assert_eq!(c.skip_count, 2);
    assert_eq!(c.advance(), FlowStep::Run(3));
    let mut result = j(r#"{"_skip_bricks": 9}"#);
    c.absorb_result(&mut result);
    assert_eq!(c.advance(), FlowStep::Finished);
    let mut odd = j(r#"{"_skip_bricks": "x"}"#);
    let mut c2 = FlowCursor::new(2);
    c2.absorb_result(&mut odd);
    assert!(json_equal(&odd, &j("{}")));
    assert_eq!(c2.skip_count, 0);
}

#[test]
fn flow_shape_and_metadata() {
    assert!(FlowRunner::check_flow_shape(2, 2).is_ok());
    let e = FlowRunner::check_flow_shape(2, 1).unwrap_err();
    assert_eq!(e.message(), "Invalid flow configuration: Number of bricks must match number of configs");
    let r = j(r#"{"token_usage": 120}"#);
    assert_eq!(FlowRunner::extract_token_usage(&r, &BrickType::OpenAi), Some(120));
    assert_eq!(FlowRunner::extract_token_usage(&r, &BrickType::Nvidia), Some(120));
    assert_eq!(FlowRunner::extract_token_usage(&r, &BrickType::HubSpot), None);
    assert!(FlowRunner::is_api_fetch_brick(&BrickType::Notion));
    assert!(!FlowRunner::is_api_fetch_brick(&BrickType::OpenAi));
    assert_eq!(FlowRunner::intermediate_key(4), "brick_4");
    assert_eq!(FlowRunner::fetched_key(12), "fetched_12");
}

#[test]
fn execution_records() {
    let started = FlowRunner::begin_execution("f1", "e1", 100, &j(r#"{"a": 1}"#));
    assert_eq!(started.status, ExecutionStatus::Running);
    let done = FlowRunner::complete_execution(started, Ok(j("2")), 150).unwrap();
    assert_eq!(done.status, ExecutionStatus::Completed);
    assert_eq!(done.completed_at, Some(150));
    assert!(json_equal(done.output_payload.as_ref().unwrap(), &j("2")));
    let again = FlowRunner::begin_execution("f1", "e2", 100, &j("{}"));
    let failed = FlowRunner::complete_execution(again, Err(FlowError::FlowNotFound("f9".to_string())), 120);
    assert_eq!(failed.unwrap_err().message(), "Flow not found: f9");
}

#[test]
fn circuit_breaker_opens_and_recovers() {
    let mut b = CircuitBreaker::new();
    for t in 0..4 {
        b.record_failure(t);
        assert!(!b.is_open);
    }
    b.record_failure(10);
    assert!(b.is_open);
    assert!(!b.should_allow_request(10 + 59_999));
    assert!(b.should_allow_request(10 + 60_000));
    assert!(!b.is_open);
    assert_eq!(b.failure_count, 0);
    b.record_failure(1);
    b.record_success();
    assert_eq!(b.failure_count, 0);
    assert!(b.should_allow_request(2));
}

#[test]
fn retry_decisions() {
    let config = RetryConfig::default();
    assert_eq!(config.max_retries, 3);
    let mut s = RetryState::new(config);
    assert_eq!(s.on_outcome(AttemptOutcome::Response { server_error: true }), RetryDecision::RetryAfter(1000));
    assert_eq!(s.on_outcome(AttemptOutcome::Failed { timeout: true, connect: false, request: false }), RetryDecision::RetryAfter(2000));
    assert_eq!(s.on_outcome(AttemptOutcome::Response { server_error: true }), RetryDecision::RetryAfter(4000));
    assert!(s.has_attempt_left());
    assert_eq!(s.on_outcome(AttemptOutcome::Response { server_error: true }), RetryDecision::ReturnResponse);
    assert_eq!(s.on_outcome(AttemptOutcome::Failed { timeout: true, connect: false, request: false }), RetryDecision::GiveUp);
    assert_eq!(s.on_outcome(AttemptOutcome::Failed { timeout: false, connect: true, request: false }), RetryDecision::GiveUp);
    assert!(s.has_attempt_left());
    assert_eq!(next_delay(5000, 8000), 8000);
    assert_eq!(next_delay(3000, 8000), 6000);
    let mut t = RetryState::new(config);
    assert_eq!(t.on_outcome(AttemptOutcome::CannotClone), RetryDecision::SendWithoutRetry);
    assert_eq!(t.on_outcome(AttemptOutcome::Response { server_error: false }), RetryDecision::ReturnResponse);
}

/// Four sends that cannot connect: waits of 1 s, 2 s and 4 s between them,
/// and none after the last.
#[test]
fn retry_waits_only_between_attempts() {
    let mut s = RetryState::new(RetryConfig::default());
    let connect = AttemptOutcome::Failed { timeout: false, connect: true, request: false };
    let mut waits: Vec<u64> = Vec::new();
    let mut sends = 0;
    while s.has_attempt_left() {
        sends += 1;
        match s.on_outcome(connect) {
            RetryDecision::RetryAfter(ms) => waits.push(ms),
            d => {
                assert_eq!(d, RetryDecision::GiveUp);
                break;
            }
        }
    }
    assert_eq!(sends, 4);
    assert_eq!(waits, vec![1000, 2000, 4000]);
}

#[test]
fn api_keys() {
    let key = ApiKeyService::generate();
    assert!(key.starts_with("fm_"));
    assert_eq!(key.len(), 35);
    assert!(ApiKeyService::validate_format(&key));
    let h = ApiKeyService::hash(&key);
    assert_eq!(h.len(), 64);
    assert!(ApiKeyService::verify(&key, &h));
    assert!(!ApiKeyService::verify("fm_other_key_1", &h));
    assert_eq!(
        ApiKeyService::hash("abc"),
        "ba7816bf8f01cfea414140de5dae2223b00361a396177a9cb410ff61f20015ad"
    );
    assert!(!ApiKeyService::validate_format("fm_short"));
    assert!(!ApiKeyService::validate_format("xx_0123456789"));
}

#[test]
fn authorization_headers() {
    assert!(matches!(parse_authorization(Some("Bearer abc")), Ok(Credential::Bearer(t)) if t == "abc"));
    assert!(matches!(parse_authorization(Some("ApiKey fm_1")), Ok(Credential::ApiKey(t)) if t == "fm_1"));
    assert!(matches!(parse_authorization(Some("Basic x")), Err(AuthError::Unauthorized)));
    assert!(matches!(parse_authorization(None), Err(AuthError::Unauthorized)));
    assert!(api_key_admissible("fm_0123456789", true).is_ok());
    assert!(api_key_admissible("fm_0123456789", false).is_err());
    assert!(api_key_admissible("fm_1", true).is_err());
    let c = token_claims("u1", "a@b.c", 1000);
    assert_eq!(c.exp, 1000 + 86400);
    assert_eq!(c.iat, 1000);
    assert_eq!(AuthError::DatabaseError("x".to_string()).message(), "Database error: x");
    assert_eq!(AuthError::from_token_failure(true).message(), "Token expired");
}

#[test]
fn store_decisions() {
    assert_eq!(page_bounds(None, None), (100, 0));
    assert_eq!(page_bounds(Some(5000), Some(7)), (1000, 7));
    assert_eq!(template_query(Some("sales"), false), TemplateQuery::CategoryOnly);
    assert_eq!(template_query(None, true), TemplateQuery::AllWithSystem);
    assert_eq!(persist_action(None, "* * *"), SchedulePersist::Create);
    assert_eq!(persist_action(Some("* * *"), "* * *"), SchedulePersist::Keep);
    assert_eq!(persist_action(Some("0 * *"), "* * *"), SchedulePersist::Update);
    let rows = vec![("OpenAi".to_string(), 3i64), ("Notion".to_string(), 1), ("OpenAi".to_string(), 5)];
    let s = summarize(9, Some(2), None, &rows);
    assert_eq!(s.total_records, 9);
    assert_eq!(s.fetched_count, 2);
    assert_eq!(s.intermediate_count, 0);
    assert_eq!(s.brick_data_count, vec![("OpenAi".to_string(), 5), ("Notion".to_string(), 1)]);
    assert_eq!(brick_log_name(&BrickType::HubSpot), "hubspot");
    let names = vec!["openai".to_string(), "nvidia".to_string(), "openai".to_string()];
    assert_eq!(positions_equal(&names, "openai"), vec![0, 2]);
    assert_eq!(count_daily(&names, &vec![5, 5, 4], 5, &BrickType::OpenAi), 1);
}

/// Two bricks that return `{"step": 1}` and `{"step": 2}`: the run goes
/// through both in order and ends with the second one's output.
#[test]
fn test_execute_flow() {
    assert!(FlowRunner::check_flow_shape(2, 2).is_ok());
    let outputs = [j(r#"{"step": 1}"#), j(r#"{"step": 2}"#)];
    let mut run = FlowRun::new(2, false, j(r#"{"start": true}"#));
    let mut event = FlowEvent::Begin;
    let mut ran: Vec<usize> = Vec::new();
    let result = loop {
        assert!(run.fits(&event));
        event = match run.step(event) {
            FlowAction::Validate(_) => FlowEvent::Validated(Ok(())),
            FlowAction::CheckQuota(_) => panic!("quotas are not checked"),
            FlowAction::Execute(i, _) => {
                ran.push(i);
                FlowEvent::Executed(Ok(outputs[i].copy()))
            }
            FlowAction::Record(_, _) => FlowEvent::Recorded,
            FlowAction::Finish(out) => break Ok(out),
            FlowAction::Fail(e) => break Err(e),
        };
    };
    assert_eq!(ran, vec![0, 1]);
    assert!(json_equal(&result.unwrap(), &j(r#"{"step": 2}"#)));
}

/// Each brick is validated, then its quota checked, then run; the first
/// failure ends the run with its error.
#[test]
fn flow_steps_and_failures() {
    let mut run = FlowRun::new(2, true, j("{}"));
    assert!(matches!(run.step(FlowEvent::Begin), FlowAction::Validate(0)));
    assert!(matches!(run.step(FlowEvent::Validated(Ok(()))), FlowAction::CheckQuota(0)));
    assert!(matches!(run.step(FlowEvent::QuotaChecked(Ok(()))), FlowAction::Execute(0, _)));
    match run.step(FlowEvent::Executed(Ok(j(r#"{"a": 1, "_skip_bricks": 1}"#)))) {
        FlowAction::Record(0, out) => assert!(json_equal(&out, &j(r#"{"a": 1}"#))),
        _ => panic!("expected a record"),
    }
    match run.step(FlowEvent::Recorded) {
        FlowAction::Finish(out) => assert!(json_equal(&out, &j(r#"{"a": 1}"#))),
        _ => panic!("the second brick is skipped"),
    }
    let mut run = FlowRun::new(1, true, j("{}"));
    run.step(FlowEvent::Begin);
    run.step(FlowEvent::Validated(Ok(())));
    match run.step(FlowEvent::QuotaChecked(Err(QuotaError::Exceeded("Daily limit of 1 exceeded".to_string())))) {
        FlowAction::Fail(e) => assert_eq!(e.message(), "Quota error: Quota exceeded: Daily limit of 1 exceeded"),
        _ => panic!("expected a failure"),
    }
    assert!(!run.fits(&FlowEvent::Recorded));
    let mut run = FlowRun::new(1, false, j("{}"));
    run.step(FlowEvent::Begin);
    match run.step(FlowEvent::Validated(Err(BrickError::ConfigError("bad".to_string())))) {
        FlowAction::Fail(e) => assert_eq!(e.message(), "Brick execution error: Configuration error: bad"),
        _ => panic!("expected a failure"),
    }
}

/// One `openai` log made today counts once for the OpenAI brick type.
#[test]
fn test_get_daily_usage() {
    let today: i32 = 739_000;
    let names = vec!["openai".to_string()];
    let days = vec![today];
    assert_eq!(count_daily(&names, &days, today, &BrickType::OpenAi), 1);
    assert_eq!(count_daily(&names, &days, today + 1, &BrickType::OpenAi), 0);
    assert_eq!(count_daily(&names, &days, today, &BrickType::Nvidia), 0);
}

/// A token issued at some time carries the claims back for a day and a
/// minute of leeway, then has expired; another secret or a broken token is
/// invalid.
#[test]
fn session_tokens() {
    let service = JwtService::new("s3cret".to_string());
    let token = service.generate_token("user-1", "a@b.c", 1_000_000).unwrap();
    let claims = service.verify_token_at(&token, 1_000_000).unwrap();
    assert_eq!(claims.sub, "user-1");
    assert_eq!(claims.email, "a@b.c");
    assert_eq!(claims.iat, 1_000_000);
    assert_eq!(claims.exp, 1_086_400);
    assert!(service.verify_token_at(&token, 1_086_460).is_ok());
    assert!(matches!(service.verify_token_at(&token, 1_086_461), Err(AuthError::TokenExpired)));
    assert!(matches!(service.verify_token(&token), Err(AuthError::TokenExpired)));
    let other = JwtService::new("other".to_string());
    assert!(matches!(other.verify_token_at(&token, 1_000_000), Err(AuthError::InvalidToken)));
    assert!(matches!(service.verify_token_at("a.b.c", 1_000_000), Err(AuthError::InvalidToken)));
    let mut parts: Vec<&str> = token.split('.').collect();
    parts[1] = "eyJzdWIiOiJ4In0";
    let forged = parts.join(".");
    assert!(matches!(service.verify_token_at(&forged, 1_000_000), Err(AuthError::InvalidToken)));
}
