//! The brick that calls an n8n webhook with the payload.
use vstd::prelude::*;
use crate::json::{Json, JsonV, empty_obj, empty_arr};
use crate::text::concat;
use crate::types::BrickType;
use crate::brick_traits::{BrickError, BrickErr, json_bres};
use crate::mapper_bricks::{str_field, str_or};
use crate::service::{
    HttpMethod, HttpRequest, RequestBody, RequestV, BodyV, HttpReply, ReplyV, success,
    is_success, body_or_empty, reply_text_or_empty, obj2, put,
};

verus! {

/// Sends the payload to an n8n webhook.
pub struct N8nBrick;

/// The request for a webhook call.
pub open spec fn n8n_plan(input: JsonV, config: JsonV) -> Result<RequestV, BrickErr> {
    match str_field(config, "webhook_url"@) {
        None => Err(BrickErr::ConfigError("webhook_url is required"@)),
        Some(url) => {
            let m = str_or(config, "method"@, "POST"@);
            let method = if m == "POST"@ {
                Some(HttpMethod::Post)
            } else if m == "GET"@ {
                Some(HttpMethod::Get)
            } else if m == "PUT"@ {
                Some(HttpMethod::Put)
            } else {
                None
            };
            match method {
                None => Err(BrickErr::ConfigError("Unsupported method: "@ + m)),
                Some(method) => Ok(
                    RequestV {
                        method,
                        url,
                        headers: Seq::empty(),
                        query: Seq::empty(),
                        body: BodyV::Json(input),
                    },
                ),
            }
        },
    }
}

/// The output of a webhook call: the reply's JSON, or a success note with
/// the input when the reply is not JSON.
pub open spec fn n8n_output(input: JsonV, reply: ReplyV) -> Result<JsonV, BrickErr> {
    if !success(reply.status) {
        Err(BrickErr::ExecutionError("n8n webhook returned error: "@ + body_or_empty(reply)))
    } else {
        match reply.json {
            Ok(v) => Ok(v),
            Err(_) => Ok(obj2("status"@, JsonV::Str("success"@), "input"@, input)),
        }
    }
}

/// The JSON schema of the n8n brick's configuration.
pub open spec fn n8n_schema() -> JsonV {
    let webhook_url = empty_obj()
        .entry("type"@, JsonV::Str("string"@))
        .entry("description"@, JsonV::Str("n8n webhook URL"@));
    let method = empty_obj()
        .entry("type"@, JsonV::Str("string"@))
        .entry("enum"@, empty_arr()
            .item(JsonV::Str("POST"@))
            .item(JsonV::Str("GET"@))
            .item(JsonV::Str("PUT"@)))
        .entry("description"@, JsonV::Str("HTTP method"@))
        .entry("default"@, JsonV::Str("POST"@));
    let properties = empty_obj()
        .entry("webhook_url"@, webhook_url)
        .entry("method"@, method);
    empty_obj()
        .entry("type"@, JsonV::Str("object"@))
        .entry("properties"@, properties)
        .entry("required"@, empty_arr().item(JsonV::Str("webhook_url"@)))
}

impl N8nBrick {
    /// The brick's name.
    pub fn name(&self) -> (s: &'static str)
        ensures
            s@ == "n8n"@,
    {
        "n8n"
    }

    /// The brick's type.
    pub fn brick_type(&self) -> (t: BrickType)
        ensures
            t == BrickType::N8n,
    {
        BrickType::N8n
    }

    /// The JSON schema of the brick's configuration.
    pub fn config_schema(&self) -> (r: Json)
        ensures
            r@ == n8n_schema(),
    {
        let webhook_url = Json::empty_object()
            .entry("type", Json::from_str("string"))
            .entry("description", Json::from_str("n8n webhook URL"));
        let method = Json::empty_object()
            .entry("type", Json::from_str("string"))
            .entry("enum", Json::empty_array()
                .item(Json::from_str("POST"))
                .item(Json::from_str("GET"))
                .item(Json::from_str("PUT")))
            .entry("description", Json::from_str("HTTP method"))
            .entry("default", Json::from_str("POST"));
        let properties = Json::empty_object()
            .entry("webhook_url", webhook_url)
            .entry("method", method);
        Json::empty_object()
            .entry("type", Json::from_str("object"))
            .entry("properties", properties)
            .entry("required", Json::empty_array().item(Json::from_str("webhook_url")))
    }

    /// The request that calls the configured webhook with the payload.
    pub fn plan(&self, input: &Json, config: &Json) -> (r: Result<HttpRequest, BrickError>)
        ensures
            match (r, n8n_plan(input@, config@)) {
                (Ok(q), Ok(p)) => q@ == p,
                (Err(e), Err(f)) => e@ == f,
                _ => false,
            },
    {
        let url = match config.get("webhook_url") {
            Some(v) => match v.as_str() {
                Some(u) => u,
                None => return Err(BrickError::ConfigError("webhook_url is required".to_owned())),
            },
            None => return Err(BrickError::ConfigError("webhook_url is required".to_owned())),
        };
        let m = match config.get("method") {
            Some(v) => match v.as_str() {
                Some(s) => s,
                None => "POST",
            },
            None => "POST",
        };
        let method = if crate::json::string_eq(m, "POST") {
            HttpMethod::Post
        } else if crate::json::string_eq(m, "GET") {
            HttpMethod::Get
        } else if crate::json::string_eq(m, "PUT") {
            HttpMethod::Put
        } else {
            return Err(BrickError::ConfigError(concat("Unsupported method: ", m)));
        };
        let r = HttpRequest {
            method,
            url: url.to_owned(),
            headers: Vec::new(),
            query: Vec::new(),
            body: RequestBody::Json(input.copy()),
        };
        assert(r@.headers =~= Seq::<(Seq<char>, Seq<char>)>::empty());
        assert(r@.query =~= Seq::<(Seq<char>, Seq<char>)>::empty());
        Ok(r)
    }

    /// The error of a webhook call that could not be made.
    pub fn send_error(reason: &str) -> (e: BrickError)
        ensures
            e@ == BrickErr::NetworkError("n8n webhook error: "@ + reason@),
    {
        BrickError::NetworkError(concat("n8n webhook error: ", reason))
    }

    /// The output of the call, from its reply.
    pub fn finish(&self, input: Json, reply: HttpReply) -> (r: Result<Json, BrickError>)
        ensures
            json_bres(r) == n8n_output(input@, reply@),
    {
        if !is_success(reply.status) {
            let t = reply_text_or_empty(&reply);
            return Err(BrickError::ExecutionError(concat("n8n webhook returned error: ", t.as_str())));
        }
        match reply.json {
            Ok(v) => Ok(v),
            Err(_) => {
                let o = put(Json::empty_object(), "status", Json::from_str("success"));
                Ok(put(o, "input", input))
            },
        }
    }
}

} // verus!
