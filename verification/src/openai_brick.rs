//! The brick that asks an OpenAI chat model to answer a prompt built from
//! the payload.
use vstd::prelude::*;
use crate::json::{Json, JsonNumber, JsonV, empty_obj, empty_arr, NumV, jget, jindex, jstr, ju64, json_text};
use crate::text::{concat, concat3, replace_all, replace_text};
use crate::types::BrickType;
use crate::brick_traits::{BrickError, BrickErr, json_bres};
use crate::mapper_bricks::{str_field, str_or, text_of, with_field};
use crate::service::{
    HttpMethod, HttpRequest, RequestBody, RequestV, BodyV, HttpReply, ReplyV, success,
    is_success, body_or_empty, reply_text_or_empty, obj1, obj2, put, pair, bearer,
};

verus! {

/// Calls OpenAI's chat completions.
pub struct OpenAiBrick;

/// The call a brick makes: the model and the request.
#[derive(Debug)]
pub struct OpenAiCall {
    pub model: String,
    pub request: HttpRequest,
}

/// The template with each `{{key}}` of the entries replaced by the entry's
/// text, entry by entry.
pub open spec fn fill_entries(t: Seq<char>, s: Seq<(Seq<char>, JsonV)>) -> Seq<char>
    decreases s.len(),
{
    if s.len() == 0 {
        t
    } else {
        replace_all(
            fill_entries(t, s.drop_last()),
            "{{"@ + s.last().0 + "}}"@,
            text_of(s.last().1),
        )
    }
}

/// The prompt: the template filled from the input's entries.
pub open spec fn fill_template(t: Seq<char>, input: JsonV) -> Seq<char> {
    match input {
        JsonV::Obj(s) => fill_entries(t, s),
        _ => t,
    }
}

/// The request body of a chat completion.
pub open spec fn chat_body(model: Seq<char>, prompt: Seq<char>, temperature: JsonV, max_tokens: u64) -> JsonV {
    with_field(
        with_field(
            obj2(
                "model"@,
                JsonV::Str(model),
                "messages"@,
                JsonV::Arr(
                    seq![obj2("role"@, JsonV::Str("user"@), "content"@, JsonV::Str(prompt))],
                ),
            ),
            "temperature"@,
            temperature,
        ),
        "max_tokens"@,
        JsonV::Num(NumV::Int(max_tokens as int)),
    )
}

/// The call for the config: the model and the request. The temperature is
/// given as the value to send.
pub open spec fn openai_plan(input: JsonV, config: JsonV, temperature: JsonV) -> Result<(Seq<char>, RequestV), BrickErr> {
    match str_field(config, "api_key"@) {
        None => Err(BrickErr::ConfigError("api_key is required"@)),
        Some(key) => {
            let model = str_or(config, "model_name"@, "gpt-3.5-turbo"@);
            match str_field(config, "prompt_template"@) {
                None => Err(BrickErr::ConfigError("prompt_template is required"@)),
                Some(t) => {
                    let max_tokens = match jget(config, "max_tokens"@) {
                        Some(v) => match ju64(v) {
                            Some(n) => n,
                            None => 1000u64,
                        },
                        None => 1000u64,
                    };
                    Ok(
                        (
                            model,
                            RequestV {
                                method: HttpMethod::Post,
                                url: "https://api.openai.com/v1/chat/completions"@,
                                headers: seq![
                                    ("Authorization"@, "Bearer "@ + key),
                                    ("Content-Type"@, "application/json"@),
                                ],
                                query: Seq::empty(),
                                body: BodyV::Json(
                                    chat_body(model, fill_template(t, input), temperature, max_tokens),
                                ),
                            },
                        ),
                    )
                },
            }
        },
    }
}

/// The answer's text in a chat completion reply.
pub open spec fn answer_of(v: JsonV) -> Option<Seq<char>> {
    match jget(v, "choices"@) {
        Some(c) => match jindex(c, 0) {
            Some(c0) => match jget(c0, "message"@) {
                Some(m) => match jget(m, "content"@) {
                    Some(x) => jstr(x),
                    None => None,
                },
                None => None,
            },
            None => None,
        },
        None => None,
    }
}

/// The tokens a reply reports.
pub open spec fn tokens_of(v: JsonV) -> Option<u64> {
    match jget(v, "usage"@) {
        Some(u) => match jget(u, "total_tokens"@) {
            Some(t) => ju64(t),
            None => None,
        },
        None => None,
    }
}

/// The output of a chat completion, from its reply.
pub open spec fn openai_output(input: JsonV, model: Seq<char>, reply: ReplyV) -> Result<JsonV, BrickErr> {
    if !success(reply.status) {
        Err(BrickErr::ExecutionError("OpenAI API returned error: "@ + body_or_empty(reply)))
    } else {
        match reply.json {
            Err(m) => Err(BrickErr::ExecutionError("Failed to parse response: "@ + m)),
            Ok(v) => match answer_of(v) {
                None => Err(BrickErr::ExecutionError("Invalid response format"@)),
                Some(content) => Ok(
                    with_field(
                        with_field(
                            obj2("content"@, JsonV::Str(content), "model"@, JsonV::Str(model)),
                            "token_usage"@,
                            match tokens_of(v) {
                                Some(n) => JsonV::Num(NumV::Int(n as int)),
                                None => JsonV::Null,
                            },
                        ),
                        "input"@,
                        input,
                    ),
                ),
            },
        }
    }
}

/// Fills the `{{key}}` placeholders of a template from the input's entries.
pub fn replace_placeholders(template: &str, input: &Json) -> (r: String)
    ensures
        r@ == fill_template(template@, input@),
{
    let mut result = template.to_owned();
    match input.as_object() {
        Some(m) => {
            let ghost s = m@;
            let n = m.len();
            let mut i: usize = 0;
            assert(s.take(0) =~= Seq::<(Seq<char>, JsonV)>::empty());
            while i < n
                invariant
                    n == s.len(),
                    s == m@,
                    i <= n,
                    result@ == fill_entries(template@, s.take(i as int)),
                decreases n - i,
            {
                proof {
                    assert(s.take(i + 1).drop_last() =~= s.take(i as int));
                    assert(s.take(i + 1).last() == s[i as int]);
                }
                let key = m.key_at(i);
                let value = m.value_at(i);
                let placeholder = concat3("{{", key.as_str(), "}}");
                proof {
                    reveal_strlit("{{");
                    assert(placeholder@.len() > 0);
                }
                let replacement = match value.as_str() {
                    Some(t) => t.to_owned(),
                    None => crate::json::to_json_text(value),
                };
                result = replace_text(result.as_str(), placeholder.as_str(), replacement.as_str());
                i = i + 1;
            }
            assert(s.take(n as int) =~= s);
            result
        },
        None => result,
    }
}

/// The JSON schema of the OpenAI brick's configuration.
pub open spec fn openai_schema() -> JsonV {
    let api_key = empty_obj()
        .entry("type"@, JsonV::Str("string"@))
        .entry("description"@, JsonV::Str("OpenAI API key"@));
    let model_name = empty_obj()
        .entry("type"@, JsonV::Str("string"@))
        .entry("description"@, JsonV::Str("Model to use (e.g., gpt-4, gpt-3.5-turbo)"@))
        .entry("default"@, JsonV::Str("gpt-3.5-turbo"@));
    let prompt_template = empty_obj()
        .entry("type"@, JsonV::Str("string"@))
        .entry("description"@, JsonV::Str("Prompt template with {{field}} placeholders"@));
    let temperature = empty_obj()
        .entry("type"@, JsonV::Str("number"@))
        .entry("description"@, JsonV::Str("Temperature for generation"@))
        .entry("default"@, JsonV::Num(NumV::Float("0.7"@)));
    let max_tokens = empty_obj()
        .entry("type"@, JsonV::Str("number"@))
        .entry("description"@, JsonV::Str("Maximum tokens to generate"@))
        .entry("default"@, JsonV::Num(NumV::Int(1000)));
    let properties = empty_obj()
        .entry("api_key"@, api_key)
        .entry("model_name"@, model_name)
        .entry("prompt_template"@, prompt_template)
        .entry("temperature"@, temperature)
        .entry("max_tokens"@, max_tokens);
    empty_obj()
        .entry("type"@, JsonV::Str("object"@))
        .entry("properties"@, properties)
        .entry("required"@, empty_arr()
            .item(JsonV::Str("api_key"@))
            .item(JsonV::Str("prompt_template"@)))
}

impl OpenAiBrick {
    /// The brick's name.
    pub fn name(&self) -> (s: &'static str)
        ensures
            s@ == "openai"@,
    {
        "openai"
    }

    /// The brick's type.
    pub fn brick_type(&self) -> (t: BrickType)
        ensures
            t == BrickType::OpenAi,
    {
        BrickType::OpenAi
    }

    /// The JSON schema of the brick's configuration.
    pub fn config_schema(&self) -> (r: Json)
        ensures
            r@ == openai_schema(),
    {
        let api_key = Json::empty_object()
            .entry("type", Json::from_str("string"))
            .entry("description", Json::from_str("OpenAI API key"));
        let model_name = Json::empty_object()
            .entry("type", Json::from_str("string"))
            .entry("description", Json::from_str("Model to use (e.g., gpt-4, gpt-3.5-turbo)"))
            .entry("default", Json::from_str("gpt-3.5-turbo"));
        let prompt_template = Json::empty_object()
            .entry("type", Json::from_str("string"))
            .entry("description", Json::from_str("Prompt template with {{field}} placeholders"));
        let temperature = Json::empty_object()
            .entry("type", Json::from_str("number"))
            .entry("description", Json::from_str("Temperature for generation"))
            .entry("default", Json::Number(JsonNumber::Float("0.7".to_owned())));
        let max_tokens = Json::empty_object()
            .entry("type", Json::from_str("number"))
            .entry("description", Json::from_str("Maximum tokens to generate"))
            .entry("default", Json::from_u64(1000));
        let properties = Json::empty_object()
            .entry("api_key", api_key)
            .entry("model_name", model_name)
            .entry("prompt_template", prompt_template)
            .entry("temperature", temperature)
            .entry("max_tokens", max_tokens);
        Json::empty_object()
            .entry("type", Json::from_str("object"))
            .entry("properties", properties)
            .entry("required", Json::empty_array()
                .item(Json::from_str("api_key"))
                .item(Json::from_str("prompt_template")))
    }

    /// The call for the config; `temperature` is the value to send.
    pub fn plan(&self, input: &Json, config: &Json, temperature: Json) -> (r: Result<OpenAiCall, BrickError>)
        ensures
            match (r, openai_plan(input@, config@, temperature@)) {
                (Ok(c), Ok((m, q))) => c.model@ == m && c.request@ == q,
                (Err(x), Err(y)) => x@ == y,
                _ => false,
            },
    {
        let key = match config.get("api_key") {
            Some(v) => match v.as_str() {
                Some(k) => k,
                None => return Err(BrickError::ConfigError("api_key is required".to_owned())),
            },
            None => return Err(BrickError::ConfigError("api_key is required".to_owned())),
        };
        let model = match config.get("model_name") {
            Some(v) => match v.as_str() {
                Some(m) => m,
                None => "gpt-3.5-turbo",
            },
            None => "gpt-3.5-turbo",
        };
        let template = match config.get("prompt_template") {
            Some(v) => match v.as_str() {
                Some(t) => t,
                None => return Err(BrickError::ConfigError("prompt_template is required".to_owned())),
            },
            None => return Err(BrickError::ConfigError("prompt_template is required".to_owned())),
        };
        let max_tokens: u64 = match config.get("max_tokens") {
            Some(v) => match v.as_u64() {
                Some(n) => n,
                None => 1000,
            },
            None => 1000,
        };
        let prompt = replace_placeholders(template, input);
        let message = put(
            put(Json::empty_object(), "role", Json::from_str("user")),
            "content",
            Json::String(prompt),
        );
        let mut messages: Vec<Json> = Vec::new();
        messages.push(message);
        let messages = Json::from_vec(messages);
        proof {
            assert(messages@->Arr_0 =~= seq![message@]);
        }
        let body = put(put(Json::empty_object(), "model", Json::from_str(model)), "messages", messages);
        let body = put(put(body, "temperature", temperature), "max_tokens", Json::from_u64(max_tokens));
        let mut headers: Vec<(String, String)> = Vec::new();
        let b = bearer(key);
        headers.push(pair("Authorization", b.as_str()));
        headers.push(pair("Content-Type", "application/json"));
        let request = HttpRequest {
            method: HttpMethod::Post,
            url: "https://api.openai.com/v1/chat/completions".to_owned(),
            headers,
            query: Vec::new(),
            body: RequestBody::Json(body),
        };
        assert(request@.headers =~= seq![("Authorization"@, "Bearer "@ + key@), ("Content-Type"@, "application/json"@)]);
        assert(request@.query =~= Seq::<(Seq<char>, Seq<char>)>::empty());
        Ok(OpenAiCall { model: model.to_owned(), request })
    }

    /// The error of a call that could not be made.
    pub fn send_error(reason: &str) -> (e: BrickError)
        ensures
            e@ == BrickErr::NetworkError("OpenAI API error: "@ + reason@),
    {
        BrickError::NetworkError(concat("OpenAI API error: ", reason))
    }

    /// The output of the call, from its reply.
    pub fn finish(&self, input: Json, call: &OpenAiCall, reply: HttpReply) -> (r: Result<Json, BrickError>)
        ensures
            json_bres(r) == openai_output(input@, call.model@, reply@),
    {
        if !is_success(reply.status) {
            let t = reply_text_or_empty(&reply);
            return Err(BrickError::ExecutionError(concat("OpenAI API returned error: ", t.as_str())));
        }
        let v = match &reply.json {
            Err(m) => return Err(BrickError::ExecutionError(concat("Failed to parse response: ", m.as_str()))),
            Ok(v) => v,
        };
        let content = match v.get("choices") {
            Some(c) => match c.get_index(0) {
                Some(c0) => match c0.get("message") {
                    Some(m) => match m.get("content") {
                        Some(x) => x.as_str(),
                        None => None,
                    },
                    None => None,
                },
                None => None,
            },
            None => None,
        };
        let content = match content {
            Some(c) => c,
            None => return Err(BrickError::ExecutionError("Invalid response format".to_owned())),
        };
        let tokens = match v.get("usage") {
            Some(u) => match u.get("total_tokens") {
                Some(t) => t.as_u64(),
                None => None,
            },
            None => None,
        };
        let usage = match tokens {
            Some(n) => Json::from_u64(n),
            None => Json::Null,
        };
        let o = put(put(Json::empty_object(), "content", Json::from_str(content)), "model", Json::from_str(call.model.as_str()));
        Ok(put(put(o, "token_usage", usage), "input", input))
    }
}

} // verus!
