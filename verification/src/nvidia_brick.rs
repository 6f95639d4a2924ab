//! The brick that calls NVIDIA's speech, vision and text services.
use vstd::prelude::*;
use crate::json::{Json, JsonV, empty_obj, empty_arr, jget, jstr, string_eq};
use crate::text::{concat, concat3};
use crate::types::BrickType;
use crate::brick_traits::{BrickError, BrickErr, json_bres};
use crate::mapper_bricks::{str_field, str_or};
use crate::service::{
    HttpMethod, HttpRequest, RequestBody, RequestV, BodyV, HttpReply, ReplyV, success,
    is_success, obj1, obj3, put, pair, bearer,
};

verus! {

/// Calls NVIDIA's services.
pub struct NvidiaBrick;

/// The NVIDIA service a brick calls.
#[derive(Debug, Clone, Copy, PartialEq, Eq, Structural)]
pub enum NvidiaEndpoint {
    /// Speech to text.
    Asr,
    /// Text in images.
    Ocr,
    TextGeneration,
}

/// The call a brick makes: the service, the model (for text generation)
/// and the request.
#[derive(Debug)]
pub struct NvidiaCall {
    pub endpoint: NvidiaEndpoint,
    pub model: String,
    pub request: HttpRequest,
}

/// The endpoint a name selects.
pub open spec fn endpoint_named(s: Seq<char>) -> Option<NvidiaEndpoint> {
    if s == "asr"@ {
        Some(NvidiaEndpoint::Asr)
    } else if s == "ocr"@ {
        Some(NvidiaEndpoint::Ocr)
    } else if s == "text_generation"@ {
        Some(NvidiaEndpoint::TextGeneration)
    } else {
        None
    }
}

/// The first of two entries that the input has, when it is a string.
pub open spec fn first_str(input: JsonV, k1: Seq<char>, k2: Seq<char>) -> Option<Seq<char>> {
    match jget(input, k1) {
        Some(v) => jstr(v),
        None => match jget(input, k2) {
            Some(v) => jstr(v),
            None => None,
        },
    }
}

/// An NVIDIA request: bearer key and a JSON body.
pub open spec fn nvidia_request(url: Seq<char>, key: Seq<char>, body: JsonV) -> RequestV {
    RequestV {
        method: HttpMethod::Post,
        url,
        headers: seq![("Authorization"@, "Bearer "@ + key), ("Content-Type"@, "application/json"@)],
        query: Seq::empty(),
        body: BodyV::Json(body),
    }
}

/// The default model of text generation.
pub open spec fn default_model() -> Seq<char> {
    "nvidia/meta/llama-3-8b-instruct"@
}

/// The call for the configured endpoint: the endpoint, the model, the request.
pub open spec fn nvidia_plan(input: JsonV, config: JsonV) -> Result<(NvidiaEndpoint, Seq<char>, RequestV), BrickErr> {
    match str_field(config, "api_key"@) {
        None => Err(BrickErr::ConfigError("api_key is required"@)),
        Some(key) => match str_field(config, "endpoint"@) {
            None => Err(BrickErr::ConfigError("endpoint is required"@)),
            Some(name) => match endpoint_named(name) {
                None => Err(
                    BrickErr::ConfigError(
                        "Invalid endpoint: "@ + name + ". Must be one of: asr, ocr, text_generation"@,
                    ),
                ),
                Some(NvidiaEndpoint::Asr) => match first_str(input, "audio_url"@, "audio_base64"@) {
                    None => Err(BrickErr::InvalidInput("audio_url or audio_base64 is required"@)),
                    Some(d) => Ok(
                        (
                            NvidiaEndpoint::Asr,
                            Seq::empty(),
                            nvidia_request(
                                "https://api.nvidia.com/v1/speech/asr"@,
                                key,
                                obj1("audio"@, JsonV::Str(d)),
                            ),
                        ),
                    ),
                },
                Some(NvidiaEndpoint::Ocr) => match first_str(input, "image_url"@, "image_base64"@) {
                    None => Err(BrickErr::InvalidInput("image_url or image_base64 is required"@)),
                    Some(d) => Ok(
                        (
                            NvidiaEndpoint::Ocr,
                            Seq::empty(),
                            nvidia_request(
                                "https://api.nvidia.com/v1/vision/ocr"@,
                                key,
                                obj1("image"@, JsonV::Str(d)),
                            ),
                        ),
                    ),
                },
                Some(NvidiaEndpoint::TextGeneration) => {
                    let model = str_or(config, "model"@, default_model());
                    match str_field(input, "prompt"@) {
                        None => Err(BrickErr::InvalidInput("prompt is required"@)),
                        Some(p) => Ok(
                            (
                                NvidiaEndpoint::TextGeneration,
                                model,
                                nvidia_request(
                                    "https://api.nvidia.com/v1/text/generation"@,
                                    key,
                                    obj3(
                                        "model"@,
                                        JsonV::Str(model),
                                        "prompt"@,
                                        JsonV::Str(p),
                                        "max_tokens"@,
                                        JsonV::Num(crate::json::NumV::Int(1000)),
                                    ),
                                ),
                            ),
                        ),
                    }
                },
            },
        },
    }
}

/// The name of an endpoint in messages.
pub open spec fn endpoint_label(e: NvidiaEndpoint) -> Seq<char> {
    match e {
        NvidiaEndpoint::Asr => "ASR"@,
        NvidiaEndpoint::Ocr => "OCR"@,
        NvidiaEndpoint::TextGeneration => "Text Generation"@,
    }
}

/// An entry of the reply, or a default.
pub open spec fn entry_or(v: JsonV, k: Seq<char>, d: JsonV) -> JsonV {
    match jget(v, k) {
        Some(x) => x,
        None => d,
    }
}

/// The output of a call, from its reply.
pub open spec fn nvidia_output(input: JsonV, e: NvidiaEndpoint, model: Seq<char>, reply: ReplyV) -> Result<JsonV, BrickErr> {
    if !success(reply.status) {
        match reply.body {
            Err(m) => Err(BrickErr::NetworkError("Failed to read error response: "@ + m)),
            Ok(t) => Err(
                BrickErr::ExecutionError("NVIDIA "@ + endpoint_label(e) + " API returned error: "@ + t),
            ),
        }
    } else {
        match reply.json {
            Err(m) => Err(BrickErr::ExecutionError("Failed to parse response: "@ + m)),
            Ok(v) => Ok(
                match e {
                    NvidiaEndpoint::Asr => obj3(
                        "text"@,
                        entry_or(v, "text"@, JsonV::Null),
                        "confidence"@,
                        entry_or(v, "confidence"@, JsonV::Null),
                        "input"@,
                        input,
                    ),
                    NvidiaEndpoint::Ocr => obj3(
                        "text"@,
                        entry_or(v, "text"@, JsonV::Null),
                        "bounding_boxes"@,
                        entry_or(v, "bounding_boxes"@, JsonV::Arr(Seq::empty())),
                        "input"@,
                        input,
                    ),
                    NvidiaEndpoint::TextGeneration => obj3(
                        "text"@,
                        entry_or(v, "text"@, JsonV::Null),
                        "model"@,
                        JsonV::Str(model),
                        "input"@,
                        input,
                    ),
                },
            ),
        }
    }
}

/// The request with the bearer key and a JSON body.
fn nvidia_call(url: &str, key: &str, body: Json) -> (r: HttpRequest)
    ensures
        r@ == nvidia_request(url@, key@, body@),
{
    let mut headers: Vec<(String, String)> = Vec::new();
    let b = bearer(key);
    headers.push(pair("Authorization", b.as_str()));
    headers.push(pair("Content-Type", "application/json"));
    let r = HttpRequest {
        method: HttpMethod::Post,
        url: url.to_owned(),
        headers,
        query: Vec::new(),
        body: RequestBody::Json(body),
    };
    assert(r@.headers =~= seq![("Authorization"@, "Bearer "@ + key@), ("Content-Type"@, "application/json"@)]);
    assert(r@.query =~= Seq::<(Seq<char>, Seq<char>)>::empty());
    r
}

/// The first of two entries of a value, when it is a string.
fn first_string<'a>(input: &'a Json, k1: &str, k2: &str) -> (r: Option<&'a str>)
    ensures
        match r {
            Some(s) => first_str(input@, k1@, k2@) == Some(s@),
            None => first_str(input@, k1@, k2@) is None,
        },
{
    match input.get(k1) {
        Some(v) => v.as_str(),
        None => match input.get(k2) {
            Some(v) => v.as_str(),
            None => None,
        },
    }
}

/// An entry of a value, or a default.
fn entry_or_default(v: &Json, k: &str, d: Json) -> (r: Json)
    ensures
        r@ == entry_or(v@, k@, d@),
{
    match v.get(k) {
        Some(x) => x.copy(),
        None => d,
    }
}

/// The JSON schema of the NVIDIA brick's configuration.
pub open spec fn nvidia_schema() -> JsonV {
    let api_key = empty_obj()
        .entry("type"@, JsonV::Str("string"@))
        .entry("description"@, JsonV::Str("NVIDIA API key"@));
    let endpoint = empty_obj()
        .entry("type"@, JsonV::Str("string"@))
        .entry("enum"@, empty_arr()
            .item(JsonV::Str("asr"@))
            .item(JsonV::Str("ocr"@))
            .item(JsonV::Str("text_generation"@)))
        .entry("description"@, JsonV::Str("NVIDIA endpoint to use"@));
    let model = empty_obj()
        .entry("type"@, JsonV::Str("string"@))
        .entry("description"@, JsonV::Str("Model name (optional)"@));
    let properties = empty_obj()
        .entry("api_key"@, api_key)
        .entry("endpoint"@, endpoint)
        .entry("model"@, model);
    empty_obj()
        .entry("type"@, JsonV::Str("object"@))
        .entry("properties"@, properties)
        .entry("required"@, empty_arr()
            .item(JsonV::Str("api_key"@))
            .item(JsonV::Str("endpoint"@)))
}

impl NvidiaBrick {
    /// The brick's name.
    pub fn name(&self) -> (s: &'static str)
        ensures
            s@ == "nvidia"@,
    {
        "nvidia"
    }

    /// The brick's type.
    pub fn brick_type(&self) -> (t: BrickType)
        ensures
            t == BrickType::Nvidia,
    {
        BrickType::Nvidia
    }

    /// The JSON schema of the brick's configuration.
    pub fn config_schema(&self) -> (r: Json)
        ensures
            r@ == nvidia_schema(),
    {
        let api_key = Json::empty_object()
            .entry("type", Json::from_str("string"))
            .entry("description", Json::from_str("NVIDIA API key"));
        let endpoint = Json::empty_object()
            .entry("type", Json::from_str("string"))
            .entry("enum", Json::empty_array()
                .item(Json::from_str("asr"))
                .item(Json::from_str("ocr"))
                .item(Json::from_str("text_generation")))
            .entry("description", Json::from_str("NVIDIA endpoint to use"));
        let model = Json::empty_object()
            .entry("type", Json::from_str("string"))
            .entry("description", Json::from_str("Model name (optional)"));
        let properties = Json::empty_object()
            .entry("api_key", api_key)
            .entry("endpoint", endpoint)
            .entry("model", model);
        Json::empty_object()
            .entry("type", Json::from_str("object"))
            .entry("properties", properties)
            .entry("required", Json::empty_array()
                .item(Json::from_str("api_key"))
                .item(Json::from_str("endpoint")))
    }

    /// The call for the configured endpoint.
    pub fn plan(&self, input: &Json, config: &Json) -> (r: Result<NvidiaCall, BrickError>)
        ensures
            match (r, nvidia_plan(input@, config@)) {
                (Ok(c), Ok((e, m, q))) => c.endpoint == e && c.model@ == m && c.request@ == q,
                (Err(x), Err(y)) => x@ == y,
                _ => false,
            },
    {
        let key = match first_string(config, "api_key", "api_key") {
            Some(k) => k,
            None => return Err(BrickError::ConfigError("api_key is required".to_owned())),
        };
        let name = match first_string(config, "endpoint", "endpoint") {
            Some(n) => n,
            None => return Err(BrickError::ConfigError("endpoint is required".to_owned())),
        };
        if string_eq(name, "asr") {
            let d = match first_string(input, "audio_url", "audio_base64") {
                Some(d) => d,
                None => {
                    return Err(
                        BrickError::InvalidInput("audio_url or audio_base64 is required".to_owned()),
                    );
                },
            };
            let body = put(Json::empty_object(), "audio", Json::from_str(d));
            Ok(
                NvidiaCall {
                    endpoint: NvidiaEndpoint::Asr,
                    model: String::new(),
                    request: nvidia_call("https://api.nvidia.com/v1/speech/asr", key, body),
                },
            )
        } else if string_eq(name, "ocr") {
            let d = match first_string(input, "image_url", "image_base64") {
                Some(d) => d,
                None => {
                    return Err(
                        BrickError::InvalidInput("image_url or image_base64 is required".to_owned()),
                    );
                },
            };
            let body = put(Json::empty_object(), "image", Json::from_str(d));
            Ok(
                NvidiaCall {
                    endpoint: NvidiaEndpoint::Ocr,
                    model: String::new(),
                    request: nvidia_call("https://api.nvidia.com/v1/vision/ocr", key, body),
                },
            )
        } else if string_eq(name, "text_generation") {
            let model = match first_string(config, "model", "model") {
                Some(m) => m,
                None => "nvidia/meta/llama-3-8b-instruct",
            };
            let prompt = match first_string(input, "prompt", "prompt") {
                Some(p) => p,
                None => return Err(BrickError::InvalidInput("prompt is required".to_owned())),
            };
            let b1 = put(Json::empty_object(), "model", Json::from_str(model));
            let b2 = put(b1, "prompt", Json::from_str(prompt));
            let body = put(b2, "max_tokens", Json::from_u64(1000));
            Ok(
                NvidiaCall {
                    endpoint: NvidiaEndpoint::TextGeneration,
                    model: model.to_owned(),
                    request: nvidia_call("https://api.nvidia.com/v1/text/generation", key, body),
                },
            )
        } else {
            let head = concat("Invalid endpoint: ", name);
            Err(
                BrickError::ConfigError(
                    concat(head.as_str(), ". Must be one of: asr, ocr, text_generation"),
                ),
            )
        }
    }

    /// The name of an endpoint in messages.
    pub fn endpoint_label(endpoint: NvidiaEndpoint) -> (s: &'static str)
        ensures
            s@ == endpoint_label(endpoint),
    {
        match endpoint {
            NvidiaEndpoint::Asr => "ASR",
            NvidiaEndpoint::Ocr => "OCR",
            NvidiaEndpoint::TextGeneration => "Text Generation",
        }
    }

    /// The error of a call that could not be made.
    pub fn send_error(endpoint: NvidiaEndpoint, reason: &str) -> (e: BrickError)
        ensures
            e@ == BrickErr::NetworkError("NVIDIA "@ + endpoint_label(endpoint) + " API error: "@ + reason@),
    {
        let head = concat3("NVIDIA ", NvidiaBrick::endpoint_label(endpoint), " API error: ");
        BrickError::NetworkError(concat(head.as_str(), reason))
    }

    /// The output of a call, from its reply.
    pub fn finish(&self, input: Json, call: &NvidiaCall, reply: HttpReply) -> (r: Result<Json, BrickError>)
        ensures
            json_bres(r) == nvidia_output(input@, call.endpoint, call.model@, reply@),
    {
        if !is_success(reply.status) {
            match &reply.body {
                Err(m) => {
                    return Err(BrickError::NetworkError(concat("Failed to read error response: ", m.as_str())));
                },
                Ok(t) => {
                    let head = concat3("NVIDIA ", NvidiaBrick::endpoint_label(call.endpoint), " API returned error: ");
                    return Err(BrickError::ExecutionError(concat(head.as_str(), t.as_str())));
                },
            }
        }
        let v = match &reply.json {
            Err(m) => return Err(BrickError::ExecutionError(concat("Failed to parse response: ", m.as_str()))),
            Ok(v) => v,
        };
        let text = entry_or_default(v, "text", Json::Null);
        let o = put(Json::empty_object(), "text", text);
        let o = match call.endpoint {
            NvidiaEndpoint::Asr => put(o, "confidence", entry_or_default(v, "confidence", Json::Null)),
            NvidiaEndpoint::Ocr => {
                let empty = Json::from_vec(Vec::new());
                assert(empty@->Arr_0 =~= Seq::<JsonV>::empty());
                put(o, "bounding_boxes", entry_or_default(v, "bounding_boxes", empty))
            },
            NvidiaEndpoint::TextGeneration => put(o, "model", Json::from_str(call.model.as_str())),
        };
        Ok(put(o, "input", input))
    }
}

} // verus!
