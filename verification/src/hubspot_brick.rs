//! The brick that reads and writes HubSpot deals and contacts.
use vstd::prelude::*;
use crate::json::{Json, JsonV, empty_obj, empty_arr, jget, obj_remove, string_eq};
use crate::text::{concat, concat3};
use crate::types::BrickType;
use crate::brick_traits::{BrickError, BrickErr, json_bres};
use crate::mapper_bricks::{str_field, str_or};
use crate::service::{
    HttpMethod, HttpRequest, RequestBody, RequestV, BodyV, HttpReply, ReplyV, success,
    is_success, body_or_unknown, reply_text_or_unknown, obj1, put, pair, pairs_view,
};

verus! {

/// Calls the HubSpot CRM API.
pub struct HubSpotBrick;

/// The address of the deals.
pub open spec fn deals_url() -> Seq<char> {
    "https://api.hubapi.com/crm/v3/objects/deals"@
}

/// The properties a write sends: the input's `properties` when it has
/// them, else the input without the entries named in `drop`.
pub open spec fn properties_of(input: JsonV, drop: Seq<Seq<char>>) -> JsonV
    decreases drop.len(),
{
    match jget(input, "properties"@) {
        Some(p) => p,
        None => if drop.len() == 0 {
            input
        } else {
            match properties_of(input, drop.drop_last()) {
                JsonV::Obj(s) => JsonV::Obj(obj_remove(s, drop.last())),
                other => other,
            }
        },
    }
}

/// A HubSpot request: the API key goes in the query, the body is JSON.
pub open spec fn hubspot_request(method: HttpMethod, url: Seq<char>, key: Seq<char>, body: BodyV) -> RequestV {
    RequestV {
        method,
        url,
        headers: seq![("Content-Type"@, "application/json"@)],
        query: seq![("hapikey"@, key)],
        body,
    }
}

/// The request for the configured operation.
pub open spec fn hubspot_plan(input: JsonV, config: JsonV) -> Result<RequestV, BrickErr> {
    match str_field(config, "api_key"@) {
        None => Err(BrickErr::ConfigError("api_key is required"@)),
        Some(key) => {
            let op = str_or(config, "operation"@, "get_deals"@);
            if op == "get_deals"@ {
                Ok(hubspot_request(HttpMethod::Get, deals_url(), key, BodyV::Empty))
            } else if op == "create_deal"@ {
                Ok(
                    hubspot_request(
                        HttpMethod::Post,
                        deals_url(),
                        key,
                        BodyV::Json(obj1("properties"@, properties_of(input, Seq::empty()))),
                    ),
                )
            } else if op == "update_deal"@ {
                match str_field(input, "id"@) {
                    None => Err(BrickErr::ConfigError("Deal ID is required in input"@)),
                    Some(id) => Ok(
                        hubspot_request(
                            HttpMethod::Patch,
                            deals_url() + "/"@ + id,
                            key,
                            BodyV::Json(obj1("properties"@, properties_of(input, seq!["id"@]))),
                        ),
                    ),
                }
            } else if op == "get_contacts"@ {
                Ok(
                    hubspot_request(
                        HttpMethod::Get,
                        "https://api.hubapi.com/crm/v3/objects/contacts"@,
                        key,
                        BodyV::Empty,
                    ),
                )
            } else {
                Err(BrickErr::ConfigError("Unknown operation: "@ + op))
            }
        },
    }
}

/// The output of a HubSpot call: the reply's JSON.
pub open spec fn hubspot_output(reply: ReplyV) -> Result<JsonV, BrickErr> {
    if !success(reply.status) {
        Err(
            BrickErr::ExecutionError(
                "HubSpot API error ("@ + reply.status_text + "): "@ + body_or_unknown(reply),
            ),
        )
    } else {
        match reply.json {
            Ok(v) => Ok(v),
            Err(e) => Err(BrickErr::ExecutionError("Failed to parse HubSpot response: "@ + e)),
        }
    }
}

/// The request with the API key in the query and a JSON header.
fn hubspot_call(method: HttpMethod, url: String, key: &str, body: RequestBody) -> (r: HttpRequest)
    ensures
        r@ == hubspot_request(method, url@, key@, body@),
{
    let mut headers: Vec<(String, String)> = Vec::new();
    headers.push(pair("Content-Type", "application/json"));
    let mut query: Vec<(String, String)> = Vec::new();
    query.push(pair("hapikey", key));
    let r = HttpRequest { method, url, headers, query, body };
    assert(r@.headers =~= seq![("Content-Type"@, "application/json"@)]);
    assert(r@.query =~= seq![("hapikey"@, key@)]);
    r
}

/// The properties a write sends, without the `id` entry when `drop_id`.
fn write_properties(input: &Json, drop_id: bool) -> (r: Json)
    ensures
        r@ == properties_of(input@, if drop_id { seq!["id"@] } else { Seq::empty() }),
{
    proof {
        let d: Seq<Seq<char>> = seq!["id"@];
        assert(d.drop_last() =~= Seq::<Seq<char>>::empty());
        assert(d.last() == "id"@);
        reveal_with_fuel(properties_of, 2);
    }
    match input.get("properties") {
        Some(p) => p.copy(),
        None => {
            let mut props = input.copy();
            if drop_id {
                let _ = props.remove_key("id");
            }
            props
        },
    }
}

/// The JSON schema of the HubSpot brick's configuration.
pub open spec fn hubspot_schema() -> JsonV {
    let api_key = empty_obj()
        .entry("type"@, JsonV::Str("string"@))
        .entry("description"@, JsonV::Str("HubSpot API key"@));
    let operation = empty_obj()
        .entry("type"@, JsonV::Str("string"@))
        .entry("enum"@, empty_arr()
            .item(JsonV::Str("get_deals"@))
            .item(JsonV::Str("create_deal"@))
            .item(JsonV::Str("update_deal"@))
            .item(JsonV::Str("get_contacts"@)))
        .entry("description"@, JsonV::Str("Operation to perform"@))
        .entry("default"@, JsonV::Str("get_deals"@));
    let properties = empty_obj()
        .entry("api_key"@, api_key)
        .entry("operation"@, operation);
    empty_obj()
        .entry("type"@, JsonV::Str("object"@))
        .entry("properties"@, properties)
        .entry("required"@, empty_arr()
            .item(JsonV::Str("api_key"@))
            .item(JsonV::Str("operation"@)))
}

impl HubSpotBrick {
    /// The brick's name.
    pub fn name(&self) -> (s: &'static str)
        ensures
            s@ == "hubspot"@,
    {
        "hubspot"
    }

    /// The brick's type.
    pub fn brick_type(&self) -> (t: BrickType)
        ensures
            t == BrickType::HubSpot,
    {
        BrickType::HubSpot
    }

    /// The JSON schema of the brick's configuration.
    pub fn config_schema(&self) -> (r: Json)
        ensures
            r@ == hubspot_schema(),
    {
        let api_key = Json::empty_object()
            .entry("type", Json::from_str("string"))
            .entry("description", Json::from_str("HubSpot API key"));
        let operation = Json::empty_object()
            .entry("type", Json::from_str("string"))
            .entry("enum", Json::empty_array()
                .item(Json::from_str("get_deals"))
                .item(Json::from_str("create_deal"))
                .item(Json::from_str("update_deal"))
                .item(Json::from_str("get_contacts")))
            .entry("description", Json::from_str("Operation to perform"))
            .entry("default", Json::from_str("get_deals"));
        let properties = Json::empty_object()
            .entry("api_key", api_key)
            .entry("operation", operation);
        Json::empty_object()
            .entry("type", Json::from_str("object"))
            .entry("properties", properties)
            .entry("required", Json::empty_array()
                .item(Json::from_str("api_key"))
                .item(Json::from_str("operation")))
    }

    /// The request for the configured operation.
    pub fn plan(&self, input: &Json, config: &Json) -> (r: Result<HttpRequest, BrickError>)
        ensures
            match (r, hubspot_plan(input@, config@)) {
                (Ok(q), Ok(p)) => q@ == p,
                (Err(e), Err(f)) => e@ == f,
                _ => false,
            },
    {
        let key = match config.get("api_key") {
            Some(v) => match v.as_str() {
                Some(k) => k,
                None => return Err(BrickError::ConfigError("api_key is required".to_owned())),
            },
            None => return Err(BrickError::ConfigError("api_key is required".to_owned())),
        };
        let op = match config.get("operation") {
            Some(v) => match v.as_str() {
                Some(s) => s,
                None => "get_deals",
            },
            None => "get_deals",
        };
        if string_eq(op, "get_deals") {
            Ok(
                hubspot_call(
                    HttpMethod::Get,
                    "https://api.hubapi.com/crm/v3/objects/deals".to_owned(),
                    key,
                    RequestBody::Empty,
                ),
            )
        } else if string_eq(op, "create_deal") {
            let props = write_properties(input, false);
            let body = put(Json::empty_object(), "properties", props);
            Ok(
                hubspot_call(
                    HttpMethod::Post,
                    "https://api.hubapi.com/crm/v3/objects/deals".to_owned(),
                    key,
                    RequestBody::Json(body),
                ),
            )
        } else if string_eq(op, "update_deal") {
            let id = match input.get("id") {
                Some(v) => match v.as_str() {
                    Some(s) => s,
                    None => {
                        return Err(BrickError::ConfigError("Deal ID is required in input".to_owned()));
                    },
                },
                None => {
                    return Err(BrickError::ConfigError("Deal ID is required in input".to_owned()));
                },
            };
            let url = concat3("https://api.hubapi.com/crm/v3/objects/deals", "/", id);
            let props = write_properties(input, true);
            let body = put(Json::empty_object(), "properties", props);
            Ok(hubspot_call(HttpMethod::Patch, url, key, RequestBody::Json(body)))
        } else if string_eq(op, "get_contacts") {
            Ok(
                hubspot_call(
                    HttpMethod::Get,
                    "https://api.hubapi.com/crm/v3/objects/contacts".to_owned(),
                    key,
                    RequestBody::Empty,
                ),
            )
        } else {
            Err(BrickError::ConfigError(concat("Unknown operation: ", op)))
        }
    }

    /// The error of a call that could not be made.
    pub fn send_error(reason: &str) -> (e: BrickError)
        ensures
            e@ == BrickErr::ExecutionError("Failed to connect to HubSpot API: "@ + reason@),
    {
        BrickError::ExecutionError(concat("Failed to connect to HubSpot API: ", reason))
    }

    /// The output of the call, from its reply.
    pub fn finish(&self, reply: HttpReply) -> (r: Result<Json, BrickError>)
        ensures
            json_bres(r) == hubspot_output(reply@),
    {
        if !is_success(reply.status) {
            let t = reply_text_or_unknown(&reply);
            let head = concat3("HubSpot API error (", reply.status_text.as_str(), "): ");
            return Err(BrickError::ExecutionError(concat(head.as_str(), t.as_str())));
        }
        match reply.json {
            Ok(v) => Ok(v),
            Err(e) => Err(
                BrickError::ExecutionError(concat("Failed to parse HubSpot response: ", e.as_str())),
            ),
        }
    }
}

} // verus!
