//! The brick that reads and writes pages of a Notion database.
use vstd::prelude::*;
use crate::json::{Json, JsonV, empty_obj, empty_arr, jget, jstr, string_eq};
use crate::text::{concat, concat3};
use crate::types::BrickType;
use crate::brick_traits::{BrickError, BrickErr, json_bres};
use crate::mapper_bricks::{str_field, str_or};
use crate::hubspot_brick::properties_of;
use crate::service::{
    HttpMethod, HttpRequest, RequestBody, RequestV, BodyV, HttpReply, ReplyV, success,
    is_success, body_or_unknown, reply_text_or_unknown, obj1, obj2, put, pair, bearer,
};

verus! {

/// Calls the Notion API.
pub struct NotionBrick;

/// A Notion request: bearer key, API version, JSON body.
pub open spec fn notion_request(method: HttpMethod, url: Seq<char>, key: Seq<char>, body: JsonV) -> RequestV {
    RequestV {
        method,
        url,
        headers: seq![
            ("Authorization"@, "Bearer "@ + key),
            ("Notion-Version"@, "2022-06-28"@),
            ("Content-Type"@, "application/json"@),
        ],
        query: Seq::empty(),
        body: BodyV::Json(body),
    }
}

/// The page to update: `page_id` when the input has it, else `id`, when
/// that entry is a string.
pub open spec fn page_id_of(input: JsonV) -> Option<Seq<char>> {
    match jget(input, "page_id"@) {
        Some(v) => jstr(v),
        None => match jget(input, "id"@) {
            Some(v) => jstr(v),
            None => None,
        },
    }
}

/// The properties of a new page: the input's `properties`, or a title.
pub open spec fn new_page_properties(input: JsonV) -> JsonV {
    match jget(input, "properties"@) {
        Some(p) => p,
        None => obj1(
            "title"@,
            obj1(
                "title"@,
                JsonV::Arr(
                    seq![obj1("text"@, obj1("content"@, JsonV::Str(str_or(input, "title"@, "New Page"@))))],
                ),
            ),
        ),
    }
}

/// The request for the configured operation.
pub open spec fn notion_plan(input: JsonV, config: JsonV) -> Result<RequestV, BrickErr> {
    match str_field(config, "api_key"@) {
        None => Err(BrickErr::ConfigError("api_key is required"@)),
        Some(key) => {
            let op = str_or(config, "operation"@, "get_pages"@);
            if op == "get_pages"@ {
                match str_field(config, "database_id"@) {
                    None => Err(BrickErr::ConfigError("database_id is required"@)),
                    Some(db) => Ok(
                        notion_request(
                            HttpMethod::Post,
                            "https://api.notion.com/v1/databases/"@ + db + "/query"@,
                            key,
                            JsonV::Obj(Seq::empty()),
                        ),
                    ),
                }
            } else if op == "create_page"@ {
                match str_field(config, "database_id"@) {
                    None => Err(BrickErr::ConfigError("database_id is required"@)),
                    Some(db) => Ok(
                        notion_request(
                            HttpMethod::Post,
                            "https://api.notion.com/v1/pages"@,
                            key,
                            obj2(
                                "parent"@,
                                obj1("database_id"@, JsonV::Str(db)),
                                "properties"@,
                                new_page_properties(input),
                            ),
                        ),
                    ),
                }
            } else if op == "update_page"@ {
                match page_id_of(input) {
                    None => Err(BrickErr::ConfigError("page_id is required in input"@)),
                    Some(id) => Ok(
                        notion_request(
                            HttpMethod::Patch,
                            "https://api.notion.com/v1/pages/"@ + id,
                            key,
                            obj1("properties"@, properties_of(input, seq!["id"@, "page_id"@])),
                        ),
                    ),
                }
            } else {
                Err(BrickErr::ConfigError("Unknown operation: "@ + op))
            }
        },
    }
}

/// The output of a Notion call: the reply's JSON.
pub open spec fn notion_output(reply: ReplyV) -> Result<JsonV, BrickErr> {
    if !success(reply.status) {
        Err(
            BrickErr::ExecutionError(
                "Notion API error ("@ + reply.status_text + "): "@ + body_or_unknown(reply),
            ),
        )
    } else {
        match reply.json {
            Ok(v) => Ok(v),
            Err(e) => Err(BrickErr::ExecutionError("Failed to parse Notion response: "@ + e)),
        }
    }
}

/// The request with the bearer key, the API version and a JSON body.
fn notion_call(method: HttpMethod, url: String, key: &str, body: Json) -> (r: HttpRequest)
    ensures
        r@ == notion_request(method, url@, key@, body@),
{
    let mut headers: Vec<(String, String)> = Vec::new();
    let b = bearer(key);
    headers.push(pair("Authorization", b.as_str()));
    headers.push(pair("Notion-Version", "2022-06-28"));
    headers.push(pair("Content-Type", "application/json"));
    let r = HttpRequest { method, url, headers, query: Vec::new(), body: RequestBody::Json(body) };
    assert(r@.headers =~= seq![
        ("Authorization"@, "Bearer "@ + key@),
        ("Notion-Version"@, "2022-06-28"@),
        ("Content-Type"@, "application/json"@),
    ]);
    assert(r@.query =~= Seq::<(Seq<char>, Seq<char>)>::empty());
    r
}

/// A string field of the config, if it is one.
fn config_str<'a>(config: &'a Json, k: &str) -> (r: Option<&'a str>)
    ensures
        match r {
            Some(s) => str_field(config@, k@) == Some(s@),
            None => str_field(config@, k@) is None,
        },
{
    match config.get(k) {
        Some(v) => v.as_str(),
        None => None,
    }
}

/// The JSON schema of the Notion brick's configuration.
pub open spec fn notion_schema() -> JsonV {
    let api_key = empty_obj()
        .entry("type"@, JsonV::Str("string"@))
        .entry("description"@, JsonV::Str("Notion API key"@));
    let database_id = empty_obj()
        .entry("type"@, JsonV::Str("string"@))
        .entry("description"@, JsonV::Str("Notion database ID"@));
    let operation = empty_obj()
        .entry("type"@, JsonV::Str("string"@))
        .entry("enum"@, empty_arr()
            .item(JsonV::Str("get_pages"@))
            .item(JsonV::Str("create_page"@))
            .item(JsonV::Str("update_page"@)))
        .entry("description"@, JsonV::Str("Operation to perform"@))
        .entry("default"@, JsonV::Str("get_pages"@));
    let properties = empty_obj()
        .entry("api_key"@, api_key)
        .entry("database_id"@, database_id)
        .entry("operation"@, operation);
    empty_obj()
        .entry("type"@, JsonV::Str("object"@))
        .entry("properties"@, properties)
        .entry("required"@, empty_arr()
            .item(JsonV::Str("api_key"@))
            .item(JsonV::Str("operation"@)))
}

impl NotionBrick {
    /// The brick's name.
    pub fn name(&self) -> (s: &'static str)
        ensures
            s@ == "notion"@,
    {
        "notion"
    }

    /// The brick's type.
    pub fn brick_type(&self) -> (t: BrickType)
        ensures
            t == BrickType::Notion,
    {
        BrickType::Notion
    }

    /// The JSON schema of the brick's configuration.
    pub fn config_schema(&self) -> (r: Json)
        ensures
            r@ == notion_schema(),
    {
        let api_key = Json::empty_object()
            .entry("type", Json::from_str("string"))
            .entry("description", Json::from_str("Notion API key"));
        let database_id = Json::empty_object()
            .entry("type", Json::from_str("string"))
            .entry("description", Json::from_str("Notion database ID"));
        let operation = Json::empty_object()
            .entry("type", Json::from_str("string"))
            .entry("enum", Json::empty_array()
                .item(Json::from_str("get_pages"))
                .item(Json::from_str("create_page"))
                .item(Json::from_str("update_page")))
            .entry("description", Json::from_str("Operation to perform"))
            .entry("default", Json::from_str("get_pages"));
        let properties = Json::empty_object()
            .entry("api_key", api_key)
            .entry("database_id", database_id)
            .entry("operation", operation);
        Json::empty_object()
            .entry("type", Json::from_str("object"))
            .entry("properties", properties)
            .entry("required", Json::empty_array()
                .item(Json::from_str("api_key"))
                .item(Json::from_str("operation")))
    }

    /// The request for the configured operation.
    pub fn plan(&self, input: &Json, config: &Json) -> (r: Result<HttpRequest, BrickError>)
        ensures
            match (r, notion_plan(input@, config@)) {
                (Ok(q), Ok(p)) => q@ == p,
                (Err(e), Err(f)) => e@ == f,
                _ => false,
            },
    {
        let key = match config_str(config, "api_key") {
            Some(k) => k,
            None => return Err(BrickError::ConfigError("api_key is required".to_owned())),
        };
        let op = match config_str(config, "operation") {
            Some(s) => s,
            None => "get_pages",
        };
        if string_eq(op, "get_pages") {
            let db = match config_str(config, "database_id") {
                Some(d) => d,
                None => return Err(BrickError::ConfigError("database_id is required".to_owned())),
            };
            let url = concat3("https://api.notion.com/v1/databases/", db, "/query");
            Ok(notion_call(HttpMethod::Post, url, key, Json::empty_object()))
        } else if string_eq(op, "create_page") {
            let db = match config_str(config, "database_id") {
                Some(d) => d,
                None => return Err(BrickError::ConfigError("database_id is required".to_owned())),
            };
            let props = match input.get("properties") {
                Some(p) => p.copy(),
                None => {
                    let title = match config_str(input, "title") {
                        Some(t) => t,
                        None => "New Page",
                    };
                    let content = put(Json::empty_object(), "content", Json::from_str(title));
                    let text = put(Json::empty_object(), "text", content);
                    let mut items: Vec<Json> = Vec::new();
                    items.push(text);
                    let arr = Json::from_vec(items);
                    proof {
                        assert(arr@->Arr_0 =~= seq![text@]);
                    }
                    let inner = put(Json::empty_object(), "title", arr);
                    put(Json::empty_object(), "title", inner)
                },
            };
            let parent = put(Json::empty_object(), "database_id", Json::from_str(db));
            let body = put(put(Json::empty_object(), "parent", parent), "properties", props);
            Ok(notion_call(HttpMethod::Post, "https://api.notion.com/v1/pages".to_owned(), key, body))
        } else if string_eq(op, "update_page") {
            let id = match input.get("page_id") {
                Some(v) => v.as_str(),
                None => match input.get("id") {
                    Some(v) => v.as_str(),
                    None => None,
                },
            };
            let id = match id {
                Some(i) => i,
                None => {
                    return Err(BrickError::ConfigError("page_id is required in input".to_owned()));
                },
            };
            let url = concat("https://api.notion.com/v1/pages/", id);
            let props = match input.get("properties") {
                Some(p) => p.copy(),
                None => {
                    let mut p = input.copy();
                    let _ = p.remove_key("id");
                    let _ = p.remove_key("page_id");
                    p
                },
            };
            proof {
                let d: Seq<Seq<char>> = seq!["id"@, "page_id"@];
                assert(d.drop_last() =~= seq!["id"@]);
                assert(d.drop_last().drop_last() =~= Seq::<Seq<char>>::empty());
                reveal_with_fuel(properties_of, 3);
            }
            let body = put(Json::empty_object(), "properties", props);
            Ok(notion_call(HttpMethod::Patch, url, key, body))
        } else {
            Err(BrickError::ConfigError(concat("Unknown operation: ", op)))
        }
    }

    /// The error of a call that could not be made.
    pub fn send_error(reason: &str) -> (e: BrickError)
        ensures
            e@ == BrickErr::ExecutionError("Failed to connect to Notion API: "@ + reason@),
    {
        BrickError::ExecutionError(concat("Failed to connect to Notion API: ", reason))
    }

    /// The output of the call, from its reply.
    pub fn finish(&self, reply: HttpReply) -> (r: Result<Json, BrickError>)
        ensures
            json_bres(r) == notion_output(reply@),
    {
        if !is_success(reply.status) {
            let t = reply_text_or_unknown(&reply);
            let head = concat3("Notion API error (", reply.status_text.as_str(), "): ");
            return Err(BrickError::ExecutionError(concat(head.as_str(), t.as_str())));
        }
        match reply.json {
            Ok(v) => Ok(v),
            Err(e) => Err(
                BrickError::ExecutionError(concat("Failed to parse Notion response: ", e.as_str())),
            ),
        }
    }
}

} // verus!
