//! Requests to outside services and their replies, as plain values: a brick
//! describes the request it wants sent, and reads the reply it gets back.
use vstd::prelude::*;
use crate::json::{Json, JsonV, empty_obj};
use crate::mapper_bricks::with_field;
use crate::text::concat;

verus! {

/// The HTTP methods the bricks use.
#[derive(Debug, Clone, Copy, PartialEq, Eq, Structural)]
pub enum HttpMethod {
    Get,
    Post,
    Put,
    Patch,
}

/// The body of a request.
#[derive(Debug)]
pub enum RequestBody {
    Empty,
    Json(Json),
    Xml(String),
}

/// The mathematical value of a request body.
pub enum BodyV {
    Empty,
    Json(JsonV),
    Xml(Seq<char>),
}

/// A request to an outside service: method, address, headers, query
/// parameters and body.
#[derive(Debug)]
pub struct HttpRequest {
    pub method: HttpMethod,
    pub url: String,
    pub headers: Vec<(String, String)>,
    pub query: Vec<(String, String)>,
    pub body: RequestBody,
}

/// The mathematical value of a request.
pub struct RequestV {
    pub method: HttpMethod,
    pub url: Seq<char>,
    pub headers: Seq<(Seq<char>, Seq<char>)>,
    pub query: Seq<(Seq<char>, Seq<char>)>,
    pub body: BodyV,
}

/// The views of name-value pairs.
pub open spec fn pairs_view(v: Seq<(String, String)>) -> Seq<(Seq<char>, Seq<char>)> {
    Seq::new(v.len(), |i: int| (v[i].0@, v[i].1@))
}

impl View for RequestBody {
    type V = BodyV;

    open spec fn view(&self) -> BodyV {
        match self {
            RequestBody::Empty => BodyV::Empty,
            RequestBody::Json(j) => BodyV::Json(j@),
            RequestBody::Xml(s) => BodyV::Xml(s@),
        }
    }
}

impl View for HttpRequest {
    type V = RequestV;

    open spec fn view(&self) -> RequestV {
        RequestV {
            method: self.method,
            url: self.url@,
            headers: pairs_view(self.headers@),
            query: pairs_view(self.query@),
            body: self.body@,
        }
    }
}

/// What came back from a service: the status code, the status as text
/// (such as `404 Not Found`), the body as text or why it could not be read,
/// and the body as JSON or why it is not JSON.
#[derive(Debug)]
pub struct HttpReply {
    pub status: u16,
    pub status_text: String,
    pub body: Result<String, String>,
    pub json: Result<Json, String>,
}

/// The mathematical value of a reply.
pub struct ReplyV {
    pub status: u16,
    pub status_text: Seq<char>,
    pub body: Result<Seq<char>, Seq<char>>,
    pub json: Result<JsonV, Seq<char>>,
}

impl View for HttpReply {
    type V = ReplyV;

    open spec fn view(&self) -> ReplyV {
        ReplyV {
            status: self.status,
            status_text: self.status_text@,
            body: match &self.body {
                Ok(s) => Ok(s@),
                Err(e) => Err(e@),
            },
            json: match &self.json {
                Ok(j) => Ok(j@),
                Err(e) => Err(e@),
            },
        }
    }
}

/// Is a status code a success (2xx)?
pub open spec fn success(status: u16) -> bool {
    200 <= status <= 299
}

/// Is a status code a success (2xx)?
pub fn is_success(status: u16) -> (r: bool)
    ensures
        r == success(status),
{
    200 <= status && status <= 299
}

/// A name-value pair.
pub fn pair(name: &str, value: &str) -> (p: (String, String))
    ensures
        p.0@ == name@,
        p.1@ == value@,
{
    (name.to_owned(), value.to_owned())
}

/// The body text of a reply, or the empty text when it could not be read.
pub open spec fn body_or_empty(r: ReplyV) -> Seq<char> {
    match r.body {
        Ok(s) => s,
        Err(_) => Seq::empty(),
    }
}

/// The body text of a reply, or `Unknown error` when it could not be read.
pub open spec fn body_or_unknown(r: ReplyV) -> Seq<char> {
    match r.body {
        Ok(s) => s,
        Err(_) => "Unknown error"@,
    }
}

/// The body text of a reply, or the empty text.
pub fn reply_text_or_empty(reply: &HttpReply) -> (s: String)
    ensures
        s@ == body_or_empty(reply@),
{
    match &reply.body {
        Ok(t) => t.as_str().to_owned(),
        Err(_) => String::new(),
    }
}

/// The body text of a reply, or `Unknown error`.
pub fn reply_text_or_unknown(reply: &HttpReply) -> (s: String)
    ensures
        s@ == body_or_unknown(reply@),
{
    match &reply.body {
        Ok(t) => t.as_str().to_owned(),
        Err(_) => "Unknown error".to_owned(),
    }
}

/// An object with one entry.
pub open spec fn obj1(k1: Seq<char>, v1: JsonV) -> JsonV {
    with_field(empty_obj(), k1, v1)
}

/// An object with two entries.
pub open spec fn obj2(k1: Seq<char>, v1: JsonV, k2: Seq<char>, v2: JsonV) -> JsonV {
    with_field(obj1(k1, v1), k2, v2)
}

/// An object with three entries.
pub open spec fn obj3(k1: Seq<char>, v1: JsonV, k2: Seq<char>, v2: JsonV, k3: Seq<char>, v3: JsonV) -> JsonV {
    with_field(obj2(k1, v1, k2, v2), k3, v3)
}

/// The value with one more entry, when it is an object.
pub fn put(v: Json, k: &str, x: Json) -> (r: Json)
    ensures
        r@ == with_field(v@, k@, x@),
{
    let mut v = v;
    v.insert_key(k.to_owned(), x);
    v
}

/// `Bearer <token>`.
pub fn bearer(token: &str) -> (s: String)
    ensures
        s@ == "Bearer "@ + token@,
{
    concat("Bearer ", token)
}

} // verus!
