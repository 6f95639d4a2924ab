//! The brick that reads and writes Odoo records over XML-RPC: it logs in,
//! then calls a method of a model.
use vstd::prelude::*;
use crate::json::{Json, JsonV, empty_obj, empty_arr, jget, json_text, to_json_text, chars_of, string_of, string_eq};
use crate::text::{
    concat, concat3, trim_end_by, find_sub, find_text, parse_i64, parse_signed, signed_decimal,
    i64_text,
};
use crate::types::BrickType;
use crate::brick_traits::{BrickError, BrickErr, json_bres};
use crate::mapper_bricks::{str_field, str_or};
use crate::service::{
    HttpMethod, HttpRequest, RequestBody, RequestV, BodyV, HttpReply, ReplyV, success,
    is_success, body_or_unknown, reply_text_or_unknown, obj2, put, pair,
};

verus! {

/// Calls Odoo's XML-RPC API.
pub struct OdooBrick;

/// What a call needs after logging in: the service's address (without
/// trailing slashes), the database, the password and the operation.
#[derive(Debug)]
pub struct OdooSession {
    pub base_url: String,
    pub database: String,
    pub password: String,
    pub operation: String,
}

/// The address without trailing slashes.
pub open spec fn base_of(url: Seq<char>) -> Seq<char> {
    trim_end_by(url, |c: char| c == '/')
}

/// An XML-RPC request: POSTed XML.
pub open spec fn xml_request(url: Seq<char>, body: Seq<char>) -> RequestV {
    RequestV {
        method: HttpMethod::Post,
        url,
        headers: seq![("Content-Type"@, "text/xml"@)],
        query: Seq::empty(),
        body: BodyV::Xml(body),
    }
}

/// The login call's body.
pub open spec fn login_xml(db: Seq<char>, user: Seq<char>, pw: Seq<char>) -> Seq<char> {
    "<?xml version=\"1.0\"?>\n<methodCall>\n    <methodName>authenticate</methodName>\n    <params>\n        <param><value><string>"@
        + db + "</string></value></param>\n        <param><value><string>"@ + user
        + "</string></value></param>\n        <param><value><string>"@ + pw
        + "</string></value></param>\n        <param><value><struct></struct></value></param>\n    </params>\n</methodCall>"@
}

/// The session and the login request that the config describes.
pub open spec fn odoo_login(config: JsonV) -> Result<(Seq<char>, Seq<char>, Seq<char>, Seq<char>, RequestV), BrickErr> {
    match str_field(config, "url"@) {
        None => Err(BrickErr::ConfigError("url is required"@)),
        Some(url) => match str_field(config, "database"@) {
            None => Err(BrickErr::ConfigError("database is required"@)),
            Some(db) => match str_field(config, "username"@) {
                None => Err(BrickErr::ConfigError("username is required"@)),
                Some(user) => match str_field(config, "password"@) {
                    None => Err(BrickErr::ConfigError("password is required"@)),
                    Some(pw) => Ok(
                        (
                            base_of(url),
                            db,
                            pw,
                            str_or(config, "operation"@, "get_invoices"@),
                            xml_request(base_of(url) + "/xmlrpc/2/common"@, login_xml(db, user, pw)),
                        ),
                    ),
                },
            },
        },
    }
}

/// The text after the first occurrence of `pat`, up to the next one.
pub open spec fn second_piece(s: Seq<char>, pat: Seq<char>) -> Option<Seq<char>> {
    match find_sub(s, pat) {
        None => None,
        Some(i) => {
            let rest = s.skip(i + pat.len());
            Some(
                match find_sub(rest, pat) {
                    Some(j) => rest.take(j),
                    None => rest,
                },
            )
        },
    }
}

/// The text before the first occurrence of `pat`.
pub open spec fn first_piece(s: Seq<char>, pat: Seq<char>) -> Seq<char> {
    match find_sub(s, pat) {
        Some(i) => s.take(i),
        None => s,
    }
}

/// The user id that a login reply's text holds.
pub open spec fn uid_of(text: Seq<char>) -> Result<i64, BrickErr> {
    if find_sub(text, "<value><i4>"@) is Some || find_sub(text, "<value><int>"@) is Some {
        let piece = match second_piece(text, "<i4>"@) {
            Some(p) => Some(p),
            None => second_piece(text, "<int>"@),
        };
        match piece {
            None => Err(BrickErr::ExecutionError("Failed to parse authentication response"@)),
            Some(p) => match parse_i64(first_piece(p, "</i4>"@)) {
                Some(uid) => Ok(uid),
                None => Err(BrickErr::ExecutionError("Invalid authentication response"@)),
            },
        }
    } else if find_sub(text, "<fault>"@) is Some {
        Err(BrickErr::ExecutionError("Authentication failed: Invalid credentials"@))
    } else {
        Err(BrickErr::ExecutionError("Unexpected authentication response format"@))
    }
}

/// The user id from the login reply.
pub open spec fn login_result(reply: ReplyV) -> Result<i64, BrickErr> {
    if !success(reply.status) {
        Err(BrickErr::ExecutionError("Odoo authentication failed: "@ + reply.status_text))
    } else {
        match reply.body {
            Err(e) => Err(BrickErr::ExecutionError("Failed to read Odoo response: "@ + e)),
            Ok(t) => uid_of(t),
        }
    }
}

/// An empty string value.
pub open spec fn empty_string_xml() -> Seq<char> {
    "<value><string></string></value>"@
}

/// One element of an array argument.
pub open spec fn item_xml(v: JsonV) -> Seq<char> {
    match v {
        JsonV::Str(s) => "<value><string>"@ + s + "</string></value>"@,
        JsonV::Num(_) => "<value><i4>"@ + json_text(v) + "</i4></value>"@,
        _ => empty_string_xml(),
    }
}

/// The elements of an array argument, one after another.
pub open spec fn items_xml(vs: Seq<JsonV>) -> Seq<char>
    decreases vs.len(),
{
    if vs.len() == 0 {
        Seq::empty()
    } else {
        items_xml(vs.drop_last()) + item_xml(vs.last())
    }
}

/// One argument of a method call.
pub open spec fn arg_xml(v: JsonV) -> Seq<char> {
    match v {
        JsonV::Str(_) | JsonV::Num(_) => item_xml(v),
        JsonV::Bool(b) => "<value><boolean>"@ + (if b {
            "1"@
        } else {
            "0"@
        }) + "</boolean></value>"@,
        JsonV::Arr(a) => "<value><array><data>"@ + items_xml(a) + "</data></array></value>"@,
        _ => empty_string_xml(),
    }
}

/// The arguments of a method call, one after another.
pub open spec fn args_xml(args: Seq<JsonV>) -> Seq<char>
    decreases args.len(),
{
    if args.len() == 0 {
        Seq::empty()
    } else {
        args_xml(args.drop_last()) + arg_xml(args.last())
    }
}

/// The body of a method call.
pub open spec fn call_xml(db: Seq<char>, uid: i64, pw: Seq<char>, model: Seq<char>, method: Seq<char>, args: Seq<char>) -> Seq<char> {
    "<?xml version=\"1.0\"?>\n<methodCall>\n    <methodName>execute_kw</methodName>\n    <params>\n        <param><value><string>"@
        + db + "</string></value></param>\n        <param><value><i4>"@ + signed_decimal(uid as int)
        + "</i4></value></param>\n        <param><value><string>"@ + pw
        + "</string></value></param>\n        <param><value><string>"@ + model
        + "</string></value></param>\n        <param><value><string>"@ + method
        + "</string></value></param>\n        <param><value><array><data>"@ + args
        + "</data></array></value></param>\n        <param><value><struct></struct></value></param>\n    </params>\n</methodCall>"@
}

/// Strings as values.
pub open spec fn strs(ss: Seq<Seq<char>>) -> JsonV {
    JsonV::Arr(Seq::new(ss.len(), |i: int| JsonV::Str(ss[i])))
}

/// The model, the method and the arguments of an operation.
pub open spec fn operation_call(op: Seq<char>, input: JsonV) -> Option<(Seq<char>, Seq<char>, Seq<JsonV>)> {
    if op == "get_invoices"@ {
        Some(
            (
                "account.move"@,
                "search_read"@,
                seq![
                    JsonV::Arr(seq![strs(seq!["state"@, "!="@, "cancel"@])]),
                    strs(seq!["name"@, "partner_id"@, "amount_total"@, "date"@, "state"@]),
                ],
            ),
        )
    } else if op == "create_invoice"@ {
        Some(
            (
                "account.move"@,
                "create"@,
                seq![
                    JsonV::Arr(
                        seq![
                            match jget(input, "invoice_data"@) {
                                Some(d) => d,
                                None => input,
                            },
                        ],
                    ),
                ],
            ),
        )
    } else if op == "get_products"@ {
        Some(
            (
                "product.product"@,
                "search_read"@,
                seq![JsonV::Arr(seq![JsonV::Arr(Seq::empty())]), strs(seq!["name"@, "list_price"@])],
            ),
        )
    } else {
        None
    }
}

/// The request for the session's operation, after logging in as `uid`.
pub open spec fn odoo_call(base: Seq<char>, db: Seq<char>, pw: Seq<char>, op: Seq<char>, uid: i64, input: JsonV) -> Result<RequestV, BrickErr> {
    match operation_call(op, input) {
        None => Err(BrickErr::ConfigError("Unknown operation: "@ + op)),
        Some((model, method, args)) => Ok(
            xml_request(
                base + "/xmlrpc/2/object"@,
                call_xml(db, uid, pw, model, method, args_xml(args)),
            ),
        ),
    }
}

/// The output of a method call, from its reply: the raw reply text.
pub open spec fn odoo_output(reply: ReplyV) -> Result<JsonV, BrickErr> {
    if !success(reply.status) {
        Err(
            BrickErr::ExecutionError(
                "Odoo API error ("@ + reply.status_text + "): "@ + body_or_unknown(reply),
            ),
        )
    } else {
        match reply.body {
            Err(e) => Err(BrickErr::ExecutionError("Failed to read Odoo response: "@ + e)),
            Ok(t) => if find_sub(t, "<fault>"@) is Some {
                Err(BrickErr::ExecutionError("Odoo method call failed"@))
            } else {
                Ok(obj2("result"@, JsonV::Str("success"@), "raw_response"@, JsonV::Str(t)))
            },
        }
    }
}

/// The address without trailing slashes.
fn trim_trailing_slashes(url: &str) -> (r: String)
    ensures
        r@ == base_of(url@),
{
    let cs = chars_of(url);
    let mut n = cs.len();
    assert(cs@.take(n as int) =~= cs@);
    while n > 0 && cs[n - 1] == '/'
        invariant
            n <= cs@.len(),
            base_of(url@) == base_of(cs@.take(n as int)),
            cs@ == url@,
        decreases n,
    {
        proof {
            assert(cs@.take(n as int).drop_last() =~= cs@.take(n - 1));
        }
        n = n - 1;
    }
    proof {
        assert(cs@.take(cs@.len() as int) =~= cs@);
    }
    crate::text::substring(&cs, 0, n)
}

/// An XML-RPC request.
fn xml_call(url: String, body: String) -> (r: HttpRequest)
    ensures
        r@ == xml_request(url@, body@),
{
    let mut headers: Vec<(String, String)> = Vec::new();
    headers.push(pair("Content-Type", "text/xml"));
    let r = HttpRequest { method: HttpMethod::Post, url, headers, query: Vec::new(), body: RequestBody::Xml(body) };
    assert(r@.headers =~= seq![("Content-Type"@, "text/xml"@)]);
    assert(r@.query =~= Seq::<(Seq<char>, Seq<char>)>::empty());
    r
}

/// The text after the first `pat`, up to the next one.
fn second_piece_of(s: &Vec<char>, pat: &Vec<char>) -> (r: Option<Vec<char>>)
    requires
        pat@.len() > 0,
    ensures
        match r {
            Some(v) => second_piece(s@, pat@) == Some(v@),
            None => second_piece(s@, pat@) is None,
        },
{
    match find_text(s, pat) {
        None => None,
        Some(i) => {
            proof {
                lemma_find_sub_bound(s@, pat@);
            }
            let sl = s.len();
            let pl = pat.len();
            assert(i + pl <= sl);
            let mut rest: Vec<char> = Vec::new();
            let mut k = i + pl;
            let start = k;
            while k < s.len()
                invariant
                    start <= k <= s@.len(),
                    rest@ == s@.subrange(start as int, k as int),
                decreases s@.len() - k,
            {
                rest.push(s[k]);
                proof {
                    assert(rest@ =~= s@.subrange(start as int, k + 1));
                }
                k = k + 1;
            }
            assert(rest@ =~= s@.skip(start as int));
            match find_text(&rest, pat) {
                Some(j) => {
                    proof {
                        lemma_find_sub_bound(rest@, pat@);
                    }
                    let mut out: Vec<char> = Vec::new();
                    let mut t: usize = 0;
                    while t < j
                        invariant
                            t <= j,
                            j <= rest@.len(),
                            out@ == rest@.take(t as int),
                        decreases j - t,
                    {
                        out.push(rest[t]);
                        proof {
                            assert(out@ =~= rest@.take(t + 1));
                        }
                        t = t + 1;
                    }
                    Some(out)
                },
                None => Some(rest),
            }
        },
    }
}

/// An index found is inside the text.
proof fn lemma_find_sub_bound(s: Seq<char>, p: Seq<char>)
    ensures
        find_sub(s, p) matches Some(i) ==> 0 <= i && i + p.len() <= s.len(),
    decreases s.len(),
{
    if s.len() >= p.len() && s.take(p.len() as int) != p && s.len() > 0 {
        lemma_find_sub_bound(s.drop_first(), p);
    }
}

/// The user id that a login reply's text holds.
fn parse_uid(text: &str) -> (r: Result<i64, BrickError>)
    ensures
        match (r, uid_of(text@)) {
            (Ok(a), Ok(b)) => a == b,
            (Err(e), Err(f)) => e@ == f,
            _ => false,
        },
{
    let t = chars_of(text);
    let value_i4 = chars_of("<value><i4>");
    let value_int = chars_of("<value><int>");
    let i4 = chars_of("<i4>");
    let int_tag = chars_of("<int>");
    let close = chars_of("</i4>");
    let fault = chars_of("<fault>");
    proof {
        reveal_strlit("<i4>");
        reveal_strlit("<int>");
        reveal_strlit("</i4>");
    }
    if find_text(&t, &value_i4).is_some() || find_text(&t, &value_int).is_some() {
        let piece = match second_piece_of(&t, &i4) {
            Some(p) => Some(p),
            None => second_piece_of(&t, &int_tag),
        };
        match piece {
            None => Err(BrickError::ExecutionError("Failed to parse authentication response".to_owned())),
            Some(p) => {
                let head = match find_text(&p, &close) {
                    Some(k) => {
                        proof {
                            lemma_find_sub_bound(p@, close@);
                        }
                        crate::text::substring(&p, 0, k)
                    },
                    None => string_of(p.as_slice()),
                };
                proof {
                    assert(p@.take(p@.len() as int) =~= p@);
                }
                match parse_signed(head.as_str()) {
                    Some(uid) => Ok(uid),
                    None => Err(BrickError::ExecutionError("Invalid authentication response".to_owned())),
                }
            },
        }
    } else if find_text(&t, &fault).is_some() {
        Err(BrickError::ExecutionError("Authentication failed: Invalid credentials".to_owned()))
    } else {
        Err(BrickError::ExecutionError("Unexpected authentication response format".to_owned()))
    }
}

/// One element of an array argument.
fn item_text(v: &Json) -> (r: String)
    ensures
        r@ == item_xml(v@),
{
    match v {
        Json::String(s) => concat3("<value><string>", s.as_str(), "</string></value>"),
        Json::Number(_) => {
            let n = to_json_text(v);
            concat3("<value><i4>", n.as_str(), "</i4></value>")
        },
        _ => "<value><string></string></value>".to_owned(),
    }
}

/// One argument of a method call.
fn arg_text(v: &Json) -> (r: String)
    ensures
        r@ == arg_xml(v@),
{
    match v {
        Json::String(_) | Json::Number(_) => item_text(v),
        Json::Bool(b) => concat3("<value><boolean>", if *b { "1" } else { "0" }, "</boolean></value>"),
        Json::Array(a) => {
            let ghost av = v@->Arr_0;
            let mut body = String::new();
            let n = a.len();
            let mut i: usize = 0;
            assert(av.take(0) =~= Seq::<JsonV>::empty());
            while i < n
                invariant
                    n == a@.len(),
                    av.len() == n,
                    forall|k: int| 0 <= k < n ==> #[trigger] av[k] == a@[k]@,
                    i <= n,
                    body@ == items_xml(av.take(i as int)),
                decreases n - i,
            {
                proof {
                    assert(av.take(i + 1).drop_last() =~= av.take(i as int));
                    assert(av.take(i + 1).last() == a@[i as int]@);
                }
                let x = item_text(&a[i]);
                body.append(x.as_str());
                i = i + 1;
            }
            assert(av.take(n as int) =~= av);
            concat3("<value><array><data>", body.as_str(), "</data></array></value>")
        },
        _ => "<value><string></string></value>".to_owned(),
    }
}

/// String values, as an array.
fn string_array(items: Vec<&str>) -> (r: Json)
    ensures
        r@ == strs(Seq::new(items@.len(), |i: int| items@[i]@)),
{
    let mut out: Vec<Json> = Vec::new();
    let n = items.len();
    let mut i: usize = 0;
    while i < n
        invariant
            n == items@.len(),
            i <= n,
            out@.len() == i,
            forall|k: int| 0 <= k < i ==> #[trigger] out@[k]@ == JsonV::Str(items@[k]@),
        decreases n - i,
    {
        out.push(Json::from_str(items[i]));
        i = i + 1;
    }
    let r = Json::from_vec(out);
    let ghost ss = Seq::new(items@.len(), |i: int| items@[i]@);
    assert(r@->Arr_0 =~= Seq::new(ss.len(), |k: int| JsonV::Str(ss[k])));
    r
}

/// A one-element array.
fn single(x: Json) -> (r: Json)
    ensures
        r@ == JsonV::Arr(seq![x@]),
{
    let ghost xv = x@;
    let mut v: Vec<Json> = Vec::new();
    v.push(x);
    let r = Json::from_vec(v);
    assert(r@->Arr_0 =~= seq![xv]);
    r
}

/// The JSON schema of the Odoo brick's configuration.
pub open spec fn odoo_schema() -> JsonV {
    let url = empty_obj()
        .entry("type"@, JsonV::Str("string"@))
        .entry("description"@, JsonV::Str("Odoo instance URL"@));
    let database = empty_obj()
        .entry("type"@, JsonV::Str("string"@))
        .entry("description"@, JsonV::Str("Database name"@));
    let username = empty_obj()
        .entry("type"@, JsonV::Str("string"@))
        .entry("description"@, JsonV::Str("Username"@));
    let password = empty_obj()
        .entry("type"@, JsonV::Str("string"@))
        .entry("description"@, JsonV::Str("Password"@));
    let operation = empty_obj()
        .entry("type"@, JsonV::Str("string"@))
        .entry("enum"@, empty_arr()
            .item(JsonV::Str("get_invoices"@))
            .item(JsonV::Str("create_invoice"@))
            .item(JsonV::Str("get_products"@)))
        .entry("description"@, JsonV::Str("Operation to perform"@))
        .entry("default"@, JsonV::Str("get_invoices"@));
    let properties = empty_obj()
        .entry("url"@, url)
        .entry("database"@, database)
        .entry("username"@, username)
        .entry("password"@, password)
        .entry("operation"@, operation);
    empty_obj()
        .entry("type"@, JsonV::Str("object"@))
        .entry("properties"@, properties)
        .entry("required"@, empty_arr()
            .item(JsonV::Str("url"@))
            .item(JsonV::Str("database"@))
            .item(JsonV::Str("username"@))
            .item(JsonV::Str("password"@))
            .item(JsonV::Str("operation"@)))
}

impl OdooBrick {
    /// The brick's name.
    pub fn name(&self) -> (s: &'static str)
        ensures
            s@ == "odoo"@,
    {
        "odoo"
    }

    /// The brick's type.
    pub fn brick_type(&self) -> (t: BrickType)
        ensures
            t == BrickType::Odoo,
    {
        BrickType::Odoo
    }

    /// The JSON schema of the brick's configuration.
    pub fn config_schema(&self) -> (r: Json)
        ensures
            r@ == odoo_schema(),
    {
        let url = Json::empty_object()
            .entry("type", Json::from_str("string"))
            .entry("description", Json::from_str("Odoo instance URL"));
        let database = Json::empty_object()
            .entry("type", Json::from_str("string"))
            .entry("description", Json::from_str("Database name"));
        let username = Json::empty_object()
            .entry("type", Json::from_str("string"))
            .entry("description", Json::from_str("Username"));
        let password = Json::empty_object()
            .entry("type", Json::from_str("string"))
            .entry("description", Json::from_str("Password"));
        let operation = Json::empty_object()
            .entry("type", Json::from_str("string"))
            .entry("enum", Json::empty_array()
                .item(Json::from_str("get_invoices"))
                .item(Json::from_str("create_invoice"))
                .item(Json::from_str("get_products")))
            .entry("description", Json::from_str("Operation to perform"))
            .entry("default", Json::from_str("get_invoices"));
        let properties = Json::empty_object()
            .entry("url", url)
            .entry("database", database)
            .entry("username", username)
            .entry("password", password)
            .entry("operation", operation);
        Json::empty_object()
            .entry("type", Json::from_str("object"))
            .entry("properties", properties)
            .entry("required", Json::empty_array()
                .item(Json::from_str("url"))
                .item(Json::from_str("database"))
                .item(Json::from_str("username"))
                .item(Json::from_str("password"))
                .item(Json::from_str("operation")))
    }

    /// The session and the login request for the config.
    pub fn plan_login(&self, config: &Json) -> (r: Result<(OdooSession, HttpRequest), BrickError>)
        ensures
            match (r, odoo_login(config@)) {
                (Ok((s, q)), Ok((base, db, pw, op, p))) => s.base_url@ == base && s.database@ == db
                    && s.password@ == pw && s.operation@ == op && q@ == p,
                (Err(e), Err(f)) => e@ == f,
                _ => false,
            },
    {
        let url = match config.get("url") {
            Some(v) => match v.as_str() {
                Some(s) => s,
                None => return Err(BrickError::ConfigError("url is required".to_owned())),
            },
            None => return Err(BrickError::ConfigError("url is required".to_owned())),
        };
        let database = match config.get("database") {
            Some(v) => match v.as_str() {
                Some(s) => s,
                None => return Err(BrickError::ConfigError("database is required".to_owned())),
            },
            None => return Err(BrickError::ConfigError("database is required".to_owned())),
        };
        let username = match config.get("username") {
            Some(v) => match v.as_str() {
                Some(s) => s,
                None => return Err(BrickError::ConfigError("username is required".to_owned())),
            },
            None => return Err(BrickError::ConfigError("username is required".to_owned())),
        };
        let password = match config.get("password") {
            Some(v) => match v.as_str() {
                Some(s) => s,
                None => return Err(BrickError::ConfigError("password is required".to_owned())),
            },
            None => return Err(BrickError::ConfigError("password is required".to_owned())),
        };
        let operation = match config.get("operation") {
            Some(v) => match v.as_str() {
                Some(s) => s,
                None => "get_invoices",
            },
            None => "get_invoices",
        };
        let base = trim_trailing_slashes(url);
        let mut xml = ("<?xml version=\"1.0\"?>\n<methodCall>\n    <methodName>authenticate</methodName>\n    <params>\n        <param><value><string>").to_owned();
        xml.append(database);
        xml.append("</string></value></param>\n        <param><value><string>");
        xml.append(username);
        xml.append("</string></value></param>\n        <param><value><string>");
        xml.append(password);
        xml.append("</string></value></param>\n        <param><value><struct></struct></value></param>\n    </params>\n</methodCall>");
        let request = xml_call(concat(base.as_str(), "/xmlrpc/2/common"), xml);
        let session = OdooSession {
            base_url: base,
            database: database.to_owned(),
            password: password.to_owned(),
            operation: operation.to_owned(),
        };
        Ok((session, request))
    }

    /// The error of a login that could not be sent.
    pub fn login_send_error(reason: &str) -> (e: BrickError)
        ensures
            e@ == BrickErr::ExecutionError("Failed to connect to Odoo: "@ + reason@),
    {
        BrickError::ExecutionError(concat("Failed to connect to Odoo: ", reason))
    }

    /// The user id from the login reply.
    pub fn read_login(&self, reply: &HttpReply) -> (r: Result<i64, BrickError>)
        ensures
            match (r, login_result(reply@)) {
                (Ok(a), Ok(b)) => a == b,
                (Err(e), Err(f)) => e@ == f,
                _ => false,
            },
    {
        if !is_success(reply.status) {
            return Err(
                BrickError::ExecutionError(concat("Odoo authentication failed: ", reply.status_text.as_str())),
            );
        }
        match &reply.body {
            Err(e) => Err(BrickError::ExecutionError(concat("Failed to read Odoo response: ", e.as_str()))),
            Ok(t) => parse_uid(t.as_str()),
        }
    }

    /// The request for the session's operation, logged in as `uid`.
    pub fn plan_call(&self, session: &OdooSession, uid: i64, input: &Json) -> (r: Result<HttpRequest, BrickError>)
        ensures
            match (
                r,
                odoo_call(
                    session.base_url@,
                    session.database@,
                    session.password@,
                    session.operation@,
                    uid,
                    input@,
                ),
            ) {
                (Ok(q), Ok(p)) => q@ == p,
                (Err(e), Err(f)) => e@ == f,
                _ => false,
            },
    {
        let op = session.operation.as_str();
        let ghost opv = session.operation@;
        let mut args: Vec<Json> = Vec::new();
        let (model, method) = if string_eq(op, "get_invoices") {
            let mut d: Vec<&str> = Vec::new();
            d.push("state");
            d.push("!=");
            d.push("cancel");
            let domain = string_array(d);
            let mut f: Vec<&str> = Vec::new();
            f.push("name");
            f.push("partner_id");
            f.push("amount_total");
            f.push("date");
            f.push("state");
            let fields = string_array(f);
            proof {
                assert(domain@ == strs(seq!["state"@, "!="@, "cancel"@])) by {
                    assert(Seq::new(3, |i: int| d@[i]@) =~= seq!["state"@, "!="@, "cancel"@]);
                }
                assert(fields@ == strs(seq!["name"@, "partner_id"@, "amount_total"@, "date"@, "state"@])) by {
                    assert(Seq::new(5, |i: int| f@[i]@) =~= seq!["name"@, "partner_id"@, "amount_total"@, "date"@, "state"@]);
                }
            }
            args.push(single(domain));
            args.push(fields);
            ("account.move", "search_read")
        } else if string_eq(op, "create_invoice") {
            let data = match input.get("invoice_data") {
                Some(d) => d.copy(),
                None => input.copy(),
            };
            args.push(single(data));
            ("account.move", "create")
        } else if string_eq(op, "get_products") {
            let empty = Json::from_vec(Vec::new());
            assert(empty@->Arr_0 =~= Seq::<JsonV>::empty());
            let mut f: Vec<&str> = Vec::new();
            f.push("name");
            f.push("list_price");
            let fields = string_array(f);
            proof {
                assert(fields@ == strs(seq!["name"@, "list_price"@])) by {
                    assert(Seq::new(2, |i: int| f@[i]@) =~= seq!["name"@, "list_price"@]);
                }
            }
            args.push(single(empty));
            args.push(fields);
            ("product.product", "search_read")
        } else {
            return Err(BrickError::ConfigError(concat("Unknown operation: ", op)));
        };
        let ghost av = Seq::new(args@.len(), |k: int| args@[k]@);
        proof {
            let oc = operation_call(opv, input@);
            assert(oc is Some);
            let (om, ometh, oargs) = oc.unwrap();
            assert(av =~= oargs);
            assert(model@ == om);
            assert(method@ == ometh);
        }
        let mut body = String::new();
        let n = args.len();
        let mut i: usize = 0;
        assert(av.take(0) =~= Seq::<JsonV>::empty());
        while i < n
            invariant
                n == args@.len(),
                av == Seq::new(args@.len(), |k: int| args@[k]@),
                i <= n,
                body@ == args_xml(av.take(i as int)),
            decreases n - i,
        {
            proof {
                assert(av.take(i + 1).drop_last() =~= av.take(i as int));
                assert(av.take(i + 1).last() == args@[i as int]@);
            }
            let x = arg_text(&args[i]);
            body.append(x.as_str());
            i = i + 1;
        }
        assert(av.take(n as int) =~= av);
        let uid_text = i64_text(uid);
        let mut xml = ("<?xml version=\"1.0\"?>\n<methodCall>\n    <methodName>execute_kw</methodName>\n    <params>\n        <param><value><string>").to_owned();
        xml.append(session.database.as_str());
        xml.append("</string></value></param>\n        <param><value><i4>");
        xml.append(uid_text.as_str());
        xml.append("</i4></value></param>\n        <param><value><string>");
        xml.append(session.password.as_str());
        xml.append("</string></value></param>\n        <param><value><string>");
        xml.append(model);
        xml.append("</string></value></param>\n        <param><value><string>");
        xml.append(method);
        xml.append("</string></value></param>\n        <param><value><array><data>");
        xml.append(body.as_str());
        xml.append("</data></array></value></param>\n        <param><value><struct></struct></value></param>\n    </params>\n</methodCall>");
        Ok(xml_call(concat(session.base_url.as_str(), "/xmlrpc/2/object"), xml))
    }

    /// The error of a method call that could not be sent.
    pub fn call_send_error(reason: &str) -> (e: BrickError)
        ensures
            e@ == BrickErr::ExecutionError("Failed to call Odoo method: "@ + reason@),
    {
        BrickError::ExecutionError(concat("Failed to call Odoo method: ", reason))
    }

    /// The output of a method call, from its reply.
    pub fn finish(&self, reply: HttpReply) -> (r: Result<Json, BrickError>)
        ensures
            json_bres(r) == odoo_output(reply@),
    {
        if !is_success(reply.status) {
            let t = reply_text_or_unknown(&reply);
            let head = concat3("Odoo API error (", reply.status_text.as_str(), "): ");
            return Err(BrickError::ExecutionError(concat(head.as_str(), t.as_str())));
        }
        match reply.body {
            Err(e) => Err(BrickError::ExecutionError(concat("Failed to read Odoo response: ", e.as_str()))),
            Ok(t) => {
                let cs = chars_of(t.as_str());
                let fault = chars_of("<fault>");
                if find_text(&cs, &fault).is_some() {
                    return Err(BrickError::ExecutionError("Odoo method call failed".to_owned()));
                }
                let o = put(Json::empty_object(), "result", Json::from_str("success"));
                Ok(put(o, "raw_response", Json::String(t)))
            },
        }
    }
}

} // verus!
