//! What every brick shares: its errors, and the check of a configuration
//! against the brick's schema.
use vstd::prelude::*;
use crate::json::{Json, JsonV, NumV, JsonMap, jget, string_eq};
use crate::text::{join, concat, concat3};

verus! {

/// Why a brick failed.
#[derive(Debug)]
pub enum BrickError {
    ConfigError(String),
    ExecutionError(String),
    QuotaExceeded(String),
    NetworkError(String),
    InvalidInput(String),
    Unknown(String),
}

/// The mathematical value of a brick error.
pub enum BrickErr {
    ConfigError(Seq<char>),
    ExecutionError(Seq<char>),
    QuotaExceeded(Seq<char>),
    NetworkError(Seq<char>),
    InvalidInput(Seq<char>),
    Unknown(Seq<char>),
}

impl View for BrickError {
    type V = BrickErr;

    open spec fn view(&self) -> BrickErr {
        match self {
            BrickError::ConfigError(s) => BrickErr::ConfigError(s@),
            BrickError::ExecutionError(s) => BrickErr::ExecutionError(s@),
            BrickError::QuotaExceeded(s) => BrickErr::QuotaExceeded(s@),
            BrickError::NetworkError(s) => BrickErr::NetworkError(s@),
            BrickError::InvalidInput(s) => BrickErr::InvalidInput(s@),
            BrickError::Unknown(s) => BrickErr::Unknown(s@),
        }
    }
}

/// The text of a brick error.
pub open spec fn brick_err_text(e: BrickErr) -> Seq<char> {
    match e {
        BrickErr::ConfigError(s) => "Configuration error: "@ + s,
        BrickErr::ExecutionError(s) => "Execution error: "@ + s,
        BrickErr::QuotaExceeded(s) => "Quota exceeded: "@ + s,
        BrickErr::NetworkError(s) => "Network error: "@ + s,
        BrickErr::InvalidInput(s) => "Invalid input: "@ + s,
        BrickErr::Unknown(s) => "Unknown error: "@ + s,
    }
}

impl BrickError {
    /// The text of the error.
    pub fn message(&self) -> (s: String)
        ensures
            s@ == brick_err_text(self@),
    {
        match self {
            BrickError::ConfigError(s) => concat("Configuration error: ", s.as_str()),
            BrickError::ExecutionError(s) => concat("Execution error: ", s.as_str()),
            BrickError::QuotaExceeded(s) => concat("Quota exceeded: ", s.as_str()),
            BrickError::NetworkError(s) => concat("Network error: ", s.as_str()),
            BrickError::InvalidInput(s) => concat("Invalid input: ", s.as_str()),
            BrickError::Unknown(s) => concat("Unknown error: ", s.as_str()),
        }
    }
}

/// The mathematical value of a brick's outcome with nothing to return.
pub open spec fn unit_bres(r: Result<(), BrickError>) -> Result<(), BrickErr> {
    match r {
        Ok(()) => Ok(()),
        Err(e) => Err(e@),
    }
}

/// The mathematical value of a brick's output.
pub open spec fn json_bres(r: Result<Json, BrickError>) -> Result<JsonV, BrickErr> {
    match r {
        Ok(v) => Ok(v@),
        Err(e) => Err(e@),
    }
}

// ---------------------------------------------------------------------------
// Configuration schemas.

/// A string as `Debug` writes it: quoted, with escapes.
pub uninterp spec fn debug_quoted(s: Seq<char>) -> Seq<char>;

/// `Debug` on `str`: the text in double quotes with its special
/// characters escaped. The text is named, not stated.
#[verifier::external_body]
fn debug_text(s: &str) -> (r: String)
    ensures
        r@ == debug_quoted(s@),
{
    format!("{:?}", s)
}

/// Does a value have the JSON schema type `t`? Unknown types accept any value.
pub open spec fn type_matches(v: JsonV, t: Seq<char>) -> bool {
    if t == "string"@ {
        v is Str
    } else if t == "number"@ {
        v is Num
    } else if t == "integer"@ {
        v matches JsonV::Num(NumV::Int(_))
    } else if t == "boolean"@ {
        v is Bool
    } else if t == "array"@ {
        v is Arr
    } else if t == "object"@ {
        v is Obj
    } else {
        true
    }
}

/// The first name in `required` that is a string and is missing from the config.
pub open spec fn missing_required(req: Seq<JsonV>, config: JsonV) -> Option<Seq<char>>
    decreases req.len(),
{
    if req.len() == 0 {
        None
    } else {
        match missing_required(req.drop_last(), config) {
            Some(f) => Some(f),
            None => match req.last() {
                JsonV::Str(f) => if jget(config, f) is None {
                    Some(f)
                } else {
                    None
                },
                _ => None,
            },
        }
    }
}

/// The strings among values, in order.
pub open spec fn string_entries(vs: Seq<JsonV>) -> Seq<Seq<char>>
    decreases vs.len(),
{
    if vs.len() == 0 {
        Seq::empty()
    } else {
        match vs.last() {
            JsonV::Str(s) => string_entries(vs.drop_last()).push(s),
            _ => string_entries(vs.drop_last()),
        }
    }
}

/// A list of strings as `Debug` writes it: `["a", "b"]`.
pub open spec fn debug_list(ss: Seq<Seq<char>>) -> Seq<char> {
    "["@ + join(Seq::new(ss.len(), |i: int| debug_quoted(ss[i])), ", "@) + "]"@
}

/// The complaint about one property of the schema, if the config breaks it.
pub open spec fn property_error(name: Seq<char>, fs: JsonV, config: JsonV) -> Option<Seq<char>> {
    match jget(config, name) {
        None => None,
        Some(v) => {
            let type_err = match jget(fs, "type"@) {
                Some(JsonV::Str(t)) => if type_matches(v, t) {
                    None
                } else {
                    Some("Field '"@ + name + "' must be of type '"@ + t + "'"@)
                },
                _ => None,
            };
            match type_err {
                Some(m) => Some(m),
                None => match (jget(fs, "enum"@), v) {
                    (Some(JsonV::Arr(evs)), JsonV::Str(val)) => if string_entries(evs).contains(val) {
                        None
                    } else {
                        Some(
                            "Field '"@ + name + "' must be one of: "@ + debug_list(
                                string_entries(evs),
                            ),
                        )
                    },
                    _ => None,
                },
            }
        },
    }
}

/// The first complaint about the properties, in key order.
pub open spec fn properties_error(props: Seq<(Seq<char>, JsonV)>, config: JsonV) -> Option<
    Seq<char>,
>
    decreases props.len(),
{
    if props.len() == 0 {
        None
    } else {
        match properties_error(props.drop_last(), config) {
            Some(m) => Some(m),
            None => property_error(props.last().0, props.last().1, config),
        }
    }
}

/// The outcome of checking a configuration against a schema.
pub open spec fn config_verdict(schema: JsonV, config: JsonV) -> Result<(), BrickErr> {
    if !(config is Obj) {
        Err(BrickErr::ConfigError("Config must be a JSON object"@))
    } else {
        let missing = match jget(schema, "required"@) {
            Some(JsonV::Arr(req)) => missing_required(req, config),
            _ => None,
        };
        match missing {
            Some(f) => Err(BrickErr::ConfigError("Required field '"@ + f + "' is missing"@)),
            None => match jget(schema, "properties"@) {
                Some(JsonV::Obj(props)) => match properties_error(props, config) {
                    Some(m) => Err(BrickErr::ConfigError(m)),
                    None => Ok(()),
                },
                _ => Ok(()),
            },
        }
    }
}

/// Does a value have the JSON schema type `t`?
fn has_type(v: &Json, t: &str) -> (r: bool)
    ensures
        r == type_matches(v@, t@),
{
    if string_eq(t, "string") {
        v.is_string()
    } else if string_eq(t, "number") {
        v.is_number()
    } else if string_eq(t, "integer") {
        v.is_integer()
    } else if string_eq(t, "boolean") {
        v.is_boolean()
    } else if string_eq(t, "array") {
        v.is_array()
    } else if string_eq(t, "object") {
        v.is_object()
    } else {
        true
    }
}

/// The first required name that the config lacks.
fn find_missing(req: &Vec<Json>, config: &Json) -> (r: Option<String>)
    ensures
        match r {
            Some(f) => missing_required(Seq::new(req@.len(), |i: int| req@[i]@), config@)
                == Some(f@),
            None => missing_required(Seq::new(req@.len(), |i: int| req@[i]@), config@) is None,
        },
{
    let ghost rs = Seq::new(req@.len(), |i: int| req@[i]@);
    let n = req.len();
    let mut i: usize = 0;
    assert(rs.take(0) =~= Seq::<JsonV>::empty());
    while i < n
        invariant
            n == req@.len(),
            rs == Seq::new(req@.len(), |i: int| req@[i]@),
            i <= n,
            missing_required(rs.take(i as int), config@) is None,
        decreases n - i,
    {
        proof {
            assert(rs.take(i + 1).drop_last() =~= rs.take(i as int));
            assert(rs.take(i + 1).last() == req@[i as int]@);
        }
        match req[i].as_str() {
            Some(f) => {
                if config.get(f).is_none() {
                    proof {
                        lemma_missing_stuck(rs, config@, i + 1);
                    }
                    return Some(f.to_owned());
                }
            },
            None => {},
        }
        i = i + 1;
    }
    assert(rs.take(n as int) =~= rs);
    None
}

/// Once a name is missing, later names change nothing.
proof fn lemma_missing_stuck(req: Seq<JsonV>, config: JsonV, k: int)
    requires
        0 <= k <= req.len(),
        missing_required(req.take(k), config) is Some,
    ensures
        missing_required(req, config) == missing_required(req.take(k), config),
    decreases req.len(),
{
    if k == req.len() {
        assert(req.take(k) =~= req);
    } else {
        assert(req.drop_last().take(k) =~= req.take(k));
        lemma_missing_stuck(req.drop_last(), config, k);
    }
}

/// Once a property breaks the schema, later ones change nothing.
proof fn lemma_properties_stuck(props: Seq<(Seq<char>, JsonV)>, config: JsonV, k: int)
    requires
        0 <= k <= props.len(),
        properties_error(props.take(k), config) is Some,
    ensures
        properties_error(props, config) == properties_error(props.take(k), config),
    decreases props.len(),
{
    if k == props.len() {
        assert(props.take(k) =~= props);
    } else {
        assert(props.drop_last().take(k) =~= props.take(k));
        lemma_properties_stuck(props.drop_last(), config, k);
    }
}

/// The strings among the allowed values, and whether `val` is one of them.
fn enum_strings(evs: &Vec<Json>, val: &str) -> (r: (Vec<String>, bool))
    ensures
        Seq::new(r.0@.len(), |i: int| r.0@[i]@) == string_entries(
            Seq::new(evs@.len(), |i: int| evs@[i]@),
        ),
        r.1 == string_entries(Seq::new(evs@.len(), |i: int| evs@[i]@)).contains(val@),
{
    let ghost es = Seq::new(evs@.len(), |i: int| evs@[i]@);
    let mut out: Vec<String> = Vec::new();
    let mut found = false;
    let n = evs.len();
    let mut i: usize = 0;
    assert(es.take(0) =~= Seq::<JsonV>::empty());
    while i < n
        invariant
            n == evs@.len(),
            es == Seq::new(evs@.len(), |i: int| evs@[i]@),
            i <= n,
            Seq::new(out@.len(), |j: int| out@[j]@) == string_entries(es.take(i as int)),
            found == string_entries(es.take(i as int)).contains(val@),
        decreases n - i,
    {
        let ghost before = Seq::new(out@.len(), |j: int| out@[j]@);
        proof {
            assert(es.take(i + 1).drop_last() =~= es.take(i as int));
            assert(es.take(i + 1).last() == evs@[i as int]@);
        }
        match evs[i].as_str() {
            Some(s) => {
                let same = string_eq(s, val);
                out.push(s.to_owned());
                proof {
                    assert(Seq::new(out@.len(), |j: int| out@[j]@) =~= before.push(s@));
                    assert(before.push(s@).contains(val@) == (before.contains(val@) || s@ == val@))
                        by {
                        if before.push(s@).contains(val@) {
                            let j = choose|j: int|
                                0 <= j < before.push(s@).len() && before.push(s@)[j] == val@;
                            if j < before.len() {
                                assert(before[j] == val@);
                            }
                        }
                        if before.contains(val@) {
                            let j = choose|j: int| 0 <= j < before.len() && before[j] == val@;
                            assert(before.push(s@)[j] == val@);
                        }
                        if s@ == val@ {
                            assert(before.push(s@)[before.len() as int] == val@);
                        }
                    }
                }
                found = found || same;
            },
            None => {},
        }
        i = i + 1;
    }
    assert(es.take(n as int) =~= es);
    (out, found)
}

/// The allowed strings as `Debug` lists them.
fn list_text(ss: &Vec<String>) -> (r: String)
    ensures
        r@ == debug_list(Seq::new(ss@.len(), |i: int| ss@[i]@)),
{
    let ghost v = Seq::new(ss@.len(), |i: int| ss@[i]@);
    let ghost d = Seq::new(v.len(), |i: int| debug_quoted(v[i]));
    let mut body = String::new();
    let n = ss.len();
    let mut i: usize = 0;
    assert(d.take(0) =~= Seq::<Seq<char>>::empty());
    while i < n
        invariant
            n == ss@.len(),
            v == Seq::new(ss@.len(), |i: int| ss@[i]@),
            d == Seq::new(v.len(), |i: int| debug_quoted(v[i])),
            i <= n,
            body@ == join(d.take(i as int), ", "@),
        decreases n - i,
    {
        let q = debug_text(ss[i].as_str());
        proof {
            assert(d.take(i + 1).drop_last() =~= d.take(i as int));
            assert(d.take(i + 1).last() == q@);
        }
        if i > 0 {
            body.append(", ");
        } else {
            assert(body@ =~= Seq::<char>::empty());
        }
        body.append(q.as_str());
        proof {
            if i == 0 {
                assert(d.take(1) =~= seq![q@]);
                assert(body@ =~= q@);
            }
        }
        i = i + 1;
    }
    assert(d.take(n as int) =~= d);
    concat3("[", body.as_str(), "]")
}

/// The complaint about one property, if the config breaks it.
fn check_property(name: &str, fs: &Json, config: &Json) -> (r: Option<String>)
    ensures
        match r {
            Some(m) => property_error(name@, fs@, config@) == Some(m@),
            None => property_error(name@, fs@, config@) is None,
        },
{
    let v = match config.get(name) {
        None => return None,
        Some(v) => v,
    };
    match fs.get("type") {
        Some(t) => match t.as_str() {
            Some(field_type) => {
                if !has_type(v, field_type) {
                    let head = concat3("Field '", name, "' must be of type '");
                    return Some(concat3(head.as_str(), field_type, "'"));
                }
            },
            None => {},
        },
        None => {},
    }
    match (fs.get("enum"), v.as_str()) {
        (Some(e), Some(val)) => match e.as_array() {
            Some(evs) => {
                let (allowed, ok) = enum_strings(evs, val);
                proof {
                    assert(Seq::new(evs@.len(), |i: int| evs@[i]@) =~= e@->Arr_0);
                }
                if !ok {
                    let list = list_text(&allowed);
                    let head = concat3("Field '", name, "' must be one of: ");
                    return Some(concat(head.as_str(), list.as_str()));
                }
                None
            },
            None => None,
        },
        _ => None,
    }
}

/// Checks a configuration against a brick's schema: the configuration must
/// be an object, hold every required field, and give each described field
/// a value of the described type and, for strings with an `enum`, one of
/// the listed values.
pub fn validate_config(schema: &Json, config: &Json) -> (r: Result<(), BrickError>)
    ensures
        unit_bres(r) == config_verdict(schema@, config@),
{
    if !config.is_object() {
        return Err(BrickError::ConfigError("Config must be a JSON object".to_owned()));
    }
    match schema.get("required") {
        Some(req) => match req.as_array() {
            Some(items) => {
                proof {
                    assert(Seq::new(items@.len(), |i: int| items@[i]@) =~= req@->Arr_0);
                }
                match find_missing(items, config) {
                    Some(f) => {
                        return Err(
                            BrickError::ConfigError(
                                concat3("Required field '", f.as_str(), "' is missing"),
                            ),
                        );
                    },
                    None => {},
                }
            },
            None => {},
        },
        None => {},
    }
    let props: &JsonMap = match schema.get("properties") {
        Some(p) => match p.as_object() {
            Some(m) => m,
            None => return Ok(()),
        },
        None => return Ok(()),
    };
    let ghost ps = props@;
    let n = props.len();
    let mut i: usize = 0;
    assert(ps.take(0) =~= Seq::<(Seq<char>, JsonV)>::empty());
    while i < n
        invariant
            n == ps.len(),
            ps == props@,
            i <= n,
            properties_error(ps.take(i as int), config@) is None,
            config@ is Obj,
            jget(schema@, "properties"@) == Some(JsonV::Obj(ps)),
            match jget(schema@, "required"@) {
                Some(JsonV::Arr(req)) => missing_required(req, config@) is None,
                _ => true,
            },
        decreases n - i,
    {
        proof {
            assert(ps.take(i + 1).drop_last() =~= ps.take(i as int));
            assert(ps.take(i + 1).last() == ps[i as int]);
        }
        match check_property(props.key_at(i).as_str(), props.value_at(i), config) {
            Some(m) => {
                proof {
                    lemma_properties_stuck(ps, config@, i + 1);
                }
                return Err(BrickError::ConfigError(m));
            },
            None => {},
        }
        i = i + 1;
    }
    assert(ps.take(n as int) =~= ps);
    Ok(())
}

// ---------------------------------------------------------------------------
// Laws.

/// No required name is missing when none is reported: every string among
/// the required names is a key of the config.
pub proof fn lemma_missing_none(req: Seq<JsonV>, config: JsonV)
    requires
        missing_required(req, config) is None,
    ensures
        forall|i: int|
            0 <= i < req.len() ==> (#[trigger] req[i] matches JsonV::Str(f) ==> jget(config, f) is Some),
    decreases req.len(),
{
    if req.len() > 0 {
        lemma_missing_none(req.drop_last(), config);
        assert forall|i: int| 0 <= i < req.len() implies (#[trigger] req[i] matches JsonV::Str(f)
            ==> jget(config, f) is Some) by {
            if i < req.len() - 1 {
                assert(req[i] == req.drop_last()[i]);
            }
        }
    }
}

/// A configuration that passes the check is an object that holds every
/// required field the schema names.
pub proof fn lemma_valid_config_has_required(schema: JsonV, config: JsonV)
    requires
        config_verdict(schema, config) is Ok,
    ensures
        config is Obj,
        jget(schema, "required"@) matches Some(JsonV::Arr(req)) ==> forall|i: int|
            0 <= i < req.len() ==> (#[trigger] req[i] matches JsonV::Str(f) ==> jget(config, f) is Some),
{
    match jget(schema, "required"@) {
        Some(JsonV::Arr(req)) => {
            lemma_missing_none(req, config);
        },
        _ => {},
    }
}

} // verus!
