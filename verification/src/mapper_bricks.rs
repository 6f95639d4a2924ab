//! The bricks that reshape a payload: field mapping, text combination and
//! a simple condition.
use vstd::prelude::*;
use crate::json::{Json, JsonV, empty_obj, empty_arr, jget, obj_insert, json_text, to_json_text, string_eq};
use crate::text::{join, strs_view, join_strings, concat, concat3};
use crate::types::{
    BrickType, MappingRule, MappingRuleV, MappingDirection, MergeStrategy, SplitStrategy,
};
use crate::mapper::{
    Mapper, MapErr, map_err_text, mappings_result, rules_view, rules_reads_safe, get_path,
    reach_safe, condition_holds, value_res, bool_res,
};
use crate::brick_traits::{BrickError, BrickErr, json_bres, string_entries};

verus! {

/// The value after putting `v` under `k`, when it is an object.
pub open spec fn with_field(target: JsonV, k: Seq<char>, v: JsonV) -> JsonV {
    match target {
        JsonV::Obj(s) => JsonV::Obj(obj_insert(s, k, v)),
        other => other,
    }
}

/// The text of a string field of the config, if it is one.
pub open spec fn str_field(config: JsonV, k: Seq<char>) -> Option<Seq<char>> {
    match jget(config, k) {
        Some(JsonV::Str(s)) => Some(s),
        _ => None,
    }
}

/// The text of a string field, or a default.
pub open spec fn str_or(config: JsonV, k: Seq<char>, d: Seq<char>) -> Seq<char> {
    match str_field(config, k) {
        Some(s) => s,
        None => d,
    }
}

/// A string field of the config, if it is one.
fn get_str<'a>(config: &'a Json, k: &str) -> (r: Option<&'a str>)
    ensures
        match r {
            Some(s) => str_field(config@, k@) == Some(s@),
            None => str_field(config@, k@) is None,
        },
{
    match config.get(k) {
        Some(v) => v.as_str(),
        None => None,
    }
}

/// A string field of the config, or a default.
fn get_str_or<'a>(config: &'a Json, k: &str, d: &'a str) -> (r: &'a str)
    ensures
        r@ == str_or(config@, k@, d@),
{
    match get_str(config, k) {
        Some(s) => s,
        None => d,
    }
}

// ---------------------------------------------------------------------------
// Field mapping.

/// Maps fields of the input into a new document by rules from the config.
pub struct FieldMappingBrick;

/// The paths a mapping gives: the strings of its plural entry when that is
/// an array, else its single entry when that is a string.
pub open spec fn paths_from(m: JsonV, plural: Seq<char>, single: Seq<char>) -> Option<
    Seq<Seq<char>>,
> {
    match jget(m, plural) {
        Some(JsonV::Arr(a)) => Some(string_entries(a)),
        _ => match str_field(m, single) {
            Some(p) => Some(seq![p]),
            None => None,
        },
    }
}

/// The direction a mapping names; forward unless it names another.
pub open spec fn direction_from(m: JsonV) -> MappingDirection {
    match str_field(m, "direction"@) {
        Some(s) => if s == "backward"@ {
            MappingDirection::Backward
        } else if s == "bidirectional"@ {
            MappingDirection::Bidirectional
        } else {
            MappingDirection::Forward
        },
        None => MappingDirection::Forward,
    }
}

/// The merge strategy a mapping names; an unknown name is `Concat`.
pub open spec fn merge_from(m: JsonV) -> Option<MergeStrategy> {
    match str_field(m, "merge_strategy"@) {
        Some(s) => Some(
            if s == "concat"@ {
                MergeStrategy::Concat
            } else if s == "merge_object"@ {
                MergeStrategy::MergeObject
            } else if s == "array"@ {
                MergeStrategy::Array
            } else if s == "first"@ {
                MergeStrategy::First
            } else if s == "last"@ {
                MergeStrategy::Last
            } else {
                MergeStrategy::Concat
            },
        ),
        None => None,
    }
}

/// The split strategy a mapping names; an unknown name is `Copy`.
pub open spec fn split_from(m: JsonV) -> Option<SplitStrategy> {
    match str_field(m, "split_strategy"@) {
        Some(s) => Some(
            if s == "extract"@ {
                SplitStrategy::Extract
            } else if s == "transform_each"@ {
                SplitStrategy::TransformEach
            } else {
                SplitStrategy::Copy
            },
        ),
        None => None,
    }
}

/// The rule that one mapping of the config describes.
pub open spec fn rule_from(m: JsonV) -> Result<MappingRuleV, BrickErr> {
    match paths_from(m, "source_paths"@, "source_path"@) {
        None => Err(BrickErr::ConfigError("Either source_path or source_paths is required"@)),
        Some(sps) => match paths_from(m, "target_paths"@, "target_path"@) {
            None => Err(BrickErr::ConfigError("Either target_path or target_paths is required"@)),
            Some(tps) => Ok(
                MappingRuleV {
                    source_path: if sps.len() > 0 {
                        sps[0]
                    } else {
                        Seq::empty()
                    },
                    target_path: if tps.len() > 0 {
                        tps[0]
                    } else {
                        Seq::empty()
                    },
                    source_paths: sps,
                    target_paths: tps,
                    direction: direction_from(m),
                    transform: None,
                    merge_strategy: merge_from(m),
                    split_strategy: split_from(m),
                },
            ),
        },
    }
}

/// The rules of the mappings, in order, or the first mapping's complaint.
pub open spec fn rules_from(ms: Seq<JsonV>) -> Result<Seq<MappingRuleV>, BrickErr>
    decreases ms.len(),
{
    if ms.len() == 0 {
        Ok(Seq::empty())
    } else {
        match rules_from(ms.drop_last()) {
            Err(e) => Err(e),
            Ok(rs) => match rule_from(ms.last()) {
                Err(e) => Err(e),
                Ok(r) => Ok(rs.push(r)),
            },
        }
    }
}

/// The rules that the config describes.
pub open spec fn config_rules(config: JsonV) -> Result<Seq<MappingRuleV>, BrickErr> {
    match jget(config, "mappings"@) {
        Some(JsonV::Arr(ms)) => rules_from(ms),
        _ => Err(BrickErr::ConfigError("mappings array is required"@)),
    }
}

/// The output of the field-mapping brick.
pub open spec fn field_mapping_output(input: JsonV, config: JsonV) -> Result<JsonV, BrickErr> {
    match config_rules(config) {
        Err(e) => Err(e),
        Ok(rules) => match mappings_result(input, rules) {
            Ok(o) => Ok(o),
            Err(e) => Err(BrickErr::ExecutionError("Mapping error: "@ + map_err_text(e))),
        },
    }
}

/// The paths of a mapping: its plural entry's strings, or its single entry.
fn read_paths(m: &Json, plural: &str, single: &str) -> (r: Option<Vec<String>>)
    ensures
        match r {
            Some(v) => paths_from(m@, plural@, single@) == Some(strs_view(v@)),
            None => paths_from(m@, plural@, single@) is None,
        },
{
    match m.get(plural) {
        Some(p) => match p.as_array() {
            Some(items) => {
                let ghost es = Seq::new(items@.len(), |i: int| items@[i]@);
                assert(es =~= p@->Arr_0);
                let mut out: Vec<String> = Vec::new();
                let n = items.len();
                let mut i: usize = 0;
                assert(es.take(0) =~= Seq::<JsonV>::empty());
                assert(strs_view(out@) =~= Seq::<Seq<char>>::empty());
                while i < n
                    invariant
                        n == items@.len(),
                        es == Seq::new(items@.len(), |i: int| items@[i]@),
                        i <= n,
                        strs_view(out@) == string_entries(es.take(i as int)),
                    decreases n - i,
                {
                    proof {
                        assert(es.take(i + 1).drop_last() =~= es.take(i as int));
                        assert(es.take(i + 1).last() == items@[i as int]@);
                    }
                    let ghost before = strs_view(out@);
                    match items[i].as_str() {
                        Some(s) => {
                            out.push(s.to_owned());
                            assert(strs_view(out@) =~= before.push(s@));
                        },
                        None => {},
                    }
                    i = i + 1;
                }
                assert(es.take(n as int) =~= es);
                return Some(out);
            },
            None => {},
        },
        None => {},
    }
    match get_str(m, single) {
        Some(p) => {
            let mut out: Vec<String> = Vec::new();
            out.push(p.to_owned());
            assert(strs_view(out@) =~= seq![p@]);
            Some(out)
        },
        None => None,
    }
}

/// The first path of a list, or the empty path.
fn first_or_empty(v: &Vec<String>) -> (r: String)
    ensures
        r@ == if v@.len() > 0 {
            v@[0]@
        } else {
            Seq::<char>::empty()
        },
{
    if v.len() > 0 {
        (v[0].as_str()).to_owned()
    } else {
        String::new()
    }
}

/// The JSON schema of the field mapping brick's configuration.
pub open spec fn field_mapping_schema() -> JsonV {
    let source_path = empty_obj()
        .entry("type"@, JsonV::Str("string"@))
        .entry("description"@, JsonV::Str("Single source path (legacy format, e.g., 'user.name')"@));
    let target_path = empty_obj()
        .entry("type"@, JsonV::Str("string"@))
        .entry("description"@, JsonV::Str("Single target path (legacy format, e.g., 'customer_name')"@));
    let source_paths = empty_obj()
        .entry("type"@, JsonV::Str("array"@))
        .entry("items"@, empty_obj()
            .entry("type"@, JsonV::Str("string"@)))
        .entry("description"@, JsonV::Str("Multiple source paths for multi-directional mapping"@));
    let target_paths = empty_obj()
        .entry("type"@, JsonV::Str("array"@))
        .entry("items"@, empty_obj()
            .entry("type"@, JsonV::Str("string"@)))
        .entry("description"@, JsonV::Str("Multiple target paths for multi-directional mapping"@));
    let direction = empty_obj()
        .entry("type"@, JsonV::Str("string"@))
        .entry("enum"@, empty_arr()
            .item(JsonV::Str("forward"@))
            .item(JsonV::Str("backward"@))
            .item(JsonV::Str("bidirectional"@)))
        .entry("default"@, JsonV::Str("forward"@))
        .entry("description"@, JsonV::Str("Mapping direction"@));
    let merge_strategy = empty_obj()
        .entry("type"@, JsonV::Str("string"@))
        .entry("enum"@, empty_arr()
            .item(JsonV::Str("concat"@))
            .item(JsonV::Str("merge_object"@))
            .item(JsonV::Str("array"@))
            .item(JsonV::Str("first"@))
            .item(JsonV::Str("last"@)))
        .entry("description"@, JsonV::Str("Strategy for merging multiple sources to one target"@));
    let split_strategy = empty_obj()
        .entry("type"@, JsonV::Str("string"@))
        .entry("enum"@, empty_arr()
            .item(JsonV::Str("copy"@))
            .item(JsonV::Str("extract"@))
            .item(JsonV::Str("transform_each"@)))
        .entry("description"@, JsonV::Str("Strategy for splitting one source to multiple targets"@));
    let properties = empty_obj()
        .entry("source_path"@, source_path)
        .entry("target_path"@, target_path)
        .entry("source_paths"@, source_paths)
        .entry("target_paths"@, target_paths)
        .entry("direction"@, direction)
        .entry("merge_strategy"@, merge_strategy)
        .entry("split_strategy"@, split_strategy);
    let items = empty_obj()
        .entry("type"@, JsonV::Str("object"@))
        .entry("properties"@, properties);
    let mappings = empty_obj()
        .entry("type"@, JsonV::Str("array"@))
        .entry("items"@, items);
    empty_obj()
        .entry("type"@, JsonV::Str("object"@))
        .entry("properties"@, empty_obj()
            .entry("mappings"@, mappings))
        .entry("required"@, empty_arr().item(JsonV::Str("mappings"@)))
}

impl FieldMappingBrick {
    /// The brick's name.
    pub fn name(&self) -> (s: &'static str)
        ensures
            s@ == "field_mapping"@,
    {
        "field_mapping"
    }

    /// The brick's type.
    pub fn brick_type(&self) -> (t: BrickType)
        ensures
            t == BrickType::FieldMapping,
    {
        BrickType::FieldMapping
    }

    /// The JSON schema of the brick's configuration.
    pub fn config_schema(&self) -> (r: Json)
        ensures
            r@ == field_mapping_schema(),
    {
        let source_path = Json::empty_object()
            .entry("type", Json::from_str("string"))
            .entry("description", Json::from_str("Single source path (legacy format, e.g., 'user.name')"));
        let target_path = Json::empty_object()
            .entry("type", Json::from_str("string"))
            .entry("description", Json::from_str("Single target path (legacy format, e.g., 'customer_name')"));
        let source_paths = Json::empty_object()
            .entry("type", Json::from_str("array"))
            .entry("items", Json::empty_object()
                .entry("type", Json::from_str("string")))
            .entry("description", Json::from_str("Multiple source paths for multi-directional mapping"));
        let target_paths = Json::empty_object()
            .entry("type", Json::from_str("array"))
            .entry("items", Json::empty_object()
                .entry("type", Json::from_str("string")))
            .entry("description", Json::from_str("Multiple target paths for multi-directional mapping"));
        let direction = Json::empty_object()
            .entry("type", Json::from_str("string"))
            .entry("enum", Json::empty_array()
                .item(Json::from_str("forward"))
                .item(Json::from_str("backward"))
                .item(Json::from_str("bidirectional")))
            .entry("default", Json::from_str("forward"))
            .entry("description", Json::from_str("Mapping direction"));
        let merge_strategy = Json::empty_object()
            .entry("type", Json::from_str("string"))
            .entry("enum", Json::empty_array()
                .item(Json::from_str("concat"))
                .item(Json::from_str("merge_object"))
                .item(Json::from_str("array"))
                .item(Json::from_str("first"))
                .item(Json::from_str("last")))
            .entry("description", Json::from_str("Strategy for merging multiple sources to one target"));
        let split_strategy = Json::empty_object()
            .entry("type", Json::from_str("string"))
            .entry("enum", Json::empty_array()
                .item(Json::from_str("copy"))
                .item(Json::from_str("extract"))
                .item(Json::from_str("transform_each")))
            .entry("description", Json::from_str("Strategy for splitting one source to multiple targets"));
        let properties = Json::empty_object()
            .entry("source_path", source_path)
            .entry("target_path", target_path)
            .entry("source_paths", source_paths)
            .entry("target_paths", target_paths)
            .entry("direction", direction)
            .entry("merge_strategy", merge_strategy)
            .entry("split_strategy", split_strategy);
        let items = Json::empty_object()
            .entry("type", Json::from_str("object"))
            .entry("properties", properties);
        let mappings = Json::empty_object()
            .entry("type", Json::from_str("array"))
            .entry("items", items);
        Json::empty_object()
            .entry("type", Json::from_str("object"))
            .entry("properties", Json::empty_object()
                .entry("mappings", mappings))
            .entry("required", Json::empty_array().item(Json::from_str("mappings")))
    }

    /// The rule that one mapping describes.
    fn parse_rule(m: &Json) -> (r: Result<MappingRule, BrickError>)
        ensures
            match (r, rule_from(m@)) {
                (Ok(x), Ok(y)) => x@ == y,
                (Err(e), Err(f)) => e@ == f,
                _ => false,
            },
    {
        let source_paths = match read_paths(m, "source_paths", "source_path") {
            Some(v) => v,
            None => {
                return Err(
                    BrickError::ConfigError(
                        "Either source_path or source_paths is required".to_owned(),
                    ),
                );
            },
        };
        let target_paths = match read_paths(m, "target_paths", "target_path") {
            Some(v) => v,
            None => {
                return Err(
                    BrickError::ConfigError(
                        "Either target_path or target_paths is required".to_owned(),
                    ),
                );
            },
        };
        let direction = match get_str(m, "direction") {
            Some(s) => if string_eq(s, "backward") {
                MappingDirection::Backward
            } else if string_eq(s, "bidirectional") {
                MappingDirection::Bidirectional
            } else {
                MappingDirection::Forward
            },
            None => MappingDirection::Forward,
        };
        let merge_strategy = match get_str(m, "merge_strategy") {
            Some(s) => Some(
                if string_eq(s, "concat") {
                    MergeStrategy::Concat
                } else if string_eq(s, "merge_object") {
                    MergeStrategy::MergeObject
                } else if string_eq(s, "array") {
                    MergeStrategy::Array
                } else if string_eq(s, "first") {
                    MergeStrategy::First
                } else if string_eq(s, "last") {
                    MergeStrategy::Last
                } else {
                    MergeStrategy::Concat
                },
            ),
            None => None,
        };
        let split_strategy = match get_str(m, "split_strategy") {
            Some(s) => Some(
                if string_eq(s, "extract") {
                    SplitStrategy::Extract
                } else if string_eq(s, "transform_each") {
                    SplitStrategy::TransformEach
                } else {
                    SplitStrategy::Copy
                },
            ),
            None => None,
        };
        let source_path = first_or_empty(&source_paths);
        let target_path = first_or_empty(&target_paths);
        Ok(
            MappingRule {
                source_path,
                target_path,
                source_paths,
                target_paths,
                direction,
                transform: None,
                merge_strategy,
                split_strategy,
            },
        )
    }

    /// The rules that the config describes, in order.
    pub fn parse_rules(config: &Json) -> (r: Result<Vec<MappingRule>, BrickError>)
        ensures
            match (r, config_rules(config@)) {
                (Ok(x), Ok(y)) => rules_view(x@) == y,
                (Err(e), Err(f)) => e@ == f,
                _ => false,
            },
    {
        let items = match config.get("mappings") {
            Some(v) => match v.as_array() {
                Some(a) => a,
                None => {
                    return Err(BrickError::ConfigError("mappings array is required".to_owned()));
                },
            },
            None => {
                return Err(BrickError::ConfigError("mappings array is required".to_owned()));
            },
        };
        let ghost ms = Seq::new(items@.len(), |i: int| items@[i]@);
        assert(ms =~= jget(config@, "mappings"@)->0->Arr_0);
        let mut rules: Vec<MappingRule> = Vec::new();
        let n = items.len();
        let mut i: usize = 0;
        assert(ms.take(0) =~= Seq::<JsonV>::empty());
        assert(rules_view(rules@) =~= Seq::<MappingRuleV>::empty());
        while i < n
            invariant
                n == items@.len(),
                ms == Seq::new(items@.len(), |i: int| items@[i]@),
                i <= n,
                rules_from(ms.take(i as int)) == Ok::<Seq<MappingRuleV>, BrickErr>(
                    rules_view(rules@),
                ),
                config_rules(config@) == rules_from(ms),
                rules@.len() == i,
            decreases n - i,
        {
            proof {
                assert(ms.take(i + 1).drop_last() =~= ms.take(i as int));
                assert(ms.take(i + 1).last() == items@[i as int]@);
            }
            let ghost before = rules_view(rules@);
            match FieldMappingBrick::parse_rule(&items[i]) {
                Ok(rule) => {
                    let ghost rv = rule@;
                    rules.push(rule);
                    assert(rules@[i as int]@ == rv);
                    assert(rules_view(rules@) =~= before.push(rv));
                },
                Err(e) => {
                    proof {
                        lemma_rules_from_stuck(ms, i + 1);
                    }
                    return Err(e);
                },
            }
            i = i + 1;
        }
        assert(ms.take(n as int) =~= ms);
        Ok(rules)
    }

    /// Maps the input into a new document by the rules of the config.
    pub fn execute(&self, input: Json, config: &Json) -> (r: Result<Json, BrickError>)
        requires
            config_rules(config@) matches Ok(rules) ==> rules_reads_safe(input@, rules),
        ensures
            json_bres(r) == field_mapping_output(input@, config@),
    {
        let rules = match FieldMappingBrick::parse_rules(config) {
            Ok(rules) => rules,
            Err(e) => return Err(e),
        };
        match Mapper::apply_mappings(&input, rules.as_slice()) {
            Ok(out) => Ok(out),
            Err(e) => {
                let m = e.message();
                Err(BrickError::ExecutionError(concat("Mapping error: ", m.as_str())))
            },
        }
    }
}

/// Once a mapping is malformed, later mappings change nothing.
proof fn lemma_rules_from_stuck(ms: Seq<JsonV>, k: int)
    requires
        0 <= k <= ms.len(),
        rules_from(ms.take(k)) is Err,
    ensures
        rules_from(ms) == rules_from(ms.take(k)),
    decreases ms.len(),
{
    if k == ms.len() {
        assert(ms.take(k) =~= ms);
    } else {
        assert(ms.drop_last().take(k) =~= ms.take(k));
        lemma_rules_from_stuck(ms.drop_last(), k);
    }
}

// ---------------------------------------------------------------------------
// Combining text.

/// Joins the values of several fields into one text field.
pub struct CombineTextBrick;

/// A value as text: a string as it is, anything else as JSON.
pub open spec fn text_of(v: JsonV) -> Seq<char> {
    match v {
        JsonV::Str(s) => s,
        _ => json_text(v),
    }
}

/// The texts of the fields, in order, or the first complaint.
pub open spec fn field_texts(input: JsonV, fields: Seq<JsonV>) -> Result<Seq<Seq<char>>, BrickErr>
    decreases fields.len(),
{
    if fields.len() == 0 {
        Ok(Seq::empty())
    } else {
        match field_texts(input, fields.drop_last()) {
            Err(e) => Err(e),
            Ok(ts) => match fields.last() {
                JsonV::Str(p) => match get_path(input, p) {
                    Err(e) => Err(
                        BrickErr::InvalidInput("Failed to get field "@ + p + ": "@ + map_err_text(e)),
                    ),
                    Ok(v) => Ok(ts.push(text_of(v))),
                },
                _ => Err(BrickErr::ConfigError("Field path must be a string"@)),
            },
        }
    }
}

/// Each field path that combining reaches is safe to read.
pub open spec fn fields_safe(input: JsonV, fields: Seq<JsonV>) -> bool {
    forall|i: int|
        0 <= i < fields.len() ==> (#[trigger] field_texts(input, fields.take(i))) is Ok ==> (
        fields[i] matches JsonV::Str(p) ==> reach_safe(input, p))
}

/// The output of the text-combining brick.
pub open spec fn combine_output(input: JsonV, config: JsonV) -> Result<JsonV, BrickErr> {
    match jget(config, "fields"@) {
        Some(JsonV::Arr(fields)) => match field_texts(input, fields) {
            Err(e) => Err(e),
            Ok(ts) => Ok(
                with_field(
                    input,
                    str_or(config, "output_field"@, "combined_text"@),
                    JsonV::Str(join(ts, str_or(config, "separator"@, " "@))),
                ),
            ),
        },
        _ => Err(BrickErr::ConfigError("fields array is required"@)),
    }
}

/// Once a field fails, later fields change nothing.
proof fn lemma_field_texts_stuck(input: JsonV, fields: Seq<JsonV>, k: int)
    requires
        0 <= k <= fields.len(),
        field_texts(input, fields.take(k)) is Err,
    ensures
        field_texts(input, fields) == field_texts(input, fields.take(k)),
    decreases fields.len(),
{
    if k == fields.len() {
        assert(fields.take(k) =~= fields);
    } else {
        assert(fields.drop_last().take(k) =~= fields.take(k));
        lemma_field_texts_stuck(input, fields.drop_last(), k);
    }
}

/// The JSON schema of the text combining brick's configuration.
pub open spec fn combine_text_schema() -> JsonV {
    let fields = empty_obj()
        .entry("type"@, JsonV::Str("array"@))
        .entry("items"@, empty_obj()
            .entry("type"@, JsonV::Str("string"@)))
        .entry("description"@, JsonV::Str("Array of field paths to combine"@));
    let separator = empty_obj()
        .entry("type"@, JsonV::Str("string"@))
        .entry("description"@, JsonV::Str("Separator to use when combining"@))
        .entry("default"@, JsonV::Str(" "@));
    let output_field = empty_obj()
        .entry("type"@, JsonV::Str("string"@))
        .entry("description"@, JsonV::Str("Field name for the combined result"@))
        .entry("default"@, JsonV::Str("combined_text"@));
    let properties = empty_obj()
        .entry("fields"@, fields)
        .entry("separator"@, separator)
        .entry("output_field"@, output_field);
    empty_obj()
        .entry("type"@, JsonV::Str("object"@))
        .entry("properties"@, properties)
        .entry("required"@, empty_arr()
            .item(JsonV::Str("fields"@))
            .item(JsonV::Str("output_field"@)))
}

impl CombineTextBrick {
    /// The brick's name.
    pub fn name(&self) -> (s: &'static str)
        ensures
            s@ == "combine_text"@,
    {
        "combine_text"
    }

    /// The brick's type.
    pub fn brick_type(&self) -> (t: BrickType)
        ensures
            t == BrickType::CombineText,
    {
        BrickType::CombineText
    }

    /// The JSON schema of the brick's configuration.
    pub fn config_schema(&self) -> (r: Json)
        ensures
            r@ == combine_text_schema(),
    {
        let fields = Json::empty_object()
            .entry("type", Json::from_str("array"))
            .entry("items", Json::empty_object()
                .entry("type", Json::from_str("string")))
            .entry("description", Json::from_str("Array of field paths to combine"));
        let separator = Json::empty_object()
            .entry("type", Json::from_str("string"))
            .entry("description", Json::from_str("Separator to use when combining"))
            .entry("default", Json::from_str(" "));
        let output_field = Json::empty_object()
            .entry("type", Json::from_str("string"))
            .entry("description", Json::from_str("Field name for the combined result"))
            .entry("default", Json::from_str("combined_text"));
        let properties = Json::empty_object()
            .entry("fields", fields)
            .entry("separator", separator)
            .entry("output_field", output_field);
        Json::empty_object()
            .entry("type", Json::from_str("object"))
            .entry("properties", properties)
            .entry("required", Json::empty_array()
                .item(Json::from_str("fields"))
                .item(Json::from_str("output_field")))
    }

    /// Does combining take apart only safe path pieces of the fields it
    /// reads (each field up to the first that fails)?
    pub fn fields_reach_safe(&self, input: &Json, config: &Json) -> (r: bool)
        ensures
            r == (jget(config@, "fields"@) matches Some(JsonV::Arr(fields)) ==> fields_safe(
                input@,
                fields,
            )),
    {
        let fields = match config.get("fields") {
            Some(v) => match v.as_array() {
                Some(a) => a,
                None => {
                    return true;
                },
            },
            None => {
                return true;
            },
        };
        let ghost fs = Seq::new(fields@.len(), |i: int| fields@[i]@);
        assert(fs =~= jget(config@, "fields"@)->0->Arr_0);
        let n = fields.len();
        let mut i: usize = 0;
        assert(fs.take(0) =~= Seq::<JsonV>::empty());
        while i < n
            invariant
                n == fields@.len(),
                fs == Seq::new(fields@.len(), |i: int| fields@[i]@),
                jget(config@, "fields"@) == Some(JsonV::Arr(fs)),
                i <= n,
                field_texts(input@, fs.take(i as int)) is Ok,
                forall|j: int|
                    0 <= j < i ==> (#[trigger] field_texts(input@, fs.take(j))) is Ok ==> (
                    fs[j] matches JsonV::Str(p) ==> reach_safe(input@, p)),
            decreases n - i,
        {
            proof {
                assert(fs.take(i + 1).drop_last() =~= fs.take(i as int));
                assert(fs.take(i + 1).last() == fields@[i as int]@);
            }
            let stuck = match fields[i].as_str() {
                None => true,
                Some(path) => {
                    if !Mapper::path_reach_safe(input, path) {
                        assert(!fields_safe(input@, fs)) by {
                            assert(field_texts(input@, fs.take(i as int)) is Ok);
                        }
                        return false;
                    }
                    Mapper::get_value_at_path(input, path).is_err()
                },
            };
            if stuck {
                proof {
                    assert(field_texts(input@, fs.take(i + 1)) is Err);
                    assert forall|j: int| 0 <= j < fs.len() implies (#[trigger] field_texts(
                        input@,
                        fs.take(j),
                    )) is Ok ==> (fs[j] matches JsonV::Str(p) ==> reach_safe(input@, p)) by {
                        if j > i {
                            assert(fs.take(j).take(i + 1) =~= fs.take(i + 1));
                            lemma_field_texts_stuck(input@, fs.take(j), i + 1);
                        }
                    }
                }
                return true;
            }
            i = i + 1;
        }
        true
    }

    /// Joins the texts of the configured fields with the separator and puts
    /// them under the output field.
    pub fn execute(&self, input: Json, config: &Json) -> (r: Result<Json, BrickError>)
        requires
            jget(config@, "fields"@) matches Some(JsonV::Arr(fields)) ==> fields_safe(input@, fields),
        ensures
            json_bres(r) == combine_output(input@, config@),
    {
        let fields = match config.get("fields") {
            Some(v) => match v.as_array() {
                Some(a) => a,
                None => {
                    return Err(BrickError::ConfigError("fields array is required".to_owned()));
                },
            },
            None => {
                return Err(BrickError::ConfigError("fields array is required".to_owned()));
            },
        };
        let separator = get_str_or(config, "separator", " ");
        let output_field = get_str_or(config, "output_field", "combined_text");
        let ghost fs = Seq::new(fields@.len(), |i: int| fields@[i]@);
        assert(fs =~= jget(config@, "fields"@)->0->Arr_0);
        let mut values: Vec<String> = Vec::new();
        let n = fields.len();
        let mut i: usize = 0;
        assert(fs.take(0) =~= Seq::<JsonV>::empty());
        assert(strs_view(values@) =~= Seq::<Seq<char>>::empty());
        while i < n
            invariant
                n == fields@.len(),
                fs == Seq::new(fields@.len(), |i: int| fields@[i]@),
                fields_safe(input@, fs),
                jget(config@, "fields"@) == Some(JsonV::Arr(fs)),
                separator@ == str_or(config@, "separator"@, " "@),
                output_field@ == str_or(config@, "output_field"@, "combined_text"@),
                i <= n,
                field_texts(input@, fs.take(i as int)) == Ok::<Seq<Seq<char>>, BrickErr>(
                    strs_view(values@),
                ),
            decreases n - i,
        {
            proof {
                assert(fs.take(i + 1).drop_last() =~= fs.take(i as int));
                assert(fs.take(i + 1).last() == fields@[i as int]@);
                let ii: int = i as int;
                assert(field_texts(input@, fs.take(ii)) is Ok);
            }
            let ghost before = strs_view(values@);
            let path = match fields[i].as_str() {
                Some(p) => p,
                None => {
                    proof {
                        lemma_field_texts_stuck(input@, fs, i + 1);
                    }
                    return Err(BrickError::ConfigError("Field path must be a string".to_owned()));
                },
            };
            let value = match Mapper::get_value_at_path(&input, path) {
                Ok(v) => v,
                Err(e) => {
                    let m = e.message();
                    let head = concat3("Failed to get field ", path, ": ");
                    proof {
                        lemma_field_texts_stuck(input@, fs, i + 1);
                    }
                    return Err(BrickError::InvalidInput(concat(head.as_str(), m.as_str())));
                },
            };
            let text = match value.as_str() {
                Some(s) => s.to_owned(),
                None => to_json_text(&value),
            };
            values.push(text);
            assert(strs_view(values@) =~= before.push(text_of(value@)));
            i = i + 1;
        }
        assert(fs.take(n as int) =~= fs);
        let combined = join_strings(values.as_slice(), separator);
        let mut output = input;
        output.insert_key(output_field.to_owned(), Json::String(combined));
        Ok(output)
    }
}

// ---------------------------------------------------------------------------
// Conditions.

/// Sets an output field to one of two values, by a condition on an input field.
pub struct ConditionalBrick;

/// The field that the conditional brick reads, when the config is complete.
pub open spec fn conditional_reads(config: JsonV) -> Option<Seq<char>> {
    match (str_field(config, "condition_field"@), str_field(config, "condition"@)) {
        (Some(cf), Some(_)) => if jget(config, "true_value"@) is Some && jget(
            config,
            "false_value"@,
        ) is Some {
            Some(cf)
        } else {
            None
        },
        _ => None,
    }
}

/// The output of the conditional brick.
pub open spec fn conditional_output(input: JsonV, config: JsonV) -> Result<JsonV, BrickErr> {
    match str_field(config, "condition_field"@) {
        None => Err(BrickErr::ConfigError("condition_field is required"@)),
        Some(cf) => match str_field(config, "condition"@) {
            None => Err(BrickErr::ConfigError("condition is required"@)),
            Some(c) => match jget(config, "true_value"@) {
                None => Err(BrickErr::ConfigError("true_value is required"@)),
                Some(tv) => match jget(config, "false_value"@) {
                    None => Err(BrickErr::ConfigError("false_value is required"@)),
                    Some(fv) => match get_path(input, cf) {
                        Err(e) => Err(
                            BrickErr::InvalidInput(
                                "Failed to get field "@ + cf + ": "@ + map_err_text(e),
                            ),
                        ),
                        Ok(v) => match condition_holds(v, c) {
                            Err(e) => Err(
                                BrickErr::ExecutionError(
                                    "Condition evaluation error: "@ + map_err_text(e),
                                ),
                            ),
                            Ok(b) => Ok(
                                with_field(
                                    input,
                                    str_or(config, "output_field"@, "status"@),
                                    if b {
                                        tv
                                    } else {
                                        fv
                                    },
                                ),
                            ),
                        },
                    },
                },
            },
        },
    }
}

/// The JSON schema of the conditional brick's configuration.
pub open spec fn conditional_schema() -> JsonV {
    let condition_field = empty_obj()
        .entry("type"@, JsonV::Str("string"@))
        .entry("description"@, JsonV::Str("Field path to evaluate condition on"@));
    let condition = empty_obj()
        .entry("type"@, JsonV::Str("string"@))
        .entry("description"@, JsonV::Str("Condition expression (e.g., '> 1000', \"== 'VIP'\")"@));
    let output_field = empty_obj()
        .entry("type"@, JsonV::Str("string"@))
        .entry("description"@, JsonV::Str("Field name for the result"@))
        .entry("default"@, JsonV::Str("status"@));
    let properties = empty_obj()
        .entry("condition_field"@, condition_field)
        .entry("condition"@, condition)
        .entry("true_value"@, empty_obj()
            .entry("description"@, JsonV::Str("Value to set if condition is true"@)))
        .entry("false_value"@, empty_obj()
            .entry("description"@, JsonV::Str("Value to set if condition is false"@)))
        .entry("output_field"@, output_field);
    empty_obj()
        .entry("type"@, JsonV::Str("object"@))
        .entry("properties"@, properties)
        .entry("required"@, empty_arr()
            .item(JsonV::Str("condition_field"@))
            .item(JsonV::Str("condition"@))
            .item(JsonV::Str("true_value"@))
            .item(JsonV::Str("false_value"@))
            .item(JsonV::Str("output_field"@)))
}

impl ConditionalBrick {
    /// The brick's name.
    pub fn name(&self) -> (s: &'static str)
        ensures
            s@ == "conditional"@,
    {
        "conditional"
    }

    /// The brick's type.
    pub fn brick_type(&self) -> (t: BrickType)
        ensures
            t == BrickType::Conditional,
    {
        BrickType::Conditional
    }

    /// The JSON schema of the brick's configuration.
    pub fn config_schema(&self) -> (r: Json)
        ensures
            r@ == conditional_schema(),
    {
        let condition_field = Json::empty_object()
            .entry("type", Json::from_str("string"))
            .entry("description", Json::from_str("Field path to evaluate condition on"));
        let condition = Json::empty_object()
            .entry("type", Json::from_str("string"))
            .entry("description", Json::from_str("Condition expression (e.g., '> 1000', \"== 'VIP'\")"));
        let output_field = Json::empty_object()
            .entry("type", Json::from_str("string"))
            .entry("description", Json::from_str("Field name for the result"))
            .entry("default", Json::from_str("status"));
        let properties = Json::empty_object()
            .entry("condition_field", condition_field)
            .entry("condition", condition)
            .entry("true_value", Json::empty_object()
                .entry("description", Json::from_str("Value to set if condition is true")))
            .entry("false_value", Json::empty_object()
                .entry("description", Json::from_str("Value to set if condition is false")))
            .entry("output_field", output_field);
        Json::empty_object()
            .entry("type", Json::from_str("object"))
            .entry("properties", properties)
            .entry("required", Json::empty_array()
                .item(Json::from_str("condition_field"))
                .item(Json::from_str("condition"))
                .item(Json::from_str("true_value"))
                .item(Json::from_str("false_value"))
                .item(Json::from_str("output_field")))
    }

    /// Tests the condition on the configured field and puts the true or the
    /// false value under the output field.
    pub fn execute(&self, input: Json, config: &Json) -> (r: Result<Json, BrickError>)
        requires
            conditional_reads(config@) matches Some(cf) ==> reach_safe(input@, cf),
        ensures
            json_bres(r) == conditional_output(input@, config@),
    {
        let condition_field = match get_str(config, "condition_field") {
            Some(s) => s,
            None => {
                return Err(BrickError::ConfigError("condition_field is required".to_owned()));
            },
        };
        let condition = match get_str(config, "condition") {
            Some(s) => s,
            None => {
                return Err(BrickError::ConfigError("condition is required".to_owned()));
            },
        };
        let true_value = match config.get("true_value") {
            Some(v) => v.copy(),
            None => {
                return Err(BrickError::ConfigError("true_value is required".to_owned()));
            },
        };
        let false_value = match config.get("false_value") {
            Some(v) => v.copy(),
            None => {
                return Err(BrickError::ConfigError("false_value is required".to_owned()));
            },
        };
        let output_field = get_str_or(config, "output_field", "status");
        let field_value = match Mapper::get_value_at_path(&input, condition_field) {
            Ok(v) => v,
            Err(e) => {
                let m = e.message();
                let head = concat3("Failed to get field ", condition_field, ": ");
                return Err(BrickError::InvalidInput(concat(head.as_str(), m.as_str())));
            },
        };
        let condition_met = match Mapper::evaluate_condition(&field_value, condition) {
            Ok(b) => b,
            Err(e) => {
                let m = e.message();
                return Err(
                    BrickError::ExecutionError(concat("Condition evaluation error: ", m.as_str())),
                );
            },
        };
        let result_value = if condition_met {
            true_value
        } else {
            false_value
        };
        let mut output = input;
        output.insert_key(output_field.to_owned(), result_value);
        Ok(output)
    }
}

} // verus!
