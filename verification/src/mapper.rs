//! Field mapping: reading and writing values at dotted paths, transforms,
//! merging several sources and splitting one source over several targets.
use vstd::prelude::*;
use crate::json::{
    Json, JsonV, JsonMap, NumOrder, jget, jindex, jstr, obj_insert, obj_replace, obj_get,
    empty_obj, json_text, f64_text_order, chars_of, to_json_text, order_with_text,
    lemma_obj_replace_at, lemma_obj_insert_get, lemma_obj_replace_get, jsons_view, JsonNumber,
};
use crate::text::{
    split_on, find_char, starts_with, trim_ws, trim_char, parse_usize, decimal, join, strs_view,
    upper_text, lower_text, split_char, trim, trim_matches_char, parse_index, usize_text,
    join_strings, to_upper, to_lower, find_char_index, has_prefix, substring, concat, concat3,
    drop_chars,
    lemma_split_nonempty, lemma_find_char,
};
use crate::types::{
    MappingRule, MappingRuleV, TransformType, TransformV, MappingDirection, MergeStrategy,
    SplitStrategy,
};

verus! {

/// Why a mapping failed.
#[derive(Debug)]
pub enum MappingError {
    InvalidPath(String),
    ValueNotFound(String),
    TypeMismatch(String),
    TransformError(String),
}

/// The mathematical value of a mapping error.
pub enum MapErr {
    InvalidPath(Seq<char>),
    ValueNotFound(Seq<char>),
    TypeMismatch(Seq<char>),
    TransformError(Seq<char>),
}

impl View for MappingError {
    type V = MapErr;

    open spec fn view(&self) -> MapErr {
        match self {
            MappingError::InvalidPath(s) => MapErr::InvalidPath(s@),
            MappingError::ValueNotFound(s) => MapErr::ValueNotFound(s@),
            MappingError::TypeMismatch(s) => MapErr::TypeMismatch(s@),
            MappingError::TransformError(s) => MapErr::TransformError(s@),
        }
    }
}

/// The text of a mapping error.
pub open spec fn map_err_text(e: MapErr) -> Seq<char> {
    match e {
        MapErr::InvalidPath(s) => "Invalid path: "@ + s,
        MapErr::ValueNotFound(s) => "Value not found at path: "@ + s,
        MapErr::TypeMismatch(s) => "Type mismatch: "@ + s,
        MapErr::TransformError(s) => "Transform error: "@ + s,
    }
}

impl MappingError {
    /// The text of the error.
    pub fn message(&self) -> (s: String)
        ensures
            s@ == map_err_text(self@),
    {
        match self {
            MappingError::InvalidPath(s) => concat("Invalid path: ", s.as_str()),
            MappingError::ValueNotFound(s) => concat("Value not found at path: ", s.as_str()),
            MappingError::TypeMismatch(s) => concat("Type mismatch: ", s.as_str()),
            MappingError::TransformError(s) => concat("Transform error: ", s.as_str()),
        }
    }
}

/// The mathematical value of a lookup result.
pub open spec fn value_res(r: Result<Json, MappingError>) -> Result<JsonV, MapErr> {
    match r {
        Ok(v) => Ok(v@),
        Err(e) => Err(e@),
    }
}

/// The mathematical value of a result without a value.
pub open spec fn unit_res(r: Result<(), MappingError>) -> Result<(), MapErr> {
    match r {
        Ok(_) => Ok(()),
        Err(e) => Err(e@),
    }
}

/// The mathematical value of a yes/no result.
pub open spec fn bool_res(r: Result<bool, MappingError>) -> Result<bool, MapErr> {
    match r {
        Ok(b) => Ok(b),
        Err(e) => Err(e@),
    }
}

// ---------------------------------------------------------------------------
// Paths.

/// A path piece that reading can take apart without failing on it: when it
/// holds `[`, the first `[` is not its last character and its last
/// character is a single byte.
pub open spec fn part_safe(p: Seq<char>) -> bool {
    find_char(p, '[') matches Some(bp) ==> bp < p.len() - 1 && p.last() < '\u{80}'
}

/// A path whose every piece is `part_safe`.
pub open spec fn path_safe(path: Seq<char>) -> bool {
    forall|i: int| 0 <= i < split_on(path, '.').len() ==> part_safe(#[trigger] split_on(path, '.')[i])
}

/// One step of reading: the value that a path piece selects.
pub open spec fn get_step(cur: JsonV, part: Seq<char>, path: Seq<char>) -> Result<JsonV, MapErr> {
    match find_char(part, '[') {
        Some(bp) => {
            let key = part.take(bp);
            let index_text = part.subrange(bp + 1, part.len() - 1);
            match parse_usize(index_text) {
                None => Err(MapErr::InvalidPath("Invalid array index: "@ + index_text)),
                Some(n) => match jget(cur, key) {
                    None => Err(MapErr::ValueNotFound("Key not found: "@ + key)),
                    Some(arr) => match jindex(arr, n as int) {
                        None => Err(
                            MapErr::ValueNotFound(
                                "Index "@ + decimal(n as nat) + " not found in array"@,
                            ),
                        ),
                        Some(x) => Ok(x),
                    },
                },
            }
        },
        None => match jget(cur, part) {
            None => Err(MapErr::ValueNotFound("Path not found: "@ + path)),
            Some(x) => Ok(x),
        },
    }
}

/// Reading along path pieces, stopping at the first failure.
pub open spec fn get_parts(cur: JsonV, parts: Seq<Seq<char>>, path: Seq<char>) -> Result<
    JsonV,
    MapErr,
>
    decreases parts.len(),
{
    if parts.len() == 0 {
        Ok(cur)
    } else {
        match get_step(cur, parts[0], path) {
            Ok(next) => get_parts(next, parts.drop_first(), path),
            Err(e) => Err(e),
        }
    }
}

/// Reading along the pieces takes apart only pieces that are `part_safe`:
/// every piece that reading reaches (each piece after one that succeeded)
/// is safe; pieces after a failing one are not read.
pub open spec fn reach_safe_parts(cur: JsonV, parts: Seq<Seq<char>>, path: Seq<char>) -> bool
    decreases parts.len(),
{
    parts.len() == 0 || (part_safe(parts[0]) && match get_step(cur, parts[0], path) {
        Ok(next) => reach_safe_parts(next, parts.drop_first(), path),
        Err(_) => true,
    })
}

/// Reading the path in the document takes apart only safe pieces.
pub open spec fn reach_safe(v: JsonV, path: Seq<char>) -> bool {
    reach_safe_parts(v, split_on(path, '.'), path)
}

/// Pieces that are all safe are safe wherever reading reaches.
proof fn lemma_safe_parts_reach(cur: JsonV, parts: Seq<Seq<char>>, path: Seq<char>)
    requires
        forall|i: int| 0 <= i < parts.len() ==> part_safe(#[trigger] parts[i]),
    ensures
        reach_safe_parts(cur, parts, path),
    decreases parts.len(),
{
    if parts.len() > 0 {
        assert(part_safe(parts[0]));
        let rest = parts.drop_first();
        assert forall|i: int| 0 <= i < rest.len() implies part_safe(#[trigger] rest[i]) by {
            assert(rest[i] == parts[i + 1]);
        }
        match get_step(cur, parts[0], path) {
            Ok(next) => lemma_safe_parts_reach(next, rest, path),
            Err(_) => {},
        }
    }
}

/// A path whose pieces are all safe is safe to read in any document.
pub proof fn lemma_path_safe_reach(v: JsonV, path: Seq<char>)
    requires
        path_safe(path),
    ensures
        reach_safe(v, path),
{
    lemma_safe_parts_reach(v, split_on(path, '.'), path);
}

/// The value at a dotted path such as `user.name` or `items[0].title`.
pub open spec fn get_path(v: JsonV, path: Seq<char>) -> Result<JsonV, MapErr> {
    get_parts(v, split_on(path, '.'), path)
}

/// Writing along path pieces: missing objects on the way are created; the
/// last piece is set. The value written so far stays when a step fails.
pub open spec fn set_parts(cur: JsonV, parts: Seq<Seq<char>>, path: Seq<char>, new: JsonV) -> (
    JsonV,
    Result<(), MapErr>,
)
    decreases parts.len(),
{
    if parts.len() == 0 {
        (cur, Ok(()))
    } else if parts.len() == 1 {
        match cur {
            JsonV::Obj(s) => (JsonV::Obj(obj_insert(s, parts[0], new)), Ok(())),
            _ => (cur, Err(MapErr::TypeMismatch("Target path does not point to an object"@))),
        }
    } else {
        let part = parts[0];
        let cur1 = if jget(cur, part) is None {
            match cur {
                JsonV::Obj(s) => JsonV::Obj(obj_insert(s, part, empty_obj())),
                _ => cur,
            }
        } else {
            cur
        };
        match jget(cur1, part) {
            None => (cur1, Err(MapErr::InvalidPath("Path not found: "@ + path))),
            Some(child) => {
                let (c2, r) = set_parts(child, parts.drop_first(), path, new);
                (JsonV::Obj(obj_replace(cur1->Obj_0, part, c2)), r)
            },
        }
    }
}

/// The document after writing `new` at a dotted path, and whether that worked.
pub open spec fn set_path(v: JsonV, path: Seq<char>, new: JsonV) -> (JsonV, Result<(), MapErr>) {
    set_parts(v, split_on(path, '.'), path, new)
}

// ---------------------------------------------------------------------------
// Conditions and transforms.

/// A numeric comparison with a threshold text.
pub open spec fn numeric_condition(v: JsonV, threshold: Seq<char>, greater: bool) -> Result<
    bool,
    MapErr,
> {
    match v {
        JsonV::Num(n) => match f64_text_order(n, threshold) {
            Some(o) => Ok(
                if greater {
                    o == NumOrder::Greater
                } else {
                    o == NumOrder::Less
                },
            ),
            None => Err(MapErr::TransformError("Invalid numeric condition"@)),
        },
        _ => Err(MapErr::TransformError("Invalid numeric condition"@)),
    }
}

/// The outcome of a simple condition such as `> 1000` or `== 'VIP'`.
pub open spec fn condition_holds(v: JsonV, c: Seq<char>) -> Result<bool, MapErr> {
    if starts_with(c, "> "@) {
        numeric_condition(v, trim_ws(c.skip(2)), true)
    } else if starts_with(c, "< "@) {
        numeric_condition(v, trim_ws(c.skip(2)), false)
    } else if starts_with(c, "== "@) {
        let expected = trim_char(trim_char(trim_ws(c.skip(3)), '"'), '\'');
        Ok(jstr(v) == Some(expected))
    } else {
        Err(MapErr::TransformError("Unsupported condition: "@ + c))
    }
}

/// A value's text for concatenation: a string as it is, anything else empty.
pub open spec fn concat_piece(v: JsonV) -> Seq<char> {
    match jstr(v) {
        Some(s) => s,
        None => Seq::empty(),
    }
}

/// The value after a transform.
pub open spec fn transform_value(v: JsonV, t: TransformV) -> Result<JsonV, MapErr> {
    match t {
        TransformV::StringConcat(sep) => match v {
            JsonV::Arr(a) => Ok(JsonV::Str(join(a.map_values(|x: JsonV| concat_piece(x)), sep))),
            _ => Err(MapErr::TypeMismatch("StringConcat requires an array of strings"@)),
        },
        TransformV::NumberAdd => match v {
            JsonV::Num(_) => Ok(v),
            _ => Err(MapErr::TypeMismatch("NumberAdd requires a number"@)),
        },
        TransformV::NumberMultiply => match v {
            JsonV::Num(_) => Ok(v),
            _ => Err(MapErr::TypeMismatch("NumberMultiply requires a number"@)),
        },
        TransformV::StringToUpper => match v {
            JsonV::Str(s) => Ok(JsonV::Str(upper_text(s))),
            _ => Err(MapErr::TypeMismatch("StringToUpper requires a string"@)),
        },
        TransformV::StringToLower => match v {
            JsonV::Str(s) => Ok(JsonV::Str(lower_text(s))),
            _ => Err(MapErr::TypeMismatch("StringToLower requires a string"@)),
        },
        TransformV::Conditional(c, tv, fv) => match condition_holds(v, c) {
            Ok(b) => Ok(
                if b {
                    tv
                } else {
                    fv
                },
            ),
            Err(e) => Err(e),
        },
    }
}

/// The value after an optional transform.
pub open spec fn transformed(v: JsonV, t: Option<TransformV>) -> Result<JsonV, MapErr> {
    match t {
        Some(t) => transform_value(v, t),
        None => Ok(v),
    }
}

// ---------------------------------------------------------------------------
// Merging and splitting.

/// The values found at the paths, in path order; paths that fail are skipped.
pub open spec fn found_values(src: JsonV, paths: Seq<Seq<char>>) -> Seq<JsonV>
    decreases paths.len(),
{
    if paths.len() == 0 {
        Seq::empty()
    } else {
        let rest = found_values(src, paths.drop_last());
        match get_path(src, paths.last()) {
            Ok(v) => rest.push(v),
            Err(_) => rest,
        }
    }
}

/// A value's text for joining: a string as it is, anything else as JSON text.
pub open spec fn render_piece(v: JsonV) -> Seq<char> {
    match jstr(v) {
        Some(s) => s,
        None => json_text(v),
    }
}

/// The entries of `acc` after inserting the entries of `s` in order.
pub open spec fn insert_all(acc: Seq<(Seq<char>, JsonV)>, s: Seq<(Seq<char>, JsonV)>) -> Seq<
    (Seq<char>, JsonV),
>
    decreases s.len(),
{
    if s.len() == 0 {
        acc
    } else {
        let a = insert_all(acc, s.drop_last());
        obj_insert(a, s.last().0, s.last().1)
    }
}

/// The entries of all object values merged in order; later keys win.
pub open spec fn merge_objects(vals: Seq<JsonV>) -> Seq<(Seq<char>, JsonV)>
    decreases vals.len(),
{
    if vals.len() == 0 {
        Seq::empty()
    } else {
        let acc = merge_objects(vals.drop_last());
        match vals.last() {
            JsonV::Obj(s) => insert_all(acc, s),
            _ => acc,
        }
    }
}

/// The values under keys `field_0`, `field_1`, ...
pub open spec fn indexed_fields(vals: Seq<JsonV>) -> Seq<(Seq<char>, JsonV)>
    decreases vals.len(),
{
    if vals.len() == 0 {
        Seq::empty()
    } else {
        let acc = indexed_fields(vals.drop_last());
        obj_insert(acc, "field_"@ + decimal((vals.len() - 1) as nat), vals.last())
    }
}

/// Several source values merged into one.
pub open spec fn merge_values(src: JsonV, paths: Seq<Seq<char>>, strategy: Option<MergeStrategy>) -> Result<
    JsonV,
    MapErr,
> {
    let vals = found_values(src, paths);
    if vals.len() == 0 {
        Err(MapErr::ValueNotFound("No values found at source paths"@))
    } else {
        match strategy {
            Some(MergeStrategy::Concat) => Ok(
                JsonV::Str(join(vals.map_values(|x: JsonV| render_piece(x)), " "@)),
            ),
            Some(MergeStrategy::MergeObject) => Ok(JsonV::Obj(merge_objects(vals))),
            Some(MergeStrategy::Array) => Ok(JsonV::Arr(vals)),
            Some(MergeStrategy::First) => Ok(vals[0]),
            Some(MergeStrategy::Last) => Ok(vals.last()),
            None => Ok(JsonV::Obj(indexed_fields(vals))),
        }
    }
}

/// Writing one value at each path in order, stopping at the first failure.
pub open spec fn set_all(t: JsonV, paths: Seq<Seq<char>>, v: JsonV) -> (JsonV, Result<(), MapErr>)
    decreases paths.len(),
{
    if paths.len() == 0 {
        (t, Ok(()))
    } else {
        let (t1, r1) = set_all(t, paths.drop_last(), v);
        match r1 {
            Err(e) => (t1, Err(e)),
            Ok(_) => set_path(t1, paths.last(), v),
        }
    }
}

/// Writing the `i`-th entry's value of an object at the `i`-th path, for
/// the paths that have an entry, stopping at the first failure.
pub open spec fn set_extract(t: JsonV, paths: Seq<Seq<char>>, s: Seq<(Seq<char>, JsonV)>) -> (
    JsonV,
    Result<(), MapErr>,
)
    decreases paths.len(),
{
    if paths.len() == 0 {
        (t, Ok(()))
    } else {
        let (t1, r1) = set_extract(t, paths.drop_last(), s);
        let idx = paths.len() - 1;
        match r1 {
            Err(e) => (t1, Err(e)),
            Ok(_) => if idx < s.len() {
                match obj_get(s, s[idx].0) {
                    Some(x) => set_path(t1, paths.last(), x),
                    None => (t1, Ok(())),
                }
            } else {
                (t1, Ok(()))
            },
        }
    }
}

/// One source value written to several targets.
pub open spec fn split_value(t: JsonV, paths: Seq<Seq<char>>, v: JsonV, strategy: Option<SplitStrategy>) -> (
    JsonV,
    Result<(), MapErr>,
) {
    match strategy {
        Some(SplitStrategy::Extract) => match v {
            JsonV::Obj(s) => set_extract(t, paths, s),
            _ => set_all(t, paths, v),
        },
        _ => set_all(t, paths, v),
    }
}

// ---------------------------------------------------------------------------
// Mapping rules.

/// Reading one path, transforming, writing one path.
pub open spec fn map_single(
    src: JsonV,
    tgt: JsonV,
    sp: Seq<char>,
    tp: Seq<char>,
    t: Option<TransformV>,
) -> (JsonV, Result<(), MapErr>) {
    match get_path(src, sp) {
        Err(e) => (tgt, Err(e)),
        Ok(v) => match transformed(v, t) {
            Err(e) => (tgt, Err(e)),
            Ok(w) => set_path(tgt, tp, w),
        },
    }
}

/// The first `k` source paths mapped one to one onto the first `k` target paths.
pub open spec fn map_pairs(
    src: JsonV,
    tgt: JsonV,
    sps: Seq<Seq<char>>,
    tps: Seq<Seq<char>>,
    t: Option<TransformV>,
    k: nat,
) -> (JsonV, Result<(), MapErr>)
    decreases k,
{
    if k == 0 {
        (tgt, Ok(()))
    } else {
        let (t1, r1) = map_pairs(src, tgt, sps, tps, t, (k - 1) as nat);
        match r1 {
            Err(e) => (t1, Err(e)),
            Ok(_) => map_single(src, t1, sps[k - 1], tps[k - 1], t),
        }
    }
}

/// Forward mapping of a multi-path rule.
pub open spec fn map_forward(src: JsonV, tgt: JsonV, rule: MappingRuleV) -> (JsonV, Result<(), MapErr>) {
    let sps = rule.source_paths;
    let tps = rule.target_paths;
    if sps.len() == 1 && tps.len() == 1 {
        map_single(src, tgt, sps[0], tps[0], rule.transform)
    } else if sps.len() > 1 && tps.len() == 1 {
        match merge_values(src, sps, rule.merge_strategy) {
            Err(e) => (tgt, Err(e)),
            Ok(m) => match transformed(m, rule.transform) {
                Err(e) => (tgt, Err(e)),
                Ok(w) => set_path(tgt, tps[0], w),
            },
        }
    } else if sps.len() == 1 && tps.len() > 1 {
        match get_path(src, sps[0]) {
            Err(e) => (tgt, Err(e)),
            Ok(v) => split_value(tgt, tps, v, rule.split_strategy),
        }
    } else {
        map_pairs(
            src,
            tgt,
            sps,
            tps,
            rule.transform,
            if sps.len() < tps.len() {
                sps.len()
            } else {
                tps.len()
            },
        )
    }
}

/// The target after applying one rule, and whether that worked.
pub open spec fn map_rule(src: JsonV, tgt: JsonV, rule: MappingRuleV) -> (JsonV, Result<(), MapErr>) {
    let legacy = map_single(src, tgt, rule.source_path, rule.target_path, rule.transform);
    if rule.source_paths.len() > 0 {
        if rule.target_paths.len() > 0 {
            match rule.direction {
                MappingDirection::Backward => (
                    tgt,
                    Err(
                        MapErr::InvalidPath(
                            "Backward mapping requires mutable source. Use bidirectional mapping at flow level."@,
                        ),
                    ),
                ),
                _ => map_forward(src, tgt, rule),
            }
        } else if rule.target_path.len() > 0 {
            legacy
        } else {
            (tgt, Err(MapErr::InvalidPath("No target paths specified"@)))
        }
    } else if rule.source_path.len() > 0 {
        legacy
    } else {
        (tgt, Err(MapErr::InvalidPath("No source paths specified"@)))
    }
}

/// The source paths that applying a rule reads.
pub open spec fn rule_reads(rule: MappingRuleV) -> Seq<Seq<char>> {
    let sps = rule.source_paths;
    let tps = rule.target_paths;
    if sps.len() > 0 {
        if tps.len() > 0 {
            match rule.direction {
                MappingDirection::Backward => Seq::empty(),
                _ => if sps.len() > 1 && tps.len() == 1 {
                    sps
                } else if sps.len() < tps.len() {
                    sps
                } else {
                    sps.take(tps.len() as int)
                },
            }
        } else if rule.target_path.len() > 0 {
            seq![rule.source_path]
        } else {
            Seq::empty()
        }
    } else if rule.source_path.len() > 0 {
        seq![rule.source_path]
    } else {
        Seq::empty()
    }
}

/// Every path that applying the rule can read is safe to read in the source.
pub open spec fn rule_safe(src: JsonV, rule: MappingRuleV) -> bool {
    forall|i: int| 0 <= i < rule_reads(rule).len() ==> reach_safe(src, #[trigger] rule_reads(rule)[i])
}

/// Does the rule map several sources one to one onto several targets?
pub open spec fn pairs_form(rule: MappingRuleV) -> bool {
    let ns = rule.source_paths.len();
    let nt = rule.target_paths.len();
    &&& ns > 0 && nt > 0
    &&& rule.direction != MappingDirection::Backward
    &&& !(ns == 1 && nt == 1)
    &&& !(ns > 1 && nt == 1)
    &&& !(ns == 1 && nt > 1)
}

/// How many pairs a one-to-one rule maps.
pub open spec fn pair_count(rule: MappingRuleV) -> nat {
    if rule.source_paths.len() < rule.target_paths.len() {
        rule.source_paths.len()
    } else {
        rule.target_paths.len()
    }
}

/// Each pair that mapping one to one reaches reads a safe path: a pair is
/// reached when every pair before it was mapped.
pub open spec fn pairs_reads_safe(
    src: JsonV,
    tgt: JsonV,
    sps: Seq<Seq<char>>,
    tps: Seq<Seq<char>>,
    t: Option<TransformV>,
    k: nat,
) -> bool {
    forall|i: int|
        0 <= i < k ==> (#[trigger] map_pairs(src, tgt, sps, tps, t, i as nat)).1 is Ok ==> reach_safe(
            src,
            sps[i],
        )
}

/// Applying the rule to the target reads only safe paths: one-to-one
/// mapping stops at the first pair that fails, every other form reads the
/// paths that `rule_reads` names.
pub open spec fn rule_reads_safe(src: JsonV, tgt: JsonV, rule: MappingRuleV) -> bool {
    if pairs_form(rule) {
        pairs_reads_safe(
            src,
            tgt,
            rule.source_paths,
            rule.target_paths,
            rule.transform,
            pair_count(rule),
        )
    } else {
        rule_safe(src, rule)
    }
}

/// A rule whose every readable path is safe in the source is safe whatever
/// the target.
pub proof fn lemma_rule_safe_reads(src: JsonV, tgt: JsonV, rule: MappingRuleV)
    requires
        rule_safe(src, rule),
    ensures
        rule_reads_safe(src, tgt, rule),
{
    if pairs_form(rule) {
        let r = rule_reads(rule);
        assert forall|i: int| 0 <= i < pair_count(rule) implies reach_safe(src, rule.source_paths[i]) by {
            assert(r[i] == rule.source_paths[i]);
        }
    }
}

/// The output after applying the first `k` rules to an empty object.
pub open spec fn apply_rules(src: JsonV, rules: Seq<MappingRuleV>, k: nat) -> (JsonV, Result<(), MapErr>)
    decreases k,
{
    if k == 0 {
        (empty_obj(), Ok(()))
    } else {
        let (o, r) = apply_rules(src, rules, (k - 1) as nat);
        match r {
            Err(e) => (o, Err(e)),
            Ok(_) => map_rule(src, o, rules[k - 1]),
        }
    }
}

/// The output of applying all rules, or the first failure.
pub open spec fn mappings_result(src: JsonV, rules: Seq<MappingRuleV>) -> Result<JsonV, MapErr> {
    let (o, r) = apply_rules(src, rules, rules.len());
    match r {
        Ok(_) => Ok(o),
        Err(e) => Err(e),
    }
}

/// Each rule that applying the rules reaches reads only safe paths: a rule
/// is reached when every rule before it succeeded.
pub open spec fn rules_reads_safe(src: JsonV, rules: Seq<MappingRuleV>) -> bool {
    forall|i: int|
        0 <= i < rules.len() ==> (#[trigger] apply_rules(src, rules, i as nat)).1 is Ok
            ==> rule_reads_safe(src, apply_rules(src, rules, i as nat).0, rules[i])
}

/// Every path that a rule names as a source is safe to read.
pub open spec fn rule_sources_safe(rule: MappingRuleV) -> bool {
    path_safe(rule.source_path) && forall|i: int|
        0 <= i < rule.source_paths.len() ==> path_safe(#[trigger] rule.source_paths[i])
}

/// A rule whose named sources are all safe reads only safe paths.
pub proof fn lemma_sources_safe(src: JsonV, rule: MappingRuleV)
    requires
        rule_sources_safe(rule),
    ensures
        rule_safe(src, rule),
{
    let r = rule_reads(rule);
    assert forall|i: int| 0 <= i < r.len() implies reach_safe(src, #[trigger] r[i]) by {
        if rule.source_paths.len() > 0 && rule.target_paths.len() > 0 {
            assert(r[i] == rule.source_paths[i]);
        }
        lemma_path_safe_reach(src, r[i]);
    }
}

/// The views of a sequence of rules.
pub open spec fn rules_view(s: Seq<MappingRule>) -> Seq<MappingRuleV> {
    Seq::new(s.len(), |i: int| s[i]@)
}


/// Moves values between JSON documents along dotted paths.
pub struct Mapper;

/// Is every piece of the path safe to read?
pub fn is_path_safe(path: &str) -> (r: bool)
    ensures
        r == path_safe(path@),
{
    let parts = split_char(path, '.');
    let ghost pv = strs_view(parts@);
    let mut i: usize = 0;
    while i < parts.len()
        invariant
            pv == strs_view(parts@),
            pv == split_on(path@, '.'),
            i <= parts.len(),
            forall|j: int| 0 <= j < i ==> part_safe(#[trigger] pv[j]),
        decreases parts.len() - i,
    {
        let part: &str = parts[i].as_str();
        assert(part@ == pv[i as int]);
        match find_char_index(part, '[') {
            Some(bp) => {
                let cs = chars_of(part);
                proof {
                    lemma_find_char(part@, '[');
                }
                let n = cs.len();
                if !(bp + 1 < n) {
                    assert(!part_safe(pv[i as int]));
                    return false;
                }
                if !(cs[n - 1] < '\u{80}') {
                    assert(part@.last() == cs@[n - 1]);
                    assert(!part_safe(pv[i as int]));
                    return false;
                }
                assert(part@.last() == cs@[n - 1]);
            },
            None => {},
        }
        i = i + 1;
    }
    true
}

/// Is the piece safe to take apart?
fn part_is_safe(part: &str) -> (r: bool)
    ensures
        r == part_safe(part@),
{
    match find_char_index(part, '[') {
        Some(bp) => {
            let cs = chars_of(part);
            proof {
                lemma_find_char(part@, '[');
            }
            let n = cs.len();
            if !(bp + 1 < n) {
                return false;
            }
            assert(part@.last() == cs@[n - 1]);
            cs[n - 1] < '\u{80}'
        },
        None => true,
    }
}

/// One step of reading: the value that a safe piece selects.
fn get_step_exec(current: &Json, part: &str, path: &str) -> (r: Result<Json, MappingError>)
    requires
        part_safe(part@),
    ensures
        value_res(r) == get_step(current@, part@, path@),
{
    match find_char_index(part, '[') {
        Some(bp) => {
            let cs = chars_of(part);
            proof {
                lemma_find_char(part@, '[');
            }
            let key = substring(&cs, 0, bp);
            let index_text = substring(&cs, bp + 1, cs.len() - 1);
            proof {
                assert(key@ =~= part@.take(bp as int));
            }
            match parse_index(index_text.as_str()) {
                None => Err(
                    MappingError::InvalidPath(concat("Invalid array index: ", index_text.as_str())),
                ),
                Some(n) => match current.get(key.as_str()) {
                    None => Err(MappingError::ValueNotFound(concat("Key not found: ", key.as_str()))),
                    Some(arr) => match arr.get_index(n) {
                        None => {
                            let t = usize_text(n);
                            Err(
                                MappingError::ValueNotFound(
                                    concat3("Index ", t.as_str(), " not found in array"),
                                ),
                            )
                        },
                        Some(x) => Ok(x.copy()),
                    },
                },
            }
        },
        None => match current.get(part) {
            None => Err(MappingError::ValueNotFound(concat("Path not found: ", path))),
            Some(x) => Ok(x.copy()),
        },
    }
}

/// Reads along the pieces from `i` on, starting at `current`.
fn get_from(current: &Json, parts: &Vec<String>, i: usize, path: &str) -> (r: Result<
    Json,
    MappingError,
>)
    requires
        i <= parts@.len(),
        reach_safe_parts(current@, strs_view(parts@).skip(i as int), path@),
    ensures
        value_res(r) == get_parts(current@, strs_view(parts@).skip(i as int), path@),
    decreases parts@.len() - i,
{
    let ghost pv = strs_view(parts@);
    if i == parts.len() {
        assert(pv.skip(i as int).len() == 0);
        return Ok(current.copy());
    }
    let part: &str = parts[i].as_str();
    proof {
        assert(pv.skip(i as int)[0] == pv[i as int]);
        assert(part@ == pv[i as int]);
        assert(pv.skip(i as int).drop_first() =~= pv.skip(i + 1));
        assert(part_safe(pv[i as int]));
    }
    match find_char_index(part, '[') {
        Some(bp) => {
            let cs = chars_of(part);
            proof {
                lemma_find_char(part@, '[');
            }
            let key = substring(&cs, 0, bp);
            let index_text = substring(&cs, bp + 1, cs.len() - 1);
            proof {
                assert(key@ =~= part@.take(bp as int));
            }
            match parse_index(index_text.as_str()) {
                None => Err(
                    MappingError::InvalidPath(concat("Invalid array index: ", index_text.as_str())),
                ),
                Some(n) => match current.get(key.as_str()) {
                    None => Err(MappingError::ValueNotFound(concat("Key not found: ", key.as_str()))),
                    Some(arr) => match arr.get_index(n) {
                        None => {
                            let t = usize_text(n);
                            Err(
                                MappingError::ValueNotFound(
                                    concat3("Index ", t.as_str(), " not found in array"),
                                ),
                            )
                        },
                        Some(x) => get_from(x, parts, i + 1, path),
                    },
                },
            }
        },
        None => match current.get(part) {
            None => Err(MappingError::ValueNotFound(concat("Path not found: ", path))),
            Some(x) => get_from(x, parts, i + 1, path),
        },
    }
}

/// Writes along the pieces from `i` on, into `cur`; gives back the document.
fn set_from(cur: Json, parts: &Vec<String>, i: usize, path: &str, new_value: Json) -> (res: (
    Json,
    Result<(), MappingError>,
))
    requires
        i < parts@.len(),
    ensures
        (res.0@, unit_res(res.1)) == set_parts(
            cur@,
            strs_view(parts@).skip(i as int),
            path@,
            new_value@,
        ),
    decreases parts@.len() - i,
{
    let ghost pv = strs_view(parts@);
    let ghost s = pv.skip(i as int);
    let part: &str = parts[i].as_str();
    proof {
        assert(s[0] == pv[i as int]);
        assert(part@ == pv[i as int]);
        assert(s.drop_first() =~= pv.skip(i + 1));
    }
    if i == parts.len() - 1 {
        match cur {
            Json::Object(mut m) => {
                m.insert(part.to_owned(), new_value);
                (Json::Object(m), Ok(()))
            },
            other => (
                other,
                Err(MappingError::TypeMismatch("Target path does not point to an object".to_owned())),
            ),
        }
    } else {
        let mut cur = cur;
        if cur.get(part).is_none() {
            cur.insert_key(part.to_owned(), Json::empty_object());
        }
        match cur {
            Json::Object(mut m) => match m.find(part) {
                Some(j) => {
                    let ghost m0 = m@;
                    let child = m.take_at(j);
                    let (c2, r) = set_from(child, parts, i + 1, path, new_value);
                    m.put_at(j, c2);
                    proof {
                        lemma_obj_replace_at(m0, part@, c2@, j as int);
                        assert(m@ =~= m0.update(j as int, (part@, c2@)));
                    }
                    (Json::Object(m), r)
                },
                None => (Json::Object(m), Err(MappingError::InvalidPath(concat("Path not found: ", path)))),
            },
            other => (other, Err(MappingError::InvalidPath(concat("Path not found: ", path)))),
        }
    }
}

impl Mapper {
    /// Gets the value at a dotted path (e.g. `user.name` or `items[0].title`).
    pub fn get_value_at_path(value: &Json, path: &str) -> (r: Result<Json, MappingError>)
        requires
            reach_safe(value@, path@),
        ensures
            value_res(r) == get_path(value@, path@),
    {
        let parts = split_char(path, '.');
        proof {
            assert(strs_view(parts@).skip(0) =~= strs_view(parts@));
        }
        get_from(value, &parts, 0, path)
    }

    /// Does reading the path in the value take apart only safe pieces (every
    /// piece it reaches is safe)?
    pub fn path_reach_safe(value: &Json, path: &str) -> (r: bool)
        ensures
            r == reach_safe(value@, path@),
    {
        let parts = split_char(path, '.');
        let ghost pv = strs_view(parts@);
        let mut cur = value.copy();
        let n = parts.len();
        let mut i: usize = 0;
        assert(pv.skip(0) =~= pv);
        while i < n
            invariant
                n == parts@.len(),
                pv == strs_view(parts@),
                pv == split_on(path@, '.'),
                i <= n,
                reach_safe(value@, path@) == reach_safe_parts(cur@, pv.skip(i as int), path@),
            decreases n - i,
        {
            let part: &str = parts[i].as_str();
            proof {
                assert(part@ == pv[i as int]);
                assert(pv.skip(i as int)[0] == pv[i as int]);
                assert(pv.skip(i as int).drop_first() =~= pv.skip(i + 1));
            }
            if !part_is_safe(part) {
                return false;
            }
            match get_step_exec(&cur, part, path) {
                Err(_) => {
                    return true;
                },
                Ok(x) => {
                    cur = x;
                },
            }
            i = i + 1;
        }
        assert(pv.skip(n as int).len() == 0);
        true
    }

    /// Sets a value at a dotted path, creating missing objects on the way.
    pub fn set_value_at_path(value: &mut Json, path: &str, new_value: Json) -> (r: Result<
        (),
        MappingError,
    >)
        ensures
            (final(value)@, unit_res(r)) == set_path(old(value)@, path@, new_value@),
    {
        let parts = split_char(path, '.');
        proof {
            lemma_split_nonempty(path@, '.');
            assert(strs_view(parts@).skip(0) =~= strs_view(parts@));
        }
        let mut cur = Json::Null;
        std::mem::swap(value, &mut cur);
        let (v, r) = set_from(cur, &parts, 0, path, new_value);
        *value = v;
        r
    }
}

/// No piece of the path asks for an array element.
pub open spec fn path_plain(path: Seq<char>) -> bool {
    forall|i: int|
        0 <= i < split_on(path, '.').len() ==> find_char(#[trigger] split_on(path, '.')[i], '[')
            is None
}

proof fn lemma_get_after_set_parts(cur: JsonV, parts: Seq<Seq<char>>, path: Seq<char>, new: JsonV)
    requires
        parts.len() >= 1,
        forall|i: int| 0 <= i < parts.len() ==> find_char(#[trigger] parts[i], '[') is None,
        set_parts(cur, parts, path, new).1 is Ok,
    ensures
        get_parts(set_parts(cur, parts, path, new).0, parts, path) == Ok::<JsonV, MapErr>(new),
    decreases parts.len(),
{
    let out = set_parts(cur, parts, path, new).0;
    let part = parts[0];
    assert(find_char(parts[0], '[') is None);
    if parts.len() == 1 {
        let s = cur->Obj_0;
        lemma_obj_insert_get(s, part, new, part);
        assert(out == JsonV::Obj(obj_insert(s, part, new)));
        assert(get_step(out, part, path) == Ok::<JsonV, MapErr>(new));
        assert(parts.drop_first().len() == 0);
        assert(get_parts(new, parts.drop_first(), path) == Ok::<JsonV, MapErr>(new));
    } else {
        let cur1 = if jget(cur, part) is None {
            match cur {
                JsonV::Obj(s) => JsonV::Obj(obj_insert(s, part, empty_obj())),
                _ => cur,
            }
        } else {
            cur
        };
        if jget(cur, part) is None {
            match cur {
                JsonV::Obj(s) => {
                    lemma_obj_insert_get(s, part, empty_obj(), part);
                },
                _ => {},
            }
        }
        let child = jget(cur1, part)->0;
        let rest = parts.drop_first();
        let (c2, r) = set_parts(child, rest, path, new);
        lemma_obj_replace_get(cur1->Obj_0, part, c2, part);
        assert forall|i: int| 0 <= i < rest.len() implies find_char(#[trigger] rest[i], '[') is None by {
            assert(rest[i] == parts[i + 1]);
        }
        lemma_get_after_set_parts(child, rest, path, new);
        assert(out == JsonV::Obj(obj_replace(cur1->Obj_0, part, c2)));
        assert(get_step(out, part, path) == Ok::<JsonV, MapErr>(c2));
    }
}

/// Reading a path right after writing a value there gives that value back,
/// when the write succeeded and no piece of the path indexes an array.
pub proof fn lemma_read_after_write(v: JsonV, path: Seq<char>, new: JsonV)
    requires
        path_plain(path),
        set_path(v, path, new).1 is Ok,
    ensures
        get_path(set_path(v, path, new).0, path) == Ok::<JsonV, MapErr>(new),
{
    lemma_split_nonempty(path, '.');
    lemma_get_after_set_parts(v, split_on(path, '.'), path, new);
}

/// The strategy behind an optional reference.
pub open spec fn opt_copy<T>(o: Option<&T>) -> Option<T> {
    match o {
        Some(x) => Some(*x),
        None => None,
    }
}

/// A comparison of a value with a threshold text.
fn numeric_check(value: &Json, threshold: &str, greater: bool) -> (r: Result<bool, MappingError>)
    ensures
        bool_res(r) == numeric_condition(value@, threshold@, greater),
{
    match value {
        Json::Number(n) => match order_with_text(n, threshold) {
            Some(o) => Ok(
                if greater {
                    o == NumOrder::Greater
                } else {
                    o == NumOrder::Less
                },
            ),
            None => Err(MappingError::TransformError("Invalid numeric condition".to_owned())),
        },
        _ => Err(MappingError::TransformError("Invalid numeric condition".to_owned())),
    }
}

impl Mapper {
    /// Evaluates a simple condition (e.g. `> 1000`, `== 'VIP'`).
    pub fn evaluate_condition(value: &Json, condition: &str) -> (r: Result<bool, MappingError>)
        ensures
            bool_res(r) == condition_holds(value@, condition@),
    {
        proof {
            reveal_strlit("> ");
            reveal_strlit("< ");
            reveal_strlit("== ");
        }
        if has_prefix(condition, "> ") {
            let rest = drop_chars(condition, 2);
            let t = trim(rest.as_str());
            numeric_check(value, t.as_str(), true)
        } else if has_prefix(condition, "< ") {
            let rest = drop_chars(condition, 2);
            let t = trim(rest.as_str());
            numeric_check(value, t.as_str(), false)
        } else if has_prefix(condition, "== ") {
            let rest = drop_chars(condition, 3);
            let t = trim(rest.as_str());
            let t2 = trim_matches_char(t.as_str(), '"');
            let expected_text = trim_matches_char(t2.as_str(), '\'');
            let expected = expected_text.as_str();
            match value.as_str() {
                Some(s) => Ok(string_eq_str(s, expected)),
                None => Ok(false),
            }
        } else {
            Err(MappingError::TransformError(concat("Unsupported condition: ", condition)))
        }
    }

    /// Applies a transform to a value.
    pub fn apply_transform(value: Json, transform: &TransformType) -> (r: Result<
        Json,
        MappingError,
    >)
        ensures
            value_res(r) == transform_value(value@, transform@),
    {
        match transform {
            TransformType::StringConcat { separator } => match value.as_array() {
                Some(arr) => {
                    let mut pieces: Vec<String> = Vec::new();
                    let n = arr.len();
                    let mut i: usize = 0;
                    while i < n
                        invariant
                            n == arr@.len(),
                            i <= n,
                            pieces@.len() == i,
                            forall|j: int|
                                0 <= j < i ==> #[trigger] pieces@[j]@ == concat_piece(arr@[j]@),
                        decreases n - i,
                    {
                        let piece = match arr[i].as_str() {
                            Some(s) => s.to_owned(),
                            None => String::new(),
                        };
                        pieces.push(piece);
                        i = i + 1;
                    }
                    let joined = join_strings(pieces.as_slice(), separator.as_str());
                    proof {
                        assert(strs_view(pieces@) =~= value@->Arr_0.map_values(
                            |x: JsonV| concat_piece(x),
                        ));
                    }
                    Ok(Json::String(joined))
                },
                None => Err(
                    MappingError::TypeMismatch("StringConcat requires an array of strings".to_owned()),
                ),
            },
            TransformType::NumberAdd => match value {
                Json::Number(n) => Ok(Json::Number(n)),
                _ => Err(MappingError::TypeMismatch("NumberAdd requires a number".to_owned())),
            },
            TransformType::NumberMultiply => match value {
                Json::Number(n) => Ok(Json::Number(n)),
                _ => Err(MappingError::TypeMismatch("NumberMultiply requires a number".to_owned())),
            },
            TransformType::StringToUpper => match value {
                Json::String(s) => Ok(Json::String(to_upper(s.as_str()))),
                _ => Err(MappingError::TypeMismatch("StringToUpper requires a string".to_owned())),
            },
            TransformType::StringToLower => match value {
                Json::String(s) => Ok(Json::String(to_lower(s.as_str()))),
                _ => Err(MappingError::TypeMismatch("StringToLower requires a string".to_owned())),
            },
            TransformType::Conditional { condition, true_value, false_value } => {
                let met = Mapper::evaluate_condition(&value, condition.as_str());
                match met {
                    Ok(b) => Ok(
                        if b {
                            true_value.copy()
                        } else {
                            false_value.copy()
                        },
                    ),
                    Err(e) => Err(e),
                }
            },
        }
    }
}

/// Are two string slices equal?
fn string_eq_str(a: &str, b: &str) -> (r: bool)
    ensures
        r == (a@ == b@),
{
    crate::json::string_eq(a, b)
}

/// Every path in the list is safe to read in the source.
pub open spec fn paths_safe(src: JsonV, paths: Seq<Seq<char>>) -> bool {
    forall|i: int| 0 <= i < paths.len() ==> reach_safe(src, #[trigger] paths[i])
}

/// Inserts every entry of `src` into `m`, in order.
fn insert_entries(m: &mut JsonMap, src: &JsonMap)
    ensures
        final(m)@ == insert_all(old(m)@, src@),
{
    let ghost acc0 = m@;
    let n = src.len();
    let mut j: usize = 0;
    assert(src@.take(0) =~= Seq::<(Seq<char>, JsonV)>::empty());
    while j < n
        invariant
            n == src@.len(),
            j <= n,
            m@ == insert_all(acc0, src@.take(j as int)),
        decreases n - j,
    {
        let k = src.key_at(j).clone();
        let v = src.value_at(j).copy();
        m.insert(k, v);
        proof {
            assert(src@.take(j + 1).drop_last() =~= src@.take(j as int));
            assert(src@.take(j + 1).last() == src@[j as int]);
        }
        j = j + 1;
    }
    assert(src@.take(n as int) =~= src@);
}

impl Mapper {
    /// Merges the values found at several source paths into one value.
    pub fn merge_sources(source: &Json, source_paths: &[String], strategy: Option<&MergeStrategy>) -> (r:
        Result<Json, MappingError>)
        requires
            paths_safe(source@, strs_view(source_paths@)),
        ensures
            value_res(r) == merge_values(source@, strs_view(source_paths@), opt_copy(strategy)),
    {
        let ghost pv = strs_view(source_paths@);
        let mut values: Vec<Json> = Vec::new();
        let n = source_paths.len();
        let mut i: usize = 0;
        assert(pv.take(0) =~= Seq::<Seq<char>>::empty());
        assert(jsons_view(values@) =~= Seq::<JsonV>::empty());
        while i < n
            invariant
                n == source_paths@.len(),
                pv == strs_view(source_paths@),
                paths_safe(source@, pv),
                i <= n,
                jsons_view(values@) == found_values(source@, pv.take(i as int)),
            decreases n - i,
        {
            assert(reach_safe(source@, pv[i as int]));
            let got = Mapper::get_value_at_path(source, source_paths[i].as_str());
            let ghost before = values@;
            match got {
                Ok(v) => {
                    values.push(v);
                },
                Err(_) => {},
            }
            proof {
                assert(pv.take(i + 1).drop_last() =~= pv.take(i as int));
                assert(pv.take(i + 1).last() == pv[i as int]);
                assert(jsons_view(values@) =~= found_values(source@, pv.take(i + 1)));
            }
            i = i + 1;
        }
        assert(pv.take(n as int) =~= pv);
        let ghost vals = jsons_view(values@);
        if values.len() == 0 {
            return Err(
                MappingError::ValueNotFound("No values found at source paths".to_owned()),
            );
        }
        match strategy {
            Some(MergeStrategy::Concat) => {
                let mut pieces: Vec<String> = Vec::new();
                let m = values.len();
                let mut j: usize = 0;
                while j < m
                    invariant
                        m == values@.len(),
                        j <= m,
                        pieces@.len() == j,
                        forall|k: int| 0 <= k < j ==> #[trigger] pieces@[k]@ == render_piece(values@[k]@),
                    decreases m - j,
                {
                    let piece = match values[j].as_str() {
                        Some(s) => s.to_owned(),
                        None => to_json_text(&values[j]),
                    };
                    pieces.push(piece);
                    j = j + 1;
                }
                let joined = join_strings(pieces.as_slice(), " ");
                proof {
                    assert(strs_view(pieces@) =~= vals.map_values(|x: JsonV| render_piece(x)));
                }
                Ok(Json::String(joined))
            },
            Some(MergeStrategy::MergeObject) => {
                let mut merged = JsonMap::new();
                let m = values.len();
                let mut j: usize = 0;
                assert(vals.take(0) =~= Seq::<JsonV>::empty());
                while j < m
                    invariant
                        m == values@.len(),
                        vals == jsons_view(values@),
                        j <= m,
                        merged@ == merge_objects(vals.take(j as int)),
                    decreases m - j,
                {
                    proof {
                        assert(vals.take(j + 1).drop_last() =~= vals.take(j as int));
                        assert(vals.take(j + 1).last() == values@[j as int]@);
                    }
                    match values[j].as_object() {
                        Some(obj) => {
                            insert_entries(&mut merged, obj);
                        },
                        None => {},
                    }
                    j = j + 1;
                }
                assert(vals.take(m as int) =~= vals);
                Ok(Json::Object(merged))
            },
            Some(MergeStrategy::Array) => {
                let r = Json::from_vec(values);
                assert(r@->Arr_0 =~= vals);
                Ok(r)
            },
            Some(MergeStrategy::First) => Ok(values[0].copy()),
            Some(MergeStrategy::Last) => Ok(values[values.len() - 1].copy()),
            None => {
                let mut merged = JsonMap::new();
                let m = values.len();
                let mut j: usize = 0;
                assert(vals.take(0) =~= Seq::<JsonV>::empty());
                while j < m
                    invariant
                        m == values@.len(),
                        vals == jsons_view(values@),
                        j <= m,
                        merged@ == indexed_fields(vals.take(j as int)),
                    decreases m - j,
                {
                    let t = usize_text(j);
                    let key = concat("field_", t.as_str());
                    merged.insert(key, values[j].copy());
                    proof {
                        assert(vals.take(j + 1).drop_last() =~= vals.take(j as int));
                        assert(vals.take(j + 1).last() == values@[j as int]@);
                    }
                    j = j + 1;
                }
                assert(vals.take(m as int) =~= vals);
                Ok(Json::Object(merged))
            },
        }
    }
}

/// Once writing fails, later paths change nothing.
proof fn lemma_set_all_stuck(t: JsonV, paths: Seq<Seq<char>>, v: JsonV, k: int)
    requires
        0 <= k <= paths.len(),
        set_all(t, paths.take(k), v).1 is Err,
    ensures
        set_all(t, paths, v) == set_all(t, paths.take(k), v),
    decreases paths.len(),
{
    if k == paths.len() {
        assert(paths.take(k) =~= paths);
    } else {
        assert(paths.drop_last().take(k) =~= paths.take(k));
        lemma_set_all_stuck(t, paths.drop_last(), v, k);
    }
}

/// Once writing fails, later paths change nothing.
proof fn lemma_set_extract_stuck(
    t: JsonV,
    paths: Seq<Seq<char>>,
    s: Seq<(Seq<char>, JsonV)>,
    k: int,
)
    requires
        0 <= k <= paths.len(),
        set_extract(t, paths.take(k), s).1 is Err,
    ensures
        set_extract(t, paths, s) == set_extract(t, paths.take(k), s),
    decreases paths.len(),
{
    if k == paths.len() {
        assert(paths.take(k) =~= paths);
    } else {
        assert(paths.drop_last().take(k) =~= paths.take(k));
        lemma_set_extract_stuck(t, paths.drop_last(), s, k);
    }
}

/// Writes one value at every path in order.
fn write_all(target: &mut Json, target_paths: &[String], value: &Json) -> (r: Result<
    (),
    MappingError,
>)
    ensures
        (final(target)@, unit_res(r)) == set_all(
            old(target)@,
            strs_view(target_paths@),
            value@,
        ),
{
    let ghost t0 = target@;
    let ghost pv = strs_view(target_paths@);
    let n = target_paths.len();
    let mut i: usize = 0;
    assert(pv.take(0) =~= Seq::<Seq<char>>::empty());
    while i < n
        invariant
            n == target_paths@.len(),
            pv == strs_view(target_paths@),
            i <= n,
            t0 == old(target)@,
            (target@, Ok::<(), MapErr>(())) == set_all(t0, pv.take(i as int), value@),
        decreases n - i,
    {
        proof {
            assert(pv.take(i + 1).drop_last() =~= pv.take(i as int));
            assert(pv.take(i + 1).last() == pv[i as int]);
        }
        let r = Mapper::set_value_at_path(target, target_paths[i].as_str(), value.copy());
        match r {
            Err(e) => {
                proof {
                    assert(set_all(t0, pv.take(i + 1), value@) == (target@, Err::<(), MapErr>(e@)));
                    lemma_set_all_stuck(t0, pv, value@, i + 1);
                }
                return Err(e);
            },
            Ok(_) => {},
        }
        i = i + 1;
    }
    assert(pv.take(n as int) =~= pv);
    Ok(())
}

/// Writes the `i`-th entry's value of an object at the `i`-th path.
fn write_extract(target: &mut Json, target_paths: &[String], obj: &JsonMap) -> (r: Result<
    (),
    MappingError,
>)
    ensures
        (final(target)@, unit_res(r)) == set_extract(
            old(target)@,
            strs_view(target_paths@),
            obj@,
        ),
{
    let ghost t0 = target@;
    let ghost pv = strs_view(target_paths@);
    let n = target_paths.len();
    let mut i: usize = 0;
    assert(pv.take(0) =~= Seq::<Seq<char>>::empty());
    while i < n
        invariant
            n == target_paths@.len(),
            pv == strs_view(target_paths@),
            i <= n,
            t0 == old(target)@,
            (target@, Ok::<(), MapErr>(())) == set_extract(t0, pv.take(i as int), obj@),
        decreases n - i,
    {
        proof {
            assert(pv.take(i + 1).drop_last() =~= pv.take(i as int));
            assert(pv.take(i + 1).last() == pv[i as int]);
            assert(pv.take(i + 1).len() - 1 == i);
        }
        if i < obj.len() {
            let key = obj.key_at(i);
            match obj.get(key.as_str()) {
                Some(v) => {
                    let r = Mapper::set_value_at_path(target, target_paths[i].as_str(), v.copy());
                    match r {
                        Err(e) => {
                            proof {
                                assert(set_extract(t0, pv.take(i + 1), obj@) == (
                                    target@,
                                    Err::<(), MapErr>(e@),
                                ));
                                lemma_set_extract_stuck(t0, pv, obj@, i + 1);
                            }
                            return Err(e);
                        },
                        Ok(_) => {},
                    }
                },
                None => {},
            }
        }
        i = i + 1;
    }
    assert(pv.take(n as int) =~= pv);
    Ok(())
}

impl Mapper {
    /// Writes one source value to several target paths.
    pub fn split_to_targets(
        target: &mut Json,
        target_paths: &[String],
        source_value: Json,
        strategy: Option<&SplitStrategy>,
    ) -> (r: Result<(), MappingError>)
        ensures
            (final(target)@, unit_res(r)) == split_value(
                old(target)@,
                strs_view(target_paths@),
                source_value@,
                opt_copy(strategy),
            ),
    {
        match strategy {
            Some(SplitStrategy::Extract) => match source_value.as_object() {
                Some(obj) => write_extract(target, target_paths, obj),
                None => write_all(target, target_paths, &source_value),
            },
            _ => write_all(target, target_paths, &source_value),
        }
    }
}

/// Once a pair fails, later pairs change nothing.
proof fn lemma_map_pairs_stuck(
    src: JsonV,
    tgt: JsonV,
    sps: Seq<Seq<char>>,
    tps: Seq<Seq<char>>,
    t: Option<TransformV>,
    k: nat,
    m: nat,
)
    requires
        k <= m,
        map_pairs(src, tgt, sps, tps, t, k).1 is Err,
    ensures
        map_pairs(src, tgt, sps, tps, t, m) == map_pairs(src, tgt, sps, tps, t, k),
    decreases m,
{
    if k < m {
        lemma_map_pairs_stuck(src, tgt, sps, tps, t, k, (m - 1) as nat);
    }
}

/// Once a rule fails, later rules change nothing.
proof fn lemma_apply_rules_stuck(src: JsonV, rules: Seq<MappingRuleV>, k: nat, m: nat)
    requires
        k <= m,
        apply_rules(src, rules, k).1 is Err,
    ensures
        apply_rules(src, rules, m) == apply_rules(src, rules, k),
    decreases m,
{
    if k < m {
        lemma_apply_rules_stuck(src, rules, k, (m - 1) as nat);
    }
}

/// Reads one path, applies the rule's transform, writes one path.
fn map_one(source: &Json, target: &mut Json, sp: &str, tp: &str, rule: &MappingRule) -> (r: Result<
    (),
    MappingError,
>)
    requires
        reach_safe(source@, sp@),
    ensures
        (final(target)@, unit_res(r)) == map_single(source@, old(target)@, sp@, tp@, rule@.transform),
{
    let v = match Mapper::get_value_at_path(source, sp) {
        Ok(v) => v,
        Err(e) => return Err(e),
    };
    let w = match &rule.transform {
        Some(t) => match Mapper::apply_transform(v, t) {
            Ok(w) => w,
            Err(e) => return Err(e),
        },
        None => v,
    };
    Mapper::set_value_at_path(target, tp, w)
}

/// Maps the first `k` source paths one to one onto the first `k` target paths.
fn map_zip(source: &Json, target: &mut Json, rule: &MappingRule, k: usize) -> (r: Result<
    (),
    MappingError,
>)
    requires
        k <= rule.source_paths@.len(),
        k <= rule.target_paths@.len(),
        pairs_reads_safe(
            source@,
            old(target)@,
            rule@.source_paths,
            rule@.target_paths,
            rule@.transform,
            k as nat,
        ),
    ensures
        (final(target)@, unit_res(r)) == map_pairs(
            source@,
            old(target)@,
            rule@.source_paths,
            rule@.target_paths,
            rule@.transform,
            k as nat,
        ),
{
    let ghost t0 = target@;
    let ghost rv = rule@;
    let mut i: usize = 0;
    while i < k
        invariant
            k <= rule.source_paths@.len(),
            k <= rule.target_paths@.len(),
            pairs_reads_safe(source@, t0, rv.source_paths, rv.target_paths, rv.transform, k as nat),
            rv == rule@,
            t0 == old(target)@,
            i <= k,
            (target@, Ok::<(), MapErr>(())) == map_pairs(
                source@,
                t0,
                rv.source_paths,
                rv.target_paths,
                rv.transform,
                i as nat,
            ),
        decreases k - i,
    {
        proof {
            let ii: int = i as int;
            assert(map_pairs(source@, t0, rv.source_paths, rv.target_paths, rv.transform, ii as nat).1 is Ok);
            assert(reach_safe(source@, rv.source_paths[ii]));
        }
        let r = map_one(
            source,
            target,
            rule.source_paths[i].as_str(),
            rule.target_paths[i].as_str(),
            rule,
        );
        match r {
            Err(e) => {
                proof {
                    assert(map_pairs(
                        source@,
                        t0,
                        rv.source_paths,
                        rv.target_paths,
                        rv.transform,
                        (i + 1) as nat,
                    ) == (target@, Err::<(), MapErr>(e@)));
                    lemma_map_pairs_stuck(
                        source@,
                        t0,
                        rv.source_paths,
                        rv.target_paths,
                        rv.transform,
                        (i + 1) as nat,
                        k as nat,
                    );
                }
                return Err(e);
            },
            Ok(_) => {},
        }
        i = i + 1;
    }
    Ok(())
}

/// Do the first `k` paths read only safe pieces of the source?
fn paths_reach_safe(src: &Json, paths: &Vec<String>, k: usize) -> (r: bool)
    requires
        k <= paths@.len(),
    ensures
        r == forall|i: int| 0 <= i < k ==> reach_safe(src@, #[trigger] paths@[i]@),
{
    let mut i: usize = 0;
    while i < k
        invariant
            k <= paths@.len(),
            i <= k,
            forall|j: int| 0 <= j < i ==> reach_safe(src@, #[trigger] paths@[j]@),
        decreases k - i,
    {
        if !Mapper::path_reach_safe(src, paths[i].as_str()) {
            return false;
        }
        i = i + 1;
    }
    true
}

/// Does mapping the first `k` pairs one to one read only safe pieces of the
/// source (pairs up to the first that fails)?
fn pairs_reach_check(source: &Json, target: &Json, rule: &MappingRule, k: usize) -> (r: bool)
    requires
        k <= rule.source_paths@.len(),
        k <= rule.target_paths@.len(),
    ensures
        r == pairs_reads_safe(
            source@,
            target@,
            rule@.source_paths,
            rule@.target_paths,
            rule@.transform,
            k as nat,
        ),
{
    let ghost t0 = target@;
    let ghost rv = rule@;
    let mut scratch = target.copy();
    let mut i: usize = 0;
    while i < k
        invariant
            k <= rule.source_paths@.len(),
            k <= rule.target_paths@.len(),
            rv == rule@,
            t0 == target@,
            i <= k,
            (scratch@, Ok::<(), MapErr>(())) == map_pairs(
                source@,
                t0,
                rv.source_paths,
                rv.target_paths,
                rv.transform,
                i as nat,
            ),
            pairs_reads_safe(source@, t0, rv.source_paths, rv.target_paths, rv.transform, i as nat),
        decreases k - i,
    {
        let ghost ii: int = i as int;
        assert(rv.source_paths[ii] == rule.source_paths@[ii]@);
        if !Mapper::path_reach_safe(source, rule.source_paths[i].as_str()) {
            assert(map_pairs(source@, t0, rv.source_paths, rv.target_paths, rv.transform, ii as nat).1 is Ok);
            return false;
        }
        let r = map_one(
            source,
            &mut scratch,
            rule.source_paths[i].as_str(),
            rule.target_paths[i].as_str(),
            rule,
        );
        match r {
            Err(e) => {
                proof {
                    assert(map_pairs(
                        source@,
                        t0,
                        rv.source_paths,
                        rv.target_paths,
                        rv.transform,
                        (i + 1) as nat,
                    ).1 is Err);
                    assert forall|j: int| 0 <= j < k implies (#[trigger] map_pairs(
                        source@,
                        t0,
                        rv.source_paths,
                        rv.target_paths,
                        rv.transform,
                        j as nat,
                    )).1 is Ok ==> reach_safe(source@, rv.source_paths[j]) by {
                        if j > i {
                            lemma_map_pairs_stuck(
                                source@,
                                t0,
                                rv.source_paths,
                                rv.target_paths,
                                rv.transform,
                                (i + 1) as nat,
                                j as nat,
                            );
                        }
                    }
                }
                return true;
            },
            Ok(_) => {},
        }
        i = i + 1;
    }
    true
}

/// Does applying the rule to the target read only safe pieces of the source?
fn rule_reach_check(source: &Json, target: &Json, rule: &MappingRule) -> (r: bool)
    ensures
        r == rule_reads_safe(source@, target@, rule@),
{
    let ghost rv = rule@;
    let ns = rule.source_paths.len();
    let nt = rule.target_paths.len();
    if ns > 0 && nt > 0 {
        let backward = match rule.direction {
            MappingDirection::Backward => true,
            _ => false,
        };
        if backward {
            assert(rule_reads(rv).len() == 0);
            return true;
        }
        if (ns == 1 && nt == 1) || (ns > 1 && nt == 1) || (ns == 1 && nt > 1) {
            assert(rv.source_paths.take(ns as int) =~= rv.source_paths);
            assert(rule_reads(rv) == rv.source_paths);
            assert(!pairs_form(rv));
            let r = paths_reach_safe(source, &rule.source_paths, ns);
            assert forall|i: int| 0 <= i < ns implies #[trigger] rule_reads(rv)[i] == rule.source_paths@[i]@ by {
                assert(rv.source_paths[i] == rule.source_paths@[i]@);
            }
            assert(r == rule_safe(source@, rv)) by {
                if r {
                    assert forall|i: int| 0 <= i < rule_reads(rv).len() implies reach_safe(
                        source@,
                        #[trigger] rule_reads(rv)[i],
                    ) by {
                        assert(reach_safe(source@, rule.source_paths@[i]@));
                    }
                } else {
                    let w = choose|i: int| 0 <= i < ns && !reach_safe(source@, #[trigger] rule.source_paths@[i]@);
                    assert(rule_reads(rv)[w] == rule.source_paths@[w]@);
                }
            }
            return r;
        }
        assert(pairs_form(rv));
        let k = if ns < nt { ns } else { nt };
        assert(pair_count(rv) == k);
        pairs_reach_check(source, target, rule, k)
    } else if ns > 0 {
        if rule.target_path.as_str().is_empty() {
            assert(rule_reads(rv).len() == 0);
            true
        } else {
            assert(rule_reads(rv) =~= seq![rv.source_path]);
            let r = Mapper::path_reach_safe(source, rule.source_path.as_str());
            assert(rule_reads(rv)[0] == rv.source_path);
            r
        }
    } else if rule.source_path.as_str().is_empty() {
        assert(rule_reads(rv).len() == 0);
        true
    } else {
        assert(rule_reads(rv) =~= seq![rv.source_path]);
        let r = Mapper::path_reach_safe(source, rule.source_path.as_str());
        assert(rule_reads(rv)[0] == rv.source_path);
        r
    }
}

/// Forward mapping of a multi-path rule.
fn map_field_forward(source: &Json, target: &mut Json, rule: &MappingRule) -> (r: Result<
    (),
    MappingError,
>)
    requires
        rule.source_paths@.len() > 0,
        rule.target_paths@.len() > 0,
        rule@.direction != MappingDirection::Backward,
        rule_reads_safe(source@, old(target)@, rule@),
    ensures
        (final(target)@, unit_res(r)) == map_forward(source@, old(target)@, rule@),
{
    let ghost rv = rule@;
    let ns = rule.source_paths.len();
    let nt = rule.target_paths.len();
    let ghost reads = rule_reads(rv);
    if ns == 1 && nt == 1 {
        assert(reads[0] == rv.source_paths[0]);
        map_one(source, target, rule.source_paths[0].as_str(), rule.target_paths[0].as_str(), rule)
    } else if ns > 1 && nt == 1 {
        assert(reads == rv.source_paths);
        let merged = match Mapper::merge_sources(
            source,
            rule.source_paths.as_slice(),
            rule.merge_strategy.as_ref(),
        ) {
            Ok(m) => m,
            Err(e) => return Err(e),
        };
        let w = match &rule.transform {
            Some(t) => match Mapper::apply_transform(merged, t) {
                Ok(w) => w,
                Err(e) => return Err(e),
            },
            None => merged,
        };
        Mapper::set_value_at_path(target, rule.target_paths[0].as_str(), w)
    } else if ns == 1 && nt > 1 {
        assert(reads[0] == rv.source_paths[0]);
        let v = match Mapper::get_value_at_path(source, rule.source_paths[0].as_str()) {
            Ok(v) => v,
            Err(e) => return Err(e),
        };
        Mapper::split_to_targets(
            target,
            rule.target_paths.as_slice(),
            v,
            rule.split_strategy.as_ref(),
        )
    } else {
        let k = if ns < nt {
            ns
        } else {
            nt
        };
        assert(pairs_form(rv));
        map_zip(source, target, rule, k)
    }
}

impl Mapper {
    /// Maps values from the source document into the target document by one
    /// rule; supports the single-path and the multi-path forms of a rule.
    pub fn map_field(source: &Json, target: &mut Json, rule: &MappingRule) -> (r: Result<
        (),
        MappingError,
    >)
        requires
            rule_reads_safe(source@, old(target)@, rule@),
        ensures
            (final(target)@, unit_res(r)) == map_rule(source@, old(target)@, rule@),
    {
        let ghost rv = rule@;
        let ghost reads = rule_reads(rv);
        if rule.source_paths.len() == 0 {
            if !rule.source_path.as_str().is_empty() {
                assert(reads[0] == rv.source_path);
                return Mapper::map_field_legacy(source, target, rule);
            } else {
                return Err(MappingError::InvalidPath("No source paths specified".to_owned()));
            }
        }
        if rule.target_paths.len() == 0 {
            if !rule.target_path.as_str().is_empty() {
                assert(reads[0] == rv.source_path);
                return Mapper::map_field_legacy(source, target, rule);
            } else {
                return Err(MappingError::InvalidPath("No target paths specified".to_owned()));
            }
        }
        match rule.direction {
            MappingDirection::Backward => Err(
                MappingError::InvalidPath(
                    ("Backward mapping requires mutable source. Use bidirectional mapping at flow level.").to_owned(),
                ),
            ),
            _ => map_field_forward(source, target, rule),
        }
    }

    /// The single-path form of a rule.
    fn map_field_legacy(source: &Json, target: &mut Json, rule: &MappingRule) -> (r: Result<
        (),
        MappingError,
    >)
        requires
            reach_safe(source@, rule@.source_path),
        ensures
            (final(target)@, unit_res(r)) == map_single(
                source@,
                old(target)@,
                rule@.source_path,
                rule@.target_path,
                rule@.transform,
            ),
    {
        map_one(source, target, rule.source_path.as_str(), rule.target_path.as_str(), rule)
    }

    /// Does every rule name only sources that are safe to read?
    pub fn rules_are_safe(rules: &[MappingRule]) -> (r: bool)
        ensures
            r <==> forall|i: int| 0 <= i < rules@.len() ==> rule_sources_safe(#[trigger] rules@[i]@),
            r ==> forall|src: JsonV| #[trigger] rules_reads_safe(src, rules_view(rules@)),
    {
        let n = rules.len();
        let mut i: usize = 0;
        while i < n
            invariant
                n == rules@.len(),
                i <= n,
                forall|j: int| 0 <= j < i ==> rule_sources_safe(#[trigger] rules@[j]@),
            decreases n - i,
        {
            let rule = &rules[i];
            if !is_path_safe(rule.source_path.as_str()) {
                assert(!rule_sources_safe(rules@[i as int]@));
                return false;
            }
            let m = rule.source_paths.len();
            let mut k: usize = 0;
            while k < m
                invariant
                    n == rules@.len(),
                    i < n,
                    *rule == rules@[i as int],
                    m == rule.source_paths@.len(),
                    k <= m,
                    forall|j: int| 0 <= j < k ==> path_safe(#[trigger] rule@.source_paths[j]),
                decreases m - k,
            {
                if !is_path_safe(rule.source_paths[k].as_str()) {
                    assert(rule@.source_paths[k as int] == rule.source_paths@[k as int]@);
                    assert(!rule_sources_safe(rules@[i as int]@));
                    return false;
                }
                k = k + 1;
            }
            i = i + 1;
        }
        proof {
            assert forall|src: JsonV| #[trigger] rules_reads_safe(src, rules_view(rules@)) by {
                let rv = rules_view(rules@);
                assert forall|j: int| 0 <= j < rules@.len() implies rule_reads_safe(
                    src,
                    apply_rules(src, rv, j as nat).0,
                    rv[j],
                ) by {
                    lemma_sources_safe(src, rules@[j]@);
                    lemma_rule_safe_reads(src, apply_rules(src, rv, j as nat).0, rv[j]);
                }
            }
        }
        true
    }

    /// Does applying the rules in order read only safe pieces of the input
    /// (each rule up to the first that fails)?
    pub fn mappings_reach_safe(input: &Json, rules: &[MappingRule]) -> (r: bool)
        ensures
            r == rules_reads_safe(input@, rules_view(rules@)),
    {
        let ghost rv = rules_view(rules@);
        let mut output = Json::empty_object();
        let n = rules.len();
        let mut i: usize = 0;
        while i < n
            invariant
                n == rules@.len(),
                rv == rules_view(rules@),
                i <= n,
                (output@, Ok::<(), MapErr>(())) == apply_rules(input@, rv, i as nat),
                forall|j: int|
                    0 <= j < i ==> (#[trigger] apply_rules(input@, rv, j as nat)).1 is Ok
                        ==> rule_reads_safe(input@, apply_rules(input@, rv, j as nat).0, rv[j]),
            decreases n - i,
        {
            assert(rv[i as int] == rules@[i as int]@);
            if !rule_reach_check(input, &output, &rules[i]) {
                assert(apply_rules(input@, rv, i as nat).1 is Ok);
                return false;
            }
            let r = Mapper::map_field(input, &mut output, &rules[i]);
            match r {
                Err(e) => {
                    proof {
                        assert(apply_rules(input@, rv, (i + 1) as nat).1 is Err);
                        assert forall|j: int| 0 <= j < n implies (#[trigger] apply_rules(
                            input@,
                            rv,
                            j as nat,
                        )).1 is Ok ==> rule_reads_safe(
                            input@,
                            apply_rules(input@, rv, j as nat).0,
                            rv[j],
                        ) by {
                            if j > i {
                                lemma_apply_rules_stuck(input@, rv, (i + 1) as nat, j as nat);
                            }
                        }
                    }
                    return true;
                },
                Ok(_) => {},
            }
            i = i + 1;
        }
        true
    }

    /// Applies the rules in order to build an output document from an empty object.
    pub fn apply_mappings(input: &Json, rules: &[MappingRule]) -> (r: Result<Json, MappingError>)
        requires
            rules_reads_safe(input@, rules_view(rules@)),
        ensures
            value_res(r) == mappings_result(input@, rules_view(rules@)),
    {
        let ghost rv = rules_view(rules@);
        let mut output = Json::empty_object();
        let n = rules.len();
        let mut i: usize = 0;
        while i < n
            invariant
                n == rules@.len(),
                rv == rules_view(rules@),
                rules_reads_safe(input@, rv),
                i <= n,
                (output@, Ok::<(), MapErr>(())) == apply_rules(input@, rv, i as nat),
            decreases n - i,
        {
            assert(rv[i as int] == rules@[i as int]@);
            proof {
                let ii: int = i as int;
                assert(apply_rules(input@, rv, ii as nat).1 is Ok);
                assert(rule_reads_safe(input@, output@, rv[ii]));
            }
            let r = Mapper::map_field(input, &mut output, &rules[i]);
            match r {
                Err(e) => {
                    proof {
                        assert(apply_rules(input@, rv, (i + 1) as nat) == (
                            output@,
                            Err::<(), MapErr>(e@),
                        ));
                        lemma_apply_rules_stuck(input@, rv, (i + 1) as nat, n as nat);
                    }
                    return Err(e);
                },
                Ok(_) => {},
            }
            i = i + 1;
        }
        Ok(output)
    }
}

/// A rule with several-path lists maps the same way whether its direction is
/// `Forward` or `Bidirectional`: same target, same outcome, same reads. Only
/// `Backward` is refused, leaving the target as it was. Forward, a rule from
/// one source path to one target path with no transform copies the source's
/// value there (so that reading the target path gives it back when the path
/// indexes no array), and fails with the source's error when the source path
/// is not found.
pub proof fn lemma_rule_directions(src: JsonV, tgt: JsonV, rule: MappingRuleV)
    requires
        rule.source_paths.len() > 0,
        rule.target_paths.len() > 0,
    ensures
        map_rule(src, tgt, MappingRuleV { direction: MappingDirection::Bidirectional, ..rule })
            == map_rule(src, tgt, MappingRuleV { direction: MappingDirection::Forward, ..rule }),
        rule_reads(MappingRuleV { direction: MappingDirection::Bidirectional, ..rule })
            == rule_reads(MappingRuleV { direction: MappingDirection::Forward, ..rule }),
        rule.direction == MappingDirection::Backward ==> {
            &&& map_rule(src, tgt, rule).0 == tgt
            &&& map_rule(src, tgt, rule).1 matches Err(MapErr::InvalidPath(_))
        },
        ({
            let a = rule.source_paths[0];
            let b = rule.target_paths[0];
            let out = map_rule(src, tgt, rule);
            (rule.direction != MappingDirection::Backward && rule.source_paths.len() == 1
                && rule.target_paths.len() == 1 && rule.transform is None) ==> match get_path(
                src,
                a,
            ) {
                Ok(v) => {
                    &&& out == set_path(tgt, b, v)
                    &&& (out.1 is Ok && path_plain(b)) ==> get_path(out.0, b) == Ok::<
                        JsonV,
                        MapErr,
                    >(v)
                },
                Err(e) => out == (tgt, Err::<(), MapErr>(e)),
            }
        }),
{
    let a = rule.source_paths[0];
    let b = rule.target_paths[0];
    if rule.direction != MappingDirection::Backward && rule.source_paths.len() == 1
        && rule.target_paths.len() == 1 && rule.transform is None {
        if let Ok(v) = get_path(src, a) {
            if set_path(tgt, b, v).1 is Ok && path_plain(b) {
                lemma_read_after_write(tgt, b, v);
            }
        }
    }
}

} // verus!
