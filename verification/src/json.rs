//! The JSON value model that payloads and configurations are made of.
//!
//! Objects keep their keys in ascending order, one entry per key, as a
//! sorted map does; numbers are integers or the text of a fractional number.
use vstd::prelude::*;
use vstd::std_specs::iter::IteratorSpec;
use crate::text::parse_i64;

verus! {

/// A JSON number: a non-negative integer, a negative integer, or the text
/// of a number that is not an integer (held as written, e.g. `0.7`).
#[derive(Debug, Clone)]
pub enum JsonNumber {
    PosInt(u64),
    NegInt(i64),
    Float(String),
}

/// A JSON value.
#[derive(Debug)]
pub enum Json {
    Null,
    Bool(bool),
    Number(JsonNumber),
    String(String),
    Array(Vec<Json>),
    Object(JsonMap),
}

/// A JSON object: entries in ascending key order.
#[derive(Debug)]
pub struct JsonMap {
    entries: Vec<(String, Json)>,
}

/// The mathematical value of a JSON number.
pub enum NumV {
    Int(int),
    Float(Seq<char>),
}

/// The mathematical value of a JSON value.
pub enum JsonV {
    Null,
    Bool(bool),
    Num(NumV),
    Str(Seq<char>),
    Arr(Seq<JsonV>),
    Obj(Seq<(Seq<char>, JsonV)>),
}

pub open spec fn num_view(n: JsonNumber) -> NumV {
    match n {
        JsonNumber::PosInt(u) => NumV::Int(u as int),
        JsonNumber::NegInt(i) => NumV::Int(i as int),
        JsonNumber::Float(s) => NumV::Float(s@),
    }
}

pub open spec fn json_view(j: Json) -> JsonV
    decreases j,
{
    match j {
        Json::Null => JsonV::Null,
        Json::Bool(b) => JsonV::Bool(b),
        Json::Number(n) => JsonV::Num(num_view(n)),
        Json::String(s) => JsonV::Str(s@),
        Json::Array(v) => JsonV::Arr(
            Seq::new(
                v@.len(),
                |i: int|
                    if 0 <= i < v@.len() {
                        json_view(v@[i])
                    } else {
                        JsonV::Null
                    },
            ),
        ),
        Json::Object(m) => JsonV::Obj(map_view(m)),
    }
}

/// The views of a sequence of values.
pub open spec fn jsons_view(v: Seq<Json>) -> Seq<JsonV> {
    Seq::new(v.len(), |i: int| v[i]@)
}

/// The entries of an object, as keys and values.
pub closed spec fn map_view(m: JsonMap) -> Seq<(Seq<char>, JsonV)>
    decreases m,
{
    Seq::new(
        m.entries@.len(),
        |i: int|
            if 0 <= i < m.entries@.len() {
                (m.entries@[i].0@, json_view(m.entries@[i].1))
            } else {
                (Seq::empty(), JsonV::Null)
            },
    )
}

impl View for JsonNumber {
    type V = NumV;

    open spec fn view(&self) -> NumV {
        num_view(*self)
    }
}

impl View for Json {
    type V = JsonV;

    open spec fn view(&self) -> JsonV {
        json_view(*self)
    }
}

impl View for JsonMap {
    type V = Seq<(Seq<char>, JsonV)>;

    open spec fn view(&self) -> Seq<(Seq<char>, JsonV)> {
        map_view(*self)
    }
}

/// Lexicographic order on character sequences, by code point.
pub open spec fn key_lt(a: Seq<char>, b: Seq<char>) -> bool
    decreases a.len(),
{
    if a.len() == 0 {
        b.len() > 0
    } else if b.len() == 0 {
        false
    } else if a[0] != b[0] {
        a[0] < b[0]
    } else {
        key_lt(a.drop_first(), b.drop_first())
    }
}

/// Keys strictly ascending: the shape of every object built by `insert`.
pub open spec fn keys_sorted(s: Seq<(Seq<char>, JsonV)>) -> bool {
    forall|i: int, j: int| 0 <= i < j < s.len() ==> key_lt(#[trigger] s[i].0, #[trigger] s[j].0)
}

/// The value under a key of an object's entries (the first such entry).
pub open spec fn obj_get(s: Seq<(Seq<char>, JsonV)>, k: Seq<char>) -> Option<JsonV>
    decreases s.len(),
{
    if s.len() == 0 {
        None
    } else if s[0].0 == k {
        Some(s[0].1)
    } else {
        obj_get(s.drop_first(), k)
    }
}

/// The entries after putting `v` under `k`: an entry with key `k` is
/// replaced in place; otherwise the new entry goes before the first greater key.
pub open spec fn obj_insert(s: Seq<(Seq<char>, JsonV)>, k: Seq<char>, v: JsonV) -> Seq<
    (Seq<char>, JsonV),
>
    decreases s.len(),
{
    if s.len() == 0 {
        seq![(k, v)]
    } else if s[0].0 == k {
        seq![(k, v)] + s.drop_first()
    } else if key_lt(k, s[0].0) {
        seq![(k, v)] + s
    } else {
        seq![s[0]] + obj_insert(s.drop_first(), k, v)
    }
}

/// The entries after replacing the value of the first entry with key `k`.
pub open spec fn obj_replace(s: Seq<(Seq<char>, JsonV)>, k: Seq<char>, v: JsonV) -> Seq<
    (Seq<char>, JsonV),
>
    decreases s.len(),
{
    if s.len() == 0 {
        s
    } else if s[0].0 == k {
        seq![(k, v)] + s.drop_first()
    } else {
        seq![s[0]] + obj_replace(s.drop_first(), k, v)
    }
}

/// The entries after removing the first entry with key `k`.
pub open spec fn obj_remove(s: Seq<(Seq<char>, JsonV)>, k: Seq<char>) -> Seq<(Seq<char>, JsonV)>
    decreases s.len(),
{
    if s.len() == 0 {
        s
    } else if s[0].0 == k {
        s.drop_first()
    } else {
        seq![s[0]] + obj_remove(s.drop_first(), k)
    }
}

/// Removing the first entry with key `k`, found at `i`, is removing position `i`.
proof fn lemma_obj_remove_at(s: Seq<(Seq<char>, JsonV)>, k: Seq<char>, i: int)
    requires
        0 <= i < s.len(),
        s[i].0 == k,
        forall|j: int| 0 <= j < i ==> s[j].0 != k,
    ensures
        obj_remove(s, k) == s.remove(i),
    decreases i,
{
    if i == 0 {
        assert(s.remove(0) =~= s.drop_first());
    } else {
        let t = s.drop_first();
        assert forall|j: int| 0 <= j < i - 1 implies t[j].0 != k by {
            assert(t[j] == s[j + 1]);
        }
        lemma_obj_remove_at(t, k, i - 1);
        assert(s.remove(i) =~= seq![s[0]] + t.remove(i - 1));
    }
}

/// Without an entry with key `k`, removing it changes nothing.
proof fn lemma_obj_remove_absent(s: Seq<(Seq<char>, JsonV)>, k: Seq<char>)
    requires
        obj_get(s, k) is None,
    ensures
        obj_remove(s, k) == s,
    decreases s.len(),
{
    if s.len() > 0 {
        lemma_obj_remove_absent(s.drop_first(), k);
        assert(seq![s[0]] + s.drop_first() =~= s);
    }
}

/// The value under a key, if the value is an object holding it.
pub open spec fn jget(v: JsonV, k: Seq<char>) -> Option<JsonV> {
    match v {
        JsonV::Obj(s) => obj_get(s, k),
        _ => None,
    }
}

/// The element at an index, if the value is an array that long.
pub open spec fn jindex(v: JsonV, i: int) -> Option<JsonV> {
    match v {
        JsonV::Arr(s) => if 0 <= i < s.len() {
            Some(s[i])
        } else {
            None
        },
        _ => None,
    }
}

/// The empty object.
pub open spec fn empty_obj() -> JsonV {
    JsonV::Obj(Seq::empty())
}

impl JsonV {
    /// The value with `v` put under key `k`, if it is an object; other
    /// values are left alone.
    pub open spec fn entry(self, k: Seq<char>, v: JsonV) -> JsonV {
        match self {
            JsonV::Obj(s) => JsonV::Obj(obj_insert(s, k, v)),
            other => other,
        }
    }

    /// The value with `v` added at the end, if it is an array; other values
    /// are left alone.
    pub open spec fn item(self, v: JsonV) -> JsonV {
        match self {
            JsonV::Arr(s) => JsonV::Arr(s.push(v)),
            other => other,
        }
    }
}

/// The empty array.
pub open spec fn empty_arr() -> JsonV {
    JsonV::Arr(Seq::empty())
}

/// The string inside a value, if it is a string.
pub open spec fn jstr(v: JsonV) -> Option<Seq<char>> {
    match v {
        JsonV::Str(s) => Some(s),
        _ => None,
    }
}

/// The value as an unsigned 64-bit integer, if it is an integer in range.
pub open spec fn ju64(v: JsonV) -> Option<u64> {
    match v {
        JsonV::Num(NumV::Int(n)) => if 0 <= n <= u64::MAX {
            Some(n as u64)
        } else {
            None
        },
        _ => None,
    }
}

// ---------------------------------------------------------------------------
// Lemmas about the entry order.

proof fn lemma_key_lt_irrefl(a: Seq<char>)
    ensures
        !key_lt(a, a),
    decreases a.len(),
{
    if a.len() > 0 {
        lemma_key_lt_irrefl(a.drop_first());
    }
}

proof fn lemma_key_lt_asym(a: Seq<char>, b: Seq<char>)
    ensures
        !(key_lt(a, b) && key_lt(b, a)),
    decreases a.len(),
{
    if a.len() > 0 && b.len() > 0 && a[0] == b[0] {
        lemma_key_lt_asym(a.drop_first(), b.drop_first());
    }
}

proof fn lemma_key_lt_total(a: Seq<char>, b: Seq<char>)
    ensures
        a == b || key_lt(a, b) || key_lt(b, a),
    decreases a.len(),
{
    if a.len() > 0 && b.len() > 0 {
        if a[0] == b[0] {
            lemma_key_lt_total(a.drop_first(), b.drop_first());
            if a.drop_first() == b.drop_first() {
                assert(a =~= seq![a[0]] + a.drop_first());
                assert(b =~= seq![b[0]] + b.drop_first());
            }
        }
    } else if a.len() == 0 && b.len() == 0 {
        assert(a =~= b);
    }
}

proof fn lemma_key_lt_trans(a: Seq<char>, b: Seq<char>, c: Seq<char>)
    requires
        key_lt(a, b),
        key_lt(b, c),
    ensures
        key_lt(a, c),
    decreases a.len(),
{
    if a.len() > 0 && b.len() > 0 && c.len() > 0 {
        if a[0] == b[0] && b[0] == c[0] {
            lemma_key_lt_trans(a.drop_first(), b.drop_first(), c.drop_first());
        }
    }
}

/// Below the point where `k` goes, entries are kept as they were.
proof fn lemma_obj_insert_prefix(s: Seq<(Seq<char>, JsonV)>, k: Seq<char>, v: JsonV, i: int)
    requires
        0 <= i <= s.len(),
        forall|j: int| 0 <= j < i ==> key_lt(#[trigger] s[j].0, k),
    ensures
        obj_insert(s, k, v) == s.take(i) + obj_insert(s.skip(i), k, v),
    decreases i,
{
    if i == 0 {
        assert(s.skip(0) =~= s);
        assert(s.take(0) + obj_insert(s.skip(0), k, v) =~= obj_insert(s, k, v));
    } else {
        lemma_key_lt_asym(s[0].0, k);
        lemma_key_lt_irrefl(k);
        let t = s.drop_first();
        assert forall|j: int| 0 <= j < i - 1 implies key_lt(#[trigger] t[j].0, k) by {
            assert(t[j] == s[j + 1]);
        }
        lemma_obj_insert_prefix(t, k, v, i - 1);
        assert(s.take(i) =~= seq![s[0]] + t.take(i - 1));
        assert(t.skip(i - 1) =~= s.skip(i));
        assert(obj_insert(s, k, v) == seq![s[0]] + obj_insert(t, k, v));
        assert(obj_insert(s, k, v) =~= s.take(i) + obj_insert(s.skip(i), k, v));
    }
}

/// Reading a key after inserting gives the inserted value; other keys are unchanged.
pub proof fn lemma_obj_insert_get(s: Seq<(Seq<char>, JsonV)>, k: Seq<char>, v: JsonV, key: Seq<char>)
    ensures
        obj_get(obj_insert(s, k, v), key) == if key == k {
            Some(v)
        } else {
            obj_get(s, key)
        },
    decreases s.len(),
{
    let r = obj_insert(s, k, v);
    if s.len() == 0 {
        assert(r.drop_first() =~= Seq::<(Seq<char>, JsonV)>::empty());
        assert(r[0] == (k, v));
        if key != k {
            assert(obj_get(r, key) == obj_get(r.drop_first(), key));
        }
    } else if s[0].0 == k {
        assert(r.drop_first() =~= s.drop_first());
        assert(r[0] == (k, v));
        if key != k {
            assert(obj_get(r, key) == obj_get(r.drop_first(), key));
            assert(obj_get(s, key) == obj_get(s.drop_first(), key));
        }
    } else if key_lt(k, s[0].0) {
        assert(r.drop_first() =~= s);
        assert(r[0] == (k, v));
        if key != k {
            assert(obj_get(r, key) == obj_get(r.drop_first(), key));
        }
    } else {
        let t = s.drop_first();
        lemma_obj_insert_get(t, k, v, key);
        assert(r.drop_first() =~= obj_insert(t, k, v));
        assert(r[0] == s[0]);
        if key != s[0].0 {
            assert(obj_get(r, key) == obj_get(r.drop_first(), key));
            assert(obj_get(s, key) == obj_get(t, key));
        }
    }
}

/// Inserting keeps keys in ascending order.
pub proof fn lemma_obj_insert_sorted(s: Seq<(Seq<char>, JsonV)>, k: Seq<char>, v: JsonV)
    requires
        keys_sorted(s),
    ensures
        keys_sorted(obj_insert(s, k, v)),
    decreases s.len(),
{
    let r = obj_insert(s, k, v);
    if s.len() == 0 {
    } else {
        let t = s.drop_first();
        assert forall|i: int, j: int| 0 <= i < j < t.len() implies key_lt(
            #[trigger] t[i].0,
            #[trigger] t[j].0,
        ) by {
            assert(t[i] == s[i + 1] && t[j] == s[j + 1]);
        }
        lemma_obj_insert_sorted(t, k, v);
        assert forall|j: int| 0 <= j < t.len() implies key_lt(s[0].0, #[trigger] t[j].0) by {
            assert(t[j] == s[j + 1]);
        }
        if s[0].0 == k {
            assert forall|i: int, j: int| 0 <= i < j < r.len() implies key_lt(
                #[trigger] r[i].0,
                #[trigger] r[j].0,
            ) by {
                if i == 0 {
                    assert(r[j] == t[j - 1]);
                } else {
                    assert(r[i] == t[i - 1] && r[j] == t[j - 1]);
                }
            }
        } else if key_lt(k, s[0].0) {
            assert forall|i: int, j: int| 0 <= i < j < r.len() implies key_lt(
                #[trigger] r[i].0,
                #[trigger] r[j].0,
            ) by {
                if i == 0 {
                    if j >= 2 {
                        assert(r[j] == t[j - 2]);
                        lemma_key_lt_trans(k, s[0].0, t[j - 2].0);
                    }
                } else {
                    assert(r[i] == s[i - 1] && r[j] == s[j - 1]);
                }
            }
        } else {
            lemma_key_lt_total(k, s[0].0);
            let rt = obj_insert(t, k, v);
            assert forall|j: int| 0 <= j < rt.len() implies key_lt(s[0].0, #[trigger] rt[j].0) by {
                lemma_obj_insert_members(t, k, v, j);
            }
            assert forall|i: int, j: int| 0 <= i < j < r.len() implies key_lt(
                #[trigger] r[i].0,
                #[trigger] r[j].0,
            ) by {
                if i == 0 {
                    assert(r[j] == rt[j - 1]);
                } else {
                    assert(r[i] == rt[i - 1] && r[j] == rt[j - 1]);
                }
            }
        }
    }
}

/// Replacing at the first entry with key `k` is an update at that position.
pub proof fn lemma_obj_replace_at(s: Seq<(Seq<char>, JsonV)>, k: Seq<char>, v: JsonV, i: int)
    requires
        0 <= i < s.len(),
        s[i].0 == k,
        forall|j: int| 0 <= j < i ==> s[j].0 != k,
    ensures
        obj_replace(s, k, v) == s.update(i, (k, v)),
    decreases i,
{
    if i == 0 {
        assert(obj_replace(s, k, v) =~= s.update(0, (k, v)));
    } else {
        let t = s.drop_first();
        assert forall|j: int| 0 <= j < i - 1 implies t[j].0 != k by {
            assert(t[j] == s[j + 1]);
        }
        assert(s[0].0 != k);
        lemma_obj_replace_at(t, k, v, i - 1);
        assert(obj_replace(s, k, v) =~= s.update(i, (k, v)));
    }
}

/// Reading a key after replacing its value gives the new value; other keys are unchanged.
pub proof fn lemma_obj_replace_get(s: Seq<(Seq<char>, JsonV)>, k: Seq<char>, v: JsonV, key: Seq<char>)
    ensures
        obj_get(obj_replace(s, k, v), key) == if key == k && obj_get(s, k) is Some {
            Some(v)
        } else {
            obj_get(s, key)
        },
    decreases s.len(),
{
    let r = obj_replace(s, k, v);
    if s.len() > 0 {
        if s[0].0 == k {
            assert(r.drop_first() =~= s.drop_first());
            assert(r[0] == (k, v));
        } else {
            lemma_obj_replace_get(s.drop_first(), k, v, key);
            assert(r.drop_first() =~= obj_replace(s.drop_first(), k, v));
            assert(r[0] == s[0]);
        }
    }
}

/// Each key after inserting is the new key or a key that was there.
proof fn lemma_obj_insert_members(s: Seq<(Seq<char>, JsonV)>, k: Seq<char>, v: JsonV, j: int)
    requires
        0 <= j < obj_insert(s, k, v).len(),
    ensures
        obj_insert(s, k, v)[j].0 == k || exists|i: int|
            0 <= i < s.len() && s[i].0 == #[trigger] obj_insert(s, k, v)[j].0,
    decreases s.len(),
{
    let r = obj_insert(s, k, v);
    if s.len() == 0 {
    } else if s[0].0 == k {
        if j > 0 {
            assert(r[j] == s[j]);
        }
    } else if key_lt(k, s[0].0) {
        if j > 0 {
            assert(r[j] == s[j - 1]);
        }
    } else {
        if j == 0 {
            assert(r[0] == s[0]);
        } else {
            let t = s.drop_first();
            lemma_obj_insert_members(t, k, v, j - 1);
            assert(r[j] == obj_insert(t, k, v)[j - 1]);
            if obj_insert(t, k, v)[j - 1].0 != k {
                let i = choose|i: int| 0 <= i < t.len() && t[i].0 == obj_insert(t, k, v)[j - 1].0;
                assert(s[i + 1] == t[i]);
            }
        }
    }
}

// ---------------------------------------------------------------------------
// Characters and strings.

/// The characters of a string.
pub fn chars_of(s: &str) -> (v: Vec<char>)
    ensures
        v@ == s@,
{
    let mut v: Vec<char> = Vec::new();
    let mut it = s.chars();
    loop
        invariant
            v@ + it.remaining() == s@,
            it.decrease() is Some,
            it.obeys_prophetic_iter_laws(),
        ensures
            v@ == s@,
        decreases it.decrease()->0,
    {
        match it.next() {
            Some(c) => {
                v.push(c);
            },
            None => {
                break;
            },
        }
    }
    v
}

/// A string made of the given characters.
#[verifier::external_body]
pub(crate) fn string_of(v: &[char]) -> (s: String)
    ensures
        s@ == v@,
{
    v.iter().collect()
}

/// Is `a` before `b` in key order?
pub fn key_less(a: &str, b: &str) -> (r: bool)
    ensures
        r == key_lt(a@, b@),
{
    let x = chars_of(a);
    let y = chars_of(b);
    let mut i: usize = 0;
    proof {
        assert(x@.skip(0) =~= x@);
        assert(y@.skip(0) =~= y@);
    }
    while i < x.len() && i < y.len() && x[i] == y[i]
        invariant
            i <= x.len(),
            i <= y.len(),
            x@.take(i as int) == y@.take(i as int),
            key_lt(x@, y@) == key_lt(x@.skip(i as int), y@.skip(i as int)),
        decreases x.len() - i,
    {
        proof {
            let xs = x@.skip(i as int);
            let ys = y@.skip(i as int);
            assert(xs.drop_first() =~= x@.skip(i + 1));
            assert(ys.drop_first() =~= y@.skip(i + 1));
            assert(x@.take(i + 1) =~= x@.take(i as int).push(x@[i as int]));
            assert(y@.take(i + 1) =~= y@.take(i as int).push(y@[i as int]));
        }
        i = i + 1;
    }
    if i == x.len() {
        proof {
            assert(x@.skip(i as int).len() == 0);
        }
        i < y.len()
    } else if i == y.len() {
        false
    } else {
        proof {
            assert(x@.skip(i as int)[0] == x@[i as int]);
            assert(y@.skip(i as int)[0] == y@[i as int]);
        }
        x[i] < y[i]
    }
}

// ---------------------------------------------------------------------------
// Objects.

impl JsonMap {
    /// The empty object.
    pub fn new() -> (m: JsonMap)
        ensures
            m@ == Seq::<(Seq<char>, JsonV)>::empty(),
    {
        let m = JsonMap { entries: Vec::new() };
        assert(m@ =~= Seq::<(Seq<char>, JsonV)>::empty());
        m
    }

    /// The number of entries.
    pub fn len(&self) -> (n: usize)
        ensures
            n == self@.len(),
    {
        self.entries.len()
    }

    /// The key of the `i`-th entry.
    pub fn key_at(&self, i: usize) -> (k: &String)
        requires
            i < self@.len(),
        ensures
            k@ == self@[i as int].0,
    {
        &self.entries[i].0
    }

    /// The value of the `i`-th entry.
    pub fn value_at(&self, i: usize) -> (v: &Json)
        requires
            i < self@.len(),
        ensures
            v@ == self@[i as int].1,
    {
        &self.entries[i].1
    }

    /// The position of the entry with key `k`, if there is one.
    pub fn find(&self, k: &str) -> (r: Option<usize>)
        ensures
            r is None ==> obj_get(self@, k@) is None,
            r matches Some(i) ==> i < self@.len() && self@[i as int].0 == k@ && obj_get(self@, k@)
                == Some(self@[i as int].1) && forall|j: int| 0 <= j < i ==> self@[j].0 != k@,
    {
        let n = self.entries.len();
        let mut i: usize = 0;
        assert(self@.skip(0) =~= self@);
        while i < n
            invariant
                n == self@.len(),
                i <= n,
                obj_get(self@, k@) == obj_get(self@.skip(i as int), k@),
                forall|j: int| 0 <= j < i ==> self@[j].0 != k@,
            decreases n - i,
        {
            let ki = self.entries[i].0.as_str();
            let ghost s = self@.skip(i as int);
            proof {
                assert(s[0] == self@[i as int]);
                assert(s.drop_first() =~= self@.skip(i + 1));
            }
            assert(ki@ == self@[i as int].0);
            if string_eq(ki, k) {
                return Some(i);
            }
            i = i + 1;
        }
        None
    }

    /// The value under key `k`, if there is one.
    pub fn get(&self, k: &str) -> (r: Option<&Json>)
        ensures
            r is None ==> obj_get(self@, k@) is None,
            r matches Some(v) ==> obj_get(self@, k@) == Some(v@),
    {
        match self.find(k) {
            Some(i) => Some(&self.entries[i].1),
            None => None,
        }
    }

    /// Puts `v` under key `k`, replacing the value that was there.
    pub fn insert(&mut self, k: String, v: Json)
        ensures
            final(self)@ == obj_insert(old(self)@, k@, v@),
    {
        let ghost s = self@;
        let ghost kv = k@;
        let ghost vv = v@;
        let n = self.entries.len();
        let mut i: usize = 0;
        while i < n
            invariant
                n == self@.len(),
                self@ == s,
                kv == k@,
                i <= n,
                forall|j: int| 0 <= j < i ==> key_lt(#[trigger] s[j].0, kv),
            ensures
                i <= n,
                forall|j: int| 0 <= j < i ==> key_lt(#[trigger] s[j].0, kv),
                i < n ==> !key_lt(s[i as int].0, kv),
            decreases n - i,
        {
            let less = key_less(self.entries[i].0.as_str(), k.as_str());
            if !less {
                assert(s[i as int] == self@[i as int]);
                assert(self@[i as int].0 == self.entries@[i as int].0@);
                break;
            }
            assert(s[i as int] == self@[i as int]);
            assert(self@[i as int].0 == self.entries@[i as int].0@);
            i = i + 1;
        }
        proof {
            lemma_obj_insert_prefix(s, kv, vv, i as int);
        }
        let ghost old_entries = self.entries@;
        if i < n && string_eq(self.entries[i].0.as_str(), k.as_str()) {
            self.entries.set(i, (k, v));
            proof {
                let t = s.skip(i as int);
                assert(t[0] == s[i as int]);
                assert(obj_insert(t, kv, vv) == seq![(kv, vv)] + t.drop_first());
                assert(self@ =~= s.take(i as int) + obj_insert(t, kv, vv));
            }
        } else {
            self.entries.insert(i, (k, v));
            proof {
                let t = s.skip(i as int);
                if i < n {
                    lemma_key_lt_total(kv, s[i as int].0);
                    assert(t[0] == s[i as int]);
                    assert(obj_insert(t, kv, vv) == seq![(kv, vv)] + t);
                } else {
                    assert(t.len() == 0);
                }
                assert(self@ =~= s.take(i as int) + obj_insert(t, kv, vv));
            }
        }
    }
}

/// Are two strings equal?
pub fn string_eq(a: &str, b: &str) -> (r: bool)
    ensures
        r == (a@ == b@),
{
    let x = chars_of(a);
    let y = chars_of(b);
    if x.len() != y.len() {
        assert(x@.len() != y@.len());
        return false;
    }
    let mut i: usize = 0;
    while i < x.len()
        invariant
            x@ == a@,
            y@ == b@,
            x.len() == y.len(),
            i <= x.len(),
            x@.take(i as int) == y@.take(i as int),
        decreases x.len() - i,
    {
        if x[i] != y[i] {
            assert(x@[i as int] != y@[i as int]);
            assert(x@ != y@);
            return false;
        }
        proof {
            assert(x@.take(i + 1) =~= x@.take(i as int).push(x@[i as int]));
            assert(y@.take(i + 1) =~= y@.take(i as int).push(y@[i as int]));
        }
        i = i + 1;
    }
    proof {
        assert(x@ =~= x@.take(i as int));
        assert(y@ =~= y@.take(i as int));
    }
    true
}


impl JsonMap {
    /// Takes the value of the `i`-th entry out, leaving `null` in its place.
    pub fn take_at(&mut self, i: usize) -> (v: Json)
        requires
            i < old(self)@.len(),
        ensures
            v@ == old(self)@[i as int].1,
            final(self)@ == old(self)@.update(i as int, (old(self)@[i as int].0, JsonV::Null)),
    {
        let (k, v) = self.entries.remove(i);
        self.entries.insert(i, (k, Json::Null));
        proof {
            assert(self@ =~= old(self)@.update(i as int, (old(self)@[i as int].0, JsonV::Null)));
        }
        v
    }

    /// Puts a value into the `i`-th entry, keeping its key.
    pub fn put_at(&mut self, i: usize, v: Json)
        requires
            i < old(self)@.len(),
        ensures
            final(self)@ == old(self)@.update(i as int, (old(self)@[i as int].0, v@)),
    {
        let (k, _old) = self.entries.remove(i);
        self.entries.insert(i, (k, v));
        proof {
            assert(self@ =~= old(self)@.update(i as int, (old(self)@[i as int].0, v@)));
        }
    }

    /// Removes the entry with key `k`, giving back its value.
    pub fn remove(&mut self, k: &str) -> (r: Option<Json>)
        ensures
            final(self)@ == obj_remove(old(self)@, k@),
            match r {
                Some(v) => obj_get(old(self)@, k@) == Some(v@),
                None => obj_get(old(self)@, k@) is None,
            },
    {
        match self.find(k) {
            Some(i) => {
                proof {
                    lemma_obj_remove_at(self@, k@, i as int);
                }
                let ghost before = self@;
                let (_key, v) = self.entries.remove(i);
                assert(self@ =~= before.remove(i as int));
                Some(v)
            },
            None => {
                proof {
                    lemma_obj_remove_absent(self@, k@);
                }
                None
            },
        }
    }

    /// A copy of the object.
    #[verifier::loop_isolation(false)]
    pub fn copy(&self) -> (r: JsonMap)
        ensures
            r@ == self@,
        decreases self,
    {
        let mut entries: Vec<(String, Json)> = Vec::new();
        let n = self.entries.len();
        let mut i: usize = 0;
        while i < n
            invariant
                n == self.entries@.len(),
                i <= n,
                entries@.len() == i,
                forall|j: int|
                    0 <= j < i ==> #[trigger] entries@[j].0@ == self.entries@[j].0@ && json_view(
                        entries@[j].1,
                    ) == json_view(self.entries@[j].1),
            decreases n - i,
        {
            let k = self.entries[i].0.clone();
            let v = self.entries[i].1.copy();
            entries.push((k, v));
            i = i + 1;
        }
        let r = JsonMap { entries };
        assert(r@ =~= self@);
        r
    }
}

impl JsonNumber {
    /// A copy of the number.
    pub fn copy(&self) -> (r: JsonNumber)
        ensures
            r@ == self@,
    {
        match self {
            JsonNumber::PosInt(u) => JsonNumber::PosInt(*u),
            JsonNumber::NegInt(i) => JsonNumber::NegInt(*i),
            JsonNumber::Float(s) => JsonNumber::Float(s.clone()),
        }
    }

    /// The number as an unsigned integer, if it is one in range.
    pub fn as_u64(&self) -> (r: Option<u64>)
        ensures
            r == ju64(JsonV::Num(self@)),
    {
        match self {
            JsonNumber::PosInt(u) => Some(*u),
            JsonNumber::NegInt(i) => if *i >= 0 {
                Some(*i as u64)
            } else {
                None
            },
            JsonNumber::Float(_) => None,
        }
    }

    /// Are two numbers equal, as serde_json compares them?
    pub fn equals(&self, other: &JsonNumber) -> (r: bool)
        ensures
            r == num_eq(self@, other@),
    {
        match (self, other) {
            (JsonNumber::Float(_), JsonNumber::Float(_)) => match order_as_f64(self, other) {
                NumOrder::Equal => true,
                _ => false,
            },
            (JsonNumber::Float(_), _) => false,
            (_, JsonNumber::Float(_)) => false,
            (JsonNumber::PosInt(a), JsonNumber::PosInt(b)) => *a == *b,
            (JsonNumber::NegInt(a), JsonNumber::NegInt(b)) => *a == *b,
            (JsonNumber::PosInt(a), JsonNumber::NegInt(b)) => *b >= 0 && *a == *b as u64,
            (JsonNumber::NegInt(a), JsonNumber::PosInt(b)) => *a >= 0 && *a as u64 == *b,
        }
    }
}

impl Json {
    /// A copy of the value.
    #[verifier::loop_isolation(false)]
    pub fn copy(&self) -> (r: Json)
        ensures
            r@ == self@,
        decreases self,
    {
        match self {
            Json::Null => Json::Null,
            Json::Bool(b) => Json::Bool(*b),
            Json::Number(n) => Json::Number(n.copy()),
            Json::String(s) => Json::String(s.clone()),
            Json::Array(v) => {
                let mut out: Vec<Json> = Vec::new();
                let n = v.len();
                let mut i: usize = 0;
                while i < n
                    invariant
                        n == v@.len(),
                        i <= n,
                        out@.len() == i,
                        forall|j: int| 0 <= j < i ==> #[trigger] json_view(out@[j]) == json_view(v@[j]),
                    decreases n - i,
                {
                    let x = v[i].copy();
                    out.push(x);
                    i = i + 1;
                }
                let r = Json::Array(out);
                assert forall|j: int| 0 <= j < n implies r@->Arr_0[j] == self@->Arr_0[j] by {
                    assert(json_view(out@[j]) == json_view(v@[j]));
                }
                assert(r@->Arr_0 =~= self@->Arr_0);
                r
            },
            Json::Object(m) => Json::Object(m.copy()),
        }
    }

    /// The empty object.
    pub fn empty_object() -> (r: Json)
        ensures
            r@ == empty_obj(),
    {
        Json::Object(JsonMap::new())
    }

    /// The empty array.
    pub fn empty_array() -> (r: Json)
        ensures
            r@ == empty_arr(),
    {
        let r = Json::Array(Vec::new());
        assert(r@->Arr_0 =~= Seq::<JsonV>::empty());
        r
    }

    /// The value with `v` put under key `k`, if it is an object.
    pub fn entry(self, k: &str, v: Json) -> (r: Json)
        ensures
            r@ == self@.entry(k@, v@),
    {
        let mut o = self;
        o.insert_key(k.to_owned(), v);
        o
    }

    /// The value with `v` added at the end, if it is an array.
    pub fn item(self, v: Json) -> (r: Json)
        ensures
            r@ == self@.item(v@),
    {
        let ghost sv = self@;
        let ghost vv = v@;
        match self {
            Json::Array(items) => {
                let mut items = items;
                items.push(v);
                let r = Json::Array(items);
                assert(r@->Arr_0 =~= sv->Arr_0.push(vv));
                r
            },
            other => other,
        }
    }

    /// A string value.
    pub fn from_str(s: &str) -> (r: Json)
        ensures
            r@ == JsonV::Str(s@),
    {
        Json::String(s.to_owned())
    }

    /// A non-negative integer value.
    pub fn from_u64(n: u64) -> (r: Json)
        ensures
            r@ == JsonV::Num(NumV::Int(n as int)),
    {
        Json::Number(JsonNumber::PosInt(n))
    }

    /// An array value.
    pub fn from_vec(v: Vec<Json>) -> (r: Json)
        ensures
            r@ is Arr,
            r@->Arr_0.len() == v@.len(),
            forall|i: int| 0 <= i < v@.len() ==> #[trigger] r@->Arr_0[i] == v@[i]@,
    {
        Json::Array(v)
    }

    /// Is the value an object?
    pub fn is_object(&self) -> (r: bool)
        ensures
            r == (self@ is Obj),
    {
        match self {
            Json::Object(_) => true,
            _ => false,
        }
    }

    /// Is the value null?
    pub fn is_null(&self) -> (r: bool)
        ensures
            r == (self@ is Null),
    {
        match self {
            Json::Null => true,
            _ => false,
        }
    }

    /// Is the value a string?
    pub fn is_string(&self) -> (r: bool)
        ensures
            r == (self@ is Str),
    {
        match self {
            Json::String(_) => true,
            _ => false,
        }
    }

    /// Is the value a number?
    pub fn is_number(&self) -> (r: bool)
        ensures
            r == (self@ is Num),
    {
        match self {
            Json::Number(_) => true,
            _ => false,
        }
    }

    /// Is the value an integer?
    pub fn is_integer(&self) -> (r: bool)
        ensures
            r == (self@ matches JsonV::Num(NumV::Int(_))),
    {
        match self {
            Json::Number(JsonNumber::Float(_)) => false,
            Json::Number(_) => true,
            _ => false,
        }
    }

    /// Is the value a boolean?
    pub fn is_boolean(&self) -> (r: bool)
        ensures
            r == (self@ is Bool),
    {
        match self {
            Json::Bool(_) => true,
            _ => false,
        }
    }

    /// Is the value an array?
    pub fn is_array(&self) -> (r: bool)
        ensures
            r == (self@ is Arr),
    {
        match self {
            Json::Array(_) => true,
            _ => false,
        }
    }

    /// The string inside, if the value is a string.
    pub fn as_str(&self) -> (r: Option<&str>)
        ensures
            r is Some == (self@ is Str),
            r matches Some(s) ==> jstr(self@) == Some(s@),
    {
        match self {
            Json::String(s) => Some(s.as_str()),
            _ => None,
        }
    }

    /// The value as an unsigned integer, if it is one in range.
    pub fn as_u64(&self) -> (r: Option<u64>)
        ensures
            r == ju64(self@),
    {
        match self {
            Json::Number(n) => n.as_u64(),
            _ => None,
        }
    }

    /// The elements, if the value is an array.
    pub fn as_array(&self) -> (r: Option<&Vec<Json>>)
        ensures
            r is Some == (self@ is Arr),
            r matches Some(v) ==> v@.len() == self@->Arr_0.len() && forall|i: int|
                0 <= i < v@.len() ==> #[trigger] v@[i]@ == self@->Arr_0[i],
    {
        match self {
            Json::Array(v) => Some(v),
            _ => None,
        }
    }

    /// The entries, if the value is an object.
    pub fn as_object(&self) -> (r: Option<&JsonMap>)
        ensures
            r is Some == (self@ is Obj),
            r matches Some(m) ==> m@ == self@->Obj_0,
    {
        match self {
            Json::Object(m) => Some(m),
            _ => None,
        }
    }

    /// The value under a key, if this is an object holding it.
    pub fn get(&self, k: &str) -> (r: Option<&Json>)
        ensures
            r is None ==> jget(self@, k@) is None,
            r matches Some(v) ==> jget(self@, k@) == Some(v@),
    {
        match self {
            Json::Object(m) => m.get(k),
            _ => None,
        }
    }

    /// The element at an index, if this is an array that long.
    pub fn get_index(&self, i: usize) -> (r: Option<&Json>)
        ensures
            r is None ==> jindex(self@, i as int) is None,
            r matches Some(v) ==> jindex(self@, i as int) == Some(v@),
    {
        match self {
            Json::Array(v) => if i < v.len() {
                Some(&v[i])
            } else {
                None
            },
            _ => None,
        }
    }

    /// Removes the entry with key `k` if this is an object holding one,
    /// giving back its value; other values are left alone.
    pub fn remove_key(&mut self, k: &str) -> (r: Option<Json>)
        ensures
            final(self)@ == match old(self)@ {
                JsonV::Obj(s) => JsonV::Obj(obj_remove(s, k@)),
                other => other,
            },
            match r {
                Some(v) => jget(old(self)@, k@) == Some(v@),
                None => jget(old(self)@, k@) is None,
            },
    {
        match self {
            Json::Object(m) => m.remove(k),
            _ => None,
        }
    }

    /// Puts `v` under key `k` if this is an object; other values are left alone.
    pub fn insert_key(&mut self, k: String, v: Json)
        ensures
            final(self)@ == match old(self)@ {
                JsonV::Obj(s) => JsonV::Obj(obj_insert(s, k@, v@)),
                other => other,
            },
    {
        match self {
            Json::Object(m) => {
                m.insert(k, v);
            },
            _ => {},
        }
    }
}

/// Are two numbers equal as serde_json compares them? Integers by value,
/// two fractional numbers by their `f64` values, an integer never equal to
/// a fractional number.
pub open spec fn num_eq(x: NumV, y: NumV) -> bool {
    match (x, y) {
        (NumV::Float(_), NumV::Float(_)) => f64_order(x, y) == NumOrder::Equal,
        _ => x == y,
    }
}

/// Are two JSON values equal as serde_json compares them: the same shape,
/// numbers by `num_eq`, objects entry by entry in key order.
pub open spec fn json_eq(a: JsonV, b: JsonV) -> bool
    decreases a,
{
    match (a, b) {
        (JsonV::Null, JsonV::Null) => true,
        (JsonV::Bool(x), JsonV::Bool(y)) => x == y,
        (JsonV::Num(x), JsonV::Num(y)) => num_eq(x, y),
        (JsonV::Str(x), JsonV::Str(y)) => x == y,
        (JsonV::Arr(x), JsonV::Arr(y)) => x.len() == y.len() && forall|i: int|
            0 <= i < x.len() ==> json_eq(#[trigger] x[i], y[i]),
        (JsonV::Obj(x), JsonV::Obj(y)) => x.len() == y.len() && forall|i: int|
            #![trigger x[i]]
            0 <= i < x.len() ==> x[i].0 == y[i].0 && json_eq(x[i].1, y[i].1),
        _ => false,
    }
}

/// Are two JSON values equal, as serde_json compares them?
#[verifier::loop_isolation(false)]
pub fn json_equal(a: &Json, b: &Json) -> (r: bool)
    ensures
        r == json_eq(a@, b@),
    decreases a,
{
    match (a, b) {
        (Json::Null, Json::Null) => true,
        (Json::Bool(x), Json::Bool(y)) => *x == *y,
        (Json::Number(x), Json::Number(y)) => x.equals(y),
        (Json::String(x), Json::String(y)) => string_eq(x.as_str(), y.as_str()),
        (Json::Array(x), Json::Array(y)) => {
            let ghost av = a@->Arr_0;
            let ghost bv = b@->Arr_0;
            if x.len() != y.len() {
                assert(av.len() != bv.len());
                return false;
            }
            let n = x.len();
            let mut i: usize = 0;
            while i < n
                invariant
                    n == x@.len(),
                    n == y@.len(),
                    av.len() == n,
                    bv.len() == n,
                    i <= n,
                    forall|j: int| 0 <= j < i ==> json_eq(#[trigger] av[j], bv[j]),
                decreases n - i,
            {
                let e = json_equal(&x[i], &y[i]);
                assert(av[i as int] == json_view(x@[i as int]));
                assert(bv[i as int] == json_view(y@[i as int]));
                if !e {
                    return false;
                }
                i = i + 1;
            }
            true
        },
        (Json::Object(x), Json::Object(y)) => {
            let ghost xv = x@;
            let ghost yv = y@;
            if x.entries.len() != y.entries.len() {
                assert(xv.len() != yv.len());
                return false;
            }
            let n = x.entries.len();
            let mut i: usize = 0;
            while i < n
                invariant
                    n == x.entries@.len(),
                    n == y.entries@.len(),
                    xv == x@,
                    yv == y@,
                    xv.len() == n,
                    yv.len() == n,
                    i <= n,
                    forall|j: int|
                        #![trigger xv[j]]
                        0 <= j < i ==> xv[j].0 == yv[j].0 && json_eq(xv[j].1, yv[j].1),
                decreases n - i,
            {
                assert(xv[i as int] == (x.entries@[i as int].0@, json_view(x.entries@[i as int].1)));
                assert(yv[i as int] == (y.entries@[i as int].0@, json_view(y.entries@[i as int].1)));
                let ke = string_eq(x.entries[i].0.as_str(), y.entries[i].0.as_str());
                if !ke {
                    assert(!(xv[i as int].0 == yv[i as int].0 && json_eq(xv[i as int].1, yv[i as int].1)));
                    assert(a@ == JsonV::Obj(xv) && b@ == JsonV::Obj(yv));
                    return false;
                }
                let ve = json_equal(&x.entries[i].1, &y.entries[i].1);
                assert(ve == json_eq(xv[i as int].1, yv[i as int].1));
                if !ve {
                    assert(!(xv[i as int].0 == yv[i as int].0 && json_eq(xv[i as int].1, yv[i as int].1)));
                    assert(a@ == JsonV::Obj(xv) && b@ == JsonV::Obj(yv));
                    return false;
                }
                assert(xv[i as int].0 == yv[i as int].0 && json_eq(xv[i as int].1, yv[i as int].1));
                i = i + 1;
            }
            assert(a@ == JsonV::Obj(xv) && b@ == JsonV::Obj(yv));
            true
        },
        _ => false,
    }
}

/// The declared JSON value type of serde_json, used only to render text.
#[verifier::external_type_specification]
#[verifier::external_body]
pub struct ExSerdeValue(serde_json::Value);

/// The compact JSON text of a value, as serde_json writes it.
pub uninterp spec fn json_text(v: JsonV) -> Seq<char>;

/// `serde_json::Value::Null`.
#[verifier::external_body]
fn serde_null() -> serde_json::Value {
    serde_json::Value::Null
}

/// `serde_json::Value::Bool`.
#[verifier::external_body]
fn serde_bool(b: bool) -> serde_json::Value {
    serde_json::Value::Bool(b)
}

/// `From<u64>` for `serde_json::Value`.
#[verifier::external_body]
fn serde_u64(u: u64) -> serde_json::Value {
    serde_json::Value::from(u)
}

/// `From<i64>` for `serde_json::Value`.
#[verifier::external_body]
fn serde_i64(i: i64) -> serde_json::Value {
    serde_json::Value::from(i)
}

/// `serde_json::from_str` on the text of a number; a text it does not read
/// gives `Null`.
#[verifier::external_body]
fn serde_number_text(t: &str) -> serde_json::Value {
    serde_json::from_str(t).unwrap_or(serde_json::Value::Null)
}

/// `From<&str>` for `serde_json::Value`.
#[verifier::external_body]
fn serde_string(s: &str) -> serde_json::Value {
    serde_json::Value::from(s)
}

/// `serde_json::Value::Array`.
#[verifier::external_body]
fn serde_array(items: Vec<serde_json::Value>) -> serde_json::Value {
    serde_json::Value::Array(items)
}

/// An object of serde_json from its keys and values, taken pairwise
/// (`FromIterator` of key and value pairs).
#[verifier::external_body]
fn serde_object(keys: Vec<String>, values: Vec<serde_json::Value>) -> serde_json::Value {
    keys.into_iter().zip(values).collect()
}

/// The same value as a serde_json value: object keys in the same order, a
/// fractional number read from its text.
#[verifier::loop_isolation(false)]
pub(crate) fn to_serde(v: &Json) -> serde_json::Value
    decreases v,
{
    match v {
        Json::Null => serde_null(),
        Json::Bool(b) => serde_bool(*b),
        Json::Number(JsonNumber::PosInt(u)) => serde_u64(*u),
        Json::Number(JsonNumber::NegInt(i)) => serde_i64(*i),
        Json::Number(JsonNumber::Float(t)) => serde_number_text(t.as_str()),
        Json::String(s) => serde_string(s.as_str()),
        Json::Array(a) => {
            let mut items: Vec<serde_json::Value> = Vec::new();
            let n = a.len();
            let mut i: usize = 0;
            while i < n
                invariant
                    n == a@.len(),
                    i <= n,
                decreases n - i,
            {
                items.push(to_serde(&a[i]));
                i = i + 1;
            }
            serde_array(items)
        },
        Json::Object(m) => {
            let mut keys: Vec<String> = Vec::new();
            let mut values: Vec<serde_json::Value> = Vec::new();
            let n = m.entries.len();
            let mut i: usize = 0;
            while i < n
                invariant
                    n == m.entries@.len(),
                    i <= n,
                decreases n - i,
            {
                keys.push(m.entries[i].0.clone());
                values.push(to_serde(&m.entries[i].1));
                i = i + 1;
            }
            serde_object(keys, values)
        },
    }
}

/// `serde_json::Value::is_null`.
#[verifier::external_body]
fn serde_is_null(v: &serde_json::Value) -> bool {
    v.is_null()
}

/// `serde_json::Value::as_bool`.
#[verifier::external_body]
fn serde_as_bool(v: &serde_json::Value) -> Option<bool> {
    v.as_bool()
}

/// `serde_json::Value::is_number`.
#[verifier::external_body]
fn serde_is_number(v: &serde_json::Value) -> bool {
    v.is_number()
}

/// `serde_json::Value::as_u64`.
#[verifier::external_body]
fn serde_as_u64(v: &serde_json::Value) -> Option<u64> {
    v.as_u64()
}

/// `serde_json::Value::as_i64`.
#[verifier::external_body]
fn serde_as_i64(v: &serde_json::Value) -> Option<i64> {
    v.as_i64()
}

/// `serde_json::Value`'s `Display`, used for the text of a number.
#[verifier::external_body]
fn serde_text(v: &serde_json::Value) -> String {
    v.to_string()
}

/// `serde_json::Value::as_str`, the text copied.
#[verifier::external_body]
fn serde_as_str(v: &serde_json::Value) -> Option<String> {
    v.as_str().map(|t| t.to_owned())
}

/// `serde_json::Value::as_array`, the items copied.
#[verifier::external_body]
fn serde_as_array(v: &serde_json::Value) -> Option<Vec<serde_json::Value>> {
    v.as_array().cloned()
}

/// `serde_json::Value::as_object`, the entries copied in key order.
#[verifier::external_body]
fn serde_as_object(v: &serde_json::Value) -> Option<Vec<(String, serde_json::Value)>> {
    v.as_object().map(|m| m.iter().map(|(k, x)| (k.clone(), x.clone())).collect())
}

/// The library's form of a serde_json value, read through nesting `depth`
/// deep (deeper values read as `Null`; values that serde_json parses are
/// at most 128 deep): integers as integers, other numbers by their text.
pub(crate) fn from_serde(v: &serde_json::Value, depth: u32) -> Json
    decreases depth,
{
    if depth == 0 || serde_is_null(v) {
        return Json::Null;
    }
    match serde_as_bool(v) {
        Some(b) => return Json::Bool(b),
        None => {},
    }
    if serde_is_number(v) {
        return match serde_as_u64(v) {
            Some(u) => Json::Number(JsonNumber::PosInt(u)),
            None => match serde_as_i64(v) {
                Some(i) => Json::Number(JsonNumber::NegInt(i)),
                None => Json::Number(JsonNumber::Float(serde_text(v))),
            },
        };
    }
    match serde_as_str(v) {
        Some(t) => return Json::String(t),
        None => {},
    }
    match serde_as_array(v) {
        Some(items) => {
            let mut out: Vec<Json> = Vec::new();
            let n = items.len();
            let mut i: usize = 0;
            while i < n
                invariant
                    n == items@.len(),
                    i <= n,
                    depth > 0,
                decreases n - i,
            {
                out.push(from_serde(&items[i], depth - 1));
                i = i + 1;
            }
            return Json::Array(out);
        },
        None => {},
    }
    match serde_as_object(v) {
        Some(entries) => {
            let mut m = JsonMap::new();
            let n = entries.len();
            let mut i: usize = 0;
            while i < n
                invariant
                    n == entries@.len(),
                    i <= n,
                    depth > 0,
                decreases n - i,
            {
                let x = from_serde(&entries[i].1, depth - 1);
                m.insert(entries[i].0.clone(), x);
                i = i + 1;
            }
            Json::Object(m)
        },
        None => Json::Null,
    }
}

/// `serde_json::Value`'s `Display` on the value converted by `to_serde`:
/// its compact JSON text. The text itself is named, not stated.
#[verifier::external_body]
pub(crate) fn to_json_text(v: &Json) -> (s: String)
    ensures
        s@ == json_text(v@),
{
    to_serde(v).to_string()
}

/// The order of two numbers after both are converted to `f64`.
#[derive(Debug, Clone, Copy, PartialEq, Eq, Structural)]
pub enum NumOrder {
    Less,
    Equal,
    Greater,
    Unordered,
}

/// The largest integer up to which every integer is exactly an `f64`.
pub open spec fn f64_exact_bound() -> int {
    0x20_0000_0000_0000
}

/// An integer that `f64` holds exactly.
pub open spec fn exact_in_f64(n: NumV) -> bool {
    n is Int && -f64_exact_bound() <= n->Int_0 <= f64_exact_bound()
}

/// The order of two integers.
pub open spec fn int_order(x: int, y: int) -> NumOrder {
    if x < y {
        NumOrder::Less
    } else if x > y {
        NumOrder::Greater
    } else {
        NumOrder::Equal
    }
}

/// The order of an integer number and a machine integer.
pub open spec fn order_with_int(a: NumV, n: i64) -> NumOrder {
    int_order(a->Int_0, n as int)
}

/// How two numbers compare as `f64` values (`Unordered` when one of them
/// has no `f64` value).
pub uninterp spec fn f64_order(a: NumV, b: NumV) -> NumOrder;

/// How a number compares, as `f64`, with the `f64` that a text parses to
/// (`None` when the text is no `f64`).
pub uninterp spec fn f64_text_order(a: NumV, t: Seq<char>) -> Option<NumOrder>;

/// Compares two numbers as serde_json's `Number::as_f64` gives them, with
/// `partial_cmp`. The order is named; for integers that `f64` holds exactly
/// it is their order.
#[verifier::external_body]
pub(crate) fn order_as_f64(a: &JsonNumber, b: &JsonNumber) -> (r: NumOrder)
    ensures
        r == f64_order(a@, b@),
        exact_in_f64(a@) && exact_in_f64(b@) ==> r == int_order(a@->Int_0, b@->Int_0),
{
    let f = |n: &JsonNumber| match n {
        JsonNumber::PosInt(u) => serde_json::Number::from(*u).as_f64(),
        JsonNumber::NegInt(i) => serde_json::Number::from(*i).as_f64(),
        JsonNumber::Float(t) => t.parse::<serde_json::Number>().ok()?.as_f64(),
    };
    match (f(a), f(b)) {
        (Some(x), Some(y)) => match x.partial_cmp(&y) {
            Some(std::cmp::Ordering::Less) => NumOrder::Less,
            Some(std::cmp::Ordering::Equal) => NumOrder::Equal,
            Some(std::cmp::Ordering::Greater) => NumOrder::Greater,
            None => NumOrder::Unordered,
        },
        _ => NumOrder::Unordered,
    }
}

/// Compares a number, as `Number::as_f64` gives it, with the `f64` that
/// `str::parse` reads from a text (`None` when the text is no number). The
/// order is named; for an integer and the text of an integer, both of which
/// `f64` holds exactly, it is their order.
#[verifier::external_body]
pub(crate) fn order_with_text(a: &JsonNumber, t: &str) -> (r: Option<NumOrder>)
    ensures
        r == f64_text_order(a@, t@),
        (parse_i64(t@) matches Some(n) && exact_in_f64(a@) && -f64_exact_bound() <= n
            <= f64_exact_bound()) ==> r == Some(order_with_int(a@, parse_i64(t@)->0)),
{
    let x = match a {
        JsonNumber::PosInt(u) => serde_json::Number::from(*u).as_f64(),
        JsonNumber::NegInt(i) => serde_json::Number::from(*i).as_f64(),
        JsonNumber::Float(s) => s.parse::<serde_json::Number>().ok().and_then(|m| m.as_f64()),
    };
    let y = t.parse().ok()?;
    Some(match x.and_then(|x| x.partial_cmp(&y)) {
        Some(std::cmp::Ordering::Less) => NumOrder::Less,
        Some(std::cmp::Ordering::Equal) => NumOrder::Equal,
        Some(std::cmp::Ordering::Greater) => NumOrder::Greater,
        None => NumOrder::Unordered,
    })
}

} // verus!
