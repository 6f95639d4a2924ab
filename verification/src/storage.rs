//! The decisions of the stores: page bounds of listings, which template
//! listing to run, the summary of a run's stored data, how usage logs name
//! brick types and which logs a query selects, and when a schedule is saved.
use vstd::prelude::*;
use crate::json::string_eq;
use crate::types::BrickType;

verus! {

// ---------------------------------------------------------------------------
// Listings.

/// The limit and offset of a listing: at most 1000 rows, 100 when no limit
/// is given, from offset 0 when none is given.
pub fn page_bounds(limit: Option<u32>, offset: Option<u32>) -> (r: (i64, i64))
    ensures
        r.0 == match limit {
            Some(l) => if l < 1000 {
                l as int
            } else {
                1000
            },
            None => 100,
        },
        r.1 == match offset {
            Some(o) => o as int,
            None => 0,
        },
{
    let l: u32 = match limit {
        Some(l) => if l < 1000 {
            l
        } else {
            1000
        },
        None => 100,
    };
    let o: u32 = match offset {
        Some(o) => o,
        None => 0,
    };
    (l as i64, o as i64)
}

/// Which templates a listing selects.
#[derive(Debug, Clone, Copy, PartialEq, Eq, Structural)]
pub enum TemplateQuery {
    /// One category, system templates first.
    CategoryWithSystem,
    /// One category, without system templates.
    CategoryOnly,
    /// Every category, system templates first.
    AllWithSystem,
    /// Every category, without system templates.
    AllWithoutSystem,
}

/// The listing for a category filter and whether system templates count.
pub fn template_query(category: Option<&str>, include_system: bool) -> (q: TemplateQuery)
    ensures
        q == match (category, include_system) {
            (Some(_), true) => TemplateQuery::CategoryWithSystem,
            (Some(_), false) => TemplateQuery::CategoryOnly,
            (None, true) => TemplateQuery::AllWithSystem,
            (None, false) => TemplateQuery::AllWithoutSystem,
        },
{
    match (category, include_system) {
        (Some(_), true) => TemplateQuery::CategoryWithSystem,
        (Some(_), false) => TemplateQuery::CategoryOnly,
        (None, true) => TemplateQuery::AllWithSystem,
        (None, false) => TemplateQuery::AllWithoutSystem,
    }
}

// ---------------------------------------------------------------------------
// The summary of a run's stored data.

/// How much data a run stored: in all, fetched, intermediate, and per brick type.
#[derive(Debug)]
pub struct ExecutionDataSummary {
    pub total_records: u32,
    pub fetched_count: u32,
    pub intermediate_count: u32,
    pub brick_data_count: Vec<(String, u32)>,
}

/// The counts per brick type of some rows; a later row for a type wins.
pub open spec fn counts_of(rows: Seq<(Seq<char>, i64)>) -> Map<Seq<char>, u32>
    decreases rows.len(),
{
    if rows.len() == 0 {
        Map::empty()
    } else {
        counts_of(rows.drop_last()).insert(rows.last().0, rows.last().1 as u32)
    }
}

/// The counts per brick type that a list of entries holds; a later entry wins.
pub open spec fn entries_map(s: Seq<(String, u32)>) -> Map<Seq<char>, u32>
    decreases s.len(),
{
    if s.len() == 0 {
        Map::empty()
    } else {
        entries_map(s.drop_last()).insert(s.last().0@, s.last().1)
    }
}

impl ExecutionDataSummary {
    /// The counts per brick type.
    pub open spec fn per_brick(&self) -> Map<Seq<char>, u32> {
        entries_map(self.brick_data_count@)
    }
}

/// The views of rows of a brick type and a count.
pub open spec fn rows_view(rows: Seq<(String, i64)>) -> Seq<(Seq<char>, i64)> {
    Seq::new(rows.len(), |i: int| (rows[i].0@, rows[i].1))
}

/// Replacing the count of a type already listed gives the same map as
/// adding a later entry for it.
proof fn lemma_entries_update(s: Seq<(String, u32)>, i: int, k: String, v: u32)
    requires
        0 <= i < s.len(),
        s[i].0@ == k@,
        forall|j: int| 0 <= j < s.len() && j != i ==> s[j].0@ != k@,
    ensures
        entries_map(s.update(i, (k, v))) == entries_map(s).insert(k@, v),
    decreases s.len(),
{
    let t = s.update(i, (k, v));
    if i == s.len() - 1 {
        assert(t.drop_last() =~= s.drop_last());
        assert(entries_map(s).insert(k@, v) =~= entries_map(s.drop_last()).insert(k@, v));
    } else {
        assert(t.drop_last() =~= s.drop_last().update(i, (k, v)));
        lemma_entries_update(s.drop_last(), i, k, v);
        assert(s.last().0@ != k@);
        assert(entries_map(t) =~= entries_map(s).insert(k@, v));
    }
}

/// Without an entry for `k`, the map has no count for it.
proof fn lemma_entries_absent(s: Seq<(String, u32)>, k: Seq<char>)
    requires
        forall|j: int| 0 <= j < s.len() ==> s[j].0@ != k,
    ensures
        !entries_map(s).contains_key(k),
    decreases s.len(),
{
    if s.len() > 0 {
        lemma_entries_absent(s.drop_last(), k);
    }
}

/// The summary of a run's stored data from the counts the store gives:
/// missing counts are zero and counts are read as `u32`.
pub fn summarize(
    total: i64,
    fetched: Option<i64>,
    intermediate: Option<i64>,
    rows: &Vec<(String, i64)>,
) -> (s: ExecutionDataSummary)
    ensures
        s.total_records == total as u32,
        s.fetched_count == match fetched {
            Some(c) => c as u32,
            None => 0u32,
        },
        s.intermediate_count == match intermediate {
            Some(c) => c as u32,
            None => 0u32,
        },
        s.per_brick() == counts_of(rows_view(rows@)),
{
    let ghost rv = rows_view(rows@);
    let mut entries: Vec<(String, u32)> = Vec::new();
    let n = rows.len();
    let mut i: usize = 0;
    assert(rv.take(0) =~= Seq::<(Seq<char>, i64)>::empty());
    while i < n
        invariant
            n == rows@.len(),
            rv == rows_view(rows@),
            i <= n,
            entries_map(entries@) == counts_of(rv.take(i as int)),
            forall|a: int, b: int|
                0 <= a < b < entries@.len() ==> #[trigger] entries@[a].0@ != #[trigger] entries@[b].0@,
        decreases n - i,
    {
        proof {
            assert(rv.take(i + 1).drop_last() =~= rv.take(i as int));
            assert(rv.take(i + 1).last() == rv[i as int]);
        }
        let key = rows[i].0.clone();
        let count = rows[i].1 as u32;
        let m = entries.len();
        let mut k: usize = 0;
        while k < m && !string_eq(entries[k].0.as_str(), key.as_str())
            invariant
                m == entries@.len(),
                k <= m,
                forall|j: int| 0 <= j < k ==> entries@[j].0@ != key@,
            decreases m - k,
        {
            k = k + 1;
        }
        let ghost before = entries@;
        if k < m {
            proof {
                assert forall|j: int| 0 <= j < before.len() && j != k implies before[j].0@ != key@ by {
                    if j > k {
                        assert(before[k as int].0@ != before[j].0@);
                    }
                }
                lemma_entries_update(before, k as int, key, count);
            }
            entries.set(k, (key, count));
            assert forall|a: int, b: int|
                0 <= a < b < entries@.len() implies #[trigger] entries@[a].0@ != #[trigger] entries@[b].0@ by {
                assert(before[a].0@ != before[b].0@);
            }
        } else {
            let ghost kv = key@;
            entries.push((key, count));
            proof {
                assert(entries@.drop_last() =~= before);
                assert forall|a: int, b: int|
                    0 <= a < b < entries@.len() implies #[trigger] entries@[a].0@ != #[trigger] entries@[b].0@ by {
                    if b == entries@.len() - 1 {
                        assert(before[a].0@ != kv);
                    } else {
                        assert(before[a].0@ != before[b].0@);
                    }
                }
            }
        }
        i = i + 1;
    }
    assert(rv.take(n as int) =~= rv);
    let fetched_count: u32 = match fetched {
        Some(c) => c as u32,
        None => 0,
    };
    let intermediate_count: u32 = match intermediate {
        Some(c) => c as u32,
        None => 0,
    };
    ExecutionDataSummary {
        total_records: total as u32,
        fetched_count,
        intermediate_count,
        brick_data_count: entries,
    }
}

// ---------------------------------------------------------------------------
// Usage logs.

/// How usage logs name a brick type: its name in lower case.
pub open spec fn log_name(t: BrickType) -> Seq<char> {
    match t {
        BrickType::OpenAi => "openai"@,
        BrickType::Nvidia => "nvidia"@,
        BrickType::HubSpot => "hubspot"@,
        BrickType::Notion => "notion"@,
        BrickType::Odoo => "odoo"@,
        BrickType::N8n => "n8n"@,
        BrickType::FieldMapping => "fieldmapping"@,
        BrickType::CombineText => "combinetext"@,
        BrickType::Conditional => "conditional"@,
        BrickType::RulesEngine => "rulesengine"@,
    }
}

/// How usage logs name a brick type.
pub fn brick_log_name(brick_type: &BrickType) -> (s: &'static str)
    ensures
        s@ == log_name(*brick_type),
{
    match brick_type {
        BrickType::OpenAi => "openai",
        BrickType::Nvidia => "nvidia",
        BrickType::HubSpot => "hubspot",
        BrickType::Notion => "notion",
        BrickType::Odoo => "odoo",
        BrickType::N8n => "n8n",
        BrickType::FieldMapping => "fieldmapping",
        BrickType::CombineText => "combinetext",
        BrickType::Conditional => "conditional",
        BrickType::RulesEngine => "rulesengine",
    }
}

/// The positions, in order, of the texts equal to `key`.
pub open spec fn positions_of(texts: Seq<Seq<char>>, key: Seq<char>) -> Seq<int>
    decreases texts.len(),
{
    if texts.len() == 0 {
        Seq::empty()
    } else if texts.last() == key {
        positions_of(texts.drop_last(), key).push(texts.len() - 1)
    } else {
        positions_of(texts.drop_last(), key)
    }
}

/// The views of texts.
pub open spec fn texts_view(v: Seq<String>) -> Seq<Seq<char>> {
    Seq::new(v.len(), |i: int| v[i]@)
}

/// The positions, in order, of the texts equal to `key`.
pub fn positions_equal(texts: &Vec<String>, key: &str) -> (r: Vec<usize>)
    ensures
        r@.len() == positions_of(texts_view(texts@), key@).len(),
        forall|i: int| 0 <= i < r@.len() ==> r@[i] as int == #[trigger] positions_of(texts_view(texts@), key@)[i],
{
    let ghost tv = texts_view(texts@);
    let mut out: Vec<usize> = Vec::new();
    let n = texts.len();
    let mut i: usize = 0;
    assert(tv.take(0) =~= Seq::<Seq<char>>::empty());
    while i < n
        invariant
            n == texts@.len(),
            tv == texts_view(texts@),
            i <= n,
            out@.len() == positions_of(tv.take(i as int), key@).len(),
            forall|j: int| 0 <= j < out@.len() ==> out@[j] as int == #[trigger] positions_of(tv.take(i as int), key@)[j],
        decreases n - i,
    {
        proof {
            assert(tv.take(i + 1).drop_last() =~= tv.take(i as int));
            assert(tv.take(i + 1).last() == texts@[i as int]@);
        }
        if string_eq(texts[i].as_str(), key) {
            out.push(i);
        }
        i = i + 1;
    }
    assert(tv.take(n as int) =~= tv);
    out
}

/// How many logs name the brick type and fall on `today` (days are counted
/// the same way for both).
pub open spec fn daily_count(names: Seq<Seq<char>>, days: Seq<i32>, today: i32, t: BrickType) -> nat
    decreases names.len(),
{
    if names.len() == 0 || days.len() == 0 {
        0
    } else {
        daily_count(names.drop_last(), days.drop_last(), today, t) + if names.last() == log_name(t)
            && days.last() == today {
            1nat
        } else {
            0nat
        }
    }
}

/// How many logs name the brick type and fall on `today`.
pub fn count_daily(names: &Vec<String>, days: &Vec<i32>, today: i32, brick_type: &BrickType) -> (r: u64)
    requires
        names@.len() == days@.len(),
    ensures
        r == daily_count(texts_view(names@), days@, today, *brick_type),
{
    let ghost nv = texts_view(names@);
    let name = brick_log_name(brick_type);
    let mut count: u64 = 0;
    let n = names.len();
    let mut i: usize = 0;
    assert(nv.take(0) =~= Seq::<Seq<char>>::empty());
    while i < n
        invariant
            n == names@.len(),
            n == days@.len(),
            nv == texts_view(names@),
            name@ == log_name(*brick_type),
            i <= n,
            count == daily_count(nv.take(i as int), days@.take(i as int), today, *brick_type),
            count <= i,
        decreases n - i,
    {
        proof {
            assert(nv.take(i + 1).drop_last() =~= nv.take(i as int));
            assert(days@.take(i + 1).drop_last() =~= days@.take(i as int));
            assert(nv.take(i + 1).last() == names@[i as int]@);
            assert(days@.take(i + 1).last() == days@[i as int]);
        }
        if days[i] == today && string_eq(names[i].as_str(), name) {
            count = count + 1;
        }
        i = i + 1;
    }
    assert(nv.take(n as int) =~= nv);
    assert(days@.take(n as int) =~= days@);
    count
}

// ---------------------------------------------------------------------------
// Schedules.

/// What saving a schedule does to the stored schedules.
#[derive(Debug, Clone, Copy, PartialEq, Eq, Structural)]
pub enum SchedulePersist {
    /// No schedule is stored for the flow: store one.
    Create,
    /// A different expression is stored: replace it.
    Update,
    /// The same expression is stored: leave it.
    Keep,
}

/// What saving a schedule with `cron_expr` does, given the expression
/// stored for the flow, if any.
pub open spec fn persist_spec(existing: Option<Seq<char>>, cron_expr: Seq<char>) -> SchedulePersist {
    match existing {
        None => SchedulePersist::Create,
        Some(e) => if e == cron_expr {
            SchedulePersist::Keep
        } else {
            SchedulePersist::Update
        },
    }
}

/// The expression stored for the flow after saving `cron_expr`.
pub open spec fn stored_after(existing: Option<Seq<char>>, cron_expr: Seq<char>) -> Option<Seq<char>> {
    match persist_spec(existing, cron_expr) {
        SchedulePersist::Keep => existing,
        _ => Some(cron_expr),
    }
}

/// What saving a schedule with `cron_expr` does, given the expression
/// stored for the flow, if any.
pub fn persist_action(existing: Option<&str>, cron_expr: &str) -> (a: SchedulePersist)
    ensures
        a == persist_spec(
            match existing {
                Some(e) => Some(e@),
                None => None,
            },
            cron_expr@,
        ),
{
    match existing {
        None => SchedulePersist::Create,
        Some(e) => if string_eq(e, cron_expr) {
            SchedulePersist::Keep
        } else {
            SchedulePersist::Update
        },
    }
}

// ---------------------------------------------------------------------------
// Laws.

/// After a schedule is saved the stored expression is the one saved, and
/// saving the same expression again changes nothing.
pub proof fn lemma_persist_idempotent(existing: Option<Seq<char>>, cron_expr: Seq<char>)
    ensures
        stored_after(existing, cron_expr) == Some(cron_expr),
        persist_spec(stored_after(existing, cron_expr), cron_expr) == SchedulePersist::Keep,
{
}

/// A listing never asks for more than 1000 rows.
pub proof fn lemma_page_bound(limit: Option<u32>)
    ensures
        (match limit {
            Some(l) => if l < 1000 {
                l as int
            } else {
                1000
            },
            None => 100,
        }) <= 1000,
{
}

} // verus!
