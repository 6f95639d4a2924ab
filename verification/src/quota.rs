//! Quotas: the daily and monthly limits of each brick type, and the check
//! that a brick may run.
use vstd::prelude::*;
use std::collections::HashMap;
use crate::types::{BrickType, Quota, brick_type_name};
use crate::text::{decimal, u64_text, concat, concat3};

verus! {

/// Why a quota refused a run or could not be read.
#[derive(Debug)]
pub enum QuotaError {
    Exceeded(String),
    NotFound(String),
    DatabaseError(String),
}

/// The mathematical value of a quota error.
pub enum QuotaErr {
    Exceeded(Seq<char>),
    NotFound(Seq<char>),
    DatabaseError(Seq<char>),
}

impl View for QuotaError {
    type V = QuotaErr;

    open spec fn view(&self) -> QuotaErr {
        match self {
            QuotaError::Exceeded(s) => QuotaErr::Exceeded(s@),
            QuotaError::NotFound(s) => QuotaErr::NotFound(s@),
            QuotaError::DatabaseError(s) => QuotaErr::DatabaseError(s@),
        }
    }
}

/// The text of a quota error.
pub open spec fn quota_err_text(e: QuotaErr) -> Seq<char> {
    match e {
        QuotaErr::Exceeded(s) => "Quota exceeded: "@ + s,
        QuotaErr::NotFound(s) => "Quota not found: "@ + s,
        QuotaErr::DatabaseError(s) => "Database error: "@ + s,
    }
}

impl QuotaError {
    /// The text of the error.
    pub fn message(&self) -> (s: String)
        ensures
            s@ == quota_err_text(self@),
    {
        match self {
            QuotaError::Exceeded(s) => concat("Quota exceeded: ", s.as_str()),
            QuotaError::NotFound(s) => concat("Quota not found: ", s.as_str()),
            QuotaError::DatabaseError(s) => concat("Database error: ", s.as_str()),
        }
    }
}

/// The mathematical value of a quota check.
pub open spec fn unit_qres(r: Result<(), QuotaError>) -> Result<(), QuotaErr> {
    match r {
        Ok(()) => Ok(()),
        Err(e) => Err(e@),
    }
}

/// The daily and monthly limits that a brick type starts with.
pub open spec fn default_limits_of(t: BrickType) -> (u64, Option<u64>) {
    match t {
        BrickType::OpenAi => (200, Some(5000)),
        BrickType::Nvidia => (1000, Some(25000)),
        _ => (1000, Some(10000)),
    }
}

/// The daily and monthly limits that a brick type starts with.
pub fn default_limits(brick_type: &BrickType) -> (r: (u64, Option<u64>))
    ensures
        r == default_limits_of(*brick_type),
{
    match brick_type {
        BrickType::OpenAi => (200, Some(5000)),
        BrickType::Nvidia => (1000, Some(25000)),
        _ => (1000, Some(10000)),
    }
}

/// The quota that a brick type starts with: default limits, no usage.
pub open spec fn fresh_quota(t: BrickType) -> Quota {
    Quota {
        brick_type: t,
        daily_limit: default_limits_of(t).0,
        monthly_limit: default_limits_of(t).1,
        current_daily_usage: 0,
        current_monthly_usage: Some(0),
    }
}

/// Which limit a quota has reached, the daily one first.
pub enum LimitReached {
    Daily(u64),
    Monthly(u64),
}

/// The limit that a quota has reached, if any: the daily one when the day's
/// usage has reached it, else the monthly one when both it and the month's
/// usage are known and the usage has reached it.
pub open spec fn reached(q: Quota) -> Option<LimitReached> {
    if q.current_daily_usage >= q.daily_limit {
        Some(LimitReached::Daily(q.daily_limit))
    } else {
        match (q.monthly_limit, q.current_monthly_usage) {
            (Some(m), Some(c)) => if c >= m {
                Some(LimitReached::Monthly(m))
            } else {
                None
            },
            _ => None,
        }
    }
}

/// The outcome of checking a quota that was found.
pub open spec fn quota_verdict(q: Quota) -> Result<(), QuotaErr> {
    match reached(q) {
        None => Ok(()),
        Some(LimitReached::Daily(n)) => Err(
            QuotaErr::Exceeded("Daily limit of "@ + decimal(n as nat) + " exceeded"@),
        ),
        Some(LimitReached::Monthly(n)) => Err(
            QuotaErr::Exceeded("Monthly limit of "@ + decimal(n as nat) + " exceeded"@),
        ),
    }
}

/// The error of a brick type without a quota.
pub open spec fn not_found_err(t: BrickType) -> QuotaErr {
    QuotaErr::NotFound("Quota not found for "@ + brick_type_name(t))
}

/// Checks a quota against its limits.
pub fn check_limits(quota: &Quota) -> (r: Result<(), QuotaError>)
    ensures
        unit_qres(r) == quota_verdict(*quota),
{
    if quota.current_daily_usage >= quota.daily_limit {
        let n = u64_text(quota.daily_limit);
        return Err(QuotaError::Exceeded(concat3("Daily limit of ", n.as_str(), " exceeded")));
    }
    match (quota.monthly_limit, quota.current_monthly_usage) {
        (Some(monthly_limit), Some(current_monthly)) => {
            if current_monthly >= monthly_limit {
                let n = u64_text(monthly_limit);
                return Err(
                    QuotaError::Exceeded(concat3("Monthly limit of ", n.as_str(), " exceeded")),
                );
            }
        },
        _ => {},
    }
    Ok(())
}

/// A quota as the database stores it: signed columns, read back as unsigned.
pub open spec fn stored_quota(
    t: BrickType,
    daily_limit: i64,
    monthly_limit: Option<i64>,
    current_daily_usage: i64,
    current_monthly_usage: Option<i64>,
) -> Quota {
    Quota {
        brick_type: t,
        daily_limit: daily_limit as u64,
        monthly_limit: match monthly_limit {
            Some(v) => Some(v as u64),
            None => None,
        },
        current_daily_usage: current_daily_usage as u64,
        current_monthly_usage: match current_monthly_usage {
            Some(v) => Some(v as u64),
            None => None,
        },
    }
}

/// Builds a quota from the columns of its database row.
pub fn quota_from_row(
    brick_type: &BrickType,
    daily_limit: i64,
    monthly_limit: Option<i64>,
    current_daily_usage: i64,
    current_monthly_usage: Option<i64>,
) -> (q: Quota)
    ensures
        q == stored_quota(
            *brick_type,
            daily_limit,
            monthly_limit,
            current_daily_usage,
            current_monthly_usage,
        ),
{
    Quota {
        brick_type: *brick_type,
        daily_limit: daily_limit as u64,
        monthly_limit: match monthly_limit {
            Some(v) => Some(v as u64),
            None => None,
        },
        current_daily_usage: current_daily_usage as u64,
        current_monthly_usage: match current_monthly_usage {
            Some(v) => Some(v as u64),
            None => None,
        },
    }
}

/// The outcome of checking a stored quota; the messages name the brick type.
pub open spec fn stored_verdict(q: Quota) -> Result<(), QuotaErr> {
    match reached(q) {
        None => Ok(()),
        Some(LimitReached::Daily(n)) => Err(
            QuotaErr::Exceeded(
                "Daily limit of "@ + decimal(n as nat) + " exceeded for "@ + brick_type_name(
                    q.brick_type,
                ),
            ),
        ),
        Some(LimitReached::Monthly(n)) => Err(
            QuotaErr::Exceeded(
                "Monthly limit of "@ + decimal(n as nat) + " exceeded for "@ + brick_type_name(
                    q.brick_type,
                ),
            ),
        ),
    }
}

/// Checks a stored quota against its limits.
pub fn check_stored_limits(quota: &Quota) -> (r: Result<(), QuotaError>)
    ensures
        unit_qres(r) == stored_verdict(*quota),
{
    if quota.current_daily_usage >= quota.daily_limit {
        let n = u64_text(quota.daily_limit);
        let head = concat3("Daily limit of ", n.as_str(), " exceeded for ");
        return Err(QuotaError::Exceeded(concat(head.as_str(), quota.brick_type.as_str())));
    }
    match (quota.monthly_limit, quota.current_monthly_usage) {
        (Some(monthly_limit), Some(current_monthly)) => {
            if current_monthly >= monthly_limit {
                let n = u64_text(monthly_limit);
                let head = concat3("Monthly limit of ", n.as_str(), " exceeded for ");
                return Err(QuotaError::Exceeded(concat(head.as_str(), quota.brick_type.as_str())));
            }
        },
        _ => {},
    }
    Ok(())
}

/// The error of a brick type whose quota the database does not hold.
pub fn quota_not_found(brick_type: &BrickType) -> (e: QuotaError)
    ensures
        e@ == not_found_err(*brick_type),
{
    QuotaError::NotFound(concat("Quota not found for ", brick_type.as_str()))
}

/// The quotas held in memory, one per brick type, keyed by the type's code.
pub struct InMemoryQuotaManager {
    quotas: HashMap<u64, Quota>,
}

/// The code of a brick type, its position among the types.
pub open spec fn type_code(t: BrickType) -> u64 {
    match t {
        BrickType::OpenAi => 0,
        BrickType::Nvidia => 1,
        BrickType::HubSpot => 2,
        BrickType::Notion => 3,
        BrickType::Odoo => 4,
        BrickType::N8n => 5,
        BrickType::FieldMapping => 6,
        BrickType::CombineText => 7,
        BrickType::Conditional => 8,
        BrickType::RulesEngine => 9,
    }
}

/// The code of a brick type.
fn code_of(t: &BrickType) -> (c: u64)
    ensures
        c == type_code(*t),
{
    match t {
        BrickType::OpenAi => 0,
        BrickType::Nvidia => 1,
        BrickType::HubSpot => 2,
        BrickType::Notion => 3,
        BrickType::Odoo => 4,
        BrickType::N8n => 5,
        BrickType::FieldMapping => 6,
        BrickType::CombineText => 7,
        BrickType::Conditional => 8,
        BrickType::RulesEngine => 9,
    }
}

/// Different brick types have different codes.
proof fn lemma_code_injective(a: BrickType, b: BrickType)
    ensures
        type_code(a) == type_code(b) ==> a == b,
{
}

impl InMemoryQuotaManager {
    /// The quotas by brick type.
    pub closed spec fn quotas(&self) -> Map<BrickType, Quota> {
        Map::new(
            |t: BrickType| self.quotas@.contains_key(type_code(t)),
            |t: BrickType| self.quotas@[type_code(t)],
        )
    }

    /// A manager without quotas.
    pub fn new() -> (m: InMemoryQuotaManager)
        ensures
            m.quotas() == Map::<BrickType, Quota>::empty(),
    {
        let m = InMemoryQuotaManager { quotas: HashMap::new() };
        assert(m.quotas() =~= Map::<BrickType, Quota>::empty());
        m
    }

    /// Gives a brick type its default quota, unless it has one.
    pub fn ensure_quota(&mut self, brick_type: &BrickType)
        ensures
            final(self).quotas() == ensured(old(self).quotas(), *brick_type),
    {
        broadcast use vstd::std_specs::hash::group_hash_axioms;

        let code = code_of(brick_type);
        if !self.quotas.contains_key(&code) {
            let (daily_limit, monthly_limit) = default_limits(brick_type);
            let ghost before = self.quotas();
            self.quotas.insert(
                code,
                Quota {
                    brick_type: *brick_type,
                    daily_limit,
                    monthly_limit,
                    current_daily_usage: 0,
                    current_monthly_usage: Some(0),
                },
            );
            proof {
                assert forall|t: BrickType| #[trigger] self.quotas().contains_key(t) == before.insert(
                    *brick_type,
                    fresh_quota(*brick_type),
                ).contains_key(t) by {
                    lemma_code_injective(t, *brick_type);
                }
                assert forall|t: BrickType| #[trigger] self.quotas().contains_key(t) implies self.quotas()[t]
                    == before.insert(*brick_type, fresh_quota(*brick_type))[t] by {
                    lemma_code_injective(t, *brick_type);
                }
                assert(self.quotas() =~= before.insert(*brick_type, fresh_quota(*brick_type)));
            }
        }
    }

    /// Checks whether the quota of a brick type allows a run.
    pub fn check_quota(&self, brick_type: &BrickType) -> (r: Result<(), QuotaError>)
        ensures
            unit_qres(r) == (if self.quotas().contains_key(*brick_type) {
                quota_verdict(self.quotas()[*brick_type])
            } else {
                Err(not_found_err(*brick_type))
            }),
    {
        broadcast use vstd::std_specs::hash::group_hash_axioms;

        match self.quotas.get(&code_of(brick_type)) {
            Some(q) => check_limits(q),
            None => Err(quota_not_found(brick_type)),
        }
    }

    /// Records a run. Usage in memory is left as it is.
    pub fn record_usage(&self, brick_type: &BrickType, token_usage: Option<u64>) -> (r: Result<
        (),
        QuotaError,
    >)
        ensures
            r is Ok,
    {
        Ok(())
    }

    /// The quota of a brick type.
    pub fn get_quota(&self, brick_type: &BrickType) -> (r: Result<Quota, QuotaError>)
        ensures
            match r {
                Ok(q) => self.quotas().contains_key(*brick_type) && q == self.quotas()[*brick_type],
                Err(e) => !self.quotas().contains_key(*brick_type) && e@ == not_found_err(
                    *brick_type,
                ),
            },
    {
        broadcast use vstd::std_specs::hash::group_hash_axioms;

        match self.quotas.get(&code_of(brick_type)) {
            Some(q) => Ok(*q),
            None => Err(quota_not_found(brick_type)),
        }
    }
}

/// The quotas after giving a brick type its default quota, unless it has one.
pub open spec fn ensured(m: Map<BrickType, Quota>, t: BrickType) -> Map<BrickType, Quota> {
    if m.contains_key(t) {
        m
    } else {
        m.insert(t, fresh_quota(t))
    }
}

// ---------------------------------------------------------------------------
// Laws.

/// Giving a brick type its default quota twice is giving it once.
pub proof fn lemma_ensure_idempotent(m: Map<BrickType, Quota>, t: BrickType)
    ensures
        ensured(ensured(m, t), t) == ensured(m, t),
{
}

/// A brick type that was just given its quota has one, and a fresh quota
/// allows a run: its usage is zero and every default limit is positive.
pub proof fn lemma_fresh_quota_allows(m: Map<BrickType, Quota>, t: BrickType)
    ensures
        ensured(m, t).contains_key(t),
        quota_verdict(fresh_quota(t)) is Ok,
        !m.contains_key(t) ==> ensured(m, t)[t] == fresh_quota(t),
        forall|u: BrickType| u != t ==> (#[trigger] ensured(m, t).contains_key(u)) == m.contains_key(u),
{
}

/// A quota allows a run exactly when the day's usage is under the daily limit
/// and, where both are known, the month's usage is under the monthly limit.
pub proof fn lemma_verdict_under_limits(q: Quota)
    ensures
        quota_verdict(q) is Ok <==> (q.current_daily_usage < q.daily_limit && match (
            q.monthly_limit,
            q.current_monthly_usage,
        ) {
            (Some(m), Some(c)) => c < m,
            _ => true,
        }),
        q.current_daily_usage >= q.daily_limit ==> quota_verdict(q) == Err::<(), QuotaErr>(
            QuotaErr::Exceeded("Daily limit of "@ + decimal(q.daily_limit as nat) + " exceeded"@),
        ),
        q.current_daily_usage < q.daily_limit ==> match (q.monthly_limit, q.current_monthly_usage) {
            (Some(m), Some(c)) => c >= m ==> quota_verdict(q) == Err::<(), QuotaErr>(
                QuotaErr::Exceeded("Monthly limit of "@ + decimal(m as nat) + " exceeded"@),
            ),
            _ => true,
        },
{
}


/// A stored quota passes its check exactly when it is under its limits: the
/// daily usage below the daily limit and, where both the monthly limit and
/// the monthly usage are known, the monthly usage below the monthly limit.
/// A reached daily limit is the one reported, naming the limit and the brick
/// type; otherwise a reached monthly limit is.
pub proof fn lemma_stored_verdict_under_limits(q: Quota)
    ensures
        stored_verdict(q) is Ok <==> (q.current_daily_usage < q.daily_limit && match (
            q.monthly_limit,
            q.current_monthly_usage,
        ) {
            (Some(m), Some(c)) => c < m,
            _ => true,
        }),
        q.current_daily_usage >= q.daily_limit ==> stored_verdict(q) == Err::<(), QuotaErr>(
            QuotaErr::Exceeded(
                "Daily limit of "@ + decimal(q.daily_limit as nat) + " exceeded for "@
                    + brick_type_name(q.brick_type),
            ),
        ),
        q.current_daily_usage < q.daily_limit ==> match (q.monthly_limit, q.current_monthly_usage) {
            (Some(m), Some(c)) => c >= m ==> stored_verdict(q) == Err::<(), QuotaErr>(
                QuotaErr::Exceeded(
                    "Monthly limit of "@ + decimal(m as nat) + " exceeded for "@
                        + brick_type_name(q.brick_type),
                ),
            ),
            _ => true,
        },
{
}

} // verus!
