use flowmason::quota::{check_limits, check_stored_limits, default_limits, quota_from_row, InMemoryQuotaManager, QuotaError};
use flowmason::types::{BrickType, Quota};

#[test]
fn test_in_memory_quota_check() {
    let mut manager = InMemoryQuotaManager::new();
    manager.ensure_quota(&BrickType::OpenAi);
    let result = manager.check_quota(&BrickType::OpenAi);
    assert!(result.is_ok());
}

#[test]
fn test_in_memory_quota_not_found() {
    let manager = InMemoryQuotaManager::new();
    let result = manager.check_quota(&BrickType::OpenAi);
    assert!(result.is_err());
    assert!(matches!(result.unwrap_err(), QuotaError::NotFound(_)));
}

#[test]
fn test_get_quota() {
    let mut manager = InMemoryQuotaManager::new();
    manager.ensure_quota(&BrickType::OpenAi);
    let quota = manager.get_quota(&BrickType::OpenAi).unwrap();
    assert_eq!(quota.brick_type, BrickType::OpenAi);
    assert_eq!(quota.daily_limit, 200);
    assert_eq!(quota.monthly_limit, Some(5000));
}

// ---------------------------------------------------------------------------
// Further cases.

#[test]
fn default_limits_per_type() {
    assert_eq!(default_limits(&BrickType::OpenAi), (200, Some(5000)));
    assert_eq!(default_limits(&BrickType::Nvidia), (1000, Some(25000)));
    assert_eq!(default_limits(&BrickType::HubSpot), (1000, Some(10000)));
}

#[test]
fn ensure_quota_is_idempotent() {
    let mut manager = InMemoryQuotaManager::new();
    manager.ensure_quota(&BrickType::Nvidia);
    manager.ensure_quota(&BrickType::Nvidia);
    manager.ensure_quota(&BrickType::OpenAi);
    let q = manager.get_quota(&BrickType::Nvidia).unwrap();
    assert_eq!(q.daily_limit, 1000);
    assert_eq!(q.current_daily_usage, 0);
    assert!(manager.record_usage(&BrickType::Nvidia, Some(10)).is_ok());
}

#[test]
fn not_found_message() {
    let manager = InMemoryQuotaManager::new();
    let e = manager.get_quota(&BrickType::Notion).unwrap_err();
    assert_eq!(e.message(), "Quota not found: Quota not found for Notion");
}

#[test]
fn limits_reached() {
    let q = Quota {
        brick_type: BrickType::OpenAi,
        daily_limit: 200,
        monthly_limit: Some(5000),
        current_daily_usage: 200,
        current_monthly_usage: Some(10),
    };
    assert_eq!(check_limits(&q).unwrap_err().message(), "Quota exceeded: Daily limit of 200 exceeded");
    let q2 = Quota { current_daily_usage: 3, current_monthly_usage: Some(5000), ..q };
    assert_eq!(check_limits(&q2).unwrap_err().message(), "Quota exceeded: Monthly limit of 5000 exceeded");
    let q3 = Quota { current_daily_usage: 3, current_monthly_usage: None, ..q };
    assert!(check_limits(&q3).is_ok());
    assert_eq!(
        check_stored_limits(&q2).unwrap_err().message(),
        "Quota exceeded: Monthly limit of 5000 exceeded for OpenAi"
    );
}

#[test]
fn stored_row_to_quota() {
    let q = quota_from_row(&BrickType::N8n, 1000, Some(10000), 7, None);
    assert_eq!(q.daily_limit, 1000);
    assert_eq!(q.monthly_limit, Some(10000));
    assert_eq!(q.current_daily_usage, 7);
    assert_eq!(q.current_monthly_usage, None);
}
