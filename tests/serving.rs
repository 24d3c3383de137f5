use tmphost::resolve::{confirm_resolution, resolve_leaf, ResolveError};
use tmphost::retention::{plan_sweep, pause_secs, should_evict, SweepEntry};

#[test]
fn traversal_is_rejected() {
    assert_eq!(resolve_leaf("./content", "../../etc/passwd"), Err(ResolveError::Rejected));
    assert_eq!(resolve_leaf("./content", "a/../b"), Err(ResolveError::Rejected));
    assert_eq!(resolve_leaf("./content", "x/"), Err(ResolveError::Rejected));
    assert_eq!(resolve_leaf("./content", ".."), Err(ResolveError::Rejected));
    assert_eq!(resolve_leaf("./content", "."), Err(ResolveError::Rejected));
    assert_eq!(resolve_leaf("./content", ""), Err(ResolveError::Rejected));
}

#[test]
fn leaf_names_resolve_under_root() {
    assert_eq!(resolve_leaf("./content", "2cf24d.txt"), Ok("./content/2cf24d.txt".to_string()));
    assert_eq!(resolve_leaf("/srv/drop", "...png"), Ok("/srv/drop/...png".to_string()));
}

#[test]
fn resolution_verdicts() {
    assert_eq!(confirm_resolution(false, true), Err(ResolveError::Rejected));
    assert_eq!(confirm_resolution(false, false), Err(ResolveError::Rejected));
    assert_eq!(confirm_resolution(true, false), Err(ResolveError::NotFound));
    assert_eq!(confirm_resolution(true, true), Ok(()));
}

#[test]
fn eviction_boundary() {
    let ttl = 1800u64;
    let now = 1_700_000_000u64;
    assert!(should_evict(now, Some(now - ttl - 1), ttl));
    assert!(should_evict(now, Some(now - ttl), ttl));
    assert!(!should_evict(now, Some(now - ttl + 10), ttl));
    assert!(!should_evict(now, Some(now - ttl + 1), ttl));
}

#[test]
fn untrusted_timestamps_are_evicted() {
    assert!(should_evict(100, None, 1800));
    assert!(should_evict(100, Some(101), 1800));
    assert!(!should_evict(100, Some(100), 1800));
}

#[test]
fn refreshed_access_survives_later_passes() {
    let ttl = 1800u64;
    let t0 = 1_000_000u64;
    // Accessed again shortly before expiry.
    let refreshed = t0 + ttl - 5;
    assert!(!should_evict(t0 + ttl, Some(refreshed), ttl));
    assert!(!should_evict(refreshed + ttl - 1, Some(refreshed), ttl));
    assert!(should_evict(refreshed + ttl, Some(refreshed), ttl));
}

#[test]
fn sweep_plan_lists_evictable_entries_in_order() {
    let now = 10_000u64;
    let ttl = 1800u64;
    let entries = vec![
        SweepEntry { name: "old.png".to_string(), accessed: Some(now - ttl - 1) },
        SweepEntry { name: "fresh.txt".to_string(), accessed: Some(now - ttl + 10) },
        SweepEntry { name: "broken".to_string(), accessed: None },
        SweepEntry { name: "future.gif".to_string(), accessed: Some(now + 60) },
        SweepEntry { name: "new.jpg".to_string(), accessed: Some(now) },
    ];
    assert_eq!(
        plan_sweep(&entries, now, ttl),
        vec!["old.png".to_string(), "broken".to_string(), "future.gif".to_string()]
    );
    assert!(plan_sweep(&Vec::new(), now, ttl).is_empty());
}

#[test]
fn pause_between_passes() {
    assert_eq!(pause_secs(1800), 1797);
    assert_eq!(pause_secs(3), 0);
    assert_eq!(pause_secs(1), 0);
}
