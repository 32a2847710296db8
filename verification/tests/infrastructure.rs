use rate_limiter::internet_gateway::InternetGateway;
use rate_limiter::lifecycle::LifecyclePolicy;
use rate_limiter::nat_gateway::NATGateway;
use rate_limiter::scheduler::{Scheduler, Task};
use rate_limiter::snapshot::{decimal_text, SnapshotManager};

#[test]
fn scheduler_starts_empty() {
    let mut scheduler = Scheduler::new();
    assert_eq!(scheduler.pending(), 0);
    assert!(scheduler.execute_next().is_none());
    assert_eq!(scheduler.pending(), 0);
}

#[test]
fn scheduler_runs_tasks_in_the_order_they_came() {
    let mut scheduler = Scheduler::new();
    scheduler.schedule(Task { id: "task-1".to_string(), priority: 1 });
    scheduler.schedule(Task { id: "task-2".to_string(), priority: 200 });
    scheduler.schedule(Task { id: "task-3".to_string(), priority: 0 });
    assert_eq!(scheduler.pending(), 3);
    let first = scheduler.execute_next().expect("three tasks wait");
    assert_eq!(first.id, "task-1");
    assert_eq!(first.priority, 1);
    let second = scheduler.execute_next().expect("two tasks wait");
    assert_eq!(second.id, "task-2");
    assert_eq!(second.priority, 200);
    scheduler.schedule(Task { id: "task-4".to_string(), priority: 5 });
    let third = scheduler.execute_next().expect("two tasks wait");
    assert_eq!(third.id, "task-3");
    let fourth = scheduler.execute_next().expect("one task waits");
    assert_eq!(fourth.id, "task-4");
    assert!(scheduler.execute_next().is_none());
}

#[test]
fn internet_gateway_is_attached_to_its_network() {
    let gateway = InternetGateway::new("vpc-123");
    assert_eq!(gateway.id, "igw-1");
    assert_eq!(gateway.vpc_id, "vpc-123");
    assert_eq!(InternetGateway::new("").vpc_id, "");
}

#[test]
fn nat_gateway_stands_in_its_subnet() {
    let gateway = NATGateway::new("subnet-public");
    assert_eq!(gateway.id, "nat-1");
    assert_eq!(gateway.subnet, "subnet-public");
}

#[test]
fn lifecycle_policy_keeps_name_and_age() {
    let policy = LifecyclePolicy::new("archive-old-data", 90);
    assert_eq!(policy.name(), "archive-old-data");
    assert_eq!(policy.days_to_archive(), 90);
    let other = LifecyclePolicy::new("", u32::MAX);
    assert_eq!(other.name(), "");
    assert_eq!(other.days_to_archive(), u32::MAX);
}

#[test]
fn decimal_text_is_the_usual_numeral() {
    assert_eq!(decimal_text(0), "0");
    assert_eq!(decimal_text(7), "7");
    assert_eq!(decimal_text(9), "9");
    assert_eq!(decimal_text(10), "10");
    assert_eq!(decimal_text(11), "11");
    assert_eq!(decimal_text(99), "99");
    assert_eq!(decimal_text(100), "100");
    assert_eq!(decimal_text(1_234_567_890), "1234567890");
    assert_eq!(decimal_text(u128::MAX), "340282366920938463463374607431768211455");
    for value in 0..2_000u128 {
        assert_eq!(decimal_text(value), value.to_string());
    }
}

#[test]
fn snapshots_are_numbered_from_one() {
    let mut manager = SnapshotManager::new();
    assert_eq!(manager.len(), 0);
    assert_eq!(manager.create_snapshot("vol-123"), "snap-1");
    assert_eq!(manager.create_snapshot("vol-456"), "snap-2");
    assert_eq!(manager.create_snapshot("vol-123"), "snap-3");
    assert_eq!(manager.len(), 3);
    assert_eq!(manager.volume_of("snap-1"), Some("vol-123".to_string()));
    assert_eq!(manager.volume_of("snap-2"), Some("vol-456".to_string()));
    assert_eq!(manager.volume_of("snap-3"), Some("vol-123".to_string()));
    assert_eq!(manager.volume_of("snap-4"), None);
    assert_eq!(manager.volume_of("snap-0"), None);
    assert_eq!(manager.volume_of(""), None);
}

#[test]
fn snapshot_numbers_run_past_one_digit() {
    let mut manager = SnapshotManager::new();
    for ordinal in 1..=120usize {
        let id = manager.create_snapshot("vol");
        assert_eq!(id, format!("snap-{}", ordinal));
        assert_eq!(manager.len(), ordinal);
    }
    assert_eq!(manager.volume_of("snap-100"), Some("vol".to_string()));
}
