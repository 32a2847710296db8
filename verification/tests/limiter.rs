use rate_limiter::limiter::{RateLimiter, NANOS_PER_SECOND};
use std::time::{Duration, Instant};

fn wait_for(span: Duration) {
    let begun = Instant::now();
    while begun.elapsed() < span {
        std::hint::spin_loop();
    }
}

#[test]
fn test_rate_limiting() {
    let limiter = RateLimiter::new(5, 60);

    for _ in 0..5 {
        assert!(limiter.check_rate_limit("client1").is_ok());
    }

    assert!(limiter.check_rate_limit("client1").is_err());
}

#[test]
fn test_different_clients() {
    let limiter = RateLimiter::new(2, 60);

    assert!(limiter.check_rate_limit("client1").is_ok());
    assert!(limiter.check_rate_limit("client2").is_ok());
    assert!(limiter.check_rate_limit("client1").is_ok());
    assert!(limiter.check_rate_limit("client2").is_ok());
}

#[test]
fn new_keeps_the_quota_it_was_given() {
    let limiter = RateLimiter::new(5, 60);
    assert_eq!(limiter.max_requests(), 5);
    assert_eq!(limiter.window_nanos(), 60_000_000_000);
    assert_eq!(NANOS_PER_SECOND, 1_000_000_000);

    let widest = RateLimiter::new(usize::MAX, u64::MAX);
    assert_eq!(widest.max_requests(), usize::MAX);
    assert_eq!(widest.window_nanos(), 18_446_744_073_709_551_615_000_000_000);
    assert_eq!(widest.tracked_clients(), 0);
}

#[test]
fn try_new_refuses_a_zero_capacity() {
    assert!(RateLimiter::try_new(0, 60).is_none());
}

#[test]
fn try_new_refuses_a_zero_window() {
    assert!(RateLimiter::try_new(5, 0).is_none());
    assert!(RateLimiter::try_new(0, 0).is_none());
}

#[test]
fn try_new_makes_a_working_limiter() {
    let limiter = RateLimiter::try_new(1, 60).expect("a valid quota");
    assert_eq!(limiter.max_requests(), 1);
    assert_eq!(limiter.window_nanos(), 60_000_000_000);
    assert!(limiter.check_rate_limit("only").is_ok());
    assert!(limiter.check_rate_limit("only").is_err());
}

#[test]
fn burst_of_capacity_is_allowed_and_the_next_is_denied() {
    for capacity in [1usize, 2, 3, 7, 20] {
        let limiter = RateLimiter::new(capacity, 3600);
        for _ in 0..capacity {
            assert!(limiter.check_rate_limit("burst").is_ok());
        }
        assert!(limiter.check_rate_limit("burst").is_err());
        assert!(limiter.check_rate_limit("burst").is_err());
    }
}

#[test]
fn denial_names_the_client() {
    let limiter = RateLimiter::new(1, 60);
    assert_eq!(limiter.check_rate_limit("client1"), Ok(()));
    assert_eq!(
        limiter.check_rate_limit("client1"),
        Err("Rate limit exceeded for client: client1".to_string())
    );
    assert_eq!(limiter.check_rate_limit(""), Ok(()));
    assert_eq!(
        limiter.check_rate_limit(""),
        Err("Rate limit exceeded for client: ".to_string())
    );
}

#[test]
fn concrete_scenario_of_two_limiters() {
    let first = RateLimiter::new(5, 60);
    for _ in 0..5 {
        assert!(first.check_rate_limit("client1").is_ok());
    }
    assert!(first.check_rate_limit("client1").is_err());

    let second = RateLimiter::new(2, 60);
    assert!(second.check_rate_limit("client1").is_ok());
    assert!(second.check_rate_limit("client2").is_ok());
    assert!(second.check_rate_limit("client1").is_ok());
    assert!(second.check_rate_limit("client2").is_ok());
    assert!(second.check_rate_limit("client1").is_err());
    assert!(second.check_rate_limit("client2").is_err());
}

#[test]
fn denied_attempts_do_not_use_up_quota() {
    let limiter = RateLimiter::new(3, 3600);
    for _ in 0..3 {
        assert!(limiter.check_rate_limit("c").is_ok());
    }
    for _ in 0..10 {
        assert!(limiter.check_rate_limit("c").is_err());
    }
    limiter.reset("c");
    for _ in 0..3 {
        assert!(limiter.check_rate_limit("c").is_ok());
    }
    assert!(limiter.check_rate_limit("c").is_err());
}

#[test]
fn reset_before_the_quota_is_used_up_gives_a_full_quota() {
    let limiter = RateLimiter::new(4, 3600);
    for _ in 0..3 {
        assert!(limiter.check_rate_limit("c").is_ok());
    }
    limiter.reset("c");
    assert_eq!(limiter.tracked_clients(), 0);
    for _ in 0..4 {
        assert!(limiter.check_rate_limit("c").is_ok());
    }
    assert!(limiter.check_rate_limit("c").is_err());
}

#[test]
fn exhausting_one_client_leaves_the_other_alone() {
    let limiter = RateLimiter::new(2, 3600);
    assert!(limiter.check_rate_limit("greedy").is_ok());
    assert!(limiter.check_rate_limit("greedy").is_ok());
    for _ in 0..5 {
        assert!(limiter.check_rate_limit("greedy").is_err());
    }
    assert!(limiter.check_rate_limit("modest").is_ok());
    assert!(limiter.check_rate_limit("modest").is_ok());
    assert!(limiter.check_rate_limit("modest").is_err());
    limiter.reset("greedy");
    assert!(limiter.check_rate_limit("modest").is_err());
    assert!(limiter.check_rate_limit("greedy").is_ok());
}

#[test]
fn keys_are_compared_exactly() {
    let limiter = RateLimiter::new(1, 3600);
    assert!(limiter.check_rate_limit("client").is_ok());
    assert!(limiter.check_rate_limit("Client").is_ok());
    assert!(limiter.check_rate_limit("client ").is_ok());
    assert!(limiter.check_rate_limit("cli\u{00e9}nt").is_ok());
    assert!(limiter.check_rate_limit("client").is_err());
    assert_eq!(limiter.tracked_clients(), 4);
}

#[test]
fn reset_of_an_unknown_client_changes_nothing() {
    let limiter = RateLimiter::new(1, 3600);
    limiter.reset("nobody");
    assert_eq!(limiter.tracked_clients(), 0);
    assert!(limiter.check_rate_limit("somebody").is_ok());
    limiter.reset("nobody");
    assert_eq!(limiter.tracked_clients(), 1);
    assert!(limiter.check_rate_limit("somebody").is_err());
}

#[test]
fn clones_share_one_table() {
    let limiter = RateLimiter::new(2, 3600);
    let handle = limiter.clone();
    assert_eq!(handle.max_requests(), 2);
    assert_eq!(handle.window_nanos(), limiter.window_nanos());
    assert!(limiter.check_rate_limit("shared").is_ok());
    assert!(handle.check_rate_limit("shared").is_ok());
    assert!(limiter.check_rate_limit("shared").is_err());
    assert!(handle.check_rate_limit("shared").is_err());
    handle.reset("shared");
    assert!(limiter.check_rate_limit("shared").is_ok());
    assert_eq!(handle.tracked_clients(), 1);
}

#[test]
fn cleanup_within_the_window_changes_no_outcome() {
    let limiter = RateLimiter::new(2, 3600);
    assert!(limiter.check_rate_limit("a").is_ok());
    assert!(limiter.check_rate_limit("a").is_ok());
    assert!(limiter.check_rate_limit("b").is_ok());
    limiter.cleanup_expired();
    assert_eq!(limiter.tracked_clients(), 2);
    assert!(limiter.check_rate_limit("a").is_err());
    assert!(limiter.check_rate_limit("b").is_ok());
    assert!(limiter.check_rate_limit("b").is_err());
}

#[test]
fn cleanup_of_an_empty_table_is_harmless() {
    let limiter = RateLimiter::new(2, 1);
    limiter.cleanup_expired();
    assert_eq!(limiter.tracked_clients(), 0);
    assert!(limiter.check_rate_limit("a").is_ok());
}

#[test]
fn quota_returns_once_the_window_has_passed() {
    let limiter = RateLimiter::new(2, 1);
    assert!(limiter.check_rate_limit("a").is_ok());
    assert!(limiter.check_rate_limit("a").is_ok());
    assert!(limiter.check_rate_limit("a").is_err());
    wait_for(Duration::from_millis(1100));
    assert!(limiter.check_rate_limit("a").is_ok());
    assert!(limiter.check_rate_limit("a").is_ok());
    assert!(limiter.check_rate_limit("a").is_err());
}

#[test]
fn quota_is_released_one_request_at_a_time() {
    let limiter = RateLimiter::new(2, 3);
    assert!(limiter.check_rate_limit("a").is_ok());
    wait_for(Duration::from_millis(2000));
    assert!(limiter.check_rate_limit("a").is_ok());
    assert!(limiter.check_rate_limit("a").is_err());
    wait_for(Duration::from_millis(1500));
    // the first request is now older than three seconds, the second is not
    assert!(limiter.check_rate_limit("a").is_ok());
    assert!(limiter.check_rate_limit("a").is_err());
}

#[test]
fn cleanup_forgets_clients_whose_requests_have_all_expired() {
    let limiter = RateLimiter::new(3, 2);
    assert!(limiter.check_rate_limit("early").is_ok());
    assert!(limiter.check_rate_limit("early").is_ok());
    wait_for(Duration::from_millis(1200));
    assert!(limiter.check_rate_limit("late").is_ok());
    assert_eq!(limiter.tracked_clients(), 2);
    wait_for(Duration::from_millis(1000));
    limiter.cleanup_expired();
    assert_eq!(limiter.tracked_clients(), 1);
    assert!(limiter.check_rate_limit("late").is_ok());
    assert!(limiter.check_rate_limit("late").is_ok());
    assert!(limiter.check_rate_limit("late").is_err());
    wait_for(Duration::from_millis(2100));
    limiter.cleanup_expired();
    assert_eq!(limiter.tracked_clients(), 0);
}

fn shareable<T: Send + Sync + Clone>(_: &T) {}

#[test]
fn a_limiter_can_be_handed_to_other_threads() {
    let limiter = RateLimiter::new(1, 1);
    shareable(&limiter);
}

#[test]
fn many_handles_draw_on_one_quota() {
    let limiter = RateLimiter::new(100, 3600);
    let handles: Vec<RateLimiter> = (0..8).map(|_| limiter.clone()).collect();
    let mut allowed = 0;
    for _ in 0..50 {
        for handle in handles.iter() {
            if handle.check_rate_limit("busy").is_ok() {
                allowed += 1;
            }
        }
    }
    assert_eq!(allowed, 100);
    assert!(limiter.check_rate_limit("busy").is_err());
    assert_eq!(limiter.tracked_clients(), 1);
}
