//! The limiter: one client table shared behind a lock, a quota fixed at
//! construction, and the monotonic clock as the source of time.
//!
//! Every operation holds the lock from before it reads the clock until it
//! returns, so operations on one limiter (through any of its clones) take
//! effect one at a time, and stamps enter a history in the order in which
//! they were read from the clock.
use crate::lock::guarded;
use crate::table::{denial, ClientTable};
use std::sync::{Arc, Mutex, MutexGuard};
use std::time::Instant;
use vstd::prelude::*;

verus! {

/// Clock ticks per second: the limiter measures time in nanoseconds.
pub const NANOS_PER_SECOND: u128 = 1_000_000_000;

/// A sliding-window limiter. Clones share one client table.
pub struct RateLimiter {
    limits: Arc<Mutex<ClientTable>>,
    max_requests: usize,
    window: u128,
    started: Instant,
}

impl Clone for RateLimiter {
    /// Another handle on the same table, with the same quota and clock.
    fn clone(&self) -> (handle: Self)
        ensures
            handle.capacity() == self.capacity(),
            handle.window() == self.window(),
    {
        proof {
            use_type_invariant(self);
        }
        RateLimiter {
            limits: self.limits.clone(),
            max_requests: self.max_requests,
            window: self.window,
            started: self.started,
        }
    }
}

impl RateLimiter {
    /// The most requests that a client may have accepted within one window.
    pub closed spec fn capacity(&self) -> usize {
        self.max_requests
    }

    /// The length of the window, in nanoseconds.
    pub closed spec fn window(&self) -> u128 {
        self.window
    }

    #[verifier::type_invariant]
    spec fn configured(self) -> bool {
        self.max_requests > 0 && self.window > 0
    }

    /// A limiter that admits `max_requests` requests per client in any
    /// `window_secs` seconds, with no client on record. Neither may be zero.
    pub fn new(max_requests: usize, window_secs: u64) -> (limiter: Self)
        requires
            max_requests > 0,
            window_secs > 0,
        ensures
            limiter.capacity() == max_requests,
            limiter.window() == window_secs * NANOS_PER_SECOND,
    {
        RateLimiter {
            limits: Arc::new(Mutex::new(ClientTable::new())),
            max_requests,
            window: (window_secs as u128) * NANOS_PER_SECOND,
            started: Instant::now(),
        }
    }

    /// As `new`, but refuses a zero capacity or a zero window in place of
    /// requiring that the caller has ruled them out.
    pub fn try_new(max_requests: usize, window_secs: u64) -> (made: Option<Self>)
        ensures
            made is Some <==> max_requests > 0 && window_secs > 0,
            made matches Some(limiter) ==> limiter.capacity() == max_requests && limiter.window()
                == window_secs * NANOS_PER_SECOND,
    {
        if max_requests > 0 && window_secs > 0 {
            Some(RateLimiter::new(max_requests, window_secs))
        } else {
            None
        }
    }

    /// The capacity that the limiter was made with.
    pub fn max_requests(&self) -> (capacity: usize)
        ensures
            capacity == self.capacity(),
            capacity > 0,
    {
        proof {
            use_type_invariant(self);
        }
        self.max_requests
    }

    /// The window that the limiter was made with, in nanoseconds.
    pub fn window_nanos(&self) -> (window: u128)
        ensures
            window == self.window(),
            window > 0,
    {
        proof {
            use_type_invariant(self);
        }
        self.window
    }

    /// Acquires the lock on the table. A lock that an earlier holder left
    /// poisoned is taken over: every table satisfies its invariant whenever
    /// it can be observed, so there is nothing to repair.
    fn lock(&self) -> (guard: MutexGuard<'_, ClientTable>) {
        match self.limits.lock() {
            Ok(guard) => guard,
            Err(poisoned) => poisoned.into_inner(),
        }
    }

    /// The time now, in nanoseconds since the limiter was made.
    fn now(&self) -> (nanos: u128) {
        Instant::now().saturating_duration_since(self.started).as_nanos()
    }

    /// Decides a request of `client_id` made now: `Ok` if the client has had
    /// fewer than the capacity accepted within the window that ends now, and
    /// then the request is on record; otherwise the denial, which names the
    /// client and leaves no record.
    ///
    /// The decision is that of [`ClientTable::check_at`] on the shared table
    /// as it stands when the lock is acquired, at the time read from the
    /// clock under the lock.
    pub fn check_rate_limit(&self, client_id: &str) -> (outcome: Result<(), String>)
        ensures
            outcome matches Err(message) ==> message@ == denial(client_id@),
    {
        let mut guard = self.lock();
        let now = self.now();
        guarded(&mut guard).check_at(client_id, now, self.max_requests, self.window)
    }

    /// The number of clients on record in the shared table, as it stands
    /// when the lock is acquired.
    pub fn tracked_clients(&self) -> (count: usize) {
        let mut guard = self.lock();
        guarded(&mut guard).len()
    }

    /// Discards whatever is on record for `client_id`, by
    /// [`ClientTable::reset`] on the shared table.
    pub fn reset(&self, client_id: &str) {
        let mut guard = self.lock();
        guarded(&mut guard).reset(client_id)
    }

    /// Drops every expired stamp, and every client left with none, by
    /// [`ClientTable::cleanup_at`] on the shared table at the time read from
    /// the clock under the lock.
    pub fn cleanup_expired(&self) {
        let mut guard = self.lock();
        let now = self.now();
        guarded(&mut guard).cleanup_at(now, self.window)
    }
}

} // verus!
