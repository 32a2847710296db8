//! The sliding window as mathematics: which recorded requests still count at
//! a given time, and what an admission check does to a client's history.
//!
//! Times are ticks of a single clock (the limiter uses nanoseconds). A
//! history is the sequence of the times at which a client's requests were
//! accepted, in arrival order.
use vstd::prelude::*;

verus! {

/// The requests of one client that were accepted, as the times at which they
/// were, oldest first.
pub type History = Seq<u128>;

/// A request accepted at `stamp` no longer counts at `now`: a full `window`
/// has passed since. A stamp that lies after `now` has not expired.
pub open spec fn expired(stamp: u128, now: u128, window: u128) -> bool {
    now - stamp >= window
}

/// The stamps of `history` that have not expired at `now`, in their order.
pub open spec fn live(history: History, now: u128, window: u128) -> History
    decreases history.len(),
{
    if history.len() == 0 {
        Seq::empty()
    } else if expired(history.last(), now, window) {
        live(history.drop_last(), now, window)
    } else {
        live(history.drop_last(), now, window).push(history.last())
    }
}

/// A client with this history may make a request at `now`: fewer than
/// `capacity` of its accepted requests are still inside the window.
pub open spec fn admits(history: History, now: u128, capacity: usize, window: u128) -> bool {
    live(history, now, window).len() < capacity
}

/// The history after one check at `now`: expired stamps are dropped, and `now`
/// is recorded at the end exactly if the request is admitted.
pub open spec fn after_check(
    history: History,
    now: u128,
    capacity: usize,
    window: u128,
) -> History {
    if admits(history, now, capacity, window) {
        live(history, now, window).push(now)
    } else {
        live(history, now, window)
    }
}

/// The history after one check at each of `times`, in turn.
pub open spec fn after_checks(
    history: History,
    times: Seq<u128>,
    capacity: usize,
    window: u128,
) -> History
    decreases times.len(),
{
    if times.len() == 0 {
        history
    } else {
        after_check(
            after_checks(history, times.drop_last(), capacity, window),
            times.last(),
            capacity,
            window,
        )
    }
}

/// Those of `times` at which the check, made in turn from `history` on, is
/// admitted.
pub open spec fn admitted(
    history: History,
    times: Seq<u128>,
    capacity: usize,
    window: u128,
) -> History
    decreases times.len(),
{
    if times.len() == 0 {
        Seq::empty()
    } else {
        let earlier = admitted(history, times.drop_last(), capacity, window);
        if admits(
            after_checks(history, times.drop_last(), capacity, window),
            times.last(),
            capacity,
            window,
        ) {
            earlier.push(times.last())
        } else {
            earlier
        }
    }
}

/// `count` requests at the one instant `now`.
pub open spec fn at_once(now: u128, count: nat) -> Seq<u128> {
    Seq::new(count, |i: int| now)
}

/// The stamps never decrease from one position to the next.
pub open spec fn ordered(history: History) -> bool {
    forall|i: int, j: int| 0 <= i <= j < history.len() ==> history[i] <= history[j]
}

/// No stamp lies after `now`.
pub open spec fn up_to(history: History, now: u128) -> bool {
    forall|i: int| 0 <= i < history.len() ==> history[i] <= now
}

/// Appending a stamp keeps it if it is live and drops it otherwise.
pub proof fn lemma_live_push(history: History, stamp: u128, now: u128, window: u128)
    ensures
        live(history.push(stamp), now, window) == if expired(stamp, now, window) {
            live(history, now, window)
        } else {
            live(history, now, window).push(stamp)
        },
{
    assert(history.push(stamp).drop_last() =~= history);
}

/// Every live stamp is an unexpired stamp of the history, every unexpired
/// stamp of the history is live, and the live stamps are no more than the
/// history holds.
pub proof fn lemma_live_members(history: History, now: u128, window: u128)
    ensures
        live(history, now, window).len() <= history.len(),
        forall|i: int|
            0 <= i < live(history, now, window).len() ==> {
                &&& !expired(#[trigger] live(history, now, window)[i], now, window)
                &&& history.contains(live(history, now, window)[i])
            },
        forall|j: int|
            0 <= j < history.len() && !expired(history[j], now, window) ==> live(
                history,
                now,
                window,
            ).contains(#[trigger] history[j]),
    decreases history.len(),
{
    if history.len() > 0 {
        let front = history.drop_last();
        let kept = live(history, now, window);
        lemma_live_members(front, now, window);
        assert forall|j: int|
            0 <= j < history.len() && !expired(history[j], now, window) implies kept.contains(
            #[trigger] history[j],
        ) by {
            if j < front.len() {
                let k = choose|k: int|
                    0 <= k < live(front, now, window).len() && live(front, now, window)[k]
                        == front[j];
                assert(kept[k] == history[j]);
            } else {
                assert(kept[kept.len() - 1] == history[j]);
            }
        }
    }
}

/// A history with no expired stamp is live as it stands.
pub proof fn lemma_live_all(history: History, now: u128, window: u128)
    requires
        forall|i: int| 0 <= i < history.len() ==> !expired(#[trigger] history[i], now, window),
    ensures
        live(history, now, window) == history,
    decreases history.len(),
{
    if history.len() > 0 {
        lemma_live_all(history.drop_last(), now, window);
    }
}

/// A history all of whose stamps have expired has no live stamp.
pub proof fn lemma_live_none(history: History, now: u128, window: u128)
    requires
        forall|i: int| 0 <= i < history.len() ==> expired(#[trigger] history[i], now, window),
    ensures
        live(history, now, window) == Seq::<u128>::empty(),
    decreases history.len(),
{
    if history.len() > 0 {
        lemma_live_none(history.drop_last(), now, window);
    }
}

/// Dropping expired stamps at `now` loses nothing that a check at a time
/// `later >= now` would still count.
pub proof fn lemma_live_later(history: History, now: u128, later: u128, window: u128)
    requires
        now <= later,
    ensures
        live(live(history, now, window), later, window) == live(history, later, window),
    decreases history.len(),
{
    if history.len() > 0 {
        let front = history.drop_last();
        lemma_live_later(front, now, later, window);
        if !expired(history.last(), now, window) {
            lemma_live_push(live(front, now, window), history.last(), later, window);
        }
    }
}

/// The live part of an ordered history is ordered, and holds no stamp after
/// a bound if the history holds none.
pub proof fn lemma_live_ordered(history: History, now: u128, window: u128)
    ensures
        ordered(history) ==> ordered(live(history, now, window)),
        forall|bound: u128| up_to(history, bound) ==> up_to(live(history, now, window), bound),
    decreases history.len(),
{
    if history.len() > 0 {
        let front = history.drop_last();
        lemma_live_ordered(front, now, window);
        lemma_live_members(front, now, window);
    }
}

/// The live stamps of two histories laid end to end are the live stamps of
/// the first followed by those of the second.
pub proof fn lemma_live_concat(first: History, second: History, now: u128, window: u128)
    ensures
        live(first + second, now, window) == live(first, now, window) + live(second, now, window),
    decreases second.len(),
{
    if second.len() > 0 {
        let front = second.drop_last();
        assert((first + second).drop_last() =~= first + front);
        lemma_live_concat(first, front, now, window);
    }
}

/// In an ordered history the expired stamps come first: the live stamps are
/// the history from some position on, and every stamp before it has expired.
pub proof fn lemma_live_is_the_tail(history: History, now: u128, window: u128)
    requires
        ordered(history),
    ensures
        live(history, now, window).len() <= history.len(),
        live(history, now, window) == history.subrange(
            history.len() - live(history, now, window).len(),
            history.len() as int,
        ),
        forall|m: int|
            0 <= m < history.len() - live(history, now, window).len() ==> expired(
                #[trigger] history[m],
                now,
                window,
            ),
    decreases history.len(),
{
    if history.len() > 0 {
        let front = history.drop_last();
        let size = history.len() as int;
        if expired(history.last(), now, window) {
            lemma_live_none(front, now, window);
        } else {
            lemma_live_is_the_tail(front, now, window);
            let kept = live(front, now, window);
            assert forall|m: int| 0 <= m < size - 1 - kept.len() implies expired(
                #[trigger] history[m],
                now,
                window,
            ) by {
                assert(front[m] == history[m]);
            }
        }
    }
}

/// Checks in a row at one instant each add one live stamp, as long as the
/// quota has room: after `count` of them the client has `count` more live
/// stamps than before, all of them `now`.
pub proof fn lemma_burst(history: History, now: u128, capacity: usize, window: u128, count: nat)
    requires
        window > 0,
        live(history, now, window).len() + count <= capacity,
    ensures
        live(after_checks(history, at_once(now, count), capacity, window), now, window).len()
            == live(history, now, window).len() + count,
        count > 0 ==> after_checks(history, at_once(now, count), capacity, window) == live(
            history,
            now,
            window,
        ) + at_once(now, count),
    decreases count,
{
    if count > 0 {
        let fewer = (count - 1) as nat;
        assert(at_once(now, count).drop_last() =~= at_once(now, fewer));
        let before = after_checks(history, at_once(now, fewer), capacity, window);
        lemma_burst(history, now, capacity, window, fewer);
        lemma_live_later(before, now, now, window);
        lemma_live_push(live(before, now, window), now, now, window);
        if count > 1 {
            lemma_live_members(history, now, window);
            lemma_live_all(before, now, window);
        }
    }
}

/// A client that has nothing live at `now` is admitted exactly `capacity`
/// times in a row at that instant: after `count <= capacity` checks the next
/// one is admitted if and only if `count < capacity`.
pub proof fn lemma_quota_is_exact(
    history: History,
    now: u128,
    capacity: usize,
    window: u128,
    count: nat,
)
    requires
        window > 0,
        live(history, now, window).len() == 0,
        count <= capacity,
    ensures
        admits(after_checks(history, at_once(now, count), capacity, window), now, capacity, window)
            <==> count < capacity,
{
    lemma_burst(history, now, capacity, window, count);
}

/// A denied check records nothing: the history keeps only what was live, and
/// every decision from `now` on is the one that would have been made had the
/// denied request never come.
pub proof fn lemma_denied_leaves_no_trace(
    history: History,
    now: u128,
    later: u128,
    capacity: usize,
    window: u128,
)
    requires
        !admits(history, now, capacity, window),
        now <= later,
    ensures
        after_check(history, now, capacity, window) == live(history, now, window),
        after_check(after_check(history, now, capacity, window), later, capacity, window)
            == after_check(history, later, capacity, window),
        admits(after_check(history, now, capacity, window), later, capacity, window) == admits(
            history,
            later,
            capacity,
            window,
        ),
{
    lemma_live_later(history, now, later, window);
}

/// A client that is admitted `capacity` times in a row at one instant had
/// nothing live there before.
pub proof fn lemma_full_burst_starts_empty(
    history: History,
    start: u128,
    capacity: usize,
    window: u128,
)
    requires
        window > 0,
        capacity > 0,
        forall|count: nat|
            count < capacity ==> admits(
                #[trigger] after_checks(history, at_once(start, count), capacity, window),
                start,
                capacity,
                window,
            ),
    ensures
        live(history, start, window).len() == 0,
{
    let held = live(history, start, window).len();
    assert(after_checks(history, at_once(start, 0), capacity, window) == history);
    if held > 0 {
        let room = (capacity - held) as nat;
        lemma_burst(history, start, capacity, window, room);
    }
}

/// Once a client with nothing live at `start` has filled its quota there, it
/// is denied at every time before `start + window`, and admitted again at
/// every time from `start + window` on.
pub proof fn lemma_window_slides(
    history: History,
    start: u128,
    now: u128,
    capacity: usize,
    window: u128,
)
    requires
        window > 0,
        capacity > 0,
        live(history, start, window).len() == 0,
    ensures
        ({
            let full = after_checks(history, at_once(start, capacity as nat), capacity, window);
            &&& now - start < window ==> !admits(full, now, capacity, window)
            &&& now - start >= window ==> admits(full, now, capacity, window)
        }),
{
    let full = after_checks(history, at_once(start, capacity as nat), capacity, window);
    lemma_burst(history, start, capacity, window, capacity as nat);
    if now - start < window {
        lemma_live_all(full, now, window);
    } else {
        lemma_live_none(full, now, window);
    }
}

/// What a run of checks from an empty history leaves behind, when time does
/// not run backwards: the history is the tail of the admitted requests, all
/// admitted requests before that tail have expired, and any two admitted
/// requests with at least `capacity - 1` admitted ones between them lie a
/// full window or more apart.
pub proof fn lemma_admitted_run(times: Seq<u128>, capacity: usize, window: u128)
    requires
        ordered(times),
    ensures
        ({
            let history = after_checks(Seq::empty(), times, capacity, window);
            let granted = admitted(Seq::empty(), times, capacity, window);
            &&& history.len() <= granted.len()
            &&& history == granted.subrange(granted.len() - history.len(), granted.len() as int)
            &&& ordered(granted)
            &&& times.len() > 0 ==> up_to(granted, times.last())
            &&& times.len() > 0 ==> forall|m: int|
                0 <= m < granted.len() - history.len() ==> expired(
                    #[trigger] granted[m],
                    times.last(),
                    window,
                )
            &&& forall|i: int, j: int|
                0 <= i && i + capacity <= j < granted.len() ==> #[trigger] granted[j]
                    - #[trigger] granted[i] >= window
        }),
    decreases times.len(),
{
    if times.len() > 0 {
        let before = times.drop_last();
        let now = times.last();
        let held = after_checks(Seq::empty(), before, capacity, window);
        let done = admitted(Seq::empty(), before, capacity, window);
        lemma_admitted_run(before, capacity, window);
        // `held` is `done` from `gone` on, and what is live of it at `now` is
        // its own tail.
        let gone = done.len() - held.len();
        lemma_live_is_the_tail(held, now, window);
        let kept = live(held, now, window);
        let cut = gone + held.len() - kept.len();
        // So the live stamps are `done` from `cut` on, and all before `cut`
        // has expired: up to `gone` since the check before, the rest as the
        // expired front of `held`. A request admitted at `now` finds fewer
        // than `capacity` stamps from `cut` on, so the stamps `capacity` or
        // more places before it have all expired.
        assert forall|m: int| 0 <= m < cut implies expired(#[trigger] done[m], now, window) by {
            if m >= gone {
                assert(held[m - gone] == done[m]);
            }
        }
    }
}

/// Dropping expired stamps forgets nothing that counts: after a run of checks
/// from an empty history, at times that do not run backwards, the history
/// has at any time from the last check on the same live stamps as the record
/// of every request admitted in the run.
pub proof fn lemma_history_counts_as_the_admitted(
    times: Seq<u128>,
    later: u128,
    capacity: usize,
    window: u128,
)
    requires
        ordered(times),
        times.len() > 0 ==> times.last() <= later,
    ensures
        live(after_checks(Seq::empty(), times, capacity, window), later, window) == live(
            admitted(Seq::empty(), times, capacity, window),
            later,
            window,
        ),
{
    let history = after_checks(Seq::empty(), times, capacity, window);
    let granted = admitted(Seq::empty(), times, capacity, window);
    lemma_admitted_run(times, capacity, window);
    // The admitted requests are those that the history has dropped, all of
    // them expired, followed by the history.
    let gone = granted.subrange(0, granted.len() - history.len());
    assert(granted =~= gone + history);
    lemma_live_none(gone, later, window);
    lemma_live_concat(gone, history, later, window);
}

} // verus!
