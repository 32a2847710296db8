//! What the table's operations guarantee, each proved from the definitions
//! that their contracts are stated in.
use crate::table::{history_of, table_after_check, table_after_sweep, Histories, Key};
use crate::window::{
    admits, admitted, after_check, after_checks, at_once, expired, lemma_admitted_run,
    lemma_denied_leaves_no_trace, lemma_full_burst_starts_empty,
    lemma_history_counts_as_the_admitted, lemma_live_all, lemma_live_later, lemma_live_members,
    lemma_live_none, lemma_live_ordered, lemma_quota_is_exact, lemma_window_slides, live,
    ordered, up_to,
};
use vstd::prelude::*;

verus! {

/// The table after `client` has been checked at each of `times`, in turn.
pub open spec fn table_after_checks(
    table: Histories,
    client: Key,
    times: Seq<u128>,
    capacity: usize,
    window: u128,
) -> Histories
    decreases times.len(),
{
    if times.len() == 0 {
        table
    } else {
        table_after_check(
            table_after_checks(table, client, times.drop_last(), capacity, window),
            client,
            times.last(),
            capacity,
            window,
        )
    }
}

/// Every history in the table is ordered, and none holds a stamp after `now`.
pub open spec fn in_order(table: Histories, now: u128) -> bool {
    forall|k: Key|
        table.contains_key(k) ==> ordered(#[trigger] table[k]) && up_to(table[k], now)
}

/// A run of checks of one client does to that client's history what the same
/// run does to the history alone, and leaves every other client as it was.
pub proof fn lemma_checks_by_client(
    table: Histories,
    client: Key,
    other: Key,
    times: Seq<u128>,
    capacity: usize,
    window: u128,
)
    ensures
        history_of(table_after_checks(table, client, times, capacity, window), client)
            == after_checks(history_of(table, client), times, capacity, window),
        other != client ==> {
            let after = table_after_checks(table, client, times, capacity, window);
            &&& after.contains_key(other) == table.contains_key(other)
            &&& history_of(after, other) == history_of(table, other)
        },
    decreases times.len(),
{
    if times.len() > 0 {
        lemma_checks_by_client(table, client, other, times.drop_last(), capacity, window);
    }
}

/// A client that has nothing live at `now` is admitted exactly `capacity`
/// times in a row at that instant, and denied the next time: after
/// `count <= capacity` checks, the next one is admitted if and only if
/// `count < capacity`.
pub proof fn law_client_quota_is_exact(
    table: Histories,
    client: Key,
    now: u128,
    capacity: usize,
    window: u128,
    count: nat,
)
    requires
        window > 0,
        live(history_of(table, client), now, window).len() == 0,
        count <= capacity,
    ensures
        admits(
            history_of(
                table_after_checks(table, client, at_once(now, count), capacity, window),
                client,
            ),
            now,
            capacity,
            window,
        ) <==> count < capacity,
{
    lemma_checks_by_client(table, client, client, at_once(now, count), capacity, window);
    lemma_quota_is_exact(history_of(table, client), now, capacity, window, count);
}

/// A denied request is not counted: the client's history keeps only what was
/// live, and every decision from then on is the one that would have been made
/// had the denied request never come.
pub proof fn law_denied_request_is_not_counted(
    table: Histories,
    client: Key,
    now: u128,
    later: u128,
    capacity: usize,
    window: u128,
)
    requires
        !admits(history_of(table, client), now, capacity, window),
        now <= later,
    ensures
        history_of(table_after_check(table, client, now, capacity, window), client) == live(
            history_of(table, client),
            now,
            window,
        ),
        admits(
            history_of(table_after_check(table, client, now, capacity, window), client),
            later,
            capacity,
            window,
        ) == admits(history_of(table, client), later, capacity, window),
{
    lemma_denied_leaves_no_trace(history_of(table, client), now, later, capacity, window);
}

/// After a reset the client starts afresh, whatever it had used up or been
/// denied before: it is again admitted exactly `capacity` times in a row.
pub proof fn law_reset_restores_quota(
    table: Histories,
    client: Key,
    now: u128,
    capacity: usize,
    window: u128,
    count: nat,
)
    requires
        window > 0,
        count <= capacity,
    ensures
        history_of(table.remove(client), client) == Seq::<u128>::empty(),
        admits(
            history_of(
                table_after_checks(
                    table.remove(client),
                    client,
                    at_once(now, count),
                    capacity,
                    window,
                ),
                client,
            ),
            now,
            capacity,
            window,
        ) <==> count < capacity,
{
    law_client_quota_is_exact(table.remove(client), client, now, capacity, window, count);
}

/// The window slides: once `capacity` requests of a client have been admitted
/// at the one instant `start`, the client is denied at every time before
/// `start + window`, and admitted again at every time from `start + window`
/// on.
pub proof fn law_window_slides(
    table: Histories,
    client: Key,
    start: u128,
    now: u128,
    capacity: usize,
    window: u128,
)
    requires
        window > 0,
        capacity > 0,
        forall|count: nat|
            count < capacity ==> admits(
                history_of(
                    #[trigger] table_after_checks(
                        table,
                        client,
                        at_once(start, count),
                        capacity,
                        window,
                    ),
                    client,
                ),
                start,
                capacity,
                window,
            ),
    ensures
        ({
            let full = table_after_checks(
                table,
                client,
                at_once(start, capacity as nat),
                capacity,
                window,
            );
            &&& now - start < window ==> !admits(history_of(full, client), now, capacity, window)
            &&& now - start >= window ==> admits(history_of(full, client), now, capacity, window)
        }),
{
    let history = history_of(table, client);
    assert forall|count: nat| count < capacity implies admits(
        #[trigger] after_checks(history, at_once(start, count), capacity, window),
        start,
        capacity,
        window,
    ) by {
        lemma_checks_by_client(table, client, client, at_once(start, count), capacity, window);
    }
    lemma_full_burst_starts_empty(history, start, capacity, window);
    lemma_checks_by_client(
        table,
        client,
        client,
        at_once(start, capacity as nat),
        capacity,
        window,
    );
    lemma_window_slides(history, start, now, capacity, window);
}

/// Clients do not share a quota: whatever one client does (checks at any
/// times, or a reset), another client's history, and with it every decision
/// on that client's requests, stays as it was.
pub proof fn law_clients_are_independent(
    table: Histories,
    busy: Key,
    other: Key,
    times: Seq<u128>,
    capacity: usize,
    window: u128,
)
    requires
        busy != other,
    ensures
        history_of(table_after_checks(table, busy, times, capacity, window), other) == history_of(
            table,
            other,
        ),
        history_of(table.remove(busy), other) == history_of(table, other),
{
    lemma_checks_by_client(table, busy, other, times, capacity, window);
}

/// A request is admitted exactly when fewer than `capacity` requests were
/// admitted within the window that ends with it. For a client that starts
/// with nothing on record and is checked at times that do not run backwards,
/// the decision at any time from the last check on counts the live stamps
/// among all the requests admitted so far, though the table has long dropped
/// the expired ones.
pub proof fn law_admission_counts_the_trailing_window(
    table: Histories,
    client: Key,
    times: Seq<u128>,
    later: u128,
    capacity: usize,
    window: u128,
)
    requires
        history_of(table, client) == Seq::<u128>::empty(),
        ordered(times),
        times.len() > 0 ==> times.last() <= later,
    ensures
        admits(
            history_of(table_after_checks(table, client, times, capacity, window), client),
            later,
            capacity,
            window,
        ) <==> live(
            admitted(history_of(table, client), times, capacity, window),
            later,
            window,
        ).len() < capacity,
{
    lemma_checks_by_client(table, client, client, times, capacity, window);
    lemma_history_counts_as_the_admitted(times, later, capacity, window);
}

/// No client is admitted more than `capacity` times within any one window.
/// Of the requests admitted in a run of checks of a client that starts with
/// nothing on record, at times that do not run backwards, those at positions
/// `i` and `j >= i + capacity` of the admitted ones lie a full window or more
/// apart.
pub proof fn law_rate_is_bounded(
    table: Histories,
    client: Key,
    times: Seq<u128>,
    capacity: usize,
    window: u128,
    i: int,
    j: int,
)
    requires
        history_of(table, client) == Seq::<u128>::empty(),
        ordered(times),
        0 <= i,
        i + capacity <= j < admitted(history_of(table, client), times, capacity, window).len(),
    ensures
        admitted(history_of(table, client), times, capacity, window)[j] - admitted(
            history_of(table, client),
            times,
            capacity,
            window,
        )[i] >= window,
{
    lemma_admitted_run(times, capacity, window);
}

/// A client's history never holds more than `capacity` stamps, however many
/// requests it makes: memory per client is bounded by the quota.
pub proof fn law_history_fits_the_quota(
    table: Histories,
    client: Key,
    times: Seq<u128>,
    capacity: usize,
    window: u128,
)
    requires
        history_of(table, client).len() <= capacity,
    ensures
        history_of(table_after_checks(table, client, times, capacity, window), client).len()
            <= capacity,
    decreases times.len(),
{
    if times.len() > 0 {
        let before = table_after_checks(table, client, times.drop_last(), capacity, window);
        law_history_fits_the_quota(table, client, times.drop_last(), capacity, window);
        lemma_live_members(history_of(before, client), times.last(), window);
    }
}

/// Histories stay in arrival order as long as time does not run backwards: a
/// table that is in order at `now` is in order at every `later >= now`, and
/// so is what a check, a reset or a sweep at `later` makes of it.
pub proof fn law_histories_stay_in_order(
    table: Histories,
    client: Key,
    now: u128,
    later: u128,
    capacity: usize,
    window: u128,
)
    requires
        in_order(table, now),
        now <= later,
    ensures
        in_order(table, later),
        in_order(table_after_check(table, client, later, capacity, window), later),
        in_order(table.remove(client), later),
        in_order(table_after_sweep(table, later, window), later),
{
    assert forall|k: Key| table.contains_key(k) implies ordered(
        live(#[trigger] table[k], later, window),
    ) && up_to(live(table[k], later, window), later) by {
        lemma_live_ordered(table[k], later, window);
    }
}

/// What a sweep removes and what it keeps: a client all of whose stamps have
/// expired leaves the table; a client with a stamp that has not expired
/// stays, with its live stamps; and a held client with no expired stamp keeps
/// its history as it is.
pub proof fn law_sweep_drops_the_aged(
    table: Histories,
    client: Key,
    now: u128,
    window: u128,
)
    requires
        table.contains_key(client),
    ensures
        (forall|i: int| 0 <= i < table[client].len() ==> expired(table[client][i], now, window))
            ==> !table_after_sweep(table, now, window).contains_key(client),
        (exists|i: int| 0 <= i < table[client].len() && !expired(table[client][i], now, window))
            ==> table_after_sweep(table, now, window).contains_key(client) && table_after_sweep(
            table,
            now,
            window,
        )[client] == live(table[client], now, window),
        table[client].len() > 0 && (forall|i: int|
            0 <= i < table[client].len() ==> !expired(table[client][i], now, window))
            ==> table_after_sweep(table, now, window).contains_key(client) && table_after_sweep(
            table,
            now,
            window,
        )[client] == table[client],
{
    let history = table[client];
    lemma_live_members(history, now, window);
    if forall|i: int| 0 <= i < history.len() ==> expired(history[i], now, window) {
        lemma_live_none(history, now, window);
    }
    if forall|i: int| 0 <= i < history.len() ==> !expired(history[i], now, window) {
        lemma_live_all(history, now, window);
    }
}

/// A sweep only reclaims memory: a check at any time from the sweep on has
/// the outcome, and leaves the history, that it would have had without the
/// sweep.
pub proof fn law_sweep_changes_no_decision(
    table: Histories,
    client: Key,
    now: u128,
    later: u128,
    capacity: usize,
    window: u128,
)
    requires
        now <= later,
    ensures
        admits(
            history_of(table_after_sweep(table, now, window), client),
            later,
            capacity,
            window,
        ) == admits(history_of(table, client), later, capacity, window),
        after_check(
            history_of(table_after_sweep(table, now, window), client),
            later,
            capacity,
            window,
        ) == after_check(history_of(table, client), later, capacity, window),
{
    lemma_live_later(history_of(table, client), now, later, window);
}

} // verus!
