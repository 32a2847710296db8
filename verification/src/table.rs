//! The client table: one history per client key, with the limiter's three
//! operations for a time that the caller supplies.
use crate::window::{admits, after_check, lemma_live_push, live, History};
use vstd::hash_map::StringHashMap;
use vstd::prelude::*;

verus! {

/// A client key, as text. Two keys are the same client exactly if they are
/// the same sequence of characters.
pub type Key = Seq<char>;

/// What a table holds: the history of each client on record.
pub type Histories = Map<Key, History>;

/// The history on record for `client`; a client that the table does not hold
/// has the empty history.
pub open spec fn history_of(table: Histories, client: Key) -> History {
    if table.contains_key(client) {
        table[client]
    } else {
        Seq::empty()
    }
}

/// The table after `client` has been checked at `now`: its history is replaced
/// by the history after the check, and every other client is as before.
pub open spec fn table_after_check(
    table: Histories,
    client: Key,
    now: u128,
    capacity: usize,
    window: u128,
) -> Histories {
    table.insert(client, after_check(history_of(table, client), now, capacity, window))
}

/// The table after a sweep at `now`: every history is cut down to its live
/// stamps, and a client whose history has no live stamp is no longer held.
pub open spec fn table_after_sweep(table: Histories, now: u128, window: u128) -> Histories {
    Map::new(
        |k: Key| table.contains_key(k) && live(table[k], now, window).len() > 0,
        |k: Key| live(table[k], now, window),
    )
}

/// The text that a denied check carries.
pub open spec fn denial(client: Key) -> Seq<char> {
    "Rate limit exceeded for client: "@ + client
}

/// The stamps of `history` that are live at `now`, as a new vector.
pub fn prune(history: &Vec<u128>, now: u128, window: u128) -> (kept: Vec<u128>)
    ensures
        kept@ == live(history@, now, window),
{
    let mut kept: Vec<u128> = Vec::new();
    let mut i: usize = 0;
    while i < history.len()
        invariant
            i <= history.len(),
            kept@ == live(history@.take(i as int), now, window),
        decreases history.len() - i,
    {
        let stamp = history[i];
        proof {
            lemma_live_push(history@.take(i as int), stamp, now, window);
            assert(history@.take(i as int).push(stamp) =~= history@.take(i + 1));
        }
        if now < stamp || now - stamp < window {
            kept.push(stamp);
        }
        i += 1;
    }
    assert(history@.take(i as int) =~= history@);
    kept
}

/// `clients` names every key in `keys`, and names none twice.
spec fn lists(clients: Seq<String>, keys: Set<Key>) -> bool {
    &&& forall|i: int| 0 <= i < clients.len() ==> keys.contains(#[trigger] clients[i]@)
    &&& forall|k: Key|
        keys.contains(k) ==> exists|i: int| 0 <= i < clients.len() && #[trigger] clients[i]@ == k
    &&& forall|i: int, j: int|
        0 <= i < j < clients.len() ==> #[trigger] clients[i]@ != #[trigger] clients[j]@
}

/// `client` is among the first `upto` entries of `clients`.
spec fn among(clients: Seq<String>, upto: int, client: Key) -> bool {
    exists|j: int| 0 <= j < upto && j < clients.len() && #[trigger] clients[j]@ == client
}

/// The keys in `keys` that are among the first `done` entries of `clients`.
spec fn visited(keys: Set<Key>, clients: Seq<String>, done: int) -> Set<Key> {
    keys.filter(|k: Key| among(clients, done, k))
}

/// The histories in the middle of a sweep over `clients`, `done` of them
/// visited: a visited client holds its live stamps, or has left if there are
/// none; the others are as they were in `before`.
spec fn swept_upto(
    histories: Map<Key, Vec<u128>>,
    before: Map<Key, Vec<u128>>,
    clients: Seq<String>,
    done: int,
    now: u128,
    window: u128,
) -> bool {
    forall|k: Key|
        #![trigger histories.contains_key(k)]
        #![trigger before.contains_key(k)]
        if among(clients, done, k) {
            &&& histories.contains_key(k) <==> live(before[k]@, now, window).len() > 0
            &&& histories.contains_key(k) ==> histories[k]@ == live(before[k]@, now, window)
        } else {
            &&& histories.contains_key(k) <==> before.contains_key(k)
            &&& histories.contains_key(k) ==> histories[k] == before[k]
        }
}

/// The position of `client_id` in `clients`.
fn position(clients: &Vec<String>, client_id: &str) -> (at: usize)
    requires
        among(clients@, clients.len() as int, client_id@),
    ensures
        at < clients.len(),
        clients[at as int]@ == client_id@,
{
    let wanted = client_id.to_owned();
    let mut at: usize = 0;
    while at < clients.len() && clients[at] != wanted
        invariant
            at <= clients.len(),
            wanted@ == client_id@,
            among(clients@, clients.len() as int, client_id@),
            forall|j: int| 0 <= j < at ==> #[trigger] clients[j]@ != client_id@,
        decreases clients.len() - at,
    {
        at += 1;
    }
    at
}

/// Per-client request histories, keyed by the client's identifier.
///
/// `clients` lists the keys of `histories`, each once, so that a sweep can
/// walk them.
pub struct ClientTable {
    histories: StringHashMap<Vec<u128>>,
    clients: Vec<String>,
}

impl View for ClientTable {
    type V = Histories;

    closed spec fn view(&self) -> Histories {
        Map::new(
            |k: Key| self.histories@.contains_key(k),
            |k: Key| self.histories@[k]@,
        )
    }
}

impl ClientTable {
    #[verifier::type_invariant]
    spec fn listed(self) -> bool {
        lists(self.clients@, self.histories@.dom())
    }

    /// A table that holds no client.
    pub fn new() -> (table: Self)
        ensures
            table@ == Histories::empty(),
    {
        ClientTable { histories: StringHashMap::new(), clients: Vec::new() }
    }

    /// Whether the table holds a history for `client_id`.
    pub fn holds(&self, client_id: &str) -> (held: bool)
        ensures
            held == self@.contains_key(client_id@),
    {
        self.histories.contains_key(client_id)
    }

    /// The number of clients that the table holds.
    pub fn len(&self) -> (count: usize)
        ensures
            count == self@.len(),
    {
        assert(self@.dom() =~= self.histories@.dom());
        self.histories.len()
    }

    /// The stamps on record for `client_id`, oldest first; none for a client
    /// that the table does not hold.
    pub fn history(&self, client_id: &str) -> (stamps: Vec<u128>)
        ensures
            stamps@ == history_of(self@, client_id@),
    {
        match self.histories.get(client_id) {
            Some(history) => history.clone(),
            None => Vec::new(),
        }
    }

    /// Decides a request of `client_id` at time `now`, under a quota of
    /// `capacity` requests per `window` ticks.
    pub fn check_at(
        &mut self,
        client_id: &str,
        now: u128,
        capacity: usize,
        window: u128,
    ) -> (outcome: Result<(), String>)
        ensures
            final(self)@ == table_after_check(old(self)@, client_id@, now, capacity, window),
            outcome is Ok <==> admits(history_of(old(self)@, client_id@), now, capacity, window),
            outcome matches Err(message) ==> message@ == denial(client_id@),
    {
        proof {
            use_type_invariant(&*self);
        }
        let mut current = ClientTable::new();
        std::mem::swap(&mut current, self);
        let ClientTable { mut histories, mut clients } = current;
        let (known, mut kept) = match histories.get(client_id) {
            Some(history) => (true, prune(history, now, window)),
            None => (false, Vec::new()),
        };
        let granted = kept.len() < capacity;
        if granted {
            kept.push(now);
        }
        histories.insert(client_id.to_owned(), kept);
        if !known {
            clients.push(client_id.to_owned());
        }
        proof {
            // Every key is listed: an old one where it was, a new one last.
            let before = old(self).clients@;
            assert forall|k: Key| histories@.dom().contains(k) implies exists|i: int|
                0 <= i < clients@.len() && #[trigger] clients@[i]@ == k by {
                if old(self).histories@.dom().contains(k) {
                    let i = choose|i: int| 0 <= i < before.len() && #[trigger] before[i]@ == k;
                    assert(clients@[i]@ == k);
                } else {
                    assert(clients@[clients@.len() - 1]@ == k);
                }
            }
        }
        *self = ClientTable { histories, clients };
        if granted {
            Ok(())
        } else {
            Err("Rate limit exceeded for client: ".to_owned().concat(client_id))
        }
    }

    /// Forgets `client_id`: its whole history is discarded. Where the table
    /// holds no such client, nothing changes.
    pub fn reset(&mut self, client_id: &str)
        ensures
            final(self)@ == old(self)@.remove(client_id@),
            !old(self)@.contains_key(client_id@) ==> final(self)@ == old(self)@,
    {
        proof {
            use_type_invariant(&*self);
        }
        let mut current = ClientTable::new();
        std::mem::swap(&mut current, self);
        let ClientTable { mut histories, mut clients } = current;
        if histories.contains_key(client_id) {
            let at = position(&clients, client_id);
            histories.remove(client_id);
            clients.remove(at);
            proof {
                // Every key that is left is listed: where it was if that is
                // before `at`, one place earlier if not.
                let before = old(self).clients@;
                assert forall|k: Key| histories@.dom().contains(k) implies exists|i: int|
                    0 <= i < clients@.len() && #[trigger] clients@[i]@ == k by {
                    let i = choose|i: int| 0 <= i < before.len() && #[trigger] before[i]@ == k;
                    if i < at {
                        assert(clients@[i]@ == k);
                    } else {
                        assert(clients@[i - 1]@ == k);
                    }
                }
            }
        }
        *self = ClientTable { histories, clients };
    }

    /// Sweeps the table at time `now`: drops the stamps that have expired
    /// under `window`, and with them every client that has none left.
    pub fn cleanup_at(&mut self, now: u128, window: u128)
        ensures
            final(self)@ == table_after_sweep(old(self)@, now, window),
    {
        proof {
            use_type_invariant(&*self);
        }
        let mut current = ClientTable::new();
        std::mem::swap(&mut current, self);
        let ClientTable { mut histories, clients } = current;
        let ghost before = histories@;
        let mut staying: Vec<String> = Vec::new();
        let mut i: usize = 0;
        while i < clients.len()
            invariant
                i <= clients.len(),
                lists(clients@, before.dom()),
                swept_upto(histories@, before, clients@, i as int, now, window),
                lists(staying@, visited(histories@.dom(), clients@, i as int)),
            decreases clients.len() - i,
        {
            let ghost earlier = histories@;
            let ghost stayed = staying@;
            let client = &clients[i];
            let ghost key = client@;
            let kept = match histories.get(client.as_str()) {
                Some(history) => prune(history, now, window),
                None => Vec::new(),
            };
            if kept.len() == 0 {
                histories.remove(client.as_str());
            } else {
                histories.insert(client.clone(), kept);
                staying.push(client.clone());
            }
            i += 1;
            proof {
                // Every visited client that is still held is in `staying`:
                // this one last, an earlier one where it was.
                let seen = visited(histories@.dom(), clients@, i as int);
                assert forall|k: Key| seen.contains(k) implies exists|m: int|
                    0 <= m < staying@.len() && #[trigger] staying@[m]@ == k by {
                    if k == key {
                        assert(staying@[staying@.len() - 1]@ == k);
                    } else {
                        assert(visited(earlier.dom(), clients@, i - 1).contains(k));
                        let m = choose|m: int| 0 <= m < stayed.len() && #[trigger] stayed[m]@ == k;
                        assert(staying@[m]@ == k);
                    }
                }
            }
        }
        proof {
            // All clients have been visited.
            assert(visited(histories@.dom(), clients@, i as int) =~= histories@.dom());
        }
        *self = ClientTable { histories, clients: staying };
    }
}

} // verus!
