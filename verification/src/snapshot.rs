//! Volume snapshots, numbered in the order in which they were taken.
use vstd::hash_map::StringHashMap;
use vstd::prelude::*;

verus! {

/// The character of one decimal digit.
pub open spec fn digit(value: nat) -> char {
    if value == 0 {
        '0'
    } else if value == 1 {
        '1'
    } else if value == 2 {
        '2'
    } else if value == 3 {
        '3'
    } else if value == 4 {
        '4'
    } else if value == 5 {
        '5'
    } else if value == 6 {
        '6'
    } else if value == 7 {
        '7'
    } else if value == 8 {
        '8'
    } else {
        '9'
    }
}

/// The decimal numeral of `value`, without leading zeros.
pub open spec fn decimal(value: nat) -> Seq<char>
    decreases value,
{
    if value < 10 {
        seq![digit(value)]
    } else {
        decimal(value / 10).push(digit(value % 10))
    }
}

/// The identifier of the snapshot taken as the `ordinal`-th.
pub open spec fn snapshot_id(ordinal: nat) -> Seq<char> {
    "snap-"@ + decimal(ordinal)
}

/// The text of one decimal digit.
fn digit_text(value: u128) -> (text: &'static str)
    requires
        value < 10,
    ensures
        text@ == seq![digit(value as nat)],
{
    proof {
        reveal_strlit("0");
        reveal_strlit("1");
        reveal_strlit("2");
        reveal_strlit("3");
        reveal_strlit("4");
        reveal_strlit("5");
        reveal_strlit("6");
        reveal_strlit("7");
        reveal_strlit("8");
        reveal_strlit("9");
    }
    if value == 0 {
        "0"
    } else if value == 1 {
        "1"
    } else if value == 2 {
        "2"
    } else if value == 3 {
        "3"
    } else if value == 4 {
        "4"
    } else if value == 5 {
        "5"
    } else if value == 6 {
        "6"
    } else if value == 7 {
        "7"
    } else if value == 8 {
        "8"
    } else {
        "9"
    }
}

/// The decimal numeral of `value`.
pub fn decimal_text(value: u128) -> (text: String)
    ensures
        text@ == decimal(value as nat),
    decreases value,
{
    if value < 10 {
        digit_text(value).to_owned()
    } else {
        decimal_text(value / 10).concat(digit_text(value % 10))
    }
}

/// The snapshots taken so far: snapshot identifier to volume identifier.
pub struct SnapshotManager {
    snapshots: StringHashMap<String>,
}

impl View for SnapshotManager {
    type V = Map<Seq<char>, Seq<char>>;

    closed spec fn view(&self) -> Map<Seq<char>, Seq<char>> {
        Map::new(
            |id: Seq<char>| self.snapshots@.contains_key(id),
            |id: Seq<char>| self.snapshots@[id]@,
        )
    }
}

impl SnapshotManager {
    /// A manager that has taken no snapshot.
    pub fn new() -> (manager: Self)
        ensures
            manager@ == Map::<Seq<char>, Seq<char>>::empty(),
    {
        SnapshotManager { snapshots: StringHashMap::new() }
    }

    /// Records a snapshot of `volume_id` and returns its identifier: `snap-`
    /// and one more than the number of snapshots on record.
    pub fn create_snapshot(&mut self, volume_id: &str) -> (snap_id: String)
        ensures
            snap_id@ == snapshot_id(old(self)@.len() + 1),
            final(self)@ == old(self)@.insert(snap_id@, volume_id@),
    {
        assert(self@.dom() =~= self.snapshots@.dom());
        let ordinal = self.snapshots.len() as u128 + 1;
        let snap_id = "snap-".to_owned().concat(decimal_text(ordinal).as_str());
        self.snapshots.insert(snap_id.clone(), volume_id.to_owned());
        snap_id
    }

    /// The number of snapshots on record.
    pub fn len(&self) -> (count: usize)
        ensures
            count == self@.len(),
    {
        assert(self@.dom() =~= self.snapshots@.dom());
        self.snapshots.len()
    }

    /// The volume of which `snap_id` is a snapshot, if there is such a
    /// snapshot.
    pub fn volume_of(&self, snap_id: &str) -> (volume: Option<String>)
        ensures
            volume is Some <==> self@.contains_key(snap_id@),
            volume matches Some(id) ==> id@ == self@[snap_id@],
    {
        match self.snapshots.get(snap_id) {
            Some(id) => Some(id.clone()),
            None => None,
        }
    }
}

} // verus!
