//! Storage lifecycle policies.
use vstd::prelude::*;

verus! {

/// A named rule: data moves to the archive after a number of days.
pub struct LifecyclePolicy {
    name: String,
    days_to_archive: u32,
}

impl LifecyclePolicy {
    /// The policy's name, as text.
    pub closed spec fn name_text(&self) -> Seq<char> {
        self.name@
    }

    /// The age in days at which data is archived.
    pub closed spec fn archive_age(&self) -> u32 {
        self.days_to_archive
    }

    /// The policy `name`, which archives after `days` days.
    pub fn new(name: &str, days: u32) -> (policy: Self)
        ensures
            policy.name_text() == name@,
            policy.archive_age() == days,
    {
        LifecyclePolicy { name: name.to_owned(), days_to_archive: days }
    }

    /// The policy's name.
    pub fn name(&self) -> (name: &str)
        ensures
            name@ == self.name_text(),
    {
        self.name.as_str()
    }

    /// The age in days at which data is archived.
    pub fn days_to_archive(&self) -> (days: u32)
        ensures
            days == self.archive_age(),
    {
        self.days_to_archive
    }
}

} // verus!
