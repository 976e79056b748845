//! The records the site works with.

use vstd::prelude::*;

verus! {

/// An authorized user, as stored in the database.
#[derive(Clone, Debug, PartialEq, Eq, Hash)]
pub struct User {
    pub id: i32,
    pub name: String,
    pub pfp_url: Option<String>,
}

/// A UTC instant: whole seconds since the Unix epoch and the nanoseconds
/// within that second (a leap second counts its nanoseconds from one billion).
#[derive(Clone, Copy, Debug, PartialEq, Eq, Structural)]
pub struct UtcTime {
    pub secs: i64,
    pub nanos: u32,
}

impl UtcTime {
    /// `self` lies strictly after `other`.
    pub open spec fn is_after(self, other: UtcTime) -> bool {
        self.secs > other.secs || (self.secs == other.secs && self.nanos > other.nanos)
    }

    /// `self` lies strictly after `other`.
    pub fn after(&self, other: &UtcTime) -> (r: bool)
        ensures
            r == self.is_after(*other),
    {
        self.secs > other.secs || (self.secs == other.secs && self.nanos > other.nanos)
    }
}

/// A login session of a user.
#[derive(Clone, Debug)]
pub struct Session {
    pub token: String,
    pub user_id: i32,
    pub user_agent: String,
    pub last_seen: UtcTime,
    pub date_created: UtcTime,
}

/// The pages that the navigation bar can mark as current.
#[derive(Clone, Copy, Debug, PartialEq, Eq, Structural)]
pub enum Pages {
    Home,
    User,
}

} // verus!
