use vstd::prelude::*;
use chrono::NaiveDateTime;

verus! {

/// State of a friendship between two users.
#[derive(Debug, Clone, Copy, PartialEq, Eq, Structural)]
pub enum Relationship {
    /// Requested by `user_id`, not yet answered by `friend_id`.
    Pending,
    /// Both users are friends.
    Accepted,
}

impl Default for Relationship {
    fn default() -> (r: Self)
        ensures
            r == Relationship::Pending,
    {
        Relationship::Pending
    }
}

/// A row of the friendships table: `user_id` asked `friend_id` to be friends.
#[derive(Clone, Copy)]
pub struct Friendship {
    pub user_id: i32,
    pub friend_id: i32,
    pub status: Relationship,
    pub created_at: NaiveDateTime,
}

} // verus!
