use vstd::prelude::*;
use chrono::NaiveDateTime;

verus! {

/// Whether a user is connected, and doing what.
#[derive(Debug, Clone, Copy, PartialEq, Eq, Structural)]
pub enum UserStatuses {
    Online,
    Playing,
    Offline,
}

/// The status of a user: what it is, the server the user plays on, and when
/// the user was last seen.
#[derive(Debug, Clone, Copy)]
pub struct UserStatus {
    pub status: UserStatuses,
    pub server: Option<i32>,
    pub last_seen_at: Option<NaiveDateTime>,
}

/// What others see of a user: the user's row and status together.
pub struct UserProfile {
    pub id: i32,
    pub username: String,
    pub rank: String,
    pub status: UserStatus,
    pub registered_at: NaiveDateTime,
}

/// A profile, as the contracts see it.
pub struct ProfileView {
    pub id: i32,
    pub username: Seq<char>,
    pub rank: Seq<char>,
    pub status: UserStatus,
    pub registered_at: NaiveDateTime,
}

impl View for UserProfile {
    type V = ProfileView;

    open spec fn view(&self) -> ProfileView {
        ProfileView {
            id: self.id,
            username: self.username@,
            rank: self.rank@,
            status: self.status,
            registered_at: self.registered_at,
        }
    }
}

} // verus!
