use vstd::prelude::*;

pub mod friends;
pub mod privacy;
pub mod user;

use friends::FriendshipTable;
use privacy::PrivacyTable;
use user::UserTable;

verus! {

/// The service's database: its tables of users, privacy settings and
/// friendships.
pub struct Database {
    pub users: UserTable,
    pub privacy: PrivacyTable,
    pub friendships: FriendshipTable,
}

impl Database {
    /// Each table keeps its key unique.
    pub open spec fn wf(&self) -> bool {
        &&& self.users.wf()
        &&& self.privacy.wf()
        &&& self.friendships.wf()
    }

    /// A database with empty tables.
    pub fn new() -> (db: Database)
        ensures
            db.wf(),
            db.users@ == Seq::<crate::models::user::UserView>::empty(),
            db.privacy@ == Seq::<crate::models::privacy::UsersPrivacy>::empty(),
            db.friendships@ == Seq::<crate::models::friends::Friendship>::empty(),
    {
        Database { users: UserTable::new(), privacy: PrivacyTable::new(), friendships: FriendshipTable::new() }
    }
}

} // verus!
