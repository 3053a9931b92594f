use vstd::prelude::*;
use crate::http::{HttpError, BAD_GATEWAY, INTERNAL_SERVER_ERROR};
use crate::models::privacy::{PrivacySetting, UsersPrivacy, Visibility};
use super::Database;

verus! {

/// No two rows hold the settings of the same user.
pub open spec fn privacy_ids_unique(rows: Seq<UsersPrivacy>) -> bool {
    forall|i: int, j: int|
        0 <= i < rows.len() && 0 <= j < rows.len() && i != j ==> #[trigger] rows[i].id
            != #[trigger] rows[j].id
}

/// The settings of user `id` in `rows`, if any.
pub open spec fn privacy_of(rows: Seq<UsersPrivacy>, id: i32) -> Option<UsersPrivacy>
    decreases rows.len(),
{
    if rows.len() == 0 {
        None
    } else if rows.last().id == id {
        Some(rows.last())
    } else {
        privacy_of(rows.drop_last(), id)
    }
}

/// In a table keyed by id, the row of `id` is the one found.
pub proof fn lemma_privacy_of_found(rows: Seq<UsersPrivacy>, id: i32, i: int)
    requires
        privacy_ids_unique(rows),
        0 <= i < rows.len(),
        rows[i].id == id,
    ensures
        privacy_of(rows, id) == Some(rows[i]),
    decreases rows.len(),
{
    if i != rows.len() - 1 {
        assert(rows.last() == rows[rows.len() - 1]);
        let rest = rows.drop_last();
        assert(rest[i] == rows[i]);
        assert forall|a: int, b: int|
            0 <= a < rest.len() && 0 <= b < rest.len() && a != b implies #[trigger] rest[a].id
                != #[trigger] rest[b].id by {
            assert(rest[a] == rows[a] && rest[b] == rows[b]);
        }
        lemma_privacy_of_found(rest, id, i);
    }
}

/// When no row has id `id`, no settings are found.
pub proof fn lemma_privacy_of_missing(rows: Seq<UsersPrivacy>, id: i32)
    requires
        forall|i: int| 0 <= i < rows.len() ==> #[trigger] rows[i].id != id,
    ensures
        privacy_of(rows, id) is None,
    decreases rows.len(),
{
    if rows.len() > 0 {
        assert(rows.last() == rows[rows.len() - 1]);
        let rest = rows.drop_last();
        assert forall|i: int| 0 <= i < rest.len() implies #[trigger] rest[i].id != id by {
            assert(rest[i] == rows[i]);
        }
        lemma_privacy_of_missing(rest, id);
    }
}

/// Message of a lookup of the settings of an unknown user.
pub open spec fn user_not_found_message() -> Seq<char> {
    "Пользователь не найден"@
}

/// Message of a read of one setting of an unknown user.
pub open spec fn record_not_found_message() -> Seq<char> {
    "Record not found"@
}

/// Message of a second row of settings for one user.
pub open spec fn duplicate_privacy_message() -> Seq<char> {
    "duplicate key value violates unique constraint \"users_privacy_pkey\""@
}

/// The privacy table: the settings of each user.
pub struct PrivacyTable {
    rows: Vec<UsersPrivacy>,
}

impl View for PrivacyTable {
    type V = Seq<UsersPrivacy>;

    closed spec fn view(&self) -> Seq<UsersPrivacy> {
        self.rows@
    }
}

impl PrivacyTable {
    /// Each user has one row at most.
    pub open spec fn wf(&self) -> bool {
        privacy_ids_unique(self@)
    }

    /// An empty table.
    pub fn new() -> (t: PrivacyTable)
        ensures
            t@ == Seq::<UsersPrivacy>::empty(),
            t.wf(),
    {
        PrivacyTable { rows: Vec::new() }
    }

    /// The table of `rows`, unless two of them are of the same user.
    pub fn from_rows(rows: Vec<UsersPrivacy>) -> (t: Option<PrivacyTable>)
        ensures
            t is Some <==> privacy_ids_unique(rows@),
            t matches Some(t) ==> t@ == rows@ && t.wf(),
    {
        let n = rows.len();
        let mut i: usize = 0;
        while i < n
            invariant
                n == rows@.len(),
                i <= n,
                forall|a: int, b: int|
                    0 <= a < i && 0 <= b < n && a != b ==> #[trigger] rows@[a].id != #[trigger] rows@[b].id,
            decreases n - i,
        {
            let mut j: usize = 0;
            while j < n
                invariant
                    n == rows@.len(),
                    i < n,
                    j <= n,
                    forall|a: int, b: int|
                        0 <= a < i && 0 <= b < n && a != b ==> #[trigger] rows@[a].id != #[trigger] rows@[b].id,
                    forall|b: int| 0 <= b < j && i != b ==> rows@[i as int].id != #[trigger] rows@[b].id,
                decreases n - j,
            {
                if i != j && rows[i].id == rows[j].id {
                    return None;
                }
                j = j + 1;
            }
            i = i + 1;
        }
        Some(PrivacyTable { rows })
    }

    /// The rows, in the table's order.
    pub fn rows(&self) -> (r: &Vec<UsersPrivacy>)
        ensures
            r@ == self@,
    {
        &self.rows
    }

    /// The settings of user `id`, found in the table.
    pub fn settings_of(&self, id: i32) -> (r: Option<UsersPrivacy>)
        requires
            self.wf(),
        ensures
            r == privacy_of(self@, id),
    {
        let n = self.rows.len();
        let mut i: usize = 0;
        while i < n
            invariant
                n == self@.len(),
                i <= n,
                self.wf(),
                forall|k: int| 0 <= k < i ==> #[trigger] self@[k].id != id,
            decreases n - i,
        {
            if self.rows[i].id == id {
                proof {
                    lemma_privacy_of_found(self@, id, i as int);
                }
                return Some(self.rows[i]);
            }
            i = i + 1;
        }
        proof {
            lemma_privacy_of_missing(self@, id);
        }
        None
    }
}

/// Reading and writing privacy settings.
pub struct PrivacyRepository;

impl PrivacyRepository {
    /// Gives a new user `id` its settings, all open. Refused with `500` when
    /// the user has settings already.
    pub fn add_user(db: &mut Database, id: i32) -> (r: Result<UsersPrivacy, HttpError>)
        requires
            old(db).privacy.wf(),
        ensures
            final(db).privacy.wf(),
            final(db).users == old(db).users,
            final(db).friendships == old(db).friendships,
            r is Err <==> privacy_of(old(db).privacy@, id) is Some,
            r matches Err(e) ==> e.is(INTERNAL_SERVER_ERROR, duplicate_privacy_message()) && final(db).privacy@ == old(db).privacy@,
            r matches Ok(p) ==> p == UsersPrivacy::initial(id) && final(db).privacy@ == old(db).privacy@.push(p),
    {
        if db.privacy.settings_of(id).is_some() {
            return Err(HttpError::new("duplicate key value violates unique constraint \"users_privacy_pkey\"", INTERNAL_SERVER_ERROR));
        }
        let p = UsersPrivacy::new(id);
        proof {
            if !(forall|k: int| 0 <= k < db.privacy@.len() ==> #[trigger] db.privacy@[k].id != id) {
                let k = choose|k: int| 0 <= k < db.privacy@.len() && #[trigger] db.privacy@[k].id == id;
                lemma_privacy_of_found(db.privacy@, id, k);
            }
        }
        db.privacy.rows.push(p);
        proof {
            assert forall|a: int, b: int|
                0 <= a < db.privacy@.len() && 0 <= b < db.privacy@.len() && a != b implies #[trigger] db.privacy@[a].id
                    != #[trigger] db.privacy@[b].id by {
                if a < old(db).privacy@.len() && b < old(db).privacy@.len() {
                    assert(db.privacy@[a] == old(db).privacy@[a] && db.privacy@[b] == old(db).privacy@[b]);
                } else if a < old(db).privacy@.len() {
                    assert(db.privacy@[a] == old(db).privacy@[a]);
                } else {
                    assert(db.privacy@[b] == old(db).privacy@[b]);
                }
            }
        }
        Ok(p)
    }

    /// The settings of user `id`. Refused with `502` when the user has none.
    pub fn get_settings(db: &Database, id: i32) -> (r: Result<UsersPrivacy, HttpError>)
        requires
            db.privacy.wf(),
        ensures
            match privacy_of(db.privacy@, id) {
                Some(p) => r == Ok::<UsersPrivacy, HttpError>(p),
                None => r matches Err(e) && e.is(BAD_GATEWAY, user_not_found_message()),
            },
    {
        match db.privacy.settings_of(id) {
            Some(p) => Ok(p),
            None => Err(HttpError::new("Пользователь не найден", BAD_GATEWAY)),
        }
    }

    /// One setting of user `id`. Refused with `500` when the user has no
    /// settings.
    pub fn get_setting(db: &Database, id: i32, setting: PrivacySetting) -> (r: Result<Visibility, HttpError>)
        requires
            db.privacy.wf(),
        ensures
            match privacy_of(db.privacy@, id) {
                Some(p) => r == Ok::<Visibility, HttpError>(p.setting(setting)),
                None => r matches Err(e) && e.is(INTERNAL_SERVER_ERROR, record_not_found_message()),
            },
    {
        match db.privacy.settings_of(id) {
            Some(p) => Ok(p.get(setting)),
            None => Err(HttpError::new("Record not found", INTERNAL_SERVER_ERROR)),
        }
    }

    /// Who may see the profile of user `id`.
    pub fn get_profile_visibility(db: &Database, id: i32) -> (r: Result<Visibility, HttpError>)
        requires
            db.privacy.wf(),
        ensures
            match privacy_of(db.privacy@, id) {
                Some(p) => r == Ok::<Visibility, HttpError>(p.profile_visibility),
                None => r matches Err(e) && e.is(INTERNAL_SERVER_ERROR, record_not_found_message()),
            },
    {
        Self::get_setting(db, id, PrivacySetting::ProfileVisibility)
    }

    /// Who may see the friends of user `id`.
    pub fn get_friends_visibility(db: &Database, id: i32) -> (r: Result<Visibility, HttpError>)
        requires
            db.privacy.wf(),
        ensures
            match privacy_of(db.privacy@, id) {
                Some(p) => r == Ok::<Visibility, HttpError>(p.friends_visibility),
                None => r matches Err(e) && e.is(INTERNAL_SERVER_ERROR, record_not_found_message()),
            },
    {
        Self::get_setting(db, id, PrivacySetting::FriendsVisibility)
    }

    /// Who may invite user `id`.
    pub fn get_can_invite(db: &Database, id: i32) -> (r: Result<Visibility, HttpError>)
        requires
            db.privacy.wf(),
        ensures
            match privacy_of(db.privacy@, id) {
                Some(p) => r == Ok::<Visibility, HttpError>(p.can_invite),
                None => r matches Err(e) && e.is(INTERNAL_SERVER_ERROR, record_not_found_message()),
            },
    {
        Self::get_setting(db, id, PrivacySetting::CanInvite)
    }

    /// Who may see the server of user `id`.
    pub fn get_server_visibility(db: &Database, id: i32) -> (r: Result<Visibility, HttpError>)
        requires
            db.privacy.wf(),
        ensures
            match privacy_of(db.privacy@, id) {
                Some(p) => r == Ok::<Visibility, HttpError>(p.server_visibility),
                None => r matches Err(e) && e.is(INTERNAL_SERVER_ERROR, record_not_found_message()),
            },
    {
        Self::get_setting(db, id, PrivacySetting::ServerVisibility)
    }

    /// Who may see whether user `id` is online.
    pub fn get_online_visibility(db: &Database, id: i32) -> (r: Result<Visibility, HttpError>)
        requires
            db.privacy.wf(),
        ensures
            match privacy_of(db.privacy@, id) {
                Some(p) => r == Ok::<Visibility, HttpError>(p.online_visibility),
                None => r matches Err(e) && e.is(INTERNAL_SERVER_ERROR, record_not_found_message()),
            },
    {
        Self::get_setting(db, id, PrivacySetting::OnlineVisibility)
    }

    /// Who may see how long user `id` has played.
    pub fn get_hours_visibility(db: &Database, id: i32) -> (r: Result<Visibility, HttpError>)
        requires
            db.privacy.wf(),
        ensures
            match privacy_of(db.privacy@, id) {
                Some(p) => r == Ok::<Visibility, HttpError>(p.hours_visibility),
                None => r matches Err(e) && e.is(INTERNAL_SERVER_ERROR, record_not_found_message()),
            },
    {
        Self::get_setting(db, id, PrivacySetting::HoursVisibility)
    }
}

/// A user who is given settings finds them, and every one of them is open.
pub proof fn law_new_user_settings_open(rows: Seq<UsersPrivacy>, id: i32, setting: PrivacySetting)
    ensures
        privacy_of(rows.push(UsersPrivacy::initial(id)), id) == Some(UsersPrivacy::initial(id)),
        UsersPrivacy::initial(id).setting(setting) == Visibility::Open,
{
    assert(rows.push(UsersPrivacy::initial(id)).drop_last() =~= rows);
}

} // verus!
