use vstd::prelude::*;
use chrono::NaiveDateTime;
use crate::http::{HttpError, BAD_REQUEST, CONFLICT};
use crate::models::user::{FriendsJson, User, UserUpdate, UserView, updated, with_listed, without_listed};
use crate::models::privacy::UsersPrivacy;
use super::privacy::{PrivacyRepository, privacy_of};
use super::Database;

verus! {

/// No two users share an id.
pub open spec fn user_ids_unique(rows: Seq<UserView>) -> bool {
    forall|i: int, j: int|
        0 <= i < rows.len() && 0 <= j < rows.len() && i != j ==> #[trigger] rows[i].id
            != #[trigger] rows[j].id
}

/// The user `id` in `rows`, if any.
pub open spec fn user_of(rows: Seq<UserView>, id: i32) -> Option<UserView>
    decreases rows.len(),
{
    if rows.len() == 0 {
        None
    } else if rows.last().id == id {
        Some(rows.last())
    } else {
        user_of(rows.drop_last(), id)
    }
}

/// The first user in `rows` with that email, if any.
pub open spec fn first_with_email(rows: Seq<UserView>, email: Seq<char>) -> Option<UserView>
    decreases rows.len(),
{
    if rows.len() == 0 {
        None
    } else if rows[0].email == email {
        Some(rows[0])
    } else {
        first_with_email(rows.drop_first(), email)
    }
}

/// The users on a page: at most `limit` of them, after the first `offset`.
pub open spec fn page(rows: Seq<UserView>, limit: int, offset: int) -> Seq<UserView> {
    let start = if offset < rows.len() { offset } else { rows.len() as int };
    let end = if start + limit < rows.len() { start + limit } else { rows.len() as int };
    rows.subrange(start, end)
}

/// The update names no field to change.
pub open spec fn is_empty_update(update: UserUpdate) -> bool {
    update.username is None && update.email is None && update.rank is None
}

/// `rows` with the last time user `id` was seen set to `at`.
pub open spec fn with_last_seen(rows: Seq<UserView>, id: i32, at: NaiveDateTime) -> Seq<UserView> {
    rows.map_values(|u: UserView| if u.id == id { UserView { last_seen_at: at, ..u } } else { u })
}

/// A user with the friend `other` added at the end of the friend list, when
/// the user is `id`.
pub open spec fn list_in(id: i32, other: i32) -> spec_fn(UserView) -> UserView {
    |u: UserView| if u.id == id { UserView { friends: with_listed(u.friends, other), ..u } } else { u }
}

/// A user with the entries that name the friend `other` taken out of the
/// friend list, when the user is `id`.
pub open spec fn unlist_in(id: i32, other: i32) -> spec_fn(UserView) -> UserView {
    |u: UserView| if u.id == id { UserView { friends: without_listed(u.friends, other), ..u } } else { u }
}

/// `rows` with the friend `other` added at the end of the friend list of
/// user `id`.
pub open spec fn listing(rows: Seq<UserView>, id: i32, other: i32) -> Seq<UserView> {
    rows.map_values(list_in(id, other))
}

/// `rows` with the entries that name the friend `other` taken out of the
/// friend list of user `id`.
pub open spec fn unlisting(rows: Seq<UserView>, id: i32, other: i32) -> Seq<UserView> {
    rows.map_values(unlist_in(id, other))
}

/// User `id` has a row whose friends are a JSON scalar, from which no entry
/// can be taken out.
pub open spec fn blocks_unlisting(rows: Seq<UserView>, id: i32) -> bool {
    user_of(rows, id) matches Some(u) && u.friends is Scalar
}

/// The user found for an id has that id.
pub proof fn lemma_user_of_id(rows: Seq<UserView>, id: i32)
    ensures
        user_of(rows, id) matches Some(u) ==> u.id == id,
    decreases rows.len(),
{
    if rows.len() > 0 {
        lemma_user_of_id(rows.drop_last(), id);
    }
}

/// Changing each user but not the ids, the user of an id is found changed.
pub proof fn lemma_user_of_map(rows: Seq<UserView>, f: spec_fn(UserView) -> UserView, id: i32)
    requires
        forall|u: UserView| (#[trigger] f(u)).id == u.id,
    ensures
        user_of(rows.map_values(f), id) == (match user_of(rows, id) {
            Some(u) => Some(f(u)),
            None => None,
        }),
    decreases rows.len(),
{
    if rows.len() > 0 {
        assert(rows.map_values(f).drop_last() =~= rows.drop_last().map_values(f));
        assert(rows.map_values(f).last() == f(rows.last()));
        lemma_user_of_map(rows.drop_last(), f, id);
    }
}

/// The users but `id`, as a filter.
pub open spec fn other_than_user(id: i32) -> spec_fn(UserView) -> bool {
    |u: UserView| u.id != id
}

/// In a table keyed by id, the user of `id` is the one found.
pub proof fn lemma_user_of_found(rows: Seq<UserView>, id: i32, i: int)
    requires
        user_ids_unique(rows),
        0 <= i < rows.len(),
        rows[i].id == id,
    ensures
        user_of(rows, id) == Some(rows[i]),
    decreases rows.len(),
{
    if i != rows.len() - 1 {
        assert(rows.last() == rows[rows.len() - 1]);
        let rest = rows.drop_last();
        assert(rest[i] == rows[i]);
        assert forall|a: int, b: int|
            0 <= a < rest.len() && 0 <= b < rest.len() && a != b implies #[trigger] rest[a].id
                != #[trigger] rest[b].id by {
            assert(rest[a] == rows[a] && rest[b] == rows[b]);
        }
        lemma_user_of_found(rest, id, i);
    }
}

/// When no user has id `id`, none is found.
pub proof fn lemma_user_of_missing(rows: Seq<UserView>, id: i32)
    requires
        forall|i: int| 0 <= i < rows.len() ==> #[trigger] rows[i].id != id,
    ensures
        user_of(rows, id) is None,
    decreases rows.len(),
{
    if rows.len() > 0 {
        assert(rows.last() == rows[rows.len() - 1]);
        let rest = rows.drop_last();
        assert forall|i: int| 0 <= i < rest.len() implies #[trigger] rest[i].id != id by {
            assert(rest[i] == rows[i]);
        }
        lemma_user_of_missing(rest, id);
    }
}

/// Looking for an email from position `i` on, past users of other emails.
proof fn lemma_first_with_email_skip(rows: Seq<UserView>, email: Seq<char>, i: int)
    requires
        0 <= i <= rows.len(),
        forall|k: int| 0 <= k < i ==> #[trigger] rows[k].email != email,
    ensures
        first_with_email(rows, email) == first_with_email(rows.skip(i), email),
    decreases i,
{
    if i > 0 {
        assert(rows[0].email != email);
        let rest = rows.drop_first();
        assert forall|k: int| 0 <= k < i - 1 implies #[trigger] rest[k].email != email by {
            assert(rest[k] == rows[k + 1]);
        }
        lemma_first_with_email_skip(rest, email, i - 1);
        assert(rest.skip(i - 1) =~= rows.skip(i));
    } else {
        assert(rows.skip(0) =~= rows);
    }
}

/// Message of a user looked for and not found.
pub open spec fn user_not_found_message() -> Seq<char> {
    "Не получилось найти пользователя"@
}

/// Message of a user that could not be added.
pub open spec fn user_not_added_message() -> Seq<char> {
    "Не получилось добавить пользователя"@
}

/// Message of a user that could not be changed.
pub open spec fn user_not_updated_message() -> Seq<char> {
    "Не получилось обновить пользователя"@
}

/// The users table.
pub struct UserTable {
    rows: Vec<User>,
}

impl View for UserTable {
    type V = Seq<UserView>;

    closed spec fn view(&self) -> Seq<UserView> {
        self.rows@.map_values(|u: User| u@)
    }
}

impl UserTable {
    /// Each id belongs to one user at most.
    pub open spec fn wf(&self) -> bool {
        user_ids_unique(self@)
    }

    /// An empty table.
    pub fn new() -> (t: UserTable)
        ensures
            t@ == Seq::<UserView>::empty(),
            t.wf(),
    {
        let t = UserTable { rows: Vec::new() };
        assert(t@ =~= Seq::<UserView>::empty());
        t
    }

    /// The table of `rows`, unless two of them share an id.
    pub fn from_rows(rows: Vec<User>) -> (t: Option<UserTable>)
        ensures
            t is Some <==> user_ids_unique(rows@.map_values(|u: User| u@)),
            t matches Some(t) ==> t@ == rows@.map_values(|u: User| u@) && t.wf(),
    {
        let ghost view = rows@.map_values(|u: User| u@);
        let n = rows.len();
        let mut i: usize = 0;
        while i < n
            invariant
                n == rows@.len(),
                view == rows@.map_values(|u: User| u@),
                i <= n,
                forall|a: int, b: int|
                    0 <= a < i && 0 <= b < n && a != b ==> #[trigger] view[a].id != #[trigger] view[b].id,
            decreases n - i,
        {
            let mut j: usize = 0;
            while j < n
                invariant
                    n == rows@.len(),
                    view == rows@.map_values(|u: User| u@),
                    i < n,
                    j <= n,
                    forall|a: int, b: int|
                        0 <= a < i && 0 <= b < n && a != b ==> #[trigger] view[a].id != #[trigger] view[b].id,
                    forall|b: int| 0 <= b < j && i != b ==> view[i as int].id != #[trigger] view[b].id,
                decreases n - j,
            {
                if i != j && rows[i].id == rows[j].id {
                    assert(view[i as int].id == view[j as int].id);
                    assert(!user_ids_unique(view));
                    return None;
                }
                j = j + 1;
            }
            i = i + 1;
        }
        Some(UserTable { rows })
    }

    /// The rows, in the table's order.
    pub fn rows(&self) -> (r: &Vec<User>)
        ensures
            r@.map_values(|u: User| u@) == self@,
    {
        &self.rows
    }

    /// Where user `id` stands in the table, if it does.
    pub fn position(&self, id: i32) -> (r: Option<usize>)
        requires
            self.wf(),
        ensures
            match r {
                Some(i) => i < self@.len() && self@[i as int].id == id && user_of(self@, id) == Some(self@[i as int]),
                None => user_of(self@, id) is None,
            },
    {
        let n = self.rows.len();
        let mut i: usize = 0;
        while i < n
            invariant
                n == self@.len(),
                i <= n,
                self.wf(),
                forall|k: int| 0 <= k < i ==> #[trigger] self@[k].id != id,
            decreases n - i,
        {
            if self.rows[i].id == id {
                proof {
                    lemma_user_of_found(self@, id, i as int);
                }
                return Some(i);
            }
            i = i + 1;
        }
        proof {
            lemma_user_of_missing(self@, id);
        }
        None
    }

    /// Whether the friends of user `id` are a JSON scalar.
    pub fn friends_are_scalar(&self, id: i32) -> (r: bool)
        requires
            self.wf(),
        ensures
            r == blocks_unlisting(self@, id),
    {
        match self.position(id) {
            Some(i) => matches!(self.rows[i].friends, FriendsJson::Scalar(_)),
            None => false,
        }
    }

    /// Adds the friend `other` at the end of the friend list of user `id`;
    /// nothing changes when there is no such user.
    pub fn list_friend(&mut self, id: i32, other: i32)
        requires
            old(self).wf(),
        ensures
            final(self).wf(),
            final(self)@ == listing(old(self)@, id, other),
    {
        self.change_friends(id, other, true);
    }

    /// Takes the entries that name the friend `other` out of the friend
    /// list of user `id`; nothing changes when there is no such user.
    pub fn unlist_friend(&mut self, id: i32, other: i32)
        requires
            old(self).wf(),
        ensures
            final(self).wf(),
            final(self)@ == unlisting(old(self)@, id, other),
    {
        self.change_friends(id, other, false);
    }

    /// Adds `other` to the friend list of user `id`, or takes it out.
    fn change_friends(&mut self, id: i32, other: i32, add: bool)
        requires
            old(self).wf(),
        ensures
            final(self).wf(),
            add ==> final(self)@ == listing(old(self)@, id, other),
            !add ==> final(self)@ == unlisting(old(self)@, id, other),
    {
        match self.position(id) {
            None => {
                proof {
                    assert forall|k: int| 0 <= k < self@.len() implies #[trigger] self@[k].id != id by {
                        if self@[k].id == id {
                            lemma_user_of_found(self@, id, k);
                        }
                    }
                    assert(self@ =~= listing(old(self)@, id, other));
                    assert(self@ =~= unlisting(old(self)@, id, other));
                }
            },
            Some(i) => {
                let mut row = self.rows[i].clone();
                if add {
                    row.friends.add_listed(other);
                } else {
                    row.friends.remove_listed(other);
                }
                self.rows.set(i, row);
                proof {
                    assert forall|k: int| 0 <= k < old(self)@.len() && k != i implies #[trigger] old(self)@[k].id != id by {
                    }
                    if add {
                        assert(self@ =~= listing(old(self)@, id, other));
                    } else {
                        assert(self@ =~= unlisting(old(self)@, id, other));
                    }
                    assert forall|a: int, b: int|
                        0 <= a < self@.len() && 0 <= b < self@.len() && a != b implies #[trigger] self@[a].id
                            != #[trigger] self@[b].id by {
                        assert(self@[a].id == old(self)@[a].id);
                        assert(self@[b].id == old(self)@[b].id);
                    }
                }
            },
        }
    }
}

/// Reading and writing users.
pub struct UserRepository;

impl UserRepository {
    /// The user `id`. Refused with `400` when there is none.
    pub fn get_user(db: &Database, id: i32) -> (r: Result<User, HttpError>)
        requires
            db.users.wf(),
        ensures
            match user_of(db.users@, id) {
                Some(u) => r matches Ok(x) && x@ == u,
                None => r matches Err(e) && e.is(BAD_REQUEST, user_not_found_message()),
            },
    {
        match db.users.position(id) {
            Some(i) => Ok(db.users.rows[i].clone()),
            None => Err(HttpError::new("Не получилось найти пользователя", BAD_REQUEST)),
        }
    }

    /// The first user with that email. Refused with `400` when there is none.
    pub fn find_by_email(db: &Database, email: String) -> (r: Result<User, HttpError>)
        ensures
            match first_with_email(db.users@, email@) {
                Some(u) => r matches Ok(x) && x@ == u,
                None => r matches Err(e) && e.is(BAD_REQUEST, user_not_found_message()),
            },
    {
        let n = db.users.rows.len();
        let mut i: usize = 0;
        while i < n
            invariant
                n == db.users@.len(),
                i <= n,
                forall|k: int| 0 <= k < i ==> #[trigger] db.users@[k].email != email@,
            decreases n - i,
        {
            if db.users.rows[i].email == email {
                proof {
                    lemma_first_with_email_skip(db.users@, email@, i as int);
                    assert(db.users@.skip(i as int)[0] == db.users@[i as int]);
                }
                return Ok(db.users.rows[i].clone());
            }
            i = i + 1;
        }
        proof {
            lemma_first_with_email_skip(db.users@, email@, n as int);
        }
        Err(HttpError::new("Не получилось найти пользователя", BAD_REQUEST))
    }

    /// A page of users: at most `limit`, after the first `offset`, in the
    /// table's order.
    pub fn get_users(db: &Database, limit: u8, offset: u32) -> (r: Vec<User>)
        ensures
            r@.map_values(|u: User| u@) == page(db.users@, limit as int, offset as int),
    {
        let n = db.users.rows.len();
        let start: usize = if (offset as usize) < n { offset as usize } else { n };
        let end: usize = if limit as usize <= n - start { start + limit as usize } else { n };
        let mut r: Vec<User> = Vec::new();
        let mut i: usize = start;
        while i < end
            invariant
                n == db.users@.len(),
                start <= i <= end <= n,
                r@.map_values(|u: User| u@) == db.users@.subrange(start as int, i as int),
            decreases end - i,
        {
            let u = db.users.rows[i].clone();
            let ghost before = r@;
            assert(db.users@[i as int] == u@);
            r.push(u);
            assert(r@.map_values(|u: User| u@) =~= before.map_values(|u: User| u@).push(u@));
            assert(r@.map_values(|u: User| u@) =~= db.users@.subrange(start as int, i + 1));
            i = i + 1;
        }
        r
    }

    /// Adds `user`, as the database completes it from what the client sent,
    /// and gives the new user the default privacy settings unless the user
    /// has some. Refused with `409` when the id is taken.
    pub fn add_user(db: &mut Database, user: User) -> (r: Result<User, HttpError>)
        requires
            old(db).users.wf(),
            old(db).privacy.wf(),
        ensures
            final(db).users.wf(),
            final(db).privacy.wf(),
            final(db).friendships == old(db).friendships,
            r is Err <==> user_of(old(db).users@, user.id) is Some,
            r matches Err(e) ==> e.is(CONFLICT, user_not_added_message()) && final(db).users@ == old(db).users@
                && final(db).privacy@ == old(db).privacy@,
            r matches Ok(u) ==> u@ == user@ && final(db).users@ == old(db).users@.push(user@)
                && final(db).privacy@ == (if privacy_of(old(db).privacy@, user.id) is Some { old(db).privacy@ }
                    else { old(db).privacy@.push(UsersPrivacy::initial(user.id)) }),
    {
        if db.users.position(user.id).is_some() {
            return Err(HttpError::new("Не получилось добавить пользователя", CONFLICT));
        }
        let id = user.id;
        let copy = user.clone();
        proof {
            if !(forall|k: int| 0 <= k < db.users@.len() ==> #[trigger] db.users@[k].id != id) {
                let k = choose|k: int| 0 <= k < db.users@.len() && #[trigger] db.users@[k].id == id;
                lemma_user_of_found(db.users@, id, k);
            }
        }
        db.users.rows.push(user);
        proof {
            assert(db.users@ =~= old(db).users@.push(user@));
            assert forall|a: int, b: int|
                0 <= a < db.users@.len() && 0 <= b < db.users@.len() && a != b implies #[trigger] db.users@[a].id
                    != #[trigger] db.users@[b].id by {
                if a < old(db).users@.len() && b < old(db).users@.len() {
                    assert(db.users@[a] == old(db).users@[a] && db.users@[b] == old(db).users@[b]);
                } else if a < old(db).users@.len() {
                    assert(db.users@[a] == old(db).users@[a]);
                } else {
                    assert(db.users@[b] == old(db).users@[b]);
                }
            }
        }
        let _ = PrivacyRepository::add_user(db, id);
        Ok(copy)
    }

    /// Changes user `id` as `update` says, and gives the user back. Refused
    /// with `400` when there is no such user, or when `update` changes
    /// nothing.
    pub fn patch_user(db: &mut Database, id: i32, update: UserUpdate) -> (r: Result<User, HttpError>)
        requires
            old(db).users.wf(),
        ensures
            final(db).users.wf(),
            final(db).privacy == old(db).privacy,
            final(db).friendships == old(db).friendships,
            r is Err <==> user_of(old(db).users@, id) is None || is_empty_update(update),
            r matches Err(e) ==> e.is(BAD_REQUEST, user_not_updated_message()) && final(db).users@ == old(db).users@,
            r matches Ok(u) ==> exists|i: int|
                0 <= i < old(db).users@.len() && #[trigger] old(db).users@[i].id == id
                    && u@ == updated(old(db).users@[i], update)
                    && final(db).users@ == old(db).users@.update(i, u@),
    {
        if update.username.is_none() && update.email.is_none() && update.rank.is_none() {
            return Err(HttpError::new("Не получилось обновить пользователя", BAD_REQUEST));
        }
        match db.users.position(id) {
            None => Err(HttpError::new("Не получилось обновить пользователя", BAD_REQUEST)),
            Some(i) => {
                let mut row = db.users.rows[i].clone();
                row.apply(update);
                let copy = row.clone();
                db.users.rows.set(i, row);
                proof {
                    assert(db.users@ =~= old(db).users@.update(i as int, copy@));
                    assert forall|a: int, b: int|
                        0 <= a < db.users@.len() && 0 <= b < db.users@.len() && a != b implies #[trigger] db.users@[a].id
                            != #[trigger] db.users@[b].id by {
                        assert(db.users@[a].id == old(db).users@[a].id);
                        assert(db.users@[b].id == old(db).users@[b].id);
                    }
                }
                Ok(copy)
            },
        }
    }

    /// Deletes user `id`, if there is one.
    pub fn delete_user(db: &mut Database, id: i32)
        requires
            old(db).users.wf(),
        ensures
            final(db).users.wf(),
            final(db).privacy == old(db).privacy,
            final(db).friendships == old(db).friendships,
            final(db).users@ == old(db).users@.filter(other_than_user(id)),
    {
        let mut kept: Vec<User> = Vec::new();
        let n = db.users.rows.len();
        let mut i: usize = 0;
        while i < n
            invariant
                n == db.users@.len(),
                i <= n,
                db.users@ == old(db).users@,
                kept@.map_values(|u: User| u@) == db.users@.take(i as int).filter(other_than_user(id)),
            decreases n - i,
        {
            let u = db.users.rows[i].clone();
            proof {
                reveal(Seq::filter);
                assert(db.users@.take(i + 1).drop_last() =~= db.users@.take(i as int));
                assert(db.users@.take(i + 1).last() == u@);
            }
            if u.id != id {
                kept.push(u);
                assert(kept@.map_values(|u: User| u@) =~= db.users@.take(i + 1).filter(other_than_user(id)));
            }
            i = i + 1;
        }
        assert(db.users@.take(n as int) =~= db.users@);
        db.users.rows = kept;
        proof {
            let s = old(db).users@;
            let out = s.filter(other_than_user(id));
            assert forall|a: int, b: int|
                0 <= a < out.len() && 0 <= b < out.len() && a != b implies #[trigger] out[a].id
                    != #[trigger] out[b].id by {
                s.lemma_filter_pred(other_than_user(id), a);
                s.lemma_filter_pred(other_than_user(id), b);
                lemma_filter_ids_unique(s, other_than_user(id));
            }
        }
    }

    /// When user `id` was last seen. Refused with `400` when there is no
    /// such user.
    pub fn get_last_seen(db: &Database, id: i32) -> (r: Result<NaiveDateTime, HttpError>)
        requires
            db.users.wf(),
        ensures
            match user_of(db.users@, id) {
                Some(u) => r == Ok::<NaiveDateTime, HttpError>(u.last_seen_at),
                None => r matches Err(e) && e.is(BAD_REQUEST, user_not_found_message()),
            },
    {
        match db.users.position(id) {
            Some(i) => Ok(db.users.rows[i].last_seen_at),
            None => Err(HttpError::new("Не получилось найти пользователя", BAD_REQUEST)),
        }
    }

    /// Records that user `id` was last seen at `at`; nothing changes when
    /// there is no such user.
    pub fn set_last_seen(db: &mut Database, id: i32, at: NaiveDateTime)
        requires
            old(db).users.wf(),
        ensures
            final(db).users.wf(),
            final(db).privacy == old(db).privacy,
            final(db).friendships == old(db).friendships,
            final(db).users@ == with_last_seen(old(db).users@, id, at),
    {
        match db.users.position(id) {
            None => {
                proof {
                    assert forall|k: int| 0 <= k < db.users@.len() implies #[trigger] db.users@[k].id != id by {
                        if db.users@[k].id == id {
                            lemma_user_of_found(db.users@, id, k);
                        }
                    }
                    assert(db.users@ =~= with_last_seen(old(db).users@, id, at));
                }
            },
            Some(i) => {
                let mut row = db.users.rows[i].clone();
                row.last_seen_at = at;
                db.users.rows.set(i, row);
                proof {
                    assert forall|k: int| 0 <= k < old(db).users@.len() && k != i implies #[trigger] old(db).users@[k].id != id by {
                    }
                    assert(db.users@ =~= with_last_seen(old(db).users@, id, at));
                    assert forall|a: int, b: int|
                        0 <= a < db.users@.len() && 0 <= b < db.users@.len() && a != b implies #[trigger] db.users@[a].id
                            != #[trigger] db.users@[b].id by {
                        assert(db.users@[a].id == old(db).users@[a].id);
                        assert(db.users@[b].id == old(db).users@[b].id);
                    }
                }
            },
        }
    }
}

/// Keeping some users of a table keeps their ids unique.
pub proof fn lemma_filter_ids_unique(s: Seq<UserView>, p: spec_fn(UserView) -> bool)
    requires
        user_ids_unique(s),
    ensures
        user_ids_unique(s.filter(p)),
    decreases s.len(),
{
    reveal(Seq::filter);
    if s.len() > 0 {
        let rest = s.drop_last();
        assert forall|i: int, j: int|
            0 <= i < rest.len() && 0 <= j < rest.len() && i != j implies #[trigger] rest[i].id
                != #[trigger] rest[j].id by {
            assert(rest[i] == s[i] && rest[j] == s[j]);
        }
        lemma_filter_ids_unique(rest, p);
        let fr = rest.filter(p);
        if p(s.last()) {
            assert forall|k: int| 0 <= k < fr.len() implies #[trigger] fr[k].id != s.last().id by {
                assert(fr.contains(fr[k]));
                rest.lemma_filter_contains_rev(p, fr[k]);
                let j = choose|j: int| 0 <= j < rest.len() && rest[j] == fr[k];
                assert(s[j] == fr[k]);
                assert(s[s.len() - 1] == s.last());
            }
            let out = fr.push(s.last());
            assert(s.filter(p) == out);
            assert forall|i: int, j: int|
                0 <= i < out.len() && 0 <= j < out.len() && i != j implies #[trigger] out[i].id
                    != #[trigger] out[j].id by {
                if i == fr.len() {
                    assert(out[j] == fr[j]);
                } else if j == fr.len() {
                    assert(out[i] == fr[i]);
                } else {
                    assert(out[i] == fr[i] && out[j] == fr[j]);
                }
            }
        }
    }
}

/// A user added is found by id, as added.
pub proof fn law_user_read_after_add(rows: Seq<UserView>, user: UserView)
    requires
        user_of(rows, user.id) is None,
    ensures
        user_of(rows.push(user), user.id) == Some(user),
{
    assert(rows.push(user).drop_last() =~= rows);
}

/// A user changed is found by id, as changed; the other users are found as
/// they were.
pub proof fn law_user_read_after_patch(rows: Seq<UserView>, i: int, update: UserUpdate, other: i32)
    requires
        user_ids_unique(rows),
        0 <= i < rows.len(),
    ensures
        user_of(rows.update(i, updated(rows[i], update)), rows[i].id) == Some(updated(rows[i], update)),
        other != rows[i].id ==> user_of(rows.update(i, updated(rows[i], update)), other) == user_of(rows, other),
{
    let after = rows.update(i, updated(rows[i], update));
    assert forall|a: int, b: int|
        0 <= a < after.len() && 0 <= b < after.len() && a != b implies #[trigger] after[a].id
            != #[trigger] after[b].id by {
        assert(after[a].id == rows[a].id && after[b].id == rows[b].id);
    }
    lemma_user_of_found(after, rows[i].id, i);
    if other != rows[i].id {
        if exists|k: int| 0 <= k < rows.len() && #[trigger] rows[k].id == other {
            let k = choose|k: int| 0 <= k < rows.len() && #[trigger] rows[k].id == other;
            lemma_user_of_found(rows, other, k);
            lemma_user_of_found(after, other, k);
        } else {
            lemma_user_of_missing(rows, other);
            assert forall|k: int| 0 <= k < after.len() implies #[trigger] after[k].id != other by {
                assert(after[k].id == rows[k].id);
            }
            lemma_user_of_missing(after, other);
        }
    }
}

/// A user deleted is found no more.
pub proof fn law_user_read_after_delete(rows: Seq<UserView>, id: i32)
    ensures
        user_of(rows.filter(other_than_user(id)), id) is None,
{
    let out = rows.filter(other_than_user(id));
    assert forall|k: int| 0 <= k < out.len() implies #[trigger] out[k].id != id by {
        rows.lemma_filter_pred(other_than_user(id), k);
    }
    lemma_user_of_missing(out, id);
}

} // verus!
