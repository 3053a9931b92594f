use vstd::prelude::*;
use chrono::NaiveDateTime;
use crate::cache::{Cache, lemma_record_of_filter, not_of_user, record_of};
use crate::http::{HttpError, NOT_FOUND, BAD_REQUEST};
use crate::models::userprofile::{UserStatus, UserStatuses};
use crate::repository::Database;
use crate::repository::user::{UserRepository, lemma_user_of_found, lemma_user_of_missing, user_ids_unique, user_of, user_not_found_message, with_last_seen};
use crate::models::user::UserView;
use crate::text::{decimal, push_i32};

verus! {

/// Message of a status asked for and not cached.
pub open spec fn record_not_cached_message() -> Seq<char> {
    "Запись статуса не была найдена"@
}

/// The status of a user that no record shows online: offline, on no server,
/// last seen at `last_seen`.
pub open spec fn offline_status(last_seen: NaiveDateTime) -> UserStatus {
    UserStatus { status: UserStatuses::Offline, server: None, last_seen_at: Some(last_seen) }
}

/// Reading the record of user `id` takes it out of the cache, and writes
/// the time it holds to the user's row, when it holds one.
pub open spec fn consumes_record(statuses: Seq<(i32, UserStatus)>, id: i32) -> bool {
    record_of(statuses, id) matches Some(r) && r.last_seen_at is Some
}

/// The users table once the record of user `id` is read.
pub open spec fn users_after_read(users: Seq<UserView>, statuses: Seq<(i32, UserStatus)>, id: i32) -> Seq<UserView> {
    if consumes_record(statuses, id) {
        with_last_seen(users, id, record_of(statuses, id)->Some_0.last_seen_at->Some_0)
    } else {
        users
    }
}

/// The status records once the record of user `id` is read.
pub open spec fn statuses_after_read(statuses: Seq<(i32, UserStatus)>, id: i32) -> Seq<(i32, UserStatus)> {
    if consumes_record(statuses, id) {
        statuses.filter(not_of_user(id))
    } else {
        statuses
    }
}

/// The status of user `id` as `get_full_status` gives it, when the user
/// has a row: the cached record, or else offline, last seen at `last_seen`
/// when given, at the time the row holds otherwise.
pub open spec fn full_status(users: Seq<UserView>, statuses: Seq<(i32, UserStatus)>, id: i32, last_seen: Option<NaiveDateTime>) -> UserStatus {
    match record_of(statuses, id) {
        Some(r) => r,
        None => offline_status(match last_seen {
            Some(t) => t,
            None => user_of(users, id)->Some_0.last_seen_at,
        }),
    }
}

/// The online status of users, from the records that game servers cache.
pub struct StatusService;

impl StatusService {
    /// The cache key of the status record of user `user_id`.
    pub fn record_key(user_id: i32) -> (k: String)
        ensures
            k@ == "status:"@ + decimal(user_id as int),
    {
        let mut k = String::from_str("status:");
        push_i32(&mut k, user_id);
        k
    }

    /// Reads the record of `user_id`. A record that holds the time the user
    /// was last seen is taken out of the cache, and that time goes to the
    /// user's row. Refused with `404` when there is no record.
    fn get_record(db: &mut Database, redis: &mut Cache, user_id: i32) -> (r: Result<UserStatus, HttpError>)
        requires
            old(db).wf(),
        ensures
            final(db).wf(),
            final(db).privacy == old(db).privacy,
            final(db).friendships == old(db).friendships,
            final(redis).invites == old(redis).invites,
            final(db).users@ == users_after_read(old(db).users@, old(redis).statuses@, user_id),
            final(redis).statuses@ == statuses_after_read(old(redis).statuses@, user_id),
            match record_of(old(redis).statuses@, user_id) {
                Some(rec) => r == Ok::<UserStatus, HttpError>(rec),
                None => r matches Err(e) && e.is(NOT_FOUND, record_not_cached_message()),
            },
    {
        match redis.statuses.get(user_id) {
            None => Err(HttpError::new("Запись статуса не была найдена", NOT_FOUND)),
            Some(record) => {
                if let Some(last_seen) = record.last_seen_at {
                    UserRepository::set_last_seen(db, user_id, last_seen);
                    redis.statuses.remove(user_id);
                }
                Ok(record)
            },
        }
    }

    /// What user `user_id` is doing: the cached record says, and without
    /// one the user is offline. Reading the record acts as `get_record`.
    pub fn get_status(db: &mut Database, redis: &mut Cache, user_id: i32) -> (r: UserStatuses)
        requires
            old(db).wf(),
        ensures
            final(db).wf(),
            final(db).privacy == old(db).privacy,
            final(db).friendships == old(db).friendships,
            final(redis).invites == old(redis).invites,
            final(db).users@ == users_after_read(old(db).users@, old(redis).statuses@, user_id),
            final(redis).statuses@ == statuses_after_read(old(redis).statuses@, user_id),
            r == match record_of(old(redis).statuses@, user_id) {
                Some(rec) => rec.status,
                None => UserStatuses::Offline,
            },
    {
        match Self::get_record(db, redis, user_id) {
            Ok(record) => record.status,
            Err(_) => UserStatuses::Offline,
        }
    }

    /// The status of user `user_id`: the cached record, read as by
    /// `get_record`; without one, offline and last seen at `last_seen_at`,
    /// or at the time the user's row holds. That time is read from the row
    /// even when `last_seen_at` gives one, so the answer is refused with
    /// `400` when there is neither a record nor a row.
    pub fn get_full_status(db: &mut Database, redis: &mut Cache, user_id: i32, last_seen_at: Option<NaiveDateTime>) -> (r: Result<UserStatus, HttpError>)
        requires
            old(db).wf(),
        ensures
            final(db).wf(),
            final(db).privacy == old(db).privacy,
            final(db).friendships == old(db).friendships,
            final(redis).invites == old(redis).invites,
            final(db).users@ == users_after_read(old(db).users@, old(redis).statuses@, user_id),
            final(redis).statuses@ == statuses_after_read(old(redis).statuses@, user_id),
            r is Err <==> record_of(old(redis).statuses@, user_id) is None && user_of(old(db).users@, user_id) is None,
            r matches Err(e) ==> e.is(BAD_REQUEST, user_not_found_message()),
            r matches Ok(s) ==> s == full_status(old(db).users@, old(redis).statuses@, user_id, last_seen_at),
    {
        match Self::get_record(db, redis, user_id) {
            Ok(record) => Ok(record),
            Err(_) => {
                let stored = UserRepository::get_last_seen(db, user_id)?;
                let last_seen = match last_seen_at {
                    Some(t) => t,
                    None => stored,
                };
                Ok(UserStatus { status: UserStatuses::Offline, server: None, last_seen_at: Some(last_seen) })
            },
        }
    }
}

/// A record that holds the time its user was last seen is read once: it is
/// then gone from the cache and the user's row holds that time, so reading
/// the status again finds the user offline, last seen then.
pub proof fn law_record_read_once(users: Seq<UserView>, statuses: Seq<(i32, UserStatus)>, id: i32)
    requires
        user_ids_unique(users),
        user_of(users, id) is Some,
        consumes_record(statuses, id),
    ensures
        ({
            let t = record_of(statuses, id)->Some_0.last_seen_at->Some_0;
            let users2 = users_after_read(users, statuses, id);
            let statuses2 = statuses_after_read(statuses, id);
            &&& record_of(statuses2, id) is None
            &&& full_status(users2, statuses2, id, None) == offline_status(t)
        }),
{
    let t = record_of(statuses, id)->Some_0.last_seen_at->Some_0;
    let users2 = with_last_seen(users, id, t);
    lemma_record_of_filter(statuses, id, id);
    if forall|k: int| 0 <= k < users.len() ==> #[trigger] users[k].id != id {
        lemma_user_of_missing(users, id);
    }
    let k = choose|k: int| 0 <= k < users.len() && #[trigger] users[k].id == id;
    assert forall|a: int, b: int|
        0 <= a < users2.len() && 0 <= b < users2.len() && a != b implies #[trigger] users2[a].id
            != #[trigger] users2[b].id by {
        assert(users2[a].id == users[a].id && users2[b].id == users[b].id);
    }
    lemma_user_of_found(users2, id, k);
}

} // verus!
