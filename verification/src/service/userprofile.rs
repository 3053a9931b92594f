use vstd::prelude::*;
use crate::cache::Cache;
use crate::http::{HttpError, BAD_REQUEST, FORBIDDEN, INTERNAL_SERVER_ERROR};
use crate::models::friends::Friendship;
use crate::models::privacy::{PrivacySetting, UsersPrivacy};
use crate::models::user::{UserIdQuery, UserView};
use crate::models::userprofile::{ProfileView, UserProfile, UserStatus};
use crate::repository::Database;
use crate::repository::privacy::{privacy_of, record_not_found_message};
use crate::repository::user::{UserRepository, lemma_user_of_id, user_of, user_not_found_message};
use crate::cache::record_of;
use crate::models::userprofile::UserStatuses;
use super::privacy::{PrivacyService, permits, refusal_message};
use super::status::{StatusService, full_status, statuses_after_read, users_after_read};

verus! {

/// Who asks for a profile: the query given, or else the user whose profile
/// it is.
pub open spec fn profile_requester(query: Option<UserIdQuery>, user_id: i32) -> UserIdQuery {
    match query {
        Some(q) => q,
        None => UserIdQuery { user_id: Some(user_id) },
    }
}

/// The status and message that a request for the profile of `user_id` is
/// refused with, if it is: the user has no settings (`500`), may not be
/// seen (`403`), or has no row (`400`).
pub open spec fn profile_refusal(
    privacy: Seq<UsersPrivacy>,
    friendships: Seq<Friendship>,
    users: Seq<UserView>,
    query: Option<UserIdQuery>,
    user_id: i32,
) -> Option<(u16, Seq<char>)> {
    match privacy_of(privacy, user_id) {
        None => Some((INTERNAL_SERVER_ERROR, record_not_found_message())),
        Some(p) => if !permits(p.profile_visibility, friendships, profile_requester(query, user_id).user_id, user_id) {
            Some((FORBIDDEN, refusal_message(PrivacySetting::ProfileVisibility)))
        } else if user_of(users, user_id) is None {
            Some((BAD_REQUEST, user_not_found_message()))
        } else {
            None
        },
    }
}

/// The profile of user `user_id`, who has a row: the row's fields, and the
/// user's status.
pub open spec fn profile_of(users: Seq<UserView>, statuses: Seq<(i32, UserStatus)>, user_id: i32) -> ProfileView {
    let u = user_of(users, user_id)->Some_0;
    ProfileView {
        id: u.id,
        username: u.username,
        rank: u.rank,
        status: full_status(users, statuses, user_id, Some(u.last_seen_at)),
        registered_at: u.registered_at,
    }
}

/// What reading the profiles of the users of `ids`, in order, for the
/// request `query` gives: the refusal that stopped it, if one did; the
/// profiles read before; and the users table and status records it leaves.
/// Each profile is read from the tables as the reads before it left them.
pub open spec fn profile_run(
    privacy: Seq<UsersPrivacy>,
    friendships: Seq<Friendship>,
    users: Seq<UserView>,
    statuses: Seq<(i32, UserStatus)>,
    query: Option<UserIdQuery>,
    ids: Seq<i32>,
) -> (Option<(u16, Seq<char>)>, Seq<ProfileView>, Seq<UserView>, Seq<(i32, UserStatus)>)
    decreases ids.len(),
{
    if ids.len() == 0 {
        (None, Seq::empty(), users, statuses)
    } else {
        let (err, profiles, u, s) = profile_run(privacy, friendships, users, statuses, query, ids.drop_last());
        if err is Some {
            (err, profiles, u, s)
        } else {
            match profile_refusal(privacy, friendships, u, query, ids.last()) {
                Some(refusal) => (Some(refusal), profiles, u, s),
                None => (
                    None,
                    profiles.push(profile_of(u, s, ids.last())),
                    users_after_read(u, s, ids.last()),
                    statuses_after_read(s, ids.last()),
                ),
            }
        }
    }
}

/// Once a read is refused, the reads after it do not happen.
pub proof fn lemma_profile_run_stops(
    privacy: Seq<UsersPrivacy>,
    friendships: Seq<Friendship>,
    users: Seq<UserView>,
    statuses: Seq<(i32, UserStatus)>,
    query: Option<UserIdQuery>,
    ids: Seq<i32>,
    k: int,
)
    requires
        0 <= k <= ids.len(),
        profile_run(privacy, friendships, users, statuses, query, ids.take(k)).0 is Some,
    ensures
        profile_run(privacy, friendships, users, statuses, query, ids)
            == profile_run(privacy, friendships, users, statuses, query, ids.take(k)),
    decreases ids.len() - k,
{
    if k < ids.len() {
        assert(ids.take(k + 1).drop_last() =~= ids.take(k));
        lemma_profile_run_stops(privacy, friendships, users, statuses, query, ids, k + 1);
    } else {
        assert(ids.take(k) =~= ids);
    }
}

/// A run reads at most one profile for each id.
pub proof fn lemma_profile_run_len(
    privacy: Seq<UsersPrivacy>,
    friendships: Seq<Friendship>,
    users: Seq<UserView>,
    statuses: Seq<(i32, UserStatus)>,
    query: Option<UserIdQuery>,
    ids: Seq<i32>,
)
    ensures
        profile_run(privacy, friendships, users, statuses, query, ids).1.len() <= ids.len(),
    decreases ids.len(),
{
    if ids.len() > 0 {
        lemma_profile_run_len(privacy, friendships, users, statuses, query, ids.drop_last());
    }
}

/// The profile of a user who has a row shows the user's cached status
/// record, as it is, when the cache holds one; without one, the user is
/// offline, on no server, last seen when the row says. The other fields are
/// the row's.
pub proof fn law_profile_shows_status(users: Seq<UserView>, statuses: Seq<(i32, UserStatus)>, id: i32)
    requires
        user_of(users, id) is Some,
    ensures
        ({
            let p = profile_of(users, statuses, id);
            let u = user_of(users, id)->Some_0;
            &&& record_of(statuses, id) matches Some(rec) ==> p.status == rec
            &&& record_of(statuses, id) is None ==> p.status == (UserStatus {
                status: UserStatuses::Offline,
                server: None,
                last_seen_at: Some(u.last_seen_at),
            })
            &&& p.id == id
            &&& p.username == u.username
            &&& p.rank == u.rank
            &&& p.registered_at == u.registered_at
        }),
{
    lemma_user_of_id(users, id);
}

/// A run reads the profiles of its ids in their order: the profile read
/// `k`-th is that of the `k`-th id.
pub proof fn law_profile_run_ids(
    privacy: Seq<UsersPrivacy>,
    friendships: Seq<Friendship>,
    users: Seq<UserView>,
    statuses: Seq<(i32, UserStatus)>,
    query: Option<UserIdQuery>,
    ids: Seq<i32>,
)
    ensures
        ({
            let run = profile_run(privacy, friendships, users, statuses, query, ids);
            &&& run.1.len() <= ids.len()
            &&& run.0 is None ==> run.1.len() == ids.len()
            &&& forall|k: int| 0 <= k < run.1.len() ==> (#[trigger] run.1[k]).id == ids[k]
        }),
    decreases ids.len(),
{
    if ids.len() > 0 {
        let rest = ids.drop_last();
        law_profile_run_ids(privacy, friendships, users, statuses, query, rest);
        let prev = profile_run(privacy, friendships, users, statuses, query, rest);
        let run = profile_run(privacy, friendships, users, statuses, query, ids);
        if prev.0 is None && profile_refusal(privacy, friendships, prev.2, query, ids.last()) is None {
            lemma_user_of_id(prev.2, ids.last());
            assert forall|k: int| 0 <= k < run.1.len() implies (#[trigger] run.1[k]).id == ids[k] by {
                if k < prev.1.len() {
                    assert(run.1[k] == prev.1[k]);
                    assert(rest[k] == ids[k]);
                }
            }
        } else {
            assert forall|k: int| 0 <= k < run.1.len() implies (#[trigger] run.1[k]).id == ids[k] by {
                assert(rest[k] == ids[k]);
            }
        }
    }
}

/// What a request for a profile leaves of the database and cache: refused,
/// nothing changes; answered, the user's status record is read.
pub open spec fn profile_effect(old_db: Database, old_redis: Cache, db: Database, redis: Cache, refused: bool, user_id: i32) -> bool {
    &&& db.wf()
    &&& db.privacy == old_db.privacy
    &&& db.friendships == old_db.friendships
    &&& redis.invites == old_redis.invites
    &&& refused ==> db.users@ == old_db.users@ && redis.statuses@ == old_redis.statuses@
    &&& !refused ==> db.users@ == users_after_read(old_db.users@, old_redis.statuses@, user_id)
        && redis.statuses@ == statuses_after_read(old_redis.statuses@, user_id)
}

/// Profiles of users.
pub struct UserProfileService;

impl UserProfileService {
    /// The profile of user `user_id`, as the request `query` may see it:
    /// without a query, as the user sees it. Refused as `profile_refusal`
    /// says; else the user's row and status make the profile.
    pub fn get_user_profile(db: &mut Database, redis: &mut Cache, query: Option<UserIdQuery>, user_id: i32) -> (r: Result<UserProfile, HttpError>)
        requires
            old(db).wf(),
        ensures
            profile_effect(*old(db), *old(redis), *final(db), *final(redis), r is Err, user_id),
            match profile_refusal(old(db).privacy@, old(db).friendships@, old(db).users@, query, user_id) {
                Some((status, message)) => r matches Err(e) && e.is(status, message),
                None => r matches Ok(p) && p@ == profile_of(old(db).users@, old(redis).statuses@, user_id),
            },
    {
        let q = match query {
            Some(q) => q,
            None => UserIdQuery { user_id: Some(user_id) },
        };
        PrivacyService::check_profile_visibility(db, q, user_id)?;
        let user = UserRepository::get_user(db, user_id)?;
        let status = StatusService::get_full_status(db, redis, user_id, Some(user.last_seen_at))?;
        Ok(UserProfile {
            id: user.id,
            username: user.username,
            rank: user.rank,
            status,
            registered_at: user.registered_at,
        })
    }

    /// Reads the profiles of the users of `ids`, in order, for the request
    /// `query`, until one is refused: gives the profiles read, and the
    /// refusal, if there was one.
    pub fn read_profiles(db: &mut Database, redis: &mut Cache, query: Option<UserIdQuery>, ids: &Vec<i32>) -> (r: (Vec<UserProfile>, Option<HttpError>))
        requires
            old(db).wf(),
        ensures
            ({
                let run = profile_run(old(db).privacy@, old(db).friendships@, old(db).users@, old(redis).statuses@, query, ids@);
                &&& final(db).wf()
                &&& final(db).privacy == old(db).privacy
                &&& final(db).friendships == old(db).friendships
                &&& final(redis).invites == old(redis).invites
                &&& final(db).users@ == run.2
                &&& final(redis).statuses@ == run.3
                &&& r.0@.map_values(|p: UserProfile| p@) == run.1
                &&& match run.0 {
                    Some((status, message)) => r.1 matches Some(e) && e.is(status, message),
                    None => r.1 is None,
                }
            }),
    {
        let ghost privacy = db.privacy@;
        let ghost friendships = db.friendships@;
        let ghost users = db.users@;
        let ghost statuses = redis.statuses@;
        let mut profiles: Vec<UserProfile> = Vec::new();
        let n = ids.len();
        let mut i: usize = 0;
        while i < n
            invariant
                n == ids@.len(),
                i <= n,
                db.wf(),
                db.privacy == old(db).privacy,
                db.friendships == old(db).friendships,
                redis.invites == old(redis).invites,
                privacy == old(db).privacy@,
                friendships == old(db).friendships@,
                users == old(db).users@,
                statuses == old(redis).statuses@,
                ({
                    let run = profile_run(privacy, friendships, users, statuses, query, ids@.take(i as int));
                    &&& run.0 is None
                    &&& run.2 == db.users@
                    &&& run.3 == redis.statuses@
                    &&& run.1 == profiles@.map_values(|p: UserProfile| p@)
                }),
            decreases n - i,
        {
            proof {
                assert(ids@.take(i + 1).drop_last() =~= ids@.take(i as int));
                assert(ids@.take(i + 1).last() == ids@[i as int]);
            }
            let ghost before = profiles@;
            match Self::get_user_profile(db, redis, query, ids[i]) {
                Ok(p) => {
                    profiles.push(p);
                    assert(profiles@.map_values(|p: UserProfile| p@) =~= before.map_values(|p: UserProfile| p@).push(p@));
                },
                Err(e) => {
                    proof {
                        lemma_profile_run_stops(privacy, friendships, users, statuses, query, ids@, i + 1);
                    }
                    return (profiles, Some(e));
                },
            }
            i = i + 1;
        }
        assert(ids@.take(n as int) =~= ids@);
        (profiles, None)
    }
}

} // verus!
