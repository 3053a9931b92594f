use vstd::prelude::*;
use crate::cache::Cache;
use crate::http::{HttpError, FORBIDDEN, INTERNAL_SERVER_ERROR};
use crate::models::friends::Friendship;
use crate::models::privacy::PrivacySetting;
use crate::models::user::{UserIdQuery, listed_ids};
use crate::models::userprofile::UserProfile;
use crate::repository::Database;
use crate::repository::friends::{FriendsRepository, accept_answers, friend_list_unreadable_message, has_pending_request, involving, other_than_request};
use crate::repository::privacy::{privacy_of, record_not_found_message};
use crate::repository::user::user_of;
use crate::service::privacy::{PrivacyService, permits, refusal_message};
use crate::service::userprofile::profile_run;
use crate::service::wss::{Outcome, WssEvent, id_notices, notice_views};

verus! {

/// Friends and friend requests, as the service offers them.
pub struct FriendsController;

impl FriendsController {
    /// The profiles of the friends of user `user_id`, for a request `query`
    /// that may see them: the user, a friend, or anybody when the user's
    /// friends are open. Refused with `500` when the user has no settings,
    /// `403` when the request may not see them, and as
    /// `FriendsRepository::get_friend_list` refuses.
    pub fn get_friend_list(db: &mut Database, redis: &mut Cache, user_id: i32, query: UserIdQuery) -> (r: Result<Vec<UserProfile>, HttpError>)
        requires
            old(db).wf(),
        ensures
            final(db).wf(),
            final(db).privacy == old(db).privacy,
            final(db).friendships == old(db).friendships,
            final(redis).invites == old(redis).invites,
            match privacy_of(old(db).privacy@, user_id) {
                None => r matches Err(e) && e.is(INTERNAL_SERVER_ERROR, record_not_found_message())
                    && final(db).users@ == old(db).users@ && final(redis).statuses@ == old(redis).statuses@,
                Some(p) => if !permits(p.friends_visibility, old(db).friendships@, query.user_id, user_id) {
                    r matches Err(e) && e.is(FORBIDDEN, refusal_message(PrivacySetting::FriendsVisibility))
                        && final(db).users@ == old(db).users@ && final(redis).statuses@ == old(redis).statuses@
                } else {
                    match user_of(old(db).users@, user_id) {
                        None => r matches Err(e) && e.is(INTERNAL_SERVER_ERROR, friend_list_unreadable_message())
                            && final(db).users@ == old(db).users@ && final(redis).statuses@ == old(redis).statuses@,
                        Some(u) => {
                            let run = profile_run(old(db).privacy@, old(db).friendships@, old(db).users@, old(redis).statuses@,
                                Some(UserIdQuery { user_id: Some(user_id) }), listed_ids(u.friends));
                            &&& final(db).users@ == run.2
                            &&& final(redis).statuses@ == run.3
                            &&& match run.0 {
                                Some((status, message)) => r matches Err(e) && e.is(status, message),
                                None => r matches Ok(v) && v@.map_values(|p: UserProfile| p@) == run.1,
                            }
                        },
                    }
                },
            },
    {
        PrivacyService::check_friends_visibility(db, query, user_id)?;
        FriendsRepository::get_friend_list(db, redis, user_id)
    }

    /// The friendship rows of user `user_id`, for a request `query` that may
    /// see the user's friends. Refused with `500` when the user has no
    /// settings, `403` when the request may not see them.
    pub fn get_friendship_list(db: &Database, user_id: i32, query: UserIdQuery) -> (r: Result<Vec<Friendship>, HttpError>)
        requires
            db.wf(),
        ensures
            match privacy_of(db.privacy@, user_id) {
                None => r matches Err(e) && e.is(INTERNAL_SERVER_ERROR, record_not_found_message()),
                Some(p) => if permits(p.friends_visibility, db.friendships@, query.user_id, user_id) {
                    r matches Ok(v) && v@ == db.friendships@.filter(involving(user_id))
                } else {
                    r matches Err(e) && e.is(FORBIDDEN, refusal_message(PrivacySetting::FriendsVisibility))
                },
            },
    {
        PrivacyService::check_friends_visibility(db, query, user_id)?;
        Ok(FriendsRepository::get_friendship_list(db, user_id))
    }

    /// User `user_id` accepts the friend request that `sender` sent: as
    /// `FriendsRepository::accept` with `sender` as the user who asked.
    pub fn confirm(db: &mut Database, redis: &mut Cache, user_id: i32, sender: i32) -> (o: Outcome<Friendship>)
        requires
            old(db).wf(),
        ensures
            final(db).wf(),
            final(db).privacy == old(db).privacy,
            final(redis).invites == old(redis).invites,
            accept_answers(*old(db), *final(db), *old(redis), *final(redis), sender, user_id, o),
    {
        FriendsRepository::accept(db, redis, sender, user_id)
    }

    /// User `user_id` cancels a request between the user and `other`: it
    /// declines the request that `other` sent when that one is pending, and
    /// else withdraws the user's own request to `other`. The two are told
    /// with a `FRIEND_CANCEL` that names the other, the sender of the
    /// request first.
    pub fn cancel(db: &mut Database, user_id: i32, other: i32) -> (o: Outcome<()>)
        requires
            old(db).wf(),
        ensures
            final(db).wf(),
            final(db).users == old(db).users,
            final(db).privacy == old(db).privacy,
            o.result is Ok,
            has_pending_request(old(db).friendships@, other, user_id) ==> {
                &&& final(db).friendships@ == old(db).friendships@.filter(other_than_request(other, user_id))
                &&& notice_views(o.notices@) == id_notices(other, user_id, WssEvent::FriendCancel)
            },
            !has_pending_request(old(db).friendships@, other, user_id) ==> {
                &&& final(db).friendships@ == old(db).friendships@.filter(other_than_request(user_id, other))
                &&& notice_views(o.notices@) == id_notices(user_id, other, WssEvent::FriendCancel)
            },
    {
        if db.friendships.has_pending(other, user_id) {
            FriendsRepository::cancel(db, user_id, other)
        } else {
            FriendsRepository::cancel(db, other, user_id)
        }
    }
}

} // verus!
