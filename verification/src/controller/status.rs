use vstd::prelude::*;
use crate::cache::Cache;
use crate::http::{HttpError, BAD_REQUEST, BAD_GATEWAY, CONFLICT, FORBIDDEN, INTERNAL_SERVER_ERROR};
use crate::models::privacy::Visibility;
use crate::models::user::{UserIdQuery, ids_or_zero};
use crate::models::userprofile::UserStatus;
use crate::repository::Database;
use crate::repository::privacy::{PrivacyRepository, privacy_of, record_not_found_message, user_not_found_message};
use crate::repository::user::user_of;
use crate::service::friend::{Broadcast, FriendEvents, FriendService, event_visible};
use crate::service::privacy::PrivacyService;
use crate::service::status::{StatusService, full_status, statuses_after_read, users_after_read};
use crate::models::privacy::PrivacySetting;

verus! {

/// What friends hear of a user's presence: `{"id": id}`, with
/// `"server": server` when the user joined one.
pub struct Presence {
    pub id: i32,
    pub server: Option<i32>,
}

/// What `FriendService::send_event` answers for `event` of user
/// `user_id`, as its contract says.
pub open spec fn send_event_answers(db: Database, user_id: i32, event: FriendEvents, r: Result<Broadcast, HttpError>) -> bool {
    match privacy_of(db.privacy@, user_id) {
        None => r matches Err(e) && e.is(BAD_GATEWAY, user_not_found_message()),
        Some(p) => if !event_visible(p, event) {
            r matches Err(e) && e.is(FORBIDDEN, Seq::empty())
        } else {
            match user_of(db.users@, user_id) {
                None => r matches Err(e) && e.is(CONFLICT, Seq::empty()),
                Some(u) => r matches Ok(b) && b.user_ids@ == ids_or_zero(u.friends) && b.event == event,
            }
        },
    }
}

/// The events of a user's presence that friends hear of.
pub struct StatusController;

impl StatusController {
    /// The status of user `user_id`, as the request `query` may see it: a
    /// check of the user's profile visibility first, then the status as
    /// `StatusService::get_full_status` gives it.
    pub fn get(db: &mut Database, redis: &mut Cache, user_id: i32, query: UserIdQuery) -> (r: Result<UserStatus, HttpError>)
        requires
            old(db).wf(),
        ensures
            final(db).wf(),
            final(db).privacy == old(db).privacy,
            final(db).friendships == old(db).friendships,
            final(redis).invites == old(redis).invites,
            match privacy_of(old(db).privacy@, user_id) {
                None => r matches Err(e) && e.is(INTERNAL_SERVER_ERROR, record_not_found_message())
                    && final(db).users@ == old(db).users@ && final(redis).statuses@ == old(redis).statuses@,
                Some(p) => if !crate::service::privacy::permits(p.profile_visibility, old(db).friendships@, query.user_id, user_id) {
                    r matches Err(e) && e.is(FORBIDDEN, crate::service::privacy::refusal_message(PrivacySetting::ProfileVisibility))
                        && final(db).users@ == old(db).users@ && final(redis).statuses@ == old(redis).statuses@
                } else {
                    &&& final(db).users@ == users_after_read(old(db).users@, old(redis).statuses@, user_id)
                    &&& final(redis).statuses@ == statuses_after_read(old(redis).statuses@, user_id)
                    &&& (r is Err <==> crate::cache::record_of(old(redis).statuses@, user_id) is None && user_of(old(db).users@, user_id) is None)
                    &&& r matches Err(e) ==> e.is(BAD_REQUEST, crate::repository::user::user_not_found_message())
                    &&& r matches Ok(s) ==> s == full_status(old(db).users@, old(redis).statuses@, user_id, None)
                },
            },
    {
        PrivacyService::check_profile_visibility(db, query, user_id)?;
        StatusService::get_full_status(db, redis, user_id, None)
    }

    /// User `user_id` came online: unless the user hides being online, the
    /// friends hear of it, with `{"id": user_id}`. Refused with `500` when
    /// the user has no settings, and as `send_event` refuses.
    pub fn online(db: &Database, user_id: i32) -> (r: Result<Option<(Broadcast, Presence)>, HttpError>)
        requires
            db.wf(),
        ensures
            match privacy_of(db.privacy@, user_id) {
                None => r matches Err(e) && e.is(INTERNAL_SERVER_ERROR, record_not_found_message()),
                Some(p) => if p.online_visibility == Visibility::Hidden {
                    r matches Ok(None)
                } else {
                    match r {
                        Ok(Some((b, presence))) => send_event_answers(*db, user_id, FriendEvents::FriendOnline, Ok(b))
                            && presence.id == user_id && presence.server is None,
                        Ok(None) => false,
                        Err(e) => send_event_answers(*db, user_id, FriendEvents::FriendOnline, Err(e)),
                    }
                },
            },
    {
        let privacy = PrivacyRepository::get_online_visibility(db, user_id)?;
        if privacy == Visibility::Hidden {
            return Ok(None);
        }
        let b = FriendService::send_event(db, user_id, FriendEvents::FriendOnline)?;
        Ok(Some((b, Presence { id: user_id, server: None })))
    }

    /// User `user_id` joined the server `server_id`, or left its server when
    /// `server_id` is `0`: the friends hear of it, with `{"id": user_id}`,
    /// and `"server": server_id` on joining. Refused as `send_event`
    /// refuses.
    pub fn playing(db: &Database, user_id: i32, server_id: i32) -> (r: Result<(Broadcast, Presence), HttpError>)
        requires
            db.wf(),
        ensures
            ({
                let event = if server_id == 0 { FriendEvents::FriendDisconnect } else { FriendEvents::FriendJoinServer };
                match r {
                    Ok((b, presence)) => send_event_answers(*db, user_id, event, Ok(b)) && presence.id == user_id
                        && presence.server == (if server_id == 0 { None } else { Some(server_id) }),
                    Err(e) => send_event_answers(*db, user_id, event, Err(e)),
                }
            }),
    {
        if server_id == 0 {
            let b = FriendService::send_event(db, user_id, FriendEvents::FriendDisconnect)?;
            Ok((b, Presence { id: user_id, server: None }))
        } else {
            let b = FriendService::send_event(db, user_id, FriendEvents::FriendJoinServer)?;
            Ok((b, Presence { id: user_id, server: Some(server_id) }))
        }
    }

    /// User `user_id` went offline: unless the user hides being online, the
    /// user's status record is read, as `StatusService::get_status` reads
    /// it, and the friends hear of it, with `{"id": user_id}`. Refused with
    /// `500` when the user has no settings, and as `send_event` refuses.
    pub fn offline(db: &mut Database, redis: &mut Cache, user_id: i32) -> (r: Result<Option<(Broadcast, Presence)>, HttpError>)
        requires
            old(db).wf(),
        ensures
            final(db).wf(),
            final(db).privacy == old(db).privacy,
            final(db).friendships == old(db).friendships,
            final(redis).invites == old(redis).invites,
            match privacy_of(old(db).privacy@, user_id) {
                None => r matches Err(e) && e.is(INTERNAL_SERVER_ERROR, record_not_found_message())
                    && final(db).users@ == old(db).users@ && final(redis).statuses@ == old(redis).statuses@,
                Some(p) => if p.online_visibility == Visibility::Hidden {
                    r matches Ok(None) && final(db).users@ == old(db).users@ && final(redis).statuses@ == old(redis).statuses@
                } else {
                    &&& final(db).users@ == users_after_read(old(db).users@, old(redis).statuses@, user_id)
                    &&& final(redis).statuses@ == statuses_after_read(old(redis).statuses@, user_id)
                    &&& match r {
                        Ok(Some((b, presence))) => send_event_answers(*final(db), user_id, FriendEvents::FriendOffline, Ok(b))
                            && presence.id == user_id && presence.server is None,
                        Ok(None) => false,
                        Err(e) => send_event_answers(*final(db), user_id, FriendEvents::FriendOffline, Err(e)),
                    }
                },
            },
    {
        let privacy = PrivacyRepository::get_online_visibility(db, user_id)?;
        if privacy == Visibility::Hidden {
            return Ok(None);
        }
        StatusService::get_status(db, redis, user_id);
        let b = FriendService::send_event(db, user_id, FriendEvents::FriendOffline)?;
        Ok(Some((b, Presence { id: user_id, server: None })))
    }
}

} // verus!
