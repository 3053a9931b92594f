use vstd::prelude::*;
use crate::http::{HttpError, FORBIDDEN, INTERNAL_SERVER_ERROR};
use crate::models::friends::Friendship;
use crate::models::privacy::{PrivacySetting, Visibility};
use crate::models::user::UserIdQuery;
use crate::repository::Database;
use crate::repository::friends::friends_in;
use crate::repository::privacy::{PrivacyRepository, privacy_of, record_not_found_message};

verus! {

/// Whether `requester` may see or do what `visibility` guards for user
/// `user_id`: the user always may; another user may when the two are
/// friends, whatever the setting; an anonymous request only when the
/// setting is open.
pub open spec fn permits(visibility: Visibility, friendships: Seq<Friendship>, requester: Option<i32>, user_id: i32) -> bool {
    match requester {
        Some(r) => r == user_id || friends_in(friendships, user_id, r),
        None => visibility == Visibility::Open,
    }
}

/// Whether `requester` may invite user `user_id`, whose `can_invite` setting
/// is `visibility`: the user always may; another user when the two are
/// friends and the setting is not hidden; an anonymous request only when the
/// setting is open.
pub open spec fn invite_permitted(visibility: Visibility, friendships: Seq<Friendship>, requester: Option<i32>, user_id: i32) -> bool {
    match requester {
        Some(r) => r == user_id || (friends_in(friendships, user_id, r) && visibility != Visibility::Hidden),
        None => visibility == Visibility::Open,
    }
}

/// Whether `requester` passes the check of `setting`, of value `visibility`,
/// of user `user_id`: inviting goes by `invite_permitted`, every other
/// setting by `permits`.
pub open spec fn setting_permits(setting: PrivacySetting, visibility: Visibility, friendships: Seq<Friendship>, requester: Option<i32>, user_id: i32) -> bool {
    if setting == PrivacySetting::CanInvite {
        invite_permitted(visibility, friendships, requester, user_id)
    } else {
        permits(visibility, friendships, requester, user_id)
    }
}

/// The message that refuses a request guarded by `setting`.
pub open spec fn refusal_message(setting: PrivacySetting) -> Seq<char> {
    match setting {
        PrivacySetting::ProfileVisibility => "Пользователь скрыл профиль"@,
        PrivacySetting::FriendsVisibility => "Пользователь скрыл друзей"@,
        PrivacySetting::CanInvite => "Вы не можете приглашать пользователя"@,
        _ => "Пользователь скрыл статистику"@,
    }
}

/// What a check of `setting` answers the request `query` about user
/// `user_id`: refused with `500` when the user has no settings, with `403`
/// when the request is not permitted, else accepted.
pub open spec fn check_answers(db: Database, query: UserIdQuery, user_id: i32, setting: PrivacySetting, r: Result<(), HttpError>) -> bool {
    match privacy_of(db.privacy@, user_id) {
        None => r matches Err(e) && e.is(INTERNAL_SERVER_ERROR, record_not_found_message()),
        Some(p) => if setting_permits(setting, p.setting(setting), db.friendships@, query.user_id, user_id) {
            r is Ok
        } else {
            r matches Err(e) && e.is(FORBIDDEN, refusal_message(setting))
        },
    }
}

/// The privacy checks of requests about users.
pub struct PrivacyService;

impl PrivacyService {
    /// Whether the request `query` may see what `setting` guards of user
    /// `user_id`.
    fn has_right(db: &Database, query: UserIdQuery, user_id: i32, setting: PrivacySetting) -> (r: Result<bool, HttpError>)
        requires
            db.wf(),
        ensures
            match privacy_of(db.privacy@, user_id) {
                None => r matches Err(e) && e.is(INTERNAL_SERVER_ERROR, record_not_found_message()),
                Some(p) => r == Ok::<bool, HttpError>(setting_permits(setting, p.setting(setting), db.friendships@, query.user_id, user_id)),
            },
    {
        let privacy = PrivacyRepository::get_setting(db, user_id, setting)?;
        let result = match query.user_id {
            Some(requester) => if requester == user_id {
                true
            } else {
                db.friendships.are_friends(user_id, requester) && !(setting == PrivacySetting::CanInvite
                    && privacy == Visibility::Hidden)
            },
            None => privacy == Visibility::Open,
        };
        Ok(result)
    }

    /// Refuses the request `query` about user `user_id` unless `setting`
    /// lets it through.
    fn check(db: &Database, query: UserIdQuery, user_id: i32, setting: PrivacySetting) -> (r: Result<(), HttpError>)
        requires
            db.wf(),
        ensures
            check_answers(*db, query, user_id, setting, r),
    {
        if !Self::has_right(db, query, user_id, setting)? {
            let message = match setting {
                PrivacySetting::ProfileVisibility => "Пользователь скрыл профиль",
                PrivacySetting::FriendsVisibility => "Пользователь скрыл друзей",
                PrivacySetting::CanInvite => "Вы не можете приглашать пользователя",
                _ => "Пользователь скрыл статистику",
            };
            return Err(HttpError::new(message, FORBIDDEN));
        }
        Ok(())
    }

    /// Refuses the request unless it may see the user's profile.
    pub fn check_profile_visibility(db: &Database, query: UserIdQuery, user_id: i32) -> (r: Result<(), HttpError>)
        requires
            db.wf(),
        ensures
            check_answers(*db, query, user_id, PrivacySetting::ProfileVisibility, r),
    {
        Self::check(db, query, user_id, PrivacySetting::ProfileVisibility)
    }

    /// Refuses the request unless it may see the user's friends.
    pub fn check_friends_visibility(db: &Database, query: UserIdQuery, user_id: i32) -> (r: Result<(), HttpError>)
        requires
            db.wf(),
        ensures
            check_answers(*db, query, user_id, PrivacySetting::FriendsVisibility, r),
    {
        Self::check(db, query, user_id, PrivacySetting::FriendsVisibility)
    }

    /// Refuses the request unless it may invite the user.
    pub fn check_can_invite(db: &Database, query: UserIdQuery, user_id: i32) -> (r: Result<(), HttpError>)
        requires
            db.wf(),
        ensures
            check_answers(*db, query, user_id, PrivacySetting::CanInvite, r),
    {
        Self::check(db, query, user_id, PrivacySetting::CanInvite)
    }

    /// Refuses the request unless it may see the user's server.
    pub fn check_server_visibility(db: &Database, query: UserIdQuery, user_id: i32) -> (r: Result<(), HttpError>)
        requires
            db.wf(),
        ensures
            check_answers(*db, query, user_id, PrivacySetting::ServerVisibility, r),
    {
        Self::check(db, query, user_id, PrivacySetting::ServerVisibility)
    }

    /// Refuses the request unless it may see whether the user is online.
    pub fn check_online_visibility(db: &Database, query: UserIdQuery, user_id: i32) -> (r: Result<(), HttpError>)
        requires
            db.wf(),
        ensures
            check_answers(*db, query, user_id, PrivacySetting::OnlineVisibility, r),
    {
        Self::check(db, query, user_id, PrivacySetting::OnlineVisibility)
    }

    /// Refuses the request unless it may see how long the user has played.
    pub fn check_hours_visibility(db: &Database, query: UserIdQuery, user_id: i32) -> (r: Result<(), HttpError>)
        requires
            db.wf(),
        ensures
            check_answers(*db, query, user_id, PrivacySetting::HoursVisibility, r),
    {
        Self::check(db, query, user_id, PrivacySetting::HoursVisibility)
    }
}

/// A user always may see and do what the user's own settings guard. Another
/// user may see what they guard when the two are friends, whatever the
/// setting, and may not otherwise, whatever the setting; another user may
/// invite the user when the two are friends and the user does not hide
/// from invitations, and only then. An anonymous request passes a check
/// when the setting is open, and only then.
pub proof fn law_who_is_permitted(setting: PrivacySetting, visibility: Visibility, friendships: Seq<Friendship>, requester: i32, user_id: i32)
    ensures
        setting_permits(setting, visibility, friendships, Some(user_id), user_id),
        requester != user_id && setting != PrivacySetting::CanInvite ==> (setting_permits(setting, visibility, friendships, Some(requester), user_id)
            <==> friends_in(friendships, user_id, requester)),
        requester != user_id ==> (setting_permits(PrivacySetting::CanInvite, visibility, friendships, Some(requester), user_id)
            <==> friends_in(friendships, user_id, requester) && visibility != Visibility::Hidden),
        setting_permits(setting, visibility, friendships, None, user_id) <==> visibility == Visibility::Open,
{
}

} // verus!
