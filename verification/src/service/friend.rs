use vstd::prelude::*;
use crate::http::{HttpError, CONFLICT, FORBIDDEN, BAD_GATEWAY};
use crate::models::privacy::{UsersPrivacy, Visibility};
use crate::models::user::ids_or_zero;
use crate::repository::Database;
use crate::repository::friends::FriendsRepository;
use crate::repository::privacy::{PrivacyRepository, privacy_of, user_not_found_message};
use crate::repository::user::user_of;

verus! {

/// What a user tells all of the user's friends.
#[derive(Debug, Clone, Copy, PartialEq, Eq, Structural)]
pub enum FriendEvents {
    /// The user came online.
    FriendOnline,
    /// The user went offline.
    FriendOffline,
    /// The user joined a server.
    FriendJoinServer,
    /// The user left the server.
    FriendDisconnect,
    /// Anything else.
    Any,
}

/// The name of an event, as the websocket service receives it.
pub open spec fn friend_event_name(e: FriendEvents) -> Seq<char> {
    match e {
        FriendEvents::FriendOnline => "FRIEND_ONLINE"@,
        FriendEvents::FriendOffline => "FRIEND_OFFLINE"@,
        FriendEvents::FriendJoinServer => "FRIEND_JOIN_SERVER"@,
        FriendEvents::FriendDisconnect => "FRIEND_DISCONNECT"@,
        FriendEvents::Any => "ANY"@,
    }
}

/// The settings let the user's friends learn of `event`: going online or
/// offline unless the user hides being online, joining or leaving a server
/// unless the user hides the server, anything else always.
pub open spec fn event_visible(settings: UsersPrivacy, event: FriendEvents) -> bool {
    match event {
        FriendEvents::FriendOnline | FriendEvents::FriendOffline => settings.online_visibility != Visibility::Hidden,
        FriendEvents::FriendJoinServer | FriendEvents::FriendDisconnect => settings.server_visibility != Visibility::Hidden,
        FriendEvents::Any => true,
    }
}

impl FriendEvents {
    /// The name of the event.
    pub fn name(&self) -> (s: &'static str)
        ensures
            s@ == friend_event_name(*self),
    {
        match self {
            FriendEvents::FriendOnline => "FRIEND_ONLINE",
            FriendEvents::FriendOffline => "FRIEND_OFFLINE",
            FriendEvents::FriendJoinServer => "FRIEND_JOIN_SERVER",
            FriendEvents::FriendDisconnect => "FRIEND_DISCONNECT",
            FriendEvents::Any => "ANY",
        }
    }
}

/// An event for many users: to whom, and which.
pub struct Broadcast {
    pub user_ids: Vec<i32>,
    pub event: FriendEvents,
}

/// Events that a user sends to the user's friends.
pub struct FriendService;

impl FriendService {
    /// Who hears of `event` from user `user_id`: the ids of the user's
    /// friend list, as `get_friend_ids` gives them. Refused with `502` when
    /// the user has no settings, with `403` (and no message) when they hide
    /// the event, and with `409` (and no message) when the user has no row.
    pub fn send_event(db: &Database, user_id: i32, event: FriendEvents) -> (r: Result<Broadcast, HttpError>)
        requires
            db.wf(),
        ensures
            match privacy_of(db.privacy@, user_id) {
                None => r matches Err(e) && e.is(BAD_GATEWAY, user_not_found_message()),
                Some(p) => if !event_visible(p, event) {
                    r matches Err(e) && e.is(FORBIDDEN, Seq::empty())
                } else {
                    match user_of(db.users@, user_id) {
                        None => r matches Err(e) && e.is(CONFLICT, Seq::empty()),
                        Some(u) => r matches Ok(b) && b.user_ids@ == ids_or_zero(u.friends) && b.event == event,
                    }
                },
            },
    {
        let privacy_settings = PrivacyRepository::get_settings(db, user_id)?;
        let can_see = match event {
            FriendEvents::FriendOnline | FriendEvents::FriendOffline => privacy_settings.online_visibility != Visibility::Hidden,
            FriendEvents::FriendJoinServer | FriendEvents::FriendDisconnect => privacy_settings.server_visibility != Visibility::Hidden,
            FriendEvents::Any => true,
        };
        if !can_see {
            proof { reveal_strlit(""); assert(""@ =~= Seq::<char>::empty()); }
            return Err(HttpError::new("", FORBIDDEN));
        }
        let friends = match FriendsRepository::get_friend_ids(db, user_id) {
            Ok(ids) => ids,
            Err(_) => {
                proof { reveal_strlit(""); assert(""@ =~= Seq::<char>::empty()); }
                return Err(HttpError::new("", CONFLICT));
            },
        };
        Ok(Broadcast { user_ids: friends, event })
    }
}

/// Who hears of a user's events: going online or offline reaches the
/// user's friends whenever the user does not hide being online, that is
/// when the setting is open or for friends, and never when it is hidden;
/// joining or leaving a server likewise follows the server setting; any
/// other event always reaches them.
pub proof fn law_who_hears_events(settings: UsersPrivacy)
    ensures
        settings.online_visibility == Visibility::Open || settings.online_visibility == Visibility::FriendOnly
            ==> event_visible(settings, FriendEvents::FriendOnline) && event_visible(settings, FriendEvents::FriendOffline),
        settings.online_visibility == Visibility::Hidden ==> !event_visible(settings, FriendEvents::FriendOnline)
            && !event_visible(settings, FriendEvents::FriendOffline),
        settings.server_visibility == Visibility::Open || settings.server_visibility == Visibility::FriendOnly
            ==> event_visible(settings, FriendEvents::FriendJoinServer) && event_visible(settings, FriendEvents::FriendDisconnect),
        settings.server_visibility == Visibility::Hidden ==> !event_visible(settings, FriendEvents::FriendJoinServer)
            && !event_visible(settings, FriendEvents::FriendDisconnect),
        event_visible(settings, FriendEvents::Any),
{
}

} // verus!
