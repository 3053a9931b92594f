use vstd::prelude::*;

verus! {

/// Who may see or do something that concerns a user.
#[derive(Debug, Clone, Copy, PartialEq, Eq, Structural)]
pub enum Visibility {
    /// Everybody.
    Open,
    /// The user's friends.
    FriendOnly,
    /// Nobody but the user.
    Hidden,
}

impl Default for Visibility {
    fn default() -> (v: Self)
        ensures
            v == Visibility::Open,
    {
        Visibility::Open
    }
}

/// One of the privacy settings that a user holds.
#[derive(Debug, Clone, Copy, PartialEq, Eq, Structural)]
pub enum PrivacySetting {
    /// Who may see the user's profile.
    ProfileVisibility,
    /// Who may see the user's friends.
    FriendsVisibility,
    /// Who may invite the user into a game.
    CanInvite,
    /// Who may see on which server the user plays.
    ServerVisibility,
    /// Who may see whether the user is online.
    OnlineVisibility,
    /// Who may see how long the user has played.
    HoursVisibility,
}

/// A row of the privacy table: the settings of the user `id`.
#[derive(Debug, Clone, Copy, PartialEq, Eq, Structural)]
pub struct UsersPrivacy {
    pub id: i32,
    /// Who may see the user's profile.
    pub profile_visibility: Visibility,
    /// Who may see the user's friends.
    pub friends_visibility: Visibility,
    /// Who may invite the user into a game.
    pub can_invite: Visibility,
    /// Who may see on which server the user plays.
    pub server_visibility: Visibility,
    /// Who may see whether the user is online.
    pub online_visibility: Visibility,
    /// Who may see how long the user has played.
    pub hours_visibility: Visibility,
}

impl UsersPrivacy {
    /// The value of `setting` in these settings.
    pub open spec fn setting(self, setting: PrivacySetting) -> Visibility {
        match setting {
            PrivacySetting::ProfileVisibility => self.profile_visibility,
            PrivacySetting::FriendsVisibility => self.friends_visibility,
            PrivacySetting::CanInvite => self.can_invite,
            PrivacySetting::ServerVisibility => self.server_visibility,
            PrivacySetting::OnlineVisibility => self.online_visibility,
            PrivacySetting::HoursVisibility => self.hours_visibility,
        }
    }

    /// The settings of a new user `id`: everything is open.
    pub open spec fn initial(id: i32) -> UsersPrivacy {
        UsersPrivacy {
            id,
            profile_visibility: Visibility::Open,
            friends_visibility: Visibility::Open,
            can_invite: Visibility::Open,
            server_visibility: Visibility::Open,
            online_visibility: Visibility::Open,
            hours_visibility: Visibility::Open,
        }
    }

    /// The settings of a new user `id`.
    pub fn new(id: i32) -> (p: UsersPrivacy)
        ensures
            p == UsersPrivacy::initial(id),
    {
        UsersPrivacy {
            id,
            profile_visibility: Visibility::Open,
            friends_visibility: Visibility::Open,
            can_invite: Visibility::Open,
            server_visibility: Visibility::Open,
            online_visibility: Visibility::Open,
            hours_visibility: Visibility::Open,
        }
    }

    /// Reads one setting.
    pub fn get(&self, setting: PrivacySetting) -> (v: Visibility)
        ensures
            v == self.setting(setting),
    {
        match setting {
            PrivacySetting::ProfileVisibility => self.profile_visibility,
            PrivacySetting::FriendsVisibility => self.friends_visibility,
            PrivacySetting::CanInvite => self.can_invite,
            PrivacySetting::ServerVisibility => self.server_visibility,
            PrivacySetting::OnlineVisibility => self.online_visibility,
            PrivacySetting::HoursVisibility => self.hours_visibility,
        }
    }
}

impl Default for UsersPrivacy {
    fn default() -> (p: Self)
        ensures
            p == UsersPrivacy::initial(0),
    {
        UsersPrivacy::new(0)
    }
}

} // verus!
