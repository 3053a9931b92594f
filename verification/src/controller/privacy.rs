use vstd::prelude::*;
use crate::http::{HttpError, BAD_REQUEST, FORBIDDEN, INTERNAL_SERVER_ERROR};
use crate::models::friends::Friendship;
use crate::models::privacy::Visibility;
use crate::repository::Database;
use crate::repository::friends::friends_in;
use crate::repository::privacy::{PrivacyRepository, privacy_of, record_not_found_message};

verus! {

/// The names of the privacy settings a user has.
pub struct Settings {
    pub settings: Vec<String>,
}

/// A question: may `actor` do the action named `kind` to a user?
pub struct CheckPermissionQuery {
    pub actor: i32,
    pub kind: String,
}

/// What `str::to_lowercase` gives for `s`: its lowercase form under the
/// Unicode rules.
pub uninterp spec fn lowercased(s: Seq<char>) -> Seq<char>;

/// `s` in lowercase, as `str::to_lowercase` gives it.
#[verifier::external_body]
fn to_lowercase(s: &str) -> (r: String)
    ensures
        r@ == lowercased(s@),
{
    s.to_lowercase()
}

/// Whether `actor` may do, to user `subject`, what `visibility` guards: the
/// subject always may; others when the setting is open, or when it is for
/// friends and they are friends of the subject.
pub open spec fn may_interact(visibility: Visibility, friendships: Seq<Friendship>, subject: i32, actor: i32) -> bool {
    actor == subject || match visibility {
        Visibility::Open => true,
        Visibility::FriendOnly => friends_in(friendships, subject, actor),
        Visibility::Hidden => false,
    }
}

impl Visibility {
    /// Whether `actor` may do, to user `subject`, what this setting guards.
    pub fn can_interact(&self, db: &Database, subject: i32, actor: i32) -> (r: bool)
        ensures
            r == may_interact(*self, db.friendships@, subject, actor),
    {
        if actor == subject {
            return true;
        }
        match self {
            Visibility::Open => true,
            Visibility::FriendOnly => db.friendships.are_friends(subject, actor),
            Visibility::Hidden => false,
        }
    }
}

/// Message of an action that no setting guards.
pub open spec fn unknown_action_message() -> Seq<char> {
    "Метод не найден"@
}

/// Message of an action that the setting forbids.
pub open spec fn forbidden_action_message() -> Seq<char> {
    "Вы не можете этого сделать!"@
}

/// Privacy settings, as the service offers them.
pub struct PrivacyController;

impl PrivacyController {
    /// May `actor` do the action `kind`, already in lowercase, to user
    /// `subject_id`? The one action known is `invite`, which the subject's
    /// `can_invite` setting guards. Refused with `400` for another action,
    /// with `500` when the subject has no settings, with `403` when the
    /// setting forbids it.
    pub fn check_lowercase_action(db: &Database, subject_id: i32, actor: i32, kind: &str) -> (r: Result<(), HttpError>)
        requires
            db.wf(),
        ensures
            kind@ != "invite"@ ==> (r matches Err(e) && e.is(BAD_REQUEST, unknown_action_message())),
            kind@ == "invite"@ ==> match privacy_of(db.privacy@, subject_id) {
                None => r matches Err(e) && e.is(INTERNAL_SERVER_ERROR, record_not_found_message()),
                Some(p) => if may_interact(p.can_invite, db.friendships@, subject_id, actor) {
                    r is Ok
                } else {
                    r matches Err(e) && e.is(FORBIDDEN, forbidden_action_message())
                },
            },
    {
        let name = String::from_str(kind);
        let invite = String::from_str("invite");
        let visibility = if name == invite {
            PrivacyRepository::get_can_invite(db, subject_id)?
        } else {
            return Err(HttpError::new("Метод не найден", BAD_REQUEST));
        };
        if !visibility.can_interact(db, subject_id, actor) {
            return Err(HttpError::new("Вы не можете этого сделать!", FORBIDDEN));
        }
        Ok(())
    }

    /// May `query.actor` do the action `query.kind` to user `subject_id`?
    /// The action's name is read in lowercase, then checked as
    /// `check_lowercase_action` says.
    pub fn check_has_permissions(db: &Database, subject_id: i32, query: &CheckPermissionQuery) -> (r: Result<(), HttpError>)
        requires
            db.wf(),
        ensures
            lowercased(query.kind@) != "invite"@ ==> (r matches Err(e) && e.is(BAD_REQUEST, unknown_action_message())),
            lowercased(query.kind@) == "invite"@ ==> match privacy_of(db.privacy@, subject_id) {
                None => r matches Err(e) && e.is(INTERNAL_SERVER_ERROR, record_not_found_message()),
                Some(p) => if may_interact(p.can_invite, db.friendships@, subject_id, query.actor) {
                    r is Ok
                } else {
                    r matches Err(e) && e.is(FORBIDDEN, forbidden_action_message())
                },
            },
    {
        let kind = to_lowercase(query.kind.as_str());
        Self::check_lowercase_action(db, subject_id, query.actor, kind.as_str())
    }
}

} // verus!
