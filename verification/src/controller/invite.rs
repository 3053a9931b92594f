use vstd::prelude::*;
use crate::cache::{Cache, cooling_down};
use crate::http::{HttpError, FORBIDDEN, INTERNAL_SERVER_ERROR, TOO_MANY_REQUESTS};
use crate::models::privacy::PrivacySetting;
use crate::models::user::UserIdQuery;
use crate::repository::Database;
use crate::repository::privacy::{privacy_of, record_not_found_message};
use crate::service::invite::{INVITE_COOLDOWN, InviteService, too_soon_message};
use crate::service::privacy::{PrivacyService, invite_permitted, refusal_message};
use crate::service::wss::{Notice, Payload, PayloadView, WssEvent};

verus! {

/// Who invites, to which server.
pub struct InviteQuery {
    pub inviter_id: i32,
    pub server: u16,
}

/// Invitations into games.
pub struct InviteController;

impl InviteController {
    /// `query.inviter_id` invites user `id` to `query.server` at time `now`.
    /// Refused with `429` while an earlier invitation of the same pair cools
    /// down; else the pair starts cooling down, and the invitation is refused
    /// with `500` when `id` has no settings, with `403` unless the inviter is
    /// `id`, or the two are friends and `id` does not hide from invitations;
    /// else `id` gets an `INVITE` naming the inviter and the server.
    pub fn invite(db: &Database, redis: &mut Cache, now: u64, id: i32, query: InviteQuery) -> (r: Result<Notice, HttpError>)
        requires
            db.wf(),
            now <= u64::MAX - INVITE_COOLDOWN,
        ensures
            final(redis).statuses == old(redis).statuses,
            cooling_down(old(redis).invites@, query.inviter_id, id, now) ==> (r matches Err(e)
                && e.is(TOO_MANY_REQUESTS, too_soon_message()) && final(redis).invites@ == old(redis).invites@),
            !cooling_down(old(redis).invites@, query.inviter_id, id, now) ==> {
                &&& final(redis).invites@ == old(redis).invites@.push((query.inviter_id, id, (now + INVITE_COOLDOWN) as u64))
                &&& match privacy_of(db.privacy@, id) {
                    None => r matches Err(e) && e.is(INTERNAL_SERVER_ERROR, record_not_found_message()),
                    Some(p) => if invite_permitted(p.can_invite, db.friendships@, Some(query.inviter_id), id) {
                        r matches Ok(n) && n.user_id == id && n.event == WssEvent::Invite
                            && n.payload@ == (PayloadView::Invite { id: query.inviter_id, server: query.server })
                    } else {
                        r matches Err(e) && e.is(FORBIDDEN, refusal_message(PrivacySetting::CanInvite))
                    },
                }
            },
    {
        let inviter = query.inviter_id;
        InviteService::check_send(redis, now, inviter, id)?;
        PrivacyService::check_can_invite(db, UserIdQuery { user_id: Some(inviter) }, id)?;
        Ok(Notice { user_id: id, event: WssEvent::Invite, payload: Payload::Invite { id: inviter, server: query.server } })
    }
}

} // verus!
