use vstd::prelude::*;
use crate::cache::{Cache, cooldown_of, cooling_down};
use crate::http::{HttpError, TOO_MANY_REQUESTS};
use crate::text::{decimal, push_i32, lemma_decimal_chars, lemma_decimal_injective};

verus! {

/// How long, in seconds, an inviter waits before inviting the same user
/// again.
pub const INVITE_COOLDOWN: u64 = 5;

/// Message of an invitation sent again too soon.
pub open spec fn too_soon_message() -> Seq<char> {
    "Не так быстро, ковбой!"@
}

/// The cache key of the cooldown of `inviter` inviting `invited`:
/// `invitecd:`, the inviter's id, `:` and the invited user's id.
pub open spec fn invite_key(inviter: i32, invited: i32) -> Seq<char> {
    "invitecd:"@ + decimal(inviter as int) + ":"@ + decimal(invited as int)
}

/// Cooldowns of invitations.
pub struct InviteService;

impl InviteService {
    /// The cache key of the cooldown of `inviter` inviting `invited`.
    pub fn get_key(inviter: i32, invited: i32) -> (k: String)
        ensures
            k@ == invite_key(inviter, invited),
    {
        let mut k = String::from_str("invitecd:");
        push_i32(&mut k, inviter);
        k.append(":");
        push_i32(&mut k, invited);
        k
    }

    /// `inviter` invites `invited` at time `now`, in seconds. Refused with
    /// `429` while an earlier invitation of the same pair cools down; else
    /// the pair cools down for `INVITE_COOLDOWN` seconds from now.
    pub fn check_send(redis: &mut Cache, now: u64, inviter: i32, invited: i32) -> (r: Result<(), HttpError>)
        requires
            now <= u64::MAX - INVITE_COOLDOWN,
        ensures
            final(redis).statuses == old(redis).statuses,
            r is Err <==> cooling_down(old(redis).invites@, inviter, invited, now),
            r matches Err(e) ==> e.is(TOO_MANY_REQUESTS, too_soon_message()) && final(redis).invites@ == old(redis).invites@,
            r is Ok ==> final(redis).invites@ == old(redis).invites@.push((inviter, invited, (now + INVITE_COOLDOWN) as u64)),
    {
        let active = match redis.invites.get(inviter, invited) {
            Some(until) => now < until,
            None => false,
        };
        if active {
            return Err(HttpError::new("Не так быстро, ковбой!", TOO_MANY_REQUESTS));
        }
        redis.invites.set(inviter, invited, now + INVITE_COOLDOWN);
        Ok(())
    }
}

/// After an invitation of `b` by `a` at time `t`, inviting `b` again from
/// `a` is refused at any time before `t + INVITE_COOLDOWN`, and taken from
/// then on; the cooldowns of the other pairs are what they were.
pub proof fn law_invite_cooldown(entries: Seq<(i32, i32, u64)>, a: i32, b: i32, t: u64, later: u64)
    requires
        t <= u64::MAX - INVITE_COOLDOWN,
    ensures
        ({
            let after = entries.push((a, b, (t + INVITE_COOLDOWN) as u64));
            &&& cooling_down(after, a, b, later) <==> later < t + INVITE_COOLDOWN
            &&& forall|c: i32, d: i32| !(c == a && d == b) ==> #[trigger] cooldown_of(after, c, d) == cooldown_of(entries, c, d)
        }),
{
    let after = entries.push((a, b, (t + INVITE_COOLDOWN) as u64));
    assert(after.drop_last() =~= entries);
}

/// Two different pairs of users never share a cooldown key: the key names
/// the inviter and the invited user, in that order.
pub proof fn law_invite_keys_distinct(a: i32, b: i32, c: i32, d: i32)
    ensures
        invite_key(a, b) == invite_key(c, d) ==> a == c && b == d,
{
    if invite_key(a, b) == invite_key(c, d) {
        reveal_strlit("invitecd:");
        reveal_strlit(":");
        let k = invite_key(a, b);
        let (da, db, dc, dd) = (decimal(a as int), decimal(b as int), decimal(c as int), decimal(d as int));
        let (la, lc) = (da.len() as int, dc.len() as int);
        lemma_decimal_chars(a as int);
        lemma_decimal_chars(c as int);
        assert(k =~= "invitecd:"@ + da + ":"@ + db);
        assert(k =~= "invitecd:"@ + dc + ":"@ + dd);
        if la < lc {
            assert(k[9 + la] == ':');
            assert(k[9 + la] == dc[la]);
        }
        if lc < la {
            assert(k[9 + lc] == ':');
            assert(k[9 + lc] == da[lc]);
        }
        assert(da =~= k.subrange(9, 9 + la));
        assert(dc =~= k.subrange(9, 9 + lc));
        assert(db =~= k.subrange(10 + la, k.len() as int));
        assert(dd =~= k.subrange(10 + lc, k.len() as int));
        lemma_decimal_injective(a, c);
        lemma_decimal_injective(b, d);
    }
}

} // verus!
