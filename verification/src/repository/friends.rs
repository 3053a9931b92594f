use vstd::prelude::*;
use chrono::NaiveDateTime;
use crate::cache::Cache;
use crate::http::{HttpError, BAD_REQUEST, INTERNAL_SERVER_ERROR};
use crate::models::friends::{Friendship, Relationship};
use crate::models::user::{FriendsView, UserIdQuery, UserView, ids_or_zero, listed_ids, naming, not_naming, with_listed, without_listed, lemma_listed_ids_with_listed, lemma_without_with_listed};
use crate::models::lemma_filter_keeps_all;
use crate::models::userprofile::UserProfile;
use crate::service::userprofile::{UserProfileService, law_profile_run_ids, lemma_profile_run_len, profile_run};
use crate::models::privacy::UsersPrivacy;
use crate::models::userprofile::UserStatus;
use crate::service::wss::PayloadView;
use crate::service::wss::{Notice, Outcome, Payload, WssEvent, exchange_notices, id_notices, notice_views};
use super::Database;
use super::privacy::record_not_found_message;
use super::user::{blocks_unlisting, list_in, listing, unlisting, user_of, lemma_user_of_id, lemma_user_of_map};

verus! {

/// `f` joins `a` and `b`, in either direction.
pub open spec fn links(f: Friendship, a: i32, b: i32) -> bool {
    (f.user_id == a && f.friend_id == b) || (f.user_id == b && f.friend_id == a)
}

/// `f` is a row of user `u`, on either side.
pub open spec fn involves(f: Friendship, u: i32) -> bool {
    f.user_id == u || f.friend_id == u
}

/// `f` is the request of `user_id` to `friend_id`, not yet accepted.
pub open spec fn is_pending_request(f: Friendship, user_id: i32, friend_id: i32) -> bool {
    f.user_id == user_id && f.friend_id == friend_id && f.status == Relationship::Pending
}

/// `f` once accepted.
pub open spec fn accepted(f: Friendship) -> Friendship {
    Friendship { status: Relationship::Accepted, ..f }
}

/// Two rows never hold the same pair (`user_id`, `friend_id`): the table's
/// primary key.
pub open spec fn keys_unique(rows: Seq<Friendship>) -> bool {
    forall|i: int, j: int|
        0 <= i < rows.len() && 0 <= j < rows.len() && i != j ==> !(#[trigger] rows[i].user_id
            == #[trigger] rows[j].user_id && rows[i].friend_id == rows[j].friend_id)
}

/// No two rows join the same two users, whichever way round.
pub open spec fn pairs_unique(rows: Seq<Friendship>) -> bool {
    forall|i: int, j: int|
        0 <= i < rows.len() && 0 <= j < rows.len() && i != j ==> !links(#[trigger] rows[i], rows[j].user_id,
            #[trigger] rows[j].friend_id)
}

/// Some row joins `a` and `b`: a request between them, or their friendship.
pub open spec fn linked(rows: Seq<Friendship>, a: i32, b: i32) -> bool {
    exists|i: int| 0 <= i < rows.len() && links(#[trigger] rows[i], a, b)
}

/// `a` and `b` are friends: an accepted row joins them.
pub open spec fn friends_in(rows: Seq<Friendship>, a: i32, b: i32) -> bool {
    exists|i: int|
        0 <= i < rows.len() && links(#[trigger] rows[i], a, b) && rows[i].status
            == Relationship::Accepted
}

/// Some row is the pending request of `user_id` to `friend_id`.
pub open spec fn has_pending_request(rows: Seq<Friendship>, user_id: i32, friend_id: i32) -> bool {
    exists|i: int| 0 <= i < rows.len() && is_pending_request(#[trigger] rows[i], user_id, friend_id)
}

/// The rows of user `u`, as a filter.
pub open spec fn involving(u: i32) -> spec_fn(Friendship) -> bool {
    |f: Friendship| involves(f, u)
}

/// The pending rows of user `u`, as a filter.
pub open spec fn pending_involving(u: i32) -> spec_fn(Friendship) -> bool {
    |f: Friendship| involves(f, u) && f.status == Relationship::Pending
}

/// Every row but the pending request of `user_id` to `friend_id`, as a
/// filter: a friendship stays.
pub open spec fn other_than_request(user_id: i32, friend_id: i32) -> spec_fn(Friendship) -> bool {
    |f: Friendship| !is_pending_request(f, user_id, friend_id)
}

/// Every row that does not join `a` and `b`, as a filter.
pub open spec fn not_linking(a: i32, b: i32) -> spec_fn(Friendship) -> bool {
    |f: Friendship| !links(f, a, b)
}

/// Keeping some rows of a table keeps its key unique.
pub proof fn lemma_filter_keys_unique(s: Seq<Friendship>, p: spec_fn(Friendship) -> bool)
    requires
        keys_unique(s),
    ensures
        keys_unique(s.filter(p)),
    decreases s.len(),
{
    reveal(Seq::filter);
    if s.len() > 0 {
        let rest = s.drop_last();
        assert forall|i: int, j: int|
            0 <= i < rest.len() && 0 <= j < rest.len() && i != j implies !(#[trigger] rest[i].user_id
                == #[trigger] rest[j].user_id && rest[i].friend_id == rest[j].friend_id) by {
            assert(rest[i] == s[i] && rest[j] == s[j]);
        }
        lemma_filter_keys_unique(rest, p);
        let fr = rest.filter(p);
        if p(s.last()) {
            assert forall|k: int| 0 <= k < fr.len() implies !(#[trigger] fr[k].user_id == s.last().user_id
                && fr[k].friend_id == s.last().friend_id) by {
                assert(fr.contains(fr[k]));
                rest.lemma_filter_contains_rev(p, fr[k]);
                let j = choose|j: int| 0 <= j < rest.len() && rest[j] == fr[k];
                assert(s[j] == fr[k]);
                assert(s[s.len() - 1] == s.last());
            }
            let out = fr.push(s.last());
            assert(s.filter(p) == out);
            assert forall|i: int, j: int|
                0 <= i < out.len() && 0 <= j < out.len() && i != j implies !(#[trigger] out[i].user_id
                    == #[trigger] out[j].user_id && out[i].friend_id == out[j].friend_id) by {
                if i == fr.len() {
                    assert(out[j] == fr[j]);
                } else if j == fr.len() {
                    assert(out[i] == fr[i]);
                } else {
                    assert(out[i] == fr[i] && out[j] == fr[j]);
                }
            }
        }
    }
}

/// Message of the refusal of a request between users already joined.
pub open spec fn already_linked_message() -> Seq<char> {
    "Запрос в друзья уже существует или вы уже друзья"@
}

/// Message of the refusal to take an entry out of friends that are a JSON
/// scalar.
pub open spec fn scalar_friends_message() -> Seq<char> {
    "cannot delete from scalar"@
}

/// Message of the refusal to accept a request that is not pending.
pub open spec fn no_pending_request_message() -> Seq<char> {
    "Заявки не существует, или уже принята"@
}

/// The friendships table: who asked whom to be friends, and who are friends.
pub struct FriendshipTable {
    rows: Vec<Friendship>,
}

impl View for FriendshipTable {
    type V = Seq<Friendship>;

    closed spec fn view(&self) -> Seq<Friendship> {
        self.rows@
    }
}

impl FriendshipTable {
    /// The table holds each pair of users at most once in each direction.
    pub open spec fn wf(&self) -> bool {
        keys_unique(self@)
    }

    /// An empty table.
    pub fn new() -> (t: FriendshipTable)
        ensures
            t@ == Seq::<Friendship>::empty(),
            t.wf(),
    {
        FriendshipTable { rows: Vec::new() }
    }

    /// The table of `rows`, unless two of them hold the same pair.
    pub fn from_rows(rows: Vec<Friendship>) -> (t: Option<FriendshipTable>)
        ensures
            t is Some <==> keys_unique(rows@),
            t matches Some(t) ==> t@ == rows@ && t.wf(),
    {
        let n = rows.len();
        let mut i: usize = 0;
        while i < n
            invariant
                n == rows@.len(),
                i <= n,
                forall|a: int, b: int|
                    0 <= a < i && 0 <= b < n && a != b ==> !(#[trigger] rows@[a].user_id
                        == #[trigger] rows@[b].user_id && rows@[a].friend_id == rows@[b].friend_id),
            decreases n - i,
        {
            let mut j: usize = 0;
            while j < n
                invariant
                    n == rows@.len(),
                    i < n,
                    j <= n,
                    forall|a: int, b: int|
                        0 <= a < i && 0 <= b < n && a != b ==> !(#[trigger] rows@[a].user_id
                            == #[trigger] rows@[b].user_id && rows@[a].friend_id
                            == rows@[b].friend_id),
                    forall|b: int|
                        0 <= b < j && i != b ==> !(rows@[i as int].user_id == #[trigger] rows@[b].user_id
                            && rows@[i as int].friend_id == rows@[b].friend_id),
                decreases n - j,
            {
                if i != j && rows[i].user_id == rows[j].user_id && rows[i].friend_id == rows[j].friend_id {
                    return None;
                }
                j = j + 1;
            }
            i = i + 1;
        }
        Some(FriendshipTable { rows })
    }

    /// The rows, in the table's order.
    pub fn rows(&self) -> (r: &Vec<Friendship>)
        ensures
            r@ == self@,
    {
        &self.rows
    }
}

impl FriendshipTable {
    /// Finds a row that joins `a` and `b` in either direction.
    fn find_link(&self, a: i32, b: i32) -> (r: bool)
        ensures
            r == linked(self@, a, b),
    {
        let n = self.rows.len();
        let mut i: usize = 0;
        while i < n
            invariant
                n == self@.len(),
                i <= n,
                forall|k: int| 0 <= k < i ==> !links(#[trigger] self@[k], a, b),
            decreases n - i,
        {
            let f = &self.rows[i];
            if (f.user_id == a && f.friend_id == b) || (f.user_id == b && f.friend_id == a) {
                return true;
            }
            i = i + 1;
        }
        false
    }

    /// `user_id` asks `friend_id` to be friends. Refused with `400` when a
    /// row already joins the two, in either direction; else the pending
    /// request is added and given back.
    pub fn insert_request(&mut self, user_id: i32, friend_id: i32, created_at: NaiveDateTime) -> (r: Result<Friendship, HttpError>)
        requires
            old(self).wf(),
        ensures
            final(self).wf(),
            r is Err <==> linked(old(self)@, user_id, friend_id),
            r matches Err(e) ==> e.is(BAD_REQUEST, already_linked_message()) && final(self)@ == old(self)@,
            r matches Ok(f) ==> f == (Friendship { user_id, friend_id, status: Relationship::Pending, created_at })
                && final(self)@ == old(self)@.push(f),
    {
        if self.find_link(user_id, friend_id) {
            return Err(HttpError::new("Запрос в друзья уже существует или вы уже друзья", BAD_REQUEST));
        }
        let f = Friendship { user_id, friend_id, status: Relationship::Pending, created_at };
        self.rows.push(f);
        proof {
            assert forall|i: int, j: int|
                0 <= i < self@.len() && 0 <= j < self@.len() && i != j implies !(#[trigger] self@[i].user_id
                    == #[trigger] self@[j].user_id && self@[i].friend_id == self@[j].friend_id) by {
                if i == old(self)@.len() as int {
                    assert(!links(old(self)@[j], user_id, friend_id));
                } else if j == old(self)@.len() as int {
                    assert(!links(old(self)@[i], user_id, friend_id));
                }
            }
        }
        Ok(f)
    }

    /// Whether the request of `user_id` to `friend_id` is pending.
    pub fn has_pending(&self, user_id: i32, friend_id: i32) -> (r: bool)
        ensures
            r == has_pending_request(self@, user_id, friend_id),
    {
        let n = self.rows.len();
        let mut i: usize = 0;
        while i < n
            invariant
                n == self@.len(),
                i <= n,
                forall|k: int| 0 <= k < i ==> !is_pending_request(#[trigger] self@[k], user_id, friend_id),
            decreases n - i,
        {
            let f = &self.rows[i];
            if f.user_id == user_id && f.friend_id == friend_id && f.status == Relationship::Pending {
                return true;
            }
            i = i + 1;
        }
        false
    }

    /// Whether `user_id` and `other_user_id` are friends: an accepted row
    /// joins them, in either direction.
    pub fn are_friends(&self, user_id: i32, other_user_id: i32) -> (r: bool)
        ensures
            r == friends_in(self@, user_id, other_user_id),
    {
        let n = self.rows.len();
        let mut i: usize = 0;
        while i < n
            invariant
                n == self@.len(),
                i <= n,
                forall|k: int|
                    0 <= k < i ==> !(links(#[trigger] self@[k], user_id, other_user_id)
                        && self@[k].status == Relationship::Accepted),
            decreases n - i,
        {
            let f = &self.rows[i];
            if ((f.user_id == user_id && f.friend_id == other_user_id) || (f.user_id == other_user_id
                && f.friend_id == user_id)) && f.status == Relationship::Accepted {
                return true;
            }
            i = i + 1;
        }
        false
    }

    /// `friend_id` accepts the request that `user_id` sent. Refused with
    /// `400` when no such request is pending; else the request becomes a
    /// friendship, which is given back.
    pub fn accept_request(&mut self, user_id: i32, friend_id: i32) -> (r: Result<Friendship, HttpError>)
        requires
            old(self).wf(),
        ensures
            final(self).wf(),
            r is Ok <==> has_pending_request(old(self)@, user_id, friend_id),
            r matches Err(e) ==> e.is(BAD_REQUEST, no_pending_request_message()) && final(self)@ == old(self)@,
            r matches Ok(f) ==> exists|i: int|
                0 <= i < old(self)@.len() && is_pending_request(#[trigger] old(self)@[i], user_id, friend_id)
                    && f == accepted(old(self)@[i]) && final(self)@ == old(self)@.update(i, f),
    {
        let n = self.rows.len();
        let mut i: usize = 0;
        while i < n
            invariant
                n == self@.len(),
                i <= n,
                self@ == old(self)@,
                keys_unique(old(self)@),
                forall|k: int| 0 <= k < i ==> !is_pending_request(#[trigger] self@[k], user_id, friend_id),
            decreases n - i,
        {
            let f = self.rows[i];
            if f.user_id == user_id && f.friend_id == friend_id && f.status == Relationship::Pending {
                let g = Friendship { status: Relationship::Accepted, ..f };
                self.rows.set(i, g);
                proof {
                    assert(self@ == old(self)@.update(i as int, g));
                    assert forall|a: int, b: int|
                        0 <= a < self@.len() && 0 <= b < self@.len() && a != b implies !(#[trigger] self@[a].user_id
                            == #[trigger] self@[b].user_id && self@[a].friend_id == self@[b].friend_id) by {
                        assert(old(self)@[a].user_id == self@[a].user_id);
                        assert(old(self)@[b].user_id == self@[b].user_id);
                    }
                }
                return Ok(g);
            }
            i = i + 1;
        }
        Err(HttpError::new("Заявки не существует, или уже принята", BAD_REQUEST))
    }

    /// The rows of `user_id`, on either side, in the table's order.
    pub fn rows_of(&self, user_id: i32) -> (r: Vec<Friendship>)
        ensures
            r@ == self@.filter(involving(user_id)),
    {
        let mut r: Vec<Friendship> = Vec::new();
        let n = self.rows.len();
        let mut i: usize = 0;
        while i < n
            invariant
                n == self@.len(),
                i <= n,
                r@ == self@.take(i as int).filter(involving(user_id)),
            decreases n - i,
        {
            let f = self.rows[i];
            proof {
                reveal(Seq::filter);
                assert(self@.take(i + 1).drop_last() =~= self@.take(i as int));
                assert(self@.take(i + 1).last() == f);
            }
            if f.user_id == user_id || f.friend_id == user_id {
                r.push(f);
            }
            i = i + 1;
        }
        assert(self@.take(n as int) =~= self@);
        r
    }

    /// The pending requests of `user_id`, sent or received, in the table's
    /// order.
    pub fn requests_of(&self, user_id: i32) -> (r: Vec<Friendship>)
        ensures
            r@ == self@.filter(pending_involving(user_id)),
    {
        let mut r: Vec<Friendship> = Vec::new();
        let n = self.rows.len();
        let mut i: usize = 0;
        while i < n
            invariant
                n == self@.len(),
                i <= n,
                r@ == self@.take(i as int).filter(pending_involving(user_id)),
            decreases n - i,
        {
            let f = self.rows[i];
            proof {
                reveal(Seq::filter);
                assert(self@.take(i + 1).drop_last() =~= self@.take(i as int));
                assert(self@.take(i + 1).last() == f);
            }
            if (f.user_id == user_id || f.friend_id == user_id) && f.status == Relationship::Pending {
                r.push(f);
            }
            i = i + 1;
        }
        assert(self@.take(n as int) =~= self@);
        r
    }

    /// Takes out the rows between `a` and `b`: in both directions, or only
    /// the pending request of `a` to `b`. The other rows keep their order.
    fn retain_rows(&mut self, a: i32, b: i32, both_directions: bool)
        requires
            old(self).wf(),
        ensures
            final(self).wf(),
            both_directions ==> final(self)@ == old(self)@.filter(not_linking(a, b)),
            !both_directions ==> final(self)@ == old(self)@.filter(other_than_request(a, b)),
    {
        let ghost p = if both_directions { not_linking(a, b) } else { other_than_request(a, b) };
        let mut kept: Vec<Friendship> = Vec::new();
        let n = self.rows.len();
        let mut i: usize = 0;
        while i < n
            invariant
                n == self@.len(),
                i <= n,
                self@ == old(self)@,
                p == (if both_directions { not_linking(a, b) } else { other_than_request(a, b) }),
                kept@ == self@.take(i as int).filter(p),
            decreases n - i,
        {
            let f = self.rows[i];
            proof {
                reveal(Seq::filter);
                assert(self@.take(i + 1).drop_last() =~= self@.take(i as int));
                assert(self@.take(i + 1).last() == f);
            }
            let drop = if both_directions {
                (f.user_id == a && f.friend_id == b) || (f.user_id == b && f.friend_id == a)
            } else {
                f.user_id == a && f.friend_id == b && f.status == Relationship::Pending
            };
            if !drop {
                kept.push(f);
            }
            i = i + 1;
        }
        assert(self@.take(n as int) =~= self@);
        proof {
            lemma_filter_keys_unique(old(self)@, p);
        }
        self.rows = kept;
    }

    /// Withdraws or declines the request of `user_id` to `friend_id`: the
    /// pending row of that pair, in that direction, goes; a friendship
    /// stays.
    pub fn delete_request(&mut self, user_id: i32, friend_id: i32)
        requires
            old(self).wf(),
        ensures
            final(self).wf(),
            final(self)@ == old(self)@.filter(other_than_request(user_id, friend_id)),
    {
        self.retain_rows(user_id, friend_id, false);
    }

    /// Ends whatever joins `user_id` and `friend_id`: the rows between them,
    /// in both directions, go.
    pub fn delete_between(&mut self, user_id: i32, friend_id: i32)
        requires
            old(self).wf(),
        ensures
            final(self).wf(),
            final(self)@ == old(self)@.filter(not_linking(user_id, friend_id)),
    {
        self.retain_rows(user_id, friend_id, true);
    }
}


/// Message of a friend list that could not be read.
pub open spec fn friend_list_unreadable_message() -> Seq<char> {
    "Не удалось получить список друзей"@
}

/// What the request of `user_id` to `friend_id` at `created_at` answers
/// and leaves, from database `db0` and cache `redis0` to `db1` and
/// `redis1`: refused with `400` when a row already joins the two; else the
/// pending request is added and each is told of the other with a
/// `FRIEND_REQUEST` carrying the other's profile.
pub open spec fn add_answers(db0: Database, db1: Database, redis0: Cache, redis1: Cache, user_id: i32, friend_id: i32, created_at: NaiveDateTime, o: Outcome<Friendship>) -> bool {
    &&& linked(db0.friendships@, user_id, friend_id) ==> {
        &&& o.result matches Err(e) && e.is(BAD_REQUEST, already_linked_message())
        &&& o.notices@.len() == 0
        &&& db1.friendships@ == db0.friendships@
        &&& db1.users@ == db0.users@
        &&& redis1.statuses@ == redis0.statuses@
    }
    &&& !linked(db0.friendships@, user_id, friend_id) ==> {
        let f = Friendship { user_id, friend_id, status: Relationship::Pending, created_at };
        let run = profile_run(db0.privacy@, db0.friendships@.push(f), db0.users@, redis0.statuses@, None, seq![friend_id, user_id]);
        &&& db1.friendships@ == db0.friendships@.push(f)
        &&& db1.users@ == run.2
        &&& redis1.statuses@ == run.3
        &&& notice_views(o.notices@) == exchange_notices(run.1, user_id, friend_id, WssEvent::FriendRequest)
        &&& match run.0 {
            Some((status, message)) => o.result matches Err(e) && e.is(status, message),
            None => o.result == Ok::<Friendship, HttpError>(f),
        }
    }
}

/// What accepting the request of `user_id` to `friend_id` answers and
/// leaves, from database `db0` and cache `redis0` to `db1` and `redis1`:
/// when the request is pending, it becomes a friendship, each user is
/// listed in the other's friends, and each is told of the other with a
/// `FRIEND_ADD` carrying the other's profile; else `400`, nothing changed,
/// nobody told.
pub open spec fn accept_answers(db0: Database, db1: Database, redis0: Cache, redis1: Cache, user_id: i32, friend_id: i32, o: Outcome<Friendship>) -> bool {
    &&& !has_pending_request(db0.friendships@, user_id, friend_id) ==> {
        &&& o.result matches Err(e) && e.is(BAD_REQUEST, no_pending_request_message())
        &&& o.notices@.len() == 0
        &&& db1.friendships@ == db0.friendships@
        &&& db1.users@ == db0.users@
        &&& redis1.statuses@ == redis0.statuses@
    }
    &&& has_pending_request(db0.friendships@, user_id, friend_id) ==> exists|i: int|
        0 <= i < db0.friendships@.len() && is_pending_request(#[trigger] db0.friendships@[i], user_id, friend_id)
            && db1.friendships@ == db0.friendships@.update(i, accepted(db0.friendships@[i]))
            && ({
                let users = listing(listing(db0.users@, user_id, friend_id), friend_id, user_id);
                let run = profile_run(db0.privacy@, db1.friendships@, users, redis0.statuses@, None, seq![friend_id, user_id]);
                &&& db1.users@ == run.2
                &&& redis1.statuses@ == run.3
                &&& notice_views(o.notices@) == exchange_notices(run.1, user_id, friend_id, WssEvent::FriendAdd)
                &&& match run.0 {
                    Some((status, message)) => o.result matches Err(e) && e.is(status, message),
                    None => o.result == Ok::<Friendship, HttpError>(accepted(db0.friendships@[i])),
                }
            })
}

/// The friendship operations of the service.
pub struct FriendsRepository;

impl FriendsRepository {
    /// Tells `a` about `b` and then `b` about `a`, with their profiles, until
    /// a profile is refused: gives the refusal, if there was one.
    fn exchange_profiles(db: &mut Database, redis: &mut Cache, a: i32, b: i32, event: WssEvent, notices: &mut Vec<Notice>) -> (r: Option<HttpError>)
        requires
            old(db).wf(),
        ensures
            ({
                let run = profile_run(old(db).privacy@, old(db).friendships@, old(db).users@, old(redis).statuses@, None, seq![b, a]);
                &&& final(db).wf()
                &&& final(db).privacy == old(db).privacy
                &&& final(db).friendships == old(db).friendships
                &&& final(redis).invites == old(redis).invites
                &&& final(db).users@ == run.2
                &&& final(redis).statuses@ == run.3
                &&& notice_views(final(notices)@) == notice_views(old(notices)@) + exchange_notices(run.1, a, b, event)
                &&& match run.0 {
                    Some((status, message)) => r matches Some(e) && e.is(status, message),
                    None => r is None,
                }
            }),
    {
        let mut ids: Vec<i32> = Vec::new();
        ids.push(b);
        ids.push(a);
        assert(ids@ =~= seq![b, a]);
        let (mut profiles, refusal) = UserProfileService::read_profiles(db, redis, None, &ids);
        let ghost views = profiles@.map_values(|p: UserProfile| p@);
        let ghost before = notices@;
        proof {
            lemma_profile_run_len(db.privacy@, db.friendships@, old(db).users@, old(redis).statuses@, None, seq![b, a]);
        }
        if profiles.len() == 2 {
            let second = profiles.pop();
            let first = profiles.pop();
            if let (Some(p), Some(q)) = (first, second) {
                notices.push(Notice { user_id: a, event, payload: Payload::Profile(p) });
                notices.push(Notice { user_id: b, event, payload: Payload::Profile(q) });
            }
        } else if profiles.len() == 1 {
            if let Some(p) = profiles.pop() {
                notices.push(Notice { user_id: a, event, payload: Payload::Profile(p) });
            }
        }
        assert(notice_views(notices@) =~= notice_views(before) + exchange_notices(views, a, b, event));
        refusal
    }

    /// `user_id` asks `friend_id` to be friends. Refused with `400` when a
    /// row already joins the two, in either direction. Else the pending
    /// request is added, and each of the two is told about the other with a
    /// `FRIEND_REQUEST` carrying the other's profile, `user_id` first; a
    /// profile that cannot be read stops there and answers with its refusal,
    /// though the request stays.
    pub fn add(db: &mut Database, redis: &mut Cache, user_id: i32, friend_id: i32, created_at: NaiveDateTime) -> (o: Outcome<Friendship>)
        requires
            old(db).wf(),
        ensures
            final(db).wf(),
            final(db).privacy == old(db).privacy,
            final(redis).invites == old(redis).invites,
            add_answers(*old(db), *final(db), *old(redis), *final(redis), user_id, friend_id, created_at, o),
    {
        let mut notices: Vec<Notice> = Vec::new();
        let friendship = match db.friendships.insert_request(user_id, friend_id, created_at) {
            Ok(f) => f,
            Err(e) => {
                return Outcome { result: Err(e), notices };
            },
        };
        let refusal = Self::exchange_profiles(db, redis, user_id, friend_id, WssEvent::FriendRequest, &mut notices);
        assert(notice_views(Seq::<Notice>::empty()) =~= Seq::<crate::service::wss::NoticeView>::empty());
        match refusal {
            Some(e) => Outcome { result: Err(e), notices },
            None => Outcome { result: Ok(friendship), notices },
        }
    }

    /// `friend_id` accepts the request of `user_id`: the pending request
    /// becomes a friendship, and each of the two is added at the end of the
    /// other's friend list as the string of the other's id, `friend_id` to
    /// the list of `user_id` first. Then each of the two is told about the
    /// other with a `FRIEND_ADD` carrying the other's profile, `user_id`
    /// first; a profile that cannot be read stops there and answers with its
    /// refusal. Refused with `400` when no such request is pending: nothing
    /// changes and nobody is told.
    pub fn accept(db: &mut Database, redis: &mut Cache, user_id: i32, friend_id: i32) -> (o: Outcome<Friendship>)
        requires
            old(db).wf(),
        ensures
            final(db).wf(),
            final(db).privacy == old(db).privacy,
            final(redis).invites == old(redis).invites,
            accept_answers(*old(db), *final(db), *old(redis), *final(redis), user_id, friend_id, o),
    {
        let mut notices: Vec<Notice> = Vec::new();
        let friendship = match db.friendships.accept_request(user_id, friend_id) {
            Ok(f) => f,
            Err(e) => {
                return Outcome { result: Err(e), notices };
            },
        };
        db.users.list_friend(user_id, friend_id);
        db.users.list_friend(friend_id, user_id);
        let refusal = Self::exchange_profiles(db, redis, user_id, friend_id, WssEvent::FriendAdd, &mut notices);
        assert(notice_views(Seq::<Notice>::empty()) =~= Seq::<crate::service::wss::NoticeView>::empty());
        match refusal {
            Some(e) => Outcome { result: Err(e), notices },
            None => Outcome { result: Ok(friendship), notices },
        }
    }

    /// Whether `user_id` and `other_user_id` are friends.
    pub fn is_friends(db: &Database, user_id: i32, other_user_id: i32) -> (r: bool)
        ensures
            r == friends_in(db.friendships@, user_id, other_user_id),
    {
        db.friendships.are_friends(user_id, other_user_id)
    }

    /// The profiles of the friends that the row of `user_id` lists, in
    /// order, each as `user_id` may see it; entries that name no id are
    /// skipped. Refused with `500` when `user_id` has no row; a profile that
    /// cannot be read stops the reading and answers with its refusal.
    pub fn get_friend_list(db: &mut Database, redis: &mut Cache, user_id: i32) -> (r: Result<Vec<UserProfile>, HttpError>)
        requires
            old(db).wf(),
        ensures
            final(db).wf(),
            final(db).privacy == old(db).privacy,
            final(db).friendships == old(db).friendships,
            final(redis).invites == old(redis).invites,
            match user_of(old(db).users@, user_id) {
                None => r matches Err(e) && e.is(INTERNAL_SERVER_ERROR, friend_list_unreadable_message())
                    && final(db).users@ == old(db).users@ && final(redis).statuses@ == old(redis).statuses@,
                Some(u) => {
                    let run = profile_run(old(db).privacy@, old(db).friendships@, old(db).users@, old(redis).statuses@,
                        Some(UserIdQuery { user_id: Some(user_id) }), listed_ids(u.friends));
                    &&& final(db).users@ == run.2
                    &&& final(redis).statuses@ == run.3
                    &&& match run.0 {
                        Some((status, message)) => r matches Err(e) && e.is(status, message),
                        None => r matches Ok(v) && v@.map_values(|p: UserProfile| p@) == run.1,
                    }
                },
            },
    {
        let ids = match db.users.position(user_id) {
            None => {
                return Err(HttpError::new("Не удалось получить список друзей", INTERNAL_SERVER_ERROR));
            },
            Some(i) => db.users.rows()[i].friends.listed_ids(),
        };
        let (profiles, refusal) = UserProfileService::read_profiles(db, redis, Some(UserIdQuery { user_id: Some(user_id) }), &ids);
        match refusal {
            Some(e) => Err(e),
            None => Ok(profiles),
        }
    }

    /// One id for each entry of the friend list in the row of `user_id`,
    /// `0` for an entry that names none. Refused with `500` when `user_id`
    /// has no row.
    pub fn get_friend_ids(db: &Database, user_id: i32) -> (r: Result<Vec<i32>, HttpError>)
        requires
            db.wf(),
        ensures
            match user_of(db.users@, user_id) {
                None => r matches Err(e) && e.is(INTERNAL_SERVER_ERROR, record_not_found_message()),
                Some(u) => r matches Ok(v) && v@ == ids_or_zero(u.friends),
            },
    {
        match db.users.position(user_id) {
            None => Err(HttpError::new("Record not found", INTERNAL_SERVER_ERROR)),
            Some(i) => Ok(db.users.rows()[i].friends.ids_or_zero()),
        }
    }

    /// The rows of `user_id`, sent or received, pending or accepted.
    pub fn get_friendship_list(db: &Database, user_id: i32) -> (r: Vec<Friendship>)
        ensures
            r@ == db.friendships@.filter(involving(user_id)),
    {
        db.friendships.rows_of(user_id)
    }

    /// The pending requests of `user_id`, sent or received.
    pub fn get_friend_requests(db: &Database, user_id: i32) -> (r: Vec<Friendship>)
        ensures
            r@ == db.friendships@.filter(pending_involving(user_id)),
    {
        db.friendships.requests_of(user_id)
    }

    /// Withdraws or declines the request of `user_id` to `friend_id`, if it
    /// is pending (a friendship between the two stays), and tells each of
    /// the two with a `FRIEND_CANCEL` that names the other, `user_id` first.
    pub fn cancel(db: &mut Database, friend_id: i32, user_id: i32) -> (o: Outcome<()>)
        requires
            old(db).wf(),
        ensures
            final(db).wf(),
            final(db).users == old(db).users,
            final(db).privacy == old(db).privacy,
            final(db).friendships@ == old(db).friendships@.filter(other_than_request(user_id, friend_id)),
            o.result is Ok,
            notice_views(o.notices@) == id_notices(user_id, friend_id, WssEvent::FriendCancel),
    {
        db.friendships.delete_request(user_id, friend_id);
        let mut notices: Vec<Notice> = Vec::new();
        notices.push(Notice { user_id, event: WssEvent::FriendCancel, payload: Payload::Id(friend_id) });
        notices.push(Notice { user_id: friend_id, event: WssEvent::FriendCancel, payload: Payload::Id(user_id) });
        assert(notice_views(notices@) =~= id_notices(user_id, friend_id, WssEvent::FriendCancel));
        Outcome { result: Ok(()), notices }
    }

    /// Ends whatever joins `user_id` and `friend_id`: the rows between them,
    /// in both directions, go, and the string entries of each one's id go
    /// from the other's friend list (from an object, the member of that
    /// key), from the list of `user_id` first. When the friends of either
    /// user are a JSON scalar, nothing can be taken from them: the removal is
    /// refused with `500` and nothing changes. Either way, each of the two
    /// is then told with a `FRIEND_REMOVE` that names the other, `user_id`
    /// first.
    pub fn remove(db: &mut Database, user_id: i32, friend_id: i32) -> (o: Outcome<()>)
        requires
            old(db).wf(),
        ensures
            final(db).wf(),
            final(db).privacy == old(db).privacy,
            notice_views(o.notices@) == id_notices(user_id, friend_id, WssEvent::FriendRemove),
            blocks_unlisting(old(db).users@, user_id) || blocks_unlisting(old(db).users@, friend_id) ==> {
                &&& o.result matches Err(e) && e.is(INTERNAL_SERVER_ERROR, scalar_friends_message())
                &&& final(db).users@ == old(db).users@
                &&& final(db).friendships@ == old(db).friendships@
            },
            !(blocks_unlisting(old(db).users@, user_id) || blocks_unlisting(old(db).users@, friend_id)) ==> {
                &&& o.result is Ok
                &&& final(db).users@ == unlisting(unlisting(old(db).users@, user_id, friend_id), friend_id, user_id)
                &&& final(db).friendships@ == old(db).friendships@.filter(not_linking(user_id, friend_id))
            },
    {
        let result = if db.users.friends_are_scalar(user_id) || db.users.friends_are_scalar(friend_id) {
            Err(HttpError::new("cannot delete from scalar", INTERNAL_SERVER_ERROR))
        } else {
            db.friendships.delete_between(user_id, friend_id);
            db.users.unlist_friend(user_id, friend_id);
            db.users.unlist_friend(friend_id, user_id);
            Ok(())
        };
        let mut notices: Vec<Notice> = Vec::new();
        notices.push(Notice { user_id, event: WssEvent::FriendRemove, payload: Payload::Id(friend_id) });
        notices.push(Notice { user_id: friend_id, event: WssEvent::FriendRemove, payload: Payload::Id(user_id) });
        assert(notice_views(notices@) =~= id_notices(user_id, friend_id, WssEvent::FriendRemove));
        Outcome { result, notices }
    }
}

/// Whether two users are joined, or friends, does not depend on which of
/// them is named first.
pub proof fn law_symmetric(rows: Seq<Friendship>, a: i32, b: i32)
    ensures
        linked(rows, a, b) == linked(rows, b, a),
        friends_in(rows, a, b) == friends_in(rows, b, a),
{
    if linked(rows, a, b) {
        let i = choose|i: int| 0 <= i < rows.len() && links(#[trigger] rows[i], a, b);
        assert(links(rows[i], b, a));
    }
    if linked(rows, b, a) {
        let i = choose|i: int| 0 <= i < rows.len() && links(#[trigger] rows[i], b, a);
        assert(links(rows[i], a, b));
    }
    if friends_in(rows, a, b) {
        let i = choose|i: int|
            0 <= i < rows.len() && links(#[trigger] rows[i], a, b) && rows[i].status
                == Relationship::Accepted;
        assert(links(rows[i], b, a));
    }
    if friends_in(rows, b, a) {
        let i = choose|i: int|
            0 <= i < rows.len() && links(#[trigger] rows[i], b, a) && rows[i].status
                == Relationship::Accepted;
        assert(links(rows[i], a, b));
    }
}

/// Once `a` has asked `b`, the two are joined in both directions: a second
/// request between them, from either side, is refused. The request does not
/// make anybody friends who were not.
pub proof fn law_request_blocks_repeat(rows: Seq<Friendship>, a: i32, b: i32, created_at: NaiveDateTime)
    requires
        !linked(rows, a, b),
    ensures
        ({
            let after = rows.push(Friendship { user_id: a, friend_id: b, status: Relationship::Pending, created_at });
            &&& linked(after, a, b)
            &&& linked(after, b, a)
            &&& !friends_in(after, a, b)
            &&& forall|c: i32, d: i32| #[trigger] friends_in(after, c, d) == friends_in(rows, c, d)
        }),
{
    let f = Friendship { user_id: a, friend_id: b, status: Relationship::Pending, created_at };
    let after = rows.push(f);
    assert(after[rows.len() as int] == f);
    assert(links(after[rows.len() as int], b, a));
    if friends_in(after, a, b) {
        let i = choose|i: int|
            0 <= i < after.len() && links(#[trigger] after[i], a, b) && after[i].status
                == Relationship::Accepted;
        assert(i != rows.len());
        assert(rows[i] == after[i]);
    }
    assert forall|c: i32, d: i32| #[trigger] friends_in(after, c, d) == friends_in(rows, c, d) by {
        if friends_in(after, c, d) {
            let i = choose|i: int|
                0 <= i < after.len() && links(#[trigger] after[i], c, d) && after[i].status
                    == Relationship::Accepted;
            assert(rows[i] == after[i]);
        }
        if friends_in(rows, c, d) {
            let i = choose|i: int|
                0 <= i < rows.len() && links(#[trigger] rows[i], c, d) && rows[i].status
                    == Relationship::Accepted;
            assert(rows[i] == after[i]);
        }
    }
}

/// Once `b` has accepted the request of `a`, the two are friends, seen from
/// either side, and no request of `a` to `b` is pending any more: accepting
/// it again is refused.
pub proof fn law_accept_makes_friends(rows: Seq<Friendship>, i: int, a: i32, b: i32)
    requires
        keys_unique(rows),
        0 <= i < rows.len(),
        is_pending_request(rows[i], a, b),
    ensures
        ({
            let after = rows.update(i, accepted(rows[i]));
            &&& friends_in(after, a, b)
            &&& friends_in(after, b, a)
            &&& !has_pending_request(after, a, b)
        }),
{
    let after = rows.update(i, accepted(rows[i]));
    assert(links(after[i], a, b) && after[i].status == Relationship::Accepted);
    assert(links(after[i], b, a));
    if has_pending_request(after, a, b) {
        let j = choose|j: int| 0 <= j < after.len() && is_pending_request(#[trigger] after[j], a, b);
        assert(j != i);
        assert(after[j] == rows[j]);
    }
}

/// Once `a` and `b` are removed from each other's friends, nothing joins
/// them: they are no friends, and a new request between them is taken.
pub proof fn law_remove_unlinks(rows: Seq<Friendship>, a: i32, b: i32)
    ensures
        !linked(rows.filter(not_linking(a, b)), a, b),
        !friends_in(rows.filter(not_linking(a, b)), a, b),
{
    let out = rows.filter(not_linking(a, b));
    if linked(out, a, b) {
        let i = choose|i: int| 0 <= i < out.len() && links(#[trigger] out[i], a, b);
        rows.lemma_filter_pred(not_linking(a, b), i);
    }
}

/// Once the request of `a` to `b` is cancelled, it is no longer pending:
/// accepting it is refused. Cancelling ends no friendship: whoever were
/// friends still are.
pub proof fn law_cancel_withdraws(rows: Seq<Friendship>, a: i32, b: i32)
    ensures
        !has_pending_request(rows.filter(other_than_request(a, b)), a, b),
        forall|c: i32, d: i32| #[trigger] friends_in(rows.filter(other_than_request(a, b)), c, d) == friends_in(rows, c, d),
{
    let p = other_than_request(a, b);
    let out = rows.filter(p);
    if has_pending_request(out, a, b) {
        let i = choose|i: int| 0 <= i < out.len() && is_pending_request(#[trigger] out[i], a, b);
        rows.lemma_filter_pred(p, i);
    }
    assert forall|c: i32, d: i32| #[trigger] friends_in(out, c, d) == friends_in(rows, c, d) by {
        if friends_in(out, c, d) {
            let i = choose|i: int|
                0 <= i < out.len() && links(#[trigger] out[i], c, d) && out[i].status == Relationship::Accepted;
            assert(out.contains(out[i]));
            rows.lemma_filter_contains_rev(p, out[i]);
            let j = choose|j: int| 0 <= j < rows.len() && rows[j] == out[i];
            assert(links(rows[j], c, d) && rows[j].status == Relationship::Accepted);
        }
        if friends_in(rows, c, d) {
            let i = choose|i: int|
                0 <= i < rows.len() && links(#[trigger] rows[i], c, d) && rows[i].status == Relationship::Accepted;
            assert(p(rows[i]));
            rows.lemma_filter_contains(p, i);
            let j = choose|j: int| 0 <= j < out.len() && out[j] == rows[i];
            assert(links(out[j], c, d) && out[j].status == Relationship::Accepted);
        }
    }
}

/// Once `b` has accepted the request of `a`, the friend list of each names
/// the other, so that each one's friend list holds the other; users who had
/// a row still have one.
pub proof fn law_accept_lists_each_other(rows: Seq<UserView>, a: i32, b: i32)
    ensures
        ({
            let after = listing(listing(rows, a, b), b, a);
            &&& user_of(after, a) is Some == user_of(rows, a) is Some
            &&& user_of(after, b) is Some == user_of(rows, b) is Some
            &&& user_of(after, a) matches Some(u) ==> listed_ids(u.friends).contains(b)
            &&& user_of(after, b) matches Some(u) ==> listed_ids(u.friends).contains(a)
        }),
{
    let mid = listing(rows, a, b);
    let after = listing(mid, b, a);
    assert forall|u: UserView| (#[trigger] list_in(a, b)(u)).id == u.id by {}
    assert forall|u: UserView| (#[trigger] list_in(b, a)(u)).id == u.id by {}
    lemma_user_of_map(rows, list_in(a, b), a);
    lemma_user_of_map(rows, list_in(a, b), b);
    lemma_user_of_map(mid, list_in(b, a), a);
    lemma_user_of_map(mid, list_in(b, a), b);
    lemma_user_of_id(rows, a);
    lemma_user_of_id(mid, b);
    if let Some(u) = user_of(rows, a) {
        let l = with_listed(u.friends, b);
        lemma_listed_ids_with_listed(u.friends, b);
        assert(listed_ids(l)[listed_ids(l).len() - 1] == b);
        if a == b {
            lemma_listed_ids_with_listed(l, a);
            assert(listed_ids(with_listed(l, a))[listed_ids(l).len() - 1] == b);
            assert(user_of(after, a) == Some(list_in(b, a)(list_in(a, b)(u))));
        } else {
            assert(user_of(after, a) == Some(list_in(a, b)(u)));
        }
        assert(listed_ids(user_of(after, a)->Some_0.friends).contains(b));
    }
    if let Some(v) = user_of(mid, b) {
        lemma_listed_ids_with_listed(v.friends, a);
        let l = with_listed(v.friends, a);
        assert(listed_ids(l)[listed_ids(l).len() - 1] == a);
        assert(user_of(after, b) == Some(list_in(b, a)(v)));
        assert(listed_ids(user_of(after, b)->Some_0.friends).contains(a));
    }
}

/// Removing `a` and `b` from each other's friends undoes accepting a request
/// between them, on the friend lists: when the two lists are arrays and
/// neither names the other, they come back as they were.
pub proof fn law_remove_undoes_accept_lists(rows: Seq<UserView>, a: i32, b: i32)
    requires
        forall|i: int| 0 <= i < rows.len() && #[trigger] rows[i].id == a ==> (rows[i].friends matches FriendsView::Array(s) && !s.contains(naming(b))),
        forall|i: int| 0 <= i < rows.len() && #[trigger] rows[i].id == b ==> (rows[i].friends matches FriendsView::Array(s) && !s.contains(naming(a))),
    ensures
        unlisting(unlisting(listing(listing(rows, a, b), b, a), a, b), b, a) == rows,
{
    let after = unlisting(unlisting(listing(listing(rows, a, b), b, a), a, b), b, a);
    assert forall|i: int| 0 <= i < rows.len() implies #[trigger] after[i] == rows[i] by {
        let u = rows[i];
        if u.id == a {
            lemma_without_with_listed(u.friends, b);
        }
        if u.id == b {
            lemma_without_with_listed(u.friends, a);
        }
        if u.id == a && a != b {
            let l1 = with_listed(u.friends, b);
            assert(without_listed(l1, b) == u.friends);
        }
        if u.id == b && a != b {
            let l1 = with_listed(u.friends, a);
            assert(without_listed(l1, a) == u.friends);
        }
        if u.id == a && a == b {
            let s = u.friends->Array_0;
            let n = naming(a);
            let twice = s.push(n).push(n);
            s.push(n).lemma_filter_push(n, not_naming(a));
            s.lemma_filter_push(n, not_naming(a));
            assert(twice.filter(not_naming(a)) == s);
        }
    }
    assert(after =~= rows);
}

/// Cancelling a request undoes sending it: the friendships are as they were
/// before.
pub proof fn law_cancel_undoes_request(rows: Seq<Friendship>, a: i32, b: i32, created_at: NaiveDateTime)
    requires
        !linked(rows, a, b),
    ensures
        rows.push(Friendship { user_id: a, friend_id: b, status: Relationship::Pending, created_at })
            .filter(other_than_request(a, b)) == rows,
{
    let f = Friendship { user_id: a, friend_id: b, status: Relationship::Pending, created_at };
    rows.lemma_filter_push(f, other_than_request(a, b));
    assert forall|i: int| 0 <= i < rows.len() implies (#[trigger] other_than_request(a, b))(rows[i]) by {
        assert(!links(rows[i], a, b));
    }
    lemma_filter_keeps_all(rows, other_than_request(a, b));
}

/// Removing two users from each other's friends undoes the request between
/// them and its acceptance: the friendships are as they were before.
pub proof fn law_remove_undoes_friendship(rows: Seq<Friendship>, a: i32, b: i32, created_at: NaiveDateTime)
    requires
        !linked(rows, a, b),
    ensures
        ({
            let f = Friendship { user_id: a, friend_id: b, status: Relationship::Pending, created_at };
            let sent = rows.push(f);
            sent.update(rows.len() as int, accepted(sent[rows.len() as int])).filter(not_linking(a, b)) == rows
        }),
{
    let f = Friendship { user_id: a, friend_id: b, status: Relationship::Pending, created_at };
    let sent = rows.push(f);
    let both = sent.update(rows.len() as int, accepted(sent[rows.len() as int]));
    assert(both =~= rows.push(accepted(f)));
    rows.lemma_filter_push(accepted(f), not_linking(a, b));
    assert forall|i: int| 0 <= i < rows.len() implies (#[trigger] not_linking(a, b))(rows[i]) by {
        assert(!links(rows[i], a, b));
    }
    lemma_filter_keeps_all(rows, not_linking(a, b));
}

/// Keeping some rows keeps at most one row for each two users.
pub proof fn lemma_filter_pairs_unique(s: Seq<Friendship>, p: spec_fn(Friendship) -> bool)
    requires
        pairs_unique(s),
    ensures
        pairs_unique(s.filter(p)),
    decreases s.len(),
{
    reveal(Seq::filter);
    if s.len() > 0 {
        let rest = s.drop_last();
        assert forall|i: int, j: int|
            0 <= i < rest.len() && 0 <= j < rest.len() && i != j implies !links(#[trigger] rest[i], rest[j].user_id,
                #[trigger] rest[j].friend_id) by {
            assert(rest[i] == s[i] && rest[j] == s[j]);
        }
        lemma_filter_pairs_unique(rest, p);
        let fr = rest.filter(p);
        if p(s.last()) {
            let l = s.last();
            assert forall|k: int| 0 <= k < fr.len() implies !links(#[trigger] fr[k], l.user_id, l.friend_id)
                && !links(l, fr[k].user_id, fr[k].friend_id) by {
                assert(fr.contains(fr[k]));
                rest.lemma_filter_contains_rev(p, fr[k]);
                let j = choose|j: int| 0 <= j < rest.len() && rest[j] == fr[k];
                assert(s[j] == fr[k]);
                assert(s[s.len() - 1] == l);
            }
            let out = fr.push(l);
            assert(s.filter(p) == out);
            assert forall|i: int, j: int|
                0 <= i < out.len() && 0 <= j < out.len() && i != j implies !links(#[trigger] out[i], out[j].user_id,
                    #[trigger] out[j].friend_id) by {
                if i == fr.len() {
                    assert(out[j] == fr[j]);
                } else if j == fr.len() {
                    assert(out[i] == fr[i]);
                } else {
                    assert(out[i] == fr[i] && out[j] == fr[j]);
                }
            }
        }
    }
}

/// The table never holds two rows for the same two users, whichever way
/// round: a request is added only when nothing joins the two, accepting
/// changes no pair, and cancelling or removing only takes rows out.
pub proof fn law_pairs_stay_unique(rows: Seq<Friendship>, a: i32, b: i32, i: int, created_at: NaiveDateTime)
    requires
        pairs_unique(rows),
    ensures
        !linked(rows, a, b) ==> pairs_unique(rows.push(Friendship { user_id: a, friend_id: b, status: Relationship::Pending, created_at })),
        0 <= i < rows.len() ==> pairs_unique(rows.update(i, accepted(rows[i]))),
        pairs_unique(rows.filter(other_than_request(a, b))),
        pairs_unique(rows.filter(not_linking(a, b))),
{
    if !linked(rows, a, b) {
        let f = Friendship { user_id: a, friend_id: b, status: Relationship::Pending, created_at };
        let out = rows.push(f);
        assert forall|x: int, y: int|
            0 <= x < out.len() && 0 <= y < out.len() && x != y implies !links(#[trigger] out[x], out[y].user_id,
                #[trigger] out[y].friend_id) by {
            if x == rows.len() {
                assert(!links(rows[y], a, b));
            } else if y == rows.len() {
                assert(!links(rows[x], a, b));
            } else {
                assert(out[x] == rows[x] && out[y] == rows[y]);
            }
        }
    }
    if 0 <= i < rows.len() {
        let out = rows.update(i, accepted(rows[i]));
        assert forall|x: int, y: int|
            0 <= x < out.len() && 0 <= y < out.len() && x != y implies !links(#[trigger] out[x], out[y].user_id,
                #[trigger] out[y].friend_id) by {
            assert(out[x].user_id == rows[x].user_id && out[x].friend_id == rows[x].friend_id);
            assert(out[y].user_id == rows[y].user_id && out[y].friend_id == rows[y].friend_id);
        }
    }
    lemma_filter_pairs_unique(rows, other_than_request(a, b));
    lemma_filter_pairs_unique(rows, not_linking(a, b));
}

/// When `a` and `b` are told about each other (a request or an acceptance
/// between them), `a` gets the profile of `b` first, and then `b` gets the
/// profile of `a`; when no profile is refused, both are told.
pub proof fn law_exchange_reaches_both(
    privacy: Seq<UsersPrivacy>,
    friendships: Seq<Friendship>,
    users: Seq<UserView>,
    statuses: Seq<(i32, UserStatus)>,
    a: i32,
    b: i32,
    event: WssEvent,
)
    ensures
        ({
            let run = profile_run(privacy, friendships, users, statuses, None, seq![b, a]);
            let n = exchange_notices(run.1, a, b, event);
            &&& n.len() == run.1.len()
            &&& run.0 is None ==> n.len() == 2
            &&& n.len() >= 1 ==> n[0].user_id == a && n[0].event == event
                && (n[0].payload matches PayloadView::Profile(p) && p.id == b)
            &&& n.len() >= 2 ==> n[1].user_id == b && n[1].event == event
                && (n[1].payload matches PayloadView::Profile(p) && p.id == a)
        }),
{
    law_profile_run_ids(privacy, friendships, users, statuses, None, seq![b, a]);
    let run = profile_run(privacy, friendships, users, statuses, None, seq![b, a]);
    if run.1.len() >= 1 {
        assert(run.1[0].id == b);
    }
    if run.1.len() >= 2 {
        assert(run.1[1].id == a);
    }
}

/// A user's friend requests are the pending rows in which the user is the
/// sender or the receiver: each such row is among them, and nothing else is.
/// A user's friendship list is likewise every row in which the user is the
/// sender or the receiver, and nothing else.
pub proof fn law_requests_of_user(rows: Seq<Friendship>, u: i32)
    ensures
        forall|i: int|
            0 <= i < rows.len() && rows[i].status == Relationship::Pending && (rows[i].user_id == u
                || rows[i].friend_id == u) ==> #[trigger] rows.filter(pending_involving(u)).contains(rows[i]),
        forall|k: int|
            0 <= k < rows.filter(pending_involving(u)).len() ==> (#[trigger] rows.filter(pending_involving(u))[k]).status
                == Relationship::Pending && (rows.filter(pending_involving(u))[k].user_id == u
                || rows.filter(pending_involving(u))[k].friend_id == u),
        forall|i: int|
            0 <= i < rows.len() && (rows[i].user_id == u || rows[i].friend_id == u) ==> #[trigger] rows.filter(
                involving(u),
            ).contains(rows[i]),
        forall|k: int|
            0 <= k < rows.filter(involving(u)).len() ==> ((#[trigger] rows.filter(involving(u))[k]).user_id == u
                || rows.filter(involving(u))[k].friend_id == u),
{
    assert forall|i: int|
        0 <= i < rows.len() && rows[i].status == Relationship::Pending && (rows[i].user_id == u
            || rows[i].friend_id == u) implies #[trigger] rows.filter(pending_involving(u)).contains(rows[i]) by {
        rows.lemma_filter_contains(pending_involving(u), i);
    }
    assert forall|k: int| 0 <= k < rows.filter(pending_involving(u)).len() implies (#[trigger] rows.filter(
        pending_involving(u),
    )[k]).status == Relationship::Pending && (rows.filter(pending_involving(u))[k].user_id == u
        || rows.filter(pending_involving(u))[k].friend_id == u) by {
        rows.lemma_filter_pred(pending_involving(u), k);
    }
    assert forall|i: int|
        0 <= i < rows.len() && (rows[i].user_id == u || rows[i].friend_id == u) implies #[trigger] rows.filter(
            involving(u),
        ).contains(rows[i]) by {
        rows.lemma_filter_contains(involving(u), i);
    }
    assert forall|k: int| 0 <= k < rows.filter(involving(u)).len() implies ((#[trigger] rows.filter(
        involving(u),
    )[k]).user_id == u || rows.filter(involving(u))[k].friend_id == u) by {
        rows.lemma_filter_pred(involving(u), k);
    }
}

/// A request or an acceptance between `a` and `b` that succeeds tells both
/// of them, one notice each: `a` first, carrying the profile of `b`, then
/// `b`, carrying the profile of `a`.
pub proof fn law_both_are_told(db0: Database, db1: Database, redis0: Cache, redis1: Cache, a: i32, b: i32, created_at: NaiveDateTime, o: Outcome<Friendship>)
    ensures
        (add_answers(db0, db1, redis0, redis1, a, b, created_at, o) || accept_answers(db0, db1, redis0, redis1, a, b, o))
            && o.result is Ok ==> {
            let n = notice_views(o.notices@);
            &&& n.len() == 2
            &&& n[0].user_id == a && (n[0].payload matches PayloadView::Profile(p) && p.id == b)
            &&& n[1].user_id == b && (n[1].payload matches PayloadView::Profile(p) && p.id == a)
        },
{
    if add_answers(db0, db1, redis0, redis1, a, b, created_at, o) && o.result is Ok {
        let f = Friendship { user_id: a, friend_id: b, status: Relationship::Pending, created_at };
        law_exchange_reaches_both(db0.privacy@, db0.friendships@.push(f), db0.users@, redis0.statuses@, a, b, WssEvent::FriendRequest);
    }
    if accept_answers(db0, db1, redis0, redis1, a, b, o) && o.result is Ok {
        let users = listing(listing(db0.users@, a, b), b, a);
        law_exchange_reaches_both(db0.privacy@, db1.friendships@, users, redis0.statuses@, a, b, WssEvent::FriendAdd);
    }
}

} // verus!
