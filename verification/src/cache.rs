//! What the service keeps in its key-value cache: the status records that
//! the game servers write, and the cooldowns of invitations.
use vstd::prelude::*;
use crate::models::userprofile::UserStatus;

verus! {

/// The latest status record of user `id` among `entries`, if any.
pub open spec fn record_of(entries: Seq<(i32, UserStatus)>, id: i32) -> Option<UserStatus>
    decreases entries.len(),
{
    if entries.len() == 0 {
        None
    } else if entries.last().0 == id {
        Some(entries.last().1)
    } else {
        record_of(entries.drop_last(), id)
    }
}

/// The entries of users other than `id`, as a filter.
pub open spec fn not_of_user(id: i32) -> spec_fn((i32, UserStatus)) -> bool {
    |e: (i32, UserStatus)| e.0 != id
}

/// Once the entries of user `id` are gone, no record of `id` is found, and
/// the record of any other user is what it was.
pub proof fn lemma_record_of_filter(entries: Seq<(i32, UserStatus)>, id: i32, other: i32)
    ensures
        record_of(entries.filter(not_of_user(id)), id) is None,
        other != id ==> record_of(entries.filter(not_of_user(id)), other) == record_of(entries, other),
    decreases entries.len(),
{
    reveal(Seq::filter);
    if entries.len() > 0 {
        lemma_record_of_filter(entries.drop_last(), id, other);
        if entries.last().0 != id {
            let f = entries.drop_last().filter(not_of_user(id));
            assert(entries.filter(not_of_user(id)) == f.push(entries.last()));
            assert(f.push(entries.last()).drop_last() =~= f);
        }
    }
}

/// The status records of the users that the game servers report, keyed by
/// user.
pub struct StatusCache {
    entries: Vec<(i32, UserStatus)>,
}

impl View for StatusCache {
    type V = Seq<(i32, UserStatus)>;

    closed spec fn view(&self) -> Seq<(i32, UserStatus)> {
        self.entries@
    }
}

impl StatusCache {
    /// An empty cache.
    pub fn new() -> (c: StatusCache)
        ensures
            forall|id: i32| record_of(c@, id) is None,
    {
        StatusCache { entries: Vec::new() }
    }

    /// The record of user `id`, if the cache holds one.
    pub fn get(&self, id: i32) -> (r: Option<UserStatus>)
        ensures
            r == record_of(self@, id),
    {
        let mut i: usize = self.entries.len();
        assert(self@.take(i as int) =~= self@);
        while i > 0
            invariant
                i <= self@.len(),
                record_of(self@, id) == record_of(self@.take(i as int), id),
            decreases i,
        {
            let e = self.entries[i - 1];
            proof {
                assert(self@.take(i as int).last() == e);
                assert(self@.take(i as int).drop_last() =~= self@.take(i - 1));
            }
            if e.0 == id {
                return Some(e.1);
            }
            i = i - 1;
        }
        None
    }

    /// Drops the record of user `id`.
    pub fn remove(&mut self, id: i32)
        ensures
            final(self)@ == old(self)@.filter(not_of_user(id)),
            record_of(final(self)@, id) is None,
            forall|other: i32| other != id ==> #[trigger] record_of(final(self)@, other) == record_of(old(self)@, other),
    {
        let mut kept: Vec<(i32, UserStatus)> = Vec::new();
        let n = self.entries.len();
        let mut i: usize = 0;
        while i < n
            invariant
                n == self@.len(),
                i <= n,
                self@ == old(self)@,
                kept@ == self@.take(i as int).filter(not_of_user(id)),
            decreases n - i,
        {
            let e = self.entries[i];
            proof {
                reveal(Seq::filter);
                assert(self@.take(i + 1).drop_last() =~= self@.take(i as int));
                assert(self@.take(i + 1).last() == e);
            }
            if e.0 != id {
                kept.push(e);
            }
            i = i + 1;
        }
        assert(self@.take(n as int) =~= self@);
        self.entries = kept;
        proof {
            lemma_record_of_filter(old(self)@, id, id);
            assert forall|other: i32| other != id implies #[trigger] record_of(self@, other) == record_of(old(self)@, other) by {
                lemma_record_of_filter(old(self)@, id, other);
            }
        }
    }

    /// Stores `status` as the record of user `id`, in place of any other.
    pub fn put(&mut self, id: i32, status: UserStatus)
        ensures
            record_of(final(self)@, id) == Some(status),
            forall|other: i32| other != id ==> #[trigger] record_of(final(self)@, other) == record_of(old(self)@, other),
    {
        self.remove(id);
        let ghost mid = self@;
        self.entries.push((id, status));
        proof {
            assert(self@.drop_last() =~= mid);
            assert forall|other: i32| other != id implies #[trigger] record_of(self@, other) == record_of(old(self)@, other) by {
                assert(record_of(mid, other) == record_of(old(self)@, other));
            }
        }
    }
}

/// When the cooldown of invitations from `inviter` to `invited` ends, if
/// one was set: the latest entry of that pair.
pub open spec fn cooldown_of(entries: Seq<(i32, i32, u64)>, inviter: i32, invited: i32) -> Option<u64>
    decreases entries.len(),
{
    if entries.len() == 0 {
        None
    } else if entries.last().0 == inviter && entries.last().1 == invited {
        Some(entries.last().2)
    } else {
        cooldown_of(entries.drop_last(), inviter, invited)
    }
}

/// At time `now`, `inviter` may not invite `invited` again yet.
pub open spec fn cooling_down(entries: Seq<(i32, i32, u64)>, inviter: i32, invited: i32, now: u64) -> bool {
    match cooldown_of(entries, inviter, invited) {
        Some(until) => now < until,
        None => false,
    }
}

/// The cooldowns of invitations: until when each inviter may not invite
/// each user again. An entry lives until its time, as a key of the cache
/// set with an expiry does.
pub struct InviteCooldowns {
    entries: Vec<(i32, i32, u64)>,
}

impl View for InviteCooldowns {
    type V = Seq<(i32, i32, u64)>;

    closed spec fn view(&self) -> Seq<(i32, i32, u64)> {
        self.entries@
    }
}

impl InviteCooldowns {
    /// No cooldown set.
    pub fn new() -> (c: InviteCooldowns)
        ensures
            forall|a: i32, b: i32| cooldown_of(c@, a, b) is None,
    {
        InviteCooldowns { entries: Vec::new() }
    }

    /// When the cooldown of `inviter` to `invited` ends, if one was set.
    pub fn get(&self, inviter: i32, invited: i32) -> (r: Option<u64>)
        ensures
            r == cooldown_of(self@, inviter, invited),
    {
        let mut i: usize = self.entries.len();
        assert(self@.take(i as int) =~= self@);
        while i > 0
            invariant
                i <= self@.len(),
                cooldown_of(self@, inviter, invited) == cooldown_of(self@.take(i as int), inviter, invited),
            decreases i,
        {
            let e = self.entries[i - 1];
            proof {
                assert(self@.take(i as int).last() == e);
                assert(self@.take(i as int).drop_last() =~= self@.take(i - 1));
            }
            if e.0 == inviter && e.1 == invited {
                return Some(e.2);
            }
            i = i - 1;
        }
        None
    }

    /// Sets the cooldown of `inviter` to `invited` to end at `until`.
    pub fn set(&mut self, inviter: i32, invited: i32, until: u64)
        ensures
            final(self)@ == old(self)@.push((inviter, invited, until)),
            cooldown_of(final(self)@, inviter, invited) == Some(until),
    {
        self.entries.push((inviter, invited, until));
        proof {
            assert(self@.drop_last() =~= old(self)@);
        }
    }
}

/// The service's key-value cache: status records and invitation cooldowns.
pub struct Cache {
    pub statuses: StatusCache,
    pub invites: InviteCooldowns,
}

impl Cache {
    /// An empty cache.
    pub fn new() -> (c: Cache)
        ensures
            forall|id: i32| record_of(c.statuses@, id) is None,
            forall|a: i32, b: i32| cooldown_of(c.invites@, a, b) is None,
    {
        Cache { statuses: StatusCache::new(), invites: InviteCooldowns::new() }
    }
}

} // verus!
