use vstd::prelude::*;
use chrono::NaiveDateTime;
use crate::text::{decimal, i32_to_string, parse_i32, parsed_i32, lemma_parse_decimal};
use super::lemma_filter_keeps_all;

verus! {

/// The members of a JSON object: each key, with the JSON text of its value.
pub type Members = Vec<(String, String)>;

/// The members of a JSON object, as the contracts see them.
pub open spec fn member_views(m: Seq<(String, String)>) -> Seq<(Seq<char>, Seq<char>)> {
    m.map_values(|p: (String, String)| (p.0@, p.1@))
}

/// A copy of the members of an object.
pub fn clone_members(m: &Members) -> (r: Members)
    ensures
        member_views(r@) == member_views(m@),
{
    let mut r: Members = Vec::new();
    let n = m.len();
    let mut i: usize = 0;
    while i < n
        invariant
            n == m@.len(),
            i <= n,
            member_views(r@) == member_views(m@).take(i as int),
        decreases n - i,
    {
        let (k, v) = &m[i];
        let ghost before = r@;
        let pair = (k.clone(), v.clone());
        assert(pair.0@ == m@[i as int].0@ && pair.1@ == m@[i as int].1@);
        r.push(pair);
        assert(member_views(r@) =~= member_views(before).push((m@[i as int].0@, m@[i as int].1@)));
        assert(member_views(r@) =~= member_views(m@).take(i + 1));
        i = i + 1;
    }
    assert(member_views(m@).take(n as int) =~= member_views(m@));
    r
}

/// An element of the JSON array of a user's friends: a JSON string, a JSON
/// object, or any other JSON value, kept as its JSON text.
pub enum FriendEntry {
    Text(String),
    Object(Members),
    Other(String),
}

/// An element of a friend list, as the contracts see it.
pub enum FriendEntryView {
    Text(Seq<char>),
    Object(Seq<(Seq<char>, Seq<char>)>),
    Other(Seq<char>),
}

impl View for FriendEntry {
    type V = FriendEntryView;

    open spec fn view(&self) -> FriendEntryView {
        match self {
            FriendEntry::Text(s) => FriendEntryView::Text(s@),
            FriendEntry::Object(m) => FriendEntryView::Object(member_views(m@)),
            FriendEntry::Other(s) => FriendEntryView::Other(s@),
        }
    }
}

impl Clone for FriendEntry {
    fn clone(&self) -> (r: Self)
        ensures
            r@ == self@,
    {
        match self {
            FriendEntry::Text(s) => FriendEntry::Text(s.clone()),
            FriendEntry::Object(m) => FriendEntry::Object(clone_members(m)),
            FriendEntry::Other(s) => FriendEntry::Other(s.clone()),
        }
    }
}

/// The `friends` JSON column of a user: an array, an object, or a scalar
/// (a string, number, boolean or null), kept as its JSON text.
pub enum FriendsJson {
    Array(Vec<FriendEntry>),
    Object(Members),
    Scalar(String),
}

/// The `friends` column of a user, as the contracts see it.
pub enum FriendsView {
    Array(Seq<FriendEntryView>),
    Object(Seq<(Seq<char>, Seq<char>)>),
    Scalar(Seq<char>),
}

/// The entries of a vector of entries, as the contracts see them.
pub open spec fn entry_views(v: Seq<FriendEntry>) -> Seq<FriendEntryView> {
    v.map_values(|e: FriendEntry| e@)
}

impl View for FriendsJson {
    type V = FriendsView;

    open spec fn view(&self) -> FriendsView {
        match self {
            FriendsJson::Array(v) => FriendsView::Array(entry_views(v@)),
            FriendsJson::Object(m) => FriendsView::Object(member_views(m@)),
            FriendsJson::Scalar(s) => FriendsView::Scalar(s@),
        }
    }
}

/// A copy of a vector of entries.
fn clone_entries(v: &Vec<FriendEntry>) -> (r: Vec<FriendEntry>)
    ensures
        entry_views(r@) == entry_views(v@),
{
    let mut r: Vec<FriendEntry> = Vec::new();
    let n = v.len();
    let mut i: usize = 0;
    while i < n
        invariant
            n == v@.len(),
            i <= n,
            entry_views(r@) == entry_views(v@).take(i as int),
        decreases n - i,
    {
        let ghost before = r@;
        let e = v[i].clone();
        r.push(e);
        assert(entry_views(r@) =~= entry_views(before).push(v@[i as int]@));
        assert(entry_views(r@) =~= entry_views(v@).take(i + 1));
        i = i + 1;
    }
    assert(entry_views(v@).take(n as int) =~= entry_views(v@));
    r
}

impl Clone for FriendsJson {
    fn clone(&self) -> (r: Self)
        ensures
            r@ == self@,
    {
        match self {
            FriendsJson::Array(v) => FriendsJson::Array(clone_entries(v)),
            FriendsJson::Object(m) => FriendsJson::Object(clone_members(m)),
            FriendsJson::Scalar(s) => FriendsJson::Scalar(s.clone()),
        }
    }
}

/// The id a friend list names with `e`, when `e` is a string that reads as
/// an `i32`.
pub open spec fn entry_id(e: FriendEntryView) -> Option<i32> {
    match e {
        FriendEntryView::Text(s) => parsed_i32(s),
        _ => None,
    }
}

/// The id that `e` stands for when every entry must give one: a string that
/// does not read as an `i32`, and any value that is no string, stand for `0`.
pub open spec fn entry_id_or_zero(e: FriendEntryView) -> i32 {
    match entry_id(e) {
        Some(id) => id,
        None => 0,
    }
}

/// The entries of a friend list: those of the array, none for another
/// value.
pub open spec fn entries(friends: FriendsView) -> Seq<FriendEntryView> {
    match friends {
        FriendsView::Array(s) => s,
        _ => Seq::empty(),
    }
}

/// The ids of the friends listed, in order: each string entry that reads as
/// an `i32`; other entries are skipped.
pub open spec fn listed_ids(friends: FriendsView) -> Seq<i32> {
    entries(friends).filter_map(|e: FriendEntryView| entry_id(e))
}

/// One id for each entry, in order, `0` for an entry that names none.
pub open spec fn ids_or_zero(friends: FriendsView) -> Seq<i32> {
    entries(friends).map_values(|e: FriendEntryView| entry_id_or_zero(e))
}

/// The entry that names the friend `id`: its decimal text, as a string.
pub open spec fn naming(id: i32) -> FriendEntryView {
    FriendEntryView::Text(decimal(id as int))
}

/// The list with the friend `id` added at its end, as a string entry. A
/// value that is no array becomes an array of that value and the new entry,
/// as appending an array to it does.
pub open spec fn with_listed(friends: FriendsView, id: i32) -> FriendsView {
    match friends {
        FriendsView::Array(s) => FriendsView::Array(s.push(naming(id))),
        FriendsView::Object(m) => FriendsView::Array(seq![FriendEntryView::Object(m), naming(id)]),
        FriendsView::Scalar(v) => FriendsView::Array(seq![FriendEntryView::Other(v), naming(id)]),
    }
}

/// Every entry but those that name the friend `id`, as a filter.
pub open spec fn not_naming(id: i32) -> spec_fn(FriendEntryView) -> bool {
    |e: FriendEntryView| e != naming(id)
}

/// Every member but the one of key the decimal text of `id`, as a filter.
pub open spec fn not_keyed(id: i32) -> spec_fn((Seq<char>, Seq<char>)) -> bool {
    |m: (Seq<char>, Seq<char>)| m.0 != decimal(id as int)
}

/// The list without the string entries that name the friend `id`, as taking
/// that text away from a JSON value does: an object loses the member of that
/// key. A scalar cannot lose anything; it stays as it is here, and the
/// removal that meets one is refused (see `blocks_unlisting`).
pub open spec fn without_listed(friends: FriendsView, id: i32) -> FriendsView {
    match friends {
        FriendsView::Array(s) => FriendsView::Array(s.filter(not_naming(id))),
        FriendsView::Object(m) => FriendsView::Object(m.filter(not_keyed(id))),
        FriendsView::Scalar(v) => FriendsView::Scalar(v),
    }
}

/// Adding the friend `id` to a list adds `id` at the end of the ids that
/// the list names.
pub proof fn lemma_listed_ids_with_listed(friends: FriendsView, id: i32)
    ensures
        listed_ids(with_listed(friends, id)) == listed_ids(friends).push(id),
{
    lemma_parse_decimal(id);
    assert(entry_id(naming(id)) == Some(id));
    let s = entries(with_listed(friends, id));
    match friends {
        FriendsView::Array(t) => {
            assert(s.drop_last() =~= t);
        },
        FriendsView::Object(m) => {
            let first = seq![FriendEntryView::Object(m)];
            assert(s.drop_last() =~= first);
            Seq::lemma_filter_map_singleton(FriendEntryView::Object(m), |e: FriendEntryView| entry_id(e));
        },
        FriendsView::Scalar(v) => {
            let first = seq![FriendEntryView::Other(v)];
            assert(s.drop_last() =~= first);
            Seq::lemma_filter_map_singleton(FriendEntryView::Other(v), |e: FriendEntryView| entry_id(e));
        },
    }
    assert(listed_ids(with_listed(friends, id)) =~= listed_ids(friends).push(id));
}

/// On an array without an entry that names the friend `id`, taking such
/// entries out changes nothing, and undoes adding `id`.
pub proof fn lemma_without_with_listed(friends: FriendsView, id: i32)
    requires
        friends matches FriendsView::Array(s) && !s.contains(naming(id)),
    ensures
        without_listed(friends, id) == friends,
        without_listed(with_listed(friends, id), id) == friends,
{
    let s = friends->Array_0;
    assert forall|i: int| 0 <= i < s.len() implies (#[trigger] not_naming(id))(s[i]) by {
        if s[i] == naming(id) {
            assert(s.contains(s[i]));
        }
    }
    lemma_filter_keeps_all(s, not_naming(id));
    s.lemma_filter_push(naming(id), not_naming(id));
}

impl FriendEntry {
    /// The id this entry names, when it is a string that reads as an `i32`.
    pub fn id(&self) -> (r: Option<i32>)
        ensures
            r == entry_id(self@),
    {
        match self {
            FriendEntry::Text(s) => parse_i32(s.as_str()),
            _ => None,
        }
    }
}

impl FriendsJson {
    /// The ids of the friends listed, in order: each string entry that
    /// reads as an `i32`; other entries are skipped.
    pub fn listed_ids(&self) -> (r: Vec<i32>)
        ensures
            r@ == listed_ids(self@),
    {
        let mut r: Vec<i32> = Vec::new();
        match self {
            FriendsJson::Object(_) | FriendsJson::Scalar(_) => {
                assert(r@ =~= listed_ids(self@));
            },
            FriendsJson::Array(v) => {
                let ghost views = entry_views(v@);
                let n = v.len();
                let mut i: usize = 0;
                while i < n
                    invariant
                        n == v@.len(),
                        views == entry_views(v@),
                        i <= n,
                        r@ == views.take(i as int).filter_map(|e: FriendEntryView| entry_id(e)),
                    decreases n - i,
                {
                    proof {
                        views.lemma_filter_map_take_succ(|e: FriendEntryView| entry_id(e), i as int);
                    }
                    if let Some(id) = v[i].id() {
                        r.push(id);
                    }
                    i = i + 1;
                }
                assert(views.take(n as int) =~= views);
            },
        }
        r
    }

    /// One id for each entry, in order: `0` for an entry that names none.
    pub fn ids_or_zero(&self) -> (r: Vec<i32>)
        ensures
            r@ == ids_or_zero(self@),
    {
        let mut r: Vec<i32> = Vec::new();
        match self {
            FriendsJson::Object(_) | FriendsJson::Scalar(_) => {
                assert(r@ =~= ids_or_zero(self@));
            },
            FriendsJson::Array(v) => {
                let ghost views = entry_views(v@);
                let n = v.len();
                let mut i: usize = 0;
                while i < n
                    invariant
                        n == v@.len(),
                        views == entry_views(v@),
                        i <= n,
                        r@ == views.take(i as int).map_values(|e: FriendEntryView| entry_id_or_zero(e)),
                    decreases n - i,
                {
                    let id = match v[i].id() {
                        Some(id) => id,
                        None => 0,
                    };
                    r.push(id);
                    assert(r@ =~= views.take(i + 1).map_values(|e: FriendEntryView| entry_id_or_zero(e)));
                    i = i + 1;
                }
                assert(views.take(n as int) =~= views);
            },
        }
        r
    }

    /// Adds the friend `id` at the end of the list, as a string entry.
    pub fn add_listed(&mut self, id: i32)
        ensures
            final(self)@ == with_listed(old(self)@, id),
    {
        let entry = FriendEntry::Text(i32_to_string(id));
        match self {
            FriendsJson::Array(v) => {
                let ghost before = v@;
                v.push(entry);
                assert(entry_views(v@) =~= entry_views(before).push(naming(id)));
            },
            FriendsJson::Object(m) => {
                let mut v: Vec<FriendEntry> = Vec::new();
                v.push(FriendEntry::Object(clone_members(m)));
                v.push(entry);
                assert(entry_views(v@) =~= seq![FriendEntryView::Object(old(self)@->Object_0), naming(id)]);
                *self = FriendsJson::Array(v);
            },
            FriendsJson::Scalar(raw) => {
                let mut v: Vec<FriendEntry> = Vec::new();
                v.push(FriendEntry::Other(raw.clone()));
                v.push(entry);
                assert(entry_views(v@) =~= seq![FriendEntryView::Other(old(self)@->Scalar_0), naming(id)]);
                *self = FriendsJson::Array(v);
            },
        }
    }

    /// Takes out of the list the string entries that name the friend `id`;
    /// an object loses the member of that key; a scalar stays as it is.
    pub fn remove_listed(&mut self, id: i32)
        ensures
            final(self)@ == without_listed(old(self)@, id),
    {
        let key = i32_to_string(id);
        match self {
            FriendsJson::Array(v) => {
                let ghost views = entry_views(v@);
                let mut kept: Vec<FriendEntry> = Vec::new();
                let n = v.len();
                let mut i: usize = 0;
                while i < n
                    invariant
                        n == v@.len(),
                        views == entry_views(v@),
                        key@ == decimal(id as int),
                        i <= n,
                        entry_views(kept@) == views.take(i as int).filter(not_naming(id)),
                    decreases n - i,
                {
                    let e = v[i].clone();
                    proof {
                        reveal(Seq::filter);
                        assert(views.take(i + 1).drop_last() =~= views.take(i as int));
                        assert(views.take(i + 1).last() == e@);
                    }
                    let names = match &e {
                        FriendEntry::Text(s) => *s == key,
                        _ => false,
                    };
                    if !names {
                        let ghost before = kept@;
                        kept.push(e);
                        assert(entry_views(kept@) =~= entry_views(before).push(e@));
                    }
                    i = i + 1;
                }
                assert(views.take(n as int) =~= views);
                *v = kept;
            },
            FriendsJson::Object(m) => {
                let ghost views = member_views(m@);
                let mut kept: Members = Vec::new();
                let n = m.len();
                let mut i: usize = 0;
                while i < n
                    invariant
                        n == m@.len(),
                        views == member_views(m@),
                        key@ == decimal(id as int),
                        i <= n,
                        member_views(kept@) == views.take(i as int).filter(not_keyed(id)),
                    decreases n - i,
                {
                    let (k, value) = &m[i];
                    proof {
                        reveal(Seq::filter);
                        assert(views.take(i + 1).drop_last() =~= views.take(i as int));
                        assert(views.take(i + 1).last() == (k@, value@));
                    }
                    if *k != key {
                        let ghost before = kept@;
                        kept.push((k.clone(), value.clone()));
                        assert(member_views(kept@) =~= member_views(before).push((k@, value@)));
                    }
                    i = i + 1;
                }
                assert(views.take(n as int) =~= views);
                *m = kept;
            },
            FriendsJson::Scalar(_) => {},
        }
    }
}

/// A row of the users table.
pub struct User {
    pub id: i32,
    pub username: String,
    pub email: String,
    pub friends: FriendsJson,
    pub rank: String,
    pub registered_at: NaiveDateTime,
    /// When the user was last seen online.
    pub last_seen_at: NaiveDateTime,
}

/// A row of the users table, as the contracts see it.
pub struct UserView {
    pub id: i32,
    pub username: Seq<char>,
    pub email: Seq<char>,
    pub friends: FriendsView,
    pub rank: Seq<char>,
    pub registered_at: NaiveDateTime,
    pub last_seen_at: NaiveDateTime,
}

impl View for User {
    type V = UserView;

    open spec fn view(&self) -> UserView {
        UserView {
            id: self.id,
            username: self.username@,
            email: self.email@,
            friends: self.friends@,
            rank: self.rank@,
            registered_at: self.registered_at,
            last_seen_at: self.last_seen_at,
        }
    }
}

impl Clone for User {
    fn clone(&self) -> (r: Self)
        ensures
            r@ == self@,
    {
        User {
            id: self.id,
            username: self.username.clone(),
            email: self.email.clone(),
            friends: self.friends.clone(),
            rank: self.rank.clone(),
            registered_at: self.registered_at,
            last_seen_at: self.last_seen_at,
        }
    }
}

/// What a client sends to create a user.
pub struct UserCreate {
    pub username: String,
    pub email: String,
    pub rank: Option<String>,
}

/// What a client sends to change a user: each field that is given replaces
/// the user's.
pub struct UserUpdate {
    pub username: Option<String>,
    pub email: Option<String>,
    pub rank: Option<String>,
}

/// Who asks: the id of the user on whose behalf a request is made, if any.
#[derive(Debug, Clone, Copy, PartialEq, Eq, Structural)]
pub struct UserIdQuery {
    pub user_id: Option<i32>,
}

/// `u` with each field that `update` gives replaced.
pub open spec fn updated(u: UserView, update: UserUpdate) -> UserView {
    UserView {
        username: match update.username { Some(s) => s@, None => u.username },
        email: match update.email { Some(s) => s@, None => u.email },
        rank: match update.rank { Some(s) => s@, None => u.rank },
        ..u
    }
}

impl User {
    /// Replaces each field that `update` gives.
    pub fn apply(&mut self, update: UserUpdate)
        ensures
            final(self)@ == updated(old(self)@, update),
    {
        let UserUpdate { username, email, rank } = update;
        if let Some(u) = username {
            self.username = u;
        }
        if let Some(e) = email {
            self.email = e;
        }
        if let Some(r) = rank {
            self.rank = r;
        }
    }
}

/// A change replaces each field that it gives with the value given, and
/// keeps each field that it omits, and every other field of the user.
pub proof fn law_update_fields(u: UserView, update: UserUpdate)
    ensures
        ({
            let v = updated(u, update);
            &&& update.username matches Some(s) ==> v.username == s@
            &&& update.username is None ==> v.username == u.username
            &&& update.email matches Some(s) ==> v.email == s@
            &&& update.email is None ==> v.email == u.email
            &&& update.rank matches Some(s) ==> v.rank == s@
            &&& update.rank is None ==> v.rank == u.rank
            &&& v.id == u.id
            &&& v.friends == u.friends
            &&& v.registered_at == u.registered_at
            &&& v.last_seen_at == u.last_seen_at
        }),
{
}

} // verus!
