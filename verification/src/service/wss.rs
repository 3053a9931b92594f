use vstd::prelude::*;
use crate::models::userprofile::{ProfileView, UserProfile};
use crate::text::{decimal, push_i32};

verus! {

/// The events that the service pushes to one user over the websocket
/// service.
#[derive(Debug, Clone, Copy, PartialEq, Eq, Structural)]
pub enum WssEvent {
    FriendRequest,
    FriendAdd,
    FriendCancel,
    FriendRemove,
    Invite,
}

/// The name of an event, as the websocket service receives it.
pub open spec fn wss_event_name(e: WssEvent) -> Seq<char> {
    match e {
        WssEvent::FriendRequest => "FRIEND_REQUEST"@,
        WssEvent::FriendAdd => "FRIEND_ADD"@,
        WssEvent::FriendCancel => "FRIEND_CANCEL"@,
        WssEvent::FriendRemove => "FRIEND_REMOVE"@,
        WssEvent::Invite => "INVITE"@,
    }
}

impl WssEvent {
    /// The name of the event.
    pub fn name(&self) -> (s: &'static str)
        ensures
            s@ == wss_event_name(*self),
    {
        match self {
            WssEvent::FriendRequest => "FRIEND_REQUEST",
            WssEvent::FriendAdd => "FRIEND_ADD",
            WssEvent::FriendCancel => "FRIEND_CANCEL",
            WssEvent::FriendRemove => "FRIEND_REMOVE",
            WssEvent::Invite => "INVITE",
        }
    }
}

/// What an event carries.
pub enum Payload {
    /// A user's profile.
    Profile(UserProfile),
    /// `{"id": id}`: the user the event is about.
    Id(i32),
    /// `{"id": id, "server": server}`: who invites, to which server.
    Invite { id: i32, server: u16 },
}

/// What an event carries, as the contracts see it.
pub enum PayloadView {
    Profile(ProfileView),
    Id(i32),
    Invite { id: i32, server: u16 },
}

impl View for Payload {
    type V = PayloadView;

    open spec fn view(&self) -> PayloadView {
        match self {
            Payload::Profile(p) => PayloadView::Profile(p@),
            Payload::Id(id) => PayloadView::Id(*id),
            Payload::Invite { id, server } => PayloadView::Invite { id: *id, server: *server },
        }
    }
}

/// An event for one user.
pub struct Notice {
    pub user_id: i32,
    pub event: WssEvent,
    pub payload: Payload,
}

/// An event for one user, as the contracts see it.
pub struct NoticeView {
    pub user_id: i32,
    pub event: WssEvent,
    pub payload: PayloadView,
}

impl View for Notice {
    type V = NoticeView;

    open spec fn view(&self) -> NoticeView {
        NoticeView { user_id: self.user_id, event: self.event, payload: self.payload@ }
    }
}

/// The events of an outcome, as the contracts see them.
pub open spec fn notice_views(notices: Seq<Notice>) -> Seq<NoticeView> {
    notices.map_values(|n: Notice| n@)
}

/// The events that tell `a` and then `b` about each other: `a` gets the
/// first profile, `b` the second, for as many profiles as there are.
pub open spec fn exchange_notices(profiles: Seq<ProfileView>, a: i32, b: i32, event: WssEvent) -> Seq<NoticeView> {
    Seq::new(profiles.len(), |k: int| NoticeView {
        user_id: if k == 0 { a } else { b },
        event,
        payload: PayloadView::Profile(profiles[k]),
    })
}

/// The events that tell `a` and then `b` that the other one is concerned.
pub open spec fn id_notices(a: i32, b: i32, event: WssEvent) -> Seq<NoticeView> {
    seq![
        NoticeView { user_id: a, event, payload: PayloadView::Id(b) },
        NoticeView { user_id: b, event, payload: PayloadView::Id(a) },
    ]
}

/// The answer of an operation, and the events it sent on its way, in order:
/// some are sent before an error stops the operation.
pub struct Outcome<T> {
    pub result: Result<T, crate::http::HttpError>,
    pub notices: Vec<Notice>,
}

/// The JSON text of the string `s`, quoted and escaped, as
/// `serde_json::to_string` writes a string.
pub uninterp spec fn json_string(s: Seq<char>) -> Seq<char>;

/// `serde_json::to_string` on a string: its JSON text, when serialising
/// succeeds; the contract states no more of that text than its name.
#[verifier::external_body]
fn quote_json(s: &str) -> (r: Option<String>)
    ensures
        r matches Some(t) ==> t@ == json_string(s@),
{
    match serde_json::to_string(s) {
        Ok(t) => Some(t),
        Err(_) => None,
    }
}

/// The decimal texts of `ids`, separated by commas.
pub open spec fn ids_text(ids: Seq<i32>) -> Seq<char>
    decreases ids.len(),
{
    if ids.len() == 0 {
        Seq::empty()
    } else if ids.len() == 1 {
        decimal(ids[0] as int)
    } else {
        ids_text(ids.drop_last()) + ","@ + decimal(ids.last() as int)
    }
}

/// The body of a broadcast: the JSON object of the users' ids and of the
/// event's payload, given as JSON text `quoted`.
pub open spec fn broadcast_text(ids: Seq<i32>, quoted: Seq<char>) -> Seq<char> {
    "{\"ids\":["@ + ids_text(ids) + "],\"body\":"@ + quoted + "}"@
}

/// Sending events to users through the websocket service.
pub struct WssService;

impl WssService {
    /// The address that takes an event `event_name` for user `user_id`, on
    /// the websocket service at `host`.
    pub fn send_url(host: &str, user_id: i32, event_name: &str) -> (u: String)
        ensures
            u@ == "http://"@ + host@ + "/send/"@ + decimal(user_id as int) + "?type="@ + event_name@,
    {
        let mut u = String::from_str("http://");
        u.append(host);
        u.append("/send/");
        push_i32(&mut u, user_id);
        u.append("?type=");
        u.append(event_name);
        u
    }

    /// The address that takes an event `event_name` for many users, on the
    /// websocket service at `host`.
    pub fn broadcast_url(host: &str, event_name: &str) -> (u: String)
        ensures
            u@ == "http://"@ + host@ + "/broadcast?type="@ + event_name@,
    {
        let mut u = String::from_str("http://");
        u.append(host);
        u.append("/broadcast?type=");
        u.append(event_name);
        u
    }

    /// The body of a broadcast to `user_ids` whose payload is the JSON text
    /// `quoted` of the payload's text.
    pub fn broadcast_body_of(user_ids: &Vec<i32>, quoted: &str) -> (b: String)
        ensures
            b@ == broadcast_text(user_ids@, quoted@),
    {
        let mut b = String::from_str("{\"ids\":[");
        let n = user_ids.len();
        let mut i: usize = 0;
        while i < n
            invariant
                n == user_ids@.len(),
                i <= n,
                b@ == "{\"ids\":["@ + ids_text(user_ids@.take(i as int)),
            decreases n - i,
        {
            let ghost before = b@;
            if i > 0 {
                b.append(",");
            }
            push_i32(&mut b, user_ids[i]);
            proof {
                let t = user_ids@.take(i + 1);
                assert(t.drop_last() =~= user_ids@.take(i as int));
                assert(t.last() == user_ids@[i as int]);
                if i == 0 {
                    assert(t.len() == 1 && t[0] == user_ids@[0]);
                    assert(ids_text(user_ids@.take(0)) =~= Seq::<char>::empty());
                }
                assert(b@ =~= "{\"ids\":["@ + ids_text(t));
            }
            i = i + 1;
        }
        assert(user_ids@.take(n as int) =~= user_ids@);
        b.append("],\"body\":");
        b.append(quoted);
        b.append("}");
        b
    }

    /// The body of a broadcast to `user_ids` of the payload text `payload`,
    /// quoted as a JSON string; `None` when serialising the text fails.
    pub fn broadcast_body(user_ids: &Vec<i32>, payload: &str) -> (b: Option<String>)
        ensures
            b matches Some(t) ==> t@ == broadcast_text(user_ids@, json_string(payload@)),
    {
        match quote_json(payload) {
            Some(q) => Some(Self::broadcast_body_of(user_ids, q.as_str())),
            None => None,
        }
    }
}

} // verus!
