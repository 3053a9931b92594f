use chrono::NaiveDateTime;
use user_service::cache::Cache;
use user_service::controller::invite::{InviteController, InviteQuery};
use user_service::controller::privacy::{CheckPermissionQuery, PrivacyController};
use user_service::controller::status::StatusController;
use user_service::http::{BAD_GATEWAY, BAD_REQUEST, CONFLICT, FORBIDDEN, INTERNAL_SERVER_ERROR, TOO_MANY_REQUESTS};
use user_service::models::user::{FriendEntry, FriendsJson, User, UserIdQuery};
use user_service::models::userprofile::{UserStatus, UserStatuses};
use user_service::repository::Database;
use user_service::repository::friends::FriendsRepository;
use user_service::repository::user::UserRepository;
use user_service::repository::privacy::PrivacyTable;
use user_service::models::privacy::{UsersPrivacy, Visibility};
use user_service::service::friend::{FriendEvents, FriendService};
use user_service::service::invite::InviteService;
use user_service::service::privacy::PrivacyService;
use user_service::service::status::StatusService;
use user_service::service::userprofile::UserProfileService;
use user_service::service::wss::{Payload, WssEvent, WssService};
use user_service::text::{i32_to_string, parse_i32};

fn at(seconds: i64) -> NaiveDateTime {
    chrono::DateTime::from_timestamp(seconds, 0).unwrap().naive_utc()
}

fn user(id: i32, friends: FriendsJson) -> User {
    User {
        id,
        username: format!("user{id}"),
        email: format!("user{id}@example.com"),
        friends,
        rank: "player".to_string(),
        registered_at: at(1_000),
        last_seen_at: at(2_000),
    }
}

fn ids(list: &[&str]) -> FriendsJson {
    FriendsJson::Array(list.iter().map(|s| FriendEntry::Text(s.to_string())).collect())
}

fn db_with(users: Vec<User>) -> Database {
    let mut db = Database::new();
    for u in users {
        UserRepository::add_user(&mut db, u).unwrap();
    }
    db
}

fn friends(db: &mut Database, a: i32, b: i32) {
    let mut redis = Cache::new();
    FriendsRepository::add(db, &mut redis, a, b, at(1)).result.unwrap();
    FriendsRepository::accept(db, &mut redis, a, b).result.unwrap();
}

fn set_settings(db: &mut Database, settings: UsersPrivacy) {
    let mut rows: Vec<UsersPrivacy> = db.privacy.rows().iter().filter(|p| p.id != settings.id).copied().collect();
    rows.push(settings);
    db.privacy = PrivacyTable::from_rows(rows).unwrap();
}

fn all(id: i32, v: Visibility) -> UsersPrivacy {
    UsersPrivacy {
        id,
        profile_visibility: v,
        friends_visibility: v,
        can_invite: v,
        server_visibility: v,
        online_visibility: v,
        hours_visibility: v,
    }
}

#[test]
fn decimal_text_both_ways() {
    for n in [0, 7, -7, 10, 123456, i32::MAX, i32::MIN] {
        assert_eq!(i32_to_string(n), n.to_string());
        assert_eq!(parse_i32(&n.to_string()), Some(n));
    }
    for s in ["", "-", "+", "1a", " 1", "2147483648", "-2147483649", "٣"] {
        assert_eq!(parse_i32(s), s.parse::<i32>().ok(), "{s:?}");
    }
    assert_eq!(parse_i32("+42"), Some(42));
    assert_eq!(parse_i32("-0"), Some(0));
    assert_eq!(parse_i32("007"), Some(7));
}

#[test]
fn keys_and_addresses() {
    assert_eq!(InviteService::get_key(12, -3), "invitecd:12:-3");
    assert_eq!(StatusService::record_key(45), "status:45");
    assert_eq!(WssService::send_url("wss:3000", 9, "INVITE"), "http://wss:3000/send/9?type=INVITE");
    assert_eq!(WssService::broadcast_url("wss:3000", "FRIEND_ONLINE"), "http://wss:3000/broadcast?type=FRIEND_ONLINE");
}

#[test]
fn invite_keys_of_different_pairs_differ() {
    assert_ne!(InviteService::get_key(1, 23), InviteService::get_key(12, 3));
    assert_ne!(InviteService::get_key(1, 2), InviteService::get_key(2, 1));
    assert_ne!(InviteService::get_key(-1, 2), InviteService::get_key(1, 2));
    assert_eq!(InviteService::get_key(1, 2), InviteService::get_key(1, 2));
}

#[test]
fn a_friend_may_not_invite_a_user_who_hides() {
    let mut db = db_with(vec![user(1, ids(&[])), user(2, ids(&[])), user(3, ids(&[]))]);
    friends(&mut db, 1, 2);
    let mut settings = all(1, Visibility::Open);
    settings.can_invite = Visibility::Hidden;
    set_settings(&mut db, settings);
    let mut redis = Cache::new();
    let e = InviteController::invite(&db, &mut redis, 100, 1, InviteQuery { inviter_id: 2, server: 7 }).err().unwrap();
    assert_eq!((e.status, e.message.as_str()), (FORBIDDEN, "Вы не можете приглашать пользователя"));
    assert!(InviteController::invite(&db, &mut redis, 100, 1, InviteQuery { inviter_id: 1, server: 7 }).is_ok());
    let e = PrivacyService::check_can_invite(&db, UserIdQuery { user_id: Some(2) }, 1).err().unwrap();
    assert_eq!(e.status, FORBIDDEN);
    assert!(PrivacyService::check_profile_visibility(&db, UserIdQuery { user_id: Some(2) }, 1).is_ok());
    settings.can_invite = Visibility::FriendOnly;
    set_settings(&mut db, settings);
    assert!(InviteController::invite(&db, &mut redis, 200, 1, InviteQuery { inviter_id: 2, server: 7 }).is_ok());
    let e = InviteController::invite(&db, &mut redis, 200, 1, InviteQuery { inviter_id: 3, server: 7 }).err().unwrap();
    assert_eq!(e.status, FORBIDDEN);
    assert!(PrivacyService::check_can_invite(&db, UserIdQuery { user_id: None }, 1).is_err());
}

#[test]
fn broadcast_bodies() {
    assert_eq!(WssService::broadcast_body_of(&vec![1, -2], "\"x\""), "{\"ids\":[1,-2],\"body\":\"x\"}");
    assert_eq!(WssService::broadcast_body_of(&vec![], "1"), "{\"ids\":[],\"body\":1}");
    let payload = "{\"a\":\"b\"}";
    let body = WssService::broadcast_body(&vec![7], payload).unwrap();
    let parsed: serde_json::Value = serde_json::from_str(&body).unwrap();
    assert_eq!(parsed["ids"], serde_json::Value::Array(vec![serde_json::Value::from(7)]));
    assert_eq!(parsed["body"], serde_json::Value::String(payload.to_string()));
    assert_eq!(body, format!("{{\"ids\":[7],\"body\":{}}}", serde_json::to_string(payload).unwrap()));
}

#[test]
fn lowercase_actions() {
    let db = db_with(vec![user(1, ids(&[])), user(2, ids(&[]))]);
    assert!(PrivacyController::check_lowercase_action(&db, 1, 2, "invite").is_ok());
    let e = PrivacyController::check_lowercase_action(&db, 1, 2, "INVITE").err().unwrap();
    assert_eq!((e.status, e.message.as_str()), (BAD_REQUEST, "Метод не найден"));
    let e = PrivacyController::check_lowercase_action(&db, 9, 2, "invite").err().unwrap();
    assert_eq!(e.status, INTERNAL_SERVER_ERROR);
}

#[test]
fn event_names() {
    assert_eq!(FriendEvents::FriendOnline.name(), "FRIEND_ONLINE");
    assert_eq!(FriendEvents::FriendOffline.name(), "FRIEND_OFFLINE");
    assert_eq!(FriendEvents::FriendJoinServer.name(), "FRIEND_JOIN_SERVER");
    assert_eq!(FriendEvents::FriendDisconnect.name(), "FRIEND_DISCONNECT");
    assert_eq!(FriendEvents::Any.name(), "ANY");
    assert_eq!(WssEvent::FriendRequest.name(), "FRIEND_REQUEST");
    assert_eq!(WssEvent::Invite.name(), "INVITE");
}

#[test]
fn privacy_owner_friend_stranger_anonymous() {
    let mut db = db_with(vec![user(1, ids(&[])), user(2, ids(&[])), user(3, ids(&[]))]);
    friends(&mut db, 1, 2);
    assert!(PrivacyService::check_profile_visibility(&db, UserIdQuery { user_id: None }, 1).is_ok());
    set_settings(&mut db, all(1, Visibility::Hidden));
    assert!(PrivacyService::check_profile_visibility(&db, UserIdQuery { user_id: Some(1) }, 1).is_ok());
    assert!(PrivacyService::check_profile_visibility(&db, UserIdQuery { user_id: Some(2) }, 1).is_ok());
    let e = PrivacyService::check_friends_visibility(&db, UserIdQuery { user_id: None }, 1).err().unwrap();
    assert_eq!((e.status, e.message.as_str()), (FORBIDDEN, "Пользователь скрыл друзей"));
    let e = PrivacyService::check_online_visibility(&db, UserIdQuery { user_id: None }, 1).err().unwrap();
    assert_eq!(e.message, "Пользователь скрыл статистику");
    set_settings(&mut db, all(1, Visibility::FriendOnly));
    assert!(PrivacyService::check_profile_visibility(&db, UserIdQuery { user_id: None }, 1).is_err());
    let e = PrivacyService::check_profile_visibility(&db, UserIdQuery { user_id: Some(3) }, 1).err().unwrap();
    assert_eq!((e.status, e.message.as_str()), (FORBIDDEN, "Пользователь скрыл профиль"));
    let e = PrivacyService::check_can_invite(&db, UserIdQuery { user_id: Some(3) }, 1).err().unwrap();
    assert_eq!(e.message, "Вы не можете приглашать пользователя");
    let e = PrivacyService::check_hours_visibility(&db, UserIdQuery { user_id: Some(3) }, 1).err().unwrap();
    assert_eq!(e.message, "Пользователь скрыл статистику");
    let e = PrivacyService::check_server_visibility(&db, UserIdQuery { user_id: None }, 9).err().unwrap();
    assert_eq!((e.status, e.message.as_str()), (INTERNAL_SERVER_ERROR, "Record not found"));
}

#[test]
fn permission_check_of_invitations() {
    let mut db = db_with(vec![user(1, ids(&[])), user(2, ids(&[]))]);
    let query = |kind: &str| CheckPermissionQuery { actor: 2, kind: kind.to_string() };
    assert!(PrivacyController::check_has_permissions(&db, 1, &query("invite")).is_ok());
    assert!(PrivacyController::check_has_permissions(&db, 1, &query("INVITE")).is_ok());
    assert!(PrivacyController::check_has_permissions(&db, 1, &query("Invite")).is_ok());
    let e = PrivacyController::check_has_permissions(&db, 1, &query("kick")).err().unwrap();
    assert_eq!((e.status, e.message.as_str()), (BAD_REQUEST, "Метод не найден"));
    let e = PrivacyController::check_has_permissions(&db, 9, &query("invite")).err().unwrap();
    assert_eq!(e.status, INTERNAL_SERVER_ERROR);
    set_settings(&mut db, all(1, Visibility::FriendOnly));
    let e = PrivacyController::check_has_permissions(&db, 1, &query("invite")).err().unwrap();
    assert_eq!((e.status, e.message.as_str()), (FORBIDDEN, "Вы не можете этого сделать!"));
    friends(&mut db, 1, 2);
    assert!(PrivacyController::check_has_permissions(&db, 1, &query("invite")).is_ok());
    set_settings(&mut db, all(1, Visibility::Hidden));
    assert!(PrivacyController::check_has_permissions(&db, 1, &query("invite")).is_err());
    assert!(PrivacyController::check_has_permissions(&db, 1, &CheckPermissionQuery { actor: 1, kind: "invite".to_string() }).is_ok());
}

#[test]
fn status_from_a_record_then_offline() {
    let mut db = db_with(vec![user(1, ids(&[]))]);
    let mut redis = Cache::new();
    let record = UserStatus { status: UserStatuses::Playing, server: Some(4), last_seen_at: Some(at(9_000)) };
    redis.statuses.put(1, record);
    let first = StatusService::get_full_status(&mut db, &mut redis, 1, None).unwrap();
    assert_eq!((first.status, first.server, first.last_seen_at), (UserStatuses::Playing, Some(4), Some(at(9_000))));
    assert!(redis.statuses.get(1).is_none());
    assert_eq!(UserRepository::get_last_seen(&db, 1).unwrap(), at(9_000));
    let second = StatusService::get_full_status(&mut db, &mut redis, 1, None).unwrap();
    assert_eq!((second.status, second.server, second.last_seen_at), (UserStatuses::Offline, None, Some(at(9_000))));
}

#[test]
fn record_without_a_time_stays() {
    let mut db = db_with(vec![user(1, ids(&[]))]);
    let mut redis = Cache::new();
    redis.statuses.put(1, UserStatus { status: UserStatuses::Online, server: None, last_seen_at: None });
    assert_eq!(StatusService::get_status(&mut db, &mut redis, 1), UserStatuses::Online);
    assert_eq!(StatusService::get_status(&mut db, &mut redis, 1), UserStatuses::Online);
    assert_eq!(StatusService::get_status(&mut db, &mut redis, 2), UserStatuses::Offline);
}

#[test]
fn offline_status_without_record() {
    let mut db = db_with(vec![user(1, ids(&[]))]);
    let mut redis = Cache::new();
    let given = StatusService::get_full_status(&mut db, &mut redis, 1, Some(at(5))).unwrap();
    assert_eq!((given.status, given.last_seen_at), (UserStatuses::Offline, Some(at(5))));
    let stored = StatusService::get_full_status(&mut db, &mut redis, 1, None).unwrap();
    assert_eq!(stored.last_seen_at, Some(at(2_000)));
    let e = StatusService::get_full_status(&mut db, &mut redis, 7, Some(at(5))).err().unwrap();
    assert_eq!((e.status, e.message.as_str()), (BAD_REQUEST, "Не получилось найти пользователя"));
}

#[test]
fn status_controller_checks_the_profile() {
    let mut db = db_with(vec![user(1, ids(&[])), user(2, ids(&[]))]);
    let mut redis = Cache::new();
    assert!(StatusController::get(&mut db, &mut redis, 1, UserIdQuery { user_id: None }).is_ok());
    let e = StatusController::get(&mut db, &mut redis, 1, UserIdQuery { user_id: Some(2) }).err().unwrap();
    assert_eq!(e.status, FORBIDDEN);
    let e = StatusController::get(&mut db, &mut redis, 5, UserIdQuery { user_id: None }).err().unwrap();
    assert_eq!(e.status, INTERNAL_SERVER_ERROR);
}

#[test]
fn profile_of_a_user() {
    let mut db = db_with(vec![user(1, ids(&[])), user(2, ids(&[]))]);
    let mut redis = Cache::new();
    let p = UserProfileService::get_user_profile(&mut db, &mut redis, None, 1).unwrap();
    assert_eq!((p.id, p.username.as_str(), p.rank.as_str()), (1, "user1", "player"));
    assert_eq!((p.status.status, p.status.last_seen_at), (UserStatuses::Offline, Some(at(2_000))));
    assert_eq!(p.registered_at, at(1_000));
    let e = UserProfileService::get_user_profile(&mut db, &mut redis, Some(UserIdQuery { user_id: Some(2) }), 1).err().unwrap();
    assert_eq!(e.status, FORBIDDEN);
}

#[test]
fn events_reach_the_friend_list() {
    let mut db = db_with(vec![user(1, ids(&["2", "3"])), user(2, ids(&[]))]);
    let b = FriendService::send_event(&db, 1, FriendEvents::FriendOnline).unwrap();
    assert_eq!(b.user_ids, vec![2, 3]);
    assert_eq!(b.event, FriendEvents::FriendOnline);
    set_settings(&mut db, all(1, Visibility::Hidden));
    for event in [FriendEvents::FriendOnline, FriendEvents::FriendOffline, FriendEvents::FriendJoinServer, FriendEvents::FriendDisconnect] {
        let e = FriendService::send_event(&db, 1, event).err().unwrap();
        assert_eq!((e.status, e.message.as_str()), (FORBIDDEN, ""));
    }
    assert!(FriendService::send_event(&db, 1, FriendEvents::Any).is_ok());
    let e = FriendService::send_event(&db, 9, FriendEvents::Any).err().unwrap();
    assert_eq!((e.status, e.message.as_str()), (BAD_GATEWAY, "Пользователь не найден"));
    user_service::repository::privacy::PrivacyRepository::add_user(&mut db, 8).unwrap();
    let e = FriendService::send_event(&db, 8, FriendEvents::Any).err().unwrap();
    assert_eq!((e.status, e.message.as_str()), (CONFLICT, ""));
}

#[test]
fn presence_events() {
    let db = db_with(vec![user(1, ids(&["5"]))]);
    let (b, p) = StatusController::online(&db, 1).unwrap().unwrap();
    assert_eq!((b.event, b.user_ids.clone(), p.id, p.server), (FriendEvents::FriendOnline, vec![5], 1, None));
    let (b, p) = StatusController::playing(&db, 1, 0).unwrap();
    assert_eq!((b.event, p.server), (FriendEvents::FriendDisconnect, None));
    let (b, p) = StatusController::playing(&db, 1, 77).unwrap();
    assert_eq!((b.event, p.server), (FriendEvents::FriendJoinServer, Some(77)));
    let mut db = db;
    let mut redis = Cache::new();
    let (b, _) = StatusController::offline(&mut db, &mut redis, 1).unwrap().unwrap();
    assert_eq!(b.event, FriendEvents::FriendOffline);
    assert_eq!(StatusController::online(&db, 4).err().unwrap().status, INTERNAL_SERVER_ERROR);
    set_settings(&mut db, all(1, Visibility::Hidden));
    assert!(StatusController::online(&db, 1).unwrap().is_none());
    assert!(StatusController::offline(&mut db, &mut redis, 1).unwrap().is_none());
    assert_eq!(StatusController::playing(&db, 1, 3).err().unwrap().status, FORBIDDEN);
}

#[test]
fn invitations_cool_down() {
    let mut db = db_with(vec![user(1, ids(&[])), user(2, ids(&[])), user(3, ids(&[]))]);
    friends(&mut db, 1, 2);
    let mut redis = Cache::new();
    let n = InviteController::invite(&db, &mut redis, 100, 1, InviteQuery { inviter_id: 2, server: 7 }).unwrap();
    assert_eq!((n.user_id, n.event), (1, WssEvent::Invite));
    assert!(matches!(n.payload, Payload::Invite { id: 2, server: 7 }));
    let e = InviteController::invite(&db, &mut redis, 104, 1, InviteQuery { inviter_id: 2, server: 7 }).err().unwrap();
    assert_eq!((e.status, e.message.as_str()), (TOO_MANY_REQUESTS, "Не так быстро, ковбой!"));
    assert!(InviteController::invite(&db, &mut redis, 105, 1, InviteQuery { inviter_id: 2, server: 7 }).is_ok());
    let e = InviteController::invite(&db, &mut redis, 105, 1, InviteQuery { inviter_id: 3, server: 7 }).err().unwrap();
    assert_eq!((e.status, e.message.as_str()), (FORBIDDEN, "Вы не можете приглашать пользователя"));
    let e = InviteController::invite(&db, &mut redis, 106, 1, InviteQuery { inviter_id: 3, server: 7 }).err().unwrap();
    assert_eq!(e.status, TOO_MANY_REQUESTS);
    assert!(InviteService::check_send(&mut redis, 106, 4, 5).is_ok());
    assert!(InviteService::check_send(&mut redis, 106, 5, 4).is_ok());
}
