use chrono::NaiveDateTime;
use user_service::cache::Cache;
use user_service::http::{BAD_REQUEST, FORBIDDEN, INTERNAL_SERVER_ERROR};
use user_service::models::friends::{Friendship, Relationship};
use user_service::models::user::{FriendEntry, FriendsJson, User, UserIdQuery};
use user_service::http::INTERNAL_SERVER_ERROR as SERVER_ERROR;
use user_service::repository::Database;
use user_service::repository::friends::{FriendsRepository, FriendshipTable};
use user_service::repository::user::UserRepository;
use user_service::service::wss::{Payload, WssEvent};
use user_service::controller::friends::FriendsController;

fn at(seconds: i64) -> NaiveDateTime {
    chrono::DateTime::from_timestamp(seconds, 0).unwrap().naive_utc()
}

fn user(id: i32, name: &str, friends: FriendsJson) -> User {
    User {
        id,
        username: name.to_string(),
        email: format!("{name}@example.com"),
        friends,
        rank: "player".to_string(),
        registered_at: at(1_000),
        last_seen_at: at(2_000),
    }
}

fn with_users(ids: &[i32]) -> Database {
    let mut db = Database::new();
    for &id in ids {
        let name = format!("user{id}");
        assert!(UserRepository::add_user(&mut db, user(id, &name, FriendsJson::Array(vec![]))).is_ok());
    }
    db
}

#[test]
fn add_then_repeat_is_refused_both_ways() {
    let mut db = with_users(&[1, 2]);
    let mut redis = Cache::new();
    let o = FriendsRepository::add(&mut db, &mut redis, 1, 2, at(5));
    let f = o.result.unwrap();
    assert_eq!((f.user_id, f.friend_id, f.status), (1, 2, Relationship::Pending));
    assert_eq!(o.notices.len(), 2);
    assert_eq!(o.notices[0].user_id, 1);
    assert_eq!(o.notices[0].event, WssEvent::FriendRequest);
    match &o.notices[0].payload {
        Payload::Profile(p) => assert_eq!((p.id, p.username.as_str()), (2, "user2")),
        _ => panic!("a profile was expected"),
    }
    match &o.notices[1].payload {
        Payload::Profile(p) => assert_eq!(p.id, 1),
        _ => panic!("a profile was expected"),
    }
    for (a, b) in [(1, 2), (2, 1)] {
        let again = FriendsRepository::add(&mut db, &mut redis, a, b, at(6));
        let e = again.result.err().unwrap();
        assert_eq!(e.status, BAD_REQUEST);
        assert_eq!(e.message, "Запрос в друзья уже существует или вы уже друзья");
        assert!(again.notices.is_empty());
    }
    assert_eq!(db.friendships.rows().len(), 1);
    assert!(!FriendsRepository::is_friends(&db, 1, 2));
}

#[test]
fn add_keeps_the_request_when_a_profile_is_missing() {
    let mut db = with_users(&[1]);
    let mut redis = Cache::new();
    let o = FriendsRepository::add(&mut db, &mut redis, 1, 3, at(5));
    let e = o.result.err().unwrap();
    assert_eq!(e.status, INTERNAL_SERVER_ERROR);
    assert_eq!(e.message, "Record not found");
    assert!(o.notices.is_empty());
    assert_eq!(db.friendships.rows().len(), 1);
}

#[test]
fn accept_makes_friends_and_refuses_twice() {
    let mut db = with_users(&[1, 2]);
    let mut redis = Cache::new();
    FriendsRepository::add(&mut db, &mut redis, 1, 2, at(5)).result.unwrap();
    let o = FriendsRepository::accept(&mut db, &mut redis, 1, 2);
    assert_eq!(o.result.unwrap().status, Relationship::Accepted);
    assert_eq!(o.notices.len(), 2);
    assert_eq!(o.notices[1].event, WssEvent::FriendAdd);
    assert!(FriendsRepository::is_friends(&db, 1, 2));
    assert!(FriendsRepository::is_friends(&db, 2, 1));
    let again = FriendsRepository::accept(&mut db, &mut redis, 1, 2);
    let e = again.result.err().unwrap();
    assert_eq!(e.status, BAD_REQUEST);
    assert_eq!(e.message, "Заявки не существует, или уже принята");
    assert!(again.notices.is_empty());
}

#[test]
fn accept_in_the_wrong_direction_is_refused() {
    let mut db = with_users(&[1, 2]);
    let mut redis = Cache::new();
    FriendsRepository::add(&mut db, &mut redis, 1, 2, at(5)).result.unwrap();
    let o = FriendsRepository::accept(&mut db, &mut redis, 2, 1);
    assert_eq!(o.result.err().unwrap().status, BAD_REQUEST);
    assert!(!FriendsRepository::is_friends(&db, 1, 2));
}

#[test]
fn remove_unlinks_and_a_new_request_is_taken() {
    let mut db = with_users(&[1, 2, 3]);
    let mut redis = Cache::new();
    FriendsRepository::add(&mut db, &mut redis, 1, 2, at(5)).result.unwrap();
    FriendsRepository::accept(&mut db, &mut redis, 1, 2).result.unwrap();
    FriendsRepository::add(&mut db, &mut redis, 3, 1, at(6)).result.unwrap();
    let o = FriendsRepository::remove(&mut db, 2, 1);
    assert!(o.result.is_ok());
    assert_eq!(o.notices.len(), 2);
    assert_eq!((o.notices[0].user_id, o.notices[0].event), (2, WssEvent::FriendRemove));
    assert!(matches!(o.notices[0].payload, Payload::Id(1)));
    assert!(matches!(o.notices[1].payload, Payload::Id(2)));
    assert!(!FriendsRepository::is_friends(&db, 1, 2));
    assert_eq!(FriendsRepository::get_friendship_list(&db, 1).len(), 1);
    assert!(FriendsRepository::add(&mut db, &mut redis, 2, 1, at(7)).result.is_ok());
}

#[test]
fn cancel_takes_out_one_direction_only() {
    let rows = vec![
        Friendship { user_id: 1, friend_id: 2, status: Relationship::Pending, created_at: at(1) },
        Friendship { user_id: 2, friend_id: 1, status: Relationship::Pending, created_at: at(2) },
    ];
    let mut db = Database::new();
    db.friendships = FriendshipTable::from_rows(rows).unwrap();
    let o = FriendsRepository::cancel(&mut db, 2, 1);
    assert_eq!(o.notices.len(), 2);
    assert_eq!((o.notices[0].user_id, o.notices[1].user_id), (1, 2));
    assert_eq!(o.notices[0].event, WssEvent::FriendCancel);
    let left = db.friendships.rows();
    assert_eq!(left.len(), 1);
    assert_eq!((left[0].user_id, left[0].friend_id), (2, 1));
}

#[test]
fn from_rows_refuses_a_repeated_pair() {
    let rows = vec![
        Friendship { user_id: 1, friend_id: 2, status: Relationship::Pending, created_at: at(1) },
        Friendship { user_id: 1, friend_id: 2, status: Relationship::Accepted, created_at: at(2) },
    ];
    assert!(FriendshipTable::from_rows(rows).is_none());
}

#[test]
fn lists_and_requests_of_a_user() {
    let rows = vec![
        Friendship { user_id: 1, friend_id: 2, status: Relationship::Accepted, created_at: at(1) },
        Friendship { user_id: 3, friend_id: 4, status: Relationship::Pending, created_at: at(2) },
        Friendship { user_id: 5, friend_id: 1, status: Relationship::Pending, created_at: at(3) },
    ];
    let mut db = Database::new();
    db.friendships = FriendshipTable::from_rows(rows).unwrap();
    let list = FriendsRepository::get_friendship_list(&db, 1);
    assert_eq!(list.iter().map(|f| f.user_id).collect::<Vec<_>>(), vec![1, 5]);
    let requests = FriendsRepository::get_friend_requests(&db, 1);
    assert_eq!(requests.len(), 1);
    assert_eq!(requests[0].user_id, 5);
    assert!(FriendsRepository::get_friend_requests(&db, 2).is_empty());
}

#[test]
fn friend_ids_read_strings_and_give_zero_for_the_rest() {
    let friends = FriendsJson::Array(vec![
        FriendEntry::Text("7".to_string()),
        FriendEntry::Other("null".to_string()),
        FriendEntry::Text("x".to_string()),
        FriendEntry::Text("-12".to_string()),
        FriendEntry::Text("+3".to_string()),
        FriendEntry::Text("2147483648".to_string()),
    ]);
    let mut db = Database::new();
    UserRepository::add_user(&mut db, user(1, "a", friends)).unwrap();
    assert_eq!(FriendsRepository::get_friend_ids(&db, 1).unwrap(), vec![7, 0, 0, -12, 3, 0]);
    let e = FriendsRepository::get_friend_ids(&db, 9).err().unwrap();
    assert_eq!((e.status, e.message.as_str()), (INTERNAL_SERVER_ERROR, "Record not found"));
    let mut other = Database::new();
    UserRepository::add_user(&mut other, user(1, "a", FriendsJson::Object(vec![]))).unwrap();
    assert!(FriendsRepository::get_friend_ids(&other, 1).unwrap().is_empty());
}

#[test]
fn friend_list_skips_entries_that_name_no_id() {
    let friends = FriendsJson::Array(vec![
        FriendEntry::Text("2".to_string()),
        FriendEntry::Other("null".to_string()),
        FriendEntry::Text("3".to_string()),
    ]);
    let mut db = with_users(&[2, 3]);
    UserRepository::add_user(&mut db, user(1, "one", friends)).unwrap();
    let rows = vec![
        Friendship { user_id: 1, friend_id: 2, status: Relationship::Accepted, created_at: at(1) },
        Friendship { user_id: 3, friend_id: 1, status: Relationship::Accepted, created_at: at(2) },
    ];
    db.friendships = FriendshipTable::from_rows(rows).unwrap();
    let mut redis = Cache::new();
    let profiles = FriendsRepository::get_friend_list(&mut db, &mut redis, 1).unwrap();
    assert_eq!(profiles.iter().map(|p| p.id).collect::<Vec<_>>(), vec![2, 3]);
    let e = FriendsRepository::get_friend_list(&mut db, &mut redis, 8).err().unwrap();
    assert_eq!((e.status, e.message.as_str()), (INTERNAL_SERVER_ERROR, "Не удалось получить список друзей"));
}

#[test]
fn accept_lists_each_user_in_the_others_friends() {
    let mut db = with_users(&[1, 2]);
    let mut redis = Cache::new();
    FriendsRepository::add(&mut db, &mut redis, 1, 2, at(5)).result.unwrap();
    assert!(FriendsRepository::get_friend_list(&mut db, &mut redis, 1).unwrap().is_empty());
    FriendsRepository::accept(&mut db, &mut redis, 1, 2).result.unwrap();
    let of_one = FriendsRepository::get_friend_list(&mut db, &mut redis, 1).unwrap();
    assert_eq!(of_one.iter().map(|p| p.id).collect::<Vec<_>>(), vec![2]);
    let of_two = FriendsRepository::get_friend_list(&mut db, &mut redis, 2).unwrap();
    assert_eq!(of_two.iter().map(|p| p.id).collect::<Vec<_>>(), vec![1]);
    assert_eq!(FriendsRepository::get_friend_ids(&db, 1).unwrap(), vec![2]);
    match &db.users.rows()[0].friends {
        FriendsJson::Array(v) => assert!(matches!(v.as_slice(), [FriendEntry::Text(s)] if s == "2")),
        _ => panic!("an array was expected"),
    }
}

#[test]
fn a_refused_accept_leaves_the_friend_lists() {
    let mut db = with_users(&[1, 2]);
    let mut redis = Cache::new();
    FriendsRepository::add(&mut db, &mut redis, 1, 2, at(5)).result.unwrap();
    assert!(FriendsRepository::accept(&mut db, &mut redis, 2, 1).result.is_err());
    assert!(FriendsRepository::get_friend_ids(&db, 1).unwrap().is_empty());
    assert!(FriendsRepository::get_friend_ids(&db, 2).unwrap().is_empty());
}

#[test]
fn accept_turns_a_list_that_is_no_array_into_one() {
    let mut db = with_users(&[2]);
    UserRepository::add_user(&mut db, user(1, "one", FriendsJson::Object(vec![]))).unwrap();
    let mut redis = Cache::new();
    FriendsRepository::add(&mut db, &mut redis, 2, 1, at(5)).result.unwrap();
    FriendsRepository::accept(&mut db, &mut redis, 2, 1).result.unwrap();
    assert_eq!(FriendsRepository::get_friend_ids(&db, 1).unwrap(), vec![0, 2]);
    assert_eq!(FriendsRepository::get_friend_ids(&db, 2).unwrap(), vec![1]);
}

#[test]
fn remove_takes_the_other_out_of_both_friend_lists() {
    let mut db = with_users(&[2, 3]);
    let friends = FriendsJson::Array(vec![
        FriendEntry::Text("2".to_string()),
        FriendEntry::Other("null".to_string()),
        FriendEntry::Text("3".to_string()),
        FriendEntry::Text("+2".to_string()),
        FriendEntry::Text("2".to_string()),
    ]);
    UserRepository::add_user(&mut db, user(1, "one", friends)).unwrap();
    let mut redis = Cache::new();
    FriendsRepository::add(&mut db, &mut redis, 2, 1, at(5)).result.unwrap();
    FriendsRepository::accept(&mut db, &mut redis, 2, 1).result.unwrap();
    assert_eq!(FriendsRepository::get_friend_ids(&db, 2).unwrap(), vec![1]);
    let o = FriendsRepository::remove(&mut db, 1, 2);
    assert!(o.result.is_ok());
    assert_eq!(FriendsRepository::get_friend_ids(&db, 1).unwrap(), vec![0, 3, 2]);
    assert!(FriendsRepository::get_friend_ids(&db, 2).unwrap().is_empty());
    assert!(FriendsRepository::get_friend_ids(&db, 3).unwrap().is_empty());
    assert!(db.friendships.rows().is_empty());
}

#[test]
fn request_accept_remove_comes_back_to_the_start() {
    let mut db = with_users(&[1, 2]);
    let mut redis = Cache::new();
    FriendsRepository::add(&mut db, &mut redis, 1, 2, at(5)).result.unwrap();
    FriendsRepository::accept(&mut db, &mut redis, 1, 2).result.unwrap();
    FriendsRepository::remove(&mut db, 2, 1).result.unwrap();
    assert!(db.friendships.rows().is_empty());
    assert!(FriendsRepository::get_friend_ids(&db, 1).unwrap().is_empty());
    assert!(FriendsRepository::get_friend_ids(&db, 2).unwrap().is_empty());
    assert!(!FriendsRepository::is_friends(&db, 1, 2));
    FriendsRepository::add(&mut db, &mut redis, 1, 2, at(6)).result.unwrap();
    FriendsRepository::cancel(&mut db, 2, 1).result.unwrap();
    assert!(db.friendships.rows().is_empty());
}

#[test]
fn friend_list_stops_at_a_profile_that_may_not_be_seen() {
    let friends = FriendsJson::Array(vec![FriendEntry::Text("2".to_string())]);
    let mut db = with_users(&[2]);
    UserRepository::add_user(&mut db, user(1, "one", friends)).unwrap();
    let mut redis = Cache::new();
    let e = FriendsRepository::get_friend_list(&mut db, &mut redis, 1).err().unwrap();
    assert_eq!(e.status, FORBIDDEN);
    assert_eq!(e.message, "Пользователь скрыл профиль");
}

#[test]
fn friendship_list_is_guarded_by_the_friends_setting() {
    let mut db = with_users(&[1, 2, 3]);
    let mut redis = Cache::new();
    FriendsRepository::add(&mut db, &mut redis, 1, 2, at(5)).result.unwrap();
    FriendsRepository::accept(&mut db, &mut redis, 1, 2).result.unwrap();
    assert_eq!(FriendsController::get_friendship_list(&db, 1, UserIdQuery { user_id: Some(1) }).unwrap().len(), 1);
    assert_eq!(FriendsController::get_friendship_list(&db, 1, UserIdQuery { user_id: Some(2) }).unwrap().len(), 1);
    assert!(FriendsController::get_friendship_list(&db, 1, UserIdQuery { user_id: None }).is_ok());
    let e = FriendsController::get_friendship_list(&db, 1, UserIdQuery { user_id: Some(3) }).err().unwrap();
    assert_eq!((e.status, e.message.as_str()), (FORBIDDEN, "Пользователь скрыл друзей"));
    let e = FriendsController::get_friendship_list(&db, 9, UserIdQuery { user_id: None }).err().unwrap();
    assert_eq!(e.status, INTERNAL_SERVER_ERROR);
    let list = FriendsController::get_friend_list(&mut db, &mut redis, 1, UserIdQuery { user_id: Some(1) }).unwrap();
    assert_eq!(list.iter().map(|p| p.id).collect::<Vec<_>>(), vec![2]);
}

#[test]
fn cancel_leaves_a_friendship() {
    let rows = vec![Friendship { user_id: 1, friend_id: 2, status: Relationship::Accepted, created_at: at(1) }];
    let mut db = Database::new();
    db.friendships = FriendshipTable::from_rows(rows).unwrap();
    let o = FriendsRepository::cancel(&mut db, 2, 1);
    assert!(o.result.is_ok());
    assert_eq!(db.friendships.rows().len(), 1);
    assert!(FriendsRepository::is_friends(&db, 1, 2));
}

#[test]
fn a_refused_accept_tells_nobody() {
    let mut db = with_users(&[1, 2]);
    let mut redis = Cache::new();
    let o = FriendsRepository::accept(&mut db, &mut redis, 1, 2);
    assert_eq!(o.result.err().unwrap().status, BAD_REQUEST);
    assert!(o.notices.is_empty());
}

#[test]
fn remove_is_refused_when_friends_are_a_scalar() {
    let mut db = with_users(&[2]);
    UserRepository::add_user(&mut db, user(1, "one", FriendsJson::Scalar("5".to_string()))).unwrap();
    let rows = vec![Friendship { user_id: 1, friend_id: 2, status: Relationship::Accepted, created_at: at(1) }];
    db.friendships = FriendshipTable::from_rows(rows).unwrap();
    let o = FriendsRepository::remove(&mut db, 2, 1);
    let e = o.result.err().unwrap();
    assert_eq!((e.status, e.message.as_str()), (SERVER_ERROR, "cannot delete from scalar"));
    assert_eq!(o.notices.len(), 2);
    assert!(FriendsRepository::is_friends(&db, 1, 2));
}

#[test]
fn remove_takes_the_key_out_of_an_object() {
    let mut db = with_users(&[2]);
    let members = vec![("2".to_string(), "true".to_string()), ("x".to_string(), "1".to_string())];
    UserRepository::add_user(&mut db, user(1, "one", FriendsJson::Object(members))).unwrap();
    assert!(FriendsRepository::remove(&mut db, 1, 2).result.is_ok());
    match &db.users.rows()[1].friends {
        FriendsJson::Object(m) => assert_eq!(m, &vec![("x".to_string(), "1".to_string())]),
        _ => panic!("an object was expected"),
    }
}

#[test]
fn confirm_accepts_the_request_of_the_sender() {
    let mut db = with_users(&[1, 2]);
    let mut redis = Cache::new();
    FriendsRepository::add(&mut db, &mut redis, 1, 2, at(5)).result.unwrap();
    assert!(FriendsController::confirm(&mut db, &mut redis, 1, 2).result.is_err());
    let o = FriendsController::confirm(&mut db, &mut redis, 2, 1);
    assert_eq!(o.result.unwrap().status, Relationship::Accepted);
    assert!(FriendsRepository::is_friends(&db, 1, 2));
}

#[test]
fn cancel_route_declines_or_withdraws() {
    let mut db = with_users(&[1, 2, 3]);
    let mut redis = Cache::new();
    FriendsRepository::add(&mut db, &mut redis, 1, 2, at(5)).result.unwrap();
    let o = FriendsController::cancel(&mut db, 2, 1);
    assert_eq!((o.notices[0].user_id, o.notices[1].user_id), (1, 2));
    assert!(db.friendships.rows().is_empty());
    FriendsRepository::add(&mut db, &mut redis, 1, 3, at(6)).result.unwrap();
    let o = FriendsController::cancel(&mut db, 1, 3);
    assert_eq!((o.notices[0].user_id, o.notices[1].user_id), (1, 3));
    assert!(db.friendships.rows().is_empty());
}
