use chrono::NaiveDateTime;
use user_service::http::{BAD_GATEWAY, BAD_REQUEST, CONFLICT, INTERNAL_SERVER_ERROR};
use user_service::models::privacy::{PrivacySetting, UsersPrivacy, Visibility};
use user_service::models::user::{FriendsJson, User, UserUpdate};
use user_service::repository::Database;
use user_service::repository::privacy::PrivacyRepository;
use user_service::repository::user::UserRepository;
use user_service::service::user::UserService;
use user_service::controller::user::{GetUsersQuery, UserController, UsersQuery};

fn at(seconds: i64) -> NaiveDateTime {
    chrono::DateTime::from_timestamp(seconds, 0).unwrap().naive_utc()
}

fn user(id: i32, name: &str) -> User {
    User {
        id,
        username: name.to_string(),
        email: format!("{name}@example.com"),
        friends: FriendsJson::Array(vec![]),
        rank: "player".to_string(),
        registered_at: at(1_000),
        last_seen_at: at(2_000),
    }
}

fn names(users: &[User]) -> Vec<String> {
    users.iter().map(|u| u.username.clone()).collect()
}

#[test]
fn add_then_get_gives_the_user_and_open_settings() {
    let mut db = Database::new();
    let added = UserRepository::add_user(&mut db, user(4, "ann")).unwrap();
    assert_eq!(added.username, "ann");
    let got = UserRepository::get_user(&db, 4).unwrap();
    assert_eq!((got.id, got.email.as_str()), (4, "ann@example.com"));
    let settings = PrivacyRepository::get_settings(&db, 4).unwrap();
    assert_eq!(settings, UsersPrivacy::new(4));
    assert_eq!(settings.get(PrivacySetting::HoursVisibility), Visibility::Open);
}

#[test]
fn add_with_a_taken_id_is_a_conflict() {
    let mut db = Database::new();
    UserRepository::add_user(&mut db, user(4, "ann")).unwrap();
    let e = UserRepository::add_user(&mut db, user(4, "bob")).err().unwrap();
    assert_eq!((e.status, e.message.as_str()), (CONFLICT, "Не получилось добавить пользователя"));
    assert_eq!(UserRepository::get_user(&db, 4).unwrap().username, "ann");
}

#[test]
fn missing_user_is_a_bad_request() {
    let db = Database::new();
    let e = UserRepository::get_user(&db, 1).err().unwrap();
    assert_eq!((e.status, e.message.as_str()), (BAD_REQUEST, "Не получилось найти пользователя"));
    let e = UserRepository::find_by_email(&db, "x@y".to_string()).err().unwrap();
    assert_eq!(e.status, BAD_REQUEST);
}

#[test]
fn find_by_email_gives_the_first_match() {
    let mut db = Database::new();
    let mut second = user(2, "bob");
    second.email = "ann@example.com".to_string();
    UserRepository::add_user(&mut db, user(1, "ann")).unwrap();
    UserRepository::add_user(&mut db, second).unwrap();
    assert_eq!(UserRepository::find_by_email(&db, "ann@example.com".to_string()).unwrap().id, 1);
}

#[test]
fn patch_replaces_the_given_fields_only() {
    let mut db = Database::new();
    UserRepository::add_user(&mut db, user(1, "ann")).unwrap();
    let update = UserUpdate { username: None, email: Some("new@example.com".to_string()), rank: Some("admin".to_string()) };
    let u = UserRepository::patch_user(&mut db, 1, update).unwrap();
    assert_eq!((u.username.as_str(), u.email.as_str(), u.rank.as_str()), ("ann", "new@example.com", "admin"));
    let again = UserRepository::get_user(&db, 1).unwrap();
    assert_eq!(again.rank, "admin");
}

#[test]
fn patch_that_changes_nothing_or_no_one_is_refused() {
    let mut db = Database::new();
    UserRepository::add_user(&mut db, user(1, "ann")).unwrap();
    let empty = UserUpdate { username: None, email: None, rank: None };
    let e = UserRepository::patch_user(&mut db, 1, empty).err().unwrap();
    assert_eq!((e.status, e.message.as_str()), (BAD_REQUEST, "Не получилось обновить пользователя"));
    let update = UserUpdate { username: Some("z".to_string()), email: None, rank: None };
    assert_eq!(UserRepository::patch_user(&mut db, 2, update).err().unwrap().status, BAD_REQUEST);
}

#[test]
fn delete_then_get_is_refused() {
    let mut db = Database::new();
    UserRepository::add_user(&mut db, user(1, "ann")).unwrap();
    UserRepository::add_user(&mut db, user(2, "bob")).unwrap();
    UserRepository::delete_user(&mut db, 1);
    assert!(UserRepository::get_user(&db, 1).is_err());
    assert!(UserRepository::get_user(&db, 2).is_ok());
    UserRepository::delete_user(&mut db, 7);
    assert_eq!(UserRepository::get_users(&db, 10, 0).len(), 1);
}

#[test]
fn pages_of_users() {
    let mut db = Database::new();
    for (id, name) in [(1, "a"), (2, "b"), (3, "c"), (4, "d")] {
        UserRepository::add_user(&mut db, user(id, name)).unwrap();
    }
    assert_eq!(names(&UserRepository::get_users(&db, 2, 1)), vec!["b", "c"]);
    assert_eq!(names(&UserRepository::get_users(&db, 9, 3)), vec!["d"]);
    assert!(UserRepository::get_users(&db, 2, 9).is_empty());
    assert!(UserRepository::get_users(&db, 0, 0).is_empty());
}

#[test]
fn service_pages_hold_at_most_twenty_five() {
    let mut db = Database::new();
    for id in 0..30 {
        UserRepository::add_user(&mut db, user(id, &format!("u{id}"))).unwrap();
    }
    assert_eq!(UserService::get_users(&db, 200, 0).len(), 25);
    assert_eq!(UserService::get_users(&db, 3, 28).len(), 2);
    assert_eq!(UserRepository::get_users(&db, 200, 0).len(), 30);
}

#[test]
fn controller_defaults_and_email_lookup() {
    let mut db = Database::new();
    for id in 0..8 {
        UserRepository::add_user(&mut db, user(id, &format!("u{id}"))).unwrap();
    }
    assert_eq!(UserController::get_users(&db, GetUsersQuery { limit: None, offset: None }).len(), 5);
    assert_eq!(names(&UserController::get_users(&db, GetUsersQuery { limit: Some(2), offset: Some(6) })), vec!["u6", "u7"]);
    let by_email = UserController::get_user(&db, 0, UsersQuery { email: Some("u3@example.com".to_string()) }).unwrap();
    assert_eq!(by_email.id, 3);
    assert_eq!(UserController::get_user(&db, 5, UsersQuery { email: None }).unwrap().id, 5);
    assert!(UserController::get_user(&db, 5, UsersQuery { email: Some("none".to_string()) }).is_err());
}

#[test]
fn privacy_settings_reads_and_errors() {
    let mut db = Database::new();
    PrivacyRepository::add_user(&mut db, 3).unwrap();
    let e = PrivacyRepository::add_user(&mut db, 3).err().unwrap();
    assert_eq!(e.status, INTERNAL_SERVER_ERROR);
    assert_eq!(PrivacyRepository::get_can_invite(&db, 3).unwrap(), Visibility::Open);
    let e = PrivacyRepository::get_settings(&db, 4).err().unwrap();
    assert_eq!((e.status, e.message.as_str()), (BAD_GATEWAY, "Пользователь не найден"));
    let e = PrivacyRepository::get_online_visibility(&db, 4).err().unwrap();
    assert_eq!((e.status, e.message.as_str()), (INTERNAL_SERVER_ERROR, "Record not found"));
}
