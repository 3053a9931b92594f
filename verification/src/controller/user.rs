use vstd::prelude::*;
use crate::http::{HttpError, BAD_REQUEST};
use crate::models::user::User;
use crate::repository::Database;
use crate::repository::user::{UserRepository, first_with_email, page, user_not_found_message, user_of};

verus! {

/// A page of users asked for: how many, and after how many.
pub struct GetUsersQuery {
    pub limit: Option<u8>,
    pub offset: Option<u32>,
}

/// A user asked for by email.
pub struct UsersQuery {
    pub email: Option<String>,
}

/// The size of a page when the query names none.
pub const DEFAULT_PAGE_SIZE: u8 = 5;

/// Users, as the service offers them.
pub struct UserController;

impl UserController {
    /// The user with the email of the query, when it names one; else the
    /// user `id`. Refused with `400` when there is no such user.
    pub fn get_user(db: &Database, id: i32, query: UsersQuery) -> (r: Result<User, HttpError>)
        requires
            db.wf(),
        ensures
            ({
                let found = match query.email {
                    Some(email) => first_with_email(db.users@, email@),
                    None => user_of(db.users@, id),
                };
                match found {
                    Some(u) => r matches Ok(x) && x@ == u,
                    None => r matches Err(e) && e.is(BAD_REQUEST, user_not_found_message()),
                }
            }),
    {
        if let Some(email) = query.email {
            return UserRepository::find_by_email(db, email);
        }
        UserRepository::get_user(db, id)
    }

    /// A page of users: as many as the query says, `DEFAULT_PAGE_SIZE` when
    /// it says none, after as many as it says, none when it says none.
    pub fn get_users(db: &Database, query: GetUsersQuery) -> (r: Vec<User>)
        ensures
            r@.map_values(|u: User| u@) == page(
                db.users@,
                match query.limit { Some(l) => l as int, None => DEFAULT_PAGE_SIZE as int },
                match query.offset { Some(o) => o as int, None => 0 },
            ),
    {
        let limit = match query.limit {
            Some(l) => l,
            None => DEFAULT_PAGE_SIZE,
        };
        let offset = match query.offset {
            Some(o) => o,
            None => 0,
        };
        UserRepository::get_users(db, limit, offset)
    }
}

} // verus!
